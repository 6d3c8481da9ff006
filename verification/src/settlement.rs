//! The settlement of a group's debts.
//!
//! From the expenses of one group the engine computes what each spender has
//! spent, the mean over the spenders, and each spender's balance: what they
//! spent less the mean. Those with a balance above zero are owed money, those
//! with one below zero owe it. Each of the two lists is sorted from the
//! largest amount down, and the largest debtor left pays the largest
//! creditor left until one of the lists is used up.

use crate::amount::{spec_checked_add, spec_checked_div, spec_checked_sub, Amount};
use crate::entity::expense;
use crate::settlement_laws::{lemma_balances_distinct, lemma_totals_from_distinct};
use crate::text::{same_text, text_before, text_less};
use vstd::prelude::*;

verus! {

/// A user with an amount: what they spent, their balance, or what is left of
/// their debt or credit.
#[derive(Clone, Debug, PartialEq, Eq)]
pub struct Share {
    pub username: String,
    pub amount: Amount,
}

/// A share with the handle as a sequence of characters.
pub struct ShareView {
    pub username: Seq<char>,
    pub amount: Amount,
}

impl View for Share {
    type V = ShareView;

    open spec fn view(&self) -> ShareView {
        ShareView { username: self.username@, amount: self.amount }
    }
}

/// The shares of a list, each by its view.
pub open spec fn share_views(shares: Seq<Share>) -> Seq<ShareView> {
    Seq::new(shares.len(), |i: int| shares[i]@)
}

/// Every amount of the list is within the limits of a decimal.
pub open spec fn shares_wf(shares: Seq<ShareView>) -> bool {
    forall|i: int| 0 <= i < shares.len() ==> (#[trigger] shares[i]).amount.wf()
}

/// No handle occurs twice in the list.
pub open spec fn distinct_users(shares: Seq<ShareView>) -> bool {
    forall|i: int, j: int|
        0 <= i < shares.len() && 0 <= j < shares.len() && i != j ==> (#[trigger] shares[i]).username != (
        #[trigger] shares[j]).username
}

/// Some share of the list has this handle.
pub open spec fn has_user(shares: Seq<ShareView>, username: Seq<char>) -> bool {
    exists|i: int| 0 <= i < shares.len() && (#[trigger] shares[i]).username == username
}

/// Money that one user is to pay to another.
#[derive(Clone, Debug, PartialEq, Eq)]
pub struct Transfer {
    pub debtor: String,
    pub creditor: String,
    pub amount: Amount,
}

/// A transfer with the handles as sequences of characters.
pub struct TransferView {
    pub debtor: Seq<char>,
    pub creditor: Seq<char>,
    pub amount: Amount,
}

impl View for Transfer {
    type V = TransferView;

    open spec fn view(&self) -> TransferView {
        TransferView { debtor: self.debtor@, creditor: self.creditor@, amount: self.amount }
    }
}

/// The transfers of a list, each by its view.
pub open spec fn transfer_views(transfers: Seq<Transfer>) -> Seq<TransferView> {
    Seq::new(transfers.len(), |i: int| transfers[i]@)
}

/// Every amount of the list is within the limits of a decimal.
pub open spec fn transfers_wf(transfers: Seq<TransferView>) -> bool {
    forall|i: int| 0 <= i < transfers.len() ==> (#[trigger] transfers[i]).amount.wf()
}

/// Why a settlement was given up.
#[derive(Clone, Copy, Debug, PartialEq, Eq, Structural)]
pub enum SettleError {
    /// A sum, the mean or a difference cannot be represented as a decimal.
    Overflow,
    /// The balances do not add up to zero: the mean could not be taken
    /// exactly.
    Unbalanced,
}

/// The index of the first share at or after `from` with this handle, or the
/// length of the list where there is none.
pub open spec fn find_user(shares: Seq<ShareView>, username: Seq<char>, from: int) -> int
    decreases shares.len() - from,
{
    if from < 0 || from >= shares.len() {
        shares.len() as int
    } else if shares[from].username == username {
        from
    } else {
        find_user(shares, username, from + 1)
    }
}

/// The totals after one more expense: the amount is added to what the user
/// has spent so far, and a user who is new to the list starts from zero.
pub open spec fn add_expense_to(totals: Seq<ShareView>, username: Seq<char>, amount: Amount) -> Option<
    Seq<ShareView>,
> {
    let k = find_user(totals, username, 0);
    let so_far = if k < totals.len() {
        totals[k].amount
    } else {
        Amount { mantissa: 0, scale: 0 }
    };
    match spec_checked_add(so_far, amount) {
        None => None,
        Some(sum) => {
            let share = ShareView { username, amount: sum };
            if k < totals.len() {
                Some(totals.update(k, share))
            } else {
                Some(totals.push(share))
            }
        },
    }
}

/// The totals after the expenses from index `i` on, `totals` being those of
/// the expenses before `i`.
pub open spec fn totals_from(expenses: Seq<expense::ModelView>, i: int, totals: Seq<ShareView>) -> Option<
    Seq<ShareView>,
>
    decreases expenses.len() - i,
{
    if i < 0 || i >= expenses.len() {
        Some(totals)
    } else {
        match add_expense_to(totals, expenses[i].username, expenses[i].amount) {
            None => None,
            Some(next) => totals_from(expenses, i + 1, next),
        }
    }
}

/// What each spender has spent in all, in the order in which the spenders
/// first occur; `None` where a sum cannot be represented.
pub open spec fn spec_totals(expenses: Seq<expense::ModelView>) -> Option<Seq<ShareView>> {
    totals_from(expenses, 0, Seq::empty())
}

/// The index of the share with this handle, or the length of the list.
pub fn position_of_user(shares: &Vec<Share>, username: &str) -> (k: usize)
    ensures
        k as int == find_user(share_views(shares@), username@, 0),
        k <= shares.len(),
{
    let ghost views = share_views(shares@);
    let mut k: usize = 0;
    while k < shares.len()
        invariant
            k <= shares.len(),
            views == share_views(shares@),
            find_user(views, username@, 0) == find_user(views, username@, k as int),
        decreases shares.len() - k,
    {
        assert(views[k as int] == shares@[k as int]@);
        if same_text(shares[k].username.as_str(), username) {
            return k;
        }
        k = k + 1;
    }
    k
}

/// Adds up what each spender has spent, in the order in which the spenders
/// first occur. No spender occurs twice in the totals.
pub fn total_spent_per_user(expenses: &Vec<expense::Model>) -> (r: Option<Vec<Share>>)
    requires
        expense::all_wf(expense::views(expenses@)),
    ensures
        match r {
            Some(totals) => spec_totals(expense::views(expenses@)) == Some(share_views(totals@)) && shares_wf(
                share_views(totals@),
            ) && distinct_users(share_views(totals@)),
            None => spec_totals(expense::views(expenses@)) is None,
        },
{
    let ghost views = expense::views(expenses@);
    proof {
        lemma_totals_from_distinct(views, 0, Seq::empty());
    }
    let mut totals: Vec<Share> = Vec::new();
    assert(share_views(totals@) =~= Seq::empty());
    let mut i: usize = 0;
    while i < expenses.len()
        invariant
            i <= expenses.len(),
            views == expense::views(expenses@),
            expense::all_wf(views),
            shares_wf(share_views(totals@)),
            spec_totals(views) == totals_from(views, i as int, share_views(totals@)),
        decreases expenses.len() - i,
    {
        let entry = &expenses[i];
        assert(views[i as int] == entry@);
        let ghost before = share_views(totals@);
        let k = position_of_user(&totals, entry.username.as_str());
        let so_far = if k < totals.len() {
            assert(before[k as int] == totals@[k as int]@);
            totals[k].amount
        } else {
            Amount::zero()
        };
        match so_far.checked_add(entry.amount) {
            None => {
                return None;
            },
            Some(sum) => {
                let share = Share { username: entry.username.clone(), amount: sum };
                if k < totals.len() {
                    totals.set(k, share);
                    assert(share_views(totals@) =~= before.update(k as int, share@));
                } else {
                    totals.push(share);
                    assert(share_views(totals@) =~= before.push(share@));
                }
            },
        }
        i = i + 1;
    }
    Some(totals)
}

/// The sum of the amounts from index `i` on, added one by one to `so_far`.
pub open spec fn sum_from(shares: Seq<ShareView>, i: int, so_far: Amount) -> Option<Amount>
    decreases shares.len() - i,
{
    if i < 0 || i >= shares.len() {
        Some(so_far)
    } else {
        match spec_checked_add(so_far, shares[i].amount) {
            None => None,
            Some(next) => sum_from(shares, i + 1, next),
        }
    }
}

/// The sum of the amounts of a list, added one by one from zero in the
/// order of the list; `None` where a sum cannot be represented.
pub open spec fn spec_sum(shares: Seq<ShareView>) -> Option<Amount> {
    sum_from(shares, 0, Amount { mantissa: 0, scale: 0 })
}

/// Adds up the amounts of a list.
pub fn sum_amounts(shares: &Vec<Share>) -> (r: Option<Amount>)
    requires
        shares_wf(share_views(shares@)),
    ensures
        r == spec_sum(share_views(shares@)),
        r matches Some(s) ==> s.wf(),
{
    let ghost views = share_views(shares@);
    let mut sum = Amount::zero();
    let mut i: usize = 0;
    while i < shares.len()
        invariant
            i <= shares.len(),
            views == share_views(shares@),
            shares_wf(views),
            sum.wf(),
            spec_sum(views) == sum_from(views, i as int, sum),
        decreases shares.len() - i,
    {
        assert(views[i as int] == shares@[i as int]@);
        match sum.checked_add(shares[i].amount) {
            None => {
                return None;
            },
            Some(next) => {
                sum = next;
            },
        }
        i = i + 1;
    }
    Some(sum)
}

/// The mean of the totals: their sum divided by their number.
pub open spec fn spec_mean(totals: Seq<ShareView>) -> Option<Amount> {
    match spec_sum(totals) {
        None => None,
        Some(sum) => spec_checked_div(sum, Amount { mantissa: totals.len() as i128, scale: 0 }),
    }
}

/// The mean of what the spenders have spent; `None` where the sum or the
/// quotient cannot be represented.
pub fn mean_spent(totals: &Vec<Share>) -> (r: Option<Amount>)
    requires
        shares_wf(share_views(totals@)),
    ensures
        r == spec_mean(share_views(totals@)),
        r matches Some(m) ==> m.wf(),
{
    match sum_amounts(totals) {
        None => None,
        Some(sum) => sum.checked_div(Amount::from_count(totals.len())),
    }
}

/// The balance of each spender: what they spent less the mean. `None` where
/// one of the differences cannot be represented.
pub open spec fn spec_balances(totals: Seq<ShareView>, mean: Amount) -> Option<Seq<ShareView>> {
    if forall|i: int| 0 <= i < totals.len() ==> spec_checked_sub((#[trigger] totals[i]).amount, mean) is Some {
        Some(
            Seq::new(
                totals.len(),
                |i: int|
                    ShareView {
                        username: totals[i].username,
                        amount: spec_checked_sub(totals[i].amount, mean).unwrap(),
                    },
            ),
        )
    } else {
        None
    }
}

/// Takes the mean from what each spender has spent.
pub fn balances_of(totals: &Vec<Share>, mean: Amount) -> (r: Option<Vec<Share>>)
    requires
        shares_wf(share_views(totals@)),
        mean.wf(),
    ensures
        match r {
            Some(balances) => spec_balances(share_views(totals@), mean) == Some(share_views(balances@))
                && shares_wf(share_views(balances@)),
            None => spec_balances(share_views(totals@), mean) is None,
        },
{
    let ghost views = share_views(totals@);
    let mut balances: Vec<Share> = Vec::new();
    let mut i: usize = 0;
    while i < totals.len()
        invariant
            i <= totals.len(),
            views == share_views(totals@),
            shares_wf(views),
            mean.wf(),
            balances.len() == i,
            shares_wf(share_views(balances@)),
            forall|k: int|
                0 <= k < i ==> spec_checked_sub((#[trigger] views[k]).amount, mean) == Some(
                    share_views(balances@)[k].amount,
                ) && share_views(balances@)[k].username == views[k].username,
        decreases totals.len() - i,
    {
        assert(views[i as int] == totals@[i as int]@);
        let ghost before = share_views(balances@);
        match totals[i].amount.checked_sub(mean) {
            None => {
                return None;
            },
            Some(balance) => {
                let share = Share { username: totals[i].username.clone(), amount: balance };
                balances.push(share);
                assert(share_views(balances@) =~= before.push(share@));
            },
        }
        i = i + 1;
    }
    assert(spec_balances(views, mean).unwrap() =~= share_views(balances@));
    Some(balances)
}

/// The amount with the opposite sign.
pub open spec fn negated(a: Amount) -> Amount {
    Amount { mantissa: (-a.mantissa) as i128, scale: a.scale }
}

/// The creditors among the first `n` balances, in their order: those whose
/// balance is above zero, each with that balance.
pub open spec fn creditors_upto(balances: Seq<ShareView>, n: int) -> Seq<ShareView>
    decreases n,
{
    if n <= 0 || n > balances.len() {
        Seq::empty()
    } else if balances[n - 1].amount.mantissa > 0 {
        creditors_upto(balances, n - 1).push(balances[n - 1])
    } else {
        creditors_upto(balances, n - 1)
    }
}

/// The debtors among the first `n` balances, in their order: those whose
/// balance is below zero, each with what they owe, which is above zero.
pub open spec fn debtors_upto(balances: Seq<ShareView>, n: int) -> Seq<ShareView>
    decreases n,
{
    if n <= 0 || n > balances.len() {
        Seq::empty()
    } else if balances[n - 1].amount.mantissa < 0 {
        debtors_upto(balances, n - 1).push(
            ShareView { username: balances[n - 1].username, amount: negated(balances[n - 1].amount) },
        )
    } else {
        debtors_upto(balances, n - 1)
    }
}

/// The creditors of a list of balances.
pub open spec fn creditors_of(balances: Seq<ShareView>) -> Seq<ShareView> {
    creditors_upto(balances, balances.len() as int)
}

/// The debtors of a list of balances.
pub open spec fn debtors_of(balances: Seq<ShareView>) -> Seq<ShareView> {
    debtors_upto(balances, balances.len() as int)
}

/// Parts the balances into creditors and debtors, in that order; a balance of
/// zero goes to neither.
pub fn split_by_sign(balances: &Vec<Share>) -> (r: (Vec<Share>, Vec<Share>))
    requires
        shares_wf(share_views(balances@)),
    ensures
        share_views(r.0@) == creditors_of(share_views(balances@)),
        share_views(r.1@) == debtors_of(share_views(balances@)),
        shares_wf(share_views(r.0@)),
        shares_wf(share_views(r.1@)),
{
    let ghost views = share_views(balances@);
    let mut creditors: Vec<Share> = Vec::new();
    let mut debtors: Vec<Share> = Vec::new();
    assert(share_views(creditors@) =~= creditors_upto(views, 0));
    assert(share_views(debtors@) =~= debtors_upto(views, 0));
    let mut i: usize = 0;
    while i < balances.len()
        invariant
            i <= balances.len(),
            views == share_views(balances@),
            shares_wf(views),
            share_views(creditors@) == creditors_upto(views, i as int),
            share_views(debtors@) == debtors_upto(views, i as int),
            shares_wf(share_views(creditors@)),
            shares_wf(share_views(debtors@)),
        decreases balances.len() - i,
    {
        let balance = &balances[i];
        assert(views[i as int] == balance@);
        if balance.amount.mantissa > 0 {
            let ghost before = share_views(creditors@);
            let share = Share { username: balance.username.clone(), amount: balance.amount };
            creditors.push(share);
            assert(share_views(creditors@) =~= before.push(share@));
        } else if balance.amount.mantissa < 0 {
            let ghost before = share_views(debtors@);
            let share = Share { username: balance.username.clone(), amount: balance.amount.abs() };
            debtors.push(share);
            assert(share_views(debtors@) =~= before.push(share@));
        }
        i = i + 1;
    }
    (creditors, debtors)
}

/// Whether share `a` stands before share `b` in a sorted list: the larger
/// amount first, and of two equal amounts the one whose handle comes first in
/// the order of a dictionary.
pub open spec fn comes_before(a: ShareView, b: ShareView) -> bool {
    a.amount.units() > b.amount.units() || (a.amount.units() == b.amount.units() && text_less(
        a.username,
        b.username,
    ))
}

/// Whether share `a` stands before share `b` in a sorted list.
pub fn share_before(a: &Share, b: &Share) -> (r: bool)
    requires
        a.amount.wf(),
        b.amount.wf(),
    ensures
        r == comes_before(a@, b@),
{
    if b.amount.less_than(&a.amount) {
        true
    } else if a.amount.less_than(&b.amount) {
        false
    } else {
        text_before(a.username.as_str(), b.username.as_str())
    }
}

/// Where a share goes into a sorted list: below `p`, behind the last share
/// that it does not stand before.
pub open spec fn insert_position(sorted: Seq<ShareView>, share: ShareView, p: int) -> int
    decreases p,
{
    if p <= 0 || p > sorted.len() {
        0
    } else if comes_before(share, sorted[p - 1]) {
        insert_position(sorted, share, p - 1)
    } else {
        p
    }
}

/// The sorted list with one more share in its place.
pub open spec fn insert_sorted(sorted: Seq<ShareView>, share: ShareView) -> Seq<ShareView> {
    sorted.insert(insert_position(sorted, share, sorted.len() as int), share)
}

/// The list that holds `sorted` and the shares from index `i` on, each put
/// in its place.
pub open spec fn sorted_from(shares: Seq<ShareView>, i: int, sorted: Seq<ShareView>) -> Seq<ShareView>
    decreases shares.len() - i,
{
    if i < 0 || i >= shares.len() {
        sorted
    } else {
        sorted_from(shares, i + 1, insert_sorted(sorted, shares[i]))
    }
}

/// The shares sorted from the largest amount down, equal amounts by handle.
pub open spec fn spec_sorted(shares: Seq<ShareView>) -> Seq<ShareView> {
    sorted_from(shares, 0, Seq::empty())
}

/// Sorts the shares from the largest amount down, equal amounts by handle.
pub fn sort_by_amount(shares: &Vec<Share>) -> (r: Vec<Share>)
    requires
        shares_wf(share_views(shares@)),
    ensures
        share_views(r@) == spec_sorted(share_views(shares@)),
        shares_wf(share_views(r@)),
        r.len() == shares.len(),
{
    let ghost views = share_views(shares@);
    let mut sorted: Vec<Share> = Vec::new();
    assert(share_views(sorted@) =~= Seq::empty());
    let mut i: usize = 0;
    while i < shares.len()
        invariant
            i <= shares.len(),
            sorted.len() == i,
            views == share_views(shares@),
            shares_wf(views),
            shares_wf(share_views(sorted@)),
            spec_sorted(views) == sorted_from(views, i as int, share_views(sorted@)),
        decreases shares.len() - i,
    {
        assert(views[i as int] == shares@[i as int]@);
        let share = Share { username: shares[i].username.clone(), amount: shares[i].amount };
        let ghost before = share_views(sorted@);
        let mut p: usize = sorted.len();
        while p > 0 && share_before(&share, &sorted[p - 1])
            invariant
                p <= sorted.len(),
                before == share_views(sorted@),
                shares_wf(before),
                share.amount.wf(),
                insert_position(before, share@, before.len() as int) == insert_position(before, share@, p as int),
            decreases p,
        {
            p = p - 1;
        }
        sorted.insert(p, share);
        assert(share_views(sorted@) =~= before.insert(p as int, share@));
        i = i + 1;
    }
    sorted
}

/// The amount of the share at index `i`, or zero behind the end of the list.
pub open spec fn amount_at(shares: Seq<ShareView>, i: int) -> Amount {
    if 0 <= i < shares.len() {
        shares[i].amount
    } else {
        Amount { mantissa: 0, scale: 0 }
    }
}

/// The transfers that pair debtors with creditors from debtor `i` and
/// creditor `j` on, `d` being what debtor `i` still owes and `c` what
/// creditor `j` is still owed, behind the transfers `done` so far.
///
/// The debtor pays the smaller of the two amounts. Who is thereby even
/// leaves; the other stays with the difference, and leaves too where that is
/// zero. `None` where a difference cannot be represented.
pub open spec fn pairing_from(
    debtors: Seq<ShareView>,
    creditors: Seq<ShareView>,
    i: int,
    j: int,
    d: Amount,
    c: Amount,
    done: Seq<TransferView>,
) -> Option<Seq<TransferView>>
    decreases (debtors.len() - i) + (creditors.len() - j),
{
    if i < 0 || j < 0 || i >= debtors.len() || j >= creditors.len() {
        Some(done)
    } else if d.units() < c.units() {
        let transfer = TransferView { debtor: debtors[i].username, creditor: creditors[j].username, amount: d };
        match spec_checked_sub(c, d) {
            None => None,
            Some(rest) => if rest.mantissa == 0 {
                pairing_from(
                    debtors,
                    creditors,
                    i + 1,
                    j + 1,
                    amount_at(debtors, i + 1),
                    amount_at(creditors, j + 1),
                    done.push(transfer),
                )
            } else {
                pairing_from(debtors, creditors, i + 1, j, amount_at(debtors, i + 1), rest, done.push(transfer))
            },
        }
    } else if c.units() < d.units() {
        let transfer = TransferView { debtor: debtors[i].username, creditor: creditors[j].username, amount: c };
        match spec_checked_sub(d, c) {
            None => None,
            Some(rest) => if rest.mantissa == 0 {
                pairing_from(
                    debtors,
                    creditors,
                    i + 1,
                    j + 1,
                    amount_at(debtors, i + 1),
                    amount_at(creditors, j + 1),
                    done.push(transfer),
                )
            } else {
                pairing_from(debtors, creditors, i, j + 1, rest, amount_at(creditors, j + 1), done.push(transfer))
            },
        }
    } else {
        let transfer = TransferView { debtor: debtors[i].username, creditor: creditors[j].username, amount: d };
        pairing_from(
            debtors,
            creditors,
            i + 1,
            j + 1,
            amount_at(debtors, i + 1),
            amount_at(creditors, j + 1),
            done.push(transfer),
        )
    }
}

/// The transfers that pair the debtors with the creditors, each list taken
/// from its first share on.
pub open spec fn spec_pairing(debtors: Seq<ShareView>, creditors: Seq<ShareView>) -> Option<Seq<TransferView>> {
    pairing_from(debtors, creditors, 0, 0, amount_at(debtors, 0), amount_at(creditors, 0), Seq::empty())
}

/// The amount of the share at index `i`, or zero behind the end of the list.
pub fn amount_at_index(shares: &Vec<Share>, i: usize) -> (r: Amount)
    requires
        shares_wf(share_views(shares@)),
    ensures
        r == amount_at(share_views(shares@), i as int),
        r.wf(),
{
    if i < shares.len() {
        assert(share_views(shares@)[i as int] == shares@[i as int]@);
        shares[i].amount
    } else {
        Amount::zero()
    }
}

/// Pairs the debtors with the creditors, each list taken from its first
/// share on: the debtor at the front pays the creditor at the front the
/// smaller of what the one owes and the other is owed.
pub fn match_debts(debtors: &Vec<Share>, creditors: &Vec<Share>) -> (r: Option<Vec<Transfer>>)
    requires
        shares_wf(share_views(debtors@)),
        shares_wf(share_views(creditors@)),
    ensures
        match r {
            Some(transfers) => spec_pairing(share_views(debtors@), share_views(creditors@)) == Some(
                transfer_views(transfers@),
            ) && transfers_wf(transfer_views(transfers@)),
            None => spec_pairing(share_views(debtors@), share_views(creditors@)) is None,
        },
{
    let ghost dv = share_views(debtors@);
    let ghost cv = share_views(creditors@);
    let mut transfers: Vec<Transfer> = Vec::new();
    assert(transfer_views(transfers@) =~= Seq::empty());
    let mut i: usize = 0;
    let mut j: usize = 0;
    let mut d = amount_at_index(debtors, 0);
    let mut c = amount_at_index(creditors, 0);
    while i < debtors.len() && j < creditors.len()
        invariant
            i <= debtors.len(),
            j <= creditors.len(),
            dv == share_views(debtors@),
            cv == share_views(creditors@),
            shares_wf(dv),
            shares_wf(cv),
            d.wf(),
            c.wf(),
            transfers_wf(transfer_views(transfers@)),
            spec_pairing(dv, cv) == pairing_from(dv, cv, i as int, j as int, d, c, transfer_views(transfers@)),
        decreases (debtors.len() - i) + (creditors.len() - j),
    {
        assert(dv[i as int] == debtors@[i as int]@);
        assert(cv[j as int] == creditors@[j as int]@);
        let ghost done = transfer_views(transfers@);
        let debtor = debtors[i].username.clone();
        let creditor = creditors[j].username.clone();
        if d.less_than(&c) {
            match c.checked_sub(d) {
                None => {
                    return None;
                },
                Some(rest) => {
                    let transfer = Transfer { debtor, creditor, amount: d };
                    transfers.push(transfer);
                    assert(transfer_views(transfers@) =~= done.push(transfer@));
                    i = i + 1;
                    d = amount_at_index(debtors, i);
                    if rest.mantissa == 0 {
                        j = j + 1;
                        c = amount_at_index(creditors, j);
                    } else {
                        c = rest;
                    }
                },
            }
        } else if c.less_than(&d) {
            match d.checked_sub(c) {
                None => {
                    return None;
                },
                Some(rest) => {
                    let transfer = Transfer { debtor, creditor, amount: c };
                    transfers.push(transfer);
                    assert(transfer_views(transfers@) =~= done.push(transfer@));
                    j = j + 1;
                    c = amount_at_index(creditors, j);
                    if rest.mantissa == 0 {
                        i = i + 1;
                        d = amount_at_index(debtors, i);
                    } else {
                        d = rest;
                    }
                },
            }
        } else {
            let transfer = Transfer { debtor, creditor, amount: d };
            transfers.push(transfer);
            assert(transfer_views(transfers@) =~= done.push(transfer@));
            i = i + 1;
            d = amount_at_index(debtors, i);
            j = j + 1;
            c = amount_at_index(creditors, j);
        }
    }
    Some(transfers)
}

/// The balances of the spenders of a list of expenses, in the order in which
/// the spenders first occur.
pub open spec fn spec_balances_of(expenses: Seq<expense::ModelView>) -> Option<Seq<ShareView>> {
    match spec_totals(expenses) {
        None => None,
        Some(totals) => match spec_mean(totals) {
            None => None,
            Some(mean) => spec_balances(totals, mean),
        },
    }
}

/// The transfers that settle the balances: an error where they do not add
/// up to zero, else the sorted debtors paired with the sorted creditors.
pub open spec fn spec_settle_balances(balances: Seq<ShareView>) -> Result<Seq<TransferView>, SettleError> {
    match spec_sum(balances) {
        None => Err(SettleError::Overflow),
        Some(sum) => if sum.mantissa != 0 {
            Err(SettleError::Unbalanced)
        } else {
            match spec_pairing(spec_sorted(debtors_of(balances)), spec_sorted(creditors_of(balances))) {
                None => Err(SettleError::Overflow),
                Some(transfers) => Ok(transfers),
            }
        },
    }
}

/// The transfers that settle a list of expenses.
pub open spec fn spec_settle(expenses: Seq<expense::ModelView>) -> Result<Seq<TransferView>, SettleError> {
    match spec_balances_of(expenses) {
        None => Err(SettleError::Overflow),
        Some(balances) => spec_settle_balances(balances),
    }
}

/// The view of a result of a settlement.
pub open spec fn settlement_view(r: Result<Vec<Transfer>, SettleError>) -> Result<Seq<TransferView>, SettleError> {
    match r {
        Ok(transfers) => Ok(transfer_views(transfers@)),
        Err(e) => Err(e),
    }
}

/// The balance of each spender of a list of expenses: what they spent less
/// the mean over the spenders. No spender has two balances.
pub fn balances_of_expenses(expenses: &Vec<expense::Model>) -> (r: Option<Vec<Share>>)
    requires
        expense::all_wf(expense::views(expenses@)),
    ensures
        match r {
            Some(balances) => spec_balances_of(expense::views(expenses@)) == Some(share_views(balances@))
                && shares_wf(share_views(balances@)) && distinct_users(share_views(balances@)),
            None => spec_balances_of(expense::views(expenses@)) is None,
        },
{
    proof {
        lemma_balances_distinct(expense::views(expenses@));
    }
    match total_spent_per_user(expenses) {
        None => None,
        Some(totals) => match mean_spent(&totals) {
            None => None,
            Some(mean) => balances_of(&totals, mean),
        },
    }
}

/// Settles a list of balances. Balances that do not add up to zero are
/// refused: no transfers are made up for them.
pub fn settle_balances(balances: &Vec<Share>) -> (r: Result<Vec<Transfer>, SettleError>)
    requires
        shares_wf(share_views(balances@)),
    ensures
        settlement_view(r) == spec_settle_balances(share_views(balances@)),
        r matches Ok(transfers) ==> transfers_wf(transfer_views(transfers@)),
{
    match sum_amounts(balances) {
        None => Err(SettleError::Overflow),
        Some(sum) => {
            if sum.mantissa != 0 {
                return Err(SettleError::Unbalanced);
            }
            let (creditors, debtors) = split_by_sign(balances);
            let debtors = sort_by_amount(&debtors);
            let creditors = sort_by_amount(&creditors);
            match match_debts(&debtors, &creditors) {
                None => Err(SettleError::Overflow),
                Some(transfers) => Ok(transfers),
            }
        },
    }
}

/// Settles the expenses of one group: who is to pay how much to whom, so
/// that every spender ends at the mean.
///
/// The list holds at least one expense: a group without expenses has nothing
/// to settle, and is answered before the engine is reached.
pub fn settle(expenses: &Vec<expense::Model>) -> (r: Result<Vec<Transfer>, SettleError>)
    requires
        expenses.len() > 0,
        expense::all_wf(expense::views(expenses@)),
    ensures
        settlement_view(r) == spec_settle(expense::views(expenses@)),
        r matches Ok(transfers) ==> transfers_wf(transfer_views(transfers@)),
{
    match balances_of_expenses(expenses) {
        None => Err(SettleError::Overflow),
        Some(balances) => settle_balances(&balances),
    }
}

} // verus!
