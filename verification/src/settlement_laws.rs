//! What holds of every settlement.

use crate::amount::{
    adds_exactly, divides_exactly, lemma_units_negated, lemma_units_sign, spec_checked_add, spec_checked_sub,
    subtracts_exactly, Amount,
};
use crate::entity::expense;
use crate::settlement::{
    add_expense_to, amount_at, comes_before, creditors_of, creditors_upto, debtors_of, debtors_upto,
    distinct_users, find_user, has_user, insert_position, insert_sorted, negated, pairing_from, shares_wf,
    sorted_from, spec_balances, spec_balances_of, spec_mean, spec_pairing, spec_settle, spec_settle_balances,
    spec_sorted, spec_sum, spec_totals, sum_from, totals_from, ShareView, TransferView,
};
use crate::text::{lemma_text_less_asymmetric, lemma_text_less_total, lemma_text_less_transitive};
use vstd::prelude::*;

verus! {

/// Of two shares at most one stands before the other.
pub proof fn lemma_comes_before_asymmetric(a: ShareView, b: ShareView)
    ensures
        !(comes_before(a, b) && comes_before(b, a)),
{
    lemma_text_less_asymmetric(a.username, b.username, 0);
}

/// Of two shares of different users one stands before the other: the order
/// of a sorted list leaves nothing open.
pub proof fn lemma_comes_before_total(a: ShareView, b: ShareView)
    requires
        a.username != b.username,
    ensures
        comes_before(a, b) || comes_before(b, a),
{
    lemma_text_less_total(a.username, b.username, 0);
}

/// Each share of the list stands where the order wants it next to its
/// neighbour: the one behind does not belong before it.
pub open spec fn in_order(shares: Seq<ShareView>) -> bool {
    forall|i: int| 0 <= i < shares.len() - 1 ==> !comes_before(#[trigger] shares[i + 1], shares[i])
}

/// A share is put behind every share that it does not stand before, and
/// before every share that it stands before.
pub proof fn lemma_insert_position(sorted: Seq<ShareView>, share: ShareView, p: int)
    requires
        0 <= p <= sorted.len(),
    ensures
        0 <= insert_position(sorted, share, p) <= p,
        insert_position(sorted, share, p) > 0 ==> !comes_before(
            share,
            sorted[insert_position(sorted, share, p) - 1],
        ),
        forall|k: int| insert_position(sorted, share, p) <= k < p ==> comes_before(share, #[trigger] sorted[k]),
    decreases p,
{
    if p > 0 && comes_before(share, sorted[p - 1]) {
        lemma_insert_position(sorted, share, p - 1);
    }
}

/// A list in order is in order with one more share put in its place.
pub proof fn lemma_insert_keeps_order(sorted: Seq<ShareView>, share: ShareView)
    requires
        in_order(sorted),
    ensures
        in_order(insert_sorted(sorted, share)),
{
    let p = insert_position(sorted, share, sorted.len() as int);
    lemma_insert_position(sorted, share, sorted.len() as int);
    let after = insert_sorted(sorted, share);
    assert forall|i: int| 0 <= i < after.len() - 1 implies !comes_before(#[trigger] after[i + 1], after[i]) by {
        if i + 1 < p {
            assert(after[i + 1] == sorted[i + 1] && after[i] == sorted[i]);
        } else if i + 1 == p {
            assert(after[i + 1] == share && after[i] == sorted[p - 1]);
        } else if i == p {
            assert(after[i] == share && after[i + 1] == sorted[p]);
            lemma_comes_before_asymmetric(share, sorted[p]);
        } else {
            assert(after[i + 1] == sorted[i] && after[i] == sorted[i - 1]);
            assert(!comes_before(sorted[(i - 1) + 1], sorted[i - 1]));
        }
    }
}

/// Sorting from a list in order gives a list in order.
pub proof fn lemma_sorted_from_in_order(shares: Seq<ShareView>, i: int, sorted: Seq<ShareView>)
    requires
        0 <= i,
        in_order(sorted),
    ensures
        in_order(sorted_from(shares, i, sorted)),
    decreases shares.len() - i,
{
    if i < shares.len() {
        lemma_insert_keeps_order(sorted, shares[i]);
        lemma_sorted_from_in_order(shares, i + 1, insert_sorted(sorted, shares[i]));
    }
}

/// In a list in order the amounts do not grow.
pub proof fn lemma_in_order_descends(shares: Seq<ShareView>, i: int, j: int)
    requires
        in_order(shares),
        0 <= i <= j < shares.len(),
    ensures
        shares[i].amount.units() >= shares[j].amount.units(),
    decreases j - i,
{
    if i < j {
        lemma_in_order_descends(shares, i, j - 1);
        assert(!comes_before(shares[(j - 1) + 1], shares[j - 1]));
    }
}

/// A sorted list is in order: from the largest amount down, and equal
/// amounts by their handles.
pub proof fn lemma_sorted_in_order(shares: Seq<ShareView>)
    ensures
        in_order(spec_sorted(shares)),
        forall|i: int, j: int|
            0 <= i <= j < spec_sorted(shares).len() ==> (#[trigger] spec_sorted(shares)[i]).amount.units() >= (
            #[trigger] spec_sorted(shares)[j]).amount.units(),
{
    lemma_sorted_from_in_order(shares, 0, Seq::empty());
    let sorted = spec_sorted(shares);
    assert forall|i: int, j: int| 0 <= i <= j < sorted.len() implies (#[trigger] sorted[i]).amount.units() >= (
    #[trigger] sorted[j]).amount.units() by {
        lemma_in_order_descends(sorted, i, j);
    }
}

/// A list with one more share holds what it held, and that share.
pub proof fn lemma_insert_to_multiset(shares: Seq<ShareView>, p: int, share: ShareView)
    requires
        0 <= p <= shares.len(),
    ensures
        shares.insert(p, share).to_multiset() =~= shares.to_multiset().insert(share),
{
    let after = shares.insert(p, share);
    after.to_multiset_ensures();
    assert(after.remove(p) =~= shares);
    assert(after[p] == share);
    assert(after.contains(share));
    assert(after.to_multiset().remove(share) =~= shares.to_multiset());
}

/// Sorting from index `i` on gives what was sorted before and the shares
/// from `i` on: none is lost, none is made up.
pub proof fn lemma_sorted_from_permutation(shares: Seq<ShareView>, i: int, sorted: Seq<ShareView>)
    requires
        0 <= i <= shares.len(),
    ensures
        sorted_from(shares, i, sorted).to_multiset() =~= sorted.to_multiset().add(shares.skip(i).to_multiset()),
        sorted_from(shares, i, sorted).len() == sorted.len() + shares.len() - i,
    decreases shares.len() - i,
{
    broadcast use vstd::seq_lib::group_to_multiset_ensures;

    if i < shares.len() {
        let next = insert_sorted(sorted, shares[i]);
        lemma_insert_position(sorted, shares[i], sorted.len() as int);
        lemma_insert_to_multiset(sorted, insert_position(sorted, shares[i], sorted.len() as int), shares[i]);
        lemma_sorted_from_permutation(shares, i + 1, next);
        let tail = shares.skip(i);
        assert(tail.drop_first() =~= shares.skip(i + 1));
        assert(tail.first() == shares[i]);
        assert(tail =~= seq![shares[i]] + shares.skip(i + 1));
        vstd::seq_lib::lemma_multiset_commutative(seq![shares[i]], shares.skip(i + 1));
        assert(seq![shares[i]] =~= Seq::<ShareView>::empty().push(shares[i]));
    } else {
        assert(shares.skip(i) =~= Seq::<ShareView>::empty());
    }
}

/// A sorted list holds the same shares as the list it was sorted from, each
/// as often.
pub proof fn lemma_sorted_is_permutation(shares: Seq<ShareView>)
    ensures
        spec_sorted(shares).to_multiset() =~= shares.to_multiset(),
        spec_sorted(shares).len() == shares.len(),
{
    broadcast use vstd::seq_lib::group_to_multiset_ensures;

    lemma_sorted_from_permutation(shares, 0, Seq::empty());
    assert(shares.skip(0) =~= shares);
}

/// What the search for a handle finds: the first share with it, or that
/// there is none.
pub proof fn lemma_find_user(shares: Seq<ShareView>, username: Seq<char>, from: int)
    requires
        0 <= from <= shares.len(),
    ensures
        from <= find_user(shares, username, from) <= shares.len(),
        find_user(shares, username, from) < shares.len() ==> shares[find_user(shares, username, from)].username
            == username,
        forall|k: int| from <= k < find_user(shares, username, from) ==> (#[trigger] shares[k]).username != username,
    decreases shares.len() - from,
{
    if from < shares.len() && shares[from].username != username {
        lemma_find_user(shares, username, from + 1);
    }
}

/// One more expense leaves the handles of the totals distinct.
pub proof fn lemma_add_expense_keeps_distinct(totals: Seq<ShareView>, username: Seq<char>, amount: Amount)
    requires
        distinct_users(totals),
    ensures
        add_expense_to(totals, username, amount) matches Some(next) ==> distinct_users(next),
{
    lemma_find_user(totals, username, 0);
    if let Some(next) = add_expense_to(totals, username, amount) {
        let k = find_user(totals, username, 0);
        assert forall|i: int, j: int| 0 <= i < next.len() && 0 <= j < next.len() && i != j implies (
        #[trigger] next[i]).username != (#[trigger] next[j]).username by {
            if k < totals.len() {
                assert(next[i].username == totals[i].username);
                assert(next[j].username == totals[j].username);
            } else {
                if i < totals.len() {
                    assert(next[i] == totals[i]);
                }
                if j < totals.len() {
                    assert(next[j] == totals[j]);
                }
            }
        }
    }
}

/// The totals of the expenses from `i` on have distinct handles, where
/// those before `i` have.
pub proof fn lemma_totals_from_distinct(expenses: Seq<expense::ModelView>, i: int, totals: Seq<ShareView>)
    requires
        0 <= i,
        distinct_users(totals),
    ensures
        totals_from(expenses, i, totals) matches Some(all) ==> distinct_users(all),
    decreases expenses.len() - i,
{
    if i < expenses.len() {
        lemma_add_expense_keeps_distinct(totals, expenses[i].username, expenses[i].amount);
        if let Some(next) = add_expense_to(totals, expenses[i].username, expenses[i].amount) {
            lemma_totals_from_distinct(expenses, i + 1, next);
        }
    }
}

/// No spender has two balances.
pub proof fn lemma_balances_distinct(expenses: Seq<expense::ModelView>)
    ensures
        spec_balances_of(expenses) matches Some(balances) ==> distinct_users(balances),
{
    lemma_totals_from_distinct(expenses, 0, Seq::empty());
    if let Some(totals) = spec_totals(expenses) {
        if let Some(mean) = spec_mean(totals) {
            if let Some(balances) = spec_balances(totals, mean) {
                assert forall|i: int, j: int|
                    0 <= i < balances.len() && 0 <= j < balances.len() && i != j implies (
                #[trigger] balances[i]).username != (#[trigger] balances[j]).username by {
                    assert(balances[i].username == totals[i].username);
                    assert(balances[j].username == totals[j].username);
                }
            }
        }
    }
}

/// Every debtor has a balance below zero, and owes an amount above zero.
pub proof fn lemma_debtors_owe(balances: Seq<ShareView>, n: int)
    requires
        0 <= n <= balances.len(),
        shares_wf(balances),
    ensures
        shares_wf(debtors_upto(balances, n)),
        forall|i: int|
            0 <= i < debtors_upto(balances, n).len() ==> (#[trigger] debtors_upto(balances, n)[i]).amount.mantissa
                > 0 && exists|k: int|
                0 <= k < n && (#[trigger] balances[k]).username == debtors_upto(balances, n)[i].username
                    && balances[k].amount.mantissa < 0,
    decreases n,
{
    if n > 0 {
        lemma_debtors_owe(balances, n - 1);
        let before = debtors_upto(balances, n - 1);
        let now = debtors_upto(balances, n);
        assert(balances[n - 1].amount.wf());
        assert forall|i: int| 0 <= i < now.len() implies (#[trigger] now[i]).amount.mantissa > 0 && exists|k: int|
            0 <= k < n && (#[trigger] balances[k]).username == now[i].username && balances[k].amount.mantissa
                < 0 by {
            if i < before.len() {
                assert(now[i] == before[i]);
                let k = choose|k: int|
                    0 <= k < n - 1 && (#[trigger] balances[k]).username == before[i].username
                        && balances[k].amount.mantissa < 0;
                assert(balances[k].username == now[i].username);
            } else {
                assert(balances[n - 1].username == now[i].username);
            }
        }
        assert forall|i: int| 0 <= i < now.len() implies (#[trigger] now[i]).amount.wf() by {
            if i < before.len() {
                assert(now[i] == before[i]);
            }
        }
    }
}

/// Every creditor has a balance above zero, and is owed just that.
pub proof fn lemma_creditors_are_owed(balances: Seq<ShareView>, n: int)
    requires
        0 <= n <= balances.len(),
        shares_wf(balances),
    ensures
        shares_wf(creditors_upto(balances, n)),
        forall|i: int|
            0 <= i < creditors_upto(balances, n).len() ==> (#[trigger] creditors_upto(
                balances,
                n,
            )[i]).amount.mantissa > 0 && exists|k: int|
                0 <= k < n && (#[trigger] balances[k]).username == creditors_upto(balances, n)[i].username
                    && balances[k].amount.mantissa > 0,
    decreases n,
{
    if n > 0 {
        lemma_creditors_are_owed(balances, n - 1);
        let before = creditors_upto(balances, n - 1);
        let now = creditors_upto(balances, n);
        assert(balances[n - 1].amount.wf());
        assert forall|i: int| 0 <= i < now.len() implies (#[trigger] now[i]).amount.mantissa > 0 && exists|k: int|
            0 <= k < n && (#[trigger] balances[k]).username == now[i].username && balances[k].amount.mantissa
                > 0 by {
            if i < before.len() {
                assert(now[i] == before[i]);
                let k = choose|k: int|
                    0 <= k < n - 1 && (#[trigger] balances[k]).username == before[i].username
                        && balances[k].amount.mantissa > 0;
                assert(balances[k].username == now[i].username);
            } else {
                assert(balances[n - 1].username == now[i].username);
            }
        }
        assert forall|i: int| 0 <= i < now.len() implies (#[trigger] now[i]).amount.wf() by {
            if i < before.len() {
                assert(now[i] == before[i]);
            }
        }
    }
}

/// Every transfer of the list is from one of the debtors to one of the
/// creditors.
pub open spec fn between_parties(
    transfers: Seq<TransferView>,
    debtors: Seq<ShareView>,
    creditors: Seq<ShareView>,
) -> bool {
    forall|t: int|
        0 <= t < transfers.len() ==> has_user(debtors, (#[trigger] transfers[t]).debtor) && has_user(
            creditors,
            transfers[t].creditor,
        )
}

/// Pairing makes transfers from debtors to creditors only.
pub proof fn lemma_pairing_between_parties(
    debtors: Seq<ShareView>,
    creditors: Seq<ShareView>,
    i: int,
    j: int,
    d: Amount,
    c: Amount,
    done: Seq<TransferView>,
)
    requires
        between_parties(done, debtors, creditors),
    ensures
        pairing_from(debtors, creditors, i, j, d, c, done) matches Some(transfers) ==> between_parties(
            transfers,
            debtors,
            creditors,
        ),
    decreases (debtors.len() - i) + (creditors.len() - j),
{
    if 0 <= i < debtors.len() && 0 <= j < creditors.len() {
        let amount = if c.units() < d.units() {
            c
        } else {
            d
        };
        let transfer = TransferView { debtor: debtors[i].username, creditor: creditors[j].username, amount };
        let next = done.push(transfer);
        assert forall|t: int| 0 <= t < next.len() implies has_user(debtors, (#[trigger] next[t]).debtor)
            && has_user(creditors, next[t].creditor) by {
            if t < done.len() {
                assert(next[t] == done[t]);
            } else {
                assert(debtors[i].username == next[t].debtor);
                assert(creditors[j].username == next[t].creditor);
            }
        }
        let d1 = amount_at(debtors, i + 1);
        let c1 = amount_at(creditors, j + 1);
        if d.units() < c.units() {
            if let Some(rest) = spec_checked_sub(c, d) {
                if rest.mantissa == 0 {
                    lemma_pairing_between_parties(debtors, creditors, i + 1, j + 1, d1, c1, next);
                } else {
                    lemma_pairing_between_parties(debtors, creditors, i + 1, j, d1, rest, next);
                }
            }
        } else if c.units() < d.units() {
            if let Some(rest) = spec_checked_sub(d, c) {
                if rest.mantissa == 0 {
                    lemma_pairing_between_parties(debtors, creditors, i + 1, j + 1, d1, c1, next);
                } else {
                    lemma_pairing_between_parties(debtors, creditors, i, j + 1, rest, c1, next);
                }
            }
        } else {
            lemma_pairing_between_parties(debtors, creditors, i + 1, j + 1, d1, c1, next);
        }
    }
}

/// A handle of the sorted list is a handle of the list it was sorted from.
pub proof fn lemma_sorted_has_same_users(shares: Seq<ShareView>, username: Seq<char>)
    requires
        has_user(spec_sorted(shares), username),
    ensures
        has_user(shares, username),
{
    broadcast use vstd::seq_lib::group_to_multiset_ensures;

    let sorted = spec_sorted(shares);
    lemma_sorted_is_permutation(shares);
    let i = choose|i: int| 0 <= i < sorted.len() && (#[trigger] sorted[i]).username == username;
    assert(sorted.contains(sorted[i]));
    assert(sorted.to_multiset().count(sorted[i]) > 0);
    assert(shares.contains(sorted[i]));
    let k = choose|k: int| 0 <= k < shares.len() && shares[k] == sorted[i];
    assert(shares[k].username == username);
}

/// In a settlement every debtor has a balance below zero and every creditor
/// one above zero: a spender whose balance is exactly zero pays nothing and
/// is paid nothing.
pub proof fn lemma_settled_users_stay_out(balances: Seq<ShareView>, k: int, t: int)
    requires
        shares_wf(balances),
        distinct_users(balances),
        0 <= k < balances.len(),
        balances[k].amount.units() == 0,
        spec_settle_balances(balances) is Ok,
        0 <= t < spec_settle_balances(balances)->Ok_0.len(),
    ensures
        spec_settle_balances(balances)->Ok_0[t].debtor != balances[k].username,
        spec_settle_balances(balances)->Ok_0[t].creditor != balances[k].username,
{
    let transfers = spec_settle_balances(balances)->Ok_0;
    let debtors = spec_sorted(debtors_of(balances));
    let creditors = spec_sorted(creditors_of(balances));
    lemma_units_sign(balances[k].amount);
    lemma_pairing_between_parties(
        debtors,
        creditors,
        0,
        0,
        amount_at(debtors, 0),
        amount_at(creditors, 0),
        Seq::empty(),
    );
    assert(has_user(debtors, transfers[t].debtor));
    assert(has_user(creditors, transfers[t].creditor));
    lemma_sorted_has_same_users(debtors_of(balances), transfers[t].debtor);
    lemma_sorted_has_same_users(creditors_of(balances), transfers[t].creditor);
    lemma_debtors_owe(balances, balances.len() as int);
    lemma_creditors_are_owed(balances, balances.len() as int);
    let di = choose|i: int|
        0 <= i < debtors_of(balances).len() && (#[trigger] debtors_of(balances)[i]).username
            == transfers[t].debtor;
    let dk = choose|x: int|
        0 <= x < balances.len() && (#[trigger] balances[x]).username == debtors_of(balances)[di].username
            && balances[x].amount.mantissa < 0;
    assert(balances[dk].username == transfers[t].debtor);
    let ci = choose|i: int|
        0 <= i < creditors_of(balances).len() && (#[trigger] creditors_of(balances)[i]).username
            == transfers[t].creditor;
    let ck = choose|x: int|
        0 <= x < balances.len() && (#[trigger] balances[x]).username == creditors_of(balances)[ci].username
            && balances[x].amount.mantissa > 0;
    assert(balances[ck].username == transfers[t].creditor);
}

/// Settling the same expenses again gives the same transfers, in the same
/// order.
pub proof fn lemma_settle_repeatable(first: Seq<expense::ModelView>, second: Seq<expense::ModelView>)
    requires
        first == second,
    ensures
        spec_settle(first) == spec_settle(second),
{
}

/// Transfers are made only for balances that add up to zero.
pub proof fn lemma_settled_balances_sum_to_zero(balances: Seq<ShareView>)
    requires
        spec_settle_balances(balances) is Ok,
    ensures
        spec_sum(balances) matches Some(sum) && sum.units() == 0,
{
    lemma_units_sign(spec_sum(balances).unwrap());
}

/// What a user is to pay in all: the sum of the transfers that name the user
/// as debtor, in units of `10^-28`.
pub open spec fn paid_by(transfers: Seq<TransferView>, username: Seq<char>) -> int
    decreases transfers.len(),
{
    if transfers.len() == 0 {
        0
    } else {
        paid_by(transfers.drop_last(), username) + if transfers.last().debtor == username {
            transfers.last().amount.units()
        } else {
            0
        }
    }
}

/// What a user is to get in all: the sum of the transfers that name the user
/// as creditor, in units of `10^-28`.
pub open spec fn received_by(transfers: Seq<TransferView>, username: Seq<char>) -> int
    decreases transfers.len(),
{
    if transfers.len() == 0 {
        0
    } else {
        received_by(transfers.drop_last(), username) + if transfers.last().creditor == username {
            transfers.last().amount.units()
        } else {
            0
        }
    }
}

/// The sum of the amounts from index `from` on, in units of `10^-28`.
pub open spec fn units_from(shares: Seq<ShareView>, from: int) -> int
    decreases shares.len() - from,
{
    if from < 0 || from >= shares.len() {
        0
    } else {
        shares[from].amount.units() + units_from(shares, from + 1)
    }
}

/// Every amount of the list is above zero.
pub open spec fn all_positive(shares: Seq<ShareView>) -> bool {
    forall|i: int| 0 <= i < shares.len() ==> (#[trigger] shares[i]).amount.units() > 0
}

/// Every difference that the pairing takes, from debtor `i` and creditor `j`
/// on, is taken without rounding.
pub open spec fn pairing_is_exact(
    debtors: Seq<ShareView>,
    creditors: Seq<ShareView>,
    i: int,
    j: int,
    d: Amount,
    c: Amount,
) -> bool
    decreases (debtors.len() - i) + (creditors.len() - j),
{
    if i < 0 || j < 0 || i >= debtors.len() || j >= creditors.len() {
        true
    } else if d.units() < c.units() {
        subtracts_exactly(c, d) && {
            let rest = spec_checked_sub(c, d).unwrap();
            if rest.mantissa == 0 {
                pairing_is_exact(
                    debtors,
                    creditors,
                    i + 1,
                    j + 1,
                    amount_at(debtors, i + 1),
                    amount_at(creditors, j + 1),
                )
            } else {
                pairing_is_exact(debtors, creditors, i + 1, j, amount_at(debtors, i + 1), rest)
            }
        }
    } else if c.units() < d.units() {
        subtracts_exactly(d, c) && {
            let rest = spec_checked_sub(d, c).unwrap();
            if rest.mantissa == 0 {
                pairing_is_exact(
                    debtors,
                    creditors,
                    i + 1,
                    j + 1,
                    amount_at(debtors, i + 1),
                    amount_at(creditors, j + 1),
                )
            } else {
                pairing_is_exact(debtors, creditors, i, j + 1, rest, amount_at(creditors, j + 1))
            }
        }
    } else {
        pairing_is_exact(
            debtors,
            creditors,
            i + 1,
            j + 1,
            amount_at(debtors, i + 1),
            amount_at(creditors, j + 1),
        )
    }
}

/// What is still owed from debtor `i` on, `d` being what debtor `i` owes.
pub open spec fn still_open(shares: Seq<ShareView>, i: int, rest: Amount) -> int {
    if 0 <= i < shares.len() {
        rest.units() + units_from(shares, i + 1)
    } else {
        0
    }
}

/// The transfers so far have the first `i` users of the list at their full
/// amounts, user `i` at the full amount less `rest`, and the users behind at
/// nothing. `debit` says whether the list is the debtors' or the creditors'.
pub open spec fn booked(
    done: Seq<TransferView>,
    shares: Seq<ShareView>,
    i: int,
    rest: Amount,
    debit: bool,
) -> bool {
    forall|k: int|
        0 <= k < shares.len() ==> (if debit {
            paid_by(done, (#[trigger] shares[k]).username)
        } else {
            received_by(done, shares[k].username)
        }) == (if k < i {
            shares[k].amount.units()
        } else if k == i {
            shares[k].amount.units() - rest.units()
        } else {
            0
        })
}

/// The sum of positive amounts is not negative.
pub proof fn lemma_units_from_not_negative(shares: Seq<ShareView>, from: int)
    requires
        all_positive(shares),
    ensures
        units_from(shares, from) >= 0,
    decreases shares.len() - from,
{
    if 0 <= from < shares.len() {
        lemma_units_from_not_negative(shares, from + 1);
    }
}

/// One more transfer adds its amount to what its debtor pays and to what
/// its creditor gets, and to nobody else's.
pub proof fn lemma_one_more_transfer(done: Seq<TransferView>, transfer: TransferView, username: Seq<char>)
    ensures
        paid_by(done.push(transfer), username) == paid_by(done, username) + if transfer.debtor == username {
            transfer.amount.units()
        } else {
            0
        },
        received_by(done.push(transfer), username) == received_by(done, username) + if transfer.creditor
            == username {
            transfer.amount.units()
        } else {
            0
        },
{
    assert(done.push(transfer).drop_last() =~= done);
}

/// The books after one more transfer, where user `i` of the list is party
/// to it: the user's rest goes down by the amount, or the user is done with
/// and the next one begins.
pub proof fn lemma_book_transfer(
    done: Seq<TransferView>,
    transfer: TransferView,
    shares: Seq<ShareView>,
    i: int,
    rest: Amount,
    next_i: int,
    next_rest: Amount,
    debit: bool,
)
    requires
        distinct_users(shares),
        0 <= i < shares.len(),
        booked(done, shares, i, rest, debit),
        (if debit {
            transfer.debtor
        } else {
            transfer.creditor
        }) == shares[i].username,
        next_i == i && next_rest.units() == rest.units() - transfer.amount.units() || next_i == i + 1
            && transfer.amount.units() == rest.units() && next_rest == amount_at(shares, i + 1),
    ensures
        booked(done.push(transfer), shares, next_i, next_rest, debit),
{
    let after = done.push(transfer);
    assert forall|k: int| 0 <= k < shares.len() implies (if debit {
        paid_by(after, (#[trigger] shares[k]).username)
    } else {
        received_by(after, shares[k].username)
    }) == (if k < next_i {
        shares[k].amount.units()
    } else if k == next_i {
        shares[k].amount.units() - next_rest.units()
    } else {
        0
    }) by {
        lemma_one_more_transfer(done, transfer, shares[k].username);
        if k != i {
            assert(shares[k].username != shares[i].username);
        }
    }
}

/// Every user of the list is booked at the full amount.
pub open spec fn booked_in_full(transfers: Seq<TransferView>, shares: Seq<ShareView>, debit: bool) -> bool {
    forall|k: int|
        0 <= k < shares.len() ==> (if debit {
            paid_by(transfers, (#[trigger] shares[k]).username)
        } else {
            received_by(transfers, shares[k].username)
        }) == shares[k].amount.units()
}

/// The pairing from debtor `i` and creditor `j` on comes to an end with
/// every debtor and every creditor booked in full, where what is still owed
/// is what is still to be had and no difference is rounded.
pub proof fn lemma_pairing_settles_from(
    debtors: Seq<ShareView>,
    creditors: Seq<ShareView>,
    i: int,
    j: int,
    d: Amount,
    c: Amount,
    done: Seq<TransferView>,
)
    requires
        all_positive(debtors),
        all_positive(creditors),
        distinct_users(debtors),
        distinct_users(creditors),
        0 <= i <= debtors.len(),
        0 <= j <= creditors.len(),
        i < debtors.len() ==> 0 < d.units() <= debtors[i].amount.units(),
        j < creditors.len() ==> 0 < c.units() <= creditors[j].amount.units(),
        still_open(debtors, i, d) == still_open(creditors, j, c),
        booked(done, debtors, i, d, true),
        booked(done, creditors, j, c, false),
        pairing_is_exact(debtors, creditors, i, j, d, c),
    ensures
        pairing_from(debtors, creditors, i, j, d, c, done) matches Some(transfers) && booked_in_full(
            transfers,
            debtors,
            true,
        ) && booked_in_full(transfers, creditors, false),
    decreases (debtors.len() - i) + (creditors.len() - j),
{
    lemma_units_from_not_negative(debtors, i + 1);
    lemma_units_from_not_negative(creditors, j + 1);
    if i >= debtors.len() || j >= creditors.len() {
        assert(i == debtors.len() && j == creditors.len());
    } else {
        let amount = if c.units() < d.units() {
            c
        } else {
            d
        };
        let transfer = TransferView { debtor: debtors[i].username, creditor: creditors[j].username, amount };
        let next = done.push(transfer);
        let d1 = amount_at(debtors, i + 1);
        let c1 = amount_at(creditors, j + 1);
        if i + 1 < debtors.len() {
            assert(debtors[i + 1].amount.units() > 0);
        }
        if j + 1 < creditors.len() {
            assert(creditors[j + 1].amount.units() > 0);
        }
        if d.units() < c.units() {
            let rest = spec_checked_sub(c, d).unwrap();
            lemma_units_sign(rest);
            lemma_book_transfer(done, transfer, debtors, i, d, i + 1, d1, true);
            lemma_book_transfer(done, transfer, creditors, j, c, j, rest, false);
            lemma_pairing_settles_from(debtors, creditors, i + 1, j, d1, rest, next);
        } else if c.units() < d.units() {
            let rest = spec_checked_sub(d, c).unwrap();
            lemma_units_sign(rest);
            lemma_book_transfer(done, transfer, debtors, i, d, i, rest, true);
            lemma_book_transfer(done, transfer, creditors, j, c, j + 1, c1, false);
            lemma_pairing_settles_from(debtors, creditors, i, j + 1, rest, c1, next);
        } else {
            lemma_book_transfer(done, transfer, debtors, i, d, i + 1, d1, true);
            lemma_book_transfer(done, transfer, creditors, j, c, j + 1, c1, false);
            lemma_pairing_settles_from(debtors, creditors, i + 1, j + 1, d1, c1, next);
        }
    }
}

/// The transfers settle every debt: where the debtors owe in all what the
/// creditors are owed in all, and no difference on the way is rounded, each
/// debtor pays in all exactly what they owe, and each creditor gets in all
/// exactly what they are owed.
pub proof fn lemma_pairing_settles(debtors: Seq<ShareView>, creditors: Seq<ShareView>)
    requires
        all_positive(debtors),
        all_positive(creditors),
        distinct_users(debtors),
        distinct_users(creditors),
        units_from(debtors, 0) == units_from(creditors, 0),
        pairing_is_exact(debtors, creditors, 0, 0, amount_at(debtors, 0), amount_at(creditors, 0)),
    ensures
        spec_pairing(debtors, creditors) matches Some(transfers) && booked_in_full(transfers, debtors, true)
            && booked_in_full(transfers, creditors, false),
{
    let done = Seq::<TransferView>::empty();
    let d = amount_at(debtors, 0);
    let c = amount_at(creditors, 0);
    if debtors.len() > 0 {
        assert(debtors[0].amount.units() > 0);
    }
    if creditors.len() > 0 {
        assert(creditors[0].amount.units() > 0);
    }
    lemma_units_from_not_negative(debtors, 1);
    lemma_units_from_not_negative(creditors, 1);
    assert(booked(done, debtors, 0, d, true));
    assert(booked(done, creditors, 0, c, false));
    lemma_pairing_settles_from(debtors, creditors, 0, 0, d, c, done);
}

/// Behind the place of a new share the sums are those of the old list, one
/// index lower.
pub proof fn lemma_units_behind_insert(shares: Seq<ShareView>, p: int, share: ShareView, from: int)
    requires
        0 <= p <= shares.len(),
        p < from,
    ensures
        units_from(shares.insert(p, share), from) == units_from(shares, from - 1),
    decreases shares.len() + 1 - from,
{
    let after = shares.insert(p, share);
    if from < after.len() {
        assert(after[from] == shares[from - 1]);
        lemma_units_behind_insert(shares, p, share, from + 1);
    }
}

/// One more share adds its amount to the sum of the list.
pub proof fn lemma_units_insert(shares: Seq<ShareView>, p: int, share: ShareView, from: int)
    requires
        0 <= from <= p <= shares.len(),
    ensures
        units_from(shares.insert(p, share), from) == units_from(shares, from) + share.amount.units(),
    decreases p - from,
{
    let after = shares.insert(p, share);
    if from < p {
        assert(after[from] == shares[from]);
        lemma_units_insert(shares, p, share, from + 1);
    } else {
        assert(after[p] == share);
        lemma_units_behind_insert(shares, p, share, p + 1);
    }
}

/// Sorting changes no sum.
pub proof fn lemma_sorted_from_units(shares: Seq<ShareView>, i: int, sorted: Seq<ShareView>)
    requires
        0 <= i <= shares.len(),
    ensures
        units_from(sorted_from(shares, i, sorted), 0) == units_from(sorted, 0) + units_from(shares, i),
    decreases shares.len() - i,
{
    if i < shares.len() {
        lemma_insert_position(sorted, shares[i], sorted.len() as int);
        lemma_units_insert(sorted, insert_position(sorted, shares[i], sorted.len() as int), shares[i], 0);
        lemma_sorted_from_units(shares, i + 1, insert_sorted(sorted, shares[i]));
    }
}

/// A share of the sorted list is a share of the list it was sorted from,
/// and the other way round.
pub proof fn lemma_sorted_has_same_shares(shares: Seq<ShareView>)
    ensures
        forall|i: int|
            0 <= i < spec_sorted(shares).len() ==> shares.contains(#[trigger] spec_sorted(shares)[i]),
        forall|k: int| 0 <= k < shares.len() ==> spec_sorted(shares).contains(#[trigger] shares[k]),
{
    broadcast use vstd::seq_lib::group_to_multiset_ensures;

    let sorted = spec_sorted(shares);
    lemma_sorted_is_permutation(shares);
    assert forall|i: int| 0 <= i < sorted.len() implies shares.contains(#[trigger] sorted[i]) by {
        assert(sorted.contains(sorted[i]));
        assert(sorted.to_multiset().count(sorted[i]) > 0);
    }
    assert forall|k: int| 0 <= k < shares.len() implies sorted.contains(#[trigger] shares[k]) by {
        assert(shares.contains(shares[k]));
        assert(shares.to_multiset().count(shares[k]) > 0);
    }
}

/// Sorting keeps the amounts above zero and the handles distinct.
pub proof fn lemma_sorted_keeps_parties(shares: Seq<ShareView>)
    requires
        all_positive(shares),
        distinct_users(shares),
    ensures
        all_positive(spec_sorted(shares)),
        distinct_users(spec_sorted(shares)),
        units_from(spec_sorted(shares), 0) == units_from(shares, 0),
{
    broadcast use vstd::seq_lib::group_to_multiset_ensures;

    let sorted = spec_sorted(shares);
    lemma_sorted_has_same_shares(shares);
    lemma_sorted_is_permutation(shares);
    lemma_sorted_from_units(shares, 0, Seq::empty());
    assert forall|i: int| 0 <= i < sorted.len() implies (#[trigger] sorted[i]).amount.units() > 0 by {
        assert(shares.contains(sorted[i]));
        let k = choose|k: int| 0 <= k < shares.len() && shares[k] == sorted[i];
        assert(shares[k].amount.units() > 0);
    }
    lemma_same_shares_distinct(shares, sorted);
}

/// A share at the end of a list adds its amount to the sum of the list.
pub proof fn lemma_units_push(shares: Seq<ShareView>, share: ShareView)
    ensures
        units_from(shares.push(share), 0) == units_from(shares, 0) + share.amount.units(),
{
    assert(shares.insert(shares.len() as int, share) =~= shares.push(share));
    lemma_units_insert(shares, shares.len() as int, share, 0);
}

/// What the creditors are owed less what the debtors owe is the sum of the
/// balances.
pub proof fn lemma_parties_units(balances: Seq<ShareView>, n: int)
    requires
        0 <= n <= balances.len(),
        shares_wf(balances),
    ensures
        units_from(creditors_upto(balances, n), 0) - units_from(debtors_upto(balances, n), 0) == units_from(
            balances.take(n),
            0,
        ),
    decreases n,
{
    if n > 0 {
        lemma_parties_units(balances, n - 1);
        let last = balances[n - 1];
        assert(balances.take(n) =~= balances.take(n - 1).push(last));
        lemma_units_push(balances.take(n - 1), last);
        lemma_units_sign(last.amount);
        assert(last.amount.wf());
        if last.amount.mantissa > 0 {
            lemma_units_push(creditors_upto(balances, n - 1), last);
        } else if last.amount.mantissa < 0 {
            lemma_units_negated(last.amount);
            lemma_units_push(
                debtors_upto(balances, n - 1),
                ShareView { username: last.username, amount: negated(last.amount) },
            );
        }
    }
}

/// The debtors and the creditors have amounts above zero and distinct
/// handles, and every balance that is not zero is among them.
pub proof fn lemma_parties_of_balances(balances: Seq<ShareView>, n: int)
    requires
        0 <= n <= balances.len(),
        shares_wf(balances),
        distinct_users(balances),
    ensures
        all_positive(debtors_upto(balances, n)),
        all_positive(creditors_upto(balances, n)),
        distinct_users(debtors_upto(balances, n)),
        distinct_users(creditors_upto(balances, n)),
        forall|k: int|
            0 <= k < n && (#[trigger] balances[k]).amount.mantissa < 0 ==> debtors_upto(balances, n).contains(
                ShareView { username: balances[k].username, amount: negated(balances[k].amount) },
            ),
        forall|k: int|
            0 <= k < n && (#[trigger] balances[k]).amount.mantissa > 0 ==> creditors_upto(balances, n).contains(
                balances[k],
            ),
    decreases n,
{
    lemma_debtors_owe(balances, n);
    lemma_creditors_are_owed(balances, n);
    let debtors = debtors_upto(balances, n);
    let creditors = creditors_upto(balances, n);
    assert forall|i: int| 0 <= i < debtors.len() implies (#[trigger] debtors[i]).amount.units() > 0 by {
        lemma_units_sign(debtors[i].amount);
    }
    assert forall|i: int| 0 <= i < creditors.len() implies (#[trigger] creditors[i]).amount.units() > 0 by {
        lemma_units_sign(creditors[i].amount);
    }
    if n > 0 {
        lemma_parties_of_balances(balances, n - 1);
        lemma_debtors_owe(balances, n - 1);
        lemma_creditors_are_owed(balances, n - 1);
        let last = balances[n - 1];
        let debtors_before = debtors_upto(balances, n - 1);
        let creditors_before = creditors_upto(balances, n - 1);
        assert forall|i: int, j: int| 0 <= i < debtors.len() && 0 <= j < debtors.len() && i != j implies (
        #[trigger] debtors[i]).username != (#[trigger] debtors[j]).username by {
            if i < debtors_before.len() {
                assert(debtors[i] == debtors_before[i]);
                let a = choose|a: int|
                    0 <= a < n - 1 && (#[trigger] balances[a]).username == debtors_before[i].username
                        && balances[a].amount.mantissa < 0;
                assert(balances[a].username != balances[n - 1].username);
            }
            if j < debtors_before.len() {
                assert(debtors[j] == debtors_before[j]);
                let b = choose|b: int|
                    0 <= b < n - 1 && (#[trigger] balances[b]).username == debtors_before[j].username
                        && balances[b].amount.mantissa < 0;
                assert(balances[b].username != balances[n - 1].username);
            }
        }
        assert forall|i: int, j: int| 0 <= i < creditors.len() && 0 <= j < creditors.len() && i != j implies (
        #[trigger] creditors[i]).username != (#[trigger] creditors[j]).username by {
            if i < creditors_before.len() {
                assert(creditors[i] == creditors_before[i]);
                let a = choose|a: int|
                    0 <= a < n - 1 && (#[trigger] balances[a]).username == creditors_before[i].username
                        && balances[a].amount.mantissa > 0;
                assert(balances[a].username != balances[n - 1].username);
            }
            if j < creditors_before.len() {
                assert(creditors[j] == creditors_before[j]);
                let b = choose|b: int|
                    0 <= b < n - 1 && (#[trigger] balances[b]).username == creditors_before[j].username
                        && balances[b].amount.mantissa > 0;
                assert(balances[b].username != balances[n - 1].username);
            }
        }
        assert forall|k: int| 0 <= k < n && (#[trigger] balances[k]).amount.mantissa < 0 implies debtors.contains(
            ShareView { username: balances[k].username, amount: negated(balances[k].amount) },
        ) by {
            let wanted = ShareView { username: balances[k].username, amount: negated(balances[k].amount) };
            if k < n - 1 {
                assert(debtors_before.contains(wanted));
                let i = choose|i: int| 0 <= i < debtors_before.len() && debtors_before[i] == wanted;
                assert(debtors[i] == wanted);
            } else {
                assert(debtors[debtors.len() - 1] == wanted);
            }
        }
        assert forall|k: int|
            0 <= k < n && (#[trigger] balances[k]).amount.mantissa > 0 implies creditors.contains(balances[k]) by {
            if k < n - 1 {
                assert(creditors_before.contains(balances[k]));
                let i = choose|i: int| 0 <= i < creditors_before.len() && creditors_before[i] == balances[k];
                assert(creditors[i] == balances[k]);
            } else {
                assert(creditors[creditors.len() - 1] == balances[k]);
            }
        }
    }
}

/// A user whom no transfer names as debtor pays nothing, and one whom none
/// names as creditor gets nothing.
pub proof fn lemma_no_part(transfers: Seq<TransferView>, username: Seq<char>)
    ensures
        (forall|t: int| 0 <= t < transfers.len() ==> (#[trigger] transfers[t]).debtor != username) ==> paid_by(
            transfers,
            username,
        ) == 0,
        (forall|t: int| 0 <= t < transfers.len() ==> (#[trigger] transfers[t]).creditor != username)
            ==> received_by(transfers, username) == 0,
    decreases transfers.len(),
{
    if transfers.len() > 0 {
        let before = transfers.drop_last();
        lemma_no_part(before, username);
        assert(transfers.last() == transfers[transfers.len() - 1]);
        if forall|t: int| 0 <= t < transfers.len() ==> (#[trigger] transfers[t]).debtor != username {
            assert forall|t: int| 0 <= t < before.len() implies (#[trigger] before[t]).debtor != username by {
                assert(before[t] == transfers[t]);
            }
        }
        if forall|t: int| 0 <= t < transfers.len() ==> (#[trigger] transfers[t]).creditor != username {
            assert forall|t: int| 0 <= t < before.len() implies (#[trigger] before[t]).creditor != username by {
                assert(before[t] == transfers[t]);
            }
        }
    }
}

/// The settlement brings every balance to zero: a user gets in all, less
/// what the user pays in all, exactly the user's balance. This holds where
/// the balances add up to zero and no difference that the pairing takes is
/// rounded.
pub proof fn lemma_settlement_pays_every_balance(balances: Seq<ShareView>)
    requires
        shares_wf(balances),
        distinct_users(balances),
        units_from(balances, 0) == 0,
        spec_sum(balances) matches Some(sum) && sum.mantissa == 0,
        pairing_is_exact(
            spec_sorted(debtors_of(balances)),
            spec_sorted(creditors_of(balances)),
            0,
            0,
            amount_at(spec_sorted(debtors_of(balances)), 0),
            amount_at(spec_sorted(creditors_of(balances)), 0),
        ),
    ensures
        spec_settle_balances(balances) matches Ok(transfers) && forall|k: int|
            0 <= k < balances.len() ==> received_by(transfers, (#[trigger] balances[k]).username) - paid_by(
                transfers,
                balances[k].username,
            ) == balances[k].amount.units(),
{
    let n = balances.len() as int;
    let debtors = debtors_of(balances);
    let creditors = creditors_of(balances);
    let sorted_debtors = spec_sorted(debtors);
    let sorted_creditors = spec_sorted(creditors);
    lemma_parties_of_balances(balances, n);
    lemma_parties_units(balances, n);
    assert(balances.take(n) =~= balances);
    lemma_sorted_keeps_parties(debtors);
    lemma_sorted_keeps_parties(creditors);
    lemma_sorted_has_same_shares(debtors);
    lemma_sorted_has_same_shares(creditors);
    lemma_pairing_settles(sorted_debtors, sorted_creditors);
    let transfers = spec_pairing(sorted_debtors, sorted_creditors).unwrap();
    lemma_pairing_between_parties(
        sorted_debtors,
        sorted_creditors,
        0,
        0,
        amount_at(sorted_debtors, 0),
        amount_at(sorted_creditors, 0),
        Seq::empty(),
    );
    lemma_debtors_owe(balances, n);
    lemma_creditors_are_owed(balances, n);
    assert forall|k: int| 0 <= k < balances.len() implies received_by(
        transfers,
        (#[trigger] balances[k]).username,
    ) - paid_by(transfers, balances[k].username) == balances[k].amount.units() by {
        let username = balances[k].username;
        lemma_units_sign(balances[k].amount);
        lemma_no_part(transfers, username);
        if balances[k].amount.mantissa <= 0 {
            assert forall|t: int| 0 <= t < transfers.len() implies (#[trigger] transfers[t]).creditor
                != username by {
                if transfers[t].creditor == username {
                    lemma_sorted_has_same_users(creditors, username);
                    let i = choose|i: int| 0 <= i < creditors.len() && (#[trigger] creditors[i]).username == username;
                    let x = choose|x: int|
                        0 <= x < n && (#[trigger] balances[x]).username == creditors[i].username
                            && balances[x].amount.mantissa > 0;
                    assert(balances[x].username == balances[k].username);
                }
            }
        }
        if balances[k].amount.mantissa >= 0 {
            assert forall|t: int| 0 <= t < transfers.len() implies (#[trigger] transfers[t]).debtor != username by {
                if transfers[t].debtor == username {
                    lemma_sorted_has_same_users(debtors, username);
                    let i = choose|i: int| 0 <= i < debtors.len() && (#[trigger] debtors[i]).username == username;
                    let x = choose|x: int|
                        0 <= x < n && (#[trigger] balances[x]).username == debtors[i].username
                            && balances[x].amount.mantissa < 0;
                    assert(balances[x].username == balances[k].username);
                }
            }
        }
        if balances[k].amount.mantissa > 0 {
            assert(creditors.contains(balances[k]));
            assert(sorted_creditors.contains(balances[k])) by {
                let i = choose|i: int| 0 <= i < creditors.len() && creditors[i] == balances[k];
                assert(sorted_creditors.contains(creditors[i]));
            }
            let c = choose|c: int| 0 <= c < sorted_creditors.len() && sorted_creditors[c] == balances[k];
            assert(received_by(transfers, sorted_creditors[c].username) == sorted_creditors[c].amount.units());
        } else if balances[k].amount.mantissa < 0 {
            let owed = ShareView { username, amount: negated(balances[k].amount) };
            assert(balances[k].amount.wf());
            lemma_units_negated(balances[k].amount);
            assert(debtors.contains(owed));
            assert(sorted_debtors.contains(owed)) by {
                let i = choose|i: int| 0 <= i < debtors.len() && debtors[i] == owed;
                assert(sorted_debtors.contains(debtors[i]));
            }
            let d = choose|d: int| 0 <= d < sorted_debtors.len() && sorted_debtors[d] == owed;
            assert(paid_by(transfers, sorted_debtors[d].username) == sorted_debtors[d].amount.units());
        }
    }
}

/// Every sum that adding up the list from index `i` on takes, one amount
/// after the other on top of `so_far`, is taken without rounding.
pub open spec fn sum_is_exact(shares: Seq<ShareView>, i: int, so_far: Amount) -> bool
    decreases shares.len() - i,
{
    if i < 0 || i >= shares.len() {
        true
    } else {
        adds_exactly(so_far, shares[i].amount) && sum_is_exact(
            shares,
            i + 1,
            spec_checked_add(so_far, shares[i].amount).unwrap(),
        )
    }
}

/// A sum that is taken without rounding is the sum of the amounts.
pub proof fn lemma_exact_sum(shares: Seq<ShareView>, i: int, so_far: Amount)
    requires
        0 <= i,
        so_far.wf(),
        sum_is_exact(shares, i, so_far),
    ensures
        sum_from(shares, i, so_far) matches Some(sum) && sum.wf() && sum.units() == so_far.units() + units_from(
            shares,
            i,
        ),
    decreases shares.len() - i,
{
    if i < shares.len() {
        lemma_exact_sum(shares, i + 1, spec_checked_add(so_far, shares[i].amount).unwrap());
    }
}

/// Every balance is exactly what the spender spent less the mean.
pub open spec fn balances_are_exact(totals: Seq<ShareView>, mean: Amount) -> bool {
    forall|i: int| 0 <= i < totals.len() ==> subtracts_exactly((#[trigger] totals[i]).amount, mean)
}

/// The balances from index `i` on add up to what was spent from `i` on, less
/// the mean for each spender.
pub proof fn lemma_exact_balances_from(totals: Seq<ShareView>, mean: Amount, i: int)
    requires
        0 <= i <= totals.len(),
        balances_are_exact(totals, mean),
    ensures
        spec_balances(totals, mean) matches Some(balances) && shares_wf(balances) && units_from(balances, i)
            == units_from(totals, i) - (totals.len() - i) * mean.units(),
    decreases totals.len() - i,
{
    assert forall|k: int| 0 <= k < totals.len() implies spec_checked_sub((#[trigger] totals[k]).amount, mean)
        is Some by {
        assert(subtracts_exactly(totals[k].amount, mean));
    }
    let balances = spec_balances(totals, mean).unwrap();
    assert forall|k: int| 0 <= k < balances.len() implies (#[trigger] balances[k]).amount.wf() by {
        assert(subtracts_exactly(totals[k].amount, mean));
    }
    if i < totals.len() {
        lemma_exact_balances_from(totals, mean, i + 1);
        assert(subtracts_exactly(totals[i].amount, mean));
        let n = totals.len() as int;
        let m = mean.units();
        assert((n - i) * m == m + (n - (i + 1)) * m) by (nonlinear_arith);
    } else {
        let m = mean.units();
        assert(0 * m == 0) by (nonlinear_arith);
    }
}

/// The balances add up to zero, where the mean is exactly the sum of what
/// was spent divided by the number of spenders, and each balance exactly
/// what the spender spent less the mean.
pub proof fn lemma_exact_balances_sum_to_zero(totals: Seq<ShareView>, mean: Amount)
    requires
        mean.units() * totals.len() == units_from(totals, 0),
        balances_are_exact(totals, mean),
    ensures
        spec_balances(totals, mean) matches Some(balances) && shares_wf(balances) && units_from(balances, 0) == 0,
{
    lemma_exact_balances_from(totals, mean, 0);
    let n = totals.len() as int;
    let m = mean.units();
    assert(m * n == (n - 0) * m) by (nonlinear_arith);
}

/// No sum, quotient or difference that the settlement of these expenses
/// takes is rounded: the sum of what was spent, the mean, the balances,
/// their sum, and the differences of the pairing.
pub open spec fn arithmetic_is_exact(expenses: Seq<expense::ModelView>) -> bool {
    let zero = Amount { mantissa: 0, scale: 0 };
    &&& spec_totals(expenses) matches Some(totals) && {
        &&& sum_is_exact(totals, 0, zero)
        &&& divides_exactly(spec_sum(totals).unwrap(), totals.len())
        &&& balances_are_exact(totals, spec_mean(totals).unwrap())
        &&& {
            let balances = spec_balances(totals, spec_mean(totals).unwrap()).unwrap();
            &&& sum_is_exact(balances, 0, zero)
            &&& pairing_is_exact(
                spec_sorted(debtors_of(balances)),
                spec_sorted(creditors_of(balances)),
                0,
                0,
                amount_at(spec_sorted(debtors_of(balances)), 0),
                amount_at(spec_sorted(creditors_of(balances)), 0),
            )
        }
    }
}

/// The settlement is fair. Where nothing is rounded on the way, the
/// expenses are settled; the balances of the spenders add up to zero; and
/// what a spender gets in all, less what they pay in all, is exactly their
/// balance.
pub proof fn lemma_settle_is_fair(expenses: Seq<expense::ModelView>)
    requires
        arithmetic_is_exact(expenses),
    ensures
        spec_balances_of(expenses) matches Some(balances) && units_from(balances, 0) == 0,
        spec_settle(expenses) matches Ok(transfers) && forall|k: int|
            0 <= k < spec_balances_of(expenses).unwrap().len() ==> received_by(
                transfers,
                (#[trigger] spec_balances_of(expenses).unwrap()[k]).username,
            ) - paid_by(transfers, spec_balances_of(expenses).unwrap()[k].username) == spec_balances_of(
                expenses,
            ).unwrap()[k].amount.units(),
{
    let zero = Amount { mantissa: 0, scale: 0 };
    let totals = spec_totals(expenses).unwrap();
    lemma_exact_sum(totals, 0, zero);
    let sum = spec_sum(totals).unwrap();
    let mean = spec_mean(totals).unwrap();
    lemma_exact_balances_sum_to_zero(totals, mean);
    let balances = spec_balances(totals, mean).unwrap();
    lemma_exact_sum(balances, 0, zero);
    lemma_units_sign(spec_sum(balances).unwrap());
    lemma_balances_distinct(expenses);
    lemma_settlement_pays_every_balance(balances);
}

/// What stands before a share stands before every share that this one
/// stands before.
pub proof fn lemma_comes_before_transitive(a: ShareView, b: ShareView, c: ShareView)
    requires
        comes_before(a, b),
        comes_before(b, c),
    ensures
        comes_before(a, c),
{
    if a.amount.units() == b.amount.units() && b.amount.units() == c.amount.units() {
        lemma_text_less_transitive(a.username, b.username, c.username, 0);
    }
}

/// Each share of the list stands before every share behind it.
pub open spec fn strictly_sorted(shares: Seq<ShareView>) -> bool {
    forall|i: int, j: int| 0 <= i < j < shares.len() ==> comes_before(#[trigger] shares[i], #[trigger] shares[j])
}

/// In a list in order, with no user twice, each share stands before every
/// share behind it.
pub proof fn lemma_in_order_is_strict(shares: Seq<ShareView>, i: int, j: int)
    requires
        in_order(shares),
        distinct_users(shares),
        0 <= i < j < shares.len(),
    ensures
        comes_before(shares[i], shares[j]),
    decreases j - i,
{
    assert(!comes_before(shares[(j - 1) + 1], shares[j - 1]));
    assert(shares[j - 1].username != shares[j].username);
    lemma_comes_before_total(shares[j - 1], shares[j]);
    if i < j - 1 {
        lemma_in_order_is_strict(shares, i, j - 1);
        lemma_comes_before_transitive(shares[i], shares[j - 1], shares[j]);
    }
}

/// Two lists that hold the same shares, each with every share before all
/// those behind it, are the same list.
pub proof fn lemma_strictly_sorted_unique(one: Seq<ShareView>, other: Seq<ShareView>)
    requires
        strictly_sorted(one),
        strictly_sorted(other),
        one.to_multiset() =~= other.to_multiset(),
    ensures
        one == other,
    decreases one.len(),
{
    broadcast use vstd::seq_lib::group_to_multiset_ensures;

    one.to_multiset_ensures();
    other.to_multiset_ensures();
    assert(one.len() == other.len());
    if one.len() > 0 {
        let x = one[0];
        let y = other[0];
        if x != y {
            assert(one.contains(x));
            assert(other.to_multiset().count(x) > 0);
            assert(other.contains(x));
            let k = choose|k: int| 0 <= k < other.len() && other[k] == x;
            assert(comes_before(other[0], other[k]));
            assert(other.contains(y));
            assert(one.to_multiset().count(y) > 0);
            assert(one.contains(y));
            let l = choose|l: int| 0 <= l < one.len() && one[l] == y;
            assert(comes_before(one[0], one[l]));
            lemma_comes_before_asymmetric(x, y);
        }
        let one_rest = one.remove(0);
        let other_rest = other.remove(0);
        assert(one_rest.to_multiset() =~= other_rest.to_multiset());
        assert forall|i: int, j: int| 0 <= i < j < one_rest.len() implies comes_before(
            #[trigger] one_rest[i],
            #[trigger] one_rest[j],
        ) by {
            assert(one_rest[i] == one[i + 1] && one_rest[j] == one[j + 1]);
        }
        assert forall|i: int, j: int| 0 <= i < j < other_rest.len() implies comes_before(
            #[trigger] other_rest[i],
            #[trigger] other_rest[j],
        ) by {
            assert(other_rest[i] == other[i + 1] && other_rest[j] == other[j + 1]);
        }
        lemma_strictly_sorted_unique(one_rest, other_rest);
        assert(one =~= seq![x] + one_rest);
        assert(other =~= seq![y] + other_rest);
    } else {
        assert(one =~= other);
    }
}

/// Sorting does not depend on the order in which the shares come: two lists
/// that hold the same shares, no user twice, are sorted into the same list.
pub proof fn lemma_sorted_whatever_the_order(one: Seq<ShareView>, other: Seq<ShareView>)
    requires
        distinct_users(one),
        one.to_multiset() =~= other.to_multiset(),
    ensures
        spec_sorted(one) == spec_sorted(other),
{
    broadcast use vstd::seq_lib::group_to_multiset_ensures;

    let s = spec_sorted(one);
    let t = spec_sorted(other);
    lemma_sorted_is_permutation(one);
    lemma_sorted_is_permutation(other);
    lemma_sorted_in_order(one);
    lemma_sorted_in_order(other);
    lemma_same_shares_distinct(one, s);
    lemma_same_shares_distinct(one, t);
    assert forall|i: int, j: int| 0 <= i < j < s.len() implies comes_before(#[trigger] s[i], #[trigger] s[j]) by {
        lemma_in_order_is_strict(s, i, j);
    }
    assert forall|i: int, j: int| 0 <= i < j < t.len() implies comes_before(#[trigger] t[i], #[trigger] t[j]) by {
        lemma_in_order_is_strict(t, i, j);
    }
    lemma_strictly_sorted_unique(s, t);
}

/// A list that holds the same shares as one without a user twice has no
/// user twice either.
pub proof fn lemma_same_shares_distinct(shares: Seq<ShareView>, same: Seq<ShareView>)
    requires
        distinct_users(shares),
        shares.to_multiset() =~= same.to_multiset(),
    ensures
        distinct_users(same),
{
    broadcast use vstd::seq_lib::group_to_multiset_ensures;

    assert(shares.no_duplicates()) by {
        assert forall|a: int, b: int| 0 <= a < shares.len() && 0 <= b < shares.len() && a != b implies shares[a]
            != shares[b] by {
            assert(shares[a].username != shares[b].username);
        }
    }
    shares.lemma_multiset_has_no_duplicates();
    assert forall|x: ShareView| same.to_multiset().contains(x) implies same.to_multiset().count(x) == 1 by {}
    same.lemma_multiset_has_no_duplicates_conv();
    assert forall|i: int, j: int| 0 <= i < same.len() && 0 <= j < same.len() && i != j implies (
    #[trigger] same[i]).username != (#[trigger] same[j]).username by {
        assert(same[i] != same[j]);
        assert(same.contains(same[i]));
        assert(same.contains(same[j]));
        assert(same.to_multiset().count(same[i]) > 0);
        assert(same.to_multiset().count(same[j]) > 0);
        assert(shares.contains(same[i]));
        assert(shares.contains(same[j]));
        let a = choose|a: int| 0 <= a < shares.len() && shares[a] == same[i];
        let b = choose|b: int| 0 <= b < shares.len() && shares[b] == same[j];
        assert(a != b);
        assert(shares[a].username != shares[b].username);
    }
}

/// How many transfers pair the debtors from `i` on with the creditors from
/// `j` on at most: one less than there are parties left, and none where one
/// side has none left.
pub open spec fn most_transfers(debtors: Seq<ShareView>, creditors: Seq<ShareView>, i: int, j: int) -> int {
    if 0 <= i < debtors.len() && 0 <= j < creditors.len() {
        (debtors.len() - i) + (creditors.len() - j) - 1
    } else {
        0
    }
}

/// The pairing from debtor `i` and creditor `j` on adds transfers behind
/// those done, each of an amount above zero, and at most one less than there
/// are parties left; this where what is still owed is what is still to be
/// had and no difference is rounded.
pub proof fn lemma_pairing_is_short_from(
    debtors: Seq<ShareView>,
    creditors: Seq<ShareView>,
    i: int,
    j: int,
    d: Amount,
    c: Amount,
    done: Seq<TransferView>,
)
    requires
        all_positive(debtors),
        all_positive(creditors),
        0 <= i <= debtors.len(),
        0 <= j <= creditors.len(),
        i < debtors.len() ==> 0 < d.units(),
        j < creditors.len() ==> 0 < c.units(),
        still_open(debtors, i, d) == still_open(creditors, j, c),
        pairing_is_exact(debtors, creditors, i, j, d, c),
    ensures
        pairing_from(debtors, creditors, i, j, d, c, done) matches Some(transfers) && {
            &&& done.len() <= transfers.len() <= done.len() + most_transfers(debtors, creditors, i, j)
            &&& forall|t: int| 0 <= t < done.len() ==> transfers[t] == done[t]
            &&& forall|t: int| done.len() <= t < transfers.len() ==> (#[trigger] transfers[t]).amount.units() > 0
        },
    decreases (debtors.len() - i) + (creditors.len() - j),
{
    lemma_units_from_not_negative(debtors, i + 1);
    lemma_units_from_not_negative(creditors, j + 1);
    if i < debtors.len() && j < creditors.len() {
        let amount = if c.units() < d.units() {
            c
        } else {
            d
        };
        let transfer = TransferView { debtor: debtors[i].username, creditor: creditors[j].username, amount };
        let next = done.push(transfer);
        let d1 = amount_at(debtors, i + 1);
        let c1 = amount_at(creditors, j + 1);
        if i + 1 < debtors.len() {
            assert(debtors[i + 1].amount.units() > 0);
        }
        if j + 1 < creditors.len() {
            assert(creditors[j + 1].amount.units() > 0);
        }
        lemma_units_from_not_negative(debtors, i + 2);
        lemma_units_from_not_negative(creditors, j + 2);
        if d.units() < c.units() {
            let rest = spec_checked_sub(c, d).unwrap();
            lemma_units_sign(rest);
            lemma_pairing_is_short_from(debtors, creditors, i + 1, j, d1, rest, next);
        } else if c.units() < d.units() {
            let rest = spec_checked_sub(d, c).unwrap();
            lemma_units_sign(rest);
            lemma_pairing_is_short_from(debtors, creditors, i, j + 1, rest, c1, next);
        } else {
            lemma_pairing_is_short_from(debtors, creditors, i + 1, j + 1, d1, c1, next);
        }
        let transfers = pairing_from(debtors, creditors, i, j, d, c, done).unwrap();
        assert(transfers[done.len() as int] == next[done.len() as int]);
        assert forall|t: int| 0 <= t < done.len() implies transfers[t] == done[t] by {
            assert(transfers[t] == next[t]);
        }
    }
}

/// The pairing needs few transfers, and none of them is empty: where the
/// debtors owe in all what the creditors are owed in all, and no difference
/// on the way is rounded, every transfer is of an amount above zero, and
/// there is at most one transfer less than there are parties.
pub proof fn lemma_pairing_is_short(debtors: Seq<ShareView>, creditors: Seq<ShareView>)
    requires
        all_positive(debtors),
        all_positive(creditors),
        units_from(debtors, 0) == units_from(creditors, 0),
        pairing_is_exact(debtors, creditors, 0, 0, amount_at(debtors, 0), amount_at(creditors, 0)),
    ensures
        spec_pairing(debtors, creditors) matches Some(transfers) && {
            &&& transfers.len() <= most_transfers(debtors, creditors, 0, 0)
            &&& forall|t: int| 0 <= t < transfers.len() ==> (#[trigger] transfers[t]).amount.units() > 0
        },
{
    if debtors.len() > 0 {
        assert(debtors[0].amount.units() > 0);
    }
    if creditors.len() > 0 {
        assert(creditors[0].amount.units() > 0);
    }
    lemma_units_from_not_negative(debtors, 1);
    lemma_units_from_not_negative(creditors, 1);
    lemma_pairing_is_short_from(
        debtors,
        creditors,
        0,
        0,
        amount_at(debtors, 0),
        amount_at(creditors, 0),
        Seq::empty(),
    );
}

/// Every transfer of a settlement runs from a spender whose balance is below
/// zero to one whose balance is above zero; so nobody pays themselves.
pub proof fn lemma_transfers_run_from_debtors_to_creditors(balances: Seq<ShareView>, t: int)
    requires
        shares_wf(balances),
        distinct_users(balances),
        spec_settle_balances(balances) is Ok,
        0 <= t < spec_settle_balances(balances)->Ok_0.len(),
    ensures
        exists|k: int|
            0 <= k < balances.len() && (#[trigger] balances[k]).username == spec_settle_balances(
                balances,
            )->Ok_0[t].debtor && balances[k].amount.units() < 0,
        exists|k: int|
            0 <= k < balances.len() && (#[trigger] balances[k]).username == spec_settle_balances(
                balances,
            )->Ok_0[t].creditor && balances[k].amount.units() > 0,
        spec_settle_balances(balances)->Ok_0[t].debtor != spec_settle_balances(balances)->Ok_0[t].creditor,
{
    let transfers = spec_settle_balances(balances)->Ok_0;
    let debtors = spec_sorted(debtors_of(balances));
    let creditors = spec_sorted(creditors_of(balances));
    lemma_pairing_between_parties(
        debtors,
        creditors,
        0,
        0,
        amount_at(debtors, 0),
        amount_at(creditors, 0),
        Seq::empty(),
    );
    assert(has_user(debtors, transfers[t].debtor));
    assert(has_user(creditors, transfers[t].creditor));
    lemma_sorted_has_same_users(debtors_of(balances), transfers[t].debtor);
    lemma_sorted_has_same_users(creditors_of(balances), transfers[t].creditor);
    lemma_debtors_owe(balances, balances.len() as int);
    lemma_creditors_are_owed(balances, balances.len() as int);
    let di = choose|i: int|
        0 <= i < debtors_of(balances).len() && (#[trigger] debtors_of(balances)[i]).username
            == transfers[t].debtor;
    let dk = choose|x: int|
        0 <= x < balances.len() && (#[trigger] balances[x]).username == debtors_of(balances)[di].username
            && balances[x].amount.mantissa < 0;
    lemma_units_sign(balances[dk].amount);
    assert(balances[dk].username == transfers[t].debtor && balances[dk].amount.units() < 0);
    let ci = choose|i: int|
        0 <= i < creditors_of(balances).len() && (#[trigger] creditors_of(balances)[i]).username
            == transfers[t].creditor;
    let ck = choose|x: int|
        0 <= x < balances.len() && (#[trigger] balances[x]).username == creditors_of(balances)[ci].username
            && balances[x].amount.mantissa > 0;
    lemma_units_sign(balances[ck].amount);
    assert(balances[ck].username == transfers[t].creditor && balances[ck].amount.units() > 0);
    assert(dk != ck);
}

/// How many spenders are not at the mean: the debtors and the creditors.
pub open spec fn unsettled(balances: Seq<ShareView>) -> nat {
    debtors_of(balances).len() + creditors_of(balances).len()
}

/// A settlement needs few transfers, and none of them is empty: where the
/// balances add up to zero and no difference that the pairing takes is
/// rounded, every transfer is of an amount above zero; there is none where
/// everybody is at the mean, and else at most one less than there are
/// spenders who are not.
pub proof fn lemma_settlement_is_short(balances: Seq<ShareView>)
    requires
        shares_wf(balances),
        distinct_users(balances),
        units_from(balances, 0) == 0,
        spec_sum(balances) matches Some(sum) && sum.mantissa == 0,
        pairing_is_exact(
            spec_sorted(debtors_of(balances)),
            spec_sorted(creditors_of(balances)),
            0,
            0,
            amount_at(spec_sorted(debtors_of(balances)), 0),
            amount_at(spec_sorted(creditors_of(balances)), 0),
        ),
    ensures
        spec_settle_balances(balances) matches Ok(transfers) && {
            &&& forall|t: int| 0 <= t < transfers.len() ==> (#[trigger] transfers[t]).amount.units() > 0
            &&& unsettled(balances) == 0 ==> transfers.len() == 0
            &&& unsettled(balances) > 0 ==> transfers.len() <= unsettled(balances) - 1
        },
{
    let n = balances.len() as int;
    let debtors = debtors_of(balances);
    let creditors = creditors_of(balances);
    lemma_parties_of_balances(balances, n);
    lemma_parties_units(balances, n);
    assert(balances.take(n) =~= balances);
    lemma_sorted_keeps_parties(debtors);
    lemma_sorted_keeps_parties(creditors);
    lemma_sorted_is_permutation(debtors);
    lemma_sorted_is_permutation(creditors);
    lemma_pairing_is_short(spec_sorted(debtors), spec_sorted(creditors));
}

/// The settlement of a list of expenses needs few transfers, and none of
/// them is empty: where nothing is rounded on the way, every transfer is of
/// an amount above zero; there is none where every spender is at the mean,
/// and else at most one less than there are spenders who are not.
pub proof fn lemma_settle_is_short(expenses: Seq<expense::ModelView>)
    requires
        arithmetic_is_exact(expenses),
    ensures
        spec_balances_of(expenses) is Some,
        spec_settle(expenses) matches Ok(transfers) && {
            &&& forall|t: int| 0 <= t < transfers.len() ==> (#[trigger] transfers[t]).amount.units() > 0
            &&& unsettled(spec_balances_of(expenses).unwrap()) == 0 ==> transfers.len() == 0
            &&& unsettled(spec_balances_of(expenses).unwrap()) > 0 ==> transfers.len() <= unsettled(
                spec_balances_of(expenses).unwrap(),
            ) - 1
        },
{
    let zero = Amount { mantissa: 0, scale: 0 };
    let totals = spec_totals(expenses).unwrap();
    lemma_exact_sum(totals, 0, zero);
    let mean = spec_mean(totals).unwrap();
    lemma_exact_balances_sum_to_zero(totals, mean);
    let balances = spec_balances(totals, mean).unwrap();
    lemma_exact_sum(balances, 0, zero);
    lemma_units_sign(spec_sum(balances).unwrap());
    lemma_balances_distinct(expenses);
    lemma_settlement_is_short(balances);
}

/// Every expense of the list is of this one user.
pub open spec fn one_spender(expenses: Seq<expense::ModelView>, username: Seq<char>) -> bool {
    forall|i: int| 0 <= i < expenses.len() ==> (#[trigger] expenses[i]).username == username
}

/// The expenses of one user add up to one total.
pub proof fn lemma_totals_of_one_spender(
    expenses: Seq<expense::ModelView>,
    username: Seq<char>,
    i: int,
    totals: Seq<ShareView>,
)
    requires
        one_spender(expenses, username),
        0 <= i <= expenses.len(),
        totals.len() <= 1,
        totals.len() == 1 ==> totals[0].username == username,
        i < expenses.len() || totals.len() == 1,
    ensures
        totals_from(expenses, i, totals) matches Some(all) ==> all.len() == 1 && all[0].username == username,
    decreases expenses.len() - i,
{
    if i < expenses.len() {
        assert(expenses[i].username == username);
        lemma_find_user(totals, username, 0);
        if let Some(next) = add_expense_to(totals, username, expenses[i].amount) {
            lemma_totals_of_one_spender(expenses, username, i + 1, next);
        }
    }
}

/// Who is alone owes nothing. Where every expense is of one user and nothing
/// is rounded on the way, the mean is what that user spent, the user's
/// balance is zero, and the settlement has no transfer.
pub proof fn lemma_one_spender_owes_nothing(expenses: Seq<expense::ModelView>, username: Seq<char>)
    requires
        expenses.len() > 0,
        one_spender(expenses, username),
        arithmetic_is_exact(expenses),
    ensures
        spec_totals(expenses) matches Some(totals) && totals.len() == 1 && totals[0].username == username && (
        spec_mean(totals) matches Some(mean) && mean.units() == totals[0].amount.units()),
        spec_balances_of(expenses) matches Some(balances) && balances.len() == 1 && balances[0].username
            == username && balances[0].amount.units() == 0,
        spec_settle(expenses) == Ok::<Seq<TransferView>, crate::settlement::SettleError>(Seq::empty()),
{
    let zero = Amount { mantissa: 0, scale: 0 };
    lemma_totals_of_one_spender(expenses, username, 0, Seq::empty());
    let totals = spec_totals(expenses).unwrap();
    lemma_exact_sum(totals, 0, zero);
    let sum = spec_sum(totals).unwrap();
    let mean = spec_mean(totals).unwrap();
    assert(units_from(totals, 1) == 0);
    assert(sum.units() == totals[0].amount.units());
    assert(divides_exactly(sum, 1));
    assert(mean.units() == sum.units()) by {
        let m = mean.units();
        assert(m * 1 == m) by (nonlinear_arith);
    }
    lemma_exact_balances_sum_to_zero(totals, mean);
    let balances = spec_balances(totals, mean).unwrap();
    assert(subtracts_exactly(totals[0].amount, mean));
    assert(balances[0].amount == spec_checked_sub(totals[0].amount, mean).unwrap());
    assert(balances[0].amount.units() == 0);
    lemma_units_sign(balances[0].amount);
    lemma_exact_sum(balances, 0, zero);
    lemma_units_sign(spec_sum(balances).unwrap());
    assert(debtors_upto(balances, 0) =~= Seq::empty());
    assert(creditors_upto(balances, 0) =~= Seq::empty());
    assert(debtors_of(balances) =~= Seq::empty());
    assert(creditors_of(balances) =~= Seq::empty());
    assert(spec_sorted(Seq::<ShareView>::empty()) =~= Seq::empty());
    assert(spec_pairing(Seq::<ShareView>::empty(), Seq::<ShareView>::empty()) == Some(
        Seq::<TransferView>::empty(),
    ));
}

} // verus!
