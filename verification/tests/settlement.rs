use splittea::amount::{Amount, MAX_MANTISSA};
use splittea::entity::expense::Model;
use splittea::settlement::{
    balances_of, balances_of_expenses, match_debts, mean_spent, position_of_user, settle, settle_balances,
    share_before, sort_by_amount, split_by_sign, sum_amounts, total_spent_per_user, SettleError, Share, Transfer,
};

fn dec(text: &str) -> Amount {
    Amount::parse(text).unwrap()
}

fn expense(id: i64, username: &str, amount: &str) -> Model {
    Model { id, username: username.to_string(), group_id: 1, amount: dec(amount), note: String::from("note") }
}

fn share(username: &str, amount: &str) -> Share {
    Share { username: username.to_string(), amount: dec(amount) }
}

fn plain(transfers: &[Transfer]) -> Vec<(String, String, String)> {
    transfers.iter().map(|t| (t.debtor.clone(), t.creditor.clone(), t.amount.to_text())).collect()
}

fn triple(debtor: &str, creditor: &str, amount: &str) -> (String, String, String) {
    (debtor.to_string(), creditor.to_string(), amount.to_string())
}

fn pairs(shares: &[Share]) -> Vec<(String, String)> {
    shares.iter().map(|s| (s.username.clone(), s.amount.to_text())).collect()
}

fn pair(username: &str, amount: &str) -> (String, String) {
    (username.to_string(), amount.to_string())
}

/// What a user gets in all less what the user pays in all, as a decimal.
fn net(transfers: &[Transfer], username: &str) -> Amount {
    let mut sum = Amount::zero();
    for t in transfers {
        if t.creditor == username {
            sum = sum.checked_add(t.amount).unwrap();
        }
        if t.debtor == username {
            sum = sum.checked_sub(t.amount).unwrap();
        }
    }
    sum
}

fn same_number(a: Amount, b: Amount) -> bool {
    !a.less_than(&b) && !b.less_than(&a)
}

#[test]
fn one_spender_pays_for_three() {
    let expenses = vec![expense(1, "@ann", "30"), expense(2, "@bob", "0"), expense(3, "@cid", "0")];
    let transfers = settle(&expenses).unwrap();
    assert_eq!(plain(&transfers), vec![triple("@bob", "@ann", "10"), triple("@cid", "@ann", "10")]);
}

#[test]
fn the_one_at_the_mean_stays_out() {
    let expenses = vec![expense(1, "@ann", "10"), expense(2, "@bob", "20"), expense(3, "@cid", "30")];
    let transfers = settle(&expenses).unwrap();
    assert_eq!(plain(&transfers), vec![triple("@ann", "@cid", "10")]);
    assert!(transfers.iter().all(|t| t.debtor != "@bob" && t.creditor != "@bob"));
}

#[test]
fn a_single_spender_owes_nothing() {
    let expenses = vec![expense(1, "@ann", "12.50"), expense(2, "@ann", "7.25")];
    let balances = balances_of_expenses(&expenses).unwrap();
    assert_eq!(balances.len(), 1);
    assert!(balances[0].amount.is_zero());
    assert_eq!(mean_spent(&total_spent_per_user(&expenses).unwrap()).unwrap().to_text(), "19.75");
    assert!(settle(&expenses).unwrap().is_empty());
}

#[test]
fn a_mean_that_does_not_end_is_refused() {
    let expenses = vec![expense(1, "@ann", "10"), expense(2, "@bob", "5"), expense(3, "@cid", "5")];
    assert_eq!(settle(&expenses), Err(SettleError::Unbalanced));
}

#[test]
fn a_sum_beyond_the_limits_is_refused() {
    let max = Amount::new(MAX_MANTISSA, 0).unwrap();
    let big = |id: i64, username: &str| Model {
        id,
        username: username.to_string(),
        group_id: 1,
        amount: max,
        note: String::new(),
    };
    assert_eq!(settle(&vec![big(1, "@ann"), big(2, "@ann")]), Err(SettleError::Overflow));
    assert_eq!(settle(&vec![big(1, "@ann"), big(2, "@bob")]), Err(SettleError::Overflow));
    assert_eq!(total_spent_per_user(&vec![big(1, "@ann"), big(2, "@ann")]), None);
}

#[test]
fn only_spenders_share_the_cost() {
    // A member who recorded no expense is no party to the settlement: the
    // mean is taken over the two who spent.
    let expenses = vec![expense(1, "@ann", "30"), expense(2, "@bob", "10")];
    let totals = total_spent_per_user(&expenses).unwrap();
    assert_eq!(mean_spent(&totals).unwrap().to_text(), "20");
    assert_eq!(plain(&settle(&expenses).unwrap()), vec![triple("@bob", "@ann", "10")]);
}

#[test]
fn a_debtor_may_pay_two_creditors() {
    let expenses = vec![
        expense(1, "@ann", "50"),
        expense(2, "@bob", "30"),
        expense(3, "@cid", "10"),
        expense(4, "@dan", "10"),
    ];
    let transfers = settle(&expenses).unwrap();
    assert_eq!(
        plain(&transfers),
        vec![triple("@cid", "@ann", "15"), triple("@dan", "@ann", "10"), triple("@dan", "@bob", "5")]
    );
}

#[test]
fn every_balance_is_paid_exactly() {
    let expenses = vec![
        expense(1, "@ann", "50"),
        expense(2, "@bob", "30"),
        expense(3, "@cid", "10"),
        expense(4, "@dan", "10"),
        expense(5, "@eve", "31.25"),
        expense(6, "@bob", "0.50"),
        expense(7, "@cid", "24.50"),
    ];
    let balances = balances_of_expenses(&expenses).unwrap();
    let transfers = settle(&expenses).unwrap();
    assert_eq!(balances.len(), 5);
    for balance in &balances {
        assert!(same_number(net(&transfers, &balance.username), balance.amount), "{}", balance.username);
    }
    assert!(sum_amounts(&balances).unwrap().is_zero());
    assert!(transfers.iter().all(|t| t.debtor != "@eve" && t.creditor != "@eve"));
}

#[test]
fn transfers_are_few_and_none_is_empty() {
    let groups: Vec<Vec<Model>> = vec![
        vec![expense(1, "@ann", "30"), expense(2, "@bob", "0"), expense(3, "@cid", "0")],
        vec![expense(1, "@ann", "10"), expense(2, "@bob", "20"), expense(3, "@cid", "30")],
        vec![expense(1, "@ann", "50"), expense(2, "@bob", "30"), expense(3, "@cid", "10"), expense(4, "@dan", "10")],
        vec![expense(1, "@ann", "7"), expense(2, "@bob", "7")],
        vec![expense(1, "@ann", "0.25"), expense(2, "@bob", "0.75"), expense(3, "@cid", "1"), expense(4, "@dan", "2")],
    ];
    for expenses in groups {
        let balances = balances_of_expenses(&expenses).unwrap();
        let unsettled = balances.iter().filter(|b| !b.amount.is_zero()).count();
        let transfers = settle(&expenses).unwrap();
        if unsettled == 0 {
            assert!(transfers.is_empty());
        } else {
            assert!(transfers.len() <= unsettled - 1);
        }
        for t in &transfers {
            assert!(t.amount.is_positive());
            assert_ne!(t.debtor, t.creditor);
            let debtor = balances.iter().find(|b| b.username == t.debtor).unwrap();
            let creditor = balances.iter().find(|b| b.username == t.creditor).unwrap();
            assert!(debtor.amount.is_negative());
            assert!(creditor.amount.is_positive());
        }
    }
}

#[test]
fn settling_again_gives_the_same_transfers() {
    let expenses = vec![
        expense(1, "@zed", "0"),
        expense(2, "@ann", "40"),
        expense(3, "@kim", "0"),
        expense(4, "@bob", "0"),
    ];
    let first = settle(&expenses).unwrap();
    let second = settle(&expenses).unwrap();
    assert_eq!(first, second);
    assert_eq!(
        plain(&first),
        vec![triple("@bob", "@ann", "10"), triple("@kim", "@ann", "10"), triple("@zed", "@ann", "10")]
    );
}

#[test]
fn equal_debts_go_by_handle_whatever_the_order_of_the_expenses() {
    let one = vec![expense(1, "@zed", "0"), expense(2, "@bob", "0"), expense(3, "@ann", "30")];
    let other = vec![expense(3, "@ann", "30"), expense(2, "@bob", "0"), expense(1, "@zed", "0")];
    let expected = vec![triple("@bob", "@ann", "10"), triple("@zed", "@ann", "10")];
    assert_eq!(plain(&settle(&one).unwrap()), expected);
    assert_eq!(plain(&settle(&other).unwrap()), expected);
}

#[test]
fn amounts_with_cents() {
    let expenses = vec![expense(1, "@ann", "10.50"), expense(2, "@bob", "5.25")];
    assert_eq!(plain(&settle(&expenses).unwrap()), vec![triple("@bob", "@ann", "2.6250")]);
}

#[test]
fn totals_are_kept_per_user_in_order_of_first_appearance() {
    let expenses = vec![
        expense(1, "@bob", "1.5"),
        expense(2, "@ann", "2"),
        expense(3, "@bob", "2.25"),
        expense(4, "@ann", "3"),
    ];
    let totals = total_spent_per_user(&expenses).unwrap();
    assert_eq!(pairs(&totals), vec![pair("@bob", "3.75"), pair("@ann", "5")]);
    assert_eq!(total_spent_per_user(&Vec::new()), Some(Vec::new()));
}

#[test]
fn position_of_user_finds_the_first_or_the_end() {
    let shares = vec![share("@ann", "1"), share("@bob", "2"), share("@ann", "3")];
    assert_eq!(position_of_user(&shares, "@ann"), 0);
    assert_eq!(position_of_user(&shares, "@bob"), 1);
    assert_eq!(position_of_user(&shares, "@cid"), 3);
    assert_eq!(position_of_user(&Vec::new(), "@ann"), 0);
}

#[test]
fn sum_and_mean() {
    let totals = vec![share("@ann", "10"), share("@bob", "20"), share("@cid", "30")];
    assert_eq!(sum_amounts(&totals), Some(dec("60")));
    assert_eq!(mean_spent(&totals), Some(dec("20")));
    assert_eq!(sum_amounts(&Vec::new()), Some(Amount::zero()));
    assert_eq!(mean_spent(&Vec::new()), None);
}

#[test]
fn balances_are_what_was_spent_less_the_mean() {
    let totals = vec![share("@ann", "10"), share("@bob", "20"), share("@cid", "30")];
    let balances = balances_of(&totals, dec("20")).unwrap();
    assert_eq!(pairs(&balances), vec![pair("@ann", "-10"), pair("@bob", "0"), pair("@cid", "10")]);
}

#[test]
fn split_by_sign_leaves_zero_out() {
    let balances = vec![share("@ann", "-10"), share("@bob", "0"), share("@cid", "7.5"), share("@dan", "2.5")];
    let (creditors, debtors) = split_by_sign(&balances);
    assert_eq!(pairs(&creditors), vec![pair("@cid", "7.5"), pair("@dan", "2.5")]);
    assert_eq!(pairs(&debtors), vec![pair("@ann", "10")]);
}

#[test]
fn sort_by_amount_puts_the_largest_first() {
    let shares = vec![share("@ann", "2"), share("@bob", "10"), share("@cid", "2.5"), share("@dan", "10.0")];
    let sorted = sort_by_amount(&shares);
    assert_eq!(
        pairs(&sorted),
        vec![pair("@bob", "10"), pair("@dan", "10.0"), pair("@cid", "2.5"), pair("@ann", "2")]
    );
    assert!(sort_by_amount(&Vec::new()).is_empty());
}

#[test]
fn share_before_goes_by_amount_then_by_handle() {
    assert!(share_before(&share("@zed", "3"), &share("@ann", "2")));
    assert!(!share_before(&share("@ann", "2"), &share("@zed", "3")));
    assert!(share_before(&share("@ann", "2.0"), &share("@bob", "2")));
    assert!(!share_before(&share("@bob", "2"), &share("@ann", "2.0")));
    assert!(!share_before(&share("@ann", "2"), &share("@ann", "2")));
}

#[test]
fn match_debts_pays_the_smaller_of_the_two() {
    let debtors = vec![share("@cid", "15"), share("@dan", "15")];
    let creditors = vec![share("@ann", "25"), share("@bob", "5")];
    let transfers = match_debts(&debtors, &creditors).unwrap();
    assert_eq!(
        plain(&transfers),
        vec![triple("@cid", "@ann", "15"), triple("@dan", "@ann", "10"), triple("@dan", "@bob", "5")]
    );
}

#[test]
fn match_debts_stops_when_one_side_is_used_up() {
    let debtors = vec![share("@cid", "15")];
    let creditors = vec![share("@ann", "10"), share("@bob", "10")];
    let transfers = match_debts(&debtors, &creditors).unwrap();
    assert_eq!(plain(&transfers), vec![triple("@cid", "@ann", "10"), triple("@cid", "@bob", "5")]);
    assert!(match_debts(&Vec::new(), &creditors).unwrap().is_empty());
    assert!(match_debts(&debtors, &Vec::new()).unwrap().is_empty());
}

#[test]
fn match_debts_writes_an_equal_amount_as_the_debtor_has_it() {
    let debtors = vec![share("@cid", "5.00")];
    let creditors = vec![share("@ann", "5")];
    assert_eq!(plain(&match_debts(&debtors, &creditors).unwrap()), vec![triple("@cid", "@ann", "5.00")]);
}

#[test]
fn settle_balances_refuses_balances_that_do_not_add_up() {
    let balances = vec![share("@ann", "10"), share("@bob", "-9.99")];
    assert_eq!(settle_balances(&balances), Err(SettleError::Unbalanced));
    let balances = vec![share("@ann", "10"), share("@bob", "-10.00")];
    assert_eq!(plain(&settle_balances(&balances).unwrap()), vec![triple("@bob", "@ann", "10.00")]);
    assert!(settle_balances(&Vec::new()).unwrap().is_empty());
}
