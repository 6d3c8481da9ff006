use splittea::amount::Amount;
use splittea::entity::{expense, group};
use splittea::report::{debt_report, groups_to_pretty};
use splittea::settlement::{settle, Transfer};

fn dec(text: &str) -> Amount {
    Amount::parse(text).unwrap()
}

fn group_of(id: i64, name: &str) -> group::Model {
    group::Model { id, name: name.to_string() }
}

fn expense_of(username: &str, amount: &str, note: &str) -> expense::Model {
    expense::Model { id: 0, username: username.to_string(), group_id: 1, amount: dec(amount), note: note.to_string() }
}

#[test]
fn groups_to_pretty_writes_one_line_for_each_group() {
    assert_eq!(groups_to_pretty(&Vec::new()), "");
    assert_eq!(groups_to_pretty(&vec![group_of(1, "trip")]), "1 \u{2014} `trip`\n");
    assert_eq!(
        groups_to_pretty(&vec![group_of(1, "trip"), group_of(-22, "flat"), group_of(303, "")]),
        "1 \u{2014} `trip`\n, -22 \u{2014} `flat`\n, 303 \u{2014} ``\n"
    );
}

#[test]
fn debt_report_lists_transfers_then_expenses() {
    let expenses = vec![expense_of("@ann", "30", "tickets"), expense_of("@bob", "10.50", "snacks")];
    let transfers = vec![Transfer { debtor: "@bob".to_string(), creditor: "@ann".to_string(), amount: dec("9.75") }];
    assert_eq!(
        debt_report("trip", &transfers, &expenses),
        "Group `trip` debt state:\n\u{1F611}@bob owes 9.75 to @ann\u{1F611}\n\n --- \n Overall expenses in group:\n\
         @ann spent 30 with note: tickets\n@bob spent 10.50 with note: snacks\n"
    );
}

#[test]
fn debt_report_says_so_when_nobody_owes() {
    let expenses = vec![expense_of("@ann", "30", "tickets")];
    assert_eq!(
        debt_report("", &Vec::new(), &expenses),
        "Group `` debt state:\n\u{1F60A}No debt in this group\u{1F60A}\n --- \n Overall expenses in group:\n\
         @ann spent 30 with note: tickets\n"
    );
}

#[test]
fn debt_report_of_a_settlement() {
    let expenses = vec![expense_of("@ann", "30", "a"), expense_of("@bob", "0", "b"), expense_of("@cid", "0", "c")];
    let transfers = settle(&expenses).unwrap();
    assert_eq!(
        debt_report("the flat", &transfers, &expenses),
        "Group `the flat` debt state:\n\u{1F611}@bob owes 10 to @ann\u{1F611}\n\u{1F611}@cid owes 10 to @ann\u{1F611}\n\
         \n --- \n Overall expenses in group:\n@ann spent 30 with note: a\n@bob spent 0 with note: b\n\
         @cid spent 0 with note: c\n"
    );
}
