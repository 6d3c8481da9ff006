use splittea::amount::Amount;
use splittea::bot::{
    add_expense, add_member_to_group, all_commands, amount_received, ask_for_groups, cancel, create_group,
    expenses_listed,
    failure, get_author_username, group_found, group_id_of, group_to_report, groups_listed, help, invalid_state,
    list_expenses_in_group, list_my_groups, membership_checked, on_answer, on_message, receive_amount_spent,
    receive_group_id_for_add_member, receive_group_id_for_expense, receive_group_id_for_expenses_list,
    receive_group_name, receive_note, receive_user_name, reply_with, route, three_parts, Answer, ChatState,
    Command, IdentityError, Outcome, Request, Route, Sender, Step,
};
use splittea::entity::{expense, group, user};

const NO_USERNAME: &str = "\u{1F614}Sorry, I can't detect your username\u{1F614}";
const NO_USER: &str = "\u{1F614}Sorry, I can't get info about you\u{1F614}";
const FAILED: &str = "Something went wrong. Please, try again later.";
const INVALID: &str = "Unable to handle the message. Type /help to see the usage.";

fn dec(text: &str) -> Amount {
    Amount::parse(text).unwrap()
}

fn ann() -> Sender {
    Sender::Named("ann".to_string())
}

fn say(text: &str, next: ChatState) -> Step {
    Step::Done(Outcome { reply: text.to_string(), next })
}

fn group_of(id: i64, name: &str) -> group::Model {
    group::Model { id, name: name.to_string() }
}

fn user_of(username: &str) -> user::Model {
    user::Model { username: username.to_string() }
}

fn expense_of(username: &str, amount: &str, note: &str) -> expense::Model {
    expense::Model { id: 0, username: username.to_string(), group_id: 7, amount: dec(amount), note: note.to_string() }
}

fn all_states() -> Vec<ChatState> {
    vec![
        ChatState::Start,
        ChatState::ReceiveGroupIdForExpense,
        ChatState::ReceiveAmountSpent { group_id: 7 },
        ChatState::ReceiveNote { group_id: 7, amount: dec("12.50") },
        ChatState::ReceiveGroupName,
        ChatState::ReceiveGroupIdForAddMember,
        ChatState::ReceiveUsername { group_id: 7 },
        ChatState::ReceiveGroupIdForExpensesList,
    ]
}

fn all_commands_by_hand() -> Vec<Command> {
    vec![
        Command::Help,
        Command::CreateGroup,
        Command::AddMemberToGroup,
        Command::AddExpense,
        Command::ListExpensesInGroup,
        Command::ListMyGroups,
        Command::Cancel,
    ]
}

#[test]
fn a_chat_begins_at_the_start() {
    assert_eq!(ChatState::default(), ChatState::Start);
}

#[test]
fn the_handle_is_the_username_behind_an_at_sign() {
    assert_eq!(get_author_username(&ann()), Ok("@ann".to_string()));
    assert_eq!(get_author_username(&Sender::Named(String::new())), Ok("@".to_string()));
    assert_eq!(get_author_username(&Sender::Nameless), Err(IdentityError::NoUsername));
    assert_eq!(get_author_username(&Sender::Unknown), Err(IdentityError::NoUser));
    assert_eq!(IdentityError::NoUsername.message(), NO_USERNAME);
    assert_eq!(IdentityError::NoUser.message(), NO_USER);
}

#[test]
fn cancel_leads_to_the_start_from_every_state() {
    for state in all_states() {
        for sender in [ann(), Sender::Nameless, Sender::Unknown] {
            for text in [None, Some("/cancel"), Some("12")] {
                let step = on_message(state, Some(Command::Cancel), &sender, text);
                assert_eq!(step, say("Canceled whatever you did", ChatState::Start));
            }
        }
    }
    assert_eq!(cancel(), say("Canceled whatever you did", ChatState::Start));
}

#[test]
fn commands_are_heard_at_the_start_only() {
    for command in all_commands_by_hand() {
        assert_eq!(route(ChatState::Start, Some(command)), Route::Command(command));
    }
    for state in all_states() {
        assert_eq!(route(state, Some(Command::Cancel)), Route::Command(Command::Cancel));
        if state != ChatState::Start {
            assert_eq!(route(state, None), Route::Data);
            assert_eq!(route(state, Some(Command::Help)), Route::Data);
            assert_eq!(route(state, Some(Command::AddExpense)), Route::Data);
        }
    }
    assert_eq!(route(ChatState::Start, None), Route::Invalid);
}

#[test]
fn a_message_without_a_command_at_the_start_is_not_handled() {
    assert_eq!(on_message(ChatState::Start, None, &ann(), Some("hello")), say(INVALID, ChatState::Start));
    assert_eq!(on_message(ChatState::Start, None, &ann(), None), say(INVALID, ChatState::Start));
    assert_eq!(invalid_state(ChatState::ReceiveGroupName), say(INVALID, ChatState::ReceiveGroupName));
}

#[test]
fn help_lists_the_commands() {
    let expected = "Splittea supports the following commands:\n\n\
        /help \u{2014} display this text\n\
        /creategroup \u{2014} create new group and put yourself as it's first member\n\
        /addmembertogroup \u{2014} add member to a group\n\
        /addexpense \u{2014} add an expense\n\
        /listexpensesingroup \u{2014} list all expenses in a group\n\
        /listmygroups \u{2014} list all your groups\n\
        /cancel \u{2014} cancel whatever you do";
    assert_eq!(help(), say(expected, ChatState::Start));
    assert_eq!(on_message(ChatState::Start, Some(Command::Help), &Sender::Unknown, None), help());
}

#[test]
fn every_command_has_a_name_and_a_description() {
    let listed: Vec<(&str, &str)> = all_commands().iter().map(|c| (c.name(), c.description())).collect();
    assert_eq!(
        listed,
        vec![
            ("help", "display this text"),
            ("creategroup", "create new group and put yourself as it's first member"),
            ("addmembertogroup", "add member to a group"),
            ("addexpense", "add an expense"),
            ("listexpensesingroup", "list all expenses in a group"),
            ("listmygroups", "list all your groups"),
            ("cancel", "cancel whatever you do"),
        ]
    );
    assert_eq!(all_commands(), all_commands_by_hand());
}

#[test]
fn create_group_asks_for_a_name() {
    let expected = say("Pick a name for your group", ChatState::ReceiveGroupName);
    assert_eq!(create_group(), expected);
    assert_eq!(on_message(ChatState::Start, Some(Command::CreateGroup), &ann(), Some("/creategroup")), expected);
}

#[test]
fn the_other_commands_begin_with_the_groups_of_the_sender() {
    let ask = |command: Command| Step::Ask(Request::UserGroups { username: "@ann".to_string(), command });
    assert_eq!(list_my_groups(&ann()), ask(Command::ListMyGroups));
    assert_eq!(add_member_to_group(&ann()), ask(Command::AddMemberToGroup));
    assert_eq!(add_expense(&ann()), ask(Command::AddExpense));
    assert_eq!(list_expenses_in_group(&ann()), ask(Command::ListExpensesInGroup));
    assert_eq!(ask_for_groups(&ann(), Command::AddExpense), ask(Command::AddExpense));
    for command in [Command::ListMyGroups, Command::AddMemberToGroup, Command::AddExpense, Command::ListExpensesInGroup]
    {
        assert_eq!(on_message(ChatState::Start, Some(command), &ann(), None), ask(command));
        assert_eq!(
            on_message(ChatState::Start, Some(command), &Sender::Nameless, None),
            say(NO_USERNAME, ChatState::Start)
        );
        assert_eq!(
            on_message(ChatState::Start, Some(command), &Sender::Unknown, None),
            say(NO_USER, ChatState::Start)
        );
    }
}

#[test]
fn groups_listed_goes_on_with_the_flow() {
    let groups = vec![group_of(1, "trip"), group_of(2, "flat")];
    let list = "1 \u{2014} `trip`\n, 2 \u{2014} `flat`\n";
    assert_eq!(
        groups_listed(ChatState::Start, Command::ListMyGroups, &groups),
        say(&format!("Here are your groups:\n {}", list), ChatState::Start)
    );
    assert_eq!(
        groups_listed(ChatState::Start, Command::AddMemberToGroup, &groups),
        say(
            &format!("Choose id of the group where you want to add a member:\n {}", list),
            ChatState::ReceiveGroupIdForAddMember
        )
    );
    assert_eq!(
        groups_listed(ChatState::Start, Command::AddExpense, &groups),
        say(
            &format!("Choose id of the group you'd like to add the expense:\n {}", list),
            ChatState::ReceiveGroupIdForExpense
        )
    );
    assert_eq!(
        groups_listed(ChatState::Start, Command::ListExpensesInGroup, &groups),
        say(
            &format!("Good, choose id of one of your groups:\n {}", list),
            ChatState::ReceiveGroupIdForExpensesList
        )
    );
}

#[test]
fn groups_listed_without_groups() {
    let none: Vec<group::Model> = Vec::new();
    let no_group = say("You don't belong to any group yet", ChatState::Start);
    assert_eq!(groups_listed(ChatState::Start, Command::ListMyGroups, &none), no_group);
    assert_eq!(groups_listed(ChatState::Start, Command::AddMemberToGroup, &none), no_group);
    assert_eq!(groups_listed(ChatState::Start, Command::AddExpense, &none), no_group);
    assert_eq!(
        groups_listed(ChatState::Start, Command::ListExpensesInGroup, &none),
        say(
            "You are not a member of any group, yet. You can create one with /creategroup",
            ChatState::ReceiveGroupIdForExpensesList
        )
    );
    assert_eq!(groups_listed(ChatState::Start, Command::Help, &none), say(FAILED, ChatState::Start));
}

#[test]
fn a_group_is_created_and_its_creator_added() {
    let state = ChatState::ReceiveGroupName;
    let create = Request::CreateGroup { name: "trip".to_string(), username: "@ann".to_string() };
    assert_eq!(receive_group_name(&ann(), Some("trip")), Step::Ask(create.clone()));
    assert_eq!(on_message(state, None, &ann(), Some("trip")), Step::Ask(create.clone()));
    let add = Request::AddCreator { username: "@ann".to_string(), group_id: 5, group_name: "trip".to_string() };
    assert_eq!(on_answer(state, &create, &Answer::GroupCreated(group_of(5, "trip"))), Step::Ask(add.clone()));
    assert_eq!(
        on_answer(state, &add, &Answer::UserAdded),
        say("Group `trip` was successfully created and you've been added to it", ChatState::Start)
    );
}

#[test]
fn a_command_is_a_name_like_any_other_while_a_name_is_awaited() {
    assert_eq!(
        on_message(ChatState::ReceiveGroupName, Some(Command::Help), &ann(), Some("/help")),
        Step::Ask(Request::CreateGroup { name: "/help".to_string(), username: "@ann".to_string() })
    );
}

#[test]
fn a_member_is_added_by_a_member() {
    let state = ChatState::ReceiveGroupIdForAddMember;
    let users = Request::UsersInGroup { group_id: 7, username: "@ann".to_string() };
    assert_eq!(receive_group_id_for_add_member(&ann(), Some("7")), Step::Ask(users.clone()));
    assert_eq!(on_message(state, None, &ann(), Some("7")), Step::Ask(users.clone()));
    let members = Answer::UsersInGroup(vec![user_of("@bob"), user_of("@ann")]);
    let next = ChatState::ReceiveUsername { group_id: 7 };
    assert_eq!(on_answer(state, &users, &members), say("Provide @username of that user: ", next));
    let add = Request::AddUserToGroup { username: "@cid".to_string(), group_id: 7 };
    assert_eq!(receive_user_name(7, Some("@cid")), Step::Ask(add.clone()));
    assert_eq!(on_message(next, None, &Sender::Unknown, Some("@cid")), Step::Ask(add.clone()));
    assert_eq!(
        on_answer(next, &add, &Answer::UserAdded),
        say("User @cid has been successfully added to a group", ChatState::Start)
    );
}

#[test]
fn who_is_no_member_adds_no_member() {
    let state = ChatState::ReceiveGroupIdForAddMember;
    let users = Request::UsersInGroup { group_id: 7, username: "@ann".to_string() };
    let others = Answer::UsersInGroup(vec![user_of("@bob"), user_of("@anna")]);
    assert_eq!(on_answer(state, &users, &others), say("Please, provide id from the list: ", state));
    assert_eq!(
        membership_checked(state, 7, "@ann", &Vec::new()),
        say("Please, provide id from the list: ", state)
    );
}

#[test]
fn an_expense_is_added_in_three_steps() {
    let first = ChatState::ReceiveGroupIdForExpense;
    let lookup = Request::GroupById { group_id: 7 };
    assert_eq!(receive_group_id_for_expense(Some("7")), Step::Ask(lookup.clone()));
    assert_eq!(on_message(first, None, &ann(), Some("7")), Step::Ask(lookup.clone()));
    let second = ChatState::ReceiveAmountSpent { group_id: 7 };
    assert_eq!(
        on_answer(first, &lookup, &Answer::Group(Some(group_of(7, "trip")))),
        say("You want to add an expense to a group `trip`.\n Now, type the amount you spent:", second)
    );
    let third = ChatState::ReceiveNote { group_id: 7, amount: dec("12.50") };
    assert_eq!(on_message(second, None, &ann(), Some("12.50")), say("Provide some note:", third));
    let record = Request::AddExpense {
        username: "@ann".to_string(),
        amount: Amount { mantissa: 1250, scale: 2 },
        group_id: 7,
        note: "tickets".to_string(),
    };
    assert_eq!(receive_note(&ann(), 7, dec("12.50"), Some("tickets")), Step::Ask(record.clone()));
    assert_eq!(on_message(third, None, &ann(), Some("tickets")), Step::Ask(record.clone()));
    assert_eq!(on_answer(third, &record, &Answer::ExpenseAdded), say("The expense has been added", ChatState::Start));
}

#[test]
fn a_group_that_does_not_exist_takes_no_expense() {
    let state = ChatState::ReceiveGroupIdForExpense;
    let lookup = Request::GroupById { group_id: 8 };
    assert_eq!(on_answer(state, &lookup, &Answer::Group(None)), say("Inexistent group id", state));
    assert_eq!(group_found(state, 8, &None), say("Inexistent group id", state));
}

#[test]
fn a_group_that_does_not_exist_is_not_reported_on() {
    let state = ChatState::ReceiveGroupIdForExpensesList;
    let lookup = Request::GroupForReport { group_id: 8 };
    assert_eq!(on_answer(state, &lookup, &Answer::Group(None)), say("Inexistent group id", state));
    assert_eq!(group_to_report(state, 8, &None), say("Inexistent group id", state));
    assert_eq!(
        group_to_report(state, 8, &Some(group_of(8, "flat"))),
        Step::Ask(Request::ExpensesInGroup { group_id: 8, group_name: "flat".to_string() })
    );
}

#[test]
fn an_amount_is_above_zero() {
    let state = ChatState::ReceiveAmountSpent { group_id: 7 };
    let positive = say("Please, provide some positive amount:", state);
    let decimal = say("Please, provide some decimal value:", state);
    assert_eq!(receive_amount_spent(7, Some("0")), positive);
    assert_eq!(receive_amount_spent(7, Some("0.00")), positive);
    assert_eq!(receive_amount_spent(7, Some("-3")), positive);
    assert_eq!(receive_amount_spent(7, Some("three")), decimal);
    assert_eq!(receive_amount_spent(7, Some("")), decimal);
    assert_eq!(receive_amount_spent(7, None), decimal);
    assert_eq!(
        receive_amount_spent(7, Some("0.01")),
        say("Provide some note:", ChatState::ReceiveNote { group_id: 7, amount: Amount { mantissa: 1, scale: 2 } })
    );
    assert_eq!(amount_received(7, None), decimal);
    assert_eq!(amount_received(7, Some(Amount::zero())), positive);
    assert_eq!(
        amount_received(7, Some(dec("3"))),
        say("Provide some note:", ChatState::ReceiveNote { group_id: 7, amount: dec("3") })
    );
}

#[test]
fn what_is_not_awaited_is_asked_for_again() {
    let amount = dec("12.50");
    let cases: Vec<(ChatState, Option<&str>, &str)> = vec![
        (ChatState::ReceiveGroupName, None, "Pick a name for your group"),
        (ChatState::ReceiveGroupIdForAddMember, Some("seven"), "Please, send an integer value: "),
        (ChatState::ReceiveGroupIdForAddMember, Some(""), "Please, send an integer value: "),
        (ChatState::ReceiveGroupIdForAddMember, None, "Please, send an integer value: "),
        (ChatState::ReceiveUsername { group_id: 7 }, Some("cid"), "Please, provide a username, starting from `@`:"),
        (ChatState::ReceiveUsername { group_id: 7 }, Some(""), "Please, provide a username, starting from `@`:"),
        (ChatState::ReceiveUsername { group_id: 7 }, Some(" @cid"), "Please, provide a username, starting from `@`:"),
        (ChatState::ReceiveUsername { group_id: 7 }, None, "Please, provide a username, starting from `@`:"),
        (ChatState::ReceiveGroupIdForExpense, Some("7.5"), "Please, send a decimal value"),
        (ChatState::ReceiveGroupIdForExpense, None, "Please, send a decimal value"),
        (ChatState::ReceiveAmountSpent { group_id: 7 }, Some("a lot"), "Please, provide some decimal value:"),
        (ChatState::ReceiveAmountSpent { group_id: 7 }, Some("-1"), "Please, provide some positive amount:"),
        (ChatState::ReceiveAmountSpent { group_id: 7 }, None, "Please, provide some decimal value:"),
        (ChatState::ReceiveNote { group_id: 7, amount }, None, "Provide some note:"),
        (ChatState::ReceiveGroupIdForExpensesList, Some("all"), "Please, send an integer value: "),
        (ChatState::ReceiveGroupIdForExpensesList, None, "Please, send an integer value: "),
    ];
    for (state, text, prompt) in cases {
        for command in [None, Some(Command::Help), Some(Command::ListMyGroups)] {
            for sender in [ann(), Sender::Nameless, Sender::Unknown] {
                assert_eq!(on_message(state, command, &sender, text), say(prompt, state), "{:?} {:?}", state, text);
            }
        }
    }
}

#[test]
fn without_a_handle_nothing_is_stored() {
    let amount = dec("12.50");
    let cases = [
        (ChatState::ReceiveGroupName, "trip"),
        (ChatState::ReceiveGroupIdForAddMember, "7"),
        (ChatState::ReceiveNote { group_id: 7, amount }, "tickets"),
    ];
    for (state, text) in cases {
        assert_eq!(on_message(state, None, &Sender::Nameless, Some(text)), say(NO_USERNAME, state));
        assert_eq!(on_message(state, None, &Sender::Unknown, Some(text)), say(NO_USER, state));
    }
    assert_eq!(receive_group_name(&Sender::Unknown, Some("trip")), say(NO_USER, ChatState::ReceiveGroupName));
}

#[test]
fn a_group_without_expenses_is_not_settled() {
    let state = ChatState::ReceiveGroupIdForExpensesList;
    let lookup = Request::GroupForReport { group_id: 7 };
    assert_eq!(receive_group_id_for_expenses_list(Some("7")), Step::Ask(lookup.clone()));
    assert_eq!(on_message(state, None, &Sender::Unknown, Some("7")), Step::Ask(lookup.clone()));
    let list = Request::ExpensesInGroup { group_id: 7, group_name: "trip".to_string() };
    assert_eq!(on_answer(state, &lookup, &Answer::Group(Some(group_of(7, "trip")))), Step::Ask(list.clone()));
    let expected = say("There are no expenses yet in this group", ChatState::Start);
    assert_eq!(on_answer(state, &list, &Answer::Expenses(Vec::new())), expected);
    assert_eq!(expenses_listed(state, "trip", &Vec::new()), expected);
}

#[test]
fn the_expenses_of_a_group_are_settled_and_reported() {
    let state = ChatState::ReceiveGroupIdForExpensesList;
    let list = Request::ExpensesInGroup { group_id: 7, group_name: "trip".to_string() };
    let expenses = vec![expense_of("@ann", "30", "tickets"), expense_of("@bob", "10", "snacks")];
    assert_eq!(
        on_answer(state, &list, &Answer::Expenses(expenses)),
        say(
            "Group `trip` debt state:\n\u{1F611}@bob owes 10 to @ann\u{1F611}\n\n --- \n Overall expenses in group:\n\
             @ann spent 30 with note: tickets\n@bob spent 10 with note: snacks\n",
            ChatState::Start
        )
    );
}

#[test]
fn debts_that_cannot_be_settled_are_not_reported() {
    let state = ChatState::ReceiveGroupIdForExpensesList;
    let expenses = vec![expense_of("@ann", "10", "a"), expense_of("@bob", "5", "b"), expense_of("@cid", "5", "c")];
    assert_eq!(
        expenses_listed(state, "trip", &expenses),
        say("The debts of this group cannot be settled exactly", state)
    );
}

#[test]
fn a_failure_of_the_store_leaves_the_state() {
    let requests = vec![
        Request::UserGroups { username: "@ann".to_string(), command: Command::AddExpense },
        Request::CreateGroup { name: "trip".to_string(), username: "@ann".to_string() },
        Request::AddCreator { username: "@ann".to_string(), group_id: 5, group_name: "trip".to_string() },
        Request::UsersInGroup { group_id: 7, username: "@ann".to_string() },
        Request::AddUserToGroup { username: "@cid".to_string(), group_id: 7 },
        Request::GroupById { group_id: 7 },
        Request::AddExpense { username: "@ann".to_string(), amount: dec("1"), group_id: 7, note: String::new() },
        Request::GroupForReport { group_id: 7 },
        Request::ExpensesInGroup { group_id: 7, group_name: "trip".to_string() },
    ];
    for state in all_states() {
        for request in &requests {
            assert_eq!(on_answer(state, request, &Answer::Failed), say(FAILED, state));
        }
        assert_eq!(failure(state), say(FAILED, state));
    }
}

#[test]
fn an_answer_to_another_question_counts_as_a_failure() {
    let state = ChatState::ReceiveGroupIdForExpense;
    let lookup = Request::GroupById { group_id: 7 };
    assert_eq!(on_answer(state, &lookup, &Answer::UserAdded), say(FAILED, state));
    assert_eq!(on_answer(state, &lookup, &Answer::Expenses(Vec::new())), say(FAILED, state));
}

#[test]
fn expenses_with_an_amount_beyond_the_limits_count_as_a_failure() {
    let state = ChatState::ReceiveGroupIdForExpensesList;
    let list = Request::ExpensesInGroup { group_id: 7, group_name: "trip".to_string() };
    let mut broken = expense_of("@ann", "30", "tickets");
    broken.amount = Amount { mantissa: 30, scale: 29 };
    let expenses = vec![expense_of("@bob", "10", "snacks"), broken];
    assert_eq!(on_answer(state, &list, &Answer::Expenses(expenses)), say(FAILED, state));
}

#[test]
fn group_id_of_reads_a_whole_number() {
    assert_eq!(group_id_of(Some("7")), Some(7));
    assert_eq!(group_id_of(Some("-7")), Some(-7));
    assert_eq!(group_id_of(Some("7 ")), None);
    assert_eq!(group_id_of(None), None);
}

#[test]
fn small_helpers() {
    assert_eq!(three_parts("a", "", "c"), "ac");
    assert_eq!(three_parts("Group `", "x", "`"), "Group `x`");
    assert_eq!(reply_with("hi", ChatState::ReceiveGroupName), say("hi", ChatState::ReceiveGroupName));
}
