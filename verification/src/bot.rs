//! The conversation with a member of a group.
//!
//! Each chat is in one state. A message is routed by the state and by the
//! command it holds, if any, to a handler. A handler decides from plain
//! values: it either answers at once, or asks the store for something and
//! decides when the answer is there. Nothing here sends or stores anything:
//! a [`Step`] says what is to be done.

use crate::amount::{spec_parse, Amount};
use crate::entity::{expense, group, user};
use crate::report::{
    debt_report, expense_lines_upto, groups_to_pretty, report_head, spec_debt_report, spec_groups_to_pretty,
};
use crate::settlement::{settle, spec_settle, TransferView};
use crate::settlement_laws::{arithmetic_is_exact, lemma_one_spender_owes_nothing, one_spender};
use crate::text::{parse_i64, spec_parse_i64};
use vstd::prelude::*;
use vstd::string::*;

verus! {

/// The commands of the bot.
#[derive(Clone, Copy, Debug, PartialEq, Eq, Structural)]
pub enum Command {
    /// Display the list of commands.
    Help,
    /// Create a new group with the sender as its first member.
    CreateGroup,
    /// Add a member to a group.
    AddMemberToGroup,
    /// Add an expense.
    AddExpense,
    /// List all expenses in a group.
    ListExpensesInGroup,
    /// List all groups of the sender.
    ListMyGroups,
    /// Cancel whatever is going on.
    Cancel,
}

/// Where a chat stands, with what the earlier messages of the flow gave.
#[derive(Clone, Copy, Debug, PartialEq, Eq, Structural)]
pub enum ChatState {
    /// No flow is going on.
    Start,
    /// Adding an expense: the group is awaited.
    ReceiveGroupIdForExpense,
    /// Adding an expense: the amount is awaited.
    ReceiveAmountSpent { group_id: i64 },
    /// Adding an expense: the note is awaited.
    ReceiveNote { group_id: i64, amount: Amount },
    /// Creating a group: its name is awaited.
    ReceiveGroupName,
    /// Adding a member: the group is awaited.
    ReceiveGroupIdForAddMember,
    /// Adding a member: the member's handle is awaited.
    ReceiveUsername { group_id: i64 },
    /// Listing expenses: the group is awaited.
    ReceiveGroupIdForExpensesList,
}

impl Default for ChatState {
    fn default() -> (r: ChatState)
        ensures
            r == ChatState::Start,
    {
        ChatState::Start
    }
}

impl ChatState {
    /// Every amount that the state holds is within the limits of a decimal.
    pub open spec fn wf(self) -> bool {
        match self {
            ChatState::ReceiveNote { group_id, amount } => amount.wf(),
            _ => true,
        }
    }

    /// The state awaits a piece of data from the user.
    pub open spec fn awaits_data(self) -> bool {
        self != ChatState::Start
    }
}

/// What the transport knows of who sent a message.
#[derive(Clone, Debug, PartialEq, Eq)]
pub enum Sender {
    /// The message names no user.
    Unknown,
    /// The user has no username.
    Nameless,
    /// The user's username, without the `@` in front.
    Named(String),
}

/// A sender with the username as a sequence of characters.
pub enum SenderView {
    Unknown,
    Nameless,
    Named(Seq<char>),
}

impl View for Sender {
    type V = SenderView;

    open spec fn view(&self) -> SenderView {
        match self {
            Sender::Unknown => SenderView::Unknown,
            Sender::Nameless => SenderView::Nameless,
            Sender::Named(name) => SenderView::Named(name@),
        }
    }
}

/// Why the sender's handle is not to be had.
#[derive(Clone, Copy, Debug, PartialEq, Eq, Structural)]
pub enum IdentityError {
    /// The message names no user.
    NoUser,
    /// The user has no username.
    NoUsername,
}

/// What a store is asked for.
#[derive(Clone, Debug, PartialEq, Eq)]
pub enum Request {
    /// The groups of a user, for the flow that a command starts.
    UserGroups { username: String, command: Command },
    /// A new group with this name; `username` created it.
    CreateGroup { name: String, username: String },
    /// The creator of the new group as its first member.
    AddCreator { username: String, group_id: i64, group_name: String },
    /// The users in a group; `username` wants to add a member to it.
    UsersInGroup { group_id: i64, username: String },
    /// A user as a member of a group.
    AddUserToGroup { username: String, group_id: i64 },
    /// The group with this identifier.
    GroupById { group_id: i64 },
    /// A new expense.
    AddExpense { username: String, amount: Amount, group_id: i64, note: String },
    /// The group whose expenses are to be reported.
    GroupForReport { group_id: i64 },
    /// The expenses of a group, for the report on it.
    ExpensesInGroup { group_id: i64, group_name: String },
}

/// A request with its texts as sequences of characters.
pub enum RequestView {
    UserGroups { username: Seq<char>, command: Command },
    CreateGroup { name: Seq<char>, username: Seq<char> },
    AddCreator { username: Seq<char>, group_id: i64, group_name: Seq<char> },
    UsersInGroup { group_id: i64, username: Seq<char> },
    AddUserToGroup { username: Seq<char>, group_id: i64 },
    GroupById { group_id: i64 },
    AddExpense { username: Seq<char>, amount: Amount, group_id: i64, note: Seq<char> },
    GroupForReport { group_id: i64 },
    ExpensesInGroup { group_id: i64, group_name: Seq<char> },
}

impl View for Request {
    type V = RequestView;

    open spec fn view(&self) -> RequestView {
        match self {
            Request::UserGroups { username, command } => RequestView::UserGroups {
                username: username@,
                command: *command,
            },
            Request::CreateGroup { name, username } => RequestView::CreateGroup {
                name: name@,
                username: username@,
            },
            Request::AddCreator { username, group_id, group_name } => RequestView::AddCreator {
                username: username@,
                group_id: *group_id,
                group_name: group_name@,
            },
            Request::UsersInGroup { group_id, username } => RequestView::UsersInGroup {
                group_id: *group_id,
                username: username@,
            },
            Request::AddUserToGroup { username, group_id } => RequestView::AddUserToGroup {
                username: username@,
                group_id: *group_id,
            },
            Request::GroupById { group_id } => RequestView::GroupById { group_id: *group_id },
            Request::AddExpense { username, amount, group_id, note } => RequestView::AddExpense {
                username: username@,
                amount: *amount,
                group_id: *group_id,
                note: note@,
            },
            Request::GroupForReport { group_id } => RequestView::GroupForReport { group_id: *group_id },
            Request::ExpensesInGroup { group_id, group_name } => RequestView::ExpensesInGroup {
                group_id: *group_id,
                group_name: group_name@,
            },
        }
    }
}

/// What the store answered.
#[derive(Clone, Debug, PartialEq, Eq)]
pub enum Answer {
    /// The groups of the user.
    UserGroups(Vec<group::Model>),
    /// The group that was created.
    GroupCreated(group::Model),
    /// The users in the group.
    UsersInGroup(Vec<user::Model>),
    /// The user is a member now.
    UserAdded,
    /// The group, or none with that identifier.
    Group(Option<group::Model>),
    /// The expense is recorded.
    ExpenseAdded,
    /// The expenses of the group.
    Expenses(Vec<expense::Model>),
    /// The store failed.
    Failed,
}

/// The end of a step: the text to send, and the state the chat is in then.
#[derive(Clone, Debug, PartialEq, Eq)]
pub struct Outcome {
    pub reply: String,
    pub next: ChatState,
}

/// An outcome with the reply as a sequence of characters.
pub struct OutcomeView {
    pub reply: Seq<char>,
    pub next: ChatState,
}

impl View for Outcome {
    type V = OutcomeView;

    open spec fn view(&self) -> OutcomeView {
        OutcomeView { reply: self.reply@, next: self.next }
    }
}

/// What is to be done next for a message.
#[derive(Clone, Debug, PartialEq, Eq)]
pub enum Step {
    /// Send the reply and put the chat into the next state.
    Done(Outcome),
    /// Ask the store, and come back with its answer.
    Ask(Request),
}

/// A step with its texts as sequences of characters.
pub enum StepView {
    Done(OutcomeView),
    Ask(RequestView),
}

impl View for Step {
    type V = StepView;

    open spec fn view(&self) -> StepView {
        match self {
            Step::Done(outcome) => StepView::Done(outcome@),
            Step::Ask(request) => StepView::Ask(request@),
        }
    }
}

impl StepView {
    /// The step asks nothing of the store.
    pub open spec fn touches_no_store(self) -> bool {
        self is Done
    }
}

/// The step that sends a text and puts the chat into a state.
pub open spec fn say(reply: Seq<char>, next: ChatState) -> StepView {
    StepView::Done(OutcomeView { reply, next })
}

/// The step that sends a text and puts the chat into a state.
pub fn reply_with(text: &str, next: ChatState) -> (r: Step)
    ensures
        r@ == say(text@, next),
{
    Step::Done(Outcome { reply: String::from_str(text), next })
}

/// Three texts in a row.
pub fn three_parts(a: &str, b: &str, c: &str) -> (r: String)
    ensures
        r@ == a@ + b@ + c@,
{
    let mut text = String::from_str(a);
    text.append(b);
    text.append(c);
    text
}

/// An optional text as a sequence of characters.
pub open spec fn text_view(text: Option<&str>) -> Option<Seq<char>> {
    match text {
        Some(t) => Some(t@),
        None => None,
    }
}

/// The sender's handle: the username with `@` in front.
pub open spec fn spec_author_username(sender: SenderView) -> Result<Seq<char>, IdentityError> {
    match sender {
        SenderView::Named(name) => Ok("@"@ + name),
        SenderView::Nameless => Err(IdentityError::NoUsername),
        SenderView::Unknown => Err(IdentityError::NoUser),
    }
}

/// The sender's handle, or why there is none.
pub fn get_author_username(sender: &Sender) -> (r: Result<String, IdentityError>)
    ensures
        match r {
            Ok(handle) => spec_author_username(sender@) == Ok::<Seq<char>, IdentityError>(handle@),
            Err(e) => spec_author_username(sender@) == Err::<Seq<char>, IdentityError>(e),
        },
{
    match sender {
        Sender::Named(name) => {
            let mut handle = String::from_str("@");
            handle.append(name.as_str());
            Ok(handle)
        },
        Sender::Nameless => Err(IdentityError::NoUsername),
        Sender::Unknown => Err(IdentityError::NoUser),
    }
}

/// What the user is told where their handle is not to be had.
pub open spec fn identity_message(e: IdentityError) -> Seq<char> {
    match e {
        IdentityError::NoUsername => "\u{1F614}Sorry, I can't detect your username\u{1F614}"@,
        IdentityError::NoUser => "\u{1F614}Sorry, I can't get info about you\u{1F614}"@,
    }
}

impl IdentityError {
    /// What the user is told.
    pub fn message(&self) -> (r: &'static str)
        ensures
            r@ == identity_message(*self),
    {
        match self {
            IdentityError::NoUsername => "\u{1F614}Sorry, I can't detect your username\u{1F614}",
            IdentityError::NoUser => "\u{1F614}Sorry, I can't get info about you\u{1F614}",
        }
    }
}

impl Command {
    /// The word that calls the command, behind a `/`.
    pub open spec fn spec_name(self) -> Seq<char> {
        match self {
            Command::Help => "help"@,
            Command::CreateGroup => "creategroup"@,
            Command::AddMemberToGroup => "addmembertogroup"@,
            Command::AddExpense => "addexpense"@,
            Command::ListExpensesInGroup => "listexpensesingroup"@,
            Command::ListMyGroups => "listmygroups"@,
            Command::Cancel => "cancel"@,
        }
    }

    /// The word that calls the command, behind a `/`.
    pub fn name(&self) -> (r: &'static str)
        ensures
            r@ == self.spec_name(),
    {
        match self {
            Command::Help => "help",
            Command::CreateGroup => "creategroup",
            Command::AddMemberToGroup => "addmembertogroup",
            Command::AddExpense => "addexpense",
            Command::ListExpensesInGroup => "listexpensesingroup",
            Command::ListMyGroups => "listmygroups",
            Command::Cancel => "cancel",
        }
    }

    /// What the command does, in a few words.
    pub open spec fn spec_description(self) -> Seq<char> {
        match self {
            Command::Help => "display this text"@,
            Command::CreateGroup => "create new group and put yourself as it's first member"@,
            Command::AddMemberToGroup => "add member to a group"@,
            Command::AddExpense => "add an expense"@,
            Command::ListExpensesInGroup => "list all expenses in a group"@,
            Command::ListMyGroups => "list all your groups"@,
            Command::Cancel => "cancel whatever you do"@,
        }
    }

    /// What the command does, in a few words.
    pub fn description(&self) -> (r: &'static str)
        ensures
            r@ == self.spec_description(),
    {
        match self {
            Command::Help => "display this text",
            Command::CreateGroup => "create new group and put yourself as it's first member",
            Command::AddMemberToGroup => "add member to a group",
            Command::AddExpense => "add an expense",
            Command::ListExpensesInGroup => "list all expenses in a group",
            Command::ListMyGroups => "list all your groups",
            Command::Cancel => "cancel whatever you do",
        }
    }
}

/// The commands, in the order in which they are listed.
pub open spec fn commands() -> Seq<Command> {
    seq![
        Command::Help,
        Command::CreateGroup,
        Command::AddMemberToGroup,
        Command::AddExpense,
        Command::ListExpensesInGroup,
        Command::ListMyGroups,
        Command::Cancel,
    ]
}

/// The commands, in the order in which they are listed.
pub fn all_commands() -> (r: Vec<Command>)
    ensures
        r@ == commands(),
{
    let mut list: Vec<Command> = Vec::new();
    list.push(Command::Help);
    list.push(Command::CreateGroup);
    list.push(Command::AddMemberToGroup);
    list.push(Command::AddExpense);
    list.push(Command::ListExpensesInGroup);
    list.push(Command::ListMyGroups);
    list.push(Command::Cancel);
    assert(list@ =~= commands());
    list
}

/// The line of one command in the list of commands.
pub open spec fn command_line(command: Command) -> Seq<char> {
    "/"@ + command.spec_name() + " \u{2014} "@ + command.spec_description()
}

/// The lines of the first `n` commands, one below the other.
pub open spec fn command_lines_upto(n: int) -> Seq<char>
    decreases n,
{
    if n <= 0 || n > commands().len() {
        Seq::empty()
    } else if n == 1 {
        command_line(commands()[0])
    } else {
        command_lines_upto(n - 1) + "\n"@ + command_line(commands()[n - 1])
    }
}

/// The list of commands: a heading, an empty line, and a line for each
/// command.
pub open spec fn help_text() -> Seq<char> {
    "Splittea supports the following commands:\n\n"@ + command_lines_upto(commands().len() as int)
}

/// Answers with the list of commands.
pub fn help() -> (r: Step)
    ensures
        r@ == say(help_text(), ChatState::Start),
{
    let list = all_commands();
    let mut text = String::from_str("Splittea supports the following commands:\n\n");
    let ghost head = text@;
    let mut i: usize = 0;
    assert(text@ =~= head + command_lines_upto(0));
    while i < list.len()
        invariant
            i <= list.len(),
            list@ == commands(),
            text@ == head + command_lines_upto(i as int),
        decreases list.len() - i,
    {
        let mut line = String::from_str("/");
        line.append(list[i].name());
        line.append(" \u{2014} ");
        line.append(list[i].description());
        assert(line@ == command_line(commands()[i as int]));
        if i > 0 {
            text.append("\n");
        }
        text.append(line.as_str());
        assert(text@ =~= head + command_lines_upto(i + 1));
        i = i + 1;
    }
    Step::Done(Outcome { reply: text, next: ChatState::Start })
}

/// Gives up whatever flow the chat is in.
pub fn cancel() -> (r: Step)
    ensures
        r@ == say("Canceled whatever you did"@, ChatState::Start),
{
    reply_with("Canceled whatever you did", ChatState::Start)
}

/// Answers a message that the state has no use for; the state stays.
pub fn invalid_state(state: ChatState) -> (r: Step)
    ensures
        r@ == say("Unable to handle the message. Type /help to see the usage."@, state),
{
    reply_with("Unable to handle the message. Type /help to see the usage.", state)
}

/// Starts the creation of a group.
pub fn create_group() -> (r: Step)
    ensures
        r@ == say("Pick a name for your group"@, ChatState::ReceiveGroupName),
{
    reply_with("Pick a name for your group", ChatState::ReceiveGroupName)
}

/// The step of a command that begins with the sender's groups: they are
/// asked for, unless the sender has no handle.
pub open spec fn spec_ask_for_groups(sender: SenderView, command: Command) -> StepView {
    match spec_author_username(sender) {
        Ok(username) => StepView::Ask(RequestView::UserGroups { username, command }),
        Err(e) => say(identity_message(e), ChatState::Start),
    }
}

/// Asks for the sender's groups on behalf of a command.
pub fn ask_for_groups(sender: &Sender, command: Command) -> (r: Step)
    ensures
        r@ == spec_ask_for_groups(sender@, command),
{
    match get_author_username(sender) {
        Ok(username) => Step::Ask(Request::UserGroups { username, command }),
        Err(e) => reply_with(e.message(), ChatState::Start),
    }
}

/// Lists the sender's groups.
pub fn list_my_groups(sender: &Sender) -> (r: Step)
    ensures
        r@ == spec_ask_for_groups(sender@, Command::ListMyGroups),
{
    ask_for_groups(sender, Command::ListMyGroups)
}

/// Starts adding a member to one of the sender's groups.
pub fn add_member_to_group(sender: &Sender) -> (r: Step)
    ensures
        r@ == spec_ask_for_groups(sender@, Command::AddMemberToGroup),
{
    ask_for_groups(sender, Command::AddMemberToGroup)
}

/// Starts adding an expense to one of the sender's groups.
pub fn add_expense(sender: &Sender) -> (r: Step)
    ensures
        r@ == spec_ask_for_groups(sender@, Command::AddExpense),
{
    ask_for_groups(sender, Command::AddExpense)
}

/// Starts listing the expenses of one of the sender's groups.
pub fn list_expenses_in_group(sender: &Sender) -> (r: Step)
    ensures
        r@ == spec_ask_for_groups(sender@, Command::ListExpensesInGroup),
{
    ask_for_groups(sender, Command::ListExpensesInGroup)
}

/// The step for the name of a new group: any text is a name.
pub open spec fn spec_receive_group_name(sender: SenderView, text: Option<Seq<char>>) -> StepView {
    match text {
        None => say("Pick a name for your group"@, ChatState::ReceiveGroupName),
        Some(name) => match spec_author_username(sender) {
            Ok(username) => StepView::Ask(RequestView::CreateGroup { name, username }),
            Err(e) => say(identity_message(e), ChatState::ReceiveGroupName),
        },
    }
}

/// Takes the name of a new group.
pub fn receive_group_name(sender: &Sender, text: Option<&str>) -> (r: Step)
    ensures
        r@ == spec_receive_group_name(sender@, text_view(text)),
{
    match text {
        None => reply_with("Pick a name for your group", ChatState::ReceiveGroupName),
        Some(name) => match get_author_username(sender) {
            Ok(username) => Step::Ask(Request::CreateGroup { name: String::from_str(name), username }),
            Err(e) => reply_with(e.message(), ChatState::ReceiveGroupName),
        },
    }
}

/// The whole number that a message writes, if it has a text and the text
/// writes one.
pub open spec fn spec_group_id(text: Option<Seq<char>>) -> Option<i64> {
    match text {
        Some(t) => spec_parse_i64(t),
        None => None,
    }
}

/// Reads the identifier of a group from a message.
pub fn group_id_of(text: Option<&str>) -> (r: Option<i64>)
    ensures
        r == spec_group_id(text_view(text)),
{
    match text {
        Some(t) => parse_i64(t),
        None => None,
    }
}

/// The step for the group to add a member to: the store is asked who is in
/// the group.
pub open spec fn spec_receive_group_id_for_add_member(sender: SenderView, text: Option<Seq<char>>) -> StepView {
    match spec_group_id(text) {
        None => say("Please, send an integer value: "@, ChatState::ReceiveGroupIdForAddMember),
        Some(group_id) => match spec_author_username(sender) {
            Ok(username) => StepView::Ask(RequestView::UsersInGroup { group_id, username }),
            Err(e) => say(identity_message(e), ChatState::ReceiveGroupIdForAddMember),
        },
    }
}

/// Takes the group to add a member to.
pub fn receive_group_id_for_add_member(sender: &Sender, text: Option<&str>) -> (r: Step)
    ensures
        r@ == spec_receive_group_id_for_add_member(sender@, text_view(text)),
{
    match group_id_of(text) {
        None => reply_with("Please, send an integer value: ", ChatState::ReceiveGroupIdForAddMember),
        Some(group_id) => match get_author_username(sender) {
            Ok(username) => Step::Ask(Request::UsersInGroup { group_id, username }),
            Err(e) => reply_with(e.message(), ChatState::ReceiveGroupIdForAddMember),
        },
    }
}

/// A text is a handle: it begins with `@`.
pub open spec fn is_handle(text: Seq<char>) -> bool {
    text.len() > 0 && text[0] == '@'
}

/// The step for the handle of a new member.
pub open spec fn spec_receive_user_name(group_id: i64, text: Option<Seq<char>>) -> StepView {
    match text {
        Some(nickname) => if is_handle(nickname) {
            StepView::Ask(RequestView::AddUserToGroup { username: nickname, group_id })
        } else {
            say("Please, provide a username, starting from `@`:"@, ChatState::ReceiveUsername { group_id })
        },
        None => say("Please, provide a username, starting from `@`:"@, ChatState::ReceiveUsername { group_id }),
    }
}

/// Takes the handle of a new member.
pub fn receive_user_name(group_id: i64, text: Option<&str>) -> (r: Step)
    ensures
        r@ == spec_receive_user_name(group_id, text_view(text)),
{
    match text {
        Some(nickname) => {
            if nickname.unicode_len() > 0 && nickname.get_char(0) == '@' {
                Step::Ask(Request::AddUserToGroup { username: String::from_str(nickname), group_id })
            } else {
                reply_with("Please, provide a username, starting from `@`:", ChatState::ReceiveUsername { group_id })
            }
        },
        None => reply_with("Please, provide a username, starting from `@`:", ChatState::ReceiveUsername { group_id }),
    }
}

/// The step for the group of a new expense: the store is asked for the
/// group.
pub open spec fn spec_receive_group_id_for_expense(text: Option<Seq<char>>) -> StepView {
    match spec_group_id(text) {
        None => say("Please, send a decimal value"@, ChatState::ReceiveGroupIdForExpense),
        Some(group_id) => StepView::Ask(RequestView::GroupById { group_id }),
    }
}

/// Takes the group of a new expense.
pub fn receive_group_id_for_expense(text: Option<&str>) -> (r: Step)
    ensures
        r@ == spec_receive_group_id_for_expense(text_view(text)),
{
    match group_id_of(text) {
        None => reply_with("Please, send a decimal value", ChatState::ReceiveGroupIdForExpense),
        Some(group_id) => Step::Ask(Request::GroupById { group_id }),
    }
}

/// The amount that a message writes, if it has a text and the text writes
/// one.
pub open spec fn spec_amount(text: Option<Seq<char>>) -> Option<Amount> {
    match text {
        Some(t) => spec_parse(t),
        None => None,
    }
}

/// The step for an amount that was read from a message, or for none: an
/// amount above zero is kept for the note.
pub open spec fn spec_amount_received(group_id: i64, amount: Option<Amount>) -> StepView {
    match amount {
        None => say("Please, provide some decimal value:"@, ChatState::ReceiveAmountSpent { group_id }),
        Some(a) => if a.mantissa > 0 {
            say("Provide some note:"@, ChatState::ReceiveNote { group_id, amount: a })
        } else {
            say("Please, provide some positive amount:"@, ChatState::ReceiveAmountSpent { group_id })
        },
    }
}

/// Decides on an amount that was read from a message, or on none.
pub fn amount_received(group_id: i64, amount: Option<Amount>) -> (r: Step)
    ensures
        r@ == spec_amount_received(group_id, amount),
{
    match amount {
        None => reply_with("Please, provide some decimal value:", ChatState::ReceiveAmountSpent { group_id }),
        Some(a) => {
            if a.mantissa > 0 {
                reply_with("Provide some note:", ChatState::ReceiveNote { group_id, amount: a })
            } else {
                reply_with("Please, provide some positive amount:", ChatState::ReceiveAmountSpent { group_id })
            }
        },
    }
}

/// Takes the amount of a new expense.
pub fn receive_amount_spent(group_id: i64, text: Option<&str>) -> (r: Step)
    ensures
        r@ == spec_amount_received(group_id, spec_amount(text_view(text))),
        r matches Step::Done(outcome) && outcome.next.wf(),
{
    let amount = match text {
        Some(t) => Amount::parse(t),
        None => None,
    };
    amount_received(group_id, amount)
}

/// The step for the note of a new expense: the store is asked to record the
/// expense.
pub open spec fn spec_receive_note(
    sender: SenderView,
    group_id: i64,
    amount: Amount,
    text: Option<Seq<char>>,
) -> StepView {
    match text {
        None => say("Provide some note:"@, ChatState::ReceiveNote { group_id, amount }),
        Some(note) => match spec_author_username(sender) {
            Ok(username) => StepView::Ask(RequestView::AddExpense { username, amount, group_id, note }),
            Err(e) => say(identity_message(e), ChatState::ReceiveNote { group_id, amount }),
        },
    }
}

/// Takes the note of a new expense.
pub fn receive_note(sender: &Sender, group_id: i64, amount: Amount, text: Option<&str>) -> (r: Step)
    ensures
        r@ == spec_receive_note(sender@, group_id, amount, text_view(text)),
{
    match text {
        None => reply_with("Provide some note:", ChatState::ReceiveNote { group_id, amount }),
        Some(note) => match get_author_username(sender) {
            Ok(username) => Step::Ask(
                Request::AddExpense { username, amount, group_id, note: String::from_str(note) },
            ),
            Err(e) => reply_with(e.message(), ChatState::ReceiveNote { group_id, amount }),
        },
    }
}

/// The step for the group whose expenses are to be listed: the store is
/// asked for the group.
pub open spec fn spec_receive_group_id_for_expenses_list(text: Option<Seq<char>>) -> StepView {
    match spec_group_id(text) {
        None => say("Please, send an integer value: "@, ChatState::ReceiveGroupIdForExpensesList),
        Some(group_id) => StepView::Ask(RequestView::GroupForReport { group_id }),
    }
}

/// Takes the group whose expenses are to be listed.
pub fn receive_group_id_for_expenses_list(text: Option<&str>) -> (r: Step)
    ensures
        r@ == spec_receive_group_id_for_expenses_list(text_view(text)),
{
    match group_id_of(text) {
        None => reply_with("Please, send an integer value: ", ChatState::ReceiveGroupIdForExpensesList),
        Some(group_id) => Step::Ask(Request::GroupForReport { group_id }),
    }
}

/// An answer with its texts as sequences of characters.
pub enum AnswerView {
    UserGroups(Seq<group::ModelView>),
    GroupCreated(group::ModelView),
    UsersInGroup(Seq<Seq<char>>),
    UserAdded,
    Group(Option<group::ModelView>),
    ExpenseAdded,
    Expenses(Seq<expense::ModelView>),
    Failed,
}

/// The handles of a list of users.
pub open spec fn user_views(users: Seq<user::Model>) -> Seq<Seq<char>> {
    Seq::new(users.len(), |i: int| users[i]@)
}

impl View for Answer {
    type V = AnswerView;

    open spec fn view(&self) -> AnswerView {
        match self {
            Answer::UserGroups(groups) => AnswerView::UserGroups(group::views(groups@)),
            Answer::GroupCreated(g) => AnswerView::GroupCreated(g@),
            Answer::UsersInGroup(users) => AnswerView::UsersInGroup(user_views(users@)),
            Answer::UserAdded => AnswerView::UserAdded,
            Answer::Group(found) => AnswerView::Group(group::option_view(*found)),
            Answer::ExpenseAdded => AnswerView::ExpenseAdded,
            Answer::Expenses(expenses) => AnswerView::Expenses(expense::views(expenses@)),
            Answer::Failed => AnswerView::Failed,
        }
    }
}

/// The step after a failure of the store: the user is told, and the state
/// stays.
pub open spec fn spec_failure(state: ChatState) -> StepView {
    say("Something went wrong. Please, try again later."@, state)
}

/// Tells the user of a failure of the store; the state stays.
pub fn failure(state: ChatState) -> (r: Step)
    ensures
        r@ == spec_failure(state),
{
    reply_with("Something went wrong. Please, try again later.", state)
}

/// The step after the sender's groups came in, for the flow that the
/// command started.
pub open spec fn spec_groups_listed(state: ChatState, command: Command, groups: Seq<group::ModelView>) -> StepView {
    match command {
        Command::ListMyGroups => if groups.len() == 0 {
            say("You don't belong to any group yet"@, ChatState::Start)
        } else {
            say("Here are your groups:\n "@ + spec_groups_to_pretty(groups), state)
        },
        Command::AddMemberToGroup => if groups.len() == 0 {
            say("You don't belong to any group yet"@, ChatState::Start)
        } else {
            say(
                "Choose id of the group where you want to add a member:\n "@ + spec_groups_to_pretty(groups),
                ChatState::ReceiveGroupIdForAddMember,
            )
        },
        Command::AddExpense => if groups.len() == 0 {
            say("You don't belong to any group yet"@, ChatState::Start)
        } else {
            say(
                "Choose id of the group you'd like to add the expense:\n "@ + spec_groups_to_pretty(groups),
                ChatState::ReceiveGroupIdForExpense,
            )
        },
        Command::ListExpensesInGroup => if groups.len() == 0 {
            say(
                "You are not a member of any group, yet. You can create one with /creategroup"@,
                ChatState::ReceiveGroupIdForExpensesList,
            )
        } else {
            say(
                "Good, choose id of one of your groups:\n "@ + spec_groups_to_pretty(groups),
                ChatState::ReceiveGroupIdForExpensesList,
            )
        },
        _ => spec_failure(state),
    }
}

/// Two texts in a row, as a step.
fn reply_with_list(head: &str, list: &str, next: ChatState) -> (r: Step)
    ensures
        r@ == say(head@ + list@, next),
{
    let mut text = String::from_str(head);
    text.append(list);
    Step::Done(Outcome { reply: text, next })
}

/// Decides on the sender's groups, for the flow that the command started.
pub fn groups_listed(state: ChatState, command: Command, groups: &Vec<group::Model>) -> (r: Step)
    ensures
        r@ == spec_groups_listed(state, command, group::views(groups@)),
{
    let none = groups.len() == 0;
    match command {
        Command::ListMyGroups => {
            if none {
                reply_with("You don't belong to any group yet", ChatState::Start)
            } else {
                reply_with_list("Here are your groups:\n ", groups_to_pretty(groups).as_str(), state)
            }
        },
        Command::AddMemberToGroup => {
            if none {
                reply_with("You don't belong to any group yet", ChatState::Start)
            } else {
                reply_with_list(
                    "Choose id of the group where you want to add a member:\n ",
                    groups_to_pretty(groups).as_str(),
                    ChatState::ReceiveGroupIdForAddMember,
                )
            }
        },
        Command::AddExpense => {
            if none {
                reply_with("You don't belong to any group yet", ChatState::Start)
            } else {
                reply_with_list(
                    "Choose id of the group you'd like to add the expense:\n ",
                    groups_to_pretty(groups).as_str(),
                    ChatState::ReceiveGroupIdForExpense,
                )
            }
        },
        Command::ListExpensesInGroup => {
            if none {
                reply_with(
                    "You are not a member of any group, yet. You can create one with /creategroup",
                    ChatState::ReceiveGroupIdForExpensesList,
                )
            } else {
                reply_with_list(
                    "Good, choose id of one of your groups:\n ",
                    groups_to_pretty(groups).as_str(),
                    ChatState::ReceiveGroupIdForExpensesList,
                )
            }
        },
        _ => failure(state),
    }
}

/// The step after the users of a group came in: a member may add a member,
/// anyone else is asked for another group.
pub open spec fn spec_membership_checked(
    state: ChatState,
    group_id: i64,
    username: Seq<char>,
    users: Seq<Seq<char>>,
) -> StepView {
    if exists|i: int| 0 <= i < users.len() && #[trigger] users[i] == username {
        say("Provide @username of that user: "@, ChatState::ReceiveUsername { group_id })
    } else {
        say("Please, provide id from the list: "@, state)
    }
}

/// Decides whether the sender may add a member to the group.
pub fn membership_checked(state: ChatState, group_id: i64, username: &str, users: &Vec<user::Model>) -> (r: Step)
    ensures
        r@ == spec_membership_checked(state, group_id, username@, user_views(users@)),
{
    let member = user::user_is_in_group(users, username);
    proof {
        let views = user_views(users@);
        if member {
            let i = choose|i: int| 0 <= i < users.len() && (#[trigger] users[i])@ == username@;
            assert(views[i] == username@);
        } else {
            assert forall|i: int| 0 <= i < views.len() implies #[trigger] views[i] != username@ by {
                assert(users[i]@ != username@);
            }
        }
    }
    if member {
        reply_with("Provide @username of that user: ", ChatState::ReceiveUsername { group_id })
    } else {
        reply_with("Please, provide id from the list: ", state)
    }
}

/// The step after the group of a new expense was looked up.
pub open spec fn spec_group_found(state: ChatState, group_id: i64, found: Option<group::ModelView>) -> StepView {
    match found {
        Some(g) => say(
            "You want to add an expense to a group `"@ + g.name + "`.\n Now, type the amount you spent:"@,
            ChatState::ReceiveAmountSpent { group_id },
        ),
        None => say("Inexistent group id"@, state),
    }
}

/// Decides on the group of a new expense: a group that does not exist is
/// refused, and the state stays.
pub fn group_found(state: ChatState, group_id: i64, found: &Option<group::Model>) -> (r: Step)
    ensures
        r@ == spec_group_found(state, group_id, group::option_view(*found)),
{
    match found {
        Some(g) => Step::Done(
            Outcome {
                reply: three_parts(
                    "You want to add an expense to a group `",
                    g.name.as_str(),
                    "`.\n Now, type the amount you spent:",
                ),
                next: ChatState::ReceiveAmountSpent { group_id },
            },
        ),
        None => reply_with("Inexistent group id", state),
    }
}

/// The step after the group to report on was looked up: the store is asked
/// for its expenses, or the user is told that there is no such group.
pub open spec fn spec_group_to_report(state: ChatState, group_id: i64, found: Option<group::ModelView>) -> StepView {
    match found {
        Some(g) => StepView::Ask(RequestView::ExpensesInGroup { group_id, group_name: g.name }),
        None => say("Inexistent group id"@, state),
    }
}

/// Decides on the group to report on: a group that does not exist is
/// refused, and the state stays.
pub fn group_to_report(state: ChatState, group_id: i64, found: &Option<group::Model>) -> (r: Step)
    ensures
        r@ == spec_group_to_report(state, group_id, group::option_view(*found)),
{
    match found {
        Some(g) => Step::Ask(Request::ExpensesInGroup { group_id, group_name: g.name.clone() }),
        None => reply_with("Inexistent group id", state),
    }
}

/// The step after the expenses of a group came in: a group without expenses
/// is answered at once, any other is settled and reported. Where the debts
/// cannot be settled, no report is made and the state stays.
pub open spec fn spec_expenses_listed(
    state: ChatState,
    group_name: Seq<char>,
    expenses: Seq<expense::ModelView>,
) -> StepView {
    if expenses.len() == 0 {
        say("There are no expenses yet in this group"@, ChatState::Start)
    } else {
        match spec_settle(expenses) {
            Ok(transfers) => say(spec_debt_report(group_name, transfers, expenses), ChatState::Start),
            Err(_) => say("The debts of this group cannot be settled exactly"@, state),
        }
    }
}

/// Reports on the expenses of a group.
pub fn expenses_listed(state: ChatState, group_name: &str, expenses: &Vec<expense::Model>) -> (r: Step)
    requires
        expense::all_wf(expense::views(expenses@)),
    ensures
        r@ == spec_expenses_listed(state, group_name@, expense::views(expenses@)),
{
    if expenses.len() == 0 {
        reply_with("There are no expenses yet in this group", ChatState::Start)
    } else {
        match settle(expenses) {
            Ok(transfers) => Step::Done(
                Outcome { reply: debt_report(group_name, &transfers, expenses), next: ChatState::Start },
            ),
            Err(_) => reply_with("The debts of this group cannot be settled exactly", state),
        }
    }
}

/// The step after an answer of the store to a request that was made in
/// `state`. An answer that does not fit the request counts as a failure, and
/// so do expenses with an amount beyond the limits of a decimal.
pub open spec fn spec_on_answer(state: ChatState, request: RequestView, answer: AnswerView) -> StepView {
    match (request, answer) {
        (RequestView::UserGroups { username, command }, AnswerView::UserGroups(groups)) => spec_groups_listed(
            state,
            command,
            groups,
        ),
        (RequestView::CreateGroup { name, username }, AnswerView::GroupCreated(g)) => StepView::Ask(
            RequestView::AddCreator { username, group_id: g.id, group_name: name },
        ),
        (RequestView::AddCreator { username, group_id, group_name }, AnswerView::UserAdded) => say(
            "Group `"@ + group_name + "` was successfully created and you've been added to it"@,
            ChatState::Start,
        ),
        (RequestView::UsersInGroup { group_id, username }, AnswerView::UsersInGroup(users)) => {
            spec_membership_checked(state, group_id, username, users)
        },
        (RequestView::AddUserToGroup { username, group_id }, AnswerView::UserAdded) => say(
            "User "@ + username + " has been successfully added to a group"@,
            ChatState::Start,
        ),
        (RequestView::GroupById { group_id }, AnswerView::Group(found)) => spec_group_found(state, group_id, found),
        (RequestView::AddExpense { username, amount, group_id, note }, AnswerView::ExpenseAdded) => say(
            "The expense has been added"@,
            ChatState::Start,
        ),
        (RequestView::GroupForReport { group_id }, AnswerView::Group(found)) => spec_group_to_report(
            state,
            group_id,
            found,
        ),
        (RequestView::ExpensesInGroup { group_id, group_name }, AnswerView::Expenses(expenses)) => {
            if expense::all_wf(expenses) {
                spec_expenses_listed(state, group_name, expenses)
            } else {
                spec_failure(state)
            }
        },
        _ => spec_failure(state),
    }
}

/// Decides on the answer of the store to a request that was made in
/// `state`: the reply and the next state, or one more request.
pub fn on_answer(state: ChatState, request: &Request, answer: &Answer) -> (r: Step)
    ensures
        r@ == spec_on_answer(state, request@, answer@),
{
    match request {
        Request::UserGroups { username, command } => match answer {
            Answer::UserGroups(groups) => groups_listed(state, *command, groups),
            _ => failure(state),
        },
        Request::CreateGroup { name, username } => match answer {
            Answer::GroupCreated(g) => Step::Ask(
                Request::AddCreator { username: username.clone(), group_id: g.id, group_name: name.clone() },
            ),
            _ => failure(state),
        },
        Request::AddCreator { username, group_id, group_name } => match answer {
            Answer::UserAdded => Step::Done(
                Outcome {
                    reply: three_parts(
                        "Group `",
                        group_name.as_str(),
                        "` was successfully created and you've been added to it",
                    ),
                    next: ChatState::Start,
                },
            ),
            _ => failure(state),
        },
        Request::UsersInGroup { group_id, username } => match answer {
            Answer::UsersInGroup(users) => membership_checked(state, *group_id, username.as_str(), users),
            _ => failure(state),
        },
        Request::AddUserToGroup { username, group_id } => match answer {
            Answer::UserAdded => Step::Done(
                Outcome {
                    reply: three_parts("User ", username.as_str(), " has been successfully added to a group"),
                    next: ChatState::Start,
                },
            ),
            _ => failure(state),
        },
        Request::GroupById { group_id } => match answer {
            Answer::Group(found) => group_found(state, *group_id, found),
            _ => failure(state),
        },
        Request::AddExpense { username, amount, group_id, note } => match answer {
            Answer::ExpenseAdded => reply_with("The expense has been added", ChatState::Start),
            _ => failure(state),
        },
        Request::GroupForReport { group_id } => match answer {
            Answer::Group(found) => group_to_report(state, *group_id, found),
            _ => failure(state),
        },
        Request::ExpensesInGroup { group_id, group_name } => match answer {
            Answer::Expenses(expenses) => {
                if expense::all_valid(expenses) {
                    expenses_listed(state, group_name.as_str(), expenses)
                } else {
                    failure(state)
                }
            },
            _ => failure(state),
        },
    }
}

/// Where a message goes.
#[derive(Clone, Copy, Debug, PartialEq, Eq, Structural)]
pub enum Route {
    /// To the handler of the command.
    Command(Command),
    /// To the handler of the data that the state awaits.
    Data,
    /// Nowhere: the state awaits nothing, and the message holds no command.
    Invalid,
}

/// Where a message goes: a cancel is heard in every state, any other
/// command only where no flow is going on; elsewhere the message is the data
/// that the state awaits, whatever it holds.
pub open spec fn spec_route(state: ChatState, command: Option<Command>) -> Route {
    match command {
        Some(Command::Cancel) => Route::Command(Command::Cancel),
        Some(c) => if state == ChatState::Start {
            Route::Command(c)
        } else {
            Route::Data
        },
        None => if state == ChatState::Start {
            Route::Invalid
        } else {
            Route::Data
        },
    }
}

/// Routes a message by the state of its chat and the command it holds.
pub fn route(state: ChatState, command: Option<Command>) -> (r: Route)
    ensures
        r == spec_route(state, command),
{
    let at_start = match state {
        ChatState::Start => true,
        _ => false,
    };
    match command {
        Some(Command::Cancel) => Route::Command(Command::Cancel),
        Some(c) => {
            if at_start {
                Route::Command(c)
            } else {
                Route::Data
            }
        },
        None => {
            if at_start {
                Route::Invalid
            } else {
                Route::Data
            }
        },
    }
}

/// The step of a command.
pub open spec fn spec_on_command(command: Command, sender: SenderView) -> StepView {
    match command {
        Command::Help => say(help_text(), ChatState::Start),
        Command::CreateGroup => say("Pick a name for your group"@, ChatState::ReceiveGroupName),
        Command::Cancel => say("Canceled whatever you did"@, ChatState::Start),
        c => spec_ask_for_groups(sender, c),
    }
}

/// The step of the data that a state awaits.
pub open spec fn spec_on_data(state: ChatState, sender: SenderView, text: Option<Seq<char>>) -> StepView {
    match state {
        ChatState::Start => say("Unable to handle the message. Type /help to see the usage."@, state),
        ChatState::ReceiveGroupName => spec_receive_group_name(sender, text),
        ChatState::ReceiveGroupIdForAddMember => spec_receive_group_id_for_add_member(sender, text),
        ChatState::ReceiveUsername { group_id } => spec_receive_user_name(group_id, text),
        ChatState::ReceiveGroupIdForExpense => spec_receive_group_id_for_expense(text),
        ChatState::ReceiveAmountSpent { group_id } => spec_amount_received(group_id, spec_amount(text)),
        ChatState::ReceiveNote { group_id, amount } => spec_receive_note(sender, group_id, amount, text),
        ChatState::ReceiveGroupIdForExpensesList => spec_receive_group_id_for_expenses_list(text),
    }
}

/// The step of a message: of its command, or of the data that the state
/// awaits.
pub open spec fn spec_on_message(
    state: ChatState,
    command: Option<Command>,
    sender: SenderView,
    text: Option<Seq<char>>,
) -> StepView {
    match spec_route(state, command) {
        Route::Command(c) => spec_on_command(c, sender),
        Route::Data => spec_on_data(state, sender, text),
        Route::Invalid => say("Unable to handle the message. Type /help to see the usage."@, state),
    }
}

/// Decides on a message in a chat that is in `state`: the command that the
/// message holds, if any, who sent it, and its text, if it has one.
pub fn on_message(state: ChatState, command: Option<Command>, sender: &Sender, text: Option<&str>) -> (r: Step)
    ensures
        r@ == spec_on_message(state, command, sender@, text_view(text)),
{
    match route(state, command) {
        Route::Command(c) => match c {
            Command::Help => help(),
            Command::CreateGroup => create_group(),
            Command::Cancel => cancel(),
            Command::ListMyGroups => list_my_groups(sender),
            Command::AddMemberToGroup => add_member_to_group(sender),
            Command::AddExpense => add_expense(sender),
            Command::ListExpensesInGroup => list_expenses_in_group(sender),
        },
        Route::Data => match state {
            ChatState::Start => invalid_state(state),
            ChatState::ReceiveGroupName => receive_group_name(sender, text),
            ChatState::ReceiveGroupIdForAddMember => receive_group_id_for_add_member(sender, text),
            ChatState::ReceiveUsername { group_id } => receive_user_name(group_id, text),
            ChatState::ReceiveGroupIdForExpense => receive_group_id_for_expense(text),
            ChatState::ReceiveAmountSpent { group_id } => receive_amount_spent(group_id, text),
            ChatState::ReceiveNote { group_id, amount } => receive_note(sender, group_id, amount, text),
            ChatState::ReceiveGroupIdForExpensesList => receive_group_id_for_expenses_list(text),
        },
        Route::Invalid => invalid_state(state),
    }
}

/// Whether a message holds the data that the state awaits.
pub open spec fn is_valid_data(state: ChatState, text: Option<Seq<char>>) -> bool {
    match state {
        ChatState::Start => false,
        ChatState::ReceiveGroupName => text is Some,
        ChatState::ReceiveNote { group_id, amount } => text is Some,
        ChatState::ReceiveGroupIdForAddMember => spec_group_id(text) is Some,
        ChatState::ReceiveGroupIdForExpense => spec_group_id(text) is Some,
        ChatState::ReceiveGroupIdForExpensesList => spec_group_id(text) is Some,
        ChatState::ReceiveUsername { group_id } => text matches Some(t) && is_handle(t),
        ChatState::ReceiveAmountSpent { group_id } => spec_amount(text) matches Some(a) && a.mantissa > 0,
    }
}

/// What the user is told when a message does not hold what the state
/// awaits.
pub open spec fn retry_prompt(state: ChatState, text: Option<Seq<char>>) -> Seq<char> {
    match state {
        ChatState::Start => "Unable to handle the message. Type /help to see the usage."@,
        ChatState::ReceiveGroupName => "Pick a name for your group"@,
        ChatState::ReceiveNote { group_id, amount } => "Provide some note:"@,
        ChatState::ReceiveGroupIdForAddMember => "Please, send an integer value: "@,
        ChatState::ReceiveGroupIdForExpense => "Please, send a decimal value"@,
        ChatState::ReceiveGroupIdForExpensesList => "Please, send an integer value: "@,
        ChatState::ReceiveUsername { group_id } => "Please, provide a username, starting from `@`:"@,
        ChatState::ReceiveAmountSpent { group_id } => if spec_amount(text) is Some {
            "Please, provide some positive amount:"@
        } else {
            "Please, provide some decimal value:"@
        },
    }
}

/// From any state a cancel leads back to the start, whoever sent it and
/// whatever else the message holds, and nothing is asked of the store.
pub proof fn lemma_cancel_resets(state: ChatState, sender: SenderView, text: Option<Seq<char>>)
    ensures
        spec_on_message(state, Some(Command::Cancel), sender, text) == say(
            "Canceled whatever you did"@,
            ChatState::Start,
        ),
        spec_on_message(state, Some(Command::Cancel), sender, text).touches_no_store(),
{
}

/// A message that does not hold what the state awaits gets one reply, the
/// prompt to try again, and leaves the state as it is; nothing is asked of
/// the store.
pub proof fn lemma_invalid_input_reprompts(
    state: ChatState,
    command: Option<Command>,
    sender: SenderView,
    text: Option<Seq<char>>,
)
    requires
        state.awaits_data(),
        command != Some(Command::Cancel),
        !is_valid_data(state, text),
    ensures
        spec_on_message(state, command, sender, text) == say(retry_prompt(state, text), state),
{
}

/// The state awaits data that is stored under the sender's handle.
pub open spec fn needs_handle(state: ChatState) -> bool {
    match state {
        ChatState::ReceiveGroupName => true,
        ChatState::ReceiveGroupIdForAddMember => true,
        ChatState::ReceiveNote { group_id, amount } => true,
        _ => false,
    }
}

/// Where the sender's handle is needed and not to be had, a message that
/// holds what the state awaits is answered with an apology; the state stays
/// as it is and nothing is asked of the store.
pub proof fn lemma_identity_error_keeps_state(
    state: ChatState,
    command: Option<Command>,
    sender: SenderView,
    text: Option<Seq<char>>,
)
    requires
        needs_handle(state),
        command != Some(Command::Cancel),
        is_valid_data(state, text),
        spec_author_username(sender) is Err,
    ensures
        spec_on_message(state, command, sender, text) == say(
            identity_message(spec_author_username(sender)->Err_0),
            state,
        ),
{
}

/// After a failure of the store the state is as it was.
pub proof fn lemma_failure_keeps_state(state: ChatState, request: RequestView)
    ensures
        spec_on_answer(state, request, AnswerView::Failed) == spec_failure(state),
{
}

/// Whatever a message holds, the chat stays in its state, goes back to the
/// start, or moves on within its flow: from the start to the name of a new
/// group, and from the amount of an expense, which is above zero, to its
/// note. Every other move waits for an answer of the store.
pub proof fn lemma_messages_follow_the_flows(
    state: ChatState,
    command: Option<Command>,
    sender: SenderView,
    text: Option<Seq<char>>,
)
    ensures
        spec_on_message(state, command, sender, text) matches StepView::Done(outcome) ==> {
            ||| outcome.next == state
            ||| outcome.next == ChatState::Start
            ||| state == ChatState::Start && command == Some(Command::CreateGroup) && outcome.next
                == ChatState::ReceiveGroupName
            ||| state matches ChatState::ReceiveAmountSpent { group_id } && spec_amount(text) matches Some(amount)
                && amount.mantissa > 0 && outcome.next == (ChatState::ReceiveNote { group_id, amount })
        },
{
}

/// Whatever the store answers, a flow ends at the start, stays where it is,
/// or moves on to the state that follows in the same flow.
pub proof fn lemma_answers_follow_the_flows(state: ChatState, request: RequestView, answer: AnswerView)
    ensures
        spec_on_answer(state, request, answer) matches StepView::Done(outcome) ==> {
            ||| outcome.next == state
            ||| outcome.next == ChatState::Start
            ||| request matches RequestView::UserGroups { username, command } && (outcome.next
                == ChatState::ReceiveGroupIdForAddMember || outcome.next == ChatState::ReceiveGroupIdForExpense
                || outcome.next == ChatState::ReceiveGroupIdForExpensesList)
            ||| request matches RequestView::UsersInGroup { group_id, username } && outcome.next
                == (ChatState::ReceiveUsername { group_id })
            ||| request matches RequestView::GroupById { group_id } && outcome.next == (
            ChatState::ReceiveAmountSpent { group_id })
        },
{
}

/// The report on a group with one spender says that nobody owes anything,
/// lists every expense, and ends the flow; this where nothing is rounded on
/// the way.
pub proof fn lemma_one_spender_report(
    state: ChatState,
    group_name: Seq<char>,
    expenses: Seq<expense::ModelView>,
    username: Seq<char>,
)
    requires
        expenses.len() > 0,
        one_spender(expenses, username),
        arithmetic_is_exact(expenses),
    ensures
        spec_expenses_listed(state, group_name, expenses) == say(
            report_head(group_name) + "\u{1F60A}No debt in this group\u{1F60A}"@
                + "\n --- \n Overall expenses in group:\n"@ + expense_lines_upto(
                expenses,
                expenses.len() as int,
            ),
            ChatState::Start,
        ),
{
    lemma_one_spender_owes_nothing(expenses, username);
    let none = Seq::<TransferView>::empty();
    let shown = report_head(group_name) + "\u{1F60A}No debt in this group\u{1F60A}"@;
    assert(shown + crate::report::transfer_lines_upto(none, 0) =~= shown);
    assert(spec_debt_report(group_name, none, expenses) == shown + "\n --- \n Overall expenses in group:\n"@
        + expense_lines_upto(expenses, expenses.len() as int));
}

} // verus!
