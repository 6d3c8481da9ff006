//! The texts that list groups and report the debts of a group.

use crate::amount::decimal_text;
use crate::entity::{expense, group};
use crate::settlement::{transfer_views, transfers_wf, Transfer, TransferView};
use crate::text::{i64_text, spec_i64_text};
use vstd::prelude::*;
use vstd::string::*;

verus! {

/// The line of one group: its identifier, a dash, and its name in backticks.
pub open spec fn group_line(g: group::ModelView) -> Seq<char> {
    spec_i64_text(g.id as int) + " \u{2014} `"@ + g.name + "`\n"@
}

/// The lines of the first `n` groups, with `, ` between one line and the
/// next.
pub open spec fn group_lines_upto(groups: Seq<group::ModelView>, n: int) -> Seq<char>
    decreases n,
{
    if n <= 0 || n > groups.len() {
        Seq::empty()
    } else if n == 1 {
        group_line(groups[0])
    } else {
        group_lines_upto(groups, n - 1) + ", "@ + group_line(groups[n - 1])
    }
}

/// The list of groups as a text.
pub open spec fn spec_groups_to_pretty(groups: Seq<group::ModelView>) -> Seq<char> {
    group_lines_upto(groups, groups.len() as int)
}

/// Writes the list of groups: one line for each, with `, ` between them.
pub fn groups_to_pretty(groups: &Vec<group::Model>) -> (r: String)
    ensures
        r@ == spec_groups_to_pretty(group::views(groups@)),
{
    let ghost views = group::views(groups@);
    let mut text = String::new();
    let mut i: usize = 0;
    while i < groups.len()
        invariant
            i <= groups.len(),
            views == group::views(groups@),
            text@ == group_lines_upto(views, i as int),
        decreases groups.len() - i,
    {
        let g = &groups[i];
        assert(views[i as int] == g@);
        let mut line = i64_text(g.id);
        line.append(" \u{2014} `");
        line.append(g.name.as_str());
        line.append("`\n");
        assert(line@ == group_line(g@));
        if i > 0 {
            text.append(", ");
        }
        text.append(line.as_str());
        assert(text@ =~= group_lines_upto(views, i + 1));
        i = i + 1;
    }
    text
}

/// The line of one transfer: who owes how much to whom.
pub open spec fn transfer_line(t: TransferView) -> Seq<char> {
    "\u{1F611}"@ + t.debtor + " owes "@ + decimal_text(t.amount.mantissa as int, t.amount.scale as nat) + " to "@
        + t.creditor + "\u{1F611}\n"@
}

/// The lines of the first `n` transfers.
pub open spec fn transfer_lines_upto(transfers: Seq<TransferView>, n: int) -> Seq<char>
    decreases n,
{
    if n <= 0 || n > transfers.len() {
        Seq::empty()
    } else {
        transfer_lines_upto(transfers, n - 1) + transfer_line(transfers[n - 1])
    }
}

/// The line of one expense: who spent how much, and the note.
pub open spec fn expense_line(e: expense::ModelView) -> Seq<char> {
    e.username + " spent "@ + decimal_text(e.amount.mantissa as int, e.amount.scale as nat) + " with note: "@
        + e.note + "\n"@
}

/// The lines of the first `n` expenses.
pub open spec fn expense_lines_upto(expenses: Seq<expense::ModelView>, n: int) -> Seq<char>
    decreases n,
{
    if n <= 0 || n > expenses.len() {
        Seq::empty()
    } else {
        expense_lines_upto(expenses, n - 1) + expense_line(expenses[n - 1])
    }
}

/// What stands in place of the transfers where there are none.
pub open spec fn no_debt_note(transfers: Seq<TransferView>) -> Seq<char> {
    if transfers.len() == 0 {
        "\u{1F60A}No debt in this group\u{1F60A}"@
    } else {
        Seq::empty()
    }
}

/// The head of the report on a group, with the name of the group.
pub open spec fn report_head(group_name: Seq<char>) -> Seq<char> {
    "Group `"@ + group_name + "` debt state:\n"@
}

/// The report on a group: its name, the transfers that settle it, then its
/// expenses.
pub open spec fn spec_debt_report(
    group_name: Seq<char>,
    transfers: Seq<TransferView>,
    expenses: Seq<expense::ModelView>,
) -> Seq<char> {
    report_head(group_name) + no_debt_note(transfers) + transfer_lines_upto(transfers, transfers.len() as int)
        + "\n --- \n Overall expenses in group:\n"@ + expense_lines_upto(expenses, expenses.len() as int)
}

/// Writes the report on a group: its name, the transfers that settle it,
/// then its expenses.
pub fn debt_report(group_name: &str, transfers: &Vec<Transfer>, expenses: &Vec<expense::Model>) -> (r: String)
    requires
        transfers_wf(transfer_views(transfers@)),
        expense::all_wf(expense::views(expenses@)),
    ensures
        r@ == spec_debt_report(group_name@, transfer_views(transfers@), expense::views(expenses@)),
{
    let ghost tv = transfer_views(transfers@);
    let ghost ev = expense::views(expenses@);
    let mut text = String::from_str("Group `");
    text.append(group_name);
    text.append("` debt state:\n");
    if transfers.len() == 0 {
        text.append("\u{1F60A}No debt in this group\u{1F60A}");
    }
    assert(text@ =~= report_head(group_name@) + no_debt_note(tv));
    let ghost head = text@;
    let mut i: usize = 0;
    assert(text@ =~= head + transfer_lines_upto(tv, 0));
    while i < transfers.len()
        invariant
            i <= transfers.len(),
            tv == transfer_views(transfers@),
            transfers_wf(tv),
            text@ == head + transfer_lines_upto(tv, i as int),
        decreases transfers.len() - i,
    {
        let t = &transfers[i];
        assert(tv[i as int] == t@);
        let mut line = String::from_str("\u{1F611}");
        line.append(t.debtor.as_str());
        line.append(" owes ");
        line.append(t.amount.to_text().as_str());
        line.append(" to ");
        line.append(t.creditor.as_str());
        line.append("\u{1F611}\n");
        assert(line@ == transfer_line(t@));
        text.append(line.as_str());
        assert(text@ =~= head + transfer_lines_upto(tv, i + 1));
        i = i + 1;
    }
    text.append("\n --- \n Overall expenses in group:\n");
    let ghost middle = text@;
    let mut j: usize = 0;
    assert(text@ =~= middle + expense_lines_upto(ev, 0));
    while j < expenses.len()
        invariant
            j <= expenses.len(),
            ev == expense::views(expenses@),
            expense::all_wf(ev),
            text@ == middle + expense_lines_upto(ev, j as int),
        decreases expenses.len() - j,
    {
        let e = &expenses[j];
        assert(ev[j as int] == e@);
        let mut line = e.username.clone();
        line.append(" spent ");
        line.append(e.amount.to_text().as_str());
        line.append(" with note: ");
        line.append(e.note.as_str());
        line.append("\n");
        assert(line@ == expense_line(e@));
        text.append(line.as_str());
        assert(text@ =~= middle + expense_lines_upto(ev, j + 1));
        j = j + 1;
    }
    text
}

} // verus!
