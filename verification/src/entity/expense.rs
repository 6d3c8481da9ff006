//! An expense: who spent how much in which group, and on what.

use crate::amount::Amount;
use vstd::prelude::*;

verus! {

/// One recorded expense.
#[derive(Clone, Debug, PartialEq, Eq)]
pub struct Model {
    pub id: i64,
    pub username: String,
    pub group_id: i64,
    pub amount: Amount,
    pub note: String,
}

/// An expense with its texts as sequences of characters.
pub struct ModelView {
    pub id: i64,
    pub username: Seq<char>,
    pub group_id: i64,
    pub amount: Amount,
    pub note: Seq<char>,
}

impl View for Model {
    type V = ModelView;

    open spec fn view(&self) -> ModelView {
        ModelView {
            id: self.id,
            username: self.username@,
            group_id: self.group_id,
            amount: self.amount,
            note: self.note@,
        }
    }
}

/// The expenses of a list, each by its view.
pub open spec fn views(expenses: Seq<Model>) -> Seq<ModelView> {
    Seq::new(expenses.len(), |i: int| expenses[i]@)
}

/// Every amount of the list is within the limits of a decimal.
pub open spec fn all_wf(expenses: Seq<ModelView>) -> bool {
    forall|i: int| 0 <= i < expenses.len() ==> (#[trigger] expenses[i]).amount.wf()
}

/// Whether every amount of the list is within the limits of a decimal.
pub fn all_valid(expenses: &Vec<Model>) -> (r: bool)
    ensures
        r == all_wf(views(expenses@)),
{
    let mut i: usize = 0;
    while i < expenses.len()
        invariant
            i <= expenses.len(),
            forall|k: int| 0 <= k < i ==> (#[trigger] views(expenses@)[k]).amount.wf(),
        decreases expenses.len() - i,
    {
        if !expenses[i].amount.is_valid() {
            assert(!views(expenses@)[i as int].amount.wf());
            return false;
        }
        i = i + 1;
    }
    true
}

} // verus!
