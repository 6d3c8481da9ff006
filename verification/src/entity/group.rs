//! A group of people who share expenses.

use vstd::prelude::*;

verus! {

/// One group: the identifier that the store gave it, and its name.
#[derive(Clone, Debug, PartialEq, Eq)]
pub struct Model {
    pub id: i64,
    pub name: String,
}

/// A group with its name as a sequence of characters.
pub struct ModelView {
    pub id: i64,
    pub name: Seq<char>,
}

impl View for Model {
    type V = ModelView;

    open spec fn view(&self) -> ModelView {
        ModelView { id: self.id, name: self.name@ }
    }
}

/// The groups of a list, each by its view.
pub open spec fn views(groups: Seq<Model>) -> Seq<ModelView> {
    Seq::new(groups.len(), |i: int| groups[i]@)
}

/// A group that may be missing, by its view.
pub open spec fn option_view(found: Option<Model>) -> Option<ModelView> {
    match found {
        Some(g) => Some(g@),
        None => None,
    }
}

} // verus!
