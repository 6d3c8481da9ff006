//! A user, known by a handle.

use vstd::prelude::*;

verus! {

/// One user.
#[derive(Clone, Debug, PartialEq, Eq)]
pub struct Model {
    /// The handle under which the messaging platform knows the user.
    pub username: String,
}

impl View for Model {
    type V = Seq<char>;

    open spec fn view(&self) -> Seq<char> {
        self.username@
    }
}

/// Whether one of the users has this handle.
pub fn user_is_in_group(users: &Vec<Model>, username: &str) -> (r: bool)
    ensures
        r == (exists|i: int| 0 <= i < users.len() && (#[trigger] users[i])@ == username@),
{
    let mut i: usize = 0;
    while i < users.len()
        invariant
            i <= users.len(),
            forall|k: int| 0 <= k < i ==> (#[trigger] users[k])@ != username@,
        decreases users.len() - i,
    {
        if crate::text::same_text(users[i].username.as_str(), username) {
            return true;
        }
        i = i + 1;
    }
    false
}

} // verus!
