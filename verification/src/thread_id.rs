//! Identities of agent threads.

use vstd::prelude::*;

use crate::text::same_text;

verus! {

/// The identity of an agent's thread. Two threads are the same exactly when their canonical texts
/// are.
#[derive(Debug, PartialEq, Eq)]
pub struct ThreadId {
    pub text: String,
}

impl View for ThreadId {
    type V = Seq<char>;

    open spec fn view(&self) -> Seq<char> {
        self.text@
    }
}

impl Clone for ThreadId {
    fn clone(&self) -> (copy: Self)
        ensures
            copy == *self,
    {
        ThreadId { text: self.text.clone() }
    }
}

impl ThreadId {
    /// The canonical text of the identity.
    pub fn as_str(&self) -> (text: &str)
        ensures
            text@ == self@,
    {
        self.text.as_str()
    }

    /// Whether both name the same thread.
    pub fn same(&self, other: &ThreadId) -> (yes: bool)
        ensures
            yes == (self@ == other@),
    {
        same_text(self.text.as_str(), other.text.as_str())
    }
}

} // verus!
