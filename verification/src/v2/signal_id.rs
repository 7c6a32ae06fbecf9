//! Identifiers of signals (version 2).

use vstd::prelude::*;

verus! {

/// The identifier of a signal.
#[derive(Clone, Debug, PartialEq, Eq, Hash)]
pub struct SignalId(pub String);

impl SignalId {
    /// The text of the identifier.
    pub open spec fn spec_text(self) -> Seq<char> {
        self.0@
    }

    /// Turns the identifier into the plain string used by version 1.
    pub fn into_v1(self) -> (s: String)
        ensures
            s == self.0,
    {
        self.0
    }

    /// Returns the text of the identifier.
    pub fn as_str(&self) -> (s: &str)
        ensures
            s@ == self.0@,
    {
        self.0.as_str()
    }
}

} // verus!
