//! Stability levels of semantic convention definitions.

use vstd::prelude::*;

verus! {

/// The level of stability for a definition.
#[derive(Clone, Copy, Debug, PartialEq, Eq, Structural, Hash)]
pub enum Stability {
    /// A deprecated definition (no longer accepted on groups and attributes).
    Deprecated,
    /// A stable definition.
    Stable,
    /// A definition in development, formerly known as experimental.
    Development,
    /// An alpha definition.
    Alpha,
    /// A beta definition.
    Beta,
    /// A release candidate definition.
    ReleaseCandidate,
}

impl Stability {
    /// The human readable name of a stability level.
    pub open spec fn spec_name(self) -> Seq<char> {
        match self {
            Stability::Stable => "stable"@,
            Stability::Development => "development"@,
            Stability::Alpha => "alpha"@,
            Stability::Beta => "beta"@,
            Stability::ReleaseCandidate => "release_candidate"@,
            Stability::Deprecated => "deprecated"@,
        }
    }

    /// Returns the human readable name of this stability level.
    pub fn to_string(&self) -> (s: String)
        ensures
            s@ == self.spec_name(),
    {
        match self {
            Stability::Stable => String::from_str("stable"),
            Stability::Development => String::from_str("development"),
            Stability::Alpha => String::from_str("alpha"),
            Stability::Beta => String::from_str("beta"),
            Stability::ReleaseCandidate => String::from_str("release_candidate"),
            Stability::Deprecated => String::from_str("deprecated"),
        }
    }
}

} // verus!
