//! Requirement level for signals (metrics, spans, events, entities).

use vstd::prelude::*;

verus! {

/// The requirement level of a signal: what instrumentations emit by default
/// versus what is opt-in.
#[derive(Clone, Copy, Debug, PartialEq, Eq, Structural, Hash)]
pub enum SignalRequirementLevel {
    /// Instrumentations should emit the signal by default.
    Recommended,
    /// Disabled by default; instrumentations may implement the signal.
    OptIn,
}

impl SignalRequirementLevel {
    /// The human readable name of a signal requirement level.
    pub open spec fn spec_name(self) -> Seq<char> {
        match self {
            SignalRequirementLevel::Recommended => "recommended"@,
            SignalRequirementLevel::OptIn => "opt_in"@,
        }
    }

    /// Returns the human readable name of this level.
    pub fn to_string(&self) -> (s: String)
        ensures
            s@ == self.spec_name(),
    {
        match self {
            SignalRequirementLevel::Recommended => String::from_str("recommended"),
            SignalRequirementLevel::OptIn => String::from_str("opt_in"),
        }
    }
}

impl Default for SignalRequirementLevel {
    /// The default level is `Recommended`.
    fn default() -> (r: Self)
        ensures
            r == SignalRequirementLevel::Recommended,
    {
        SignalRequirementLevel::Recommended
    }
}

} // verus!
