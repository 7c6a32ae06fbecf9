//! Styles of header and footer messages.

use vstd::prelude::*;

verus! {

/// The style of a message.
#[derive(Clone, Copy, Debug, PartialEq, Eq, Structural, Hash)]
pub enum Style {
    /// A note message.
    Note,
    /// A tip message.
    Tip,
    /// An important message.
    Important,
    /// A warning message.
    Warning,
    /// A caution message.
    Caution,
}

impl Style {
    /// The human readable name of a style.
    pub open spec fn spec_name(self) -> Seq<char> {
        match self {
            Style::Note => "NOTE"@,
            Style::Tip => "TIP"@,
            Style::Important => "IMPORTANT"@,
            Style::Warning => "WARNING"@,
            Style::Caution => "CAUTION"@,
        }
    }

    /// Returns the human readable name of this style.
    pub fn to_string(&self) -> (s: String)
        ensures
            s@ == self.spec_name(),
    {
        match self {
            Style::Note => String::from_str("NOTE"),
            Style::Tip => String::from_str("TIP"),
            Style::Important => String::from_str("IMPORTANT"),
            Style::Warning => String::from_str("WARNING"),
            Style::Caution => String::from_str("CAUTION"),
        }
    }
}

} // verus!
