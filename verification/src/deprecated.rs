//! The different ways to deprecate an attribute, a metric, ...
//!
//! Two formats exist: a plain string with the deprecation message (old
//! format) and a structured form with a `reason` and optional `renamed_to`
//! and `note` fields.

use vstd::prelude::*;
use crate::text::{concat3, str_eq};

verus! {

/// The different ways to deprecate a telemetry object.
#[derive(Clone, Debug, PartialEq, Eq, Hash)]
pub enum Deprecated {
    /// Renamed to an existing or a new telemetry object.
    Renamed {
        /// The new name of the telemetry object.
        renamed_to: String,
        /// More context about the deprecation.
        note: String,
    },
    /// Obsoleted: no longer exists and has no valid replacement.
    Obsoleted {
        /// More context about the deprecation.
        note: String,
    },
    /// Deprecated for reasons that are not precisely categorized.
    Uncategorized {
        /// More context about the deprecation.
        note: String,
    },
    /// The old, unstructured deprecation string.
    Unspecified {
        /// More context about the deprecation.
        note: String,
    },
}

impl Deprecated {
    /// The note carried by every kind of deprecation.
    pub open spec fn spec_note(self) -> Seq<char> {
        match self {
            Deprecated::Renamed { note, .. } => note@,
            Deprecated::Obsoleted { note } => note@,
            Deprecated::Uncategorized { note } => note@,
            Deprecated::Unspecified { note } => note@,
        }
    }

    /// Returns the human readable text of the deprecation: its note.
    pub fn to_string(&self) -> (s: String)
        ensures
            s@ == self.spec_note(),
    {
        match self {
            Deprecated::Renamed { note, .. } => note.clone(),
            Deprecated::Obsoleted { note } => note.clone(),
            Deprecated::Uncategorized { note } => note.clone(),
            Deprecated::Unspecified { note } => note.clone(),
        }
    }

    /// A copy of this deprecation.
    pub fn copy(&self) -> (r: Deprecated)
        ensures
            r == *self,
    {
        match self {
            Deprecated::Renamed { renamed_to, note } => Deprecated::Renamed {
                renamed_to: renamed_to.clone(),
                note: note.clone(),
            },
            Deprecated::Obsoleted { note } => Deprecated::Obsoleted { note: note.clone() },
            Deprecated::Uncategorized { note } => Deprecated::Uncategorized { note: note.clone() },
            Deprecated::Unspecified { note } => Deprecated::Unspecified { note: note.clone() },
        }
    }
}

/// The field reported missing when a structured deprecation is incomplete.
#[derive(Clone, Copy, Debug, PartialEq, Eq, Structural)]
pub enum MissingDeprecationField {
    /// A `renamed` deprecation without its `renamed_to` target.
    RenameTo,
    /// No known `reason`.
    Action,
}

/// The deprecation described by the fields of a structured `deprecated`
/// entry: `reason` (`renamed`, `obsoleted` or `uncategorized`), `renamed_to`
/// and `note`. A missing note gets a default text.
pub open spec fn spec_deprecated_from_fields(
    reason: Option<Seq<char>>,
    renamed_to: Option<Seq<char>>,
    note: Option<Seq<char>>,
) -> Result<(int, Seq<char>, Seq<char>), MissingDeprecationField> {
    // (kind, renamed_to, note) with kind 0 = renamed, 1 = obsoleted, 2 = uncategorized
    if reason == Some("renamed"@) {
        match renamed_to {
            Some(r) => Ok((0, r, match note {
                Some(n) => n,
                None => "Replaced by `"@ + r + "`."@,
            })),
            None => Err(MissingDeprecationField::RenameTo),
        }
    } else if reason == Some("obsoleted"@) {
        Ok((1, Seq::empty(), match note { Some(n) => n, None => "Obsoleted."@ }))
    } else if reason == Some("uncategorized"@) {
        Ok((2, Seq::empty(), match note { Some(n) => n, None => "Uncategorized."@ }))
    } else {
        Err(MissingDeprecationField::Action)
    }
}

/// Whether a deprecation has the shape `(kind, renamed_to, note)` used by
/// [`spec_deprecated_from_fields`].
pub open spec fn deprecated_has_shape(d: Deprecated, shape: (int, Seq<char>, Seq<char>)) -> bool {
    match d {
        Deprecated::Renamed { renamed_to, note } => shape.0 == 0 && renamed_to@ == shape.1
            && note@ == shape.2,
        Deprecated::Obsoleted { note } => shape.0 == 1 && note@ == shape.2,
        Deprecated::Uncategorized { note } => shape.0 == 2 && note@ == shape.2,
        Deprecated::Unspecified { .. } => false,
    }
}

/// Builds a deprecation from the fields of its structured form.
pub fn deprecated_from_fields(
    reason: Option<&str>,
    renamed_to: Option<String>,
    note: Option<String>,
) -> (r: Result<Deprecated, MissingDeprecationField>)
    ensures
        ({
            let reason_v = match reason { Some(s) => Some(s@), None => None };
            let renamed_v = match renamed_to { Some(s) => Some(s@), None => None };
            let note_v = match note { Some(s) => Some(s@), None => None };
            let expected = spec_deprecated_from_fields(reason_v, renamed_v, note_v);
            match r {
                Ok(d) => expected is Ok && deprecated_has_shape(d, expected->Ok_0),
                Err(e) => expected == Err::<(int, Seq<char>, Seq<char>), MissingDeprecationField>(e),
            }
        }),
{
    let (is_renamed, is_obsoleted, is_uncategorized) = match reason {
        Some(r) => (str_eq(r, "renamed"), str_eq(r, "obsoleted"), str_eq(r, "uncategorized")),
        None => (false, false, false),
    };
    proof {
        reveal_strlit("renamed");
        reveal_strlit("obsoleted");
        reveal_strlit("uncategorized");
    }
    if is_renamed {
        match renamed_to {
            Some(target) => {
                let note = match note {
                    Some(n) => n,
                    None => concat3("Replaced by `", target.as_str(), "`."),
                };
                Ok(Deprecated::Renamed { renamed_to: target, note })
            },
            None => Err(MissingDeprecationField::RenameTo),
        }
    } else if is_obsoleted {
        let note = match note {
            Some(n) => n,
            None => String::from_str("Obsoleted."),
        };
        Ok(Deprecated::Obsoleted { note })
    } else if is_uncategorized {
        let note = match note {
            Some(n) => n,
            None => String::from_str("Uncategorized."),
        };
        Ok(Deprecated::Uncategorized { note })
    } else {
        Err(MissingDeprecationField::Action)
    }
}

} // verus!
