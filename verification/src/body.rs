//! Event bodies.

use vstd::prelude::*;
use crate::attribute::{AttributeType, BasicRequirementLevelSpec, Examples, RequirementLevel};
use crate::stability::Stability;

verus! {

/// The kind of a body.
#[derive(Clone, Copy, Debug, PartialEq, Eq, Structural, Hash)]
pub enum BodyType {
    /// A map of fields.
    Mapping,
    /// A string.
    String,
}

impl BodyType {
    /// The name of the body type.
    pub open spec fn spec_name(self) -> Seq<char> {
        match self {
            BodyType::Mapping => "map"@,
            BodyType::String => "string"@,
        }
    }

    /// Returns the name of the body type.
    pub fn to_string(&self) -> (s: String)
        ensures
            s@ == self.spec_name(),
    {
        match self {
            BodyType::Mapping => String::from_str("map"),
            BodyType::String => String::from_str("string"),
        }
    }
}

/// A field of a map body.
pub struct BodyFieldSpec {
    /// The identifier of the field.
    pub id: String,
    /// The type of the field.
    pub type_: AttributeType,
    /// A brief description.
    pub brief: String,
    /// Example values.
    pub examples: Option<Examples>,
    /// The requirement level.
    pub requirement_level: RequirementLevel,
    /// A longer description.
    pub note: String,
    /// The stability.
    pub stability: Option<Stability>,
    /// Why the field is deprecated, when it is.
    pub deprecated: Option<String>,
}

impl BodyFieldSpec {
    /// Whether the field is required.
    pub fn is_required(&self) -> (r: bool)
        ensures
            r == (self.requirement_level == RequirementLevel::Basic(
                BasicRequirementLevelSpec::Required,
            )),
    {
        match &self.requirement_level {
            RequirementLevel::Basic(BasicRequirementLevelSpec::Required) => true,
            _ => false,
        }
    }
}

/// The body of an event.
pub enum BodySpec {
    /// A body with fields.
    Fields {
        /// The body type.
        type_: BodyType,
        /// A brief description.
        brief: String,
        /// A longer description.
        note: String,
        /// The stability.
        stability: Option<Stability>,
        /// Example values.
        examples: Option<Examples>,
        /// The fields.
        fields: Vec<BodyFieldSpec>,
    },
    /// A string body.
    String {
        /// The body type.
        type_: BodyType,
        /// A brief description.
        brief: String,
        /// A longer description.
        note: String,
        /// The stability.
        stability: Option<Stability>,
        /// Example values.
        examples: Option<Examples>,
    },
}

impl BodySpec {
    /// Whether the body has at least one field.
    pub fn has_fields(&self) -> (r: bool)
        ensures
            r == (self matches BodySpec::Fields { fields, .. } && fields@.len() > 0),
    {
        match self {
            BodySpec::Fields { fields, .. } => fields.len() > 0,
            BodySpec::String { .. } => false,
        }
    }
}

/// A body field together with where it was defined.
pub struct BodyFieldSpecWithProvenance {
    /// The field.
    pub body_field: BodyFieldSpec,
    /// Where it was defined.
    pub provenance: String,
}

} // verus!
