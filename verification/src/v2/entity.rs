//! Entities (version 2).

use vstd::prelude::*;
use crate::deprecated::Deprecated;
use crate::signal_requirement_level::SignalRequirementLevel;
use crate::stability::Stability;
use crate::v2::attribute::AttributeRef;
use crate::v2::signal_id::SignalId;
use crate::v2::CommonFields;
use crate::yaml_value::Annotations;

verus! {

/// An entity.
#[derive(Debug, PartialEq)]
pub struct Entity {
    /// The type of the entity.
    pub type_: SignalId,
    /// The attributes that identify the entity.
    pub identity: Vec<AttributeRef>,
    /// The attributes that describe the entity.
    pub description: Vec<AttributeRef>,
    /// The requirement level of the entity.
    pub requirement_level: Option<SignalRequirementLevel>,
    /// Brief, note, stability, deprecation and annotations.
    pub common: CommonFields,
}

/// A refinement of an existing entity.
#[derive(Debug, PartialEq)]
pub struct EntityRefinement {
    /// The id of the refinement.
    pub id: SignalId,
    /// The type of the refined entity.
    pub ref_: SignalId,
    /// The identifying attributes.
    pub identity: Vec<AttributeRef>,
    /// The descriptive attributes.
    pub description: Vec<AttributeRef>,
    /// Refines the brief description.
    pub brief: Option<String>,
    /// Refines the note.
    pub note: Option<String>,
    /// Refines the stability.
    pub stability: Option<Stability>,
    /// The deprecation.
    pub deprecated: Option<Deprecated>,
    /// Annotations.
    pub annotations: Annotations,
}

} // verus!
