//! Events (version 2).

use vstd::prelude::*;
use crate::deprecated::Deprecated;
use crate::entity_association::EntityAssociation;
use crate::signal_requirement_level::SignalRequirementLevel;
use crate::stability::Stability;
use crate::v2::attribute::AttributeOrGroupRef;
use crate::v2::signal_id::SignalId;
use crate::v2::CommonFields;
use crate::yaml_value::Annotations;

verus! {

/// An event signal.
#[derive(Debug, PartialEq)]
pub struct Event {
    /// The name of the event.
    pub name: SignalId,
    /// The attributes and attribute groups of the event.
    pub attributes: Vec<AttributeOrGroupRef>,
    /// The entities the event is associated with.
    pub entity_associations: Vec<EntityAssociation>,
    /// The requirement level of the event.
    pub requirement_level: Option<SignalRequirementLevel>,
    /// Brief, note, stability, deprecation and annotations.
    pub common: CommonFields,
}

/// A refinement of an existing event.
#[derive(Debug, PartialEq)]
pub struct EventRefinement {
    /// The id of the refinement.
    pub id: SignalId,
    /// The name of the refined event.
    pub ref_: SignalId,
    /// The attributes and attribute groups.
    pub attributes: Vec<AttributeOrGroupRef>,
    /// The entities the event is associated with.
    pub entity_associations: Vec<EntityAssociation>,
    /// Refines the brief description.
    pub brief: Option<String>,
    /// Refines the note.
    pub note: Option<String>,
    /// Refines the stability.
    pub stability: Option<Stability>,
    /// The deprecation.
    pub deprecated: Option<Deprecated>,
    /// Annotations.
    pub annotations: Annotations,
}

} // verus!
