//! Metrics (version 2).

use vstd::prelude::*;
use crate::deprecated::Deprecated;
use crate::entity_association::EntityAssociation;
use crate::signal_requirement_level::SignalRequirementLevel;
use crate::stability::Stability;
use crate::v2::attribute::AttributeOrGroupRef;
use crate::v2::signal_id::SignalId;
use crate::v2::CommonFields;
use crate::yaml_value::Annotations;

verus! {

/// The instrument used to record a metric.
#[derive(Clone, Copy, Debug, PartialEq, Eq, Structural, Hash)]
pub enum InstrumentSpec {
    /// An up-down counter.
    UpDownCounter,
    /// A counter.
    Counter,
    /// A gauge.
    Gauge,
    /// A histogram.
    Histogram,
}

impl InstrumentSpec {
    /// The name of an instrument.
    pub open spec fn spec_name(self) -> Seq<char> {
        match self {
            InstrumentSpec::UpDownCounter => "updowncounter"@,
            InstrumentSpec::Counter => "counter"@,
            InstrumentSpec::Gauge => "gauge"@,
            InstrumentSpec::Histogram => "histogram"@,
        }
    }

    /// Returns the name of this instrument.
    pub fn to_string(&self) -> (s: String)
        ensures
            s@ == self.spec_name(),
    {
        match self {
            InstrumentSpec::UpDownCounter => String::from_str("updowncounter"),
            InstrumentSpec::Counter => String::from_str("counter"),
            InstrumentSpec::Gauge => String::from_str("gauge"),
            InstrumentSpec::Histogram => String::from_str("histogram"),
        }
    }
}

/// A metric signal.
#[derive(Debug, PartialEq)]
pub struct Metric {
    /// The name of the metric.
    pub name: SignalId,
    /// The instrument.
    pub instrument: InstrumentSpec,
    /// The unit.
    pub unit: String,
    /// The attributes and attribute groups of the metric.
    pub attributes: Vec<AttributeOrGroupRef>,
    /// The entities the metric is associated with.
    pub entity_associations: Vec<EntityAssociation>,
    /// The requirement level of the metric.
    pub requirement_level: Option<SignalRequirementLevel>,
    /// Brief, note, stability, deprecation and annotations.
    pub common: CommonFields,
}

/// A refinement of an existing metric.
#[derive(Debug, PartialEq)]
pub struct MetricRefinement {
    /// The id of the refinement.
    pub id: SignalId,
    /// The name of the refined metric.
    pub ref_: SignalId,
    /// The attributes and attribute groups.
    pub attributes: Vec<AttributeOrGroupRef>,
    /// The entities the metric is associated with.
    pub entity_associations: Vec<EntityAssociation>,
    /// Refines the brief description.
    pub brief: Option<String>,
    /// Refines the note.
    pub note: Option<String>,
    /// Refines the stability.
    pub stability: Option<Stability>,
    /// The deprecation.
    pub deprecated: Option<Deprecated>,
    /// Annotations.
    pub annotations: Annotations,
}

} // verus!
