//! Metric definitions of the version 1 format.

use vstd::prelude::*;
use crate::attribute::AttributeSpec;
use crate::group::InstrumentSpec;

verus! {

/// The number type of a metric's value.
#[derive(Clone, Copy, Debug, PartialEq, Eq, Structural, Hash)]
pub enum MetricValueTypeSpec {
    /// A signed 64 bit integer.
    Int,
    /// A double precision floating point number.
    Double,
}

impl MetricValueTypeSpec {
    /// The name of the value type.
    pub open spec fn spec_name(self) -> Seq<char> {
        match self {
            MetricValueTypeSpec::Int => "int"@,
            MetricValueTypeSpec::Double => "double"@,
        }
    }

    /// Returns the name of the value type.
    pub fn to_string(&self) -> (s: String)
        ensures
            s@ == self.spec_name(),
    {
        match self {
            MetricValueTypeSpec::Int => String::from_str("int"),
            MetricValueTypeSpec::Double => String::from_str("double"),
        }
    }
}

/// A metric.
pub struct MetricSpec {
    /// The metric name.
    pub name: String,
    /// A brief description.
    pub brief: String,
    /// A note.
    pub note: String,
    /// The attributes attached to the metric.
    pub attributes: Vec<AttributeSpec>,
    /// The instrument.
    pub instrument: InstrumentSpec,
    /// The unit.
    pub unit: Option<String>,
    /// The number type of the value.
    pub value_type: Option<MetricValueTypeSpec>,
}

impl MetricSpec {
    /// The name of the metric.
    pub fn name(&self) -> (r: &str)
        ensures
            r@ == self.name@,
    {
        self.name.as_str()
    }

    /// The brief description of the metric.
    pub fn brief(&self) -> (r: &str)
        ensures
            r@ == self.brief@,
    {
        self.brief.as_str()
    }

    /// The note on the metric.
    pub fn note(&self) -> (r: &str)
        ensures
            r@ == self.note@,
    {
        self.note.as_str()
    }

    /// The unit of the metric, if any.
    pub fn unit(&self) -> (r: Option<&str>)
        ensures
            crate::v2::manifest::opt_str_view(r) == crate::schema_url::opt_view(self.unit),
    {
        match &self.unit {
            Some(u) => Some(u.as_str()),
            None => None,
        }
    }
}

/// A metric together with where it was defined.
pub struct MetricSpecWithProvenance {
    /// The metric.
    pub metric: MetricSpec,
    /// Where it was defined.
    pub provenance: String,
}

} // verus!
