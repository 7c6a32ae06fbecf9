//! Aggregations of metrics.

use vstd::prelude::*;
use crate::yaml_value::YamlValue;
use std::collections::HashMap;

verus! {

/// How a metric is aggregated.
#[derive(Clone, Copy, Debug, PartialEq, Eq, Structural, Hash)]
pub enum AggregationMethodSpec {
    /// The default aggregation.
    Default,
    /// A sum.
    Sum,
    /// The last value.
    LastValue,
    /// A histogram.
    Histogram,
    /// A histogram with explicit buckets.
    ExplicitHistogram,
    /// An exponential histogram.
    ExponentialHistogram,
}

/// An aggregation: its method and parameters.
pub struct AggregationSpec {
    /// The aggregation method.
    pub method: Option<AggregationMethodSpec>,
    /// The parameters of the method.
    pub parameters: Option<HashMap<String, YamlValue>>,
}

impl AggregationSpec {
    /// The parameters of the aggregation.
    pub fn parameters(&self) -> (r: &Option<HashMap<String, YamlValue>>)
        ensures
            r == &self.parameters,
    {
        &self.parameters
    }
}

} // verus!
