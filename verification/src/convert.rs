//! Conversions between version 1 and version 2 semantic convention
//! specifications.

use vstd::prelude::*;
use crate::attribute::{
    AttributeRole as V1AttributeRole, AttributeSpec as V1AttributeSpec,
    AttributeType as V1AttributeType, BasicRequirementLevelSpec as V1BasicRequirementLevelSpec,
    EnumEntriesSpec as V1EnumEntriesSpec, Examples as V1Examples,
    PrimitiveOrArrayTypeSpec as V1PrimitiveOrArrayTypeSpec, RequirementLevel as V1RequirementLevel,
    TemplateTypeSpec as V1TemplateTypeSpec, ValueSpec as V1ValueSpec,
};
use crate::group::{
    GroupSpec as V1GroupSpec, GroupType as V1GroupType, InstrumentSpec as V1InstrumentSpec,
    SpanKindSpec as V1SpanKindSpec, SpanName as V1SpanName,
};
use crate::text::{concat2, to_owned_string};
use crate::v1::semconv::{GroupWildcard as V1GroupWildcard, Imports as V1Imports, SemConvSpecV1};
use crate::v2::attribute::{
    AttributeDef, AttributeOrGroupRef, AttributeRef, AttributeType as V2AttributeType,
    BasicRequirementLevelSpec as V2BasicRequirementLevelSpec, EnumEntriesSpec as V2EnumEntriesSpec,
    Examples as V2Examples, PrimitiveOrArrayTypeSpec as V2PrimitiveOrArrayTypeSpec,
    RequirementLevel as V2RequirementLevel, TemplateTypeSpec as V2TemplateTypeSpec,
    ValueSpec as V2ValueSpec,
};
use crate::v2::metric::InstrumentSpec as V2InstrumentSpec;
use crate::v2::SemConvSpecV2;
use crate::v2::span::{SpanKindSpec as V2SpanKindSpec, SpanName as V2SpanName};
use crate::vec_util::map_vec;
use crate::yaml_value::Annotations;

verus! {

// ---------------------------------------------------------------------------
// Version 2 to version 1: leaf types.
// ---------------------------------------------------------------------------

/// The version 1 primitive or array type with the same name.
pub open spec fn spec_v2_primitive_to_v1(t: V2PrimitiveOrArrayTypeSpec) -> V1PrimitiveOrArrayTypeSpec {
    match t {
        V2PrimitiveOrArrayTypeSpec::Boolean => V1PrimitiveOrArrayTypeSpec::Boolean,
        V2PrimitiveOrArrayTypeSpec::Int => V1PrimitiveOrArrayTypeSpec::Int,
        V2PrimitiveOrArrayTypeSpec::Double => V1PrimitiveOrArrayTypeSpec::Double,
        V2PrimitiveOrArrayTypeSpec::String => V1PrimitiveOrArrayTypeSpec::String,
        V2PrimitiveOrArrayTypeSpec::Any => V1PrimitiveOrArrayTypeSpec::Any,
        V2PrimitiveOrArrayTypeSpec::Strings => V1PrimitiveOrArrayTypeSpec::Strings,
        V2PrimitiveOrArrayTypeSpec::Ints => V1PrimitiveOrArrayTypeSpec::Ints,
        V2PrimitiveOrArrayTypeSpec::Doubles => V1PrimitiveOrArrayTypeSpec::Doubles,
        V2PrimitiveOrArrayTypeSpec::Booleans => V1PrimitiveOrArrayTypeSpec::Booleans,
    }
}

/// Converts a version 2 primitive or array type to version 1.
pub fn v2_primitive_or_array_type_to_v1(t: V2PrimitiveOrArrayTypeSpec) -> (r: V1PrimitiveOrArrayTypeSpec)
    ensures
        r == spec_v2_primitive_to_v1(t),
{
    match t {
        V2PrimitiveOrArrayTypeSpec::Boolean => V1PrimitiveOrArrayTypeSpec::Boolean,
        V2PrimitiveOrArrayTypeSpec::Int => V1PrimitiveOrArrayTypeSpec::Int,
        V2PrimitiveOrArrayTypeSpec::Double => V1PrimitiveOrArrayTypeSpec::Double,
        V2PrimitiveOrArrayTypeSpec::String => V1PrimitiveOrArrayTypeSpec::String,
        V2PrimitiveOrArrayTypeSpec::Any => V1PrimitiveOrArrayTypeSpec::Any,
        V2PrimitiveOrArrayTypeSpec::Strings => V1PrimitiveOrArrayTypeSpec::Strings,
        V2PrimitiveOrArrayTypeSpec::Ints => V1PrimitiveOrArrayTypeSpec::Ints,
        V2PrimitiveOrArrayTypeSpec::Doubles => V1PrimitiveOrArrayTypeSpec::Doubles,
        V2PrimitiveOrArrayTypeSpec::Booleans => V1PrimitiveOrArrayTypeSpec::Booleans,
    }
}

/// The version 1 template type with the same name.
pub open spec fn spec_v2_template_to_v1(t: V2TemplateTypeSpec) -> V1TemplateTypeSpec {
    match t {
        V2TemplateTypeSpec::Boolean => V1TemplateTypeSpec::Boolean,
        V2TemplateTypeSpec::Int => V1TemplateTypeSpec::Int,
        V2TemplateTypeSpec::Double => V1TemplateTypeSpec::Double,
        V2TemplateTypeSpec::String => V1TemplateTypeSpec::String,
        V2TemplateTypeSpec::Any => V1TemplateTypeSpec::Any,
        V2TemplateTypeSpec::Strings => V1TemplateTypeSpec::Strings,
        V2TemplateTypeSpec::Ints => V1TemplateTypeSpec::Ints,
        V2TemplateTypeSpec::Doubles => V1TemplateTypeSpec::Doubles,
        V2TemplateTypeSpec::Booleans => V1TemplateTypeSpec::Booleans,
    }
}

/// Converts a version 2 template type to version 1.
pub fn v2_template_type_to_v1(t: V2TemplateTypeSpec) -> (r: V1TemplateTypeSpec)
    ensures
        r == spec_v2_template_to_v1(t),
{
    match t {
        V2TemplateTypeSpec::Boolean => V1TemplateTypeSpec::Boolean,
        V2TemplateTypeSpec::Int => V1TemplateTypeSpec::Int,
        V2TemplateTypeSpec::Double => V1TemplateTypeSpec::Double,
        V2TemplateTypeSpec::String => V1TemplateTypeSpec::String,
        V2TemplateTypeSpec::Any => V1TemplateTypeSpec::Any,
        V2TemplateTypeSpec::Strings => V1TemplateTypeSpec::Strings,
        V2TemplateTypeSpec::Ints => V1TemplateTypeSpec::Ints,
        V2TemplateTypeSpec::Doubles => V1TemplateTypeSpec::Doubles,
        V2TemplateTypeSpec::Booleans => V1TemplateTypeSpec::Booleans,
    }
}

/// The version 1 value holding the same data.
pub open spec fn spec_v2_value_to_v1(v: V2ValueSpec) -> V1ValueSpec {
    match v {
        V2ValueSpec::Int(i) => V1ValueSpec::Int(i),
        V2ValueSpec::Double(d) => V1ValueSpec::Double(d),
        V2ValueSpec::String(s) => V1ValueSpec::String(s),
        V2ValueSpec::Bool(b) => V1ValueSpec::Bool(b),
    }
}

/// Converts a version 2 value to version 1.
pub fn v2_value_to_v1(v: V2ValueSpec) -> (r: V1ValueSpec)
    ensures
        r == spec_v2_value_to_v1(v),
{
    match v {
        V2ValueSpec::Int(i) => V1ValueSpec::Int(i),
        V2ValueSpec::Double(d) => V1ValueSpec::Double(d),
        V2ValueSpec::String(s) => V1ValueSpec::String(s),
        V2ValueSpec::Bool(b) => V1ValueSpec::Bool(b),
    }
}

/// The version 1 enum member holding the same data.
pub open spec fn spec_v2_enum_entry_to_v1(e: V2EnumEntriesSpec) -> V1EnumEntriesSpec {
    V1EnumEntriesSpec {
        id: e.id,
        value: spec_v2_value_to_v1(e.value),
        brief: e.brief,
        note: e.note,
        stability: e.stability,
        deprecated: e.deprecated,
        annotations: e.annotations,
    }
}

/// Converts a version 2 enum member to version 1.
pub fn v2_enum_entry_to_v1(e: V2EnumEntriesSpec) -> (r: V1EnumEntriesSpec)
    ensures
        r == spec_v2_enum_entry_to_v1(e),
{
    V1EnumEntriesSpec {
        id: e.id,
        value: v2_value_to_v1(e.value),
        brief: e.brief,
        note: e.note,
        stability: e.stability,
        deprecated: e.deprecated,
        annotations: e.annotations,
    }
}

/// The version 1 attribute type: same kind, members converted; the version 1
/// `allow_custom_values` is left unset.
pub open spec fn spec_v2_attribute_type_to_v1(t: V2AttributeType, r: V1AttributeType) -> bool {
    match t {
        V2AttributeType::PrimitiveOrArray(p) => r == V1AttributeType::PrimitiveOrArray(
            spec_v2_primitive_to_v1(p),
        ),
        V2AttributeType::Template(p) => r == V1AttributeType::Template(spec_v2_template_to_v1(p)),
        V2AttributeType::Enum { members } => r matches V1AttributeType::Enum {
            allow_custom_values: None,
            members: m,
        } && m@ == members@.map_values(|e: V2EnumEntriesSpec| spec_v2_enum_entry_to_v1(e)),
    }
}

/// Converts a version 2 attribute type to version 1.
pub fn v2_attribute_type_to_v1(t: V2AttributeType) -> (r: V1AttributeType)
    ensures
        spec_v2_attribute_type_to_v1(t, r),
{
    match t {
        V2AttributeType::PrimitiveOrArray(p) => V1AttributeType::PrimitiveOrArray(
            v2_primitive_or_array_type_to_v1(p),
        ),
        V2AttributeType::Template(p) => V1AttributeType::Template(v2_template_type_to_v1(p)),
        V2AttributeType::Enum { members } => {
            let ghost src = members@;
            let m = map_vec(members, v2_enum_entry_to_v1);
            assert(m@ =~= src.map_values(|e: V2EnumEntriesSpec| spec_v2_enum_entry_to_v1(e)));
            V1AttributeType::Enum { allow_custom_values: None, members: m }
        },
    }
}

/// The version 1 examples holding the same data.
pub open spec fn spec_v2_examples_to_v1(e: V2Examples, r: V1Examples) -> bool {
    match e {
        V2Examples::Bool(b) => r == V1Examples::Bool(b),
        V2Examples::Int(i) => r == V1Examples::Int(i),
        V2Examples::Double(d) => r == V1Examples::Double(d),
        V2Examples::String(s) => r == V1Examples::String(s),
        V2Examples::Any(a) => r == V1Examples::Any(spec_v2_value_to_v1(a)),
        V2Examples::Ints(v) => r == V1Examples::Ints(v),
        V2Examples::Doubles(v) => r == V1Examples::Doubles(v),
        V2Examples::Bools(v) => r == V1Examples::Bools(v),
        V2Examples::Strings(v) => r == V1Examples::Strings(v),
        V2Examples::Anys(v) => r matches V1Examples::Anys(w) && w@ == v@.map_values(
            |x: V2ValueSpec| spec_v2_value_to_v1(x),
        ),
        V2Examples::ListOfInts(v) => r == V1Examples::ListOfInts(v),
        V2Examples::ListOfDoubles(v) => r == V1Examples::ListOfDoubles(v),
        V2Examples::ListOfBools(v) => r == V1Examples::ListOfBools(v),
        V2Examples::ListOfStrings(v) => r == V1Examples::ListOfStrings(v),
    }
}

/// Converts version 2 examples to version 1.
pub fn v2_examples_to_v1(e: V2Examples) -> (r: V1Examples)
    ensures
        spec_v2_examples_to_v1(e, r),
{
    match e {
        V2Examples::Bool(b) => V1Examples::Bool(b),
        V2Examples::Int(i) => V1Examples::Int(i),
        V2Examples::Double(d) => V1Examples::Double(d),
        V2Examples::String(s) => V1Examples::String(s),
        V2Examples::Any(a) => V1Examples::Any(v2_value_to_v1(a)),
        V2Examples::Ints(v) => V1Examples::Ints(v),
        V2Examples::Doubles(v) => V1Examples::Doubles(v),
        V2Examples::Bools(v) => V1Examples::Bools(v),
        V2Examples::Strings(v) => V1Examples::Strings(v),
        V2Examples::Anys(v) => {
            let ghost src = v@;
            let w = map_vec(v, v2_value_to_v1);
            assert(w@ =~= src.map_values(|x: V2ValueSpec| spec_v2_value_to_v1(x)));
            V1Examples::Anys(w)
        },
        V2Examples::ListOfInts(v) => V1Examples::ListOfInts(v),
        V2Examples::ListOfDoubles(v) => V1Examples::ListOfDoubles(v),
        V2Examples::ListOfBools(v) => V1Examples::ListOfBools(v),
        V2Examples::ListOfStrings(v) => V1Examples::ListOfStrings(v),
    }
}

/// The version 1 basic requirement level with the same name.
pub open spec fn spec_v2_basic_level_to_v1(b: V2BasicRequirementLevelSpec) -> V1BasicRequirementLevelSpec {
    match b {
        V2BasicRequirementLevelSpec::Required => V1BasicRequirementLevelSpec::Required,
        V2BasicRequirementLevelSpec::Recommended => V1BasicRequirementLevelSpec::Recommended,
        V2BasicRequirementLevelSpec::OptIn => V1BasicRequirementLevelSpec::OptIn,
    }
}

/// Converts a version 2 basic requirement level to version 1.
pub fn v2_basic_requirement_level_to_v1(b: V2BasicRequirementLevelSpec) -> (r: V1BasicRequirementLevelSpec)
    ensures
        r == spec_v2_basic_level_to_v1(b),
{
    match b {
        V2BasicRequirementLevelSpec::Required => V1BasicRequirementLevelSpec::Required,
        V2BasicRequirementLevelSpec::Recommended => V1BasicRequirementLevelSpec::Recommended,
        V2BasicRequirementLevelSpec::OptIn => V1BasicRequirementLevelSpec::OptIn,
    }
}

/// The version 1 requirement level holding the same data.
pub open spec fn spec_v2_requirement_level_to_v1(r: V2RequirementLevel) -> V1RequirementLevel {
    match r {
        V2RequirementLevel::Basic(b) => V1RequirementLevel::Basic(spec_v2_basic_level_to_v1(b)),
        V2RequirementLevel::ConditionallyRequired { text } => V1RequirementLevel::ConditionallyRequired {
            text,
        },
        V2RequirementLevel::Recommended { text } => V1RequirementLevel::Recommended { text },
        V2RequirementLevel::OptIn { text } => V1RequirementLevel::OptIn { text },
    }
}

/// Converts a version 2 requirement level to version 1.
pub fn v2_requirement_level_to_v1(r: V2RequirementLevel) -> (o: V1RequirementLevel)
    ensures
        o == spec_v2_requirement_level_to_v1(r),
{
    match r {
        V2RequirementLevel::Basic(b) => V1RequirementLevel::Basic(v2_basic_requirement_level_to_v1(b)),
        V2RequirementLevel::ConditionallyRequired { text } => V1RequirementLevel::ConditionallyRequired {
            text,
        },
        V2RequirementLevel::Recommended { text } => V1RequirementLevel::Recommended { text },
        V2RequirementLevel::OptIn { text } => V1RequirementLevel::OptIn { text },
    }
}

/// The version 1 instrument with the same name.
pub open spec fn spec_v2_instrument_to_v1(i: V2InstrumentSpec) -> V1InstrumentSpec {
    match i {
        V2InstrumentSpec::Counter => V1InstrumentSpec::Counter,
        V2InstrumentSpec::Gauge => V1InstrumentSpec::Gauge,
        V2InstrumentSpec::Histogram => V1InstrumentSpec::Histogram,
        V2InstrumentSpec::UpDownCounter => V1InstrumentSpec::UpDownCounter,
    }
}

/// Converts a version 2 instrument to version 1.
pub fn v2_instrument_to_v1(i: V2InstrumentSpec) -> (r: V1InstrumentSpec)
    ensures
        r == spec_v2_instrument_to_v1(i),
{
    match i {
        V2InstrumentSpec::Counter => V1InstrumentSpec::Counter,
        V2InstrumentSpec::Gauge => V1InstrumentSpec::Gauge,
        V2InstrumentSpec::Histogram => V1InstrumentSpec::Histogram,
        V2InstrumentSpec::UpDownCounter => V1InstrumentSpec::UpDownCounter,
    }
}

/// The version 1 span kind with the same name.
pub open spec fn spec_v2_span_kind_to_v1(k: V2SpanKindSpec) -> V1SpanKindSpec {
    match k {
        V2SpanKindSpec::Internal => V1SpanKindSpec::Internal,
        V2SpanKindSpec::Server => V1SpanKindSpec::Server,
        V2SpanKindSpec::Client => V1SpanKindSpec::Client,
        V2SpanKindSpec::Producer => V1SpanKindSpec::Producer,
        V2SpanKindSpec::Consumer => V1SpanKindSpec::Consumer,
    }
}

/// Converts a version 2 span kind to version 1.
pub fn v2_span_kind_to_v1(k: V2SpanKindSpec) -> (r: V1SpanKindSpec)
    ensures
        r == spec_v2_span_kind_to_v1(k),
{
    match k {
        V2SpanKindSpec::Internal => V1SpanKindSpec::Internal,
        V2SpanKindSpec::Server => V1SpanKindSpec::Server,
        V2SpanKindSpec::Client => V1SpanKindSpec::Client,
        V2SpanKindSpec::Producer => V1SpanKindSpec::Producer,
        V2SpanKindSpec::Consumer => V1SpanKindSpec::Consumer,
    }
}

/// Converts a version 2 span name to version 1, which keeps only the note.
pub fn v2_span_name_to_v1(s: V2SpanName) -> (r: V1SpanName)
    ensures
        r.note == s.note,
{
    V1SpanName { note: s.note }
}

// ---------------------------------------------------------------------------
// Version 1 to version 2: leaf types.
// ---------------------------------------------------------------------------

/// The version 2 primitive or array type with the same name.
pub open spec fn spec_v1_primitive_to_v2(t: V1PrimitiveOrArrayTypeSpec) -> V2PrimitiveOrArrayTypeSpec {
    match t {
        V1PrimitiveOrArrayTypeSpec::Boolean => V2PrimitiveOrArrayTypeSpec::Boolean,
        V1PrimitiveOrArrayTypeSpec::Int => V2PrimitiveOrArrayTypeSpec::Int,
        V1PrimitiveOrArrayTypeSpec::Double => V2PrimitiveOrArrayTypeSpec::Double,
        V1PrimitiveOrArrayTypeSpec::String => V2PrimitiveOrArrayTypeSpec::String,
        V1PrimitiveOrArrayTypeSpec::Any => V2PrimitiveOrArrayTypeSpec::Any,
        V1PrimitiveOrArrayTypeSpec::Strings => V2PrimitiveOrArrayTypeSpec::Strings,
        V1PrimitiveOrArrayTypeSpec::Ints => V2PrimitiveOrArrayTypeSpec::Ints,
        V1PrimitiveOrArrayTypeSpec::Doubles => V2PrimitiveOrArrayTypeSpec::Doubles,
        V1PrimitiveOrArrayTypeSpec::Booleans => V2PrimitiveOrArrayTypeSpec::Booleans,
    }
}

/// Converts a version 1 primitive or array type to version 2.
pub fn v1_primitive_or_array_type_to_v2(t: V1PrimitiveOrArrayTypeSpec) -> (r: V2PrimitiveOrArrayTypeSpec)
    ensures
        r == spec_v1_primitive_to_v2(t),
{
    match t {
        V1PrimitiveOrArrayTypeSpec::Boolean => V2PrimitiveOrArrayTypeSpec::Boolean,
        V1PrimitiveOrArrayTypeSpec::Int => V2PrimitiveOrArrayTypeSpec::Int,
        V1PrimitiveOrArrayTypeSpec::Double => V2PrimitiveOrArrayTypeSpec::Double,
        V1PrimitiveOrArrayTypeSpec::String => V2PrimitiveOrArrayTypeSpec::String,
        V1PrimitiveOrArrayTypeSpec::Any => V2PrimitiveOrArrayTypeSpec::Any,
        V1PrimitiveOrArrayTypeSpec::Strings => V2PrimitiveOrArrayTypeSpec::Strings,
        V1PrimitiveOrArrayTypeSpec::Ints => V2PrimitiveOrArrayTypeSpec::Ints,
        V1PrimitiveOrArrayTypeSpec::Doubles => V2PrimitiveOrArrayTypeSpec::Doubles,
        V1PrimitiveOrArrayTypeSpec::Booleans => V2PrimitiveOrArrayTypeSpec::Booleans,
    }
}

/// The version 2 template type with the same name.
pub open spec fn spec_v1_template_to_v2(t: V1TemplateTypeSpec) -> V2TemplateTypeSpec {
    match t {
        V1TemplateTypeSpec::Boolean => V2TemplateTypeSpec::Boolean,
        V1TemplateTypeSpec::Int => V2TemplateTypeSpec::Int,
        V1TemplateTypeSpec::Double => V2TemplateTypeSpec::Double,
        V1TemplateTypeSpec::String => V2TemplateTypeSpec::String,
        V1TemplateTypeSpec::Any => V2TemplateTypeSpec::Any,
        V1TemplateTypeSpec::Strings => V2TemplateTypeSpec::Strings,
        V1TemplateTypeSpec::Ints => V2TemplateTypeSpec::Ints,
        V1TemplateTypeSpec::Doubles => V2TemplateTypeSpec::Doubles,
        V1TemplateTypeSpec::Booleans => V2TemplateTypeSpec::Booleans,
    }
}

/// Converts a version 1 template type to version 2.
pub fn v1_template_type_to_v2(t: V1TemplateTypeSpec) -> (r: V2TemplateTypeSpec)
    ensures
        r == spec_v1_template_to_v2(t),
{
    match t {
        V1TemplateTypeSpec::Boolean => V2TemplateTypeSpec::Boolean,
        V1TemplateTypeSpec::Int => V2TemplateTypeSpec::Int,
        V1TemplateTypeSpec::Double => V2TemplateTypeSpec::Double,
        V1TemplateTypeSpec::String => V2TemplateTypeSpec::String,
        V1TemplateTypeSpec::Any => V2TemplateTypeSpec::Any,
        V1TemplateTypeSpec::Strings => V2TemplateTypeSpec::Strings,
        V1TemplateTypeSpec::Ints => V2TemplateTypeSpec::Ints,
        V1TemplateTypeSpec::Doubles => V2TemplateTypeSpec::Doubles,
        V1TemplateTypeSpec::Booleans => V2TemplateTypeSpec::Booleans,
    }
}

/// The version 2 value holding the same data.
pub open spec fn spec_v1_value_to_v2(v: V1ValueSpec) -> V2ValueSpec {
    match v {
        V1ValueSpec::Int(i) => V2ValueSpec::Int(i),
        V1ValueSpec::Double(d) => V2ValueSpec::Double(d),
        V1ValueSpec::String(s) => V2ValueSpec::String(s),
        V1ValueSpec::Bool(b) => V2ValueSpec::Bool(b),
    }
}

/// Converts a version 1 value to version 2.
pub fn v1_value_to_v2(v: V1ValueSpec) -> (r: V2ValueSpec)
    ensures
        r == spec_v1_value_to_v2(v),
{
    match v {
        V1ValueSpec::Int(i) => V2ValueSpec::Int(i),
        V1ValueSpec::Double(d) => V2ValueSpec::Double(d),
        V1ValueSpec::String(s) => V2ValueSpec::String(s),
        V1ValueSpec::Bool(b) => V2ValueSpec::Bool(b),
    }
}

/// The version 2 enum member holding the same data.
pub open spec fn spec_v1_enum_entry_to_v2(e: V1EnumEntriesSpec) -> V2EnumEntriesSpec {
    V2EnumEntriesSpec {
        id: e.id,
        value: spec_v1_value_to_v2(e.value),
        brief: e.brief,
        note: e.note,
        stability: e.stability,
        deprecated: e.deprecated,
        annotations: e.annotations,
    }
}

/// Converts a version 1 enum member to version 2.
pub fn v1_enum_entry_to_v2(e: V1EnumEntriesSpec) -> (r: V2EnumEntriesSpec)
    ensures
        r == spec_v1_enum_entry_to_v2(e),
{
    V2EnumEntriesSpec {
        id: e.id,
        value: v1_value_to_v2(e.value),
        brief: e.brief,
        note: e.note,
        stability: e.stability,
        deprecated: e.deprecated,
        annotations: e.annotations,
    }
}

/// The version 2 attribute type: same kind, members converted; the version 1
/// `allow_custom_values` is dropped.
pub open spec fn spec_v1_attribute_type_to_v2(t: V1AttributeType, r: V2AttributeType) -> bool {
    match t {
        V1AttributeType::PrimitiveOrArray(p) => r == V2AttributeType::PrimitiveOrArray(
            spec_v1_primitive_to_v2(p),
        ),
        V1AttributeType::Template(p) => r == V2AttributeType::Template(spec_v1_template_to_v2(p)),
        V1AttributeType::Enum { members, .. } => r matches V2AttributeType::Enum { members: m }
            && m@ == members@.map_values(|e: V1EnumEntriesSpec| spec_v1_enum_entry_to_v2(e)),
    }
}

/// Converts a version 1 attribute type to version 2.
pub fn v1_attribute_type_to_v2(t: V1AttributeType) -> (r: V2AttributeType)
    ensures
        spec_v1_attribute_type_to_v2(t, r),
{
    match t {
        V1AttributeType::PrimitiveOrArray(p) => V2AttributeType::PrimitiveOrArray(
            v1_primitive_or_array_type_to_v2(p),
        ),
        V1AttributeType::Template(p) => V2AttributeType::Template(v1_template_type_to_v2(p)),
        V1AttributeType::Enum { members, .. } => {
            let ghost src = members@;
            let m = map_vec(members, v1_enum_entry_to_v2);
            assert(m@ =~= src.map_values(|e: V1EnumEntriesSpec| spec_v1_enum_entry_to_v2(e)));
            V2AttributeType::Enum { members: m }
        },
    }
}

/// The version 2 examples holding the same data.
pub open spec fn spec_v1_examples_to_v2(e: V1Examples, r: V2Examples) -> bool {
    match e {
        V1Examples::Bool(b) => r == V2Examples::Bool(b),
        V1Examples::Int(i) => r == V2Examples::Int(i),
        V1Examples::Double(d) => r == V2Examples::Double(d),
        V1Examples::String(s) => r == V2Examples::String(s),
        V1Examples::Any(a) => r == V2Examples::Any(spec_v1_value_to_v2(a)),
        V1Examples::Ints(v) => r == V2Examples::Ints(v),
        V1Examples::Doubles(v) => r == V2Examples::Doubles(v),
        V1Examples::Bools(v) => r == V2Examples::Bools(v),
        V1Examples::Strings(v) => r == V2Examples::Strings(v),
        V1Examples::Anys(v) => r matches V2Examples::Anys(w) && w@ == v@.map_values(
            |x: V1ValueSpec| spec_v1_value_to_v2(x),
        ),
        V1Examples::ListOfInts(v) => r == V2Examples::ListOfInts(v),
        V1Examples::ListOfDoubles(v) => r == V2Examples::ListOfDoubles(v),
        V1Examples::ListOfBools(v) => r == V2Examples::ListOfBools(v),
        V1Examples::ListOfStrings(v) => r == V2Examples::ListOfStrings(v),
    }
}

/// Converts version 1 examples to version 2.
pub fn v1_examples_to_v2(e: V1Examples) -> (r: V2Examples)
    ensures
        spec_v1_examples_to_v2(e, r),
{
    match e {
        V1Examples::Bool(b) => V2Examples::Bool(b),
        V1Examples::Int(i) => V2Examples::Int(i),
        V1Examples::Double(d) => V2Examples::Double(d),
        V1Examples::String(s) => V2Examples::String(s),
        V1Examples::Any(a) => V2Examples::Any(v1_value_to_v2(a)),
        V1Examples::Ints(v) => V2Examples::Ints(v),
        V1Examples::Doubles(v) => V2Examples::Doubles(v),
        V1Examples::Bools(v) => V2Examples::Bools(v),
        V1Examples::Strings(v) => V2Examples::Strings(v),
        V1Examples::Anys(v) => {
            let ghost src = v@;
            let w = map_vec(v, v1_value_to_v2);
            assert(w@ =~= src.map_values(|x: V1ValueSpec| spec_v1_value_to_v2(x)));
            V2Examples::Anys(w)
        },
        V1Examples::ListOfInts(v) => V2Examples::ListOfInts(v),
        V1Examples::ListOfDoubles(v) => V2Examples::ListOfDoubles(v),
        V1Examples::ListOfBools(v) => V2Examples::ListOfBools(v),
        V1Examples::ListOfStrings(v) => V2Examples::ListOfStrings(v),
    }
}

/// The version 2 basic requirement level with the same name.
pub open spec fn spec_v1_basic_level_to_v2(b: V1BasicRequirementLevelSpec) -> V2BasicRequirementLevelSpec {
    match b {
        V1BasicRequirementLevelSpec::Required => V2BasicRequirementLevelSpec::Required,
        V1BasicRequirementLevelSpec::Recommended => V2BasicRequirementLevelSpec::Recommended,
        V1BasicRequirementLevelSpec::OptIn => V2BasicRequirementLevelSpec::OptIn,
    }
}

/// Converts a version 1 basic requirement level to version 2.
pub fn v1_basic_requirement_level_to_v2(b: V1BasicRequirementLevelSpec) -> (r: V2BasicRequirementLevelSpec)
    ensures
        r == spec_v1_basic_level_to_v2(b),
{
    match b {
        V1BasicRequirementLevelSpec::Required => V2BasicRequirementLevelSpec::Required,
        V1BasicRequirementLevelSpec::Recommended => V2BasicRequirementLevelSpec::Recommended,
        V1BasicRequirementLevelSpec::OptIn => V2BasicRequirementLevelSpec::OptIn,
    }
}

/// The version 2 requirement level holding the same data.
pub open spec fn spec_v1_requirement_level_to_v2(r: V1RequirementLevel) -> V2RequirementLevel {
    match r {
        V1RequirementLevel::Basic(b) => V2RequirementLevel::Basic(spec_v1_basic_level_to_v2(b)),
        V1RequirementLevel::ConditionallyRequired { text } => V2RequirementLevel::ConditionallyRequired {
            text,
        },
        V1RequirementLevel::Recommended { text } => V2RequirementLevel::Recommended { text },
        V1RequirementLevel::OptIn { text } => V2RequirementLevel::OptIn { text },
    }
}

/// Converts a version 1 requirement level to version 2.
pub fn v1_requirement_level_to_v2(r: V1RequirementLevel) -> (o: V2RequirementLevel)
    ensures
        o == spec_v1_requirement_level_to_v2(r),
{
    match r {
        V1RequirementLevel::Basic(b) => V2RequirementLevel::Basic(v1_basic_requirement_level_to_v2(b)),
        V1RequirementLevel::ConditionallyRequired { text } => V2RequirementLevel::ConditionallyRequired {
            text,
        },
        V1RequirementLevel::Recommended { text } => V2RequirementLevel::Recommended { text },
        V1RequirementLevel::OptIn { text } => V2RequirementLevel::OptIn { text },
    }
}

/// The version 2 instrument with the same name.
pub open spec fn spec_v1_instrument_to_v2(i: V1InstrumentSpec) -> V2InstrumentSpec {
    match i {
        V1InstrumentSpec::Counter => V2InstrumentSpec::Counter,
        V1InstrumentSpec::Gauge => V2InstrumentSpec::Gauge,
        V1InstrumentSpec::Histogram => V2InstrumentSpec::Histogram,
        V1InstrumentSpec::UpDownCounter => V2InstrumentSpec::UpDownCounter,
    }
}

/// Converts a version 1 instrument to version 2.
pub fn v1_instrument_to_v2(i: V1InstrumentSpec) -> (r: V2InstrumentSpec)
    ensures
        r == spec_v1_instrument_to_v2(i),
{
    match i {
        V1InstrumentSpec::Counter => V2InstrumentSpec::Counter,
        V1InstrumentSpec::Gauge => V2InstrumentSpec::Gauge,
        V1InstrumentSpec::Histogram => V2InstrumentSpec::Histogram,
        V1InstrumentSpec::UpDownCounter => V2InstrumentSpec::UpDownCounter,
    }
}

/// The version 2 span kind with the same name.
pub open spec fn spec_v1_span_kind_to_v2(k: V1SpanKindSpec) -> V2SpanKindSpec {
    match k {
        V1SpanKindSpec::Internal => V2SpanKindSpec::Internal,
        V1SpanKindSpec::Client => V2SpanKindSpec::Client,
        V1SpanKindSpec::Server => V2SpanKindSpec::Server,
        V1SpanKindSpec::Producer => V2SpanKindSpec::Producer,
        V1SpanKindSpec::Consumer => V2SpanKindSpec::Consumer,
    }
}

/// Converts a version 1 span kind to version 2.
pub fn v1_span_kind_to_v2(k: V1SpanKindSpec) -> (r: V2SpanKindSpec)
    ensures
        r == spec_v1_span_kind_to_v2(k),
{
    match k {
        V1SpanKindSpec::Internal => V2SpanKindSpec::Internal,
        V1SpanKindSpec::Client => V2SpanKindSpec::Client,
        V1SpanKindSpec::Server => V2SpanKindSpec::Server,
        V1SpanKindSpec::Producer => V2SpanKindSpec::Producer,
        V1SpanKindSpec::Consumer => V2SpanKindSpec::Consumer,
    }
}

/// Converts a version 1 span name to version 2: the note, and no template.
pub fn v1_span_name_to_v2(s: V1SpanName) -> (r: V2SpanName)
    ensures
        r.note == s.note,
        r.templates@.len() == 0,
{
    V2SpanName { templates: Vec::new(), note: s.note }
}


// ---------------------------------------------------------------------------
// Version 2 to version 1: attributes.
// ---------------------------------------------------------------------------

/// Annotations as version 1 holds them: none when there are no entries.
pub open spec fn spec_opt_annotations(a: Annotations) -> Option<Annotations> {
    if a@.len() == 0 {
        None
    } else {
        Some(a)
    }
}

/// Converts annotations to their version 1 form.
fn annotations_to_v1(a: Annotations) -> (r: Option<Annotations>)
    ensures
        r == spec_opt_annotations(a),
{
    if a.len() == 0 {
        None
    } else {
        Some(a)
    }
}

/// Optional examples converted to version 1.
pub open spec fn spec_opt_examples_to_v1(e: Option<V2Examples>, r: Option<V1Examples>) -> bool {
    match e {
        None => r is None,
        Some(x) => r matches Some(y) && spec_v2_examples_to_v1(x, y),
    }
}

/// Converts optional examples to version 1.
fn opt_examples_to_v1(e: Option<V2Examples>) -> (r: Option<V1Examples>)
    ensures
        spec_opt_examples_to_v1(e, r),
{
    match e {
        None => None,
        Some(x) => Some(v2_examples_to_v1(x)),
    }
}

/// An optional requirement level converted to version 1.
pub open spec fn spec_opt_level_to_v1(r: Option<V2RequirementLevel>) -> Option<V1RequirementLevel> {
    match r {
        None => None,
        Some(x) => Some(spec_v2_requirement_level_to_v1(x)),
    }
}

/// Converts an optional requirement level to version 1.
fn opt_level_to_v1(r: Option<V2RequirementLevel>) -> (o: Option<V1RequirementLevel>)
    ensures
        o == spec_opt_level_to_v1(r),
{
    match r {
        None => None,
        Some(x) => Some(v2_requirement_level_to_v1(x)),
    }
}

/// The version 1 definition of a version 2 attribute definition.
pub open spec fn spec_v2_attribute_to_v1(a: AttributeDef, r: V1AttributeSpec) -> bool {
    match r {
        V1AttributeSpec::Id {
            id,
            type_,
            brief,
            examples,
            tag,
            requirement_level,
            sampling_relevant,
            note,
            stability,
            deprecated,
            annotations,
            role,
        } => id == a.key && spec_v2_attribute_type_to_v1(a.type_, type_) && brief == Some(
            a.common.brief,
        ) && spec_opt_examples_to_v1(a.examples, examples) && tag is None && requirement_level
            == V1RequirementLevel::Basic(V1BasicRequirementLevelSpec::Recommended)
            && sampling_relevant is None && note == a.common.note && stability == Some(
            a.common.stability,
        ) && deprecated == a.common.deprecated && annotations == spec_opt_annotations(
            a.common.annotations,
        ) && role is None,
        _ => false,
    }
}

/// Converts a version 2 attribute definition into a version 1 attribute.
pub fn v2_attribute_to_v1(attr: AttributeDef) -> (r: V1AttributeSpec)
    ensures
        spec_v2_attribute_to_v1(attr, r),
{
    V1AttributeSpec::Id {
        id: attr.key,
        type_: v2_attribute_type_to_v1(attr.type_),
        brief: Some(attr.common.brief),
        examples: opt_examples_to_v1(attr.examples),
        tag: None,
        requirement_level: V1RequirementLevel::Basic(V1BasicRequirementLevelSpec::Recommended),
        sampling_relevant: None,
        note: attr.common.note,
        stability: Some(attr.common.stability),
        deprecated: attr.common.deprecated,
        annotations: annotations_to_v1(attr.common.annotations),
        role: None,
    }
}

/// The version 1 reference of a version 2 attribute reference, with the
/// given sampling relevance and role.
pub open spec fn spec_v2_ref_to_v1(
    a: AttributeRef,
    sampling: Option<bool>,
    the_role: Option<V1AttributeRole>,
    r: V1AttributeSpec,
) -> bool {
    match r {
        V1AttributeSpec::Ref {
            ref_,
            brief,
            examples,
            tag,
            requirement_level,
            sampling_relevant,
            note,
            stability,
            deprecated,
            prefix,
            annotations,
            role,
        } => ref_ == a.ref_ && brief == a.brief && spec_opt_examples_to_v1(a.examples, examples)
            && tag is None && requirement_level == spec_opt_level_to_v1(a.requirement_level)
            && sampling_relevant == sampling && note == a.note && stability is None && deprecated is None
            && !prefix && annotations == spec_opt_annotations(a.annotations) && role == the_role,
        _ => false,
    }
}

/// Builds the version 1 reference of a version 2 attribute reference.
fn ref_to_v1(
    attr_ref: AttributeRef,
    sampling_relevant: Option<bool>,
    role: Option<V1AttributeRole>,
) -> (r: V1AttributeSpec)
    ensures
        spec_v2_ref_to_v1(attr_ref, sampling_relevant, role, r),
{
    V1AttributeSpec::Ref {
        ref_: attr_ref.ref_,
        brief: attr_ref.brief,
        examples: opt_examples_to_v1(attr_ref.examples),
        tag: None,
        requirement_level: opt_level_to_v1(attr_ref.requirement_level),
        sampling_relevant,
        note: attr_ref.note,
        stability: None,
        deprecated: None,
        prefix: false,
        annotations: annotations_to_v1(attr_ref.annotations),
        role,
    }
}

/// Converts a version 2 attribute reference into a version 1 reference.
pub fn v2_attribute_ref_to_v1(attr_ref: AttributeRef) -> (r: V1AttributeSpec)
    ensures
        spec_v2_ref_to_v1(attr_ref, None, None, r),
{
    ref_to_v1(attr_ref, None, None)
}

/// Converts a version 2 attribute reference into a version 1 reference with
/// the given role.
pub fn v2_attribute_ref_to_v1_with_role(attr_ref: AttributeRef, role: V1AttributeRole) -> (r:
    V1AttributeSpec)
    ensures
        spec_v2_ref_to_v1(attr_ref, None, Some(role), r),
{
    ref_to_v1(attr_ref, None, Some(role))
}

/// Converts a version 2 span attribute reference into a version 1 reference.
pub fn v2_span_attribute_ref_to_v1(attr_ref: crate::v2::span::SpanAttributeRef) -> (r: V1AttributeSpec)
    ensures
        spec_v2_ref_to_v1(attr_ref.base, attr_ref.sampling_relevant, None, r),
{
    ref_to_v1(attr_ref.base, attr_ref.sampling_relevant, None)
}


// ---------------------------------------------------------------------------
// Version 2 to version 1: attribute lists and groups.
// ---------------------------------------------------------------------------

/// `a` and `g` are the version 1 attributes and the group ids of `src`.
pub open spec fn spec_split_to_v1(
    src: Seq<AttributeOrGroupRef>,
    a: Seq<V1AttributeSpec>,
    g: Seq<String>,
) -> bool {
    let refs = crate::v2::attribute::spec_attribute_refs(src);
    &&& a.len() == refs.len()
    &&& forall|i: int| 0 <= i < refs.len() ==> spec_v2_ref_to_v1(refs[i], None, None, #[trigger] a[i])
    &&& g == crate::v2::attribute::spec_group_refs(src).map_values(|x: crate::v2::signal_id::SignalId| x.0)
}

/// Converts a list of version 2 references into version 1 attributes and
/// group ids, each in their original order.
pub fn split_attributes_and_groups_to_v1(attributes_and_groups: Vec<AttributeOrGroupRef>) -> (r: (
    Vec<V1AttributeSpec>,
    Vec<String>,
))
    ensures
        spec_split_to_v1(attributes_and_groups@, r.0@, r.1@),
{
    let (attrs, groups) = crate::v2::attribute::split_attributes_and_groups(attributes_and_groups);
    let ghost ga = groups@;
    let a = map_vec(attrs, v2_attribute_ref_to_v1);
    let g = map_vec(groups, crate::v2::signal_id::SignalId::into_v1);
    assert(g@ =~= ga.map_values(|x: crate::v2::signal_id::SignalId| x.0));
    (a, g)
}

/// `a` and `g` are the version 1 attributes and the group ids of span
/// references `src`.
pub open spec fn spec_span_split_to_v1(
    src: Seq<crate::v2::span::SpanAttributeOrGroupRef>,
    a: Seq<V1AttributeSpec>,
    g: Seq<String>,
) -> bool {
    let refs = crate::v2::span::spec_span_attribute_refs(src);
    &&& a.len() == refs.len()
    &&& forall|i: int|
        0 <= i < refs.len() ==> spec_v2_ref_to_v1(
            refs[i].base,
            refs[i].sampling_relevant,
            None,
            #[trigger] a[i],
        )
    &&& g == crate::v2::span::spec_span_group_refs(src)
}

/// Converts a list of version 2 span references into version 1 attributes and
/// group ids, each in their original order.
pub fn split_span_attributes_and_groups_to_v1(
    attributes: Vec<crate::v2::span::SpanAttributeOrGroupRef>,
) -> (r: (Vec<V1AttributeSpec>, Vec<String>))
    ensures
        spec_span_split_to_v1(attributes@, r.0@, r.1@),
{
    let (attrs, groups) = crate::v2::span::split_span_attributes_and_groups(attributes);
    let a = map_vec(attrs, v2_span_attribute_ref_to_v1);
    (a, groups)
}

/// The fields that every group converted from version 2 shares: no prefix,
/// no constraints, display name or body, and the version 2 mark.
pub open spec fn spec_v2_group_defaults(g: V1GroupSpec) -> bool {
    g.prefix@.len() == 0 && g.constraints is None && g.display_name is None && g.body is None
        && g.is_v2
}

/// The text of an optional string, empty when absent.
pub open spec fn or_empty(s: Option<String>) -> Seq<char> {
    match s {
        Some(x) => x@,
        None => Seq::empty(),
    }
}

/// Takes an optional string, empty when absent.
fn unwrap_or_empty(s: Option<String>) -> (r: String)
    ensures
        r@ == or_empty(s),
{
    match s {
        Some(x) => x,
        None => String::new(),
    }
}

/// The version 1 group of a version 2 metric.
pub open spec fn spec_v2_metric_to_v1(m: crate::v2::metric::Metric, g: V1GroupSpec) -> bool {
    &&& spec_v2_group_defaults(g)
    &&& g.id@ == "metric."@ + m.name.0@
    &&& g.type_ == V1GroupType::Metric
    &&& g.brief == m.common.brief && g.note == m.common.note
    &&& g.extends is None
    &&& spec_split_to_v1(m.attributes@, g.attributes@, g.include_groups@)
    &&& g.stability == Some(m.common.stability) && g.deprecated == m.common.deprecated
    &&& g.span_kind is None && g.events@.len() == 0
    &&& g.metric_name == Some(m.name.0)
    &&& g.instrument == Some(spec_v2_instrument_to_v1(m.instrument))
    &&& g.unit == Some(m.unit)
    &&& g.name is None
    &&& g.annotations == spec_opt_annotations(m.common.annotations)
    &&& g.entity_associations == m.entity_associations
    &&& g.visibility is None && g.span_name is None
    &&& g.requirement_level == m.requirement_level
}

/// Converts a version 2 metric into a version 1 metric group.
pub fn v2_metric_to_v1(metric: crate::v2::metric::Metric) -> (r: V1GroupSpec)
    ensures
        spec_v2_metric_to_v1(metric, r),
{
    let (attributes, include_groups) = split_attributes_and_groups_to_v1(metric.attributes);
    let id = concat2("metric.", metric.name.as_str());
    V1GroupSpec {
        id,
        type_: V1GroupType::Metric,
        brief: metric.common.brief,
        note: metric.common.note,
        prefix: String::new(),
        extends: None,
        include_groups,
        stability: Some(metric.common.stability),
        deprecated: metric.common.deprecated,
        attributes,
        constraints: None,
        span_kind: None,
        events: Vec::new(),
        metric_name: Some(metric.name.into_v1()),
        instrument: Some(v2_instrument_to_v1(metric.instrument)),
        unit: Some(metric.unit),
        name: None,
        display_name: None,
        body: None,
        annotations: annotations_to_v1(metric.common.annotations),
        entity_associations: metric.entity_associations,
        visibility: None,
        is_v2: true,
        span_name: None,
        requirement_level: metric.requirement_level,
    }
}

/// The version 1 group of a version 2 metric refinement.
pub open spec fn spec_v2_metric_refinement_to_v1(m: crate::v2::metric::MetricRefinement, g: V1GroupSpec) -> bool {
    &&& spec_v2_group_defaults(g)
    &&& g.id@ == m.id.0@
    &&& g.type_ == V1GroupType::Metric
    &&& g.brief@ == or_empty(m.brief) && g.note@ == or_empty(m.note)
    &&& g.extends matches Some(e) && e@ == "metric."@ + m.ref_.0@
    &&& spec_split_to_v1(m.attributes@, g.attributes@, g.include_groups@)
    &&& g.stability == m.stability && g.deprecated == m.deprecated
    &&& g.span_kind is None && g.events@.len() == 0
    &&& g.metric_name is None && g.instrument is None && g.unit is None
    &&& g.name is None
    &&& g.annotations == spec_opt_annotations(m.annotations)
    &&& g.entity_associations == m.entity_associations
    &&& g.visibility is None && g.span_name is None
    &&& g.requirement_level is None
}

/// Converts a version 2 metric refinement into a version 1 metric group.
pub fn v2_metric_refinement_to_v1(r: crate::v2::metric::MetricRefinement) -> (g: V1GroupSpec)
    ensures
        spec_v2_metric_refinement_to_v1(r, g),
{
    let (attributes, include_groups) = split_attributes_and_groups_to_v1(r.attributes);
    let extends = concat2("metric.", r.ref_.as_str());
    V1GroupSpec {
        id: r.id.into_v1(),
        type_: V1GroupType::Metric,
        brief: unwrap_or_empty(r.brief),
        note: unwrap_or_empty(r.note),
        prefix: String::new(),
        extends: Some(extends),
        include_groups,
        stability: r.stability,
        deprecated: r.deprecated,
        attributes,
        constraints: None,
        span_kind: None,
        events: Vec::new(),
        metric_name: None,
        instrument: None,
        unit: None,
        name: None,
        display_name: None,
        body: None,
        annotations: annotations_to_v1(r.annotations),
        entity_associations: r.entity_associations,
        visibility: None,
        is_v2: true,
        span_name: None,
        requirement_level: None,
    }
}

/// The version 1 group of a version 2 span.
pub open spec fn spec_v2_span_to_v1(m: crate::v2::span::Span, g: V1GroupSpec) -> bool {
    &&& spec_v2_group_defaults(g)
    &&& g.id@ == "span."@ + m.type_.0@
    &&& g.type_ == V1GroupType::Span
    &&& g.brief == m.common.brief && g.note == m.common.note
    &&& g.extends is None
    &&& spec_span_split_to_v1(m.attributes@, g.attributes@, g.include_groups@)
    &&& g.stability == Some(m.common.stability) && g.deprecated == m.common.deprecated
    &&& g.span_kind == Some(spec_v2_span_kind_to_v1(m.kind)) && g.events@.len() == 0
    &&& g.metric_name is None && g.instrument is None && g.unit is None
    &&& g.name matches Some(n) && n@ == m.type_.0@
    &&& g.annotations == spec_opt_annotations(m.common.annotations)
    &&& g.entity_associations == m.entity_associations
    &&& g.visibility is None
    &&& g.span_name == Some(V1SpanName { note: m.name.note })
    &&& g.requirement_level == m.requirement_level
}

/// Converts a version 2 span into a version 1 span group.
pub fn v2_span_to_v1(span: crate::v2::span::Span) -> (r: V1GroupSpec)
    ensures
        spec_v2_span_to_v1(span, r),
{
    let (attributes, include_groups) = split_span_attributes_and_groups_to_v1(span.attributes);
    let id = concat2("span.", span.type_.as_str());
    let name = span.type_.0.clone();
    V1GroupSpec {
        id,
        type_: V1GroupType::Span,
        brief: span.common.brief,
        note: span.common.note,
        prefix: String::new(),
        extends: None,
        include_groups,
        stability: Some(span.common.stability),
        deprecated: span.common.deprecated,
        attributes,
        constraints: None,
        span_kind: Some(v2_span_kind_to_v1(span.kind)),
        events: Vec::new(),
        metric_name: None,
        instrument: None,
        unit: None,
        name: Some(name),
        display_name: None,
        body: None,
        annotations: annotations_to_v1(span.common.annotations),
        entity_associations: span.entity_associations,
        visibility: None,
        is_v2: true,
        span_name: Some(V1SpanName { note: span.name.note }),
        requirement_level: span.requirement_level,
    }
}

/// The version 1 group of a version 2 span refinement.
pub open spec fn spec_v2_span_refinement_to_v1(m: crate::v2::span::SpanRefinement, g: V1GroupSpec) -> bool {
    &&& spec_v2_group_defaults(g)
    &&& g.id@ == m.id.0@
    &&& g.type_ == V1GroupType::Span
    &&& g.brief@ == or_empty(m.brief) && g.note@ == or_empty(m.note)
    &&& g.extends matches Some(e) && e@ == "span."@ + m.ref_.0@
    &&& spec_span_split_to_v1(m.attributes@, g.attributes@, g.include_groups@)
    &&& g.stability == m.stability && g.deprecated == m.deprecated
    &&& g.span_kind is None && g.events@.len() == 0
    &&& g.metric_name is None && g.instrument is None && g.unit is None
    &&& g.name matches Some(n) && n@ == m.id.0@
    &&& g.annotations == spec_opt_annotations(m.annotations)
    &&& g.entity_associations == m.entity_associations
    &&& g.visibility is None
    &&& g.span_name == match m.name {
        Some(n) => Some(V1SpanName { note: n.note }),
        None => None,
    }
    &&& g.requirement_level is None
}

/// Converts a version 2 span refinement into a version 1 span group.
pub fn v2_span_refinement_to_v1(r: crate::v2::span::SpanRefinement) -> (g: V1GroupSpec)
    ensures
        spec_v2_span_refinement_to_v1(r, g),
{
    let (attributes, include_groups) = split_span_attributes_and_groups_to_v1(r.attributes);
    let extends = concat2("span.", r.ref_.as_str());
    let name = r.id.0.clone();
    let span_name = match r.name {
        Some(n) => Some(V1SpanName { note: n.note }),
        None => None,
    };
    V1GroupSpec {
        id: r.id.into_v1(),
        type_: V1GroupType::Span,
        brief: unwrap_or_empty(r.brief),
        note: unwrap_or_empty(r.note),
        prefix: String::new(),
        extends: Some(extends),
        include_groups,
        stability: r.stability,
        deprecated: r.deprecated,
        attributes,
        constraints: None,
        span_kind: None,
        events: Vec::new(),
        metric_name: None,
        instrument: None,
        unit: None,
        name: Some(name),
        display_name: None,
        body: None,
        annotations: annotations_to_v1(r.annotations),
        entity_associations: r.entity_associations,
        visibility: None,
        is_v2: true,
        span_name,
        requirement_level: None,
    }
}

/// The version 1 group of a version 2 event.
pub open spec fn spec_v2_event_to_v1(m: crate::v2::event::Event, g: V1GroupSpec) -> bool {
    &&& spec_v2_group_defaults(g)
    &&& g.id@ == "event."@ + m.name.0@
    &&& g.type_ == V1GroupType::Event
    &&& g.brief == m.common.brief && g.note == m.common.note
    &&& g.extends is None
    &&& spec_split_to_v1(m.attributes@, g.attributes@, g.include_groups@)
    &&& g.stability == Some(m.common.stability) && g.deprecated == m.common.deprecated
    &&& g.span_kind is None && g.events@.len() == 0
    &&& g.metric_name is None && g.instrument is None && g.unit is None
    &&& g.name == Some(m.name.0)
    &&& g.annotations == spec_opt_annotations(m.common.annotations)
    &&& g.entity_associations == m.entity_associations
    &&& g.visibility is None && g.span_name is None
    &&& g.requirement_level == m.requirement_level
}

/// Converts a version 2 event into a version 1 event group.
pub fn v2_event_to_v1(event: crate::v2::event::Event) -> (r: V1GroupSpec)
    ensures
        spec_v2_event_to_v1(event, r),
{
    let (attributes, include_groups) = split_attributes_and_groups_to_v1(event.attributes);
    let id = concat2("event.", event.name.as_str());
    V1GroupSpec {
        id,
        type_: V1GroupType::Event,
        brief: event.common.brief,
        note: event.common.note,
        prefix: String::new(),
        extends: None,
        include_groups,
        stability: Some(event.common.stability),
        deprecated: event.common.deprecated,
        attributes,
        constraints: None,
        span_kind: None,
        events: Vec::new(),
        metric_name: None,
        instrument: None,
        unit: None,
        name: Some(event.name.into_v1()),
        display_name: None,
        body: None,
        annotations: annotations_to_v1(event.common.annotations),
        entity_associations: event.entity_associations,
        visibility: None,
        is_v2: true,
        span_name: None,
        requirement_level: event.requirement_level,
    }
}

/// The version 1 group of a version 2 event refinement.
pub open spec fn spec_v2_event_refinement_to_v1(m: crate::v2::event::EventRefinement, g: V1GroupSpec) -> bool {
    &&& spec_v2_group_defaults(g)
    &&& g.id@ == m.id.0@
    &&& g.type_ == V1GroupType::Event
    &&& g.brief@ == or_empty(m.brief) && g.note@ == or_empty(m.note)
    &&& g.extends matches Some(e) && e@ == "event."@ + m.ref_.0@
    &&& spec_split_to_v1(m.attributes@, g.attributes@, g.include_groups@)
    &&& g.stability == m.stability && g.deprecated == m.deprecated
    &&& g.span_kind is None && g.events@.len() == 0
    &&& g.metric_name is None && g.instrument is None && g.unit is None
    &&& g.name matches Some(n) && n@ == m.id.0@
    &&& g.annotations == spec_opt_annotations(m.annotations)
    &&& g.entity_associations == m.entity_associations
    &&& g.visibility is None && g.span_name is None
    &&& g.requirement_level is None
}

/// Converts a version 2 event refinement into a version 1 event group.
pub fn v2_event_refinement_to_v1(r: crate::v2::event::EventRefinement) -> (g: V1GroupSpec)
    ensures
        spec_v2_event_refinement_to_v1(r, g),
{
    let (attributes, include_groups) = split_attributes_and_groups_to_v1(r.attributes);
    let extends = concat2("event.", r.ref_.as_str());
    let name = r.id.0.clone();
    V1GroupSpec {
        id: r.id.into_v1(),
        type_: V1GroupType::Event,
        brief: unwrap_or_empty(r.brief),
        note: unwrap_or_empty(r.note),
        prefix: String::new(),
        extends: Some(extends),
        include_groups,
        stability: r.stability,
        deprecated: r.deprecated,
        attributes,
        constraints: None,
        span_kind: None,
        events: Vec::new(),
        metric_name: None,
        instrument: None,
        unit: None,
        name: Some(name),
        display_name: None,
        body: None,
        annotations: annotations_to_v1(r.annotations),
        entity_associations: r.entity_associations,
        visibility: None,
        is_v2: true,
        span_name: None,
        requirement_level: None,
    }
}


/// `a` holds the identifying references of `identity` followed by the
/// descriptive references of `description`, converted to version 1.
pub open spec fn spec_entity_attributes_to_v1(
    identity: Seq<AttributeRef>,
    description: Seq<AttributeRef>,
    a: Seq<V1AttributeSpec>,
) -> bool {
    &&& a.len() == identity.len() + description.len()
    &&& forall|i: int|
        0 <= i < identity.len() ==> spec_v2_ref_to_v1(
            identity[i],
            None,
            Some(V1AttributeRole::Identifying),
            #[trigger] a[i],
        )
    &&& forall|j: int|
        0 <= j < description.len() ==> spec_v2_ref_to_v1(
            description[j],
            None,
            Some(V1AttributeRole::Descriptive),
            #[trigger] a[identity.len() + j],
        )
}

/// Converts a reference that identifies an entity.
fn identifying_ref_to_v1(x: AttributeRef) -> (r: V1AttributeSpec)
    ensures
        spec_v2_ref_to_v1(x, None, Some(V1AttributeRole::Identifying), r),
{
    v2_attribute_ref_to_v1_with_role(x, V1AttributeRole::Identifying)
}

/// Converts a reference that describes an entity.
fn descriptive_ref_to_v1(x: AttributeRef) -> (r: V1AttributeSpec)
    ensures
        spec_v2_ref_to_v1(x, None, Some(V1AttributeRole::Descriptive), r),
{
    v2_attribute_ref_to_v1_with_role(x, V1AttributeRole::Descriptive)
}

/// Converts identifying and descriptive references of an entity.
fn entity_attributes_to_v1(identity: Vec<AttributeRef>, description: Vec<AttributeRef>) -> (r: Vec<
    V1AttributeSpec,
>)
    ensures
        spec_entity_attributes_to_v1(identity@, description@, r@),
{
    let mut a = map_vec(identity, identifying_ref_to_v1);
    let mut d = map_vec(description, descriptive_ref_to_v1);
    let ghost a0 = a@;
    let ghost d0 = d@;
    a.append(&mut d);
    assert forall|j: int| 0 <= j < d0.len() implies a@[a0.len() + j] == d0[j] by {}
    a
}

/// The version 1 group of a version 2 entity.
pub open spec fn spec_v2_entity_to_v1(m: crate::v2::entity::Entity, g: V1GroupSpec) -> bool {
    &&& spec_v2_group_defaults(g)
    &&& g.id@ == "entity."@ + m.type_.0@
    &&& g.type_ == V1GroupType::Entity
    &&& g.brief == m.common.brief && g.note == m.common.note
    &&& g.extends is None && g.include_groups@.len() == 0
    &&& spec_entity_attributes_to_v1(m.identity@, m.description@, g.attributes@)
    &&& g.stability == Some(m.common.stability) && g.deprecated == m.common.deprecated
    &&& g.span_kind is None && g.events@.len() == 0
    &&& g.metric_name is None && g.instrument is None && g.unit is None
    &&& g.name == Some(m.type_.0)
    &&& g.annotations == spec_opt_annotations(m.common.annotations)
    &&& g.entity_associations@.len() == 0
    &&& g.visibility is None && g.span_name is None
    &&& g.requirement_level == m.requirement_level
}

/// Converts a version 2 entity into a version 1 entity group.
pub fn v2_entity_to_v1(entity: crate::v2::entity::Entity) -> (r: V1GroupSpec)
    ensures
        spec_v2_entity_to_v1(entity, r),
{
    let attributes = entity_attributes_to_v1(entity.identity, entity.description);
    let id = concat2("entity.", entity.type_.as_str());
    V1GroupSpec {
        id,
        type_: V1GroupType::Entity,
        brief: entity.common.brief,
        note: entity.common.note,
        prefix: String::new(),
        extends: None,
        include_groups: Vec::new(),
        stability: Some(entity.common.stability),
        deprecated: entity.common.deprecated,
        attributes,
        constraints: None,
        span_kind: None,
        events: Vec::new(),
        metric_name: None,
        instrument: None,
        unit: None,
        name: Some(entity.type_.into_v1()),
        display_name: None,
        body: None,
        annotations: annotations_to_v1(entity.common.annotations),
        entity_associations: Vec::new(),
        visibility: None,
        is_v2: true,
        span_name: None,
        requirement_level: entity.requirement_level,
    }
}

/// The version 1 group of a version 2 entity refinement.
pub open spec fn spec_v2_entity_refinement_to_v1(m: crate::v2::entity::EntityRefinement, g: V1GroupSpec) -> bool {
    &&& spec_v2_group_defaults(g)
    &&& g.id@ == m.id.0@
    &&& g.type_ == V1GroupType::Entity
    &&& g.brief@ == or_empty(m.brief) && g.note@ == or_empty(m.note)
    &&& g.extends matches Some(e) && e@ == "entity."@ + m.ref_.0@
    &&& g.include_groups@.len() == 0
    &&& spec_entity_attributes_to_v1(m.identity@, m.description@, g.attributes@)
    &&& g.stability == m.stability && g.deprecated == m.deprecated
    &&& g.span_kind is None && g.events@.len() == 0
    &&& g.metric_name is None && g.instrument is None && g.unit is None
    &&& g.name matches Some(n) && n@ == m.id.0@
    &&& g.annotations == spec_opt_annotations(m.annotations)
    &&& g.entity_associations@.len() == 0
    &&& g.visibility is None && g.span_name is None
    &&& g.requirement_level is None
}

/// Converts a version 2 entity refinement into a version 1 entity group.
pub fn v2_entity_refinement_to_v1(r: crate::v2::entity::EntityRefinement) -> (g: V1GroupSpec)
    ensures
        spec_v2_entity_refinement_to_v1(r, g),
{
    let attributes = entity_attributes_to_v1(r.identity, r.description);
    let extends = concat2("entity.", r.ref_.as_str());
    let name = r.id.0.clone();
    V1GroupSpec {
        id: r.id.into_v1(),
        type_: V1GroupType::Entity,
        brief: unwrap_or_empty(r.brief),
        note: unwrap_or_empty(r.note),
        prefix: String::new(),
        extends: Some(extends),
        include_groups: Vec::new(),
        stability: r.stability,
        deprecated: r.deprecated,
        attributes,
        constraints: None,
        span_kind: None,
        events: Vec::new(),
        metric_name: None,
        instrument: None,
        unit: None,
        name: Some(name),
        display_name: None,
        body: None,
        annotations: annotations_to_v1(r.annotations),
        entity_associations: Vec::new(),
        visibility: None,
        is_v2: true,
        span_name: None,
        requirement_level: None,
    }
}

/// The version 1 group of a version 2 attribute group.
pub open spec fn spec_v2_attribute_group_to_v1(
    ag: crate::v2::attribute_group::AttributeGroup,
    g: V1GroupSpec,
) -> bool {
    &&& spec_v2_group_defaults(g)
    &&& g.type_ == V1GroupType::AttributeGroup
    &&& g.extends is None
    &&& g.span_kind is None && g.events@.len() == 0
    &&& g.metric_name is None && g.instrument is None && g.unit is None
    &&& g.name is None && g.entity_associations@.len() == 0
    &&& g.span_name is None && g.requirement_level is None
    &&& match ag {
        crate::v2::attribute_group::AttributeGroup::Internal(i) => {
            &&& g.id@ == i.id.0@ && g.brief@ == i.id.0@ && g.note@.len() == 0
            &&& spec_split_to_v1(i.attributes@, g.attributes@, g.include_groups@)
            &&& g.stability is None && g.deprecated is None && g.annotations is None
            &&& g.visibility == Some(crate::v2::attribute_group::AttributeGroupVisibilitySpec::Internal)
        },
        crate::v2::attribute_group::AttributeGroup::Public(p) => {
            &&& g.id@ == p.id.0@ && g.brief == p.common.brief && g.note == p.common.note
            &&& spec_split_to_v1(p.attributes@, g.attributes@, g.include_groups@)
            &&& g.stability == Some(p.common.stability) && g.deprecated == p.common.deprecated
            &&& g.annotations == spec_opt_annotations(p.common.annotations)
            &&& g.visibility == Some(crate::v2::attribute_group::AttributeGroupVisibilitySpec::Public)
        },
    }
}

/// Converts a version 2 attribute group into a version 1 attribute group.
pub fn v2_attribute_group_to_v1(ag: crate::v2::attribute_group::AttributeGroup) -> (r: V1GroupSpec)
    ensures
        spec_v2_attribute_group_to_v1(ag, r),
{
    match ag {
        crate::v2::attribute_group::AttributeGroup::Internal(internal) => {
            let (attributes, include_groups) = split_attributes_and_groups_to_v1(internal.attributes);
            let brief = internal.id.0.clone();
            V1GroupSpec {
                id: internal.id.into_v1(),
                type_: V1GroupType::AttributeGroup,
                brief,
                note: String::new(),
                prefix: String::new(),
                extends: None,
                include_groups,
                stability: None,
                deprecated: None,
                attributes,
                constraints: None,
                span_kind: None,
                events: Vec::new(),
                metric_name: None,
                instrument: None,
                unit: None,
                name: None,
                display_name: None,
                body: None,
                annotations: None,
                entity_associations: Vec::new(),
                visibility: Some(crate::v2::attribute_group::AttributeGroupVisibilitySpec::Internal),
                is_v2: true,
                span_name: None,
                requirement_level: None,
            }
        },
        crate::v2::attribute_group::AttributeGroup::Public(public) => {
            let (attributes, include_groups) = split_attributes_and_groups_to_v1(public.attributes);
            V1GroupSpec {
                id: public.id.into_v1(),
                type_: V1GroupType::AttributeGroup,
                brief: public.common.brief,
                note: public.common.note,
                prefix: String::new(),
                extends: None,
                include_groups,
                stability: Some(public.common.stability),
                deprecated: public.common.deprecated,
                attributes,
                constraints: None,
                span_kind: None,
                events: Vec::new(),
                metric_name: None,
                instrument: None,
                unit: None,
                name: None,
                display_name: None,
                body: None,
                annotations: annotations_to_v1(public.common.annotations),
                entity_associations: Vec::new(),
                visibility: Some(crate::v2::attribute_group::AttributeGroupVisibilitySpec::Public),
                is_v2: true,
                span_name: None,
                requirement_level: None,
            }
        },
    }
}

/// The version 1 wildcards of version 2 wildcards: the same patterns.
pub open spec fn spec_wildcards_to_v1(
    w: Option<Vec<crate::v2::GroupWildcard>>,
    r: Option<Vec<V1GroupWildcard>>,
) -> bool {
    match w {
        None => r is None,
        Some(v) => r matches Some(x) && x@.len() == v@.len() && forall|i: int|
            0 <= i < v@.len() ==> (#[trigger] x@[i]).0 == v@[i].0,
    }
}

/// Converts one wildcard.
fn wildcard_to_v1(w: crate::v2::GroupWildcard) -> (r: V1GroupWildcard)
    ensures
        r.0 == w.0,
{
    V1GroupWildcard(w.0)
}

/// Converts optional wildcards.
fn wildcards_to_v1(w: Option<Vec<crate::v2::GroupWildcard>>) -> (r: Option<Vec<V1GroupWildcard>>)
    ensures
        spec_wildcards_to_v1(w, r),
{
    match w {
        None => None,
        Some(v) => Some(map_vec(v, wildcard_to_v1)),
    }
}

/// The version 1 imports of version 2 imports: the same patterns.
pub open spec fn spec_v2_imports_to_v1(i: Option<crate::v2::Imports>, r: Option<V1Imports>) -> bool {
    match i {
        None => r is None,
        Some(x) => r matches Some(y) && spec_wildcards_to_v1(x.metrics, y.metrics)
            && spec_wildcards_to_v1(x.events, y.events) && spec_wildcards_to_v1(x.entities, y.entities)
            && spec_wildcards_to_v1(x.spans, y.spans) && spec_wildcards_to_v1(
            x.attribute_groups,
            y.attribute_groups,
        ),
    }
}

/// Converts version 2 imports to version 1.
pub fn v2_imports_to_v1(imports: Option<crate::v2::Imports>) -> (r: Option<V1Imports>)
    ensures
        spec_v2_imports_to_v1(imports, r),
{
    match imports {
        None => None,
        Some(i) => Some(
            V1Imports {
                metrics: wildcards_to_v1(i.metrics),
                events: wildcards_to_v1(i.events),
                entities: wildcards_to_v1(i.entities),
                spans: wildcards_to_v1(i.spans),
                attribute_groups: wildcards_to_v1(i.attribute_groups),
            },
        ),
    }
}

/// Each converted element sits in `out` from position `off` on, in order.
pub open spec fn maps_onto<A>(
    src: Seq<A>,
    out: Seq<V1GroupSpec>,
    off: int,
    conv: spec_fn(A, V1GroupSpec) -> bool,
) -> bool {
    &&& 0 <= off && off + src.len() <= out.len()
    &&& forall|i: int| 0 <= i < src.len() ==> conv(src[i], #[trigger] out[off + i])
}

/// Appending to `out` keeps every segment already placed in it.
proof fn lemma_maps_onto_extend<A>(
    src: Seq<A>,
    out: Seq<V1GroupSpec>,
    off: int,
    conv: spec_fn(A, V1GroupSpec) -> bool,
    more: Seq<V1GroupSpec>,
)
    requires
        maps_onto(src, out, off, conv),
    ensures
        maps_onto(src, out + more, off, conv),
{
    assert forall|i: int| 0 <= i < src.len() implies conv(src[i], #[trigger] (out + more)[off + i]) by {
        assert((out + more)[off + i] == out[off + i]);
    }
}

/// Appending the converted elements places them at the end of `out`.
proof fn lemma_maps_onto_append<A>(
    src: Seq<A>,
    out: Seq<V1GroupSpec>,
    conv: spec_fn(A, V1GroupSpec) -> bool,
    more: Seq<V1GroupSpec>,
)
    requires
        more.len() == src.len(),
        forall|i: int| 0 <= i < src.len() ==> conv(src[i], #[trigger] more[i]),
    ensures
        maps_onto(src, out + more, out.len() as int, conv),
{
    assert forall|i: int| 0 <= i < src.len() implies conv(
        src[i],
        #[trigger] (out + more)[out.len() + i],
    ) by {
        assert((out + more)[out.len() + i] == more[i]);
    }
}

/// The group that gathers the attribute definitions of a version 2 file.
pub open spec fn spec_synthetic_group(
    attributes: Seq<AttributeDef>,
    file_name: Seq<char>,
    g: V1GroupSpec,
) -> bool {
    &&& spec_v2_group_defaults(g)
    &&& g.id@ == "registry."@ + file_name
    &&& g.type_ == V1GroupType::AttributeGroup
    &&& g.brief@ == "<synthetic v2>"@ && g.note@.len() == 0
    &&& g.extends is None && g.include_groups@.len() == 0
    &&& g.stability is None && g.deprecated is None
    &&& g.attributes@.len() == attributes.len()
    &&& forall|i: int|
        0 <= i < attributes.len() ==> spec_v2_attribute_to_v1(attributes[i], #[trigger] g.attributes@[i])
    &&& g.span_kind is None && g.events@.len() == 0
    &&& g.metric_name is None && g.instrument is None && g.unit is None
    &&& g.name is None && g.annotations is None
    &&& g.entity_associations@.len() == 0
    &&& g.visibility is None && g.span_name is None && g.requirement_level is None
}

/// Where each kind of version 2 group starts among the version 1 groups:
/// the attribute definitions first (one group, only when there are any),
/// then entities, events, metrics, spans, attribute groups, and the entity,
/// event, metric and span refinements.
pub open spec fn spec_v2_offsets(spec: SemConvSpecV2) -> Seq<int> {
    let o0: int = if spec.attributes@.len() == 0 { 0 } else { 1 };
    let o1 = o0 + spec.entities@.len();
    let o2 = o1 + spec.events@.len();
    let o3 = o2 + spec.metrics@.len();
    let o4 = o3 + spec.spans@.len();
    let o5 = o4 + spec.attribute_groups@.len();
    let o6 = o5 + spec.entity_refinements@.len();
    let o7 = o6 + spec.event_refinements@.len();
    let o8 = o7 + spec.metric_refinements@.len();
    let o9 = o8 + spec.span_refinements@.len();
    seq![o0, o1, o2, o3, o4, o5, o6, o7, o8, o9]
}

/// The version 1 file of a version 2 file named `file_name`.
pub open spec fn spec_v2_to_v1_spec(spec: SemConvSpecV2, file_name: Seq<char>, r: SemConvSpecV1) -> bool {
    let g = r.groups@;
    let o = spec_v2_offsets(spec);
    &&& g.len() == o[9]
    &&& spec.attributes@.len() > 0 ==> spec_synthetic_group(spec.attributes@, file_name, g[0])
    &&& maps_onto(spec.entities@, g, o[0], |a, x| spec_v2_entity_to_v1(a, x))
    &&& maps_onto(spec.events@, g, o[1], |a, x| spec_v2_event_to_v1(a, x))
    &&& maps_onto(spec.metrics@, g, o[2], |a, x| spec_v2_metric_to_v1(a, x))
    &&& maps_onto(spec.spans@, g, o[3], |a, x| spec_v2_span_to_v1(a, x))
    &&& maps_onto(spec.attribute_groups@, g, o[4], |a, x| spec_v2_attribute_group_to_v1(a, x))
    &&& maps_onto(spec.entity_refinements@, g, o[5], |a, x| spec_v2_entity_refinement_to_v1(a, x))
    &&& maps_onto(spec.event_refinements@, g, o[6], |a, x| spec_v2_event_refinement_to_v1(a, x))
    &&& maps_onto(spec.metric_refinements@, g, o[7], |a, x| spec_v2_metric_refinement_to_v1(a, x))
    &&& maps_onto(spec.span_refinements@, g, o[8], |a, x| spec_v2_span_refinement_to_v1(a, x))
    &&& spec_v2_imports_to_v1(spec.imports, r.imports)
}

/// Converts a version 2 file into a version 1 file: the attribute
/// definitions go to one attribute group named after the file, and every
/// other group or refinement becomes one version 1 group, in the order of
/// `spec_v2_offsets`.
pub fn v2_to_v1_spec(spec: SemConvSpecV2, file_name: &str) -> (r: SemConvSpecV1)
    ensures
        spec_v2_to_v1_spec(spec, file_name@, r),
{
    let ghost sp = spec;
    let mut groups: Vec<V1GroupSpec> = Vec::new();
    if spec.attributes.len() > 0 {
        let attributes = map_vec(spec.attributes, v2_attribute_to_v1);
        groups.push(
            V1GroupSpec {
                id: concat2("registry.", file_name),
                type_: V1GroupType::AttributeGroup,
                brief: to_owned_string("<synthetic v2>"),
                note: String::new(),
                prefix: String::new(),
                extends: None,
                include_groups: Vec::new(),
                stability: None,
                deprecated: None,
                attributes,
                constraints: None,
                span_kind: None,
                events: Vec::new(),
                metric_name: None,
                instrument: None,
                unit: None,
                name: None,
                display_name: None,
                body: None,
                annotations: None,
                entity_associations: Vec::new(),
                visibility: None,
                is_v2: true,
                span_name: None,
                requirement_level: None,
            },
        );
    }
    let ghost g0 = groups@;
    let mut more = map_vec(spec.entities, v2_entity_to_v1);
    let ghost m1 = more@;
    groups.append(&mut more);
    let ghost g1 = groups@;
    proof {
        lemma_maps_onto_append(sp.entities@, g0, |a, x| spec_v2_entity_to_v1(a, x), m1);
        assert(g1[0] == g0[0] || g0.len() == 0);
    }
    let mut more = map_vec(spec.events, v2_event_to_v1);
    let ghost m2 = more@;
    groups.append(&mut more);
    let ghost g2 = groups@;
    proof {
        lemma_maps_onto_extend(sp.entities@, g1, g0.len() as int, |a, x| spec_v2_entity_to_v1(a, x), m2);
        lemma_maps_onto_append(sp.events@, g1, |a, x| spec_v2_event_to_v1(a, x), m2);
        assert(g2[0] == g0[0] || g0.len() == 0);
    }
    let mut more = map_vec(spec.metrics, v2_metric_to_v1);
    let ghost m3 = more@;
    groups.append(&mut more);
    let ghost g3 = groups@;
    proof {
        lemma_maps_onto_extend(sp.entities@, g2, g0.len() as int, |a, x| spec_v2_entity_to_v1(a, x), m3);
        lemma_maps_onto_extend(sp.events@, g2, g1.len() as int, |a, x| spec_v2_event_to_v1(a, x), m3);
        lemma_maps_onto_append(sp.metrics@, g2, |a, x| spec_v2_metric_to_v1(a, x), m3);
        assert(g3[0] == g0[0] || g0.len() == 0);
    }
    let mut more = map_vec(spec.spans, v2_span_to_v1);
    let ghost m4 = more@;
    groups.append(&mut more);
    let ghost g4 = groups@;
    proof {
        lemma_maps_onto_extend(sp.entities@, g3, g0.len() as int, |a, x| spec_v2_entity_to_v1(a, x), m4);
        lemma_maps_onto_extend(sp.events@, g3, g1.len() as int, |a, x| spec_v2_event_to_v1(a, x), m4);
        lemma_maps_onto_extend(sp.metrics@, g3, g2.len() as int, |a, x| spec_v2_metric_to_v1(a, x), m4);
        lemma_maps_onto_append(sp.spans@, g3, |a, x| spec_v2_span_to_v1(a, x), m4);
        assert(g4[0] == g0[0] || g0.len() == 0);
    }
    let mut more = map_vec(spec.attribute_groups, v2_attribute_group_to_v1);
    let ghost m5 = more@;
    groups.append(&mut more);
    let ghost g5 = groups@;
    proof {
        lemma_maps_onto_extend(sp.entities@, g4, g0.len() as int, |a, x| spec_v2_entity_to_v1(a, x), m5);
        lemma_maps_onto_extend(sp.events@, g4, g1.len() as int, |a, x| spec_v2_event_to_v1(a, x), m5);
        lemma_maps_onto_extend(sp.metrics@, g4, g2.len() as int, |a, x| spec_v2_metric_to_v1(a, x), m5);
        lemma_maps_onto_extend(sp.spans@, g4, g3.len() as int, |a, x| spec_v2_span_to_v1(a, x), m5);
        lemma_maps_onto_append(sp.attribute_groups@, g4, |a, x| spec_v2_attribute_group_to_v1(a, x), m5);
        assert(g5[0] == g0[0] || g0.len() == 0);
    }
    let mut more = map_vec(spec.entity_refinements, v2_entity_refinement_to_v1);
    let ghost m6 = more@;
    groups.append(&mut more);
    let ghost g6 = groups@;
    proof {
        lemma_maps_onto_extend(sp.entities@, g5, g0.len() as int, |a, x| spec_v2_entity_to_v1(a, x), m6);
        lemma_maps_onto_extend(sp.events@, g5, g1.len() as int, |a, x| spec_v2_event_to_v1(a, x), m6);
        lemma_maps_onto_extend(sp.metrics@, g5, g2.len() as int, |a, x| spec_v2_metric_to_v1(a, x), m6);
        lemma_maps_onto_extend(sp.spans@, g5, g3.len() as int, |a, x| spec_v2_span_to_v1(a, x), m6);
        lemma_maps_onto_extend(sp.attribute_groups@, g5, g4.len() as int, |a, x| spec_v2_attribute_group_to_v1(a, x), m6);
        lemma_maps_onto_append(sp.entity_refinements@, g5, |a, x| spec_v2_entity_refinement_to_v1(a, x), m6);
        assert(g6[0] == g0[0] || g0.len() == 0);
    }
    let mut more = map_vec(spec.event_refinements, v2_event_refinement_to_v1);
    let ghost m7 = more@;
    groups.append(&mut more);
    let ghost g7 = groups@;
    proof {
        lemma_maps_onto_extend(sp.entities@, g6, g0.len() as int, |a, x| spec_v2_entity_to_v1(a, x), m7);
        lemma_maps_onto_extend(sp.events@, g6, g1.len() as int, |a, x| spec_v2_event_to_v1(a, x), m7);
        lemma_maps_onto_extend(sp.metrics@, g6, g2.len() as int, |a, x| spec_v2_metric_to_v1(a, x), m7);
        lemma_maps_onto_extend(sp.spans@, g6, g3.len() as int, |a, x| spec_v2_span_to_v1(a, x), m7);
        lemma_maps_onto_extend(sp.attribute_groups@, g6, g4.len() as int, |a, x| spec_v2_attribute_group_to_v1(a, x), m7);
        lemma_maps_onto_extend(sp.entity_refinements@, g6, g5.len() as int, |a, x| spec_v2_entity_refinement_to_v1(a, x), m7);
        lemma_maps_onto_append(sp.event_refinements@, g6, |a, x| spec_v2_event_refinement_to_v1(a, x), m7);
        assert(g7[0] == g0[0] || g0.len() == 0);
    }
    let mut more = map_vec(spec.metric_refinements, v2_metric_refinement_to_v1);
    let ghost m8 = more@;
    groups.append(&mut more);
    let ghost g8 = groups@;
    proof {
        lemma_maps_onto_extend(sp.entities@, g7, g0.len() as int, |a, x| spec_v2_entity_to_v1(a, x), m8);
        lemma_maps_onto_extend(sp.events@, g7, g1.len() as int, |a, x| spec_v2_event_to_v1(a, x), m8);
        lemma_maps_onto_extend(sp.metrics@, g7, g2.len() as int, |a, x| spec_v2_metric_to_v1(a, x), m8);
        lemma_maps_onto_extend(sp.spans@, g7, g3.len() as int, |a, x| spec_v2_span_to_v1(a, x), m8);
        lemma_maps_onto_extend(sp.attribute_groups@, g7, g4.len() as int, |a, x| spec_v2_attribute_group_to_v1(a, x), m8);
        lemma_maps_onto_extend(sp.entity_refinements@, g7, g5.len() as int, |a, x| spec_v2_entity_refinement_to_v1(a, x), m8);
        lemma_maps_onto_extend(sp.event_refinements@, g7, g6.len() as int, |a, x| spec_v2_event_refinement_to_v1(a, x), m8);
        lemma_maps_onto_append(sp.metric_refinements@, g7, |a, x| spec_v2_metric_refinement_to_v1(a, x), m8);
        assert(g8[0] == g0[0] || g0.len() == 0);
    }
    let mut more = map_vec(spec.span_refinements, v2_span_refinement_to_v1);
    let ghost m9 = more@;
    groups.append(&mut more);
    let ghost g9 = groups@;
    proof {
        lemma_maps_onto_extend(sp.entities@, g8, g0.len() as int, |a, x| spec_v2_entity_to_v1(a, x), m9);
        lemma_maps_onto_extend(sp.events@, g8, g1.len() as int, |a, x| spec_v2_event_to_v1(a, x), m9);
        lemma_maps_onto_extend(sp.metrics@, g8, g2.len() as int, |a, x| spec_v2_metric_to_v1(a, x), m9);
        lemma_maps_onto_extend(sp.spans@, g8, g3.len() as int, |a, x| spec_v2_span_to_v1(a, x), m9);
        lemma_maps_onto_extend(sp.attribute_groups@, g8, g4.len() as int, |a, x| spec_v2_attribute_group_to_v1(a, x), m9);
        lemma_maps_onto_extend(sp.entity_refinements@, g8, g5.len() as int, |a, x| spec_v2_entity_refinement_to_v1(a, x), m9);
        lemma_maps_onto_extend(sp.event_refinements@, g8, g6.len() as int, |a, x| spec_v2_event_refinement_to_v1(a, x), m9);
        lemma_maps_onto_extend(sp.metric_refinements@, g8, g7.len() as int, |a, x| spec_v2_metric_refinement_to_v1(a, x), m9);
        lemma_maps_onto_append(sp.span_refinements@, g8, |a, x| spec_v2_span_refinement_to_v1(a, x), m9);
        assert(g9[0] == g0[0] || g0.len() == 0);
    }
    SemConvSpecV1::new(groups, v2_imports_to_v1(spec.imports))
}

} // verus!
