//! What a conversion to the other version and back gives: the value itself,
//! for every leaf type, and for attribute types and examples up to the
//! contents of their vectors; and where the groups of a version 2 file go
//! in the version 1 file it converts to.

use vstd::prelude::*;
use crate::attribute::{
    AttributeType as V1AttributeType, BasicRequirementLevelSpec as V1BasicRequirementLevelSpec,
    EnumEntriesSpec as V1EnumEntriesSpec, Examples as V1Examples,
    PrimitiveOrArrayTypeSpec as V1PrimitiveOrArrayTypeSpec, RequirementLevel as V1RequirementLevel,
    TemplateTypeSpec as V1TemplateTypeSpec, ValueSpec as V1ValueSpec,
};
use crate::convert::{
    spec_v1_attribute_type_to_v2, spec_v1_basic_level_to_v2, spec_v1_enum_entry_to_v2, spec_v1_examples_to_v2, spec_v1_instrument_to_v2, spec_v1_primitive_to_v2, spec_v1_requirement_level_to_v2, spec_v1_span_kind_to_v2, spec_v1_template_to_v2, spec_v1_value_to_v2, spec_v2_attribute_type_to_v1, spec_v2_basic_level_to_v1, spec_v2_enum_entry_to_v1, spec_v2_examples_to_v1, spec_v2_instrument_to_v1, spec_v2_primitive_to_v1, spec_v2_requirement_level_to_v1, spec_v2_span_kind_to_v1, spec_v2_template_to_v1, spec_v2_value_to_v1,
};
use crate::convert::{
    spec_synthetic_group, spec_v2_attribute_group_to_v1, spec_v2_entity_refinement_to_v1,
    spec_v2_entity_to_v1, spec_v2_event_refinement_to_v1, spec_v2_event_to_v1,
    spec_v2_metric_refinement_to_v1, spec_v2_metric_to_v1, spec_v2_span_refinement_to_v1,
    spec_v2_span_to_v1, spec_v2_to_v1_spec,
};
use crate::group::{GroupType as V1GroupType, InstrumentSpec as V1InstrumentSpec, SpanKindSpec as V1SpanKindSpec};
use crate::v1::semconv::SemConvSpecV1;
use crate::v2::SemConvSpecV2;
use crate::v2::attribute::{
    AttributeType as V2AttributeType, BasicRequirementLevelSpec as V2BasicRequirementLevelSpec,
    EnumEntriesSpec as V2EnumEntriesSpec, Examples as V2Examples,
    PrimitiveOrArrayTypeSpec as V2PrimitiveOrArrayTypeSpec, RequirementLevel as V2RequirementLevel,
    TemplateTypeSpec as V2TemplateTypeSpec, ValueSpec as V2ValueSpec,
};
use crate::v2::metric::InstrumentSpec as V2InstrumentSpec;
use crate::v2::span::SpanKindSpec as V2SpanKindSpec;

verus! {

/// A version 1 primitive or array type survives a trip through version 2.
pub proof fn law_primitive_round_trip_v1(t: V1PrimitiveOrArrayTypeSpec)
    ensures
        spec_v2_primitive_to_v1(spec_v1_primitive_to_v2(t)) == t,
{
}

/// A version 2 primitive or array type survives a trip through version 1.
pub proof fn law_primitive_round_trip_v2(t: V2PrimitiveOrArrayTypeSpec)
    ensures
        spec_v1_primitive_to_v2(spec_v2_primitive_to_v1(t)) == t,
{
}

/// A version 1 template type survives a trip through version 2.
pub proof fn law_template_round_trip_v1(t: V1TemplateTypeSpec)
    ensures
        spec_v2_template_to_v1(spec_v1_template_to_v2(t)) == t,
{
}

/// A version 2 template type survives a trip through version 1.
pub proof fn law_template_round_trip_v2(t: V2TemplateTypeSpec)
    ensures
        spec_v1_template_to_v2(spec_v2_template_to_v1(t)) == t,
{
}

/// A version 1 value survives a trip through version 2.
pub proof fn law_value_round_trip_v1(v: V1ValueSpec)
    ensures
        spec_v2_value_to_v1(spec_v1_value_to_v2(v)) == v,
{
}

/// A version 2 value survives a trip through version 1.
pub proof fn law_value_round_trip_v2(v: V2ValueSpec)
    ensures
        spec_v1_value_to_v2(spec_v2_value_to_v1(v)) == v,
{
}

/// A version 1 enum member survives a trip through version 2.
pub proof fn law_enum_entry_round_trip_v1(e: V1EnumEntriesSpec)
    ensures
        spec_v2_enum_entry_to_v1(spec_v1_enum_entry_to_v2(e)) == e,
{
    law_value_round_trip_v1(e.value);
}

/// A version 2 enum member survives a trip through version 1.
pub proof fn law_enum_entry_round_trip_v2(e: V2EnumEntriesSpec)
    ensures
        spec_v1_enum_entry_to_v2(spec_v2_enum_entry_to_v1(e)) == e,
{
    law_value_round_trip_v2(e.value);
}

/// A version 1 basic requirement level survives a trip through version 2.
pub proof fn law_basic_level_round_trip_v1(b: V1BasicRequirementLevelSpec)
    ensures
        spec_v2_basic_level_to_v1(spec_v1_basic_level_to_v2(b)) == b,
{
}

/// A version 2 basic requirement level survives a trip through version 1.
pub proof fn law_basic_level_round_trip_v2(b: V2BasicRequirementLevelSpec)
    ensures
        spec_v1_basic_level_to_v2(spec_v2_basic_level_to_v1(b)) == b,
{
}

/// A version 1 requirement level survives a trip through version 2.
pub proof fn law_requirement_level_round_trip_v1(r: V1RequirementLevel)
    ensures
        spec_v2_requirement_level_to_v1(spec_v1_requirement_level_to_v2(r)) == r,
{
}

/// A version 2 requirement level survives a trip through version 1.
pub proof fn law_requirement_level_round_trip_v2(r: V2RequirementLevel)
    ensures
        spec_v1_requirement_level_to_v2(spec_v2_requirement_level_to_v1(r)) == r,
{
}

/// A version 1 instrument survives a trip through version 2.
pub proof fn law_instrument_round_trip_v1(i: V1InstrumentSpec)
    ensures
        spec_v2_instrument_to_v1(spec_v1_instrument_to_v2(i)) == i,
{
}

/// A version 2 instrument survives a trip through version 1.
pub proof fn law_instrument_round_trip_v2(i: V2InstrumentSpec)
    ensures
        spec_v1_instrument_to_v2(spec_v2_instrument_to_v1(i)) == i,
{
}

/// A version 1 span kind survives a trip through version 2.
pub proof fn law_span_kind_round_trip_v1(k: V1SpanKindSpec)
    ensures
        spec_v2_span_kind_to_v1(spec_v1_span_kind_to_v2(k)) == k,
{
}

/// A version 2 span kind survives a trip through version 1.
pub proof fn law_span_kind_round_trip_v2(k: V2SpanKindSpec)
    ensures
        spec_v1_span_kind_to_v2(spec_v2_span_kind_to_v1(k)) == k,
{
}

/// Two version 2 attribute types of the same kind with the same members.
pub open spec fn same_v2_attribute_type(a: V2AttributeType, b: V2AttributeType) -> bool {
    match a {
        V2AttributeType::Enum { members } => b matches V2AttributeType::Enum { members: m }
            && m@ == members@,
        _ => b == a,
    }
}

/// Two version 1 attribute types of the same kind with the same members and
/// the same `allow_custom_values`.
pub open spec fn same_v1_attribute_type(a: V1AttributeType, b: V1AttributeType) -> bool {
    match a {
        V1AttributeType::Enum { allow_custom_values, members } => b matches V1AttributeType::Enum {
            allow_custom_values: c,
            members: m,
        } && c == allow_custom_values && m@ == members@,
        _ => b == a,
    }
}

/// A version 2 attribute type survives a trip through version 1.
pub proof fn law_attribute_type_round_trip_v2(t: V2AttributeType, v1: V1AttributeType, back: V2AttributeType)
    requires
        spec_v2_attribute_type_to_v1(t, v1),
        spec_v1_attribute_type_to_v2(v1, back),
    ensures
        same_v2_attribute_type(t, back),
{
    if let V2AttributeType::Enum { members } = t {
        if let V1AttributeType::Enum { members: m1, .. } = v1 {
            if let V2AttributeType::Enum { members: m2 } = back {
                assert forall|i: int| 0 <= i < members@.len() implies m2@[i] == members@[i] by {
                    law_enum_entry_round_trip_v2(members@[i]);
                }
                assert(m2@ =~= members@);
            }
        }
    }
}

/// A version 1 attribute type survives a trip through version 2, except for
/// an enum's `allow_custom_values`, which version 2 does not have: the trip
/// gives the type back when that flag is unset.
pub proof fn law_attribute_type_round_trip_v1(t: V1AttributeType, v2: V2AttributeType, back: V1AttributeType)
    requires
        spec_v1_attribute_type_to_v2(t, v2),
        spec_v2_attribute_type_to_v1(v2, back),
        t matches V1AttributeType::Enum { allow_custom_values, .. } ==> allow_custom_values is None,
    ensures
        same_v1_attribute_type(t, back),
{
    if let V1AttributeType::Enum { members, .. } = t {
        if let V2AttributeType::Enum { members: m1 } = v2 {
            if let V1AttributeType::Enum { members: m2, .. } = back {
                assert forall|i: int| 0 <= i < members@.len() implies m2@[i] == members@[i] by {
                    law_enum_entry_round_trip_v1(members@[i]);
                }
                assert(m2@ =~= members@);
            }
        }
    }
}

/// Two version 2 examples of the same kind holding the same values.
pub open spec fn same_v2_examples(a: V2Examples, b: V2Examples) -> bool {
    match a {
        V2Examples::Anys(v) => b matches V2Examples::Anys(w) && w@ == v@,
        _ => b == a,
    }
}

/// Two version 1 examples of the same kind holding the same values.
pub open spec fn same_v1_examples(a: V1Examples, b: V1Examples) -> bool {
    match a {
        V1Examples::Anys(v) => b matches V1Examples::Anys(w) && w@ == v@,
        _ => b == a,
    }
}

/// Version 2 examples survive a trip through version 1.
pub proof fn law_examples_round_trip_v2(e: V2Examples, v1: V1Examples, back: V2Examples)
    requires
        spec_v2_examples_to_v1(e, v1),
        spec_v1_examples_to_v2(v1, back),
    ensures
        same_v2_examples(e, back),
{
    match e {
        V2Examples::Any(a) => {
            law_value_round_trip_v2(a);
        },
        V2Examples::Anys(v) => {
            if let V1Examples::Anys(w) = v1 {
                if let V2Examples::Anys(b) = back {
                    assert forall|i: int| 0 <= i < v@.len() implies b@[i] == v@[i] by {
                        law_value_round_trip_v2(v@[i]);
                    }
                    assert(b@ =~= v@);
                }
            }
        },
        _ => {},
    }
}

/// Version 1 examples survive a trip through version 2.
pub proof fn law_examples_round_trip_v1(e: V1Examples, v2: V2Examples, back: V1Examples)
    requires
        spec_v1_examples_to_v2(e, v2),
        spec_v2_examples_to_v1(v2, back),
    ensures
        same_v1_examples(e, back),
{
    match e {
        V1Examples::Any(a) => {
            law_value_round_trip_v1(a);
        },
        V1Examples::Anys(v) => {
            if let V2Examples::Anys(w) = v2 {
                if let V1Examples::Anys(b) = back {
                    assert forall|i: int| 0 <= i < v@.len() implies b@[i] == v@[i] by {
                        law_value_round_trip_v1(v@[i]);
                    }
                    assert(b@ =~= v@);
                }
            }
        },
        _ => {},
    }
}

/// A version 2 file becomes one version 1 group for its attribute
/// definitions (when it has any), first, then one group for each entity,
/// event, metric, span, attribute group, entity refinement, event
/// refinement, metric refinement and span refinement, kind after kind in
/// that order, each kind in its own order, and nothing else.
pub proof fn law_v2_to_v1_group_order(spec: SemConvSpecV2, file_name: Seq<char>, r: SemConvSpecV1)
    requires
        spec_v2_to_v1_spec(spec, file_name, r),
    ensures
        ({
            let g = r.groups@;
            let a: int = if spec.attributes@.len() > 0 { 1 } else { 0 };
            let e0 = a;
            let e1 = e0 + spec.entities@.len();
            let e2 = e1 + spec.events@.len();
            let e3 = e2 + spec.metrics@.len();
            let e4 = e3 + spec.spans@.len();
            let e5 = e4 + spec.attribute_groups@.len();
            let e6 = e5 + spec.entity_refinements@.len();
            let e7 = e6 + spec.event_refinements@.len();
            let e8 = e7 + spec.metric_refinements@.len();
            &&& g.len() == e8 + spec.span_refinements@.len()
            &&& spec.attributes@.len() > 0 ==> spec_synthetic_group(spec.attributes@, file_name, g[0])
            &&& forall|i: int| 0 <= i < spec.entities@.len() ==> spec_v2_entity_to_v1(#[trigger] spec.entities@[i], g[e0 + i])
            &&& forall|i: int| 0 <= i < spec.events@.len() ==> spec_v2_event_to_v1(#[trigger] spec.events@[i], g[e1 + i])
            &&& forall|i: int| 0 <= i < spec.metrics@.len() ==> spec_v2_metric_to_v1(#[trigger] spec.metrics@[i], g[e2 + i])
            &&& forall|i: int| 0 <= i < spec.spans@.len() ==> spec_v2_span_to_v1(#[trigger] spec.spans@[i], g[e3 + i])
            &&& forall|i: int|
                0 <= i < spec.attribute_groups@.len() ==> spec_v2_attribute_group_to_v1(
                    #[trigger] spec.attribute_groups@[i],
                    g[e4 + i],
                )
            &&& forall|i: int|
                0 <= i < spec.entity_refinements@.len() ==> spec_v2_entity_refinement_to_v1(
                    #[trigger] spec.entity_refinements@[i],
                    g[e5 + i],
                )
            &&& forall|i: int|
                0 <= i < spec.event_refinements@.len() ==> spec_v2_event_refinement_to_v1(
                    #[trigger] spec.event_refinements@[i],
                    g[e6 + i],
                )
            &&& forall|i: int|
                0 <= i < spec.metric_refinements@.len() ==> spec_v2_metric_refinement_to_v1(
                    #[trigger] spec.metric_refinements@[i],
                    g[e7 + i],
                )
            &&& forall|i: int|
                0 <= i < spec.span_refinements@.len() ==> spec_v2_span_refinement_to_v1(
                    #[trigger] spec.span_refinements@[i],
                    g[e8 + i],
                )
        }),
{
    let g = r.groups@;
    let o = crate::convert::spec_v2_offsets(spec);
    assert forall|i: int| 0 <= i < spec.entities@.len() implies spec_v2_entity_to_v1(#[trigger] spec.entities@[i], g[o[0] + i]) by {
        assert((|a, x| spec_v2_entity_to_v1(a, x))(spec.entities@[i], g[o[0] + i]));
    }
    assert forall|i: int| 0 <= i < spec.events@.len() implies spec_v2_event_to_v1(#[trigger] spec.events@[i], g[o[1] + i]) by {
        assert((|a, x| spec_v2_event_to_v1(a, x))(spec.events@[i], g[o[1] + i]));
    }
    assert forall|i: int| 0 <= i < spec.metrics@.len() implies spec_v2_metric_to_v1(#[trigger] spec.metrics@[i], g[o[2] + i]) by {
        assert((|a, x| spec_v2_metric_to_v1(a, x))(spec.metrics@[i], g[o[2] + i]));
    }
    assert forall|i: int| 0 <= i < spec.spans@.len() implies spec_v2_span_to_v1(#[trigger] spec.spans@[i], g[o[3] + i]) by {
        assert((|a, x| spec_v2_span_to_v1(a, x))(spec.spans@[i], g[o[3] + i]));
    }
    assert forall|i: int|
        0 <= i < spec.attribute_groups@.len() implies spec_v2_attribute_group_to_v1(
        #[trigger] spec.attribute_groups@[i],
        g[o[4] + i],
    ) by {
        assert((|a, x| spec_v2_attribute_group_to_v1(a, x))(spec.attribute_groups@[i], g[o[4] + i]));
    }
    assert forall|i: int|
        0 <= i < spec.entity_refinements@.len() implies spec_v2_entity_refinement_to_v1(
        #[trigger] spec.entity_refinements@[i],
        g[o[5] + i],
    ) by {
        assert((|a, x| spec_v2_entity_refinement_to_v1(a, x))(spec.entity_refinements@[i], g[o[5] + i]));
    }
    assert forall|i: int|
        0 <= i < spec.event_refinements@.len() implies spec_v2_event_refinement_to_v1(
        #[trigger] spec.event_refinements@[i],
        g[o[6] + i],
    ) by {
        assert((|a, x| spec_v2_event_refinement_to_v1(a, x))(spec.event_refinements@[i], g[o[6] + i]));
    }
    assert forall|i: int|
        0 <= i < spec.metric_refinements@.len() implies spec_v2_metric_refinement_to_v1(
        #[trigger] spec.metric_refinements@[i],
        g[o[7] + i],
    ) by {
        assert((|a, x| spec_v2_metric_refinement_to_v1(a, x))(spec.metric_refinements@[i], g[o[7] + i]));
    }
    assert forall|i: int|
        0 <= i < spec.span_refinements@.len() implies spec_v2_span_refinement_to_v1(
        #[trigger] spec.span_refinements@[i],
        g[o[8] + i],
    ) by {
        assert((|a, x| spec_v2_span_refinement_to_v1(a, x))(spec.span_refinements@[i], g[o[8] + i]));
    }
}

/// The text of an optional string, empty when absent.
pub open spec fn text_or_empty(s: Option<String>) -> Seq<char> {
    match s {
        Some(x) => x@,
        None => Seq::empty(),
    }
}

/// Each version 1 group that a version 2 file converts to says what its
/// source says: an entity, event, metric or span keeps its brief, note,
/// stability and deprecation, under the id `entity.`, `event.`, `metric.` or
/// `span.` followed by its type or name, with the version 1 type of the
/// same kind; a metric keeps its name, unit and instrument, a span its
/// kind; a public attribute group keeps its id, brief, note and stability,
/// an internal one is briefed by its id; a refinement keeps its id, brief,
/// note, stability and deprecation and extends the group it refines.
pub proof fn law_v2_to_v1_groups_keep_their_text(spec: SemConvSpecV2, file_name: Seq<char>, r: SemConvSpecV1)
    requires
        spec_v2_to_v1_spec(spec, file_name, r),
    ensures
        ({
            let g = r.groups@;
            let a: int = if spec.attributes@.len() > 0 { 1 } else { 0 };
            let e0 = a;
            let e1 = e0 + spec.entities@.len();
            let e2 = e1 + spec.events@.len();
            let e3 = e2 + spec.metrics@.len();
            let e4 = e3 + spec.spans@.len();
            let e5 = e4 + spec.attribute_groups@.len();
            let e6 = e5 + spec.entity_refinements@.len();
            let e7 = e6 + spec.event_refinements@.len();
            let e8 = e7 + spec.metric_refinements@.len();
            &&& spec.attributes@.len() > 0 ==> {
                let x = g[0];
                &&& x.id@ == "registry."@ + file_name
                &&& x.type_ == V1GroupType::AttributeGroup
                &&& x.brief@ == "<synthetic v2>"@ && x.note@.len() == 0
                &&& x.attributes@.len() == spec.attributes@.len()
                &&& forall|j: int|
                    0 <= j < spec.attributes@.len() ==> (#[trigger] x.attributes@[j]) is Id
                        && x.attributes@[j]->Id_id@ == spec.attributes@[j].key@
                        && x.attributes@[j]->Id_brief == Some(spec.attributes@[j].common.brief)
                        && x.attributes@[j]->Id_note == spec.attributes@[j].common.note
                        && x.attributes@[j]->Id_stability == Some(spec.attributes@[j].common.stability)
            }
            &&& forall|i: int|
                0 <= i < spec.entities@.len() ==> {
                    let m = #[trigger] spec.entities@[i];
                    let x = g[e0 + i];
                    &&& x.id@ == "entity."@ + m.type_.0@
                    &&& x.type_ == V1GroupType::Entity
                    &&& x.brief == m.common.brief && x.note == m.common.note
                    &&& x.extends is None
                    &&& x.stability == Some(m.common.stability) && x.deprecated == m.common.deprecated
                }
            &&& forall|i: int|
                0 <= i < spec.events@.len() ==> {
                    let m = #[trigger] spec.events@[i];
                    let x = g[e1 + i];
                    &&& x.id@ == "event."@ + m.name.0@
                    &&& x.type_ == V1GroupType::Event
                    &&& x.brief == m.common.brief && x.note == m.common.note
                    &&& x.extends is None
                    &&& x.stability == Some(m.common.stability) && x.deprecated == m.common.deprecated
                }
            &&& forall|i: int|
                0 <= i < spec.metrics@.len() ==> {
                    let m = #[trigger] spec.metrics@[i];
                    let x = g[e2 + i];
                    &&& x.id@ == "metric."@ + m.name.0@
                    &&& x.type_ == V1GroupType::Metric
                    &&& x.brief == m.common.brief && x.note == m.common.note
                    &&& x.extends is None
                    &&& x.stability == Some(m.common.stability) && x.deprecated == m.common.deprecated
                    &&& x.metric_name == Some(m.name.0) && x.unit == Some(m.unit)
                    &&& x.instrument == Some(spec_v2_instrument_to_v1(m.instrument))
                }
            &&& forall|i: int|
                0 <= i < spec.spans@.len() ==> {
                    let m = #[trigger] spec.spans@[i];
                    let x = g[e3 + i];
                    &&& x.id@ == "span."@ + m.type_.0@
                    &&& x.type_ == V1GroupType::Span
                    &&& x.brief == m.common.brief && x.note == m.common.note
                    &&& x.extends is None
                    &&& x.stability == Some(m.common.stability) && x.deprecated == m.common.deprecated
                    &&& x.span_kind == Some(spec_v2_span_kind_to_v1(m.kind))
                }
            &&& forall|i: int|
                0 <= i < spec.attribute_groups@.len() ==> {
                    let x = g[e4 + i];
                    &&& x.type_ == V1GroupType::AttributeGroup
                    &&& match #[trigger] spec.attribute_groups@[i] {
                        crate::v2::attribute_group::AttributeGroup::Internal(a) => x.id@ == a.id.0@
                            && x.brief@ == a.id.0@ && x.note@.len() == 0 && x.stability is None,
                        crate::v2::attribute_group::AttributeGroup::Public(a) => x.id@ == a.id.0@
                            && x.brief == a.common.brief && x.note == a.common.note && x.stability
                            == Some(a.common.stability),
                    }
                }
            &&& forall|i: int|
                0 <= i < spec.entity_refinements@.len() ==> {
                    let m = #[trigger] spec.entity_refinements@[i];
                    let x = g[e5 + i];
                    &&& x.id@ == m.id.0@
                    &&& x.type_ == V1GroupType::Entity
                    &&& x.brief@ == text_or_empty(m.brief) && x.note@ == text_or_empty(m.note)
                    &&& x.extends matches Some(e) && e@ == "entity."@ + m.ref_.0@
                    &&& x.stability == m.stability && x.deprecated == m.deprecated
                }
            &&& forall|i: int|
                0 <= i < spec.event_refinements@.len() ==> {
                    let m = #[trigger] spec.event_refinements@[i];
                    let x = g[e6 + i];
                    &&& x.id@ == m.id.0@
                    &&& x.type_ == V1GroupType::Event
                    &&& x.brief@ == text_or_empty(m.brief) && x.note@ == text_or_empty(m.note)
                    &&& x.extends matches Some(e) && e@ == "event."@ + m.ref_.0@
                    &&& x.stability == m.stability && x.deprecated == m.deprecated
                }
            &&& forall|i: int|
                0 <= i < spec.metric_refinements@.len() ==> {
                    let m = #[trigger] spec.metric_refinements@[i];
                    let x = g[e7 + i];
                    &&& x.id@ == m.id.0@
                    &&& x.type_ == V1GroupType::Metric
                    &&& x.brief@ == text_or_empty(m.brief) && x.note@ == text_or_empty(m.note)
                    &&& x.extends matches Some(e) && e@ == "metric."@ + m.ref_.0@
                    &&& x.stability == m.stability && x.deprecated == m.deprecated
                }
            &&& forall|i: int|
                0 <= i < spec.span_refinements@.len() ==> {
                    let m = #[trigger] spec.span_refinements@[i];
                    let x = g[e8 + i];
                    &&& x.id@ == m.id.0@
                    &&& x.type_ == V1GroupType::Span
                    &&& x.brief@ == text_or_empty(m.brief) && x.note@ == text_or_empty(m.note)
                    &&& x.extends matches Some(e) && e@ == "span."@ + m.ref_.0@
                    &&& x.stability == m.stability && x.deprecated == m.deprecated
                }
        }),
{
    law_v2_to_v1_group_order(spec, file_name, r);
    if spec.attributes@.len() > 0 {
        let x = r.groups@[0];
        assert forall|j: int| 0 <= j < spec.attributes@.len() implies (#[trigger] x.attributes@[j]) is Id
            && x.attributes@[j]->Id_id@ == spec.attributes@[j].key@
            && x.attributes@[j]->Id_brief == Some(spec.attributes@[j].common.brief)
            && x.attributes@[j]->Id_note == spec.attributes@[j].common.note
            && x.attributes@[j]->Id_stability == Some(spec.attributes@[j].common.stability) by {
            law_attribute_definition_to_v1(spec.attributes@[j], x.attributes@[j]);
        }
    }
}

/// A type, a template type, a basic requirement level and an instrument
/// keep their name from version 2 to version 1 and back.
pub proof fn law_conversions_keep_names(
    p2: V2PrimitiveOrArrayTypeSpec,
    p1: V1PrimitiveOrArrayTypeSpec,
    t2: V2TemplateTypeSpec,
    t1: V1TemplateTypeSpec,
    b2: V2BasicRequirementLevelSpec,
    b1: V1BasicRequirementLevelSpec,
    i2: V2InstrumentSpec,
    i1: V1InstrumentSpec,
)
    ensures
        spec_v2_primitive_to_v1(p2).spec_name() == p2.spec_name(),
        spec_v1_primitive_to_v2(p1).spec_name() == p1.spec_name(),
        spec_v2_template_to_v1(t2).spec_name() == t2.spec_name(),
        spec_v1_template_to_v2(t1).spec_name() == t1.spec_name(),
        spec_v2_basic_level_to_v1(b2).spec_name() == b2.spec_name(),
        spec_v1_basic_level_to_v2(b1).spec_name() == b1.spec_name(),
        spec_v2_instrument_to_v1(i2).spec_name() == i2.spec_name(),
        spec_v1_instrument_to_v2(i1).spec_name() == i1.spec_name(),
{
}

/// A span kind becomes the span kind of the same name in the other version.
pub proof fn law_span_kinds_correspond(k: V2SpanKindSpec)
    ensures
        spec_v2_span_kind_to_v1(k) == match k {
            V2SpanKindSpec::Internal => V1SpanKindSpec::Internal,
            V2SpanKindSpec::Client => V1SpanKindSpec::Client,
            V2SpanKindSpec::Server => V1SpanKindSpec::Server,
            V2SpanKindSpec::Producer => V1SpanKindSpec::Producer,
            V2SpanKindSpec::Consumer => V1SpanKindSpec::Consumer,
        },
        spec_v1_span_kind_to_v2(spec_v2_span_kind_to_v1(k)) == k,
{
}

/// A version 2 attribute definition becomes a version 1 attribute
/// definition with its key as id, its brief (always given), note, stability
/// and deprecation, and the recommended requirement level.
pub proof fn law_attribute_definition_to_v1(a: crate::v2::attribute::AttributeDef, r: crate::attribute::AttributeSpec)
    requires
        crate::convert::spec_v2_attribute_to_v1(a, r),
    ensures
        r matches crate::attribute::AttributeSpec::Id {
            id,
            brief,
            note,
            stability,
            deprecated,
            requirement_level,
            ..
        } && id@ == a.key@ && brief == Some(a.common.brief) && note == a.common.note && stability
            == Some(a.common.stability) && deprecated == a.common.deprecated && requirement_level
            == V1RequirementLevel::Basic(V1BasicRequirementLevelSpec::Recommended),
{
}

/// A version 2 attribute reference becomes a version 1 reference to the
/// same attribute, with its brief and note, its requirement level (each
/// basic level by name) and the given sampling relevance.
pub proof fn law_attribute_reference_to_v1(
    a: crate::v2::attribute::AttributeRef,
    sampling: Option<bool>,
    role: Option<crate::attribute::AttributeRole>,
    r: crate::attribute::AttributeSpec,
)
    requires
        crate::convert::spec_v2_ref_to_v1(a, sampling, role, r),
    ensures
        r matches crate::attribute::AttributeSpec::Ref {
            ref_,
            brief,
            note,
            requirement_level,
            sampling_relevant,
            ..
        } && ref_@ == a.ref_@ && brief == a.brief && note == a.note && sampling_relevant == sampling
            && (requirement_level is Some <==> a.requirement_level is Some) && (a.requirement_level
            matches Some(V2RequirementLevel::Basic(b)) ==> requirement_level matches Some(
            V1RequirementLevel::Basic(c),
        ) && c.spec_name() == b.spec_name()),
{
    if let Some(V2RequirementLevel::Basic(b)) = a.requirement_level {
        law_conversions_keep_names(
            V2PrimitiveOrArrayTypeSpec::Int,
            V1PrimitiveOrArrayTypeSpec::Int,
            V2TemplateTypeSpec::Int,
            V1TemplateTypeSpec::Int,
            b,
            V1BasicRequirementLevelSpec::Required,
            V2InstrumentSpec::Counter,
            V1InstrumentSpec::Counter,
        );
    }
}

/// The references of a version 2 signal become, in order, version 1
/// references to the same attributes with the same brief and note, and its
/// references to attribute groups become, in order, the included group ids.
pub proof fn law_references_split_in_order(
    src: Seq<crate::v2::attribute::AttributeOrGroupRef>,
    a: Seq<crate::attribute::AttributeSpec>,
    g: Seq<String>,
)
    requires
        crate::convert::spec_split_to_v1(src, a, g),
    ensures
        ({
            let refs = crate::v2::attribute::spec_attribute_refs(src);
            &&& a.len() == refs.len()
            &&& forall|i: int|
                0 <= i < a.len() ==> (#[trigger] a[i]) is Ref && a[i]->Ref_ref_@ == refs[i].ref_@
                    && a[i]->Ref_brief == refs[i].brief && a[i]->Ref_note == refs[i].note
            &&& g.len() == crate::v2::attribute::spec_group_refs(src).len()
            &&& forall|i: int|
                0 <= i < g.len() ==> (#[trigger] g[i])@ == crate::v2::attribute::spec_group_refs(src)[i].0@
        }),
{
    let refs = crate::v2::attribute::spec_attribute_refs(src);
    assert forall|i: int| 0 <= i < a.len() implies (#[trigger] a[i]) is Ref && a[i]->Ref_ref_@ == refs[i].ref_@
        && a[i]->Ref_brief == refs[i].brief && a[i]->Ref_note == refs[i].note by {
        law_attribute_reference_to_v1(refs[i], None, None, a[i]);
    }
}

/// An enum member keeps its id, brief, note, stability, deprecation and
/// annotations in the other version, and its value the same data of the
/// same kind.
pub proof fn law_enum_member_keeps_its_fields(e: V2EnumEntriesSpec)
    ensures
        ({
            let r = spec_v2_enum_entry_to_v1(e);
            &&& r.id == e.id && r.brief == e.brief && r.note == e.note
            &&& r.stability == e.stability && r.deprecated == e.deprecated && r.annotations == e.annotations
            &&& match e.value {
                V2ValueSpec::Int(i) => r.value == V1ValueSpec::Int(i),
                V2ValueSpec::Double(d) => r.value == V1ValueSpec::Double(d),
                V2ValueSpec::String(x) => r.value == V1ValueSpec::String(x),
                V2ValueSpec::Bool(b) => r.value == V1ValueSpec::Bool(b),
            }
        }),
{
}

/// An attribute type keeps its name in the other version; an enum keeps
/// its members, in order, each with its id and brief, and no longer
/// allows custom values.
pub proof fn law_attribute_type_to_v1_keeps_shape(t: V2AttributeType, r: V1AttributeType)
    requires
        spec_v2_attribute_type_to_v1(t, r),
    ensures
        t matches V2AttributeType::PrimitiveOrArray(p) ==> (r matches V1AttributeType::PrimitiveOrArray(q)
            && q.spec_name() == p.spec_name()),
        t matches V2AttributeType::Template(p) ==> (r matches V1AttributeType::Template(q)
            && q.spec_name() == p.spec_name()),
        t matches V2AttributeType::Enum { members } ==> (r matches V1AttributeType::Enum {
            allow_custom_values: None,
            members: m,
        } && m@.len() == members@.len() && forall|i: int|
            0 <= i < m@.len() ==> (#[trigger] m@[i]).id == members@[i].id && m@[i].brief
                == members@[i].brief),
{
    match t {
        V2AttributeType::PrimitiveOrArray(p) => {
            law_conversions_keep_names(
                p,
                V1PrimitiveOrArrayTypeSpec::Int,
                V2TemplateTypeSpec::Int,
                V1TemplateTypeSpec::Int,
                V2BasicRequirementLevelSpec::Required,
                V1BasicRequirementLevelSpec::Required,
                V2InstrumentSpec::Counter,
                V1InstrumentSpec::Counter,
            );
        },
        V2AttributeType::Template(p) => {
            law_conversions_keep_names(
                V2PrimitiveOrArrayTypeSpec::Int,
                V1PrimitiveOrArrayTypeSpec::Int,
                p,
                V1TemplateTypeSpec::Int,
                V2BasicRequirementLevelSpec::Required,
                V1BasicRequirementLevelSpec::Required,
                V2InstrumentSpec::Counter,
                V1InstrumentSpec::Counter,
            );
        },
        V2AttributeType::Enum { members } => {},
    }
}

/// The attributes of a version 2 entity become version 1 references to the
/// same attributes: its identifying ones first, in order, with the
/// identifying role, then its descriptive ones, in order, with the
/// descriptive role.
pub proof fn law_entity_attributes_keep_their_roles(
    identity: Seq<crate::v2::attribute::AttributeRef>,
    description: Seq<crate::v2::attribute::AttributeRef>,
    a: Seq<crate::attribute::AttributeSpec>,
)
    requires
        crate::convert::spec_entity_attributes_to_v1(identity, description, a),
    ensures
        a.len() == identity.len() + description.len(),
        forall|i: int|
            0 <= i < identity.len() ==> (#[trigger] a[i]) is Ref && a[i]->Ref_ref_@ == identity[i].ref_@
                && a[i]->Ref_role == Some(crate::attribute::AttributeRole::Identifying),
        forall|j: int|
            0 <= j < description.len() ==> (#[trigger] a[identity.len() + j]) is Ref
                && a[identity.len() + j]->Ref_ref_@ == description[j].ref_@
                && a[identity.len() + j]->Ref_role == Some(crate::attribute::AttributeRole::Descriptive),
{
}

/// The attribute references of a version 2 span become, in order, version 1
/// references to the same attributes keeping whether each is relevant for
/// sampling, and its group references become the included group ids.
pub proof fn law_span_references_split_in_order(
    src: Seq<crate::v2::span::SpanAttributeOrGroupRef>,
    a: Seq<crate::attribute::AttributeSpec>,
    g: Seq<String>,
)
    requires
        crate::convert::spec_span_split_to_v1(src, a, g),
    ensures
        ({
            let refs = crate::v2::span::spec_span_attribute_refs(src);
            &&& a.len() == refs.len()
            &&& forall|i: int|
                0 <= i < a.len() ==> (#[trigger] a[i]) is Ref && a[i]->Ref_ref_@ == refs[i].base.ref_@
                    && a[i]->Ref_sampling_relevant == refs[i].sampling_relevant
                    && a[i]->Ref_brief == refs[i].base.brief
            &&& g == crate::v2::span::spec_span_group_refs(src)
        }),
{
}

} // verus!
