//! Group specifications (version 1) and their validation.

use vstd::prelude::*;
use crate::any_value::{AnyValueSpec, spec_any_value_id, spec_common};
use crate::attribute::{
    AttributeSpec, AttributeType, EnumEntriesSpec, PrimitiveOrArrayTypeSpec,
    spec_any_value_examples_errors, spec_examples_errors, spec_unit_result_errors,
};
use crate::deprecated::Deprecated;
use crate::entity_association::EntityAssociation;
use crate::error::{
    Error, ErrorKind, ErrorView, WResult, error_view, errors_view, ev, lemma_errors_view_add,
    lemma_errors_view_push,
};
use crate::signal_requirement_level::SignalRequirementLevel;
use crate::stability::Stability;
use crate::text::{concat3, contains_str, string_views};
use crate::yaml_value::{Annotations, YamlValue};

pub use crate::v2::attribute_group::AttributeGroupVisibilitySpec;

verus! {

/// The different types of groups.
#[derive(Clone, Copy, Debug, PartialEq, Eq, Structural, Hash)]
pub enum GroupType {
    /// A set of attributes that signals of any kind can reference.
    AttributeGroup,
    /// A span.
    Span,
    /// An event.
    Event,
    /// A metric.
    Metric,
    /// Attributes shared by metrics.
    MetricGroup,
    /// A resource.
    Resource,
    /// A scope.
    Scope,
    /// An entity.
    Entity,
    /// The type is not set.
    Undefined,
}

impl Default for GroupType {
    /// The default group type is `Undefined`, which validation reports.
    fn default() -> (r: Self)
        ensures
            r == GroupType::Undefined,
    {
        GroupType::Undefined
    }
}

/// The kind of a span.
#[derive(Clone, Copy, Debug, PartialEq, Eq, Structural, Hash)]
pub enum SpanKindSpec {
    /// An internal span.
    Internal,
    /// A client span.
    Client,
    /// A server span.
    Server,
    /// A producer span.
    Producer,
    /// A consumer span.
    Consumer,
}

/// The instrument used to record a metric.
#[derive(Clone, Copy, Debug, PartialEq, Eq, Structural, Hash)]
pub enum InstrumentSpec {
    /// An up-down counter.
    UpDownCounter,
    /// A counter.
    Counter,
    /// A gauge.
    Gauge,
    /// A histogram.
    Histogram,
}

impl InstrumentSpec {
    /// The name of an instrument.
    pub open spec fn spec_name(self) -> Seq<char> {
        match self {
            InstrumentSpec::UpDownCounter => "updowncounter"@,
            InstrumentSpec::Counter => "counter"@,
            InstrumentSpec::Gauge => "gauge"@,
            InstrumentSpec::Histogram => "histogram"@,
        }
    }

    /// Returns the name of this instrument.
    pub fn to_string(&self) -> (s: String)
        ensures
            s@ == self.spec_name(),
    {
        match self {
            InstrumentSpec::UpDownCounter => String::from_str("updowncounter"),
            InstrumentSpec::Counter => String::from_str("counter"),
            InstrumentSpec::Gauge => String::from_str("gauge"),
            InstrumentSpec::Histogram => String::from_str("histogram"),
        }
    }
}

/// How the name of a span is built.
#[derive(Clone, Debug, PartialEq, Eq)]
pub struct SpanName {
    /// A description of how the span name is built.
    pub note: Option<String>,
}

/// A group of semantic conventions: attributes, a metric, an event, a span...
#[derive(Debug, PartialEq)]
pub struct GroupSpec {
    /// The id of the group.
    pub id: String,
    /// The type of the group.
    pub type_: GroupType,
    /// A brief description.
    pub brief: String,
    /// A longer description.
    pub note: String,
    /// The attribute prefix (no longer used).
    pub prefix: String,
    /// The group whose attributes this group inherits.
    pub extends: Option<String>,
    /// Attribute groups whose attributes this group includes.
    pub include_groups: Vec<String>,
    /// The stability.
    pub stability: Option<Stability>,
    /// The deprecation.
    pub deprecated: Option<Deprecated>,
    /// The attributes of the group.
    pub attributes: Vec<AttributeSpec>,
    /// Constraints, as YAML values.
    pub constraints: Option<Vec<YamlValue>>,
    /// The span kind (spans only).
    pub span_kind: Option<SpanKindSpec>,
    /// Ids of the events associated with the span (spans only).
    pub events: Vec<String>,
    /// The metric name (metrics only).
    pub metric_name: Option<String>,
    /// The instrument (metrics only).
    pub instrument: Option<InstrumentSpec>,
    /// The unit (metrics only).
    pub unit: Option<String>,
    /// The event name.
    pub name: Option<String>,
    /// A readable name for attribute groups.
    pub display_name: Option<String>,
    /// The event body (events only).
    pub body: Option<AnyValueSpec>,
    /// Annotations.
    pub annotations: Option<Annotations>,
    /// The entities the signal is associated with.
    pub entity_associations: Vec<EntityAssociation>,
    /// The visibility of an attribute group.
    pub visibility: Option<AttributeGroupVisibilitySpec>,
    /// Whether the group comes from a version 2 definition.
    pub is_v2: bool,
    /// How the span name is built (spans only).
    pub span_name: Option<SpanName>,
    /// The requirement level of the signal.
    pub requirement_level: Option<SignalRequirementLevel>,
}

/// One error when `cond` holds, none otherwise.
pub open spec fn if_error(cond: bool, e: ErrorView) -> Seq<ErrorView> {
    if cond {
        seq![e]
    } else {
        Seq::empty()
    }
}

/// The reference ids of the attribute references of a list, in order.
pub open spec fn spec_ref_ids(s: Seq<AttributeSpec>) -> Seq<Seq<char>>
    decreases s.len(),
{
    if s.len() == 0 {
        Seq::empty()
    } else {
        match s.last() {
            AttributeSpec::Ref { ref_, .. } => spec_ref_ids(s.drop_last()).push(ref_@),
            AttributeSpec::Id { .. } => spec_ref_ids(s.drop_last()),
        }
    }
}

/// One warning for each attribute reference that repeats an earlier one.
pub open spec fn spec_duplicate_ref_errors(
    s: Seq<AttributeSpec>,
    group_id: Seq<char>,
    path: Seq<char>,
) -> Seq<ErrorView>
    decreases s.len(),
{
    if s.len() == 0 {
        Seq::empty()
    } else {
        let before = spec_duplicate_ref_errors(s.drop_last(), group_id, path);
        match s.last() {
            AttributeSpec::Ref { ref_, .. } => before + if_error(
                spec_ref_ids(s.drop_last()).contains(ref_@),
                ev(ErrorKind::InvalidGroupDuplicateAttributeRef, seq![path, group_id, ref_@]),
            ),
            AttributeSpec::Id { .. } => before,
        }
    }
}

/// The errors about the group as a whole: prefix, stability, duplicate
/// references, extends or attributes, span-only fields, type and span kind.
pub open spec fn spec_group_shape_errors(g: GroupSpec, path: Seq<char>) -> Seq<ErrorView> {
    spec_group_header_errors(g, path) + spec_duplicate_ref_errors(g.attributes@, g.id@, path)
        + spec_group_kind_errors(g, path)
}

/// The errors about the prefix and the stability of a group.
pub open spec fn spec_group_header_errors(g: GroupSpec, path: Seq<char>) -> Seq<ErrorView> {
    let gid = g.id@;
    if_error(g.prefix@.len() != 0, ev(ErrorKind::InvalidGroupUsesPrefix, seq![path, gid]))
        + if_error(
        g.type_ != GroupType::AttributeGroup && g.stability is None,
        ev(
            ErrorKind::InvalidGroupStability,
            seq![path, gid, "This group does not contain a stability field."@],
        ),
    ) + if_error(
        g.stability == Some(Stability::Deprecated),
        ev(
            ErrorKind::InvalidGroupStability,
            seq![path, gid, "Group stability is set to 'deprecated' which is no longer supported."@],
        ),
    )
}

/// The errors about the content expected from the type of a group:
/// extends or attributes, span-only fields, the type itself and the span kind.
pub open spec fn spec_group_kind_errors(g: GroupSpec, path: Seq<char>) -> Seq<ErrorView> {
    let gid = g.id@;
    if_error(
        g.type_ != GroupType::Metric && g.type_ != GroupType::Event && g.extends is None
            && g.attributes@.len() == 0,
        ev(
            ErrorKind::InvalidGroupMissingExtendsOrAttributes,
            seq![path, gid, "This group does not contain an extends or attributes field."@],
        ),
    ) + if_error(
        g.type_ != GroupType::Span && g.type_ != GroupType::Undefined && g.span_kind is Some,
        ev(
            ErrorKind::InvalidGroup,
            seq![path, gid, "This group contains a span_kind field but the type is not set to span."@],
        ),
    ) + if_error(
        g.type_ != GroupType::Span && g.type_ != GroupType::Undefined && g.events@.len() != 0,
        ev(
            ErrorKind::InvalidGroup,
            seq![path, gid, "This group contains an events field but the type is not set to span."@],
        ),
    ) + if_error(
        g.type_ == GroupType::Undefined,
        ev(
            ErrorKind::InvalidGroupMissingType,
            seq![path, gid, "This group does not contain a type field."@],
        ),
    ) + if_error(
        g.type_ == GroupType::Span && g.span_kind is None,
        ev(
            ErrorKind::InvalidSpanMissingSpanKind,
            seq![path, gid, "This group is a Span but the span_kind is not set."@],
        ),
    )
}

/// The errors about an event body: missing stabilities, in the body, its
/// enum members and, recursively, its fields.
pub open spec fn spec_any_value_errors(v: AnyValueSpec, gid: Seq<char>, path: Seq<char>) -> Seq<
    ErrorView,
>
    decreases v,
{
    if_error(
        spec_common(v).stability is None,
        ev(
            ErrorKind::InvalidAnyValue,
            seq![path, gid, spec_any_value_id(v), "Missing stability field."@],
        ),
    ) + match v {
        AnyValueSpec::Enum { members, .. } => spec_any_value_member_errors(
            members@,
            spec_any_value_id(v),
            gid,
            path,
        ),
        AnyValueSpec::Mapping { fields, .. } => spec_any_value_fields_errors(fields@, gid, path),
        _ => Seq::empty(),
    }
}

/// The errors about the enum members of an any-value without stability.
pub open spec fn spec_any_value_member_errors(
    members: Seq<EnumEntriesSpec>,
    value_id: Seq<char>,
    gid: Seq<char>,
    path: Seq<char>,
) -> Seq<ErrorView>
    decreases members.len(),
{
    if members.len() == 0 {
        Seq::empty()
    } else {
        spec_any_value_member_errors(members.drop_last(), value_id, gid, path) + if_error(
            members.last().stability is None,
            ev(
                ErrorKind::InvalidAnyValue,
                seq![
                    path,
                    gid,
                    value_id,
                    "Missing stability field for enum member "@ + members.last().id@ + "."@,
                ],
            ),
        )
    }
}

/// The errors about the fields of a map any-value, in order.
pub open spec fn spec_any_value_fields_errors(
    fields: Seq<AnyValueSpec>,
    gid: Seq<char>,
    path: Seq<char>,
) -> Seq<ErrorView>
    decreases fields,
{
    if fields.len() == 0 {
        Seq::empty()
    } else {
        spec_any_value_fields_errors(fields.drop_last(), gid, path) + spec_any_value_errors(
            fields.last(),
            gid,
            path,
        )
    }
}

/// The errors about the examples of an any-value and, recursively, of its
/// fields.
pub open spec fn spec_any_value_example_errors(
    v: AnyValueSpec,
    gid: Seq<char>,
    path: Seq<char>,
) -> Seq<ErrorView>
    decreases v,
{
    (match spec_common(v).examples {
        Some(ex) => spec_any_value_examples_errors(ex, v, gid, path),
        None => if_error(
            v is String,
            ev(
                ErrorKind::InvalidAnyValueExampleError,
                seq![
                    path,
                    gid,
                    spec_any_value_id(v),
                    "This value is a string but it does not contain any examples."@,
                ],
            ),
        ) + if_error(
            v is Strings,
            ev(
                ErrorKind::InvalidAnyValueExampleError,
                seq![
                    path,
                    gid,
                    spec_any_value_id(v),
                    "This value is a string array but it does not contain any examples."@,
                ],
            ),
        ),
    }) + match v {
        AnyValueSpec::Mapping { fields, .. } => spec_any_value_fields_example_errors(
            fields@,
            gid,
            path,
        ),
        _ => Seq::empty(),
    }
}

/// The example errors of the fields of a map any-value, in order.
pub open spec fn spec_any_value_fields_example_errors(
    fields: Seq<AnyValueSpec>,
    gid: Seq<char>,
    path: Seq<char>,
) -> Seq<ErrorView>
    decreases fields,
{
    if fields.len() == 0 {
        Seq::empty()
    } else {
        spec_any_value_fields_example_errors(fields.drop_last(), gid, path)
            + spec_any_value_example_errors(fields.last(), gid, path)
    }
}

/// The errors about the event name and body (events), or about a body on a
/// group that is not an event.
pub open spec fn spec_event_errors(g: GroupSpec, path: Seq<char>) -> Seq<ErrorView> {
    let gid = g.id@;
    if g.type_ == GroupType::Event {
        if_error(
            g.body is Some && g.name is None,
            ev(
                ErrorKind::InvalidGroup,
                seq![
                    path,
                    gid,
                    "This group contains an event type with a body definition but the name is not set."@,
                ],
            ),
        ) + if_error(
            g.body is None && g.name is None && g.prefix@.len() == 0,
            ev(
                ErrorKind::InvalidGroup,
                seq![
                    path,
                    gid,
                    "This group contains an event type but the name is not set and no prefix is defined."@,
                ],
            ),
        ) + match g.body {
            Some(b) => spec_any_value_errors(b, gid, path) + spec_any_value_example_errors(
                b,
                gid,
                path,
            ),
            None => Seq::empty(),
        }
    } else {
        if_error(
            g.body is Some,
            ev(
                ErrorKind::InvalidGroup,
                seq![
                    path,
                    gid,
                    "This group contains a body field but the type is not set to event."@,
                ],
            ),
        )
    }
}

/// The errors about the metric fields of a metric group.
pub open spec fn spec_metric_errors(g: GroupSpec, path: Seq<char>) -> Seq<ErrorView> {
    let gid = g.id@;
    if g.type_ == GroupType::Metric {
        if_error(
            g.metric_name is None,
            ev(
                ErrorKind::InvalidMetric,
                seq![path, gid, "This group contains a metric type but the metric_name is not set."@],
            ),
        ) + if_error(
            g.instrument is None,
            ev(
                ErrorKind::InvalidMetric,
                seq![path, gid, "This group contains a metric type but the instrument is not set."@],
            ),
        ) + if_error(
            g.unit is None,
            ev(
                ErrorKind::InvalidMetric,
                seq![path, gid, "This group contains a metric type but the unit is not set."@],
            ),
        )
    } else {
        Seq::empty()
    }
}

/// The warnings about enum members without stability or with the
/// deprecated stability.
pub open spec fn spec_member_errors(
    members: Seq<EnumEntriesSpec>,
    attr_id: Seq<char>,
    gid: Seq<char>,
    path: Seq<char>,
) -> Seq<ErrorView>
    decreases members.len(),
{
    if members.len() == 0 {
        Seq::empty()
    } else {
        let m = members.last();
        spec_member_errors(members.drop_last(), attr_id, gid, path) + if m.stability is None {
            seq![
                ev(
                    ErrorKind::InvalidAttributeWarning,
                    seq![
                        path,
                        gid,
                        attr_id,
                        "Missing stability field on enum member "@ + m.id@ + "."@,
                    ],
                ),
            ]
        } else if m.stability == Some(Stability::Deprecated) {
            seq![
                ev(
                    ErrorKind::InvalidAttributeWarning,
                    seq![
                        path,
                        gid,
                        attr_id,
                        "Member "@ + m.id@
                            + " stability is set to 'deprecated' which is no longer supported."@,
                    ],
                ),
            ]
        } else {
            Seq::empty()
        }
    }
}

/// The errors about one attribute of a group.
pub open spec fn spec_attribute_errors(a: AttributeSpec, gid: Seq<char>, path: Seq<char>) -> Seq<
    ErrorView,
> {
    match a {
        AttributeSpec::Ref { .. } => Seq::empty(),
        AttributeSpec::Id { id, type_, brief, examples, stability, deprecated, .. } => {
            let aid = id@;
            if_error(
                brief is None && deprecated is None,
                ev(
                    ErrorKind::InvalidAttribute,
                    seq![
                        path,
                        gid,
                        aid,
                        "This attribute is not deprecated and does not contain a brief field."@,
                    ],
                ),
            ) + spec_attribute_stability_errors(stability, aid, gid, path) + match type_ {
                AttributeType::Enum { members, .. } => spec_member_errors(
                    members@,
                    aid,
                    gid,
                    path,
                ),
                _ => Seq::empty(),
            } + spec_attribute_example_errors(examples, type_, aid, gid, path) + if_error(
                type_ matches AttributeType::Enum { allow_custom_values: Some(_), .. },
                ev(
                    ErrorKind::InvalidAttributeAllowCustomValues,
                    seq![
                        path,
                        gid,
                        aid,
                        "This attribute is an enum using allow_custom_values. This is no longer used."@,
                    ],
                ),
            )
        },
    }
}

/// The errors about the attributes of a group, in order.
pub open spec fn spec_attributes_errors(
    s: Seq<AttributeSpec>,
    gid: Seq<char>,
    path: Seq<char>,
) -> Seq<ErrorView>
    decreases s.len(),
{
    if s.len() == 0 {
        Seq::empty()
    } else {
        spec_attributes_errors(s.drop_last(), gid, path) + spec_attribute_errors(
            s.last(),
            gid,
            path,
        )
    }
}

/// All the errors and warnings that validating a group reports, in order.
pub open spec fn spec_group_errors(g: GroupSpec, path: Seq<char>) -> Seq<ErrorView> {
    spec_group_shape_errors(g, path) + spec_event_errors(g, path) + spec_metric_errors(g, path)
        + spec_attributes_errors(g.attributes@, g.id@, path)
}

/// Appends one error.
fn push_error(errors: &mut Vec<Error>, e: Error)
    ensures
        errors_view(final(errors)@) == errors_view(old(errors)@).push(error_view(e)),
{
    proof {
        lemma_errors_view_push(errors@, e);
    }
    errors.push(e);
}

/// Appends one error when `cond` holds.
fn push_error_if(errors: &mut Vec<Error>, cond: bool, e: Error)
    ensures
        errors_view(final(errors)@) == errors_view(old(errors)@) + if_error(cond, error_view(e)),
{
    if cond {
        push_error(errors, e);
        assert(errors_view(old(errors)@).push(error_view(e)) =~= errors_view(old(errors)@)
            + seq![error_view(e)]);
    } else {
        assert(errors_view(old(errors)@) + Seq::<ErrorView>::empty() =~= errors_view(
            old(errors)@,
        ));
    }
}

/// Appends the non-fatal errors of a result.
fn push_result_errors(errors: &mut Vec<Error>, r: WResult<()>)
    requires
        r !is FatalErr,
    ensures
        errors_view(final(errors)@) == errors_view(old(errors)@) + spec_unit_result_errors(r),
{
    match r {
        WResult::OkValue(_) => {
            assert(errors_view(old(errors)@) + Seq::<ErrorView>::empty() =~= errors_view(
                old(errors)@,
            ));
        },
        WResult::OkWithNFEs(_, mut errs) => {
            proof {
                lemma_errors_view_add(errors@, errs@);
            }
            errors.append(&mut errs);
        },
        WResult::FatalErr(_) => {},
    }
}

/// Appends a warning for each attribute reference that repeats an earlier one.
fn validate_duplicate_attribute_ref(
    errors: &mut Vec<Error>,
    attributes: &Vec<AttributeSpec>,
    group_id: &str,
    path_or_url: &str,
)
    ensures
        errors_view(final(errors)@) == errors_view(old(errors)@) + spec_duplicate_ref_errors(
            attributes@,
            group_id@,
            path_or_url@,
        ),
{
    let mut seen: Vec<String> = Vec::new();
    let mut i: usize = 0;
    let ghost start = errors_view(errors@);
    assert(attributes@.subrange(0, 0) =~= Seq::<AttributeSpec>::empty());
    assert(start + Seq::<ErrorView>::empty() =~= start);
    while i < attributes.len()
        invariant
            i <= attributes@.len(),
            string_views(seen@) == spec_ref_ids(attributes@.subrange(0, i as int)),
            errors_view(errors@) == start + spec_duplicate_ref_errors(
                attributes@.subrange(0, i as int),
                group_id@,
                path_or_url@,
            ),
        decreases attributes@.len() - i,
    {
        proof {
            assert(attributes@.subrange(0, i + 1).drop_last() =~= attributes@.subrange(
                0,
                i as int,
            ));
        }
        match &attributes[i] {
            AttributeSpec::Ref { ref_, .. } => {
                let dup = contains_str(&seen, ref_.as_str());
                let e = Error::InvalidGroupDuplicateAttributeRef {
                    path_or_url: String::from_str(path_or_url),
                    group_id: String::from_str(group_id),
                    attribute_ref: ref_.clone(),
                };
                let ghost before = errors_view(errors@);
                push_error_if(errors, dup, e);
                proof {
                    assert(errors_view(errors@) =~= start + spec_duplicate_ref_errors(
                        attributes@.subrange(0, i + 1),
                        group_id@,
                        path_or_url@,
                    ));
                }
                let ghost old_seen = seen@;
                seen.push(ref_.clone());
                proof {
                    assert(string_views(seen@) =~= string_views(old_seen).push(ref_@));
                }
            },
            AttributeSpec::Id { .. } => {},
        }
        i = i + 1;
    }
    assert(attributes@.subrange(0, attributes@.len() as int) =~= attributes@);
}


/// Appends the errors about missing stabilities in an any-value, its enum
/// members and, recursively, its fields.
fn validate_any_value(errors: &mut Vec<Error>, value: &AnyValueSpec, group_id: &str, path_or_url: &str)
    ensures
        errors_view(final(errors)@) == errors_view(old(errors)@) + spec_any_value_errors(
            *value,
            group_id@,
            path_or_url@,
        ),
    decreases value,
{
    let ghost start = errors_view(errors@);
    let missing = value.common().stability.is_none();
    let e = Error::InvalidAnyValue {
        path_or_url: String::from_str(path_or_url),
        group_id: String::from_str(group_id),
        value_id: value.id(),
        error: String::from_str("Missing stability field."),
    };
    push_error_if(errors, missing, e);
    let ghost mid = errors_view(errors@);
    match value {
        AnyValueSpec::Enum { members, .. } => {
            let value_id = value.id();
            let mut i: usize = 0;
            assert(members@.subrange(0, 0) =~= Seq::<EnumEntriesSpec>::empty());
            assert(mid + Seq::<ErrorView>::empty() =~= mid);
            while i < members.len()
                invariant
                    i <= members@.len(),
                    value_id@ == spec_any_value_id(*value),
                    errors_view(errors@) == mid + spec_any_value_member_errors(
                        members@.subrange(0, i as int),
                        value_id@,
                        group_id@,
                        path_or_url@,
                    ),
                decreases members@.len() - i,
            {
                proof {
                    assert(members@.subrange(0, i + 1).drop_last() =~= members@.subrange(
                        0,
                        i as int,
                    ));
                }
                let m = &members[i];
                let e = Error::InvalidAnyValue {
                    path_or_url: String::from_str(path_or_url),
                    group_id: String::from_str(group_id),
                    value_id: value_id.clone(),
                    error: concat3("Missing stability field for enum member ", m.id.as_str(), "."),
                };
                push_error_if(errors, m.stability.is_none(), e);
                proof {
                    assert(errors_view(errors@) =~= mid + spec_any_value_member_errors(
                        members@.subrange(0, i + 1),
                        value_id@,
                        group_id@,
                        path_or_url@,
                    ));
                }
                i = i + 1;
            }
            assert(members@.subrange(0, members@.len() as int) =~= members@);
        },
        AnyValueSpec::Mapping { fields, .. } => {
            validate_any_value_fields(errors, fields, group_id, path_or_url);
        },
        _ => {
            assert(mid + Seq::<ErrorView>::empty() =~= mid);
        },
    }
    assert(errors_view(errors@) =~= start + spec_any_value_errors(*value, group_id@, path_or_url@));
}

/// Appends the errors about the examples of an any-value and, recursively,
/// of its fields.
fn validate_any_value_examples(
    errors: &mut Vec<Error>,
    value: &AnyValueSpec,
    group_id: &str,
    path_or_url: &str,
)
    ensures
        errors_view(final(errors)@) == errors_view(old(errors)@) + spec_any_value_example_errors(
            *value,
            group_id@,
            path_or_url@,
        ),
    decreases value,
{
    let ghost start = errors_view(errors@);
    match &value.common().examples {
        Some(examples) => {
            let r = examples.validate_any_value(value, group_id, path_or_url);
            push_result_errors(errors, r);
        },
        None => {
            let is_string = match value {
                AnyValueSpec::String { .. } => true,
                _ => false,
            };
            let is_strings = match value {
                AnyValueSpec::Strings { .. } => true,
                _ => false,
            };
            let e1 = Error::InvalidAnyValueExampleError {
                path_or_url: String::from_str(path_or_url),
                group_id: String::from_str(group_id),
                value_id: value.id(),
                error: String::from_str("This value is a string but it does not contain any examples."),
            };
            push_error_if(errors, is_string, e1);
            let e2 = Error::InvalidAnyValueExampleError {
                path_or_url: String::from_str(path_or_url),
                group_id: String::from_str(group_id),
                value_id: value.id(),
                error: String::from_str(
                    "This value is a string array but it does not contain any examples.",
                ),
            };
            push_error_if(errors, is_strings, e2);
        },
    }
    let ghost mid = errors_view(errors@);
    match value {
        AnyValueSpec::Mapping { fields, .. } => {
            validate_any_value_fields_examples(errors, fields, group_id, path_or_url);
        },
        _ => {
            assert(mid + Seq::<ErrorView>::empty() =~= mid);
        },
    }
    assert(errors_view(errors@) =~= start + spec_any_value_example_errors(
        *value,
        group_id@,
        path_or_url@,
    ));
}

/// Appends the errors about missing stabilities in the fields of a map.
fn validate_any_value_fields(
    errors: &mut Vec<Error>,
    fields: &Vec<AnyValueSpec>,
    group_id: &str,
    path_or_url: &str,
)
    ensures
        errors_view(final(errors)@) == errors_view(old(errors)@) + spec_any_value_fields_errors(
            fields@,
            group_id@,
            path_or_url@,
        ),
    decreases fields,
{
    let ghost mid = errors_view(errors@);
    let mut i: usize = 0;
    assert(fields@.subrange(0, 0) =~= Seq::<AnyValueSpec>::empty());
    assert(mid + Seq::<ErrorView>::empty() =~= mid);
    while i < fields.len()
        invariant
            i <= fields@.len(),
            errors_view(errors@) == mid + spec_any_value_fields_errors(
                fields@.subrange(0, i as int),
                group_id@,
                path_or_url@,
            ),
        decreases fields@.len() - i,
    {
        proof {
            assert(fields@.subrange(0, i + 1).drop_last() =~= fields@.subrange(0, i as int));
            assert(decreases_to!(fields => fields@));
            assert(decreases_to!(fields@ => fields@[i as int]));
        }
        validate_any_value(errors, &fields[i], group_id, path_or_url);
        proof {
            assert(errors_view(errors@) =~= mid + spec_any_value_fields_errors(
                fields@.subrange(0, i + 1),
                group_id@,
                path_or_url@,
            ));
        }
        i = i + 1;
    }
    assert(fields@.subrange(0, fields@.len() as int) =~= fields@);
}

/// Appends the errors about the examples of the fields of a map.
fn validate_any_value_fields_examples(
    errors: &mut Vec<Error>,
    fields: &Vec<AnyValueSpec>,
    group_id: &str,
    path_or_url: &str,
)
    ensures
        errors_view(final(errors)@) == errors_view(old(errors)@)
            + spec_any_value_fields_example_errors(fields@, group_id@, path_or_url@),
    decreases fields,
{
    let ghost mid = errors_view(errors@);
    let mut i: usize = 0;
    assert(fields@.subrange(0, 0) =~= Seq::<AnyValueSpec>::empty());
    assert(mid + Seq::<ErrorView>::empty() =~= mid);
    while i < fields.len()
        invariant
            i <= fields@.len(),
            errors_view(errors@) == mid + spec_any_value_fields_example_errors(
                fields@.subrange(0, i as int),
                group_id@,
                path_or_url@,
            ),
        decreases fields@.len() - i,
    {
        proof {
            assert(fields@.subrange(0, i + 1).drop_last() =~= fields@.subrange(0, i as int));
            assert(decreases_to!(fields => fields@));
            assert(decreases_to!(fields@ => fields@[i as int]));
        }
        validate_any_value_examples(errors, &fields[i], group_id, path_or_url);
        proof {
            assert(errors_view(errors@) =~= mid + spec_any_value_fields_example_errors(
                fields@.subrange(0, i + 1),
                group_id@,
                path_or_url@,
            ));
        }
        i = i + 1;
    }
    assert(fields@.subrange(0, fields@.len() as int) =~= fields@);
}

/// Appends the warnings about enum members of attribute `attr_id`.
fn validate_members(
    errors: &mut Vec<Error>,
    members: &Vec<EnumEntriesSpec>,
    attr_id: &str,
    group_id: &str,
    path_or_url: &str,
)
    ensures
        errors_view(final(errors)@) == errors_view(old(errors)@) + spec_member_errors(
            members@,
            attr_id@,
            group_id@,
            path_or_url@,
        ),
{
    let ghost start = errors_view(errors@);
    let mut i: usize = 0;
    assert(members@.subrange(0, 0) =~= Seq::<EnumEntriesSpec>::empty());
    assert(start + Seq::<ErrorView>::empty() =~= start);
    while i < members.len()
        invariant
            i <= members@.len(),
            errors_view(errors@) == start + spec_member_errors(
                members@.subrange(0, i as int),
                attr_id@,
                group_id@,
                path_or_url@,
            ),
        decreases members@.len() - i,
    {
        proof {
            assert(members@.subrange(0, i + 1).drop_last() =~= members@.subrange(0, i as int));
        }
        let m = &members[i];
        let ghost before = errors_view(errors@);
        match m.stability {
            None => {
                push_error(
                    errors,
                    Error::InvalidAttributeWarning {
                        path_or_url: String::from_str(path_or_url),
                        group_id: String::from_str(group_id),
                        attribute_id: String::from_str(attr_id),
                        error: concat3("Missing stability field on enum member ", m.id.as_str(), "."),
                    },
                );
            },
            Some(Stability::Deprecated) => {
                push_error(
                    errors,
                    Error::InvalidAttributeWarning {
                        path_or_url: String::from_str(path_or_url),
                        group_id: String::from_str(group_id),
                        attribute_id: String::from_str(attr_id),
                        error: concat3(
                            "Member ",
                            m.id.as_str(),
                            " stability is set to 'deprecated' which is no longer supported.",
                        ),
                    },
                );
            },
            Some(_) => {},
        }
        proof {
            assert(errors_view(errors@) =~= start + spec_member_errors(
                members@.subrange(0, i + 1),
                attr_id@,
                group_id@,
                path_or_url@,
            ));
        }
        i = i + 1;
    }
    assert(members@.subrange(0, members@.len() as int) =~= members@);
}

/// The warning about the stability of an attribute definition.
pub open spec fn spec_attribute_stability_errors(
    stability: Option<Stability>,
    aid: Seq<char>,
    gid: Seq<char>,
    path: Seq<char>,
) -> Seq<ErrorView> {
    if stability is None {
        seq![ev(ErrorKind::InvalidAttributeWarning, seq![path, gid, aid, "Missing stability field."@])]
    } else if stability == Some(Stability::Deprecated) {
        seq![
            ev(
                ErrorKind::InvalidAttributeWarning,
                seq![
                    path,
                    gid,
                    aid,
                    "Attribute stability is set to 'deprecated' which is no longer supported."@,
                ],
            ),
        ]
    } else {
        Seq::empty()
    }
}

/// The errors about the examples of an attribute definition.
pub open spec fn spec_attribute_example_errors(
    examples: Option<crate::attribute::Examples>,
    type_: AttributeType,
    aid: Seq<char>,
    gid: Seq<char>,
    path: Seq<char>,
) -> Seq<ErrorView> {
    match examples {
        Some(ex) => spec_examples_errors(ex, type_, gid, aid, path),
        None => if_error(
            type_ == AttributeType::PrimitiveOrArray(PrimitiveOrArrayTypeSpec::String),
            ev(
                ErrorKind::InvalidExampleWarning,
                seq![path, gid, aid, "This attribute is a string but it does not contain any examples."@],
            ),
        ) + if_error(
            type_ == AttributeType::PrimitiveOrArray(PrimitiveOrArrayTypeSpec::Strings),
            ev(
                ErrorKind::InvalidExampleWarning,
                seq![
                    path,
                    gid,
                    aid,
                    "This attribute is a string array but it does not contain any examples."@,
                ],
            ),
        ),
    }
}

/// Appends the warning about the stability of an attribute definition.
fn validate_attribute_stability(
    errors: &mut Vec<Error>,
    stability: &Option<Stability>,
    attr_id: &str,
    group_id: &str,
    path_or_url: &str,
)
    ensures
        errors_view(final(errors)@) == errors_view(old(errors)@) + spec_attribute_stability_errors(
            *stability,
            attr_id@,
            group_id@,
            path_or_url@,
        ),
{
    let ghost start = errors_view(errors@);
    match stability {
        None => {
            push_error(
                errors,
                Error::InvalidAttributeWarning {
                    path_or_url: String::from_str(path_or_url),
                    group_id: String::from_str(group_id),
                    attribute_id: String::from_str(attr_id),
                    error: String::from_str("Missing stability field."),
                },
            );
            assert(errors_view(errors@) =~= start + spec_attribute_stability_errors(
                *stability,
                attr_id@,
                group_id@,
                path_or_url@,
            ));
        },
        Some(Stability::Deprecated) => {
            push_error(
                errors,
                Error::InvalidAttributeWarning {
                    path_or_url: String::from_str(path_or_url),
                    group_id: String::from_str(group_id),
                    attribute_id: String::from_str(attr_id),
                    error: String::from_str(
                        "Attribute stability is set to 'deprecated' which is no longer supported.",
                    ),
                },
            );
            assert(errors_view(errors@) =~= start + spec_attribute_stability_errors(
                *stability,
                attr_id@,
                group_id@,
                path_or_url@,
            ));
        },
        Some(_) => {
            assert(start + Seq::<ErrorView>::empty() =~= start);
        },
    }
}

/// Appends the errors about the examples of an attribute definition.
fn validate_attribute_examples(
    errors: &mut Vec<Error>,
    examples: &Option<crate::attribute::Examples>,
    type_: &AttributeType,
    attr_id: &str,
    group_id: &str,
    path_or_url: &str,
)
    ensures
        errors_view(final(errors)@) == errors_view(old(errors)@) + spec_attribute_example_errors(
            *examples,
            *type_,
            attr_id@,
            group_id@,
            path_or_url@,
        ),
{
    let ghost start = errors_view(errors@);
    match examples {
        Some(ex) => {
            let r = ex.validate(type_, group_id, attr_id, path_or_url);
            push_result_errors(errors, r);
        },
        None => {
            let is_string = match type_ {
                AttributeType::PrimitiveOrArray(PrimitiveOrArrayTypeSpec::String) => true,
                _ => false,
            };
            let is_strings = match type_ {
                AttributeType::PrimitiveOrArray(PrimitiveOrArrayTypeSpec::Strings) => true,
                _ => false,
            };
            push_error_if(
                errors,
                is_string,
                Error::InvalidExampleWarning {
                    path_or_url: String::from_str(path_or_url),
                    group_id: String::from_str(group_id),
                    attribute_id: String::from_str(attr_id),
                    error: String::from_str(
                        "This attribute is a string but it does not contain any examples.",
                    ),
                },
            );
            push_error_if(
                errors,
                is_strings,
                Error::InvalidExampleWarning {
                    path_or_url: String::from_str(path_or_url),
                    group_id: String::from_str(group_id),
                    attribute_id: String::from_str(attr_id),
                    error: String::from_str(
                        "This attribute is a string array but it does not contain any examples.",
                    ),
                },
            );
            assert(errors_view(errors@) =~= start + spec_attribute_example_errors(
                *examples,
                *type_,
                attr_id@,
                group_id@,
                path_or_url@,
            ));
        },
    }
}

/// Appends the errors about one attribute of a group.
fn validate_attribute(
    errors: &mut Vec<Error>,
    attribute: &AttributeSpec,
    group_id: &str,
    path_or_url: &str,
)
    ensures
        errors_view(final(errors)@) == errors_view(old(errors)@) + spec_attribute_errors(
            *attribute,
            group_id@,
            path_or_url@,
        ),
{
    let ghost start = errors_view(errors@);
    match attribute {
        AttributeSpec::Ref { .. } => {
            assert(start + Seq::<ErrorView>::empty() =~= start);
        },
        AttributeSpec::Id { id, type_, brief, examples, stability, deprecated, .. } => {
            let e = Error::InvalidAttribute {
                path_or_url: String::from_str(path_or_url),
                group_id: String::from_str(group_id),
                attribute_id: id.clone(),
                error: String::from_str(
                    "This attribute is not deprecated and does not contain a brief field.",
                ),
            };
            push_error_if(errors, brief.is_none() && deprecated.is_none(), e);
            let ghost s1 = errors_view(errors@);
            validate_attribute_stability(errors, stability, id.as_str(), group_id, path_or_url);
            let ghost s2 = errors_view(errors@);
            match type_ {
                AttributeType::Enum { members, .. } => {
                    validate_members(errors, members, id.as_str(), group_id, path_or_url);
                },
                _ => {},
            }
            let ghost s3 = errors_view(errors@);
            validate_attribute_examples(errors, examples, type_, id.as_str(), group_id, path_or_url);
            let ghost s4 = errors_view(errors@);
            let custom = match type_ {
                AttributeType::Enum { allow_custom_values: Some(_), .. } => true,
                _ => false,
            };
            push_error_if(
                errors,
                custom,
                Error::InvalidAttributeAllowCustomValues {
                    path_or_url: String::from_str(path_or_url),
                    group_id: String::from_str(group_id),
                    attribute_id: id.clone(),
                    error: String::from_str(
                        "This attribute is an enum using allow_custom_values. This is no longer used.",
                    ),
                },
            );
            proof {
                assert(s3 == s2 + match *type_ {
                    AttributeType::Enum { members, .. } => spec_member_errors(
                        members@,
                        id@,
                        group_id@,
                        path_or_url@,
                    ),
                    _ => Seq::empty(),
                }) by {
                    match type_ {
                        AttributeType::Enum { .. } => {},
                        _ => {
                            assert(s3 =~= s2 + Seq::<ErrorView>::empty());
                        },
                    }
                }
                assert(errors_view(errors@) =~= start + spec_attribute_errors(
                    *attribute,
                    group_id@,
                    path_or_url@,
                ));
            }
        },
    }
}

impl GroupSpec {
    /// Validates the group. Every problem found is reported as a non-fatal
    /// error, in the order of [`spec_group_errors`].
    pub fn validate(&self, path_or_url: &str) -> (r: WResult<()>)
        ensures
            r !is FatalErr,
            spec_unit_result_errors(r) == spec_group_errors(*self, path_or_url@),
            (r is OkValue) <==> spec_group_errors(*self, path_or_url@).len() == 0,
    {
        let mut errors: Vec<Error> = Vec::new();
        let gid = self.id.as_str();
        let ghost s0 = errors_view(errors@);
        self.validate_shape(&mut errors, path_or_url);
        let ghost s1 = errors_view(errors@);
        proof {
            assert(s1 =~= s0 + spec_group_shape_errors(*self, path_or_url@));
        }
        self.validate_event(&mut errors, path_or_url);
        let ghost s2 = errors_view(errors@);
        self.validate_metric(&mut errors, path_or_url);
        let ghost s3 = errors_view(errors@);
        let mut i: usize = 0;
        assert(self.attributes@.subrange(0, 0) =~= Seq::<AttributeSpec>::empty());
        assert(s3 + Seq::<ErrorView>::empty() =~= s3);
        while i < self.attributes.len()
            invariant
                i <= self.attributes@.len(),
                gid@ == self.id@,
                errors_view(errors@) == s3 + spec_attributes_errors(
                    self.attributes@.subrange(0, i as int),
                    self.id@,
                    path_or_url@,
                ),
            decreases self.attributes@.len() - i,
        {
            proof {
                assert(self.attributes@.subrange(0, i + 1).drop_last() =~= self.attributes@.subrange(
                    0,
                    i as int,
                ));
            }
            validate_attribute(&mut errors, &self.attributes[i], gid, path_or_url);
            proof {
                assert(errors_view(errors@) =~= s3 + spec_attributes_errors(
                    self.attributes@.subrange(0, i + 1),
                    self.id@,
                    path_or_url@,
                ));
            }
            i = i + 1;
        }
        assert(self.attributes@.subrange(0, self.attributes@.len() as int) =~= self.attributes@);
        assert(s0 =~= Seq::<ErrorView>::empty());
        assert(errors_view(errors@) =~= spec_group_errors(*self, path_or_url@));
        proof {
            crate::error::lemma_errors_view_len(errors@);
        }
        WResult::with_non_fatal_errors((), errors)
    }

    /// Appends the errors about the group as a whole.
    fn validate_shape(&self, errors: &mut Vec<Error>, path_or_url: &str)
        ensures
            errors_view(final(errors)@) == errors_view(old(errors)@) + spec_group_shape_errors(
                *self,
                path_or_url@,
            ),
    {
        let ghost s0 = errors_view(errors@);
        self.validate_header(errors, path_or_url);
        let ghost s1 = errors_view(errors@);
        validate_duplicate_attribute_ref(errors, &self.attributes, self.id.as_str(), path_or_url);
        let ghost s2 = errors_view(errors@);
        self.validate_kind(errors, path_or_url);
        assert(errors_view(errors@) =~= s0 + spec_group_shape_errors(*self, path_or_url@));
    }

    /// Appends the errors about the prefix and the stability.
    fn validate_header(&self, errors: &mut Vec<Error>, path_or_url: &str)
        ensures
            errors_view(final(errors)@) == errors_view(old(errors)@) + spec_group_header_errors(
                *self,
                path_or_url@,
            ),
    {
        let ghost s0 = errors_view(errors@);
        push_error_if(
            errors,
            self.prefix.unicode_len() != 0,
            Error::InvalidGroupUsesPrefix {
                path_or_url: String::from_str(path_or_url),
                group_id: self.id.clone(),
            },
        );
        push_error_if(
            errors,
            self.type_ != GroupType::AttributeGroup && self.stability.is_none(),
            Error::InvalidGroupStability {
                path_or_url: String::from_str(path_or_url),
                group_id: self.id.clone(),
                error: String::from_str("This group does not contain a stability field."),
            },
        );
        let deprecated_stability = match self.stability {
            Some(Stability::Deprecated) => true,
            _ => false,
        };
        push_error_if(
            errors,
            deprecated_stability,
            Error::InvalidGroupStability {
                path_or_url: String::from_str(path_or_url),
                group_id: self.id.clone(),
                error: String::from_str(
                    "Group stability is set to 'deprecated' which is no longer supported.",
                ),
            },
        );
        assert(errors_view(errors@) =~= s0 + spec_group_header_errors(*self, path_or_url@));
    }

    /// Appends the errors about what the type of the group expects.
    fn validate_kind(&self, errors: &mut Vec<Error>, path_or_url: &str)
        ensures
            errors_view(final(errors)@) == errors_view(old(errors)@) + spec_group_kind_errors(
                *self,
                path_or_url@,
            ),
    {
        let ghost s0 = errors_view(errors@);
        push_error_if(
            errors,
            self.type_ != GroupType::Metric && self.type_ != GroupType::Event
                && self.extends.is_none() && self.attributes.len() == 0,
            Error::InvalidGroupMissingExtendsOrAttributes {
                path_or_url: String::from_str(path_or_url),
                group_id: self.id.clone(),
                error: String::from_str("This group does not contain an extends or attributes field."),
            },
        );
        let not_span = self.type_ != GroupType::Span && self.type_ != GroupType::Undefined;
        push_error_if(
            errors,
            not_span && self.span_kind.is_some(),
            Error::InvalidGroup {
                path_or_url: String::from_str(path_or_url),
                group_id: self.id.clone(),
                error: String::from_str(
                    "This group contains a span_kind field but the type is not set to span.",
                ),
            },
        );
        push_error_if(
            errors,
            not_span && self.events.len() != 0,
            Error::InvalidGroup {
                path_or_url: String::from_str(path_or_url),
                group_id: self.id.clone(),
                error: String::from_str(
                    "This group contains an events field but the type is not set to span.",
                ),
            },
        );
        push_error_if(
            errors,
            self.type_ == GroupType::Undefined,
            Error::InvalidGroupMissingType {
                path_or_url: String::from_str(path_or_url),
                group_id: self.id.clone(),
                error: String::from_str("This group does not contain a type field."),
            },
        );
        push_error_if(
            errors,
            self.type_ == GroupType::Span && self.span_kind.is_none(),
            Error::InvalidSpanMissingSpanKind {
                path_or_url: String::from_str(path_or_url),
                group_id: self.id.clone(),
                error: String::from_str("This group is a Span but the span_kind is not set."),
            },
        );
        assert(errors_view(errors@) =~= s0 + spec_group_kind_errors(*self, path_or_url@));
    }

    /// Appends the errors about the event name and body.
    fn validate_event(&self, errors: &mut Vec<Error>, path_or_url: &str)
        ensures
            errors_view(final(errors)@) == errors_view(old(errors)@) + spec_event_errors(
                *self,
                path_or_url@,
            ),
    {
        let ghost start = errors_view(errors@);
        if self.type_ == GroupType::Event {
            push_error_if(
                errors,
                self.body.is_some() && self.name.is_none(),
                Error::InvalidGroup {
                    path_or_url: String::from_str(path_or_url),
                    group_id: self.id.clone(),
                    error: String::from_str(
                        "This group contains an event type with a body definition but the name is not set.",
                    ),
                },
            );
            push_error_if(
                errors,
                self.body.is_none() && self.name.is_none() && self.prefix.unicode_len() == 0,
                Error::InvalidGroup {
                    path_or_url: String::from_str(path_or_url),
                    group_id: self.id.clone(),
                    error: String::from_str(
                        "This group contains an event type but the name is not set and no prefix is defined.",
                    ),
                },
            );
            let ghost mid = errors_view(errors@);
            match &self.body {
                Some(b) => {
                    validate_any_value(errors, b, self.id.as_str(), path_or_url);
                    validate_any_value_examples(errors, b, self.id.as_str(), path_or_url);
                },
                None => {
                    assert(mid + Seq::<ErrorView>::empty() =~= mid);
                },
            }
            assert(errors_view(errors@) =~= start + spec_event_errors(*self, path_or_url@));
        } else {
            push_error_if(
                errors,
                self.body.is_some(),
                Error::InvalidGroup {
                    path_or_url: String::from_str(path_or_url),
                    group_id: self.id.clone(),
                    error: String::from_str(
                        "This group contains a body field but the type is not set to event.",
                    ),
                },
            );
        }
    }

    /// Appends the errors about the metric fields.
    fn validate_metric(&self, errors: &mut Vec<Error>, path_or_url: &str)
        ensures
            errors_view(final(errors)@) == errors_view(old(errors)@) + spec_metric_errors(
                *self,
                path_or_url@,
            ),
    {
        let ghost start = errors_view(errors@);
        if self.type_ == GroupType::Metric {
            push_error_if(
                errors,
                self.metric_name.is_none(),
                Error::InvalidMetric {
                    path_or_url: String::from_str(path_or_url),
                    group_id: self.id.clone(),
                    error: String::from_str(
                        "This group contains a metric type but the metric_name is not set.",
                    ),
                },
            );
            push_error_if(
                errors,
                self.instrument.is_none(),
                Error::InvalidMetric {
                    path_or_url: String::from_str(path_or_url),
                    group_id: self.id.clone(),
                    error: String::from_str(
                        "This group contains a metric type but the instrument is not set.",
                    ),
                },
            );
            push_error_if(
                errors,
                self.unit.is_none(),
                Error::InvalidMetric {
                    path_or_url: String::from_str(path_or_url),
                    group_id: self.id.clone(),
                    error: String::from_str("This group contains a metric type but the unit is not set."),
                },
            );
            assert(errors_view(errors@) =~= start + spec_metric_errors(*self, path_or_url@));
        } else {
            assert(start + Seq::<ErrorView>::empty() =~= start);
        }
    }
}
/// A group with the path or URL of the file it was read from.
#[derive(Debug, PartialEq)]
pub struct GroupSpecWithProvenance {
    /// The group.
    pub spec: GroupSpec,
    /// The path or URL of its file.
    pub provenance: String,
}

} // verus!
