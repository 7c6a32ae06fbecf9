use weaver_semconv::group::AttributeGroupVisibilitySpec as V1VisibilitySpec;
use weaver_semconv::v2::attribute_group::{AttributeGroup, InternalAttributeGroup, PublicAttributeGroup};
use weaver_semconv::v2::entity::EntityRefinement;
use weaver_semconv::v2::event::{Event, EventRefinement};
use weaver_semconv::v2::CommonFields;
use weaver_semconv::v2::attribute::{AttributeOrGroupRef, GroupRef};
use weaver_semconv::v2::signal_id::SignalId;
use weaver_semconv::attribute::AttributeSpec as V1AttributeSpec;
use weaver_semconv::v2::span::{SpanAttributeOrGroupRef, SpanAttributeRef, SpanGroupRef};
use weaver_semconv::group::GroupType as V1GroupType;
use weaver_semconv::stability::Stability;
use weaver_semconv::v2::metric::MetricRefinement;
use weaver_semconv::attribute::{
    AttributeType as V1AttributeType, BasicRequirementLevelSpec as V1BasicRequirementLevelSpec,
    Examples as V1Examples, PrimitiveOrArrayTypeSpec as V1PrimitiveOrArrayTypeSpec,
    RequirementLevel as V1RequirementLevel, TemplateTypeSpec as V1TemplateTypeSpec,
    ValueSpec as V1ValueSpec,
};
use weaver_semconv::convert::{
    v1_attribute_type_to_v2, v1_examples_to_v2, v1_instrument_to_v2,
    v1_primitive_or_array_type_to_v2, v1_requirement_level_to_v2, v1_span_kind_to_v2,
    v1_span_name_to_v2, v1_template_type_to_v2, v1_value_to_v2, v2_attribute_type_to_v1,
    v2_examples_to_v1, v2_instrument_to_v1, v2_primitive_or_array_type_to_v1,
    v2_requirement_level_to_v1, v2_span_kind_to_v1, v2_span_name_to_v1, v2_template_type_to_v1,
    v2_value_to_v1,
};
use weaver_semconv::group::{InstrumentSpec as V1InstrumentSpec, SpanKindSpec as V1SpanKindSpec};
use weaver_semconv::v2::attribute::{
    AttributeType as V2AttributeType, BasicRequirementLevelSpec as V2BasicRequirementLevelSpec,
    EnumEntriesSpec as V2EnumEntriesSpec, Examples as V2Examples,
    PrimitiveOrArrayTypeSpec as V2PrimitiveOrArrayTypeSpec, RequirementLevel as V2RequirementLevel,
    TemplateTypeSpec as V2TemplateTypeSpec, ValueSpec as V2ValueSpec,
};
use weaver_semconv::v2::metric::InstrumentSpec as V2InstrumentSpec;
use weaver_semconv::v2::span::{SpanKindSpec as V2SpanKindSpec, SpanName};
use weaver_semconv::yaml_value::F64Bits;

fn d(x: f64) -> F64Bits {
    F64Bits(x.to_bits())
}

#[test]
fn test_primitive_or_array_type_conversions() {
    let v2_types = [
        V2PrimitiveOrArrayTypeSpec::Boolean,
        V2PrimitiveOrArrayTypeSpec::Int,
        V2PrimitiveOrArrayTypeSpec::Double,
        V2PrimitiveOrArrayTypeSpec::String,
        V2PrimitiveOrArrayTypeSpec::Any,
        V2PrimitiveOrArrayTypeSpec::Strings,
        V2PrimitiveOrArrayTypeSpec::Ints,
        V2PrimitiveOrArrayTypeSpec::Doubles,
        V2PrimitiveOrArrayTypeSpec::Booleans,
    ];
    let v1_types = [
        V1PrimitiveOrArrayTypeSpec::Boolean,
        V1PrimitiveOrArrayTypeSpec::Int,
        V1PrimitiveOrArrayTypeSpec::Double,
        V1PrimitiveOrArrayTypeSpec::String,
        V1PrimitiveOrArrayTypeSpec::Any,
        V1PrimitiveOrArrayTypeSpec::Strings,
        V1PrimitiveOrArrayTypeSpec::Ints,
        V1PrimitiveOrArrayTypeSpec::Doubles,
        V1PrimitiveOrArrayTypeSpec::Booleans,
    ];
    for (v2, v1) in v2_types.iter().zip(v1_types.iter()) {
        assert_eq!(v2_primitive_or_array_type_to_v1(v2.clone()), v1.clone());
        assert_eq!(v1_primitive_or_array_type_to_v2(v1.clone()), v2.clone());
    }
}

#[test]
fn test_template_type_conversions() {
    let v2_templates = [
        V2TemplateTypeSpec::Boolean,
        V2TemplateTypeSpec::Int,
        V2TemplateTypeSpec::Double,
        V2TemplateTypeSpec::String,
        V2TemplateTypeSpec::Any,
        V2TemplateTypeSpec::Strings,
        V2TemplateTypeSpec::Ints,
        V2TemplateTypeSpec::Doubles,
        V2TemplateTypeSpec::Booleans,
    ];
    let v1_templates = [
        V1TemplateTypeSpec::Boolean,
        V1TemplateTypeSpec::Int,
        V1TemplateTypeSpec::Double,
        V1TemplateTypeSpec::String,
        V1TemplateTypeSpec::Any,
        V1TemplateTypeSpec::Strings,
        V1TemplateTypeSpec::Ints,
        V1TemplateTypeSpec::Doubles,
        V1TemplateTypeSpec::Booleans,
    ];
    for (v2, v1) in v2_templates.iter().zip(v1_templates.iter()) {
        assert_eq!(v2_template_type_to_v1(v2.clone()), v1.clone());
        assert_eq!(v1_template_type_to_v2(v1.clone()), v2.clone());
    }
}

#[test]
fn test_value_conversions() {
    let test_cases = [
        (V2ValueSpec::Int(42), V1ValueSpec::Int(42)),
        (V2ValueSpec::Double(d(2.5)), V1ValueSpec::Double(d(2.5))),
        (
            V2ValueSpec::String("hello".to_owned()),
            V1ValueSpec::String("hello".to_owned()),
        ),
        (V2ValueSpec::Bool(true), V1ValueSpec::Bool(true)),
    ];
    for (v2, v1) in test_cases {
        assert_eq!(v2_value_to_v1(v2.clone()), v1.clone());
        assert_eq!(v1_value_to_v2(v1.clone()), v2.clone());
    }
}

#[test]
fn test_attribute_type_conversions() {
    let primitive_v2 = V2AttributeType::PrimitiveOrArray(V2PrimitiveOrArrayTypeSpec::String);
    let primitive_v1 = v2_attribute_type_to_v1(primitive_v2.clone());
    assert_eq!(
        primitive_v1,
        V1AttributeType::PrimitiveOrArray(V1PrimitiveOrArrayTypeSpec::String)
    );
    assert_eq!(v1_attribute_type_to_v2(primitive_v1), primitive_v2);

    let template_v2 = V2AttributeType::Template(V2TemplateTypeSpec::Int);
    let template_v1 = v2_attribute_type_to_v1(template_v2.clone());
    assert_eq!(template_v1, V1AttributeType::Template(V1TemplateTypeSpec::Int));
    assert_eq!(v1_attribute_type_to_v2(template_v1), template_v2);

    let enum_v2 = V2AttributeType::Enum {
        members: vec![V2EnumEntriesSpec {
            id: "item1".to_owned(),
            value: V2ValueSpec::Int(1),
            brief: None,
            note: None,
            stability: None,
            deprecated: None,
            annotations: Default::default(),
        }],
    };
    let enum_v1 = v2_attribute_type_to_v1(enum_v2.clone());
    assert!(matches!(enum_v1, V1AttributeType::Enum { ref members, .. } if members.len() == 1));
    assert_eq!(v1_attribute_type_to_v2(enum_v1), enum_v2);
}

#[test]
fn test_examples_conversions() {
    let examples_cases = [
        (V2Examples::Bool(true), V1Examples::Bool(true)),
        (V2Examples::Int(42), V1Examples::Int(42)),
        (V2Examples::Double(d(2.5)), V1Examples::Double(d(2.5))),
        (
            V2Examples::String("example".to_owned()),
            V1Examples::String("example".to_owned()),
        ),
        (
            V2Examples::Any(V2ValueSpec::Int(10)),
            V1Examples::Any(V1ValueSpec::Int(10)),
        ),
        (V2Examples::Ints(vec![1, 2, 3]), V1Examples::Ints(vec![1, 2, 3])),
        (
            V2Examples::Doubles(vec![d(1.1), d(2.2)]),
            V1Examples::Doubles(vec![d(1.1), d(2.2)]),
        ),
        (
            V2Examples::Bools(vec![true, false]),
            V1Examples::Bools(vec![true, false]),
        ),
        (
            V2Examples::Strings(vec!["a".to_owned(), "b".to_owned()]),
            V1Examples::Strings(vec!["a".to_owned(), "b".to_owned()]),
        ),
        (
            V2Examples::Anys(vec![
                V2ValueSpec::String("val".to_owned()),
                V2ValueSpec::Bool(true),
            ]),
            V1Examples::Anys(vec![
                V1ValueSpec::String("val".to_owned()),
                V1ValueSpec::Bool(true),
            ]),
        ),
        (
            V2Examples::ListOfInts(vec![vec![1, 2], vec![3]]),
            V1Examples::ListOfInts(vec![vec![1, 2], vec![3]]),
        ),
        (
            V2Examples::ListOfDoubles(vec![vec![d(1.1)]]),
            V1Examples::ListOfDoubles(vec![vec![d(1.1)]]),
        ),
        (
            V2Examples::ListOfBools(vec![vec![true, false]]),
            V1Examples::ListOfBools(vec![vec![true, false]]),
        ),
        (
            V2Examples::ListOfStrings(vec![vec!["s1".to_owned(), "s2".to_owned()]]),
            V1Examples::ListOfStrings(vec![vec!["s1".to_owned(), "s2".to_owned()]]),
        ),
    ];
    for (v2, v1) in examples_cases {
        assert_eq!(v2_examples_to_v1(v2.clone()), v1.clone());
        assert_eq!(v1_examples_to_v2(v1.clone()), v2.clone());
    }
}

#[test]
fn test_requirement_level_conversions() {
    let req_cases = [
        (
            V2RequirementLevel::Basic(V2BasicRequirementLevelSpec::Required),
            V1RequirementLevel::Basic(V1BasicRequirementLevelSpec::Required),
        ),
        (
            V2RequirementLevel::Basic(V2BasicRequirementLevelSpec::Recommended),
            V1RequirementLevel::Basic(V1BasicRequirementLevelSpec::Recommended),
        ),
        (
            V2RequirementLevel::Basic(V2BasicRequirementLevelSpec::OptIn),
            V1RequirementLevel::Basic(V1BasicRequirementLevelSpec::OptIn),
        ),
        (
            V2RequirementLevel::ConditionallyRequired {
                text: "when enabled".to_owned(),
            },
            V1RequirementLevel::ConditionallyRequired {
                text: "when enabled".to_owned(),
            },
        ),
        (
            V2RequirementLevel::Recommended {
                text: "for diagnostics".to_owned(),
            },
            V1RequirementLevel::Recommended {
                text: "for diagnostics".to_owned(),
            },
        ),
        (
            V2RequirementLevel::OptIn {
                text: "experimental feature".to_owned(),
            },
            V1RequirementLevel::OptIn {
                text: "experimental feature".to_owned(),
            },
        ),
    ];
    for (v2, v1) in req_cases {
        assert_eq!(v2_requirement_level_to_v1(v2.clone()), v1.clone());
        assert_eq!(v1_requirement_level_to_v2(v1.clone()), v2.clone());
    }
}

#[test]
fn test_instrument_conversions() {
    let cases = [
        (V2InstrumentSpec::Counter, V1InstrumentSpec::Counter),
        (V2InstrumentSpec::Gauge, V1InstrumentSpec::Gauge),
        (V2InstrumentSpec::Histogram, V1InstrumentSpec::Histogram),
        (V2InstrumentSpec::UpDownCounter, V1InstrumentSpec::UpDownCounter),
    ];
    for (v2, v1) in cases {
        assert_eq!(v2_instrument_to_v1(v2), v1);
        assert_eq!(v1_instrument_to_v2(v1), v2);
    }
}

#[test]
fn test_span_kind_conversions() {
    let cases = [
        (V2SpanKindSpec::Internal, V1SpanKindSpec::Internal),
        (V2SpanKindSpec::Server, V1SpanKindSpec::Server),
        (V2SpanKindSpec::Client, V1SpanKindSpec::Client),
        (V2SpanKindSpec::Producer, V1SpanKindSpec::Producer),
        (V2SpanKindSpec::Consumer, V1SpanKindSpec::Consumer),
    ];
    for (v2, v1) in cases {
        assert_eq!(v2_span_kind_to_v1(v2), v1);
        assert_eq!(v1_span_kind_to_v2(v1), v2);
    }
}

#[test]
fn test_span_name_conversions() {
    let v2_span_name = SpanName {
        templates: vec![],
        note: Some("HTTP {method}".to_owned()),
    };
    let v1_span_name = v2_span_name_to_v1(v2_span_name.clone());
    assert_eq!(v1_span_name.note.as_deref(), Some("HTTP {method}"));
    assert_eq!(v1_span_name_to_v2(v1_span_name).note, v2_span_name.note);
}

#[test]
fn enum_custom_values_flag_is_dropped_on_the_way_to_v2() {
    let v1 = V1AttributeType::Enum {
        allow_custom_values: Some(true),
        members: vec![],
    };
    let v2 = v1_attribute_type_to_v2(v1);
    assert_eq!(v2, V2AttributeType::Enum { members: vec![] });
    let back = v2_attribute_type_to_v1(v2);
    assert_eq!(
        back,
        V1AttributeType::Enum {
            allow_custom_values: None,
            members: vec![]
        }
    );
}

fn plain_ref(key: &str) -> weaver_semconv::v2::attribute::AttributeRef {
    weaver_semconv::v2::attribute::AttributeRef {
        ref_: key.to_owned(),
        brief: None,
        examples: None,
        requirement_level: None,
        note: None,
        annotations: vec![],
    }
}

#[test]
fn test_split_attributes_and_groups() {
    let items = vec![
        AttributeOrGroupRef::Attribute(plain_ref("attr1")),
        AttributeOrGroupRef::Group(GroupRef { ref_group: SignalId("my_group".to_owned()) }),
    ];

    let (attrs, groups) = weaver_semconv::convert::split_attributes_and_groups_to_v1(items);
    assert_eq!(attrs.len(), 1);
    assert_eq!(groups.len(), 1);
    assert_eq!(groups[0], "my_group");
}

#[test]
fn test_split_span_attributes_and_groups() {
    let items = vec![
        SpanAttributeOrGroupRef::Attribute(SpanAttributeRef {
            base: plain_ref("attr1"),
            sampling_relevant: Some(true),
        }),
        SpanAttributeOrGroupRef::Group(SpanGroupRef { ref_group: "span_group".to_owned() }),
    ];

    let (attrs, groups) = weaver_semconv::convert::split_span_attributes_and_groups_to_v1(items);
    assert_eq!(attrs.len(), 1);
    assert_eq!(groups.len(), 1);
    assert_eq!(groups[0], "span_group");
    match &attrs[0] {
        V1AttributeSpec::Ref { sampling_relevant, .. } => {
            assert_eq!(*sampling_relevant, Some(true));
        }
        V1AttributeSpec::Id { .. } => panic!("Expected V1AttributeSpec::Ref"),
    }
}

#[test]
fn test_metric_refinement_translation() {
    let refinement = MetricRefinement {
        id: SignalId("my_metric_refinement".to_owned()),
        ref_: SignalId("original_metric".to_owned()),
        brief: Some("Refined brief".to_owned()),
        note: Some("Refined note".to_owned()),
        stability: Some(Stability::Stable),
        deprecated: None,
        attributes: vec![AttributeOrGroupRef::Attribute(plain_ref("extra_attr"))],
        annotations: vec![],
        entity_associations: vec![],
    };

    let v1_group = weaver_semconv::convert::v2_metric_refinement_to_v1(refinement);
    assert_eq!(v1_group.id, "my_metric_refinement");
    assert_eq!(v1_group.type_, V1GroupType::Metric);
    assert_eq!(v1_group.extends, Some("metric.original_metric".to_owned()));
    assert_eq!(v1_group.brief, "Refined brief");
    assert_eq!(v1_group.attributes.len(), 1);
    assert!(v1_group.is_v2);
}

#[test]
fn test_event_translation() {
    let event = Event {
        name: SignalId("exception".to_owned()),
        common: CommonFields {
            brief: "An exception occurred".to_owned(),
            note: "Event details".to_owned(),
            stability: Stability::Stable,
            deprecated: None,
            annotations: vec![],
        },
        attributes: vec![AttributeOrGroupRef::Attribute(plain_ref("exception.type"))],
        entity_associations: vec![],
        requirement_level: None,
    };

    let v1_group = weaver_semconv::convert::v2_event_to_v1(event);
    assert_eq!(v1_group.id, "event.exception");
    assert_eq!(v1_group.type_, V1GroupType::Event);
    assert_eq!(v1_group.name, Some("exception".to_owned()));
    assert_eq!(v1_group.attributes.len(), 1);
    assert!(v1_group.is_v2);
}

#[test]
fn test_event_refinement_translation() {
    let refinement = EventRefinement {
        id: SignalId("exception.refined".to_owned()),
        ref_: SignalId("exception".to_owned()),
        brief: Some("Refined exception".to_owned()),
        note: None,
        stability: Some(Stability::Stable),
        deprecated: None,
        attributes: vec![],
        annotations: vec![],
        entity_associations: vec![],
    };

    let v1_group = weaver_semconv::convert::v2_event_refinement_to_v1(refinement);
    assert_eq!(v1_group.id, "exception.refined");
    assert_eq!(v1_group.type_, V1GroupType::Event);
    assert_eq!(v1_group.extends, Some("event.exception".to_owned()));
    assert!(v1_group.is_v2);
}

#[test]
fn test_entity_refinement_translation() {
    let refinement = EntityRefinement {
        id: SignalId("host.refined".to_owned()),
        ref_: SignalId("host".to_owned()),
        identity: vec![plain_ref("host.id")],
        description: vec![plain_ref("host.name")],
        brief: Some("Refined host".to_owned()),
        note: None,
        stability: Some(Stability::Stable),
        deprecated: None,
        annotations: vec![],
    };

    let v1_group = weaver_semconv::convert::v2_entity_refinement_to_v1(refinement);
    assert_eq!(v1_group.id, "host.refined");
    assert_eq!(v1_group.type_, V1GroupType::Entity);
    assert_eq!(v1_group.extends, Some("entity.host".to_owned()));
    assert_eq!(v1_group.attributes.len(), 2);
    assert!(v1_group.is_v2);
}

#[test]
fn test_attribute_group_translation() {
    let internal_ag = AttributeGroup::Internal(InternalAttributeGroup {
        id: SignalId("internal.group".to_owned()),
        attributes: vec![AttributeOrGroupRef::Attribute(plain_ref("some.attr"))],
    });

    let v1_internal = weaver_semconv::convert::v2_attribute_group_to_v1(internal_ag);
    assert_eq!(v1_internal.id, "internal.group");
    assert_eq!(v1_internal.type_, V1GroupType::AttributeGroup);
    assert_eq!(v1_internal.visibility, Some(V1VisibilitySpec::Internal));
    assert_eq!(v1_internal.attributes.len(), 1);

    let public_ag = AttributeGroup::Public(PublicAttributeGroup {
        id: SignalId("public.group".to_owned()),
        common: CommonFields {
            brief: "Public attribute group".to_owned(),
            note: "Group notes".to_owned(),
            stability: Stability::Stable,
            deprecated: None,
            annotations: vec![],
        },
        attributes: vec![],
    });

    let v1_public = weaver_semconv::convert::v2_attribute_group_to_v1(public_ag);
    assert_eq!(v1_public.id, "public.group");
    assert_eq!(v1_public.type_, V1GroupType::AttributeGroup);
    assert_eq!(v1_public.visibility, Some(V1VisibilitySpec::Public));
    assert_eq!(v1_public.brief, "Public attribute group");
}

#[test]
fn test_imports_translation() {
    let w = |p: &str| weaver_semconv::v2::GroupWildcard::new(p).unwrap();
    let v2_imports = weaver_semconv::v2::Imports {
        metrics: Some(vec![w("metric.*")]),
        events: Some(vec![w("event.*")]),
        entities: Some(vec![w("entity.*")]),
        spans: Some(vec![w("span.*")]),
        attribute_groups: Some(vec![w("group.*")]),
    };

    let v1_imports =
        weaver_semconv::convert::v2_imports_to_v1(Some(v2_imports)).expect("Imports should be present");
    assert_eq!(v1_imports.metrics.as_ref().map(|v| v.len()), Some(1));
    assert_eq!(v1_imports.events.as_ref().map(|v| v.len()), Some(1));
    assert_eq!(v1_imports.entities.as_ref().map(|v| v.len()), Some(1));
    assert_eq!(v1_imports.spans.as_ref().map(|v| v.len()), Some(1));
    assert_eq!(v1_imports.attribute_groups.as_ref().map(|v| v.len()), Some(1));
}

fn annotation(key: &str, value: &str) -> Vec<(String, weaver_semconv::yaml_value::YamlValue)> {
    vec![(key.to_owned(), weaver_semconv::yaml_value::YamlValue { yaml: value.to_owned() })]
}

#[test]
fn test_enum_entry_conversions() {
    let annotations = annotation("custom_key", "custom_val");

    let v2_enum_entry = V2EnumEntriesSpec {
        id: "ok".to_owned(),
        value: V2ValueSpec::String("SUCCESS".to_owned()),
        brief: Some("Success status".to_owned()),
        note: Some("Detailed status note".to_owned()),
        stability: Some(Stability::Stable),
        deprecated: Some(weaver_semconv::deprecated::Deprecated::Renamed {
            renamed_to: "new_ok".to_owned(),
            note: "Use new_ok instead".to_owned(),
        }),
        annotations: Some(annotations.clone()),
    };

    let v1_enum_entry = weaver_semconv::convert::v2_enum_entry_to_v1(v2_enum_entry.clone());
    assert_eq!(v1_enum_entry.id, "ok");
    assert_eq!(v1_enum_entry.value, V1ValueSpec::String("SUCCESS".to_owned()));
    assert_eq!(v1_enum_entry.brief, Some("Success status".to_owned()));
    assert_eq!(v1_enum_entry.note, Some("Detailed status note".to_owned()));
    assert_eq!(v1_enum_entry.stability, Some(Stability::Stable));
    assert_eq!(v1_enum_entry.annotations, Some(annotations));

    let converted_back_v2 = weaver_semconv::convert::v1_enum_entry_to_v2(v1_enum_entry);
    assert_eq!(converted_back_v2.id, v2_enum_entry.id);
    assert_eq!(converted_back_v2.value, v2_enum_entry.value);
    assert_eq!(converted_back_v2.brief, v2_enum_entry.brief);
    assert_eq!(converted_back_v2.note, v2_enum_entry.note);
    assert_eq!(converted_back_v2.stability, v2_enum_entry.stability);
    assert_eq!(converted_back_v2.deprecated, v2_enum_entry.deprecated);
    assert_eq!(converted_back_v2.annotations, v2_enum_entry.annotations);
}

#[test]
fn test_attribute_def_and_ref_to_v1() {
    let annotations = annotation("tier", "core");

    let attr_def = weaver_semconv::v2::attribute::AttributeDef {
        key: "http.status_code".to_owned(),
        type_: V2AttributeType::PrimitiveOrArray(V2PrimitiveOrArrayTypeSpec::Int),
        examples: Some(V2Examples::Int(200)),
        common: CommonFields {
            brief: "HTTP response status code".to_owned(),
            note: "Note text".to_owned(),
            stability: Stability::Stable,
            deprecated: Some(weaver_semconv::deprecated::Deprecated::Renamed {
                renamed_to: "response.status_code".to_owned(),
                note: "Use response.status_code".to_owned(),
            }),
            annotations: annotations.clone(),
        },
    };

    let v1_spec = weaver_semconv::convert::v2_attribute_to_v1(attr_def);
    match v1_spec {
        V1AttributeSpec::Id { id, type_, brief, examples, stability, deprecated, annotations: ans, .. } => {
            assert_eq!(id, "http.status_code");
            assert_eq!(type_, V1AttributeType::PrimitiveOrArray(V1PrimitiveOrArrayTypeSpec::Int));
            assert_eq!(brief, Some("HTTP response status code".to_owned()));
            assert_eq!(examples, Some(V1Examples::Int(200)));
            assert_eq!(stability, Some(Stability::Stable));
            assert!(deprecated.is_some());
            assert_eq!(ans, Some(annotations.clone()));
        }
        V1AttributeSpec::Ref { .. } => panic!("Expected V1AttributeSpec::Id"),
    }

    let attr_ref = weaver_semconv::v2::attribute::AttributeRef {
        ref_: "http.status_code".to_owned(),
        brief: Some("Override brief".to_owned()),
        examples: Some(V2Examples::Int(404)),
        requirement_level: Some(V2RequirementLevel::Basic(V2BasicRequirementLevelSpec::Required)),
        note: Some("Override note".to_owned()),
        annotations: annotations.clone(),
    };

    let v1_ref = weaver_semconv::convert::v2_attribute_ref_to_v1(attr_ref.clone());
    match v1_ref {
        V1AttributeSpec::Ref { ref_, brief, examples, requirement_level, note, annotations: ans, role, .. } => {
            assert_eq!(ref_, "http.status_code");
            assert_eq!(brief, Some("Override brief".to_owned()));
            assert_eq!(examples, Some(V1Examples::Int(404)));
            assert_eq!(
                requirement_level,
                Some(V1RequirementLevel::Basic(V1BasicRequirementLevelSpec::Required))
            );
            assert_eq!(note, Some("Override note".to_owned()));
            assert_eq!(ans, Some(annotations.clone()));
            assert_eq!(role, None);
        }
        V1AttributeSpec::Id { .. } => panic!("Expected V1AttributeSpec::Ref"),
    }

    let v1_role_ref = weaver_semconv::convert::v2_attribute_ref_to_v1_with_role(
        attr_ref,
        weaver_semconv::attribute::AttributeRole::Identifying,
    );
    match v1_role_ref {
        V1AttributeSpec::Ref { role, .. } => {
            assert_eq!(role, Some(weaver_semconv::attribute::AttributeRole::Identifying));
        }
        V1AttributeSpec::Id { .. } => panic!("Expected V1AttributeSpec::Ref with role"),
    }
}
