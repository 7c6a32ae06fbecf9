use weaver_semconv::any_value::{AnyValueCommonSpec, AnyValueSpec};
use weaver_semconv::attribute::{
    AttributeSpec, AttributeType, BasicRequirementLevelSpec, EnumEntriesSpec, Examples,
    PrimitiveOrArrayTypeSpec, RequirementLevel, ValueSpec,
};
use weaver_semconv::deprecated::Deprecated;
use weaver_semconv::error::Error;
use weaver_semconv::error::Error::{
    CompoundError, InvalidAttributeAllowCustomValues, InvalidAttributeWarning,
    InvalidExampleWarning, InvalidGroup, InvalidGroupMissingType, InvalidGroupUsesPrefix,
    InvalidMetric, InvalidSpanMissingSpanKind,
};
use weaver_semconv::group::{GroupSpec, GroupType, SpanKindSpec};
use weaver_semconv::stability::Stability;

#[test]
fn test_validate_group() {
    let mut group = GroupSpec {
        include_groups: vec![],
        entity_associations: vec![],
        visibility: None,
        is_v2: false,
        span_name: None,
        requirement_level: None,
        id: "test".to_owned(),
        type_: GroupType::Span,
        brief: "test".to_owned(),
        note: "test".to_owned(),
        prefix: "".to_owned(),
        extends: None,
        stability: Some(Stability::Development),
        constraints: None,
        deprecated: Some(Deprecated::Obsoleted {
            note: "".to_owned(),
        }),
        attributes: vec![AttributeSpec::Id {
            role: None,
            id: "test".to_owned(),
            type_: AttributeType::PrimitiveOrArray(PrimitiveOrArrayTypeSpec::String),
            brief: None,
            stability: Some(Stability::Development),
            deprecated: Some(Deprecated::Obsoleted {
                note: "".to_owned(),
            }),
            examples: Some(Examples::String("test".to_owned())),
            tag: None,
            requirement_level: Default::default(),
            sampling_relevant: None,
            note: "".to_owned(),
            annotations: None,
        }],
        span_kind: Some(SpanKindSpec::Client),
        events: vec!["event".to_owned()],
        metric_name: None,
        instrument: None,
        unit: None,
        name: None,
        display_name: None,
        body: None,
        annotations: None,
    };
    assert!(group
        .validate("<test>")
        .into_result_failing_non_fatal()
        .is_ok());

    // group has a prefix.
    group.prefix = "test".to_owned();
    let result = group.validate("<test>").into_result_failing_non_fatal();
    assert_eq!(
        Err(InvalidGroupUsesPrefix {
            path_or_url: "<test>".to_owned(),
            group_id: "test".to_owned()
        }),
        result
    );

    // Span kind is missing on a span group.
    group.prefix = "".to_owned();
    group.span_kind = None;
    let result = group.validate("<test>").into_result_failing_non_fatal();
    assert_eq!(
        Err(InvalidSpanMissingSpanKind {
            path_or_url: "<test>".to_owned(),
            group_id: "test".to_owned(),
            error: "This group is a Span but the span_kind is not set.".to_owned(),
        },),
        result
    );

    // Group type is missing on a group.
    group.type_ = GroupType::Undefined;
    let result = group.validate("<test>").into_result_failing_non_fatal();
    assert_eq!(
        Err(InvalidGroupMissingType {
            path_or_url: "<test>".to_owned(),
            group_id: "test".to_owned(),
            error: "This group does not contain a type field.".to_owned(),
        }),
        result
    );

    // Span kind is set but the type is not span.
    group.span_kind = Some(SpanKindSpec::Client);
    group.type_ = GroupType::Metric;
    let result = group.validate("<test>").into_result_failing_non_fatal();
    assert_eq!(
        Err(CompoundError(vec![
            InvalidGroup {
                path_or_url: "<test>".to_owned(),
                group_id: "test".to_owned(),
                error: "This group contains a span_kind field but the type is not set to span."
                    .to_owned(),
            },
            InvalidGroup {
                path_or_url: "<test>".to_owned(),
                group_id: "test".to_owned(),
                error: "This group contains an events field but the type is not set to span."
                    .to_owned(),
            },
            InvalidMetric {
                path_or_url: "<test>".to_owned(),
                group_id: "test".to_owned(),
                error: "This group contains a metric type but the metric_name is not set."
                    .to_owned(),
            },
            InvalidMetric {
                path_or_url: "<test>".to_owned(),
                group_id: "test".to_owned(),
                error: "This group contains a metric type but the instrument is not set."
                    .to_owned(),
            },
            InvalidMetric {
                path_or_url: "<test>".to_owned(),
                group_id: "test".to_owned(),
                error: "This group contains a metric type but the unit is not set.".to_owned(),
            },
        ],),),
        result
    );

    // Field name is required if prefix is empty and if type is event.
    group.type_ = GroupType::Event;
    "".clone_into(&mut group.prefix);
    group.name = None;
    let result = group.validate("<test>").into_result_failing_non_fatal();
    assert_eq!(Err(
        CompoundError(
            vec![
                InvalidGroup {
                    path_or_url: "<test>".to_owned(),
                    group_id: "test".to_owned(),
                    error: "This group contains a span_kind field but the type is not set to span.".to_owned(),
                },
                InvalidGroup {
                    path_or_url: "<test>".to_owned(),
                    group_id: "test".to_owned(),
                    error: "This group contains an events field but the type is not set to span.".to_owned(),
                },
                InvalidGroup {
                    path_or_url: "<test>".to_owned(),
                    group_id: "test".to_owned(),
                    error: "This group contains an event type but the name is not set and no prefix is defined.".to_owned(),
                },
            ],
        ),
    ), result);
}

#[test]
fn test_validate_attribute() {
    let mut group = GroupSpec {
        include_groups: vec![],
        entity_associations: vec![],
        visibility: None,
        is_v2: false,
        span_name: None,
        requirement_level: None,
        id: "test".to_owned(),
        type_: GroupType::Span,
        brief: "test".to_owned(),
        note: "test".to_owned(),
        prefix: "".to_owned(),
        extends: None,
        stability: Some(Stability::Development),
        deprecated: Some(Deprecated::Obsoleted {
            note: "".to_owned(),
        }),
        attributes: vec![AttributeSpec::Id {
            role: None,
            id: "test".to_owned(),
            type_: AttributeType::PrimitiveOrArray(PrimitiveOrArrayTypeSpec::String),
            brief: None,
            stability: Some(Stability::Development),
            deprecated: Some(Deprecated::Obsoleted {
                note: "".to_owned(),
            }),
            examples: Some(Examples::String("test".to_owned())),
            tag: None,
            requirement_level: Default::default(),
            sampling_relevant: None,
            note: "".to_owned(),
            annotations: None,
        }],
        span_kind: Some(SpanKindSpec::Client),
        events: vec!["event".to_owned()],
        metric_name: None,
        instrument: None,
        unit: None,
        name: None,
        display_name: None,
        body: None,
        annotations: None,
        constraints: None,
    };
    assert!(group
        .validate("<test>")
        .into_result_failing_non_fatal()
        .is_ok());

    // Examples are mandatory for string attributes.
    group.attributes = vec![AttributeSpec::Id {
        role: None,
        id: "test".to_owned(),
        type_: AttributeType::PrimitiveOrArray(PrimitiveOrArrayTypeSpec::String),
        brief: None,
        stability: Some(Stability::Development),
        deprecated: Some(Deprecated::Obsoleted {
            note: "".to_owned(),
        }),
        examples: None,
        tag: None,
        requirement_level: Default::default(),
        sampling_relevant: None,
        note: "".to_owned(),
        annotations: None,
    }];
    let result = group.validate("<test>").into_result_failing_non_fatal();
    assert_eq!(
        Err(InvalidExampleWarning {
            path_or_url: "<test>".to_owned(),
            group_id: "test".to_owned(),
            attribute_id: "test".to_owned(),
            error: "This attribute is a string but it does not contain any examples."
                .to_owned(),
        },),
        result
    );

    // Examples are mandatory for strings attributes.
    group.attributes = vec![AttributeSpec::Id {
        role: None,
        id: "test".to_owned(),
        type_: AttributeType::PrimitiveOrArray(PrimitiveOrArrayTypeSpec::Strings),
        brief: None,
        stability: Some(Stability::Development),
        deprecated: Some(Deprecated::Obsoleted {
            note: "".to_owned(),
        }),
        examples: None,
        tag: None,
        requirement_level: Default::default(),
        sampling_relevant: None,
        note: "".to_owned(),
        annotations: None,
    }];
    let result = group.validate("<test>").into_result_failing_non_fatal();
    assert_eq!(
        Err(InvalidExampleWarning {
            path_or_url: "<test>".to_owned(),
            group_id: "test".to_owned(),
            attribute_id: "test".to_owned(),
            error: "This attribute is a string array but it does not contain any examples."
                .to_owned(),
        },),
        result
    );

    // Stability is missing.
    group.attributes = vec![AttributeSpec::Id {
        role: None,
        id: "test".to_owned(),
        type_: AttributeType::PrimitiveOrArray(PrimitiveOrArrayTypeSpec::String),
        brief: None,
        stability: None,
        deprecated: Some(Deprecated::Obsoleted {
            note: "".to_owned(),
        }),
        examples: Some(Examples::String("test".to_owned())),
        tag: None,
        requirement_level: Default::default(),
        sampling_relevant: None,
        note: "".to_owned(),
        annotations: None,
    }];
    let result = group.validate("<test>").into_result_failing_non_fatal();
    assert_eq!(
        Err(InvalidAttributeWarning {
            path_or_url: "<test>".to_owned(),
            group_id: "test".to_owned(),
            attribute_id: "test".to_owned(),
            error: "Missing stability field.".to_owned(),
        },),
        result
    );

    // Stability is set to deprecated.
    group.attributes = vec![AttributeSpec::Id {
        role: None,
        id: "test".to_owned(),
        type_: AttributeType::PrimitiveOrArray(PrimitiveOrArrayTypeSpec::String),
        brief: None,
        stability: Some(Stability::Deprecated),
        deprecated: Some(Deprecated::Obsoleted {
            note: "".to_owned(),
        }),
        examples: Some(Examples::String("test".to_owned())),
        tag: None,
        requirement_level: Default::default(),
        sampling_relevant: None,
        note: "".to_owned(),
        annotations: None,
    }];
    let result = group.validate("<test>").into_result_failing_non_fatal();
    assert_eq!(
        Err(InvalidAttributeWarning {
            path_or_url: "<test>".to_owned(),
            group_id: "test".to_owned(),
            attribute_id: "test".to_owned(),
            error: "Attribute stability is set to 'deprecated' which is no longer supported."
                .to_owned(),
        },),
        result
    );

    // Stability is missing on enum member.
    group.attributes = vec![AttributeSpec::Id {
        role: None,
        id: "test".to_owned(),
        type_: AttributeType::Enum {
            allow_custom_values: None,
            members: vec![EnumEntriesSpec {
                annotations: None,
                id: "member_id".to_owned(),
                value: ValueSpec::String("member_value".to_owned()),
                brief: None,
                note: None,
                stability: None,
                deprecated: None,
            }],
        },
        brief: None,
        stability: Some(Stability::Stable),
        deprecated: Some(Deprecated::Obsoleted {
            note: "".to_owned(),
        }),
        examples: Some(Examples::String("test".to_owned())),
        tag: None,
        requirement_level: Default::default(),
        sampling_relevant: None,
        note: "".to_owned(),
        annotations: None,
    }];
    let result = group.validate("<test>").into_result_failing_non_fatal();
    assert_eq!(
        Err(InvalidAttributeWarning {
            path_or_url: "<test>".to_owned(),
            group_id: "test".to_owned(),
            attribute_id: "test".to_owned(),
            error: "Missing stability field on enum member member_id.".to_owned(),
        },),
        result
    );

    // Stability is set to deprecated on enum member.
    group.attributes = vec![AttributeSpec::Id {
        role: None,
        id: "test".to_owned(),
        type_: AttributeType::Enum {
            allow_custom_values: None,
            members: vec![EnumEntriesSpec {
                annotations: None,
                id: "member_id".to_owned(),
                value: ValueSpec::String("member_value".to_owned()),
                brief: None,
                note: None,
                stability: Some(Stability::Deprecated),
                deprecated: None,
            }],
        },
        brief: None,
        stability: Some(Stability::Stable),
        deprecated: Some(Deprecated::Obsoleted {
            note: "".to_owned(),
        }),
        examples: Some(Examples::String("test".to_owned())),
        tag: None,
        requirement_level: Default::default(),
        sampling_relevant: None,
        note: "".to_owned(),
        annotations: None,
    }];
    let result = group.validate("<test>").into_result_failing_non_fatal();
    assert_eq!(
        Err(InvalidAttributeWarning {
            path_or_url: "<test>".to_owned(),
            group_id: "test".to_owned(),
            attribute_id: "test".to_owned(),
            error: "Member member_id stability is set to 'deprecated' which is no longer supported.".to_owned(),
        },),
        result
    );
}

#[test]
fn test_allow_custom_values() {
    let mut group = GroupSpec {
        include_groups: vec![],
        entity_associations: vec![],
        visibility: None,
        is_v2: false,
        span_name: None,
        requirement_level: None,
        id: "test".to_owned(),
        type_: GroupType::Span,
        brief: "test".to_owned(),
        note: "test".to_owned(),
        prefix: "".to_owned(),
        extends: None,
        stability: Some(Stability::Development),
        deprecated: Some(Deprecated::Obsoleted {
            note: "".to_owned(),
        }),
        attributes: vec![AttributeSpec::Id {
            role: None,
            id: "test".to_owned(),
            type_: AttributeType::Enum {
                members: vec![],
                allow_custom_values: Some(true),
            },
            brief: None,
            stability: Some(Stability::Development),
            deprecated: Some(Deprecated::Obsoleted {
                note: "".to_owned(),
            }),
            examples: Some(Examples::String("test".to_owned())),
            tag: None,
            requirement_level: Default::default(),
            sampling_relevant: None,
            note: "".to_owned(),
            annotations: None,
        }],
        span_kind: Some(SpanKindSpec::Client),
        events: vec!["event".to_owned()],
        metric_name: None,
        instrument: None,
        unit: None,
        name: None,
        display_name: None,
        body: None,
        annotations: None,
        constraints: None,
    };
    let result = group.validate("<test>").into_result_failing_non_fatal();
    assert_eq!(
        Err(InvalidAttributeAllowCustomValues {
            path_or_url: "<test>".to_owned(),
            group_id: "test".to_owned(),
            attribute_id: "test".to_owned(),
            error:
                "This attribute is an enum using allow_custom_values. This is no longer used."
                    .to_owned(),
        },),
        result
    );
    // Test that allow_custom_values is not set.
    group.attributes = vec![AttributeSpec::Id {
        role: None,
        id: "test".to_owned(),
        type_: AttributeType::Enum {
            members: vec![],
            allow_custom_values: None,
        },
        brief: None,
        stability: Some(Stability::Development),
        deprecated: Some(Deprecated::Obsoleted {
            note: "".to_owned(),
        }),
        examples: Some(Examples::String("test".to_owned())),
        tag: None,
        requirement_level: Default::default(),
        sampling_relevant: None,
        note: "".to_owned(),
        annotations: None,
    }];
    let result = group.validate("<test>").into_result_failing_non_fatal();
    assert!(result.is_ok());
}

#[test]
fn test_validate_event_stability() {
    let mut group = GroupSpec {
        include_groups: vec![],
        entity_associations: vec![],
        visibility: None,
        is_v2: false,
        span_name: None,
        requirement_level: None,
        id: "test".to_owned(),
        type_: GroupType::Event,
        name: Some("test_event".to_owned()),
        brief: "test".to_owned(),
        note: "test".to_owned(),
        prefix: "".to_owned(),
        extends: None,
        stability: Some(Stability::Stable),
        deprecated: None,
        span_kind: None,
        events: vec![],
        metric_name: None,
        instrument: None,
        unit: None,
        display_name: None,
        attributes: vec![],
        body: Some(AnyValueSpec::String {
            common: AnyValueCommonSpec {
                deprecated: None,
                id: "id".to_owned(),
                brief: "brief".to_owned(),
                note: "note".to_owned(),
                stability: Some(Stability::Stable),
                examples: Some(Examples::String("test".to_owned())),
                requirement_level: RequirementLevel::Basic(
                    BasicRequirementLevelSpec::Recommended,
                ),
            },
        }),
        annotations: None,
        constraints: None,
    };
    assert!(group
        .validate("<test>")
        .into_result_failing_non_fatal()
        .is_ok());

    // Stability is required for all types of values.
    group.body = Some(AnyValueSpec::String {
        common: AnyValueCommonSpec {
            deprecated: None,
            id: "string_id".to_owned(),
            brief: "brief".to_owned(),
            note: "note".to_owned(),
            stability: None,
            examples: Some(Examples::String("test".to_owned())),
            requirement_level: RequirementLevel::Basic(BasicRequirementLevelSpec::Recommended),
        },
    });

    let result = group.validate("<test>").into_result_failing_non_fatal();
    assert_eq!(
        Err(Error::InvalidAnyValue {
            path_or_url: "<test>".to_owned(),
            group_id: "test".to_owned(),
            value_id: "string_id".to_owned(),
            error: "Missing stability field.".to_owned(),
        },),
        result
    );

    // Stability is required for nested values.
    group.body = Some(AnyValueSpec::Mapping {
        common: AnyValueCommonSpec {
            deprecated: None,
            id: "map_id".to_owned(),
            brief: "brief".to_owned(),
            note: "note".to_owned(),
            stability: Some(Stability::Stable),
            examples: None,
            requirement_level: RequirementLevel::Basic(BasicRequirementLevelSpec::Recommended),
        },
        fields: vec![AnyValueSpec::String {
            common: AnyValueCommonSpec {
                deprecated: None,
                id: "nested_string_id".to_owned(),
                brief: "brief".to_owned(),
                note: "note".to_owned(),
                stability: None,
                examples: Some(Examples::String("test".to_owned())),
                requirement_level: RequirementLevel::Basic(
                    BasicRequirementLevelSpec::Recommended,
                ),
            },
        }],
    });
    let result = group.validate("<test>").into_result_failing_non_fatal();
    assert_eq!(
        Err(Error::InvalidAnyValue {
            path_or_url: "<test>".to_owned(),
            group_id: "test".to_owned(),
            value_id: "nested_string_id".to_owned(),
            error: "Missing stability field.".to_owned(),
        },),
        result
    );

    // Stability is required on enum members of nested values.
    group.body = Some(AnyValueSpec::Mapping {
        common: AnyValueCommonSpec {
            deprecated: None,
            id: "map_id".to_owned(),
            brief: "brief".to_owned(),
            note: "note".to_owned(),
            stability: Some(Stability::Stable),
            examples: None,
            requirement_level: RequirementLevel::Basic(BasicRequirementLevelSpec::Recommended),
        },
        fields: vec![AnyValueSpec::Enum {
            allow_custom_values: true,
            common: AnyValueCommonSpec {
                deprecated: None,
                id: "nested_enum".to_owned(),
                brief: "brief".to_owned(),
                note: "note".to_owned(),
                stability: Some(Stability::Stable),
                examples: None,
                requirement_level: RequirementLevel::Basic(
                    BasicRequirementLevelSpec::Recommended,
                ),
            },
            members: vec![EnumEntriesSpec {
                annotations: None,
                id: "nested_enum_member".to_owned(),
                value: ValueSpec::String("value".to_owned()),
                brief: None,
                note: None,
                stability: None,
                deprecated: None,
            }],
        }],
    });
    let result = group.validate("<test>").into_result_failing_non_fatal();
    assert_eq!(
        Err(Error::InvalidAnyValue {
            path_or_url: "<test>".to_owned(),
            group_id: "test".to_owned(),
            value_id: "nested_enum".to_owned(),
            error: "Missing stability field for enum member nested_enum_member.".to_owned(),
        },),
        result
    );
}

#[test]
fn test_validate_duplicate_attribute_ref() {
    let bad_attributes = vec![
        AttributeSpec::Ref {
            role: None,
            ref_: "attribute".to_owned(),
            brief: None,
            examples: None,
            tag: None,
            requirement_level: None,
            sampling_relevant: None,
            note: None,
            stability: None,
            deprecated: None,
            prefix: false,
            annotations: None,
        },
        AttributeSpec::Ref {
            role: None,
            ref_: "attribute".to_owned(),
            brief: None,
            examples: None,
            tag: None,
            requirement_level: None,
            sampling_relevant: None,
            note: None,
            stability: None,
            deprecated: None,
            prefix: false,
            annotations: None,
        },
    ];
    let mut group = GroupSpec {
        include_groups: vec![],
        entity_associations: vec![],
        visibility: None,
        is_v2: false,
        span_name: None,
        requirement_level: None,
        id: "test".to_owned(),
        type_: GroupType::AttributeGroup,
        brief: "test".to_owned(),
        note: "test".to_owned(),
        prefix: "".to_owned(),
        extends: None,
        stability: Some(Stability::Stable),
        deprecated: None,
        attributes: vec![],
        span_kind: None,
        events: vec![],
        metric_name: None,
        instrument: None,
        unit: None,
        name: None,
        display_name: None,
        body: None,
        annotations: None,
        constraints: None,
    };

    // Check group with duplicate attributes.
    group.attributes = bad_attributes.clone();
    let result = group.validate("<test>");
    assert_eq!(
        Err(Error::InvalidGroupDuplicateAttributeRef {
            path_or_url: "<test>".to_owned(),
            group_id: "test".to_owned(),
            attribute_ref: "attribute".to_owned(),
        }),
        result.into_result_failing_non_fatal()
    );
}
