use weaver_semconv::attribute::{
    TemplateTypeSpec,
    AttributeSpec, AttributeType, Examples, PrimitiveOrArrayTypeSpec, RequirementLevel,
};
use weaver_semconv::deprecated::Deprecated;
use weaver_semconv::error::{Error, WResult};
use weaver_semconv::group::{GroupSpec, GroupType, InstrumentSpec, SpanKindSpec};
use weaver_semconv::stability::Stability;
use weaver_semconv::yaml_value::F64Bits;

fn double(x: f64) -> F64Bits {
    F64Bits(x.to_bits())
}

fn obsoleted_attribute() -> AttributeSpec {
    AttributeSpec::Id {
        id: "test".to_owned(),
        type_: AttributeType::PrimitiveOrArray(PrimitiveOrArrayTypeSpec::String),
        brief: None,
        stability: Some(Stability::Development),
        deprecated: Some(Deprecated::Obsoleted { note: "".to_owned() }),
        examples: Some(Examples::String("test".to_owned())),
        tag: None,
        requirement_level: RequirementLevel::default(),
        sampling_relevant: None,
        note: "".to_owned(),
        annotations: None,
        role: None,
    }
}

fn group(type_: GroupType, stability: Option<Stability>, attributes: Vec<AttributeSpec>) -> GroupSpec {
    GroupSpec {
        id: "test".to_owned(),
        type_,
        brief: "test".to_owned(),
        note: "test".to_owned(),
        prefix: "".to_owned(),
        extends: None,
        include_groups: vec![],
        stability,
        deprecated: None,
        attributes,
        constraints: None,
        span_kind: None,
        events: vec![],
        metric_name: None,
        instrument: None,
        unit: None,
        name: None,
        display_name: None,
        body: None,
        annotations: None,
        entity_associations: vec![],
        visibility: None,
        is_v2: false,
        span_name: None,
        requirement_level: None,
    }
}

fn missing_stability() -> Error {
    Error::InvalidGroupStability {
        path_or_url: "<test>".to_owned(),
        group_id: "test".to_owned(),
        error: "This group does not contain a stability field.".to_owned(),
    }
}

#[test]
fn test_validate_group_stability() {
    let mut group = group(GroupType::AttributeGroup, None, vec![obsoleted_attribute()]);
    assert!(group.validate("<test>").into_result_failing_non_fatal().is_ok());

    // all other group types must have a stability field.
    group.type_ = GroupType::Span;
    group.span_kind = Some(SpanKindSpec::Client);
    let result = group.validate("<test>").into_result_failing_non_fatal();
    assert_eq!(Err(missing_stability()), result);
    group.stability = Some(Stability::Development);
    assert!(group.validate("<test>").into_result_failing_non_fatal().is_ok());

    group.stability = None;
    group.type_ = GroupType::Resource;
    group.span_kind = None;
    let result = group.validate("<test>").into_result_failing_non_fatal();
    assert_eq!(Err(missing_stability()), result);
    group.stability = Some(Stability::Development);
    assert!(group.validate("<test>").into_result_failing_non_fatal().is_ok());

    group.stability = None;

    group.type_ = GroupType::Scope;
    let result = group.validate("<test>").into_result_failing_non_fatal();
    assert_eq!(Err(missing_stability()), result);
    group.stability = Some(Stability::Development);
    assert!(group.validate("<test>").into_result_failing_non_fatal().is_ok());

    group.stability = None;

    group.type_ = GroupType::Metric;
    group.metric_name = Some("test".to_owned());
    group.instrument = Some(InstrumentSpec::Counter);
    group.unit = Some("test".to_owned());
    let result = group.validate("<test>").into_result_failing_non_fatal();
    assert_eq!(Err(missing_stability()), result);
    group.stability = Some(Stability::Development);
    assert!(group.validate("<test>").into_result_failing_non_fatal().is_ok());

    group.stability = None;

    group.type_ = GroupType::Event;
    group.name = Some("test".to_owned());
    let result = group.validate("<test>").into_result_failing_non_fatal();
    assert_eq!(Err(missing_stability()), result);
    group.stability = Some(Stability::Development);
    assert!(group.validate("<test>").into_result_failing_non_fatal().is_ok());

    group.stability = None;

    group.type_ = GroupType::MetricGroup;
    let result = group.validate("<test>").into_result_failing_non_fatal();
    assert_eq!(Err(missing_stability()), result);

    group.stability = Some(Stability::Deprecated);
    let result = group.validate("<test>").into_result_failing_non_fatal();
    assert_eq!(
        Err(Error::InvalidGroupStability {
            path_or_url: "<test>".to_owned(),
            group_id: "test".to_owned(),
            error: "Group stability is set to 'deprecated' which is no longer supported."
                .to_owned(),
        }),
        result
    );

    group.stability = Some(Stability::Development);
    assert!(group.validate("<test>").into_result_failing_non_fatal().is_ok());
}

fn missing_extends_or_attributes() -> Error {
    Error::InvalidGroupMissingExtendsOrAttributes {
        path_or_url: "<test>".to_owned(),
        group_id: "test".to_owned(),
        error: "This group does not contain an extends or attributes field.".to_owned(),
    }
}

#[test]
fn test_validate_extends_or_attributes() {
    let attributes = vec![obsoleted_attribute()];
    let mut group = group(GroupType::AttributeGroup, Some(Stability::Stable), vec![]);

    // Attribute Group must have extends or attributes.
    let result = group.validate("<test>").into_result_failing_non_fatal();
    assert_eq!(Err(missing_extends_or_attributes()), result);

    group.attributes = attributes.clone();
    assert!(group.validate("<test>").into_result_failing_non_fatal().is_ok());

    group.attributes = vec![];
    group.extends = Some("test".to_owned());
    assert!(group.validate("<test>").into_result_failing_non_fatal().is_ok());
    group.extends = None;

    // Span must have extends or attributes.
    group.type_ = GroupType::Span;
    group.span_kind = Some(SpanKindSpec::Client);
    let result = group.validate("<test>").into_result_failing_non_fatal();
    assert_eq!(Err(missing_extends_or_attributes()), result);

    group.attributes = attributes.clone();
    assert!(group.validate("<test>").into_result_failing_non_fatal().is_ok());

    group.attributes = vec![];
    group.extends = Some("test".to_owned());
    assert!(group.validate("<test>").into_result_failing_non_fatal().is_ok());
    group.extends = None;

    // Resource must have extends or attributes.
    group.type_ = GroupType::Resource;
    group.span_kind = None;
    let result = group.validate("<test>").into_result_failing_non_fatal();
    assert_eq!(Err(missing_extends_or_attributes()), result);

    group.attributes = attributes.clone();
    assert!(group.validate("<test>").into_result_failing_non_fatal().is_ok());

    group.attributes = vec![];
    group.extends = Some("test".to_owned());
    assert!(group.validate("<test>").into_result_failing_non_fatal().is_ok());
    group.extends = None;

    // Metrics DO NOT need extends or attributes.
    group.type_ = GroupType::Metric;
    group.metric_name = Some("test".to_owned());
    group.instrument = Some(InstrumentSpec::Counter);
    group.unit = Some("test".to_owned());
    assert!(group.validate("<test>").into_result_failing_non_fatal().is_ok());

    // Events DO NOT need extends or attributes.
    group.type_ = GroupType::Event;
    group.name = Some("test".to_owned());
    assert!(group.validate("<test>").into_result_failing_non_fatal().is_ok());
}

#[test]
fn valid_group_validates_without_any_report() {
    let group = group(GroupType::AttributeGroup, Some(Stability::Stable), vec![obsoleted_attribute()]);
    assert!(matches!(group.validate("<test>"), WResult::OkValue(())));
}

#[test]
fn group_without_stability_reports_it_as_non_fatal() {
    let mut group = group(GroupType::Resource, None, vec![obsoleted_attribute()]);
    match group.validate("<test>") {
        WResult::OkWithNFEs((), errors) => assert_eq!(errors, vec![missing_stability()]),
        _ => panic!("expected one non-fatal error"),
    }
    group.type_ = GroupType::AttributeGroup;
    assert!(matches!(group.validate("<test>"), WResult::OkValue(())));
}

#[test]
fn test_examples_validate() {
    let attr_int = AttributeType::PrimitiveOrArray(PrimitiveOrArrayTypeSpec::Int);
    let attr_ints = AttributeType::PrimitiveOrArray(PrimitiveOrArrayTypeSpec::Ints);
    let attr_str = AttributeType::PrimitiveOrArray(PrimitiveOrArrayTypeSpec::String);
    let attr_strs = AttributeType::PrimitiveOrArray(PrimitiveOrArrayTypeSpec::Strings);
    let attr_bool = AttributeType::PrimitiveOrArray(PrimitiveOrArrayTypeSpec::Boolean);
    let attr_bools = AttributeType::PrimitiveOrArray(PrimitiveOrArrayTypeSpec::Booleans);
    let attr_double = AttributeType::PrimitiveOrArray(PrimitiveOrArrayTypeSpec::Double);
    let attr_doubles = AttributeType::PrimitiveOrArray(PrimitiveOrArrayTypeSpec::Doubles);
    let ok = |e: &Examples, t: &AttributeType| {
        e.validate(t, "grp", "attr", "url").into_result_failing_non_fatal().is_ok()
    };

    // === Test int-like examples ===
    let examples = Examples::Int(42);
    assert!(ok(&examples, &attr_int));
    assert!(!ok(&examples, &attr_str));

    let examples = Examples::Ints(vec![42, 43]);
    assert!(ok(&examples, &attr_int));
    assert!(!ok(&examples, &attr_str));

    let examples = Examples::ListOfInts(vec![vec![42, 43], vec![44, 45]]);
    assert!(ok(&examples, &attr_ints));
    assert!(!ok(&examples, &attr_int));

    let examples = Examples::ListOfStrings(vec![
        vec!["42".to_owned(), "43".to_owned()],
        vec!["44".to_owned(), "45".to_owned()],
    ]);
    assert!(!ok(&examples, &attr_ints));

    // === Test string-like examples ===
    let examples = Examples::String("foo".to_owned());
    assert!(ok(&examples, &attr_str));
    assert!(!ok(&examples, &attr_int));

    let examples = Examples::Strings(vec!["foo".to_owned(), "bar".to_owned()]);
    assert!(ok(&examples, &attr_str));
    assert!(!ok(&examples, &attr_int));

    let examples = Examples::ListOfStrings(vec![
        vec!["foo".to_owned(), "bar".to_owned()],
        vec!["baz".to_owned(), "qux".to_owned()],
    ]);
    assert!(ok(&examples, &attr_strs));
    assert!(!ok(&examples, &attr_ints));

    let examples = Examples::ListOfInts(vec![vec![42, 43], vec![44, 45]]);
    assert!(!ok(&examples, &attr_str));

    // Non-strict validation
    let examples = Examples::Strings(vec!["foo".to_owned(), "bar".to_owned()]);
    assert!(ok(&examples, &attr_str));

    // === Test bool-like examples ===
    let examples = Examples::Bool(true);
    assert!(ok(&examples, &attr_bool));
    assert!(!ok(&examples, &attr_int));

    let examples = Examples::Bools(vec![true, false]);
    assert!(ok(&examples, &attr_bool));
    assert!(!ok(&examples, &attr_int));

    let examples = Examples::ListOfBools(vec![vec![true, false], vec![false, true]]);
    assert!(ok(&examples, &attr_bools));
    assert!(!ok(&examples, &attr_bool));

    let examples = Examples::ListOfInts(vec![vec![42, 43], vec![44, 45]]);
    assert!(!ok(&examples, &attr_bool));

    // === Test double-like examples ===
    let examples = Examples::Double(double(42.0));
    assert!(ok(&examples, &attr_double));
    assert!(!ok(&examples, &attr_int));

    let examples = Examples::Doubles(vec![double(42.0), double(43.0)]);
    assert!(ok(&examples, &attr_double));
    assert!(!ok(&examples, &attr_int));

    let examples = Examples::ListOfDoubles(vec![
        vec![double(42.0), double(43.0)],
        vec![double(44.0), double(45.0)],
    ]);
    assert!(ok(&examples, &attr_doubles));
    assert!(!ok(&examples, &attr_double));

    let examples = Examples::ListOfInts(vec![vec![42, 43], vec![44, 45]]);
    assert!(!ok(&examples, &attr_double));
}

#[test]
fn fitting_examples_give_no_report() {
    let t = AttributeType::PrimitiveOrArray(PrimitiveOrArrayTypeSpec::Int);
    assert!(matches!(
        Examples::Int(42).validate(&t, "grp", "attr", "url"),
        WResult::OkValue(())
    ));
    let strs = AttributeType::PrimitiveOrArray(PrimitiveOrArrayTypeSpec::Strings);
    let tolerated = Examples::Strings(vec!["foo".to_owned()]);
    match tolerated.validate(&strs, "grp", "attr", "url") {
        WResult::OkWithNFEs((), errors) => {
            assert_eq!(errors.len(), 1);
            assert!(matches!(errors[0], Error::InvalidExampleWarning { .. }));
        }
        _ => panic!("expected a warning"),
    }
    match Examples::String("foo".to_owned()).validate(&strs, "grp", "attr", "url") {
        WResult::OkWithNFEs((), errors) => {
            assert_eq!(errors.len(), 1);
            assert!(matches!(errors[0], Error::InvalidExampleError { .. }));
        }
        _ => panic!("expected an error"),
    }
}

#[test]
fn any_template_any_and_enum_types_accept_every_example() {

    let types = vec![
        AttributeType::PrimitiveOrArray(PrimitiveOrArrayTypeSpec::Any),
        AttributeType::Template(TemplateTypeSpec::Any),
        AttributeType::Enum { allow_custom_values: None, members: vec![] },
    ];
    for t in &types {
        for e in [Examples::Int(1), Examples::Strings(vec!["a".to_owned()]), Examples::Bool(true)] {
            assert!(matches!(e.validate(t, "grp", "attr", "url"), WResult::OkValue(())));
        }
    }
}
