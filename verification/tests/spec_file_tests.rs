use weaver_semconv::convert::v2_to_v1_spec;
use weaver_semconv::error::{Error, WResult};
use weaver_semconv::group::GroupType;
use weaver_semconv::registry_path::RegistryPath;
use weaver_semconv::schema_url::SchemaUrl;
use weaver_semconv::semconv::{SemConvSpecWithProvenance, Versioned};
use weaver_semconv::signal_requirement_level::SignalRequirementLevel;
use weaver_semconv::stability::Stability;
use weaver_semconv::v1::semconv::SemConvSpecV1;
use weaver_semconv::v2::attribute::{AttributeDef, AttributeType, PrimitiveOrArrayTypeSpec};
use weaver_semconv::v2::metric::{InstrumentSpec, Metric};
use weaver_semconv::v2::signal_id::SignalId;
use weaver_semconv::v2::{CommonFields, GroupWildcard, SemConvSpecV2};

fn common(brief: &str) -> CommonFields {
    CommonFields {
        brief: brief.to_owned(),
        note: String::new(),
        stability: Stability::Stable,
        deprecated: None,
        annotations: vec![],
    }
}

fn metric(name: &str, level: Option<SignalRequirementLevel>) -> Metric {
    Metric {
        name: SignalId(name.to_owned()),
        instrument: InstrumentSpec::Counter,
        unit: "1".to_owned(),
        attributes: vec![],
        entity_associations: vec![],
        requirement_level: level,
        common: common("a metric"),
    }
}

#[test]
fn v2_file_becomes_synthetic_group_then_signals() {
    let attr = AttributeDef {
        key: "my.attr".to_owned(),
        type_: AttributeType::PrimitiveOrArray(PrimitiveOrArrayTypeSpec::String),
        examples: None,
        common: common("an attribute"),
    };
    let spec = SemConvSpecV2::new(vec![attr], vec![], vec![], vec![metric("my.metric", None)], vec![]);
    let v1 = v2_to_v1_spec(spec, "my_file");
    assert_eq!(v1.groups.len(), 2);
    assert_eq!(v1.groups[0].id, "registry.my_file");
    assert_eq!(v1.groups[0].brief, "<synthetic v2>");
    assert_eq!(v1.groups[0].type_, GroupType::AttributeGroup);
    assert_eq!(v1.groups[0].attributes.len(), 1);
    assert!(v1.groups[0].is_v2);
    assert_eq!(v1.groups[1].type_, GroupType::Metric);
}

#[test]
fn v2_file_without_attributes_has_no_synthetic_group() {
    let spec = SemConvSpecV2::new(vec![], vec![], vec![], vec![metric("my.metric", None)], vec![]);
    let v1 = v2_to_v1_spec(spec, "f");
    assert_eq!(v1.groups.len(), 1);
    assert_eq!(v1.groups[0].type_, GroupType::Metric);
}

#[test]
fn parsed_file_gets_validation_and_detection_warnings() {
    let spec = SemConvSpecV2::new(vec![], vec![], vec![], vec![metric("my.metric", None)], vec![]);
    let detect_warning = Error::UnstableFileFormat {
        file_format: "definition/2".to_owned(),
        provenance: "f.yaml".to_owned(),
    };
    let r = SemConvSpecWithProvenance::from_parsed(
        SchemaUrl::new_unknown(),
        "f.yaml",
        "dir\\f.yaml",
        Ok(Versioned::V2(spec)),
        vec![detect_warning],
    );
    match r {
        WResult::OkWithNFEs(s, errs) => {
            assert_eq!(s.provenance.path, "dir/f.yaml");
            assert_eq!(errs.len(), 2);
            assert!(matches!(&errs[0], Error::MissingRequirementLevelWarning { .. }));
            assert!(matches!(&errs[1], Error::UnstableFileFormat { .. }));
        }
        _ => panic!("expected a value with warnings"),
    }
}

#[test]
fn parse_error_stays_fatal() {
    let r = SemConvSpecWithProvenance::from_parsed(
        SchemaUrl::new_unknown(),
        "f.yaml",
        "f.yaml",
        Err(Error::DeserializationError {
            path_or_url: "f.yaml".to_owned(),
            error: "bad".to_owned(),
        }),
        vec![],
    );
    assert!(matches!(r, WResult::FatalErr(Error::DeserializationError { .. })));
}

#[test]
fn v1_file_into_v1_is_itself() {
    let v = Versioned::V1(SemConvSpecV1::new(vec![], None));
    let v1 = v.into_v1("ignored");
    assert!(v1.groups.is_empty());
}

#[test]
fn registry_path_text() {
    let local = RegistryPath::Local {
        path_pattern: "model/**/*.yaml".to_owned(),
    };
    assert_eq!(local.to_string(), "LocalRegistry:model/**/*.yaml");
    let git = RegistryPath::GitUrl {
        git_url: "https://github.com/x/y.git".to_owned(),
        path: Some("model".to_owned()),
    };
    assert_eq!(git.to_string(), "GitRegistry:https://github.com/x/y.git/\"model\"");
    let git = RegistryPath::GitUrl {
        git_url: "https://github.com/x/y.git".to_owned(),
        path: None,
    };
    assert_eq!(git.to_string(), "GitRegistry:https://github.com/x/y.git");
}

#[test]
fn group_wildcards_are_checked_by_globset() {
    assert_eq!(GroupWildcard::new("http.*").unwrap().as_str(), "http.*");
    assert!(GroupWildcard::new("a[").is_err());
}

fn empty_spec() -> SemConvSpecV2 {
    SemConvSpecV2 {
        attributes: vec![],
        entities: vec![],
        events: vec![],
        metrics: vec![],
        spans: vec![],
        attribute_groups: vec![],
        entity_refinements: vec![],
        event_refinements: vec![],
        metric_refinements: vec![],
        span_refinements: vec![],
        imports: None,
    }
}

fn test_attribute_def() -> AttributeDef {
    AttributeDef {
        key: "test".to_owned(),
        type_: AttributeType::PrimitiveOrArray(PrimitiveOrArrayTypeSpec::String),
        examples: None,
        common: CommonFields {
            brief: "test".to_owned(),
            note: "".to_owned(),
            stability: Stability::Stable,
            deprecated: None,
            annotations: vec![],
        },
    }
}

#[test]
fn test_semconv_spec_v2_is_empty() {
    let empty_spec = empty_spec();
    assert!(empty_spec.is_empty());

    let non_empty_spec = SemConvSpecV2 { attributes: vec![test_attribute_def()], ..empty_spec };
    assert!(!non_empty_spec.is_empty());
}

#[test]
fn test_semconv_spec_v2_constructor_and_accessors() {
    let spec = SemConvSpecV2::new(vec![test_attribute_def()], vec![], vec![], vec![], vec![]);

    assert_eq!(spec.attributes().len(), 1);
    assert!(spec.entities().is_empty());
    assert!(spec.events().is_empty());
    assert!(spec.metrics().is_empty());
    assert!(spec.spans().is_empty());
    assert!(!spec.is_empty());
}

#[test]
fn test_v2_to_v1_full_spec_translation() {
    let spec_v2 = SemConvSpecV2 {
        attributes: vec![AttributeDef {
            key: "http.method".to_owned(),
            type_: AttributeType::PrimitiveOrArray(PrimitiveOrArrayTypeSpec::String),
            examples: Some(weaver_semconv::v2::attribute::Examples::String("GET".to_owned())),
            common: common("HTTP method"),
        }],
        metrics: vec![Metric {
            name: SignalId("http.server.duration".to_owned()),
            instrument: InstrumentSpec::Histogram,
            unit: "ms".to_owned(),
            common: common("Server duration"),
            attributes: vec![],
            entity_associations: vec![],
            requirement_level: None,
        }],
        ..empty_spec()
    };

    let spec_v1 = v2_to_v1_spec(spec_v2, "http");
    // Should produce a synthetic attribute group + 1 metric group
    assert_eq!(spec_v1.groups.len(), 2);
    assert_eq!(spec_v1.groups[0].id, "registry.http");
    assert_eq!(spec_v1.groups[0].brief, "<synthetic v2>");
    assert_eq!(spec_v1.groups[1].id, "metric.http.server.duration");
}
