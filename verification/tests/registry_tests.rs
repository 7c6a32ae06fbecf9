use weaver_semconv::attribute::{AttributeSpec, AttributeType, PrimitiveOrArrayTypeSpec, RequirementLevel};
use weaver_semconv::group::{GroupSpec, GroupType};
use weaver_semconv::registry::SemConvRegistry;
use weaver_semconv::v1::semconv::SemConvSpecV1;

fn group(id: &str, type_: GroupType, attributes: Vec<AttributeSpec>) -> GroupSpec {
    GroupSpec {
        id: id.to_owned(),
        type_,
        brief: "brief".to_owned(),
        note: "note".to_owned(),
        prefix: "".to_owned(),
        extends: None,
        include_groups: vec![],
        stability: None,
        deprecated: None,
        attributes,
        constraints: None,
        span_kind: None,
        events: vec![],
        metric_name: None,
        instrument: None,
        unit: None,
        name: None,
        display_name: None,
        body: None,
        annotations: None,
        entity_associations: vec![],
        visibility: None,
        is_v2: false,
        span_name: None,
        requirement_level: None,
    }
}

fn spec(groups: Vec<GroupSpec>) -> SemConvSpecV1 {
    SemConvSpecV1 { groups, imports: None }
}

#[test]
fn test_from_semconv_specs() {
    let semconv_specs = vec![
        (
            "data/c1.yaml".to_owned(),
            spec(vec![group(
                "group1",
                GroupType::AttributeGroup,
                vec![AttributeSpec::Id {
                    id: "attr1".to_owned(),
                    type_: AttributeType::PrimitiveOrArray(PrimitiveOrArrayTypeSpec::Boolean),
                    brief: None,
                    examples: None,
                    tag: None,
                    requirement_level: RequirementLevel::default(),
                    sampling_relevant: None,
                    note: "note".to_owned(),
                    stability: None,
                    deprecated: None,
                    annotations: None,
                    role: None,
                }],
            )]),
        ),
        ("data/c2.yaml".to_owned(), spec(vec![group("group2", GroupType::AttributeGroup, vec![])])),
    ];
    let registry = SemConvRegistry::from_semconv_specs("test", semconv_specs);
    assert_eq!(registry.id(), "test");
    assert_eq!(registry.semconv_spec_count(), 2);
}

#[test]
fn test_new_semconv_registry() {
    let registry = SemConvRegistry::new("test");
    assert_eq!(registry.id(), "test");
    assert_eq!(registry.semconv_spec_count(), 0);
}

fn three_files() -> SemConvRegistry {
    SemConvRegistry::from_semconv_specs(
        "test",
        vec![
            ("c1.yaml".to_owned(), spec(vec![group("a", GroupType::AttributeGroup, vec![])])),
            (
                "c2.yaml".to_owned(),
                spec(vec![group("r", GroupType::Resource, vec![]), group("s", GroupType::Span, vec![])]),
            ),
            ("c3.yaml".to_owned(), spec(vec![group("b", GroupType::AttributeGroup, vec![])])),
        ],
    )
}

#[test]
fn groups_come_file_after_file_with_their_provenance() {
    let registry = three_files();
    let groups = registry.unresolved_group_with_provenance_iter();
    let seen: Vec<(&str, &str)> = groups.iter().map(|(g, p)| (g.id.as_str(), *p)).collect();
    assert_eq!(
        seen,
        vec![("a", "c1.yaml"), ("r", "c2.yaml"), ("s", "c2.yaml"), ("b", "c3.yaml")]
    );
}

#[test]
fn stats_count_files_groups_and_types() {
    let stats = three_files().stats();
    assert_eq!(stats.file_count, 3);
    assert_eq!(stats.group_count, 4);
    assert_eq!(
        stats.group_breakdown,
        vec![(GroupType::AttributeGroup, 2), (GroupType::Resource, 1), (GroupType::Span, 1)]
    );
    assert_eq!(stats.attribute_count, 0);
    assert_eq!(stats.metric_count, 0);
    let empty = SemConvRegistry::new("x").stats();
    assert_eq!(empty.file_count, 0);
    assert!(empty.group_breakdown.is_empty());
}
