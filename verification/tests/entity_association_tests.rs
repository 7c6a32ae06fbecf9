use weaver_semconv::entity_association::EntityAssociation;

fn r(name: &str) -> EntityAssociation {
    EntityAssociation::Ref(name.to_owned())
}

#[test]
fn test_referenced_entities() {
    // all_of: [deployment, one_of: [all_of: [x, y], z]]
    let assoc = EntityAssociation::AllOf {
        all_of: vec![
            r("deployment"),
            EntityAssociation::OneOf {
                one_of: vec![EntityAssociation::AllOf { all_of: vec![r("x"), r("y")] }, r("z")],
            },
        ],
    };
    let mut names: Vec<_> = assoc.referenced_entities();
    names.sort_unstable();
    assert_eq!(names, vec!["deployment", "x", "y", "z"]);
}

#[test]
fn referenced_entities_keep_every_occurrence() {
    let assoc = EntityAssociation::OneOf { one_of: vec![r("a"), r("a"), EntityAssociation::AllOf { all_of: vec![] }] };
    assert_eq!(assoc.referenced_entities(), vec!["a".to_owned(), "a".to_owned()]);
    assert_eq!(r("host").referenced_entities(), vec!["host".to_owned()]);
}
