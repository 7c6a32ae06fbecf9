use weaver_semconv::error::Error;
use weaver_semconv::unexpected_fields::{check, collect_paths, YamlTree};

fn tree(v: &serde_yaml::Value) -> YamlTree {
    match v {
        serde_yaml::Value::Null => YamlTree::Null,
        serde_yaml::Value::Bool(b) => YamlTree::Bool(*b),
        serde_yaml::Value::Number(n) => YamlTree::Number(n.to_string()),
        serde_yaml::Value::String(s) => YamlTree::Str(s.clone()),
        serde_yaml::Value::Sequence(s) => YamlTree::Sequence(s.iter().map(tree).collect()),
        serde_yaml::Value::Mapping(m) => {
            YamlTree::Mapping(m.iter().map(|(k, v)| (tree(k), tree(v))).collect())
        }
        serde_yaml::Value::Tagged(t) => {
            let tag = t.tag.to_string();
            let tag = tag.strip_prefix('!').unwrap_or(&tag).to_owned();
            YamlTree::Tagged(tag, Box::new(tree(&t.value)))
        }
    }
}

fn yaml(s: &str) -> YamlTree {
    let v: serde_yaml::Value = serde_yaml::from_str(s).expect("test yaml should parse");
    tree(&v)
}

#[test]
fn collect_paths_returns_empty_when_trees_match() {
    let raw = yaml("name: foo\nvalue: 1");
    let normalized = yaml("name: foo\nvalue: 1");
    assert!(collect_paths(&raw, &normalized).is_empty());
}

#[test]
fn collect_paths_reports_extra_top_level_key() {
    let raw = yaml("name: foo\ntyp0: extra");
    let normalized = yaml("name: foo");
    assert_eq!(collect_paths(&raw, &normalized), vec!["typ0".to_owned()]);
}

#[test]
fn collect_paths_reports_nested_key_with_dotted_path() {
    let raw = yaml("outer:\n  inner: ok\n  oops: bad");
    let normalized = yaml("outer:\n  inner: ok");
    assert_eq!(
        collect_paths(&raw, &normalized),
        vec!["outer.oops".to_owned()]
    );
}

#[test]
fn collect_paths_reports_key_inside_sequence_element_with_index() {
    let raw = yaml("items:\n  - id: a\n    extra: x\n  - id: b");
    let normalized = yaml("items:\n  - id: a\n  - id: b");
    assert_eq!(
        collect_paths(&raw, &normalized),
        vec!["items[0].extra".to_owned()]
    );
}

#[test]
fn collect_paths_suppresses_default_equivalents() {
    let raw = yaml("a: ~\nb: ''\nc: []\nd: {}");
    let normalized = yaml("{}");
    assert!(collect_paths(&raw, &normalized).is_empty());
}

#[test]
fn collect_paths_ignores_value_only_diffs() {
    let raw = yaml("name: foo");
    let normalized = yaml("name: bar");
    assert!(collect_paths(&raw, &normalized).is_empty());
}

#[test]
fn collect_paths_reports_dropped_trailing_sequence_elements() {
    let raw = yaml("items:\n  - id: a\n  - id: b\n  - {}\n  - id: d");
    let normalized = yaml("items:\n  - id: a");
    assert_eq!(
        collect_paths(&raw, &normalized),
        vec!["items[1]".to_owned(), "items[3]".to_owned()]
    );
}

#[test]
fn collect_paths_reports_multiple_unexpected_in_order() {
    let raw = yaml("a: 1\nb: 2\nc: 3");
    let normalized = yaml("b: 2");
    assert_eq!(
        collect_paths(&raw, &normalized),
        vec!["a".to_owned(), "c".to_owned()]
    );
}

#[test]
fn collect_paths_numbers_indices_past_nine() {
    let raw = yaml("s: [1, 2, 3, 4, 5, 6, 7, 8, 9, 10, 11, 12]");
    let normalized = yaml("s: [1]");
    let paths = collect_paths(&raw, &normalized);
    assert_eq!(paths.len(), 11);
    assert_eq!(paths[0], "s[1]");
    assert_eq!(paths[10], "s[11]");
}

#[test]
fn collect_paths_skips_non_string_keys() {
    let raw = yaml("1: x\ntrue: y\nname: z");
    let normalized = yaml("name: z");
    assert!(collect_paths(&raw, &normalized).is_empty());
}

#[test]
fn collect_paths_reports_tagged_string_key_missing_from_normalized() {
    let raw = yaml("!custom key: value\nname: z");
    let normalized = yaml("name: z\nkey: value");
    assert_eq!(collect_paths(&raw, &normalized), vec!["key".to_owned()]);
}

#[test]
fn collect_paths_reports_nothing_for_mismatched_shapes() {
    let raw = yaml("a:\n  b: 1");
    let normalized = yaml("a: [1]");
    assert!(collect_paths(&raw, &normalized).is_empty());
    let raw = yaml("a: [{x: 1}]");
    let normalized = yaml("a: {x: 1}");
    assert!(collect_paths(&raw, &normalized).is_empty());
}

#[test]
fn collect_paths_reports_a_tree_against_itself_as_clean() {
    let doc = "groups:\n  - id: g\n    attributes:\n      - id: a\n        brief: ''\n        note: x\n";
    assert!(collect_paths(&yaml(doc), &yaml(doc)).is_empty());
}

/// The format this build knows: `resolved/2.3`. A found format is of a known
/// minor version when its minor is at most 3.
const FORMAT: &str = "resolved/2.3";

fn known_minor(found_minor: u32) -> bool {
    found_minor <= 3
}

#[test]
fn check_returns_ok_when_no_unexpected_on_known_minor() {
    let raw = yaml("a: 1");
    let normalized = yaml("a: 1");
    check(&raw, &normalized, FORMAT, known_minor(3), "/tmp/t.yaml").expect("no diff = Ok");
}

#[test]
fn check_flags_unexpected_on_current_minor() {
    let raw = yaml("a: 1\ntyp0: bad");
    let normalized = yaml("a: 1");
    match check(&raw, &normalized, FORMAT, known_minor(3), "/tmp/t.yaml") {
        Err(Error::UnexpectedFields { fields, .. }) => {
            assert_eq!(fields, vec!["typ0".to_owned()]);
        }
        other => panic!("expected UnexpectedFields, got: {other:?}"),
    }
}

#[test]
fn check_flags_unexpected_on_older_minor() {
    let raw = yaml("a: 1\ntyp0: bad");
    let normalized = yaml("a: 1");
    match check(&raw, &normalized, FORMAT, known_minor(0), "/tmp/t.yaml") {
        Err(Error::UnexpectedFields { fields, .. }) => {
            assert_eq!(fields, vec!["typ0".to_owned()]);
        }
        other => panic!("expected UnexpectedFields, got: {other:?}"),
    }
}

#[test]
fn check_short_circuits_on_newer_minor() {
    let raw = yaml("a: 1\nfuture_field: x");
    let normalized = yaml("a: 1");
    check(&raw, &normalized, FORMAT, known_minor(99), "/tmp/t.yaml")
        .expect("newer minor tolerates unknowns");
}

#[test]
fn check_propagates_path_and_file_format_in_error() {
    let raw = yaml("name: ok\ntyp0: bad\nnested:\n  deeper: bad");
    let normalized = yaml("name: ok\nnested: {}");
    match check(&raw, &normalized, FORMAT, known_minor(3), "/some/where.yaml") {
        Err(Error::UnexpectedFields {
            path_or_url,
            file_format,
            fields,
        }) => {
            assert_eq!(path_or_url, "/some/where.yaml");
            assert_eq!(file_format, FORMAT);
            assert_eq!(fields, vec!["typ0".to_owned(), "nested.deeper".to_owned()]);
        }
        other => panic!("expected UnexpectedFields, got: {other:?}"),
    }
}
