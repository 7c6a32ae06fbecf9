use weaver_semconv::registry_search::{ItemKind, RegistryItem};
use weaver_semconv::stability::Stability;
use weaver_semconv::suggest::{SearchContext, SuggestionReason};

fn attr(key: &str, brief: &str, note: &str, deprecated: bool) -> RegistryItem {
    RegistryItem {
        kind: ItemKind::Attribute,
        id: key.to_owned(),
        brief: brief.to_owned(),
        note: note.to_owned(),
        deprecated,
        stability: Stability::Stable,
        is_template: false,
    }
}

fn template(key: &str, brief: &str) -> RegistryItem {
    RegistryItem { is_template: true, ..attr(key, brief, "", false) }
}

fn ctx() -> SearchContext {
    SearchContext::from_registry(vec![
        attr("http.request.method", "HTTP request method", "", false),
        attr("http.response.status_code", "HTTP response status code", "", false),
        attr("db.system", "Database system", "The database management system", false),
        template("test.template", "A template attribute"),
        RegistryItem {
            stability: Stability::Development,
            ..attr("experimental.feature", "An experimental feature", "", false)
        },
    ])
}

#[test]
fn test_suggest_exact_match() {
    let s = ctx().suggest("http.request.method", 5);
    assert!(!s.is_empty());
    assert_eq!(s[0].key, "http.request.method");
    assert_eq!(s[0].reason, SuggestionReason::ExactMatch);
}

#[test]
fn test_suggest_wrong_separator() {
    let s = ctx().suggest("http_request_method", 5);
    assert!(!s.is_empty());
    assert_eq!(s[0].key, "http.request.method");
    assert_eq!(s[0].reason, SuggestionReason::SeparatorNormalized);
    assert_eq!(s[0].brief, "HTTP request method");
}

#[test]
fn test_suggest_hyphen_separator() {
    let s = ctx().suggest("http-request-method", 5);
    assert_eq!(s[0].key, "http.request.method");
    assert_eq!(s[0].reason, SuggestionReason::SeparatorNormalized);
}

#[test]
fn test_suggest_partial_match() {
    let s = ctx().suggest("http.request.verb", 5);
    assert!(!s.is_empty());
    assert!(s.iter().any(|x| x.key == "http.request.method"));
    assert_eq!(s[0].key, "http.request.method");
    assert_eq!(s[0].reason, SuggestionReason::TokenOverlap);
}

#[test]
fn suggest_shared_prefix_sorted_by_key() {
    let s = ctx().suggest("http.other.thing", 5);
    let keys: Vec<&str> = s.iter().map(|x| x.key.as_str()).collect();
    assert_eq!(keys[0], "http.request.method");
    assert_eq!(keys[1], "http.response.status_code");
    assert!(s[..2].iter().all(|x| x.reason == SuggestionReason::SharedPrefix));
}

#[test]
fn test_suggest_no_match() {
    let s = ctx().suggest("zzzzz.completely.unknown", 5);
    assert!(s.is_empty() || s.iter().all(|x| x.reason == SuggestionReason::FuzzySearch));
}

#[test]
fn test_suggest_limit() {
    let s = ctx().suggest("http", 2);
    assert!(s.len() <= 2);
    let s = ctx().suggest("http", 100);
    assert!(s.len() <= 20);
}

#[test]
fn suggest_fuzzy_best_first() {
    let s = ctx().suggest("database", 5);
    assert_eq!(s.len(), 1);
    assert_eq!(s[0].key, "db.system");
    assert_eq!(s[0].reason, SuggestionReason::FuzzySearch);
}

#[test]
fn later_attribute_replaces_earlier_with_same_key() {
    let c = SearchContext::from_registry_with_separator(
        vec![attr("a.b", "first", "", false), attr("a.b", "second", "", false)],
        ".".to_owned(),
    );
    let s = c.suggest("a.b", 5);
    assert_eq!(s.len(), 1);
    assert_eq!(s[0].brief, "second");
}

#[test]
fn templates_are_not_suggested() {
    let s = ctx().suggest("test.template", 5);
    assert!(s.iter().all(|x| x.key != "test.template"));
}

#[test]
fn suggestions_name_each_key_once() {
    for name in ["http", "http.request", "http_request_method", "request.method", "db"] {
        let s = ctx().suggest(name, 20);
        let mut keys: Vec<&str> = s.iter().map(|x| x.key.as_str()).collect();
        let n = keys.len();
        keys.sort();
        keys.dedup();
        assert_eq!(keys.len(), n);
    }
}

#[test]
fn suggest_with_an_empty_separator_matches_prefixes_character_by_character() {
    let c = SearchContext::from_registry_with_separator(
        vec![
            attr("http.request.method", "HTTP request method", "", false),
            attr("http.response.status_code", "HTTP response status code", "", false),
            attr("db.system", "Database system", "The database management system", false),
        ],
        String::new(),
    );
    let s = c.suggest("http.request.method", 5);
    let keys: Vec<&str> = s.iter().map(|x| x.key.as_str()).collect();
    assert_eq!(keys, vec!["http.request.method", "http.response.status_code"]);
    assert_eq!(s[0].reason, SuggestionReason::ExactMatch);
    assert_eq!(s[1].reason, SuggestionReason::SharedPrefix);
}
