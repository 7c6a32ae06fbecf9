use weaver_semconv::registry_search::{ItemKind, RegistryItem, SearchResult};
use weaver_semconv::search::SearchType;
use weaver_semconv::stability::Stability;
use weaver_semconv::suggest::SearchContext;

fn item(kind: ItemKind, id: &str, brief: &str, note: &str, deprecated: bool) -> RegistryItem {
    RegistryItem {
        kind,
        id: id.to_owned(),
        brief: brief.to_owned(),
        note: note.to_owned(),
        deprecated,
        stability: Stability::Stable,
        is_template: false,
    }
}

fn make_attribute(key: &str, brief: &str, note: &str, deprecated: bool) -> RegistryItem {
    item(ItemKind::Attribute, key, brief, note, deprecated)
}

fn make_template_attribute(key: &str, brief: &str) -> RegistryItem {
    RegistryItem { is_template: true, ..make_attribute(key, brief, "", false) }
}

fn make_development_attribute(key: &str, brief: &str) -> RegistryItem {
    RegistryItem { stability: Stability::Development, ..make_attribute(key, brief, "", false) }
}

fn make_test_registry() -> Vec<RegistryItem> {
    vec![
        make_attribute("http.request.method", "HTTP request method", "", false),
        make_attribute("http.response.status_code", "HTTP response status code", "", false),
        make_attribute("db.system", "Database system", "The database management system", false),
        make_template_attribute("test.template", "A template attribute"),
        make_development_attribute("experimental.feature", "An experimental feature"),
        item(ItemKind::Metric, "http.server.request.duration", "Duration of HTTP server requests", "", false),
        item(ItemKind::Span, "http.client", "HTTP client span", "", false),
        item(ItemKind::Event, "exception", "An exception event", "", false),
        item(ItemKind::Entity, "service", "A service entity", "", false),
    ]
}

fn ctx() -> SearchContext {
    SearchContext::from_registry(make_test_registry())
}

fn score_of(it: RegistryItem, query: &str) -> u32 {
    let c = SearchContext::from_registry(vec![it]);
    let (results, _) = c.search(Some(query), SearchType::All, None, 10, 0);
    results.first().map(|r| r.score()).unwrap_or(0)
}

#[test]
fn test_exact_match_scores_highest() {
    let item = make_attribute("http.request.method", "HTTP request method", "", false);
    assert_eq!(score_of(item, "http.request.method"), 100);
}

#[test]
fn test_starts_with_scores_high() {
    let item = make_attribute("http.request.method", "HTTP request method", "", false);
    assert_eq!(score_of(item, "http.request"), 80);
}

#[test]
fn test_contains_scores_medium() {
    let item = make_attribute("http.request.method", "HTTP request method", "", false);
    assert_eq!(score_of(item, "request.method"), 70);
}

#[test]
fn test_brief_match_scores_lower() {
    let item = make_attribute("http.request.method", "The HTTP verb used in the request", "", false);
    assert_eq!(score_of(item, "verb"), 40);
}

#[test]
fn test_no_match_scores_zero() {
    let item = make_attribute("http.request.method", "HTTP request method", "", false);
    assert_eq!(score_of(item, "database"), 0);
}

#[test]
fn test_deprecated_items_score_much_lower() {
    let item = make_attribute("http.request.method", "HTTP request method", "", true);
    assert_eq!(score_of(item, "http.request.method"), 10);
    let item = make_attribute("http.request.method", "HTTP request method", "", true);
    assert_eq!(score_of(item, "http.request"), 8);
}

#[test]
fn test_from_registry_indexes_all_types() {
    let ctx = ctx();
    assert!(ctx.get_attribute("http.request.method").is_some());
    assert!(ctx.get_attribute("http.response.status_code").is_some());
    assert!(ctx.get_attribute("db.system").is_some());
    assert!(ctx.get_metric("http.server.request.duration").is_some());
    assert!(ctx.get_span("http.client").is_some());
    assert!(ctx.get_event("exception").is_some());
    assert!(ctx.get_entity("service").is_some());
}

#[test]
fn test_get_attribute_not_found() {
    let ctx = ctx();
    assert!(ctx.get_attribute("nonexistent.attribute").is_none());
    assert!(ctx.get_metric("nonexistent.metric").is_none());
    assert!(ctx.get_span("nonexistent.span").is_none());
    assert!(ctx.get_event("nonexistent.event").is_none());
    assert!(ctx.get_entity("nonexistent.entity").is_none());
}

#[test]
fn test_search_with_query_returns_matches() {
    let ctx = ctx();
    let (results, total) = ctx.search(Some("http"), SearchType::All, None, 10, 0);
    assert!(total >= 4);
    assert!(!results.is_empty());
}

#[test]
fn test_search_browse_mode() {
    let ctx = ctx();
    let (results, total) = ctx.search(None, SearchType::All, None, 100, 0);
    assert_eq!(total, 9);
    assert_eq!(results.len(), 9);
}

#[test]
fn test_search_type_filter() {
    let ctx = ctx();
    let (results, total) = ctx.search(None, SearchType::Attribute, None, 100, 0);
    assert_eq!(total, 5);
    assert_eq!(results.len(), 5);
    let (results, total) = ctx.search(None, SearchType::Metric, None, 100, 0);
    assert_eq!(total, 1);
    assert_eq!(results.len(), 1);
    let (_, total) = ctx.search(None, SearchType::Span, None, 100, 0);
    assert_eq!(total, 1);
    let (_, total) = ctx.search(None, SearchType::Event, None, 100, 0);
    assert_eq!(total, 1);
    let (_, total) = ctx.search(None, SearchType::Entity, None, 100, 0);
    assert_eq!(total, 1);
}

#[test]
fn test_search_pagination() {
    let ctx = ctx();
    let (results1, total1) = ctx.search(None, SearchType::All, None, 2, 0);
    assert_eq!(total1, 9);
    assert_eq!(results1.len(), 2);
    let (results2, total2) = ctx.search(None, SearchType::All, None, 2, 2);
    assert_eq!(total2, 9);
    assert_eq!(results2.len(), 2);
    let (results3, _) = ctx.search(None, SearchType::All, None, 100, 4);
    assert_eq!(results3.len(), 5);
}

#[test]
fn test_search_limit_capped_at_200() {
    let ctx = ctx();
    let (results, _) = ctx.search(None, SearchType::All, None, 500, 0);
    assert_eq!(results.len(), 9);
}

#[test]
fn test_search_no_results() {
    let ctx = ctx();
    let (results, total) = ctx.search(Some("zzzznonexistent"), SearchType::All, None, 10, 0);
    assert_eq!(total, 0);
    assert!(results.is_empty());
}

#[test]
fn test_get_template_found() {
    let result = ctx().get_template("test.template");
    assert!(result.is_some());
    assert_eq!(result.unwrap().id, "test.template");
}

#[test]
fn test_get_template_not_found() {
    let ctx = ctx();
    assert!(ctx.get_template("http.request.method").is_none());
    assert!(ctx.get_template("nonexistent").is_none());
}

#[test]
fn test_find_template_exact_match() {
    let result = ctx().find_template("test.template");
    assert!(result.is_some());
    assert_eq!(result.unwrap().id, "test.template");
}

#[test]
fn test_find_template_prefix_match() {
    let result = ctx().find_template("test.template.foo");
    assert!(result.is_some());
    assert_eq!(result.unwrap().id, "test.template");
}

#[test]
fn test_find_template_not_found() {
    assert!(ctx().find_template("nonexistent.template").is_none());
}

#[test]
fn test_search_stability_filter_stable() {
    let (results, total) = ctx().search(None, SearchType::Attribute, Some(Stability::Stable), 100, 0);
    assert_eq!(total, 4);
    assert_eq!(results.len(), 4);
}

#[test]
fn test_search_stability_filter_development() {
    let (results, total) =
        ctx().search(None, SearchType::Attribute, Some(Stability::Development), 100, 0);
    assert_eq!(total, 1);
    assert_eq!(results.len(), 1);
}

#[test]
fn test_searchable_item_stability() {
    let (results, _) = ctx().search(Some("experimental.feature"), SearchType::All, None, 10, 0);
    assert_eq!(results[0].item().stability, Stability::Development);
    let (results, _) = ctx().search(Some("db.system"), SearchType::All, None, 10, 0);
    assert_eq!(results[0].item().stability, Stability::Stable);
}

#[test]
fn test_browse_namespace_top_level() {
    let info = ctx().browse_namespace(None);
    assert_eq!(info.prefix, "");
    assert!(info.child_namespaces.contains(&"db".to_owned()));
    assert!(info.child_namespaces.contains(&"http".to_owned()));
    assert!(info.child_namespaces.contains(&"experimental".to_owned()));
    assert!(info.child_namespaces.contains(&"test".to_owned()));
    assert!(info.attributes.is_empty());
    assert_eq!(info.total_attribute_count, 5);
    assert!(info.max_depth >= 2);
}

#[test]
fn test_browse_namespace_with_prefix() {
    let info = ctx().browse_namespace(Some("http"));
    assert_eq!(info.prefix, "http");
    assert!(info.child_namespaces.contains(&"http.request".to_owned()));
    assert!(info.child_namespaces.contains(&"http.response".to_owned()));
    assert_eq!(info.total_attribute_count, 2);
}

#[test]
fn test_browse_namespace_leaf() {
    let info = ctx().browse_namespace(Some("http.request"));
    assert_eq!(info.prefix, "http.request");
    assert!(info.child_namespaces.is_empty());
    assert_eq!(info.attributes.len(), 1);
    assert_eq!(info.attributes[0].key, "http.request.method");
}

#[test]
fn test_browse_namespace_nonexistent() {
    let info = ctx().browse_namespace(Some("nonexistent"));
    assert_eq!(info.total_attribute_count, 0);
    assert!(info.child_namespaces.is_empty());
    assert!(info.attributes.is_empty());
    assert_eq!(info.max_depth, 0);
}

#[test]
fn test_browse_namespace_empty_string() {
    let info = ctx().browse_namespace(Some(""));
    assert_eq!(info.prefix, "");
    assert_eq!(info.total_attribute_count, 5);
}

#[test]
fn test_check_attributes_all_found() {
    let keys = vec!["http.request.method".to_owned(), "db.system".to_owned()];
    let (found, missing) = ctx().check_attributes(&keys);
    assert_eq!(found.len(), 2);
    assert!(missing.is_empty());
    assert_eq!(found[0].key, "http.request.method");
    assert_eq!(found[1].key, "db.system");
}

#[test]
fn test_check_attributes_all_missing() {
    let keys = vec!["nonexistent.one".to_owned(), "nonexistent.two".to_owned()];
    let (found, missing) = ctx().check_attributes(&keys);
    assert!(found.is_empty());
    assert_eq!(missing.len(), 2);
}

#[test]
fn test_check_attributes_mixed() {
    let keys = vec![
        "http.request.method".to_owned(),
        "nonexistent.attr".to_owned(),
        "db.system".to_owned(),
    ];
    let (found, missing) = ctx().check_attributes(&keys);
    assert_eq!(found.len(), 2);
    assert_eq!(missing.len(), 1);
    assert_eq!(missing[0], "nonexistent.attr");
}

#[test]
fn test_check_attributes_empty_input() {
    let (found, missing) = ctx().check_attributes(&[]);
    assert!(found.is_empty());
    assert!(missing.is_empty());
}

#[test]
fn test_check_attributes_template_matching() {
    let keys = vec!["test.template.foo".to_owned()];
    let (found, missing) = ctx().check_attributes(&keys);
    assert_eq!(found.len(), 1);
    assert!(missing.is_empty());
    assert_eq!(found[0].key, "test.template.foo");
    assert_eq!(found[0].brief, "A template attribute");
}

#[test]
fn search_ranks_best_first_keeping_registry_order_on_ties() {
    let (results, total) = ctx().search(Some("http"), SearchType::All, None, 10, 0);
    let ids: Vec<&str> = results.iter().map(|r| r.item().id.as_str()).collect();
    assert_eq!(total, 4);
    assert_eq!(
        ids,
        vec![
            "http.request.method",
            "http.response.status_code",
            "http.server.request.duration",
            "http.client"
        ]
    );
    assert!(results.iter().all(|r| r.score() == 80));
    let (results, total) = ctx().search(Some("request"), SearchType::All, None, 1, 0);
    assert_eq!(total, 2);
    assert_eq!(results.len(), 1);
    assert_eq!(results[0].item().id, "http.request.method");
    assert_eq!(results[0].score(), 70);
}

#[test]
fn search_pages_with_and_without_a_query() {
    let (all, total) = ctx().search(Some("http"), SearchType::All, None, 10, 0);
    assert_eq!(all.len(), 4);
    assert_eq!(total, 4);
    let (paged, total) = ctx().search(Some("http"), SearchType::All, None, 2, 1);
    assert_eq!(total, 4);
    assert_eq!(paged.len(), 2);
    assert_eq!(paged[0].item().id, all[1].item().id);
    assert_eq!(paged[1].item().id, all[2].item().id);
    assert_eq!(paged[0].score(), all[1].score());
    let (rest, _) = ctx().search(Some("http"), SearchType::All, None, 10, 3);
    assert_eq!(rest.len(), 1);
    assert_eq!(rest[0].item().id, all[3].item().id);
    let (beyond, total) = ctx().search(Some("http"), SearchType::All, None, 10, 4);
    assert!(beyond.is_empty());
    assert_eq!(total, 4);
    let (page, total) = ctx().search(Some(""), SearchType::All, None, 3, 7);
    assert_eq!(total, 9);
    assert_eq!(page.len(), 2);
    assert_eq!(page[0].item().id, "exception");
    assert_eq!(page[1].item().id, "service");
    assert!(page.iter().all(|r| r.score() == 0));
    let (past_end, _) = ctx().search(None, SearchType::All, None, 3, 50);
    assert!(past_end.is_empty());
}

#[test]
fn lookups_keep_the_last_item_with_a_key() {
    let c = SearchContext::from_registry(vec![
        make_attribute("a.b", "first", "", false),
        make_attribute("a.b", "second", "", false),
    ]);
    assert_eq!(c.get_attribute("a.b").unwrap().brief, "second");
}

#[test]
fn find_template_prefers_the_longest_prefix() {
    let c = SearchContext::from_registry(vec![
        make_template_attribute("a", "short"),
        make_template_attribute("a.b", "long"),
        make_template_attribute("a.b.c.d", "too long"),
    ]);
    assert_eq!(c.find_template("a.b.c").unwrap().brief, "long");
    assert_eq!(c.find_template("a.x").unwrap().brief, "short");
}

#[test]
fn browse_namespace_trims_separators_and_sorts() {
    let info = ctx().browse_namespace(Some("http.."));
    assert_eq!(info.prefix, "http");
    assert_eq!(info.child_namespaces, vec!["http.request".to_owned(), "http.response".to_owned()]);
    assert_eq!(info.max_depth, 2);
    let top = ctx().browse_namespace(None);
    assert_eq!(
        top.child_namespaces,
        vec!["db".to_owned(), "experimental".to_owned(), "http".to_owned(), "test".to_owned()]
    );
    assert_eq!(top.max_depth, 3);
}

#[test]
fn browse_namespace_with_a_custom_separator() {
    let c = SearchContext::from_registry_with_separator(
        vec![
            make_attribute("a::b::c", "", "", false),
            make_attribute("a::d", "", "", false),
            make_attribute("a::b::e", "", "", false),
        ],
        "::".to_owned(),
    );
    let info = c.browse_namespace(Some("a"));
    assert_eq!(info.child_namespaces, vec!["a::b".to_owned()]);
    assert_eq!(info.attributes.len(), 1);
    assert_eq!(info.attributes[0].key, "a::d");
    assert_eq!(info.total_attribute_count, 3);
    assert_eq!(info.max_depth, 2);
}

#[test]
fn search_results_stand_under_their_kind() {
    let (results, _) = ctx().search(None, SearchType::All, None, 100, 0);
    assert!(matches!(results[0], SearchResult::Attribute(_)));
    assert!(matches!(results[5], SearchResult::Metric(_)));
    assert!(matches!(results[6], SearchResult::Span(_)));
    assert!(matches!(results[7], SearchResult::Event(_)));
    assert!(matches!(results[8], SearchResult::Entity(_)));
}

#[test]
fn browse_namespace_with_an_empty_separator() {
    let c = SearchContext::from_registry_with_separator(make_test_registry(), String::new());
    let info = c.browse_namespace(Some("http"));
    assert_eq!(info.prefix, "http");
    assert_eq!(info.child_namespaces, vec!["http".to_owned()]);
    assert!(info.attributes.is_empty());
    assert_eq!(info.total_attribute_count, 2);
    assert_eq!(info.max_depth, 23);
}

#[test]
fn suggestions_carry_the_brief_that_lookup_finds() {
    let c = SearchContext::from_registry(vec![
        make_attribute("http.method", "old brief", "", false),
        make_attribute("http.route", "route", "", false),
        make_attribute("http.method", "new brief", "", false),
    ]);
    let s = c.suggest("http_method", 5);
    assert!(!s.is_empty());
    assert_eq!(s[0].key, "http.method");
    assert_eq!(s[0].reason, weaver_semconv::suggest::SuggestionReason::SeparatorNormalized);
    for x in &s {
        let found = c.get_attribute(&x.key).expect("a suggested key is an attribute");
        assert_eq!(found.brief, x.brief);
    }
    assert_eq!(c.get_attribute("http.method").unwrap().brief, "new brief");
}
