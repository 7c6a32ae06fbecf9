use weaver_semconv::search::{score_fields, SearchType};

#[test]
fn exact_match_scores_highest() {
    assert_eq!(score_fields("http.method", "http.method", "", "", false, "."), 100);
}

#[test]
fn starts_with_and_contains() {
    assert_eq!(score_fields("http", "http.method", "", "", false, "."), 80);
    assert_eq!(score_fields("method", "http.method", "", "", false, "."), 70);
}

#[test]
fn all_tokens_in_id() {
    assert_eq!(score_fields("method http", "http.request.method", "", "", false, "."), 60);
    assert_eq!(score_fields("request_meth", "http.request.method", "", "", false, "."), 60);
}

#[test]
fn brief_and_note_matches() {
    assert_eq!(score_fields("status", "http.code", "the status code", "", false, "."), 40);
    assert_eq!(score_fields("status", "http.code", "", "see status", false, "."), 20);
    assert_eq!(score_fields("code status", "x.y", "status of the code", "", false, "."), 35);
    assert_eq!(score_fields("code status", "x.y", "", "status of the code", false, "."), 15);
    assert_eq!(score_fields("nothing", "x.y", "a", "b", false, "."), 0);
}

#[test]
fn deprecated_items_are_demoted() {
    assert_eq!(score_fields("http.method", "http.method", "", "", true, "."), 10);
    assert_eq!(score_fields("status", "http.code", "", "see status", true, "."), 2);
    assert_eq!(score_fields("nothing", "x.y", "a", "b", true, "."), 0);
}

#[test]
fn query_of_separators_only() {
    assert_eq!(score_fields("._", "x", "has ._ in it", "", false, "."), 40);
    assert_eq!(score_fields("._", "x", "", "", false, "."), 0);
}

#[test]
fn default_search_type_is_all() {
    assert_eq!(SearchType::default(), SearchType::All);
}
