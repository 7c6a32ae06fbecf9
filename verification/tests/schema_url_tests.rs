use std::collections::hash_map::DefaultHasher;
use std::hash::{Hash, Hasher};
use weaver_semconv::schema_url::SchemaUrl;

#[test]
fn test_new_and_as_str() {
    let url = "https://opentelemetry.io/schemas/1.0.0";
    let schema_url = SchemaUrl::try_from_str(url).unwrap();
    assert_eq!(schema_url.as_str(), url);
}

#[test]
fn test_validate_invalid_url_syntax() {
    let result = SchemaUrl::try_from_str("not a valid url");
    assert!(result.is_err());
}

#[test]
fn test_validate_url_without_path() {
    let result = SchemaUrl::try_from_str("https://opentelemetry.io");
    assert!(result.is_err());
    assert!(result.unwrap_err().contains("at least one path segment"));
}

#[test]
fn test_try_new_valid_url() {
    let result = SchemaUrl::try_from_str("https://opentelemetry.io/schemas/1.0.0");
    assert!(result.is_ok());
    let schema_url = result.unwrap();
    assert_eq!(schema_url.as_str(), "https://opentelemetry.io/schemas/1.0.0");
}

#[test]
fn test_try_from_name_version_with_https() {
    let result = SchemaUrl::try_from_name_version("https://opentelemetry.io/schemas", "1.0.0");
    assert!(result.is_ok());
    let schema_url = result.unwrap();
    assert_eq!(schema_url.as_str(), "https://opentelemetry.io/schemas/1.0.0");
}

#[test]
fn test_try_from_name_version_without_scheme() {
    let result = SchemaUrl::try_from_name_version("opentelemetry.io/schemas", "1.0.0");
    assert!(result.is_ok());
    let schema_url = result.unwrap();
    assert_eq!(schema_url.as_str(), "https://opentelemetry.io/schemas/1.0.0");
}

#[test]
fn test_try_from_name_version_with_http() {
    let result = SchemaUrl::try_from_name_version("http://example.com/schemas", "1.0.0");
    assert!(result.is_ok());
    let schema_url = result.unwrap();
    assert_eq!(schema_url.as_str(), "http://example.com/schemas/1.0.0");
}

#[test]
fn test_try_from_name_version_with_trailing_slash() {
    let result = SchemaUrl::try_from_name_version("https://example.com/schemas/", "1.0.0");
    assert!(result.is_ok());
    let schema_url = result.unwrap();
    assert_eq!(schema_url.as_str(), "https://example.com/schemas/1.0.0");
}

#[test]
fn test_equality() {
    let url1 = SchemaUrl::try_from_str("https://example.com/schemas/1.0.0").unwrap();
    let url2 = SchemaUrl::try_from_str("https://example.com/schemas/1.0.0").unwrap();
    let url3 = SchemaUrl::try_from_str("https://example.com/schemas/2.0.0").unwrap();
    assert_eq!(url1, url2);
    assert_ne!(url1, url3);
}

#[test]
fn test_hash() {
    let url1 = SchemaUrl::try_from_str("https://example.com/schemas/1.0.0").unwrap();
    let url2 = SchemaUrl::try_from_str("https://example.com/schemas/1.0.0").unwrap();
    let mut hasher1 = DefaultHasher::new();
    url1.hash(&mut hasher1);
    let hash1 = hasher1.finish();
    let mut hasher2 = DefaultHasher::new();
    url2.hash(&mut hasher2);
    let hash2 = hasher2.finish();
    assert_eq!(hash1, hash2);
}

#[test]
fn schema_url_test_display() {
    let schema_url = SchemaUrl::try_from_str("https://example.com/schemas/1.0.0").unwrap();
    assert_eq!(schema_url.to_string(), "https://example.com/schemas/1.0.0");
}

#[test]
fn name_and_version_extraction() {
    let u = SchemaUrl::try_from_str("https://opentelemetry.io/schemas/1.0.0").unwrap();
    assert_eq!(u.name(), "opentelemetry.io/schemas");
    assert_eq!(u.version(), "1.0.0");
    let u = SchemaUrl::try_from_str("https://opentelemetry.io/schemas/sub-component/1.0.0").unwrap();
    assert_eq!(u.name(), "opentelemetry.io/schemas/sub-component");
    let u = SchemaUrl::try_from_str("https://opentelemetry.io/1.0.0").unwrap();
    assert_eq!(u.name(), "opentelemetry.io");
    let u = SchemaUrl::try_from_str("https://example.com:8080/schemas/1.0.0").unwrap();
    assert_eq!(u.name(), "example.com:8080/schemas");
    let u = SchemaUrl::try_from_str("https://example.com/v1").unwrap();
    assert_eq!(u.version(), "v1");
    let u = SchemaUrl::try_from_str("https://example.com/schemas/1.2.3").unwrap();
    assert_eq!(u.version(), "1.2.3");
}

#[test]
fn checked_name_of_an_unparsable_url_is_none() {
    let u = SchemaUrl {
        url: "not a valid url".to_owned(),
    };
    assert_eq!(u.checked_name(), None);
    assert_eq!(u.checked_version(), None);
    assert!(!u.has_known_version());
}

#[test]
fn validate_messages() {
    let u = SchemaUrl {
        url: "https://example.com".to_owned(),
    };
    assert_eq!(
        u.validate().unwrap_err(),
        "The schema URL must have at least one path segment."
    );
    let u = SchemaUrl {
        url: "not a valid url".to_owned(),
    };
    assert!(u.validate().unwrap_err().starts_with("Invalid schema URL: "));
}

#[test]
fn blank_name_or_version_is_refused() {
    assert_eq!(
        SchemaUrl::try_from_name_version("  ", "1.0.0").unwrap_err(),
        "Registry name and version cannot be empty."
    );
    assert_eq!(
        SchemaUrl::try_from_name_version("example.com", "").unwrap_err(),
        "Registry name and version cannot be empty."
    );
}

#[test]
fn unknown_schema_url() {
    let u = SchemaUrl::new_unknown();
    assert_eq!(u.as_str(), "https://unknown/unknown");
    assert_eq!(u.name(), "unknown");
    assert_eq!(u.version(), "unknown");
    assert!(!u.has_known_version());
}

#[test]
fn test_name_extraction_simple() {
    let schema_url = SchemaUrl::try_from_str("https://opentelemetry.io/schemas/1.0.0").unwrap();
    assert_eq!(schema_url.name(), "opentelemetry.io/schemas");
}

#[test]
fn test_name_extraction_nested_path() {
    let schema_url =
        SchemaUrl::try_from_str("https://opentelemetry.io/schemas/sub-component/1.0.0").unwrap();
    assert_eq!(schema_url.name(), "opentelemetry.io/schemas/sub-component");
}

#[test]
fn test_name_extraction_single_segment() {
    let schema_url = SchemaUrl::try_from_str("https://opentelemetry.io/1.0.0").unwrap();
    assert_eq!(schema_url.name(), "opentelemetry.io");
}

#[test]
fn test_name_extraction_with_port() {
    let schema_url = SchemaUrl::try_from_str("https://example.com:8080/schemas/1.0.0").unwrap();
    assert_eq!(schema_url.name(), "example.com:8080/schemas");
}

#[test]
fn test_version_extraction_simple() {
    let schema_url = SchemaUrl::try_from_str("https://opentelemetry.io/schemas/1.0.0").unwrap();
    assert_eq!(schema_url.version(), "1.0.0");
}

#[test]
fn test_version_extraction_semantic_version() {
    let schema_url = SchemaUrl::try_from_str("https://example.com/schemas/1.2.3").unwrap();
    assert_eq!(schema_url.version(), "1.2.3");
}

#[test]
fn test_version_extraction_single_segment() {
    let schema_url = SchemaUrl::try_from_str("https://example.com/v1").unwrap();
    assert_eq!(schema_url.version(), "v1");
}

#[test]
fn test_name_caching() {
    let schema_url = SchemaUrl::try_from_str("https://opentelemetry.io/schemas/1.0.0").unwrap();
    let name1 = schema_url.name();
    let name2 = schema_url.name();
    assert_eq!(name1, name2);
    assert_eq!(name1, "opentelemetry.io/schemas");
}

#[test]
fn test_version_caching() {
    let schema_url = SchemaUrl::try_from_str("https://opentelemetry.io/schemas/1.0.0").unwrap();
    let version1 = schema_url.version();
    let version2 = schema_url.version();
    assert_eq!(version1, version2);
    assert_eq!(version1, "1.0.0");
}

#[test]
fn test_clone_preserves_url_but_resets_cache() {
    let original = SchemaUrl::try_from_str("https://opentelemetry.io/schemas/1.0.0").unwrap();
    let _ = original.name();
    let cloned = original.clone();
    assert_eq!(original.as_str(), cloned.as_str());
    assert_eq!(original.name(), cloned.name());
}
