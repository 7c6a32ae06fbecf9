use weaver_semconv::error::Error;
use weaver_semconv::manifest::{
    parse_dependency, RawDependency, RawManifestFields, RegistryManifest as AnyRegistryManifest,
};
use weaver_semconv::schema_url::SchemaUrl;
use weaver_semconv::stability::Stability;
use weaver_semconv::v1::manifest::RegistryManifest as V1RegistryManifest;
use weaver_semconv::v2::manifest::{
    DefinitionRegistryManifest, Dependency, PublicationRegistryManifest, RegistryManifest,
};

fn raw(file_format: Option<&str>, schema_url: Option<&str>) -> RawManifestFields {
    RawManifestFields {
        file_format: file_format.map(|s| s.to_owned()),
        schema_url: schema_url.map(|s| s.to_owned()),
        description: None,
        semconv_version: None,
        schema_base_url: None,
        dependencies: vec![],
        stability: Stability::Development,
        resolved_registry_uri: None,
        resolved_schema_uri: None,
    }
}

fn dep_with_url(url: &str) -> RawDependency {
    RawDependency {
        has_schema_url: true,
        name: None,
        as_dependency: Ok((url.to_owned(), None)),
        as_named: Err("missing field `name`".to_owned()),
    }
}

fn dep_named(name: &str, path: &str) -> RawDependency {
    RawDependency {
        has_schema_url: false,
        name: Some(name.to_owned()),
        as_dependency: Err("missing field `schema_url`".to_owned()),
        as_named: Ok((name.to_owned(), path.to_owned())),
    }
}

#[test]
fn definition_manifest_with_format() {
    let m = raw(Some("definition_manifest/2.0"), Some("https://acme.com/schemas/0.1.0"))
        .into_v2_manifest("m.yaml")
        .unwrap();
    match m {
        RegistryManifest::Definition(d) => {
            assert_eq!(d.schema_url.as_str(), "https://acme.com/schemas/0.1.0");
            assert!(d.deserialization_warnings.is_empty());
        }
        RegistryManifest::Publication(_) => panic!("expected a definition manifest"),
    }
}

#[test]
fn missing_file_format_is_reported_as_such() {
    let mut nfes = vec![];
    let m = RegistryManifest::try_from_raw(
        raw(None, Some("https://acme.com/schemas/0.1.0")),
        "dir/manifest.yaml",
        Some("manifest.yaml"),
        &mut nfes,
    )
    .unwrap();
    assert!(matches!(m, RegistryManifest::Definition(_)));
    assert_eq!(nfes.len(), 1);
    assert!(matches!(
        &nfes[0],
        Error::MissingManifestFileFormat { expected_format, .. } if expected_format == "definition_manifest/2.0"
    ));
}

#[test]
fn legacy_file_name_is_reported() {
    let mut nfes = vec![];
    let _ = RegistryManifest::try_from_raw(
        raw(Some("definition_manifest/2.0"), Some("https://acme.com/schemas/0.1.0")),
        "dir/registry_manifest.yaml",
        Some("registry_manifest.yaml"),
        &mut nfes,
    )
    .unwrap();
    assert_eq!(nfes.len(), 1);
    assert!(matches!(&nfes[0], Error::LegacyRegistryManifest { path } if path == "dir/registry_manifest.yaml"));
}

#[test]
fn unknown_file_format_is_rejected() {
    let e = raw(Some("other/1.0"), Some("https://acme.com/schemas/0.1.0"))
        .into_v2_manifest("m.yaml")
        .err()
        .unwrap();
    match e {
        Error::InvalidRegistryManifest { error, .. } => assert_eq!(
            error,
            "Unknown file_format 'other/1.0'. Expected 'definition_manifest/2.0' or 'manifest/2.0'."
        ),
        other => panic!("unexpected error {other:?}"),
    }
}

#[test]
fn publication_manifest_needs_resolved_registry_uri() {
    let e = raw(Some("manifest/2.0"), Some("https://acme.com/schemas/0.1.0"))
        .into_v2_manifest("m.yaml")
        .err()
        .unwrap();
    assert!(matches!(
        e,
        Error::InvalidPublicationManifest { details, .. } if details == "missing required field 'resolved_registry_uri'"
    ));
}

#[test]
fn publication_manifest_accepts_deprecated_resolved_schema_uri() {
    let mut r = raw(Some("manifest/2.0"), Some("https://acme.com/schemas/0.1.0"));
    r.resolved_schema_uri = Some("resolved.yaml".to_owned());
    match r.into_v2_manifest("m.yaml").unwrap() {
        RegistryManifest::Publication(p) => {
            assert_eq!(p.resolved_registry_uri, "resolved.yaml");
            assert_eq!(p.deserialization_warnings.len(), 1);
        }
        RegistryManifest::Definition(_) => panic!("expected a publication manifest"),
    }
}

#[test]
fn publication_manifest_new_name_wins_over_deprecated() {
    let mut r = raw(Some("manifest/2.0"), Some("https://acme.com/schemas/0.1.0"));
    r.resolved_schema_uri = Some("old.yaml".to_owned());
    r.resolved_registry_uri = Some("new.yaml".to_owned());
    match r.into_v2_manifest("m.yaml").unwrap() {
        RegistryManifest::Publication(p) => {
            assert_eq!(p.resolved_registry_uri, "new.yaml");
            assert!(p.deserialization_warnings.is_empty());
        }
        RegistryManifest::Definition(_) => panic!("expected a publication manifest"),
    }
}

#[test]
fn invalid_schema_url_is_rejected() {
    let e = raw(Some("definition_manifest/2.0"), Some("https://acme.com"))
        .into_v2_manifest("m.yaml")
        .err()
        .unwrap();
    assert!(matches!(e, Error::InvalidRegistryManifest { error, .. } if error.contains("at least one path segment")));
}

#[test]
fn v2_dependency_by_name_only_is_rejected() {
    let e = parse_dependency(true, dep_named("acme", "path/to/acme")).err().unwrap();
    assert_eq!(
        e,
        "dependency 'acme' is missing the required field 'schema_url'. The schema_url uniquely identifies the dependency registry and its version, e.g. https://example.com/my-registry/1.0.0"
    );
}

#[test]
fn v1_dependency_by_name_gets_unknown_version() {
    let (url, path) = parse_dependency(false, dep_named("acme.com/schemas", "path/to/acme")).unwrap();
    assert_eq!(url.as_str(), "https://acme.com/schemas/unknown");
    assert_eq!(path.as_deref(), Some("path/to/acme"));
    let d = Dependency {
        schema_url: url,
        registry_path: path,
    };
    assert!(!d.is_versioned());
}

#[test]
fn v1_manifest_from_deprecated_fields() {
    let mut r = raw(None, None);
    r.schema_base_url = Some("https://acme.com/schemas".to_owned());
    r.semconv_version = Some("0.1.0".to_owned());
    let mut nfes = vec![];
    let m = V1RegistryManifest::try_from_raw(r, "registry_manifest.yaml", Some("registry_manifest.yaml"), &mut nfes)
        .unwrap();
    assert_eq!(m.schema_url().as_str(), "https://acme.com/schemas/0.1.0");
    assert_eq!(m.name().as_deref(), Some("acme.com/schemas"));
    assert_eq!(m.version().as_deref(), Some("0.1.0"));
    assert_eq!(nfes.len(), 2);
    assert!(matches!(&nfes[0], Error::LegacyRegistryManifest { .. }));
    assert!(matches!(&nfes[1], Error::DeprecatedSyntaxInRegistryManifest { .. }));
}

#[test]
fn v1_manifest_without_schema_url_fields_is_rejected() {
    let e = raw(None, None).into_v1_manifest("m.yaml").err().unwrap();
    assert!(matches!(
        e,
        Error::InvalidRegistryManifest { error, .. } if error == "Either 'schema_url' or both 'schema_base_url' and 'semconv_version' must be provided"
    ));
    let e = raw(Some("definition/1"), Some("https://acme.com/schemas/0.1.0"))
        .into_v1_manifest("m.yaml")
        .err()
        .unwrap();
    assert!(matches!(
        e,
        Error::InvalidRegistryManifest { error, .. } if error == "Unknown file_format 'definition/1'. Expected no file_format for a definition manifest."
    ));
}

#[test]
fn first_bad_dependency_is_reported() {
    let mut r = raw(Some("definition_manifest/2.0"), Some("https://acme.com/schemas/0.1.0"));
    r.dependencies = vec![
        dep_with_url("https://otel.io/schemas/1.0.0"),
        dep_with_url("https://bad"),
        dep_named("x", "y"),
    ];
    let e = r.into_v2_manifest("m.yaml").err().unwrap();
    assert!(matches!(e, Error::InvalidRegistryManifest { error, .. } if error.contains("at least one path segment")));
}

#[test]
fn publication_from_definition_keeps_only_schema_urls() {
    let mut def = DefinitionRegistryManifest::from_schema_url(
        SchemaUrl::try_from_str("https://acme.com/schemas/0.1.0").unwrap(),
    );
    def.description = Some("desc".to_owned());
    def.dependencies = vec![Dependency {
        schema_url: SchemaUrl::try_from_str("https://otel.io/schemas/1.0.0").unwrap(),
        registry_path: Some("local/path".to_owned()),
    }];
    let p = PublicationRegistryManifest::try_from_registry_manifest(&def, "resolved.yaml".to_owned())
        .unwrap();
    assert_eq!(p.file_format, "manifest/2.0");
    assert_eq!(p.schema_url.as_str(), "https://acme.com/schemas/0.1.0");
    assert_eq!(p.description.as_deref(), Some("desc"));
    assert_eq!(p.dependencies.len(), 1);
    assert_eq!(p.dependencies[0].schema_url.as_str(), "https://otel.io/schemas/1.0.0");
    assert!(p.dependencies[0].registry_path.is_none());
    assert_eq!(p.resolved_registry_uri, "resolved.yaml");
}

#[test]
fn publication_rejects_unversioned_dependency() {
    let mut def = DefinitionRegistryManifest::from_schema_url(SchemaUrl::new_unknown());
    def.dependencies = vec![Dependency {
        schema_url: SchemaUrl::try_from_name_version("acme.com/x", "unknown").unwrap(),
        registry_path: Some("p".to_owned()),
    }];
    let e = PublicationRegistryManifest::try_from_registry_manifest(&def, "r".to_owned())
        .err()
        .unwrap();
    assert!(matches!(
        e,
        Error::UnversionedDependencyInPublication { schema_url, registry_path }
            if schema_url == "https://acme.com/x/unknown" && registry_path.as_deref() == Some("p")
    ));
}

#[test]
fn manifest_with_publication_format_is_a_publication() {
    let mut r = raw(Some("manifest/2.0"), Some("https://example.com/schemas/1.0.0"));
    r.resolved_registry_uri = Some("https://example.com/resolved/new.yaml".to_owned());
    r.resolved_schema_uri = Some("https://example.com/resolved/old.yaml".to_owned());
    match r.into_manifest("m.yaml").unwrap() {
        AnyRegistryManifest::Publication(p) => {
            assert_eq!(p.file_format, "manifest/2.0");
            assert_eq!(p.resolved_registry_uri, "https://example.com/resolved/new.yaml");
            assert!(p.deserialization_warnings.is_empty());
        }
        AnyRegistryManifest::Definition(_) => panic!("expected a publication manifest"),
    }
}

#[test]
fn manifest_publication_takes_deprecated_resolved_uri_with_warning() {
    let mut r = raw(Some("manifest/2.0"), Some("https://example.com/schemas/1.0.0"));
    r.resolved_schema_uri = Some("https://example.com/resolved/old.yaml".to_owned());
    match r.into_manifest("m.yaml").unwrap() {
        AnyRegistryManifest::Publication(p) => {
            assert_eq!(p.resolved_registry_uri, "https://example.com/resolved/old.yaml");
            assert_eq!(
                p.deserialization_warnings,
                vec!["The 'resolved_schema_uri' field is deprecated in favor of 'resolved_registry_uri'.".to_owned()]
            );
        }
        AnyRegistryManifest::Definition(_) => panic!("expected a publication manifest"),
    }
}

#[test]
fn manifest_publication_without_resolved_uri_is_refused() {
    let r = raw(Some("manifest/2.0"), Some("https://example.com/schemas/1.0.0"));
    match r.into_manifest("m.yaml") {
        Err(Error::InvalidPublicationManifest { path, details }) => {
            assert_eq!(path, "m.yaml");
            assert_eq!(details, "missing required field 'resolved_registry_uri'");
        }
        _ => panic!("expected an invalid publication manifest"),
    }
}

#[test]
fn manifest_publication_without_schema_url_is_refused() {
    let mut r = raw(Some("manifest/2.0"), None);
    r.resolved_registry_uri = Some("https://example.com/resolved.yaml".to_owned());
    match r.into_manifest("m.yaml") {
        Err(Error::InvalidPublicationManifest { details, .. }) => {
            assert_eq!(details, "missing required field 'schema_url'");
        }
        _ => panic!("expected an invalid publication manifest"),
    }
}

#[test]
fn manifest_publication_refuses_named_dependency() {
    let mut r = raw(Some("manifest/2.0"), Some("https://example.com/schemas/1.0.0"));
    r.resolved_registry_uri = Some("https://example.com/resolved.yaml".to_owned());
    r.dependencies = vec![dep_named("acme-registry", "./registry")];
    match r.into_manifest("m.yaml") {
        Err(Error::InvalidPublicationManifest { details, .. }) => {
            assert!(details.contains("acme-registry") && details.contains("schema_url"));
        }
        _ => panic!("expected an invalid publication manifest"),
    }
}

#[test]
fn manifest_unknown_format_is_refused() {
    let r = raw(Some("garbage/1.0.0"), Some("https://example.com/schemas/1.0.0"));
    match r.into_manifest("m.yaml") {
        Err(Error::InvalidRegistryManifest { error, .. }) => {
            assert!(error.contains("Unknown file_format"));
            assert_eq!(
                error,
                "Unknown file_format 'garbage/1.0.0'. Expected 'manifest/2.0' or no file_format for a definition manifest."
            );
        }
        _ => panic!("expected an invalid registry manifest"),
    }
}

#[test]
fn manifest_definition_format_name_is_unknown_here() {
    let r = raw(Some("definition_manifest/2.0"), Some("https://example.com/schemas/1.0.0"));
    assert!(matches!(
        r.into_manifest("m.yaml"),
        Err(Error::InvalidRegistryManifest { .. })
    ));
}

#[test]
fn manifest_definition_with_schema_url_has_no_warning() {
    let mut r = raw(None, Some("https://acme.com/schemas/0.1.0"));
    r.dependencies = vec![dep_with_url("https://example.com/dep/2.0.0")];
    match r.into_manifest("m.yaml").unwrap() {
        AnyRegistryManifest::Definition(d) => {
            assert_eq!(d.schema_url.as_str(), "https://acme.com/schemas/0.1.0");
            assert!(d.deserialization_warnings.is_empty());
            assert_eq!(d.dependencies.len(), 1);
            assert_eq!(d.dependencies[0].schema_url.as_str(), "https://example.com/dep/2.0.0");
        }
        AnyRegistryManifest::Publication(_) => panic!("expected a definition manifest"),
    }
}

#[test]
fn manifest_definition_with_schema_url_reads_dependencies_strictly() {
    let mut r = raw(None, Some("https://acme.com/schemas/0.1.0"));
    r.dependencies = vec![dep_named("acme-registry", "./registry")];
    match r.into_manifest("m.yaml") {
        Err(Error::InvalidRegistryManifest { error, .. }) => {
            assert!(error.contains("acme-registry") && error.contains("schema_url"));
        }
        _ => panic!("expected an invalid registry manifest"),
    }
}

#[test]
fn manifest_definition_from_deprecated_fields() {
    let mut r = raw(None, None);
    r.schema_base_url = Some("https://acme.com/schemas".to_owned());
    r.semconv_version = Some("0.1.0".to_owned());
    r.dependencies = vec![dep_named("acme-registry", "./registry")];
    match r.into_manifest("m.yaml").unwrap() {
        AnyRegistryManifest::Definition(d) => {
            assert_eq!(d.schema_url.as_str(), "https://acme.com/schemas/0.1.0");
            assert_eq!(
                d.deserialization_warnings,
                vec!["The 'semconv_version' and 'schema_base_url' fields are deprecated in favor of 'schema_url'.".to_owned()]
            );
            assert_eq!(d.dependencies[0].schema_url.as_str(), "https://acme-registry/unknown");
        }
        AnyRegistryManifest::Publication(_) => panic!("expected a definition manifest"),
    }
}

#[test]
fn manifest_definition_without_any_schema_url_is_refused() {
    let mut r = raw(None, None);
    r.schema_base_url = Some("https://acme.com/schemas".to_owned());
    match r.into_manifest("m.yaml") {
        Err(Error::InvalidRegistryManifest { error, .. }) => assert_eq!(
            error,
            "Either 'schema_url' or both 'schema_base_url' and 'semconv_version' must be provided"
        ),
        _ => panic!("expected an invalid registry manifest"),
    }
}

#[test]
fn manifest_definition_with_empty_version_is_refused() {
    let mut r = raw(None, None);
    r.schema_base_url = Some("https://acme.com/schemas".to_owned());
    r.semconv_version = Some("".to_owned());
    match r.into_manifest("m.yaml") {
        Err(Error::InvalidRegistryManifest { error, .. }) => {
            assert_eq!(error, "Registry name and version cannot be empty.")
        }
        _ => panic!("expected an invalid registry manifest"),
    }
}

#[test]
fn manifest_reading_reports_legacy_name_and_deprecated_fields() {
    let mut r = raw(None, None);
    r.schema_base_url = Some("https://acme.com/schemas".to_owned());
    r.semconv_version = Some("0.1.0".to_owned());
    let mut nfes = vec![];
    let m = AnyRegistryManifest::try_from_raw(
        r,
        "dir/registry_manifest.yaml",
        Some("registry_manifest.yaml"),
        &mut nfes,
    )
    .unwrap();
    assert_eq!(m.schema_url().as_str(), "https://acme.com/schemas/0.1.0");
    assert!(m.dependencies().is_empty());
    assert_eq!(nfes.len(), 2);
    assert!(matches!(&nfes[0], Error::LegacyRegistryManifest { path } if path == "dir/registry_manifest.yaml"));
    assert!(matches!(
        &nfes[1],
        Error::DeprecatedSyntaxInRegistryManifest { error, .. }
            if error == "The 'semconv_version' and 'schema_base_url' fields are deprecated in favor of 'schema_url'."
    ));
}

#[test]
fn manifest_reading_reports_nothing_on_refusal() {
    let mut nfes = vec![];
    let r = raw(Some("garbage/1.0.0"), Some("https://example.com/schemas/1.0.0"));
    assert!(AnyRegistryManifest::try_from_raw(r, "m.yaml", Some("registry_manifest.yaml"), &mut nfes).is_err());
    assert!(nfes.is_empty());
}
