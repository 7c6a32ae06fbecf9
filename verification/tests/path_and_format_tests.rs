use weaver_semconv::error::Error;
use weaver_semconv::path_text::{file_name_of, join, provenance_path_to_name};
use weaver_semconv::provenance::Provenance;
use weaver_semconv::registry_repo::{is_semantic_convention_file, ManifestPath};
use weaver_semconv::schema_url::SchemaUrl;
use weaver_semconv::semconv::FileFormat;

#[test]
fn path_to_name_uses_stems_of_normal_parts() {
    assert_eq!(provenance_path_to_name("data/registry/http.yaml"), "data.registry.http");
    assert_eq!(provenance_path_to_name("/abs/./x/../y.yml"), "abs.x.y");
    assert_eq!(provenance_path_to_name("a.b.c"), "a.b");
    assert_eq!(provenance_path_to_name(".hidden"), ".hidden");
    assert_eq!(provenance_path_to_name(""), "");
}

#[test]
fn file_names_of_paths() {
    assert_eq!(file_name_of("a/b/c.yaml").as_deref(), Some("c.yaml"));
    assert_eq!(file_name_of("a/b/").as_deref(), Some("b"));
    assert_eq!(file_name_of("a/./"), Some("a".to_owned()));
    assert_eq!(file_name_of("a/.."), None);
    assert_eq!(file_name_of("/"), None);
    assert_eq!(join("dir", "manifest.yaml"), "dir/manifest.yaml");
    assert_eq!(join("dir/", "manifest.yaml"), "dir/manifest.yaml");
    assert_eq!(join("", "manifest.yaml"), "manifest.yaml");
}

#[test]
fn semantic_convention_files() {
    assert!(is_semantic_convention_file("model/http.yaml", true));
    assert!(is_semantic_convention_file("model/http.yml", true));
    assert!(!is_semantic_convention_file("model/http.yaml", false));
    assert!(!is_semantic_convention_file("model/http.json", true));
    assert!(!is_semantic_convention_file("model/manifest.yaml", true));
    assert!(!is_semantic_convention_file("model/registry_manifest.yaml", true));
    assert!(!is_semantic_convention_file("model/schema-next.yaml", true));
    assert!(!is_semantic_convention_file("model/.yaml", true));
}

#[test]
fn manifest_path_discovery() {
    let m = ManifestPath::find("reg/registry_manifest.yaml", true, false, false);
    assert!(matches!(m, ManifestPath::LegacyPath(ref p) if p == "reg/registry_manifest.yaml"));
    let m = ManifestPath::find("reg/custom.yaml", true, false, false);
    assert!(matches!(m, ManifestPath::RegistryPath(ref p) if p == "reg/custom.yaml"));
    let m = ManifestPath::find("reg", false, true, true);
    assert_eq!(m.path(), Some("reg/manifest.yaml"));
    let m = ManifestPath::find("reg", false, false, true);
    assert!(matches!(m, ManifestPath::LegacyPath(ref p) if p == "reg/registry_manifest.yaml"));
    let m = ManifestPath::find("reg", false, false, false);
    assert!(matches!(m, ManifestPath::NotFound));
    assert_eq!(m.path(), None);
}

#[test]
fn provenance_uses_forward_slashes() {
    let p = Provenance::new(SchemaUrl::new_unknown(), "a\\b\\c.yaml");
    assert_eq!(p.path, "a/b/c.yaml");
    assert_eq!(p.to_string(), "https://unknown/unknown:a/b/c.yaml");
}

#[test]
fn file_format_detection() {
    let mut w = vec![];
    assert_eq!(
        FileFormat::detect(None, Some("definition/2".to_owned()), "f.yaml", &mut w).unwrap(),
        FileFormat::V2
    );
    assert_eq!(w.len(), 1);
    assert!(matches!(&w[0], Error::UnstableFileFormat { file_format, .. } if file_format == "definition/2"));

    let mut w = vec![];
    assert_eq!(
        FileFormat::detect(Some("1".to_owned()), None, "f.yaml", &mut w).unwrap(),
        FileFormat::V1
    );
    assert_eq!(w.len(), 1);
    assert!(matches!(&w[0], Error::DeprecatedVersionField { provenance } if provenance == "f.yaml"));

    let mut w = vec![];
    assert_eq!(FileFormat::detect(None, None, "f.yaml", &mut w).unwrap(), FileFormat::Unversioned);
    assert!(w.is_empty());

    let mut w = vec![];
    let e = FileFormat::detect(None, Some("definition/3".to_owned()), "f.yaml", &mut w)
        .err()
        .unwrap();
    assert!(matches!(
        e,
        Error::InvalidFileFormat { field_key, field_value } if field_key == "file_format" && field_value == "definition/3"
    ));

    let mut w = vec![];
    let e = FileFormat::detect(Some("7".to_owned()), Some("definition/3".to_owned()), "f.yaml", &mut w)
        .err()
        .unwrap();
    assert!(matches!(
        e,
        Error::InvalidFileFormat { field_key, field_value } if field_key == "version" && field_value == "7"
    ));
    assert_eq!(w.len(), 1);
}
