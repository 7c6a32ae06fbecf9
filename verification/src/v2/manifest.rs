//! The version 2 registry manifests: the definition manifest of a registry
//! under development, and the publication manifest of a packaged one.

use vstd::prelude::*;
use crate::error::{ev, Error, ErrorKind, ErrorView};
use crate::manifest::{
    first_dependency_error, parse_dependencies, parsed_dependency, RawDependency,
    RawManifestFields,
};
use crate::schema_url::{opt_view, spec_validate, url_parse, spec_version_of, SchemaUrl};
use crate::stability::Stability;
use crate::text::{str_eq, string_views, to_owned_string};

verus! {

/// The file format of a version 2 definition manifest.
pub const DEFINITION_MANIFEST_FILE_FORMAT: &'static str = "definition_manifest/2.0";

/// The file format of a publication manifest.
pub const PUBLICATION_MANIFEST_FILE_FORMAT: &'static str = "manifest/2.0";

/// The definition manifest of a registry under development.
pub struct DefinitionRegistryManifest {
    /// Always `definition_manifest/2.0`.
    pub file_format: String,
    /// The schema URL, which identifies the registry and its version.
    pub schema_url: SchemaUrl,
    /// A description of the registry, in markdown.
    pub description: Option<String>,
    /// The registries this one depends on.
    pub dependencies: Vec<Dependency>,
    /// The stability of the registry.
    pub stability: Stability,
    /// Warnings about deprecated syntax found while reading the manifest.
    pub deserialization_warnings: Vec<String>,
}

impl DefinitionRegistryManifest {
    /// A definition manifest with only a schema URL: no description, no
    /// dependency, development stability.
    pub fn from_schema_url(schema_url: SchemaUrl) -> (r: Self)
        ensures
            r.file_format@ == "definition_manifest/2.0"@,
            r.schema_url == schema_url,
            r.description is None,
            r.dependencies@.len() == 0,
            r.stability == Stability::Development,
            r.deserialization_warnings@.len() == 0,
    {
        DefinitionRegistryManifest {
            file_format: to_owned_string("definition_manifest/2.0"),
            schema_url,
            description: None,
            dependencies: Vec::new(),
            stability: Stability::Development,
            deserialization_warnings: Vec::new(),
        }
    }
}

/// A dependency of a registry.
pub struct Dependency {
    /// The schema URL of the dependency, which identifies it and its version.
    pub schema_url: SchemaUrl,
    /// Where the dependency can be found, when given.
    pub registry_path: Option<String>,
}

impl Dependency {
    /// Whether the declaration pins a version: its schema URL parses and its
    /// version is not the placeholder `unknown`.
    pub fn is_versioned(&self) -> (r: bool)
        ensures
            r == (url_parse(self.schema_url.url@) is Ok && spec_version_of(
                url_parse(self.schema_url.url@)->Ok_0.1,
            ) != "unknown"@),
    {
        self.schema_url.has_known_version()
    }
}

/// The publication manifest of a packaged registry.
pub struct PublicationRegistryManifest {
    /// Always `manifest/2.0`.
    pub file_format: String,
    /// The schema URL, which identifies the registry and its version.
    pub schema_url: SchemaUrl,
    /// A description of the registry.
    pub description: Option<String>,
    /// The registries this one depends on.
    pub dependencies: Vec<Dependency>,
    /// The stability of the registry.
    pub stability: Stability,
    /// Where the resolved registry of the package is.
    pub resolved_registry_uri: String,
    /// Warnings about deprecated syntax found while reading the manifest.
    pub deserialization_warnings: Vec<String>,
}

/// A version 2 registry manifest: a definition or a publication manifest.
pub enum RegistryManifest {
    /// A definition manifest.
    Definition(DefinitionRegistryManifest),
    /// A publication manifest.
    Publication(PublicationRegistryManifest),
}

/// The dependencies `deps` are those read from the declarations `raw`.
pub open spec fn dependencies_read(raw: Seq<RawDependency>, deps: Seq<Dependency>) -> bool {
    &&& deps.len() == raw.len()
    &&& forall|i: int|
        0 <= i < raw.len() ==> (#[trigger] deps[i]).schema_url.url@ == parsed_dependency(true, raw[i]).0
            && opt_view(deps[i].registry_path) == parsed_dependency(true, raw[i]).1
}

/// The warning about a manifest without `file_format`.
pub open spec fn missing_file_format_warning() -> Seq<char> {
    "Missing 'file_format' field. Assumed to be a V2 definition manifest ('definition_manifest/2.0')."@
}

/// The warning about the deprecated `resolved_schema_uri` field.
pub open spec fn deprecated_resolved_schema_uri_warning() -> Seq<char> {
    "The 'resolved_schema_uri' field is deprecated in favor of 'resolved_registry_uri'."@
}

/// Whether an optional text is the given one.
pub open spec fn is_text(s: Option<String>, t: Seq<char>) -> bool {
    s matches Some(x) && x@ == t
}

/// The error, if any, that reading the fields of a version 2 manifest at
/// `path` gives: an invalid schema URL first (it is checked while the file
/// is read), then, for a publication manifest, a missing schema URL, an
/// unreadable dependency or a missing resolved registry URI; for a
/// definition manifest (or one without format), a missing schema URL or an
/// unreadable dependency; any other format is refused.
pub open spec fn spec_v2_manifest_error(raw: RawManifestFields, path: Seq<char>) -> Option<ErrorView> {
    let invalid = |m: Seq<char>| ev(ErrorKind::InvalidRegistryManifest, seq![path, m]);
    let invalid_pub = |m: Seq<char>| ev(ErrorKind::InvalidPublicationManifest, seq![path, m]);
    if raw.schema_url is Some && spec_validate(raw.schema_url->0@) is Err {
        Some(invalid(spec_validate(raw.schema_url->0@)->Err_0))
    } else if is_text(raw.file_format, "manifest/2.0"@) {
        if raw.schema_url is None {
            Some(invalid_pub("missing required field 'schema_url'"@))
        } else if first_dependency_error(true, raw.dependencies@) is Some {
            Some(invalid_pub(first_dependency_error(true, raw.dependencies@)->0))
        } else if raw.resolved_registry_uri is None && raw.resolved_schema_uri is None {
            Some(invalid_pub("missing required field 'resolved_registry_uri'"@))
        } else {
            None
        }
    } else if raw.file_format is None || is_text(raw.file_format, "definition_manifest/2.0"@) {
        if raw.schema_url is None {
            Some(invalid("missing required field 'schema_url'"@))
        } else if first_dependency_error(true, raw.dependencies@) is Some {
            Some(invalid(first_dependency_error(true, raw.dependencies@)->0))
        } else {
            None
        }
    } else {
        Some(
            invalid(
                "Unknown file_format '"@ + raw.file_format->0@
                    + "'. Expected 'definition_manifest/2.0' or 'manifest/2.0'."@,
            ),
        )
    }
}

/// The manifest `m` is what the fields `raw` give when they are valid.
pub open spec fn spec_v2_manifest_of(raw: RawManifestFields, m: RegistryManifest) -> bool {
    match m {
        RegistryManifest::Publication(p) => {
            &&& is_text(raw.file_format, "manifest/2.0"@)
            &&& p.file_format@ == "manifest/2.0"@
            &&& raw.schema_url matches Some(u) && p.schema_url.url@ == u@
            &&& p.description == raw.description
            &&& dependencies_read(raw.dependencies@, p.dependencies@)
            &&& p.stability == raw.stability
            &&& match raw.resolved_registry_uri {
                Some(v) => p.resolved_registry_uri == v && p.deserialization_warnings@.len() == 0,
                None => raw.resolved_schema_uri == Some(p.resolved_registry_uri) && string_views(
                    p.deserialization_warnings@,
                ) == seq![deprecated_resolved_schema_uri_warning()],
            }
        },
        RegistryManifest::Definition(d) => {
            &&& raw.file_format is None || is_text(raw.file_format, "definition_manifest/2.0"@)
            &&& d.file_format@ == "definition_manifest/2.0"@
            &&& raw.schema_url matches Some(u) && d.schema_url.url@ == u@
            &&& d.description == raw.description
            &&& dependencies_read(raw.dependencies@, d.dependencies@)
            &&& d.stability == raw.stability
            &&& string_views(d.deserialization_warnings@) == if raw.file_format is None {
                seq![missing_file_format_warning()]
            } else {
                Seq::empty()
            }
        },
    }
}

/// Builds the dependencies from what was read of them.
pub(crate) fn into_dependencies(v: Vec<(SchemaUrl, Option<String>)>) -> (r: Vec<Dependency>)
    ensures
        r@.len() == v@.len(),
        forall|i: int|
            0 <= i < v@.len() ==> (#[trigger] r@[i]).schema_url == v@[i].0 && r@[i].registry_path
                == v@[i].1,
{
    crate::vec_util::map_vec(v, make_dependency)
}

/// One dependency from its schema URL and registry path.
fn make_dependency(p: (SchemaUrl, Option<String>)) -> (r: Dependency)
    ensures
        r.schema_url == p.0 && r.registry_path == p.1,
{
    Dependency { schema_url: p.0, registry_path: p.1 }
}

/// Whether an optional text is the given one.
pub(crate) fn opt_is(s: &Option<String>, t: &str) -> (r: bool)
    ensures
        r == (s matches Some(x) && x@ == t@),
{
    match s {
        Some(x) => str_eq(x.as_str(), t),
        None => false,
    }
}

impl RawManifestFields {
    /// Validates the fields of a version 2 manifest read from `path` and
    /// builds the manifest: a publication manifest for the format
    /// `manifest/2.0`, a definition manifest for `definition_manifest/2.0` or
    /// no format.
    pub fn into_v2_manifest(self, path: &str) -> (r: Result<RegistryManifest, Error>)
        ensures
            match r {
                Ok(m) => spec_v2_manifest_error(self, path@) is None && spec_v2_manifest_of(self, m),
                Err(e) => spec_v2_manifest_error(self, path@) == Some(e@),
            },
    {
        let ghost raw = self;
        let schema_url = match self.schema_url {
            Some(u) => match SchemaUrl::try_from_string(u) {
                Ok(url) => Some(url),
                Err(e) => {
                    return Err(Error::InvalidRegistryManifest { path: to_owned_string(path), error: e });
                },
            },
            None => None,
        };
        let is_publication = opt_is(&self.file_format, "manifest/2.0");
        let is_definition = opt_is(&self.file_format, "definition_manifest/2.0");
        let is_empty = self.file_format.is_none();
        if is_publication {
            let schema_url = match schema_url {
                Some(u) => u,
                None => {
                    return Err(
                        Error::InvalidPublicationManifest {
                            path: to_owned_string(path),
                            details: to_owned_string("missing required field 'schema_url'"),
                        },
                    );
                },
            };
            let parsed = match parse_dependencies(true, self.dependencies) {
                Ok(p) => p,
                Err(details) => {
                    return Err(Error::InvalidPublicationManifest { path: to_owned_string(path), details });
                },
            };
            let dependencies = into_dependencies(parsed);
            let mut warnings: Vec<String> = Vec::new();
            let resolved_registry_uri = match self.resolved_registry_uri {
                Some(v) => v,
                None => match self.resolved_schema_uri {
                    Some(v) => {
                        warnings.push(
                            to_owned_string(
                                "The 'resolved_schema_uri' field is deprecated in favor of 'resolved_registry_uri'.",
                            ),
                        );
                        v
                    },
                    None => {
                        return Err(
                            Error::InvalidPublicationManifest {
                                path: to_owned_string(path),
                                details: to_owned_string("missing required field 'resolved_registry_uri'"),
                            },
                        );
                    },
                },
            };
            proof {
                assert(string_views(warnings@) =~= if raw.resolved_registry_uri is None {
                    seq![deprecated_resolved_schema_uri_warning()]
                } else {
                    Seq::empty()
                });
            }
            Ok(
                RegistryManifest::Publication(
                    PublicationRegistryManifest {
                        file_format: to_owned_string("manifest/2.0"),
                        schema_url,
                        description: self.description,
                        dependencies,
                        stability: self.stability,
                        resolved_registry_uri,
                        deserialization_warnings: warnings,
                    },
                ),
            )
        } else if is_definition || is_empty {
            let mut warnings: Vec<String> = Vec::new();
            if is_empty {
                warnings.push(
                    to_owned_string(
                        "Missing 'file_format' field. Assumed to be a V2 definition manifest ('definition_manifest/2.0').",
                    ),
                );
            }
            let schema_url = match schema_url {
                Some(u) => u,
                None => {
                    return Err(
                        Error::InvalidRegistryManifest {
                            path: to_owned_string(path),
                            error: to_owned_string("missing required field 'schema_url'"),
                        },
                    );
                },
            };
            let parsed = match parse_dependencies(true, self.dependencies) {
                Ok(p) => p,
                Err(error) => {
                    return Err(Error::InvalidRegistryManifest { path: to_owned_string(path), error });
                },
            };
            let dependencies = into_dependencies(parsed);
            proof {
                assert(string_views(warnings@) =~= if raw.file_format is None {
                    seq![missing_file_format_warning()]
                } else {
                    Seq::empty()
                });
            }
            Ok(
                RegistryManifest::Definition(
                    DefinitionRegistryManifest {
                        file_format: to_owned_string("definition_manifest/2.0"),
                        schema_url,
                        description: self.description,
                        dependencies,
                        stability: self.stability,
                        deserialization_warnings: warnings,
                    },
                ),
            )
        } else {
            let fmt = match self.file_format {
                Some(f) => f,
                None => to_owned_string("unknown"),
            };
            let mut error = to_owned_string("Unknown file_format '");
            error.append(fmt.as_str());
            error.append("'. Expected 'definition_manifest/2.0' or 'manifest/2.0'.");
            Err(Error::InvalidRegistryManifest { path: to_owned_string(path), error })
        }
    }
}

/// The non-fatal error that reports the warning `w` about the manifest at
/// `path`.
pub open spec fn load_warning_view(path: Seq<char>, w: Seq<char>) -> ErrorView {
    if crate::text::starts_with_seq(w, "Missing 'file_format' field"@) {
        ev(ErrorKind::MissingManifestFileFormat, seq![path, "definition_manifest/2.0"@])
    } else {
        ev(ErrorKind::DeprecatedSyntaxInRegistryManifest, seq![path, w])
    }
}

/// The non-fatal errors that reading a manifest at `path` reports: one for a
/// legacy file name, then one per warning, a missing `file_format` being
/// reported as such and any other warning as deprecated syntax.
pub open spec fn spec_load_warnings(
    path: Seq<char>,
    legacy: bool,
    warnings: Seq<Seq<char>>,
) -> Seq<ErrorView> {
    (if legacy {
        seq![ev(ErrorKind::LegacyRegistryManifest, seq![path])]
    } else {
        Seq::empty()
    }) + warnings.map_values(|w: Seq<char>| load_warning_view(path, w))
}

impl RegistryManifest {
    /// The schema URL of the registry.
    pub fn schema_url(&self) -> (r: &SchemaUrl)
        ensures
            r == match self {
                RegistryManifest::Definition(m) => &m.schema_url,
                RegistryManifest::Publication(m) => &m.schema_url,
            },
    {
        match self {
            RegistryManifest::Definition(m) => &m.schema_url,
            RegistryManifest::Publication(m) => &m.schema_url,
        }
    }

    /// The dependencies of the registry.
    pub fn dependencies(&self) -> (r: &[Dependency])
        ensures
            r@ == match self {
                RegistryManifest::Definition(m) => m.dependencies@,
                RegistryManifest::Publication(m) => m.dependencies@,
            },
    {
        match self {
            RegistryManifest::Definition(m) => m.dependencies.as_slice(),
            RegistryManifest::Publication(m) => m.dependencies.as_slice(),
        }
    }

    /// The description of the registry, if any.
    pub fn description(&self) -> (r: Option<&str>)
        ensures
            opt_str_view(r) == opt_view(
                match self {
                    RegistryManifest::Definition(m) => m.description,
                    RegistryManifest::Publication(m) => m.description,
                },
            ),
    {
        let d = match self {
            RegistryManifest::Definition(m) => &m.description,
            RegistryManifest::Publication(m) => &m.description,
        };
        match d {
            Some(s) => Some(s.as_str()),
            None => None,
        }
    }

    /// The warnings gathered while reading the manifest.
    pub fn deserialization_warnings(&self) -> (r: &Vec<String>)
        ensures
            r == match self {
                RegistryManifest::Definition(m) => &m.deserialization_warnings,
                RegistryManifest::Publication(m) => &m.deserialization_warnings,
            },
    {
        match self {
            RegistryManifest::Definition(m) => &m.deserialization_warnings,
            RegistryManifest::Publication(m) => &m.deserialization_warnings,
        }
    }

    /// Builds a manifest from the fields read from the file at `path`, whose
    /// file name is `file_name`, and reports in `nfes` a legacy file name and
    /// the warnings gathered.
    pub fn try_from_raw(
        raw: RawManifestFields,
        path: &str,
        file_name: Option<&str>,
        nfes: &mut Vec<Error>,
    ) -> (r: Result<Self, Error>)
        ensures
            match r {
                Ok(m) => {
                    &&& spec_v2_manifest_error(raw, path@) is None
                    &&& spec_v2_manifest_of(raw, m)
                    &&& crate::error::errors_view(final(nfes)@) == crate::error::errors_view(old(nfes)@)
                        + spec_load_warnings(
                        path@,
                        opt_str_view(file_name) == Some("registry_manifest.yaml"@),
                        string_views(
                            match m {
                                RegistryManifest::Definition(d) => d.deserialization_warnings@,
                                RegistryManifest::Publication(p) => p.deserialization_warnings@,
                            },
                        ),
                    )
                },
                Err(e) => spec_v2_manifest_error(raw, path@) == Some(e@) && final(nfes)@ == old(nfes)@,
            },
    {
        let manifest = match raw.into_v2_manifest(path) {
            Ok(m) => m,
            Err(e) => {
                return Err(e);
            },
        };
        let is_legacy = match file_name {
            Some(f) => str_eq(f, "registry_manifest.yaml"),
            None => false,
        };
        let ghost start = nfes@;
        if is_legacy {
            nfes.push(Error::LegacyRegistryManifest { path: to_owned_string(path) });
            proof {
                crate::error::lemma_errors_view_push(start, nfes@.last());
            }
        }
        let ghost mid = nfes@;
        let warnings = manifest.deserialization_warnings();
        let ghost wv = string_views(warnings@);
        let ghost f = |w: Seq<char>| load_warning_view(path@, w);
        let prefix = crate::text::str_chars("Missing 'file_format' field");
        let mut i: usize = 0;
        while i < warnings.len()
            invariant
                i <= warnings@.len(),
                wv == string_views(warnings@),
                prefix@ == "Missing 'file_format' field"@,
                f == (|w: Seq<char>| load_warning_view(path@, w)),
                crate::error::errors_view(nfes@) == crate::error::errors_view(mid) + wv.take(
                    i as int,
                ).map_values(f),
            decreases warnings@.len() - i,
        {
            let w = &warnings[i];
            let cs = crate::text::str_chars(w.as_str());
            let e = if crate::text::starts_with_chars(cs.as_slice(), prefix.as_slice()) {
                Error::MissingManifestFileFormat {
                    path: to_owned_string(path),
                    expected_format: to_owned_string("definition_manifest/2.0"),
                }
            } else {
                Error::DeprecatedSyntaxInRegistryManifest { path: to_owned_string(path), error: w.clone() }
            };
            let ghost before = nfes@;
            nfes.push(e);
            proof {
                crate::error::lemma_errors_view_push(before, e);
                assert(wv[i as int] == w@);
                if crate::text::starts_with_seq(wv[i as int], "Missing 'file_format' field"@) {
                    assert(crate::error::error_view(e) == ev(ErrorKind::MissingManifestFileFormat, seq![path@, "definition_manifest/2.0"@]));
                } else {
                    assert(crate::error::error_view(e) == ev(ErrorKind::DeprecatedSyntaxInRegistryManifest, seq![path@, wv[i as int]]));
                }
                assert(crate::error::error_view(e) == load_warning_view(path@, wv[i as int]));
                assert(f(wv[i as int]) == load_warning_view(path@, wv[i as int]));
                assert(wv.take(i + 1).map_values(f) =~= wv.take(i as int).map_values(f).push(
                    f(wv[i as int]),
                ));
                assert(crate::error::errors_view(mid) + wv.take(i + 1).map_values(f) =~= (
                crate::error::errors_view(mid) + wv.take(i as int).map_values(f)).push(
                    crate::error::error_view(e),
                ));
            }
            i = i + 1;
        }
        proof {
            assert(wv.take(wv.len() as int) =~= wv);
            if is_legacy {
                assert(crate::error::errors_view(mid) =~= crate::error::errors_view(start).push(
                    ev(ErrorKind::LegacyRegistryManifest, seq![path@]),
                ));
            } else {
                assert(mid == start);
            }
        }
        Ok(manifest)
    }
}

/// The text of an optional string slice.
pub open spec fn opt_str_view(s: Option<&str>) -> Option<Seq<char>> {
    match s {
        Some(x) => Some(x@),
        None => None,
    }
}

/// The unversioned dependency of `deps` that publication stops at: the
/// first whose schema URL does not pin a version.
pub open spec fn is_first_unversioned(deps: Seq<Dependency>, k: int) -> bool {
    &&& 0 <= k < deps.len()
    &&& !pins_version(deps[k])
    &&& forall|j: int| 0 <= j < k ==> pins_version(#[trigger] deps[j])
}

/// The schema URL of a dependency parses and its version is not `unknown`.
pub open spec fn pins_version(d: Dependency) -> bool {
    url_parse(d.schema_url.url@) is Ok && spec_version_of(url_parse(d.schema_url.url@)->Ok_0.1)
        != "unknown"@
}

impl PublicationRegistryManifest {
    /// The publication manifest of a registry defined by `registry_manifest`,
    /// whose resolved registry will be at `resolved_registry_uri`. Each
    /// dependency keeps only its schema URL, which must pin a version.
    pub fn try_from_registry_manifest(
        registry_manifest: &DefinitionRegistryManifest,
        resolved_registry_uri: String,
    ) -> (r: Result<Self, Error>)
        ensures
            r is Ok <==> forall|j: int|
                0 <= j < registry_manifest.dependencies@.len() ==> pins_version(
                    #[trigger] registry_manifest.dependencies@[j],
                ),
            match r {
                Ok(p) => {
                    &&& forall|j: int|
                        0 <= j < registry_manifest.dependencies@.len() ==> pins_version(
                            #[trigger] registry_manifest.dependencies@[j],
                        )
                    &&& p.file_format@ == "manifest/2.0"@
                    &&& p.schema_url.url@ == registry_manifest.schema_url.url@
                    &&& opt_view(p.description) == opt_view(registry_manifest.description)
                    &&& p.dependencies@.len() == registry_manifest.dependencies@.len()
                    &&& forall|j: int|
                        0 <= j < p.dependencies@.len() ==> (#[trigger] p.dependencies@[j]).schema_url.url@
                            == registry_manifest.dependencies@[j].schema_url.url@
                            && p.dependencies@[j].registry_path is None
                    &&& p.stability == registry_manifest.stability
                    &&& p.resolved_registry_uri == resolved_registry_uri
                    &&& p.deserialization_warnings@.len() == 0
                },
                Err(e) => exists|k: int|
                    is_first_unversioned(registry_manifest.dependencies@, k) && e@ == ev(
                        ErrorKind::UnversionedDependencyInPublication,
                        match registry_manifest.dependencies@[k].registry_path {
                            Some(p) => seq![registry_manifest.dependencies@[k].schema_url.url@, p@],
                            None => seq![registry_manifest.dependencies@[k].schema_url.url@],
                        },
                    ),
            },
    {
        let deps = &registry_manifest.dependencies;
        let mut dependencies: Vec<Dependency> = Vec::new();
        let mut i: usize = 0;
        while i < deps.len()
            invariant
                i <= deps@.len(),
                dependencies@.len() == i,
                deps@ == registry_manifest.dependencies@,
                forall|j: int| 0 <= j < i ==> pins_version(#[trigger] deps@[j]),
                forall|j: int|
                    0 <= j < i ==> (#[trigger] dependencies@[j]).schema_url.url@ == deps@[j].schema_url.url@
                        && dependencies@[j].registry_path is None,
            decreases deps@.len() - i,
        {
            let d = &deps[i];
            if !d.is_versioned() {
                let registry_path = crate::text::clone_opt_string(&d.registry_path);
                let e = Error::UnversionedDependencyInPublication {
                    schema_url: d.schema_url.to_string(),
                    registry_path,
                };
                proof {
                    assert(is_first_unversioned(deps@, i as int));
                    assert(is_first_unversioned(registry_manifest.dependencies@, i as int));
                    assert(e@ == ev(
                        ErrorKind::UnversionedDependencyInPublication,
                        match deps@[i as int].registry_path {
                            Some(p) => seq![deps@[i as int].schema_url.url@, p@],
                            None => seq![deps@[i as int].schema_url.url@],
                        },
                    ));
                    assert(exists|k: int|
                        is_first_unversioned(registry_manifest.dependencies@, k) && e@ == ev(
                            ErrorKind::UnversionedDependencyInPublication,
                            match registry_manifest.dependencies@[k].registry_path {
                                Some(p) => seq![registry_manifest.dependencies@[k].schema_url.url@, p@],
                                None => seq![registry_manifest.dependencies@[k].schema_url.url@],
                            },
                        ));
                }
                return Err(e);
            }
            dependencies.push(Dependency { schema_url: d.schema_url.copy(), registry_path: None });
            i = i + 1;
        }
        Ok(
            PublicationRegistryManifest {
                file_format: to_owned_string("manifest/2.0"),
                schema_url: registry_manifest.schema_url.copy(),
                description: crate::text::clone_opt_string(&registry_manifest.description),
                dependencies,
                stability: registry_manifest.stability,
                resolved_registry_uri,
                deserialization_warnings: Vec::new(),
            },
        )
    }
}

} // verus!
