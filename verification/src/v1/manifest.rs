//! The version 1 registry manifest: the definition manifest of a registry.

use vstd::prelude::*;
use crate::error::{errors_view, ev, Error, ErrorKind, ErrorView};
use crate::manifest::{
    first_dependency_error, parse_dependencies, parsed_dependency, RawDependency,
    RawManifestFields,
};
use crate::schema_url::{
    opt_view, spec_name_of, spec_try_from_name_version, spec_validate, spec_version_of, url_parse,
    SchemaUrl,
};
use crate::stability::Stability;
use crate::text::{str_eq, string_views, to_owned_string};

verus! {

/// The definition manifest of a registry.
pub struct DefinitionRegistryManifest {
    /// The schema URL, which identifies the registry and its version.
    pub schema_url: SchemaUrl,
    /// A description of the registry.
    pub description: Option<String>,
    /// The registries this one depends on.
    pub dependencies: Vec<Dependency>,
    /// The stability of the registry.
    pub stability: Stability,
    /// Warnings about deprecated syntax found while reading the manifest.
    pub deserialization_warnings: Vec<String>,
}

/// The registry name of a schema URL, when the URL parses.
pub open spec fn spec_checked_name(u: SchemaUrl) -> Option<Seq<char>> {
    match url_parse(u.url@) {
        Ok(p) => Some(spec_name_of(p.1, p.2, p.3)),
        Err(_) => None,
    }
}

/// The registry version of a schema URL, when the URL parses.
pub open spec fn spec_checked_version(u: SchemaUrl) -> Option<Seq<char>> {
    match url_parse(u.url@) {
        Ok(p) => Some(spec_version_of(p.1)),
        Err(_) => None,
    }
}

impl DefinitionRegistryManifest {
    /// The registry name derived from the schema URL, when the URL parses.
    pub fn name(&self) -> (r: Option<String>)
        ensures
            opt_view(r) == spec_checked_name(self.schema_url),
    {
        self.schema_url.checked_name()
    }

    /// The registry version derived from the schema URL, when the URL parses.
    pub fn version(&self) -> (r: Option<String>)
        ensures
            opt_view(r) == spec_checked_version(self.schema_url),
    {
        self.schema_url.checked_version()
    }

    /// A definition manifest with only a schema URL: no description, no
    /// dependency, development stability.
    pub fn from_schema_url(schema_url: SchemaUrl) -> (r: Self)
        ensures
            r.schema_url == schema_url,
            r.description is None,
            r.dependencies@.len() == 0,
            r.stability == Stability::Development,
            r.deserialization_warnings@.len() == 0,
    {
        DefinitionRegistryManifest {
            schema_url,
            description: None,
            dependencies: Vec::new(),
            stability: Stability::Development,
            deserialization_warnings: Vec::new(),
        }
    }
}

/// A dependency of a registry.
pub struct Dependency {
    /// The schema URL of the dependency.
    pub schema_url: SchemaUrl,
    /// Where the dependency can be found, when given.
    pub registry_path: Option<String>,
}

impl Dependency {
    /// Whether the declaration pins a version: its schema URL parses and its
    /// version is not the placeholder `unknown` that a declaration by name
    /// gets.
    pub fn is_versioned(&self) -> (r: bool)
        ensures
            r == (url_parse(self.schema_url.url@) is Ok && spec_version_of(
                url_parse(self.schema_url.url@)->Ok_0.1,
            ) != "unknown"@),
    {
        self.schema_url.has_known_version()
    }
}

/// A version 1 registry manifest.
pub enum RegistryManifest {
    /// A definition manifest.
    Definition(DefinitionRegistryManifest),
}

/// The dependencies `deps` are those read from the declarations `raw`.
pub open spec fn dependencies_read(raw: Seq<RawDependency>, deps: Seq<Dependency>) -> bool {
    &&& deps.len() == raw.len()
    &&& forall|i: int|
        0 <= i < raw.len() ==> (#[trigger] deps[i]).schema_url.url@ == parsed_dependency(false, raw[i]).0
            && opt_view(deps[i].registry_path) == parsed_dependency(false, raw[i]).1
}

/// The complaint when neither a schema URL nor its deprecated parts are
/// given.
pub open spec fn missing_schema_url_fields() -> Seq<char> {
    "Either 'schema_url' or both 'schema_base_url' and 'semconv_version' must be provided"@
}

/// The warning about the deprecated `semconv_version` and `schema_base_url`.
pub open spec fn deprecated_fields_warning() -> Seq<char> {
    "The 'semconv_version' and 'schema_base_url' fields are deprecated in favor of 'schema_url'."@
}

/// The schema URL that the deprecated fields give.
pub open spec fn spec_legacy_schema_url(raw: RawManifestFields) -> Result<Seq<char>, Seq<char>> {
    match raw.schema_base_url {
        None => Err(missing_schema_url_fields()),
        Some(base) => match raw.semconv_version {
            None => Err(missing_schema_url_fields()),
            Some(version) => spec_try_from_name_version(base@, version@),
        },
    }
}

/// The error, if any, that reading the fields of a version 1 manifest at
/// `path` gives: an invalid schema URL (checked while the file is read), any
/// `file_format`, a schema URL that the deprecated fields cannot give, or an
/// unreadable dependency.
pub open spec fn spec_v1_manifest_error(raw: RawManifestFields, path: Seq<char>) -> Option<ErrorView> {
    let invalid = |m: Seq<char>| ev(ErrorKind::InvalidRegistryManifest, seq![path, m]);
    if raw.schema_url is Some && spec_validate(raw.schema_url->0@) is Err {
        Some(invalid(spec_validate(raw.schema_url->0@)->Err_0))
    } else if raw.file_format is Some {
        Some(
            invalid(
                "Unknown file_format '"@ + raw.file_format->0@
                    + "'. Expected no file_format for a definition manifest."@,
            ),
        )
    } else if raw.schema_url is None && spec_legacy_schema_url(raw) is Err {
        Some(invalid(spec_legacy_schema_url(raw)->Err_0))
    } else if first_dependency_error(false, raw.dependencies@) is Some {
        Some(invalid(first_dependency_error(false, raw.dependencies@)->0))
    } else {
        None
    }
}

/// The manifest `m` is what the fields `raw` give when they are valid.
pub open spec fn spec_v1_manifest_of(raw: RawManifestFields, m: RegistryManifest) -> bool {
    match m {
        RegistryManifest::Definition(d) => {
            &&& d.schema_url.url@ == match raw.schema_url {
                Some(u) => u@,
                None => spec_legacy_schema_url(raw)->Ok_0,
            }
            &&& d.description == raw.description
            &&& dependencies_read(raw.dependencies@, d.dependencies@)
            &&& d.stability == raw.stability
            &&& string_views(d.deserialization_warnings@) == if raw.schema_url is None {
                seq![deprecated_fields_warning()]
            } else {
                Seq::empty()
            }
        },
    }
}

/// One dependency from its schema URL and registry path.
fn make_dependency(p: (SchemaUrl, Option<String>)) -> (r: Dependency)
    ensures
        r.schema_url == p.0 && r.registry_path == p.1,
{
    Dependency { schema_url: p.0, registry_path: p.1 }
}

impl RawManifestFields {
    /// Validates the fields of a version 1 manifest read from `path` and
    /// builds the manifest.
    pub fn into_v1_manifest(self, path: &str) -> (r: Result<RegistryManifest, Error>)
        ensures
            match r {
                Ok(m) => spec_v1_manifest_error(self, path@) is None && spec_v1_manifest_of(self, m),
                Err(e) => spec_v1_manifest_error(self, path@) == Some(e@),
            },
    {
        let ghost raw = self;
        let checked_url = match self.schema_url {
            Some(u) => match SchemaUrl::try_from_string(u) {
                Ok(url) => Some(url),
                Err(e) => {
                    return Err(Error::InvalidRegistryManifest { path: to_owned_string(path), error: e });
                },
            },
            None => None,
        };
        let mut warnings: Vec<String> = Vec::new();
        if let Some(fmt) = self.file_format {
            let mut error = to_owned_string("Unknown file_format '");
            error.append(fmt.as_str());
            error.append("'. Expected no file_format for a definition manifest.");
            return Err(Error::InvalidRegistryManifest { path: to_owned_string(path), error });
        }
        let schema_url = match checked_url {
            Some(url) => url,
            None => {
                let base_url = match &self.schema_base_url {
                    Some(b) => b,
                    None => {
                        return Err(
                            Error::InvalidRegistryManifest {
                                path: to_owned_string(path),
                                error: to_owned_string(
                                    "Either 'schema_url' or both 'schema_base_url' and 'semconv_version' must be provided",
                                ),
                            },
                        );
                    },
                };
                let version = match &self.semconv_version {
                    Some(v) => v,
                    None => {
                        return Err(
                            Error::InvalidRegistryManifest {
                                path: to_owned_string(path),
                                error: to_owned_string(
                                    "Either 'schema_url' or both 'schema_base_url' and 'semconv_version' must be provided",
                                ),
                            },
                        );
                    },
                };
                warnings.push(
                    to_owned_string(
                        "The 'semconv_version' and 'schema_base_url' fields are deprecated in favor of 'schema_url'.",
                    ),
                );
                match SchemaUrl::try_from_name_version(base_url.as_str(), version.as_str()) {
                    Ok(u) => u,
                    Err(error) => {
                        return Err(Error::InvalidRegistryManifest { path: to_owned_string(path), error });
                    },
                }
            },
        };
        let parsed = match parse_dependencies(false, self.dependencies) {
            Ok(p) => p,
            Err(error) => {
                return Err(Error::InvalidRegistryManifest { path: to_owned_string(path), error });
            },
        };
        let dependencies = crate::vec_util::map_vec(parsed, make_dependency);
        proof {
            assert(string_views(warnings@) =~= if raw.schema_url is None {
                seq![deprecated_fields_warning()]
            } else {
                Seq::empty()
            });
        }
        Ok(
            RegistryManifest::Definition(
                DefinitionRegistryManifest {
                    schema_url,
                    description: self.description,
                    dependencies,
                    stability: self.stability,
                    deserialization_warnings: warnings,
                },
            ),
        )
    }
}

/// The non-fatal errors that reading a version 1 manifest at `path`
/// reports: one for a legacy file name, then one per warning.
pub open spec fn spec_v1_load_warnings(
    path: Seq<char>,
    legacy: bool,
    warnings: Seq<Seq<char>>,
) -> Seq<ErrorView> {
    (if legacy {
        seq![ev(ErrorKind::LegacyRegistryManifest, seq![path])]
    } else {
        Seq::empty()
    }) + warnings.map_values(
        |w: Seq<char>| ev(ErrorKind::DeprecatedSyntaxInRegistryManifest, seq![path, w]),
    )
}

impl RegistryManifest {
    /// The schema URL of the registry.
    pub fn schema_url(&self) -> (r: &SchemaUrl)
        ensures
            r == match self {
                RegistryManifest::Definition(m) => &m.schema_url,
            },
    {
        match self {
            RegistryManifest::Definition(m) => &m.schema_url,
        }
    }

    /// The registry name derived from the schema URL, when the URL parses.
    pub fn name(&self) -> (r: Option<String>)
        ensures
            opt_view(r) == spec_checked_name(match self {
                RegistryManifest::Definition(m) => m.schema_url,
            }),
    {
        self.schema_url().checked_name()
    }

    /// The registry version derived from the schema URL, when the URL parses.
    pub fn version(&self) -> (r: Option<String>)
        ensures
            opt_view(r) == spec_checked_version(match self {
                RegistryManifest::Definition(m) => m.schema_url,
            }),
    {
        self.schema_url().checked_version()
    }

    /// The dependencies of the registry.
    pub fn dependencies(&self) -> (r: &[Dependency])
        ensures
            r@ == match self {
                RegistryManifest::Definition(m) => m.dependencies@,
            },
    {
        match self {
            RegistryManifest::Definition(m) => m.dependencies.as_slice(),
        }
    }

    /// The description of the registry, if any.
    pub fn description(&self) -> (r: Option<&str>)
        ensures
            crate::v2::manifest::opt_str_view(r) == opt_view(
                match self {
                    RegistryManifest::Definition(m) => m.description,
                },
            ),
    {
        match self {
            RegistryManifest::Definition(m) => match &m.description {
                Some(s) => Some(s.as_str()),
                None => None,
            },
        }
    }

    /// Builds a manifest from the fields read from the file at `path`, whose
    /// file name is `file_name`, and reports in `nfes` a legacy file name and
    /// the deprecated syntax found.
    pub fn try_from_raw(
        raw: RawManifestFields,
        path: &str,
        file_name: Option<&str>,
        nfes: &mut Vec<Error>,
    ) -> (r: Result<Self, Error>)
        ensures
            match r {
                Ok(m) => {
                    &&& spec_v1_manifest_error(raw, path@) is None
                    &&& spec_v1_manifest_of(raw, m)
                    &&& errors_view(final(nfes)@) == errors_view(old(nfes)@) + spec_v1_load_warnings(
                        path@,
                        crate::v2::manifest::opt_str_view(file_name) == Some("registry_manifest.yaml"@),
                        string_views(
                            match m {
                                RegistryManifest::Definition(d) => d.deserialization_warnings@,
                            },
                        ),
                    )
                },
                Err(e) => spec_v1_manifest_error(raw, path@) == Some(e@) && final(nfes)@ == old(nfes)@,
            },
    {
        let manifest = match raw.into_v1_manifest(path) {
            Ok(m) => m,
            Err(e) => {
                return Err(e);
            },
        };
        let is_legacy = match file_name {
            Some(f) => str_eq(f, "registry_manifest.yaml"),
            None => false,
        };
        let warnings = match &manifest {
            RegistryManifest::Definition(d) => &d.deserialization_warnings,
        };
        crate::manifest::report_load_warnings(path, is_legacy, warnings, nfes);
        Ok(manifest)
    }
}

} // verus!
