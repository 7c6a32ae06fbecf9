//! Registry manifests: the fields read from a manifest file before it is
//! validated, the reading of its dependency declarations (shared by the
//! manifests of both versions), and the manifest that a registry gives
//! either as a definition or, with the format `manifest/2.0`, as a
//! publication.

use vstd::prelude::*;
use crate::schema_url::{opt_view, spec_try_from_name_version, spec_validate, SchemaUrl};
use crate::stability::Stability;
use crate::text::{str_eq, string_views, to_owned_string};
use crate::error::{errors_view, ev, Error, ErrorKind, ErrorView};
use crate::v1::manifest::{deprecated_fields_warning, spec_legacy_schema_url, spec_v1_load_warnings};
use crate::v2::manifest::{
    deprecated_resolved_schema_uri_warning, into_dependencies, is_text, opt_is, Dependency,
    PublicationRegistryManifest,
};

verus! {

/// The file name of a legacy registry manifest.
pub const LEGACY_REGISTRY_MANIFEST: &'static str = "registry_manifest.yaml";

/// The file name of a registry manifest.
pub const REGISTRY_MANIFEST: &'static str = "manifest.yaml";

/// A dependency declaration as read from a manifest file, before the
/// library decides how to read it: whether it has a `schema_url` key, its
/// `name` when that is a string, and the outcome of reading it as a full
/// declaration (schema URL text and registry path) and as a named one
/// (name and registry path, nothing else).
pub struct RawDependency {
    /// The declaration has a `schema_url` key.
    pub has_schema_url: bool,
    /// The `name` of the declaration, when it is a string.
    pub name: Option<String>,
    /// The declaration read as a schema URL and an optional registry path.
    pub as_dependency: Result<(String, Option<String>), String>,
    /// The declaration read as a name and a registry path.
    pub as_named: Result<(String, String), String>,
}

/// The fields of a manifest file, all optional, before validation.
pub struct RawManifestFields {
    /// The `file_format` field.
    pub file_format: Option<String>,
    /// The `schema_url` field, as text.
    pub schema_url: Option<String>,
    /// The `description` field.
    pub description: Option<String>,
    /// The deprecated `semconv_version` field.
    pub semconv_version: Option<String>,
    /// The deprecated `schema_base_url` field.
    pub schema_base_url: Option<String>,
    /// The dependency declarations.
    pub dependencies: Vec<RawDependency>,
    /// The `stability` field, or its default.
    pub stability: Stability,
    /// The `resolved_registry_uri` field.
    pub resolved_registry_uri: Option<String>,
    /// The deprecated `resolved_schema_uri` field.
    pub resolved_schema_uri: Option<String>,
}

/// The version given to a dependency declared by name, which carries none.
pub open spec fn unknown_version() -> Seq<char> {
    "unknown"@
}

/// The complaint about a dependency without `schema_url`, naming it when it
/// has a name.
pub open spec fn missing_schema_url_message(name: Option<Seq<char>>) -> Seq<char> {
    let subject = match name {
        Some(n) => "dependency '"@ + n + "'"@,
        None => "a dependency"@,
    };
    subject
        + " is missing the required field 'schema_url'. The schema_url uniquely identifies the dependency registry and its version, e.g. https://example.com/my-registry/1.0.0"@
}

/// A dependency read from a declaration with a `schema_url`: the URL text
/// and the registry path, or the complaint.
pub open spec fn spec_full_dependency(d: RawDependency) -> Result<(Seq<char>, Option<Seq<char>>), Seq<char>> {
    match d.as_dependency {
        Ok((u, rp)) => match spec_validate(u@) {
            Ok(_) => Ok((u@, opt_view(rp))),
            Err(e) => Err(e),
        },
        Err(e) => Err(e@),
    }
}

/// A dependency as a version 2 manifest reads it: `schema_url` is required.
pub open spec fn spec_parse_dependency_strict(d: RawDependency) -> Result<
    (Seq<char>, Option<Seq<char>>),
    Seq<char>,
> {
    if d.has_schema_url {
        spec_full_dependency(d)
    } else {
        Err(missing_schema_url_message(opt_view(d.name)))
    }
}

/// A dependency as a version 1 manifest reads it: by `schema_url`, or by
/// `name` and `registry_path`, which give an unversioned schema URL.
pub open spec fn spec_parse_dependency_lenient(d: RawDependency) -> Result<
    (Seq<char>, Option<Seq<char>>),
    Seq<char>,
> {
    if d.has_schema_url {
        spec_full_dependency(d)
    } else if d.name is Some {
        match d.as_named {
            Ok((n, rp)) => match spec_try_from_name_version(n@, unknown_version()) {
                Ok(u) => Ok((u, Some(rp@))),
                Err(e) => Err(e),
            },
            Err(e) => Err(e@),
        }
    } else {
        Err(missing_schema_url_message(None))
    }
}

/// How a manifest reads its dependency declarations.
pub open spec fn spec_parse_dependency(strict: bool, d: RawDependency) -> Result<
    (Seq<char>, Option<Seq<char>>),
    Seq<char>,
> {
    if strict {
        spec_parse_dependency_strict(d)
    } else {
        spec_parse_dependency_lenient(d)
    }
}

/// Position `k` holds the first declaration that cannot be read.
pub open spec fn is_first_bad_dependency(strict: bool, s: Seq<RawDependency>, k: int) -> bool {
    &&& 0 <= k < s.len()
    &&& spec_parse_dependency(strict, s[k]) is Err
    &&& forall|j: int| 0 <= j < k ==> spec_parse_dependency(strict, #[trigger] s[j]) is Ok
}

/// The complaint about the first declaration that cannot be read, if any.
pub open spec fn first_dependency_error(strict: bool, s: Seq<RawDependency>) -> Option<Seq<char>> {
    if exists|k: int| is_first_bad_dependency(strict, s, k) {
        let k = choose|k: int| is_first_bad_dependency(strict, s, k);
        Some(spec_parse_dependency(strict, s[k])->Err_0)
    } else {
        None
    }
}

/// The schema URL text and registry path read from a declaration.
pub open spec fn parsed_dependency(strict: bool, d: RawDependency) -> (Seq<char>, Option<Seq<char>>) {
    spec_parse_dependency(strict, d)->Ok_0
}

/// Reads a declaration with a `schema_url`.
fn full_dependency(d: RawDependency) -> (r: Result<(SchemaUrl, Option<String>), String>)
    ensures
        match r {
            Ok((u, rp)) => spec_full_dependency(d) == Ok::<_, Seq<char>>((u.url@, opt_view(rp))),
            Err(e) => spec_full_dependency(d) == Err::<(Seq<char>, Option<Seq<char>>), _>(e@),
        },
{
    match d.as_dependency {
        Ok((u, rp)) => match SchemaUrl::try_from_string(u) {
            Ok(url) => Ok((url, rp)),
            Err(e) => Err(e),
        },
        Err(e) => Err(e),
    }
}

/// The complaint about a dependency without `schema_url`.
fn missing_schema_url(name: Option<String>) -> (r: String)
    ensures
        r@ == missing_schema_url_message(opt_view(name)),
{
    let mut m = match name {
        Some(n) => {
            let mut s = to_owned_string("dependency '");
            s.append(n.as_str());
            s.append("'");
            s
        },
        None => to_owned_string("a dependency"),
    };
    m.append(
        " is missing the required field 'schema_url'. The schema_url uniquely identifies the dependency registry and its version, e.g. https://example.com/my-registry/1.0.0",
    );
    m
}

/// Reads a dependency declaration; `strict` (version 2) requires a
/// `schema_url`, otherwise (version 1) a `name` and `registry_path` give an
/// unversioned schema URL.
pub fn parse_dependency(strict: bool, d: RawDependency) -> (r: Result<(SchemaUrl, Option<String>), String>)
    ensures
        match r {
            Ok((u, rp)) => spec_parse_dependency(strict, d) == Ok::<_, Seq<char>>((u.url@, opt_view(rp))),
            Err(e) => spec_parse_dependency(strict, d) == Err::<(Seq<char>, Option<Seq<char>>), _>(e@),
        },
{
    if d.has_schema_url {
        full_dependency(d)
    } else if strict {
        Err(missing_schema_url(d.name))
    } else if d.name.is_some() {
        match d.as_named {
            Ok((n, rp)) => match SchemaUrl::try_from_name_version(n.as_str(), "unknown") {
                Ok(u) => Ok((u, Some(rp))),
                Err(e) => Err(e),
            },
            Err(e) => Err(e),
        }
    } else {
        Err(missing_schema_url(None))
    }
}

/// Reads every dependency declaration, in order, stopping at the first
/// that cannot be read.
pub fn parse_dependencies(strict: bool, ds: Vec<RawDependency>) -> (r: Result<
    Vec<(SchemaUrl, Option<String>)>,
    String,
>)
    ensures
        match r {
            Ok(v) => first_dependency_error(strict, ds@) is None && v@.len() == ds@.len() && forall|
                i: int,
            |
                0 <= i < ds@.len() ==> (#[trigger] v@[i]).0.url@ == parsed_dependency(strict, ds@[i]).0
                    && opt_view(v@[i].1) == parsed_dependency(strict, ds@[i]).1,
            Err(e) => first_dependency_error(strict, ds@) == Some(e@),
        },
{
    let ghost all = ds@;
    assert(all.len() == ds.len());
    let mut out: Vec<(SchemaUrl, Option<String>)> = Vec::new();
    let mut rest = crate::vec_util::into_reversed(ds);
    let mut i: usize = 0;
    proof {
        assert(all.subrange(0, all.len() as int) =~= all);
    }
    while rest.len() > 0
        invariant
            i + rest@.len() == all.len(),
            all.len() <= usize::MAX,
            all == ds@,
            rest@ == all.subrange(i as int, all.len() as int).reverse(),
            out@.len() == i,
            forall|j: int| 0 <= j < i ==> spec_parse_dependency(strict, #[trigger] all[j]) is Ok,
            forall|j: int|
                0 <= j < i ==> (#[trigger] out@[j]).0.url@ == parsed_dependency(strict, all[j]).0
                    && opt_view(out@[j].1) == parsed_dependency(strict, all[j]).1,
        decreases rest.len(),
    {
        proof {
            crate::vec_util::lemma_reversed_suffix_pop(all, i as int);
        }
        let d = rest.pop().unwrap();
        match parse_dependency(strict, d) {
            Ok(p) => {
                out.push(p);
                i = i + 1;
            },
            Err(e) => {
                proof {
                    assert(is_first_bad_dependency(strict, all, i as int));
                    let k = choose|k: int| is_first_bad_dependency(strict, all, k);
                    if k < i {
                        assert(spec_parse_dependency(strict, all[k]) is Ok);
                    }
                    if k > i {
                        assert(spec_parse_dependency(strict, all[i as int]) is Ok);
                    }
                    assert(k == i);
                    assert(d == all[i as int]);
                    assert(first_dependency_error(strict, all) == Some(e@));
                }
                return Err(e);
            },
        }
    }
    proof {
        assert(!exists|k: int| is_first_bad_dependency(strict, all, k));
    }
    Ok(out)
}

/// The definition manifest of a registry under development.
pub struct DefinitionRegistryManifest {
    /// The schema URL, which identifies the registry and its version.
    pub schema_url: SchemaUrl,
    /// A description of the registry, in markdown.
    pub description: Option<String>,
    /// The registries this one depends on.
    pub dependencies: Vec<Dependency>,
    /// The stability of the registry.
    pub stability: Stability,
    /// Warnings about deprecated syntax found while reading the manifest.
    pub deserialization_warnings: Vec<String>,
}

/// A registry manifest, told apart by its `file_format`: `manifest/2.0`
/// for a publication manifest, none for a definition manifest.
pub enum RegistryManifest {
    /// A definition manifest.
    Definition(DefinitionRegistryManifest),
    /// A publication manifest.
    Publication(PublicationRegistryManifest),
}

/// The dependencies `deps` are those read, strictly or not, from the
/// declarations `raw`.
pub open spec fn dependencies_read_as(
    strict: bool,
    raw: Seq<RawDependency>,
    deps: Seq<Dependency>,
) -> bool {
    &&& deps.len() == raw.len()
    &&& forall|i: int|
        0 <= i < raw.len() ==> (#[trigger] deps[i]).schema_url.url@ == parsed_dependency(
            strict,
            raw[i],
        ).0 && opt_view(deps[i].registry_path) == parsed_dependency(strict, raw[i]).1
}

/// The complaint about a `file_format` that is neither the publication
/// format nor absent.
pub open spec fn unknown_file_format_message(f: Seq<char>) -> Seq<char> {
    "Unknown file_format '"@ + f
        + "'. Expected 'manifest/2.0' or no file_format for a definition manifest."@
}

/// The error, if any, that reading the fields `raw` of a manifest at `path`
/// gives. An invalid schema URL is refused first (it is checked while the
/// file is read). With the format `manifest/2.0` a publication manifest is
/// read: it needs a schema URL, dependencies declared by schema URL and a
/// resolved registry URI (or its deprecated alias). Any other format is
/// refused. Without a format a definition manifest is read: its schema URL
/// is the one given or, failing that, the one that the deprecated base URL
/// and version give; its dependencies are read strictly when a schema URL
/// is given, and may also be declared by name otherwise.
pub open spec fn spec_manifest_error(raw: RawManifestFields, path: Seq<char>) -> Option<ErrorView> {
    let invalid = |m: Seq<char>| ev(ErrorKind::InvalidRegistryManifest, seq![path, m]);
    let invalid_pub = |m: Seq<char>| ev(ErrorKind::InvalidPublicationManifest, seq![path, m]);
    if raw.schema_url is Some && spec_validate(raw.schema_url->0@) is Err {
        Some(invalid(spec_validate(raw.schema_url->0@)->Err_0))
    } else if is_text(raw.file_format, "manifest/2.0"@) {
        if raw.schema_url is None {
            Some(invalid_pub("missing required field 'schema_url'"@))
        } else if first_dependency_error(true, raw.dependencies@) is Some {
            Some(invalid_pub(first_dependency_error(true, raw.dependencies@)->0))
        } else if raw.resolved_registry_uri is None && raw.resolved_schema_uri is None {
            Some(invalid_pub("missing required field 'resolved_registry_uri'"@))
        } else {
            None
        }
    } else if raw.file_format is Some {
        Some(invalid(unknown_file_format_message(raw.file_format->0@)))
    } else if raw.schema_url is None && spec_legacy_schema_url(raw) is Err {
        Some(invalid(spec_legacy_schema_url(raw)->Err_0))
    } else if first_dependency_error(raw.schema_url is Some, raw.dependencies@) is Some {
        Some(invalid(first_dependency_error(raw.schema_url is Some, raw.dependencies@)->0))
    } else {
        None
    }
}

/// The manifest `m` is what the fields `raw` give when they are valid.
pub open spec fn spec_manifest_of(raw: RawManifestFields, m: RegistryManifest) -> bool {
    match m {
        RegistryManifest::Publication(p) => {
            &&& is_text(raw.file_format, "manifest/2.0"@)
            &&& p.file_format@ == "manifest/2.0"@
            &&& raw.schema_url matches Some(u) && p.schema_url.url@ == u@
            &&& p.description == raw.description
            &&& dependencies_read_as(true, raw.dependencies@, p.dependencies@)
            &&& p.stability == raw.stability
            &&& match raw.resolved_registry_uri {
                Some(v) => p.resolved_registry_uri == v && p.deserialization_warnings@.len() == 0,
                None => raw.resolved_schema_uri == Some(p.resolved_registry_uri) && string_views(
                    p.deserialization_warnings@,
                ) == seq![deprecated_resolved_schema_uri_warning()],
            }
        },
        RegistryManifest::Definition(d) => {
            &&& raw.file_format is None
            &&& d.schema_url.url@ == match raw.schema_url {
                Some(u) => u@,
                None => spec_legacy_schema_url(raw)->Ok_0,
            }
            &&& d.description == raw.description
            &&& dependencies_read_as(raw.schema_url is Some, raw.dependencies@, d.dependencies@)
            &&& d.stability == raw.stability
            &&& string_views(d.deserialization_warnings@) == if raw.schema_url is None {
                seq![deprecated_fields_warning()]
            } else {
                Seq::empty()
            }
        },
    }
}

/// An error about the manifest at `path`.
fn invalid_manifest(path: &str, error: String) -> (r: Error)
    ensures
        r@ == ev(ErrorKind::InvalidRegistryManifest, seq![path@, error@]),
{
    Error::InvalidRegistryManifest { path: to_owned_string(path), error }
}

/// An error about the publication manifest at `path`.
fn invalid_publication(path: &str, details: String) -> (r: Error)
    ensures
        r@ == ev(ErrorKind::InvalidPublicationManifest, seq![path@, details@]),
{
    Error::InvalidPublicationManifest { path: to_owned_string(path), details }
}

impl RawManifestFields {
    /// Validates the fields of a manifest read from `path` and builds it: a
    /// publication manifest for the format `manifest/2.0`, a definition
    /// manifest when no format is given.
    pub fn into_manifest(self, path: &str) -> (r: Result<RegistryManifest, Error>)
        ensures
            match r {
                Ok(m) => spec_manifest_error(self, path@) is None && spec_manifest_of(self, m),
                Err(e) => spec_manifest_error(self, path@) == Some(e@),
            },
    {
        let ghost raw = self;
        let checked_url = match self.schema_url {
            Some(u) => match SchemaUrl::try_from_string(u) {
                Ok(url) => Some(url),
                Err(e) => {
                    return Err(invalid_manifest(path, e));
                },
            },
            None => None,
        };
        if opt_is(&self.file_format, "manifest/2.0") {
            let schema_url = match checked_url {
                Some(u) => u,
                None => {
                    return Err(
                        invalid_publication(path, to_owned_string("missing required field 'schema_url'")),
                    );
                },
            };
            let parsed = match parse_dependencies(true, self.dependencies) {
                Ok(p) => p,
                Err(details) => {
                    return Err(invalid_publication(path, details));
                },
            };
            let dependencies = into_dependencies(parsed);
            let mut warnings: Vec<String> = Vec::new();
            let resolved_registry_uri = match self.resolved_registry_uri {
                Some(v) => v,
                None => match self.resolved_schema_uri {
                    Some(v) => {
                        warnings.push(
                            to_owned_string(
                                "The 'resolved_schema_uri' field is deprecated in favor of 'resolved_registry_uri'.",
                            ),
                        );
                        v
                    },
                    None => {
                        return Err(
                            invalid_publication(
                                path,
                                to_owned_string("missing required field 'resolved_registry_uri'"),
                            ),
                        );
                    },
                },
            };
            proof {
                assert(string_views(warnings@) =~= if raw.resolved_registry_uri is None {
                    seq![deprecated_resolved_schema_uri_warning()]
                } else {
                    Seq::empty()
                });
            }
            return Ok(
                RegistryManifest::Publication(
                    PublicationRegistryManifest {
                        file_format: to_owned_string("manifest/2.0"),
                        schema_url,
                        description: self.description,
                        dependencies,
                        stability: self.stability,
                        resolved_registry_uri,
                        deserialization_warnings: warnings,
                    },
                ),
            );
        }
        if let Some(fmt) = self.file_format {
            let mut error = to_owned_string("Unknown file_format '");
            error.append(fmt.as_str());
            error.append("'. Expected 'manifest/2.0' or no file_format for a definition manifest.");
            return Err(invalid_manifest(path, error));
        }
        let strict = checked_url.is_some();
        let mut warnings: Vec<String> = Vec::new();
        let schema_url = match checked_url {
            Some(url) => url,
            None => {
                let base_url = match &self.schema_base_url {
                    Some(b) => b,
                    None => {
                        return Err(
                            invalid_manifest(
                                path,
                                to_owned_string(
                                    "Either 'schema_url' or both 'schema_base_url' and 'semconv_version' must be provided",
                                ),
                            ),
                        );
                    },
                };
                let version = match &self.semconv_version {
                    Some(v) => v,
                    None => {
                        return Err(
                            invalid_manifest(
                                path,
                                to_owned_string(
                                    "Either 'schema_url' or both 'schema_base_url' and 'semconv_version' must be provided",
                                ),
                            ),
                        );
                    },
                };
                warnings.push(
                    to_owned_string(
                        "The 'semconv_version' and 'schema_base_url' fields are deprecated in favor of 'schema_url'.",
                    ),
                );
                match SchemaUrl::try_from_name_version(base_url.as_str(), version.as_str()) {
                    Ok(u) => u,
                    Err(error) => {
                        return Err(invalid_manifest(path, error));
                    },
                }
            },
        };
        let parsed = match parse_dependencies(strict, self.dependencies) {
            Ok(p) => p,
            Err(error) => {
                return Err(invalid_manifest(path, error));
            },
        };
        let dependencies = into_dependencies(parsed);
        proof {
            assert(string_views(warnings@) =~= if raw.schema_url is None {
                seq![deprecated_fields_warning()]
            } else {
                Seq::empty()
            });
        }
        Ok(
            RegistryManifest::Definition(
                DefinitionRegistryManifest {
                    schema_url,
                    description: self.description,
                    dependencies,
                    stability: self.stability,
                    deserialization_warnings: warnings,
                },
            ),
        )
    }
}

/// Reports the reading of a manifest at `path`: a legacy file name, then
/// each warning gathered, as deprecated syntax.
pub(crate) fn report_load_warnings(
    path: &str,
    is_legacy: bool,
    warnings: &Vec<String>,
    nfes: &mut Vec<Error>,
)
    ensures
        errors_view(final(nfes)@) == errors_view(old(nfes)@) + spec_v1_load_warnings(
            path@,
            is_legacy,
            string_views(warnings@),
        ),
{
    let ghost start = nfes@;
    if is_legacy {
        nfes.push(Error::LegacyRegistryManifest { path: to_owned_string(path) });
        proof {
            crate::error::lemma_errors_view_push(start, nfes@.last());
        }
    }
    let ghost mid = nfes@;
    let ghost wv = string_views(warnings@);
    let ghost f = |w: Seq<char>| ev(ErrorKind::DeprecatedSyntaxInRegistryManifest, seq![path@, w]);
    let mut i: usize = 0;
    while i < warnings.len()
        invariant
            i <= warnings@.len(),
            wv == string_views(warnings@),
            f == (|w: Seq<char>| ev(ErrorKind::DeprecatedSyntaxInRegistryManifest, seq![path@, w])),
            errors_view(nfes@) == errors_view(mid) + wv.take(i as int).map_values(f),
        decreases warnings@.len() - i,
    {
        let e = Error::DeprecatedSyntaxInRegistryManifest {
            path: to_owned_string(path),
            error: warnings[i].clone(),
        };
        let ghost before = nfes@;
        nfes.push(e);
        proof {
            crate::error::lemma_errors_view_push(before, e);
            assert(crate::error::error_view(e) == f(wv[i as int]));
            assert(wv.take(i + 1).map_values(f) =~= wv.take(i as int).map_values(f).push(
                f(wv[i as int]),
            ));
            assert(errors_view(mid) + wv.take(i + 1).map_values(f) =~= (errors_view(mid)
                + wv.take(i as int).map_values(f)).push(crate::error::error_view(e)));
        }
        i = i + 1;
    }
    proof {
        assert(wv.take(wv.len() as int) =~= wv);
        if is_legacy {
            assert(errors_view(mid) =~= errors_view(start).push(
                ev(ErrorKind::LegacyRegistryManifest, seq![path@]),
            ));
        } else {
            assert(mid == start);
        }
    }
}

impl RegistryManifest {
    /// The schema URL of the registry.
    pub fn schema_url(&self) -> (r: &SchemaUrl)
        ensures
            r == match self {
                RegistryManifest::Definition(m) => &m.schema_url,
                RegistryManifest::Publication(m) => &m.schema_url,
            },
    {
        match self {
            RegistryManifest::Definition(m) => &m.schema_url,
            RegistryManifest::Publication(m) => &m.schema_url,
        }
    }

    /// The dependencies of the registry.
    pub fn dependencies(&self) -> (r: &[Dependency])
        ensures
            r@ == match self {
                RegistryManifest::Definition(m) => m.dependencies@,
                RegistryManifest::Publication(m) => m.dependencies@,
            },
    {
        match self {
            RegistryManifest::Definition(m) => m.dependencies.as_slice(),
            RegistryManifest::Publication(m) => m.dependencies.as_slice(),
        }
    }

    /// Builds a manifest from the fields read from the file at `path`, whose
    /// file name is `file_name`, and reports in `nfes` a legacy file name and
    /// each warning gathered, as deprecated syntax.
    pub fn try_from_raw(
        raw: RawManifestFields,
        path: &str,
        file_name: Option<&str>,
        nfes: &mut Vec<Error>,
    ) -> (r: Result<Self, Error>)
        ensures
            match r {
                Ok(m) => {
                    &&& spec_manifest_error(raw, path@) is None
                    &&& spec_manifest_of(raw, m)
                    &&& errors_view(final(nfes)@) == errors_view(old(nfes)@) + spec_v1_load_warnings(
                        path@,
                        crate::v2::manifest::opt_str_view(file_name) == Some("registry_manifest.yaml"@),
                        string_views(
                            match m {
                                RegistryManifest::Definition(d) => d.deserialization_warnings@,
                                RegistryManifest::Publication(p) => p.deserialization_warnings@,
                            },
                        ),
                    )
                },
                Err(e) => spec_manifest_error(raw, path@) == Some(e@) && final(nfes)@ == old(nfes)@,
            },
    {
        let manifest = match raw.into_manifest(path) {
            Ok(m) => m,
            Err(e) => {
                return Err(e);
            },
        };
        let is_legacy = match file_name {
            Some(f) => str_eq(f, "registry_manifest.yaml"),
            None => false,
        };
        let warnings = match &manifest {
            RegistryManifest::Definition(d) => &d.deserialization_warnings,
            RegistryManifest::Publication(p) => &p.deserialization_warnings,
        };
        report_load_warnings(path, is_legacy, warnings, nfes);
        Ok(manifest)
    }
}

} // verus!
