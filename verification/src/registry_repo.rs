//! Locating the files of a registry: which files hold semantic conventions,
//! where the manifest is, and the manifest of either version.

use vstd::prelude::*;
use crate::path_text::{extension_of, file_extension, file_name_of, join, join_path, path_file_name};
use crate::schema_url::{opt_view, SchemaUrl};
use crate::text::{clone_opt_string, str_eq, string_views, to_owned_string};
use crate::v1::manifest::{
    DefinitionRegistryManifest as V1DefinitionRegistryManifest, Dependency as V1Dependency,
    RegistryManifest as V1RegistryManifest,
};
use crate::v2::manifest::{
    opt_str_view, DefinitionRegistryManifest as V2DefinitionRegistryManifest,
    Dependency as V2Dependency, RegistryManifest as V2RegistryManifest,
};

verus! {

/// Whether an optional text is one of the given ones.
pub open spec fn is_one_of(s: Option<Seq<char>>, a: Seq<char>, b: Seq<char>) -> bool {
    s == Some(a) || s == Some(b)
}

/// A semantic convention file is a regular file with a `yaml` or `yml`
/// extension that is neither a manifest (`manifest.yaml`,
/// `registry_manifest.yaml`) nor a resolved schema (`schema-next.yaml`).
pub open spec fn spec_is_semantic_convention_file(path: Seq<char>, is_file: bool) -> bool {
    let name = path_file_name(path);
    let ext = match name {
        Some(n) => file_extension(n),
        None => None,
    };
    &&& is_file
    &&& is_one_of(ext, "yaml"@, "yml"@)
    &&& name != Some("schema-next.yaml"@)
    &&& !is_one_of(name, "manifest.yaml"@, "registry_manifest.yaml"@)
}

/// Whether the file at `path`, which `is_file` tells to be a regular file or
/// not, holds semantic conventions.
pub fn is_semantic_convention_file(path: &str, is_file: bool) -> (r: bool)
    ensures
        r == spec_is_semantic_convention_file(path@, is_file),
{
    if !is_file {
        return false;
    }
    let name = match file_name_of(path) {
        Some(n) => n,
        None => {
            return false;
        },
    };
    let ext_ok = match extension_of(name.as_str()) {
        Some(e) => str_eq(e.as_str(), "yaml") || str_eq(e.as_str(), "yml"),
        None => false,
    };
    let n = name.as_str();
    ext_ok && !str_eq(n, "schema-next.yaml") && !(str_eq(n, "manifest.yaml") || str_eq(
        n,
        "registry_manifest.yaml",
    ))
}

/// Where the manifest of a registry was found.
pub enum ManifestPath {
    /// A legacy manifest (`registry_manifest.yaml`), read as version 1.
    LegacyPath(String),
    /// A manifest (`manifest.yaml`, or a file given directly), read by its
    /// `file_format`.
    RegistryPath(String),
    /// No manifest.
    NotFound,
}

/// The manifest location for a registry at `registry_path`: the path itself
/// when it is a file (legacy when named `registry_manifest.yaml`), else
/// `manifest.yaml` under it when that exists, else `registry_manifest.yaml`
/// under it when that exists, else none.
pub open spec fn spec_find_manifest_path(
    registry_path: Seq<char>,
    is_file: bool,
    manifest_exists: bool,
    legacy_exists: bool,
    r: ManifestPath,
) -> bool {
    if is_file {
        if path_file_name(registry_path) == Some("registry_manifest.yaml"@) {
            r matches ManifestPath::LegacyPath(p) && p@ == registry_path
        } else {
            r matches ManifestPath::RegistryPath(p) && p@ == registry_path
        }
    } else if manifest_exists {
        r matches ManifestPath::RegistryPath(p) && p@ == join_path(registry_path, "manifest.yaml"@)
    } else if legacy_exists {
        r matches ManifestPath::LegacyPath(p) && p@ == join_path(
            registry_path,
            "registry_manifest.yaml"@,
        )
    } else {
        r is NotFound
    }
}

impl ManifestPath {
    /// The two places where a registry directory may hold its manifest:
    /// `manifest.yaml` and the legacy `registry_manifest.yaml`.
    pub fn candidates(registry_path: &str) -> (r: (String, String))
        ensures
            r.0@ == join_path(registry_path@, "manifest.yaml"@),
            r.1@ == join_path(registry_path@, "registry_manifest.yaml"@),
    {
        (join(registry_path, "manifest.yaml"), join(registry_path, "registry_manifest.yaml"))
    }

    /// Classifies the manifest of a registry at `registry_path`, given
    /// whether that path is a file and whether each candidate exists.
    pub fn find(registry_path: &str, is_file: bool, manifest_exists: bool, legacy_exists: bool) -> (r:
        ManifestPath)
        ensures
            spec_find_manifest_path(registry_path@, is_file, manifest_exists, legacy_exists, r),
    {
        if is_file {
            let is_legacy = match file_name_of(registry_path) {
                Some(n) => str_eq(n.as_str(), "registry_manifest.yaml"),
                None => false,
            };
            if is_legacy {
                return ManifestPath::LegacyPath(to_owned_string(registry_path));
            }
            return ManifestPath::RegistryPath(to_owned_string(registry_path));
        }
        let (manifest_path, legacy_path) = ManifestPath::candidates(registry_path);
        if manifest_exists {
            ManifestPath::RegistryPath(manifest_path)
        } else if legacy_exists {
            ManifestPath::LegacyPath(legacy_path)
        } else {
            ManifestPath::NotFound
        }
    }

    /// The path of the manifest, if one was found.
    pub fn path(&self) -> (r: Option<&str>)
        ensures
            opt_str_view(r) == match self {
                ManifestPath::LegacyPath(p) => Some(p@),
                ManifestPath::RegistryPath(p) => Some(p@),
                ManifestPath::NotFound => None::<Seq<char>>,
            },
    {
        match self {
            ManifestPath::LegacyPath(p) => Some(p.as_str()),
            ManifestPath::RegistryPath(p) => Some(p.as_str()),
            ManifestPath::NotFound => None,
        }
    }
}

/// A registry manifest of either version.
pub enum VersionedManifest {
    /// A version 1 manifest (`registry_manifest.yaml`).
    V1(V1RegistryManifest),
    /// A version 2 manifest (`manifest.yaml`).
    V2(V2RegistryManifest),
}

/// The fields that both versions of a manifest carry: schema URL,
/// description, dependencies (schema URL and registry path) and stability.
pub ghost struct ManifestCore {
    pub schema_url: Seq<char>,
    pub description: Option<Seq<char>>,
    pub dependencies: Seq<(Seq<char>, Option<Seq<char>>)>,
    pub stability: crate::stability::Stability,
}

/// The common fields of a version 1 manifest.
pub open spec fn v1_core(m: V1RegistryManifest) -> ManifestCore {
    match m {
        V1RegistryManifest::Definition(d) => ManifestCore {
            schema_url: d.schema_url.url@,
            description: opt_view(d.description),
            dependencies: d.dependencies@.map_values(
                |x: V1Dependency| (x.schema_url.url@, opt_view(x.registry_path)),
            ),
            stability: d.stability,
        },
    }
}

/// The common fields of a version 2 manifest.
pub open spec fn v2_core(m: V2RegistryManifest) -> ManifestCore {
    match m {
        V2RegistryManifest::Definition(d) => ManifestCore {
            schema_url: d.schema_url.url@,
            description: opt_view(d.description),
            dependencies: d.dependencies@.map_values(
                |x: V2Dependency| (x.schema_url.url@, opt_view(x.registry_path)),
            ),
            stability: d.stability,
        },
        V2RegistryManifest::Publication(p) => ManifestCore {
            schema_url: p.schema_url.url@,
            description: opt_view(p.description),
            dependencies: p.dependencies@.map_values(
                |x: V2Dependency| (x.schema_url.url@, opt_view(x.registry_path)),
            ),
            stability: p.stability,
        },
    }
}

/// The common fields of a manifest of either version.
pub open spec fn versioned_core(m: VersionedManifest) -> ManifestCore {
    match m {
        VersionedManifest::V1(v1) => v1_core(v1),
        VersionedManifest::V2(v2) => v2_core(v2),
    }
}

/// The warnings gathered while reading a manifest.
pub open spec fn versioned_warnings(m: VersionedManifest) -> Seq<Seq<char>> {
    match m {
        VersionedManifest::V1(V1RegistryManifest::Definition(d)) => string_views(
            d.deserialization_warnings@,
        ),
        VersionedManifest::V2(V2RegistryManifest::Definition(d)) => string_views(
            d.deserialization_warnings@,
        ),
        VersionedManifest::V2(V2RegistryManifest::Publication(p)) => string_views(
            p.deserialization_warnings@,
        ),
    }
}

/// A version 2 dependency with the same schema URL and registry path.
fn dependency_to_v2(d: &V1Dependency) -> (r: V2Dependency)
    ensures
        r.schema_url.url@ == d.schema_url.url@,
        opt_view(r.registry_path) == opt_view(d.registry_path),
{
    V2Dependency { schema_url: d.schema_url.copy(), registry_path: clone_opt_string(&d.registry_path) }
}

/// A version 1 dependency with the same schema URL and registry path.
fn dependency_to_v1(d: &V2Dependency) -> (r: V1Dependency)
    ensures
        r.schema_url.url@ == d.schema_url.url@,
        opt_view(r.registry_path) == opt_view(d.registry_path),
{
    V1Dependency { schema_url: d.schema_url.copy(), registry_path: clone_opt_string(&d.registry_path) }
}

/// A copy of a version 2 dependency.
fn copy_v2_dependency(d: &V2Dependency) -> (r: V2Dependency)
    ensures
        r.schema_url.url@ == d.schema_url.url@,
        opt_view(r.registry_path) == opt_view(d.registry_path),
{
    V2Dependency { schema_url: d.schema_url.copy(), registry_path: clone_opt_string(&d.registry_path) }
}

/// A copy of a version 1 dependency.
fn copy_v1_dependency(d: &V1Dependency) -> (r: V1Dependency)
    ensures
        r.schema_url.url@ == d.schema_url.url@,
        opt_view(r.registry_path) == opt_view(d.registry_path),
{
    V1Dependency { schema_url: d.schema_url.copy(), registry_path: clone_opt_string(&d.registry_path) }
}

/// Version 2 dependencies with the same schema URLs and registry paths.
fn dependencies_v1_to_v2(ds: &[V1Dependency]) -> (r: Vec<V2Dependency>)
    ensures
        r@.map_values(|x: V2Dependency| (x.schema_url.url@, opt_view(x.registry_path)))
            == ds@.map_values(|x: V1Dependency| (x.schema_url.url@, opt_view(x.registry_path))),
{
    let mut out: Vec<V2Dependency> = Vec::new();
    let mut i: usize = 0;
    while i < ds.len()
        invariant
            i <= ds@.len(),
            out@.len() == i,
            forall|j: int|
                0 <= j < i ==> (#[trigger] out@[j]).schema_url.url@ == ds@[j].schema_url.url@
                    && opt_view(out@[j].registry_path) == opt_view(ds@[j].registry_path),
        decreases ds@.len() - i,
    {
        out.push(dependency_to_v2(&ds[i]));
        i = i + 1;
    }
    assert(out@.map_values(|x: V2Dependency| (x.schema_url.url@, opt_view(x.registry_path)))
        =~= ds@.map_values(|x: V1Dependency| (x.schema_url.url@, opt_view(x.registry_path))));
    out
}

/// Version 2 dependencies copied.
fn copy_v2_dependencies(ds: &[V2Dependency]) -> (r: Vec<V2Dependency>)
    ensures
        r@.map_values(|x: V2Dependency| (x.schema_url.url@, opt_view(x.registry_path)))
            == ds@.map_values(|x: V2Dependency| (x.schema_url.url@, opt_view(x.registry_path))),
{
    let mut out: Vec<V2Dependency> = Vec::new();
    let mut i: usize = 0;
    while i < ds.len()
        invariant
            i <= ds@.len(),
            out@.len() == i,
            forall|j: int|
                0 <= j < i ==> (#[trigger] out@[j]).schema_url.url@ == ds@[j].schema_url.url@
                    && opt_view(out@[j].registry_path) == opt_view(ds@[j].registry_path),
        decreases ds@.len() - i,
    {
        out.push(copy_v2_dependency(&ds[i]));
        i = i + 1;
    }
    assert(out@.map_values(|x: V2Dependency| (x.schema_url.url@, opt_view(x.registry_path)))
        =~= ds@.map_values(|x: V2Dependency| (x.schema_url.url@, opt_view(x.registry_path))));
    out
}

/// Version 1 dependencies with the same schema URLs and registry paths.
fn dependencies_v2_to_v1(ds: &[V2Dependency]) -> (r: Vec<V1Dependency>)
    ensures
        r@.map_values(|x: V1Dependency| (x.schema_url.url@, opt_view(x.registry_path)))
            == ds@.map_values(|x: V2Dependency| (x.schema_url.url@, opt_view(x.registry_path))),
{
    let mut out: Vec<V1Dependency> = Vec::new();
    let mut i: usize = 0;
    while i < ds.len()
        invariant
            i <= ds@.len(),
            out@.len() == i,
            forall|j: int|
                0 <= j < i ==> (#[trigger] out@[j]).schema_url.url@ == ds@[j].schema_url.url@
                    && opt_view(out@[j].registry_path) == opt_view(ds@[j].registry_path),
        decreases ds@.len() - i,
    {
        out.push(dependency_to_v1(&ds[i]));
        i = i + 1;
    }
    assert(out@.map_values(|x: V1Dependency| (x.schema_url.url@, opt_view(x.registry_path)))
        =~= ds@.map_values(|x: V2Dependency| (x.schema_url.url@, opt_view(x.registry_path))));
    out
}

/// Version 1 dependencies copied.
fn copy_v1_dependencies(ds: &[V1Dependency]) -> (r: Vec<V1Dependency>)
    ensures
        r@.map_values(|x: V1Dependency| (x.schema_url.url@, opt_view(x.registry_path)))
            == ds@.map_values(|x: V1Dependency| (x.schema_url.url@, opt_view(x.registry_path))),
{
    let mut out: Vec<V1Dependency> = Vec::new();
    let mut i: usize = 0;
    while i < ds.len()
        invariant
            i <= ds@.len(),
            out@.len() == i,
            forall|j: int|
                0 <= j < i ==> (#[trigger] out@[j]).schema_url.url@ == ds@[j].schema_url.url@
                    && opt_view(out@[j].registry_path) == opt_view(ds@[j].registry_path),
        decreases ds@.len() - i,
    {
        out.push(copy_v1_dependency(&ds[i]));
        i = i + 1;
    }
    assert(out@.map_values(|x: V1Dependency| (x.schema_url.url@, opt_view(x.registry_path)))
        =~= ds@.map_values(|x: V1Dependency| (x.schema_url.url@, opt_view(x.registry_path))));
    out
}

/// A copy of a list of texts.
fn copy_strings(v: &Vec<String>) -> (r: Vec<String>)
    ensures
        string_views(r@) == string_views(v@),
{
    let mut out: Vec<String> = Vec::new();
    let mut i: usize = 0;
    while i < v.len()
        invariant
            i <= v@.len(),
            string_views(out@) == string_views(v@).take(i as int),
        decreases v@.len() - i,
    {
        let ghost before = out@;
        out.push(v[i].clone());
        proof {
            assert(string_views(out@) =~= string_views(before).push(v@[i as int]@));
            assert(string_views(v@).take(i + 1) =~= string_views(v@).take(i as int).push(
                v@[i as int]@,
            ));
        }
        i = i + 1;
    }
    assert(string_views(v@).take(v@.len() as int) =~= string_views(v@));
    out
}

impl VersionedManifest {
    /// The schema URL of the registry.
    pub fn schema_url(&self) -> (r: &SchemaUrl)
        ensures
            r.url@ == versioned_core(*self).schema_url,
    {
        match self {
            VersionedManifest::V1(v1) => v1.schema_url(),
            VersionedManifest::V2(v2) => v2.schema_url(),
        }
    }

    /// The description of the registry, if any.
    pub fn description(&self) -> (r: Option<&str>)
        ensures
            opt_str_view(r) == versioned_core(*self).description,
    {
        match self {
            VersionedManifest::V1(v1) => v1.description(),
            VersionedManifest::V2(v2) => v2.description(),
        }
    }

    /// The dependencies of the registry, as version 2 dependencies.
    pub fn dependencies(&self) -> (r: Vec<V2Dependency>)
        ensures
            r@.map_values(|x: V2Dependency| (x.schema_url.url@, opt_view(x.registry_path)))
                == versioned_core(*self).dependencies,
    {
        match self {
            VersionedManifest::V1(v1) => dependencies_v1_to_v2(v1.dependencies()),
            VersionedManifest::V2(v2) => copy_v2_dependencies(v2.dependencies()),
        }
    }

    /// The version 1 manifest, if this is one.
    pub fn as_v1(&self) -> (r: Option<&V1RegistryManifest>)
        ensures
            match self {
                VersionedManifest::V1(v1) => r == Some(v1),
                VersionedManifest::V2(_) => r is None,
            },
    {
        match self {
            VersionedManifest::V1(v1) => Some(v1),
            VersionedManifest::V2(_) => None,
        }
    }

    /// The version 2 manifest, if this is one.
    pub fn as_v2(&self) -> (r: Option<&V2RegistryManifest>)
        ensures
            match self {
                VersionedManifest::V1(_) => r is None,
                VersionedManifest::V2(v2) => r == Some(v2),
            },
    {
        match self {
            VersionedManifest::V1(_) => None,
            VersionedManifest::V2(v2) => Some(v2),
        }
    }

    /// The manifest as a version 1 definition manifest with the same schema
    /// URL, description, dependencies, stability and warnings.
    pub fn to_v1(&self) -> (r: V1RegistryManifest)
        ensures
            v1_core(r) == versioned_core(*self),
            string_views(
                match r {
                    V1RegistryManifest::Definition(d) => d.deserialization_warnings@,
                },
            ) == versioned_warnings(*self),
    {
        let (schema_url, description, dependencies, stability, warnings) = match self {
            VersionedManifest::V1(V1RegistryManifest::Definition(d)) => (
                d.schema_url.copy(),
                clone_opt_string(&d.description),
                copy_v1_dependencies(d.dependencies.as_slice()),
                d.stability,
                copy_strings(&d.deserialization_warnings),
            ),
            VersionedManifest::V2(V2RegistryManifest::Definition(d)) => (
                d.schema_url.copy(),
                clone_opt_string(&d.description),
                dependencies_v2_to_v1(d.dependencies.as_slice()),
                d.stability,
                copy_strings(&d.deserialization_warnings),
            ),
            VersionedManifest::V2(V2RegistryManifest::Publication(p)) => (
                p.schema_url.copy(),
                clone_opt_string(&p.description),
                dependencies_v2_to_v1(p.dependencies.as_slice()),
                p.stability,
                copy_strings(&p.deserialization_warnings),
            ),
        };
        V1RegistryManifest::Definition(
            V1DefinitionRegistryManifest {
                schema_url,
                description,
                dependencies,
                stability,
                deserialization_warnings: warnings,
            },
        )
    }

    /// The manifest as a version 2 manifest: a version 2 manifest is copied,
    /// a version 1 manifest becomes a definition manifest with the same
    /// schema URL, description, dependencies, stability and warnings.
    pub fn to_v2(&self) -> (r: Result<V2RegistryManifest, crate::error::Error>)
        ensures
            r matches Ok(m) && v2_core(m) == versioned_core(*self) && match m {
                V2RegistryManifest::Definition(d) => string_views(d.deserialization_warnings@)
                    == versioned_warnings(*self),
                V2RegistryManifest::Publication(p) => string_views(p.deserialization_warnings@)
                    == versioned_warnings(*self),
            },
            self matches VersionedManifest::V1(_) ==> (r matches Ok(V2RegistryManifest::Definition(d))
                && d.file_format@ == "definition_manifest/2.0"@),
            self matches VersionedManifest::V2(V2RegistryManifest::Definition(d0)) ==> (r matches Ok(
                V2RegistryManifest::Definition(d),
            ) && d.file_format@ == d0.file_format@),
            self matches VersionedManifest::V2(V2RegistryManifest::Publication(p0)) ==> (r matches Ok(
                V2RegistryManifest::Publication(p),
            ) && p.file_format@ == p0.file_format@ && p.resolved_registry_uri@
                == p0.resolved_registry_uri@),
    {
        match self {
            VersionedManifest::V1(V1RegistryManifest::Definition(d)) => Ok(
                V2RegistryManifest::Definition(
                    V2DefinitionRegistryManifest {
                        file_format: to_owned_string("definition_manifest/2.0"),
                        schema_url: d.schema_url.copy(),
                        description: clone_opt_string(&d.description),
                        dependencies: dependencies_v1_to_v2(d.dependencies.as_slice()),
                        stability: d.stability,
                        deserialization_warnings: copy_strings(&d.deserialization_warnings),
                    },
                ),
            ),
            VersionedManifest::V2(V2RegistryManifest::Definition(d)) => Ok(
                V2RegistryManifest::Definition(
                    V2DefinitionRegistryManifest {
                        file_format: d.file_format.clone(),
                        schema_url: d.schema_url.copy(),
                        description: clone_opt_string(&d.description),
                        dependencies: copy_v2_dependencies(d.dependencies.as_slice()),
                        stability: d.stability,
                        deserialization_warnings: copy_strings(&d.deserialization_warnings),
                    },
                ),
            ),
            VersionedManifest::V2(V2RegistryManifest::Publication(p)) => Ok(
                V2RegistryManifest::Publication(
                    crate::v2::manifest::PublicationRegistryManifest {
                        file_format: p.file_format.clone(),
                        schema_url: p.schema_url.copy(),
                        description: clone_opt_string(&p.description),
                        dependencies: copy_v2_dependencies(p.dependencies.as_slice()),
                        stability: p.stability,
                        resolved_registry_uri: p.resolved_registry_uri.clone(),
                        deserialization_warnings: copy_strings(&p.deserialization_warnings),
                    },
                ),
            ),
        }
    }
}

} // verus!
