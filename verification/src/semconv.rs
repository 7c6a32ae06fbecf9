//! Semantic convention files of either version: their detected format,
//! their validation and their conversion to version 1.

use vstd::prelude::*;
use crate::error::{errors_view, ev, lemma_errors_view_add, lemma_errors_view_push, Error, ErrorKind, ErrorView, WResult};
use crate::path_text::{provenance_path_to_name, spec_path_to_name};
use crate::provenance::Provenance;
use crate::schema_url::SchemaUrl;
use crate::text::{str_eq, to_owned_string};
use crate::v1::semconv::{spec_groups_errors, SemConvSpecV1, SemConvSpecV1WithProvenance};
use crate::v2::{spec_v2_fatal_errors, spec_v2_warnings, SemConvSpecV2};

verus! {

/// A semantic convention file of either version.
pub enum Versioned {
    /// A version 1 file (`definition/1`).
    V1(SemConvSpecV1),
    /// A version 2 file (`definition/2`).
    V2(SemConvSpecV2),
}

/// A file together with where it comes from.
pub struct SemConvSpecWithProvenance {
    /// The file.
    pub spec: Versioned,
    /// Where it comes from.
    pub provenance: Provenance,
}

/// The fatal errors that validating a file at `provenance` finds.
pub open spec fn spec_versioned_fatal_errors(v: Versioned, provenance: Seq<char>) -> Seq<ErrorView> {
    match v {
        Versioned::V1(_) => Seq::empty(),
        Versioned::V2(s) => spec_v2_fatal_errors(s, provenance),
    }
}

/// The non-fatal errors that validating a file at `provenance` finds.
pub open spec fn spec_versioned_warnings(v: Versioned, provenance: Seq<char>) -> Seq<ErrorView> {
    match v {
        Versioned::V1(s) => spec_groups_errors(s.groups@, provenance),
        Versioned::V2(s) => spec_v2_warnings(s, provenance),
    }
}

/// `r` is what validating `v` at `provenance` gives: a compound of the
/// fatal errors when there are any, else the file with its non-fatal errors.
pub open spec fn spec_validated<T>(
    fatal: Seq<ErrorView>,
    warnings: Seq<ErrorView>,
    value: T,
    r: WResult<T>,
) -> bool {
    if fatal.len() > 0 {
        r matches WResult::FatalErr(Error::CompoundError(v)) && errors_view(v@) == fatal
    } else {
        match r {
            WResult::OkValue(s) => s == value && warnings.len() == 0,
            WResult::OkWithNFEs(s, e) => s == value && errors_view(e@) == warnings && e@.len() > 0,
            WResult::FatalErr(_) => false,
        }
    }
}

impl Versioned {
    /// Converts the file to version 1; a version 2 file gets its attribute
    /// group named after `file_name`.
    pub fn into_v1(self, file_name: &str) -> (r: SemConvSpecV1)
        ensures
            match self {
                Versioned::V1(v1) => r == v1,
                Versioned::V2(v2) => crate::convert::spec_v2_to_v1_spec(v2, file_name@, r),
            },
    {
        match self {
            Versioned::V1(v1) => v1,
            Versioned::V2(v2) => crate::convert::v2_to_v1_spec(v2, file_name),
        }
    }

    /// Validates the file.
    pub fn validate(self, provenance: &str) -> (r: WResult<Versioned>)
        ensures
            spec_validated(
                spec_versioned_fatal_errors(self, provenance@),
                spec_versioned_warnings(self, provenance@),
                self,
                r,
            ),
    {
        match self {
            Versioned::V1(v1) => match v1.validate(provenance) {
                WResult::OkValue(s) => WResult::OkValue(Versioned::V1(s)),
                WResult::OkWithNFEs(s, e) => WResult::OkWithNFEs(Versioned::V1(s), e),
                WResult::FatalErr(e) => WResult::FatalErr(e),
            },
            Versioned::V2(v2) => match v2.validate(provenance) {
                WResult::OkValue(s) => WResult::OkValue(Versioned::V2(s)),
                WResult::OkWithNFEs(s, e) => WResult::OkWithNFEs(Versioned::V2(s), e),
                WResult::FatalErr(e) => WResult::FatalErr(e),
            },
        }
    }
}

impl SemConvSpecWithProvenance {
    /// Converts the file to version 1, keeping its provenance; a version 2
    /// file gets its attribute group named after its path.
    pub fn into_v1(self) -> (r: SemConvSpecV1WithProvenance)
        ensures
            r.provenance == self.provenance,
            match self.spec {
                Versioned::V1(v1) => r.spec == v1,
                Versioned::V2(v2) => crate::convert::spec_v2_to_v1_spec(
                    v2,
                    spec_path_to_name(self.provenance.path@),
                    r.spec,
                ),
            },
    {
        let file_name = provenance_path_to_name(self.provenance.path.as_str());
        SemConvSpecV1WithProvenance {
            spec: self.spec.into_v1(file_name.as_str()),
            provenance: self.provenance,
        }
    }

    /// Finishes reading a file: validates what was parsed from it (or keeps
    /// the parse error), attaches its provenance (the schema URL and the
    /// mapped path), and adds the warnings found while detecting its format
    /// after the validation's own.
    pub fn from_parsed(
        schema_url: SchemaUrl,
        path: &str,
        mapped_path: &str,
        parsed: Result<Versioned, Error>,
        warnings: Vec<Error>,
    ) -> (r: WResult<SemConvSpecWithProvenance>)
        ensures
            match parsed {
                Err(e) => r == WResult::<SemConvSpecWithProvenance>::FatalErr(e),
                Ok(v) => {
                    let fatal = spec_versioned_fatal_errors(v, path@);
                    let nfes = spec_versioned_warnings(v, path@) + errors_view(warnings@);
                    if fatal.len() > 0 {
                        r matches WResult::FatalErr(Error::CompoundError(c)) && errors_view(c@) == fatal
                    } else {
                        match r {
                            WResult::OkValue(s) => s.spec == v && nfes.len() == 0
                                && s.provenance.schema_url == schema_url
                                && s.provenance.path@ == crate::provenance::forward_slashes(mapped_path@),
                            WResult::OkWithNFEs(s, e) => s.spec == v && errors_view(e@) == nfes
                                && e@.len() > 0 && s.provenance.schema_url == schema_url
                                && s.provenance.path@ == crate::provenance::forward_slashes(mapped_path@),
                            WResult::FatalErr(_) => false,
                        }
                    }
                },
            },
    {
        let provenance = Provenance::new(schema_url, mapped_path);
        let validated = match parsed {
            Ok(spec) => spec.validate(path),
            Err(e) => {
                return WResult::FatalErr(e);
            },
        };
        proof {
            crate::error::lemma_errors_view_len(warnings@);
        }
        match validated {
            WResult::OkValue(spec) => {
                proof {
                    assert(Seq::<ErrorView>::empty() + errors_view(warnings@) =~= errors_view(warnings@));
                }
                WResult::with_non_fatal_errors(SemConvSpecWithProvenance { spec, provenance }, warnings)
            },
            WResult::OkWithNFEs(spec, mut errs) => {
                let mut w = warnings;
                proof {
                    lemma_errors_view_add(errs@, w@);
                    crate::error::lemma_errors_view_len(errs@);
                }
                errs.append(&mut w);
                WResult::OkWithNFEs(SemConvSpecWithProvenance { spec, provenance }, errs)
            },
            WResult::FatalErr(e) => WResult::FatalErr(e),
        }
    }
}

/// The format of a semantic convention file, as its `file_format` (or the
/// deprecated `version`) field gives it.
#[derive(Clone, Copy, Debug, PartialEq, Eq, Structural)]
pub enum FileFormat {
    /// `definition/1` (or `version: 1`).
    V1,
    /// `definition/2` (or `version: 2`).
    V2,
    /// Neither field: read as version 1.
    Unversioned,
}

/// Whether an optional text is the given one.
pub open spec fn opt_is_text(s: Option<String>, t: Seq<char>) -> bool {
    s matches Some(x) && x@ == t
}

/// The format that the `version` and `file_format` fields (when they are
/// strings) give, or the error about an unknown one.
pub open spec fn spec_detect(version: Option<String>, file_format: Option<String>) -> Result<FileFormat, ErrorView> {
    if opt_is_text(file_format, "definition/2"@) || opt_is_text(version, "2"@) {
        Ok(FileFormat::V2)
    } else if opt_is_text(file_format, "definition/1"@) || opt_is_text(version, "1"@) {
        Ok(FileFormat::V1)
    } else if file_format is None && version is None {
        Ok(FileFormat::Unversioned)
    } else {
        Err(
            ev(
                ErrorKind::InvalidFileFormat,
                match version {
                    Some(v) => seq!["version"@, v@],
                    None => seq!["file_format"@, file_format->0@],
                },
            ),
        )
    }
}

/// The warnings that detecting the format reports: the deprecated
/// `version` field, then a version 2 format, which is not yet stable.
pub open spec fn spec_detect_warnings(
    version: Option<String>,
    file_format: Option<String>,
    provenance: Seq<char>,
) -> Seq<ErrorView> {
    (if version is Some {
        seq![ev(ErrorKind::DeprecatedVersionField, seq![provenance])]
    } else {
        Seq::empty()
    }) + (if spec_detect(version, file_format) == Ok::<FileFormat, ErrorView>(FileFormat::V2) {
        seq![ev(ErrorKind::UnstableFileFormat, seq!["definition/2"@, provenance])]
    } else {
        Seq::empty()
    })
}

/// Whether an optional text is the given one.
fn opt_eq(s: &Option<String>, t: &str) -> (r: bool)
    ensures
        r == opt_is_text(*s, t@),
{
    match s {
        Some(x) => str_eq(x.as_str(), t),
        None => false,
    }
}

impl FileFormat {
    /// Detects the format of a file at `provenance` from its `version` and
    /// `file_format` fields (each given when it is a string), and reports in
    /// `warnings` the deprecated `version` field and an unstable format.
    pub fn detect(
        version: Option<String>,
        file_format: Option<String>,
        provenance: &str,
        warnings: &mut Vec<Error>,
    ) -> (r: Result<FileFormat, Error>)
        ensures
            match r {
                Ok(f) => spec_detect(version, file_format) == Ok::<FileFormat, ErrorView>(f),
                Err(e) => spec_detect(version, file_format) == Err::<FileFormat, ErrorView>(e@),
            },
            errors_view(final(warnings)@) == errors_view(old(warnings)@) + spec_detect_warnings(
                version,
                file_format,
                provenance@,
            ),
    {
        let ghost start = warnings@;
        if version.is_some() {
            let e = Error::DeprecatedVersionField { provenance: to_owned_string(provenance) };
            warnings.push(e);
            proof {
                lemma_errors_view_push(start, e);
            }
        }
        let ghost mid = warnings@;
        let is_v2 = opt_eq(&file_format, "definition/2") || opt_eq(&version, "2");
        let is_v1 = opt_eq(&file_format, "definition/1") || opt_eq(&version, "1");
        if is_v2 {
            let e = Error::UnstableFileFormat {
                file_format: to_owned_string("definition/2"),
                provenance: to_owned_string(provenance),
            };
            warnings.push(e);
            proof {
                lemma_errors_view_push(mid, e);
                assert(errors_view(warnings@) =~= errors_view(start) + spec_detect_warnings(
                    version,
                    file_format,
                    provenance@,
                ));
            }
            Ok(FileFormat::V2)
        } else {
            proof {
                assert(errors_view(warnings@) =~= errors_view(start) + spec_detect_warnings(
                    version,
                    file_format,
                    provenance@,
                ));
            }
            if is_v1 {
                Ok(FileFormat::V1)
            } else if file_format.is_none() && version.is_none() {
                Ok(FileFormat::Unversioned)
            } else {
                let (field_key, field_value) = match version {
                    Some(v) => (to_owned_string("version"), v),
                    None => (
                        to_owned_string("file_format"),
                        match file_format {
                            Some(f) => f,
                            None => to_owned_string("unknown"),
                        },
                    ),
                };
                Err(Error::InvalidFileFormat { field_key, field_value })
            }
        }
    }
}

} // verus!
