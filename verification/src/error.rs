//! Errors and warnings reported while processing semantic conventions, and
//! the result type that carries non-fatal ones alongside a value.

use vstd::prelude::*;

verus! {

/// An error or a warning about a semantic convention definition.
#[derive(Debug, PartialEq)]
pub enum Error {
    /// The registry (file or directory) is not found.
    RegistryNotFound { path_or_url: String, error: String },
    /// A deserialization error occurred.
    DeserializationError { path_or_url: String, error: String },
    /// The group definition is invalid.
    InvalidGroup { path_or_url: String, group_id: String, error: String },
    /// The group references the same attribute more than once.
    InvalidGroupDuplicateAttributeRef { path_or_url: String, group_id: String, attribute_ref: String },
    /// The group stability is missing or not supported.
    InvalidGroupStability { path_or_url: String, group_id: String, error: String },
    /// The group has neither `extends` nor attributes.
    InvalidGroupMissingExtendsOrAttributes { path_or_url: String, group_id: String, error: String },
    /// The group has no type.
    InvalidGroupMissingType { path_or_url: String, group_id: String, error: String },
    /// The span group has no span kind.
    InvalidSpanMissingSpanKind { path_or_url: String, group_id: String, error: String },
    /// The attribute definition is invalid.
    InvalidAttribute { path_or_url: String, group_id: String, attribute_id: String, error: String },
    /// The attribute definition is questionable (warning).
    InvalidAttributeWarning {
        path_or_url: String,
        group_id: String,
        attribute_id: String,
        error: String,
    },
    /// The enum attribute uses the no longer supported `allow_custom_values`.
    InvalidAttributeAllowCustomValues {
        path_or_url: String,
        group_id: String,
        attribute_id: String,
        error: String,
    },
    /// The attribute has an invalid example.
    InvalidExampleError { path_or_url: String, group_id: String, attribute_id: String, error: String },
    /// The attribute has an example that will be invalid in the future.
    InvalidExampleWarning {
        path_or_url: String,
        group_id: String,
        attribute_id: String,
        error: String,
    },
    /// The group defines a prefix, which is no longer used.
    InvalidGroupUsesPrefix { path_or_url: String, group_id: String },
    /// The metric definition is invalid.
    InvalidMetric { path_or_url: String, group_id: String, error: String },
    /// The any-value definition is invalid.
    InvalidAnyValue { path_or_url: String, group_id: String, value_id: String, error: String },
    /// The any-value definition has an invalid example.
    InvalidAnyValueExampleError {
        path_or_url: String,
        group_id: String,
        value_id: String,
        error: String,
    },
    /// The signal has no requirement level (warning).
    MissingRequirementLevelWarning { path_or_url: String, group_id: String },
    /// The attribute is both identifying and descriptive for an entity.
    AttributeInIdentityAndDescription { path_or_url: String, group_id: String, attribute_id: String },
    /// The entity has no identity attribute.
    EntityMissingIdentity { path_or_url: String, group_id: String },
    /// The deprecated `version` field is used.
    DeprecatedVersionField { provenance: String },
    /// The file format is not yet stable.
    UnstableFileFormat { file_format: String, provenance: String },
    /// The file format is not supported.
    InvalidFileFormat { field_key: String, field_value: String },
    /// The registry manifest is not found.
    RegistryManifestNotFound { path: String },
    /// The registry manifest is invalid.
    InvalidRegistryManifest { path: String, error: String },
    /// The publication manifest is invalid.
    InvalidPublicationManifest { path: String, details: String },
    /// The manifest uses the legacy file name (warning).
    LegacyRegistryManifest { path: String },
    /// The manifest uses a deprecated syntax (warning).
    DeprecatedSyntaxInRegistryManifest { path: String, error: String },
    /// The manifest has no `file_format` field (warning).
    MissingManifestFileFormat { path: String, expected_format: String },
    /// A dependency of a published registry does not pin a version.
    UnversionedDependencyInPublication { schema_url: String, registry_path: Option<String> },
    /// A file of a known format version holds keys that its schema does not
    /// define; `fields` gives the path of each.
    UnexpectedFields { path_or_url: String, file_format: String, fields: Vec<String> },
    /// A container for several errors.
    CompoundError(Vec<Error>),
}

/// The kind of an error, one per variant of [`Error`].
#[derive(Clone, Copy, Debug, PartialEq, Eq, Structural)]
pub enum ErrorKind {
    RegistryNotFound,
    DeserializationError,
    InvalidGroup,
    InvalidGroupDuplicateAttributeRef,
    InvalidGroupStability,
    InvalidGroupMissingExtendsOrAttributes,
    InvalidGroupMissingType,
    InvalidSpanMissingSpanKind,
    InvalidAttribute,
    InvalidAttributeWarning,
    InvalidAttributeAllowCustomValues,
    InvalidExampleError,
    InvalidExampleWarning,
    InvalidGroupUsesPrefix,
    InvalidMetric,
    InvalidAnyValue,
    InvalidAnyValueExampleError,
    MissingRequirementLevelWarning,
    AttributeInIdentityAndDescription,
    EntityMissingIdentity,
    DeprecatedVersionField,
    UnstableFileFormat,
    InvalidFileFormat,
    RegistryManifestNotFound,
    InvalidRegistryManifest,
    InvalidPublicationManifest,
    LegacyRegistryManifest,
    DeprecatedSyntaxInRegistryManifest,
    MissingManifestFileFormat,
    UnversionedDependencyInPublication,
    UnexpectedFields,
    CompoundError,
}

/// The mathematical content of an error: its kind, its text fields in
/// declaration order, and the nested errors of a compound error.
pub ghost struct ErrorView {
    pub kind: ErrorKind,
    pub fields: Seq<Seq<char>>,
    pub nested: Seq<ErrorView>,
}

/// An error view without nested errors.
pub open spec fn ev(kind: ErrorKind, fields: Seq<Seq<char>>) -> ErrorView {
    ErrorView { kind, fields, nested: Seq::empty() }
}

/// The view of one error.
pub open spec fn error_view(e: Error) -> ErrorView
    decreases e,
{
    match e {
        Error::RegistryNotFound { path_or_url, error } => ev(
            ErrorKind::RegistryNotFound,
            seq![path_or_url@, error@],
        ),
        Error::DeserializationError { path_or_url, error } => ev(
            ErrorKind::DeserializationError,
            seq![path_or_url@, error@],
        ),
        Error::InvalidGroup { path_or_url, group_id, error } => ev(
            ErrorKind::InvalidGroup,
            seq![path_or_url@, group_id@, error@],
        ),
        Error::InvalidGroupDuplicateAttributeRef { path_or_url, group_id, attribute_ref } => ev(
            ErrorKind::InvalidGroupDuplicateAttributeRef,
            seq![path_or_url@, group_id@, attribute_ref@],
        ),
        Error::InvalidGroupStability { path_or_url, group_id, error } => ev(
            ErrorKind::InvalidGroupStability,
            seq![path_or_url@, group_id@, error@],
        ),
        Error::InvalidGroupMissingExtendsOrAttributes { path_or_url, group_id, error } => ev(
            ErrorKind::InvalidGroupMissingExtendsOrAttributes,
            seq![path_or_url@, group_id@, error@],
        ),
        Error::InvalidGroupMissingType { path_or_url, group_id, error } => ev(
            ErrorKind::InvalidGroupMissingType,
            seq![path_or_url@, group_id@, error@],
        ),
        Error::InvalidSpanMissingSpanKind { path_or_url, group_id, error } => ev(
            ErrorKind::InvalidSpanMissingSpanKind,
            seq![path_or_url@, group_id@, error@],
        ),
        Error::InvalidAttribute { path_or_url, group_id, attribute_id, error } => ev(
            ErrorKind::InvalidAttribute,
            seq![path_or_url@, group_id@, attribute_id@, error@],
        ),
        Error::InvalidAttributeWarning { path_or_url, group_id, attribute_id, error } => ev(
            ErrorKind::InvalidAttributeWarning,
            seq![path_or_url@, group_id@, attribute_id@, error@],
        ),
        Error::InvalidAttributeAllowCustomValues { path_or_url, group_id, attribute_id, error } =>
            ev(
            ErrorKind::InvalidAttributeAllowCustomValues,
            seq![path_or_url@, group_id@, attribute_id@, error@],
        ),
        Error::InvalidExampleError { path_or_url, group_id, attribute_id, error } => ev(
            ErrorKind::InvalidExampleError,
            seq![path_or_url@, group_id@, attribute_id@, error@],
        ),
        Error::InvalidExampleWarning { path_or_url, group_id, attribute_id, error } => ev(
            ErrorKind::InvalidExampleWarning,
            seq![path_or_url@, group_id@, attribute_id@, error@],
        ),
        Error::InvalidGroupUsesPrefix { path_or_url, group_id } => ev(
            ErrorKind::InvalidGroupUsesPrefix,
            seq![path_or_url@, group_id@],
        ),
        Error::InvalidMetric { path_or_url, group_id, error } => ev(
            ErrorKind::InvalidMetric,
            seq![path_or_url@, group_id@, error@],
        ),
        Error::InvalidAnyValue { path_or_url, group_id, value_id, error } => ev(
            ErrorKind::InvalidAnyValue,
            seq![path_or_url@, group_id@, value_id@, error@],
        ),
        Error::InvalidAnyValueExampleError { path_or_url, group_id, value_id, error } => ev(
            ErrorKind::InvalidAnyValueExampleError,
            seq![path_or_url@, group_id@, value_id@, error@],
        ),
        Error::MissingRequirementLevelWarning { path_or_url, group_id } => ev(
            ErrorKind::MissingRequirementLevelWarning,
            seq![path_or_url@, group_id@],
        ),
        Error::AttributeInIdentityAndDescription { path_or_url, group_id, attribute_id } => ev(
            ErrorKind::AttributeInIdentityAndDescription,
            seq![path_or_url@, group_id@, attribute_id@],
        ),
        Error::EntityMissingIdentity { path_or_url, group_id } => ev(
            ErrorKind::EntityMissingIdentity,
            seq![path_or_url@, group_id@],
        ),
        Error::DeprecatedVersionField { provenance } => ev(
            ErrorKind::DeprecatedVersionField,
            seq![provenance@],
        ),
        Error::UnstableFileFormat { file_format, provenance } => ev(
            ErrorKind::UnstableFileFormat,
            seq![file_format@, provenance@],
        ),
        Error::InvalidFileFormat { field_key, field_value } => ev(
            ErrorKind::InvalidFileFormat,
            seq![field_key@, field_value@],
        ),
        Error::RegistryManifestNotFound { path } => ev(
            ErrorKind::RegistryManifestNotFound,
            seq![path@],
        ),
        Error::InvalidRegistryManifest { path, error } => ev(
            ErrorKind::InvalidRegistryManifest,
            seq![path@, error@],
        ),
        Error::InvalidPublicationManifest { path, details } => ev(
            ErrorKind::InvalidPublicationManifest,
            seq![path@, details@],
        ),
        Error::LegacyRegistryManifest { path } => ev(ErrorKind::LegacyRegistryManifest, seq![path@]),
        Error::DeprecatedSyntaxInRegistryManifest { path, error } => ev(
            ErrorKind::DeprecatedSyntaxInRegistryManifest,
            seq![path@, error@],
        ),
        Error::MissingManifestFileFormat { path, expected_format } => ev(
            ErrorKind::MissingManifestFileFormat,
            seq![path@, expected_format@],
        ),
        Error::UnversionedDependencyInPublication { schema_url, registry_path } => ev(
            ErrorKind::UnversionedDependencyInPublication,
            match registry_path {
                Some(p) => seq![schema_url@, p@],
                None => seq![schema_url@],
            },
        ),
        Error::UnexpectedFields { path_or_url, file_format, fields } => ev(
            ErrorKind::UnexpectedFields,
            seq![path_or_url@, file_format@] + crate::text::string_views(fields@),
        ),
        Error::CompoundError(errors) => ErrorView {
            kind: ErrorKind::CompoundError,
            fields: Seq::empty(),
            nested: errors_view(errors@),
        },
    }
}

/// The views of a sequence of errors.
pub open spec fn errors_view(s: Seq<Error>) -> Seq<ErrorView>
    decreases s,
{
    if s.len() == 0 {
        Seq::empty()
    } else {
        errors_view(s.drop_last()).push(error_view(s.last()))
    }
}

impl View for Error {
    type V = ErrorView;

    open spec fn view(&self) -> ErrorView {
        error_view(*self)
    }
}

/// Properties of [`errors_view`] used by the proofs.
pub broadcast proof fn lemma_errors_view_len(s: Seq<Error>)
    ensures
        #[trigger] errors_view(s).len() == s.len(),
    decreases s.len(),
{
    if s.len() > 0 {
        lemma_errors_view_len(s.drop_last());
    }
}

/// The view of a sequence of errors is the view of each one, in order.
pub proof fn lemma_errors_view_index(s: Seq<Error>, i: int)
    requires
        0 <= i < s.len(),
    ensures
        errors_view(s).len() == s.len(),
        errors_view(s)[i] == error_view(s[i]),
    decreases s.len(),
{
    lemma_errors_view_len(s);
    if i < s.len() - 1 {
        lemma_errors_view_index(s.drop_last(), i);
    }
}

/// Views distribute over concatenation.
pub proof fn lemma_errors_view_add(a: Seq<Error>, b: Seq<Error>)
    ensures
        errors_view(a + b) == errors_view(a) + errors_view(b),
    decreases b.len(),
{
    if b.len() == 0 {
        assert(a + b =~= a);
        assert(errors_view(b) =~= Seq::<ErrorView>::empty());
        assert(errors_view(a) + errors_view(b) =~= errors_view(a));
    } else {
        lemma_errors_view_add(a, b.drop_last());
        assert((a + b).drop_last() =~= a + b.drop_last());
        assert((a + b).last() == b.last());
        assert(errors_view(a + b) =~= errors_view(a) + errors_view(b));
    }
}

/// Views of a push.
pub proof fn lemma_errors_view_push(a: Seq<Error>, e: Error)
    ensures
        errors_view(a.push(e)) == errors_view(a).push(error_view(e)),
{
    assert(a.push(e).drop_last() =~= a);
}

/// A value together with the non-fatal errors found while producing it, or a
/// fatal error.
#[derive(Debug)]
pub enum WResult<T> {
    /// A value without errors.
    OkValue(T),
    /// A value and the non-fatal errors found.
    OkWithNFEs(T, Vec<Error>),
    /// A fatal error.
    FatalErr(Error),
}

/// Joins errors into one: the errors of nested compound errors are lifted
/// one level up, in order.
pub open spec fn flatten_errors(s: Seq<Error>) -> Seq<Error>
    decreases s.len(),
{
    if s.len() == 0 {
        Seq::empty()
    } else {
        let rest = flatten_errors(s.drop_last());
        match s.last() {
            Error::CompoundError(inner) => rest + inner@,
            e => rest.push(e),
        }
    }
}

impl Error {
    /// Combines several errors into a compound error. Compound errors among
    /// them are replaced by the errors they contain.
    pub fn compound(errors: Vec<Error>) -> (r: Error)
        ensures
            r matches Error::CompoundError(v) && v@ == flatten_errors(errors@),
    {
        let mut out: Vec<Error> = Vec::new();
        let mut rest = errors;
        let ghost all = rest@;
        let mut taken: Vec<Error> = Vec::new();
        // Move the errors out in order: reverse, then pop.
        while rest.len() > 0
            invariant
                all == rest@ + taken@.reverse(),
            decreases rest.len(),
        {
            let e = rest.pop().unwrap();
            proof {
                assert(rest@.push(e) + taken@.reverse() =~= rest@ + taken@.push(e).reverse());
            }
            taken.push(e);
        }
        assert(taken@.reverse() =~= all);
        let ghost n = taken@.len();
        while taken.len() > 0
            invariant
                taken@.len() <= n,
                n == all.len(),
                all == (all.subrange(0, n - taken@.len()) + taken@.reverse()),
                out@ == flatten_errors(all.subrange(0, n - taken@.len())),
            decreases taken.len(),
        {
            let ghost k = n - taken@.len();
            let e = taken.pop().unwrap();
            proof {
                assert(all[k] == e) by {
                    assert((all.subrange(0, k) + taken@.push(e).reverse())[k] == e);
                }
                assert(all.subrange(0, k + 1).drop_last() =~= all.subrange(0, k));
                assert(all.subrange(0, k + 1).last() == e);
                assert(all =~= all.subrange(0, k + 1) + taken@.reverse()) by {
                    assert(all.subrange(0, k) + taken@.push(e).reverse() =~= all.subrange(0, k + 1)
                        + taken@.reverse());
                }
            }
            match e {
                Error::CompoundError(mut inner) => {
                    out.append(&mut inner);
                },
                other => {
                    out.push(other);
                },
            }
        }
        assert(all.subrange(0, n as int) =~= all);
        Error::CompoundError(out)
    }
}

impl<T> WResult<T> {
    /// A value with the given non-fatal errors: `Ok` when there are none.
    pub fn with_non_fatal_errors(value: T, errors: Vec<Error>) -> (r: WResult<T>)
        ensures
            errors@.len() == 0 ==> r == WResult::OkValue(value),
            errors@.len() > 0 ==> r == WResult::OkWithNFEs(value, errors),
    {
        if errors.len() == 0 {
            WResult::OkValue(value)
        } else {
            WResult::OkWithNFEs(value, errors)
        }
    }

    /// Turns non-fatal errors into a failure: a single one is returned as
    /// is, several ones as a compound error.
    pub fn into_result_failing_non_fatal(self) -> (r: Result<T, Error>)
        ensures
            match self {
                WResult::OkValue(v) => r == Ok::<T, Error>(v),
                WResult::OkWithNFEs(v, errs) => if errs@.len() == 0 {
                    r == Ok::<T, Error>(v)
                } else if errs@.len() == 1 {
                    r == Err::<T, Error>(errs@[0])
                } else {
                    r matches Err(Error::CompoundError(c)) && c@ == flatten_errors(errs@)
                },
                WResult::FatalErr(e) => r == Err::<T, Error>(e),
            },
    {
        match self {
            WResult::OkValue(v) => Ok(v),
            WResult::OkWithNFEs(v, mut errs) => {
                if errs.len() == 0 {
                    Ok(v)
                } else if errs.len() == 1 {
                    let e = errs.pop().unwrap();
                    Err(e)
                } else {
                    Err(Error::compound(errs))
                }
            },
            WResult::FatalErr(e) => Err(e),
        }
    }
}

} // verus!
