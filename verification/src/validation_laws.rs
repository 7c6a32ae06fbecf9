//! Properties of validation and of manifest reading that hold of every
//! input: which groups are reported for their stability, which format a
//! file is read in, when a version 2 file fails validation and what it
//! warns about, which manifests are refused and what an accepted one holds.

use vstd::prelude::*;
use crate::any_value::AnyValueSpec;
use crate::attribute::{AttributeSpec, AttributeType, EnumEntriesSpec};
use crate::error::{ev, ErrorKind, ErrorView};
use crate::group::{
    spec_any_value_errors, spec_any_value_example_errors, spec_any_value_fields_errors,
    spec_any_value_fields_example_errors, spec_any_value_member_errors, spec_attribute_errors,
    spec_attributes_errors, spec_duplicate_ref_errors, spec_event_errors,
    spec_group_errors, spec_group_header_errors, spec_group_kind_errors, spec_member_errors,
    spec_metric_errors, GroupSpec, GroupType,
};
use crate::stability::Stability;
use crate::v2::attribute::AttributeRef;
use crate::v2::entity::{Entity, EntityRefinement};
use crate::v2::{
    entity_missing, event_missing, metric_missing, ref_in, span_missing,
    spec_entity_errors, spec_entity_refinement_errors, spec_missing_level_warnings,
    spec_overlap_errors, spec_v2_fatal_errors, spec_v2_warnings, SemConvSpecV2,
};
use crate::manifest::{
    first_dependency_error, spec_manifest_error, spec_manifest_of, unknown_file_format_message,
    RawManifestFields, RegistryManifest,
};
use crate::schema_url::{spec_try_from_name_version, spec_validate};
use crate::semconv::{opt_is_text, spec_detect, spec_detect_warnings, FileFormat};
use crate::text::string_views;
use crate::v1::manifest::deprecated_fields_warning;
use crate::v2::manifest::{deprecated_resolved_schema_uri_warning, is_text};

verus! {

/// A manifest whose schema URL is given but not valid is refused, as an
/// invalid registry manifest that gives the reason. A manifest with the
/// format `manifest/2.0` is otherwise refused, as an invalid publication
/// manifest, exactly when it has no schema URL, a dependency that is not
/// declared by a valid schema URL, or no resolved registry URI under either
/// name. Otherwise it is a publication manifest of that format whose
/// resolved registry URI is `resolved_registry_uri`, or else the deprecated
/// `resolved_schema_uri`, with one warning exactly in the second case.
pub proof fn law_publication_manifest(raw: RawManifestFields, path: Seq<char>, m: RegistryManifest)
    requires
        is_text(raw.file_format, "manifest/2.0"@),
    ensures
        raw.schema_url is Some && spec_validate(raw.schema_url->0@) is Err ==> spec_manifest_error(
            raw,
            path,
        ) == Some(
            ev(ErrorKind::InvalidRegistryManifest, seq![path, spec_validate(raw.schema_url->0@)->Err_0]),
        ),
        (spec_manifest_error(raw, path) is Some) <==> (raw.schema_url is None
            || spec_validate(raw.schema_url->0@) is Err
            || first_dependency_error(true, raw.dependencies@) is Some
            || (raw.resolved_registry_uri is None && raw.resolved_schema_uri is None)),
        (raw.schema_url is None || spec_validate(raw.schema_url->0@) is Ok) ==> (spec_manifest_error(
            raw,
            path,
        ) matches Some(e) ==> e.kind == ErrorKind::InvalidPublicationManifest && e.fields[0] == path),
        spec_manifest_error(raw, path) is None && spec_manifest_of(raw, m) ==> (m matches RegistryManifest::Publication(p)
            && p.file_format@ == "manifest/2.0"@
            && Some(p.resolved_registry_uri) == (if raw.resolved_registry_uri is Some {
                raw.resolved_registry_uri
            } else {
                raw.resolved_schema_uri
            })
            && (p.deserialization_warnings@.len() == 1 <==> raw.resolved_registry_uri is None)
            && (p.deserialization_warnings@.len() == 0 <==> raw.resolved_registry_uri is Some)
            && (raw.resolved_registry_uri is None ==> string_views(p.deserialization_warnings@)
                == seq![deprecated_resolved_schema_uri_warning()])),
{
    if spec_manifest_error(raw, path) is None && spec_manifest_of(raw, m) {
        if let RegistryManifest::Publication(p) = m {
            if raw.resolved_registry_uri is None {
                assert(string_views(p.deserialization_warnings@).len()
                    == p.deserialization_warnings@.len());
            }
        }
    }
}

/// A manifest whose schema URL is given but not valid is refused with the
/// reason. Otherwise a manifest with any format other than `manifest/2.0`
/// is refused as having an unknown format. Without a format it is a
/// definition manifest: with a schema URL it is accepted exactly when that
/// URL is valid and every dependency is declared by a valid schema URL, and
/// keeps that URL with no warning; without one it is accepted exactly when
/// the deprecated base URL and version are both given and make a valid
/// schema URL and every dependency can be read (by schema URL or by name),
/// and then has that URL and one deprecation warning. Every refusal is an
/// invalid registry manifest.
pub proof fn law_definition_manifest(raw: RawManifestFields, path: Seq<char>, m: RegistryManifest)
    requires
        !is_text(raw.file_format, "manifest/2.0"@),
    ensures
        spec_manifest_error(raw, path) matches Some(e) ==> e.kind == ErrorKind::InvalidRegistryManifest
            && e.fields[0] == path,
        raw.schema_url is Some && spec_validate(raw.schema_url->0@) is Err ==> spec_manifest_error(
            raw,
            path,
        ) == Some(
            ev(ErrorKind::InvalidRegistryManifest, seq![path, spec_validate(raw.schema_url->0@)->Err_0]),
        ),
        raw.file_format is Some && (raw.schema_url is None || spec_validate(raw.schema_url->0@) is Ok)
            ==> spec_manifest_error(raw, path) is Some && spec_manifest_error(raw, path)->0.fields[1]
            == unknown_file_format_message(raw.file_format->0@),
        raw.file_format is None && raw.schema_url is Some ==> ((spec_manifest_error(raw, path) is None)
            <==> (spec_validate(raw.schema_url->0@) is Ok && first_dependency_error(
            true,
            raw.dependencies@,
        ) is None)),
        raw.file_format is None && raw.schema_url is None ==> ((spec_manifest_error(raw, path) is None)
            <==> (raw.schema_base_url is Some && raw.semconv_version is Some
            && spec_try_from_name_version(raw.schema_base_url->0@, raw.semconv_version->0@) is Ok
            && first_dependency_error(false, raw.dependencies@) is None)),
        spec_manifest_error(raw, path) is None && spec_manifest_of(raw, m) ==> (m matches RegistryManifest::Definition(d)
            && (raw.schema_url matches Some(u) ==> d.schema_url.url@ == u@
                && d.deserialization_warnings@.len() == 0)
            && (raw.schema_url is None ==> d.schema_url.url@ == spec_try_from_name_version(
                raw.schema_base_url->0@,
                raw.semconv_version->0@,
            )->Ok_0 && string_views(d.deserialization_warnings@) == seq![deprecated_fields_warning()])),
{
    if spec_manifest_error(raw, path) is None && spec_manifest_of(raw, m) {
        if let RegistryManifest::Definition(d) = m {
            assert(string_views(d.deserialization_warnings@).len() == d.deserialization_warnings@.len());
        }
    }
}

/// No error of `s` is of kind `k`, and each names the file `path` and the
/// group `gid` first.
#[verifier::opaque]
pub open spec fn no_error_of_kind(s: Seq<ErrorView>, k: ErrorKind, gid: Seq<char>, path: Seq<char>) -> bool {
    forall|i: int| 0 <= i < s.len() ==> (#[trigger] s[i]).kind != k && names_group(s[i], gid, path)
}

/// The kinds of error that are about a group as a whole and that only the
/// checks of the group itself report.
pub open spec fn group_level(k: ErrorKind) -> bool {
    k == ErrorKind::InvalidGroupStability || k == ErrorKind::InvalidGroupMissingExtendsOrAttributes
}

/// The error names the file `path` and the group `gid` first.
pub open spec fn names_group(e: ErrorView, gid: Seq<char>, path: Seq<char>) -> bool {
    e.fields.len() >= 2 && e.fields[0] == path && e.fields[1] == gid
}

proof fn lemma_no_kind_concat(
    a: Seq<ErrorView>,
    b: Seq<ErrorView>,
    k: ErrorKind,
    gid: Seq<char>,
    path: Seq<char>,
)
    requires
        no_error_of_kind(a, k, gid, path),
        no_error_of_kind(b, k, gid, path),
    ensures
        no_error_of_kind(a + b, k, gid, path),
{
    reveal(no_error_of_kind);
    assert forall|i: int| 0 <= i < (a + b).len() implies (#[trigger] (a + b)[i]).kind
        != k && names_group((a + b)[i], gid, path) by {
        if i < a.len() {
            assert((a + b)[i] == a[i]);
        } else {
            assert((a + b)[i] == b[i - a.len()]);
        }
    }
}

proof fn lemma_duplicate_refs(s: Seq<AttributeSpec>, gid: Seq<char>, path: Seq<char>, k: ErrorKind)
    requires
        group_level(k),
    ensures
        no_error_of_kind(spec_duplicate_ref_errors(s, gid, path), k, gid, path),
    decreases s.len(),
{
    reveal(no_error_of_kind);
    if s.len() > 0 {
        lemma_duplicate_refs(s.drop_last(), gid, path, k);
        let before = spec_duplicate_ref_errors(s.drop_last(), gid, path);
        match s.last() {
            AttributeSpec::Ref { ref_, .. } => {
                let e = crate::group::if_error(
                    crate::group::spec_ref_ids(s.drop_last()).contains(ref_@),
                    ev(ErrorKind::InvalidGroupDuplicateAttributeRef, seq![path, gid, ref_@]),
                );
                lemma_no_kind_concat(before, e, k, gid, path);
            },
            AttributeSpec::Id { .. } => {},
        }
    }
}

proof fn lemma_any_value_members(
    m: Seq<EnumEntriesSpec>,
    vid: Seq<char>,
    gid: Seq<char>,
    path: Seq<char>,
    k: ErrorKind,
)
    requires
        group_level(k),
    ensures
        no_error_of_kind(spec_any_value_member_errors(m, vid, gid, path), k, gid, path),
    decreases m.len(),
{
    reveal(no_error_of_kind);
    if m.len() > 0 {
        lemma_any_value_members(m.drop_last(), vid, gid, path, k);
        let s = spec_any_value_member_errors(m, vid, gid, path);
        let a = spec_any_value_member_errors(m.drop_last(), vid, gid, path);
        lemma_no_kind_concat(a, s.subrange(a.len() as int, s.len() as int), k, gid, path);
        assert(s =~= a + s.subrange(a.len() as int, s.len() as int));
    }
}

proof fn lemma_any_value(v: AnyValueSpec, gid: Seq<char>, path: Seq<char>, k: ErrorKind)
    requires
        group_level(k),
    ensures
        no_error_of_kind(spec_any_value_errors(v, gid, path), k, gid, path),
        no_error_of_kind(spec_any_value_example_errors(v, gid, path), k, gid, path),
    decreases v,
{
    reveal(no_error_of_kind);
    let s = spec_any_value_errors(v, gid, path);
    let x = spec_any_value_example_errors(v, gid, path);
    match v {
        AnyValueSpec::Enum { members, .. } => {
            lemma_any_value_members(members@, crate::any_value::spec_any_value_id(v), gid, path, k);
        },
        AnyValueSpec::Mapping { fields, .. } => {
            lemma_any_value_fields(fields@, gid, path, k);
        },
        _ => {},
    }
    assert(no_error_of_kind(s, k, gid, path));
    assert(no_error_of_kind(x, k, gid, path));
}

proof fn lemma_any_value_fields(f: Seq<AnyValueSpec>, gid: Seq<char>, path: Seq<char>, k: ErrorKind)
    requires
        group_level(k),
    ensures
        no_error_of_kind(spec_any_value_fields_errors(f, gid, path), k, gid, path),
        no_error_of_kind(spec_any_value_fields_example_errors(f, gid, path), k, gid, path),
    decreases f,
{
    reveal(no_error_of_kind);
    if f.len() > 0 {
        lemma_any_value_fields(f.drop_last(), gid, path, k);
        lemma_any_value(f.last(), gid, path, k);
        lemma_no_kind_concat(
            spec_any_value_fields_errors(f.drop_last(), gid, path),
            spec_any_value_errors(f.last(), gid, path), k, gid, path);
        lemma_no_kind_concat(
            spec_any_value_fields_example_errors(f.drop_last(), gid, path),
            spec_any_value_example_errors(f.last(), gid, path), k, gid, path);
    }
}

proof fn lemma_members(m: Seq<EnumEntriesSpec>, aid: Seq<char>, gid: Seq<char>, path: Seq<char>, k: ErrorKind)
    requires
        group_level(k),
    ensures
        no_error_of_kind(spec_member_errors(m, aid, gid, path), k, gid, path),
    decreases m.len(),
{
    reveal(no_error_of_kind);
    if m.len() > 0 {
        lemma_members(m.drop_last(), aid, gid, path, k);
        let s = spec_member_errors(m, aid, gid, path);
        let a = spec_member_errors(m.drop_last(), aid, gid, path);
        lemma_no_kind_concat(a, s.subrange(a.len() as int, s.len() as int), k, gid, path);
        assert(s =~= a + s.subrange(a.len() as int, s.len() as int));
    }
}

proof fn lemma_attributes(s: Seq<AttributeSpec>, gid: Seq<char>, path: Seq<char>, k: ErrorKind)
    requires
        group_level(k),
    ensures
        no_error_of_kind(spec_attributes_errors(s, gid, path), k, gid, path),
    decreases s.len(),
{
    reveal(no_error_of_kind);
    if s.len() > 0 {
        lemma_attributes(s.drop_last(), gid, path, k);
        let a = s.last();
        if let AttributeSpec::Id { id, type_, .. } = a {
            if let AttributeType::Enum { members, .. } = type_ {
                lemma_members(members@, id@, gid, path, k);
            }
        }
        assert(no_error_of_kind(spec_attribute_errors(a, gid, path), k, gid, path));
        lemma_no_kind_concat(
            spec_attributes_errors(s.drop_last(), gid, path),
            spec_attribute_errors(a, gid, path), k, gid, path);
    }
}

proof fn lemma_group_kind(g: GroupSpec, path: Seq<char>)
    ensures
        no_error_of_kind(spec_group_kind_errors(g, path), ErrorKind::InvalidGroupStability, g.id@, path),
        spec_group_kind_errors(g, path) == missing_extends_error(g, path) + kind_tail_errors(g, path),
        no_error_of_kind(
            kind_tail_errors(g, path),
            ErrorKind::InvalidGroupMissingExtendsOrAttributes,
            g.id@,
            path,
        ),
{
    reveal(no_error_of_kind);
    assert(spec_group_kind_errors(g, path) =~= missing_extends_error(g, path) + kind_tail_errors(g, path));
}

/// The error, if any, about a group that neither extends another nor lists
/// attributes.
spec fn missing_extends_error(g: GroupSpec, path: Seq<char>) -> Seq<ErrorView> {
    crate::group::if_error(
        g.type_ != GroupType::Metric && g.type_ != GroupType::Event && g.extends is None
            && g.attributes@.len() == 0,
        missing_extends_view(g, path),
    )
}

/// The error about a group that neither extends another nor lists
/// attributes.
pub open spec fn missing_extends_view(g: GroupSpec, path: Seq<char>) -> ErrorView {
    ev(
        ErrorKind::InvalidGroupMissingExtendsOrAttributes,
        seq![path, g.id@, "This group does not contain an extends or attributes field."@],
    )
}

/// The errors about the type of a group after the one about extends or
/// attributes.
spec fn kind_tail_errors(g: GroupSpec, path: Seq<char>) -> Seq<ErrorView> {
    let k = spec_group_kind_errors(g, path);
    let n = missing_extends_error(g, path).len();
    k.subrange(n as int, k.len() as int)
}

proof fn lemma_group_event(g: GroupSpec, path: Seq<char>, k: ErrorKind)
    requires
        group_level(k),
    ensures
        no_error_of_kind(spec_event_errors(g, path), k, g.id@, path),
{
    reveal(no_error_of_kind);
    if let Some(b) = g.body {
        lemma_any_value(b, g.id@, path, k);
        lemma_no_kind_concat(
            spec_any_value_errors(b, g.id@, path),
            spec_any_value_example_errors(b, g.id@, path), k, g.id@, path);
    }
}

proof fn lemma_group_metric(g: GroupSpec, path: Seq<char>, k: ErrorKind)
    requires
        group_level(k),
    ensures
        no_error_of_kind(spec_metric_errors(g, path), k, g.id@, path),
{
    reveal(no_error_of_kind);
}

/// The errors of a group other than those about its prefix and stability.
proof fn lemma_group_rest(g: GroupSpec, path: Seq<char>) -> (rest: Seq<ErrorView>)
    ensures
        spec_group_errors(g, path) =~= spec_group_header_errors(g, path) + rest,
        no_error_of_kind(rest, ErrorKind::InvalidGroupStability, g.id@, path),
{
    let sk = ErrorKind::InvalidGroupStability;
    let d = spec_duplicate_ref_errors(g.attributes@, g.id@, path);
    let k = spec_group_kind_errors(g, path);
    let e = spec_event_errors(g, path);
    let m = spec_metric_errors(g, path);
    let at = spec_attributes_errors(g.attributes@, g.id@, path);
    lemma_duplicate_refs(g.attributes@, g.id@, path, sk);
    lemma_group_kind(g, path);
    lemma_group_event(g, path, sk);
    lemma_group_metric(g, path, sk);
    lemma_attributes(g.attributes@, g.id@, path, sk);
    lemma_no_kind_concat(d, k, sk, g.id@, path);
    lemma_no_kind_concat(d + k, e, sk, g.id@, path);
    lemma_no_kind_concat(d + k + e, m, sk, g.id@, path);
    lemma_no_kind_concat(d + k + e + m, at, sk, g.id@, path);
    let h = spec_group_header_errors(g, path);
    assert(spec_group_errors(g, path) == (h + d + k) + e + m + at);
    assert((h + d + k) + e + m + at =~= h + (d + k + e + m + at));
    d + k + e + m + at
}

/// Validating a group reports that it neither extends another group nor
/// lists attributes at most once: never for a metric or an event group,
/// and for any other group exactly when it has no `extends` and no
/// attributes.
pub proof fn law_group_missing_extends_or_attributes(g: GroupSpec, path: Seq<char>)
    ensures
        spec_group_errors(g, path).filter(
            |e: ErrorView| e.kind == ErrorKind::InvalidGroupMissingExtendsOrAttributes,
        ).len() == (if g.type_ != GroupType::Metric && g.type_ != GroupType::Event
            && g.extends is None && g.attributes@.len() == 0 {
            1nat
        } else {
            0nat
        }),
        (g.type_ == GroupType::Metric || g.type_ == GroupType::Event) ==> forall|e: ErrorView|
            #[trigger] spec_group_errors(g, path).contains(e) ==> e.kind
                != ErrorKind::InvalidGroupMissingExtendsOrAttributes,
        spec_group_errors(g, path).contains(missing_extends_view(g, path)) <==> (g.type_
            != GroupType::Metric && g.type_ != GroupType::Event && g.extends is None
            && g.attributes@.len() == 0),
{
    let mk = ErrorKind::InvalidGroupMissingExtendsOrAttributes;
    let first = missing_extends_error(g, path);
    let (before, after) = lemma_group_split(g, path);
    lemma_one_of_kind(before, first, after, mk, g.id@, path);
    if first.len() > 0 {
        assert(first[0] == missing_extends_view(g, path));
        assert(first.contains(missing_extends_view(g, path)));
    }
}

/// A sequence made of two without errors of kind `k` around at most one
/// error of that kind holds exactly the errors of kind `k` of the middle.
proof fn lemma_one_of_kind(
    before: Seq<ErrorView>,
    first: Seq<ErrorView>,
    after: Seq<ErrorView>,
    k: ErrorKind,
    gid: Seq<char>,
    path: Seq<char>,
)
    requires
        no_error_of_kind(before, k, gid, path),
        no_error_of_kind(after, k, gid, path),
        first.len() <= 1,
        forall|i: int| 0 <= i < first.len() ==> (#[trigger] first[i]).kind == k,
    ensures
        (before + first + after).filter(|e: ErrorView| e.kind == k).len() == first.len(),
        forall|e: ErrorView| #[trigger] (before + first + after).contains(e) && e.kind == k ==> first.contains(e),
        forall|e: ErrorView| #[trigger] first.contains(e) ==> (before + first + after).contains(e),
{
    let pred = |e: ErrorView| e.kind == k;
    let all = before + first + after;
    lemma_none_filtered(before, k, gid, path);
    lemma_none_filtered(after, k, gid, path);
    Seq::filter_distributes_over_add(before + first, after, pred);
    Seq::filter_distributes_over_add(before, first, pred);
    assert(first.filter(pred) =~= first) by {
        reveal(Seq::filter);
        if first.len() > 0 {
            assert(first.drop_last() =~= Seq::<ErrorView>::empty());
        }
    }
    reveal(no_error_of_kind);
    assert forall|e: ErrorView| #[trigger] all.contains(e) && e.kind == k implies first.contains(e) by {
        let i = choose|i: int| 0 <= i < all.len() && all[i] == e;
        if i < before.len() {
            assert(all[i] == before[i]);
        } else if i >= before.len() + first.len() {
            assert(all[i] == after[i - before.len() - first.len()]);
        } else {
            assert(all[i] == first[i - before.len()]);
        }
    }
    assert forall|e: ErrorView| #[trigger] first.contains(e) implies all.contains(e) by {
        let i = choose|i: int| 0 <= i < first.len() && first[i] == e;
        assert(all[before.len() + i] == first[i]);
    }
}

/// Regrouping six parts around the third.
proof fn lemma_regroup(
    h: Seq<ErrorView>,
    d: Seq<ErrorView>,
    f: Seq<ErrorView>,
    t: Seq<ErrorView>,
    e: Seq<ErrorView>,
    m: Seq<ErrorView>,
    at: Seq<ErrorView>,
)
    ensures
        (h + d + (f + t)) + e + m + at == (h + d) + f + (t + e + m + at),
{
    assert((h + d + (f + t)) + e + m + at =~= (h + d) + f + (t + e + m + at));
}

/// The errors of a group around the one about extends or attributes.
proof fn lemma_group_split(g: GroupSpec, path: Seq<char>) -> (r: (Seq<ErrorView>, Seq<ErrorView>))
    ensures
        spec_group_errors(g, path) == r.0 + missing_extends_error(g, path) + r.1,
        no_error_of_kind(r.0, ErrorKind::InvalidGroupMissingExtendsOrAttributes, g.id@, path),
        no_error_of_kind(r.1, ErrorKind::InvalidGroupMissingExtendsOrAttributes, g.id@, path),
{
    let mk = ErrorKind::InvalidGroupMissingExtendsOrAttributes;
    let h = spec_group_header_errors(g, path);
    let d = spec_duplicate_ref_errors(g.attributes@, g.id@, path);
    let k = spec_group_kind_errors(g, path);
    let first = missing_extends_error(g, path);
    let tail = kind_tail_errors(g, path);
    let e = spec_event_errors(g, path);
    let m = spec_metric_errors(g, path);
    let at = spec_attributes_errors(g.attributes@, g.id@, path);
    lemma_duplicate_refs(g.attributes@, g.id@, path, mk);
    lemma_group_kind(g, path);
    lemma_group_event(g, path, mk);
    lemma_group_metric(g, path, mk);
    lemma_attributes(g.attributes@, g.id@, path, mk);
    assert(no_error_of_kind(h, mk, g.id@, path)) by {
        reveal(no_error_of_kind);
    }
    lemma_no_kind_concat(h, d, mk, g.id@, path);
    lemma_no_kind_concat(tail, e, mk, g.id@, path);
    lemma_no_kind_concat(tail + e, m, mk, g.id@, path);
    lemma_no_kind_concat(tail + e + m, at, mk, g.id@, path);
    assert(spec_group_errors(g, path) == (h + d + k) + e + m + at);
    lemma_regroup(h, d, first, tail, e, m, at);
    (h + d, tail + e + m + at)
}

/// A sequence without errors of kind `k` keeps none of them under a filter
/// on that kind.
proof fn lemma_none_filtered(s: Seq<ErrorView>, k: ErrorKind, gid: Seq<char>, path: Seq<char>)
    requires
        no_error_of_kind(s, k, gid, path),
    ensures
        s.filter(|e: ErrorView| e.kind == k).len() == 0,
    decreases s.len(),
{
    reveal(no_error_of_kind);
    reveal(Seq::filter);
    if s.len() > 0 {
        assert(no_error_of_kind(s.drop_last(), k, gid, path)) by {
            assert forall|i: int| 0 <= i < s.drop_last().len() implies (#[trigger] s.drop_last()[i]).kind
                != k && names_group(s.drop_last()[i], gid, path) by {
                assert(s.drop_last()[i] == s[i]);
            }
        }
        lemma_none_filtered(s.drop_last(), k, gid, path);
        assert(s[s.len() - 1].kind != k);
    }
}

/// Validating a group reports the missing stability (for a group that is
/// not an attribute group) exactly when it has none, and the deprecated
/// stability, which is no longer supported, exactly when it has it; no
/// other error about the stability of the group is reported; and every
/// error reported names the file and the group first.
pub proof fn law_group_stability_errors(g: GroupSpec, path: Seq<char>)
    ensures
        spec_group_errors(g, path).contains(
            ev(
                ErrorKind::InvalidGroupStability,
                seq![path, g.id@, "This group does not contain a stability field."@],
            ),
        ) <==> (g.type_ != GroupType::AttributeGroup && g.stability is None),
        spec_group_errors(g, path).contains(
            ev(
                ErrorKind::InvalidGroupStability,
                seq![
                    path,
                    g.id@,
                    "Group stability is set to 'deprecated' which is no longer supported."@,
                ],
            ),
        ) <==> g.stability == Some(Stability::Deprecated),
        forall|e: ErrorView|
            spec_group_errors(g, path).contains(e) && e.kind == ErrorKind::InvalidGroupStability
                ==> spec_group_header_errors(g, path).contains(e),
        forall|e: ErrorView| spec_group_errors(g, path).contains(e) ==> names_group(e, g.id@, path),
{
    reveal(no_error_of_kind);
    let all = spec_group_errors(g, path);
    let h = spec_group_header_errors(g, path);
    let rest = lemma_group_rest(g, path);
    let missing = ev(
        ErrorKind::InvalidGroupStability,
        seq![path, g.id@, "This group does not contain a stability field."@],
    );
    let deprecated = ev(
        ErrorKind::InvalidGroupStability,
        seq![path, g.id@, "Group stability is set to 'deprecated' which is no longer supported."@],
    );
    let c1 = g.type_ != GroupType::AttributeGroup && g.stability is None;
    let c2 = g.stability == Some(Stability::Deprecated);
    let p0 = crate::group::if_error(
        g.prefix@.len() != 0,
        ev(ErrorKind::InvalidGroupUsesPrefix, seq![path, g.id@]),
    );
    let p1 = crate::group::if_error(c1, missing);
    let p2 = crate::group::if_error(c2, deprecated);
    assert(h =~= p0 + p1 + p2);
    reveal_strlit("This group does not contain a stability field.");
    reveal_strlit("Group stability is set to 'deprecated' which is no longer supported.");
    assert(missing.fields[2][0] != deprecated.fields[2][0]);
    assert(missing != deprecated);
    assert forall|e: ErrorView| all.contains(e) implies names_group(e, g.id@, path) by {
        let i = choose|i: int| 0 <= i < all.len() && all[i] == e;
        if i >= h.len() {
            assert(all[i] == rest[i - h.len()]);
        } else {
            assert(h[i] == e);
            if i < p0.len() {
                assert(h[i] == p0[i]);
            } else if i < p0.len() + p1.len() {
                assert(h[i] == p1[i - p0.len()]);
            } else {
                assert(h[i] == p2[i - p0.len() - p1.len()]);
            }
        }
    }
    assert forall|e: ErrorView|
        all.contains(e) && e.kind == ErrorKind::InvalidGroupStability implies h.contains(e) by {
        let i = choose|i: int| 0 <= i < all.len() && all[i] == e;
        if i >= h.len() {
            assert(all[i] == rest[i - h.len()]);
        } else {
            assert(h[i] == e);
        }
    }
    if c1 {
        let i = p0.len() as int;
        assert(h[i] == missing);
        assert(all[i] == missing);
    }
    if c2 {
        let i = (p0.len() + p1.len()) as int;
        assert(h[i] == deprecated);
        assert(all[i] == deprecated);
    }
    if all.contains(missing) {
        assert(h.contains(missing));
        let i = choose|i: int| 0 <= i < h.len() && h[i] == missing;
        if !c1 {
            if i < p0.len() {
                assert(h[i] == p0[i]);
            } else {
                assert(h[i] == p2[i - p0.len()]);
            }
        }
    }
    if all.contains(deprecated) {
        assert(h.contains(deprecated));
        let i = choose|i: int| 0 <= i < h.len() && h[i] == deprecated;
        if !c2 {
            if i < p0.len() {
                assert(h[i] == p0[i]);
            } else {
                assert(h[i] == p1[i - p0.len()]);
            }
        }
    }
}

/// How many of `s` hold.
pub open spec fn count_true(s: Seq<bool>) -> nat
    decreases s.len(),
{
    if s.len() == 0 {
        0
    } else {
        count_true(s.drop_last()) + if s.last() {
            1nat
        } else {
            0nat
        }
    }
}

/// No attribute of `description` is also in `identity`.
pub open spec fn overlap_free(identity: Seq<AttributeRef>, description: Seq<AttributeRef>) -> bool {
    forall|j: int| 0 <= j < description.len() ==> !ref_in(identity, #[trigger] description[j].ref_@)
}

/// An entity that fails validation: without identity, or with a
/// descriptive attribute that is also identifying.
pub open spec fn entity_is_invalid(e: Entity) -> bool {
    e.identity@.len() == 0 || !overlap_free(e.identity@, e.description@)
}

proof fn lemma_overlap_errors(
    identity: Seq<AttributeRef>,
    description: Seq<AttributeRef>,
    gid: Seq<char>,
    path: Seq<char>,
)
    ensures
        (spec_overlap_errors(identity, description, gid, path).len() == 0) <==> overlap_free(
            identity,
            description,
        ),
    decreases description.len(),
{
    if description.len() > 0 {
        let d = description.drop_last();
        lemma_overlap_errors(identity, d, gid, path);
        if overlap_free(identity, description) {
            assert forall|j: int| 0 <= j < d.len() implies !ref_in(identity, #[trigger] d[j].ref_@) by {
                assert(d[j] == description[j]);
            }
            assert(description.last() == description[description.len() - 1]);
        }
        if overlap_free(identity, d) && !ref_in(identity, description.last().ref_@) {
            assert forall|j: int| 0 <= j < description.len() implies !ref_in(
                identity,
                #[trigger] description[j].ref_@,
            ) by {
                if j < d.len() {
                    assert(d[j] == description[j]);
                }
            }
        }
    }
}

proof fn lemma_entity_errors(s: Seq<Entity>, path: Seq<char>)
    ensures
        (spec_entity_errors(s, path).len() == 0) <==> forall|k: int|
            0 <= k < s.len() ==> !entity_is_invalid(#[trigger] s[k]),
    decreases s.len(),
{
    if s.len() > 0 {
        let d = s.drop_last();
        let e = s.last();
        lemma_entity_errors(d, path);
        lemma_overlap_errors(e.identity@, e.description@, e.type_.0@, path);
        if forall|k: int| 0 <= k < s.len() ==> !entity_is_invalid(#[trigger] s[k]) {
            assert forall|k: int| 0 <= k < d.len() implies !entity_is_invalid(#[trigger] d[k]) by {
                assert(d[k] == s[k]);
            }
            assert(!entity_is_invalid(s[s.len() - 1]));
        }
        if spec_entity_errors(s, path).len() == 0 {
            assert forall|k: int| 0 <= k < s.len() implies !entity_is_invalid(#[trigger] s[k]) by {
                if k < d.len() {
                    assert(d[k] == s[k]);
                }
            }
        }
    }
}

proof fn lemma_refinement_errors(s: Seq<EntityRefinement>, path: Seq<char>)
    ensures
        (spec_entity_refinement_errors(s, path).len() == 0) <==> forall|k: int|
            0 <= k < s.len() ==> overlap_free((#[trigger] s[k]).identity@, s[k].description@),
    decreases s.len(),
{
    if s.len() > 0 {
        let d = s.drop_last();
        let e = s.last();
        lemma_refinement_errors(d, path);
        lemma_overlap_errors(e.identity@, e.description@, e.id.0@, path);
        if forall|k: int| 0 <= k < s.len() ==> overlap_free((#[trigger] s[k]).identity@, s[k].description@) {
            assert forall|k: int| 0 <= k < d.len() implies overlap_free(
                (#[trigger] d[k]).identity@,
                d[k].description@,
            ) by {
                assert(d[k] == s[k]);
            }
            assert(overlap_free(s[s.len() - 1].identity@, s[s.len() - 1].description@));
        }
        if spec_entity_refinement_errors(s, path).len() == 0 {
            assert forall|k: int| 0 <= k < s.len() implies overlap_free(
                (#[trigger] s[k]).identity@,
                s[k].description@,
            ) by {
                if k < d.len() {
                    assert(d[k] == s[k]);
                }
            }
        }
    }
}

proof fn lemma_missing_level_warnings(
    names: Seq<Seq<char>>,
    missing: Seq<bool>,
    prefix: Seq<char>,
    path: Seq<char>,
)
    requires
        names.len() == missing.len(),
    ensures
        spec_missing_level_warnings(names, missing, prefix, path).len() == count_true(missing),
        forall|i: int|
            0 <= i < spec_missing_level_warnings(names, missing, prefix, path).len() ==> (#[trigger] spec_missing_level_warnings(
                names,
                missing,
                prefix,
                path,
            )[i]).kind == ErrorKind::MissingRequirementLevelWarning,
    decreases names.len(),
{
    if names.len() > 0 {
        lemma_missing_level_warnings(names.drop_last(), missing.drop_last(), prefix, path);
        let a = spec_missing_level_warnings(names.drop_last(), missing.drop_last(), prefix, path);
        let all = spec_missing_level_warnings(names, missing, prefix, path);
        assert forall|i: int| 0 <= i < all.len() implies (#[trigger] all[i]).kind
            == ErrorKind::MissingRequirementLevelWarning by {
            if i < a.len() {
                assert(all[i] == a[i]);
            }
        }
    }
}

/// A version 2 file fails validation exactly when an entity has no
/// identity or has a descriptive attribute that is also identifying, or an
/// entity refinement has such an attribute. Otherwise it is kept as it is,
/// with one warning, about the missing requirement level, for each metric,
/// span, event and entity that has none.
pub proof fn law_v2_validation(spec: SemConvSpecV2, path: Seq<char>)
    ensures
        (spec_v2_fatal_errors(spec, path).len() > 0) <==> ((exists|k: int|
            0 <= k < spec.entities@.len() && entity_is_invalid(#[trigger] spec.entities@[k])) || (exists|
            k: int,
        |
            0 <= k < spec.entity_refinements@.len() && !overlap_free(
                (#[trigger] spec.entity_refinements@[k]).identity@,
                spec.entity_refinements@[k].description@,
            ))),
        spec_v2_warnings(spec, path).len() == count_true(metric_missing(spec.metrics@)) + count_true(
            span_missing(spec.spans@),
        ) + count_true(event_missing(spec.events@)) + count_true(entity_missing(spec.entities@)),
        forall|i: int|
            0 <= i < spec_v2_warnings(spec, path).len() ==> (#[trigger] spec_v2_warnings(spec, path)[i]).kind
                == ErrorKind::MissingRequirementLevelWarning,
{
    lemma_entity_errors(spec.entities@, path);
    lemma_refinement_errors(spec.entity_refinements@, path);
    let m = spec_missing_level_warnings(
        crate::v2::metric_names(spec.metrics@),
        metric_missing(spec.metrics@),
        "metric."@,
        path,
    );
    let sp = spec_missing_level_warnings(
        crate::v2::span_names(spec.spans@),
        span_missing(spec.spans@),
        "span."@,
        path,
    );
    let e = spec_missing_level_warnings(
        crate::v2::event_names(spec.events@),
        event_missing(spec.events@),
        "event."@,
        path,
    );
    let en = spec_missing_level_warnings(
        crate::v2::entity_names(spec.entities@),
        entity_missing(spec.entities@),
        "entity."@,
        path,
    );
    lemma_missing_level_warnings(
        crate::v2::metric_names(spec.metrics@),
        metric_missing(spec.metrics@),
        "metric."@,
        path,
    );
    lemma_missing_level_warnings(
        crate::v2::span_names(spec.spans@),
        span_missing(spec.spans@),
        "span."@,
        path,
    );
    lemma_missing_level_warnings(
        crate::v2::event_names(spec.events@),
        event_missing(spec.events@),
        "event."@,
        path,
    );
    lemma_missing_level_warnings(
        crate::v2::entity_names(spec.entities@),
        entity_missing(spec.entities@),
        "entity."@,
        path,
    );
    let w = spec_v2_warnings(spec, path);
    assert(w == m + sp + e + en);
    assert forall|i: int| 0 <= i < w.len() implies (#[trigger] w[i]).kind
        == ErrorKind::MissingRequirementLevelWarning by {
        if i < m.len() {
            assert(w[i] == m[i]);
        } else if i < m.len() + sp.len() {
            assert(w[i] == sp[i - m.len()]);
        } else if i < m.len() + sp.len() + e.len() {
            assert(w[i] == e[i - m.len() - sp.len()]);
        } else {
            assert(w[i] == en[i - m.len() - sp.len() - e.len()]);
        }
    }
}

/// A file is read as version 2 when its `file_format` is `definition/2` or
/// its `version` is `2`; otherwise as version 1 when they say
/// `definition/1` or `1`; as unversioned when neither field is given; any
/// other value is refused as an invalid format. A `version` field is always
/// reported as deprecated, and version 2 as not yet stable, and nothing
/// else is reported.
pub proof fn law_file_format_detection(
    version: Option<String>,
    file_format: Option<String>,
    provenance: Seq<char>,
)
    ensures
        (spec_detect(version, file_format) == Ok::<FileFormat, ErrorView>(FileFormat::V2)) <==> (
        opt_is_text(file_format, "definition/2"@) || opt_is_text(version, "2"@)),
        (spec_detect(version, file_format) == Ok::<FileFormat, ErrorView>(FileFormat::V1)) <==> (!(
        opt_is_text(file_format, "definition/2"@) || opt_is_text(version, "2"@)) && (opt_is_text(
            file_format,
            "definition/1"@,
        ) || opt_is_text(version, "1"@))),
        (spec_detect(version, file_format) == Ok::<FileFormat, ErrorView>(FileFormat::Unversioned))
            <==> (file_format is None && version is None),
        spec_detect(version, file_format) matches Err(e) ==> e.kind == ErrorKind::InvalidFileFormat,
        spec_detect_warnings(version, file_format, provenance).len() == (if version is Some {
            1int
        } else {
            0
        }) + (if spec_detect(version, file_format) == Ok::<FileFormat, ErrorView>(FileFormat::V2) {
            1int
        } else {
            0
        }),
        (version is Some) ==> spec_detect_warnings(version, file_format, provenance)[0] == ev(
            ErrorKind::DeprecatedVersionField,
            seq![provenance],
        ),
{
    reveal_strlit("definition/2");
    reveal_strlit("definition/1");
    reveal_strlit("2");
    reveal_strlit("1");
}

/// An error of a part is an error of the parts joined, on either side.
proof fn lemma_contains_join(a: Seq<ErrorView>, b: Seq<ErrorView>, x: ErrorView)
    ensures
        a.contains(x) ==> (a + b).contains(x),
        b.contains(x) ==> (a + b).contains(x),
{
    if a.contains(x) {
        let i = choose|i: int| 0 <= i < a.len() && a[i] == x;
        assert((a + b)[i] == x);
    }
    if b.contains(x) {
        let i = choose|i: int| 0 <= i < b.len() && b[i] == x;
        assert((a + b)[a.len() + i] == x);
    }
}

/// An error found by one of the checks of a group is reported.
proof fn lemma_group_part(g: GroupSpec, path: Seq<char>, x: ErrorView)
    requires
        spec_group_header_errors(g, path).contains(x) || spec_group_kind_errors(g, path).contains(x)
            || spec_event_errors(g, path).contains(x) || spec_metric_errors(g, path).contains(x)
            || spec_duplicate_ref_errors(g.attributes@, g.id@, path).contains(x),
    ensures
        spec_group_errors(g, path).contains(x),
{
    let h = spec_group_header_errors(g, path);
    let d = spec_duplicate_ref_errors(g.attributes@, g.id@, path);
    let k = spec_group_kind_errors(g, path);
    let e = spec_event_errors(g, path);
    let m = spec_metric_errors(g, path);
    let at = spec_attributes_errors(g.attributes@, g.id@, path);
    assert(spec_group_errors(g, path) == h + d + k + e + m + at);
    lemma_contains_join(h, d, x);
    lemma_contains_join(h + d, k, x);
    lemma_contains_join(h + d + k, e, x);
    lemma_contains_join(h + d + k + e, m, x);
    lemma_contains_join(h + d + k + e + m, at, x);
}

/// The one error of a check that fires.
proof fn lemma_if_error_holds(c: bool, x: ErrorView)
    requires
        c,
    ensures
        crate::group::if_error(c, x).contains(x),
{
    assert(crate::group::if_error(c, x)[0] == x);
}

/// An error about the type of a group, found by one of its checks, is
/// among the errors about its type.
proof fn lemma_kind_part(g: GroupSpec, path: Seq<char>, i: int, x: ErrorView)
    requires
        0 <= i < 5,
        kind_checks(g, path)[i].0,
        kind_checks(g, path)[i].1 == x,
    ensures
        spec_group_kind_errors(g, path).contains(x),
{
    let c = kind_checks(g, path);
    let p0 = crate::group::if_error(c[0].0, c[0].1);
    let p1 = crate::group::if_error(c[1].0, c[1].1);
    let p2 = crate::group::if_error(c[2].0, c[2].1);
    let p3 = crate::group::if_error(c[3].0, c[3].1);
    let p4 = crate::group::if_error(c[4].0, c[4].1);
    assert(spec_group_kind_errors(g, path) == p0 + p1 + p2 + p3 + p4);
    lemma_if_error_holds(c[i].0, c[i].1);
    lemma_contains_join(p0, p1, x);
    lemma_contains_join(p0 + p1, p2, x);
    lemma_contains_join(p0 + p1 + p2, p3, x);
    lemma_contains_join(p0 + p1 + p2 + p3, p4, x);
}

/// The checks about the type of a group, each a condition and the error it
/// gives, in the order they are made.
spec fn kind_checks(g: GroupSpec, path: Seq<char>) -> Seq<(bool, ErrorView)> {
    let gid = g.id@;
    seq![
        (
            g.type_ != GroupType::Metric && g.type_ != GroupType::Event && g.extends is None
                && g.attributes@.len() == 0,
            ev(
                ErrorKind::InvalidGroupMissingExtendsOrAttributes,
                seq![path, gid, "This group does not contain an extends or attributes field."@],
            ),
        ),
        (
            g.type_ != GroupType::Span && g.type_ != GroupType::Undefined && g.span_kind is Some,
            ev(
                ErrorKind::InvalidGroup,
                seq![path, gid, "This group contains a span_kind field but the type is not set to span."@],
            ),
        ),
        (
            g.type_ != GroupType::Span && g.type_ != GroupType::Undefined && g.events@.len() != 0,
            ev(
                ErrorKind::InvalidGroup,
                seq![path, gid, "This group contains an events field but the type is not set to span."@],
            ),
        ),
        (
            g.type_ == GroupType::Undefined,
            ev(
                ErrorKind::InvalidGroupMissingType,
                seq![path, gid, "This group does not contain a type field."@],
            ),
        ),
        (
            g.type_ == GroupType::Span && g.span_kind is None,
            ev(
                ErrorKind::InvalidSpanMissingSpanKind,
                seq![path, gid, "This group is a Span but the span_kind is not set."@],
            ),
        ),
    ]
}

/// Validating a group reports each problem its checks are for: a prefix;
/// a span kind or events on a group (of a known type) that is not a span;
/// a missing type; a span without span kind; a body on a group that is not
/// an event; an event with a body but no name, or with neither body, name
/// nor prefix; a metric without metric name, without instrument or without
/// unit. Each is reported with the file and the group first.
pub proof fn law_group_checks_are_reported(g: GroupSpec, path: Seq<char>)
    ensures
        g.prefix@.len() != 0 ==> spec_group_errors(g, path).contains(
            ev(ErrorKind::InvalidGroupUsesPrefix, seq![path, g.id@]),
        ),
        g.type_ != GroupType::Span && g.type_ != GroupType::Undefined && g.span_kind is Some
            ==> spec_group_errors(g, path).contains(
            ev(
                ErrorKind::InvalidGroup,
                seq![path, g.id@, "This group contains a span_kind field but the type is not set to span."@],
            ),
        ),
        g.type_ != GroupType::Span && g.type_ != GroupType::Undefined && g.events@.len() != 0
            ==> spec_group_errors(g, path).contains(
            ev(
                ErrorKind::InvalidGroup,
                seq![path, g.id@, "This group contains an events field but the type is not set to span."@],
            ),
        ),
        g.type_ == GroupType::Undefined ==> spec_group_errors(g, path).contains(
            ev(
                ErrorKind::InvalidGroupMissingType,
                seq![path, g.id@, "This group does not contain a type field."@],
            ),
        ),
        g.type_ == GroupType::Span && g.span_kind is None ==> spec_group_errors(g, path).contains(
            ev(
                ErrorKind::InvalidSpanMissingSpanKind,
                seq![path, g.id@, "This group is a Span but the span_kind is not set."@],
            ),
        ),
        g.type_ != GroupType::Event && g.body is Some ==> spec_group_errors(g, path).contains(
            ev(
                ErrorKind::InvalidGroup,
                seq![path, g.id@, "This group contains a body field but the type is not set to event."@],
            ),
        ),
        g.type_ == GroupType::Event && g.body is Some && g.name is None ==> spec_group_errors(
            g,
            path,
        ).contains(
            ev(
                ErrorKind::InvalidGroup,
                seq![
                    path,
                    g.id@,
                    "This group contains an event type with a body definition but the name is not set."@,
                ],
            ),
        ),
        g.type_ == GroupType::Event && g.body is None && g.name is None && g.prefix@.len() == 0
            ==> spec_group_errors(g, path).contains(
            ev(
                ErrorKind::InvalidGroup,
                seq![
                    path,
                    g.id@,
                    "This group contains an event type but the name is not set and no prefix is defined."@,
                ],
            ),
        ),
        g.type_ == GroupType::Metric && g.metric_name is None ==> spec_group_errors(g, path).contains(
            ev(
                ErrorKind::InvalidMetric,
                seq![path, g.id@, "This group contains a metric type but the metric_name is not set."@],
            ),
        ),
        g.type_ == GroupType::Metric && g.instrument is None ==> spec_group_errors(g, path).contains(
            ev(
                ErrorKind::InvalidMetric,
                seq![path, g.id@, "This group contains a metric type but the instrument is not set."@],
            ),
        ),
        g.type_ == GroupType::Metric && g.unit is None ==> spec_group_errors(g, path).contains(
            ev(
                ErrorKind::InvalidMetric,
                seq![path, g.id@, "This group contains a metric type but the unit is not set."@],
            ),
        ),
{
    let gid = g.id@;
    let h = spec_group_header_errors(g, path);
    let e = spec_event_errors(g, path);
    let m = spec_metric_errors(g, path);
    let c = kind_checks(g, path);
    assert(spec_group_kind_errors(g, path) == crate::group::if_error(c[0].0, c[0].1)
        + crate::group::if_error(c[1].0, c[1].1) + crate::group::if_error(c[2].0, c[2].1)
        + crate::group::if_error(c[3].0, c[3].1) + crate::group::if_error(c[4].0, c[4].1));
    if g.prefix@.len() != 0 {
        let x = ev(ErrorKind::InvalidGroupUsesPrefix, seq![path, gid]);
        assert(h[0] == x);
        lemma_group_part(g, path, x);
    }
    if c[1].0 {
        lemma_kind_part(g, path, 1, c[1].1);
        lemma_group_part(g, path, c[1].1);
    }
    if c[2].0 {
        lemma_kind_part(g, path, 2, c[2].1);
        lemma_group_part(g, path, c[2].1);
    }
    if c[3].0 {
        lemma_kind_part(g, path, 3, c[3].1);
        lemma_group_part(g, path, c[3].1);
    }
    if c[4].0 {
        lemma_kind_part(g, path, 4, c[4].1);
        lemma_group_part(g, path, c[4].1);
    }
    assert(c[1].0 ==> spec_group_errors(g, path).contains(c[1].1));
    assert(c[2].0 ==> spec_group_errors(g, path).contains(c[2].1));
    assert(c[3].0 ==> spec_group_errors(g, path).contains(c[3].1));
    assert(c[4].0 ==> spec_group_errors(g, path).contains(c[4].1));
    if g.type_ != GroupType::Event {
        if g.body is Some {
            assert(e[0] == ev(
                ErrorKind::InvalidGroup,
                seq![path, gid, "This group contains a body field but the type is not set to event."@],
            ));
            lemma_group_part(g, path, e[0]);
        }
    } else {
        let x1 = ev(
            ErrorKind::InvalidGroup,
            seq![
                path,
                gid,
                "This group contains an event type with a body definition but the name is not set."@,
            ],
        );
        let x2 = ev(
            ErrorKind::InvalidGroup,
            seq![
                path,
                gid,
                "This group contains an event type but the name is not set and no prefix is defined."@,
            ],
        );
        let q1 = crate::group::if_error(g.body is Some && g.name is None, x1);
        let q2 = crate::group::if_error(g.body is None && g.name is None && g.prefix@.len() == 0, x2);
        let q3 = e.subrange((q1.len() + q2.len()) as int, e.len() as int);
        assert(e =~= q1 + q2 + q3);
        if g.body is Some && g.name is None {
            assert(e[0] == x1);
            lemma_group_part(g, path, x1);
        }
        if g.body is None && g.name is None && g.prefix@.len() == 0 {
            assert(e[0] == x2);
            lemma_group_part(g, path, x2);
        }
    }
    if g.type_ == GroupType::Metric {
        let y1 = ev(
            ErrorKind::InvalidMetric,
            seq![path, gid, "This group contains a metric type but the metric_name is not set."@],
        );
        let y2 = ev(
            ErrorKind::InvalidMetric,
            seq![path, gid, "This group contains a metric type but the instrument is not set."@],
        );
        let y3 = ev(
            ErrorKind::InvalidMetric,
            seq![path, gid, "This group contains a metric type but the unit is not set."@],
        );
        let r1 = crate::group::if_error(g.metric_name is None, y1);
        let r2 = crate::group::if_error(g.instrument is None, y2);
        let r3 = crate::group::if_error(g.unit is None, y3);
        assert(m == r1 + r2 + r3);
        if g.metric_name is None {
            lemma_if_error_holds(true, y1);
            lemma_contains_join(r1, r2, y1);
            lemma_contains_join(r1 + r2, r3, y1);
            lemma_group_part(g, path, y1);
        }
        if g.instrument is None {
            lemma_if_error_holds(true, y2);
            lemma_contains_join(r1, r2, y2);
            lemma_contains_join(r1 + r2, r3, y2);
            lemma_group_part(g, path, y2);
        }
        if g.unit is None {
            lemma_if_error_holds(true, y3);
            lemma_contains_join(r1 + r2, r3, y3);
            lemma_group_part(g, path, y3);
        }
    }
}

/// An error of one attribute of a list is among the errors of the list.
proof fn lemma_attribute_in_list(s: Seq<AttributeSpec>, i: int, gid: Seq<char>, path: Seq<char>, x: ErrorView)
    requires
        0 <= i < s.len(),
        spec_attribute_errors(s[i], gid, path).contains(x),
    ensures
        spec_attributes_errors(s, gid, path).contains(x),
    decreases s.len(),
{
    let d = s.drop_last();
    if i == s.len() - 1 {
        lemma_contains_join(spec_attributes_errors(d, gid, path), spec_attribute_errors(s.last(), gid, path), x);
    } else {
        assert(d[i] == s[i]);
        lemma_attribute_in_list(d, i, gid, path, x);
        lemma_contains_join(spec_attributes_errors(d, gid, path), spec_attribute_errors(s.last(), gid, path), x);
    }
}

/// An error of one attribute of a group is reported for the group.
proof fn lemma_group_attribute_part(g: GroupSpec, path: Seq<char>, i: int, x: ErrorView)
    requires
        0 <= i < g.attributes@.len(),
        spec_attribute_errors(g.attributes@[i], g.id@, path).contains(x),
    ensures
        spec_group_errors(g, path).contains(x),
{
    let at = spec_attributes_errors(g.attributes@, g.id@, path);
    lemma_attribute_in_list(g.attributes@, i, g.id@, path, x);
    let rest = crate::group::spec_group_shape_errors(g, path) + spec_event_errors(g, path) + spec_metric_errors(g, path);
    assert(spec_group_errors(g, path) == rest + at);
    lemma_contains_join(rest, at, x);
}

/// Validating a group reports, for each attribute it defines: a missing
/// brief on an attribute that is not deprecated (an error); a missing or a
/// deprecated stability (a warning); an enum that still allows custom
/// values (an error); a string or string array without examples (a
/// warning); and every problem found with its examples.
pub proof fn law_attribute_checks_are_reported(g: GroupSpec, path: Seq<char>, i: int)
    requires
        0 <= i < g.attributes@.len(),
    ensures
        g.attributes@[i] is Id && g.attributes@[i]->Id_brief is None && g.attributes@[i]->Id_deprecated is None ==> spec_group_errors(g, path).contains(
            ev(
                ErrorKind::InvalidAttribute,
                seq![
                    path,
                    g.id@,
                    crate::attribute::spec_attribute_id(g.attributes@[i]),
                    "This attribute is not deprecated and does not contain a brief field."@,
                ],
            ),
        ),
        g.attributes@[i] is Id && g.attributes@[i]->Id_stability is None
            ==> spec_group_errors(g, path).contains(
            ev(ErrorKind::InvalidAttributeWarning, seq![path, g.id@, crate::attribute::spec_attribute_id(g.attributes@[i]), "Missing stability field."@]),
        ),
        g.attributes@[i] is Id && g.attributes@[i]->Id_stability == Some(Stability::Deprecated) ==> spec_group_errors(g, path).contains(
            ev(
                ErrorKind::InvalidAttributeWarning,
                seq![
                    path,
                    g.id@,
                    crate::attribute::spec_attribute_id(g.attributes@[i]),
                    "Attribute stability is set to 'deprecated' which is no longer supported."@,
                ],
            ),
        ),
        g.attributes@[i] is Id && (g.attributes@[i]->Id_type_ matches AttributeType::Enum { allow_custom_values: Some(_), .. }) ==> spec_group_errors(g, path).contains(
            ev(
                ErrorKind::InvalidAttributeAllowCustomValues,
                seq![
                    path,
                    g.id@,
                    crate::attribute::spec_attribute_id(g.attributes@[i]),
                    "This attribute is an enum using allow_custom_values. This is no longer used."@,
                ],
            ),
        ),
        g.attributes@[i] is Id && g.attributes@[i]->Id_examples is None
            && g.attributes@[i]->Id_type_ == AttributeType::PrimitiveOrArray(crate::attribute::PrimitiveOrArrayTypeSpec::String)
            ==> spec_group_errors(g, path).contains(
            ev(
                ErrorKind::InvalidExampleWarning,
                seq![path, g.id@, crate::attribute::spec_attribute_id(g.attributes@[i]), "This attribute is a string but it does not contain any examples."@],
            ),
        ),
        g.attributes@[i] is Id && g.attributes@[i]->Id_examples is None
            && g.attributes@[i]->Id_type_ == AttributeType::PrimitiveOrArray(crate::attribute::PrimitiveOrArrayTypeSpec::Strings)
            ==> spec_group_errors(g, path).contains(
            ev(
                ErrorKind::InvalidExampleWarning,
                seq![
                    path,
                    g.id@,
                    crate::attribute::spec_attribute_id(g.attributes@[i]),
                    "This attribute is a string array but it does not contain any examples."@,
                ],
            ),
        ),
        g.attributes@[i] is Id && g.attributes@[i]->Id_examples is Some ==> forall|e: ErrorView|
            #[trigger] crate::attribute::spec_examples_errors(
                g.attributes@[i]->Id_examples->0,
                g.attributes@[i]->Id_type_,
                g.id@,
                crate::attribute::spec_attribute_id(g.attributes@[i]),
                path,
            ).contains(e)
                ==> spec_group_errors(g, path).contains(e),
{
    let gid = g.id@;
    let a = g.attributes@[i];
    if let AttributeSpec::Id { id, type_, brief, examples, stability, deprecated, .. } = a {
        let aid = id@;
        let p0 = crate::group::if_error(
            brief is None && deprecated is None,
            ev(
                ErrorKind::InvalidAttribute,
                seq![path, gid, aid, "This attribute is not deprecated and does not contain a brief field."@],
            ),
        );
        let p1 = crate::group::spec_attribute_stability_errors(stability, aid, gid, path);
        let p2 = match type_ {
            AttributeType::Enum { members, .. } => spec_member_errors(members@, aid, gid, path),
            _ => Seq::empty(),
        };
        let p3 = crate::group::spec_attribute_example_errors(examples, type_, aid, gid, path);
        let p4 = crate::group::if_error(
            type_ matches AttributeType::Enum { allow_custom_values: Some(_), .. },
            ev(
                ErrorKind::InvalidAttributeAllowCustomValues,
                seq![
                    path,
                    gid,
                    aid,
                    "This attribute is an enum using allow_custom_values. This is no longer used."@,
                ],
            ),
        );
        let all = spec_attribute_errors(a, gid, path);
        assert(all == p0 + p1 + p2 + p3 + p4);
        assert forall|x: ErrorView|
            p0.contains(x) || p1.contains(x) || p3.contains(x) || p4.contains(x) implies spec_group_errors(
            g,
            path,
        ).contains(x) by {
            lemma_contains_join(p0, p1, x);
            lemma_contains_join(p0 + p1, p2, x);
            lemma_contains_join(p0 + p1 + p2, p3, x);
            lemma_contains_join(p0 + p1 + p2 + p3, p4, x);
            lemma_group_attribute_part(g, path, i, x);
        }
        if brief is None && deprecated is None {
            assert(p0[0] == ev(
                ErrorKind::InvalidAttribute,
                seq![path, gid, aid, "This attribute is not deprecated and does not contain a brief field."@],
            ));
            assert(p0.contains(p0[0]));
        }
        if stability is None || stability == Some(Stability::Deprecated) {
            assert(p1.contains(p1[0]));
        }
        if type_ matches AttributeType::Enum { allow_custom_values: Some(_), .. } {
            assert(p4.contains(p4[0]));
        }
        if examples is None {
            let q0 = crate::group::if_error(
                type_ == AttributeType::PrimitiveOrArray(crate::attribute::PrimitiveOrArrayTypeSpec::String),
                ev(
                    ErrorKind::InvalidExampleWarning,
                    seq![path, gid, aid, "This attribute is a string but it does not contain any examples."@],
                ),
            );
            let q1 = crate::group::if_error(
                type_ == AttributeType::PrimitiveOrArray(crate::attribute::PrimitiveOrArrayTypeSpec::Strings),
                ev(
                    ErrorKind::InvalidExampleWarning,
                    seq![
                        path,
                        gid,
                        aid,
                        "This attribute is a string array but it does not contain any examples."@,
                    ],
                ),
            );
            assert(p3 == q0 + q1);
            if q0.len() > 0 {
                assert(p3[0] == q0[0]);
                assert(p3.contains(q0[0]));
            }
            if q1.len() > 0 {
                assert(p3[q0.len() as int] == q1[0]);
                assert(p3.contains(q1[0]));
            }
        }
    }
}

/// The referenced ids of a list hold the id of each of its references.
proof fn lemma_ref_ids_hold(s: Seq<AttributeSpec>, i: int)
    requires
        0 <= i < s.len(),
        s[i] is Ref,
    ensures
        crate::group::spec_ref_ids(s).contains(s[i]->Ref_ref_@),
    decreases s.len(),
{
    let d = s.drop_last();
    if i == s.len() - 1 {
        let r = crate::group::spec_ref_ids(d).push(s[i]->Ref_ref_@);
        assert(r[r.len() - 1] == s[i]->Ref_ref_@);
    } else {
        assert(d[i] == s[i]);
        lemma_ref_ids_hold(d, i);
        let k = choose|k: int| 0 <= k < crate::group::spec_ref_ids(d).len() && crate::group::spec_ref_ids(d)[k]
            == s[i]->Ref_ref_@;
        match s.last() {
            AttributeSpec::Ref { ref_, .. } => {
                assert(crate::group::spec_ref_ids(s)[k] == s[i]->Ref_ref_@);
            },
            AttributeSpec::Id { .. } => {},
        }
    }
}

/// A reference that repeats an earlier reference of the list is reported.
proof fn lemma_duplicate_reported(s: Seq<AttributeSpec>, i: int, j: int, gid: Seq<char>, path: Seq<char>)
    requires
        0 <= i < j < s.len(),
        s[i] is Ref,
        s[j] is Ref,
        s[i]->Ref_ref_@ == s[j]->Ref_ref_@,
    ensures
        spec_duplicate_ref_errors(s, gid, path).contains(
            ev(ErrorKind::InvalidGroupDuplicateAttributeRef, seq![path, gid, s[j]->Ref_ref_@]),
        ),
    decreases s.len(),
{
    let d = s.drop_last();
    let x = ev(ErrorKind::InvalidGroupDuplicateAttributeRef, seq![path, gid, s[j]->Ref_ref_@]);
    if j == s.len() - 1 {
        assert(d[i] == s[i]);
        lemma_ref_ids_hold(d, i);
        let e = crate::group::if_error(crate::group::spec_ref_ids(d).contains(s[j]->Ref_ref_@), x);
        assert(e[0] == x);
        lemma_contains_join(spec_duplicate_ref_errors(d, gid, path), e, x);
    } else {
        assert(d[i] == s[i] && d[j] == s[j]);
        lemma_duplicate_reported(d, i, j, gid, path);
        match s.last() {
            AttributeSpec::Ref { ref_, .. } => {
                lemma_contains_join(
                    spec_duplicate_ref_errors(d, gid, path),
                    crate::group::if_error(
                        crate::group::spec_ref_ids(d).contains(ref_@),
                        ev(ErrorKind::InvalidGroupDuplicateAttributeRef, seq![path, gid, ref_@]),
                    ),
                    x,
                );
            },
            AttributeSpec::Id { .. } => {},
        }
    }
}

/// Validating a group reports every reference to an attribute that an
/// earlier reference of the group already made.
pub proof fn law_duplicate_references_are_reported(g: GroupSpec, path: Seq<char>, i: int, j: int)
    requires
        0 <= i < j < g.attributes@.len(),
        g.attributes@[i] is Ref,
        g.attributes@[j] is Ref,
        g.attributes@[i]->Ref_ref_@ == g.attributes@[j]->Ref_ref_@,
    ensures
        spec_group_errors(g, path).contains(
            ev(
                ErrorKind::InvalidGroupDuplicateAttributeRef,
                seq![path, g.id@, g.attributes@[j]->Ref_ref_@],
            ),
        ),
{
    let x = ev(ErrorKind::InvalidGroupDuplicateAttributeRef, seq![path, g.id@, g.attributes@[j]->Ref_ref_@]);
    lemma_duplicate_reported(g.attributes@, i, j, g.id@, path);
    lemma_group_part(g, path, x);
}

/// The signals counted as lacking a requirement level are exactly those
/// without one, each of them in its place.
pub proof fn law_missing_level_flags(spec: SemConvSpecV2)
    ensures
        metric_missing(spec.metrics@).len() == spec.metrics@.len(),
        span_missing(spec.spans@).len() == spec.spans@.len(),
        event_missing(spec.events@).len() == spec.events@.len(),
        entity_missing(spec.entities@).len() == spec.entities@.len(),
        forall|i: int|
            0 <= i < spec.metrics@.len() ==> (#[trigger] metric_missing(spec.metrics@)[i]
                <==> spec.metrics@[i].requirement_level is None),
        forall|i: int|
            0 <= i < spec.spans@.len() ==> (#[trigger] span_missing(spec.spans@)[i]
                <==> spec.spans@[i].requirement_level is None),
        forall|i: int|
            0 <= i < spec.events@.len() ==> (#[trigger] event_missing(spec.events@)[i]
                <==> spec.events@[i].requirement_level is None),
        forall|i: int|
            0 <= i < spec.entities@.len() ==> (#[trigger] entity_missing(spec.entities@)[i]
                <==> spec.entities@[i].requirement_level is None),
{
}

/// Validating an event group whose body has no stability reports it, with
/// the file, the group and the body's id.
pub proof fn law_event_body_without_stability_is_reported(g: GroupSpec, path: Seq<char>)
    requires
        g.type_ == GroupType::Event,
        g.body matches Some(b) && crate::any_value::spec_common(b).stability is None,
    ensures
        spec_group_errors(g, path).contains(
            ev(
                ErrorKind::InvalidAnyValue,
                seq![path, g.id@, crate::any_value::spec_any_value_id(g.body->0), "Missing stability field."@],
            ),
        ),
{
    let b = g.body->0;
    let gid = g.id@;
    let x = ev(
        ErrorKind::InvalidAnyValue,
        seq![path, gid, crate::any_value::spec_any_value_id(b), "Missing stability field."@],
    );
    let q1 = crate::group::if_error(
        g.body is Some && g.name is None,
        ev(
            ErrorKind::InvalidGroup,
            seq![
                path,
                gid,
                "This group contains an event type with a body definition but the name is not set."@,
            ],
        ),
    );
    let q2 = crate::group::if_error(
        g.body is None && g.name is None && g.prefix@.len() == 0,
        ev(
            ErrorKind::InvalidGroup,
            seq![
                path,
                gid,
                "This group contains an event type but the name is not set and no prefix is defined."@,
            ],
        ),
    );
    let av = spec_any_value_errors(b, gid, path);
    let ax = spec_any_value_example_errors(b, gid, path);
    assert(spec_event_errors(g, path) == q1 + q2 + (av + ax));
    let first = crate::group::if_error(true, x);
    let rest = av.subrange(1, av.len() as int);
    assert(av =~= first + rest);
    lemma_if_error_holds(true, x);
    lemma_contains_join(first, rest, x);
    lemma_contains_join(av, ax, x);
    lemma_contains_join(q1 + q2, av + ax, x);
    lemma_group_part(g, path, x);
}

} // verus!
