//! Properties that relate several operations of the library or hold of
//! every input: type compatibility, span name templates, search scores and
//! pages, suggestions, namespaces, schema URLs and provenance paths.

use vstd::prelude::*;
use crate::attribute::{spec_any_value_examples_errors, spec_examples_errors, AttributeType, Examples, PrimitiveOrArrayTypeSpec, TemplateTypeSpec};
use crate::error::ErrorKind;
use crate::provenance::forward_slashes;
use crate::schema_url::{spec_url_of_name_version, starts_with_http, strip_trailing_slashes};
use crate::search::{spec_base_score, spec_score};
use crate::suggest::{
    distinct_keys, exact_stage, normalize_separators, fuzzy_candidates, fuzzy_stage, key_insert_pos, normalized_stage,
    overlapping, prefix_search, prefix_stage, prefixed, score_insert_pos, segment_starts,
    sort_by_key, sort_by_score, spec_all_suggestions, spec_suggest, suggested_keys, text_less,
    token_stage, AttributeSummary, SuggestionView,
};
use crate::registry_search::{
    first_occurrence_from, in_index, indexed, longest_template, ns_pos, remainder, ItemKind, sort_ns_by_key, IndexKind, NamespaceAttributeView,
    at_most, browse_page, capped_limit, checked_keys, insert_distinct, is_selected, matching,
    namespace_info, search_results, selection, browse_walk, text_pos, ItemView,
};
use crate::search::SearchType;
use crate::stability::Stability;
use crate::text::starts_with_seq;
use crate::v2::span::{
    is_brace, lemma_next_brace, lookup, next_brace, placeholder_names, scan_from, spec_evaluate,
    spec_render, parts_view, PartView, SpanNameTemplate,
};

verus! {

/// Compatibility of types is symmetric.
pub proof fn law_compatibility_is_symmetric(a: PrimitiveOrArrayTypeSpec, b: PrimitiveOrArrayTypeSpec)
    ensures
        a.spec_is_compatible(b) == b.spec_is_compatible(a),
{
}

/// Every type is compatible with itself, and `any` with every type.
pub proof fn law_compatibility_reflexive_and_any(a: PrimitiveOrArrayTypeSpec)
    ensures
        a.spec_is_compatible(a),
        PrimitiveOrArrayTypeSpec::Any.spec_is_compatible(a),
{
}

/// Two types of which neither is `any` are compatible only when they are
/// the same type.
pub proof fn law_distinct_types_are_incompatible(a: PrimitiveOrArrayTypeSpec, b: PrimitiveOrArrayTypeSpec)
    requires
        a != PrimitiveOrArrayTypeSpec::Any,
        b != PrimitiveOrArrayTypeSpec::Any,
        a != b,
    ensures
        !a.spec_is_compatible(b),
{
}

/// A non-empty pattern without braces is one literal component: it has no
/// placeholder and renders as itself, whatever the attribute values.
pub proof fn law_literal_template(s: Seq<char>, values: Seq<(String, String)>)
    requires
        s.len() > 0,
        forall|i: int| 0 <= i < s.len() ==> !is_brace(#[trigger] s[i]),
    ensures
        scan_from(s, 0) == Ok::<Seq<PartView>, crate::v2::span::ScanError>(seq![PartView::Literal(s)]),
        placeholder_names(seq![PartView::Literal(s)]).len() == 0,
        spec_render(seq![PartView::Literal(s)], values) == Some(s),
{
    lemma_next_brace(s, 0);
    lemma_next_brace(s, 1);
    assert(next_brace(s, 0) == s.len()) by {
        if next_brace(s, 0) < s.len() {
            assert(is_brace(s[next_brace(s, 0)]));
        }
    }
    assert(scan_from(s, s.len() as int) == Ok::<Seq<PartView>, crate::v2::span::ScanError>(
        Seq::empty(),
    ));
    assert(s.subrange(0, s.len() as int) =~= s);
    let parts = seq![PartView::Literal(s)];
    assert(parts + Seq::<PartView>::empty() =~= parts);
    assert(parts.drop_last() =~= Seq::<PartView>::empty());
    assert(parts.last() == PartView::Literal(s));
    assert(placeholder_names(Seq::<PartView>::empty()) =~= Seq::<Seq<char>>::empty());
    assert(spec_render(Seq::<PartView>::empty(), values) == Some(Seq::<char>::empty()));
    assert(Seq::<char>::empty() + s =~= s);
}

/// A placeholder lacks a value: the table has none for it, or an empty one.
pub open spec fn lacks_value(p: PartView, values: Seq<(String, String)>) -> bool {
    match p {
        PartView::Attribute(a) => match lookup(values, a) {
            Some(v) => v.len() == 0,
            None => true,
        },
        PartView::Literal(_) => false,
    }
}

/// Rendering fails exactly when some placeholder of the template lacks a
/// value.
pub proof fn law_render_fails_iff_value_missing(parts: Seq<PartView>, values: Seq<(String, String)>)
    ensures
        spec_render(parts, values) is None <==> exists|i: int|
            0 <= i < parts.len() && lacks_value(#[trigger] parts[i], values),
    decreases parts.len(),
{
    if parts.len() > 0 {
        let init = parts.drop_last();
        law_render_fails_iff_value_missing(init, values);
        if spec_render(init, values) is None {
            let i = choose|i: int| 0 <= i < init.len() && lacks_value(#[trigger] init[i], values);
            assert(parts[i] == init[i]);
        } else {
            if exists|i: int| 0 <= i < parts.len() && lacks_value(#[trigger] parts[i], values) {
                let i = choose|i: int| 0 <= i < parts.len() && lacks_value(#[trigger] parts[i], values);
                if i < parts.len() - 1 {
                    assert(init[i] == parts[i]);
                }
            }
            if lacks_value(parts.last(), values) {
                assert(lacks_value(parts[parts.len() - 1], values));
            }
        }
    }
}

/// Evaluating templates gives the rendering of the first template that
/// renders: every earlier template fails to render.
pub proof fn law_evaluate_takes_first_rendering(
    templates: Seq<SpanNameTemplate>,
    values: Seq<(String, String)>,
)
    ensures
        spec_evaluate(templates, values) is Some ==> exists|k: int|
            0 <= k < templates.len() && spec_render(parts_view(templates[k].parts@), values)
                == spec_evaluate(templates, values) && forall|j: int|
                0 <= j < k ==> spec_render(parts_view(#[trigger] templates[j].parts@), values) is None,
        spec_evaluate(templates, values) is None ==> forall|j: int|
            0 <= j < templates.len() ==> spec_render(parts_view(#[trigger] templates[j].parts@), values) is None,
    decreases templates.len(),
{
    if templates.len() > 0 {
        let rest = templates.drop_first();
        law_evaluate_takes_first_rendering(rest, values);
        if spec_render(parts_view(templates[0].parts@), values) is Some {
            assert(spec_render(parts_view(templates[0].parts@), values) == spec_evaluate(templates, values));
        } else {
            if spec_evaluate(templates, values) is Some {
                let k = choose|k: int|
                    0 <= k < rest.len() && spec_render(parts_view(rest[k].parts@), values) == spec_evaluate(
                        rest,
                        values,
                    ) && forall|j: int|
                        0 <= j < k ==> spec_render(parts_view(#[trigger] rest[j].parts@), values) is None;
                assert(templates[k + 1] == rest[k]);
                assert forall|j: int| 0 <= j < k + 1 implies spec_render(
                    parts_view(#[trigger] templates[j].parts@),
                    values,
                ) is None by {
                    if j > 0 {
                        assert(templates[j] == rest[j - 1]);
                    }
                }
            } else {
                assert forall|j: int| 0 <= j < templates.len() implies spec_render(
                    parts_view(#[trigger] templates[j].parts@),
                    values,
                ) is None by {
                    if j > 0 {
                        assert(templates[j] == rest[j - 1]);
                    }
                }
            }
        }
    }
}

/// Scores lie between 0 and 100, an identifier equal to the query scores
/// 100, and no other item scores more than an exact match.
pub proof fn law_score_bounds(
    query: Seq<char>,
    id: Seq<char>,
    brief: Seq<char>,
    note: Seq<char>,
    deprecated: bool,
    sep: Seq<char>,
)
    ensures
        spec_score(query, id, brief, note, deprecated, sep) <= 100,
        spec_base_score(query, query, brief, note, sep) == 100,
{
}

/// Deprecation demotes: a deprecated item scores a tenth of what the same
/// item not deprecated scores (at least 1 when that one scores), never
/// more, and still scores when that one does.
pub proof fn law_deprecated_items_are_demoted(
    query: Seq<char>,
    id: Seq<char>,
    brief: Seq<char>,
    note: Seq<char>,
    sep: Seq<char>,
)
    ensures
        spec_score(query, id, brief, note, true, sep) <= spec_score(query, id, brief, note, false, sep),
        spec_score(query, id, brief, note, true, sep) > 0 <==> spec_score(query, id, brief, note, false, sep) > 0,
        spec_score(query, id, brief, note, false, sep) == spec_base_score(query, id, brief, note, sep),
        ({
            let b = spec_base_score(query, id, brief, note, sep);
            spec_score(query, id, brief, note, true, sep) == if b == 0 {
                0
            } else if b < 10 {
                1
            } else {
                b / 10
            }
        }),
{
}

/// Trailing `/` on a registry name do not change the schema URL built from
/// it (for names of at least eight characters, whose scheme the added `/`
/// cannot complete).
pub proof fn law_name_trailing_slash_ignored(name: Seq<char>, version: Seq<char>)
    requires
        name.len() >= 8,
    ensures
        spec_url_of_name_version(name.push('/'), version) == spec_url_of_name_version(name, version),
{
    reveal_strlit("http://");
    reveal_strlit("https://");
    let n2 = name.push('/');
    assert(n2.drop_last() =~= name);
    assert(strip_trailing_slashes(n2) == strip_trailing_slashes(name));
    assert(n2.subrange(0, 7) =~= name.subrange(0, 7));
    assert(n2.subrange(0, 8) =~= name.subrange(0, 8));
    assert(starts_with_seq(n2, "http://"@) == starts_with_seq(name, "http://"@));
    assert(starts_with_seq(n2, "https://"@) == starts_with_seq(name, "https://"@));
    assert(starts_with_http(n2) == starts_with_http(name));
}

/// A provenance path holds no `\`, and normalizing it again changes nothing.
pub proof fn law_forward_slashes_idempotent(p: Seq<char>)
    ensures
        forall|i: int| 0 <= i < p.len() ==> #[trigger] forward_slashes(p)[i] != '\\',
        forward_slashes(forward_slashes(p)) == forward_slashes(p),
{
    assert(forward_slashes(forward_slashes(p)) =~= forward_slashes(p));
}

/// Suggestions never exceed the limit asked for, nor 20.
pub proof fn law_suggestions_are_bounded(
    attrs: Seq<AttributeSummary>,
    sep: Seq<char>,
    name: Seq<char>,
    limit: usize,
)
    ensures
        spec_suggest(attrs, sep, name, limit).len() <= limit,
        spec_suggest(attrs, sep, name, limit).len() <= 20,
{
}

/// A search never returns more results than asked for, nor more than 200,
/// nor more than the number of items it reports as found.
pub proof fn law_search_results_are_capped(
    items: Seq<ItemView>,
    query: Option<Seq<char>>,
    ty: SearchType,
    stability: Option<Stability>,
    limit: usize,
    offset: usize,
    sep: Seq<char>,
)
    ensures
        search_results(items, query, ty, stability, limit, offset, sep).0.len() <= limit,
        search_results(items, query, ty, stability, limit, offset, sep).0.len() <= 200,
        search_results(items, query, ty, stability, limit, offset, sep).0.len() <= search_results(
            items,
            query,
            ty,
            stability,
            limit,
            offset,
            sep,
        ).1,
{
}

/// The scores of `s` never increase from one element to a later one.
pub open spec fn best_first<T>(s: Seq<(u32, T)>) -> bool {
    forall|i: int, j: int| 0 <= i < j < s.len() ==> #[trigger] s[i].0 >= #[trigger] s[j].0
}

/// In a best-first sequence, the elements before the insertion position
/// score at least as much as the inserted one, and those after less.
proof fn lemma_insert_pos_bounds<T>(sorted: Seq<(u32, T)>, x: (u32, T))
    requires
        best_first(sorted),
    ensures
        0 <= score_insert_pos(sorted, x) <= sorted.len(),
        forall|k: int| 0 <= k < score_insert_pos(sorted, x) ==> #[trigger] sorted[k].0 >= x.0,
        forall|k: int| score_insert_pos(sorted, x) <= k < sorted.len() ==> #[trigger] sorted[k].0 < x.0,
    decreases sorted.len(),
{
    if sorted.len() > 0 && !(sorted[0].0 < x.0) {
        let rest = sorted.drop_first();
        assert forall|i: int, j: int| 0 <= i < j < rest.len() implies #[trigger] rest[i].0
            >= #[trigger] rest[j].0 by {
            assert(sorted[i + 1].0 >= sorted[j + 1].0);
        }
        lemma_insert_pos_bounds(rest, x);
        assert forall|k: int| 0 <= k < score_insert_pos(sorted, x) implies #[trigger] sorted[k].0
            >= x.0 by {
            if k > 0 {
                assert(sorted[k] == rest[k - 1]);
            }
        }
        assert forall|k: int| score_insert_pos(sorted, x) <= k < sorted.len() implies #[trigger] sorted[k].0
            < x.0 by {
            assert(sorted[k] == rest[k - 1]);
        }
    } else if sorted.len() > 0 {
        assert forall|k: int| 0 <= k < sorted.len() implies #[trigger] sorted[k].0 < x.0 by {
            if k > 0 {
                assert(sorted[0].0 >= sorted[k].0);
            }
        }
    }
}

/// Sorting by score gives a best-first sequence of the same length.
proof fn lemma_sort_by_score_best_first<T>(s: Seq<(u32, T)>)
    ensures
        best_first(sort_by_score(s)),
        sort_by_score(s).len() == s.len(),
    decreases s.len(),
{
    if s.len() > 0 {
        let r = sort_by_score(s.drop_last());
        lemma_sort_by_score_best_first(s.drop_last());
        let x = s.last();
        lemma_insert_pos_bounds(r, x);
        let p = score_insert_pos(r, x);
        let t = r.insert(p, x);
        assert forall|i: int, j: int| 0 <= i < j < t.len() implies #[trigger] t[i].0
            >= #[trigger] t[j].0 by {
            if i < p {
                if j < p {
                    assert(t[i] == r[i] && t[j] == r[j]);
                } else if j == p {
                    assert(t[i] == r[i]);
                } else {
                    assert(t[i] == r[i] && t[j] == r[j - 1]);
                }
            } else if i == p {
                assert(t[j] == r[j - 1]);
            } else {
                assert(t[i] == r[i - 1] && t[j] == r[j - 1]);
            }
        }
    }
}

/// The results of a search with a non-empty query come best first.
pub proof fn law_ranked_results_come_best_first(
    items: Seq<ItemView>,
    query: Seq<char>,
    ty: SearchType,
    stability: Option<Stability>,
    limit: usize,
    offset: usize,
    sep: Seq<char>,
)
    requires
        query.len() > 0,
    ensures
        best_first(search_results(items, Some(query), ty, stability, limit, offset, sep).0),
{
    let sel = crate::registry_search::selection(items, ty, stability);
    let m = crate::registry_search::matching(sel, query, sep);
    lemma_sort_by_score_best_first(m);
    let ranked = sort_by_score(m);
    let lo = at_most(offset as int, ranked.len() as int);
    let r = search_results(items, Some(query), ty, stability, limit, offset, sep).0;
    assert forall|i: int, j: int| 0 <= i < j < r.len() implies #[trigger] r[i].0 >= #[trigger] r[j].0 by {
        assert(r[i] == ranked[lo + i] && r[j] == ranked[lo + j]);
    }
}

/// Every key checked is reported once, either found or missing: the
/// missing ones are, in order, the keys that neither an attribute nor a
/// template describes, and the found ones are the others, in order, each
/// with the attribute (or template) that describes it.
pub proof fn law_checked_keys_are_partitioned(items: Seq<ItemView>, keys: Seq<Seq<char>>)
    ensures
        checked_keys(items, keys).0.len() + checked_keys(items, keys).1.len() == keys.len(),
        checked_keys(items, keys).1 == keys.filter(
            |k: Seq<char>| crate::registry_search::resolve_key(items, k) is None,
        ),
        checked_keys(items, keys).0 == keys.filter(
            |k: Seq<char>| crate::registry_search::resolve_key(items, k) is Some,
        ).map_values(
            |k: Seq<char>| crate::registry_search::ns_attribute(
                k,
                crate::registry_search::resolve_key(items, k)->0,
            ),
        ),
    decreases keys.len(),
{
    reveal(Seq::filter);
    let missing = |k: Seq<char>| crate::registry_search::resolve_key(items, k) is None;
    let found = |k: Seq<char>| crate::registry_search::resolve_key(items, k) is Some;
    let view = |k: Seq<char>| crate::registry_search::ns_attribute(
        k,
        crate::registry_search::resolve_key(items, k)->0,
    );
    if keys.len() > 0 {
        law_checked_keys_are_partitioned(items, keys.drop_last());
        let k = keys.last();
        let f = keys.drop_last().filter(found);
        if found(k) {
            assert(f.push(k).map_values(view) =~= f.map_values(view).push(view(k)));
        }
    } else {
        assert(keys.filter(found).map_values(view) =~= Seq::<NamespaceAttributeView>::empty());
    }
}

/// No text comes before itself.
proof fn lemma_text_less_irreflexive(a: Seq<char>)
    ensures
        !text_less(a, a),
    decreases a.len(),
{
    if a.len() > 0 {
        lemma_text_less_irreflexive(a.drop_first());
    }
}

/// The order of texts is transitive.
proof fn lemma_text_less_transitive(a: Seq<char>, b: Seq<char>, c: Seq<char>)
    requires
        text_less(a, b),
        text_less(b, c),
    ensures
        text_less(a, c),
    decreases a.len(),
{
    if a.len() > 0 && b.len() > 0 && c.len() > 0 && a[0] == b[0] && b[0] == c[0] {
        lemma_text_less_transitive(a.drop_first(), b.drop_first(), c.drop_first());
    }
}

/// Of two different texts, one comes before the other.
proof fn lemma_text_less_total(a: Seq<char>, b: Seq<char>)
    requires
        a != b,
    ensures
        text_less(a, b) || text_less(b, a),
    decreases a.len(),
{
    if a.len() > 0 && b.len() > 0 && a[0] == b[0] {
        if a.drop_first() == b.drop_first() {
            assert(a =~= seq![a[0]] + a.drop_first());
            assert(b =~= seq![b[0]] + b.drop_first());
        }
        lemma_text_less_total(a.drop_first(), b.drop_first());
    } else if a.len() == 0 && b.len() == 0 {
        assert(a =~= b);
    } else if a.len() > 0 && b.len() > 0 {
        assert(a[0] < b[0] || b[0] < a[0]);
    }
}

/// Every text of `s` comes before every later one.
pub open spec fn strictly_sorted(s: Seq<Seq<char>>) -> bool {
    forall|i: int, j: int| 0 <= i < j < s.len() ==> text_less(#[trigger] s[i], #[trigger] s[j])
}

/// In a strictly sorted sequence without `c`, the texts before the
/// insertion position of `c` come before it and the others after it.
proof fn lemma_text_pos_bounds(sorted: Seq<Seq<char>>, c: Seq<char>)
    requires
        strictly_sorted(sorted),
        !sorted.contains(c),
    ensures
        0 <= text_pos(sorted, c) <= sorted.len(),
        forall|k: int| 0 <= k < text_pos(sorted, c) ==> text_less(#[trigger] sorted[k], c),
        forall|k: int| text_pos(sorted, c) <= k < sorted.len() ==> text_less(c, #[trigger] sorted[k]),
    decreases sorted.len(),
{
    if sorted.len() > 0 {
        if text_less(c, sorted[0]) {
            assert forall|k: int| 0 <= k < sorted.len() implies text_less(c, #[trigger] sorted[k]) by {
                if k > 0 {
                    lemma_text_less_transitive(c, sorted[0], sorted[k]);
                }
            }
        } else {
            let rest = sorted.drop_first();
            assert forall|i: int, j: int| 0 <= i < j < rest.len() implies text_less(
                #[trigger] rest[i],
                #[trigger] rest[j],
            ) by {
                assert(text_less(sorted[i + 1], sorted[j + 1]));
            }
            assert(!rest.contains(c)) by {
                if rest.contains(c) {
                    let k = choose|k: int| 0 <= k < rest.len() && rest[k] == c;
                    assert(sorted[k + 1] == c);
                }
            }
            lemma_text_pos_bounds(rest, c);
            assert(sorted[0] != c);
            lemma_text_less_total(sorted[0], c);
            assert forall|k: int| 0 <= k < text_pos(sorted, c) implies text_less(#[trigger] sorted[k], c) by {
                if k > 0 {
                    assert(sorted[k] == rest[k - 1]);
                }
            }
            assert forall|k: int| text_pos(sorted, c) <= k < sorted.len() implies text_less(
                c,
                #[trigger] sorted[k],
            ) by {
                assert(sorted[k] == rest[k - 1]);
            }
        }
    }
}

/// Adding a text keeps a sequence strictly sorted.
proof fn lemma_insert_distinct_sorted(sorted: Seq<Seq<char>>, c: Seq<char>)
    requires
        strictly_sorted(sorted),
    ensures
        strictly_sorted(insert_distinct(sorted, c)),
{
    if !sorted.contains(c) {
        lemma_text_pos_bounds(sorted, c);
        let p = text_pos(sorted, c);
        let t = sorted.insert(p, c);
        assert forall|i: int, j: int| 0 <= i < j < t.len() implies text_less(
            #[trigger] t[i],
            #[trigger] t[j],
        ) by {
            if i < p {
                if j < p {
                    assert(t[i] == sorted[i] && t[j] == sorted[j]);
                } else if j == p {
                    assert(t[i] == sorted[i]);
                } else {
                    assert(t[i] == sorted[i] && t[j] == sorted[j - 1]);
                }
            } else if i == p {
                assert(t[j] == sorted[j - 1]);
            } else {
                assert(t[i] == sorted[i - 1] && t[j] == sorted[j - 1]);
            }
        }
    }
}

/// The child namespaces that a walk gathers are strictly sorted.
proof fn lemma_walk_children_sorted(entries: Seq<ItemView>, prefix: Seq<char>, sep: Seq<char>)
    ensures
        strictly_sorted(browse_walk(entries, prefix, sep).children),
    decreases entries.len(),
{
    if entries.len() > 0 {
        lemma_walk_children_sorted(entries.drop_last(), prefix, sep);
        let r = browse_walk(entries.drop_last(), prefix, sep);
        let e = entries.last();
        if let Some(rest) = crate::registry_search::remainder(e.id, prefix, sep) {
            if let Some(pos) = crate::registry_search::first_occurrence_from(rest, sep, 0) {
                lemma_insert_distinct_sorted(
                    r.children,
                    crate::registry_search::child_namespace(prefix, rest, sep, pos),
                );
            }
        }
    }
}

/// The child namespaces of a namespace come in order, each once.
pub proof fn law_child_namespaces_sorted_and_distinct(
    items: Seq<ItemView>,
    prefix: Option<Seq<char>>,
    sep: Seq<char>,
)
    ensures
        strictly_sorted(namespace_info(items, prefix, sep).child_namespaces),
        forall|i: int, j: int|
            0 <= i < j < namespace_info(items, prefix, sep).child_namespaces.len() ==> namespace_info(
                items,
                prefix,
                sep,
            ).child_namespaces[i] != namespace_info(items, prefix, sep).child_namespaces[j],
{
    let info = namespace_info(items, prefix, sep);
    let p = info.prefix;
    lemma_walk_children_sorted(crate::registry_search::attribute_entries(items), p, sep);
    assert forall|i: int, j: int| 0 <= i < j < info.child_namespaces.len() implies info.child_namespaces[i]
        != info.child_namespaces[j] by {
        if info.child_namespaces[i] == info.child_namespaces[j] {
            lemma_text_less_irreflexive(info.child_namespaces[i]);
        }
    }
}

/// No key is suggested twice.
pub open spec fn keys_distinct(s: Seq<SuggestionView>) -> bool {
    forall|i: int, j: int| 0 <= i < j < s.len() ==> (#[trigger] s[i]).key != (#[trigger] s[j]).key
}

/// Some suggestion has key `k`.
pub open spec fn key_in(s: Seq<SuggestionView>, k: Seq<char>) -> bool {
    exists|i: int| 0 <= i < s.len() && (#[trigger] s[i]).key == k
}

/// No key appears twice among scored suggestions.
pub open spec fn pair_keys_distinct(s: Seq<(u32, SuggestionView)>) -> bool {
    forall|i: int, j: int| 0 <= i < j < s.len() ==> (#[trigger] s[i]).1.key != (#[trigger] s[j]).1.key
}

/// Some scored suggestion has key `k`.
pub open spec fn pair_key_in(s: Seq<(u32, SuggestionView)>, k: Seq<char>) -> bool {
    exists|i: int| 0 <= i < s.len() && (#[trigger] s[i]).1.key == k
}

/// Every suggestion names a key of an attribute that was not suggested yet.
pub open spec fn fresh_keys(s: Seq<SuggestionView>, attrs: Seq<AttributeSummary>, seen: Seq<Seq<char>>) -> bool {
    forall|i: int|
        0 <= i < s.len() ==> !seen.contains((#[trigger] s[i]).key) && exists|j: int|
            0 <= j < attrs.len() && attrs[j].key@ == s[i].key
}

/// Dropping the last attribute keeps the keys distinct, and that attribute's
/// key is none of the others.
proof fn lemma_distinct_prefix(attrs: Seq<AttributeSummary>)
    requires
        distinct_keys(attrs),
        attrs.len() > 0,
    ensures
        distinct_keys(attrs.drop_last()),
        forall|j: int| 0 <= j < attrs.len() - 1 ==> (#[trigger] attrs[j]).key@ != attrs.last().key@,
{
    assert forall|j: int| 0 <= j < attrs.len() - 1 implies (#[trigger] attrs[j]).key@
        != attrs.last().key@ by {
        assert(attrs[j].key@ != attrs[attrs.len() - 1].key@);
    }
    let d = attrs.drop_last();
    assert forall|i: int, j: int|
        0 <= i < d.len() && 0 <= j < d.len() && i != j implies (#[trigger] d[i]).key@
        != (#[trigger] d[j]).key@ by {
        assert(attrs[i].key@ != attrs[j].key@);
    }
}

/// Adding the suggestion of the last attribute keeps the suggestions fresh
/// and their keys distinct.
proof fn lemma_push_fresh(r: Seq<SuggestionView>, attrs: Seq<AttributeSummary>, seen: Seq<Seq<char>>, x: SuggestionView)
    requires
        attrs.len() > 0,
        keys_distinct(r),
        fresh_keys(r, attrs.drop_last(), seen),
        forall|j: int| 0 <= j < attrs.len() - 1 ==> (#[trigger] attrs[j]).key@ != attrs.last().key@,
        x.key == attrs.last().key@,
        !seen.contains(x.key),
    ensures
        keys_distinct(r.push(x)),
        fresh_keys(r.push(x), attrs, seen),
{
    let t = r.push(x);
    assert forall|i: int| 0 <= i < t.len() implies !seen.contains((#[trigger] t[i]).key) && exists|j: int|
        0 <= j < attrs.len() && attrs[j].key@ == t[i].key by {
        if i < r.len() {
            assert(t[i] == r[i]);
            let j = choose|j: int| 0 <= j < attrs.drop_last().len() && attrs.drop_last()[j].key@ == r[i].key;
            assert(attrs[j] == attrs.drop_last()[j]);
        } else {
            assert(attrs[attrs.len() - 1].key@ == t[i].key);
        }
    }
    assert forall|i: int, j: int| 0 <= i < j < t.len() implies (#[trigger] t[i]).key != (#[trigger] t[j]).key by {
        if j < r.len() {
            assert(t[i] == r[i] && t[j] == r[j]);
        } else {
            assert(t[i] == r[i]);
            let k = choose|k: int| 0 <= k < attrs.drop_last().len() && attrs.drop_last()[k].key@ == r[i].key;
            assert(attrs[k] == attrs.drop_last()[k]);
        }
    }
}

/// Token overlap suggests fresh keys, each once.
proof fn lemma_overlapping_fresh(
    attrs: Seq<AttributeSummary>,
    seen: Seq<Seq<char>>,
    name: Seq<char>,
    sep: Seq<char>,
)
    requires
        distinct_keys(attrs),
    ensures
        keys_distinct(overlapping(attrs, seen, name, sep)),
        fresh_keys(overlapping(attrs, seen, name, sep), attrs, seen),
    decreases attrs.len(),
{
    if attrs.len() > 0 {
        lemma_distinct_prefix(attrs);
        lemma_overlapping_fresh(attrs.drop_last(), seen, name, sep);
        let r = overlapping(attrs.drop_last(), seen, name, sep);
        let a = attrs.last();
        if !seen.contains(a.key@) && crate::suggest::overlaps(name, a.key@, sep) {
            lemma_push_fresh(r, attrs, seen, crate::suggest::sv(a.key@, a.brief@, crate::suggest::SuggestionReason::TokenOverlap));
        } else {
            lemma_fresh_widen(r, attrs, seen);
        }
    }
}

/// Suggestions fresh for some attributes are fresh for more.
proof fn lemma_fresh_widen(r: Seq<SuggestionView>, attrs: Seq<AttributeSummary>, seen: Seq<Seq<char>>)
    requires
        attrs.len() > 0,
        fresh_keys(r, attrs.drop_last(), seen),
    ensures
        fresh_keys(r, attrs, seen),
{
    assert forall|i: int| 0 <= i < r.len() implies !seen.contains((#[trigger] r[i]).key) && exists|j: int|
        0 <= j < attrs.len() && attrs[j].key@ == r[i].key by {
        let j = choose|j: int| 0 <= j < attrs.drop_last().len() && attrs.drop_last()[j].key@ == r[i].key;
        assert(attrs[j] == attrs.drop_last()[j]);
    }
}

/// Prefix matching suggests fresh keys, each once.
proof fn lemma_prefixed_fresh(attrs: Seq<AttributeSummary>, seen: Seq<Seq<char>>, p: Seq<char>)
    requires
        distinct_keys(attrs),
    ensures
        keys_distinct(prefixed(attrs, seen, p)),
        fresh_keys(prefixed(attrs, seen, p), attrs, seen),
    decreases attrs.len(),
{
    if attrs.len() > 0 {
        lemma_distinct_prefix(attrs);
        lemma_prefixed_fresh(attrs.drop_last(), seen, p);
        let r = prefixed(attrs.drop_last(), seen, p);
        let a = attrs.last();
        if !seen.contains(a.key@) && starts_with_seq(a.key@, p) {
            lemma_push_fresh(r, attrs, seen, crate::suggest::sv(a.key@, a.brief@, crate::suggest::SuggestionReason::SharedPrefix));
        } else {
            lemma_fresh_widen(r, attrs, seen);
        }
    }
}

/// The scored suggestions, as suggestions.
pub open spec fn unscored(s: Seq<(u32, SuggestionView)>) -> Seq<SuggestionView> {
    s.map_values(|p: (u32, SuggestionView)| p.1)
}

/// Search scoring suggests fresh keys, each once.
proof fn lemma_fuzzy_fresh(attrs: Seq<AttributeSummary>, seen: Seq<Seq<char>>, name: Seq<char>, sep: Seq<char>)
    requires
        distinct_keys(attrs),
    ensures
        keys_distinct(unscored(fuzzy_candidates(attrs, seen, name, sep))),
        fresh_keys(unscored(fuzzy_candidates(attrs, seen, name, sep)), attrs, seen),
    decreases attrs.len(),
{
    if attrs.len() > 0 {
        lemma_distinct_prefix(attrs);
        lemma_fuzzy_fresh(attrs.drop_last(), seen, name, sep);
        let r = fuzzy_candidates(attrs.drop_last(), seen, name, sep);
        let a = attrs.last();
        let sc = crate::suggest::attribute_score(a, name, sep);
        if !seen.contains(a.key@) && sc > 0 {
            let x = crate::suggest::sv(a.key@, a.brief@, crate::suggest::SuggestionReason::FuzzySearch);
            assert(unscored(r.push((sc, x))) =~= unscored(r).push(x));
            lemma_push_fresh(unscored(r), attrs, seen, x);
        } else {
            lemma_fresh_widen(unscored(r), attrs, seen);
        }
    }
}

/// The insertion position lies within the sequence.
proof fn lemma_key_pos_bounds(sorted: Seq<SuggestionView>, x: SuggestionView)
    ensures
        0 <= key_insert_pos(sorted, x) <= sorted.len(),
    decreases sorted.len(),
{
    if sorted.len() > 0 {
        lemma_key_pos_bounds(sorted.drop_first(), x);
    }
}

/// Inserting a suggestion with a new key keeps the keys distinct and adds
/// its key.
proof fn lemma_insert_new_key(r: Seq<SuggestionView>, p: int, x: SuggestionView)
    requires
        0 <= p <= r.len(),
        keys_distinct(r),
        !key_in(r, x.key),
    ensures
        keys_distinct(r.insert(p, x)),
        forall|k: Seq<char>| key_in(r.insert(p, x), k) <==> (key_in(r, k) || k == x.key),
{
    let t = r.insert(p, x);
    assert forall|i: int, j: int| 0 <= i < j < t.len() implies (#[trigger] t[i]).key != (#[trigger] t[j]).key by {
        if i < p {
            if j < p {
                assert(t[i] == r[i] && t[j] == r[j]);
            } else if j == p {
                assert(t[i] == r[i]);
            } else {
                assert(t[i] == r[i] && t[j] == r[j - 1]);
            }
        } else if i == p {
            assert(t[j] == r[j - 1]);
        } else {
            assert(t[i] == r[i - 1] && t[j] == r[j - 1]);
        }
    }
    assert forall|k: Seq<char>| key_in(t, k) <==> (key_in(r, k) || k == x.key) by {
        if key_in(t, k) {
            let i = choose|i: int| 0 <= i < t.len() && (#[trigger] t[i]).key == k;
            if i < p {
                assert(t[i] == r[i]);
            } else if i > p {
                assert(t[i] == r[i - 1]);
            }
        }
        if key_in(r, k) {
            let i = choose|i: int| 0 <= i < r.len() && (#[trigger] r[i]).key == k;
            if i < p {
                assert(t[i] == r[i]);
            } else {
                assert(t[i + 1] == r[i]);
            }
        }
        if k == x.key {
            assert(t[p] == x);
        }
    }
}

/// Sorting by key keeps the keys, each once.
proof fn lemma_sort_by_key_keeps_keys(s: Seq<SuggestionView>)
    requires
        keys_distinct(s),
    ensures
        keys_distinct(sort_by_key(s)),
        forall|k: Seq<char>| key_in(sort_by_key(s), k) <==> key_in(s, k),
    decreases s.len(),
{
    if s.len() > 0 {
        let d = s.drop_last();
        assert forall|i: int, j: int| 0 <= i < j < d.len() implies (#[trigger] d[i]).key != (#[trigger] d[j]).key by {
            assert(s[i].key != s[j].key);
        }
        lemma_sort_by_key_keeps_keys(d);
        let r = sort_by_key(d);
        let x = s.last();
        assert(!key_in(d, x.key)) by {
            if key_in(d, x.key) {
                let i = choose|i: int| 0 <= i < d.len() && (#[trigger] d[i]).key == x.key;
                assert(s[i].key != s[s.len() - 1].key);
            }
        }
        lemma_key_pos_bounds(r, x);
        lemma_insert_new_key(r, key_insert_pos(r, x), x);
        assert forall|k: Seq<char>| key_in(s, k) <==> (key_in(d, k) || k == x.key) by {
            if key_in(s, k) {
                let i = choose|i: int| 0 <= i < s.len() && (#[trigger] s[i]).key == k;
                if i < d.len() {
                    assert(d[i] == s[i]);
                }
            }
            if key_in(d, k) {
                let i = choose|i: int| 0 <= i < d.len() && (#[trigger] d[i]).key == k;
                assert(s[i] == d[i]);
            }
            if k == x.key {
                assert(s[s.len() - 1] == x);
            }
        }
    }
}

/// Sorting by score keeps the keys, each once.
proof fn lemma_sort_by_score_keeps_keys(s: Seq<(u32, SuggestionView)>)
    requires
        keys_distinct(unscored(s)),
    ensures
        keys_distinct(unscored(sort_by_score(s))),
        forall|k: Seq<char>| key_in(unscored(sort_by_score(s)), k) <==> key_in(unscored(s), k),
    decreases s.len(),
{
    if s.len() > 0 {
        let d = s.drop_last();
        assert(unscored(d) =~= unscored(s).drop_last());
        assert forall|i: int, j: int| 0 <= i < j < unscored(d).len() implies (#[trigger] unscored(d)[i]).key
            != (#[trigger] unscored(d)[j]).key by {
            assert(unscored(s)[i].key != unscored(s)[j].key);
        }
        lemma_sort_by_score_keeps_keys(d);
        let r = sort_by_score(d);
        let x = s.last();
        lemma_score_pos_bounds(r, x);
        let p = score_insert_pos(r, x);
        assert(unscored(r.insert(p, x)) =~= unscored(r).insert(p, x.1));
        assert(!key_in(unscored(r), x.1.key)) by {
            if key_in(unscored(d), x.1.key) {
                let i = choose|i: int| 0 <= i < unscored(d).len() && (#[trigger] unscored(d)[i]).key == x.1.key;
                assert(unscored(s)[i].key != unscored(s)[s.len() - 1].key);
            }
        }
        lemma_insert_new_key(unscored(r), p, x.1);
        assert(unscored(s) =~= unscored(d).push(x.1));
        assert forall|k: Seq<char>| key_in(unscored(s), k) <==> (key_in(unscored(d), k) || k == x.1.key) by {
            if key_in(unscored(s), k) {
                let i = choose|i: int| 0 <= i < unscored(s).len() && (#[trigger] unscored(s)[i]).key == k;
                if i < d.len() {
                    assert(unscored(d)[i] == unscored(s)[i]);
                }
            }
            if key_in(unscored(d), k) {
                let i = choose|i: int| 0 <= i < unscored(d).len() && (#[trigger] unscored(d)[i]).key == k;
                assert(unscored(s)[i] == unscored(d)[i]);
            }
            if k == x.1.key {
                assert(unscored(s)[s.len() - 1] == x.1);
            }
        }
    }
}

/// A sequence whose keys are in `src` only names keys that `src` names.
proof fn lemma_fresh_through_keys(
    s: Seq<SuggestionView>,
    src: Seq<SuggestionView>,
    attrs: Seq<AttributeSummary>,
    seen: Seq<Seq<char>>,
)
    requires
        fresh_keys(src, attrs, seen),
        forall|k: Seq<char>| key_in(s, k) ==> key_in(src, k),
    ensures
        fresh_keys(s, attrs, seen),
{
    assert forall|i: int| 0 <= i < s.len() implies !seen.contains((#[trigger] s[i]).key) && exists|j: int|
        0 <= j < attrs.len() && attrs[j].key@ == s[i].key by {
        assert(key_in(s, s[i].key));
        let m = choose|m: int| 0 <= m < src.len() && (#[trigger] src[m]).key == s[i].key;
    }
}

/// The longest shared prefix suggests fresh keys, each once.
proof fn lemma_prefix_search_fresh(
    attrs: Seq<AttributeSummary>,
    seen: Seq<Seq<char>>,
    name: Seq<char>,
    starts: Seq<int>,
    k: int,
)
    requires
        distinct_keys(attrs),
    ensures
        keys_distinct(prefix_search(attrs, seen, name, starts, k)),
        fresh_keys(prefix_search(attrs, seen, name, starts, k), attrs, seen),
    decreases k,
{
    if !(k < 1 || k >= starts.len()) {
        let m = prefixed(attrs, seen, name.subrange(0, starts[k]));
        lemma_prefixed_fresh(attrs, seen, name.subrange(0, starts[k]));
        if m.len() > 0 {
            lemma_sort_by_key_keeps_keys(m);
            lemma_fresh_through_keys(sort_by_key(m), m, attrs, seen);
        } else {
            lemma_prefix_search_fresh(attrs, seen, name, starts, k - 1);
        }
    }
}

/// Two sequences with distinct keys, no key of the second being a key of
/// the first, have distinct keys together.
proof fn lemma_append_distinct(a: Seq<SuggestionView>, b: Seq<SuggestionView>)
    requires
        keys_distinct(a),
        keys_distinct(b),
        forall|i: int| 0 <= i < b.len() ==> !suggested_keys(a).contains((#[trigger] b[i]).key),
    ensures
        keys_distinct(a + b),
{
    let t = a + b;
    assert forall|i: int, j: int| 0 <= i < j < t.len() implies (#[trigger] t[i]).key != (#[trigger] t[j]).key by {
        if j < a.len() {
            assert(t[i] == a[i] && t[j] == a[j]);
        } else if i < a.len() {
            assert(t[i] == a[i] && t[j] == b[j - a.len()]);
            assert(suggested_keys(a)[i] == a[i].key);
        } else {
            assert(t[i] == b[i - a.len()] && t[j] == b[j - a.len()]);
        }
    }
}

/// Suggestions never name a key twice.
pub proof fn law_suggestions_name_each_key_once(
    attrs: Seq<AttributeSummary>,
    sep: Seq<char>,
    name: Seq<char>,
    limit: usize,
)
    requires
        distinct_keys(attrs),
    ensures
        keys_distinct(spec_suggest(attrs, sep, name, limit)),
{
    let s1 = normalized_stage(attrs, name, sep) + exact_stage(attrs, name);
    let seen2 = suggested_keys(s1);
    let s2 = token_stage(attrs, seen2, name, sep);
    let seen3 = seen2 + suggested_keys(s2);
    let s3 = prefix_stage(attrs, seen3, name, sep);
    let seen4 = seen3 + suggested_keys(s3);
    let s4 = fuzzy_stage(attrs, seen4, name, sep);
    assert(keys_distinct(s1));
    if crate::suggest::name_tokens(name, sep).len() >= 2 {
        lemma_overlapping_fresh(attrs, seen2, name, sep);
    }
    let starts = segment_starts(name, sep);
    if starts.len() >= 2 {
        lemma_prefix_search_fresh(attrs, seen3, name, starts, starts.len() - 1);
    }
    lemma_fuzzy_fresh(attrs, seen4, name, sep);
    lemma_sort_by_score_keeps_keys(fuzzy_candidates(attrs, seen4, name, sep));
    lemma_fresh_through_keys(s4, unscored(fuzzy_candidates(attrs, seen4, name, sep)), attrs, seen4);
    lemma_append_distinct(s1, s2);
    assert(suggested_keys(s1 + s2) =~= seen3);
    lemma_append_distinct(s1 + s2, s3);
    assert(suggested_keys(s1 + s2 + s3) =~= seen4);
    lemma_append_distinct(s1 + s2 + s3, s4);
    let all = spec_all_suggestions(attrs, sep, name);
    assert(all == s1 + s2 + s3 + s4);
    let r = spec_suggest(attrs, sep, name, limit);
    assert forall|i: int, j: int| 0 <= i < j < r.len() implies (#[trigger] r[i]).key != (#[trigger] r[j]).key by {
        assert(r[i] == all[i] && r[j] == all[j]);
    }
}

/// Sorting by score keeps the length and adds no element.
proof fn lemma_sort_by_score_members<T>(s: Seq<(u32, T)>)
    ensures
        sort_by_score(s).len() == s.len(),
        forall|x: (u32, T)| sort_by_score(s).contains(x) ==> s.contains(x),
    decreases s.len(),
{
    if s.len() > 0 {
        let d = s.drop_last();
        lemma_sort_by_score_members(d);
        let r = sort_by_score(d);
        let x = s.last();
        lemma_score_pos_bounds(r, x);
        let p = score_insert_pos(r, x);
        let t = r.insert(p, x);
        assert forall|y: (u32, T)| t.contains(y) implies s.contains(y) by {
            let i = choose|i: int| 0 <= i < t.len() && t[i] == y;
            if i < p {
                assert(t[i] == r[i]);
                assert(r.contains(y));
                assert(d.contains(y));
                let k = choose|k: int| 0 <= k < d.len() && d[k] == y;
                assert(s[k] == d[k]);
            } else if i == p {
                assert(s[s.len() - 1] == y);
            } else {
                assert(t[i] == r[i - 1]);
                assert(r.contains(y));
                assert(d.contains(y));
                let k = choose|k: int| 0 <= k < d.len() && d[k] == y;
                assert(s[k] == d[k]);
            }
        }
    }
}

/// The insertion position lies within the sequence.
proof fn lemma_score_pos_bounds<T>(sorted: Seq<(u32, T)>, x: (u32, T))
    ensures
        0 <= score_insert_pos(sorted, x) <= sorted.len(),
    decreases sorted.len(),
{
    if sorted.len() > 0 {
        lemma_score_pos_bounds(sorted.drop_first(), x);
    }
}

/// A search covers every item it selects.
proof fn lemma_selection_selected(items: Seq<ItemView>, ty: SearchType, stability: Option<Stability>)
    ensures
        forall|i: int|
            0 <= i < selection(items, ty, stability).len() ==> is_selected(
                #[trigger] selection(items, ty, stability)[i],
                ty,
                stability,
            ),
    decreases items.len(),
{
    if items.len() > 0 {
        lemma_selection_selected(items.drop_last(), ty, stability);
        let r = selection(items.drop_last(), ty, stability);
        let t = selection(items, ty, stability);
        assert forall|i: int| 0 <= i < t.len() implies is_selected(#[trigger] t[i], ty, stability) by {
            if i < r.len() {
                assert(t[i] == r[i]);
            }
        }
    }
}

/// Every match is one of the items.
proof fn lemma_matching_members(items: Seq<ItemView>, query: Seq<char>, sep: Seq<char>)
    ensures
        forall|x: (u32, ItemView)| matching(items, query, sep).contains(x) ==> items.contains(x.1),
    decreases items.len(),
{
    if items.len() > 0 {
        let d = items.drop_last();
        lemma_matching_members(d, query, sep);
        let r = matching(d, query, sep);
        assert forall|x: (u32, ItemView)| matching(items, query, sep).contains(x) implies items.contains(x.1) by {
            let m = matching(items, query, sep);
            let i = choose|i: int| 0 <= i < m.len() && m[i] == x;
            if i < r.len() {
                assert(m[i] == r[i]);
                assert(r.contains(x));
                let k = choose|k: int| 0 <= k < d.len() && d[k] == x.1;
                assert(items[k] == d[k]);
            } else {
                assert(items[items.len() - 1] == x.1);
            }
        }
    }
}

/// Every result of a search is an item of the type searched for and, when
/// one is given, of the stability asked for.
pub proof fn law_search_results_are_selected(
    items: Seq<ItemView>,
    query: Option<Seq<char>>,
    ty: SearchType,
    stability: Option<Stability>,
    limit: usize,
    offset: usize,
    sep: Seq<char>,
)
    ensures
        forall|i: int|
            0 <= i < search_results(items, query, ty, stability, limit, offset, sep).0.len()
                ==> is_selected(
                (#[trigger] search_results(items, query, ty, stability, limit, offset, sep).0[i]).1,
                ty,
                stability,
            ),
{
    let sel = selection(items, ty, stability);
    lemma_selection_selected(items, ty, stability);
    let r = search_results(items, query, ty, stability, limit, offset, sep).0;
    if query is Some && query->0.len() > 0 {
        let m = matching(sel, query->0, sep);
        lemma_matching_members(sel, query->0, sep);
        lemma_sort_by_score_members(m);
        let ranked = sort_by_score(m);
        let lo = at_most(offset as int, ranked.len() as int);
        assert forall|i: int| 0 <= i < r.len() implies is_selected((#[trigger] r[i]).1, ty, stability) by {
            assert(r[i] == ranked[lo + i]);
            assert(ranked.contains(r[i]));
            assert(m.contains(r[i]));
            assert(sel.contains(r[i].1));
            let k = choose|k: int| 0 <= k < sel.len() && sel[k] == r[i].1;
        }
    } else {
        let lo = at_most(offset as int, sel.len() as int);
        assert forall|i: int| 0 <= i < r.len() implies is_selected((#[trigger] r[i]).1, ty, stability) by {
            assert(r[i].1 == sel[lo + i]);
        }
    }
}

/// Every suggestion carries the key and the brief of one of the attributes.
pub open spec fn from_attributes(s: Seq<SuggestionView>, attrs: Seq<AttributeSummary>) -> bool {
    forall|i: int| 0 <= i < s.len() ==> carried_by(attrs, #[trigger] s[i])
}

/// The suggestion carries the key and the brief of one of the attributes.
pub open spec fn carried_by(attrs: Seq<AttributeSummary>, x: SuggestionView) -> bool {
    exists|j: int| #![trigger attrs[j]] 0 <= j < attrs.len() && attrs[j].key@ == x.key && attrs[j].brief@ == x.brief
}

/// Sorting by key keeps the length and adds no element.
proof fn lemma_sort_by_key_members(s: Seq<SuggestionView>)
    ensures
        sort_by_key(s).len() == s.len(),
        forall|x: SuggestionView| sort_by_key(s).contains(x) ==> s.contains(x),
    decreases s.len(),
{
    if s.len() > 0 {
        let d = s.drop_last();
        lemma_sort_by_key_members(d);
        let r = sort_by_key(d);
        let x = s.last();
        lemma_key_pos_bounds(r, x);
        let p = key_insert_pos(r, x);
        let t = r.insert(p, x);
        assert forall|y: SuggestionView| t.contains(y) implies s.contains(y) by {
            let i = choose|i: int| 0 <= i < t.len() && t[i] == y;
            if i == p {
                assert(s[s.len() - 1] == y);
            } else {
                if i < p {
                    assert(t[i] == r[i]);
                } else {
                    assert(t[i] == r[i - 1]);
                }
                assert(r.contains(y));
                assert(d.contains(y));
                let k = choose|k: int| 0 <= k < d.len() && d[k] == y;
                assert(s[k] == d[k]);
            }
        }
    }
}

/// A sequence made of elements of one that comes from the attributes comes
/// from them too.
proof fn lemma_from_members(t: Seq<SuggestionView>, s: Seq<SuggestionView>, attrs: Seq<AttributeSummary>)
    requires
        from_attributes(s, attrs),
        forall|x: SuggestionView| t.contains(x) ==> s.contains(x),
    ensures
        from_attributes(t, attrs),
{
    assert forall|i: int| 0 <= i < t.len() implies carried_by(attrs, #[trigger] t[i]) by {
        assert(t.contains(t[i]));
        let k = choose|k: int| 0 <= k < s.len() && s[k] == t[i];
        assert(s[k] == t[i]);
    }
}

/// Adding the suggestion of the last attribute keeps suggestions from the
/// attributes; dropping nothing keeps them too.
proof fn lemma_from_push(r: Seq<SuggestionView>, attrs: Seq<AttributeSummary>, x: Option<SuggestionView>)
    requires
        attrs.len() > 0,
        from_attributes(r, attrs.drop_last()),
        x matches Some(v) ==> v.key == attrs.last().key@ && v.brief == attrs.last().brief@,
    ensures
        from_attributes(
            match x {
                Some(v) => r.push(v),
                None => r,
            },
            attrs,
        ),
{
    match x {
        Some(v) => {
            let t = r.push(v);
            assert forall|i: int| 0 <= i < t.len() implies carried_by(attrs, #[trigger] t[i]) by {
                if i < r.len() {
                    assert(t[i] == r[i]);
                    let j = choose|j: int|
                        0 <= j < attrs.drop_last().len() && attrs.drop_last()[j].key@ == r[i].key
                            && attrs.drop_last()[j].brief@ == r[i].brief;
                    assert(attrs[j] == attrs.drop_last()[j]);
                } else {
                    assert(t[i] == v);
                    assert(attrs[attrs.len() - 1] == attrs.last());
                }
            }
        },
        None => {
            assert forall|i: int| 0 <= i < r.len() implies carried_by(attrs, #[trigger] r[i]) by {
                let j = choose|j: int|
                    0 <= j < attrs.drop_last().len() && attrs.drop_last()[j].key@ == r[i].key
                        && attrs.drop_last()[j].brief@ == r[i].brief;
                assert(attrs[j] == attrs.drop_last()[j]);
            }
        },
    }
}

proof fn lemma_overlapping_from(attrs: Seq<AttributeSummary>, seen: Seq<Seq<char>>, name: Seq<char>, sep: Seq<char>)
    ensures
        from_attributes(overlapping(attrs, seen, name, sep), attrs),
    decreases attrs.len(),
{
    if attrs.len() > 0 {
        lemma_overlapping_from(attrs.drop_last(), seen, name, sep);
        let a = attrs.last();
        let r = overlapping(attrs.drop_last(), seen, name, sep);
        if !seen.contains(a.key@) && crate::suggest::overlaps(name, a.key@, sep) {
            lemma_from_push(r, attrs, Some(crate::suggest::sv(a.key@, a.brief@, crate::suggest::SuggestionReason::TokenOverlap)));
        } else {
            lemma_from_push(r, attrs, None);
        }
    }
}

proof fn lemma_prefixed_from(attrs: Seq<AttributeSummary>, seen: Seq<Seq<char>>, p: Seq<char>)
    ensures
        from_attributes(prefixed(attrs, seen, p), attrs),
    decreases attrs.len(),
{
    if attrs.len() > 0 {
        lemma_prefixed_from(attrs.drop_last(), seen, p);
        let a = attrs.last();
        let r = prefixed(attrs.drop_last(), seen, p);
        if !seen.contains(a.key@) && starts_with_seq(a.key@, p) {
            lemma_from_push(r, attrs, Some(crate::suggest::sv(a.key@, a.brief@, crate::suggest::SuggestionReason::SharedPrefix)));
        } else {
            lemma_from_push(r, attrs, None);
        }
    }
}

proof fn lemma_prefix_search_from(
    attrs: Seq<AttributeSummary>,
    seen: Seq<Seq<char>>,
    name: Seq<char>,
    starts: Seq<int>,
    k: int,
)
    ensures
        from_attributes(prefix_search(attrs, seen, name, starts, k), attrs),
    decreases k,
{
    if !(k < 1 || k >= starts.len()) {
        let m = prefixed(attrs, seen, name.subrange(0, starts[k]));
        lemma_prefixed_from(attrs, seen, name.subrange(0, starts[k]));
        if m.len() > 0 {
            lemma_sort_by_key_members(m);
            lemma_from_members(sort_by_key(m), m, attrs);
        } else {
            lemma_prefix_search_from(attrs, seen, name, starts, k - 1);
        }
    }
}

proof fn lemma_fuzzy_from(attrs: Seq<AttributeSummary>, seen: Seq<Seq<char>>, name: Seq<char>, sep: Seq<char>)
    ensures
        from_attributes(fuzzy_stage(attrs, seen, name, sep), attrs),
    decreases attrs.len(),
{
    lemma_fuzzy_candidates_from(attrs, seen, name, sep);
    let c = fuzzy_candidates(attrs, seen, name, sep);
    lemma_sort_by_score_members(c);
    let f = fuzzy_stage(attrs, seen, name, sep);
    assert(f == unscored(sort_by_score(c)));
    assert forall|x: SuggestionView| f.contains(x) implies unscored(c).contains(x) by {
        let i = choose|i: int| 0 <= i < f.len() && f[i] == x;
        assert(f[i] == sort_by_score(c)[i].1);
        assert(sort_by_score(c).contains(sort_by_score(c)[i]));
        assert(c.contains(sort_by_score(c)[i]));
        let k = choose|k: int| 0 <= k < c.len() && c[k] == sort_by_score(c)[i];
        assert(unscored(c)[k] == x);
    }
    lemma_from_members(f, unscored(c), attrs);
}

proof fn lemma_fuzzy_candidates_from(attrs: Seq<AttributeSummary>, seen: Seq<Seq<char>>, name: Seq<char>, sep: Seq<char>)
    ensures
        from_attributes(unscored(fuzzy_candidates(attrs, seen, name, sep)), attrs),
    decreases attrs.len(),
{
    if attrs.len() > 0 {
        lemma_fuzzy_candidates_from(attrs.drop_last(), seen, name, sep);
        let r = fuzzy_candidates(attrs.drop_last(), seen, name, sep);
        let a = attrs.last();
        let sc = crate::suggest::attribute_score(a, name, sep);
        if !seen.contains(a.key@) && sc > 0 {
            let x = crate::suggest::sv(a.key@, a.brief@, crate::suggest::SuggestionReason::FuzzySearch);
            assert(unscored(r.push((sc, x))) =~= unscored(r).push(x));
            lemma_from_push(unscored(r), attrs, Some(x));
        } else {
            lemma_from_push(unscored(r), attrs, None);
        }
    }
}

proof fn lemma_from_append(a: Seq<SuggestionView>, b: Seq<SuggestionView>, attrs: Seq<AttributeSummary>)
    requires
        from_attributes(a, attrs),
        from_attributes(b, attrs),
    ensures
        from_attributes(a + b, attrs),
{
    assert forall|i: int| 0 <= i < (a + b).len() implies carried_by(attrs, #[trigger] (a + b)[i]) by {
        if i < a.len() {
            assert((a + b)[i] == a[i]);
        } else {
            assert((a + b)[i] == b[i - a.len()]);
        }
    }
}

/// Every suggestion names the key of an attribute with its brief; and when
/// the name with `_` and `-` replaced by the separator differs from it and
/// is a key, and at least one suggestion is asked for, it comes first.
pub proof fn law_suggestions_are_attributes(
    attrs: Seq<AttributeSummary>,
    sep: Seq<char>,
    name: Seq<char>,
    limit: usize,
)
    requires
        distinct_keys(attrs),
    ensures
        forall|i: int|
            0 <= i < spec_suggest(attrs, sep, name, limit).len() ==> crate::suggest::brief_of(
                attrs,
                (#[trigger] spec_suggest(attrs, sep, name, limit)[i]).key,
            ) == Some(spec_suggest(attrs, sep, name, limit)[i].brief),
        ({
            let n = crate::suggest::normalize_separators(name, sep);
            limit > 0 && n != name && crate::suggest::brief_of(attrs, n) is Some ==> spec_suggest(
                attrs,
                sep,
                name,
                limit,
            ).len() > 0 && spec_suggest(attrs, sep, name, limit)[0] == crate::suggest::sv(
                n,
                crate::suggest::brief_of(attrs, n)->0,
                crate::suggest::SuggestionReason::SeparatorNormalized,
            )
        }),
{
    let s1 = normalized_stage(attrs, name, sep) + exact_stage(attrs, name);
    let seen2 = suggested_keys(s1);
    let s2 = token_stage(attrs, seen2, name, sep);
    let seen3 = seen2 + suggested_keys(s2);
    let s3 = prefix_stage(attrs, seen3, name, sep);
    let seen4 = seen3 + suggested_keys(s3);
    let s4 = fuzzy_stage(attrs, seen4, name, sep);
    assert(from_attributes(s1, attrs)) by {
        assert forall|i: int| 0 <= i < s1.len() implies carried_by(attrs, #[trigger] s1[i]) by {
            let n = crate::suggest::normalize_separators(name, sep);
            let ns = normalized_stage(attrs, name, sep);
            if i < ns.len() {
                assert(s1[i] == ns[i]);
                let j = choose|j: int| 0 <= j < attrs.len() && (#[trigger] attrs[j]).key@ == n;
                assert(attrs[j].key@ == s1[i].key);
            } else {
                let j = choose|j: int| 0 <= j < attrs.len() && (#[trigger] attrs[j]).key@ == name;
                assert(attrs[j].key@ == s1[i].key);
            }
        }
    }
    if crate::suggest::name_tokens(name, sep).len() >= 2 {
        lemma_overlapping_from(attrs, seen2, name, sep);
    }
    assert(from_attributes(s2, attrs));
    let starts = segment_starts(name, sep);
    if starts.len() >= 2 {
        lemma_prefix_search_from(attrs, seen3, name, starts, starts.len() - 1);
    }
    assert(from_attributes(s3, attrs));
    lemma_fuzzy_from(attrs, seen4, name, sep);
    lemma_from_append(s1, s2, attrs);
    lemma_from_append(s1 + s2, s3, attrs);
    lemma_from_append(s1 + s2 + s3, s4, attrs);
    let all = spec_all_suggestions(attrs, sep, name);
    assert(all == s1 + s2 + s3 + s4);
    let r = spec_suggest(attrs, sep, name, limit);
    assert forall|i: int| 0 <= i < r.len() implies crate::suggest::brief_of(attrs, (#[trigger] r[i]).key)
        == Some(r[i].brief) by {
        assert(r[i] == all[i]);
        assert(carried_by(attrs, all[i]));
        let j = choose|j: int|
            0 <= j < attrs.len() && attrs[j].key@ == all[i].key && attrs[j].brief@ == all[i].brief;
        let k = choose|k: int| 0 <= k < attrs.len() && (#[trigger] attrs[k]).key@ == r[i].key;
        if k != j {
            assert(attrs[k].key@ != attrs[j].key@);
        }
    }
    let n = crate::suggest::normalize_separators(name, sep);
    if limit > 0 && n != name && crate::suggest::brief_of(attrs, n) is Some {
        assert(s1[0] == all[0]);
        assert(r[0] == all[0]);
    }
}

/// No key of `s` comes before an earlier one.
pub open spec fn ns_sorted(s: Seq<NamespaceAttributeView>) -> bool {
    forall|i: int, j: int| 0 <= i < j < s.len() ==> !text_less((#[trigger] s[j]).key, (#[trigger] s[i]).key)
}

/// Where `ns_pos` puts `x`: after every key it does not come before, and
/// before one it comes before.
proof fn lemma_ns_pos(sorted: Seq<NamespaceAttributeView>, x: NamespaceAttributeView)
    ensures
        0 <= ns_pos(sorted, x) <= sorted.len(),
        forall|k: int| 0 <= k < ns_pos(sorted, x) ==> !text_less(x.key, (#[trigger] sorted[k]).key),
        ns_pos(sorted, x) < sorted.len() ==> text_less(x.key, sorted[ns_pos(sorted, x)].key),
    decreases sorted.len(),
{
    if sorted.len() > 0 && !text_less(x.key, sorted[0].key) {
        let rest = sorted.drop_first();
        lemma_ns_pos(rest, x);
        assert forall|k: int| 0 <= k < ns_pos(sorted, x) implies !text_less(x.key, (#[trigger] sorted[k]).key) by {
            if k > 0 {
                assert(sorted[k] == rest[k - 1]);
            }
        }
        if ns_pos(sorted, x) < sorted.len() {
            assert(sorted[ns_pos(sorted, x)] == rest[ns_pos(rest, x)]);
        }
    }
}

/// Sorting the attributes of a namespace puts their keys in order.
proof fn lemma_sort_ns_sorted(s: Seq<NamespaceAttributeView>)
    ensures
        ns_sorted(sort_ns_by_key(s)),
        sort_ns_by_key(s).len() == s.len(),
    decreases s.len(),
{
    if s.len() > 0 {
        lemma_sort_ns_sorted(s.drop_last());
        let r = sort_ns_by_key(s.drop_last());
        let x = s.last();
        lemma_ns_pos(r, x);
        let p = ns_pos(r, x);
        let t = r.insert(p, x);
        assert forall|i: int, j: int| 0 <= i < j < t.len() implies !text_less(
            (#[trigger] t[j]).key,
            (#[trigger] t[i]).key,
        ) by {
            if j < p {
                assert(t[i] == r[i] && t[j] == r[j]);
            } else if j == p {
                assert(t[i] == r[i]);
            } else if i < p {
                assert(t[i] == r[i] && t[j] == r[j - 1]);
            } else if i == p {
                assert(t[j] == r[j - 1]);
                assert(text_less(x.key, r[p].key));
                if j - 1 > p {
                    if r[j - 1].key != r[p].key {
                        lemma_text_less_total(r[j - 1].key, r[p].key);
                        lemma_text_less_transitive(x.key, r[p].key, r[j - 1].key);
                    }
                }
                if text_less(r[j - 1].key, x.key) {
                    lemma_text_less_transitive(x.key, r[j - 1].key, x.key);
                    lemma_text_less_irreflexive(x.key);
                }
            } else {
                assert(t[i] == r[i - 1] && t[j] == r[j - 1]);
            }
        }
    }
}

/// The attributes of a namespace come sorted by key.
pub proof fn law_namespace_attributes_sorted(items: Seq<ItemView>, prefix: Option<Seq<char>>, sep: Seq<char>)
    ensures
        ns_sorted(namespace_info(items, prefix, sep).attributes),
{
    let p = trim_trailing_of(prefix, sep);
    lemma_sort_ns_sorted(
        browse_walk(crate::registry_search::attribute_entries(items), p, sep).leaves,
    );
}

/// The prefix a namespace listing is made for.
pub open spec fn trim_trailing_of(prefix: Option<Seq<char>>, sep: Seq<char>) -> Seq<char> {
    crate::registry_search::trim_trailing(
        match prefix {
            Some(x) => x,
            None => Seq::empty(),
        },
        sep,
    )
}

/// Without a query (or with an empty one) a search pages through the items
/// it covers in registry order: the results are those from `offset` on,
/// each with relevance zero, as many as the capped limit allows, and the
/// count is that of all the items covered.
pub proof fn law_browse_pages_in_order(
    items: Seq<ItemView>,
    query: Option<Seq<char>>,
    ty: SearchType,
    stability: Option<Stability>,
    limit: usize,
    offset: usize,
    sep: Seq<char>,
)
    requires
        query is None || query->0.len() == 0,
    ensures
        ({
            let sel = selection(items, ty, stability);
            let r = search_results(items, query, ty, stability, limit, offset, sep);
            &&& r.1 == sel.len()
            &&& r.0.len() == if offset >= sel.len() {
                0
            } else {
                at_most(capped_limit(limit), sel.len() - offset)
            }
            &&& forall|i: int| 0 <= i < r.0.len() ==> (#[trigger] r.0[i]) == (0u32, sel[offset + i])
        }),
{
    let sel = selection(items, ty, stability);
    let r = search_results(items, query, ty, stability, limit, offset, sep);
    assert forall|i: int| 0 <= i < r.0.len() implies (#[trigger] r.0[i]) == (0u32, sel[offset + i]) by {
    }
}

/// The template found for a name is a template whose key starts the name,
/// and no longer template key does; when none is found, no template key
/// starts the name.
pub proof fn law_longest_template_prefix(items: Seq<ItemView>, name: Seq<char>)
    ensures
        longest_template(items, name) matches Some(t) ==> items.contains(t) && in_index(
            IndexKind::Templates,
            t,
        ) && starts_with_seq(name, t.id) && forall|k: int|
            0 <= k < items.len() && in_index(IndexKind::Templates, #[trigger] items[k]) && starts_with_seq(
                name,
                items[k].id,
            ) ==> items[k].id.len() <= t.id.len(),
        longest_template(items, name) is None ==> forall|k: int|
            0 <= k < items.len() ==> !(in_index(IndexKind::Templates, #[trigger] items[k])
                && starts_with_seq(name, items[k].id)),
    decreases items.len(),
{
    if items.len() > 0 {
        let d = items.drop_last();
        law_longest_template_prefix(d, name);
        let r = longest_template(d, name);
        let x = items.last();
        assert forall|k: int| 0 <= k < d.len() implies #[trigger] items[k] == d[k] by {}
        if let Some(t) = longest_template(items, name) {
            if t == x {
                assert(items[items.len() - 1] == x);
            } else {
                let k = choose|k: int| 0 <= k < d.len() && d[k] == t;
                assert(items[k] == t);
            }
        }
    }
}

/// Each registry item belongs to exactly one index.
pub proof fn law_items_fall_in_one_index(it: ItemView, a: IndexKind, b: IndexKind)
    ensures
        in_index(a, it) && in_index(b, it) ==> a == b,
        exists|w: IndexKind| in_index(w, it),
{
    let w = match it.kind {
        crate::registry_search::ItemKind::Attribute => if it.is_template {
            IndexKind::Templates
        } else {
            IndexKind::Attributes
        },
        crate::registry_search::ItemKind::Metric => IndexKind::Metrics,
        crate::registry_search::ItemKind::Span => IndexKind::Spans,
        crate::registry_search::ItemKind::Event => IndexKind::Events,
        crate::registry_search::ItemKind::Entity => IndexKind::Entities,
    };
    assert(in_index(w, it));
}

/// The brief of the last attribute of `s` with key `k`, if any.
pub open spec fn last_brief(s: Seq<AttributeSummary>, k: Seq<char>) -> Option<Seq<char>>
    decreases s.len(),
{
    if s.len() == 0 {
        None
    } else if s.last().key@ == k {
        Some(s.last().brief@)
    } else {
        last_brief(s.drop_last(), k)
    }
}

/// The index of attributes has distinct keys, and for each key the brief of
/// the last attribute with that key.
proof fn lemma_index_of_attributes(s: Seq<AttributeSummary>)
    ensures
        distinct_keys(crate::suggest::index_of_attributes(s)),
        forall|k: Seq<char>| #[trigger] crate::suggest::brief_of(crate::suggest::index_of_attributes(s), k)
            == last_brief(s, k),
    decreases s.len(),
{
    if s.len() > 0 {
        lemma_index_of_attributes(s.drop_last());
        let r = crate::suggest::index_of_attributes(s.drop_last());
        let a = s.last();
        let t = crate::suggest::index_of_attributes(s);
        if exists|i: int| 0 <= i < r.len() && (#[trigger] r[i]).key@ == a.key@ {
            let i = choose|i: int| 0 <= i < r.len() && (#[trigger] r[i]).key@ == a.key@;
            assert(t == r.update(i, a));
            assert forall|x: int, y: int|
                0 <= x < t.len() && 0 <= y < t.len() && x != y implies (#[trigger] t[x]).key@
                != (#[trigger] t[y]).key@ by {
                assert(r[x].key@ != r[y].key@);
            }
            assert forall|k: Seq<char>| #[trigger] crate::suggest::brief_of(t, k) == last_brief(s, k) by {
                assert(crate::suggest::brief_of(r, k) == last_brief(s.drop_last(), k));
                if k == a.key@ {
                    assert(t[i].key@ == k);
                    let j = choose|j: int| 0 <= j < t.len() && (#[trigger] t[j]).key@ == k;
                    assert(j == i);
                } else {
                    if exists|j: int| 0 <= j < t.len() && (#[trigger] t[j]).key@ == k {
                        let j = choose|j: int| 0 <= j < t.len() && (#[trigger] t[j]).key@ == k;
                        assert(r[j] == t[j]);
                        let m = choose|m: int| 0 <= m < r.len() && (#[trigger] r[m]).key@ == k;
                        if m != j {
                            assert(r[m].key@ != r[j].key@);
                        }
                    } else {
                        if exists|m: int| 0 <= m < r.len() && (#[trigger] r[m]).key@ == k {
                            let m = choose|m: int| 0 <= m < r.len() && (#[trigger] r[m]).key@ == k;
                            assert(t[m] == r[m]);
                        }
                    }
                }
            }
        } else {
            assert(t == r.push(a));
            assert forall|x: int, y: int|
                0 <= x < t.len() && 0 <= y < t.len() && x != y implies (#[trigger] t[x]).key@
                != (#[trigger] t[y]).key@ by {
                if x < r.len() && y < r.len() {
                    assert(r[x].key@ != r[y].key@);
                } else if x < r.len() {
                    assert(t[x] == r[x]);
                } else {
                    assert(t[y] == r[y]);
                }
            }
            assert forall|k: Seq<char>| #[trigger] crate::suggest::brief_of(t, k) == last_brief(s, k) by {
                assert(crate::suggest::brief_of(r, k) == last_brief(s.drop_last(), k));
                if k == a.key@ {
                    assert(t[r.len() as int].key@ == k);
                    let j = choose|j: int| 0 <= j < t.len() && (#[trigger] t[j]).key@ == k;
                    if j < r.len() {
                        assert(t[j] == r[j]);
                    }
                } else {
                    if exists|j: int| 0 <= j < t.len() && (#[trigger] t[j]).key@ == k {
                        let j = choose|j: int| 0 <= j < t.len() && (#[trigger] t[j]).key@ == k;
                        assert(j < r.len());
                        assert(r[j] == t[j]);
                        let m = choose|m: int| 0 <= m < r.len() && (#[trigger] r[m]).key@ == k;
                        if m != j {
                            assert(r[m].key@ != r[j].key@);
                        }
                    } else {
                        if exists|m: int| 0 <= m < r.len() && (#[trigger] r[m]).key@ == k {
                            let m = choose|m: int| 0 <= m < r.len() && (#[trigger] r[m]).key@ == k;
                            assert(t[m] == r[m]);
                        }
                    }
                }
            }
        }
    }
}

/// The last attribute summary with a key is the attribute that the index of
/// attributes holds under it.
proof fn lemma_summaries_last_brief(items: Seq<crate::registry_search::RegistryItem>, k: Seq<char>)
    ensures
        last_brief(crate::suggest::attribute_summaries(items), k) == match crate::registry_search::indexed(
            crate::registry_search::item_views(items),
            IndexKind::Attributes,
            k,
        ) {
            Some(it) => Some(it.brief),
            None => None::<Seq<char>>,
        },
    decreases items.len(),
{
    if items.len() > 0 {
        let d = items.drop_last();
        lemma_summaries_last_brief(d, k);
        let v = crate::registry_search::item_views(items);
        assert(v.drop_last() =~= crate::registry_search::item_views(d));
        assert(v.last() == items.last()@);
        let r = crate::suggest::attribute_summaries(d);
        if in_index(IndexKind::Attributes, items.last()@) {
            let x = crate::suggest::summary_of(items.last());
            assert(r.push(x).drop_last() =~= r);
            assert(r.push(x).last() == x);
        }
    }
}

/// What suggestions and lookups see of the attributes agree: the index of a
/// search context holds a key exactly when looking up that attribute finds
/// it, and then with the brief of the attribute found.
pub proof fn law_suggestion_index_matches_lookup(
    items: Seq<crate::registry_search::RegistryItem>,
    k: Seq<char>,
)
    ensures
        distinct_keys(crate::suggest::index_of_attributes(crate::suggest::attribute_summaries(items))),
        crate::suggest::brief_of(
            crate::suggest::index_of_attributes(crate::suggest::attribute_summaries(items)),
            k,
        ) == match crate::registry_search::indexed(
            crate::registry_search::item_views(items),
            IndexKind::Attributes,
            k,
        ) {
            Some(it) => Some(it.brief),
            None => None::<Seq<char>>,
        },
{
    lemma_index_of_attributes(crate::suggest::attribute_summaries(items));
    lemma_summaries_last_brief(items, k);
}

/// The values of `s` that have score `v`, in order.
pub open spec fn with_score<T>(s: Seq<(u32, T)>, v: u32) -> Seq<T>
    decreases s.len(),
{
    if s.len() == 0 {
        Seq::empty()
    } else if s.last().0 == v {
        with_score(s.drop_last(), v).push(s.last().1)
    } else {
        with_score(s.drop_last(), v)
    }
}

proof fn lemma_with_score_append<T>(a: Seq<(u32, T)>, b: Seq<(u32, T)>, v: u32)
    ensures
        with_score(a + b, v) == with_score(a, v) + with_score(b, v),
    decreases b.len(),
{
    if b.len() == 0 {
        assert(a + b =~= a);
        assert(with_score(a, v) + Seq::<T>::empty() =~= with_score(a, v));
    } else {
        lemma_with_score_append(a, b.drop_last(), v);
        assert((a + b).drop_last() =~= a + b.drop_last());
        assert((a + b).last() == b.last());
        if b.last().0 == v {
            assert(with_score(a, v) + with_score(b.drop_last(), v).push(b.last().1) =~= (with_score(
                a,
                v,
            ) + with_score(b.drop_last(), v)).push(b.last().1));
        }
    }
}

proof fn lemma_with_score_none<T>(s: Seq<(u32, T)>, v: u32)
    requires
        forall|k: int| 0 <= k < s.len() ==> (#[trigger] s[k]).0 < v,
    ensures
        with_score(s, v) == Seq::<T>::empty(),
    decreases s.len(),
{
    if s.len() > 0 {
        assert(s.last() == s[s.len() - 1]);
        lemma_with_score_none(s.drop_last(), v);
    }
}

/// Sorting by score keeps, for every score, the values with that score in
/// their order.
proof fn lemma_sort_by_score_stable<T>(s: Seq<(u32, T)>, v: u32)
    ensures
        with_score(sort_by_score(s), v) == with_score(s, v),
    decreases s.len(),
{
    if s.len() > 0 {
        let d = s.drop_last();
        lemma_sort_by_score_stable(d, v);
        lemma_sort_by_score_best_first(d);
        let r = sort_by_score(d);
        let x = s.last();
        lemma_insert_pos_bounds(r, x);
        let p = score_insert_pos(r, x);
        let a = r.take(p);
        let b = r.skip(p);
        assert(b.len() == r.len() - p);
        let t = sort_by_score(s);
        assert(t == r.insert(p, x));
        assert(t =~= a + seq![x] + b);
        assert(r =~= a + b);
        lemma_with_score_append(a + seq![x], b, v);
        lemma_with_score_append(a, seq![x], v);
        lemma_with_score_append(a, b, v);
        assert(seq![x].drop_last() =~= Seq::<(u32, T)>::empty());
        assert(seq![x].last() == x);
        assert(with_score(Seq::<(u32, T)>::empty(), v) =~= Seq::<T>::empty());
        assert(with_score(seq![x].drop_last(), v) =~= Seq::<T>::empty());
        let wa = with_score(a, v);
        let wb = with_score(b, v);
        assert(with_score(t, v) == wa + with_score(seq![x], v) + wb);
        assert(with_score(r, v) == wa + wb);
        assert(with_score(d, v) == with_score(r, v));
        assert(s.drop_last() == d && s.last() == x);
        if x.0 == v {
            assert forall|k: int| 0 <= k < b.len() implies (#[trigger] b[k]).0 < v by {
                assert(b[k] == r[p + k]);
            }
            lemma_with_score_none(b, v);
            assert(with_score(seq![x], v) =~= seq![x.1]);
            assert(wa + seq![x.1] + Seq::<T>::empty() =~= (wa + Seq::<T>::empty()).push(x.1));
            assert(with_score(s, v) == with_score(d, v).push(x.1));
        } else {
            assert(with_score(seq![x], v) =~= Seq::<T>::empty());
            assert(wa + Seq::<T>::empty() + wb =~= wa + wb);
            assert(with_score(s, v) == with_score(d, v));
        }
    }
}

/// A search with a non-empty query keeps registry order among results of
/// equal relevance: for every relevance, the results with it come in the
/// order of the items, as the matching items with it do.
pub proof fn law_equal_relevance_keeps_registry_order(
    items: Seq<ItemView>,
    query: Seq<char>,
    ty: SearchType,
    stability: Option<Stability>,
    sep: Seq<char>,
    v: u32,
)
    requires
        query.len() > 0,
    ensures
        with_score(
            sort_by_score(matching(selection(items, ty, stability), query, sep)),
            v,
        ) == with_score(matching(selection(items, ty, stability), query, sep), v),
{
    lemma_sort_by_score_stable(matching(selection(items, ty, stability), query, sep), v);
}

/// With a non-empty query a search pages through the matching items ranked
/// best first: the results are those from `offset` on, as many as the
/// capped limit allows, and the count is that of all the matching items,
/// whatever the page.
pub proof fn law_ranked_pages_in_order(
    items: Seq<ItemView>,
    query: Seq<char>,
    ty: SearchType,
    stability: Option<Stability>,
    limit: usize,
    offset: usize,
    sep: Seq<char>,
)
    requires
        query.len() > 0,
    ensures
        ({
            let ranked = sort_by_score(matching(selection(items, ty, stability), query, sep));
            let r = search_results(items, Some(query), ty, stability, limit, offset, sep);
            &&& r.1 == ranked.len()
            &&& r.0.len() == if offset >= ranked.len() {
                0
            } else {
                at_most(capped_limit(limit), ranked.len() - offset)
            }
            &&& forall|i: int| 0 <= i < r.0.len() ==> (#[trigger] r.0[i]) == ranked[offset + i]
        }),
{
    let ranked = sort_by_score(matching(selection(items, ty, stability), query, sep));
    let r = search_results(items, Some(query), ty, stability, limit, offset, sep);
    assert forall|i: int| 0 <= i < r.0.len() implies (#[trigger] r.0[i]) == ranked[offset + i] by {
    }
}

/// An item is the one an index holds under its identifier when no other
/// item with that identifier belongs to the same index.
proof fn lemma_indexed_unique(items: Seq<ItemView>, which: IndexKind, j: int)
    requires
        0 <= j < items.len(),
        in_index(which, items[j]),
        forall|m: int|
            0 <= m < items.len() && m != j && in_index(which, #[trigger] items[m]) ==> items[m].id
                != items[j].id,
    ensures
        indexed(items, which, items[j].id) == Some(items[j]),
    decreases items.len(),
{
    if j < items.len() - 1 {
        let d = items.drop_last();
        assert(items.last() == items[items.len() - 1]);
        assert forall|m: int| 0 <= m < d.len() && m != j && in_index(which, #[trigger] d[m]) implies d[m].id
            != d[j].id by {
            assert(d[m] == items[m]);
        }
        lemma_indexed_unique(d, which, j);
        assert(d[j] == items[j]);
    }
}

/// An index holds nothing under a key that none of its items has.
proof fn lemma_indexed_none(items: Seq<ItemView>, which: IndexKind, key: Seq<char>)
    requires
        forall|m: int| 0 <= m < items.len() && in_index(which, #[trigger] items[m]) ==> items[m].id != key,
    ensures
        indexed(items, which, key) is None,
    decreases items.len(),
{
    if items.len() > 0 {
        let d = items.drop_last();
        assert(items.last() == items[items.len() - 1]);
        assert forall|m: int| 0 <= m < d.len() && in_index(which, #[trigger] d[m]) implies d[m].id != key by {
            assert(d[m] == items[m]);
        }
        lemma_indexed_none(d, which, key);
    }
}

/// Every item of a registry in which no two items of one kind share an
/// identifier is found by the lookup of its own index under its identifier;
/// an attribute is found either as an attribute or as a template, and the
/// other of those two lookups finds nothing under its key.
pub proof fn law_lookup_finds_each_item(items: Seq<ItemView>, i: int, which: IndexKind)
    requires
        0 <= i < items.len(),
        forall|j: int|
            0 <= j < items.len() && j != i && (#[trigger] items[j]).id == items[i].id ==> items[j].kind
                != items[i].kind,
    ensures
        in_index(which, items[i]) ==> indexed(items, which, items[i].id) == Some(items[i]),
        items[i].kind == ItemKind::Attribute && !in_index(which, items[i]) && (which
            == IndexKind::Attributes || which == IndexKind::Templates) ==> indexed(
            items,
            which,
            items[i].id,
        ) is None,
{
    if in_index(which, items[i]) {
        assert forall|m: int|
            0 <= m < items.len() && m != i && in_index(which, #[trigger] items[m]) implies items[m].id
                != items[i].id by {
            if items[m].id == items[i].id {
                assert(items[m].kind != items[i].kind);
            }
        }
        lemma_indexed_unique(items, which, i);
    }
    if items[i].kind == ItemKind::Attribute && !in_index(which, items[i]) && (which
        == IndexKind::Attributes || which == IndexKind::Templates) {
        assert forall|m: int| 0 <= m < items.len() && in_index(which, #[trigger] items[m]) implies items[m].id
            != items[i].id by {
            if m != i && items[m].id == items[i].id {
                assert(items[m].kind != items[i].kind);
            }
        }
        lemma_indexed_none(items, which, items[i].id);
    }
}

/// A search of every type without a stability covers every item.
proof fn lemma_select_all(items: Seq<ItemView>)
    ensures
        selection(items, SearchType::All, None) == items,
    decreases items.len(),
{
    if items.len() > 0 {
        lemma_select_all(items.drop_last());
        assert(items.drop_last().push(items.last()) =~= items);
    }
}

/// Without a query, type or stability, a search lists the registry in its
/// own order: the results are the items from `offset` on, each with
/// relevance zero, as many as the capped limit allows, and the count is
/// that of all the items.
pub proof fn law_unfiltered_search_lists_registry(
    items: Seq<ItemView>,
    query: Option<Seq<char>>,
    limit: usize,
    offset: usize,
    sep: Seq<char>,
)
    requires
        query is None || query->0.len() == 0,
    ensures
        ({
            let r = search_results(items, query, SearchType::All, None, limit, offset, sep);
            &&& r.1 == items.len()
            &&& r.0.len() == if offset >= items.len() {
                0
            } else {
                at_most(capped_limit(limit), items.len() - offset)
            }
            &&& forall|i: int| 0 <= i < r.0.len() ==> (#[trigger] r.0[i]) == (0u32, items[offset + i])
        }),
{
    lemma_select_all(items);
    law_browse_pages_in_order(items, query, SearchType::All, None, limit, offset, sep);
}

/// How many of `entries` lie below a child namespace of `prefix`.
pub open spec fn under_children(entries: Seq<ItemView>, prefix: Seq<char>, sep: Seq<char>) -> nat
    decreases entries.len(),
{
    if entries.len() == 0 {
        0
    } else {
        under_children(entries.drop_last(), prefix, sep) + match remainder(
            entries.last().id,
            prefix,
            sep,
        ) {
            Some(rest) => if first_occurrence_from(rest, sep, 0) is Some {
                1nat
            } else {
                0nat
            },
            None => 0nat,
        }
    }
}

/// A key lies directly in the namespace `prefix`: below it, with no
/// separator in the part below it.
pub open spec fn is_leaf_key(key: Seq<char>, prefix: Seq<char>, sep: Seq<char>) -> bool {
    remainder(key, prefix, sep) matches Some(rest) && first_occurrence_from(rest, sep, 0) is None
}

/// What the walk over the entries gathers: leaves directly in the
/// namespace, a count made of them and of the entries below its children,
/// and a depth that is zero exactly when nothing was counted.
proof fn lemma_walk_counts(entries: Seq<ItemView>, prefix: Seq<char>, sep: Seq<char>)
    ensures
        browse_walk(entries, prefix, sep).total == browse_walk(entries, prefix, sep).leaves.len()
            + under_children(entries, prefix, sep),
        browse_walk(entries, prefix, sep).max_depth == 0 <==> browse_walk(entries, prefix, sep).total
            == 0,
        forall|i: int|
            0 <= i < browse_walk(entries, prefix, sep).leaves.len() ==> is_leaf_key(
                (#[trigger] browse_walk(entries, prefix, sep).leaves[i]).key,
                prefix,
                sep,
            ),
    decreases entries.len(),
{
    if entries.len() > 0 {
        lemma_walk_counts(entries.drop_last(), prefix, sep);
        let r = browse_walk(entries.drop_last(), prefix, sep);
        let b = browse_walk(entries, prefix, sep);
        let e = entries.last();
        if let Some(rest) = remainder(e.id, prefix, sep) {
            if first_occurrence_from(rest, sep, 0) is None {
                assert forall|i: int| 0 <= i < b.leaves.len() implies is_leaf_key(
                    (#[trigger] b.leaves[i]).key,
                    prefix,
                    sep,
                ) by {
                    if i < r.leaves.len() {
                        assert(b.leaves[i] == r.leaves[i]);
                    }
                }
            }
        }
    }
}

/// Each element of the sorted attributes is one of those sorted, and there
/// are as many.
proof fn lemma_sort_ns_members(s: Seq<NamespaceAttributeView>)
    ensures
        sort_ns_by_key(s).len() == s.len(),
        forall|i: int| 0 <= i < s.len() ==> s.contains(#[trigger] sort_ns_by_key(s)[i]),
    decreases s.len(),
{
    if s.len() > 0 {
        lemma_sort_ns_members(s.drop_last());
        let r = sort_ns_by_key(s.drop_last());
        let x = s.last();
        lemma_ns_pos(r, x);
        let p = ns_pos(r, x);
        let t = r.insert(p, x);
        assert forall|i: int| 0 <= i < s.len() implies s.contains(#[trigger] t[i]) by {
            if i < p {
                assert(t[i] == r[i]);
                let j = choose|j: int| 0 <= j < s.drop_last().len() && s.drop_last()[j] == r[i];
                assert(s[j] == r[i]);
            } else if i == p {
                assert(s[s.len() - 1] == x);
            } else {
                assert(t[i] == r[i - 1]);
                let j = choose|j: int| 0 <= j < s.drop_last().len() && s.drop_last()[j] == r[i - 1];
                assert(s[j] == r[i - 1]);
            }
        }
    }
}

/// Browsing a namespace lists, as its attributes, only keys that lie
/// directly in it (the namespace, a separator, and a last segment without
/// one; the last segment alone at the top level); its total counts those
/// attributes and every key below one of its child namespaces; and its
/// depth is zero exactly when nothing lies below it.
pub proof fn law_browse_namespace_counts(items: Seq<ItemView>, prefix: Option<Seq<char>>, sep: Seq<char>)
    ensures
        ({
            let r = namespace_info(items, prefix, sep);
            &&& r.total_attribute_count == r.attributes.len() + under_children(
                crate::registry_search::attribute_entries(items),
                r.prefix,
                sep,
            )
            &&& (r.max_depth == 0 <==> r.total_attribute_count == 0)
            &&& forall|i: int| 0 <= i < r.attributes.len() ==> is_leaf_key(
                (#[trigger] r.attributes[i]).key,
                r.prefix,
                sep,
            )
        }),
{
    let p = trim_trailing_of(prefix, sep);
    let entries = crate::registry_search::attribute_entries(items);
    let b = browse_walk(entries, p, sep);
    let r = namespace_info(items, prefix, sep);
    lemma_walk_counts(entries, p, sep);
    lemma_sort_ns_members(b.leaves);
    assert forall|i: int| 0 <= i < r.attributes.len() implies is_leaf_key(
        (#[trigger] r.attributes[i]).key,
        r.prefix,
        sep,
    ) by {
        assert(b.leaves.contains(r.attributes[i]));
        let j = choose|j: int| 0 <= j < b.leaves.len() && b.leaves[j] == r.attributes[i];
        assert(is_leaf_key(b.leaves[j].key, p, sep));
    }
}

/// The kind of value of examples: 0 booleans, 1 integers, 2 doubles,
/// 3 strings, 4 values of any type.
pub open spec fn example_kind(ex: Examples) -> int {
    match ex {
        Examples::Bool(_) | Examples::Bools(_) | Examples::ListOfBools(_) => 0,
        Examples::Int(_) | Examples::Ints(_) | Examples::ListOfInts(_) => 1,
        Examples::Double(_) | Examples::Doubles(_) | Examples::ListOfDoubles(_) => 2,
        Examples::String(_) | Examples::Strings(_) | Examples::ListOfStrings(_) => 3,
        Examples::Any(_) | Examples::Anys(_) => 4,
    }
}

/// The shape of examples: 0 one value, 1 several values, 2 several arrays.
pub open spec fn example_shape(ex: Examples) -> int {
    match ex {
        Examples::Bool(_) | Examples::Int(_) | Examples::Double(_) | Examples::String(_)
        | Examples::Any(_) => 0,
        Examples::Bools(_) | Examples::Ints(_) | Examples::Doubles(_) | Examples::Strings(_)
        | Examples::Anys(_) => 1,
        _ => 2,
    }
}

/// The kind of value of a type (as for examples; 5 for `any`) and whether
/// its values are arrays.
pub open spec fn primitive_kind(p: PrimitiveOrArrayTypeSpec) -> (int, bool) {
    match p {
        PrimitiveOrArrayTypeSpec::Boolean => (0, false),
        PrimitiveOrArrayTypeSpec::Int => (1, false),
        PrimitiveOrArrayTypeSpec::Double => (2, false),
        PrimitiveOrArrayTypeSpec::String => (3, false),
        PrimitiveOrArrayTypeSpec::Booleans => (0, true),
        PrimitiveOrArrayTypeSpec::Ints => (1, true),
        PrimitiveOrArrayTypeSpec::Doubles => (2, true),
        PrimitiveOrArrayTypeSpec::Strings => (3, true),
        PrimitiveOrArrayTypeSpec::Any => (5, false),
    }
}

/// The kind of value of a template type (5 for `any`) and whether its
/// values are arrays.
pub open spec fn template_kind(t: TemplateTypeSpec) -> (int, bool) {
    match t {
        TemplateTypeSpec::Boolean => (0, false),
        TemplateTypeSpec::Int => (1, false),
        TemplateTypeSpec::Double => (2, false),
        TemplateTypeSpec::String => (3, false),
        TemplateTypeSpec::Booleans => (0, true),
        TemplateTypeSpec::Ints => (1, true),
        TemplateTypeSpec::Doubles => (2, true),
        TemplateTypeSpec::Strings => (3, true),
        TemplateTypeSpec::Any => (5, false),
    }
}

/// Examples fit a type of kind `k` whose values are arrays or not when
/// they hold values of that kind: one or several values for a type of
/// single values, several arrays for an array type.
pub open spec fn shape_fits(ex: Examples, k: (int, bool)) -> bool {
    example_kind(ex) == k.0 && if k.1 {
        example_shape(ex) == 2
    } else {
        example_shape(ex) != 2
    }
}

/// Checking examples against a type reports nothing for an enum or `any`
/// type, or for examples of the type's kind and shape; a warning for the
/// older conventions still accepted (several values of the kind of an
/// array type; for a string array template, one or several strings); and
/// an error otherwise. At most one problem is reported.
pub proof fn law_examples_fit_their_type(
    ex: Examples,
    t: AttributeType,
    gid: Seq<char>,
    aid: Seq<char>,
    path: Seq<char>,
)
    ensures
        ({
            let errs = spec_examples_errors(ex, t, gid, aid, path);
            let fits = match t {
                AttributeType::Enum { .. } => true,
                AttributeType::PrimitiveOrArray(p) => p == PrimitiveOrArrayTypeSpec::Any || shape_fits(
                    ex,
                    primitive_kind(p),
                ),
                AttributeType::Template(tt) => tt == TemplateTypeSpec::Any || shape_fits(
                    ex,
                    template_kind(tt),
                ),
            };
            let tolerated = !fits && match t {
                AttributeType::Enum { .. } => false,
                AttributeType::PrimitiveOrArray(p) => primitive_kind(p).1 && example_kind(ex)
                    == primitive_kind(p).0 && example_shape(ex) == 1,
                AttributeType::Template(tt) => tt == TemplateTypeSpec::Strings && example_kind(ex)
                    == 3 && example_shape(ex) != 2,
            };
            &&& errs.len() <= 1
            &&& (errs.len() == 0 <==> fits)
            &&& (errs.len() == 1 && errs[0].kind == ErrorKind::InvalidExampleWarning <==> tolerated)
            &&& (errs.len() == 1 && errs[0].kind == ErrorKind::InvalidExampleError <==> !fits
                && !tolerated)
        }),
{
}

/// The weights of a match, as documented: an exact identifier 100, an
/// identifier that starts with the query 80, one that contains it 70; an
/// item whose identifier does not contain the query scores at most 60,
/// and at least 40 when its brief contains the query, at least 20 when its
/// note does; an item matching nowhere by text scores one of 60 (all query
/// tokens in the identifier), 35 or 15 (all in the brief or the note) or 0.
pub proof fn law_score_weights(
    query: Seq<char>,
    id: Seq<char>,
    brief: Seq<char>,
    note: Seq<char>,
    sep: Seq<char>,
)
    ensures
        id == query ==> spec_base_score(query, id, brief, note, sep) == 100,
        id != query && starts_with_seq(id, query) ==> spec_base_score(query, id, brief, note, sep) == 80,
        !starts_with_seq(id, query) && crate::text::contains_seq(id, query) ==> spec_base_score(
            query,
            id,
            brief,
            note,
            sep,
        ) == 70,
        !crate::text::contains_seq(id, query) && !starts_with_seq(id, query) && id != query
            ==> spec_base_score(query, id, brief, note, sep) <= 60,
        !crate::text::contains_seq(id, query) && !starts_with_seq(id, query) && id != query
            && crate::text::contains_seq(brief, query) ==> spec_base_score(query, id, brief, note, sep)
            >= 40,
        !crate::text::contains_seq(id, query) && !starts_with_seq(id, query) && id != query
            && crate::text::contains_seq(note, query) ==> spec_base_score(query, id, brief, note, sep)
            >= 20,
        ({
            let b = spec_base_score(query, id, brief, note, sep);
            !crate::text::contains_seq(id, query) && !starts_with_seq(id, query) && id != query
                && !crate::text::contains_seq(brief, query) && !crate::text::contains_seq(note, query)
                ==> (b == 60 || b == 35 || b == 15 || b == 0)
        }),
{
}

/// Normalizing a path replaces each backslash by a slash and keeps every
/// other character in its place.
pub proof fn law_forward_slashes_replace_backslashes(p: Seq<char>)
    ensures
        forward_slashes(p).len() == p.len(),
        forall|i: int|
            0 <= i < p.len() ==> #[trigger] forward_slashes(p)[i] == if p[i] == '\\' {
                '/'
            } else {
                p[i]
            },
{
}

/// The schema URL of a registry name and version ends with a slash and the
/// version; the name comes first, without its trailing slashes, behind
/// `https://` when it has no `http` scheme of its own.
pub proof fn law_url_of_name_version_shape(name: Seq<char>, version: Seq<char>)
    ensures
        ({
            let u = spec_url_of_name_version(name, version);
            let base = strip_trailing_slashes(name);
            &&& u.len() >= version.len() + 1
            &&& u.subrange(u.len() - version.len() - 1, u.len() as int) == seq!['/'] + version
            &&& starts_with_http(name) ==> u.subrange(0, base.len() as int) == base
            &&& !starts_with_http(name) ==> u.subrange(0, 8) == "https://"@ && u.subrange(
                8,
                8 + base.len() as int,
            ) == base
        }),
{
    reveal_strlit("https://");
    reveal_strlit("/");
    let u = spec_url_of_name_version(name, version);
    let base = strip_trailing_slashes(name);
    if starts_with_http(name) {
        assert(u =~= base + seq!['/'] + version);
    } else {
        assert(u =~= "https://"@ + base + seq!['/'] + version);
    }
    assert(u.subrange(u.len() - version.len() - 1, u.len() as int) =~= seq!['/'] + version);
    if starts_with_http(name) {
        assert(u.subrange(0, base.len() as int) =~= base);
    } else {
        assert(u.subrange(0, 8) =~= "https://"@);
        assert(u.subrange(8, 8 + base.len() as int) =~= base);
    }
}

/// The kind of value of an any-value definition of a single kind (5 for
/// the others) and whether its values are arrays.
pub open spec fn any_value_kind(v: crate::any_value::AnyValueSpec) -> (int, bool) {
    match v {
        crate::any_value::AnyValueSpec::Boolean { .. } => (0, false),
        crate::any_value::AnyValueSpec::Int { .. } => (1, false),
        crate::any_value::AnyValueSpec::Double { .. } => (2, false),
        crate::any_value::AnyValueSpec::String { .. } => (3, false),
        crate::any_value::AnyValueSpec::Booleans { .. } => (0, true),
        crate::any_value::AnyValueSpec::Ints { .. } => (1, true),
        crate::any_value::AnyValueSpec::Doubles { .. } => (2, true),
        crate::any_value::AnyValueSpec::Strings { .. } => (3, true),
        _ => (5, false),
    }
}

/// Checking examples against an any-value definition reports nothing for
/// an enum, bytes or undefined value, for string examples of a map, or for
/// examples of the value's kind and shape; otherwise it reports one error,
/// which says the examples SHOULD be of the type for the older conventions
/// still accepted (several values of the kind of an array type), that a
/// map's examples MUST be strings, or that the examples MUST be of the type.
pub proof fn law_any_value_examples_fit(
    ex: Examples,
    v: crate::any_value::AnyValueSpec,
    gid: Seq<char>,
    path: Seq<char>,
)
    ensures
        ({
            let errs = spec_any_value_examples_errors(ex, v, gid, path);
            let fits = match v {
                crate::any_value::AnyValueSpec::Enum { .. } | crate::any_value::AnyValueSpec::Bytes {
                    ..
                } | crate::any_value::AnyValueSpec::Undefined { .. } => true,
                crate::any_value::AnyValueSpec::Mapping { .. } => example_kind(ex) == 3,
                _ => shape_fits(ex, any_value_kind(v)),
            };
            let tolerated = !fits && any_value_kind(v).1 && example_kind(ex) == any_value_kind(v).0
                && example_shape(ex) == 1;
            let shown = crate::any_value::spec_any_value_display(v);
            &&& errs.len() <= 1
            &&& (errs.len() == 0 <==> fits)
            &&& errs.len() == 1 ==> errs[0].kind == ErrorKind::InvalidAnyValueExampleError
            &&& tolerated ==> errs.len() == 1 && errs[0].fields[3] == "All examples SHOULD be of type `"@
                + shown + "`"@
            &&& !fits && !tolerated && v is Mapping ==> errs.len() == 1 && errs[0].fields[3]
                == "Examples for `"@ + shown + "` values MUST be a supported string type"@
            &&& !fits && !tolerated && !(v is Mapping) ==> errs.len() == 1 && errs[0].fields[3]
                == "All examples MUST be of type `"@ + shown + "`"@
        }),
{
}

/// With a one-character separator, fixing the separators of a name
/// replaces each `_` and `-` by it and keeps every other character in its
/// place.
pub proof fn law_normalize_replaces_separators(name: Seq<char>, c: char)
    ensures
        crate::suggest::normalize_separators(name, seq![c]).len() == name.len(),
        forall|i: int|
            0 <= i < name.len() ==> #[trigger] crate::suggest::normalize_separators(name, seq![c])[i]
                == if name[i] == '_' || name[i] == '-' {
                c
            } else {
                name[i]
            },
    decreases name.len(),
{
    if name.len() > 0 {
        let d = name.drop_last();
        law_normalize_replaces_separators(d, c);
        let n = crate::suggest::normalize_separators(name, seq![c]);
        assert forall|i: int| 0 <= i < name.len() implies #[trigger] n[i] == if name[i] == '_' || name[i]
            == '-' {
            c
        } else {
            name[i]
        } by {
            if i < d.len() {
                assert(n[i] == crate::suggest::normalize_separators(d, seq![c])[i]);
                assert(d[i] == name[i]);
            }
        }
    }
}

/// A name that is an attribute key is suggested as an exact match, among
/// the first two suggestions; and when fixing its separators gives another
/// key, that key is suggested first.
pub proof fn law_known_names_are_suggested(
    attrs: Seq<AttributeSummary>,
    sep: Seq<char>,
    name: Seq<char>,
    limit: usize,
)
    ensures
        ({
            let r = spec_suggest(attrs, sep, name, limit);
            let norm = crate::suggest::normalize_separators(name, sep);
            &&& crate::suggest::brief_of(attrs, name) is Some && limit >= 2 ==> exists|i: int|
                0 <= i < 2 && i < r.len() && r[i] == crate::suggest::sv(
                    name,
                    crate::suggest::brief_of(attrs, name)->0,
                    crate::suggest::SuggestionReason::ExactMatch,
                )
            &&& norm != name && crate::suggest::brief_of(attrs, norm) is Some && limit >= 1 ==> r.len()
                >= 1 && r[0] == crate::suggest::sv(
                norm,
                crate::suggest::brief_of(attrs, norm)->0,
                crate::suggest::SuggestionReason::SeparatorNormalized,
            )
        }),
{
    let all = spec_all_suggestions(attrs, sep, name);
    let s1 = normalized_stage(attrs, name, sep) + exact_stage(attrs, name);
    let rest = all.subrange(s1.len() as int, all.len() as int);
    assert(all =~= s1 + rest);
    let r = spec_suggest(attrs, sep, name, limit);
    if crate::suggest::brief_of(attrs, name) is Some && limit >= 2 {
        let i = normalized_stage(attrs, name, sep).len() as int;
        assert(s1[i] == crate::suggest::sv(
            name,
            crate::suggest::brief_of(attrs, name)->0,
            crate::suggest::SuggestionReason::ExactMatch,
        ));
        assert(all[i] == s1[i]);
        assert(r[i] == all[i]);
    }
    if normalize_separators(name, sep) != name && crate::suggest::brief_of(
        attrs,
        normalize_separators(name, sep),
    ) is Some && limit >= 1 {
        assert(all[0] == s1[0]);
        assert(r[0] == all[0]);
    }
}

} // verus!
