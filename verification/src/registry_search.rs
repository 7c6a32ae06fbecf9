//! Searching, looking up and browsing the items of a resolved registry.
//!
//! Items are held in registry order. A lookup by key finds the last item of
//! its kind with that key, as an index that a later insertion overwrites
//! would. A search either ranks the selected items by relevance to a query,
//! best first, or pages through them in registry order.

use vstd::prelude::*;
use crate::search::{score_fields, spec_score, ScoredResult, SearchType};
use crate::stability::Stability;
use crate::suggest::{less_text, lowercase, score_insert_pos, sort_by_score, text_less, to_lowercase};
use crate::text::{
    clone_string, contains_str, occurs_at, occurs_at_exec, starts_with_chars, starts_with_seq,
    str_chars, str_eq, string_from_chars, string_views,
};

verus! {

/// The kind of a registry item.
#[derive(Clone, Copy, Debug, PartialEq, Eq, Structural)]
pub enum ItemKind {
    /// An attribute.
    Attribute,
    /// A metric.
    Metric,
    /// A span.
    Span,
    /// An event.
    Event,
    /// An entity.
    Entity,
}

/// What searching and browsing read of a registry item.
pub struct RegistryItem {
    /// The kind of the item.
    pub kind: ItemKind,
    /// Its identifier: the key of an attribute, the name of a metric or an
    /// event, the type of a span or an entity.
    pub id: String,
    /// Its brief description.
    pub brief: String,
    /// Its note.
    pub note: String,
    /// Whether it is deprecated.
    pub deprecated: bool,
    /// Its stability.
    pub stability: Stability,
    /// Whether it is an attribute whose type is a template.
    pub is_template: bool,
}

/// The value of a registry item: its fields, the texts as sequences of
/// characters.
pub struct ItemView {
    /// The kind.
    pub kind: ItemKind,
    /// The identifier.
    pub id: Seq<char>,
    /// The brief description.
    pub brief: Seq<char>,
    /// The note.
    pub note: Seq<char>,
    /// Whether it is deprecated.
    pub deprecated: bool,
    /// The stability.
    pub stability: Stability,
    /// Whether it is a template attribute.
    pub is_template: bool,
}

impl View for RegistryItem {
    type V = ItemView;

    open spec fn view(&self) -> ItemView {
        ItemView {
            kind: self.kind,
            id: self.id@,
            brief: self.brief@,
            note: self.note@,
            deprecated: self.deprecated,
            stability: self.stability,
            is_template: self.is_template,
        }
    }
}

/// The values of registry items.
pub open spec fn item_views(s: Seq<RegistryItem>) -> Seq<ItemView> {
    s.map_values(|x: RegistryItem| x@)
}

/// The values of scored items.
pub open spec fn scored_views(s: Seq<ScoredResult<RegistryItem>>) -> Seq<(u32, ItemView)> {
    s.map_values(|x: ScoredResult<RegistryItem>| (x.score, x.item@))
}

impl RegistryItem {
    /// A copy of the item.
    pub fn copy(&self) -> (r: RegistryItem)
        ensures
            r@ == self@,
    {
        RegistryItem {
            kind: self.kind,
            id: clone_string(&self.id),
            brief: clone_string(&self.brief),
            note: clone_string(&self.note),
            deprecated: self.deprecated,
            stability: self.stability,
            is_template: self.is_template,
        }
    }
}

/// The indexes of a registry, each keyed by identifier.
#[derive(Clone, Copy, Debug, PartialEq, Eq, Structural)]
pub enum IndexKind {
    /// Attributes whose type is not a template.
    Attributes,
    /// Attributes whose type is a template.
    Templates,
    /// Metrics.
    Metrics,
    /// Spans.
    Spans,
    /// Events.
    Events,
    /// Entities.
    Entities,
}

/// Whether an item belongs to an index.
pub open spec fn in_index(which: IndexKind, it: ItemView) -> bool {
    match which {
        IndexKind::Attributes => it.kind == ItemKind::Attribute && !it.is_template,
        IndexKind::Templates => it.kind == ItemKind::Attribute && it.is_template,
        IndexKind::Metrics => it.kind == ItemKind::Metric,
        IndexKind::Spans => it.kind == ItemKind::Span,
        IndexKind::Events => it.kind == ItemKind::Event,
        IndexKind::Entities => it.kind == ItemKind::Entity,
    }
}

/// The item an index holds under `key`: the last one of the index with that
/// identifier.
pub open spec fn indexed(items: Seq<ItemView>, which: IndexKind, key: Seq<char>) -> Option<ItemView>
    decreases items.len(),
{
    if items.len() == 0 {
        None
    } else if in_index(which, items.last()) && items.last().id == key {
        Some(items.last())
    } else {
        indexed(items.drop_last(), which, key)
    }
}

/// Whether an item belongs to an index.
fn belongs_to(which: IndexKind, it: &RegistryItem) -> (r: bool)
    ensures
        r == in_index(which, it@),
{
    match which {
        IndexKind::Attributes => it.kind == ItemKind::Attribute && !it.is_template,
        IndexKind::Templates => it.kind == ItemKind::Attribute && it.is_template,
        IndexKind::Metrics => it.kind == ItemKind::Metric,
        IndexKind::Spans => it.kind == ItemKind::Span,
        IndexKind::Events => it.kind == ItemKind::Event,
        IndexKind::Entities => it.kind == ItemKind::Entity,
    }
}

/// The item an index holds under `key`.
pub fn lookup(items: &Vec<RegistryItem>, which: IndexKind, key: &str) -> (r: Option<RegistryItem>)
    ensures
        match r {
            Some(it) => indexed(item_views(items@), which, key@) == Some(it@),
            None => indexed(item_views(items@), which, key@) is None,
        },
{
    let ghost all = item_views(items@);
    let mut i: usize = items.len();
    assert(all.take(all.len() as int) =~= all);
    while i > 0
        invariant
            i <= items.len(),
            all == item_views(items@),
            indexed(all, which, key@) == indexed(all.take(i as int), which, key@),
        decreases i,
    {
        assert(all.take(i as int).drop_last() =~= all.take(i - 1));
        assert(all.take(i as int).last() == items@[i - 1]@);
        let it = &items[i - 1];
        if belongs_to(which, it) && str_eq(it.id.as_str(), key) {
            return Some(it.copy());
        }
        i = i - 1;
    }
    None
}

/// The template whose key is the longest prefix of `name`; among templates
/// with that same key, the first.
pub open spec fn longest_template(items: Seq<ItemView>, name: Seq<char>) -> Option<ItemView>
    decreases items.len(),
{
    if items.len() == 0 {
        None
    } else {
        let r = longest_template(items.drop_last(), name);
        let x = items.last();
        if in_index(IndexKind::Templates, x) && starts_with_seq(name, x.id) && (r is None
            || x.id.len() > r->0.id.len()) {
            Some(x)
        } else {
            r
        }
    }
}

/// The template whose key is the longest prefix of `name`.
pub fn find_template(items: &Vec<RegistryItem>, name: &str) -> (r: Option<RegistryItem>)
    ensures
        match r {
            Some(it) => longest_template(item_views(items@), name@) == Some(it@),
            None => longest_template(item_views(items@), name@) is None,
        },
{
    let ghost all = item_views(items@);
    let name_chars = str_chars(name);
    let mut best: Option<usize> = None;
    let mut best_len: usize = 0;
    let mut i: usize = 0;
    assert(all.take(0) =~= Seq::<ItemView>::empty());
    while i < items.len()
        invariant
            i <= items.len(),
            all == item_views(items@),
            name_chars@ == name@,
            match best {
                Some(b) => b < i && longest_template(all.take(i as int), name@) == Some(all[b as int])
                    && best_len == all[b as int].id.len(),
                None => longest_template(all.take(i as int), name@) is None,
            },
        decreases items.len() - i,
    {
        assert(all.take(i + 1).drop_last() =~= all.take(i as int));
        assert(all.take(i + 1).last() == all[i as int]);
        let it = &items[i];
        if belongs_to(IndexKind::Templates, it) {
            let key_chars = str_chars(it.id.as_str());
            if starts_with_chars(name_chars.as_slice(), key_chars.as_slice()) {
                let longer = match best {
                    None => true,
                    Some(_) => key_chars.len() > best_len,
                };
                if longer {
                    best = Some(i);
                    best_len = key_chars.len();
                }
            }
        }
        i = i + 1;
    }
    assert(all.take(all.len() as int) =~= all);
    match best {
        Some(b) => Some(items[b].copy()),
        None => None,
    }
}

/// Whether a search of type `ty` covers items of kind `k`.
pub open spec fn kind_selected(ty: SearchType, k: ItemKind) -> bool {
    match ty {
        SearchType::All => true,
        SearchType::Attribute => k == ItemKind::Attribute,
        SearchType::Metric => k == ItemKind::Metric,
        SearchType::Span => k == ItemKind::Span,
        SearchType::Event => k == ItemKind::Event,
        SearchType::Entity => k == ItemKind::Entity,
    }
}

/// Whether a search of type `ty`, limited to a stability when one is given,
/// covers an item.
pub open spec fn is_selected(it: ItemView, ty: SearchType, stability: Option<Stability>) -> bool {
    kind_selected(ty, it.kind) && match stability {
        Some(st) => it.stability == st,
        None => true,
    }
}

/// The items a search covers, in registry order.
pub open spec fn selection(items: Seq<ItemView>, ty: SearchType, stability: Option<Stability>) -> Seq<
    ItemView,
>
    decreases items.len(),
{
    if items.len() == 0 {
        Seq::empty()
    } else {
        let r = selection(items.drop_last(), ty, stability);
        if is_selected(items.last(), ty, stability) {
            r.push(items.last())
        } else {
            r
        }
    }
}

/// The relevance of an item to a query, all texts lowercased.
pub open spec fn item_score(it: ItemView, query: Seq<char>, sep: Seq<char>) -> u32 {
    spec_score(
        lowercase(query),
        lowercase(it.id),
        lowercase(it.brief),
        lowercase(it.note),
        it.deprecated,
        sep,
    )
}

/// The items, in order, with a relevance above zero, and that relevance.
pub open spec fn matching(items: Seq<ItemView>, query: Seq<char>, sep: Seq<char>) -> Seq<
    (u32, ItemView),
>
    decreases items.len(),
{
    if items.len() == 0 {
        Seq::empty()
    } else {
        let r = matching(items.drop_last(), query, sep);
        let x = items.last();
        if item_score(x, query, sep) > 0 {
            r.push((item_score(x, query, sep), x))
        } else {
            r
        }
    }
}

/// The most results a search returns: the limit asked for, at most 200.
pub open spec fn capped_limit(limit: usize) -> int {
    if limit < 200 {
        limit as int
    } else {
        200
    }
}

/// `n`, at most `bound`.
pub open spec fn at_most(n: int, bound: int) -> int {
    if n < bound {
        n
    } else {
        bound
    }
}

/// The page of `sel` that starts at `offset` and holds at most the capped
/// limit of items, each with relevance zero.
pub open spec fn browse_page(sel: Seq<ItemView>, limit: usize, offset: usize) -> Seq<(u32, ItemView)> {
    sel.subrange(
        at_most(offset as int, sel.len() as int),
        at_most(offset + capped_limit(limit), sel.len() as int),
    ).map_values(|x: ItemView| (0u32, x))
}

/// The text of an optional query.
pub open spec fn query_text(query: Option<&str>) -> Option<Seq<char>> {
    match query {
        Some(q) => Some(q@),
        None => None,
    }
}

/// The results of a search and the number of items it found: with a
/// non-empty query, a page of the matching items best first (equal
/// relevance keeping registry order); without one, a page of the selected
/// items in registry order. A page starts at `offset` and holds at most the
/// capped limit of items; the number found counts all of them.
pub open spec fn search_results(
    items: Seq<ItemView>,
    query: Option<Seq<char>>,
    ty: SearchType,
    stability: Option<Stability>,
    limit: usize,
    offset: usize,
    sep: Seq<char>,
) -> (Seq<(u32, ItemView)>, nat) {
    let sel = selection(items, ty, stability);
    if query is Some && query->0.len() > 0 {
        let ranked = sort_by_score(matching(sel, query->0, sep));
        (
            ranked.subrange(
                at_most(offset as int, ranked.len() as int),
                at_most(offset + capped_limit(limit), ranked.len() as int),
            ),
            ranked.len(),
        )
    } else {
        (browse_page(sel, limit, offset), sel.len())
    }
}

/// Whether a search covers an item.
fn selected(it: &RegistryItem, ty: SearchType, stability: Option<Stability>) -> (r: bool)
    ensures
        r == is_selected(it@, ty, stability),
{
    let kind_ok = match ty {
        SearchType::All => true,
        SearchType::Attribute => it.kind == ItemKind::Attribute,
        SearchType::Metric => it.kind == ItemKind::Metric,
        SearchType::Span => it.kind == ItemKind::Span,
        SearchType::Event => it.kind == ItemKind::Event,
        SearchType::Entity => it.kind == ItemKind::Entity,
    };
    kind_ok && match stability {
        Some(st) => it.stability == st,
        None => true,
    }
}

/// A page of the selected items, in registry order.
fn browse(
    items: &Vec<RegistryItem>,
    ty: SearchType,
    stability: Option<Stability>,
    limit: usize,
    offset: usize,
) -> (r: (Vec<ScoredResult<RegistryItem>>, usize))
    ensures
        scored_views(r.0@) == browse_page(selection(item_views(items@), ty, stability), limit, offset),
        r.1 == selection(item_views(items@), ty, stability).len(),
{
    let ghost all = item_views(items@);
    let lim: usize = if limit < 200 {
        limit
    } else {
        200
    };
    let mut out: Vec<ScoredResult<RegistryItem>> = Vec::new();
    let mut count: usize = 0;
    let mut i: usize = 0;
    assert(all.take(0) =~= Seq::<ItemView>::empty());
    assert(scored_views(out@) =~= browse_page(Seq::<ItemView>::empty(), limit, offset));
    while i < items.len()
        invariant
            i <= items.len(),
            all == item_views(items@),
            lim == capped_limit(limit),
            count == selection(all.take(i as int), ty, stability).len(),
            count <= i,
            scored_views(out@) == browse_page(selection(all.take(i as int), ty, stability), limit, offset),
        decreases items.len() - i,
    {
        let ghost sel = selection(all.take(i as int), ty, stability);
        assert(all.take(i + 1).drop_last() =~= all.take(i as int));
        assert(all.take(i + 1).last() == all[i as int]);
        let it = &items[i];
        if selected(it, ty, stability) {
            let ghost sel2 = sel.push(all[i as int]);
            assert(sel2.drop_last() =~= sel);
            if count >= offset && count - offset < lim {
                let ghost before = out@;
                out.push(ScoredResult { score: 0, item: it.copy() });
                assert(scored_views(out@) =~= scored_views(before).push((0u32, all[i as int])));
                assert(sel2.subrange(offset as int, count + 1) =~= sel.subrange(
                    offset as int,
                    count as int,
                ).push(all[i as int]));
                assert(browse_page(sel, limit, offset) =~= sel.subrange(
                    offset as int,
                    count as int,
                ).map_values(|x: ItemView| (0u32, x)));
                assert(browse_page(sel2, limit, offset) =~= sel2.subrange(
                    offset as int,
                    count + 1,
                ).map_values(|x: ItemView| (0u32, x)));
                assert(scored_views(out@) =~= browse_page(sel2, limit, offset));
            } else {
                assert(browse_page(sel2, limit, offset) =~= browse_page(sel, limit, offset));
            }
            count = count + 1;
        }
        i = i + 1;
    }
    assert(all.take(all.len() as int) =~= all);
    (out, count)
}

/// The relevance of an item to a lowercased query.
fn score_item(it: &RegistryItem, query_lower: &String, sep: &str) -> (r: u32)
    ensures
        forall|q: Seq<char>| query_lower@ == lowercase(q) ==> r == item_score(it@, q, sep@),
{
    let id_lower = to_lowercase(it.id.as_str());
    let brief_lower = to_lowercase(it.brief.as_str());
    let note_lower = to_lowercase(it.note.as_str());
    score_fields(
        query_lower.as_str(),
        id_lower.as_str(),
        brief_lower.as_str(),
        note_lower.as_str(),
        it.deprecated,
        sep,
    )
}

/// The values of scored items held with their scores.
pub open spec fn pair_views(s: Seq<(u32, RegistryItem)>) -> Seq<(u32, ItemView)> {
    s.map_values(|p: (u32, RegistryItem)| (p.0, p.1@))
}

/// The selected items matching a query, with their relevance.
fn matches(
    items: &Vec<RegistryItem>,
    query: &str,
    ty: SearchType,
    stability: Option<Stability>,
    sep: &str,
) -> (r: Vec<(u32, RegistryItem)>)
    ensures
        pair_views(r@) == matching(selection(item_views(items@), ty, stability), query@, sep@),
{
    let ghost all = item_views(items@);
    let query_lower = to_lowercase(query);
    let mut out: Vec<(u32, RegistryItem)> = Vec::new();
    let mut i: usize = 0;
    assert(all.take(0) =~= Seq::<ItemView>::empty());
    assert(pair_views(out@) =~= Seq::<(u32, ItemView)>::empty());
    while i < items.len()
        invariant
            i <= items.len(),
            all == item_views(items@),
            query_lower@ == lowercase(query@),
            pair_views(out@) == matching(selection(all.take(i as int), ty, stability), query@, sep@),
        decreases items.len() - i,
    {
        let ghost sel = selection(all.take(i as int), ty, stability);
        assert(all.take(i + 1).drop_last() =~= all.take(i as int));
        assert(all.take(i + 1).last() == all[i as int]);
        let it = &items[i];
        if selected(it, ty, stability) {
            let ghost sel2 = sel.push(all[i as int]);
            assert(sel2.drop_last() =~= sel);
            let score = score_item(it, &query_lower, sep);
            if score > 0 {
                let ghost before = out@;
                out.push((score, it.copy()));
                assert(pair_views(out@) =~= pair_views(before).push((score, all[i as int])));
            }
        }
        i = i + 1;
    }
    assert(all.take(all.len() as int) =~= all);
    out
}

/// Inserts a scored item before the first one with a lower score.
fn insert_scored(sorted: &mut Vec<(u32, RegistryItem)>, x: (u32, RegistryItem))
    ensures
        pair_views(final(sorted)@) == pair_views(old(sorted)@).insert(
            score_insert_pos(pair_views(old(sorted)@), (x.0, x.1@)),
            (x.0, x.1@),
        ),
{
    let ghost sv0 = pair_views(sorted@);
    let ghost xv = (x.0, x.1@);
    let mut j: usize = 0;
    assert(sv0.subrange(0, sv0.len() as int) =~= sv0);
    while j < sorted.len() && sorted[j].0 >= x.0
        invariant
            sv0 == pair_views(sorted@),
            xv == (x.0, x.1@),
            j <= sorted@.len(),
            score_insert_pos(sv0, xv) == j + score_insert_pos(
                sv0.subrange(j as int, sv0.len() as int),
                xv,
            ),
        decreases sorted@.len() - j,
    {
        assert(sv0.subrange(j as int, sv0.len() as int).drop_first() =~= sv0.subrange(
            j + 1,
            sv0.len() as int,
        ));
        assert(sv0.subrange(j as int, sv0.len() as int)[0] == sv0[j as int]);
        j = j + 1;
    }
    proof {
        if j < sorted@.len() {
            assert(sv0.subrange(j as int, sv0.len() as int)[0] == sv0[j as int]);
        }
    }
    let ghost before = sorted@;
    sorted.insert(j, x);
    assert(pair_views(sorted@) =~= pair_views(before).insert(j as int, xv));
}

/// The scored items by decreasing score, equal scores keeping their order.
fn sort_scored_items(v: Vec<(u32, RegistryItem)>) -> (r: Vec<(u32, RegistryItem)>)
    ensures
        pair_views(r@) == sort_by_score(pair_views(v@)),
{
    let ghost all = pair_views(v@);
    assert(all.len() == v.len());
    let mut rest = crate::vec_util::into_reversed(v);
    let mut sorted: Vec<(u32, RegistryItem)> = Vec::new();
    let mut i: usize = 0;
    assert(all.take(0) =~= Seq::<(u32, ItemView)>::empty());
    assert(pair_views(rest@) =~= all.subrange(0, all.len() as int).reverse());
    while rest.len() > 0
        invariant
            i + rest@.len() == all.len(),
            all.len() <= usize::MAX,
            pair_views(rest@) == all.subrange(i as int, all.len() as int).reverse(),
            pair_views(sorted@) == sort_by_score(all.take(i as int)),
        decreases rest.len(),
    {
        proof {
            crate::vec_util::lemma_reversed_suffix_pop(all, i as int);
        }
        let ghost rv = rest@;
        let x = rest.pop().unwrap();
        assert((x.0, x.1@) == pair_views(rv).last());
        assert(pair_views(rest@) =~= pair_views(rv).drop_last());
        assert(all.take(i + 1).drop_last() =~= all.take(i as int));
        assert(all.take(i + 1).last() == all[i as int]);
        insert_scored(&mut sorted, x);
        i = i + 1;
    }
    assert(all.take(all.len() as int) =~= all);
    sorted
}


/// An item found by a search, with its relevance, under its kind.
pub enum SearchResult {
    /// An attribute.
    Attribute(ScoredResult<RegistryItem>),
    /// A metric.
    Metric(ScoredResult<RegistryItem>),
    /// A span.
    Span(ScoredResult<RegistryItem>),
    /// An event.
    Event(ScoredResult<RegistryItem>),
    /// An entity.
    Entity(ScoredResult<RegistryItem>),
}

/// The relevance and the value of the item of a search result.
pub open spec fn result_view(r: SearchResult) -> (u32, ItemView) {
    match r {
        SearchResult::Attribute(x) => (x.score, x.item@),
        SearchResult::Metric(x) => (x.score, x.item@),
        SearchResult::Span(x) => (x.score, x.item@),
        SearchResult::Event(x) => (x.score, x.item@),
        SearchResult::Entity(x) => (x.score, x.item@),
    }
}

/// The kind that the variant of a search result stands for.
pub open spec fn result_kind(r: SearchResult) -> ItemKind {
    match r {
        SearchResult::Attribute(_) => ItemKind::Attribute,
        SearchResult::Metric(_) => ItemKind::Metric,
        SearchResult::Span(_) => ItemKind::Span,
        SearchResult::Event(_) => ItemKind::Event,
        SearchResult::Entity(_) => ItemKind::Entity,
    }
}

/// The relevances and values of search results.
pub open spec fn result_views(s: Seq<SearchResult>) -> Seq<(u32, ItemView)> {
    s.map_values(|r: SearchResult| result_view(r))
}

/// Every result stands under the variant of its item's kind.
pub open spec fn results_by_kind(s: Seq<SearchResult>) -> bool {
    forall|i: int| 0 <= i < s.len() ==> result_kind(#[trigger] s[i]) == result_view(s[i]).1.kind
}

/// Files an item found with relevance `score` under the variant of its kind.
pub fn to_search_result(item: RegistryItem, score: u32) -> (r: SearchResult)
    ensures
        result_view(r) == (score, item@),
        result_kind(r) == item.kind,
{
    match item.kind {
        ItemKind::Attribute => SearchResult::Attribute(ScoredResult { score, item }),
        ItemKind::Metric => SearchResult::Metric(ScoredResult { score, item }),
        ItemKind::Span => SearchResult::Span(ScoredResult { score, item }),
        ItemKind::Event => SearchResult::Event(ScoredResult { score, item }),
        ItemKind::Entity => SearchResult::Entity(ScoredResult { score, item }),
    }
}

impl SearchResult {
    /// The relevance of the result.
    pub fn score(&self) -> (r: u32)
        ensures
            r == result_view(*self).0,
    {
        match self {
            SearchResult::Attribute(x) => x.score,
            SearchResult::Metric(x) => x.score,
            SearchResult::Span(x) => x.score,
            SearchResult::Event(x) => x.score,
            SearchResult::Entity(x) => x.score,
        }
    }

    /// The item found.
    pub fn item(&self) -> (r: &RegistryItem)
        ensures
            r@ == result_view(*self).1,
    {
        match self {
            SearchResult::Attribute(x) => &x.item,
            SearchResult::Metric(x) => &x.item,
            SearchResult::Span(x) => &x.item,
            SearchResult::Event(x) => &x.item,
            SearchResult::Entity(x) => &x.item,
        }
    }
}

/// Files each scored item under the variant of its kind, in order.
fn into_search_results(v: Vec<ScoredResult<RegistryItem>>) -> (r: Vec<SearchResult>)
    ensures
        result_views(r@) == scored_views(v@),
        results_by_kind(r@),
{
    let ghost all = scored_views(v@);
    assert(all.len() == v.len());
    let mut rest = crate::vec_util::into_reversed(v);
    let mut out: Vec<SearchResult> = Vec::new();
    let mut i: usize = 0;
    assert(all.take(0) =~= Seq::<(u32, ItemView)>::empty());
    assert(scored_views(rest@) =~= all.subrange(0, all.len() as int).reverse());
    assert(result_views(out@) =~= Seq::<(u32, ItemView)>::empty());
    while rest.len() > 0
        invariant
            i + rest@.len() == all.len(),
            all.len() <= usize::MAX,
            scored_views(rest@) == all.subrange(i as int, all.len() as int).reverse(),
            result_views(out@) == all.take(i as int),
            results_by_kind(out@),
        decreases rest.len(),
    {
        proof {
            crate::vec_util::lemma_reversed_suffix_pop(all, i as int);
        }
        let ghost rv = rest@;
        let x = rest.pop().unwrap();
        assert((x.score, x.item@) == scored_views(rv).last());
        assert(scored_views(rest@) =~= scored_views(rv).drop_last());
        let ghost before = out@;
        let r = to_search_result(x.item, x.score);
        out.push(r);
        assert(result_views(out@) =~= result_views(before).push(all[i as int]));
        assert(all.take(i + 1) =~= all.take(i as int).push(all[i as int]));
        assert forall|j: int| 0 <= j < out@.len() implies result_kind(#[trigger] out@[j]) == result_view(
            out@[j],
        ).1.kind by {
            if j < before.len() {
                assert(out@[j] == before[j]);
            }
        }
        i = i + 1;
    }
    assert(all.take(all.len() as int) =~= all);
    out
}

/// The scored items of a search.
fn scored_search(
    items: &Vec<RegistryItem>,
    query: Option<&str>,
    ty: SearchType,
    stability: Option<Stability>,
    limit: usize,
    offset: usize,
    sep: &str,
) -> (r: (Vec<ScoredResult<RegistryItem>>, usize))
    ensures
        (scored_views(r.0@), r.1 as nat) == search_results(
            item_views(items@),
            query_text(query),
            ty,
            stability,
            limit,
            offset,
            sep@,
        ),
{
    let ranked_query = match query {
        Some(q) => !q.is_empty(),
        None => false,
    };
    if !ranked_query {
        return browse(items, ty, stability, limit, offset);
    }
    let q = query.unwrap();
    let found = matches(items, q, ty, stability, sep);
    let ranked = sort_scored_items(found);
    let total = ranked.len();
    let lim: usize = if limit < 200 {
        limit
    } else {
        200
    };
    let start: usize = if offset < total {
        offset
    } else {
        total
    };
    let end: usize = if lim < total - start {
        start + lim
    } else {
        total
    };
    let mut out: Vec<ScoredResult<RegistryItem>> = Vec::new();
    let mut i: usize = start;
    assert(pair_views(ranked@).subrange(start as int, start as int) =~= Seq::<(u32, ItemView)>::empty());
    while i < end
        invariant
            start <= i <= end,
            end <= ranked.len(),
            total == ranked.len(),
            scored_views(out@) == pair_views(ranked@).subrange(start as int, i as int),
        decreases end - i,
    {
        let ghost before = out@;
        out.push(ScoredResult { score: ranked[i].0, item: ranked[i].1.copy() });
        assert(scored_views(out@) =~= scored_views(before).push(pair_views(ranked@)[i as int]));
        assert(scored_views(out@) =~= pair_views(ranked@).subrange(start as int, i + 1));
        i = i + 1;
    }
    assert(start as int == at_most(offset as int, pair_views(ranked@).len() as int));
    assert(end as int == at_most(offset + capped_limit(limit), pair_views(ranked@).len() as int));
    (out, total)
}

/// Searches the items: with a non-empty query, ranks the selected items by
/// relevance, otherwise keeps their order; either way gives the page that
/// starts at `offset`. Each result stands under the
/// variant of its item's kind.
pub fn search_items(
    items: &Vec<RegistryItem>,
    query: Option<&str>,
    ty: SearchType,
    stability: Option<Stability>,
    limit: usize,
    offset: usize,
    sep: &str,
) -> (r: (Vec<SearchResult>, usize))
    ensures
        (result_views(r.0@), r.1 as nat) == search_results(
            item_views(items@),
            query_text(query),
            ty,
            stability,
            limit,
            offset,
            sep@,
        ),
        results_by_kind(r.0@),
{
    let (found, total) = scored_search(items, query, ty, stability, limit, offset, sep);
    (into_search_results(found), total)
}

/// An attribute found under a key: the key asked for, with what the
/// attribute (or the template that covers the key) says of it.
pub struct NamespaceAttribute {
    /// The key.
    pub key: String,
    /// The brief description of the attribute.
    pub brief: String,
    /// Its stability.
    pub stability: Stability,
    /// Whether it is deprecated.
    pub deprecated: bool,
}

/// The value of a [`NamespaceAttribute`].
pub struct NamespaceAttributeView {
    /// The key.
    pub key: Seq<char>,
    /// The brief description.
    pub brief: Seq<char>,
    /// The stability.
    pub stability: Stability,
    /// Whether it is deprecated.
    pub deprecated: bool,
}

impl View for NamespaceAttribute {
    type V = NamespaceAttributeView;

    open spec fn view(&self) -> NamespaceAttributeView {
        NamespaceAttributeView {
            key: self.key@,
            brief: self.brief@,
            stability: self.stability,
            deprecated: self.deprecated,
        }
    }
}

/// The values of namespace attributes.
pub open spec fn ns_views(s: Seq<NamespaceAttribute>) -> Seq<NamespaceAttributeView> {
    s.map_values(|x: NamespaceAttribute| x@)
}

/// The namespace attribute for `key` described by `it`.
pub open spec fn ns_attribute(key: Seq<char>, it: ItemView) -> NamespaceAttributeView {
    NamespaceAttributeView {
        key: key,
        brief: it.brief,
        stability: it.stability,
        deprecated: it.deprecated,
    }
}

fn make_ns_attribute(key: &String, it: &RegistryItem) -> (r: NamespaceAttribute)
    ensures
        r@ == ns_attribute(key@, it@),
{
    NamespaceAttribute {
        key: clone_string(key),
        brief: clone_string(&it.brief),
        stability: it.stability,
        deprecated: it.deprecated,
    }
}

/// The attribute that describes `key`: the attribute with that key, else the
/// template whose key is the longest prefix of it.
pub open spec fn resolve_key(items: Seq<ItemView>, key: Seq<char>) -> Option<ItemView> {
    match indexed(items, IndexKind::Attributes, key) {
        Some(a) => Some(a),
        None => longest_template(items, key),
    }
}

/// The keys that some attribute describes, each with that attribute, and
/// the keys that none describes, both in the order of `keys`.
pub open spec fn checked_keys(items: Seq<ItemView>, keys: Seq<Seq<char>>) -> (
    Seq<NamespaceAttributeView>,
    Seq<Seq<char>>,
)
    decreases keys.len(),
{
    if keys.len() == 0 {
        (Seq::empty(), Seq::empty())
    } else {
        let r = checked_keys(items, keys.drop_last());
        let k = keys.last();
        match resolve_key(items, k) {
            Some(it) => (r.0.push(ns_attribute(k, it)), r.1),
            None => (r.0, r.1.push(k)),
        }
    }
}

/// Looks up each key: the found ones with their attribute, and the missing
/// ones.
pub fn check_keys(items: &Vec<RegistryItem>, keys: &[String]) -> (r: (
    Vec<NamespaceAttribute>,
    Vec<String>,
))
    ensures
        (ns_views(r.0@), string_views(r.1@)) == checked_keys(item_views(items@), string_views(keys@)),
{
    let ghost all = item_views(items@);
    let ghost ks = string_views(keys@);
    let mut found: Vec<NamespaceAttribute> = Vec::new();
    let mut missing: Vec<String> = Vec::new();
    let mut i: usize = 0;
    assert(ks.take(0) =~= Seq::<Seq<char>>::empty());
    assert(ns_views(found@) =~= Seq::<NamespaceAttributeView>::empty());
    assert(string_views(missing@) =~= Seq::<Seq<char>>::empty());
    while i < keys.len()
        invariant
            i <= keys.len(),
            all == item_views(items@),
            ks == string_views(keys@),
            (ns_views(found@), string_views(missing@)) == checked_keys(all, ks.take(i as int)),
        decreases keys.len() - i,
    {
        assert(ks.take(i + 1).drop_last() =~= ks.take(i as int));
        assert(ks.take(i + 1).last() == keys@[i as int]@);
        let key = &keys[i];
        let ghost f0 = found@;
        let ghost m0 = missing@;
        match lookup(items, IndexKind::Attributes, key.as_str()) {
            Some(a) => {
                found.push(make_ns_attribute(key, &a));
                assert(ns_views(found@) =~= ns_views(f0).push(ns_attribute(key@, a@)));
            },
            None => match find_template(items, key.as_str()) {
                Some(t) => {
                    found.push(make_ns_attribute(key, &t));
                    assert(ns_views(found@) =~= ns_views(f0).push(ns_attribute(key@, t@)));
                },
                None => {
                    missing.push(clone_string(key));
                    assert(string_views(missing@) =~= string_views(m0).push(key@));
                },
            },
        }
        i = i + 1;
    }
    assert(ks.take(ks.len() as int) =~= ks);
    (found, missing)
}

/// What lies under a namespace of attribute keys.
pub struct NamespaceInfo {
    /// The namespace, without trailing separators.
    pub prefix: String,
    /// The namespaces one level below, in order and each once.
    pub child_namespaces: Vec<String>,
    /// The attributes directly in the namespace, by key.
    pub attributes: Vec<NamespaceAttribute>,
    /// How many attributes (and templates) lie anywhere below it.
    pub total_attribute_count: usize,
    /// The greatest number of segments of a key below it, counted from it.
    pub max_depth: usize,
}

/// The value of a [`NamespaceInfo`].
pub struct NamespaceInfoView {
    /// The namespace.
    pub prefix: Seq<char>,
    /// The namespaces one level below.
    pub child_namespaces: Seq<Seq<char>>,
    /// The attributes directly in the namespace.
    pub attributes: Seq<NamespaceAttributeView>,
    /// How many keys lie below it.
    pub total_attribute_count: nat,
    /// How deep they go.
    pub max_depth: nat,
}

impl View for NamespaceInfo {
    type V = NamespaceInfoView;

    open spec fn view(&self) -> NamespaceInfoView {
        NamespaceInfoView {
            prefix: self.prefix@,
            child_namespaces: string_views(self.child_namespaces@),
            attributes: ns_views(self.attributes@),
            total_attribute_count: self.total_attribute_count as nat,
            max_depth: self.max_depth as nat,
        }
    }
}

/// `s` with every trailing occurrence of `sep` removed.
pub open spec fn trim_trailing(s: Seq<char>, sep: Seq<char>) -> Seq<char>
    decreases s.len(),
{
    if sep.len() > 0 && sep.len() <= s.len() && s.subrange(s.len() - sep.len(), s.len() as int)
        == sep {
        trim_trailing(s.subrange(0, s.len() - sep.len()), sep)
    } else {
        s
    }
}

/// The part of `key` below the namespace `prefix`: the whole key under the
/// empty namespace; else what follows the prefix and a separator, when the
/// key starts with both.
pub open spec fn remainder(key: Seq<char>, prefix: Seq<char>, sep: Seq<char>) -> Option<Seq<char>> {
    if prefix.len() == 0 {
        Some(key)
    } else if starts_with_seq(key, prefix) && starts_with_seq(
        key.subrange(prefix.len() as int, key.len() as int),
        sep,
    ) {
        Some(key.subrange((prefix.len() + sep.len()) as int, key.len() as int))
    } else {
        None
    }
}

/// The number of non-overlapping occurrences of `sep` in `s`, found from the
/// left; the empty separator occurs at every position.
pub open spec fn count_occurrences(s: Seq<char>, sep: Seq<char>) -> nat
    decreases s.len(),
{
    if sep.len() == 0 {
        s.len() + 1
    } else if s.len() < sep.len() {
        0
    } else if starts_with_seq(s, sep) {
        1 + count_occurrences(s.subrange(sep.len() as int, s.len() as int), sep)
    } else {
        count_occurrences(s.drop_first(), sep)
    }
}

/// The number of segments of `rest` (one more than its separators), as a
/// machine word holds it.
pub open spec fn segment_count(rest: Seq<char>, sep: Seq<char>) -> nat {
    let c = count_occurrences(rest, sep);
    if c < usize::MAX {
        c + 1
    } else {
        usize::MAX as nat
    }
}

/// The first position at or after `i` where `sep` occurs in `s`.
pub open spec fn first_occurrence_from(s: Seq<char>, sep: Seq<char>, i: int) -> Option<int>
    decreases s.len() + 1 - i,
{
    if i < 0 || i + sep.len() > s.len() {
        None
    } else if occurs_at(s, sep, i) {
        Some(i)
    } else {
        first_occurrence_from(s, sep, i + 1)
    }
}

/// Whether the item at `i` belongs to an index and no later item of that
/// index has its identifier: the item that the index keeps for that key.
pub open spec fn kept_by_index(items: Seq<ItemView>, which: IndexKind, i: int) -> bool {
    in_index(which, items[i]) && forall|j: int|
        i < j < items.len() ==> !(in_index(which, #[trigger] items[j]) && items[j].id == items[i].id)
}

/// The items that an index keeps among the first `n`, in order.
pub open spec fn index_entries(items: Seq<ItemView>, which: IndexKind, n: nat) -> Seq<ItemView>
    decreases n,
{
    if n == 0 {
        Seq::empty()
    } else {
        let r = index_entries(items, which, (n - 1) as nat);
        if n - 1 < items.len() && kept_by_index(items, which, n - 1) {
            r.push(items[n - 1])
        } else {
            r
        }
    }
}

/// The entries of the attribute index followed by those of the template
/// index.
pub open spec fn attribute_entries(items: Seq<ItemView>) -> Seq<ItemView> {
    index_entries(items, IndexKind::Attributes, items.len()) + index_entries(
        items,
        IndexKind::Templates,
        items.len(),
    )
}

/// The position of the first text of `sorted` greater than `c`.
pub open spec fn text_pos(sorted: Seq<Seq<char>>, c: Seq<char>) -> int
    decreases sorted.len(),
{
    if sorted.len() == 0 {
        0
    } else if text_less(c, sorted[0]) {
        0
    } else {
        1 + text_pos(sorted.drop_first(), c)
    }
}

/// `sorted` with `c` added in order, unless it holds `c` already.
pub open spec fn insert_distinct(sorted: Seq<Seq<char>>, c: Seq<char>) -> Seq<Seq<char>> {
    if sorted.contains(c) {
        sorted
    } else {
        sorted.insert(text_pos(sorted, c), c)
    }
}

/// The position of the first attribute of `sorted` with a greater key.
pub open spec fn ns_pos(sorted: Seq<NamespaceAttributeView>, x: NamespaceAttributeView) -> int
    decreases sorted.len(),
{
    if sorted.len() == 0 {
        0
    } else if text_less(x.key, sorted[0].key) {
        0
    } else {
        1 + ns_pos(sorted.drop_first(), x)
    }
}

/// The attributes sorted by key, equal keys keeping their order.
pub open spec fn sort_ns_by_key(s: Seq<NamespaceAttributeView>) -> Seq<NamespaceAttributeView>
    decreases s.len(),
{
    if s.len() == 0 {
        Seq::empty()
    } else {
        let r = sort_ns_by_key(s.drop_last());
        r.insert(ns_pos(r, s.last()), s.last())
    }
}

/// The namespace one level below `prefix` that holds a key whose part below
/// `prefix` is `rest`, with its first separator at `pos`.
pub open spec fn child_namespace(prefix: Seq<char>, rest: Seq<char>, sep: Seq<char>, pos: int) -> Seq<
    char,
> {
    if prefix.len() == 0 {
        rest.take(pos)
    } else {
        prefix + sep + rest.take(pos)
    }
}

/// What a walk over attribute entries gathers about a namespace.
pub struct BrowseState {
    /// The child namespaces, in order and each once.
    pub children: Seq<Seq<char>>,
    /// The attributes directly in the namespace, in the order met.
    pub leaves: Seq<NamespaceAttributeView>,
    /// How many entries lie below the namespace.
    pub total: nat,
    /// The greatest number of segments met.
    pub max_depth: nat,
}

/// The walk over `entries`, in order: each entry below `prefix` counts, sets
/// the depth, and adds either its child namespace or itself as a direct
/// attribute.
pub open spec fn browse_walk(entries: Seq<ItemView>, prefix: Seq<char>, sep: Seq<char>) -> BrowseState
    decreases entries.len(),
{
    if entries.len() == 0 {
        BrowseState { children: Seq::empty(), leaves: Seq::empty(), total: 0, max_depth: 0 }
    } else {
        let r = browse_walk(entries.drop_last(), prefix, sep);
        let e = entries.last();
        match remainder(e.id, prefix, sep) {
            None => r,
            Some(rest) => {
                let d = segment_count(rest, sep);
                let md = if d > r.max_depth {
                    d
                } else {
                    r.max_depth
                };
                match first_occurrence_from(rest, sep, 0) {
                    Some(pos) => BrowseState {
                        children: insert_distinct(
                            r.children,
                            child_namespace(prefix, rest, sep, pos),
                        ),
                        leaves: r.leaves,
                        total: r.total + 1,
                        max_depth: md,
                    },
                    None => BrowseState {
                        children: r.children,
                        leaves: r.leaves.push(ns_attribute(e.id, e)),
                        total: r.total + 1,
                        max_depth: md,
                    },
                }
            },
        }
    }
}

/// What lies under the namespace `prefix` (none: the top level), trailing
/// separators of the prefix ignored.
pub open spec fn namespace_info(items: Seq<ItemView>, prefix: Option<Seq<char>>, sep: Seq<char>) -> NamespaceInfoView {
    let p = trim_trailing(
        match prefix {
            Some(x) => x,
            None => Seq::empty(),
        },
        sep,
    );
    let b = browse_walk(attribute_entries(items), p, sep);
    NamespaceInfoView {
        prefix: p,
        child_namespaces: b.children,
        attributes: sort_ns_by_key(b.leaves),
        total_attribute_count: b.total,
        max_depth: b.max_depth,
    }
}

/// The characters of `cs` from `from` to `to`.
fn take_chars(cs: &Vec<char>, from: usize, to: usize) -> (r: Vec<char>)
    requires
        from <= to <= cs@.len(),
    ensures
        r@ == cs@.subrange(from as int, to as int),
{
    let mut r: Vec<char> = Vec::new();
    let mut i: usize = from;
    while i < to
        invariant
            from <= i <= to <= cs@.len(),
            r@ == cs@.subrange(from as int, i as int),
        decreases to - i,
    {
        r.push(cs[i]);
        assert(r@ =~= cs@.subrange(from as int, i + 1));
        i = i + 1;
    }
    r
}

/// `s` with every trailing occurrence of `sep` removed.
fn trim_trailing_chars(s: &Vec<char>, sep: &Vec<char>) -> (r: Vec<char>)
    ensures
        r@ == trim_trailing(s@, sep@),
{
    let k = sep.len();
    let mut end: usize = s.len();
    assert(s@.subrange(0, s@.len() as int) =~= s@);
    while k > 0 && k <= end && occurs_at_exec(s.as_slice(), sep.as_slice(), end - k)
        invariant
            k == sep@.len(),
            end <= s@.len(),
            trim_trailing(s@, sep@) == trim_trailing(s@.subrange(0, end as int), sep@),
        decreases end,
    {
        let ghost t = s@.subrange(0, end as int);
        assert(t.subrange(t.len() - k, t.len() as int) =~= s@.subrange(end - k, end as int));
        assert(t.subrange(0, t.len() - k) =~= s@.subrange(0, end - k));
        end = end - k;
    }
    let ghost t = s@.subrange(0, end as int);
    proof {
        if k > 0 && k <= end {
            assert(t.subrange(t.len() - k, t.len() as int) =~= s@.subrange(end - k, end as int));
        }
    }
    take_chars(s, 0, end)
}

/// The part of `key` below the namespace `prefix`.
fn remainder_chars(key: &Vec<char>, prefix: &Vec<char>, sep: &Vec<char>) -> (r: Option<Vec<char>>)
    ensures
        match r {
            Some(rest) => remainder(key@, prefix@, sep@) == Some(rest@),
            None => remainder(key@, prefix@, sep@) is None,
        },
{
    if prefix.len() == 0 {
        return Some(take_chars(key, 0, key.len()));
    }
    if !starts_with_chars(key.as_slice(), prefix.as_slice()) {
        return None;
    }
    let ghost tail = key@.subrange(prefix@.len() as int, key@.len() as int);
    let at = occurs_at_exec(key.as_slice(), sep.as_slice(), prefix.len());
    proof {
        if at {
            assert(tail.subrange(0, sep@.len() as int) =~= key@.subrange(
                prefix@.len() as int,
                (prefix@.len() + sep@.len()) as int,
            ));
        } else if starts_with_seq(tail, sep@) {
            assert(tail.subrange(0, sep@.len() as int) =~= key@.subrange(
                prefix@.len() as int,
                (prefix@.len() + sep@.len()) as int,
            ));
        }
    }
    if at {
        let pl = prefix.len();
        let sl = sep.len();
        let kl = key.len();
        assert(pl + sl <= kl);
        Some(take_chars(key, pl + sl, kl))
    } else {
        None
    }
}

/// The number of non-overlapping occurrences of `sep` in `s`, as a machine
/// word holds it.
fn count_chars_occurrences(s: &Vec<char>, sep: &Vec<char>) -> (r: usize)
    ensures
        r == if count_occurrences(s@, sep@) < usize::MAX {
            count_occurrences(s@, sep@)
        } else {
            usize::MAX as nat
        },
{
    let k = sep.len();
    if k == 0 {
        let n = s.len();
        return if n < usize::MAX {
            n + 1
        } else {
            n
        };
    }
    let mut count: usize = 0;
    let mut i: usize = 0;
    assert(s@.subrange(0, s@.len() as int) =~= s@);
    while i <= s.len() && k <= s.len() - i
        invariant
            k == sep@.len(),
            k > 0,
            i <= s@.len(),
            count <= i,
            count + count_occurrences(s@.subrange(i as int, s@.len() as int), sep@)
                == count_occurrences(s@, sep@),
        decreases s@.len() - i,
    {
        let ghost t = s@.subrange(i as int, s@.len() as int);
        assert(t.subrange(0, k as int) =~= s@.subrange(i as int, i + k));
        if occurs_at_exec(s.as_slice(), sep.as_slice(), i) {
            assert(t.subrange(k as int, t.len() as int) =~= s@.subrange(i + k, s@.len() as int));
            count = count + 1;
            i = i + k;
        } else {
            assert(t.drop_first() =~= s@.subrange(i + 1, s@.len() as int));
            i = i + 1;
        }
    }
    count
}

/// The first position where `sep` occurs in `s`.
fn first_chars_occurrence(s: &Vec<char>, sep: &Vec<char>) -> (r: Option<usize>)
    ensures
        match r {
            Some(p) => first_occurrence_from(s@, sep@, 0) == Some(p as int),
            None => first_occurrence_from(s@, sep@, 0) is None,
        },
{
    let k = sep.len();
    let mut i: usize = 0;
    while i <= s.len() && k <= s.len() - i
        invariant
            k == sep@.len(),
            i <= s@.len(),
            first_occurrence_from(s@, sep@, 0) == first_occurrence_from(s@, sep@, i as int),
        decreases s@.len() - i,
    {
        proof {
            if k == 0 {
                assert(s@.subrange(i as int, i as int) =~= sep@);
            }
        }
        if occurs_at_exec(s.as_slice(), sep.as_slice(), i) {
            return Some(i);
        }
        i = i + 1;
    }
    None
}

/// Whether an index keeps the item at `i`.
fn kept(items: &Vec<RegistryItem>, which: IndexKind, i: usize) -> (r: bool)
    requires
        i < items@.len(),
    ensures
        r == kept_by_index(item_views(items@), which, i as int),
{
    let ghost all = item_views(items@);
    if !belongs_to(which, &items[i]) {
        return false;
    }
    let len = items.len();
    let mut j: usize = i + 1;
    while j < len
        invariant
            i < j <= items@.len(),
            len == items@.len(),
            all == item_views(items@),
            in_index(which, all[i as int]),
            forall|l: int|
                i < l < j ==> !(in_index(which, #[trigger] all[l]) && all[l].id == all[i as int].id),
        decreases items@.len() - j,
    {
        if belongs_to(which, &items[j]) && str_eq(items[j].id.as_str(), items[i].id.as_str()) {
            assert(in_index(which, all[j as int]) && all[j as int].id == all[i as int].id);
            return false;
        }
        j = j + 1;
    }
    true
}

/// Appends copies of the items that an index keeps, in order.
fn push_index_entries(items: &Vec<RegistryItem>, which: IndexKind, out: &mut Vec<RegistryItem>)
    ensures
        item_views(final(out)@) == item_views(old(out)@) + index_entries(
            item_views(items@),
            which,
            items@.len(),
        ),
{
    let ghost all = item_views(items@);
    let ghost start = item_views(out@);
    let mut n: usize = 0;
    assert(start =~= start + index_entries(all, which, 0));
    while n < items.len()
        invariant
            n <= items@.len(),
            all == item_views(items@),
            item_views(out@) == start + index_entries(all, which, n as nat),
        decreases items@.len() - n,
    {
        let ghost before = item_views(out@);
        if kept(items, which, n) {
            out.push(items[n].copy());
            assert(item_views(out@) =~= before.push(all[n as int]));
            assert(start + index_entries(all, which, (n + 1) as nat) =~= (start + index_entries(
                all,
                which,
                n as nat,
            )).push(all[n as int]));
        }
        n = n + 1;
    }
}

/// Adds `c` in order to the sorted texts, unless they hold it already.
fn insert_text_distinct(sorted: &mut Vec<String>, c: String)
    ensures
        string_views(final(sorted)@) == insert_distinct(string_views(old(sorted)@), c@),
{
    if contains_str(sorted, c.as_str()) {
        return;
    }
    let ghost sv0 = string_views(sorted@);
    let ck = str_chars(c.as_str());
    let mut j: usize = 0;
    assert(sv0.subrange(0, sv0.len() as int) =~= sv0);
    let mut stop = false;
    while j < sorted.len() && !stop
        invariant
            sv0 == string_views(sorted@),
            ck@ == c@,
            j <= sorted@.len(),
            text_pos(sv0, c@) == j + text_pos(sv0.subrange(j as int, sv0.len() as int), c@),
            stop ==> j < sorted@.len() && text_less(c@, sv0[j as int]),
        decreases sorted@.len() - j + (if stop {
            0int
        } else {
            1int
        }),
    {
        let sk = str_chars(sorted[j].as_str());
        if less_text(&ck, &sk) {
            stop = true;
        } else {
            assert(sv0.subrange(j as int, sv0.len() as int).drop_first() =~= sv0.subrange(
                j + 1,
                sv0.len() as int,
            ));
            assert(sv0.subrange(j as int, sv0.len() as int)[0] == sv0[j as int]);
            j = j + 1;
        }
    }
    proof {
        if j < sorted@.len() {
            assert(sv0.subrange(j as int, sv0.len() as int)[0] == sv0[j as int]);
        }
    }
    let ghost before = sorted@;
    let ghost cv = c@;
    sorted.insert(j, c);
    assert(string_views(sorted@) =~= string_views(before).insert(j as int, cv));
}

/// Inserts an attribute before the first one with a greater key.
fn insert_ns_by_key(sorted: &mut Vec<NamespaceAttribute>, x: NamespaceAttribute)
    ensures
        ns_views(final(sorted)@) == ns_views(old(sorted)@).insert(ns_pos(ns_views(old(sorted)@), x@), x@),
{
    let ghost sv0 = ns_views(sorted@);
    let xk = str_chars(x.key.as_str());
    let mut j: usize = 0;
    assert(sv0.subrange(0, sv0.len() as int) =~= sv0);
    let mut stop = false;
    while j < sorted.len() && !stop
        invariant
            sv0 == ns_views(sorted@),
            xk@ == x.key@,
            j <= sorted@.len(),
            ns_pos(sv0, x@) == j + ns_pos(sv0.subrange(j as int, sv0.len() as int), x@),
            stop ==> j < sorted@.len() && text_less(x.key@, sv0[j as int].key),
        decreases sorted@.len() - j + (if stop {
            0int
        } else {
            1int
        }),
    {
        let sk = str_chars(sorted[j].key.as_str());
        if less_text(&xk, &sk) {
            stop = true;
        } else {
            assert(sv0.subrange(j as int, sv0.len() as int).drop_first() =~= sv0.subrange(
                j + 1,
                sv0.len() as int,
            ));
            assert(sv0.subrange(j as int, sv0.len() as int)[0] == sv0[j as int]);
            j = j + 1;
        }
    }
    proof {
        if j < sorted@.len() {
            assert(sv0.subrange(j as int, sv0.len() as int)[0] == sv0[j as int]);
        }
    }
    let ghost before = sorted@;
    let ghost xv = x@;
    sorted.insert(j, x);
    assert(ns_views(sorted@) =~= ns_views(before).insert(j as int, xv));
}

/// The attributes sorted by key, equal keys keeping their order.
fn sort_ns(v: Vec<NamespaceAttribute>) -> (r: Vec<NamespaceAttribute>)
    ensures
        ns_views(r@) == sort_ns_by_key(ns_views(v@)),
{
    let ghost all = ns_views(v@);
    assert(all.len() == v.len());
    let mut rest = crate::vec_util::into_reversed(v);
    let mut out: Vec<NamespaceAttribute> = Vec::new();
    let mut i: usize = 0;
    assert(all.take(0) =~= Seq::<NamespaceAttributeView>::empty());
    assert(ns_views(rest@) =~= all.subrange(0, all.len() as int).reverse());
    while rest.len() > 0
        invariant
            i + rest@.len() == all.len(),
            all.len() <= usize::MAX,
            ns_views(rest@) == all.subrange(i as int, all.len() as int).reverse(),
            ns_views(out@) == sort_ns_by_key(all.take(i as int)),
        decreases rest.len(),
    {
        proof {
            crate::vec_util::lemma_reversed_suffix_pop(all, i as int);
        }
        let ghost rv = rest@;
        let x = rest.pop().unwrap();
        assert(x@ == ns_views(rv).last());
        assert(ns_views(rest@) =~= ns_views(rv).drop_last());
        assert(all.take(i + 1).drop_last() =~= all.take(i as int));
        assert(all.take(i + 1).last() == all[i as int]);
        insert_ns_by_key(&mut out, x);
        i = i + 1;
    }
    assert(all.take(all.len() as int) =~= all);
    out
}

/// What lies under the namespace `prefix` among the attribute and template
/// keys of the registry.
pub fn browse_namespace_items(items: &Vec<RegistryItem>, prefix: Option<&str>, sep: &str) -> (r:
    NamespaceInfo)
    ensures
        r@ == namespace_info(item_views(items@), query_text(prefix), sep@),
{
    let ghost all = item_views(items@);
    let sep_chars = str_chars(sep);
    let raw_prefix = match prefix {
        Some(p) => str_chars(p),
        None => Vec::new(),
    };
    let p = trim_trailing_chars(&raw_prefix, &sep_chars);
    assert(raw_prefix@ == match query_text(prefix) {
        Some(x) => x,
        None => Seq::<char>::empty(),
    });
    let mut entries: Vec<RegistryItem> = Vec::new();
    assert(item_views(entries@) =~= Seq::<ItemView>::empty());
    push_index_entries(items, IndexKind::Attributes, &mut entries);
    push_index_entries(items, IndexKind::Templates, &mut entries);
    let ghost ents = item_views(entries@);
    assert(ents =~= attribute_entries(all));
    let mut children: Vec<String> = Vec::new();
    let mut leaves: Vec<NamespaceAttribute> = Vec::new();
    let mut total: usize = 0;
    let mut max_depth: usize = 0;
    let mut i: usize = 0;
    assert(ents.take(0) =~= Seq::<ItemView>::empty());
    assert(string_views(children@) =~= Seq::<Seq<char>>::empty());
    assert(ns_views(leaves@) =~= Seq::<NamespaceAttributeView>::empty());
    while i < entries.len()
        invariant
            i <= entries@.len(),
            ents == item_views(entries@),
            sep_chars@ == sep@,
            total <= i,
            (BrowseState {
                children: string_views(children@),
                leaves: ns_views(leaves@),
                total: total as nat,
                max_depth: max_depth as nat,
            }) == browse_walk(ents.take(i as int), p@, sep@),
        decreases entries@.len() - i,
    {
        assert(ents.take(i + 1).drop_last() =~= ents.take(i as int));
        assert(ents.take(i + 1).last() == ents[i as int]);
        let e = &entries[i];
        let key = str_chars(e.id.as_str());
        match remainder_chars(&key, &p, &sep_chars) {
            None => {},
            Some(rest) => {
                let c = count_chars_occurrences(&rest, &sep_chars);
                let d = if c < usize::MAX {
                    c + 1
                } else {
                    c
                };
                if d > max_depth {
                    max_depth = d;
                }
                total = total + 1;
                match first_chars_occurrence(&rest, &sep_chars) {
                    Some(pos) => {
                        proof {
                            lemma_first_occurrence_in_bounds(rest@, sep@, 0);
                        }
                        let seg = take_chars(&rest, 0, pos);
                        let child = if p.len() == 0 {
                            string_from_chars(seg.as_slice())
                        } else {
                            let mut whole = take_chars(&p, 0, p.len());
                            let mut k: usize = 0;
                            assert(whole@ =~= p@);
                            while k < sep_chars.len()
                                invariant
                                    k <= sep_chars@.len(),
                                    whole@ == p@ + sep_chars@.subrange(0, k as int),
                                decreases sep_chars@.len() - k,
                            {
                                whole.push(sep_chars[k]);
                                assert(whole@ =~= p@ + sep_chars@.subrange(0, k + 1));
                                k = k + 1;
                            }
                            assert(sep_chars@.subrange(0, sep_chars@.len() as int) =~= sep_chars@);
                            let mut m: usize = 0;
                            let ghost base = whole@;
                            while m < seg.len()
                                invariant
                                    m <= seg@.len(),
                                    whole@ == base + seg@.subrange(0, m as int),
                                decreases seg@.len() - m,
                            {
                                whole.push(seg[m]);
                                assert(whole@ =~= base + seg@.subrange(0, m + 1));
                                m = m + 1;
                            }
                            assert(seg@.subrange(0, seg@.len() as int) =~= seg@);
                            string_from_chars(whole.as_slice())
                        };
                        assert(child@ == child_namespace(p@, rest@, sep@, pos as int));
                        insert_text_distinct(&mut children, child);
                    },
                    None => {
                        let ghost before = ns_views(leaves@);
                        leaves.push(make_ns_attribute(&e.id, e));
                        assert(ns_views(leaves@) =~= before.push(ns_attribute(e.id@, e@)));
                    },
                }
            },
        }
        i = i + 1;
    }
    assert(ents.take(ents.len() as int) =~= ents);
    NamespaceInfo {
        prefix: string_from_chars(p.as_slice()),
        child_namespaces: children,
        attributes: sort_ns(leaves),
        total_attribute_count: total,
        max_depth,
    }
}

/// An occurrence found lies within the text.
proof fn lemma_first_occurrence_in_bounds(s: Seq<char>, sep: Seq<char>, i: int)
    ensures
        first_occurrence_from(s, sep, i) matches Some(p) ==> i <= p && p + sep.len() <= s.len(),
    decreases s.len() + 1 - i,
{
    if !(i < 0 || i + sep.len() > s.len()) && !occurs_at(s, sep, i) {
        lemma_first_occurrence_in_bounds(s, sep, i + 1);
    }
}

} // verus!
