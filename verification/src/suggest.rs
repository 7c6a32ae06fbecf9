//! Suggesting attribute keys for a name that may be misspelled: the same
//! name with its separators fixed, the name itself, keys sharing its
//! tokens, keys sharing its longest prefix, and keys that the search
//! scoring finds, in that order.

use vstd::prelude::*;
use crate::search::{drop_empty, non_empty, score_fields, spec_score, split_into_tokens, split_tokens, SearchType};
use crate::stability::Stability;
use crate::registry_search::{
    browse_namespace_items, check_keys, checked_keys, find_template, in_index, indexed, item_views,
    longest_template, lookup, namespace_info, ns_views, query_text, result_views, results_by_kind,
    search_items, search_results, IndexKind, SearchResult, ItemKind, ItemView, NamespaceAttribute, NamespaceInfo, RegistryItem,
};
use crate::text::{occurs_at, occurs_at_exec, starts_with_chars, starts_with_seq, str_chars, str_eq, string_from_range, string_views};

verus! {

/// What a suggestion reads of an attribute of the registry.
pub struct AttributeSummary {
    /// The key of the attribute.
    pub key: String,
    /// Its brief description.
    pub brief: String,
    /// Its note.
    pub note: String,
    /// Whether it is deprecated.
    pub deprecated: bool,
}

/// Why a key is suggested.
#[derive(Clone, Copy, Debug, PartialEq, Eq, Structural)]
pub enum SuggestionReason {
    /// The name with `_` and `-` replaced by the separator.
    SeparatorNormalized,
    /// The name itself.
    ExactMatch,
    /// A key sharing all tokens of the name but one.
    TokenOverlap,
    /// A key sharing the longest prefix of the name.
    SharedPrefix,
    /// A key that the search scoring finds.
    FuzzySearch,
}

/// A suggested attribute key.
#[derive(Clone, Debug, PartialEq, Eq)]
pub struct Suggestion {
    /// The key.
    pub key: String,
    /// The brief description of the attribute.
    pub brief: String,
    /// Why it is suggested.
    pub reason: SuggestionReason,
}

/// The content of a suggestion.
pub ghost struct SuggestionView {
    pub key: Seq<char>,
    pub brief: Seq<char>,
    pub reason: SuggestionReason,
}

impl View for Suggestion {
    type V = SuggestionView;

    open spec fn view(&self) -> SuggestionView {
        SuggestionView { key: self.key@, brief: self.brief@, reason: self.reason }
    }
}

/// The contents of a list of suggestions.
pub open spec fn suggestions_view(s: Seq<Suggestion>) -> Seq<SuggestionView> {
    s.map_values(|x: Suggestion| x@)
}

/// The lowercase form of a text, as `str::to_lowercase` gives it.
pub uninterp spec fn lowercase(s: Seq<char>) -> Seq<char>;

/// Lowers the case of a text with `str::to_lowercase`.
#[verifier::external_body]
pub(crate) fn to_lowercase(s: &str) -> (r: String)
    ensures
        r@ == lowercase(s@),
{
    s.to_lowercase()
}

/// The keys of the attributes.
pub open spec fn keys_of(attrs: Seq<AttributeSummary>) -> Seq<Seq<char>> {
    attrs.map_values(|a: AttributeSummary| a.key@)
}

/// No two attributes share a key, as in a map.
pub open spec fn distinct_keys(attrs: Seq<AttributeSummary>) -> bool {
    forall|i: int, j: int|
        0 <= i < attrs.len() && 0 <= j < attrs.len() && i != j ==> (#[trigger] attrs[i]).key@
            != (#[trigger] attrs[j]).key@
}

/// The brief of the attribute with key `k`, if there is one.
pub open spec fn brief_of(attrs: Seq<AttributeSummary>, k: Seq<char>) -> Option<Seq<char>> {
    if exists|i: int| 0 <= i < attrs.len() && (#[trigger] attrs[i]).key@ == k {
        let i = choose|i: int| 0 <= i < attrs.len() && (#[trigger] attrs[i]).key@ == k;
        Some(attrs[i].brief@)
    } else {
        None
    }
}

/// `name` with every `_` and `-` replaced by the separator.
pub open spec fn normalize_separators(name: Seq<char>, sep: Seq<char>) -> Seq<char>
    decreases name.len(),
{
    if name.len() == 0 {
        Seq::empty()
    } else {
        normalize_separators(name.drop_last(), sep) + if name.last() == '_' || name.last() == '-' {
            sep
        } else {
            seq![name.last()]
        }
    }
}

/// A suggestion's content.
pub open spec fn sv(key: Seq<char>, brief: Seq<char>, reason: SuggestionReason) -> SuggestionView {
    SuggestionView { key, brief, reason }
}

/// The suggestion of the name with its separators fixed, when that differs
/// from the name and is a key.
pub open spec fn normalized_stage(attrs: Seq<AttributeSummary>, name: Seq<char>, sep: Seq<char>) -> Seq<
    SuggestionView,
> {
    let norm = normalize_separators(name, sep);
    if norm != name && brief_of(attrs, norm) is Some {
        seq![sv(norm, brief_of(attrs, norm)->0, SuggestionReason::SeparatorNormalized)]
    } else {
        Seq::empty()
    }
}

/// The suggestion of the name itself, when it is a key.
pub open spec fn exact_stage(attrs: Seq<AttributeSummary>, name: Seq<char>) -> Seq<SuggestionView> {
    if brief_of(attrs, name) is Some {
        seq![sv(name, brief_of(attrs, name)->0, SuggestionReason::ExactMatch)]
    } else {
        Seq::empty()
    }
}

/// The keys of suggestions.
pub open spec fn suggested_keys(s: Seq<SuggestionView>) -> Seq<Seq<char>> {
    s.map_values(|x: SuggestionView| x.key)
}

/// Replaces `_` and `-` by the separator.
fn normalize(name: &str, sep: &str) -> (r: String)
    ensures
        r@ == normalize_separators(name@, sep@),
{
    let cs = str_chars(name);
    let mut out = String::new();
    let mut i: usize = 0;
    while i < cs.len()
        invariant
            cs@ == name@,
            i <= cs@.len(),
            out@ == normalize_separators(cs@.subrange(0, i as int), sep@),
        decreases cs@.len() - i,
    {
        proof {
            assert(cs@.subrange(0, i + 1).drop_last() =~= cs@.subrange(0, i as int));
        }
        let c = cs[i];
        if c == '_' || c == '-' {
            out.append(sep);
        } else {
            out.push(c);
            proof {
                assert(out@ =~= normalize_separators(cs@.subrange(0, i as int), sep@) + seq![c]);
            }
        }
        i = i + 1;
    }
    proof {
        assert(cs@.subrange(0, cs@.len() as int) =~= cs@);
    }
    out
}

/// The position of the attribute with key `k`, if any.
fn find_key(attrs: &Vec<AttributeSummary>, k: &str) -> (r: Option<usize>)
    requires
        distinct_keys(attrs@),
    ensures
        match r {
            Some(i) => i < attrs@.len() && attrs@[i as int].key@ == k@ && brief_of(attrs@, k@) == Some(
                attrs@[i as int].brief@,
            ),
            None => brief_of(attrs@, k@) is None,
        },
{
    let mut i: usize = 0;
    while i < attrs.len()
        invariant
            distinct_keys(attrs@),
            i <= attrs@.len(),
            forall|j: int| 0 <= j < i ==> (#[trigger] attrs@[j]).key@ != k@,
        decreases attrs@.len() - i,
    {
        if str_eq(attrs[i].key.as_str(), k) {
            proof {
                let j = choose|j: int| 0 <= j < attrs@.len() && (#[trigger] attrs@[j]).key@ == k@;
                if j != i {
                    assert(attrs@[j].key@ != attrs@[i as int].key@);
                }
            }
            return Some(i);
        }
        i = i + 1;
    }
    None
}

/// The tokens of a name: split at the separator's characters, `_` and
/// `-`, empty ones dropped.
pub open spec fn name_tokens(name: Seq<char>, sep: Seq<char>) -> Seq<Seq<char>> {
    non_empty(split_tokens(name, sep, false, true))
}

/// The tokens of a key: split at the separator's characters and `_`, empty
/// ones dropped.
pub open spec fn key_tokens(key: Seq<char>, sep: Seq<char>) -> Seq<Seq<char>> {
    non_empty(split_tokens(key, sep, false, false))
}

/// How many of `toks` (counted with repetition) are among `kts`.
pub open spec fn count_shared(toks: Seq<Seq<char>>, kts: Seq<Seq<char>>) -> nat
    decreases toks.len(),
{
    if toks.len() == 0 {
        0
    } else {
        count_shared(toks.drop_last(), kts) + if kts.contains(toks.last()) {
            1nat
        } else {
            0nat
        }
    }
}

/// A key shares all tokens of the name but at most one.
pub open spec fn overlaps(name: Seq<char>, key: Seq<char>, sep: Seq<char>) -> bool {
    count_shared(name_tokens(name, sep), key_tokens(key, sep)) + 1 >= name_tokens(name, sep).len()
}

/// The attributes, in order, not yet suggested, whose keys overlap the name.
pub open spec fn overlapping(
    attrs: Seq<AttributeSummary>,
    seen: Seq<Seq<char>>,
    name: Seq<char>,
    sep: Seq<char>,
) -> Seq<SuggestionView>
    decreases attrs.len(),
{
    if attrs.len() == 0 {
        Seq::empty()
    } else {
        let r = overlapping(attrs.drop_last(), seen, name, sep);
        let a = attrs.last();
        if !seen.contains(a.key@) && overlaps(name, a.key@, sep) {
            r.push(sv(a.key@, a.brief@, SuggestionReason::TokenOverlap))
        } else {
            r
        }
    }
}

/// The suggestions of keys sharing the tokens of a name of at least two
/// tokens.
pub open spec fn token_stage(
    attrs: Seq<AttributeSummary>,
    seen: Seq<Seq<char>>,
    name: Seq<char>,
    sep: Seq<char>,
) -> Seq<SuggestionView> {
    if name_tokens(name, sep).len() >= 2 {
        overlapping(attrs, seen, name, sep)
    } else {
        Seq::empty()
    }
}

/// Whether a text is among texts.
fn contains_text(ts: &Vec<String>, t: &str) -> (r: bool)
    ensures
        r == string_views(ts@).contains(t@),
{
    crate::text::contains_str(ts, t)
}

/// How many of `toks` are among `kts`.
fn shared_count(toks: &Vec<String>, kts: &Vec<String>) -> (r: usize)
    ensures
        r == count_shared(string_views(toks@), string_views(kts@)),
{
    let ghost tv = string_views(toks@);
    let ghost kv = string_views(kts@);
    let mut n: usize = 0;
    let mut i: usize = 0;
    assert(tv.take(0) =~= Seq::<Seq<char>>::empty());
    while i < toks.len()
        invariant
            tv == string_views(toks@),
            kv == string_views(kts@),
            i <= toks@.len(),
            n == count_shared(tv.take(i as int), kv),
            n <= i,
        decreases toks@.len() - i,
    {
        proof {
            assert(tv.take(i + 1).drop_last() =~= tv.take(i as int));
            assert(tv.take(i + 1).last() == toks@[i as int]@);
        }
        if contains_text(kts, toks[i].as_str()) {
            n = n + 1;
        }
        i = i + 1;
    }
    assert(tv.take(tv.len() as int) =~= tv);
    n
}

/// A suggestion.
fn make_suggestion(key: &String, brief: &String, reason: SuggestionReason) -> (r: Suggestion)
    ensures
        r@ == sv(key@, brief@, reason),
{
    Suggestion { key: key.clone(), brief: brief.clone(), reason }
}

/// The keys of attributes, in order, that overlap the name, with the
/// name's tokens given.
fn overlapping_keys(
    attrs: &Vec<AttributeSummary>,
    seen: &Vec<String>,
    name: &str,
    sep: &str,
    toks: &Vec<String>,
) -> (r: Vec<Suggestion>)
    requires
        string_views(toks@) == name_tokens(name@, sep@),
    ensures
        suggestions_view(r@) == overlapping(attrs@, string_views(seen@), name@, sep@),
{
    let sepc = str_chars(sep);
    let mut out: Vec<Suggestion> = Vec::new();
    let mut i: usize = 0;
    assert(attrs@.take(0) =~= Seq::<AttributeSummary>::empty());
    assert(suggestions_view(out@) =~= Seq::<SuggestionView>::empty());
    while i < attrs.len()
        invariant
            sepc@ == sep@,
            string_views(toks@) == name_tokens(name@, sep@),
            i <= attrs@.len(),
            suggestions_view(out@) == overlapping(attrs@.take(i as int), string_views(seen@), name@, sep@),
        decreases attrs@.len() - i,
    {
        proof {
            assert(attrs@.take(i + 1).drop_last() =~= attrs@.take(i as int));
            assert(attrs@.take(i + 1).last() == attrs@[i as int]);
        }
        let a = &attrs[i];
        if !contains_text(seen, a.key.as_str()) {
            let kts = drop_empty(split_into_tokens(a.key.as_str(), &sepc, false, false));
            let shared = shared_count(toks, &kts);
            if toks.len() == 0 || shared >= toks.len() - 1 {
                let ghost before = out@;
                out.push(make_suggestion(&a.key, &a.brief, SuggestionReason::TokenOverlap));
                proof {
                    assert(suggestions_view(out@) =~= suggestions_view(before).push(
                        sv(a.key@, a.brief@, SuggestionReason::TokenOverlap),
                    ));
                }
            }
        }
        i = i + 1;
    }
    assert(attrs@.take(attrs@.len() as int) =~= attrs@);
    out
}

/// The positions where the segments of `s` split at `sep` start, from
/// position `i` on (matches are found left to right, without overlap, as
/// `str::split` finds them; the empty separator matches at every position),
/// after those already in `acc`.
pub open spec fn bounds_from(s: Seq<char>, sep: Seq<char>, i: int, acc: Seq<int>) -> Seq<int>
    decreases s.len() + 1 - i,
{
    if i < 0 || i + sep.len() > s.len() {
        acc
    } else if sep.len() == 0 {
        bounds_from(s, sep, i + 1, acc.push(i))
    } else if occurs_at(s, sep, i) {
        bounds_from(s, sep, i + sep.len(), acc.push(i + sep.len()))
    } else {
        bounds_from(s, sep, i + 1, acc)
    }
}

/// The starting positions of the segments of `s` split at `sep`: 0, then
/// the end of each match.
pub open spec fn segment_starts(s: Seq<char>, sep: Seq<char>) -> Seq<int> {
    bounds_from(s, sep, 0, seq![0])
}

/// Whether `a` comes before `b` in the order of strings (by characters).
pub open spec fn text_less(a: Seq<char>, b: Seq<char>) -> bool
    decreases a.len(),
{
    if a.len() == 0 {
        b.len() > 0
    } else if b.len() == 0 {
        false
    } else if a[0] != b[0] {
        a[0] < b[0]
    } else {
        text_less(a.drop_first(), b.drop_first())
    }
}

/// The position before which `x` goes among `sorted`: the first element
/// with a greater key.
pub open spec fn key_insert_pos(sorted: Seq<SuggestionView>, x: SuggestionView) -> int
    decreases sorted.len(),
{
    if sorted.len() == 0 {
        0
    } else if text_less(x.key, sorted[0].key) {
        0
    } else {
        1 + key_insert_pos(sorted.drop_first(), x)
    }
}

/// The suggestions sorted by key, equal keys keeping their order.
pub open spec fn sort_by_key(s: Seq<SuggestionView>) -> Seq<SuggestionView>
    decreases s.len(),
{
    if s.len() == 0 {
        Seq::empty()
    } else {
        let r = sort_by_key(s.drop_last());
        r.insert(key_insert_pos(r, s.last()), s.last())
    }
}

/// The attributes, in order, not yet suggested, whose keys start with `p`.
pub open spec fn prefixed(attrs: Seq<AttributeSummary>, seen: Seq<Seq<char>>, p: Seq<char>) -> Seq<
    SuggestionView,
>
    decreases attrs.len(),
{
    if attrs.len() == 0 {
        Seq::empty()
    } else {
        let r = prefixed(attrs.drop_last(), seen, p);
        let a = attrs.last();
        if !seen.contains(a.key@) && starts_with_seq(a.key@, p) {
            r.push(sv(a.key@, a.brief@, SuggestionReason::SharedPrefix))
        } else {
            r
        }
    }
}

/// The suggestions for the longest shared prefix, trying the prefixes of
/// the name that end after its `k`-th separator, `k` going down to 1.
pub open spec fn prefix_search(
    attrs: Seq<AttributeSummary>,
    seen: Seq<Seq<char>>,
    name: Seq<char>,
    starts: Seq<int>,
    k: int,
) -> Seq<SuggestionView>
    decreases k,
{
    if k < 1 || k >= starts.len() {
        Seq::empty()
    } else {
        let m = prefixed(attrs, seen, name.subrange(0, starts[k]));
        if m.len() > 0 {
            sort_by_key(m)
        } else {
            prefix_search(attrs, seen, name, starts, k - 1)
        }
    }
}

/// The suggestions of keys sharing the longest prefix with the name, when
/// the name has a separator.
pub open spec fn prefix_stage(
    attrs: Seq<AttributeSummary>,
    seen: Seq<Seq<char>>,
    name: Seq<char>,
    sep: Seq<char>,
) -> Seq<SuggestionView> {
    let starts = segment_starts(name, sep);
    if starts.len() >= 2 {
        prefix_search(attrs, seen, name, starts, starts.len() - 1)
    } else {
        Seq::empty()
    }
}

/// The positions where the segments of `name` split at `sep` start.
fn segment_positions(name: &Vec<char>, sep: &Vec<char>) -> (r: Vec<usize>)
    ensures
        r@.map_values(|x: usize| x as int) == segment_starts(name@, sep@),
        forall|j: int| 0 <= j < r@.len() ==> r@[j] <= name@.len(),
{
    let mut acc: Vec<usize> = Vec::new();
    acc.push(0);
    let mut i: usize = 0;
    let n = name.len();
    let m = sep.len();
    assert(acc@.map_values(|x: usize| x as int) =~= seq![0int]);
    if m == 0 {
        while i <= n
            invariant
                n == name@.len(),
                m == sep@.len(),
                m == 0,
                i <= n + 1,
                segment_starts(name@, sep@) == bounds_from(
                    name@,
                    sep@,
                    i as int,
                    acc@.map_values(|x: usize| x as int),
                ),
                forall|j: int| 0 <= j < acc@.len() ==> acc@[j] <= n,
            decreases n + 1 - i,
        {
            let ghost before = acc@;
            acc.push(i);
            proof {
                assert(acc@.map_values(|x: usize| x as int) =~= before.map_values(|x: usize| x as int).push(
                    i as int,
                ));
            }
            proof {
                let am = acc@.map_values(|x: usize| x as int);
                assert(bounds_from(name@, sep@, i as int, before.map_values(|x: usize| x as int))
                    == bounds_from(name@, sep@, i + 1, am));
            }
            if i == n {
                proof {
                    let am = acc@.map_values(|x: usize| x as int);
                    assert(bounds_from(name@, sep@, n + 1, am) == am);
                }
                return acc;
            }
            i = i + 1;
        }
        return acc;
    }
    while m <= n && i <= n - m
        invariant
            n == name@.len(),
            m == sep@.len(),
            m > 0,
            segment_starts(name@, sep@) == bounds_from(
                name@,
                sep@,
                i as int,
                acc@.map_values(|x: usize| x as int),
            ),
            forall|j: int| 0 <= j < acc@.len() ==> acc@[j] <= n,
        decreases n - i,
    {
        if occurs_at_exec(name.as_slice(), sep.as_slice(), i) {
            let ghost before = acc@;
            acc.push(i + m);
            proof {
                assert(acc@.map_values(|x: usize| x as int) =~= before.map_values(|x: usize| x as int).push(
                    i + m,
                ));
            }
            i = i + m;
        } else {
            i = i + 1;
        }
    }
    acc
}

/// Whether `a` comes before `b` in the order of strings.
pub(crate) fn less_text(a: &Vec<char>, b: &Vec<char>) -> (r: bool)
    ensures
        r == text_less(a@, b@),
{
    let mut i: usize = 0;
    assert(a@.subrange(0, a@.len() as int) =~= a@);
    assert(b@.subrange(0, b@.len() as int) =~= b@);
    while i < a.len() && i < b.len() && a[i] == b[i]
        invariant
            i <= a@.len(),
            i <= b@.len(),
            text_less(a@, b@) == text_less(a@.subrange(i as int, a@.len() as int), b@.subrange(
                i as int,
                b@.len() as int,
            )),
        decreases a@.len() - i,
    {
        proof {
            assert(a@.subrange(i as int, a@.len() as int).drop_first() =~= a@.subrange(
                i + 1,
                a@.len() as int,
            ));
            assert(b@.subrange(i as int, b@.len() as int).drop_first() =~= b@.subrange(
                i + 1,
                b@.len() as int,
            ));
        }
        i = i + 1;
    }
    proof {
        if i < a@.len() {
            assert(a@.subrange(i as int, a@.len() as int)[0] == a@[i as int]);
        }
        if i < b@.len() {
            assert(b@.subrange(i as int, b@.len() as int)[0] == b@[i as int]);
        }
    }
    if i == a.len() {
        i < b.len()
    } else if i == b.len() {
        false
    } else {
        a[i] < b[i]
    }
}

/// Inserts a suggestion before the first one with a greater key.
fn insert_by_key(sorted: &mut Vec<Suggestion>, x: Suggestion)
    ensures
        suggestions_view(final(sorted)@) == suggestions_view(old(sorted)@).insert(
            key_insert_pos(suggestions_view(old(sorted)@), x@),
            x@,
        ),
{
    let ghost sv0 = suggestions_view(sorted@);
    let xk = str_chars(x.key.as_str());
    let mut j: usize = 0;
    assert(sv0.subrange(0, sv0.len() as int) =~= sv0);
    let mut stop = false;
    while j < sorted.len() && !stop
        invariant
            sv0 == suggestions_view(sorted@),
            xk@ == x.key@,
            j <= sorted@.len(),
            key_insert_pos(sv0, x@) == j + key_insert_pos(sv0.subrange(j as int, sv0.len() as int), x@),
            stop ==> j < sorted@.len() && text_less(x.key@, sv0[j as int].key),
        decreases sorted@.len() - j + (if stop { 0int } else { 1int }),
    {
        let sk = str_chars(sorted[j].key.as_str());
        if less_text(&xk, &sk) {
            stop = true;
        } else {
            proof {
                assert(sv0.subrange(j as int, sv0.len() as int).drop_first() =~= sv0.subrange(
                    j + 1,
                    sv0.len() as int,
                ));
                assert(sv0.subrange(j as int, sv0.len() as int)[0] == sv0[j as int]);
            }
            j = j + 1;
        }
    }
    proof {
        if j < sorted@.len() {
            assert(sv0.subrange(j as int, sv0.len() as int)[0] == sv0[j as int]);
        }
    }
    let ghost before = sorted@;
    sorted.insert(j, x);
    proof {
        assert(suggestions_view(sorted@) =~= suggestions_view(before).insert(j as int, x@));
    }
}

/// The suggestions of attributes not yet suggested whose keys start with
/// `p`, in order.
fn prefixed_keys(attrs: &Vec<AttributeSummary>, seen: &Vec<String>, p: &Vec<char>) -> (r: Vec<
    Suggestion,
>)
    ensures
        suggestions_view(r@) == prefixed(attrs@, string_views(seen@), p@),
{
    let mut out: Vec<Suggestion> = Vec::new();
    let mut i: usize = 0;
    assert(attrs@.take(0) =~= Seq::<AttributeSummary>::empty());
    assert(suggestions_view(out@) =~= Seq::<SuggestionView>::empty());
    while i < attrs.len()
        invariant
            i <= attrs@.len(),
            suggestions_view(out@) == prefixed(attrs@.take(i as int), string_views(seen@), p@),
        decreases attrs@.len() - i,
    {
        proof {
            assert(attrs@.take(i + 1).drop_last() =~= attrs@.take(i as int));
            assert(attrs@.take(i + 1).last() == attrs@[i as int]);
        }
        let a = &attrs[i];
        if !contains_text(seen, a.key.as_str()) {
            let kc = str_chars(a.key.as_str());
            if starts_with_chars(kc.as_slice(), p.as_slice()) {
                let ghost before = out@;
                out.push(make_suggestion(&a.key, &a.brief, SuggestionReason::SharedPrefix));
                proof {
                    assert(suggestions_view(out@) =~= suggestions_view(before).push(
                        sv(a.key@, a.brief@, SuggestionReason::SharedPrefix),
                    ));
                }
            }
        }
        i = i + 1;
    }
    assert(attrs@.take(attrs@.len() as int) =~= attrs@);
    out
}

/// Sorts suggestions by key, keeping the order of equal keys.
fn sort_suggestions_by_key(v: Vec<Suggestion>) -> (r: Vec<Suggestion>)
    ensures
        suggestions_view(r@) == sort_by_key(suggestions_view(v@)),
{
    let ghost all = suggestions_view(v@);
    assert(all.len() == v.len());
    let mut rest = crate::vec_util::into_reversed(v);
    let mut out: Vec<Suggestion> = Vec::new();
    let mut i: usize = 0;
    proof {
        assert(all.take(0) =~= Seq::<SuggestionView>::empty());
        assert(suggestions_view(rest@) =~= all.subrange(0, all.len() as int).reverse());
    }
    while rest.len() > 0
        invariant
            i + rest@.len() == all.len(),
            all.len() <= usize::MAX,
            suggestions_view(rest@) == all.subrange(i as int, all.len() as int).reverse(),
            suggestions_view(out@) == sort_by_key(all.take(i as int)),
        decreases rest.len(),
    {
        proof {
            crate::vec_util::lemma_reversed_suffix_pop(all, i as int);
        }
        let ghost rv = rest@;
        let x = rest.pop().unwrap();
        proof {
            assert(x@ == suggestions_view(rv).last());
            assert(suggestions_view(rest@) =~= suggestions_view(rv).drop_last());
            assert(all.take(i + 1).drop_last() =~= all.take(i as int));
            assert(all.take(i + 1).last() == all[i as int]);
        }
        insert_by_key(&mut out, x);
        i = i + 1;
    }
    proof {
        assert(all.take(all.len() as int) =~= all);
    }
    out
}

/// The relevance of an attribute to a name, all texts lowercased.
pub open spec fn attribute_score(a: AttributeSummary, name: Seq<char>, sep: Seq<char>) -> u32 {
    spec_score(lowercase(name), lowercase(a.key@), lowercase(a.brief@), lowercase(a.note@), a.deprecated, sep)
}

/// The attributes, in order, not yet suggested, that score above zero, with
/// their scores.
pub open spec fn fuzzy_candidates(
    attrs: Seq<AttributeSummary>,
    seen: Seq<Seq<char>>,
    name: Seq<char>,
    sep: Seq<char>,
) -> Seq<(u32, SuggestionView)>
    decreases attrs.len(),
{
    if attrs.len() == 0 {
        Seq::empty()
    } else {
        let r = fuzzy_candidates(attrs.drop_last(), seen, name, sep);
        let a = attrs.last();
        if !seen.contains(a.key@) && attribute_score(a, name, sep) > 0 {
            r.push((attribute_score(a, name, sep), sv(a.key@, a.brief@, SuggestionReason::FuzzySearch)))
        } else {
            r
        }
    }
}

/// The position before which `x` goes among `sorted`: the first element
/// with a lower score.
pub open spec fn score_insert_pos<T>(sorted: Seq<(u32, T)>, x: (u32, T)) -> int
    decreases sorted.len(),
{
    if sorted.len() == 0 {
        0
    } else if sorted[0].0 < x.0 {
        0
    } else {
        1 + score_insert_pos(sorted.drop_first(), x)
    }
}

/// Scored values by decreasing score, equal scores keeping their order.
pub open spec fn sort_by_score<T>(s: Seq<(u32, T)>) -> Seq<(u32, T)>
    decreases s.len(),
{
    if s.len() == 0 {
        Seq::empty()
    } else {
        let r = sort_by_score(s.drop_last());
        r.insert(score_insert_pos(r, s.last()), s.last())
    }
}

/// The suggestions that the search scoring finds, best first.
pub open spec fn fuzzy_stage(
    attrs: Seq<AttributeSummary>,
    seen: Seq<Seq<char>>,
    name: Seq<char>,
    sep: Seq<char>,
) -> Seq<SuggestionView> {
    sort_by_score(fuzzy_candidates(attrs, seen, name, sep)).map_values(
        |p: (u32, SuggestionView)| p.1,
    )
}

/// The views of scored suggestions.
pub open spec fn scored_view(s: Seq<(u32, Suggestion)>) -> Seq<(u32, SuggestionView)> {
    s.map_values(|p: (u32, Suggestion)| (p.0, p.1@))
}

/// The scored suggestions of the attributes not yet suggested.
fn scored_candidates(attrs: &Vec<AttributeSummary>, seen: &Vec<String>, name: &str, sep: &str) -> (r:
    Vec<(u32, Suggestion)>)
    ensures
        scored_view(r@) == fuzzy_candidates(attrs@, string_views(seen@), name@, sep@),
{
    let name_lower = to_lowercase(name);
    let mut out: Vec<(u32, Suggestion)> = Vec::new();
    let mut i: usize = 0;
    assert(attrs@.take(0) =~= Seq::<AttributeSummary>::empty());
    assert(scored_view(out@) =~= Seq::<(u32, SuggestionView)>::empty());
    while i < attrs.len()
        invariant
            name_lower@ == lowercase(name@),
            i <= attrs@.len(),
            scored_view(out@) == fuzzy_candidates(attrs@.take(i as int), string_views(seen@), name@, sep@),
        decreases attrs@.len() - i,
    {
        proof {
            assert(attrs@.take(i + 1).drop_last() =~= attrs@.take(i as int));
            assert(attrs@.take(i + 1).last() == attrs@[i as int]);
        }
        let a = &attrs[i];
        if !contains_text(seen, a.key.as_str()) {
            let key_lower = to_lowercase(a.key.as_str());
            let brief_lower = to_lowercase(a.brief.as_str());
            let note_lower = to_lowercase(a.note.as_str());
            let score = score_fields(
                name_lower.as_str(),
                key_lower.as_str(),
                brief_lower.as_str(),
                note_lower.as_str(),
                a.deprecated,
                sep,
            );
            if score > 0 {
                let ghost before = out@;
                out.push((score, make_suggestion(&a.key, &a.brief, SuggestionReason::FuzzySearch)));
                proof {
                    assert(scored_view(out@) =~= scored_view(before).push(
                        (score, sv(a.key@, a.brief@, SuggestionReason::FuzzySearch)),
                    ));
                }
            }
        }
        i = i + 1;
    }
    assert(attrs@.take(attrs@.len() as int) =~= attrs@);
    out
}

/// Inserts a scored suggestion before the first one with a lower score.
fn insert_by_score(sorted: &mut Vec<(u32, Suggestion)>, x: (u32, Suggestion))
    ensures
        scored_view(final(sorted)@) == scored_view(old(sorted)@).insert(
            score_insert_pos(scored_view(old(sorted)@), (x.0, x.1@)),
            (x.0, x.1@),
        ),
{
    let ghost sv0 = scored_view(sorted@);
    let ghost xv = (x.0, x.1@);
    let mut j: usize = 0;
    assert(sv0.subrange(0, sv0.len() as int) =~= sv0);
    while j < sorted.len() && sorted[j].0 >= x.0
        invariant
            sv0 == scored_view(sorted@),
            xv == (x.0, x.1@),
            j <= sorted@.len(),
            score_insert_pos(sv0, xv) == j + score_insert_pos(sv0.subrange(j as int, sv0.len() as int), xv),
        decreases sorted@.len() - j,
    {
        proof {
            assert(sv0.subrange(j as int, sv0.len() as int).drop_first() =~= sv0.subrange(
                j + 1,
                sv0.len() as int,
            ));
            assert(sv0.subrange(j as int, sv0.len() as int)[0] == sv0[j as int]);
        }
        j = j + 1;
    }
    proof {
        if j < sorted@.len() {
            assert(sv0.subrange(j as int, sv0.len() as int)[0] == sv0[j as int]);
        }
    }
    let ghost before = sorted@;
    sorted.insert(j, x);
    proof {
        assert(scored_view(sorted@) =~= scored_view(before).insert(j as int, xv));
    }
}

/// Sorts scored suggestions by decreasing score and drops the scores.
fn sort_scored(v: Vec<(u32, Suggestion)>) -> (r: Vec<Suggestion>)
    ensures
        suggestions_view(r@) == sort_by_score(scored_view(v@)).map_values(
            |p: (u32, SuggestionView)| p.1,
        ),
{
    let ghost all = scored_view(v@);
    assert(all.len() == v.len());
    let mut rest = crate::vec_util::into_reversed(v);
    let mut sorted: Vec<(u32, Suggestion)> = Vec::new();
    let mut i: usize = 0;
    proof {
        assert(all.take(0) =~= Seq::<(u32, SuggestionView)>::empty());
        assert(scored_view(rest@) =~= all.subrange(0, all.len() as int).reverse());
    }
    while rest.len() > 0
        invariant
            i + rest@.len() == all.len(),
            all.len() <= usize::MAX,
            scored_view(rest@) == all.subrange(i as int, all.len() as int).reverse(),
            scored_view(sorted@) == sort_by_score(all.take(i as int)),
        decreases rest.len(),
    {
        proof {
            crate::vec_util::lemma_reversed_suffix_pop(all, i as int);
        }
        let ghost rv = rest@;
        let x = rest.pop().unwrap();
        proof {
            assert((x.0, x.1@) == scored_view(rv).last());
            assert(scored_view(rest@) =~= scored_view(rv).drop_last());
            assert(all.take(i + 1).drop_last() =~= all.take(i as int));
            assert(all.take(i + 1).last() == all[i as int]);
        }
        insert_by_score(&mut sorted, x);
        i = i + 1;
    }
    proof {
        assert(all.take(all.len() as int) =~= all);
    }
    let ghost sorted_all = scored_view(sorted@);
    assert(sorted_all.len() == sorted.len());
    let mut out: Vec<Suggestion> = Vec::new();
    let mut rest2 = crate::vec_util::into_reversed(sorted);
    let mut k: usize = 0;
    proof {
        assert(scored_view(rest2@) =~= sorted_all.subrange(0, sorted_all.len() as int).reverse());
        assert(suggestions_view(out@) =~= sorted_all.take(0).map_values(|p: (u32, SuggestionView)| p.1));
    }
    while rest2.len() > 0
        invariant
            k + rest2@.len() == sorted_all.len(),
            sorted_all.len() <= usize::MAX,
            scored_view(rest2@) == sorted_all.subrange(k as int, sorted_all.len() as int).reverse(),
            suggestions_view(out@) == sorted_all.take(k as int).map_values(|p: (u32, SuggestionView)| p.1),
        decreases rest2.len(),
    {
        proof {
            crate::vec_util::lemma_reversed_suffix_pop(sorted_all, k as int);
        }
        let ghost rv = rest2@;
        let x = rest2.pop().unwrap();
        proof {
            assert((x.0, x.1@) == scored_view(rv).last());
            assert(scored_view(rest2@) =~= scored_view(rv).drop_last());
        }
        let ghost before = out@;
        out.push(x.1);
        proof {
            assert(sorted_all[k as int] == (x.0, x.1@));
            assert(suggestions_view(out@) =~= suggestions_view(before).push(x.1@));
            assert(sorted_all.take(k + 1).map_values(|p: (u32, SuggestionView)| p.1) =~= sorted_all.take(
                k as int,
            ).map_values(|p: (u32, SuggestionView)| p.1).push(x.1@));
        }
        k = k + 1;
    }
    proof {
        assert(sorted_all.take(sorted_all.len() as int) =~= sorted_all);
    }
    out
}

/// Everything suggested for `name` among the attributes `attrs` (in their
/// index order) with namespace separator `sep`, before the limit applies:
/// the normalized name, the name itself, keys sharing its tokens, keys
/// sharing its longest prefix, and keys the search scoring finds, each key
/// at most once.
pub open spec fn spec_all_suggestions(
    attrs: Seq<AttributeSummary>,
    sep: Seq<char>,
    name: Seq<char>,
) -> Seq<SuggestionView> {
    let s1 = normalized_stage(attrs, name, sep) + exact_stage(attrs, name);
    let seen2 = suggested_keys(s1);
    let s2 = token_stage(attrs, seen2, name, sep);
    let seen3 = seen2 + suggested_keys(s2);
    let s3 = prefix_stage(attrs, seen3, name, sep);
    let seen4 = seen3 + suggested_keys(s3);
    s1 + s2 + s3 + fuzzy_stage(attrs, seen4, name, sep)
}

/// The suggestions for `name`: at most `limit`, and never more than 20.
pub open spec fn spec_suggest(
    attrs: Seq<AttributeSummary>,
    sep: Seq<char>,
    name: Seq<char>,
    limit: usize,
) -> Seq<SuggestionView> {
    let all = spec_all_suggestions(attrs, sep, name);
    let n: int = if limit < 20 {
        limit as int
    } else {
        20
    };
    if all.len() > n {
        all.take(n)
    } else {
        all
    }
}

/// The index that a map keyed by attribute key holds after inserting the
/// attributes in order: a later attribute replaces an earlier one with the
/// same key, in its place.
pub open spec fn index_of_attributes(s: Seq<AttributeSummary>) -> Seq<AttributeSummary>
    decreases s.len(),
{
    if s.len() == 0 {
        Seq::empty()
    } else {
        let r = index_of_attributes(s.drop_last());
        let a = s.last();
        if exists|i: int| 0 <= i < r.len() && (#[trigger] r[i]).key@ == a.key@ {
            let i = choose|i: int| 0 <= i < r.len() && (#[trigger] r[i]).key@ == a.key@;
            r.update(i, a)
        } else {
            r.push(a)
        }
    }
}

/// Appends the keys of suggestions to the keys already suggested.
fn push_keys(seen: &mut Vec<String>, s: &Vec<Suggestion>)
    ensures
        string_views(final(seen)@) == string_views(old(seen)@) + suggested_keys(suggestions_view(s@)),
{
    let ghost start = string_views(seen@);
    let mut i: usize = 0;
    while i < s.len()
        invariant
            i <= s@.len(),
            string_views(seen@) == start + suggested_keys(suggestions_view(s@)).take(i as int),
        decreases s@.len() - i,
    {
        let ghost before = seen@;
        seen.push(s[i].key.clone());
        proof {
            assert(string_views(seen@) =~= string_views(before).push(s@[i as int].key@));
            assert(suggested_keys(suggestions_view(s@)).take(i + 1) =~= suggested_keys(
                suggestions_view(s@),
            ).take(i as int).push(s@[i as int].key@));
        }
        i = i + 1;
    }
    assert(suggested_keys(suggestions_view(s@)).take(s@.len() as int) =~= suggested_keys(
        suggestions_view(s@),
    ));
}

/// Appends suggestions.
fn append_suggestions(out: &mut Vec<Suggestion>, more: Vec<Suggestion>)
    ensures
        suggestions_view(final(out)@) == suggestions_view(old(out)@) + suggestions_view(more@),
{
    let mut m = more;
    let ghost a = out@;
    let ghost b = m@;
    out.append(&mut m);
    assert(suggestions_view(out@) =~= suggestions_view(a) + suggestions_view(b));
}

/// What a suggestion reads of an attribute item.
pub open spec fn summary_of(it: RegistryItem) -> AttributeSummary {
    AttributeSummary { key: it.id, brief: it.brief, note: it.note, deprecated: it.deprecated }
}

/// What suggestions read of the attributes (not the templates) among the
/// items, in order.
pub open spec fn attribute_summaries(items: Seq<RegistryItem>) -> Seq<AttributeSummary>
    decreases items.len(),
{
    if items.len() == 0 {
        Seq::empty()
    } else {
        let r = attribute_summaries(items.drop_last());
        if in_index(IndexKind::Attributes, items.last()@) {
            r.push(summary_of(items.last()))
        } else {
            r
        }
    }
}

/// A search context over the items of a registry: the items in order, for
/// searching and lookups, and the attributes indexed by key, for
/// suggestions.
pub struct SearchContext {
    attributes: Vec<AttributeSummary>,
    items: Vec<RegistryItem>,
    separator: String,
}

impl SearchContext {
    /// The context holds no two attributes with one key.
    #[verifier::type_invariant]
    spec fn keys_are_distinct(self) -> bool {
        distinct_keys(self.attributes@)
    }

    /// The attributes of the index, in the order suggestions consider them.
    pub closed spec fn index(self) -> Seq<AttributeSummary> {
        self.attributes@
    }

    /// The namespace separator.
    pub closed spec fn separator_text(self) -> Seq<char> {
        self.separator@
    }

    /// The items of the registry, in order.
    pub closed spec fn items(self) -> Seq<ItemView> {
        item_views(self.items@)
    }

    /// Indexes attributes by key: a later attribute replaces an earlier one
    /// with the same key.
    fn index_attributes(attributes: Vec<AttributeSummary>) -> (index: Vec<AttributeSummary>)
        ensures
            index@ == index_of_attributes(attributes@),
            distinct_keys(index@),
    {
        let ghost all = attributes@;
        assert(all.len() == attributes.len());
        let mut rest = crate::vec_util::into_reversed(attributes);
        let mut index: Vec<AttributeSummary> = Vec::new();
        let mut i: usize = 0;
        proof {
            assert(all.take(0) =~= Seq::<AttributeSummary>::empty());
            assert(all.subrange(0, all.len() as int) =~= all);
        }
        while rest.len() > 0
            invariant
                i + rest@.len() == all.len(),
                all.len() <= usize::MAX,
                rest@ == all.subrange(i as int, all.len() as int).reverse(),
                index@ == index_of_attributes(all.take(i as int)),
                distinct_keys(index@),
            decreases rest.len(),
        {
            proof {
                crate::vec_util::lemma_reversed_suffix_pop(all, i as int);
                assert(all.take(i + 1).drop_last() =~= all.take(i as int));
                assert(all.take(i + 1).last() == all[i as int]);
            }
            let a = rest.pop().unwrap();
            let ghost before = index@;
            match find_key(&index, a.key.as_str()) {
                Some(k) => {
                    proof {
                        let j = choose|j: int| 0 <= j < before.len() && (#[trigger] before[j]).key@ == a.key@;
                        if j != k {
                            assert(before[j].key@ != before[k as int].key@);
                        }
                    }
                    index.set(k, a);
                    proof {
                        assert forall|x: int, y: int|
                            0 <= x < index@.len() && 0 <= y < index@.len() && x != y implies (
                            #[trigger] index@[x]).key@ != (#[trigger] index@[y]).key@ by {
                            assert(before[x].key@ != before[y].key@);
                        }
                    }
                },
                None => {
                    proof {
                        assert(!exists|j: int| 0 <= j < before.len() && (#[trigger] before[j]).key@ == a.key@) by {
                            if exists|j: int| 0 <= j < before.len() && (#[trigger] before[j]).key@ == a.key@ {
                                let j = choose|j: int| 0 <= j < before.len() && (#[trigger] before[j]).key@ == a.key@;
                                assert(brief_of(before, a.key@) is Some);
                            }
                        }
                    }
                    index.push(a);
                    proof {
                        assert forall|x: int, y: int|
                            0 <= x < index@.len() && 0 <= y < index@.len() && x != y implies (
                            #[trigger] index@[x]).key@ != (#[trigger] index@[y]).key@ by {
                            if x < before.len() && y < before.len() {
                                assert(before[x].key@ != before[y].key@);
                            }
                        }
                    }
                },
            }
            i = i + 1;
        }
        proof {
            assert(all.take(all.len() as int) =~= all);
        }
        index
    }

    /// Builds a search context over the items of a registry with the
    /// default namespace separator, `.`.
    pub fn from_registry(items: Vec<RegistryItem>) -> (r: SearchContext)
        ensures
            r.items() == item_views(items@),
            r.index() == index_of_attributes(attribute_summaries(items@)),
            r.separator_text() == seq!['.'],
    {
        let mut sep = String::new();
        sep.push('.');
        Self::from_registry_with_separator(items, sep)
    }

    /// Builds a search context over the items of a registry with the given
    /// namespace separator.
    pub fn from_registry_with_separator(items: Vec<RegistryItem>, separator: String) -> (r:
        SearchContext)
        ensures
            r.items() == item_views(items@),
            r.index() == index_of_attributes(attribute_summaries(items@)),
            r.separator_text() == separator@,
    {
        let ghost all = items@;
        assert(all.len() == items.len());
        let mut rest = crate::vec_util::into_reversed(items);
        let mut kept: Vec<RegistryItem> = Vec::new();
        let mut summaries: Vec<AttributeSummary> = Vec::new();
        let mut i: usize = 0;
        proof {
            assert(all.take(0) =~= Seq::<RegistryItem>::empty());
            assert(all.subrange(0, all.len() as int) =~= all);
            assert(item_views(kept@) =~= Seq::<ItemView>::empty());
        }
        while rest.len() > 0
            invariant
                i + rest@.len() == all.len(),
                all.len() <= usize::MAX,
                rest@ == all.subrange(i as int, all.len() as int).reverse(),
                item_views(kept@) == item_views(all.take(i as int)),
                summaries@ == attribute_summaries(all.take(i as int)),
            decreases rest.len(),
        {
            proof {
                crate::vec_util::lemma_reversed_suffix_pop(all, i as int);
                assert(all.take(i + 1).drop_last() =~= all.take(i as int));
                assert(all.take(i + 1).last() == all[i as int]);
            }
            let ghost rv = rest@;
            let x = rest.pop().unwrap();
            proof {
                assert(x == rv.last());
                assert(rest@ =~= all.subrange(i + 1, all.len() as int).reverse());
            }
            let ghost before = kept@;
            kept.push(x.copy());
            proof {
                assert(item_views(kept@) =~= item_views(before).push(all[i as int]@));
                assert(item_views(all.take(i + 1)) =~= item_views(all.take(i as int)).push(
                    all[i as int]@,
                ));
            }
            if x.kind == ItemKind::Attribute && !x.is_template {
                let RegistryItem { kind: _, id, brief, note, deprecated, stability: _, is_template: _ } = x;
                summaries.push(AttributeSummary { key: id, brief, note, deprecated });
            }
            i = i + 1;
        }
        proof {
            assert(all.take(all.len() as int) =~= all);
        }
        SearchContext { attributes: Self::index_attributes(summaries), items: kept, separator }
    }

    /// Searches the registry: with a non-empty query, the covered items that
    /// match it, best first; without one, the covered items in registry
    /// order. Either way the results are the page that starts at `offset`
    /// and holds at most `limit` items (and never more than 200). Also gives
    /// the number of items found, for paging.
    pub fn search(
        &self,
        query: Option<&str>,
        search_type: SearchType,
        stability: Option<Stability>,
        limit: usize,
        offset: usize,
    ) -> (r: (Vec<SearchResult>, usize))
        ensures
            (result_views(r.0@), r.1 as nat) == search_results(
                self.items(),
                query_text(query),
                search_type,
                stability,
                limit,
                offset,
                self.separator_text(),
            ),
            results_by_kind(r.0@),
    {
        search_items(&self.items, query, search_type, stability, limit, offset, self.separator.as_str())
    }

    /// The attribute (not template) with this key.
    pub fn get_attribute(&self, key: &str) -> (r: Option<RegistryItem>)
        ensures
            r matches Some(it) ==> indexed(self.items(), IndexKind::Attributes, key@) == Some(it@),
            r is None ==> indexed(self.items(), IndexKind::Attributes, key@) is None,
    {
        lookup(&self.items, IndexKind::Attributes, key)
    }

    /// The template attribute with this key.
    pub fn get_template(&self, key: &str) -> (r: Option<RegistryItem>)
        ensures
            r matches Some(it) ==> indexed(self.items(), IndexKind::Templates, key@) == Some(it@),
            r is None ==> indexed(self.items(), IndexKind::Templates, key@) is None,
    {
        lookup(&self.items, IndexKind::Templates, key)
    }

    /// The template attribute whose key is the longest prefix of
    /// `attribute_name`.
    pub fn find_template(&self, attribute_name: &str) -> (r: Option<RegistryItem>)
        ensures
            r matches Some(it) ==> longest_template(self.items(), attribute_name@) == Some(it@),
            r is None ==> longest_template(self.items(), attribute_name@) is None,
    {
        find_template(&self.items, attribute_name)
    }

    /// The metric with this name.
    pub fn get_metric(&self, name: &str) -> (r: Option<RegistryItem>)
        ensures
            r matches Some(it) ==> indexed(self.items(), IndexKind::Metrics, name@) == Some(it@),
            r is None ==> indexed(self.items(), IndexKind::Metrics, name@) is None,
    {
        lookup(&self.items, IndexKind::Metrics, name)
    }

    /// The span with this type.
    pub fn get_span(&self, span_type: &str) -> (r: Option<RegistryItem>)
        ensures
            r matches Some(it) ==> indexed(self.items(), IndexKind::Spans, span_type@) == Some(it@),
            r is None ==> indexed(self.items(), IndexKind::Spans, span_type@) is None,
    {
        lookup(&self.items, IndexKind::Spans, span_type)
    }

    /// The event with this name.
    pub fn get_event(&self, name: &str) -> (r: Option<RegistryItem>)
        ensures
            r matches Some(it) ==> indexed(self.items(), IndexKind::Events, name@) == Some(it@),
            r is None ==> indexed(self.items(), IndexKind::Events, name@) is None,
    {
        lookup(&self.items, IndexKind::Events, name)
    }

    /// The entity with this type.
    pub fn get_entity(&self, entity_type: &str) -> (r: Option<RegistryItem>)
        ensures
            r matches Some(it) ==> indexed(self.items(), IndexKind::Entities, entity_type@) == Some(it@),
            r is None ==> indexed(self.items(), IndexKind::Entities, entity_type@) is None,
    {
        lookup(&self.items, IndexKind::Entities, entity_type)
    }

    /// What lies under a namespace of attribute keys (none or empty: the
    /// top level): the child namespaces, the attributes directly in it, how
    /// many keys lie below it and how deep they go.
    pub fn browse_namespace(&self, prefix: Option<&str>) -> (r: NamespaceInfo)
        ensures
            r@ == namespace_info(self.items(), query_text(prefix), self.separator_text()),
    {
        browse_namespace_items(&self.items, prefix, self.separator.as_str())
    }

    /// Looks keys up in one go: the keys that an attribute (or a template
    /// covering them) describes, with it, and the keys that none describes.
    pub fn check_attributes(&self, keys: &[String]) -> (r: (Vec<NamespaceAttribute>, Vec<String>))
        ensures
            (ns_views(r.0@), string_views(r.1@)) == checked_keys(self.items(), string_views(keys@)),
    {
        check_keys(&self.items, keys)
    }

    /// Suggests attribute keys for a name that may be misspelled, at most
    /// `limit` and never more than 20: the name with `_` and `-` replaced
    /// by the separator, the name itself, keys sharing all its tokens but
    /// one, the keys (sorted) that share its longest prefix ending at a
    /// separator, then the keys that the search scoring finds, best first.
    pub fn suggest(&self, name: &str, limit: usize) -> (r: Vec<Suggestion>)
        ensures
            suggestions_view(r@) == spec_suggest(self.index(), self.separator_text(), name@, limit),
    {
        proof {
            use_type_invariant(self);
        }
        let attrs = &self.attributes;
        let sep = self.separator.as_str();
        let mut out: Vec<Suggestion> = Vec::new();
        let mut seen: Vec<String> = Vec::new();
        let ghost a = attrs@;

        // The name with its separators fixed.
        let normalized = normalize(name, sep);
        if !str_eq(normalized.as_str(), name) {
            match find_key(attrs, normalized.as_str()) {
                Some(k) => {
                    out.push(make_suggestion(&normalized, &attrs[k].brief, SuggestionReason::SeparatorNormalized));
                },
                None => {},
            }
        }
        proof {
            assert(suggestions_view(out@) =~= normalized_stage(a, name@, sep@));
        }
        // The name itself.
        match find_key(attrs, name) {
            Some(k) => {
                let ghost before = out@;
                out.push(make_suggestion(&attrs[k].key, &attrs[k].brief, SuggestionReason::ExactMatch));
                proof {
                    assert(suggestions_view(out@) =~= suggestions_view(before).push(
                        sv(name@, attrs@[k as int].brief@, SuggestionReason::ExactMatch),
                    ));
                }
            },
            None => {},
        }
        let ghost s1 = normalized_stage(a, name@, sep@) + exact_stage(a, name@);
        proof {
            assert(suggestions_view(out@) =~= s1);
        }
        push_keys(&mut seen, &out);
        proof {
            assert(string_views(seen@) =~= suggested_keys(s1));
        }
        let ghost seen2 = suggested_keys(s1);

        // Keys sharing the tokens of the name.
        let sepc = str_chars(sep);
        let toks = drop_empty(split_into_tokens(name, &sepc, false, true));
        let s2 = if toks.len() >= 2 {
            overlapping_keys(attrs, &seen, name, sep, &toks)
        } else {
            Vec::new()
        };
        proof {
            assert(suggestions_view(s2@) =~= token_stage(a, seen2, name@, sep@));
        }
        push_keys(&mut seen, &s2);
        append_suggestions(&mut out, s2);
        let ghost seen3 = seen2 + suggested_keys(token_stage(a, seen2, name@, sep@));

        // Keys sharing the longest prefix of the name.
        let namec = str_chars(name);
        let starts = segment_positions(&namec, &sepc);
        let ghost st = segment_starts(name@, sep@);
        let mut s3: Vec<Suggestion> = Vec::new();
        if starts.len() >= 2 {
            let mut k: usize = starts.len() - 1;
            let mut found = false;
            while k >= 1 && !found
                invariant
                    namec@ == name@,
                    starts@.map_values(|x: usize| x as int) == st,
                    forall|j: int| 0 <= j < starts@.len() ==> starts@[j] <= namec@.len(),
                    string_views(seen@) == seen3,
                    k < starts@.len(),
                    !found ==> prefix_search(a, seen3, name@, st, st.len() - 1) == prefix_search(
                        a,
                        seen3,
                        name@,
                        st,
                        k as int,
                    ),
                    found ==> suggestions_view(s3@) == prefix_search(a, seen3, name@, st, st.len() - 1),
                    !found ==> s3@.len() == 0,
                    attrs@ == a,
                decreases k + (if found { 0int } else { 1int }),
            {
                let p = string_from_range(namec.as_slice(), 0, starts[k]);
                let pc = str_chars(p.as_str());
                let m = prefixed_keys(attrs, &seen, &pc);
                proof {
                    assert(st[k as int] == starts@[k as int] as int);
                }
                if m.len() > 0 {
                    s3 = sort_suggestions_by_key(m);
                    found = true;
                } else {
                    k = k - 1;
                }
            }
            proof {
                if !found {
                    assert(k == 0);
                    assert(s3@.len() == 0);
                    assert(suggestions_view(s3@) =~= Seq::<SuggestionView>::empty());
                }
            }
        }
        proof {
            assert(suggestions_view(s3@) =~= prefix_stage(a, seen3, name@, sep@));
        }
        push_keys(&mut seen, &s3);
        append_suggestions(&mut out, s3);
        let ghost seen4 = seen3 + suggested_keys(prefix_stage(a, seen3, name@, sep@));

        // Keys the search scoring finds.
        let scored = scored_candidates(attrs, &seen, name, sep);
        let s4 = sort_scored(scored);
        append_suggestions(&mut out, s4);
        proof {
            assert(suggestions_view(out@) =~= spec_all_suggestions(a, sep@, name@));
        }
        let n: usize = if limit < 20 {
            limit
        } else {
            20
        };
        out.truncate(n);
        proof {
            assert(suggestions_view(out@) =~= spec_suggest(a, sep@, name@, limit));
        }
        out
    }
}

} // verus!
