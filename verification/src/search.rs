//! Relevance scoring for searching a registry, and the shapes of search
//! results.

use vstd::prelude::*;
use crate::text::{contains_chars, contains_seq, starts_with_chars, starts_with_seq, str_chars, string_from_range, string_views};
use crate::v2::span::{is_white_space, is_white_space_char};

verus! {

/// Something found by a search, with its relevance (higher is better).
pub struct ScoredResult<T> {
    /// The relevance score.
    pub score: u32,
    /// What was found.
    pub item: T,
}

/// The kinds of signals a search can be limited to.
#[derive(Clone, Copy, Debug, PartialEq, Eq, Structural)]
pub enum SearchType {
    /// Every kind.
    All,
    /// Attributes only.
    Attribute,
    /// Metrics only.
    Metric,
    /// Spans only.
    Span,
    /// Events only.
    Event,
    /// Entities only.
    Entity,
}

impl Default for SearchType {
    fn default() -> (r: SearchType)
        ensures
            r == SearchType::All,
    {
        SearchType::All
    }
}

/// A character that separates tokens: one of the namespace separator's
/// characters, `_`, white space when `ws`, `-` when `hyphen`.
pub open spec fn is_token_separator(c: char, sep: Seq<char>, ws: bool, hyphen: bool) -> bool {
    sep.contains(c) || c == '_' || (ws && is_white_space(c)) || (hyphen && c == '-')
}

/// The position of the last separator in `s`, or -1.
pub open spec fn last_separator(s: Seq<char>, sep: Seq<char>, ws: bool, hyphen: bool) -> int
    decreases s.len(),
{
    if s.len() == 0 {
        -1
    } else if is_token_separator(s.last(), sep, ws, hyphen) {
        s.len() - 1
    } else {
        last_separator(s.drop_last(), sep, ws, hyphen)
    }
}

/// A lemma on the position of the last separator.
pub proof fn lemma_last_separator(s: Seq<char>, sep: Seq<char>, ws: bool, hyphen: bool)
    ensures
        -1 <= last_separator(s, sep, ws, hyphen) < s.len(),
    decreases s.len(),
{
    if s.len() > 0 && !is_token_separator(s.last(), sep, ws, hyphen) {
        lemma_last_separator(s.drop_last(), sep, ws, hyphen);
    }
}

/// The tokens of `s` between separators, empty ones included, as
/// `str::split` with the separator predicate gives them.
pub open spec fn split_tokens(s: Seq<char>, sep: Seq<char>, ws: bool, hyphen: bool) -> Seq<Seq<char>>
    decreases s.len(),
{
    let k = last_separator(s, sep, ws, hyphen);
    if k < 0 {
        seq![s]
    } else {
        proof {
            lemma_last_separator(s, sep, ws, hyphen);
        }
        split_tokens(s.subrange(0, k), sep, ws, hyphen).push(s.subrange(k + 1, s.len() as int))
    }
}

/// Splitting after one more character: a separator opens a new empty
/// token, any other character extends the last token.
proof fn lemma_split_tokens_push(p: Seq<char>, c: char, sep: Seq<char>, ws: bool, hyphen: bool)
    ensures
        split_tokens(p, sep, ws, hyphen).len() >= 1,
        is_token_separator(c, sep, ws, hyphen) ==> split_tokens(p.push(c), sep, ws, hyphen) == split_tokens(
            p,
            sep,
            ws,
            hyphen,
        ).push(Seq::empty()),
        !is_token_separator(c, sep, ws, hyphen) ==> split_tokens(p.push(c), sep, ws, hyphen) == split_tokens(
            p,
            sep,
            ws,
            hyphen,
        ).drop_last().push(split_tokens(p, sep, ws, hyphen).last().push(c)),
{
    let q = p.push(c);
    lemma_last_separator(p, sep, ws, hyphen);
    lemma_last_separator(q, sep, ws, hyphen);
    if is_token_separator(c, sep, ws, hyphen) {
        assert(q.subrange(0, p.len() as int) =~= p);
        assert(q.subrange(p.len() as int + 1, q.len() as int) =~= Seq::<char>::empty());
    } else {
        assert(q.drop_last() =~= p);
        let k = last_separator(p, sep, ws, hyphen);
        if k >= 0 {
            assert(q.subrange(0, k) =~= p.subrange(0, k));
            assert(q.subrange(k + 1, q.len() as int) =~= p.subrange(k + 1, p.len() as int).push(c));
        }
    }
}

/// Whether `c` separates tokens.
fn is_separator_char(c: char, sep: &Vec<char>, ws: bool, hyphen: bool) -> (r: bool)
    ensures
        r == is_token_separator(c, sep@, ws, hyphen),
{
    if c == '_' || (ws && is_white_space_char(c)) || (hyphen && c == '-') {
        return true;
    }
    let mut i: usize = 0;
    while i < sep.len()
        invariant
            i <= sep@.len(),
            forall|j: int| 0 <= j < i ==> sep@[j] != c,
        decreases sep@.len() - i,
    {
        if sep[i] == c {
            return true;
        }
        i = i + 1;
    }
    false
}

/// The tokens of `s`.
pub fn split_into_tokens(s: &str, sep: &Vec<char>, ws: bool, hyphen: bool) -> (r: Vec<String>)
    ensures
        string_views(r@) == split_tokens(s@, sep@, ws, hyphen),
{
    let cs = str_chars(s);
    let mut done: Vec<String> = Vec::new();
    let mut start: usize = 0;
    let mut i: usize = 0;
    proof {
        assert(cs@.subrange(0, 0) =~= Seq::<char>::empty());
    }
    while i < cs.len()
        invariant
            cs@ == s@,
            start <= i <= cs@.len(),
            string_views(done@).push(cs@.subrange(start as int, i as int)) == split_tokens(
                cs@.subrange(0, i as int),
                sep@,
                ws,
                hyphen,
            ),
        decreases cs@.len() - i,
    {
        proof {
            lemma_split_tokens_push(cs@.subrange(0, i as int), cs@[i as int], sep@, ws, hyphen);
            assert(cs@.subrange(0, i + 1) =~= cs@.subrange(0, i as int).push(cs@[i as int]));
        }
        if is_separator_char(cs[i], sep, ws, hyphen) {
            let part = string_from_range(cs.as_slice(), start, i);
            let ghost before = done@;
            done.push(part);
            proof {
                assert(string_views(done@) =~= string_views(before).push(part@));
                assert(cs@.subrange(i + 1, i + 1) =~= Seq::<char>::empty());
            }
            start = i + 1;
        } else {
            proof {
                assert(cs@.subrange(start as int, i + 1) =~= cs@.subrange(start as int, i as int).push(
                    cs@[i as int],
                ));
                assert(string_views(done@).push(cs@.subrange(start as int, i as int)).drop_last()
                    =~= string_views(done@));
            }
        }
        i = i + 1;
    }
    let last = string_from_range(cs.as_slice(), start, cs.len());
    let ghost before = done@;
    done.push(last);
    proof {
        assert(string_views(done@) =~= string_views(before).push(last@));
        assert(cs@.subrange(0, cs@.len() as int) =~= cs@);
    }
    done
}

/// The tokens that are not empty, in order.
pub open spec fn non_empty(ts: Seq<Seq<char>>) -> Seq<Seq<char>>
    decreases ts.len(),
{
    if ts.len() == 0 {
        Seq::empty()
    } else if ts.last().len() > 0 {
        non_empty(ts.drop_last()).push(ts.last())
    } else {
        non_empty(ts.drop_last())
    }
}

/// The tokens of a query: split at the separator's characters, `_` and
/// white space, empty ones dropped.
pub open spec fn query_tokens(q: Seq<char>, sep: Seq<char>) -> Seq<Seq<char>> {
    non_empty(split_tokens(q, sep, true, false))
}

/// `t` occurs in one of `ts`.
pub open spec fn occurs_in_some(t: Seq<char>, ts: Seq<Seq<char>>) -> bool {
    exists|j: int| 0 <= j < ts.len() && contains_seq(#[trigger] ts[j], t)
}

/// Every query token occurs in some token of the identifier.
pub open spec fn all_tokens_in_id(qt: Seq<Seq<char>>, id_tokens: Seq<Seq<char>>) -> bool {
    forall|i: int| 0 <= i < qt.len() ==> occurs_in_some(#[trigger] qt[i], id_tokens)
}

/// Every query token occurs in `text`.
pub open spec fn all_tokens_in(qt: Seq<Seq<char>>, text: Seq<char>) -> bool {
    forall|i: int| 0 <= i < qt.len() ==> contains_seq(text, #[trigger] qt[i])
}

/// The relevance of an item to a query, before deprecation is taken into
/// account: 100 for an identifier equal to the query, 80 for one starting
/// with it, 70 for one containing it, 60 when every query token occurs in
/// a token of the identifier, 40 for a brief containing the query, 20 for
/// a note containing it, 35 when every token occurs in the brief, 15 when
/// every token occurs in the note, 0 otherwise. All texts are taken as given
/// (the caller lowers their case).
pub open spec fn spec_base_score(
    query: Seq<char>,
    id: Seq<char>,
    brief: Seq<char>,
    note: Seq<char>,
    sep: Seq<char>,
) -> u32 {
    let qt = query_tokens(query, sep);
    if id == query {
        100
    } else if starts_with_seq(id, query) {
        80
    } else if contains_seq(id, query) {
        70
    } else if qt.len() > 0 {
        if all_tokens_in_id(qt, split_tokens(id, sep, false, false)) {
            60
        } else if contains_seq(brief, query) {
            40
        } else if contains_seq(note, query) {
            20
        } else if all_tokens_in(qt, brief) {
            35
        } else if all_tokens_in(qt, note) {
            15
        } else {
            0
        }
    } else if contains_seq(brief, query) {
        40
    } else if contains_seq(note, query) {
        20
    } else {
        0
    }
}

/// The relevance of an item to a query: the base score, divided by 10 (but
/// at least 1) for a deprecated item that matches.
pub open spec fn spec_score(
    query: Seq<char>,
    id: Seq<char>,
    brief: Seq<char>,
    note: Seq<char>,
    is_deprecated: bool,
    sep: Seq<char>,
) -> u32 {
    let s = spec_base_score(query, id, brief, note, sep);
    if is_deprecated && s > 0 {
        if s / 10 == 0 {
            1
        } else {
            s / 10
        }
    } else {
        s
    }
}

/// The tokens that are not empty.
pub fn drop_empty(ts: Vec<String>) -> (r: Vec<String>)
    ensures
        string_views(r@) == non_empty(string_views(ts@)),
{
    let ghost all = string_views(ts@);
    let mut out: Vec<String> = Vec::new();
    let mut i: usize = 0;
    assert(all.take(0) =~= Seq::<Seq<char>>::empty());
    while i < ts.len()
        invariant
            all == string_views(ts@),
            i <= ts@.len(),
            string_views(out@) == non_empty(all.take(i as int)),
        decreases ts@.len() - i,
    {
        proof {
            assert(all.take(i + 1).drop_last() =~= all.take(i as int));
            assert(all.take(i + 1).last() == ts@[i as int]@);
        }
        if ts[i].as_str().unicode_len() > 0 {
            let ghost before = out@;
            out.push(ts[i].clone());
            proof {
                assert(string_views(out@) =~= string_views(before).push(ts@[i as int]@));
            }
        }
        i = i + 1;
    }
    assert(all.take(all.len() as int) =~= all);
    out
}

/// Whether every query token occurs in some identifier token.
fn tokens_in_id(qt: &Vec<String>, id_tokens: &Vec<String>) -> (r: bool)
    ensures
        r == all_tokens_in_id(string_views(qt@), string_views(id_tokens@)),
{
    let ghost q = string_views(qt@);
    let ghost it = string_views(id_tokens@);
    let mut i: usize = 0;
    while i < qt.len()
        invariant
            q == string_views(qt@),
            it == string_views(id_tokens@),
            i <= qt@.len(),
            forall|a: int| 0 <= a < i ==> occurs_in_some(#[trigger] q[a], it),
        decreases qt@.len() - i,
    {
        let qc = str_chars(qt[i].as_str());
        let mut found = false;
        let mut j: usize = 0;
        while j < id_tokens.len()
            invariant
                q == string_views(qt@),
                it == string_views(id_tokens@),
                i < qt@.len(),
                qc@ == q[i as int],
                j <= id_tokens@.len(),
                found ==> exists|b: int| 0 <= b < it.len() && contains_seq(#[trigger] it[b], q[i as int]),
                !found ==> forall|b: int| 0 <= b < j ==> !contains_seq(#[trigger] it[b], q[i as int]),
            decreases id_tokens@.len() - j,
        {
            let ic = str_chars(id_tokens[j].as_str());
            if contains_chars(ic.as_slice(), qc.as_slice()) {
                assert(it[j as int] == ic@);
                found = true;
            } else {
                assert(it[j as int] == ic@);
            }
            j = j + 1;
        }
        if !found {
            proof {
                assert(!occurs_in_some(q[i as int], it));
            }
            return false;
        }
        i = i + 1;
    }
    true
}

/// Whether every query token occurs in `text`.
fn tokens_in(qt: &Vec<String>, text: &Vec<char>) -> (r: bool)
    ensures
        r == all_tokens_in(string_views(qt@), text@),
{
    let ghost q = string_views(qt@);
    let mut i: usize = 0;
    while i < qt.len()
        invariant
            q == string_views(qt@),
            i <= qt@.len(),
            forall|a: int| 0 <= a < i ==> contains_seq(text@, #[trigger] q[a]),
        decreases qt@.len() - i,
    {
        let qc = str_chars(qt[i].as_str());
        if !contains_chars(text.as_slice(), qc.as_slice()) {
            assert(q[i as int] == qc@);
            return false;
        }
        assert(q[i as int] == qc@);
        i = i + 1;
    }
    true
}

/// The relevance of an item (identifier, brief and note) to a query, as
/// `spec_score` defines it; the texts are compared as given.
pub fn score_fields(
    query_lower: &str,
    id_lower: &str,
    brief_lower: &str,
    note_lower: &str,
    is_deprecated: bool,
    separator: &str,
) -> (r: u32)
    ensures
        r == spec_score(query_lower@, id_lower@, brief_lower@, note_lower@, is_deprecated, separator@),
{
    let q = str_chars(query_lower);
    let id = str_chars(id_lower);
    let brief = str_chars(brief_lower);
    let note = str_chars(note_lower);
    let sep = str_chars(separator);
    let mut score: u32 = 0;
    if crate::text::chars_eq(id.as_slice(), q.as_slice()) {
        score = 100;
    } else if starts_with_chars(id.as_slice(), q.as_slice()) {
        score = 80;
    } else if contains_chars(id.as_slice(), q.as_slice()) {
        score = 70;
    } else {
        let qt = drop_empty(split_into_tokens(query_lower, &sep, true, false));
        if qt.len() > 0 {
            let it = split_into_tokens(id_lower, &sep, false, false);
            if tokens_in_id(&qt, &it) {
                score = 60;
            } else if contains_chars(brief.as_slice(), q.as_slice()) {
                score = 40;
            } else if contains_chars(note.as_slice(), q.as_slice()) {
                score = 20;
            } else if tokens_in(&qt, &brief) {
                score = 35;
            } else if tokens_in(&qt, &note) {
                score = 15;
            }
        } else if contains_chars(brief.as_slice(), q.as_slice()) {
            score = 40;
        } else if contains_chars(note.as_slice(), q.as_slice()) {
            score = 20;
        }
    }
    assert(score == spec_base_score(query_lower@, id_lower@, brief_lower@, note_lower@, separator@));
    if is_deprecated && score > 0 {
        score = score / 10;
        if score == 0 {
            score = 1;
        }
    }
    score
}

} // verus!
