//! Detection of the keys that a typed schema did not recognize.
//!
//! The same YAML document is read twice: once as a plain tree that keeps every
//! key the author wrote, and once into the typed schema, which is then written
//! back as a tree. Keys that the schema does not know are dropped on the second
//! path, so walking both trees side by side finds every key present in the raw
//! tree and missing from the normalized one. Keys whose value is a default that
//! serialization leaves out anyway (null, empty string, empty sequence, empty
//! mapping) are not reported.

use vstd::prelude::*;
use crate::schema_url::{decimal, digit};
use crate::error::{ev, Error, ErrorKind};
use crate::text::{push_str, str_eq, string_views};

verus! {

/// A YAML document as a tree of values.
#[derive(Debug)]
pub enum YamlTree {
    /// `~` or an empty value.
    Null,
    /// `true` or `false`.
    Bool(bool),
    /// A number, held by its canonical text.
    Number(String),
    /// A string.
    Str(String),
    /// A sequence of values.
    Sequence(Vec<YamlTree>),
    /// A mapping, as its entries in document order.
    Mapping(Vec<(YamlTree, YamlTree)>),
    /// A value with a tag; the tag is held without its leading `!`.
    Tagged(String, Box<YamlTree>),
}

/// Whether a value is one that serialization would have left out as a
/// default: null, an empty string, an empty sequence or an empty mapping.
pub open spec fn is_default_equivalent(v: YamlTree) -> bool {
    match v {
        YamlTree::Null => true,
        YamlTree::Str(s) => s@.len() == 0,
        YamlTree::Sequence(s) => s@.len() == 0,
        YamlTree::Mapping(m) => m@.len() == 0,
        _ => false,
    }
}

/// The text of a key when it is a string, looking through any tags.
pub open spec fn key_text(k: YamlTree) -> Option<Seq<char>>
    decreases k,
{
    match k {
        YamlTree::Str(s) => Some(s@),
        YamlTree::Tagged(_, inner) => key_text(*inner),
        _ => None,
    }
}

/// Equality of a string key (a string under zero or more tags) with another
/// key: same tags, in the same order, over the same text.
pub open spec fn same_key(a: YamlTree, b: YamlTree) -> bool
    decreases a,
{
    match a {
        YamlTree::Str(x) => match b {
            YamlTree::Str(y) => x@ == y@,
            _ => false,
        },
        YamlTree::Tagged(t1, i1) => match b {
            YamlTree::Tagged(t2, i2) => t1@ == t2@ && same_key(*i1, *i2),
            _ => false,
        },
        _ => false,
    }
}

/// The value of the first entry whose key equals `key`.
pub open spec fn lookup(entries: Seq<(YamlTree, YamlTree)>, key: YamlTree) -> Option<YamlTree>
    decreases entries.len(),
{
    if entries.len() == 0 {
        None
    } else if same_key(key, entries[0].0) {
        Some(entries[0].1)
    } else {
        lookup(entries.subrange(1, entries.len() as int), key)
    }
}

/// The path of the value under key `k` inside the value at `path`.
pub open spec fn child_path(path: Seq<char>, k: Seq<char>) -> Seq<char> {
    if path.len() == 0 {
        k
    } else {
        path + seq!['.'] + k
    }
}

/// The path of the element at index `i` of the sequence at `path`.
pub open spec fn index_path(path: Seq<char>, i: nat) -> Seq<char> {
    path + seq!['['] + decimal(i) + seq![']']
}

/// The paths reported for the value at `path`: only mappings and sequences on
/// both sides are walked; leaves and mismatched shapes report nothing.
pub open spec fn spec_diff(path: Seq<char>, raw: YamlTree, norm: YamlTree) -> Seq<Seq<char>>
    decreases raw,
{
    match raw {
        YamlTree::Mapping(rm) => match norm {
            YamlTree::Mapping(nm) => entries_diff(path, rm@, nm@),
            _ => seq![],
        },
        YamlTree::Sequence(rs) => match norm {
            YamlTree::Sequence(ns) => items_diff(path, rs@, ns@),
            _ => seq![],
        },
        _ => seq![],
    }
}

/// The paths reported for the raw entries of a mapping, in order: a string
/// key that the normalized mapping also has is walked into; one that it lacks
/// is reported unless its value is a default; other keys are skipped.
pub open spec fn entries_diff(
    path: Seq<char>,
    entries: Seq<(YamlTree, YamlTree)>,
    norm_entries: Seq<(YamlTree, YamlTree)>,
) -> Seq<Seq<char>>
    decreases entries,
{
    if entries.len() == 0 {
        seq![]
    } else {
        let last = entries.len() - 1;
        entries_diff(path, entries.subrange(0, last), norm_entries) + match key_text(
            entries[last].0,
        ) {
            None => seq![],
            Some(k) => match lookup(norm_entries, entries[last].0) {
                Some(nv) => spec_diff(child_path(path, k), entries[last].1, nv),
                None => if is_default_equivalent(entries[last].1) {
                    seq![]
                } else {
                    seq![child_path(path, k)]
                },
            },
        }
    }
}

/// The paths reported for the raw elements of a sequence, in order: an
/// element with a normalized counterpart at the same index is walked into;
/// one past the end of the normalized sequence is reported unless it is a
/// default.
pub open spec fn items_diff(path: Seq<char>, items: Seq<YamlTree>, norm_items: Seq<YamlTree>) -> Seq<
    Seq<char>,
>
    decreases items,
{
    if items.len() == 0 {
        seq![]
    } else {
        let last = items.len() - 1;
        items_diff(path, items.subrange(0, last), norm_items) + if last < norm_items.len() {
            spec_diff(index_path(path, last as nat), items[last], norm_items[last])
        } else if is_default_equivalent(items[last]) {
            seq![]
        } else {
            seq![index_path(path, last as nat)]
        }
    }
}


/// Within every mapping of the tree no two string keys are equal, as in a
/// parsed YAML document.
pub open spec fn has_unique_keys(t: YamlTree) -> bool
    decreases t,
{
    match t {
        YamlTree::Sequence(items) => all_have_unique_keys(items@),
        YamlTree::Mapping(entries) => distinct_keys(entries@) && values_have_unique_keys(entries@),
        _ => true,
    }
}

/// No two entries have equal string keys.
pub open spec fn distinct_keys(entries: Seq<(YamlTree, YamlTree)>) -> bool {
    forall|a: int, b: int|
        0 <= a < entries.len() && 0 <= b < entries.len() && a != b ==> !same_key(
            #[trigger] entries[a].0,
            #[trigger] entries[b].0,
        )
}

/// Every value of the sequence has unique keys.
pub open spec fn all_have_unique_keys(items: Seq<YamlTree>) -> bool
    decreases items,
{
    if items.len() == 0 {
        true
    } else {
        let last = items.len() - 1;
        all_have_unique_keys(items.subrange(0, last)) && has_unique_keys(items[last])
    }
}

/// Every value among the entries has unique keys.
pub open spec fn values_have_unique_keys(entries: Seq<(YamlTree, YamlTree)>) -> bool
    decreases entries,
{
    if entries.len() == 0 {
        true
    } else {
        let last = entries.len() - 1;
        values_have_unique_keys(entries.subrange(0, last)) && has_unique_keys(entries[last].1)
    }
}

/// A string key equals itself.
proof fn lemma_same_key_reflexive(k: YamlTree)
    requires
        key_text(k) is Some,
    ensures
        same_key(k, k),
    decreases k,
{
    if let YamlTree::Tagged(_, inner) = k {
        lemma_same_key_reflexive(*inner);
    }
}

/// Among entries with distinct keys, looking up the key of an entry finds
/// its value.
proof fn lemma_lookup_own_key(entries: Seq<(YamlTree, YamlTree)>, j: int)
    requires
        0 <= j < entries.len(),
        key_text(entries[j].0) is Some,
        distinct_keys(entries),
    ensures
        lookup(entries, entries[j].0) == Some(entries[j].1),
    decreases entries.len(),
{
    lemma_same_key_reflexive(entries[j].0);
    if j > 0 {
        let rest = entries.subrange(1, entries.len() as int);
        assert(!same_key(entries[j].0, entries[0].0));
        assert(rest[j - 1] == entries[j]);
        assert forall|a: int, b: int|
            0 <= a < rest.len() && 0 <= b < rest.len() && a != b implies !same_key(
            #[trigger] rest[a].0,
            #[trigger] rest[b].0,
        ) by {
            assert(entries[a + 1].0 == rest[a].0 && entries[b + 1].0 == rest[b].0);
            assert(rest[a] == entries[a + 1]);
            assert(rest[b] == entries[b + 1]);
        }
        lemma_lookup_own_key(rest, j - 1);
    }
}

/// A tree compared with itself reports nothing.
proof fn lemma_self_diff(path: Seq<char>, t: YamlTree)
    requires
        has_unique_keys(t),
    ensures
        spec_diff(path, t, t) == Seq::<Seq<char>>::empty(),
    decreases t,
{
    match t {
        YamlTree::Mapping(m) => {
            assert(m@.subrange(0, m@.len() as int) =~= m@);
            lemma_entries_self(path, m@, m@);
        },
        YamlTree::Sequence(items) => {
            assert(items@.subrange(0, items@.len() as int) =~= items@);
            lemma_items_self(path, items@, items@);
        },
        _ => {},
    }
}

/// The entries of a mapping with distinct keys, compared with the whole
/// mapping, report nothing.
proof fn lemma_entries_self(
    path: Seq<char>,
    s: Seq<(YamlTree, YamlTree)>,
    m: Seq<(YamlTree, YamlTree)>,
)
    requires
        s.len() <= m.len(),
        s == m.subrange(0, s.len() as int),
        distinct_keys(m),
        values_have_unique_keys(s),
    ensures
        entries_diff(path, s, m) == Seq::<Seq<char>>::empty(),
    decreases s,
{
    if s.len() > 0 {
        let last = s.len() - 1;
        let pre = s.subrange(0, last);
        assert(pre =~= m.subrange(0, last));
        lemma_entries_self(path, pre, m);
        assert(s[last] == m[last]);
        if let Some(k) = key_text(s[last].0) {
            lemma_lookup_own_key(m, last);
            lemma_self_diff(child_path(path, k), s[last].1);
        }
        assert(entries_diff(path, s, m) =~= Seq::<Seq<char>>::empty());
    }
}

/// The elements of a sequence, compared with the whole sequence, report
/// nothing.
proof fn lemma_items_self(path: Seq<char>, s: Seq<YamlTree>, items: Seq<YamlTree>)
    requires
        s.len() <= items.len(),
        s == items.subrange(0, s.len() as int),
        all_have_unique_keys(s),
    ensures
        items_diff(path, s, items) == Seq::<Seq<char>>::empty(),
    decreases s,
{
    if s.len() > 0 {
        let last = s.len() - 1;
        let pre = s.subrange(0, last);
        assert(pre =~= items.subrange(0, last));
        lemma_items_self(path, pre, items);
        assert(s[last] == items[last]);
        lemma_self_diff(index_path(path, last as nat), s[last]);
        assert(items_diff(path, s, items) =~= Seq::<Seq<char>>::empty());
    }
}

/// A document compared with itself has no unexpected keys: every key the
/// author wrote is found again, at every depth.
pub proof fn law_identical_trees_report_nothing(t: YamlTree)
    requires
        has_unique_keys(t),
    ensures
        spec_diff(Seq::<char>::empty(), t, t) == Seq::<Seq<char>>::empty(),
{
    lemma_self_diff(Seq::<char>::empty(), t);
}

/// Whether a value is a default that serialization leaves out.
fn is_default(v: &YamlTree) -> (r: bool)
    ensures
        r == is_default_equivalent(*v),
{
    match v {
        YamlTree::Null => true,
        YamlTree::Str(s) => s.as_str().is_empty(),
        YamlTree::Sequence(s) => s.len() == 0,
        YamlTree::Mapping(m) => m.len() == 0,
        _ => false,
    }
}

/// The text of a string key, looking through any tags.
fn key_str(k: &YamlTree) -> (r: Option<&String>)
    ensures
        match r {
            Some(s) => key_text(*k) == Some(s@),
            None => key_text(*k) is None,
        },
    decreases k,
{
    match k {
        YamlTree::Str(s) => Some(s),
        YamlTree::Tagged(_, inner) => key_str(inner),
        _ => None,
    }
}

/// Whether the string key `a` equals the key `b`.
fn keys_match(a: &YamlTree, b: &YamlTree) -> (r: bool)
    ensures
        r == same_key(*a, *b),
    decreases a,
{
    match a {
        YamlTree::Str(x) => match b {
            YamlTree::Str(y) => str_eq(x.as_str(), y.as_str()),
            _ => false,
        },
        YamlTree::Tagged(t1, i1) => match b {
            YamlTree::Tagged(t2, i2) => str_eq(t1.as_str(), t2.as_str()) && keys_match(i1, i2),
            _ => false,
        },
        _ => false,
    }
}

/// The value of the first entry whose key equals `key`.
fn find_value<'a>(entries: &'a Vec<(YamlTree, YamlTree)>, key: &YamlTree) -> (r: Option<
    &'a YamlTree,
>)
    ensures
        match r {
            Some(v) => lookup(entries@, *key) == Some(*v),
            None => lookup(entries@, *key) is None,
        },
{
    let mut i: usize = 0;
    assert(entries@.subrange(0, entries@.len() as int) =~= entries@);
    while i < entries.len()
        invariant
            i <= entries.len(),
            lookup(entries@, *key) == lookup(entries@.subrange(i as int, entries@.len() as int), *key),
        decreases entries.len() - i,
    {
        let ghost rest = entries@.subrange(i as int, entries@.len() as int);
        assert(rest.subrange(1, rest.len() as int) =~= entries@.subrange(
            i + 1,
            entries@.len() as int,
        ));
        if keys_match(key, &entries[i].0) {
            return Some(&entries[i].1);
        }
        i = i + 1;
    }
    None
}

/// The decimal form of an index.
fn decimal_text(n: usize) -> (s: String)
    ensures
        s@ == decimal(n as nat),
    decreases n,
{
    let d = digit((n % 10) as u16);
    if n < 10 {
        let mut s = String::new();
        s.push(d);
        s
    } else {
        let mut s = decimal_text(n / 10);
        s.push(d);
        s
    }
}

/// The path of the value under key `k` inside the value at `path`.
fn child_path_text(path: &String, k: &String) -> (r: String)
    ensures
        r@ == child_path(path@, k@),
{
    if path.as_str().is_empty() {
        k.clone()
    } else {
        let mut s = path.clone();
        s.push('.');
        push_str(&mut s, k.as_str());
        s
    }
}

/// The path of the element at index `i` of the sequence at `path`.
fn index_path_text(path: &String, i: usize) -> (r: String)
    ensures
        r@ == index_path(path@, i as nat),
{
    let mut s = path.clone();
    s.push('[');
    let d = decimal_text(i);
    push_str(&mut s, d.as_str());
    s.push(']');
    s
}

/// Appends the paths reported for the value at `path`.
fn diff(path: &String, raw: &YamlTree, norm: &YamlTree, out: &mut Vec<String>)
    ensures
        string_views(final(out)@) == string_views(old(out)@) + spec_diff(path@, *raw, *norm),
    decreases raw,
{
    match raw {
        YamlTree::Mapping(rm) => match norm {
            YamlTree::Mapping(nm) => diff_entries(path, rm, nm, out),
            _ => {
                assert(string_views(out@) =~= string_views(out@) + seq![]);
            },
        },
        YamlTree::Sequence(rs) => match norm {
            YamlTree::Sequence(ns) => diff_items(path, rs, ns, out),
            _ => {
                assert(string_views(out@) =~= string_views(out@) + seq![]);
            },
        },
        _ => {
            assert(string_views(out@) =~= string_views(out@) + seq![]);
        },
    }
}

/// Appends the paths reported for the raw entries of a mapping.
fn diff_entries(
    path: &String,
    entries: &Vec<(YamlTree, YamlTree)>,
    norm_entries: &Vec<(YamlTree, YamlTree)>,
    out: &mut Vec<String>,
)
    ensures
        string_views(final(out)@) == string_views(old(out)@) + entries_diff(
            path@,
            entries@,
            norm_entries@,
        ),
    decreases entries@,
{
    let ghost start = string_views(out@);
    let mut i: usize = 0;
    assert(entries@.subrange(0, 0).len() == 0);
    assert(start =~= start + seq![]);
    while i < entries.len()
        invariant
            i <= entries.len(),
            string_views(out@) == start + entries_diff(
                path@,
                entries@.subrange(0, i as int),
                norm_entries@,
            ),
        decreases entries.len() - i,
    {
        let ghost before = string_views(out@);
        let ghost pre = entries@.subrange(0, i as int + 1);
        assert(pre.subrange(0, i as int) =~= entries@.subrange(0, i as int));
        assert(pre[i as int] == entries@[i as int]);
        match key_str(&entries[i].0) {
            None => {
                assert(before =~= before + seq![]);
            },
            Some(k) => {
                let sub = child_path_text(path, k);
                match find_value(norm_entries, &entries[i].0) {
                    Some(nv) => {
                        diff(&sub, &entries[i].1, nv, out);
                    },
                    None => {
                        if !is_default(&entries[i].1) {
                            out.push(sub);
                            assert(string_views(out@) =~= before + seq![sub@]);
                        } else {
                            assert(before =~= before + seq![]);
                        }
                    },
                }
            },
        }
        assert(string_views(out@) =~= start + entries_diff(path@, pre, norm_entries@));
        i = i + 1;
    }
    assert(entries@.subrange(0, entries@.len() as int) =~= entries@);
}

/// Appends the paths reported for the raw elements of a sequence.
fn diff_items(path: &String, items: &Vec<YamlTree>, norm_items: &Vec<YamlTree>, out: &mut Vec<String>)
    ensures
        string_views(final(out)@) == string_views(old(out)@) + items_diff(
            path@,
            items@,
            norm_items@,
        ),
    decreases items@,
{
    let ghost start = string_views(out@);
    let mut i: usize = 0;
    assert(start =~= start + seq![]);
    while i < items.len()
        invariant
            i <= items.len(),
            string_views(out@) == start + items_diff(path@, items@.subrange(0, i as int), norm_items@),
        decreases items.len() - i,
    {
        let ghost before = string_views(out@);
        let ghost pre = items@.subrange(0, i as int + 1);
        assert(pre.subrange(0, i as int) =~= items@.subrange(0, i as int));
        assert(pre[i as int] == items@[i as int]);
        let sub = index_path_text(path, i);
        if i < norm_items.len() {
            diff(&sub, &items[i], &norm_items[i], out);
        } else if !is_default(&items[i]) {
            out.push(sub);
            assert(string_views(out@) =~= before + seq![sub@]);
        } else {
            assert(before =~= before + seq![]);
        }
        assert(string_views(out@) =~= start + items_diff(path@, pre, norm_items@));
        i = i + 1;
    }
    assert(items@.subrange(0, items@.len() as int) =~= items@);
}

/// The dotted paths (such as `groups[2].attributes[0].typo`) of every key
/// present in `raw` and dropped from `normalized`, in document order.
pub fn collect_paths(raw: &YamlTree, normalized: &YamlTree) -> (paths: Vec<String>)
    ensures
        string_views(paths@) == spec_diff(seq![], *raw, *normalized),
{
    let mut out: Vec<String> = Vec::new();
    let root = String::new();
    assert(string_views(out@) =~= seq![]);
    diff(&root, raw, normalized, &mut out);
    out
}

/// The outcome of checking a file for keys its schema does not define, once
/// the file's declared format has been accepted: a file whose minor version
/// is newer than this library knows may carry fields it cannot know, so it is
/// accepted as it is; on a known minor version any reported path makes the
/// file fail with [`Error::UnexpectedFields`], which names the file, the
/// expected format and every path in walk order.
pub fn check(
    raw: &YamlTree,
    normalized: &YamlTree,
    file_format: &str,
    known_minor: bool,
    path: &str,
) -> (r: Result<(), Error>)
    ensures
        !known_minor ==> r is Ok,
        known_minor ==> (r is Ok <==> spec_diff(seq![], *raw, *normalized).len() == 0),
        r matches Err(e) ==> e@ == ev(
            ErrorKind::UnexpectedFields,
            seq![path@, file_format@] + spec_diff(seq![], *raw, *normalized),
        ),
{
    if !known_minor {
        return Ok(());
    }
    let unexpected = collect_paths(raw, normalized);
    if unexpected.len() == 0 {
        return Ok(());
    }
    Err(Error::UnexpectedFields {
        path_or_url: path.to_string(),
        file_format: file_format.to_string(),
        fields: unexpected,
    })
}

/// A value that serialization does not leave out: anything but null, an
/// empty string, an empty sequence or an empty mapping.
pub open spec fn is_written_value(v: YamlTree) -> bool {
    match v {
        YamlTree::Null => false,
        YamlTree::Str(s) => s@.len() > 0,
        YamlTree::Sequence(s) => s@.len() > 0,
        YamlTree::Mapping(m) => m@.len() > 0,
        _ => true,
    }
}

/// A mapping holds no entry under a key that none of its keys equals.
proof fn lemma_lookup_absent(entries: Seq<(YamlTree, YamlTree)>, key: YamlTree)
    requires
        forall|j: int| 0 <= j < entries.len() ==> !same_key(key, #[trigger] entries[j].0),
    ensures
        lookup(entries, key) is None,
    decreases entries.len(),
{
    if entries.len() > 0 {
        let r = entries.subrange(1, entries.len() as int);
        assert(!same_key(key, entries[0].0));
        assert forall|j: int| 0 <= j < r.len() implies !same_key(key, #[trigger] r[j].0) by {
            assert(r[j] == entries[j + 1]);
        }
        lemma_lookup_absent(r, key);
    }
}

proof fn lemma_paths_join(a: Seq<Seq<char>>, b: Seq<Seq<char>>, x: Seq<char>)
    ensures
        a.contains(x) ==> (a + b).contains(x),
        b.contains(x) ==> (a + b).contains(x),
{
    if a.contains(x) {
        let i = choose|i: int| 0 <= i < a.len() && a[i] == x;
        assert((a + b)[i] == x);
    }
    if b.contains(x) {
        let i = choose|i: int| 0 <= i < b.len() && b[i] == x;
        assert((a + b)[a.len() + i] == x);
    }
}

proof fn lemma_dropped_entry(
    path: Seq<char>,
    entries: Seq<(YamlTree, YamlTree)>,
    norm: Seq<(YamlTree, YamlTree)>,
    i: int,
    k: Seq<char>,
)
    requires
        0 <= i < entries.len(),
        key_text(entries[i].0) == Some(k),
        lookup(norm, entries[i].0) is None,
        is_written_value(entries[i].1),
    ensures
        entries_diff(path, entries, norm).contains(child_path(path, k)),
    decreases entries.len(),
{
    let last = entries.len() - 1;
    let init = entries.subrange(0, last);
    let tail = match key_text(entries[last].0) {
        None => seq![],
        Some(kk) => match lookup(norm, entries[last].0) {
            Some(nv) => spec_diff(child_path(path, kk), entries[last].1, nv),
            None => if is_default_equivalent(entries[last].1) {
                seq![]
            } else {
                seq![child_path(path, kk)]
            },
        },
    };
    assert(entries_diff(path, entries, norm) == entries_diff(path, init, norm) + tail);
    if i == last {
        assert(tail[0] == child_path(path, k));
        lemma_paths_join(entries_diff(path, init, norm), tail, child_path(path, k));
    } else {
        assert(init[i] == entries[i]);
        lemma_dropped_entry(path, init, norm, i, k);
        lemma_paths_join(entries_diff(path, init, norm), tail, child_path(path, k));
    }
}

/// A key of the raw document that the normalized one lacks, written with a
/// value that serialization would not leave out, is reported by its name
/// (at the top level) or by the path of the mapping that holds it, a dot
/// and its name.
pub proof fn law_dropped_key_is_reported(
    path: Seq<char>,
    raw: YamlTree,
    normalized: YamlTree,
    i: int,
    k: Seq<char>,
)
    requires
        raw is Mapping,
        normalized is Mapping,
        0 <= i < raw->Mapping_0@.len(),
        raw->Mapping_0@[i].0 matches YamlTree::Str(s) && s@ == k,
        forall|j: int|
            0 <= j < normalized->Mapping_0@.len() ==> !same_key(
                raw->Mapping_0@[i].0,
                #[trigger] normalized->Mapping_0@[j].0,
            ),
        is_written_value(raw->Mapping_0@[i].1),
    ensures
        spec_diff(path, raw, normalized).contains(if path.len() == 0 {
            k
        } else {
            path + seq!['.'] + k
        }),
{
    lemma_lookup_absent(normalized->Mapping_0@, raw->Mapping_0@[i].0);
    lemma_dropped_entry(path, raw->Mapping_0@, normalized->Mapping_0@, i, k);
}

/// A raw mapping whose entries all carry values that serialization leaves
/// out (null, an empty string, an empty sequence or an empty mapping), under
/// keys that the normalized mapping lacks, reports nothing.
pub proof fn law_default_values_are_not_reported(path: Seq<char>, raw: YamlTree, normalized: YamlTree)
    requires
        raw is Mapping,
        normalized is Mapping,
        forall|i: int|
            0 <= i < raw->Mapping_0@.len() ==> !is_written_value(#[trigger] raw->Mapping_0@[i].1)
                && lookup(normalized->Mapping_0@, raw->Mapping_0@[i].0) is None,
    ensures
        spec_diff(path, raw, normalized) == Seq::<Seq<char>>::empty(),
{
    let e = raw->Mapping_0@;
    let n = normalized->Mapping_0@;
    assert forall|i: int| 0 <= i < e.len() implies !is_written_value(#[trigger] e[i].1) && lookup(n, e[i].0)
        is None by {
        assert(!is_written_value(raw->Mapping_0@[i].1));
    }
    lemma_defaults_silent(path, e, n);
}

proof fn lemma_defaults_silent(path: Seq<char>, entries: Seq<(YamlTree, YamlTree)>, norm: Seq<(YamlTree, YamlTree)>)
    requires
        forall|i: int|
            0 <= i < entries.len() ==> !is_written_value(#[trigger] entries[i].1) && lookup(
                norm,
                entries[i].0,
            ) is None,
    ensures
        entries_diff(path, entries, norm) == Seq::<Seq<char>>::empty(),
    decreases entries.len(),
{
    if entries.len() > 0 {
        let last = entries.len() - 1;
        let init = entries.subrange(0, last);
        assert forall|i: int| 0 <= i < init.len() implies !is_written_value(#[trigger] init[i].1) && lookup(
            norm,
            init[i].0,
        ) is None by {
            assert(init[i] == entries[i]);
        }
        lemma_defaults_silent(path, init, norm);
        assert(!is_written_value(entries[last].1));
        assert(lookup(norm, entries[last].0) is None);
        assert(Seq::<Seq<char>>::empty() + Seq::<Seq<char>>::empty() =~= Seq::<Seq<char>>::empty());
    }
}

} // verus!
