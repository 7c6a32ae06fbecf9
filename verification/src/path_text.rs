//! Reading file paths as text, the way `std::path` reads a Unix path: its
//! `/`-separated parts, its file name and extension, and joining.

use vstd::prelude::*;
use crate::schema_url::last_slash;
use crate::text::{str_chars, string_from_range, string_views};

verus! {

/// A lemma on the position of the last `/`: -1, or a position holding `/`.
pub proof fn lemma_last_slash(s: Seq<char>)
    ensures
        -1 <= last_slash(s) < s.len(),
        last_slash(s) >= 0 ==> s[last_slash(s)] == '/',
        forall|j: int| last_slash(s) < j < s.len() ==> s[j] != '/',
    decreases s.len(),
{
    if s.len() > 0 && s.last() != '/' {
        lemma_last_slash(s.drop_last());
        assert forall|j: int| last_slash(s) < j < s.len() implies s[j] != '/' by {
            if j < s.len() - 1 {
                assert(s.drop_last()[j] == s[j]);
            }
        }
    }
}

/// The `/`-separated parts of `s`, empty ones included, as `str::split`
/// gives them.
pub open spec fn split_slash(s: Seq<char>) -> Seq<Seq<char>>
    decreases s.len(),
{
    let k = last_slash(s);
    if k < 0 {
        seq![s]
    } else {
        proof {
            lemma_last_slash(s);
        }
        split_slash(s.subrange(0, k)).push(s.subrange(k + 1, s.len() as int))
    }
}

/// Splitting after one more character: a `/` opens a new empty part, any
/// other character extends the last part.
proof fn lemma_split_push(p: Seq<char>, c: char)
    ensures
        split_slash(p).len() >= 1,
        c == '/' ==> split_slash(p.push(c)) == split_slash(p).push(Seq::empty()),
        c != '/' ==> split_slash(p.push(c)) == split_slash(p).drop_last().push(
            split_slash(p).last().push(c),
        ),
{
    let q = p.push(c);
    lemma_last_slash(p);
    lemma_last_slash(q);
    if c == '/' {
        assert(last_slash(q) == p.len());
        assert(q.subrange(0, p.len() as int) =~= p);
        assert(q.subrange(p.len() as int + 1, q.len() as int) =~= Seq::<char>::empty());
    } else {
        assert(q.drop_last() =~= p);
        assert(last_slash(q) == last_slash(p));
        let k = last_slash(p);
        if k < 0 {
            assert(split_slash(q) == seq![q]);
        } else {
            assert(q.subrange(0, k) =~= p.subrange(0, k));
            assert(q.subrange(k + 1, q.len() as int) =~= p.subrange(k + 1, p.len() as int).push(c));
        }
    }
}

/// The parts of `s` split at every `/`.
pub fn split_at_slashes(s: &str) -> (r: Vec<String>)
    ensures
        string_views(r@) == split_slash(s@),
{
    let cs = str_chars(s);
    let mut done: Vec<String> = Vec::new();
    let mut start: usize = 0;
    let mut i: usize = 0;
    proof {
        assert(cs@.subrange(0, 0) =~= Seq::<char>::empty());
        assert(last_slash(Seq::<char>::empty()) == -1);
    }
    while i < cs.len()
        invariant
            cs@ == s@,
            start <= i <= cs@.len(),
            string_views(done@).push(cs@.subrange(start as int, i as int)) == split_slash(
                cs@.subrange(0, i as int),
            ),
        decreases cs@.len() - i,
    {
        proof {
            lemma_split_push(cs@.subrange(0, i as int), cs@[i as int]);
            assert(cs@.subrange(0, i + 1) =~= cs@.subrange(0, i as int).push(cs@[i as int]));
        }
        if cs[i] == '/' {
            let part = string_from_range(cs.as_slice(), start, i);
            let ghost before = done@;
            done.push(part);
            proof {
                assert(string_views(done@) =~= string_views(before).push(part@));
                assert(cs@.subrange(i + 1, i + 1) =~= Seq::<char>::empty());
            }
            start = i + 1;
        } else {
            proof {
                assert(cs@.subrange(start as int, i + 1) =~= cs@.subrange(start as int, i as int).push(
                    cs@[i as int],
                ));
                assert(string_views(done@).push(cs@.subrange(start as int, i as int)).drop_last()
                    =~= string_views(done@));
            }
        }
        i = i + 1;
    }
    let last = string_from_range(cs.as_slice(), start, cs.len());
    let ghost before = done@;
    done.push(last);
    proof {
        assert(string_views(done@) =~= string_views(before).push(last@));
        assert(cs@.subrange(0, cs@.len() as int) =~= cs@);
    }
    done
}

/// The position of the last `.` in `s`, or -1.
pub open spec fn last_dot(s: Seq<char>) -> int
    decreases s.len(),
{
    if s.len() == 0 {
        -1
    } else if s.last() == '.' {
        s.len() - 1
    } else {
        last_dot(s.drop_last())
    }
}

/// A lemma on the position of the last `.`.
pub proof fn lemma_last_dot(s: Seq<char>)
    ensures
        -1 <= last_dot(s) < s.len(),
        last_dot(s) >= 0 ==> s[last_dot(s)] == '.',
    decreases s.len(),
{
    if s.len() > 0 && s.last() != '.' {
        lemma_last_dot(s.drop_last());
    }
}

/// The stem of a file name: what comes before its last `.`, or the whole
/// name when it has no `.` but a leading one.
pub open spec fn file_stem(name: Seq<char>) -> Seq<char> {
    let k = last_dot(name);
    if k <= 0 {
        name
    } else {
        name.subrange(0, k)
    }
}

/// The extension of a file name: what comes after its last `.`; none when
/// it has no `.` but a leading one.
pub open spec fn file_extension(name: Seq<char>) -> Option<Seq<char>> {
    let k = last_dot(name);
    if k <= 0 {
        None
    } else {
        Some(name.subrange(k + 1, name.len() as int))
    }
}

/// The position of the last `.` in a sequence of characters.
fn find_last_dot(t: &Vec<char>) -> (r: Option<usize>)
    ensures
        match r {
            Some(k) => last_dot(t@) == k && k < t@.len(),
            None => last_dot(t@) == -1,
        },
{
    let mut k: usize = t.len();
    assert(t@.subrange(0, k as int) =~= t@);
    while k > 0 && t[k - 1] != '.'
        invariant
            k <= t@.len(),
            last_dot(t@) == last_dot(t@.subrange(0, k as int)),
        decreases k,
    {
        assert(t@.subrange(0, k as int).drop_last() =~= t@.subrange(0, k - 1));
        k = k - 1;
    }
    if k == 0 {
        assert(t@.subrange(0, 0) =~= Seq::<char>::empty());
        None
    } else {
        Some(k - 1)
    }
}

/// The stem of a file name.
pub fn stem_of(name: &str) -> (r: String)
    ensures
        r@ == file_stem(name@),
{
    let cs = str_chars(name);
    match find_last_dot(&cs) {
        Some(k) => if k == 0 {
            string_from_range(cs.as_slice(), 0, cs.len())
        } else {
            string_from_range(cs.as_slice(), 0, k)
        },
        None => string_from_range(cs.as_slice(), 0, cs.len()),
    }
}

/// The extension of a file name.
pub fn extension_of(name: &str) -> (r: Option<String>)
    ensures
        match r {
            Some(e) => file_extension(name@) == Some(e@),
            None => file_extension(name@) is None,
        },
{
    let cs = str_chars(name);
    match find_last_dot(&cs) {
        Some(k) => if k == 0 {
            None
        } else {
            proof {
                lemma_last_dot(cs@);
            }
            Some(string_from_range(cs.as_slice(), k + 1, cs.len()))
        },
        None => None,
    }
}

/// A part that names something: not empty, not `.` (the current directory)
/// and not `..` (the parent).
pub open spec fn is_normal_part(c: Seq<char>) -> bool {
    c.len() > 0 && c != "."@ && c != ".."@
}

/// A part that counts for the file name: not empty and not `.`.
pub open spec fn is_named_part(c: Seq<char>) -> bool {
    c.len() > 0 && c != "."@
}

/// The parts of a path that count for its file name.
pub open spec fn named_parts(parts: Seq<Seq<char>>) -> Seq<Seq<char>>
    decreases parts.len(),
{
    if parts.len() == 0 {
        Seq::empty()
    } else {
        let r = named_parts(parts.drop_last());
        if is_named_part(parts.last()) {
            r.push(parts.last())
        } else {
            r
        }
    }
}

/// The file name of a path: its last part once empty parts and `.` are
/// ignored; none when there is no such part or it is `..`.
pub open spec fn path_file_name(p: Seq<char>) -> Option<Seq<char>> {
    let n = named_parts(split_slash(p));
    if n.len() == 0 || n.last() == ".."@ {
        None
    } else {
        Some(n.last())
    }
}

/// Whether a part is exactly `.` or `..`.
fn is_dots(c: &str, two: bool) -> (r: bool)
    ensures
        r == (c@ == (if two {
            ".."@
        } else {
            "."@
        })),
{
    if two {
        crate::text::str_eq(c, "..")
    } else {
        crate::text::str_eq(c, ".")
    }
}

/// The file name of a path.
pub fn file_name_of(p: &str) -> (r: Option<String>)
    ensures
        match r {
            Some(n) => path_file_name(p@) == Some(n@),
            None => path_file_name(p@) is None,
        },
{
    let parts = split_at_slashes(p);
    let ghost sv = string_views(parts@);
    let mut last: Option<usize> = None;
    let mut i: usize = 0;
    assert(sv.take(0) =~= Seq::<Seq<char>>::empty());
    while i < parts.len()
        invariant
            sv == string_views(parts@),
            i <= parts@.len(),
            match last {
                Some(k) => k < i && named_parts(sv.take(i as int)).len() > 0 && named_parts(
                    sv.take(i as int),
                ).last() == sv[k as int],
                None => named_parts(sv.take(i as int)).len() == 0,
            },
        decreases parts@.len() - i,
    {
        proof {
            assert(sv.take(i + 1).drop_last() =~= sv.take(i as int));
            assert(sv.take(i + 1).last() == sv[i as int]);
        }
        let named = parts[i].as_str().unicode_len() > 0 && !is_dots(parts[i].as_str(), false);
        if named {
            last = Some(i);
        }
        i = i + 1;
    }
    proof {
        assert(sv.take(sv.len() as int) =~= sv);
    }
    match last {
        None => None,
        Some(k) => if is_dots(parts[k].as_str(), true) {
            None
        } else {
            Some(parts[k].clone())
        },
    }
}

/// `name` joined under `base`, as `Path::join` does for a relative `name`:
/// a `/` between them unless `base` is empty or already ends with one.
pub open spec fn join_path(base: Seq<char>, name: Seq<char>) -> Seq<char> {
    if base.len() == 0 || base.last() == '/' {
        base + name
    } else {
        base + "/"@ + name
    }
}

/// Joins a relative name under a base path.
pub fn join(base: &str, name: &str) -> (r: String)
    ensures
        r@ == join_path(base@, name@),
{
    let cs = str_chars(base);
    let mut r = crate::text::to_owned_string(base);
    if cs.len() > 0 && cs[cs.len() - 1] != '/' {
        r.append("/");
    }
    r.append(name);
    r
}

/// The stems of the parts of a path that name something.
pub open spec fn normal_stems(parts: Seq<Seq<char>>) -> Seq<Seq<char>>
    decreases parts.len(),
{
    if parts.len() == 0 {
        Seq::empty()
    } else {
        let r = normal_stems(parts.drop_last());
        if is_normal_part(parts.last()) {
            r.push(file_stem(parts.last()))
        } else {
            r
        }
    }
}

/// Texts joined with `.` between them.
pub open spec fn join_dots(parts: Seq<Seq<char>>) -> Seq<char>
    decreases parts.len(),
{
    if parts.len() == 0 {
        Seq::empty()
    } else if parts.len() == 1 {
        parts[0]
    } else {
        join_dots(parts.drop_last()) + "."@ + parts.last()
    }
}

/// A name for a file path: the stems of the parts of the path that name
/// something, joined with `.`.
pub open spec fn spec_path_to_name(path: Seq<char>) -> Seq<char> {
    join_dots(normal_stems(split_slash(path)))
}

/// Builds a name from a file path: the stems of its directory and file
/// names, joined with `.`, so that `a/b/c.yaml` gives `a.b.c`.
pub fn provenance_path_to_name(path: &str) -> (r: String)
    ensures
        r@ == spec_path_to_name(path@),
{
    let parts = split_at_slashes(path);
    let ghost sv = string_views(parts@);
    let mut result = String::new();
    let mut need_dot = false;
    let mut i: usize = 0;
    assert(sv.take(0) =~= Seq::<Seq<char>>::empty());
    while i < parts.len()
        invariant
            sv == string_views(parts@),
            i <= parts@.len(),
            result@ == join_dots(normal_stems(sv.take(i as int))),
            need_dot == (normal_stems(sv.take(i as int)).len() > 0),
        decreases parts@.len() - i,
    {
        proof {
            assert(sv.take(i + 1).drop_last() =~= sv.take(i as int));
            assert(sv.take(i + 1).last() == sv[i as int]);
        }
        let part = parts[i].as_str();
        let normal = part.unicode_len() > 0 && !is_dots(part, false) && !is_dots(part, true);
        if normal {
            let stem = stem_of(part);
            proof {
                let r = normal_stems(sv.take(i as int));
                assert(r.push(stem@).drop_last() =~= r);
                if r.len() == 0 {
                    assert(join_dots(r.push(stem@)) == stem@);
                }
            }
            if need_dot {
                result.append(".");
            }
            result.append(stem.as_str());
            need_dot = true;
        }
        i = i + 1;
    }
    proof {
        assert(sv.take(sv.len() as int) =~= sv);
    }
    result
}

} // verus!
