//! What the patterns of span name templates are: the text of a list of
//! components, and read back as that list; and how the record form of a
//! template agrees with its pattern; and how rendering with a lookup
//! function agrees with rendering with a table.

use vstd::prelude::*;
use crate::v2::span::{
    answers, is_usable, lookup, opt_text, parts_view, placeholder_names, render_vals, renders_with,
    spec_render, SpanNameTemplate, spec_from_fields, spec_parse,
    is_brace, is_placeholder_char, is_valid_placeholder, lemma_next_brace, next_brace, scan_from,
    PartView,
};

verus! {

/// The text of one component: a literal as itself, a placeholder as
/// `{name}`.
pub open spec fn part_text(p: PartView) -> Seq<char> {
    match p {
        PartView::Literal(v) => v,
        PartView::Attribute(a) => seq!['{'] + a + seq!['}'],
    }
}

/// The text of a list of components, one after the other.
pub open spec fn parts_text(p: Seq<PartView>) -> Seq<char>
    decreases p.len(),
{
    if p.len() == 0 {
        Seq::empty()
    } else {
        part_text(p[0]) + parts_text(p.drop_first())
    }
}

/// A literal is not empty and holds no brace.
pub open spec fn literal_ok(v: Seq<char>) -> bool {
    v.len() > 0 && forall|m: int| 0 <= m < v.len() ==> !is_brace(#[trigger] v[m])
}

/// A component is a literal as above or a valid placeholder.
pub open spec fn part_ok(p: PartView) -> bool {
    match p {
        PartView::Literal(v) => literal_ok(v),
        PartView::Attribute(a) => is_valid_placeholder(a),
    }
}

/// Every component is valid and no two literals follow each other.
pub open spec fn well_formed_parts(p: Seq<PartView>) -> bool
    decreases p.len(),
{
    p.len() == 0 || (part_ok(p[0]) && !(p.len() > 1 && p[0] is Literal && p[1] is Literal)
        && well_formed_parts(p.drop_first()))
}

proof fn lemma_next_brace_at(s: Seq<char>, k: int, m: int)
    requires
        0 <= k <= m <= s.len(),
        forall|t: int| k <= t < m ==> !is_brace(#[trigger] s[t]),
        m == s.len() || is_brace(s[m]),
    ensures
        next_brace(s, k) == m,
    decreases m - k,
{
    if k < m {
        lemma_next_brace_at(s, k + 1, m);
    }
}

proof fn lemma_text_prepend(x: PartView, rest: Seq<PartView>)
    ensures
        parts_text(seq![x] + rest) == part_text(x) + parts_text(rest),
        (seq![x] + rest)[0] == x,
        (seq![x] + rest).drop_first() == rest,
{
    assert((seq![x] + rest).drop_first() =~= rest);
}

/// What a successful scan from position `i` gives is well formed and is
/// the text from `i` on; from a `{` it starts with a placeholder.
proof fn lemma_scan_sound(s: Seq<char>, i: int)
    requires
        0 <= i <= s.len(),
    ensures
        scan_from(s, i) matches Ok(p) ==> well_formed_parts(p) && parts_text(p) == s.subrange(
            i,
            s.len() as int,
        ) && (p.len() > 0 && i < s.len() && s[i] == '{' ==> p[0] is Attribute),
    decreases s.len() - i,
{
    if i < s.len() {
        if s[i] == '{' {
            let j = next_brace(s, i + 1);
            lemma_next_brace(s, i + 1);
            if j < s.len() && s[j] != '{' {
                let a = s.subrange(i + 1, j);
                if is_valid_placeholder(a) {
                    lemma_scan_sound(s, j + 1);
                    if let Ok(rest) = scan_from(s, j + 1) {
                        let x = PartView::Attribute(a);
                        lemma_text_prepend(x, rest);
                        assert(s[j] == '}');
                        assert(part_text(x) + s.subrange(j + 1, s.len() as int) =~= s.subrange(
                            i,
                            s.len() as int,
                        ));
                    }
                }
            }
        } else if s[i] != '}' {
            let j = next_brace(s, i);
            lemma_next_brace(s, i);
            lemma_next_brace(s, i + 1);
            if j > i {
                lemma_scan_sound(s, j);
                if let Ok(rest) = scan_from(s, j) {
                    let v = s.subrange(i, j);
                    let x = PartView::Literal(v);
                    lemma_text_prepend(x, rest);
                    assert(literal_ok(v)) by {
                        assert forall|m: int| 0 <= m < v.len() implies !is_brace(#[trigger] v[m]) by {
                            assert(v[m] == s[i + m]);
                        }
                    }
                    if rest.len() > 0 {
                        assert(j < s.len());
                        assert(is_brace(s[j]));
                        assert(rest[0] is Attribute);
                    }
                    assert(v + s.subrange(j, s.len() as int) =~= s.subrange(i, s.len() as int));
                }
            }
        }
    }
}

/// The text of well-formed components, placed at position `i`, is read
/// back from there as those components.
proof fn lemma_scan_complete(p: Seq<PartView>, s: Seq<char>, i: int)
    requires
        well_formed_parts(p),
        0 <= i <= s.len(),
        s.subrange(i, s.len() as int) == parts_text(p),
    ensures
        scan_from(s, i) == Ok::<Seq<PartView>, crate::v2::span::ScanError>(p),
    decreases p.len(),
{
    if p.len() == 0 {
        assert(p =~= Seq::<PartView>::empty());
    } else {
        let rest = p.drop_first();
        let t = s.subrange(i, s.len() as int);
        assert(t == part_text(p[0]) + parts_text(rest));
        match p[0] {
            PartView::Attribute(a) => {
                let j = i + 1 + a.len();
                assert(t[0] == '{');
                assert(s[i] == t[0]);
                assert(t[a.len() + 1int] == '}');
                assert(s[j] == t[a.len() + 1int]);
                assert forall|m: int| i + 1 <= m < j implies !is_brace(#[trigger] s[m]) by {
                    assert(s[m] == t[m - i]);
                    assert(t[m - i] == a[m - i - 1]);
                    assert(is_placeholder_char(a[m - i - 1]));
                }
                lemma_next_brace_at(s, i + 1, j);
                assert forall|m: int| 0 <= m < a.len() implies s.subrange(i + 1, j)[m] == a[m] by {
                    assert(s[i + 1 + m] == t[1 + m]);
                    assert(t[1 + m] == a[m]);
                }
                assert(s.subrange(i + 1, j) =~= a);
                assert(s.subrange(j + 1, s.len() as int) =~= parts_text(rest)) by {
                    assert forall|m: int| 0 <= m < parts_text(rest).len() implies s.subrange(
                        j + 1,
                        s.len() as int,
                    )[m] == parts_text(rest)[m] by {
                        assert(t[a.len() + 2int + m] == parts_text(rest)[m]);
                    }
                }
                lemma_scan_complete(rest, s, j + 1);
                assert(seq![PartView::Attribute(a)] + rest =~= p);
            },
            PartView::Literal(v) => {
                let j = i + v.len();
                assert forall|m: int| i <= m < j implies !is_brace(#[trigger] s[m]) by {
                    assert(s[m] == t[m - i]);
                    assert(t[m - i] == v[m - i]);
                }
                assert(s[i] == v[0]) by {
                    assert(s[i] == t[0]);
                }
                assert(s.subrange(j, s.len() as int) =~= parts_text(rest)) by {
                    assert forall|m: int| 0 <= m < parts_text(rest).len() implies s.subrange(
                        j,
                        s.len() as int,
                    )[m] == parts_text(rest)[m] by {
                        assert(t[v.len() + m] == parts_text(rest)[m]);
                    }
                }
                if rest.len() > 0 {
                    assert(rest[0] == p[1]);
                    assert(rest[0] is Attribute);
                    assert(parts_text(rest) == part_text(rest[0]) + parts_text(rest.drop_first()));
                    assert(parts_text(rest)[0] == '{');
                    assert(s[j] == parts_text(rest)[0]);
                } else {
                    assert(j == s.len());
                }
                lemma_next_brace_at(s, i, j);
                assert(s.subrange(i, j) =~= v);
                lemma_scan_complete(rest, s, j);
                assert(seq![PartView::Literal(v)] + rest =~= p);
            },
        }
    }
}

/// A pattern is read exactly when it is the text of well-formed components:
/// literals without braces, never two in a row, and placeholders `{name}`
/// whose name is a valid attribute key. What is read gives the pattern back
/// as its text, and the text of well-formed components is read back as
/// those very components.
pub proof fn law_template_pattern_round_trip(pattern: Seq<char>, parts: Seq<PartView>)
    ensures
        scan_from(pattern, 0) matches Ok(p) ==> well_formed_parts(p) && parts_text(p) == pattern,
        well_formed_parts(parts) ==> scan_from(parts_text(parts), 0) == Ok::<
            Seq<PartView>,
            crate::v2::span::ScanError,
        >(parts),
        (scan_from(pattern, 0) is Ok) <==> exists|q: Seq<PartView>|
            well_formed_parts(q) && #[trigger] parts_text(q) == pattern,
{
    lemma_scan_sound(pattern, 0);
    assert(pattern.subrange(0, pattern.len() as int) =~= pattern);
    if well_formed_parts(parts) {
        let s = parts_text(parts);
        assert(s.subrange(0, s.len() as int) =~= s);
        lemma_scan_complete(parts, s, 0);
    }
    if exists|q: Seq<PartView>| well_formed_parts(q) && #[trigger] parts_text(q) == pattern {
        let q = choose|q: Seq<PartView>| well_formed_parts(q) && #[trigger] parts_text(q) == pattern;
        lemma_scan_complete(q, pattern, 0);
    }
}

/// The record form of a template agrees with its pattern: with the pattern
/// alone it is read as the pattern is parsed; with the attribute keys and
/// components that parsing gives, it is that same template; whatever else
/// it is given, when it is accepted it is the parsed pattern; and without a
/// pattern it is refused.
pub proof fn law_record_form_agrees_with_pattern(
    p: Seq<char>,
    attributes: Option<Seq<Seq<char>>>,
    parts: Option<Seq<PartView>>,
)
    ensures
        spec_from_fields(Some(p), None, None) == spec_parse(p),
        spec_parse(p) matches Ok((ps, names)) ==> spec_from_fields(Some(p), Some(names), Some(ps))
            == spec_parse(p),
        spec_from_fields(Some(p), attributes, parts) is Ok ==> spec_from_fields(
            Some(p),
            attributes,
            parts,
        ) == spec_parse(p),
        spec_from_fields(None, attributes, parts) is Err,
{
}

/// A rendering from values succeeds only when every placeholder has a
/// usable value.
proof fn lemma_render_vals_some(parts: Seq<PartView>, vals: Seq<Option<Seq<char>>>)
    requires
        render_vals(parts, vals) is Some,
    ensures
        placeholder_names(parts).len() <= vals.len(),
        forall|j: int| 0 <= j < placeholder_names(parts).len() ==> is_usable(#[trigger] vals[j]),
    decreases parts.len(),
{
    if parts.len() > 0 {
        lemma_render_vals_some(parts.drop_last(), vals);
    }
}

/// Values that are those of a table for the placeholders, asked no further
/// than the first unusable one, render as the table does.
proof fn lemma_render_vals_table(
    parts: Seq<PartView>,
    vals: Seq<Option<Seq<char>>>,
    table: Seq<(String, String)>,
)
    requires
        vals.len() <= placeholder_names(parts).len(),
        forall|j: int| 0 <= j < vals.len() ==> #[trigger] vals[j] == lookup(table, placeholder_names(parts)[j]),
        forall|j: int| 0 <= j < vals.len() - 1 ==> is_usable(#[trigger] vals[j]),
        vals.len() < placeholder_names(parts).len() ==> vals.len() > 0 && !is_usable(vals.last()),
    ensures
        render_vals(parts, vals) == spec_render(parts, table),
    decreases parts.len(),
{
    if parts.len() > 0 {
        let p = parts.drop_last();
        let n = placeholder_names(p).len();
        match parts.last() {
            PartView::Literal(_) => {
                lemma_render_vals_table(p, vals, table);
            },
            PartView::Attribute(a) => {
                assert(placeholder_names(parts) == placeholder_names(p).push(a));
                if vals.len() <= n {
                    assert forall|j: int| 0 <= j < vals.len() implies #[trigger] vals[j] == lookup(
                        table,
                        placeholder_names(p)[j],
                    ) by {
                        assert(placeholder_names(parts)[j] == placeholder_names(p)[j]);
                    }
                    lemma_render_vals_table(p, vals, table);
                    if render_vals(p, vals) is Some {
                        lemma_render_vals_some(p, vals);
                        assert(is_usable(vals[vals.len() - 1]));
                    }
                } else {
                    let w = vals.drop_last();
                    assert forall|j: int| 0 <= j < w.len() implies #[trigger] w[j] == lookup(
                        table,
                        placeholder_names(p)[j],
                    ) by {
                        assert(w[j] == vals[j]);
                        assert(placeholder_names(parts)[j] == placeholder_names(p)[j]);
                    }
                    assert forall|j: int| 0 <= j < w.len() - 1 implies is_usable(#[trigger] w[j]) by {
                        assert(w[j] == vals[j]);
                    }
                    lemma_render_vals_table(p, w, table);
                    crate::v2::span::lemma_render_vals_extend(p, w, vals.last());
                    assert(w.push(vals.last()) =~= vals);
                    assert(vals[n as int] == lookup(table, a));
                }
            },
        }
    }
}

/// With a lookup function that gives, for each attribute, its value in a
/// table, whatever rendering a template with the function gives is what
/// rendering it with the table gives.
pub proof fn law_render_with_table_lookup<'a, F: Fn(&str) -> Option<&'a str>>(
    t: SpanNameTemplate,
    get_attr: F,
    table: Seq<(String, String)>,
    o: Option<Seq<char>>,
)
    requires
        forall|a: &str, out: Option<&'a str>|
            #[trigger] call_ensures(get_attr, (a,), out) ==> opt_text(out) == lookup(table, a@),
        renders_with(t, get_attr, o),
    ensures
        o == spec_render(parts_view(t.parts@), table),
{
    let parts = parts_view(t.parts@);
    let names = placeholder_names(parts);
    let vals = choose|vals: Seq<Option<Seq<char>>>|
        #![trigger render_vals(parts_view(t.parts@), vals)]
        vals.len() <= placeholder_names(parts_view(t.parts@)).len()
        && (forall|j: int|
            0 <= j < vals.len() ==> answers(
                get_attr,
                placeholder_names(parts_view(t.parts@))[j],
                #[trigger] vals[j],
            ))
        && (forall|j: int| 0 <= j < vals.len() - 1 ==> is_usable(#[trigger] vals[j]))
        && (vals.len() < placeholder_names(parts_view(t.parts@)).len() ==> vals.len() > 0
            && !is_usable(vals.last()))
        && o == render_vals(parts_view(t.parts@), vals);
    assert forall|j: int| 0 <= j < vals.len() implies #[trigger] vals[j] == lookup(table, names[j]) by {
        assert(answers(get_attr, names[j], vals[j]));
        let (a, out) = choose|a: &str, out: Option<&'a str>|
            a@ == names[j] && #[trigger] call_ensures(get_attr, (a,), out) && opt_text(out) == vals[j];
    }
    lemma_render_vals_table(parts, vals, table);
}

/// A character allowed in a placeholder name: an ASCII letter or digit,
/// `.` or `_`.
pub open spec fn placeholder_alphabet(c: char) -> bool {
    ('a' <= c && c <= 'z') || ('A' <= c && c <= 'Z') || ('0' <= c && c <= '9') || c == '.' || c == '_'
}

/// A pattern that is one placeholder `{k}` (with no brace inside `k`)
/// parses exactly when `k` is not empty and made of ASCII letters, digits,
/// `.` and `_`; it then has the one component `k` and the one attribute
/// key `k`.
pub proof fn law_single_placeholder(k: Seq<char>)
    requires
        forall|i: int| 0 <= i < k.len() ==> #[trigger] k[i] != '{' && k[i] != '}',
    ensures
        (spec_parse(seq!['{'] + k + seq!['}']) is Ok) <==> (k.len() > 0 && forall|i: int|
            0 <= i < k.len() ==> placeholder_alphabet(#[trigger] k[i])),
        (k.len() > 0 && forall|i: int| 0 <= i < k.len() ==> placeholder_alphabet(#[trigger] k[i]))
            ==> spec_parse(seq!['{'] + k + seq!['}']) == Ok::<_, Seq<char>>(
            (seq![PartView::Attribute(k)], seq![k]),
        ),
{
    let s = seq!['{'] + k + seq!['}'];
    let j: int = k.len() as int + 1;
    assert(s[0] == '{');
    assert(!crate::v2::span::is_blank(s)) by {
        assert(!crate::v2::span::is_white_space(s[0]));
    }
    assert forall|t: int| 1 <= t < j implies !is_brace(#[trigger] s[t]) by {
        assert(s[t] == k[t - 1]);
    }
    assert(s[j] == '}');
    lemma_next_brace_at(s, 1, j);
    assert(s.subrange(1, j) =~= k);
    let valid = k.len() > 0 && forall|i: int| 0 <= i < k.len() ==> placeholder_alphabet(#[trigger] k[i]);
    assert(crate::v2::span::is_valid_placeholder(k) == valid) by {
        if valid {
            assert forall|i: int| 0 <= i < k.len() implies crate::v2::span::is_placeholder_char(#[trigger] k[i]) by {
                assert(placeholder_alphabet(k[i]));
            }
        }
        if crate::v2::span::is_valid_placeholder(k) {
            assert forall|i: int| 0 <= i < k.len() implies placeholder_alphabet(#[trigger] k[i]) by {
                assert(crate::v2::span::is_placeholder_char(k[i]));
            }
        }
    }
    assert(scan_from(s, j + 1) == Ok::<Seq<PartView>, crate::v2::span::ScanError>(Seq::empty()));
    if valid {
        assert(scan_from(s, 0) == Ok::<Seq<PartView>, crate::v2::span::ScanError>(
            seq![PartView::Attribute(k)] + Seq::<PartView>::empty(),
        ));
        assert(seq![PartView::Attribute(k)] + Seq::<PartView>::empty() =~= seq![PartView::Attribute(k)]);
        let ps = seq![PartView::Attribute(k)];
        assert(ps.drop_last() =~= Seq::<PartView>::empty());
        assert(ps.last() == PartView::Attribute(k));
        assert(placeholder_names(ps.drop_last()) =~= Seq::<Seq<char>>::empty());
        assert(placeholder_names(ps) =~= seq![k]);
        assert(seq![k].drop_last() =~= Seq::<Seq<char>>::empty());
        reveal_with_fuel(crate::v2::span::dedup, 2);
        assert(crate::v2::span::dedup(seq![k]) =~= seq![k]);
    }
}

/// The text a component gives with the values of a table: a literal
/// itself, a placeholder its value (nothing when it has none).
pub open spec fn filled_part(p: PartView, table: Seq<(String, String)>) -> Seq<char> {
    match p {
        PartView::Literal(v) => v,
        PartView::Attribute(a) => match lookup(table, a) {
            Some(v) => v,
            None => Seq::empty(),
        },
    }
}

/// The texts of the components, first to last.
pub open spec fn filled(p: Seq<PartView>, table: Seq<(String, String)>) -> Seq<char>
    decreases p.len(),
{
    if p.len() == 0 {
        Seq::empty()
    } else {
        filled_part(p[0], table) + filled(p.drop_first(), table)
    }
}

proof fn lemma_filled_last(p: Seq<PartView>, table: Seq<(String, String)>)
    requires
        p.len() > 0,
    ensures
        filled(p, table) == filled(p.drop_last(), table) + filled_part(p.last(), table),
    decreases p.len(),
{
    if p.len() == 1 {
        assert(p.drop_first() =~= Seq::<PartView>::empty());
        assert(p.drop_last() =~= Seq::<PartView>::empty());
        assert(filled(p.drop_first(), table) == Seq::<char>::empty());
        assert(filled_part(p[0], table) + Seq::<char>::empty() =~= filled_part(p[0], table));
        assert(filled(Seq::<PartView>::empty(), table) == Seq::<char>::empty());
        assert(Seq::<char>::empty() + filled_part(p.last(), table) =~= filled_part(p.last(), table));
    } else {
        let r = p.drop_first();
        lemma_filled_last(r, table);
        assert(r.drop_last() =~= p.drop_last().drop_first());
        assert(p.drop_last()[0] == p[0]);
        assert(r.last() == p.last());
        assert(filled(p, table) =~= filled(p.drop_last(), table) + filled_part(p.last(), table));
    }
}

/// When every placeholder has a non-empty value, rendering succeeds and
/// gives the components' texts one after the other: each literal as it
/// is, each placeholder replaced by its value.
pub proof fn law_render_fills_placeholders(p: Seq<PartView>, table: Seq<(String, String)>)
    requires
        forall|i: int| 0 <= i < p.len() ==> !crate::laws::lacks_value(#[trigger] p[i], table),
    ensures
        spec_render(p, table) == Some(filled(p, table)),
    decreases p.len(),
{
    if p.len() > 0 {
        let d = p.drop_last();
        assert forall|i: int| 0 <= i < d.len() implies !crate::laws::lacks_value(#[trigger] d[i], table) by {
            assert(d[i] == p[i]);
        }
        law_render_fills_placeholders(d, table);
        lemma_filled_last(p, table);
        assert(!crate::laws::lacks_value(p[p.len() - 1], table));
    }
}

} // verus!
