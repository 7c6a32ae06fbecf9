//! Spans (version 2), span name templates and their rendering.

use vstd::prelude::*;
use crate::deprecated::Deprecated;
use crate::entity_association::EntityAssociation;
use crate::signal_requirement_level::SignalRequirementLevel;
use crate::stability::Stability;
use crate::text::{str_chars, string_from_range, push_str, str_eq};
use crate::v2::attribute::AttributeRef;
use crate::v2::signal_id::SignalId;
use crate::v2::CommonFields;
use crate::yaml_value::Annotations;

verus! {

/// The kind of a span.
#[derive(Clone, Copy, Debug, PartialEq, Eq, Structural, Hash)]
pub enum SpanKindSpec {
    /// An internal span.
    Internal,
    /// A client span.
    Client,
    /// A server span.
    Server,
    /// A producer span.
    Producer,
    /// A consumer span.
    Consumer,
}

impl SpanKindSpec {
    /// The name of a span kind.
    pub open spec fn spec_name(self) -> Seq<char> {
        match self {
            SpanKindSpec::Internal => "internal"@,
            SpanKindSpec::Client => "client"@,
            SpanKindSpec::Server => "server"@,
            SpanKindSpec::Producer => "producer"@,
            SpanKindSpec::Consumer => "consumer"@,
        }
    }

    /// Returns the name of this span kind.
    pub fn to_string(&self) -> (s: String)
        ensures
            s@ == self.spec_name(),
    {
        match self {
            SpanKindSpec::Internal => String::from_str("internal"),
            SpanKindSpec::Client => String::from_str("client"),
            SpanKindSpec::Server => String::from_str("server"),
            SpanKindSpec::Producer => String::from_str("producer"),
            SpanKindSpec::Consumer => String::from_str("consumer"),
        }
    }
}

/// A reference to an attribute group from a span.
#[derive(Clone, Debug, PartialEq)]
pub struct SpanGroupRef {
    /// The id of the referenced group.
    pub ref_group: String,
}

/// A component of a span name template.
#[derive(Clone, Debug, PartialEq, Eq)]
pub enum TemplatePart {
    /// Literal text.
    Literal { value: String },
    /// A placeholder for the value of an attribute.
    Attribute { attribute: String },
}

/// The mathematical content of a template component.
pub ghost enum PartView {
    /// Literal text.
    Literal(Seq<char>),
    /// A placeholder for an attribute.
    Attribute(Seq<char>),
}

impl View for TemplatePart {
    type V = PartView;

    open spec fn view(&self) -> PartView {
        match self {
            TemplatePart::Literal { value } => PartView::Literal(value@),
            TemplatePart::Attribute { attribute } => PartView::Attribute(attribute@),
        }
    }
}

/// The views of template components.
pub open spec fn parts_view(s: Seq<TemplatePart>) -> Seq<PartView> {
    s.map_values(|p: TemplatePart| p@)
}

/// A parsed span name template.
#[derive(Clone, Debug, PartialEq, Eq)]
pub struct SpanNameTemplate {
    /// The pattern, e.g. `"{http.request.method} {url.template}"`.
    pub pattern: String,
    /// The attribute keys the template uses, each once, in order of first use.
    pub attributes: Vec<String>,
    /// The components of the template.
    pub parts: Vec<TemplatePart>,
}

/// Unicode white space, as `char::is_whitespace` defines it.
pub open spec fn is_white_space(c: char) -> bool {
    ('\u{9}' <= c && c <= '\u{d}') || c == ' ' || c == '\u{85}' || c == '\u{a0}' || c
        == '\u{1680}' || ('\u{2000}' <= c && c <= '\u{200a}') || c == '\u{2028}' || c
        == '\u{2029}' || c == '\u{202f}' || c == '\u{205f}' || c == '\u{3000}'
}

/// Whether a character is Unicode white space.
pub fn is_white_space_char(c: char) -> (r: bool)
    ensures
        r == is_white_space(c),
{
    ('\u{9}' <= c && c <= '\u{d}') || c == ' ' || c == '\u{85}' || c == '\u{a0}' || c
        == '\u{1680}' || ('\u{2000}' <= c && c <= '\u{200a}') || c == '\u{2028}' || c
        == '\u{2029}' || c == '\u{202f}' || c == '\u{205f}' || c == '\u{3000}'
}

/// Whether a character may appear in an attribute placeholder: ASCII letters
/// and digits, `.` and `_`.
pub open spec fn is_placeholder_char(c: char) -> bool {
    ('a' <= c && c <= 'z') || ('A' <= c && c <= 'Z') || ('0' <= c && c <= '9') || c == '.' || c
        == '_'
}

/// Whether a placeholder name is valid: not empty, made of allowed characters.
pub open spec fn is_valid_placeholder(a: Seq<char>) -> bool {
    a.len() > 0 && forall|i: int| 0 <= i < a.len() ==> is_placeholder_char(#[trigger] a[i])
}

/// Whether a character is a brace.
pub open spec fn is_brace(c: char) -> bool {
    c == '{' || c == '}'
}

/// The first position at or after `k` that holds a brace, or the length.
pub open spec fn next_brace(s: Seq<char>, k: int) -> int
    decreases s.len() - k,
{
    if k >= s.len() {
        s.len() as int
    } else if is_brace(s[k]) {
        k
    } else {
        next_brace(s, k + 1)
    }
}

/// `next_brace` lies between `k` and the length, and skips no brace.
pub proof fn lemma_next_brace(s: Seq<char>, k: int)
    requires
        0 <= k,
    ensures
        k <= s.len() ==> k <= next_brace(s, k) <= s.len(),
        k > s.len() ==> next_brace(s, k) == s.len(),
        forall|m: int| k <= m < next_brace(s, k) ==> !is_brace(#[trigger] s[m]),
        next_brace(s, k) < s.len() ==> is_brace(s[next_brace(s, k)]),
    decreases s.len() - k,
{
    if k < s.len() && !is_brace(s[k]) {
        lemma_next_brace(s, k + 1);
    }
}

/// Why a template pattern is rejected.
pub ghost enum ScanError {
    /// A `{` without a matching `}`.
    Unclosed,
    /// A `{` inside a placeholder.
    Nested,
    /// A placeholder with an invalid attribute name.
    Invalid(Seq<char>),
    /// A `}` outside a placeholder.
    Unmatched,
}

/// The components of the pattern from position `i` on: literal runs up to
/// the next brace, and placeholders `{name}`.
pub open spec fn scan_from(s: Seq<char>, i: int) -> Result<Seq<PartView>, ScanError>
    decreases s.len() - i,
{
    if i < 0 || i >= s.len() {
        Ok(Seq::empty())
    } else if s[i] == '{' {
        let j = next_brace(s, i + 1);
        proof {
            lemma_next_brace(s, i + 1);
        }
        if j >= s.len() {
            Err(ScanError::Unclosed)
        } else if s[j] == '{' {
            Err(ScanError::Nested)
        } else {
            let a = s.subrange(i + 1, j);
            if !is_valid_placeholder(a) {
                Err(ScanError::Invalid(a))
            } else {
                match scan_from(s, j + 1) {
                    Ok(rest) => Ok(seq![PartView::Attribute(a)] + rest),
                    Err(e) => Err(e),
                }
            }
        }
    } else if s[i] == '}' {
        Err(ScanError::Unmatched)
    } else {
        let j = next_brace(s, i);
        proof {
            lemma_next_brace(s, i);
            lemma_next_brace(s, i + 1);
        }
        if j <= i {
            Ok(Seq::empty())
        } else {
            match scan_from(s, j) {
                Ok(rest) => Ok(seq![PartView::Literal(s.subrange(i, j))] + rest),
                Err(e) => Err(e),
            }
        }
    }
}

/// The attribute names of the placeholders of a list of components.
pub open spec fn placeholder_names(parts: Seq<PartView>) -> Seq<Seq<char>>
    decreases parts.len(),
{
    if parts.len() == 0 {
        Seq::empty()
    } else {
        match parts.last() {
            PartView::Attribute(a) => placeholder_names(parts.drop_last()).push(a),
            PartView::Literal(_) => placeholder_names(parts.drop_last()),
        }
    }
}

/// The names of a sequence, each once, in order of first occurrence.
pub open spec fn dedup(s: Seq<Seq<char>>) -> Seq<Seq<char>>
    decreases s.len(),
{
    if s.len() == 0 {
        Seq::empty()
    } else {
        let d = dedup(s.drop_last());
        if d.contains(s.last()) {
            d
        } else {
            d.push(s.last())
        }
    }
}

/// The error message for a rejected pattern.
pub open spec fn scan_error_message(e: ScanError, pattern: Seq<char>) -> Seq<char> {
    match e {
        ScanError::Unclosed => "Unclosed '{' in template: `"@ + pattern + "`"@,
        ScanError::Nested => "Nested '{' in template: `"@ + pattern + "`"@,
        ScanError::Invalid(a) => "Invalid attribute placeholder `"@ + a + "` in template: `"@
            + pattern + "`"@,
        ScanError::Unmatched => "Unmatched '}' in template: `"@ + pattern + "`"@,
    }
}

/// Whether a pattern is made only of white space (or is empty).
pub open spec fn is_blank(s: Seq<char>) -> bool {
    forall|i: int| 0 <= i < s.len() ==> is_white_space(#[trigger] s[i])
}

/// The value of `key` in a lookup table of (key, value) pairs: the first
/// pair with that key wins.
pub open spec fn lookup(table: Seq<(String, String)>, key: Seq<char>) -> Option<Seq<char>>
    decreases table.len(),
{
    if table.len() == 0 {
        None
    } else if table[0].0@ == key {
        Some(table[0].1@)
    } else {
        lookup(table.drop_first(), key)
    }
}

/// The rendering of components with attribute values: `None` when a
/// placeholder has no value or an empty one.
pub open spec fn spec_render(parts: Seq<PartView>, table: Seq<(String, String)>) -> Option<
    Seq<char>,
>
    decreases parts.len(),
{
    if parts.len() == 0 {
        Some(Seq::empty())
    } else {
        match spec_render(parts.drop_last(), table) {
            None => None,
            Some(prefix) => match parts.last() {
                PartView::Literal(v) => Some(prefix + v),
                PartView::Attribute(a) => match lookup(table, a) {
                    Some(v) => if v.len() == 0 {
                        None
                    } else {
                        Some(prefix + v)
                    },
                    None => None,
                },
            },
        }
    }
}


/// A scan result with components put in front.
pub open spec fn prepend(p: Seq<PartView>, r: Result<Seq<PartView>, ScanError>) -> Result<
    Seq<PartView>,
    ScanError,
> {
    match r {
        Ok(x) => Ok(p + x),
        Err(e) => Err(e),
    }
}

/// The first position at or after `k` that holds a brace, or the length.
fn find_next_brace(cs: &[char], k: usize) -> (j: usize)
    requires
        k <= cs@.len(),
    ensures
        j == next_brace(cs@, k as int),
{
    let mut j = k;
    proof {
        lemma_next_brace(cs@, k as int);
    }
    while j < cs.len() && cs[j] != '{' && cs[j] != '}'
        invariant
            k <= j <= cs@.len(),
            next_brace(cs@, k as int) == next_brace(cs@, j as int),
        decreases cs@.len() - j,
    {
        j = j + 1;
    }
    j
}

/// Whether `cs[from..to]` is a valid placeholder name.
fn is_valid_placeholder_range(cs: &[char], from: usize, to: usize) -> (r: bool)
    requires
        from <= to <= cs@.len(),
    ensures
        r == is_valid_placeholder(cs@.subrange(from as int, to as int)),
{
    if from == to {
        return false;
    }
    let mut i = from;
    while i < to
        invariant
            from <= i <= to <= cs@.len(),
            forall|k: int| from <= k < i ==> is_placeholder_char(#[trigger] cs@[k]),
        decreases to - i,
    {
        let c = cs[i];
        if !(('a' <= c && c <= 'z') || ('A' <= c && c <= 'Z') || ('0' <= c && c <= '9') || c == '.'
            || c == '_') {
            assert(cs@.subrange(from as int, to as int)[i - from] == c);
            return false;
        }
        i = i + 1;
    }
    assert forall|k: int| 0 <= k < to - from implies is_placeholder_char(
        #[trigger] cs@.subrange(from as int, to as int)[k],
    ) by {
        assert(cs@.subrange(from as int, to as int)[k] == cs@[from + k]);
    }
    true
}

/// Whether every character is white space.
fn is_blank_chars(cs: &[char]) -> (r: bool)
    ensures
        r == is_blank(cs@),
{
    let mut i: usize = 0;
    while i < cs.len()
        invariant
            i <= cs@.len(),
            forall|k: int| 0 <= k < i ==> is_white_space(#[trigger] cs@[k]),
        decreases cs@.len() - i,
    {
        if !is_white_space_char(cs[i]) {
            return false;
        }
        i = i + 1;
    }
    true
}

/// The placeholder names of components followed by one more component.
pub proof fn lemma_placeholder_names_push(parts: Seq<PartView>, p: PartView)
    ensures
        placeholder_names(parts.push(p)) == match p {
            PartView::Attribute(a) => placeholder_names(parts).push(a),
            PartView::Literal(_) => placeholder_names(parts),
        },
{
    assert(parts.push(p).drop_last() =~= parts);
}

/// Adding a name to a deduplicated list.
pub proof fn lemma_dedup_push(s: Seq<Seq<char>>, a: Seq<char>)
    ensures
        dedup(s.push(a)) == if dedup(s).contains(a) {
            dedup(s)
        } else {
            dedup(s).push(a)
        },
{
    assert(s.push(a).drop_last() =~= s);
}

/// What parsing a pattern gives: its components and the attribute keys they
/// use (each once, in order of first use), or the error message.
pub open spec fn spec_parse(p: Seq<char>) -> Result<(Seq<PartView>, Seq<Seq<char>>), Seq<char>> {
    if is_blank(p) {
        Err(SpanNameTemplate::blank_message())
    } else {
        match scan_from(p, 0) {
            Err(e) => Err(scan_error_message(e, p)),
            Ok(ps) => Ok((ps, dedup(placeholder_names(ps)))),
        }
    }
}

/// What building a template from its record form gives: the pattern is
/// parsed, and the attribute keys and components, when given, must be
/// those of the pattern.
pub open spec fn spec_from_fields(
    pattern: Option<Seq<char>>,
    attributes: Option<Seq<Seq<char>>>,
    parts: Option<Seq<PartView>>,
) -> Result<(Seq<PartView>, Seq<Seq<char>>), Seq<char>> {
    match pattern {
        None => Err("missing field `pattern`"@),
        Some(p) => match spec_parse(p) {
            Err(m) => Err(m),
            Ok((ps, names)) => if attributes matches Some(a) && a != names {
                Err("provided 'attributes' does not match attributes extracted from 'pattern'"@)
            } else if parts matches Some(q) && q != ps {
                Err("provided 'parts' does not match parts extracted from 'pattern'"@)
            } else {
                Ok((ps, names))
            },
        },
    }
}

/// The text of an optional string.
pub open spec fn opt_string_view(s: Option<String>) -> Option<Seq<char>> {
    match s {
        Some(x) => Some(x@),
        None => None,
    }
}

/// The texts of an optional list of strings.
pub open spec fn opt_strings_view(s: Option<Vec<String>>) -> Option<Seq<Seq<char>>> {
    match s {
        Some(x) => Some(crate::text::string_views(x@)),
        None => None,
    }
}

/// The contents of an optional list of components.
pub open spec fn opt_parts_view(s: Option<Vec<TemplatePart>>) -> Option<Seq<PartView>> {
    match s {
        Some(x) => Some(parts_view(x@)),
        None => None,
    }
}

impl SpanNameTemplate {
    /// The text of the error for a blank pattern.
    pub open spec fn blank_message() -> Seq<char> {
        "Span name template pattern cannot be empty"@
    }

    /// Parses a template pattern. Placeholders are written `{attribute.key}`
    /// and the text outside braces is literal. A blank pattern, an unclosed
    /// or nested `{`, a stray `}` and an invalid attribute name are rejected.
    pub fn parse(pattern: &str) -> (r: Result<SpanNameTemplate, String>)
        ensures
            is_blank(pattern@) ==> (r matches Err(m) && m@ == Self::blank_message()),
            !is_blank(pattern@) ==> match scan_from(pattern@, 0) {
                Ok(parts) => r matches Ok(t) && t.pattern@ == pattern@ && parts_view(t.parts@)
                    == parts && crate::text::string_views(t.attributes@) == dedup(
                    placeholder_names(parts),
                ),
                Err(e) => r matches Err(m) && m@ == scan_error_message(e, pattern@),
            },
            match r {
                Ok(t) => t.pattern@ == pattern@ && spec_parse(pattern@) == Ok::<_, Seq<char>>(
                    (parts_view(t.parts@), crate::text::string_views(t.attributes@)),
                ),
                Err(m) => spec_parse(pattern@) == Err::<(Seq<PartView>, Seq<Seq<char>>), _>(m@),
            },
    {
        let cs = str_chars(pattern);
        if is_blank_chars(cs.as_slice()) {
            return Err(String::from_str("Span name template pattern cannot be empty"));
        }
        let n = cs.len();
        let mut parts: Vec<TemplatePart> = Vec::new();
        let mut attributes: Vec<String> = Vec::new();
        let mut i: usize = 0;
        assert(parts_view(parts@) =~= Seq::<PartView>::empty());
        assert(prepend(Seq::empty(), scan_from(cs@, 0)) =~= scan_from(cs@, 0)) by {
            match scan_from(cs@, 0) {
                Ok(x) => {
                    assert(Seq::<PartView>::empty() + x =~= x);
                },
                Err(_) => {},
            }
        }
        while i < n
            invariant
                n == cs@.len(),
                cs@ == pattern@,
                i <= n,
                scan_from(cs@, 0) == prepend(parts_view(parts@), scan_from(cs@, i as int)),
                crate::text::string_views(attributes@) == dedup(placeholder_names(parts_view(parts@))),
            decreases n - i,
        {
            let ghost before = parts_view(parts@);
            if cs[i] == '{' {
                let j = find_next_brace(cs.as_slice(), i + 1);
                proof {
                    lemma_next_brace(cs@, i + 1);
                }
                if j >= n {
                    let mut m = String::from_str("Unclosed '{' in template: `");
                    push_str(&mut m, pattern);
                    push_str(&mut m, "`");
                    return Err(m);
                }
                if cs[j] == '{' {
                    let mut m = String::from_str("Nested '{' in template: `");
                    push_str(&mut m, pattern);
                    push_str(&mut m, "`");
                    return Err(m);
                }
                let attr = string_from_range(cs.as_slice(), i + 1, j);
                if !is_valid_placeholder_range(cs.as_slice(), i + 1, j) {
                    let mut m = String::from_str("Invalid attribute placeholder `");
                    push_str(&mut m, attr.as_str());
                    push_str(&mut m, "` in template: `");
                    push_str(&mut m, pattern);
                    push_str(&mut m, "`");
                    return Err(m);
                }
                let known = crate::text::contains_str(&attributes, attr.as_str());
                if !known {
                    attributes.push(attr.clone());
                }
                let ghost a = attr@;
                parts.push(TemplatePart::Attribute { attribute: attr });
                proof {
                    assert(parts_view(parts@) =~= before.push(PartView::Attribute(a)));
                    lemma_placeholder_names_push(before, PartView::Attribute(a));
                    lemma_dedup_push(placeholder_names(before), a);
                    assert(crate::text::string_views(attributes@) =~= dedup(
                        placeholder_names(parts_view(parts@)),
                    ));
                    match scan_from(cs@, j + 1) {
                        Ok(x) => {
                            assert(before + (seq![PartView::Attribute(a)] + x) =~= before.push(
                                PartView::Attribute(a),
                            ) + x);
                        },
                        Err(_) => {},
                    }
                }
                i = j + 1;
            } else if cs[i] == '}' {
                let mut m = String::from_str("Unmatched '}' in template: `");
                push_str(&mut m, pattern);
                push_str(&mut m, "`");
                return Err(m);
            } else {
                let j = find_next_brace(cs.as_slice(), i);
                proof {
                    lemma_next_brace(cs@, i as int);
                    lemma_next_brace(cs@, i + 1);
                }
                let lit = string_from_range(cs.as_slice(), i, j);
                let ghost l = lit@;
                parts.push(TemplatePart::Literal { value: lit });
                proof {
                    assert(parts_view(parts@) =~= before.push(PartView::Literal(l)));
                    lemma_placeholder_names_push(before, PartView::Literal(l));
                    match scan_from(cs@, j as int) {
                        Ok(x) => {
                            assert(before + (seq![PartView::Literal(l)] + x) =~= before.push(
                                PartView::Literal(l),
                            ) + x);
                        },
                        Err(_) => {},
                    }
                }
                i = j;
            }
        }
        proof {
            assert(parts_view(parts@) + Seq::<PartView>::empty() =~= parts_view(parts@));
        }
        Ok(SpanNameTemplate { pattern: String::from_str(pattern), attributes, parts })
    }

    /// The text of the template: its pattern.
    pub fn to_string(&self) -> (s: String)
        ensures
            s@ == self.pattern@,
    {
        self.pattern.clone()
    }

    /// Builds a template from the fields of its record form: the pattern
    /// (required), and optionally the attribute keys and the components,
    /// which must be those that parsing the pattern gives.
    pub fn from_fields(
        pattern: Option<String>,
        attributes: Option<Vec<String>>,
        parts: Option<Vec<TemplatePart>>,
    ) -> (r: Result<SpanNameTemplate, String>)
        ensures
            match pattern {
                None => r matches Err(m) && m@ == "missing field `pattern`"@,
                Some(p) => if is_blank(p@) {
                    r matches Err(m) && m@ == Self::blank_message()
                } else {
                    match scan_from(p@, 0) {
                        Err(e) => r matches Err(m) && m@ == scan_error_message(e, p@),
                        Ok(ps) => if attributes matches Some(a) && crate::text::string_views(a@)
                            != dedup(placeholder_names(ps)) {
                            r matches Err(m) && m@
                                == "provided 'attributes' does not match attributes extracted from 'pattern'"@
                        } else if parts matches Some(q) && parts_view(q@) != ps {
                            r matches Err(m) && m@
                                == "provided 'parts' does not match parts extracted from 'pattern'"@
                        } else {
                            r matches Ok(t) && t.pattern@ == p@ && parts_view(t.parts@) == ps
                                && crate::text::string_views(t.attributes@) == dedup(
                                placeholder_names(ps),
                            )
                        },
                    }
                },
            },
            match r {
                Ok(t) => spec_from_fields(
                    opt_string_view(pattern),
                    opt_strings_view(attributes),
                    opt_parts_view(parts),
                ) == Ok::<_, Seq<char>>((parts_view(t.parts@), crate::text::string_views(t.attributes@))),
                Err(m) => spec_from_fields(
                    opt_string_view(pattern),
                    opt_strings_view(attributes),
                    opt_parts_view(parts),
                ) == Err::<(Seq<PartView>, Seq<Seq<char>>), _>(m@),
            },
    {
        let pattern = match pattern {
            Some(p) => p,
            None => {
                return Err(String::from_str("missing field `pattern`"));
            },
        };
        let parsed = match SpanNameTemplate::parse(pattern.as_str()) {
            Ok(t) => t,
            Err(e) => {
                return Err(e);
            },
        };
        if let Some(a) = &attributes {
            if !strings_equal(a, &parsed.attributes) {
                return Err(
                    String::from_str(
                        "provided 'attributes' does not match attributes extracted from 'pattern'",
                    ),
                );
            }
        }
        if let Some(q) = &parts {
            if !parts_equal(q, &parsed.parts) {
                return Err(
                    String::from_str("provided 'parts' does not match parts extracted from 'pattern'"),
                );
            }
        }
        Ok(parsed)
    }

    /// Renders the template with attribute values taken from `values`, a
    /// table of (attribute key, value) pairs in which the first pair with a
    /// key wins. Returns `None` when an attribute of the template has no
    /// value or an empty one.
    pub fn render(&self, values: &Vec<(String, String)>) -> (r: Option<String>)
        ensures
            match spec_render(parts_view(self.parts@), values@) {
                Some(s) => r matches Some(x) && x@ == s,
                None => r is None,
            },
    {
        let mut result = String::new();
        let mut i: usize = 0;
        assert(parts_view(self.parts@).subrange(0, 0) =~= Seq::<PartView>::empty());
        while i < self.parts.len()
            invariant
                i <= self.parts@.len(),
                spec_render(parts_view(self.parts@).subrange(0, i as int), values@) == Some(
                    result@,
                ),
            decreases self.parts@.len() - i,
        {
            proof {
                assert(parts_view(self.parts@).subrange(0, i + 1).drop_last() =~= parts_view(
                    self.parts@,
                ).subrange(0, i as int));
                assert(parts_view(self.parts@).subrange(0, i + 1).last() == self.parts@[i as int]@);
            }
            match &self.parts[i] {
                TemplatePart::Literal { value } => {
                    push_str(&mut result, value.as_str());
                },
                TemplatePart::Attribute { attribute } => {
                    match lookup_value(values, attribute.as_str()) {
                        Some(v) => {
                            if v.unicode_len() == 0 {
                                proof {
                                    lemma_render_none_extends(
                                        parts_view(self.parts@),
                                        values@,
                                        i as int + 1,
                                    );
                                }
                                return None;
                            }
                            push_str(&mut result, v);
                        },
                        None => {
                            proof {
                                lemma_render_none_extends(
                                    parts_view(self.parts@),
                                    values@,
                                    i as int + 1,
                                );
                            }
                            return None;
                        },
                    }
                },
            }
            i = i + 1;
        }
        assert(parts_view(self.parts@).subrange(0, self.parts@.len() as int) =~= parts_view(
            self.parts@,
        ));
        Some(result)
    }
}

/// Once rendering a prefix fails, rendering any longer prefix fails.
pub proof fn lemma_render_none_extends(parts: Seq<PartView>, table: Seq<(String, String)>, k: int)
    requires
        0 <= k <= parts.len(),
        spec_render(parts.subrange(0, k), table) is None,
    ensures
        spec_render(parts, table) is None,
    decreases parts.len() - k,
{
    if k < parts.len() {
        assert(parts.subrange(0, k + 1).drop_last() =~= parts.subrange(0, k));
        lemma_render_none_extends(parts, table, k + 1);
    } else {
        assert(parts.subrange(0, k) =~= parts);
    }
}

/// The rendering of components from the values given for their
/// placeholders, in order: the value of the `n`-th placeholder is `vals[n]`;
/// `None` when one of them is missing, absent or empty.
pub open spec fn render_vals(parts: Seq<PartView>, vals: Seq<Option<Seq<char>>>) -> Option<Seq<char>>
    decreases parts.len(),
{
    if parts.len() == 0 {
        Some(Seq::empty())
    } else {
        let n = placeholder_names(parts.drop_last()).len();
        match render_vals(parts.drop_last(), vals) {
            None => None,
            Some(prefix) => match parts.last() {
                PartView::Literal(v) => Some(prefix + v),
                PartView::Attribute(_) => if n < vals.len() && is_usable(vals[n as int]) {
                    Some(prefix + vals[n as int]->0)
                } else {
                    None
                },
            },
        }
    }
}

/// A value found: present and not empty.
pub open spec fn is_usable(v: Option<Seq<char>>) -> bool {
    v matches Some(x) && x.len() > 0
}

/// The text of an optional string slice.
pub open spec fn opt_text(v: Option<&str>) -> Option<Seq<char>> {
    match v {
        Some(x) => Some(x@),
        None => None,
    }
}

/// `v` is a value that `get_attr` may give for the attribute `name`.
pub open spec fn answers<'a, F: Fn(&str) -> Option<&'a str>>(
    get_attr: F,
    name: Seq<char>,
    v: Option<Seq<char>>,
) -> bool {
    exists|a: &str, out: Option<&'a str>|
        a@ == name && #[trigger] call_ensures(get_attr, (a,), out) && opt_text(out) == v
}

/// `o` is what rendering `t` may give with the values of `get_attr`: the
/// values are asked for in the order of the placeholders and no further than
/// the first that is missing or empty, and the rendering is made of them.
pub open spec fn renders_with<'a, F: Fn(&str) -> Option<&'a str>>(
    t: SpanNameTemplate,
    get_attr: F,
    o: Option<Seq<char>>,
) -> bool {
    exists|vals: Seq<Option<Seq<char>>>|
        #![trigger render_vals(parts_view(t.parts@), vals)]
        vals.len() <= placeholder_names(parts_view(t.parts@)).len()
        && (forall|j: int|
            0 <= j < vals.len() ==> answers(
                get_attr,
                placeholder_names(parts_view(t.parts@))[j],
                #[trigger] vals[j],
            ))
        && (forall|j: int| 0 <= j < vals.len() - 1 ==> is_usable(#[trigger] vals[j]))
        && (vals.len() < placeholder_names(parts_view(t.parts@)).len() ==> vals.len() > 0
            && !is_usable(vals.last()))
        && o == render_vals(parts_view(t.parts@), vals)
}

/// Rendering with more values than the placeholders use gives the same.
pub proof fn lemma_render_vals_extend(parts: Seq<PartView>, vals: Seq<Option<Seq<char>>>, v: Option<Seq<char>>)
    requires
        placeholder_names(parts).len() <= vals.len(),
    ensures
        render_vals(parts, vals.push(v)) == render_vals(parts, vals),
    decreases parts.len(),
{
    if parts.len() > 0 {
        lemma_placeholder_names_grow(parts);
        lemma_render_vals_extend(parts.drop_last(), vals, v);
    }
}

/// The placeholders of a prefix are no more than those of the whole.
proof fn lemma_placeholder_names_grow(parts: Seq<PartView>)
    requires
        parts.len() > 0,
    ensures
        placeholder_names(parts.drop_last()).len() <= placeholder_names(parts).len(),
{
}

/// Once rendering a prefix fails, rendering any longer prefix fails.
proof fn lemma_render_vals_none_extends(parts: Seq<PartView>, vals: Seq<Option<Seq<char>>>, k: int)
    requires
        0 <= k <= parts.len(),
        render_vals(parts.subrange(0, k), vals) is None,
    ensures
        render_vals(parts, vals) is None,
    decreases parts.len() - k,
{
    if k < parts.len() {
        assert(parts.subrange(0, k + 1).drop_last() =~= parts.subrange(0, k));
        lemma_render_vals_none_extends(parts, vals, k + 1);
    } else {
        assert(parts.subrange(0, k) =~= parts);
    }
}

impl SpanNameTemplate {
    /// Renders the template with the values that `get_attr` gives for the
    /// attributes, asked in the order of the placeholders and no further
    /// than the first that is missing or empty (a template without
    /// placeholders asks nothing). Gives `None` when one is missing or
    /// empty.
    pub fn render_with<'a, F>(&self, get_attr: &F) -> (r: Option<String>)
        where
            F: Fn(&str) -> Option<&'a str>,
        requires
            forall|a: &str| #[trigger] call_requires(*get_attr, (a,)),
        ensures
            renders_with(*self, *get_attr, opt_text_of(r)),
    {
        let ghost pv = parts_view(self.parts@);
        let ghost mut vals: Seq<Option<Seq<char>>> = Seq::empty();
        let mut result = String::new();
        let mut i: usize = 0;
        assert(pv.subrange(0, 0) =~= Seq::<PartView>::empty());
        while i < self.parts.len()
            invariant
                i <= self.parts@.len(),
                pv == parts_view(self.parts@),
                forall|a: &str| #[trigger] call_requires(*get_attr, (a,)),
                vals.len() == placeholder_names(pv.subrange(0, i as int)).len(),
                forall|j: int|
                    0 <= j < vals.len() ==> answers(
                        *get_attr,
                        placeholder_names(pv.subrange(0, i as int))[j],
                        #[trigger] vals[j],
                    ),
                forall|j: int| 0 <= j < vals.len() ==> is_usable(#[trigger] vals[j]),
                render_vals(pv.subrange(0, i as int), vals) == Some(result@),
            decreases self.parts@.len() - i,
        {
            let ghost sub = pv.subrange(0, i as int);
            let ghost next = pv.subrange(0, i + 1);
            proof {
                assert(next.drop_last() =~= sub);
                assert(next.last() == self.parts@[i as int]@);
            }
            match &self.parts[i] {
                TemplatePart::Literal { value } => {
                    push_str(&mut result, value.as_str());
                },
                TemplatePart::Attribute { attribute } => {
                    let a = attribute.as_str();
                    let val = get_attr(a);
                    let ghost v = opt_text(val);
                    proof {
                        assert(answers(*get_attr, attribute@, v));
                        assert(placeholder_names(next) == placeholder_names(sub).push(attribute@));
                        assert forall|j: int| 0 <= j < vals.push(v).len() implies answers(
                            *get_attr,
                            placeholder_names(next)[j],
                            #[trigger] vals.push(v)[j],
                        ) by {
                            if j < vals.len() {
                                assert(vals.push(v)[j] == vals[j]);
                            }
                        }
                        lemma_render_vals_extend(sub, vals, v);
                        vals = vals.push(v);
                    }
                    match val {
                        Some(x) => {
                            if x.unicode_len() == 0 {
                                proof {
                                    lemma_render_vals_none_extends(pv, vals, i as int + 1);
                                    lemma_placeholder_names_prefix(pv, i as int + 1);
                                }
                                return None;
                            }
                            push_str(&mut result, x);
                        },
                        None => {
                            proof {
                                lemma_render_vals_none_extends(pv, vals, i as int + 1);
                                lemma_placeholder_names_prefix(pv, i as int + 1);
                            }
                            return None;
                        },
                    }
                },
            }
            i = i + 1;
        }
        assert(pv.subrange(0, self.parts@.len() as int) =~= pv);
        Some(result)
    }
}

impl SpanName {
    /// The first rendering, in order, of the templates with the values that
    /// `get_attr` gives: each template before it failed to render.
    pub fn evaluate_with<'a, F>(&self, get_attr: &F) -> (r: Option<String>)
        where
            F: Fn(&str) -> Option<&'a str>,
        requires
            forall|a: &str| #[trigger] call_requires(*get_attr, (a,)),
        ensures
            match r {
                Some(s) => exists|k: int|
                    0 <= k < self.templates@.len() && #[trigger] renders_with(
                        self.templates@[k],
                        *get_attr,
                        Some(s@),
                    ) && forall|j: int|
                        0 <= j < k ==> renders_with(#[trigger] self.templates@[j], *get_attr, None),
                None => forall|j: int|
                    0 <= j < self.templates@.len() ==> renders_with(
                        #[trigger] self.templates@[j],
                        *get_attr,
                        None,
                    ),
            },
    {
        let mut i: usize = 0;
        while i < self.templates.len()
            invariant
                i <= self.templates@.len(),
                forall|a: &str| #[trigger] call_requires(*get_attr, (a,)),
                forall|j: int| 0 <= j < i ==> renders_with(#[trigger] self.templates@[j], *get_attr, None),
            decreases self.templates@.len() - i,
        {
            match self.templates[i].render_with(get_attr) {
                Some(rendered) => {
                    assert(renders_with(self.templates@[i as int], *get_attr, Some(rendered@)));
                    return Some(rendered);
                },
                None => {},
            }
            i = i + 1;
        }
        None
    }

    /// The first rendering of the templates with the values that
    /// `get_attr` gives, or `default_name` when none renders.
    pub fn evaluate_with_or_default<'a, F>(&self, default_name: &str, get_attr: &F) -> (r: String)
        where
            F: Fn(&str) -> Option<&'a str>,
        requires
            forall|a: &str| #[trigger] call_requires(*get_attr, (a,)),
        ensures
            (exists|k: int|
                0 <= k < self.templates@.len() && #[trigger] renders_with(
                    self.templates@[k],
                    *get_attr,
                    Some(r@),
                ) && forall|j: int|
                    0 <= j < k ==> renders_with(#[trigger] self.templates@[j], *get_attr, None))
                || (r@ == default_name@ && forall|j: int|
                0 <= j < self.templates@.len() ==> renders_with(
                    #[trigger] self.templates@[j],
                    *get_attr,
                    None,
                )),
    {
        match self.evaluate_with(get_attr) {
            Some(s) => s,
            None => String::from_str(default_name),
        }
    }
}

/// The placeholders of a prefix of the components are a prefix of the
/// placeholders of all of them.
proof fn lemma_placeholder_names_prefix(parts: Seq<PartView>, k: int)
    requires
        0 <= k <= parts.len(),
    ensures
        placeholder_names(parts.subrange(0, k)).len() <= placeholder_names(parts).len(),
        forall|j: int|
            0 <= j < placeholder_names(parts.subrange(0, k)).len() ==> #[trigger] placeholder_names(
                parts.subrange(0, k),
            )[j] == placeholder_names(parts)[j],
    decreases parts.len() - k,
{
    if k < parts.len() {
        let a = parts.subrange(0, k);
        let b = parts.subrange(0, k + 1);
        assert(b.drop_last() =~= a);
        lemma_placeholder_names_prefix(parts, k + 1);
        assert forall|j: int| 0 <= j < placeholder_names(a).len() implies #[trigger] placeholder_names(
            a,
        )[j] == placeholder_names(parts)[j] by {
            assert(placeholder_names(b)[j] == placeholder_names(a)[j]);
            assert(placeholder_names(b)[j] == placeholder_names(parts)[j]);
        }
    } else {
        assert(parts.subrange(0, k) =~= parts);
    }
}

/// The text of an optional string.
pub open spec fn opt_text_of(v: Option<String>) -> Option<Seq<char>> {
    match v {
        Some(x) => Some(x@),
        None => None,
    }
}

/// The value of `key` in a lookup table, first pair wins.
fn lookup_value<'a>(values: &'a Vec<(String, String)>, key: &str) -> (r: Option<&'a str>)
    ensures
        match lookup(values@, key@) {
            Some(v) => r matches Some(x) && x@ == v,
            None => r is None,
        },
{
    let mut i: usize = 0;
    assert(values@.subrange(0, values@.len() as int) =~= values@);
    while i < values.len()
        invariant
            i <= values@.len(),
            lookup(values@, key@) == lookup(values@.subrange(i as int, values@.len() as int), key@),
        decreases values@.len() - i,
    {
        let ghost rest = values@.subrange(i as int, values@.len() as int);
        assert(rest.drop_first() =~= values@.subrange(i + 1, values@.len() as int));
        assert(rest[0] == values@[i as int]);
        if str_eq(values[i].0.as_str(), key) {
            return Some(values[i].1.as_str());
        }
        i = i + 1;
    }
    assert(values@.subrange(i as int, values@.len() as int).len() == 0);
    None
}

/// How the name of a span is built.
#[derive(Clone, Debug, PartialEq, Eq)]
pub struct SpanName {
    /// The templates tried in order.
    pub templates: Vec<SpanNameTemplate>,
    /// A description of how the span name is built.
    pub note: Option<String>,
}

/// The rendering of the first template that renders, if any.
pub open spec fn spec_evaluate(templates: Seq<SpanNameTemplate>, table: Seq<(String, String)>) -> Option<
    Seq<char>,
>
    decreases templates.len(),
{
    if templates.len() == 0 {
        None
    } else {
        match spec_render(parts_view(templates[0].parts@), table) {
            Some(s) => Some(s),
            None => spec_evaluate(templates.drop_first(), table),
        }
    }
}

impl Default for SpanName {
    /// No template and no note.
    fn default() -> (r: Self)
        ensures
            r.templates@.len() == 0,
            r.note is None,
    {
        SpanName { templates: Vec::new(), note: None }
    }
}

impl SpanName {
    /// Evaluates the span name with the attribute values of `values` (first
    /// pair with a key wins): the rendering of the first template that
    /// renders, or `None`.
    pub fn evaluate(&self, values: &Vec<(String, String)>) -> (r: Option<String>)
        ensures
            match spec_evaluate(self.templates@, values@) {
                Some(s) => r matches Some(x) && x@ == s,
                None => r is None,
            },
    {
        let mut i: usize = 0;
        assert(self.templates@.subrange(0, self.templates@.len() as int) =~= self.templates@);
        while i < self.templates.len()
            invariant
                i <= self.templates@.len(),
                spec_evaluate(self.templates@, values@) == spec_evaluate(
                    self.templates@.subrange(i as int, self.templates@.len() as int),
                    values@,
                ),
            decreases self.templates@.len() - i,
        {
            let ghost rest = self.templates@.subrange(i as int, self.templates@.len() as int);
            assert(rest.drop_first() =~= self.templates@.subrange(i + 1, self.templates@.len() as int));
            assert(rest[0] == self.templates@[i as int]);
            match self.templates[i].render(values) {
                Some(rendered) => {
                    return Some(rendered);
                },
                None => {},
            }
            i = i + 1;
        }
        assert(self.templates@.subrange(i as int, self.templates@.len() as int).len() == 0);
        None
    }

    /// Evaluates the span name, falling back to `default_name` when no
    /// template renders.
    pub fn evaluate_or_default(&self, default_name: &str, values: &Vec<(String, String)>) -> (r:
        String)
        ensures
            r@ == match spec_evaluate(self.templates@, values@) {
                Some(s) => s,
                None => default_name@,
            },
    {
        match self.evaluate(values) {
            Some(s) => s,
            None => String::from_str(default_name),
        }
    }
}

/// A reference to an attribute from a span.
#[derive(Clone, Debug, PartialEq)]
pub struct SpanAttributeRef {
    /// The attribute reference.
    pub base: AttributeRef,
    /// Whether the attribute is relevant for sampling.
    pub sampling_relevant: Option<bool>,
}

/// A reference to a span attribute or to an attribute group.
#[derive(Clone, Debug, PartialEq)]
pub enum SpanAttributeOrGroupRef {
    /// A reference to an attribute.
    Attribute(SpanAttributeRef),
    /// A reference to a group.
    Group(SpanGroupRef),
}

/// The attribute references of a list, in order.
pub open spec fn spec_span_attribute_refs(s: Seq<SpanAttributeOrGroupRef>) -> Seq<SpanAttributeRef>
    decreases s.len(),
{
    if s.len() == 0 {
        Seq::empty()
    } else {
        match s.last() {
            SpanAttributeOrGroupRef::Attribute(a) => spec_span_attribute_refs(s.drop_last()).push(a),
            SpanAttributeOrGroupRef::Group(_) => spec_span_attribute_refs(s.drop_last()),
        }
    }
}

/// The group ids of a list, in order.
pub open spec fn spec_span_group_refs(s: Seq<SpanAttributeOrGroupRef>) -> Seq<String>
    decreases s.len(),
{
    if s.len() == 0 {
        Seq::empty()
    } else {
        match s.last() {
            SpanAttributeOrGroupRef::Attribute(_) => spec_span_group_refs(s.drop_last()),
            SpanAttributeOrGroupRef::Group(g) => spec_span_group_refs(s.drop_last()).push(
                g.ref_group,
            ),
        }
    }
}

/// Splits span references into attribute references and group ids, each in
/// their original order.
pub fn split_span_attributes_and_groups(attributes: Vec<SpanAttributeOrGroupRef>) -> (r: (
    Vec<SpanAttributeRef>,
    Vec<String>,
))
    ensures
        r.0@ == spec_span_attribute_refs(attributes@),
        r.1@ == spec_span_group_refs(attributes@),
{
    let mut attribute_refs: Vec<SpanAttributeRef> = Vec::new();
    let mut groups: Vec<String> = Vec::new();
    let ghost all = attributes@;
    let mut rest = crate::vec_util::into_reversed(attributes);
    proof {
        assert(all.subrange(0, 0) =~= Seq::<SpanAttributeOrGroupRef>::empty());
        assert(all.subrange(0, all.len() as int) =~= all);
    }
    while rest.len() > 0
        invariant
            rest@.len() <= all.len(),
            rest@ == all.subrange(all.len() - rest@.len(), all.len() as int).reverse(),
            attribute_refs@ == spec_span_attribute_refs(all.subrange(0, all.len() - rest@.len())),
            groups@ == spec_span_group_refs(all.subrange(0, all.len() - rest@.len())),
        decreases rest.len(),
    {
        let ghost k = all.len() - rest@.len();
        proof {
            crate::vec_util::lemma_reversed_suffix_pop(all, k);
            assert(all.subrange(0, k + 1).drop_last() =~= all.subrange(0, k));
        }
        let item = rest.pop().unwrap();
        match item {
            SpanAttributeOrGroupRef::Attribute(a) => attribute_refs.push(a),
            SpanAttributeOrGroupRef::Group(g) => groups.push(g.ref_group),
        }
    }
    assert(all.subrange(0, all.len() as int) =~= all);
    (attribute_refs, groups)
}

/// A span signal.
#[derive(Debug, PartialEq)]
pub struct Span {
    /// The type of the span, unique among spans.
    pub type_: SignalId,
    /// The kind of the span.
    pub kind: SpanKindSpec,
    /// How the name of the span is built.
    pub name: SpanName,
    /// The attributes and attribute groups of the span.
    pub attributes: Vec<SpanAttributeOrGroupRef>,
    /// The entities the span is associated with.
    pub entity_associations: Vec<EntityAssociation>,
    /// The requirement level of the span.
    pub requirement_level: Option<SignalRequirementLevel>,
    /// Brief, note, stability, deprecation and annotations.
    pub common: CommonFields,
}

/// A refinement of an existing span.
#[derive(Debug, PartialEq)]
pub struct SpanRefinement {
    /// The id of the refinement.
    pub id: SignalId,
    /// The type of the refined span.
    pub ref_: SignalId,
    /// Replaces the name of the refined span, when set.
    pub name: Option<SpanName>,
    /// The attributes and attribute groups.
    pub attributes: Vec<SpanAttributeOrGroupRef>,
    /// The entities the span is associated with.
    pub entity_associations: Vec<EntityAssociation>,
    /// Refines the brief description.
    pub brief: Option<String>,
    /// Refines the note.
    pub note: Option<String>,
    /// Refines the stability.
    pub stability: Option<Stability>,
    /// The deprecation.
    pub deprecated: Option<Deprecated>,
    /// Annotations.
    pub annotations: Annotations,
}
/// Whether two lists of texts are equal.
fn strings_equal(a: &Vec<String>, b: &Vec<String>) -> (r: bool)
    ensures
        r == (crate::text::string_views(a@) == crate::text::string_views(b@)),
{
    if a.len() != b.len() {
        proof {
            assert(crate::text::string_views(a@).len() != crate::text::string_views(b@).len());
        }
        return false;
    }
    let mut i: usize = 0;
    while i < a.len()
        invariant
            a@.len() == b@.len(),
            i <= a@.len(),
            forall|j: int| 0 <= j < i ==> a@[j]@ == b@[j]@,
        decreases a@.len() - i,
    {
        if !str_eq(a[i].as_str(), b[i].as_str()) {
            proof {
                assert(crate::text::string_views(a@)[i as int] != crate::text::string_views(b@)[i as int]);
            }
            return false;
        }
        i = i + 1;
    }
    assert(crate::text::string_views(a@) =~= crate::text::string_views(b@));
    true
}

/// Whether two template components are equal.
fn part_equal(a: &TemplatePart, b: &TemplatePart) -> (r: bool)
    ensures
        r == (a@ == b@),
{
    match (a, b) {
        (TemplatePart::Literal { value: x }, TemplatePart::Literal { value: y }) => str_eq(x.as_str(), y.as_str()),
        (TemplatePart::Attribute { attribute: x }, TemplatePart::Attribute { attribute: y }) => str_eq(
            x.as_str(),
            y.as_str(),
        ),
        _ => false,
    }
}

/// Whether two lists of template components are equal.
fn parts_equal(a: &Vec<TemplatePart>, b: &Vec<TemplatePart>) -> (r: bool)
    ensures
        r == (parts_view(a@) == parts_view(b@)),
{
    if a.len() != b.len() {
        proof {
            assert(parts_view(a@).len() != parts_view(b@).len());
        }
        return false;
    }
    let mut i: usize = 0;
    while i < a.len()
        invariant
            a@.len() == b@.len(),
            i <= a@.len(),
            forall|j: int| 0 <= j < i ==> a@[j]@ == b@[j]@,
        decreases a@.len() - i,
    {
        if !part_equal(&a[i], &b[i]) {
            proof {
                assert(parts_view(a@)[i as int] != parts_view(b@)[i as int]);
            }
            return false;
        }
        i = i + 1;
    }
    assert(parts_view(a@) =~= parts_view(b@));
    true
}

} // verus!
