//! Schema URLs, which identify a semantic convention registry and its
//! version: `http[s]://server[:port]/path/<version>`.

use vstd::prelude::*;
use crate::text::{starts_with_chars, str_chars, string_from_range, string_views, to_owned_string};
use crate::v2::span::{is_white_space, is_white_space_char};

verus! {

/// What `url::Url::parse` gives for a text, as this library reads it: on
/// success the path segments (`None` for a URL that cannot be a base), the
/// path, the host and the port; on failure the error's message.
pub uninterp spec fn url_parse(s: Seq<char>) -> Result<
    (Option<Seq<Seq<char>>>, Seq<char>, Option<Seq<char>>, Option<u16>),
    Seq<char>,
>;

/// The parts of a parsed URL that the registry naming reads.
pub struct UrlParts {
    /// The `/`-separated path segments, absent for a URL that cannot be a base.
    pub segments: Option<Vec<String>>,
    /// The path.
    pub path: String,
    /// The host.
    pub host: Option<String>,
    /// The explicit port.
    pub port: Option<u16>,
}

/// The text of an optional string.
pub open spec fn opt_view(s: Option<String>) -> Option<Seq<char>> {
    match s {
        Some(x) => Some(x@),
        None => None,
    }
}

impl UrlParts {
    /// The parts as plain values.
    pub open spec fn parts(self) -> (Option<Seq<Seq<char>>>, Seq<char>, Option<Seq<char>>, Option<u16>) {
        (
            match self.segments {
                Some(v) => Some(string_views(v@)),
                None => None,
            },
            self.path@,
            opt_view(self.host),
            self.port,
        )
    }
}

/// Parses a URL with `url::Url::parse` and reads its path segments
/// (`Url::path_segments`), path (`Url::path`), host (`Url::host_str`) and
/// port (`Url::port`); on failure, the error's display text.
#[verifier::external_body]
fn parse_url(s: &str) -> (r: Result<UrlParts, String>)
    ensures
        match r {
            Ok(p) => url_parse(s@) == Ok::<_, Seq<char>>(p.parts()),
            Err(e) => url_parse(s@) == Err::<
                (Option<Seq<Seq<char>>>, Seq<char>, Option<Seq<char>>, Option<u16>),
                Seq<char>,
            >(e@),
        },
{
    match url::Url::parse(s) {
        Ok(u) => Ok(
            UrlParts {
                segments: u.path_segments().map(|it| it.map(|x| x.to_owned()).collect()),
                path: u.path().to_owned(),
                host: u.host_str().map(|h| h.to_owned()),
                port: u.port(),
            },
        ),
        Err(e) => Err(e.to_string()),
    }
}

/// `s` without its leading `/` characters.
pub open spec fn strip_leading_slashes(s: Seq<char>) -> Seq<char>
    decreases s.len(),
{
    if s.len() > 0 && s[0] == '/' {
        strip_leading_slashes(s.drop_first())
    } else {
        s
    }
}

/// `s` without its trailing `/` characters.
pub open spec fn strip_trailing_slashes(s: Seq<char>) -> Seq<char>
    decreases s.len(),
{
    if s.len() > 0 && s.last() == '/' {
        strip_trailing_slashes(s.drop_last())
    } else {
        s
    }
}

/// `s` without its leading and trailing `/` characters.
pub open spec fn trim_slashes(s: Seq<char>) -> Seq<char> {
    strip_trailing_slashes(strip_leading_slashes(s))
}

/// The position of the last `/` in `s`, or -1.
pub open spec fn last_slash(s: Seq<char>) -> int
    decreases s.len(),
{
    if s.len() == 0 {
        -1
    } else if s.last() == '/' {
        s.len() - 1
    } else {
        last_slash(s.drop_last())
    }
}

/// The decimal digit of `d`.
pub open spec fn digit_char(d: nat) -> char {
    if d == 0 {
        '0'
    } else if d == 1 {
        '1'
    } else if d == 2 {
        '2'
    } else if d == 3 {
        '3'
    } else if d == 4 {
        '4'
    } else if d == 5 {
        '5'
    } else if d == 6 {
        '6'
    } else if d == 7 {
        '7'
    } else if d == 8 {
        '8'
    } else {
        '9'
    }
}

/// The decimal form of `n`.
pub open spec fn decimal(n: nat) -> Seq<char>
    decreases n,
{
    if n < 10 {
        seq![digit_char(n)]
    } else {
        decimal(n / 10).push(digit_char(n % 10))
    }
}

/// The authority of a URL: the host, followed by `:` and the port when there
/// is one; empty without a host.
pub open spec fn spec_authority(host: Option<Seq<char>>, port: Option<u16>) -> Seq<char> {
    match host {
        Some(h) => match port {
            Some(p) => h + ":"@ + decimal(p as nat),
            None => h,
        },
        None => Seq::empty(),
    }
}

/// The registry name read from a URL's path, host and port: the authority,
/// then the path without its surrounding `/` and its last segment.
pub open spec fn spec_name_of(path: Seq<char>, host: Option<Seq<char>>, port: Option<u16>) -> Seq<char> {
    let t = trim_slashes(path);
    let k = last_slash(t);
    if k < 0 {
        spec_authority(host, port)
    } else {
        spec_authority(host, port) + "/"@ + t.subrange(0, k)
    }
}

/// The registry version read from a URL's path: its last segment once the
/// surrounding `/` are removed.
pub open spec fn spec_version_of(path: Seq<char>) -> Seq<char> {
    let t = trim_slashes(path);
    let k = last_slash(t);
    if k < 0 {
        t
    } else {
        t.subrange(k + 1, t.len() as int)
    }
}

/// Some path segment is not empty.
pub open spec fn spec_has_path(segments: Option<Seq<Seq<char>>>) -> bool {
    match segments {
        Some(s) => exists|i: int| 0 <= i < s.len() && (#[trigger] s[i]).len() > 0,
        None => false,
    }
}

/// What validating a schema URL gives: the parser's complaint, a complaint
/// about a missing path, or success.
pub open spec fn spec_validate(url: Seq<char>) -> Result<(), Seq<char>> {
    match url_parse(url) {
        Err(e) => Err("Invalid schema URL: "@ + e),
        Ok(p) => if spec_has_path(p.0) {
            Ok(())
        } else {
            Err("The schema URL must have at least one path segment."@)
        },
    }
}

/// The URL that a registry name and version give: the name without its
/// trailing `/`, `https://` in front when it has no `http` scheme, then `/`
/// and the version.
pub open spec fn spec_url_of_name_version(name: Seq<char>, version: Seq<char>) -> Seq<char> {
    let base = strip_trailing_slashes(name);
    if starts_with_http(name) {
        base + "/"@ + version
    } else {
        "https://"@ + base + "/"@ + version
    }
}

/// What building a schema URL from a registry name and version gives: the
/// URL text, or the complaint.
pub open spec fn spec_try_from_name_version(name: Seq<char>, version: Seq<char>) -> Result<
    Seq<char>,
    Seq<char>,
> {
    if is_blank_seq(name) || is_blank_seq(version) {
        Err("Registry name and version cannot be empty."@)
    } else {
        let u = spec_url_of_name_version(name, version);
        match spec_validate(u) {
            Ok(_) => Ok(u),
            Err(e) => Err(e),
        }
    }
}

/// `name` starts with `http://` or `https://`.
pub open spec fn starts_with_http(name: Seq<char>) -> bool {
    crate::text::starts_with_seq(name, "http://"@) || crate::text::starts_with_seq(name, "https://"@)
}

/// The schema URL of a registry, which identifies it together with its
/// version.
#[derive(Clone, Debug, Hash)]
pub struct SchemaUrl {
    /// The URL text.
    pub url: String,
}

impl PartialEq for SchemaUrl {
    fn eq(&self, other: &Self) -> (r: bool) {
        crate::text::str_eq(self.url.as_str(), other.url.as_str())
    }
}

impl vstd::std_specs::cmp::PartialEqSpecImpl for SchemaUrl {
    open spec fn obeys_eq_spec() -> bool {
        true
    }

    open spec fn eq_spec(&self, other: &Self) -> bool {
        self.url@ == other.url@
    }
}

impl Eq for SchemaUrl {}

/// The first and one-past-last positions of `cs` once its leading and
/// trailing `/` are removed.
fn trim_slash_bounds(cs: &Vec<char>) -> (r: (usize, usize))
    ensures
        r.0 <= r.1 <= cs@.len(),
        cs@.subrange(r.0 as int, r.1 as int) == trim_slashes(cs@),
{
    let n = cs.len();
    let mut i: usize = 0;
    assert(cs@.subrange(0, n as int) =~= cs@);
    while i < n && cs[i] == '/'
        invariant
            i <= n == cs@.len(),
            strip_leading_slashes(cs@) == strip_leading_slashes(cs@.subrange(i as int, n as int)),
        decreases n - i,
    {
        assert(cs@.subrange(i as int, n as int).drop_first() =~= cs@.subrange(i + 1, n as int));
        i = i + 1;
    }
    assert(strip_leading_slashes(cs@.subrange(i as int, n as int)) == cs@.subrange(
        i as int,
        n as int,
    ));
    let mut j: usize = n;
    while j > i && cs[j - 1] == '/'
        invariant
            i <= j <= n == cs@.len(),
            trim_slashes(cs@) == strip_trailing_slashes(cs@.subrange(i as int, j as int)),
        decreases j,
    {
        assert(cs@.subrange(i as int, j as int).drop_last() =~= cs@.subrange(i as int, j - 1));
        j = j - 1;
    }
    (i, j)
}

/// The position of the last `/` in `t`.
fn find_last_slash(t: &Vec<char>) -> (r: Option<usize>)
    ensures
        match r {
            Some(k) => last_slash(t@) == k && k < t@.len() && t@[k as int] == '/',
            None => last_slash(t@) == -1,
        },
{
    let mut k: usize = t.len();
    assert(t@.subrange(0, k as int) =~= t@);
    while k > 0 && t[k - 1] != '/'
        invariant
            k <= t@.len(),
            last_slash(t@) == last_slash(t@.subrange(0, k as int)),
        decreases k,
    {
        assert(t@.subrange(0, k as int).drop_last() =~= t@.subrange(0, k - 1));
        k = k - 1;
    }
    if k == 0 {
        assert(t@.subrange(0, 0) =~= Seq::<char>::empty());
        None
    } else {
        Some(k - 1)
    }
}

/// The decimal digit of `d`.
pub(crate) fn digit(d: u16) -> (c: char)
    requires
        d < 10,
    ensures
        c == digit_char(d as nat),
{
    if d == 0 {
        '0'
    } else if d == 1 {
        '1'
    } else if d == 2 {
        '2'
    } else if d == 3 {
        '3'
    } else if d == 4 {
        '4'
    } else if d == 5 {
        '5'
    } else if d == 6 {
        '6'
    } else if d == 7 {
        '7'
    } else if d == 8 {
        '8'
    } else {
        '9'
    }
}

/// The decimal form of a port number.
fn decimal_string(n: u16) -> (s: String)
    ensures
        s@ == decimal(n as nat),
    decreases n,
{
    if n < 10 {
        let mut s = String::new();
        s.push(digit(n));
        s
    } else {
        let mut s = decimal_string(n / 10);
        s.push(digit(n % 10));
        s
    }
}

/// The authority of a URL from its host and port.
fn authority(host: &Option<String>, port: Option<u16>) -> (s: String)
    ensures
        s@ == spec_authority(opt_view(*host), port),
{
    match host {
        Some(h) => match port {
            Some(p) => {
                let mut s = h.clone();
                s.append(":");
                let d = decimal_string(p);
                s.append(d.as_str());
                s
            },
            None => h.clone(),
        },
        None => String::new(),
    }
}

/// The trimmed path and the position of its last `/`.
fn trimmed_path(path: &str) -> (r: (Vec<char>, Option<usize>))
    ensures
        r.0@ == trim_slashes(path@),
        match r.1 {
            Some(k) => last_slash(r.0@) == k && k < r.0@.len(),
            None => last_slash(r.0@) == -1,
        },
{
    let cs = str_chars(path);
    let (a, b) = trim_slash_bounds(&cs);
    let t_str = string_from_range(cs.as_slice(), a, b);
    let t = str_chars(t_str.as_str());
    let k = find_last_slash(&t);
    (t, k)
}

impl SchemaUrl {
    /// Returns the URL text.
    pub fn as_str(&self) -> (r: &str)
        ensures
            r@ == self.url@,
    {
        self.url.as_str()
    }

    /// Returns the URL text as an owned string.
    pub fn to_string(&self) -> (r: String)
        ensures
            r@ == self.url@,
    {
        self.url.clone()
    }

    /// Validates the URL: it must parse and have at least one non-empty path
    /// segment.
    pub fn validate(&self) -> (r: Result<(), String>)
        ensures
            match r {
                Ok(()) => spec_validate(self.url@) == Ok::<(), Seq<char>>(()),
                Err(e) => spec_validate(self.url@) == Err::<(), Seq<char>>(e@),
            },
    {
        match parse_url(self.url.as_str()) {
            Err(e) => {
                let mut m = to_owned_string("Invalid schema URL: ");
                m.append(e.as_str());
                Err(m)
            },
            Ok(p) => {
                let has_path = match &p.segments {
                    None => false,
                    Some(segs) => {
                        let mut found = false;
                        let mut i: usize = 0;
                        while i < segs.len()
                            invariant
                                i <= segs@.len(),
                                found == exists|j: int| 0 <= j < i && (#[trigger] segs@[j])@.len() > 0,
                            decreases segs@.len() - i,
                        {
                            if segs[i].as_str().unicode_len() > 0 {
                                found = true;
                            }
                            i = i + 1;
                        }
                        proof {
                            let sv = string_views(segs@);
                            if found {
                                let j = choose|j: int| 0 <= j < i && (#[trigger] segs@[j])@.len() > 0;
                                assert(sv[j].len() > 0);
                            } else {
                                assert forall|j: int| 0 <= j < sv.len() implies (#[trigger] sv[j]).len() == 0 by {
                                    assert(segs@[j]@.len() == 0);
                                }
                            }
                        }
                        found
                    },
                };
                if has_path {
                    Ok(())
                } else {
                    Err(to_owned_string("The schema URL must have at least one path segment."))
                }
            },
        }
    }

    /// Builds a schema URL from its text, which must validate.
    pub fn try_from_str(value: &str) -> (r: Result<SchemaUrl, String>)
        ensures
            match r {
                Ok(u) => spec_validate(value@) is Ok && u.url@ == value@,
                Err(e) => spec_validate(value@) == Err::<(), Seq<char>>(e@),
            },
    {
        let schema_url = SchemaUrl { url: to_owned_string(value) };
        match schema_url.validate() {
            Ok(()) => Ok(schema_url),
            Err(e) => Err(e),
        }
    }

    /// Builds a schema URL from its text, which must validate.
    pub fn try_from_string(value: String) -> (r: Result<SchemaUrl, String>)
        ensures
            match r {
                Ok(u) => spec_validate(value@) is Ok && u.url@ == value@,
                Err(e) => spec_validate(value@) == Err::<(), Seq<char>>(e@),
            },
    {
        let schema_url = SchemaUrl { url: value };
        match schema_url.validate() {
            Ok(()) => Ok(schema_url),
            Err(e) => Err(e),
        }
    }

    /// Returns the registry name: the host (and port), then the path
    /// without its last segment. The URL must parse.
    pub fn name(&self) -> (r: String)
        requires
            url_parse(self.url@) is Ok,
        ensures
            r@ == spec_name_of(url_parse(self.url@)->Ok_0.1, url_parse(self.url@)->Ok_0.2, url_parse(self.url@)->Ok_0.3),
    {
        match parse_url(self.url.as_str()) {
            Ok(p) => {
                let auth = authority(&p.host, p.port);
                let (t, k) = trimmed_path(p.path.as_str());
                match k {
                    None => auth,
                    Some(k) => {
                        let mut s = auth;
                        s.append("/");
                        let head = string_from_range(t.as_slice(), 0, k);
                        s.append(head.as_str());
                        s
                    },
                }
            },
            Err(_) => {
                proof {
                    assert(false);
                }
                String::new()
            },
        }
    }

    /// Returns the registry version: the last segment of the path. The URL
    /// must parse.
    pub fn version(&self) -> (r: String)
        requires
            url_parse(self.url@) is Ok,
        ensures
            r@ == spec_version_of(url_parse(self.url@)->Ok_0.1),
    {
        match parse_url(self.url.as_str()) {
            Ok(p) => {
                let (t, k) = trimmed_path(p.path.as_str());
                match k {
                    None => string_from_range(t.as_slice(), 0, t.len()),
                    Some(k) => string_from_range(t.as_slice(), k + 1, t.len()),
                }
            },
            Err(_) => {
                proof {
                    assert(false);
                }
                String::new()
            },
        }
    }

    /// The registry name when the URL parses, `None` otherwise.
    pub fn checked_name(&self) -> (r: Option<String>)
        ensures
            match r {
                Some(n) => url_parse(self.url@) is Ok && n@ == spec_name_of(
                    url_parse(self.url@)->Ok_0.1,
                    url_parse(self.url@)->Ok_0.2,
                    url_parse(self.url@)->Ok_0.3,
                ),
                None => url_parse(self.url@) is Err,
            },
    {
        match parse_url(self.url.as_str()) {
            Ok(_) => Some(self.name()),
            Err(_) => None,
        }
    }

    /// The registry version when the URL parses, `None` otherwise.
    pub fn checked_version(&self) -> (r: Option<String>)
        ensures
            match r {
                Some(v) => url_parse(self.url@) is Ok && v@ == spec_version_of(url_parse(self.url@)->Ok_0.1),
                None => url_parse(self.url@) is Err,
            },
    {
        match parse_url(self.url.as_str()) {
            Ok(_) => Some(self.version()),
            Err(_) => None,
        }
    }

    /// Builds a schema URL from a registry name and version. Both must hold
    /// something besides white space; the name gets `https://` in front when
    /// it has no `http` scheme.
    pub fn try_from_name_version(name: &str, version: &str) -> (r: Result<SchemaUrl, String>)
        ensures
            match r {
                Ok(u) => spec_try_from_name_version(name@, version@) == Ok::<Seq<char>, Seq<char>>(
                    u.url@,
                ),
                Err(e) => spec_try_from_name_version(name@, version@) == Err::<Seq<char>, Seq<char>>(
                    e@,
                ),
            },
    {
        if is_blank(name) || is_blank(version) {
            return Err(to_owned_string("Registry name and version cannot be empty."));
        }
        let cs = str_chars(name);
        let mut end: usize = cs.len();
        assert(cs@.subrange(0, end as int) =~= cs@);
        while end > 0 && cs[end - 1] == '/'
            invariant
                end <= cs@.len(),
                strip_trailing_slashes(cs@) == strip_trailing_slashes(cs@.subrange(0, end as int)),
            decreases end,
        {
            assert(cs@.subrange(0, end as int).drop_last() =~= cs@.subrange(0, end - 1));
            end = end - 1;
        }
        let base = string_from_range(cs.as_slice(), 0, end);
        let http = str_chars("http://");
        let https = str_chars("https://");
        let mut url = if starts_with_chars(cs.as_slice(), http.as_slice()) || starts_with_chars(
            cs.as_slice(),
            https.as_slice(),
        ) {
            base
        } else {
            let mut u = to_owned_string("https://");
            u.append(base.as_str());
            u
        };
        url.append("/");
        url.append(version);
        SchemaUrl::try_from_string(url)
    }

    /// A copy of this schema URL.
    pub fn copy(&self) -> (r: SchemaUrl)
        ensures
            r.url@ == self.url@,
    {
        SchemaUrl { url: self.url.clone() }
    }

    /// Whether the version of this URL is not the placeholder `unknown`;
    /// false for a URL that does not parse.
    pub fn has_known_version(&self) -> (r: bool)
        ensures
            r == (url_parse(self.url@) is Ok && spec_version_of(url_parse(self.url@)->Ok_0.1)
                != "unknown"@),
    {
        match self.checked_version() {
            Some(v) => !crate::text::str_eq(v.as_str(), "unknown"),
            None => false,
        }
    }

    /// A schema URL for a registry whose name and version are unknown.
    pub fn new_unknown() -> (r: SchemaUrl)
        ensures
            r.url@ == "https://unknown/unknown"@,
    {
        SchemaUrl { url: to_owned_string("https://unknown/unknown") }
    }
}

/// Every character of `s` is white space (so an empty `s` is blank).
pub open spec fn is_blank_seq(s: Seq<char>) -> bool {
    forall|i: int| 0 <= i < s.len() ==> is_white_space(#[trigger] s[i])
}

/// Whether a string is blank: nothing but white space.
fn is_blank(s: &str) -> (r: bool)
    ensures
        r == is_blank_seq(s@),
{
    let cs = str_chars(s);
    let mut i: usize = 0;
    while i < cs.len()
        invariant
            cs@ == s@,
            i <= cs@.len(),
            forall|j: int| 0 <= j < i ==> is_white_space(#[trigger] cs@[j]),
        decreases cs@.len() - i,
    {
        if !is_white_space_char(cs[i]) {
            return false;
        }
        i = i + 1;
    }
    true
}

} // verus!
