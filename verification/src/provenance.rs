//! Where a semantic convention file comes from.

use vstd::prelude::*;
use crate::schema_url::SchemaUrl;

verus! {

/// The provenance of a semantic convention file: the registry it belongs
/// to and its path.
#[derive(Clone, Debug, Hash)]
pub struct Provenance {
    /// The schema URL of the registry.
    pub schema_url: SchemaUrl,
    /// The path of the file, with `/` as separator.
    pub path: String,
}

/// A path with every `\` replaced by `/`.
pub open spec fn forward_slashes(p: Seq<char>) -> Seq<char> {
    p.map_values(|c: char| if c == '\\' { '/' } else { c })
}

impl PartialEq for Provenance {
    fn eq(&self, other: &Self) -> (r: bool) {
        self.schema_url == other.schema_url && crate::text::str_eq(self.path.as_str(), other.path.as_str())
    }
}

impl vstd::std_specs::cmp::PartialEqSpecImpl for Provenance {
    open spec fn obeys_eq_spec() -> bool {
        true
    }

    open spec fn eq_spec(&self, other: &Self) -> bool {
        self.schema_url.url@ == other.schema_url.url@ && self.path@ == other.path@
    }
}

impl Eq for Provenance {}

impl Provenance {
    /// A provenance whose path uses `/` in place of `\`.
    pub fn new(schema_url: SchemaUrl, path: &str) -> (r: Provenance)
        ensures
            r.schema_url == schema_url,
            r.path@ == forward_slashes(path@),
    {
        let cs = crate::text::str_chars(path);
        let mut out = String::new();
        let mut i: usize = 0;
        while i < cs.len()
            invariant
                i <= cs@.len(),
                out@ == forward_slashes(cs@.subrange(0, i as int)),
            decreases cs@.len() - i,
        {
            let c = cs[i];
            out.push(if c == '\\' { '/' } else { c });
            proof {
                assert(forward_slashes(cs@.subrange(0, i + 1)) =~= forward_slashes(
                    cs@.subrange(0, i as int),
                ).push(if c == '\\' { '/' } else { c }));
            }
            i = i + 1;
        }
        proof {
            assert(cs@.subrange(0, cs@.len() as int) =~= cs@);
        }
        Provenance { schema_url, path: out }
    }

    /// The provenance as text: the schema URL, `:` and the path.
    pub fn to_string(&self) -> (r: String)
        ensures
            r@ == self.schema_url.url@ + ":"@ + self.path@,
    {
        let mut r = self.schema_url.to_string();
        r.append(":");
        r.append(self.path.as_str());
        r
    }
}

} // verus!
