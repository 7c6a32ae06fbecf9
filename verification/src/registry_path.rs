//! Where a semantic convention registry is.

use vstd::prelude::*;
use crate::text::to_owned_string;

verus! {

/// The Rust debug form of a text: quoted, with special characters escaped,
/// as `format!("{:?}", s)` writes it.
pub uninterp spec fn debug_text(s: Seq<char>) -> Seq<char>;

/// Writes a text in its Rust debug form, with `format!("{:?}", ..)`.
#[verifier::external_body]
fn debug_string(s: &str) -> (r: String)
    ensures
        r@ == debug_text(s@),
{
    format!("{:?}", s)
}

/// Where a semantic convention registry is.
pub enum RegistryPath {
    /// A local path pattern.
    Local {
        /// The path pattern of the files.
        path_pattern: String,
    },
    /// A git repository.
    GitUrl {
        /// The URL of the repository.
        git_url: String,
        /// The directory of the files in the repository.
        path: Option<String>,
    },
}

impl RegistryPath {
    /// The registry path as text: `LocalRegistry:` and the pattern, or
    /// `GitRegistry:` and the URL, followed by `/` and the quoted directory
    /// when there is one.
    pub fn to_string(&self) -> (r: String)
        ensures
            r@ == match self {
                RegistryPath::Local { path_pattern } => "LocalRegistry:"@ + path_pattern@,
                RegistryPath::GitUrl { git_url, path } => match path {
                    Some(p) => "GitRegistry:"@ + git_url@ + "/"@ + debug_text(p@),
                    None => "GitRegistry:"@ + git_url@,
                },
            },
    {
        match self {
            RegistryPath::Local { path_pattern } => {
                let mut s = to_owned_string("LocalRegistry:");
                s.append(path_pattern.as_str());
                s
            },
            RegistryPath::GitUrl { git_url, path } => {
                let mut s = to_owned_string("GitRegistry:");
                s.append(git_url.as_str());
                match path {
                    Some(p) => {
                        s.append("/");
                        let d = debug_string(p.as_str());
                        s.append(d.as_str());
                    },
                    None => {},
                }
                s
            },
        }
    }
}

} // verus!
