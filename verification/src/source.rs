//! The source of a specification file.

use vstd::prelude::*;
use std::sync::Arc;

verus! {

/// Where a specification file comes from: its registry and its path.
#[derive(Clone, Debug)]
pub struct Source {
    /// The registry that holds the file.
    pub registry_id: Arc<str>,
    /// The path of the file.
    pub path: String,
}

} // verus!
