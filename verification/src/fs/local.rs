//! Storage in a directory of the local file system.
use vstd::prelude::*;

use crate::text::owned;

verus! {

/// Storage rooted at the directory `root`.
pub struct LocalFS {
    pub root: String,
}

impl LocalFS {
    /// Storage rooted at `root`.
    pub fn new(root: &str) -> (fs: LocalFS)
        ensures
            fs.root@ == root@,
    {
        LocalFS { root: owned(root) }
    }
}

} // verus!
