//! The handle a caller builds to load a project from disk. Reading the
//! directory layout and deserializing the configuration files is file I/O
//! and is done by the surrounding application; the checker consumes the
//! loaded project value.

use vstd::prelude::*;

verus! {

/// Names the directory a project is loaded from.
pub struct ProjectLoader {
    pub base_path: String,
}

impl ProjectLoader {
    pub fn new(base_path: String) -> (r: Self)
        ensures
            r.base_path@ == base_path@,
    {
        ProjectLoader { base_path }
    }
}

} // verus!
