//! Repository setup tasks, as data.
//!
//! Applying a task touches the filesystem and the git plumbing, which lives
//! with the caller; the task values and their decisions are pinned down here.

use vstd::prelude::*;

verus! {

/// Checks out a branch in a freshly initialized repository; scratchpads are
/// left untouched.
pub struct GitCheckout<'a> {
    /// The branch to check out.
    pub branch: &'a str,
}

/// Switches a repository to a branch, optionally creating it; scratchpads are
/// left untouched.
pub struct GitSwitch {
    /// The branch to switch to.
    pub branch: String,
    /// Whether a missing branch should be created.
    pub create_if_missing: bool,
}

impl GitSwitch {
    /// Whether the switch should create the branch: only when creation was
    /// asked for and the branch does not already exist.
    pub fn should_create(&self, branch_exists: bool) -> (r: bool)
        ensures
            r == (self.create_if_missing && !branch_exists),
    {
        self.create_if_missing && !branch_exists
    }
}

/// Creates the folder a repository or scratchpad lives in.
pub struct NewFolder {}

} // verus!
