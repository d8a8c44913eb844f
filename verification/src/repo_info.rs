//! The advisory repository-metadata check. Its one decision is whether the
//! metadata's default-branch field is absent, which warrants a warning and
//! nothing more: the outcome is discarded by the caller and never affects
//! the later stages.

use vstd::prelude::*;

verus! {

/// What the advisory check reads of one repository's metadata: the
/// possibly-absent default-branch field.
#[derive(Clone, Debug)]
pub struct RepoInfo {
    pub default_branch: Option<String>,
}

impl RepoInfo {
    /// Whether the advisory check should warn: exactly when the
    /// default-branch field is absent.
    pub fn default_branch_missing(&self) -> (b: bool)
        ensures
            b == (self.default_branch is None),
    {
        self.default_branch.is_none()
    }
}

} // verus!
