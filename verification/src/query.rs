//! The shape of the commit-lookup query's response tree. The host may omit
//! any field of it (no commits yet, detached head, deleted author account,
//! and so on), so every field is individually optional and the resolution in
//! `commit` walks the chain defensively.

use vstd::prelude::*;

verus! {

/// The parsed body of one file-blame query response: a possibly-absent
/// repository object whose chain, when fully populated, reaches the single
/// most recent commit that touched the queried path on the default branch.
#[derive(Clone, Debug)]
pub struct FileBlame {
    pub repository: Option<Repository>,
}

/// The repository object: its possibly-absent default-branch reference.
#[derive(Clone, Debug)]
pub struct Repository {
    pub default_branch_ref: Option<BranchRef>,
}

/// A branch reference: its possibly-absent resolved target.
#[derive(Clone, Debug)]
pub struct BranchRef {
    pub target: Option<RefTarget>,
}

/// The resolved target of a branch reference. The query only ever resolves
/// to a commit; the tagged union keeps a future non-commit variant a
/// compile-time-visible gap rather than a silent mismatch.
#[derive(Clone, Debug)]
pub enum RefTarget {
    Commit(Commit),
}

/// A commit-shaped target: its possibly-absent history listing, filtered to
/// the queried path and limited to one most-recent entry.
#[derive(Clone, Debug)]
pub struct Commit {
    pub history: Option<History>,
}

/// A history listing: its possibly-absent edge list.
#[derive(Clone, Debug)]
pub struct History {
    pub edges: Option<Vec<Option<Edge>>>,
}

/// One history edge: its possibly-absent commit node.
#[derive(Clone, Debug)]
pub struct Edge {
    pub node: Option<CommitNode>,
}

/// One commit node: author identity, abbreviated hash and commit date, all
/// individually optional.
#[derive(Clone, Debug)]
pub struct CommitNode {
    pub author: Option<Author>,
    pub abbreviated_oid: Option<String>,
    pub committed_date: Option<String>,
}

/// A commit's author: the possibly-absent linked account and the
/// possibly-absent free-text name.
#[derive(Clone, Debug)]
pub struct Author {
    pub user: Option<User>,
    pub name: Option<String>,
}

/// A linked account: its possibly-absent handle.
#[derive(Clone, Debug)]
pub struct User {
    pub login: Option<String>,
}

} // verus!
