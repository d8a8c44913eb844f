//! The commit-lookup stage's resolution: walk the response tree's chain of
//! independently-absent fields down to the most recent commit node, derive
//! the display record from it by ordered fallback, or report which step of
//! the chain was absent. Absence is a legitimate outcome, never an error.

use vstd::prelude::*;
use crate::query::{Author, CommitNode, FileBlame, RefTarget};
use crate::text::{trim_trailing, trim_trailing_slashes};

verus! {

/// One resolved commit, ready for display.
#[derive(Clone, Debug)]
pub struct CommitInfo {
    pub repo_full: String,
    pub url: String,
    pub login: String,
    pub sha: String,
    pub date: String,
}

/// The step of the resolution chain that was absent. Each variant matches
/// one distinguishing warning of the run's log.
#[derive(Clone, Copy, Debug, PartialEq, Eq, Structural)]
pub enum MissingStep {
    /// The response carried no repository object.
    Repository,
    /// The repository carried no default-branch reference, or the reference
    /// resolved to no target.
    DefaultBranch,
    /// The commit's history listing, its edge list, its first edge or that
    /// edge's node was absent.
    History,
}

/// The outcome of resolving one target: a commit record, or the step of the
/// chain that was absent.
#[derive(Clone, Debug)]
pub enum LookupOutcome {
    Found(CommitInfo),
    NotFound(MissingStep),
}

/// The commit node a response resolves to: the node of the first history
/// edge, reached only when every step of the chain is present.
pub open spec fn spec_node(fb: FileBlame) -> Option<CommitNode> {
    match fb.repository {
        None => None,
        Some(r) => match r.default_branch_ref {
            None => None,
            Some(b) => match b.target {
                None => None,
                Some(RefTarget::Commit(c)) => match c.history {
                    None => None,
                    Some(h) => match h.edges {
                        None => None,
                        Some(es) => if es@.len() == 0 {
                            None
                        } else {
                            match es@[0] {
                                None => None,
                                Some(e) => e.node,
                            }
                        },
                    },
                },
            },
        },
    }
}

/// Which step a response with no resolvable commit node broke at.
pub open spec fn spec_missing(fb: FileBlame) -> MissingStep
    recommends
        spec_node(fb) is None,
{
    match fb.repository {
        None => MissingStep::Repository,
        Some(r) => match r.default_branch_ref {
            None => MissingStep::DefaultBranch,
            Some(b) => match b.target {
                None => MissingStep::DefaultBranch,
                Some(RefTarget::Commit(_)) => MissingStep::History,
            },
        },
    }
}

/// The displayed author: the linked account's handle when present, else the
/// free-text author name, else the fixed placeholder.
pub open spec fn spec_author(a: Option<Author>) -> Seq<char> {
    match a {
        None => "unknown"@,
        Some(au) => match au.user {
            Some(u) => match u.login {
                Some(l) => l@,
                None => spec_fallback_name(au),
            },
            None => spec_fallback_name(au),
        },
    }
}

/// The author fallback once no handle is available: the free-text name when
/// present, else the fixed placeholder.
pub open spec fn spec_fallback_name(au: Author) -> Seq<char> {
    match au.name {
        Some(n) => n@,
        None => "unknown"@,
    }
}

/// An optional display field, with the fixed placeholder when absent.
pub open spec fn spec_or_dash(o: Option<String>) -> Seq<char> {
    match o {
        Some(s) => s@,
        None => "-"@,
    }
}

/// Author resolution precedence: the linked account's handle wins over the
/// free-text author name, which wins over the fixed placeholder, for any
/// combination of presence and absence of the two fields.
pub proof fn lemma_author_precedence(a: Option<Author>)
    ensures
        a matches Some(au) ==> (au.user matches Some(u) ==> (u.login matches Some(l)
            ==> spec_author(a) == l@)),
        a matches Some(au) ==> ((au.user is None || au.user->0.login is None) && au.name is Some
            ==> spec_author(a) == au.name->0@),
        a matches Some(au) ==> ((au.user is None || au.user->0.login is None) && au.name is None
            ==> spec_author(a) == "unknown"@),
        a is None ==> spec_author(a) == "unknown"@,
{
}

/// Resolve one target's author field.
pub fn resolve_author(author: &Option<Author>) -> (r: String)
    ensures
        r@ == spec_author(*author),
{
    match author {
        Some(au) => {
            match &au.user {
                Some(u) => match &u.login {
                    Some(l) => {
                        return l.clone();
                    },
                    None => {},
                },
                None => {},
            }
            match &au.name {
                Some(n) => n.clone(),
                None => "unknown".to_owned(),
            }
        },
        None => "unknown".to_owned(),
    }
}

/// An optional display field, with the fixed placeholder when absent.
fn or_dash(o: &Option<String>) -> (r: String)
    ensures
        r@ == spec_or_dash(*o),
{
    match o {
        Some(s) => s.clone(),
        None => "-".to_owned(),
    }
}

/// Resolve one commit-lookup response for the target `owner`/`repo`: walk
/// the optional-field chain down to the commit node and derive the display
/// record, or report which step was absent. The record's web URL is derived
/// from `ghe_url` with trailing slashes trimmed.
pub fn resolve_commit(response: &FileBlame, owner: &str, repo: &str, ghe_url: &str) -> (r:
    LookupOutcome)
    ensures
        match spec_node(*response) {
            Some(node) => r matches LookupOutcome::Found(info) && {
                &&& info.repo_full@ == owner@ + "/"@ + repo@
                &&& info.url@ == trim_trailing_slashes(ghe_url@) + "/"@ + owner@ + "/"@ + repo@
                &&& info.login@ == spec_author(node.author)
                &&& info.sha@ == spec_or_dash(node.abbreviated_oid)
                &&& info.date@ == spec_or_dash(node.committed_date)
            },
            None => r matches LookupOutcome::NotFound(m) && m == spec_missing(*response),
        },
{
    let repo_data = match &response.repository {
        Some(rd) => rd,
        None => {
            return LookupOutcome::NotFound(MissingStep::Repository);
        },
    };
    let branch_ref = match &repo_data.default_branch_ref {
        Some(b) => b,
        None => {
            return LookupOutcome::NotFound(MissingStep::DefaultBranch);
        },
    };
    let target = match &branch_ref.target {
        Some(t) => t,
        None => {
            return LookupOutcome::NotFound(MissingStep::DefaultBranch);
        },
    };
    let commit = match target {
        RefTarget::Commit(c) => c,
    };
    let history = match &commit.history {
        Some(h) => h,
        None => {
            return LookupOutcome::NotFound(MissingStep::History);
        },
    };
    let edges = match &history.edges {
        Some(es) => es,
        None => {
            return LookupOutcome::NotFound(MissingStep::History);
        },
    };
    if edges.len() == 0 {
        return LookupOutcome::NotFound(MissingStep::History);
    }
    let edge = match &edges[0] {
        Some(e) => e,
        None => {
            return LookupOutcome::NotFound(MissingStep::History);
        },
    };
    let node = match &edge.node {
        Some(n) => n,
        None => {
            return LookupOutcome::NotFound(MissingStep::History);
        },
    };
    let login = resolve_author(&node.author);
    let sha = or_dash(&node.abbreviated_oid);
    let date = or_dash(&node.committed_date);
    let mut repo_full = owner.to_owned();
    repo_full.append("/");
    repo_full.append(repo);
    let mut url = trim_trailing(ghe_url).to_owned();
    url.append("/");
    url.append(owner);
    url.append("/");
    url.append(repo);
    LookupOutcome::Found(CommitInfo { repo_full, url, login, sha, date })
}

} // verus!
