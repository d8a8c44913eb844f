//! Presentation: the single human-readable line for one resolved commit.

use vstd::prelude::*;
use crate::commit::CommitInfo;

verus! {

/// Format one resolved commit as its display line: repository full name, web
/// URL, author, abbreviated hash and commit date, in fixed order with fixed
/// separators.
pub fn format_commit_line(info: &CommitInfo) -> (r: String)
    ensures
        r@ == "📁 "@ + info.repo_full@ + " | 🌐 "@ + info.url@ + " | 👤 "@ + info.login@
            + " | 🔑 "@ + info.sha@ + " | 📅 "@ + info.date@,
{
    let mut line = "📁 ".to_owned();
    line.append(info.repo_full.as_str());
    line.append(" | 🌐 ");
    line.append(info.url.as_str());
    line.append(" | 👤 ");
    line.append(info.login.as_str());
    line.append(" | 🔑 ");
    line.append(info.sha.as_str());
    line.append(" | 📅 ");
    line.append(info.date.as_str());
    line
}

} // verus!
