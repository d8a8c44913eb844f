use git_searcher::commit::CommitInfo;
use git_searcher::present::format_commit_line;
use git_searcher::repo_info::RepoInfo;
use git_searcher::text::{split_repo_full, trim_trailing};

#[test]
fn formats_one_line_per_resolved_commit() {
    let info = CommitInfo {
        repo_full: "org/alpha".to_string(),
        url: "https://ghe/org/alpha".to_string(),
        login: "octocat".to_string(),
        sha: "abc1234".to_string(),
        date: "2024-05-01T12:00:00Z".to_string(),
    };
    let line = format_commit_line(&info);
    assert_eq!(
        line,
        "📁 org/alpha | 🌐 https://ghe/org/alpha | 👤 octocat | 🔑 abc1234 | 📅 2024-05-01T12:00:00Z"
    );
}

#[test]
fn advisory_check_warns_exactly_when_default_branch_is_absent() {
    assert!(RepoInfo { default_branch: None }.default_branch_missing());
    assert!(!RepoInfo { default_branch: Some("main".to_string()) }.default_branch_missing());
}

#[test]
fn trim_trailing_strips_only_trailing_slashes() {
    assert_eq!(trim_trailing("https://ghe/a/"), "https://ghe/a");
    assert_eq!(trim_trailing("https://ghe"), "https://ghe");
    assert_eq!(trim_trailing("///"), "");
    assert_eq!(trim_trailing(""), "");
}

#[test]
fn split_repo_full_splits_at_the_first_slash() {
    assert_eq!(split_repo_full("a/b"), Some(("a".to_string(), "b".to_string())));
    assert_eq!(split_repo_full("a/b/c"), Some(("a".to_string(), "b/c".to_string())));
    assert_eq!(split_repo_full("/x"), Some(("".to_string(), "x".to_string())));
    assert_eq!(split_repo_full("nope"), None);
}
