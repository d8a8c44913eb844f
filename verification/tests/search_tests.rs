use git_searcher::search::{SearchHit, SearchState};

fn hit(repo_full: &str, path: &str) -> SearchHit {
    SearchHit { repo_full: Some(repo_full.to_string()), path: Some(path.to_string()) }
}

#[test]
fn empty_first_page_terminates_with_no_targets() {
    let mut state = SearchState::new();
    assert_eq!(state.next_page(), 1);
    let done = state.process_page(Vec::new());
    assert!(done);
    assert_eq!(state.next_page(), 1);
    let targets = state.targets().unwrap();
    assert_eq!(targets.len(), 0);
}

#[test]
fn short_non_empty_page_does_not_terminate() {
    let mut state = SearchState::new();
    let page = vec![hit("org/alpha", "a.txt"), hit("org/beta", "b.txt"), hit("org/gamma", "c.txt")];
    let done = state.process_page(page);
    assert!(!done);
    assert_eq!(state.next_page(), 2);
}

#[test]
fn duplicates_within_a_page_are_collapsed() {
    let mut state = SearchState::new();
    let page = vec![hit("org/alpha", "a.txt"), hit("org/alpha", "a.txt")];
    assert!(!state.process_page(page));
    assert!(state.process_page(Vec::new()));
    assert_eq!(state.targets().unwrap().len(), 1);
}

#[test]
fn duplicates_across_pages_are_collapsed() {
    let mut state = SearchState::new();
    assert!(!state.process_page(vec![hit("org/alpha", "a.txt")]));
    assert!(!state.process_page(vec![hit("org/alpha", "a.txt"), hit("org/beta", "a.txt")]));
    assert!(state.process_page(Vec::new()));
    assert_eq!(state.targets().unwrap().len(), 2);
}

#[test]
fn same_repository_with_two_paths_keeps_both() {
    let mut state = SearchState::new();
    assert!(!state.process_page(vec![hit("org/alpha", "a.txt"), hit("org/alpha", "b.txt")]));
    assert!(state.process_page(Vec::new()));
    assert_eq!(state.targets().unwrap().len(), 2);
}

#[test]
fn items_missing_either_field_are_skipped() {
    let mut state = SearchState::new();
    let page = vec![
        SearchHit { repo_full: None, path: Some("a.txt".to_string()) },
        SearchHit { repo_full: Some("org/alpha".to_string()), path: None },
        SearchHit { repo_full: None, path: None },
        hit("org/beta", "b.txt"),
    ];
    assert!(!state.process_page(page));
    assert!(state.process_page(Vec::new()));
    assert_eq!(state.targets().unwrap().len(), 1);
}

#[test]
fn two_pages_with_a_duplicate_pair_collapse_to_one_hundred_targets() {
    // Page 1 carries 100 items of which two agree on (repository, path);
    // page 2 carries one more; page 3 is empty. The scan issues exactly
    // three page requests and the duplicate pair collapses: 100 targets.
    let mut page1 = Vec::new();
    for i in 0..99 {
        page1.push(hit(&format!("org/repo{}", i), "build.cfg"));
    }
    page1.push(hit("org/repo0", "build.cfg"));
    assert_eq!(page1.len(), 100);
    let page2 = vec![hit("org/extra", "build.cfg")];

    let mut state = SearchState::new();
    let mut requests = 0;
    let mut pages = vec![page1, page2, Vec::new()].into_iter();
    loop {
        let page = pages.next().unwrap();
        requests += 1;
        if state.process_page(page) {
            break;
        }
    }
    assert_eq!(requests, 3);
    assert_eq!(state.next_page(), 3);
    let targets = state.targets().unwrap();
    assert_eq!(targets.len(), 100);
}

#[test]
fn targets_split_repository_key_at_first_slash() {
    let mut state = SearchState::new();
    assert!(!state.process_page(vec![hit("octo/deep/name", "x.txt")]));
    assert!(state.process_page(Vec::new()));
    let targets = state.targets().unwrap();
    assert_eq!(targets.len(), 1);
    assert_eq!(targets[0].owner, "octo");
    assert_eq!(targets[0].repo, "deep/name");
    assert_eq!(targets[0].path, "x.txt");
}

#[test]
fn target_list_is_duplicate_free() {
    let mut state = SearchState::new();
    assert!(!state.process_page(vec![
        hit("org/alpha", "a.txt"),
        hit("org/beta", "a.txt"),
        hit("org/alpha", "a.txt"),
        hit("org/alpha", "b.txt"),
    ]));
    assert!(state.process_page(Vec::new()));
    let targets = state.targets().unwrap();
    assert_eq!(targets.len(), 3);
    for i in 0..targets.len() {
        for j in 0..targets.len() {
            if i != j {
                let same = targets[i].owner == targets[j].owner
                    && targets[i].repo == targets[j].repo
                    && targets[i].path == targets[j].path;
                assert!(!same);
            }
        }
    }
}

#[test]
fn targets_are_enumerated_in_ascending_key_then_path_order() {
    let mut state = SearchState::new();
    let page = vec![
        hit("org/zeta", "z.txt"),
        hit("org/alpha", "b.txt"),
        hit("org/alpha", "a.txt"),
        hit("org/beta", "m.txt"),
    ];
    assert!(!state.process_page(page));
    assert!(state.process_page(Vec::new()));
    let targets = state.targets().unwrap();
    assert_eq!(targets.len(), 4);
    assert_eq!((targets[0].repo.as_str(), targets[0].path.as_str()), ("alpha", "a.txt"));
    assert_eq!((targets[1].repo.as_str(), targets[1].path.as_str()), ("alpha", "b.txt"));
    assert_eq!((targets[2].repo.as_str(), targets[2].path.as_str()), ("beta", "m.txt"));
    assert_eq!((targets[3].repo.as_str(), targets[3].path.as_str()), ("zeta", "z.txt"));
}

#[test]
fn enumeration_order_is_sorted_across_pages() {
    let mut state = SearchState::new();
    assert!(!state.process_page(vec![hit("org/late", "x.txt")]));
    assert!(!state.process_page(vec![hit("org/early", "x.txt")]));
    assert!(state.process_page(Vec::new()));
    let targets = state.targets().unwrap();
    assert_eq!(targets.len(), 2);
    assert_eq!(targets[0].repo, "early");
    assert_eq!(targets[1].repo, "late");
}

#[test]
fn key_without_separator_is_a_fatal_logic_error() {
    let mut state = SearchState::new();
    assert!(!state.process_page(vec![hit("malformed", "a.txt")]));
    assert!(state.process_page(Vec::new()));
    let err = state.targets().err().unwrap();
    assert_eq!(err.key, "malformed");
    assert_eq!(err.message(), "repository key without separator: malformed");
}
