use lumen::anchor::{file_url, generate_file_anchor, hex_text};
use lumen::clock::{current_timestamp, time_of_reading, timestamp_of_reading};
use lumen::persistence::DiffScope;
use lumen::scope::{
    determine_scope, diff_reference, reference_to_resolve, CommitReference, PrInfo,
};
use lumen::state::{AppState, StackedCommitInfo, TimePoint};

fn pull_request() -> PrInfo {
    PrInfo {
        number: 42,
        base_ref: "main".to_string(),
        head_ref: "topic".to_string(),
        repo_owner: "o".to_string(),
        repo_name: "r".to_string(),
    }
}

#[test]
fn anchors_are_digests_in_hexadecimal() {
    assert_eq!(
        generate_file_anchor("abc"),
        "ba7816bf8f01cfea414140de5dae2223b00361a396177a9cb410ff61f20015ad"
    );
    assert_eq!(
        generate_file_anchor(""),
        "e3b0c44298fc1c149afbf4c8996fb92427ae41e4649b934ca495991b7852b855"
    );
    assert_eq!(hex_text(&vec![0, 15, 16, 255]), "000f10ff");
}

#[test]
fn addresses_of_files_in_pull_requests() {
    assert_eq!(
        file_url(&pull_request(), "abc"),
        "https://github.com/o/r/pull/42/files#diff-\
ba7816bf8f01cfea414140de5dae2223b00361a396177a9cb410ff61f20015ad"
    );
}

#[test]
fn references_of_diffs() {
    let single = Some(CommitReference::Single("HEAD".to_string()));
    let range = Some(CommitReference::Range { from: "a".to_string(), to: "b".to_string() });
    let dots = Some(CommitReference::TripleDots { from: "a".to_string(), to: "b".to_string() });
    assert_eq!(diff_reference(&None, &single).as_deref(), Some("HEAD"));
    assert_eq!(diff_reference(&None, &range).as_deref(), Some("a..b"));
    assert_eq!(diff_reference(&None, &dots).as_deref(), Some("a...b"));
    assert_eq!(diff_reference(&None, &None), None);
    assert_eq!(
        diff_reference(&Some(pull_request()), &single).as_deref(),
        Some("PR #42 (main...topic)")
    );
    assert_eq!(reference_to_resolve(&single).as_deref(), Some("HEAD"));
    assert_eq!(reference_to_resolve(&range).as_deref(), Some("b"));
    assert_eq!(reference_to_resolve(&dots).as_deref(), Some("b"));
    assert_eq!(reference_to_resolve(&None), None);
}

#[test]
fn scopes_follow_the_stack_then_the_commit_then_the_tree() {
    let mut state = AppState::new(Vec::new(), "git".to_string());
    let commit = Some("c".to_string());
    let base = Some("b".to_string());
    match determine_scope(&state, commit.clone(), base.clone()) {
        Some(DiffScope::Commit { commit_id }) => assert_eq!(commit_id, "c"),
        other => panic!("{:?}", other),
    }
    match determine_scope(&state, None, base.clone()) {
        Some(DiffScope::WorkingTree { base_commit_id }) => assert_eq!(base_commit_id, "b"),
        other => panic!("{:?}", other),
    }
    assert!(determine_scope(&state, None, None).is_none());
    state.stacked_mode = true;
    state.stacked_commits = vec![StackedCommitInfo { commit_id: "s".to_string() }];
    match determine_scope(&state, commit.clone(), base.clone()) {
        Some(DiffScope::Commit { commit_id }) => assert_eq!(commit_id, "s"),
        other => panic!("{:?}", other),
    }
    state.current_commit_index = 1;
    assert!(determine_scope(&state, commit, base).is_none());
}

#[test]
fn the_clock_runs() {
    assert!(current_timestamp() > 1_600_000_000);
    assert_eq!(time_of_reading(None), TimePoint { secs: 0, nanos: 0 });
    let t = TimePoint { secs: 3, nanos: 4 };
    assert_eq!(time_of_reading(Some(t)), t);
    assert_eq!(timestamp_of_reading(None), 0);
    assert_eq!(timestamp_of_reading(Some(t)), 3);
}
