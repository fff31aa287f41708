use lumen::diff::{
    build_hunk_context, compute_hunk_line_range, contexts_similar, extract_hunk_context,
    find_matching_hunk, hunk_change_bounds, hunk_changed_lines, ChangeType, DiffLine, FileDiff,
    FileStatus, HunkRange,
};
use lumen::marks::{find_place_of_mark, new_mark, HunkMark};
use lumen::persistence::DiffScope;
use lumen::review::{load_review_file, ReviewFile, ReviewManager, ReviewScope, REVIEW_VERSION};
use lumen::state::AppState;
use lumen::storage::{
    find_repo_root, invalid_message, scope_file_name, unsupported_message, Probe, StorageError,
    StoredFile,
};
use lumen::tag_names::normalize_tags;
use lumen::tags::{
    load_index_file, load_tag_file, PersistentHunkTags, TagFile, TagIndexFile, TagManager, TagScope,
    TAGS_VERSION,
};

fn strings(list: &[&str]) -> Vec<String> {
    list.iter().map(|s| s.to_string()).collect()
}

fn row(kind: ChangeType, old: Option<(usize, &str)>, new: Option<(usize, &str)>) -> DiffLine {
    DiffLine {
        old_line: old.map(|(n, t)| (n, t.to_string())),
        new_line: new.map(|(n, t)| (n, t.to_string())),
        change_type: kind,
    }
}

fn equal(old: usize, new: usize, text: &str) -> DiffLine {
    row(ChangeType::Equal, Some((old, text)), Some((new, text)))
}

/// Two hunks: a modification with an insertion behind it, and a deletion.
fn sample(name: &str) -> FileDiff {
    FileDiff {
        filename: name.to_string(),
        old_content: "old".to_string(),
        new_content: "new".to_string(),
        status: FileStatus::Modified,
        is_binary: false,
        rows: vec![
            equal(1, 1, "a"),
            equal(2, 2, "b"),
            equal(3, 3, "c"),
            equal(4, 4, "d"),
            row(ChangeType::Modified, Some((5, "x")), Some((5, "y"))),
            row(ChangeType::Insert, None, Some((6, "z"))),
            equal(6, 7, "e"),
            equal(7, 8, "f"),
            row(ChangeType::Delete, Some((8, "gone")), None),
            equal(9, 9, "g"),
        ],
        hunks: vec![HunkRange { start: 1, end: 7 }, HunkRange { start: 7, end: 10 }],
    }
}

fn state_of(files: Vec<FileDiff>) -> AppState {
    AppState::new(files, "git".to_string())
}

fn tree() -> DiffScope {
    DiffScope::WorkingTree { base_commit_id: "base".to_string() }
}

#[test]
fn change_bounds_are_first_and_last_change() {
    let file = sample("a.rs");
    assert_eq!(hunk_change_bounds(&file.rows, file.hunks[0]), Some((4, 5)));
    assert_eq!(hunk_change_bounds(&file.rows, file.hunks[1]), Some((8, 8)));
    assert_eq!(hunk_change_bounds(&file.rows, HunkRange { start: 0, end: 4 }), None);
}

#[test]
fn context_of_a_modification() {
    let files = vec![sample("a.rs")];
    let c = build_hunk_context(&files, 0, 0).unwrap();
    assert_eq!(c.old_line_range, Some((5, 5)));
    assert_eq!(c.new_line_range, Some((5, 6)));
    assert_eq!(c.context_before, strings(&["b", "c", "d"]));
    assert_eq!(c.context_changed, strings(&["- x", "+ y", "+ z"]));
    assert_eq!(c.context_after, strings(&["e", "f", "gone"]));
    assert_eq!(c.diff_text, "- x\n+ y\n+ z\n");
    assert_eq!(c.change_type, "modification");
}

#[test]
fn context_of_a_deletion_ends_with_the_file() {
    let files = vec![sample("a.rs")];
    let c = build_hunk_context(&files, 0, 1).unwrap();
    assert_eq!(c.old_line_range, Some((8, 8)));
    assert_eq!(c.new_line_range, None);
    assert_eq!(c.context_after, strings(&["g"]));
    assert_eq!(c.change_type, "deletion");
}

#[test]
fn context_of_an_addition() {
    let mut file = sample("a.rs");
    file.rows = vec![row(ChangeType::Insert, None, Some((1, "n")))];
    file.hunks = vec![HunkRange { start: 0, end: 1 }];
    let c = build_hunk_context(&vec![file], 0, 0).unwrap();
    assert_eq!(c.change_type, "addition");
    assert_eq!(c.old_line_range, None);
    assert_eq!(c.new_line_range, Some((1, 1)));
}

#[test]
fn missing_hunks_have_no_context() {
    let files = vec![sample("a.rs")];
    assert!(build_hunk_context(&files, 0, 2).is_none());
    assert!(build_hunk_context(&files, 1, 0).is_none());
}

#[test]
fn missing_hunks_fall_back_to_the_whole_file() {
    let files = vec![sample("a.rs")];
    let c = extract_hunk_context(&files, 0, 9);
    assert_eq!(c.context_changed, strings(&["- x", "+ y", "+ z", "- gone"]));
    assert_eq!(c.old_line_range, Some((5, 8)));
}

#[test]
fn line_range_of_a_hunk() {
    let files = vec![sample("a.rs")];
    assert_eq!(compute_hunk_line_range(&files, 0, 0), Some((5, 6)));
    assert_eq!(compute_hunk_line_range(&files, 0, 1), Some((8, 8)));
    assert_eq!(compute_hunk_line_range(&files, 0, 2), None);
}

#[test]
fn hunks_are_found_by_new_range_then_old_range_then_lines() {
    let files = vec![sample("a.rs")];
    let none = Vec::new();
    assert_eq!(find_matching_hunk(&files, 0, Some((6, 6)), Some((8, 8)), &none), Some(0));
    assert_eq!(find_matching_hunk(&files, 0, Some((90, 91)), Some((8, 8)), &none), Some(1));
    assert_eq!(find_matching_hunk(&files, 0, None, None, &strings(&["- gone"])), Some(1));
    assert_eq!(find_matching_hunk(&files, 0, None, None, &none), None);
    assert_eq!(find_matching_hunk(&files, 3, Some((6, 6)), None, &none), None);
}

#[test]
fn four_fifths_of_the_lines_are_similar() {
    let five = strings(&["1", "2", "3", "4", "5"]);
    assert!(contexts_similar(&five, &strings(&["1", "2", "3", "4", "x"])));
    assert!(!contexts_similar(&five, &strings(&["1", "2", "3", "y", "x"])));
    assert!(!contexts_similar(&five, &strings(&["1", "2", "3", "4", "5", "6", "7"])));
    assert!(!contexts_similar(&Vec::new(), &five));
    assert!(!contexts_similar(&five, &Vec::new()));
}

#[test]
fn changed_lines_are_marked() {
    let file = sample("a.rs");
    assert_eq!(hunk_changed_lines(&file.rows, 0, 6), strings(&["- x", "+ y", "+ z"]));
}

#[test]
fn stored_context_leads_back_to_its_hunk() {
    let files = vec![sample("a.rs")];
    for h in 0..2 {
        let c = build_hunk_context(&files, 0, h).unwrap();
        let found =
            find_matching_hunk(&files, 0, c.new_line_range, c.old_line_range, &c.context_changed);
        assert_eq!(found, Some(h));
    }
}

#[test]
fn marks_find_their_hunk_or_fall_back_to_the_position() {
    let files = vec![sample("a.rs"), sample("b.rs")];
    let mark = new_mark(&files, 1, 1);
    assert_eq!(find_place_of_mark(&files, &mark), Some((1, 1)));
    let bare = HunkMark {
        filename: "b.rs".to_string(),
        hunk_index: 0,
        old_line_range: None,
        new_line_range: None,
        context_changed: Vec::new(),
    };
    assert_eq!(find_place_of_mark(&files, &bare), Some((1, 0)));
    let lost = HunkMark { hunk_index: 7, ..bare };
    assert_eq!(find_place_of_mark(&files, &lost), None);
    let elsewhere = HunkMark { filename: "c.rs".to_string(), ..lost };
    assert_eq!(find_place_of_mark(&files, &elsewhere), None);
}

#[test]
fn of_files_with_one_name_the_last_has_the_mark() {
    let files = vec![sample("a.rs"), sample("a.rs")];
    let mark = new_mark(&files, 0, 0);
    assert_eq!(find_place_of_mark(&files, &mark), Some((1, 0)));
}

#[test]
fn tags_are_normalized() {
    let tags = strings(&["  b ", "a", "", "b", "\u{a0}", "B"]);
    let normal = normalize_tags(tags);
    assert_eq!(normal, strings(&["B", "a", "b"]));
    let again = normalize_tags(normal.clone());
    assert_eq!(again, normal);
}

fn empty_tag_file() -> TagFile {
    load_tag_file(None, &tree(), 5).unwrap()
}

#[test]
fn missing_tag_file_is_empty() {
    let file = empty_tag_file();
    assert_eq!(file.version, TAGS_VERSION);
    assert_eq!(file.last_updated, 5);
    assert_eq!(file.scope, TagScope::WorkingTree);
    assert_eq!(file.base_commit_id.as_deref(), Some("base"));
    assert_eq!(file.commit_id, None);
    assert!(file.hunks.is_empty());
    let commit = DiffScope::Commit { commit_id: "c1".to_string() };
    let file = load_tag_file(None, &commit, 5).unwrap();
    assert_eq!(file.scope, TagScope::Commit);
    assert_eq!(file.commit_id.as_deref(), Some("c1"));
    assert_eq!(file.base_commit_id, None);
}

#[test]
fn later_tag_files_are_refused() {
    let mut file = empty_tag_file();
    file.version = TAGS_VERSION + 1;
    assert_eq!(
        load_tag_file(Some(file), &tree(), 0).err(),
        Some(StorageError::UnsupportedVersion(3))
    );
    let index = TagIndexFile { version: 9, last_updated: 0, tags: Vec::new() };
    assert_eq!(load_index_file(Some(index), 0).err(), Some(StorageError::UnsupportedVersion(9)));
}

#[test]
fn earlier_tag_index_is_brought_up_to_date() {
    let index = TagIndexFile { version: 1, last_updated: 3, tags: strings(&["t"]) };
    let manager = TagManager::try_new(Some(index), 0).unwrap();
    assert_eq!(manager.index.version, TAGS_VERSION);
    assert_eq!(manager.index.last_updated, 3);
    assert_eq!(manager.tags(), &strings(&["t"]));
}

#[test]
fn tags_that_were_set_are_shown_again() {
    let mut state = state_of(vec![sample("a.rs"), sample("b.rs")]);
    let mut manager = TagManager::try_new(None, 0).unwrap();
    let (file, tags) = manager
        .set_hunk_tags(&state, 1, 0, strings(&[" todo ", "bug", "bug"]), empty_tag_file(), 7)
        .unwrap();
    assert_eq!(tags, strings(&["bug", "todo"]));
    assert_eq!(file.last_updated, 7);
    assert_eq!(file.hunks.len(), 1);
    assert_eq!(file.hunks[0].mark.new_line_range, Some((5, 6)));
    assert!(manager.merge_tags(tags, 8));
    assert_eq!(manager.tags(), &strings(&["bug", "todo"]));
    manager.load_for_scope(&mut state, Some(file));
    assert_eq!(state.tag_inventory, strings(&["bug", "todo"]));
    assert_eq!(state.hunk_tags.len(), 1);
    assert_eq!(state.hunk_tags[0].file_index, 1);
    assert_eq!(state.hunk_tags[0].hunk_index, 0);
    assert_eq!(state.hunk_tags[0].tags, strings(&["bug", "todo"]));
}

#[test]
fn setting_tags_again_replaces_them_and_setting_none_removes_them() {
    let state = state_of(vec![sample("a.rs")]);
    let manager = TagManager::try_new(None, 0).unwrap();
    let (file, _) =
        manager.set_hunk_tags(&state, 0, 1, strings(&["x"]), empty_tag_file(), 1).unwrap();
    let (file, _) = manager.set_hunk_tags(&state, 0, 1, strings(&["y"]), file, 2).unwrap();
    assert_eq!(file.hunks.len(), 1);
    assert_eq!(file.hunks[0].tags, strings(&["y"]));
    let (file, tags) = manager.set_hunk_tags(&state, 0, 1, strings(&["  "]), file, 3).unwrap();
    assert!(file.hunks.is_empty());
    assert!(tags.is_empty());
    assert_eq!(file.last_updated, 3);
}

#[test]
fn tags_move_with_a_hunk_that_is_found_by_its_lines() {
    let state = state_of(vec![sample("a.rs")]);
    let manager = TagManager::try_new(None, 0).unwrap();
    let mut file = empty_tag_file();
    file.hunks.push(PersistentHunkTags {
        mark: HunkMark {
            filename: "a.rs".to_string(),
            hunk_index: 6,
            old_line_range: Some((8, 8)),
            new_line_range: None,
            context_changed: Vec::new(),
        },
        tags: strings(&["old"]),
    });
    let (file, _) = manager.set_hunk_tags(&state, 0, 1, strings(&["new"]), file, 1).unwrap();
    assert_eq!(file.hunks.len(), 1);
    assert_eq!(file.hunks[0].mark.hunk_index, 1);
    assert_eq!(file.hunks[0].tags, strings(&["new"]));
}

#[test]
fn clearing_tags_clears_those_that_lead_to_the_hunk() {
    let mut state = state_of(vec![sample("a.rs")]);
    let manager = TagManager::try_new(None, 0).unwrap();
    let mut file = empty_tag_file();
    for (hunk_index, lines) in [(0, (8, 8)), (1, (5, 5)), (0, (5, 5))] {
        file.hunks.push(PersistentHunkTags {
            mark: HunkMark {
                filename: "a.rs".to_string(),
                hunk_index,
                old_line_range: Some(lines),
                new_line_range: None,
                context_changed: Vec::new(),
            },
            tags: strings(&["a"]),
        });
    }
    manager.load_for_scope(&mut state, Some(file));
    let places: Vec<usize> = state.hunk_tags.iter().map(|t| t.hunk_index).collect();
    assert_eq!(places, vec![1, 0, 0]);

    let mut file = empty_tag_file();
    file.hunks.push(PersistentHunkTags {
        mark: HunkMark {
            filename: "a.rs".to_string(),
            hunk_index: 0,
            old_line_range: Some((8, 8)),
            new_line_range: None,
            context_changed: Vec::new(),
        },
        tags: strings(&["a"]),
    });
    let (file, _) = manager.set_hunk_tags(&state, 0, 1, Vec::new(), file, 1).unwrap();
    assert!(file.hunks.is_empty());
    manager.load_for_scope(&mut state, Some(file));
    assert!(state.hunk_tags.is_empty());
}

#[test]
fn tags_of_a_missing_file_are_not_set() {
    let state = state_of(vec![sample("a.rs")]);
    let manager = TagManager::try_new(None, 0).unwrap();
    assert!(manager.set_hunk_tags(&state, 4, 0, strings(&["x"]), empty_tag_file(), 1).is_none());
}

#[test]
fn known_tags_leave_the_index_alone() {
    let mut manager = TagManager::try_new(None, 0).unwrap();
    assert!(manager.merge_tags(strings(&["b", "a"]), 4));
    assert_eq!(manager.index.last_updated, 4);
    assert!(!manager.merge_tags(strings(&["a"]), 9));
    assert_eq!(manager.index.last_updated, 4);
    assert!(manager.merge_tags(strings(&["aa", "a"]), 10));
    assert_eq!(manager.tags(), &strings(&["a", "aa", "b"]));
    assert!(!manager.merge_tags(Vec::new(), 11));
}

#[test]
fn unusable_tag_file_shows_no_tags() {
    let mut state = state_of(vec![sample("a.rs")]);
    let mut manager = TagManager::try_new(None, 0).unwrap();
    manager.merge_tags(strings(&["k"]), 1);
    manager.load_for_scope(&mut state, None);
    assert!(state.hunk_tags.is_empty());
    assert_eq!(state.tag_inventory, strings(&["k"]));
}

fn empty_review_file() -> ReviewFile {
    load_review_file(None, &tree(), 2).unwrap()
}

#[test]
fn missing_review_file_is_empty_and_later_ones_are_refused() {
    let file = empty_review_file();
    assert_eq!(file.version, REVIEW_VERSION);
    assert_eq!(file.scope, ReviewScope::WorkingTree);
    assert!(file.hunks.is_empty());
    let mut later = empty_review_file();
    later.version = 4;
    assert_eq!(
        load_review_file(Some(later), &tree(), 0).err(),
        Some(StorageError::UnsupportedVersion(4))
    );
}

#[test]
fn reviewed_hunk_is_shown_again_and_can_be_taken_back() {
    let mut state = state_of(vec![sample("a.rs")]);
    let probes = vec![Probe { git_exists: true, jj_is_dir: false }];
    let manager = ReviewManager::try_new(&probes).unwrap();
    let file = manager.set_hunk_reviewed(&state, 0, 1, true, empty_review_file(), 3).unwrap();
    let file = manager.set_hunk_reviewed(&state, 0, 1, true, file, 4).unwrap();
    assert_eq!(file.hunks.len(), 1);
    assert_eq!(file.last_updated, 4);
    assert_eq!(file.hunks[0].old_line_range, Some((8, 8)));
    assert_eq!(file.hunks[0].context_changed, strings(&["- gone"]));
    let again = manager.set_hunk_reviewed(&state, 0, 1, true, file, 5).unwrap();
    let cleared = manager.set_hunk_reviewed(&state, 0, 0, false, again, 5).unwrap();
    assert_eq!(cleared.hunks.len(), 1);
    manager.load_for_scope(&mut state, Some(cleared));
    assert!(state.is_reviewed(0, 1));
    assert!(!state.is_reviewed(0, 0));
    manager.load_for_scope(&mut state, None);
    assert!(state.reviewed_hunks.is_empty());
    assert!(manager.set_hunk_reviewed(&state, 9, 0, true, empty_review_file(), 3).is_none());
}

#[test]
fn repository_root_is_the_innermost() {
    let none = Probe { git_exists: false, jj_is_dir: false };
    let git = Probe { git_exists: true, jj_is_dir: false };
    let jj = Probe { git_exists: false, jj_is_dir: true };
    assert_eq!(find_repo_root(&vec![none, jj, git]), Some(1));
    assert_eq!(find_repo_root(&vec![git]), Some(0));
    assert_eq!(find_repo_root(&vec![none, none]), None);
    assert!(ReviewManager::try_new(&vec![none]).is_none());
}

#[test]
fn files_of_scopes_and_messages() {
    assert_eq!(scope_file_name(&tree()), "working-tree.json");
    let commit = DiffScope::Commit { commit_id: "abc".to_string() };
    assert_eq!(scope_file_name(&commit), "abc.json");
    assert_eq!(
        unsupported_message(StoredFile::TagIndex, 12, "/r/index.json"),
        "unsupported tag index version 12 in /r/index.json"
    );
    assert_eq!(
        unsupported_message(StoredFile::Annotations, 2, "p"),
        "unsupported annotation version 2 in p"
    );
    assert_eq!(
        invalid_message(StoredFile::ViewState, "p", "eof"),
        "invalid view state file p: eof"
    );
    assert_eq!(invalid_message(StoredFile::TagIndex, "p", "e"), "invalid tag index p: e");
}
