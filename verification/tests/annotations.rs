use lumen::annotation_list::{annotation_order, can_be_cut, cut_line, format_annotation_preview};
use lumen::diff::{ChangeType, DiffLine, FileDiff, FileStatus, HunkRange};
use lumen::persistence::{
    load_annotation_file, to_persistent, AnnotationFile, AnnotationScope, DiffScope, Job, Pending,
    PersistenceManager, PersistentAnnotation, Request, STORAGE_VERSION,
};
use lumen::state::{AppState, HunkAnnotation, TimePoint};
use lumen::storage::StorageError;

fn file(name: &str, line: usize) -> FileDiff {
    FileDiff {
        filename: name.to_string(),
        old_content: String::new(),
        new_content: "x".to_string(),
        status: FileStatus::Added,
        is_binary: false,
        rows: vec![DiffLine {
            old_line: None,
            new_line: Some((line, format!("text {}", line))),
            change_type: ChangeType::Insert,
        }],
        hunks: vec![HunkRange { start: 0, end: 1 }],
    }
}

fn state_of(files: Vec<FileDiff>) -> AppState {
    AppState::new(files, "git".to_string())
}

fn note(id: &str, file_index: usize, filename: &str) -> HunkAnnotation {
    HunkAnnotation {
        id: id.to_string(),
        file_index,
        hunk_index: 0,
        content: format!("note {}", id),
        line_range: (4, 4),
        filename: filename.to_string(),
        created_at: TimePoint { secs: 11, nanos: 5 },
    }
}

fn stored(id: &str, filename: &str, line: usize) -> PersistentAnnotation {
    PersistentAnnotation {
        id: id.to_string(),
        filename: filename.to_string(),
        old_line_range: None,
        new_line_range: Some((line, line)),
        context_before: vec![],
        context_changed: vec![],
        context_after: vec![],
        diff_text: String::new(),
        content: format!("note {}", id),
        created_at: 3,
        diff_reference: None,
        change_type: "addition".to_string(),
        origin_scope: None,
        origin_commit_id: None,
        origin_base_commit_id: None,
    }
}

fn ids(file: &AnnotationFile) -> Vec<String> {
    file.annotations.iter().map(|a| a.id.clone()).collect()
}

fn tree(base: &str) -> DiffScope {
    DiffScope::WorkingTree { base_commit_id: base.to_string() }
}

fn manager() -> PersistenceManager {
    PersistenceManager::try_new(None, None, 1).unwrap()
}

#[test]
fn test_load_annotation_file_missing() {
    let file = load_annotation_file(None, AnnotationScope::WorkingTree, 9).unwrap();
    assert_eq!(file.version, STORAGE_VERSION);
    assert_eq!(file.scope, AnnotationScope::WorkingTree);
    assert!(file.annotations.is_empty());
}

#[test]
fn test_save_and_load_annotation_file() {
    let mut file = AnnotationFile::new(AnnotationScope::WorkingTree);
    file.base_commit_id = Some("abc".to_string());
    file.annotations.push(PersistentAnnotation {
        id: "id".to_string(),
        filename: "file.rs".to_string(),
        old_line_range: Some((1, 2)),
        new_line_range: Some((1, 2)),
        context_before: vec![],
        context_changed: vec!["- old".to_string(), "+ new".to_string()],
        context_after: vec![],
        diff_text: "- old\n+ new\n".to_string(),
        content: "note".to_string(),
        created_at: 1,
        diff_reference: None,
        change_type: "modification".to_string(),
        origin_scope: Some(AnnotationScope::WorkingTree),
        origin_commit_id: None,
        origin_base_commit_id: Some("abc".to_string()),
    });

    let loaded = load_annotation_file(Some(file), AnnotationScope::WorkingTree, 0).unwrap();
    assert_eq!(loaded.annotations.len(), 1);
    assert_eq!(loaded.base_commit_id.as_deref(), Some("abc"));
}

#[test]
fn later_annotation_files_are_refused() {
    let mut file = AnnotationFile::new_at(AnnotationScope::Commit, 1);
    file.version = 2;
    assert_eq!(
        load_annotation_file(Some(file), AnnotationScope::Orphans, 0).err(),
        Some(StorageError::UnsupportedVersion(2))
    );
    let mut file = AnnotationFile::new_at(AnnotationScope::Commit, 1);
    file.version = 7;
    assert_eq!(
        PersistenceManager::try_new(None, Some(file), 0).err(),
        Some(StorageError::UnsupportedVersion(7))
    );
}

#[test]
fn loaded_file_takes_the_scope_that_was_asked_for() {
    let file = AnnotationFile::new_at(AnnotationScope::Commit, 1);
    let loaded = load_annotation_file(Some(file), AnnotationScope::Orphans, 0).unwrap();
    assert_eq!(loaded.scope, AnnotationScope::Orphans);
    assert_eq!(loaded.last_updated, 1);
}

#[test]
fn new_files_are_stamped_by_the_clock() {
    let mut file = AnnotationFile::new(AnnotationScope::Orphans);
    assert!(file.last_updated > 1_600_000_000);
    file.touch_at(7);
    assert_eq!(file.last_updated, 7);
    file.touch();
    assert!(file.last_updated > 1_600_000_000);
}

#[test]
fn upsert_replaces_the_same_id_in_place() {
    let mut file = AnnotationFile::new_at(AnnotationScope::Commit, 1);
    file.upsert_at(stored("a", "f", 1), 2);
    file.upsert_at(stored("b", "f", 2), 3);
    file.upsert_at(stored("a", "g", 9), 4);
    assert_eq!(ids(&file), vec!["a", "b"]);
    assert_eq!(file.annotations[0].filename, "g");
    assert_eq!(file.last_updated, 4);
    file.upsert_at(stored("a", "g", 9), 4);
    assert_eq!(ids(&file), vec!["a", "b"]);
    file.upsert(stored("c", "h", 1));
    assert_eq!(ids(&file), vec!["a", "b", "c"]);
}

#[test]
fn removal_takes_one_id_away_and_says_so() {
    let mut file = AnnotationFile::new_at(AnnotationScope::Commit, 1);
    file.upsert_at(stored("a", "f", 1), 2);
    file.upsert_at(stored("b", "f", 2), 3);
    assert!(!file.remove_by_id_at("zz", 9));
    assert_eq!(file.last_updated, 3);
    assert!(file.remove_by_id_at("b", 9));
    assert_eq!(file.last_updated, 9);
    assert_eq!(ids(&file), vec!["a"]);
    assert!(file.remove_by_id("a"));
    assert!(file.annotations.is_empty());
}

#[test]
fn storing_and_loading_in_a_working_tree() {
    let mut state = state_of(vec![file("a.rs", 4), file("b.rs", 9)]);
    state.diff_reference = Some("HEAD".to_string());
    let mut m = manager();
    let scope = tree("b1");
    // The working tree has no base yet: it is saved with its base first.
    let pending = match m.upsert_annotation(&state, &note("n1", 1, "b.rs"), &scope, 20) {
        Request::SaveWorkingTree(p) => p,
        other => panic!("{:?}", other),
    };
    assert_eq!(m.working_tree.base_commit_id.as_deref(), Some("b1"));
    assert!(m.working_tree.annotations.is_empty());
    let pending = match m.resume(&mut state, pending, 21) {
        Request::SaveWorkingTree(p) => p,
        other => panic!("{:?}", other),
    };
    assert_eq!(ids(&m.working_tree), vec!["n1"]);
    assert!(matches!(m.resume(&mut state, pending, 22), Request::Done));
    let kept = &m.working_tree.annotations[0];
    assert_eq!(kept.new_line_range, Some((9, 9)));
    assert_eq!(kept.context_changed, vec!["+ text 9".to_string()]);
    assert_eq!(kept.origin_scope, Some(AnnotationScope::WorkingTree));
    assert_eq!(kept.origin_base_commit_id.as_deref(), Some("b1"));
    assert_eq!(kept.origin_commit_id, None);
    assert_eq!(kept.diff_reference.as_deref(), Some("HEAD"));
    assert_eq!(kept.created_at, 11);

    state.annotations.push(note("stale", 0, "a.rs"));
    assert!(matches!(m.load_for_scope(&mut state, &scope, 30), Request::Done));
    assert_eq!(state.annotations.len(), 1);
    assert_eq!(state.annotations[0].id, "n1");
    assert_eq!(state.annotations[0].file_index, 1);
    assert_eq!(state.annotations[0].hunk_index, 0);
    assert_eq!(state.annotations[0].line_range, (9, 9));
    assert_eq!(state.annotations[0].created_at, TimePoint { secs: 11, nanos: 0 });

    let request = m.remove_annotation(&note("n1", 1, "b.rs"), &scope, 40);
    assert!(matches!(request, Request::SaveWorkingTree(Pending::Finish)));
    assert!(m.working_tree.annotations.is_empty());
}

#[test]
fn changing_the_base_moves_annotations_to_the_orphans() {
    let mut state = state_of(vec![file("a.rs", 4)]);
    let mut m = manager();
    m.working_tree.base_commit_id = Some("old".to_string());
    m.working_tree.annotations.push(stored("w1", "a.rs", 4));
    m.working_tree.annotations.push(stored("w2", "zz.rs", 4));
    m.orphans.annotations.push(stored("o1", "a.rs", 4));
    let pending = match m.load_for_scope(&mut state, &tree("new"), 50) {
        Request::SaveOrphans(p) => p,
        other => panic!("{:?}", other),
    };
    assert!(m.working_tree.annotations.is_empty());
    assert_eq!(m.working_tree.base_commit_id.as_deref(), Some("old"));
    assert_eq!(ids(&m.orphans), vec!["o1", "w1", "w2"]);
    assert_eq!(m.orphans.last_updated, 50);
    assert_eq!(m.orphans.annotations[1].origin_scope, Some(AnnotationScope::WorkingTree));
    assert_eq!(m.orphans.annotations[1].origin_base_commit_id.as_deref(), Some("old"));
    assert_eq!(m.orphans.annotations[0].origin_scope, None);
    let pending = match m.resume(&mut state, pending, 51) {
        Request::SaveWorkingTree(p) => p,
        other => panic!("{:?}", other),
    };
    assert_eq!(m.working_tree.base_commit_id.as_deref(), Some("new"));
    assert!(matches!(m.resume(&mut state, pending, 52), Request::Done));
    assert!(state.annotations.is_empty());
}

#[test]
fn opening_a_commit_migrates_what_belongs_to_it() {
    let mut state = state_of(vec![file("a.rs", 4)]);
    let mut m = manager();
    m.working_tree.annotations.push(stored("w1", "a.rs", 4));
    m.working_tree.annotations.push(stored("w2", "b.rs", 4));
    m.orphans.annotations.push(stored("o1", "a.rs", 4));
    m.orphans.annotations.push(stored("o2", "a.rs", 77));
    let scope = DiffScope::Commit { commit_id: "c9".to_string() };
    let (commit_id, job) = match m.load_for_scope(&mut state, &scope, 60) {
        Request::ReadCommit { commit_id, job } => (commit_id, job),
        other => panic!("{:?}", other),
    };
    assert_eq!(commit_id, "c9");
    assert!(matches!(job, Job::Load));
    let mut read = AnnotationFile::new_at(AnnotationScope::Commit, 1);
    read.annotations.push(stored("c1", "a.rs", 4));
    let pending = match m.resume_with_commit(&state, commit_id, job, read, 61) {
        Request::SaveWorkingTree(p) => p,
        other => panic!("{:?}", other),
    };
    assert_eq!(ids(&m.working_tree), vec!["w2"]);
    assert_eq!(ids(&m.orphans), vec!["o1", "o2"]);
    let pending = match m.resume(&mut state, pending, 62) {
        Request::SaveOrphans(p) => p,
        other => panic!("{:?}", other),
    };
    assert_eq!(ids(&m.orphans), vec!["o2"]);
    assert!(state.annotations.is_empty());
    let file = match m.resume(&mut state, pending, 63) {
        Request::SaveCommit { commit_id, file } => {
            assert_eq!(commit_id, "c9");
            file
        }
        other => panic!("{:?}", other),
    };
    assert_eq!(ids(&file), vec!["c1", "w1", "o1"]);
    assert_eq!(file.commit_id.as_deref(), Some("c9"));
    assert_eq!(file.annotations[1].origin_scope, Some(AnnotationScope::Commit));
    assert_eq!(file.annotations[1].origin_commit_id.as_deref(), Some("c9"));
    assert_eq!(state.annotations.len(), 3);
}

#[test]
fn storing_in_a_commit() {
    let state = state_of(vec![file("a.rs", 4)]);
    let mut m = manager();
    let scope = DiffScope::Commit { commit_id: "c9".to_string() };
    let (commit_id, job) = match m.upsert_annotation(&state, &note("n1", 0, "a.rs"), &scope, 70) {
        Request::ReadCommit { commit_id, job } => (commit_id, job),
        other => panic!("{:?}", other),
    };
    let read = AnnotationFile::new_at(AnnotationScope::Commit, 1);
    let file = match m.resume_with_commit(&state, commit_id, job, read, 71) {
        Request::SaveCommit { file, .. } => file,
        other => panic!("{:?}", other),
    };
    assert_eq!(ids(&file), vec!["n1"]);
    assert_eq!(file.annotations[0].origin_commit_id.as_deref(), Some("c9"));
    let (commit_id, job) = match m.remove_annotation(&note("n1", 0, "a.rs"), &scope, 72) {
        Request::ReadCommit { commit_id, job } => (commit_id, job),
        other => panic!("{:?}", other),
    };
    match m.resume_with_commit(&state, commit_id, job, file, 73) {
        Request::SaveCommit { file, .. } => assert!(file.annotations.is_empty()),
        other => panic!("{:?}", other),
    }
}

#[test]
fn stored_annotations_keep_the_context_of_their_hunk() {
    let state = state_of(vec![file("a.rs", 4)]);
    let p = to_persistent(&note("n", 0, "a.rs"), &state, &tree("b"));
    assert_eq!(p.diff_text, "+ text 4\n");
    assert_eq!(p.change_type, "addition");
    assert_eq!(p.content, "note n");
}

#[test]
fn names_of_annotation_files() {
    let m = manager();
    assert_eq!(m.working_tree_path(), "working-tree.json");
    assert_eq!(m.orphans_path(), "orphans.json");
    assert_eq!(m.commit_path("abc"), "abc.json");
}

#[test]
fn annotations_are_listed_by_age() {
    let mut list = vec![note("a", 0, "f"), note("b", 0, "f"), note("c", 0, "f"), note("d", 0, "f")];
    list[0].created_at = TimePoint { secs: 5, nanos: 1 };
    list[1].created_at = TimePoint { secs: 2, nanos: 9 };
    list[2].created_at = TimePoint { secs: 5, nanos: 0 };
    list[3].created_at = TimePoint { secs: 2, nanos: 9 };
    assert_eq!(annotation_order(&list), vec![1, 3, 2, 0]);
}

#[test]
fn previews_show_the_first_line() {
    let mut a = note("a", 0, "src/long/name.rs");
    a.content = "first\r\nsecond".to_string();
    assert_eq!(format_annotation_preview(&a, "name.rs", "now"), "name.rs:4-4 | first | now");
    a.content = "1234567890123456789012345678901234567890X".to_string();
    assert_eq!(
        format_annotation_preview(&a, "n", "t"),
        "n:4-4 | 1234567890123456789012345678901234567890... | t"
    );
    a.content = String::new();
    assert_eq!(format_annotation_preview(&a, "n", "t"), "n:4-4 |  | t");
}

#[test]
fn lines_are_cut_behind_forty_bytes() {
    let forty = "\u{e9}".repeat(20);
    assert_eq!(cut_line(&forty), forty);
    let more = format!("{}z", forty);
    assert_eq!(cut_line(&more), format!("{}...", forty));
    assert!(can_be_cut(&more));
    assert!(can_be_cut(&format!("x{}", "\u{e9}".repeat(19))));
    assert!(!can_be_cut(&format!("x{}", forty)));
}
