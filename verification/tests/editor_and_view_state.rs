use lumen::diff::{ChangeType, DiffLine, FileDiff, FileStatus, HunkRange};
use lumen::keys::{Key, KeyCode};
use lumen::persistence::DiffScope;
use lumen::state::{AppState, FocusedPanel, ReviewFilter, TagFilter};
use lumen::storage::{Probe, StorageError};
use lumen::tag_editor::{modal_area, TagEditor, TagEditorResult};
use lumen::view_state::{ViewStateFile, ViewStateManager, VIEW_STATE_VERSION};

fn strings(list: &[&str]) -> Vec<String> {
    list.iter().map(|s| s.to_string()).collect()
}

fn plain(code: KeyCode) -> Key {
    Key { code, control: false, alt: false }
}

fn typed(c: char) -> Key {
    plain(KeyCode::Char(c))
}

fn editor(current: &[&str], available: &[&str]) -> TagEditor {
    TagEditor::new(1, 2, "src/a/b.rs".to_string(), (3, 9), strings(current), strings(available))
}

fn lines(e: &TagEditor) -> Vec<String> {
    e.list_lines()
        .iter()
        .map(|(chosen, tag)| format!("{}{}", if *chosen { "*" } else { "" }, tag))
        .collect()
}

fn saved(e: &mut TagEditor) -> Vec<String> {
    match e.handle_input(plain(KeyCode::Enter)) {
        TagEditorResult::Save(tags) => tags,
        other => panic!("{:?}", other),
    }
}

#[test]
fn new_editor_lists_all_tags() {
    let e = editor(&["b", " b "], &["c", "a", "b", ""]);
    assert_eq!((e.file_index, e.hunk_index), (1, 2));
    assert_eq!(lines(&e), strings(&["a", "*b", "c"]));
    assert_eq!(e.cursor_row(), Some(0));
    assert_eq!(e.title(), " b.rs \u{b7} L3-9 ");
    assert_eq!(e.tags_line(), "Tags: b");
    let empty = editor(&[], &[]);
    assert_eq!(empty.tags_line(), "Tags: (none)");
    assert_eq!(empty.cursor_row(), None);
    assert!(empty.selected_tag_from_list().is_none());
}

#[test]
fn cursor_stays_on_the_list() {
    let mut e = editor(&[], &["a", "b"]);
    e.handle_input(plain(KeyCode::Up));
    assert_eq!(e.cursor_row(), Some(0));
    e.handle_input(plain(KeyCode::Down));
    e.handle_input(plain(KeyCode::Down));
    assert_eq!(e.cursor_row(), Some(1));
    assert_eq!(e.selected_tag_from_list().map(|s| s.as_str()), Some("b"));
    e.handle_input(plain(KeyCode::Up));
    assert_eq!(e.cursor_row(), Some(0));
    e.handle_input(Key { code: KeyCode::Char('j'), control: true, alt: false });
    assert_eq!(e.cursor_row(), Some(1));
    e.handle_input(Key { code: KeyCode::Char('k'), control: true, alt: false });
    assert_eq!(e.cursor_row(), Some(0));
}

#[test]
fn any_letter_can_be_typed() {
    let mut e = editor(&[], &[]);
    for c in ['o', 'k', 'j'] {
        e.handle_input(typed(c));
    }
    assert_eq!(e.input(), "okj");
    e.handle_input(plain(KeyCode::Backspace));
    assert_eq!(saved(&mut e), strings(&["ok"]));
}

#[test]
fn typing_filters_without_regard_to_case() {
    let mut e = editor(&[], &["Bug", "feature", "DEBUG"]);
    for c in ['b', 'U'] {
        e.handle_input(typed(c));
    }
    assert_eq!(e.input(), "bU");
    assert_eq!(lines(&e), strings(&["Bug", "DEBUG"]));
    e.handle_input(typed('x'));
    assert!(lines(&e).is_empty());
    e.handle_input(plain(KeyCode::Backspace));
    assert_eq!(e.input(), "bU");
    e.handle_input(Key { code: KeyCode::Char('z'), control: true, alt: false });
    e.handle_input(Key { code: KeyCode::Char('z'), control: false, alt: true });
    assert_eq!(e.input(), "bU");
}

#[test]
fn space_toggles_the_tag_at_the_cursor() {
    let mut e = editor(&["b"], &["a", "b"]);
    e.handle_input(typed(' '));
    assert_eq!(lines(&e), strings(&["*a", "*b"]));
    assert_eq!(e.tags_line(), "Tags: a, b");
    e.handle_input(typed(' '));
    assert_eq!(lines(&e), strings(&["a", "*b"]));
}

#[test]
fn enter_saves_and_adds_what_was_typed() {
    let mut e = editor(&["b"], &["b"]);
    for c in ['a', 'b', 'c'] {
        e.handle_input(typed(c));
    }
    assert_eq!(saved(&mut e), strings(&["abc", "b"]));
    assert_eq!(e.input(), "");
    assert_eq!(lines(&e), strings(&["*abc", "*b"]));
    assert_eq!(saved(&mut e), strings(&["abc", "b"]));
}

#[test]
fn escape_and_control_c_cancel() {
    let mut e = editor(&[], &[]);
    assert!(matches!(e.handle_input(plain(KeyCode::Esc)), TagEditorResult::Cancel));
    let c = Key { code: KeyCode::Char('c'), control: true, alt: false };
    assert!(matches!(e.handle_input(c), TagEditorResult::Cancel));
    assert!(matches!(e.handle_input(plain(KeyCode::Tab)), TagEditorResult::Continue));
    assert!(matches!(e.handle_input(typed('c')), TagEditorResult::Continue));
    assert_eq!(e.input(), "c");
}

#[test]
fn dialog_is_in_the_middle() {
    let a = modal_area(100, 40);
    assert_eq!((a.x, a.y, a.width, a.height), (18, 14, 64, 12));
    let small = modal_area(10, 3);
    assert_eq!((small.x, small.y, small.width, small.height), (2, 1, 6, 0));
}

fn file(name: &str, rows: usize) -> FileDiff {
    FileDiff {
        filename: name.to_string(),
        old_content: String::new(),
        new_content: String::new(),
        status: FileStatus::Added,
        is_binary: false,
        rows: (0..rows)
            .map(|i| DiffLine {
                old_line: None,
                new_line: Some((i + 1, "l".to_string())),
                change_type: ChangeType::Insert,
            })
            .collect(),
        hunks: vec![HunkRange { start: 0, end: rows }],
    }
}

fn view_states() -> ViewStateManager {
    ViewStateManager::try_new(&vec![Probe { git_exists: true, jj_is_dir: false }]).unwrap()
}

#[test]
fn view_state_is_saved_and_restored() {
    let mut state =
        AppState::new(vec![file("a", 5), file("b", 9), file("c", 3)], "git".to_string());
    state.current_file = 1;
    state.scroll = 4;
    state.h_scroll = 8;
    state.focused_hunk = Some(0);
    state.viewed_files.insert(2);
    state.viewed_files.insert(0);
    state.viewed_files.insert(9);
    state.tag_filter = Some(TagFilter::Tag("bug".to_string()));
    state.review_filter = ReviewFilter::Unreviewed;
    let saved = view_states().save_for_scope(&state, 77);
    assert_eq!(saved.version, VIEW_STATE_VERSION);
    assert_eq!(saved.last_updated, 77);
    assert_eq!(saved.current_file.as_deref(), Some("b"));
    assert_eq!(saved.viewed_files, strings(&["a", "c"]));
    assert_eq!(saved.tag_filter.as_deref(), Some("tag:bug"));
    assert_eq!(saved.review_filter.as_deref(), Some("unreviewed"));

    let mut fresh =
        AppState::new(vec![file("a", 5), file("b", 9), file("c", 3)], "git".to_string());
    fresh.focused_panel = FocusedPanel::Sidebar;
    assert_eq!(view_states().load_for_scope(&mut fresh, Some(saved)), Ok(Some(1)));
    assert_eq!(fresh.current_file, 1);
    assert_eq!(fresh.scroll, 4);
    assert_eq!(fresh.h_scroll, 8);
    assert_eq!(fresh.focused_hunk, Some(0));
    assert_eq!(fresh.focused_panel, FocusedPanel::DiffView);
    assert!(fresh.viewed_files.contains(&0) && fresh.viewed_files.contains(&2));
    assert_eq!(fresh.viewed_files.len(), 2);
    assert!(matches!(&fresh.tag_filter, Some(TagFilter::Tag(t)) if t == "bug"));
    assert_eq!(fresh.review_filter, ReviewFilter::Unreviewed);
}

fn view(current: Option<&str>) -> ViewStateFile {
    ViewStateFile {
        version: 1,
        last_updated: 0,
        current_file: current.map(|s| s.to_string()),
        scroll: 50,
        h_scroll: 2,
        focused_hunk: Some(3),
        viewed_files: Vec::new(),
        tag_filter: None,
        review_filter: None,
    }
}

#[test]
fn restored_positions_keep_to_the_file() {
    let mut state = AppState::new(vec![file("a", 5)], "git".to_string());
    state.focused_hunk = Some(0);
    assert_eq!(view_states().load_for_scope(&mut state, Some(view(Some("gone")))), Ok(None));
    assert_eq!(state.current_file, 0);
    assert_eq!(state.scroll, 4);
    assert_eq!(state.focused_hunk, Some(0));
}

#[test]
fn scroll_is_restored_in_long_files() {
    let mut state = AppState::new(vec![file("a", 65_537)], "git".to_string());
    let mut stored = view(Some("a"));
    stored.scroll = 10;
    assert_eq!(view_states().load_for_scope(&mut state, Some(stored)), Ok(Some(0)));
    assert_eq!(state.scroll, 10);
    let mut stored = view(Some("a"));
    stored.scroll = u16::MAX;
    assert_eq!(view_states().load_for_scope(&mut state, Some(stored)), Ok(Some(0)));
    assert_eq!(state.scroll, u16::MAX);
}

#[test]
fn view_state_without_files_keeps_the_position() {
    let mut state = AppState::new(Vec::new(), "git".to_string());
    state.scroll = 7;
    assert_eq!(view_states().load_for_scope(&mut state, Some(view(None))), Ok(None));
    assert_eq!(state.scroll, 7);
    assert_eq!(state.h_scroll, 0);
}

#[test]
fn filters_are_read_from_their_texts() {
    let mut state = AppState::new(Vec::new(), "git".to_string());
    let cases = [
        ("tag:untagged", "untagged", "reviewed", ReviewFilter::Reviewed),
        ("tag:x:y", "x:y", "unreviewed", ReviewFilter::Unreviewed),
        ("tag:", "", "other", ReviewFilter::All),
        ("label:x", "none", "", ReviewFilter::All),
    ];
    for (tag, expected, review, filter) in cases {
        let mut v = view(None);
        v.tag_filter = Some(tag.to_string());
        v.review_filter = Some(review.to_string());
        view_states().load_for_scope(&mut state, Some(v)).unwrap();
        let found = match &state.tag_filter {
            Some(TagFilter::Untagged) => "untagged".to_string(),
            Some(TagFilter::Tag(t)) => t.clone(),
            None => "none".to_string(),
        };
        assert_eq!(found, expected);
        assert_eq!(state.review_filter, filter);
    }
}

#[test]
fn tag_named_untagged_reads_back_as_the_absence_of_tags() {
    let mut state = AppState::new(Vec::new(), "git".to_string());
    state.tag_filter = Some(TagFilter::Tag("untagged".to_string()));
    let saved = view_states().save_for_scope(&state, 0);
    view_states().load_for_scope(&mut state, Some(saved)).unwrap();
    assert!(matches!(state.tag_filter, Some(TagFilter::Untagged)));
}

#[test]
fn later_view_states_are_refused_and_missing_ones_change_nothing() {
    let mut state = AppState::new(vec![file("a", 5)], "git".to_string());
    let mut later = view(None);
    later.version = 2;
    assert_eq!(
        view_states().load_for_scope(&mut state, Some(later)),
        Err(StorageError::UnsupportedVersion(2))
    );
    assert_eq!(view_states().load_for_scope(&mut state, None), Ok(None));
    assert_eq!(state.scroll, 0);
    let scope = DiffScope::WorkingTree { base_commit_id: "b".to_string() };
    assert_eq!(view_states().path_for_scope(&scope), "working-tree.json");
    let none = Probe { git_exists: false, jj_is_dir: false };
    assert!(ViewStateManager::try_new(&vec![none]).is_none());
}
