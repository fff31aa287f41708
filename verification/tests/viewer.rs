use lumen::api_handler::Persist;
use lumen::diff::{ChangeType, DiffLine, FileDiff, FileStatus, HunkRange};
use lumen::filters::{
    focused_tags, footer_hunks, has_visible_files, hunk_matches_filter, is_focused_reviewed,
    matching_files_for_filter, matching_hunk_indices, next_review_filter, next_tag_filter,
    review_filter_label, tag_filter_label,
};
use lumen::keys::{Key, KeyCode, Mouse, MouseKind};
use lumen::state::{
    AppState, DiffFullscreen, FocusedPanel, HunkAnnotation, HunkReview, HunkTags, PendingKey,
    ReviewFilter, SidebarItem, StackedCommitInfo, TagFilter, TimePoint,
};
use lumen::tag_editor::TagEditorResult;
use lumen::viewer::{
    ensure_sidebar_visible, find_key_command, is_runnable, jump_to_match, max_scroll, Command, Env,
    Step,
};
use lumen::viewer_dialogs::{
    editor_arguments, export_error, file_picker_items, handle_annotation_editor,
    handle_modal_result, handle_tag_editor, tag_editor_for, AnnotationEditorResult, ModalResult,
};
use lumen::viewer_events::{
    add_wheel, can_handle_key, handle_key, handle_mouse, is_own_step, perform,
};
use lumen::viewer_marks::sync_viewed_files;

fn env() -> Env {
    Env {
        width: 100,
        height: 22,
        search_active: false,
        has_query: false,
        modal_open: false,
        tag_editor_open: false,
        annotation_editor_open: false,
        pr_mode: false,
        has_persistence: true,
    }
}

/// A file of 40 rows with hunks that start at the rows given.
fn file(name: &str, starts: &[usize]) -> FileDiff {
    FileDiff {
        filename: name.to_string(),
        old_content: String::new(),
        new_content: "n".to_string(),
        status: FileStatus::Modified,
        is_binary: false,
        rows: (0..40)
            .map(|i| DiffLine {
                old_line: None,
                new_line: Some((i + 1, "l".to_string())),
                change_type: ChangeType::Insert,
            })
            .collect(),
        hunks: starts.iter().map(|s| HunkRange { start: *s, end: s + 2 }).collect(),
    }
}

fn item(path: &str, file_index: usize) -> SidebarItem {
    SidebarItem::File { path: path.to_string(), file_index }
}

fn directory(path: &str) -> SidebarItem {
    SidebarItem::Directory { path: path.to_string() }
}

/// Three files, two of them in a directory.
fn state() -> AppState {
    let files = vec![file("src/a", &[2, 10, 30]), file("src/b", &[5]), file("c", &[])];
    let mut s = AppState::new(files, "git".to_string());
    s.sidebar_items =
        vec![directory("src"), item("src/a", 0), item("src/b", 1), item("c", 2)];
    s.sidebar_visible = vec![0, 1, 2, 3];
    s
}

fn press(s: &mut AppState, code: KeyCode) -> Vec<Step> {
    handle_key(s, Key { code, control: false, alt: false }, env())
}

fn letter(s: &mut AppState, c: char) -> Vec<Step> {
    press(s, KeyCode::Char(c))
}

fn control(s: &mut AppState, c: char) -> Vec<Step> {
    handle_key(s, Key { code: KeyCode::Char(c), control: true, alt: false }, env())
}

#[test]
fn keys_stand_for_commands() {
    let key = |code, control| Key { code, control, alt: false };
    let diff = FocusedPanel::DiffView;
    let cmd = |k, q| find_key_command(k, q, diff);
    assert_eq!(cmd(key(KeyCode::Esc, false), true), Command::ClearSearch);
    assert_eq!(cmd(key(KeyCode::Esc, false), false), Command::Quit);
    assert_eq!(cmd(key(KeyCode::Char('c'), true), true), Command::ClearSearch);
    assert_eq!(cmd(key(KeyCode::Char('c'), true), false), Command::Quit);
    assert_eq!(cmd(key(KeyCode::Char('c'), false), true), Command::Nothing);
    assert_eq!(cmd(key(KeyCode::Char('j'), true), false), Command::NextFile);
    assert_eq!(cmd(key(KeyCode::Char('j'), false), false), Command::Down);
    assert_eq!(cmd(key(KeyCode::Down, false), true), Command::NextMatch);
    assert_eq!(
        find_key_command(key(KeyCode::Down, false), true, FocusedPanel::Sidebar),
        Command::Down
    );
    assert_eq!(cmd(key(KeyCode::Char('f'), true), false), Command::StartSearch);
    assert_eq!(cmd(key(KeyCode::Char('f'), false), false), Command::Nothing);
    assert_eq!(cmd(key(KeyCode::Char('n'), false), false), Command::Nothing);
    assert_eq!(cmd(key(KeyCode::Char('N'), false), true), Command::PreviousMatch);
    assert_eq!(cmd(key(KeyCode::Char('v'), false), false), Command::ToggleReviewed);
    assert_eq!(cmd(key(KeyCode::Char('V'), false), false), Command::CycleReviewFilter);
    assert_eq!(cmd(key(KeyCode::Char('C'), false), false), Command::ClearFilters);
    assert_eq!(cmd(key(KeyCode::Other, false), false), Command::Nothing);
}

#[test]
fn keys_go_to_what_is_open() {
    let mut s = state();
    let key = Key { code: KeyCode::Char('q'), control: false, alt: false };
    let mut e = env();
    e.tag_editor_open = true;
    e.annotation_editor_open = true;
    assert_eq!(handle_key(&mut s, key, e), vec![Step::TagEditorKey]);
    e.tag_editor_open = false;
    assert_eq!(handle_key(&mut s, key, e), vec![Step::AnnotationEditorKey]);
    e.modal_open = true;
    assert_eq!(handle_key(&mut s, key, e), vec![Step::ModalKey]);
    e.search_active = true;
    assert_eq!(handle_key(&mut s, key, e), vec![Step::SearchPush('q')]);
    let enter = Key { code: KeyCode::Enter, control: false, alt: false };
    assert_eq!(handle_key(&mut s, enter, e), vec![Step::ConfirmSearch]);
    let esc = Key { code: KeyCode::Esc, control: false, alt: false };
    assert_eq!(handle_key(&mut s, esc, e), vec![Step::CancelSearch]);
    let back = Key { code: KeyCode::Backspace, control: false, alt: false };
    assert_eq!(handle_key(&mut s, back, e), vec![Step::SearchPop]);
    let tab = Key { code: KeyCode::Tab, control: false, alt: false };
    assert!(handle_key(&mut s, tab, e).is_empty());
    assert!(s.show_sidebar);
    assert_eq!(letter(&mut s, 'q'), vec![Step::SaveViewState, Step::Quit]);
}

#[test]
fn scrolling_the_diff() {
    let mut s = state();
    // 40 rows, 20 of them on the screen, five kept free below.
    assert_eq!(max_scroll(&s, env()), 25);
    letter(&mut s, 'j');
    assert_eq!(s.scroll, 1);
    control(&mut s, 'd');
    assert_eq!(s.scroll, 11);
    press(&mut s, KeyCode::PageDown);
    assert_eq!(s.scroll, 25);
    letter(&mut s, 'j');
    assert_eq!(s.scroll, 25);
    control(&mut s, 'u');
    assert_eq!(s.scroll, 15);
    press(&mut s, KeyCode::PageUp);
    assert_eq!(s.scroll, 0);
    letter(&mut s, 'k');
    assert_eq!(s.scroll, 0);
    letter(&mut s, 'G');
    assert_eq!(s.scroll, 25);
    letter(&mut s, 'g');
    assert_eq!(s.pending_key, PendingKey::G);
    letter(&mut s, 'g');
    assert_eq!((s.scroll, s.pending_key), (0, PendingKey::Nothing));
    letter(&mut s, 'g');
    letter(&mut s, 'l');
    assert_eq!(s.pending_key, PendingKey::Nothing);
    assert_eq!(s.h_scroll, 4);
    letter(&mut s, 'h');
    assert_eq!(s.h_scroll, 0);
    jump_to_match(&mut s, 30);
    assert_eq!(s.scroll, 25);
    jump_to_match(&mut s, 3);
    assert_eq!(s.scroll, 0);
}

#[test]
fn moving_through_the_sidebar() {
    let mut s = state();
    letter(&mut s, '1');
    assert_eq!(s.focused_panel, FocusedPanel::Sidebar);
    assert_eq!(s.sidebar_selected, 1);
    letter(&mut s, 'j');
    assert_eq!(s.sidebar_selected, 2);
    letter(&mut s, 'k');
    letter(&mut s, 'k');
    letter(&mut s, 'k');
    assert_eq!(s.sidebar_selected, 0);
    assert_eq!(
        press(&mut s, KeyCode::Enter),
        vec![Step::ToggleDirectory(0), Step::EnsureVisible(17)]
    );
    s.tag_filter = Some(TagFilter::Untagged);
    assert_eq!(
        press(&mut s, KeyCode::Enter),
        vec![Step::ToggleDirectory(0), Step::ApplyFilter, Step::EnsureVisible(17)]
    );
    s.sidebar_selected = 2;
    assert_eq!(
        press(&mut s, KeyCode::Enter),
        vec![Step::SelectFile(1), Step::SetPanel(FocusedPanel::DiffView)]
    );
    letter(&mut s, 'l');
    assert_eq!(s.sidebar_h_scroll, 4);
    press(&mut s, KeyCode::Tab);
    assert!(!s.show_sidebar);
    assert_eq!(s.focused_panel, FocusedPanel::DiffView);
}

#[test]
fn going_from_file_to_file() {
    let mut s = state();
    assert_eq!(control(&mut s, 'j'), vec![Step::SelectFile(0), Step::EnsureVisible(17)]);
    assert_eq!(s.sidebar_selected, 1);
    control(&mut s, 'j');
    control(&mut s, 'j');
    assert_eq!(s.sidebar_selected, 3);
    assert!(control(&mut s, 'j').is_empty());
    assert_eq!(control(&mut s, 'k'), vec![Step::SelectFile(1), Step::EnsureVisible(usize::MAX)]);
    control(&mut s, 'k');
    assert!(control(&mut s, 'k').is_empty());
    assert_eq!(s.sidebar_selected, 1);
}

#[test]
fn selected_line_is_kept_in_view() {
    let mut s = state();
    s.sidebar_selected = 20;
    ensure_sidebar_visible(&mut s, 5);
    assert_eq!(s.sidebar_scroll, 16);
    s.sidebar_selected = 3;
    ensure_sidebar_visible(&mut s, 5);
    assert_eq!(s.sidebar_scroll, 3);
    s.sidebar_selected = 7;
    ensure_sidebar_visible(&mut s, 5);
    assert_eq!(s.sidebar_scroll, 3);
    ensure_sidebar_visible(&mut s, usize::MAX);
    assert_eq!(s.sidebar_scroll, 3);
}

#[test]
fn going_from_commit_to_commit() {
    let mut s = state();
    assert!(control(&mut s, 'l').is_empty());
    s.stacked_mode = true;
    s.stacked_commits =
        (0..2).map(|i| StackedCommitInfo { commit_id: format!("c{}", i) }).collect();
    let forward = vec![
        Step::SaveStackedViewed,
        Step::SetCommit(1),
        Step::LoadCommit(1),
        Step::LoadScope,
        Step::ApplyFilter,
    ];
    assert_eq!(control(&mut s, 'l'), forward);
    assert!(control(&mut s, 'h').is_empty());
    perform(&mut s, Step::SetCommit(1));
    assert_eq!(s.current_commit_index, 1);
    assert!(control(&mut s, 'l').is_empty());
    let mut e = env();
    e.has_persistence = false;
    let key = Key { code: KeyCode::Char('h'), control: true, alt: false };
    assert_eq!(
        handle_key(&mut s, key, e),
        vec![Step::SaveStackedViewed, Step::SetCommit(0), Step::LoadCommit(0)]
    );
}

#[test]
fn sides_of_the_diff() {
    let mut s = state();
    letter(&mut s, ']');
    assert_eq!(s.diff_fullscreen, DiffFullscreen::NewOnly);
    letter(&mut s, '[');
    assert_eq!(s.diff_fullscreen, DiffFullscreen::NewOnly);
    letter(&mut s, ']');
    assert_eq!(s.diff_fullscreen, DiffFullscreen::SideBySide);
    letter(&mut s, ']');
    letter(&mut s, '=');
    assert_eq!(s.diff_fullscreen, DiffFullscreen::SideBySide);
    s.file_diffs[0].old_content = "o".to_string();
    letter(&mut s, '[');
    assert_eq!(s.diff_fullscreen, DiffFullscreen::OldOnly);
}

fn scroll_to(row: usize) -> Vec<Step> {
    vec![Step::ScrollToHunk { row, visible_height: 20, max_scroll: 25 }]
}

#[test]
fn going_from_hunk_to_hunk() {
    let mut s = state();
    assert_eq!(letter(&mut s, '}'), scroll_to(10));
    assert_eq!(s.focused_hunk, Some(1));
    letter(&mut s, '}');
    letter(&mut s, '}');
    assert_eq!(s.focused_hunk, Some(2));
    assert_eq!(letter(&mut s, '{'), scroll_to(10));
    letter(&mut s, '{');
    letter(&mut s, '{');
    assert_eq!(s.focused_hunk, Some(0));
    s.focused_hunk = None;
    s.scroll = 20;
    letter(&mut s, '{');
    assert_eq!(s.focused_hunk, Some(1));
    s.focused_hunk = None;
    s.scroll = 2;
    letter(&mut s, '{');
    assert_eq!(s.focused_hunk, Some(2));
    s.focused_hunk = None;
    s.scroll = 40;
    letter(&mut s, '}');
    assert_eq!(s.focused_hunk, Some(0));
    s.current_file = 2;
    assert!(letter(&mut s, '}').is_empty());
    assert_eq!(s.focused_hunk, None);
}

fn tag(s: &mut AppState, file_index: usize, hunk_index: usize, tags: &[&str]) {
    s.hunk_tags.push(HunkTags {
        file_index,
        hunk_index,
        filename: String::new(),
        tags: tags.iter().map(|t| t.to_string()).collect(),
    });
}

#[test]
fn filters_by_tag_and_by_review() {
    let mut s = state();
    tag(&mut s, 0, 1, &["bug"]);
    tag(&mut s, 1, 0, &["bug", "todo"]);
    s.reviewed_hunks.push(HunkReview { file_index: 0, hunk_index: 1, filename: String::new() });
    assert_eq!(matching_hunk_indices(&s, 0), vec![0, 1, 2]);
    s.tag_filter = Some(TagFilter::Tag("bug".to_string()));
    assert_eq!(matching_hunk_indices(&s, 0), vec![1]);
    assert!(!hunk_matches_filter(&s, 0, 0));
    let files = matching_files_for_filter(&s);
    assert!(files.contains(&0) && files.contains(&1) && files.len() == 2);
    s.review_filter = ReviewFilter::Unreviewed;
    let files = matching_files_for_filter(&s);
    assert!(files.contains(&1) && files.len() == 1);
    s.tag_filter = Some(TagFilter::Untagged);
    assert_eq!(matching_hunk_indices(&s, 0), vec![0, 2]);
    s.review_filter = ReviewFilter::Reviewed;
    assert!(matching_hunk_indices(&s, 0).is_empty());
    s.tag_filter = None;
    assert_eq!(matching_hunk_indices(&s, 0), vec![1]);
    assert_eq!(review_filter_label(&s).as_deref(), Some("review: reviewed"));
    assert_eq!(tag_filter_label(&s), None);
    s.focused_hunk = Some(1);
    assert_eq!(footer_hunks(&s), (1, Some(0)));
    assert_eq!(focused_tags(&s).as_deref(), Some("bug"));
    s.focused_hunk = Some(0);
    assert_eq!(footer_hunks(&s), (1, None));
    assert_eq!(focused_tags(&s), None);
    assert!(has_visible_files(&s));
    s.sidebar_visible.clear();
    assert!(!has_visible_files(&s));
}

#[test]
fn tag_filters_cycle_through_the_inventory() {
    let tags = vec!["a".to_string(), "b".to_string()];
    let mut seen = Vec::new();
    let mut filter = None;
    for _ in 0..4 {
        filter = next_tag_filter(&filter, &tags);
        seen.push(match &filter {
            Some(TagFilter::Tag(t)) => t.clone(),
            Some(TagFilter::Untagged) => "-".to_string(),
            None => "all".to_string(),
        });
    }
    assert_eq!(seen, vec!["a", "b", "-", "all"]);
    let gone = Some(TagFilter::Tag("gone".to_string()));
    assert!(matches!(next_tag_filter(&gone, &tags), Some(TagFilter::Tag(t)) if t == "a"));
    assert!(matches!(next_tag_filter(&None, &Vec::new()), Some(TagFilter::Untagged)));
    assert_eq!(next_review_filter(ReviewFilter::All), ReviewFilter::Reviewed);
    assert_eq!(next_review_filter(ReviewFilter::Reviewed), ReviewFilter::Unreviewed);
    assert_eq!(next_review_filter(ReviewFilter::Unreviewed), ReviewFilter::All);
}

#[test]
fn filter_keys() {
    let mut s = state();
    s.tag_inventory = vec!["bug".to_string()];
    tag(&mut s, 1, 0, &["bug"]);
    let apply =
        vec![Step::ApplyFilter, Step::FocusFirstMatch { visible_height: 20, max_scroll: 25 }];
    assert_eq!(letter(&mut s, 'T'), apply);
    assert!(matches!(&s.tag_filter, Some(TagFilter::Tag(t)) if t == "bug"));
    assert_eq!(tag_filter_label(&s).as_deref(), Some("tag: bug"));
    assert_eq!(
        perform(&mut s, Step::ApplyFilter),
        vec![Step::RebuildSidebarFiltered, Step::SettleFilter]
    );
    s.sidebar_visible = vec![0, 2];
    assert_eq!(perform(&mut s, Step::SettleFilter), vec![Step::SelectFile(1)]);
    s.current_file = 1;
    assert!(perform(&mut s, Step::SettleFilter).is_empty());
    assert_eq!(
        perform(&mut s, Step::FocusFirstMatch { visible_height: 20, max_scroll: 25 }),
        scroll_to(5)
    );
    assert_eq!(s.focused_hunk, Some(0));
    letter(&mut s, 'V');
    assert_eq!(s.review_filter, ReviewFilter::Reviewed);
    s.sidebar_visible = vec![0];
    assert!(perform(&mut s, Step::SettleFilter).is_empty());
    assert_eq!((s.current_file, s.focused_hunk), (0, None));
    assert!(perform(&mut s, Step::FocusFirstMatch { visible_height: 1, max_scroll: 1 }).is_empty());
    assert_eq!(letter(&mut s, 'C'), vec![Step::ApplyFilter]);
    assert!(s.tag_filter.is_none());
    assert_eq!(s.review_filter, ReviewFilter::All);
    assert_eq!(perform(&mut s, Step::ApplyFilter), vec![Step::RebuildSidebar]);
}

#[test]
fn marking_files_as_viewed_in_the_sidebar() {
    let mut s = state();
    s.focused_panel = FocusedPanel::Sidebar;
    s.sidebar_selected = 0;
    let mut e = env();
    e.pr_mode = true;
    let space = Key { code: KeyCode::Char(' '), control: false, alt: false };
    assert_eq!(
        handle_key(&mut s, space, e),
        vec![
            Step::MarkViewed { file_index: 0, viewed: true },
            Step::MarkViewed { file_index: 1, viewed: true },
            Step::SaveViewState,
        ]
    );
    assert!(s.viewed_files.contains(&0) && s.viewed_files.contains(&1));
    assert_eq!(letter(&mut s, ' '), vec![Step::SaveViewState]);
    assert!(s.viewed_files.is_empty());
    s.sidebar_selected = 3;
    letter(&mut s, ' ');
    assert!(s.viewed_files.contains(&2));
    letter(&mut s, ' ');
    assert!(s.viewed_files.is_empty());
    s.sidebar_selected = 9;
    assert!(letter(&mut s, ' ').is_empty());
}

#[test]
fn marking_a_file_as_viewed_goes_on_to_the_next() {
    let mut s = state();
    s.sidebar_selected = 1;
    assert_eq!(
        letter(&mut s, ' '),
        vec![Step::SelectFile(1), Step::EnsureVisible(17), Step::SaveViewState]
    );
    assert_eq!(s.sidebar_selected, 2);
    assert!(s.viewed_files.contains(&0));
    s.current_file = 2;
    s.sidebar_selected = 3;
    assert_eq!(
        letter(&mut s, ' '),
        vec![Step::SelectFile(1), Step::EnsureVisible(17), Step::SaveViewState]
    );
    assert_eq!(letter(&mut s, ' '), vec![Step::SaveViewState]);
    assert!(!s.viewed_files.contains(&2));
    let none = AppState::new(Vec::new(), "git".to_string());
    assert!(!is_runnable(&none, Command::ToggleViewed));
    sync_viewed_files(&mut s, &vec!["c".to_string(), "zz".to_string()]);
    assert!(s.viewed_files.contains(&2) && s.viewed_files.len() == 1);
}

#[test]
fn marking_hunks_as_reviewed() {
    let mut s = state();
    assert!(letter(&mut s, 'v').is_empty());
    assert_eq!(is_focused_reviewed(&s), None);
    s.focused_hunk = Some(1);
    assert_eq!(is_focused_reviewed(&s), Some(false));
    assert_eq!(
        letter(&mut s, 'v'),
        vec![
            Step::SaveReview { file_index: 0, hunk_index: 1, reviewed: true },
            Step::ApplyFilter,
        ]
    );
    assert!(s.is_reviewed(0, 1));
    assert_eq!(is_focused_reviewed(&s), Some(true));
    assert_eq!(s.reviewed_hunks[0].filename, "src/a");
    assert_eq!(
        letter(&mut s, 'v'),
        vec![
            Step::SaveReview { file_index: 0, hunk_index: 1, reviewed: false },
            Step::ApplyFilter,
        ]
    );
    assert!(!s.is_reviewed(0, 1));
    s.focused_hunk = Some(7);
    assert!(letter(&mut s, 'v').is_empty());
}

#[test]
fn keys_that_open_something() {
    let mut s = state();
    assert!(letter(&mut s, 'i').is_empty());
    assert!(letter(&mut s, 't').is_empty());
    assert!(letter(&mut s, 'I').is_empty());
    assert!(letter(&mut s, 'o').is_empty());
    s.focused_hunk = Some(1);
    let at = |file_index, hunk_index, line_range| (file_index, hunk_index, line_range);
    let (f, h, l) = at(0, 1, (11, 12));
    assert_eq!(
        letter(&mut s, 'i'),
        vec![Step::OpenAnnotationEditor { file_index: f, hunk_index: h, line_range: l }]
    );
    assert_eq!(
        letter(&mut s, 't'),
        vec![Step::OpenTagEditor { file_index: f, hunk_index: h, line_range: l }]
    );
    assert_eq!(letter(&mut s, 'e'), vec![Step::EditFile { file_index: 0, line: Some(11) }]);
    s.focused_hunk = None;
    assert_eq!(letter(&mut s, 'e'), vec![Step::EditFile { file_index: 0, line: None }]);
    assert_eq!(letter(&mut s, 'y'), vec![Step::CopyFilename(0)]);
    assert_eq!(letter(&mut s, '?'), vec![Step::OpenHelp]);
    assert_eq!(letter(&mut s, '/'), vec![Step::StartSearch]);
    assert_eq!(control(&mut s, 'p'), vec![Step::OpenFilePicker]);
    letter(&mut s, 'r');
    assert!(s.needs_reload);
    let mut e = env();
    e.pr_mode = true;
    let key = Key { code: KeyCode::Char('o'), control: false, alt: false };
    assert_eq!(handle_key(&mut s, key, e), vec![Step::OpenInBrowser(0)]);
}

fn mouse(kind: MouseKind, column: u16, row: u16) -> Mouse {
    Mouse { kind, column, row }
}

#[test]
fn clicks() {
    let mut s = state();
    let left = MouseKind::LeftDown;
    assert_eq!(handle_mouse(&mut s, mouse(left, 5, 2), 0, env()), vec![Step::SelectFile(0)]);
    assert_eq!(s.sidebar_selected, 1);
    assert_eq!(
        handle_mouse(&mut s, mouse(left, 5, 0), 0, env()),
        vec![Step::ToggleDirectory(0), Step::EnsureVisible(17)]
    );
    assert_eq!(s.focused_panel, FocusedPanel::Sidebar);
    assert!(handle_mouse(&mut s, mouse(left, 5, 12), 0, env()).is_empty());
    assert_eq!(s.focused_panel, FocusedPanel::Sidebar);
    assert!(handle_mouse(&mut s, mouse(left, 60, 12), 0, env()).is_empty());
    assert_eq!(s.focused_panel, FocusedPanel::DiffView);
    s.stacked_mode = true;
    s.stacked_commits =
        (0..3).map(|i| StackedCommitInfo { commit_id: format!("c{}", i) }).collect();
    s.current_commit_index = 1;
    let first = |steps: Vec<Step>| steps.get(1).copied();
    assert_eq!(
        first(handle_mouse(&mut s, mouse(left, 3, 0), 0, env())),
        Some(Step::SetCommit(0))
    );
    assert_eq!(
        first(handle_mouse(&mut s, mouse(left, 96, 0), 0, env())),
        Some(Step::SetCommit(2))
    );
    assert!(handle_mouse(&mut s, mouse(left, 50, 0), 0, env()).is_empty());
    assert_eq!(handle_mouse(&mut s, mouse(left, 5, 3), 0, env()), vec![Step::SelectFile(0)]);
}

#[test]
fn the_wheel() {
    let mut s = state();
    assert_eq!(add_wheel(3, MouseKind::ScrollDown), Some(6));
    assert_eq!(add_wheel(3, MouseKind::ScrollUp), Some(0));
    assert_eq!(add_wheel(3, MouseKind::LeftDown), None);
    handle_mouse(&mut s, mouse(MouseKind::ScrollDown, 60, 5), 9, env());
    assert_eq!(s.scroll, 9);
    handle_mouse(&mut s, mouse(MouseKind::ScrollDown, 60, 5), 90, env());
    assert_eq!(s.scroll, 25);
    handle_mouse(&mut s, mouse(MouseKind::ScrollUp, 60, 5), -6, env());
    assert_eq!(s.scroll, 19);
    handle_mouse(&mut s, mouse(MouseKind::ScrollDown, 10, 5), 2, env());
    assert_eq!((s.scroll, s.sidebar_scroll), (19, 2));
    handle_mouse(&mut s, mouse(MouseKind::ScrollDown, 10, 5), 30, env());
    assert_eq!(s.sidebar_scroll, 3);
    handle_mouse(&mut s, mouse(MouseKind::ScrollUp, 10, 5), -30, env());
    assert_eq!(s.sidebar_scroll, 0);
    handle_mouse(&mut s, mouse(MouseKind::ScrollUp, 60, 21), -6, env());
    assert_eq!(s.scroll, 19);
}

/// A file with many rows, and hunks at the rows given.
fn long_file(rows: usize, starts: &[usize]) -> FileDiff {
    let mut f = file("long", starts);
    f.rows = (0..rows)
        .map(|_| DiffLine { old_line: None, new_line: None, change_type: ChangeType::Equal })
        .collect();
    f
}

#[test]
fn scrolling_in_long_files() {
    let low = Env { height: 7, ..env() };
    let mut s = AppState::new(vec![long_file(65_536, &[10, 65_530])], "git".to_string());
    let j = Key { code: KeyCode::Char('j'), control: false, alt: false };
    let bottom = Key { code: KeyCode::Char('G'), control: false, alt: false };
    handle_key(&mut s, j, low);
    assert_eq!(s.scroll, 1);
    handle_key(&mut s, bottom, low);
    assert_eq!(s.scroll, u16::MAX);
    handle_key(&mut s, j, low);
    assert_eq!(s.scroll, u16::MAX);
    handle_mouse(&mut s, mouse(MouseKind::ScrollUp, 60, 2), -70_000, low);
    assert_eq!(s.scroll, 0);
    handle_mouse(&mut s, mouse(MouseKind::ScrollDown, 60, 2), 65_539, low);
    assert_eq!(s.scroll, u16::MAX);
    handle_mouse(&mut s, mouse(MouseKind::ScrollUp, 60, 2), i32::MIN, low);
    assert_eq!(s.scroll, 0);
    jump_to_match(&mut s, 70_000);
    assert_eq!(s.scroll, u16::MAX);

    let mut s = AppState::new(vec![long_file(70_000, &[10, 65_540])], "git".to_string());
    s.scroll = 100;
    letter(&mut s, '{');
    assert_eq!(s.focused_hunk, Some(0));
}

#[test]
fn keys_about_a_file_need_one() {
    let none = AppState::new(Vec::new(), "git".to_string());
    let space = Key { code: KeyCode::Char(' '), control: false, alt: false };
    assert!(!can_handle_key(&none, space, env()));
    assert!(can_handle_key(&none, space, Env { modal_open: true, ..env() }));
    assert!(can_handle_key(&state(), space, env()));
}

fn note(id: &str, file_index: usize, hunk_index: usize) -> HunkAnnotation {
    HunkAnnotation {
        id: id.to_string(),
        file_index,
        hunk_index,
        content: "c".to_string(),
        line_range: (1, 2),
        filename: "f".to_string(),
        created_at: TimePoint { secs: 1, nanos: 0 },
    }
}

#[test]
fn choices_in_dialogs() {
    let mut s = state();
    let (steps, _) = handle_modal_result(&mut s, ModalResult::FileSelected(1), env());
    assert_eq!(
        steps,
        vec![
            Step::RevealFile(1),
            Step::SelectFile(1),
            Step::SelectInSidebar(17),
            Step::CloseModal,
        ]
    );
    s.current_file = 1;
    perform(&mut s, Step::SelectInSidebar(17));
    assert_eq!(s.sidebar_selected, 2);
    s.current_file = 0;
    let jump = ModalResult::AnnotationJump { file_index: 0, hunk_index: 2 };
    let (steps, _) = handle_modal_result(&mut s, jump, env());
    assert_eq!(steps[0], Step::SelectFile(0));
    assert!(is_own_step(steps[1]) && !is_own_step(steps[0]));
    assert_eq!(perform(&mut s, steps[1]), scroll_to(30));
    assert_eq!(s.focused_hunk, Some(2));
    let edit = ModalResult::AnnotationEdit { file_index: 0, hunk_index: 2 };
    assert_eq!(handle_modal_result(&mut s, edit, env()).0, vec![Step::CloseModal]);
    s.annotations = vec![note("1", 0, 2), note("2", 1, 0)];
    let (steps, _) = handle_modal_result(&mut s, edit, env());
    assert_eq!(
        steps,
        vec![
            Step::OpenAnnotationEditor { file_index: 0, hunk_index: 2, line_range: (1, 2) },
            Step::SelectFile(0),
            Step::SetFocus(2),
            Step::CloseModal,
        ]
    );
    let delete = ModalResult::AnnotationDelete { file_index: 0, hunk_index: 2 };
    let (steps, persist) = handle_modal_result(&mut s, delete, env());
    assert_eq!(steps, vec![Step::OpenAnnotationList]);
    assert!(matches!(persist, Persist::Remove(a) if a.id == "1"));
    let delete = ModalResult::AnnotationDelete { file_index: 1, hunk_index: 0 };
    let (steps, _) = handle_modal_result(&mut s, delete, env());
    assert_eq!(steps, vec![Step::CloseModal]);
    assert!(s.annotations.is_empty());
    let (_, persist) = handle_modal_result(&mut s, delete, env());
    assert!(matches!(persist, Persist::Nothing));
    assert_eq!(
        handle_modal_result(&mut s, ModalResult::AnnotationExport, env()).0,
        vec![Step::ExportAnnotations]
    );
}

#[test]
fn results_of_the_annotation_editor() {
    let mut s = state();
    let (steps, persist) =
        handle_annotation_editor(&mut s, AnnotationEditorResult::Save(note("9", 0, 1)));
    assert_eq!(steps, vec![Step::CloseAnnotationEditor]);
    assert!(matches!(persist, Persist::Upsert(a) if a.id == "9"));
    assert_eq!(s.annotations.len(), 1);
    let (steps, _) = handle_annotation_editor(&mut s, AnnotationEditorResult::Continue);
    assert!(steps.is_empty());
    handle_annotation_editor(&mut s, AnnotationEditorResult::Cancel);
    assert_eq!(s.annotations.len(), 1);
    let delete = AnnotationEditorResult::Delete { file_index: 0, hunk_index: 1 };
    let (_, persist) = handle_annotation_editor(&mut s, delete);
    assert!(matches!(persist, Persist::Remove(_)));
    assert!(s.annotations.is_empty());
}

#[test]
fn results_of_the_tag_editor() {
    let mut s = state();
    s.tag_inventory = vec!["z".to_string(), "a".to_string()];
    tag(&mut s, 0, 1, &["a"]);
    let editor = tag_editor_for(&s, 0, 1, (11, 12)).unwrap();
    assert_eq!(editor.tags_line(), "Tags: a");
    assert_eq!(editor.title(), " a \u{b7} L11-12 ");
    assert!(tag_editor_for(&s, 9, 0, (1, 1)).is_none());
    let save = TagEditorResult::Save(vec!["q".to_string()]);
    let (steps, persist) = handle_tag_editor(&mut s, 0, 1, save);
    assert_eq!(steps, vec![Step::ApplyFilter, Step::CloseTagEditor]);
    assert!(matches!(persist, Persist::SetTags { file_index: 0, hunk_index: 1, .. }));
    assert_eq!(s.get_hunk_tags(0, 1).unwrap().tags, vec!["q".to_string()]);
    assert_eq!(s.get_hunk_tags(0, 1).unwrap().filename, "src/a");
    handle_tag_editor(&mut s, 0, 1, TagEditorResult::Save(Vec::new()));
    assert!(s.get_hunk_tags(0, 1).is_none());
    let (steps, _) = handle_tag_editor(&mut s, 0, 1, TagEditorResult::Cancel);
    assert_eq!(steps, vec![Step::CloseTagEditor]);
    let (_, persist) = handle_tag_editor(&mut s, 7, 1, TagEditorResult::Save(Vec::new()));
    assert!(matches!(persist, Persist::Nothing));
}

#[test]
fn what_dialogs_show() {
    let mut s = state();
    s.viewed_files.insert(1);
    let items = file_picker_items(&s);
    assert_eq!(items.len(), 3);
    assert_eq!((items[1].name.as_str(), items[1].file_index, items[1].viewed), ("src/b", 1, true));
    assert!(!items[2].viewed);
    assert_eq!(editor_arguments(Some(12), "f"), vec!["+12".to_string(), "f".to_string()]);
    assert_eq!(editor_arguments(None, "f"), vec!["f".to_string()]);
    assert_eq!(export_error("no"), "Failed to write: no");
}

#[test]
fn well_formed_states() {
    let mut s = state();
    assert!(s.is_well_formed());
    s.sidebar_visible.push(9);
    assert!(!s.is_well_formed());
    let mut s = state();
    s.sidebar_items.push(item("x", 3));
    assert!(!s.is_well_formed());
    let mut s = state();
    s.current_file = 3;
    assert!(!s.is_well_formed());
    let mut s = state();
    s.file_diffs[0].hunks.push(HunkRange { start: 0, end: 41 });
    assert!(!s.is_well_formed());
    let mut s = state();
    s.stacked_mode = true;
    assert!(!s.is_well_formed());
}
