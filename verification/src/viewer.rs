//! The viewer: what keys stand for, and what they do.
//!
//! A key changes the state at once where it can, and leaves a list of steps to be carried
//! out one after the other. Some steps are for the host of the viewer, such as loading a
//! file; the others are handed back to [`perform`], which may leave further steps in their
//! place.

use vstd::prelude::*;

use crate::diff::{
    change_bounds, compute_hunk_line_range, hunk_change_bounds, hunk_line_range, row_number,
};
use crate::filters::{
    filter_after, filtering, find_position, is_filtering, matching_hunk_indices, matching_hunks,
    next_review_filter, next_tag_filter, passing_hunks_are_ascending, position_in,
    review_filter_after,
};
use crate::keys::{Key, KeyCode};
use crate::state::{AppState, DiffFullscreen, FocusedPanel, PendingKey, ReviewFilter, SidebarItem};

verus! {

/// What the viewer knows of its surroundings.
#[derive(Debug, Clone, Copy, PartialEq, Eq, Structural)]
pub struct Env {
    /// The size of the screen.
    pub width: u16,
    pub height: u16,
    /// Whether a search is being typed.
    pub search_active: bool,
    /// Whether there is something to search for.
    pub has_query: bool,
    /// Whether a dialog covers the viewer.
    pub modal_open: bool,
    /// Whether tags are being edited.
    pub tag_editor_open: bool,
    /// Whether an annotation is being edited.
    pub annotation_editor_open: bool,
    /// Whether a pull request is shown.
    pub pr_mode: bool,
    /// Whether annotations are stored.
    pub has_persistence: bool,
}

/// What is to be done next.
#[derive(Debug, Clone, Copy, PartialEq, Eq)]
pub enum Step {
    // For the host.
    CancelSearch,
    ConfirmSearch,
    SearchPop,
    SearchPush(char),
    ClearSearch,
    StartSearch,
    SearchNext { visible_height: usize, max_scroll: usize },
    SearchPrevious { visible_height: usize, max_scroll: usize },
    TagEditorKey,
    AnnotationEditorKey,
    ModalKey,
    SelectFile(usize),
    RevealFile(usize),
    /// The number is that of the line among the items of the sidebar.
    ToggleDirectory(usize),
    RebuildSidebar,
    /// The sidebar shows the files that match the filters.
    RebuildSidebarFiltered,
    ScrollToHunk { row: usize, visible_height: usize, max_scroll: usize },
    SaveStackedViewed,
    LoadCommit(usize),
    LoadScope,
    SaveViewState,
    MarkViewed { file_index: usize, viewed: bool },
    SaveReview { file_index: usize, hunk_index: usize, reviewed: bool },
    OpenFilePicker,
    OpenHelp,
    OpenAnnotationList,
    OpenAnnotationEditor { file_index: usize, hunk_index: usize, line_range: (usize, usize) },
    OpenTagEditor { file_index: usize, hunk_index: usize, line_range: (usize, usize) },
    CloseModal,
    CloseTagEditor,
    CloseAnnotationEditor,
    CopyFilename(usize),
    CopyAnnotations,
    ExportAnnotations,
    EditFile { file_index: usize, line: Option<usize> },
    OpenInBrowser(usize),
    Quit,
    // For `perform`.
    ApplyFilter,
    SettleFilter,
    SetCommit(usize),
    SetPanel(FocusedPanel),
    EnsureVisible(usize),
    SelectInSidebar(usize),
    FocusFirstMatch { visible_height: usize, max_scroll: usize },
    FocusHunk { file_index: usize, hunk_index: usize, visible_height: usize, max_scroll: usize },
    SetFocus(usize),
}

/// What a key stands for.
#[derive(Debug, Clone, Copy, PartialEq, Eq, Structural)]
pub enum Command {
    Nothing,
    ClearSearch,
    Quit,
    FocusSidebar,
    FocusDiff,
    ToggleSidebar,
    NextFile,
    PreviousFile,
    NextCommit,
    PreviousCommit,
    HalfPageDown,
    HalfPageUp,
    PickFile,
    ToggleNewSide,
    ToggleOldSide,
    ShowBothSides,
    NextMatch,
    PreviousMatch,
    Down,
    Up,
    Left,
    Right,
    Open,
    ToggleViewed,
    PageDown,
    PageUp,
    NextHunk,
    PreviousHunk,
    Annotate,
    EditTags,
    ListAnnotations,
    CycleTagFilter,
    ToggleReviewed,
    CycleReviewFilter,
    ClearFilters,
    Reload,
    CopyName,
    EditFile,
    OpenInBrowser,
    TopPrefix,
    Bottom,
    StartSearch,
    Help,
}

/// What takes the keys.
#[derive(Debug, Clone, Copy, PartialEq, Eq, Structural)]
pub enum KeyTarget {
    Search,
    TagEditor,
    AnnotationEditor,
    Modal,
    Viewer,
}

// ---------------------------------------------------------------------------
// What keys stand for
// ---------------------------------------------------------------------------
/// What takes the keys: the search while it is typed, then a dialog, then the editors.
pub open spec fn key_target(env: Env) -> KeyTarget {
    if env.search_active {
        KeyTarget::Search
    } else if env.modal_open {
        KeyTarget::Modal
    } else if env.tag_editor_open {
        KeyTarget::TagEditor
    } else if env.annotation_editor_open {
        KeyTarget::AnnotationEditor
    } else {
        KeyTarget::Viewer
    }
}

/// What takes the keys.
pub fn find_key_target(env: Env) -> (r: KeyTarget)
    ensures
        r == key_target(env),
{
    if env.search_active {
        KeyTarget::Search
    } else if env.modal_open {
        KeyTarget::Modal
    } else if env.tag_editor_open {
        KeyTarget::TagEditor
    } else if env.annotation_editor_open {
        KeyTarget::AnnotationEditor
    } else {
        KeyTarget::Viewer
    }
}

/// What a letter stands for while the control key is held down.
pub open spec fn control_command(c: char) -> Option<Command> {
    match c {
        'c' => Some(Command::Quit),
        'j' => Some(Command::NextFile),
        'k' => Some(Command::PreviousFile),
        'l' => Some(Command::NextCommit),
        'h' => Some(Command::PreviousCommit),
        'd' => Some(Command::HalfPageDown),
        'u' => Some(Command::HalfPageUp),
        'p' => Some(Command::PickFile),
        'f' => Some(Command::StartSearch),
        _ => None,
    }
}

/// What a character stands for.
pub open spec fn char_command(c: char, has_query: bool) -> Command {
    match c {
        'q' => Command::Quit,
        '1' => Command::FocusSidebar,
        '2' => Command::FocusDiff,
        ']' => Command::ToggleNewSide,
        '[' => Command::ToggleOldSide,
        '=' => Command::ShowBothSides,
        'j' => Command::Down,
        'k' => Command::Up,
        'h' => Command::Left,
        'l' => Command::Right,
        ' ' => Command::ToggleViewed,
        '}' => Command::NextHunk,
        '{' => Command::PreviousHunk,
        'i' => Command::Annotate,
        't' => Command::EditTags,
        'I' => Command::ListAnnotations,
        'T' => Command::CycleTagFilter,
        'v' => Command::ToggleReviewed,
        'V' => Command::CycleReviewFilter,
        'C' => Command::ClearFilters,
        'r' => Command::Reload,
        'y' => Command::CopyName,
        'e' => Command::EditFile,
        'o' => Command::OpenInBrowser,
        'g' => Command::TopPrefix,
        'G' => Command::Bottom,
        '/' => Command::StartSearch,
        '?' => Command::Help,
        'n' => if has_query {
            Command::NextMatch
        } else {
            Command::Nothing
        },
        'N' => if has_query {
            Command::PreviousMatch
        } else {
            Command::Nothing
        },
        _ => Command::Nothing,
    }
}

/// What a key stands for in the viewer.
pub open spec fn key_command(key: Key, has_query: bool, panel: FocusedPanel) -> Command {
    match key.code {
        KeyCode::Esc => if has_query {
            Command::ClearSearch
        } else {
            Command::Quit
        },
        KeyCode::Tab => Command::ToggleSidebar,
        KeyCode::Down => if has_query && panel == FocusedPanel::DiffView {
            Command::NextMatch
        } else {
            Command::Down
        },
        KeyCode::Up => if has_query && panel == FocusedPanel::DiffView {
            Command::PreviousMatch
        } else {
            Command::Up
        },
        KeyCode::Left => Command::Left,
        KeyCode::Right => Command::Right,
        KeyCode::Enter => Command::Open,
        KeyCode::PageDown => Command::PageDown,
        KeyCode::PageUp => Command::PageUp,
        KeyCode::Char(c) => if c == 'c' && key.control && has_query {
            Command::ClearSearch
        } else if key.control && control_command(c) is Some {
            control_command(c)->0
        } else {
            char_command(c, has_query)
        },
        _ => Command::Nothing,
    }
}

fn find_control_command(c: char) -> (r: Option<Command>)
    ensures
        r == control_command(c),
{
    match c {
        'c' => Some(Command::Quit),
        'j' => Some(Command::NextFile),
        'k' => Some(Command::PreviousFile),
        'l' => Some(Command::NextCommit),
        'h' => Some(Command::PreviousCommit),
        'd' => Some(Command::HalfPageDown),
        'u' => Some(Command::HalfPageUp),
        'p' => Some(Command::PickFile),
        'f' => Some(Command::StartSearch),
        _ => None,
    }
}

fn find_char_command(c: char, has_query: bool) -> (r: Command)
    ensures
        r == char_command(c, has_query),
{
    match c {
        'q' => Command::Quit,
        '1' => Command::FocusSidebar,
        '2' => Command::FocusDiff,
        ']' => Command::ToggleNewSide,
        '[' => Command::ToggleOldSide,
        '=' => Command::ShowBothSides,
        'j' => Command::Down,
        'k' => Command::Up,
        'h' => Command::Left,
        'l' => Command::Right,
        ' ' => Command::ToggleViewed,
        '}' => Command::NextHunk,
        '{' => Command::PreviousHunk,
        'i' => Command::Annotate,
        't' => Command::EditTags,
        'I' => Command::ListAnnotations,
        'T' => Command::CycleTagFilter,
        'v' => Command::ToggleReviewed,
        'V' => Command::CycleReviewFilter,
        'C' => Command::ClearFilters,
        'r' => Command::Reload,
        'y' => Command::CopyName,
        'e' => Command::EditFile,
        'o' => Command::OpenInBrowser,
        'g' => Command::TopPrefix,
        'G' => Command::Bottom,
        '/' => Command::StartSearch,
        '?' => Command::Help,
        'n' => if has_query {
            Command::NextMatch
        } else {
            Command::Nothing
        },
        'N' => if has_query {
            Command::PreviousMatch
        } else {
            Command::Nothing
        },
        _ => Command::Nothing,
    }
}

/// What a key stands for in the viewer.
pub fn find_key_command(key: Key, has_query: bool, panel: FocusedPanel) -> (r: Command)
    ensures
        r == key_command(key, has_query, panel),
{
    match key.code {
        KeyCode::Esc => if has_query {
            Command::ClearSearch
        } else {
            Command::Quit
        },
        KeyCode::Tab => Command::ToggleSidebar,
        KeyCode::Down => if has_query && panel == FocusedPanel::DiffView {
            Command::NextMatch
        } else {
            Command::Down
        },
        KeyCode::Up => if has_query && panel == FocusedPanel::DiffView {
            Command::PreviousMatch
        } else {
            Command::Up
        },
        KeyCode::Left => Command::Left,
        KeyCode::Right => Command::Right,
        KeyCode::Enter => Command::Open,
        KeyCode::PageDown => Command::PageDown,
        KeyCode::PageUp => Command::PageUp,
        KeyCode::Char(c) => {
            if c == 'c' && key.control && has_query {
                return Command::ClearSearch;
            }
            if key.control {
                if let Some(command) = find_control_command(c) {
                    return command;
                }
            }
            find_char_command(c, has_query)
        },
        _ => Command::Nothing,
    }
}

/// The steps that a key leads to while a search is typed.
pub open spec fn search_steps(key: Key) -> Seq<Step> {
    match key.code {
        KeyCode::Esc => seq![Step::CancelSearch],
        KeyCode::Enter => seq![Step::ConfirmSearch],
        KeyCode::Backspace => seq![Step::SearchPop],
        KeyCode::Char(c) => seq![Step::SearchPush(c)],
        _ => seq![],
    }
}

/// The steps that a key leads to while a search is typed.
pub fn handle_search_key(key: Key) -> (steps: Vec<Step>)
    ensures
        steps@ == search_steps(key),
{
    match key.code {
        KeyCode::Esc => vec![Step::CancelSearch],
        KeyCode::Enter => vec![Step::ConfirmSearch],
        KeyCode::Backspace => vec![Step::SearchPop],
        KeyCode::Char(c) => vec![Step::SearchPush(c)],
        _ => Vec::new(),
    }
}

// ---------------------------------------------------------------------------
// The screen
// ---------------------------------------------------------------------------
/// What is left of `a` when `b` is taken away, and nothing where `b` is more.
pub open spec fn minus(a: int, b: int) -> int {
    if a < b {
        0
    } else {
        a - b
    }
}

/// How many rows of the diff the screen shows.
pub open spec fn body_height(env: Env) -> int {
    minus(env.height as int, 2)
}

/// How many lines of the sidebar the screen shows.
pub open spec fn list_height(env: Env) -> int {
    minus(env.height as int, 5)
}

/// How far the diff can be scrolled: five lines below the last row.
pub open spec fn scroll_limit(state: AppState, env: Env) -> int {
    if state.file_diffs@.len() == 0 {
        0
    } else {
        minus(
            state.file_diffs@[state.current_file as int].rows@.len() as int,
            minus(body_height(env), 5),
        )
    }
}

pub(crate) fn body_height_of(env: Env) -> (r: usize)
    ensures
        r == body_height(env),
{
    env.height.saturating_sub(2) as usize
}

pub(crate) fn list_height_of(env: Env) -> (r: usize)
    ensures
        r == list_height(env),
{
    env.height.saturating_sub(5) as usize
}

/// How far the diff can be scrolled.
pub fn max_scroll(state: &AppState, env: Env) -> (r: usize)
    requires
        state.wf(),
    ensures
        r == scroll_limit(*state, env),
{
    if state.file_diffs.len() == 0 {
        0
    } else {
        state.file_diffs[state.current_file].rows.len().saturating_sub(
            body_height_of(env).saturating_sub(5),
        )
    }
}

/// The scroll position of a row; the last one that can be counted where the row lies beyond
/// it.
pub open spec fn position_of(row: int) -> u16 {
    if row > u16::MAX {
        u16::MAX
    } else {
        row as u16
    }
}

fn position_of_row(row: usize) -> (r: u16)
    ensures
        r == position_of(row as int),
{
    if row > u16::MAX as usize {
        u16::MAX
    } else {
        row as u16
    }
}

/// Scrolls to the first match of a search that was confirmed, with some lines above it.
pub fn jump_to_match(state: &mut AppState, line: usize)
    ensures
        *final(state) == (AppState { scroll: position_of(minus(line as int, 5)), ..*old(state) }),
        line < 5 ==> final(state).scroll == 0,
        5 <= line <= 65540 ==> final(state).scroll + 5 == line,
        line > 65540 ==> final(state).scroll == 65535,
{
    state.scroll = position_of_row(line.saturating_sub(5));
}

/// The scroll position that is `by` further down, or the limit.
pub open spec fn scrolled(scroll: u16, by: int, limit: int) -> u16 {
    if scroll + by < limit {
        position_of(scroll + by)
    } else {
        position_of(limit)
    }
}

pub(crate) fn scroll_by(scroll: u16, by: u32, limit: usize) -> (r: u16)
    ensures
        r == scrolled(scroll, by as int, limit as int),
{
    let to: u64 = scroll as u64 + by as u64;
    if to < limit as u64 {
        position_of_row(to as usize)
    } else {
        position_of_row(limit)
    }
}

/// The first line that the sidebar shows, so that the selected one is shown.
pub open spec fn shown_from(selected: usize, scroll: usize, height: int) -> usize {
    if selected >= scroll + height {
        (minus(selected as int, height) + 1) as usize
    } else if selected < scroll {
        selected
    } else {
        scroll
    }
}

/// Scrolls the sidebar so that the selected line is shown.
pub fn ensure_sidebar_visible(state: &mut AppState, visible_height: usize)
    requires
        visible_height > 0 || old(state).sidebar_selected < usize::MAX,
    ensures
        *final(state) == (AppState {
            sidebar_scroll: shown_from(
                old(state).sidebar_selected,
                old(state).sidebar_scroll,
                visible_height as int,
            ),
            ..*old(state)
        }),
{
    let selected = state.sidebar_selected;
    let scroll = state.sidebar_scroll;
    if selected >= scroll && selected - scroll >= visible_height {
        state.sidebar_scroll = selected.saturating_sub(visible_height) + 1;
    } else if selected < scroll {
        state.sidebar_scroll = selected;
    }
}

/// After the sidebar was scrolled the selected line is shown.
pub proof fn selected_line_is_shown(selected: usize, scroll: usize, height: int)
    requires
        height > 0,
    ensures
        shown_from(selected, scroll, height) <= selected < shown_from(selected, scroll, height)
            + height,
{
}

// ---------------------------------------------------------------------------
// The sidebar
// ---------------------------------------------------------------------------
/// The first line from `from` on that shows a file.
pub open spec fn file_row_from(state: AppState, from: int) -> Option<int>
    decreases state.sidebar_visible@.len() - from,
{
    if from >= state.sidebar_visible@.len() {
        None
    } else if state.file_at(from) is Some {
        Some(from)
    } else {
        file_row_from(state, from + 1)
    }
}

/// The last of the first `below` lines that shows a file.
pub open spec fn file_row_below(state: AppState, below: int) -> Option<int>
    decreases below,
{
    if below <= 0 {
        None
    } else if state.file_at(below - 1) is Some {
        Some(below - 1)
    } else {
        file_row_below(state, below - 1)
    }
}

pub(crate) fn find_file_row_from(state: &AppState, from: usize) -> (r: Option<(usize, usize)>)
    ensures
        match r {
            Some((row, file)) => file_row_from(*state, from as int) == Some(row as int)
                && state.file_at(row as int) == Some(file) && row < state.sidebar_visible@.len(),
            None => file_row_from(*state, from as int) is None,
        },
{
    let mut row: usize = from;
    while row < state.sidebar_visible.len()
        invariant
            file_row_from(*state, from as int) == file_row_from(*state, row as int),
        decreases state.sidebar_visible@.len() - row,
    {
        if let Some(file) = state.sidebar_file_at(row) {
            return Some((row, file));
        }
        row += 1;
    }
    None
}

fn find_file_row_below(state: &AppState, below: usize) -> (r: Option<(usize, usize)>)
    ensures
        match r {
            Some((row, file)) => file_row_below(*state, below as int) == Some(row as int)
                && state.file_at(row as int) == Some(file) && row < below,
            None => file_row_below(*state, below as int) is None,
        },
{
    let mut rest: usize = below;
    while rest > 0
        invariant
            rest <= below,
            file_row_below(*state, below as int) == file_row_below(*state, rest as int),
        decreases rest,
    {
        if let Some(file) = state.sidebar_file_at(rest - 1) {
            return Some((rest - 1, file));
        }
        rest -= 1;
    }
    None
}

/// The steps that lead to another commit of the stack.
pub open spec fn commit_steps(index: usize, env: Env) -> Seq<Step> {
    let go = seq![Step::SaveStackedViewed, Step::SetCommit(index), Step::LoadCommit(index)];
    if env.has_persistence {
        go + seq![Step::LoadScope, Step::ApplyFilter]
    } else {
        go
    }
}

/// The steps that lead to another commit of the stack, where it has one of that number.
pub fn navigate_stacked_commit(state: &AppState, index: usize, env: Env) -> (steps: Vec<Step>)
    ensures
        steps@ == (if index < state.stacked_commits@.len() {
            commit_steps(index, env)
        } else {
            seq![]
        }),
{
    if index >= state.stacked_commits.len() {
        return Vec::new();
    }
    let mut steps = vec![Step::SaveStackedViewed, Step::SetCommit(index), Step::LoadCommit(index)];
    if env.has_persistence {
        steps.push(Step::LoadScope);
        steps.push(Step::ApplyFilter);
        assert(steps@ == commit_steps(index, env));
    }
    steps
}

/// The number of the line among the items of the sidebar.
pub open spec fn item_number(state: AppState, row: int) -> usize {
    state.sidebar_visible@[row]
}

/// The steps that follow when a directory of the sidebar is opened or closed.
pub open spec fn directory_steps(state: AppState, row: int, env: Env) -> Seq<Step> {
    if filtering(state) {
        seq![
            Step::ToggleDirectory(item_number(state, row)),
            Step::ApplyFilter,
            Step::EnsureVisible(list_height(env) as usize),
        ]
    } else {
        seq![
            Step::ToggleDirectory(item_number(state, row)),
            Step::EnsureVisible(list_height(env) as usize),
        ]
    }
}

// ---------------------------------------------------------------------------
// Hunks
// ---------------------------------------------------------------------------
/// The first of the hunks, from `from` on, that starts below a row.
pub open spec fn first_below(
    state: AppState,
    hunks: Seq<usize>,
    from: int,
    row: int,
) -> Option<int>
    decreases hunks.len() - from,
{
    if from >= hunks.len() {
        None
    } else if state.file_diffs@[state.current_file as int].hunks@[hunks[from] as int].start > row {
        Some(from)
    } else {
        first_below(state, hunks, from + 1, row)
    }
}

/// The last of the first `n` hunks that starts above a row.
pub open spec fn last_above(state: AppState, hunks: Seq<usize>, n: int, row: int) -> Option<int>
    decreases n,
{
    if n <= 0 {
        None
    } else if state.file_diffs@[state.current_file as int].hunks@[hunks[n - 1] as int].start
        < row {
        Some(n - 1)
    } else {
        last_above(state, hunks, n - 1, row)
    }
}

/// The hunk that is focused next: the one behind the focused one, the same where that is
/// the last, and where none is focused the first below the top of the screen.
pub open spec fn next_hunk(state: AppState, hunks: Seq<usize>) -> usize {
    let current = match state.focused_hunk {
        Some(hunk) => position_in(hunks, 0, hunk),
        None => None,
    };
    match current {
        Some(i) => if i + 1 < hunks.len() {
            hunks[i + 1]
        } else {
            hunks[i]
        },
        None => match first_below(state, hunks, 0, state.scroll + 5) {
            Some(i) => hunks[i],
            None => hunks[0],
        },
    }
}

/// The hunk that is focused before: the one in front of the focused one, the same where
/// that is the first, and where none is focused the last above the top of the screen.
pub open spec fn previous_hunk(state: AppState, hunks: Seq<usize>) -> usize {
    let current = match state.focused_hunk {
        Some(hunk) => position_in(hunks, 0, hunk),
        None => None,
    };
    match current {
        Some(i) => if i > 0 {
            hunks[i - 1]
        } else {
            hunks[i]
        },
        None => match last_above(
            state,
            hunks,
            hunks.len() as int,
            minus(state.scroll as int, 5),
        ) {
            Some(i) => hunks[i],
            None => hunks[hunks.len() - 1],
        },
    }
}

/// The step that scrolls to a hunk of the current file.
pub open spec fn scroll_step(state: AppState, hunk: usize, env: Env) -> Step {
    Step::ScrollToHunk {
        row: state.file_diffs@[state.current_file as int].hunks@[hunk as int].start,
        visible_height: body_height(env) as usize,
        max_scroll: scroll_limit(state, env) as usize,
    }
}

/// The outcome of focusing a hunk of the current file.
pub open spec fn focus_outcome(state: AppState, hunk: usize, env: Env) -> (AppState, Seq<Step>) {
    (
        AppState { focused_hunk: Some(hunk), ..state },
        seq![scroll_step(state, hunk, env)],
    )
}

fn find_next_hunk(state: &AppState, hunks: &Vec<usize>) -> (r: usize)
    requires
        state.wf(),
        state.file_diffs@.len() > 0,
        hunks@ == matching_hunks(*state, state.current_file),
        hunks@.len() > 0,
    ensures
        r == next_hunk(*state, hunks@),
        r < state.file_diffs@[state.current_file as int].hunks@.len(),
{
    let file = &state.file_diffs[state.current_file];
    proof {
        assert(file.hunks.len() == file.hunks@.len());
        passing_hunks_are_ascending(*state, state.current_file, file.hunks@.len() as int);
    }
    let current = match state.focused_hunk {
        Some(hunk) => find_position(hunks, hunk),
        None => None,
    };
    match current {
        Some(i) => if i < hunks.len() - 1 {
            hunks[i + 1]
        } else {
            hunks[i]
        },
        None => {
            let row: usize = state.scroll as usize + 5;
            let mut i: usize = 0;
            while i < hunks.len()
                invariant
                    state.wf(),
                    state.file_diffs@.len() > 0,
                    *file == state.file_diffs@[state.current_file as int],
                    row == state.scroll + 5,
                    i <= hunks@.len(),
                    forall|k: int|
                        0 <= k < hunks@.len() ==> (#[trigger] hunks@[k]) < file.hunks@.len(),
                    first_below(*state, hunks@, 0, row as int) == first_below(
                        *state,
                        hunks@,
                        i as int,
                        row as int,
                    ),
                ensures
                    first_below(*state, hunks@, 0, row as int) == (if i < hunks@.len() {
                        Some(i as int)
                    } else {
                        None
                    }),
                decreases hunks@.len() - i,
            {
                if file.hunks[hunks[i]].start > row {
                    break;
                }
                i += 1;
            }
            if i < hunks.len() {
                hunks[i]
            } else {
                hunks[0]
            }
        },
    }
}

fn find_previous_hunk(state: &AppState, hunks: &Vec<usize>) -> (r: usize)
    requires
        state.wf(),
        state.file_diffs@.len() > 0,
        hunks@ == matching_hunks(*state, state.current_file),
        hunks@.len() > 0,
    ensures
        r == previous_hunk(*state, hunks@),
        r < state.file_diffs@[state.current_file as int].hunks@.len(),
{
    let file = &state.file_diffs[state.current_file];
    proof {
        assert(file.hunks.len() == file.hunks@.len());
        passing_hunks_are_ascending(*state, state.current_file, file.hunks@.len() as int);
    }
    let current = match state.focused_hunk {
        Some(hunk) => find_position(hunks, hunk),
        None => None,
    };
    match current {
        Some(i) => if i > 0 {
            hunks[i - 1]
        } else {
            hunks[i]
        },
        None => {
            let row: usize = state.scroll.saturating_sub(5) as usize;
            let mut n: usize = hunks.len();
            while n > 0
                invariant
                    state.wf(),
                    state.file_diffs@.len() > 0,
                    *file == state.file_diffs@[state.current_file as int],
                    n <= hunks@.len(),
                    forall|k: int|
                        0 <= k < hunks@.len() ==> (#[trigger] hunks@[k]) < file.hunks@.len(),
                    last_above(*state, hunks@, hunks@.len() as int, row as int) == last_above(
                        *state,
                        hunks@,
                        n as int,
                        row as int,
                    ),
                ensures
                    n <= hunks@.len(),
                    last_above(*state, hunks@, hunks@.len() as int, row as int) == (if n > 0 {
                        Some(n - 1)
                    } else {
                        None
                    }),
                decreases n,
            {
                if file.hunks[hunks[n - 1]].start < row {
                    break;
                }
                n -= 1;
            }
            if n > 0 {
                hunks[n - 1]
            } else {
                hunks[hunks.len() - 1]
            }
        },
    }
}

// ---------------------------------------------------------------------------
// What commands do
// ---------------------------------------------------------------------------
/// How many rows half a screen is.
pub open spec fn half_page(env: Env) -> int {
    body_height(env) / 2
}

/// Whether a command can be carried out: one about a file has one.
pub open spec fn can_run(state: AppState, command: Command) -> bool {
    match command {
        Command::ToggleViewed => state.focused_panel == FocusedPanel::Sidebar
            || state.file_diffs@.len() > 0,
        Command::Annotate => state.focused_hunk is None || state.file_diffs@.len() > 0,
        _ => true,
    }
}

/// Whether a command can be carried out.
pub fn is_runnable(state: &AppState, command: Command) -> (r: bool)
    ensures
        r == can_run(*state, command),
{
    match command {
        Command::ToggleViewed => state.focused_panel == FocusedPanel::Sidebar
            || state.file_diffs.len() > 0,
        Command::Annotate => state.focused_hunk.is_none() || state.file_diffs.len() > 0,
        _ => true,
    }
}

/// Whether a command changes the marks on files or hunks. What these do is said by
/// `viewed_toggled` and `review_toggled`.
pub open spec fn changes_marks(command: Command) -> bool {
    command == Command::ToggleViewed || command == Command::ToggleReviewed
}

/// The step that edits the current file, at the first changed line of the focused hunk
/// where there is one.
pub open spec fn edit_step(state: AppState) -> Step {
    let file = state.file_diffs@[state.current_file as int];
    Step::EditFile {
        file_index: state.current_file,
        line: match state.focused_hunk {
            Some(hunk) => if hunk < file.hunks@.len() {
                match change_bounds(file.rows@, file.hunks@[hunk as int]) {
                    Some((first, _)) => row_number(file.rows@[first]),
                    None => None,
                }
            } else {
                None
            },
            None => None,
        },
    }
}

/// The lines of the focused hunk, where there is one.
pub open spec fn focused_lines(state: AppState) -> Option<(usize, usize)> {
    match state.focused_hunk {
        Some(hunk) => if state.current_file < state.file_diffs@.len() {
            hunk_line_range(state.file_diffs@[state.current_file as int], hunk as int)
        } else {
            None
        },
        None => None,
    }
}

/// Whether a command scrolls or moves the cursor.
pub open spec fn scrolls(command: Command) -> bool {
    match command {
        Command::HalfPageDown
        | Command::HalfPageUp
        | Command::Down
        | Command::Up
        | Command::Left
        | Command::Right
        | Command::PageDown
        | Command::PageUp
        | Command::TopPrefix
        | Command::Bottom => true,
        _ => false,
    }
}

/// What a command that scrolls or moves the cursor does.
pub open spec fn scroll_outcome(state: AppState, command: Command, env: Env) -> (
    AppState,
    Seq<Step>,
) {
    let limit = scroll_limit(state, env);
    let none = seq![];
    match command {
        Command::HalfPageDown => (
            AppState { scroll: scrolled(state.scroll, half_page(env), limit), ..state },
            none,
        ),
        Command::HalfPageUp => (
            AppState { scroll: minus(state.scroll as int, half_page(env)) as u16, ..state },
            none,
        ),
        Command::Down => if state.focused_panel == FocusedPanel::Sidebar {
            let selected = if state.sidebar_selected + 1 < state.sidebar_visible@.len() {
                (state.sidebar_selected + 1) as usize
            } else {
                state.sidebar_selected
            };
            (
                AppState {
                    sidebar_selected: selected,
                    sidebar_scroll: shown_from(selected, state.sidebar_scroll, list_height(env)),
                    ..state
                },
                none,
            )
        } else {
            (AppState { scroll: scrolled(state.scroll, 1, limit), ..state }, none)
        },
        Command::Up => if state.focused_panel == FocusedPanel::Sidebar {
            let selected = minus(state.sidebar_selected as int, 1) as usize;
            (
                AppState {
                    sidebar_selected: selected,
                    sidebar_scroll: if selected < state.sidebar_scroll {
                        selected
                    } else {
                        state.sidebar_scroll
                    },
                    ..state
                },
                none,
            )
        } else {
            (AppState { scroll: minus(state.scroll as int, 1) as u16, ..state }, none)
        },
        Command::Left => if state.focused_panel == FocusedPanel::DiffView {
            (AppState { h_scroll: minus(state.h_scroll as int, 4) as u16, ..state }, none)
        } else {
            (
                AppState {
                    sidebar_h_scroll: minus(state.sidebar_h_scroll as int, 4) as u16,
                    ..state
                },
                none,
            )
        },
        Command::Right => if state.focused_panel == FocusedPanel::DiffView {
            (
                AppState {
                    h_scroll: if state.h_scroll + 4 > u16::MAX {
                        u16::MAX
                    } else {
                        (state.h_scroll + 4) as u16
                    },
                    ..state
                },
                none,
            )
        } else {
            (
                AppState {
                    sidebar_h_scroll: if state.sidebar_h_scroll + 4 > u16::MAX {
                        u16::MAX
                    } else {
                        (state.sidebar_h_scroll + 4) as u16
                    },
                    ..state
                },
                none,
            )
        },
        Command::PageDown => (
            AppState { scroll: scrolled(state.scroll, 20, limit), ..state },
            none,
        ),
        Command::PageUp => (
            AppState { scroll: minus(state.scroll as int, 20) as u16, ..state },
            none,
        ),
        Command::TopPrefix => if state.pending_key == PendingKey::G {
            (AppState { scroll: 0, pending_key: PendingKey::Nothing, ..state }, none)
        } else {
            (AppState { pending_key: PendingKey::G, ..state }, none)
        },
        Command::Bottom => (AppState { scroll: position_of(limit), ..state }, none),
        _ => (state, none),
    }
}

/// Whether a command is about the sidebar or the stack of commits.
pub open spec fn is_about_sidebar(command: Command) -> bool {
    match command {
        Command::FocusSidebar
        | Command::FocusDiff
        | Command::ToggleSidebar
        | Command::NextFile
        | Command::PreviousFile
        | Command::NextCommit
        | Command::PreviousCommit
        | Command::Open => true,
        _ => false,
    }
}

/// What a command about the sidebar or the stack of commits does.
pub open spec fn sidebar_outcome(state: AppState, command: Command, env: Env) -> (
    AppState,
    Seq<Step>,
) {
    let has_file = state.file_diffs@.len() > 0;
    let none = seq![];
    match command {
        Command::FocusSidebar => (
            AppState {
                focused_panel: FocusedPanel::Sidebar,
                show_sidebar: true,
                sidebar_selected: if state.file_at(state.sidebar_selected as int) is None
                    && file_row_from(state, 0) is Some {
                    file_row_from(state, 0)->0 as usize
                } else {
                    state.sidebar_selected
                },
                ..state
            },
            none,
        ),
        Command::FocusDiff => (AppState { focused_panel: FocusedPanel::DiffView, ..state }, none),
        Command::ToggleSidebar => (
            AppState {
                show_sidebar: !state.show_sidebar,
                focused_panel: if state.show_sidebar {
                    FocusedPanel::DiffView
                } else {
                    state.focused_panel
                },
                ..state
            },
            none,
        ),
        Command::NextFile => match file_row_from(state, state.sidebar_selected + 1) {
            Some(row) => if has_file {
                (
                    AppState { sidebar_selected: row as usize, ..state },
                    seq![
                        Step::SelectFile(state.file_at(row)->0),
                        Step::EnsureVisible(list_height(env) as usize),
                    ],
                )
            } else {
                (state, none)
            },
            None => (state, none),
        },
        Command::PreviousFile => match file_row_below(state, state.sidebar_selected as int) {
            Some(row) => if has_file {
                (
                    AppState { sidebar_selected: row as usize, ..state },
                    seq![
                        Step::SelectFile(state.file_at(row)->0),
                        Step::EnsureVisible(usize::MAX),
                    ],
                )
            } else {
                (state, none)
            },
            None => (state, none),
        },
        Command::NextCommit => (
            state,
            if state.stacked_mode && state.current_commit_index < state.stacked_commits@.len() - 1 {
                commit_steps((state.current_commit_index + 1) as usize, env)
            } else {
                none
            },
        ),
        Command::PreviousCommit => (
            state,
            if state.stacked_mode && 0 < state.current_commit_index
                && state.current_commit_index - 1 < state.stacked_commits@.len() {
                commit_steps((state.current_commit_index - 1) as usize, env)
            } else {
                none
            },
        ),
        Command::Open => (
            state,
            if state.focused_panel == FocusedPanel::Sidebar {
                match state.item_at(state.sidebar_selected as int) {
                    Some(SidebarItem::File { path: _, file_index }) => seq![
                        Step::SelectFile(file_index),
                        Step::SetPanel(FocusedPanel::DiffView),
                    ],
                    Some(SidebarItem::Directory { path: _ }) => directory_steps(
                        state,
                        state.sidebar_selected as int,
                        env,
                    ),
                    None => none,
                }
            } else {
                none
            },
        ),
        _ => (state, none),
    }
}

/// Whether a command changes what is shown.
pub open spec fn changes_display(command: Command) -> bool {
    match command {
        Command::PickFile
        | Command::ToggleNewSide
        | Command::ToggleOldSide
        | Command::ShowBothSides
        | Command::NextHunk
        | Command::PreviousHunk
        | Command::CycleTagFilter
        | Command::CycleReviewFilter
        | Command::ClearFilters
        | Command::Reload => true,
        _ => false,
    }
}

/// What a command that changes what is shown does.
pub open spec fn display_outcome(state: AppState, command: Command, env: Env) -> (
    AppState,
    Seq<Step>,
) {
    let has_file = state.file_diffs@.len() > 0;
    let file = state.file_diffs@[state.current_file as int];
    let limit = scroll_limit(state, env);
    let none = seq![];
    match command {
        Command::PickFile => (
            state,
            if has_file {
                seq![Step::OpenFilePicker]
            } else {
                none
            },
        ),
        Command::ToggleNewSide => (
            if has_file && file.new_content@.len() > 0 {
                AppState {
                    diff_fullscreen: if state.diff_fullscreen == DiffFullscreen::NewOnly {
                        DiffFullscreen::SideBySide
                    } else {
                        DiffFullscreen::NewOnly
                    },
                    ..state
                }
            } else {
                state
            },
            none,
        ),
        Command::ToggleOldSide => (
            if has_file && file.old_content@.len() > 0 {
                AppState {
                    diff_fullscreen: if state.diff_fullscreen == DiffFullscreen::OldOnly {
                        DiffFullscreen::SideBySide
                    } else {
                        DiffFullscreen::OldOnly
                    },
                    ..state
                }
            } else {
                state
            },
            none,
        ),
        Command::ShowBothSides => (
            AppState { diff_fullscreen: DiffFullscreen::SideBySide, ..state },
            none,
        ),
        Command::NextHunk => if !has_file {
            (state, none)
        } else if matching_hunks(state, state.current_file).len() == 0 {
            (AppState { focused_hunk: None, ..state }, none)
        } else {
            focus_outcome(
                state,
                next_hunk(state, matching_hunks(state, state.current_file)),
                env,
            )
        },
        Command::PreviousHunk => if !has_file {
            (state, none)
        } else if matching_hunks(state, state.current_file).len() == 0 {
            (AppState { focused_hunk: None, ..state }, none)
        } else {
            focus_outcome(
                state,
                previous_hunk(state, matching_hunks(state, state.current_file)),
                env,
            )
        },
        Command::CycleTagFilter => (
            AppState {
                tag_filter: filter_after(state.tag_filter, state.tag_inventory@),
                ..state
            },
            seq![
                Step::ApplyFilter,
                Step::FocusFirstMatch {
                    visible_height: body_height(env) as usize,
                    max_scroll: limit as usize,
                },
            ],
        ),
        Command::CycleReviewFilter => (
            AppState { review_filter: review_filter_after(state.review_filter), ..state },
            seq![
                Step::ApplyFilter,
                Step::FocusFirstMatch {
                    visible_height: body_height(env) as usize,
                    max_scroll: limit as usize,
                },
            ],
        ),
        Command::ClearFilters => (
            AppState { tag_filter: None, review_filter: ReviewFilter::All, ..state },
            seq![Step::ApplyFilter],
        ),
        Command::Reload => (AppState { needs_reload: true, ..state }, none),
        _ => (state, none),
    }
}

/// The steps that follow a command that leaves the state as it is.
pub open spec fn dialog_steps(state: AppState, command: Command, env: Env) -> Seq<Step> {
    let has_file = state.file_diffs@.len() > 0;
    let limit = scroll_limit(state, env);
    let none = seq![];
    match command {
        Command::ClearSearch => seq![Step::ClearSearch],
        Command::Quit => seq![Step::SaveViewState, Step::Quit],
        Command::NextMatch => seq![
            Step::SearchNext {
                visible_height: body_height(env) as usize,
                max_scroll: limit as usize,
            },
        ],
        Command::PreviousMatch => seq![
            Step::SearchPrevious {
                visible_height: body_height(env) as usize,
                max_scroll: limit as usize,
            },
        ],
        Command::Annotate => match focused_lines(state) {
            Some(line_range) => seq![
                Step::OpenAnnotationEditor {
                    file_index: state.current_file,
                    hunk_index: state.focused_hunk->0,
                    line_range,
                },
            ],
            None => none,
        },
        Command::EditTags => match focused_lines(state) {
            Some(line_range) => if env.tag_editor_open {
                none
            } else {
                seq![
                    Step::OpenTagEditor {
                        file_index: state.current_file,
                        hunk_index: state.focused_hunk->0,
                        line_range,
                    },
                ]
            },
            None => none,
        },
        Command::ListAnnotations => if state.annotations@.len() > 0 {
            seq![Step::OpenAnnotationList]
        } else {
            none
        },
        Command::CopyName => if has_file {
            seq![Step::CopyFilename(state.current_file)]
        } else {
            none
        },
        Command::EditFile => if has_file {
            seq![edit_step(state)]
        } else {
            none
        },
        Command::OpenInBrowser => if env.pr_mode && has_file {
            seq![Step::OpenInBrowser(state.current_file)]
        } else {
            none
        },
        Command::StartSearch => seq![Step::StartSearch],
        Command::Help => seq![Step::OpenHelp],
        _ => none,
    }
}

/// What a command other than those on marks does: the state after it, and the steps that
/// follow.
pub open spec fn outcome(state: AppState, command: Command, env: Env) -> (AppState, Seq<Step>) {
    if scrolls(command) {
        scroll_outcome(state, command, env)
    } else if is_about_sidebar(command) {
        sidebar_outcome(state, command, env)
    } else if changes_display(command) {
        display_outcome(state, command, env)
    } else {
        (state, dialog_steps(state, command, env))
    }
}

fn edit_step_of(state: &AppState) -> (r: Step)
    requires
        state.wf(),
        state.file_diffs@.len() > 0,
    ensures
        r == edit_step(*state),
{
    let file = &state.file_diffs[state.current_file];
    let line = match state.focused_hunk {
        Some(hunk) => if hunk < file.hunks.len() {
            match hunk_change_bounds(&file.rows, file.hunks[hunk]) {
                Some((first, _)) => {
                    let row = &file.rows[first];
                    match &row.new_line {
                        Some((n, _)) => Some(*n),
                        None => match &row.old_line {
                            Some((n, _)) => Some(*n),
                            None => None,
                        },
                    }
                },
                None => None,
            }
        } else {
            None
        },
        None => None,
    };
    Step::EditFile { file_index: state.current_file, line }
}

fn find_focused_lines(state: &AppState) -> (r: Option<(usize, usize)>)
    requires
        state.wf(),
    ensures
        r == focused_lines(*state),
{
    match state.focused_hunk {
        Some(hunk) => compute_hunk_line_range(&state.file_diffs, state.current_file, hunk),
        None => None,
    }
}

/// Carries out a command that scrolls or moves the cursor.
fn run_scroll_command(state: &mut AppState, command: Command, env: Env) -> (steps: Vec<Step>)
    requires
        old(state).wf(),
        can_run(*old(state), command),
        scrolls(command),
    ensures
        (*final(state), steps@) == scroll_outcome(*old(state), command, env),
{
    let limit = max_scroll(state, env);
    let half: u16 = (body_height_of(env) / 2) as u16;
    match command {
        Command::HalfPageDown => {
            state.scroll = scroll_by(state.scroll, half as u32, limit);
            Vec::new()
        },
        Command::HalfPageUp => {
            state.scroll = state.scroll.saturating_sub(half);
            Vec::new()
        },
        Command::Down => {
            if state.focused_panel == FocusedPanel::Sidebar {
                if state.sidebar_selected + 1 < state.sidebar_visible.len() {
                    state.sidebar_selected = state.sidebar_selected + 1;
                }
                ensure_sidebar_visible(state, list_height_of(env));
            } else {
                state.scroll = scroll_by(state.scroll, 1, limit);
            }
            Vec::new()
        },
        Command::Up => {
            if state.focused_panel == FocusedPanel::Sidebar {
                state.sidebar_selected = state.sidebar_selected.saturating_sub(1);
                ensure_sidebar_visible(state, usize::MAX);
            } else {
                state.scroll = state.scroll.saturating_sub(1);
            }
            Vec::new()
        },
        Command::Left => {
            if state.focused_panel == FocusedPanel::DiffView {
                state.h_scroll = state.h_scroll.saturating_sub(4);
            } else {
                state.sidebar_h_scroll = state.sidebar_h_scroll.saturating_sub(4);
            }
            Vec::new()
        },
        Command::Right => {
            if state.focused_panel == FocusedPanel::DiffView {
                state.h_scroll = state.h_scroll.saturating_add(4);
            } else {
                state.sidebar_h_scroll = state.sidebar_h_scroll.saturating_add(4);
            }
            Vec::new()
        },
        Command::PageDown => {
            state.scroll = scroll_by(state.scroll, 20, limit);
            Vec::new()
        },
        Command::PageUp => {
            state.scroll = state.scroll.saturating_sub(20);
            Vec::new()
        },
        Command::TopPrefix => {
            if state.pending_key == PendingKey::G {
                state.scroll = 0;
                state.pending_key = PendingKey::Nothing;
            } else {
                state.pending_key = PendingKey::G;
            }
            Vec::new()
        },
        Command::Bottom => {
            state.scroll = position_of_row(limit);
            Vec::new()
        },
        _ => Vec::new(),
    }
}

/// Carries out a command about the sidebar or the stack of commits.
fn run_sidebar_command(state: &mut AppState, command: Command, env: Env) -> (steps: Vec<Step>)
    requires
        old(state).wf(),
        can_run(*old(state), command),
        is_about_sidebar(command),
    ensures
        (*final(state), steps@) == sidebar_outcome(*old(state), command, env),
{
    let has_file = state.file_diffs.len() > 0;
    match command {
        Command::FocusSidebar => {
            state.focused_panel = FocusedPanel::Sidebar;
            state.show_sidebar = true;
            if state.sidebar_file_at(state.sidebar_selected).is_none() {
                let found = find_file_row_from(state, 0);
                proof {
                    lemma_rows_same(*old(state), *state, 0);
                }
                if let Some((row, _)) = found {
                    state.sidebar_selected = row;
                }
            }
            Vec::new()
        },
        Command::FocusDiff => {
            state.focused_panel = FocusedPanel::DiffView;
            Vec::new()
        },
        Command::ToggleSidebar => {
            state.show_sidebar = !state.show_sidebar;
            if !state.show_sidebar {
                state.focused_panel = FocusedPanel::DiffView;
            }
            Vec::new()
        },
        Command::NextFile => {
            if has_file {
                if let Some((row, file)) = find_file_row_from(state, state.sidebar_selected + 1) {
                    state.sidebar_selected = row;
                    return vec![Step::SelectFile(file), Step::EnsureVisible(list_height_of(env))];
                }
            }
            Vec::new()
        },
        Command::PreviousFile => {
            if has_file {
                if let Some((row, file)) = find_file_row_below(state, state.sidebar_selected) {
                    state.sidebar_selected = row;
                    return vec![Step::SelectFile(file), Step::EnsureVisible(usize::MAX)];
                }
            }
            Vec::new()
        },
        Command::NextCommit => {
            if state.stacked_mode && state.current_commit_index < state.stacked_commits.len() - 1 {
                navigate_stacked_commit(state, state.current_commit_index + 1, env)
            } else {
                Vec::new()
            }
        },
        Command::PreviousCommit => {
            if state.stacked_mode && state.current_commit_index > 0 {
                navigate_stacked_commit(state, state.current_commit_index - 1, env)
            } else {
                Vec::new()
            }
        },
        Command::Open => open_selected(state, env),
        _ => Vec::new(),
    }
}

/// Carries out a command that changes what is shown.
fn run_display_command(state: &mut AppState, command: Command, env: Env) -> (steps: Vec<Step>)
    requires
        old(state).wf(),
        can_run(*old(state), command),
        changes_display(command),
    ensures
        (*final(state), steps@) == display_outcome(*old(state), command, env),
{
    let visible_height = body_height_of(env);
    let limit = max_scroll(state, env);
    let has_file = state.file_diffs.len() > 0;
    match command {
        Command::PickFile => if has_file {
            vec![Step::OpenFilePicker]
        } else {
            Vec::new()
        },
        Command::ToggleNewSide => {
            if has_file && !state.file_diffs[state.current_file].new_content.as_str().is_empty() {
                state.diff_fullscreen = if state.diff_fullscreen == DiffFullscreen::NewOnly {
                    DiffFullscreen::SideBySide
                } else {
                    DiffFullscreen::NewOnly
                };
            }
            Vec::new()
        },
        Command::ToggleOldSide => {
            if has_file && !state.file_diffs[state.current_file].old_content.as_str().is_empty() {
                state.diff_fullscreen = if state.diff_fullscreen == DiffFullscreen::OldOnly {
                    DiffFullscreen::SideBySide
                } else {
                    DiffFullscreen::OldOnly
                };
            }
            Vec::new()
        },
        Command::ShowBothSides => {
            state.diff_fullscreen = DiffFullscreen::SideBySide;
            Vec::new()
        },
        Command::NextHunk => focus_neighbour(state, true, env),
        Command::PreviousHunk => focus_neighbour(state, false, env),
        Command::CycleTagFilter => {
            state.tag_filter = next_tag_filter(&state.tag_filter, &state.tag_inventory);
            vec![
                Step::ApplyFilter,
                Step::FocusFirstMatch { visible_height, max_scroll: limit },
            ]
        },
        Command::CycleReviewFilter => {
            state.review_filter = next_review_filter(state.review_filter);
            vec![
                Step::ApplyFilter,
                Step::FocusFirstMatch { visible_height, max_scroll: limit },
            ]
        },
        Command::ClearFilters => {
            state.tag_filter = None;
            state.review_filter = ReviewFilter::All;
            vec![Step::ApplyFilter]
        },
        Command::Reload => {
            state.needs_reload = true;
            Vec::new()
        },
        _ => Vec::new(),
    }
}

/// Carries out a command that leaves the state as it is.
fn run_dialog_command(state: &AppState, command: Command, env: Env) -> (steps: Vec<Step>)
    requires
        state.wf(),
        can_run(*state, command),
    ensures
        steps@ == dialog_steps(*state, command, env),
{
    let visible_height = body_height_of(env);
    let limit = max_scroll(state, env);
    let has_file = state.file_diffs.len() > 0;
    match command {
        Command::Nothing => Vec::new(),
        Command::ClearSearch => vec![Step::ClearSearch],
        Command::Quit => vec![Step::SaveViewState, Step::Quit],
        Command::NextMatch => vec![Step::SearchNext { visible_height, max_scroll: limit }],
        Command::PreviousMatch => vec![Step::SearchPrevious { visible_height, max_scroll: limit }],
        Command::Annotate => match find_focused_lines(state) {
            Some(line_range) => match state.focused_hunk {
                Some(hunk_index) => vec![
                    Step::OpenAnnotationEditor {
                        file_index: state.current_file,
                        hunk_index,
                        line_range,
                    },
                ],
                None => Vec::new(),
            },
            None => Vec::new(),
        },
        Command::EditTags => match find_focused_lines(state) {
            Some(line_range) => match state.focused_hunk {
                Some(hunk_index) => if env.tag_editor_open {
                    Vec::new()
                } else {
                    vec![
                        Step::OpenTagEditor {
                            file_index: state.current_file,
                            hunk_index,
                            line_range,
                        },
                    ]
                },
                None => Vec::new(),
            },
            None => Vec::new(),
        },
        Command::ListAnnotations => if state.annotations.len() > 0 {
            vec![Step::OpenAnnotationList]
        } else {
            Vec::new()
        },
        Command::CopyName => if has_file {
            vec![Step::CopyFilename(state.current_file)]
        } else {
            Vec::new()
        },
        Command::EditFile => if has_file {
            vec![edit_step_of(state)]
        } else {
            Vec::new()
        },
        Command::OpenInBrowser => if env.pr_mode && has_file {
            vec![Step::OpenInBrowser(state.current_file)]
        } else {
            Vec::new()
        },
        Command::StartSearch => vec![Step::StartSearch],
        Command::Help => vec![Step::OpenHelp],
        _ => Vec::new(),
    }
}

/// Carries out a command other than those on marks, and returns the steps that follow.
pub fn run_command(state: &mut AppState, command: Command, env: Env) -> (steps: Vec<Step>)
    requires
        old(state).wf(),
        can_run(*old(state), command),
        !changes_marks(command),
    ensures
        (*final(state), steps@) == outcome(*old(state), command, env),
{
    match command {
        Command::HalfPageDown
        | Command::HalfPageUp
        | Command::Down
        | Command::Up
        | Command::Left
        | Command::Right
        | Command::PageDown
        | Command::PageUp
        | Command::TopPrefix
        | Command::Bottom => run_scroll_command(
            state,
            command,
            env,
        ),
        Command::FocusSidebar
        | Command::FocusDiff
        | Command::ToggleSidebar
        | Command::NextFile
        | Command::PreviousFile
        | Command::NextCommit
        | Command::PreviousCommit
        | Command::Open => run_sidebar_command(
            state,
            command,
            env,
        ),
        Command::PickFile
        | Command::ToggleNewSide
        | Command::ToggleOldSide
        | Command::ShowBothSides
        | Command::NextHunk
        | Command::PreviousHunk
        | Command::CycleTagFilter
        | Command::CycleReviewFilter
        | Command::ClearFilters
        | Command::Reload => run_display_command(
            state,
            command,
            env,
        ),
        Command::ToggleViewed | Command::ToggleReviewed => Vec::new(),
        _ => run_dialog_command(state, command, env),
    }
}

proof fn lemma_rows_same(a: AppState, b: AppState, from: int)
    requires
        a.sidebar_visible == b.sidebar_visible,
        a.sidebar_items == b.sidebar_items,
    ensures
        file_row_from(a, from) == file_row_from(b, from),
    decreases a.sidebar_visible@.len() - from,
{
    if from < a.sidebar_visible@.len() && a.file_at(from) is None {
        lemma_rows_same(a, b, from + 1);
    }
}

fn open_selected(state: &AppState, env: Env) -> (steps: Vec<Step>)
    requires
        state.wf(),
    ensures
        steps@ == sidebar_outcome(*state, Command::Open, env).1,
{
    if state.focused_panel != FocusedPanel::Sidebar {
        return Vec::new();
    }
    let row = state.sidebar_selected;
    match state.sidebar_item_at_visible(row) {
        Some(SidebarItem::File { path: _, file_index }) => vec![
            Step::SelectFile(*file_index),
            Step::SetPanel(FocusedPanel::DiffView),
        ],
        Some(SidebarItem::Directory { path: _ }) => {
            let toggle = Step::ToggleDirectory(state.sidebar_visible[row]);
            if is_filtering(state) {
                vec![toggle, Step::ApplyFilter, Step::EnsureVisible(list_height_of(env))]
            } else {
                vec![toggle, Step::EnsureVisible(list_height_of(env))]
            }
        },
        None => Vec::new(),
    }
}

/// Focuses the next or the previous hunk.
fn focus_neighbour(state: &mut AppState, forward: bool, env: Env) -> (steps: Vec<Step>)
    requires
        old(state).wf(),
    ensures
        (*final(state), steps@) == outcome(
            *old(state),
            if forward {
                Command::NextHunk
            } else {
                Command::PreviousHunk
            },
            env,
        ),
{
    if state.file_diffs.len() == 0 {
        return Vec::new();
    }
    let limit = max_scroll(state, env);
    let matching = matching_hunk_indices(state, state.current_file);
    if matching.len() == 0 {
        state.focused_hunk = None;
        return Vec::new();
    }
    let hunk = if forward {
        find_next_hunk(state, &matching)
    } else {
        find_previous_hunk(state, &matching)
    };
    let row = state.file_diffs[state.current_file].hunks[hunk].start;
    state.focused_hunk = Some(hunk);
    vec![Step::ScrollToHunk { row, visible_height: body_height_of(env), max_scroll: limit }]
}

} // verus!
