//! How the viewer reacts to keys and to the mouse, and the steps that it carries out
//! itself.

use vstd::prelude::*;

use crate::filters::{
    filtering, hunk_passes, is_filtering, matching_files, matching_files_for_filter,
    matching_hunk_indices, matching_hunks, passing_hunks_are_ascending, position_in,
};
use crate::keys::{Key, KeyCode, Mouse, MouseKind};
use crate::state::{AppState, FocusedPanel, PendingKey, SidebarItem};
use crate::viewer::{
    can_run, commit_steps, ensure_sidebar_visible, file_row_below, file_row_from,
    find_file_row_from, find_key_command, find_key_target, first_below, handle_search_key,
    is_runnable, item_number, key_command, key_target, last_above, list_height, list_height_of,
    max_scroll, minus, navigate_stacked_commit, outcome, run_command, scroll_by, scroll_limit,
    scrolled, search_steps, shown_from, Command, Env, KeyTarget, Step,
};
use crate::viewer_marks::{
    review_toggled, toggle_reviewed, toggle_viewed, unviewed_row, viewed_toggled,
};

verus! {

broadcast use vstd::std_specs::hash::group_hash_axioms;

// ---------------------------------------------------------------------------
// Keys
// ---------------------------------------------------------------------------
/// The state in which the command of a key is carried out: any key but `g` ends a sequence
/// that `g` began.
pub open spec fn before_command(state: AppState, key: Key) -> AppState {
    if key.code == KeyCode::Char('g') {
        state
    } else {
        AppState { pending_key: PendingKey::Nothing, ..state }
    }
}

/// What a key does in the viewer.
pub open spec fn viewer_key_handled(
    before: AppState,
    after: AppState,
    steps: Seq<Step>,
    key: Key,
    env: Env,
) -> bool {
    let command = key_command(key, env.has_query, before.focused_panel);
    let start = before_command(before, key);
    match command {
        Command::ToggleViewed => viewed_toggled(start, after, steps, env),
        Command::ToggleReviewed => review_toggled(start, after, steps),
        _ => (after, steps) == outcome(start, command, env),
    }
}

/// What a key does, wherever it goes.
pub open spec fn key_handled(
    before: AppState,
    after: AppState,
    steps: Seq<Step>,
    key: Key,
    env: Env,
) -> bool {
    match key_target(env) {
        KeyTarget::Search => after == before && steps == search_steps(key),
        KeyTarget::TagEditor => after == before && steps == seq![Step::TagEditorKey],
        KeyTarget::AnnotationEditor => after == before && steps == seq![Step::AnnotationEditorKey],
        KeyTarget::Modal => after == before && steps == seq![Step::ModalKey],
        KeyTarget::Viewer => viewer_key_handled(before, after, steps, key, env),
    }
}

/// Whether a key can be handled.
pub open spec fn can_handle(state: AppState, key: Key, env: Env) -> bool {
    key_target(env) == KeyTarget::Viewer ==> can_run(
        state,
        key_command(key, env.has_query, state.focused_panel),
    )
}

/// Whether a key can be handled.
pub fn can_handle_key(state: &AppState, key: Key, env: Env) -> (r: bool)
    ensures
        r == can_handle(*state, key, env),
{
    find_key_target(env) != KeyTarget::Viewer || is_runnable(
        state,
        find_key_command(key, env.has_query, state.focused_panel),
    )
}

fn one_step(step: Step) -> (steps: Vec<Step>)
    ensures
        steps@ == seq![step],
{
    vec![step]
}

/// Handles a key, and returns the steps that follow.
pub fn handle_key(state: &mut AppState, key: Key, env: Env) -> (steps: Vec<Step>)
    requires
        old(state).wf(),
        can_handle(*old(state), key, env),
    ensures
        key_handled(*old(state), *final(state), steps@, key, env),
{
    match find_key_target(env) {
        KeyTarget::Search => handle_search_key(key),
        KeyTarget::TagEditor => one_step(Step::TagEditorKey),
        KeyTarget::AnnotationEditor => one_step(Step::AnnotationEditorKey),
        KeyTarget::Modal => one_step(Step::ModalKey),
        KeyTarget::Viewer => {
            let command = find_key_command(key, env.has_query, state.focused_panel);
            if key.code != KeyCode::Char('g') {
                state.pending_key = PendingKey::Nothing;
            }
            match command {
                Command::ToggleViewed => toggle_viewed(state, env),
                Command::ToggleReviewed => toggle_reviewed(state),
                _ => run_command(state, command, env),
            }
        },
    }
}

// ---------------------------------------------------------------------------
// Steps
// ---------------------------------------------------------------------------
/// The line that shows a file, from `from` on.
pub open spec fn row_of_file(state: AppState, from: int, file: usize) -> Option<int>
    decreases state.sidebar_visible@.len() - from,
{
    if from >= state.sidebar_visible@.len() {
        None
    } else if state.file_at(from) == Some(file) {
        Some(from)
    } else {
        row_of_file(state, from + 1, file)
    }
}

/// The line of the sidebar that shows a file.
pub fn sidebar_visible_index_for_file(state: &AppState, file: usize) -> (r: Option<usize>)
    ensures
        match r {
            Some(row) => row_of_file(*state, 0, file) == Some(row as int) && row
                < state.sidebar_visible@.len(),
            None => row_of_file(*state, 0, file) is None,
        },
{
    let mut row: usize = 0;
    while row < state.sidebar_visible.len()
        invariant
            row_of_file(*state, 0, file) == row_of_file(*state, row as int, file),
        decreases state.sidebar_visible@.len() - row,
    {
        if let Some(f) = state.sidebar_file_at(row) {
            if f == file {
                return Some(row);
            }
        }
        row += 1;
    }
    None
}

/// Whether a step is carried out by `perform`.
pub open spec fn is_own(step: Step) -> bool {
    match step {
        Step::ApplyFilter => true,
        Step::SettleFilter => true,
        Step::SetCommit(_) => true,
        Step::SetPanel(_) => true,
        Step::EnsureVisible(_) => true,
        Step::SelectInSidebar(_) => true,
        Step::FocusFirstMatch { visible_height: _, max_scroll: _ } => true,
        Step::FocusHunk { file_index: _, hunk_index: _, visible_height: _, max_scroll: _ } => true,
        Step::SetFocus(_) => true,
        _ => false,
    }
}

/// Whether a step is carried out by `perform`.
pub fn is_own_step(step: Step) -> (r: bool)
    ensures
        r == is_own(step),
{
    match step {
        Step::ApplyFilter => true,
        Step::SettleFilter => true,
        Step::SetCommit(_) => true,
        Step::SetPanel(_) => true,
        Step::EnsureVisible(_) => true,
        Step::SelectInSidebar(_) => true,
        Step::FocusFirstMatch { visible_height: _, max_scroll: _ } => true,
        Step::FocusHunk { file_index: _, hunk_index: _, visible_height: _, max_scroll: _ } => true,
        Step::SetFocus(_) => true,
        _ => false,
    }
}

/// Whether a step is about a file that there is.
pub open spec fn step_has_file(state: AppState, step: Step) -> bool {
    match step {
        Step::FocusHunk { file_index, hunk_index: _, visible_height: _, max_scroll: _ } => file_index
            < state.file_diffs@.len(),
        _ => true,
    }
}

/// What a step of the viewer's own does: the state after it, and the steps that take its
/// place.
pub open spec fn step_outcome(state: AppState, step: Step) -> (AppState, Seq<Step>) {
    match step {
        Step::ApplyFilter => (
            state,
            if filtering(state) {
                seq![Step::RebuildSidebarFiltered, Step::SettleFilter]
            } else {
                seq![Step::RebuildSidebar]
            },
        ),
        Step::SettleFilter => if matching_files(state).contains(state.current_file) {
            (state, seq![])
        } else {
            match file_row_from(state, 0) {
                Some(row) => (state, seq![Step::SelectFile(state.file_at(row)->0)]),
                None => (AppState { current_file: 0, focused_hunk: None, ..state }, seq![]),
            }
        },
        Step::SetCommit(index) => (AppState { current_commit_index: index, ..state }, seq![]),
        Step::SetPanel(panel) => (AppState { focused_panel: panel, ..state }, seq![]),
        Step::EnsureVisible(height) => (
            AppState {
                sidebar_scroll: shown_from(
                    state.sidebar_selected,
                    state.sidebar_scroll,
                    height as int,
                ),
                ..state
            },
            seq![],
        ),
        Step::SelectInSidebar(height) => match row_of_file(state, 0, state.current_file) {
            Some(row) => (
                AppState {
                    sidebar_selected: row as usize,
                    sidebar_scroll: shown_from(row as usize, state.sidebar_scroll, height as int),
                    ..state
                },
                seq![],
            ),
            None => (state, seq![]),
        },
        Step::FocusFirstMatch { visible_height, max_scroll } => if filtering(state)
            && state.current_file < state.file_diffs@.len() {
            let matching = matching_hunks(state, state.current_file);
            if matching.len() > 0 {
                (
                    AppState { focused_hunk: Some(matching[0]), ..state },
                    seq![
                        Step::ScrollToHunk {
                            row: state.file_diffs@[state.current_file as int].hunks@[matching[0] as int].start,
                            visible_height,
                            max_scroll,
                        },
                    ],
                )
            } else {
                (AppState { focused_hunk: None, ..state }, seq![])
            }
        } else {
            (state, seq![])
        },
        Step::FocusHunk { file_index, hunk_index, visible_height, max_scroll } => (
            AppState { focused_hunk: Some(hunk_index), ..state },
            if hunk_index < state.file_diffs@[file_index as int].hunks@.len() {
                seq![
                    Step::ScrollToHunk {
                        row: state.file_diffs@[file_index as int].hunks@[hunk_index as int].start,
                        visible_height,
                        max_scroll,
                    },
                ]
            } else {
                seq![]
            },
        ),
        Step::SetFocus(hunk) => (AppState { focused_hunk: Some(hunk), ..state }, seq![]),
        _ => (state, seq![]),
    }
}

/// Carries out a step of the viewer's own, and returns the steps that take its place.
pub fn perform(state: &mut AppState, step: Step) -> (steps: Vec<Step>)
    requires
        old(state).wf(),
        is_own(step),
        step_has_file(*old(state), step),
    ensures
        (*final(state), steps@) == step_outcome(*old(state), step),
{
    match step {
        Step::ApplyFilter => if is_filtering(state) {
            vec![Step::RebuildSidebarFiltered, Step::SettleFilter]
        } else {
            vec![Step::RebuildSidebar]
        },
        Step::SettleFilter => settle_filter(state),
        Step::SetCommit(index) => {
            state.current_commit_index = index;
            Vec::new()
        },
        Step::SetPanel(panel) => {
            state.focused_panel = panel;
            Vec::new()
        },
        Step::EnsureVisible(height) => {
            ensure_sidebar_visible(state, height);
            Vec::new()
        },
        Step::SelectInSidebar(height) => {
            if let Some(row) = sidebar_visible_index_for_file(state, state.current_file) {
                assert(state.sidebar_visible.len() == state.sidebar_visible@.len());
                state.sidebar_selected = row;
                ensure_sidebar_visible(state, height);
            }
            Vec::new()
        },
        Step::FocusFirstMatch { visible_height, max_scroll } => focus_first_match(
            state,
            visible_height,
            max_scroll,
        ),
        Step::FocusHunk { file_index, hunk_index, visible_height, max_scroll } => {
            state.focused_hunk = Some(hunk_index);
            let file = &state.file_diffs[file_index];
            if hunk_index < file.hunks.len() {
                vec![
                    Step::ScrollToHunk {
                        row: file.hunks[hunk_index].start,
                        visible_height,
                        max_scroll,
                    },
                ]
            } else {
                Vec::new()
            }
        },
        Step::SetFocus(hunk) => {
            state.focused_hunk = Some(hunk);
            Vec::new()
        },
        _ => Vec::new(),
    }
}

fn settle_filter(state: &mut AppState) -> (steps: Vec<Step>)
    ensures
        (*final(state), steps@) == step_outcome(*old(state), Step::SettleFilter),
{
    if matching_files_for_filter(state).contains(&state.current_file) {
        return Vec::new();
    }
    match find_file_row_from(state, 0) {
        Some((_, file)) => vec![Step::SelectFile(file)],
        None => {
            state.current_file = 0;
            state.focused_hunk = None;
            Vec::new()
        },
    }
}

fn focus_first_match(state: &mut AppState, visible_height: usize, max_scroll: usize) -> (steps: Vec<
    Step,
>)
    ensures
        (*final(state), steps@) == step_outcome(
            *old(state),
            Step::FocusFirstMatch { visible_height, max_scroll },
        ),
{
    if !is_filtering(state) || state.current_file >= state.file_diffs.len() {
        return Vec::new();
    }
    let matching = matching_hunk_indices(state, state.current_file);
    if matching.len() == 0 {
        state.focused_hunk = None;
        return Vec::new();
    }
    let first = matching[0];
    proof {
        let file = state.file_diffs@[state.current_file as int];
        assert(file.hunks.len() == file.hunks@.len());
        passing_hunks_are_ascending(
            *state,
            state.current_file,
            file.hunks@.len() as int,
        );
    }
    let row = state.file_diffs[state.current_file].hunks[first].start;
    state.focused_hunk = Some(first);
    vec![Step::ScrollToHunk { row, visible_height, max_scroll }]
}

// ---------------------------------------------------------------------------
// The mouse
// ---------------------------------------------------------------------------
/// How far one turn of the wheel scrolls.
pub open spec fn wheel(kind: MouseKind) -> int {
    match kind {
        MouseKind::ScrollDown => 3,
        MouseKind::ScrollUp => -3,
        _ => 0,
    }
}

/// The distance after one more turn of the wheel; nothing where the event is no such turn.
pub fn add_wheel(delta: i32, kind: MouseKind) -> (r: Option<i32>)
    requires
        i32::MIN + 3 <= delta <= i32::MAX - 3,
    ensures
        r == (if wheel(kind) == 0 {
            None
        } else {
            Some((delta + wheel(kind)) as i32)
        }),
{
    match kind {
        MouseKind::ScrollDown => Some(delta + 3),
        MouseKind::ScrollUp => Some(delta - 3),
        _ => None,
    }
}

/// The number of lines above the viewer.
pub open spec fn header_height(state: AppState) -> int {
    if state.stacked_mode {
        1
    } else {
        0
    }
}

/// The width of the sidebar.
pub open spec fn sidebar_width(state: AppState) -> int {
    if state.show_sidebar {
        40
    } else {
        0
    }
}

/// The steps that follow a click on an arrow of the header.
pub open spec fn header_click(state: AppState, column: u16, env: Env) -> Seq<Step> {
    let index = state.current_commit_index;
    if column < 4 && index > 0 {
        if index - 1 < state.stacked_commits@.len() {
            commit_steps((index - 1) as usize, env)
        } else {
            seq![]
        }
    } else if column >= minus(env.width as int, 4) && index < minus(
        state.stacked_commits@.len() as int,
        1,
    ) {
        commit_steps((index + 1) as usize, env)
    } else {
        seq![]
    }
}

/// What a click on the sidebar does.
pub open spec fn sidebar_click(state: AppState, row: u16, env: Env) -> (AppState, Seq<Step>) {
    let clicked = minus(row as int, header_height(state) + 1) + state.sidebar_scroll;
    match state.item_at(clicked) {
        Some(SidebarItem::File { path: _, file_index }) => (
            AppState {
                sidebar_selected: clicked as usize,
                focused_panel: FocusedPanel::DiffView,
                ..state
            },
            seq![Step::SelectFile(file_index)],
        ),
        Some(SidebarItem::Directory { path: _ }) => (
            AppState {
                sidebar_selected: clicked as usize,
                focused_panel: FocusedPanel::Sidebar,
                ..state
            },
            seq![
                Step::ToggleDirectory(item_number(state, clicked)),
                Step::EnsureVisible(list_height(env) as usize),
            ],
        ),
        None => (state, seq![]),
    }
}

/// What a click does.
pub open spec fn click(state: AppState, mouse: Mouse, env: Env) -> (AppState, Seq<Step>) {
    if state.stacked_mode && mouse.row < header_height(state) {
        (state, header_click(state, mouse.column, env))
    } else if state.show_sidebar && mouse.column < sidebar_width(state) && mouse.row
        >= header_height(state) && mouse.row < minus(env.height as int, 1) {
        sidebar_click(state, mouse.row, env)
    } else if mouse.column >= sidebar_width(state) {
        (AppState { focused_panel: FocusedPanel::DiffView, ..state }, seq![])
    } else {
        (state, seq![])
    }
}

/// What turning the wheel does, `delta` lines in all.
pub open spec fn wheel_turned(state: AppState, mouse: Mouse, delta: i32, env: Env) -> AppState {
    let above_footer = mouse.row < minus(env.height as int, 1);
    if state.show_sidebar && mouse.column < sidebar_width(state) && above_footer {
        let last = minus(state.sidebar_visible@.len() as int, 1);
        AppState {
            sidebar_scroll: if delta > 0 {
                (if state.sidebar_scroll + delta < last {
                    state.sidebar_scroll + delta
                } else {
                    last
                }) as usize
            } else {
                minus(state.sidebar_scroll as int, -delta) as usize
            },
            ..state
        }
    } else if mouse.column >= sidebar_width(state) && above_footer {
        AppState {
            scroll: if delta > 0 {
                scrolled(state.scroll, delta as int, scroll_limit(state, env))
            } else {
                minus(state.scroll as int, -delta) as u16
            },
            ..state
        }
    } else {
        state
    }
}

/// What a mouse event does, with the distance that the wheel was turned in all.
pub open spec fn mouse_outcome(state: AppState, mouse: Mouse, delta: i32, env: Env) -> (
    AppState,
    Seq<Step>,
) {
    match mouse.kind {
        MouseKind::LeftDown => click(state, mouse, env),
        MouseKind::ScrollDown => (wheel_turned(state, mouse, delta, env), seq![]),
        MouseKind::ScrollUp => (wheel_turned(state, mouse, delta, env), seq![]),
        MouseKind::Other => (state, seq![]),
    }
}

/// Handles a mouse event, and returns the steps that follow.
pub fn handle_mouse(state: &mut AppState, mouse: Mouse, delta: i32, env: Env) -> (steps: Vec<Step>)
    requires
        old(state).wf(),
    ensures
        (*final(state), steps@) == mouse_outcome(*old(state), mouse, delta, env),
{
    match mouse.kind {
        MouseKind::LeftDown => handle_click(state, mouse, env),
        MouseKind::ScrollDown | MouseKind::ScrollUp => {
            turn_wheel(state, mouse, delta, env);
            Vec::new()
        },
        MouseKind::Other => Vec::new(),
    }
}

fn handle_click(state: &mut AppState, mouse: Mouse, env: Env) -> (steps: Vec<Step>)
    requires
        old(state).wf(),
    ensures
        (*final(state), steps@) == click(*old(state), mouse, env),
{
    let header: u16 = if state.stacked_mode {
        1
    } else {
        0
    };
    let sidebar: u16 = if state.show_sidebar {
        40
    } else {
        0
    };
    if state.stacked_mode && mouse.row < header {
        let index = state.current_commit_index;
        if mouse.column < 4 && index > 0 {
            return navigate_stacked_commit(state, index - 1, env);
        }
        if mouse.column >= env.width.saturating_sub(4) && index
            < state.stacked_commits.len().saturating_sub(1) {
            return navigate_stacked_commit(state, index + 1, env);
        }
        return Vec::new();
    }
    if state.show_sidebar && mouse.column < sidebar && mouse.row >= header && mouse.row
        < env.height.saturating_sub(1) {
        let offset = mouse.row.saturating_sub(header + 1) as usize;
        if offset >= state.sidebar_visible.len() || state.sidebar_scroll
            >= state.sidebar_visible.len() - offset {
            return Vec::new();
        }
        let clicked = offset + state.sidebar_scroll;
        let item_index = state.sidebar_visible[clicked];
        return match &state.sidebar_items[item_index] {
            SidebarItem::File { path: _, file_index } => {
                let file = *file_index;
                state.sidebar_selected = clicked;
                state.focused_panel = FocusedPanel::DiffView;
                vec![Step::SelectFile(file)]
            },
            SidebarItem::Directory { path: _ } => {
                state.sidebar_selected = clicked;
                state.focused_panel = FocusedPanel::Sidebar;
                vec![
                    Step::ToggleDirectory(item_index),
                    Step::EnsureVisible(list_height_of(env)),
                ]
            },
        };
    }
    if mouse.column >= sidebar {
        state.focused_panel = FocusedPanel::DiffView;
    }
    Vec::new()
}

fn turn_wheel(state: &mut AppState, mouse: Mouse, delta: i32, env: Env)
    requires
        old(state).wf(),
    ensures
        *final(state) == wheel_turned(*old(state), mouse, delta, env),
{
    let sidebar: u16 = if state.show_sidebar {
        40
    } else {
        0
    };
    let up: i64 = -(delta as i64);
    let above_footer = mouse.row < env.height.saturating_sub(1);
    if state.show_sidebar && mouse.column < sidebar && above_footer {
        let last = state.sidebar_visible.len().saturating_sub(1);
        if delta > 0 {
            let by: usize = delta as usize;
            state.sidebar_scroll = if state.sidebar_scroll < last && by < last
                - state.sidebar_scroll {
                state.sidebar_scroll + by
            } else {
                last
            };
        } else {
            state.sidebar_scroll = state.sidebar_scroll.saturating_sub(up as usize);
        }
    } else if mouse.column >= sidebar && above_footer {
        state.scroll =
        if delta > 0 {
            scroll_by(state.scroll, delta as u32, max_scroll(state, env))
        } else if up < state.scroll as i64 {
            (state.scroll as i64 - up) as u16
        } else {
            0
        };
    }
}

// ---------------------------------------------------------------------------
// Laws
// ---------------------------------------------------------------------------
proof fn lemma_file_row_from(state: AppState, from: int)
    requires
        0 <= from,
    ensures
        file_row_from(state, from) matches Some(row) ==> from <= row < state.sidebar_visible@.len()
            && state.file_at(row) is Some,
    decreases state.sidebar_visible@.len() - from,
{
    if from < state.sidebar_visible@.len() && state.file_at(from) is None {
        lemma_file_row_from(state, from + 1);
    }
}

proof fn lemma_file_row_below(state: AppState, below: int)
    ensures
        file_row_below(state, below) matches Some(row) ==> 0 <= row < below
            && state.file_at(row) is Some,
    decreases below,
{
    if below > 0 && state.file_at(below - 1) is None {
        lemma_file_row_below(state, below - 1);
    }
}

proof fn lemma_unviewed_row(state: AppState, viewed: Set<usize>, from: int, to: int)
    requires
        0 <= from,
    ensures
        unviewed_row(state, viewed, from, to) matches Some(row) ==> from <= row
            < state.sidebar_visible@.len() && state.file_at(row) is Some,
    decreases to - from,
{
    if from < to && from < state.sidebar_visible@.len() {
        lemma_unviewed_row(state, viewed, from + 1, to);
    }
}

/// The fields that well-formedness is about are the same, but for the selected line.
spec fn same_frame(a: AppState, b: AppState) -> bool {
    &&& a.file_diffs == b.file_diffs
    &&& a.sidebar_items == b.sidebar_items
    &&& a.sidebar_visible == b.sidebar_visible
    &&& a.current_file == b.current_file
    &&& a.stacked_mode == b.stacked_mode
    &&& a.stacked_commits == b.stacked_commits
}

spec fn keeps_frame(a: AppState, b: AppState) -> bool {
    same_frame(a, b) && b.sidebar_selected < usize::MAX
}

proof fn lemma_frame_keeps_wf(a: AppState, b: AppState)
    requires
        a.wf(),
        same_frame(a, b),
        b.sidebar_selected < usize::MAX,
    ensures
        b.wf(),
{
}

proof fn lemma_outcome_keeps_frame(state: AppState, command: Command, env: Env)
    requires
        state.sidebar_selected < usize::MAX,
        state.sidebar_visible@.len() <= usize::MAX,
    ensures
        keeps_frame(state, outcome(state, command, env).0),
{
    lemma_file_row_from(state, 0);
    lemma_file_row_from(state, state.sidebar_selected + 1);
    lemma_file_row_below(state, state.sidebar_selected as int);
}

/// Whatever key is pressed, the state stays well formed.
pub proof fn keys_keep_the_state_well_formed(
    before: AppState,
    after: AppState,
    steps: Seq<Step>,
    key: Key,
    env: Env,
)
    requires
        before.wf(),
        before.sidebar_visible@.len() <= usize::MAX,
        key_handled(before, after, steps, key, env),
    ensures
        after.wf(),
{
    let start = before_command(before, key);
    let command = key_command(key, env.has_query, before.focused_panel);
    lemma_frame_keeps_wf(before, start);
    if key_target(env) == KeyTarget::Viewer {
        match command {
            Command::ToggleViewed => {
                let end = start.sidebar_visible@.len() as int;
                let viewed = after.viewed_files@;
                lemma_unviewed_row(start, viewed, start.sidebar_selected + 1, end);
                lemma_unviewed_row(start, viewed, 0, start.sidebar_selected as int);
                lemma_frame_keeps_wf(start, after);
            },
            Command::ToggleReviewed => {
                lemma_frame_keeps_wf(start, after);
            },
            _ => {
                lemma_outcome_keeps_frame(start, command, env);
                lemma_frame_keeps_wf(start, after);
            },
        }
    }
}

/// Whatever is done with the mouse, the state stays well formed.
pub proof fn the_mouse_keeps_the_state_well_formed(
    before: AppState,
    mouse: Mouse,
    delta: i32,
    env: Env,
)
    requires
        before.wf(),
        before.sidebar_visible@.len() <= usize::MAX,
    ensures
        mouse_outcome(before, mouse, delta, env).0.wf(),
{
}

/// A step of the viewer's own keeps the state well formed.
pub proof fn steps_keep_the_state_well_formed(before: AppState, step: Step)
    requires
        before.wf(),
        before.sidebar_visible@.len() <= usize::MAX,
    ensures
        step_outcome(before, step).0.wf(),
{
    lemma_row_of_file(before, 0, before.current_file);
}

proof fn lemma_row_of_file(state: AppState, from: int, file: usize)
    requires
        0 <= from,
    ensures
        row_of_file(state, from, file) matches Some(row) ==> from <= row
            < state.sidebar_visible@.len() && state.file_at(row) == Some(file),
    decreases state.sidebar_visible@.len() - from,
{
    if from < state.sidebar_visible@.len() && state.file_at(from) != Some(file) {
        lemma_row_of_file(state, from + 1, file);
    }
}

/// While a search, a dialog or an editor takes the keys, they leave the state of the viewer
/// as it is.
pub proof fn keys_go_to_one_place(
    before: AppState,
    after: AppState,
    steps: Seq<Step>,
    key: Key,
    env: Env,
)
    requires
        key_handled(before, after, steps, key, env),
        env.search_active || env.modal_open || env.tag_editor_open || env.annotation_editor_open,
    ensures
        after == before,
{
}

/// Scrolling keeps to the limit: where the diff is not scrolled beyond its end, it is not
/// after any command either.
pub proof fn scrolling_keeps_to_the_limit(state: AppState, command: Command, env: Env)
    requires
        state.scroll <= scroll_limit(state, env),
    ensures
        outcome(state, command, env).0.scroll <= scroll_limit(state, env),
{
}

proof fn lemma_position(list: Seq<usize>, from: int, x: usize)
    requires
        0 <= from,
    ensures
        position_in(list, from, x) matches Some(i) ==> from <= i < list.len(),
    decreases list.len() - from,
{
    if from < list.len() && list[from] != x {
        lemma_position(list, from + 1, x);
    }
}

proof fn lemma_first_below(state: AppState, hunks: Seq<usize>, from: int, row: int)
    requires
        0 <= from,
    ensures
        first_below(state, hunks, from, row) matches Some(i) ==> from <= i < hunks.len(),
    decreases hunks.len() - from,
{
    if from < hunks.len() {
        lemma_first_below(state, hunks, from + 1, row);
    }
}

proof fn lemma_last_above(state: AppState, hunks: Seq<usize>, n: int, row: int)
    requires
        n <= hunks.len(),
    ensures
        last_above(state, hunks, n, row) matches Some(i) ==> 0 <= i < n,
    decreases n,
{
    if n > 0 {
        lemma_last_above(state, hunks, n - 1, row);
    }
}

/// The keys that go from hunk to hunk focus only hunks that pass the filters.
pub proof fn neighbours_pass_the_filters(state: AppState, command: Command, env: Env)
    requires
        command == Command::NextHunk || command == Command::PreviousHunk,
        state.file_diffs@.len() > 0,
        state.current_file < state.file_diffs@.len(),
        state.file_diffs@[state.current_file as int].hunks@.len() <= usize::MAX,
    ensures
        outcome(state, command, env).0.focused_hunk matches Some(hunk) ==> hunk_passes(
            state,
            state.current_file,
            hunk,
        ) && hunk < state.file_diffs@[state.current_file as int].hunks@.len(),
{
    let hunks = matching_hunks(state, state.current_file);
    let count = state.file_diffs@[state.current_file as int].hunks@.len() as int;
    passing_hunks_are_ascending(state, state.current_file, count);
    if let Some(focused) = state.focused_hunk {
        lemma_position(hunks, 0, focused);
    }
    lemma_first_below(state, hunks, 0, state.scroll + 5);
    lemma_last_above(state, hunks, hunks.len() as int, minus(state.scroll as int, 5));
}

} // verus!
