//! What holds of the keys of the viewer: what each stands for, and how far each goes.

use vstd::prelude::*;

use crate::diff::{change_bounds, hunk_line_range, row_number};
use crate::filter_laws::{matching_hunks_are_those_that_pass, positions_are_the_first};
use crate::filters::{filter_after, hunk_passes, matching_hunks, position_in, review_filter_after};
use crate::keys::{Key, KeyCode};
use crate::state::{AppState, DiffFullscreen, FocusedPanel, PendingKey, SidebarItem};
use crate::viewer::{
    file_row_below, file_row_from, first_below, key_command, key_target, last_above, outcome,
    search_steps, Command, Env, Step,
};

verus! {

// ---------------------------------------------------------------------------
// Keys
// ---------------------------------------------------------------------------
/// Keys go to what covers the viewer: a search before dialogs, dialogs before the editors of
/// tags and of annotations, and to the viewer only where nothing is open.
pub proof fn keys_go_to_what_is_open(env: Env)
    ensures
        ({
            let t = key_target(env);
            let editing = env.tag_editor_open || env.annotation_editor_open;
            &&& t is Search <==> env.search_active
            &&& t is Modal <==> env.modal_open && !env.search_active
            &&& t is TagEditor <==> env.tag_editor_open && !env.search_active && !env.modal_open
            &&& t is AnnotationEditor <==> env.annotation_editor_open && !env.tag_editor_open
                && !env.search_active && !env.modal_open
            &&& t is Viewer <==> !editing && !env.search_active && !env.modal_open
        }),
{
}

/// Letters and signs each stand for a command of their own, whatever panel has the focus.
pub proof fn letters_stand_for_commands(alt: bool, has_query: bool, panel: FocusedPanel)
    ensures
        ({
            let of = |c: char|
                key_command(
                    Key { code: KeyCode::Char(c), control: false, alt },
                    has_query,
                    panel,
                );
            &&& of('q') is Quit && of('r') is Reload && of('?') is Help && of('/') is StartSearch
            &&& of('j') is Down && of('k') is Up && of('h') is Left && of('l') is Right
            &&& of('g') is TopPrefix && of('G') is Bottom
            &&& of('1') is FocusSidebar && of('2') is FocusDiff
            &&& of(']') is ToggleNewSide && of('[') is ToggleOldSide && of('=') is ShowBothSides
            &&& of('}') is NextHunk && of('{') is PreviousHunk
            &&& of(' ') is ToggleViewed && of('v') is ToggleReviewed
            &&& of('i') is Annotate && of('I') is ListAnnotations && of('t') is EditTags
            &&& of('T') is CycleTagFilter && of('V') is CycleReviewFilter && of('C') is ClearFilters
            &&& of('y') is CopyName && of('e') is EditFile && of('o') is OpenInBrowser
            &&& has_query ==> of('n') is NextMatch && of('N') is PreviousMatch
            &&& !has_query ==> of('n') is Nothing && of('N') is Nothing
        }),
{
}

/// With Control, letters stand for commands that go further; the others mean the same as
/// without it. `c` clears a search before it quits.
pub proof fn control_goes_further(alt: bool, has_query: bool, panel: FocusedPanel, c: char)
    ensures
        ({
            let of = |c: char, control: bool|
                key_command(Key { code: KeyCode::Char(c), control, alt }, has_query, panel);
            &&& of('j', true) is NextFile && of('k', true) is PreviousFile
            &&& of('l', true) is NextCommit && of('h', true) is PreviousCommit
            &&& of('d', true) is HalfPageDown && of('u', true) is HalfPageUp
            &&& of('p', true) is PickFile && of('f', true) is StartSearch
            &&& has_query ==> of('c', true) is ClearSearch
            &&& !has_query ==> of('c', true) is Quit
            &&& c != 'j' && c != 'k' && c != 'l' && c != 'h' && c != 'd' && c != 'u' && c != 'p'
                && c != 'f' && c != 'c' ==> of(c, true) == of(c, false)
            &&& of('d', false) is Nothing && of('u', false) is Nothing && of('p', false) is Nothing
            &&& of('f', false) is Nothing && of('c', false) is Nothing
        }),
{
}

/// Keys that are no letters: the arrows go through the matches of a search in the diff, and
/// mean the same as the letters elsewhere.
pub proof fn other_keys_stand_for_commands(
    control: bool,
    alt: bool,
    has_query: bool,
    panel: FocusedPanel,
)
    ensures
        ({
            let of = |code: KeyCode| key_command(Key { code, control, alt }, has_query, panel);
            let searching = has_query && panel is DiffView;
            &&& has_query ==> of(KeyCode::Esc) is ClearSearch
            &&& !has_query ==> of(KeyCode::Esc) is Quit
            &&& searching ==> of(KeyCode::Down) is NextMatch && of(KeyCode::Up) is PreviousMatch
            &&& !searching ==> of(KeyCode::Down) is Down && of(KeyCode::Up) is Up
            &&& of(KeyCode::Left) is Left && of(KeyCode::Right) is Right
            &&& of(KeyCode::PageDown) is PageDown && of(KeyCode::PageUp) is PageUp
            &&& of(KeyCode::Tab) is ToggleSidebar && of(KeyCode::Enter) is Open
            &&& of(KeyCode::Backspace) is Nothing && of(KeyCode::Other) is Nothing
        }),
{
}

/// While a search is typed, keys change its text, confirm it or give it up.
pub proof fn keys_edit_the_search(control: bool, alt: bool, c: char)
    ensures
        ({
            let of = |code: KeyCode| search_steps(Key { code, control, alt });
            &&& of(KeyCode::Char(c)) == seq![Step::SearchPush(c)]
            &&& of(KeyCode::Backspace) == seq![Step::SearchPop]
            &&& of(KeyCode::Enter) == seq![Step::ConfirmSearch]
            &&& of(KeyCode::Esc) == seq![Step::CancelSearch]
            &&& of(KeyCode::Up).len() == 0 && of(KeyCode::Down).len() == 0
            &&& of(KeyCode::Left).len() == 0 && of(KeyCode::Right).len() == 0
            &&& of(KeyCode::Tab).len() == 0
        }),
{
}

// ---------------------------------------------------------------------------
// Scrolling
// ---------------------------------------------------------------------------
/// The last row that the diff can be scrolled to: the end of the file comes up to five rows
/// from the lower edge, below the two rows that the screen uses otherwise.
pub open spec fn last_scroll(state: AppState, env: Env) -> int {
    let rows = if state.file_diffs@.len() == 0 {
        0
    } else {
        state.file_diffs@[state.current_file as int].rows@.len() as int
    };
    let shown = if env.height >= 7 {
        env.height - 7
    } else {
        0
    };
    if state.file_diffs@.len() > 0 && rows > shown {
        rows - shown
    } else {
        0
    }
}

/// Only the scrolling of the diff changed, to a row.
pub open spec fn scrolled_to(before: AppState, after: AppState, row: int) -> bool {
    &&& after == AppState { scroll: after.scroll, ..before }
    &&& row <= u16::MAX ==> after.scroll == row
    &&& row > u16::MAX ==> after.scroll == u16::MAX
}

/// The smaller of two numbers.
pub open spec fn smaller(a: int, b: int) -> int {
    if a <= b {
        a
    } else {
        b
    }
}

/// The larger of two numbers.
pub open spec fn larger(a: int, b: int) -> int {
    if a >= b {
        a
    } else {
        b
    }
}

/// In the diff the keys scroll by one row, by half a screen, or by twenty rows, down to the last
/// row that can be scrolled to and up to the first; or to either end at once. Nothing else
/// changes, and no steps follow.
pub proof fn scrolling_goes_by_rows(state: AppState, env: Env)
    requires
        state.focused_panel is DiffView,
    ensures
        ({
            let last = last_scroll(state, env);
            let half = (if env.height >= 2 {
                env.height - 2
            } else {
                0
            }) / 2;
            let to = |command: Command, row: int|
                {
                    let r = outcome(state, command, env);
                    scrolled_to(state, r.0, row) && r.1.len() == 0
                };
            &&& to(Command::Down, smaller(state.scroll + 1, last))
            &&& to(Command::HalfPageDown, smaller(state.scroll + half, last))
            &&& to(Command::PageDown, smaller(state.scroll + 20, last))
            &&& to(Command::Bottom, last)
            &&& to(Command::Up, larger(state.scroll - 1, 0))
            &&& to(Command::HalfPageUp, larger(state.scroll - half, 0))
            &&& to(Command::PageUp, larger(state.scroll - 20, 0))
        }),
{
}

/// Down and up undo each other, as long as no end is reached.
pub proof fn scrolling_down_and_up_meet(state: AppState, env: Env)
    requires
        state.focused_panel is DiffView,
    ensures
        state.scroll < last_scroll(state, env) && state.scroll < u16::MAX ==> outcome(
            outcome(state, Command::Down, env).0,
            Command::Up,
            env,
        ).0 == state,
        state.scroll + 20 <= last_scroll(state, env) && state.scroll + 20 <= u16::MAX ==> outcome(
            outcome(state, Command::PageDown, env).0,
            Command::PageUp,
            env,
        ).0 == state,
{
}

/// The first `g` waits for another one, which goes to the top.
pub proof fn twice_g_goes_to_the_top(state: AppState, env: Env)
    ensures
        ({
            let once = outcome(state, Command::TopPrefix, env);
            let twice = outcome(once.0, Command::TopPrefix, env);
            &&& once.1.len() == 0 && twice.1.len() == 0
            &&& !(state.pending_key is G) ==> {
                &&& once.0 == (AppState { pending_key: PendingKey::G, ..state })
                &&& twice.0 == (AppState { pending_key: PendingKey::Nothing, scroll: 0, ..state })
            }
            &&& state.pending_key is G ==> once.0 == (AppState {
                pending_key: PendingKey::Nothing,
                scroll: 0,
                ..state
            })
        }),
{
}

/// Left and right scroll the panel in focus by four columns, and leave the other panel as it is.
pub proof fn columns_go_by_four(state: AppState, env: Env)
    ensures
        ({
            let l = outcome(state, Command::Left, env);
            let r = outcome(state, Command::Right, env);
            &&& l.1.len() == 0 && r.1.len() == 0
            &&& state.focused_panel is DiffView ==> {
                &&& l.0 == AppState { h_scroll: l.0.h_scroll, ..state }
                &&& r.0 == AppState { h_scroll: r.0.h_scroll, ..state }
                &&& l.0.h_scroll == larger(state.h_scroll - 4, 0)
                &&& r.0.h_scroll == smaller(state.h_scroll + 4, 65535)
            }
            &&& !(state.focused_panel is DiffView) ==> {
                &&& l.0 == AppState { sidebar_h_scroll: l.0.sidebar_h_scroll, ..state }
                &&& r.0 == AppState { sidebar_h_scroll: r.0.sidebar_h_scroll, ..state }
                &&& l.0.sidebar_h_scroll == larger(state.sidebar_h_scroll - 4, 0)
                &&& r.0.sidebar_h_scroll == smaller(state.sidebar_h_scroll + 4, 65535)
            }
        }),
{
}

/// In the sidebar the keys select the next row or the one before, up to the ends, and the
/// selected row is among those shown; the sidebar is scrolled no further than that needs.
pub proof fn sidebar_selection_goes_by_one(state: AppState, env: Env)
    requires
        state.focused_panel is Sidebar,
        state.sidebar_selected < state.sidebar_visible@.len(),
        env.height > 5,
    ensures
        ({
            let d = outcome(state, Command::Down, env);
            let u = outcome(state, Command::Up, env);
            let n = env.height - 5;
            let (s, t) = (state.sidebar_selected as int, state.sidebar_scroll as int);
            let (ds, dt) = (d.0.sidebar_selected as int, d.0.sidebar_scroll as int);
            let (us, ut) = (u.0.sidebar_selected as int, u.0.sidebar_scroll as int);
            &&& d.1.len() == 0 && u.1.len() == 0
            &&& d.0 == AppState {
                sidebar_selected: d.0.sidebar_selected,
                sidebar_scroll: d.0.sidebar_scroll,
                ..state
            }
            &&& u.0 == AppState {
                sidebar_selected: u.0.sidebar_selected,
                sidebar_scroll: u.0.sidebar_scroll,
                ..state
            }
            &&& ds == smaller(s + 1, state.sidebar_visible@.len() - 1)
            &&& us == larger(s - 1, 0)
            &&& dt <= ds < dt + n
            &&& t <= ds < t + n ==> dt == t
            &&& ds >= t + n ==> ds == dt + n - 1
            &&& ut <= us
            &&& t <= us ==> ut == t
            &&& us < t ==> ut == us
        }),
{
    assert(state.sidebar_visible.len() == state.sidebar_visible@.len());
}

// ---------------------------------------------------------------------------
// From file to file, from commit to commit, from hunk to hunk
// ---------------------------------------------------------------------------
pub(crate) proof fn lemma_file_row_from(state: AppState, from: int)
    requires
        0 <= from,
    ensures
        match file_row_from(state, from) {
            Some(row) => from <= row < state.sidebar_visible@.len() && state.file_at(row) is Some
                && forall|k: int| from <= k < row ==> #[trigger] state.file_at(k) is None,
            None => forall|k: int|
                from <= k < state.sidebar_visible@.len() ==> #[trigger] state.file_at(k) is None,
        },
    decreases state.sidebar_visible@.len() - from,
{
    if from < state.sidebar_visible@.len() && state.file_at(from) is None {
        lemma_file_row_from(state, from + 1);
    }
}

proof fn lemma_file_row_below(state: AppState, below: int)
    ensures
        match file_row_below(state, below) {
            Some(row) => 0 <= row < below && state.file_at(row) is Some && forall|k: int|
                row < k < below ==> #[trigger] state.file_at(k) is None,
            None => forall|k: int| 0 <= k < below ==> #[trigger] state.file_at(k) is None,
        },
    decreases below,
{
    if below > 0 && state.file_at(below - 1) is None {
        lemma_file_row_below(state, below - 1);
    }
}

/// The next file is that of the nearest row below the selected one that shows a file, and the
/// previous one that of the nearest row above it. The row is selected and its file opened; where
/// there is none nothing happens.
pub proof fn files_follow_each_other(state: AppState, env: Env, row: int)
    requires
        state.file_diffs@.len() > 0,
        state.sidebar_selected < state.sidebar_visible@.len(),
    ensures
        ({
            let next = outcome(state, Command::NextFile, env);
            let previous = outcome(state, Command::PreviousFile, env);
            let at = state.sidebar_selected as int;
            let rows = state.sidebar_visible@.len();
            &&& at < row < rows && state.file_at(row) is Some && (forall|k: int|
                at < k < row ==> #[trigger] state.file_at(k) is None) ==> {
                &&& next.0 == (AppState { sidebar_selected: row as usize, ..state })
                &&& next.1.len() == 2 && next.1[0] == Step::SelectFile(state.file_at(row)->0)
                &&& next.1[1] == Step::EnsureVisible(
                    (if env.height >= 5 {
                        env.height - 5
                    } else {
                        0
                    }) as usize,
                )
            }
            &&& (forall|k: int| at < k < rows ==> #[trigger] state.file_at(k) is None) ==> next.0
                == state && next.1.len() == 0
            &&& 0 <= row < at && state.file_at(row) is Some && (forall|k: int|
                row < k < at ==> #[trigger] state.file_at(k) is None) ==> {
                &&& previous.0 == (AppState { sidebar_selected: row as usize, ..state })
                &&& previous.1.len() == 2 && previous.1[0] == Step::SelectFile(
                    state.file_at(row)->0,
                )
                &&& previous.1[1] == Step::EnsureVisible(usize::MAX)
            }
            &&& (forall|k: int| 0 <= k < at ==> #[trigger] state.file_at(k) is None)
                ==> previous.0 == state && previous.1.len() == 0
        }),
{
    let at = state.sidebar_selected as int;
    lemma_file_row_from(state, at + 1);
    lemma_file_row_below(state, at);
    if let Some(k) = file_row_from(state, at + 1) {
        if at < row < k {
            assert(state.file_at(row) is None);
        }
        if at < k < row {
            assert(state.file_at(k) is Some);
        }
    }
    if let Some(k) = file_row_below(state, at) {
        if k < row < at {
            assert(state.file_at(row) is None);
        }
        if row < k < at {
            assert(state.file_at(k) is Some);
        }
    }
}

/// In a stack the keys go to the commit behind or before, not past the ends: what was viewed is
/// saved first, then the commit is set and loaded, and then its annotations where they are
/// stored.
pub proof fn commits_follow_each_other(state: AppState, env: Env)
    requires
        state.stacked_mode ==> state.current_commit_index < state.stacked_commits@.len(),
    ensures
        ({
            let next = outcome(state, Command::NextCommit, env);
            let previous = outcome(state, Command::PreviousCommit, env);
            let at = state.current_commit_index as int;
            let goes = |steps: Seq<Step>, to: int|
                {
                    &&& steps.len() == if env.has_persistence {
                        5
                    } else {
                        3int
                    }
                    &&& steps[0] is SaveStackedViewed
                    &&& steps[1] == Step::SetCommit(to as usize)
                    &&& steps[2] == Step::LoadCommit(to as usize)
                    &&& env.has_persistence ==> steps[3] is LoadScope && steps[4] is ApplyFilter
                };
            &&& next.0 == state && previous.0 == state
            &&& state.stacked_mode && at + 1 < state.stacked_commits@.len() ==> goes(
                next.1,
                at + 1,
            )
            &&& !(state.stacked_mode && at + 1 < state.stacked_commits@.len()) ==> next.1.len() == 0
            &&& state.stacked_mode && at > 0 ==> goes(previous.1, at - 1)
            &&& !(state.stacked_mode && at > 0) ==> previous.1.len() == 0
        }),
{
}

proof fn lemma_first_below(state: AppState, hunks: Seq<usize>, from: int, row: int)
    requires
        0 <= from,
    ensures
        ({
            let all = state.file_diffs@[state.current_file as int].hunks@;
            match first_below(state, hunks, from, row) {
                Some(i) => from <= i < hunks.len() && all[hunks[i] as int].start > row && forall|
                    k: int,
                |
                    from <= k < i ==> all[#[trigger] hunks[k] as int].start <= row,
                None => forall|k: int|
                    from <= k < hunks.len() ==> all[#[trigger] hunks[k] as int].start <= row,
            }
        }),
    decreases hunks.len() - from,
{
    let all = state.file_diffs@[state.current_file as int].hunks@;
    if from < hunks.len() && all[hunks[from] as int].start <= row {
        lemma_first_below(state, hunks, from + 1, row);
    }
}

proof fn lemma_last_above(state: AppState, hunks: Seq<usize>, n: int, row: int)
    requires
        n <= hunks.len(),
    ensures
        ({
            let all = state.file_diffs@[state.current_file as int].hunks@;
            match last_above(state, hunks, n, row) {
                Some(i) => 0 <= i < n && all[hunks[i] as int].start < row && forall|k: int|
                    i < k < n ==> all[#[trigger] hunks[k] as int].start >= row,
                None => forall|k: int|
                    0 <= k < n ==> all[#[trigger] hunks[k] as int].start >= row,
            }
        }),
    decreases n,
{
    let all = state.file_diffs@[state.current_file as int].hunks@;
    if n > 0 && all[hunks[n - 1] as int].start >= row {
        lemma_last_above(state, hunks, n - 1, row);
    }
}

/// A hunk of the current file that passes the filters.
pub open spec fn passes_here(state: AppState, h: usize) -> bool {
    &&& state.current_file < state.file_diffs@.len()
    &&& h < state.file_diffs@[state.current_file as int].hunks@.len()
    &&& hunk_passes(state, state.current_file, h)
}

/// A hunk of the current file comes into focus, and the diff is to be scrolled to its first row.
/// Nothing else changes.
pub open spec fn comes_into_focus(
    state: AppState,
    env: Env,
    r: (AppState, Seq<Step>),
    h: usize,
) -> bool {
    &&& r.0 == AppState { focused_hunk: Some(h), ..state }
    &&& r.1.len() == 1
    &&& r.1[0] == Step::ScrollToHunk {
        row: state.file_diffs@[state.current_file as int].hunks@[h as int].start,
        visible_height: larger(env.height - 2, 0) as usize,
        max_scroll: last_scroll(state, env) as usize,
    }
}

/// With a hunk in focus that passes the filters, the next hunk is the nearest one behind it
/// that passes, and the previous one the nearest before it; at the ends the focus stays.
pub proof fn the_nearest_passing_hunk_comes_into_focus(
    state: AppState,
    env: Env,
    focused: usize,
    h: usize,
)
    requires
        state.focused_hunk == Some(focused),
        passes_here(state, focused),
    ensures
        ({
            let next = outcome(state, Command::NextHunk, env);
            let previous = outcome(state, Command::PreviousHunk, env);
            &&& passes_here(state, h) && focused < h && (forall|k: usize|
                focused < k < h ==> !#[trigger] passes_here(state, k)) ==> comes_into_focus(
                state,
                env,
                next,
                h,
            )
            &&& (forall|k: usize| focused < k ==> !#[trigger] passes_here(state, k))
                ==> comes_into_focus(state, env, next, focused)
            &&& passes_here(state, h) && h < focused && (forall|k: usize|
                h < k < focused ==> !#[trigger] passes_here(state, k)) ==> comes_into_focus(
                state,
                env,
                previous,
                h,
            )
            &&& (forall|k: usize| k < focused ==> !#[trigger] passes_here(state, k))
                ==> comes_into_focus(state, env, previous, focused)
        }),
{
    let list = matching_hunks(state, state.current_file);
    matching_hunks_are_those_that_pass(state, state.current_file);
    positions_are_the_first(list, 0, focused);
    assert(list.contains(focused));
    let i = choose|i: int| 0 <= i < list.len() && list[i] == focused;
    assert(list[i] == focused);
    let at = position_in(list, 0, focused)->0;
    assert(at == i);
    if i + 1 < list.len() {
        assert(list.contains(list[i + 1]));
        assert(passes_here(state, list[i + 1]));
    }
    if i > 0 {
        assert(list.contains(list[i - 1]));
        assert(passes_here(state, list[i - 1]));
    }
    if passes_here(state, h) {
        assert(list.contains(h));
        let j = choose|j: int| 0 <= j < list.len() && list[j] == h;
        assert(list[j] == h);
    }
}

/// Without such a hunk in focus, the next one is the first that begins more than five rows
/// below the top of what is shown, and the previous one the last that begins more than five rows
/// above it, of those that pass the filters; where there is none it is the first of all that
/// pass, or the last.
pub proof fn the_first_hunk_in_sight_comes_into_focus(state: AppState, env: Env, h: usize)
    requires
        state.focused_hunk matches Some(focused) ==> !passes_here(state, focused),
        passes_here(state, h),
    ensures
        ({
            let next = outcome(state, Command::NextHunk, env);
            let previous = outcome(state, Command::PreviousHunk, env);
            let all = state.file_diffs@[state.current_file as int].hunks@;
            let below = |k: usize| passes_here(state, k) && all[k as int].start > state.scroll + 5;
            let above = |k: usize|
                passes_here(state, k) && all[k as int].start < larger(state.scroll - 5, 0);
            &&& below(h) && (forall|k: usize| k < h ==> !#[trigger] below(k)) ==> comes_into_focus(
                state,
                env,
                next,
                h,
            )
            &&& (forall|k: usize| !#[trigger] below(k)) && (forall|k: usize|
                k < h ==> !#[trigger] passes_here(state, k)) ==> comes_into_focus(
                state,
                env,
                next,
                h,
            )
            &&& above(h) && (forall|k: usize| k > h ==> !#[trigger] above(k)) ==> comes_into_focus(
                state,
                env,
                previous,
                h,
            )
            &&& (forall|k: usize| !#[trigger] above(k)) && (forall|k: usize|
                k > h ==> !#[trigger] passes_here(state, k)) ==> comes_into_focus(
                state,
                env,
                previous,
                h,
            )
        }),
{
    let list = matching_hunks(state, state.current_file);
    let all = state.file_diffs@[state.current_file as int].hunks@;
    let below = |k: usize| passes_here(state, k) && all[k as int].start > state.scroll + 5;
    let above = |k: usize|
        passes_here(state, k) && all[k as int].start < larger(state.scroll - 5, 0);
    let top = larger(state.scroll - 5, 0);
    matching_hunks_are_those_that_pass(state, state.current_file);
    if let Some(focused) = state.focused_hunk {
        positions_are_the_first(list, 0, focused);
        if let Some(i) = position_in(list, 0, focused) {
            assert(list.contains(list[i]));
        }
    }
    assert(list.contains(h));
    let j = choose|j: int| 0 <= j < list.len() && list[j] == h;
    assert(list[j] == h);
    lemma_first_below(state, list, 0, state.scroll + 5);
    lemma_last_above(state, list, list.len() as int, top);
    assert(list.contains(list[0]));
    assert(passes_here(state, list[0]));
    assert(list.contains(list.last()));
    assert(passes_here(state, list.last()));
    if let Some(i) = first_below(state, list, 0, state.scroll + 5) {
        assert(list.contains(list[i]));
        assert(passes_here(state, list[i]));
        assert(below(list[i]));
    }
    if let Some(i) = last_above(state, list, list.len() as int, top) {
        assert(list.contains(list[i]));
        assert(passes_here(state, list[i]));
        assert(above(list[i]));
    }
}

/// Where no hunk of the file passes the filters, none is in focus afterwards; without files
/// nothing happens.
pub proof fn without_passing_hunks_nothing_is_in_focus(state: AppState, env: Env)
    requires
        forall|h: usize| !#[trigger] passes_here(state, h),
        state.file_diffs@.len() > 0 ==> state.current_file < state.file_diffs@.len(),
    ensures
        ({
            let next = outcome(state, Command::NextHunk, env);
            let previous = outcome(state, Command::PreviousHunk, env);
            &&& next.1.len() == 0 && previous == next
            &&& state.file_diffs@.len() > 0 ==> next.0 == (AppState {
                focused_hunk: None,
                ..state
            })
            &&& state.file_diffs@.len() == 0 ==> next.0 == state
        }),
{
    let list = matching_hunks(state, state.current_file);
    matching_hunks_are_those_that_pass(state, state.current_file);
    if list.len() > 0 {
        assert(list.contains(list[0]));
        assert(passes_here(state, list[0]));
    }
}

// ---------------------------------------------------------------------------
// What is shown
// ---------------------------------------------------------------------------
/// One side of the diff alone is shown, or both again; a side without text cannot be shown
/// alone. Nothing else changes.
pub proof fn sides_are_shown_in_turn(state: AppState, env: Env)
    requires
        state.file_diffs@.len() > 0,
    ensures
        ({
            let file = state.file_diffs@[state.current_file as int];
            let of = |command: Command| outcome(state, command, env);
            let shows = |r: (AppState, Seq<Step>), how: DiffFullscreen|
                r.0 == (AppState { diff_fullscreen: how, ..state }) && r.1.len() == 0;
            &&& shows(of(Command::ShowBothSides), DiffFullscreen::SideBySide)
            &&& file.new_content@.len() == 0 ==> shows(
                of(Command::ToggleNewSide),
                state.diff_fullscreen,
            )
            &&& file.new_content@.len() > 0 && state.diff_fullscreen is NewOnly ==> shows(
                of(Command::ToggleNewSide),
                DiffFullscreen::SideBySide,
            )
            &&& file.new_content@.len() > 0 && !(state.diff_fullscreen is NewOnly) ==> shows(
                of(Command::ToggleNewSide),
                DiffFullscreen::NewOnly,
            )
            &&& file.old_content@.len() == 0 ==> shows(
                of(Command::ToggleOldSide),
                state.diff_fullscreen,
            )
            &&& file.old_content@.len() > 0 && state.diff_fullscreen is OldOnly ==> shows(
                of(Command::ToggleOldSide),
                DiffFullscreen::SideBySide,
            )
            &&& file.old_content@.len() > 0 && !(state.diff_fullscreen is OldOnly) ==> shows(
                of(Command::ToggleOldSide),
                DiffFullscreen::OldOnly,
            )
        }),
{
}

/// The sidebar is shown or hidden, and loses the focus when it is hidden. Focusing it shows it,
/// with the first file selected where the selected row shows none.
pub proof fn panels_get_the_focus(state: AppState, env: Env, row: int)
    ensures
        ({
            let toggled = outcome(state, Command::ToggleSidebar, env);
            let diff = outcome(state, Command::FocusDiff, env);
            let side = outcome(state, Command::FocusSidebar, env);
            &&& toggled.1.len() == 0 && diff.1.len() == 0 && side.1.len() == 0
            &&& state.show_sidebar ==> toggled.0 == (AppState {
                show_sidebar: false,
                focused_panel: FocusedPanel::DiffView,
                ..state
            })
            &&& !state.show_sidebar ==> toggled.0 == (AppState { show_sidebar: true, ..state })
            &&& diff.0 == (AppState { focused_panel: FocusedPanel::DiffView, ..state })
            &&& side.0 == (AppState {
                focused_panel: FocusedPanel::Sidebar,
                show_sidebar: true,
                sidebar_selected: side.0.sidebar_selected,
                ..state
            })
            &&& state.file_at(state.sidebar_selected as int) is Some ==> side.0.sidebar_selected
                == state.sidebar_selected
            &&& state.file_at(state.sidebar_selected as int) is None && 0 <= row
                < state.sidebar_visible@.len() && state.file_at(row) is Some && (forall|k: int|
                0 <= k < row ==> #[trigger] state.file_at(k) is None) ==> side.0.sidebar_selected
                == row
            &&& (forall|k: int|
                0 <= k < state.sidebar_visible@.len() ==> #[trigger] state.file_at(k) is None)
                ==> side.0.sidebar_selected == state.sidebar_selected
        }),
{
    assert(state.sidebar_visible.len() == state.sidebar_visible@.len());
    lemma_file_row_from(state, 0);
    if let Some(k) = file_row_from(state, 0) {
        if 0 <= row < k {
            assert(state.file_at(row) is None);
        }
        if k < row {
            assert(state.file_at(k) is Some);
        }
    }
}

/// Opening the selected row opens its file and goes to the diff, or folds its directory, with
/// the filters applied where there are any. In the diff it does nothing.
pub proof fn rows_are_opened(state: AppState, env: Env)
    requires
        env.height >= 5,
    ensures
        ({
            let r = outcome(state, Command::Open, env);
            let shown = Step::EnsureVisible((env.height - 5) as usize);
            let fold = Step::ToggleDirectory(
                state.sidebar_visible@[state.sidebar_selected as int],
            );
            let filters = state.tag_filter is Some || !(state.review_filter is All);
            &&& r.0 == state
            &&& state.focused_panel is DiffView ==> r.1.len() == 0
            &&& state.focused_panel is Sidebar ==> match state.item_at(
                state.sidebar_selected as int,
            ) {
                None => r.1.len() == 0,
                Some(SidebarItem::File { path: _, file_index }) => r.1 == seq![
                    Step::SelectFile(file_index),
                    Step::SetPanel(FocusedPanel::DiffView),
                ],
                Some(SidebarItem::Directory { path: _ }) => if filters {
                    r.1 == seq![fold, Step::ApplyFilter, shown]
                } else {
                    r.1 == seq![fold, shown]
                },
            }
        }),
{
}

/// Changing a filter changes that filter alone; the filters are then applied, and the first
/// hunk that passes comes into focus. Clearing leaves none.
pub proof fn filters_are_changed_one_at_a_time(state: AppState, env: Env)
    ensures
        ({
            let tag = outcome(state, Command::CycleTagFilter, env);
            let review = outcome(state, Command::CycleReviewFilter, env);
            let clear = outcome(state, Command::ClearFilters, env);
            let focus = Step::FocusFirstMatch {
                visible_height: larger(env.height - 2, 0) as usize,
                max_scroll: last_scroll(state, env) as usize,
            };
            &&& tag.0 == (AppState {
                tag_filter: filter_after(state.tag_filter, state.tag_inventory@),
                ..state
            })
            &&& tag.1 == seq![Step::ApplyFilter, focus]
            &&& review.0 == (AppState {
                review_filter: review_filter_after(state.review_filter),
                ..state
            })
            &&& review.1 == seq![Step::ApplyFilter, focus]
            &&& clear.0.tag_filter is None && clear.0.review_filter is All
            &&& clear.0 == (AppState {
                tag_filter: clear.0.tag_filter,
                review_filter: clear.0.review_filter,
                ..state
            })
            &&& clear.1 == seq![Step::ApplyFilter]
        }),
{
}

/// Commands that open something, or that are for the host, leave the state as it is. Editors
/// open on the hunk in focus, where it has lines; the editor of a file on the line of its first
/// change.
pub proof fn dialogs_leave_the_state(state: AppState, env: Env, lines: (usize, usize))
    ensures
        ({
            let of = |command: Command| outcome(state, command, env);
            let does = |r: (AppState, Seq<Step>), step: Step| r.0 == state && r.1 == seq![step];
            let nothing = |r: (AppState, Seq<Step>)| r.0 == state && r.1.len() == 0;
            let height = larger(env.height - 2, 0) as usize;
            let last = last_scroll(state, env) as usize;
            let here = match state.focused_hunk {
                Some(h) => state.current_file < state.file_diffs@.len() && hunk_line_range(
                    state.file_diffs@[state.current_file as int],
                    h as int,
                ) == Some(lines),
                None => false,
            };
            let nowhere = match state.focused_hunk {
                Some(h) => state.current_file >= state.file_diffs@.len() || hunk_line_range(
                    state.file_diffs@[state.current_file as int],
                    h as int,
                ) is None,
                None => true,
            };
            &&& does(of(Command::ClearSearch), Step::ClearSearch)
            &&& does(of(Command::StartSearch), Step::StartSearch)
            &&& does(of(Command::Help), Step::OpenHelp)
            &&& of(Command::Quit) == (state, seq![Step::SaveViewState, Step::Quit])
            &&& of(Command::Reload) == (AppState { needs_reload: true, ..state }, Seq::<Step>::empty())
            &&& does(
                of(Command::NextMatch),
                Step::SearchNext { visible_height: height, max_scroll: last },
            )
            &&& does(
                of(Command::PreviousMatch),
                Step::SearchPrevious { visible_height: height, max_scroll: last },
            )
            &&& here ==> does(
                of(Command::Annotate),
                Step::OpenAnnotationEditor {
                    file_index: state.current_file,
                    hunk_index: state.focused_hunk->0,
                    line_range: lines,
                },
            )
            &&& here && !env.tag_editor_open ==> does(
                of(Command::EditTags),
                Step::OpenTagEditor {
                    file_index: state.current_file,
                    hunk_index: state.focused_hunk->0,
                    line_range: lines,
                },
            )
            &&& nowhere ==> nothing(of(Command::Annotate)) && nothing(of(Command::EditTags))
            &&& env.tag_editor_open ==> nothing(of(Command::EditTags))
            &&& state.annotations@.len() > 0 ==> does(
                of(Command::ListAnnotations),
                Step::OpenAnnotationList,
            )
            &&& state.annotations@.len() == 0 ==> nothing(of(Command::ListAnnotations))
            &&& state.file_diffs@.len() > 0 ==> does(
                of(Command::CopyName),
                Step::CopyFilename(state.current_file),
            ) && does(of(Command::PickFile), Step::OpenFilePicker)
            &&& state.file_diffs@.len() == 0 ==> nothing(of(Command::CopyName)) && nothing(
                of(Command::PickFile),
            ) && nothing(of(Command::EditFile))
            &&& env.pr_mode && state.file_diffs@.len() > 0 ==> does(
                of(Command::OpenInBrowser),
                Step::OpenInBrowser(state.current_file),
            )
            &&& !(env.pr_mode && state.file_diffs@.len() > 0) ==> nothing(
                of(Command::OpenInBrowser),
            )
            &&& nothing(of(Command::Nothing))
        }),
{
}

/// A file is opened in an editor on the line of the first change of the hunk in focus, and on no
/// line in particular where there is none.
pub proof fn files_are_edited_at_the_first_change(state: AppState, env: Env)
    requires
        state.file_diffs@.len() > 0,
    ensures
        ({
            let r = outcome(state, Command::EditFile, env);
            let file = state.file_diffs@[state.current_file as int];
            &&& r.0 == state && r.1.len() == 1
            &&& r.1[0] matches Step::EditFile { file_index, line } && file_index
                == state.current_file && match state.focused_hunk {
                None => line is None,
                Some(h) => if h < file.hunks@.len() && change_bounds(
                    file.rows@,
                    file.hunks@[h as int],
                ) is Some {
                    let (first, _last) = change_bounds(file.rows@, file.hunks@[h as int])->0;
                    line == row_number(file.rows@[first])
                } else {
                    line is None
                },
            }
        }),
{
}

} // verus!
