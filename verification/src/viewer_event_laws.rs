//! What holds of the steps that the viewer takes, of the mouse, of marks and of dialogs.

use vstd::prelude::*;

use crate::api_handler::Persist;
use crate::filter_laws::matching_hunks_are_those_that_pass;
use crate::filters::{matching_files, matching_hunks};
use crate::keys::{Key, KeyCode, Mouse, MouseKind};
use crate::state::{
    AppState, FocusedPanel, HunkAnnotation, HunkReview, HunkTags, PendingKey, SidebarItem,
};
use crate::state_laws::other_hunks_keep_what_is_on_them;
use crate::tag_editor::TagEditorResult;
use crate::text::strs;
use crate::viewer::{file_row_from, focused_lines, key_command, outcome, Command, Env, Step};
use crate::viewer_dialogs::{
    annotation_edited, choice_handled, tags_edited, AnnotationEditorResult, ModalResult,
};
use crate::viewer_events::{
    header_click, key_handled, mouse_outcome, row_of_file, step_outcome, wheel,
};
use crate::viewer_laws::{
    larger, last_scroll, lemma_file_row_from, passes_here, scrolled_to, smaller,
};
use crate::viewer_marks::{
    all_viewed, files_below, next_unviewed_row, review_toggled, toggled_files, toggled_together,
    unviewed_row, viewed_toggled,
};

verus! {

// ---------------------------------------------------------------------------
// Keys
// ---------------------------------------------------------------------------
/// Keys for a search or for something that covers the viewer leave the state as it is and are
/// handed on.
pub proof fn covered_viewers_hand_keys_on(
    before: AppState,
    after: AppState,
    steps: Seq<Step>,
    key: Key,
    env: Env,
)
    requires
        key_handled(before, after, steps, key, env),
        env.search_active || env.modal_open || env.tag_editor_open || env.annotation_editor_open,
    ensures
        after == before,
        env.search_active && key.code is Enter ==> steps == seq![Step::ConfirmSearch],
        env.search_active && key.code is Esc ==> steps == seq![Step::CancelSearch],
        !env.search_active && env.modal_open ==> steps == seq![Step::ModalKey],
        !env.search_active && !env.modal_open && env.tag_editor_open ==> steps == seq![
            Step::TagEditorKey,
        ],
        !env.search_active && !env.modal_open && !env.tag_editor_open ==> steps == seq![
            Step::AnnotationEditorKey,
        ],
{
}

/// A key of the viewer does what its command does. All keys but `g` forget a `g` before them.
pub proof fn keys_do_their_command(
    before: AppState,
    after: AppState,
    steps: Seq<Step>,
    key: Key,
    env: Env,
)
    requires
        key_handled(before, after, steps, key, env),
        !env.search_active && !env.modal_open && !env.tag_editor_open
            && !env.annotation_editor_open,
    ensures
        ({
            let command = key_command(key, env.has_query, before.focused_panel);
            let start = if key.code == KeyCode::Char('g') {
                before
            } else {
                AppState { pending_key: PendingKey::Nothing, ..before }
            };
            &&& key.code != KeyCode::Char('g') ==> after.pending_key is Nothing
            &&& command is ToggleViewed ==> viewed_toggled(start, after, steps, env)
            &&& command is ToggleReviewed ==> review_toggled(start, after, steps)
            &&& !(command is ToggleViewed) && !(command is ToggleReviewed) ==> (after, steps)
                == outcome(start, command, env)
        }),
{
}

// ---------------------------------------------------------------------------
// Steps
// ---------------------------------------------------------------------------
/// Applying filters makes the sidebar anew: with the files that are left, and then with one of
/// them open, or with all files where there is no filter.
pub proof fn filters_are_applied_to_the_sidebar(state: AppState, row: int)
    ensures
        ({
            let apply = step_outcome(state, Step::ApplyFilter);
            let settle = step_outcome(state, Step::SettleFilter);
            let left = matching_files(state).contains(state.current_file);
            let rows = state.sidebar_visible@.len();
            &&& apply.0 == state
            &&& state.tag_filter is Some || !(state.review_filter is All) ==> apply.1 == seq![
                Step::RebuildSidebarFiltered,
                Step::SettleFilter,
            ]
            &&& state.tag_filter is None && state.review_filter is All ==> apply.1 == seq![
                Step::RebuildSidebar,
            ]
            &&& left ==> settle.0 == state && settle.1.len() == 0
            &&& !left && 0 <= row < rows && state.file_at(row) is Some && (forall|k: int|
                0 <= k < row ==> #[trigger] state.file_at(k) is None) ==> settle.0 == state
                && settle.1 == seq![Step::SelectFile(state.file_at(row)->0)]
            &&& !left && (forall|k: int|
                0 <= k < rows ==> #[trigger] state.file_at(k) is None) ==> settle.0 == (AppState {
                current_file: 0,
                focused_hunk: None,
                ..state
            }) && settle.1.len() == 0
        }),
{
    lemma_file_row_from(state, 0);
    if let Some(k) = file_row_from(state, 0) {
        if 0 <= row < k {
            assert(state.file_at(row) is None);
        }
        if k < row {
            assert(state.file_at(k) is Some);
        }
    }
}

/// Some steps set one thing and nothing else.
pub proof fn steps_set_one_thing(state: AppState, n: usize, panel: FocusedPanel)
    ensures
        step_outcome(state, Step::SetCommit(n)) == (
            AppState { current_commit_index: n, ..state },
            Seq::<Step>::empty(),
        ),
        step_outcome(state, Step::SetPanel(panel)) == (
            AppState { focused_panel: panel, ..state },
            Seq::<Step>::empty(),
        ),
        step_outcome(state, Step::SetFocus(n)) == (
            AppState { focused_hunk: Some(n), ..state },
            Seq::<Step>::empty(),
        ),
{
}

/// A row is among those shown, and the sidebar is scrolled only as far as that needs.
pub open spec fn scrolled_into_sight(row: int, from: int, to: int, height: int) -> bool {
    &&& to <= row < to + height
    &&& from <= row < from + height ==> to == from
    &&& row < from ==> to == row
    &&& row >= from + height ==> row == to + height - 1
}

/// The selected row is brought into sight, or the row of the current file is selected and
/// brought into sight; where no row shows it nothing happens.
pub proof fn rows_are_brought_into_sight(state: AppState, height: usize, row: int)
    requires
        height > 0,
    ensures
        ({
            let r = step_outcome(state, Step::EnsureVisible(height));
            let s = step_outcome(state, Step::SelectInSidebar(height));
            let from = state.sidebar_scroll as int;
            let rows = state.sidebar_visible@.len();
            &&& r.1.len() == 0 && s.1.len() == 0
            &&& r.0 == AppState { sidebar_scroll: r.0.sidebar_scroll, ..state }
            &&& scrolled_into_sight(
                state.sidebar_selected as int,
                from,
                r.0.sidebar_scroll as int,
                height as int,
            )
            &&& 0 <= row < rows && state.file_at(row) == Some(state.current_file) && (forall|
                k: int,
            |
                0 <= k < row ==> #[trigger] state.file_at(k) != Some(state.current_file)) ==> {
                &&& s.0 == AppState {
                    sidebar_selected: row as usize,
                    sidebar_scroll: s.0.sidebar_scroll,
                    ..state
                }
                &&& scrolled_into_sight(row, from, s.0.sidebar_scroll as int, height as int)
            }
            &&& (forall|k: int|
                0 <= k < rows ==> #[trigger] state.file_at(k) != Some(state.current_file)) ==> s.0
                == state
        }),
{
    assert(state.sidebar_visible.len() == state.sidebar_visible@.len());
    lemma_row_of_file(state, 0);
    if let Some(k) = row_of_file(state, 0, state.current_file) {
        if 0 <= row < k {
            assert(state.file_at(row) != Some(state.current_file));
        }
        if k < row {
            assert(state.file_at(k) == Some(state.current_file));
        }
    }
}

proof fn lemma_row_of_file(state: AppState, from: int)
    requires
        0 <= from,
    ensures
        match row_of_file(state, from, state.current_file) {
            Some(row) => from <= row < state.sidebar_visible@.len() && state.file_at(row) == Some(
                state.current_file,
            ) && forall|k: int|
                from <= k < row ==> #[trigger] state.file_at(k) != Some(state.current_file),
            None => forall|k: int|
                from <= k < state.sidebar_visible@.len() ==> #[trigger] state.file_at(k) != Some(
                    state.current_file,
                ),
        },
    decreases state.sidebar_visible@.len() - from,
{
    if from < state.sidebar_visible@.len() && state.file_at(from) != Some(state.current_file) {
        lemma_row_of_file(state, from + 1);
    }
}

/// With filters, the first hunk of the file that passes comes into focus, and none where none
/// passes; without filters the focus stays.
pub proof fn the_first_passing_hunk_comes_into_focus(
    state: AppState,
    visible_height: usize,
    max_scroll: usize,
    h: usize,
)
    requires
        state.current_file < state.file_diffs@.len(),
    ensures
        ({
            let r = step_outcome(state, Step::FocusFirstMatch { visible_height, max_scroll });
            let filters = state.tag_filter is Some || !(state.review_filter is All);
            let row = state.file_diffs@[state.current_file as int].hunks@[h as int].start;
            &&& !filters ==> r.0 == state && r.1.len() == 0
            &&& filters && passes_here(state, h) && (forall|k: usize|
                k < h ==> !#[trigger] passes_here(state, k)) ==> r.0 == (AppState {
                focused_hunk: Some(h),
                ..state
            }) && r.1 == seq![Step::ScrollToHunk { row, visible_height, max_scroll }]
            &&& filters && (forall|k: usize| !#[trigger] passes_here(state, k)) ==> r.0 == (
            AppState { focused_hunk: None, ..state }) && r.1.len() == 0
        }),
{
    let list = matching_hunks(state, state.current_file);
    matching_hunks_are_those_that_pass(state, state.current_file);
    if list.len() > 0 {
        assert(list.contains(list[0]));
        assert(passes_here(state, list[0]));
    }
    if passes_here(state, h) {
        assert(list.contains(h));
        let j = choose|j: int| 0 <= j < list.len() && list[j] == h;
        assert(list[j] == h);
    }
}

/// A hunk of a file comes into focus, and the diff is to be scrolled to its first row where the
/// file has it.
pub proof fn a_hunk_comes_into_focus(
    state: AppState,
    file_index: usize,
    hunk_index: usize,
    visible_height: usize,
    max_scroll: usize,
)
    requires
        file_index < state.file_diffs@.len(),
    ensures
        ({
            let r = step_outcome(
                state,
                Step::FocusHunk { file_index, hunk_index, visible_height, max_scroll },
            );
            let hunks = state.file_diffs@[file_index as int].hunks@;
            &&& r.0 == (AppState { focused_hunk: Some(hunk_index), ..state })
            &&& hunk_index >= hunks.len() ==> r.1.len() == 0
            &&& hunk_index < hunks.len() ==> r.1 == seq![
                Step::ScrollToHunk {
                    row: hunks[hunk_index as int].start,
                    visible_height,
                    max_scroll,
                },
            ]
        }),
{
}

// ---------------------------------------------------------------------------
// The mouse
// ---------------------------------------------------------------------------
/// The wheel scrolls by three rows: the sidebar where it is over it, up to its last row, and
/// else the diff, up to its end; nothing on the last line of the screen.
pub proof fn the_wheel_scrolls_what_it_is_over(
    state: AppState,
    kind: MouseKind,
    column: u16,
    row: u16,
    env: Env,
)
    requires
        kind is ScrollDown || kind is ScrollUp,
    ensures
        ({
            let mouse = Mouse { kind, column, row };
            let r = mouse_outcome(state, mouse, wheel(kind) as i32, env);
            let down = kind is ScrollDown;
            let on_screen = row + 1 < env.height;
            let over_sidebar = state.show_sidebar && column < 40;
            let last = larger(state.sidebar_visible@.len() - 1, 0);
            &&& r.1.len() == 0
            &&& !on_screen ==> r.0 == state
            &&& on_screen && over_sidebar ==> {
                &&& r.0 == AppState { sidebar_scroll: r.0.sidebar_scroll, ..state }
                &&& down ==> r.0.sidebar_scroll == smaller(state.sidebar_scroll + 3, last)
                &&& !down ==> r.0.sidebar_scroll == larger(state.sidebar_scroll - 3, 0)
            }
            &&& on_screen && !over_sidebar ==> {
                &&& down ==> scrolled_to(
                    state,
                    r.0,
                    smaller(state.scroll + 3, last_scroll(state, env)),
                )
                &&& !down ==> scrolled_to(state, r.0, larger(state.scroll - 3, 0))
            }
        }),
{
    assert(state.sidebar_visible.len() == state.sidebar_visible@.len());
}

/// A click on the sidebar selects the row under it: a file is opened and the diff gets the
/// focus, a directory is folded and the sidebar gets it. Rows begin below the upper edge, and
/// below the line of the commits in a stack.
pub proof fn clicks_select_the_row_under_them(
    state: AppState,
    column: u16,
    row: u16,
    delta: i32,
    env: Env,
)
    requires
        state.show_sidebar,
        column < 40,
        row + 1 < env.height,
        state.stacked_mode ==> row > 0,
        env.height >= 5,
        state.sidebar_scroll + row <= usize::MAX,
    ensures
        ({
            let mouse = Mouse { kind: MouseKind::LeftDown, column, row };
            let r = mouse_outcome(state, mouse, delta, env);
            let above = if state.stacked_mode {
                2
            } else {
                1int
            };
            let at = state.sidebar_scroll + larger(row - above, 0);
            match state.item_at(at) {
                None => r.0 == state && r.1.len() == 0,
                Some(SidebarItem::File { path: _, file_index }) => {
                    &&& r.0 == (AppState {
                        sidebar_selected: at as usize,
                        focused_panel: FocusedPanel::DiffView,
                        ..state
                    })
                    &&& r.1 == seq![Step::SelectFile(file_index)]
                },
                Some(SidebarItem::Directory { path: _ }) => {
                    &&& r.0 == (AppState {
                        sidebar_selected: at as usize,
                        focused_panel: FocusedPanel::Sidebar,
                        ..state
                    })
                    &&& r.1 == seq![
                        Step::ToggleDirectory(state.sidebar_visible@[at]),
                        Step::EnsureVisible((env.height - 5) as usize),
                    ]
                },
            }
        }),
{
}

/// A click beside the sidebar gives the focus to the diff. In a stack, a click at either end of
/// the first line does what the keys for the previous and the next commit do, and one between
/// them nothing. Other events change nothing.
pub proof fn other_clicks_focus_or_turn(
    state: AppState,
    column: u16,
    row: u16,
    delta: i32,
    env: Env,
)
    requires
        env.width >= 8,
        state.stacked_mode ==> state.current_commit_index < state.stacked_commits@.len(),
    ensures
        ({
            let r = mouse_outcome(
                state,
                Mouse { kind: MouseKind::LeftDown, column, row },
                delta,
                env,
            );
            let on_header = state.stacked_mode && row == 0;
            let beside = !state.show_sidebar || column >= 40;
            &&& mouse_outcome(state, Mouse { kind: MouseKind::Other, column, row }, delta, env) == (
                state,
                Seq::<Step>::empty(),
            )
            &&& !on_header && beside ==> r.0 == (AppState {
                focused_panel: FocusedPanel::DiffView,
                ..state
            }) && r.1.len() == 0
            &&& !on_header && !beside && row + 1 >= env.height ==> r.0 == state && r.1.len() == 0
            &&& on_header && column < 4 ==> r == outcome(state, Command::PreviousCommit, env)
            &&& on_header && column + 4 >= env.width ==> r == outcome(
                state,
                Command::NextCommit,
                env,
            )
            &&& on_header && 4 <= column < env.width - 4 ==> r.0 == state && r.1.len() == 0
        }),
{
    assert(header_click(state, column, env).len() == 0 ==> header_click(state, column, env)
        =~= seq![]);
}

// ---------------------------------------------------------------------------
// Marks
// ---------------------------------------------------------------------------
/// A file lies below a directory where its path goes on behind the directory and a slash.
pub open spec fn lies_below(item: SidebarItem, directory: Seq<char>) -> bool {
    match item {
        SidebarItem::File { path, file_index: _ } => {
            &&& path@.len() > directory.len()
            &&& path@.take(directory.len() as int) == directory
            &&& path@[directory.len() as int] == '/'
        },
        SidebarItem::Directory { path: _ } => false,
    }
}

proof fn lemma_files_below(items: Seq<SidebarItem>, n: int, directory: Seq<char>)
    requires
        0 <= n <= items.len(),
    ensures
        files_below(items, n, directory) == items.take(n).filter(
            |item: SidebarItem| lies_below(item, directory),
        ).map_values(|item: SidebarItem| item.file()->0),
    decreases n,
{
    reveal(Seq::filter);
    reveal_strlit("/");
    let p = |item: SidebarItem| lies_below(item, directory);
    let f = |item: SidebarItem| item.file()->0;
    if n > 0 {
        lemma_files_below(items, n - 1, directory);
        assert(items.take(n).drop_last() =~= items.take(n - 1));
        let less = items.take(n - 1).filter(p);
        assert(less.push(items[n - 1]).map_values(f) =~= less.map_values(f).push(f(items[n - 1])));
        if let SidebarItem::File { path, file_index: _ } = items[n - 1] {
            let start = directory + "/"@;
            if start.is_prefix_of(path@) {
                assert(path@.take(directory.len() as int) =~= directory);
                assert(path@[directory.len() as int] == start[directory.len() as int]);
            }
            if lies_below(items[n - 1], directory) {
                assert(path@.take(start.len() as int) =~= start) by {
                    assert forall|k: int| 0 <= k < start.len() implies path@[k] == start[k] by {
                        if k < directory.len() {
                            assert(path@.take(directory.len() as int)[k] == directory[k]);
                        }
                    }
                }
                assert(start.is_prefix_of(path@));
            }
        }
    } else {
        assert(items.take(0).filter(p).map_values(f) =~= seq![]);
    }
}

/// The files below a directory are all those whose path goes on behind it and a slash, in order.
pub proof fn directories_hold_the_files_below(items: Seq<SidebarItem>, directory: Seq<char>)
    ensures
        files_below(items, items.len() as int, directory) == items.filter(
            |item: SidebarItem| lies_below(item, directory),
        ).map_values(|item: SidebarItem| item.file()->0),
{
    lemma_files_below(items, items.len() as int, directory);
    assert(items.take(items.len() as int) =~= items);
}

/// Files are marked together: all as viewed, or all as not viewed where they all were. Other
/// files keep their mark.
pub proof fn files_are_marked_together(viewed: Set<usize>, files: Seq<usize>, f: usize)
    ensures
        ({
            let r = toggled_together(viewed, files);
            let were = forall|i: int| 0 <= i < files.len() ==> viewed.contains(#[trigger] files[i]);
            &&& !files.contains(f) ==> (r.contains(f) <==> viewed.contains(f))
            &&& files.contains(f) ==> (r.contains(f) <==> !were)
        }),
{
}

proof fn lemma_unviewed_row(state: AppState, viewed: Set<usize>, from: int, to: int)
    requires
        0 <= from,
        to <= state.sidebar_visible@.len(),
    ensures
        match unviewed_row(state, viewed, from, to) {
            Some(row) => from <= row < to && is_unviewed(state, viewed, row) && forall|k: int|
                from <= k < row ==> !#[trigger] is_unviewed(state, viewed, k),
            None => forall|k: int| from <= k < to ==> !#[trigger] is_unviewed(state, viewed, k),
        },
    decreases to - from,
{
    if from < to && !is_unviewed(state, viewed, from) {
        lemma_unviewed_row(state, viewed, from + 1, to);
    }
}

/// A row that shows a file which was not viewed.
pub open spec fn is_unviewed(state: AppState, viewed: Set<usize>, row: int) -> bool {
    state.file_at(row) is Some && !viewed.contains(state.file_at(row)->0)
}

/// The next file to view is the nearest one below the selected row that was not viewed; where
/// there is none below, the first one above it; and none where all the others were viewed.
pub proof fn the_next_file_to_view_is_the_nearest(state: AppState, viewed: Set<usize>, row: int)
    requires
        state.sidebar_selected < state.sidebar_visible@.len(),
    ensures
        ({
            let r = next_unviewed_row(state, viewed);
            let at = state.sidebar_selected as int;
            let rows = state.sidebar_visible@.len();
            let none_below = forall|k: int|
                at < k < rows ==> !#[trigger] is_unviewed(state, viewed, k);
            let none_above = forall|k: int|
                0 <= k < at ==> !#[trigger] is_unviewed(state, viewed, k);
            &&& at < row < rows && is_unviewed(state, viewed, row) && (forall|k: int|
                at < k < row ==> !#[trigger] is_unviewed(state, viewed, k)) ==> r == Some(row)
            &&& none_below && 0 <= row < at && is_unviewed(state, viewed, row) && (forall|k: int|
                0 <= k < row ==> !#[trigger] is_unviewed(state, viewed, k)) ==> r == Some(row)
            &&& none_below && none_above ==> r is None
        }),
{
    let at = state.sidebar_selected as int;
    lemma_unviewed_row(state, viewed, at + 1, state.sidebar_visible@.len() as int);
    lemma_unviewed_row(state, viewed, 0, at);
}

/// What is marked as viewed: the current file in the diff; in the sidebar the file of the selected
/// row, or all files below its directory.
pub open spec fn files_to_mark(state: AppState) -> Seq<usize> {
    if state.focused_panel is DiffView {
        seq![state.current_file]
    } else {
        match state.item_at(state.sidebar_selected as int) {
            Some(SidebarItem::File { path: _, file_index }) => seq![file_index],
            Some(SidebarItem::Directory { path }) => state.sidebar_items@.filter(
                |item: SidebarItem| lies_below(item, path@),
            ).map_values(|item: SidebarItem| item.file()->0),
            None => seq![],
        }
    }
}

/// Not all files of a list were viewed.
pub open spec fn some_unviewed(viewed: Set<usize>, files: Seq<usize>) -> bool {
    exists|k: int| 0 <= k < files.len() && !viewed.contains(#[trigger] files[k])
}

/// Marking as viewed marks the file of the selected row, or all files below its directory, and
/// in the diff the current file. In the diff, the next file to view is then selected and opened.
/// In a pull request every file is marked there too. What is marked is saved, and nothing else
/// changes.
pub proof fn marking_marks_what_is_selected(
    before: AppState,
    after: AppState,
    steps: Seq<Step>,
    env: Env,
    i: int,
)
    requires
        viewed_toggled(before, after, steps, env),
    ensures
        ({
            let item = before.item_at(before.sidebar_selected as int);
            let in_diff = before.focused_panel is DiffView;
            let files = files_to_mark(before);
            let now = some_unviewed(before.viewed_files@, files);
            let next = next_unviewed_row(before, after.viewed_files@);
            let goes_on = in_diff && now && next is Some;
            let first: int = if goes_on {
                2
            } else {
                0
            };
            &&& !in_diff && item is None ==> after == before && steps.len() == 0
            &&& in_diff || item is Some ==> {
                &&& after.viewed_files@ == toggled_together(before.viewed_files@, files)
                &&& after == AppState {
                    viewed_files: after.viewed_files,
                    sidebar_selected: after.sidebar_selected,
                    ..before
                }
                &&& goes_on ==> after.sidebar_selected == next->0 as usize && steps[0]
                    == Step::SelectFile(before.file_at(next->0)->0) && steps[1]
                    == Step::EnsureVisible(larger(env.height - 5, 0) as usize)
                &&& !goes_on ==> after.sidebar_selected == before.sidebar_selected
                &&& env.pr_mode ==> steps.len() == first + files.len() + 1
                &&& !env.pr_mode ==> steps.len() == first + 1
                &&& steps.last() is SaveViewState
                &&& env.pr_mode && 0 <= i < files.len() ==> steps[first + i] == (Step::MarkViewed {
                    file_index: files[i],
                    viewed: now,
                })
            }
        }),
{
    let files = files_to_mark(before);
    if let Some(SidebarItem::Directory { path }) = before.item_at(before.sidebar_selected as int) {
        directories_hold_the_files_below(before.sidebar_items@, path@);
    }
    if toggled_files(before) is Some {
        assert(toggled_files(before) == Some(files));
        assert(all_viewed(before.viewed_files@, files) == !some_unviewed(
            before.viewed_files@,
            files,
        ));
    }
}

/// Toggling the review of the hunk in focus takes its marks away where it was reviewed, and else
/// adds one at the end. Marks on other hunks stay, in order. It is saved, and the filters are
/// applied. Without lines in focus nothing happens.
pub proof fn toggling_a_review_changes_one_hunk(before: AppState, after: AppState, steps: Seq<Step>)
    requires
        review_toggled(before, after, steps),
    ensures
        ({
            let f = before.current_file;
            let h = before.focused_hunk->0;
            let others = before.reviewed_hunks@.filter(
                |m: HunkReview| m.file_index != f || m.hunk_index != h,
            );
            if focused_lines(before) is None {
                after == before && steps.len() == 0
            } else {
                &&& after == AppState { reviewed_hunks: after.reviewed_hunks, ..before }
                &&& before.reviewed(f, h) ==> after.reviewed_hunks@ == others
                &&& !before.reviewed(f, h) ==> {
                    let mark = after.reviewed_hunks@.last();
                    &&& after.reviewed_hunks@.len() > 0
                    &&& after.reviewed_hunks@.drop_last() == others
                    &&& mark.file_index == f && mark.hunk_index == h
                    &&& mark.filename == before.file_diffs@[f as int].filename
                }
                &&& steps == seq![
                    Step::SaveReview {
                        file_index: f,
                        hunk_index: h,
                        reviewed: !before.reviewed(f, h),
                    },
                    Step::ApplyFilter,
                ]
            }
        }),
{
    other_hunks_keep_what_is_on_them(
        seq![],
        seq![],
        before.reviewed_hunks@,
        before.current_file,
        before.focused_hunk->0,
    );
}

// ---------------------------------------------------------------------------
// Dialogs
// ---------------------------------------------------------------------------
/// What a dialog leaves behind but for a deletion: the state as it is, nothing to store, and
/// steps that go where the choice leads and close the dialog.
pub proof fn choices_lead_somewhere(
    before: AppState,
    after: AppState,
    r: (Seq<Step>, Persist),
    result: ModalResult,
    env: Env,
)
    requires
        choice_handled(before, after, r, result, env),
        !(result is AnnotationDelete),
    ensures
        ({
            let filters = before.tag_filter is Some || !(before.review_filter is All);
            let height = larger(env.height - 5, 0) as usize;
            &&& after == before && r.1 is Nothing
            &&& match result {
                ModalResult::FileSelected(file) => {
                    &&& r.0[0] == Step::RevealFile(file) && r.0[1] == Step::SelectFile(file)
                    &&& filters ==> r.0.len() == 5 && r.0[2] is ApplyFilter
                    &&& !filters ==> r.0.len() == 4
                    &&& r.0[r.0.len() - 2] == Step::SelectInSidebar(height)
                    &&& r.0.last() is CloseModal
                },
                ModalResult::AnnotationJump { file_index, hunk_index } => r.0 == seq![
                    Step::SelectFile(file_index),
                    Step::FocusHunk {
                        file_index,
                        hunk_index,
                        visible_height: larger(env.height - 2, 0) as usize,
                        max_scroll: last_scroll(before, env) as usize,
                    },
                    Step::CloseModal,
                ],
                ModalResult::AnnotationEdit { file_index, hunk_index } => match before.annotation_of(
                    file_index,
                    hunk_index,
                ) {
                    Some(a) => r.0 == seq![
                        Step::OpenAnnotationEditor {
                            file_index,
                            hunk_index,
                            line_range: a.line_range,
                        },
                        Step::SelectFile(file_index),
                        Step::SetFocus(hunk_index),
                        Step::CloseModal,
                    ],
                    None => r.0 == seq![Step::CloseModal],
                },
                ModalResult::AnnotationCopyAll => r.0 == seq![
                    Step::CopyAnnotations,
                    Step::CloseModal,
                ],
                ModalResult::AnnotationExport => r.0 == seq![Step::ExportAnnotations],
                _ => r.0 == seq![Step::CloseModal],
            }
        }),
{
}

/// The annotations after those of one hunk were taken away, and what is then to be stored: the
/// removal of the one that was found, or nothing where there was none.
pub open spec fn annotations_of_hunk_gone(
    before: AppState,
    after: AppState,
    persist: Persist,
    f: usize,
    h: usize,
) -> bool {
    &&& after == AppState { annotations: after.annotations, ..before }
    &&& match before.annotation_of(f, h) {
        Some(a) => {
            &&& after.annotations@ == before.annotations@.filter(
                |b: HunkAnnotation| b.file_index != f || b.hunk_index != h,
            )
            &&& persist == Persist::Remove(a)
        },
        None => after.annotations == before.annotations && persist is Nothing,
    }
}

/// Deleting an annotation from the list keeps those on other hunks, in order, and shows the list
/// again as long as there are any.
pub proof fn deleting_from_the_list_keeps_the_others(
    before: AppState,
    after: AppState,
    r: (Seq<Step>, Persist),
    file_index: usize,
    hunk_index: usize,
    env: Env,
)
    requires
        choice_handled(
            before,
            after,
            r,
            ModalResult::AnnotationDelete { file_index, hunk_index },
            env,
        ),
    ensures
        annotations_of_hunk_gone(before, after, r.1, file_index, hunk_index),
        after.annotations@.len() > 0 ==> r.0 == seq![Step::OpenAnnotationList],
        after.annotations@.len() == 0 ==> r.0 == seq![Step::CloseModal],
{
    other_hunks_keep_what_is_on_them(
        before.annotations@,
        seq![],
        seq![],
        file_index,
        hunk_index,
    );
}

/// The editor of an annotation saves it as the last one and the only one of its hunk, takes
/// those of its hunk away, or changes nothing; it closes but where it goes on.
pub proof fn the_annotation_editor_changes_one_hunk(
    before: AppState,
    after: AppState,
    r: (Seq<Step>, Persist),
    result: AnnotationEditorResult,
)
    requires
        annotation_edited(before, after, r, result),
    ensures
        result is Continue ==> r.0.len() == 0,
        !(result is Continue) ==> r.0 == seq![Step::CloseAnnotationEditor],
        match result {
            AnnotationEditorResult::Save(a) => {
                &&& after == AppState { annotations: after.annotations, ..before }
                &&& after.annotations@.len() > 0 && after.annotations@.last() == a
                &&& after.annotations@.drop_last() == before.annotations@.filter(
                    |b: HunkAnnotation|
                        b.file_index != a.file_index || b.hunk_index != a.hunk_index,
                )
                &&& r.1 == Persist::Upsert(a)
            },
            AnnotationEditorResult::Delete {
                file_index,
                hunk_index,
            } => annotations_of_hunk_gone(before, after, r.1, file_index, hunk_index),
            _ => after == before && r.1 is Nothing,
        },
{
    match result {
        AnnotationEditorResult::Save(a) => {
            other_hunks_keep_what_is_on_them(
                before.annotations@,
                seq![],
                seq![],
                a.file_index,
                a.hunk_index,
            );
            assert(after.annotations@.drop_last() =~= before.annotations@.filter(
                |b: HunkAnnotation| b.file_index != a.file_index || b.hunk_index != a.hunk_index,
            ));
        },
        AnnotationEditorResult::Delete { file_index, hunk_index } => {
            other_hunks_keep_what_is_on_them(
                before.annotations@,
                seq![],
                seq![],
                file_index,
                hunk_index,
            );
        },
        _ => {},
    }
}

/// The editor of tags puts those that were saved on its hunk, as the last entry, or none where
/// there are none; the entries of other hunks stay, in order. The filters are then applied.
/// Otherwise nothing changes.
pub proof fn the_tag_editor_changes_one_hunk(
    before: AppState,
    after: AppState,
    r: (Seq<Step>, Persist),
    f: usize,
    h: usize,
    result: TagEditorResult,
)
    requires
        tags_edited(before, after, r, f, h, result),
    ensures
        result is Continue ==> r.0.len() == 0 && after == before && r.1 is Nothing,
        result is Cancel ==> r.0 == seq![Step::CloseTagEditor] && after == before && r.1 is Nothing,
        result matches TagEditorResult::Save(tags) ==> {
            let others = before.hunk_tags@.filter(
                |t: HunkTags| t.file_index != f || t.hunk_index != h,
            );
            &&& r.0 == seq![Step::ApplyFilter, Step::CloseTagEditor]
            &&& f >= before.file_diffs@.len() ==> after == before && r.1 is Nothing
            &&& f < before.file_diffs@.len() ==> {
                let t = after.hunk_tags@.last();
                &&& after == AppState { hunk_tags: after.hunk_tags, ..before }
                &&& r.1 == (Persist::SetTags { file_index: f, hunk_index: h, tags })
                &&& tags@.len() == 0 ==> after.hunk_tags@ == others
                &&& tags@.len() > 0 ==> {
                    &&& after.hunk_tags@.len() > 0
                    &&& after.hunk_tags@.drop_last() == others
                    &&& t.file_index == f && t.hunk_index == h
                    &&& t.filename@ == before.file_diffs@[f as int].filename@
                    &&& strs(t.tags@) == strs(tags@)
                }
            }
        },
{
    other_hunks_keep_what_is_on_them(seq![], before.hunk_tags@, seq![], f, h);
}

} // verus!
