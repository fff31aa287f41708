//! The marks that keys set in the viewer: files that were viewed and hunks that were
//! reviewed.

use std::collections::HashSet;

use vstd::prelude::*;

use crate::diff::compute_hunk_line_range;
use crate::seqs::{first_where_is_first, first_where_none, kept, kept_elements};
use crate::state::{review_elsewhere, review_on, AppState, FocusedPanel, HunkReview, SidebarItem};
use crate::text::{concat2, str_starts_with, strs};
use crate::view_state::{files_named, find_files_named};
use crate::viewer::{focused_lines, list_height, Env, Step};

verus! {

broadcast use vstd::std_specs::hash::group_hash_axioms;

// ---------------------------------------------------------------------------
// Viewed files
// ---------------------------------------------------------------------------
/// The files below a directory, among the first `n` items of the sidebar.
pub open spec fn files_below(items: Seq<SidebarItem>, n: int, directory: Seq<char>) -> Seq<usize>
    decreases n,
{
    if n <= 0 {
        seq![]
    } else {
        match items[n - 1] {
            SidebarItem::File { path, file_index } => if (directory + "/"@).is_prefix_of(path@) {
                files_below(items, n - 1, directory).push(file_index)
            } else {
                files_below(items, n - 1, directory)
            },
            SidebarItem::Directory { path: _ } => files_below(items, n - 1, directory),
        }
    }
}

/// Every one of the files was viewed.
pub open spec fn all_viewed(viewed: Set<usize>, files: Seq<usize>) -> bool {
    forall|i: int| 0 <= i < files.len() ==> viewed.contains(#[trigger] files[i])
}

/// The files that were viewed after some were toggled together: none of them where all
/// were, and all of them otherwise.
pub open spec fn toggled_together(viewed: Set<usize>, files: Seq<usize>) -> Set<usize> {
    if all_viewed(viewed, files) {
        Set::new(|f: usize| viewed.contains(f) && !files.contains(f))
    } else {
        Set::new(|f: usize| viewed.contains(f) || files.contains(f))
    }
}

/// The steps that tell a pull request of files that were viewed, or no longer.
pub open spec fn mark_steps(files: Seq<usize>, viewed: bool, env: Env) -> Seq<Step> {
    if env.pr_mode {
        Seq::new(files.len(), |i: int| Step::MarkViewed { file_index: files[i], viewed })
    } else {
        seq![]
    }
}

/// The first line from `from` up to `to` that shows a file that was not viewed.
pub open spec fn unviewed_row(state: AppState, viewed: Set<usize>, from: int, to: int) -> Option<int>
    decreases to - from,
{
    if from >= to || from >= state.sidebar_visible@.len() {
        None
    } else if state.file_at(from) matches Some(f) && !viewed.contains(f) {
        Some(from)
    } else {
        unviewed_row(state, viewed, from + 1, to)
    }
}

/// The line with the next file that was not viewed: the first behind the selected one, or
/// else the first in front of it.
pub open spec fn next_unviewed_row(state: AppState, viewed: Set<usize>) -> Option<int> {
    let end = state.sidebar_visible@.len() as int;
    match unviewed_row(state, viewed, state.sidebar_selected + 1, end) {
        Some(row) => Some(row),
        None => unviewed_row(state, viewed, 0, state.sidebar_selected as int),
    }
}

/// What is toggled: the file or the directory on the selected line of the sidebar, or the
/// current file.
pub open spec fn toggled_files(state: AppState) -> Option<Seq<usize>> {
    if state.focused_panel == FocusedPanel::Sidebar {
        match state.item_at(state.sidebar_selected as int) {
            Some(SidebarItem::File { path: _, file_index }) => Some(seq![file_index]),
            Some(SidebarItem::Directory { path }) => Some(
                files_below(state.sidebar_items@, state.sidebar_items@.len() as int, path@),
            ),
            None => None,
        }
    } else {
        Some(seq![state.current_file])
    }
}

/// The steps that go on to the next file that was not viewed.
pub open spec fn advance_steps(state: AppState, row: Option<int>, env: Env) -> Seq<Step> {
    match row {
        Some(r) => seq![
            Step::SelectFile(state.file_at(r)->0),
            Step::EnsureVisible(list_height(env) as usize),
        ],
        None => seq![],
    }
}

/// The viewed marks were toggled. In the diff, marking a file as viewed goes on to the next
/// file that was not.
pub open spec fn viewed_toggled(
    before: AppState,
    after: AppState,
    steps: Seq<Step>,
    env: Env,
) -> bool {
    match toggled_files(before) {
        None => after == before && steps == Seq::<Step>::empty(),
        Some(files) => {
            let viewed = before.viewed_files@;
            let now_viewed = !all_viewed(viewed, files);
            let row = if before.focused_panel == FocusedPanel::DiffView && now_viewed {
                next_unviewed_row(before, toggled_together(viewed, files))
            } else {
                None
            };
            &&& after.viewed_files@ == toggled_together(viewed, files)
            &&& after == AppState {
                viewed_files: after.viewed_files,
                sidebar_selected: match row {
                    Some(r) => r as usize,
                    None => before.sidebar_selected,
                },
                ..before
            }
            &&& steps == advance_steps(before, row, env) + mark_steps(files, now_viewed, env)
                + seq![Step::SaveViewState]
        },
    }
}

fn find_files_below(items: &Vec<SidebarItem>, directory: &String) -> (r: Vec<usize>)
    ensures
        r@ == files_below(items@, items@.len() as int, directory@),
{
    let prefix = concat2(directory.as_str(), "/");
    let mut r: Vec<usize> = Vec::new();
    let mut i: usize = 0;
    while i < items.len()
        invariant
            i <= items@.len(),
            prefix@ == directory@ + "/"@,
            r@ == files_below(items@, i as int, directory@),
        decreases items@.len() - i,
    {
        if let SidebarItem::File { path, file_index } = &items[i] {
            if str_starts_with(path.as_str(), prefix.as_str()) {
                r.push(*file_index);
            }
        }
        i += 1;
    }
    r
}

fn are_all_viewed(viewed: &HashSet<usize>, files: &Vec<usize>) -> (r: bool)
    ensures
        r == all_viewed(viewed@, files@),
{
    let mut i: usize = 0;
    while i < files.len()
        invariant
            i <= files@.len(),
            forall|k: int| 0 <= k < i ==> viewed@.contains(#[trigger] files@[k]),
        decreases files@.len() - i,
    {
        if !viewed.contains(&files[i]) {
            return false;
        }
        i += 1;
    }
    true
}

fn toggle_together(viewed: &mut HashSet<usize>, files: &Vec<usize>) -> (now_viewed: bool)
    ensures
        final(viewed)@ == toggled_together(old(viewed)@, files@),
        now_viewed == !all_viewed(old(viewed)@, files@),
{
    let ghost before = viewed@;
    let all = are_all_viewed(viewed, files);
    let mut i: usize = 0;
    while i < files.len()
        invariant
            i <= files@.len(),
            all == all_viewed(before, files@),
            forall|f: usize| #[trigger]
                viewed@.contains(f) <==> if all {
                    before.contains(f) && !files@.take(i as int).contains(f)
                } else {
                    before.contains(f) || files@.take(i as int).contains(f)
                },
        decreases files@.len() - i,
    {
        let f = files[i];
        let ghost now = viewed@;
        let ghost seen = files@.take(i as int);
        let ghost more = files@.take(i + 1);
        if all {
            viewed.remove(&f);
        } else {
            viewed.insert(f);
        }
        proof {
            assert(more == seen.push(f));
            assert forall|g: usize| #[trigger] more.contains(g) <==> seen.contains(g) || g == f by {
                if more.contains(g) {
                    let k = choose|k: int| 0 <= k < more.len() && more[k] == g;
                    if k < seen.len() {
                        assert(seen[k] == g);
                    }
                }
                if seen.contains(g) {
                    let k = choose|k: int| 0 <= k < seen.len() && seen[k] == g;
                    assert(more[k] == g);
                }
                assert(more[i as int] == f);
            }
            assert forall|g: usize| #[trigger] viewed@.contains(g) <==> if all {
                before.contains(g) && !more.contains(g)
            } else {
                before.contains(g) || more.contains(g)
            } by {
                assert(more.contains(g) <==> seen.contains(g) || g == f);
                assert(now.contains(g) <==> if all {
                    before.contains(g) && !seen.contains(g)
                } else {
                    before.contains(g) || seen.contains(g)
                });
            }
        }
        i += 1;
    }
    assert(files@.take(i as int) == files@);
    assert(viewed@ =~= toggled_together(before, files@));
    !all
}

fn find_unviewed_row(state: &AppState, from: usize, to: usize) -> (r: Option<(usize, usize)>)
    ensures
        match r {
            Some((row, file)) => unviewed_row(
                *state,
                state.viewed_files@,
                from as int,
                to as int,
            ) == Some(row as int) && state.file_at(row as int) == Some(file) && row
                < state.sidebar_visible@.len(),
            None => unviewed_row(*state, state.viewed_files@, from as int, to as int) is None,
        },
{
    let mut row: usize = from;
    while row < to && row < state.sidebar_visible.len()
        invariant
            unviewed_row(*state, state.viewed_files@, from as int, to as int) == unviewed_row(
                *state,
                state.viewed_files@,
                row as int,
                to as int,
            ),
        decreases to - row,
    {
        if let Some(file) = state.sidebar_file_at(row) {
            if !state.viewed_files.contains(&file) {
                return Some((row, file));
            }
        }
        row += 1;
    }
    None
}

proof fn lemma_unviewed_same(a: AppState, b: AppState, viewed: Set<usize>, from: int, to: int)
    requires
        a.sidebar_visible == b.sidebar_visible,
        a.sidebar_items == b.sidebar_items,
    ensures
        unviewed_row(a, viewed, from, to) == unviewed_row(b, viewed, from, to),
    decreases to - from,
{
    if from < to && from < a.sidebar_visible@.len() {
        lemma_unviewed_same(a, b, viewed, from + 1, to);
    }
}

fn push_mark_steps(steps: &mut Vec<Step>, files: &Vec<usize>, viewed: bool, env: Env)
    ensures
        final(steps)@ == old(steps)@ + mark_steps(files@, viewed, env),
{
    let ghost begun = steps@;
    if env.pr_mode {
        let mut i: usize = 0;
        assert(begun == begun + mark_steps(files@, viewed, env).take(0));
        while i < files.len()
            invariant
                env.pr_mode,
                i <= files@.len(),
                steps@ == begun + mark_steps(files@, viewed, env).take(i as int),
            decreases files@.len() - i,
        {
            let ghost all = mark_steps(files@, viewed, env);
            steps.push(Step::MarkViewed { file_index: files[i], viewed });
            assert(all.take(i + 1) == all.take(i as int).push(all[i as int]));
            i += 1;
        }
        assert(mark_steps(files@, viewed, env).take(i as int) == mark_steps(files@, viewed, env));
    } else {
        assert(begun == begun + mark_steps(files@, viewed, env));
    }
}

/// Toggles the viewed marks, and returns the steps that follow.
pub fn toggle_viewed(state: &mut AppState, env: Env) -> (steps: Vec<Step>)
    requires
        old(state).wf(),
    ensures
        viewed_toggled(*old(state), *final(state), steps@, env),
{
    let in_sidebar = state.focused_panel == FocusedPanel::Sidebar;
    let files: Vec<usize> = if in_sidebar {
        match state.sidebar_item_at_visible(state.sidebar_selected) {
            Some(SidebarItem::File { path: _, file_index }) => vec![*file_index],
            Some(SidebarItem::Directory { path }) => find_files_below(&state.sidebar_items, path),
            None => {
                return Vec::new();
            },
        }
    } else {
        vec![state.current_file]
    };
    let ghost before = *old(state);
    proof {
        let toggled = toggled_files(before)->0;
        assert(files@ =~= toggled);
    }
    let now_viewed = toggle_together(&mut state.viewed_files, &files);
    let ghost mut found: Option<int> = None;
    let mut steps: Vec<Step> = Vec::new();
    if !in_sidebar && now_viewed {
        let mut next = find_unviewed_row(
            state,
            state.sidebar_selected + 1,
            state.sidebar_visible.len(),
        );
        if next.is_none() {
            next = find_unviewed_row(state, 0, state.sidebar_selected);
        }
        proof {
            lemma_unviewed_same(
                before,
                *state,
                state.viewed_files@,
                before.sidebar_selected + 1,
                before.sidebar_visible@.len() as int,
            );
            lemma_unviewed_same(
                before,
                *state,
                state.viewed_files@,
                0,
                before.sidebar_selected as int,
            );
        }
        if let Some((row, file)) = next {
            state.sidebar_selected = row;
            steps.push(Step::SelectFile(file));
            steps.push(Step::EnsureVisible(env.height.saturating_sub(5) as usize));
            proof {
                found = Some(row as int);
            }
        }
    }
    assert(steps@ =~= advance_steps(before, found, env));
    push_mark_steps(&mut steps, &files, now_viewed, env);
    let ghost without_save = steps@;
    steps.push(Step::SaveViewState);
    assert(steps@ =~= without_save + seq![Step::SaveViewState]);
    steps
}

/// The names of the files that a pull request has as viewed are the files that were viewed.
pub fn sync_viewed_files(state: &mut AppState, names: &Vec<String>)
    ensures
        final(state).viewed_files@ == files_named(
            old(state).file_diffs@,
            strs(names@),
        ),
        *final(state) == (AppState { viewed_files: final(state).viewed_files, ..*old(state) }),
{
    state.viewed_files = find_files_named(&state.file_diffs, names);
}

// ---------------------------------------------------------------------------
// Reviewed hunks
// ---------------------------------------------------------------------------
/// The review mark of the focused hunk was toggled.
pub open spec fn review_toggled(before: AppState, after: AppState, steps: Seq<Step>) -> bool {
    match focused_lines(before) {
        None => after == before && steps == Seq::<Step>::empty(),
        Some(_) => {
            let file = before.current_file;
            let hunk = before.focused_hunk->0;
            let reviewed = !before.reviewed(file, hunk);
            let others = kept(before.reviewed_hunks@, review_elsewhere(file, hunk));
            &&& after == AppState { reviewed_hunks: after.reviewed_hunks, ..before }
            &&& if reviewed {
                &&& after.reviewed_hunks@.len() == others.len() + 1
                &&& after.reviewed_hunks@.drop_last() == others
                &&& after.reviewed_hunks@.last() == HunkReview {
                    file_index: file,
                    hunk_index: hunk,
                    filename: before.file_diffs@[file as int].filename,
                }
            } else {
                after.reviewed_hunks@ == others
            }
            &&& steps == seq![
                Step::SaveReview { file_index: file, hunk_index: hunk, reviewed },
                Step::ApplyFilter,
            ]
        },
    }
}

/// Toggles the review mark of the focused hunk, and returns the steps that follow.
pub fn toggle_reviewed(state: &mut AppState) -> (steps: Vec<Step>)
    requires
        old(state).wf(),
    ensures
        review_toggled(*old(state), *final(state), steps@),
{
    let file = state.current_file;
    let hunk = match state.focused_hunk {
        Some(hunk) => hunk,
        None => {
            return Vec::new();
        },
    };
    if compute_hunk_line_range(&state.file_diffs, file, hunk).is_none() {
        return Vec::new();
    }
    let reviewed = !state.is_reviewed(file, hunk);
    state.remove_hunk_review(file, hunk);
    let ghost others = state.reviewed_hunks@;
    if reviewed {
        state.reviewed_hunks.push(
            HunkReview {
                file_index: file,
                hunk_index: hunk,
                filename: state.file_diffs[file].filename.clone(),
            },
        );
        assert(state.reviewed_hunks@.drop_last() == others);
    }
    vec![Step::SaveReview { file_index: file, hunk_index: hunk, reviewed }, Step::ApplyFilter]
}

// ---------------------------------------------------------------------------
// Laws
// ---------------------------------------------------------------------------
/// Toggling one file twice leaves it as it was.
pub proof fn toggling_a_file_twice_changes_nothing(viewed: Set<usize>, file: usize)
    ensures
        toggled_together(toggled_together(viewed, seq![file]), seq![file]) == viewed,
{
    let one = seq![file];
    let once = toggled_together(viewed, one);
    assert(one.contains(one[0]));
    assert(forall|f: usize| one.contains(f) <==> f == file);
    assert(all_viewed(viewed, one) <==> viewed.contains(one[0]));
    assert(all_viewed(once, one) <==> once.contains(one[0]));
    assert(toggled_together(once, one) =~= viewed);
}

/// Toggling several files together makes them alike: after it all of them were viewed, or
/// none.
pub proof fn toggling_together_makes_alike(viewed: Set<usize>, files: Seq<usize>)
    ensures
        all_viewed(viewed, files) ==> forall|i: int|
            0 <= i < files.len() ==> !toggled_together(viewed, files).contains(
                #[trigger] files[i],
            ),
        !all_viewed(viewed, files) ==> all_viewed(toggled_together(viewed, files), files),
{
    assert forall|i: int| 0 <= i < files.len() implies files.contains(#[trigger] files[i]) by {}
    if !all_viewed(viewed, files) {
        assert forall|i: int| 0 <= i < files.len() implies toggled_together(
            viewed,
            files,
        ).contains(#[trigger] files[i]) by {
            assert(files.contains(files[i]));
        }
    } else {
        assert forall|i: int| 0 <= i < files.len() implies !toggled_together(
            viewed,
            files,
        ).contains(#[trigger] files[i]) by {
            assert(files.contains(files[i]));
        }
    }
}

/// Toggling the review mark of a hunk makes it reviewed where it was not, and the other way
/// round.
pub proof fn toggling_the_review_inverts_it(before: AppState, after: AppState, steps: Seq<Step>)
    requires
        review_toggled(before, after, steps),
        focused_lines(before) is Some,
    ensures
        after.reviewed(before.current_file, before.focused_hunk->0) == !before.reviewed(
            before.current_file,
            before.focused_hunk->0,
        ),
{
    let (file, hunk) = (before.current_file, before.focused_hunk->0);
    let on = review_on(file, hunk);
    let others = kept(before.reviewed_hunks@, review_elsewhere(file, hunk));
    let all = after.reviewed_hunks@;
    kept_elements(before.reviewed_hunks@, review_elsewhere(file, hunk));
    assert forall|j: int| 0 <= j < others.len() implies !on(#[trigger] others[j]) by {
        assert(others.contains(others[j]));
    }
    if !before.reviewed(file, hunk) {
        first_where_is_first(all, 0, on);
        assert(on(all[all.len() - 1]));
    } else {
        first_where_none(all, 0, on);
    }
}

} // verus!
