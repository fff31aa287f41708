//! The position of the reader, kept from one session to the next.

use std::collections::HashSet;

use vstd::prelude::*;

use crate::diff::{has_line, FileDiff};
use crate::persistence::{file_position, is_named, DiffScope};
use crate::seqs::{first_where, first_where_at};
use crate::state::{AppState, FocusedPanel, ReviewFilter, TagFilter, TagFilterView};
use crate::storage::{find_repo_root, is_root, scope_file, scope_file_name, Probe, StorageError};
use crate::tag_names::push_contains;
use crate::text::{concat2, opt_str, str_eq, str_starts_with, strs};

verus! {

broadcast use vstd::std_specs::hash::group_hash_axioms;

/// The version of the view states that are written.
pub const VIEW_STATE_VERSION: u32 = 1;

/// The contents of a view state file.
#[derive(Debug)]
pub struct ViewStateFile {
    pub version: u32,
    pub last_updated: u64,
    pub current_file: Option<String>,
    pub scroll: u16,
    pub h_scroll: u16,
    pub focused_hunk: Option<usize>,
    pub viewed_files: Vec<String>,
    pub tag_filter: Option<String>,
    pub review_filter: Option<String>,
}

/// The model of a `ViewStateFile`.
#[verifier::ext_equal]
pub struct ViewStateView {
    pub version: u32,
    pub last_updated: u64,
    pub current_file: Option<Seq<char>>,
    pub scroll: u16,
    pub h_scroll: u16,
    pub focused_hunk: Option<usize>,
    pub viewed_files: Seq<Seq<char>>,
    pub tag_filter: Option<Seq<char>>,
    pub review_filter: Option<Seq<char>>,
}

impl View for ViewStateFile {
    type V = ViewStateView;

    open spec fn view(&self) -> ViewStateView {
        ViewStateView {
            version: self.version,
            last_updated: self.last_updated,
            current_file: opt_str(self.current_file),
            scroll: self.scroll,
            h_scroll: self.h_scroll,
            focused_hunk: self.focused_hunk,
            viewed_files: strs(self.viewed_files@),
            tag_filter: opt_str(self.tag_filter),
            review_filter: opt_str(self.review_filter),
        }
    }
}

// ---------------------------------------------------------------------------
// Filters as texts
// ---------------------------------------------------------------------------
/// The model of an optional filter.
pub open spec fn filter_view(filter: Option<TagFilter>) -> Option<TagFilterView> {
    match filter {
        Some(f) => Some(f@),
        None => None,
    }
}

/// A tag filter as it is stored.
pub open spec fn tag_filter_text(filter: Option<TagFilterView>) -> Option<Seq<char>> {
    match filter {
        Some(TagFilterView::Tag(tag)) => Some("tag:"@ + tag),
        Some(TagFilterView::Untagged) => Some("tag:untagged"@),
        None => None,
    }
}

/// The tag filter that a stored text stands for.
pub open spec fn tag_filter_of(text: Option<Seq<char>>) -> Option<TagFilterView> {
    match text {
        Some(t) => if t == "tag:untagged"@ {
            Some(TagFilterView::Untagged)
        } else if "tag:"@.is_prefix_of(t) {
            Some(TagFilterView::Tag(t.skip(4)))
        } else {
            None
        },
        None => None,
    }
}

/// A review filter as it is stored.
pub open spec fn review_filter_text(filter: ReviewFilter) -> Option<Seq<char>> {
    match filter {
        ReviewFilter::Reviewed => Some("reviewed"@),
        ReviewFilter::Unreviewed => Some("unreviewed"@),
        ReviewFilter::All => None,
    }
}

/// The review filter that a stored text stands for.
pub open spec fn review_filter_of(text: Option<Seq<char>>) -> ReviewFilter {
    match text {
        Some(t) => if t == "reviewed"@ {
            ReviewFilter::Reviewed
        } else if t == "unreviewed"@ {
            ReviewFilter::Unreviewed
        } else {
            ReviewFilter::All
        },
        None => ReviewFilter::All,
    }
}

// ---------------------------------------------------------------------------
// Saving
// ---------------------------------------------------------------------------
/// The names of those of the first `n` files that were viewed.
pub open spec fn viewed_names(files: Seq<FileDiff>, viewed: Set<usize>, n: int) -> Seq<Seq<char>>
    decreases n,
{
    if n <= 0 {
        seq![]
    } else if viewed.contains((n - 1) as usize) {
        viewed_names(files, viewed, n - 1).push(files[n - 1].filename@)
    } else {
        viewed_names(files, viewed, n - 1)
    }
}

/// The view state of the viewer. The files that were viewed are listed in the order in
/// which they are shown.
pub open spec fn view_of(state: AppState, now: u64) -> ViewStateView {
    ViewStateView {
        version: VIEW_STATE_VERSION,
        last_updated: now,
        current_file: if state.current_file < state.file_diffs@.len() {
            Some(state.file_diffs@[state.current_file as int].filename@)
        } else {
            None
        },
        scroll: state.scroll,
        h_scroll: state.h_scroll,
        focused_hunk: state.focused_hunk,
        viewed_files: viewed_names(
            state.file_diffs@,
            state.viewed_files@,
            state.file_diffs@.len() as int,
        ),
        tag_filter: tag_filter_text(filter_view(state.tag_filter)),
        review_filter: review_filter_text(state.review_filter),
    }
}

/// The view state of the viewer.
fn capture(state: &AppState, now: u64) -> (r: ViewStateFile)
    ensures
        r@ == view_of(*state, now),
{
    let mut names: Vec<String> = Vec::new();
    let mut i: usize = 0;
    assert(strs(names@) == Seq::<Seq<char>>::empty());
    while i < state.file_diffs.len()
        invariant
            i <= state.file_diffs@.len(),
            strs(names@) == viewed_names(state.file_diffs@, state.viewed_files@, i as int),
        decreases state.file_diffs@.len() - i,
    {
        let ghost before = strs(names@);
        if state.viewed_files.contains(&i) {
            names.push(state.file_diffs[i].filename.clone());
            assert(strs(names@) == before.push(state.file_diffs@[i as int].filename@));
        }
        i += 1;
    }
    let tag_filter = match &state.tag_filter {
        Some(TagFilter::Tag(tag)) => Some(concat2("tag:", tag.as_str())),
        Some(TagFilter::Untagged) => Some("tag:untagged".to_string()),
        None => None,
    };
    let review_filter = match state.review_filter {
        ReviewFilter::Reviewed => Some("reviewed".to_string()),
        ReviewFilter::Unreviewed => Some("unreviewed".to_string()),
        ReviewFilter::All => None,
    };
    ViewStateFile {
        version: VIEW_STATE_VERSION,
        last_updated: now,
        current_file: if state.current_file < state.file_diffs.len() {
            Some(state.file_diffs[state.current_file].filename.clone())
        } else {
            None
        },
        scroll: state.scroll,
        h_scroll: state.h_scroll,
        focused_hunk: state.focused_hunk,
        viewed_files: names,
        tag_filter,
        review_filter,
    }
}

// ---------------------------------------------------------------------------
// Restoring
// ---------------------------------------------------------------------------
/// The files whose names are listed.
pub open spec fn files_named(files: Seq<FileDiff>, names: Seq<Seq<char>>) -> Set<usize> {
    Set::new(|i: usize| i < files.len() && names.contains(files[i as int].filename@))
}

/// The files whose names are listed.
pub fn find_files_named(files: &Vec<FileDiff>, names: &Vec<String>) -> (r: HashSet<usize>)
    ensures
        r@ == files_named(files@, strs(names@)),
{
    let mut r: HashSet<usize> = HashSet::new();
    let mut i: usize = 0;
    let ghost all = files_named(files@, strs(names@));
    assert(r@ =~= all.intersect(Set::new(|k: usize| k < 0)));
    while i < files.len()
        invariant
            i <= files@.len(),
            all == files_named(files@, strs(names@)),
            r@ == all.intersect(Set::new(|k: usize| k < i)),
        decreases files@.len() - i,
    {
        let ghost below = Set::new(|k: usize| k < i);
        let ghost below_next = Set::new(|k: usize| k < i + 1);
        if has_line(names, &files[i].filename) {
            r.insert(i);
            assert(all.intersect(below_next) =~= all.intersect(below).insert(i));
        } else {
            assert(all.intersect(below_next) =~= all.intersect(below));
        }
        i += 1;
    }
    assert(r@ =~= all);
    r
}

/// The file that was current, if there still is one of that name.
pub open spec fn restored_file(files: Seq<FileDiff>, view: ViewStateView) -> Option<int> {
    match view.current_file {
        Some(name) => first_where(files, 0, is_named(name)),
        None => None,
    }
}

/// The viewer with a view state restored.
pub open spec fn restored(before: AppState, after: AppState, view: ViewStateView) -> bool {
    let files = before.file_diffs@;
    let current = match restored_file(files, view) {
        Some(f) => f as usize,
        None => before.current_file,
    };
    let exists_file = current < files.len();
    &&& after.viewed_files@ == files_named(files, view.viewed_files)
    &&& filter_view(after.tag_filter) == tag_filter_of(view.tag_filter)
    &&& after == AppState {
        viewed_files: after.viewed_files,
        tag_filter: after.tag_filter,
        review_filter: review_filter_of(view.review_filter),
        current_file: current,
        focused_panel: FocusedPanel::DiffView,
        scroll: if exists_file {
            let rows = files[current as int].rows@.len();
            let last_row: int = if rows == 0 {
                0
            } else {
                rows - 1
            };
            if view.scroll <= last_row {
                view.scroll
            } else {
                last_row as u16
            }
        } else {
            before.scroll
        },
        h_scroll: if exists_file {
            view.h_scroll
        } else {
            before.h_scroll
        },
        focused_hunk: match view.focused_hunk {
            Some(h) => if exists_file && h < files[current as int].hunks@.len() {
                Some(h)
            } else {
                before.focused_hunk
            },
            None => before.focused_hunk,
        },
        ..before
    }
}

/// Restores a view state, and says which file has to be revealed in the sidebar.
pub fn apply_view_state(state: &mut AppState, view: ViewStateFile) -> (revealed: Option<usize>)
    ensures
        restored(*old(state), *final(state), view@),
        match revealed {
            Some(f) => restored_file(old(state).file_diffs@, view@) == Some(f as int),
            None => restored_file(old(state).file_diffs@, view@) is None,
        },
{
    state.viewed_files = find_files_named(&state.file_diffs, &view.viewed_files);
    let mut revealed: Option<usize> = None;
    if let Some(name) = &view.current_file {
        if let Some(f) = file_position(&state.file_diffs, name) {
            state.current_file = f;
            revealed = Some(f);
        }
    }
    state.focused_panel = FocusedPanel::DiffView;
    if state.current_file < state.file_diffs.len() {
        let file = &state.file_diffs[state.current_file];
        let last_row: usize = file.rows.len().saturating_sub(1);
        let hunk_count = file.hunks.len();
        state.scroll = if view.scroll as usize <= last_row {
            view.scroll
        } else {
            last_row as u16
        };
        state.h_scroll = view.h_scroll;
        if let Some(h) = view.focused_hunk {
            if h < hunk_count {
                state.focused_hunk = Some(h);
            }
        }
    }
    state.tag_filter = filter_from_text(&view.tag_filter);
    state.review_filter =
    match &view.review_filter {
        Some(t) => if str_eq(t.as_str(), "reviewed") {
            ReviewFilter::Reviewed
        } else if str_eq(t.as_str(), "unreviewed") {
            ReviewFilter::Unreviewed
        } else {
            ReviewFilter::All
        },
        None => ReviewFilter::All,
    };
    revealed
}

/// The tag filter that a stored text stands for.
fn filter_from_text(text: &Option<String>) -> (r: Option<TagFilter>)
    ensures
        filter_view(r) == tag_filter_of(opt_str(*text)),
{
    match text {
        Some(t) => {
            if str_eq(t.as_str(), "tag:untagged") {
                Some(TagFilter::Untagged)
            } else if str_starts_with(t.as_str(), "tag:") {
                proof {
                    reveal_strlit("tag:");
                }
                let n = t.as_str().unicode_len();
                let tag = t.as_str().substring_char(4, n).to_string();
                assert(t@.subrange(4, n as int) == t@.skip(4));
                Some(TagFilter::Tag(tag))
            } else {
                None
            }
        },
        None => None,
    }
}

/// The view states of a repository.
#[derive(Debug, Clone, Copy)]
pub struct ViewStateManager;

impl ViewStateManager {
    /// The view states of a repository, where a directory or one of its ancestors holds
    /// one.
    pub fn try_new(probes: &Vec<Probe>) -> (r: Option<Self>)
        ensures
            r is Some <==> first_where(probes@, 0, is_root()) is Some,
    {
        match find_repo_root(probes) {
            Some(_) => Some(ViewStateManager),
            None => None,
        }
    }

    /// The name of the view state file of a scope.
    pub fn path_for_scope(&self, scope: &DiffScope) -> (r: String)
        ensures
            r@ == scope_file(scope@),
    {
        scope_file_name(scope)
    }

    /// Restores the view state of a scope, from what is on disk, if anything is, and says
    /// which file has to be revealed in the sidebar.
    pub fn load_for_scope(&self, state: &mut AppState, read: Option<ViewStateFile>) -> (r: Result<
        Option<usize>,
        StorageError,
    >)
        ensures
            match read {
                None => r == Ok::<Option<usize>, StorageError>(None) && *final(state) == *old(
                    state,
                ),
                Some(view) => if view.version > VIEW_STATE_VERSION {
                    r == Err::<Option<usize>, _>(StorageError::UnsupportedVersion(view.version))
                        && *final(state) == *old(state)
                } else {
                    &&& restored(*old(state), *final(state), view@)
                    &&& match r {
                        Ok(Some(f)) => restored_file(old(state).file_diffs@, view@) == Some(
                            f as int,
                        ),
                        Ok(None) => restored_file(old(state).file_diffs@, view@) is None,
                        Err(_) => false,
                    }
                },
            },
    {
        match read {
            None => Ok(None),
            Some(view) => {
                if view.version > VIEW_STATE_VERSION {
                    Err(StorageError::UnsupportedVersion(view.version))
                } else {
                    Ok(apply_view_state(state, view))
                }
            },
        }
    }

    /// The view state of the viewer, to be written to the file of a scope.
    pub fn save_for_scope(&self, state: &AppState, now: u64) -> (r: ViewStateFile)
        ensures
            r@ == view_of(*state, now),
    {
        capture(state, now)
    }
}

// ---------------------------------------------------------------------------
// Laws
// ---------------------------------------------------------------------------
/// No two files have the same name.
pub open spec fn names_unique(files: Seq<FileDiff>) -> bool {
    forall|i: int, j: int|
        0 <= i < j < files.len() ==> (#[trigger] files[i]).filename@ != (
        #[trigger] files[j]).filename@
}

/// A tag filter that was stored is the one that is restored, unless it is for a tag that
/// is named like the absence of tags.
pub proof fn stored_tag_filter_is_restored(filter: Option<TagFilterView>)
    requires
        filter != Some(TagFilterView::Tag("untagged"@)),
    ensures
        tag_filter_of(tag_filter_text(filter)) == filter,
{
    reveal_strlit("tag:");
    reveal_strlit("untagged");
    reveal_strlit("tag:untagged");
    if let Some(TagFilterView::Tag(tag)) = filter {
        let text = "tag:"@ + tag;
        assert(text.skip(4) =~= tag);
        assert("tag:"@.is_prefix_of(text));
        if text == "tag:untagged"@ {
            assert("tag:untagged"@.skip(4) =~= "untagged"@);
        }
    }
}

/// A review filter that was stored is the one that is restored.
pub proof fn stored_review_filter_is_restored(filter: ReviewFilter)
    ensures
        review_filter_of(review_filter_text(filter)) == filter,
{
    reveal_strlit("reviewed");
    reveal_strlit("unreviewed");
    assert("reviewed"@.len() != "unreviewed"@.len());
}

proof fn lemma_viewed_names(files: Seq<FileDiff>, viewed: Set<usize>, n: int, f: int)
    requires
        names_unique(files),
        0 <= n <= files.len() <= usize::MAX,
        0 <= f < files.len(),
    ensures
        viewed_names(files, viewed, n).contains(files[f].filename@) <==> f < n && viewed.contains(
            f as usize,
        ),
    decreases n,
{
    if n > 0 {
        lemma_viewed_names(files, viewed, n - 1, f);
        let before = viewed_names(files, viewed, n - 1);
        let name = files[f].filename@;
        push_contains(before, files[n - 1].filename@, name);
        if f != n - 1 {
            if f < n - 1 {
                assert(files[f].filename@ != files[n - 1].filename@);
            } else {
                assert(files[n - 1].filename@ != files[f].filename@);
            }
        }
    }
}

/// What was saved of the position of the reader is restored on the same files: the current
/// file, the files that were viewed, the focused hunk, both scroll positions and both
/// filters.
pub proof fn saved_view_is_restored(saved: AppState, before: AppState, after: AppState, now: u64)
    requires
        names_unique(saved.file_diffs@),
        saved.file_diffs@.len() <= usize::MAX,
        saved.current_file < saved.file_diffs@.len(),
        saved.scroll < saved.file_diffs@[saved.current_file as int].rows@.len(),
        saved.focused_hunk matches Some(h) ==> h
            < saved.file_diffs@[saved.current_file as int].hunks@.len(),
        filter_view(saved.tag_filter) != Some(TagFilterView::Tag("untagged"@)),
        before.file_diffs == saved.file_diffs,
        saved.focused_hunk is None ==> before.focused_hunk is None,
        restored(before, after, view_of(saved, now)),
    ensures
        after.current_file == saved.current_file,
        after.focused_hunk == saved.focused_hunk,
        after.scroll == saved.scroll,
        after.h_scroll == saved.h_scroll,
        after.review_filter == saved.review_filter,
        filter_view(after.tag_filter) == filter_view(saved.tag_filter),
        forall|i: usize|
            i < saved.file_diffs@.len() ==> (#[trigger] after.viewed_files@.contains(i)
                <==> saved.viewed_files@.contains(i)),
{
    let files = saved.file_diffs@;
    let name = files[saved.current_file as int].filename@;
    assert forall|j: int| 0 <= j < saved.current_file implies !is_named(name)(
        #[trigger] files[j],
    ) by {
        assert(files[j].filename@ != files[saved.current_file as int].filename@);
    }
    first_where_at(files, 0, is_named(name), saved.current_file as int);
    stored_tag_filter_is_restored(filter_view(saved.tag_filter));
    stored_review_filter_is_restored(saved.review_filter);
    assert forall|i: usize| i < files.len() implies (#[trigger] after.viewed_files@.contains(i)
        <==> saved.viewed_files@.contains(i)) by {
        lemma_viewed_names(files, saved.viewed_files@, files.len() as int, i as int);
    }
}

} // verus!
