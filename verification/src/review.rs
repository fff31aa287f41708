//! Review marks on hunks: the files that hold them, and how they are set and shown.

use vstd::prelude::*;

use crate::diff::{files_wf, in_order, FileDiff};
use crate::marks::{
    find_place_of_mark, hunk_of_mark, is_at_position, is_in_context, last_named, mark_of_hunk,
    marks_context, marks_position, new_mark, new_mark_finds_its_hunk, place_of_mark, HunkMark,
    MarkView,
};
use crate::marks_laws::review_marks_are_in_the_file;
use crate::persistence::{DiffScope, ScopeView};
use crate::seqs::{
    find_first_view, first_where, first_where_at, first_where_is_first, kept, kept_elements,
    retain_view, views,
};
use crate::state::{AppState, HunkReview, HunkReviewView};
use crate::storage::{find_repo_root, is_root, scope_file, scope_file_name, Probe, StorageError};
use crate::text::opt_str;

verus! {

/// The version of the review files that are written.
pub const REVIEW_VERSION: u32 = 2;

/// The kind of a review file.
#[derive(Debug, Clone, Copy, PartialEq, Eq, Structural)]
pub enum ReviewScope {
    WorkingTree,
    Commit,
}

/// The contents of a review file.
#[derive(Debug)]
pub struct ReviewFile {
    pub version: u32,
    pub last_updated: u64,
    pub scope: ReviewScope,
    pub commit_id: Option<String>,
    pub base_commit_id: Option<String>,
    pub hunks: Vec<HunkMark>,
}

/// The model of a `ReviewFile`.
#[verifier::ext_equal]
pub struct ReviewFileView {
    pub version: u32,
    pub last_updated: u64,
    pub scope: ReviewScope,
    pub commit_id: Option<Seq<char>>,
    pub base_commit_id: Option<Seq<char>>,
    pub hunks: Seq<MarkView>,
}

impl View for ReviewFile {
    type V = ReviewFileView;

    open spec fn view(&self) -> ReviewFileView {
        ReviewFileView {
            version: self.version,
            last_updated: self.last_updated,
            scope: self.scope,
            commit_id: opt_str(self.commit_id),
            base_commit_id: opt_str(self.base_commit_id),
            hunks: views(self.hunks@),
        }
    }
}

/// The kind of file that a scope has.
pub open spec fn review_scope_of(scope: ScopeView) -> ReviewScope {
    match scope {
        ScopeView::WorkingTree(_) => ReviewScope::WorkingTree,
        ScopeView::Commit(_) => ReviewScope::Commit,
    }
}

/// The review file of a scope: empty where there is none on disk, refused where it has a
/// later version.
pub open spec fn accepted_review_file(
    read: Option<ReviewFileView>,
    scope: ScopeView,
    now: u64,
) -> Result<ReviewFileView, StorageError> {
    match read {
        None => Ok(
            ReviewFileView {
                version: REVIEW_VERSION,
                last_updated: now,
                scope: review_scope_of(scope),
                commit_id: match scope {
                    ScopeView::Commit(commit_id) => Some(commit_id),
                    ScopeView::WorkingTree(_) => None,
                },
                base_commit_id: match scope {
                    ScopeView::Commit(_) => None,
                    ScopeView::WorkingTree(base) => Some(base),
                },
                hunks: seq![],
            },
        ),
        Some(file) => if file.version > REVIEW_VERSION {
            Err(StorageError::UnsupportedVersion(file.version))
        } else {
            Ok(ReviewFileView { scope: review_scope_of(scope), ..file })
        },
    }
}

/// The review file of a scope, from what is on disk, if anything is.
pub fn load_review_file(read: Option<ReviewFile>, scope: &DiffScope, now: u64) -> (r: Result<
    ReviewFile,
    StorageError,
>)
    ensures
        ({
            let given = match read {
                Some(file) => Some(file@),
                None => None,
            };
            match r {
                Ok(file) => accepted_review_file(given, scope@, now) == Ok::<_, StorageError>(file@),
                Err(e) => accepted_review_file(given, scope@, now) == Err::<ReviewFileView, _>(e),
            }
        }),
{
    let kind = match scope {
        DiffScope::WorkingTree { base_commit_id: _ } => ReviewScope::WorkingTree,
        DiffScope::Commit { commit_id: _ } => ReviewScope::Commit,
    };
    match read {
        None => {
            let (commit_id, base_commit_id) = match scope {
                DiffScope::Commit { commit_id } => (Some(commit_id.clone()), None),
                DiffScope::WorkingTree { base_commit_id } => (None, Some(base_commit_id.clone())),
            };
            let file = ReviewFile {
                version: REVIEW_VERSION,
                last_updated: now,
                scope: kind,
                commit_id,
                base_commit_id,
                hunks: Vec::new(),
            };
            assert(views(file.hunks@) == Seq::<MarkView>::empty());
            Ok(file)
        },
        Some(file) => {
            if file.version > REVIEW_VERSION {
                Err(StorageError::UnsupportedVersion(file.version))
            } else {
                let mut file = file;
                file.scope = kind;
                Ok(file)
            }
        },
    }
}

// ---------------------------------------------------------------------------
// The review marks of hunks
// ---------------------------------------------------------------------------
/// A review mark that is on the hunk by its position.
pub open spec fn review_at_position(file: FileDiff, hunk: usize) -> spec_fn(MarkView) -> bool {
    |s: MarkView| marks_position(s, file, hunk)
}

/// A review mark that is not on the hunk by its position.
pub open spec fn review_not_at_position(file: FileDiff, hunk: usize) -> spec_fn(MarkView) -> bool {
    |s: MarkView| !marks_position(s, file, hunk)
}

/// A review mark that is on the hunk by what was stored of the hunk.
pub open spec fn review_in_context(file: FileDiff, hunk: usize) -> spec_fn(MarkView) -> bool {
    |s: MarkView| marks_context(s, file, hunk)
}

/// The first entry that is on the hunk: by its position, or else by what was stored of
/// the hunk.
pub open spec fn entry_of_hunk(
    hunks: Seq<MarkView>,
    file: FileDiff,
    hunk: usize,
) -> Option<int> {
    match first_where(hunks, 0, review_at_position(file, hunk)) {
        Some(p) => Some(p),
        None => first_where(hunks, 0, review_in_context(file, hunk)),
    }
}

/// The position of the first entry that is on the hunk.
fn find_entry(
    hunks: &Vec<HunkMark>,
    files: &Vec<FileDiff>,
    file_index: usize,
    hunk_index: usize,
) -> (r: Option<usize>)
    requires
        files_wf(files@),
        file_index < files@.len(),
    ensures
        match r {
            Some(p) => entry_of_hunk(views(hunks@), files@[file_index as int], hunk_index) == Some(
                p as int,
            ) && p < hunks@.len(),
            None => entry_of_hunk(views(hunks@), files@[file_index as int], hunk_index) is None,
        },
{
    let file = &files[file_index];
    let by_position = |s: &HunkMark| -> (b: bool)
        ensures
            b == review_at_position(*file, hunk_index)(s@),
    {
        is_at_position(&s, file, hunk_index)
    };
    let found = find_first_view(
        hunks,
        by_position,
        Ghost(review_at_position(*file, hunk_index)),
    );
    if found.is_some() {
        return found;
    }
    let by_context = |s: &HunkMark| -> (b: bool)
        ensures
            b == review_in_context(files@[file_index as int], hunk_index)(s@),
    {
        is_in_context(&s, files, file_index, hunk_index)
    };
    find_first_view(hunks, by_context, Ghost(review_in_context(*file, hunk_index)))
}

/// Removes the entries that are on the hunk by their position.
fn remove_entries(hunks: &mut Vec<HunkMark>, file: &FileDiff, hunk_index: usize)
    ensures
        views(final(hunks)@) == kept(views(old(hunks)@), review_not_at_position(*file, hunk_index)),
{
    let others = |s: &HunkMark| -> (b: bool)
        ensures
            b == review_not_at_position(*file, hunk_index)(s@),
    {
        !is_at_position(&s, file, hunk_index)
    };
    retain_view(hunks, others, Ghost(review_not_at_position(*file, hunk_index)));
}

/// The stored review marks after that of a hunk was set or taken away.
pub open spec fn review_set(
    hunks: Seq<MarkView>,
    file: FileDiff,
    hunk: usize,
    reviewed: bool,
) -> Seq<MarkView> {
    if reviewed {
        match entry_of_hunk(hunks, file, hunk) {
            Some(p) => hunks.update(p, mark_of_hunk(file, hunk)),
            None => hunks.push(mark_of_hunk(file, hunk)),
        }
    } else {
        kept(hunks, review_not_at_position(file, hunk))
    }
}

/// A review mark at its place in the viewer.
pub open spec fn review_shown_at(s: MarkView, place: (int, int)) -> HunkReviewView {
    HunkReviewView {
        file_index: place.0 as usize,
        hunk_index: place.1 as usize,
        filename: s.filename,
    }
}

/// The review marks that have a place in the viewer, each at its place.
pub open spec fn all_reviews_shown(files: Seq<FileDiff>, stored: Seq<MarkView>) -> Seq<
    HunkReviewView,
>
    decreases stored.len(),
{
    if stored.len() == 0 {
        seq![]
    } else {
        let before = all_reviews_shown(files, stored.drop_last());
        match place_of_mark(files, stored.last()) {
            Some(place) => before.push(review_shown_at(stored.last(), place)),
            None => before,
        }
    }
}

/// The review marks that have a place in the viewer, each at its place.
fn show_reviews(files: &Vec<FileDiff>, stored: &Vec<HunkMark>) -> (r: Vec<HunkReview>)
    requires
        files_wf(files@),
    ensures
        views(r@) == all_reviews_shown(files@, views(stored@)),
{
    let mut r: Vec<HunkReview> = Vec::new();
    let mut i: usize = 0;
    assert(views(stored@).take(0) == Seq::<MarkView>::empty());
    assert(views(r@) == Seq::<HunkReviewView>::empty());
    while i < stored.len()
        invariant
            files_wf(files@),
            i <= stored@.len(),
            views(r@) == all_reviews_shown(files@, views(stored@).take(i as int)),
        decreases stored@.len() - i,
    {
        let entry = &stored[i];
        let ghost before = views(r@);
        assert(views(stored@).take(i + 1).drop_last() == views(stored@).take(i as int));
        if let Some((file_index, hunk_index)) = find_place_of_mark(files, entry) {
            r.push(HunkReview { file_index, hunk_index, filename: entry.filename.clone() });
            assert(views(r@) == before.push(
                review_shown_at(entry@, (file_index as int, hunk_index as int)),
            ));
        }
        i += 1;
    }
    assert(views(stored@).take(i as int) == views(stored@));
    r
}

/// The review marks of a repository.
#[derive(Debug, Clone, Copy)]
pub struct ReviewManager;

impl ReviewManager {
    /// The review marks of a repository, where a directory or one of its ancestors holds
    /// one.
    pub fn try_new(probes: &Vec<Probe>) -> (r: Option<Self>)
        ensures
            r is Some <==> first_where(probes@, 0, is_root()) is Some,
    {
        match find_repo_root(probes) {
            Some(_) => Some(ReviewManager),
            None => None,
        }
    }

    /// The name of the review file of a scope.
    pub fn scope_path(&self, scope: &DiffScope) -> (r: String)
        ensures
            r@ == scope_file(scope@),
    {
        scope_file_name(scope)
    }

    /// Shows the review marks of a scope: those of its file, or none where the file could
    /// not be used.
    pub fn load_for_scope(&self, state: &mut AppState, file: Option<ReviewFile>)
        requires
            files_wf(old(state).file_diffs@),
        ensures
            views(final(state).reviewed_hunks@) == (match file {
                Some(f) => all_reviews_shown(old(state).file_diffs@, f@.hunks),
                None => seq![],
            }),
            *final(state) == (AppState {
                reviewed_hunks: final(state).reviewed_hunks,
                ..*old(state)
            }),
            file is None ==> final(state).reviewed_hunks@.len() == 0,
            final(state).annotations == old(state).annotations,
            final(state).hunk_tags == old(state).hunk_tags,
    {
        match file {
            Some(f) => {
                state.reviewed_hunks = show_reviews(&state.file_diffs, &f.hunks);
            },
            None => {
                state.reviewed_hunks = Vec::new();
                assert(views(state.reviewed_hunks@) == Seq::<HunkReviewView>::empty());
                assert(state.reviewed_hunks@.len() == 0);
            },
        }
    }

    /// The review file after the mark of a hunk was set or taken away; nothing where there
    /// is no such file. The file is then to be saved.
    pub fn set_hunk_reviewed(
        &self,
        state: &AppState,
        file_index: usize,
        hunk_index: usize,
        reviewed: bool,
        file: ReviewFile,
        now: u64,
    ) -> (r: Option<ReviewFile>)
        requires
            files_wf(state.file_diffs@),
        ensures
            match r {
                None => file_index >= state.file_diffs@.len(),
                Some(after) => {
                    &&& file_index < state.file_diffs@.len()
                    &&& after@ == (ReviewFileView {
                        hunks: review_set(
                            file@.hunks,
                            state.file_diffs@[file_index as int],
                            hunk_index,
                            reviewed,
                        ),
                        last_updated: now,
                        ..file@
                    })
                    &&& after@.last_updated == now && after@.version == file@.version
                    &&& after@.scope == file@.scope && after@.commit_id == file@.commit_id
                    &&& after@.base_commit_id == file@.base_commit_id
                    &&& reviewed ==> exists|i: int|
                        0 <= i < after@.hunks.len() && (#[trigger] after@.hunks[i]).filename
                            == state.file_diffs@[file_index as int].filename@
                            && after@.hunks[i].hunk_index == hunk_index
                    &&& !reviewed ==> forall|i: int|
                        0 <= i < after@.hunks.len() ==> (#[trigger] after@.hunks[i]).filename
                            != state.file_diffs@[file_index as int].filename@
                            || after@.hunks[i].hunk_index != hunk_index
                },
            },
    {
        if file_index >= state.file_diffs.len() {
            return None;
        }
        let mut file = file;
        let ghost hunks = views(file.hunks@);
        if reviewed {
            let entry = new_mark(&state.file_diffs, file_index, hunk_index);
            let ghost e = entry@;
            match find_entry(&file.hunks, &state.file_diffs, file_index, hunk_index) {
                Some(p) => {
                    file.hunks.set(p, entry);
                    assert(views(file.hunks@) == hunks.update(p as int, e));
                },
                None => {
                    file.hunks.push(entry);
                    assert(views(file.hunks@) == hunks.push(e));
                },
            }
        } else {
            remove_entries(&mut file.hunks, &state.file_diffs[file_index], hunk_index);
        }
        file.last_updated = now;
        proof {
            let shown = state.file_diffs@[file_index as int];
            if reviewed {
                review_marks_are_in_the_file(hunks, shown, hunk_index);
            } else {
                kept_elements(hunks, review_not_at_position(shown, hunk_index));
                let after = file@.hunks;
                assert forall|i: int| 0 <= i < after.len() implies (#[trigger] after[i]).filename
                    != shown.filename@ || after[i].hunk_index != hunk_index by {
                    assert(after.contains(after[i]));
                }
            }
        }
        Some(file)
    }
}

// ---------------------------------------------------------------------------
// Laws
// ---------------------------------------------------------------------------
proof fn lemma_reviews_shown_contains(files: Seq<FileDiff>, stored: Seq<MarkView>, i: int)
    requires
        0 <= i < stored.len(),
        place_of_mark(files, stored[i]) is Some,
    ensures
        all_reviews_shown(files, stored).contains(
            review_shown_at(stored[i], place_of_mark(files, stored[i])->0),
        ),
    decreases stored.len(),
{
    let rest = stored.drop_last();
    let shown = review_shown_at(stored[i], place_of_mark(files, stored[i])->0);
    let before = all_reviews_shown(files, rest);
    let all = all_reviews_shown(files, stored);
    if i == stored.len() - 1 {
        assert(all[before.len() as int] == shown);
    } else {
        assert(rest[i] == stored[i]);
        lemma_reviews_shown_contains(files, rest, i);
        let k = choose|k: int| 0 <= k < before.len() && before[k] == shown;
        assert(all[k] == shown);
    }
}

/// The mark of a hunk that was marked as reviewed is shown when its scope is loaded,
/// whatever else the file holds: on the hunk that its lines lead to, which in a diff in order
/// is the hunk itself, as long as the diff is the same.
pub proof fn review_that_was_set_is_shown(
    files: Seq<FileDiff>,
    file: int,
    hunk: usize,
    stored: Seq<MarkView>,
)
    requires
        0 <= file < files.len() <= usize::MAX,
        last_named(files, files.len() as int, files[file].filename@) == Some(file),
        hunk < files[file].hunks@.len(),
    ensures
        hunk_of_mark(files[file], mark_of_hunk(files[file], hunk)) matches Some(h)
            && all_reviews_shown(files, review_set(stored, files[file], hunk, true)).contains(
            HunkReviewView {
                file_index: file as usize,
                hunk_index: h as usize,
                filename: files[file].filename@,
            },
        ) && (in_order(files[file]) ==> h == hunk),
{
    let after = review_set(stored, files[file], hunk, true);
    new_mark_finds_its_hunk(files, file, hunk);
    first_where_is_first(stored, 0, review_at_position(files[file], hunk));
    first_where_is_first(stored, 0, review_in_context(files[file], hunk));
    let i = match entry_of_hunk(stored, files[file], hunk) {
        Some(p) => p,
        None => stored.len() as int,
    };
    assert(after[i] == mark_of_hunk(files[file], hunk));
    lemma_reviews_shown_contains(files, after, i);
}

/// Marking a hunk as reviewed twice is marking it once.
pub proof fn reviewing_is_idempotent(stored: Seq<MarkView>, file: FileDiff, hunk: usize)
    ensures
        review_set(review_set(stored, file, hunk, true), file, hunk, true) == review_set(
            stored,
            file,
            hunk,
            true,
        ),
{
    let mark = mark_of_hunk(file, hunk);
    let once = review_set(stored, file, hunk, true);
    first_where_is_first(stored, 0, review_at_position(file, hunk));
    first_where_is_first(stored, 0, review_in_context(file, hunk));
    first_where_is_first(once, 0, review_at_position(file, hunk));
    let i = match entry_of_hunk(stored, file, hunk) {
        Some(p) => p,
        None => stored.len() as int,
    };
    assert(once[i] == mark);
    assert(marks_position(mark, file, hunk));
    assert forall|j: int| 0 <= j < i implies !review_at_position(file, hunk)(#[trigger] once[j]) by {
        assert(once[j] == stored[j]);
    }
    first_where_at(once, 0, review_at_position(file, hunk), i);
    assert(once.update(i, mark) =~= once);
}

/// Taking the mark of a hunk away leaves none at its position.
pub proof fn unreviewing_removes_the_mark(
    stored: Seq<MarkView>,
    file: FileDiff,
    hunk: usize,
    i: int,
)
    requires
        0 <= i < review_set(stored, file, hunk, false).len(),
    ensures
        !marks_position(review_set(stored, file, hunk, false)[i], file, hunk),
{
    let after = review_set(stored, file, hunk, false);
    kept_elements(stored, review_not_at_position(file, hunk));
    assert(after.contains(after[i]));
}

} // verus!
