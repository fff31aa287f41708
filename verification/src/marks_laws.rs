//! What holds of stored marks on hunks, of tags and of reviews.

use vstd::prelude::*;

use crate::diff::{hunk_context, matching_hunk, FileDiff};
use crate::marks::{last_named, mark_of_hunk, place_of_mark, MarkView};
use crate::persistence::ScopeView;
use crate::review::{
    accepted_review_file, all_reviews_shown, review_at_position, review_in_context,
    review_not_at_position, review_set, ReviewFileView, ReviewScope,
};
use crate::seqs::{first_where, first_where_is_first, kept, kept_push};
use crate::state::{HunkReviewView, HunkTagsView};
use crate::storage::StorageError;
use crate::tags::{
    accepted_index, accepted_tag_file, all_tags_shown, entry_of_hunk, index_merged, others_kept,
    tags_at_position, tags_in_context, tags_off_hunk, tags_set, StoredTagsView, TagFileView,
    TagIndexView, TagScope,
};
use crate::text::lex_less;

verus! {

// ---------------------------------------------------------------------------
// Sequences
// ---------------------------------------------------------------------------
/// What is kept of a sequence is what a filter leaves of it.
pub proof fn keeping_is_filtering<T>(s: Seq<T>, p: spec_fn(T) -> bool)
    ensures
        kept(s, p) == s.filter(p),
    decreases s.len(),
{
    reveal(Seq::filter);
    if s.len() > 0 {
        keeping_is_filtering(s.drop_last(), p);
        kept_push(s.drop_last(), s.last(), p);
        assert(s.drop_last().push(s.last()) =~= s);
    }
}

proof fn lemma_filter_push<T>(s: Seq<T>, x: T, p: spec_fn(T) -> bool)
    ensures
        s.push(x).filter(p) == (if p(x) {
            s.filter(p).push(x)
        } else {
            s.filter(p)
        }),
{
    reveal(Seq::filter);
    assert(s.push(x).drop_last() =~= s);
}

proof fn lemma_filter_update<T>(s: Seq<T>, i: int, x: T, p: spec_fn(T) -> bool)
    requires
        0 <= i < s.len(),
        !p(s[i]),
        !p(x),
    ensures
        s.update(i, x).filter(p) == s.filter(p),
    decreases s.len(),
{
    reveal(Seq::filter);
    let u = s.update(i, x);
    if i < s.len() - 1 {
        lemma_filter_update(s.drop_last(), i, x, p);
        assert(u.drop_last() =~= s.drop_last().update(i, x));
    } else {
        assert(u.drop_last() =~= s.drop_last());
    }
}

proof fn lemma_filter_filter<T>(s: Seq<T>, p: spec_fn(T) -> bool, q: spec_fn(T) -> bool)
    requires
        forall|x: T| #[trigger] q(x) ==> p(x),
    ensures
        s.filter(p).filter(q) == s.filter(q),
    decreases s.len(),
{
    reveal(Seq::filter);
    if s.len() > 0 {
        lemma_filter_filter(s.drop_last(), p, q);
        if p(s.last()) {
            lemma_filter_push(s.drop_last().filter(p), s.last(), q);
        } else {
            assert(!q(s.last()));
        }
    }
}

// ---------------------------------------------------------------------------
// A mark and its place
// ---------------------------------------------------------------------------
/// A new mark bears the name of the file and the position of the hunk, and the line ranges and
/// the changed lines of the hunk, as far as the hunk has them.
pub proof fn new_marks_remember_their_hunk(file: FileDiff, hunk: usize)
    ensures
        ({
            let mark = mark_of_hunk(file, hunk);
            &&& mark.filename == file.filename@
            &&& mark.hunk_index == hunk
            &&& match hunk_context(file, hunk as int) {
                Some(context) => mark.old_line_range == context.old_line_range
                    && mark.new_line_range == context.new_line_range && mark.context_changed
                    == context.context_changed,
                None => mark.old_line_range is None && mark.new_line_range is None
                    && mark.context_changed.len() == 0,
            }
        }),
{
}

proof fn lemma_last_named(files: Seq<FileDiff>, n: int, name: Seq<char>)
    requires
        n <= files.len(),
    ensures
        match last_named(files, n, name) {
            Some(f) => 0 <= f < n && files[f].filename@ == name && forall|g: int|
                f < g < n ==> (#[trigger] files[g]).filename@ != name,
            None => forall|g: int| 0 <= g < n ==> (#[trigger] files[g]).filename@ != name,
        },
    decreases n,
{
    if n > 0 {
        lemma_last_named(files, n - 1, name);
    }
}

/// A mark is placed in the last file of its name: on the hunk that its lines lead to, or else,
/// where they lead to none, at the position that it was made for, where the file has such a
/// hunk. A mark without lines goes by its position alone.
pub proof fn marks_are_placed_by_name_and_lines(files: Seq<FileDiff>, mark: MarkView, f: int)
    requires
        0 <= f < files.len(),
        files[f].filename@ == mark.filename,
        forall|g: int| f < g < files.len() ==> (#[trigger] files[g]).filename@ != mark.filename,
    ensures
        ({
            let lines = matching_hunk(
                files[f],
                mark.new_line_range,
                mark.old_line_range,
                mark.context_changed,
            );
            let bare = mark.new_line_range is None && mark.old_line_range is None
                && mark.context_changed.len() == 0;
            &&& !bare && lines is Some ==> place_of_mark(files, mark) == Some((f, lines->0))
            &&& bare || lines is None ==> place_of_mark(files, mark) == if mark.hunk_index
                < files[f].hunks@.len() {
                Some((f, mark.hunk_index as int))
            } else {
                None
            }
        }),
{
    lemma_last_named(files, files.len() as int, mark.filename);
    let last = last_named(files, files.len() as int, mark.filename);
    if last is Some && last->0 < f {
        assert(files[f].filename@ != mark.filename);
    }
    if last is None {
        assert(files[f].filename@ != mark.filename);
    }
}

/// A mark has no place where no file has its name.
pub proof fn marks_of_other_files_have_no_place(files: Seq<FileDiff>, mark: MarkView)
    requires
        forall|g: int| 0 <= g < files.len() ==> (#[trigger] files[g]).filename@ != mark.filename,
    ensures
        place_of_mark(files, mark) is None,
{
    lemma_last_named(files, files.len() as int, mark.filename);
}

// ---------------------------------------------------------------------------
// Tags
// ---------------------------------------------------------------------------
/// Setting or clearing the tags of a hunk leaves every entry of another file, and every entry
/// of the file that is neither at the position of the hunk nor leads to it by its lines,
/// unchanged and in order.
pub proof fn setting_tags_keeps_the_others(
    stored: Seq<StoredTagsView>,
    file: FileDiff,
    hunk: usize,
    tags: Seq<Seq<char>>,
)
    ensures
        ({
            let other = |s: StoredTagsView|
                s.mark.filename != file.filename@ || s.mark.hunk_index != hunk && matching_hunk(
                    file,
                    s.mark.new_line_range,
                    s.mark.old_line_range,
                    s.mark.context_changed,
                ) != Some(hunk as int);
            tags_set(stored, file, hunk, tags).filter(other) == stored.filter(other)
        }),
{
    let other = |s: StoredTagsView|
        s.mark.filename != file.filename@ || s.mark.hunk_index != hunk && matching_hunk(
            file,
            s.mark.new_line_range,
            s.mark.old_line_range,
            s.mark.context_changed,
        ) != Some(hunk as int);
    let entry = StoredTagsView { mark: mark_of_hunk(file, hunk), tags };
    first_where_is_first(stored, 0, tags_at_position(file, hunk));
    first_where_is_first(stored, 0, tags_in_context(file, hunk));
    let off = tags_off_hunk(file, hunk);
    if tags.len() == 0 {
        keeping_is_filtering(stored, off);
        assert forall|s: StoredTagsView| #[trigger] other(s) implies off(s) by {}
        lemma_filter_filter(stored, off, other);
    } else {
        match entry_of_hunk(stored, file, hunk) {
            Some(p) => {
                lemma_filter_update(stored, p, entry, other);
            },
            None => {
                lemma_filter_push(stored, entry, other);
            },
        }
    }
}

/// Setting or clearing the tags of a hunk leaves the entries of all other files as they are.
pub proof fn set_tags_keep_other_files(
    stored: Seq<StoredTagsView>,
    file: FileDiff,
    hunk: usize,
    tags: Seq<Seq<char>>,
)
    ensures
        others_kept(stored, tags_set(stored, file, hunk, tags), file.filename@),
{
    let other = |s: StoredTagsView|
        s.mark.filename != file.filename@ || s.mark.hunk_index != hunk && matching_hunk(
            file,
            s.mark.new_line_range,
            s.mark.old_line_range,
            s.mark.context_changed,
        ) != Some(hunk as int);
    let far = |s: StoredTagsView| s.mark.filename != file.filename@;
    let after = tags_set(stored, file, hunk, tags);
    setting_tags_keeps_the_others(stored, file, hunk, tags);
    assert forall|s: StoredTagsView| #[trigger] far(s) implies other(s) by {}
    lemma_filter_filter(stored, other, far);
    lemma_filter_filter(after, other, far);
    assert(after.filter(other) == stored.filter(other)) by {
        assert(other =~= (|s: StoredTagsView|
            s.mark.filename != file.filename@ || s.mark.hunk_index != hunk && matching_hunk(
                file,
                s.mark.new_line_range,
                s.mark.old_line_range,
                s.mark.context_changed,
            ) != Some(hunk as int)));
    }
    assert(far =~= (|s: StoredTagsView| s.mark.filename != file.filename@));
}

/// After tags were set there is an entry for the hunk with just these tags, at the hunk's
/// position and with its lines, and at most one entry more than before; none more where there
/// was one at the position.
pub proof fn set_tags_are_in_the_file(
    stored: Seq<StoredTagsView>,
    file: FileDiff,
    hunk: usize,
    tags: Seq<Seq<char>>,
)
    requires
        tags.len() > 0,
    ensures
        ({
            let after = tags_set(stored, file, hunk, tags);
            &&& exists|i: int|
                0 <= i < after.len() && (#[trigger] after[i]).tags == tags
                    && after[i].mark.filename == file.filename@ && after[i].mark.hunk_index == hunk
                    && after[i].mark == mark_of_hunk(file, hunk)
            &&& stored.len() <= after.len() <= stored.len() + 1
            &&& (exists|k: int|
                0 <= k < stored.len() && (#[trigger] stored[k]).mark.filename == file.filename@
                    && stored[k].mark.hunk_index == hunk) ==> after.len() == stored.len()
        }),
{
    let after = tags_set(stored, file, hunk, tags);
    first_where_is_first(stored, 0, tags_at_position(file, hunk));
    first_where_is_first(stored, 0, tags_in_context(file, hunk));
    let i = match entry_of_hunk(stored, file, hunk) {
        Some(p) => p,
        None => stored.len() as int,
    };
    assert(after[i].tags == tags);
    if exists|k: int|
        0 <= k < stored.len() && (#[trigger] stored[k]).mark.filename == file.filename@
            && stored[k].mark.hunk_index == hunk {
        let k = choose|k: int|
            0 <= k < stored.len() && (#[trigger] stored[k]).mark.filename == file.filename@
                && stored[k].mark.hunk_index == hunk;
        assert(tags_at_position(file, hunk)(stored[k]));
    }
}

/// What was shown of some entries stays so when more entries are there: entries are shown one
/// by one, in their order.
pub proof fn tags_are_shown_entry_by_entry(
    files: Seq<FileDiff>,
    a: Seq<StoredTagsView>,
    b: Seq<StoredTagsView>,
)
    ensures
        all_tags_shown(files, a + b) == all_tags_shown(files, a) + all_tags_shown(files, b),
    decreases b.len(),
{
    if b.len() > 0 {
        tags_are_shown_entry_by_entry(files, a, b.drop_last());
        assert((a + b).drop_last() =~= a + b.drop_last());
    } else {
        assert(a + b =~= a);
    }
    assert(all_tags_shown(files, a + b) =~= all_tags_shown(files, a) + all_tags_shown(files, b));
}

/// One entry is shown at its place, with its own tags and the name of its file, and not at all
/// where it has no place.
pub proof fn one_entry_is_shown_with_its_tags(files: Seq<FileDiff>, entry: StoredTagsView)
    ensures
        ({
            let shown = all_tags_shown(files, seq![entry]);
            match place_of_mark(files, entry.mark) {
                Some((f, h)) => shown == seq![
                    HunkTagsView {
                        file_index: f as usize,
                        hunk_index: h as usize,
                        filename: entry.mark.filename,
                        tags: entry.tags,
                    },
                ],
                None => shown.len() == 0,
            }
        }),
{
    reveal_with_fuel(all_tags_shown, 2);
    assert(seq![entry].drop_last() =~= Seq::<StoredTagsView>::empty());
    assert(all_tags_shown(files, seq![entry]).len() <= 1);
}

/// A tag file is refused only where it is of a later version, and keeps its entries otherwise;
/// where there is none, there are no entries.
pub proof fn tag_files_keep_their_entries(read: Option<TagFileView>, scope: ScopeView, now: u64)
    ensures
        match read {
            Some(file) => match accepted_tag_file(read, scope, now) {
                Ok(got) => file.version <= 2 && got.hunks == file.hunks && got.version
                    == file.version && got.last_updated == file.last_updated && got.commit_id
                    == file.commit_id && got.base_commit_id == file.base_commit_id,
                Err(StorageError::UnsupportedVersion(v)) => file.version > 2 && v == file.version,
            },
            None => match accepted_tag_file(read, scope, now) {
                Ok(got) => got.hunks.len() == 0 && got.version == 2 && got.last_updated == now
                    && match scope {
                    ScopeView::Commit(id) => got.scope == TagScope::Commit && got.commit_id
                        == Some(id) && got.base_commit_id is None,
                    ScopeView::WorkingTree(base) => got.scope == TagScope::WorkingTree
                        && got.commit_id is None && got.base_commit_id == Some(base),
                },
                Err(_) => false,
            },
        },
{
}

/// The tags in use are those of the index that was read, unless it is of a later version.
pub proof fn tag_indexes_keep_their_tags(read: Option<TagIndexView>, now: u64)
    ensures
        match read {
            Some(file) => match accepted_index(read, now) {
                Ok(got) => file.version <= 2 && got.tags == file.tags && got.last_updated
                    == file.last_updated,
                Err(StorageError::UnsupportedVersion(v)) => file.version > 2 && v == file.version,
            },
            None => accepted_index(read, now) matches Ok(got) && got.tags.len() == 0,
        },
{
}

// ---------------------------------------------------------------------------
// Reviews
// ---------------------------------------------------------------------------
/// Taking the review mark of a hunk away keeps every mark with another file name and every one
/// with another position, unchanged and in order, and no other.
pub proof fn unreviewing_keeps_the_others(stored: Seq<MarkView>, file: FileDiff, hunk: usize)
    ensures
        review_set(stored, file, hunk, false) == stored.filter(
            |m: MarkView| m.filename != file.filename@ || m.hunk_index != hunk,
        ),
{
    let other = |m: MarkView| m.filename != file.filename@ || m.hunk_index != hunk;
    keeping_is_filtering(stored, review_not_at_position(file, hunk));
    assert(review_not_at_position(file, hunk) =~= other);
}

/// Marking a hunk as reviewed leaves every mark of another file, and every mark of the file
/// that is neither at the position of the hunk nor leads to it by its lines, unchanged and in
/// order.
pub proof fn reviewing_keeps_the_others(stored: Seq<MarkView>, file: FileDiff, hunk: usize)
    ensures
        ({
            let other = |m: MarkView|
                m.filename != file.filename@ || m.hunk_index != hunk && matching_hunk(
                    file,
                    m.new_line_range,
                    m.old_line_range,
                    m.context_changed,
                ) != Some(hunk as int);
            review_set(stored, file, hunk, true).filter(other) == stored.filter(other)
        }),
{
    let other = |m: MarkView|
        m.filename != file.filename@ || m.hunk_index != hunk && matching_hunk(
            file,
            m.new_line_range,
            m.old_line_range,
            m.context_changed,
        ) != Some(hunk as int);
    let mark = mark_of_hunk(file, hunk);
    first_where_is_first(stored, 0, review_at_position(file, hunk));
    first_where_is_first(stored, 0, review_in_context(file, hunk));
    match crate::review::entry_of_hunk(stored, file, hunk) {
        Some(p) => {
            lemma_filter_update(stored, p, mark, other);
        },
        None => {
            lemma_filter_push(stored, mark, other);
        },
    }
}

/// After a hunk was marked as reviewed there is a mark at its position, with its lines, and at
/// most one mark more than before; none more where there was one at the position.
pub proof fn review_marks_are_in_the_file(stored: Seq<MarkView>, file: FileDiff, hunk: usize)
    ensures
        ({
            let after = review_set(stored, file, hunk, true);
            &&& exists|i: int|
                0 <= i < after.len() && (#[trigger] after[i]).filename == file.filename@
                    && after[i].hunk_index == hunk && after[i] == mark_of_hunk(file, hunk)
            &&& stored.len() <= after.len() <= stored.len() + 1
            &&& (exists|k: int|
                0 <= k < stored.len() && (#[trigger] stored[k]).filename == file.filename@
                    && stored[k].hunk_index == hunk) ==> after.len() == stored.len()
        }),
{
    let after = review_set(stored, file, hunk, true);
    first_where_is_first(stored, 0, review_at_position(file, hunk));
    first_where_is_first(stored, 0, review_in_context(file, hunk));
    let i = match crate::review::entry_of_hunk(stored, file, hunk) {
        Some(p) => p,
        None => stored.len() as int,
    };
    assert(after[i] == mark_of_hunk(file, hunk));
    if exists|k: int|
        0 <= k < stored.len() && (#[trigger] stored[k]).filename == file.filename@
            && stored[k].hunk_index == hunk {
        let k = choose|k: int|
            0 <= k < stored.len() && (#[trigger] stored[k]).filename == file.filename@
                && stored[k].hunk_index == hunk;
        assert(review_at_position(file, hunk)(stored[k]));
    }
}

/// Review marks are shown one by one, in their order.
pub proof fn reviews_are_shown_mark_by_mark(
    files: Seq<FileDiff>,
    a: Seq<MarkView>,
    b: Seq<MarkView>,
)
    ensures
        all_reviews_shown(files, a + b) == all_reviews_shown(files, a) + all_reviews_shown(
            files,
            b,
        ),
    decreases b.len(),
{
    if b.len() > 0 {
        reviews_are_shown_mark_by_mark(files, a, b.drop_last());
        assert((a + b).drop_last() =~= a + b.drop_last());
    } else {
        assert(a + b =~= a);
    }
    assert(all_reviews_shown(files, a + b) =~= all_reviews_shown(files, a) + all_reviews_shown(
        files,
        b,
    ));
}

/// One review mark is shown at its place, with the name of its file, and not at all where it
/// has no place.
pub proof fn one_review_is_shown_at_its_place(files: Seq<FileDiff>, mark: MarkView)
    ensures
        ({
            let shown = all_reviews_shown(files, seq![mark]);
            match place_of_mark(files, mark) {
                Some((f, h)) => shown == seq![
                    HunkReviewView {
                        file_index: f as usize,
                        hunk_index: h as usize,
                        filename: mark.filename,
                    },
                ],
                None => shown.len() == 0,
            }
        }),
{
    reveal_with_fuel(all_reviews_shown, 2);
    assert(seq![mark].drop_last() =~= Seq::<MarkView>::empty());
    assert(all_reviews_shown(files, seq![mark]).len() <= 1);
}

/// A review file is refused only where it is of a later version, and keeps its marks
/// otherwise; where there is none, there are no marks.
pub proof fn review_files_keep_their_marks(
    read: Option<ReviewFileView>,
    scope: ScopeView,
    now: u64,
)
    ensures
        match read {
            Some(file) => match accepted_review_file(read, scope, now) {
                Ok(got) => file.version <= 2 && got.hunks == file.hunks && got.version
                    == file.version && got.last_updated == file.last_updated && got.commit_id
                    == file.commit_id && got.base_commit_id == file.base_commit_id,
                Err(StorageError::UnsupportedVersion(v)) => file.version > 2 && v == file.version,
            },
            None => match accepted_review_file(read, scope, now) {
                Ok(got) => got.hunks.len() == 0 && got.version == 2 && got.last_updated == now
                    && match scope {
                    ScopeView::Commit(id) => got.scope == ReviewScope::Commit && got.commit_id
                        == Some(id) && got.base_commit_id is None,
                    ScopeView::WorkingTree(base) => got.scope == ReviewScope::WorkingTree
                        && got.commit_id is None && got.base_commit_id == Some(base),
                },
                Err(_) => false,
            },
        },
{
}

/// The first place from the start at which a property holds.
pub open spec fn is_first_place<T>(s: Seq<T>, p: spec_fn(T) -> bool, i: int) -> bool {
    &&& 0 <= i < s.len()
    &&& p(s[i])
    &&& forall|k: int| 0 <= k < i ==> !p(#[trigger] s[k])
}

proof fn lemma_first_place<T>(s: Seq<T>, p: spec_fn(T) -> bool, q: spec_fn(T) -> bool, i: int)
    requires
        forall|x: T| #[trigger] p(x) == q(x),
    ensures
        is_first_place(s, q, i) ==> first_where(s, 0, p) == Some(i),
        (forall|k: int| 0 <= k < s.len() ==> !q(#[trigger] s[k])) ==> first_where(s, 0, p) is None,
{
    first_where_is_first(s, 0, p);
    if is_first_place(s, q, i) {
        assert(p(s[i]));
        match first_where(s, 0, p) {
            Some(k) => {
                if k < i {
                    assert(!q(s[k]));
                }
            },
            None => {},
        }
    }
    if forall|k: int| 0 <= k < s.len() ==> !q(#[trigger] s[k]) {
        if let Some(k) = first_where(s, 0, p) {
            assert(!q(s[k]));
        }
    }
}

/// New tags of a hunk take the place of the first entry at its position; where there is none,
/// that of the first one whose lines lead to it; and otherwise come last.
pub proof fn set_tags_take_the_place_of_the_old(
    stored: Seq<StoredTagsView>,
    file: FileDiff,
    hunk: usize,
    tags: Seq<Seq<char>>,
    i: int,
)
    requires
        tags.len() > 0,
    ensures
        ({
            let r = tags_set(stored, file, hunk, tags);
            let entry = StoredTagsView { mark: mark_of_hunk(file, hunk), tags };
            let at = |s: StoredTagsView|
                s.mark.filename == file.filename@ && s.mark.hunk_index == hunk;
            let near = |s: StoredTagsView|
                s.mark.filename == file.filename@ && matching_hunk(
                    file,
                    s.mark.new_line_range,
                    s.mark.old_line_range,
                    s.mark.context_changed,
                ) == Some(hunk as int);
            let none_at = forall|k: int| 0 <= k < stored.len() ==> !at(#[trigger] stored[k]);
            let none_near = forall|k: int| 0 <= k < stored.len() ==> !near(#[trigger] stored[k]);
            &&& is_first_place(stored, at, i) ==> r == stored.take(i) + seq![entry] + stored.skip(
                i + 1,
            )
            &&& none_at && is_first_place(stored, near, i) ==> r == stored.take(i) + seq![entry]
                + stored.skip(i + 1)
            &&& none_at && none_near ==> r == stored + seq![entry]
        }),
{
    let entry = StoredTagsView { mark: mark_of_hunk(file, hunk), tags };
    let at = |s: StoredTagsView| s.mark.filename == file.filename@ && s.mark.hunk_index == hunk;
    let near = |s: StoredTagsView|
        s.mark.filename == file.filename@ && matching_hunk(
            file,
            s.mark.new_line_range,
            s.mark.old_line_range,
            s.mark.context_changed,
        ) == Some(hunk as int);
    lemma_first_place(stored, tags_at_position(file, hunk), at, i);
    lemma_first_place(stored, tags_in_context(file, hunk), near, i);
    assert(0 <= i < stored.len() ==> stored.update(i, entry) =~= stored.take(i) + seq![entry]
        + stored.skip(i + 1));
    assert(stored.push(entry) =~= stored + seq![entry]);
}

/// A new review mark takes the place of the first mark at the position of its hunk; where there
/// is none, that of the first one whose lines lead to it; and otherwise comes last.
pub proof fn new_reviews_take_the_place_of_the_old(
    stored: Seq<MarkView>,
    file: FileDiff,
    hunk: usize,
    i: int,
)
    ensures
        ({
            let r = review_set(stored, file, hunk, true);
            let mark = mark_of_hunk(file, hunk);
            let at = |m: MarkView| m.filename == file.filename@ && m.hunk_index == hunk;
            let near = |m: MarkView|
                m.filename == file.filename@ && matching_hunk(
                    file,
                    m.new_line_range,
                    m.old_line_range,
                    m.context_changed,
                ) == Some(hunk as int);
            let none_at = forall|k: int| 0 <= k < stored.len() ==> !at(#[trigger] stored[k]);
            let none_near = forall|k: int| 0 <= k < stored.len() ==> !near(#[trigger] stored[k]);
            &&& is_first_place(stored, at, i) ==> r == stored.take(i) + seq![mark] + stored.skip(
                i + 1,
            )
            &&& none_at && is_first_place(stored, near, i) ==> r == stored.take(i) + seq![mark]
                + stored.skip(i + 1)
            &&& none_at && none_near ==> r == stored + seq![mark]
        }),
{
    let mark = mark_of_hunk(file, hunk);
    let at = |m: MarkView| m.filename == file.filename@ && m.hunk_index == hunk;
    let near = |m: MarkView|
        m.filename == file.filename@ && matching_hunk(
            file,
            m.new_line_range,
            m.old_line_range,
            m.context_changed,
        ) == Some(hunk as int);
    lemma_first_place(stored, review_at_position(file, hunk), at, i);
    lemma_first_place(stored, review_in_context(file, hunk), near, i);
    assert(0 <= i < stored.len() ==> stored.update(i, mark) =~= stored.take(i) + seq![mark]
        + stored.skip(i + 1));
    assert(stored.push(mark) =~= stored + seq![mark]);
}

/// Clearing the tags of a hunk takes away every entry of its file at its position, and every one
/// that has lines or texts which lead to it, and keeps all others, in order.
pub proof fn clearing_tags_takes_those_of_the_hunk(
    stored: Seq<StoredTagsView>,
    file: FileDiff,
    hunk: usize,
)
    ensures
        tags_set(stored, file, hunk, seq![]) == stored.filter(
            |s: StoredTagsView|
                s.mark.filename != file.filename@ || s.mark.hunk_index != hunk && !((
                s.mark.new_line_range is Some || s.mark.old_line_range is Some
                    || s.mark.context_changed.len() > 0) && matching_hunk(
                    file,
                    s.mark.new_line_range,
                    s.mark.old_line_range,
                    s.mark.context_changed,
                ) == Some(hunk as int)),
        ),
{
    keeping_is_filtering(stored, tags_off_hunk(file, hunk));
    assert(tags_off_hunk(file, hunk) =~= (|s: StoredTagsView|
        s.mark.filename != file.filename@ || s.mark.hunk_index != hunk && !((s.mark.new_line_range
            is Some || s.mark.old_line_range is Some || s.mark.context_changed.len() > 0)
            && matching_hunk(
            file,
            s.mark.new_line_range,
            s.mark.old_line_range,
            s.mark.context_changed,
        ) == Some(hunk as int))));
}

/// Bringing tags into use adds those that were not known, keeps all others, in ascending order,
/// and notes the time. Where all are known nothing changes.
pub proof fn new_tags_are_added_to_those_in_use(
    before: TagIndexView,
    after: TagIndexView,
    tags: Seq<Seq<char>>,
    now: u64,
)
    requires
        index_merged(before, after, tags, now),
    ensures
        ({
            let news = exists|i: int|
                0 <= i < tags.len() && !before.tags.contains(#[trigger] tags[i]);
            &&& !news ==> after == before
            &&& news ==> {
                &&& after.version == before.version && after.last_updated == now
                &&& forall|t: Seq<char>| #[trigger]
                    after.tags.contains(t) <==> before.tags.contains(t) || tags.contains(t)
                &&& forall|i: int, k: int|
                    0 <= i < k < after.tags.len() ==> lex_less(
                        #[trigger] after.tags[i],
                        #[trigger] after.tags[k],
                    )
            }
        }),
{
}

} // verus!
