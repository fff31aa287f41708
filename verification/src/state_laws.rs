//! What holds of the annotations, tags and review marks of the viewer, hunk by hunk.

use vstd::prelude::*;

use crate::marks_laws::keeping_is_filtering;
use crate::seqs::{first_where, first_where_is_first, kept};
use crate::state::{
    annotation_elsewhere, annotation_on, review_elsewhere, review_on, tags_elsewhere, tags_on,
    AppState, HunkAnnotation, HunkReview, HunkTags, SidebarItem, TimePoint,
};

verus! {

/// Taking away what is on a hunk keeps everything that is on another file or on another hunk,
/// and nothing that is on this one, in order.
pub proof fn other_hunks_keep_what_is_on_them(
    annotations: Seq<HunkAnnotation>,
    tags: Seq<HunkTags>,
    reviews: Seq<HunkReview>,
    f: usize,
    h: usize,
)
    ensures
        kept(annotations, annotation_elsewhere(f, h)) == annotations.filter(
            |a: HunkAnnotation| a.file_index != f || a.hunk_index != h,
        ),
        kept(tags, tags_elsewhere(f, h)) == tags.filter(
            |t: HunkTags| t.file_index != f || t.hunk_index != h,
        ),
        kept(reviews, review_elsewhere(f, h)) == reviews.filter(
            |m: HunkReview| m.file_index != f || m.hunk_index != h,
        ),
{
    keeping_is_filtering(annotations, annotation_elsewhere(f, h));
    keeping_is_filtering(tags, tags_elsewhere(f, h));
    keeping_is_filtering(reviews, review_elsewhere(f, h));
    assert(annotation_elsewhere(f, h) =~= (|a: HunkAnnotation|
        a.file_index != f || a.hunk_index != h));
    assert(tags_elsewhere(f, h) =~= (|t: HunkTags| t.file_index != f || t.hunk_index != h));
    assert(review_elsewhere(f, h) =~= (|m: HunkReview| m.file_index != f || m.hunk_index != h));
}

/// The annotation of a hunk is the first one with its file and its hunk; a hunk has none only
/// where no annotation is on it.
pub proof fn annotations_are_found_by_file_and_hunk(state: AppState, f: usize, h: usize)
    ensures
        match state.annotation_of(f, h) {
            Some(a) => exists|i: int|
                #![trigger state.annotations@[i]]
                0 <= i < state.annotations@.len() && state.annotations@[i] == a && a.file_index == f
                    && a.hunk_index == h && forall|k: int|
                    0 <= k < i ==> (#[trigger] state.annotations@[k]).file_index != f
                        || state.annotations@[k].hunk_index != h,
            None => forall|k: int|
                0 <= k < state.annotations@.len() ==> (#[trigger] state.annotations@[k]).file_index
                    != f || state.annotations@[k].hunk_index != h,
        },
{
    let s = state.annotations@;
    first_where_is_first(s, 0, annotation_on(f, h));
    let n = match first_where(s, 0, annotation_on(f, h)) {
        Some(i) => i,
        None => s.len() as int,
    };
    assert forall|k: int| 0 <= k < n implies (#[trigger] s[k]).file_index != f || s[k].hunk_index
        != h by {
        assert(!annotation_on(f, h)(s[k]));
    }
    if n < s.len() {
        assert(annotation_on(f, h)(s[n]));
    }
}

/// The tags of a hunk are those of the first entry with its file and its hunk; a hunk has none
/// only where no entry is on it.
pub proof fn tags_are_found_by_file_and_hunk(state: AppState, f: usize, h: usize)
    ensures
        match state.tags_of(f, h) {
            Some(t) => exists|i: int|
                #![trigger state.hunk_tags@[i]]
                0 <= i < state.hunk_tags@.len() && state.hunk_tags@[i] == t && t.file_index == f
                    && t.hunk_index == h && forall|k: int|
                    0 <= k < i ==> (#[trigger] state.hunk_tags@[k]).file_index != f
                        || state.hunk_tags@[k].hunk_index != h,
            None => forall|k: int|
                0 <= k < state.hunk_tags@.len() ==> (#[trigger] state.hunk_tags@[k]).file_index != f
                    || state.hunk_tags@[k].hunk_index != h,
        },
{
    let s = state.hunk_tags@;
    first_where_is_first(s, 0, tags_on(f, h));
    let n = match first_where(s, 0, tags_on(f, h)) {
        Some(i) => i,
        None => s.len() as int,
    };
    assert forall|k: int| 0 <= k < n implies (#[trigger] s[k]).file_index != f || s[k].hunk_index
        != h by {
        assert(!tags_on(f, h)(s[k]));
    }
    if n < s.len() {
        assert(tags_on(f, h)(s[n]));
    }
}

/// A hunk was reviewed where a mark has both its file and its hunk.
pub proof fn reviews_are_found_by_file_and_hunk(state: AppState, f: usize, h: usize)
    ensures
        state.reviewed(f, h) <==> exists|i: int|
            0 <= i < state.reviewed_hunks@.len() && (#[trigger] state.reviewed_hunks@[i]).file_index
                == f && state.reviewed_hunks@[i].hunk_index == h,
{
    let s = state.reviewed_hunks@;
    first_where_is_first(s, 0, review_on(f, h));
    if let Some(i) = first_where(s, 0, review_on(f, h)) {
        assert(review_on(f, h)(s[i]));
    } else {
        assert forall|k: int| 0 <= k < s.len() implies (#[trigger] s[k]).file_index != f
            || s[k].hunk_index != h by {
            assert(!review_on(f, h)(s[k]));
        }
    }
}

/// A row of the sidebar shows the item that the row leads to, and a file where that item is
/// one.
pub proof fn rows_lead_to_items(state: AppState, row: int)
    ensures
        match state.item_at(row) {
            Some(item) => 0 <= row < state.sidebar_visible@.len() && state.sidebar_visible@[row]
                < state.sidebar_items@.len() && item
                == state.sidebar_items@[state.sidebar_visible@[row] as int],
            None => row < 0 || row >= state.sidebar_visible@.len() || state.sidebar_visible@[row]
                >= state.sidebar_items@.len(),
        },
        state.item_at(row) is None ==> state.file_at(row) is None,
        state.item_at(row) matches Some(SidebarItem::Directory { path: _ }) ==> state.file_at(
            row,
        ) is None,
        state.item_at(row) matches Some(SidebarItem::File { path: _, file_index })
            ==> state.file_at(row) == Some(file_index),
{
}

/// Points in time are in a strict order: of two that differ one is before the other, and
/// whatever is before the earlier one is before the later one. The seconds decide first.
pub proof fn times_are_in_order(a: TimePoint, b: TimePoint, c: TimePoint)
    ensures
        !a.is_before(a),
        a.is_before(b) && b.is_before(c) ==> a.is_before(c),
        a == b || a.is_before(b) || b.is_before(a),
        a.secs < b.secs ==> a.is_before(b),
{
}

} // verus!
