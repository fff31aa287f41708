//! What holds of the filters: which hunks and files pass them, and how one follows another.

use vstd::prelude::*;

use crate::filters::{
    filter_after, focused_review, focused_tags_text, hunk_passes, matching_files, matching_hunks,
    passing_hunks_are_ascending, position_in, review_label, tag_label, tag_position,
};
use crate::state::{AppState, ReviewFilter, TagFilter};
use crate::text::{joined, strs};

verus! {

/// A hunk passes where it has the tag that is asked for, or no tag where untagged hunks are
/// asked for, and was reviewed or not, as is asked for.
pub proof fn hunks_pass_by_tag_and_review(state: AppState, f: usize, h: usize)
    ensures
        ({
            let tagged = match state.tags_of(f, h) {
                Some(t) => t.tags@.len() > 0,
                None => false,
            };
            let has = |name: Seq<char>|
                match state.tags_of(f, h) {
                    Some(t) => exists|i: int| 0 <= i < t.tags@.len() && (#[trigger] t.tags@[i])@ == name,
                    None => false,
                };
            let by_tag = match state.tag_filter {
                Some(TagFilter::Tag(name)) => has(name@),
                Some(TagFilter::Untagged) => !tagged,
                None => true,
            };
            let by_review = match state.review_filter {
                ReviewFilter::Reviewed => state.reviewed(f, h),
                ReviewFilter::Unreviewed => !state.reviewed(f, h),
                ReviewFilter::All => true,
            };
            hunk_passes(state, f, h) <==> by_tag && by_review
        }),
{
    if let Some(TagFilter::Tag(name)) = state.tag_filter {
        if let Some(t) = state.tags_of(f, h) {
            if exists|i: int| 0 <= i < t.tags@.len() && (#[trigger] t.tags@[i])@ == name@ {
                let i = choose|i: int| 0 <= i < t.tags@.len() && (#[trigger] t.tags@[i])@ == name@;
                assert(strs(t.tags@)[i] == name@);
            }
            if strs(t.tags@).contains(name@) {
                let i = choose|i: int|
                    0 <= i < strs(t.tags@).len() && #[trigger] strs(t.tags@)[i] == name@;
                assert(t.tags@[i]@ == name@);
            }
        }
    }
}

/// The hunks of a file that match are those of its hunks that pass, each once, in order.
pub proof fn matching_hunks_are_those_that_pass(state: AppState, f: usize)
    ensures
        ({
            let list = matching_hunks(state, f);
            &&& forall|i: int, k: int|
                0 <= i < k < list.len() ==> #[trigger] list[i] < #[trigger] list[k]
            &&& forall|h: usize| #[trigger]
                list.contains(h) <==> f < state.file_diffs@.len() && h
                    < state.file_diffs@[f as int].hunks@.len() && hunk_passes(state, f, h)
        }),
{
    if f < state.file_diffs@.len() {
        let hunks = state.file_diffs@[f as int].hunks;
        assert(hunks.len() == hunks@.len());
        passing_hunks_are_ascending(state, f, hunks@.len() as int);
        let list = matching_hunks(state, f);
        assert forall|h: usize| #[trigger] list.contains(h) implies h < hunks@.len()
            && hunk_passes(state, f, h) by {
            let i = choose|i: int| 0 <= i < list.len() && list[i] == h;
            assert(list[i] == h);
        }
    }
}

/// A file is left where one of its hunks passes. Where a tag alone is asked for, it is left
/// where an entry for the file has that tag.
pub proof fn files_are_left_for_their_hunks(state: AppState, f: usize)
    ensures
        ({
            let passing = exists|h: usize|
                f < state.file_diffs@.len() && h < state.file_diffs@[f as int].hunks@.len()
                    && #[trigger] hunk_passes(state, f, h);
            match state.tag_filter {
                Some(TagFilter::Tag(name)) => if state.review_filter is All {
                    matching_files(state).contains(f) <==> exists|i: int, j: int|
                        0 <= i < state.hunk_tags@.len() && state.hunk_tags@[i].file_index == f && 0
                            <= j < state.hunk_tags@[i].tags@.len()
                            && (#[trigger] state.hunk_tags@[i].tags@[j])@ == name@
                } else {
                    matching_files(state).contains(f) <==> passing
                },
                _ => matching_files(state).contains(f) <==> passing,
            }
        }),
{
    if let Some(TagFilter::Tag(name)) = state.tag_filter {
        if matching_files(state).contains(f) && state.review_filter is All {
            let i = choose|i: int|
                0 <= i < state.hunk_tags@.len() && (#[trigger] state.hunk_tags@[i]).file_index == f
                    && strs(state.hunk_tags@[i].tags@).contains(name@);
            let s = strs(state.hunk_tags@[i].tags@);
            let j = choose|j: int| 0 <= j < s.len() && #[trigger] s[j] == name@;
            assert(state.hunk_tags@[i].tags@[j]@ == name@);
        }
        if exists|i: int, j: int|
            0 <= i < state.hunk_tags@.len() && state.hunk_tags@[i].file_index == f && 0 <= j
                < state.hunk_tags@[i].tags@.len() && (#[trigger] state.hunk_tags@[i].tags@[j])@
                == name@ {
            let (i, j) = choose|i: int, j: int|
                0 <= i < state.hunk_tags@.len() && state.hunk_tags@[i].file_index == f && 0 <= j
                    < state.hunk_tags@[i].tags@.len() && (#[trigger] state.hunk_tags@[i].tags@[j])@
                    == name@;
            assert(strs(state.hunk_tags@[i].tags@)[j] == name@);
        }
    }
}

proof fn lemma_tag_position(tags: Seq<String>, from: int, name: Seq<char>)
    requires
        0 <= from <= tags.len(),
    ensures
        match tag_position(tags, from, name) {
            Some(i) => from <= i < tags.len() && tags[i]@ == name && forall|k: int|
                from <= k < i ==> (#[trigger] tags[k])@ != name,
            None => forall|k: int| from <= k < tags.len() ==> (#[trigger] tags[k])@ != name,
        },
    decreases tags.len() - from,
{
    if from < tags.len() && tags[from]@ != name {
        lemma_tag_position(tags, from + 1, name);
    }
}

/// Behind the filter for a tag comes that for the next tag, and behind the last that for
/// untagged hunks. A tag that is not in use starts again with the first.
pub proof fn tag_filters_follow_the_tags(tags: Seq<String>, name: String, i: int)
    ensures
        0 <= i < tags.len() && tags[i]@ == name@ && (forall|k: int|
            0 <= k < i ==> (#[trigger] tags[k])@ != name@) ==> filter_after(
            Some(TagFilter::Tag(name)),
            tags,
        ) == if i + 1 < tags.len() {
            Some(TagFilter::Tag(tags[i + 1]))
        } else {
            Some(TagFilter::Untagged)
        },
        (forall|k: int| 0 <= k < tags.len() ==> (#[trigger] tags[k])@ != name@) ==> filter_after(
            Some(TagFilter::Tag(name)),
            tags,
        ) == if tags.len() > 0 {
            Some(TagFilter::Tag(tags[0]))
        } else {
            Some(TagFilter::Untagged)
        },
        filter_after(None, tags) == if tags.len() > 0 {
            Some(TagFilter::Tag(tags[0]))
        } else {
            Some(TagFilter::Untagged)
        },
        filter_after(Some(TagFilter::Untagged), tags) is None,
{
    lemma_tag_position(tags, 0, name@);
}

/// A label is shown for a filter exactly where there is one, and ends in what is asked for.
pub proof fn labels_name_the_filter(name: String)
    ensures
        tag_label(None) is None,
        tag_label(Some(TagFilter::Untagged)) == Some("tag: "@ + "untagged"@),
        tag_label(Some(TagFilter::Tag(name))) == Some("tag: "@ + name@),
        review_label(ReviewFilter::All) is None,
        review_label(ReviewFilter::Reviewed) == Some("review: "@ + "reviewed"@),
        review_label(ReviewFilter::Unreviewed) == Some("review: "@ + "unreviewed"@),
{
    reveal_strlit("tag: ");
    reveal_strlit("untagged");
    reveal_strlit("tag: untagged");
    reveal_strlit("review: ");
    reveal_strlit("reviewed");
    reveal_strlit("unreviewed");
    reveal_strlit("review: reviewed");
    reveal_strlit("review: unreviewed");
    assert("tag: untagged"@ =~= "tag: "@ + "untagged"@);
    assert("review: reviewed"@ =~= "review: "@ + "reviewed"@);
    assert("review: unreviewed"@ =~= "review: "@ + "unreviewed"@);
}

/// The tags of the hunk in focus are shown with commas between them, and nothing where it has
/// none; whether it was reviewed is shown wherever a hunk is in focus.
pub proof fn the_hunk_in_focus_is_described(state: AppState)
    ensures
        match state.focused_hunk {
            None => focused_tags_text(state) is None && focused_review(state) is None,
            Some(h) => {
                &&& focused_review(state) == Some(state.reviewed(state.current_file, h))
                &&& focused_tags_text(state) is Some <==> (state.tags_of(
                    state.current_file,
                    h,
                ) matches Some(t) && t.tags@.len() > 0)
                &&& state.tags_of(state.current_file, h) matches Some(t) ==> t.tags@.len() > 0
                    ==> focused_tags_text(state) == Some(joined(strs(t.tags@), ", "@))
            },
        },
{
}

/// The position in a list is the first at which the value stands.
pub proof fn positions_are_the_first(list: Seq<usize>, from: int, x: usize)
    requires
        0 <= from <= list.len(),
    ensures
        match position_in(list, from, x) {
            Some(i) => from <= i < list.len() && list[i] == x && forall|k: int|
                from <= k < i ==> #[trigger] list[k] != x,
            None => forall|k: int| from <= k < list.len() ==> #[trigger] list[k] != x,
        },
    decreases list.len() - from,
{
    if from < list.len() && list[from] != x {
        positions_are_the_first(list, from + 1, x);
    }
}

} // verus!
