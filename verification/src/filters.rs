//! Which hunks and files are shown while filters are active.

use std::collections::HashSet;

use vstd::prelude::*;

use crate::diff::has_line;
use crate::seqs::{first_where, first_where_is_first};
use crate::state::{tags_on, AppState, HunkTags, ReviewFilter, TagFilter};
use crate::text::{concat2, join_strings, joined, opt_str, strs};

verus! {

broadcast use vstd::std_specs::hash::group_hash_axioms;

// ---------------------------------------------------------------------------
// Cycling through the filters
// ---------------------------------------------------------------------------
/// The first of the tags, from `from` on, with a name.
pub open spec fn tag_position(tags: Seq<String>, from: int, name: Seq<char>) -> Option<int>
    decreases tags.len() - from,
{
    if from >= tags.len() {
        None
    } else if tags[from]@ == name {
        Some(from)
    } else {
        tag_position(tags, from + 1, name)
    }
}

/// The filter at a position of the cycle: one for each tag, then the one for hunks
/// without tags, then none.
pub open spec fn filter_in_cycle(tags: Seq<String>, i: int) -> Option<TagFilter> {
    if 0 <= i < tags.len() {
        Some(TagFilter::Tag(tags[i]))
    } else if i == tags.len() {
        Some(TagFilter::Untagged)
    } else {
        None
    }
}

/// The filter that follows another in the cycle; the first where that one is not in it.
pub open spec fn filter_after(current: Option<TagFilter>, tags: Seq<String>) -> Option<TagFilter> {
    match current {
        None => filter_in_cycle(tags, 0),
        Some(TagFilter::Untagged) => None,
        Some(TagFilter::Tag(name)) => match tag_position(tags, 0, name@) {
            Some(i) => filter_in_cycle(tags, i + 1),
            None => filter_in_cycle(tags, 0),
        },
    }
}

/// The filter at a position of the cycle.
fn cycle_filter(tags: &Vec<String>, i: usize) -> (r: Option<TagFilter>)
    requires
        i <= tags@.len(),
    ensures
        r == filter_in_cycle(tags@, i as int),
{
    if i < tags.len() {
        Some(TagFilter::Tag(tags[i].clone()))
    } else {
        Some(TagFilter::Untagged)
    }
}

/// The filter that follows another in the cycle.
pub fn next_tag_filter(current: &Option<TagFilter>, tags: &Vec<String>) -> (r: Option<TagFilter>)
    ensures
        r == filter_after(*current, tags@),
{
    match current {
        None => cycle_filter(tags, 0),
        Some(TagFilter::Untagged) => None,
        Some(TagFilter::Tag(name)) => {
            let mut i: usize = 0;
            while i < tags.len()
                invariant
                    i <= tags@.len(),
                    tag_position(tags@, 0, name@) == tag_position(tags@, i as int, name@),
                ensures
                    tag_position(tags@, 0, name@) == (if i < tags@.len() {
                        Some(i as int)
                    } else {
                        None
                    }),
                    i <= tags@.len(),
                decreases tags@.len() - i,
            {
                if tags[i] == *name {
                    break;
                }
                i += 1;
            }
            if i < tags.len() {
                cycle_filter(tags, i + 1)
            } else {
                cycle_filter(tags, 0)
            }
        },
    }
}

/// The review filter that follows another: reviewed, unreviewed, all.
pub open spec fn review_filter_after(current: ReviewFilter) -> ReviewFilter {
    match current {
        ReviewFilter::Reviewed => ReviewFilter::Unreviewed,
        ReviewFilter::Unreviewed => ReviewFilter::All,
        ReviewFilter::All => ReviewFilter::Reviewed,
    }
}

/// The review filter that follows another.
pub fn next_review_filter(current: ReviewFilter) -> (r: ReviewFilter)
    ensures
        r == review_filter_after(current),
{
    match current {
        ReviewFilter::Reviewed => ReviewFilter::Unreviewed,
        ReviewFilter::Unreviewed => ReviewFilter::All,
        ReviewFilter::All => ReviewFilter::Reviewed,
    }
}

// ---------------------------------------------------------------------------
// Hunks
// ---------------------------------------------------------------------------
/// Whether tags pass a tag filter; a hunk without an entry has no tags.
pub open spec fn passes_tags(tags: Option<HunkTags>, filter: Option<TagFilter>) -> bool {
    match filter {
        None => true,
        Some(TagFilter::Tag(tag)) => match tags {
            Some(t) => strs(t.tags@).contains(tag@),
            None => false,
        },
        Some(TagFilter::Untagged) => match tags {
            Some(t) => t.tags@.len() == 0,
            None => true,
        },
    }
}

/// Whether a hunk passes a review filter.
pub open spec fn passes_review(reviewed: bool, filter: ReviewFilter) -> bool {
    match filter {
        ReviewFilter::All => true,
        ReviewFilter::Reviewed => reviewed,
        ReviewFilter::Unreviewed => !reviewed,
    }
}

/// Whether a hunk passes both filters.
pub open spec fn hunk_passes(state: AppState, file: usize, hunk: usize) -> bool {
    passes_tags(state.tags_of(file, hunk), state.tag_filter) && passes_review(
        state.reviewed(file, hunk),
        state.review_filter,
    )
}

/// Whether a hunk passes both filters.
pub fn hunk_matches_filter(state: &AppState, file_index: usize, hunk_index: usize) -> (r: bool)
    ensures
        r == hunk_passes(*state, file_index, hunk_index),
{
    let by_tags = match &state.tag_filter {
        None => true,
        Some(TagFilter::Tag(tag)) => match state.get_hunk_tags(file_index, hunk_index) {
            Some(t) => has_line(&t.tags, tag),
            None => false,
        },
        Some(TagFilter::Untagged) => match state.get_hunk_tags(file_index, hunk_index) {
            Some(t) => t.tags.len() == 0,
            None => true,
        },
    };
    let by_review = match state.review_filter {
        ReviewFilter::All => true,
        ReviewFilter::Reviewed => state.is_reviewed(file_index, hunk_index),
        ReviewFilter::Unreviewed => !state.is_reviewed(file_index, hunk_index),
    };
    by_tags && by_review
}

/// Those of the first `n` hunks of a file that pass both filters.
pub open spec fn passing_hunks(state: AppState, file: usize, n: int) -> Seq<usize>
    decreases n,
{
    if n <= 0 {
        seq![]
    } else if hunk_passes(state, file, (n - 1) as usize) {
        passing_hunks(state, file, n - 1).push((n - 1) as usize)
    } else {
        passing_hunks(state, file, n - 1)
    }
}

/// The hunks of a file that pass both filters.
pub open spec fn matching_hunks(state: AppState, file: usize) -> Seq<usize> {
    if file < state.file_diffs@.len() {
        passing_hunks(state, file, state.file_diffs@[file as int].hunks@.len() as int)
    } else {
        seq![]
    }
}

/// The hunks of a file that pass both filters.
pub fn matching_hunk_indices(state: &AppState, file_index: usize) -> (r: Vec<usize>)
    ensures
        r@ == matching_hunks(*state, file_index),
{
    let mut r: Vec<usize> = Vec::new();
    if file_index < state.file_diffs.len() {
        let count = state.file_diffs[file_index].hunks.len();
        let mut h: usize = 0;
        while h < count
            invariant
                h <= count,
                r@ == passing_hunks(*state, file_index, h as int),
            decreases count - h,
        {
            if hunk_matches_filter(state, file_index, h) {
                r.push(h);
            }
            h += 1;
        }
    }
    r
}

/// The hunks that pass are hunks of the file, in ascending order.
pub proof fn passing_hunks_are_ascending(state: AppState, file: usize, n: int)
    requires
        0 <= n <= usize::MAX,
    ensures
        forall|i: int|
            0 <= i < passing_hunks(state, file, n).len() ==> (#[trigger] passing_hunks(
                state,
                file,
                n,
            )[i]) < n && hunk_passes(state, file, passing_hunks(state, file, n)[i]),
        forall|i: int, j: int|
            0 <= i < j < passing_hunks(state, file, n).len() ==> #[trigger] passing_hunks(
                state,
                file,
                n,
            )[i] < #[trigger] passing_hunks(state, file, n)[j],
        forall|h: usize|
            h < n && hunk_passes(state, file, h) ==> #[trigger] passing_hunks(
                state,
                file,
                n,
            ).contains(h),
    decreases n,
{
    if n > 0 {
        passing_hunks_are_ascending(state, file, n - 1);
        let before = passing_hunks(state, file, n - 1);
        let all = passing_hunks(state, file, n);
        let last = (n - 1) as usize;
        if hunk_passes(state, file, last) {
            assert(all == before.push(last));
            assert(all[before.len() as int] == last);
        } else {
            assert(all == before);
        }
        assert forall|h: usize| h < n && hunk_passes(state, file, h) implies #[trigger] all.contains(
            h,
        ) by {
            if h < n - 1 {
                assert(before.contains(h));
                let i = choose|i: int| 0 <= i < before.len() && before[i] == h;
                assert(all[i] == h);
            }
        }
    }
}

// ---------------------------------------------------------------------------
// Files
// ---------------------------------------------------------------------------
/// Whether a filter is active.
pub open spec fn filtering(state: AppState) -> bool {
    state.tag_filter is Some || state.review_filter != ReviewFilter::All
}

/// Whether a filter is active.
pub fn is_filtering(state: &AppState) -> (r: bool)
    ensures
        r == filtering(*state),
{
    state.tag_filter.is_some() || state.review_filter != ReviewFilter::All
}

/// A file that some hunk entry gives a tag to.
pub open spec fn has_tagged_hunk(entries: Seq<HunkTags>, file: usize, tag: Seq<char>) -> bool {
    exists|i: int|
        0 <= i < entries.len() && (#[trigger] entries[i]).file_index == file && strs(
            entries[i].tags@,
        ).contains(tag)
}

/// A file with a hunk that passes both filters.
pub open spec fn has_passing_hunk(state: AppState, file: usize) -> bool {
    file < state.file_diffs@.len() && exists|h: usize|
        h < state.file_diffs@[file as int].hunks@.len() && #[trigger] hunk_passes(state, file, h)
}

/// The files that the active filters leave: while only a tag is asked for, those with an
/// entry for the tag, and otherwise those with a hunk that passes both filters.
pub open spec fn matching_files(state: AppState) -> Set<usize> {
    match state.tag_filter {
        Some(TagFilter::Tag(tag)) => if state.review_filter == ReviewFilter::All {
            Set::new(|f: usize| has_tagged_hunk(state.hunk_tags@, f, tag@))
        } else {
            Set::new(|f: usize| has_passing_hunk(state, f))
        },
        _ => Set::new(|f: usize| has_passing_hunk(state, f)),
    }
}

fn tagged_files(entries: &Vec<HunkTags>, tag: &String) -> (r: HashSet<usize>)
    ensures
        r@ == Set::new(|f: usize| has_tagged_hunk(entries@, f, tag@)),
{
    let mut r: HashSet<usize> = HashSet::new();
    let mut i: usize = 0;
    assert(r@ =~= Set::new(|f: usize| has_tagged_hunk(entries@.take(0), f, tag@)));
    while i < entries.len()
        invariant
            i <= entries@.len(),
            r@ == Set::new(|f: usize| has_tagged_hunk(entries@.take(i as int), f, tag@)),
        decreases entries@.len() - i,
    {
        let ghost seen = entries@.take(i as int);
        let ghost more = entries@.take(i + 1);
        let ghost before = r@;
        let entry = &entries[i];
        let tagged = has_line(&entry.tags, tag);
        if tagged {
            r.insert(entry.file_index);
        }
        proof {
            assert forall|f: usize| has_tagged_hunk(more, f, tag@) <==> #[trigger] r@.contains(f) by {
                assert(before.contains(f) <==> has_tagged_hunk(seen, f, tag@));
                if has_tagged_hunk(seen, f, tag@) {
                    let k = choose|k: int|
                        0 <= k < seen.len() && (#[trigger] seen[k]).file_index == f && strs(
                            seen[k].tags@,
                        ).contains(tag@);
                    assert(more[k] == seen[k]);
                }
                if has_tagged_hunk(more, f, tag@) {
                    let k = choose|k: int|
                        0 <= k < more.len() && (#[trigger] more[k]).file_index == f && strs(
                            more[k].tags@,
                        ).contains(tag@);
                    if k < seen.len() {
                        assert(seen[k] == more[k]);
                    }
                }
                if tagged && f == entry.file_index {
                    assert(more[i as int].file_index == f);
                }
            }
            assert(r@ =~= Set::new(|f: usize| has_tagged_hunk(more, f, tag@)));
        }
        i += 1;
    }
    assert(entries@.take(i as int) == entries@);
    r
}

fn has_match(state: &AppState, file_index: usize) -> (r: bool)
    requires
        file_index < state.file_diffs@.len(),
    ensures
        r == has_passing_hunk(*state, file_index),
{
    let count = state.file_diffs[file_index].hunks.len();
    let mut h: usize = 0;
    while h < count
        invariant
            file_index < state.file_diffs@.len(),
            count == state.file_diffs@[file_index as int].hunks@.len(),
            h <= count,
            forall|k: usize| k < h ==> !#[trigger] hunk_passes(*state, file_index, k),
        decreases count - h,
    {
        if hunk_matches_filter(state, file_index, h) {
            return true;
        }
        h += 1;
    }
    false
}

fn files_with_match(state: &AppState) -> (r: HashSet<usize>)
    ensures
        r@ == Set::new(|f: usize| has_passing_hunk(*state, f)),
{
    let mut r: HashSet<usize> = HashSet::new();
    let mut f: usize = 0;
    let ghost all = Set::new(|f: usize| has_passing_hunk(*state, f));
    assert(r@ =~= all.intersect(Set::new(|k: usize| k < 0)));
    while f < state.file_diffs.len()
        invariant
            f <= state.file_diffs@.len(),
            all == Set::new(|f: usize| has_passing_hunk(*state, f)),
            r@ == all.intersect(Set::new(|k: usize| k < f)),
        decreases state.file_diffs@.len() - f,
    {
        let ghost before = r@;
        let ghost below = Set::new(|k: usize| k < f);
        let ghost below_next = Set::new(|k: usize| k < f + 1);
        if has_match(state, f) {
            r.insert(f);
            assert(all.intersect(below_next) =~= all.intersect(below).insert(f));
        } else {
            assert(all.intersect(below_next) =~= all.intersect(below));
        }
        f += 1;
    }
    assert(r@ =~= all);
    r
}

/// The files that the active filters leave.
pub fn matching_files_for_filter(state: &AppState) -> (r: HashSet<usize>)
    ensures
        r@ == matching_files(*state),
{
    match &state.tag_filter {
        Some(TagFilter::Tag(tag)) => if state.review_filter == ReviewFilter::All {
            tagged_files(&state.hunk_tags, tag)
        } else {
            files_with_match(state)
        },
        _ => files_with_match(state),
    }
}

// ---------------------------------------------------------------------------
// What the footer says
// ---------------------------------------------------------------------------
/// What the footer says of the tag filter.
pub open spec fn tag_label(filter: Option<TagFilter>) -> Option<Seq<char>> {
    match filter {
        Some(TagFilter::Tag(tag)) => Some("tag: "@ + tag@),
        Some(TagFilter::Untagged) => Some("tag: untagged"@),
        None => None,
    }
}

/// What the footer says of the tag filter.
pub fn tag_filter_label(state: &AppState) -> (r: Option<String>)
    ensures
        opt_str(r) == tag_label(state.tag_filter),
{
    match &state.tag_filter {
        Some(TagFilter::Tag(tag)) => Some(concat2("tag: ", tag.as_str())),
        Some(TagFilter::Untagged) => Some("tag: untagged".to_string()),
        None => None,
    }
}

/// What the footer says of the review filter.
pub open spec fn review_label(filter: ReviewFilter) -> Option<Seq<char>> {
    match filter {
        ReviewFilter::Reviewed => Some("review: reviewed"@),
        ReviewFilter::Unreviewed => Some("review: unreviewed"@),
        ReviewFilter::All => None,
    }
}

/// What the footer says of the review filter.
pub fn review_filter_label(state: &AppState) -> (r: Option<String>)
    ensures
        opt_str(r) == review_label(state.review_filter),
{
    match state.review_filter {
        ReviewFilter::Reviewed => Some("review: reviewed".to_string()),
        ReviewFilter::Unreviewed => Some("review: unreviewed".to_string()),
        ReviewFilter::All => None,
    }
}

/// What the footer says of the tags of the focused hunk, where it has some.
pub open spec fn focused_tags_text(state: AppState) -> Option<Seq<char>> {
    match state.focused_hunk {
        Some(hunk) => match state.tags_of(state.current_file, hunk) {
            Some(t) => if t.tags@.len() == 0 {
                None
            } else {
                Some(joined(strs(t.tags@), ", "@))
            },
            None => None,
        },
        None => None,
    }
}

/// What the footer says of the tags of the focused hunk, where it has some.
pub fn focused_tags(state: &AppState) -> (r: Option<String>)
    ensures
        opt_str(r) == focused_tags_text(*state),
{
    match state.focused_hunk {
        Some(hunk) => match state.get_hunk_tags(state.current_file, hunk) {
            Some(t) => if t.tags.len() == 0 {
                None
            } else {
                Some(join_strings(&t.tags, ", "))
            },
            None => None,
        },
        None => None,
    }
}

/// Whether the focused hunk was reviewed; nothing where none is focused.
pub open spec fn focused_review(state: AppState) -> Option<bool> {
    match state.focused_hunk {
        Some(hunk) => Some(state.reviewed(state.current_file, hunk)),
        None => None,
    }
}

/// Whether the focused hunk was reviewed; nothing where none is focused.
pub fn is_focused_reviewed(state: &AppState) -> (r: Option<bool>)
    ensures
        r == focused_review(*state),
{
    match state.focused_hunk {
        Some(hunk) => Some(state.is_reviewed(state.current_file, hunk)),
        None => None,
    }
}

/// The position of a number among others.
pub open spec fn position_in(list: Seq<usize>, from: int, x: usize) -> Option<int>
    decreases list.len() - from,
{
    if from >= list.len() {
        None
    } else if list[from] == x {
        Some(from)
    } else {
        position_in(list, from + 1, x)
    }
}

/// The position of a number among others.
pub fn find_position(list: &Vec<usize>, x: usize) -> (r: Option<usize>)
    ensures
        match r {
            Some(i) => position_in(list@, 0, x) == Some(i as int) && i < list@.len() && list@[i as int]
                == x,
            None => position_in(list@, 0, x) is None,
        },
{
    let mut i: usize = 0;
    while i < list.len()
        invariant
            i <= list@.len(),
            position_in(list@, 0, x) == position_in(list@, i as int, x),
        decreases list@.len() - i,
    {
        if list[i] == x {
            return Some(i);
        }
        i += 1;
    }
    None
}

/// The number of hunks that the footer counts, and the position of the focused hunk among
/// them.
pub fn footer_hunks(state: &AppState) -> (r: (usize, Option<usize>))
    ensures
        r.0 == matching_hunks(*state, state.current_file).len(),
        match (state.focused_hunk, r.1) {
            (None, i) => i is None,
            (Some(hunk), Some(i)) => position_in(
                matching_hunks(*state, state.current_file),
                0,
                hunk,
            ) == Some(i as int),
            (Some(hunk), None) => position_in(
                matching_hunks(*state, state.current_file),
                0,
                hunk,
            ) is None,
        },
        r.0 == 0 ==> r.1 is None,
        r.1 matches Some(i) ==> i < r.0 && state.focused_hunk == Some(
            matching_hunks(*state, state.current_file)[i as int],
        ),
{
    let matching = matching_hunk_indices(state, state.current_file);
    let focused = match state.focused_hunk {
        Some(hunk) => find_position(&matching, hunk),
        None => None,
    };
    (matching.len(), focused)
}

/// Whether there is anything to show: a file, and while a filter is active a line of the
/// sidebar.
pub fn has_visible_files(state: &AppState) -> (r: bool)
    ensures
        r == (if filtering(*state) {
            state.sidebar_visible@.len() > 0
        } else {
            state.file_diffs@.len() > 0
        }),
        state.tag_filter is None && state.review_filter is All ==> (r <==> state.file_diffs@.len()
            > 0),
        state.tag_filter is Some || !(state.review_filter is All) ==> (r
            <==> state.sidebar_visible@.len() > 0),
{
    if is_filtering(state) {
        state.sidebar_visible.len() > 0
    } else {
        state.file_diffs.len() > 0
    }
}

// ---------------------------------------------------------------------------
// Laws
// ---------------------------------------------------------------------------
/// The filter after some steps through the cycle.
pub open spec fn filter_after_steps(start: Option<TagFilter>, tags: Seq<String>, steps: nat) -> Option<
    TagFilter,
>
    decreases steps,
{
    if steps == 0 {
        start
    } else {
        filter_after(filter_after_steps(start, tags, (steps - 1) as nat), tags)
    }
}

/// No two tags have the same name.
pub open spec fn tags_distinct(tags: Seq<String>) -> bool {
    forall|i: int, j: int| 0 <= i < j < tags.len() ==> (#[trigger] tags[i])@ != (#[trigger] tags[j])@
}

proof fn lemma_tag_position(tags: Seq<String>, from: int, i: int)
    requires
        tags_distinct(tags),
        0 <= from <= i < tags.len(),
    ensures
        tag_position(tags, from, tags[i]@) == Some(i),
    decreases i - from,
{
    if from < i {
        assert(tags[from]@ != tags[i]@);
        lemma_tag_position(tags, from + 1, i);
    }
}

proof fn lemma_cycle(tags: Seq<String>, steps: nat)
    requires
        tags_distinct(tags),
        1 <= steps <= tags.len() + 2,
    ensures
        filter_after_steps(None, tags, steps) == filter_in_cycle(tags, steps - 1),
    decreases steps,
{
    if steps == 1 {
        assert(filter_after_steps(None, tags, 0) == None::<TagFilter>);
    } else {
        lemma_cycle(tags, (steps - 1) as nat);
        if steps - 2 < tags.len() {
            lemma_tag_position(tags, 0, steps - 2);
        }
    }
}

/// From no filter the cycle goes through every tag in turn, then to the hunks without
/// tags, and then back to no filter.
pub proof fn tag_filters_cycle(tags: Seq<String>, i: int)
    requires
        tags_distinct(tags),
        0 <= i <= tags.len() + 1,
    ensures
        i < tags.len() ==> filter_after_steps(None, tags, (i + 1) as nat) == Some(
            TagFilter::Tag(tags[i]),
        ),
        i == tags.len() ==> filter_after_steps(None, tags, (i + 1) as nat) == Some(
            TagFilter::Untagged,
        ),
        i == tags.len() + 1 ==> filter_after_steps(None, tags, (i + 1) as nat) is None,
{
    lemma_cycle(tags, (i + 1) as nat);
}

/// Three steps through the review filters lead back.
pub proof fn review_filters_cycle(filter: ReviewFilter)
    ensures
        review_filter_after(review_filter_after(review_filter_after(filter))) == filter,
        review_filter_after(ReviewFilter::All) == ReviewFilter::Reviewed,
        review_filter_after(ReviewFilter::Reviewed) == ReviewFilter::Unreviewed,
        review_filter_after(ReviewFilter::Unreviewed) == ReviewFilter::All,
{
}

/// Without filters every hunk passes.
pub proof fn without_filters_all_hunks_pass(state: AppState, file: usize, hunk: usize)
    requires
        !filtering(state),
    ensures
        hunk_passes(state, file, hunk),
{
}

/// A file with a hunk that passes the filters is among the files that they leave.
pub proof fn files_with_passing_hunks_are_left(state: AppState, file: usize)
    requires
        has_passing_hunk(state, file),
    ensures
        matching_files(state).contains(file),
{
    let hunk = choose|h: usize|
        h < state.file_diffs@[file as int].hunks@.len() && #[trigger] hunk_passes(state, file, h);
    if let Some(TagFilter::Tag(tag)) = state.tag_filter {
        let on = tags_on(file, hunk);
        first_where_is_first(state.hunk_tags@, 0, on);
        let i = first_where(state.hunk_tags@, 0, on)->0;
        assert(on(state.hunk_tags@[i]));
        assert(has_tagged_hunk(state.hunk_tags@, file, tag@));
    }
}

} // verus!
