//! What holds of hunks, of their changes, and of how a hunk is found again.

use vstd::prelude::*;

use crate::diff::{
    added_numbers, change_bounds, changed_lines, common_lines, first_change, first_in_range,
    first_similar, hunk_context, hunk_context_or_all, hunk_in_range, hunk_line_range, last_change,
    matching_hunk, removed_numbers, row_in_range, row_texts, similar, text_of_lines, ChangeType,
    DiffLine, FileDiff, HunkRange,
};

verus! {

// ---------------------------------------------------------------------------
// A hunk is found by the numbers of its lines
// ---------------------------------------------------------------------------
proof fn lemma_first_in_range(file: FileDiff, from: int, range: (usize, usize), use_new: bool)
    requires
        0 <= from,
    ensures
        match first_in_range(file, from, range, use_new) {
            Some(h) => from <= h < file.hunks@.len() && hunk_in_range(
                file.rows@,
                file.hunks@[h],
                range,
                use_new,
            ) && forall|k: int|
                from <= k < h ==> !hunk_in_range(
                    file.rows@,
                    #[trigger] file.hunks@[k],
                    range,
                    use_new,
                ),
            None => forall|k: int|
                from <= k < file.hunks@.len() ==> !hunk_in_range(
                    file.rows@,
                    #[trigger] file.hunks@[k],
                    range,
                    use_new,
                ),
        },
    decreases file.hunks@.len() - from,
{
    if from < file.hunks@.len() && !hunk_in_range(file.rows@, file.hunks@[from], range, use_new) {
        lemma_first_in_range(file, from + 1, range, use_new);
    }
}

/// The hunk that a range of new lines leads to holds a changed row whose new line has a
/// number from the first to the last of the range, and no hunk before it does. Where no hunk
/// is found, no changed row of a hunk has such a number.
pub proof fn new_range_leads_to_a_line_in_it(file: FileDiff, range: (usize, usize))
    ensures
        match first_in_range(file, 0, range, true) {
            Some(h) => {
                &&& 0 <= h < file.hunks@.len()
                &&& exists|i: int|
                    file.hunks@[h].start <= i < file.hunks@[h].end && (
                    #[trigger] file.rows@[i]).change_type != ChangeType::Equal
                        && file.rows@[i].new_line is Some && range.0 <= (
                    file.rows@[i].new_line->0).0 <= range.1
                &&& forall|k: int, i: int|
                    0 <= k < h && (#[trigger] file.hunks@[k]).start <= i < file.hunks@[k].end && (
                    #[trigger] file.rows@[i]).change_type != ChangeType::Equal
                        && file.rows@[i].new_line is Some ==> (file.rows@[i].new_line->0).0
                        < range.0 || (file.rows@[i].new_line->0).0 > range.1
            },
            None => forall|k: int, i: int|
                0 <= k < file.hunks@.len() && (#[trigger] file.hunks@[k]).start <= i
                    < file.hunks@[k].end && (#[trigger] file.rows@[i]).change_type
                    != ChangeType::Equal && file.rows@[i].new_line is Some ==> (
                file.rows@[i].new_line->0).0 < range.0 || (file.rows@[i].new_line->0).0 > range.1,
        },
{
    lemma_first_in_range(file, 0, range, true);
    let found = first_in_range(file, 0, range, true);
    assert forall|k: int, i: int|
        0 <= k < (if found is Some {
            found->0
        } else {
            file.hunks@.len() as int
        }) && (#[trigger] file.hunks@[k]).start <= i < file.hunks@[k].end && (
        #[trigger] file.rows@[i]).change_type != ChangeType::Equal && file.rows@[i].new_line is Some
        implies (file.rows@[i].new_line->0).0 < range.0 || (file.rows@[i].new_line->0).0
        > range.1 by {
        assert(!hunk_in_range(file.rows@, file.hunks@[k], range, true));
        assert(!row_in_range(file.rows@[i], range, true));
    }
}

/// The hunk that a range of old lines leads to holds a changed row whose old line has a
/// number from the first to the last of the range, and no hunk before it does. Where no hunk
/// is found, no changed row of a hunk has such a number.
pub proof fn old_range_leads_to_a_line_in_it(file: FileDiff, range: (usize, usize))
    ensures
        match first_in_range(file, 0, range, false) {
            Some(h) => {
                &&& 0 <= h < file.hunks@.len()
                &&& exists|i: int|
                    file.hunks@[h].start <= i < file.hunks@[h].end && (
                    #[trigger] file.rows@[i]).change_type != ChangeType::Equal
                        && file.rows@[i].old_line is Some && range.0 <= (
                    file.rows@[i].old_line->0).0 <= range.1
                &&& forall|k: int, i: int|
                    0 <= k < h && (#[trigger] file.hunks@[k]).start <= i < file.hunks@[k].end && (
                    #[trigger] file.rows@[i]).change_type != ChangeType::Equal
                        && file.rows@[i].old_line is Some ==> (file.rows@[i].old_line->0).0
                        < range.0 || (file.rows@[i].old_line->0).0 > range.1
            },
            None => forall|k: int, i: int|
                0 <= k < file.hunks@.len() && (#[trigger] file.hunks@[k]).start <= i
                    < file.hunks@[k].end && (#[trigger] file.rows@[i]).change_type
                    != ChangeType::Equal && file.rows@[i].old_line is Some ==> (
                file.rows@[i].old_line->0).0 < range.0 || (file.rows@[i].old_line->0).0 > range.1,
        },
{
    lemma_first_in_range(file, 0, range, false);
    let found = first_in_range(file, 0, range, false);
    assert forall|k: int, i: int|
        0 <= k < (if found is Some {
            found->0
        } else {
            file.hunks@.len() as int
        }) && (#[trigger] file.hunks@[k]).start <= i < file.hunks@[k].end && (
        #[trigger] file.rows@[i]).change_type != ChangeType::Equal && file.rows@[i].old_line is Some
        implies (file.rows@[i].old_line->0).0 < range.0 || (file.rows@[i].old_line->0).0
        > range.1 by {
        assert(!hunk_in_range(file.rows@, file.hunks@[k], range, false));
        assert(!row_in_range(file.rows@[i], range, false));
    }
}

proof fn lemma_common_is_filter(a: Seq<Seq<char>>, b: Seq<Seq<char>>)
    ensures
        common_lines(a, b) == a.filter(|line: Seq<char>| b.contains(line)).len(),
    decreases a.len(),
{
    reveal(Seq::filter);
    if a.len() > 0 {
        lemma_common_is_filter(a.drop_last(), b);
    }
}

/// Two lists of changed lines are similar where neither is empty and those of the first that
/// are in the second are four fifths of either at least.
pub proof fn similar_lists_share_four_fifths(a: Seq<Seq<char>>, b: Seq<Seq<char>>)
    ensures
        ({
            let shared = a.filter(|line: Seq<char>| b.contains(line)).len();
            similar(a, b) <==> a.len() > 0 && b.len() > 0 && 5 * shared >= 4 * a.len() && 5
                * shared >= 4 * b.len()
        }),
{
    lemma_common_is_filter(a, b);
}

/// A list is similar to itself, and lists with no line in common are not similar.
pub proof fn similarity_is_of_lines_in_common(a: Seq<Seq<char>>, b: Seq<Seq<char>>)
    ensures
        a.len() > 0 ==> similar(a, a),
        (forall|i: int| 0 <= i < a.len() ==> !b.contains(#[trigger] a[i])) ==> !similar(a, b),
{
    lemma_all_common(a, a);
    if forall|i: int| 0 <= i < a.len() ==> !b.contains(#[trigger] a[i]) {
        lemma_none_common(a, b);
    }
}

proof fn lemma_all_common(a: Seq<Seq<char>>, b: Seq<Seq<char>>)
    requires
        forall|i: int| 0 <= i < a.len() ==> b.contains(#[trigger] a[i]),
    ensures
        common_lines(a, b) == a.len(),
    decreases a.len(),
{
    if a.len() > 0 {
        let rest = a.drop_last();
        assert forall|i: int| 0 <= i < rest.len() implies b.contains(#[trigger] rest[i]) by {
            assert(b.contains(a[i]));
        }
        lemma_all_common(rest, b);
        assert(b.contains(a[a.len() - 1]));
    }
}

proof fn lemma_none_common(a: Seq<Seq<char>>, b: Seq<Seq<char>>)
    requires
        forall|i: int| 0 <= i < a.len() ==> !b.contains(#[trigger] a[i]),
    ensures
        common_lines(a, b) == 0,
    decreases a.len(),
{
    if a.len() > 0 {
        let rest = a.drop_last();
        assert forall|i: int| 0 <= i < rest.len() implies !b.contains(#[trigger] rest[i]) by {
            assert(!b.contains(a[i]));
        }
        lemma_none_common(rest, b);
        assert(!b.contains(a[a.len() - 1]));
    }
}

proof fn lemma_first_similar(file: FileDiff, from: int, lines: Seq<Seq<char>>)
    requires
        0 <= from,
    ensures
        match first_similar(file, from, lines) {
            Some(h) => from <= h < file.hunks@.len() && similar(
                changed_lines(
                    file.rows@,
                    file.hunks@[h].start as int,
                    file.hunks@[h].end as int,
                ),
                lines,
            ) && forall|k: int|
                from <= k < h ==> !similar(
                    changed_lines(
                        file.rows@,
                        (#[trigger] file.hunks@[k]).start as int,
                        file.hunks@[k].end as int,
                    ),
                    lines,
                ),
            None => forall|k: int|
                from <= k < file.hunks@.len() ==> !similar(
                    changed_lines(
                        file.rows@,
                        (#[trigger] file.hunks@[k]).start as int,
                        file.hunks@[k].end as int,
                    ),
                    lines,
                ),
        },
    decreases file.hunks@.len() - from,
{
    if from < file.hunks@.len() {
        lemma_first_similar(file, from + 1, lines);
    }
}

/// New lines come first, then old lines, then the changed lines themselves: the hunk of
/// stored marks holds a changed row in the range of new lines; or no hunk does, and it holds
/// one in the range of old lines; or no hunk does that either, and its changes are similar to
/// those that were stored, and it is the first such hunk. It is found where there is one.
pub proof fn marks_are_found_by_new_then_old_then_lines(
    file: FileDiff,
    new_range: Option<(usize, usize)>,
    old_range: Option<(usize, usize)>,
    lines: Seq<Seq<char>>,
)
    ensures
        ({
            let found = matching_hunk(file, new_range, old_range, lines);
            let in_new = |h: int, i: int|
                0 <= h < file.hunks@.len() && file.hunks@[h].start <= i < file.hunks@[h].end
                    && file.rows@[i].change_type != ChangeType::Equal && new_range is Some
                    && file.rows@[i].new_line is Some && (new_range->0).0 <= (
                file.rows@[i].new_line->0).0 <= (new_range->0).1;
            let in_old = |h: int, i: int|
                0 <= h < file.hunks@.len() && file.hunks@[h].start <= i < file.hunks@[h].end
                    && file.rows@[i].change_type != ChangeType::Equal && old_range is Some
                    && file.rows@[i].old_line is Some && (old_range->0).0 <= (
                file.rows@[i].old_line->0).0 <= (old_range->0).1;
            let alike = |h: int|
                0 <= h < file.hunks@.len() && similar(
                    changed_lines(
                        file.rows@,
                        file.hunks@[h].start as int,
                        file.hunks@[h].end as int,
                    ),
                    lines,
                );
            if exists|h: int, i: int| #[trigger] in_new(h, i) {
                &&& found matches Some(g)
                &&& exists|i: int| #[trigger] in_new(g, i)
                &&& forall|h: int, i: int| #[trigger] in_new(h, i) ==> g <= h
            } else if exists|h: int, i: int| #[trigger] in_old(h, i) {
                &&& found matches Some(g)
                &&& exists|i: int| #[trigger] in_old(g, i)
                &&& forall|h: int, i: int| #[trigger] in_old(h, i) ==> g <= h
            } else if exists|h: int| #[trigger] alike(h) {
                &&& found matches Some(g)
                &&& alike(g)
                &&& forall|h: int| #[trigger] alike(h) ==> g <= h
            } else {
                found is None
            }
        }),
{
    let found = matching_hunk(file, new_range, old_range, lines);
    let in_new = |h: int, i: int|
        0 <= h < file.hunks@.len() && file.hunks@[h].start <= i < file.hunks@[h].end
            && file.rows@[i].change_type != ChangeType::Equal && new_range is Some
            && file.rows@[i].new_line is Some && (new_range->0).0 <= (
        file.rows@[i].new_line->0).0 <= (new_range->0).1;
    let in_old = |h: int, i: int|
        0 <= h < file.hunks@.len() && file.hunks@[h].start <= i < file.hunks@[h].end
            && file.rows@[i].change_type != ChangeType::Equal && old_range is Some
            && file.rows@[i].old_line is Some && (old_range->0).0 <= (
        file.rows@[i].old_line->0).0 <= (old_range->0).1;
    let alike = |h: int|
        0 <= h < file.hunks@.len() && similar(
            changed_lines(
                file.rows@,
                file.hunks@[h].start as int,
                file.hunks@[h].end as int,
            ),
            lines,
        );
    if let Some(range) = new_range {
        new_range_leads_to_a_line_in_it(file, range);
    }
    if let Some(range) = old_range {
        old_range_leads_to_a_line_in_it(file, range);
    }
    lemma_first_similar(file, 0, lines);
    let by_new = match new_range {
        Some(range) => first_in_range(file, 0, range, true),
        None => None,
    };
    let by_old = match old_range {
        Some(range) => first_in_range(file, 0, range, false),
        None => None,
    };
    if let Some(g) = by_new {
        let i = choose|i: int|
            file.hunks@[g].start <= i < file.hunks@[g].end && (
            #[trigger] file.rows@[i]).change_type != ChangeType::Equal
                && file.rows@[i].new_line is Some && (new_range->0).0 <= (
            file.rows@[i].new_line->0).0 <= (new_range->0).1;
        assert(in_new(g, i));
        assert forall|h: int, j: int| #[trigger] in_new(h, j) implies g <= h by {
            if h < g {
                assert(file.hunks@[h].start <= j);
                assert(file.rows@[j].change_type != ChangeType::Equal);
            }
        }
    } else {
        assert forall|h: int, j: int| !#[trigger] in_new(h, j) by {
            if in_new(h, j) {
                assert(file.hunks@[h].start <= j);
                assert(file.rows@[j].change_type != ChangeType::Equal);
            }
        }
        if let Some(g) = by_old {
            let i = choose|i: int|
                file.hunks@[g].start <= i < file.hunks@[g].end && (
                #[trigger] file.rows@[i]).change_type != ChangeType::Equal
                    && file.rows@[i].old_line is Some && (old_range->0).0 <= (
                file.rows@[i].old_line->0).0 <= (old_range->0).1;
            assert(in_old(g, i));
            assert forall|h: int, j: int| #[trigger] in_old(h, j) implies g <= h by {
                if h < g {
                    assert(file.hunks@[h].start <= j);
                    assert(file.rows@[j].change_type != ChangeType::Equal);
                }
            }
        } else {
            assert forall|h: int, j: int| !#[trigger] in_old(h, j) by {
                if in_old(h, j) {
                    assert(file.hunks@[h].start <= j);
                    assert(file.rows@[j].change_type != ChangeType::Equal);
                }
            }
            if let Some(g) = first_similar(file, 0, lines) {
                assert(alike(g));
                assert forall|h: int| #[trigger] alike(h) implies g <= h by {
                    if h < g {
                        assert(file.hunks@[h].start <= file.hunks@[h].start);
                    }
                }
            } else {
                assert forall|h: int| !#[trigger] alike(h) by {
                    if alike(h) {
                        assert(file.hunks@[h].start <= file.hunks@[h].start);
                    }
                }
            }
        }
    }
}

// ---------------------------------------------------------------------------
// The changes of a hunk
// ---------------------------------------------------------------------------
/// The changed lines of rows are those of the first rows, followed by those of the others.
pub proof fn changed_lines_follow_the_rows(rows: Seq<DiffLine>, a: int, b: int, c: int)
    requires
        0 <= a <= b <= c <= rows.len(),
    ensures
        changed_lines(rows, a, c) == changed_lines(rows, a, b) + changed_lines(rows, b, c),
    decreases c - b,
{
    if b < c {
        changed_lines_follow_the_rows(rows, a, b, c - 1);
        assert(changed_lines(rows, a, c) =~= changed_lines(rows, a, b) + changed_lines(rows, b, c));
    } else {
        assert(changed_lines(rows, a, c) =~= changed_lines(rows, a, b) + changed_lines(rows, b, c));
    }
}

/// A row that is equal on both sides has no changed line, a deletion has the old line, an
/// insertion the new one, and a modification the old one and then the new one; an old line is
/// marked with a minus, a new one with a plus.
pub proof fn changed_lines_of_one_row(rows: Seq<DiffLine>, i: int, old: String, new: String)
    requires
        0 <= i < rows.len(),
        rows[i].old_line is Some ==> (rows[i].old_line->0).1 == old,
        rows[i].new_line is Some ==> (rows[i].new_line->0).1 == new,
    ensures
        ({
            let lines = changed_lines(rows, i, i + 1);
            let (has_old, has_new) = (rows[i].old_line is Some, rows[i].new_line is Some);
            let (minus, plus) = ("- "@ + old@, "+ "@ + new@);
            match rows[i].change_type {
                ChangeType::Equal => lines.len() == 0,
                ChangeType::Delete => if has_old {
                    lines == seq![minus]
                } else {
                    lines.len() == 0
                },
                ChangeType::Insert => if has_new {
                    lines == seq![plus]
                } else {
                    lines.len() == 0
                },
                ChangeType::Modified => if has_old && has_new {
                    lines == seq![minus, plus]
                } else if has_old {
                    lines == seq![minus]
                } else if has_new {
                    lines == seq![plus]
                } else {
                    lines.len() == 0
                },
            }
        }),
{
    reveal_with_fuel(changed_lines, 2);
    assert(changed_lines(rows, i, i) =~= seq![]);
}

proof fn lemma_first_change(rows: Seq<DiffLine>, start: int, end: int)
    requires
        start <= end,
    ensures
        ({
            let f = first_change(rows, start, end);
            &&& start <= f <= end
            &&& f < end ==> rows[f].change_type != ChangeType::Equal
            &&& forall|i: int|
                start <= i < f ==> (#[trigger] rows[i]).change_type == ChangeType::Equal
        }),
    decreases end - start,
{
    if start < end {
        lemma_first_change(rows, start + 1, end);
    }
}

proof fn lemma_last_change(rows: Seq<DiffLine>, start: int, end: int)
    requires
        start <= end,
    ensures
        ({
            let l = last_change(rows, start, end);
            &&& start - 1 <= l < end
            &&& l >= start ==> rows[l].change_type != ChangeType::Equal
            &&& forall|i: int| l < i < end && start <= i ==> (#[trigger] rows[i]).change_type
                == ChangeType::Equal
        }),
    decreases end - start,
{
    if start < end {
        lemma_last_change(rows, start, end - 1);
    }
}

/// The bounds of the changes of a range are rows of the range that are not equal on both
/// sides, and every row of the range that is not lies between them. There are none only where
/// all rows of the range are equal.
pub proof fn bounds_enclose_the_changes(rows: Seq<DiffLine>, range: HunkRange)
    requires
        range.start <= range.end <= rows.len(),
    ensures
        match change_bounds(rows, range) {
            Some((first, last)) => {
                &&& range.start <= first <= last < range.end
                &&& rows[first].change_type != ChangeType::Equal
                &&& rows[last].change_type != ChangeType::Equal
                &&& forall|i: int|
                    range.start <= i < range.end && (#[trigger] rows[i]).change_type
                        != ChangeType::Equal ==> first <= i <= last
            },
            None => forall|i: int|
                range.start <= i < range.end ==> (#[trigger] rows[i]).change_type
                    == ChangeType::Equal,
        },
{
    lemma_first_change(rows, range.start as int, range.end as int);
    lemma_last_change(rows, range.start as int, range.end as int);
}

proof fn lemma_numbers_split(rows: Seq<DiffLine>, a: int, b: int, c: int)
    requires
        0 <= a <= b <= c <= rows.len(),
    ensures
        removed_numbers(rows, a, c) == removed_numbers(rows, a, b) + removed_numbers(rows, b, c),
        added_numbers(rows, a, c) == added_numbers(rows, a, b) + added_numbers(rows, b, c),
    decreases c - b,
{
    if b < c {
        lemma_numbers_split(rows, a, b, c - 1);
    }
    assert(removed_numbers(rows, a, c) =~= removed_numbers(rows, a, b) + removed_numbers(
        rows,
        b,
        c,
    ));
    assert(added_numbers(rows, a, c) =~= added_numbers(rows, a, b) + added_numbers(rows, b, c));
}

proof fn lemma_no_removed(rows: Seq<DiffLine>, a: int, b: int)
    requires
        0 <= a <= b <= rows.len(),
        forall|i: int|
            a <= i < b ==> (#[trigger] rows[i]).old_line is None || rows[i].change_type
                == ChangeType::Equal || rows[i].change_type == ChangeType::Insert,
    ensures
        removed_numbers(rows, a, b).len() == 0,
    decreases b - a,
{
    if a < b {
        lemma_no_removed(rows, a, b - 1);
        assert(rows[b - 1].old_line is None || !(rows[b - 1].change_type == ChangeType::Delete
            || rows[b - 1].change_type == ChangeType::Modified));
    }
}

proof fn lemma_no_added(rows: Seq<DiffLine>, a: int, b: int)
    requires
        0 <= a <= b <= rows.len(),
        forall|i: int|
            a <= i < b ==> (#[trigger] rows[i]).new_line is None || rows[i].change_type
                == ChangeType::Equal || rows[i].change_type == ChangeType::Delete,
    ensures
        added_numbers(rows, a, b).len() == 0,
    decreases b - a,
{
    if a < b {
        lemma_no_added(rows, a, b - 1);
        assert(rows[b - 1].new_line is None || !(rows[b - 1].change_type == ChangeType::Insert
            || rows[b - 1].change_type == ChangeType::Modified));
    }
}

/// The range of old lines of a hunk goes from the number of its first removed line to that of
/// its last one, where a line is removed by a row that is deleted or modified.
pub proof fn old_range_spans_the_removed_lines(file: FileDiff, hunk: int, i: int, j: int)
    requires
        file.wf(),
        hunk_context(file, hunk) is Some,
        file.hunks@[hunk].start <= i <= j < file.hunks@[hunk].end,
        file.rows@[i].old_line is Some,
        file.rows@[i].change_type == ChangeType::Delete || file.rows@[i].change_type
            == ChangeType::Modified,
        file.rows@[j].old_line is Some,
        file.rows@[j].change_type == ChangeType::Delete || file.rows@[j].change_type
            == ChangeType::Modified,
        forall|k: int|
            file.hunks@[hunk].start <= k < file.hunks@[hunk].end && (k < i || j < k) ==> (
            #[trigger] file.rows@[k]).old_line is None || file.rows@[k].change_type
                == ChangeType::Equal || file.rows@[k].change_type == ChangeType::Insert,
    ensures
        hunk_context(file, hunk)->0.old_line_range == Some(
            ((file.rows@[i].old_line->0).0, (file.rows@[j].old_line->0).0),
        ),
{
    let rows = file.rows@;
    let (start, end) = (file.hunks@[hunk].start as int, file.hunks@[hunk].end as int);
    lemma_numbers_split(rows, start, i, end);
    lemma_numbers_split(rows, i, i + 1, end);
    lemma_numbers_split(rows, start, j, end);
    lemma_numbers_split(rows, j, j + 1, end);
    lemma_no_removed(rows, start, i);
    lemma_no_removed(rows, j + 1, end);
    reveal_with_fuel(removed_numbers, 2);
    assert(removed_numbers(rows, i, i + 1) =~= seq![(rows[i].old_line->0).0]);
    assert(removed_numbers(rows, j, j + 1) =~= seq![(rows[j].old_line->0).0]);
    let all = removed_numbers(rows, start, end);
    assert(all[0] == (rows[i].old_line->0).0);
    assert(all.last() == (rows[j].old_line->0).0);
}

/// The range of new lines of a hunk goes from the number of its first added line to that of
/// its last one, where a line is added by a row that is inserted or modified.
pub proof fn new_range_spans_the_added_lines(file: FileDiff, hunk: int, i: int, j: int)
    requires
        file.wf(),
        hunk_context(file, hunk) is Some,
        file.hunks@[hunk].start <= i <= j < file.hunks@[hunk].end,
        file.rows@[i].new_line is Some,
        file.rows@[i].change_type == ChangeType::Insert || file.rows@[i].change_type
            == ChangeType::Modified,
        file.rows@[j].new_line is Some,
        file.rows@[j].change_type == ChangeType::Insert || file.rows@[j].change_type
            == ChangeType::Modified,
        forall|k: int|
            file.hunks@[hunk].start <= k < file.hunks@[hunk].end && (k < i || j < k) ==> (
            #[trigger] file.rows@[k]).new_line is None || file.rows@[k].change_type
                == ChangeType::Equal || file.rows@[k].change_type == ChangeType::Delete,
    ensures
        hunk_context(file, hunk)->0.new_line_range == Some(
            ((file.rows@[i].new_line->0).0, (file.rows@[j].new_line->0).0),
        ),
{
    let rows = file.rows@;
    let (start, end) = (file.hunks@[hunk].start as int, file.hunks@[hunk].end as int);
    lemma_numbers_split(rows, start, i, end);
    lemma_numbers_split(rows, i, i + 1, end);
    lemma_numbers_split(rows, start, j, end);
    lemma_numbers_split(rows, j, j + 1, end);
    lemma_no_added(rows, start, i);
    lemma_no_added(rows, j + 1, end);
    reveal_with_fuel(added_numbers, 2);
    assert(added_numbers(rows, i, i + 1) =~= seq![(rows[i].new_line->0).0]);
    assert(added_numbers(rows, j, j + 1) =~= seq![(rows[j].new_line->0).0]);
    let all = added_numbers(rows, start, end);
    assert(all[0] == (rows[i].new_line->0).0);
    assert(all.last() == (rows[j].new_line->0).0);
}

/// A hunk whose rows remove no line has no range of old lines, and one whose rows add no line
/// has no range of new lines.
pub proof fn ranges_need_lines(file: FileDiff, hunk: int)
    requires
        file.wf(),
        hunk_context(file, hunk) is Some,
    ensures
        ({
            let (start, end) = (file.hunks@[hunk].start as int, file.hunks@[hunk].end as int);
            &&& (forall|k: int|
                start <= k < end ==> (#[trigger] file.rows@[k]).old_line is None
                    || file.rows@[k].change_type == ChangeType::Equal || file.rows@[k].change_type
                    == ChangeType::Insert) ==> hunk_context(file, hunk)->0.old_line_range is None
            &&& (forall|k: int|
                start <= k < end ==> (#[trigger] file.rows@[k]).new_line is None
                    || file.rows@[k].change_type == ChangeType::Equal || file.rows@[k].change_type
                    == ChangeType::Delete) ==> hunk_context(file, hunk)->0.new_line_range is None
        }),
{
    let rows = file.rows@;
    let (start, end) = (file.hunks@[hunk].start as int, file.hunks@[hunk].end as int);
    if forall|k: int|
        start <= k < end ==> (#[trigger] file.rows@[k]).old_line is None
            || file.rows@[k].change_type == ChangeType::Equal || file.rows@[k].change_type
            == ChangeType::Insert {
        lemma_no_removed(rows, start, end);
    }
    if forall|k: int|
        start <= k < end ==> (#[trigger] file.rows@[k]).new_line is None
            || file.rows@[k].change_type == ChangeType::Equal || file.rows@[k].change_type
            == ChangeType::Delete {
        lemma_no_added(rows, start, end);
    }
}

/// A hunk is a modification where it has both ranges, a deletion where it has only that of old
/// lines, and an addition otherwise. Its changes are the changed lines of its rows, and its
/// text is these lines.
pub proof fn context_agrees_with_itself(file: FileDiff, hunk: int)
    requires
        hunk_context(file, hunk) is Some,
    ensures
        ({
            let context = hunk_context(file, hunk)->0;
            &&& context.old_line_range is Some && context.new_line_range is Some
                ==> context.change_type == "modification"@
            &&& context.old_line_range is Some && context.new_line_range is None
                ==> context.change_type == "deletion"@
            &&& context.old_line_range is None ==> context.change_type == "addition"@
            &&& context.context_changed == changed_lines(
                file.rows@,
                file.hunks@[hunk].start as int,
                file.hunks@[hunk].end as int,
            )
            &&& context.diff_text == text_of_lines(context.context_changed)
            &&& hunk_context_or_all(file, hunk) == context
        }),
{
}

/// The text of some lines and one more is the text of those, followed by the line and a line
/// feed; so every line is found in the text as it is.
pub proof fn texts_are_their_lines(a: Seq<Seq<char>>, b: Seq<Seq<char>>, line: Seq<char>)
    ensures
        text_of_lines(a + b) == text_of_lines(a) + text_of_lines(b),
        text_of_lines(seq![line]) == line + seq!['\n'],
    decreases b.len(),
{
    reveal_with_fuel(text_of_lines, 2);
    assert(seq![line].drop_last() =~= Seq::<Seq<char>>::empty());
    assert(text_of_lines(seq![line]) =~= line + seq!['\n']);
    if b.len() > 0 {
        texts_are_their_lines(a, b.drop_last(), line);
        assert((a + b).drop_last() =~= a + b.drop_last());
        assert(text_of_lines(a + b) =~= text_of_lines(a) + text_of_lines(b));
    } else {
        assert(a + b =~= a);
        assert(text_of_lines(a + b) =~= text_of_lines(a) + text_of_lines(b));
    }
}

proof fn lemma_texts(rows: Seq<DiffLine>, a: int, b: int)
    requires
        0 <= a <= b <= rows.len(),
    ensures
        row_texts(rows, a, b).len() <= b - a,
        (forall|i: int|
            a <= i < b ==> (#[trigger] rows[i]).new_line is Some || rows[i].old_line is Some)
            ==> row_texts(rows, a, b).len() == b - a && forall|i: int|
            a <= i < b ==> (#[trigger] row_texts(rows, a, b)[i - a]) == if rows[i].new_line is Some {
                (rows[i].new_line->0).1@
            } else {
                (rows[i].old_line->0).1@
            },
    decreases b - a,
{
    if a < b {
        lemma_texts(rows, a, b - 1);
        let before = row_texts(rows, a, b - 1);
        if forall|i: int|
            a <= i < b ==> (#[trigger] rows[i]).new_line is Some || rows[i].old_line is Some {
            let row = rows[b - 1];
            assert(row.new_line is Some || row.old_line is Some);
            let text = if row.new_line is Some {
                (row.new_line->0).1@
            } else {
                (row.old_line->0).1@
            };
            assert(row_texts(rows, a, b) =~= before.push(text));
            assert forall|i: int| a <= i < b implies (#[trigger] row_texts(rows, a, b)[i - a])
                == if rows[i].new_line is Some {
                (rows[i].new_line->0).1@
            } else {
                (rows[i].old_line->0).1@
            } by {
                if i < b - 1 {
                    assert(before[i - a] == row_texts(rows, a, b)[i - a]);
                }
            }
        }
    }
}

/// The context of a hunk is the up to three rows right before its first change, and the up to
/// three right behind its last one, in their order, each with the text of its new line, or
/// else of its old one.
pub proof fn context_is_three_rows_around(file: FileDiff, hunk: int, first: int, last: int)
    requires
        file.wf(),
        hunk_context(file, hunk) is Some,
        change_bounds(file.rows@, file.hunks@[hunk]) == Some((first, last)),
        forall|i: int|
            0 <= i < file.rows@.len() ==> (#[trigger] file.rows@[i]).new_line is Some
                || file.rows@[i].old_line is Some,
    ensures
        ({
            let context = hunk_context(file, hunk)->0;
            let n = context.context_before.len();
            let m = context.context_after.len();
            &&& n == 3 || n < 3 && n == first
            &&& m == 3 || m < 3 && last + 1 + m == file.rows@.len()
            &&& forall|k: int|
                0 <= k < n ==> (#[trigger] context.context_before[k]) == if file.rows@[first - n
                    + k].new_line is Some {
                    (file.rows@[first - n + k].new_line->0).1@
                } else {
                    (file.rows@[first - n + k].old_line->0).1@
                }
            &&& forall|k: int|
                0 <= k < m ==> (#[trigger] context.context_after[k]) == if file.rows@[last + 1
                    + k].new_line is Some {
                    (file.rows@[last + 1 + k].new_line->0).1@
                } else {
                    (file.rows@[last + 1 + k].old_line->0).1@
                }
        }),
{
    let rows = file.rows@;
    bounds_enclose_the_changes(rows, file.hunks@[hunk]);
    let from = if first < 3 {
        0
    } else {
        first - 3
    };
    let to = if last + 4 < rows.len() {
        last + 4
    } else {
        rows.len() as int
    };
    lemma_texts(rows, from, first);
    lemma_texts(rows, last + 1, to);
    let context = hunk_context(file, hunk)->0;
    assert(context.context_before == row_texts(rows, from, first));
    assert(context.context_after == row_texts(rows, last + 1, to));
    assert forall|k: int| 0 <= k < first - from implies (#[trigger] context.context_before[k])
        == if rows[from + k].new_line is Some {
        (rows[from + k].new_line->0).1@
    } else {
        (rows[from + k].old_line->0).1@
    } by {
        let i = from + k;
        assert(row_texts(rows, from, first)[i - from] == context.context_before[k]);
    }
    assert forall|k: int| 0 <= k < to - (last + 1) implies (#[trigger] context.context_after[k])
        == if rows[last + 1 + k].new_line is Some {
        (rows[last + 1 + k].new_line->0).1@
    } else {
        (rows[last + 1 + k].old_line->0).1@
    } by {
        let i = last + 1 + k;
        assert(row_texts(rows, last + 1, to)[i - (last + 1)] == context.context_after[k]);
    }
}

/// The lines of a hunk are the numbers of its first and of its last changed row: that of the
/// new line of the row, or else that of its old line.
pub proof fn hunk_lines_are_those_of_its_changes(file: FileDiff, hunk: int, first: int, last: int)
    requires
        0 <= hunk < file.hunks@.len(),
        file.wf(),
        file.hunks@[hunk].start <= first <= last < file.hunks@[hunk].end,
        file.rows@[first].change_type != ChangeType::Equal,
        file.rows@[last].change_type != ChangeType::Equal,
        forall|i: int|
            file.hunks@[hunk].start <= i < file.hunks@[hunk].end && (
            #[trigger] file.rows@[i]).change_type != ChangeType::Equal ==> first <= i <= last,
    ensures
        ({
            let (a, b) = (file.rows@[first], file.rows@[last]);
            &&& hunk_line_range(file, hunk) matches Some((from, to))
            &&& a.new_line is Some ==> from == (a.new_line->0).0
            &&& a.new_line is None && a.old_line is Some ==> from == (a.old_line->0).0
            &&& a.new_line is None && a.old_line is None ==> from == 1
            &&& b.new_line is Some ==> to == (b.new_line->0).0
            &&& b.new_line is None && b.old_line is Some ==> to == (b.old_line->0).0
            &&& b.new_line is None && b.old_line is None ==> to == from
        }),
{
    bounds_enclose_the_changes(file.rows@, file.hunks@[hunk]);
}

/// A hunk has lines only where it is one of the file's and holds a changed row.
pub proof fn only_hunks_with_changes_have_lines(file: FileDiff, hunk: int)
    requires
        file.wf(),
    ensures
        hunk_line_range(file, hunk) is Some <==> hunk_context(file, hunk) is Some,
        hunk_context(file, hunk) is Some <==> 0 <= hunk < file.hunks@.len() && exists|i: int|
            file.hunks@[hunk].start <= i < file.hunks@[hunk].end && (
            #[trigger] file.rows@[i]).change_type != ChangeType::Equal,
{
    if 0 <= hunk < file.hunks@.len() {
        bounds_enclose_the_changes(file.rows@, file.hunks@[hunk]);
    }
}

/// Where a file has no such hunk, what is said of it is what would be said of a hunk of all rows.
pub proof fn missing_hunks_stand_for_all_rows(file: FileDiff, hunk: int, other: FileDiff, k: int)
    requires
        hunk < 0 || hunk >= file.hunks@.len(),
        other.rows@ == file.rows@,
        0 <= k < other.hunks@.len(),
        other.hunks@[k].start == 0,
        other.hunks@[k].end == file.rows@.len(),
    ensures
        hunk_context(file, hunk) is None,
        hunk_context_or_all(file, hunk) == hunk_context_or_all(other, k),
        hunk_context(other, k) matches Some(context) ==> hunk_context_or_all(file, hunk) == context,
{
}

proof fn lemma_nothing_changed(rows: Seq<DiffLine>, start: int, end: int)
    requires
        forall|i: int| start <= i < end ==> (#[trigger] rows[i]).change_type is Equal,
    ensures
        changed_lines(rows, start, end).len() == 0,
        removed_numbers(rows, start, end).len() == 0,
        added_numbers(rows, start, end).len() == 0,
    decreases end - start,
{
    if start < end {
        lemma_nothing_changed(rows, start, end - 1);
        assert(rows[end - 1].change_type is Equal);
    }
}

/// A hunk without a change stands with the up to three rows before it and the up to three behind
/// it, and with no lines of its own.
pub proof fn unchanged_hunks_stand_with_their_surroundings(file: FileDiff, hunk: int)
    requires
        file.wf(),
        0 <= hunk < file.hunks@.len(),
        file.hunks@[hunk].end > 0,
        forall|i: int|
            file.hunks@[hunk].start <= i < file.hunks@[hunk].end ==> (
            #[trigger] file.rows@[i]).change_type is Equal,
        forall|i: int|
            0 <= i < file.rows@.len() ==> (#[trigger] file.rows@[i]).new_line is Some
                || file.rows@[i].old_line is Some,
    ensures
        ({
            let c = hunk_context_or_all(file, hunk);
            let (start, end) = (file.hunks@[hunk].start as int, file.hunks@[hunk].end as int);
            let n = c.context_before.len();
            let m = c.context_after.len();
            &&& hunk_context(file, hunk) is None
            &&& c.old_line_range is None && c.new_line_range is None
            &&& c.context_changed.len() == 0 && c.diff_text.len() == 0
            &&& c.change_type == "addition"@
            &&& n == 3 || n < 3 && n == start
            &&& m == 3 || m < 3 && end + m == file.rows@.len()
            &&& forall|k: int|
                0 <= k < n ==> (#[trigger] c.context_before[k]) == if file.rows@[start - n
                    + k].new_line is Some {
                    (file.rows@[start - n + k].new_line->0).1@
                } else {
                    (file.rows@[start - n + k].old_line->0).1@
                }
            &&& forall|k: int|
                0 <= k < m ==> (#[trigger] c.context_after[k]) == if file.rows@[end
                    + k].new_line is Some {
                    (file.rows@[end + k].new_line->0).1@
                } else {
                    (file.rows@[end + k].old_line->0).1@
                }
        }),
{
    let rows = file.rows@;
    let (start, end) = (file.hunks@[hunk].start as int, file.hunks@[hunk].end as int);
    lemma_nothing_changed(rows, start, end);
    bounds_enclose_the_changes(rows, file.hunks@[hunk]);
    let from = if start < 3 {
        0
    } else {
        start - 3
    };
    let to = if end + 3 < rows.len() {
        end + 3
    } else {
        rows.len() as int
    };
    lemma_texts(rows, from, start);
    lemma_texts(rows, end, to);
    let c = hunk_context_or_all(file, hunk);
    assert(c.context_before == row_texts(rows, from, start));
    assert(c.context_after == row_texts(rows, end, to));
    assert forall|k: int| 0 <= k < start - from implies (#[trigger] c.context_before[k])
        == if rows[from + k].new_line is Some {
        (rows[from + k].new_line->0).1@
    } else {
        (rows[from + k].old_line->0).1@
    } by {
        let i = from + k;
        assert(row_texts(rows, from, start)[i - from] == c.context_before[k]);
    }
    assert forall|k: int| 0 <= k < to - end implies (#[trigger] c.context_after[k])
        == if rows[end + k].new_line is Some {
        (rows[end + k].new_line->0).1@
    } else {
        (rows[end + k].old_line->0).1@
    } by {
        let i = end + k;
        assert(row_texts(rows, end, to)[i - end] == c.context_after[k]);
    }
}

} // verus!
