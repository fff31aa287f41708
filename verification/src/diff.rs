//! File diffs as rows of old and new lines, grouped into hunks; what surrounds a hunk,
//! and how a hunk is found again after the file has changed.

use vstd::prelude::*;

use crate::text::{concat2, strs};

verus! {

/// How many rows before and after the changes of a hunk are kept as its context.
pub const CONTEXT_LINES: usize = 3;

/// What a row of a diff shows.
#[derive(Debug, Clone, Copy, PartialEq, Eq, Structural)]
pub enum ChangeType {
    Equal,
    Delete,
    Insert,
    Modified,
}

/// What happened to a file.
#[derive(Debug, Clone, Copy, PartialEq, Eq, Structural)]
pub enum FileStatus {
    Added,
    Deleted,
    Modified,
}

/// One row of a diff shown side by side: a numbered line of the old file, one of the
/// new file, or both.
#[derive(Debug)]
pub struct DiffLine {
    pub old_line: Option<(usize, String)>,
    pub new_line: Option<(usize, String)>,
    pub change_type: ChangeType,
}

/// The rows from `start` up to, and without, `end`.
#[derive(Debug, Clone, Copy, PartialEq, Eq, Structural)]
pub struct HunkRange {
    pub start: usize,
    pub end: usize,
}

/// The diff of one file: its contents, its rows, and the ranges of rows that are hunks.
#[derive(Debug)]
pub struct FileDiff {
    pub filename: String,
    pub old_content: String,
    pub new_content: String,
    pub status: FileStatus,
    pub is_binary: bool,
    pub rows: Vec<DiffLine>,
    pub hunks: Vec<HunkRange>,
}

impl FileDiff {
    /// Every hunk is a range of the rows.
    pub open spec fn wf(&self) -> bool {
        forall|h: int|
            0 <= h < self.hunks@.len() ==> (#[trigger] self.hunks@[h]).start <= self.hunks@[h].end
                <= self.rows@.len()
    }

    /// Whether every hunk is a range of the rows.
    pub fn is_well_formed(&self) -> (r: bool)
        ensures
            r == self.wf(),
    {
        let mut h: usize = 0;
        while h < self.hunks.len()
            invariant
                h <= self.hunks@.len(),
                forall|k: int|
                    0 <= k < h ==> (#[trigger] self.hunks@[k]).start <= self.hunks@[k].end
                        <= self.rows@.len(),
            decreases self.hunks@.len() - h,
        {
            let hunk = self.hunks[h];
            if hunk.start > hunk.end || hunk.end > self.rows.len() {
                assert(!(self.hunks@[h as int].start <= self.hunks@[h as int].end
                    <= self.rows@.len()));
                return false;
            }
            h += 1;
        }
        true
    }
}

/// Every file of the list is well formed.
pub open spec fn files_wf(files: Seq<FileDiff>) -> bool {
    forall|f: int| 0 <= f < files.len() ==> (#[trigger] files[f]).wf()
}

/// What is kept of a hunk besides its position.
#[derive(Debug)]
pub struct HunkContext {
    pub old_line_range: Option<(usize, usize)>,
    pub new_line_range: Option<(usize, usize)>,
    pub context_before: Vec<String>,
    pub context_changed: Vec<String>,
    pub context_after: Vec<String>,
    pub diff_text: String,
    pub change_type: String,
}

/// The model of a `HunkContext`.
#[verifier::ext_equal]
pub struct HunkContextView {
    pub old_line_range: Option<(usize, usize)>,
    pub new_line_range: Option<(usize, usize)>,
    pub context_before: Seq<Seq<char>>,
    pub context_changed: Seq<Seq<char>>,
    pub context_after: Seq<Seq<char>>,
    pub diff_text: Seq<char>,
    pub change_type: Seq<char>,
}

impl View for HunkContext {
    type V = HunkContextView;

    open spec fn view(&self) -> HunkContextView {
        HunkContextView {
            old_line_range: self.old_line_range,
            new_line_range: self.new_line_range,
            context_before: strs(self.context_before@),
            context_changed: strs(self.context_changed@),
            context_after: strs(self.context_after@),
            diff_text: self.diff_text@,
            change_type: self.change_type@,
        }
    }
}

// ---------------------------------------------------------------------------
// The changes of a range of rows
// ---------------------------------------------------------------------------
/// The line of one side with `mark` before it, if there is one.
pub open spec fn marked(side: Option<(usize, String)>, mark: Seq<char>) -> Seq<Seq<char>> {
    match side {
        Some((_, text)) => seq![mark + text@],
        None => seq![],
    }
}

/// The number of the line of one side, if there is one.
pub open spec fn number(side: Option<(usize, String)>) -> Seq<usize> {
    match side {
        Some((n, _)) => seq![n],
        None => seq![],
    }
}

/// A row that shows the removal of an old line.
pub open spec fn removes(row: DiffLine) -> bool {
    row.change_type == ChangeType::Delete || row.change_type == ChangeType::Modified
}

/// A row that shows the addition of a new line.
pub open spec fn adds(row: DiffLine) -> bool {
    row.change_type == ChangeType::Insert || row.change_type == ChangeType::Modified
}

/// The removed and the added line of a row, marked as such.
pub open spec fn row_changes(row: DiffLine) -> Seq<Seq<char>> {
    (if removes(row) {
        marked(row.old_line, "- "@)
    } else {
        seq![]
    }) + (if adds(row) {
        marked(row.new_line, "+ "@)
    } else {
        seq![]
    })
}

/// The marked changes of the rows from `start` up to `end`.
pub open spec fn changed_lines(rows: Seq<DiffLine>, start: int, end: int) -> Seq<Seq<char>>
    decreases end - start,
{
    if start >= end {
        seq![]
    } else {
        changed_lines(rows, start, end - 1) + row_changes(rows[end - 1])
    }
}

/// The numbers of the removed lines in the rows from `start` up to `end`.
pub open spec fn removed_numbers(rows: Seq<DiffLine>, start: int, end: int) -> Seq<usize>
    decreases end - start,
{
    if start >= end {
        seq![]
    } else if removes(rows[end - 1]) {
        removed_numbers(rows, start, end - 1) + number(rows[end - 1].old_line)
    } else {
        removed_numbers(rows, start, end - 1)
    }
}

/// The numbers of the added lines in the rows from `start` up to `end`.
pub open spec fn added_numbers(rows: Seq<DiffLine>, start: int, end: int) -> Seq<usize>
    decreases end - start,
{
    if start >= end {
        seq![]
    } else if adds(rows[end - 1]) {
        added_numbers(rows, start, end - 1) + number(rows[end - 1].new_line)
    } else {
        added_numbers(rows, start, end - 1)
    }
}

/// The first and the last of a list of numbers.
pub open spec fn first_and_last(numbers: Seq<usize>) -> Option<(usize, usize)> {
    if numbers.len() == 0 {
        None
    } else {
        Some((numbers[0], numbers.last()))
    }
}

/// The lines one after the other, each ended by a line feed.
pub open spec fn text_of_lines(lines: Seq<Seq<char>>) -> Seq<char>
    decreases lines.len(),
{
    if lines.len() == 0 {
        seq![]
    } else {
        (text_of_lines(lines.drop_last()) + lines.last()).push('\n')
    }
}

/// The text of a row: that of the new line, or else of the old one.
pub open spec fn row_text(row: DiffLine) -> Seq<Seq<char>> {
    match (row.new_line, row.old_line) {
        (Some((_, text)), _) => seq![text@],
        (None, Some((_, text))) => seq![text@],
        (None, None) => seq![],
    }
}

/// The texts of the rows from `start` up to `end`.
pub open spec fn row_texts(rows: Seq<DiffLine>, start: int, end: int) -> Seq<Seq<char>>
    decreases end - start,
{
    if start >= end {
        seq![]
    } else {
        row_texts(rows, start, end - 1) + row_text(rows[end - 1])
    }
}

/// The first row from `start` on that is not equal, or `end`.
pub open spec fn first_change(rows: Seq<DiffLine>, start: int, end: int) -> int
    decreases end - start,
{
    if start >= end {
        end
    } else if rows[start].change_type != ChangeType::Equal {
        start
    } else {
        first_change(rows, start + 1, end)
    }
}

/// The last row before `end` that is not equal, or `start - 1`.
pub open spec fn last_change(rows: Seq<DiffLine>, start: int, end: int) -> int
    decreases end - start,
{
    if start >= end {
        start - 1
    } else if rows[end - 1].change_type != ChangeType::Equal {
        end - 1
    } else {
        last_change(rows, start, end - 1)
    }
}

/// The first and the last changed row of a range, if it holds a change.
pub open spec fn change_bounds(rows: Seq<DiffLine>, range: HunkRange) -> Option<(int, int)> {
    let (start, end) = (range.start as int, range.end as int);
    if last_change(rows, start, end) < start {
        None
    } else {
        Some((first_change(rows, start, end), last_change(rows, start, end)))
    }
}

/// The word for what the changes of a range do.
pub open spec fn change_word(removed: bool, added: bool) -> Seq<char> {
    if removed && added {
        "modification"@
    } else if removed {
        "deletion"@
    } else {
        "addition"@
    }
}

/// The context of a range of rows whose changes lie between the rows `first` and `last`.
pub open spec fn context_of(
    rows: Seq<DiffLine>,
    range: HunkRange,
    first: int,
    last: int,
) -> HunkContextView {
    let (start, end) = (range.start as int, range.end as int);
    let removed = removed_numbers(rows, start, end);
    let added = added_numbers(rows, start, end);
    let lines = changed_lines(rows, start, end);
    HunkContextView {
        old_line_range: first_and_last(removed),
        new_line_range: first_and_last(added),
        context_before: row_texts(
            rows,
            if first < CONTEXT_LINES {
                0
            } else {
                first - CONTEXT_LINES
            },
            first,
        ),
        context_changed: lines,
        context_after: row_texts(
            rows,
            last + 1,
            if last + 1 + CONTEXT_LINES < rows.len() {
                last + 1 + CONTEXT_LINES
            } else {
                rows.len() as int
            },
        ),
        diff_text: text_of_lines(lines),
        change_type: change_word(removed.len() > 0, added.len() > 0),
    }
}

/// The context of a hunk that exists and holds a change.
pub open spec fn hunk_context(file: FileDiff, hunk: int) -> Option<HunkContextView> {
    if 0 <= hunk < file.hunks@.len() {
        match change_bounds(file.rows@, file.hunks@[hunk]) {
            Some((first, last)) => Some(context_of(file.rows@, file.hunks@[hunk], first, last)),
            None => None,
        }
    } else {
        None
    }
}

/// The rows of a hunk, or all rows where there is no such hunk.
pub open spec fn hunk_or_all(file: FileDiff, hunk: int) -> HunkRange {
    if 0 <= hunk < file.hunks@.len() {
        file.hunks@[hunk]
    } else {
        HunkRange { start: 0, end: file.rows@.len() as usize }
    }
}

/// The context of a hunk; of the whole file where there is no such hunk. Where the
/// rows hold no change they all count as changed.
pub open spec fn hunk_context_or_all(file: FileDiff, hunk: int) -> HunkContextView {
    let range = hunk_or_all(file, hunk);
    match change_bounds(file.rows@, range) {
        Some((first, last)) => context_of(file.rows@, range, first, last),
        None => context_of(
            file.rows@,
            range,
            range.start as int,
            if range.end == 0 {
                0
            } else {
                range.end - 1
            },
        ),
    }
}

proof fn lemma_bounds(rows: Seq<DiffLine>, start: int, end: int)
    ensures
        start <= end ==> start <= first_change(rows, start, end) <= end,
        start <= end ==> start - 1 <= last_change(rows, start, end) < end,
    decreases end - start,
{
    if start < end {
        lemma_bounds(rows, start + 1, end);
        lemma_bounds(rows, start, end - 1);
    }
}

proof fn lemma_first_before_last(rows: Seq<DiffLine>, start: int, end: int)
    requires
        start <= end,
    ensures
        last_change(rows, start, end) < start <==> first_change(rows, start, end) == end,
        first_change(rows, start, end) < end ==> first_change(rows, start, end) <= last_change(
            rows,
            start,
            end,
        ),
    decreases end - start,
{
    lemma_bounds(rows, start, end);
    if start < end {
        lemma_first_extends(rows, start, end - 1);
        lemma_first_before_last(rows, start, end - 1);
        lemma_bounds(rows, start, end - 1);
    }
}

proof fn lemma_first_extends(rows: Seq<DiffLine>, start: int, end: int)
    requires
        start <= end,
    ensures
        first_change(rows, start, end) < end ==> first_change(rows, start, end + 1) == first_change(
            rows,
            start,
            end,
        ),
        first_change(rows, start, end) == end ==> first_change(rows, start, end + 1) == (if rows[end].change_type
            != ChangeType::Equal {
            end
        } else {
            end + 1
        }),
    decreases end - start,
{
    lemma_bounds(rows, start, end);
    if start < end {
        lemma_first_extends(rows, start + 1, end);
        lemma_bounds(rows, start + 1, end);
    } else {
        assert(first_change(rows, end + 1, end + 1) == end + 1);
    }
}

/// The first and the last changed row of a range.
pub fn hunk_change_bounds(rows: &Vec<DiffLine>, range: HunkRange) -> (r: Option<(usize, usize)>)
    requires
        range.start <= range.end <= rows@.len(),
    ensures
        match r {
            Some((a, b)) => change_bounds(rows@, range) == Some((a as int, b as int)) && a <= b
                < rows@.len(),
            None => change_bounds(rows@, range) is None,
        },
{
    let mut first: usize = range.end;
    let mut last: usize = range.end;
    let mut found = false;
    let mut i: usize = range.start;
    while i < range.end
        invariant
            range.start <= i <= range.end <= rows@.len(),
            found <==> first_change(rows@, range.start as int, i as int) < i,
            found ==> first == first_change(rows@, range.start as int, i as int),
            found ==> last == last_change(rows@, range.start as int, i as int),
            found <==> last_change(rows@, range.start as int, i as int) >= range.start,
        decreases range.end - i,
    {
        proof {
            lemma_first_extends(rows@, range.start as int, i as int);
            lemma_bounds(rows@, range.start as int, i as int);
        }
        if rows[i].change_type != ChangeType::Equal {
            if !found {
                first = i;
            }
            found = true;
            last = i;
        }
        i += 1;
    }
    proof {
        lemma_bounds(rows@, range.start as int, range.end as int);
        lemma_first_before_last(rows@, range.start as int, range.end as int);
    }
    if found {
        Some((first, last))
    } else {
        None
    }
}

/// The text of a row.
fn row_text_of(row: &DiffLine) -> (r: Option<String>)
    ensures
        row_text(*row) == (match r {
            Some(t) => seq![t@],
            None => seq![],
        }),
{
    match &row.new_line {
        Some((_, text)) => Some(text.clone()),
        None => match &row.old_line {
            Some((_, text)) => Some(text.clone()),
            None => None,
        },
    }
}

/// The texts of the rows from `start` up to `end`.
fn collect_row_texts(rows: &Vec<DiffLine>, start: usize, end: usize) -> (r: Vec<String>)
    requires
        end <= rows@.len(),
    ensures
        strs(r@) == row_texts(rows@, start as int, end as int),
{
    let mut r: Vec<String> = Vec::new();
    let mut i: usize = start;
    while i < end
        invariant
            start <= i <= end || i == start > end,
            end <= rows@.len(),
            strs(r@) == row_texts(rows@, start as int, i as int),
        decreases end - i,
    {
        let ghost before = strs(r@);
        match row_text_of(&rows[i]) {
            Some(t) => {
                r.push(t);
                assert(strs(r@) == before + seq![t@]);
            },
            None => {
                assert(strs(r@) == before + Seq::<Seq<char>>::empty());
            },
        }
        i += 1;
    }
    r
}

proof fn lemma_text_of_push(lines: Seq<Seq<char>>, line: Seq<char>)
    ensures
        text_of_lines(lines.push(line)) == (text_of_lines(lines) + line).push('\n'),
{
    assert(lines.push(line).drop_last() == lines);
}

/// What is gathered from the rows of a range, one after the other.
struct Changes {
    lines: Vec<String>,
    text: String,
    removed: Option<(usize, usize)>,
    added: Option<(usize, usize)>,
}

/// The range of line numbers `range`, with the number `n` put at its end.
fn extended(range: Option<(usize, usize)>, n: usize) -> (r: Option<(usize, usize)>)
    ensures
        r == Some(
            (match range {
                Some((a, _)) => a,
                None => n,
            }, n),
        ),
{
    match range {
        Some((a, _)) => Some((a, n)),
        None => Some((n, n)),
    }
}

impl Changes {
    spec fn holds(&self, lines: Seq<Seq<char>>, removed: Seq<usize>, added: Seq<usize>) -> bool {
        &&& strs(self.lines@) == lines
        &&& self.text@ == text_of_lines(lines)
        &&& self.removed == first_and_last(removed)
        &&& self.added == first_and_last(added)
    }

    /// Appends one line.
    fn add_line(&mut self, mark: &str, text: &String)
        requires
            old(self).text@ == text_of_lines(strs(old(self).lines@)),
        ensures
            strs(final(self).lines@) == strs(old(self).lines@).push(mark@ + text@),
            final(self).text@ == text_of_lines(strs(final(self).lines@)),
            final(self).removed == old(self).removed,
            final(self).added == old(self).added,
    {
        let line = concat2(mark, text.as_str());
        let ghost before = strs(self.lines@);
        self.text.append(line.as_str());
        self.text.push('\n');
        self.lines.push(line);
        proof {
            assert(strs(self.lines@) == before.push(mark@ + text@));
            lemma_text_of_push(before, mark@ + text@);
        }
    }
}

proof fn lemma_first_and_last_push(numbers: Seq<usize>, n: usize)
    ensures
        first_and_last(numbers + seq![n]) == Some(
            (match first_and_last(numbers) {
                Some((a, _)) => a,
                None => n,
            }, n),
        ),
{
}

/// The changes of the rows of a range.
fn gather_changes(rows: &Vec<DiffLine>, range: HunkRange) -> (r: Changes)
    requires
        range.start <= range.end <= rows@.len(),
    ensures
        r.holds(
            changed_lines(rows@, range.start as int, range.end as int),
            removed_numbers(rows@, range.start as int, range.end as int),
            added_numbers(rows@, range.start as int, range.end as int),
        ),
{
    let mut c = Changes { lines: Vec::new(), text: String::new(), removed: None, added: None };
    assert(strs(c.lines@) == Seq::<Seq<char>>::empty());
    let mut i: usize = range.start;
    while i < range.end
        invariant
            range.start <= i <= range.end <= rows@.len(),
            c.holds(
                changed_lines(rows@, range.start as int, i as int),
                removed_numbers(rows@, range.start as int, i as int),
                added_numbers(rows@, range.start as int, i as int),
            ),
        decreases range.end - i,
    {
        let row = &rows[i];
        let ghost lines = changed_lines(rows@, range.start as int, i as int);
        let ghost removed = removed_numbers(rows@, range.start as int, i as int);
        let ghost added = added_numbers(rows@, range.start as int, i as int);
        let ghost mut old_part: Seq<Seq<char>> = seq![];
        if row.change_type == ChangeType::Delete || row.change_type == ChangeType::Modified {
            match &row.old_line {
                Some((n, text)) => {
                    c.add_line("- ", text);
                    c.removed = extended(c.removed, *n);
                    proof {
                        lemma_first_and_last_push(removed, *n);
                    }
                },
                None => {
                    assert(removed + Seq::<usize>::empty() == removed);
                },
            }
            proof {
                old_part = marked(row.old_line, "- "@);
            }
        }
        assert(strs(c.lines@) == lines + old_part);
        if row.change_type == ChangeType::Insert || row.change_type == ChangeType::Modified {
            match &row.new_line {
                Some((n, text)) => {
                    c.add_line("+ ", text);
                    c.added = extended(c.added, *n);
                    proof {
                        lemma_first_and_last_push(added, *n);
                    }
                },
                None => {
                    assert(added + Seq::<usize>::empty() == added);
                },
            }
            assert(strs(c.lines@) == lines + old_part + marked(row.new_line, "+ "@));
        }
        assert(strs(c.lines@) == lines + row_changes(*row));
        i += 1;
    }
    c
}

/// The context of the rows of a range whose changes lie between `first` and `last`.
fn context_of_range(
    rows: &Vec<DiffLine>,
    range: HunkRange,
    first: usize,
    last: usize,
) -> (r: HunkContext)
    requires
        range.start <= range.end <= rows@.len(),
        first <= rows@.len(),
        last <= rows@.len(),
    ensures
        r@ == context_of(rows@, range, first as int, last as int),
{
    let before = collect_row_texts(rows, first.saturating_sub(CONTEXT_LINES), first);
    let c = gather_changes(rows, range);
    let after_end: usize = if rows.len() - last > CONTEXT_LINES + 1 {
        last + 1 + CONTEXT_LINES
    } else {
        rows.len()
    };
    let after_start: usize = if last < rows.len() {
        last + 1
    } else {
        rows.len()
    };
    let after = collect_row_texts(rows, after_start, after_end);
    let word = if c.removed.is_some() && c.added.is_some() {
        "modification"
    } else if c.removed.is_some() {
        "deletion"
    } else {
        "addition"
    };
    HunkContext {
        old_line_range: c.removed,
        new_line_range: c.added,
        context_before: before,
        context_changed: c.lines,
        context_after: after,
        diff_text: c.text,
        change_type: word.to_string(),
    }
}

/// The context of a hunk of a file, where both exist and the hunk holds a change.
pub fn build_hunk_context(files: &Vec<FileDiff>, file_index: usize, hunk_index: usize) -> (r: Option<
    HunkContext,
>)
    requires
        files_wf(files@),
    ensures
        match r {
            Some(c) => file_index < files@.len() && hunk_context(
                files@[file_index as int],
                hunk_index as int,
            ) == Some(c@),
            None => file_index >= files@.len() || hunk_context(
                files@[file_index as int],
                hunk_index as int,
            ) is None,
        },
{
    if file_index >= files.len() {
        return None;
    }
    let file = &files[file_index];
    if hunk_index >= file.hunks.len() {
        return None;
    }
    let range = file.hunks[hunk_index];
    match hunk_change_bounds(&file.rows, range) {
        Some((first, last)) => Some(context_of_range(&file.rows, range, first, last)),
        None => None,
    }
}

/// The context of a hunk of a file, or of the whole file where it has no such hunk.
pub fn extract_hunk_context(files: &Vec<FileDiff>, file_index: usize, hunk_index: usize) -> (r:
    HunkContext)
    requires
        files_wf(files@),
        file_index < files@.len(),
    ensures
        r@ == hunk_context_or_all(files@[file_index as int], hunk_index as int),
{
    let file = &files[file_index];
    let range = if hunk_index < file.hunks.len() {
        file.hunks[hunk_index]
    } else {
        HunkRange { start: 0, end: file.rows.len() }
    };
    match hunk_change_bounds(&file.rows, range) {
        Some((first, last)) => context_of_range(&file.rows, range, first, last),
        None => context_of_range(&file.rows, range, range.start, range.end.saturating_sub(1)),
    }
}

// ---------------------------------------------------------------------------
// The lines of a hunk
// ---------------------------------------------------------------------------
/// The number of a row's new line, or else of its old one.
pub open spec fn row_number(row: DiffLine) -> Option<usize> {
    match (row.new_line, row.old_line) {
        (Some((n, _)), _) => Some(n),
        (None, Some((n, _))) => Some(n),
        (None, None) => None,
    }
}

/// The numbers of the first and the last changed line of a hunk, as they are shown.
pub open spec fn hunk_line_range(file: FileDiff, hunk: int) -> Option<(usize, usize)> {
    if 0 <= hunk < file.hunks@.len() {
        match change_bounds(file.rows@, file.hunks@[hunk]) {
            Some((first, last)) => {
                let start = row_number(file.rows@[first]).unwrap_or(1);
                Some((start, row_number(file.rows@[last]).unwrap_or(start)))
            },
            None => None,
        }
    } else {
        None
    }
}

/// The number of a row, or `other` where it has none.
fn row_number_or(row: &DiffLine, other: usize) -> (r: usize)
    ensures
        r == row_number(*row).unwrap_or(other),
{
    match &row.new_line {
        Some((n, _)) => *n,
        None => match &row.old_line {
            Some((n, _)) => *n,
            None => other,
        },
    }
}

/// The first and the last line number of a hunk, where it exists and holds a change.
pub fn compute_hunk_line_range(files: &Vec<FileDiff>, file_index: usize, hunk_index: usize) -> (r:
    Option<(usize, usize)>)
    requires
        files_wf(files@),
    ensures
        r == (if file_index < files@.len() {
            hunk_line_range(files@[file_index as int], hunk_index as int)
        } else {
            None
        }),
{
    if file_index >= files.len() {
        return None;
    }
    let file = &files[file_index];
    if hunk_index >= file.hunks.len() {
        return None;
    }
    match hunk_change_bounds(&file.rows, file.hunks[hunk_index]) {
        Some((first, last)) => {
            let start = row_number_or(&file.rows[first], 1);
            Some((start, row_number_or(&file.rows[last], start)))
        },
        None => None,
    }
}

// ---------------------------------------------------------------------------
// Finding a hunk again
// ---------------------------------------------------------------------------
/// A changed row whose line on the one side has a number in the range.
pub open spec fn row_in_range(row: DiffLine, range: (usize, usize), use_new: bool) -> bool {
    &&& row.change_type != ChangeType::Equal
    &&& match if use_new {
        row.new_line
    } else {
        row.old_line
    } {
        Some((n, _)) => range.0 <= n <= range.1,
        None => false,
    }
}

/// A hunk with a changed row in the range.
pub open spec fn hunk_in_range(
    rows: Seq<DiffLine>,
    hunk: HunkRange,
    range: (usize, usize),
    use_new: bool,
) -> bool {
    exists|i: int| hunk.start <= i < hunk.end && row_in_range(#[trigger] rows[i], range, use_new)
}

/// The first hunk from `from` on with a changed row in the range.
pub open spec fn first_in_range(
    file: FileDiff,
    from: int,
    range: (usize, usize),
    use_new: bool,
) -> Option<int>
    decreases file.hunks@.len() - from,
{
    if from >= file.hunks@.len() {
        None
    } else if hunk_in_range(file.rows@, file.hunks@[from], range, use_new) {
        Some(from)
    } else {
        first_in_range(file, from + 1, range, use_new)
    }
}

/// How many of the lines of `a` occur in `b`.
pub open spec fn common_lines(a: Seq<Seq<char>>, b: Seq<Seq<char>>) -> nat
    decreases a.len(),
{
    if a.len() == 0 {
        0
    } else if b.contains(a.last()) {
        common_lines(a.drop_last(), b) + 1
    } else {
        common_lines(a.drop_last(), b)
    }
}

/// At least four fifths of the longer list are lines of `a` that occur in `b`.
pub open spec fn similar(a: Seq<Seq<char>>, b: Seq<Seq<char>>) -> bool {
    &&& a.len() > 0
    &&& b.len() > 0
    &&& 5 * common_lines(a, b) >= 4 * (if a.len() >= b.len() {
        a.len()
    } else {
        b.len()
    })
}

/// The first hunk from `from` on whose changes are similar to `lines`.
pub open spec fn first_similar(file: FileDiff, from: int, lines: Seq<Seq<char>>) -> Option<int>
    decreases file.hunks@.len() - from,
{
    if from >= file.hunks@.len() {
        None
    } else if similar(
        changed_lines(
            file.rows@,
            file.hunks@[from].start as int,
            file.hunks@[from].end as int,
        ),
        lines,
    ) {
        Some(from)
    } else {
        first_similar(file, from + 1, lines)
    }
}

/// The hunk that stored marks belong to: by the range of new lines, or else by that of
/// old lines, or else by the changed lines themselves.
pub open spec fn matching_hunk(
    file: FileDiff,
    new_range: Option<(usize, usize)>,
    old_range: Option<(usize, usize)>,
    lines: Seq<Seq<char>>,
) -> Option<int> {
    let by_new = match new_range {
        Some(range) => first_in_range(file, 0, range, true),
        None => None,
    };
    let by_old = match old_range {
        Some(range) => first_in_range(file, 0, range, false),
        None => None,
    };
    if by_new is Some {
        by_new
    } else if by_old is Some {
        by_old
    } else {
        first_similar(file, 0, lines)
    }
}

proof fn lemma_found_in_file(
    file: FileDiff,
    from: int,
    range: (usize, usize),
    use_new: bool,
    lines: Seq<Seq<char>>,
)
    requires
        0 <= from,
    ensures
        first_in_range(file, from, range, use_new) matches Some(h) ==> from <= h
            < file.hunks@.len(),
        first_similar(file, from, lines) matches Some(h) ==> from <= h < file.hunks@.len(),
    decreases file.hunks@.len() - from,
{
    if from < file.hunks@.len() {
        lemma_found_in_file(file, from + 1, range, use_new, lines);
    }
}

/// The hunk that stored marks belong to is one of the file's.
pub proof fn matching_hunk_is_in_file(
    file: FileDiff,
    new_range: Option<(usize, usize)>,
    old_range: Option<(usize, usize)>,
    lines: Seq<Seq<char>>,
)
    ensures
        matching_hunk(file, new_range, old_range, lines) matches Some(h) ==> 0 <= h
            < file.hunks@.len(),
{
    lemma_found_in_file(file, 0, new_range->0, true, lines);
    lemma_found_in_file(file, 0, old_range->0, false, lines);
}

/// A position in the model, as a `usize`.
pub open spec fn at(r: Option<usize>) -> Option<int> {
    match r {
        Some(i) => Some(i as int),
        None => None,
    }
}

/// The first hunk with a changed row in the range.
pub fn match_hunk_by_range(file: &FileDiff, range: (usize, usize), use_new: bool) -> (r: Option<
    usize,
>)
    requires
        file.wf(),
    ensures
        at(r) == first_in_range(*file, 0, range, use_new),
        r matches Some(h) ==> h < file.hunks@.len(),
{
    let mut h: usize = 0;
    while h < file.hunks.len()
        invariant
            file.wf(),
            h <= file.hunks@.len(),
            first_in_range(*file, 0, range, use_new) == first_in_range(
                *file,
                h as int,
                range,
                use_new,
            ),
        decreases file.hunks@.len() - h,
    {
        let hunk = file.hunks[h];
        let mut i: usize = hunk.start;
        while i < hunk.end
            invariant
                file.wf(),
                h < file.hunks@.len(),
                hunk == file.hunks@[h as int],
                hunk.start <= i <= hunk.end,
                forall|k: int|
                    hunk.start <= k < i ==> !row_in_range(#[trigger] file.rows@[k], range, use_new),
                first_in_range(*file, 0, range, use_new) == first_in_range(
                    *file,
                    h as int,
                    range,
                    use_new,
                ),
            decreases hunk.end - i,
        {
            let row = &file.rows[i];
            if row.change_type != ChangeType::Equal {
                let line = if use_new {
                    &row.new_line
                } else {
                    &row.old_line
                };
                if let Some((n, _)) = line {
                    if *n >= range.0 && *n <= range.1 {
                        assert(row_in_range(file.rows@[i as int], range, use_new));
                        return Some(h);
                    }
                }
            }
            i += 1;
        }
        h += 1;
    }
    None
}

/// The marked changes of the rows from `start` up to `end`.
pub fn hunk_changed_lines(rows: &Vec<DiffLine>, start: usize, end: usize) -> (r: Vec<String>)
    requires
        start <= end <= rows@.len(),
    ensures
        strs(r@) == changed_lines(rows@, start as int, end as int),
{
    gather_changes(rows, HunkRange { start, end }).lines
}

/// Whether a text is among the lines.
pub fn has_line(lines: &Vec<String>, line: &String) -> (r: bool)
    ensures
        r == strs(lines@).contains(line@),
{
    let mut i: usize = 0;
    while i < lines.len()
        invariant
            i <= lines@.len(),
            forall|k: int| 0 <= k < i ==> #[trigger] strs(lines@)[k] != line@,
        decreases lines@.len() - i,
    {
        if lines[i] == *line {
            assert(strs(lines@)[i as int] == line@);
            return true;
        }
        i += 1;
    }
    false
}

/// Whether two lists of changed lines are similar.
pub fn contexts_similar(a: &Vec<String>, b: &Vec<String>) -> (r: bool)
    ensures
        r == similar(strs(a@), strs(b@)),
{
    if a.len() == 0 || b.len() == 0 {
        return false;
    }
    let mut common: usize = 0;
    let mut i: usize = 0;
    while i < a.len()
        invariant
            common <= i <= a@.len(),
            common == common_lines(strs(a@).take(i as int), strs(b@)),
        decreases a@.len() - i,
    {
        assert(strs(a@).take(i + 1).drop_last() == strs(a@).take(i as int));
        if has_line(b, &a[i]) {
            common += 1;
        }
        i += 1;
    }
    assert(strs(a@).take(i as int) == strs(a@));
    let longer: usize = if a.len() >= b.len() {
        a.len()
    } else {
        b.len()
    };
    5 * (common as u128) >= 4 * (longer as u128)
}

/// The hunk of a file that stored marks belong to.
pub fn find_matching_hunk(
    files: &Vec<FileDiff>,
    file_index: usize,
    new_line_range: Option<(usize, usize)>,
    old_line_range: Option<(usize, usize)>,
    context_changed: &Vec<String>,
) -> (r: Option<usize>)
    requires
        files_wf(files@),
    ensures
        at(r) == (if file_index < files@.len() {
            matching_hunk(
                files@[file_index as int],
                new_line_range,
                old_line_range,
                strs(context_changed@),
            )
        } else {
            None
        }),
        r matches Some(h) ==> file_index < files@.len() && h
            < files@[file_index as int].hunks@.len(),
{
    if file_index >= files.len() {
        return None;
    }
    let file = &files[file_index];
    if let Some(range) = new_line_range {
        let found = match_hunk_by_range(file, range, true);
        if found.is_some() {
            return found;
        }
    }
    if let Some(range) = old_line_range {
        let found = match_hunk_by_range(file, range, false);
        if found.is_some() {
            return found;
        }
    }
    let mut h: usize = 0;
    while h < file.hunks.len()
        invariant
            file.wf(),
            h <= file.hunks@.len(),
            first_similar(*file, 0, strs(context_changed@)) == first_similar(
                *file,
                h as int,
                strs(context_changed@),
            ),
        ensures
            h == file.hunks@.len() && first_similar(*file, 0, strs(context_changed@)) is None
                || h < file.hunks@.len() && first_similar(*file, 0, strs(context_changed@)) == Some(
                h as int,
            ),
        decreases file.hunks@.len() - h,
    {
        let hunk = file.hunks[h];
        let lines = hunk_changed_lines(&file.rows, hunk.start, hunk.end);
        if contexts_similar(&lines, context_changed) {
            break;
        }
        h += 1;
    }
    if h < file.hunks.len() {
        Some(h)
    } else {
        None
    }
}

// ---------------------------------------------------------------------------
// A hunk is found by its own context
// ---------------------------------------------------------------------------
/// The number of a line of one side.
pub open spec fn side_number(row: DiffLine, use_new: bool) -> Option<usize> {
    match if use_new {
        row.new_line
    } else {
        row.old_line
    } {
        Some((n, _)) => Some(n),
        None => None,
    }
}

/// The line numbers of one side grow from row to row.
pub open spec fn numbers_grow(rows: Seq<DiffLine>, use_new: bool) -> bool {
    forall|i: int, j: int|
        0 <= i < j < rows.len() && side_number(#[trigger] rows[i], use_new) is Some && side_number(
            #[trigger] rows[j],
            use_new,
        ) is Some ==> side_number(rows[i], use_new)->0 < side_number(rows[j], use_new)->0
}

/// A diff in order, as it is computed from the contents of a file: the lines of each side
/// are numbered in order, and the hunks follow each other without overlap.
pub open spec fn in_order(file: FileDiff) -> bool {
    &&& file.wf()
    &&& numbers_grow(file.rows@, true)
    &&& numbers_grow(file.rows@, false)
    &&& forall|h: int, k: int|
        0 <= h < k < file.hunks@.len() ==> (#[trigger] file.hunks@[h]).end <= (
        #[trigger] file.hunks@[k]).start
}

/// Whether a hunk holds a line that was removed or added.
pub open spec fn has_changed_line(file: FileDiff, hunk: int) -> bool {
    0 <= hunk < file.hunks@.len() && changed_lines(
        file.rows@,
        file.hunks@[hunk].start as int,
        file.hunks@[hunk].end as int,
    ).len() > 0
}

spec fn side_changes(row: DiffLine, use_new: bool) -> bool {
    if use_new {
        adds(row)
    } else {
        removes(row)
    }
}

spec fn side_numbers(rows: Seq<DiffLine>, start: int, end: int, use_new: bool) -> Seq<usize> {
    if use_new {
        added_numbers(rows, start, end)
    } else {
        removed_numbers(rows, start, end)
    }
}

proof fn lemma_numbers_come_from_rows(rows: Seq<DiffLine>, start: int, end: int, use_new: bool)
    requires
        0 <= start <= end <= rows.len(),
    ensures
        first_and_last(side_numbers(rows, start, end, use_new)) matches Some((a, b)) ==> exists|
            i: int,
            j: int,
        |
            start <= i < end && start <= j < end && side_changes(#[trigger] rows[i], use_new)
                && side_number(rows[i], use_new) == Some(a) && side_changes(
                #[trigger] rows[j],
                use_new,
            ) && side_number(rows[j], use_new) == Some(b),
    decreases end - start,
{
    if start < end {
        lemma_numbers_come_from_rows(rows, start, end - 1, use_new);
        let before = side_numbers(rows, start, end - 1, use_new);
        let all = side_numbers(rows, start, end, use_new);
        let row = rows[end - 1];
        if side_changes(row, use_new) && side_number(row, use_new) is Some {
            let n = side_number(row, use_new)->0;
            assert(all == before + seq![n]);
            lemma_first_and_last_push(before, n);
            if before.len() > 0 {
                let (a, b) = first_and_last(before)->0;
                let (i, j) = choose|i: int, j: int|
                    start <= i < end - 1 && start <= j < end - 1 && side_changes(
                        #[trigger] rows[i],
                        use_new,
                    ) && side_number(rows[i], use_new) == Some(a) && side_changes(
                        #[trigger] rows[j],
                        use_new,
                    ) && side_number(rows[j], use_new) == Some(b);
                assert(side_number(rows[i], use_new) == Some(a));
                assert(side_number(rows[end - 1], use_new) == Some(n));
            } else {
                assert(side_number(rows[end - 1], use_new) == Some(n));
            }
        } else {
            assert(all =~= before);
        }
    }
}

proof fn lemma_lines_have_numbers(rows: Seq<DiffLine>, start: int, end: int)
    requires
        0 <= start <= end <= rows.len(),
    ensures
        changed_lines(rows, start, end).len() > 0 <==> added_numbers(rows, start, end).len() > 0
            || removed_numbers(rows, start, end).len() > 0,
        changed_lines(rows, start, end).len() > 0 ==> last_change(rows, start, end) >= start,
    decreases end - start,
{
    if start < end {
        lemma_lines_have_numbers(rows, start, end - 1);
    }
}

proof fn lemma_first_in_range_is(
    file: FileDiff,
    from: int,
    hunk: int,
    range: (usize, usize),
    use_new: bool,
)
    requires
        0 <= from <= hunk < file.hunks@.len(),
        hunk_in_range(file.rows@, file.hunks@[hunk], range, use_new),
        forall|k: int|
            0 <= k < hunk ==> !hunk_in_range(
                file.rows@,
                #[trigger] file.hunks@[k],
                range,
                use_new,
            ),
    ensures
        first_in_range(file, from, range, use_new) == Some(hunk),
    decreases hunk - from,
{
    if from < hunk {
        lemma_first_in_range_is(file, from + 1, hunk, range, use_new);
    }
}

proof fn lemma_own_range(file: FileDiff, hunk: int, range: (usize, usize), use_new: bool)
    requires
        in_order(file),
        0 <= hunk < file.hunks@.len(),
        first_and_last(
            side_numbers(
                file.rows@,
                file.hunks@[hunk].start as int,
                file.hunks@[hunk].end as int,
                use_new,
            ),
        ) == Some(range),
    ensures
        first_in_range(file, 0, range, use_new) == Some(hunk),
{
    let rows = file.rows@;
    let (start, end) = (file.hunks@[hunk].start as int, file.hunks@[hunk].end as int);
    lemma_numbers_come_from_rows(rows, start, end, use_new);
    let (i, j) = choose|i: int, j: int|
        start <= i < end && start <= j < end && side_changes(#[trigger] rows[i], use_new)
            && side_number(rows[i], use_new) == Some(range.0) && side_changes(
            #[trigger] rows[j],
            use_new,
        ) && side_number(rows[j], use_new) == Some(range.1);
    lemma_grows_within(rows, start, end, use_new);
    assert(row_in_range(rows[i], range, use_new));
    assert forall|k: int| 0 <= k < hunk implies !hunk_in_range(
        rows,
        #[trigger] file.hunks@[k],
        range,
        use_new,
    ) by {
        if hunk_in_range(rows, file.hunks@[k], range, use_new) {
            let r = choose|r: int|
                file.hunks@[k].start <= r < file.hunks@[k].end && row_in_range(
                    #[trigger] rows[r],
                    range,
                    use_new,
                );
            assert(side_number(rows[r], use_new)->0 < side_number(rows[i], use_new)->0);
        }
    }
    lemma_first_in_range_is(file, 0, hunk, range, use_new);
}

/// The first of the numbers of a range of rows is not above the last.
proof fn lemma_grows_within(rows: Seq<DiffLine>, start: int, end: int, use_new: bool)
    requires
        0 <= start <= end <= rows.len(),
        numbers_grow(rows, use_new),
    ensures
        first_and_last(side_numbers(rows, start, end, use_new)) matches Some((a, b)) ==> a <= b,
    decreases end - start,
{
    if start < end {
        lemma_grows_within(rows, start, end - 1, use_new);
        lemma_numbers_come_from_rows(rows, start, end - 1, use_new);
        let before = side_numbers(rows, start, end - 1, use_new);
        let row = rows[end - 1];
        if side_changes(row, use_new) && side_number(row, use_new) is Some {
            lemma_first_and_last_push(before, side_number(row, use_new)->0);
        } else {
            assert(side_numbers(rows, start, end, use_new) =~= before);
        }
    }
}

/// A hunk without a line that was removed or added has no line ranges.
pub proof fn unchanged_hunks_have_no_lines(file: FileDiff, hunk: int)
    requires
        file.wf(),
        !has_changed_line(file, hunk),
    ensures
        hunk_context(file, hunk) matches Some(context) ==> context.new_line_range is None
            && context.old_line_range is None && context.context_changed.len() == 0,
{
    if 0 <= hunk < file.hunks@.len() {
        let range = file.hunks@[hunk];
        lemma_lines_have_numbers(file.rows@, range.start as int, range.end as int);
    }
}

/// What was stored of a hunk leads back to that hunk, as long as the diff is the same.
pub proof fn stored_context_finds_its_hunk(file: FileDiff, hunk: int)
    requires
        in_order(file),
        has_changed_line(file, hunk),
    ensures
        hunk_context(file, hunk) matches Some(context) && matching_hunk(
            file,
            context.new_line_range,
            context.old_line_range,
            context.context_changed,
        ) == Some(hunk),
{
    let rows = file.rows@;
    let range = file.hunks@[hunk];
    let (start, end) = (range.start as int, range.end as int);
    lemma_lines_have_numbers(rows, start, end);
    let context = hunk_context(file, hunk)->0;
    if context.new_line_range is Some {
        lemma_own_range(file, hunk, context.new_line_range->0, true);
    } else {
        lemma_own_range(file, hunk, context.old_line_range->0, false);
    }
}

} // verus!
