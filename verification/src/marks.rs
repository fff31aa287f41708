//! Stored marks on hunks: how a mark remembers its hunk, and how it finds it again.

use vstd::prelude::*;

use crate::diff::{
    at, build_hunk_context, files_wf, find_matching_hunk, has_changed_line, hunk_context, in_order,
    matching_hunk, matching_hunk_is_in_file, stored_context_finds_its_hunk,
    unchanged_hunks_have_no_lines, FileDiff,
};
use crate::text::strs;

verus! {

/// What a stored mark remembers of its hunk.
#[derive(Debug)]
pub struct HunkMark {
    pub filename: String,
    pub hunk_index: usize,
    pub old_line_range: Option<(usize, usize)>,
    pub new_line_range: Option<(usize, usize)>,
    pub context_changed: Vec<String>,
}

/// The model of a `HunkMark`.
#[verifier::ext_equal]
pub struct MarkView {
    pub filename: Seq<char>,
    pub hunk_index: usize,
    pub old_line_range: Option<(usize, usize)>,
    pub new_line_range: Option<(usize, usize)>,
    pub context_changed: Seq<Seq<char>>,
}

impl View for HunkMark {
    type V = MarkView;

    open spec fn view(&self) -> MarkView {
        MarkView {
            filename: self.filename@,
            hunk_index: self.hunk_index,
            old_line_range: self.old_line_range,
            new_line_range: self.new_line_range,
            context_changed: strs(self.context_changed@),
        }
    }
}

/// The last of the first `n` files with a name.
pub open spec fn last_named(files: Seq<FileDiff>, n: int, name: Seq<char>) -> Option<int>
    decreases n,
{
    if n <= 0 {
        None
    } else if files[n - 1].filename@ == name {
        Some(n - 1)
    } else {
        last_named(files, n - 1, name)
    }
}

/// Whether a mark remembers more than the position of its hunk.
pub open spec fn has_context(mark: MarkView) -> bool {
    mark.new_line_range is Some || mark.old_line_range is Some || mark.context_changed.len() > 0
}

/// The hunk of a file that a mark belongs to: by what it remembers of the hunk, or else
/// by its position.
pub open spec fn hunk_of_mark(file: FileDiff, mark: MarkView) -> Option<int> {
    let matched = if has_context(mark) {
        matching_hunk(file, mark.new_line_range, mark.old_line_range, mark.context_changed)
    } else {
        None
    };
    if matched is Some {
        matched
    } else if mark.hunk_index < file.hunks@.len() {
        Some(mark.hunk_index as int)
    } else {
        None
    }
}

/// The file and the hunk that a mark belongs to.
pub open spec fn place_of_mark(files: Seq<FileDiff>, mark: MarkView) -> Option<(int, int)> {
    match last_named(files, files.len() as int, mark.filename) {
        Some(f) => match hunk_of_mark(files[f], mark) {
            Some(h) => Some((f, h)),
            None => None,
        },
        None => None,
    }
}

/// What a new mark on a hunk remembers.
pub open spec fn mark_of_hunk(file: FileDiff, hunk: usize) -> MarkView {
    match hunk_context(file, hunk as int) {
        Some(context) => MarkView {
            filename: file.filename@,
            hunk_index: hunk,
            old_line_range: context.old_line_range,
            new_line_range: context.new_line_range,
            context_changed: context.context_changed,
        },
        None => MarkView {
            filename: file.filename@,
            hunk_index: hunk,
            old_line_range: None,
            new_line_range: None,
            context_changed: seq![],
        },
    }
}

/// A mark on the hunk, by its position.
pub open spec fn marks_position(mark: MarkView, file: FileDiff, hunk: usize) -> bool {
    mark.filename == file.filename@ && mark.hunk_index == hunk
}

/// A mark on the hunk, by what it remembers of it.
pub open spec fn marks_context(mark: MarkView, file: FileDiff, hunk: usize) -> bool {
    mark.filename == file.filename@ && matching_hunk(
        file,
        mark.new_line_range,
        mark.old_line_range,
        mark.context_changed,
    ) == Some(hunk as int)
}

/// A mark that leads to the hunk, and so is shown on it.
pub open spec fn leads_to(mark: MarkView, file: FileDiff, hunk: usize) -> bool {
    mark.filename == file.filename@ && hunk_of_mark(file, mark) == Some(hunk as int)
}

/// The last file with a name.
fn last_file_named(files: &Vec<FileDiff>, name: &String) -> (r: Option<usize>)
    ensures
        at(r) == last_named(files@, files@.len() as int, name@),
        r matches Some(f) ==> f < files@.len(),
{
    let mut n: usize = files.len();
    while n > 0
        invariant
            n <= files@.len(),
            last_named(files@, files@.len() as int, name@) == last_named(files@, n as int, name@),
        decreases n,
    {
        if files[n - 1].filename == *name {
            return Some(n - 1);
        }
        n -= 1;
    }
    None
}

/// The hunk of a file that a mark belongs to.
fn find_hunk_of_mark(files: &Vec<FileDiff>, file_index: usize, mark: &HunkMark) -> (r: Option<
    usize,
>)
    requires
        files_wf(files@),
        file_index < files@.len(),
    ensures
        at(r) == hunk_of_mark(files@[file_index as int], mark@),
{
    assert(strs(mark.context_changed@).len() == mark.context_changed@.len());
    let mut matched: Option<usize> = None;
    if mark.new_line_range.is_some() || mark.old_line_range.is_some() || mark.context_changed.len()
        > 0 {
        matched =
        find_matching_hunk(
            files,
            file_index,
            mark.new_line_range,
            mark.old_line_range,
            &mark.context_changed,
        );
    }
    match matched {
        Some(h) => Some(h),
        None => if mark.hunk_index < files[file_index].hunks.len() {
            Some(mark.hunk_index)
        } else {
            None
        },
    }
}

/// The file and the hunk that a mark belongs to.
pub fn find_place_of_mark(files: &Vec<FileDiff>, mark: &HunkMark) -> (r: Option<(usize, usize)>)
    requires
        files_wf(files@),
    ensures
        match r {
            Some((f, h)) => place_of_mark(files@, mark@) == Some((f as int, h as int)),
            None => place_of_mark(files@, mark@) is None,
        },
{
    match last_file_named(files, &mark.filename) {
        Some(f) => match find_hunk_of_mark(files, f, mark) {
            Some(h) => Some((f, h)),
            None => None,
        },
        None => None,
    }
}

/// What a new mark on a hunk remembers.
pub fn new_mark(files: &Vec<FileDiff>, file_index: usize, hunk_index: usize) -> (r: HunkMark)
    requires
        files_wf(files@),
        file_index < files@.len(),
    ensures
        r@ == mark_of_hunk(files@[file_index as int], hunk_index),
{
    let filename = files[file_index].filename.clone();
    match build_hunk_context(files, file_index, hunk_index) {
        Some(context) => HunkMark {
            filename,
            hunk_index,
            old_line_range: context.old_line_range,
            new_line_range: context.new_line_range,
            context_changed: context.context_changed,
        },
        None => HunkMark {
            filename,
            hunk_index,
            old_line_range: None,
            new_line_range: None,
            context_changed: Vec::new(),
        },
    }
}

/// Whether a mark is on the hunk by its position.
pub fn is_at_position(mark: &HunkMark, file: &FileDiff, hunk_index: usize) -> (r: bool)
    ensures
        r == marks_position(mark@, *file, hunk_index),
{
    mark.filename == file.filename && mark.hunk_index == hunk_index
}

/// Whether a mark is on the hunk by what it remembers of it.
pub fn is_in_context(
    mark: &HunkMark,
    files: &Vec<FileDiff>,
    file_index: usize,
    hunk_index: usize,
) -> (r: bool)
    requires
        files_wf(files@),
        file_index < files@.len(),
    ensures
        r == marks_context(mark@, files@[file_index as int], hunk_index),
{
    if mark.filename != files[file_index].filename {
        return false;
    }
    match find_matching_hunk(
        files,
        file_index,
        mark.new_line_range,
        mark.old_line_range,
        &mark.context_changed,
    ) {
        Some(h) => h == hunk_index,
        None => false,
    }
}

/// Whether a mark leads to the hunk.
pub fn is_leading_to(
    mark: &HunkMark,
    files: &Vec<FileDiff>,
    file_index: usize,
    hunk_index: usize,
) -> (r: bool)
    requires
        files_wf(files@),
        file_index < files@.len(),
    ensures
        r == leads_to(mark@, files@[file_index as int], hunk_index),
{
    if mark.filename != files[file_index].filename {
        return false;
    }
    match find_hunk_of_mark(files, file_index, mark) {
        Some(h) => h == hunk_index,
        None => false,
    }
}

proof fn lemma_last_named(files: Seq<FileDiff>, n: int, name: Seq<char>)
    requires
        n <= files.len(),
    ensures
        last_named(files, n, name) matches Some(f) ==> 0 <= f < n && files[f].filename@ == name,
    decreases n,
{
    if n > 0 {
        lemma_last_named(files, n - 1, name);
    }
}

/// A mark that is shown on a hunk leads to it.
pub proof fn shown_marks_lead_to_their_hunk(files: Seq<FileDiff>, mark: MarkView)
    ensures
        place_of_mark(files, mark) matches Some((f, h)) ==> {
            &&& 0 <= f < files.len()
            &&& 0 <= h < files[f].hunks@.len()
            &&& leads_to(mark, files[f], h as usize)
        },
{
    lemma_last_named(files, files.len() as int, mark.filename);
    if let Some((f, h)) = place_of_mark(files, mark) {
        let file = files[f];
        matching_hunk_is_in_file(
            file,
            mark.new_line_range,
            mark.old_line_range,
            mark.context_changed,
        );
        assert(file.hunks.len() == file.hunks@.len());
    }
}

/// A new mark on a hunk has a place in its file, and in a diff in order that is the hunk, as
/// long as the diff is the same.
pub proof fn new_mark_finds_its_hunk(files: Seq<FileDiff>, file: int, hunk: usize)
    requires
        0 <= file < files.len(),
        last_named(files, files.len() as int, files[file].filename@) == Some(file),
        hunk < files[file].hunks@.len(),
    ensures
        ({
            let mark = mark_of_hunk(files[file], hunk);
            &&& hunk_of_mark(files[file], mark) matches Some(h)
            &&& 0 <= h < files[file].hunks@.len()
            &&& place_of_mark(files, mark) == Some((file, h))
            &&& in_order(files[file]) ==> h == hunk
        }),
{
    let mark = mark_of_hunk(files[file], hunk);
    matching_hunk_is_in_file(
        files[file],
        mark.new_line_range,
        mark.old_line_range,
        mark.context_changed,
    );
    if in_order(files[file]) {
        if has_changed_line(files[file], hunk as int) {
            stored_context_finds_its_hunk(files[file], hunk as int);
        } else {
            unchanged_hunks_have_no_lines(files[file], hunk as int);
        }
    }
}

} // verus!
