//! What the viewer shows: the files, the marks on their hunks, and the position of the
//! reader.

use std::collections::HashSet;

use vstd::prelude::*;

use crate::diff::{at, files_wf, FileDiff};
use crate::seqs::{find_first, first_where, kept, retain};
use crate::text::strs;

verus! {

/// A point in time, counted from the Unix epoch.
#[derive(Debug, Clone, Copy, PartialEq, Eq, Structural)]
pub struct TimePoint {
    pub secs: u64,
    pub nanos: u32,
}

impl TimePoint {
    /// Whether `self` comes before `other`.
    pub open spec fn is_before(self, other: TimePoint) -> bool {
        self.secs < other.secs || self.secs == other.secs && self.nanos < other.nanos
    }

    /// Whether `self` comes before `other`.
    pub fn before(self, other: TimePoint) -> (r: bool)
        ensures
            r == self.is_before(other),
    {
        self.secs < other.secs || self.secs == other.secs && self.nanos < other.nanos
    }
}

/// A note on a hunk.
#[derive(Debug)]
pub struct HunkAnnotation {
    pub id: String,
    pub file_index: usize,
    pub hunk_index: usize,
    pub content: String,
    pub line_range: (usize, usize),
    pub filename: String,
    pub created_at: TimePoint,
}

impl Clone for HunkAnnotation {
    fn clone(&self) -> (r: Self)
        ensures
            r == *self,
    {
        HunkAnnotation {
            id: self.id.clone(),
            file_index: self.file_index,
            hunk_index: self.hunk_index,
            content: self.content.clone(),
            line_range: self.line_range,
            filename: self.filename.clone(),
            created_at: self.created_at,
        }
    }
}

/// The model of a `HunkAnnotation`.
pub struct AnnotationView {
    pub id: Seq<char>,
    pub file_index: usize,
    pub hunk_index: usize,
    pub content: Seq<char>,
    pub line_range: (usize, usize),
    pub filename: Seq<char>,
    pub created_at: TimePoint,
}

impl View for HunkAnnotation {
    type V = AnnotationView;

    open spec fn view(&self) -> AnnotationView {
        AnnotationView {
            id: self.id@,
            file_index: self.file_index,
            hunk_index: self.hunk_index,
            content: self.content@,
            line_range: self.line_range,
            filename: self.filename@,
            created_at: self.created_at,
        }
    }
}

/// The tags of a hunk.
#[derive(Debug)]
pub struct HunkTags {
    pub file_index: usize,
    pub hunk_index: usize,
    pub filename: String,
    pub tags: Vec<String>,
}

/// The model of a `HunkTags`.
#[verifier::ext_equal]
pub struct HunkTagsView {
    pub file_index: usize,
    pub hunk_index: usize,
    pub filename: Seq<char>,
    pub tags: Seq<Seq<char>>,
}

impl View for HunkTags {
    type V = HunkTagsView;

    open spec fn view(&self) -> HunkTagsView {
        HunkTagsView {
            file_index: self.file_index,
            hunk_index: self.hunk_index,
            filename: self.filename@,
            tags: strs(self.tags@),
        }
    }
}

/// The mark of a hunk that was reviewed.
#[derive(Debug)]
pub struct HunkReview {
    pub file_index: usize,
    pub hunk_index: usize,
    pub filename: String,
}

/// The model of a `HunkReview`.
pub struct HunkReviewView {
    pub file_index: usize,
    pub hunk_index: usize,
    pub filename: Seq<char>,
}

impl View for HunkReview {
    type V = HunkReviewView;

    open spec fn view(&self) -> HunkReviewView {
        HunkReviewView {
            file_index: self.file_index,
            hunk_index: self.hunk_index,
            filename: self.filename@,
        }
    }
}

/// Which hunks are shown, by their tags.
#[derive(Debug)]
pub enum TagFilter {
    Tag(String),
    Untagged,
}

/// The model of a `TagFilter`.
pub enum TagFilterView {
    Tag(Seq<char>),
    Untagged,
}

impl View for TagFilter {
    type V = TagFilterView;

    open spec fn view(&self) -> TagFilterView {
        match self {
            TagFilter::Tag(t) => TagFilterView::Tag(t@),
            TagFilter::Untagged => TagFilterView::Untagged,
        }
    }
}

impl Clone for TagFilter {
    fn clone(&self) -> (r: Self)
        ensures
            r == *self,
    {
        match self {
            TagFilter::Tag(t) => TagFilter::Tag(t.clone()),
            TagFilter::Untagged => TagFilter::Untagged,
        }
    }
}

/// Which hunks are shown, by whether they were reviewed.
#[derive(Debug, Clone, Copy, PartialEq, Eq, Structural)]
pub enum ReviewFilter {
    Reviewed,
    Unreviewed,
    All,
}

/// The half of the screen that keys act on.
#[derive(Debug, Clone, Copy, PartialEq, Eq, Structural)]
pub enum FocusedPanel {
    Sidebar,
    DiffView,
}

/// Which sides of the diff are shown.
#[derive(Debug, Clone, Copy, PartialEq, Eq, Structural)]
pub enum DiffFullscreen {
    SideBySide,
    OldOnly,
    NewOnly,
}

/// The first key of a sequence of two, if it was pressed.
#[derive(Debug, Clone, Copy, PartialEq, Eq, Structural)]
pub enum PendingKey {
    Nothing,
    G,
}

/// A line of the sidebar.
#[derive(Debug)]
pub enum SidebarItem {
    File { path: String, file_index: usize },
    Directory { path: String },
}

impl SidebarItem {
    /// The file that the line stands for.
    pub open spec fn file(self) -> Option<usize> {
        match self {
            SidebarItem::File { path: _, file_index } => Some(file_index),
            SidebarItem::Directory { path: _ } => None,
        }
    }

    /// The file that the line stands for.
    pub fn file_index(&self) -> (r: Option<usize>)
        ensures
            r == self.file(),
    {
        match self {
            SidebarItem::File { path: _, file_index } => Some(*file_index),
            SidebarItem::Directory { path: _ } => None,
        }
    }
}

/// A commit of a stack of commits.
#[derive(Debug)]
pub struct StackedCommitInfo {
    pub commit_id: String,
}

/// Everything that the viewer shows or reacts to.
#[derive(Debug)]
pub struct AppState {
    pub file_diffs: Vec<FileDiff>,
    pub annotations: Vec<HunkAnnotation>,
    pub hunk_tags: Vec<HunkTags>,
    pub tag_inventory: Vec<String>,
    pub tag_filter: Option<TagFilter>,
    pub reviewed_hunks: Vec<HunkReview>,
    pub review_filter: ReviewFilter,
    pub viewed_files: HashSet<usize>,
    pub current_file: usize,
    pub focused_hunk: Option<usize>,
    pub scroll: u16,
    pub h_scroll: u16,
    pub show_sidebar: bool,
    pub sidebar_items: Vec<SidebarItem>,
    pub sidebar_visible: Vec<usize>,
    pub sidebar_selected: usize,
    pub sidebar_scroll: usize,
    pub sidebar_h_scroll: u16,
    pub focused_panel: FocusedPanel,
    pub diff_fullscreen: DiffFullscreen,
    pub pending_key: PendingKey,
    pub needs_reload: bool,
    pub stacked_mode: bool,
    pub stacked_commits: Vec<StackedCommitInfo>,
    pub current_commit_index: usize,
    pub diff_reference: Option<String>,
    pub vcs_name: String,
}

/// A mark that is on the hunk `hunk` of the file `file`.
pub open spec fn annotation_on(file: usize, hunk: usize) -> spec_fn(HunkAnnotation) -> bool {
    |a: HunkAnnotation| a.file_index == file && a.hunk_index == hunk
}

/// An annotation that is on another hunk.
pub open spec fn annotation_elsewhere(file: usize, hunk: usize) -> spec_fn(HunkAnnotation) -> bool {
    |a: HunkAnnotation| !(a.file_index == file && a.hunk_index == hunk)
}

/// Tags that are on the hunk `hunk` of the file `file`.
pub open spec fn tags_on(file: usize, hunk: usize) -> spec_fn(HunkTags) -> bool {
    |t: HunkTags| t.file_index == file && t.hunk_index == hunk
}

/// Tags that are on another hunk.
pub open spec fn tags_elsewhere(file: usize, hunk: usize) -> spec_fn(HunkTags) -> bool {
    |t: HunkTags| !(t.file_index == file && t.hunk_index == hunk)
}

/// A review mark that is on the hunk `hunk` of the file `file`.
pub open spec fn review_on(file: usize, hunk: usize) -> spec_fn(HunkReview) -> bool {
    |r: HunkReview| r.file_index == file && r.hunk_index == hunk
}

/// A review mark that is on another hunk.
pub open spec fn review_elsewhere(file: usize, hunk: usize) -> spec_fn(HunkReview) -> bool {
    |r: HunkReview| !(r.file_index == file && r.hunk_index == hunk)
}

impl AppState {
    /// The hunks are ranges of rows, what the sidebar names exists, the current file
    /// exists where there is a file at all, a stack of commits is not empty, and the
    /// selected line has a number that can be counted on from.
    pub open spec fn wf(&self) -> bool {
        &&& files_wf(self.file_diffs@)
        &&& forall|v: int|
            0 <= v < self.sidebar_visible@.len() ==> (#[trigger] self.sidebar_visible@[v])
                < self.sidebar_items@.len()
        &&& forall|i: int|
            0 <= i < self.sidebar_items@.len() ==> ((#[trigger] self.sidebar_items@[i]).file()
                matches Some(f) ==> f < self.file_diffs@.len())
        &&& self.file_diffs@.len() > 0 ==> self.current_file < self.file_diffs@.len()
        &&& self.stacked_mode ==> self.stacked_commits@.len() > 0
        &&& self.sidebar_selected < usize::MAX
    }

    /// Whether the state is well formed.
    pub fn is_well_formed(&self) -> (r: bool)
        ensures
            r == self.wf(),
    {
        let mut f: usize = 0;
        while f < self.file_diffs.len()
            invariant
                f <= self.file_diffs@.len(),
                forall|k: int| 0 <= k < f ==> (#[trigger] self.file_diffs@[k]).wf(),
            decreases self.file_diffs@.len() - f,
        {
            if !self.file_diffs[f].is_well_formed() {
                assert(!self.file_diffs@[f as int].wf());
                return false;
            }
            f += 1;
        }
        let mut v: usize = 0;
        while v < self.sidebar_visible.len()
            invariant
                v <= self.sidebar_visible@.len(),
                forall|k: int|
                    0 <= k < v ==> (#[trigger] self.sidebar_visible@[k])
                        < self.sidebar_items@.len(),
            decreases self.sidebar_visible@.len() - v,
        {
            if self.sidebar_visible[v] >= self.sidebar_items.len() {
                assert(!(self.sidebar_visible@[v as int] < self.sidebar_items@.len()));
                return false;
            }
            v += 1;
        }
        let mut i: usize = 0;
        while i < self.sidebar_items.len()
            invariant
                i <= self.sidebar_items@.len(),
                forall|k: int|
                    0 <= k < i ==> ((#[trigger] self.sidebar_items@[k]).file() matches Some(file)
                        ==> file < self.file_diffs@.len()),
            decreases self.sidebar_items@.len() - i,
        {
            if let Some(file) = self.sidebar_items[i].file_index() {
                if file >= self.file_diffs.len() {
                    assert(self.sidebar_items@[i as int].file() == Some(file));
                    return false;
                }
            }
            i += 1;
        }
        (self.file_diffs.len() == 0 || self.current_file < self.file_diffs.len()) && (
        !self.stacked_mode || self.stacked_commits.len() > 0) && self.sidebar_selected < usize::MAX
    }

    /// The line of the sidebar that is shown at `row`.
    pub open spec fn item_at(&self, row: int) -> Option<SidebarItem> {
        if 0 <= row < self.sidebar_visible@.len() && self.sidebar_visible@[row]
            < self.sidebar_items@.len() {
            Some(self.sidebar_items@[self.sidebar_visible@[row] as int])
        } else {
            None
        }
    }

    /// The file that is shown at `row` of the sidebar.
    pub open spec fn file_at(&self, row: int) -> Option<usize> {
        match self.item_at(row) {
            Some(item) => item.file(),
            None => None,
        }
    }

    /// The annotation of a hunk.
    pub open spec fn annotation_of(&self, file: usize, hunk: usize) -> Option<HunkAnnotation> {
        match first_where(self.annotations@, 0, annotation_on(file, hunk)) {
            Some(i) => Some(self.annotations@[i]),
            None => None,
        }
    }

    /// The tags of a hunk.
    pub open spec fn tags_of(&self, file: usize, hunk: usize) -> Option<HunkTags> {
        match first_where(self.hunk_tags@, 0, tags_on(file, hunk)) {
            Some(i) => Some(self.hunk_tags@[i]),
            None => None,
        }
    }

    /// Whether a hunk was reviewed.
    pub open spec fn reviewed(&self, file: usize, hunk: usize) -> bool {
        first_where(self.reviewed_hunks@, 0, review_on(file, hunk)) is Some
    }

    /// A viewer at its start, before its sidebar is built: no marks, no filters, and the
    /// first file at its top.
    pub fn new(file_diffs: Vec<FileDiff>, vcs_name: String) -> (r: Self)
        ensures
            r.file_diffs == file_diffs,
            r.vcs_name == vcs_name,
            r.annotations@.len() == 0,
            r.hunk_tags@.len() == 0,
            r.tag_inventory@.len() == 0,
            r.reviewed_hunks@.len() == 0,
            r.viewed_files@ == Set::<usize>::empty(),
            r.sidebar_items@.len() == 0,
            r.sidebar_visible@.len() == 0,
            r.stacked_commits@.len() == 0,
            r == (AppState {
                file_diffs,
                vcs_name,
                annotations: r.annotations,
                hunk_tags: r.hunk_tags,
                tag_inventory: r.tag_inventory,
                reviewed_hunks: r.reviewed_hunks,
                viewed_files: r.viewed_files,
                sidebar_items: r.sidebar_items,
                sidebar_visible: r.sidebar_visible,
                stacked_commits: r.stacked_commits,
                tag_filter: None,
                review_filter: ReviewFilter::All,
                current_file: 0,
                focused_hunk: None,
                scroll: 0,
                h_scroll: 0,
                show_sidebar: true,
                sidebar_selected: 0,
                sidebar_scroll: 0,
                sidebar_h_scroll: 0,
                focused_panel: FocusedPanel::DiffView,
                diff_fullscreen: DiffFullscreen::SideBySide,
                pending_key: PendingKey::Nothing,
                needs_reload: false,
                stacked_mode: false,
                current_commit_index: 0,
                diff_reference: None,
            }),
            files_wf(file_diffs@) ==> r.wf(),
    {
        AppState {
            file_diffs,
            annotations: Vec::new(),
            hunk_tags: Vec::new(),
            tag_inventory: Vec::new(),
            tag_filter: None,
            reviewed_hunks: Vec::new(),
            review_filter: ReviewFilter::All,
            viewed_files: HashSet::new(),
            current_file: 0,
            focused_hunk: None,
            scroll: 0,
            h_scroll: 0,
            show_sidebar: true,
            sidebar_items: Vec::new(),
            sidebar_visible: Vec::new(),
            sidebar_selected: 0,
            sidebar_scroll: 0,
            sidebar_h_scroll: 0,
            focused_panel: FocusedPanel::DiffView,
            diff_fullscreen: DiffFullscreen::SideBySide,
            pending_key: PendingKey::Nothing,
            needs_reload: false,
            stacked_mode: false,
            stacked_commits: Vec::new(),
            current_commit_index: 0,
            diff_reference: None,
            vcs_name,
        }
    }

    /// The line of the sidebar that is shown at `row`.
    pub fn sidebar_item_at_visible(&self, row: usize) -> (r: Option<&SidebarItem>)
        ensures
            match r {
                Some(item) => self.item_at(row as int) == Some(*item),
                None => self.item_at(row as int) is None,
            },
    {
        if row < self.sidebar_visible.len() {
            let index = self.sidebar_visible[row];
            if index < self.sidebar_items.len() {
                return Some(&self.sidebar_items[index]);
            }
        }
        None
    }

    /// The file that is shown at `row` of the sidebar.
    pub fn sidebar_file_at(&self, row: usize) -> (r: Option<usize>)
        ensures
            r == self.file_at(row as int),
    {
        match self.sidebar_item_at_visible(row) {
            Some(item) => item.file_index(),
            None => None,
        }
    }

    /// The position of the annotation of a hunk.
    pub fn annotation_index(&self, file_index: usize, hunk_index: usize) -> (r: Option<usize>)
        ensures
            at(r) == first_where(
                self.annotations@,
                0,
                annotation_on(file_index, hunk_index),
            ),
            r matches Some(i) ==> i < self.annotations@.len(),
    {
        let test = |a: &HunkAnnotation| -> (b: bool)
            ensures
                b == annotation_on(file_index, hunk_index)(*a),
        {
            a.file_index == file_index && a.hunk_index == hunk_index
        };
        find_first(&self.annotations, test, Ghost(annotation_on(file_index, hunk_index)))
    }

    /// The annotation of a hunk.
    pub fn get_annotation(&self, file_index: usize, hunk_index: usize) -> (r: Option<
        &HunkAnnotation,
    >)
        ensures
            match r {
                Some(a) => self.annotation_of(file_index, hunk_index) == Some(*a),
                None => self.annotation_of(file_index, hunk_index) is None,
            },
    {
        match self.annotation_index(file_index, hunk_index) {
            Some(i) => Some(&self.annotations[i]),
            None => None,
        }
    }

    /// Takes the annotations of a hunk away.
    pub fn remove_annotation(&mut self, file_index: usize, hunk_index: usize)
        ensures
            final(self).annotations@ == kept(
                old(self).annotations@,
                annotation_elsewhere(file_index, hunk_index),
            ),
            *final(self) == (AppState { annotations: final(self).annotations, ..*old(self) }),
    {
        let test = |a: &HunkAnnotation| -> (b: bool)
            ensures
                b == annotation_elsewhere(file_index, hunk_index)(*a),
        {
            !(a.file_index == file_index && a.hunk_index == hunk_index)
        };
        retain(&mut self.annotations, test, Ghost(annotation_elsewhere(file_index, hunk_index)));
    }

    /// Makes `annotation` the only one of its hunk.
    pub fn set_annotation(&mut self, annotation: HunkAnnotation)
        ensures
            final(self).annotations@ == kept(
                old(self).annotations@,
                annotation_elsewhere(annotation.file_index, annotation.hunk_index),
            ).push(annotation),
            *final(self) == (AppState { annotations: final(self).annotations, ..*old(self) }),
    {
        self.remove_annotation(annotation.file_index, annotation.hunk_index);
        self.annotations.push(annotation);
    }

    /// The tags of a hunk.
    pub fn get_hunk_tags(&self, file_index: usize, hunk_index: usize) -> (r: Option<&HunkTags>)
        ensures
            match r {
                Some(t) => self.tags_of(file_index, hunk_index) == Some(*t),
                None => self.tags_of(file_index, hunk_index) is None,
            },
    {
        let test = |t: &HunkTags| -> (b: bool)
            ensures
                b == tags_on(file_index, hunk_index)(*t),
        {
            t.file_index == file_index && t.hunk_index == hunk_index
        };
        let found = find_first(&self.hunk_tags, test, Ghost(tags_on(file_index, hunk_index)));
        match found {
            Some(i) => Some(&self.hunk_tags[i]),
            None => None,
        }
    }

    /// Takes the tags of a hunk away.
    pub fn remove_hunk_tags(&mut self, file_index: usize, hunk_index: usize)
        ensures
            final(self).hunk_tags@ == kept(
                old(self).hunk_tags@,
                tags_elsewhere(file_index, hunk_index),
            ),
            *final(self) == (AppState { hunk_tags: final(self).hunk_tags, ..*old(self) }),
    {
        let test = |t: &HunkTags| -> (b: bool)
            ensures
                b == tags_elsewhere(file_index, hunk_index)(*t),
        {
            !(t.file_index == file_index && t.hunk_index == hunk_index)
        };
        retain(&mut self.hunk_tags, test, Ghost(tags_elsewhere(file_index, hunk_index)));
    }

    /// Makes `tags` the only ones of their hunk.
    pub fn set_hunk_tags(&mut self, tags: HunkTags)
        ensures
            final(self).hunk_tags@ == kept(
                old(self).hunk_tags@,
                tags_elsewhere(tags.file_index, tags.hunk_index),
            ).push(tags),
            *final(self) == (AppState { hunk_tags: final(self).hunk_tags, ..*old(self) }),
    {
        self.remove_hunk_tags(tags.file_index, tags.hunk_index);
        self.hunk_tags.push(tags);
    }

    /// Whether a hunk was reviewed.
    pub fn is_reviewed(&self, file_index: usize, hunk_index: usize) -> (r: bool)
        ensures
            r == self.reviewed(file_index, hunk_index),
    {
        let test = |m: &HunkReview| -> (b: bool)
            ensures
                b == review_on(file_index, hunk_index)(*m),
        {
            m.file_index == file_index && m.hunk_index == hunk_index
        };
        find_first(&self.reviewed_hunks, test, Ghost(review_on(file_index, hunk_index))).is_some()
    }

    /// Takes the review marks of a hunk away.
    pub fn remove_hunk_review(&mut self, file_index: usize, hunk_index: usize)
        ensures
            final(self).reviewed_hunks@ == kept(
                old(self).reviewed_hunks@,
                review_elsewhere(file_index, hunk_index),
            ),
            *final(self) == (AppState { reviewed_hunks: final(self).reviewed_hunks, ..*old(self) }),
    {
        let test = |m: &HunkReview| -> (b: bool)
            ensures
                b == review_elsewhere(file_index, hunk_index)(*m),
        {
            !(m.file_index == file_index && m.hunk_index == hunk_index)
        };
        retain(&mut self.reviewed_hunks, test, Ghost(review_elsewhere(file_index, hunk_index)));
    }

    /// The commit of the stack that is shown.
    pub fn current_commit(&self) -> (r: Option<&StackedCommitInfo>)
        ensures
            match r {
                Some(c) => self.current_commit_index < self.stacked_commits@.len() && *c
                    == self.stacked_commits@[self.current_commit_index as int],
                None => self.current_commit_index >= self.stacked_commits@.len(),
            },
    {
        if self.current_commit_index < self.stacked_commits.len() {
            Some(&self.stacked_commits[self.current_commit_index])
        } else {
            None
        }
    }
}

} // verus!
