//! Annotations that outlive the viewer: the files that hold them, how they move between
//! the files when the base commit changes or a commit is opened, and how they find their
//! hunk again.

use vstd::prelude::*;

use crate::clock::current_timestamp;
use crate::diff::{
    at, extract_hunk_context, files_wf, find_matching_hunk, hunk_context_or_all, matching_hunk,
    FileDiff,
};
use crate::seqs::{
    find_first, find_first_view, first_where, first_where_is_first, kept, kept_all, kept_shorter,
    retain_view, views,
};
use crate::state::{AnnotationView, AppState, HunkAnnotation, TimePoint};
use crate::storage::{commit_file_name, StorageError, ORPHANS_FILE, WORKING_TREE_FILE};
use crate::text::{opt_str, str_eq, strs};

verus! {

/// The version of the annotation files that are written.
pub const STORAGE_VERSION: u32 = 1;

/// The kind of an annotation file, and where an annotation was made.
#[derive(Debug, Clone, Copy, PartialEq, Eq, Structural)]
pub enum AnnotationScope {
    WorkingTree,
    Commit,
    Orphans,
}

/// What a diff compares: the working tree with its base commit, or a commit with its
/// parent.
#[derive(Debug)]
pub enum DiffScope {
    WorkingTree { base_commit_id: String },
    Commit { commit_id: String },
}

/// The model of a `DiffScope`.
pub enum ScopeView {
    WorkingTree(Seq<char>),
    Commit(Seq<char>),
}

impl View for DiffScope {
    type V = ScopeView;

    open spec fn view(&self) -> ScopeView {
        match self {
            DiffScope::WorkingTree { base_commit_id } => ScopeView::WorkingTree(base_commit_id@),
            DiffScope::Commit { commit_id } => ScopeView::Commit(commit_id@),
        }
    }
}

impl Clone for DiffScope {
    fn clone(&self) -> (r: Self)
        ensures
            r == *self,
    {
        match self {
            DiffScope::WorkingTree { base_commit_id } => DiffScope::WorkingTree {
                base_commit_id: base_commit_id.clone(),
            },
            DiffScope::Commit { commit_id } => DiffScope::Commit { commit_id: commit_id.clone() },
        }
    }
}

/// An annotation as it is stored: the note, and what is needed to find its hunk again.
#[derive(Debug)]
pub struct PersistentAnnotation {
    pub id: String,
    pub filename: String,
    pub old_line_range: Option<(usize, usize)>,
    pub new_line_range: Option<(usize, usize)>,
    pub context_before: Vec<String>,
    pub context_changed: Vec<String>,
    pub context_after: Vec<String>,
    pub diff_text: String,
    pub content: String,
    pub created_at: u64,
    pub diff_reference: Option<String>,
    pub change_type: String,
    pub origin_scope: Option<AnnotationScope>,
    pub origin_commit_id: Option<String>,
    pub origin_base_commit_id: Option<String>,
}

/// The model of a `PersistentAnnotation`.
#[verifier::ext_equal]
pub struct StoredView {
    pub id: Seq<char>,
    pub filename: Seq<char>,
    pub old_line_range: Option<(usize, usize)>,
    pub new_line_range: Option<(usize, usize)>,
    pub context_before: Seq<Seq<char>>,
    pub context_changed: Seq<Seq<char>>,
    pub context_after: Seq<Seq<char>>,
    pub diff_text: Seq<char>,
    pub content: Seq<char>,
    pub created_at: u64,
    pub diff_reference: Option<Seq<char>>,
    pub change_type: Seq<char>,
    pub origin_scope: Option<AnnotationScope>,
    pub origin_commit_id: Option<Seq<char>>,
    pub origin_base_commit_id: Option<Seq<char>>,
}

impl View for PersistentAnnotation {
    type V = StoredView;

    open spec fn view(&self) -> StoredView {
        StoredView {
            id: self.id@,
            filename: self.filename@,
            old_line_range: self.old_line_range,
            new_line_range: self.new_line_range,
            context_before: strs(self.context_before@),
            context_changed: strs(self.context_changed@),
            context_after: strs(self.context_after@),
            diff_text: self.diff_text@,
            content: self.content@,
            created_at: self.created_at,
            diff_reference: opt_str(self.diff_reference),
            change_type: self.change_type@,
            origin_scope: self.origin_scope,
            origin_commit_id: opt_str(self.origin_commit_id),
            origin_base_commit_id: opt_str(self.origin_base_commit_id),
        }
    }
}

/// The contents of an annotation file.
#[derive(Debug)]
pub struct AnnotationFile {
    pub version: u32,
    pub last_updated: u64,
    pub scope: AnnotationScope,
    pub commit_id: Option<String>,
    pub base_commit_id: Option<String>,
    pub annotations: Vec<PersistentAnnotation>,
}

/// The model of an `AnnotationFile`.
#[verifier::ext_equal]
pub struct AnnotationFileView {
    pub version: u32,
    pub last_updated: u64,
    pub scope: AnnotationScope,
    pub commit_id: Option<Seq<char>>,
    pub base_commit_id: Option<Seq<char>>,
    pub annotations: Seq<StoredView>,
}

impl View for AnnotationFile {
    type V = AnnotationFileView;

    open spec fn view(&self) -> AnnotationFileView {
        AnnotationFileView {
            version: self.version,
            last_updated: self.last_updated,
            scope: self.scope,
            commit_id: opt_str(self.commit_id),
            base_commit_id: opt_str(self.base_commit_id),
            annotations: views(self.annotations@),
        }
    }
}

// ---------------------------------------------------------------------------
// One annotation file
// ---------------------------------------------------------------------------
/// An annotation with the given id.
pub open spec fn has_id(id: Seq<char>) -> spec_fn(StoredView) -> bool {
    |a: StoredView| a.id == id
}

/// An annotation with another id.
pub open spec fn has_other_id(id: Seq<char>) -> spec_fn(StoredView) -> bool {
    |a: StoredView| a.id != id
}

/// A file without annotations.
pub open spec fn empty_file(scope: AnnotationScope, now: u64) -> AnnotationFileView {
    AnnotationFileView {
        version: STORAGE_VERSION,
        last_updated: now,
        scope,
        commit_id: None,
        base_commit_id: None,
        annotations: seq![],
    }
}

/// The annotations with `a` in the place of the first one with its id, or at the end
/// where none has it.
pub open spec fn upserted(annotations: Seq<StoredView>, a: StoredView) -> Seq<StoredView> {
    match first_where(annotations, 0, has_id(a.id)) {
        Some(i) => annotations.update(i, a),
        None => annotations.push(a),
    }
}

/// The file with `a` upserted at the time `now`.
pub open spec fn file_upserted(
    file: AnnotationFileView,
    a: StoredView,
    now: u64,
) -> AnnotationFileView {
    AnnotationFileView { annotations: upserted(file.annotations, a), last_updated: now, ..file }
}

/// Whether an annotation with the id is in the file.
pub open spec fn holds_id(annotations: Seq<StoredView>, id: Seq<char>) -> bool {
    first_where(annotations, 0, has_id(id)) is Some
}

/// The file without the annotations with the id; the time is set only where there is one.
pub open spec fn file_without(
    file: AnnotationFileView,
    id: Seq<char>,
    now: u64,
) -> AnnotationFileView {
    if holds_id(file.annotations, id) {
        AnnotationFileView {
            annotations: kept(file.annotations, has_other_id(id)),
            last_updated: now,
            ..file
        }
    } else {
        file
    }
}

impl AnnotationFile {
    /// A file without annotations.
    pub fn new_at(scope: AnnotationScope, now: u64) -> (r: Self)
        ensures
            r@ == empty_file(scope, now),
    {
        AnnotationFile {
            version: STORAGE_VERSION,
            last_updated: now,
            scope,
            commit_id: None,
            base_commit_id: None,
            annotations: Vec::new(),
        }
    }

    /// A file without annotations, made now.
    pub fn new(scope: AnnotationScope) -> (r: Self)
        ensures
            r@ == empty_file(scope, r.last_updated),
    {
        AnnotationFile::new_at(scope, current_timestamp())
    }

    /// Sets the time of the last change.
    pub fn touch_at(&mut self, now: u64)
        ensures
            *final(self) == (AnnotationFile { last_updated: now, ..*old(self) }),
    {
        self.last_updated = now;
    }

    /// Sets the time of the last change to now. The time is what the machine's clock says,
    /// so the contract leaves it open; nothing else changes.
    pub fn touch(&mut self)
        ensures
            *final(self) == (AnnotationFile {
                last_updated: final(self).last_updated,
                ..*old(self)
            }),
    {
        self.touch_at(current_timestamp());
    }

    /// Puts an annotation in the place of the one with its id, or at the end.
    pub fn upsert_at(&mut self, annotation: PersistentAnnotation, now: u64)
        ensures
            final(self)@ == file_upserted(old(self)@, annotation@, now),
    {
        let ghost all = views(self.annotations@);
        let ghost a = annotation@;
        let test = |other: &PersistentAnnotation| -> (b: bool)
            ensures
                b == has_id(annotation@.id)(other@),
        {
            other.id == annotation.id
        };
        let found = find_first_view(&self.annotations, test, Ghost(has_id(annotation@.id)));
        match found {
            Some(i) => {
                self.annotations.set(i, annotation);
                assert(views(self.annotations@) == all.update(i as int, a));
            },
            None => {
                self.annotations.push(annotation);
                assert(views(self.annotations@) == all.push(a));
            },
        }
        self.touch_at(now);
    }

    /// Puts an annotation in the place of the one with its id, or at the end, now.
    pub fn upsert(&mut self, annotation: PersistentAnnotation)
        ensures
            final(self)@ == file_upserted(old(self)@, annotation@, final(self).last_updated),
    {
        let now = current_timestamp();
        self.upsert_at(annotation, now);
    }

    /// Removes the annotations with an id, and says whether there was one.
    pub fn remove_by_id_at(&mut self, id: &str, now: u64) -> (removed: bool)
        ensures
            removed == holds_id(old(self)@.annotations, id@),
            final(self)@ == file_without(old(self)@, id@, now),
    {
        let ghost all = views(self.annotations@);
        let before = self.annotations.len();
        let test = |other: &PersistentAnnotation| -> (b: bool)
            ensures
                b == has_other_id(id@)(other@),
        {
            !str_eq(other.id.as_str(), id)
        };
        retain_view(&mut self.annotations, test, Ghost(has_other_id(id@)));
        let removed = before != self.annotations.len();
        proof {
            lemma_removal(all, id@);
        }
        assert(views(self.annotations@).len() == self.annotations@.len());
        if removed {
            self.touch_at(now);
        }
        removed
    }

    /// Removes the annotations with an id, and says whether there was one; where there
    /// was, the time of the last change is now.
    pub fn remove_by_id(&mut self, id: &str) -> (removed: bool)
        ensures
            removed == holds_id(old(self)@.annotations, id@),
            final(self)@ == file_without(old(self)@, id@, final(self).last_updated),
    {
        let now = current_timestamp();
        self.remove_by_id_at(id, now)
    }
}

proof fn lemma_removal(all: Seq<StoredView>, id: Seq<char>)
    ensures
        holds_id(all, id) <==> kept(all, has_other_id(id)).len() != all.len(),
        !holds_id(all, id) ==> kept(all, has_other_id(id)) == all,
{
    kept_shorter(all, has_other_id(id));
    first_where_is_first(all, 0, has_id(id));
    if !holds_id(all, id) {
        assert forall|i: int| 0 <= i < all.len() implies has_other_id(id)(#[trigger] all[i]) by {
            assert(!has_id(id)(all[i]));
        }
        kept_all(all, has_other_id(id));
    } else {
        let k = first_where(all, 0, has_id(id))->0;
        assert(!has_other_id(id)(all[k]));
    }
}

// ---------------------------------------------------------------------------
// From the viewer to the store and back
// ---------------------------------------------------------------------------
/// A file with the given name.
pub open spec fn is_named(name: Seq<char>) -> spec_fn(FileDiff) -> bool {
    |f: FileDiff| f.filename@ == name
}

/// The file and the hunk that a stored annotation belongs to.
pub open spec fn place_of(files: Seq<FileDiff>, a: StoredView) -> Option<(int, int)> {
    match first_where(files, 0, is_named(a.filename)) {
        Some(f) => match matching_hunk(
            files[f],
            a.new_line_range,
            a.old_line_range,
            a.context_changed,
        ) {
            Some(h) => Some((f, h)),
            None => None,
        },
        None => None,
    }
}

/// The lines that a stored annotation is shown with.
pub open spec fn shown_range(a: StoredView) -> (usize, usize) {
    match (a.new_line_range, a.old_line_range) {
        (Some(range), _) => range,
        (None, Some(range)) => range,
        (None, None) => (0, 0),
    }
}

/// A stored annotation at its place in the viewer.
pub open spec fn shown_at(a: StoredView, place: (int, int)) -> AnnotationView {
    AnnotationView {
        id: a.id,
        file_index: place.0 as usize,
        hunk_index: place.1 as usize,
        content: a.content,
        line_range: shown_range(a),
        filename: a.filename,
        created_at: TimePoint { secs: a.created_at, nanos: 0 },
    }
}

/// The stored annotations that have a place in the viewer, each at its place.
pub open spec fn all_shown(files: Seq<FileDiff>, stored: Seq<StoredView>) -> Seq<
    AnnotationView,
>
    decreases stored.len(),
{
    if stored.len() == 0 {
        seq![]
    } else {
        let before = all_shown(files, stored.drop_last());
        match place_of(files, stored.last()) {
            Some(place) => before.push(shown_at(stored.last(), place)),
            None => before,
        }
    }
}

/// An annotation of the viewer as it is stored.
pub open spec fn stored_of(
    annotation: AnnotationView,
    files: Seq<FileDiff>,
    diff_reference: Option<Seq<char>>,
    scope: ScopeView,
) -> StoredView {
    let context = hunk_context_or_all(
        files[annotation.file_index as int],
        annotation.hunk_index as int,
    );
    StoredView {
        id: annotation.id,
        filename: annotation.filename,
        old_line_range: context.old_line_range,
        new_line_range: context.new_line_range,
        context_before: context.context_before,
        context_changed: context.context_changed,
        context_after: context.context_after,
        diff_text: context.diff_text,
        content: annotation.content,
        created_at: annotation.created_at.secs,
        diff_reference,
        change_type: context.change_type,
        origin_scope: Some(
            match scope {
                ScopeView::WorkingTree(_) => AnnotationScope::WorkingTree,
                ScopeView::Commit(_) => AnnotationScope::Commit,
            },
        ),
        origin_commit_id: match scope {
            ScopeView::WorkingTree(_) => None,
            ScopeView::Commit(commit_id) => Some(commit_id),
        },
        origin_base_commit_id: match scope {
            ScopeView::WorkingTree(base) => Some(base),
            ScopeView::Commit(_) => None,
        },
    }
}

/// The position of the first file with a name.
pub fn file_position(files: &Vec<FileDiff>, name: &String) -> (r: Option<usize>)
    ensures
        at(r) == first_where(files@, 0, is_named(name@)),
        r matches Some(f) ==> f < files@.len(),
{
    let test = |f: &FileDiff| -> (b: bool)
        ensures
            b == is_named(name@)(*f),
    {
        f.filename == *name
    };
    find_first(files, test, Ghost(is_named(name@)))
}

/// The file and the hunk that a stored annotation belongs to.
fn find_place(files: &Vec<FileDiff>, annotation: &PersistentAnnotation) -> (r: Option<
    (usize, usize),
>)
    requires
        files_wf(files@),
    ensures
        match r {
            Some((f, h)) => place_of(files@, annotation@) == Some((f as int, h as int)),
            None => place_of(files@, annotation@) is None,
        },
{
    match file_position(files, &annotation.filename) {
        Some(f) => {
            match find_matching_hunk(
                files,
                f,
                annotation.new_line_range,
                annotation.old_line_range,
                &annotation.context_changed,
            ) {
                Some(h) => Some((f, h)),
                None => None,
            }
        },
        None => None,
    }
}

/// Whether a stored annotation belongs to a hunk of the files.
pub fn should_migrate_annotation(files: &Vec<FileDiff>, annotation: &PersistentAnnotation) -> (r:
    bool)
    requires
        files_wf(files@),
    ensures
        r == (place_of(files@, annotation@) is Some),
{
    find_place(files, annotation).is_some()
}

/// The lines that a stored annotation is shown with.
pub fn display_line_range(annotation: &PersistentAnnotation) -> (r: (usize, usize))
    ensures
        r == shown_range(annotation@),
{
    if let Some(range) = annotation.new_line_range {
        return range;
    }
    if let Some(range) = annotation.old_line_range {
        return range;
    }
    (0, 0)
}

/// The stored annotations that have a place in the viewer, each at its place.
pub fn load_annotations(files: &Vec<FileDiff>, stored: &Vec<PersistentAnnotation>) -> (r: Vec<
    HunkAnnotation,
>)
    requires
        files_wf(files@),
    ensures
        views(r@) == all_shown(files@, views(stored@)),
{
    let mut r: Vec<HunkAnnotation> = Vec::new();
    let mut i: usize = 0;
    assert(views(stored@).take(0) == Seq::<StoredView>::empty());
    assert(views(r@) == Seq::<AnnotationView>::empty());
    while i < stored.len()
        invariant
            files_wf(files@),
            i <= stored@.len(),
            views(r@) == all_shown(files@, views(stored@).take(i as int)),
        decreases stored@.len() - i,
    {
        let ann = &stored[i];
        let ghost before = views(r@);
        assert(views(stored@).take(i + 1).drop_last() == views(stored@).take(i as int));
        if let Some((file_index, hunk_index)) = find_place(files, ann) {
            r.push(
                HunkAnnotation {
                    id: ann.id.clone(),
                    file_index,
                    hunk_index,
                    content: ann.content.clone(),
                    line_range: display_line_range(ann),
                    filename: ann.filename.clone(),
                    created_at: TimePoint { secs: ann.created_at, nanos: 0 },
                },
            );
            assert(views(r@) == before.push(
                shown_at(ann@, (file_index as int, hunk_index as int)),
            ));
        }
        i += 1;
    }
    assert(views(stored@).take(i as int) == views(stored@));
    r
}

/// An annotation of the viewer as it is stored.
pub fn to_persistent(annotation: &HunkAnnotation, state: &AppState, scope: &DiffScope) -> (r:
    PersistentAnnotation)
    requires
        files_wf(state.file_diffs@),
        annotation.file_index < state.file_diffs@.len(),
    ensures
        r@ == stored_of(
            annotation@,
            state.file_diffs@,
            opt_str(state.diff_reference),
            scope@,
        ),
{
    let context = extract_hunk_context(
        &state.file_diffs,
        annotation.file_index,
        annotation.hunk_index,
    );
    let (origin_scope, origin_commit_id, origin_base_commit_id) = match scope {
        DiffScope::WorkingTree { base_commit_id } => (
            AnnotationScope::WorkingTree,
            None,
            Some(base_commit_id.clone()),
        ),
        DiffScope::Commit { commit_id } => (AnnotationScope::Commit, Some(commit_id.clone()), None),
    };
    PersistentAnnotation {
        id: annotation.id.clone(),
        filename: annotation.filename.clone(),
        old_line_range: context.old_line_range,
        new_line_range: context.new_line_range,
        context_before: context.context_before,
        context_changed: context.context_changed,
        context_after: context.context_after,
        diff_text: context.diff_text,
        content: annotation.content.clone(),
        created_at: annotation.created_at.secs,
        diff_reference: state.diff_reference.clone(),
        change_type: context.change_type,
        origin_scope: Some(origin_scope),
        origin_commit_id,
        origin_base_commit_id,
    }
}

// ---------------------------------------------------------------------------
// The annotation files of a repository
// ---------------------------------------------------------------------------
/// The annotations of the working tree, and those that have lost their base commit.
#[derive(Debug)]
pub struct PersistenceManager {
    pub working_tree: AnnotationFile,
    pub orphans: AnnotationFile,
}

/// The model of a `PersistenceManager`.
#[verifier::ext_equal]
pub struct ManagerView {
    pub working_tree: AnnotationFileView,
    pub orphans: AnnotationFileView,
}

impl View for PersistenceManager {
    type V = ManagerView;

    open spec fn view(&self) -> ManagerView {
        ManagerView { working_tree: self.working_tree@, orphans: self.orphans@ }
    }
}

/// What is to be done with the annotations of a scope.
#[derive(Debug)]
pub enum Job {
    /// Show them.
    Load,
    /// Put one among them.
    Upsert(PersistentAnnotation),
    /// Remove the one with an id.
    Remove(String),
}

/// The model of a `Job`.
pub enum JobView {
    Load,
    Upsert(StoredView),
    Remove(Seq<char>),
}

impl View for Job {
    type V = JobView;

    open spec fn view(&self) -> JobView {
        match self {
            Job::Load => JobView::Load,
            Job::Upsert(a) => JobView::Upsert(a@),
            Job::Remove(id) => JobView::Remove(id@),
        }
    }
}

/// What is left of a job when the file that was asked for has been saved.
#[derive(Debug)]
pub enum Pending {
    /// The orphans are saved: the working tree gets its new base commit.
    SetBase { base: String, job: Job },
    /// The working tree has its base commit: the job is done on it.
    ChangeWorkingTree { job: Job },
    /// The working tree is saved: the orphans that belong to the commit go there.
    MigrateOrphans { commit_id: String, file: AnnotationFile },
    /// The orphans are saved: the commit's annotations are shown.
    ShowCommit { commit_id: String, file: AnnotationFile },
    /// Nothing.
    Finish,
}

/// The model of a `Pending`.
#[verifier::ext_equal]
pub enum PendingView {
    SetBase(Seq<char>, JobView),
    ChangeWorkingTree(JobView),
    MigrateOrphans(Seq<char>, AnnotationFileView),
    ShowCommit(Seq<char>, AnnotationFileView),
    Finish,
}

impl View for Pending {
    type V = PendingView;

    open spec fn view(&self) -> PendingView {
        match self {
            Pending::SetBase { base, job } => PendingView::SetBase(base@, job@),
            Pending::ChangeWorkingTree { job } => PendingView::ChangeWorkingTree(job@),
            Pending::MigrateOrphans { commit_id, file } => PendingView::MigrateOrphans(
                commit_id@,
                file@,
            ),
            Pending::ShowCommit { commit_id, file } => PendingView::ShowCommit(commit_id@, file@),
            Pending::Finish => PendingView::Finish,
        }
    }
}

/// What the store has to do next.
#[derive(Debug)]
pub enum Request {
    /// Nothing: the job is done.
    Done,
    /// Save the working tree's file, then resume.
    SaveWorkingTree(Pending),
    /// Save the orphans' file, then resume.
    SaveOrphans(Pending),
    /// Read the file of a commit, then resume with it.
    ReadCommit { commit_id: String, job: Job },
    /// Save the file of a commit: then the job is done.
    SaveCommit { commit_id: String, file: AnnotationFile },
}

/// The model of a `Request`.
#[verifier::ext_equal]
pub enum RequestView {
    Done,
    SaveWorkingTree(PendingView),
    SaveOrphans(PendingView),
    ReadCommit(Seq<char>, JobView),
    SaveCommit(Seq<char>, AnnotationFileView),
}

impl View for Request {
    type V = RequestView;

    open spec fn view(&self) -> RequestView {
        match self {
            Request::Done => RequestView::Done,
            Request::SaveWorkingTree(p) => RequestView::SaveWorkingTree(p@),
            Request::SaveOrphans(p) => RequestView::SaveOrphans(p@),
            Request::ReadCommit { commit_id, job } => RequestView::ReadCommit(commit_id@, job@),
            Request::SaveCommit { commit_id, file } => RequestView::SaveCommit(commit_id@, file@),
        }
    }
}

/// A step of a job: the annotation files after it, what the store has to do next, and
/// the annotations to show, where the step shows some.
#[verifier::ext_equal]
pub struct Outcome {
    pub manager: ManagerView,
    pub request: RequestView,
    pub shown: Option<Seq<AnnotationView>>,
}

/// An annotation that has lost its base commit.
pub open spec fn orphaned(a: StoredView, base: Seq<char>) -> StoredView {
    StoredView {
        origin_scope: Some(AnnotationScope::WorkingTree),
        origin_base_commit_id: Some(base),
        ..a
    }
}

/// An annotation that has come to a commit.
pub open spec fn migrated(a: StoredView, commit_id: Seq<char>) -> StoredView {
    StoredView {
        origin_scope: Some(AnnotationScope::Commit),
        origin_commit_id: Some(commit_id),
        ..a
    }
}

/// An annotation that does not belong to a hunk of the files.
pub open spec fn stays(files: Seq<FileDiff>) -> spec_fn(StoredView) -> bool {
    |a: StoredView| place_of(files, a) is None
}

/// The orphans with the annotations `moved` upserted one after the other.
pub open spec fn with_orphans(
    orphans: AnnotationFileView,
    moved: Seq<StoredView>,
    base: Seq<char>,
    now: u64,
) -> AnnotationFileView
    decreases moved.len(),
{
    if moved.len() == 0 {
        orphans
    } else {
        with_orphans(
            file_upserted(orphans, orphaned(moved[0], base), now),
            moved.drop_first(),
            base,
            now,
        )
    }
}

/// The commit's file with those of `list` that belong to a hunk of the files upserted
/// one after the other.
pub open spec fn with_migrated(
    file: AnnotationFileView,
    list: Seq<StoredView>,
    files: Seq<FileDiff>,
    commit_id: Seq<char>,
    now: u64,
) -> AnnotationFileView
    decreases list.len(),
{
    if list.len() == 0 {
        file
    } else if place_of(files, list[0]) is Some {
        with_migrated(
            file_upserted(file, migrated(list[0], commit_id), now),
            list.drop_first(),
            files,
            commit_id,
            now,
        )
    } else {
        with_migrated(file, list.drop_first(), files, commit_id, now)
    }
}

/// Whether the working tree holds annotations of another base commit.
pub open spec fn base_lost(m: ManagerView, base: Seq<char>) -> bool {
    &&& m.working_tree.base_commit_id matches Some(b) && b != base
    &&& m.working_tree.annotations.len() > 0
}

/// The annotations of the working tree moved to the orphans.
pub open spec fn tree_orphaned(m: ManagerView, now: u64) -> ManagerView {
    ManagerView {
        working_tree: AnnotationFileView { annotations: seq![], ..m.working_tree },
        orphans: with_orphans(
            m.orphans,
            m.working_tree.annotations,
            m.working_tree.base_commit_id->0,
            now,
        ),
    }
}

/// The job done on the working tree.
pub open spec fn change_tree(
    m: ManagerView,
    files: Seq<FileDiff>,
    job: JobView,
    now: u64,
) -> Outcome {
    match job {
        JobView::Load => Outcome {
            manager: m,
            request: RequestView::Done,
            shown: Some(all_shown(files, m.working_tree.annotations)),
        },
        JobView::Upsert(a) => Outcome {
            manager: ManagerView { working_tree: file_upserted(m.working_tree, a, now), ..m },
            request: RequestView::SaveWorkingTree(PendingView::Finish),
            shown: None,
        },
        JobView::Remove(id) => Outcome {
            manager: ManagerView { working_tree: file_without(m.working_tree, id, now), ..m },
            request: RequestView::SaveWorkingTree(PendingView::Finish),
            shown: None,
        },
    }
}

/// The working tree given its base commit; the job done on it at once where it has it
/// already.
pub open spec fn set_base(
    m: ManagerView,
    files: Seq<FileDiff>,
    base: Seq<char>,
    job: JobView,
    now: u64,
) -> Outcome {
    if m.working_tree.base_commit_id == Some(base) {
        change_tree(m, files, job, now)
    } else {
        Outcome {
            manager: ManagerView {
                working_tree: AnnotationFileView {
                    base_commit_id: Some(base),
                    last_updated: now,
                    ..m.working_tree
                },
                ..m
            },
            request: RequestView::SaveWorkingTree(PendingView::ChangeWorkingTree(job)),
            shown: None,
        }
    }
}

/// The first step of a job.
pub open spec fn begin_job(
    m: ManagerView,
    files: Seq<FileDiff>,
    scope: ScopeView,
    job: JobView,
    now: u64,
) -> Outcome {
    match scope {
        ScopeView::WorkingTree(base) => if base_lost(m, base) {
            Outcome {
                manager: tree_orphaned(m, now),
                request: RequestView::SaveOrphans(PendingView::SetBase(base, job)),
                shown: None,
            }
        } else {
            set_base(m, files, base, job, now)
        },
        ScopeView::Commit(commit_id) => Outcome {
            manager: m,
            request: RequestView::ReadCommit(commit_id, job),
            shown: None,
        },
    }
}

/// The step that follows the reading of a commit's file.
pub open spec fn commit_step(
    m: ManagerView,
    files: Seq<FileDiff>,
    commit_id: Seq<char>,
    job: JobView,
    read: AnnotationFileView,
    now: u64,
) -> Outcome {
    let file = AnnotationFileView { commit_id: Some(commit_id), ..read };
    match job {
        JobView::Load => Outcome {
            manager: ManagerView {
                working_tree: AnnotationFileView {
                    annotations: kept(m.working_tree.annotations, stays(files)),
                    ..m.working_tree
                },
                ..m
            },
            request: RequestView::SaveWorkingTree(
                PendingView::MigrateOrphans(
                    commit_id,
                    with_migrated(file, m.working_tree.annotations, files, commit_id, now),
                ),
            ),
            shown: None,
        },
        JobView::Upsert(a) => Outcome {
            manager: m,
            request: RequestView::SaveCommit(commit_id, file_upserted(file, a, now)),
            shown: None,
        },
        JobView::Remove(id) => Outcome {
            manager: m,
            request: RequestView::SaveCommit(commit_id, file_without(file, id, now)),
            shown: None,
        },
    }
}

/// The step that follows the saving of a file.
pub open spec fn next_step(
    m: ManagerView,
    files: Seq<FileDiff>,
    pending: PendingView,
    now: u64,
) -> Outcome {
    match pending {
        PendingView::SetBase(base, job) => set_base(m, files, base, job, now),
        PendingView::ChangeWorkingTree(job) => change_tree(m, files, job, now),
        PendingView::MigrateOrphans(commit_id, file) => Outcome {
            manager: ManagerView {
                orphans: AnnotationFileView {
                    annotations: kept(m.orphans.annotations, stays(files)),
                    ..m.orphans
                },
                ..m
            },
            request: RequestView::SaveOrphans(
                PendingView::ShowCommit(
                    commit_id,
                    with_migrated(file, m.orphans.annotations, files, commit_id, now),
                ),
            ),
            shown: None,
        },
        PendingView::ShowCommit(commit_id, file) => Outcome {
            manager: m,
            request: RequestView::SaveCommit(commit_id, file),
            shown: Some(all_shown(files, file.annotations)),
        },
        PendingView::Finish => Outcome { manager: m, request: RequestView::Done, shown: None },
    }
}

/// The state after a step that shows some annotations, or none.
pub open spec fn state_after(
    before: AppState,
    after: AppState,
    shown: Option<Seq<AnnotationView>>,
) -> bool {
    match shown {
        Some(list) => views(after.annotations@) == list && after == (AppState {
            annotations: after.annotations,
            ..before
        }),
        None => after == before,
    }
}

/// Takes the annotations out of a file.
fn take_annotations(file: &mut AnnotationFile) -> (r: Vec<PersistentAnnotation>)
    ensures
        r@ == old(file).annotations@,
        final(file)@ == (AnnotationFileView { annotations: seq![], ..old(file)@ }),
{
    let mut list: Vec<PersistentAnnotation> = Vec::new();
    std::mem::swap(&mut list, &mut file.annotations);
    list
}

/// Moves those of `list` that belong to a hunk of the files to the commit's file, and
/// returns the others.
fn migrate_list(
    files: &Vec<FileDiff>,
    list: Vec<PersistentAnnotation>,
    commit_id: &String,
    file: &mut AnnotationFile,
    now: u64,
) -> (remaining: Vec<PersistentAnnotation>)
    requires
        files_wf(files@),
    ensures
        views(remaining@) == kept(views(list@), stays(files@)),
        final(file)@ == with_migrated(old(file)@, views(list@), files@, commit_id@, now),
{
    let ghost all = views(list@);
    let ghost begun = file@;
    let mut rest = list;
    let mut remaining: Vec<PersistentAnnotation> = Vec::new();
    assert(views(remaining@) == Seq::<StoredView>::empty());
    assert(all == Seq::<StoredView>::empty() + all);
    while rest.len() > 0
        invariant
            files_wf(files@),
            kept(all, stays(files@)) == views(remaining@) + kept(views(rest@), stays(files@)),
            with_migrated(begun, all, files@, commit_id@, now) == with_migrated(
                file@,
                views(rest@),
                files@,
                commit_id@,
                now,
            ),
        decreases rest@.len(),
    {
        let ghost before = views(rest@);
        let ghost kept_before = views(remaining@);
        let mut ann = rest.remove(0);
        let ghost a = ann@;
        assert(views(rest@) == before.drop_first());
        assert(before[0] == a);
        if should_migrate_annotation(files, &ann) {
            ann.origin_scope = Some(AnnotationScope::Commit);
            ann.origin_commit_id = Some(commit_id.clone());
            assert(ann@ == migrated(a, commit_id@));
            file.upsert_at(ann, now);
        } else {
            remaining.push(ann);
            assert(views(remaining@) == kept_before.push(a));
            assert(kept(before, stays(files@)) == seq![a] + kept(views(rest@), stays(files@)));
        }
    }
    assert(views(rest@) == Seq::<StoredView>::empty());
    remaining
}

impl PersistenceManager {
    /// Moves the annotations of the working tree to the orphans.
    fn orphan_working_tree(&mut self, now: u64)
        requires
            old(self).working_tree.base_commit_id is Some,
        ensures
            final(self)@ == tree_orphaned(old(self)@, now),
    {
        let ghost m = self@;
        let ghost all = views(self.working_tree.annotations@);
        let base: String = match &self.working_tree.base_commit_id {
            Some(b) => b.clone(),
            None => String::new(),
        };
        let mut rest = take_annotations(&mut self.working_tree);
        let ghost tree = self.working_tree@;
        while rest.len() > 0
            invariant
                self.working_tree@ == tree,
                with_orphans(m.orphans, all, base@, now) == with_orphans(
                    self.orphans@,
                    views(rest@),
                    base@,
                    now,
                ),
            decreases rest@.len(),
        {
            let ghost before = views(rest@);
            let mut ann = rest.remove(0);
            let ghost a = ann@;
            assert(views(rest@) == before.drop_first());
            assert(before[0] == a);
            ann.origin_scope = Some(AnnotationScope::WorkingTree);
            ann.origin_base_commit_id = Some(base.clone());
            assert(ann@ == orphaned(a, base@));
            self.orphans.upsert_at(ann, now);
        }
        assert(views(rest@) == Seq::<StoredView>::empty());
    }

    fn change_working_tree(&mut self, files: &Vec<FileDiff>, job: Job, now: u64) -> (r: (
        Request,
        Option<Vec<HunkAnnotation>>,
    ))
        requires
            files_wf(files@),
        ensures
            outcome_is(final(self)@, r, change_tree(old(self)@, files@, job@, now)),
    {
        match job {
            Job::Load => {
                let shown = load_annotations(files, &self.working_tree.annotations);
                (Request::Done, Some(shown))
            },
            Job::Upsert(a) => {
                self.working_tree.upsert_at(a, now);
                (Request::SaveWorkingTree(Pending::Finish), None)
            },
            Job::Remove(id) => {
                self.working_tree.remove_by_id_at(id.as_str(), now);
                (Request::SaveWorkingTree(Pending::Finish), None)
            },
        }
    }

    fn set_working_tree_base(
        &mut self,
        files: &Vec<FileDiff>,
        base: String,
        job: Job,
        now: u64,
    ) -> (r: (Request, Option<Vec<HunkAnnotation>>))
        requires
            files_wf(files@),
        ensures
            outcome_is(final(self)@, r, set_base(old(self)@, files@, base@, job@, now)),
    {
        let same = match &self.working_tree.base_commit_id {
            Some(existing) => *existing == base,
            None => false,
        };
        if same {
            self.change_working_tree(files, job, now)
        } else {
            self.working_tree.base_commit_id = Some(base);
            self.working_tree.last_updated = now;
            (Request::SaveWorkingTree(Pending::ChangeWorkingTree { job }), None)
        }
    }

    fn begin(&mut self, files: &Vec<FileDiff>, scope: &DiffScope, job: Job, now: u64) -> (r: (
        Request,
        Option<Vec<HunkAnnotation>>,
    ))
        requires
            files_wf(files@),
        ensures
            outcome_is(final(self)@, r, begin_job(old(self)@, files@, scope@, job@, now)),
    {
        match scope {
            DiffScope::WorkingTree { base_commit_id } => {
                let lost = match &self.working_tree.base_commit_id {
                    Some(existing) => *existing != *base_commit_id
                        && self.working_tree.annotations.len() > 0,
                    None => false,
                };
                assert(views(self.working_tree.annotations@).len()
                    == self.working_tree.annotations@.len());
                if lost {
                    self.orphan_working_tree(now);
                    (
                        Request::SaveOrphans(
                            Pending::SetBase { base: base_commit_id.clone(), job },
                        ),
                        None,
                    )
                } else {
                    self.set_working_tree_base(files, base_commit_id.clone(), job, now)
                }
            },
            DiffScope::Commit { commit_id } => (
                Request::ReadCommit { commit_id: commit_id.clone(), job },
                None,
            ),
        }
    }

    /// Begins to show the annotations of a scope.
    pub fn load_for_scope(&mut self, state: &mut AppState, scope: &DiffScope, now: u64) -> (r:
        Request)
        requires
            files_wf(old(state).file_diffs@),
        ensures
            ({
                let o = begin_job(
                    old(self)@,
                    old(state).file_diffs@,
                    scope@,
                    JobView::Load,
                    now,
                );
                &&& final(self)@ == o.manager
                &&& r@ == o.request
                &&& views(final(state).annotations@) == (match o.shown {
                    Some(list) => list,
                    None => seq![],
                })
                &&& *final(state) == (AppState {
                    annotations: final(state).annotations,
                    ..*old(state)
                })
            }),
            scope@ matches ScopeView::Commit(id) ==> final(state).annotations@.len() == 0 && r@
                == RequestView::ReadCommit(id, JobView::Load) && final(self)@ == old(self)@,
    {
        state.annotations = Vec::new();
        let (request, shown) = self.begin(&state.file_diffs, scope, Job::Load, now);
        match shown {
            Some(list) => {
                state.annotations = list;
            },
            None => {
                assert(views(state.annotations@) == Seq::<AnnotationView>::empty());
                assert(state.annotations@.len() == 0);
            },
        }
        request
    }

    /// Begins to store an annotation.
    pub fn upsert_annotation(
        &mut self,
        state: &AppState,
        annotation: &HunkAnnotation,
        scope: &DiffScope,
        now: u64,
    ) -> (r: Request)
        requires
            files_wf(state.file_diffs@),
            annotation.file_index < state.file_diffs@.len(),
        ensures
            ({
                let stored = stored_of(
                    annotation@,
                    state.file_diffs@,
                    opt_str(state.diff_reference),
                    scope@,
                );
                let o = begin_job(
                    old(self)@,
                    state.file_diffs@,
                    scope@,
                    JobView::Upsert(stored),
                    now,
                );
                final(self)@ == o.manager && r@ == o.request
            }),
            scope@ matches ScopeView::Commit(id) ==> final(self)@ == old(self)@ && (
            r@ matches RequestView::ReadCommit(commit, JobView::Upsert(s)) && commit == id && s.id
                == annotation.id@ && s.content == annotation.content@ && s.filename
                == annotation.filename@ && s.origin_commit_id == Some(id)),
    {
        let stored = to_persistent(annotation, state, scope);
        self.begin(&state.file_diffs, scope, Job::Upsert(stored), now).0
    }

    /// Begins to remove an annotation from the store.
    pub fn remove_annotation(&mut self, annotation: &HunkAnnotation, scope: &DiffScope, now: u64)
        -> (r: Request)
        ensures
            ({
                let o = begin_job(
                    old(self)@,
                    seq![],
                    scope@,
                    JobView::Remove(annotation.id@),
                    now,
                );
                final(self)@ == o.manager && r@ == o.request
            }),
            scope@ matches ScopeView::Commit(id) ==> final(self)@ == old(self)@ && r@
                == RequestView::ReadCommit(id, JobView::Remove(annotation.id@)),
    {
        let none: Vec<FileDiff> = Vec::new();
        self.begin(&none, scope, Job::Remove(annotation.id.clone()), now).0
    }

    /// Goes on after a file was saved.
    pub fn resume(&mut self, state: &mut AppState, pending: Pending, now: u64) -> (r: Request)
        requires
            files_wf(old(state).file_diffs@),
        ensures
            ({
                let o = next_step(old(self)@, old(state).file_diffs@, pending@, now);
                &&& final(self)@ == o.manager
                &&& r@ == o.request
                &&& state_after(*old(state), *final(state), o.shown)
            }),
    {
        let (request, shown) = match pending {
            Pending::SetBase { base, job } => self.set_working_tree_base(
                &state.file_diffs,
                base,
                job,
                now,
            ),
            Pending::ChangeWorkingTree { job } => self.change_working_tree(
                &state.file_diffs,
                job,
                now,
            ),
            Pending::MigrateOrphans { commit_id, file } => {
                let mut file = file;
                let list = take_annotations(&mut self.orphans);
                let remaining = migrate_list(&state.file_diffs, list, &commit_id, &mut file, now);
                self.orphans.annotations = remaining;
                (Request::SaveOrphans(Pending::ShowCommit { commit_id, file }), None)
            },
            Pending::ShowCommit { commit_id, file } => {
                let shown = load_annotations(&state.file_diffs, &file.annotations);
                (Request::SaveCommit { commit_id, file }, Some(shown))
            },
            Pending::Finish => (Request::Done, None),
        };
        if let Some(list) = shown {
            state.annotations = list;
        }
        request
    }

    /// Goes on after the file of a commit was read.
    pub fn resume_with_commit(
        &mut self,
        state: &AppState,
        commit_id: String,
        job: Job,
        read: AnnotationFile,
        now: u64,
    ) -> (r: Request)
        requires
            files_wf(state.file_diffs@),
        ensures
            ({
                let o = commit_step(
                    old(self)@,
                    state.file_diffs@,
                    commit_id@,
                    job@,
                    read@,
                    now,
                );
                final(self)@ == o.manager && r@ == o.request && o.shown is None
            }),
    {
        let mut file = read;
        file.commit_id = Some(commit_id.clone());
        match job {
            Job::Load => {
                let list = take_annotations(&mut self.working_tree);
                let remaining = migrate_list(&state.file_diffs, list, &commit_id, &mut file, now);
                self.working_tree.annotations = remaining;
                Request::SaveWorkingTree(Pending::MigrateOrphans { commit_id, file })
            },
            Job::Upsert(a) => {
                file.upsert_at(a, now);
                Request::SaveCommit { commit_id, file }
            },
            Job::Remove(id) => {
                file.remove_by_id_at(id.as_str(), now);
                Request::SaveCommit { commit_id, file }
            },
        }
    }
}

/// The files, the request and the annotations of a step are those of the outcome.
pub open spec fn outcome_is(
    m: ManagerView,
    r: (Request, Option<Vec<HunkAnnotation>>),
    o: Outcome,
) -> bool {
    &&& m == o.manager
    &&& r.0@ == o.request
    &&& match (r.1, o.shown) {
        (Some(list), Some(shown)) => views(list@) == shown,
        (None, None) => true,
        _ => false,
    }
}

// ---------------------------------------------------------------------------
// Files that were read
// ---------------------------------------------------------------------------
/// The annotation file of a scope: empty where there is none on disk, refused where it
/// has a later version.
pub open spec fn accepted_file(
    read: Option<AnnotationFileView>,
    scope: AnnotationScope,
    now: u64,
) -> Result<AnnotationFileView, StorageError> {
    match read {
        None => Ok(empty_file(scope, now)),
        Some(file) => if file.version > STORAGE_VERSION {
            Err(StorageError::UnsupportedVersion(file.version))
        } else {
            Ok(AnnotationFileView { scope, ..file })
        },
    }
}

/// The annotation file of a scope, from what is on disk, if anything is.
pub fn load_annotation_file(read: Option<AnnotationFile>, scope: AnnotationScope, now: u64) -> (r:
    Result<AnnotationFile, StorageError>)
    ensures
        ({
            let given = match read {
                Some(file) => Some(file@),
                None => None,
            };
            match r {
                Ok(file) => accepted_file(given, scope, now) == Ok::<_, StorageError>(file@),
                Err(e) => accepted_file(given, scope, now) == Err::<AnnotationFileView, _>(e),
            }
        }),
{
    match read {
        None => Ok(AnnotationFile::new_at(scope, now)),
        Some(file) => {
            if file.version > STORAGE_VERSION {
                Err(StorageError::UnsupportedVersion(file.version))
            } else {
                let mut file = file;
                file.scope = scope;
                Ok(file)
            }
        },
    }
}

impl PersistenceManager {
    /// The annotation files of a repository, from what is on disk.
    pub fn try_new(
        working_tree: Option<AnnotationFile>,
        orphans: Option<AnnotationFile>,
        now: u64,
    ) -> (r: Result<Self, StorageError>)
        ensures
            ({
                let tree = accepted_file(
                    match working_tree {
                        Some(file) => Some(file@),
                        None => None,
                    },
                    AnnotationScope::WorkingTree,
                    now,
                );
                let lost = accepted_file(
                    match orphans {
                        Some(file) => Some(file@),
                        None => None,
                    },
                    AnnotationScope::Orphans,
                    now,
                );
                match r {
                    Ok(m) => tree == Ok::<_, StorageError>(m@.working_tree) && lost == Ok::<
                        _,
                        StorageError,
                    >(m@.orphans),
                    Err(e) => tree == Err::<AnnotationFileView, _>(e) || tree is Ok && lost
                        == Err::<AnnotationFileView, _>(e),
                }
            }),
            r is Ok <==> (working_tree matches Some(file) ==> file.version <= 1) && (
            orphans matches Some(file) ==> file.version <= 1),
            r matches Ok(m) ==> {
                &&& working_tree is None ==> m@.working_tree.annotations.len() == 0
                &&& working_tree matches Some(file) ==> m@.working_tree.annotations
                    == file@.annotations
                &&& orphans is None ==> m@.orphans.annotations.len() == 0
                &&& orphans matches Some(file) ==> m@.orphans.annotations == file@.annotations
            },
    {
        let working_tree = match load_annotation_file(
            working_tree,
            AnnotationScope::WorkingTree,
            now,
        ) {
            Ok(file) => file,
            Err(e) => {
                return Err(e);
            },
        };
        match load_annotation_file(orphans, AnnotationScope::Orphans, now) {
            Ok(orphans) => Ok(PersistenceManager { working_tree, orphans }),
            Err(e) => Err(e),
        }
    }

    /// The name of the file of the working tree.
    pub fn working_tree_path(&self) -> (r: String)
        ensures
            r@ == WORKING_TREE_FILE@,
    {
        WORKING_TREE_FILE.to_string()
    }

    /// The name of the file of the orphans.
    pub fn orphans_path(&self) -> (r: String)
        ensures
            r@ == ORPHANS_FILE@,
    {
        ORPHANS_FILE.to_string()
    }

    /// The name of the file of a commit.
    pub fn commit_path(&self, commit_id: &str) -> (r: String)
        ensures
            r@ == commit_id@ + ".json"@,
    {
        commit_file_name(commit_id)
    }
}

} // verus!
