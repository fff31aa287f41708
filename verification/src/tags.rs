//! Tags on hunks: the tags in use, the files that hold the tags of each hunk, and how
//! tags are set and shown.

use vstd::prelude::*;

use crate::diff::{files_wf, has_line, in_order, FileDiff};
use crate::marks::{
    find_place_of_mark, hunk_of_mark, is_at_position, is_in_context, is_leading_to, last_named,
    leads_to, mark_of_hunk, marks_context, marks_position, new_mark, new_mark_finds_its_hunk,
    place_of_mark, shown_marks_lead_to_their_hunk, HunkMark, MarkView,
};
use crate::marks_laws::{set_tags_are_in_the_file, set_tags_keep_other_files};
use crate::persistence::{DiffScope, ScopeView};
use crate::seqs::{
    find_first_view, first_where, first_where_is_first, kept, kept_elements, retain_view, views,
};
use crate::state::{AppState, HunkTags, HunkTagsView};
use crate::storage::{scope_file, scope_file_name, StorageError};
use crate::tag_names::{
    dedup_sorted, normalize_tags, normalized, push_contains, same_multiset_same_elements,
};
use crate::text::{opt_str, sort_strings, strictly_ascending, strs};

verus! {

/// The version of the tag files that are written.
pub const TAGS_VERSION: u32 = 2;

/// The kind of a tag file.
#[derive(Debug, Clone, Copy, PartialEq, Eq, Structural)]
pub enum TagScope {
    WorkingTree,
    Commit,
}

/// The tags in use.
#[derive(Debug)]
pub struct TagIndexFile {
    pub version: u32,
    pub last_updated: u64,
    pub tags: Vec<String>,
}

/// The model of a `TagIndexFile`.
#[verifier::ext_equal]
pub struct TagIndexView {
    pub version: u32,
    pub last_updated: u64,
    pub tags: Seq<Seq<char>>,
}

impl View for TagIndexFile {
    type V = TagIndexView;

    open spec fn view(&self) -> TagIndexView {
        TagIndexView {
            version: self.version,
            last_updated: self.last_updated,
            tags: strs(self.tags@),
        }
    }
}

/// The stored tags of a hunk.
#[derive(Debug)]
pub struct PersistentHunkTags {
    pub mark: HunkMark,
    pub tags: Vec<String>,
}

/// The model of a `PersistentHunkTags`.
#[verifier::ext_equal]
pub struct StoredTagsView {
    pub mark: MarkView,
    pub tags: Seq<Seq<char>>,
}

impl View for PersistentHunkTags {
    type V = StoredTagsView;

    open spec fn view(&self) -> StoredTagsView {
        StoredTagsView { mark: self.mark@, tags: strs(self.tags@) }
    }
}

/// The contents of a tag file.
#[derive(Debug)]
pub struct TagFile {
    pub version: u32,
    pub last_updated: u64,
    pub scope: TagScope,
    pub commit_id: Option<String>,
    pub base_commit_id: Option<String>,
    pub hunks: Vec<PersistentHunkTags>,
}

/// The model of a `TagFile`.
#[verifier::ext_equal]
pub struct TagFileView {
    pub version: u32,
    pub last_updated: u64,
    pub scope: TagScope,
    pub commit_id: Option<Seq<char>>,
    pub base_commit_id: Option<Seq<char>>,
    pub hunks: Seq<StoredTagsView>,
}

impl View for TagFile {
    type V = TagFileView;

    open spec fn view(&self) -> TagFileView {
        TagFileView {
            version: self.version,
            last_updated: self.last_updated,
            scope: self.scope,
            commit_id: opt_str(self.commit_id),
            base_commit_id: opt_str(self.base_commit_id),
            hunks: views(self.hunks@),
        }
    }
}

/// The kind of file that a scope has.
pub open spec fn tag_scope_of(scope: ScopeView) -> TagScope {
    match scope {
        ScopeView::WorkingTree(_) => TagScope::WorkingTree,
        ScopeView::Commit(_) => TagScope::Commit,
    }
}

/// The tag file of a scope: empty where there is none on disk, refused where it has a
/// later version.
pub open spec fn accepted_tag_file(
    read: Option<TagFileView>,
    scope: ScopeView,
    now: u64,
) -> Result<TagFileView, StorageError> {
    match read {
        None => Ok(
            TagFileView {
                version: TAGS_VERSION,
                last_updated: now,
                scope: tag_scope_of(scope),
                commit_id: match scope {
                    ScopeView::Commit(commit_id) => Some(commit_id),
                    ScopeView::WorkingTree(_) => None,
                },
                base_commit_id: match scope {
                    ScopeView::Commit(_) => None,
                    ScopeView::WorkingTree(base) => Some(base),
                },
                hunks: seq![],
            },
        ),
        Some(file) => if file.version > TAGS_VERSION {
            Err(StorageError::UnsupportedVersion(file.version))
        } else {
            Ok(TagFileView { scope: tag_scope_of(scope), ..file })
        },
    }
}

/// The tag file of a scope, from what is on disk, if anything is.
pub fn load_tag_file(read: Option<TagFile>, scope: &DiffScope, now: u64) -> (r: Result<
    TagFile,
    StorageError,
>)
    ensures
        ({
            let given = match read {
                Some(file) => Some(file@),
                None => None,
            };
            match r {
                Ok(file) => accepted_tag_file(given, scope@, now) == Ok::<_, StorageError>(file@),
                Err(e) => accepted_tag_file(given, scope@, now) == Err::<TagFileView, _>(e),
            }
        }),
{
    let kind = match scope {
        DiffScope::WorkingTree { base_commit_id: _ } => TagScope::WorkingTree,
        DiffScope::Commit { commit_id: _ } => TagScope::Commit,
    };
    match read {
        None => {
            let (commit_id, base_commit_id) = match scope {
                DiffScope::Commit { commit_id } => (Some(commit_id.clone()), None),
                DiffScope::WorkingTree { base_commit_id } => (None, Some(base_commit_id.clone())),
            };
            let file = TagFile {
                version: TAGS_VERSION,
                last_updated: now,
                scope: kind,
                commit_id,
                base_commit_id,
                hunks: Vec::new(),
            };
            assert(views(file.hunks@) == Seq::<StoredTagsView>::empty());
            Ok(file)
        },
        Some(file) => {
            if file.version > TAGS_VERSION {
                Err(StorageError::UnsupportedVersion(file.version))
            } else {
                let mut file = file;
                file.scope = kind;
                Ok(file)
            }
        },
    }
}

// ---------------------------------------------------------------------------
// The tags in use
// ---------------------------------------------------------------------------
/// The index of the tags in use: empty where there is none on disk, refused where it has
/// a later version, and brought to this version otherwise.
pub open spec fn accepted_index(read: Option<TagIndexView>, now: u64) -> Result<
    TagIndexView,
    StorageError,
> {
    match read {
        None => Ok(TagIndexView { version: TAGS_VERSION, last_updated: now, tags: seq![] }),
        Some(file) => if file.version > TAGS_VERSION {
            Err(StorageError::UnsupportedVersion(file.version))
        } else {
            Ok(TagIndexView { version: TAGS_VERSION, ..file })
        },
    }
}

/// The index of the tags in use, from what is on disk, if anything is.
pub fn load_index_file(read: Option<TagIndexFile>, now: u64) -> (r: Result<
    TagIndexFile,
    StorageError,
>)
    ensures
        ({
            let given = match read {
                Some(file) => Some(file@),
                None => None,
            };
            match r {
                Ok(file) => accepted_index(given, now) == Ok::<_, StorageError>(file@),
                Err(e) => accepted_index(given, now) == Err::<TagIndexView, _>(e),
            }
        }),
{
    match read {
        None => {
            let file = TagIndexFile { version: TAGS_VERSION, last_updated: now, tags: Vec::new() };
            assert(strs(file.tags@) == Seq::<Seq<char>>::empty());
            Ok(file)
        },
        Some(file) => {
            if file.version > TAGS_VERSION {
                Err(StorageError::UnsupportedVersion(file.version))
            } else {
                let mut file = file;
                file.version = TAGS_VERSION;
                Ok(file)
            }
        },
    }
}

/// Every one of `tags` is among `known`.
pub open spec fn all_known(known: Seq<Seq<char>>, tags: Seq<Seq<char>>) -> bool {
    forall|i: int| 0 <= i < tags.len() ==> known.contains(#[trigger] tags[i])
}

/// `all` lists in ascending order, once each, the tags of both lists.
pub open spec fn is_union(
    all: Seq<Seq<char>>,
    known: Seq<Seq<char>>,
    tags: Seq<Seq<char>>,
) -> bool {
    &&& strictly_ascending(all)
    &&& forall|t: Seq<char>| #[trigger] all.contains(t) <==> known.contains(t) || tags.contains(t)
}

/// The tags in use after some were set: the same where all were known, or else all of
/// them in ascending order.
pub open spec fn index_merged(
    before: TagIndexView,
    after: TagIndexView,
    tags: Seq<Seq<char>>,
    now: u64,
) -> bool {
    if all_known(before.tags, tags) {
        after == before
    } else {
        &&& is_union(after.tags, before.tags, tags)
        &&& after.last_updated == now
        &&& after.version == before.version
    }
}

/// The tags of a repository.
#[derive(Debug)]
pub struct TagManager {
    pub index: TagIndexFile,
}

impl TagManager {
    /// The tags of a repository, from the index on disk, if there is one.
    pub fn try_new(read: Option<TagIndexFile>, now: u64) -> (r: Result<Self, StorageError>)
        ensures
            ({
                let given = match read {
                    Some(file) => Some(file@),
                    None => None,
                };
                match r {
                    Ok(m) => accepted_index(given, now) == Ok::<_, StorageError>(m.index@),
                    Err(e) => accepted_index(given, now) == Err::<TagIndexView, _>(e),
                }
            }),
    {
        match load_index_file(read, now) {
            Ok(index) => Ok(TagManager { index }),
            Err(e) => Err(e),
        }
    }

    /// The tags in use.
    pub fn tags(&self) -> (r: &Vec<String>)
        ensures
            *r == self.index.tags,
    {
        &self.index.tags
    }

    /// The name of the tag file of a scope.
    pub fn scope_path(&self, scope: &DiffScope) -> (r: String)
        ensures
            r@ == scope_file(scope@),
    {
        scope_file_name(scope)
    }

    /// Adds tags to those in use, and says whether the index has to be saved.
    pub fn merge_tags(&mut self, tags: Vec<String>, now: u64) -> (updated: bool)
        ensures
            index_merged(old(self).index@, final(self).index@, strs(tags@), now),
            updated == !all_known(old(self).index@.tags, strs(tags@)),
    {
        let ghost known = strs(self.index.tags@);
        let ghost given = strs(tags@);
        let mut updated = false;
        let mut i: usize = 0;
        while i < tags.len()
            invariant
                i <= tags@.len(),
                given == strs(tags@),
                self.index.version == old(self).index.version,
                self.index.last_updated == old(self).index.last_updated,
                known == strs(old(self).index.tags@),
                forall|t: Seq<char>| #[trigger]
                    strs(self.index.tags@).contains(t) <==> known.contains(t) || given.take(
                        i as int,
                    ).contains(t),
                updated == !all_known(known, given.take(i as int)),
                !updated ==> strs(self.index.tags@) == known,
            decreases tags@.len() - i,
        {
            let ghost before = strs(self.index.tags@);
            let ghost seen = given.take(i as int);
            let ghost more = given.take(i + 1);
            assert(more == seen.push(given[i as int]));
            let is_known = has_line(&self.index.tags, &tags[i]);
            proof {
                lemma_known_push(known, seen, given[i as int]);
            }
            if !is_known {
                self.index.tags.push(tags[i].clone());
                updated = true;
                assert(strs(self.index.tags@) == before.push(given[i as int]));
                assert(!known.contains(given[i as int]));
            } else if !updated {
                assert(known.contains(given[i as int]));
            }
            proof {
                assert forall|t: Seq<char>| #[trigger]
                    strs(self.index.tags@).contains(t) <==> known.contains(t) || more.contains(
                        t,
                    ) by {
                    assert(before.contains(t) <==> known.contains(t) || seen.contains(t));
                    push_contains(seen, given[i as int], t);
                    push_contains(before, given[i as int], t);
                }
            }
            i += 1;
        }
        assert(given.take(i as int) == given);
        if updated {
            let ghost unsorted = strs(self.index.tags@);
            sort_strings(&mut self.index.tags);
            proof {
                same_multiset_same_elements(strs(self.index.tags@), unsorted);
            }
            dedup_sorted(&mut self.index.tags);
            self.index.last_updated = now;
            assert forall|t: Seq<char>| #[trigger]
                strs(self.index.tags@).contains(t) <==> known.contains(t) || given.contains(t) by {
                assert(unsorted.contains(t) <==> known.contains(t) || given.contains(t));
            }
        }
        updated
    }
}

proof fn lemma_known_push(known: Seq<Seq<char>>, seen: Seq<Seq<char>>, t: Seq<char>)
    ensures
        all_known(known, seen.push(t)) <==> all_known(known, seen) && known.contains(t),
{
    let more = seen.push(t);
    if all_known(known, more) {
        assert forall|i: int| 0 <= i < seen.len() implies known.contains(#[trigger] seen[i]) by {
            assert(known.contains(more[i]));
        }
        assert(known.contains(more[seen.len() as int]));
    }
}


// ---------------------------------------------------------------------------
// The tags of hunks
// ---------------------------------------------------------------------------
/// Stored tags that are on the hunk by their position.
pub open spec fn tags_at_position(file: FileDiff, hunk: usize) -> spec_fn(StoredTagsView) -> bool {
    |s: StoredTagsView| marks_position(s.mark, file, hunk)
}

/// Stored tags that are not on the hunk: neither are they at its position, nor do they lead
/// to it.
pub open spec fn tags_off_hunk(file: FileDiff, hunk: usize) -> spec_fn(StoredTagsView) -> bool {
    |s: StoredTagsView| !marks_position(s.mark, file, hunk) && !leads_to(s.mark, file, hunk)
}

/// Stored tags that are on the hunk by what was stored of the hunk.
pub open spec fn tags_in_context(file: FileDiff, hunk: usize) -> spec_fn(StoredTagsView) -> bool {
    |s: StoredTagsView| marks_context(s.mark, file, hunk)
}

/// The first entry that is on the hunk: by its position, or else by what was stored of
/// the hunk.
pub open spec fn entry_of_hunk(
    hunks: Seq<StoredTagsView>,
    file: FileDiff,
    hunk: usize,
) -> Option<int> {
    match first_where(hunks, 0, tags_at_position(file, hunk)) {
        Some(p) => Some(p),
        None => first_where(hunks, 0, tags_in_context(file, hunk)),
    }
}

/// The position of the first entry that is on the hunk.
fn find_entry(
    hunks: &Vec<PersistentHunkTags>,
    files: &Vec<FileDiff>,
    file_index: usize,
    hunk_index: usize,
) -> (r: Option<usize>)
    requires
        files_wf(files@),
        file_index < files@.len(),
    ensures
        match r {
            Some(p) => entry_of_hunk(views(hunks@), files@[file_index as int], hunk_index) == Some(
                p as int,
            ) && p < hunks@.len(),
            None => entry_of_hunk(views(hunks@), files@[file_index as int], hunk_index) is None,
        },
{
    let file = &files[file_index];
    let by_position = |s: &PersistentHunkTags| -> (b: bool)
        ensures
            b == tags_at_position(*file, hunk_index)(s@),
    {
        is_at_position(&s.mark, file, hunk_index)
    };
    let found = find_first_view(
        hunks,
        by_position,
        Ghost(tags_at_position(*file, hunk_index)),
    );
    if found.is_some() {
        return found;
    }
    let by_context = |s: &PersistentHunkTags| -> (b: bool)
        ensures
            b == tags_in_context(files@[file_index as int], hunk_index)(s@),
    {
        is_in_context(&s.mark, files, file_index, hunk_index)
    };
    find_first_view(hunks, by_context, Ghost(tags_in_context(*file, hunk_index)))
}

/// Removes the entries that are on the hunk.
fn remove_entries(
    hunks: &mut Vec<PersistentHunkTags>,
    files: &Vec<FileDiff>,
    file_index: usize,
    hunk_index: usize,
)
    requires
        files_wf(files@),
        file_index < files@.len(),
    ensures
        views(final(hunks)@) == kept(
            views(old(hunks)@),
            tags_off_hunk(files@[file_index as int], hunk_index),
        ),
{
    let file = &files[file_index];
    let others = |s: &PersistentHunkTags| -> (b: bool)
        ensures
            b == tags_off_hunk(files@[file_index as int], hunk_index)(s@),
    {
        !is_at_position(&s.mark, file, hunk_index) && !is_leading_to(
            &s.mark,
            files,
            file_index,
            hunk_index,
        )
    };
    retain_view(hunks, others, Ghost(tags_off_hunk(*file, hunk_index)));
}

/// The entries of all other files are the same, in the same order.
pub open spec fn others_kept(
    before: Seq<StoredTagsView>,
    after: Seq<StoredTagsView>,
    filename: Seq<char>,
) -> bool {
    after.filter(|s: StoredTagsView| s.mark.filename != filename) == before.filter(
        |s: StoredTagsView| s.mark.filename != filename,
    )
}

/// The stored tags after those of a hunk were set: removed where none are given, put in
/// the place of the entry that is on the hunk, or added.
pub open spec fn tags_set(
    hunks: Seq<StoredTagsView>,
    file: FileDiff,
    hunk: usize,
    tags: Seq<Seq<char>>,
) -> Seq<StoredTagsView> {
    let entry = StoredTagsView { mark: mark_of_hunk(file, hunk), tags };
    if tags.len() == 0 {
        kept(hunks, tags_off_hunk(file, hunk))
    } else {
        match entry_of_hunk(hunks, file, hunk) {
            Some(p) => hunks.update(p, entry),
            None => hunks.push(entry),
        }
    }
}

/// Stored tags at their place in the viewer.
pub open spec fn tags_shown_at(s: StoredTagsView, place: (int, int)) -> HunkTagsView {
    HunkTagsView {
        file_index: place.0 as usize,
        hunk_index: place.1 as usize,
        filename: s.mark.filename,
        tags: s.tags,
    }
}

/// The stored tags that have a place in the viewer, each at its place.
pub open spec fn all_tags_shown(files: Seq<FileDiff>, stored: Seq<StoredTagsView>) -> Seq<
    HunkTagsView,
>
    decreases stored.len(),
{
    if stored.len() == 0 {
        seq![]
    } else {
        let before = all_tags_shown(files, stored.drop_last());
        match place_of_mark(files, stored.last().mark) {
            Some(place) => before.push(tags_shown_at(stored.last(), place)),
            None => before,
        }
    }
}

/// The stored tags that have a place in the viewer, each at its place.
fn show_tags(files: &Vec<FileDiff>, stored: &Vec<PersistentHunkTags>) -> (r: Vec<HunkTags>)
    requires
        files_wf(files@),
    ensures
        views(r@) == all_tags_shown(files@, views(stored@)),
{
    let mut r: Vec<HunkTags> = Vec::new();
    let mut i: usize = 0;
    assert(views(stored@).take(0) == Seq::<StoredTagsView>::empty());
    assert(views(r@) == Seq::<HunkTagsView>::empty());
    while i < stored.len()
        invariant
            files_wf(files@),
            i <= stored@.len(),
            views(r@) == all_tags_shown(files@, views(stored@).take(i as int)),
        decreases stored@.len() - i,
    {
        let entry = &stored[i];
        let ghost before = views(r@);
        assert(views(stored@).take(i + 1).drop_last() == views(stored@).take(i as int));
        if let Some((file_index, hunk_index)) = find_place_of_mark(files, &entry.mark) {
            let tags = entry.tags.clone();
            assert(strs(tags@) == strs(entry.tags@));
            r.push(
                HunkTags {
                    file_index,
                    hunk_index,
                    filename: entry.mark.filename.clone(),
                    tags,
                },
            );
            assert(views(r@) == before.push(
                tags_shown_at(entry@, (file_index as int, hunk_index as int)),
            ));
        }
        i += 1;
    }
    assert(views(stored@).take(i as int) == views(stored@));
    r
}

impl TagManager {
    /// Shows the tags of a scope: those of its file, or none where the file could not be
    /// used. The tags in use are shown either way.
    pub fn load_for_scope(&self, state: &mut AppState, file: Option<TagFile>)
        requires
            files_wf(old(state).file_diffs@),
        ensures
            strs(final(state).tag_inventory@) == self.index@.tags,
            final(state).tag_inventory@.len() == self.index.tags@.len(),
            file is None ==> final(state).hunk_tags@.len() == 0,
            final(state).annotations == old(state).annotations,
            final(state).reviewed_hunks == old(state).reviewed_hunks,
            views(final(state).hunk_tags@) == (match file {
                Some(f) => all_tags_shown(old(state).file_diffs@, f@.hunks),
                None => seq![],
            }),
            *final(state) == (AppState {
                hunk_tags: final(state).hunk_tags,
                tag_inventory: final(state).tag_inventory,
                ..*old(state)
            }),
    {
        state.tag_inventory = self.index.tags.clone();
        assert(strs(state.tag_inventory@) == strs(self.index.tags@));
        assert(strs(state.tag_inventory@).len() == strs(self.index.tags@).len());
        match file {
            Some(f) => {
                state.hunk_tags = show_tags(&state.file_diffs, &f.hunks);
            },
            None => {
                state.hunk_tags = Vec::new();
                assert(views(state.hunk_tags@) == Seq::<HunkTagsView>::empty());
                assert(state.hunk_tags@.len() == 0);
            },
        }
    }

    /// The tag file after the tags of a hunk were set, and the tags as they were set;
    /// nothing where there is no such file. The file is then to be saved, and the tags to
    /// be merged into those in use.
    pub fn set_hunk_tags(
        &self,
        state: &AppState,
        file_index: usize,
        hunk_index: usize,
        tags: Vec<String>,
        file: TagFile,
        now: u64,
    ) -> (r: Option<(TagFile, Vec<String>)>)
        requires
            files_wf(state.file_diffs@),
        ensures
            match r {
                None => file_index >= state.file_diffs@.len(),
                Some((after, set)) => {
                    &&& file_index < state.file_diffs@.len()
                    &&& strs(set@) == normalized(strs(tags@))
                    &&& after@ == (TagFileView {
                        hunks: tags_set(
                            file@.hunks,
                            state.file_diffs@[file_index as int],
                            hunk_index,
                            normalized(strs(tags@)),
                        ),
                        last_updated: now,
                        ..file@
                    })
                    &&& after@.last_updated == now && after@.version == file@.version
                    &&& after@.scope == file@.scope && after@.commit_id == file@.commit_id
                    &&& after@.base_commit_id == file@.base_commit_id
                    &&& others_kept(
                        file@.hunks,
                        after@.hunks,
                        state.file_diffs@[file_index as int].filename@,
                    )
                    &&& set@.len() > 0 ==> exists|i: int|
                        0 <= i < after@.hunks.len() && (#[trigger] after@.hunks[i]).tags == strs(
                            set@,
                        ) && after@.hunks[i].mark.filename
                            == state.file_diffs@[file_index as int].filename@
                            && after@.hunks[i].mark.hunk_index == hunk_index
                },
            },
    {
        if file_index >= state.file_diffs.len() {
            return None;
        }
        let mut file = file;
        let ghost hunks = views(file.hunks@);
        let set = normalize_tags(tags);
        assert(strs(set@).len() == set@.len());
        if set.len() == 0 {
            remove_entries(&mut file.hunks, &state.file_diffs, file_index, hunk_index);
        } else {
            let stored = set.clone();
            assert(strs(stored@) == strs(set@));
            let entry = PersistentHunkTags {
                mark: new_mark(&state.file_diffs, file_index, hunk_index),
                tags: stored,
            };
            let ghost e = entry@;
            match find_entry(&file.hunks, &state.file_diffs, file_index, hunk_index) {
                Some(p) => {
                    file.hunks.set(p, entry);
                    assert(views(file.hunks@) == hunks.update(p as int, e));
                },
                None => {
                    file.hunks.push(entry);
                    assert(views(file.hunks@) == hunks.push(e));
                },
            }
        }
        file.last_updated = now;
        proof {
            let shown = state.file_diffs@[file_index as int];
            let new = strs(set@);
            set_tags_keep_other_files(hunks, shown, hunk_index, new);
            assert(file@.hunks == tags_set(hunks, shown, hunk_index, new));
            if new.len() > 0 {
                set_tags_are_in_the_file(hunks, shown, hunk_index, new);
                let after = file@.hunks;
                let i = choose|i: int|
                    0 <= i < after.len() && (#[trigger] after[i]).tags == new
                        && after[i].mark.filename == shown.filename@ && after[i].mark.hunk_index
                        == hunk_index && after[i].mark == mark_of_hunk(shown, hunk_index);
                assert(after[i].tags == new);
            }
            assert(new.len() == set@.len());
        }
        Some((file, set))
    }
}

// ---------------------------------------------------------------------------
// Laws
// ---------------------------------------------------------------------------
proof fn lemma_tags_shown_contains(files: Seq<FileDiff>, stored: Seq<StoredTagsView>, i: int)
    requires
        0 <= i < stored.len(),
        place_of_mark(files, stored[i].mark) is Some,
    ensures
        all_tags_shown(files, stored).contains(
            tags_shown_at(stored[i], place_of_mark(files, stored[i].mark)->0),
        ),
    decreases stored.len(),
{
    let rest = stored.drop_last();
    let shown = tags_shown_at(stored[i], place_of_mark(files, stored[i].mark)->0);
    let before = all_tags_shown(files, rest);
    let all = all_tags_shown(files, stored);
    if i == stored.len() - 1 {
        assert(all[before.len() as int] == shown);
    } else {
        assert(rest[i] == stored[i]);
        lemma_tags_shown_contains(files, rest, i);
        let k = choose|k: int| 0 <= k < before.len() && before[k] == shown;
        assert(all[k] == shown);
    }
}

/// Tags that were set on a hunk are shown again when its scope is loaded, whatever else the
/// file holds: on the hunk that its lines lead to, which in a diff in order is the hunk
/// itself, as long as the diff is the same.
pub proof fn tags_that_were_set_are_shown(
    files: Seq<FileDiff>,
    file: int,
    hunk: usize,
    stored: Seq<StoredTagsView>,
    tags: Seq<Seq<char>>,
)
    requires
        0 <= file < files.len() <= usize::MAX,
        last_named(files, files.len() as int, files[file].filename@) == Some(file),
        hunk < files[file].hunks@.len(),
        tags.len() > 0,
    ensures
        hunk_of_mark(files[file], mark_of_hunk(files[file], hunk)) matches Some(h)
            && all_tags_shown(files, tags_set(stored, files[file], hunk, tags)).contains(
            HunkTagsView {
                file_index: file as usize,
                hunk_index: h as usize,
                filename: files[file].filename@,
                tags,
            },
        ) && (in_order(files[file]) ==> h == hunk),
{
    let after = tags_set(stored, files[file], hunk, tags);
    let entry = StoredTagsView { mark: mark_of_hunk(files[file], hunk), tags };
    new_mark_finds_its_hunk(files, file, hunk);
    first_where_is_first(stored, 0, tags_at_position(files[file], hunk));
    first_where_is_first(stored, 0, tags_in_context(files[file], hunk));
    let i = match entry_of_hunk(stored, files[file], hunk) {
        Some(p) => p,
        None => stored.len() as int,
    };
    assert(after[i] == entry);
    lemma_tags_shown_contains(files, after, i);
}

/// Setting no tags on a hunk leaves no entry at its position, and none that leads to it.
pub proof fn clearing_tags_removes_them(
    stored: Seq<StoredTagsView>,
    file: FileDiff,
    hunk: usize,
    i: int,
)
    requires
        0 <= i < tags_set(stored, file, hunk, seq![]).len(),
    ensures
        !marks_position(tags_set(stored, file, hunk, seq![])[i].mark, file, hunk),
        !leads_to(tags_set(stored, file, hunk, seq![])[i].mark, file, hunk),
{
    let after = tags_set(stored, file, hunk, seq![]);
    kept_elements(stored, tags_off_hunk(file, hunk));
    assert(after.contains(after[i]));
}

proof fn lemma_shown_from(
    files: Seq<FileDiff>,
    stored: Seq<StoredTagsView>,
    i: int,
) -> (k: int)
    requires
        0 <= i < all_tags_shown(files, stored).len(),
    ensures
        0 <= k < stored.len(),
        place_of_mark(files, stored[k].mark) is Some,
        all_tags_shown(files, stored)[i] == tags_shown_at(
            stored[k],
            place_of_mark(files, stored[k].mark)->0,
        ),
    decreases stored.len(),
{
    let rest = stored.drop_last();
    if i < all_tags_shown(files, rest).len() {
        let k = lemma_shown_from(files, rest, i);
        assert(stored[k] == rest[k]);
        k
    } else {
        stored.len() - 1
    }
}

/// A hunk whose tags were cleared has none when its scope is loaded, whatever else the file
/// holds.
pub proof fn cleared_tags_are_not_shown(
    files: Seq<FileDiff>,
    file: int,
    hunk: usize,
    stored: Seq<StoredTagsView>,
    i: int,
)
    requires
        0 <= file < files.len() <= usize::MAX,
        0 <= i < all_tags_shown(files, tags_set(stored, files[file], hunk, seq![])).len(),
    ensures
        ({
            let shown = all_tags_shown(files, tags_set(stored, files[file], hunk, seq![]))[i];
            !(shown.file_index == file && shown.hunk_index == hunk)
        }),
{
    let after = tags_set(stored, files[file], hunk, seq![]);
    let k = lemma_shown_from(files, after, i);
    clearing_tags_removes_them(stored, files[file], hunk, k);
    shown_marks_lead_to_their_hunk(files, after[k].mark);
    let (f, h) = place_of_mark(files, after[k].mark)->0;
    assert(files[f].hunks.len() == files[f].hunks@.len());
}

/// Setting the tags of a hunk takes no tag out of use, and brings the ones that were set
/// into use.
pub proof fn merging_keeps_tags_in_use(
    before: TagIndexView,
    after: TagIndexView,
    tags: Seq<Seq<char>>,
    now: u64,
)
    requires
        index_merged(before, after, tags, now),
    ensures
        forall|t: Seq<char>| before.tags.contains(t) ==> #[trigger] after.tags.contains(t),
        all_known(after.tags, tags),
        strictly_ascending(before.tags) ==> strictly_ascending(after.tags),
{
    if !all_known(before.tags, tags) {
        assert forall|i: int| 0 <= i < tags.len() implies after.tags.contains(#[trigger] tags[i]) by {
            assert(tags.contains(tags[i]));
        }
    }
}

} // verus!
