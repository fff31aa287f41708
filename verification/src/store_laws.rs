//! What holds of stored annotations: what is remembered of each, where it is shown, and what
//! each step of a job changes.

use vstd::prelude::*;

use crate::diff::{hunk_context, matching_hunk, FileDiff};
use crate::marks_laws::keeping_is_filtering;
use crate::persistence::{
    accepted_file, all_shown, begin_job, commit_step, file_upserted, file_without, has_id,
    has_other_id, is_named, migrated, next_step, orphaned, place_of, stays, stored_of, upserted,
    with_migrated, with_orphans, AnnotationFileView, AnnotationScope, JobView, ManagerView,
    PendingView, RequestView, ScopeView, StoredView,
};
use crate::seqs::{first_where, first_where_is_first};
use crate::state::AnnotationView;
use crate::storage::StorageError;

verus! {

/// What is stored of an annotation is its id, its file, its text and its time, the lines and
/// texts of its hunk, and the scope that it comes from: the commit, or the base of the working
/// tree, and never both.
pub proof fn annotations_are_stored_with_their_origin(
    a: AnnotationView,
    files: Seq<FileDiff>,
    reference: Option<Seq<char>>,
    scope: ScopeView,
)
    ensures
        ({
            let s = stored_of(a, files, reference, scope);
            let context = hunk_context(files[a.file_index as int], a.hunk_index as int);
            &&& s.id == a.id && s.filename == a.filename && s.content == a.content
            &&& s.created_at == a.created_at.secs && s.diff_reference == reference
            &&& context matches Some(c) ==> {
                &&& s.old_line_range == c.old_line_range && s.new_line_range == c.new_line_range
                &&& s.context_before == c.context_before
                &&& s.context_changed == c.context_changed
                &&& s.context_after == c.context_after
                &&& s.diff_text == c.diff_text && s.change_type == c.change_type
            }
            &&& match scope {
                ScopeView::Commit(id) => s.origin_scope == Some(AnnotationScope::Commit)
                    && s.origin_commit_id == Some(id) && s.origin_base_commit_id is None,
                ScopeView::WorkingTree(base) => s.origin_scope == Some(AnnotationScope::WorkingTree)
                    && s.origin_base_commit_id == Some(base) && s.origin_commit_id is None,
            }
        }),
{
}

/// A stored annotation has its place in the first file of its name, at the hunk that its lines
/// and its text lead to, and none where there is no such file or no such hunk.
pub proof fn annotations_are_placed_by_name_and_lines(files: Seq<FileDiff>, a: StoredView)
    ensures
        match place_of(files, a) {
            Some((f, h)) => {
                &&& 0 <= f < files.len() && files[f].filename@ == a.filename
                &&& forall|k: int| 0 <= k < f ==> (#[trigger] files[k]).filename@ != a.filename
                &&& matching_hunk(
                    files[f],
                    a.new_line_range,
                    a.old_line_range,
                    a.context_changed,
                ) == Some(h)
            },
            None => forall|f: int|
                0 <= f < files.len() && (#[trigger] files[f]).filename@ == a.filename && (forall|
                    k: int,
                |
                    0 <= k < f ==> (#[trigger] files[k]).filename@ != a.filename) ==> matching_hunk(
                    files[f],
                    a.new_line_range,
                    a.old_line_range,
                    a.context_changed,
                ) is None,
        },
{
    first_where_is_first(files, 0, is_named(a.filename));
    let n = match first_where(files, 0, is_named(a.filename)) {
        Some(i) => i,
        None => files.len() as int,
    };
    assert forall|k: int| 0 <= k < n implies (#[trigger] files[k]).filename@ != a.filename by {
        assert(!is_named(a.filename)(files[k]));
    }
    if n < files.len() {
        assert(is_named(a.filename)(files[n]));
    }
}

/// Stored annotations are shown one after the other, so none depends on another one.
pub proof fn annotations_are_shown_in_order(
    files: Seq<FileDiff>,
    left: Seq<StoredView>,
    right: Seq<StoredView>,
)
    ensures
        all_shown(files, left + right) == all_shown(files, left) + all_shown(files, right),
    decreases right.len(),
{
    if right.len() > 0 {
        annotations_are_shown_in_order(files, left, right.drop_last());
        assert((left + right).drop_last() =~= left + right.drop_last());
        assert((left + right).last() == right.last());
        assert(all_shown(files, left + right) =~= all_shown(files, left) + all_shown(files, right));
    } else {
        assert(left + right =~= left);
        assert(all_shown(files, left) + all_shown(files, right) =~= all_shown(files, left));
    }
}

/// A stored annotation that has a place is shown there, with its id, its file, its text, its
/// time in seconds, and its lines on the new side, or else on the old one. One that has none is
/// not shown.
pub proof fn one_annotation_is_shown_at_its_place(files: Seq<FileDiff>, a: StoredView)
    ensures
        ({
            let r = all_shown(files, seq![a]);
            match place_of(files, a) {
                None => r.len() == 0,
                Some((f, h)) => {
                    &&& r.len() == 1
                    &&& r[0].id == a.id && r[0].content == a.content && r[0].filename == a.filename
                    &&& r[0].file_index == f as usize && r[0].hunk_index == h as usize
                    &&& r[0].created_at.secs == a.created_at && r[0].created_at.nanos == 0
                    &&& a.new_line_range is Some ==> r[0].line_range == a.new_line_range->0
                    &&& a.new_line_range is None && a.old_line_range is Some ==> r[0].line_range
                        == a.old_line_range->0
                    &&& a.new_line_range is None && a.old_line_range is None ==> r[0].line_range == (
                        0usize,
                        0usize,
                    )
                },
            }
        }),
{
    assert(seq![a].drop_last() =~= seq![]);
    assert(seq![a].last() == a);
    reveal_with_fuel(all_shown, 2);
}

/// Storing an annotation puts it in the place of the first one with its id, or at the end, and
/// leaves every other one where it is. Of the file only the time of the change differs besides.
pub proof fn storing_changes_one_entry(file: AnnotationFileView, a: StoredView, now: u64)
    ensures
        ({
            let before = file.annotations;
            let r = file_upserted(file, a, now);
            let has = |i: int| 0 <= i < before.len() && before[i].id == a.id;
            &&& r.version == file.version && r.scope == file.scope && r.commit_id == file.commit_id
            &&& r.base_commit_id == file.base_commit_id && r.last_updated == now
            &&& (forall|i: int| !#[trigger] has(i)) ==> r.annotations == before + seq![a]
            &&& forall|i: int| #[trigger]
                has(i) && (forall|k: int| #[trigger] has(k) ==> i <= k) ==> r.annotations
                    == before.take(i) + seq![a] + before.skip(i + 1)
        }),
{
    let before = file.annotations;
    let has = |i: int| 0 <= i < before.len() && before[i].id == a.id;
    first_where_is_first(before, 0, has_id(a.id));
    match first_where(before, 0, has_id(a.id)) {
        Some(k) => {
            assert(has(k));
            assert(upserted(before, a) =~= before.take(k) + seq![a] + before.skip(k + 1));
            assert forall|i: int| #[trigger]
                has(i) && (forall|j: int| #[trigger] has(j) ==> i <= j) implies i == k by {
                if i < k {
                    assert(!has_id(a.id)(before[i]));
                }
            }
        },
        None => {
            assert forall|i: int| !#[trigger] has(i) by {
                if has(i) {
                    assert(!has_id(a.id)(before[i]));
                }
            }
            assert(before.push(a) =~= before + seq![a]);
        },
    }
}

/// Removing an annotation keeps all with other ids, in order. Where none has the id the file
/// stays as it is, also in the time of its last change.
pub proof fn removing_keeps_other_ids(file: AnnotationFileView, id: Seq<char>, now: u64)
    ensures
        ({
            let r = file_without(file, id, now);
            let found = exists|i: int|
                0 <= i < file.annotations.len() && (#[trigger] file.annotations[i]).id == id;
            &&& found ==> r == (AnnotationFileView {
                annotations: file.annotations.filter(|a: StoredView| a.id != id),
                last_updated: now,
                ..file
            })
            &&& !found ==> r == file
        }),
{
    keeping_is_filtering(file.annotations, has_other_id(id));
    assert(has_other_id(id) =~= (|a: StoredView| a.id != id));
    first_where_is_first(file.annotations, 0, has_id(id));
    match first_where(file.annotations, 0, has_id(id)) {
        Some(i) => {
            assert(file.annotations[i].id == id);
        },
        None => {
            assert forall|i: int| 0 <= i < file.annotations.len() implies (
            #[trigger] file.annotations[i]).id != id by {
                assert(!has_id(id)(file.annotations[i]));
            }
        },
    }
}

/// An annotation that loses its base, or that moves to a commit, keeps its id, its text and
/// what is known of its hunk; it remembers the base or the commit.
pub proof fn moved_annotations_change_their_origin_alone(a: StoredView, id: Seq<char>)
    ensures
        ({
            let o = orphaned(a, id);
            let m = migrated(a, id);
            &&& o.origin_scope == Some(AnnotationScope::WorkingTree)
            &&& o.origin_base_commit_id == Some(id) && o.origin_commit_id == a.origin_commit_id
            &&& m.origin_scope == Some(AnnotationScope::Commit)
            &&& m.origin_commit_id == Some(id) && m.origin_base_commit_id == a.origin_base_commit_id
            &&& forall|s: StoredView|
                s == o || s == m ==> {
                    &&& (#[trigger] s.id) == a.id && s.filename == a.filename && s.content
                        == a.content
                    &&& s.created_at == a.created_at && s.diff_reference == a.diff_reference
                    &&& s.old_line_range == a.old_line_range && s.new_line_range == a.new_line_range
                    &&& s.context_before == a.context_before && s.context_changed
                        == a.context_changed && s.context_after == a.context_after
                    &&& s.diff_text == a.diff_text && s.change_type == a.change_type
                }
        }),
{
}

/// Annotations that lost their base are stored among the orphans one by one, in order.
pub proof fn orphans_are_stored_in_order(
    orphans: AnnotationFileView,
    left: Seq<StoredView>,
    right: Seq<StoredView>,
    one: StoredView,
    base: Seq<char>,
    now: u64,
)
    ensures
        with_orphans(orphans, seq![], base, now) == orphans,
        with_orphans(orphans, seq![one], base, now) == file_upserted(
            orphans,
            orphaned(one, base),
            now,
        ),
        with_orphans(orphans, left + right, base, now) == with_orphans(
            with_orphans(orphans, left, base, now),
            right,
            base,
            now,
        ),
    decreases left.len(),
{
    reveal_with_fuel(with_orphans, 2);
    assert(seq![one].drop_first() =~= seq![]);
    if left.len() > 0 {
        orphans_are_stored_in_order(
            file_upserted(orphans, orphaned(left[0], base), now),
            left.drop_first(),
            right,
            one,
            base,
            now,
        );
        assert((left + right).drop_first() =~= left.drop_first() + right);
        assert((left + right)[0] == left[0]);
    } else {
        assert(left + right =~= right);
    }
}

/// Annotations that have a place in a commit are stored there one by one, in order; the others
/// are passed over.
pub proof fn placed_annotations_move_in_order(
    file: AnnotationFileView,
    left: Seq<StoredView>,
    right: Seq<StoredView>,
    one: StoredView,
    files: Seq<FileDiff>,
    id: Seq<char>,
    now: u64,
)
    ensures
        with_migrated(file, seq![], files, id, now) == file,
        place_of(files, one) is None ==> with_migrated(file, seq![one], files, id, now) == file,
        place_of(files, one) is Some ==> with_migrated(file, seq![one], files, id, now)
            == file_upserted(file, migrated(one, id), now),
        with_migrated(file, left + right, files, id, now) == with_migrated(
            with_migrated(file, left, files, id, now),
            right,
            files,
            id,
            now,
        ),
    decreases left.len(),
{
    reveal_with_fuel(with_migrated, 2);
    assert(seq![one].drop_first() =~= seq![]);
    if left.len() > 0 {
        let next = if place_of(files, left[0]) is Some {
            file_upserted(file, migrated(left[0], id), now)
        } else {
            file
        };
        placed_annotations_move_in_order(next, left.drop_first(), right, one, files, id, now);
        assert((left + right).drop_first() =~= left.drop_first() + right);
        assert((left + right)[0] == left[0]);
    } else {
        assert(left + right =~= right);
    }
}

/// A job on a commit first reads the file of that commit, and changes nothing before. A job on
/// the working tree saves the orphans first, where annotations lose their base, and then leaves
/// none of them in the tree; where the base is new it is noted and saved first; and where
/// nothing differs nothing is saved but what the job itself changes.
pub proof fn jobs_begin_with_what_is_lost(
    m: ManagerView,
    files: Seq<FileDiff>,
    base: Seq<char>,
    job: JobView,
    now: u64,
)
    ensures
        ({
            let c = begin_job(m, files, ScopeView::Commit(base), job, now);
            let r = begin_job(m, files, ScopeView::WorkingTree(base), job, now);
            let tree = m.working_tree;
            &&& c.manager == m && c.request == RequestView::ReadCommit(base, job) && c.shown is None
            &&& match tree.base_commit_id {
                Some(b) => if b == base {
                    r == next_step(m, files, PendingView::ChangeWorkingTree(job), now)
                } else if tree.annotations.len() > 0 {
                    &&& r.request == RequestView::SaveOrphans(PendingView::SetBase(base, job))
                    &&& r.shown is None
                    &&& r.manager.working_tree == (AnnotationFileView {
                        annotations: seq![],
                        ..tree
                    })
                    &&& r.manager.orphans == with_orphans(m.orphans, tree.annotations, b, now)
                } else {
                    r == next_step(m, files, PendingView::SetBase(base, job), now)
                },
                None => r == next_step(m, files, PendingView::SetBase(base, job), now),
            }
        }),
{
}

/// Noting a base changes the base and the time of the working tree, saves it, and goes on with
/// the job; nothing is noted or saved where the base is the same.
pub proof fn noting_the_base_keeps_the_rest(
    m: ManagerView,
    files: Seq<FileDiff>,
    base: Seq<char>,
    job: JobView,
    now: u64,
)
    ensures
        ({
            let r = next_step(m, files, PendingView::SetBase(base, job), now);
            if m.working_tree.base_commit_id == Some(base) {
                r == next_step(m, files, PendingView::ChangeWorkingTree(job), now)
            } else {
                &&& r.request == RequestView::SaveWorkingTree(PendingView::ChangeWorkingTree(job))
                &&& r.shown is None
                &&& r.manager.orphans == m.orphans
                &&& r.manager.working_tree.base_commit_id == Some(base)
                &&& r.manager.working_tree.last_updated == now
                &&& r.manager.working_tree.annotations == m.working_tree.annotations
                &&& r.manager.working_tree.version == m.working_tree.version
                &&& r.manager.working_tree.scope == m.working_tree.scope
                &&& r.manager.working_tree.commit_id == m.working_tree.commit_id
            }
        }),
{
}

/// On the working tree, loading shows its annotations and saves nothing; storing and removing
/// change one annotation, save the tree and are then done. The orphans stay.
pub proof fn tree_jobs_change_the_tree(
    m: ManagerView,
    files: Seq<FileDiff>,
    a: StoredView,
    id: Seq<char>,
    now: u64,
)
    ensures
        ({
            let load = next_step(m, files, PendingView::ChangeWorkingTree(JobView::Load), now);
            let put = next_step(m, files, PendingView::ChangeWorkingTree(JobView::Upsert(a)), now);
            let cut = next_step(m, files, PendingView::ChangeWorkingTree(JobView::Remove(id)), now);
            let last = next_step(m, files, PendingView::Finish, now);
            &&& load.manager == m && load.request == RequestView::Done
            &&& load.shown == Some(all_shown(files, m.working_tree.annotations))
            &&& put.manager.orphans == m.orphans && put.shown is None
            &&& put.manager.working_tree == file_upserted(m.working_tree, a, now)
            &&& put.request == RequestView::SaveWorkingTree(PendingView::Finish)
            &&& cut.manager.orphans == m.orphans && cut.shown is None
            &&& cut.manager.working_tree == file_without(m.working_tree, id, now)
            &&& cut.request == RequestView::SaveWorkingTree(PendingView::Finish)
            &&& last.manager == m && last.request == RequestView::Done && last.shown is None
        }),
{
}

/// Once the file of a commit is read, storing and removing change one annotation of it and save
/// it, and nothing of the working tree. Loading moves the annotations that have a place there
/// out of the working tree, then out of the orphans, and saves each before the commit; what has
/// no place stays, in order. The commit is noted in its file.
pub proof fn commit_jobs_change_the_commit(
    m: ManagerView,
    files: Seq<FileDiff>,
    id: Seq<char>,
    a: StoredView,
    gone: Seq<char>,
    read: AnnotationFileView,
    now: u64,
)
    ensures
        ({
            let file = AnnotationFileView { commit_id: Some(id), ..read };
            let put = commit_step(m, files, id, JobView::Upsert(a), read, now);
            let cut = commit_step(m, files, id, JobView::Remove(gone), read, now);
            let load = commit_step(m, files, id, JobView::Load, read, now);
            let more = next_step(m, files, PendingView::MigrateOrphans(id, file), now);
            let show = next_step(m, files, PendingView::ShowCommit(id, file), now);
            &&& put.manager == m && put.shown is None
            &&& put.request == RequestView::SaveCommit(id, file_upserted(file, a, now))
            &&& cut.manager == m && cut.shown is None
            &&& cut.request == RequestView::SaveCommit(id, file_without(file, gone, now))
            &&& load.shown is None && load.manager.orphans == m.orphans
            &&& load.manager.working_tree == (AnnotationFileView {
                annotations: m.working_tree.annotations.filter(
                    |s: StoredView| place_of(files, s) is None,
                ),
                ..m.working_tree
            })
            &&& load.request == RequestView::SaveWorkingTree(
                PendingView::MigrateOrphans(
                    id,
                    with_migrated(file, m.working_tree.annotations, files, id, now),
                ),
            )
            &&& more.shown is None && more.manager.working_tree == m.working_tree
            &&& more.manager.orphans == (AnnotationFileView {
                annotations: m.orphans.annotations.filter(
                    |s: StoredView| place_of(files, s) is None,
                ),
                ..m.orphans
            })
            &&& more.request == RequestView::SaveOrphans(
                PendingView::ShowCommit(
                    id,
                    with_migrated(file, m.orphans.annotations, files, id, now),
                ),
            )
            &&& show.manager == m && show.request == RequestView::SaveCommit(id, file)
            &&& show.shown == Some(all_shown(files, file.annotations))
        }),
{
    keeping_is_filtering(m.working_tree.annotations, stays(files));
    keeping_is_filtering(m.orphans.annotations, stays(files));
    assert(stays(files) =~= (|s: StoredView| place_of(files, s) is None));
}

/// A file that is not there counts as an empty one of this version. A later version is refused
/// by its number. What is read is kept, but for the scope, which is that of the file.
pub proof fn files_of_this_version_are_accepted(
    file: AnnotationFileView,
    scope: AnnotationScope,
    now: u64,
)
    ensures
        accepted_file(None, scope, now) matches Ok(empty) && empty.version == 1
            && empty.annotations.len() == 0 && empty.last_updated == now && empty.scope == scope
            && empty.commit_id is None && empty.base_commit_id is None,
        file.version > 1 ==> accepted_file(Some(file), scope, now) == Err::<
            AnnotationFileView,
            StorageError,
        >(StorageError::UnsupportedVersion(file.version)),
        file.version <= 1 ==> (accepted_file(Some(file), scope, now) matches Ok(r) && r.scope
            == scope && r.version == file.version && r.last_updated == file.last_updated
            && r.commit_id == file.commit_id && r.base_commit_id == file.base_commit_id
            && r.annotations == file.annotations),
{
}

} // verus!
