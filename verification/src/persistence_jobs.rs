//! Jobs on stored annotations as a whole: what holds once every file that a job asks for
//! has been read or saved.

use vstd::prelude::*;

use crate::diff::{has_changed_line, in_order, FileDiff};
use crate::persistence::{
    accepted_file, all_shown, base_lost, begin_job, commit_step, file_upserted, has_id,
    has_other_id, holds_id, is_named, migrated, next_step, orphaned, place_of, stored_of, upserted,
    with_migrated, with_orphans, AnnotationFileView, AnnotationScope, JobView, ManagerView, Outcome,
    PendingView, RequestView, ScopeView, StoredView, STORAGE_VERSION,
};
use crate::persistence_laws::{
    at_most_once, lemma_place_of_stored, lemma_shown_contains, lemma_shown_ids, lemma_shown_once,
    lemma_with_migrated_keeps, lemma_with_migrated_single, shows_again,
    stored_annotation_is_shown_again, upsert_is_found, upsert_keeps_ids_single,
};
use crate::seqs::{first_where, first_where_is_first, kept, kept_all, kept_elements};
use crate::state::AnnotationView;
use crate::storage::StorageError;

verus! {

/// How many files are still to be saved at most before a job is done.
pub open spec fn saves_left(request: RequestView) -> nat {
    match request {
        RequestView::SaveWorkingTree(p) => pending_saves(p) + 1,
        RequestView::SaveOrphans(p) => pending_saves(p) + 1,
        _ => 0,
    }
}

/// How many files are to be saved at most from a point of a job on.
pub open spec fn pending_saves(pending: PendingView) -> nat {
    match pending {
        PendingView::SetBase(_, _) => 2,
        PendingView::ChangeWorkingTree(_) => 1,
        PendingView::MigrateOrphans(_, _) => 1,
        _ => 0,
    }
}

/// The end of a job whose files are all saved; `clock` tells the time of each step.
pub open spec fn finished(files: Seq<FileDiff>, o: Outcome, clock: spec_fn(nat) -> u64) -> Outcome
    decreases saves_left(o.request),
{
    let now = clock(saves_left(o.request));
    match o.request {
        RequestView::SaveWorkingTree(p) => finished(
            files,
            next_step(o.manager, files, p, now),
            clock,
        ),
        RequestView::SaveOrphans(p) => finished(files, next_step(o.manager, files, p, now), clock),
        _ => o,
    }
}

/// The end of a job on a working tree.
pub open spec fn tree_job(
    m: ManagerView,
    files: Seq<FileDiff>,
    base: Seq<char>,
    job: JobView,
    clock: spec_fn(nat) -> u64,
) -> Outcome {
    finished(files, begin_job(m, files, ScopeView::WorkingTree(base), job, clock(4)), clock)
}

/// The end of a job on a commit, up to the saving of the commit's file, from the file that
/// was read.
pub open spec fn commit_job(
    m: ManagerView,
    files: Seq<FileDiff>,
    commit_id: Seq<char>,
    job: JobView,
    read: AnnotationFileView,
    clock: spec_fn(nat) -> u64,
) -> Outcome {
    finished(files, commit_step(m, files, commit_id, job, read, clock(4)), clock)
}

/// The annotations that a working tree has on a base commit: none where those it holds are
/// of another one.
pub open spec fn own_annotations(m: ManagerView, base: Seq<char>) -> Seq<StoredView> {
    if base_lost(m, base) {
        seq![]
    } else {
        m.working_tree.annotations
    }
}

proof fn lemma_without(all: Seq<StoredView>, id: Seq<char>)
    ensures
        !holds_id(all, id) ==> kept(all, has_other_id(id)) == all,
        forall|a: StoredView| #[trigger] kept(all, has_other_id(id)).contains(a) ==> a.id != id,
{
    kept_elements(all, has_other_id(id));
    if !holds_id(all, id) {
        first_where_is_first(all, 0, has_id(id));
        assert forall|i: int| 0 <= i < all.len() implies has_other_id(id)(#[trigger] all[i]) by {
            assert(!has_id(id)(all[i]));
        }
        kept_all(all, has_other_id(id));
    }
}

/// A job on a working tree comes to its end, with the base commit noted, and with the job
/// done on the annotations that the working tree has on that commit.
pub proof fn working_tree_jobs_are_done(
    m: ManagerView,
    files: Seq<FileDiff>,
    base: Seq<char>,
    job: JobView,
    clock: spec_fn(nat) -> u64,
)
    ensures
        ({
            let end = tree_job(m, files, base, job, clock);
            let own = own_annotations(m, base);
            &&& end.request == RequestView::Done
            &&& end.manager.working_tree.base_commit_id == Some(base)
            &&& end.manager.working_tree.annotations == (match job {
                JobView::Load => own,
                JobView::Upsert(a) => upserted(own, a),
                JobView::Remove(id) => kept(own, has_other_id(id)),
            })
            &&& end.shown == (match job {
                JobView::Load => Some(all_shown(files, own)),
                _ => None,
            })
        }),
{
    reveal_with_fuel(finished, 4);
    if let JobView::Remove(id) = job {
        lemma_without(own_annotations(m, base), id);
    }
}

/// An annotation that is stored for a working tree is shown when the annotations of the
/// working tree are loaded next, as long as the diff and the base commit are the same, and
/// it is the only one with its id unless the working tree held several.
pub proof fn annotation_survives_in_the_working_tree(
    m: ManagerView,
    annotation: AnnotationView,
    files: Seq<FileDiff>,
    diff_reference: Option<Seq<char>>,
    base: Seq<char>,
    then: spec_fn(nat) -> u64,
    clock: spec_fn(nat) -> u64,
)
    requires
        annotation.file_index < files.len(),
        first_where(files, 0, is_named(annotation.filename)) == Some(annotation.file_index as int),
    ensures
        ({
            let scope = ScopeView::WorkingTree(base);
            let stored = stored_of(annotation, files, diff_reference, scope);
            let after = tree_job(m, files, base, JobView::Upsert(stored), then).manager;
            let shown = tree_job(after, files, base, JobView::Load, clock).shown;
            &&& shown is Some
            &&& shows_again(
                shown->0,
                files,
                annotation,
                stored,
                at_most_once(own_annotations(m, base), annotation.id),
            )
        }),
{
    let scope = ScopeView::WorkingTree(base);
    let stored = stored_of(annotation, files, diff_reference, scope);
    let own = own_annotations(m, base);
    let after = tree_job(m, files, base, JobView::Upsert(stored), then).manager;
    working_tree_jobs_are_done(m, files, base, JobView::Upsert(stored), then);
    working_tree_jobs_are_done(after, files, base, JobView::Load, clock);
    stored_annotation_is_shown_again(
        annotation,
        files,
        diff_reference,
        scope,
        own,
    );
}

/// An annotation that is removed from a working tree is not shown when the annotations of
/// the working tree are loaded next.
pub proof fn removed_annotation_is_not_shown(
    m: ManagerView,
    files: Seq<FileDiff>,
    base: Seq<char>,
    id: Seq<char>,
    then: spec_fn(nat) -> u64,
    clock: spec_fn(nat) -> u64,
)
    ensures
        ({
            let after = tree_job(m, files, base, JobView::Remove(id), then).manager;
            let shown = tree_job(after, files, base, JobView::Load, clock).shown;
            shown is Some && forall|a: AnnotationView| #[trigger]
                shown->0.contains(a) ==> a.id != id
        }),
{
    let own = own_annotations(m, base);
    let after = tree_job(m, files, base, JobView::Remove(id), then).manager;
    working_tree_jobs_are_done(m, files, base, JobView::Remove(id), then);
    working_tree_jobs_are_done(after, files, base, JobView::Load, clock);
    lemma_without(own, id);
    let left = kept(own, has_other_id(id));
    assert forall|a: AnnotationView| #[trigger] all_shown(files, left).contains(a) implies a.id
        != id by {
        lemma_shown_ids(files, left, a);
    }
}

/// A job on a commit comes to its end with the commit's file saved. Loading shows the
/// commit's annotations and those that have come to it from the working tree and from the
/// orphans.
pub proof fn commit_jobs_are_done(
    m: ManagerView,
    files: Seq<FileDiff>,
    commit_id: Seq<char>,
    job: JobView,
    read: AnnotationFileView,
    clock: spec_fn(nat) -> u64,
)
    ensures
        ({
            let end = commit_job(m, files, commit_id, job, read, clock);
            &&& end.request matches RequestView::SaveCommit(id, file)
            &&& id == commit_id
            &&& file.commit_id == Some(commit_id)
            &&& match job {
                JobView::Load => {
                    &&& end.shown == Some(all_shown(files, file.annotations))
                    &&& file == with_migrated(
                        with_migrated(
                            AnnotationFileView { commit_id: Some(commit_id), ..read },
                            m.working_tree.annotations,
                            files,
                            commit_id,
                            clock(4),
                        ),
                        m.orphans.annotations,
                        files,
                        commit_id,
                        clock(2),
                    )
                },
                JobView::Upsert(a) => {
                    &&& end.shown is None
                    &&& end.manager == m
                    &&& file.annotations == upserted(read.annotations, a)
                },
                JobView::Remove(id) => {
                    &&& end.shown is None
                    &&& end.manager == m
                    &&& file.annotations == kept(read.annotations, has_other_id(id))
                },
            }
        }),
{
    reveal_with_fuel(finished, 4);
    let file = AnnotationFileView { commit_id: Some(commit_id), ..read };
    match job {
        JobView::Load => {
            lemma_migrated_shape(file, m.working_tree.annotations, files, commit_id, clock(4));
            let with_tree = with_migrated(
                file,
                m.working_tree.annotations,
                files,
                commit_id,
                clock(4),
            );
            lemma_migrated_shape(with_tree, m.orphans.annotations, files, commit_id, clock(2));
        },
        JobView::Remove(id) => {
            lemma_without(read.annotations, id);
        },
        JobView::Upsert(_) => {},
    }
}

/// An annotation that is stored for a commit is shown when the annotations of the commit
/// are loaded next, as long as the diff is the same and no annotation with its id is
/// waiting elsewhere; and it is the only one with its id unless the commit held several.
pub proof fn annotation_survives_in_a_commit(
    m: ManagerView,
    annotation: AnnotationView,
    files: Seq<FileDiff>,
    diff_reference: Option<Seq<char>>,
    commit_id: Seq<char>,
    read: AnnotationFileView,
    then: spec_fn(nat) -> u64,
    clock: spec_fn(nat) -> u64,
)
    requires
        annotation.file_index < files.len(),
        first_where(files, 0, is_named(annotation.filename)) == Some(annotation.file_index as int),
        !holds_id(m.working_tree.annotations, annotation.id),
        !holds_id(m.orphans.annotations, annotation.id),
    ensures
        ({
            let stored = stored_of(annotation, files, diff_reference, ScopeView::Commit(commit_id));
            let saved = commit_job(m, files, commit_id, JobView::Upsert(stored), read, then);
            let file = saved.request->SaveCommit_1;
            let shown = commit_job(
                saved.manager,
                files,
                commit_id,
                JobView::Load,
                file,
                clock,
            ).shown;
            &&& shown is Some
            &&& shows_again(
                shown->0,
                files,
                annotation,
                stored,
                at_most_once(read.annotations, annotation.id),
            )
        }),
{
    let stored = stored_of(annotation, files, diff_reference, ScopeView::Commit(commit_id));
    let saved = commit_job(m, files, commit_id, JobView::Upsert(stored), read, then);
    let file = saved.request->SaveCommit_1;
    commit_jobs_are_done(m, files, commit_id, JobView::Upsert(stored), read, then);
    commit_jobs_are_done(m, files, commit_id, JobView::Load, file, clock);
    upsert_is_found(read.annotations, stored);
    first_where_is_first(file.annotations, 0, has_id(stored.id));
    assert(file.annotations.contains(stored));
    let begun = AnnotationFileView { commit_id: Some(commit_id), ..file };
    lemma_with_migrated_keeps(
        begun,
        m.working_tree.annotations,
        files,
        commit_id,
        clock(4),
        stored,
    );
    let with_tree = with_migrated(
        begun,
        m.working_tree.annotations,
        files,
        commit_id,
        clock(4),
    );
    lemma_with_migrated_keeps(
        with_tree,
        m.orphans.annotations,
        files,
        commit_id,
        clock(2),
        stored,
    );
    let all = with_migrated(
        with_tree,
        m.orphans.annotations,
        files,
        commit_id,
        clock(2),
    ).annotations;
    let i = choose|i: int| 0 <= i < all.len() && all[i] == stored;
    if in_order(files[annotation.file_index as int]) && has_changed_line(
        files[annotation.file_index as int],
        annotation.hunk_index as int,
    ) {
        lemma_place_of_stored(annotation, files, diff_reference, ScopeView::Commit(commit_id));
    }
    if place_of(files, stored) is Some {
        lemma_shown_contains(files, all, i);
    }
    if place_of(files, stored) is Some && at_most_once(read.annotations, stored.id) {
        upsert_keeps_ids_single(read.annotations, stored, stored.id);
        lemma_with_migrated_single(
            begun,
            m.working_tree.annotations,
            files,
            commit_id,
            clock(4),
            stored.id,
        );
        lemma_with_migrated_single(
            with_tree,
            m.orphans.annotations,
            files,
            commit_id,
            clock(2),
            stored.id,
        );
        lemma_shown_once(files, all, i);
    }
}

// ---------------------------------------------------------------------------
// What was saved can be read again
// ---------------------------------------------------------------------------
/// A file that is read as it was saved: its version is supported, and it is of the scope
/// that it is read for.
pub open spec fn readable(file: AnnotationFileView, scope: AnnotationScope) -> bool {
    file.version <= STORAGE_VERSION && file.scope == scope
}

/// Both files of a repository are read as they were saved.
pub open spec fn all_readable(m: ManagerView) -> bool {
    readable(m.working_tree, AnnotationScope::WorkingTree) && readable(
        m.orphans,
        AnnotationScope::Orphans,
    )
}

/// The files that a job carries along, or has saved, are read as they were saved.
pub open spec fn job_readable(request: RequestView) -> bool {
    match request {
        RequestView::SaveCommit(_, file) => readable(file, AnnotationScope::Commit),
        RequestView::SaveWorkingTree(PendingView::MigrateOrphans(_, file)) => readable(
            file,
            AnnotationScope::Commit,
        ),
        RequestView::SaveOrphans(PendingView::ShowCommit(_, file)) => readable(
            file,
            AnnotationScope::Commit,
        ),
        _ => true,
    }
}

proof fn lemma_orphans_shape(
    orphans: AnnotationFileView,
    moved: Seq<StoredView>,
    base: Seq<char>,
    now: u64,
)
    ensures
        with_orphans(orphans, moved, base, now).version == orphans.version,
        with_orphans(orphans, moved, base, now).scope == orphans.scope,
    decreases moved.len(),
{
    if moved.len() > 0 {
        lemma_orphans_shape(
            file_upserted(
                orphans,
                orphaned(moved[0], base),
                now,
            ),
            moved.drop_first(),
            base,
            now,
        );
    }
}

proof fn lemma_migrated_shape(
    file: AnnotationFileView,
    list: Seq<StoredView>,
    files: Seq<FileDiff>,
    commit_id: Seq<char>,
    now: u64,
)
    ensures
        with_migrated(file, list, files, commit_id, now).version == file.version,
        with_migrated(file, list, files, commit_id, now).scope == file.scope,
        with_migrated(file, list, files, commit_id, now).commit_id == file.commit_id,
    decreases list.len(),
{
    if list.len() > 0 {
        let next = file_upserted(
            file,
            migrated(list[0], commit_id),
            now,
        );
        lemma_migrated_shape(next, list.drop_first(), files, commit_id, now);
        lemma_migrated_shape(file, list.drop_first(), files, commit_id, now);
    }
}

/// A file that was saved is read back as it was.
pub proof fn saved_file_is_read_again(file: AnnotationFileView, scope: AnnotationScope, now: u64)
    requires
        readable(file, scope),
    ensures
        accepted_file(Some(file), scope, now) == Ok::<AnnotationFileView, StorageError>(file),
{
}

/// Whatever is read, the file that comes of it can be saved and read again.
pub proof fn accepted_files_are_readable(
    read: Option<AnnotationFileView>,
    scope: AnnotationScope,
    now: u64,
)
    ensures
        accepted_file(read, scope, now) matches Ok(file) ==> readable(file, scope),
{
}

/// Every step of a job leaves files that are read as they are saved.
pub proof fn steps_keep_files_readable(
    m: ManagerView,
    files: Seq<FileDiff>,
    scope: ScopeView,
    job: JobView,
    pending: PendingView,
    read: AnnotationFileView,
    commit_id: Seq<char>,
    now: u64,
)
    requires
        all_readable(m),
    ensures
        ({
            let o = begin_job(m, files, scope, job, now);
            all_readable(o.manager) && job_readable(o.request)
        }),
        readable(read, AnnotationScope::Commit) ==> ({
            let o = commit_step(m, files, commit_id, job, read, now);
            all_readable(o.manager) && job_readable(o.request)
        }),
        (job_readable(RequestView::SaveWorkingTree(pending)) && job_readable(
            RequestView::SaveOrphans(pending),
        )) ==> ({
            let o = next_step(m, files, pending, now);
            all_readable(o.manager) && job_readable(o.request)
        }),
{
    let tree = m.working_tree.annotations;
    lemma_orphans_shape(m.orphans, tree, m.working_tree.base_commit_id->0, now);
    let file = AnnotationFileView { commit_id: Some(commit_id), ..read };
    lemma_migrated_shape(file, tree, files, commit_id, now);
    if let PendingView::MigrateOrphans(id, carried) = pending {
        lemma_migrated_shape(carried, m.orphans.annotations, files, id, now);
    }
}

} // verus!
