//! What holds of stored annotations whatever is done with them.

use vstd::prelude::*;

use crate::diff::{has_changed_line, in_order, stored_context_finds_its_hunk, FileDiff};
use crate::persistence::{
    all_shown, base_lost, begin_job, commit_step, file_upserted, file_without, has_id, has_other_id,
    holds_id, is_named, migrated, next_step, orphaned, place_of, shown_at, shown_range, stays,
    stored_of, tree_orphaned, upserted, with_migrated, with_orphans, AnnotationFileView, JobView,
    ManagerView, PendingView, RequestView, ScopeView, StoredView,
};
use crate::seqs::{
    first_where, first_where_at, first_where_is_first, kept, kept_all, kept_elements, kept_push,
};
use crate::state::{AnnotationView, TimePoint};

verus! {

/// No two annotations have the same id.
pub open spec fn ids_unique(s: Seq<StoredView>) -> bool {
    forall|i: int, j: int| 0 <= i < j < s.len() ==> (#[trigger] s[i]).id != (#[trigger] s[j]).id
}

/// No two annotations have the id.
pub open spec fn at_most_once(s: Seq<StoredView>, id: Seq<char>) -> bool {
    forall|i: int, j: int|
        0 <= i < j < s.len() ==> !((#[trigger] s[i]).id == id && (#[trigger] s[j]).id == id)
}

proof fn lemma_holds(s: Seq<StoredView>, id: Seq<char>)
    ensures
        holds_id(s, id) <==> exists|i: int| 0 <= i < s.len() && (#[trigger] s[i]).id == id,
{
    first_where_is_first(s, 0, has_id(id));
    if holds_id(s, id) {
        let k = first_where(s, 0, has_id(id))->0;
        assert(s[k].id == id);
    } else {
        assert forall|i: int| 0 <= i < s.len() implies (#[trigger] s[i]).id != id by {
            assert(!has_id(id)(s[i]));
        }
    }
}

proof fn lemma_contains_holds(s: Seq<StoredView>, a: StoredView)
    requires
        s.contains(a),
    ensures
        holds_id(s, a.id),
{
    lemma_holds(s, a.id);
    let i = choose|i: int| 0 <= i < s.len() && s[i] == a;
    assert(s[i].id == a.id);
}

/// An annotation that was upserted is the one that is found under its id.
pub proof fn upsert_is_found(s: Seq<StoredView>, a: StoredView)
    ensures
        first_where(upserted(s, a), 0, has_id(a.id)) matches Some(i) && upserted(s, a)[i] == a,
        upserted(s, a).contains(a),
{
    let u = upserted(s, a);
    first_where_is_first(s, 0, has_id(a.id));
    match first_where(s, 0, has_id(a.id)) {
        Some(i) => {
            assert forall|j: int| 0 <= j < i implies !has_id(a.id)(#[trigger] u[j]) by {
                assert(!has_id(a.id)(s[j]));
            }
            assert(u[i] == a);
            first_where_at(u, 0, has_id(a.id), i);
        },
        None => {
            let i = s.len() as int;
            assert forall|j: int| 0 <= j < i implies !has_id(a.id)(#[trigger] u[j]) by {
                assert(!has_id(a.id)(s[j]));
            }
            assert(u[i] == a);
            first_where_at(u, 0, has_id(a.id), i);
        },
    }
}

/// Upserting leaves the annotations with other ids as they are, and adds no id but the
/// one that was given.
pub proof fn upsert_keeps_the_others(s: Seq<StoredView>, a: StoredView)
    ensures
        forall|x: StoredView| x.id != a.id ==> (#[trigger] upserted(s, a).contains(x) <==> s.contains(x)),
        forall|id: Seq<char>| #[trigger]
            holds_id(upserted(s, a), id) <==> holds_id(s, id) || id == a.id,
{
    let u = upserted(s, a);
    first_where_is_first(s, 0, has_id(a.id));
    upsert_is_found(s, a);
    let at = match first_where(s, 0, has_id(a.id)) {
        Some(i) => i,
        None => s.len() as int,
    };
    assert(u[at] == a);
    assert(forall|i: int| 0 <= i < s.len() && i != at ==> u[i] == s[i]);
    assert forall|x: StoredView| x.id != a.id implies (#[trigger] u.contains(x) <==> s.contains(x)) by {
        if u.contains(x) {
            let i = choose|i: int| 0 <= i < u.len() && u[i] == x;
            assert(s[i] == x);
        }
        if s.contains(x) {
            let i = choose|i: int| 0 <= i < s.len() && s[i] == x;
            if first_where(s, 0, has_id(a.id)) is Some {
                assert(s[at].id == a.id);
            }
            assert(u[i] == x);
        }
    }
    assert forall|id: Seq<char>| #[trigger] holds_id(u, id) <==> holds_id(s, id) || id == a.id by {
        lemma_holds(u, id);
        lemma_holds(s, id);
        if holds_id(u, id) && id != a.id {
            let i = choose|i: int| 0 <= i < u.len() && (#[trigger] u[i]).id == id;
            assert(s[i].id == id);
        }
        if holds_id(s, id) && id != a.id {
            let i = choose|i: int| 0 <= i < s.len() && (#[trigger] s[i]).id == id;
            if first_where(s, 0, has_id(a.id)) is Some {
                assert(s[at].id == a.id);
            }
            assert(u[i].id == id);
        }
        if id == a.id {
            assert(u[at].id == id);
        }
    }
}

/// Upserting makes no id occur twice.
pub proof fn upsert_keeps_ids_single(s: Seq<StoredView>, a: StoredView, id: Seq<char>)
    requires
        at_most_once(s, id),
    ensures
        at_most_once(upserted(s, a), id),
{
    let u = upserted(s, a);
    first_where_is_first(s, 0, has_id(a.id));
    let at = match first_where(s, 0, has_id(a.id)) {
        Some(i) => i,
        None => s.len() as int,
    };
    assert forall|i: int, j: int| 0 <= i < j < u.len() implies !((#[trigger] u[i]).id == id && (
    #[trigger] u[j]).id == id) by {
        if j < s.len() {
            assert(s[i].id == u[i].id && s[j].id == u[j].id);
        } else {
            assert(u[i] == s[i] && !has_id(a.id)(s[i]));
        }
    }
}

/// Upserting keeps the ids unique.
pub proof fn upsert_keeps_ids_unique(s: Seq<StoredView>, a: StoredView)
    requires
        ids_unique(s),
    ensures
        ids_unique(upserted(s, a)),
{
    let u = upserted(s, a);
    first_where_is_first(s, 0, has_id(a.id));
    assert forall|i: int, j: int| 0 <= i < j < u.len() implies (#[trigger] u[i]).id != (
    #[trigger] u[j]).id by {
        match first_where(s, 0, has_id(a.id)) {
            Some(k) => {
                assert(s[k].id == a.id);
                assert(s[i].id != s[j].id);
            },
            None => {
                assert(!has_id(a.id)(s[i]));
                if j < s.len() {
                    assert(s[i].id != s[j].id);
                }
            },
        }
    }
}

/// Upserting the same annotation twice is upserting it once.
pub proof fn upsert_is_idempotent(file: AnnotationFileView, a: StoredView, now: u64)
    ensures
        file_upserted(file_upserted(file, a, now), a, now) == file_upserted(file, a, now),
{
    let u = upserted(file.annotations, a);
    upsert_is_found(file.annotations, a);
    let i = first_where(u, 0, has_id(a.id))->0;
    first_where_is_first(u, 0, has_id(a.id));
    assert(u.update(i, a) =~= u);
}

/// After a removal no annotation with the id is left, and all others are, in their order.
pub proof fn removal_removes(file: AnnotationFileView, id: Seq<char>, now: u64)
    ensures
        !holds_id(file_without(file, id, now).annotations, id),
        file_without(file, id, now).annotations == kept(file.annotations, has_other_id(id)),
        forall|x: StoredView| #[trigger]
            file_without(file, id, now).annotations.contains(x) <==> file.annotations.contains(x)
                && x.id != id,
{
    let s = file.annotations;
    let k = kept(s, has_other_id(id));
    kept_elements(s, has_other_id(id));
    lemma_holds(k, id);
    lemma_holds(s, id);
    if holds_id(k, id) {
        let i = choose|i: int| 0 <= i < k.len() && (#[trigger] k[i]).id == id;
        assert(k.contains(k[i]));
        assert(has_other_id(id)(k[i]));
    }
    if !holds_id(s, id) {
        kept_all(s, has_other_id(id));
    }
}

/// Removing an annotation that was new gives back the annotations as they were.
pub proof fn removal_undoes_upsert(file: AnnotationFileView, a: StoredView, then: u64, now: u64)
    requires
        !holds_id(file.annotations, a.id),
    ensures
        file_without(file_upserted(file, a, then), a.id, now).annotations == file.annotations,
{
    let s = file.annotations;
    lemma_holds(s, a.id);
    removal_removes(file_upserted(file, a, then), a.id, now);
    kept_push(s, a, has_other_id(a.id));
    assert forall|i: int| 0 <= i < s.len() implies has_other_id(a.id)(#[trigger] s[i]) by {}
    kept_all(s, has_other_id(a.id));
}

// ---------------------------------------------------------------------------
// Nothing is lost when annotations move
// ---------------------------------------------------------------------------
proof fn lemma_with_orphans_keeps(
    orphans: AnnotationFileView,
    moved: Seq<StoredView>,
    base: Seq<char>,
    now: u64,
    x: StoredView,
)
    requires
        orphans.annotations.contains(x),
        !holds_id(moved, x.id),
    ensures
        with_orphans(orphans, moved, base, now).annotations.contains(x),
    decreases moved.len(),
{
    if moved.len() > 0 {
        let a = orphaned(moved[0], base);
        lemma_holds(moved, x.id);
        lemma_holds(moved.drop_first(), x.id);
        assert(moved[0].id != x.id);
        upsert_keeps_the_others(orphans.annotations, a);
        if holds_id(moved.drop_first(), x.id) {
            let i = choose|i: int|
                0 <= i < moved.drop_first().len() && (#[trigger] moved.drop_first()[i]).id == x.id;
            assert(moved[i + 1].id == x.id);
        }
        lemma_with_orphans_keeps(
            file_upserted(orphans, a, now),
            moved.drop_first(),
            base,
            now,
            x,
        );
    }
}

proof fn lemma_with_orphans_ids(
    orphans: AnnotationFileView,
    moved: Seq<StoredView>,
    base: Seq<char>,
    now: u64,
    id: Seq<char>,
)
    ensures
        holds_id(with_orphans(orphans, moved, base, now).annotations, id) <==> holds_id(
            orphans.annotations,
            id,
        ) || holds_id(moved, id),
    decreases moved.len(),
{
    lemma_holds(moved, id);
    if moved.len() > 0 {
        let a = orphaned(moved[0], base);
        let rest = moved.drop_first();
        upsert_keeps_the_others(orphans.annotations, a);
        let next = file_upserted(orphans, a, now);
        lemma_with_orphans_ids(next, rest, base, now, id);
        lemma_holds(rest, id);
        assert(holds_id(next.annotations, id) <==> holds_id(orphans.annotations, id) || id == a.id);
        if holds_id(moved, id) && id != moved[0].id {
            let i = choose|i: int| 0 <= i < moved.len() && (#[trigger] moved[i]).id == id;
            assert(rest[i - 1].id == id);
        }
        if holds_id(rest, id) {
            let i = choose|i: int| 0 <= i < rest.len() && (#[trigger] rest[i]).id == id;
            assert(moved[i + 1].id == id);
        }
        if id == moved[0].id {
            assert(moved[0].id == id);
        }
    }
}

proof fn lemma_with_orphans_has(
    orphans: AnnotationFileView,
    moved: Seq<StoredView>,
    base: Seq<char>,
    now: u64,
    i: int,
)
    requires
        ids_unique(moved),
        0 <= i < moved.len(),
    ensures
        with_orphans(orphans, moved, base, now).annotations.contains(orphaned(moved[i], base)),
    decreases moved.len(),
{
    let a = orphaned(moved[0], base);
    let rest = moved.drop_first();
    let next = file_upserted(orphans, a, now);
    assert forall|p: int, q: int| 0 <= p < q < rest.len() implies (#[trigger] rest[p]).id != (
    #[trigger] rest[q]).id by {
        assert(moved[p + 1].id != moved[q + 1].id);
    }
    if i == 0 {
        upsert_is_found(orphans.annotations, a);
        lemma_holds(rest, a.id);
        if holds_id(rest, a.id) {
            let k = choose|k: int| 0 <= k < rest.len() && (#[trigger] rest[k]).id == a.id;
            assert(moved[0].id != moved[k + 1].id);
        }
        lemma_with_orphans_keeps(next, rest, base, now, a);
    } else {
        assert(rest[i - 1] == moved[i]);
        lemma_with_orphans_has(next, rest, base, now, i - 1);
    }
}

/// When the base commit of the working tree changes, each of its annotations is among
/// the orphans, with the base that it had, and each orphan with another id is there still.
pub proof fn changing_the_base_loses_nothing(m: ManagerView, base: Seq<char>, now: u64)
    requires
        base_lost(m, base),
        ids_unique(m.working_tree.annotations),
    ensures
        forall|a: StoredView| #[trigger]
            m.working_tree.annotations.contains(a) ==> tree_orphaned(
                m,
                now,
            ).orphans.annotations.contains(orphaned(a, m.working_tree.base_commit_id->0)),
        forall|x: StoredView| #[trigger]
            m.orphans.annotations.contains(x) && !holds_id(m.working_tree.annotations, x.id)
                ==> tree_orphaned(m, now).orphans.annotations.contains(x),
{
    let list = m.working_tree.annotations;
    let old_base = m.working_tree.base_commit_id->0;
    assert forall|a: StoredView| #[trigger] list.contains(a) implies tree_orphaned(
        m,
        now,
    ).orphans.annotations.contains(orphaned(a, old_base)) by {
        let i = choose|i: int| 0 <= i < list.len() && list[i] == a;
        lemma_with_orphans_has(m.orphans, list, old_base, now, i);
    }
    assert forall|x: StoredView| #[trigger]
        m.orphans.annotations.contains(x) && !holds_id(list, x.id) implies tree_orphaned(
        m,
        now,
    ).orphans.annotations.contains(x) by {
        lemma_with_orphans_keeps(m.orphans, list, old_base, now, x);
    }
}

pub(crate) proof fn lemma_with_migrated_keeps(
    file: AnnotationFileView,
    list: Seq<StoredView>,
    files: Seq<FileDiff>,
    commit_id: Seq<char>,
    now: u64,
    x: StoredView,
)
    requires
        file.annotations.contains(x),
        !holds_id(list, x.id),
    ensures
        with_migrated(file, list, files, commit_id, now).annotations.contains(x),
    decreases list.len(),
{
    if list.len() > 0 {
        let rest = list.drop_first();
        let a = migrated(list[0], commit_id);
        lemma_holds(list, x.id);
        lemma_holds(rest, x.id);
        assert(list[0].id != x.id);
        if holds_id(rest, x.id) {
            let i = choose|i: int| 0 <= i < rest.len() && (#[trigger] rest[i]).id == x.id;
            assert(list[i + 1].id == x.id);
        }
        upsert_keeps_the_others(file.annotations, a);
        if place_of(files, list[0]) is Some {
            lemma_with_migrated_keeps(
                file_upserted(file, a, now),
                rest,
                files,
                commit_id,
                now,
                x,
            );
        } else {
            lemma_with_migrated_keeps(file, rest, files, commit_id, now, x);
        }
    }
}

proof fn lemma_with_migrated_keeps_ids(
    file: AnnotationFileView,
    list: Seq<StoredView>,
    files: Seq<FileDiff>,
    commit_id: Seq<char>,
    now: u64,
    id: Seq<char>,
)
    requires
        holds_id(file.annotations, id),
    ensures
        holds_id(with_migrated(file, list, files, commit_id, now).annotations, id),
    decreases list.len(),
{
    if list.len() > 0 {
        let a = migrated(list[0], commit_id);
        upsert_keeps_the_others(file.annotations, a);
        if place_of(files, list[0]) is Some {
            lemma_with_migrated_keeps_ids(
                file_upserted(file, a, now),
                list.drop_first(),
                files,
                commit_id,
                now,
                id,
            );
        } else {
            lemma_with_migrated_keeps_ids(file, list.drop_first(), files, commit_id, now, id);
        }
    }
}

proof fn lemma_with_migrated_has_id(
    file: AnnotationFileView,
    list: Seq<StoredView>,
    files: Seq<FileDiff>,
    commit_id: Seq<char>,
    now: u64,
    i: int,
)
    requires
        0 <= i < list.len(),
        place_of(files, list[i]) is Some,
    ensures
        holds_id(with_migrated(file, list, files, commit_id, now).annotations, list[i].id),
    decreases list.len(),
{
    let rest = list.drop_first();
    let a = migrated(list[0], commit_id);
    let next = file_upserted(file, a, now);
    if i == 0 {
        upsert_keeps_the_others(file.annotations, a);
        assert(holds_id(next.annotations, a.id));
        lemma_with_migrated_keeps_ids(next, rest, files, commit_id, now, a.id);
    } else {
        assert(rest[i - 1] == list[i]);
        if place_of(files, list[0]) is Some {
            lemma_with_migrated_has_id(next, rest, files, commit_id, now, i - 1);
        } else {
            lemma_with_migrated_has_id(file, rest, files, commit_id, now, i - 1);
        }
    }
}

proof fn lemma_with_migrated_has(
    file: AnnotationFileView,
    list: Seq<StoredView>,
    files: Seq<FileDiff>,
    commit_id: Seq<char>,
    now: u64,
    i: int,
)
    requires
        ids_unique(list),
        0 <= i < list.len(),
        place_of(files, list[i]) is Some,
    ensures
        with_migrated(file, list, files, commit_id, now).annotations.contains(
            migrated(list[i], commit_id),
        ),
    decreases list.len(),
{
    let rest = list.drop_first();
    let a = migrated(list[0], commit_id);
    let next = file_upserted(file, a, now);
    assert forall|p: int, q: int| 0 <= p < q < rest.len() implies (#[trigger] rest[p]).id != (
    #[trigger] rest[q]).id by {
        assert(list[p + 1].id != list[q + 1].id);
    }
    if i == 0 {
        upsert_is_found(file.annotations, a);
        lemma_holds(rest, a.id);
        if holds_id(rest, a.id) {
            let k = choose|k: int| 0 <= k < rest.len() && (#[trigger] rest[k]).id == a.id;
            assert(list[0].id != list[k + 1].id);
        }
        lemma_with_migrated_keeps(next, rest, files, commit_id, now, a);
    } else {
        assert(rest[i - 1] == list[i]);
        if place_of(files, list[0]) is Some {
            lemma_with_migrated_has(next, rest, files, commit_id, now, i - 1);
        } else {
            lemma_with_migrated_has(file, rest, files, commit_id, now, i - 1);
        }
    }
}

pub(crate) proof fn lemma_with_migrated_single(
    file: AnnotationFileView,
    list: Seq<StoredView>,
    files: Seq<FileDiff>,
    commit_id: Seq<char>,
    now: u64,
    id: Seq<char>,
)
    requires
        at_most_once(file.annotations, id),
    ensures
        at_most_once(with_migrated(file, list, files, commit_id, now).annotations, id),
    decreases list.len(),
{
    if list.len() > 0 {
        let a = migrated(list[0], commit_id);
        let rest = list.drop_first();
        upsert_keeps_ids_single(file.annotations, a, id);
        lemma_with_migrated_single(file_upserted(file, a, now), rest, files, commit_id, now, id);
        lemma_with_migrated_single(file, rest, files, commit_id, now, id);
    }
}

/// When annotations are migrated to a commit, each one either stays where it is, unchanged,
/// or is in the commit's file with the commit noted on it; and the commit's own
/// annotations with other ids are there still.
pub proof fn migration_loses_nothing(
    file: AnnotationFileView,
    list: Seq<StoredView>,
    files: Seq<FileDiff>,
    commit_id: Seq<char>,
    now: u64,
)
    requires
        ids_unique(list),
    ensures
        forall|a: StoredView| #[trigger]
            list.contains(a) ==> if place_of(files, a) is Some {
                with_migrated(file, list, files, commit_id, now).annotations.contains(
                    migrated(a, commit_id),
                )
            } else {
                kept(list, stays(files)).contains(a)
            },
        forall|x: StoredView| #[trigger]
            file.annotations.contains(x) && !holds_id(list, x.id) ==> with_migrated(
                file,
                list,
                files,
                commit_id,
                now,
            ).annotations.contains(x),
{
    kept_elements(list, stays(files));
    assert forall|a: StoredView| #[trigger] list.contains(a) implies if place_of(files, a) is Some {
        with_migrated(file, list, files, commit_id, now).annotations.contains(
            migrated(a, commit_id),
        )
    } else {
        kept(list, stays(files)).contains(a)
    } by {
        let i = choose|i: int| 0 <= i < list.len() && list[i] == a;
        if place_of(files, a) is Some {
            lemma_with_migrated_has(file, list, files, commit_id, now, i);
        }
    }
    assert forall|x: StoredView| #[trigger]
        file.annotations.contains(x) && !holds_id(list, x.id) implies with_migrated(
        file,
        list,
        files,
        commit_id,
        now,
    ).annotations.contains(x) by {
        lemma_with_migrated_keeps(file, list, files, commit_id, now, x);
    }
}

/// The first step of a job removes no orphan: each id among the orphans is there still.
pub proof fn beginning_keeps_orphans(
    m: ManagerView,
    files: Seq<FileDiff>,
    scope: ScopeView,
    job: JobView,
    now: u64,
    id: Seq<char>,
)
    requires
        holds_id(m.orphans.annotations, id),
    ensures
        holds_id(begin_job(m, files, scope, job, now).manager.orphans.annotations, id),
{
    if scope is WorkingTree && base_lost(m, scope->WorkingTree_0) {
        lemma_with_orphans_ids(
            m.orphans,
            m.working_tree.annotations,
            m.working_tree.base_commit_id->0,
            now,
            id,
        );
    }
}

/// A later step removes an orphan only to put it into the file of a commit: each id among
/// the orphans is there still, or in the commit's file that is to be saved.
pub proof fn resuming_keeps_orphans(
    m: ManagerView,
    files: Seq<FileDiff>,
    pending: PendingView,
    now: u64,
    id: Seq<char>,
)
    requires
        holds_id(m.orphans.annotations, id),
    ensures
        ({
            let o = next_step(m, files, pending, now);
            ||| holds_id(o.manager.orphans.annotations, id)
            ||| o.request matches RequestView::SaveOrphans(PendingView::ShowCommit(_, file))
                && holds_id(file.annotations, id)
        }),
{
    if let PendingView::MigrateOrphans(commit_id, file) = pending {
        let s = m.orphans.annotations;
        lemma_holds(s, id);
        let i = choose|i: int| 0 <= i < s.len() && (#[trigger] s[i]).id == id;
        if place_of(files, s[i]) is Some {
            lemma_with_migrated_has_id(file, s, files, commit_id, now, i);
        } else {
            kept_elements(s, stays(files));
            assert(s.contains(s[i]));
            assert(stays(files)(s[i]));
            lemma_contains_holds(kept(s, stays(files)), s[i]);
        }
    }
}

/// The step after the reading of a commit's file leaves the orphans as they are.
pub proof fn commit_step_keeps_orphans(
    m: ManagerView,
    files: Seq<FileDiff>,
    commit_id: Seq<char>,
    job: JobView,
    read: AnnotationFileView,
    now: u64,
)
    ensures
        commit_step(m, files, commit_id, job, read, now).manager.orphans == m.orphans,
{
}

// ---------------------------------------------------------------------------
// What was stored is shown again
// ---------------------------------------------------------------------------
pub(crate) proof fn lemma_shown_contains(files: Seq<FileDiff>, stored: Seq<StoredView>, i: int)
    requires
        0 <= i < stored.len(),
        place_of(files, stored[i]) is Some,
    ensures
        all_shown(files, stored).contains(shown_at(stored[i], place_of(files, stored[i])->0)),
    decreases stored.len(),
{
    let rest = stored.drop_last();
    let a = stored[i];
    let shown = shown_at(a, place_of(files, a)->0);
    let before = all_shown(files, rest);
    let all = all_shown(files, stored);
    if i == stored.len() - 1 {
        assert(all[before.len() as int] == shown);
    } else {
        assert(rest[i] == a);
        lemma_shown_contains(files, rest, i);
        let k = choose|k: int| 0 <= k < before.len() && before[k] == shown;
        assert(all[k] == shown);
    }
}

pub(crate) proof fn lemma_shown_ids(files: Seq<FileDiff>, stored: Seq<StoredView>, a: AnnotationView)
    requires
        all_shown(files, stored).contains(a),
    ensures
        exists|s: StoredView| stored.contains(s) && #[trigger] s.id == a.id,
    decreases stored.len(),
{
    let all = all_shown(files, stored);
    if stored.len() > 0 {
        let rest = stored.drop_last();
        let before = all_shown(files, rest);
        let k = choose|k: int| 0 <= k < all.len() && all[k] == a;
        if k < before.len() {
            assert(before[k] == a);
            lemma_shown_ids(files, rest, a);
            let s = choose|s: StoredView| rest.contains(s) && #[trigger] s.id == a.id;
            let i = choose|i: int| 0 <= i < rest.len() && rest[i] == s;
            assert(stored[i] == s);
        } else {
            assert(stored.last().id == a.id);
            assert(stored[stored.len() - 1] == stored.last());
        }
    }
}

/// An annotation is among others, and is the only one with its id.
pub open spec fn is_only_one(list: Seq<AnnotationView>, a: AnnotationView) -> bool {
    exists|i: int|
        0 <= i < list.len() && #[trigger] list[i] == a && forall|j: int|
            0 <= j < list.len() && j != i ==> (#[trigger] list[j]).id != a.id
}

pub(crate) proof fn lemma_shown_once(files: Seq<FileDiff>, stored: Seq<StoredView>, k: int)
    requires
        0 <= k < stored.len(),
        place_of(files, stored[k]) is Some,
        at_most_once(stored, stored[k].id),
    ensures
        is_only_one(
            all_shown(files, stored),
            shown_at(stored[k], place_of(files, stored[k])->0),
        ),
    decreases stored.len(),
{
    let rest = stored.drop_last();
    let a = stored[k];
    let shown = shown_at(a, place_of(files, a)->0);
    let before = all_shown(files, rest);
    let all = all_shown(files, stored);
    if k == stored.len() - 1 {
        let i = before.len() as int;
        assert(all[i] == shown);
        assert forall|j: int| 0 <= j < all.len() && j != i implies (#[trigger] all[j]).id
            != shown.id by {
            assert(all[j] == before[j]);
            assert(before.contains(before[j]));
            lemma_shown_ids(files, rest, before[j]);
            let s = choose|s: StoredView| rest.contains(s) && #[trigger] s.id == before[j].id;
            let x = choose|x: int| 0 <= x < rest.len() && rest[x] == s;
            assert(stored[x].id == s.id);
            assert(!(stored[x].id == a.id && stored[k].id == a.id));
        }
    } else {
        assert(rest[k] == a);
        assert forall|i: int, j: int| 0 <= i < j < rest.len() implies !((#[trigger] rest[i]).id
            == a.id && (#[trigger] rest[j]).id == a.id) by {
            assert(!(stored[i].id == a.id && stored[j].id == a.id));
        }
        lemma_shown_once(files, rest, k);
        let i = choose|i: int|
            0 <= i < before.len() && #[trigger] before[i] == shown && forall|j: int|
                0 <= j < before.len() && j != i ==> (#[trigger] before[j]).id != shown.id;
        let last = stored.len() - 1;
        assert(!(stored[k].id == a.id && stored[last].id == a.id));
        assert(all[i] == shown);
        assert forall|j: int| 0 <= j < all.len() && j != i implies (#[trigger] all[j]).id
            != shown.id by {
            if j < before.len() {
                assert(all[j] == before[j]);
            }
        }
    }
}

/// An annotation as it is shown when it comes back from the store: with the lines of its
/// hunk, and its time in seconds.
pub open spec fn as_restored(annotation: AnnotationView, stored: StoredView) -> AnnotationView {
    AnnotationView {
        line_range: shown_range(stored),
        created_at: TimePoint { secs: annotation.created_at.secs, nanos: 0 },
        ..annotation
    }
}

/// Among those that are shown, there is an annotation that was stored, with its id, its text
/// and its time in seconds: on the hunk that its lines lead to, if they lead to one. With
/// `alone` it is the only one with its id. In a diff in order, the lines of a hunk lead to
/// that hunk, where it holds a line that was removed or added.
pub open spec fn shows_again(
    shown: Seq<AnnotationView>,
    files: Seq<FileDiff>,
    annotation: AnnotationView,
    stored: StoredView,
    alone: bool,
) -> bool {
    let file = files[annotation.file_index as int];
    let hunk = annotation.hunk_index as int;
    &&& place_of(files, stored) matches Some(place) ==> {
        &&& place.0 == annotation.file_index
        &&& shown.contains(shown_at(stored, place))
        &&& alone ==> is_only_one(shown, shown_at(stored, place))
    }
    &&& in_order(file) && has_changed_line(file, hunk) ==> place_of(files, stored) == Some(
        (annotation.file_index as int, hunk),
    ) && shown_at(stored, place_of(files, stored)->0) == as_restored(annotation, stored)
}

pub(crate) proof fn lemma_place_of_stored(
    annotation: AnnotationView,
    files: Seq<FileDiff>,
    diff_reference: Option<Seq<char>>,
    scope: ScopeView,
)
    requires
        annotation.file_index < files.len(),
        first_where(files, 0, is_named(annotation.filename)) == Some(annotation.file_index as int),
        in_order(files[annotation.file_index as int]),
        has_changed_line(files[annotation.file_index as int], annotation.hunk_index as int),
    ensures
        ({
            let stored = stored_of(annotation, files, diff_reference, scope);
            &&& place_of(files, stored) == Some(
                (annotation.file_index as int, annotation.hunk_index as int),
            )
            &&& shown_at(stored, place_of(files, stored)->0) == as_restored(annotation, stored)
        }),
{
    stored_context_finds_its_hunk(
        files[annotation.file_index as int],
        annotation.hunk_index as int,
    );
}

/// An annotation that was stored is shown again, as long as the diff is the same: whatever
/// else the file holds, loading shows it, and no other one with its id unless the file held
/// several.
pub proof fn stored_annotation_is_shown_again(
    annotation: AnnotationView,
    files: Seq<FileDiff>,
    diff_reference: Option<Seq<char>>,
    scope: ScopeView,
    others: Seq<StoredView>,
)
    requires
        annotation.file_index < files.len(),
        first_where(files, 0, is_named(annotation.filename)) == Some(annotation.file_index as int),
    ensures
        ({
            let stored = stored_of(annotation, files, diff_reference, scope);
            shows_again(
                all_shown(files, upserted(others, stored)),
                files,
                annotation,
                stored,
                at_most_once(others, annotation.id),
            )
        }),
{
    let stored = stored_of(annotation, files, diff_reference, scope);
    let list = upserted(others, stored);
    upsert_is_found(others, stored);
    first_where_is_first(list, 0, has_id(stored.id));
    let i = first_where(list, 0, has_id(stored.id))->0;
    if place_of(files, stored) is Some {
        lemma_shown_contains(files, list, i);
        if at_most_once(others, stored.id) {
            upsert_keeps_ids_single(others, stored, stored.id);
            lemma_shown_once(files, list, i);
        }
    }
    if in_order(files[annotation.file_index as int]) && has_changed_line(
        files[annotation.file_index as int],
        annotation.hunk_index as int,
    ) {
        lemma_place_of_stored(annotation, files, diff_reference, scope);
    }
}

} // verus!
