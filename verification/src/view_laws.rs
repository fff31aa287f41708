//! What holds of views that are stored and restored.

use vstd::prelude::*;

use crate::diff::FileDiff;
use crate::persistence::is_named;
use crate::seqs::{first_where, first_where_is_first};
use crate::state::{AppState, ReviewFilter, TagFilter, TagFilterView};
use crate::view_state::{
    filter_view, restored, review_filter_of, tag_filter_of, view_of, viewed_names, ViewStateView,
};

verus! {

proof fn lemma_viewed_names(files: Seq<FileDiff>, viewed: Set<usize>, n: int)
    requires
        0 <= n <= files.len() <= usize::MAX,
    ensures
        viewed_names(files, viewed, n) == Seq::new(n as nat, |i: int| i).filter(
            |i: int| viewed.contains(i as usize),
        ).map_values(|i: int| files[i].filename@),
    decreases n,
{
    reveal(Seq::filter);
    let p = |i: int| viewed.contains(i as usize);
    let f = |i: int| files[i].filename@;
    let all = Seq::new(n as nat, |i: int| i);
    if n > 0 {
        lemma_viewed_names(files, viewed, n - 1);
        let less = Seq::new((n - 1) as nat, |i: int| i);
        assert(all.drop_last() =~= less);
        let before = less.filter(p);
        assert(before.push(n - 1).map_values(f) =~= before.map_values(f).push(f(n - 1)));
    } else {
        assert(all.filter(p).map_values(f) =~= seq![]);
    }
}

/// The stored view has the name of the current file, the scrolling, the hunk in focus, the names
/// of the files that were viewed, in the order of the files, and the filters.
pub proof fn views_hold_what_is_shown(state: AppState, now: u64)
    ensures
        ({
            let view = view_of(state, now);
            let files = state.file_diffs@;
            &&& view.version == 1
            &&& view.last_updated == now
            &&& view.scroll == state.scroll
            &&& view.h_scroll == state.h_scroll
            &&& view.focused_hunk == state.focused_hunk
            &&& state.current_file < files.len() ==> view.current_file == Some(
                files[state.current_file as int].filename@,
            )
            &&& state.current_file >= files.len() ==> view.current_file is None
            &&& view.viewed_files == Seq::new(files.len(), |i: int| i).filter(
                |i: int| state.viewed_files@.contains(i as usize),
            ).map_values(|i: int| files[i].filename@)
            &&& match state.tag_filter {
                Some(TagFilter::Tag(name)) => view.tag_filter == Some("tag:"@ + name@),
                Some(TagFilter::Untagged) => view.tag_filter == Some("tag:"@ + "untagged"@),
                None => view.tag_filter is None,
            }
            &&& match state.review_filter {
                ReviewFilter::Reviewed => view.review_filter == Some("reviewed"@),
                ReviewFilter::Unreviewed => view.review_filter == Some("unreviewed"@),
                ReviewFilter::All => view.review_filter is None,
            }
        }),
{
    reveal_strlit("tag:");
    reveal_strlit("untagged");
    reveal_strlit("tag:untagged");
    assert("tag:untagged"@ =~= "tag:"@ + "untagged"@);
    assert(state.file_diffs.len() == state.file_diffs@.len());
    lemma_viewed_names(
        state.file_diffs@,
        state.viewed_files@,
        state.file_diffs@.len() as int,
    );
}

/// Restoring a view takes from it: as viewed the files whose names it holds; as the current file
/// the first of its name; the scrolling, no further than the last row; the hunk in focus, where
/// the file has it; and the filters. What the view does not say, and all else, stays.
pub proof fn restoring_takes_what_fits(before: AppState, after: AppState, view: ViewStateView)
    requires
        restored(before, after, view),
    ensures
        ({
            let files = before.file_diffs@;
            let file = files[after.current_file as int];
            let named = |i: int|
                0 <= i < files.len() && view.current_file == Some(files[i].filename@);
            &&& after.file_diffs == before.file_diffs && after.annotations == before.annotations
                && after.hunk_tags == before.hunk_tags && after.reviewed_hunks
                == before.reviewed_hunks && after.tag_inventory == before.tag_inventory
            &&& after.sidebar_items == before.sidebar_items && after.sidebar_visible
                == before.sidebar_visible && after.sidebar_selected == before.sidebar_selected
            &&& after.focused_panel is DiffView
            &&& filter_view(after.tag_filter) == tag_filter_of(view.tag_filter)
            &&& after.review_filter == review_filter_of(view.review_filter)
            &&& forall|i: usize|
                after.viewed_files@.contains(i) <==> i < files.len() && exists|k: int|
                    0 <= k < view.viewed_files.len() && #[trigger] view.viewed_files[k]
                        == files[i as int].filename@
            &&& (forall|i: int| !#[trigger] named(i)) ==> after.current_file == before.current_file
            &&& forall|i: int| #[trigger]
                named(i) && (forall|k: int| #[trigger] named(k) ==> i <= k) ==> after.current_file
                    == i
            &&& after.current_file < files.len() ==> {
                &&& after.h_scroll == view.h_scroll
                &&& after.scroll <= view.scroll
                &&& after.scroll < file.rows@.len() || after.scroll == 0
                &&& view.scroll < file.rows@.len() ==> after.scroll == view.scroll
                &&& file.rows@.len() > 0 && view.scroll >= file.rows@.len() ==> after.scroll
                    == file.rows@.len() - 1
            }
            &&& after.current_file >= files.len() ==> after.scroll == before.scroll
                && after.h_scroll == before.h_scroll
            &&& view.focused_hunk is Some && after.current_file < files.len()
                && view.focused_hunk->0 < file.hunks@.len() ==> after.focused_hunk
                == view.focused_hunk
            &&& !(view.focused_hunk is Some && after.current_file < files.len()
                && view.focused_hunk->0 < file.hunks@.len()) ==> after.focused_hunk
                == before.focused_hunk
        }),
{
    let files = before.file_diffs@;
    assert(before.file_diffs.len() == files.len());
    let named = |i: int| 0 <= i < files.len() && view.current_file == Some(files[i].filename@);
    if let Some(name) = view.current_file {
        first_where_is_first(files, 0, is_named(name));
        match first_where(files, 0, is_named(name)) {
            Some(f) => {
                assert(named(f));
                assert forall|i: int| #[trigger]
                    named(i) && (forall|k: int| #[trigger] named(k) ==> i <= k) implies i == f by {
                    if i < f {
                        assert(!is_named(name)(files[i]));
                    }
                }
            },
            None => {
                assert forall|i: int| !#[trigger] named(i) by {
                    if named(i) {
                        assert(!is_named(name)(files[i]));
                    }
                }
            },
        }
    }
}

/// The filters of a view are taken from its texts: a tag behind `tag:`, untagged hunks, or none;
/// reviewed hunks, unreviewed ones, or all. Other texts are passed over.
pub proof fn stored_filters_are_read(text: Seq<char>, tag: Seq<char>)
    ensures
        tag_filter_of(None) is None,
        tag_filter_of(Some("tag:untagged"@)) == Some(TagFilterView::Untagged),
        tag != "untagged"@ ==> tag_filter_of(Some("tag:"@ + tag)) == Some(TagFilterView::Tag(tag)),
        !"tag:"@.is_prefix_of(text) ==> tag_filter_of(Some(text)) is None,
        review_filter_of(None) is All,
        review_filter_of(Some("reviewed"@)) is Reviewed,
        review_filter_of(Some("unreviewed"@)) is Unreviewed,
        text != "reviewed"@ && text != "unreviewed"@ ==> review_filter_of(Some(text)) is All,
{
    reveal_strlit("tag:");
    reveal_strlit("untagged");
    reveal_strlit("tag:untagged");
    reveal_strlit("reviewed");
    reveal_strlit("unreviewed");
    assert("reviewed"@.len() != "unreviewed"@.len());
    let whole = "tag:"@ + tag;
    assert("tag:"@.is_prefix_of(whole));
    assert(whole.skip(4) =~= tag);
    assert("tag:"@ =~= "tag:untagged"@.take(4));
    if whole == "tag:untagged"@ {
        assert(tag =~= "tag:untagged"@.skip(4));
        assert("tag:untagged"@.skip(4) =~= "untagged"@);
    }
}

} // verus!
