//! What is compared: commit references, pull requests, and the scope that follows.

use vstd::prelude::*;

use crate::api_handler::scope_view;
use crate::persistence::{DiffScope, ScopeView};
use crate::state::AppState;
use crate::text::{concat2, decimal, opt_str, u64_text};

verus! {

/// The commits that were asked for.
#[derive(Debug)]
pub enum CommitReference {
    Single(String),
    Range { from: String, to: String },
    TripleDots { from: String, to: String },
}

/// A pull request.
#[derive(Debug)]
pub struct PrInfo {
    pub number: u64,
    pub base_ref: String,
    pub head_ref: String,
    pub repo_owner: String,
    pub repo_name: String,
}

/// A reference as it is written.
pub open spec fn reference_text(reference: CommitReference) -> Seq<char> {
    match reference {
        CommitReference::Single(s) => s@,
        CommitReference::Range { from, to } => from@ + ".."@ + to@,
        CommitReference::TripleDots { from, to } => from@ + "..."@ + to@,
    }
}

/// What the diff is said to be of: the pull request, or else the commits that were asked
/// for.
pub open spec fn diff_reference_text(
    pr: Option<PrInfo>,
    reference: Option<CommitReference>,
) -> Option<Seq<char>> {
    match pr {
        Some(pr) => Some(
            "PR #"@ + decimal(pr.number as nat) + " ("@ + pr.base_ref@ + "..."@ + pr.head_ref@
                + ")"@,
        ),
        None => match reference {
            Some(r) => Some(reference_text(r)),
            None => None,
        },
    }
}

/// What the diff is said to be of.
pub fn diff_reference(pr: &Option<PrInfo>, reference: &Option<CommitReference>) -> (r: Option<
    String,
>)
    ensures
        opt_str(r) == diff_reference_text(*pr, *reference),
{
    match pr {
        Some(pr) => {
            let mut r = concat2("PR #", u64_text(pr.number).as_str());
            r.append(" (");
            r.append(pr.base_ref.as_str());
            r.append("...");
            r.append(pr.head_ref.as_str());
            r.append(")");
            Some(r)
        },
        None => match reference {
            Some(CommitReference::Single(s)) => Some(s.clone()),
            Some(CommitReference::Range { from, to }) => {
                let mut r = concat2(from.as_str(), "..");
                r.append(to.as_str());
                Some(r)
            },
            Some(CommitReference::TripleDots { from, to }) => {
                let mut r = concat2(from.as_str(), "...");
                r.append(to.as_str());
                Some(r)
            },
            None => None,
        },
    }
}

/// The commit that a reference leads to.
pub open spec fn end_of(reference: Option<CommitReference>) -> Option<Seq<char>> {
    match reference {
        Some(CommitReference::Single(s)) => Some(s@),
        Some(CommitReference::Range { from: _, to }) => Some(to@),
        Some(CommitReference::TripleDots { from: _, to }) => Some(to@),
        None => None,
    }
}

/// The commit that a reference leads to, which is to be resolved.
pub fn reference_to_resolve(reference: &Option<CommitReference>) -> (r: Option<String>)
    ensures
        opt_str(r) == end_of(*reference),
{
    match reference {
        Some(CommitReference::Single(s)) => Some(s.clone()),
        Some(CommitReference::Range { from: _, to }) => Some(to.clone()),
        Some(CommitReference::TripleDots { from: _, to }) => Some(to.clone()),
        None => None,
    }
}

/// The scope of a diff: the commit of the stack that is shown, or else the commit that was
/// asked for and could be resolved, or else the working tree on its base commit.
pub open spec fn scope_of(
    state: AppState,
    commit: Option<Seq<char>>,
    base: Option<Seq<char>>,
) -> Option<ScopeView> {
    if state.stacked_mode {
        if state.current_commit_index < state.stacked_commits@.len() {
            Some(
                ScopeView::Commit(
                    state.stacked_commits@[state.current_commit_index as int].commit_id@,
                ),
            )
        } else {
            None
        }
    } else {
        match (commit, base) {
            (Some(id), _) => Some(ScopeView::Commit(id)),
            (None, Some(id)) => Some(ScopeView::WorkingTree(id)),
            (None, None) => None,
        }
    }
}

/// The scope of a diff, from the commit that was asked for and the base of the working
/// tree, as far as they could be resolved.
pub fn determine_scope(state: &AppState, commit: Option<String>, base: Option<String>) -> (r:
    Option<DiffScope>)
    ensures
        scope_view(
            match r {
                Some(ref s) => Some(s),
                None => None,
            },
        ) == scope_of(*state, opt_str(commit), opt_str(base)),
{
    if state.stacked_mode {
        return match state.current_commit() {
            Some(c) => Some(DiffScope::Commit { commit_id: c.commit_id.clone() }),
            None => None,
        };
    }
    match commit {
        Some(commit_id) => Some(DiffScope::Commit { commit_id }),
        None => match base {
            Some(base_commit_id) => Some(DiffScope::WorkingTree { base_commit_id }),
            None => None,
        },
    }
}

/// The commit that is resolved is the one that the text of the reference ends in: all of it for
/// a single one, and behind the dots for a range.
pub proof fn references_end_in_their_commit(reference: CommitReference)
    ensures
        ({
            let text = reference_text(reference);
            &&& diff_reference_text(None, Some(reference)) == Some(text)
            &&& end_of(Some(reference)) matches Some(end) && match reference {
                CommitReference::Single(_) => text == end,
                CommitReference::Range { from, to } => end == to@ && text.len() == from@.len() + 2
                    + end.len() && from@.is_prefix_of(text) && text.skip(from@.len() as int)
                    == ".."@ + end,
                CommitReference::TripleDots { from, to } => end == to@ && text.len() == from@.len()
                    + 3 + end.len() && from@.is_prefix_of(text) && text.skip(from@.len() as int)
                    == "..."@ + end,
            }
        }),
        end_of(None) is None,
        diff_reference_text(None, None) is None,
{
    reveal_strlit("..");
    reveal_strlit("...");
    let text = reference_text(reference);
    match reference {
        CommitReference::Range { from, to } => {
            assert(text.skip(from@.len() as int) =~= ".."@ + to@);
            assert(from@.is_prefix_of(text));
        },
        CommitReference::TripleDots { from, to } => {
            assert(text.skip(from@.len() as int) =~= "..."@ + to@);
            assert(from@.is_prefix_of(text));
        },
        _ => {},
    }
}

/// A pull request comes before what was asked for, and is named by its number and by its two
/// branches, the base before the head.
pub proof fn pull_requests_are_named(pr: PrInfo, reference: Option<CommitReference>)
    ensures
        diff_reference_text(Some(pr), reference) == diff_reference_text(Some(pr), None),
        diff_reference_text(Some(pr), reference) matches Some(text) && {
            &&& ("PR #"@ + decimal(pr.number as nat) + " ("@ + pr.base_ref@).is_prefix_of(text)
            &&& ("..."@ + pr.head_ref@ + ")"@) == text.skip(
                text.len() - 4 - pr.head_ref@.len(),
            )
        },
{
    reveal_strlit("PR #");
    reveal_strlit(" (");
    reveal_strlit("...");
    reveal_strlit(")");
    let text = diff_reference_text(Some(pr), reference)->0;
    let start = "PR #"@ + decimal(pr.number as nat) + " ("@ + pr.base_ref@;
    let end = "..."@ + pr.head_ref@ + ")"@;
    assert(text =~= start + end);
    assert(text.skip(start.len() as int) =~= end);
    assert(start.is_prefix_of(text));
}

/// In a stack the commit that is shown is the scope, whatever else was resolved. Elsewhere the
/// commit that was asked for is, and the working tree only where there is none.
pub proof fn scopes_are_taken_in_turn(
    state: AppState,
    commit: Option<Seq<char>>,
    base: Option<Seq<char>>,
)
    ensures
        ({
            let r = scope_of(state, commit, base);
            let commits = state.stacked_commits@;
            &&& state.stacked_mode ==> (r is Some <==> state.current_commit_index < commits.len())
            &&& state.stacked_mode && r is Some ==> r == Some(
                ScopeView::Commit(commits[state.current_commit_index as int].commit_id@),
            )
            &&& !state.stacked_mode && commit is Some ==> r == Some(ScopeView::Commit(commit->0))
            &&& !state.stacked_mode && commit is None && base is Some ==> r == Some(
                ScopeView::WorkingTree(base->0),
            )
            &&& !state.stacked_mode && commit is None && base is None ==> r is None
        }),
{
}

} // verus!
