//! Where things are stored: the directories and files of a repository, and which files
//! can be read.

use vstd::prelude::*;

use crate::persistence::{DiffScope, ScopeView};
use crate::seqs::{find_first, first_where, first_where_is_first};
use crate::text::{concat2, decimal, u64_text};

verus! {

/// The directory of the annotations, below the root of the repository.
pub const ANNOTATION_DIR: &'static str = ".lumen/annotations";

/// The directory of the tags.
pub const TAG_DIR: &'static str = ".lumen/tags";

/// The directory of the review marks.
pub const REVIEW_DIR: &'static str = ".lumen/review";

/// The directory of the view states.
pub const STATE_DIR: &'static str = ".lumen/state";

/// The file of the working tree, in each of the directories.
pub const WORKING_TREE_FILE: &'static str = "working-tree.json";

/// The file of the annotations that have lost their base commit.
pub const ORPHANS_FILE: &'static str = "orphans.json";

/// The file of the tags in use.
pub const TAG_INDEX_FILE: &'static str = "index.json";

/// What was found in a directory.
#[derive(Debug, Clone, Copy, PartialEq, Eq, Structural)]
pub struct Probe {
    /// Whether there is something named `.git`.
    pub git_exists: bool,
    /// Whether there is a directory named `.jj`.
    pub jj_is_dir: bool,
}

/// A directory that is the root of a repository.
pub open spec fn is_root() -> spec_fn(Probe) -> bool {
    |p: Probe| p.git_exists || p.jj_is_dir
}

/// The root of the repository: the first of a directory and its ancestors, from the
/// inside out, that holds one.
pub fn find_repo_root(probes: &Vec<Probe>) -> (r: Option<usize>)
    ensures
        match r {
            Some(i) => first_where(probes@, 0, is_root()) == Some(i as int) && i < probes@.len(),
            None => first_where(probes@, 0, is_root()) is None,
        },
{
    let test = |p: &Probe| -> (b: bool)
        ensures
            b == is_root()(*p),
    {
        p.git_exists || p.jj_is_dir
    };
    find_first(probes, test, Ghost(is_root()))
}

/// The name of the file of a scope.
pub open spec fn scope_file(scope: ScopeView) -> Seq<char> {
    match scope {
        ScopeView::WorkingTree(_) => WORKING_TREE_FILE@,
        ScopeView::Commit(commit_id) => commit_id + ".json"@,
    }
}

/// The name of the file of a commit.
pub fn commit_file_name(commit_id: &str) -> (r: String)
    ensures
        r@ == commit_id@ + ".json"@,
{
    concat2(commit_id, ".json")
}

/// The name of the file of a scope.
pub fn scope_file_name(scope: &DiffScope) -> (r: String)
    ensures
        r@ == scope_file(scope@),
{
    match scope {
        DiffScope::WorkingTree { base_commit_id: _ } => WORKING_TREE_FILE.to_string(),
        DiffScope::Commit { commit_id } => commit_file_name(commit_id.as_str()),
    }
}

/// Why a file that was read cannot be used.
#[derive(Debug, Clone, Copy, PartialEq, Eq, Structural)]
pub enum StorageError {
    /// The file has a later version than this library writes.
    UnsupportedVersion(u32),
}

/// The files that are stored.
#[derive(Debug, Clone, Copy, PartialEq, Eq, Structural)]
pub enum StoredFile {
    Annotations,
    Tags,
    TagIndex,
    Review,
    ViewState,
}

/// What a file is called in a message about its version.
pub open spec fn version_word(file: StoredFile) -> Seq<char> {
    match file {
        StoredFile::Annotations => "annotation"@,
        StoredFile::Tags => "tag"@,
        StoredFile::TagIndex => "tag index"@,
        StoredFile::Review => "review"@,
        StoredFile::ViewState => "view state"@,
    }
}

/// What a file is called in a message about its contents.
pub open spec fn content_word(file: StoredFile) -> Seq<char> {
    match file {
        StoredFile::Annotations => "annotation file"@,
        StoredFile::Tags => "tag file"@,
        StoredFile::TagIndex => "tag index"@,
        StoredFile::Review => "review file"@,
        StoredFile::ViewState => "view state file"@,
    }
}

/// The message that a file has a version that is not known.
pub fn unsupported_message(file: StoredFile, version: u32, path: &str) -> (r: String)
    ensures
        r@ == "unsupported "@ + version_word(file) + " version "@ + decimal(version as nat)
            + " in "@ + path@,
        r@.skip(r@.len() - path@.len()) == path@,
{
    proof {
        let start = "unsupported "@ + version_word(file) + " version "@ + decimal(version as nat)
            + " in "@;
        assert((start + path@).skip(start.len() as int) =~= path@);
    }
    let word = match file {
        StoredFile::Annotations => "annotation",
        StoredFile::Tags => "tag",
        StoredFile::TagIndex => "tag index",
        StoredFile::Review => "review",
        StoredFile::ViewState => "view state",
    };
    let mut r = concat2("unsupported ", word);
    r.append(" version ");
    r.append(u64_text(version as u64).as_str());
    r.append(" in ");
    r.append(path);
    r
}

/// The message that a file does not hold what it should.
pub fn invalid_message(file: StoredFile, path: &str, cause: &str) -> (r: String)
    ensures
        r@ == "invalid "@ + content_word(file) + " "@ + path@ + ": "@ + cause@,
        r@.skip(r@.len() - cause@.len()) == cause@,
{
    proof {
        let start = "invalid "@ + content_word(file) + " "@ + path@ + ": "@;
        assert((start + cause@).skip(start.len() as int) =~= cause@);
    }
    let word = match file {
        StoredFile::Annotations => "annotation file",
        StoredFile::Tags => "tag file",
        StoredFile::TagIndex => "tag index",
        StoredFile::Review => "review file",
        StoredFile::ViewState => "view state file",
    };
    let mut r = concat2("invalid ", word);
    r.append(" ");
    r.append(path);
    r.append(": ");
    r.append(cause);
    r
}

/// The root of a repository is the nearest directory with `.git` or with a directory `.jj`, and
/// there is none only where no directory has either.
pub proof fn the_nearest_repository_counts(probes: Seq<Probe>)
    ensures
        match first_where(probes, 0, is_root()) {
            Some(i) => 0 <= i < probes.len() && (probes[i].git_exists || probes[i].jj_is_dir)
                && forall|k: int|
                0 <= k < i ==> !(#[trigger] probes[k]).git_exists && !probes[k].jj_is_dir,
            None => forall|k: int|
                0 <= k < probes.len() ==> !(#[trigger] probes[k]).git_exists
                    && !probes[k].jj_is_dir,
        },
{
    first_where_is_first(probes, 0, is_root());
    let n = match first_where(probes, 0, is_root()) {
        Some(i) => i,
        None => probes.len() as int,
    };
    assert forall|k: int| 0 <= k < n implies !(#[trigger] probes[k]).git_exists
        && !probes[k].jj_is_dir by {
        assert(!is_root()(probes[k]));
    }
    if n < probes.len() {
        assert(is_root()(probes[n]));
    }
}

/// The working tree has one file, whatever its base. Every commit has a file of its own, named
/// after it.
pub proof fn scopes_have_files_of_their_own(a: Seq<char>, b: Seq<char>)
    ensures
        scope_file(ScopeView::WorkingTree(a)) == "working-tree.json"@,
        scope_file(ScopeView::Commit(a)) == scope_file(ScopeView::Commit(b)) ==> a == b,
        scope_file(ScopeView::Commit(a)) == a + ".json"@,
        scope_file(ScopeView::Commit(a)) == scope_file(ScopeView::WorkingTree(b)) ==> a
            == "working-tree"@,
{
    reveal_strlit("working-tree");
    reveal_strlit("working-tree.json");
    reveal_strlit(".json");
    let (fa, fb) = (scope_file(ScopeView::Commit(a)), scope_file(ScopeView::Commit(b)));
    assert(fa.take(fa.len() - 5) =~= a);
    assert(fb.take(fb.len() - 5) =~= b);
    assert("working-tree.json"@.take(12) =~= "working-tree"@);
}

/// The two messages call each file by the same name, but for the word that says it is a file.
pub proof fn files_are_called_by_one_name(file: StoredFile)
    ensures
        file is TagIndex ==> content_word(file) == version_word(file),
        !(file is TagIndex) ==> content_word(file) == version_word(file) + " file"@,
{
    reveal_strlit("annotation");
    reveal_strlit("tag");
    reveal_strlit("review");
    reveal_strlit("view state");
    reveal_strlit(" file");
    reveal_strlit("annotation file");
    reveal_strlit("tag file");
    reveal_strlit("review file");
    reveal_strlit("view state file");
    assert("annotation file"@ =~= "annotation"@ + " file"@);
    assert("tag file"@ =~= "tag"@ + " file"@);
    assert("review file"@ =~= "review"@ + " file"@);
    assert("view state file"@ =~= "view state"@ + " file"@);
}

} // verus!
