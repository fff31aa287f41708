//! What holds of the answers of the HTTP interface: which field says what, and what commands
//! change.

use vstd::prelude::*;

use crate::api::{
    command_of, command_with_payload, path_of, reads_body, route_of, ApiCommand, ApiResponse,
    CommandView, Method, ResponseView, Route, Target,
};
use crate::api_handler::{
    annotation_bodies, annotation_body, annotation_has_id, command_handled, context_in,
    hunk_entries, hunk_entry, hunk_fields, hunk_list, query_answer, scope_body, set_tags_are_found,
    tags_entries, tags_entry, Persist,
};
use crate::diff::{hunk_context, hunk_line_range, FileDiff, FileStatus, HunkContextView};
use crate::json::{parsed, texts_of, JsonView};
use crate::marks_laws::keeping_is_filtering;
use crate::persistence::ScopeView;
use crate::seqs::{first_where, first_where_is_first, views};
use crate::state::{
    annotation_elsewhere, annotation_on, tags_elsewhere, tags_on, AnnotationView, AppState,
    HunkAnnotation, HunkTags, HunkTagsView, TimePoint,
};
use crate::tag_names::normalized;
use crate::text::{is_white_space, strs};
use crate::text_laws::{blank_texts_are_white_space, characters_are_found_where_they_stand_first};

verus! {

/// The names of fields differ from each other.
proof fn lemma_field_names()
    ensures
        "id"@.len() == 2,
        "cwd"@.len() == 3 && "cwd"@[0] == 'c',
        "vcs"@.len() == 3 && "vcs"@[0] == 'v',
        "file"@.len() == 4 && "file"@[0] == 'f',
        "tags"@.len() == 4 && "tags"@[0] == 't' && "tags"@[1] == 'a',
        "type"@.len() == 4 && "type"@[0] == 't' && "type"@[1] == 'y',
        "error"@.len() == 5 && "error"@[0] == 'e',
        "hunks"@.len() == 5 && "hunks"@[0] == 'h',
        "scope"@.len() == 5 && "scope"@[0] == 's',
        "status"@.len() == 6,
        "content"@.len() == 7 && "content"@[0] == 'c',
        "deleted"@.len() == 7 && "deleted"@[0] == 'd',
        "commit_id"@.len() == 9 && "commit_id"@[0] == 'c',
        "diff_text"@.len() == 9 && "diff_text"@[0] == 'd',
        "is_binary"@.len() == 9 && "is_binary"@[0] == 'i',
        "annotation"@.len() == 10 && "annotation"@[0] == 'a',
        "created_at"@.len() == 10 && "created_at"@[0] == 'c',
        "file_index"@.len() == 10 && "file_index"@[0] == 'f',
        "hunk_count"@.len() == 10 && "hunk_count"@[0] == 'h' && "hunk_count"@[5] == 'c',
        "hunk_index"@.len() == 10 && "hunk_index"@[0] == 'h' && "hunk_index"@[5] == 'i',
        "line_range"@.len() == 10 && "line_range"@[0] == 'l',
        "annotations"@.len() == 11 && "annotations"@[0] == 'a',
        "change_type"@.len() == 11 && "change_type"@[0] == 'c',
        "new_content"@.len() == 11 && "new_content"@[0] == 'n',
        "old_content"@.len() == 11 && "old_content"@[0] == 'o',
        "current_file"@.len() == 12 && "current_file"@[0] == 'c' && "current_file"@[8] == 'f',
        "current_hunk"@.len() == 12 && "current_hunk"@[0] == 'c' && "current_hunk"@[8] == 'h',
        "focused_hunk"@.len() == 12 && "focused_hunk"@[0] == 'f',
        "context_after"@.len() == 13,
        "base_commit_id"@.len() == 14 && "base_commit_id"@[0] == 'b',
        "context_before"@.len() == 14 && "context_before"@[0] == 'c',
        "diff_reference"@.len() == 14 && "diff_reference"@[0] == 'd',
        "new_line_range"@.len() == 14 && "new_line_range"@[0] == 'n',
        "old_line_range"@.len() == 14 && "old_line_range"@[0] == 'o',
        "context_changed"@.len() == 15,
        "annotations_count"@.len() == 17,
        "current_file_index"@.len() == 18,
{
    reveal_strlit("id");
    reveal_strlit("cwd");
    reveal_strlit("vcs");
    reveal_strlit("file");
    reveal_strlit("tags");
    reveal_strlit("type");
    reveal_strlit("error");
    reveal_strlit("hunks");
    reveal_strlit("scope");
    reveal_strlit("status");
    reveal_strlit("content");
    reveal_strlit("deleted");
    reveal_strlit("commit_id");
    reveal_strlit("diff_text");
    reveal_strlit("is_binary");
    reveal_strlit("annotation");
    reveal_strlit("created_at");
    reveal_strlit("file_index");
    reveal_strlit("hunk_count");
    reveal_strlit("hunk_index");
    reveal_strlit("line_range");
    reveal_strlit("annotations");
    reveal_strlit("change_type");
    reveal_strlit("new_content");
    reveal_strlit("old_content");
    reveal_strlit("current_file");
    reveal_strlit("current_hunk");
    reveal_strlit("focused_hunk");
    reveal_strlit("context_after");
    reveal_strlit("base_commit_id");
    reveal_strlit("context_before");
    reveal_strlit("diff_reference");
    reveal_strlit("new_line_range");
    reveal_strlit("old_line_range");
    reveal_strlit("context_changed");
    reveal_strlit("annotations_count");
    reveal_strlit("current_file_index");
}


// ---------------------------------------------------------------------------
// What the fields of answers say
// ---------------------------------------------------------------------------
/// What an answer says of the scope: its kind, the commit or the base of the working tree, what
/// the diff is of, and the version control.
pub proof fn scopes_are_named(scope: Option<ScopeView>, state: AppState)
    ensures
        ({
            let body = scope_body(scope, state);
            &&& body.text_field("vcs"@) == Some(state.vcs_name@)
            &&& match state.diff_reference {
                Some(reference) => body.text_field("diff_reference"@) == Some(reference@),
                None => body.field("diff_reference"@) == Some(JsonView::Null),
            }
            &&& match scope {
                Some(ScopeView::WorkingTree(base)) => body.text_field("type"@) == Some(
                    "working_tree"@,
                ) && body.text_field("base_commit_id"@) == Some(base) && body.field("commit_id"@)
                    is None,
                Some(ScopeView::Commit(id)) => body.text_field("type"@) == Some("commit"@)
                    && body.text_field("commit_id"@) == Some(id) && body.field("base_commit_id"@)
                    is None,
                None => body.text_field("type"@) == Some("unknown"@) && body.field("commit_id"@)
                    is None && body.field("base_commit_id"@) is None,
            }
        }),
{
    lemma_field_names();
}

/// The status names the directory, the scope, the current file by its name and its position,
/// the focused hunk, and how many hunks the file and how many annotations the viewer has.
pub proof fn status_says_where_the_viewer_is(
    state: AppState,
    scope: Option<ScopeView>,
    cwd: Option<Seq<char>>,
)
    ensures
        ({
            let r = query_answer(CommandView::Status, state, scope, cwd);
            let body = r.body;
            let file = state.file_diffs@[state.current_file as int];
            &&& r.status == 200
            &&& match cwd {
                Some(dir) => body.text_field("cwd"@) == Some(dir),
                None => body.field("cwd"@) == Some(JsonView::Null),
            }
            &&& body.field("scope"@) == Some(scope_body(scope, state))
            &&& body.number_field("current_file_index"@) == Some(state.current_file as u64)
            &&& match state.focused_hunk {
                Some(hunk) => body.number_field("focused_hunk"@) == Some(hunk as u64),
                None => body.field("focused_hunk"@) == Some(JsonView::Null),
            }
            &&& body.number_field("annotations_count"@) == Some(state.annotations@.len() as u64)
            &&& if state.current_file < state.file_diffs@.len() {
                body.text_field("current_file"@) == Some(file.filename@) && body.number_field(
                    "hunk_count"@,
                ) == Some(file.hunks@.len() as u64)
            } else {
                body.field("current_file"@) == Some(JsonView::Null) && body.number_field(
                    "hunk_count"@,
                ) == Some(0u64)
            }
        }),
{
    lemma_field_names();
}

/// The answer about the current file has its name, its position, what happened to it, and the
/// text of either side: the old one as the old content, the new one as the new content. It is
/// refused where there is no current file.
pub proof fn current_file_shows_both_sides(
    state: AppState,
    scope: Option<ScopeView>,
    cwd: Option<Seq<char>>,
)
    ensures
        ({
            let r = query_answer(CommandView::CurrentFile, state, scope, cwd);
            let body = r.body;
            let file = state.file_diffs@[state.current_file as int];
            if state.current_file < state.file_diffs@.len() {
                &&& r.status == 200
                &&& body.text_field("new_content"@) == Some(file.new_content@)
                &&& body.text_field("old_content"@) == Some(file.old_content@)
                &&& body.text_field("file"@) == Some(file.filename@)
                &&& body.number_field("file_index"@) == Some(state.current_file as u64)
                &&& body.field("is_binary"@) == Some(JsonView::Bool(file.is_binary))
                &&& body.field("scope"@) == Some(scope_body(scope, state))
                &&& body.text_field("status"@) == Some(
                    match file.status {
                        FileStatus::Added => "added"@,
                        FileStatus::Deleted => "deleted"@,
                        FileStatus::Modified => "modified"@,
                    },
                )
            } else {
                r.status == 404 && body.text_field("error"@) == Some("file not found"@)
            }
        }),
{
    lemma_field_names();
}

/// What an answer says of an annotation: its id, its file, its hunk, its lines, its text, and
/// its time in seconds.
pub proof fn annotations_are_told_in_full(a: AnnotationView)
    ensures
        ({
            let body = annotation_body(a);
            &&& body.text_field("id"@) == Some(a.id)
            &&& body.text_field("content"@) == Some(a.content)
            &&& body.text_field("file"@) == Some(a.filename)
            &&& body.number_field("file_index"@) == Some(a.file_index as u64)
            &&& body.number_field("hunk_index"@) == Some(a.hunk_index as u64)
            &&& body.number_field("created_at"@) == Some(a.created_at.secs)
            &&& body.array_field("line_range"@) matches Some(ends)
            &&& ends == seq![
                JsonView::Unsigned(a.line_range.0 as u64),
                JsonView::Unsigned(a.line_range.1 as u64),
            ]
        }),
{
    lemma_field_names();
}

proof fn lemma_hunk_fields(
    before: Map<Seq<char>, JsonView>,
    filename: Seq<char>,
    file: usize,
    hunk: usize,
    context: HunkContextView,
)
    requires
        forall|k: Seq<char>| #[trigger] before.dom().contains(k) ==> k == "scope"@,
    ensures
        ({
            let fields = hunk_fields(before, filename, file, hunk, context);
            let body = JsonView::Object(fields.insert("annotation"@, JsonView::Null));
            &&& says_hunk(JsonView::Object(fields), filename, file, hunk, context)
            &&& forall|a: JsonView| #[trigger]
                says_hunk(
                    JsonView::Object(fields.insert("annotation"@, a)),
                    filename,
                    file,
                    hunk,
                    context,
                )
            &&& fields.dom().contains("scope"@) <==> before.dom().contains("scope"@)
            &&& fields["scope"@] == before["scope"@]
        }),
{
    lemma_field_names();
}

/// A value that says of a hunk what there is to say: its file and position, its line ranges,
/// its text, its lines and those around it, and the kind of the change.
pub open spec fn says_hunk(
    body: JsonView,
    filename: Seq<char>,
    file: usize,
    hunk: usize,
    context: HunkContextView,
) -> bool {
    &&& body.text_field("file"@) == Some(filename)
    &&& body.number_field("file_index"@) == Some(file as u64)
    &&& body.number_field("hunk_index"@) == Some(hunk as u64)
    &&& body.text_field("diff_text"@) == Some(context.diff_text)
    &&& body.text_field("change_type"@) == Some(context.change_type)
    &&& is_range(body.field("old_line_range"@), context.old_line_range)
    &&& is_range(body.field("new_line_range"@), context.new_line_range)
    &&& context.new_line_range is Some ==> is_range(
        body.field("line_range"@),
        context.new_line_range,
    )
    &&& context.new_line_range is None && context.old_line_range is Some ==> is_range(
        body.field("line_range"@),
        context.old_line_range,
    )
    &&& context.new_line_range is None && context.old_line_range is None ==> is_range(
        body.field("line_range"@),
        Some((0, 0)),
    )
    &&& is_list(body.field("context_before"@), context.context_before)
    &&& is_list(body.field("context_changed"@), context.context_changed)
    &&& is_list(body.field("context_after"@), context.context_after)
}

/// A field that is null where there is no range, and an array of the two ends otherwise.
pub open spec fn is_range(field: Option<JsonView>, range: Option<(usize, usize)>) -> bool {
    match range {
        None => field == Some(JsonView::Null),
        Some((from, to)) => field == Some(
            JsonView::Array(seq![JsonView::Unsigned(from as u64), JsonView::Unsigned(to as u64)]),
        ),
    }
}

/// A field that is an array of texts.
pub open spec fn is_list(field: Option<JsonView>, texts: Seq<Seq<char>>) -> bool {
    &&& field is Some
    &&& field->0 is Array
    &&& field->0->Array_0.len() == texts.len()
    &&& forall|i: int|
        0 <= i < texts.len() ==> #[trigger] field->0->Array_0[i] == JsonView::Text(texts[i])
}

/// The answer about a hunk says all of the hunk, and of its annotation: the field is the
/// annotation that is on the hunk, with its id and its text, and null only where none is. It
/// is refused where there is no such hunk, or it holds no change.
pub proof fn hunk_answers_show_the_annotation(
    state: AppState,
    scope: Option<ScopeView>,
    cwd: Option<Seq<char>>,
    file: usize,
    hunk: usize,
)
    ensures
        ({
            let r = query_answer(CommandView::Hunk(file, hunk), state, scope, cwd);
            let on = |i: int|
                0 <= i < state.annotations@.len() && state.annotations@[i].file_index == file
                    && state.annotations@[i].hunk_index == hunk;
            let context = hunk_context(state.file_diffs@[file as int], hunk as int);
            if file < state.file_diffs@.len() && context is Some {
                &&& r.status == 200
                &&& says_hunk(
                    r.body,
                    state.file_diffs@[file as int].filename@,
                    file,
                    hunk,
                    context->0,
                )
                &&& r.body.field("scope"@) == Some(scope_body(scope, state))
                &&& r.body.field("annotation"@) == Some(JsonView::Null) <==> forall|i: int|
                    !#[trigger] on(i)
                &&& forall|i: int| #[trigger]
                    on(i) && (forall|k: int| #[trigger] on(k) ==> i <= k) ==> {
                        let a = r.body.field("annotation"@);
                        &&& a is Some
                        &&& a->0.text_field("id"@) == Some(state.annotations@[i].id@)
                        &&& a->0.text_field("content"@) == Some(state.annotations@[i].content@)
                        &&& a->0.text_field("file"@) == Some(state.annotations@[i].filename@)
                    }
            } else {
                r.status == 404 && r.body.text_field("error"@) == Some("hunk not found"@)
            }
        }),
{
    let on = |i: int|
        0 <= i < state.annotations@.len() && state.annotations@[i].file_index == file
            && state.annotations@[i].hunk_index == hunk;
    let scoped = Map::<Seq<char>, JsonView>::empty().insert("scope"@, scope_body(scope, state));
    lemma_field_names();
    if let Some(context) = context_in(state, file, hunk) {
        let filename = state.file_diffs@[file as int].filename@;
        lemma_hunk_fields(scoped, filename, file, hunk, context);
        let fields = hunk_fields(scoped, filename, file, hunk, context);
        first_where_is_first(state.annotations@, 0, annotation_on(file, hunk));
        match state.annotation_of(file, hunk) {
            Some(a) => {
                annotations_are_told_in_full(a@);
                let k = first_where(state.annotations@, 0, annotation_on(file, hunk))
                    ->0;
                assert(on(k));
                assert forall|i: int| #[trigger]
                    on(i) && (forall|j: int| #[trigger] on(j) ==> i <= j) implies i == k by {
                    if i < k {
                        assert(!annotation_on(file, hunk)(state.annotations@[i]));
                    }
                }
                assert(says_hunk(
                    JsonView::Object(fields.insert("annotation"@, annotation_body(a@))),
                    filename,
                    file,
                    hunk,
                    context,
                ));
            },
            None => {
                assert forall|i: int| !#[trigger] on(i) by {
                    if on(i) {
                        assert(!annotation_on(file, hunk)(state.annotations@[i]));
                    }
                }
                assert(says_hunk(
                    JsonView::Object(fields.insert("annotation"@, JsonView::Null)),
                    filename,
                    file,
                    hunk,
                    context,
                ));
            },
        }
    }
}

/// The answer about the current hunk is that about the hunk in focus, with what it says where
/// the hunk is missing as the one difference; it is refused where no hunk is in focus.
pub proof fn current_hunk_is_the_hunk_in_focus(
    state: AppState,
    scope: Option<ScopeView>,
    cwd: Option<Seq<char>>,
)
    ensures
        ({
            let r = query_answer(CommandView::CurrentHunk, state, scope, cwd);
            match state.focused_hunk {
                None => r.status == 404 && r.body.text_field("error"@) == Some("no focused hunk"@),
                Some(hunk) => {
                    let same = query_answer(
                        CommandView::Hunk(state.current_file, hunk),
                        state,
                        scope,
                        cwd,
                    );
                    if same.status == 200 {
                        r == same
                    } else {
                        r.status == 404 && r.body.text_field("error"@) == Some(
                            "focused hunk not found"@,
                        )
                    }
                },
            }
        }),
{
}

/// The full context is made of the status, of what the answer about the current hunk says of
/// it, and of the list of all annotations.
pub proof fn full_context_agrees_with_its_parts(
    state: AppState,
    scope: Option<ScopeView>,
    cwd: Option<Seq<char>>,
)
    ensures
        ({
            let r = query_answer(CommandView::FullContext, state, scope, cwd);
            let status = query_answer(CommandView::Status, state, scope, cwd);
            let all = query_answer(CommandView::Annotations(false), state, scope, cwd);
            let hunk = query_answer(CommandView::CurrentHunk, state, scope, cwd);
            &&& r.status == 200
            &&& r.body.field("status"@) == Some(status.body)
            &&& r.body.field("annotations"@) == all.body.field("annotations"@)
            &&& if hunk.status == 200 {
                r.body.field("current_hunk"@) matches Some(body) && says_hunk(
                    body,
                    state.file_diffs@[state.current_file as int].filename@,
                    state.current_file,
                    state.focused_hunk->0,
                    hunk_context(
                        state.file_diffs@[state.current_file as int],
                        state.focused_hunk->0 as int,
                    )->0,
                )
            } else {
                r.body.field("current_hunk"@) == Some(JsonView::Null)
            }
        }),
{
    lemma_field_names();
    if let Some(hunk) = state.focused_hunk {
        if let Some(context) = context_in(state, state.current_file, hunk) {
            lemma_hunk_fields(
                Map::empty(),
                state.file_diffs@[state.current_file as int].filename@,
                state.current_file,
                hunk,
                context,
            );
        }
    }
}

// ---------------------------------------------------------------------------
// Lists
// ---------------------------------------------------------------------------
proof fn lemma_bodies(list: Seq<AnnotationView>, n: int, file: Option<usize>)
    requires
        0 <= n <= list.len(),
    ensures
        annotation_bodies(list, n, file) == list.take(n).filter(
            |a: AnnotationView| file is None || a.file_index == file->0,
        ).map_values(|a: AnnotationView| annotation_body(a)),
    decreases n,
{
    reveal(Seq::filter);
    let p = |a: AnnotationView| file is None || a.file_index == file->0;
    let f = |a: AnnotationView| annotation_body(a);
    if n > 0 {
        lemma_bodies(list, n - 1, file);
        assert(list.take(n).drop_last() =~= list.take(n - 1));
        assert(list.take(n).last() == list[n - 1]);
        let before = list.take(n - 1).filter(p);
        assert(before.push(list[n - 1]).map_values(f) =~= before.map_values(f).push(
            f(list[n - 1]),
        ));
    } else {
        assert(list.take(0).filter(p).map_values(f) =~= seq![]);
    }
}

proof fn lemma_filter_true(list: Seq<AnnotationView>, file: Option<usize>)
    requires
        file is None,
    ensures
        list.filter(|a: AnnotationView| file is None || a.file_index == file->0) == list,
    decreases list.len(),
{
    reveal(Seq::filter);
    if list.len() > 0 {
        lemma_filter_true(list.drop_last(), file);
        assert(list.drop_last().push(list.last()) =~= list);
    } else {
        assert(list =~= seq![]);
    }
}

/// The list of annotations holds all of them, in order, each told in full; the list for the
/// current file holds those on its hunks and no others, in order.
pub proof fn annotation_lists_are_in_order(
    state: AppState,
    scope: Option<ScopeView>,
    cwd: Option<Seq<char>>,
)
    ensures
        ({
            let all = query_answer(CommandView::Annotations(false), state, scope, cwd);
            let here = query_answer(CommandView::Annotations(true), state, scope, cwd);
            &&& all.status == 200 && here.status == 200
            &&& all.body.field("scope"@) == Some(scope_body(scope, state))
            &&& here.body.field("scope"@) == Some(scope_body(scope, state))
            &&& all.body.array_field("annotations"@) matches Some(items) && items.len()
                == state.annotations@.len() && forall|i: int|
                0 <= i < items.len() ==> #[trigger] items[i] == annotation_body(
                    state.annotations@[i]@,
                )
            &&& here.body.array_field("annotations"@) == Some(
                views(state.annotations@).filter(
                    |a: AnnotationView| a.file_index == state.current_file,
                ).map_values(|a: AnnotationView| annotation_body(a)),
            )
        }),
{
    lemma_field_names();
    let list = views(state.annotations@);
    let file = Some(state.current_file);
    assert(list.take(list.len() as int) =~= list);
    lemma_bodies(list, list.len() as int, None);
    lemma_filter_true(list, None);
    lemma_bodies(list, list.len() as int, file);
    assert((|a: AnnotationView| file is None || a.file_index == file->0) =~= (
    |a: AnnotationView| a.file_index == state.current_file));
}

/// What a list says of the tags of a hunk: where it is, and its tags in order.
pub proof fn tags_are_told_in_full(t: HunkTagsView)
    ensures
        ({
            let body = tags_entry(t);
            &&& body.text_field("file"@) == Some(t.filename)
            &&& body.number_field("file_index"@) == Some(t.file_index as u64)
            &&& body.number_field("hunk_index"@) == Some(t.hunk_index as u64)
            &&& is_list(body.field("tags"@), t.tags)
        }),
{
    lemma_field_names();
}

proof fn lemma_tags_entries(list: Seq<HunkTagsView>, n: int, file: Option<usize>)
    requires
        0 <= n <= list.len(),
    ensures
        file is None ==> tags_entries(list, n, file) == list.take(n).map_values(
            |t: HunkTagsView| tags_entry(t),
        ),
        file is Some ==> tags_entries(list, n, file) == list.take(n).filter(
            |t: HunkTagsView| t.file_index == file->0,
        ).map_values(|t: HunkTagsView| tags_entry(t)),
    decreases n,
{
    reveal(Seq::filter);
    let p = |t: HunkTagsView| t.file_index == file->0;
    let f = |t: HunkTagsView| tags_entry(t);
    if n > 0 {
        lemma_tags_entries(list, n - 1, file);
        assert(list.take(n).drop_last() =~= list.take(n - 1));
        assert(list.take(n) =~= list.take(n - 1).push(list[n - 1]));
        let some = list.take(n - 1).filter(p);
        let all = list.take(n - 1);
        assert(some.push(list[n - 1]).map_values(f) =~= some.map_values(f).push(f(list[n - 1])));
        assert(all.push(list[n - 1]).map_values(f) =~= all.map_values(f).push(f(list[n - 1])));
    } else {
        assert(list.take(0).filter(p).map_values(f) =~= seq![]);
        assert(list.take(0).map_values(f) =~= seq![]);
    }
}

/// The list of the tags of hunks holds all of them, in order; that for the current file holds
/// those on its hunks and no others. The list of tags is the inventory, in order.
pub proof fn tag_lists_are_in_order(
    state: AppState,
    scope: Option<ScopeView>,
    cwd: Option<Seq<char>>,
)
    ensures
        ({
            let all = query_answer(CommandView::HunkTags(false), state, scope, cwd);
            let here = query_answer(CommandView::HunkTags(true), state, scope, cwd);
            let known = query_answer(CommandView::TagsList, state, scope, cwd);
            &&& all.status == 200 && here.status == 200 && known.status == 200
            &&& all.body.field("scope"@) == Some(scope_body(scope, state))
            &&& here.body.field("scope"@) == Some(scope_body(scope, state))
            &&& all.body.array_field("hunks"@) matches Some(items) && items.len()
                == state.hunk_tags@.len() && forall|i: int|
                0 <= i < items.len() ==> #[trigger] items[i] == tags_entry(state.hunk_tags@[i]@)
            &&& here.body.array_field("hunks"@) == Some(
                views(state.hunk_tags@).filter(
                    |t: HunkTagsView| t.file_index == state.current_file,
                ).map_values(|t: HunkTagsView| tags_entry(t)),
            )
            &&& known.body.array_field("tags"@) matches Some(items) && items.len()
                == state.tag_inventory@.len() && forall|i: int|
                0 <= i < items.len() ==> #[trigger] items[i] == JsonView::Text(
                    state.tag_inventory@[i]@,
                )
        }),
{
    lemma_field_names();
    let list = views(state.hunk_tags@);
    let file = Some(state.current_file);
    assert(list.take(list.len() as int) =~= list);
    lemma_tags_entries(list, list.len() as int, None);
    lemma_tags_entries(list, list.len() as int, file);
    assert((|t: HunkTagsView| t.file_index == file->0) =~= (
    |t: HunkTagsView| t.file_index == state.current_file));
}

/// The answer about the tags of the current hunk has where it is, its lines, and the tags of
/// the first entry on it, or none where no entry is on it.
pub proof fn current_tags_are_those_of_the_hunk(
    state: AppState,
    scope: Option<ScopeView>,
    cwd: Option<Seq<char>>,
)
    ensures
        ({
            let r = query_answer(CommandView::TagsCurrent, state, scope, cwd);
            let hunk = query_answer(CommandView::CurrentHunk, state, scope, cwd);
            let on = |i: int|
                0 <= i < state.hunk_tags@.len() && state.hunk_tags@[i].file_index
                    == state.current_file && Some(state.hunk_tags@[i].hunk_index)
                    == state.focused_hunk;
            if hunk.status == 200 {
                &&& r.status == 200
                &&& r.body.field("scope"@) == hunk.body.field("scope"@)
                &&& r.body.field("file"@) == hunk.body.field("file"@)
                &&& r.body.field("file_index"@) == hunk.body.field("file_index"@)
                &&& r.body.field("hunk_index"@) == hunk.body.field("hunk_index"@)
                &&& r.body.field("line_range"@) == hunk.body.field("line_range"@)
                &&& (forall|i: int| !#[trigger] on(i)) ==> is_list(r.body.field("tags"@), seq![])
                &&& forall|i: int| #[trigger]
                    on(i) && (forall|k: int| #[trigger] on(k) ==> i <= k) ==> is_list(
                        r.body.field("tags"@),
                        strs(state.hunk_tags@[i].tags@),
                    )
            } else {
                r == hunk
            }
        }),
{
    lemma_field_names();
    let on = |i: int|
        0 <= i < state.hunk_tags@.len() && state.hunk_tags@[i].file_index == state.current_file
            && Some(state.hunk_tags@[i].hunk_index) == state.focused_hunk;
    if let Some(hunk) = state.focused_hunk {
        let file = state.current_file;
        first_where_is_first(state.hunk_tags@, 0, tags_on(file, hunk));
        match first_where(state.hunk_tags@, 0, tags_on(file, hunk)) {
            Some(k) => {
                assert(on(k));
                assert forall|i: int| #[trigger]
                    on(i) && (forall|j: int| #[trigger] on(j) ==> i <= j) implies i == k by {
                    if i < k {
                        assert(!tags_on(file, hunk)(state.hunk_tags@[i]));
                    }
                }
            },
            None => {
                assert forall|i: int| !#[trigger] on(i) by {
                    if on(i) {
                        assert(!tags_on(file, hunk)(state.hunk_tags@[i]));
                    }
                }
            },
        }
    }
}

/// An entry of the list of hunks: the file by its name and position, the hunk, and its lines.
pub open spec fn says_entry(body: JsonView, files: Seq<FileDiff>, f: int, h: int) -> bool {
    &&& body.text_field("file"@) == Some(files[f].filename@)
    &&& body.number_field("file_index"@) == Some(f as u64)
    &&& body.number_field("hunk_index"@) == Some(h as u64)
    &&& is_range(body.field("line_range"@), hunk_line_range(files[f], h))
}

/// An entry of a list comes before another: by the file, then by the hunk.
pub open spec fn entry_before(a: JsonView, b: JsonView) -> bool {
    let (fa, fb) = (a.number_field("file_index"@)->0, b.number_field("file_index"@)->0);
    let (ha, hb) = (a.number_field("hunk_index"@)->0, b.number_field("hunk_index"@)->0);
    fa < fb || fa == fb && ha < hb
}

proof fn lemma_hunk_entry(files: Seq<FileDiff>, f: int, h: int)
    requires
        0 <= f < files.len() <= usize::MAX,
        0 <= h < files[f].hunks@.len(),
    ensures
        says_entry(hunk_entry(files[f], f as usize, h as usize), files, f, h),
{
    lemma_field_names();
    assert(files[f].hunks.len() == files[f].hunks@.len());
}

proof fn lemma_hunk_entries(files: Seq<FileDiff>, f: int, n: int)
    requires
        0 <= f < files.len() <= usize::MAX,
        0 <= n <= files[f].hunks@.len(),
    ensures
        ({
            let list = hunk_entries(files[f], f as usize, n);
            &&& list.len() == n
            &&& forall|h: int| 0 <= h < n ==> says_entry(#[trigger] list[h], files, f, h)
        }),
    decreases n,
{
    if n > 0 {
        lemma_hunk_entries(files, f, n - 1);
        lemma_hunk_entry(files, f, n - 1);
        let list = hunk_entries(files[f], f as usize, n);
        let less = hunk_entries(files[f], f as usize, n - 1);
        assert forall|h: int| 0 <= h < n implies says_entry(#[trigger] list[h], files, f, h) by {
            if h < n - 1 {
                assert(list[h] == less[h]);
            }
        }
    }
}

/// There is a hunk at a position of a file, and lists for one file alone do not leave it out.
pub open spec fn is_listed(files: Seq<FileDiff>, f: int, h: int, only: Option<usize>) -> bool {
    &&& 0 <= f < files.len()
    &&& 0 <= h < files[f].hunks@.len()
    &&& only is None || only->0 == f
}

/// An entry of a list is about one of the hunks to be listed.
pub open spec fn is_of_hunk(
    list: Seq<JsonView>,
    i: int,
    files: Seq<FileDiff>,
    only: Option<usize>,
) -> bool {
    exists|f: int, h: int| #[trigger]
        is_listed(files, f, h, only) && says_entry(list[i], files, f, h)
}

/// A hunk has an entry in a list.
pub open spec fn has_entry(list: Seq<JsonView>, files: Seq<FileDiff>, f: int, h: int) -> bool {
    exists|i: int| 0 <= i < list.len() && says_entry(#[trigger] list[i], files, f, h)
}

proof fn lemma_hunk_list(files: Seq<FileDiff>, n: int, only: Option<usize>)
    requires
        0 <= n <= files.len() <= usize::MAX,
    ensures
        ({
            let list = hunk_list(files, n, only);
            &&& forall|i: int|
                0 <= i < list.len() ==> #[trigger] is_of_hunk(list, i, files, only)
                    && list[i].number_field("file_index"@)->0 < n
            &&& forall|f: int, h: int| #[trigger]
                is_listed(files, f, h, only) && f < n ==> has_entry(list, files, f, h)
            &&& forall|i: int, k: int|
                0 <= i < k < list.len() ==> entry_before(#[trigger] list[i], #[trigger] list[k])
        }),
    decreases n,
{
    if n > 0 {
        lemma_hunk_list(files, n - 1, only);
        let less = hunk_list(files, n - 1, only);
        let list = hunk_list(files, n, only);
        let more = if only is None || only->0 == n - 1 {
            let m = files[n - 1].hunks@.len() as int;
            lemma_hunk_entries(files, n - 1, m);
            hunk_entries(files[n - 1], (n - 1) as usize, m)
        } else {
            seq![]
        };
        assert(list =~= less + more);
        assert forall|i: int| 0 <= i < list.len() implies #[trigger] is_of_hunk(
            list,
            i,
            files,
            only,
        ) && list[i].number_field("file_index"@)->0 < n by {
            if i < less.len() {
                assert(list[i] == less[i]);
                assert(is_of_hunk(less, i, files, only));
            } else {
                assert(list[i] == more[i - less.len()]);
                assert(is_listed(files, n - 1, i - less.len(), only));
            }
        }
        assert forall|f: int, h: int| #[trigger]
            is_listed(files, f, h, only) && f < n implies has_entry(list, files, f, h) by {
            if f < n - 1 {
                assert(has_entry(less, files, f, h));
                let i = choose|i: int|
                    0 <= i < less.len() && says_entry(#[trigger] less[i], files, f, h);
                assert(list[i] == less[i]);
            } else {
                let i = less.len() + h;
                assert(list[i] == more[h]);
            }
        }
        assert forall|i: int, k: int| 0 <= i < k < list.len() implies entry_before(
            #[trigger] list[i],
            #[trigger] list[k],
        ) by {
            if k < less.len() {
                assert(list[i] == less[i] && list[k] == less[k]);
            } else {
                assert(list[k] == more[k - less.len()]);
                if i < less.len() {
                    assert(list[i] == less[i]);
                    assert(is_of_hunk(less, i, files, only));
                } else {
                    assert(list[i] == more[i - less.len()]);
                    assert(files[n - 1].hunks.len() == files[n - 1].hunks@.len());
                }
            }
        }
    }
}

/// The list of hunks has an entry for every hunk of every file, or of the current file alone,
/// and no others, ordered by the file and then by the hunk.
pub proof fn hunk_lists_are_complete_and_in_order(
    state: AppState,
    scope: Option<ScopeView>,
    cwd: Option<Seq<char>>,
    current_only: bool,
)
    ensures
        ({
            let r = query_answer(CommandView::Hunks(current_only), state, scope, cwd);
            let list = r.body.array_field("hunks"@)->0;
            let files = state.file_diffs@;
            let only = if current_only {
                Some(state.current_file)
            } else {
                None
            };
            &&& r.status == 200
            &&& r.body.field("scope"@) == Some(scope_body(scope, state))
            &&& r.body.array_field("hunks"@) is Some
            &&& forall|i: int| 0 <= i < list.len() ==> #[trigger] is_of_hunk(list, i, files, only)
            &&& forall|f: int, h: int| #[trigger]
                is_listed(files, f, h, only) ==> has_entry(list, files, f, h)
            &&& forall|i: int, k: int|
                0 <= i < k < list.len() ==> entry_before(#[trigger] list[i], #[trigger] list[k])
        }),
{
    lemma_field_names();
    assert(state.file_diffs.len() == state.file_diffs@.len());
    let only = if current_only {
        Some(state.current_file)
    } else {
        None
    };
    lemma_hunk_list(state.file_diffs@, state.file_diffs@.len() as int, only);
}

// ---------------------------------------------------------------------------
// Commands that change something
// ---------------------------------------------------------------------------
/// The hunk that a command is about: the one it names, else the one in focus.
pub open spec fn addressed(state: AppState, target: Target) -> Option<(usize, usize)> {
    if target is Some {
        target
    } else if state.focused_hunk is Some {
        Some((state.current_file, state.focused_hunk->0))
    } else {
        None
    }
}

/// What is said where a named hunk, or the one in focus, is not there.
pub open spec fn not_there(target: Target) -> Seq<char> {
    match target {
        Some(_) => "hunk not found"@,
        None => "focused hunk not found"@,
    }
}

/// A new annotation comes last, on its hunk, with the given text, id and time. Annotations on
/// other hunks stay as they are, in order, and so does all else. A blank text is refused, and
/// so is a hunk that is not there. What is to be stored is the new annotation, where there is a
/// scope.
pub proof fn creating_adds_one_annotation(
    before: AppState,
    after: AppState,
    r: (ApiResponse, Persist),
    scope: Option<ScopeView>,
    cwd: Option<Seq<char>>,
    content: String,
    target: Target,
    id: String,
    now: TimePoint,
)
    requires
        command_handled(
            before,
            after,
            r,
            ApiCommand::CreateAnnotation { content, target },
            scope,
            cwd,
            id,
            now,
        ),
    ensures
        ({
            let blank = forall|k: int|
                0 <= k < content@.len() ==> is_white_space(#[trigger] content@[k]);
            let refused = |status: int, message: Seq<char>|
                {
                    &&& r.0@.status == status
                    &&& r.0@.body.text_field("error"@) == Some(message)
                    &&& r.1 == Persist::Nothing
                    &&& after == before
                };
            let (f, h) = addressed(before, target)->0;
            if blank {
                refused(400, "content cannot be empty"@)
            } else if addressed(before, target) is None {
                refused(404, "no focused hunk"@)
            } else if f >= before.file_diffs@.len() || hunk_line_range(
                before.file_diffs@[f as int],
                h as int,
            ) is None {
                refused(404, not_there(target))
            } else {
                let a = after.annotations@.last();
                &&& after.annotations@.len() > 0
                &&& a.id == id && a.content == content && a.created_at == now
                &&& a.file_index == f && a.hunk_index == h
                &&& a.filename == before.file_diffs@[f as int].filename
                &&& Some(a.line_range) == hunk_line_range(before.file_diffs@[f as int], h as int)
                &&& after.annotations@.drop_last() == before.annotations@.filter(
                    |b: HunkAnnotation| b.file_index != f || b.hunk_index != h,
                )
                &&& after == (AppState { annotations: after.annotations, ..before })
                &&& r.0@.status == 200
                &&& r.0@.body.field("scope"@) == Some(scope_body(scope, before))
                &&& r.0@.body.field("annotation"@) == Some(annotation_body(a@))
                &&& scope is Some ==> r.1 == Persist::Upsert(a)
                    &&& scope is None ==> r.1 == Persist::Nothing
            }
        }),
{
    lemma_field_names();
    blank_texts_are_white_space(content@);
    if let Some((f, h)) = addressed(before, target) {
        let others = |b: HunkAnnotation| b.file_index != f || b.hunk_index != h;
        keeping_is_filtering(before.annotations@, annotation_elsewhere(f, h));
        assert(annotation_elsewhere(f, h) =~= others);
        let rest = before.annotations@.filter(others);
        if after.annotations@.len() > 0 && after.annotations@ == rest.push(
            after.annotations@.last(),
        ) {
            assert(after.annotations@.drop_last() =~= rest);
        }
    }
}

/// A new text replaces that of the first annotation with the id, and nothing else changes. A
/// blank text is refused, and so is an id that no annotation has.
pub proof fn updating_changes_one_text(
    before: AppState,
    after: AppState,
    r: (ApiResponse, Persist),
    scope: Option<ScopeView>,
    cwd: Option<Seq<char>>,
    given: String,
    content: String,
    id: String,
    now: TimePoint,
)
    requires
        command_handled(
            before,
            after,
            r,
            ApiCommand::UpdateAnnotation { id: given, content },
            scope,
            cwd,
            id,
            now,
        ),
    ensures
        ({
            let blank = forall|k: int|
                0 <= k < content@.len() ==> is_white_space(#[trigger] content@[k]);
            let list = before.annotations@;
            let refused = |status: int, message: Seq<char>|
                {
                    &&& r.0@.status == status
                    &&& r.0@.body.text_field("error"@) == Some(message)
                    &&& r.1 == Persist::Nothing
                    &&& after == before
                };
            &&& blank ==> refused(400, "content cannot be empty"@)
            &&& !blank && (forall|i: int|
                0 <= i < list.len() ==> (#[trigger] list[i]).id@ != given@) ==> refused(
                404,
                "annotation not found"@,
            )
            &&& forall|i: int|
                !blank && #[trigger] is_first_with_id(list, given@, i) ==> {
                    let a = after.annotations@[i];
                    &&& after == (AppState { annotations: after.annotations, ..before })
                    &&& after.annotations@.len() == before.annotations@.len()
                    &&& forall|k: int|
                        0 <= k < after.annotations@.len() && k != i
                            ==> #[trigger] after.annotations@[k] == before.annotations@[k]
                    &&& a == (HunkAnnotation { content, ..before.annotations@[i] })
                    &&& r.0@.status == 200
                    &&& r.0@.body.field("scope"@) == Some(scope_body(scope, before))
                    &&& r.0@.body.field("annotation"@) == Some(annotation_body(a@))
                    &&& scope is Some ==> r.1 == Persist::Upsert(a)
                    &&& scope is None ==> r.1 == Persist::Nothing
                }
        }),
{
    lemma_field_names();
    blank_texts_are_white_space(content@);
    lemma_first_with_id(before.annotations@, given@);
}

/// The first place in a list of annotations with an id.
pub open spec fn is_first_with_id(list: Seq<HunkAnnotation>, id: Seq<char>, i: int) -> bool {
    &&& 0 <= i < list.len()
    &&& list[i].id@ == id
    &&& forall|k: int| 0 <= k < i ==> (#[trigger] list[k]).id@ != id
}

proof fn lemma_first_with_id(list: Seq<HunkAnnotation>, id: Seq<char>)
    ensures
        match first_where(list, 0, annotation_has_id(id)) {
            Some(k) => is_first_with_id(list, id, k) && forall|i: int|
                is_first_with_id(list, id, i) ==> i == k,
            None => forall|i: int| 0 <= i < list.len() ==> (#[trigger] list[i]).id@ != id,
        },
{
    first_where_is_first(list, 0, annotation_has_id(id));
    match first_where(list, 0, annotation_has_id(id)) {
        Some(k) => {
            assert forall|i: int| 0 <= i < k implies (#[trigger] list[i]).id@ != id by {
                assert(!annotation_has_id(id)(list[i]));
            }
        },
        None => {
            assert forall|i: int| 0 <= i < list.len() implies (#[trigger] list[i]).id@ != id by {
                assert(!annotation_has_id(id)(list[i]));
            }
        },
    }
}

/// The first annotation with the id is taken away: those before it and those behind it stay as
/// they are, in order. The answer shows it. An id that no annotation has is refused.
pub proof fn deleting_takes_one_annotation(
    before: AppState,
    after: AppState,
    r: (ApiResponse, Persist),
    scope: Option<ScopeView>,
    cwd: Option<Seq<char>>,
    given: String,
    id: String,
    now: TimePoint,
)
    requires
        command_handled(
            before,
            after,
            r,
            ApiCommand::DeleteAnnotation { id: given },
            scope,
            cwd,
            id,
            now,
        ),
    ensures
        ({
            let list = before.annotations@;
            &&& (forall|i: int|
                0 <= i < list.len() ==> (#[trigger] list[i]).id@ != given@) ==> {
                &&& r.0@.status == 404
                &&& r.0@.body.text_field("error"@) == Some("annotation not found"@)
                &&& r.1 == Persist::Nothing
                &&& after == before
            }
            &&& forall|i: int| #[trigger]
                is_first_with_id(list, given@, i) ==> {
                    let a = before.annotations@[i];
                    &&& after == (AppState { annotations: after.annotations, ..before })
                    &&& after.annotations@ == before.annotations@.take(i) + before.annotations@.skip(
                        i + 1,
                    )
                    &&& r.0@.status == 200
                    &&& r.0@.body.field("deleted"@) == Some(JsonView::Bool(true))
                    &&& r.0@.body.field("scope"@) == Some(scope_body(scope, before))
                    &&& r.0@.body.field("annotation"@) == Some(annotation_body(a@))
                    &&& scope is Some ==> r.1 == Persist::Remove(a)
                    &&& scope is None ==> r.1 == Persist::Nothing
                }
        }),
{
    lemma_field_names();
    lemma_first_with_id(before.annotations@, given@);
    if let Some(i) = first_where(before.annotations@, 0, annotation_has_id(given@)) {
        assert(before.annotations@.remove(i) =~= before.annotations@.take(i)
            + before.annotations@.skip(i + 1));
    }
}

/// The tags of a hunk are replaced by the given ones in normal form: the entry of the hunk comes
/// last, or there is none where no tag is left. The entries of other hunks stay as they are, in
/// order, and so does all else. The answer shows the new tags.
pub proof fn tagging_changes_one_hunk(
    before: AppState,
    after: AppState,
    r: (ApiResponse, Persist),
    scope: Option<ScopeView>,
    cwd: Option<Seq<char>>,
    tags: Vec<String>,
    target: Target,
    id: String,
    now: TimePoint,
)
    requires
        command_handled(
            before,
            after,
            r,
            ApiCommand::TagsSet { tags, target },
            scope,
            cwd,
            id,
            now,
        ),
    ensures
        ({
            let set = normalized(strs(tags@));
            let refused = |message: Seq<char>|
                {
                    &&& r.0@.status == 404
                    &&& r.0@.body.text_field("error"@) == Some(message)
                    &&& r.1 == Persist::Nothing
                    &&& after == before
                };
            let (f, h) = addressed(before, target)->0;
            let others = before.hunk_tags@.filter(
                |t: HunkTags| t.file_index != f || t.hunk_index != h,
            );
            if addressed(before, target) is None {
                refused("no focused hunk"@)
            } else if f >= before.file_diffs@.len() || hunk_context(
                before.file_diffs@[f as int],
                h as int,
            ) is None {
                refused(not_there(target))
            } else {
                let t = after.hunk_tags@.last();
                &&& after == (AppState { hunk_tags: after.hunk_tags, ..before })
                &&& set.len() == 0 ==> after.hunk_tags@ == others
                &&& set.len() > 0 ==> {
                    &&& after.hunk_tags@.len() > 0
                    &&& after.hunk_tags@.drop_last() == others
                    &&& t.file_index == f && t.hunk_index == h
                    &&& t.filename@ == before.file_diffs@[f as int].filename@
                    &&& strs(t.tags@) == set
                }
                &&& r.0@.status == 200
                &&& r.0@.body.field("scope"@) == Some(scope_body(scope, after))
                &&& r.0@.body.text_field("file"@) == Some(before.file_diffs@[f as int].filename@)
                &&& r.0@.body.number_field("file_index"@) == Some(f as u64)
                &&& r.0@.body.number_field("hunk_index"@) == Some(h as u64)
                &&& is_list(r.0@.body.field("tags"@), set)
                &&& match r.1 {
                    Persist::SetTags { file_index, hunk_index, tags: stored } => scope is Some
                        && file_index == f && hunk_index == h && strs(stored@) == set,
                    Persist::Nothing => scope is None,
                    _ => false,
                }
            }
        }),
{
    lemma_field_names();
    if let Some((f, h)) = addressed(before, target) {
        let others = |t: HunkTags| t.file_index != f || t.hunk_index != h;
        keeping_is_filtering(before.hunk_tags@, tags_elsewhere(f, h));
        assert(tags_elsewhere(f, h) =~= others);
        if context_in(before, f, h) is Some {
            set_tags_are_found(before, after, r, scope, strs(tags@), target);
            assert(context_in(after, f, h) is Some);
        }
    }
}

// ---------------------------------------------------------------------------
// Requests
// ---------------------------------------------------------------------------
/// The paths of requests differ from each other.
proof fn lemma_paths()
    ensures
        "/status"@.len() == 7,
        "/current-hunk"@.len() == 13 && "/current-hunk"@[1] == 'c' && "/current-hunk"@[9] == 'h',
        "/current-file"@.len() == 13 && "/current-file"@[1] == 'c' && "/current-file"@[9] == 'f',
        "/full-context"@.len() == 13 && "/full-context"@[1] == 'f',
        "/annotations"@.len() == 12,
        "/annotations/current"@.len() == 20,
        "/annotation/create"@.len() == 18 && "/annotation/create"@[12] == 'c',
        "/annotation/update"@.len() == 18 && "/annotation/update"@[12] == 'u',
        "/annotation/delete"@.len() == 18 && "/annotation/delete"@[12] == 'd',
        "/tags"@.len() == 5 && "/tags"@[1] == 't',
        "/tags/current"@.len() == 13 && "/tags/current"@[1] == 't',
        "/tags/set"@.len() == 9,
        "/hunks"@.len() == 6,
        "/hunks/current"@.len() == 14,
        "/hunk"@.len() == 5 && "/hunk"@[1] == 'h',
        "/tags/hunks"@.len() == 11,
        "/tags/hunks/current"@.len() == 19,
{
    reveal_strlit("/status");
    reveal_strlit("/current-hunk");
    reveal_strlit("/current-file");
    reveal_strlit("/full-context");
    reveal_strlit("/annotations");
    reveal_strlit("/annotations/current");
    reveal_strlit("/annotation/create");
    reveal_strlit("/annotation/update");
    reveal_strlit("/annotation/delete");
    reveal_strlit("/tags");
    reveal_strlit("/tags/current");
    reveal_strlit("/tags/set");
    reveal_strlit("/hunks");
    reveal_strlit("/hunks/current");
    reveal_strlit("/hunk");
    reveal_strlit("/tags/hunks");
    reveal_strlit("/tags/hunks/current");
}

/// Each kind of request is known by its method and its path, and by no others.
pub proof fn routes_are_known_by_method_and_path(method: Method, path: Seq<char>)
    ensures
        ({
            let r = route_of(method, path);
            &&& r == Route::Status <==> method == Method::Get && path == "/status"@
            &&& r == Route::CurrentHunk <==> method == Method::Get && path == "/current-hunk"@
            &&& r == Route::CurrentFile <==> method == Method::Get && path == "/current-file"@
            &&& r == Route::FullContext <==> method == Method::Get && path == "/full-context"@
            &&& r == Route::Annotations <==> method == Method::Get && path == "/annotations"@
            &&& r == Route::CurrentAnnotations <==> method == Method::Get && path == "/annotations/current"@
            &&& r == Route::Create <==> method == Method::Post && path == "/annotation/create"@
            &&& r == Route::Update <==> method == Method::Post && path == "/annotation/update"@
            &&& r == Route::Delete <==> method == Method::Post && path == "/annotation/delete"@
            &&& r == Route::Tags <==> method == Method::Get && path == "/tags"@
            &&& r == Route::CurrentTags <==> method == Method::Get && path == "/tags/current"@
            &&& r == Route::SetTags <==> method == Method::Post && path == "/tags/set"@
            &&& r == Route::Hunks <==> method == Method::Get && path == "/hunks"@
            &&& r == Route::CurrentFileHunks <==> method == Method::Get && path == "/hunks/current"@
            &&& r == Route::Hunk <==> method == Method::Post && path == "/hunk"@
            &&& r == Route::HunkTags <==> method == Method::Get && path == "/tags/hunks"@
            &&& r == Route::CurrentFileHunkTags <==> method == Method::Get && path == "/tags/hunks/current"@
        }),
{
    lemma_paths();
}


/// The path of a request is what stands before the first question mark.
pub proof fn paths_end_at_the_question_mark(url: Seq<char>)
    ensures
        ({
            let path = path_of(url);
            &&& path.len() <= url.len() && path == url.take(path.len() as int)
            &&& forall|k: int| 0 <= k < path.len() ==> #[trigger] path[k] != '?'
            &&& path.len() < url.len() ==> url[path.len() as int] == '?'
        }),
{
    characters_are_found_where_they_stand_first(url, '?', 0);
    assert forall|k: int| 0 <= k < path_of(url).len() implies #[trigger] path_of(url)[k]
        != '?' by {
        assert(url[k] != '?');
    }
}

/// Requests without a payload are the commands of their names, whatever their body is. Those
/// for the current file alone differ from the others in this only. Others are refused.
pub proof fn questions_need_no_payload(body: Option<Seq<char>>)
    ensures
        command_of(Route::Status, body) == Ok::<CommandView, ResponseView>(CommandView::Status),
        command_of(Route::CurrentHunk, body) == Ok::<CommandView, ResponseView>(
            CommandView::CurrentHunk,
        ),
        command_of(Route::CurrentFile, body) == Ok::<CommandView, ResponseView>(
            CommandView::CurrentFile,
        ),
        command_of(Route::FullContext, body) == Ok::<CommandView, ResponseView>(
            CommandView::FullContext,
        ),
        command_of(Route::Annotations, body) == Ok::<CommandView, ResponseView>(
            CommandView::Annotations(false),
        ),
        command_of(Route::CurrentAnnotations, body) == Ok::<CommandView, ResponseView>(
            CommandView::Annotations(true),
        ),
        command_of(Route::Tags, body) == Ok::<CommandView, ResponseView>(CommandView::TagsList),
        command_of(Route::CurrentTags, body) == Ok::<CommandView, ResponseView>(
            CommandView::TagsCurrent,
        ),
        command_of(Route::Hunks, body) == Ok::<CommandView, ResponseView>(
            CommandView::Hunks(false),
        ),
        command_of(Route::CurrentFileHunks, body) == Ok::<CommandView, ResponseView>(
            CommandView::Hunks(true),
        ),
        command_of(Route::HunkTags, body) == Ok::<CommandView, ResponseView>(
            CommandView::HunkTags(false),
        ),
        command_of(Route::CurrentFileHunkTags, body) == Ok::<CommandView, ResponseView>(
            CommandView::HunkTags(true),
        ),
        command_of(Route::Unknown, body) matches Err(r) && r.status == 404 && r.body.text_field(
            "error"@,
        ) == Some("not found"@),
{
}

/// A request that needs a payload is refused without a body, and with one that is no JSON.
pub proof fn payloads_must_be_json(route: Route, body: Option<Seq<char>>)
    requires
        route == Route::Create || route == Route::Update || route == Route::Delete || route
            == Route::SetTags || route == Route::Hunk,
    ensures
        reads_body(route),
        body is None ==> (command_of(route, body) matches Err(r) && r.status == 400
            && r.body.text_field("error"@) == Some("invalid request body"@)),
        body matches Some(text) ==> match parsed(text) {
            None => command_of(route, body) matches Err(r) && r.status == 400
                && r.body.text_field("error"@) == Some("invalid json body"@),
            Some(payload) => command_of(route, body) == command_with_payload(route, payload),
        },
{
}

pub(crate) proof fn lemma_texts_of(items: Seq<JsonView>, n: int)
    requires
        0 <= n <= items.len(),
    ensures
        texts_of(items, n) == items.take(n).filter(|j: JsonView| j is Text).map_values(
            |j: JsonView| j->Text_0,
        ),
    decreases n,
{
    reveal(Seq::filter);
    let p = |j: JsonView| j is Text;
    let f = |j: JsonView| j->Text_0;
    if n > 0 {
        lemma_texts_of(items, n - 1);
        assert(items.take(n).drop_last() =~= items.take(n - 1));
        let less = items.take(n - 1).filter(p);
        assert(less.push(items[n - 1]).map_values(f) =~= less.map_values(f).push(f(items[n - 1])));
    } else {
        assert(items.take(0).filter(p).map_values(f) =~= seq![]);
    }
}

/// What a payload asks for: the text, the id and the tags that its fields hold, and the hunk
/// where it has the numbers of both the file and the hunk. A missing field is refused by its
/// name.
pub proof fn payloads_are_read_field_by_field(payload: JsonView)
    ensures
        ({
            let content = payload.text_field("content"@);
            let id = payload.text_field("id"@);
            let f = payload.number_field("file_index"@);
            let h = payload.number_field("hunk_index"@);
            let target: Target = if f is Some && h is Some && f->0 <= usize::MAX && h->0
                <= usize::MAX {
                Some((f->0 as usize, h->0 as usize))
            } else {
                None
            };
            let refused = |r: Result<CommandView, ResponseView>, message: Seq<char>|
                r matches Err(e) && e.status == 400 && e.body.text_field("error"@) == Some(message);
            let create = command_with_payload(Route::Create, payload);
            let update = command_with_payload(Route::Update, payload);
            let delete = command_with_payload(Route::Delete, payload);
            let tags = command_with_payload(Route::SetTags, payload);
            let hunk = command_with_payload(Route::Hunk, payload);
            &&& content is Some ==> create == Ok::<CommandView, ResponseView>(
                CommandView::CreateAnnotation(content->0, target),
            )
            &&& content is None ==> refused(create, "missing content field"@)
            &&& id is Some && content is Some ==> update == Ok::<CommandView, ResponseView>(
                CommandView::UpdateAnnotation(id->0, content->0),
            )
            &&& id is None ==> refused(update, "missing id field"@)
            &&& id is Some && content is None ==> refused(update, "missing content field"@)
            &&& id is Some ==> delete == Ok::<CommandView, ResponseView>(
                CommandView::DeleteAnnotation(id->0),
            )
            &&& id is None ==> refused(delete, "missing id field"@)
            &&& payload.array_field("tags"@) is None ==> refused(tags, "missing tags field"@)
            &&& payload.array_field("tags"@) matches Some(items) ==> tags == Ok::<
                CommandView,
                ResponseView,
            >(
                CommandView::TagsSet(
                    items.filter(|j: JsonView| j is Text).map_values(|j: JsonView| j->Text_0),
                    target,
                ),
            )
            &&& target is Some ==> hunk == Ok::<CommandView, ResponseView>(
                CommandView::Hunk(f->0 as usize, h->0 as usize),
            )
            &&& target is None ==> refused(hunk, "missing hunk fields"@)
        }),
{
    if let Some(items) = payload.array_field("tags"@) {
        lemma_texts_of(items, items.len() as int);
        assert(items.take(items.len() as int) =~= items);
    }
}

} // verus!
