//! How the viewer answers the commands of the HTTP interface.

use vstd::prelude::*;

use crate::api::{
    error_response, refusal, refusals_can_be_written_out, ApiCommand, ApiResponse, CommandView,
    ResponseView, Target,
};
use crate::clock::current_time;
use crate::diff::{
    build_hunk_context, compute_hunk_line_range, files_wf, hunk_context, hunk_line_range, FileDiff,
    FileStatus, HunkContext, HunkContextView,
};
use crate::ids::{is_random_id, new_id};
use crate::json::{
    group_plain_fields, json_array, json_number, json_range, json_string, json_strings, json_text,
    number_or_null, optional_number, optional_range, optional_text, parsed, plain,
    plain_array_has_plain_items, plain_fields, print_json, range_or_null, range_view,
    ranges_and_texts_are_plain, text_or_null, texts_view, writable, Fields, Json, JsonView,
};
use crate::persistence::{DiffScope, ScopeView};
use crate::seqs::{
    find_first, first_where, first_where_at, first_where_is_first, first_where_none, kept,
    kept_elements, views,
};
use crate::state::{
    annotation_elsewhere, annotation_on, tags_elsewhere, tags_on, AnnotationView, AppState,
    HunkAnnotation, HunkTags, HunkTagsView, TimePoint,
};
use crate::tag_names::{normalize_tags, normalized};
use crate::text::{opt_str, strs, trimmed};

verus! {

// ---------------------------------------------------------------------------
// Parts of answers
// ---------------------------------------------------------------------------
/// The model of an optional scope.
pub open spec fn scope_view(scope: Option<&DiffScope>) -> Option<ScopeView> {
    match scope {
        Some(s) => Some(s@),
        None => None,
    }
}

/// What an answer says of the scope.
pub open spec fn scope_body(scope: Option<ScopeView>, state: AppState) -> JsonView {
    let kind: Map<Seq<char>, JsonView> = match scope {
        Some(ScopeView::WorkingTree(base)) => Map::empty().insert(
            "type"@,
            JsonView::Text("working_tree"@),
        ).insert("base_commit_id"@, JsonView::Text(base)),
        Some(ScopeView::Commit(commit_id)) => Map::empty().insert(
            "type"@,
            JsonView::Text("commit"@),
        ).insert("commit_id"@, JsonView::Text(commit_id)),
        None => Map::empty().insert("type"@, JsonView::Text("unknown"@)),
    };
    JsonView::Object(
        kind.insert("diff_reference"@, text_or_null(opt_str(state.diff_reference))).insert(
            "vcs"@,
            JsonView::Text(state.vcs_name@),
        ),
    )
}

/// What an answer says of the scope.
pub fn scope_json(scope: Option<&DiffScope>, state: &AppState) -> (r: Json)
    ensures
        r@ == scope_body(scope_view(scope), *state),
{
    let kind = match scope {
        Some(DiffScope::WorkingTree { base_commit_id }) => Fields::new().with(
            "type",
            json_string("working_tree"),
        ).with("base_commit_id", json_string(base_commit_id.as_str())),
        Some(DiffScope::Commit { commit_id }) => Fields::new().with(
            "type",
            json_string("commit"),
        ).with("commit_id", json_string(commit_id.as_str())),
        None => Fields::new().with("type", json_string("unknown")),
    };
    kind.with("diff_reference", optional_text(&state.diff_reference)).with(
        "vcs",
        json_string(state.vcs_name.as_str()),
    ).done()
}

/// What an answer says of the state of the viewer.
pub open spec fn status_body(
    state: AppState,
    scope: Option<ScopeView>,
    cwd: Option<Seq<char>>,
) -> JsonView {
    let exists_file = state.current_file < state.file_diffs@.len();
    let file = state.file_diffs@[state.current_file as int];
    JsonView::Object(
        Map::empty().insert("cwd"@, text_or_null(cwd)).insert(
            "scope"@,
            scope_body(scope, state),
        ).insert(
            "current_file"@,
            if exists_file {
                JsonView::Text(file.filename@)
            } else {
                JsonView::Null
            },
        ).insert("current_file_index"@, JsonView::Unsigned(state.current_file as u64)).insert(
            "focused_hunk"@,
            number_or_null(state.focused_hunk),
        ).insert(
            "hunk_count"@,
            JsonView::Unsigned(
                if exists_file {
                    file.hunks@.len() as u64
                } else {
                    0
                },
            ),
        ).insert("annotations_count"@, JsonView::Unsigned(state.annotations@.len() as u64)),
    )
}

/// What an answer says of the state of the viewer.
pub fn status_json(state: &AppState, scope: Option<&DiffScope>, cwd: &Option<String>) -> (r: Json)
    ensures
        r@ == status_body(*state, scope_view(scope), opt_str(*cwd)),
{
    let (name, hunk_count) = if state.current_file < state.file_diffs.len() {
        let file = &state.file_diffs[state.current_file];
        (json_string(file.filename.as_str()), file.hunks.len())
    } else {
        (Json::Null, 0)
    };
    Fields::new().with("cwd", optional_text(cwd)).with("scope", scope_json(scope, state)).with(
        "current_file",
        name,
    ).with("current_file_index", json_number(state.current_file)).with(
        "focused_hunk",
        optional_number(state.focused_hunk),
    ).with("hunk_count", json_number(hunk_count)).with(
        "annotations_count",
        json_number(state.annotations.len()),
    ).done()
}

/// The word for what happened to a file.
pub open spec fn status_word(status: FileStatus) -> Seq<char> {
    match status {
        FileStatus::Added => "added"@,
        FileStatus::Deleted => "deleted"@,
        FileStatus::Modified => "modified"@,
    }
}

/// The word for what happened to a file.
pub fn file_status_str(status: FileStatus) -> (r: &'static str)
    ensures
        r@ == status_word(status),
{
    match status {
        FileStatus::Added => "added",
        FileStatus::Deleted => "deleted",
        FileStatus::Modified => "modified",
    }
}

/// What an answer says of an annotation.
pub open spec fn annotation_body(a: AnnotationView) -> JsonView {
    JsonView::Object(
        Map::empty().insert("id"@, JsonView::Text(a.id)).insert(
            "file"@,
            JsonView::Text(a.filename),
        ).insert("file_index"@, JsonView::Unsigned(a.file_index as u64)).insert(
            "hunk_index"@,
            JsonView::Unsigned(a.hunk_index as u64),
        ).insert("line_range"@, range_view(a.line_range)).insert(
            "content"@,
            JsonView::Text(a.content),
        ).insert("created_at"@, JsonView::Unsigned(a.created_at.secs)),
    )
}

/// What an answer says of an annotation.
pub fn annotation_json(a: &HunkAnnotation) -> (r: Json)
    ensures
        r@ == annotation_body(a@),
{
    Fields::new().with("id", json_string(a.id.as_str())).with(
        "file",
        json_string(a.filename.as_str()),
    ).with("file_index", json_number(a.file_index)).with(
        "hunk_index",
        json_number(a.hunk_index),
    ).with("line_range", json_range(a.line_range)).with(
        "content",
        json_string(a.content.as_str()),
    ).with("created_at", Json::Unsigned(a.created_at.secs)).done()
}

/// What an answer says of the first `n` annotations; only of those on one file, where one
/// is given.
pub open spec fn annotation_bodies(list: Seq<AnnotationView>, n: int, file: Option<usize>) -> Seq<
    JsonView,
>
    decreases n,
{
    if n <= 0 {
        seq![]
    } else if file is None || list[n - 1].file_index == file->0 {
        annotation_bodies(list, n - 1, file).push(annotation_body(list[n - 1]))
    } else {
        annotation_bodies(list, n - 1, file)
    }
}

/// What an answer says of the annotations.
fn annotations_json(list: &Vec<HunkAnnotation>, file: Option<usize>) -> (r: Json)
    ensures
        r@ == JsonView::Array(annotation_bodies(views(list@), list@.len() as int, file)),
{
    let mut items: Vec<Json> = Vec::new();
    let mut i: usize = 0;
    assert(views(items@) == Seq::<JsonView>::empty());
    while i < list.len()
        invariant
            i <= list@.len(),
            views(items@) == annotation_bodies(views(list@), i as int, file),
        decreases list@.len() - i,
    {
        let ghost before = views(items@);
        let a = &list[i];
        let wanted = match file {
            Some(f) => a.file_index == f,
            None => true,
        };
        if wanted {
            items.push(annotation_json(a));
            assert(views(items@) == before.push(annotation_body(a@)));
        }
        i += 1;
    }
    json_array(items)
}

/// The lines that a hunk is shown with.
pub open spec fn display_range(context: HunkContextView) -> (usize, usize) {
    match (context.new_line_range, context.old_line_range) {
        (Some(range), _) => range,
        (None, Some(range)) => range,
        (None, None) => (0, 0),
    }
}

/// What an answer says of a hunk, put behind the fields `before`.
pub open spec fn hunk_fields(
    before: Map<Seq<char>, JsonView>,
    filename: Seq<char>,
    file: usize,
    hunk: usize,
    context: HunkContextView,
) -> Map<Seq<char>, JsonView> {
    before.insert("file"@, JsonView::Text(filename)).insert(
        "file_index"@,
        JsonView::Unsigned(file as u64),
    ).insert("hunk_index"@, JsonView::Unsigned(hunk as u64)).insert(
        "line_range"@,
        range_view(display_range(context)),
    ).insert("old_line_range"@, range_or_null(context.old_line_range)).insert(
        "new_line_range"@,
        range_or_null(context.new_line_range),
    ).insert("diff_text"@, JsonView::Text(context.diff_text)).insert(
        "context_before"@,
        texts_view(context.context_before),
    ).insert("context_changed"@, texts_view(context.context_changed)).insert(
        "context_after"@,
        texts_view(context.context_after),
    ).insert("change_type"@, JsonView::Text(context.change_type))
}

/// The lines that a hunk is shown with.
fn display_range_of(context: &HunkContext) -> (r: (usize, usize))
    ensures
        r == display_range(context@),
{
    match context.new_line_range {
        Some(range) => range,
        None => match context.old_line_range {
            Some(range) => range,
            None => (0, 0),
        },
    }
}

/// What an answer says of a hunk, put behind the fields `before`.
fn with_hunk(before: Fields, filename: &String, file: usize, hunk: usize, context: &HunkContext)
    -> (r: Fields)
    ensures
        r.map() == hunk_fields(before.map(), filename@, file, hunk, context@),
{
    before.with("file", json_string(filename.as_str())).with("file_index", json_number(file)).with(
        "hunk_index",
        json_number(hunk),
    ).with("line_range", json_range(display_range_of(context))).with(
        "old_line_range",
        optional_range(context.old_line_range),
    ).with("new_line_range", optional_range(context.new_line_range)).with(
        "diff_text",
        json_string(context.diff_text.as_str()),
    ).with("context_before", json_strings(&context.context_before)).with(
        "context_changed",
        json_strings(&context.context_changed),
    ).with("context_after", json_strings(&context.context_after)).with(
        "change_type",
        json_string(context.change_type.as_str()),
    )
}

/// An answer that the command was carried out.
pub open spec fn success(body: Map<Seq<char>, JsonView>) -> ResponseView {
    ResponseView { status: 200, body: JsonView::Object(body) }
}

fn success_response(fields: Fields) -> (r: ApiResponse)
    ensures
        r@ == success(fields.map()),
{
    ApiResponse { status: 200, body: fields.done() }
}

/// The context of a hunk of the viewer, where there is one.
pub open spec fn context_in(state: AppState, file: usize, hunk: usize) -> Option<HunkContextView> {
    if file < state.file_diffs@.len() {
        hunk_context(state.file_diffs@[file as int], hunk as int)
    } else {
        None
    }
}

/// What an answer says of an optional annotation.
pub open spec fn annotation_or_null(a: Option<HunkAnnotation>) -> JsonView {
    match a {
        Some(a) => annotation_body(a@),
        None => JsonView::Null,
    }
}

/// The answer about a hunk with its annotation.
pub open spec fn hunk_answer(
    state: AppState,
    scope: Option<ScopeView>,
    file: usize,
    hunk: usize,
    missing: Seq<char>,
) -> ResponseView {
    match context_in(state, file, hunk) {
        Some(context) => success(
            hunk_fields(
                Map::empty().insert("scope"@, scope_body(scope, state)),
                state.file_diffs@[file as int].filename@,
                file,
                hunk,
                context,
            ).insert("annotation"@, annotation_or_null(state.annotation_of(file, hunk))),
        ),
        None => refusal(404, missing),
    }
}

fn hunk_response(
    state: &AppState,
    scope: Option<&DiffScope>,
    file: usize,
    hunk: usize,
    missing: &str,
) -> (r: ApiResponse)
    requires
        files_wf(state.file_diffs@),
    ensures
        r@ == hunk_answer(*state, scope_view(scope), file, hunk, missing@),
{
    match build_hunk_context(&state.file_diffs, file, hunk) {
        Some(context) => {
            let annotation = match state.get_annotation(file, hunk) {
                Some(a) => annotation_json(a),
                None => Json::Null,
            };
            success_response(
                with_hunk(
                    Fields::new().with("scope", scope_json(scope, state)),
                    &state.file_diffs[file].filename,
                    file,
                    hunk,
                    &context,
                ).with("annotation", annotation),
            )
        },
        None => error_response(404, missing),
    }
}

/// The answer about the focused hunk.
pub open spec fn current_hunk_answer(state: AppState, scope: Option<ScopeView>) -> ResponseView {
    match state.focused_hunk {
        Some(hunk) => hunk_answer(
            state,
            scope,
            state.current_file,
            hunk,
            "focused hunk not found"@,
        ),
        None => refusal(404, "no focused hunk"@),
    }
}

/// The answer about the current file.
pub open spec fn current_file_answer(state: AppState, scope: Option<ScopeView>) -> ResponseView {
    if state.current_file < state.file_diffs@.len() {
        let file = state.file_diffs@[state.current_file as int];
        success(
            Map::empty().insert("scope"@, scope_body(scope, state)).insert(
                "file"@,
                JsonView::Text(file.filename@),
            ).insert("file_index"@, JsonView::Unsigned(state.current_file as u64)).insert(
                "status"@,
                JsonView::Text(status_word(file.status)),
            ).insert("is_binary"@, JsonView::Bool(file.is_binary)).insert(
                "old_content"@,
                JsonView::Text(file.old_content@),
            ).insert("new_content"@, JsonView::Text(file.new_content@)),
        )
    } else {
        refusal(404, "file not found"@)
    }
}

fn current_file_response(state: &AppState, scope: Option<&DiffScope>) -> (r: ApiResponse)
    ensures
        r@ == current_file_answer(*state, scope_view(scope)),
{
    if state.current_file < state.file_diffs.len() {
        let file = &state.file_diffs[state.current_file];
        success_response(
            Fields::new().with("scope", scope_json(scope, state)).with(
                "file",
                json_string(file.filename.as_str()),
            ).with("file_index", json_number(state.current_file)).with(
                "status",
                json_string(file_status_str(file.status)),
            ).with("is_binary", Json::Bool(file.is_binary)).with(
                "old_content",
                json_string(file.old_content.as_str()),
            ).with("new_content", json_string(file.new_content.as_str())),
        )
    } else {
        error_response(404, "file not found")
    }
}

/// The answer about the state, the focused hunk and the annotations.
pub open spec fn full_context_answer(
    state: AppState,
    scope: Option<ScopeView>,
    cwd: Option<Seq<char>>,
) -> ResponseView {
    let context = match state.focused_hunk {
        Some(hunk) => context_in(state, state.current_file, hunk),
        None => None,
    };
    success(
        Map::empty().insert("status"@, status_body(state, scope, cwd)).insert(
            "current_hunk"@,
            match context {
                Some(c) => JsonView::Object(
                    hunk_fields(
                        Map::empty(),
                        state.file_diffs@[state.current_file as int].filename@,
                        state.current_file,
                        state.focused_hunk->0,
                        c,
                    ),
                ),
                None => JsonView::Null,
            },
        ).insert(
            "annotations"@,
            JsonView::Array(
                annotation_bodies(
                    views(state.annotations@),
                    state.annotations@.len() as int,
                    None,
                ),
            ),
        ),
    )
}

fn full_context_response(state: &AppState, scope: Option<&DiffScope>, cwd: &Option<String>) -> (r:
    ApiResponse)
    requires
        files_wf(state.file_diffs@),
    ensures
        r@ == full_context_answer(*state, scope_view(scope), opt_str(*cwd)),
{
    let current_hunk = match state.focused_hunk {
        Some(hunk) => match build_hunk_context(&state.file_diffs, state.current_file, hunk) {
            Some(context) => with_hunk(
                Fields::new(),
                &state.file_diffs[state.current_file].filename,
                state.current_file,
                hunk,
                &context,
            ).done(),
            None => Json::Null,
        },
        None => Json::Null,
    };
    success_response(
        Fields::new().with("status", status_json(state, scope, cwd)).with(
            "current_hunk",
            current_hunk,
        ).with("annotations", annotations_json(&state.annotations, None)),
    )
}

/// The answer about the annotations.
pub open spec fn annotations_answer(
    state: AppState,
    scope: Option<ScopeView>,
    current_only: bool,
) -> ResponseView {
    success(
        Map::empty().insert("scope"@, scope_body(scope, state)).insert(
            "annotations"@,
            JsonView::Array(
                annotation_bodies(
                    views(state.annotations@),
                    state.annotations@.len() as int,
                    if current_only {
                        Some(state.current_file)
                    } else {
                        None
                    },
                ),
            ),
        ),
    )
}

// ---------------------------------------------------------------------------
// Hunks and their tags
// ---------------------------------------------------------------------------
/// What an answer says of a hunk in a list.
pub open spec fn hunk_entry(file: FileDiff, file_index: usize, hunk: usize) -> JsonView {
    JsonView::Object(
        Map::empty().insert("file"@, JsonView::Text(file.filename@)).insert(
            "file_index"@,
            JsonView::Unsigned(file_index as u64),
        ).insert("hunk_index"@, JsonView::Unsigned(hunk as u64)).insert(
            "line_range"@,
            range_or_null(hunk_line_range(file, hunk as int)),
        ),
    )
}

/// The first `n` hunks of a file.
pub open spec fn hunk_entries(file: FileDiff, file_index: usize, n: int) -> Seq<JsonView>
    decreases n,
{
    if n <= 0 {
        seq![]
    } else {
        hunk_entries(file, file_index, n - 1).push(hunk_entry(file, file_index, (n - 1) as usize))
    }
}

/// The hunks of the first `n` files; only those of one file, where one is given.
pub open spec fn hunk_list(files: Seq<FileDiff>, n: int, only: Option<usize>) -> Seq<JsonView>
    decreases n,
{
    if n <= 0 {
        seq![]
    } else if only is None || only->0 == n - 1 {
        hunk_list(files, n - 1, only) + hunk_entries(
            files[n - 1],
            (n - 1) as usize,
            files[n - 1].hunks@.len() as int,
        )
    } else {
        hunk_list(files, n - 1, only)
    }
}

fn push_hunk_entries(items: &mut Vec<Json>, files: &Vec<FileDiff>, file_index: usize)
    requires
        files_wf(files@),
        file_index < files@.len(),
    ensures
        views(final(items)@) == views(old(items)@) + hunk_entries(
            files@[file_index as int],
            file_index,
            files@[file_index as int].hunks@.len() as int,
        ),
{
    let file = &files[file_index];
    let ghost begun = views(items@);
    let mut h: usize = 0;
    assert(begun == begun + hunk_entries(*file, file_index, 0));
    while h < file.hunks.len()
        invariant
            files_wf(files@),
            file_index < files@.len(),
            *file == files@[file_index as int],
            h <= file.hunks@.len(),
            views(items@) == begun + hunk_entries(*file, file_index, h as int),
        decreases file.hunks@.len() - h,
    {
        let ghost before = views(items@);
        let entry = Fields::new().with("file", json_string(file.filename.as_str())).with(
            "file_index",
            json_number(file_index),
        ).with("hunk_index", json_number(h)).with(
            "line_range",
            optional_range(compute_hunk_line_range(files, file_index, h)),
        ).done();
        items.push(entry);
        assert(views(items@) == before.push(hunk_entry(*file, file_index, h)));
        h += 1;
    }
}

fn hunks_json(files: &Vec<FileDiff>, only: Option<usize>) -> (r: Json)
    requires
        files_wf(files@),
    ensures
        r@ == JsonView::Array(hunk_list(files@, files@.len() as int, only)),
{
    let mut items: Vec<Json> = Vec::new();
    let mut f: usize = 0;
    assert(views(items@) == Seq::<JsonView>::empty());
    while f < files.len()
        invariant
            files_wf(files@),
            f <= files@.len(),
            views(items@) == hunk_list(files@, f as int, only),
        decreases files@.len() - f,
    {
        let wanted = match only {
            Some(o) => o == f,
            None => true,
        };
        if wanted {
            push_hunk_entries(&mut items, files, f);
        }
        f += 1;
    }
    json_array(items)
}

/// What an answer says of the tags of a hunk in a list.
pub open spec fn tags_entry(t: HunkTagsView) -> JsonView {
    JsonView::Object(
        Map::empty().insert("file"@, JsonView::Text(t.filename)).insert(
            "file_index"@,
            JsonView::Unsigned(t.file_index as u64),
        ).insert("hunk_index"@, JsonView::Unsigned(t.hunk_index as u64)).insert(
            "tags"@,
            texts_view(t.tags),
        ),
    )
}

/// What an answer says of the first `n` hunks with tags; only of those of one file, where
/// one is given.
pub open spec fn tags_entries(list: Seq<HunkTagsView>, n: int, only: Option<usize>) -> Seq<JsonView>
    decreases n,
{
    if n <= 0 {
        seq![]
    } else if only is None || list[n - 1].file_index == only->0 {
        tags_entries(list, n - 1, only).push(tags_entry(list[n - 1]))
    } else {
        tags_entries(list, n - 1, only)
    }
}

fn hunk_tags_json(list: &Vec<HunkTags>, only: Option<usize>) -> (r: Json)
    ensures
        r@ == JsonView::Array(tags_entries(views(list@), list@.len() as int, only)),
{
    let mut items: Vec<Json> = Vec::new();
    let mut i: usize = 0;
    assert(views(items@) == Seq::<JsonView>::empty());
    while i < list.len()
        invariant
            i <= list@.len(),
            views(items@) == tags_entries(views(list@), i as int, only),
        decreases list@.len() - i,
    {
        let ghost before = views(items@);
        let t = &list[i];
        let wanted = match only {
            Some(f) => t.file_index == f,
            None => true,
        };
        if wanted {
            items.push(
                Fields::new().with("file", json_string(t.filename.as_str())).with(
                    "file_index",
                    json_number(t.file_index),
                ).with("hunk_index", json_number(t.hunk_index)).with(
                    "tags",
                    json_strings(&t.tags),
                ).done(),
            );
            assert(views(items@) == before.push(tags_entry(t@)));
        }
        i += 1;
    }
    json_array(items)
}

/// The tags of a hunk, none where there are none.
pub open spec fn tags_or_none(tags: Option<HunkTags>) -> Seq<Seq<char>> {
    match tags {
        Some(t) => strs(t.tags@),
        None => seq![],
    }
}

/// The answer about the tags of a hunk.
pub open spec fn tags_answer(
    state: AppState,
    scope: Option<ScopeView>,
    file: usize,
    hunk: usize,
    missing: Seq<char>,
) -> ResponseView {
    match context_in(state, file, hunk) {
        Some(context) => success(
            Map::empty().insert("scope"@, scope_body(scope, state)).insert(
                "file"@,
                JsonView::Text(state.file_diffs@[file as int].filename@),
            ).insert("file_index"@, JsonView::Unsigned(file as u64)).insert(
                "hunk_index"@,
                JsonView::Unsigned(hunk as u64),
            ).insert("line_range"@, range_view(display_range(context))).insert(
                "tags"@,
                texts_view(tags_or_none(state.tags_of(file, hunk))),
            ),
        ),
        None => refusal(404, missing),
    }
}

fn tags_response(
    state: &AppState,
    scope: Option<&DiffScope>,
    file: usize,
    hunk: usize,
    missing: &str,
) -> (r: ApiResponse)
    requires
        files_wf(state.file_diffs@),
    ensures
        r@ == tags_answer(*state, scope_view(scope), file, hunk, missing@),
{
    match build_hunk_context(&state.file_diffs, file, hunk) {
        Some(context) => {
            let none: Vec<String> = Vec::new();
            assert(strs(none@) == Seq::<Seq<char>>::empty());
            let tags = match state.get_hunk_tags(file, hunk) {
                Some(t) => json_strings(&t.tags),
                None => json_strings(&none),
            };
            success_response(
                Fields::new().with("scope", scope_json(scope, state)).with(
                    "file",
                    json_string(state.file_diffs[file].filename.as_str()),
                ).with("file_index", json_number(file)).with("hunk_index", json_number(hunk)).with(
                    "line_range",
                    json_range(display_range_of(&context)),
                ).with("tags", tags),
            )
        },
        None => error_response(404, missing),
    }
}

// ---------------------------------------------------------------------------
// Commands that only ask
// ---------------------------------------------------------------------------
/// Whether a command only asks, and changes nothing.
pub open spec fn only_asks(command: CommandView) -> bool {
    match command {
        CommandView::CreateAnnotation(_, _) => false,
        CommandView::UpdateAnnotation(_, _) => false,
        CommandView::DeleteAnnotation(_) => false,
        CommandView::TagsSet(_, _) => false,
        _ => true,
    }
}

/// The file that a list is restricted to.
pub open spec fn restriction(state: AppState, current_only: bool) -> Option<usize> {
    if current_only {
        Some(state.current_file)
    } else {
        None
    }
}

/// The answer to a command that only asks.
pub open spec fn query_answer(
    command: CommandView,
    state: AppState,
    scope: Option<ScopeView>,
    cwd: Option<Seq<char>>,
) -> ResponseView {
    match command {
        CommandView::Status => ResponseView {
            status: 200,
            body: status_body(state, scope, cwd),
        },
        CommandView::CurrentHunk => current_hunk_answer(state, scope),
        CommandView::CurrentFile => current_file_answer(state, scope),
        CommandView::FullContext => full_context_answer(state, scope, cwd),
        CommandView::Annotations(current_only) => annotations_answer(state, scope, current_only),
        CommandView::TagsList => success(
            Map::empty().insert("tags"@, texts_view(strs(state.tag_inventory@))),
        ),
        CommandView::TagsCurrent => match state.focused_hunk {
            Some(hunk) => tags_answer(
                state,
                scope,
                state.current_file,
                hunk,
                "focused hunk not found"@,
            ),
            None => refusal(404, "no focused hunk"@),
        },
        CommandView::Hunks(current_only) => success(
            Map::empty().insert("scope"@, scope_body(scope, state)).insert(
                "hunks"@,
                JsonView::Array(
                    hunk_list(
                        state.file_diffs@,
                        state.file_diffs@.len() as int,
                        restriction(state, current_only),
                    ),
                ),
            ),
        ),
        CommandView::Hunk(file, hunk) => hunk_answer(state, scope, file, hunk, "hunk not found"@),
        CommandView::HunkTags(current_only) => success(
            Map::empty().insert("scope"@, scope_body(scope, state)).insert(
                "hunks"@,
                JsonView::Array(
                    tags_entries(
                        views(state.hunk_tags@),
                        state.hunk_tags@.len() as int,
                        restriction(state, current_only),
                    ),
                ),
            ),
        ),
        _ => refusal(404, "not found"@),
    }
}

/// The answer to a command that only asks.
pub fn answer_query(
    command: &ApiCommand,
    state: &AppState,
    scope: Option<&DiffScope>,
    cwd: &Option<String>,
) -> (r: ApiResponse)
    requires
        files_wf(state.file_diffs@),
    ensures
        r@ == query_answer(command@, *state, scope_view(scope), opt_str(*cwd)),
{
    match command {
        ApiCommand::Status => ApiResponse { status: 200, body: status_json(state, scope, cwd) },
        ApiCommand::CurrentHunk => match state.focused_hunk {
            Some(hunk) => hunk_response(
                state,
                scope,
                state.current_file,
                hunk,
                "focused hunk not found",
            ),
            None => error_response(404, "no focused hunk"),
        },
        ApiCommand::CurrentFile => current_file_response(state, scope),
        ApiCommand::FullContext => full_context_response(state, scope, cwd),
        ApiCommand::Annotations { current_only } => {
            let only = if *current_only {
                Some(state.current_file)
            } else {
                None
            };
            success_response(
                Fields::new().with("scope", scope_json(scope, state)).with(
                    "annotations",
                    annotations_json(&state.annotations, only),
                ),
            )
        },
        ApiCommand::TagsList => success_response(
            Fields::new().with("tags", json_strings(&state.tag_inventory)),
        ),
        ApiCommand::TagsCurrent => match state.focused_hunk {
            Some(hunk) => tags_response(
                state,
                scope,
                state.current_file,
                hunk,
                "focused hunk not found",
            ),
            None => error_response(404, "no focused hunk"),
        },
        ApiCommand::Hunks { current_only } => {
            let only = if *current_only {
                Some(state.current_file)
            } else {
                None
            };
            success_response(
                Fields::new().with("scope", scope_json(scope, state)).with(
                    "hunks",
                    hunks_json(&state.file_diffs, only),
                ),
            )
        },
        ApiCommand::Hunk { file_index, hunk_index } => hunk_response(
            state,
            scope,
            *file_index,
            *hunk_index,
            "hunk not found",
        ),
        ApiCommand::HunkTags { current_only } => {
            let only = if *current_only {
                Some(state.current_file)
            } else {
                None
            };
            success_response(
                Fields::new().with("scope", scope_json(scope, state)).with(
                    "hunks",
                    hunk_tags_json(&state.hunk_tags, only),
                ),
            )
        },
        _ => error_response(404, "not found"),
    }
}

// ---------------------------------------------------------------------------
// Commands that change something
// ---------------------------------------------------------------------------
/// What has to be stored after a command.
#[derive(Debug)]
pub enum Persist {
    Nothing,
    Upsert(HunkAnnotation),
    Remove(HunkAnnotation),
    SetTags { file_index: usize, hunk_index: usize, tags: Vec<String> },
}

/// The hunk that a command is about: the one that it names, or the focused one.
pub open spec fn subject(state: AppState, target: Target) -> Option<(usize, usize)> {
    match target {
        Some(pair) => Some(pair),
        None => match state.focused_hunk {
            Some(hunk) => Some((state.current_file, hunk)),
            None => None,
        },
    }
}

fn find_subject(state: &AppState, target: Target) -> (r: Option<(usize, usize)>)
    ensures
        r == subject(*state, target),
{
    match target {
        Some(pair) => Some(pair),
        None => match state.focused_hunk {
            Some(hunk) => Some((state.current_file, hunk)),
            None => None,
        },
    }
}

/// The message that the hunk of a command is missing.
pub open spec fn missing_message(target: Target) -> Seq<char> {
    if target is Some {
        "hunk not found"@
    } else {
        "focused hunk not found"@
    }
}

fn missing_text(target: Target) -> (r: &'static str)
    ensures
        r@ == missing_message(target),
{
    if target.is_some() {
        "hunk not found"
    } else {
        "focused hunk not found"
    }
}

/// The state with only the annotations changed.
pub open spec fn only_annotations_changed(before: AppState, after: AppState) -> bool {
    after == AppState { annotations: after.annotations, ..before }
}

/// The answer to a command that changed an annotation.
pub open spec fn annotation_answer(
    state: AppState,
    scope: Option<ScopeView>,
    a: AnnotationView,
) -> ResponseView {
    success(
        Map::empty().insert("scope"@, scope_body(scope, state)).insert(
            "annotation"@,
            annotation_body(a),
        ),
    )
}

fn annotation_response(state: &AppState, scope: Option<&DiffScope>, a: &HunkAnnotation) -> (r:
    ApiResponse)
    ensures
        r@ == annotation_answer(*state, scope_view(scope), a@),
{
    success_response(
        Fields::new().with("scope", scope_json(scope, state)).with(
            "annotation",
            annotation_json(a),
        ),
    )
}

/// What an annotation is to be stored by: by nothing where there is no scope.
pub open spec fn stores(persist: Persist, expected: Persist, scope: Option<ScopeView>) -> bool {
    if scope is Some {
        persist == expected
    } else {
        persist == Persist::Nothing
    }
}

/// The line range of a new annotation on a hunk, or the answer where there can be none.
pub open spec fn creation(
    state: AppState,
    content: Seq<char>,
    target: Target,
) -> Result<(usize, usize, (usize, usize)), ResponseView> {
    if trimmed(content).len() == 0 {
        Err(refusal(400, "content cannot be empty"@))
    } else {
        match subject(state, target) {
            None => Err(refusal(404, "no focused hunk"@)),
            Some((file, hunk)) => if file < state.file_diffs@.len() {
                match hunk_line_range(state.file_diffs@[file as int], hunk as int) {
                    Some(range) => Ok((file, hunk, range)),
                    None => Err(refusal(404, missing_message(target))),
                }
            } else {
                Err(refusal(404, missing_message(target)))
            },
        }
    }
}

/// A new annotation was put on a hunk, or was refused.
pub open spec fn annotation_created(
    before: AppState,
    after: AppState,
    r: (ApiResponse, Persist),
    scope: Option<ScopeView>,
    content: String,
    target: Target,
    id: String,
    now: TimePoint,
) -> bool {
    &&& only_annotations_changed(before, after)
    &&& match creation(before, content@, target) {
        Err(refused) => {
            &&& r.0@ == refused
            &&& r.1 == Persist::Nothing
            &&& after == before
        },
        Ok((file, hunk, range)) => {
            let a = HunkAnnotation {
                id,
                file_index: file,
                hunk_index: hunk,
                content,
                line_range: range,
                filename: before.file_diffs@[file as int].filename,
                created_at: now,
            };
            &&& after.annotations@ == kept(
                before.annotations@,
                annotation_elsewhere(file, hunk),
            ).push(a)
            &&& r.0@ == annotation_answer(before, scope, a@)
            &&& stores(r.1, Persist::Upsert(a), scope)
        },
    }
}

/// Puts a new annotation on a hunk, with the id and the time that are given.
pub fn create_annotation(
    state: &mut AppState,
    scope: Option<&DiffScope>,
    content: String,
    target: Target,
    id: String,
    now: TimePoint,
) -> (r: (ApiResponse, Persist))
    requires
        files_wf(old(state).file_diffs@),
    ensures
        annotation_created(*old(state), *final(state), r, scope_view(scope), content, target, id, now),
{
    if content.as_str().trim().is_empty() {
        return (error_response(400, "content cannot be empty"), Persist::Nothing);
    }
    let (file, hunk) = match find_subject(state, target) {
        Some(pair) => pair,
        None => {
            return (error_response(404, "no focused hunk"), Persist::Nothing);
        },
    };
    let line_range = match compute_hunk_line_range(&state.file_diffs, file, hunk) {
        Some(range) => range,
        None => {
            return (error_response(404, missing_text(target)), Persist::Nothing);
        },
    };
    let a = HunkAnnotation {
        id,
        file_index: file,
        hunk_index: hunk,
        content,
        line_range,
        filename: state.file_diffs[file].filename.clone(),
        created_at: now,
    };
    let response = annotation_response(state, scope, &a);
    let persist = if scope.is_some() {
        Persist::Upsert(a.clone())
    } else {
        Persist::Nothing
    };
    state.set_annotation(a);
    (response, persist)
}

/// An annotation with the given id.
pub open spec fn annotation_has_id(id: Seq<char>) -> spec_fn(HunkAnnotation) -> bool {
    |a: HunkAnnotation| a.id@ == id
}

fn find_annotation(state: &AppState, id: &String) -> (r: Option<usize>)
    ensures
        match r {
            Some(i) => first_where(state.annotations@, 0, annotation_has_id(id@)) == Some(i as int)
                && i < state.annotations@.len(),
            None => first_where(state.annotations@, 0, annotation_has_id(id@)) is None,
        },
{
    let test = |a: &HunkAnnotation| -> (b: bool)
        ensures
            b == annotation_has_id(id@)(*a),
    {
        a.id == *id
    };
    find_first(&state.annotations, test, Ghost(annotation_has_id(id@)))
}

/// Gives an annotation a new text, and returns it; nothing where no annotation has the id.
pub fn update_annotation_content(state: &mut AppState, id: &String, content: String) -> (r: Option<
    HunkAnnotation,
>)
    ensures
        only_annotations_changed(*old(state), *final(state)),
        match first_where(old(state).annotations@, 0, annotation_has_id(id@)) {
            Some(i) => {
                let a = HunkAnnotation { content, ..old(state).annotations@[i] };
                r == Some(a) && final(state).annotations@ == old(state).annotations@.update(i, a)
            },
            None => r is None && *final(state) == *old(state),
        },
{
    match find_annotation(state, id) {
        Some(i) => {
            let mut a = state.annotations[i].clone();
            a.content = content;
            let changed = a.clone();
            state.annotations.set(i, a);
            Some(changed)
        },
        None => None,
    }
}

/// Takes an annotation away, and returns it; nothing where no annotation has the id.
pub fn remove_annotation_by_id(state: &mut AppState, id: &String) -> (r: Option<HunkAnnotation>)
    ensures
        only_annotations_changed(*old(state), *final(state)),
        match first_where(old(state).annotations@, 0, annotation_has_id(id@)) {
            Some(i) => {
                &&& r == Some(old(state).annotations@[i])
                &&& final(state).annotations@ == old(state).annotations@.remove(i)
            },
            None => r is None && *final(state) == *old(state),
        },
{
    match find_annotation(state, id) {
        Some(i) => Some(state.annotations.remove(i)),
        None => None,
    }
}

/// An annotation was given a new text, or that was refused.
pub open spec fn annotation_updated(
    before: AppState,
    after: AppState,
    r: (ApiResponse, Persist),
    scope: Option<ScopeView>,
    id: Seq<char>,
    content: String,
) -> bool {
    &&& only_annotations_changed(before, after)
    &&& if trimmed(content@).len() == 0 {
        &&& r.0@ == refusal(400, "content cannot be empty"@)
        &&& r.1 == Persist::Nothing
        &&& after == before
    } else {
        match first_where(before.annotations@, 0, annotation_has_id(id)) {
            Some(i) => {
                let a = HunkAnnotation { content, ..before.annotations@[i] };
                &&& after.annotations@ == before.annotations@.update(i, a)
                &&& r.0@ == annotation_answer(before, scope, a@)
                &&& stores(r.1, Persist::Upsert(a), scope)
            },
            None => {
                &&& r.0@ == refusal(404, "annotation not found"@)
                &&& r.1 == Persist::Nothing
                &&& after == before
            },
        }
    }
}

/// Gives an annotation a new text.
pub fn update_annotation(
    state: &mut AppState,
    scope: Option<&DiffScope>,
    id: String,
    content: String,
) -> (r: (ApiResponse, Persist))
    ensures
        annotation_updated(*old(state), *final(state), r, scope_view(scope), id@, content),
{
    if content.as_str().trim().is_empty() {
        return (error_response(400, "content cannot be empty"), Persist::Nothing);
    }
    match update_annotation_content(state, &id, content) {
        Some(a) => {
            let response = annotation_response(state, scope, &a);
            if scope.is_some() {
                (response, Persist::Upsert(a))
            } else {
                (response, Persist::Nothing)
            }
        },
        None => (error_response(404, "annotation not found"), Persist::Nothing),
    }
}

/// The answer to a command that removed an annotation.
pub open spec fn deletion_answer(
    state: AppState,
    scope: Option<ScopeView>,
    a: AnnotationView,
) -> ResponseView {
    success(
        Map::empty().insert("scope"@, scope_body(scope, state)).insert(
            "deleted"@,
            JsonView::Bool(true),
        ).insert("annotation"@, annotation_body(a)),
    )
}

/// An annotation was taken away, or that was refused.
pub open spec fn annotation_deleted(
    before: AppState,
    after: AppState,
    r: (ApiResponse, Persist),
    scope: Option<ScopeView>,
    id: Seq<char>,
) -> bool {
    &&& only_annotations_changed(before, after)
    &&& match first_where(before.annotations@, 0, annotation_has_id(id)) {
        Some(i) => {
            let a = before.annotations@[i];
            &&& after.annotations@ == before.annotations@.remove(i)
            &&& r.0@ == deletion_answer(before, scope, a@)
            &&& stores(r.1, Persist::Remove(a), scope)
        },
        None => {
            &&& r.0@ == refusal(404, "annotation not found"@)
            &&& r.1 == Persist::Nothing
            &&& after == before
        },
    }
}

/// Takes an annotation away.
pub fn delete_annotation(state: &mut AppState, scope: Option<&DiffScope>, id: String) -> (r: (
    ApiResponse,
    Persist,
))
    ensures
        annotation_deleted(*old(state), *final(state), r, scope_view(scope), id@),
{
    match remove_annotation_by_id(state, &id) {
        Some(a) => {
            let response = success_response(
                Fields::new().with("scope", scope_json(scope, state)).with(
                    "deleted",
                    Json::Bool(true),
                ).with("annotation", annotation_json(&a)),
            );
            if scope.is_some() {
                (response, Persist::Remove(a))
            } else {
                (response, Persist::Nothing)
            }
        },
        None => (error_response(404, "annotation not found"), Persist::Nothing),
    }
}

/// The tags of the hunks after those of one were set: without an entry for it where there
/// are none, and otherwise with one at the end.
pub open spec fn tags_put(
    before: Seq<HunkTags>,
    after: Seq<HunkTags>,
    entry: HunkTagsView,
) -> bool {
    let others = kept(before, tags_elsewhere(entry.file_index, entry.hunk_index));
    if entry.tags.len() == 0 {
        after == others
    } else {
        &&& after.len() == others.len() + 1
        &&& after.drop_last() == others
        &&& after.last()@ == entry
    }
}

/// Sets the tags of a hunk in the viewer.
pub fn put_tags(state: &mut AppState, file_index: usize, hunk_index: usize, tags: &Vec<String>)
    requires
        file_index < old(state).file_diffs@.len(),
    ensures
        tags_put(
            old(state).hunk_tags@,
            final(state).hunk_tags@,
            HunkTagsView {
                file_index,
                hunk_index,
                filename: old(state).file_diffs@[file_index as int].filename@,
                tags: strs(tags@),
            },
        ),
        *final(state) == (AppState { hunk_tags: final(state).hunk_tags, ..*old(state) }),
{
    assert(strs(tags@).len() == tags@.len());
    if tags.len() == 0 {
        state.remove_hunk_tags(file_index, hunk_index);
    } else {
        let copied = tags.clone();
        assert(strs(copied@) == strs(tags@));
        let entry = HunkTags {
            file_index,
            hunk_index,
            filename: state.file_diffs[file_index].filename.clone(),
            tags: copied,
        };
        let ghost others = kept(state.hunk_tags@, tags_elsewhere(file_index, hunk_index));
        state.set_hunk_tags(entry);
        assert(state.hunk_tags@.drop_last() == others);
    }
}

/// What is to be stored of tags: nothing where there is no scope.
pub open spec fn stores_tags(
    persist: Persist,
    file: usize,
    hunk: usize,
    tags: Seq<Seq<char>>,
    scope: Option<ScopeView>,
) -> bool {
    if scope is Some {
        persist matches Persist::SetTags { file_index, hunk_index, tags: set } && file_index == file
            && hunk_index == hunk && strs(set@) == tags
    } else {
        persist == Persist::Nothing
    }
}

/// The tags of a hunk were set, or that was refused.
pub open spec fn hunk_tagged(
    before: AppState,
    after: AppState,
    r: (ApiResponse, Persist),
    scope: Option<ScopeView>,
    tags: Seq<Seq<char>>,
    target: Target,
) -> bool {
    &&& after == (AppState { hunk_tags: after.hunk_tags, ..before })
    &&& match subject(before, target) {
        None => {
            &&& r.0@ == refusal(404, "no focused hunk"@)
            &&& r.1 == Persist::Nothing
            &&& after == before
        },
        Some((file, hunk)) => if context_in(before, file, hunk) is None {
            &&& r.0@ == refusal(404, missing_message(target))
            &&& r.1 == Persist::Nothing
            &&& after == before
        } else {
            let set = normalized(tags);
            &&& tags_put(
                before.hunk_tags@,
                after.hunk_tags@,
                HunkTagsView {
                    file_index: file,
                    hunk_index: hunk,
                    filename: before.file_diffs@[file as int].filename@,
                    tags: set,
                },
            )
            &&& r.0@ == tags_answer(
                after,
                scope,
                file,
                hunk,
                missing_message(target),
            )
            &&& stores_tags(r.1, file, hunk, set, scope)
        },
    }
}

/// Sets the tags of a hunk.
pub fn set_tags(
    state: &mut AppState,
    scope: Option<&DiffScope>,
    tags: Vec<String>,
    target: Target,
) -> (r: (ApiResponse, Persist))
    requires
        files_wf(old(state).file_diffs@),
    ensures
        hunk_tagged(*old(state), *final(state), r, scope_view(scope), strs(tags@), target),
{
    let (file, hunk) = match find_subject(state, target) {
        Some(pair) => pair,
        None => {
            return (error_response(404, "no focused hunk"), Persist::Nothing);
        },
    };
    if build_hunk_context(&state.file_diffs, file, hunk).is_none() {
        return (error_response(404, missing_text(target)), Persist::Nothing);
    }
    let set = normalize_tags(tags);
    put_tags(state, file, hunk, &set);
    let response = tags_response(state, scope, file, hunk, missing_text(target));
    if scope.is_some() {
        (response, Persist::SetTags { file_index: file, hunk_index: hunk, tags: set })
    } else {
        (response, Persist::Nothing)
    }
}

/// A command was carried out or refused. A command that only asks changes nothing.
pub open spec fn command_handled(
    before: AppState,
    after: AppState,
    r: (ApiResponse, Persist),
    command: ApiCommand,
    scope: Option<ScopeView>,
    cwd: Option<Seq<char>>,
    id: String,
    now: TimePoint,
) -> bool {
    match command {
        ApiCommand::CreateAnnotation { content, target } => annotation_created(
            before,
            after,
            r,
            scope,
            content,
            target,
            id,
            now,
        ),
        ApiCommand::UpdateAnnotation { id: given, content } => annotation_updated(
            before,
            after,
            r,
            scope,
            given@,
            content,
        ),
        ApiCommand::DeleteAnnotation { id: given } => annotation_deleted(
            before,
            after,
            r,
            scope,
            given@,
        ),
        ApiCommand::TagsSet { tags, target } => hunk_tagged(
            before,
            after,
            r,
            scope,
            strs(tags@),
            target,
        ),
        _ => {
            &&& r.0@ == query_answer(command@, before, scope, cwd)
            &&& r.1 == Persist::Nothing
            &&& after == before
        },
    }
}

/// Carries a command out; a new annotation gets the id and the time that are given.
pub fn handle_command_with(
    command: ApiCommand,
    state: &mut AppState,
    scope: Option<&DiffScope>,
    cwd: &Option<String>,
    id: String,
    now: TimePoint,
) -> (r: (ApiResponse, Persist))
    requires
        files_wf(old(state).file_diffs@),
    ensures
        command_handled(
            *old(state),
            *final(state),
            r,
            command,
            scope_view(scope),
            opt_str(*cwd),
            id,
            now,
        ),
        writable(r.0@.body),
{
    let ghost (given, before) = (command, *state);
    let r = match command {
        ApiCommand::CreateAnnotation { content, target } => create_annotation(
            state,
            scope,
            content,
            target,
            id,
            now,
        ),
        ApiCommand::UpdateAnnotation { id: given, content } => update_annotation(
            state,
            scope,
            given,
            content,
        ),
        ApiCommand::DeleteAnnotation { id: given } => delete_annotation(state, scope, given),
        ApiCommand::TagsSet { tags, target } => set_tags(state, scope, tags, target),
        _ => (answer_query(&command, state, scope, cwd), Persist::Nothing),
    };
    proof {
        answers_can_be_written_out(
            before,
            *state,
            r,
            given,
            scope_view(scope),
            opt_str(*cwd),
            id,
            now,
        );
    }
    r
}

/// Carries a command out; a new annotation gets a random id and the present time.
pub fn handle_api_command(
    command: ApiCommand,
    state: &mut AppState,
    scope: Option<&DiffScope>,
    cwd: &Option<String>,
) -> (r: (ApiResponse, Persist))
    requires
        files_wf(old(state).file_diffs@),
    ensures
        exists|id: String, now: TimePoint|
            is_random_id(id@) && #[trigger] command_handled(
                *old(state),
                *final(state),
                r,
                command,
                scope_view(scope),
                opt_str(*cwd),
                id,
                now,
            ),
        writable(r.0@.body),
{
    let id = new_id();
    let now = current_time();
    handle_command_with(command, state, scope, cwd, id, now)
}

// ---------------------------------------------------------------------------
// Laws
// ---------------------------------------------------------------------------
/// A command that is refused, that is answered with another status than 200, changes
/// nothing and has nothing stored.
pub proof fn refused_commands_change_nothing(
    before: AppState,
    after: AppState,
    r: (ApiResponse, Persist),
    command: ApiCommand,
    scope: Option<ScopeView>,
    cwd: Option<Seq<char>>,
    id: String,
    now: TimePoint,
)
    requires
        command_handled(before, after, r, command, scope, cwd, id, now),
        r.0@.status != 200,
    ensures
        after == before,
        r.1 == Persist::Nothing,
{
    match command {
        ApiCommand::TagsSet { tags, target } => {
            if let Some((file, hunk)) = subject(before, target) {
                if context_in(before, file, hunk) is Some {
                    assert(context_in(after, file, hunk) is Some);
                }
            }
        },
        _ => {},
    }
}

/// A command that only asks changes nothing and has nothing stored.
pub proof fn questions_change_nothing(
    before: AppState,
    after: AppState,
    r: (ApiResponse, Persist),
    command: ApiCommand,
    scope: Option<ScopeView>,
    cwd: Option<Seq<char>>,
    id: String,
    now: TimePoint,
)
    requires
        command_handled(before, after, r, command, scope, cwd, id, now),
        only_asks(command@),
    ensures
        after == before,
        r.1 == Persist::Nothing,
{
}

/// An annotation that was created is the annotation of its hunk.
pub proof fn created_annotation_is_found(
    before: AppState,
    after: AppState,
    r: (ApiResponse, Persist),
    scope: Option<ScopeView>,
    content: String,
    target: Target,
    id: String,
    now: TimePoint,
)
    requires
        annotation_created(before, after, r, scope, content, target, id, now),
        creation(before, content@, target) is Ok,
    ensures
        ({
            let (file, hunk, range) = creation(before, content@, target)->Ok_0;
            after.annotation_of(file, hunk) matches Some(a) && a.id == id && a.content == content
                && a.created_at == now && a.line_range == range
        }),
{
    let (file, hunk, range) = creation(before, content@, target)->Ok_0;
    let others = kept(before.annotations@, annotation_elsewhere(file, hunk));
    let all = after.annotations@;
    kept_elements(before.annotations@, annotation_elsewhere(file, hunk));
    assert forall|j: int| 0 <= j < others.len() implies !annotation_on(file, hunk)(
        #[trigger] all[j],
    ) by {
        assert(all[j] == others[j]);
        assert(others.contains(others[j]));
    }
    first_where_at(all, 0, annotation_on(file, hunk), others.len() as int);
}

/// An annotation that was deleted is not found under its id again, where no other has it.
pub proof fn deleted_annotation_is_gone(
    before: AppState,
    after: AppState,
    r: (ApiResponse, Persist),
    scope: Option<ScopeView>,
    id: Seq<char>,
)
    requires
        annotation_deleted(before, after, r, scope, id),
        forall|i: int, j: int|
            0 <= i < j < before.annotations@.len() ==> (#[trigger] before.annotations@[i]).id@ != (
            #[trigger] before.annotations@[j]).id@,
    ensures
        first_where(after.annotations@, 0, annotation_has_id(id)) is None,
{
    let s = before.annotations@;
    let t = after.annotations@;
    first_where_is_first(s, 0, annotation_has_id(id));
    if let Some(i) = first_where(s, 0, annotation_has_id(id)) {
        assert forall|j: int| 0 <= j < t.len() implies !annotation_has_id(id)(#[trigger] t[j]) by {
            if j < i {
                assert(s[j].id@ != s[i].id@);
            } else {
                assert(t[j] == s[j + 1]);
                assert(s[i].id@ != s[j + 1].id@);
            }
        }
        first_where_none(t, 0, annotation_has_id(id));
    }
}

/// Tags that were set are the tags of the hunk, in normal form.
pub proof fn set_tags_are_found(
    before: AppState,
    after: AppState,
    r: (ApiResponse, Persist),
    scope: Option<ScopeView>,
    tags: Seq<Seq<char>>,
    target: Target,
)
    requires
        hunk_tagged(before, after, r, scope, tags, target),
        subject(before, target) matches Some((file, hunk)) && context_in(
            before,
            file,
            hunk,
        ) is Some,
    ensures
        ({
            let (file, hunk) = subject(before, target)->0;
            tags_or_none(after.tags_of(file, hunk)) == normalized(tags)
        }),
{
    let (file, hunk) = subject(before, target)->0;
    let others = kept(before.hunk_tags@, tags_elsewhere(file, hunk));
    let all = after.hunk_tags@;
    kept_elements(before.hunk_tags@, tags_elsewhere(file, hunk));
    assert forall|j: int| 0 <= j < others.len() implies !tags_on(file, hunk)(#[trigger] all[j]) by {
        if normalized(tags).len() > 0 {
            assert(all.drop_last()[j] == all[j]);
        }
        assert(all[j] == others[j]);
        assert(others.contains(others[j]));
    }
    if normalized(tags).len() > 0 {
        let last = all.len() - 1;
        assert(all[last]@.file_index == file);
        first_where_at(all, 0, tags_on(file, hunk), last);
    } else {
        first_where_none(all, 0, tags_on(file, hunk));
        assert(normalized(tags) =~= seq![]);
    }
}

// ---------------------------------------------------------------------------
// Answers can be written out
// ---------------------------------------------------------------------------
proof fn lemma_scope_is_plain(scope: Option<ScopeView>, state: AppState, levels: nat)
    requires
        levels > 0,
    ensures
        plain(scope_body(scope, state), levels),
{
    broadcast use group_plain_fields;

}

proof fn lemma_status_is_plain(
    state: AppState,
    scope: Option<ScopeView>,
    cwd: Option<Seq<char>>,
    levels: nat,
)
    requires
        levels > 1,
    ensures
        plain(status_body(state, scope, cwd), levels),
{
    broadcast use group_plain_fields;

    lemma_scope_is_plain(scope, state, (levels - 1) as nat);
}

proof fn lemma_annotation_is_plain(a: AnnotationView, levels: nat)
    requires
        levels > 1,
    ensures
        plain(annotation_body(a), levels),
{
    broadcast use group_plain_fields;

    ranges_and_texts_are_plain(None, a.line_range, seq![], (levels - 1) as nat);
}

proof fn lemma_array_push_is_plain(items: Seq<JsonView>, item: JsonView, levels: nat)
    requires
        plain(JsonView::Array(items), levels),
        plain(item, (levels - 1) as nat),
    ensures
        plain(JsonView::Array(items.push(item)), levels),
{
    plain_array_has_plain_items(items, levels);
    let more = items.push(item);
    assert forall|i: int| 0 <= i < more.len() implies plain(
        #[trigger] more[i],
        (levels - 1) as nat,
    ) by {
        if i < items.len() {
            assert(more[i] == items[i]);
        }
    }
}

proof fn lemma_array_add_is_plain(a: Seq<JsonView>, b: Seq<JsonView>, levels: nat)
    requires
        plain(JsonView::Array(a), levels),
        plain(JsonView::Array(b), levels),
    ensures
        plain(JsonView::Array(a + b), levels),
{
    plain_array_has_plain_items(a, levels);
    plain_array_has_plain_items(b, levels);
    let more = a + b;
    assert forall|i: int| 0 <= i < more.len() implies plain(
        #[trigger] more[i],
        (levels - 1) as nat,
    ) by {
        if i < a.len() {
            assert(more[i] == a[i]);
        } else {
            assert(more[i] == b[i - a.len()]);
        }
    }
}

proof fn lemma_annotations_are_plain(
    list: Seq<AnnotationView>,
    n: int,
    file: Option<usize>,
    levels: nat,
)
    requires
        levels > 2,
    ensures
        plain(JsonView::Array(annotation_bodies(list, n, file)), levels),
    decreases n,
{
    if n > 0 {
        lemma_annotations_are_plain(list, n - 1, file, levels);
        lemma_annotation_is_plain(list[n - 1], (levels - 1) as nat);
        lemma_array_push_is_plain(
            annotation_bodies(list, n - 1, file),
            annotation_body(list[n - 1]),
            levels,
        );
    }
}

proof fn lemma_hunk_is_plain(
    before: Map<Seq<char>, JsonView>,
    filename: Seq<char>,
    file: usize,
    hunk: usize,
    context: HunkContextView,
    levels: nat,
)
    requires
        levels > 1,
        plain_fields(before, levels),
    ensures
        plain_fields(hunk_fields(before, filename, file, hunk, context), levels),
{
    broadcast use group_plain_fields;

    let ends = display_range(context);
    let inner = (levels - 1) as nat;
    ranges_and_texts_are_plain(context.old_line_range, ends, context.context_before, levels);
    ranges_and_texts_are_plain(context.new_line_range, ends, context.context_changed, levels);
    ranges_and_texts_are_plain(context.old_line_range, ends, context.context_before, inner);
    ranges_and_texts_are_plain(context.new_line_range, ends, context.context_changed, inner);
    ranges_and_texts_are_plain(None, ends, context.context_after, levels);
    ranges_and_texts_are_plain(None, ends, context.context_after, inner);
}

proof fn lemma_hunk_answer_is_plain(
    state: AppState,
    scope: Option<ScopeView>,
    file: usize,
    hunk: usize,
    missing: Seq<char>,
)
    ensures
        writable(hunk_answer(state, scope, file, hunk, missing).body),
{
    broadcast use group_plain_fields;

    lemma_scope_is_plain(scope, state, 126);
    refusals_can_be_written_out(404, missing);
    if let Some(context) = context_in(state, file, hunk) {
        lemma_hunk_is_plain(
            Map::empty().insert("scope"@, scope_body(scope, state)),
            state.file_diffs@[file as int].filename@,
            file,
            hunk,
            context,
            126,
        );
        if let Some(a) = state.annotation_of(file, hunk) {
            lemma_annotation_is_plain(a@, 126);
        }
    }
}

proof fn lemma_tags_answer_is_plain(
    state: AppState,
    scope: Option<ScopeView>,
    file: usize,
    hunk: usize,
    missing: Seq<char>,
)
    ensures
        writable(tags_answer(state, scope, file, hunk, missing).body),
{
    broadcast use group_plain_fields;

    lemma_scope_is_plain(scope, state, 126);
    refusals_can_be_written_out(404, missing);
    if let Some(context) = context_in(state, file, hunk) {
        ranges_and_texts_are_plain(
            None,
            display_range(context),
            tags_or_none(state.tags_of(file, hunk)),
            126,
        );
    }
}

proof fn lemma_hunk_entries_are_plain(file: FileDiff, file_index: usize, n: int, levels: nat)
    requires
        levels > 2,
    ensures
        plain(JsonView::Array(hunk_entries(file, file_index, n)), levels),
    decreases n,
{
    broadcast use group_plain_fields;

    if n > 0 {
        lemma_hunk_entries_are_plain(file, file_index, n - 1, levels);
        let hunk = (n - 1) as usize;
        ranges_and_texts_are_plain(
            hunk_line_range(file, hunk as int),
            (0, 0),
            seq![],
            (levels - 2) as nat,
        );
        lemma_array_push_is_plain(
            hunk_entries(file, file_index, n - 1),
            hunk_entry(file, file_index, hunk),
            levels,
        );
    }
}

proof fn lemma_hunk_list_is_plain(
    files: Seq<FileDiff>,
    n: int,
    only: Option<usize>,
    levels: nat,
)
    requires
        levels > 2,
    ensures
        plain(JsonView::Array(hunk_list(files, n, only)), levels),
    decreases n,
{
    if n > 0 {
        lemma_hunk_list_is_plain(files, n - 1, only, levels);
        let index = (n - 1) as usize;
        let hunks = files[n - 1].hunks@.len() as int;
        lemma_hunk_entries_are_plain(files[n - 1], index, hunks, levels);
        lemma_array_add_is_plain(
            hunk_list(files, n - 1, only),
            hunk_entries(files[n - 1], index, hunks),
            levels,
        );
    }
}

proof fn lemma_tags_entries_are_plain(
    list: Seq<HunkTagsView>,
    n: int,
    only: Option<usize>,
    levels: nat,
)
    requires
        levels > 2,
    ensures
        plain(JsonView::Array(tags_entries(list, n, only)), levels),
    decreases n,
{
    broadcast use group_plain_fields;

    if n > 0 {
        lemma_tags_entries_are_plain(list, n - 1, only, levels);
        let t = list[n - 1];
        ranges_and_texts_are_plain(None, (0, 0), t.tags, (levels - 2) as nat);
        lemma_array_push_is_plain(tags_entries(list, n - 1, only), tags_entry(t), levels);
    }
}

proof fn lemma_query_answer_is_plain(
    command: CommandView,
    state: AppState,
    scope: Option<ScopeView>,
    cwd: Option<Seq<char>>,
)
    ensures
        writable(query_answer(command, state, scope, cwd).body),
{
    broadcast use group_plain_fields;

    lemma_scope_is_plain(scope, state, 126);
    lemma_status_is_plain(state, scope, cwd, 127);
    lemma_status_is_plain(state, scope, cwd, 126);
    refusals_can_be_written_out(404, "no focused hunk"@);
    refusals_can_be_written_out(404, "file not found"@);
    refusals_can_be_written_out(404, "not found"@);
    let n = state.annotations@.len() as int;
    match command {
        CommandView::CurrentHunk => {
            if let Some(hunk) = state.focused_hunk {
                lemma_hunk_answer_is_plain(
                    state,
                    scope,
                    state.current_file,
                    hunk,
                    "focused hunk not found"@,
                );
            }
        },
        CommandView::FullContext => {
            lemma_annotations_are_plain(views(state.annotations@), n, None, 126);
            if let Some(hunk) = state.focused_hunk {
                if let Some(context) = context_in(state, state.current_file, hunk) {
                    lemma_hunk_is_plain(
                        Map::empty(),
                        state.file_diffs@[state.current_file as int].filename@,
                        state.current_file,
                        hunk,
                        context,
                        125,
                    );
                }
            }
        },
        CommandView::Annotations(current_only) => {
            lemma_annotations_are_plain(
                views(state.annotations@),
                n,
                restriction(state, current_only),
                126,
            );
        },
        CommandView::TagsList => {
            ranges_and_texts_are_plain(None, (0, 0), strs(state.tag_inventory@), 126);
        },
        CommandView::TagsCurrent => {
            if let Some(hunk) = state.focused_hunk {
                lemma_tags_answer_is_plain(
                    state,
                    scope,
                    state.current_file,
                    hunk,
                    "focused hunk not found"@,
                );
            }
        },
        CommandView::Hunks(current_only) => {
            lemma_hunk_list_is_plain(
                state.file_diffs@,
                state.file_diffs@.len() as int,
                restriction(state, current_only),
                126,
            );
        },
        CommandView::Hunk(file, hunk) => {
            lemma_hunk_answer_is_plain(state, scope, file, hunk, "hunk not found"@);
        },
        CommandView::HunkTags(current_only) => {
            lemma_tags_entries_are_plain(
                views(state.hunk_tags@),
                state.hunk_tags@.len() as int,
                restriction(state, current_only),
                126,
            );
        },
        _ => {},
    }
}

/// Every answer to a command can be written out.
pub proof fn answers_can_be_written_out(
    before: AppState,
    after: AppState,
    r: (ApiResponse, Persist),
    command: ApiCommand,
    scope: Option<ScopeView>,
    cwd: Option<Seq<char>>,
    id: String,
    now: TimePoint,
)
    requires
        command_handled(before, after, r, command, scope, cwd, id, now),
    ensures
        writable(r.0@.body),
{
    broadcast use group_plain_fields;

    lemma_scope_is_plain(scope, before, 126);
    refusals_can_be_written_out(400, "content cannot be empty"@);
    refusals_can_be_written_out(404, "no focused hunk"@);
    refusals_can_be_written_out(404, "annotation not found"@);
    refusals_can_be_written_out(404, "hunk not found"@);
    refusals_can_be_written_out(404, "focused hunk not found"@);
    match command {
        ApiCommand::CreateAnnotation { content, target } => {
            if let Ok((file, hunk, range)) = creation(before, content@, target) {
                let a = HunkAnnotation {
                    id,
                    file_index: file,
                    hunk_index: hunk,
                    content,
                    line_range: range,
                    filename: before.file_diffs@[file as int].filename,
                    created_at: now,
                };
                lemma_annotation_is_plain(a@, 126);
            }
        },
        ApiCommand::UpdateAnnotation { id: given, content } => {
            if let Some(i) = first_where(before.annotations@, 0, annotation_has_id(given@)) {
                let a = HunkAnnotation { content, ..before.annotations@[i] };
                lemma_annotation_is_plain(a@, 126);
            }
        },
        ApiCommand::DeleteAnnotation { id: given } => {
            if let Some(i) = first_where(before.annotations@, 0, annotation_has_id(given@)) {
                lemma_annotation_is_plain(before.annotations@[i]@, 126);
            }
        },
        ApiCommand::TagsSet { tags, target } => {
            if let Some((file, hunk)) = subject(before, target) {
                lemma_tags_answer_is_plain(after, scope, file, hunk, missing_message(target));
            }
        },
        _ => {
            lemma_query_answer_is_plain(command@, before, scope, cwd);
        },
    }
}

/// The text of an answer, from which the answer can be read again.
pub fn response_text(response: &ApiResponse) -> (r: String)
    requires
        writable(response@.body),
    ensures
        r@ == json_text(response@.body),
        parsed(r@) == Some(response@.body),
{
    print_json(&response.body)
}

} // verus!
