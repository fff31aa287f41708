//! What holds of the client: what each command asks for, and what is shown of each answer.

use vstd::prelude::*;

use crate::api::{command_of, command_with_payload, route_of, CommandView, ResponseView};
use crate::api_laws::lemma_texts_of;
use crate::cli::{
    annotation_line, annotation_lines, answer_tags, block_text, dashed_lines, endpoint_of,
    entry_lines, hunk_line, is_about, is_other_tag, kind_of, listed_tags, payload_of, range_text,
    requested_tags, requests_are_understood, scope_parts, scope_text, shown_text, tags_line,
    tags_with, text_lines, CliCommand, OutputKind,
};
use crate::json::{texts_of, JsonView};
use crate::marks_laws::keeping_is_filtering;
use crate::seqs::{first_where, first_where_is_first};
use crate::tag_names::normalized;
use crate::text::{decimal, joined, strs, trimmed};
use crate::text_laws::normal_tags_are_those_written;

verus! {

// ---------------------------------------------------------------------------
// Lines and fields
// ---------------------------------------------------------------------------
/// Lines, each ended by a line break.
pub open spec fn lines(list: Seq<Seq<char>>) -> Seq<char>
    decreases list.len(),
{
    if list.len() == 0 {
        seq![]
    } else {
        lines(list.drop_last()) + list.last().push('\n')
    }
}

proof fn lemma_lines_push(list: Seq<Seq<char>>, line: Seq<char>)
    ensures
        lines(list.push(line)) == lines(list) + line.push('\n'),
{
    assert(list.push(line).drop_last() =~= list);
}

/// What is shown of a field: its text, or a dash where it has none.
pub open spec fn shown_field(data: JsonView, name: Seq<char>) -> Seq<char> {
    match data.field(name) {
        Some(JsonView::Text(t)) => t,
        _ => "-"@,
    }
}

/// What is shown of a number: its digits, or a dash where the field is none.
pub open spec fn shown_number(data: JsonView, name: Seq<char>) -> Seq<char> {
    match data.field(name) {
        Some(JsonView::Unsigned(n)) => decimal(n as nat),
        _ => "-"@,
    }
}

/// What is shown of something that holds or not, or a dash where the field does not say.
pub open spec fn shown_flag(data: JsonView, name: Seq<char>) -> Seq<char> {
    if data.field(name) == Some(JsonView::Bool(true)) {
        "true"@
    } else if data.field(name) == Some(JsonView::Bool(false)) {
        "false"@
    } else {
        "-"@
    }
}

/// What is shown of a range of lines: both ends, or a dash where the field is no range.
pub open spec fn shown_range(data: JsonView, name: Seq<char>) -> Seq<char> {
    match range_text(data.field(name)) {
        Some(t) => t,
        None => "-"@,
    }
}

/// Ranges are shown by their first and their last line, and only arrays of two numbers are
/// ranges.
pub proof fn ranges_are_shown_by_both_ends(from: u64, to: u64, items: Seq<JsonView>)
    ensures
        range_text(
            Some(JsonView::Array(seq![JsonView::Unsigned(from), JsonView::Unsigned(to)])),
        ) == Some(decimal(from as nat) + "-"@ + decimal(to as nat)),
        range_text(None) is None,
        range_text(Some(JsonView::Null)) is None,
        items.len() != 2 ==> range_text(Some(JsonView::Array(items))) is None,
        items.len() == 2 && !(items[0] is Unsigned && items[1] is Unsigned) ==> range_text(
            Some(JsonView::Array(items)),
        ) is None,
{
}

/// A scope is shown by its kind and its version control, then by the base of a working tree or
/// by the commit, then by what the diff is of, as far as it says so.
pub proof fn scopes_are_shown_in_order(scope: JsonView)
    requires
        scope is Object,
    ensures
        ({
            let kind = match scope.field("type"@) {
                Some(JsonView::Text(t)) => t,
                _ => "unknown"@,
            };
            let vcs = match scope.field("vcs"@) {
                Some(JsonView::Text(t)) => t,
                _ => "unknown"@,
            };
            let base = if kind == "working_tree"@ {
                match scope.field("base_commit_id"@) {
                    Some(JsonView::Text(t)) => seq!["base_commit_id="@ + t],
                    _ => seq![],
                }
            } else {
                seq![]
            };
            let commit = if kind == "commit"@ {
                match scope.field("commit_id"@) {
                    Some(JsonView::Text(t)) => seq!["commit_id="@ + t],
                    _ => seq![],
                }
            } else {
                seq![]
            };
            let reference = match scope.field("diff_reference"@) {
                Some(JsonView::Text(t)) => seq!["diff_reference="@ + t],
                _ => seq![],
            };
            scope_text(Some(scope)) == joined(
                seq![kind, "vcs="@ + vcs] + base + commit + reference,
                " "@,
            )
        }),
        scope_text(None) == "unknown"@,
        scope_text(Some(JsonView::Null)) == "unknown"@,
{
    let kind = match scope.field("type"@) {
        Some(JsonView::Text(t)) => t,
        _ => "unknown"@,
    };
    let vcs = match scope.field("vcs"@) {
        Some(JsonView::Text(t)) => t,
        _ => "unknown"@,
    };
    let base = if kind == "working_tree"@ {
        match scope.field("base_commit_id"@) {
            Some(JsonView::Text(t)) => seq!["base_commit_id="@ + t],
            _ => seq![],
        }
    } else {
        seq![]
    };
    let commit = if kind == "commit"@ {
        match scope.field("commit_id"@) {
            Some(JsonView::Text(t)) => seq!["commit_id="@ + t],
            _ => seq![],
        }
    } else {
        seq![]
    };
    let reference = match scope.field("diff_reference"@) {
        Some(JsonView::Text(t)) => seq!["diff_reference="@ + t],
        _ => seq![],
    };
    assert(scope_parts(scope) =~= seq![kind, "vcs="@ + vcs] + base + commit + reference);
    assert(JsonView::Object(scope->Object_0) == scope);
}

// ---------------------------------------------------------------------------
// What is shown
// ---------------------------------------------------------------------------
/// The status is shown in six lines: the directory, the scope, the current file with its number,
/// the hunk in focus, and how many hunks and annotations there are.
pub proof fn the_status_is_shown_in_six_lines(data: JsonView)
    ensures
        shown_text(OutputKind::Status, data) == lines(
            seq![
                "cwd: "@ + shown_field(data, "cwd"@),
                "scope: "@ + scope_text(data.field("scope"@)),
                "current_file: "@ + (shown_field(data, "current_file"@) + " ("@ + shown_number(
                    data,
                    "current_file_index"@,
                ) + ")"@),
                "focused_hunk: "@ + shown_number(data, "focused_hunk"@),
                "hunk_count: "@ + shown_number(data, "hunk_count"@),
                "annotations_count: "@ + shown_number(data, "annotations_count"@),
            ],
        ),
{
    let a = "cwd: "@ + shown_field(data, "cwd"@);
    let b = "scope: "@ + scope_text(data.field("scope"@));
    let c = "current_file: "@ + (shown_field(data, "current_file"@) + " ("@ + shown_number(
        data,
        "current_file_index"@,
    ) + ")"@);
    let d = "focused_hunk: "@ + shown_number(data, "focused_hunk"@);
    let e = "hunk_count: "@ + shown_number(data, "hunk_count"@);
    let f = "annotations_count: "@ + shown_number(data, "annotations_count"@);
    lemma_one_line(a);
    assert(seq![a, b, c, d, e, f] =~= seq![a].push(b).push(c).push(d).push(e).push(f));
    lemma_lines_push(seq![a], b);
    lemma_lines_push(seq![a].push(b), c);
    lemma_lines_push(seq![a].push(b).push(c), d);
    lemma_lines_push(seq![a].push(b).push(c).push(d), e);
    lemma_lines_push(seq![a].push(b).push(c).push(d).push(e), f);
}

proof fn lemma_text_lines(items: Seq<JsonView>, n: int)
    requires
        0 <= n <= items.len(),
    ensures
        text_lines(items, n) == lines(texts_of(items, n)),
    decreases n,
{
    if n > 0 {
        lemma_text_lines(items, n - 1);
        if let JsonView::Text(t) = items[n - 1] {
            lemma_lines_push(texts_of(items, n - 1), t);
        }
    }
}

/// A block of lines under a label, with an empty line before it; nothing where there are none.
pub open spec fn block(label: Seq<char>, value: Option<JsonView>) -> Seq<char> {
    match value {
        Some(JsonView::Array(items)) => if items.len() > 0 {
            lines(seq![seq![], label]) + lines(
                items.filter(|j: JsonView| j is Text).map_values(|j: JsonView| j->Text_0),
            )
        } else {
            seq![]
        },
        _ => seq![],
    }
}

/// A text under a label, with an empty line before it; nothing where it is empty.
pub open spec fn text_block(label: Seq<char>, value: Option<JsonView>) -> Seq<char> {
    match value {
        Some(JsonView::Text(t)) => if t.len() > 0 {
            lines(seq![seq![], label, t])
        } else {
            seq![]
        },
        _ => seq![],
    }
}

/// One line, where there is a range to show in it.
pub open spec fn range_line(label: Seq<char>, value: Option<JsonView>) -> Seq<char> {
    match range_text(value) {
        Some(t) => lines(seq![label + t]),
        None => seq![],
    }
}

proof fn lemma_block(label: Seq<char>, name: Seq<char>, value: Option<JsonView>)
    requires
        label == name + ":"@,
    ensures
        block_text(name, value) == block(label, value),
{
    if let Some(JsonView::Array(items)) = value {
        if items.len() > 0 {
            lemma_text_lines(items, items.len() as int);
            lemma_texts_of(items, items.len() as int);
            assert(items.take(items.len() as int) =~= items);
            lemma_two_lines(seq![], label);
        }
    }
}

proof fn lemma_one_line(line: Seq<char>)
    ensures
        lines(seq![line]) == line.push('\n'),
{
    lemma_lines_push(seq![], line);
    assert(seq![line] =~= seq![].push(line));
    assert(lines(seq![]) + line.push('\n') =~= line.push('\n'));
}

proof fn lemma_two_lines(a: Seq<char>, b: Seq<char>)
    ensures
        lines(seq![a, b]) == a.push('\n') + b.push('\n'),
{
    lemma_one_line(a);
    lemma_lines_push(seq![a], b);
    assert(seq![a, b] =~= seq![a].push(b));
}

proof fn lemma_three_lines(a: Seq<char>, b: Seq<char>, c: Seq<char>)
    ensures
        lines(seq![a, b, c]) == a.push('\n') + b.push('\n') + c.push('\n'),
{
    lemma_two_lines(a, b);
    lemma_lines_push(seq![a, b], c);
    assert(seq![a, b, c] =~= seq![a, b].push(c));
}

/// What is shown of the annotation of a hunk: its id and its text, or that there is none.
pub open spec fn annotation_of_hunk(value: Option<JsonView>) -> Seq<char> {
    match value {
        Some(a) => if a is Object {
            "annotation: "@ + shown_field(a, "id"@) + " "@ + (match a.field("content"@) {
                Some(JsonView::Text(t)) => t,
                _ => ""@,
            })
        } else {
            "annotation: none"@
        },
        None => "annotation: none"@,
    }
}

/// A hunk is shown by its place, its lines, the old and the new ones where it has them, and the
/// kind of change; then its text and the lines around and in it; and its annotation.
pub proof fn hunks_are_shown_in_full(data: JsonView)
    ensures
        shown_text(OutputKind::CurrentHunk, data) == (lines(
            seq![
                "file: "@ + (shown_field(data, "file"@) + " ("@ + shown_number(data, "file_index"@)
                    + ")"@),
                "hunk: "@ + shown_number(data, "hunk_index"@),
                "lines: "@ + shown_range(data, "line_range"@),
            ],
        ) + range_line("old_lines: "@, data.field("old_line_range"@)) + range_line(
            "new_lines: "@,
            data.field("new_line_range"@),
        ) + lines(seq!["change: "@ + shown_field(data, "change_type"@)])) + (text_block(
            "diff:"@,
            data.field("diff_text"@),
        ) + block("context_before"@ + ":"@, data.field("context_before"@)) + block(
            "context_changed"@ + ":"@,
            data.field("context_changed"@),
        ) + block("context_after"@ + ":"@, data.field("context_after"@)) + lines(
            seq![seq![], annotation_of_hunk(data.field("annotation"@))],
        )),
{
    let a = "file: "@ + (shown_field(data, "file"@) + " ("@ + shown_number(data, "file_index"@)
        + ")"@);
    let b = "hunk: "@ + shown_number(data, "hunk_index"@);
    let c = "lines: "@ + shown_range(data, "line_range"@);
    lemma_three_lines(a, b, c);
    lemma_one_line("change: "@ + shown_field(data, "change_type"@));
    if let Some(t) = range_text(data.field("old_line_range"@)) {
        lemma_one_line("old_lines: "@ + t);
    }
    if let Some(t) = range_text(data.field("new_line_range"@)) {
        lemma_one_line("new_lines: "@ + t);
    }
    lemma_block("context_before"@ + ":"@, "context_before"@, data.field("context_before"@));
    lemma_block("context_changed"@ + ":"@, "context_changed"@, data.field("context_changed"@));
    lemma_block("context_after"@ + ":"@, "context_after"@, data.field("context_after"@));
    reveal_strlit("");
    if let Some(JsonView::Text(t)) = data.field("diff_text"@) {
        lemma_three_lines(seq![], "diff:"@, t);
    }
    lemma_two_lines(seq![], annotation_of_hunk(data.field("annotation"@)));
    if let Some(v) = data.field("annotation"@) {
        if v is Object {
            assert(JsonView::Object(v->Object_0) == v);
        }
    }
}

/// A file is shown by its name and number, by what happened to it, by whether it is binary, and
/// by the texts of its sides, the old one first.
pub proof fn files_are_shown_with_both_sides(data: JsonView)
    ensures
        shown_text(OutputKind::CurrentFile, data) == lines(
            seq![
                "file: "@ + (shown_field(data, "file"@) + " ("@ + shown_number(data, "file_index"@)
                    + ")"@),
                "status: "@ + shown_field(data, "status"@),
                "binary: "@ + shown_flag(data, "is_binary"@),
            ],
        ) + text_block("old_content"@ + ":"@, data.field("old_content"@)) + text_block(
            "new_content"@ + ":"@,
            data.field("new_content"@),
        ),
{
    let a = "file: "@ + (shown_field(data, "file"@) + " ("@ + shown_number(data, "file_index"@)
        + ")"@);
    let b = "status: "@ + shown_field(data, "status"@);
    let c = "binary: "@ + shown_flag(data, "is_binary"@);
    lemma_three_lines(a, b, c);
    reveal_strlit("");
    if let Some(JsonView::Text(t)) = data.field("old_content"@) {
        lemma_three_lines(seq![], "old_content"@ + ":"@, t);
    }
    if let Some(JsonView::Text(t)) = data.field("new_content"@) {
        lemma_three_lines(seq![], "new_content"@ + ":"@, t);
    }
}

/// An annotation is shown by its id, its file, its lines, its hunk and its text.
pub proof fn annotations_are_shown_in_one_line(a: JsonView)
    ensures
        a is Object ==> annotation_line(a) == Some(
            "["@ + shown_field(a, "id"@) + "] "@ + shown_field(a, "file"@) + ":"@ + shown_range(
                a,
                "line_range"@,
            ) + " (hunk "@ + shown_number(a, "hunk_index"@) + ") "@ + (match a.field("content"@) {
                Some(JsonView::Text(t)) => t,
                _ => ""@,
            }),
        ),
        !(a is Object) ==> annotation_line(a) is None,
{
}

proof fn lemma_annotation_lines(items: Seq<JsonView>, n: int)
    requires
        0 <= n <= items.len(),
    ensures
        annotation_lines(items, n) == lines(
            items.take(n).filter(|j: JsonView| j is Object).map_values(
                |j: JsonView| "- "@ + annotation_line(j)->0,
            ),
        ),
    decreases n,
{
    reveal(Seq::filter);
    let p = |j: JsonView| j is Object;
    let f = |j: JsonView| "- "@ + annotation_line(j)->0;
    if n > 0 {
        lemma_annotation_lines(items, n - 1);
        assert(items.take(n).drop_last() =~= items.take(n - 1));
        let less = items.take(n - 1).filter(p);
        assert(less.push(items[n - 1]).map_values(f) =~= less.map_values(f).push(f(items[n - 1])));
        lemma_lines_push(less.map_values(f), f(items[n - 1]));
    } else {
        assert(items.take(0).filter(p).map_values(f) =~= seq![]);
    }
}

/// A list of annotations is shown with their number first, and then one line for each, in order.
pub proof fn annotation_lists_are_shown_line_by_line(data: JsonView)
    ensures
        ({
            let r = shown_text(OutputKind::Annotations, data);
            match data.field("annotations"@) {
                Some(JsonView::Array(items)) => r == lines(
                    seq!["annotations: "@ + decimal(items.len())],
                ) + lines(
                    items.filter(|j: JsonView| j is Object).map_values(
                        |j: JsonView| "- "@ + annotation_line(j)->0,
                    ),
                ),
                _ => r == lines(seq!["annotations: "@ + decimal(0)]),
            }
        }),
{
    lemma_one_line("annotations: "@ + decimal(0));
    if let Some(JsonView::Array(items)) = data.field("annotations"@) {
        lemma_one_line("annotations: "@ + decimal(items.len()));
        lemma_annotation_lines(items, items.len() as int);
        assert(items.take(items.len() as int) =~= items);
    }
}

/// What was done to an annotation is shown in one line, with the annotation where the answer
/// has it.
pub proof fn changes_of_annotations_are_shown(data: JsonView)
    ensures
        ({
            let shows = |kind: OutputKind, word: Seq<char>|
                match data.field("annotation"@) {
                    Some(JsonView::Object(a)) => shown_text(kind, data) == lines(
                        seq![
                            "annotation "@ + word + ": "@ + annotation_line(
                                JsonView::Object(a),
                            )->0,
                        ],
                    ),
                    _ => shown_text(kind, data) == lines(seq!["annotation "@ + word + "."@]),
                };
            &&& shows(OutputKind::AnnotationCreated, "created"@)
            &&& shows(OutputKind::AnnotationUpdated, "updated"@)
            &&& shows(OutputKind::AnnotationDeleted, "deleted"@)
        }),
{
    lemma_change_shown(data, "created"@);
    lemma_change_shown(data, "updated"@);
    lemma_change_shown(data, "deleted"@);
}

proof fn lemma_change_shown(data: JsonView, word: Seq<char>)
    ensures
        lines(seq!["annotation "@ + word + "."@]) == ("annotation "@ + word + "."@).push('\n'),
        data.field("annotation"@) matches Some(a) ==> lines(
            seq!["annotation "@ + word + ": "@ + annotation_line(a)->0],
        ) == ("annotation "@ + word + ": "@ + annotation_line(a)->0).push('\n'),
{
    lemma_one_line("annotation "@ + word + "."@);
    if let Some(a) = data.field("annotation"@) {
        lemma_one_line("annotation "@ + word + ": "@ + annotation_line(a)->0);
    }
}

/// The tags of an answer are the texts of its field, in order, and none where it has none.
pub proof fn tags_of_an_answer_are_its_texts(data: JsonView)
    ensures
        answer_tags(data) == match data.field("tags"@) {
            Some(JsonView::Array(items)) => items.filter(|j: JsonView| j is Text).map_values(
                |j: JsonView| j->Text_0,
            ),
            _ => seq![],
        },
{
    if let Some(JsonView::Array(items)) = data.field("tags"@) {
        lemma_texts_of(items, items.len() as int);
        assert(items.take(items.len() as int) =~= items);
    }
}

proof fn lemma_dashed_lines(list: Seq<Seq<char>>, n: int)
    requires
        0 <= n <= list.len(),
    ensures
        dashed_lines(list, n) == lines(list.take(n).map_values(|t: Seq<char>| "- "@ + t)),
    decreases n,
{
    let f = |t: Seq<char>| "- "@ + t;
    if n > 0 {
        lemma_dashed_lines(list, n - 1);
        assert(list.take(n).map_values(f) =~= list.take(n - 1).map_values(f).push(f(list[n - 1])));
        lemma_lines_push(list.take(n - 1).map_values(f), f(list[n - 1]));
    } else {
        assert(list.take(0).map_values(f) =~= seq![]);
    }
}

/// The tags in use are shown with their number first, and then one line for each, or a line that
/// says that there are none.
pub proof fn tags_in_use_are_shown_line_by_line(data: JsonView)
    ensures
        ({
            let tags = answer_tags(data);
            let r = shown_text(OutputKind::TagsList, data);
            &&& tags.len() == 0 ==> r == lines(seq!["tags: "@ + decimal(0), "- (none)"@])
            &&& tags.len() > 0 ==> r == lines(seq!["tags: "@ + decimal(tags.len())]) + lines(
                tags.map_values(|t: Seq<char>| "- "@ + t),
            )
        }),
{
    let tags = answer_tags(data);
    lemma_one_line("tags: "@ + decimal(tags.len()));
    lemma_two_lines("tags: "@ + decimal(0), "- (none)"@);
    lemma_dashed_lines(tags, tags.len() as int);
    assert(tags.take(tags.len() as int) =~= tags);
}

/// The tags of a hunk are shown with its place, and with what was done to them where something
/// was.
pub proof fn tags_of_a_hunk_are_shown(data: JsonView)
    ensures
        ({
            let tags = answer_tags(data);
            let list = lines(
                seq![
                    "file: "@ + (shown_field(data, "file"@) + " ("@ + shown_number(
                        data,
                        "file_index"@,
                    ) + ")"@),
                    "hunk: "@ + shown_number(data, "hunk_index"@),
                    "lines: "@ + shown_range(data, "line_range"@),
                    "tags: "@ + if tags.len() == 0 {
                        "(none)"@
                    } else {
                        joined(tags, ", "@)
                    },
                ],
            );
            &&& shown_text(OutputKind::TagsCurrent, data) == list
            &&& shown_text(OutputKind::TagsUpdated, data) == lines(seq!["tags updated:"@]) + list
            &&& shown_text(OutputKind::TagsCleared, data) == lines(seq!["tags cleared:"@]) + list
        }),
{
    let tags = answer_tags(data);
    let a = "file: "@ + (shown_field(data, "file"@) + " ("@ + shown_number(data, "file_index"@)
        + ")"@);
    let b = "hunk: "@ + shown_number(data, "hunk_index"@);
    let c = "lines: "@ + shown_range(data, "line_range"@);
    let d = "tags: "@ + if tags.len() == 0 {
        "(none)"@
    } else {
        joined(tags, ", "@)
    };
    lemma_three_lines(a, b, c);
    lemma_lines_push(seq![a, b, c], d);
    assert(seq![a, b, c, d] =~= seq![a, b, c].push(d));
    lemma_one_line("tags updated:"@);
    lemma_one_line("tags cleared:"@);
    reveal_strlit("tags ");
    reveal_strlit("updated");
    reveal_strlit("cleared");
    reveal_strlit(":");
    reveal_strlit("tags updated:");
    reveal_strlit("tags cleared:");
    assert("tags updated:"@ =~= "tags "@ + "updated"@ + ":"@);
    assert("tags cleared:"@ =~= "tags "@ + "cleared"@ + ":"@);
}

/// The full context is shown in three parts under headings, each as it is shown alone; a hunk
/// that is null is shown as none.
pub proof fn the_full_context_is_shown_in_three_parts(data: JsonView)
    ensures
        shown_text(OutputKind::FullContext, data) == lines(seq!["== status =="@]) + (
        match data.field("status"@) {
            Some(status) => shown_text(OutputKind::Status, status),
            None => seq![],
        }) + lines(seq![seq![]]) + lines(seq!["== current_hunk =="@]) + (match data.field(
            "current_hunk"@,
        ) {
            Some(JsonView::Null) => lines(seq!["none"@]),
            Some(hunk) => shown_text(OutputKind::CurrentHunk, hunk),
            None => seq![],
        }) + lines(seq![seq![]]) + lines(seq!["== annotations =="@]) + (match data.field(
            "annotations"@,
        ) {
            Some(_) => shown_text(OutputKind::Annotations, data),
            None => seq![],
        }),
{
    lemma_one_line("== status =="@);
    lemma_one_line(seq![]);
    lemma_one_line("== current_hunk =="@);
    lemma_one_line("none"@);
    lemma_one_line("== annotations =="@);
}

proof fn lemma_entry_lines(items: Seq<JsonView>, n: int, with_tags: bool)
    requires
        0 <= n <= items.len(),
    ensures
        with_tags ==> entry_lines(items, n, with_tags) == lines(
            items.take(n).map_values(|j: JsonView| "- "@ + tags_line(j)),
        ),
        !with_tags ==> entry_lines(items, n, with_tags) == lines(
            items.take(n).map_values(|j: JsonView| "- "@ + hunk_line(j)),
        ),
    decreases n,
{
    let f = |j: JsonView| "- "@ + tags_line(j);
    let g = |j: JsonView| "- "@ + hunk_line(j);
    if n > 0 {
        lemma_entry_lines(items, n - 1, with_tags);
        let less = items.take(n - 1);
        assert(items.take(n).map_values(f) =~= less.map_values(f).push(f(items[n - 1])));
        assert(items.take(n).map_values(g) =~= less.map_values(g).push(g(items[n - 1])));
        lemma_lines_push(less.map_values(f), f(items[n - 1]));
        lemma_lines_push(less.map_values(g), g(items[n - 1]));
    } else {
        assert(items.take(0).map_values(f) =~= seq![]);
        assert(items.take(0).map_values(g) =~= seq![]);
    }
}

/// A list of hunks is shown with their number first, and then one line for each, in order: its
/// place and its lines, or its place and its tags.
pub proof fn hunk_lists_are_shown_line_by_line(data: JsonView, j: JsonView)
    ensures
        ({
            let hunks = shown_text(OutputKind::Hunks, data);
            let tags = shown_text(OutputKind::HunkTags, data);
            match data.field("hunks"@) {
                Some(JsonView::Array(items)) => {
                    &&& hunks == lines(seq!["hunks: "@ + decimal(items.len())]) + lines(
                        items.map_values(|j: JsonView| "- "@ + hunk_line(j)),
                    )
                    &&& tags == lines(seq!["hunks: "@ + decimal(items.len())]) + lines(
                        items.map_values(|j: JsonView| "- "@ + tags_line(j)),
                    )
                },
                _ => {
                    &&& hunks == lines(seq!["hunks: "@ + decimal(0)])
                    &&& tags == lines(seq!["hunks: "@ + decimal(0)])
                },
            }
        }),
        hunk_line(j) == shown_field(j, "file"@) + ":"@ + shown_range(j, "line_range"@) + " (file "@
            + shown_number(j, "file_index"@) + ", hunk "@ + shown_number(j, "hunk_index"@) + ")"@,
        tags_line(j) == shown_field(j, "file"@) + " (file "@ + shown_number(j, "file_index"@)
            + ", hunk "@ + shown_number(j, "hunk_index"@) + "): "@ + joined(answer_tags(j), ", "@),
{
    lemma_one_line("hunks: "@ + decimal(0));
    if let Some(JsonView::Array(items)) = data.field("hunks"@) {
        lemma_one_line("hunks: "@ + decimal(items.len()));
        lemma_entry_lines(items, items.len() as int, true);
        lemma_entry_lines(items, items.len() as int, false);
        assert(items.take(items.len() as int) =~= items);
    }
}

// ---------------------------------------------------------------------------
// What is asked for
// ---------------------------------------------------------------------------
/// The answer to each command is shown as what it is about.
pub proof fn answers_are_shown_by_command(command: CliCommand)
    ensures
        ({
            let kind = kind_of(command);
            &&& command is Status || command is Ping <==> kind is Status
            &&& command is CurrentHunk || command is Hunk <==> kind is CurrentHunk
            &&& command is CurrentFile <==> kind is CurrentFile
            &&& command is Annotations <==> kind is Annotations
            &&& command is Annotate <==> kind is AnnotationCreated
            &&& command is Update <==> kind is AnnotationUpdated
            &&& command is Delete <==> kind is AnnotationDeleted
            &&& command is FullContext <==> kind is FullContext
            &&& command is TagList <==> kind is TagsList
            &&& command is TagCurrent <==> kind is TagsCurrent
            &&& command is TagSet || command is TagAdd || command is TagRemove
                <==> kind is TagsUpdated
            &&& command is TagClear <==> kind is TagsCleared
            &&& command is Hunks <==> kind is Hunks
            &&& command is Tags <==> kind is HunkTags
        }),
{
}

/// Setting, adding, removing and clearing tags ask for the tags that the hunk is then to have: the
/// given ones; those that it has and the new one; those that it has but the one; none.
pub proof fn tag_commands_ask_for_the_tags_that_are_left(
    command: CliCommand,
    current: Seq<Seq<char>>,
    t: Seq<char>,
)
    ensures
        ({
            let r = requested_tags(command, current)->0;
            let is_in = |list: Seq<Seq<char>>|
                t.len() > 0 && exists|i: int| 0 <= i < list.len() && trimmed(#[trigger] list[i]) == t;
            &&& requested_tags(command, current) is Some <==> command is TagSet
                || command is TagAdd || command is TagRemove || command is TagClear
            &&& match command {
                CliCommand::TagSet { tags, target: _ } => r.contains(t) <==> is_in(strs(tags@)),
                CliCommand::TagAdd { tag, target: _ } => r.contains(t) <==> is_in(current)
                    || t.len() > 0 && trimmed(tag@) == t,
                CliCommand::TagRemove { tag, target: _ } => r.contains(t) <==> is_in(
                    current.filter(|u: Seq<char>| u != tag@),
                ),
                CliCommand::TagClear { target: _ } => r.len() == 0,
                _ => true,
            }
        }),
{
    match command {
        CliCommand::TagSet { tags, target: _ } => {
            lemma_in_normal_form(strs(tags@), t);
        },
        CliCommand::TagAdd { tag, target: _ } => {
            let all = tags_with(current, tag@);
            lemma_in_normal_form(all, t);
            if exists|i: int| 0 <= i < current.len() && trimmed(#[trigger] current[i]) == t {
                let i = choose|i: int| 0 <= i < current.len() && trimmed(#[trigger] current[i])
                    == t;
                assert(all[i] == current[i]);
            }
            if current.contains(tag@) {
                let i = choose|i: int| 0 <= i < current.len() && current[i] == tag@;
                assert(trimmed(current[i]) == trimmed(tag@));
            } else {
                assert(all[current.len() as int] == tag@);
            }
            if exists|i: int| 0 <= i < all.len() && trimmed(#[trigger] all[i]) == t {
                let i = choose|i: int| 0 <= i < all.len() && trimmed(#[trigger] all[i]) == t;
                if i < current.len() {
                    assert(current[i] == all[i]);
                }
            }
        },
        CliCommand::TagRemove { tag, target: _ } => {
            keeping_is_filtering(current, is_other_tag(tag@));
            assert(is_other_tag(tag@) =~= (|u: Seq<char>| u != tag@));
            lemma_in_normal_form(current.filter(|u: Seq<char>| u != tag@), t);
        },
        _ => {},
    }
}

proof fn lemma_in_normal_form(list: Seq<Seq<char>>, t: Seq<char>)
    ensures
        normalized(list).contains(t) <==> t.len() > 0 && exists|i: int|
            0 <= i < list.len() && trimmed(#[trigger] list[i]) == t,
{
    normal_tags_are_those_written(list);
    let r = normalized(list);
    if r.contains(t) {
        let k = choose|k: int| 0 <= k < r.len() && r[k] == t;
        assert(r[k] == t);
    }
}

/// The tags that a list of hunks gives for one are those of its first entry with the numbers of
/// both the file and the hunk, and none where no entry has them.
pub proof fn listed_tags_are_those_of_the_hunk(data: JsonView, f: usize, h: usize, i: int)
    ensures
        ({
            let items = data.array_field("hunks"@)->0;
            let about = |k: int|
                0 <= k < items.len() && items[k].number_field("file_index"@) == Some(f as u64)
                    && items[k].number_field("hunk_index"@) == Some(h as u64);
            &&& data.array_field("hunks"@) is None ==> listed_tags(data, f, h).len() == 0
            &&& data.array_field("hunks"@) is Some && about(i) && (forall|k: int| #[trigger]
                about(k) ==> i <= k) ==> listed_tags(data, f, h) == answer_tags(items[i])
            &&& data.array_field("hunks"@) is Some && (forall|k: int| !#[trigger] about(k))
                ==> listed_tags(data, f, h).len() == 0
        }),
{
    if let Some(items) = data.array_field("hunks"@) {
        let about = |k: int|
            0 <= k < items.len() && items[k].number_field("file_index"@) == Some(f as u64)
                && items[k].number_field("hunk_index"@) == Some(h as u64);
        first_where_is_first(items, 0, is_about(f, h));
        if let Some(k) = first_where(items, 0, is_about(f, h)) {
            assert(about(k));
            if 0 <= i < k {
                assert(!is_about(f, h)(items[i]));
            }
        } else {
            if about(i) {
                assert(!is_about(f, h)(items[i]));
            }
        }
    }
}

/// What the viewer does for a command of the client: what was asked for, with the texts and the
/// hunk that were given.
pub proof fn commands_reach_the_viewer(command: CliCommand, current: Seq<Seq<char>>)
    ensures
        ({
            let (method, path) = endpoint_of(command);
            let route = route_of(method, path);
            let asked = match payload_of(command, current) {
                Some(body) => command_with_payload(route, body),
                None => command_of(route, None),
            };
            asked == Ok::<CommandView, ResponseView>(
                match command {
                    CliCommand::Status => CommandView::Status,
                    CliCommand::Ping => CommandView::Status,
                    CliCommand::CurrentHunk => CommandView::CurrentHunk,
                    CliCommand::CurrentFile => CommandView::CurrentFile,
                    CliCommand::FullContext => CommandView::FullContext,
                    CliCommand::Annotations { current } => CommandView::Annotations(current),
                    CliCommand::Annotate { text, target } => CommandView::CreateAnnotation(
                        text@,
                        target,
                    ),
                    CliCommand::Update { id, text } => CommandView::UpdateAnnotation(id@, text@),
                    CliCommand::Delete { id } => CommandView::DeleteAnnotation(id@),
                    CliCommand::TagList => CommandView::TagsList,
                    CliCommand::TagCurrent => CommandView::TagsCurrent,
                    CliCommand::Hunks { current } => CommandView::Hunks(current),
                    CliCommand::Hunk { file_index, hunk_index } => CommandView::Hunk(
                        file_index,
                        hunk_index,
                    ),
                    CliCommand::Tags { current } => CommandView::HunkTags(current),
                    CliCommand::TagSet { tags: _, target } => CommandView::TagsSet(
                        requested_tags(command, current)->0,
                        target,
                    ),
                    CliCommand::TagAdd { tag: _, target } => CommandView::TagsSet(
                        requested_tags(command, current)->0,
                        target,
                    ),
                    CliCommand::TagRemove { tag: _, target } => CommandView::TagsSet(
                        requested_tags(command, current)->0,
                        target,
                    ),
                    CliCommand::TagClear { target } => CommandView::TagsSet(seq![], target),
                },
            )
        }),
{
    requests_are_understood(command, current);
}

} // verus!
