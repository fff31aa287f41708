//! The command line client: the requests that its commands make, and the texts that it
//! shows of the answers.

use vstd::prelude::*;

use crate::api::{
    command_of, command_with_payload, reads_body, route_of, texts_field, CommandView, Method,
    ResponseView, Route, Target,
};
use crate::diff::has_line;
use crate::json::{
    group_plain_fields, json_number, json_string, json_strings, json_text, print_json,
    ranges_and_texts_are_plain, strings_of, texts_of, texts_view, writable, Fields, Json, JsonView,
};
use crate::seqs::{find_first_view, first_where, kept, retain_view, views};
use crate::tag_names::{normalize_tags, normalized};
use crate::text::{
    concat2, decimal, join_strings, joined, opt_str, str_eq, strs, u64_text, usize_text,
};

verus! {

// ---------------------------------------------------------------------------
// Parts of texts
// ---------------------------------------------------------------------------
/// A line, with the line feed that ends it.
pub open spec fn ln(s: Seq<char>) -> Seq<char> {
    s.push('\n')
}

/// A text, or another where there is none.
pub open spec fn text_or(s: Option<Seq<char>>, other: Seq<char>) -> Seq<char> {
    match s {
        Some(t) => t,
        None => other,
    }
}

/// A number, or a dash where there is none.
pub open spec fn number_or_dash(n: Option<u64>) -> Seq<char> {
    match n {
        Some(k) => decimal(k as nat),
        None => "-"@,
    }
}

/// The text of a field, or another where it is none.
fn field_or(data: &Json, name: &str, other: &str) -> (r: String)
    ensures
        r@ == text_or(data@.text_field(name@), other@),
{
    match data.get_str(name) {
        Some(s) => s.clone(),
        None => other.to_string(),
    }
}

/// The number of a field, or a dash where it is none.
fn number_field_or_dash(data: &Json, name: &str) -> (r: String)
    ensures
        r@ == number_or_dash(data@.number_field(name@)),
{
    match data.get_u64(name) {
        Some(n) => u64_text(n),
        None => "-".to_string(),
    }
}

/// Appends a line.
fn push_line(out: &mut String, label: &str, value: &str)
    ensures
        final(out)@ == old(out)@ + ln(label@ + value@),
{
    let ghost before = out@;
    out.append(label);
    out.append(value);
    out.push('\n');
    assert(out@ == before + ln(label@ + value@));
}

/// The two ends of a range of lines, where a value is one.
pub open spec fn range_text(value: Option<JsonView>) -> Option<Seq<char>> {
    match value {
        Some(JsonView::Array(items)) => if items.len() == 2 {
            match (items[0], items[1]) {
                (JsonView::Unsigned(a), JsonView::Unsigned(b)) => Some(
                    decimal(a as nat) + "-"@ + decimal(b as nat),
                ),
                _ => None,
            }
        } else {
            None
        },
        _ => None,
    }
}

/// The two ends of a range of lines, where a value is one.
pub fn format_range(value: Option<&Json>) -> (r: Option<String>)
    ensures
        opt_str(r) == range_text(
            match value {
                Some(j) => Some(j@),
                None => None,
            },
        ),
{
    let items = match value {
        Some(j) => match j.as_array() {
            Some(items) => items,
            None => {
                return None;
            },
        },
        None => {
            return None;
        },
    };
    assert(views(items@).len() == items@.len());
    if items.len() != 2 {
        return None;
    }
    match (items[0].as_u64(), items[1].as_u64()) {
        (Some(a), Some(b)) => {
            let mut r = concat2(u64_text(a).as_str(), "-");
            r.append(u64_text(b).as_str());
            Some(r)
        },
        _ => None,
    }
}

/// The text of a range field, or a dash where it is none.
fn range_or_dash(data: &Json, name: &str) -> (r: String)
    ensures
        r@ == text_or(range_text(data@.field(name@)), "-"@),
{
    match format_range(data.get(name)) {
        Some(s) => s,
        None => "-".to_string(),
    }
}

/// The parts of what is said of a scope.
pub open spec fn scope_parts(scope: JsonView) -> Seq<Seq<char>> {
    let kind = text_or(scope.text_field("type"@), "unknown"@);
    let begun = seq![kind, "vcs="@ + text_or(scope.text_field("vcs"@), "unknown"@)];
    let with_base = if kind == "working_tree"@ && scope.text_field("base_commit_id"@) is Some {
        begun.push("base_commit_id="@ + scope.text_field("base_commit_id"@)->0)
    } else {
        begun
    };
    let with_commit = if kind == "commit"@ && scope.text_field("commit_id"@) is Some {
        with_base.push("commit_id="@ + scope.text_field("commit_id"@)->0)
    } else {
        with_base
    };
    if scope.text_field("diff_reference"@) is Some {
        with_commit.push("diff_reference="@ + scope.text_field("diff_reference"@)->0)
    } else {
        with_commit
    }
}

/// What is said of a scope.
pub open spec fn scope_text(scope: Option<JsonView>) -> Seq<char> {
    match scope {
        Some(JsonView::Object(fields)) => joined(scope_parts(JsonView::Object(fields)), " "@),
        _ => "unknown"@,
    }
}

/// Appends a part.
fn push_part(parts: &mut Vec<String>, label: &str, value: &String)
    ensures
        strs(final(parts)@) == strs(old(parts)@).push(label@ + value@),
{
    let ghost before = strs(parts@);
    parts.push(concat2(label, value.as_str()));
    assert(strs(parts@) == before.push(label@ + value@));
}

/// What is said of a scope.
pub fn format_scope(scope: Option<&Json>) -> (r: String)
    ensures
        r@ == scope_text(
            match scope {
                Some(j) => Some(j@),
                None => None,
            },
        ),
{
    let scope = match scope {
        Some(j) => j,
        None => {
            return "unknown".to_string();
        },
    };
    if !scope.is_object() {
        return "unknown".to_string();
    }
    let kind = field_or(scope, "type", "unknown");
    let vcs = field_or(scope, "vcs", "unknown");
    let mut parts: Vec<String> = Vec::new();
    parts.push(kind.clone());
    parts.push(concat2("vcs=", vcs.as_str()));
    assert(strs(parts@) == seq![kind@, "vcs="@ + vcs@]);
    if str_eq(kind.as_str(), "working_tree") {
        if let Some(base) = scope.get_str("base_commit_id") {
            push_part(&mut parts, "base_commit_id=", base);
        }
    }
    if str_eq(kind.as_str(), "commit") {
        if let Some(commit) = scope.get_str("commit_id") {
            push_part(&mut parts, "commit_id=", commit);
        }
    }
    if let Some(reference) = scope.get_str("diff_reference") {
        push_part(&mut parts, "diff_reference=", reference);
    }
    join_strings(&parts, " ")
}

// ---------------------------------------------------------------------------
// Texts
// ---------------------------------------------------------------------------
/// A name with a number behind it.
pub open spec fn with_number(name: Seq<char>, n: Seq<char>) -> Seq<char> {
    name + " ("@ + n + ")"@
}

fn with_number_text(name: &str, n: &str) -> (r: String)
    ensures
        r@ == with_number(name@, n@),
{
    let mut r = concat2(name, " (");
    r.append(n);
    r.append(")");
    r
}

/// The text of an answer about the state of the viewer.
pub open spec fn status_text(data: JsonView) -> Seq<char> {
    ln("cwd: "@ + text_or(data.text_field("cwd"@), "-"@)) + ln(
        "scope: "@ + scope_text(data.field("scope"@)),
    ) + ln(
        "current_file: "@ + with_number(
            text_or(data.text_field("current_file"@), "-"@),
            number_or_dash(data.number_field("current_file_index"@)),
        ),
    ) + ln("focused_hunk: "@ + number_or_dash(data.number_field("focused_hunk"@))) + ln(
        "hunk_count: "@ + number_or_dash(data.number_field("hunk_count"@)),
    ) + ln("annotations_count: "@ + number_or_dash(data.number_field("annotations_count"@)))
}

/// Appends the text of an answer about the state of the viewer.
fn push_status(out: &mut String, data: &Json)
    ensures
        final(out)@ == old(out)@ + status_text(data@),
{
    let ghost begun = out@;
    let file = with_number_text(
        field_or(data, "current_file", "-").as_str(),
        number_field_or_dash(data, "current_file_index").as_str(),
    );
    push_line(out, "cwd: ", field_or(data, "cwd", "-").as_str());
    push_line(out, "scope: ", format_scope(data.get("scope")).as_str());
    push_line(out, "current_file: ", file.as_str());
    push_line(out, "focused_hunk: ", number_field_or_dash(data, "focused_hunk").as_str());
    push_line(out, "hunk_count: ", number_field_or_dash(data, "hunk_count").as_str());
    push_line(
        out,
        "annotations_count: ",
        number_field_or_dash(data, "annotations_count").as_str(),
    );
    assert(out@ =~= begun + status_text(data@));
}

/// The text of an answer about the state of the viewer.
pub fn print_text_status(data: &Json) -> (r: String)
    ensures
        r@ == status_text(data@),
{
    let mut out = String::new();
    push_status(&mut out, data);
    assert(out@ =~= status_text(data@));
    out
}

/// The first `n` texts among values, a line for each.
pub open spec fn text_lines(items: Seq<JsonView>, n: int) -> Seq<char>
    decreases n,
{
    if n <= 0 {
        seq![]
    } else {
        match items[n - 1] {
            JsonView::Text(t) => text_lines(items, n - 1) + ln(t),
            _ => text_lines(items, n - 1),
        }
    }
}

/// A block of lines under a label, behind an empty line; nothing where there are none.
pub open spec fn block_text(label: Seq<char>, value: Option<JsonView>) -> Seq<char> {
    match value {
        Some(JsonView::Array(items)) => if items.len() > 0 {
            ln(seq![]) + ln(label + ":"@) + text_lines(items, items.len() as int)
        } else {
            seq![]
        },
        _ => seq![],
    }
}

/// Appends a block of lines.
fn push_block(out: &mut String, data: &Json, name: &str)
    ensures
        final(out)@ == old(out)@ + block_text(name@, data@.field(name@)),
{
    let ghost begun = out@;
    let items = match data.get_array(name) {
        Some(items) => items,
        None => {
            assert(out@ =~= begun + block_text(name@, data@.field(name@)));
            return ;
        },
    };
    assert(views(items@).len() == items@.len());
    if items.len() == 0 {
        assert(out@ =~= begun + block_text(name@, data@.field(name@)));
        return ;
    }
    push_line(out, "", "");
    push_line(out, name, ":");
    proof {
        reveal_strlit("");
    }
    let ghost head = ln(seq![]) + ln(name@ + ":"@);
    assert(ln(""@ + ""@) =~= ln(seq![]));
    assert(out@ =~= begun + head + text_lines(views(items@), 0));
    let mut i: usize = 0;
    while i < items.len()
        invariant
            i <= items@.len(),
            out@ == begun + head + text_lines(views(items@), i as int),
        decreases items@.len() - i,
    {
        let ghost before = out@;
        let ghost lines = text_lines(views(items@), i as int);
        if let Some(s) = items[i].as_str() {
            push_line(out, s.as_str(), "");
            proof {
                reveal_strlit("");
            }
            assert(s@ + ""@ =~= s@);
            assert(out@ =~= begun + head + (lines + ln(s@)));
        }
        i += 1;
    }
    assert(out@ =~= begun + (head + text_lines(views(items@), items@.len() as int)));
}

/// What is said of the annotation of a hunk.
pub open spec fn hunk_annotation_text(value: Option<JsonView>) -> Seq<char> {
    match value {
        Some(JsonView::Object(fields)) => {
            let a = JsonView::Object(fields);
            ln(seq![]) + ln(
                "annotation: "@ + text_or(a.text_field("id"@), "-"@) + " "@ + text_or(
                    a.text_field("content"@),
                    ""@,
                ),
            )
        },
        _ => ln(seq![]) + ln("annotation: none"@),
    }
}

/// A line for a range, where there is one.
pub open spec fn optional_line(label: Seq<char>, value: Option<Seq<char>>) -> Seq<char> {
    match value {
        Some(t) => ln(label + t),
        None => seq![],
    }
}

/// What is said of the changes of a hunk.
pub open spec fn diff_block(text: Option<Seq<char>>) -> Seq<char> {
    if text_or(text, ""@).len() > 0 {
        ln(seq![]) + ln("diff:"@) + ln(text->0)
    } else {
        seq![]
    }
}

/// What is said of the place of a hunk.
pub open spec fn hunk_place_text(data: JsonView) -> Seq<char> {
    ln(
        "file: "@ + with_number(
            text_or(data.text_field("file"@), "-"@),
            number_or_dash(data.number_field("file_index"@)),
        ),
    ) + ln("hunk: "@ + number_or_dash(data.number_field("hunk_index"@))) + ln(
        "lines: "@ + text_or(range_text(data.field("line_range"@)), "-"@),
    ) + optional_line("old_lines: "@, range_text(data.field("old_line_range"@))) + optional_line(
        "new_lines: "@,
        range_text(data.field("new_line_range"@)),
    ) + ln("change: "@ + text_or(data.text_field("change_type"@), "-"@))
}

/// What is said of the lines of a hunk, and of its annotation.
pub open spec fn hunk_lines_text(data: JsonView) -> Seq<char> {
    diff_block(data.text_field("diff_text"@)) + block_text(
        "context_before"@,
        data.field("context_before"@),
    ) + block_text("context_changed"@, data.field("context_changed"@)) + block_text(
        "context_after"@,
        data.field("context_after"@),
    ) + hunk_annotation_text(data.field("annotation"@))
}

/// The text of an answer about a hunk.
pub open spec fn hunk_text(data: JsonView) -> Seq<char> {
    hunk_place_text(data) + hunk_lines_text(data)
}

fn push_optional_line(out: &mut String, label: &str, value: Option<String>)
    ensures
        final(out)@ == old(out)@ + optional_line(label@, opt_str(value)),
{
    let ghost begun = out@;
    match value {
        Some(t) => push_line(out, label, t.as_str()),
        None => {
            assert(out@ =~= begun + optional_line(label@, opt_str(value)));
        },
    }
}

fn push_diff(out: &mut String, data: &Json)
    ensures
        final(out)@ == old(out)@ + diff_block(data@.text_field("diff_text"@)),
{
    let ghost begun = out@;
    proof {
        reveal_strlit("");
    }
    if let Some(text) = data.get_str("diff_text") {
        if !text.as_str().is_empty() {
            push_line(out, "", "");
            push_line(out, "diff:", "");
            push_line(out, text.as_str(), "");
            assert(ln(""@ + ""@) =~= ln(seq![]));
            assert(ln("diff:"@ + ""@) =~= ln("diff:"@));
            assert(ln(text@ + ""@) =~= ln(text@));
            assert(out@ =~= begun + (ln(seq![]) + ln("diff:"@) + ln(text@)));
            return ;
        }
    }
    assert(out@ =~= begun + diff_block(data@.text_field("diff_text"@)));
}

fn push_hunk_annotation(out: &mut String, data: &Json)
    ensures
        final(out)@ == old(out)@ + hunk_annotation_text(data@.field("annotation"@)),
{
    let ghost begun = out@;
    proof {
        reveal_strlit("");
    }
    assert(ln(""@ + ""@) =~= ln(seq![]));
    push_line(out, "", "");
    if let Some(a) = data.get("annotation") {
        if a.is_object() {
            let mut line = field_or(a, "id", "-");
            line.append(" ");
            line.append(field_or(a, "content", "").as_str());
            push_line(out, "annotation: ", line.as_str());
            assert("annotation: "@ + line@ =~= "annotation: "@ + text_or(
                a@.text_field("id"@),
                "-"@,
            ) + " "@ + text_or(a@.text_field("content"@), ""@));
            assert(out@ =~= begun + hunk_annotation_text(Some(a@)));
            return ;
        }
    }
    push_line(out, "annotation: none", "");
    assert(ln("annotation: none"@ + ""@) =~= ln("annotation: none"@));
    assert(out@ =~= begun + (ln(seq![]) + ln("annotation: none"@)));
}

fn push_hunk_place(out: &mut String, data: &Json)
    ensures
        final(out)@ == old(out)@ + hunk_place_text(data@),
{
    let ghost begun = out@;
    let file = with_number_text(
        field_or(data, "file", "-").as_str(),
        number_field_or_dash(data, "file_index").as_str(),
    );
    push_line(out, "file: ", file.as_str());
    push_line(out, "hunk: ", number_field_or_dash(data, "hunk_index").as_str());
    push_line(out, "lines: ", range_or_dash(data, "line_range").as_str());
    push_optional_line(out, "old_lines: ", format_range(data.get("old_line_range")));
    push_optional_line(out, "new_lines: ", format_range(data.get("new_line_range")));
    push_line(out, "change: ", field_or(data, "change_type", "-").as_str());
    assert(out@ =~= begun + hunk_place_text(data@));
}

fn push_hunk_lines(out: &mut String, data: &Json)
    ensures
        final(out)@ == old(out)@ + hunk_lines_text(data@),
{
    let ghost begun = out@;
    push_diff(out, data);
    push_block(out, data, "context_before");
    push_block(out, data, "context_changed");
    push_block(out, data, "context_after");
    push_hunk_annotation(out, data);
    assert(out@ =~= begun + hunk_lines_text(data@));
}

/// Appends the text of an answer about a hunk.
fn push_hunk(out: &mut String, data: &Json)
    ensures
        final(out)@ == old(out)@ + hunk_text(data@),
{
    let ghost begun = out@;
    push_hunk_place(out, data);
    push_hunk_lines(out, data);
    assert(out@ =~= begun + hunk_text(data@));
}

/// The text of an answer about a hunk.
pub fn print_text_current_hunk(data: &Json) -> (r: String)
    ensures
        r@ == hunk_text(data@),
{
    let mut out = String::new();
    push_hunk(&mut out, data);
    assert(out@ =~= hunk_text(data@));
    out
}

/// What is said of the contents of one side of a file, where there are some.
pub open spec fn content_block(label: Seq<char>, text: Option<Seq<char>>) -> Seq<char> {
    if text_or(text, ""@).len() > 0 {
        ln(seq![]) + ln(label + ":"@) + ln(text->0)
    } else {
        seq![]
    }
}

/// A truth value, or a dash where there is none.
pub open spec fn bool_or_dash(value: Option<JsonView>) -> Seq<char> {
    match value {
        Some(JsonView::Bool(b)) => if b {
            "true"@
        } else {
            "false"@
        },
        _ => "-"@,
    }
}

/// The text of an answer about a file.
pub open spec fn file_text(data: JsonView) -> Seq<char> {
    ln(
        "file: "@ + with_number(
            text_or(data.text_field("file"@), "-"@),
            number_or_dash(data.number_field("file_index"@)),
        ),
    ) + ln("status: "@ + text_or(data.text_field("status"@), "-"@)) + ln(
        "binary: "@ + bool_or_dash(data.field("is_binary"@)),
    ) + content_block("old_content"@, data.text_field("old_content"@)) + content_block(
        "new_content"@,
        data.text_field("new_content"@),
    )
}

fn push_content(out: &mut String, data: &Json, name: &str)
    ensures
        final(out)@ == old(out)@ + content_block(name@, data@.text_field(name@)),
{
    let ghost begun = out@;
    proof {
        reveal_strlit("");
    }
    if let Some(text) = data.get_str(name) {
        if !text.as_str().is_empty() {
            push_line(out, "", "");
            push_line(out, name, ":");
            push_line(out, text.as_str(), "");
            assert(ln(""@ + ""@) =~= ln(seq![]));
            assert(ln(text@ + ""@) =~= ln(text@));
            assert(out@ =~= begun + (ln(seq![]) + ln(name@ + ":"@) + ln(text@)));
            return ;
        }
    }
    assert(out@ =~= begun + content_block(name@, data@.text_field(name@)));
}

/// The text of an answer about a file.
pub fn print_text_current_file(data: &Json) -> (r: String)
    ensures
        r@ == file_text(data@),
{
    let mut out = String::new();
    let file = with_number_text(
        field_or(data, "file", "-").as_str(),
        number_field_or_dash(data, "file_index").as_str(),
    );
    let binary = match data.get("is_binary") {
        Some(j) => match j.as_bool() {
            Some(b) => if b {
                "true"
            } else {
                "false"
            },
            None => "-",
        },
        None => "-",
    };
    push_line(&mut out, "file: ", file.as_str());
    push_line(&mut out, "status: ", field_or(data, "status", "-").as_str());
    push_line(&mut out, "binary: ", binary);
    push_content(&mut out, data, "old_content");
    push_content(&mut out, data, "new_content");
    assert(out@ =~= file_text(data@));
    out
}

/// What is said of an annotation, where a value is one.
pub open spec fn annotation_line(value: JsonView) -> Option<Seq<char>> {
    match value {
        JsonView::Object(_) => Some(
            "["@ + text_or(value.text_field("id"@), "-"@) + "] "@ + text_or(
                value.text_field("file"@),
                "-"@,
            ) + ":"@ + text_or(range_text(value.field("line_range"@)), "-"@) + " (hunk "@
                + number_or_dash(value.number_field("hunk_index"@)) + ") "@ + text_or(
                value.text_field("content"@),
                ""@,
            ),
        ),
        _ => None,
    }
}

/// What is said of an annotation, where a value is one.
pub fn format_annotation_line(value: &Json) -> (r: Option<String>)
    ensures
        opt_str(r) == annotation_line(value@),
{
    if !value.is_object() {
        return None;
    }
    let mut r = concat2("[", field_or(value, "id", "-").as_str());
    r.append("] ");
    r.append(field_or(value, "file", "-").as_str());
    r.append(":");
    r.append(range_or_dash(value, "line_range").as_str());
    r.append(" (hunk ");
    r.append(number_field_or_dash(value, "hunk_index").as_str());
    r.append(") ");
    r.append(field_or(value, "content", "").as_str());
    Some(r)
}

/// The first `n` annotations, a line for each.
pub open spec fn annotation_lines(items: Seq<JsonView>, n: int) -> Seq<char>
    decreases n,
{
    if n <= 0 {
        seq![]
    } else {
        match annotation_line(items[n - 1]) {
            Some(line) => annotation_lines(items, n - 1) + ln("- "@ + line),
            None => annotation_lines(items, n - 1),
        }
    }
}

/// The text of a list of annotations.
pub open spec fn annotations_text(items: Option<Seq<JsonView>>) -> Seq<char> {
    match items {
        Some(list) => ln("annotations: "@ + decimal(list.len())) + annotation_lines(
            list,
            list.len() as int,
        ),
        None => ln("annotations: "@ + decimal(0)),
    }
}

/// Appends the text of a list of annotations.
fn push_annotations(out: &mut String, items: Option<&Vec<Json>>)
    ensures
        final(out)@ == old(out)@ + annotations_text(
            match items {
                Some(list) => Some(views(list@)),
                None => None,
            },
        ),
{
    let ghost begun = out@;
    match items {
        None => {
            push_line(out, "annotations: ", usize_text(0).as_str());
        },
        Some(list) => {
            push_line(out, "annotations: ", usize_text(list.len()).as_str());
            assert(views(list@).len() == list@.len());
            let ghost head = ln("annotations: "@ + decimal(list@.len()));
            assert(out@ =~= begun + head + annotation_lines(views(list@), 0));
            let mut i: usize = 0;
            while i < list.len()
                invariant
                    i <= list@.len(),
                    out@ == begun + head + annotation_lines(views(list@), i as int),
                decreases list@.len() - i,
            {
                let ghost lines = annotation_lines(views(list@), i as int);
                if let Some(line) = format_annotation_line(&list[i]) {
                    push_line(out, "- ", line.as_str());
                    assert(out@ =~= begun + head + (lines + ln("- "@ + line@)));
                }
                i += 1;
            }
            assert(out@ =~= begun + (head + annotation_lines(views(list@), list@.len() as int)));
        },
    }
}

/// The text of an answer about annotations.
pub fn print_text_annotations(data: &Json) -> (r: String)
    ensures
        r@ == annotations_text(data@.array_field("annotations"@)),
{
    let mut out = String::new();
    push_annotations(&mut out, data.get_array("annotations"));
    assert(out@ =~= annotations_text(data@.array_field("annotations"@)));
    out
}

/// The text of an answer about one annotation that something was done with.
pub open spec fn annotation_text(data: JsonView, action: Seq<char>) -> Seq<char> {
    match data.field("annotation"@) {
        Some(value) => match annotation_line(value) {
            Some(line) => ln("annotation "@ + action + ": "@ + line),
            None => ln("annotation "@ + action + "."@),
        },
        None => ln("annotation "@ + action + "."@),
    }
}

/// The text of an answer about one annotation that something was done with.
pub fn print_text_annotation(data: &Json, action: &str) -> (r: String)
    ensures
        r@ == annotation_text(data@, action@),
{
    let line = match data.get("annotation") {
        Some(value) => format_annotation_line(value),
        None => None,
    };
    let mut r = concat2("annotation ", action);
    match line {
        Some(line) => {
            r.append(": ");
            r.append(line.as_str());
        },
        None => {
            r.append(".");
        },
    }
    r.push('\n');
    r
}

/// The tags of an answer.
pub open spec fn answer_tags(data: JsonView) -> Seq<Seq<char>> {
    match texts_field(data, "tags"@) {
        Some(tags) => tags,
        None => seq![],
    }
}

/// The tags of an answer.
pub fn extract_tags(data: &Json) -> (r: Vec<String>)
    ensures
        strs(r@) == answer_tags(data@),
{
    match data.get_array("tags") {
        Some(items) => strings_of(items),
        None => {
            let none: Vec<String> = Vec::new();
            assert(strs(none@) == Seq::<Seq<char>>::empty());
            none
        },
    }
}

/// The first `n` texts, a line for each.
pub open spec fn dashed_lines(list: Seq<Seq<char>>, n: int) -> Seq<char>
    decreases n,
{
    if n <= 0 {
        seq![]
    } else {
        dashed_lines(list, n - 1) + ln("- "@ + list[n - 1])
    }
}

/// The text of an answer about the tags in use.
pub open spec fn tags_list_text(data: JsonView) -> Seq<char> {
    let tags = answer_tags(data);
    ln("tags: "@ + decimal(tags.len())) + if tags.len() == 0 {
        ln("- (none)"@)
    } else {
        dashed_lines(tags, tags.len() as int)
    }
}

/// The text of an answer about the tags in use.
pub fn print_text_tags_list(data: &Json) -> (r: String)
    ensures
        r@ == tags_list_text(data@),
{
    let tags = extract_tags(data);
    assert(strs(tags@).len() == tags@.len());
    let mut out = String::new();
    push_line(&mut out, "tags: ", usize_text(tags.len()).as_str());
    let ghost head = ln("tags: "@ + decimal(tags@.len()));
    assert(out@ =~= head);
    if tags.len() == 0 {
        push_line(&mut out, "- (none)", "");
        proof {
            reveal_strlit("");
        }
        assert(ln("- (none)"@ + ""@) =~= ln("- (none)"@));
    } else {
        let mut i: usize = 0;
        assert(out@ =~= head + dashed_lines(strs(tags@), 0));
        while i < tags.len()
            invariant
                i <= tags@.len(),
                out@ == head + dashed_lines(strs(tags@), i as int),
            decreases tags@.len() - i,
        {
            let ghost lines = dashed_lines(strs(tags@), i as int);
            push_line(&mut out, "- ", tags[i].as_str());
            assert(out@ =~= head + (lines + ln("- "@ + tags@[i as int]@)));
            i += 1;
        }
    }
    out
}

/// The text of an answer about the tags of a hunk.
pub open spec fn tags_text(data: JsonView) -> Seq<char> {
    let tags = answer_tags(data);
    ln(
        "file: "@ + with_number(
            text_or(data.text_field("file"@), "-"@),
            number_or_dash(data.number_field("file_index"@)),
        ),
    ) + ln("hunk: "@ + number_or_dash(data.number_field("hunk_index"@))) + ln(
        "lines: "@ + text_or(range_text(data.field("line_range"@)), "-"@),
    ) + ln(
        "tags: "@ + if tags.len() == 0 {
            "(none)"@
        } else {
            joined(tags, ", "@)
        },
    )
}

/// Appends the text of an answer about the tags of a hunk.
fn push_tags(out: &mut String, data: &Json)
    ensures
        final(out)@ == old(out)@ + tags_text(data@),
{
    let ghost begun = out@;
    let tags = extract_tags(data);
    assert(strs(tags@).len() == tags@.len());
    let file = with_number_text(
        field_or(data, "file", "-").as_str(),
        number_field_or_dash(data, "file_index").as_str(),
    );
    let list = if tags.len() == 0 {
        "(none)".to_string()
    } else {
        join_strings(&tags, ", ")
    };
    push_line(out, "file: ", file.as_str());
    push_line(out, "hunk: ", number_field_or_dash(data, "hunk_index").as_str());
    push_line(out, "lines: ", range_or_dash(data, "line_range").as_str());
    push_line(out, "tags: ", list.as_str());
    assert(out@ =~= begun + tags_text(data@));
}

/// The text of an answer about the tags of a hunk.
pub fn print_text_tags_current(data: &Json) -> (r: String)
    ensures
        r@ == tags_text(data@),
{
    let mut out = String::new();
    push_tags(&mut out, data);
    assert(out@ =~= tags_text(data@));
    out
}

/// The text of an answer about tags that something was done with.
pub fn print_text_tags_action(data: &Json, action: &str) -> (r: String)
    ensures
        r@ == ln("tags "@ + action@ + ":"@) + tags_text(data@),
{
    let mut out = concat2("tags ", action);
    out.append(":");
    out.push('\n');
    push_tags(&mut out, data);
    out
}

/// The text of an answer about the state, the focused hunk and the annotations.
pub open spec fn full_context_text(data: JsonView) -> Seq<char> {
    ln("== status =="@) + (match data.field("status"@) {
        Some(status) => status_text(status),
        None => seq![],
    }) + ln(seq![]) + ln("== current_hunk =="@) + (match data.field("current_hunk"@) {
        Some(hunk) => if hunk is Null {
            ln("none"@)
        } else {
            hunk_text(hunk)
        },
        None => seq![],
    }) + ln(seq![]) + ln("== annotations =="@) + (match data.field("annotations"@) {
        Some(JsonView::Array(items)) => annotations_text(Some(items)),
        Some(_) => annotations_text(None),
        None => seq![],
    })
}

/// The text of an answer about the state, the focused hunk and the annotations.
pub fn print_text_full_context(data: &Json) -> (r: String)
    ensures
        r@ == full_context_text(data@),
{
    proof {
        reveal_strlit("");
        assert(ln(""@ + ""@) =~= ln(seq![]));
        assert(ln("== status =="@ + ""@) =~= ln("== status =="@));
        assert(ln("== current_hunk =="@ + ""@) =~= ln("== current_hunk =="@));
        assert(ln("== annotations =="@ + ""@) =~= ln("== annotations =="@));
        assert(ln("none"@ + ""@) =~= ln("none"@));
    }
    let mut out = String::new();
    push_line(&mut out, "== status ==", "");
    if let Some(status) = data.get("status") {
        push_status(&mut out, status);
    }
    let ghost first = ln("== status =="@) + (match data@.field("status"@) {
        Some(status) => status_text(status),
        None => seq![],
    });
    assert(out@ =~= first);
    push_line(&mut out, "", "");
    push_line(&mut out, "== current_hunk ==", "");
    if let Some(hunk) = data.get("current_hunk") {
        if hunk.is_null() {
            push_line(&mut out, "none", "");
        } else {
            push_hunk(&mut out, hunk);
        }
    }
    let ghost second = first + ln(seq![]) + ln("== current_hunk =="@) + (match data@.field(
        "current_hunk"@,
    ) {
        Some(hunk) => if hunk is Null {
            ln("none"@)
        } else {
            hunk_text(hunk)
        },
        None => seq![],
    });
    assert(out@ =~= second);
    push_line(&mut out, "", "");
    push_line(&mut out, "== annotations ==", "");
    if let Some(annotations) = data.get("annotations") {
        push_annotations(&mut out, annotations.as_array());
    }
    assert(out@ =~= full_context_text(data@));
    out
}

/// What is said of a hunk in a list.
pub open spec fn hunk_line(value: JsonView) -> Seq<char> {
    text_or(value.text_field("file"@), "-"@) + ":"@ + text_or(
        range_text(value.field("line_range"@)),
        "-"@,
    ) + " (file "@ + number_or_dash(value.number_field("file_index"@)) + ", hunk "@
        + number_or_dash(value.number_field("hunk_index"@)) + ")"@
}

/// What is said of the tags of a hunk in a list.
pub open spec fn tags_line(value: JsonView) -> Seq<char> {
    text_or(value.text_field("file"@), "-"@) + " (file "@ + number_or_dash(
        value.number_field("file_index"@),
    ) + ", hunk "@ + number_or_dash(value.number_field("hunk_index"@)) + "): "@ + joined(
        answer_tags(value),
        ", "@,
    )
}

/// The first `n` entries of a list, a line for each.
pub open spec fn entry_lines(items: Seq<JsonView>, n: int, with_tags: bool) -> Seq<char>
    decreases n,
{
    if n <= 0 {
        seq![]
    } else {
        entry_lines(items, n - 1, with_tags) + ln(
            "- "@ + if with_tags {
                tags_line(items[n - 1])
            } else {
                hunk_line(items[n - 1])
            },
        )
    }
}

/// The text of an answer about hunks, or about the tags of hunks.
pub open spec fn hunks_text(data: JsonView, with_tags: bool) -> Seq<char> {
    match data.array_field("hunks"@) {
        Some(items) => ln("hunks: "@ + decimal(items.len())) + entry_lines(
            items,
            items.len() as int,
            with_tags,
        ),
        None => ln("hunks: "@ + decimal(0)),
    }
}

fn format_entry(value: &Json, with_tags: bool) -> (r: String)
    ensures
        r@ == (if with_tags {
            tags_line(value@)
        } else {
            hunk_line(value@)
        }),
{
    let mut r = field_or(value, "file", "-");
    if !with_tags {
        r.append(":");
        r.append(range_or_dash(value, "line_range").as_str());
    }
    r.append(" (file ");
    r.append(number_field_or_dash(value, "file_index").as_str());
    r.append(", hunk ");
    r.append(number_field_or_dash(value, "hunk_index").as_str());
    if with_tags {
        r.append("): ");
        r.append(join_strings(&extract_tags(value), ", ").as_str());
    } else {
        r.append(")");
    }
    r
}

/// The text of an answer about hunks, or about the tags of hunks.
pub fn print_text_hunks(data: &Json, with_tags: bool) -> (r: String)
    ensures
        r@ == hunks_text(data@, with_tags),
{
    let mut out = String::new();
    match data.get_array("hunks") {
        None => {
            push_line(&mut out, "hunks: ", usize_text(0).as_str());
            assert(out@ =~= ln("hunks: "@ + decimal(0)));
        },
        Some(items) => {
            push_line(&mut out, "hunks: ", usize_text(items.len()).as_str());
            assert(views(items@).len() == items@.len());
            let ghost head = ln("hunks: "@ + decimal(items@.len()));
            assert(out@ =~= head + entry_lines(views(items@), 0, with_tags));
            let mut i: usize = 0;
            while i < items.len()
                invariant
                    i <= items@.len(),
                    out@ == head + entry_lines(views(items@), i as int, with_tags),
                decreases items@.len() - i,
            {
                let ghost lines = entry_lines(views(items@), i as int, with_tags);
                let line = format_entry(&items[i], with_tags);
                push_line(&mut out, "- ", line.as_str());
                assert(out@ =~= head + (lines + ln("- "@ + line@)));
                i += 1;
            }
        },
    }
    out
}

// ---------------------------------------------------------------------------
// Requests
// ---------------------------------------------------------------------------
/// A command of the client.
#[derive(Debug)]
pub enum CliCommand {
    Status,
    CurrentHunk,
    CurrentFile,
    Annotations { current: bool },
    Annotate { text: String, target: Target },
    Update { id: String, text: String },
    Delete { id: String },
    FullContext,
    Ping,
    TagList,
    TagCurrent,
    TagSet { tags: Vec<String>, target: Target },
    TagAdd { tag: String, target: Target },
    TagRemove { tag: String, target: Target },
    TagClear { target: Target },
    Hunks { current: bool },
    Hunk { file_index: usize, hunk_index: usize },
    Tags { current: bool },
}

/// What an answer is about.
#[derive(Debug, Clone, Copy, PartialEq, Eq, Structural)]
pub enum OutputKind {
    Status,
    CurrentHunk,
    CurrentFile,
    Annotations,
    AnnotationCreated,
    AnnotationUpdated,
    AnnotationDeleted,
    TagsList,
    TagsCurrent,
    TagsUpdated,
    TagsCleared,
    FullContext,
    Hunks,
    HunkTags,
}

/// What an answer to a command is about.
pub open spec fn kind_of(command: CliCommand) -> OutputKind {
    match command {
        CliCommand::Status => OutputKind::Status,
        CliCommand::CurrentHunk => OutputKind::CurrentHunk,
        CliCommand::CurrentFile => OutputKind::CurrentFile,
        CliCommand::Annotations { current: _ } => OutputKind::Annotations,
        CliCommand::Annotate { text: _, target: _ } => OutputKind::AnnotationCreated,
        CliCommand::Update { id: _, text: _ } => OutputKind::AnnotationUpdated,
        CliCommand::Delete { id: _ } => OutputKind::AnnotationDeleted,
        CliCommand::FullContext => OutputKind::FullContext,
        CliCommand::Ping => OutputKind::Status,
        CliCommand::TagList => OutputKind::TagsList,
        CliCommand::TagCurrent => OutputKind::TagsCurrent,
        CliCommand::TagSet { tags: _, target: _ } => OutputKind::TagsUpdated,
        CliCommand::TagAdd { tag: _, target: _ } => OutputKind::TagsUpdated,
        CliCommand::TagRemove { tag: _, target: _ } => OutputKind::TagsUpdated,
        CliCommand::TagClear { target: _ } => OutputKind::TagsCleared,
        CliCommand::Hunks { current: _ } => OutputKind::Hunks,
        CliCommand::Hunk { file_index: _, hunk_index: _ } => OutputKind::CurrentHunk,
        CliCommand::Tags { current: _ } => OutputKind::HunkTags,
    }
}

/// The method and the path of the request that a command makes.
pub open spec fn endpoint_of(command: CliCommand) -> (Method, Seq<char>) {
    match command {
        CliCommand::Status => (Method::Get, "/status"@),
        CliCommand::CurrentHunk => (Method::Get, "/current-hunk"@),
        CliCommand::CurrentFile => (Method::Get, "/current-file"@),
        CliCommand::Annotations { current } => (
            Method::Get,
            if current {
                "/annotations/current"@
            } else {
                "/annotations"@
            },
        ),
        CliCommand::Annotate { text: _, target: _ } => (Method::Post, "/annotation/create"@),
        CliCommand::Update { id: _, text: _ } => (Method::Post, "/annotation/update"@),
        CliCommand::Delete { id: _ } => (Method::Post, "/annotation/delete"@),
        CliCommand::FullContext => (Method::Get, "/full-context"@),
        CliCommand::Ping => (Method::Get, "/status"@),
        CliCommand::TagList => (Method::Get, "/tags"@),
        CliCommand::TagCurrent => (Method::Get, "/tags/current"@),
        CliCommand::TagSet { tags: _, target: _ } => (Method::Post, "/tags/set"@),
        CliCommand::TagAdd { tag: _, target: _ } => (Method::Post, "/tags/set"@),
        CliCommand::TagRemove { tag: _, target: _ } => (Method::Post, "/tags/set"@),
        CliCommand::TagClear { target: _ } => (Method::Post, "/tags/set"@),
        CliCommand::Hunks { current } => (
            Method::Get,
            if current {
                "/hunks/current"@
            } else {
                "/hunks"@
            },
        ),
        CliCommand::Hunk { file_index: _, hunk_index: _ } => (Method::Post, "/hunk"@),
        CliCommand::Tags { current } => (
            Method::Get,
            if current {
                "/tags/hunks/current"@
            } else {
                "/tags/hunks"@
            },
        ),
    }
}

/// Fields with those that name a hunk, where one is named.
pub open spec fn with_target(fields: Map<Seq<char>, JsonView>, target: Target) -> Map<
    Seq<char>,
    JsonView,
> {
    match target {
        Some((file, hunk)) => fields.insert(
            "file_index"@,
            JsonView::Unsigned(file as u64),
        ).insert("hunk_index"@, JsonView::Unsigned(hunk as u64)),
        None => fields,
    }
}

/// The tags with one more, where it is not among them.
pub open spec fn tags_with(tags: Seq<Seq<char>>, tag: Seq<char>) -> Seq<Seq<char>> {
    if tags.contains(tag) {
        tags
    } else {
        tags.push(tag)
    }
}

/// A tag that is another.
pub open spec fn is_other_tag(tag: Seq<char>) -> spec_fn(Seq<char>) -> bool {
    |t: Seq<char>| t != tag
}

/// The tags that a command asks for, from those that the hunk has.
pub open spec fn requested_tags(command: CliCommand, current: Seq<Seq<char>>) -> Option<
    Seq<Seq<char>>,
> {
    match command {
        CliCommand::TagSet { tags, target: _ } => Some(normalized(strs(tags@))),
        CliCommand::TagAdd { tag, target: _ } => Some(normalized(tags_with(current, tag@))),
        CliCommand::TagRemove { tag, target: _ } => Some(
            normalized(kept(current, is_other_tag(tag@))),
        ),
        CliCommand::TagClear { target: _ } => Some(seq![]),
        _ => None,
    }
}

/// The hunk that a command names.
pub open spec fn command_target(command: CliCommand) -> Target {
    match command {
        CliCommand::Annotate { text: _, target } => target,
        CliCommand::TagSet { tags: _, target } => target,
        CliCommand::TagAdd { tag: _, target } => target,
        CliCommand::TagRemove { tag: _, target } => target,
        CliCommand::TagClear { target } => target,
        CliCommand::Hunk { file_index, hunk_index } => Some((file_index, hunk_index)),
        _ => None,
    }
}

/// The body of the request that a command makes, where it has one.
pub open spec fn payload_of(command: CliCommand, current: Seq<Seq<char>>) -> Option<JsonView> {
    let none = Map::<Seq<char>, JsonView>::empty();
    let target = command_target(command);
    match command {
        CliCommand::Annotate { text, target: _ } => Some(
            JsonView::Object(with_target(none.insert("content"@, JsonView::Text(text@)), target)),
        ),
        CliCommand::Update { id, text } => Some(
            JsonView::Object(
                none.insert("id"@, JsonView::Text(id@)).insert("content"@, JsonView::Text(text@)),
            ),
        ),
        CliCommand::Delete { id } => Some(
            JsonView::Object(none.insert("id"@, JsonView::Text(id@))),
        ),
        CliCommand::Hunk { file_index: _, hunk_index: _ } => Some(
            JsonView::Object(with_target(none, target)),
        ),
        _ => match requested_tags(command, current) {
            Some(tags) => Some(
                JsonView::Object(with_target(none.insert("tags"@, texts_view(tags)), target)),
            ),
            None => None,
        },
    }
}

/// Whether a command needs the tags that the hunk has.
pub open spec fn reads_tags(command: CliCommand) -> bool {
    command is TagAdd || command is TagRemove
}

/// Whether a command needs the tags that the hunk has.
pub fn needs_current_tags(command: &CliCommand) -> (r: bool)
    ensures
        r == reads_tags(*command),
{
    match command {
        CliCommand::TagAdd { tag: _, target: _ } => true,
        CliCommand::TagRemove { tag: _, target: _ } => true,
        _ => false,
    }
}

/// The hunk that a command names.
pub fn target_of_command(command: &CliCommand) -> (r: Target)
    ensures
        r == command_target(*command),
{
    match command {
        CliCommand::Annotate { text: _, target } => *target,
        CliCommand::TagSet { tags: _, target } => *target,
        CliCommand::TagAdd { tag: _, target } => *target,
        CliCommand::TagRemove { tag: _, target } => *target,
        CliCommand::TagClear { target } => *target,
        CliCommand::Hunk { file_index, hunk_index } => Some((*file_index, *hunk_index)),
        _ => None,
    }
}

/// What an answer to a command is about.
pub fn output_kind(command: &CliCommand) -> (r: OutputKind)
    ensures
        r == kind_of(*command),
{
    match command {
        CliCommand::Status => OutputKind::Status,
        CliCommand::CurrentHunk => OutputKind::CurrentHunk,
        CliCommand::CurrentFile => OutputKind::CurrentFile,
        CliCommand::Annotations { current: _ } => OutputKind::Annotations,
        CliCommand::Annotate { text: _, target: _ } => OutputKind::AnnotationCreated,
        CliCommand::Update { id: _, text: _ } => OutputKind::AnnotationUpdated,
        CliCommand::Delete { id: _ } => OutputKind::AnnotationDeleted,
        CliCommand::FullContext => OutputKind::FullContext,
        CliCommand::Ping => OutputKind::Status,
        CliCommand::TagList => OutputKind::TagsList,
        CliCommand::TagCurrent => OutputKind::TagsCurrent,
        CliCommand::TagSet { tags: _, target: _ } => OutputKind::TagsUpdated,
        CliCommand::TagAdd { tag: _, target: _ } => OutputKind::TagsUpdated,
        CliCommand::TagRemove { tag: _, target: _ } => OutputKind::TagsUpdated,
        CliCommand::TagClear { target: _ } => OutputKind::TagsCleared,
        CliCommand::Hunks { current: _ } => OutputKind::Hunks,
        CliCommand::Hunk { file_index: _, hunk_index: _ } => OutputKind::CurrentHunk,
        CliCommand::Tags { current: _ } => OutputKind::HunkTags,
    }
}

/// The method and the path of the request that a command makes.
pub fn endpoint(command: &CliCommand) -> (r: (Method, &'static str))
    ensures
        (r.0, r.1@) == endpoint_of(*command),
{
    match command {
        CliCommand::Status => (Method::Get, "/status"),
        CliCommand::CurrentHunk => (Method::Get, "/current-hunk"),
        CliCommand::CurrentFile => (Method::Get, "/current-file"),
        CliCommand::Annotations { current } => if *current {
            (Method::Get, "/annotations/current")
        } else {
            (Method::Get, "/annotations")
        },
        CliCommand::Annotate { text: _, target: _ } => (Method::Post, "/annotation/create"),
        CliCommand::Update { id: _, text: _ } => (Method::Post, "/annotation/update"),
        CliCommand::Delete { id: _ } => (Method::Post, "/annotation/delete"),
        CliCommand::FullContext => (Method::Get, "/full-context"),
        CliCommand::Ping => (Method::Get, "/status"),
        CliCommand::TagList => (Method::Get, "/tags"),
        CliCommand::TagCurrent => (Method::Get, "/tags/current"),
        CliCommand::TagSet { tags: _, target: _ } => (Method::Post, "/tags/set"),
        CliCommand::TagAdd { tag: _, target: _ } => (Method::Post, "/tags/set"),
        CliCommand::TagRemove { tag: _, target: _ } => (Method::Post, "/tags/set"),
        CliCommand::TagClear { target: _ } => (Method::Post, "/tags/set"),
        CliCommand::Hunks { current } => if *current {
            (Method::Get, "/hunks/current")
        } else {
            (Method::Get, "/hunks")
        },
        CliCommand::Hunk { file_index: _, hunk_index: _ } => (Method::Post, "/hunk"),
        CliCommand::Tags { current } => if *current {
            (Method::Get, "/tags/hunks/current")
        } else {
            (Method::Get, "/tags/hunks")
        },
    }
}

fn add_target(fields: Fields, target: Target) -> (r: Fields)
    ensures
        r.map() == with_target(fields.map(), target),
{
    match target {
        Some((file, hunk)) => fields.with("file_index", json_number(file)).with(
            "hunk_index",
            json_number(hunk),
        ),
        None => fields,
    }
}

/// The tags that a command asks for, from those that the hunk has.
fn find_requested_tags(command: &CliCommand, current: &Vec<String>) -> (r: Option<Vec<String>>)
    ensures
        match r {
            Some(tags) => requested_tags(*command, strs(current@)) == Some(strs(tags@)),
            None => requested_tags(*command, strs(current@)) is None,
        },
{
    match command {
        CliCommand::TagSet { tags, target: _ } => {
            let given = tags.clone();
            assert(strs(given@) =~= strs(tags@));
            Some(normalize_tags(given))
        },
        CliCommand::TagAdd { tag, target: _ } => {
            let mut tags = current.clone();
            assert(strs(tags@) =~= strs(current@));
            if !has_line(current, tag) {
                tags.push(tag.clone());
                assert(strs(tags@) =~= strs(current@).push(tag@));
            }
            Some(normalize_tags(tags))
        },
        CliCommand::TagRemove { tag, target: _ } => {
            let mut tags = current.clone();
            assert(strs(tags@) =~= strs(current@));
            assert(views(tags@) =~= strs(tags@));
            let test = |t: &String| -> (b: bool)
                ensures
                    b == is_other_tag(tag@)(t@),
            {
                *t != *tag
            };
            retain_view(&mut tags, test, Ghost(is_other_tag(tag@)));
            assert(strs(tags@) =~= views(tags@));
            Some(normalize_tags(tags))
        },
        CliCommand::TagClear { target: _ } => {
            let none: Vec<String> = Vec::new();
            assert(strs(none@) =~= Seq::<Seq<char>>::empty());
            Some(none)
        },
        _ => None,
    }
}

/// The body of the request that a command makes, where it has one, from the tags that the
/// hunk has.
pub fn payload(command: &CliCommand, current: &Vec<String>) -> (r: Option<Json>)
    ensures
        match r {
            Some(j) => payload_of(*command, strs(current@)) == Some(j@) && writable(j@),
            None => payload_of(*command, strs(current@)) is None,
        },
{
    proof {
        payloads_can_be_written_out(*command, strs(current@));
    }
    let target = target_of_command(command);
    match command {
        CliCommand::Annotate { text, target: _ } => Some(
            add_target(
                Fields::new().with("content", json_string(text.as_str())),
                target,
            ).done(),
        ),
        CliCommand::Update { id, text } => Some(
            Fields::new().with("id", json_string(id.as_str())).with(
                "content",
                json_string(text.as_str()),
            ).done(),
        ),
        CliCommand::Delete { id } => Some(
            Fields::new().with("id", json_string(id.as_str())).done(),
        ),
        CliCommand::Hunk { file_index: _, hunk_index: _ } => Some(
            add_target(Fields::new(), target).done(),
        ),
        _ => match find_requested_tags(command, current) {
            Some(tags) => Some(
                add_target(Fields::new().with("tags", json_strings(&tags)), target).done(),
            ),
            None => None,
        },
    }
}

/// The text of the body of the request that a command makes, where it has one. The viewer
/// reads from it what the command asks for.
pub fn body_text(command: &CliCommand, current: &Vec<String>) -> (r: Option<String>)
    ensures
        opt_str(r) == (match payload_of(*command, strs(current@)) {
            Some(j) => Some(json_text(j)),
            None => None,
        }),
        r matches Some(text) ==> command_of(
            route_of(endpoint_of(*command).0, endpoint_of(*command).1),
            Some(text@),
        ) == Ok::<CommandView, ResponseView>(asked_command(*command, strs(current@))),
{
    proof {
        requests_are_understood(*command, strs(current@));
    }
    match payload(command, current) {
        Some(j) => Some(print_json(&j)),
        None => None,
    }
}

/// The text that is shown of an answer.
pub open spec fn shown_text(kind: OutputKind, data: JsonView) -> Seq<char> {
    match kind {
        OutputKind::Status => status_text(data),
        OutputKind::CurrentHunk => hunk_text(data),
        OutputKind::CurrentFile => file_text(data),
        OutputKind::Annotations => annotations_text(data.array_field("annotations"@)),
        OutputKind::AnnotationCreated => annotation_text(data, "created"@),
        OutputKind::AnnotationUpdated => annotation_text(data, "updated"@),
        OutputKind::AnnotationDeleted => annotation_text(data, "deleted"@),
        OutputKind::TagsList => tags_list_text(data),
        OutputKind::TagsCurrent => tags_text(data),
        OutputKind::TagsUpdated => ln("tags "@ + "updated"@ + ":"@) + tags_text(data),
        OutputKind::TagsCleared => ln("tags "@ + "cleared"@ + ":"@) + tags_text(data),
        OutputKind::FullContext => full_context_text(data),
        OutputKind::Hunks => hunks_text(data, false),
        OutputKind::HunkTags => hunks_text(data, true),
    }
}

/// The text that is shown of an answer.
pub fn answer_text(kind: OutputKind, data: &Json) -> (r: String)
    ensures
        r@ == shown_text(kind, data@),
{
    match kind {
        OutputKind::Status => print_text_status(data),
        OutputKind::CurrentHunk => print_text_current_hunk(data),
        OutputKind::CurrentFile => print_text_current_file(data),
        OutputKind::Annotations => print_text_annotations(data),
        OutputKind::AnnotationCreated => print_text_annotation(data, "created"),
        OutputKind::AnnotationUpdated => print_text_annotation(data, "updated"),
        OutputKind::AnnotationDeleted => print_text_annotation(data, "deleted"),
        OutputKind::TagsList => print_text_tags_list(data),
        OutputKind::TagsCurrent => print_text_tags_current(data),
        OutputKind::TagsUpdated => print_text_tags_action(data, "updated"),
        OutputKind::TagsCleared => print_text_tags_action(data, "cleared"),
        OutputKind::FullContext => print_text_full_context(data),
        OutputKind::Hunks => print_text_hunks(data, false),
        OutputKind::HunkTags => print_text_hunks(data, true),
    }
}

/// The text of one field of an answer, as a line; an empty line where it is none.
pub fn content_text(data: &Json, name: &str) -> (r: String)
    ensures
        r@ == ln(text_or(data@.text_field(name@), ""@)),
        data@.field(name@) matches Some(JsonView::Text(t)) ==> r@ == t.push('\n'),
        !(data@.field(name@) matches Some(JsonView::Text(_))) ==> r@ == seq!['\n'],
{
    proof {
        reveal_strlit("");
        assert(""@.push('\n') =~= seq!['\n']);
    }
    let mut r = field_or(data, name, "");
    r.push('\n');
    r
}

/// An entry of a list that is about a hunk.
pub open spec fn is_about(file: usize, hunk: usize) -> spec_fn(JsonView) -> bool {
    |e: JsonView|
        e.number_field("file_index"@) == Some(file as u64) && e.number_field("hunk_index"@) == Some(
            hunk as u64,
        )
}

/// The tags that a list of the tags of hunks gives for one.
pub open spec fn listed_tags(data: JsonView, file: usize, hunk: usize) -> Seq<Seq<char>> {
    match data.array_field("hunks"@) {
        Some(items) => match first_where(items, 0, is_about(file, hunk)) {
            Some(i) => answer_tags(items[i]),
            None => seq![],
        },
        None => seq![],
    }
}

/// The tags that a list of the tags of hunks gives for one.
pub fn tags_of_hunk(data: &Json, file: usize, hunk: usize) -> (r: Vec<String>)
    ensures
        strs(r@) == listed_tags(data@, file, hunk),
{
    if let Some(items) = data.get_array("hunks") {
        let test = |e: &Json| -> (b: bool)
            ensures
                b == is_about(file, hunk)(e@),
        {
            let (f, h) = (e.get_u64("file_index"), e.get_u64("hunk_index"));
            match (f, h) {
                (Some(f), Some(h)) => f == file as u64 && h == hunk as u64,
                _ => false,
            }
        };
        let found = find_first_view(items, test, Ghost(is_about(file, hunk)));
        if let Some(i) = found {
            return extract_tags(&items[i]);
        }
    }
    let none: Vec<String> = Vec::new();
    assert(strs(none@) =~= Seq::<Seq<char>>::empty());
    none
}

// ---------------------------------------------------------------------------
// Laws
// ---------------------------------------------------------------------------
/// The body of every request can be written out.
pub proof fn payloads_can_be_written_out(command: CliCommand, current: Seq<Seq<char>>)
    ensures
        payload_of(command, current) matches Some(j) ==> writable(j),
{
    broadcast use group_plain_fields;

    if let Some(tags) = requested_tags(command, current) {
        ranges_and_texts_are_plain(None, (0, 0), tags, 126);
    }
}

/// What the viewer is asked to do by a command.
pub open spec fn asked_command(command: CliCommand, current: Seq<Seq<char>>) -> CommandView {
    match command {
        CliCommand::Status => CommandView::Status,
        CliCommand::CurrentHunk => CommandView::CurrentHunk,
        CliCommand::CurrentFile => CommandView::CurrentFile,
        CliCommand::Annotations { current } => CommandView::Annotations(current),
        CliCommand::Annotate { text, target } => CommandView::CreateAnnotation(text@, target),
        CliCommand::Update { id, text } => CommandView::UpdateAnnotation(id@, text@),
        CliCommand::Delete { id } => CommandView::DeleteAnnotation(id@),
        CliCommand::FullContext => CommandView::FullContext,
        CliCommand::Ping => CommandView::Status,
        CliCommand::TagList => CommandView::TagsList,
        CliCommand::TagCurrent => CommandView::TagsCurrent,
        CliCommand::Hunks { current } => CommandView::Hunks(current),
        CliCommand::Hunk { file_index, hunk_index } => CommandView::Hunk(file_index, hunk_index),
        CliCommand::Tags { current } => CommandView::HunkTags(current),
        _ => CommandView::TagsSet(
            requested_tags(command, current)->0,
            command_target(command),
        ),
    }
}

proof fn lemma_texts_of_texts(list: Seq<Seq<char>>, n: int)
    requires
        0 <= n <= list.len(),
    ensures
        texts_of(texts_view(list)->Array_0, n) == list.take(n),
    decreases n,
{
    if n > 0 {
        lemma_texts_of_texts(list, n - 1);
        assert(list.take(n) =~= list.take(n - 1).push(list[n - 1]));
    } else {
        assert(list.take(0) =~= seq![]);
    }
}

proof fn lemma_get_routes()
    ensures
        route_of(Method::Get, "/status"@) == Route::Status,
        route_of(Method::Get, "/current-hunk"@) == Route::CurrentHunk,
        route_of(Method::Get, "/current-file"@) == Route::CurrentFile,
        route_of(Method::Get, "/full-context"@) == Route::FullContext,
        route_of(Method::Get, "/annotations"@) == Route::Annotations,
        route_of(Method::Get, "/annotations/current"@) == Route::CurrentAnnotations,
        route_of(Method::Get, "/tags"@) == Route::Tags,
        route_of(Method::Get, "/tags/current"@) == Route::CurrentTags,
        route_of(Method::Get, "/hunks"@) == Route::Hunks,
        route_of(Method::Get, "/hunks/current"@) == Route::CurrentFileHunks,
        route_of(Method::Get, "/tags/hunks"@) == Route::HunkTags,
        route_of(Method::Get, "/tags/hunks/current"@) == Route::CurrentFileHunkTags,
{
    reveal_strlit("/status");
    reveal_strlit("/current-hunk");
    reveal_strlit("/current-file");
    reveal_strlit("/full-context");
    reveal_strlit("/annotations");
    reveal_strlit("/annotations/current");
    reveal_strlit("/tags");
    reveal_strlit("/tags/current");
    reveal_strlit("/hunks");
    reveal_strlit("/hunks/current");
    reveal_strlit("/tags/hunks");
    reveal_strlit("/tags/hunks/current");
    assert("/current-hunk"@[9] == 'h' && "/current-file"@[9] == 'f');
    assert("/full-context"@[1] == 'f' && "/current-file"@[1] == 'c' && "/current-hunk"@[1] == 'c');
    assert("/tags/current"@[1] == 't');
    assert("/annotations"@[1] == 'a' && "/tags/hunks"@[1] == 't');
    assert("/status"@.len() == 7);
    assert("/current-hunk"@.len() == 13);
    assert("/current-file"@.len() == 13);
    assert("/full-context"@.len() == 13);
    assert("/annotations"@.len() == 12);
    assert("/annotations/current"@.len() == 20);
    assert("/tags"@.len() == 5);
    assert("/tags/current"@.len() == 13);
    assert("/hunks"@.len() == 6);
    assert("/hunks/current"@.len() == 14);
    assert("/tags/hunks"@.len() == 11);
    assert("/tags/hunks/current"@.len() == 19);
}

proof fn lemma_post_routes()
    ensures
        route_of(Method::Post, "/annotation/create"@) == Route::Create,
        route_of(Method::Post, "/annotation/update"@) == Route::Update,
        route_of(Method::Post, "/annotation/delete"@) == Route::Delete,
        route_of(Method::Post, "/tags/set"@) == Route::SetTags,
        route_of(Method::Post, "/hunk"@) == Route::Hunk,
{
    reveal_strlit("/annotation/create");
    reveal_strlit("/annotation/update");
    reveal_strlit("/annotation/delete");
    reveal_strlit("/tags/set");
    reveal_strlit("/hunk");
    assert("/annotation/create"@[12] == 'c');
    assert("/annotation/update"@[12] == 'u');
    assert("/annotation/delete"@[12] == 'd');
    assert("/annotation/create"@.len() == 18);
    assert("/annotation/update"@.len() == 18);
    assert("/annotation/delete"@.len() == 18);
    assert("/tags/set"@.len() == 9);
    assert("/hunk"@.len() == 5);
}

proof fn lemma_field_names()
    ensures
        "content"@ != "file_index"@,
        "content"@ != "hunk_index"@,
        "tags"@ != "file_index"@,
        "tags"@ != "hunk_index"@,
        "file_index"@ != "hunk_index"@,
        "id"@ != "content"@,
{
    reveal_strlit("content");
    reveal_strlit("file_index");
    reveal_strlit("hunk_index");
    reveal_strlit("tags");
    reveal_strlit("id");
    assert("file_index"@[0] == 'f' && "hunk_index"@[0] == 'h');
    assert("content"@.len() == 7);
    assert("file_index"@.len() == 10);
    assert("hunk_index"@.len() == 10);
    assert("tags"@.len() == 4);
    assert("id"@.len() == 2);
}

/// Every request that the client makes is understood by the viewer as what the command
/// asks for, once its body has arrived.
pub proof fn requests_are_understood(command: CliCommand, current: Seq<Seq<char>>)
    ensures
        ({
            let (method, path) = endpoint_of(command);
            let route = route_of(method, path);
            match payload_of(command, current) {
                Some(body) => reads_body(route) && command_with_payload(route, body) == Ok::<
                    CommandView,
                    ResponseView,
                >(asked_command(command, current)),
                None => !reads_body(route) && command_of(route, None) == Ok::<
                    CommandView,
                    ResponseView,
                >(asked_command(command, current)),
            }
        }),
{
    lemma_get_routes();
    lemma_post_routes();
    lemma_field_names();
    if let Some(tags) = requested_tags(command, current) {
        lemma_texts_of_texts(tags, tags.len() as int);
        assert(tags.take(tags.len() as int) =~= tags);
    }
}

} // verus!
