use lumen::api::{find_route, parse_request, ApiCommand, Method, Route};
use lumen::cli::{
    answer_text, body_text, content_text, endpoint, extract_tags, format_annotation_line,
    format_range, format_scope, needs_current_tags, output_kind, payload, tags_of_hunk,
    target_of_command, CliCommand, OutputKind,
};
use lumen::json::{parse_json, Json};

fn json(text: &str) -> Json {
    parse_json(text).unwrap()
}

fn strings(list: &[&str]) -> Vec<String> {
    list.iter().map(|s| s.to_string()).collect()
}

fn body(command: &CliCommand, current: &[&str]) -> String {
    body_text(command, &strings(current)).unwrap()
}

#[test]
fn endpoints_of_commands() {
    assert_eq!(endpoint(&CliCommand::Status), (Method::Get, "/status"));
    assert_eq!(endpoint(&CliCommand::Ping), (Method::Get, "/status"));
    assert_eq!(
        endpoint(&CliCommand::Annotations { current: true }),
        (Method::Get, "/annotations/current")
    );
    assert_eq!(
        endpoint(&CliCommand::TagClear { target: None }),
        (Method::Post, "/tags/set")
    );
    assert_eq!(endpoint(&CliCommand::Tags { current: false }), (Method::Get, "/tags/hunks"));
}

#[test]
fn bodies_of_requests() {
    let annotate = CliCommand::Annotate { text: "hi".to_string(), target: Some((2, 5)) };
    assert_eq!(body(&annotate, &[]), "{\"content\":\"hi\",\"file_index\":2,\"hunk_index\":5}");
    let update = CliCommand::Update { id: "i".to_string(), text: "t".to_string() };
    assert_eq!(body(&update, &[]), "{\"content\":\"t\",\"id\":\"i\"}");
    let delete = CliCommand::Delete { id: "i".to_string() };
    assert_eq!(body(&delete, &[]), "{\"id\":\"i\"}");
    let set = CliCommand::TagSet { tags: strings(&["b ", "a", "b"]), target: None };
    assert_eq!(body(&set, &["ignored"]), "{\"tags\":[\"a\",\"b\"]}");
    let add = CliCommand::TagAdd { tag: "m".to_string(), target: None };
    assert!(needs_current_tags(&add));
    assert_eq!(body(&add, &["z", "a"]), "{\"tags\":[\"a\",\"m\",\"z\"]}");
    assert_eq!(body(&add, &["m"]), "{\"tags\":[\"m\"]}");
    let remove = CliCommand::TagRemove { tag: "a".to_string(), target: Some((0, 1)) };
    assert_eq!(target_of_command(&remove), Some((0, 1)));
    assert_eq!(
        body(&remove, &["a", "b"]),
        "{\"file_index\":0,\"hunk_index\":1,\"tags\":[\"b\"]}"
    );
    assert_eq!(body(&CliCommand::TagClear { target: None }, &["a"]), "{\"tags\":[]}");
    let hunk = CliCommand::Hunk { file_index: 1, hunk_index: 2 };
    assert_eq!(body(&hunk, &[]), "{\"file_index\":1,\"hunk_index\":2}");
    assert!(payload(&CliCommand::Status, &Vec::new()).is_none());
    assert!(!needs_current_tags(&set));
}

#[test]
fn requests_are_understood_by_the_viewer() {
    let add = CliCommand::TagAdd { tag: "m".to_string(), target: Some((3, 4)) };
    let (method, path) = endpoint(&add);
    let route = find_route(method, path);
    assert_eq!(route, Route::SetTags);
    match parse_request(route, body_text(&add, &strings(&["k"]))) {
        Ok(ApiCommand::TagsSet { tags, target }) => {
            assert_eq!(tags, strings(&["k", "m"]));
            assert_eq!(target, Some((3, 4)));
        }
        other => panic!("{:?}", other),
    }
}

#[test]
fn text_of_the_status() {
    let data = json(
        "{\"cwd\":\"/w\",\"scope\":{\"type\":\"working_tree\",\"vcs\":\"git\",\
\"base_commit_id\":\"b\",\"diff_reference\":\"HEAD\"},\"current_file\":\"a.rs\",\
\"current_file_index\":3,\"focused_hunk\":null,\"hunk_count\":2,\"annotations_count\":1}",
    );
    assert_eq!(
        answer_text(OutputKind::Status, &data),
        "cwd: /w\nscope: working_tree vcs=git base_commit_id=b diff_reference=HEAD\n\
current_file: a.rs (3)\nfocused_hunk: -\nhunk_count: 2\nannotations_count: 1\n"
    );
    assert_eq!(
        answer_text(OutputKind::Status, &json("{}")),
        "cwd: -\nscope: unknown\ncurrent_file: - (-)\nfocused_hunk: -\nhunk_count: -\n\
annotations_count: -\n"
    );
}

#[test]
fn texts_of_scopes() {
    assert_eq!(format_scope(None), "unknown");
    assert_eq!(format_scope(Some(&json("[]"))), "unknown");
    assert_eq!(format_scope(Some(&json("{}"))), "unknown vcs=unknown");
    assert_eq!(
        format_scope(Some(&json("{\"type\":\"commit\",\"commit_id\":\"c\",\"vcs\":\"jj\"}"))),
        "commit vcs=jj commit_id=c"
    );
    assert_eq!(
        format_scope(Some(&json("{\"type\":\"commit\",\"base_commit_id\":\"c\"}"))),
        "commit vcs=unknown"
    );
}

#[test]
fn text_of_a_hunk() {
    let data = json(
        "{\"file\":\"a.rs\",\"file_index\":1,\"hunk_index\":0,\"line_range\":[4,6],\
\"old_line_range\":null,\"new_line_range\":[4,6],\"change_type\":\"addition\",\
\"diff_text\":\"+ x\\n\",\"context_before\":[],\"context_changed\":[\"+ x\",3],\
\"context_after\":[\"end\"],\"annotation\":{\"id\":\"i\",\"content\":\"c\"}}",
    );
    assert_eq!(
        answer_text(OutputKind::CurrentHunk, &data),
        "file: a.rs (1)\nhunk: 0\nlines: 4-6\nnew_lines: 4-6\nchange: addition\n\ndiff:\n+ x\n\n\
\ncontext_changed:\n+ x\n\ncontext_after:\nend\n\nannotation: i c\n"
    );
    assert_eq!(
        answer_text(OutputKind::CurrentHunk, &json("{}")),
        "file: - (-)\nhunk: -\nlines: -\nchange: -\n\nannotation: none\n"
    );
}

#[test]
fn text_of_a_file() {
    let data = json(
        "{\"file\":\"a\",\"file_index\":0,\"status\":\"added\",\"is_binary\":false,\
\"old_content\":\"\",\"new_content\":\"n\"}",
    );
    assert_eq!(
        answer_text(OutputKind::CurrentFile, &data),
        "file: a (0)\nstatus: added\nbinary: false\n\nnew_content:\nn\n"
    );
    assert_eq!(content_text(&data, "new_content"), "n\n");
    assert_eq!(content_text(&data, "missing"), "\n");
}

#[test]
fn texts_of_annotations() {
    let one = "{\"id\":\"i\",\"file\":\"f\",\"hunk_index\":2,\"line_range\":[1,3],\"content\":\"c\"}";
    let data = json(&format!("{{\"annotations\":[{},7,{{}}],\"annotation\":{}}}", one, one));
    assert_eq!(
        answer_text(OutputKind::Annotations, &data),
        "annotations: 3\n- [i] f:1-3 (hunk 2) c\n- [-] -:- (hunk -) \n"
    );
    assert_eq!(answer_text(OutputKind::Annotations, &json("{}")), "annotations: 0\n");
    assert_eq!(
        answer_text(OutputKind::AnnotationCreated, &data),
        "annotation created: [i] f:1-3 (hunk 2) c\n"
    );
    assert_eq!(answer_text(OutputKind::AnnotationDeleted, &json("{}")), "annotation deleted.\n");
    assert_eq!(
        answer_text(OutputKind::AnnotationUpdated, &json("{\"annotation\":null}")),
        "annotation updated.\n"
    );
    assert!(format_annotation_line(&json("5")).is_none());
}

#[test]
fn texts_of_tags() {
    let data = json(
        "{\"file\":\"f\",\"file_index\":1,\"hunk_index\":2,\"line_range\":[1,3],\
\"tags\":[\"a\",4,\"b\"]}",
    );
    assert_eq!(extract_tags(&data), strings(&["a", "b"]));
    assert_eq!(answer_text(OutputKind::TagsList, &data), "tags: 2\n- a\n- b\n");
    assert_eq!(answer_text(OutputKind::TagsList, &json("{}")), "tags: 0\n- (none)\n");
    assert_eq!(
        answer_text(OutputKind::TagsCurrent, &data),
        "file: f (1)\nhunk: 2\nlines: 1-3\ntags: a, b\n"
    );
    assert_eq!(
        answer_text(OutputKind::TagsCleared, &json("{\"tags\":[]}")),
        "tags cleared:\nfile: - (-)\nhunk: -\nlines: -\ntags: (none)\n"
    );
    assert!(answer_text(OutputKind::TagsUpdated, &data).starts_with("tags updated:\nfile: f"));
}

#[test]
fn text_of_the_full_context() {
    let data = json("{\"status\":{},\"current_hunk\":null,\"annotations\":[]}");
    assert_eq!(
        answer_text(OutputKind::FullContext, &data),
        "== status ==\ncwd: -\nscope: unknown\ncurrent_file: - (-)\nfocused_hunk: -\nhunk_count: -\n\
annotations_count: -\n\n== current_hunk ==\nnone\n\n== annotations ==\nannotations: 0\n"
    );
    assert_eq!(
        answer_text(OutputKind::FullContext, &json("{}")),
        "== status ==\n\n== current_hunk ==\n\n== annotations ==\n"
    );
}

#[test]
fn texts_of_lists_of_hunks() {
    let data = json(
        "{\"hunks\":[{\"file\":\"f\",\"file_index\":1,\"hunk_index\":2,\"line_range\":[1,3],\
\"tags\":[\"a\",\"b\"]},{\"file\":\"g\",\"file_index\":0,\"hunk_index\":0,\"tags\":[\"c\"]}]}",
    );
    assert_eq!(
        answer_text(OutputKind::Hunks, &data),
        "hunks: 2\n- f:1-3 (file 1, hunk 2)\n- g:- (file 0, hunk 0)\n"
    );
    assert_eq!(
        answer_text(OutputKind::HunkTags, &data),
        "hunks: 2\n- f (file 1, hunk 2): a, b\n- g (file 0, hunk 0): c\n"
    );
    assert_eq!(tags_of_hunk(&data, 0, 0), strings(&["c"]));
    assert!(tags_of_hunk(&data, 3, 0).is_empty());
}

#[test]
fn ranges_need_two_whole_numbers() {
    assert_eq!(format_range(Some(&json("[3,9]"))).as_deref(), Some("3-9"));
    assert_eq!(format_range(Some(&json("[3]"))), None);
    assert_eq!(format_range(Some(&json("[3,-1]"))), None);
    assert_eq!(format_range(Some(&json("null"))), None);
    assert_eq!(format_range(None), None);
}

#[test]
fn kinds_of_answers() {
    let hunk = CliCommand::Hunk { file_index: 0, hunk_index: 0 };
    assert_eq!(output_kind(&hunk), OutputKind::CurrentHunk);
    assert_eq!(output_kind(&CliCommand::TagClear { target: None }), OutputKind::TagsCleared);
    assert_eq!(output_kind(&CliCommand::FullContext), OutputKind::FullContext);
}
