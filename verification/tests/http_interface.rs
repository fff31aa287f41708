use lumen::api::{
    find_route, needs_body, parse_request, timeout_response, unavailable_response, ApiCommand,
    ApiResponse, Method, Route,
};
use lumen::api_handler::{
    handle_api_command, handle_command_with, response_text, status_json, Persist,
};
use lumen::diff::{ChangeType, DiffLine, FileDiff, FileStatus, HunkRange};
use lumen::json::{json_of_value, json_output, parse_json, print_json, Json};
use lumen::persistence::DiffScope;
use lumen::state::{AppState, HunkAnnotation, HunkTags, TimePoint};

fn file(name: &str, line: usize) -> FileDiff {
    FileDiff {
        filename: name.to_string(),
        old_content: "o".to_string(),
        new_content: "n".to_string(),
        status: FileStatus::Modified,
        is_binary: false,
        rows: vec![
            DiffLine {
                old_line: Some((line, "before".to_string())),
                new_line: Some((line, "before".to_string())),
                change_type: ChangeType::Equal,
            },
            DiffLine {
                old_line: Some((line + 1, "was".to_string())),
                new_line: Some((line + 1, "is".to_string())),
                change_type: ChangeType::Modified,
            },
        ],
        hunks: vec![HunkRange { start: 0, end: 2 }],
    }
}

fn state() -> AppState {
    let mut s = AppState::new(vec![file("a.rs", 3), file("b.rs", 7)], "git".to_string());
    s.current_file = 1;
    s.focused_hunk = Some(0);
    s
}

fn tree() -> DiffScope {
    DiffScope::WorkingTree { base_commit_id: "base".to_string() }
}

fn now() -> TimePoint {
    TimePoint { secs: 123, nanos: 4 }
}

fn run(command: ApiCommand, s: &mut AppState) -> (ApiResponse, Persist) {
    let scope = tree();
    handle_command_with(command, s, Some(&scope), &Some("/w".to_string()), "id-1".to_string(), now())
}

fn text(command: ApiCommand, s: &mut AppState) -> (u16, String) {
    let (response, _) = run(command, s);
    (response.status, response_text(&response))
}

fn body(text: &str) -> Option<String> {
    Some(text.to_string())
}

#[test]
fn routes() {
    assert_eq!(find_route(Method::Get, "/status?x=1"), Route::Status);
    assert_eq!(find_route(Method::Get, "/tags/current"), Route::CurrentTags);
    assert_eq!(find_route(Method::Post, "/tags/set"), Route::SetTags);
    assert_eq!(find_route(Method::Post, "/status"), Route::Unknown);
    assert_eq!(find_route(Method::Get, "/annotation/create"), Route::Unknown);
    assert_eq!(find_route(Method::Other, "/status"), Route::Unknown);
    assert_eq!(find_route(Method::Get, "/"), Route::Unknown);
    assert!(needs_body(Route::Create));
    assert!(!needs_body(Route::Tags));
}

fn refused(route: Route, body: Option<String>) -> (u16, String) {
    match parse_request(route, body) {
        Err(response) => (response.status, response_text(&response)),
        Ok(command) => panic!("{:?}", command),
    }
}

#[test]
fn requests_that_stand_for_nothing_are_refused() {
    let error = |s: &str| format!("{{\"error\":\"{}\"}}", s);
    assert_eq!(refused(Route::Unknown, None), (404, error("not found")));
    assert_eq!(refused(Route::Create, None), (400, error("invalid request body")));
    assert_eq!(refused(Route::Create, body("{")), (400, error("invalid json body")));
    assert_eq!(refused(Route::Create, body("{}")), (400, error("missing content field")));
    assert_eq!(
        refused(Route::Create, body("{\"content\":5}")),
        (400, error("missing content field"))
    );
    assert_eq!(refused(Route::Update, body("{}")), (400, error("missing id field")));
    assert_eq!(
        refused(Route::Update, body("{\"id\":\"x\"}")),
        (400, error("missing content field"))
    );
    assert_eq!(refused(Route::Delete, body("[]")), (400, error("missing id field")));
    assert_eq!(refused(Route::SetTags, body("{\"tags\":1}")), (400, error("missing tags field")));
    assert_eq!(
        refused(Route::Hunk, body("{\"file_index\":1}")),
        (400, error("missing hunk fields"))
    );
    let r = unavailable_response();
    assert_eq!((r.status, response_text(&r)), (503, error("api handler unavailable")));
    let r = timeout_response();
    assert_eq!((r.status, response_text(&r)), (504, error("request timed out")));
}

#[test]
fn requests_are_read() {
    match parse_request(Route::Update, body("{\"content\":\"c\",\"id\":\"i\"}")) {
        Ok(ApiCommand::UpdateAnnotation { id, content }) => {
            assert_eq!((id.as_str(), content.as_str()), ("i", "c"));
        }
        other => panic!("{:?}", other),
    }
    match parse_request(Route::SetTags, body("{\"tags\":[\"a\",1,\"b\",null]}")) {
        Ok(ApiCommand::TagsSet { tags, target }) => {
            assert_eq!(tags, vec!["a".to_string(), "b".to_string()]);
            assert_eq!(target, None);
        }
        other => panic!("{:?}", other),
    }
    match parse_request(
        Route::Create,
        body("{\"content\":\"x\",\"file_index\":2,\"hunk_index\":5}"),
    ) {
        Ok(ApiCommand::CreateAnnotation { content, target }) => {
            assert_eq!(content, "x");
            assert_eq!(target, Some((2, 5)));
        }
        other => panic!("{:?}", other),
    }
    assert!(matches!(
        parse_request(Route::CurrentAnnotations, None),
        Ok(ApiCommand::Annotations { current_only: true })
    ));
}

#[test]
fn json_is_read_and_written() {
    let j = parse_json("{\"b\": [1, -2, 3.5, true, null, \"t\"], \"a\": {}, \"b\": 7}").unwrap();
    assert_eq!(j.get_u64("b"), Some(7));
    assert!(j.get("a").unwrap().is_object());
    assert!(j.get("c").is_none());
    assert!(parse_json("nul").is_none());
    let list = parse_json("[1,-2,3.5,true,null,\"t\"]").unwrap();
    let items = list.as_array().unwrap();
    assert_eq!(items[0].as_u64(), Some(1));
    assert!(matches!(items[1], Json::OtherNumber));
    assert!(matches!(items[2], Json::OtherNumber));
    assert_eq!(items[3].as_bool(), Some(true));
    assert!(items[4].is_null());
    assert_eq!(items[5].as_str().map(|s| s.as_str()), Some("t"));
    let object = Json::Object(vec![
        ("z".to_string(), Json::Unsigned(u64::MAX)),
        ("a".to_string(), Json::Text("q\"\n".to_string())),
        ("z".to_string(), Json::Array(vec![Json::Bool(false), Json::Null])),
    ]);
    assert_eq!(print_json(&object), "{\"a\":\"q\\\"\\n\",\"z\":[false,null]}");
    let value = serde_json::Value::from(vec![false, true]);
    assert_eq!(print_json(&json_of_value(&value)), "[false,true]");
}

#[test]
fn values_are_written_on_one_line_or_on_several() {
    let mut fields = serde_json::Map::new();
    fields.insert("b".to_string(), serde_json::Value::from(vec![1, 2]));
    fields.insert("a".to_string(), serde_json::Value::Null);
    let value = serde_json::Value::Object(fields);
    assert_eq!(json_output(&value, false), "{\"a\":null,\"b\":[1,2]}");
    let pretty = json_output(&value, true);
    assert_eq!(pretty, "{\n  \"a\": null,\n  \"b\": [\n    1,\n    2\n  ]\n}");
    assert_eq!(print_json(&parse_json(&pretty).unwrap()), json_output(&value, false));
    assert_eq!(json_output(&serde_json::Value::from(-2), true), "-2");
}

#[test]
fn what_was_written_is_read_again() {
    let object = Json::Object(vec![
        ("control \u{1} and \u{1F600}".to_string(), Json::Unsigned(u64::MAX)),
        ("\\ \" / \u{2028}".to_string(), Json::Array(vec![Json::Null, Json::Bool(true)])),
    ]);
    let text = print_json(&object);
    let read = parse_json(&text).unwrap();
    assert_eq!(read.get_u64("control \u{1} and \u{1F600}"), Some(u64::MAX));
    assert_eq!(print_json(&read), text);

    let mut nested = Json::Unsigned(7);
    for _ in 0..127 {
        nested = Json::Array(vec![nested]);
    }
    let text = print_json(&nested);
    assert_eq!(print_json(&parse_json(&text).unwrap()), text);
    assert!(parse_json(&format!("[{}]", text)).is_none());
}

#[test]
fn status_answer() {
    let mut s = state();
    assert_eq!(
        text(ApiCommand::Status, &mut s),
        (
            200,
            "{\"annotations_count\":0,\"current_file\":\"b.rs\",\"current_file_index\":1,\
\"cwd\":\"/w\",\"focused_hunk\":0,\"hunk_count\":1,\"scope\":{\"base_commit_id\":\"base\",\
\"diff_reference\":null,\"type\":\"working_tree\",\"vcs\":\"git\"}}"
                .to_string()
        )
    );
    let empty = AppState::new(Vec::new(), "jj".to_string());
    let commit = DiffScope::Commit { commit_id: "c".to_string() };
    let j = status_json(&empty, Some(&commit), &None);
    assert_eq!(
        print_json(&j),
        "{\"annotations_count\":0,\"current_file\":null,\"current_file_index\":0,\"cwd\":null,\
\"focused_hunk\":null,\"hunk_count\":0,\"scope\":{\"commit_id\":\"c\",\"diff_reference\":null,\
\"type\":\"commit\",\"vcs\":\"jj\"}}"
    );
}

#[test]
fn current_hunk_answer() {
    let mut s = state();
    let (status, t) = text(ApiCommand::CurrentHunk, &mut s);
    assert_eq!(status, 200);
    let j = parse_json(&t).unwrap();
    assert_eq!(j.get_str("file").map(|s| s.as_str()), Some("b.rs"));
    assert_eq!(j.get_str("diff_text").map(|s| s.as_str()), Some("- was\n+ is\n"));
    assert_eq!(j.get_str("change_type").map(|s| s.as_str()), Some("modification"));
    assert!(j.get("annotation").unwrap().is_null());
    let range: Vec<u64> =
        j.get_array("line_range").unwrap().iter().map(|v| v.as_u64().unwrap()).collect();
    assert_eq!(range, vec![8, 8]);
    s.focused_hunk = Some(4);
    assert_eq!(
        text(ApiCommand::CurrentHunk, &mut s),
        (404, "{\"error\":\"focused hunk not found\"}".to_string())
    );
    s.focused_hunk = None;
    assert_eq!(
        text(ApiCommand::CurrentHunk, &mut s),
        (404, "{\"error\":\"no focused hunk\"}".to_string())
    );
    let (status, t) = text(ApiCommand::Hunk { file_index: 0, hunk_index: 0 }, &mut s);
    assert_eq!(status, 200);
    assert_eq!(parse_json(&t).unwrap().get_str("file").map(|s| s.as_str()), Some("a.rs"));
    assert_eq!(
        text(ApiCommand::Hunk { file_index: 0, hunk_index: 9 }, &mut s),
        (404, "{\"error\":\"hunk not found\"}".to_string())
    );
}

#[test]
fn current_file_answer() {
    let mut s = state();
    let (status, t) = text(ApiCommand::CurrentFile, &mut s);
    assert_eq!(status, 200);
    let j = parse_json(&t).unwrap();
    assert_eq!(j.get_str("status").map(|s| s.as_str()), Some("modified"));
    assert_eq!(j.get_str("old_content").map(|s| s.as_str()), Some("o"));
    assert_eq!(j.get("is_binary").unwrap().as_bool(), Some(false));
    let mut empty = AppState::new(Vec::new(), "git".to_string());
    assert_eq!(
        text(ApiCommand::CurrentFile, &mut empty),
        (404, "{\"error\":\"file not found\"}".to_string())
    );
}

fn create(content: &str, target: Option<(usize, usize)>) -> ApiCommand {
    ApiCommand::CreateAnnotation { content: content.to_string(), target }
}

#[test]
fn annotations_are_created_updated_and_deleted() {
    let mut s = state();
    let (response, persist) = run(create("hello", None), &mut s);
    assert_eq!(response.status, 200);
    assert_eq!(
        print_json(response.body.get("annotation").unwrap()),
        "{\"content\":\"hello\",\"created_at\":123,\"file\":\"b.rs\",\"file_index\":1,\
\"hunk_index\":0,\"id\":\"id-1\",\"line_range\":[8,8]}"
    );
    assert!(matches!(&persist, Persist::Upsert(a) if a.id == "id-1"));
    assert_eq!(s.annotations.len(), 1);
    assert_eq!(s.get_annotation(1, 0).unwrap().content, "hello");

    run(create("again", None), &mut s);
    assert_eq!(s.annotations.len(), 1);
    run(create("other", Some((0, 0))), &mut s);
    assert_eq!(s.annotations.len(), 2);
    assert_eq!(s.get_annotation(0, 0).unwrap().content, "other");

    let update = ApiCommand::UpdateAnnotation { id: "id-1".to_string(), content: "v2".to_string() };
    let (response, persist) = run(update, &mut s);
    assert_eq!(response.status, 200);
    assert!(matches!(&persist, Persist::Upsert(a) if a.content == "v2"));
    assert_eq!(s.annotations[0].content, "v2");

    let (response, persist) =
        run(ApiCommand::DeleteAnnotation { id: "id-1".to_string() }, &mut s);
    assert_eq!(response.status, 200);
    assert_eq!(response.body.get("deleted").unwrap().as_bool(), Some(true));
    assert!(matches!(&persist, Persist::Remove(a) if a.content == "v2"));
    assert_eq!(s.annotations.len(), 1);
}

#[test]
fn refused_commands_change_nothing_and_store_nothing() {
    let mut s = state();
    let cases = vec![
        (create(" \n", None), 400, "content cannot be empty"),
        (create("x", Some((0, 3))), 404, "hunk not found"),
        (create("x", Some((5, 0))), 404, "hunk not found"),
        (
            ApiCommand::UpdateAnnotation { id: "no".to_string(), content: "x".to_string() },
            404,
            "annotation not found",
        ),
        (
            ApiCommand::UpdateAnnotation { id: "no".to_string(), content: "".to_string() },
            400,
            "content cannot be empty",
        ),
        (ApiCommand::DeleteAnnotation { id: "no".to_string() }, 404, "annotation not found"),
        (
            ApiCommand::TagsSet { tags: vec!["t".to_string()], target: Some((1, 1)) },
            404,
            "hunk not found",
        ),
    ];
    for (command, status, message) in cases {
        let (response, persist) = run(command, &mut s);
        assert_eq!(response.status, status);
        assert_eq!(response_text(&response), format!("{{\"error\":\"{}\"}}", message));
        assert!(matches!(persist, Persist::Nothing));
        assert!(s.annotations.is_empty() && s.hunk_tags.is_empty());
    }
    s.focused_hunk = Some(2);
    assert_eq!(
        text(create("x", None), &mut s),
        (404, "{\"error\":\"focused hunk not found\"}".to_string())
    );
    s.focused_hunk = None;
    assert_eq!(
        text(create("x", None), &mut s),
        (404, "{\"error\":\"no focused hunk\"}".to_string())
    );
    assert_eq!(
        text(ApiCommand::TagsSet { tags: Vec::new(), target: None }, &mut s),
        (404, "{\"error\":\"no focused hunk\"}".to_string())
    );
}

#[test]
fn without_a_scope_nothing_is_stored() {
    let mut s = state();
    let (response, persist) =
        handle_command_with(create("x", None), &mut s, None, &None, "i".to_string(), now());
    assert_eq!(response.status, 200);
    assert!(matches!(persist, Persist::Nothing));
    assert_eq!(s.annotations.len(), 1);
}

#[test]
fn questions_change_nothing_and_store_nothing() {
    let mut s = state();
    s.tag_inventory = vec!["t".to_string()];
    let before = format!("{:?}", s);
    for command in [
        ApiCommand::Status,
        ApiCommand::CurrentHunk,
        ApiCommand::CurrentFile,
        ApiCommand::FullContext,
        ApiCommand::TagsList,
        ApiCommand::TagsCurrent,
    ] {
        let (response, persist) = run(command, &mut s);
        assert_eq!(response.status, 200);
        assert!(matches!(persist, Persist::Nothing));
        assert_eq!(format!("{:?}", s), before);
    }
}

#[test]
fn new_annotations_get_random_ids() {
    let mut s = state();
    let scope = tree();
    let mut seen = Vec::new();
    for target in [(0, 0), (1, 0)] {
        handle_api_command(create("x", Some(target)), &mut s, Some(&scope), &None);
        let a = s.get_annotation(target.0, target.1).unwrap();
        assert_eq!(a.id.len(), 36);
        assert_eq!(a.id.as_bytes()[14], b'4');
        assert_eq!(a.id.matches('-').count(), 4);
        assert!(a.created_at.secs > 1_600_000_000);
        seen.push(a.id.clone());
    }
    assert_ne!(seen[0], seen[1]);
}

#[test]
fn annotation_lists() {
    let mut s = state();
    run(create("one", Some((0, 0))), &mut s);
    run(create("two", None), &mut s);
    let (_, all) = text(ApiCommand::Annotations { current_only: false }, &mut s);
    assert_eq!(parse_json(&all).unwrap().get_array("annotations").unwrap().len(), 2);
    let (_, some) = text(ApiCommand::Annotations { current_only: true }, &mut s);
    let some = parse_json(&some).unwrap();
    let list = some.get_array("annotations").unwrap();
    assert_eq!(list.len(), 1);
    assert_eq!(list[0].get_str("content").map(|s| s.as_str()), Some("two"));
    let (_, full) = text(ApiCommand::FullContext, &mut s);
    let full = parse_json(&full).unwrap();
    assert_eq!(full.get("status").unwrap().get_u64("annotations_count"), Some(2));
    assert!(full.get("current_hunk").unwrap().get("annotation").is_none());
    assert_eq!(full.get("current_hunk").unwrap().get_u64("file_index"), Some(1));
    assert_eq!(full.get_array("annotations").unwrap().len(), 2);
    s.focused_hunk = None;
    let (_, full) = text(ApiCommand::FullContext, &mut s);
    assert!(parse_json(&full).unwrap().get("current_hunk").unwrap().is_null());
}

#[test]
fn tags_are_set_and_listed() {
    let mut s = state();
    s.tag_inventory = vec!["a".to_string(), "b".to_string()];
    assert_eq!(text(ApiCommand::TagsList, &mut s), (200, "{\"tags\":[\"a\",\"b\"]}".to_string()));
    let tags = vec!["z ".to_string(), "y".to_string(), "z".to_string()];
    let (response, persist) = run(ApiCommand::TagsSet { tags, target: None }, &mut s);
    assert_eq!(response.status, 200);
    assert_eq!(print_json(response.body.get("tags").unwrap()), "[\"y\",\"z\"]");
    match persist {
        Persist::SetTags { file_index, hunk_index, tags } => {
            assert_eq!((file_index, hunk_index), (1, 0));
            assert_eq!(tags, vec!["y".to_string(), "z".to_string()]);
        }
        other => panic!("{:?}", other),
    }
    let (_, current) = text(ApiCommand::TagsCurrent, &mut s);
    assert_eq!(print_json(parse_json(&current).unwrap().get("tags").unwrap()), "[\"y\",\"z\"]");
    let (_, listed) = text(ApiCommand::HunkTags { current_only: true }, &mut s);
    assert_eq!(
        print_json(parse_json(&listed).unwrap().get("hunks").unwrap()),
        "[{\"file\":\"b.rs\",\"file_index\":1,\"hunk_index\":0,\"tags\":[\"y\",\"z\"]}]"
    );
    run(ApiCommand::TagsSet { tags: Vec::new(), target: None }, &mut s);
    assert!(s.hunk_tags.is_empty());
    s.focused_hunk = None;
    assert_eq!(
        text(ApiCommand::TagsCurrent, &mut s),
        (404, "{\"error\":\"no focused hunk\"}".to_string())
    );
}

#[test]
fn hunks_are_listed() {
    let mut s = state();
    let (_, all) = text(ApiCommand::Hunks { current_only: false }, &mut s);
    assert_eq!(
        print_json(parse_json(&all).unwrap().get("hunks").unwrap()),
        "[{\"file\":\"a.rs\",\"file_index\":0,\"hunk_index\":0,\"line_range\":[4,4]},\
{\"file\":\"b.rs\",\"file_index\":1,\"hunk_index\":0,\"line_range\":[8,8]}]"
    );
    let (_, some) = text(ApiCommand::Hunks { current_only: true }, &mut s);
    assert_eq!(parse_json(&some).unwrap().get_array("hunks").unwrap().len(), 1);
}

#[test]
fn marks_of_a_hunk_replace_each_other() {
    let mut s = state();
    let a = |id: &str, hunk: usize| HunkAnnotation {
        id: id.to_string(),
        file_index: 0,
        hunk_index: hunk,
        content: "c".to_string(),
        line_range: (1, 1),
        filename: "a.rs".to_string(),
        created_at: now(),
    };
    s.set_annotation(a("1", 0));
    s.set_annotation(a("2", 1));
    s.set_annotation(a("3", 0));
    let ids: Vec<&str> = s.annotations.iter().map(|x| x.id.as_str()).collect();
    assert_eq!(ids, vec!["2", "3"]);
    s.remove_annotation(0, 1);
    assert_eq!(s.annotations.len(), 1);
    let t = |tag: &str| HunkTags {
        file_index: 0,
        hunk_index: 0,
        filename: "a.rs".to_string(),
        tags: vec![tag.to_string()],
    };
    s.set_hunk_tags(t("x"));
    s.set_hunk_tags(t("y"));
    assert_eq!(s.hunk_tags.len(), 1);
    assert_eq!(s.get_hunk_tags(0, 0).unwrap().tags, vec!["y".to_string()]);
}
