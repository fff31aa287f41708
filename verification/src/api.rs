//! The requests of the HTTP interface: which commands they stand for, and how requests
//! that stand for none are answered.

use vstd::prelude::*;

use crate::json::{
    group_plain_fields, json_string, parse_json, parsed, strings_of, texts_of, writable, Fields,
    Json, JsonView,
};
use crate::text::{chars_of, index_from, opt_str, str_eq, strs, text_from};

verus! {

/// The method of a request.
#[derive(Debug, Clone, Copy, PartialEq, Eq, Structural)]
pub enum Method {
    Get,
    Post,
    Other,
}

/// A hunk that a command names: a file and a hunk of it.
pub type Target = Option<(usize, usize)>;

/// What the viewer is asked to do.
#[derive(Debug)]
pub enum ApiCommand {
    Status,
    CurrentHunk,
    CurrentFile,
    FullContext,
    Annotations { current_only: bool },
    CreateAnnotation { content: String, target: Target },
    UpdateAnnotation { id: String, content: String },
    DeleteAnnotation { id: String },
    TagsList,
    TagsCurrent,
    TagsSet { tags: Vec<String>, target: Target },
    Hunks { current_only: bool },
    Hunk { file_index: usize, hunk_index: usize },
    HunkTags { current_only: bool },
}

/// The model of an `ApiCommand`.
pub enum CommandView {
    Status,
    CurrentHunk,
    CurrentFile,
    FullContext,
    Annotations(bool),
    CreateAnnotation(Seq<char>, Target),
    UpdateAnnotation(Seq<char>, Seq<char>),
    DeleteAnnotation(Seq<char>),
    TagsList,
    TagsCurrent,
    TagsSet(Seq<Seq<char>>, Target),
    Hunks(bool),
    Hunk(usize, usize),
    HunkTags(bool),
}

impl View for ApiCommand {
    type V = CommandView;

    open spec fn view(&self) -> CommandView {
        match self {
            ApiCommand::Status => CommandView::Status,
            ApiCommand::CurrentHunk => CommandView::CurrentHunk,
            ApiCommand::CurrentFile => CommandView::CurrentFile,
            ApiCommand::FullContext => CommandView::FullContext,
            ApiCommand::Annotations { current_only } => CommandView::Annotations(*current_only),
            ApiCommand::CreateAnnotation { content, target } => CommandView::CreateAnnotation(
                content@,
                *target,
            ),
            ApiCommand::UpdateAnnotation { id, content } => CommandView::UpdateAnnotation(
                id@,
                content@,
            ),
            ApiCommand::DeleteAnnotation { id } => CommandView::DeleteAnnotation(id@),
            ApiCommand::TagsList => CommandView::TagsList,
            ApiCommand::TagsCurrent => CommandView::TagsCurrent,
            ApiCommand::TagsSet { tags, target } => CommandView::TagsSet(strs(tags@), *target),
            ApiCommand::Hunks { current_only } => CommandView::Hunks(*current_only),
            ApiCommand::Hunk { file_index, hunk_index } => CommandView::Hunk(
                *file_index,
                *hunk_index,
            ),
            ApiCommand::HunkTags { current_only } => CommandView::HunkTags(*current_only),
        }
    }
}

/// The answer to a request.
#[derive(Debug)]
pub struct ApiResponse {
    pub status: u16,
    pub body: Json,
}

/// The model of an `ApiResponse`.
#[verifier::ext_equal]
pub struct ResponseView {
    pub status: u16,
    pub body: JsonView,
}

impl View for ApiResponse {
    type V = ResponseView;

    open spec fn view(&self) -> ResponseView {
        ResponseView { status: self.status, body: self.body@ }
    }
}

// ---------------------------------------------------------------------------
// Errors
// ---------------------------------------------------------------------------
/// The body of an answer that says what is wrong.
pub open spec fn error_body(message: Seq<char>) -> JsonView {
    JsonView::Object(Map::empty().insert("error"@, JsonView::Text(message)))
}

/// An answer that says what is wrong.
pub open spec fn refusal(status: u16, message: Seq<char>) -> ResponseView {
    ResponseView { status, body: error_body(message) }
}

/// An answer that says what is wrong can be written out.
pub proof fn refusals_can_be_written_out(status: u16, message: Seq<char>)
    ensures
        writable(refusal(status, message).body),
{
    broadcast use group_plain_fields;

}

/// The body of an answer that says what is wrong.
pub fn json_error(message: &str) -> (r: Json)
    ensures
        r@ == error_body(message@),
{
    Fields::new().with("error", json_string(message)).done()
}

/// An answer that says what is wrong.
pub fn error_response(status: u16, message: &str) -> (r: ApiResponse)
    ensures
        r@ == refusal(status, message@),
        r@.status == status && r@.body.text_field("error"@) == Some(message@),
        writable(r@.body),
{
    proof {
        refusals_can_be_written_out(status, message@);
    }
    ApiResponse { status, body: json_error(message) }
}

/// The answer to a request that the viewer did not take.
pub fn unavailable_response() -> (r: ApiResponse)
    ensures
        r@ == refusal(503, "api handler unavailable"@),
        r@.body.text_field("error"@) == Some("api handler unavailable"@),
        writable(r@.body),
{
    error_response(503, "api handler unavailable")
}

/// The answer to a request that the viewer did not answer in time.
pub fn timeout_response() -> (r: ApiResponse)
    ensures
        r@ == refusal(504, "request timed out"@),
        r@.body.text_field("error"@) == Some("request timed out"@),
        writable(r@.body),
{
    error_response(504, "request timed out")
}

// ---------------------------------------------------------------------------
// Routes
// ---------------------------------------------------------------------------
/// The kinds of requests.
#[derive(Debug, Clone, Copy, PartialEq, Eq, Structural)]
pub enum Route {
    Status,
    CurrentHunk,
    CurrentFile,
    FullContext,
    Annotations,
    CurrentAnnotations,
    Create,
    Update,
    Delete,
    Tags,
    CurrentTags,
    SetTags,
    Hunks,
    CurrentFileHunks,
    Hunk,
    HunkTags,
    CurrentFileHunkTags,
    Unknown,
}

/// The path of a request: its address up to the question mark.
pub open spec fn path_of(url: Seq<char>) -> Seq<char> {
    url.take(index_from(url, '?', 0))
}

/// The kind of a request.
pub open spec fn route_of(method: Method, path: Seq<char>) -> Route {
    if method == Method::Get && path == "/status"@ {
        Route::Status
    } else if method == Method::Get && path == "/current-hunk"@ {
        Route::CurrentHunk
    } else if method == Method::Get && path == "/current-file"@ {
        Route::CurrentFile
    } else if method == Method::Get && path == "/full-context"@ {
        Route::FullContext
    } else if method == Method::Get && path == "/annotations"@ {
        Route::Annotations
    } else if method == Method::Get && path == "/annotations/current"@ {
        Route::CurrentAnnotations
    } else if method == Method::Post && path == "/annotation/create"@ {
        Route::Create
    } else if method == Method::Post && path == "/annotation/update"@ {
        Route::Update
    } else if method == Method::Post && path == "/annotation/delete"@ {
        Route::Delete
    } else if method == Method::Get && path == "/tags"@ {
        Route::Tags
    } else if method == Method::Get && path == "/tags/current"@ {
        Route::CurrentTags
    } else if method == Method::Post && path == "/tags/set"@ {
        Route::SetTags
    } else if method == Method::Get && path == "/hunks"@ {
        Route::Hunks
    } else if method == Method::Get && path == "/hunks/current"@ {
        Route::CurrentFileHunks
    } else if method == Method::Post && path == "/hunk"@ {
        Route::Hunk
    } else if method == Method::Get && path == "/tags/hunks"@ {
        Route::HunkTags
    } else if method == Method::Get && path == "/tags/hunks/current"@ {
        Route::CurrentFileHunkTags
    } else {
        Route::Unknown
    }
}

/// The kind of a request.
pub fn find_route(method: Method, url: &str) -> (r: Route)
    ensures
        r == route_of(method, path_of(url@)),
{
    let chars = chars_of(url);
    let mut end: usize = 0;
    while end < chars.len() && chars[end] != '?'
        invariant
            end <= chars@.len(),
            chars@ == url@,
            index_from(url@, '?', 0) == index_from(url@, '?', end as int),
        ensures
            end == chars@.len() || chars@[end as int] == '?',
        decreases chars@.len() - end,
    {
        end += 1;
    }
    let path = text_from(&chars, 0, end);
    let p = path.as_str();
    assert(p@ == path_of(url@));
    if method == Method::Get && str_eq(p, "/status") {
        Route::Status
    } else if method == Method::Get && str_eq(p, "/current-hunk") {
        Route::CurrentHunk
    } else if method == Method::Get && str_eq(p, "/current-file") {
        Route::CurrentFile
    } else if method == Method::Get && str_eq(p, "/full-context") {
        Route::FullContext
    } else if method == Method::Get && str_eq(p, "/annotations") {
        Route::Annotations
    } else if method == Method::Get && str_eq(p, "/annotations/current") {
        Route::CurrentAnnotations
    } else if method == Method::Post && str_eq(p, "/annotation/create") {
        Route::Create
    } else if method == Method::Post && str_eq(p, "/annotation/update") {
        Route::Update
    } else if method == Method::Post && str_eq(p, "/annotation/delete") {
        Route::Delete
    } else if method == Method::Get && str_eq(p, "/tags") {
        Route::Tags
    } else if method == Method::Get && str_eq(p, "/tags/current") {
        Route::CurrentTags
    } else if method == Method::Post && str_eq(p, "/tags/set") {
        Route::SetTags
    } else if method == Method::Get && str_eq(p, "/hunks") {
        Route::Hunks
    } else if method == Method::Get && str_eq(p, "/hunks/current") {
        Route::CurrentFileHunks
    } else if method == Method::Post && str_eq(p, "/hunk") {
        Route::Hunk
    } else if method == Method::Get && str_eq(p, "/tags/hunks") {
        Route::HunkTags
    } else if method == Method::Get && str_eq(p, "/tags/hunks/current") {
        Route::CurrentFileHunkTags
    } else {
        Route::Unknown
    }
}

/// Whether the body of a request of the kind is read.
pub open spec fn reads_body(route: Route) -> bool {
    route == Route::Create || route == Route::Update || route == Route::Delete || route
        == Route::SetTags || route == Route::Hunk
}

/// Whether the body of a request of the kind is read.
pub fn needs_body(route: Route) -> (r: bool)
    ensures
        r == reads_body(route),
{
    route == Route::Create || route == Route::Update || route == Route::Delete || route
        == Route::SetTags || route == Route::Hunk
}

// ---------------------------------------------------------------------------
// Commands
// ---------------------------------------------------------------------------
/// The hunk that a request names, where it names a file and a hunk.
pub open spec fn target_of(payload: JsonView) -> Target {
    match (payload.number_field("file_index"@), payload.number_field("hunk_index"@)) {
        (Some(f), Some(h)) => if f <= usize::MAX && h <= usize::MAX {
            Some((f as usize, h as usize))
        } else {
            None
        },
        _ => None,
    }
}

/// The texts of the array that a field is.
pub open spec fn texts_field(payload: JsonView, name: Seq<char>) -> Option<Seq<Seq<char>>> {
    match payload.array_field(name) {
        Some(items) => Some(texts_of(items, items.len() as int)),
        None => None,
    }
}

/// The command that a request with a body stands for.
pub open spec fn command_with_payload(route: Route, payload: JsonView) -> Result<
    CommandView,
    ResponseView,
> {
    match route {
        Route::Create => match payload.text_field("content"@) {
            Some(content) => Ok(CommandView::CreateAnnotation(content, target_of(payload))),
            None => Err(refusal(400, "missing content field"@)),
        },
        Route::Update => match (payload.text_field("id"@), payload.text_field("content"@)) {
            (Some(id), Some(content)) => Ok(CommandView::UpdateAnnotation(id, content)),
            (None, _) => Err(refusal(400, "missing id field"@)),
            (_, None) => Err(refusal(400, "missing content field"@)),
        },
        Route::Delete => match payload.text_field("id"@) {
            Some(id) => Ok(CommandView::DeleteAnnotation(id)),
            None => Err(refusal(400, "missing id field"@)),
        },
        Route::SetTags => match texts_field(payload, "tags"@) {
            Some(tags) => Ok(CommandView::TagsSet(tags, target_of(payload))),
            None => Err(refusal(400, "missing tags field"@)),
        },
        Route::Hunk => match target_of(payload) {
            Some((f, h)) => Ok(CommandView::Hunk(f, h)),
            None => Err(refusal(400, "missing hunk fields"@)),
        },
        _ => Err(refusal(404, "not found"@)),
    }
}

/// The command that a request stands for, or the answer where it stands for none. The
/// body is what could be read of it as a text.
pub open spec fn command_of(route: Route, body: Option<Seq<char>>) -> Result<
    CommandView,
    ResponseView,
> {
    match route {
        Route::Status => Ok(CommandView::Status),
        Route::CurrentHunk => Ok(CommandView::CurrentHunk),
        Route::CurrentFile => Ok(CommandView::CurrentFile),
        Route::FullContext => Ok(CommandView::FullContext),
        Route::Annotations => Ok(CommandView::Annotations(false)),
        Route::CurrentAnnotations => Ok(CommandView::Annotations(true)),
        Route::Tags => Ok(CommandView::TagsList),
        Route::CurrentTags => Ok(CommandView::TagsCurrent),
        Route::Hunks => Ok(CommandView::Hunks(false)),
        Route::CurrentFileHunks => Ok(CommandView::Hunks(true)),
        Route::HunkTags => Ok(CommandView::HunkTags(false)),
        Route::CurrentFileHunkTags => Ok(CommandView::HunkTags(true)),
        Route::Unknown => Err(refusal(404, "not found"@)),
        _ => match body {
            None => Err(refusal(400, "invalid request body"@)),
            Some(text) => match parsed(text) {
                None => Err(refusal(400, "invalid json body"@)),
                Some(payload) => command_with_payload(route, payload),
            },
        },
    }
}

/// A result is the one of the model.
pub open spec fn is_result(
    r: Result<ApiCommand, ApiResponse>,
    expected: Result<CommandView, ResponseView>,
) -> bool {
    match r {
        Ok(command) => expected == Ok::<CommandView, ResponseView>(command@),
        Err(response) => expected == Err::<CommandView, ResponseView>(response@),
    }
}

/// The text of a field.
pub fn string_field(payload: &Json, name: &str) -> (r: Option<String>)
    ensures
        opt_str(r) == payload@.text_field(name@),
{
    match payload.get_str(name) {
        Some(s) => Some(s.clone()),
        None => None,
    }
}

/// The texts of the array that a field is.
pub fn string_array_field(payload: &Json, name: &str) -> (r: Option<Vec<String>>)
    ensures
        match r {
            Some(list) => texts_field(payload@, name@) == Some(strs(list@)),
            None => texts_field(payload@, name@) is None,
        },
{
    match payload.get_array(name) {
        Some(items) => Some(strings_of(items)),
        None => None,
    }
}

/// The hunk that a request names, where it names a file and a hunk.
pub fn target_field(payload: &Json) -> (r: Target)
    ensures
        r == target_of(payload@),
{
    match (payload.get_u64("file_index"), payload.get_u64("hunk_index")) {
        (Some(f), Some(h)) => {
            if f <= usize::MAX as u64 && h <= usize::MAX as u64 {
                Some((f as usize, h as usize))
            } else {
                None
            }
        },
        _ => None,
    }
}

/// The command that a request with a body stands for.
pub fn parse_payload(route: Route, payload: &Json) -> (r: Result<ApiCommand, ApiResponse>)
    ensures
        is_result(r, command_with_payload(route, payload@)),
        r matches Err(refused) ==> writable(refused@.body),
{
    match route {
        Route::Create => match string_field(payload, "content") {
            Some(content) => Ok(
                ApiCommand::CreateAnnotation { content, target: target_field(payload) },
            ),
            None => Err(error_response(400, "missing content field")),
        },
        Route::Update => {
            match (string_field(payload, "id"), string_field(payload, "content")) {
                (Some(id), Some(content)) => Ok(ApiCommand::UpdateAnnotation { id, content }),
                (None, _) => Err(error_response(400, "missing id field")),
                (_, None) => Err(error_response(400, "missing content field")),
            }
        },
        Route::Delete => match string_field(payload, "id") {
            Some(id) => Ok(ApiCommand::DeleteAnnotation { id }),
            None => Err(error_response(400, "missing id field")),
        },
        Route::SetTags => match string_array_field(payload, "tags") {
            Some(tags) => Ok(ApiCommand::TagsSet { tags, target: target_field(payload) }),
            None => Err(error_response(400, "missing tags field")),
        },
        Route::Hunk => match target_field(payload) {
            Some((file_index, hunk_index)) => Ok(ApiCommand::Hunk { file_index, hunk_index }),
            None => Err(error_response(400, "missing hunk fields")),
        },
        _ => Err(error_response(404, "not found")),
    }
}

/// The command that a request stands for, or the answer where it stands for none. The
/// body is what could be read of it as a text.
pub fn parse_request(route: Route, body: Option<String>) -> (r: Result<ApiCommand, ApiResponse>)
    ensures
        is_result(r, command_of(route, opt_str(body))),
        r matches Err(refused) ==> writable(refused@.body),
{
    match route {
        Route::Status => Ok(ApiCommand::Status),
        Route::CurrentHunk => Ok(ApiCommand::CurrentHunk),
        Route::CurrentFile => Ok(ApiCommand::CurrentFile),
        Route::FullContext => Ok(ApiCommand::FullContext),
        Route::Annotations => Ok(ApiCommand::Annotations { current_only: false }),
        Route::CurrentAnnotations => Ok(ApiCommand::Annotations { current_only: true }),
        Route::Tags => Ok(ApiCommand::TagsList),
        Route::CurrentTags => Ok(ApiCommand::TagsCurrent),
        Route::Hunks => Ok(ApiCommand::Hunks { current_only: false }),
        Route::CurrentFileHunks => Ok(ApiCommand::Hunks { current_only: true }),
        Route::HunkTags => Ok(ApiCommand::HunkTags { current_only: false }),
        Route::CurrentFileHunkTags => Ok(ApiCommand::HunkTags { current_only: true }),
        Route::Unknown => Err(error_response(404, "not found")),
        _ => match body {
            None => Err(error_response(400, "invalid request body")),
            Some(text) => match parse_json(text.as_str()) {
                None => Err(error_response(400, "invalid json body")),
                Some(payload) => parse_payload(route, &payload),
            },
        },
    }
}

} // verus!
