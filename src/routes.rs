//! The route handlers: each takes what its route needs and returns the bytes of
//! the response.
use vstd::prelude::*;
use vstd::string::StringSliceAdditionalSpecFns;
use vstd::utf8::encode_utf8;
use crate::bytes::append_bytes;
use crate::fields::FieldMap;
use crate::json::{
    json_display, json_member_str, json_quote, json_quoted, json_string_member, json_text, JsonValue,
};
use crate::response::{api_reply, api_response, html_response, html_wire, server_error_response, server_error_wire};
use crate::status::Status;
use crate::types::{BodyView, UniversalBody};

verus! {

/// The home page.
pub open spec fn home_page() -> Seq<u8> {
    html_wire(Status::Okay, "HOME".spec_bytes(), "HOME".spec_bytes())
}

/// The about page.
pub open spec fn about_page() -> Seq<u8> {
    html_wire(Status::Okay, "ABOUT".spec_bytes(), "about".spec_bytes())
}

/// The submission form page.
pub open spec fn submit_get_page() -> Seq<u8> {
    html_wire(Status::Okay, "SUBMIT GET".spec_bytes(), "SUBMIT GET".spec_bytes())
}

/// The page that confirms a submission and shows `message`.
pub open spec fn submit_post_page(message: Seq<u8>) -> Seq<u8> {
    html_wire(Status::Okay, "SUBMIT POST".spec_bytes(), message)
}

/// The page for `/chunky`.
pub open spec fn chunked_page() -> Seq<u8> {
    html_wire(
        Status::Okay,
        "TRANSFER CHUNK ENCODING".spec_bytes(),
        "TRANSFER CHUNK ENCODING".spec_bytes(),
    )
}

/// The response for an unknown route.
pub open spec fn not_found_page() -> Seq<u8> {
    html_wire(
        Status::NotFound,
        "NOT FOUND".spec_bytes(),
        "The requested file was not found".spec_bytes(),
    )
}

/// The response for a path that sanitising refused.
pub open spec fn forbidden_page() -> Seq<u8> {
    html_wire(Status::Forbidden, "FORBIDDEN".spec_bytes(), "FORBIDDEN ACCESS".spec_bytes())
}

/// The response for a malformed request.
pub open spec fn bad_request_page() -> Seq<u8> {
    html_wire(Status::BadRequest, "BAD_REQUEST".spec_bytes(), "BAD REQUEST".spec_bytes())
}

/// The response for a request that did not arrive in time.
pub open spec fn timeout_page() -> Seq<u8> {
    html_wire(Status::RequestTimeout, "REQUEST TIMEOUT".spec_bytes(), "REQUEST TIMEOUT".spec_bytes())
}

/// The JSON text that `GET /api/v1/users` answers with.
pub open spec fn user_payload() -> Seq<u8> {
    "{\"name\": \"Stingray Get User\"}".spec_bytes()
}

/// The JSON text that a refused post answers with.
pub open spec fn post_error_payload() -> Seq<u8> {
    "{\"error\": \"BAD REQUEST\"}".spec_bytes()
}

/// The JSON text that an accepted post answers with, echoing `name` as a JSON
/// string.
pub open spec fn post_payload(name: Seq<char>) -> Seq<u8> {
    "{\"namessssss\": ".spec_bytes() + json_quote(name) + "}".spec_bytes()
}

/// The about page.
pub fn handle_about() -> (r: Vec<u8>)
    ensures
        r@ == about_page(),
{
    html_response(Status::Okay, "ABOUT", "about")
}

/// The home page.
pub fn handle_home() -> (r: Vec<u8>)
    ensures
        r@ == home_page(),
{
    html_response(Status::Okay, "HOME", "HOME")
}

/// The answer to a request that no route takes.
pub fn handle_404() -> (r: Vec<u8>)
    ensures
        r@ == not_found_page(),
{
    html_response(Status::NotFound, "NOT FOUND", "The requested file was not found")
}

/// The submission form.
pub fn handle_submit_get(_query_map: &FieldMap) -> (r: Vec<u8>)
    ensures
        r@ == submit_get_page(),
{
    html_response(Status::Okay, "SUBMIT GET", "SUBMIT GET")
}

/// The confirmation of a submission.
pub fn handle_submit_post() -> (r: Vec<u8>)
    ensures
        r@ == submit_post_page("SUBMIT POST".spec_bytes()),
{
    html_response(Status::Okay, "SUBMIT POST", "SUBMIT POST")
}

/// The answer to an unexpected failure.
pub fn handle_500() -> (r: Vec<u8>)
    ensures
        r@ == server_error_wire(),
{
    server_error_response()
}

/// The answer to a path that sanitising refused.
pub fn handle_403() -> (r: Vec<u8>)
    ensures
        r@ == forbidden_page(),
{
    html_response(Status::Forbidden, "FORBIDDEN", "FORBIDDEN ACCESS")
}

/// The answer to a malformed request.
pub fn handle_400() -> (r: Vec<u8>)
    ensures
        r@ == bad_request_page(),
{
    html_response(Status::BadRequest, "BAD_REQUEST", "BAD REQUEST")
}

/// The answer to a request that did not arrive in time.
pub fn handle_408() -> (r: Vec<u8>)
    ensures
        r@ == timeout_page(),
{
    html_response(Status::RequestTimeout, "REQUEST TIMEOUT", "REQUEST TIMEOUT")
}

/// The page for `/chunky`.
pub fn handle_transfer_chunk_encoding() -> (r: Vec<u8>)
    ensures
        r@ == chunked_page(),
{
    html_response(Status::Okay, "TRANSFER CHUNK ENCODING", "TRANSFER CHUNK ENCODING")
}

/// Confirms a JSON submission, showing the value as compact JSON text.
pub fn handle_submit_post_json(json: JsonValue) -> (r: Vec<u8>)
    ensures
        r@ == submit_post_page(encode_utf8(json_display(json.source()))),
{
    let message = json_text(&json);
    html_response(Status::Okay, "SUBMIT POST", message.as_str())
}

/// Confirms a text submission, showing the text.
pub fn handle_submit_post_text(body: String) -> (r: Vec<u8>)
    ensures
        r@ == submit_post_page(encode_utf8(body@)),
{
    html_response(Status::Okay, "SUBMIT POST", body.as_str())
}

/// Confirms a binary submission.
pub fn handle_submit_post_binary(_body: Vec<u8>) -> (r: Vec<u8>)
    ensures
        r@ == submit_post_page("BINARY".spec_bytes()),
{
    html_response(Status::Okay, "SUBMIT POST", "BINARY")
}

/// The page that confirms a submission with this body.
pub open spec fn submission_page(body: BodyView) -> Seq<u8> {
    match body {
        BodyView::Json(source) => submit_post_page(encode_utf8(json_display(source))),
        BodyView::Text(t) => submit_post_page(encode_utf8(t)),
        BodyView::Binary(_) => submit_post_page("BINARY".spec_bytes()),
    }
}

/// Confirms a submission of any kind of body.
pub fn submit_post_handler(_query_map: &FieldMap, body: UniversalBody) -> (r: Vec<u8>)
    ensures
        r@ == submission_page(body@),
{
    match body {
        UniversalBody::Json(json) => handle_submit_post_json(json),
        UniversalBody::Text(text) => handle_submit_post_text(text),
        UniversalBody::Binary(binary) => handle_submit_post_binary(binary),
    }
}

/// `GET /api/v1/users`.
pub fn handle_get_user(_query_map: &FieldMap) -> (r: Vec<u8>)
    ensures
        r@ == api_reply(Status::Okay, user_payload()),
{
    api_response(Status::Okay, "{\"name\": \"Stingray Get User\"}".as_bytes())
}

/// The answer to a post whose body has the string member `name`, or has none.
pub open spec fn post_answer_for(name: Option<Seq<char>>) -> Seq<u8> {
    match name {
        Some(n) => api_reply(Status::Okay, post_payload(n)),
        None => api_reply(Status::BadRequest, post_error_payload()),
    }
}

/// The answer to a post with this body: it echoes the string member `name` of
/// a JSON body, and is a bad request for any other body.
pub open spec fn post_answer(body: BodyView) -> Seq<u8> {
    match body {
        BodyView::Json(source) => post_answer_for(json_string_member(source, "name"@)),
        _ => post_answer_for(None),
    }
}

/// The answer to a post whose body has the string member `name`, or has none.
pub fn post_reply(name: Option<&str>) -> (r: Vec<u8>)
    ensures
        r@ == post_answer_for(
            match name {
                Some(n) => Some(n@),
                None => None,
            },
        ),
{
    match name {
        Some(n) => {
            let quoted = match json_quoted(n) {
                Ok(q) => q,
                Err(_) => {
                    return server_error_response();
                },
            };
            let mut payload: Vec<u8> = Vec::new();
            append_bytes(&mut payload, "{\"namessssss\": ".as_bytes());
            append_bytes(&mut payload, quoted.as_slice());
            append_bytes(&mut payload, "}".as_bytes());
            assert(payload@ =~= post_payload(n@));
            api_response(Status::Okay, payload.as_slice())
        },
        None => api_response(Status::BadRequest, "{\"error\": \"BAD REQUEST\"}".as_bytes()),
    }
}

/// `POST /api/v1/posts`: echoes the string member `name` of a JSON body.
pub fn handle_post_post(_query_map: &FieldMap, body: UniversalBody) -> (r: Vec<u8>)
    ensures
        r@ == post_answer(body@),
{
    match body {
        UniversalBody::Json(value) => post_reply(json_member_str(&value, "name")),
        _ => post_reply(None),
    }
}

} // verus!
