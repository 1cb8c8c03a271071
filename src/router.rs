//! Dispatch: from method and path to the handler that answers, by an ordered
//! table whose first matching row wins.
use vstd::prelude::*;
use vstd::string::StringSliceAdditionalSpecFns;
use crate::bytes::bytes_eq;
use crate::parser::post_method;
use crate::fields::FieldMap;
use crate::request::{path_refused, sanitize_path};
use crate::response::api_reply;
use crate::routes::{
    about_page, chunked_page, forbidden_page, handle_400, handle_403, handle_404,
    handle_about, handle_get_user, handle_home, handle_post_post, handle_submit_get,
    handle_transfer_chunk_encoding, home_page, not_found_page, post_answer, submission_page,
    submit_get_page, submit_post_handler, user_payload, bad_request_page,
};
use crate::status::Status;
use crate::types::{BodyView, UniversalBody};

verus! {

/// The handler that a request goes to.
#[derive(Clone, Copy, Debug, PartialEq, Eq, Structural)]
pub enum Route {
    BadRequest,
    GetUser,
    PostPost,
    Home,
    About,
    SubmitGet,
    SubmitPost,
    Chunked,
    StaticFile,
    Forbidden,
    NotFound,
}

/// What the router answers: response bytes, or the path of a static file that
/// the caller reads and answers with through `file_response`.
pub enum Routed {
    Response(Vec<u8>),
    StaticFile(Vec<u8>),
}

pub open spec fn get_method() -> Seq<u8> {
    "GET".spec_bytes()
}

/// The dispatch table. A sanitised path of `400` answers bad request whatever
/// the method; then come the declared endpoints; any other GET of a safe path
/// serves a static file; an unsafe path is forbidden; the rest is not found.
pub open spec fn route_for(method: Seq<u8>, path: Seq<u8>) -> Route {
    let get = method == get_method();
    let post = method == post_method();
    if path_refused(path) {
        Route::Forbidden
    } else if path == "400".spec_bytes() {
        Route::BadRequest
    } else if get && path == "/api/v1/users".spec_bytes() {
        Route::GetUser
    } else if post && path == "/api/v1/posts".spec_bytes() {
        Route::PostPost
    } else if get && path == "/".spec_bytes() {
        Route::Home
    } else if get && path == "/about".spec_bytes() {
        Route::About
    } else if get && path == "/submit".spec_bytes() {
        Route::SubmitGet
    } else if post && (path == "/submit/json".spec_bytes() || path == "/submit/text".spec_bytes()
        || path == "/submit/binary".spec_bytes()) {
        Route::SubmitPost
    } else if get && path == "/chunky".spec_bytes() {
        Route::Chunked
    } else if get {
        Route::StaticFile
    } else {
        Route::NotFound
    }
}

/// `r` answers with a response of these bytes.
pub open spec fn answers(r: Routed, bytes: Seq<u8>) -> bool {
    r matches Routed::Response(v) && v@ == bytes
}

/// What the router answers for a method, a path and a body: the response of the
/// handler that `route_for` picks.
pub open spec fn route_outcome(r: Routed, method: Seq<u8>, path: Seq<u8>, body: BodyView) -> bool {
    match route_for(method, path) {
        Route::BadRequest => answers(r, bad_request_page()),
        Route::GetUser => answers(r, api_reply(Status::Okay, user_payload())),
        Route::PostPost => answers(r, post_answer(body)),
        Route::Home => answers(r, home_page()),
        Route::About => answers(r, about_page()),
        Route::SubmitGet => answers(r, submit_get_page()),
        Route::SubmitPost => answers(r, submission_page(body)),
        Route::Chunked => answers(r, chunked_page()),
        Route::StaticFile => r matches Routed::StaticFile(p) && p@ == path,
        Route::Forbidden => answers(r, forbidden_page()),
        Route::NotFound => answers(r, not_found_page()),
    }
}

/// Picks the handler for a method and a path.
pub fn select_route(request_method: &[u8], path: &[u8]) -> (r: Route)
    ensures
        r == route_for(request_method@, path@),
{
    let safe = match sanitize_path(path) {
        Some(p) => p,
        None => {
            return Route::Forbidden;
        },
    };
    let get = bytes_eq(request_method, "GET".as_bytes());
    let post = bytes_eq(request_method, "POST".as_bytes());
    if bytes_eq(safe, "400".as_bytes()) {
        Route::BadRequest
    } else if get && bytes_eq(safe, "/api/v1/users".as_bytes()) {
        Route::GetUser
    } else if post && bytes_eq(safe, "/api/v1/posts".as_bytes()) {
        Route::PostPost
    } else if get && bytes_eq(safe, "/".as_bytes()) {
        Route::Home
    } else if get && bytes_eq(safe, "/about".as_bytes()) {
        Route::About
    } else if get && bytes_eq(safe, "/submit".as_bytes()) {
        Route::SubmitGet
    } else if post && (bytes_eq(safe, "/submit/json".as_bytes()) || bytes_eq(
        safe,
        "/submit/text".as_bytes(),
    ) || bytes_eq(safe, "/submit/binary".as_bytes())) {
        Route::SubmitPost
    } else if get && bytes_eq(safe, "/chunky".as_bytes()) {
        Route::Chunked
    } else if get {
        Route::StaticFile
    } else {
        Route::NotFound
    }
}

/// Answers a request by its method and path (without query) through the handler
/// that the dispatch table picks. It never fails.
pub fn route_request(
    request_method: &[u8],
    path: &[u8],
    body: UniversalBody,
    query_map: &FieldMap,
) -> (r: Routed)
    ensures
        route_outcome(r, request_method@, path@, body@),
{
    match select_route(request_method, path) {
        Route::BadRequest => Routed::Response(handle_400()),
        Route::GetUser => Routed::Response(handle_get_user(query_map)),
        Route::PostPost => Routed::Response(handle_post_post(query_map, body)),
        Route::Home => Routed::Response(handle_home()),
        Route::About => Routed::Response(handle_about()),
        Route::SubmitGet => Routed::Response(handle_submit_get(query_map)),
        Route::SubmitPost => Routed::Response(submit_post_handler(query_map, body)),
        Route::Chunked => Routed::Response(handle_transfer_chunk_encoding()),
        Route::StaticFile => {
            let mut p: Vec<u8> = Vec::new();
            crate::bytes::append_bytes(&mut p, path);
            Routed::StaticFile(p)
        },
        Route::Forbidden => Routed::Response(handle_403()),
        Route::NotFound => Routed::Response(handle_404()),
    }
}

} // verus!
