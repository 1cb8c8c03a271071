use stingray::fields::FieldMap;
use stingray::json::JsonValue;
use stingray::request::error_handler;
use stingray::response::{
    api_envelope_response, api_response, build_response, build_response_header, file_response,
    get_content_type, html_response, static_file_path,
};
use stingray::router::{route_request, select_route, Route, Routed};
use stingray::routes::{
    handle_400, handle_403, handle_404, handle_408, handle_500, handle_about, handle_get_user,
    handle_home, handle_post_post, handle_submit_get, handle_submit_post,
    handle_submit_post_binary, handle_submit_post_text, handle_transfer_chunk_encoding,
    post_reply, submit_post_handler,
};
use stingray::status::{ParseError, Status};
use stingray::types::UniversalBody;

fn text(bytes: &[u8]) -> String {
    String::from_utf8_lossy(bytes).into_owned()
}

#[test]
fn html_response_layout() {
    let r = html_response(Status::Okay, "T", "m");
    assert_eq!(
        text(&r),
        "HTTP/1.1 200 OK\r\nContent-Type: text/html\r\nContent-Length: 44\r\n\r\n<html><body><h1>T</h1><p>m</p></body></html>"
    );
}

#[test]
fn built_response_parts() {
    let headers = build_response_header(b"text/css", b"abc");
    assert_eq!(headers.len(), 2);
    assert_eq!(headers.entry(0).0.as_slice(), b"Content-Type");
    assert_eq!(headers.entry(1).1.as_slice(), b"3");
    let response = build_response(Status::Created, b"text/plain", b"");
    assert_eq!(response.status, b"HTTP/1.1 201 CREATED".to_vec());
    assert_eq!(
        text(&response.convert_to_vec()),
        "HTTP/1.1 201 CREATED\r\nContent-Type: text/plain\r\nContent-Length: 0\r\n\r\n"
    );
}

#[test]
fn api_envelope_layout() {
    let r = api_envelope_response(Status::Okay, b"[1]");
    assert!(text(&r).ends_with("\r\n\r\n{\"status\":\"HTTP/1.1 200 OK\",\"body\":[1]}"));
    assert!(text(&r).contains("Content-Type: application/json\r\nContent-Length: 39\r\n"));
}

#[test]
fn api_response_rewrites_json_compactly() {
    let r = api_response(Status::Okay, b"{\"name\": \"Stingray Get User\"}");
    assert!(text(&r).ends_with("{\"status\":\"HTTP/1.1 200 OK\",\"body\":{\"name\":\"Stingray Get User\"}}"));
    assert_eq!(handle_get_user(&FieldMap::new()), r);
    let bad = api_response(Status::Okay, b"{not json");
    assert!(text(&bad).starts_with("HTTP/1.1 500 INTERNAL SERVER ERROR"));
}

#[test]
fn post_replies() {
    let ok = text(&post_reply(Some("Bob")));
    assert!(ok.ends_with("{\"status\":\"HTTP/1.1 200 OK\",\"body\":{\"namessssss\":\"Bob\"}}"));
    let missing = text(&post_reply(None));
    assert!(missing.ends_with("{\"status\":\"HTTP/1.1 400 BAD REQUEST\",\"body\":{\"error\":\"BAD REQUEST\"}}"));
    let quote = text(&post_reply(Some("a\"b\\")));
    assert!(quote.ends_with("{\"status\":\"HTTP/1.1 200 OK\",\"body\":{\"namessssss\":\"a\\\"b\\\\\"}}"));
    let not_json = text(&handle_post_post(&FieldMap::new(), UniversalBody::Text("x".to_string())));
    assert!(not_json.starts_with("HTTP/1.1 400 BAD REQUEST"));
    let value = JsonValue::parse(b"{\"name\": 5}").unwrap();
    let number = text(&handle_post_post(&FieldMap::new(), UniversalBody::Json(value)));
    assert!(number.starts_with("HTTP/1.1 400 BAD REQUEST"));
    let named = JsonValue::parse(b"{\"id\": 3, \"name\": \"Eve\"}").unwrap();
    let named = text(&handle_post_post(&FieldMap::new(), UniversalBody::Json(named)));
    assert!(named.ends_with("\"body\":{\"namessssss\":\"Eve\"}}"));
    assert!(number.starts_with("HTTP/1.1 400 BAD REQUEST"));
}

#[test]
fn page_handlers() {
    assert!(text(&handle_home()).contains("<h1>HOME</h1><p>HOME</p>"));
    assert!(text(&handle_about()).contains("<h1>ABOUT</h1><p>about</p>"));
    assert!(text(&handle_404()).starts_with("HTTP/1.1 404 NOT FOUND\r\n"));
    assert!(text(&handle_submit_get(&FieldMap::new())).contains("SUBMIT GET"));
    assert!(text(&handle_submit_post()).contains("<p>SUBMIT POST</p>"));
    assert!(text(&handle_500()).starts_with("HTTP/1.1 500 INTERNAL SERVER ERROR\r\n"));
    assert!(text(&handle_403()).contains("FORBIDDEN ACCESS"));
    assert!(text(&handle_400()).contains("<h1>BAD_REQUEST</h1>"));
    assert!(text(&handle_408()).starts_with("HTTP/1.1 408 REQUEST TIMEOUT\r\n"));
    assert!(text(&handle_transfer_chunk_encoding()).contains("TRANSFER CHUNK ENCODING"));
    assert!(text(&handle_submit_post_text("hi there".to_string())).contains("<p>hi there</p>"));
    assert!(text(&handle_submit_post_binary(vec![1, 2])).contains("<p>BINARY</p>"));
}

#[test]
fn submissions_by_body_kind() {
    let q = FieldMap::new();
    let json = JsonValue::parse(b"{\"a\": 1}").unwrap();
    assert!(text(&submit_post_handler(&q, UniversalBody::Json(json))).contains("<p>{\"a\":1}</p>"));
    assert!(text(&submit_post_handler(&q, UniversalBody::Text("t".to_string()))).contains("<p>t</p>"));
    assert!(text(&submit_post_handler(&q, UniversalBody::Binary(vec![0]))).contains("<p>BINARY</p>"));
}

#[test]
fn errors_map_to_responses() {
    assert_eq!(error_handler(ParseError::MalformedRequest), handle_400());
    assert_eq!(error_handler(ParseError::ConnectionAborted), handle_408());
    assert_eq!(error_handler(ParseError::IoError), handle_500());
}

#[test]
fn dispatch_table() {
    assert_eq!(select_route(b"DELETE", b"400"), Route::BadRequest);
    assert_eq!(select_route(b"GET", b"/api/v1/users"), Route::GetUser);
    assert_eq!(select_route(b"POST", b"/api/v1/users"), Route::NotFound);
    assert_eq!(select_route(b"POST", b"/api/v1/posts"), Route::PostPost);
    assert_eq!(select_route(b"GET", b"/"), Route::Home);
    assert_eq!(select_route(b"GET", b"/about"), Route::About);
    assert_eq!(select_route(b"GET", b"/submit"), Route::SubmitGet);
    assert_eq!(select_route(b"POST", b"/submit"), Route::NotFound);
    assert_eq!(select_route(b"POST", b"/submit/json"), Route::SubmitPost);
    assert_eq!(select_route(b"POST", b"/submit/text"), Route::SubmitPost);
    assert_eq!(select_route(b"POST", b"/submit/binary"), Route::SubmitPost);
    assert_eq!(select_route(b"GET", b"/chunky"), Route::Chunked);
    assert_eq!(select_route(b"GET", b"/index.html"), Route::StaticFile);
    assert_eq!(select_route(b"POST", b"/a/../b"), Route::Forbidden);
    assert_eq!(select_route(b"GET", b"/.env"), Route::Forbidden);
    assert_eq!(select_route(b"GARBAGE", b"/"), Route::NotFound);
}

#[test]
fn routing_answers() {
    let q = FieldMap::new();
    match route_request(b"GET", b"/nonexistent", UniversalBody::Text(String::new()), &q) {
        Routed::StaticFile(p) => assert_eq!(p, b"/nonexistent".to_vec()),
        Routed::Response(_) => panic!("expected a static file"),
    }
    match route_request(b"GET", b"/about", UniversalBody::Text(String::new()), &q) {
        Routed::Response(r) => assert_eq!(r, handle_about()),
        Routed::StaticFile(_) => panic!("expected a response"),
    }
    match route_request(b"PUT", b"/x", UniversalBody::Binary(Vec::new()), &q) {
        Routed::Response(r) => assert_eq!(r, handle_404()),
        Routed::StaticFile(_) => panic!("expected a response"),
    }
}

#[test]
fn static_files() {
    assert_eq!(static_file_path(b"//css/site.css"), b"static/css/site.css".to_vec());
    assert_eq!(static_file_path(b""), b"static/".to_vec());
    assert_eq!(get_content_type(b"/a.html"), b"text/html");
    assert_eq!(get_content_type(b"/a.css"), b"text/css");
    assert_eq!(get_content_type(b"/a.js"), b"application/javascript");
    assert_eq!(get_content_type(b"/a.jpg"), b"image/jpeg");
    assert_eq!(get_content_type(b"/a.jpeg"), b"image/jpeg");
    assert_eq!(get_content_type(b"/a.png"), b"image/png");
    assert_eq!(get_content_type(b"/a.txt"), b"text/plain");
    assert_eq!(get_content_type(b"html"), b"text/plain");
    let found = text(&file_response(b"/x.css", Some(b"p{}".to_vec())));
    assert_eq!(found, "HTTP/1.1 200 OK\r\nContent-Type: text/css\r\nContent-Length: 3\r\n\r\np{}");
    let missing = text(&file_response(b"/x.css", None));
    assert!(missing.starts_with("HTTP/1.1 404 NOT FOUND\r\n"));
    assert!(missing.ends_with("The requested file was not found"));
}
