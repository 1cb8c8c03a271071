use stingray::connection::{process_request, Connection, Phase, Progress};
use stingray::reader::ReadEvent;
use stingray::request::sanitize_path;
use stingray::router::Routed;

fn response_bytes(routed: Routed) -> Vec<u8> {
    match routed {
        Routed::Response(bytes) => bytes,
        Routed::StaticFile(path) => panic!("static file {:?}", String::from_utf8_lossy(&path)),
    }
}

fn text(bytes: &[u8]) -> String {
    String::from_utf8_lossy(bytes).into_owned()
}

fn feed(conn: &mut Connection, chunk: &[u8]) -> Progress {
    conn.on_event(ReadEvent::Bytes(chunk.to_vec()))
}

fn body_of(response: &[u8]) -> Vec<u8> {
    let pos = response.windows(4).position(|w| w == b"\r\n\r\n").unwrap();
    response[pos + 4..].to_vec()
}

#[test]
fn home_page_scenario() {
    let reply = process_request(b"GET / HTTP/1.1\r\nHost: x\r\n\r\n");
    assert!(reply.keep_alive);
    let response = text(&response_bytes(reply.routed));
    assert!(response.starts_with("HTTP/1.1 200 OK\r\n"));
    assert!(response.contains("HOME"));
}

#[test]
fn garbage_request_scenario() {
    let reply = process_request(b"GARBAGE DATA\r\n\r\n");
    assert!(!reply.keep_alive);
    let response = text(&response_bytes(reply.routed));
    assert!(response.starts_with("HTTP/1.1 400 BAD REQUEST"));
}

#[test]
fn garbage_through_connection_scenario() {
    let mut conn = Connection::new();
    let request = match feed(&mut conn, b"GARBAGE DATA\r\n\r\n") {
        Progress::Ready(bytes) => bytes,
        _ => panic!("request not complete"),
    };
    let reply = process_request(&request);
    let response = text(&response_bytes(reply.routed));
    assert!(response.starts_with("HTTP/1.1 400 BAD REQUEST"));
    conn.finish(reply.keep_alive);
    assert_eq!(conn.phase(), Phase::Closed);
}

#[test]
fn traversal_scenario() {
    let reply = process_request(b"GET /../etc/passwd HTTP/1.1\r\nHost: x\r\n\r\n");
    let response = text(&response_bytes(reply.routed));
    assert!(response.starts_with("HTTP/1.1 403 FORBIDDEN"));
}

#[test]
fn post_name_scenario() {
    // The declared length counts the newline that ends the JSON text.
    let mut conn = Connection::new();
    let head = b"POST /api/v1/posts HTTP/1.1\r\nContent-Type: application/json\r\nContent-Length: 17\r\n\r\n";
    let mut first = head.to_vec();
    first.extend_from_slice(b"{\"name\":\"Alice\"}");
    assert!(matches!(feed(&mut conn, &first), Progress::NeedMore));
    assert_eq!(conn.phase(), Phase::AwaitBody);
    assert_eq!(conn.wanted(), 1);
    let request = match feed(&mut conn, b"\n") {
        Progress::Ready(bytes) => bytes,
        _ => panic!("request not complete"),
    };
    let reply = process_request(&request);
    let response = response_bytes(reply.routed);
    assert!(text(&response).starts_with("HTTP/1.1 200 OK\r\n"));
    let envelope: serde_json::Value = serde_json::from_slice(&body_of(&response)).unwrap();
    assert_eq!(envelope["status"], "HTTP/1.1 200 OK");
    assert_eq!(envelope["body"]["namessssss"], "Alice");
}

#[test]
fn post_without_name_is_bad_request() {
    let reply = process_request(
        b"POST /api/v1/posts HTTP/1.1\r\nContent-Type: application/json\r\nContent-Length: 9\r\n\r\n{\"id\": 1}",
    );
    let response = response_bytes(reply.routed);
    assert!(text(&response).starts_with("HTTP/1.1 400 BAD REQUEST\r\n"));
    let envelope: serde_json::Value = serde_json::from_slice(&body_of(&response)).unwrap();
    assert_eq!(envelope["body"]["error"], "BAD REQUEST");
}

#[test]
fn keep_alive_then_close_scenario() {
    let mut conn = Connection::new();
    let mut responses = Vec::new();
    let requests: [&[u8]; 2] = [
        b"GET / HTTP/1.1\r\nHost: x\r\n\r\n",
        b"GET /about HTTP/1.1\r\nHost: x\r\nConnection: Close\r\n\r\n",
    ];
    for request in requests {
        assert_eq!(conn.phase(), Phase::AwaitHeader);
        assert_eq!(conn.wanted(), 1024);
        let full = match feed(&mut conn, request) {
            Progress::Ready(bytes) => bytes,
            _ => panic!("request not complete"),
        };
        let reply = process_request(&full);
        responses.push(text(&response_bytes(reply.routed)));
        conn.finish(reply.keep_alive);
    }
    assert!(responses[0].starts_with("HTTP/1.1 200 OK") && responses[0].contains("HOME"));
    assert!(responses[1].starts_with("HTTP/1.1 200 OK") && responses[1].contains("ABOUT"));
    assert_eq!(conn.phase(), Phase::Closed);
    assert_eq!(conn.wanted(), 0);
    assert!(matches!(feed(&mut conn, b"GET / HTTP/1.1\r\n\r\n"), Progress::Idle));
}

#[test]
fn body_split_across_reads_is_rebuilt() {
    let body: Vec<u8> = (0..200u32).map(|i| (i * 7 % 251) as u8).collect();
    let mut request = format!(
        "POST /submit/binary HTTP/1.1\r\nContent-Type: application/octet-stream\r\nContent-Length: {}\r\n\r\n",
        body.len()
    )
    .into_bytes();
    request.extend_from_slice(&body);
    for cut in [1usize, 3, 7, 64, 1000] {
        let mut conn = Connection::new();
        let mut result = None;
        for chunk in request.chunks(cut) {
            match feed(&mut conn, chunk) {
                Progress::NeedMore => {}
                Progress::Ready(bytes) => {
                    result = Some(bytes);
                    break;
                }
                _ => panic!("unexpected progress"),
            }
        }
        assert_eq!(result.unwrap(), request);
    }
}

#[test]
fn body_reads_are_capped() {
    let mut conn = Connection::new();
    let progress = feed(&mut conn, b"POST /submit/binary HTTP/1.1\r\nContent-Length: 100000000000\r\n\r\nab");
    assert!(matches!(progress, Progress::NeedMore));
    assert_eq!(conn.phase(), Phase::AwaitBody);
    assert_eq!(conn.wanted(), 1024);
}

#[test]
fn sanitize_scenario() {
    assert!(sanitize_path(b"../x").is_none());
    assert!(sanitize_path(b"/a/./b").is_none());
    assert!(sanitize_path(b"a\0b").is_none());
    assert_eq!(sanitize_path(b"/about"), Some(&b"/about"[..]));
}

#[test]
fn closed_peer_gives_timeout_response() {
    let mut conn = Connection::new();
    assert!(matches!(feed(&mut conn, b"GET / HT"), Progress::NeedMore));
    match conn.on_event(ReadEvent::Bytes(Vec::new())) {
        Progress::Failed(e) => {
            let response = text(&stingray::request::error_handler(e));
            assert!(response.starts_with("HTTP/1.1 408 REQUEST TIMEOUT"));
        }
        _ => panic!("expected a failure"),
    }
    assert_eq!(conn.phase(), Phase::Closed);
}
