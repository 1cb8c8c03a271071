use stingray::fields::FieldMap;
use stingray::number::{decimal_bytes, parse_usize};
use stingray::parser::{
    deserialize_body, get_content_length, parse_api_request, parse_headers, parse_request_by_type,
    parse_request_line, parse_web_request, trim_by_content_length,
};
use stingray::reader::{read_body, read_header, remaining_body, ReadEvent};
use stingray::request::{extract_path_from_buffer, extract_request_parts, is_api_request, query_to_map};
use stingray::status::{ParseError, Status};
use stingray::types::{ParsedRequest, UniversalBody};

fn get<'a>(map: &'a FieldMap, key: &str) -> Option<&'a [u8]> {
    map.get(key.as_bytes()).map(|v| v.as_slice())
}

#[test]
fn request_line_has_three_words() {
    let (m, p, v) = parse_request_line(b"GET /a?b=1 HTTP/1.1\r").unwrap();
    assert_eq!((m.as_slice(), p.as_slice(), v.as_slice()), (&b"GET"[..], &b"/a?b=1"[..], &b"HTTP/1.1"[..]));
    assert_eq!(parse_request_line(b"  GET\t/  HTTP/1.0  ").unwrap().1, b"/".to_vec());
    assert_eq!(parse_request_line(b"GARBAGE DATA"), Err(ParseError::MalformedRequest));
    assert_eq!(parse_request_line(b"A B C D"), Err(ParseError::MalformedRequest));
    assert_eq!(parse_request_line(b""), Err(ParseError::MalformedRequest));
}

#[test]
fn headers_split_on_colon_space_and_last_wins() {
    let lines = vec![
        b"Host: x\r".to_vec(),
        b"no separator here".to_vec(),
        b"X-A:  one  ".to_vec(),
        b"X-A: two: three".to_vec(),
        b"content-length: 4".to_vec(),
    ];
    let headers = parse_headers(&lines);
    assert_eq!(headers.len(), 3);
    assert_eq!(get(&headers, "Host"), Some(&b"x"[..]));
    assert_eq!(get(&headers, "X-A"), Some(&b"two: three"[..]));
    assert_eq!(get(&headers, "Content-Length"), None);
    assert_eq!(get(&headers, "content-length"), Some(&b"4"[..]));
    assert_eq!(headers.entry(1).0.as_slice(), b"X-A");
}

#[test]
fn body_bounded_by_content_length() {
    let mut headers = FieldMap::new();
    assert_eq!(trim_by_content_length(&headers, b"abc", Some(1), b"GET"), Ok(Vec::new()));
    assert_eq!(trim_by_content_length(&headers, b"abc", Some(1), b"POST"), Err(ParseError::MalformedRequest));
    headers.insert(b"Content-Length".to_vec(), b"2".to_vec());
    assert_eq!(trim_by_content_length(&headers, b"abcd", Some(1), b"POST"), Ok(b"bc".to_vec()));
    assert_eq!(trim_by_content_length(&headers, b"abcd", None, b"GET"), Ok(b"ab".to_vec()));
    assert_eq!(trim_by_content_length(&headers, b"abc", Some(2), b"POST"), Err(ParseError::MalformedRequest));
    headers.insert(b"Content-Length".to_vec(), b"-1".to_vec());
    assert_eq!(trim_by_content_length(&headers, b"abcd", Some(0), b"GET"), Err(ParseError::MalformedRequest));
}

#[test]
fn announced_content_length() {
    assert_eq!(get_content_length(b"GET / HTTP/1.1\r\nHost: x\r\n\r\n"), Ok(0));
    assert_eq!(get_content_length(b"POST / HTTP/1.1\r\nContent-Length: 12\r\n\r\nab"), Ok(12));
    assert_eq!(get_content_length(b"POST / HTTP/1.1\r\nContent-Length: +7\r\n\r\n"), Ok(7));
    assert_eq!(get_content_length(b"POST / HTTP/1.1\r\nContent-Length: x\r\n\r\n"), Err(ParseError::MalformedRequest));
    assert_eq!(get_content_length(b"GET / HTTP/1.1\r\nH: \xff\r\n\r\n"), Err(ParseError::MalformedRequest));
    // Body bytes are not headers.
    assert_eq!(get_content_length(b"POST / HTTP/1.1\r\n\r\nContent-Length: 3"), Ok(0));
}

#[test]
fn numbers_read_and_written() {
    assert_eq!(parse_usize(b"0"), Some(0));
    assert_eq!(parse_usize(b"+42"), Some(42));
    assert_eq!(parse_usize(b"18446744073709551615"), Some(usize::MAX));
    assert_eq!(parse_usize(b"18446744073709551616"), None);
    assert_eq!(parse_usize(b""), None);
    assert_eq!(parse_usize(b"+"), None);
    assert_eq!(parse_usize(b"1 "), None);
    assert_eq!(decimal_bytes(0), b"0".to_vec());
    assert_eq!(decimal_bytes(1234), b"1234".to_vec());
    assert_eq!(decimal_bytes(usize::MAX), usize::MAX.to_string().into_bytes());
}

#[test]
fn bodies_decoded_by_content_type() {
    match deserialize_body(b"{\"a\": [1, 2]}", b"application/json") {
        Ok(UniversalBody::Json(v)) => assert_eq!(v.value()["a"][1], 2),
        other => panic!("{:?}", other),
    }
    assert_eq!(deserialize_body(b"{\"a\": ", b"application/json").err(), Some(ParseError::MalformedRequest));
    assert_eq!(deserialize_body(b"plain words", b"application/json").err(), Some(ParseError::MalformedRequest));
    match deserialize_body(b"caf\xc3\xa9", b"text/plain") {
        Ok(UniversalBody::Text(t)) => assert_eq!(t, "caf\u{e9}"),
        other => panic!("{:?}", other),
    }
    match deserialize_body(b"a=1&b=2", b"application/x-www-form-urlencoded") {
        Ok(UniversalBody::Text(t)) => assert_eq!(t, "a=1&b=2"),
        other => panic!("{:?}", other),
    }
    match deserialize_body(b"\xff\x00\x01", b"application/octet-stream") {
        Ok(UniversalBody::Binary(b)) => assert_eq!(b, vec![0xff, 0, 1]),
        other => panic!("{:?}", other),
    }
    assert_eq!(deserialize_body(b"\xff", b"image/png").err(), Some(ParseError::MalformedRequest));
    match deserialize_body(b"{}", b"application/json; charset=utf-8") {
        Ok(UniversalBody::Text(t)) => assert_eq!(t, "{}"),
        other => panic!("{:?}", other),
    }
}

#[test]
fn json_bodies_round_trip() {
    let values = [
        serde_json::Value::Null,
        serde_json::Value::Bool(true),
        serde_json::Value::from(-12.5),
        serde_json::Value::from("tab\there \"quoted\" \u{1F600}"),
        serde_json::Value::from(vec![serde_json::Value::from(1), serde_json::Value::Null]),
        serde_json::from_str("{\"k\": {\"nested\": [1, \"two\", false]}, \"e\": {}}").unwrap(),
    ];
    for value in values {
        let bytes = serde_json::to_vec(&value).unwrap();
        match deserialize_body(&bytes, b"application/json") {
            Ok(UniversalBody::Json(back)) => assert_eq!(back.value(), &value),
            other => panic!("{:?}", other),
        }
    }
}

#[test]
fn whole_requests_parsed() {
    let buffer = b"POST /submit/text?x=1 HTTP/1.1\r\nContent-Type: text/plain\r\nContent-Length: 5\r\n\r\nhello, extra";
    let req = parse_web_request(buffer).unwrap();
    assert_eq!(req.method, b"POST".to_vec());
    assert_eq!(req.path, b"/submit/text?x=1".to_vec());
    assert_eq!(req.version, b"HTTP/1.1".to_vec());
    assert_eq!(get(&req.headers, "Content-Length"), Some(&b"5"[..]));
    match req.body {
        UniversalBody::Text(t) => assert_eq!(t, "hello"),
        other => panic!("{:?}", other),
    }
    let api = parse_api_request(b"GET /api/v1/users HTTP/1.1\r\n\r\n").unwrap();
    assert_eq!(api.path, b"/api/v1/users".to_vec());
    assert!(matches!(parse_request_by_type(true, b"GET / HTTP/1.1\r\n\r\n"), Ok(ParsedRequest::Api(_))));
    assert!(matches!(parse_request_by_type(false, b"GET / HTTP/1.1\r\n\r\n"), Ok(ParsedRequest::HTTP(_))));
    assert_eq!(parse_web_request(b"POST / HTTP/1.1\r\n\r\n").err(), Some(ParseError::MalformedRequest));
    assert_eq!(
        parse_web_request(b"POST / HTTP/1.1\r\nContent-Length: 10\r\n\r\nshort").err(),
        Some(ParseError::MalformedRequest)
    );
    assert_eq!(parse_web_request(b"GET / HTTP/1.1\r\n\xc3\r\n\r\n").err(), Some(ParseError::MalformedRequest));
}

#[test]
fn api_requests_recognised_by_path() {
    assert!(is_api_request(b"GET /api/v1/users HTTP/1.1\r\n\r\n"));
    assert!(!is_api_request(b"GET /apix HTTP/1.1\r\n\r\n"));
    assert!(!is_api_request(b"GET /api HTTP/1.1\r\n\r\n"));
    assert!(!is_api_request(b"GARBAGE\r\n/api/ x"));
    assert!(!is_api_request(b"GET /api/\xff HTTP/1.1\r\n"));
    assert_eq!(extract_path_from_buffer(b"GET /x?y HTTP/1.1\r\nHost: z"), Some(b"/x?y".to_vec()));
    assert_eq!(extract_path_from_buffer(b"GET\n/x"), None);
    assert_eq!(extract_path_from_buffer(b""), None);
}

#[test]
fn queries_become_maps() {
    let map = query_to_map(b"a=1&b&c=x=y&a=2");
    assert_eq!(map.len(), 3);
    assert_eq!(get(&map, "a"), Some(&b"2"[..]));
    assert_eq!(get(&map, "b"), Some(&b""[..]));
    assert_eq!(get(&map, "c"), Some(&b"x=y"[..]));
    let empty = query_to_map(b"");
    assert_eq!(empty.len(), 1);
    assert_eq!(get(&empty, ""), Some(&b""[..]));
}

#[test]
fn request_parts_split_path_and_query() {
    let parsed = parse_request_by_type(false, b"GET /submit?name=bo&x HTTP/1.1\r\nConnection: close\r\n\r\n").unwrap();
    let (body, path, method, query, headers) = extract_request_parts(parsed);
    assert!(matches!(body, UniversalBody::Text(ref t) if t.is_empty()));
    assert_eq!(path, b"/submit".to_vec());
    assert_eq!(method, b"GET".to_vec());
    assert_eq!(get(&query, "name"), Some(&b"bo"[..]));
    assert_eq!(get(&query, "x"), Some(&b""[..]));
    assert_eq!(get(&headers, "Connection"), Some(&b"close"[..]));
}

#[test]
fn header_reader_steps() {
    let mut buffer = Vec::new();
    assert_eq!(read_header(&mut buffer, ReadEvent::Bytes(b"GET / HTTP/1.1\r\n".to_vec())), Ok(false));
    assert_eq!(read_header(&mut buffer, ReadEvent::Bytes(b"\r\nbody".to_vec())), Ok(true));
    assert_eq!(buffer, b"GET / HTTP/1.1\r\n\r\nbody".to_vec());
    assert_eq!(read_header(&mut buffer, ReadEvent::Bytes(Vec::new())), Err(ParseError::ConnectionAborted));
    assert_eq!(read_header(&mut buffer, ReadEvent::TimedOut), Err(ParseError::ConnectionAborted));
    assert_eq!(read_header(&mut buffer, ReadEvent::Failed), Err(ParseError::IoError));
    assert_eq!(buffer.len(), 22);
}

#[test]
fn body_reader_steps() {
    let mut body = b"ab".to_vec();
    assert_eq!(remaining_body(5, &body), 3);
    assert_eq!(remaining_body(1, &body), 0);
    assert_eq!(read_body(5, &mut body, ReadEvent::Bytes(b"c".to_vec())), Ok(false));
    assert_eq!(read_body(5, &mut body, ReadEvent::Bytes(b"de".to_vec())), Ok(true));
    assert_eq!(body, b"abcde".to_vec());
    assert_eq!(read_body(9, &mut body, ReadEvent::TimedOut), Err(ParseError::ConnectionAborted));
    assert_eq!(read_body(9, &mut body, ReadEvent::Failed), Err(ParseError::IoError));
    assert_eq!(read_body(9, &mut body, ReadEvent::Bytes(Vec::new())), Err(ParseError::ConnectionAborted));
    // A complete body takes nothing more.
    assert_eq!(read_body(5, &mut body, ReadEvent::Bytes(b"zz".to_vec())), Ok(true));
    assert_eq!(read_body(3, &mut body, ReadEvent::Failed), Ok(true));
    assert_eq!(body, b"abcde".to_vec());
}

#[test]
fn unicode_whitespace_separates_and_trims() {
    let (m, p, v) = parse_request_line("GET\u{a0}/api/x\u{3000}HTTP/1.1\u{2009}".as_bytes()).unwrap();
    assert_eq!((m, p, v), (b"GET".to_vec(), b"/api/x".to_vec(), b"HTTP/1.1".to_vec()));
    assert!(is_api_request("GET\u{a0}/api/x HTTP/1.1\r\n\r\n".as_bytes()));
    assert_eq!(extract_path_from_buffer("GET\u{85}/p\u{205f}H".as_bytes()), Some(b"/p".to_vec()));
    assert_eq!(parse_request_line("GET /caf\u{e9} HTTP/1.1".as_bytes()).unwrap().1, "/caf\u{e9}".as_bytes().to_vec());
    let lines = vec!["X: \u{3000}\u{a0}v a\u{1680}\t".as_bytes().to_vec()];
    let headers = parse_headers(&lines);
    assert_eq!(get(&headers, "X"), Some(&b"v a"[..]));
}

#[test]
fn status_lines() {
    assert_eq!(Status::Okay.line(), b"HTTP/1.1 200 OK");
    assert_eq!(Status::NotFound.line(), b"HTTP/1.1 404 NOT FOUND");
    assert_eq!(Status::RequestTimeout.line(), b"HTTP/1.1 408 REQUEST TIMEOUT");
    assert_eq!(Status::ServiceUnavailable.line(), b"HTTP/1.1 503 SERVICE UNAVAILABLE");
}
