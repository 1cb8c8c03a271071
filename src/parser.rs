//! Parsing a complete request buffer: the request line, the headers, the body
//! that `Content-Length` bounds, and its decoding by `Content-Type`.
use vstd::prelude::*;
use vstd::slice::slice_subrange;
use vstd::string::StringSliceAdditionalSpecFns;
use vstd::utf8::{decode_utf8, valid_utf8};
use crate::bytes::{
    bytes_eq, colon_space, copy_range, find, find_bytes, header_delimiter, header_delimiter_bytes,
    lemma_find_from_in_bounds, lemma_pieces_views, occurs_at, lemma_split_nonempty, split_bytes, split_on,
    split_words, trim, trim_spaces, views, words, COLON, LF, SPACE,
};
use crate::fields::FieldMap;
use crate::json::{json_accepts, JsonValue};
use crate::number::{parse_usize, usize_value};
use crate::status::ParseError;
use crate::text::utf8_string;
use crate::types::{ApiRequest, BodyView, HttpRequest, ParsedRequest, RequestView, UniversalBody};

verus! {

/// Where the header block of `buffer` ends: the first `\r\n\r\n`.
pub open spec fn header_end(buffer: Seq<u8>) -> Option<int> {
    find(buffer, header_delimiter())
}

/// The header block: the bytes before the first `\r\n\r\n`, or the whole buffer
/// when it holds none.
pub open spec fn head_of(buffer: Seq<u8>) -> Seq<u8> {
    match header_end(buffer) {
        Some(i) => buffer.subrange(0, i),
        None => buffer,
    }
}

/// Where the body starts: just after the first `\r\n\r\n`, or at the start of the
/// buffer when it holds none.
pub open spec fn body_start_of(buffer: Seq<u8>) -> int {
    match header_end(buffer) {
        Some(i) => i + 4,
        None => 0,
    }
}

/// The lines of the header block; the first is the request line.
pub open spec fn head_lines(buffer: Seq<u8>) -> Seq<Seq<u8>> {
    split_on(head_of(buffer), LF)
}

/// Method, path and version: the three words of a request line.
pub open spec fn request_line_parts(line: Seq<u8>) -> Option<(Seq<u8>, Seq<u8>, Seq<u8>)> {
    let w = words(line);
    if w.len() == 3 {
        Some((w[0], w[1], w[2]))
    } else {
        None
    }
}

/// A header line read as a name, what precedes the first `": "`, and a value,
/// what follows it without surrounding spaces.
pub open spec fn header_entry(line: Seq<u8>) -> Option<(Seq<u8>, Seq<u8>)> {
    match find(line, colon_space()) {
        Some(i) => Some((line.subrange(0, i), trim(line.subrange(i + 2, line.len() as int)))),
        None => None,
    }
}

/// The headers of `lines`; lines that are no header are passed over, and a later
/// line wins over an earlier one with the same name.
pub open spec fn headers_of(lines: Seq<Seq<u8>>) -> Map<Seq<u8>, Seq<u8>>
    decreases lines.len(),
{
    if lines.len() == 0 {
        Map::empty()
    } else {
        let m = headers_of(lines.drop_last());
        match header_entry(lines.last()) {
            Some(e) => m.insert(e.0, e.1),
            None => m,
        }
    }
}

pub open spec fn content_length_name() -> Seq<u8> {
    "Content-Length".spec_bytes()
}

pub open spec fn content_type_name() -> Seq<u8> {
    "Content-Type".spec_bytes()
}

pub open spec fn post_method() -> Seq<u8> {
    "POST".spec_bytes()
}

/// How many body bytes a request with these headers and this method carries.
/// Without `Content-Length` that is none, except that a POST must state it.
pub open spec fn expected_length(headers: Map<Seq<u8>, Seq<u8>>, method: Seq<u8>) -> Result<
    nat,
    ParseError,
> {
    if !headers.contains_key(content_length_name()) {
        if method == post_method() {
            Err(ParseError::MalformedRequest)
        } else {
            Ok(0)
        }
    } else {
        match usize_value(headers[content_length_name()]) {
            Some(n) => Ok(n),
            None => Err(ParseError::MalformedRequest),
        }
    }
}

/// The body: the `Content-Length` bytes of `buffer` from `start` on.
pub open spec fn body_bytes(
    headers: Map<Seq<u8>, Seq<u8>>,
    buffer: Seq<u8>,
    start: int,
    method: Seq<u8>,
) -> Result<Seq<u8>, ParseError> {
    if !headers.contains_key(content_length_name()) && method != post_method() {
        Ok(Seq::empty())
    } else {
        match expected_length(headers, method) {
            Err(e) => Err(e),
            Ok(n) => if 0 <= start && start + n <= buffer.len() {
                Ok(buffer.subrange(start, start + n))
            } else {
                Err(ParseError::MalformedRequest)
            },
        }
    }
}

/// The number of body bytes that the headers of `buffer` announce; none when
/// there is no `Content-Length`.
pub open spec fn announced_length(buffer: Seq<u8>) -> Result<nat, ParseError> {
    if !valid_utf8(head_of(buffer)) {
        Err(ParseError::MalformedRequest)
    } else {
        let headers = headers_of(head_lines(buffer).drop_first());
        if !headers.contains_key(content_length_name()) {
            Ok(0)
        } else {
            match usize_value(headers[content_length_name()]) {
                Some(n) => Ok(n),
                None => Err(ParseError::MalformedRequest),
            }
        }
    }
}

pub open spec fn json_type() -> Seq<u8> {
    "application/json".spec_bytes()
}

pub open spec fn octet_stream_type() -> Seq<u8> {
    "application/octet-stream".spec_bytes()
}

pub open spec fn text_plain_type() -> Seq<u8> {
    "text/plain".spec_bytes()
}

/// A body declared as JSON is a JSON value read from exactly those bytes when
/// `serde_json` reads them, and malformed otherwise: it never falls back to text.
pub proof fn lemma_json_body_never_text(body: Seq<u8>)
    ensures
        decoded_body(body, json_type()) == if json_accepts(body) {
            Ok::<BodyView, ParseError>(BodyView::Json(body))
        } else {
            Err::<BodyView, ParseError>(ParseError::MalformedRequest)
        },
{
}

/// A body decoded by its content type: JSON must be well formed, a byte stream is
/// kept as it is, and anything else must be UTF-8 text.
pub open spec fn decoded_body(body: Seq<u8>, content_type: Seq<u8>) -> Result<
    BodyView,
    ParseError,
> {
    if content_type == json_type() {
        if json_accepts(body) {
            Ok(BodyView::Json(body))
        } else {
            Err(ParseError::MalformedRequest)
        }
    } else if content_type == octet_stream_type() {
        Ok(BodyView::Binary(body))
    } else if valid_utf8(body) {
        Ok(BodyView::Text(decode_utf8(body)))
    } else {
        Err(ParseError::MalformedRequest)
    }
}

/// The content type that decides how a body is read: the `Content-Type` header,
/// or `text/plain` without one.
pub open spec fn content_type_of(headers: Map<Seq<u8>, Seq<u8>>) -> Seq<u8> {
    if headers.contains_key(content_type_name()) {
        headers[content_type_name()]
    } else {
        text_plain_type()
    }
}

/// A whole request buffer parsed: the header block must be UTF-8, the request
/// line must have three words, and the body must be present and decode.
pub open spec fn parsed(buffer: Seq<u8>) -> Result<RequestView, ParseError> {
    if !valid_utf8(head_of(buffer)) {
        Err(ParseError::MalformedRequest)
    } else {
        let lines = head_lines(buffer);
        match request_line_parts(lines[0]) {
            None => Err(ParseError::MalformedRequest),
            Some(parts) => {
                let headers = headers_of(lines.drop_first());
                match body_bytes(headers, buffer, body_start_of(buffer), parts.0) {
                    Err(e) => Err(e),
                    Ok(body) => match decoded_body(body, content_type_of(headers)) {
                        Err(e) => Err(e),
                        Ok(b) => Ok(
                            RequestView {
                                method: parts.0,
                                path: parts.1,
                                version: parts.2,
                                headers,
                                body: b,
                            },
                        ),
                    },
                }
            },
        }
    }
}

/// Splits a request line into method, path and version; it must have exactly
/// three words.
pub fn parse_request_line(line: &[u8]) -> (r: Result<(Vec<u8>, Vec<u8>, Vec<u8>), ParseError>)
    ensures
        r matches Ok(p) ==> request_line_parts(line@) == Some((p.0@, p.1@, p.2@)),
        r matches Err(e) ==> request_line_parts(line@) is None && e
            == ParseError::MalformedRequest,
{
    let mut parts = split_words(line);
    if parts.len() != 3 {
        return Err(ParseError::MalformedRequest);
    }
    let ghost w = parts@;
    let version = parts.pop().unwrap();
    let path = parts.pop().unwrap();
    let method = parts.pop().unwrap();
    proof {
        assert(w[2] == version && w[1] == path && w[0] == method);
    }
    Ok((method, path, version))
}

/// Reads one header line.
fn parse_header_line(line: &[u8]) -> (r: Option<(Vec<u8>, Vec<u8>)>)
    ensures
        r matches Some(e) ==> header_entry(line@) == Some((e.0@, e.1@)),
        r is None ==> header_entry(line@) is None,
{
    let sep = vec![COLON, SPACE];
    assert(sep@ =~= colon_space());
    match find_bytes(line, sep.as_slice()) {
        Some(i) => {
            proof {
                lemma_find_from_in_bounds(line@, colon_space(), 0);
                assert(occurs_at(line@, colon_space(), i as int));
                assert(colon_space().len() == 2);
            }
            let n = line.len();
            let name = copy_range(line, 0, i);
            let value = trim_spaces(slice_subrange(line, i + 2, n));
            Some((name, value))
        },
        None => None,
    }
}

/// The headers of `lines`, a later line winning over an earlier one with the
/// same name; lines without `": "` are passed over.
pub fn parse_headers(lines: &[Vec<u8>]) -> (r: FieldMap)
    ensures
        r.wf(),
        r@ == headers_of(views(lines@)),
{
    let mut headers = FieldMap::new();
    let mut i: usize = 0;
    while i < lines.len()
        invariant
            0 <= i <= lines@.len(),
            headers.wf(),
            headers@ == headers_of(views(lines@.subrange(0, i as int))),
        decreases lines@.len() - i,
    {
        let ghost before = views(lines@.subrange(0, i as int));
        let ghost after = views(lines@.subrange(0, i + 1));
        assert(after.drop_last() =~= before);
        assert(after.last() == lines@[i as int]@);
        match parse_header_line(lines[i].as_slice()) {
            Some((name, value)) => {
                headers.insert(name, value);
            },
            None => {},
        }
        i += 1;
    }
    assert(lines@.subrange(0, lines@.len() as int) =~= lines@);
    headers
}

/// The body of `buffer`: `Content-Length` bytes from `body_start` (the start of
/// the buffer when `None`). Without `Content-Length` there is no body, except
/// that a POST must have the header.
pub fn trim_by_content_length(
    headers: &FieldMap,
    buffer: &[u8],
    body_start: Option<usize>,
    method: &[u8],
) -> (r: Result<Vec<u8>, ParseError>)
    requires
        headers.wf(),
    ensures
        r matches Ok(b) ==> body_bytes(
            headers@,
            buffer@,
            match body_start {
                Some(s) => s as int,
                None => 0,
            },
            method@,
        ) == Ok::<Seq<u8>, ParseError>(b@),
        r matches Err(e) ==> body_bytes(
            headers@,
            buffer@,
            match body_start {
                Some(s) => s as int,
                None => 0,
            },
            method@,
        ) == Err::<Seq<u8>, ParseError>(e),
{
    let length_value = headers.get("Content-Length".as_bytes());
    let is_post = bytes_eq(method, "POST".as_bytes());
    let length_value = match length_value {
        None => {
            if !is_post {
                let empty: Vec<u8> = Vec::new();
                assert(empty@ =~= Seq::<u8>::empty());
                return Ok(empty);
            }
            return Err(ParseError::MalformedRequest);
        },
        Some(v) => v,
    };
    let n = match parse_usize(length_value.as_slice()) {
        Some(n) => n,
        None => {
            return Err(ParseError::MalformedRequest);
        },
    };
    let start: usize = match body_start {
        Some(s) => s,
        None => 0,
    };
    if start > buffer.len() || n > buffer.len() - start {
        return Err(ParseError::MalformedRequest);
    }
    Ok(copy_range(buffer, start, start + n))
}

/// The bytes before the first `\r\n\r\n` of `buffer` (all of them when there is
/// none), and where the body starts: just after that delimiter.
fn split_head(buffer: &[u8]) -> (r: (&[u8], Option<usize>))
    ensures
        r.0@ == head_of(buffer@),
        r.1 matches Some(s) ==> header_end(buffer@) == Some(s - 4) && 4 <= s <= buffer@.len(),
        r.1 is None ==> header_end(buffer@) is None,
{
    let n = buffer.len();
    let delimiter = header_delimiter_bytes();
    match find_bytes(buffer, delimiter.as_slice()) {
        Some(i) => {
            proof {
                lemma_find_from_in_bounds(buffer@, header_delimiter(), 0);
            }
            (slice_subrange(buffer, 0, i), Some(i + 4))
        },
        None => {
            assert(buffer@.subrange(0, n as int) =~= buffer@);
            (slice_subrange(buffer, 0, n), None)
        },
    }
}

/// The number of body bytes that the headers of `buffer` announce, none when
/// there is no `Content-Length`.
pub fn get_content_length(buffer: &[u8]) -> (r: Result<usize, ParseError>)
    ensures
        r matches Ok(n) ==> announced_length(buffer@) == Ok::<nat, ParseError>(n as nat),
        r matches Err(e) ==> announced_length(buffer@) == Err::<nat, ParseError>(e),
{
    let (head, _) = split_head(buffer);
    if utf8_string(head).is_none() {
        return Err(ParseError::MalformedRequest);
    }
    let lines = split_bytes(head, LF);
    proof {
        lemma_split_nonempty(head@, LF);
        lemma_pieces_views(lines@, split_on(head@, LF));
    }
    let rest = slice_subrange(lines.as_slice(), 1, lines.len());
    assert(views(rest@) =~= head_lines(buffer@).drop_first());
    let headers = parse_headers(rest);
    match headers.get("Content-Length".as_bytes()) {
        None => Ok(0),
        Some(v) => match parse_usize(v.as_slice()) {
            Some(n) => Ok(n),
            None => Err(ParseError::MalformedRequest),
        },
    }
}

/// Decodes a body by its content type: `application/json` must parse as JSON,
/// `application/octet-stream` is kept as bytes, anything else must be UTF-8 text.
pub fn deserialize_body(body: &[u8], content_type: &[u8]) -> (r: Result<UniversalBody, ParseError>)
    ensures
        r matches Ok(b) ==> decoded_body(body@, content_type@) == Ok::<BodyView, ParseError>(b@),
        r matches Err(e) ==> decoded_body(body@, content_type@) == Err::<BodyView, ParseError>(e),
{
    if bytes_eq(content_type, "application/json".as_bytes()) {
        match JsonValue::parse(body) {
            Some(j) => Ok(UniversalBody::Json(j)),
            None => Err(ParseError::MalformedRequest),
        }
    } else if bytes_eq(content_type, "application/octet-stream".as_bytes()) {
        let bytes = copy_range(body, 0, body.len());
        assert(bytes@ =~= body@);
        Ok(UniversalBody::Binary(bytes))
    } else {
        match utf8_string(body) {
            Some(text) => Ok(UniversalBody::Text(text)),
            None => Err(ParseError::MalformedRequest),
        }
    }
}

/// Parses a whole request buffer.
fn parse_request(buffer: &[u8]) -> (r: Result<HttpRequest, ParseError>)
    ensures
        r matches Ok(req) ==> parsed(buffer@) == Ok::<RequestView, ParseError>(req@)
            && req.headers.wf(),
        r matches Err(e) ==> parsed(buffer@) == Err::<RequestView, ParseError>(e),
{
    let (head, body_start) = split_head(buffer);
    if utf8_string(head).is_none() {
        return Err(ParseError::MalformedRequest);
    }
    let lines = split_bytes(head, LF);
    proof {
        lemma_split_nonempty(head@, LF);
        lemma_pieces_views(lines@, split_on(head@, LF));
    }
    let (method, path, version) = match parse_request_line(lines[0].as_slice()) {
        Ok(parts) => parts,
        Err(e) => {
            return Err(e);
        },
    };
    let rest = slice_subrange(lines.as_slice(), 1, lines.len());
    assert(views(rest@) =~= head_lines(buffer@).drop_first());
    let headers = parse_headers(rest);
    let body = match trim_by_content_length(&headers, buffer, body_start, method.as_slice()) {
        Ok(b) => b,
        Err(e) => {
            return Err(e);
        },
    };
    let body = match headers.get("Content-Type".as_bytes()) {
        Some(content_type) => deserialize_body(body.as_slice(), content_type.as_slice()),
        None => deserialize_body(body.as_slice(), "text/plain".as_bytes()),
    };
    match body {
        Ok(body) => Ok(HttpRequest { method, path, version, headers, body }),
        Err(e) => Err(e),
    }
}

/// Parses a request whose path is not under `/api/`.
pub fn parse_web_request(buffer: &[u8]) -> (r: Result<HttpRequest, ParseError>)
    ensures
        r matches Ok(req) ==> parsed(buffer@) == Ok::<RequestView, ParseError>(req@)
            && req.headers.wf(),
        r matches Err(e) ==> parsed(buffer@) == Err::<RequestView, ParseError>(e),
{
    parse_request(buffer)
}

/// Parses a request whose path is under `/api/`.
pub fn parse_api_request(buffer: &[u8]) -> (r: Result<ApiRequest, ParseError>)
    ensures
        r matches Ok(req) ==> parsed(buffer@) == Ok::<RequestView, ParseError>(req@)
            && req.headers.wf(),
        r matches Err(e) ==> parsed(buffer@) == Err::<RequestView, ParseError>(e),
{
    match parse_request(buffer) {
        Ok(req) => Ok(
            ApiRequest {
                path: req.path,
                method: req.method,
                version: req.version,
                headers: req.headers,
                body: req.body,
            },
        ),
        Err(e) => Err(e),
    }
}

/// Parses a request into the structure that `is_api` asks for.
pub fn parse_request_by_type(is_api: bool, buffer: &[u8]) -> (r: Result<ParsedRequest, ParseError>)
    ensures
        r matches Ok(p) ==> parsed(buffer@) == Ok::<RequestView, ParseError>(p.request_view())
            && (p is Api <==> is_api) && p.headers_wf(),
        r matches Err(e) ==> parsed(buffer@) == Err::<RequestView, ParseError>(e),
{
    if is_api {
        match parse_api_request(buffer) {
            Ok(req) => Ok(ParsedRequest::Api(req)),
            Err(e) => Err(e),
        }
    } else {
        match parse_web_request(buffer) {
            Ok(req) => Ok(ParsedRequest::HTTP(req)),
            Err(e) => Err(e),
        }
    }
}

} // verus!
