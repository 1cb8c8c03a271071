//! Building responses: the status line, `Content-Type` and `Content-Length`, a
//! blank line, then the body.
use vstd::prelude::*;
use vstd::string::{is_ascii_spec_bytes, StringSliceAdditionalSpecFns};
use crate::bytes::{append_bytes, colon_space, crlf, COLON, CR, LF, SLASH, SPACE};
use crate::fields::FieldMap;
use crate::json::{json_accepts, json_compact, json_to_vec, JsonValue};
use crate::number::{decimal, decimal_bytes};
use crate::status::Status;
use crate::types::Response;

verus! {

/// One header line: name, `": "`, value, `\r\n`.
pub open spec fn header_line(name: Seq<u8>, value: Seq<u8>) -> Seq<u8> {
    name + colon_space() + value + crlf()
}

/// The header lines of `entries`, in order.
pub open spec fn header_lines(entries: Seq<(Seq<u8>, Seq<u8>)>) -> Seq<u8>
    decreases entries.len(),
{
    if entries.len() == 0 {
        Seq::empty()
    } else {
        header_lines(entries.drop_last()) + header_line(entries.last().0, entries.last().1)
    }
}

/// A response on the wire: status line, header lines, a blank line, body.
pub open spec fn response_bytes(
    status_line: Seq<u8>,
    entries: Seq<(Seq<u8>, Seq<u8>)>,
    body: Seq<u8>,
) -> Seq<u8> {
    status_line + crlf() + header_lines(entries) + crlf() + body
}

/// The headers of every response: its content type, then its body length.
pub open spec fn response_headers(content_type: Seq<u8>, body_len: nat) -> Seq<
    (Seq<u8>, Seq<u8>),
> {
    seq![
        ("Content-Type".spec_bytes(), content_type),
        ("Content-Length".spec_bytes(), decimal(body_len)),
    ]
}

/// The bytes of a response with this status, content type and body.
pub open spec fn wire(status: Status, content_type: Seq<u8>, body: Seq<u8>) -> Seq<u8> {
    response_bytes(status.line_bytes(), response_headers(content_type, body.len()), body)
}

/// The HTML page with this title and message.
pub open spec fn html_page(title: Seq<u8>, message: Seq<u8>) -> Seq<u8> {
    "<html><body><h1>".spec_bytes() + title + "</h1><p>".spec_bytes() + message
        + "</p></body></html>".spec_bytes()
}

/// The HTML response with this status, title and message.
pub open spec fn html_wire(status: Status, title: Seq<u8>, message: Seq<u8>) -> Seq<u8> {
    wire(status, "text/html".spec_bytes(), html_page(title, message))
}

/// The JSON envelope of an API response: the status line as a string, and the
/// payload as it is.
pub open spec fn envelope(status_line: Seq<u8>, payload: Seq<u8>) -> Seq<u8> {
    "{\"status\":\"".spec_bytes() + status_line + "\",\"body\":".spec_bytes() + payload
        + "}".spec_bytes()
}

/// The API response with this status and this JSON payload text.
pub open spec fn api_wire(status: Status, payload: Seq<u8>) -> Seq<u8> {
    wire(status, "application/json".spec_bytes(), envelope(status.line_bytes(), payload))
}

/// `s` ends with `suffix`.
pub open spec fn ends_with(s: Seq<u8>, suffix: Seq<u8>) -> bool {
    suffix.len() <= s.len() && s.subrange(s.len() - suffix.len(), s.len() as int) == suffix
}

/// The content type that a file's extension suggests.
pub open spec fn content_type_for(path: Seq<u8>) -> Seq<u8> {
    if ends_with(path, ".html".spec_bytes()) {
        "text/html".spec_bytes()
    } else if ends_with(path, ".css".spec_bytes()) {
        "text/css".spec_bytes()
    } else if ends_with(path, ".js".spec_bytes()) {
        "application/javascript".spec_bytes()
    } else if ends_with(path, ".jpg".spec_bytes()) || ends_with(path, ".jpeg".spec_bytes()) {
        "image/jpeg".spec_bytes()
    } else if ends_with(path, ".png".spec_bytes()) {
        "image/png".spec_bytes()
    } else {
        "text/plain".spec_bytes()
    }
}

/// `s` without the slashes that lead it.
pub open spec fn without_leading_slashes(s: Seq<u8>) -> Seq<u8>
    decreases s.len(),
{
    if s.len() > 0 && s[0] == SLASH {
        without_leading_slashes(s.subrange(1, s.len() as int))
    } else {
        s
    }
}

/// Where the file for a request path is stored: under `static/`.
pub open spec fn static_location(path: Seq<u8>) -> Seq<u8> {
    "static/".spec_bytes() + without_leading_slashes(path)
}

/// The response for a static file: its contents when it could be read, a
/// not-found response otherwise.
pub open spec fn file_wire(path: Seq<u8>, contents: Option<Seq<u8>>) -> Seq<u8> {
    match contents {
        Some(c) => wire(Status::Okay, content_type_for(path), c),
        None => wire(
            Status::NotFound,
            "text/plain".spec_bytes(),
            "The requested file was not found".spec_bytes(),
        ),
    }
}

/// Appends the bytes of `s` to `out`.
fn push_str(out: &mut Vec<u8>, s: &str)
    ensures
        final(out)@ == old(out)@ + s.spec_bytes(),
{
    append_bytes(out, s.as_bytes());
}

/// Whether `s` ends with `suffix`.
fn has_suffix(s: &[u8], suffix: &[u8]) -> (r: bool)
    ensures
        r == ends_with(s@, suffix@),
{
    if suffix.len() > s.len() {
        return false;
    }
    let start = s.len() - suffix.len();
    let mut i: usize = 0;
    while i < suffix.len()
        invariant
            0 <= i <= suffix.len(),
            start + suffix.len() == s.len(),
            forall|j: int| 0 <= j < i ==> s@[start + j] == suffix@[j],
        decreases suffix.len() - i,
    {
        if s[start + i] != suffix[i] {
            assert(s@.subrange(start as int, s.len() as int)[i as int] != suffix@[i as int]);
            return false;
        }
        i += 1;
    }
    assert(s@.subrange(start as int, s.len() as int) =~= suffix@);
    true
}

/// The content type for a file, from its extension; `text/plain` by default.
pub fn get_content_type(file_path: &[u8]) -> (r: &'static [u8])
    ensures
        r@ == content_type_for(file_path@),
{
    if has_suffix(file_path, ".html".as_bytes()) {
        "text/html".as_bytes()
    } else if has_suffix(file_path, ".css".as_bytes()) {
        "text/css".as_bytes()
    } else if has_suffix(file_path, ".js".as_bytes()) {
        "application/javascript".as_bytes()
    } else if has_suffix(file_path, ".jpg".as_bytes()) || has_suffix(
        file_path,
        ".jpeg".as_bytes(),
    ) {
        "image/jpeg".as_bytes()
    } else if has_suffix(file_path, ".png".as_bytes()) {
        "image/png".as_bytes()
    } else {
        "text/plain".as_bytes()
    }
}

/// Where the file for `file_path` is stored: `static/` followed by the path
/// without its leading slashes.
pub fn static_file_path(file_path: &[u8]) -> (r: Vec<u8>)
    ensures
        r@ == static_location(file_path@),
{
    let mut start: usize = 0;
    assert(file_path@.subrange(0, file_path@.len() as int) =~= file_path@);
    while start < file_path.len() && file_path[start] == SLASH
        invariant
            0 <= start <= file_path@.len(),
            without_leading_slashes(file_path@) == without_leading_slashes(
                file_path@.subrange(start as int, file_path@.len() as int),
            ),
        decreases file_path@.len() - start,
    {
        let ghost rest = file_path@.subrange(start as int, file_path@.len() as int);
        assert(rest.subrange(1, rest.len() as int) =~= file_path@.subrange(
            start + 1,
            file_path@.len() as int,
        ));
        start += 1;
    }
    let mut r: Vec<u8> = Vec::new();
    push_str(&mut r, "static/");
    let ghost head = r@;
    let mut i: usize = start;
    while i < file_path.len()
        invariant
            start <= i <= file_path@.len(),
            r@ == head + file_path@.subrange(start as int, i as int),
        decreases file_path@.len() - i,
    {
        r.push(file_path[i]);
        i += 1;
        assert(r@ =~= head + file_path@.subrange(start as int, i as int));
    }
    assert(r@ =~= static_location(file_path@));
    r
}

/// The headers of a response: its content type, then its body length.
pub fn build_response_header(content_type: &[u8], body: &[u8]) -> (r: FieldMap)
    ensures
        r.wf(),
        r.entry_seq() == response_headers(content_type@, body@.len()),
{
    let mut headers = FieldMap::new();
    let mut value: Vec<u8> = Vec::new();
    append_bytes(&mut value, content_type);
    let mut name: Vec<u8> = Vec::new();
    append_bytes(&mut name, "Content-Type".as_bytes());
    headers.insert(name, value);
    let mut name: Vec<u8> = Vec::new();
    append_bytes(&mut name, "Content-Length".as_bytes());
    proof {
        reveal_strlit("Content-Type");
        reveal_strlit("Content-Length");
        is_ascii_spec_bytes("Content-Type");
        is_ascii_spec_bytes("Content-Length");
        assert("Content-Type".spec_bytes().len() != "Content-Length".spec_bytes().len());
    }
    assert(headers.entry_seq() =~= seq![("Content-Type".spec_bytes(), content_type@)]);
    headers.insert(name, decimal_bytes(body.len()));
    assert(headers.entry_seq() =~= response_headers(content_type@, body@.len()));
    headers
}


/// A response with this status, content type and body.
pub fn build_response(status: Status, content_type: &[u8], body: &[u8]) -> (r: Response)
    ensures
        r.status@ == status.line_bytes(),
        r.headers.wf(),
        r.headers.entry_seq() == response_headers(content_type@, body@.len()),
        r.body@ == body@,
{
    let mut status_line: Vec<u8> = Vec::new();
    append_bytes(&mut status_line, status.line());
    let headers = build_response_header(content_type, body);
    let mut bytes: Vec<u8> = Vec::new();
    append_bytes(&mut bytes, body);
    Response { status: status_line, headers, body: bytes }
}

impl Response {
    /// The header lines of `headers` followed by the blank line.
    fn header_to_vec(headers: &FieldMap) -> (r: Vec<u8>)
        ensures
            r@ == header_lines(headers.entry_seq()) + crlf(),
    {
        let mut out: Vec<u8> = Vec::new();
        let mut i: usize = 0;
        while i < headers.len()
            invariant
                0 <= i <= headers.entry_seq().len(),
                out@ == header_lines(headers.entry_seq().subrange(0, i as int)),
            decreases headers.entry_seq().len() - i,
        {
            let (name, value) = headers.entry(i);
            let ghost before = out@;
            append_bytes(&mut out, name.as_slice());
            out.push(COLON);
            out.push(SPACE);
            append_bytes(&mut out, value.as_slice());
            out.push(CR);
            out.push(LF);
            proof {
                let e = headers.entry_seq().subrange(0, i + 1);
                assert(e.drop_last() =~= headers.entry_seq().subrange(0, i as int));
                assert(out@ =~= before + header_line(name@, value@));
            }
            i += 1;
        }
        assert(headers.entry_seq().subrange(0, i as int) =~= headers.entry_seq());
        let ghost lines = out@;
        out.push(CR);
        out.push(LF);
        assert(out@ =~= lines + crlf());
        out
    }

    /// The response as it is sent: status line, header lines, blank line, body.
    pub fn convert_to_vec(&self) -> (r: Vec<u8>)
        ensures
            r@ == response_bytes(self.status@, self.headers.entry_seq(), self.body@),
    {
        let mut out: Vec<u8> = Vec::new();
        append_bytes(&mut out, self.status.as_slice());
        out.push(CR);
        out.push(LF);
        let ghost first = out@;
        let head = Response::header_to_vec(&self.headers);
        append_bytes(&mut out, head.as_slice());
        append_bytes(&mut out, self.body.as_slice());
        assert(first =~= self.status@ + crlf());
        assert(out@ =~= response_bytes(self.status@, self.headers.entry_seq(), self.body@));
        out
    }
}

/// The bytes of a response with this status, content type and body.
pub fn response_to_vec(status: Status, content_type: &[u8], body: &[u8]) -> (r: Vec<u8>)
    ensures
        r@ == wire(status, content_type@, body@),
{
    build_response(status, content_type, body).convert_to_vec()
}

/// An HTML page response.
pub fn html_response(status: Status, title: &str, message: &str) -> (r: Vec<u8>)
    ensures
        r@ == html_wire(status, title.spec_bytes(), message.spec_bytes()),
{
    let mut page: Vec<u8> = Vec::new();
    push_str(&mut page, "<html><body><h1>");
    push_str(&mut page, title);
    push_str(&mut page, "</h1><p>");
    push_str(&mut page, message);
    push_str(&mut page, "</p></body></html>");
    assert(page@ =~= html_page(title.spec_bytes(), message.spec_bytes()));
    response_to_vec(status, "text/html".as_bytes(), page.as_slice())
}

/// An API response whose envelope carries `payload`, JSON text, as its body.
pub fn api_envelope_response(status: Status, payload: &[u8]) -> (r: Vec<u8>)
    ensures
        r@ == api_wire(status, payload@),
{
    let mut text: Vec<u8> = Vec::new();
    push_str(&mut text, "{\"status\":\"");
    append_bytes(&mut text, status.line());
    push_str(&mut text, "\",\"body\":");
    append_bytes(&mut text, payload);
    push_str(&mut text, "}");
    assert(text@ =~= envelope(status.line_bytes(), payload@));
    response_to_vec(status, "application/json".as_bytes(), text.as_slice())
}

/// An API response carrying `body`, which must be JSON text. It is read and
/// written again compactly; a body that is not JSON gets a server error.
pub fn api_response(status: Status, body: &[u8]) -> (r: Vec<u8>)
    ensures
        r@ == api_reply(status, body@),
{
    match JsonValue::parse(body) {
        Some(value) => match json_to_vec(&value) {
            Ok(payload) => api_envelope_response(status, payload.as_slice()),
            Err(_) => server_error_response(),
        },
        None => server_error_response(),
    }
}

/// The API response for `body`: when it is JSON, the envelope with this status
/// around the compact text that `serde_json` writes for it; a server error
/// otherwise.
pub open spec fn api_reply(status: Status, body: Seq<u8>) -> Seq<u8> {
    if json_accepts(body) {
        api_wire(status, json_compact(body))
    } else {
        server_error_wire()
    }
}

/// The response for an unexpected failure.
pub open spec fn server_error_wire() -> Seq<u8> {
    html_wire(
        Status::InternalError,
        "INTERNAL SERVER ERROR".spec_bytes(),
        "SERVER ERROR".spec_bytes(),
    )
}

/// The response for an unexpected failure.
pub fn server_error_response() -> (r: Vec<u8>)
    ensures
        r@ == server_error_wire(),
{
    html_response(Status::InternalError, "INTERNAL SERVER ERROR", "SERVER ERROR")
}

/// The response for a static file: its contents, typed by extension, when it
/// could be read; a not-found response otherwise.
pub fn file_response(file_path: &[u8], contents: Option<Vec<u8>>) -> (r: Vec<u8>)
    ensures
        r@ == file_wire(
            file_path@,
            match contents {
                Some(c) => Some(c@),
                None => None,
            },
        ),
{
    match contents {
        Some(c) => response_to_vec(Status::Okay, get_content_type(file_path), c.as_slice()),
        None => response_to_vec(
            Status::NotFound,
            "text/plain".as_bytes(),
            "The requested file was not found".as_bytes(),
        ),
    }
}

} // verus!
