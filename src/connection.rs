//! One connection's request cycle as a state machine: it takes read events and
//! says when a whole request is in; the caller performs the reads and writes.
use vstd::prelude::*;
use crate::bytes::{append_bytes, bytes_eq_ignore_case, copy_range, eq_ignore_case, find_bytes, header_delimiter_bytes};
use crate::bytes::{header_delimiter, lemma_find_from_in_bounds, lemma_find_from_prefix};
use crate::parser::{
    announced_length, get_content_length, head_of, header_end, parse_request_by_type, parsed,
};
use crate::reader::{
    body_complete, event_bytes, header_complete, joined, read_body, read_failure, read_header,
    ReadEvent,
};
use crate::request::{error_handler, error_page, extract_request_parts, is_api_request, target_path};
use crate::router::{answers, route_outcome, route_request, Routed};
use crate::status::ParseError;
use vstd::string::StringSliceAdditionalSpecFns;

verus! {

/// How many bytes to ask the transport for while the header block is incomplete.
pub const READ_CHUNK: usize = 1024;

/// Where a connection stands in its request cycle.
#[derive(Clone, Copy, Debug, PartialEq, Eq, Structural)]
pub enum Phase {
    /// Reading the header block of the next request.
    AwaitHeader,
    /// Reading the rest of the body.
    AwaitBody,
    /// A whole request is in; it is being answered.
    Dispatch,
    /// The connection is done.
    Closed,
}

/// What a connection holds: its phase, the header block read so far (with the
/// delimiter once complete), the body bytes read so far, and the body length
/// that `Content-Length` announced.
pub struct ConnectionView {
    pub phase: Phase,
    pub head: Seq<u8>,
    pub body: Seq<u8>,
    pub expected: nat,
}

/// What taking a read event led to.
pub enum Progress {
    /// The request is incomplete: read again.
    NeedMore,
    /// A whole request is in: these bytes, header block and body.
    Ready(Vec<u8>),
    /// Reading failed; the connection is closed after the error response.
    Failed(ParseError),
    /// The connection is not reading now.
    Idle,
}

/// The connection of one peer.
pub struct Connection {
    phase: Phase,
    head: Vec<u8>,
    body: Vec<u8>,
    expected: usize,
}

impl View for Connection {
    type V = ConnectionView;

    closed spec fn view(&self) -> ConnectionView {
        ConnectionView {
            phase: self.phase,
            head: self.head@,
            body: self.body@,
            expected: self.expected as nat,
        }
    }
}

/// A connection that waits for the header block of its first request.
pub open spec fn fresh() -> ConnectionView {
    ConnectionView {
        phase: Phase::AwaitHeader,
        head: Seq::empty(),
        body: Seq::empty(),
        expected: 0,
    }
}

/// The state after a read failure: closed.
pub open spec fn closed_view(c: ConnectionView) -> ConnectionView {
    ConnectionView { phase: Phase::Closed, ..c }
}

/// The state after the answer to a request: with `keep_alive` a request being
/// answered gives way to a fresh wait for the next one, keeping nothing of it;
/// without it the connection closes.
pub open spec fn finished(c: ConnectionView, keep_alive: bool) -> ConnectionView {
    if !keep_alive {
        closed_view(c)
    } else if c.phase == Phase::Dispatch {
        fresh()
    } else {
        c
    }
}

/// The state and the outcome after a read event: in `AwaitHeader` the bytes
/// are added to the header block; once it holds `\r\n\r\n` the bytes after the
/// delimiter start the body and `Content-Length` says how many to wait for. In
/// `AwaitBody` the bytes are added to the body. A read failure closes the
/// connection; in `Dispatch` and `Closed` events are ignored.
pub open spec fn after_event(c: ConnectionView, event: ReadEvent) -> (ConnectionView, Option<
    Result<Seq<u8>, ParseError>,
>) {
    after_read(c, read_failure(event), event_bytes(event))
}

/// The state and the outcome after a read that failed with `failure`, or else
/// brought `bytes`.
pub open spec fn after_read(c: ConnectionView, failure: Option<ParseError>, bytes: Seq<u8>) -> (
    ConnectionView,
    Option<Result<Seq<u8>, ParseError>>,
) {
    match c.phase {
        Phase::AwaitHeader => match failure {
            Some(e) => (closed_view(c), Some(Err(e))),
            None => {
                let buf = c.head + bytes;
                if !header_complete(buf) {
                    (ConnectionView { head: buf, ..c }, None)
                } else {
                    let start = header_end(buf).unwrap() + 4;
                    let head = buf.subrange(0, start);
                    let body = buf.subrange(start, buf.len() as int);
                    match announced_length(buf) {
                        Err(e) => (closed_view(ConnectionView { head: buf, ..c }), Some(Err(e))),
                        Ok(n) => if body_complete(body, n) {
                            (
                                ConnectionView { phase: Phase::Dispatch, head, body, expected: n },
                                Some(Ok(buf)),
                            )
                        } else {
                            (
                                ConnectionView { phase: Phase::AwaitBody, head, body, expected: n },
                                None,
                            )
                        },
                    }
                }
            },
        },
        Phase::AwaitBody => match failure {
            Some(e) => (closed_view(c), Some(Err(e))),
            None => {
                let body = c.body + bytes;
                if body_complete(body, c.expected) {
                    (ConnectionView { phase: Phase::Dispatch, body, ..c }, Some(Ok(c.head + body)))
                } else {
                    (ConnectionView { body, ..c }, None)
                }
            },
        },
        _ => (c, None),
    }
}

impl Connection {
    /// While the body is awaited, some of it is still missing.
    pub open spec fn wf(&self) -> bool {
        self@.phase == Phase::AwaitBody ==> self@.expected > self@.body.len()
    }

    /// A connection that waits for its first request.
    pub fn new() -> (r: Connection)
        ensures
            r@ == fresh(),
            r.wf(),
    {
        let r = Connection { phase: Phase::AwaitHeader, head: Vec::new(), body: Vec::new(), expected: 0 };
        assert(r@.head =~= Seq::<u8>::empty());
        assert(r@.body =~= Seq::<u8>::empty());
        r
    }

    /// The phase the connection is in.
    pub fn phase(&self) -> (r: Phase)
        ensures
            r == self@.phase,
    {
        self.phase
    }

    /// How many bytes the next read should ask for: a chunk while the header
    /// block is incomplete, the rest of the body after it but at most a chunk,
    /// none otherwise.
    pub fn wanted(&self) -> (r: usize)
        requires
            self.wf(),
        ensures
            self@.phase == Phase::AwaitHeader ==> r == READ_CHUNK,
            self@.phase == Phase::AwaitBody ==> r == if self@.expected - self@.body.len()
                < READ_CHUNK {
                (self@.expected - self@.body.len()) as usize
            } else {
                READ_CHUNK
            },
            self@.phase == Phase::Dispatch || self@.phase == Phase::Closed ==> r == 0,
    {
        match self.phase {
            Phase::AwaitHeader => READ_CHUNK,
            Phase::AwaitBody => {
                let rest = self.expected - self.body.len();
                if rest < READ_CHUNK {
                    rest
                } else {
                    READ_CHUNK
                }
            },
            _ => 0,
        }
    }

    /// Takes one read event.
    pub fn on_event(&mut self, event: ReadEvent) -> (r: Progress)
        requires
            old(self).wf(),
        ensures
            final(self).wf(),
            final(self)@ == after_event(old(self)@, event).0,
            match after_event(old(self)@, event).1 {
                None => if old(self)@.phase == Phase::AwaitHeader || old(self)@.phase
                    == Phase::AwaitBody {
                    r is NeedMore
                } else {
                    r is Idle
                },
                Some(Ok(bytes)) => r matches Progress::Ready(v) && v@ == bytes,
                Some(Err(e)) => r == Progress::Failed(e),
            },
    {
        match self.phase {
            Phase::AwaitHeader => {
                match read_header(&mut self.head, event) {
                    Err(e) => {
                        self.phase = Phase::Closed;
                        Progress::Failed(e)
                    },
                    Ok(false) => Progress::NeedMore,
                    Ok(true) => {
                        let delimiter = header_delimiter_bytes();
                        let end = match find_bytes(self.head.as_slice(), delimiter.as_slice()) {
                            Some(i) => i,
                            // The block is complete, so the delimiter is there.
                            None => {
                                return Progress::NeedMore;
                            },
                        };
                        proof {
                            lemma_find_from_in_bounds(self.head@, header_delimiter(), 0);
                        }
                        let len = self.head.len();
                        let start = end + 4;
                        let whole = copy_range(self.head.as_slice(), 0, len);
                        assert(whole@ =~= self.head@);
                        match get_content_length(self.head.as_slice()) {
                            Err(e) => {
                                self.phase = Phase::Closed;
                                Progress::Failed(e)
                            },
                            Ok(n) => {
                                self.body = copy_range(self.head.as_slice(), start, len);
                                self.head = copy_range(whole.as_slice(), 0, start);
                                self.expected = n;
                                if self.body.len() >= n {
                                    self.phase = Phase::Dispatch;
                                    Progress::Ready(whole)
                                } else {
                                    self.phase = Phase::AwaitBody;
                                    Progress::NeedMore
                                }
                            },
                        }
                    },
                }
            },
            Phase::AwaitBody => {
                match read_body(self.expected, &mut self.body, event) {
                    Err(e) => {
                        self.phase = Phase::Closed;
                        Progress::Failed(e)
                    },
                    Ok(false) => Progress::NeedMore,
                    Ok(true) => {
                        self.phase = Phase::Dispatch;
                        let mut request = copy_range(self.head.as_slice(), 0, self.head.len());
                        append_bytes(&mut request, self.body.as_slice());
                        assert(request@ =~= self.head@ + self.body@);
                        Progress::Ready(request)
                    },
                }
            },
            _ => Progress::Idle,
        }
    }

    /// Ends the answer to a request: with `keep_alive` a request being answered
    /// gives way to a fresh wait for the next one; without it the connection closes.
    pub fn finish(&mut self, keep_alive: bool)
        requires
            old(self).wf(),
        ensures
            final(self).wf(),
            final(self)@ == finished(old(self)@, keep_alive),
    {
        if !keep_alive {
            self.phase = Phase::Closed;
        } else if self.phase == Phase::Dispatch {
            self.phase = Phase::AwaitHeader;
            self.head = Vec::new();
            self.body = Vec::new();
            self.expected = 0;
            assert(self@.head =~= Seq::<u8>::empty());
            assert(self@.body =~= Seq::<u8>::empty());
        }
    }
}


/// The answer to one request, and whether the connection stays open after it.
pub struct Reply {
    pub routed: Routed,
    pub keep_alive: bool,
}

/// The request asks to close the connection: its `Connection` header is
/// `close`, in any case.
pub open spec fn asks_close(headers: Map<Seq<u8>, Seq<u8>>) -> bool {
    headers.contains_key("Connection".spec_bytes()) && eq_ignore_case(
        headers["Connection".spec_bytes()],
        "close".spec_bytes(),
    )
}

/// Answers one whole request: parses it (as an API request when its path is
/// under `/api/`), routes it, and keeps the connection open unless it asks to
/// close. A request that does not parse gets the error response for its error
/// and closes the connection.
pub fn process_request(full_request: &[u8]) -> (r: Reply)
    ensures
        match parsed(full_request@) {
            Err(e) => answers(r.routed, error_page(e)) && !r.keep_alive,
            Ok(req) => r.keep_alive == !asks_close(req.headers) && route_outcome(
                r.routed,
                req.method,
                target_path(req.path),
                req.body,
            ),
        },
{
    let is_api = is_api_request(full_request);
    match parse_request_by_type(is_api, full_request) {
        Err(e) => Reply { routed: Routed::Response(error_handler(e)), keep_alive: false },
        Ok(parsed_request) => {
            let (body, path, method, query_map, headers) = extract_request_parts(parsed_request);
            let routed = route_request(method.as_slice(), path.as_slice(), body, &query_map);
            let close = match headers.get("Connection".as_bytes()) {
                Some(value) => bytes_eq_ignore_case(value.as_slice(), "close".as_bytes()),
                None => false,
            };
            Reply { routed, keep_alive: !close }
        },
    }
}


/// The first outcome of a connection in state `c` that takes the reads of
/// `chunks` in turn, if one of them completes a request or fails.
pub open spec fn first_outcome(c: ConnectionView, chunks: Seq<Seq<u8>>) -> Option<
    Result<Seq<u8>, ParseError>,
>
    decreases chunks.len(),
{
    if chunks.len() == 0 {
        None
    } else {
        let step = after_read(c, None, chunks[0]);
        if step.1 is Some {
            step.1
        } else {
            first_outcome(step.0, chunks.drop_first())
        }
    }
}

proof fn lemma_rest_nonempty(chunks: Seq<Seq<u8>>)
    requires
        chunks.len() > 0,
        forall|i: int| 0 <= i < chunks.len() ==> (#[trigger] chunks[i]).len() > 0,
    ensures
        forall|i: int|
            0 <= i < chunks.drop_first().len() ==> (#[trigger] chunks.drop_first()[i]).len() > 0,
{
    assert forall|i: int| 0 <= i < chunks.drop_first().len() implies (
    #[trigger] chunks.drop_first()[i]).len() > 0 by {
        assert(chunks.drop_first()[i] == chunks[i + 1]);
    }
}

proof fn lemma_body_phase(c: ConnectionView, chunks: Seq<Seq<u8>>, request: Seq<u8>)
    requires
        c.phase == Phase::AwaitBody,
        c.head + c.body + joined(chunks) == request,
        c.head.len() + c.expected == request.len(),
        c.body.len() < c.expected,
        forall|i: int| 0 <= i < chunks.len() ==> (#[trigger] chunks[i]).len() > 0,
    ensures
        first_outcome(c, chunks) == Some(Ok::<Seq<u8>, ParseError>(request)),
    decreases chunks.len(),
{
    if chunks.len() == 0 {
        assert(c.head + c.body + joined(chunks) =~= c.head + c.body);
    } else {
        let body = c.body + chunks[0];
        let rest = chunks.drop_first();
        assert(c.head + body + joined(rest) =~= request);
        if body_complete(body, c.expected) {
            assert(c.head + body =~= request);
        } else {
            lemma_rest_nonempty(chunks);
            lemma_body_phase(ConnectionView { body, ..c }, rest, request);
        }
    }
}

proof fn lemma_header_phase(
    c: ConnectionView,
    chunks: Seq<Seq<u8>>,
    request: Seq<u8>,
    e: int,
    n: nat,
)
    requires
        c.phase == Phase::AwaitHeader,
        c.head + joined(chunks) == request,
        header_end(request) == Some(e),
        announced_length(request) == Ok::<nat, ParseError>(n),
        request.len() == e + 4 + n,
        c.head.len() < e + 4,
        forall|i: int| 0 <= i < chunks.len() ==> (#[trigger] chunks[i]).len() > 0,
    ensures
        first_outcome(c, chunks) == Some(Ok::<Seq<u8>, ParseError>(request)),
    decreases chunks.len(),
{
    if chunks.len() == 0 {
        assert(c.head + joined(chunks) =~= c.head);
    } else {
        let buf = c.head + chunks[0];
        let rest = chunks.drop_first();
        assert(buf + joined(rest) =~= request);
        assert(request.subrange(0, buf.len() as int) =~= buf);
        assert(header_delimiter().len() == 4);
        lemma_find_from_in_bounds(request, header_delimiter(), 0);
        lemma_find_from_prefix(request, buf, header_delimiter(), e, 0);
        lemma_rest_nonempty(chunks);
        if buf.len() < e + 4 {
            lemma_header_phase(ConnectionView { head: buf, ..c }, rest, request, e, n);
        } else {
            assert(header_end(buf) == Some(e));
            assert(head_of(buf) == head_of(request)) by {
                assert forall|k: int| 0 <= k < e implies #[trigger] buf[k] == request[k] by {
                    assert(buf[k] == request.subrange(0, buf.len() as int)[k]);
                }
                assert(head_of(buf) == buf.subrange(0, e));
                assert(head_of(request) == request.subrange(0, e));
                assert(buf.subrange(0, e) =~= request.subrange(0, e));
            }
            let start = e + 4;
            let body = buf.subrange(start, buf.len() as int);
            if body_complete(body, n) {
                assert(buf =~= request);
            } else {
                let head = buf.subrange(0, start);
                assert(head + body =~= buf);
                lemma_body_phase(
                    ConnectionView { phase: Phase::AwaitBody, head, body, expected: n },
                    rest,
                    request,
                );
            }
        }
    }
}

/// However the transport cuts a request into non-empty reads, a fresh
/// connection fed those reads puts the request back together byte for byte: a
/// header block, and a body of exactly the `Content-Length` it announces.
pub proof fn lemma_request_reassembled(request: Seq<u8>, chunks: Seq<Seq<u8>>)
    requires
        header_end(request) matches Some(e) && announced_length(request) matches Ok(n)
            && request.len() == e + 4 + n,
        joined(chunks) == request,
        forall|i: int| 0 <= i < chunks.len() ==> (#[trigger] chunks[i]).len() > 0,
    ensures
        first_outcome(fresh(), chunks) == Some(Ok::<Seq<u8>, ParseError>(request)),
{
    let e = header_end(request).unwrap();
    let n = announced_length(request).unwrap();
    lemma_find_from_in_bounds(request, header_delimiter(), 0);
    assert(fresh().head + joined(chunks) =~= request);
    lemma_header_phase(fresh(), chunks, request, e, n);
}


/// After a request answered on a connection that stays open, the next request
/// is read exactly as the first one on a fresh connection: whatever the reads
/// bring, the outcome is the same.
pub proof fn lemma_kept_alive_reads_afresh(c: ConnectionView, chunks: Seq<Seq<u8>>)
    requires
        c.phase == Phase::Dispatch,
    ensures
        first_outcome(finished(c, true), chunks) == first_outcome(fresh(), chunks),
{
}

/// Once a connection is closed after an answer, nothing more is read from it:
/// no read, whatever it brings, leads to a request or a failure.
pub proof fn lemma_closed_reads_nothing(c: ConnectionView, chunks: Seq<Seq<u8>>)
    ensures
        first_outcome(finished(c, false), chunks) is None,
    decreases chunks.len(),
{
    if chunks.len() > 0 {
        lemma_closed_reads_nothing(finished(c, false), chunks.drop_first());
    }
}

} // verus!
