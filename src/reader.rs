//! Reading a request off a connection, one transport event at a time: the header
//! block until `\r\n\r\n`, then the body until `Content-Length` bytes are in.
use vstd::prelude::*;
use crate::bytes::{append_bytes, find_bytes, header_delimiter_bytes};
use crate::parser::header_end;
use crate::status::ParseError;

verus! {

/// What one read from the connection gave.
pub enum ReadEvent {
    /// The bytes read; none means the peer closed the connection.
    Bytes(Vec<u8>),
    /// No data came within the read timeout.
    TimedOut,
    /// Any other transport failure.
    Failed,
}

/// The error that a read event which brought no data stands for: the peer
/// closing or a timeout abort the request; anything else is a transport error.
pub open spec fn read_failure(event: ReadEvent) -> Option<ParseError> {
    match event {
        ReadEvent::Bytes(b) => if b@.len() == 0 {
            Some(ParseError::ConnectionAborted)
        } else {
            None
        },
        ReadEvent::TimedOut => Some(ParseError::ConnectionAborted),
        ReadEvent::Failed => Some(ParseError::IoError),
    }
}

/// The bytes that a read event brought.
pub open spec fn event_bytes(event: ReadEvent) -> Seq<u8> {
    match event {
        ReadEvent::Bytes(b) => b@,
        _ => Seq::empty(),
    }
}

/// The header block is complete once the buffer holds `\r\n\r\n`.
pub open spec fn header_complete(buffer: Seq<u8>) -> bool {
    header_end(buffer) is Some
}

/// A body is complete once it holds the expected number of bytes.
pub open spec fn body_complete(body: Seq<u8>, expected: nat) -> bool {
    body.len() >= expected
}

/// Takes one read event while the header block is incomplete: its bytes are
/// appended to `dynamo_buffer`, and the result says whether the block is now
/// complete. The bytes after the delimiter, if any, stay in the buffer.
pub fn read_header(dynamo_buffer: &mut Vec<u8>, event: ReadEvent) -> (r: Result<bool, ParseError>)
    ensures
        read_failure(event) matches Some(e) ==> r == Err::<bool, ParseError>(e)
            && final(dynamo_buffer)@ == old(dynamo_buffer)@,
        read_failure(event) is None ==> final(dynamo_buffer)@ == old(dynamo_buffer)@ + event_bytes(
            event,
        ) && r == Ok::<bool, ParseError>(header_complete(final(dynamo_buffer)@)),
{
    match event {
        ReadEvent::Bytes(b) => {
            if b.len() == 0 {
                return Err(ParseError::ConnectionAborted);
            }
            append_bytes(dynamo_buffer, b.as_slice());
            let delimiter = header_delimiter_bytes();
            Ok(find_bytes(dynamo_buffer.as_slice(), delimiter.as_slice()).is_some())
        },
        ReadEvent::TimedOut => Err(ParseError::ConnectionAborted),
        ReadEvent::Failed => Err(ParseError::IoError),
    }
}

/// How many more body bytes to read: what `content_length` asks beyond what
/// `full_body` already holds.
pub fn remaining_body(content_length: usize, full_body: &Vec<u8>) -> (r: usize)
    ensures
        r == if full_body@.len() >= content_length {
            0
        } else {
            content_length - full_body@.len()
        },
{
    if full_body.len() >= content_length {
        0
    } else {
        content_length - full_body.len()
    }
}

/// Takes one read event for the body. A body that already holds
/// `content_length` bytes is complete and stays as it is, whatever the event;
/// otherwise the event's bytes are appended to `full_body`, and the result says
/// whether `content_length` bytes are now in.
pub fn read_body(content_length: usize, full_body: &mut Vec<u8>, event: ReadEvent) -> (r: Result<
    bool,
    ParseError,
>)
    ensures
        body_complete(old(full_body)@, content_length as nat) ==> r == Ok::<bool, ParseError>(true)
            && final(full_body)@ == old(full_body)@,
        !body_complete(old(full_body)@, content_length as nat) ==> {
            &&& read_failure(event) matches Some(e) ==> r == Err::<bool, ParseError>(e)
                && final(full_body)@ == old(full_body)@
            &&& read_failure(event) is None ==> final(full_body)@ == old(full_body)@
                + event_bytes(event) && r == Ok::<bool, ParseError>(
                body_complete(final(full_body)@, content_length as nat),
            )
        },
{
    if full_body.len() >= content_length {
        return Ok(true);
    }
    match event {
        ReadEvent::Bytes(b) => {
            if b.len() == 0 {
                return Err(ParseError::ConnectionAborted);
            }
            append_bytes(full_body, b.as_slice());
            Ok(full_body.len() >= content_length)
        },
        ReadEvent::TimedOut => Err(ParseError::ConnectionAborted),
        ReadEvent::Failed => Err(ParseError::IoError),
    }
}

/// The chunks, end to end.
pub open spec fn joined(chunks: Seq<Seq<u8>>) -> Seq<u8>
    decreases chunks.len(),
{
    if chunks.len() == 0 {
        Seq::empty()
    } else {
        chunks[0] + joined(chunks.drop_first())
    }
}

/// The body after `read_body` has taken the chunks in turn, starting from
/// `captured` and stopping once it is complete.
pub open spec fn body_fed(captured: Seq<u8>, chunks: Seq<Seq<u8>>, expected: nat) -> Seq<u8>
    decreases chunks.len(),
{
    if body_complete(captured, expected) || chunks.len() == 0 {
        captured
    } else {
        body_fed(captured + chunks[0], chunks.drop_first(), expected)
    }
}

/// However the transport cuts a body of `Content-Length` bytes into non-empty
/// reads, and however much of it came in with the header block, feeding the
/// reads to `read_body` rebuilds the body byte for byte, and it is complete then.
pub proof fn lemma_body_reassembled(captured: Seq<u8>, chunks: Seq<Seq<u8>>, body: Seq<u8>)
    requires
        captured + joined(chunks) == body,
        forall|i: int| 0 <= i < chunks.len() ==> (#[trigger] chunks[i]).len() > 0,
    ensures
        body_fed(captured, chunks, body.len()) == body,
        body_complete(body_fed(captured, chunks, body.len()), body.len()),
    decreases chunks.len(),
{
    if chunks.len() == 0 {
        assert(captured + joined(chunks) =~= captured);
    } else if body_complete(captured, body.len()) {
        assert(chunks[0].len() > 0);
        assert((captured + joined(chunks)).len() == captured.len() + chunks[0].len() + joined(
            chunks.drop_first(),
        ).len());
    } else {
        let rest = chunks.drop_first();
        assert forall|i: int| 0 <= i < rest.len() implies (#[trigger] rest[i]).len() > 0 by {
            assert(rest[i] == chunks[i + 1]);
        }
        assert((captured + chunks[0]) + joined(rest) =~= captured + joined(chunks));
        lemma_body_reassembled(captured + chunks[0], rest, body);
    }
}

} // verus!
