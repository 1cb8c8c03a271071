//! Response status codes and the errors that turn into error responses.
use vstd::prelude::*;
use vstd::string::StringSliceAdditionalSpecFns;

verus! {

/// The status codes this server answers with.
#[derive(Clone, Copy, Debug, PartialEq, Eq, Structural)]
pub enum Status {
    Okay,
    Created,
    NoContent,
    NotFound,
    BadRequest,
    Unauthorized,
    Forbidden,
    RequestTimeout,
    MethodNotAllowed,
    InternalError,
    ServiceUnavailable,
}

/// Why a request could not be read or parsed.
#[derive(Clone, Copy, Debug, PartialEq, Eq, Structural)]
pub enum ParseError {
    /// The request line, a header, `Content-Length` or the body is not acceptable.
    MalformedRequest,
    /// The peer closed the connection or sent nothing in time.
    ConnectionAborted,
    /// Any other transport failure.
    IoError,
}

impl Status {
    /// The status line, without its line ending.
    pub open spec fn line_bytes(self) -> Seq<u8> {
        match self {
            Status::Okay => "HTTP/1.1 200 OK".spec_bytes(),
            Status::Created => "HTTP/1.1 201 CREATED".spec_bytes(),
            Status::NoContent => "HTTP/1.1 204 NO CONTENT".spec_bytes(),
            Status::NotFound => "HTTP/1.1 404 NOT FOUND".spec_bytes(),
            Status::BadRequest => "HTTP/1.1 400 BAD REQUEST".spec_bytes(),
            Status::Unauthorized => "HTTP/1.1 401 UNAUTHORIZED".spec_bytes(),
            Status::Forbidden => "HTTP/1.1 403 FORBIDDEN".spec_bytes(),
            Status::RequestTimeout => "HTTP/1.1 408 REQUEST TIMEOUT".spec_bytes(),
            Status::MethodNotAllowed => "HTTP/1.1 405 METHOD NOT ALLOWED".spec_bytes(),
            Status::InternalError => "HTTP/1.1 500 INTERNAL SERVER ERROR".spec_bytes(),
            Status::ServiceUnavailable => "HTTP/1.1 503 SERVICE UNAVAILABLE".spec_bytes(),
        }
    }

    /// The status line of this status, without its line ending.
    pub fn line(&self) -> (r: &'static [u8])
        ensures
            r@ == self.line_bytes(),
    {
        match self {
            Status::Okay => "HTTP/1.1 200 OK".as_bytes(),
            Status::Created => "HTTP/1.1 201 CREATED".as_bytes(),
            Status::NoContent => "HTTP/1.1 204 NO CONTENT".as_bytes(),
            Status::NotFound => "HTTP/1.1 404 NOT FOUND".as_bytes(),
            Status::BadRequest => "HTTP/1.1 400 BAD REQUEST".as_bytes(),
            Status::Unauthorized => "HTTP/1.1 401 UNAUTHORIZED".as_bytes(),
            Status::Forbidden => "HTTP/1.1 403 FORBIDDEN".as_bytes(),
            Status::RequestTimeout => "HTTP/1.1 408 REQUEST TIMEOUT".as_bytes(),
            Status::MethodNotAllowed => "HTTP/1.1 405 METHOD NOT ALLOWED".as_bytes(),
            Status::InternalError => "HTTP/1.1 500 INTERNAL SERVER ERROR".as_bytes(),
            Status::ServiceUnavailable => "HTTP/1.1 503 SERVICE UNAVAILABLE".as_bytes(),
        }
    }
}

} // verus!
