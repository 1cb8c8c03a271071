//! The request and response values that move through the pipeline.
use vstd::prelude::*;
use crate::fields::FieldMap;
use crate::json::JsonValue;

verus! {

/// A request body, decoded once according to its `Content-Type`.
#[derive(Debug)]
pub enum UniversalBody {
    Json(JsonValue),
    Binary(Vec<u8>),
    Text(String),
}

/// What can be said of a body: its variant and its contents; a JSON value is
/// known by the bytes it was read from.
pub enum BodyView {
    Json(Seq<u8>),
    Binary(Seq<u8>),
    Text(Seq<char>),
}

impl View for UniversalBody {
    type V = BodyView;

    open spec fn view(&self) -> BodyView {
        match self {
            UniversalBody::Json(j) => BodyView::Json(j.source()),
            UniversalBody::Binary(b) => BodyView::Binary(b@),
            UniversalBody::Text(t) => BodyView::Text(t@),
        }
    }
}

/// A parsed request, as byte sequences.
pub struct RequestView {
    pub method: Seq<u8>,
    pub path: Seq<u8>,
    pub version: Seq<u8>,
    pub headers: Map<Seq<u8>, Seq<u8>>,
    pub body: BodyView,
}

/// A request whose path does not start with `/api/`.
#[derive(Debug)]
pub struct HttpRequest {
    pub method: Vec<u8>,
    pub path: Vec<u8>,
    pub version: Vec<u8>,
    pub headers: FieldMap,
    pub body: UniversalBody,
}

/// A request whose path starts with `/api/`.
#[derive(Debug)]
pub struct ApiRequest {
    pub path: Vec<u8>,
    pub method: Vec<u8>,
    pub version: Vec<u8>,
    pub headers: FieldMap,
    pub body: UniversalBody,
}

impl View for HttpRequest {
    type V = RequestView;

    open spec fn view(&self) -> RequestView {
        RequestView {
            method: self.method@,
            path: self.path@,
            version: self.version@,
            headers: self.headers@,
            body: self.body@,
        }
    }
}

impl View for ApiRequest {
    type V = RequestView;

    open spec fn view(&self) -> RequestView {
        RequestView {
            method: self.method@,
            path: self.path@,
            version: self.version@,
            headers: self.headers@,
            body: self.body@,
        }
    }
}

/// A request, parsed into the structure that its path calls for.
#[derive(Debug)]
pub enum ParsedRequest {
    Api(ApiRequest),
    HTTP(HttpRequest),
}

impl ParsedRequest {
    pub open spec fn request_view(&self) -> RequestView {
        match self {
            ParsedRequest::Api(r) => r@,
            ParsedRequest::HTTP(r) => r@,
        }
    }

    pub open spec fn headers_wf(&self) -> bool {
        match self {
            ParsedRequest::Api(r) => r.headers.wf(),
            ParsedRequest::HTTP(r) => r.headers.wf(),
        }
    }
}

/// A response before it is written out: its status line, its headers in order,
/// and its body.
#[derive(Debug)]
pub struct Response {
    pub status: Vec<u8>,
    pub headers: FieldMap,
    pub body: Vec<u8>,
}

} // verus!
