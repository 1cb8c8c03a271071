//! An incremental HTTP/1.1 request pipeline: header and body reading driven by
//! transport events, request parsing, body decoding, path sanitising and routing,
//! each stated over byte-sequence models.
pub mod bytes;
pub mod status;
pub mod fields;
pub mod number;
pub mod json;
pub mod text;
pub mod types;
pub mod parser;
pub mod response;
pub mod routes;
pub mod request;
pub mod router;
pub mod reader;
pub mod connection;
