//! Handlers for the HTTP 1.x parser.

pub mod chunked;
pub mod debug;
pub mod headers;
pub mod multipart;
pub mod url_encoded;
