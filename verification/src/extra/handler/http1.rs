//! Extra handlers for the HTTP 1.x parser.

pub mod url_encoded;
