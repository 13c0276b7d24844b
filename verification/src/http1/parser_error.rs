//! HTTP 1.x parser errors.

use crate::text::{append_decimal, decimal};
use vstd::prelude::*;
use vstd::string::*;

verus! {

/// Parser error messages.
#[derive(Clone, Copy, Debug, PartialEq, Eq, Structural)]
pub enum ParserError {
    /// Invalid chunk extension name on byte `u8`.
    ChunkExtensionName(u8),
    /// Invalid chunk extension value on byte `u8`.
    ChunkExtensionValue(u8),
    /// Invalid chunk length on byte `u8`.
    ChunkLength(u8),
    /// Invalid CRLF sequence on byte `u8`.
    CrlfSequence(u8),
    /// Parsing has failed.
    Dead,
    /// Invalid header name on byte `u8`.
    HeaderName(u8),
    /// Invalid header value on byte `u8`.
    HeaderValue(u8),
    /// Chunk length overflow.
    ChunkLengthOverflow,
    /// Invalid request method on byte `u8`.
    Method(u8),
    /// Invalid multipart data.
    Multipart(u8),
    /// Invalid multipart boundary.
    MultipartBoundary(u8),
    /// Invalid status on byte `u8`.
    Status(u8),
    /// Invalid status code on byte `u8`.
    StatusCode(u8),
    /// Invalid URL character on byte `u8`.
    Url(u8),
    /// Invalid URL encoded name on byte `u8`.
    UrlEncodedName(u8),
    /// Invalid URL encoded value on byte `u8`.
    UrlEncodedValue(u8),
    /// Invalid HTTP version on byte `u8`.
    Version(u8),
}

impl ParserError {
    /// The offending byte, for the errors that carry one.
    pub open spec fn spec_byte(self) -> Option<u8> {
        match self {
            ParserError::ChunkExtensionName(b) => Some(b),
            ParserError::ChunkExtensionValue(b) => Some(b),
            ParserError::ChunkLength(b) => Some(b),
            ParserError::CrlfSequence(b) => Some(b),
            ParserError::Dead => None,
            ParserError::HeaderName(b) => Some(b),
            ParserError::HeaderValue(b) => Some(b),
            ParserError::ChunkLengthOverflow => None,
            ParserError::Method(b) => Some(b),
            ParserError::Multipart(b) => Some(b),
            ParserError::MultipartBoundary(b) => Some(b),
            ParserError::Status(b) => Some(b),
            ParserError::StatusCode(b) => Some(b),
            ParserError::Url(b) => Some(b),
            ParserError::UrlEncodedName(b) => Some(b),
            ParserError::UrlEncodedValue(b) => Some(b),
            ParserError::Version(b) => Some(b),
        }
    }

    /// Retrieve the offending byte, for the errors that carry one.
    pub fn byte(&self) -> (r: Option<u8>)
        ensures
            r == self.spec_byte(),
    {
        match *self {
            ParserError::ChunkExtensionName(b) => Some(b),
            ParserError::ChunkExtensionValue(b) => Some(b),
            ParserError::ChunkLength(b) => Some(b),
            ParserError::CrlfSequence(b) => Some(b),
            ParserError::Dead => None,
            ParserError::HeaderName(b) => Some(b),
            ParserError::HeaderValue(b) => Some(b),
            ParserError::ChunkLengthOverflow => None,
            ParserError::Method(b) => Some(b),
            ParserError::Multipart(b) => Some(b),
            ParserError::MultipartBoundary(b) => Some(b),
            ParserError::Status(b) => Some(b),
            ParserError::StatusCode(b) => Some(b),
            ParserError::Url(b) => Some(b),
            ParserError::UrlEncodedName(b) => Some(b),
            ParserError::UrlEncodedValue(b) => Some(b),
            ParserError::Version(b) => Some(b),
        }
    }
}

/// The name of an error's variant.
pub open spec fn error_name(e: ParserError) -> Seq<char> {
    match e {
            ParserError::ChunkExtensionName(_) => "ChunkExtensionName"@,
            ParserError::ChunkExtensionValue(_) => "ChunkExtensionValue"@,
            ParserError::ChunkLength(_) => "ChunkLength"@,
            ParserError::CrlfSequence(_) => "CrlfSequence"@,
            ParserError::Dead => "Dead"@,
            ParserError::HeaderName(_) => "HeaderName"@,
            ParserError::HeaderValue(_) => "HeaderValue"@,
            ParserError::ChunkLengthOverflow => "ChunkLengthOverflow"@,
            ParserError::Method(_) => "Method"@,
            ParserError::Multipart(_) => "Multipart"@,
            ParserError::MultipartBoundary(_) => "MultipartBoundary"@,
            ParserError::Status(_) => "Status"@,
            ParserError::StatusCode(_) => "StatusCode"@,
            ParserError::Url(_) => "Url"@,
            ParserError::UrlEncodedName(_) => "UrlEncodedName"@,
            ParserError::UrlEncodedValue(_) => "UrlEncodedValue"@,
            ParserError::Version(_) => "Version"@,
    }
}

/// The description of an error.
pub open spec fn error_description(e: ParserError) -> Seq<char> {
    match e {
            ParserError::ChunkExtensionName(_) => "Invalid chunk extension name"@,
            ParserError::ChunkExtensionValue(_) => "Invalid chunk extension value"@,
            ParserError::ChunkLength(_) => "Invalid chunk length"@,
            ParserError::CrlfSequence(_) => "Invalid CRLF sequence"@,
            ParserError::Dead => "Parser is dead"@,
            ParserError::HeaderName(_) => "Invalid header name"@,
            ParserError::HeaderValue(_) => "Invalid header value"@,
            ParserError::ChunkLengthOverflow => "Chunk length overflow"@,
            ParserError::Method(_) => "Invalid method"@,
            ParserError::Multipart(_) => "Invalid multipart data"@,
            ParserError::MultipartBoundary(_) => "Invalid multipart boundary"@,
            ParserError::Status(_) => "Invalid status"@,
            ParserError::StatusCode(_) => "Invalid status code"@,
            ParserError::Url(_) => "Invalid URL"@,
            ParserError::UrlEncodedName(_) => "Invalid URL encoded name"@,
            ParserError::UrlEncodedValue(_) => "Invalid URL encoded value"@,
            ParserError::Version(_) => "Invalid HTTP version"@,
    }
}

/// The part of an error's message after its description: the offending byte in decimal, for the
/// errors that carry one.
pub open spec fn error_byte_text(e: ParserError) -> Seq<char> {
    match e.spec_byte() {
        Some(b) => " on byte "@ + decimal(b as nat),
        None => Seq::empty(),
    }
}

/// The message of an error, as displayed: `<Name: Description on byte N>`.
pub open spec fn display_text(e: ParserError) -> Seq<char> {
    "<"@ + error_name(e) + ": "@ + error_description(e) + error_byte_text(e) + ">"@
}

/// The message of an error, as debugged: `<ParserError::Name: Description on byte N>`, where the
/// chunk extension value error has a space in place of the colon.
pub open spec fn debug_text(e: ParserError) -> Seq<char> {
    "<ParserError::"@ + error_name(e) + (if e is ChunkExtensionValue {
        " "@
    } else {
        ": "@
    }) + error_description(e) + error_byte_text(e) + ">"@
}

impl ParserError {
    /// The name of this error's variant.
    fn name(&self) -> (r: &'static str)
        ensures
            r@ == error_name(*self),
    {
        match *self {
            ParserError::ChunkExtensionName(_) => "ChunkExtensionName",
            ParserError::ChunkExtensionValue(_) => "ChunkExtensionValue",
            ParserError::ChunkLength(_) => "ChunkLength",
            ParserError::CrlfSequence(_) => "CrlfSequence",
            ParserError::Dead => "Dead",
            ParserError::HeaderName(_) => "HeaderName",
            ParserError::HeaderValue(_) => "HeaderValue",
            ParserError::ChunkLengthOverflow => "ChunkLengthOverflow",
            ParserError::Method(_) => "Method",
            ParserError::Multipart(_) => "Multipart",
            ParserError::MultipartBoundary(_) => "MultipartBoundary",
            ParserError::Status(_) => "Status",
            ParserError::StatusCode(_) => "StatusCode",
            ParserError::Url(_) => "Url",
            ParserError::UrlEncodedName(_) => "UrlEncodedName",
            ParserError::UrlEncodedValue(_) => "UrlEncodedValue",
            ParserError::Version(_) => "Version",
        }
    }

    /// The description of this error.
    pub fn description(&self) -> (r: &'static str)
        ensures
            r@ == error_description(*self),
    {
        match *self {
            ParserError::ChunkExtensionName(_) => "Invalid chunk extension name",
            ParserError::ChunkExtensionValue(_) => "Invalid chunk extension value",
            ParserError::ChunkLength(_) => "Invalid chunk length",
            ParserError::CrlfSequence(_) => "Invalid CRLF sequence",
            ParserError::Dead => "Parser is dead",
            ParserError::HeaderName(_) => "Invalid header name",
            ParserError::HeaderValue(_) => "Invalid header value",
            ParserError::ChunkLengthOverflow => "Chunk length overflow",
            ParserError::Method(_) => "Invalid method",
            ParserError::Multipart(_) => "Invalid multipart data",
            ParserError::MultipartBoundary(_) => "Invalid multipart boundary",
            ParserError::Status(_) => "Invalid status",
            ParserError::StatusCode(_) => "Invalid status code",
            ParserError::Url(_) => "Invalid URL",
            ParserError::UrlEncodedName(_) => "Invalid URL encoded name",
            ParserError::UrlEncodedValue(_) => "Invalid URL encoded value",
            ParserError::Version(_) => "Invalid HTTP version",
        }
    }

    /// Append the offending byte, for the errors that carry one, and the closing bracket.
    fn append_tail(&self, s: &mut String)
        ensures
            final(s)@ == old(s)@ + error_byte_text(*self) + ">"@,
    {
        match self.byte() {
            Some(b) => {
                s.append(" on byte ");
                append_decimal(s, b as u64);
            },
            None => {},
        }
        s.append(">");
    }

    /// The message of this error, as displayed: `<Name: Description on byte N>`.
    pub fn message(&self) -> (r: String)
        ensures
            r@ == display_text(*self),
    {
        let mut s = String::new();
        s.append("<");
        s.append(self.name());
        s.append(": ");
        s.append(self.description());
        self.append_tail(&mut s);
        s
    }

    /// The message of this error, as debugged: `<ParserError::Name: Description on byte N>`.
    pub fn debug_message(&self) -> (r: String)
        ensures
            r@ == debug_text(*self),
    {
        let mut s = String::new();
        s.append("<ParserError::");
        s.append(self.name());
        if let ParserError::ChunkExtensionValue(_) = *self {
            s.append(" ");
        } else {
            s.append(": ");
        }
        s.append(self.description());
        self.append_tail(&mut s);
        s
    }
}

} // verus!
