//! Handler implementations.

pub mod http1;

pub use self::http1::chunked::{ChunkDataHandler, ChunkDetails, ChunkedHandler};
pub use self::http1::debug::DebugHttp1Handler;
pub use self::http1::headers::HeadersHandler;
pub use self::http1::multipart::MultipartHandler;
pub use self::http1::url_encoded::UrlEncodedHandler;

use vstd::prelude::*;

verus! {

/// Content type of a message body.
#[derive(Clone, Debug, PartialEq, Eq)]
pub enum ContentType {
    /// No content type.
    Unset,
    /// Multipart content, with its boundary.
    Multipart(Vec<u8>),
    /// URL encoded content.
    UrlEncoded,
    /// Any other content type.
    Other(Vec<u8>),
}

/// Transfer encoding of a message body.
#[derive(Clone, Debug, PartialEq, Eq)]
pub enum TransferEncoding {
    /// No transfer encoding.
    Unset,
    /// Chunked transfer encoding.
    Chunked,
    /// Compress transfer encoding.
    Compress,
    /// Deflate transfer encoding.
    Deflate,
    /// Gzip transfer encoding.
    Gzip,
    /// Any other transfer encoding.
    Other(Vec<u8>),
}

/// The two content types are the same, boundary and name bytes included.
pub open spec fn same_content_type(a: ContentType, b: ContentType) -> bool {
    match (a, b) {
        (ContentType::Unset, ContentType::Unset) => true,
        (ContentType::Multipart(x), ContentType::Multipart(y)) => x@ == y@,
        (ContentType::UrlEncoded, ContentType::UrlEncoded) => true,
        (ContentType::Other(x), ContentType::Other(y)) => x@ == y@,
        _ => false,
    }
}

/// The two transfer encodings are the same, name bytes included.
pub open spec fn same_transfer_encoding(a: TransferEncoding, b: TransferEncoding) -> bool {
    match (a, b) {
        (TransferEncoding::Unset, TransferEncoding::Unset) => true,
        (TransferEncoding::Chunked, TransferEncoding::Chunked) => true,
        (TransferEncoding::Compress, TransferEncoding::Compress) => true,
        (TransferEncoding::Deflate, TransferEncoding::Deflate) => true,
        (TransferEncoding::Gzip, TransferEncoding::Gzip) => true,
        (TransferEncoding::Other(x), TransferEncoding::Other(y)) => x@ == y@,
        _ => false,
    }
}

/// A copy of `bytes`.
fn copy_of(bytes: &Vec<u8>) -> (r: Vec<u8>)
    ensures
        r@ == bytes@,
{
    let mut r: Vec<u8> = Vec::with_capacity(bytes.len());
    r.extend_from_slice(bytes.as_slice());
    r
}

/// Handler that collects every parsed detail, for debugging purposes.
pub struct DebugHandler {
    pub body: Vec<u8>,
    pub chunk_data: Vec<u8>,
    pub chunk_extension_name: Vec<u8>,
    pub chunk_extension_value: Vec<u8>,
    pub chunk_size: u64,
    pub content_type: ContentType,
    pub header_field: Vec<u8>,
    pub header_value: Vec<u8>,
    pub headers_finished: bool,
    pub method: Vec<u8>,
    pub multipart_data: Vec<u8>,
    pub status: Vec<u8>,
    pub status_code: u16,
    pub transfer_encoding: TransferEncoding,
    pub url: Vec<u8>,
    pub url_encoded_field: Vec<u8>,
    pub url_encoded_value: Vec<u8>,
    pub url_fragment: Vec<u8>,
    pub url_host: Vec<u8>,
    pub url_path: Vec<u8>,
    pub url_port: u16,
    pub url_query_string: Vec<u8>,
    pub url_scheme: Vec<u8>,
    pub version_major: u16,
    pub version_minor: u16,
}

impl DebugHandler {
    /// Indicates that every collected detail is empty or zero, and the content type and transfer
    /// encoding are unset.
    pub open spec fn is_cleared(&self) -> bool {
        &&& self.body@.len() == 0
        &&& self.chunk_data@.len() == 0
        &&& self.chunk_extension_name@.len() == 0
        &&& self.chunk_extension_value@.len() == 0
        &&& self.chunk_size == 0
        &&& self.content_type == ContentType::Unset
        &&& self.header_field@.len() == 0
        &&& self.header_value@.len() == 0
        &&& !self.headers_finished
        &&& self.method@.len() == 0
        &&& self.multipart_data@.len() == 0
        &&& self.status@.len() == 0
        &&& self.status_code == 0
        &&& self.transfer_encoding == TransferEncoding::Unset
        &&& self.url@.len() == 0
        &&& self.url_encoded_field@.len() == 0
        &&& self.url_encoded_value@.len() == 0
        &&& self.url_fragment@.len() == 0
        &&& self.url_host@.len() == 0
        &&& self.url_path@.len() == 0
        &&& self.url_port == 0
        &&& self.url_query_string@.len() == 0
        &&& self.url_scheme@.len() == 0
        &&& self.version_major == 0
        &&& self.version_minor == 0
    }

    /// Create a new `DebugHandler`.
    pub fn new() -> (r: DebugHandler)
        ensures
            r.is_cleared(),
    {
        DebugHandler {
            body: Vec::new(),
            chunk_data: Vec::new(),
            chunk_extension_name: Vec::new(),
            chunk_extension_value: Vec::new(),
            chunk_size: 0,
            content_type: ContentType::Unset,
            header_field: Vec::new(),
            header_value: Vec::new(),
            headers_finished: false,
            method: Vec::new(),
            multipart_data: Vec::new(),
            status: Vec::new(),
            status_code: 0,
            transfer_encoding: TransferEncoding::Unset,
            url: Vec::new(),
            url_encoded_field: Vec::new(),
            url_encoded_value: Vec::new(),
            url_fragment: Vec::new(),
            url_host: Vec::new(),
            url_path: Vec::new(),
            url_port: 0,
            url_query_string: Vec::new(),
            url_scheme: Vec::new(),
            version_major: 0,
            version_minor: 0,
        }
    }

    /// Reset the handler back to its original state.
    pub fn reset(&mut self)
        ensures
            final(self).is_cleared(),
    {
        self.body = Vec::new();
        self.chunk_data = Vec::new();
        self.chunk_extension_name = Vec::new();
        self.chunk_extension_value = Vec::new();
        self.chunk_size = 0;
        self.content_type = ContentType::Unset;
        self.header_field = Vec::new();
        self.header_value = Vec::new();
        self.headers_finished = false;
        self.method = Vec::new();
        self.multipart_data = Vec::new();
        self.status = Vec::new();
        self.status_code = 0;
        self.transfer_encoding = TransferEncoding::Unset;
        self.url = Vec::new();
        self.url_encoded_field = Vec::new();
        self.url_encoded_value = Vec::new();
        self.url_fragment = Vec::new();
        self.url_host = Vec::new();
        self.url_path = Vec::new();
        self.url_port = 0;
        self.url_query_string = Vec::new();
        self.url_scheme = Vec::new();
        self.version_major = 0;
        self.version_minor = 0;
    }

    /// Retrieve a copy of the content type.
    pub fn get_content_type(&self) -> (r: ContentType)
        ensures
            same_content_type(r, self.content_type),
    {
        match &self.content_type {
            ContentType::Unset => ContentType::Unset,
            ContentType::Multipart(x) => ContentType::Multipart(copy_of(x)),
            ContentType::UrlEncoded => ContentType::UrlEncoded,
            ContentType::Other(x) => ContentType::Other(copy_of(x)),
        }
    }

    /// Retrieve a copy of the transfer encoding.
    pub fn get_transfer_encoding(&self) -> (r: TransferEncoding)
        ensures
            same_transfer_encoding(r, self.transfer_encoding),
    {
        match &self.transfer_encoding {
            TransferEncoding::Unset => TransferEncoding::Unset,
            TransferEncoding::Chunked => TransferEncoding::Chunked,
            TransferEncoding::Compress => TransferEncoding::Compress,
            TransferEncoding::Deflate => TransferEncoding::Deflate,
            TransferEncoding::Gzip => TransferEncoding::Gzip,
            TransferEncoding::Other(x) => TransferEncoding::Other(copy_of(x)),
        }
    }

    /// Set the content type.
    pub fn set_content_type(&mut self, content_type: ContentType)
        ensures
            *final(self) == (DebugHandler { content_type: content_type, ..*old(self) }),
    {
        self.content_type = content_type;
    }

    /// Set the transfer encoding.
    pub fn set_transfer_encoding(&mut self, transfer_encoding: TransferEncoding)
        ensures
            *final(self) == (DebugHandler { transfer_encoding: transfer_encoding, ..*old(self) }),
    {
        self.transfer_encoding = transfer_encoding;
    }
}

impl Default for DebugHandler {
    /// The same as `DebugHandler::new()`.
    fn default() -> (r: DebugHandler)
        ensures
            r.is_cleared(),
    {
        DebugHandler::new()
    }
}

} // verus!
