//! HTTP 1.x handler implementation for debugging purposes.

use crate::http1::HttpHandler;
use vstd::prelude::*;

verus! {

/// `DebugHttp1Handler` is a suitable handler for chunked, head, multipart and URL encoded
/// parsing: it collects every detail it is given.
///
/// If you're debugging large requests or responses, it's a good idea to pass fairly small chunks
/// of stream data at a time, and in between parser function calls, if you don't need to retain
/// the data, execute `reset()` so that the vectors collecting the data don't consume too much
/// memory.
pub struct DebugHttp1Handler {
    /// Indicates that the body has successfully been parsed.
    pub body_finished: bool,
    /// Chunk data.
    pub chunk_data: Vec<u8>,
    /// Chunk extension name.
    pub chunk_extension_name: Vec<u8>,
    /// Chunk extension value.
    pub chunk_extension_value: Vec<u8>,
    /// Chunk length.
    pub chunk_length: usize,
    /// Header field.
    pub header_field: Vec<u8>,
    /// Header value.
    pub header_value: Vec<u8>,
    /// Indicates that headers have successfully been parsed.
    pub headers_finished: bool,
    /// Request method.
    pub method: Vec<u8>,
    /// Multipart data.
    pub multipart_data: Vec<u8>,
    /// Response status.
    pub status: Vec<u8>,
    /// Response status code.
    pub status_code: u16,
    /// Request URL.
    pub url: Vec<u8>,
    /// URL encoded field.
    pub url_encoded_field: Vec<u8>,
    /// URL encoded value.
    pub url_encoded_value: Vec<u8>,
    /// HTTP major version.
    pub version_major: u16,
    /// HTTP minor version.
    pub version_minor: u16,
}

impl DebugHttp1Handler {
    /// Everything is empty, zero, or unset.
    pub open spec fn is_cleared(&self) -> bool {
        &&& !self.body_finished
        &&& self.chunk_data@.len() == 0
        &&& self.chunk_extension_name@.len() == 0
        &&& self.chunk_extension_value@.len() == 0
        &&& self.chunk_length == 0
        &&& self.header_field@.len() == 0
        &&& self.header_value@.len() == 0
        &&& !self.headers_finished
        &&& self.method@.len() == 0
        &&& self.multipart_data@.len() == 0
        &&& self.status@.len() == 0
        &&& self.status_code == 0
        &&& self.url@.len() == 0
        &&& self.url_encoded_field@.len() == 0
        &&& self.url_encoded_value@.len() == 0
        &&& self.version_major == 0
        &&& self.version_minor == 0
    }

    /// Create a new `DebugHttp1Handler`.
    pub fn new() -> (r: DebugHttp1Handler)
        ensures
            r.is_cleared(),
    {
        DebugHttp1Handler {
            body_finished: false,
            chunk_data: Vec::new(),
            chunk_extension_name: Vec::new(),
            chunk_extension_value: Vec::new(),
            chunk_length: 0,
            header_field: Vec::new(),
            header_value: Vec::new(),
            headers_finished: false,
            method: Vec::new(),
            multipart_data: Vec::new(),
            status: Vec::new(),
            status_code: 0,
            url: Vec::new(),
            url_encoded_field: Vec::new(),
            url_encoded_value: Vec::new(),
            version_major: 0,
            version_minor: 0,
        }
    }

    /// Reset the hander back to its original state.
    pub fn reset(&mut self)
        ensures
            final(self).is_cleared(),
    {
        self.body_finished = false;
        self.chunk_data = Vec::new();
        self.chunk_extension_name = Vec::new();
        self.chunk_extension_value = Vec::new();
        self.chunk_length = 0;
        self.header_field = Vec::new();
        self.header_value = Vec::new();
        self.headers_finished = false;
        self.method = Vec::new();
        self.multipart_data = Vec::new();
        self.status = Vec::new();
        self.status_code = 0;
        self.url = Vec::new();
        self.url_encoded_field = Vec::new();
        self.url_encoded_value = Vec::new();
        self.version_major = 0;
        self.version_minor = 0;
    }
}

impl HttpHandler for DebugHttp1Handler {
    fn on_body_finished(&mut self) -> (r: bool)
        ensures
            r,
            *final(self) == *old(self),
    {
        true
    }

    fn on_chunk_data(&mut self, data: &[u8]) -> (r: bool)
        ensures
            r,
            final(self).chunk_data@ == old(self).chunk_data@ + data@,
            *final(self) == (DebugHttp1Handler { chunk_data: final(self).chunk_data, ..*old(self) }),
    {
        self.chunk_data.extend_from_slice(data);
        true
    }

    fn on_chunk_extension_name(&mut self, name: &[u8]) -> (r: bool)
        ensures
            r,
            final(self).chunk_extension_name@ == old(self).chunk_extension_name@ + name@,
            *final(self) == (DebugHttp1Handler { chunk_extension_name: final(self).chunk_extension_name, ..*old(self) }),
    {
        self.chunk_extension_name.extend_from_slice(name);
        true
    }

    fn on_chunk_extension_value(&mut self, value: &[u8]) -> (r: bool)
        ensures
            r,
            final(self).chunk_extension_value@ == old(self).chunk_extension_value@ + value@,
            *final(self) == (DebugHttp1Handler { chunk_extension_value: final(self).chunk_extension_value, ..*old(self) }),
    {
        self.chunk_extension_value.extend_from_slice(value);
        true
    }

    fn on_chunk_length(&mut self, length: usize) -> (r: bool)
        ensures
            r,
            *final(self) == (DebugHttp1Handler { chunk_length: length, ..*old(self) }),
    {
        self.chunk_length = length;
        true
    }

    fn on_header_name(&mut self, name: &[u8]) -> (r: bool)
        ensures
            r,
            final(self).header_field@ == old(self).header_field@ + name@,
            *final(self) == (DebugHttp1Handler { header_field: final(self).header_field, ..*old(self) }),
    {
        self.header_field.extend_from_slice(name);
        true
    }

    fn on_header_value(&mut self, value: &[u8]) -> (r: bool)
        ensures
            r,
            final(self).header_value@ == old(self).header_value@ + value@,
            *final(self) == (DebugHttp1Handler { header_value: final(self).header_value, ..*old(self) }),
    {
        self.header_value.extend_from_slice(value);
        true
    }

    fn on_headers_finished(&mut self) -> (r: bool)
        ensures
            r,
            *final(self) == (DebugHttp1Handler { headers_finished: true, ..*old(self) }),
    {
        self.headers_finished = true;
        true
    }

    fn on_method(&mut self, method: &[u8]) -> (r: bool)
        ensures
            r,
            final(self).method@ == old(self).method@ + method@,
            *final(self) == (DebugHttp1Handler { method: final(self).method, ..*old(self) }),
    {
        self.method.extend_from_slice(method);
        true
    }

    fn on_multipart_data(&mut self, data: &[u8]) -> (r: bool)
        ensures
            r,
            final(self).multipart_data@ == old(self).multipart_data@ + data@,
            *final(self) == (DebugHttp1Handler { multipart_data: final(self).multipart_data, ..*old(self) }),
    {
        self.multipart_data.extend_from_slice(data);
        true
    }

    fn on_status(&mut self, status: &[u8]) -> (r: bool)
        ensures
            r,
            final(self).status@ == old(self).status@ + status@,
            *final(self) == (DebugHttp1Handler { status: final(self).status, ..*old(self) }),
    {
        self.status.extend_from_slice(status);
        true
    }

    fn on_status_code(&mut self, code: u16) -> (r: bool)
        ensures
            r,
            *final(self) == (DebugHttp1Handler { status_code: code, ..*old(self) }),
    {
        self.status_code = code;
        true
    }

    fn on_url(&mut self, url: &[u8]) -> (r: bool)
        ensures
            r,
            final(self).url@ == old(self).url@ + url@,
            *final(self) == (DebugHttp1Handler { url: final(self).url, ..*old(self) }),
    {
        self.url.extend_from_slice(url);
        true
    }

    fn on_url_encoded_name(&mut self, name: &[u8]) -> (r: bool)
        ensures
            r,
            final(self).url_encoded_field@ == old(self).url_encoded_field@ + name@,
            *final(self) == (DebugHttp1Handler { url_encoded_field: final(self).url_encoded_field, ..*old(self) }),
    {
        self.url_encoded_field.extend_from_slice(name);
        true
    }

    fn on_url_encoded_value(&mut self, value: &[u8]) -> (r: bool)
        ensures
            r,
            final(self).url_encoded_value@ == old(self).url_encoded_value@ + value@,
            *final(self) == (DebugHttp1Handler { url_encoded_value: final(self).url_encoded_value, ..*old(self) }),
    {
        self.url_encoded_value.extend_from_slice(value);
        true
    }

    fn on_version(&mut self, major: u16, minor: u16) -> (r: bool)
        ensures
            r,
            *final(self) == (DebugHttp1Handler { version_major: major, version_minor: minor, ..*old(self) }),
    {
        self.version_major = major;
        self.version_minor = minor;
        true
    }
}

impl Default for DebugHttp1Handler {
    /// The same as `DebugHttp1Handler::new()`.
    fn default() -> (r: DebugHttp1Handler)
        ensures
            r.is_cleared(),
    {
        DebugHttp1Handler::new()
    }
}

} // verus!
