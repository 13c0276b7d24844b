//! A handler that collects everything the HTTP 1.x parser reports.

use vstd::prelude::*;

use crate::http1::http_handler::HttpHandler;

verus! {

/// `DebugHandler` works with all `http1::Parser` parsing types.
///
/// It collects all parsed data: data callbacks append to the matching vector, and the other
/// callbacks record their arguments or set their flag.
pub struct DebugHandler {
    /// Indicates that the body has successfully been parsed.
    pub body_finished: bool,
    /// Chunk data.
    pub chunk_data: Vec<u8>,
    /// Indicates that the most recent chunk extension has been parsed.
    pub chunk_extension_finished: bool,
    /// Chunk extension name.
    pub chunk_extension_name: Vec<u8>,
    /// Chunk extension value.
    pub chunk_extension_value: Vec<u8>,
    /// Indicates that all chunk extensions have been parsed.
    pub chunk_extensions_finished: bool,
    /// Chunk length.
    pub chunk_length: usize,
    /// Header name.
    pub header_name: Vec<u8>,
    /// Header value.
    pub header_value: Vec<u8>,
    /// Indicates that headers have successfully been parsed.
    pub headers_finished: bool,
    /// Indicates that the initial request/response line has successfully been parsed.
    pub initial_finished: bool,
    /// Request method.
    pub method: Vec<u8>,
    /// Multipart data.
    pub multipart_data: Vec<u8>,
    /// Response status.
    pub status: Vec<u8>,
    /// Response status code.
    pub status_code: u16,
    /// Request URL.
    pub url: Vec<u8>,
    /// URL encoded name.
    pub url_encoded_name: Vec<u8>,
    /// URL encoded value.
    pub url_encoded_value: Vec<u8>,
    /// HTTP major version.
    pub version_major: u16,
    /// HTTP minor version.
    pub version_minor: u16,
}

impl DebugHandler {
    /// Everything is empty, zero, or unset.
    pub open spec fn is_cleared(&self) -> bool {
        &&& !self.body_finished
        &&& self.chunk_data@.len() == 0
        &&& !self.chunk_extension_finished
        &&& self.chunk_extension_name@.len() == 0
        &&& self.chunk_extension_value@.len() == 0
        &&& !self.chunk_extensions_finished
        &&& self.chunk_length == 0
        &&& self.header_name@.len() == 0
        &&& self.header_value@.len() == 0
        &&& !self.headers_finished
        &&& !self.initial_finished
        &&& self.method@.len() == 0
        &&& self.multipart_data@.len() == 0
        &&& self.status@.len() == 0
        &&& self.status_code == 0
        &&& self.url@.len() == 0
        &&& self.url_encoded_name@.len() == 0
        &&& self.url_encoded_value@.len() == 0
        &&& self.version_major == 0
        &&& self.version_minor == 0
    }

    /// Create a new `DebugHandler`.
    pub fn new() -> (r: DebugHandler)
        ensures
            r.is_cleared(),
    {
        DebugHandler {
            body_finished: false,
            chunk_data: Vec::new(),
            chunk_extension_finished: false,
            chunk_extension_name: Vec::new(),
            chunk_extension_value: Vec::new(),
            chunk_extensions_finished: false,
            chunk_length: 0,
            header_name: Vec::new(),
            header_value: Vec::new(),
            headers_finished: false,
            initial_finished: false,
            method: Vec::new(),
            multipart_data: Vec::new(),
            status: Vec::new(),
            status_code: 0,
            url: Vec::new(),
            url_encoded_name: Vec::new(),
            url_encoded_value: Vec::new(),
            version_major: 0,
            version_minor: 0,
        }
    }

    /// Reset the handler back to its original state.
    pub fn reset(&mut self)
        ensures
            final(self).is_cleared(),
    {
        self.body_finished = false;
        self.chunk_data = Vec::new();
        self.chunk_extension_finished = false;
        self.chunk_extension_name = Vec::new();
        self.chunk_extension_value = Vec::new();
        self.chunk_extensions_finished = false;
        self.chunk_length = 0;
        self.header_name = Vec::new();
        self.header_value = Vec::new();
        self.headers_finished = false;
        self.initial_finished = false;
        self.method = Vec::new();
        self.multipart_data = Vec::new();
        self.status = Vec::new();
        self.status_code = 0;
        self.url = Vec::new();
        self.url_encoded_name = Vec::new();
        self.url_encoded_value = Vec::new();
        self.version_major = 0;
        self.version_minor = 0;
    }
}

impl HttpHandler for DebugHandler {
    fn content_length(&mut self) -> (r: Option<usize>)
        ensures
            r is None,
            *final(self) == *old(self),
    {
        None
    }

    fn on_body_finished(&mut self) -> (r: bool)
        ensures
            r,
            *final(self) == (DebugHandler { body_finished: true, ..*old(self) }),
    {
        self.body_finished = true;
        true
    }

    fn on_chunk_data(&mut self, data: &[u8]) -> (r: bool)
        ensures
            r,
            final(self).chunk_data@ == old(self).chunk_data@ + data@,
            *final(self) == (DebugHandler { chunk_data: final(self).chunk_data, ..*old(self) }),
    {
        self.chunk_data.extend_from_slice(data);
        true
    }

    fn on_chunk_extension_finished(&mut self) -> (r: bool)
        ensures
            r,
            *final(self) == (DebugHandler { chunk_extension_finished: true, ..*old(self) }),
    {
        self.chunk_extension_finished = true;
        true
    }

    fn on_chunk_extension_name(&mut self, name: &[u8]) -> (r: bool)
        ensures
            r,
            final(self).chunk_extension_name@ == old(self).chunk_extension_name@ + name@,
            *final(self) == (DebugHandler { chunk_extension_name: final(self).chunk_extension_name, ..*old(self) }),
    {
        self.chunk_extension_name.extend_from_slice(name);
        true
    }

    fn on_chunk_extension_value(&mut self, value: &[u8]) -> (r: bool)
        ensures
            r,
            final(self).chunk_extension_value@ == old(self).chunk_extension_value@ + value@,
            *final(self) == (DebugHandler { chunk_extension_value: final(self).chunk_extension_value, ..*old(self) }),
    {
        self.chunk_extension_value.extend_from_slice(value);
        true
    }

    fn on_chunk_extensions_finished(&mut self) -> (r: bool)
        ensures
            r,
            *final(self) == (DebugHandler { chunk_extensions_finished: true, ..*old(self) }),
    {
        self.chunk_extensions_finished = true;
        true
    }

    fn on_chunk_length(&mut self, length: usize) -> (r: bool)
        ensures
            r,
            *final(self) == (DebugHandler { chunk_length: length, ..*old(self) }),
    {
        self.chunk_length = length;
        true
    }

    fn on_header_name(&mut self, name: &[u8]) -> (r: bool)
        ensures
            r,
            final(self).header_name@ == old(self).header_name@ + name@,
            *final(self) == (DebugHandler { header_name: final(self).header_name, ..*old(self) }),
    {
        self.header_name.extend_from_slice(name);
        true
    }

    fn on_header_value(&mut self, value: &[u8]) -> (r: bool)
        ensures
            r,
            final(self).header_value@ == old(self).header_value@ + value@,
            *final(self) == (DebugHandler { header_value: final(self).header_value, ..*old(self) }),
    {
        self.header_value.extend_from_slice(value);
        true
    }

    fn on_headers_finished(&mut self) -> (r: bool)
        ensures
            r,
            *final(self) == (DebugHandler { headers_finished: true, ..*old(self) }),
    {
        self.headers_finished = true;
        true
    }

    fn on_initial_finished(&mut self) -> (r: bool)
        ensures
            r,
            *final(self) == (DebugHandler { initial_finished: true, ..*old(self) }),
    {
        self.initial_finished = true;
        true
    }

    fn on_method(&mut self, method: &[u8]) -> (r: bool)
        ensures
            r,
            final(self).method@ == old(self).method@ + method@,
            *final(self) == (DebugHandler { method: final(self).method, ..*old(self) }),
    {
        self.method.extend_from_slice(method);
        true
    }

    fn on_multipart_data(&mut self, data: &[u8]) -> (r: bool)
        ensures
            r,
            final(self).multipart_data@ == old(self).multipart_data@ + data@,
            *final(self) == (DebugHandler { multipart_data: final(self).multipart_data, ..*old(self) }),
    {
        self.multipart_data.extend_from_slice(data);
        true
    }

    fn on_status(&mut self, status: &[u8]) -> (r: bool)
        ensures
            r,
            final(self).status@ == old(self).status@ + status@,
            *final(self) == (DebugHandler { status: final(self).status, ..*old(self) }),
    {
        self.status.extend_from_slice(status);
        true
    }

    fn on_status_code(&mut self, code: u16) -> (r: bool)
        ensures
            r,
            *final(self) == (DebugHandler { status_code: code, ..*old(self) }),
    {
        self.status_code = code;
        true
    }

    fn on_url(&mut self, url: &[u8]) -> (r: bool)
        ensures
            r,
            final(self).url@ == old(self).url@ + url@,
            *final(self) == (DebugHandler { url: final(self).url, ..*old(self) }),
    {
        self.url.extend_from_slice(url);
        true
    }

    fn on_url_encoded_name(&mut self, name: &[u8]) -> (r: bool)
        ensures
            r,
            final(self).url_encoded_name@ == old(self).url_encoded_name@ + name@,
            *final(self) == (DebugHandler { url_encoded_name: final(self).url_encoded_name, ..*old(self) }),
    {
        self.url_encoded_name.extend_from_slice(name);
        true
    }

    fn on_url_encoded_value(&mut self, value: &[u8]) -> (r: bool)
        ensures
            r,
            final(self).url_encoded_value@ == old(self).url_encoded_value@ + value@,
            *final(self) == (DebugHandler { url_encoded_value: final(self).url_encoded_value, ..*old(self) }),
    {
        self.url_encoded_value.extend_from_slice(value);
        true
    }

    fn on_version(&mut self, major: u16, minor: u16) -> (r: bool)
        ensures
            r,
            *final(self) == (DebugHandler { version_major: major, version_minor: minor, ..*old(self) }),
    {
        self.version_major = major;
        self.version_minor = minor;
        true
    }
}

impl Default for DebugHandler {
    /// The same as `DebugHandler::new()`.
    fn default() -> (r: DebugHandler)
        ensures
            r.is_cleared(),
    {
        DebugHandler::new()
    }
}

} // verus!
