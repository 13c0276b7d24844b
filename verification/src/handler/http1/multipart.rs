//! HTTP 1.x handler implementation for processing multipart form data.

use crate::field::{FieldMap, FieldValue, StringMap};
use crate::handler::http1::headers::{content_length_value, header_content_length, parse_decimal};
use crate::http1::HttpHandler;
use crate::util::{
    last_value, lemma_last_value_cons, spec_segments,
    bytes_eq, lemma_next_segment_advances, next_segment, spec_next_segment, string_from_bytes,
    string_from_utf8, utf8_lossy_text, FieldSegment, SegmentView,
};
use vstd::prelude::*;
use vstd::string::*;
use vstd::utf8::{decode_utf8, encode_utf8, valid_utf8};

verus! {

/// The characters of `content-disposition`.
pub open spec fn header_content_disposition() -> Seq<char> {
    seq!['c', 'o', 'n', 't', 'e', 'n', 't', '-', 'd', 'i', 's', 'p', 'o', 's', 'i', 't', 'i', 'o', 'n']
}

/// The bytes of `name`.
pub open spec fn parameter_name() -> Seq<u8> {
    seq![0x6Eu8, 0x61, 0x6D, 0x65]
}

/// The bytes of `filename`.
pub open spec fn parameter_filename() -> Seq<u8> {
    seq![0x66u8, 0x69, 0x6C, 0x65, 0x6E, 0x61, 0x6D, 0x65]
}

/// The `name` and `filename` values of a `Content-Disposition` header value `s`, from `start`
/// on, given those found before it: segments are separated by `;` and their names made
/// lower-case, a later value replaces an earlier one, segments without a value are passed over,
/// and reading stops at the first invalid byte.
pub open spec fn disposition_names(
    s: Seq<u8>,
    start: int,
    name: Option<Seq<u8>>,
    filename: Option<Seq<u8>>,
) -> (Option<Seq<u8>>, Option<Seq<u8>>)
    decreases s.len() - start,
{
    match spec_next_segment(s, start, 0x3B, true, Seq::empty()) {
        Ok(Some((seg, next))) => {
            proof {
                lemma_next_segment_advances(s, start, 0x3B, true, Seq::empty());
            }
            match seg.value {
                Some(v) => if seg.name == parameter_name() {
                    disposition_names(s, next, Some(v), filename)
                } else if seg.name == parameter_filename() {
                    disposition_names(s, next, name, Some(v))
                } else {
                    disposition_names(s, next, name, filename)
                },
                None => disposition_names(s, next, name, filename),
            }
        },
        _ => (name, filename),
    }
}

/// The parameters after the name and value of a part have been flushed into `parameters`: the
/// pair is added when the part holds a parameter, its name is not empty, and both name and value
/// are valid UTF-8; the value is appended to the values of its name.
pub open spec fn flushed_parameters(
    parameters: Map<Seq<char>, Seq<Seq<char>>>,
    is_parameter: bool,
    name: Seq<u8>,
    value: Seq<u8>,
) -> Map<Seq<char>, Seq<Seq<char>>> {
    if is_parameter && name.len() > 0 && valid_utf8(name) && valid_utf8(value) {
        let key = decode_utf8(name);
        parameters.insert(
            key,
            if parameters.contains_key(key) {
                parameters[key].push(decode_utf8(value))
            } else {
                seq![decode_utf8(value)]
            },
        )
    } else {
        parameters
    }
}

/// The headers after a header name and value have been flushed into `headers`: a pair with an
/// empty name is dropped.
pub open spec fn flushed_headers(
    headers: Map<Seq<char>, Seq<char>>,
    name: Seq<u8>,
    value: Seq<u8>,
) -> Map<Seq<char>, Seq<char>> {
    if name.len() == 0 {
        headers
    } else {
        headers.insert(utf8_lossy_text(name), utf8_lossy_text(value))
    }
}

/// The bytes of an optional byte vector.
pub open spec fn opt_bytes(o: Option<Vec<u8>>) -> Option<Seq<u8>> {
    match o {
        Some(v) => Some(v@),
        None => None,
    }
}

/// The `name` and `filename` values of the `Content-Disposition` header among `headers`, if
/// there is one.
pub open spec fn disposition_of(headers: Map<Seq<char>, Seq<char>>) -> (
    Option<Seq<u8>>,
    Option<Seq<u8>>,
) {
    if headers.contains_key(header_content_disposition()) {
        disposition_names(encode_utf8(headers[header_content_disposition()]), 0, None, None)
    } else {
        (None, None)
    }
}

/// The `name` and `filename` values of a `Content-Disposition` header value.
fn disposition_names_of(s: &[u8]) -> (r: (Option<Vec<u8>>, Option<Vec<u8>>))
    ensures
        (opt_bytes(r.0), opt_bytes(r.1)) == disposition_names(s@, 0, None, None),
{
    let none: [u8; 0] = [];
    assert(none@ == Seq::<u8>::empty());
    let name_bytes: [u8; 4] = [0x6E, 0x61, 0x6D, 0x65];
    assert(name_bytes@ == parameter_name());
    let filename_bytes: [u8; 8] = [0x66, 0x69, 0x6C, 0x65, 0x6E, 0x61, 0x6D, 0x65];
    assert(filename_bytes@ == parameter_filename());
    let mut name: Option<Vec<u8>> = None;
    let mut filename: Option<Vec<u8>> = None;
    let mut pos: usize = 0;
    loop
        invariant
            disposition_names(s@, 0, None, None) == disposition_names(
                s@,
                pos as int,
                opt_bytes(name),
                opt_bytes(filename),
            ),
            pos <= s@.len(),
            none@ == Seq::<u8>::empty(),
            name_bytes@ == parameter_name(),
            filename_bytes@ == parameter_filename(),
        decreases s@.len() - pos,
    {
        proof {
            lemma_next_segment_advances(s@, pos as int, 0x3B, true, Seq::empty());
        }
        match next_segment(s, pos, 0x3B, true, none.as_slice()) {
            Ok(Some((segment, next))) => {
                match segment {
                    FieldSegment::NameValue(n, v) => {
                        if bytes_eq(n.as_slice(), name_bytes.as_slice()) {
                            name = Some(v);
                        } else if bytes_eq(n.as_slice(), filename_bytes.as_slice()) {
                            filename = Some(v);
                        }
                    },
                    FieldSegment::Name(_) => {},
                }
                pos = next;
            },
            _ => {
                return (name, filename);
            },
        }
    }
}

/// Content disposition of the current part.
enum ContentDisposition {
    /// Unknown content disposition: the data is not kept.
    Unknown,
    /// Parameter with value content disposition.
    Parameter,
}

/// `MultipartHandler` is a suitable handler for multipart parsing: it collects the parameters of
/// the parts, each name with its values in order, and the headers of the current part.
pub struct MultipartHandler {
    /// Boundary.
    boundary: Vec<u8>,
    /// Current content disposition.
    content_disposition: ContentDisposition,
    /// Field buffer.
    field_buffer: Vec<u8>,
    /// Indicates that parsing has finished.
    finished: bool,
    /// Current multipart section headers.
    headers: StringMap,
    /// Maximum file size.
    max_file_size: usize,
    /// Maximum parameter size.
    max_parameter_size: usize,
    /// Parameters.
    parameters: FieldMap,
    /// Field/value toggle: set once a header value has been given.
    toggle: bool,
    /// File upload path.
    upload_path: String,
    /// Value buffer.
    value_buffer: Vec<u8>,
}

impl MultipartHandler {
    /// The parameters stay well-formed.
    #[verifier::type_invariant]
    spec fn parameters_wf(&self) -> bool {
        self.parameters.wf()
    }

    /// The boundary.
    pub closed spec fn spec_boundary(&self) -> Seq<u8> {
        self.boundary@
    }

    /// The current part holds a parameter, whose value is being collected.
    pub closed spec fn spec_is_parameter(&self) -> bool {
        self.content_disposition is Parameter
    }

    /// The header name, or the parameter name, being collected.
    pub closed spec fn spec_field_buffer(&self) -> Seq<u8> {
        self.field_buffer@
    }

    /// The header value, or the parameter value, being collected.
    pub closed spec fn spec_value_buffer(&self) -> Seq<u8> {
        self.value_buffer@
    }

    /// Indicates that parsing has finished.
    pub closed spec fn spec_finished(&self) -> bool {
        self.finished
    }

    /// The headers of the current part.
    pub closed spec fn spec_headers(&self) -> Map<Seq<char>, Seq<char>> {
        self.headers@
    }

    /// The parameters, by name.
    pub closed spec fn spec_parameters(&self) -> Map<Seq<char>, Seq<Seq<char>>> {
        self.parameters@
    }

    /// Indicates that a header value has been given for the header being collected.
    pub closed spec fn spec_toggle(&self) -> bool {
        self.toggle
    }

    /// The maximum file size.
    pub closed spec fn spec_max_file_size(&self) -> usize {
        self.max_file_size
    }

    /// The maximum parameter size.
    pub closed spec fn spec_max_parameter_size(&self) -> usize {
        self.max_parameter_size
    }

    /// The file upload path.
    pub closed spec fn spec_upload_path(&self) -> Seq<char> {
        self.upload_path@
    }

    /// Nothing has been collected, and parsing has not finished.
    pub open spec fn is_cleared(&self) -> bool {
        &&& !self.spec_is_parameter()
        &&& self.spec_field_buffer().len() == 0
        &&& self.spec_value_buffer().len() == 0
        &&& !self.spec_finished()
        &&& self.spec_headers() == Map::<Seq<char>, Seq<char>>::empty()
        &&& self.spec_parameters() == Map::<Seq<char>, Seq<Seq<char>>>::empty()
        &&& !self.spec_toggle()
    }

    /// Create a new `MultipartHandler` with the multipart `boundary`, no size limits and the
    /// upload path `/tmp`.
    pub fn new(boundary: &[u8]) -> (r: MultipartHandler)
        ensures
            r.is_cleared(),
            r.spec_boundary() == boundary@,
            r.spec_max_file_size() == usize::MAX,
            r.spec_max_parameter_size() == usize::MAX,
            r.spec_upload_path() == "/tmp"@,
    {
        let mut b: Vec<u8> = Vec::with_capacity(boundary.len());
        b.extend_from_slice(boundary);
        MultipartHandler {
            boundary: b,
            content_disposition: ContentDisposition::Unknown,
            field_buffer: Vec::new(),
            finished: false,
            headers: StringMap::new(),
            max_file_size: usize::MAX,
            max_parameter_size: usize::MAX,
            parameters: FieldMap::new(),
            toggle: false,
            upload_path: String::from_str("/tmp"),
            value_buffer: Vec::new(),
        }
    }

    /// Retrieve the multipart boundary.
    pub fn multipart_boundary(&self) -> (r: &[u8])
        ensures
            r@ == self.spec_boundary(),
    {
        self.boundary.as_slice()
    }

    /// Indicates that `header` exists within the headers of the current part.
    pub fn has_header(&self, header: &str) -> (r: bool)
        ensures
            r == self.spec_headers().contains_key(header@),
    {
        self.headers.contains_key(header)
    }

    /// Indicates that `parameter` exists within the collection of parameters.
    pub fn has_parameter(&self, parameter: &str) -> (r: bool)
        ensures
            r == self.spec_parameters().contains_key(parameter@),
    {
        proof {
            use_type_invariant(self);
        }
        self.parameters.has_field(parameter)
    }

    /// Retrieve `header` from the headers of the current part.
    pub fn header(&self, header: &str) -> (r: Option<&str>)
        ensures
            self.spec_headers().contains_key(header@) ==> r is Some && r->0@
                == self.spec_headers()[header@],
            !self.spec_headers().contains_key(header@) ==> r is None,
    {
        match self.headers.get(header) {
            Some(value) => Some(value.as_str()),
            None => None,
        }
    }

    /// Retrieve the headers of the current part.
    pub fn headers(&self) -> (r: &StringMap)
        ensures
            r@ == self.spec_headers(),
    {
        &self.headers
    }

    /// Indicates that parsing has finished.
    pub fn is_finished(&self) -> (r: bool)
        ensures
            r == self.spec_finished(),
    {
        self.finished
    }

    /// Retrieve `parameter` from the collection of parameters.
    pub fn parameter(&self, parameter: &str) -> (r: Option<&FieldValue>)
        ensures
            self.spec_parameters().contains_key(parameter@) ==> r is Some && r->0@
                == self.spec_parameters()[parameter@],
            !self.spec_parameters().contains_key(parameter@) ==> r is None,
    {
        proof {
            use_type_invariant(self);
        }
        self.parameters.field(parameter)
    }

    /// Retrieve the collection of parameters.
    pub fn parameters(&self) -> (r: &FieldMap)
        ensures
            r@ == self.spec_parameters(),
            r.wf(),
    {
        proof {
            use_type_invariant(self);
        }
        &self.parameters
    }

    /// The settings that parsing leaves alone: boundary, size limits and upload path.
    pub closed spec fn same_settings(&self, other: &MultipartHandler) -> bool {
        &&& self.boundary@ == other.boundary@
        &&& self.max_file_size == other.max_file_size
        &&& self.max_parameter_size == other.max_parameter_size
        &&& self.upload_path@ == other.upload_path@
    }

    /// Flush the most recent parameter.
    fn flush_parameter_file(&mut self)
        ensures
            final(self).parameters@ == flushed_parameters(
                old(self).parameters@,
                old(self).content_disposition is Parameter,
                old(self).field_buffer@,
                old(self).value_buffer@,
            ),
            final(self).field_buffer@.len() == 0,
            final(self).value_buffer@.len() == 0,
            *final(self) == (MultipartHandler {
                parameters: final(self).parameters,
                field_buffer: final(self).field_buffer,
                value_buffer: final(self).value_buffer,
                ..*old(self)
            }),
    {
        proof {
            use_type_invariant(&*self);
        }
        let is_parameter = match self.content_disposition {
            ContentDisposition::Parameter => true,
            ContentDisposition::Unknown => false,
        };
        if is_parameter && !self.field_buffer.is_empty() {
            let name = string_from_utf8(self.field_buffer.as_slice());
            let value = string_from_utf8(self.value_buffer.as_slice());
            match (name, value) {
                (Some(name), Some(value)) => {
                    let mut parameters = FieldMap::new();
                    std::mem::swap(&mut parameters, &mut self.parameters);
                    parameters.push(name, value);
                    self.parameters = parameters;
                },
                _ => {},
            }
        }
        self.field_buffer = Vec::new();
        self.value_buffer = Vec::new();
    }

    /// Flush the most recent header name/value.
    fn flush_header(&mut self)
        ensures
            final(self).headers@ == flushed_headers(
                old(self).headers@,
                old(self).field_buffer@,
                old(self).value_buffer@,
            ),
            final(self).field_buffer@.len() == 0,
            final(self).value_buffer@.len() == 0,
            *final(self) == (MultipartHandler {
                headers: final(self).headers,
                field_buffer: final(self).field_buffer,
                value_buffer: final(self).value_buffer,
                ..*old(self)
            }),
    {
        proof {
            use_type_invariant(&*self);
        }
        if !self.field_buffer.is_empty() {
            let name = string_from_bytes(self.field_buffer.as_slice());
            let value = string_from_bytes(self.value_buffer.as_slice());
            let mut headers = StringMap::new();
            std::mem::swap(&mut headers, &mut self.headers);
            headers.insert(name, value);
            self.headers = headers;
        }
        self.field_buffer = Vec::new();
        self.value_buffer = Vec::new();
    }

    /// Reset the handler to its original state; boundary, size limits and upload path are kept.
    pub fn reset(&mut self)
        ensures
            final(self).is_cleared(),
            final(self).same_settings(old(self)),
    {
        proof {
            use_type_invariant(&*self);
        }
        self.content_disposition = ContentDisposition::Unknown;
        self.finished = false;
        self.toggle = false;
        self.field_buffer = Vec::new();
        self.headers = StringMap::new();
        self.parameters = FieldMap::new();
        self.value_buffer = Vec::new();
    }

    /// Set the max file size.
    pub fn set_max_file_size(&mut self, size: usize)
        ensures
            final(self).spec_max_file_size() == size,
            final(self).spec_max_parameter_size() == old(self).spec_max_parameter_size(),
            final(self).spec_upload_path() == old(self).spec_upload_path(),
            final(self).spec_boundary() == old(self).spec_boundary(),
            final(self).spec_parameters() == old(self).spec_parameters(),
            final(self).spec_headers() == old(self).spec_headers(),
    {
        proof {
            use_type_invariant(&*self);
        }
        self.max_file_size = size;
    }

    /// Set the max parameter size.
    pub fn set_max_parameter_size(&mut self, size: usize)
        ensures
            final(self).spec_max_parameter_size() == size,
            final(self).spec_max_file_size() == old(self).spec_max_file_size(),
            final(self).spec_upload_path() == old(self).spec_upload_path(),
            final(self).spec_boundary() == old(self).spec_boundary(),
            final(self).spec_parameters() == old(self).spec_parameters(),
            final(self).spec_headers() == old(self).spec_headers(),
    {
        proof {
            use_type_invariant(&*self);
        }
        self.max_parameter_size = size;
    }

    /// Set the file upload path.
    pub fn set_upload_path(&mut self, path: &str)
        ensures
            final(self).spec_upload_path() == path@,
            final(self).spec_max_file_size() == old(self).spec_max_file_size(),
            final(self).spec_max_parameter_size() == old(self).spec_max_parameter_size(),
            final(self).spec_boundary() == old(self).spec_boundary(),
            final(self).spec_parameters() == old(self).spec_parameters(),
            final(self).spec_headers() == old(self).spec_headers(),
    {
        proof {
            use_type_invariant(&*self);
        }
        self.upload_path = path.to_string();
    }
}

impl HttpHandler for MultipartHandler {
    fn content_length(&mut self) -> (r: Option<usize>)
        ensures
            *final(self) == *old(self),
            !old(self).spec_headers().contains_key(header_content_length()) ==> r is None,
            old(self).spec_headers().contains_key(header_content_length()) ==> r
                == content_length_value(old(self).spec_headers()[header_content_length()]),
    {
        proof {
            reveal_strlit("content-length");
        }
        assert("content-length"@ == header_content_length());
        match self.header("content-length") {
            Some(value) => parse_decimal(value.as_bytes()),
            None => None,
        }
    }

    fn on_body_finished(&mut self) -> (r: bool)
        ensures
            r,
            final(self).spec_finished(),
            final(self).spec_parameters() == flushed_parameters(
                old(self).spec_parameters(),
                old(self).spec_is_parameter(),
                old(self).spec_field_buffer(),
                old(self).spec_value_buffer(),
            ),
            final(self).spec_field_buffer().len() == 0,
            final(self).spec_value_buffer().len() == 0,
            final(self).spec_headers() == old(self).spec_headers(),
            final(self).spec_is_parameter() == old(self).spec_is_parameter(),
            final(self).spec_toggle() == old(self).spec_toggle(),
            final(self).same_settings(old(self)),
    {
        proof {
            use_type_invariant(&*self);
        }
        self.flush_parameter_file();
        proof {
            use_type_invariant(&*self);
        }
        self.finished = true;
        true
    }

    fn on_header_name(&mut self, name: &[u8]) -> (r: bool)
        ensures
            r,
            !final(self).spec_toggle(),
            old(self).spec_toggle() ==> final(self).spec_field_buffer() == name@
                && final(self).spec_headers() == flushed_headers(
                old(self).spec_headers(),
                old(self).spec_field_buffer(),
                old(self).spec_value_buffer(),
            ) && final(self).spec_value_buffer().len() == 0,
            !old(self).spec_toggle() ==> final(self).spec_field_buffer()
                == old(self).spec_field_buffer() + name@ && final(self).spec_headers()
                == old(self).spec_headers() && final(self).spec_value_buffer()
                == old(self).spec_value_buffer(),
            final(self).spec_parameters() == old(self).spec_parameters(),
            final(self).spec_is_parameter() == old(self).spec_is_parameter(),
            final(self).spec_finished() == old(self).spec_finished(),
            final(self).same_settings(old(self)),
    {
        proof {
            use_type_invariant(&*self);
        }
        if self.toggle {
            self.flush_header();
            proof {
                use_type_invariant(&*self);
            }
            self.toggle = false;
        }
        let mut buffer = Vec::new();
        std::mem::swap(&mut buffer, &mut self.field_buffer);
        buffer.extend_from_slice(name);
        self.field_buffer = buffer;
        true
    }

    fn on_header_value(&mut self, value: &[u8]) -> (r: bool)
        ensures
            r,
            final(self).spec_toggle(),
            final(self).spec_value_buffer() == old(self).spec_value_buffer() + value@,
            final(self).spec_field_buffer() == old(self).spec_field_buffer(),
            final(self).spec_headers() == old(self).spec_headers(),
            final(self).spec_parameters() == old(self).spec_parameters(),
            final(self).spec_is_parameter() == old(self).spec_is_parameter(),
            final(self).spec_finished() == old(self).spec_finished(),
            final(self).same_settings(old(self)),
    {
        proof {
            use_type_invariant(&*self);
        }
        let mut buffer = Vec::new();
        std::mem::swap(&mut buffer, &mut self.value_buffer);
        buffer.extend_from_slice(value);
        self.value_buffer = buffer;
        self.toggle = true;
        true
    }

    fn on_headers_finished(&mut self) -> (r: bool)
        ensures
            r,
            final(self).spec_headers() == flushed_headers(
                old(self).spec_headers(),
                old(self).spec_field_buffer(),
                old(self).spec_value_buffer(),
            ),
            ({
                let (name, filename) = disposition_of(final(self).spec_headers());
                &&& final(self).spec_is_parameter() == (name is Some && filename is None)
                &&& final(self).spec_field_buffer() == match name {
                    Some(n) => n,
                    None => Seq::<u8>::empty(),
                }
            }),
            final(self).spec_value_buffer().len() == 0,
            final(self).spec_parameters() == old(self).spec_parameters(),
            final(self).spec_toggle() == old(self).spec_toggle(),
            final(self).spec_finished() == old(self).spec_finished(),
            final(self).same_settings(old(self)),
    {
        proof {
            use_type_invariant(&*self);
        }
        self.flush_header();
        proof {
            use_type_invariant(&*self);
        }
        proof {
            reveal_strlit("content-disposition");
        }
        assert("content-disposition"@ == header_content_disposition());
        let found = match self.headers.get("content-disposition") {
            Some(value) => Some(disposition_names_of(value.as_str().as_bytes())),
            None => None,
        };
        match found {
            Some((Some(name), filename)) => {
                self.field_buffer = name;
                self.content_disposition = match filename {
                    Some(_) => ContentDisposition::Unknown,
                    None => ContentDisposition::Parameter,
                };
            },
            _ => {
                self.content_disposition = ContentDisposition::Unknown;
            },
        }
        true
    }

    fn on_multipart_begin(&mut self) -> (r: bool)
        ensures
            r,
            final(self).spec_parameters() == flushed_parameters(
                old(self).spec_parameters(),
                old(self).spec_is_parameter(),
                old(self).spec_field_buffer(),
                old(self).spec_value_buffer(),
            ),
            final(self).spec_headers() == Map::<Seq<char>, Seq<char>>::empty(),
            final(self).spec_field_buffer().len() == 0,
            final(self).spec_value_buffer().len() == 0,
            final(self).spec_is_parameter() == old(self).spec_is_parameter(),
            final(self).spec_toggle() == old(self).spec_toggle(),
            final(self).spec_finished() == old(self).spec_finished(),
            final(self).same_settings(old(self)),
    {
        proof {
            use_type_invariant(&*self);
        }
        self.flush_parameter_file();
        proof {
            use_type_invariant(&*self);
        }
        self.headers = StringMap::new();
        true
    }

    fn on_multipart_data(&mut self, data: &[u8]) -> (r: bool)
        ensures
            r,
            old(self).spec_is_parameter() ==> final(self).spec_value_buffer()
                == old(self).spec_value_buffer() + data@,
            !old(self).spec_is_parameter() ==> final(self).spec_value_buffer()
                == old(self).spec_value_buffer(),
            final(self).spec_field_buffer() == old(self).spec_field_buffer(),
            final(self).spec_headers() == old(self).spec_headers(),
            final(self).spec_parameters() == old(self).spec_parameters(),
            final(self).spec_is_parameter() == old(self).spec_is_parameter(),
            final(self).spec_toggle() == old(self).spec_toggle(),
            final(self).spec_finished() == old(self).spec_finished(),
            final(self).same_settings(old(self)),
    {
        proof {
            use_type_invariant(&*self);
        }
        match self.content_disposition {
            ContentDisposition::Parameter => {
                let mut buffer = Vec::new();
                std::mem::swap(&mut buffer, &mut self.value_buffer);
                buffer.extend_from_slice(data);
                self.value_buffer = buffer;
            },
            ContentDisposition::Unknown => {},
        }
        true
    }
}

/// The value of the last segment of `segs` named `name` that has one, or else `before`.
pub open spec fn last_value_or(
    segs: Seq<SegmentView>,
    name: Seq<u8>,
    before: Option<Seq<u8>>,
) -> Option<Seq<u8>> {
    if last_value(segs, name) is Some {
        last_value(segs, name)
    } else {
        before
    }
}

/// A `Content-Disposition` value gives, whatever order its segments come in, as its name the
/// value of the last `name` segment with a value, and as its file name that of the last
/// `filename` segment with a value, among the segments read up to the end or to the first
/// invalid byte (those given before `start` where there is none). So a `filename` segment counts
/// wherever it stands, before or after the `name` segment.
pub proof fn law_disposition_names(
    s: Seq<u8>,
    start: int,
    name: Option<Seq<u8>>,
    filename: Option<Seq<u8>>,
)
    ensures
        disposition_names(s, start, name, filename) == ({
            let segs = spec_segments(s, start, 0x3B, true, Seq::empty()).0;
            (
                last_value_or(segs, parameter_name(), name),
                last_value_or(segs, parameter_filename(), filename),
            )
        }),
    decreases s.len() - start,
{
    lemma_next_segment_advances(s, start, 0x3B, true, Seq::empty());
    assert(parameter_name().len() == 4);
    assert(parameter_filename().len() == 8);
    if let Ok(Some((seg, next))) = spec_next_segment(s, start, 0x3B, true, Seq::empty()) {
        let (n1, f1) = match seg.value {
            Some(v) => if seg.name == parameter_name() {
                (Some(v), filename)
            } else if seg.name == parameter_filename() {
                (name, Some(v))
            } else {
                (name, filename)
            },
            None => (name, filename),
        };
        law_disposition_names(s, next, n1, f1);
        let rest = spec_segments(s, next, 0x3B, true, Seq::empty()).0;
        lemma_last_value_cons(seg, rest, parameter_name());
        lemma_last_value_cons(seg, rest, parameter_filename());
    }
}

} // verus!
