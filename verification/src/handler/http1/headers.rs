//! HTTP 1.x handler implementation for processing the initial request/response line, and
//! headers.

use crate::byte::{is_digit, spec_is_digit};
use crate::cookie::{spec_cookie_from_bytes, Cookie, CookieView};
use crate::field::{NameMap, StringMap};
use crate::http1::HttpHandler;
use crate::http1::http_handler::{flag_step, lemma_flag_after, lemma_flag_steps, set_since_reset, HandlerCall};
use crate::http1::parser::Callback;
use crate::util::{
    bytes_eq, lemma_next_segment_advances, next_segment, spec_next_segment, string_from_bytes,
    utf8_lossy_text, FieldSegment,
};
use vstd::prelude::*;
use vstd::string::*;

verus! {

/// The bytes of `cookie`.
pub open spec fn header_cookie() -> Seq<u8> {
    seq![0x63u8, 0x6F, 0x6F, 0x6B, 0x69, 0x65]
}

/// The bytes of `set-cookie`.
pub open spec fn header_set_cookie() -> Seq<u8> {
    seq![0x73u8, 0x65, 0x74, 0x2D, 0x63, 0x6F, 0x6F, 0x6B, 0x69, 0x65]
}

/// The bytes of `content-length`.
pub open spec fn header_content_length() -> Seq<char> {
    seq!['c', 'o', 'n', 't', 'e', 'n', 't', '-', 'l', 'e', 'n', 'g', 't', 'h']
}

/// The cookie that a `Cookie` header segment with `name` and `value` gives.
pub open spec fn cookie_of_pair(name: Seq<u8>, value: Seq<u8>) -> CookieView {
    CookieView {
        domain: None,
        expires: None,
        http_only: false,
        max_age: None,
        name: utf8_lossy_text(name),
        path: None,
        secure: false,
        value: utf8_lossy_text(value),
    }
}

/// The cookies after the name/value segments of a `Cookie` header value `s` from `start` on have
/// been added to `m`: adding stops at the first segment without a value, and at the first
/// invalid byte.
pub open spec fn add_cookie_pairs(s: Seq<u8>, start: int, m: Map<Seq<char>, CookieView>) -> Map<
    Seq<char>,
    CookieView,
>
    decreases s.len() - start,
{
    match spec_next_segment(s, start, 0x3B, false, Seq::empty()) {
        Ok(Some((seg, next))) => match seg.value {
            Some(v) => {
                proof {
                    lemma_next_segment_advances(s, start, 0x3B, false, Seq::empty());
                }
                add_cookie_pairs(s, next, m.insert(utf8_lossy_text(seg.name), cookie_of_pair(seg.name, v)))
            },
            None => m,
        },
        _ => m,
    }
}

/// The value of a decimal number, if every byte is a digit.
pub open spec fn decimal_value(s: Seq<u8>) -> Option<int>
    decreases s.len(),
{
    if s.len() == 0 {
        Some(0)
    } else {
        match decimal_value(s.drop_last()) {
            Some(v) => if spec_is_digit(s.last()) {
                Some(v * 10 + (s.last() - 0x30))
            } else {
                None
            },
            None => None,
        }
    }
}

/// A number's value is no less than the value of any prefix.
proof fn lemma_decimal_value_grows(s: Seq<u8>, i: int)
    requires
        0 <= i <= s.len(),
        decimal_value(s) is Some,
    ensures
        decimal_value(s.subrange(0, i)) is Some,
        0 <= decimal_value(s.subrange(0, i))->0 <= decimal_value(s)->0,
    decreases s.len() - i,
{
    if i == s.len() {
        assert(s.subrange(0, i) =~= s);
        lemma_decimal_value_nonnegative(s);
    } else {
        lemma_decimal_value_grows(s.drop_last(), i);
        assert(s.drop_last().subrange(0, i) =~= s.subrange(0, i));
        lemma_decimal_value_nonnegative(s.drop_last());
    }
}

/// A number's value is not negative.
proof fn lemma_decimal_value_nonnegative(s: Seq<u8>)
    requires
        decimal_value(s) is Some,
    ensures
        decimal_value(s)->0 >= 0,
    decreases s.len(),
{
    if s.len() > 0 {
        lemma_decimal_value_nonnegative(s.drop_last());
    }
}

/// `HeadersHandler` is a suitable handler for head parsing: it keeps the request or response
/// details, the headers, and the cookies.
///
/// Header names are normalized to lower-case by the parser. The values of `Cookie` headers are
/// split into cookies, and `Set-Cookie` headers each give one cookie; a cookie replaces any
/// cookie of the same name.
pub struct HeadersHandler {
    /// Cookies, by name.
    cookies: NameMap<Cookie>,
    /// Header field buffer.
    field_buffer: Vec<u8>,
    /// Indicates that header parsing has finished.
    finished: bool,
    /// Headers.
    headers: StringMap,
    /// Request method.
    method: String,
    /// Response status.
    status: String,
    /// Response status code.
    status_code: u16,
    /// Field/value toggle: set once a value has been given.
    toggle: bool,
    /// Request URL.
    url: String,
    /// Header value buffer.
    value_buffer: Vec<u8>,
    /// HTTP major version.
    version_major: u16,
    /// HTTP minor version.
    version_minor: u16,
}

impl HeadersHandler {
    /// The cookies, by name.
    pub closed spec fn spec_cookies(&self) -> Map<Seq<char>, CookieView> {
        self.cookies@
    }

    /// The headers.
    pub closed spec fn spec_headers(&self) -> Map<Seq<char>, Seq<char>> {
        self.headers@
    }

    /// The header name collected so far.
    pub closed spec fn spec_field_buffer(&self) -> Seq<u8> {
        self.field_buffer@
    }

    /// The header value collected so far.
    pub closed spec fn spec_value_buffer(&self) -> Seq<u8> {
        self.value_buffer@
    }

    /// Indicates that a value has been given for the header being parsed.
    pub closed spec fn spec_toggle(&self) -> bool {
        self.toggle
    }

    /// Indicates that header parsing has finished.
    pub closed spec fn spec_finished(&self) -> bool {
        self.finished
    }

    /// The request method.
    pub closed spec fn spec_method(&self) -> Seq<char> {
        self.method@
    }

    /// The response status.
    pub closed spec fn spec_status(&self) -> Seq<char> {
        self.status@
    }

    /// The request URL.
    pub closed spec fn spec_url(&self) -> Seq<char> {
        self.url@
    }

    /// The response status code.
    pub closed spec fn spec_status_code(&self) -> u16 {
        self.status_code
    }

    /// The HTTP major version.
    pub closed spec fn spec_version_major(&self) -> u16 {
        self.version_major
    }

    /// The HTTP minor version.
    pub closed spec fn spec_version_minor(&self) -> u16 {
        self.version_minor
    }

    /// Nothing has been collected.
    pub open spec fn is_cleared(&self) -> bool {
        &&& self.spec_cookies() == Map::<Seq<char>, CookieView>::empty()
        &&& self.spec_headers() == Map::<Seq<char>, Seq<char>>::empty()
        &&& self.spec_field_buffer().len() == 0
        &&& self.spec_value_buffer().len() == 0
        &&& !self.spec_toggle()
        &&& !self.spec_finished()
        &&& self.spec_method().len() == 0
        &&& self.spec_status().len() == 0
        &&& self.spec_url().len() == 0
        &&& self.spec_status_code() == 0
        &&& self.spec_version_major() == 0
        &&& self.spec_version_minor() == 0
    }

    /// The cookies and headers after the header collected so far has been flushed: a `cookie`
    /// header adds the cookies of its value, a `set-cookie` header adds its cookie when it is
    /// valid, any other header is set to its value, and a header with no name adds nothing.
    pub open spec fn flushed(
        self,
    ) -> (Map<Seq<char>, CookieView>, Map<Seq<char>, Seq<char>>) {
        if self.spec_field_buffer() == header_cookie() {
            (add_cookie_pairs(self.spec_value_buffer(), 0, self.spec_cookies()), self.spec_headers())
        } else if self.spec_field_buffer() == header_set_cookie() {
            match spec_cookie_from_bytes(self.spec_value_buffer()) {
                Ok(c) => (self.spec_cookies().insert(c.name, c), self.spec_headers()),
                Err(_) => (self.spec_cookies(), self.spec_headers()),
            }
        } else if self.spec_field_buffer().len() == 0 {
            (self.spec_cookies(), self.spec_headers())
        } else {
            (
                self.spec_cookies(),
                self.spec_headers().insert(
                    utf8_lossy_text(self.spec_field_buffer()),
                    utf8_lossy_text(self.spec_value_buffer()),
                ),
            )
        }
    }

    /// Create a new `HeadersHandler`.
    pub fn new() -> (r: HeadersHandler)
        ensures
            r.is_cleared(),
    {
        HeadersHandler {
            cookies: NameMap::new(),
            field_buffer: Vec::new(),
            finished: false,
            headers: StringMap::new(),
            method: String::new(),
            status: String::new(),
            status_code: 0,
            toggle: false,
            url: String::new(),
            value_buffer: Vec::new(),
            version_major: 0,
            version_minor: 0,
        }
    }

    /// Retrieve `cookie` from the collection of cookies.
    pub fn cookie(&self, cookie: &str) -> (r: Option<&Cookie>)
        ensures
            self.spec_cookies().contains_key(cookie@) ==> r is Some && r->0@
                == self.spec_cookies()[cookie@],
            !self.spec_cookies().contains_key(cookie@) ==> r is None,
    {
        self.cookies.get(cookie)
    }

    /// Retrieve the collection of cookies.
    pub fn cookies(&self) -> (r: &NameMap<Cookie>)
        ensures
            r@ == self.spec_cookies(),
    {
        &self.cookies
    }

    /// Add the cookies of the name/value segments of a `Cookie` header value.
    fn add_cookie_pairs(&mut self)
        ensures
            final(self).cookies@ == add_cookie_pairs(old(self).value_buffer@, 0, old(self).cookies@),
            *final(self) == (HeadersHandler { cookies: final(self).cookies, ..*old(self) }),
    {
        let none: [u8; 0] = [];
        assert(none@ == Seq::<u8>::empty());
        let mut pos: usize = 0;
        loop
            invariant
                add_cookie_pairs(self.value_buffer@, 0, old(self).cookies@) == add_cookie_pairs(
                    self.value_buffer@,
                    pos as int,
                    self.cookies@,
                ),
                pos <= self.value_buffer@.len(),
                none@ == Seq::<u8>::empty(),
                *self == (HeadersHandler { cookies: self.cookies, ..*old(self) }),
            decreases self.value_buffer@.len() - pos,
        {
            proof {
                lemma_next_segment_advances(self.value_buffer@, pos as int, 0x3B, false, Seq::empty());
            }
            match next_segment(self.value_buffer.as_slice(), pos, 0x3B, false, none.as_slice()) {
                Ok(Some((FieldSegment::NameValue(name, value), next))) => {
                    let name_text = string_from_bytes(name.as_slice());
                    let cookie = Cookie::new(
                        name_text.as_str(),
                        string_from_bytes(value.as_slice()).as_str(),
                    );
                    self.cookies.insert(name_text, cookie);
                    pos = next;
                },
                _ => {
                    return;
                },
            }
        }
    }

    /// Flush the most recent header field/value.
    fn flush(&mut self)
        ensures
            (final(self).cookies@, final(self).headers@) == old(self).flushed(),
            final(self).field_buffer@.len() == 0,
            final(self).value_buffer@.len() == 0,
            final(self).toggle == old(self).toggle,
            final(self).finished == old(self).finished,
            final(self).method == old(self).method,
            final(self).status == old(self).status,
            final(self).url == old(self).url,
            final(self).status_code == old(self).status_code,
            final(self).version_major == old(self).version_major,
            final(self).version_minor == old(self).version_minor,
    {
        let cookie: [u8; 6] = [0x63, 0x6F, 0x6F, 0x6B, 0x69, 0x65];
        let set_cookie: [u8; 10] = [0x73, 0x65, 0x74, 0x2D, 0x63, 0x6F, 0x6F, 0x6B, 0x69, 0x65];
        assert(cookie@ == header_cookie());
        assert(set_cookie@ == header_set_cookie());
        if bytes_eq(self.field_buffer.as_slice(), cookie.as_slice()) {
            self.add_cookie_pairs();
        } else if bytes_eq(self.field_buffer.as_slice(), set_cookie.as_slice()) {
            match Cookie::from_bytes(self.value_buffer.as_slice()) {
                Ok(c) => {
                    let name = c.name().to_owned();
                    self.cookies.insert(name, c);
                },
                Err(_) => {},
            }
        } else if self.field_buffer.len() > 0 {
            let name = string_from_bytes(self.field_buffer.as_slice());
            let value = string_from_bytes(self.value_buffer.as_slice());
            self.headers.insert(name, value);
        }
        self.field_buffer = Vec::new();
        self.value_buffer = Vec::new();
    }

    /// Indicates that `cookie` exists within the collection of cookies.
    pub fn has_cookie(&self, cookie: &str) -> (r: bool)
        ensures
            r == self.spec_cookies().contains_key(cookie@),
    {
        self.cookies.contains_key(cookie)
    }

    /// Indicates that `header` exists within the collection of headers.
    pub fn has_header(&self, header: &str) -> (r: bool)
        ensures
            r == self.spec_headers().contains_key(header@),
    {
        self.headers.contains_key(header)
    }

    /// Retrieve `header` from the collection of headers.
    pub fn header(&self, header: &str) -> (r: Option<&str>)
        ensures
            self.spec_headers().contains_key(header@) ==> r is Some && r->0@
                == self.spec_headers()[header@],
            !self.spec_headers().contains_key(header@) ==> r is None,
    {
        match self.headers.get(header) {
            Some(value) => Some(value.as_str()),
            None => None,
        }
    }

    /// Retrieve the collection of headers.
    pub fn headers(&self) -> (r: &StringMap)
        ensures
            r@ == self.spec_headers(),
    {
        &self.headers
    }

    /// Indicates that header parsing has finished.
    pub fn is_finished(&self) -> (r: bool)
        ensures
            r == self.spec_finished(),
    {
        self.finished
    }

    /// Indicates that the parsed data is a request: neither a response status code nor a
    /// response status was given.
    pub fn is_request(&self) -> (r: bool)
        ensures
            r == (self.spec_status().len() == 0 && self.spec_status_code() == 0),
    {
        self.status.as_str().is_empty() && self.status_code == 0
    }

    /// Retrieve the request method.
    pub fn method(&self) -> (r: &str)
        ensures
            r@ == self.spec_method(),
    {
        self.method.as_str()
    }

    /// Reset the handler to its original state.
    pub fn reset(&mut self)
        ensures
            final(self).is_cleared(),
    {
        self.finished = false;
        self.status_code = 0;
        self.toggle = false;
        self.version_major = 0;
        self.version_minor = 0;
        self.cookies.clear();
        self.field_buffer = Vec::new();
        self.headers.clear();
        self.method = String::new();
        self.status = String::new();
        self.url = String::new();
        self.value_buffer = Vec::new();
    }

    /// Retrieve the response status.
    pub fn status(&self) -> (r: &str)
        ensures
            r@ == self.spec_status(),
    {
        self.status.as_str()
    }

    /// Retrieve the response status code.
    pub fn status_code(&self) -> (r: u16)
        ensures
            r == self.spec_status_code(),
    {
        self.status_code
    }

    /// Retrieve the request URL.
    pub fn url(&self) -> (r: &str)
        ensures
            r@ == self.spec_url(),
    {
        self.url.as_str()
    }

    /// Retrieve the HTTP major version.
    pub fn version_major(&self) -> (r: u16)
        ensures
            r == self.spec_version_major(),
    {
        self.version_major
    }

    /// Retrieve the HTTP minor version.
    pub fn version_minor(&self) -> (r: u16)
        ensures
            r == self.spec_version_minor(),
    {
        self.version_minor
    }
}

/// The decimal value of the digits of `s`, when all of them are digits and it fits in a `usize`.
pub(crate) fn parse_decimal(s: &[u8]) -> (r: Option<usize>)
    ensures
        match decimal_value(s@) {
            Some(v) => if v <= usize::MAX {
                r == Some(v as usize)
            } else {
                r is None
            },
            None => r is None,
        },
{
    let mut length: usize = 0;
    let mut i: usize = 0;
    while i < s.len()
        invariant
            i <= s@.len(),
            decimal_value(s@.subrange(0, i as int)) == Some(length as int),
        decreases s@.len() - i,
    {
        let b = s[i];
        proof {
            assert(s@.subrange(0, i + 1).drop_last() =~= s@.subrange(0, i as int));
        }
        if !is_digit(b) {
            proof {
                assert(decimal_value(s@.subrange(0, i + 1)) is None);
                lemma_decimal_value_prefix_none(s@, i + 1);
            }
            return None;
        }
        match length.checked_mul(10) {
            Some(n) => match n.checked_add((b - 0x30) as usize) {
                Some(m) => {
                    length = m;
                },
                None => {
                    proof {
                        lemma_decimal_value_too_large(s@, i + 1);
                    }
                    return None;
                },
            },
            None => {
                proof {
                    lemma_decimal_value_too_large(s@, i + 1);
                }
                return None;
            },
        }
        i = i + 1;
    }
    assert(s@.subrange(0, i as int) =~= s@);
    Some(length)
}

/// A number with a prefix that is not a number is not a number.
proof fn lemma_decimal_value_prefix_none(s: Seq<u8>, i: int)
    requires
        0 <= i <= s.len(),
        decimal_value(s.subrange(0, i)) is None,
    ensures
        decimal_value(s) is None,
{
    if decimal_value(s) is Some {
        lemma_decimal_value_grows(s, i);
    }
}

/// A number with a prefix whose value is too large for a `usize` is too large too.
proof fn lemma_decimal_value_too_large(s: Seq<u8>, i: int)
    requires
        0 < i <= s.len(),
        decimal_value(s.subrange(0, i)) is None || decimal_value(s.subrange(0, i))->0 > usize::MAX,
    ensures
        decimal_value(s) is None || decimal_value(s)->0 > usize::MAX,
{
    if decimal_value(s) is Some {
        lemma_decimal_value_grows(s, i);
    }
}

impl HttpHandler for HeadersHandler {
    fn content_length(&mut self) -> (r: Option<usize>)
        ensures
            *final(self) == *old(self),
            !old(self).spec_headers().contains_key(header_content_length()) ==> r is None,
            old(self).spec_headers().contains_key(header_content_length()) ==> r
                == content_length_value(old(self).spec_headers()[header_content_length()]),
    {
        proof {
            reveal_strlit("content-length");
        }
        assert("content-length"@ == header_content_length());
        match self.header("content-length") {
            Some(value) => parse_decimal(value.as_bytes()),
            None => None,
        }
    }

    fn on_header_name(&mut self, name: &[u8]) -> (r: bool)
        ensures
            r,
            !final(self).spec_toggle(),
            old(self).spec_toggle() ==> {
                &&& final(self).spec_field_buffer() == name@
                &&& final(self).spec_value_buffer().len() == 0
                &&& (final(self).spec_cookies(), final(self).spec_headers()) == old(self).flushed()
            },
            !old(self).spec_toggle() ==> {
                &&& final(self).spec_field_buffer() == old(self).spec_field_buffer() + name@
                &&& final(self).spec_value_buffer() == old(self).spec_value_buffer()
                &&& final(self).spec_cookies() == old(self).spec_cookies()
                &&& final(self).spec_headers() == old(self).spec_headers()
            },
            final(self).spec_method() == old(self).spec_method(),
            final(self).spec_url() == old(self).spec_url(),
            final(self).spec_version_major() == old(self).spec_version_major(),
            final(self).spec_version_minor() == old(self).spec_version_minor(),
            final(self).spec_status_code() == old(self).spec_status_code(),
            final(self).spec_status() == old(self).spec_status(),
            final(self).spec_finished() == old(self).spec_finished(),
    {
        if self.toggle {
            self.flush();
            self.toggle = false;
        }
        self.field_buffer.extend_from_slice(name);
        true
    }

    fn on_header_value(&mut self, value: &[u8]) -> (r: bool)
        ensures
            r,
            final(self).spec_toggle(),
            final(self).spec_value_buffer() == old(self).spec_value_buffer() + value@,
            final(self).spec_field_buffer() == old(self).spec_field_buffer(),
            final(self).spec_cookies() == old(self).spec_cookies(),
            final(self).spec_headers() == old(self).spec_headers(),
            final(self).spec_method() == old(self).spec_method(),
            final(self).spec_url() == old(self).spec_url(),
            final(self).spec_version_major() == old(self).spec_version_major(),
            final(self).spec_version_minor() == old(self).spec_version_minor(),
            final(self).spec_status_code() == old(self).spec_status_code(),
            final(self).spec_status() == old(self).spec_status(),
            final(self).spec_finished() == old(self).spec_finished(),
    {
        self.value_buffer.extend_from_slice(value);
        self.toggle = true;
        true
    }

    fn on_headers_finished(&mut self) -> (r: bool)
        ensures
            r,
            final(self).spec_finished(),
            (final(self).spec_cookies(), final(self).spec_headers()) == old(self).flushed(),
            final(self).spec_field_buffer().len() == 0,
            final(self).spec_value_buffer().len() == 0,
            final(self).spec_toggle() == old(self).spec_toggle(),
            final(self).spec_method() == old(self).spec_method(),
            final(self).spec_url() == old(self).spec_url(),
            final(self).spec_version_major() == old(self).spec_version_major(),
            final(self).spec_version_minor() == old(self).spec_version_minor(),
            final(self).spec_status_code() == old(self).spec_status_code(),
            final(self).spec_status() == old(self).spec_status(),
    {
        self.flush();
        self.finished = true;
        true
    }

    fn on_method(&mut self, method: &[u8]) -> (r: bool)
        ensures
            r,
            final(self).spec_method() == old(self).spec_method() + utf8_lossy_text(method@),
            final(self).spec_url() == old(self).spec_url(),
            final(self).spec_version_major() == old(self).spec_version_major(),
            final(self).spec_version_minor() == old(self).spec_version_minor(),
            final(self).spec_status_code() == old(self).spec_status_code(),
            final(self).spec_status() == old(self).spec_status(),
            final(self).spec_cookies() == old(self).spec_cookies(),
            final(self).spec_headers() == old(self).spec_headers(),
            final(self).spec_field_buffer() == old(self).spec_field_buffer(),
            final(self).spec_value_buffer() == old(self).spec_value_buffer(),
            final(self).spec_toggle() == old(self).spec_toggle(),
            final(self).spec_finished() == old(self).spec_finished(),
    {
        let text = string_from_bytes(method);
        self.method.append(text.as_str());
        true
    }

    fn on_status(&mut self, status: &[u8]) -> (r: bool)
        ensures
            r,
            final(self).spec_status() == old(self).spec_status() + utf8_lossy_text(status@),
            final(self).spec_method() == old(self).spec_method(),
            final(self).spec_url() == old(self).spec_url(),
            final(self).spec_version_major() == old(self).spec_version_major(),
            final(self).spec_version_minor() == old(self).spec_version_minor(),
            final(self).spec_status_code() == old(self).spec_status_code(),
            final(self).spec_cookies() == old(self).spec_cookies(),
            final(self).spec_headers() == old(self).spec_headers(),
            final(self).spec_field_buffer() == old(self).spec_field_buffer(),
            final(self).spec_value_buffer() == old(self).spec_value_buffer(),
            final(self).spec_toggle() == old(self).spec_toggle(),
            final(self).spec_finished() == old(self).spec_finished(),
    {
        let text = string_from_bytes(status);
        self.status.append(text.as_str());
        true
    }

    fn on_status_code(&mut self, code: u16) -> (r: bool)
        ensures
            r,
            final(self).spec_status_code() == code,
            final(self).spec_method() == old(self).spec_method(),
            final(self).spec_url() == old(self).spec_url(),
            final(self).spec_version_major() == old(self).spec_version_major(),
            final(self).spec_version_minor() == old(self).spec_version_minor(),
            final(self).spec_status() == old(self).spec_status(),
            final(self).spec_cookies() == old(self).spec_cookies(),
            final(self).spec_headers() == old(self).spec_headers(),
            final(self).spec_field_buffer() == old(self).spec_field_buffer(),
            final(self).spec_value_buffer() == old(self).spec_value_buffer(),
            final(self).spec_toggle() == old(self).spec_toggle(),
            final(self).spec_finished() == old(self).spec_finished(),
    {
        self.status_code = code;
        true
    }

    fn on_url(&mut self, url: &[u8]) -> (r: bool)
        ensures
            r,
            final(self).spec_url() == old(self).spec_url() + utf8_lossy_text(url@),
            final(self).spec_method() == old(self).spec_method(),
            final(self).spec_version_major() == old(self).spec_version_major(),
            final(self).spec_version_minor() == old(self).spec_version_minor(),
            final(self).spec_status_code() == old(self).spec_status_code(),
            final(self).spec_status() == old(self).spec_status(),
            final(self).spec_cookies() == old(self).spec_cookies(),
            final(self).spec_headers() == old(self).spec_headers(),
            final(self).spec_field_buffer() == old(self).spec_field_buffer(),
            final(self).spec_value_buffer() == old(self).spec_value_buffer(),
            final(self).spec_toggle() == old(self).spec_toggle(),
            final(self).spec_finished() == old(self).spec_finished(),
    {
        let text = string_from_bytes(url);
        self.url.append(text.as_str());
        true
    }

    fn on_version(&mut self, major: u16, minor: u16) -> (r: bool)
        ensures
            r,
            final(self).spec_version_major() == major,
            final(self).spec_version_minor() == minor,
            final(self).spec_method() == old(self).spec_method(),
            final(self).spec_url() == old(self).spec_url(),
            final(self).spec_status_code() == old(self).spec_status_code(),
            final(self).spec_status() == old(self).spec_status(),
            final(self).spec_cookies() == old(self).spec_cookies(),
            final(self).spec_headers() == old(self).spec_headers(),
            final(self).spec_field_buffer() == old(self).spec_field_buffer(),
            final(self).spec_value_buffer() == old(self).spec_value_buffer(),
            final(self).spec_toggle() == old(self).spec_toggle(),
            final(self).spec_finished() == old(self).spec_finished(),
    {
        self.version_major = major;
        self.version_minor = minor;
        true
    }
}

/// The content length that a `content-length` header value gives: its decimal value, when
/// every byte is a digit and the value fits in a `usize`.
pub open spec fn content_length_value(value: Seq<char>) -> Option<usize> {
    let bytes = vstd::utf8::encode_utf8(value);
    match decimal_value(bytes) {
        Some(v) => if v <= usize::MAX {
            Some(v as usize)
        } else {
            None
        },
        None => None,
    }
}

impl Default for HeadersHandler {
    /// The same as `HeadersHandler::new()`.
    fn default() -> (r: HeadersHandler)
        ensures
            r.is_cleared(),
    {
        HeadersHandler::new()
    }
}

/// A headers handler's finished flag follows the calls on it: clear when it is made, set by
/// `on_headers_finished`, cleared by `reset`, and kept by every other callback, as their
/// contracts say. So a new handler is finished after any sequence of calls exactly when
/// `on_headers_finished` came and no `reset` came after it.
pub proof fn law_headers_handler_finished(hs: Seq<HeadersHandler>, calls: Seq<HandlerCall>)
    requires
        hs.len() == calls.len() + 1,
        !hs[0].spec_finished(),
        forall|i: int|
            0 <= i < calls.len() ==> #[trigger] hs[i + 1].spec_finished() == flag_step(
                hs[i].spec_finished(),
                calls[i],
                Callback::HeadersFinished,
            ),
    ensures
        hs.last().spec_finished() <==> set_since_reset(calls, Callback::HeadersFinished),
{
    let flags = Seq::new(hs.len(), |i: int| hs[i].spec_finished());
    assert forall|i: int| 0 <= i < calls.len() implies #[trigger] flags[i + 1] == flag_step(
        flags[i],
        calls[i],
        Callback::HeadersFinished,
    ) by {
        assert(hs[i + 1].spec_finished() == flag_step(
            hs[i].spec_finished(),
            calls[i],
            Callback::HeadersFinished,
        ));
    }
    lemma_flag_steps(flags, calls, Callback::HeadersFinished);
    lemma_flag_after(calls, Callback::HeadersFinished);
}

} // verus!
