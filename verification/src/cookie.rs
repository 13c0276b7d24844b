//! Cookie support.

use crate::util::{
    has_flag, last_value, lemma_has_flag_cons, lemma_last_value_cons, spec_segments,
    bytes_eq, lemma_next_segment_advances, next_segment, spec_next_segment, string_from_bytes,
    utf8_lossy_text, FieldError, FieldSegment, SegmentView,
};
use crate::text::{append_bool, bool_text};
use vstd::prelude::*;
use vstd::string::*;

verus! {

/// Abstract value of a `Cookie`: its text fields as character sequences.
pub struct CookieView {
    /// Domain.
    pub domain: Option<Seq<char>>,
    /// Expiration date and time.
    pub expires: Option<Seq<char>>,
    /// Indicates the cookie is for HTTP only.
    pub http_only: bool,
    /// Maximum age.
    pub max_age: Option<Seq<char>>,
    /// Name.
    pub name: Seq<char>,
    /// Path.
    pub path: Option<Seq<char>>,
    /// Indicates that the cookie is secure.
    pub secure: bool,
    /// Value.
    pub value: Seq<char>,
}

/// The characters of an optional string.
pub open spec fn opt_chars(s: Option<String>) -> Option<Seq<char>> {
    match s {
        Some(x) => Some(x@),
        None => None,
    }
}

/// Indicates that an optional borrowed string holds the characters `expected`.
pub open spec fn opt_str_is(r: Option<&str>, expected: Option<Seq<char>>) -> bool {
    match r {
        Some(s) => expected == Some(s@),
        None => expected is None,
    }
}

/// The characters of an optional attribute, empty when it is not set.
pub open spec fn chars_or_empty(s: Option<Seq<char>>) -> Seq<char> {
    match s {
        Some(x) => x,
        None => Seq::empty(),
    }
}

/// The text of a cookie, as debugged: `Cookie(name="N", value="V", domain="D", path="P",
/// expires="E", max-age="M", http-only=B, secure=B)`, an attribute that is not set written empty.
pub open spec fn cookie_debug_text(c: CookieView) -> Seq<char> {
    "Cookie(name=\""@ + c.name + "\", value=\""@ + c.value + "\", domain=\""@ + chars_or_empty(c.domain)
        + "\", path=\""@ + chars_or_empty(c.path) + "\", expires=\""@ + chars_or_empty(c.expires)
        + "\", max-age=\""@ + chars_or_empty(c.max_age) + "\", http-only="@ + bool_text(c.http_only)
        + ", secure="@ + bool_text(c.secure) + ")"@
}

/// Append an optional attribute to `s`, nothing when it is not set.
fn append_opt(s: &mut String, value: &Option<String>)
    ensures
        final(s)@ == old(s)@ + chars_or_empty(opt_chars(*value)),
{
    match value {
        Some(v) => s.append(v.as_str()),
        None => {
            assert(old(s)@ + Seq::<char>::empty() =~= old(s)@);
        },
    }
}

/// Cookie implementation.
#[derive(Clone, Debug)]
pub struct Cookie {
    /// Domain.
    domain: Option<String>,
    /// Expiration date and time.
    expires: Option<String>,
    /// Indicates the cookie is for HTTP only.
    http_only: bool,
    /// Maximum age.
    max_age: Option<String>,
    /// Name.
    name: String,
    /// Path.
    path: Option<String>,
    /// Indicates that the cookie is secure.
    secure: bool,
    /// Value.
    value: String,
}

impl View for Cookie {
    type V = CookieView;

    closed spec fn view(&self) -> CookieView {
        CookieView {
            domain: opt_chars(self.domain),
            expires: opt_chars(self.expires),
            http_only: self.http_only,
            max_age: opt_chars(self.max_age),
            name: self.name@,
            path: opt_chars(self.path),
            secure: self.secure,
            value: self.value@,
        }
    }
}

/// Borrow the characters of an optional string.
fn opt_as_str(s: &Option<String>) -> (r: Option<&str>)
    ensures
        opt_str_is(r, opt_chars(*s)),
{
    match s {
        Some(x) => Some(x.as_str()),
        None => None,
    }
}

impl Cookie {
    /// Create a new `Cookie` with a name and a value, and no other details.
    ///
    /// # Examples
    ///
    /// ```
    /// use http_box::cookie::Cookie;
    ///
    /// let mut cookie = Cookie::new("SessionId", ":N4('<TYqK%un_yd");
    ///
    /// cookie.set_domain("rust-lang.org");
    /// cookie.set_path("/");
    ///
    /// assert_eq!("SessionId", cookie.name());
    /// assert_eq!("rust-lang.org", cookie.domain().unwrap());
    /// ```
    pub fn new(name: &str, value: &str) -> (r: Cookie)
        ensures
            r@ == new_cookie_view(name@, value@),
    {
        Cookie {
            domain: None,
            expires: None,
            http_only: false,
            max_age: None,
            name: name.to_owned(),
            path: None,
            secure: false,
            value: value.to_owned(),
        }
    }

    /// Build a `Cookie` from its parts.
    pub(crate) fn from_parts(
        name: String,
        value: String,
        domain: Option<String>,
        expires: Option<String>,
        max_age: Option<String>,
        path: Option<String>,
        http_only: bool,
        secure: bool,
    ) -> (r: Cookie)
        ensures
            r@ == (CookieView {
                domain: opt_chars(domain),
                expires: opt_chars(expires),
                http_only: http_only,
                max_age: opt_chars(max_age),
                name: name@,
                path: opt_chars(path),
                secure: secure,
                value: value@,
            }),
    {
        Cookie { domain, expires, http_only, max_age, name, path, secure, value }
    }

    /// Retrieve the domain.
    pub fn domain(&self) -> (r: Option<&str>)
        ensures
            opt_str_is(r, self@.domain),
    {
        opt_as_str(&self.domain)
    }

    /// Retrieve the expiration date and time.
    pub fn expires(&self) -> (r: Option<&str>)
        ensures
            opt_str_is(r, self@.expires),
    {
        opt_as_str(&self.expires)
    }

    /// Indicates that the cookie is for HTTP only.
    pub fn is_http_only(&self) -> (r: bool)
        ensures
            r == self@.http_only,
    {
        self.http_only
    }

    /// Indicates that the cookie is secure.
    pub fn is_secure(&self) -> (r: bool)
        ensures
            r == self@.secure,
    {
        self.secure
    }

    /// Retrieve the maximum age.
    pub fn max_age(&self) -> (r: Option<&str>)
        ensures
            opt_str_is(r, self@.max_age),
    {
        opt_as_str(&self.max_age)
    }

    /// Retrieve the name.
    pub fn name(&self) -> (r: &str)
        ensures
            r@ == self@.name,
    {
        self.name.as_str()
    }

    /// Retrieve the path.
    pub fn path(&self) -> (r: Option<&str>)
        ensures
            opt_str_is(r, self@.path),
    {
        opt_as_str(&self.path)
    }

    /// Set the domain.
    pub fn set_domain(&mut self, domain: &str) -> (r: &mut Self)
        ensures
            (*r)@ == setting_applied(old(self)@, CookieSetting::Domain(domain@)),
            *final(self) == *final(r),
    {
        self.domain = Some(domain.to_owned());
        self
    }

    /// Set the expiration date and time.
    pub fn set_expires(&mut self, expires: &str) -> (r: &mut Self)
        ensures
            (*r)@ == setting_applied(old(self)@, CookieSetting::Expires(expires@)),
            *final(self) == *final(r),
    {
        self.expires = Some(expires.to_owned());
        self
    }

    /// Set the HTTP only status.
    pub fn set_http_only(&mut self, http_only: bool) -> (r: &mut Self)
        ensures
            (*r)@ == setting_applied(old(self)@, CookieSetting::HttpOnly(http_only)),
            *final(self) == *final(r),
    {
        self.http_only = http_only;
        self
    }

    /// Set the maximum age.
    pub fn set_max_age(&mut self, max_age: &str) -> (r: &mut Self)
        ensures
            (*r)@ == setting_applied(old(self)@, CookieSetting::MaxAge(max_age@)),
            *final(self) == *final(r),
    {
        self.max_age = Some(max_age.to_owned());
        self
    }

    /// Set the name.
    pub fn set_name(&mut self, name: &str) -> (r: &mut Self)
        ensures
            (*r)@ == setting_applied(old(self)@, CookieSetting::Name(name@)),
            *final(self) == *final(r),
    {
        self.name = name.to_owned();
        self
    }

    /// Set the path.
    pub fn set_path(&mut self, path: &str) -> (r: &mut Self)
        ensures
            (*r)@ == setting_applied(old(self)@, CookieSetting::Path(path@)),
            *final(self) == *final(r),
    {
        self.path = Some(path.to_owned());
        self
    }

    /// Set the secure status.
    pub fn set_secure(&mut self, secure: bool) -> (r: &mut Self)
        ensures
            (*r)@ == setting_applied(old(self)@, CookieSetting::Secure(secure)),
            *final(self) == *final(r),
    {
        self.secure = secure;
        self
    }

    /// Set the value.
    pub fn set_value(&mut self, value: &str) -> (r: &mut Self)
        ensures
            (*r)@ == setting_applied(old(self)@, CookieSetting::Value(value@)),
            *final(self) == *final(r),
    {
        self.value = value.to_owned();
        self
    }

    /// Retrieve the value.
    pub fn value(&self) -> (r: &str)
        ensures
            r@ == self@.value,
    {
        self.value.as_str()
    }

    /// The text of this cookie, as displayed: its value.
    pub fn message(&self) -> (r: String)
        ensures
            r@ == self@.value,
    {
        let mut s = String::new();
        s.append(self.value.as_str());
        assert(s@ =~= self@.value);
        s
    }

    /// The text of this cookie, as debugged: `Cookie(name="N", value="V", ...)`.
    pub fn debug_message(&self) -> (r: String)
        ensures
            r@ == cookie_debug_text(self@),
    {
        let mut s = String::new();
        s.append("Cookie(name=\"");
        s.append(self.name.as_str());
        s.append("\", value=\"");
        s.append(self.value.as_str());
        s.append("\", domain=\"");
        append_opt(&mut s, &self.domain);
        s.append("\", path=\"");
        append_opt(&mut s, &self.path);
        s.append("\", expires=\"");
        append_opt(&mut s, &self.expires);
        s.append("\", max-age=\"");
        append_opt(&mut s, &self.max_age);
        s.append("\", http-only=");
        append_bool(&mut s, self.http_only);
        s.append(", secure=");
        append_bool(&mut s, self.secure);
        s.append(")");
        assert(s@ =~= cookie_debug_text(self@));
        s
    }
}

/// The bytes of `httponly`.
pub open spec fn attr_http_only() -> Seq<u8> {
    seq![0x68u8, 0x74, 0x74, 0x70, 0x6F, 0x6E, 0x6C, 0x79]
}

/// The bytes of `secure`.
pub open spec fn attr_secure() -> Seq<u8> {
    seq![0x73u8, 0x65, 0x63, 0x75, 0x72, 0x65]
}

/// The bytes of `domain`.
pub open spec fn attr_domain() -> Seq<u8> {
    seq![0x64u8, 0x6F, 0x6D, 0x61, 0x69, 0x6E]
}

/// The bytes of `expires`.
pub open spec fn attr_expires() -> Seq<u8> {
    seq![0x65u8, 0x78, 0x70, 0x69, 0x72, 0x65, 0x73]
}

/// The bytes of `max-age`.
pub open spec fn attr_max_age() -> Seq<u8> {
    seq![0x6Du8, 0x61, 0x78, 0x2D, 0x61, 0x67, 0x65]
}

/// The bytes of `path`.
pub open spec fn attr_path() -> Seq<u8> {
    seq![0x70u8, 0x61, 0x74, 0x68]
}

/// A cookie with one attribute segment applied: `httponly` and `secure` set their flags, and
/// `domain`, `expires`, `max-age` and `path` set their values; other segments change nothing.
pub open spec fn apply_attribute(c: CookieView, seg: SegmentView) -> CookieView {
    match seg.value {
        None => if seg.name == attr_http_only() {
            CookieView { http_only: true, ..c }
        } else if seg.name == attr_secure() {
            CookieView { secure: true, ..c }
        } else {
            c
        },
        Some(v) => if seg.name == attr_domain() {
            CookieView { domain: Some(utf8_lossy_text(v)), ..c }
        } else if seg.name == attr_expires() {
            CookieView { expires: Some(utf8_lossy_text(v)), ..c }
        } else if seg.name == attr_max_age() {
            CookieView { max_age: Some(utf8_lossy_text(v)), ..c }
        } else if seg.name == attr_path() {
            CookieView { path: Some(utf8_lossy_text(v)), ..c }
        } else {
            c
        },
    }
}

/// A cookie with the attribute segments of `s` from `start` on applied in order, their names
/// made lower-case; or the first invalid byte.
pub open spec fn apply_attributes(s: Seq<u8>, start: int, c: CookieView) -> Result<
    CookieView,
    FieldError,
>
    decreases s.len() - start,
{
    match spec_next_segment(s, start, 0x3B, true, Seq::empty()) {
        Err(e) => Err(e),
        Ok(None) => Ok(c),
        Ok(Some((seg, next))) => {
            proof {
                lemma_next_segment_advances(s, start, 0x3B, true, Seq::empty());
            }
            apply_attributes(s, next, apply_attribute(c, seg))
        },
    }
}

/// The cookie that a header holds: its first segment gives the name and value, which must not
/// hold a backslash or a comma; the other segments give its attributes. `Err(None)` when the
/// header has no first segment, or one without a value.
pub open spec fn spec_cookie_from_bytes(s: Seq<u8>) -> Result<CookieView, Option<FieldError>> {
    match spec_next_segment(s, 0, 0x3B, false, seq![0x5Cu8, 0x2C]) {
        Err(e) => Err(Some(e)),
        Ok(None) => Err(None),
        Ok(Some((seg, next))) => match seg.value {
            None => Err(None),
            Some(v) => match apply_attributes(
                s,
                next,
                CookieView {
                    domain: None,
                    expires: None,
                    http_only: false,
                    max_age: None,
                    name: utf8_lossy_text(seg.name),
                    path: None,
                    secure: false,
                    value: utf8_lossy_text(v),
                },
            ) {
                Ok(c) => Ok(c),
                Err(e) => Err(Some(e)),
            },
        },
    }
}

impl Cookie {
    /// Apply one attribute segment.
    fn apply_attribute(&mut self, seg: FieldSegment)
        ensures
            final(self)@ == apply_attribute(old(self)@, seg@),
    {
        let http_only: [u8; 8] = [0x68, 0x74, 0x74, 0x70, 0x6F, 0x6E, 0x6C, 0x79];
        let secure: [u8; 6] = [0x73, 0x65, 0x63, 0x75, 0x72, 0x65];
        let domain: [u8; 6] = [0x64, 0x6F, 0x6D, 0x61, 0x69, 0x6E];
        let expires: [u8; 7] = [0x65, 0x78, 0x70, 0x69, 0x72, 0x65, 0x73];
        let max_age: [u8; 7] = [0x6D, 0x61, 0x78, 0x2D, 0x61, 0x67, 0x65];
        let path: [u8; 4] = [0x70, 0x61, 0x74, 0x68];
        assert(http_only@ == attr_http_only());
        assert(secure@ == attr_secure());
        assert(domain@ == attr_domain());
        assert(expires@ == attr_expires());
        assert(max_age@ == attr_max_age());
        assert(path@ == attr_path());
        match seg {
            FieldSegment::Name(name) => {
                if bytes_eq(name.as_slice(), http_only.as_slice()) {
                    self.http_only = true;
                } else if bytes_eq(name.as_slice(), secure.as_slice()) {
                    self.secure = true;
                }
            },
            FieldSegment::NameValue(name, value) => {
                if bytes_eq(name.as_slice(), domain.as_slice()) {
                    self.domain = Some(string_from_bytes(value.as_slice()));
                } else if bytes_eq(name.as_slice(), expires.as_slice()) {
                    self.expires = Some(string_from_bytes(value.as_slice()));
                } else if bytes_eq(name.as_slice(), max_age.as_slice()) {
                    self.max_age = Some(string_from_bytes(value.as_slice()));
                } else if bytes_eq(name.as_slice(), path.as_slice()) {
                    self.path = Some(string_from_bytes(value.as_slice()));
                }
            },
        }
    }

    /// Create a new `Cookie` from a slice of bytes.
    ///
    /// The header is a list of segments separated by `;`. The first gives the cookie name and
    /// value, and the others its attributes: `domain`, `expires`, `max-age` and `path` with a
    /// value, `httponly` and `secure` without one, their names compared in lower case. The
    /// cookie name and value are the only required fields in order for parsing to succeed. If
    /// the cookie name or value are not present, the error will be `None`.
    ///
    /// # Examples
    ///
    /// ```
    /// use http_box::cookie::Cookie;
    ///
    /// let cookie = Cookie::from_bytes(b"Cookie=value; domain=rust-lang.org; path=/").unwrap();
    ///
    /// assert_eq!("Cookie", cookie.name());
    /// assert_eq!("value", cookie.value());
    /// assert_eq!("rust-lang.org", cookie.domain().unwrap());
    /// assert_eq!("/", cookie.path().unwrap());
    /// ```
    pub fn from_bytes(header: &[u8]) -> (r: Result<Cookie, Option<FieldError>>)
        ensures
            match (r, spec_cookie_from_bytes(header@)) {
                (Ok(c), Ok(v)) => c@ == v,
                (Err(e), Err(f)) => e == f,
                _ => false,
            },
    {
        let forbid: [u8; 2] = [0x5C, 0x2C];
        assert(forbid@ == seq![0x5Cu8, 0x2C]);
        let none: [u8; 0] = [];
        assert(none@ == Seq::<u8>::empty());
        proof {
            lemma_next_segment_advances(header@, 0, 0x3B, false, forbid@);
        }
        match next_segment(header, 0, 0x3B, false, forbid.as_slice()) {
            Err(e) => Err(Some(e)),
            Ok(None) => Err(None),
            Ok(Some((FieldSegment::Name(_), _))) => Err(None),
            Ok(Some((FieldSegment::NameValue(name, value), next))) => {
                let mut cookie = Cookie {
                    domain: None,
                    expires: None,
                    http_only: false,
                    max_age: None,
                    name: string_from_bytes(name.as_slice()),
                    path: None,
                    secure: false,
                    value: string_from_bytes(value.as_slice()),
                };
                let mut pos = next;
                loop
                    invariant
                        spec_cookie_from_bytes(header@) == match apply_attributes(
                            header@,
                            pos as int,
                            cookie@,
                        ) {
                            Ok(c) => Ok(c),
                            Err(e) => Err(Some(e)),
                        },
                        pos <= header@.len(),
                        none@ == Seq::<u8>::empty(),
                    decreases header@.len() - pos,
                {
                    proof {
                        lemma_next_segment_advances(header@, pos as int, 0x3B, true, Seq::empty());
                    }
                    match next_segment(header, pos, 0x3B, true, none.as_slice()) {
                        Err(e) => {
                            return Err(Some(e));
                        },
                        Ok(None) => {
                            return Ok(cookie);
                        },
                        Ok(Some((seg, n))) => {
                            cookie.apply_attribute(seg);
                            pos = n;
                        },
                    }
                }
            },
        }
    }

    /// Create a new `Cookie` from a string; see `from_bytes`.
    ///
    /// # Examples
    ///
    /// ```
    /// use http_box::cookie::Cookie;
    ///
    /// let cookie = Cookie::from_str("Cookie=value; domain=rust-lang.org; path=/").unwrap();
    ///
    /// assert_eq!("Cookie", cookie.name());
    /// assert_eq!("/", cookie.path().unwrap());
    /// ```
    pub fn from_str(string: &str) -> (r: Result<Cookie, Option<FieldError>>)
        ensures
            match (r, spec_cookie_from_bytes(string.spec_bytes())) {
                (Ok(c), Ok(v)) => c@ == v,
                (Err(e), Err(f)) => e == f,
                _ => false,
            },
    {
        Cookie::from_bytes(string.as_bytes())
    }
}

/// One call of a `Cookie` setter, with its argument.
pub enum CookieSetting {
    /// `set_domain`.
    Domain(Seq<char>),
    /// `set_expires`.
    Expires(Seq<char>),
    /// `set_http_only`.
    HttpOnly(bool),
    /// `set_max_age`.
    MaxAge(Seq<char>),
    /// `set_name`.
    Name(Seq<char>),
    /// `set_path`.
    Path(Seq<char>),
    /// `set_secure`.
    Secure(bool),
    /// `set_value`.
    Value(Seq<char>),
}

/// The cookie after one setter call, as that setter's contract gives it.
pub open spec fn setting_applied(c: CookieView, s: CookieSetting) -> CookieView {
    match s {
        CookieSetting::Domain(d) => CookieView { domain: Some(d), ..c },
        CookieSetting::Expires(e) => CookieView { expires: Some(e), ..c },
        CookieSetting::HttpOnly(b) => CookieView { http_only: b, ..c },
        CookieSetting::MaxAge(m) => CookieView { max_age: Some(m), ..c },
        CookieSetting::Name(n) => CookieView { name: n, ..c },
        CookieSetting::Path(p) => CookieView { path: Some(p), ..c },
        CookieSetting::Secure(b) => CookieView { secure: b, ..c },
        CookieSetting::Value(v) => CookieView { value: v, ..c },
    }
}

/// The cookie after a sequence of setter calls, first to last.
pub open spec fn settings_applied(c: CookieView, ss: Seq<CookieSetting>) -> CookieView
    decreases ss.len(),
{
    if ss.len() == 0 {
        c
    } else {
        setting_applied(settings_applied(c, ss.drop_last()), ss.last())
    }
}

/// The argument of the last `set_secure` call in `ss`, or `initial` where there is none.
pub open spec fn last_secure(initial: bool, ss: Seq<CookieSetting>) -> bool
    decreases ss.len(),
{
    if ss.len() == 0 {
        initial
    } else if let CookieSetting::Secure(b) = ss.last() {
        b
    } else {
        last_secure(initial, ss.drop_last())
    }
}

/// The argument of the last `set_http_only` call in `ss`, or `initial` where there is none.
pub open spec fn last_http_only(initial: bool, ss: Seq<CookieSetting>) -> bool
    decreases ss.len(),
{
    if ss.len() == 0 {
        initial
    } else if let CookieSetting::HttpOnly(b) = ss.last() {
        b
    } else {
        last_http_only(initial, ss.drop_last())
    }
}

/// Whatever setters are called on a cookie, it is secure exactly when the last `set_secure`
/// call said so (not secure, from `new`, where there was none), and likewise HTTP only with
/// `set_http_only`.
pub proof fn law_cookie_flags_last_set(name: Seq<char>, value: Seq<char>, ss: Seq<CookieSetting>)
    ensures
        settings_applied(new_cookie_view(name, value), ss).secure == last_secure(false, ss),
        settings_applied(new_cookie_view(name, value), ss).http_only == last_http_only(false, ss),
    decreases ss.len(),
{
    if ss.len() > 0 {
        law_cookie_flags_last_set(name, value, ss.drop_last());
    }
}

/// A cookie as `new` makes it: the name and value given, no attribute set.
pub open spec fn new_cookie_view(name: Seq<char>, value: Seq<char>) -> CookieView {
    CookieView {
        domain: None,
        expires: None,
        http_only: false,
        max_age: None,
        name: name,
        path: None,
        secure: false,
        value: value,
    }
}

/// The text of the value `v` where there is one, or else `before`.
pub open spec fn text_or(v: Option<Seq<u8>>, before: Option<Seq<char>>) -> Option<Seq<char>> {
    match v {
        Some(b) => Some(utf8_lossy_text(b)),
        None => before,
    }
}

/// Attribute segments of a cookie header set its attributes whatever order they come in: each
/// of domain, expires, max-age and path is the value of the last segment of that name with a
/// value, the flags `httponly` and `secure` are set by a segment of that name without one, and
/// nothing else changes. Reading fails exactly where a segment is invalid.
pub proof fn law_cookie_attributes(s: Seq<u8>, start: int, c: CookieView)
    ensures
        ({
            let (segs, err) = spec_segments(s, start, 0x3B, true, Seq::empty());
            match apply_attributes(s, start, c) {
                Err(e) => err == Some(e),
                Ok(c1) => {
                    &&& err is None
                    &&& c1.domain == text_or(last_value(segs, attr_domain()), c.domain)
                    &&& c1.expires == text_or(last_value(segs, attr_expires()), c.expires)
                    &&& c1.max_age == text_or(last_value(segs, attr_max_age()), c.max_age)
                    &&& c1.path == text_or(last_value(segs, attr_path()), c.path)
                    &&& c1.http_only == (c.http_only || has_flag(segs, attr_http_only()))
                    &&& c1.secure == (c.secure || has_flag(segs, attr_secure()))
                    &&& c1.name == c.name
                    &&& c1.value == c.value
                },
            }
        }),
    decreases s.len() - start,
{
    lemma_next_segment_advances(s, start, 0x3B, true, Seq::empty());
    assert(attr_domain()[0] == 0x64 && attr_expires()[0] == 0x65 && attr_max_age()[0] == 0x6D
        && attr_path()[0] == 0x70 && attr_http_only()[0] == 0x68 && attr_secure()[0] == 0x73);
    if let Ok(Some((seg, next))) = spec_next_segment(s, start, 0x3B, true, Seq::empty()) {
        let c2 = apply_attribute(c, seg);
        law_cookie_attributes(s, next, c2);
        let rest = spec_segments(s, next, 0x3B, true, Seq::empty()).0;
        lemma_last_value_cons(seg, rest, attr_domain());
        lemma_last_value_cons(seg, rest, attr_expires());
        lemma_last_value_cons(seg, rest, attr_max_age());
        lemma_last_value_cons(seg, rest, attr_path());
        lemma_has_flag_cons(seg, rest, attr_http_only());
        lemma_has_flag_cons(seg, rest, attr_secure());
    } else {
        assert(has_flag(Seq::<SegmentView>::empty(), attr_http_only()) == false);
        assert(has_flag(Seq::<SegmentView>::empty(), attr_secure()) == false);
    }
}

/// A cookie read from a header has the name and value of its first segment, and the
/// attributes that `law_cookie_attributes` gives for the segments after it, from none set: an
/// `Expires` attribute, for one, is the value of the last `expires` segment whatever other
/// attributes come before or after it.
pub proof fn law_cookie_from_bytes(s: Seq<u8>)
    ensures
        spec_cookie_from_bytes(s) matches Ok(c) ==> ({
            let (first, next) = spec_next_segment(s, 0, 0x3B, false, seq![0x5Cu8, 0x2C])->Ok_0->Some_0;
            let segs = spec_segments(s, next, 0x3B, true, Seq::empty()).0;
            &&& first.value matches Some(v) && c.value == utf8_lossy_text(v)
            &&& c.name == utf8_lossy_text(first.name)
            &&& c.domain == text_or(last_value(segs, attr_domain()), None)
            &&& c.expires == text_or(last_value(segs, attr_expires()), None)
            &&& c.max_age == text_or(last_value(segs, attr_max_age()), None)
            &&& c.path == text_or(last_value(segs, attr_path()), None)
            &&& c.http_only == has_flag(segs, attr_http_only())
            &&& c.secure == has_flag(segs, attr_secure())
        }),
{
    if let Ok(Some((first, next))) = spec_next_segment(s, 0, 0x3B, false, seq![0x5Cu8, 0x2C]) {
        if let Some(v) = first.value {
            law_cookie_attributes(
                s,
                next,
                CookieView {
                    domain: None,
                    expires: None,
                    http_only: false,
                    max_age: None,
                    name: utf8_lossy_text(first.name),
                    path: None,
                    secure: false,
                    value: utf8_lossy_text(v),
                },
            );
        }
    }
}

} // verus!

