//! Byte and text utilities shared by the handlers and the cookie parser.

use crate::byte::{is_token, is_upper, spec_is_token, spec_is_upper};
use vstd::prelude::*;
use vstd::utf8::*;

verus! {

/// Every byte is a 7-bit (ASCII) byte.
pub open spec fn is_ascii_bytes(b: Seq<u8>) -> bool {
    forall|i: int| 0 <= i < b.len() ==> #[trigger] b[i] < 0x80
}

/// The characters of ASCII bytes, one for each byte.
pub open spec fn ascii_chars(b: Seq<u8>) -> Seq<char> {
    b.map_values(|x: u8| x as char)
}

/// ASCII bytes are valid UTF-8, and they encode one character each.
pub proof fn lemma_ascii_utf8(b: Seq<u8>)
    requires
        is_ascii_bytes(b),
    ensures
        valid_utf8(b),
        decode_utf8(b) == ascii_chars(b),
    decreases b.len(),
{
    if b.len() > 0 {
        let rest = b.subrange(1, b.len() as int);
        assert(is_ascii_bytes(rest)) by {
            assert forall|i: int| 0 <= i < rest.len() implies #[trigger] rest[i] < 0x80 by {
                assert(rest[i] == b[i + 1]);
            }
        }
        lemma_ascii_utf8(rest);
        let b0 = b[0];
        assert(b0 < 0x80);
        assert(b0 < 0x80 ==> (b0 & 0x7F) == b0) by (bit_vector);
        assert(pop_first_scalar(b) == rest);
        assert(decode_first_scalar(b) == b0 as u32);
        assert(ascii_chars(b) =~= seq![b0 as char] + ascii_chars(rest));
    } else {
        assert(ascii_chars(b) =~= Seq::<char>::empty());
    }
}

/// The characters that `String::from_utf8_lossy` reads from `bytes`.
pub uninterp spec fn utf8_lossy_text(bytes: Seq<u8>) -> Seq<char>;

/// `String::from_utf8_lossy`: a string of the characters that `bytes` encode.
///
/// The result is named by `utf8_lossy_text`; for valid UTF-8 it is the decoded text. For other
/// bytes the standard library replaces each invalid sequence with U+FFFD, which is left unsaid
/// here.
#[verifier::external_body]
pub(crate) fn string_from_bytes(bytes: &[u8]) -> (r: String)
    ensures
        r@ == utf8_lossy_text(bytes@),
        valid_utf8(bytes@) ==> r@ == decode_utf8(bytes@),
{
    String::from_utf8_lossy(bytes).into_owned()
}

/// `std::str::from_utf8`: the text of `bytes` when they are valid UTF-8, and `None` when they
/// are not.
///
/// The contract claims that the standard library accepts exactly the byte sequences that
/// `valid_utf8` describes, and decodes them as `decode_utf8` does.
#[verifier::external_body]
pub(crate) fn string_from_utf8(bytes: &[u8]) -> (r: Option<String>)
    ensures
        r is Some <==> valid_utf8(bytes@),
        r matches Some(s) ==> s@ == decode_utf8(bytes@),
{
    match std::str::from_utf8(bytes) {
        Ok(s) => Some(s.to_string()),
        Err(_) => None,
    }
}

/// A string of the characters of ASCII bytes.
pub(crate) fn string_from_ascii(bytes: &[u8]) -> (r: String)
    requires
        is_ascii_bytes(bytes@),
    ensures
        r@ == ascii_chars(bytes@),
{
    proof {
        lemma_ascii_utf8(bytes@);
    }
    string_from_bytes(bytes)
}

/// Indicates that two byte slices hold the same bytes.
pub(crate) fn bytes_eq(a: &[u8], b: &[u8]) -> (r: bool)
    ensures
        r == (a@ == b@),
{
    if a.len() != b.len() {
        return false;
    }
    let mut i: usize = 0;
    while i < a.len()
        invariant
            a@.len() == b@.len(),
            i <= a@.len(),
            forall|k: int| 0 <= k < i ==> a@[k] == b@[k],
        decreases a@.len() - i,
    {
        if a[i] != b[i] {
            return false;
        }
        i = i + 1;
    }
    assert(a@ =~= b@);
    true
}

// -------------------------------------------------------------------------------------------------
// Field parsing
// -------------------------------------------------------------------------------------------------

/// Errors of field parsing.
#[derive(Clone, Copy, Debug, PartialEq, Eq, Structural)]
pub enum FieldError {
    /// Invalid field name on byte `u8`.
    Name(u8),
    /// Invalid field value on byte `u8`.
    Value(u8),
}

/// A segment of a field: a name alone, or a name with a value.
#[derive(Clone, Debug, PartialEq, Eq)]
pub enum FieldSegment {
    /// A name without a value.
    Name(Vec<u8>),
    /// A name and its value.
    NameValue(Vec<u8>, Vec<u8>),
}

/// Abstract value of a field segment: its name, and its value if it has one.
pub struct SegmentView {
    /// Name.
    pub name: Seq<u8>,
    /// Value, if any.
    pub value: Option<Seq<u8>>,
}

impl View for FieldSegment {
    type V = SegmentView;

    open spec fn view(&self) -> SegmentView {
        match self {
            FieldSegment::Name(n) => SegmentView { name: n@, value: None },
            FieldSegment::NameValue(n, v) => SegmentView { name: n@, value: Some(v@) },
        }
    }
}

/// Linear white space: space and horizontal tab.
pub open spec fn is_lws(b: u8) -> bool {
    b == 0x20 || b == 0x09
}

/// A byte allowed in a field value: horizontal tab and every byte that is not a control byte.
pub open spec fn is_field_value_byte(b: u8) -> bool {
    b == 0x09 || (b >= 0x20 && b != 0x7F)
}

/// The index of the first `x` in `s[i..j]`, or `j` if there is none.
pub open spec fn find_in(s: Seq<u8>, i: int, j: int, x: u8) -> int
    decreases j - i,
{
    if i >= j {
        j
    } else if s[i] == x {
        i
    } else {
        find_in(s, i + 1, j, x)
    }
}

/// The index of the first byte of `s[i..j]` that is not linear white space, or `j`.
pub open spec fn skip_lws(s: Seq<u8>, i: int, j: int) -> int
    decreases j - i,
{
    if i >= j {
        j
    } else if !is_lws(s[i]) {
        i
    } else {
        skip_lws(s, i + 1, j)
    }
}

/// The end of `s[i..j]` without its trailing linear white space.
pub open spec fn trim_lws_end(s: Seq<u8>, i: int, j: int) -> int
    decreases j - i,
{
    if j <= i {
        i
    } else if !is_lws(s[j - 1]) {
        j
    } else {
        trim_lws_end(s, i, j - 1)
    }
}

/// The first byte of `s[i..j]` that is not a token byte.
pub open spec fn first_non_token(s: Seq<u8>, i: int, j: int) -> Option<u8>
    decreases j - i,
{
    if i >= j {
        None
    } else if !spec_is_token(s[i]) {
        Some(s[i])
    } else {
        first_non_token(s, i + 1, j)
    }
}

/// The first byte of `s[i..j]` that is not allowed in a field value, or is one of `forbid`.
pub open spec fn first_bad_value_byte(s: Seq<u8>, i: int, j: int, forbid: Seq<u8>) -> Option<u8>
    decreases j - i,
{
    if i >= j {
        None
    } else if !is_field_value_byte(s[i]) || forbid.contains(s[i]) {
        Some(s[i])
    } else {
        first_bad_value_byte(s, i + 1, j, forbid)
    }
}

/// Upper-case ASCII letters made lower-case; other bytes kept.
pub open spec fn lower_bytes(s: Seq<u8>) -> Seq<u8> {
    s.map_values(|b: u8| if spec_is_upper(b) { (b + 0x20) as u8 } else { b })
}

/// The bytes `s[i..j]` are a quoted string: they start and end with a double quote.
pub open spec fn is_quoted(s: Seq<u8>, i: int, j: int) -> bool {
    j - i >= 2 && s[i] == 0x22 && s[j - 1] == 0x22
}

/// The segment whose trimmed bytes are `s[a..b]`, not empty: a name alone when it holds no `=`,
/// else the name before the first `=` and the value after it, each without the white space
/// next to the `=`; a value in double quotes is taken without them. The name must be made of token bytes and not be empty, the value of field
/// value bytes that are not in `forbid`. A name is made lower-case when `normalize` is set.
pub open spec fn spec_segment(
    s: Seq<u8>,
    a: int,
    b: int,
    normalize: bool,
    forbid: Seq<u8>,
) -> Result<SegmentView, FieldError> {
    let eq = find_in(s, a, b, 0x3D);
    let name_end = if eq < b {
        trim_lws_end(s, a, eq)
    } else {
        b
    };
    let name = if normalize {
        lower_bytes(s.subrange(a, name_end))
    } else {
        s.subrange(a, name_end)
    };
    if eq == a {
        Err(FieldError::Name(0x3D))
    } else if first_non_token(s, a, name_end) is Some {
        Err(FieldError::Name(first_non_token(s, a, name_end)->0))
    } else if eq == b {
        Ok(SegmentView { name: name, value: None })
    } else {
        let value_start = skip_lws(s, eq + 1, b);
        if first_bad_value_byte(s, value_start, b, forbid) is Some {
            Err(FieldError::Value(first_bad_value_byte(s, value_start, b, forbid)->0))
        } else if is_quoted(s, value_start, b) {
            Ok(SegmentView { name: name, value: Some(s.subrange(value_start + 1, b - 1)) })
        } else {
            Ok(SegmentView { name: name, value: Some(s.subrange(value_start, b)) })
        }
    }
}

/// The first segment of `s` from `start` on, with the index after it: segments are separated by
/// `delimiter`, and those that hold nothing but linear white space are skipped. `None` when
/// there are no more segments.
pub open spec fn spec_next_segment(
    s: Seq<u8>,
    start: int,
    delimiter: u8,
    normalize: bool,
    forbid: Seq<u8>,
) -> Result<Option<(SegmentView, int)>, FieldError>
    decreases s.len() - start,
{
    if start < 0 || start >= s.len() {
        Ok(None)
    } else {
        let end = find_in(s, start, s.len() as int, delimiter);
        let next = if end < s.len() {
            end + 1
        } else {
            s.len() as int
        };
        let a = skip_lws(s, start, end);
        let b = trim_lws_end(s, a, end);
        if a == b {
            proof {
                lemma_find_in_bounds(s, start, s.len() as int, delimiter);
            }
            spec_next_segment(s, next, delimiter, normalize, forbid)
        } else {
            match spec_segment(s, a, b, normalize, forbid) {
                Ok(seg) => Ok(Some((seg, next))),
                Err(e) => Err(e),
            }
        }
    }
}

pub proof fn lemma_find_in_bounds(s: Seq<u8>, i: int, j: int, x: u8)
    requires
        i <= j,
    ensures
        i <= find_in(s, i, j, x) <= j,
        find_in(s, i, j, x) < j ==> s[find_in(s, i, j, x)] == x,
    decreases j - i,
{
    if i < j && s[i] != x {
        lemma_find_in_bounds(s, i + 1, j, x);
    }
}

pub proof fn lemma_skip_lws_bounds(s: Seq<u8>, i: int, j: int)
    requires
        i <= j,
    ensures
        i <= skip_lws(s, i, j) <= j,
    decreases j - i,
{
    if i < j && is_lws(s[i]) {
        lemma_skip_lws_bounds(s, i + 1, j);
    }
}

pub proof fn lemma_trim_lws_end_bounds(s: Seq<u8>, i: int, j: int)
    requires
        i <= j,
    ensures
        i <= trim_lws_end(s, i, j) <= j,
    decreases j - i,
{
    if i < j && is_lws(s[j - 1]) {
        lemma_trim_lws_end_bounds(s, i, j - 1);
    }
}

/// A segment found from `start` on ends after `start`, within the bytes.
pub proof fn lemma_next_segment_advances(
    s: Seq<u8>,
    start: int,
    delimiter: u8,
    normalize: bool,
    forbid: Seq<u8>,
)
    ensures
        spec_next_segment(s, start, delimiter, normalize, forbid) matches Ok(Some((_, next)))
            ==> start < next <= s.len(),
    decreases s.len() - start,
{
    if 0 <= start < s.len() {
        let end = find_in(s, start, s.len() as int, delimiter);
        lemma_find_in_bounds(s, start, s.len() as int, delimiter);
        let next = if end < s.len() {
            end + 1
        } else {
            s.len() as int
        };
        let a = skip_lws(s, start, end);
        lemma_skip_lws_bounds(s, start, end);
        let b = trim_lws_end(s, a, end);
        if a == b {
            lemma_next_segment_advances(s, next, delimiter, normalize, forbid);
        }
    }
}

/// The index of the first `x` in `s[i..j]`, or `j`.
fn find_byte(s: &[u8], i: usize, j: usize, x: u8) -> (r: usize)
    requires
        i <= j <= s@.len(),
    ensures
        r == find_in(s@, i as int, j as int, x),
        i <= r <= j,
{
    let mut k = i;
    while k < j
        invariant
            i <= k <= j <= s@.len(),
            find_in(s@, i as int, j as int, x) == find_in(s@, k as int, j as int, x),
        decreases j - k,
    {
        if s[k] == x {
            return k;
        }
        k = k + 1;
    }
    k
}

/// The index of the first byte of `s[i..j]` that is not linear white space, or `j`.
fn skip_white_space(s: &[u8], i: usize, j: usize) -> (r: usize)
    requires
        i <= j <= s@.len(),
    ensures
        r == skip_lws(s@, i as int, j as int),
        i <= r <= j,
{
    let mut k = i;
    while k < j
        invariant
            i <= k <= j <= s@.len(),
            skip_lws(s@, i as int, j as int) == skip_lws(s@, k as int, j as int),
        decreases j - k,
    {
        if !(s[k] == 0x20 || s[k] == 0x09) {
            return k;
        }
        k = k + 1;
    }
    k
}

/// The end of `s[i..j]` without its trailing linear white space.
fn trim_white_space_end(s: &[u8], i: usize, j: usize) -> (r: usize)
    requires
        i <= j <= s@.len(),
    ensures
        r == trim_lws_end(s@, i as int, j as int),
        i <= r <= j,
{
    let mut k = j;
    while k > i
        invariant
            i <= k <= j <= s@.len(),
            trim_lws_end(s@, i as int, j as int) == trim_lws_end(s@, i as int, k as int),
        decreases k - i,
    {
        if !(s[k - 1] == 0x20 || s[k - 1] == 0x09) {
            return k;
        }
        k = k - 1;
    }
    k
}

/// The first byte of `s[i..j]` that is not a token byte.
fn find_non_token(s: &[u8], i: usize, j: usize) -> (r: Option<u8>)
    requires
        i <= j <= s@.len(),
    ensures
        r == first_non_token(s@, i as int, j as int),
{
    let mut k = i;
    while k < j
        invariant
            i <= k <= j <= s@.len(),
            first_non_token(s@, i as int, j as int) == first_non_token(s@, k as int, j as int),
        decreases j - k,
    {
        if !is_token(s[k]) {
            return Some(s[k]);
        }
        k = k + 1;
    }
    None
}

/// Indicates that `b` is one of `set`.
fn contains_byte(set: &[u8], b: u8) -> (r: bool)
    ensures
        r == set@.contains(b),
{
    let mut k: usize = 0;
    while k < set.len()
        invariant
            k <= set@.len(),
            forall|m: int| 0 <= m < k ==> set@[m] != b,
        decreases set@.len() - k,
    {
        if set[k] == b {
            return true;
        }
        k = k + 1;
    }
    false
}

/// The first byte of `s[i..j]` that is not allowed in a field value, or is one of `forbid`.
fn find_bad_value_byte(s: &[u8], i: usize, j: usize, forbid: &[u8]) -> (r: Option<u8>)
    requires
        i <= j <= s@.len(),
    ensures
        r == first_bad_value_byte(s@, i as int, j as int, forbid@),
{
    let mut k = i;
    while k < j
        invariant
            i <= k <= j <= s@.len(),
            first_bad_value_byte(s@, i as int, j as int, forbid@) == first_bad_value_byte(
                s@,
                k as int,
                j as int,
                forbid@,
            ),
        decreases j - k,
    {
        let b = s[k];
        if !(b == 0x09 || (b >= 0x20 && b != 0x7F)) || contains_byte(forbid, b) {
            return Some(b);
        }
        k = k + 1;
    }
    None
}

/// A copy of `s[i..j]`, made lower-case when `normalize` is set.
fn copy_bytes(s: &[u8], i: usize, j: usize, normalize: bool) -> (r: Vec<u8>)
    requires
        i <= j <= s@.len(),
    ensures
        r@ == if normalize {
            lower_bytes(s@.subrange(i as int, j as int))
        } else {
            s@.subrange(i as int, j as int)
        },
{
    let mut out: Vec<u8> = Vec::new();
    let mut k = i;
    while k < j
        invariant
            i <= k <= j <= s@.len(),
            out@ == if normalize {
                lower_bytes(s@.subrange(i as int, k as int))
            } else {
                s@.subrange(i as int, k as int)
            },
        decreases j - k,
    {
        let b = s[k];
        if normalize && is_upper(b) {
            out.push(b + 0x20);
        } else {
            out.push(b);
        }
        proof {
            assert(s@.subrange(i as int, k + 1) =~= s@.subrange(i as int, k as int).push(b));
            if normalize {
                assert(lower_bytes(s@.subrange(i as int, k + 1)) =~= lower_bytes(
                    s@.subrange(i as int, k as int),
                ).push(if spec_is_upper(b) { (b + 0x20) as u8 } else { b }));
            }
        }
        k = k + 1;
    }
    out
}

/// Parse the segment whose trimmed bytes are `s[a..b]`.
fn parse_segment(s: &[u8], a: usize, b: usize, normalize: bool, forbid: &[u8]) -> (r: Result<
    FieldSegment,
    FieldError,
>)
    requires
        a < b <= s@.len(),
    ensures
        match (r, spec_segment(s@, a as int, b as int, normalize, forbid@)) {
            (Ok(seg), Ok(v)) => seg@ == v,
            (Err(e), Err(f)) => e == f,
            _ => false,
        },
{
    let eq = find_byte(s, a, b, 0x3D);
    let name_end = if eq < b {
        trim_white_space_end(s, a, eq)
    } else {
        b
    };
    if eq == a {
        return Err(FieldError::Name(0x3D));
    }
    if let Some(bad) = find_non_token(s, a, name_end) {
        return Err(FieldError::Name(bad));
    }
    let name = copy_bytes(s, a, name_end, normalize);
    if eq == b {
        return Ok(FieldSegment::Name(name));
    }
    let value_start = skip_white_space(s, eq + 1, b);
    if let Some(bad) = find_bad_value_byte(s, value_start, b, forbid) {
        return Err(FieldError::Value(bad));
    }
    let value = if b - value_start >= 2 && s[value_start] == 0x22 && s[b - 1] == 0x22 {
        copy_bytes(s, value_start + 1, b - 1, false)
    } else {
        copy_bytes(s, value_start, b, false)
    };
    Ok(FieldSegment::NameValue(name, value))
}

/// Parse the first segment of `s` from `start` on: segments are separated by `delimiter`, and
/// those that hold nothing but linear white space are skipped.
///
/// Returns the segment and the index after it, `None` when there are no more segments, or the
/// first invalid byte of the segment: in its name, which must be made of token bytes and not be
/// empty, or in its value, which must be made of field value bytes that are not in `forbid`.
/// A name is made lower-case when `normalize` is set.
pub fn next_segment(
    s: &[u8],
    start: usize,
    delimiter: u8,
    normalize: bool,
    forbid: &[u8],
) -> (r: Result<Option<(FieldSegment, usize)>, FieldError>)
    ensures
        match (r, spec_next_segment(s@, start as int, delimiter, normalize, forbid@)) {
            (Ok(None), Ok(None)) => true,
            (Ok(Some((seg, next))), Ok(Some((v, n)))) => seg@ == v && next == n,
            (Err(e), Err(f)) => e == f,
            _ => false,
        },
{
    let len = s.len();
    let mut pos = start;
    while pos < len
        invariant
            len == s@.len(),
            spec_next_segment(s@, start as int, delimiter, normalize, forbid@)
                == spec_next_segment(s@, pos as int, delimiter, normalize, forbid@),
        decreases len - pos,
    {
        let end = find_byte(s, pos, len, delimiter);
        let next = if end < len {
            end + 1
        } else {
            len
        };
        let a = skip_white_space(s, pos, end);
        let b = trim_white_space_end(s, a, end);
        if a == b {
            pos = next;
        } else {
            match parse_segment(s, a, b, normalize, forbid) {
                Ok(seg) => {
                    return Ok(Some((seg, next)));
                },
                Err(e) => {
                    return Err(e);
                },
            }
        }
    }
    Ok(None)
}

/// The segments of `s` from `start` on, in order, as `spec_next_segment` reads them one after
/// another, up to the end or to the first invalid byte; and that invalid byte's error, if one
/// stopped the reading.
pub open spec fn spec_segments(
    s: Seq<u8>,
    start: int,
    delimiter: u8,
    normalize: bool,
    forbid: Seq<u8>,
) -> (Seq<SegmentView>, Option<FieldError>)
    decreases s.len() - start,
{
    match spec_next_segment(s, start, delimiter, normalize, forbid) {
        Err(e) => (Seq::empty(), Some(e)),
        Ok(None) => (Seq::empty(), None),
        Ok(Some((seg, next))) => {
            proof {
                lemma_next_segment_advances(s, start, delimiter, normalize, forbid);
            }
            let rest = spec_segments(s, next, delimiter, normalize, forbid);
            (seq![seg] + rest.0, rest.1)
        },
    }
}

/// The value of the last segment of `segs` named `name` that has a value, if any.
pub open spec fn last_value(segs: Seq<SegmentView>, name: Seq<u8>) -> Option<Seq<u8>>
    decreases segs.len(),
{
    if segs.len() == 0 {
        None
    } else if segs.last().name == name && segs.last().value is Some {
        segs.last().value
    } else {
        last_value(segs.drop_last(), name)
    }
}

/// Among the segments of `segs` is one named `name` without a value.
pub open spec fn has_flag(segs: Seq<SegmentView>, name: Seq<u8>) -> bool {
    exists|i: int| 0 <= i < segs.len() && (#[trigger] segs[i]).name == name && segs[i].value is None
}

/// The last value named `name` among `seg` followed by `rest`: the last one in `rest`, or else
/// that of `seg`.
pub proof fn lemma_last_value_cons(seg: SegmentView, rest: Seq<SegmentView>, name: Seq<u8>)
    ensures
        last_value(seq![seg] + rest, name) == (if last_value(rest, name) is Some {
            last_value(rest, name)
        } else if seg.name == name && seg.value is Some {
            seg.value
        } else {
            None
        }),
    decreases rest.len(),
{
    let all = seq![seg] + rest;
    if rest.len() == 0 {
        assert(all.drop_last() =~= Seq::<SegmentView>::empty());
        assert(all.last() == seg);
    } else {
        assert(all.drop_last() =~= seq![seg] + rest.drop_last());
        assert(all.last() == rest.last());
        lemma_last_value_cons(seg, rest.drop_last(), name);
    }
}

/// A flag named `name` is among `seg` followed by `rest` when it is `seg` or among `rest`.
pub proof fn lemma_has_flag_cons(seg: SegmentView, rest: Seq<SegmentView>, name: Seq<u8>)
    ensures
        has_flag(seq![seg] + rest, name) == ((seg.name == name && seg.value is None) || has_flag(
            rest,
            name,
        )),
{
    let all = seq![seg] + rest;
    if seg.name == name && seg.value is None {
        assert(all[0] == seg);
    }
    if has_flag(rest, name) {
        let i = choose|i: int|
            0 <= i < rest.len() && (#[trigger] rest[i]).name == name && rest[i].value is None;
        assert(all[i + 1] == rest[i]);
    }
    if has_flag(all, name) {
        let i = choose|i: int|
            0 <= i < all.len() && (#[trigger] all[i]).name == name && all[i].value is None;
        if i > 0 {
            assert(all[i] == rest[i - 1]);
        }
    }
}

} // verus!
