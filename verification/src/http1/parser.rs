//! HTTP 1.x parser.

use vstd::prelude::*;

use crate::byte::{
    hex_to_byte, is_digit, is_header_field, is_hex, is_quoted_header_field, is_token, is_upper,
    is_visible_7bit, spec_hex_value, spec_is_digit, spec_is_header_field, spec_is_hex,
    spec_is_quoted_header_field, spec_is_token, spec_is_upper, spec_is_visible_7bit,
};
use crate::fsm::{ParserValue, Success};
use crate::http1::http_handler::HttpHandler;
use crate::http1::parser_error::ParserError;
use crate::http1::parser_state::ParserState;
use crate::stream::ByteStream;
use crate::util::lower_bytes;
use vstd::slice::slice_subrange;

verus! {

/// Parser types: the part of an HTTP message that a `Parser` is initialized for.
#[derive(Clone, Copy, Debug, PartialEq, Eq, Structural)]
pub enum ParserType {
    /// Parsing chunked transfer encoded data.
    Chunked,
    /// Parsing the initial request/response line, and headers.
    Head,
    /// Parsing multipart data.
    Multipart,
    /// Parsing URL encoded data.
    UrlEncoded,
}

/// Byte classes collected by the collection loops of the parser states.
#[derive(Clone, Copy, Debug, PartialEq, Eq, Structural)]
pub enum Collect {
    /// Upper-cased letters (request method).
    Upper,
    /// Visible 7-bit bytes (request URL).
    Visible,
    /// Any 8-bit non-control byte (response status).
    Status,
    /// Tokens that are not upper-cased letters (header and chunk extension names).
    LowerTokens,
    /// Header field bytes.
    HeaderField,
    /// Header field bytes other than `;` (chunk extension values).
    ExtensionValue,
    /// Quoted header field bytes.
    QuotedHeaderField,
    /// Visible 7-bit bytes other than `%`, `+`, `=`, `&`, `;` (URL encoded names).
    UrlEncodedName,
    /// Visible 7-bit bytes other than `%`, `+`, `&`, `;` (URL encoded values).
    UrlEncodedValue,
    /// Any byte other than a carriage return (multipart data).
    NotCr,
    /// Linear white space: space and horizontal tab.
    LinearSpace,
}

/// Indicates that byte `b` is collected by class `c`.
pub open spec fn spec_collects(c: Collect, b: u8) -> bool {
    match c {
        Collect::Upper => spec_is_upper(b),
        Collect::Visible => spec_is_visible_7bit(b),
        Collect::Status => b > 0x1F && b != 0x7F,
        Collect::LowerTokens => spec_is_token(b) && !spec_is_upper(b),
        Collect::HeaderField => spec_is_header_field(b),
        Collect::ExtensionValue => spec_is_header_field(b) && b != 0x3B,
        Collect::QuotedHeaderField => spec_is_quoted_header_field(b),
        Collect::UrlEncodedName => spec_is_visible_7bit(b) && !(b == 0x25 || b == 0x2B || b == 0x3D
            || b == 0x26 || b == 0x3B),
        Collect::UrlEncodedValue => spec_is_visible_7bit(b) && !(b == 0x25 || b == 0x2B || b
            == 0x26 || b == 0x3B),
        Collect::NotCr => b != 0x0D,
        Collect::LinearSpace => b == 0x20 || b == 0x09,
    }
}

/// The index of the first byte of `s`, from `i` on, that class `c` does not collect; `s.len()`
/// when there is none.
pub open spec fn first_outside(s: Seq<u8>, i: int, c: Collect) -> int
    decreases s.len() - i,
{
    if i >= s.len() {
        s.len() as int
    } else if !spec_collects(c, s[i]) {
        i
    } else {
        first_outside(s, i + 1, c)
    }
}

/// The first byte outside class `c` from `i` on is at `k` when every byte from `i` to `k` is in
/// the class and the byte at `k` is not, or `k` is the end.
pub proof fn lemma_first_outside(s: Seq<u8>, i: int, k: int, c: Collect)
    requires
        0 <= i <= k <= s.len(),
        forall|j: int| i <= j < k ==> spec_collects(c, #[trigger] s[j]),
        k < s.len() ==> !spec_collects(c, s[k]),
    ensures
        first_outside(s, i, c) == k,
    decreases k - i,
{
    if i < k {
        lemma_first_outside(s, i + 1, k, c);
    }
}

/// Indicates that byte `b` is collected by class `c`.
pub fn collects(c: Collect, b: u8) -> (r: bool)
    ensures
        r == spec_collects(c, b),
{
    match c {
        Collect::Upper => is_upper(b),
        Collect::Visible => is_visible_7bit(b),
        Collect::Status => b > 0x1F && b != 0x7F,
        Collect::LowerTokens => is_token(b) && !is_upper(b),
        Collect::HeaderField => is_header_field(b),
        Collect::ExtensionValue => is_header_field(b) && b != 0x3B,
        Collect::QuotedHeaderField => is_quoted_header_field(b),
        Collect::UrlEncodedName => is_visible_7bit(b) && !(b == 0x25 || b == 0x2B || b == 0x3D
            || b == 0x26 || b == 0x3B),
        Collect::UrlEncodedValue => is_visible_7bit(b) && !(b == 0x25 || b == 0x2B || b == 0x26
            || b == 0x3B),
        Collect::NotCr => b != 0x0D,
        Collect::LinearSpace => b == 0x20 || b == 0x09,
    }
}

/// Read bytes while they belong to class `c`.
///
/// Returns `true` when a byte outside the class was read (it is then `context.byte`, and the
/// last byte read), or `false` when the end of the stream was reached first.
pub fn collect(context: &mut ByteStream, c: Collect) -> (found: bool)
    requires
        old(context).wf(),
    ensures
        final(context).wf(),
        final(context).stream@ == old(context).stream@,
        final(context).mark_index == old(context).mark_index,
        final(context).stream_index >= old(context).stream_index,
        forall|j: int|
            old(context).stream_index <= j < (if found {
                final(context).stream_index - 1
            } else {
                final(context).stream_index as int
            }) ==> spec_collects(c, #[trigger] final(context).stream@[j]),
        found ==> {
            &&& final(context).stream_index > old(context).stream_index
            &&& final(context).byte == final(context).stream@[final(context).stream_index - 1]
            &&& !spec_collects(c, final(context).byte)
        },
        !found ==> final(context).stream_index == final(context).stream@.len(),
        found ==> final(context).stream_index - 1 == first_outside(
            old(context).stream@,
            old(context).stream_index as int,
            c,
        ),
        !found ==> first_outside(old(context).stream@, old(context).stream_index as int, c)
            == old(context).stream@.len(),
{
    let ghost start = context.stream_index;
    loop
        invariant_except_break
            context.wf(),
            context.stream@ == old(context).stream@,
            context.mark_index == old(context).mark_index,
            context.stream_index >= start,
            start == old(context).stream_index,
            forall|j: int|
                start <= j < context.stream_index ==> spec_collects(c, #[trigger] context.stream@[j]),
        ensures
            context.wf(),
            context.stream@ == old(context).stream@,
            context.mark_index == old(context).mark_index,
            context.stream_index > start,
            forall|j: int|
                start <= j < context.stream_index - 1 ==> spec_collects(
                    c,
                    #[trigger] context.stream@[j],
                ),
            context.byte == context.stream@[context.stream_index - 1],
            !spec_collects(c, context.byte),
        decreases context.stream@.len() - context.stream_index,
    {
        if context.stream_index == context.stream.len() {
            proof {
                lemma_first_outside(context.stream@, start as int, context.stream_index as int, c);
            }
            return false;
        }
        context.next();
        if !collects(c, context.byte) {
            break;
        }
    }
    proof {
        lemma_first_outside(context.stream@, start as int, context.stream_index - 1, c);
    }
    true
}

/// HTTP 1.x parser.
pub struct Parser<'boundary> {
    /// Lower data register: major version, status code, multipart boundary expectation, or the
    /// low nibble of a URL encoded hex sequence.
    lower: u32,
    /// Upper data register: minor version, multipart boundary comparison index, or the high
    /// nibble of a URL encoded hex sequence.
    upper: usize,
    /// Multipart boundary.
    boundary: Option<&'boundary [u8]>,
    /// Total byte count processed.
    byte_count: usize,
    /// Length storage: chunk length, multipart data length, or URL encoded data length.
    length: usize,
    /// Parser type.
    parser_type: ParserType,
    /// Current state.
    pub state: ParserState,
    /// The callbacks made on the handler, oldest first.
    events: Ghost<Seq<HandlerEvent>>,
}

/// A callback of the handler, as the parser records it.
#[derive(Clone, Copy, Debug)]
pub enum Callback {
    /// `on_body_finished`.
    BodyFinished,
    /// `on_chunk_begin`.
    ChunkBegin,
    /// `on_chunk_data`.
    ChunkData,
    /// `on_chunk_extension_finished`.
    ChunkExtensionFinished,
    /// `on_chunk_extension_name`.
    ChunkExtensionName,
    /// `on_chunk_extension_value`.
    ChunkExtensionValue,
    /// `on_chunk_extensions_finished`.
    ChunkExtensionsFinished,
    /// `on_chunk_length`.
    ChunkLength,
    /// `on_header_name`.
    HeaderName,
    /// `on_header_value`.
    HeaderValue,
    /// `on_headers_finished`.
    HeadersFinished,
    /// `on_initial_finished`.
    InitialFinished,
    /// `on_method`.
    Method,
    /// `on_multipart_begin`.
    MultipartBegin,
    /// `on_multipart_data`.
    MultipartData,
    /// `on_status`.
    Status,
    /// `on_status_code`.
    StatusCode,
    /// `on_url`.
    Url,
    /// `on_url_encoded_begin`.
    UrlEncodedBegin,
    /// `on_url_encoded_name`.
    UrlEncodedName,
    /// `on_url_encoded_value`.
    UrlEncodedValue,
    /// `on_version`.
    Version,
}

/// A callback made on the handler: which one, the bytes it was handed, the numbers it was handed
/// (zero where it takes fewer), and its answer.
pub type HandlerEvent = (Callback, Seq<u8>, int, int, bool);

/// `e1` is `e0` and one more callback: `kind`, with the bytes `bytes` and the numbers `n1` and
/// `n2`.
pub open spec fn pushed(
    e0: Seq<HandlerEvent>,
    e1: Seq<HandlerEvent>,
    kind: Callback,
    bytes: Seq<u8>,
    n1: int,
    n2: int,
) -> bool {
    &&& e1.len() > 0
    &&& e1 == e0.push((kind, bytes, n1, n2, e1.last().4))
}

/// The bytes collected from `i` on in class `c`, counted from `mark`, are handed on by one
/// callback of kind `kind` when `ok` and there are any; otherwise no callback is made.
pub open spec fn collect_events(
    e0: Seq<HandlerEvent>,
    e1: Seq<HandlerEvent>,
    s: Seq<u8>,
    i: int,
    mark: int,
    c: Collect,
    kind: Callback,
    ok: bool,
) -> bool {
    let bytes = s.subrange(mark, first_outside(s, i, c));
    if ok && bytes.len() > 0 {
        pushed(e0, e1, kind, bytes, 0, 0)
    } else {
        e1 == e0
    }
}

/// What the parser guarantees of what it hands a callback: a method of upper-case letters, a URL
/// of visible 7-bit bytes, a status without control bytes, header and chunk extension names of
/// lower-case token bytes, and status codes and version numbers of at most 999.
pub open spec fn event_guaranteed(ev: HandlerEvent) -> bool {
    let bytes = ev.1;
    match ev.0 {
        Callback::Method => forall|i: int| 0 <= i < bytes.len() ==> spec_is_upper(#[trigger] bytes[i]),
        Callback::Url => forall|i: int|
            0 <= i < bytes.len() ==> spec_is_visible_7bit(#[trigger] bytes[i]),
        Callback::Status => forall|i: int|
            0 <= i < bytes.len() ==> #[trigger] bytes[i] > 0x1F && bytes[i] != 0x7F,
        Callback::HeaderName | Callback::ChunkExtensionName => forall|i: int|
            0 <= i < bytes.len() ==> spec_is_token(#[trigger] bytes[i]) && !spec_is_upper(bytes[i]),
        Callback::StatusCode => 0 <= ev.2 <= 999,
        Callback::Version => 0 <= ev.2 <= 999 && 0 <= ev.3 <= 999,
        _ => true,
    }
}

/// `e1` is `e0` followed by callbacks that all answered `true`, but the last one when `stopped`,
/// which answered `false`; and each of them was handed what the parser guarantees.
pub open spec fn answered(e0: Seq<HandlerEvent>, e1: Seq<HandlerEvent>, stopped: bool) -> bool {
    &&& e0.len() <= e1.len()
    &&& e1.subrange(0, e0.len() as int) == e0
    &&& forall|i: int|
        e0.len() <= i < e1.len() ==> (#[trigger] e1[i]).4 == !(stopped && i == e1.len() - 1)
    &&& forall|i: int| e0.len() <= i < e1.len() ==> event_guaranteed(#[trigger] e1[i])
    &&& stopped ==> e1.len() > e0.len()
}

/// One more state function call keeps the callbacks answered `true`, but a last one that
/// stops parsing.
proof fn lemma_answered_step(
    e: Seq<HandlerEvent>,
    e0: Seq<HandlerEvent>,
    e1: Seq<HandlerEvent>,
    r: Result<ParserValue, ParserError>,
)
    requires
        answered(e, e0, false),
        callback_outcome(e0, e1, r),
    ensures
        answered(e, e1, r matches Ok(ParserValue::Exit(Success::Callback(_)))),
{
    if e1 != e0 {
        assert(e1.subrange(0, e.len() as int) =~= e0.subrange(0, e.len() as int));
        assert forall|i: int| e.len() <= i < e0.len() implies e1[i] == e0[i] by {}
    }
}

/// Callbacks answered over two calls in a row.
proof fn lemma_answered_then(
    e0: Seq<HandlerEvent>,
    e1: Seq<HandlerEvent>,
    e2: Seq<HandlerEvent>,
    stopped: bool,
)
    requires
        answered(e0, e1, false),
        answered(e1, e2, stopped),
    ensures
        answered(e0, e2, stopped),
{
    assert(e2.subrange(0, e0.len() as int) =~= e2.subrange(0, e1.len() as int).subrange(
        0,
        e0.len() as int,
    ));
    assert forall|i: int| e0.len() <= i < e2.len() implies event_guaranteed(#[trigger] e2[i]) by {
        if i < e1.len() {
            assert(e2[i] == e2.subrange(0, e1.len() as int)[i]);
        }
    }
    assert forall|i: int| e0.len() <= i < e2.len() implies (#[trigger] e2[i]).4 == !(stopped && i
        == e2.len() - 1) by {
        if i < e1.len() {
            assert(e2[i] == e2.subrange(0, e1.len() as int)[i]);
        }
    }
}

/// What one state function does with the handler's answers: it makes at most one recorded
/// callback, and stops with `Success::Callback` exactly when that callback answers `false`.
pub open spec fn callback_outcome(
    e0: Seq<HandlerEvent>,
    e1: Seq<HandlerEvent>,
    r: Result<ParserValue, ParserError>,
) -> bool {
    &&& (e1 == e0 || (e1.len() > 0 && e1 == e0.push(e1.last())))
    &&& (e1 != e0 ==> event_guaranteed(e1.last()))
    &&& (r matches Ok(ParserValue::Exit(Success::Callback(_))) <==> (e1 != e0 && !e1.last().4))
}

/// States that only occur while parsing multipart data.
pub open spec fn is_multipart_state(s: ParserState) -> bool {
    match s {
        ParserState::MultipartHyphen1 | ParserState::MultipartHyphen2
        | ParserState::MultipartBoundary | ParserState::MultipartDetectData
        | ParserState::MultipartDataByByte | ParserState::MultipartDataByLength
        | ParserState::MultipartDataByLengthCr | ParserState::MultipartDataByLengthLf
        | ParserState::MultipartDataByByteLf | ParserState::MultipartBoundaryCr
        | ParserState::MultipartBoundaryLf | ParserState::MultipartEnd => true,
        _ => false,
    }
}

/// States that a multipart parser passes through: the multipart states, the header states of
/// each part, and the final states.
pub open spec fn multipart_type_state(s: ParserState) -> bool {
    is_multipart_state(s) || match s {
        ParserState::InitialLf | ParserState::CheckHeaderName | ParserState::FirstHeaderName
        | ParserState::UpperHeaderName | ParserState::LowerHeaderName
        | ParserState::StripHeaderValue | ParserState::HeaderValue
        | ParserState::HeaderQuotedValue | ParserState::HeaderEscapedValue | ParserState::HeaderCr1
        | ParserState::HeaderLf1 | ParserState::HeaderCr2 | ParserState::HeaderLf2
        | ParserState::HeaderEnd | ParserState::BodyFinished | ParserState::Finished
        | ParserState::Dead => true,
        _ => false,
    }
}

/// States that a URL encoded parser passes through.
pub open spec fn url_encoded_type_state(s: ParserState) -> bool {
    match s {
        ParserState::FirstUrlEncodedName | ParserState::UrlEncodedName
        | ParserState::UrlEncodedNameHex1 | ParserState::UrlEncodedNameHex2
        | ParserState::UrlEncodedNamePlus | ParserState::UrlEncodedValue
        | ParserState::UrlEncodedValueHex1 | ParserState::UrlEncodedValueHex2
        | ParserState::UrlEncodedValuePlus | ParserState::BodyFinished | ParserState::Finished
        | ParserState::Dead => true,
        _ => false,
    }
}

/// States whose state functions change the length storage.
pub open spec fn changes_length(s: ParserState) -> bool {
    match s {
        ParserState::ChunkLength1 | ParserState::ChunkLength2 | ParserState::ChunkLength3
        | ParserState::ChunkLength4 | ParserState::ChunkLength5 | ParserState::ChunkLength6
        | ParserState::ChunkLength7 | ParserState::ChunkLength8 | ParserState::ChunkData
        | ParserState::MultipartDetectData | ParserState::MultipartDataByLength => true,
        _ => false,
    }
}

/// The state a parser of type `t` starts in.
pub open spec fn initial_state(t: ParserType) -> ParserState {
    match t {
        ParserType::Chunked => ParserState::ChunkLength1,
        ParserType::Head => ParserState::StripDetect,
        ParserType::Multipart => ParserState::MultipartHyphen1,
        ParserType::UrlEncoded => ParserState::FirstUrlEncodedName,
    }
}

/// The next unread byte, if any.
pub open spec fn next_byte(c: ByteStream) -> Option<u8> {
    if c.stream_index < c.stream@.len() {
        Some(c.stream@[c.stream_index as int])
    } else {
        None
    }
}

/// Indicates that the next unread byte is an upper-cased letter.
pub open spec fn next_is_upper(c: ByteStream) -> bool {
    next_byte(c) matches Some(b) && spec_is_upper(b)
}

/// Indicates that the next unread byte is `x`.
pub open spec fn next_is(c: ByteStream, x: u8) -> bool {
    next_byte(c) matches Some(b) && b == x
}

/// Progress rank of a state: a state that moves on to another state without consuming a byte
/// has a higher rank than the state it moves on to.
pub open spec fn rank(s: ParserState, c: ByteStream) -> int {
    match s {
        ParserState::HeaderCr2 => 6,
        ParserState::CheckHeaderName => 5,
        ParserState::FirstHeaderName => 4,
        ParserState::UpperHeaderName => if next_is_upper(c) { 0 } else { 3 },
        ParserState::LowerHeaderName => if next_is_upper(c) { 1 } else { 0 },
        ParserState::HeaderEnd => 3,
        ParserState::BodyFinished => 2,
        ParserState::MultipartDetectData => 2,
        ParserState::StripChunkExtensionName => 3,
        ParserState::UpperChunkExtensionName => if next_is_upper(c) { 0 } else { 2 },
        ParserState::LowerChunkExtensionName => if next_is_upper(c) || next_is(c, 0x0D) || next_is(
            c,
            0x3B,
        ) {
            1
        } else {
            0
        },
        ParserState::StripChunkExtensionValue => 2,
        ParserState::ChunkExtensionValue => if next_is(c, 0x0D) || next_is(c, 0x3B) {
            1
        } else {
            0
        },
        ParserState::StripDetect | ParserState::InitialEnd | ParserState::StripHeaderValue
        | ParserState::MultipartDataByLength | ParserState::MultipartBoundary
        | ParserState::ChunkLength2 | ParserState::ChunkLength3 | ParserState::ChunkLength4
        | ParserState::ChunkLength5 | ParserState::ChunkLength6 | ParserState::ChunkLength7
        | ParserState::ChunkLength8 | ParserState::ChunkExtensionsFinished
        | ParserState::ChunkData | ParserState::RequestVersionMinor2
        | ParserState::RequestVersionMinor3 | ParserState::ResponseVersionMinor2
        | ParserState::ResponseVersionMinor3 | ParserState::ResponseStatus1
        | ParserState::FirstUrlEncodedName | ParserState::UrlEncodedNamePlus
        | ParserState::UrlEncodedValuePlus => 1,
        _ => 0,
    }
}

/// Bounds on the length storage that particular states rely on: a chunk length has at most
/// eight hexadecimal digits, and the length is zero between chunks.
pub open spec fn length_ok(s: ParserState, length: usize) -> bool {
    match s {
        ParserState::ChunkDataCr | ParserState::ChunkDataLf | ParserState::ChunkLength1 => length
            == 0,
        ParserState::ChunkLength2 => length < 0x10,
        ParserState::ChunkLength3 => length < 0x100,
        ParserState::ChunkLength4 => length < 0x1000,
        ParserState::ChunkLength5 => length < 0x1_0000,
        ParserState::ChunkLength6 => length < 0x10_0000,
        ParserState::ChunkLength7 => length < 0x100_0000,
        ParserState::ChunkLength8 => length < 0x1000_0000,
        ParserState::ChunkLengthCr => length <= 0xFFFF_FFFF,
        _ => true,
    }
}

/// The byte class of the bytes collected so far in state `s`, from the mark up to the stream
/// index, for the states whose collected bytes are handed to a callback.
pub open spec fn region_class(s: ParserState) -> Option<Collect> {
    match s {
        ParserState::Detect1 | ParserState::Detect2 | ParserState::Detect3 | ParserState::Detect4
        | ParserState::Detect5 | ParserState::RequestMethod => Some(Collect::Upper),
        ParserState::RequestUrl1 | ParserState::RequestUrl2 => Some(Collect::Visible),
        ParserState::ResponseStatus2 => Some(Collect::Status),
        ParserState::LowerHeaderName | ParserState::LowerChunkExtensionName => Some(
            Collect::LowerTokens,
        ),
        _ => None,
    }
}

/// The bytes collected so far in state `s` belong to its class.
pub open spec fn region_ok(s: ParserState, c: ByteStream) -> bool {
    match region_class(s) {
        Some(k) => forall|j: int|
            c.mark_index <= j < c.stream_index ==> spec_collects(k, #[trigger] c.stream@[j]),
        None => true,
    }
}

/// The states that the state function of `s0` may leave the parser in, besides `s0` itself: the
/// edges of the parser's state graph.
pub open spec fn may_follow(s0: ParserState, s1: ParserState) -> bool {
    s1 == s0 || match s0 {
        ParserState::StripDetect => s1 == ParserState::Detect1,
        ParserState::Detect1 => s1 == ParserState::Detect2 || s1 == ParserState::RequestMethod || s1 == ParserState::RequestUrl1 || s1 == ParserState::ResponseStatusCode1 || s1 == ParserState::ResponseVersionMajor1,
        ParserState::Detect2 => s1 == ParserState::Detect3 || s1 == ParserState::RequestMethod,
        ParserState::Detect3 => s1 == ParserState::Detect4 || s1 == ParserState::RequestMethod,
        ParserState::Detect4 => s1 == ParserState::Detect5 || s1 == ParserState::RequestMethod,
        ParserState::Detect5 => s1 == ParserState::RequestMethod || s1 == ParserState::ResponseVersionMajor1,
        ParserState::RequestMethod => s1 == ParserState::RequestUrl1,
        ParserState::RequestUrl1 => s1 == ParserState::RequestUrl2,
        ParserState::RequestUrl2 => s1 == ParserState::RequestHttp1,
        ParserState::RequestHttp1 => s1 == ParserState::InitialEnd || s1 == ParserState::RequestHttp2,
        ParserState::RequestHttp2 => s1 == ParserState::RequestHttp3,
        ParserState::RequestHttp3 => s1 == ParserState::RequestHttp4,
        ParserState::RequestHttp4 => s1 == ParserState::RequestHttp5,
        ParserState::RequestHttp5 => s1 == ParserState::RequestVersionMajor1,
        ParserState::RequestVersionMajor1 => s1 == ParserState::RequestVersionMajor2,
        ParserState::RequestVersionMajor2 => s1 == ParserState::RequestVersionMajor3 || s1 == ParserState::RequestVersionMinor1,
        ParserState::RequestVersionMajor3 => s1 == ParserState::RequestVersionMinor1 || s1 == ParserState::RequestVersionPeriod,
        ParserState::RequestVersionPeriod => s1 == ParserState::RequestVersionMinor1,
        ParserState::RequestVersionMinor1 => s1 == ParserState::RequestVersionMinor2,
        ParserState::RequestVersionMinor2 => s1 == ParserState::RequestVersionCr || s1 == ParserState::RequestVersionMinor3,
        ParserState::RequestVersionMinor3 => s1 == ParserState::RequestVersionCr,
        ParserState::RequestVersionCr => s1 == ParserState::InitialEnd,
        ParserState::ResponseVersionMajor1 => s1 == ParserState::ResponseVersionMajor2,
        ParserState::ResponseVersionMajor2 => s1 == ParserState::ResponseVersionMajor3 || s1 == ParserState::ResponseVersionMinor1,
        ParserState::ResponseVersionMajor3 => s1 == ParserState::ResponseVersionMinor1 || s1 == ParserState::ResponseVersionPeriod,
        ParserState::ResponseVersionPeriod => s1 == ParserState::ResponseVersionMinor1,
        ParserState::ResponseVersionMinor1 => s1 == ParserState::ResponseVersionMinor2,
        ParserState::ResponseVersionMinor2 => s1 == ParserState::ResponseVersionMinor3 || s1 == ParserState::ResponseVersionSpace,
        ParserState::ResponseVersionMinor3 => s1 == ParserState::ResponseVersionSpace,
        ParserState::ResponseVersionSpace => s1 == ParserState::ResponseStatusCode1,
        ParserState::ResponseStatusCode1 => s1 == ParserState::ResponseStatusCode2 || s1 == ParserState::ResponseStatusCodeSpace,
        ParserState::ResponseStatusCode2 => s1 == ParserState::ResponseStatusCode3,
        ParserState::ResponseStatusCode3 => s1 == ParserState::ResponseStatusCodeSpace,
        ParserState::ResponseStatusCodeSpace => s1 == ParserState::ResponseStatus1,
        ParserState::ResponseStatus1 => s1 == ParserState::ResponseStatus2,
        ParserState::ResponseStatus2 => s1 == ParserState::InitialEnd,
        ParserState::InitialEnd => s1 == ParserState::InitialLf,
        ParserState::InitialLf => s1 == ParserState::HeaderCr2,
        ParserState::CheckHeaderName => s1 == ParserState::FirstHeaderName || s1 == ParserState::HeaderValue,
        ParserState::FirstHeaderName => s1 == ParserState::StripHeaderValue || s1 == ParserState::UpperHeaderName,
        ParserState::UpperHeaderName => s1 == ParserState::LowerHeaderName,
        ParserState::LowerHeaderName => s1 == ParserState::StripHeaderValue || s1 == ParserState::UpperHeaderName,
        ParserState::StripHeaderValue => s1 == ParserState::HeaderValue,
        ParserState::HeaderValue => s1 == ParserState::HeaderLf1 || s1 == ParserState::HeaderQuotedValue,
        ParserState::HeaderQuotedValue => s1 == ParserState::HeaderEscapedValue || s1 == ParserState::HeaderValue,
        ParserState::HeaderEscapedValue => s1 == ParserState::HeaderQuotedValue,
        ParserState::HeaderCr1 => s1 == ParserState::HeaderCr2 || s1 == ParserState::HeaderLf1,
        ParserState::HeaderLf1 => s1 == ParserState::HeaderCr2,
        ParserState::HeaderCr2 => s1 == ParserState::CheckHeaderName || s1 == ParserState::HeaderEnd || s1 == ParserState::HeaderLf2,
        ParserState::HeaderLf2 => s1 == ParserState::HeaderEnd,
        ParserState::HeaderEnd => s1 == ParserState::BodyFinished || s1 == ParserState::Finished || s1 == ParserState::MultipartDetectData,
        ParserState::ChunkLength1 => s1 == ParserState::ChunkLength2 || s1 == ParserState::ChunkLengthCr,
        ParserState::ChunkLength2 => s1 == ParserState::ChunkLength3 || s1 == ParserState::ChunkLengthCr,
        ParserState::ChunkLength3 => s1 == ParserState::ChunkLength4 || s1 == ParserState::ChunkLengthCr,
        ParserState::ChunkLength4 => s1 == ParserState::ChunkLength5 || s1 == ParserState::ChunkLengthCr,
        ParserState::ChunkLength5 => s1 == ParserState::ChunkLength6 || s1 == ParserState::ChunkLengthCr,
        ParserState::ChunkLength6 => s1 == ParserState::ChunkLength7 || s1 == ParserState::ChunkLengthCr,
        ParserState::ChunkLength7 => s1 == ParserState::ChunkLength8 || s1 == ParserState::ChunkLengthCr,
        ParserState::ChunkLength8 => s1 == ParserState::ChunkLengthCr,
        ParserState::ChunkLengthCr => s1 == ParserState::ChunkExtensionsFinished || s1 == ParserState::HeaderLf1 || s1 == ParserState::StripChunkExtensionName,
        ParserState::ChunkLengthLf => s1 == ParserState::ChunkData,
        ParserState::StripChunkExtensionName => s1 == ParserState::LowerChunkExtensionName,
        ParserState::LowerChunkExtensionName => s1 == ParserState::ChunkExtensionFinished || s1 == ParserState::StripChunkExtensionValue || s1 == ParserState::UpperChunkExtensionName,
        ParserState::UpperChunkExtensionName => s1 == ParserState::LowerChunkExtensionName,
        ParserState::StripChunkExtensionValue => s1 == ParserState::ChunkExtensionValue,
        ParserState::ChunkExtensionValue => s1 == ParserState::ChunkExtensionFinished || s1 == ParserState::ChunkExtensionQuotedValue,
        ParserState::ChunkExtensionQuotedValue => s1 == ParserState::ChunkExtensionEscapedValue || s1 == ParserState::ChunkExtensionValue,
        ParserState::ChunkExtensionEscapedValue => s1 == ParserState::ChunkExtensionQuotedValue,
        ParserState::ChunkExtensionFinished => s1 == ParserState::ChunkExtensionsFinished || s1 == ParserState::StripChunkExtensionName,
        ParserState::ChunkExtensionsFinished => s1 == ParserState::ChunkLengthLf,
        ParserState::ChunkData => s1 == ParserState::ChunkData || s1 == ParserState::ChunkDataCr,
        ParserState::ChunkDataCr => s1 == ParserState::ChunkDataLf,
        ParserState::ChunkDataLf => s1 == ParserState::ChunkLength1,
        ParserState::MultipartHyphen1 => s1 == ParserState::MultipartDataByByte || s1 == ParserState::MultipartHyphen2,
        ParserState::MultipartHyphen2 => s1 == ParserState::MultipartBoundary || s1 == ParserState::MultipartDataByByte,
        ParserState::MultipartBoundary => s1 == ParserState::MultipartBoundaryCr || s1 == ParserState::MultipartDataByByte,
        ParserState::MultipartBoundaryCr => s1 == ParserState::InitialLf || s1 == ParserState::MultipartEnd,
        ParserState::MultipartBoundaryLf => s1 == ParserState::CheckHeaderName,
        ParserState::MultipartDetectData => s1 == ParserState::MultipartDataByByte || s1 == ParserState::MultipartDataByLength,
        ParserState::MultipartDataByLength => s1 == ParserState::MultipartDataByLength || s1 == ParserState::MultipartDataByLengthCr,
        ParserState::MultipartDataByLengthCr => s1 == ParserState::MultipartDataByLengthLf,
        ParserState::MultipartDataByLengthLf => s1 == ParserState::MultipartHyphen1,
        ParserState::MultipartDataByByte => s1 == ParserState::MultipartDataByByteLf,
        ParserState::MultipartDataByByteLf => s1 == ParserState::MultipartDataByByte || s1 == ParserState::MultipartHyphen1,
        ParserState::MultipartEnd => s1 == ParserState::BodyFinished,
        ParserState::FirstUrlEncodedName => s1 == ParserState::UrlEncodedName,
        ParserState::UrlEncodedName => s1 == ParserState::FirstUrlEncodedName || s1 == ParserState::UrlEncodedNameHex1 || s1 == ParserState::UrlEncodedNamePlus || s1 == ParserState::UrlEncodedValue,
        ParserState::UrlEncodedValue => s1 == ParserState::FirstUrlEncodedName || s1 == ParserState::UrlEncodedValueHex1 || s1 == ParserState::UrlEncodedValuePlus,
        ParserState::UrlEncodedNameHex1 => s1 == ParserState::UrlEncodedNameHex2,
        ParserState::UrlEncodedNameHex2 => s1 == ParserState::UrlEncodedName,
        ParserState::UrlEncodedNamePlus => s1 == ParserState::UrlEncodedName,
        ParserState::UrlEncodedValueHex1 => s1 == ParserState::UrlEncodedValueHex2,
        ParserState::UrlEncodedValueHex2 => s1 == ParserState::UrlEncodedValue,
        ParserState::UrlEncodedValuePlus => s1 == ParserState::UrlEncodedValue,
        ParserState::BodyFinished => s1 == ParserState::Finished,
        _ => false,
    }
}

/// A state function that expects one byte: at the end of the stream it exits with
/// `Success::Eos` and changes nothing; else it consumes one byte, and moves on to `next` when the
/// byte is `expected`, or fails with `error` of the byte.
pub open spec fn expect_step<'b>(
    p0: Parser<'b>,
    p1: Parser<'b>,
    c0: ByteStream,
    c1: ByteStream,
    r: Result<ParserValue, ParserError>,
    expected: u8,
    next: ParserState,
    error: spec_fn(u8) -> ParserError,
) -> bool {
    match next_byte(c0) {
        None => r == Ok::<ParserValue, ParserError>(ParserValue::Exit(Success::Eos(c0.stream_index)))
            && p1.spec_state() == p0.spec_state() && c1.stream_index == c0.stream_index,
        Some(b) => c1.stream_index == c0.stream_index + 1 && if b == expected {
            r == Ok::<ParserValue, ParserError>(ParserValue::Continue) && p1.spec_state() == next
        } else {
            r == Err::<ParserValue, ParserError>(error(b))
        },
    }
}

/// What `resume` gives: `p0` and `p1` are the parser before and after the call, `stream` the
/// bytes it was given, and `r` its result. Besides what holds of every call, it reads head data
/// as `head_detect` and then `message_run` do, chunked data as `message_run` does, URL encoded
/// data as `url_encoded_run` does, and a multipart boundary line that must come as
/// `multipart_start` does; and every callback it makes is handed what the parser guarantees and
/// answers `true`, but the last one exactly when the result is `Success::Callback`.
pub open spec fn resume_post<'b>(
    p0: Parser<'b>,
    p1: Parser<'b>,
    stream: Seq<u8>,
    r: Result<Success, ParserError>,
) -> bool {
    &&& p1.wf()
    &&& answered(p0.spec_events(), p1.spec_events(), r matches Ok(Success::Callback(_)))
    &&& p1.spec_parser_type() == p0.spec_parser_type()
    &&& p1.spec_boundary() == p0.spec_boundary()
    &&& (p0.spec_state() == ParserState::Dead ==> r == Err::<Success, ParserError>(
            ParserError::Dead,
        ) && p1.spec_byte_count() == p0.spec_byte_count())
    &&& (p0.spec_state() == ParserState::Finished ==> r == Ok::<Success, ParserError>(
            Success::Finished(0),
        ) && p1.spec_state() == ParserState::Finished && p1.spec_byte_count() == p0.spec_byte_count())
    &&& (match r {
            Ok(s) => {
                &&& p1.spec_state() != ParserState::Dead
                &&& s.spec_length() <= p0.spec_resume_limit(stream)
                &&& (s is Eos ==> s.spec_length() == p0.spec_resume_limit(stream))
                &&& (s is Finished ==> p1.spec_state() == ParserState::Finished)
            },
            Err(e) => {
                &&& p1.spec_state() == ParserState::Dead
                &&& (e == ParserError::Dead <==> p0.spec_state() == ParserState::Dead)
            },
        })
    &&& (p0.spec_parser_type() != ParserType::UrlEncoded ==> {
            let n = p1.spec_byte_count() - p0.spec_byte_count();
            &&& 0 <= n <= stream.len()
            &&& (r matches Ok(s) ==> n == s.spec_length())
            &&& match r {
                Err(e) => e != ParserError::Dead ==> n > 0 && e.spec_byte() == Some(
                    stream[n - 1],
                ),
                _ => true,
            }
        })
    &&& (p0.spec_parser_type() == ParserType::UrlEncoded && url_encoded_reading_state(
        p0.spec_state(),
    ) ==> {
        let start = url_encoded_start(p0);
        match r {
            Ok(Success::Eos(n)) => url_encoded_run(start, stream.subrange(0, n as int)) == Ok::<
                UrlEncodedPosition,
                ParserError,
            >(p1.url_encoded_position()),
            Err(e) => url_encoded_run(
                start,
                stream.subrange(0, p1.spec_byte_count() - p0.spec_byte_count()),
            ) == Err::<UrlEncodedPosition, ParserError>(e),
            _ => true,
        }
    })
    &&& (p0.spec_parser_type() == ParserType::Multipart && multipart_starting(p0.spec_state())
        && p0.expects_boundary() ==> multipart_start_outcome(
        multipart_start(
            p0.spec_state(),
            p0.spec_boundary_index() as int,
            p0.spec_boundary()->0@,
            stream,
            0,
        ),
        p0.spec_length(),
        stream,
        p1.spec_byte_count() - p0.spec_byte_count(),
        r,
        p1,
    ))
    &&& (p0.spec_parser_type() == ParserType::Head && detecting(p0.spec_state()) ==> head_outcome(
        head_detect(p0.spec_state(), 0, stream, 0),
        p0.spec_length(),
        stream,
        p1.spec_byte_count() - p0.spec_byte_count(),
        r,
        p1,
    ))
    &&& (message_parser_type(p0.spec_parser_type()) && message_reading_state(p0.spec_state())
        ==> match r {
        Ok(Success::Eos(n)) => message_run(p0.message_position(), stream.subrange(0, n as int))
            == Ok::<MessagePosition, ParserError>(p1.message_position()),
        Ok(Success::Finished(n)) => message_run(
            p0.message_position(),
            stream.subrange(0, n as int),
        ) matches Ok(q) && q.0 == ParserState::Finished,
        Ok(Success::Callback(n)) => message_run(
            p0.message_position(),
            stream.subrange(0, n as int),
        ) is Ok,
        Err(e) => message_run(
            p0.message_position(),
            stream.subrange(0, p1.spec_byte_count() - p0.spec_byte_count()),
        ) == Err::<MessagePosition, ParserError>(e),
    })
    &&& (p0.spec_parser_type() == ParserType::UrlEncoded ==> {
        let b0 = p0.spec_byte_count();
        let b1 = p1.spec_byte_count();
        // a body that finishes counts its bytes twice
        let finished_body = |n: int| p0.spec_length() == n && b1 == b0 + 2 * n;
        match r {
            Ok(Success::Eos(n)) => (p1.spec_length() == p0.spec_length() - n && b1 == b0 + n)
                || finished_body(n as int),
            Ok(Success::Callback(n)) => p1.spec_length() == p0.spec_length() - n
                || finished_body(n as int),
            Ok(Success::Finished(n)) => b1 == b0 + n || finished_body(n as int),
            Err(e) => {
                &&& b0 <= b1 <= b0 + stream.len()
                &&& (e != ParserError::Dead ==> b1 > b0 && e.spec_byte() == Some(stream[b1 - b0 - 1]))
            },
        }
    })
}

/// Where URL encoded parsing stands: the state, and the high and low hex registers.
pub type UrlEncodedPosition = (ParserState, usize, u32);

/// The URL encoded position after the byte `b`, or the error on a byte that the state does not
/// take. A `+` stands for a space and a `%` starts a hex escape; a name ends at `=`, and a pair
/// ends at `&` or `;`. A `+` leaves the position as it was: it is handed on as a space.
pub open spec fn url_encoded_byte(q: UrlEncodedPosition, b: u8) -> Result<
    UrlEncodedPosition,
    ParserError,
> {
    let (state, upper, lower) = q;
    if state == ParserState::FirstUrlEncodedName || state == ParserState::UrlEncodedName {
        if spec_collects(Collect::UrlEncodedName, b) || b == 0x2B {
            Ok((ParserState::UrlEncodedName, upper, lower))
        } else if b == 0x25 {
            Ok((ParserState::UrlEncodedNameHex1, upper, lower))
        } else if b == 0x3D {
            Ok((ParserState::UrlEncodedValue, upper, lower))
        } else if b == 0x26 || b == 0x3B {
            Ok((ParserState::FirstUrlEncodedName, upper, lower))
        } else {
            Err(ParserError::UrlEncodedName(b))
        }
    } else if state == ParserState::UrlEncodedValue {
        if spec_collects(Collect::UrlEncodedValue, b) || b == 0x2B {
            Ok((ParserState::UrlEncodedValue, upper, lower))
        } else if b == 0x25 {
            Ok((ParserState::UrlEncodedValueHex1, upper, lower))
        } else if b == 0x26 || b == 0x3B {
            Ok((ParserState::FirstUrlEncodedName, upper, lower))
        } else {
            Err(ParserError::UrlEncodedValue(b))
        }
    } else if state == ParserState::UrlEncodedNameHex1 || state
        == ParserState::UrlEncodedValueHex1 {
        if spec_is_hex(b) {
            Ok((
                if state == ParserState::UrlEncodedNameHex1 {
                    ParserState::UrlEncodedNameHex2
                } else {
                    ParserState::UrlEncodedValueHex2
                },
                (spec_hex_value(b) * 16) as usize,
                lower,
            ))
        } else if state == ParserState::UrlEncodedNameHex1 {
            Err(ParserError::UrlEncodedName(b))
        } else {
            Err(ParserError::UrlEncodedValue(b))
        }
    } else if state == ParserState::UrlEncodedNameHex2 {
        if spec_is_hex(b) {
            Ok((ParserState::UrlEncodedName, upper, spec_hex_value(b) as u32))
        } else {
            Err(ParserError::UrlEncodedName(b))
        }
    } else if state == ParserState::UrlEncodedValueHex2 {
        if spec_is_hex(b) {
            Ok((ParserState::UrlEncodedValue, upper, spec_hex_value(b) as u32))
        } else {
            Err(ParserError::UrlEncodedValue(b))
        }
    } else {
        Err(ParserError::Dead)
    }
}

/// The URL encoded position after the bytes `s`, read one at a time from `q`, or the error on
/// the first byte not taken.
pub open spec fn url_encoded_run(q: UrlEncodedPosition, s: Seq<u8>) -> Result<
    UrlEncodedPosition,
    ParserError,
>
    decreases s.len(),
{
    if s.len() == 0 {
        Ok(q)
    } else {
        match url_encoded_run(q, s.drop_last()) {
            Ok(q1) => url_encoded_byte(q1, s.last()),
            Err(e) => Err(e),
        }
    }
}

/// URL encoded data reads the same whatever pieces it comes in: reading `a` and then `b` from
/// where `a` left off gives what reading `a + b` at once gives, position or error.
pub proof fn law_url_encoded_pieces(q: UrlEncodedPosition, a: Seq<u8>, b: Seq<u8>)
    ensures
        url_encoded_run(q, a + b) == match url_encoded_run(q, a) {
            Ok(q1) => url_encoded_run(q1, b),
            Err(e) => Err(e),
        },
    decreases b.len(),
{
    if b.len() == 0 {
        assert(a + b =~= a);
    } else {
        assert((a + b).drop_last() =~= a + b.drop_last());
        assert((a + b).last() == b.last());
        law_url_encoded_pieces(q, a, b.drop_last());
    }
}

/// A URL encoded parsing state that reads bytes: one of the URL encoded states but the body end,
/// finish and dead states.
pub open spec fn url_encoded_reading_state(state: ParserState) -> bool {
    url_encoded_type_state(state) && !(state is BodyFinished || state is Finished || state is Dead)
}

/// The position `q` stands for where parser `p` is with `c` left to read: the same position, or
/// the state that a space from a `+` (already read) or the start of a pair (when bytes are left)
/// goes on in.
pub closed spec fn url_encoded_tracks<'b>(q: UrlEncodedPosition, p: Parser<'b>, c: ByteStream) -> bool {
    let (state, upper, lower) = q;
    &&& upper == p.upper
    &&& lower == p.lower
    &&& {
        ||| state == p.state && !(p.state is UrlEncodedNamePlus) && !(p.state is UrlEncodedValuePlus)
        ||| state == ParserState::UrlEncodedName && p.state is UrlEncodedNamePlus
        ||| state == ParserState::UrlEncodedValue && p.state is UrlEncodedValuePlus
        ||| state == ParserState::FirstUrlEncodedName && p.state is UrlEncodedName
            && c.spec_available() > 0
    }
}

/// The position that parser `p` stands for when URL encoded parsing starts in it.
pub closed spec fn url_encoded_start<'b>(p: Parser<'b>) -> UrlEncodedPosition {
    if p.state is UrlEncodedNamePlus {
        (ParserState::UrlEncodedName, p.upper, p.lower)
    } else if p.state is UrlEncodedValuePlus {
        (ParserState::UrlEncodedValue, p.upper, p.lower)
    } else {
        (p.state, p.upper, p.lower)
    }
}

/// Reading `bytes` from `q` gives what a state function call gives: the error it fails with, or
/// a position that the parser after the call stands for.
pub open spec fn url_encoded_follows<'b>(
    q: UrlEncodedPosition,
    p1: Parser<'b>,
    c1: ByteStream,
    bytes: Seq<u8>,
    r: Result<ParserValue, ParserError>,
) -> bool {
    match r {
        Err(e) => url_encoded_run(q, bytes) == Err::<UrlEncodedPosition, ParserError>(e),
        Ok(_) => match url_encoded_run(q, bytes) {
            Ok(q1) => url_encoded_tracks(q1, p1, c1),
            Err(_) => false,
        },
    }
}

/// A URL encoded state function call reads its bytes as `url_encoded_run` does, from any
/// position that the parser before it stands for.
pub open spec fn url_encoded_step<'b>(
    p0: Parser<'b>,
    p1: Parser<'b>,
    c0: ByteStream,
    c1: ByteStream,
    r: Result<ParserValue, ParserError>,
) -> bool {
    &&& forall|q: UrlEncodedPosition|
        #[trigger] url_encoded_tracks(q, p0, c0) ==> url_encoded_follows(
            q,
            p1,
            c1,
            c0.stream@.subrange(c0.stream_index as int, c1.stream_index as int),
            r,
        )
    &&& (r matches Ok(ParserValue::Exit(Success::Eos(_))) ==> !(p1.spec_state() is UrlEncodedNamePlus)
        && !(p1.spec_state() is UrlEncodedValuePlus))
}

/// Reading bytes that a name takes, from the start of a pair or within a name, ends within a
/// name, or where it started when there are none.
pub proof fn lemma_url_encoded_name_run(q: UrlEncodedPosition, t: Seq<u8>)
    requires
        q.0 == ParserState::FirstUrlEncodedName || q.0 == ParserState::UrlEncodedName,
        forall|j: int| 0 <= j < t.len() ==> spec_collects(Collect::UrlEncodedName, #[trigger] t[j]),
    ensures
        url_encoded_run(q, t) == Ok::<UrlEncodedPosition, ParserError>(
            if t.len() == 0 {
                q
            } else {
                (ParserState::UrlEncodedName, q.1, q.2)
            },
        ),
    decreases t.len(),
{
    if t.len() > 0 {
        lemma_url_encoded_name_run(q, t.drop_last());
    }
}

/// Reading bytes that a value takes, within a value, stays within it.
pub proof fn lemma_url_encoded_value_run(q: UrlEncodedPosition, t: Seq<u8>)
    requires
        q.0 == ParserState::UrlEncodedValue,
        forall|j: int| 0 <= j < t.len() ==> spec_collects(Collect::UrlEncodedValue, #[trigger] t[j]),
    ensures
        url_encoded_run(q, t) == Ok::<UrlEncodedPosition, ParserError>(q),
    decreases t.len(),
{
    if t.len() > 0 {
        lemma_url_encoded_value_run(q, t.drop_last());
    }
}

/// Where head or chunked parsing stands: the state and the chunk length register.
pub type MessagePosition = (ParserState, usize);

/// The parser types whose states `message_byte` describes: head and chunked parsing.
pub open spec fn message_parser_type(t: ParserType) -> bool {
    t == ParserType::Head || t == ParserType::Chunked
}

/// The states that head parsing after the request or response is told apart, and chunked
/// parsing, pass through before they die: the initial line states, the chunk states, the header
/// and trailer states, and the final states.
pub open spec fn message_reading_state(state: ParserState) -> bool {
    match state {
        ParserState::RequestMethod | ParserState::RequestUrl1 | ParserState::RequestUrl2
        | ParserState::RequestHttp1 | ParserState::RequestHttp2 | ParserState::RequestHttp3
        | ParserState::RequestHttp4 | ParserState::RequestHttp5
        | ParserState::RequestVersionMajor1 | ParserState::RequestVersionMajor2
        | ParserState::RequestVersionMajor3 | ParserState::RequestVersionPeriod
        | ParserState::RequestVersionMinor1 | ParserState::RequestVersionMinor2
        | ParserState::RequestVersionMinor3 | ParserState::RequestVersionCr
        | ParserState::ResponseVersionMajor1 | ParserState::ResponseVersionMajor2
        | ParserState::ResponseVersionMajor3 | ParserState::ResponseVersionPeriod
        | ParserState::ResponseVersionMinor1 | ParserState::ResponseVersionMinor2
        | ParserState::ResponseVersionMinor3 | ParserState::ResponseVersionSpace
        | ParserState::ResponseStatusCode1 | ParserState::ResponseStatusCode2
        | ParserState::ResponseStatusCode3 | ParserState::ResponseStatusCodeSpace
        | ParserState::ResponseStatus1 | ParserState::ResponseStatus2 | ParserState::InitialEnd
        | ParserState::InitialLf => true,
        ParserState::ChunkLength1 | ParserState::ChunkLength2 | ParserState::ChunkLength3
        | ParserState::ChunkLength4 | ParserState::ChunkLength5 | ParserState::ChunkLength6
        | ParserState::ChunkLength7 | ParserState::ChunkLength8 | ParserState::ChunkLengthCr
        | ParserState::ChunkLengthLf | ParserState::StripChunkExtensionName
        | ParserState::UpperChunkExtensionName | ParserState::LowerChunkExtensionName
        | ParserState::StripChunkExtensionValue | ParserState::ChunkExtensionValue
        | ParserState::ChunkExtensionQuotedValue | ParserState::ChunkExtensionEscapedValue
        | ParserState::ChunkExtensionFinished | ParserState::ChunkExtensionsFinished
        | ParserState::ChunkData | ParserState::ChunkDataCr | ParserState::ChunkDataLf
        | ParserState::HeaderLf1 | ParserState::HeaderCr2 | ParserState::HeaderLf2
        | ParserState::CheckHeaderName | ParserState::FirstHeaderName
        | ParserState::UpperHeaderName | ParserState::LowerHeaderName
        | ParserState::StripHeaderValue | ParserState::HeaderValue
        | ParserState::HeaderQuotedValue | ParserState::HeaderEscapedValue
        | ParserState::HeaderEnd | ParserState::BodyFinished | ParserState::Finished => true,
        _ => false,
    }
}

/// The position that head or chunked parsing in `state`, with chunk length `length`, stands
/// for. A state that reads every byte as another one does counts as that one (an upper-case
/// name state as the lower-case one, the first header name state as the name state), a state
/// that goes on without reading as the state it goes on in, and an empty chunk as its end.
pub open spec fn message_settle(state: ParserState, length: usize) -> MessagePosition {
    match state {
        ParserState::InitialEnd => (ParserState::InitialLf, length),
        ParserState::UpperChunkExtensionName => (ParserState::LowerChunkExtensionName, length),
        ParserState::ChunkExtensionsFinished => (ParserState::ChunkLengthLf, length),
        ParserState::ChunkData => if length == 0 {
            (ParserState::ChunkDataCr, length)
        } else {
            (state, length)
        },
        ParserState::FirstHeaderName | ParserState::UpperHeaderName => (
            ParserState::LowerHeaderName,
            length,
        ),
        ParserState::HeaderEnd | ParserState::BodyFinished => (ParserState::Finished, length),
        _ => (state, length),
    }
}

/// A byte of the version that must be `expected`, going on to `next`.
pub open spec fn version_byte(expected: u8, next: ParserState, length: usize, b: u8) -> Result<
    MessagePosition,
    ParserError,
> {
    if b == expected {
        Ok((next, length))
    } else {
        Err(ParserError::Version(b))
    }
}

/// A version digit, going on to `next`.
pub open spec fn version_digit_byte(next: ParserState, length: usize, b: u8) -> Result<
    MessagePosition,
    ParserError,
> {
    if spec_is_digit(b) {
        Ok((next, length))
    } else {
        Err(ParserError::Version(b))
    }
}

/// A status code digit, going on to `next`.
pub open spec fn status_code_digit_byte(next: ParserState, length: usize, b: u8) -> Result<
    MessagePosition,
    ParserError,
> {
    if spec_is_digit(b) {
        Ok((next, length))
    } else {
        Err(ParserError::StatusCode(b))
    }
}

/// The byte after a chunk length: a carriage return ends the length line (a zero length goes
/// on to the trailers), and a `;` starts an extension.
pub open spec fn chunk_length_end_byte(length: usize, b: u8) -> Result<
    MessagePosition,
    ParserError,
> {
    if b == 0x0D {
        if length == 0 {
            Ok((ParserState::HeaderLf1, length))
        } else {
            Ok((ParserState::ChunkLengthLf, length))
        }
    } else if b == 0x3B {
        Ok((ParserState::StripChunkExtensionName, length))
    } else {
        Err(ParserError::ChunkLength(b))
    }
}

/// A byte within a chunk length: a hex digit extends the length and goes on to `next`; any
/// other byte ends the length.
pub open spec fn chunk_length_digit_byte(next: ParserState, length: usize, b: u8) -> Result<
    MessagePosition,
    ParserError,
> {
    if spec_is_hex(b) {
        Ok((next, (length * 16 + spec_hex_value(b)) as usize))
    } else {
        chunk_length_end_byte(length, b)
    }
}

/// The byte after a chunk extension: a carriage return ends the length line, anything else
/// starts the next extension.
pub open spec fn chunk_extension_end_byte(length: usize, b: u8) -> Result<
    MessagePosition,
    ParserError,
> {
    if b == 0x0D {
        Ok((ParserState::ChunkLengthLf, length))
    } else {
        Ok((ParserState::StripChunkExtensionName, length))
    }
}

/// A byte within a chunk extension name.
pub open spec fn chunk_extension_name_byte(length: usize, b: u8) -> Result<
    MessagePosition,
    ParserError,
> {
    if spec_is_token(b) {
        Ok((ParserState::LowerChunkExtensionName, length))
    } else if b == 0x3D {
        Ok((ParserState::StripChunkExtensionValue, length))
    } else if b == 0x0D || b == 0x3B {
        chunk_extension_end_byte(length, b)
    } else {
        Err(ParserError::ChunkExtensionName(b))
    }
}

/// A byte within an unquoted chunk extension value.
pub open spec fn chunk_extension_value_byte(length: usize, b: u8) -> Result<
    MessagePosition,
    ParserError,
> {
    if spec_collects(Collect::ExtensionValue, b) {
        Ok((ParserState::ChunkExtensionValue, length))
    } else if b == 0x0D || b == 0x3B {
        chunk_extension_end_byte(length, b)
    } else if b == 0x22 {
        Ok((ParserState::ChunkExtensionQuotedValue, length))
    } else {
        Err(ParserError::ChunkExtensionValue(b))
    }
}

/// A byte within a header or trailer name.
pub open spec fn header_name_byte(length: usize, b: u8) -> Result<MessagePosition, ParserError> {
    if spec_is_token(b) {
        Ok((ParserState::LowerHeaderName, length))
    } else if b == 0x3A {
        Ok((ParserState::StripHeaderValue, length))
    } else {
        Err(ParserError::HeaderName(b))
    }
}

/// The first byte of a header or trailer line: a space or tab continues the previous value.
pub open spec fn header_line_byte(length: usize, b: u8) -> Result<MessagePosition, ParserError> {
    if b == 0x20 || b == 0x09 {
        Ok((ParserState::HeaderValue, length))
    } else {
        header_name_byte(length, b)
    }
}

/// A byte within an unquoted header or trailer value.
pub open spec fn header_value_byte(length: usize, b: u8) -> Result<MessagePosition, ParserError> {
    if spec_is_header_field(b) {
        Ok((ParserState::HeaderValue, length))
    } else if b == 0x0D {
        Ok((ParserState::HeaderLf1, length))
    } else if b == 0x22 {
        Ok((ParserState::HeaderQuotedValue, length))
    } else {
        Err(ParserError::HeaderValue(b))
    }
}

/// The head or chunked position after the byte `b`, or the error on a byte that the state does
/// not take. A request line is an upper-case method, a space, a visible URL, a space and an
/// `HTTP/` version of one to three digit numbers, ended by a carriage return; a response line
/// is such a version, a space, a three digit status code, a space and a status, ended by a
/// carriage return. Chunk lengths are hex numbers ended by a carriage return and line feed or
/// by extensions; a chunk's data is as many bytes as its length; a zero length starts the
/// trailers. Headers and trailers end at an empty line. The final state reads nothing.
pub open spec fn message_byte(q: MessagePosition, b: u8) -> Result<MessagePosition, ParserError> {
    let (state, length) = q;
    match state {
        ParserState::RequestMethod => if spec_is_upper(b) {
            Ok((ParserState::RequestMethod, length))
        } else if b == 0x20 {
            Ok((ParserState::RequestUrl1, length))
        } else {
            Err(ParserError::Method(b))
        },
        ParserState::RequestUrl1 => if spec_is_visible_7bit(b) {
            Ok((ParserState::RequestUrl2, length))
        } else {
            Err(ParserError::Url(b))
        },
        ParserState::RequestUrl2 => if spec_is_visible_7bit(b) {
            Ok((ParserState::RequestUrl2, length))
        } else if b == 0x20 {
            Ok((ParserState::RequestHttp1, length))
        } else {
            Err(ParserError::Url(b))
        },
        ParserState::RequestHttp1 => version_byte(0x48, ParserState::RequestHttp2, length, b),
        ParserState::RequestHttp2 => version_byte(0x54, ParserState::RequestHttp3, length, b),
        ParserState::RequestHttp3 => version_byte(0x54, ParserState::RequestHttp4, length, b),
        ParserState::RequestHttp4 => version_byte(0x50, ParserState::RequestHttp5, length, b),
        ParserState::RequestHttp5 => version_byte(
            0x2F,
            ParserState::RequestVersionMajor1,
            length,
            b,
        ),
        ParserState::RequestVersionMajor1 => version_digit_byte(
            ParserState::RequestVersionMajor2,
            length,
            b,
        ),
        ParserState::RequestVersionMajor2 => if b == 0x2E {
            Ok((ParserState::RequestVersionMinor1, length))
        } else {
            version_digit_byte(ParserState::RequestVersionMajor3, length, b)
        },
        ParserState::RequestVersionMajor3 => if b == 0x2E {
            Ok((ParserState::RequestVersionMinor1, length))
        } else {
            version_digit_byte(ParserState::RequestVersionPeriod, length, b)
        },
        ParserState::RequestVersionPeriod => version_byte(
            0x2E,
            ParserState::RequestVersionMinor1,
            length,
            b,
        ),
        ParserState::RequestVersionMinor1 => version_digit_byte(
            ParserState::RequestVersionMinor2,
            length,
            b,
        ),
        ParserState::RequestVersionMinor2 => if b == 0x0D {
            Ok((ParserState::InitialLf, length))
        } else {
            version_digit_byte(ParserState::RequestVersionMinor3, length, b)
        },
        ParserState::RequestVersionMinor3 => if b == 0x0D {
            Ok((ParserState::InitialLf, length))
        } else {
            version_digit_byte(ParserState::RequestVersionCr, length, b)
        },
        ParserState::RequestVersionCr => version_byte(0x0D, ParserState::InitialLf, length, b),
        ParserState::ResponseVersionMajor1 => version_digit_byte(
            ParserState::ResponseVersionMajor2,
            length,
            b,
        ),
        ParserState::ResponseVersionMajor2 => if b == 0x2E {
            Ok((ParserState::ResponseVersionMinor1, length))
        } else {
            version_digit_byte(ParserState::ResponseVersionMajor3, length, b)
        },
        ParserState::ResponseVersionMajor3 => if b == 0x2E {
            Ok((ParserState::ResponseVersionMinor1, length))
        } else {
            version_digit_byte(ParserState::ResponseVersionPeriod, length, b)
        },
        ParserState::ResponseVersionPeriod => version_byte(
            0x2E,
            ParserState::ResponseVersionMinor1,
            length,
            b,
        ),
        ParserState::ResponseVersionMinor1 => version_digit_byte(
            ParserState::ResponseVersionMinor2,
            length,
            b,
        ),
        ParserState::ResponseVersionMinor2 => if b == 0x20 {
            Ok((ParserState::ResponseStatusCode1, length))
        } else {
            version_digit_byte(ParserState::ResponseVersionMinor3, length, b)
        },
        ParserState::ResponseVersionMinor3 => if b == 0x20 {
            Ok((ParserState::ResponseStatusCode1, length))
        } else {
            version_digit_byte(ParserState::ResponseVersionSpace, length, b)
        },
        ParserState::ResponseVersionSpace => version_byte(
            0x20,
            ParserState::ResponseStatusCode1,
            length,
            b,
        ),
        ParserState::ResponseStatusCode1 => status_code_digit_byte(
            ParserState::ResponseStatusCode2,
            length,
            b,
        ),
        ParserState::ResponseStatusCode2 => status_code_digit_byte(
            ParserState::ResponseStatusCode3,
            length,
            b,
        ),
        ParserState::ResponseStatusCode3 => status_code_digit_byte(
            ParserState::ResponseStatusCodeSpace,
            length,
            b,
        ),
        ParserState::ResponseStatusCodeSpace => if b == 0x20 {
            Ok((ParserState::ResponseStatus1, length))
        } else {
            Err(ParserError::StatusCode(b))
        },
        ParserState::ResponseStatus1 => if spec_collects(Collect::Status, b) {
            Ok((ParserState::ResponseStatus2, length))
        } else {
            Err(ParserError::Status(b))
        },
        ParserState::ResponseStatus2 => if spec_collects(Collect::Status, b) {
            Ok((ParserState::ResponseStatus2, length))
        } else if b == 0x0D {
            Ok((ParserState::InitialLf, length))
        } else {
            Err(ParserError::Status(b))
        },
        ParserState::InitialEnd | ParserState::InitialLf => if b == 0x0A {
            Ok((ParserState::HeaderCr2, length))
        } else {
            Err(ParserError::CrlfSequence(b))
        },
        ParserState::ChunkLength1 => if b == 0x30 {
            Ok((ParserState::ChunkLengthCr, length))
        } else if spec_is_hex(b) {
            Ok((ParserState::ChunkLength2, spec_hex_value(b) as usize))
        } else {
            Err(ParserError::ChunkLength(b))
        },
        ParserState::ChunkLength2 => chunk_length_digit_byte(ParserState::ChunkLength3, length, b),
        ParserState::ChunkLength3 => chunk_length_digit_byte(ParserState::ChunkLength4, length, b),
        ParserState::ChunkLength4 => chunk_length_digit_byte(ParserState::ChunkLength5, length, b),
        ParserState::ChunkLength5 => chunk_length_digit_byte(ParserState::ChunkLength6, length, b),
        ParserState::ChunkLength6 => chunk_length_digit_byte(ParserState::ChunkLength7, length, b),
        ParserState::ChunkLength7 => chunk_length_digit_byte(ParserState::ChunkLength8, length, b),
        ParserState::ChunkLength8 => chunk_length_digit_byte(ParserState::ChunkLengthCr, length, b),
        ParserState::ChunkLengthCr => chunk_length_end_byte(length, b),
        ParserState::ChunkLengthLf | ParserState::ChunkExtensionsFinished => if b == 0x0A {
            Ok(message_settle(ParserState::ChunkData, length))
        } else {
            Err(ParserError::CrlfSequence(b))
        },
        ParserState::StripChunkExtensionName => if b == 0x20 || b == 0x09 {
            Ok((ParserState::StripChunkExtensionName, length))
        } else if spec_is_visible_7bit(b) {
            chunk_extension_name_byte(length, b)
        } else {
            Err(ParserError::ChunkExtensionName(b))
        },
        ParserState::UpperChunkExtensionName | ParserState::LowerChunkExtensionName =>
            chunk_extension_name_byte(length, b),
        ParserState::StripChunkExtensionValue => if b == 0x20 || b == 0x09 {
            Ok((ParserState::StripChunkExtensionValue, length))
        } else if spec_is_visible_7bit(b) {
            chunk_extension_value_byte(length, b)
        } else {
            Err(ParserError::ChunkExtensionValue(b))
        },
        ParserState::ChunkExtensionValue => chunk_extension_value_byte(length, b),
        ParserState::ChunkExtensionQuotedValue => if spec_is_quoted_header_field(b) {
            Ok((ParserState::ChunkExtensionQuotedValue, length))
        } else if b == 0x22 {
            Ok((ParserState::ChunkExtensionValue, length))
        } else if b == 0x5C {
            Ok((ParserState::ChunkExtensionEscapedValue, length))
        } else {
            Err(ParserError::ChunkExtensionValue(b))
        },
        ParserState::ChunkExtensionEscapedValue => if b > 0x1F && b < 0x7B {
            Ok((ParserState::ChunkExtensionQuotedValue, length))
        } else {
            Err(ParserError::ChunkExtensionValue(b))
        },
        ParserState::ChunkExtensionFinished => chunk_extension_end_byte(length, b),
        ParserState::ChunkData => if length > 1 {
            Ok((ParserState::ChunkData, (length - 1) as usize))
        } else if length == 1 {
            Ok((ParserState::ChunkDataCr, 0))
        } else if b == 0x0D {
            Ok((ParserState::ChunkDataLf, length))
        } else {
            Err(ParserError::CrlfSequence(b))
        },
        ParserState::ChunkDataCr => if b == 0x0D {
            Ok((ParserState::ChunkDataLf, length))
        } else {
            Err(ParserError::CrlfSequence(b))
        },
        ParserState::ChunkDataLf => if b == 0x0A {
            Ok((ParserState::ChunkLength1, length))
        } else {
            Err(ParserError::CrlfSequence(b))
        },
        ParserState::HeaderLf1 => if b == 0x0A {
            Ok((ParserState::HeaderCr2, length))
        } else {
            Err(ParserError::CrlfSequence(b))
        },
        ParserState::HeaderCr2 => if b == 0x0D {
            Ok((ParserState::HeaderLf2, length))
        } else {
            header_line_byte(length, b)
        },
        ParserState::HeaderLf2 => if b == 0x0A {
            Ok((ParserState::Finished, length))
        } else {
            Err(ParserError::CrlfSequence(b))
        },
        ParserState::CheckHeaderName => header_line_byte(length, b),
        ParserState::FirstHeaderName | ParserState::UpperHeaderName
        | ParserState::LowerHeaderName => header_name_byte(length, b),
        ParserState::StripHeaderValue => if b == 0x20 || b == 0x09 {
            Ok((ParserState::StripHeaderValue, length))
        } else if spec_is_visible_7bit(b) {
            header_value_byte(length, b)
        } else {
            Err(ParserError::HeaderValue(b))
        },
        ParserState::HeaderValue => header_value_byte(length, b),
        ParserState::HeaderQuotedValue => if spec_is_quoted_header_field(b) {
            Ok((ParserState::HeaderQuotedValue, length))
        } else if b == 0x22 {
            Ok((ParserState::HeaderValue, length))
        } else if b == 0x5C {
            Ok((ParserState::HeaderEscapedValue, length))
        } else {
            Err(ParserError::HeaderValue(b))
        },
        ParserState::HeaderEscapedValue => if b > 0x1F && b < 0x7B {
            Ok((ParserState::HeaderQuotedValue, length))
        } else {
            Err(ParserError::HeaderValue(b))
        },
        _ => Err(ParserError::Dead),
    }
}

/// The head or chunked position after the bytes `s`, read one at a time from `q`, or the error
/// on the first byte not taken.
pub open spec fn message_run(q: MessagePosition, s: Seq<u8>) -> Result<
    MessagePosition,
    ParserError,
>
    decreases s.len(),
{
    if s.len() == 0 {
        Ok(q)
    } else {
        match message_run(q, s.drop_last()) {
            Ok(q1) => message_byte(q1, s.last()),
            Err(e) => Err(e),
        }
    }
}

/// Head and chunked data read the same whatever pieces they come in: reading `a` and then `b`
/// from where `a` left off gives what reading `a + b` at once gives, position or error.
pub proof fn law_message_pieces(q: MessagePosition, a: Seq<u8>, b: Seq<u8>)
    ensures
        message_run(q, a + b) == match message_run(q, a) {
            Ok(q1) => message_run(q1, b),
            Err(e) => Err(e),
        },
    decreases b.len(),
{
    if b.len() == 0 {
        assert(a + b =~= a);
    } else {
        assert((a + b).drop_last() =~= a + b.drop_last());
        assert((a + b).last() == b.last());
        law_message_pieces(q, a, b.drop_last());
    }
}

/// Reading bytes from a position depends on the position only through how it reads the first
/// byte.
proof fn lemma_message_run_first(q: MessagePosition, s: Seq<u8>)
    requires
        s.len() > 0,
    ensures
        message_run(q, s) == match message_byte(q, s[0]) {
            Ok(q1) => message_run(q1, s.subrange(1, s.len() as int)),
            Err(e) => Err(e),
        },
{
    let a = s.subrange(0, 1);
    let b = s.subrange(1, s.len() as int);
    assert(a + b =~= s);
    assert(a.drop_last() =~= Seq::<u8>::empty());
    assert(message_run(q, a.drop_last()) == Ok::<MessagePosition, ParserError>(q));
    assert(a.last() == s[0]);
    assert(message_run(q, a) == message_byte(q, s[0]));
    law_message_pieces(q, a, b);
}

/// The position `q` stands for where parser `p` is with `c` left to read: it is the parser's
/// position, or it reads the next byte of `c` as the parser's position does.
pub closed spec fn message_tracks<'b>(q: MessagePosition, p: Parser<'b>, c: ByteStream) -> bool {
    ||| q == p.message_position()
    ||| next_byte(c) matches Some(b) && message_byte(q, b) == message_byte(p.message_position(), b)
}

/// Reading `bytes` from `q` gives what a state function call gives: the error it fails with, or
/// a position that the parser after the call stands for.
pub open spec fn message_follows<'b>(
    q: MessagePosition,
    p1: Parser<'b>,
    c1: ByteStream,
    bytes: Seq<u8>,
    r: Result<ParserValue, ParserError>,
) -> bool {
    match r {
        Err(e) => message_run(q, bytes) == Err::<MessagePosition, ParserError>(e),
        Ok(_) => match message_run(q, bytes) {
            Ok(q1) => message_tracks(q1, p1, c1),
            Err(_) => false,
        },
    }
}

/// A head or chunked state function call reads its bytes as `message_run` does from the
/// parser's position, and stays among the states that `message_byte` describes.
pub open spec fn message_step<'b>(
    p0: Parser<'b>,
    p1: Parser<'b>,
    c0: ByteStream,
    c1: ByteStream,
    r: Result<ParserValue, ParserError>,
) -> bool {
    &&& message_follows(
        p0.message_position(),
        p1,
        c1,
        c0.stream@.subrange(c0.stream_index as int, c1.stream_index as int),
        r,
    )
    &&& (r is Ok ==> message_reading_state(p1.spec_state()))
}

/// Reading no byte leaves a position as it is, and reading one byte reads it as
/// `message_byte` does.
proof fn lemma_message_run_short(q: MessagePosition)
    ensures
        forall|s: Seq<u8>| s.len() == 0 ==> #[trigger] message_run(q, s) == Ok::<
            MessagePosition,
            ParserError,
        >(q),
        forall|s: Seq<u8>| s.len() == 1 ==> #[trigger] message_run(q, s) == message_byte(q, s[0]),
        forall|s: Seq<u8>| s.len() == 2 ==> #[trigger] message_run(q, s) == match message_byte(
            q,
            s[0],
        ) {
            Ok(q1) => message_byte(q1, s[1]),
            Err(e) => Err(e),
        },
{
    assert forall|s: Seq<u8>| s.len() == 2 implies #[trigger] message_run(q, s) == match message_byte(
        q,
        s[0],
    ) {
        Ok(q1) => message_byte(q1, s[1]),
        Err(e) => Err(e),
    } by {
        let a = s.drop_last();
        assert(a.drop_last() =~= Seq::<u8>::empty());
        assert(message_run(q, a.drop_last()) == Ok::<MessagePosition, ParserError>(q));
        assert(a.last() == s[0]);
        assert(message_run(q, a) == message_byte(q, s[0]));
        assert(s.last() == s[1]);
    }
    assert forall|s: Seq<u8>| s.len() == 1 implies #[trigger] message_run(q, s) == message_byte(
        q,
        s[0],
    ) by {
        assert(s.drop_last() =~= Seq::<u8>::empty());
        assert(message_run(q, s.drop_last()) == Ok::<MessagePosition, ParserError>(q));
        assert(s.last() == s[0]);
    }
}

/// Reading bytes that a position keeps to leaves it where it is.
proof fn lemma_message_run_stay(q: MessagePosition, t: Seq<u8>, c: Collect)
    requires
        forall|j: int| 0 <= j < t.len() ==> spec_collects(c, #[trigger] t[j]),
        forall|b: u8|
            spec_collects(c, b) ==> #[trigger] message_byte(q, b) == Ok::<MessagePosition, ParserError>(
                q,
            ),
    ensures
        message_run(q, t) == Ok::<MessagePosition, ParserError>(q),
    decreases t.len(),
{
    if t.len() > 0 {
        assert(spec_collects(c, t[t.len() - 1]));
        lemma_message_run_stay(q, t.drop_last(), c);
    }
}

/// What `collect` leaves behind, read from a position that keeps to the collected class: the
/// collected bytes leave the position as it is, and the byte found after them, if any, is read
/// from there.
proof fn lemma_message_collect(
    q: MessagePosition,
    s: Seq<u8>,
    i0: int,
    i1: int,
    found: bool,
    c: Collect,
)
    requires
        0 <= i0 <= i1 <= s.len(),
        found ==> i0 < i1,
        forall|j: int|
            i0 <= j < (if found {
                i1 - 1
            } else {
                i1
            }) ==> spec_collects(c, #[trigger] s[j]),
        forall|b: u8|
            spec_collects(c, b) ==> #[trigger] message_byte(q, b) == Ok::<MessagePosition, ParserError>(
                q,
            ),
    ensures
        message_run(
            q,
            s.subrange(
                i0,
                if found {
                    i1 - 1
                } else {
                    i1
                },
            ),
        ) == Ok::<MessagePosition, ParserError>(q),
        found ==> message_run(q, s.subrange(i0, i1)) == message_byte(q, s[i1 - 1]),
{
    let k = if found {
        i1 - 1
    } else {
        i1
    };
    let t = s.subrange(i0, k);
    assert forall|j: int| 0 <= j < t.len() implies spec_collects(c, #[trigger] t[j]) by {
        assert(t[j] == s[i0 + j]);
    }
    lemma_message_run_stay(q, t, c);
    if found {
        let x = s.subrange(i0, i1);
        assert(x.drop_last() =~= t);
        assert(x.last() == s[i1 - 1]);
    }
}

/// Reading chunk data from a chunk of `length` bytes, no more than the chunk holds, leaves the
/// rest of the chunk to read, or its end once all of it is read.
proof fn lemma_message_data_run(length: usize, t: Seq<u8>)
    requires
        0 < length,
        t.len() <= length,
    ensures
        message_run((ParserState::ChunkData, length), t) == Ok::<MessagePosition, ParserError>(
            message_settle(ParserState::ChunkData, (length - t.len()) as usize),
        ),
    decreases t.len(),
{
    if t.len() > 0 {
        lemma_message_data_run(length, t.drop_last());
    }
}

/// A header name as the first header name state takes it at once, from index `i` of `t` on:
/// token bytes and a colon.
pub open spec fn tokens_then_colon(t: Seq<u8>, i: int) -> bool
    decreases t.len() - i,
{
    if i < 0 || i >= t.len() {
        false
    } else if i == t.len() - 1 {
        t[i] == 0x3A
    } else {
        spec_is_token(t[i]) && tokens_then_colon(t, i + 1)
    }
}

/// A stream whose bytes from `i` on start with `p` holds `p` less its last byte from `i` on.
proof fn lemma_starts_at_prefix(s: Seq<u8>, i: int, p: Seq<u8>)
    requires
        0 <= i,
        starts_at(s, i, p),
        p.len() > 0,
    ensures
        s.subrange(i, i + p.len() - 1) == p.drop_last(),
{
    assert(s.subrange(i, i + p.len() - 1) =~= s.subrange(i, i + p.len()).drop_last());
}

/// The common header names that the first header name state takes at once are handed on
/// lower-cased, without their colon.
#[verifier::rlimit(100)]
proof fn lemma_header_name_shortcut_names(c: ByteStream)
    ensures
        header_name_shortcut(c) matches Some(n) ==> header_name_shortcut_name(c) == lower_bytes(
            c.stream@.subrange(c.stream_index as int, c.stream_index + n - 1),
        ),
{
    let s = c.stream@;
    let i = c.stream_index as int;
    assert(starts_at(s, i, seq![0x41u8, 0x63, 0x63, 0x65, 0x70, 0x74, 0x3A]) ==> lower_bytes(s.subrange(i, i + 6)) == seq![0x61u8, 0x63, 0x63, 0x65, 0x70, 0x74]) by {
        if starts_at(s, i, seq![0x41u8, 0x63, 0x63, 0x65, 0x70, 0x74, 0x3A]) {
            lemma_starts_at_prefix(s, i, seq![0x41u8, 0x63, 0x63, 0x65, 0x70, 0x74, 0x3A]);
            assert(lower_bytes(seq![0x41u8, 0x63, 0x63, 0x65, 0x70, 0x74, 0x3A].drop_last()) =~= seq![0x61u8, 0x63, 0x63, 0x65, 0x70, 0x74]);
        }
    }
    assert(starts_at(s, i, seq![0x41u8, 0x63, 0x63, 0x65, 0x70, 0x74, 0x2D, 0x43, 0x68, 0x61, 0x72, 0x73, 0x65, 0x74, 0x3A]) ==> lower_bytes(s.subrange(i, i + 14)) == seq![0x61u8, 0x63, 0x63, 0x65, 0x70, 0x74, 0x2D, 0x63, 0x68, 0x61, 0x72, 0x73, 0x65, 0x74]) by {
        if starts_at(s, i, seq![0x41u8, 0x63, 0x63, 0x65, 0x70, 0x74, 0x2D, 0x43, 0x68, 0x61, 0x72, 0x73, 0x65, 0x74, 0x3A]) {
            lemma_starts_at_prefix(s, i, seq![0x41u8, 0x63, 0x63, 0x65, 0x70, 0x74, 0x2D, 0x43, 0x68, 0x61, 0x72, 0x73, 0x65, 0x74, 0x3A]);
            assert(lower_bytes(seq![0x41u8, 0x63, 0x63, 0x65, 0x70, 0x74, 0x2D, 0x43, 0x68, 0x61, 0x72, 0x73, 0x65, 0x74, 0x3A].drop_last()) =~= seq![0x61u8, 0x63, 0x63, 0x65, 0x70, 0x74, 0x2D, 0x63, 0x68, 0x61, 0x72, 0x73, 0x65, 0x74]);
        }
    }
    assert(starts_at(s, i, seq![0x41u8, 0x63, 0x63, 0x65, 0x70, 0x74, 0x2D, 0x45, 0x6E, 0x63, 0x6F, 0x64, 0x69, 0x6E, 0x67, 0x3A]) ==> lower_bytes(s.subrange(i, i + 15)) == seq![0x61u8, 0x63, 0x63, 0x65, 0x70, 0x74, 0x2D, 0x65, 0x6E, 0x63, 0x6F, 0x64, 0x69, 0x6E, 0x67]) by {
        if starts_at(s, i, seq![0x41u8, 0x63, 0x63, 0x65, 0x70, 0x74, 0x2D, 0x45, 0x6E, 0x63, 0x6F, 0x64, 0x69, 0x6E, 0x67, 0x3A]) {
            lemma_starts_at_prefix(s, i, seq![0x41u8, 0x63, 0x63, 0x65, 0x70, 0x74, 0x2D, 0x45, 0x6E, 0x63, 0x6F, 0x64, 0x69, 0x6E, 0x67, 0x3A]);
            assert(lower_bytes(seq![0x41u8, 0x63, 0x63, 0x65, 0x70, 0x74, 0x2D, 0x45, 0x6E, 0x63, 0x6F, 0x64, 0x69, 0x6E, 0x67, 0x3A].drop_last()) =~= seq![0x61u8, 0x63, 0x63, 0x65, 0x70, 0x74, 0x2D, 0x65, 0x6E, 0x63, 0x6F, 0x64, 0x69, 0x6E, 0x67]);
        }
    }
    assert(starts_at(s, i, seq![0x41u8, 0x63, 0x63, 0x65, 0x70, 0x74, 0x2D, 0x4C, 0x61, 0x6E, 0x67, 0x75, 0x61, 0x67, 0x65, 0x3A]) ==> lower_bytes(s.subrange(i, i + 15)) == seq![0x61u8, 0x63, 0x63, 0x65, 0x70, 0x74, 0x2D, 0x6C, 0x61, 0x6E, 0x67, 0x75, 0x61, 0x67, 0x65]) by {
        if starts_at(s, i, seq![0x41u8, 0x63, 0x63, 0x65, 0x70, 0x74, 0x2D, 0x4C, 0x61, 0x6E, 0x67, 0x75, 0x61, 0x67, 0x65, 0x3A]) {
            lemma_starts_at_prefix(s, i, seq![0x41u8, 0x63, 0x63, 0x65, 0x70, 0x74, 0x2D, 0x4C, 0x61, 0x6E, 0x67, 0x75, 0x61, 0x67, 0x65, 0x3A]);
            assert(lower_bytes(seq![0x41u8, 0x63, 0x63, 0x65, 0x70, 0x74, 0x2D, 0x4C, 0x61, 0x6E, 0x67, 0x75, 0x61, 0x67, 0x65, 0x3A].drop_last()) =~= seq![0x61u8, 0x63, 0x63, 0x65, 0x70, 0x74, 0x2D, 0x6C, 0x61, 0x6E, 0x67, 0x75, 0x61, 0x67, 0x65]);
        }
    }
    assert(starts_at(s, i, seq![0x41u8, 0x75, 0x74, 0x68, 0x6F, 0x72, 0x69, 0x7A, 0x61, 0x74, 0x69, 0x6F, 0x6E, 0x3A]) ==> lower_bytes(s.subrange(i, i + 13)) == seq![0x61u8, 0x75, 0x74, 0x68, 0x6F, 0x72, 0x69, 0x7A, 0x61, 0x74, 0x69, 0x6F, 0x6E]) by {
        if starts_at(s, i, seq![0x41u8, 0x75, 0x74, 0x68, 0x6F, 0x72, 0x69, 0x7A, 0x61, 0x74, 0x69, 0x6F, 0x6E, 0x3A]) {
            lemma_starts_at_prefix(s, i, seq![0x41u8, 0x75, 0x74, 0x68, 0x6F, 0x72, 0x69, 0x7A, 0x61, 0x74, 0x69, 0x6F, 0x6E, 0x3A]);
            assert(lower_bytes(seq![0x41u8, 0x75, 0x74, 0x68, 0x6F, 0x72, 0x69, 0x7A, 0x61, 0x74, 0x69, 0x6F, 0x6E, 0x3A].drop_last()) =~= seq![0x61u8, 0x75, 0x74, 0x68, 0x6F, 0x72, 0x69, 0x7A, 0x61, 0x74, 0x69, 0x6F, 0x6E]);
        }
    }
    assert(starts_at(s, i, seq![0x48u8, 0x6F, 0x73, 0x74, 0x3A]) ==> lower_bytes(s.subrange(i, i + 4)) == seq![0x68u8, 0x6F, 0x73, 0x74]) by {
        if starts_at(s, i, seq![0x48u8, 0x6F, 0x73, 0x74, 0x3A]) {
            lemma_starts_at_prefix(s, i, seq![0x48u8, 0x6F, 0x73, 0x74, 0x3A]);
            assert(lower_bytes(seq![0x48u8, 0x6F, 0x73, 0x74, 0x3A].drop_last()) =~= seq![0x68u8, 0x6F, 0x73, 0x74]);
        }
    }
    assert(starts_at(s, i, seq![0x55u8, 0x73, 0x65, 0x72, 0x2D, 0x41, 0x67, 0x65, 0x6E, 0x74, 0x3A]) ==> lower_bytes(s.subrange(i, i + 10)) == seq![0x75u8, 0x73, 0x65, 0x72, 0x2D, 0x61, 0x67, 0x65, 0x6E, 0x74]) by {
        if starts_at(s, i, seq![0x55u8, 0x73, 0x65, 0x72, 0x2D, 0x41, 0x67, 0x65, 0x6E, 0x74, 0x3A]) {
            lemma_starts_at_prefix(s, i, seq![0x55u8, 0x73, 0x65, 0x72, 0x2D, 0x41, 0x67, 0x65, 0x6E, 0x74, 0x3A]);
            assert(lower_bytes(seq![0x55u8, 0x73, 0x65, 0x72, 0x2D, 0x41, 0x67, 0x65, 0x6E, 0x74, 0x3A].drop_last()) =~= seq![0x75u8, 0x73, 0x65, 0x72, 0x2D, 0x61, 0x67, 0x65, 0x6E, 0x74]);
        }
    }
    assert(starts_at(s, i, seq![0x55u8, 0x70, 0x67, 0x72, 0x61, 0x64, 0x65, 0x3A]) ==> lower_bytes(s.subrange(i, i + 7)) == seq![0x75u8, 0x70, 0x67, 0x72, 0x61, 0x64, 0x65]) by {
        if starts_at(s, i, seq![0x55u8, 0x70, 0x67, 0x72, 0x61, 0x64, 0x65, 0x3A]) {
            lemma_starts_at_prefix(s, i, seq![0x55u8, 0x70, 0x67, 0x72, 0x61, 0x64, 0x65, 0x3A]);
            assert(lower_bytes(seq![0x55u8, 0x70, 0x67, 0x72, 0x61, 0x64, 0x65, 0x3A].drop_last()) =~= seq![0x75u8, 0x70, 0x67, 0x72, 0x61, 0x64, 0x65]);
        }
    }
    assert(starts_at(s, i, seq![0x43u8, 0x6F, 0x6E, 0x6E, 0x65, 0x63, 0x74, 0x69, 0x6F, 0x6E, 0x3A]) ==> lower_bytes(s.subrange(i, i + 10)) == seq![0x63u8, 0x6F, 0x6E, 0x6E, 0x65, 0x63, 0x74, 0x69, 0x6F, 0x6E]) by {
        if starts_at(s, i, seq![0x43u8, 0x6F, 0x6E, 0x6E, 0x65, 0x63, 0x74, 0x69, 0x6F, 0x6E, 0x3A]) {
            lemma_starts_at_prefix(s, i, seq![0x43u8, 0x6F, 0x6E, 0x6E, 0x65, 0x63, 0x74, 0x69, 0x6F, 0x6E, 0x3A]);
            assert(lower_bytes(seq![0x43u8, 0x6F, 0x6E, 0x6E, 0x65, 0x63, 0x74, 0x69, 0x6F, 0x6E, 0x3A].drop_last()) =~= seq![0x63u8, 0x6F, 0x6E, 0x6E, 0x65, 0x63, 0x74, 0x69, 0x6F, 0x6E]);
        }
    }
    assert(starts_at(s, i, seq![0x43u8, 0x6F, 0x6E, 0x74, 0x65, 0x6E, 0x74, 0x2D, 0x54, 0x79, 0x70, 0x65, 0x3A]) ==> lower_bytes(s.subrange(i, i + 12)) == seq![0x63u8, 0x6F, 0x6E, 0x74, 0x65, 0x6E, 0x74, 0x2D, 0x74, 0x79, 0x70, 0x65]) by {
        if starts_at(s, i, seq![0x43u8, 0x6F, 0x6E, 0x74, 0x65, 0x6E, 0x74, 0x2D, 0x54, 0x79, 0x70, 0x65, 0x3A]) {
            lemma_starts_at_prefix(s, i, seq![0x43u8, 0x6F, 0x6E, 0x74, 0x65, 0x6E, 0x74, 0x2D, 0x54, 0x79, 0x70, 0x65, 0x3A]);
            assert(lower_bytes(seq![0x43u8, 0x6F, 0x6E, 0x74, 0x65, 0x6E, 0x74, 0x2D, 0x54, 0x79, 0x70, 0x65, 0x3A].drop_last()) =~= seq![0x63u8, 0x6F, 0x6E, 0x74, 0x65, 0x6E, 0x74, 0x2D, 0x74, 0x79, 0x70, 0x65]);
        }
    }
    assert(starts_at(s, i, seq![0x43u8, 0x6F, 0x6E, 0x74, 0x65, 0x6E, 0x74, 0x2D, 0x4C, 0x65, 0x6E, 0x67, 0x74, 0x68, 0x3A]) ==> lower_bytes(s.subrange(i, i + 14)) == seq![0x63u8, 0x6F, 0x6E, 0x74, 0x65, 0x6E, 0x74, 0x2D, 0x6C, 0x65, 0x6E, 0x67, 0x74, 0x68]) by {
        if starts_at(s, i, seq![0x43u8, 0x6F, 0x6E, 0x74, 0x65, 0x6E, 0x74, 0x2D, 0x4C, 0x65, 0x6E, 0x67, 0x74, 0x68, 0x3A]) {
            lemma_starts_at_prefix(s, i, seq![0x43u8, 0x6F, 0x6E, 0x74, 0x65, 0x6E, 0x74, 0x2D, 0x4C, 0x65, 0x6E, 0x67, 0x74, 0x68, 0x3A]);
            assert(lower_bytes(seq![0x43u8, 0x6F, 0x6E, 0x74, 0x65, 0x6E, 0x74, 0x2D, 0x4C, 0x65, 0x6E, 0x67, 0x74, 0x68, 0x3A].drop_last()) =~= seq![0x63u8, 0x6F, 0x6E, 0x74, 0x65, 0x6E, 0x74, 0x2D, 0x6C, 0x65, 0x6E, 0x67, 0x74, 0x68]);
        }
    }
    assert(starts_at(s, i, seq![0x43u8, 0x6F, 0x6F, 0x6B, 0x69, 0x65, 0x3A]) ==> lower_bytes(s.subrange(i, i + 6)) == seq![0x63u8, 0x6F, 0x6F, 0x6B, 0x69, 0x65]) by {
        if starts_at(s, i, seq![0x43u8, 0x6F, 0x6F, 0x6B, 0x69, 0x65, 0x3A]) {
            lemma_starts_at_prefix(s, i, seq![0x43u8, 0x6F, 0x6F, 0x6B, 0x69, 0x65, 0x3A]);
            assert(lower_bytes(seq![0x43u8, 0x6F, 0x6F, 0x6B, 0x69, 0x65, 0x3A].drop_last()) =~= seq![0x63u8, 0x6F, 0x6F, 0x6B, 0x69, 0x65]);
        }
    }
    assert(starts_at(s, i, seq![0x43u8, 0x61, 0x63, 0x68, 0x65, 0x2D, 0x43, 0x6F, 0x6E, 0x74, 0x72, 0x6F, 0x6C, 0x3A]) ==> lower_bytes(s.subrange(i, i + 13)) == seq![0x63u8, 0x61, 0x63, 0x68, 0x65, 0x2D, 0x63, 0x6F, 0x6E, 0x74, 0x72, 0x6F, 0x6C]) by {
        if starts_at(s, i, seq![0x43u8, 0x61, 0x63, 0x68, 0x65, 0x2D, 0x43, 0x6F, 0x6E, 0x74, 0x72, 0x6F, 0x6C, 0x3A]) {
            lemma_starts_at_prefix(s, i, seq![0x43u8, 0x61, 0x63, 0x68, 0x65, 0x2D, 0x43, 0x6F, 0x6E, 0x74, 0x72, 0x6F, 0x6C, 0x3A]);
            assert(lower_bytes(seq![0x43u8, 0x61, 0x63, 0x68, 0x65, 0x2D, 0x43, 0x6F, 0x6E, 0x74, 0x72, 0x6F, 0x6C, 0x3A].drop_last()) =~= seq![0x63u8, 0x61, 0x63, 0x68, 0x65, 0x2D, 0x63, 0x6F, 0x6E, 0x74, 0x72, 0x6F, 0x6C]);
        }
    }
    assert(starts_at(s, i, seq![0x43u8, 0x6F, 0x6E, 0x74, 0x65, 0x6E, 0x74, 0x2D, 0x53, 0x65, 0x63, 0x75, 0x72, 0x69, 0x74, 0x79, 0x2D, 0x50, 0x6F, 0x6C, 0x69, 0x63, 0x79, 0x3A]) ==> lower_bytes(s.subrange(i, i + 23)) == seq![0x63u8, 0x6F, 0x6E, 0x74, 0x65, 0x6E, 0x74, 0x2D, 0x73, 0x65, 0x63, 0x75, 0x72, 0x69, 0x74, 0x79, 0x2D, 0x70, 0x6F, 0x6C, 0x69, 0x63, 0x79]) by {
        if starts_at(s, i, seq![0x43u8, 0x6F, 0x6E, 0x74, 0x65, 0x6E, 0x74, 0x2D, 0x53, 0x65, 0x63, 0x75, 0x72, 0x69, 0x74, 0x79, 0x2D, 0x50, 0x6F, 0x6C, 0x69, 0x63, 0x79, 0x3A]) {
            lemma_starts_at_prefix(s, i, seq![0x43u8, 0x6F, 0x6E, 0x74, 0x65, 0x6E, 0x74, 0x2D, 0x53, 0x65, 0x63, 0x75, 0x72, 0x69, 0x74, 0x79, 0x2D, 0x50, 0x6F, 0x6C, 0x69, 0x63, 0x79, 0x3A]);
            assert(lower_bytes(seq![0x43u8, 0x6F, 0x6E, 0x74, 0x65, 0x6E, 0x74, 0x2D, 0x53, 0x65, 0x63, 0x75, 0x72, 0x69, 0x74, 0x79, 0x2D, 0x50, 0x6F, 0x6C, 0x69, 0x63, 0x79, 0x3A].drop_last()) =~= seq![0x63u8, 0x6F, 0x6E, 0x74, 0x65, 0x6E, 0x74, 0x2D, 0x73, 0x65, 0x63, 0x75, 0x72, 0x69, 0x74, 0x79, 0x2D, 0x70, 0x6F, 0x6C, 0x69, 0x63, 0x79]);
        }
    }
    assert(starts_at(s, i, seq![0x4Cu8, 0x6F, 0x63, 0x61, 0x74, 0x69, 0x6F, 0x6E, 0x3A]) ==> lower_bytes(s.subrange(i, i + 8)) == seq![0x6Cu8, 0x6F, 0x63, 0x61, 0x74, 0x69, 0x6F, 0x6E]) by {
        if starts_at(s, i, seq![0x4Cu8, 0x6F, 0x63, 0x61, 0x74, 0x69, 0x6F, 0x6E, 0x3A]) {
            lemma_starts_at_prefix(s, i, seq![0x4Cu8, 0x6F, 0x63, 0x61, 0x74, 0x69, 0x6F, 0x6E, 0x3A]);
            assert(lower_bytes(seq![0x4Cu8, 0x6F, 0x63, 0x61, 0x74, 0x69, 0x6F, 0x6E, 0x3A].drop_last()) =~= seq![0x6Cu8, 0x6F, 0x63, 0x61, 0x74, 0x69, 0x6F, 0x6E]);
        }
    }
    assert(starts_at(s, i, seq![0x4Cu8, 0x61, 0x73, 0x74, 0x2D, 0x4D, 0x6F, 0x64, 0x69, 0x66, 0x69, 0x65, 0x64, 0x3A]) ==> lower_bytes(s.subrange(i, i + 13)) == seq![0x6Cu8, 0x61, 0x73, 0x74, 0x2D, 0x6D, 0x6F, 0x64, 0x69, 0x66, 0x69, 0x65, 0x64]) by {
        if starts_at(s, i, seq![0x4Cu8, 0x61, 0x73, 0x74, 0x2D, 0x4D, 0x6F, 0x64, 0x69, 0x66, 0x69, 0x65, 0x64, 0x3A]) {
            lemma_starts_at_prefix(s, i, seq![0x4Cu8, 0x61, 0x73, 0x74, 0x2D, 0x4D, 0x6F, 0x64, 0x69, 0x66, 0x69, 0x65, 0x64, 0x3A]);
            assert(lower_bytes(seq![0x4Cu8, 0x61, 0x73, 0x74, 0x2D, 0x4D, 0x6F, 0x64, 0x69, 0x66, 0x69, 0x65, 0x64, 0x3A].drop_last()) =~= seq![0x6Cu8, 0x61, 0x73, 0x74, 0x2D, 0x6D, 0x6F, 0x64, 0x69, 0x66, 0x69, 0x65, 0x64]);
        }
    }
    assert(starts_at(s, i, seq![0x50u8, 0x72, 0x61, 0x67, 0x6D, 0x61, 0x3A]) ==> lower_bytes(s.subrange(i, i + 6)) == seq![0x70u8, 0x72, 0x61, 0x67, 0x6D, 0x61]) by {
        if starts_at(s, i, seq![0x50u8, 0x72, 0x61, 0x67, 0x6D, 0x61, 0x3A]) {
            lemma_starts_at_prefix(s, i, seq![0x50u8, 0x72, 0x61, 0x67, 0x6D, 0x61, 0x3A]);
            assert(lower_bytes(seq![0x50u8, 0x72, 0x61, 0x67, 0x6D, 0x61, 0x3A].drop_last()) =~= seq![0x70u8, 0x72, 0x61, 0x67, 0x6D, 0x61]);
        }
    }
    assert(starts_at(s, i, seq![0x53u8, 0x65, 0x74, 0x2D, 0x43, 0x6F, 0x6F, 0x6B, 0x69, 0x65, 0x3A]) ==> lower_bytes(s.subrange(i, i + 10)) == seq![0x73u8, 0x65, 0x74, 0x2D, 0x63, 0x6F, 0x6F, 0x6B, 0x69, 0x65]) by {
        if starts_at(s, i, seq![0x53u8, 0x65, 0x74, 0x2D, 0x43, 0x6F, 0x6F, 0x6B, 0x69, 0x65, 0x3A]) {
            lemma_starts_at_prefix(s, i, seq![0x53u8, 0x65, 0x74, 0x2D, 0x43, 0x6F, 0x6F, 0x6B, 0x69, 0x65, 0x3A]);
            assert(lower_bytes(seq![0x53u8, 0x65, 0x74, 0x2D, 0x43, 0x6F, 0x6F, 0x6B, 0x69, 0x65, 0x3A].drop_last()) =~= seq![0x73u8, 0x65, 0x74, 0x2D, 0x63, 0x6F, 0x6F, 0x6B, 0x69, 0x65]);
        }
    }
    assert(starts_at(s, i, seq![0x54u8, 0x72, 0x61, 0x6E, 0x73, 0x66, 0x65, 0x72, 0x2D, 0x45, 0x6E, 0x63, 0x6F, 0x64, 0x69, 0x6E, 0x67, 0x3A]) ==> lower_bytes(s.subrange(i, i + 17)) == seq![0x74u8, 0x72, 0x61, 0x6E, 0x73, 0x66, 0x65, 0x72, 0x2D, 0x65, 0x6E, 0x63, 0x6F, 0x64, 0x69, 0x6E, 0x67]) by {
        if starts_at(s, i, seq![0x54u8, 0x72, 0x61, 0x6E, 0x73, 0x66, 0x65, 0x72, 0x2D, 0x45, 0x6E, 0x63, 0x6F, 0x64, 0x69, 0x6E, 0x67, 0x3A]) {
            lemma_starts_at_prefix(s, i, seq![0x54u8, 0x72, 0x61, 0x6E, 0x73, 0x66, 0x65, 0x72, 0x2D, 0x45, 0x6E, 0x63, 0x6F, 0x64, 0x69, 0x6E, 0x67, 0x3A]);
            assert(lower_bytes(seq![0x54u8, 0x72, 0x61, 0x6E, 0x73, 0x66, 0x65, 0x72, 0x2D, 0x45, 0x6E, 0x63, 0x6F, 0x64, 0x69, 0x6E, 0x67, 0x3A].drop_last()) =~= seq![0x74u8, 0x72, 0x61, 0x6E, 0x73, 0x66, 0x65, 0x72, 0x2D, 0x65, 0x6E, 0x63, 0x6F, 0x64, 0x69, 0x6E, 0x67]);
        }
    }
    assert(starts_at(s, i, seq![0x58u8, 0x2D, 0x50, 0x6F, 0x77, 0x65, 0x72, 0x65, 0x64, 0x2D, 0x42, 0x79, 0x3A]) ==> lower_bytes(s.subrange(i, i + 12)) == seq![0x78u8, 0x2D, 0x70, 0x6F, 0x77, 0x65, 0x72, 0x65, 0x64, 0x2D, 0x62, 0x79]) by {
        if starts_at(s, i, seq![0x58u8, 0x2D, 0x50, 0x6F, 0x77, 0x65, 0x72, 0x65, 0x64, 0x2D, 0x42, 0x79, 0x3A]) {
            lemma_starts_at_prefix(s, i, seq![0x58u8, 0x2D, 0x50, 0x6F, 0x77, 0x65, 0x72, 0x65, 0x64, 0x2D, 0x42, 0x79, 0x3A]);
            assert(lower_bytes(seq![0x58u8, 0x2D, 0x50, 0x6F, 0x77, 0x65, 0x72, 0x65, 0x64, 0x2D, 0x42, 0x79, 0x3A].drop_last()) =~= seq![0x78u8, 0x2D, 0x70, 0x6F, 0x77, 0x65, 0x72, 0x65, 0x64, 0x2D, 0x62, 0x79]);
        }
    }
    assert(starts_at(s, i, seq![0x58u8, 0x2D, 0x46, 0x6F, 0x72, 0x77, 0x61, 0x72, 0x64, 0x65, 0x64, 0x2D, 0x46, 0x6F, 0x72, 0x3A]) ==> lower_bytes(s.subrange(i, i + 15)) == seq![0x78u8, 0x2D, 0x66, 0x6F, 0x72, 0x77, 0x61, 0x72, 0x64, 0x65, 0x64, 0x2D, 0x66, 0x6F, 0x72]) by {
        if starts_at(s, i, seq![0x58u8, 0x2D, 0x46, 0x6F, 0x72, 0x77, 0x61, 0x72, 0x64, 0x65, 0x64, 0x2D, 0x46, 0x6F, 0x72, 0x3A]) {
            lemma_starts_at_prefix(s, i, seq![0x58u8, 0x2D, 0x46, 0x6F, 0x72, 0x77, 0x61, 0x72, 0x64, 0x65, 0x64, 0x2D, 0x46, 0x6F, 0x72, 0x3A]);
            assert(lower_bytes(seq![0x58u8, 0x2D, 0x46, 0x6F, 0x72, 0x77, 0x61, 0x72, 0x64, 0x65, 0x64, 0x2D, 0x46, 0x6F, 0x72, 0x3A].drop_last()) =~= seq![0x78u8, 0x2D, 0x66, 0x6F, 0x72, 0x77, 0x61, 0x72, 0x64, 0x65, 0x64, 0x2D, 0x66, 0x6F, 0x72]);
        }
    }
    assert(starts_at(s, i, seq![0x58u8, 0x2D, 0x46, 0x6F, 0x72, 0x77, 0x61, 0x72, 0x64, 0x65, 0x64, 0x2D, 0x48, 0x6F, 0x73, 0x74, 0x3A]) ==> lower_bytes(s.subrange(i, i + 16)) == seq![0x78u8, 0x2D, 0x66, 0x6F, 0x72, 0x77, 0x61, 0x72, 0x64, 0x65, 0x64, 0x2D, 0x68, 0x6F, 0x73, 0x74]) by {
        if starts_at(s, i, seq![0x58u8, 0x2D, 0x46, 0x6F, 0x72, 0x77, 0x61, 0x72, 0x64, 0x65, 0x64, 0x2D, 0x48, 0x6F, 0x73, 0x74, 0x3A]) {
            lemma_starts_at_prefix(s, i, seq![0x58u8, 0x2D, 0x46, 0x6F, 0x72, 0x77, 0x61, 0x72, 0x64, 0x65, 0x64, 0x2D, 0x48, 0x6F, 0x73, 0x74, 0x3A]);
            assert(lower_bytes(seq![0x58u8, 0x2D, 0x46, 0x6F, 0x72, 0x77, 0x61, 0x72, 0x64, 0x65, 0x64, 0x2D, 0x48, 0x6F, 0x73, 0x74, 0x3A].drop_last()) =~= seq![0x78u8, 0x2D, 0x66, 0x6F, 0x72, 0x77, 0x61, 0x72, 0x64, 0x65, 0x64, 0x2D, 0x68, 0x6F, 0x73, 0x74]);
        }
    }
    assert(starts_at(s, i, seq![0x58u8, 0x2D, 0x58, 0x53, 0x53, 0x2D, 0x50, 0x72, 0x6F, 0x74, 0x65, 0x63, 0x74, 0x69, 0x6F, 0x6E, 0x3A]) ==> lower_bytes(s.subrange(i, i + 16)) == seq![0x78u8, 0x2D, 0x78, 0x73, 0x73, 0x2D, 0x70, 0x72, 0x6F, 0x74, 0x65, 0x63, 0x74, 0x69, 0x6F, 0x6E]) by {
        if starts_at(s, i, seq![0x58u8, 0x2D, 0x58, 0x53, 0x53, 0x2D, 0x50, 0x72, 0x6F, 0x74, 0x65, 0x63, 0x74, 0x69, 0x6F, 0x6E, 0x3A]) {
            lemma_starts_at_prefix(s, i, seq![0x58u8, 0x2D, 0x58, 0x53, 0x53, 0x2D, 0x50, 0x72, 0x6F, 0x74, 0x65, 0x63, 0x74, 0x69, 0x6F, 0x6E, 0x3A]);
            assert(lower_bytes(seq![0x58u8, 0x2D, 0x58, 0x53, 0x53, 0x2D, 0x50, 0x72, 0x6F, 0x74, 0x65, 0x63, 0x74, 0x69, 0x6F, 0x6E, 0x3A].drop_last()) =~= seq![0x78u8, 0x2D, 0x78, 0x73, 0x73, 0x2D, 0x70, 0x72, 0x6F, 0x74, 0x65, 0x63, 0x74, 0x69, 0x6F, 0x6E]);
        }
    }
    assert(starts_at(s, i, seq![0x58u8, 0x2D, 0x57, 0x65, 0x62, 0x4B, 0x69, 0x74, 0x2D, 0x43, 0x53, 0x50, 0x3A]) ==> lower_bytes(s.subrange(i, i + 12)) == seq![0x78u8, 0x2D, 0x77, 0x65, 0x62, 0x6B, 0x69, 0x74, 0x2D, 0x63, 0x73, 0x70]) by {
        if starts_at(s, i, seq![0x58u8, 0x2D, 0x57, 0x65, 0x62, 0x4B, 0x69, 0x74, 0x2D, 0x43, 0x53, 0x50, 0x3A]) {
            lemma_starts_at_prefix(s, i, seq![0x58u8, 0x2D, 0x57, 0x65, 0x62, 0x4B, 0x69, 0x74, 0x2D, 0x43, 0x53, 0x50, 0x3A]);
            assert(lower_bytes(seq![0x58u8, 0x2D, 0x57, 0x65, 0x62, 0x4B, 0x69, 0x74, 0x2D, 0x43, 0x53, 0x50, 0x3A].drop_last()) =~= seq![0x78u8, 0x2D, 0x77, 0x65, 0x62, 0x6B, 0x69, 0x74, 0x2D, 0x63, 0x73, 0x70]);
        }
    }
    if starts_at(s, i, seq![0x57u8, 0x57, 0x57, 0x2D, 0x41, 0x75, 0x74, 0x68, 0x65, 0x6E, 0x74, 0x69, 0x63, 0x61, 0x74, 0x65, 0x3A]) {
        lemma_starts_at_prefix(s, i, seq![0x57u8, 0x57, 0x57, 0x2D, 0x41, 0x75, 0x74, 0x68, 0x65, 0x6E, 0x74, 0x69, 0x63, 0x61, 0x74, 0x65, 0x3A]);
        assert(lower_bytes(seq![0x57u8, 0x57, 0x57, 0x2D, 0x41, 0x75, 0x74, 0x68, 0x65, 0x6E, 0x74, 0x69, 0x63, 0x61, 0x74, 0x65, 0x3A].drop_last()) =~= seq![0x77u8, 0x77, 0x77, 0x2D, 0x61, 0x75, 0x74, 0x68, 0x65, 0x6E, 0x74, 0x69, 0x63, 0x61, 0x74, 0x65]);
    }
}

/// Reading a header name and its colon from within a name ends where the value starts.
proof fn lemma_message_name_run(length: usize, t: Seq<u8>, i: int)
    requires
        tokens_then_colon(t, i),
    ensures
        message_run((ParserState::LowerHeaderName, length), t.subrange(i, t.len() as int)) == Ok::<
            MessagePosition,
            ParserError,
        >((ParserState::StripHeaderValue, length)),
    decreases t.len() - i,
{
    let q = (ParserState::LowerHeaderName, length);
    let u = t.subrange(i, t.len() as int);
    lemma_message_run_first(q, u);
    assert(u[0] == t[i]);
    if i < t.len() - 1 {
        assert(u.subrange(1, u.len() as int) =~= t.subrange(i + 1, t.len() as int));
        lemma_message_name_run(length, t, i + 1);
    } else {
        assert(u.subrange(1, u.len() as int) =~= Seq::<u8>::empty());
    }
}

/// Each common header name that the first header name state takes at once is token bytes and a
/// colon.
proof fn lemma_header_name_shortcut(c: ByteStream)
    ensures
        header_name_shortcut(c) matches Some(n) ==> tokens_then_colon(
            c.stream@.subrange(c.stream_index as int, c.stream_index + n),
            0,
        ),
{
    reveal_with_fuel(tokens_then_colon, 25);
    assert(tokens_then_colon(seq![0x41u8, 0x63, 0x63, 0x65, 0x70, 0x74, 0x3A], 0));
    assert(tokens_then_colon(seq![0x41u8, 0x63, 0x63, 0x65, 0x70, 0x74, 0x2D, 0x43, 0x68, 0x61, 0x72, 0x73, 0x65, 0x74, 0x3A], 0));
    assert(tokens_then_colon(seq![0x41u8, 0x63, 0x63, 0x65, 0x70, 0x74, 0x2D, 0x45, 0x6E, 0x63, 0x6F, 0x64, 0x69, 0x6E, 0x67, 0x3A], 0));
    assert(tokens_then_colon(seq![0x41u8, 0x63, 0x63, 0x65, 0x70, 0x74, 0x2D, 0x4C, 0x61, 0x6E, 0x67, 0x75, 0x61, 0x67, 0x65, 0x3A], 0));
    assert(tokens_then_colon(seq![0x41u8, 0x75, 0x74, 0x68, 0x6F, 0x72, 0x69, 0x7A, 0x61, 0x74, 0x69, 0x6F, 0x6E, 0x3A], 0));
    assert(tokens_then_colon(seq![0x48u8, 0x6F, 0x73, 0x74, 0x3A], 0));
    assert(tokens_then_colon(seq![0x55u8, 0x73, 0x65, 0x72, 0x2D, 0x41, 0x67, 0x65, 0x6E, 0x74, 0x3A], 0));
    assert(tokens_then_colon(seq![0x55u8, 0x70, 0x67, 0x72, 0x61, 0x64, 0x65, 0x3A], 0));
    assert(tokens_then_colon(seq![0x43u8, 0x6F, 0x6E, 0x6E, 0x65, 0x63, 0x74, 0x69, 0x6F, 0x6E, 0x3A], 0));
    assert(tokens_then_colon(seq![0x43u8, 0x6F, 0x6E, 0x74, 0x65, 0x6E, 0x74, 0x2D, 0x54, 0x79, 0x70, 0x65, 0x3A], 0));
    assert(tokens_then_colon(seq![0x43u8, 0x6F, 0x6E, 0x74, 0x65, 0x6E, 0x74, 0x2D, 0x4C, 0x65, 0x6E, 0x67, 0x74, 0x68, 0x3A], 0));
    assert(tokens_then_colon(seq![0x43u8, 0x6F, 0x6F, 0x6B, 0x69, 0x65, 0x3A], 0));
    assert(tokens_then_colon(seq![0x43u8, 0x61, 0x63, 0x68, 0x65, 0x2D, 0x43, 0x6F, 0x6E, 0x74, 0x72, 0x6F, 0x6C, 0x3A], 0));
    assert(tokens_then_colon(seq![0x43u8, 0x6F, 0x6E, 0x74, 0x65, 0x6E, 0x74, 0x2D, 0x53, 0x65, 0x63, 0x75, 0x72, 0x69, 0x74, 0x79, 0x2D, 0x50, 0x6F, 0x6C, 0x69, 0x63, 0x79, 0x3A], 0));
    assert(tokens_then_colon(seq![0x4Cu8, 0x6F, 0x63, 0x61, 0x74, 0x69, 0x6F, 0x6E, 0x3A], 0));
    assert(tokens_then_colon(seq![0x4Cu8, 0x61, 0x73, 0x74, 0x2D, 0x4D, 0x6F, 0x64, 0x69, 0x66, 0x69, 0x65, 0x64, 0x3A], 0));
    assert(tokens_then_colon(seq![0x50u8, 0x72, 0x61, 0x67, 0x6D, 0x61, 0x3A], 0));
    assert(tokens_then_colon(seq![0x53u8, 0x65, 0x74, 0x2D, 0x43, 0x6F, 0x6F, 0x6B, 0x69, 0x65, 0x3A], 0));
    assert(tokens_then_colon(seq![0x54u8, 0x72, 0x61, 0x6E, 0x73, 0x66, 0x65, 0x72, 0x2D, 0x45, 0x6E, 0x63, 0x6F, 0x64, 0x69, 0x6E, 0x67, 0x3A], 0));
    assert(tokens_then_colon(seq![0x58u8, 0x2D, 0x50, 0x6F, 0x77, 0x65, 0x72, 0x65, 0x64, 0x2D, 0x42, 0x79, 0x3A], 0));
    assert(tokens_then_colon(seq![0x58u8, 0x2D, 0x46, 0x6F, 0x72, 0x77, 0x61, 0x72, 0x64, 0x65, 0x64, 0x2D, 0x46, 0x6F, 0x72, 0x3A], 0));
    assert(tokens_then_colon(seq![0x58u8, 0x2D, 0x46, 0x6F, 0x72, 0x77, 0x61, 0x72, 0x64, 0x65, 0x64, 0x2D, 0x48, 0x6F, 0x73, 0x74, 0x3A], 0));
    assert(tokens_then_colon(seq![0x58u8, 0x2D, 0x58, 0x53, 0x53, 0x2D, 0x50, 0x72, 0x6F, 0x74, 0x65, 0x63, 0x74, 0x69, 0x6F, 0x6E, 0x3A], 0));
    assert(tokens_then_colon(seq![0x58u8, 0x2D, 0x57, 0x65, 0x62, 0x4B, 0x69, 0x74, 0x2D, 0x43, 0x53, 0x50, 0x3A], 0));
    assert(tokens_then_colon(seq![0x57u8, 0x57, 0x57, 0x2D, 0x41, 0x75, 0x74, 0x68, 0x65, 0x6E, 0x74, 0x69, 0x63, 0x61, 0x74, 0x65, 0x3A], 0));
}

/// The first header name state, when it takes a common header name at once, reads it as
/// `message_run` does.
proof fn lemma_first_header_name_shortcut<'b>(
    p0: Parser<'b>,
    p1: Parser<'b>,
    c0: ByteStream,
    c1: ByteStream,
    r: Result<ParserValue, ParserError>,
)
    requires
        p0.state == ParserState::FirstHeaderName,
        step_post(p0, p1, c0, c1, r),
        header_name_shortcut(c0) matches Some(n) && c1.stream_index == c0.stream_index + n
            && pass_step(p0, p1, c1, c1, r, ParserState::StripHeaderValue),
    ensures
        message_step(p0, p1, c0, c1, r),
{
    lemma_header_name_shortcut(c0);
    let n = header_name_shortcut(c0)->Some_0;
    let t = c0.stream@.subrange(c0.stream_index as int, c0.stream_index + n);
    lemma_message_name_run(p0.length, t, 0);
    assert(t.subrange(0, t.len() as int) =~= t);
}

/// The head or chunked position after the bytes of `s` from index `i` on, read forward.
spec fn message_run_from(q: MessagePosition, s: Seq<u8>, i: int) -> Result<
    MessagePosition,
    ParserError,
>
    decreases s.len() - i,
{
    if i < 0 || i >= s.len() {
        Ok(q)
    } else {
        match message_byte(q, s[i]) {
            Ok(q1) => message_run_from(q1, s, i + 1),
            Err(e) => Err(e),
        }
    }
}

/// Reading the bytes of `s` from `i` on reads them forward, one at a time.
proof fn lemma_message_run_from(q: MessagePosition, s: Seq<u8>, i: int)
    requires
        0 <= i <= s.len(),
    ensures
        message_run(q, s.subrange(i, s.len() as int)) == message_run_from(q, s, i),
    decreases s.len() - i,
{
    let u = s.subrange(i, s.len() as int);
    if i < s.len() {
        lemma_message_run_first(q, u);
        assert(u[0] == s[i]);
        assert(u.subrange(1, u.len() as int) =~= s.subrange(i + 1, s.len() as int));
        if let Ok(q1) = message_byte(q, s[i]) {
            lemma_message_run_from(q1, s, i + 1);
        }
    } else {
        assert(u =~= Seq::<u8>::empty());
    }
}

/// Reading three bytes reads them one after another.
proof fn lemma_message_run_three(q: MessagePosition, s: Seq<u8>)
    requires
        s.len() == 3,
    ensures
        message_run(q, s) == match message_byte(q, s[0]) {
            Ok(q1) => match message_byte(q1, s[1]) {
                Ok(q2) => message_byte(q2, s[2]),
                Err(e) => Err(e),
            },
            Err(e) => Err(e),
        },
{
    lemma_message_run_from(q, s, 0);
    assert(s.subrange(0, 3) =~= s);
    reveal_with_fuel(message_run_from, 4);
}

/// The request version line ends that the first version state takes at once read as
/// `message_run` reads them: on to the line feed after the request line.
proof fn lemma_request_version_shortcut(c: ByteStream, length: usize)
    requires
        request_version_shortcut(c),
    ensures
        message_run(
            (ParserState::RequestHttp1, length),
            c.stream@.subrange(c.stream_index as int, c.stream_index + 9),
        ) == Ok::<MessagePosition, ParserError>((ParserState::InitialLf, length)),
{
    let q = (ParserState::RequestHttp1, length);
    let t = c.stream@.subrange(c.stream_index as int, c.stream_index + 9);
    lemma_message_run_from(q, t, 0);
    assert(t.subrange(0, 9) =~= t);
    reveal_with_fuel(message_run_from, 10);
}

/// The states that head or chunked positions settle in: the states of `message_reading_state`
/// but those that `message_settle` takes as others.
pub open spec fn message_settled_state(state: ParserState) -> bool {
    &&& message_reading_state(state)
    &&& !(state is UpperChunkExtensionName || state is ChunkExtensionsFinished
        || state is FirstHeaderName || state is UpperHeaderName || state is HeaderEnd
        || state is BodyFinished || state is InitialEnd)
}

/// A byte read from a position settles in a settled state, and only the final state reads no
/// byte at all.
proof fn lemma_message_byte_settles(q: MessagePosition, b: u8)
    ensures
        message_byte(q, b) matches Ok(q1) ==> message_settled_state(q1.0),
        message_settled_state(q.0) && q.0 != ParserState::Finished ==> message_byte(q, b) != Err::<
            MessagePosition,
            ParserError,
        >(ParserError::Dead),
{
}

/// Reading bytes from a settled position ends in a settled position.
proof fn lemma_message_run_settles(q: MessagePosition, s: Seq<u8>)
    requires
        message_settled_state(q.0),
    ensures
        message_run(q, s) matches Ok(q1) ==> message_settled_state(q1.0),
    decreases s.len(),
{
    if s.len() > 0 {
        lemma_message_run_settles(q, s.drop_last());
        if let Ok(q1) = message_run(q, s.drop_last()) {
            lemma_message_byte_settles(q1, s.last());
        }
    }
}

/// A settled position that stands for a finished parser is finished.
proof fn lemma_message_tracks_finished<'b>(q: MessagePosition, p: Parser<'b>, c: ByteStream)
    requires
        message_tracks(q, p, c),
        message_settled_state(q.0),
        p.state == ParserState::Finished,
    ensures
        q.0 == ParserState::Finished,
{
    if q != p.message_position() {
        let b = next_byte(c)->Some_0;
        lemma_message_byte_settles(q, b);
    }
}

/// A position that stands for where a state function call starts reads its bytes as the call
/// does.
proof fn lemma_message_follows<'b>(
    q: MessagePosition,
    p0: Parser<'b>,
    p1: Parser<'b>,
    c0: ByteStream,
    c1: ByteStream,
    r: Result<ParserValue, ParserError>,
)
    requires
        message_step(p0, p1, c0, c1, r),
        message_tracks(q, p0, c0),
        c1.stream@ == c0.stream@,
        c0.stream_index <= c1.stream_index <= c1.stream@.len(),
    ensures
        message_follows(
            q,
            p1,
            c1,
            c0.stream@.subrange(c0.stream_index as int, c1.stream_index as int),
            r,
        ),
{
    let x = c0.stream@.subrange(c0.stream_index as int, c1.stream_index as int);
    let q0 = p0.message_position();
    if q != q0 {
        let b = next_byte(c0)->Some_0;
        assert(message_byte(q, b) == message_byte(q0, b));
        if x.len() > 0 {
            assert(x[0] == b);
            lemma_message_run_first(q, x);
            lemma_message_run_first(q0, x);
        } else {
            assert(message_run(q, x) == Ok::<MessagePosition, ParserError>(q));
            assert(message_run(q0, x) == Ok::<MessagePosition, ParserError>(q0));
            assert(next_byte(c1) == Some(b));
        }
    }
}

/// Outcome of a state that reads no byte: it goes on in `next`, or stops with
/// `Success::Callback` when the handler asks to.
pub closed spec fn pass_step<'b>(
    p0: Parser<'b>,
    p1: Parser<'b>,
    c0: ByteStream,
    c1: ByteStream,
    r: Result<ParserValue, ParserError>,
    next: ParserState,
) -> bool {
    &&& p1.state == next
    &&& c1.stream_index == c0.stream_index
    &&& (r == Ok::<ParserValue, ParserError>(ParserValue::Continue) || r == Ok::<
        ParserValue,
        ParserError,
    >(ParserValue::Exit(Success::Callback(c1.stream_index))))
}

/// Outcome of a state that reads one byte: at the end of the stream it stops with
/// `Success::Eos` and changes nothing; otherwise it reads the byte and goes on in the state that
/// `on` gives for it, to be read again there when `replay` holds of it, or fails with the error
/// that `error` gives for it when `on` gives none.
pub closed spec fn byte_step<'b>(
    p0: Parser<'b>,
    p1: Parser<'b>,
    c0: ByteStream,
    c1: ByteStream,
    r: Result<ParserValue, ParserError>,
    on: spec_fn(u8) -> Option<ParserState>,
    replay: spec_fn(u8) -> bool,
    error: spec_fn(u8) -> ParserError,
) -> bool {
    match next_byte(c0) {
        None => {
            &&& r == Ok::<ParserValue, ParserError>(ParserValue::Exit(Success::Eos(c0.stream_index)))
            &&& p1 == p0
            &&& c1.stream_index == c0.stream_index
        },
        Some(b) => match on(b) {
            Some(state) => {
                &&& p1.state == state
                &&& c1.stream_index == (if replay(b) {
                    c0.stream_index as int
                } else {
                    c0.stream_index + 1
                })
                &&& (r == Ok::<ParserValue, ParserError>(ParserValue::Continue) || r == Ok::<
                    ParserValue,
                    ParserError,
                >(ParserValue::Exit(Success::Callback(c1.stream_index))))
            },
            None => c1.stream_index == c0.stream_index + 1 && r == Err::<ParserValue, ParserError>(
                error(b),
            ),
        },
    }
}

/// The bytes of `s` from `i` on start with `p`.
pub open spec fn starts_at(s: Seq<u8>, i: int, p: Seq<u8>) -> bool {
    i + p.len() <= s.len() && s.subrange(i, i + p.len()) == p
}

/// The shortcut that the first detection state takes on the unread bytes of `c`, with the
/// number of bytes it consumes and the state it goes on in: a response version line start, a
/// lone `H` when fewer than nine bytes are left, or a known request method followed by a space
/// when at least eight bytes are left.
pub open spec fn detect_shortcut(c: ByteStream) -> Option<(int, ParserState)> {
    detect_shortcut_at(c.stream@, c.stream_index as int, c.byte)
}

/// The shortcut that the first detection state takes on the bytes of `s` from `i` on, when the
/// most recently read byte is `byte`; see `detect_shortcut`.
pub open spec fn detect_shortcut_at(s: Seq<u8>, i: int, byte: u8) -> Option<(int, ParserState)> {
    let h = starts_at(s, i, seq![0x48u8]);
    let nine = s.len() - i >= 9;
    let eight = s.len() - i >= 8;
    let p = byte == 0x50;
    if h && nine && starts_at(s, i, seq![0x48u8, 0x54, 0x54, 0x50, 0x2F, 0x31, 0x2E, 0x31, 0x20]) {
        Some((9, ParserState::ResponseStatusCode1))
    } else if h && nine && starts_at(s, i, seq![0x48u8, 0x54, 0x54, 0x50, 0x2F, 0x32, 0x2E, 0x30, 0x20]) {
        Some((9, ParserState::ResponseStatusCode1))
    } else if h && nine && starts_at(s, i, seq![0x48u8, 0x54, 0x54, 0x50, 0x2F, 0x31, 0x2E, 0x30, 0x20]) {
        Some((9, ParserState::ResponseStatusCode1))
    } else if h && nine && starts_at(s, i, seq![0x48u8, 0x54, 0x54, 0x50, 0x2F]) {
        Some((5, ParserState::ResponseVersionMajor1))
    } else if h && !nine {
        Some((1, ParserState::Detect2))
    } else if eight && starts_at(s, i, seq![0x47u8, 0x45, 0x54, 0x20]) {
        Some((4, ParserState::RequestUrl1))
    } else if eight && p && starts_at(s, i, seq![0x50u8, 0x4F, 0x53, 0x54, 0x20]) {
        Some((5, ParserState::RequestUrl1))
    } else if eight && p && starts_at(s, i, seq![0x50u8, 0x55, 0x54, 0x20]) {
        Some((4, ParserState::RequestUrl1))
    } else if eight && !p && starts_at(s, i, seq![0x44u8, 0x45, 0x4C, 0x45, 0x54, 0x45, 0x20]) {
        Some((7, ParserState::RequestUrl1))
    } else if eight && !p && starts_at(s, i, seq![0x43u8, 0x4F, 0x4E, 0x4E, 0x45, 0x43, 0x54, 0x20]) {
        Some((8, ParserState::RequestUrl1))
    } else if eight && !p && starts_at(s, i, seq![0x4Fu8, 0x50, 0x54, 0x49, 0x4F, 0x4E, 0x53, 0x20]) {
        Some((8, ParserState::RequestUrl1))
    } else if eight && !p && starts_at(s, i, seq![0x48u8, 0x45, 0x41, 0x44, 0x20]) {
        Some((5, ParserState::RequestUrl1))
    } else if eight && !p && starts_at(s, i, seq![0x54u8, 0x52, 0x41, 0x43, 0x45, 0x20]) {
        Some((6, ParserState::RequestUrl1))
    } else if eight && !p && starts_at(s, i, seq![0x50u8, 0x52, 0x49, 0x20]) {
        Some((4, ParserState::RequestUrl1))
    } else {
        None
    }
}

/// The states in which head parsing tells a request from a response.
pub open spec fn detecting(state: ParserState) -> bool {
    match state {
        ParserState::StripDetect | ParserState::Detect1 | ParserState::Detect2
        | ParserState::Detect3 | ParserState::Detect4 | ParserState::Detect5 => true,
        _ => false,
    }
}

/// Where telling a request from a response ends, reading `s` from `i` on in one of the states
/// after the first letter: the state it goes on in and the index of the next byte to read, or
/// the error and the number of bytes read up to and with the byte that failed. The letters of
/// `HTTP/` lead on to a response version; any other upper-case letter goes on in a request
/// method.
pub open spec fn detect_bytes(state: ParserState, s: Seq<u8>, i: int) -> Result<
    (ParserState, int),
    (ParserError, int),
>
    decreases s.len() - i,
{
    if i < 0 || i >= s.len() {
        Ok((state, i))
    } else {
        let b = s[i];
        let (letter, next) = match state {
            ParserState::Detect2 => (0x54u8, ParserState::Detect3),
            ParserState::Detect3 => (0x54u8, ParserState::Detect4),
            ParserState::Detect4 => (0x50u8, ParserState::Detect5),
            _ => (0x2Fu8, ParserState::ResponseVersionMajor1),
        };
        if !(state is Detect2 || state is Detect3 || state is Detect4 || state is Detect5) {
            Ok((state, i))
        } else if b == letter {
            if next is ResponseVersionMajor1 {
                Ok((next, i + 1))
            } else {
                detect_bytes(next, s, i + 1)
            }
        } else if spec_is_upper(b) {
            Ok((ParserState::RequestMethod, i + 1))
        } else {
            Err((ParserError::Method(b), i + 1))
        }
    }
}

/// Where telling a request from a response ends, reading `s` from `i` on in `state`, with
/// `byte` the most recently read byte: the state it goes on in and the index of the next byte to
/// read (the end of `s`, still in a detection state, when the bytes run out first), or the error
/// and the number of bytes read up to and with the byte that failed. The first byte is read with
/// the shortcut that `detect_shortcut_at` gives, or else as the first letter of a method.
pub open spec fn head_detect(state: ParserState, byte: u8, s: Seq<u8>, i: int) -> Result<
    (ParserState, int),
    (ParserError, int),
> {
    if !detecting(state) || i < 0 || i >= s.len() {
        Ok((state, i))
    } else if state is StripDetect || state is Detect1 {
        match detect_shortcut_at(s, i, byte) {
            Some((n, next)) => detect_bytes(next, s, i + n),
            None => if spec_is_upper(s[i]) {
                Ok((ParserState::RequestMethod, i + 1))
            } else {
                Err((ParserError::Method(s[i]), i + 1))
            },
        }
    } else {
        detect_bytes(state, s, i)
    }
}

/// A detection state function call keeps to `head_detect`: it fails as detection does, stops
/// where the bytes run out, or goes on to a state from which detection ends as it would have from
/// the state before, or to the state in which detection ends, with nothing but the state changed.
pub open spec fn detect_follows<'b>(
    p0: Parser<'b>,
    p1: Parser<'b>,
    c0: ByteStream,
    c1: ByteStream,
    r: Result<ParserValue, ParserError>,
) -> bool {
    let outcome = head_detect(p0.spec_state(), c0.byte, c0.stream@, c0.stream_index as int);
    &&& (r matches Ok(ParserValue::Exit(Success::Callback(_))) ==> !detecting(p1.spec_state()))
    &&& match r {
        Err(e) => outcome == Err::<(ParserState, int), (ParserError, int)>(
            (e, c1.stream_index as int),
        ),
        Ok(_) => if detecting(p1.spec_state()) {
            head_detect(p1.spec_state(), c1.byte, c1.stream@, c1.stream_index as int) == outcome
        } else {
            outcome == Ok::<(ParserState, int), (ParserError, int)>(
                (p1.spec_state(), c1.stream_index as int),
            )
        },
    }
}

/// What head parsing that starts in a detection state gives, when telling the request from the
/// response ends with `d` on the bytes `s`, with chunk length register `length`, after `n` bytes
/// read with result `r`, leaving the parser `p1`: the error of detection; or, where detection
/// runs out of bytes, the end of the stream in the state reached; or else what `message_run`
/// gives on the bytes from where detection ended.
pub open spec fn head_outcome<'b>(
    d: Result<(ParserState, int), (ParserError, int)>,
    length: usize,
    s: Seq<u8>,
    n: int,
    r: Result<Success, ParserError>,
    p1: Parser<'b>,
) -> bool {
    match d {
        Err((e, m)) => r == Err::<Success, ParserError>(e) && n == m,
        Ok((st, k)) => if detecting(st) {
            r matches Ok(Success::Eos(_)) && p1.spec_state() == st && n == s.len()
        } else {
            let read = message_run((st, length), s.subrange(k, n));
            &&& k <= n
            &&& match r {
                Ok(Success::Eos(_)) => read == Ok::<MessagePosition, ParserError>(
                    p1.message_position(),
                ),
                Ok(Success::Finished(_)) => read matches Ok(q) && q.0 == ParserState::Finished,
                Ok(Success::Callback(_)) => read is Ok,
                Err(e) => read == Err::<MessagePosition, ParserError>(e),
            }
        },
    }
}

/// Where head parsing that started in detection state `start`, on the bytes `s` from `i0` on
/// with `b0` the most recently read byte and `length` the chunk length register, stands with
/// parser `p` and stream `c`: still telling the request from the response on the way to where
/// `head_detect` ends, or past it, where `message_run` from there stands for the parser.
pub closed spec fn head_tracks<'b>(
    start: ParserState,
    b0: u8,
    s: Seq<u8>,
    i0: int,
    length: usize,
    p: Parser<'b>,
    c: ByteStream,
) -> bool {
    let d = head_detect(start, b0, s, i0);
    &&& detecting(p.state) ==> head_detect(p.state, c.byte, s, c.stream_index as int) == d
        && p.length == length
    &&& !detecting(p.state) ==> (d matches Ok((st, k)) && !detecting(st) && i0 <= k <= c.stream_index
        && message_reading_state(p.state) && match message_run(
        (st, length),
        s.subrange(k, c.stream_index as int),
    ) {
        Ok(q) => message_tracks(q, p, c) && message_settled_state(q.0),
        Err(_) => false,
    })
}

/// `lemma_head_step` for a call in a detection state.
proof fn lemma_head_detect_step<'b>(
    start: ParserState,
    b0: u8,
    s: Seq<u8>,
    i0: int,
    length: usize,
    p0: Parser<'b>,
    p1: Parser<'b>,
    c0: ByteStream,
    c1: ByteStream,
    r: Result<ParserValue, ParserError>,
)
    requires
        detecting(start),
        p0.parser_type == ParserType::Head,
        head_tracks(start, b0, s, i0, length, p0, c0),
        c0.stream@ == s,
        c0.wf(),
        0 <= i0 <= c0.stream_index,
        step_post(p0, p1, c0, c1, r),
        message_reading_state(p0.state) ==> message_step(p0, p1, c0, c1, r),
        detecting(p0.state),
        detect_follows(p0, p1, c0, c1, r),
    ensures
        r == Ok::<ParserValue, ParserError>(ParserValue::Continue) ==> head_tracks(
            start,
            b0,
            s,
            i0,
            length,
            p1,
            c1,
        ),
        r matches Ok(ParserValue::Exit(x)) ==> head_outcome(
            head_detect(start, b0, s, i0),
            length,
            s,
            c1.stream_index as int,
            Ok(x),
            p1,
        ),
        r matches Err(e) ==> head_outcome(
            head_detect(start, b0, s, i0),
            length,
            s,
            c1.stream_index as int,
            Err(e),
            p1,
        ),
{
    let d = head_detect(start, b0, s, i0);
    assert(head_detect(p0.state, c0.byte, s, c0.stream_index as int) == d);
    if !detecting(p1.state) && r is Ok {
        let st = p1.state;
        let k = c1.stream_index as int;
        assert(s.subrange(k, k) =~= Seq::<u8>::empty());
        assert(message_run((st, length), s.subrange(k, k)) == Ok::<MessagePosition, ParserError>(
            (st, length),
        ));
        assert(p1.message_position() == (st, length));
    }
}

/// One state function call keeps head parsing that started in a detection state on track, and
/// where it stops, it stops as `head_outcome` says.
proof fn lemma_head_step<'b>(
    start: ParserState,
    b0: u8,
    s: Seq<u8>,
    i0: int,
    length: usize,
    p0: Parser<'b>,
    p1: Parser<'b>,
    c0: ByteStream,
    c1: ByteStream,
    r: Result<ParserValue, ParserError>,
)
    requires
        detecting(start),
        p0.parser_type == ParserType::Head,
        head_tracks(start, b0, s, i0, length, p0, c0),
        c0.stream@ == s,
        c0.wf(),
        0 <= i0 <= c0.stream_index,
        step_post(p0, p1, c0, c1, r),
        message_reading_state(p0.state) ==> message_step(p0, p1, c0, c1, r),
        detecting(p0.state) ==> detect_follows(p0, p1, c0, c1, r),
    ensures
        r == Ok::<ParserValue, ParserError>(ParserValue::Continue) ==> head_tracks(
            start,
            b0,
            s,
            i0,
            length,
            p1,
            c1,
        ),
        r matches Ok(ParserValue::Exit(x)) ==> head_outcome(
            head_detect(start, b0, s, i0),
            length,
            s,
            c1.stream_index as int,
            Ok(x),
            p1,
        ),
        r matches Err(e) ==> head_outcome(
            head_detect(start, b0, s, i0),
            length,
            s,
            c1.stream_index as int,
            Err(e),
            p1,
        ),
{
    let d = head_detect(start, b0, s, i0);
    if detecting(p0.state) {
        lemma_head_detect_step(start, b0, s, i0, length, p0, p1, c0, c1, r);
    } else if let Ok((st, k)) = d {
        let q = message_run((st, length), s.subrange(k, c0.stream_index as int))->Ok_0;
        lemma_head_message_step(d, s, length, p0, p1, c0, c1, r, st, k, q);
    }
}

/// Bytes `a` to `c` of `s` are bytes `a` to `b` followed by bytes `b` to `c`.
proof fn lemma_subrange_split(s: Seq<u8>, a: int, b: int, c: int)
    requires
        0 <= a <= b <= c <= s.len(),
    ensures
        s.subrange(a, c) == s.subrange(a, b) + s.subrange(b, c),
{
    assert(s.subrange(a, c) =~= s.subrange(a, b) + s.subrange(b, c));
}

/// `lemma_head_step` for a call past detection, which ended in `st` at `k`; `q` is where
/// `message_run` from there stands before the call.
#[verifier::rlimit(50)]
proof fn lemma_head_message_step<'b>(
    d: Result<(ParserState, int), (ParserError, int)>,
    s: Seq<u8>,
    length: usize,
    p0: Parser<'b>,
    p1: Parser<'b>,
    c0: ByteStream,
    c1: ByteStream,
    r: Result<ParserValue, ParserError>,
    st: ParserState,
    k: int,
    q: MessagePosition,
)
    requires
        d == Ok::<(ParserState, int), (ParserError, int)>((st, k)),
        !detecting(st),
        0 <= k <= c0.stream_index,
        c0.stream@ == s,
        c0.wf(),
        !detecting(p0.state),
        message_run((st, length), s.subrange(k, c0.stream_index as int)) == Ok::<
            MessagePosition,
            ParserError,
        >(q),
        message_tracks(q, p0, c0),
        message_settled_state(q.0),
        step_post(p0, p1, c0, c1, r),
        message_step(p0, p1, c0, c1, r),
    ensures
        r == Ok::<ParserValue, ParserError>(ParserValue::Continue) ==> {
            &&& k <= c1.stream_index
            &&& message_reading_state(p1.state)
            &&& match message_run((st, length), s.subrange(k, c1.stream_index as int)) {
                Ok(q1) => message_tracks(q1, p1, c1) && message_settled_state(q1.0),
                Err(_) => false,
            }
        },
        r matches Ok(ParserValue::Exit(x)) ==> head_outcome(d, length, s, c1.stream_index as int, Ok(x), p1),
        r matches Err(e) ==> head_outcome(d, length, s, c1.stream_index as int, Err(e), p1),
{
    let x = s.subrange(k, c0.stream_index as int);
    let y = s.subrange(c0.stream_index as int, c1.stream_index as int);
    assert(c0.stream_index <= c1.stream_index <= s.len());
    lemma_subrange_split(s, k, c0.stream_index as int, c1.stream_index as int);
    let q0 = (st, length);
    law_message_pieces(q0, x, y);
    lemma_message_follows(q, p0, p1, c0, c1, r);
    lemma_message_run_settles(q, y);
    if let Ok(q1) = message_run(q, y) {
        if r matches Ok(ParserValue::Exit(Success::Finished(_))) {
            lemma_message_tracks_finished(q1, p1, c1);
        }
    }
}

/// The states in which multipart parsing reads a part's headers, up to the line that ends them.
pub open spec fn multipart_header_state(state: ParserState) -> bool {
    match state {
        ParserState::InitialLf | ParserState::CheckHeaderName | ParserState::FirstHeaderName
        | ParserState::UpperHeaderName | ParserState::LowerHeaderName
        | ParserState::StripHeaderValue | ParserState::HeaderValue
        | ParserState::HeaderQuotedValue | ParserState::HeaderEscapedValue
        | ParserState::HeaderLf1 | ParserState::HeaderCr2 | ParserState::HeaderLf2 => true,
        _ => false,
    }
}

/// The states in which multipart parsing reads a boundary line: the two hyphens, the boundary,
/// and the byte after it.
pub open spec fn multipart_starting(state: ParserState) -> bool {
    match state {
        ParserState::MultipartHyphen1 | ParserState::MultipartHyphen2
        | ParserState::MultipartBoundary | ParserState::MultipartBoundaryCr => true,
        _ => false,
    }
}

/// How far from the end of a boundary line a boundary line state is.
pub open spec fn start_rank(state: ParserState) -> int {
    match state {
        ParserState::MultipartHyphen1 => 3,
        ParserState::MultipartHyphen2 => 2,
        ParserState::MultipartBoundary => 1,
        _ => 0,
    }
}

/// Where reading a boundary line that must come ends, reading `s` from `i` on in `state` with
/// `upper` bytes of `boundary` already compared: the state it goes on in, the bytes of the
/// boundary compared, and the index of the next byte to read (the end of `s`, still in the line,
/// when the bytes run out first), or the error and the number of bytes read up to and with the
/// byte that failed. The line is two hyphens and the boundary; a carriage return after it goes
/// on to the part's headers, and a hyphen to the end of the body. Where the boundary does not
/// match the bytes compared with it, the error names the first of them.
pub open spec fn multipart_start(
    state: ParserState,
    upper: int,
    boundary: Seq<u8>,
    s: Seq<u8>,
    i: int,
) -> Result<(ParserState, int, int), (ParserError, int)>
    decreases s.len() - i, start_rank(state),
{
    if i < 0 || i >= s.len() || !multipart_starting(state) {
        Ok((state, upper, i))
    } else if state is MultipartHyphen1 {
        if s[i] == 0x2D {
            multipart_start(ParserState::MultipartHyphen2, upper, boundary, s, i + 1)
        } else {
            Err((ParserError::MultipartBoundary(s[i]), i + 1))
        }
    } else if state is MultipartHyphen2 {
        if s[i] == 0x2D {
            multipart_start(ParserState::MultipartBoundary, upper, boundary, s, i + 1)
        } else {
            Err((ParserError::MultipartBoundary(s[i]), i + 1))
        }
    } else if state is MultipartBoundary {
        if 0 <= upper <= boundary.len() {
            let n = if boundary.len() - upper <= s.len() - i {
                boundary.len() - upper
            } else {
                s.len() - i
            };
            if s.subrange(i, i + n) == boundary.subrange(upper, upper + n) {
                if upper + n == boundary.len() {
                    multipart_start(ParserState::MultipartBoundaryCr, 0, boundary, s, i + n)
                } else {
                    Ok((ParserState::MultipartBoundary, upper + n, i + n))
                }
            } else {
                Err((ParserError::MultipartBoundary(s[i]), i + 1))
            }
        } else {
            Ok((state, upper, i))
        }
    } else if s[i] == 0x0D {
        Ok((ParserState::InitialLf, upper, i + 1))
    } else if s[i] == 0x2D {
        Ok((ParserState::MultipartEnd, upper, i + 1))
    } else {
        Err((ParserError::MultipartBoundary(s[i]), i + 1))
    }
}

/// A boundary line state function call, where the boundary must come, keeps to
/// `multipart_start`, as `detect_follows` does to `head_detect`.
pub open spec fn multipart_start_follows<'b>(
    p0: Parser<'b>,
    p1: Parser<'b>,
    c0: ByteStream,
    c1: ByteStream,
    r: Result<ParserValue, ParserError>,
) -> bool {
    let b = p0.spec_boundary()->0@;
    let outcome = multipart_start(
        p0.spec_state(),
        p0.spec_boundary_index() as int,
        b,
        c0.stream@,
        c0.stream_index as int,
    );
    &&& (r matches Ok(ParserValue::Exit(Success::Callback(_))) ==> !multipart_starting(
        p1.spec_state(),
    ))
    &&& match r {
        Err(e) => outcome == Err::<(ParserState, int, int), (ParserError, int)>(
            (e, c1.stream_index as int),
        ),
        Ok(_) => if multipart_starting(p1.spec_state()) {
            &&& p1.expects_boundary()
            &&& multipart_start(
                p1.spec_state(),
                p1.spec_boundary_index() as int,
                b,
                c1.stream@,
                c1.stream_index as int,
            ) == outcome
        } else {
            outcome == Ok::<(ParserState, int, int), (ParserError, int)>(
                (p1.spec_state(), p1.spec_boundary_index() as int, c1.stream_index as int),
            )
        },
    }
}

/// What a part's headers give, read as `message_run` reads them from the line end before them
/// (`read`), with result `r`, leaving the parser `p1`: the error of the headers, or where the
/// stream ends within them, where they stand. Once the empty line that ends them is read,
/// `message_run` stands at its final position or fails as reading past it, and what follows is
/// the part's data.
pub open spec fn multipart_headers_outcome<'b>(
    read: Result<MessagePosition, ParserError>,
    r: Result<Success, ParserError>,
    p1: Parser<'b>,
) -> bool {
    match read {
        Err(ParserError::Dead) => true,
        Err(e) => r == Err::<Success, ParserError>(e),
        Ok(q) => q.0 == ParserState::Finished || match r {
            Ok(Success::Eos(_)) => q == p1.message_position(),
            Err(_) => false,
            _ => true,
        },
    }
}

/// What multipart parsing that starts in a boundary line that must come gives, when reading the
/// line ends with `d` on the bytes `s`, with chunk length register `length`, after `n` bytes
/// read with result `r`, leaving the parser `p1`: the error of the line; or, where the line runs
/// out of bytes, the end of the stream where it stands; or else the whole line read, followed,
/// where it goes on to a part, by its headers as `multipart_headers_outcome` says.
pub open spec fn multipart_start_outcome<'b>(
    d: Result<(ParserState, int, int), (ParserError, int)>,
    length: usize,
    s: Seq<u8>,
    n: int,
    r: Result<Success, ParserError>,
    p1: Parser<'b>,
) -> bool {
    match d {
        Err((e, m)) => r == Err::<Success, ParserError>(e) && n == m,
        Ok((st, u, k)) => if multipart_starting(st) {
            &&& r matches Ok(Success::Eos(_))
            &&& p1.spec_state() == st
            &&& p1.spec_boundary_index() == u
            &&& n == s.len()
        } else {
            &&& k <= n
            &&& (st == ParserState::InitialLf ==> multipart_headers_outcome(
                message_run((ParserState::InitialLf, length), s.subrange(k, n)),
                r,
                p1,
            ))
        },
    }
}

/// Where multipart parsing that started in boundary line state `start`, with `u0` boundary
/// bytes compared, on the bytes `s` from `i0` on, stands with parser `p` and stream `c`: still
/// in the line on the way to where `multipart_start` ends, or past the end of the line.
pub closed spec fn multipart_start_tracks<'b>(
    start: ParserState,
    u0: int,
    length: usize,
    s: Seq<u8>,
    i0: int,
    p: Parser<'b>,
    c: ByteStream,
) -> bool {
    let b = p.boundary->0@;
    let d = multipart_start(start, u0, b, s, i0);
    ||| multipart_starting(p.state) && p.expects_boundary() && p.length == length
        && multipart_start(p.state, p.upper as int, b, s, c.stream_index as int) == d
    ||| (d matches Ok((st, u, k)) && !multipart_starting(st) && i0 <= k <= c.stream_index && (st
        == ParserState::InitialLf ==> multipart_headers_tracks(length, s, k, p, c)))
}

/// Where a part's headers, read from the line end at `k` on the bytes `s`, stand with parser
/// `p` and stream `c`: within them, as `message_run` stands for the parser, or past the empty
/// line that ends them.
pub closed spec fn multipart_headers_tracks<'b>(
    length: usize,
    s: Seq<u8>,
    k: int,
    p: Parser<'b>,
    c: ByteStream,
) -> bool {
    let q0 = (ParserState::InitialLf, length);
    ||| multipart_header_state(p.state) && p.length == length && match message_run(
        q0,
        s.subrange(k, c.stream_index as int),
    ) {
        Ok(q) => message_tracks(q, p, c) && message_settled_state(q.0),
        Err(_) => false,
    }
    ||| exists|j: int|
        k <= j <= c.stream_index && (#[trigger] message_run(q0, s.subrange(k, j)) matches Ok(q)
            && q.0 == ParserState::Finished)
}

/// One state function call keeps multipart parsing that started in a boundary line on track,
/// and where it stops, it stops as `multipart_start_outcome` says.
proof fn lemma_multipart_start_step<'b>(
    start: ParserState,
    u0: int,
    length: usize,
    s: Seq<u8>,
    i0: int,
    p0: Parser<'b>,
    p1: Parser<'b>,
    c0: ByteStream,
    c1: ByteStream,
    r: Result<ParserValue, ParserError>,
)
    requires
        multipart_start_tracks(start, u0, length, s, i0, p0, c0),
        c0.stream@ == s,
        c0.wf(),
        0 <= i0 <= c0.stream_index,
        step_post(p0, p1, c0, c1, r),
        multipart_starting(p0.state) && p0.expects_boundary() ==> multipart_start_follows(
            p0,
            p1,
            c0,
            c1,
            r,
        ),
        multipart_header_state(p0.state) ==> message_step(p0, p1, c0, c1, r),
    ensures
        r == Ok::<ParserValue, ParserError>(ParserValue::Continue) ==> multipart_start_tracks(
            start,
            u0,
            length,
            s,
            i0,
            p1,
            c1,
        ),
        r matches Ok(ParserValue::Exit(x)) ==> multipart_start_outcome(
            multipart_start(start, u0, p0.boundary->0@, s, i0),
            length,
            s,
            c1.stream_index as int,
            Ok(x),
            p1,
        ),
        r matches Err(e) ==> multipart_start_outcome(
            multipart_start(start, u0, p0.boundary->0@, s, i0),
            length,
            s,
            c1.stream_index as int,
            Err(e),
            p1,
        ),
{
    let b = p0.boundary->0@;
    let d = multipart_start(start, u0, b, s, i0);
    if let Ok((st, u, k)) = d {
        if !multipart_starting(st) && st == ParserState::InitialLf && i0 <= k <= c1.stream_index {
            if multipart_starting(p0.state) && p0.expects_boundary() && p0.length == length
                && multipart_start(p0.state, p0.upper as int, b, s, c0.stream_index as int) == d {
                // the line ends with this call
                if r is Ok && !multipart_starting(p1.state) {
                    assert(s.subrange(k, k) =~= Seq::<u8>::empty());
                    assert(message_run((ParserState::InitialLf, length), s.subrange(k, k)) == Ok::<
                        MessagePosition,
                        ParserError,
                    >((ParserState::InitialLf, length)));
                    assert(p1.message_position() == (ParserState::InitialLf, length));
                }
            } else {
                lemma_multipart_headers_step(length, s, k, p0, p1, c0, c1, r);
            }
        }
    }
}

/// Reading bytes from the final position fails, but where there are none.
proof fn lemma_message_run_past_finished(q: MessagePosition, t: Seq<u8>)
    requires
        q.0 == ParserState::Finished,
    ensures
        message_run(q, t) == (if t.len() == 0 {
            Ok::<MessagePosition, ParserError>(q)
        } else {
            Err::<MessagePosition, ParserError>(ParserError::Dead)
        }),
    decreases t.len(),
{
    if t.len() > 0 {
        lemma_message_run_past_finished(q, t.drop_last());
    }
}

/// One state function call keeps a part's headers on track, and where it stops, it stops as
/// `multipart_headers_outcome` says.
#[verifier::rlimit(50)]
proof fn lemma_multipart_headers_step<'b>(
    length: usize,
    s: Seq<u8>,
    k: int,
    p0: Parser<'b>,
    p1: Parser<'b>,
    c0: ByteStream,
    c1: ByteStream,
    r: Result<ParserValue, ParserError>,
)
    requires
        multipart_headers_tracks(length, s, k, p0, c0),
        c0.stream@ == s,
        c0.wf(),
        0 <= k <= c0.stream_index,
        step_post(p0, p1, c0, c1, r),
        multipart_header_state(p0.state) ==> message_step(p0, p1, c0, c1, r),
    ensures
        r == Ok::<ParserValue, ParserError>(ParserValue::Continue) ==> multipart_headers_tracks(
            length,
            s,
            k,
            p1,
            c1,
        ),
        r matches Ok(ParserValue::Exit(x)) ==> multipart_headers_outcome(
            message_run((ParserState::InitialLf, length), s.subrange(k, c1.stream_index as int)),
            Ok(x),
            p1,
        ),
        r matches Err(e) ==> multipart_headers_outcome(
            message_run((ParserState::InitialLf, length), s.subrange(k, c1.stream_index as int)),
            Err(e),
            p1,
        ),
{
    let q0 = (ParserState::InitialLf, length);
    let i = c0.stream_index as int;
    let n = c1.stream_index as int;
    assert(i <= n <= s.len());
    lemma_subrange_split(s, k, i, n);
    let x = s.subrange(k, i);
    let y = s.subrange(i, n);
    law_message_pieces(q0, x, y);
    if multipart_header_state(p0.state) && p0.length == length && message_run(q0, x) is Ok
        && message_tracks(message_run(q0, x)->Ok_0, p0, c0) && message_settled_state(
        message_run(q0, x)->Ok_0.0,
    ) {
        let q = message_run(q0, x)->Ok_0;
        lemma_message_follows(q, p0, p1, c0, c1, r);
        lemma_message_run_settles(q, y);
        if let Ok(q1) = message_run(q, y) {
            if !multipart_header_state(p1.state) && r is Ok {
                if q1 != p1.message_position() {
                    let bb = next_byte(c1)->Some_0;
                    lemma_message_byte_settles(q1, bb);
                }
                assert(message_run(q0, s.subrange(k, n)) == Ok::<MessagePosition, ParserError>(q1));
            }
        }
    } else {
        let j = choose|j: int|
            k <= j <= i && (#[trigger] message_run(q0, s.subrange(k, j)) matches Ok(q) && q.0
                == ParserState::Finished);
        let qf = message_run(q0, s.subrange(k, j))->Ok_0;
        lemma_subrange_split(s, k, j, n);
        law_message_pieces(q0, s.subrange(k, j), s.subrange(j, n));
        lemma_message_run_past_finished(qf, s.subrange(j, n));
    }
}

/// The common header name, with its colon, that the first header name state takes at once on
/// the unread bytes of `c` when at least 24 bytes are left, as the number of bytes it consumes.
/// The names are grouped by first letter, and a group is only searched when the most recently
/// read byte is that letter.
pub open spec fn header_name_shortcut(c: ByteStream) -> Option<int> {
    let s = c.stream@;
    let i = c.stream_index as int;
    if c.spec_available() < 24 {
        None
    } else if c.byte == 0x41 {
        if starts_at(s, i, seq![0x41u8, 0x63, 0x63, 0x65, 0x70, 0x74, 0x3A]) {
            Some(7)
        } else if starts_at(s, i, seq![0x41u8, 0x63, 0x63, 0x65, 0x70, 0x74, 0x2D, 0x43, 0x68, 0x61, 0x72, 0x73, 0x65, 0x74, 0x3A]) {
            Some(15)
        } else if starts_at(s, i, seq![0x41u8, 0x63, 0x63, 0x65, 0x70, 0x74, 0x2D, 0x45, 0x6E, 0x63, 0x6F, 0x64, 0x69, 0x6E, 0x67, 0x3A]) {
            Some(16)
        } else if starts_at(s, i, seq![0x41u8, 0x63, 0x63, 0x65, 0x70, 0x74, 0x2D, 0x4C, 0x61, 0x6E, 0x67, 0x75, 0x61, 0x67, 0x65, 0x3A]) {
            Some(16)
        } else if starts_at(s, i, seq![0x41u8, 0x75, 0x74, 0x68, 0x6F, 0x72, 0x69, 0x7A, 0x61, 0x74, 0x69, 0x6F, 0x6E, 0x3A]) {
            Some(14)
        } else {
            None
        }
    } else if starts_at(s, i, seq![0x48u8, 0x6F, 0x73, 0x74, 0x3A]) {
        Some(5)
    } else if c.byte == 0x55 {
        if starts_at(s, i, seq![0x55u8, 0x73, 0x65, 0x72, 0x2D, 0x41, 0x67, 0x65, 0x6E, 0x74, 0x3A]) {
            Some(11)
        } else if starts_at(s, i, seq![0x55u8, 0x70, 0x67, 0x72, 0x61, 0x64, 0x65, 0x3A]) {
            Some(8)
        } else {
            None
        }
    } else if c.byte == 0x43 {
        if starts_at(s, i, seq![0x43u8, 0x6F, 0x6E, 0x6E, 0x65, 0x63, 0x74, 0x69, 0x6F, 0x6E, 0x3A]) {
            Some(11)
        } else if starts_at(s, i, seq![0x43u8, 0x6F, 0x6E, 0x74, 0x65, 0x6E, 0x74, 0x2D, 0x54, 0x79, 0x70, 0x65, 0x3A]) {
            Some(13)
        } else if starts_at(s, i, seq![0x43u8, 0x6F, 0x6E, 0x74, 0x65, 0x6E, 0x74, 0x2D, 0x4C, 0x65, 0x6E, 0x67, 0x74, 0x68, 0x3A]) {
            Some(15)
        } else if starts_at(s, i, seq![0x43u8, 0x6F, 0x6F, 0x6B, 0x69, 0x65, 0x3A]) {
            Some(7)
        } else if starts_at(s, i, seq![0x43u8, 0x61, 0x63, 0x68, 0x65, 0x2D, 0x43, 0x6F, 0x6E, 0x74, 0x72, 0x6F, 0x6C, 0x3A]) {
            Some(14)
        } else if starts_at(s, i, seq![0x43u8, 0x6F, 0x6E, 0x74, 0x65, 0x6E, 0x74, 0x2D, 0x53, 0x65, 0x63, 0x75, 0x72, 0x69, 0x74, 0x79, 0x2D, 0x50, 0x6F, 0x6C, 0x69, 0x63, 0x79, 0x3A]) {
            Some(24)
        } else {
            None
        }
    } else if c.byte == 0x4C {
        if starts_at(s, i, seq![0x4Cu8, 0x6F, 0x63, 0x61, 0x74, 0x69, 0x6F, 0x6E, 0x3A]) {
            Some(9)
        } else if starts_at(s, i, seq![0x4Cu8, 0x61, 0x73, 0x74, 0x2D, 0x4D, 0x6F, 0x64, 0x69, 0x66, 0x69, 0x65, 0x64, 0x3A]) {
            Some(14)
        } else {
            None
        }
    } else if starts_at(s, i, seq![0x50u8, 0x72, 0x61, 0x67, 0x6D, 0x61, 0x3A]) {
        Some(7)
    } else if starts_at(s, i, seq![0x53u8, 0x65, 0x74, 0x2D, 0x43, 0x6F, 0x6F, 0x6B, 0x69, 0x65, 0x3A]) {
        Some(11)
    } else if starts_at(s, i, seq![0x54u8, 0x72, 0x61, 0x6E, 0x73, 0x66, 0x65, 0x72, 0x2D, 0x45, 0x6E, 0x63, 0x6F, 0x64, 0x69, 0x6E, 0x67, 0x3A]) {
        Some(18)
    } else if c.byte == 0x58 {
        if starts_at(s, i, seq![0x58u8, 0x2D, 0x50, 0x6F, 0x77, 0x65, 0x72, 0x65, 0x64, 0x2D, 0x42, 0x79, 0x3A]) {
            Some(13)
        } else if starts_at(s, i, seq![0x58u8, 0x2D, 0x46, 0x6F, 0x72, 0x77, 0x61, 0x72, 0x64, 0x65, 0x64, 0x2D, 0x46, 0x6F, 0x72, 0x3A]) {
            Some(16)
        } else if starts_at(s, i, seq![0x58u8, 0x2D, 0x46, 0x6F, 0x72, 0x77, 0x61, 0x72, 0x64, 0x65, 0x64, 0x2D, 0x48, 0x6F, 0x73, 0x74, 0x3A]) {
            Some(17)
        } else if starts_at(s, i, seq![0x58u8, 0x2D, 0x58, 0x53, 0x53, 0x2D, 0x50, 0x72, 0x6F, 0x74, 0x65, 0x63, 0x74, 0x69, 0x6F, 0x6E, 0x3A]) {
            Some(17)
        } else if starts_at(s, i, seq![0x58u8, 0x2D, 0x57, 0x65, 0x62, 0x4B, 0x69, 0x74, 0x2D, 0x43, 0x53, 0x50, 0x3A]) {
            Some(13)
        } else {
            None
        }
    } else if starts_at(s, i, seq![0x57u8, 0x57, 0x57, 0x2D, 0x41, 0x75, 0x74, 0x68, 0x65, 0x6E, 0x74, 0x69, 0x63, 0x61, 0x74, 0x65, 0x3A]) {
        Some(17)
    } else {
        None
    }
}

/// The name, lower-cased and without its colon, that the first header name state hands on when
/// it takes a common header name at once; empty when it takes none.
pub open spec fn header_name_shortcut_name(c: ByteStream) -> Seq<u8> {
    let s = c.stream@;
    let i = c.stream_index as int;
    if c.spec_available() < 24 {
        Seq::<u8>::empty()
    } else if c.byte == 0x41 {
        if starts_at(s, i, seq![0x41u8, 0x63, 0x63, 0x65, 0x70, 0x74, 0x3A]) {
            seq![0x61u8, 0x63, 0x63, 0x65, 0x70, 0x74]
        } else if starts_at(s, i, seq![0x41u8, 0x63, 0x63, 0x65, 0x70, 0x74, 0x2D, 0x43, 0x68, 0x61, 0x72, 0x73, 0x65, 0x74, 0x3A]) {
            seq![0x61u8, 0x63, 0x63, 0x65, 0x70, 0x74, 0x2D, 0x63, 0x68, 0x61, 0x72, 0x73, 0x65, 0x74]
        } else if starts_at(s, i, seq![0x41u8, 0x63, 0x63, 0x65, 0x70, 0x74, 0x2D, 0x45, 0x6E, 0x63, 0x6F, 0x64, 0x69, 0x6E, 0x67, 0x3A]) {
            seq![0x61u8, 0x63, 0x63, 0x65, 0x70, 0x74, 0x2D, 0x65, 0x6E, 0x63, 0x6F, 0x64, 0x69, 0x6E, 0x67]
        } else if starts_at(s, i, seq![0x41u8, 0x63, 0x63, 0x65, 0x70, 0x74, 0x2D, 0x4C, 0x61, 0x6E, 0x67, 0x75, 0x61, 0x67, 0x65, 0x3A]) {
            seq![0x61u8, 0x63, 0x63, 0x65, 0x70, 0x74, 0x2D, 0x6C, 0x61, 0x6E, 0x67, 0x75, 0x61, 0x67, 0x65]
        } else if starts_at(s, i, seq![0x41u8, 0x75, 0x74, 0x68, 0x6F, 0x72, 0x69, 0x7A, 0x61, 0x74, 0x69, 0x6F, 0x6E, 0x3A]) {
            seq![0x61u8, 0x75, 0x74, 0x68, 0x6F, 0x72, 0x69, 0x7A, 0x61, 0x74, 0x69, 0x6F, 0x6E]
        } else {
            Seq::<u8>::empty()
        }
    } else if starts_at(s, i, seq![0x48u8, 0x6F, 0x73, 0x74, 0x3A]) {
        seq![0x68u8, 0x6F, 0x73, 0x74]
    } else if c.byte == 0x55 {
        if starts_at(s, i, seq![0x55u8, 0x73, 0x65, 0x72, 0x2D, 0x41, 0x67, 0x65, 0x6E, 0x74, 0x3A]) {
            seq![0x75u8, 0x73, 0x65, 0x72, 0x2D, 0x61, 0x67, 0x65, 0x6E, 0x74]
        } else if starts_at(s, i, seq![0x55u8, 0x70, 0x67, 0x72, 0x61, 0x64, 0x65, 0x3A]) {
            seq![0x75u8, 0x70, 0x67, 0x72, 0x61, 0x64, 0x65]
        } else {
            Seq::<u8>::empty()
        }
    } else if c.byte == 0x43 {
        if starts_at(s, i, seq![0x43u8, 0x6F, 0x6E, 0x6E, 0x65, 0x63, 0x74, 0x69, 0x6F, 0x6E, 0x3A]) {
            seq![0x63u8, 0x6F, 0x6E, 0x6E, 0x65, 0x63, 0x74, 0x69, 0x6F, 0x6E]
        } else if starts_at(s, i, seq![0x43u8, 0x6F, 0x6E, 0x74, 0x65, 0x6E, 0x74, 0x2D, 0x54, 0x79, 0x70, 0x65, 0x3A]) {
            seq![0x63u8, 0x6F, 0x6E, 0x74, 0x65, 0x6E, 0x74, 0x2D, 0x74, 0x79, 0x70, 0x65]
        } else if starts_at(s, i, seq![0x43u8, 0x6F, 0x6E, 0x74, 0x65, 0x6E, 0x74, 0x2D, 0x4C, 0x65, 0x6E, 0x67, 0x74, 0x68, 0x3A]) {
            seq![0x63u8, 0x6F, 0x6E, 0x74, 0x65, 0x6E, 0x74, 0x2D, 0x6C, 0x65, 0x6E, 0x67, 0x74, 0x68]
        } else if starts_at(s, i, seq![0x43u8, 0x6F, 0x6F, 0x6B, 0x69, 0x65, 0x3A]) {
            seq![0x63u8, 0x6F, 0x6F, 0x6B, 0x69, 0x65]
        } else if starts_at(s, i, seq![0x43u8, 0x61, 0x63, 0x68, 0x65, 0x2D, 0x43, 0x6F, 0x6E, 0x74, 0x72, 0x6F, 0x6C, 0x3A]) {
            seq![0x63u8, 0x61, 0x63, 0x68, 0x65, 0x2D, 0x63, 0x6F, 0x6E, 0x74, 0x72, 0x6F, 0x6C]
        } else if starts_at(s, i, seq![0x43u8, 0x6F, 0x6E, 0x74, 0x65, 0x6E, 0x74, 0x2D, 0x53, 0x65, 0x63, 0x75, 0x72, 0x69, 0x74, 0x79, 0x2D, 0x50, 0x6F, 0x6C, 0x69, 0x63, 0x79, 0x3A]) {
            seq![0x63u8, 0x6F, 0x6E, 0x74, 0x65, 0x6E, 0x74, 0x2D, 0x73, 0x65, 0x63, 0x75, 0x72, 0x69, 0x74, 0x79, 0x2D, 0x70, 0x6F, 0x6C, 0x69, 0x63, 0x79]
        } else {
            Seq::<u8>::empty()
        }
    } else if c.byte == 0x4C {
        if starts_at(s, i, seq![0x4Cu8, 0x6F, 0x63, 0x61, 0x74, 0x69, 0x6F, 0x6E, 0x3A]) {
            seq![0x6Cu8, 0x6F, 0x63, 0x61, 0x74, 0x69, 0x6F, 0x6E]
        } else if starts_at(s, i, seq![0x4Cu8, 0x61, 0x73, 0x74, 0x2D, 0x4D, 0x6F, 0x64, 0x69, 0x66, 0x69, 0x65, 0x64, 0x3A]) {
            seq![0x6Cu8, 0x61, 0x73, 0x74, 0x2D, 0x6D, 0x6F, 0x64, 0x69, 0x66, 0x69, 0x65, 0x64]
        } else {
            Seq::<u8>::empty()
        }
    } else if starts_at(s, i, seq![0x50u8, 0x72, 0x61, 0x67, 0x6D, 0x61, 0x3A]) {
        seq![0x70u8, 0x72, 0x61, 0x67, 0x6D, 0x61]
    } else if starts_at(s, i, seq![0x53u8, 0x65, 0x74, 0x2D, 0x43, 0x6F, 0x6F, 0x6B, 0x69, 0x65, 0x3A]) {
        seq![0x73u8, 0x65, 0x74, 0x2D, 0x63, 0x6F, 0x6F, 0x6B, 0x69, 0x65]
    } else if starts_at(s, i, seq![0x54u8, 0x72, 0x61, 0x6E, 0x73, 0x66, 0x65, 0x72, 0x2D, 0x45, 0x6E, 0x63, 0x6F, 0x64, 0x69, 0x6E, 0x67, 0x3A]) {
        seq![0x74u8, 0x72, 0x61, 0x6E, 0x73, 0x66, 0x65, 0x72, 0x2D, 0x65, 0x6E, 0x63, 0x6F, 0x64, 0x69, 0x6E, 0x67]
    } else if c.byte == 0x58 {
        if starts_at(s, i, seq![0x58u8, 0x2D, 0x50, 0x6F, 0x77, 0x65, 0x72, 0x65, 0x64, 0x2D, 0x42, 0x79, 0x3A]) {
            seq![0x78u8, 0x2D, 0x70, 0x6F, 0x77, 0x65, 0x72, 0x65, 0x64, 0x2D, 0x62, 0x79]
        } else if starts_at(s, i, seq![0x58u8, 0x2D, 0x46, 0x6F, 0x72, 0x77, 0x61, 0x72, 0x64, 0x65, 0x64, 0x2D, 0x46, 0x6F, 0x72, 0x3A]) {
            seq![0x78u8, 0x2D, 0x66, 0x6F, 0x72, 0x77, 0x61, 0x72, 0x64, 0x65, 0x64, 0x2D, 0x66, 0x6F, 0x72]
        } else if starts_at(s, i, seq![0x58u8, 0x2D, 0x46, 0x6F, 0x72, 0x77, 0x61, 0x72, 0x64, 0x65, 0x64, 0x2D, 0x48, 0x6F, 0x73, 0x74, 0x3A]) {
            seq![0x78u8, 0x2D, 0x66, 0x6F, 0x72, 0x77, 0x61, 0x72, 0x64, 0x65, 0x64, 0x2D, 0x68, 0x6F, 0x73, 0x74]
        } else if starts_at(s, i, seq![0x58u8, 0x2D, 0x58, 0x53, 0x53, 0x2D, 0x50, 0x72, 0x6F, 0x74, 0x65, 0x63, 0x74, 0x69, 0x6F, 0x6E, 0x3A]) {
            seq![0x78u8, 0x2D, 0x78, 0x73, 0x73, 0x2D, 0x70, 0x72, 0x6F, 0x74, 0x65, 0x63, 0x74, 0x69, 0x6F, 0x6E]
        } else if starts_at(s, i, seq![0x58u8, 0x2D, 0x57, 0x65, 0x62, 0x4B, 0x69, 0x74, 0x2D, 0x43, 0x53, 0x50, 0x3A]) {
            seq![0x78u8, 0x2D, 0x77, 0x65, 0x62, 0x6B, 0x69, 0x74, 0x2D, 0x63, 0x73, 0x70]
        } else {
            Seq::<u8>::empty()
        }
    } else if starts_at(s, i, seq![0x57u8, 0x57, 0x57, 0x2D, 0x41, 0x75, 0x74, 0x68, 0x65, 0x6E, 0x74, 0x69, 0x63, 0x61, 0x74, 0x65, 0x3A]) {
        seq![0x77u8, 0x77, 0x77, 0x2D, 0x61, 0x75, 0x74, 0x68, 0x65, 0x6E, 0x74, 0x69, 0x63, 0x61, 0x74, 0x65]
    } else {
        Seq::<u8>::empty()
    }
}

/// The request version line end that the first version state takes at once on the unread bytes
/// of `c`: `HTTP/1.1`, `HTTP/2.0` or `HTTP/1.0` followed by a carriage return, when at least
/// nine bytes are left.
pub open spec fn request_version_shortcut(c: ByteStream) -> bool {
    let s = c.stream@;
    let i = c.stream_index as int;
    &&& c.spec_available() >= 9
    &&& (starts_at(s, i, seq![0x48u8, 0x54, 0x54, 0x50, 0x2F, 0x31, 0x2E, 0x31, 0x0D]) || starts_at(
        s,
        i,
        seq![0x48u8, 0x54, 0x54, 0x50, 0x2F, 0x32, 0x2E, 0x30, 0x0D],
    ) || starts_at(s, i, seq![0x48u8, 0x54, 0x54, 0x50, 0x2F, 0x31, 0x2E, 0x30, 0x0D]))
}

/// Outcome of a state that collects the bytes of class `c` and then acts on the first byte
/// outside the class: at the end of the stream it stops, with `Success::Eos`, or with
/// `Success::Callback` when the handler was given the collected bytes and asked to stop;
/// otherwise it reads that byte and goes on in the state that `next` gives for it, to be read
/// again there when `replay` holds of it, or fails with the error that `error` gives for it when
/// `next` gives none.
pub closed spec fn collect_step<'b>(
    p0: Parser<'b>,
    p1: Parser<'b>,
    c0: ByteStream,
    c1: ByteStream,
    r: Result<ParserValue, ParserError>,
    c: Collect,
    next: spec_fn(u8) -> Option<ParserState>,
    replay: spec_fn(u8) -> bool,
    error: spec_fn(u8) -> ParserError,
) -> bool {
    let s = c0.stream@;
    let k = first_outside(s, c0.stream_index as int, c);
    if k == s.len() {
        &&& c1.stream_index == s.len()
        &&& p1 == (Parser { events: p1.events, ..p0 })
        &&& (r == Ok::<ParserValue, ParserError>(ParserValue::Exit(Success::Eos(c1.stream_index)))
            || r == Ok::<ParserValue, ParserError>(
            ParserValue::Exit(Success::Callback(c1.stream_index)),
        ))
    } else {
        &&& match next(s[k]) {
            Some(state) => {
                &&& c1.stream_index == (if replay(s[k]) {
                    k
                } else {
                    k + 1
                })
                &&& p1 == (Parser { state: state, events: p1.events, ..p0 })
                &&& (r == Ok::<ParserValue, ParserError>(ParserValue::Continue) || r == Ok::<
                    ParserValue,
                    ParserError,
                >(ParserValue::Exit(Success::Callback(c1.stream_index))))
            },
            None => c1.stream_index == k + 1 && p1 == p0 && r == Err::<ParserValue, ParserError>(
                error(s[k]),
            ),
        }
    }
}

/// Outcome of one state function call, relating the parser and stream before and after it.
pub closed spec fn step_post<'b>(
    p0: Parser<'b>,
    p1: Parser<'b>,
    c0: ByteStream,
    c1: ByteStream,
    r: Result<ParserValue, ParserError>,
) -> bool {
    &&& c1.wf()
    &&& c1.stream@ == c0.stream@
    &&& c1.stream_index >= c0.stream_index
    &&& callback_outcome(p0.events@, p1.events@, r)
    &&& p1.wf()
    &&& p1.parser_type == p0.parser_type
    &&& p1.boundary == p0.boundary
    &&& p1.byte_count == p0.byte_count
    &&& may_follow(p0.state, p1.state)
    &&& (!changes_length(p0.state) ==> p1.length == p0.length)
    &&& (p0.state == ParserState::Dead ==> r == Err::<ParserValue, ParserError>(ParserError::Dead)
        && c1.stream_index == c0.stream_index)
    &&& (p0.state == ParserState::Finished ==> r == Ok::<ParserValue, ParserError>(
        ParserValue::Exit(Success::Finished(c0.stream_index)),
    ) && c1.stream_index == c0.stream_index && p1.state == ParserState::Finished)
    &&& match r {
        Ok(ParserValue::Continue) => p1.measure(c1) < p0.measure(c0) && p1.state != ParserState::Dead
            && region_ok(p1.state, c1),
        Ok(ParserValue::Exit(s)) => {
            &&& s.spec_length() == c1.stream_index
            &&& p1.state != ParserState::Dead
            &&& (s is Eos ==> c1.stream_index == c1.stream@.len())
            &&& (s is Finished ==> p0.state == ParserState::Finished && p1.state
                == ParserState::Finished)
        },
        Err(e) => {
            &&& (e == ParserError::Dead <==> p0.state == ParserState::Dead)
            &&& (e != ParserError::Dead ==> c1.stream_index > 0 && e.spec_byte() == Some(
                c1.stream@[c1.stream_index - 1],
            ))
        },
    }
}

impl<'boundary> Parser<'boundary> {
    /// Well-formedness: the registers hold values that the current state can extend without
    /// overflow, and multipart parsing has a boundary to compare against.
    pub closed spec fn wf(&self) -> bool {
        &&& self.core_wf()
        &&& (self.parser_type == ParserType::Multipart ==> self.boundary is Some
            && self.upper <= self.boundary->0@.len())
    }

    /// Well-formedness apart from the multipart boundary, which `reset` clears and
    /// `set_boundary` sets.
    pub closed spec fn core_wf(&self) -> bool {
        &&& self.lower <= 999
        &&& (self.parser_type != ParserType::Multipart ==> self.upper <= 999)
        &&& (is_multipart_state(self.state) ==> self.parser_type == ParserType::Multipart)
        &&& (self.parser_type == ParserType::Multipart ==> multipart_type_state(self.state))
        &&& (self.parser_type == ParserType::UrlEncoded ==> url_encoded_type_state(self.state))
        &&& self.state_data_ok()
    }

    /// Bounds on the registers that particular states rely on.
    pub closed spec fn state_data_ok(&self) -> bool {
        &&& length_ok(self.state, self.length)
        &&& match self.state {
            ParserState::RequestVersionMajor2 | ParserState::ResponseVersionMajor2 => self.lower
                <= 9,
            ParserState::RequestVersionMajor3 | ParserState::ResponseVersionMajor3 => self.lower
                <= 99,
            ParserState::RequestVersionMinor2 | ParserState::ResponseVersionMinor2 => self.upper
                <= 9,
            ParserState::RequestVersionMinor3 | ParserState::ResponseVersionMinor3 => self.upper
                <= 99,
            ParserState::ResponseStatusCode2 => self.lower <= 900,
            ParserState::ResponseStatusCode3 => self.lower <= 990,
            ParserState::UrlEncodedNameHex2 | ParserState::UrlEncodedValueHex2 => self.upper
                <= 240,
            _ => true,
        }
    }

    /// The parser and the stream are well-formed, and the parser is in state `s`.
    pub closed spec fn ready(&self, c: ByteStream, s: ParserState) -> bool {
        self.wf() && c.wf() && self.state == s && region_ok(s, c)
    }

    /// Progress measure of the parser loop: unread bytes first, then the state rank.
    pub closed spec fn measure(&self, c: ByteStream) -> int {
        (c.stream@.len() - c.stream_index) * 8 + rank(self.state, c)
    }

    /// The current state.
    pub closed spec fn spec_state(&self) -> ParserState {
        self.state
    }

    /// The parser type.
    pub closed spec fn spec_parser_type(&self) -> ParserType {
        self.parser_type
    }

    /// The multipart boundary.
    pub closed spec fn spec_boundary(&self) -> Option<&'boundary [u8]> {
        self.boundary
    }

    /// The total byte count.
    pub closed spec fn spec_byte_count(&self) -> usize {
        self.byte_count
    }

    /// The multipart boundary comparison index.
    pub closed spec fn spec_boundary_index(&self) -> usize {
        self.upper
    }

    /// The length storage.
    pub closed spec fn spec_length(&self) -> usize {
        self.length
    }

    /// This parser and `other` differ at most in the callbacks recorded.
    pub closed spec fn same_but_events(&self, other: Self) -> bool {
        *self == (Parser { events: self.events, ..other })
    }

    /// The callbacks made on the handler, oldest first: which ones, what they were handed, and
    /// their answers (`content_length`, which answers no `bool`, aside).
    pub closed spec fn spec_events(&self) -> Seq<HandlerEvent> {
        self.events@
    }

    /// Where URL encoded parsing stands: the state and the hex registers.
    pub closed spec fn url_encoded_position(&self) -> UrlEncodedPosition {
        (self.state, self.upper, self.lower)
    }

    /// Where head or chunked parsing stands: the position that the state and chunk length stand
    /// for.
    pub closed spec fn message_position(&self) -> MessagePosition {
        message_settle(self.state, self.length)
    }

    /// Multipart data is followed by a boundary that must come: the data had a content length.
    pub closed spec fn expects_boundary(&self) -> bool {
        self.lower != 0
    }

    /// The parser that initializing this one for `t` parsing gives: the registers, length and
    /// boundary cleared, the state the first one of `t`, and the byte count kept.
    pub closed spec fn initialized(&self, t: ParserType) -> Parser<'boundary> {
        Parser {
            lower: if t == ParserType::Multipart {
                1
            } else {
                0
            },
            upper: 0,
            boundary: None,
            byte_count: self.byte_count,
            length: 0,
            parser_type: t,
            state: initial_state(t),
            events: self.events,
        }
    }

    /// This parser with multipart boundary `b`.
    pub closed spec fn with_boundary(&self, b: &'boundary [u8]) -> Parser<'boundary> {
        Parser { boundary: Some(b), ..*self }
    }

    /// This parser with length storage `length`.
    pub closed spec fn with_length(&self, length: usize) -> Parser<'boundary> {
        Parser { length: length, ..*self }
    }

    /// Create a new `Parser` and initialize it for head parsing.
    pub fn new() -> (r: Parser<'boundary>)
        ensures
            r.wf(),
            r.spec_state() == ParserState::StripDetect,
            r.spec_parser_type() == ParserType::Head,
            r.spec_boundary() is None,
            r.spec_byte_count() == 0,
            r.spec_length() == 0,
            r.spec_events() == Seq::<HandlerEvent>::empty(),
    {
        Parser {
            lower: 0,
            upper: 0,
            boundary: None,
            byte_count: 0,
            length: 0,
            parser_type: ParserType::Head,
            state: ParserState::StripDetect,
            events: Ghost(Seq::empty()),
        }
    }
}

impl<'boundary> Parser<'boundary> {
    /// Make the handler's `on_body_finished` callback, and record it.
    fn report_body_finished<T: HttpHandler>(&mut self, handler: &mut T) -> (r: bool)
        ensures
            *final(self) == (Parser { events: final(self).events, ..*old(self) }),
            final(self).events@ == old(self).events@.push((Callback::BodyFinished, Seq::<u8>::empty(), 0, 0, r)),
            final(self).events@.last() == (Callback::BodyFinished, Seq::<u8>::empty(), 0int, 0int, r),
            final(self).events@ == old(self).events@.push(final(self).events@.last()),
            r ==> final(self).events@.last().4,
            !r ==> !final(self).events@.last().4,
            event_guaranteed(final(self).events@.last()),
    {
        let r = handler.on_body_finished();
        proof {
            self.events@ = self.events@.push((Callback::BodyFinished, Seq::<u8>::empty(), 0, 0, r));
        }
        r
    }

    /// Make the handler's `on_chunk_begin` callback, and record it.
    fn report_chunk_begin<T: HttpHandler>(&mut self, handler: &mut T) -> (r: bool)
        ensures
            *final(self) == (Parser { events: final(self).events, ..*old(self) }),
            final(self).events@ == old(self).events@.push((Callback::ChunkBegin, Seq::<u8>::empty(), 0, 0, r)),
            final(self).events@.last() == (Callback::ChunkBegin, Seq::<u8>::empty(), 0int, 0int, r),
            final(self).events@ == old(self).events@.push(final(self).events@.last()),
            r ==> final(self).events@.last().4,
            !r ==> !final(self).events@.last().4,
            event_guaranteed(final(self).events@.last()),
    {
        let r = handler.on_chunk_begin();
        proof {
            self.events@ = self.events@.push((Callback::ChunkBegin, Seq::<u8>::empty(), 0, 0, r));
        }
        r
    }

    /// Make the handler's `on_chunk_data` callback, and record it.
    fn report_chunk_data<T: HttpHandler>(&mut self, handler: &mut T, bytes: &[u8]) -> (r: bool)
        ensures
            *final(self) == (Parser { events: final(self).events, ..*old(self) }),
            final(self).events@ == old(self).events@.push((Callback::ChunkData, bytes@, 0, 0, r)),
            final(self).events@.last() == (Callback::ChunkData, bytes@, 0int, 0int, r),
            final(self).events@ == old(self).events@.push(final(self).events@.last()),
            r ==> final(self).events@.last().4,
            !r ==> !final(self).events@.last().4,
            event_guaranteed(final(self).events@.last()),
    {
        let r = handler.on_chunk_data(bytes);
        proof {
            self.events@ = self.events@.push((Callback::ChunkData, bytes@, 0, 0, r));
        }
        r
    }

    /// Make the handler's `on_chunk_extension_finished` callback, and record it.
    fn report_chunk_extension_finished<T: HttpHandler>(&mut self, handler: &mut T) -> (r: bool)
        ensures
            *final(self) == (Parser { events: final(self).events, ..*old(self) }),
            final(self).events@ == old(self).events@.push((Callback::ChunkExtensionFinished, Seq::<u8>::empty(), 0, 0, r)),
            final(self).events@.last() == (Callback::ChunkExtensionFinished, Seq::<u8>::empty(), 0int, 0int, r),
            final(self).events@ == old(self).events@.push(final(self).events@.last()),
            r ==> final(self).events@.last().4,
            !r ==> !final(self).events@.last().4,
            event_guaranteed(final(self).events@.last()),
    {
        let r = handler.on_chunk_extension_finished();
        proof {
            self.events@ = self.events@.push((Callback::ChunkExtensionFinished, Seq::<u8>::empty(), 0, 0, r));
        }
        r
    }

    /// Make the handler's `on_chunk_extension_name` callback, and record it.
    fn report_chunk_extension_name<T: HttpHandler>(&mut self, handler: &mut T, bytes: &[u8]) -> (r: bool)
        requires
            forall|i: int| 0 <= i < bytes@.len() ==> spec_is_token(#[trigger] bytes@[i]) && !spec_is_upper(bytes@[i]),
        ensures
            *final(self) == (Parser { events: final(self).events, ..*old(self) }),
            final(self).events@ == old(self).events@.push((Callback::ChunkExtensionName, bytes@, 0, 0, r)),
            final(self).events@.last() == (Callback::ChunkExtensionName, bytes@, 0int, 0int, r),
            final(self).events@ == old(self).events@.push(final(self).events@.last()),
            r ==> final(self).events@.last().4,
            !r ==> !final(self).events@.last().4,
            event_guaranteed(final(self).events@.last()),
    {
        let r = handler.on_chunk_extension_name(bytes);
        proof {
            self.events@ = self.events@.push((Callback::ChunkExtensionName, bytes@, 0, 0, r));
        }
        r
    }

    /// Make the handler's `on_chunk_extension_value` callback, and record it.
    fn report_chunk_extension_value<T: HttpHandler>(&mut self, handler: &mut T, bytes: &[u8]) -> (r: bool)
        ensures
            *final(self) == (Parser { events: final(self).events, ..*old(self) }),
            final(self).events@ == old(self).events@.push((Callback::ChunkExtensionValue, bytes@, 0, 0, r)),
            final(self).events@.last() == (Callback::ChunkExtensionValue, bytes@, 0int, 0int, r),
            final(self).events@ == old(self).events@.push(final(self).events@.last()),
            r ==> final(self).events@.last().4,
            !r ==> !final(self).events@.last().4,
            event_guaranteed(final(self).events@.last()),
    {
        let r = handler.on_chunk_extension_value(bytes);
        proof {
            self.events@ = self.events@.push((Callback::ChunkExtensionValue, bytes@, 0, 0, r));
        }
        r
    }

    /// Make the handler's `on_chunk_extensions_finished` callback, and record it.
    fn report_chunk_extensions_finished<T: HttpHandler>(&mut self, handler: &mut T) -> (r: bool)
        ensures
            *final(self) == (Parser { events: final(self).events, ..*old(self) }),
            final(self).events@ == old(self).events@.push((Callback::ChunkExtensionsFinished, Seq::<u8>::empty(), 0, 0, r)),
            final(self).events@.last() == (Callback::ChunkExtensionsFinished, Seq::<u8>::empty(), 0int, 0int, r),
            final(self).events@ == old(self).events@.push(final(self).events@.last()),
            r ==> final(self).events@.last().4,
            !r ==> !final(self).events@.last().4,
            event_guaranteed(final(self).events@.last()),
    {
        let r = handler.on_chunk_extensions_finished();
        proof {
            self.events@ = self.events@.push((Callback::ChunkExtensionsFinished, Seq::<u8>::empty(), 0, 0, r));
        }
        r
    }

    /// Make the handler's `on_chunk_length` callback, and record it.
    fn report_chunk_length<T: HttpHandler>(&mut self, handler: &mut T, length: usize) -> (r: bool)
        ensures
            *final(self) == (Parser { events: final(self).events, ..*old(self) }),
            final(self).events@ == old(self).events@.push((Callback::ChunkLength, Seq::<u8>::empty(), length as int, 0, r)),
            final(self).events@.last() == (Callback::ChunkLength, Seq::<u8>::empty(), length as int, 0int, r),
            final(self).events@ == old(self).events@.push(final(self).events@.last()),
            r ==> final(self).events@.last().4,
            !r ==> !final(self).events@.last().4,
            event_guaranteed(final(self).events@.last()),
    {
        let r = handler.on_chunk_length(length);
        proof {
            self.events@ = self.events@.push((Callback::ChunkLength, Seq::<u8>::empty(), length as int, 0, r));
        }
        r
    }

    /// Make the handler's `on_header_name` callback, and record it.
    fn report_header_name<T: HttpHandler>(&mut self, handler: &mut T, bytes: &[u8]) -> (r: bool)
        requires
            forall|i: int| 0 <= i < bytes@.len() ==> spec_is_token(#[trigger] bytes@[i]) && !spec_is_upper(bytes@[i]),
        ensures
            *final(self) == (Parser { events: final(self).events, ..*old(self) }),
            final(self).events@ == old(self).events@.push((Callback::HeaderName, bytes@, 0, 0, r)),
            final(self).events@.last() == (Callback::HeaderName, bytes@, 0int, 0int, r),
            final(self).events@ == old(self).events@.push(final(self).events@.last()),
            r ==> final(self).events@.last().4,
            !r ==> !final(self).events@.last().4,
            event_guaranteed(final(self).events@.last()),
    {
        let r = handler.on_header_name(bytes);
        proof {
            self.events@ = self.events@.push((Callback::HeaderName, bytes@, 0, 0, r));
        }
        r
    }

    /// Make the handler's `on_header_value` callback, and record it.
    fn report_header_value<T: HttpHandler>(&mut self, handler: &mut T, bytes: &[u8]) -> (r: bool)
        ensures
            *final(self) == (Parser { events: final(self).events, ..*old(self) }),
            final(self).events@ == old(self).events@.push((Callback::HeaderValue, bytes@, 0, 0, r)),
            final(self).events@.last() == (Callback::HeaderValue, bytes@, 0int, 0int, r),
            final(self).events@ == old(self).events@.push(final(self).events@.last()),
            r ==> final(self).events@.last().4,
            !r ==> !final(self).events@.last().4,
            event_guaranteed(final(self).events@.last()),
    {
        let r = handler.on_header_value(bytes);
        proof {
            self.events@ = self.events@.push((Callback::HeaderValue, bytes@, 0, 0, r));
        }
        r
    }

    /// Make the handler's `on_headers_finished` callback, and record it.
    fn report_headers_finished<T: HttpHandler>(&mut self, handler: &mut T) -> (r: bool)
        ensures
            *final(self) == (Parser { events: final(self).events, ..*old(self) }),
            final(self).events@ == old(self).events@.push((Callback::HeadersFinished, Seq::<u8>::empty(), 0, 0, r)),
            final(self).events@.last() == (Callback::HeadersFinished, Seq::<u8>::empty(), 0int, 0int, r),
            final(self).events@ == old(self).events@.push(final(self).events@.last()),
            r ==> final(self).events@.last().4,
            !r ==> !final(self).events@.last().4,
            event_guaranteed(final(self).events@.last()),
    {
        let r = handler.on_headers_finished();
        proof {
            self.events@ = self.events@.push((Callback::HeadersFinished, Seq::<u8>::empty(), 0, 0, r));
        }
        r
    }

    /// Make the handler's `on_initial_finished` callback, and record it.
    fn report_initial_finished<T: HttpHandler>(&mut self, handler: &mut T) -> (r: bool)
        ensures
            *final(self) == (Parser { events: final(self).events, ..*old(self) }),
            final(self).events@ == old(self).events@.push((Callback::InitialFinished, Seq::<u8>::empty(), 0, 0, r)),
            final(self).events@.last() == (Callback::InitialFinished, Seq::<u8>::empty(), 0int, 0int, r),
            final(self).events@ == old(self).events@.push(final(self).events@.last()),
            r ==> final(self).events@.last().4,
            !r ==> !final(self).events@.last().4,
            event_guaranteed(final(self).events@.last()),
    {
        let r = handler.on_initial_finished();
        proof {
            self.events@ = self.events@.push((Callback::InitialFinished, Seq::<u8>::empty(), 0, 0, r));
        }
        r
    }

    /// Make the handler's `on_method` callback, and record it.
    fn report_method<T: HttpHandler>(&mut self, handler: &mut T, bytes: &[u8]) -> (r: bool)
        requires
            forall|i: int| 0 <= i < bytes@.len() ==> spec_is_upper(#[trigger] bytes@[i]),
        ensures
            *final(self) == (Parser { events: final(self).events, ..*old(self) }),
            final(self).events@ == old(self).events@.push((Callback::Method, bytes@, 0, 0, r)),
            final(self).events@.last() == (Callback::Method, bytes@, 0int, 0int, r),
            final(self).events@ == old(self).events@.push(final(self).events@.last()),
            r ==> final(self).events@.last().4,
            !r ==> !final(self).events@.last().4,
            event_guaranteed(final(self).events@.last()),
    {
        let r = handler.on_method(bytes);
        proof {
            self.events@ = self.events@.push((Callback::Method, bytes@, 0, 0, r));
        }
        r
    }

    /// Make the handler's `on_multipart_begin` callback, and record it.
    fn report_multipart_begin<T: HttpHandler>(&mut self, handler: &mut T) -> (r: bool)
        ensures
            *final(self) == (Parser { events: final(self).events, ..*old(self) }),
            final(self).events@ == old(self).events@.push((Callback::MultipartBegin, Seq::<u8>::empty(), 0, 0, r)),
            final(self).events@.last() == (Callback::MultipartBegin, Seq::<u8>::empty(), 0int, 0int, r),
            final(self).events@ == old(self).events@.push(final(self).events@.last()),
            r ==> final(self).events@.last().4,
            !r ==> !final(self).events@.last().4,
            event_guaranteed(final(self).events@.last()),
    {
        let r = handler.on_multipart_begin();
        proof {
            self.events@ = self.events@.push((Callback::MultipartBegin, Seq::<u8>::empty(), 0, 0, r));
        }
        r
    }

    /// Make the handler's `on_multipart_data` callback, and record it.
    fn report_multipart_data<T: HttpHandler>(&mut self, handler: &mut T, bytes: &[u8]) -> (r: bool)
        ensures
            *final(self) == (Parser { events: final(self).events, ..*old(self) }),
            final(self).events@ == old(self).events@.push((Callback::MultipartData, bytes@, 0, 0, r)),
            final(self).events@.last() == (Callback::MultipartData, bytes@, 0int, 0int, r),
            final(self).events@ == old(self).events@.push(final(self).events@.last()),
            r ==> final(self).events@.last().4,
            !r ==> !final(self).events@.last().4,
            event_guaranteed(final(self).events@.last()),
    {
        let r = handler.on_multipart_data(bytes);
        proof {
            self.events@ = self.events@.push((Callback::MultipartData, bytes@, 0, 0, r));
        }
        r
    }

    /// Make the handler's `on_status` callback, and record it.
    fn report_status<T: HttpHandler>(&mut self, handler: &mut T, bytes: &[u8]) -> (r: bool)
        requires
            forall|i: int| 0 <= i < bytes@.len() ==> #[trigger] bytes@[i] > 0x1F && bytes@[i] != 0x7F,
        ensures
            *final(self) == (Parser { events: final(self).events, ..*old(self) }),
            final(self).events@ == old(self).events@.push((Callback::Status, bytes@, 0, 0, r)),
            final(self).events@.last() == (Callback::Status, bytes@, 0int, 0int, r),
            final(self).events@ == old(self).events@.push(final(self).events@.last()),
            r ==> final(self).events@.last().4,
            !r ==> !final(self).events@.last().4,
            event_guaranteed(final(self).events@.last()),
    {
        let r = handler.on_status(bytes);
        proof {
            self.events@ = self.events@.push((Callback::Status, bytes@, 0, 0, r));
        }
        r
    }

    /// Make the handler's `on_status_code` callback, and record it.
    fn report_status_code<T: HttpHandler>(&mut self, handler: &mut T, code: u16) -> (r: bool)
        requires
            code <= 999,
        ensures
            *final(self) == (Parser { events: final(self).events, ..*old(self) }),
            final(self).events@ == old(self).events@.push((Callback::StatusCode, Seq::<u8>::empty(), code as int, 0, r)),
            final(self).events@.last() == (Callback::StatusCode, Seq::<u8>::empty(), code as int, 0int, r),
            final(self).events@ == old(self).events@.push(final(self).events@.last()),
            r ==> final(self).events@.last().4,
            !r ==> !final(self).events@.last().4,
            event_guaranteed(final(self).events@.last()),
    {
        let r = handler.on_status_code(code);
        proof {
            self.events@ = self.events@.push((Callback::StatusCode, Seq::<u8>::empty(), code as int, 0, r));
        }
        r
    }

    /// Make the handler's `on_url` callback, and record it.
    fn report_url<T: HttpHandler>(&mut self, handler: &mut T, bytes: &[u8]) -> (r: bool)
        requires
            forall|i: int| 0 <= i < bytes@.len() ==> spec_is_visible_7bit(#[trigger] bytes@[i]),
        ensures
            *final(self) == (Parser { events: final(self).events, ..*old(self) }),
            final(self).events@ == old(self).events@.push((Callback::Url, bytes@, 0, 0, r)),
            final(self).events@.last() == (Callback::Url, bytes@, 0int, 0int, r),
            final(self).events@ == old(self).events@.push(final(self).events@.last()),
            r ==> final(self).events@.last().4,
            !r ==> !final(self).events@.last().4,
            event_guaranteed(final(self).events@.last()),
    {
        let r = handler.on_url(bytes);
        proof {
            self.events@ = self.events@.push((Callback::Url, bytes@, 0, 0, r));
        }
        r
    }

    /// Make the handler's `on_url_encoded_begin` callback, and record it.
    fn report_url_encoded_begin<T: HttpHandler>(&mut self, handler: &mut T) -> (r: bool)
        ensures
            *final(self) == (Parser { events: final(self).events, ..*old(self) }),
            final(self).events@ == old(self).events@.push((Callback::UrlEncodedBegin, Seq::<u8>::empty(), 0, 0, r)),
            final(self).events@.last() == (Callback::UrlEncodedBegin, Seq::<u8>::empty(), 0int, 0int, r),
            final(self).events@ == old(self).events@.push(final(self).events@.last()),
            r ==> final(self).events@.last().4,
            !r ==> !final(self).events@.last().4,
            event_guaranteed(final(self).events@.last()),
    {
        let r = handler.on_url_encoded_begin();
        proof {
            self.events@ = self.events@.push((Callback::UrlEncodedBegin, Seq::<u8>::empty(), 0, 0, r));
        }
        r
    }

    /// Make the handler's `on_url_encoded_name` callback, and record it.
    fn report_url_encoded_name<T: HttpHandler>(&mut self, handler: &mut T, bytes: &[u8]) -> (r: bool)
        ensures
            *final(self) == (Parser { events: final(self).events, ..*old(self) }),
            final(self).events@ == old(self).events@.push((Callback::UrlEncodedName, bytes@, 0, 0, r)),
            final(self).events@.last() == (Callback::UrlEncodedName, bytes@, 0int, 0int, r),
            final(self).events@ == old(self).events@.push(final(self).events@.last()),
            r ==> final(self).events@.last().4,
            !r ==> !final(self).events@.last().4,
            event_guaranteed(final(self).events@.last()),
    {
        let r = handler.on_url_encoded_name(bytes);
        proof {
            self.events@ = self.events@.push((Callback::UrlEncodedName, bytes@, 0, 0, r));
        }
        r
    }

    /// Make the handler's `on_url_encoded_value` callback, and record it.
    fn report_url_encoded_value<T: HttpHandler>(&mut self, handler: &mut T, bytes: &[u8]) -> (r: bool)
        ensures
            *final(self) == (Parser { events: final(self).events, ..*old(self) }),
            final(self).events@ == old(self).events@.push((Callback::UrlEncodedValue, bytes@, 0, 0, r)),
            final(self).events@.last() == (Callback::UrlEncodedValue, bytes@, 0int, 0int, r),
            final(self).events@ == old(self).events@.push(final(self).events@.last()),
            r ==> final(self).events@.last().4,
            !r ==> !final(self).events@.last().4,
            event_guaranteed(final(self).events@.last()),
    {
        let r = handler.on_url_encoded_value(bytes);
        proof {
            self.events@ = self.events@.push((Callback::UrlEncodedValue, bytes@, 0, 0, r));
        }
        r
    }

    /// Make the handler's `on_version` callback, and record it.
    fn report_version<T: HttpHandler>(&mut self, handler: &mut T, major: u16, minor: u16) -> (r: bool)
        requires
            major <= 999,
            minor <= 999,
        ensures
            *final(self) == (Parser { events: final(self).events, ..*old(self) }),
            final(self).events@ == old(self).events@.push((Callback::Version, Seq::<u8>::empty(), major as int, minor as int, r)),
            final(self).events@.last() == (Callback::Version, Seq::<u8>::empty(), major as int, minor as int, r),
            final(self).events@ == old(self).events@.push(final(self).events@.last()),
            r ==> final(self).events@.last().4,
            !r ==> !final(self).events@.last().4,
            event_guaranteed(final(self).events@.last()),
    {
        let r = handler.on_version(major, minor);
        proof {
            self.events@ = self.events@.push((Callback::Version, Seq::<u8>::empty(), major as int, minor as int, r));
        }
        r
    }

    /// State function of `ParserState::StripDetect`, the state in which head parsing starts:
    /// once a byte is there, detection begins with it. Every first byte that is not an upper-case
    /// letter, white space among them, is a method error.
    pub fn strip_detect<T: HttpHandler>(&mut self, _handler: &mut T, context: &mut ByteStream) -> (r: Result<
        ParserValue,
        ParserError,
    >)
        requires
            old(self).ready(*old(context), ParserState::StripDetect),
        ensures
            step_post(*old(self), *final(self), *old(context), *final(context), r),
            next_byte(*old(context)) is None ==> r == Ok::<ParserValue, ParserError>(
                ParserValue::Exit(Success::Eos(old(context).stream_index)),
            ) && *final(self) == *old(self) && final(context).stream_index == old(context).stream_index,
            next_byte(*old(context)) is Some ==> pass_step(
                *old(self),
                *final(self),
                *old(context),
                *final(context),
                r,
                ParserState::Detect1,
            ) && r == Ok::<ParserValue, ParserError>(ParserValue::Continue),
            detect_follows(*old(self), *final(self), *old(context), *final(context), r),
    {
        if context.available() == 0 {
            return Ok(ParserValue::Exit(Success::Eos(context.stream_index)));
        }
        self.state = ParserState::Detect1;
        context.mark();
        Ok(ParserValue::Continue)
    }

    /// State function of `ParserState::Detect1`.
    #[verifier::rlimit(100)]
    pub fn detect1<T: HttpHandler>(&mut self, handler: &mut T, context: &mut ByteStream) -> (r: Result<
        ParserValue,
        ParserError,
    >)
        requires
            old(self).ready(*old(context), ParserState::Detect1),
        ensures
            step_post(*old(self), *final(self), *old(context), *final(context), r),
            detect_shortcut(*old(context)) matches Some((n, state)) ==> final(context).stream_index
                == old(context).stream_index + n && pass_step(
                *old(self),
                *final(self),
                *final(context),
                *final(context),
                r,
                state,
            ),
            detect_shortcut(*old(context)) is None ==> byte_step(
                *old(self),
                *final(self),
                *old(context),
                *final(context),
                r,
                |b: u8|
                    if spec_is_upper(b) {
                        Some(ParserState::RequestMethod)
                    } else {
                        None
                    },
                |b: u8| false,
                |b: u8| ParserError::Method(b),
            ),
            detect_shortcut(*old(context)) matches Some((n, state)) ==> (state
                == ParserState::RequestUrl1 ==> pushed(old(self).spec_events(), final(self).spec_events(), Callback::Method, old(context).stream@.subrange(
                        old(context).stream_index as int,
                        old(context).stream_index + n - 1,
                    ), 0, 0)),
            detect_shortcut(*old(context)) matches Some((n, state)) ==> (state
                == ParserState::ResponseStatusCode1 ==> pushed(
                old(self).spec_events(),
                final(self).spec_events(),
                Callback::Version,
                Seq::<u8>::empty(),
                old(context).stream@[old(context).stream_index + 5] - 0x30,
                old(context).stream@[old(context).stream_index + 7] - 0x30,
            )),
            detect_shortcut(*old(context)) matches Some((n, state)) ==> (state
                != ParserState::RequestUrl1 && state != ParserState::ResponseStatusCode1
                ==> final(self).spec_events() == old(self).spec_events()),
            detect_shortcut(*old(context)) is None ==> final(self).spec_events() == old(
                self,
            ).spec_events(),
            detect_follows(*old(self), *final(self), *old(context), *final(context), r),
    {
        proof {
            let s = context.stream@;
            let i = context.stream_index as int;
            if starts_at(s, i, seq![0x48u8]) {
                lemma_starts_at_prefix(s, i, seq![0x48u8]);
                assert(seq![0x48u8].drop_last() =~= seq![]);
            }
            if starts_at(s, i, seq![0x47u8, 0x45, 0x54, 0x20]) {
                lemma_starts_at_prefix(s, i, seq![0x47u8, 0x45, 0x54, 0x20]);
                assert(seq![0x47u8, 0x45, 0x54, 0x20].drop_last() =~= seq![0x47u8, 0x45, 0x54]);
            }
            if starts_at(s, i, seq![0x50u8, 0x4F, 0x53, 0x54, 0x20]) {
                lemma_starts_at_prefix(s, i, seq![0x50u8, 0x4F, 0x53, 0x54, 0x20]);
                assert(seq![0x50u8, 0x4F, 0x53, 0x54, 0x20].drop_last() =~= seq![0x50u8, 0x4F, 0x53, 0x54]);
            }
            if starts_at(s, i, seq![0x50u8, 0x55, 0x54, 0x20]) {
                lemma_starts_at_prefix(s, i, seq![0x50u8, 0x55, 0x54, 0x20]);
                assert(seq![0x50u8, 0x55, 0x54, 0x20].drop_last() =~= seq![0x50u8, 0x55, 0x54]);
            }
            if starts_at(s, i, seq![0x44u8, 0x45, 0x4C, 0x45, 0x54, 0x45, 0x20]) {
                lemma_starts_at_prefix(s, i, seq![0x44u8, 0x45, 0x4C, 0x45, 0x54, 0x45, 0x20]);
                assert(seq![0x44u8, 0x45, 0x4C, 0x45, 0x54, 0x45, 0x20].drop_last() =~= seq![0x44u8, 0x45, 0x4C, 0x45, 0x54, 0x45]);
            }
            if starts_at(s, i, seq![0x43u8, 0x4F, 0x4E, 0x4E, 0x45, 0x43, 0x54, 0x20]) {
                lemma_starts_at_prefix(s, i, seq![0x43u8, 0x4F, 0x4E, 0x4E, 0x45, 0x43, 0x54, 0x20]);
                assert(seq![0x43u8, 0x4F, 0x4E, 0x4E, 0x45, 0x43, 0x54, 0x20].drop_last() =~= seq![0x43u8, 0x4F, 0x4E, 0x4E, 0x45, 0x43, 0x54]);
            }
            if starts_at(s, i, seq![0x4Fu8, 0x50, 0x54, 0x49, 0x4F, 0x4E, 0x53, 0x20]) {
                lemma_starts_at_prefix(s, i, seq![0x4Fu8, 0x50, 0x54, 0x49, 0x4F, 0x4E, 0x53, 0x20]);
                assert(seq![0x4Fu8, 0x50, 0x54, 0x49, 0x4F, 0x4E, 0x53, 0x20].drop_last() =~= seq![0x4Fu8, 0x50, 0x54, 0x49, 0x4F, 0x4E, 0x53]);
            }
            if starts_at(s, i, seq![0x48u8, 0x45, 0x41, 0x44, 0x20]) {
                lemma_starts_at_prefix(s, i, seq![0x48u8, 0x45, 0x41, 0x44, 0x20]);
                assert(seq![0x48u8, 0x45, 0x41, 0x44, 0x20].drop_last() =~= seq![0x48u8, 0x45, 0x41, 0x44]);
            }
            if starts_at(s, i, seq![0x54u8, 0x52, 0x41, 0x43, 0x45, 0x20]) {
                lemma_starts_at_prefix(s, i, seq![0x54u8, 0x52, 0x41, 0x43, 0x45, 0x20]);
                assert(seq![0x54u8, 0x52, 0x41, 0x43, 0x45, 0x20].drop_last() =~= seq![0x54u8, 0x52, 0x41, 0x43, 0x45]);
            }
            if starts_at(s, i, seq![0x50u8, 0x52, 0x49, 0x20]) {
                lemma_starts_at_prefix(s, i, seq![0x50u8, 0x52, 0x49, 0x20]);
                assert(seq![0x50u8, 0x52, 0x49, 0x20].drop_last() =~= seq![0x50u8, 0x52, 0x49]);
            }
        }
        let h: [u8; 1] = [0x48];
        let http_1_1: [u8; 9] = [0x48, 0x54, 0x54, 0x50, 0x2F, 0x31, 0x2E, 0x31, 0x20];
        let http_2_0: [u8; 9] = [0x48, 0x54, 0x54, 0x50, 0x2F, 0x32, 0x2E, 0x30, 0x20];
        let http_1_0: [u8; 9] = [0x48, 0x54, 0x54, 0x50, 0x2F, 0x31, 0x2E, 0x30, 0x20];
        let http_slash: [u8; 5] = [0x48, 0x54, 0x54, 0x50, 0x2F];
        let get: [u8; 4] = [0x47, 0x45, 0x54, 0x20];
        let post: [u8; 5] = [0x50, 0x4F, 0x53, 0x54, 0x20];
        let put: [u8; 4] = [0x50, 0x55, 0x54, 0x20];
        let delete: [u8; 7] = [0x44, 0x45, 0x4C, 0x45, 0x54, 0x45, 0x20];
        let connect: [u8; 8] = [0x43, 0x4F, 0x4E, 0x4E, 0x45, 0x43, 0x54, 0x20];
        let options: [u8; 8] = [0x4F, 0x50, 0x54, 0x49, 0x4F, 0x4E, 0x53, 0x20];
        let head: [u8; 5] = [0x48, 0x45, 0x41, 0x44, 0x20];
        let trace: [u8; 6] = [0x54, 0x52, 0x41, 0x43, 0x45, 0x20];
        let pri: [u8; 4] = [0x50, 0x52, 0x49, 0x20];
        proof {
            assert(h@ == seq![0x48u8]);
            assert(http_1_1@ == seq![0x48u8, 0x54, 0x54, 0x50, 0x2F, 0x31, 0x2E, 0x31, 0x20]);
            assert(http_2_0@ == seq![0x48u8, 0x54, 0x54, 0x50, 0x2F, 0x32, 0x2E, 0x30, 0x20]);
            assert(http_1_0@ == seq![0x48u8, 0x54, 0x54, 0x50, 0x2F, 0x31, 0x2E, 0x30, 0x20]);
            assert(http_slash@ == seq![0x48u8, 0x54, 0x54, 0x50, 0x2F]);
            assert(get@ == seq![0x47u8, 0x45, 0x54, 0x20]);
            assert(post@ == seq![0x50u8, 0x4F, 0x53, 0x54, 0x20]);
            assert(put@ == seq![0x50u8, 0x55, 0x54, 0x20]);
            assert(delete@ == seq![0x44u8, 0x45, 0x4C, 0x45, 0x54, 0x45, 0x20]);
            assert(connect@ == seq![0x43u8, 0x4F, 0x4E, 0x4E, 0x45, 0x43, 0x54, 0x20]);
            assert(options@ == seq![0x4Fu8, 0x50, 0x54, 0x49, 0x4F, 0x4E, 0x53, 0x20]);
            assert(head@ == seq![0x48u8, 0x45, 0x41, 0x44, 0x20]);
            assert(trace@ == seq![0x54u8, 0x52, 0x41, 0x43, 0x45, 0x20]);
            assert(pri@ == seq![0x50u8, 0x52, 0x49, 0x20]);
        }
        if context.starts_with(&h) {
            if context.has_bytes(9) {
                if context.starts_with(&http_1_1) {
                context.jump(9);
                self.state = ParserState::ResponseStatusCode1;
                if self.report_version(handler, 1, 1) {
                    context.mark();
                    return Ok(ParserValue::Continue);
                }
                return Ok(ParserValue::Exit(Success::Callback(context.stream_index)));
                } else if context.starts_with(&http_2_0) {
                context.jump(9);
                self.state = ParserState::ResponseStatusCode1;
                if self.report_version(handler, 2, 0) {
                    context.mark();
                    return Ok(ParserValue::Continue);
                }
                return Ok(ParserValue::Exit(Success::Callback(context.stream_index)));
                } else if context.starts_with(&http_1_0) {
                context.jump(9);
                self.state = ParserState::ResponseStatusCode1;
                if self.report_version(handler, 1, 0) {
                    context.mark();
                    return Ok(ParserValue::Continue);
                }
                return Ok(ParserValue::Exit(Success::Callback(context.stream_index)));
                } else if context.starts_with(&http_slash) {
                    context.jump(5);
                    self.state = ParserState::ResponseVersionMajor1;
                    context.mark();
                    return Ok(ParserValue::Continue);
                }
            } else {
                context.jump(1);
                self.state = ParserState::Detect2;
                context.mark();
                return Ok(ParserValue::Continue);
            }
        }
        if context.has_bytes(8) {
            // enough bytes to compare all known methods immediately
            if context.starts_with(&get) {
                context.jump(4);
                self.state = ParserState::RequestUrl1;
                if self.report_method(handler, &[0x47u8, 0x45, 0x54]) {
                    context.mark();
                    return Ok(ParserValue::Continue);
                }
                return Ok(ParserValue::Exit(Success::Callback(context.stream_index)));
            } else if context.byte == 0x50 {
                if context.starts_with(&post) {
                    context.jump(5);
                    self.state = ParserState::RequestUrl1;
                    if self.report_method(handler, &[0x50u8, 0x4F, 0x53, 0x54]) {
                        context.mark();
                        return Ok(ParserValue::Continue);
                    }
                    return Ok(ParserValue::Exit(Success::Callback(context.stream_index)));
                } else if context.starts_with(&put) {
                    context.jump(4);
                    self.state = ParserState::RequestUrl1;
                    if self.report_method(handler, &[0x50u8, 0x55, 0x54]) {
                        context.mark();
                        return Ok(ParserValue::Continue);
                    }
                    return Ok(ParserValue::Exit(Success::Callback(context.stream_index)));
                }
            } else if context.starts_with(&delete) {
                context.jump(7);
                self.state = ParserState::RequestUrl1;
                if self.report_method(handler, &[0x44u8, 0x45, 0x4C, 0x45, 0x54, 0x45]) {
                    context.mark();
                    return Ok(ParserValue::Continue);
                }
                return Ok(ParserValue::Exit(Success::Callback(context.stream_index)));
            } else if context.starts_with(&connect) {
                context.jump(8);
                self.state = ParserState::RequestUrl1;
                if self.report_method(handler, &[0x43u8, 0x4F, 0x4E, 0x4E, 0x45, 0x43, 0x54]) {
                    context.mark();
                    return Ok(ParserValue::Continue);
                }
                return Ok(ParserValue::Exit(Success::Callback(context.stream_index)));
            } else if context.starts_with(&options) {
                context.jump(8);
                self.state = ParserState::RequestUrl1;
                if self.report_method(handler, &[0x4Fu8, 0x50, 0x54, 0x49, 0x4F, 0x4E, 0x53]) {
                    context.mark();
                    return Ok(ParserValue::Continue);
                }
                return Ok(ParserValue::Exit(Success::Callback(context.stream_index)));
            } else if context.starts_with(&head) {
                context.jump(5);
                self.state = ParserState::RequestUrl1;
                if self.report_method(handler, &[0x48u8, 0x45, 0x41, 0x44]) {
                    context.mark();
                    return Ok(ParserValue::Continue);
                }
                return Ok(ParserValue::Exit(Success::Callback(context.stream_index)));
            } else if context.starts_with(&trace) {
                context.jump(6);
                self.state = ParserState::RequestUrl1;
                if self.report_method(handler, &[0x54u8, 0x52, 0x41, 0x43, 0x45]) {
                    context.mark();
                    return Ok(ParserValue::Continue);
                }
                return Ok(ParserValue::Exit(Success::Callback(context.stream_index)));
            } else if context.starts_with(&pri) {
                context.jump(4);
                self.state = ParserState::RequestUrl1;
                if self.report_method(handler, &[0x50u8, 0x52, 0x49]) {
                    context.mark();
                    return Ok(ParserValue::Continue);
                }
                return Ok(ParserValue::Exit(Success::Callback(context.stream_index)));
            }
        }
        if context.available() == 0 {
            return Ok(ParserValue::Exit(Success::Eos(context.stream_index)));
        }
        context.next();
        // make sure we have an upper-cased alphabetical character
        if is_upper(context.byte) {
            self.state = ParserState::RequestMethod;
            return Ok(ParserValue::Continue);
        }
        Err(ParserError::Method(context.byte))
    }

    /// State function of `ParserState::Detect2`.
    pub fn detect2<T: HttpHandler>(&mut self, _handler: &mut T, context: &mut ByteStream) -> (r: Result<
        ParserValue,
        ParserError,
    >)
        requires
            old(self).ready(*old(context), ParserState::Detect2),
        ensures
            step_post(*old(self), *final(self), *old(context), *final(context), r),
            byte_step(
                *old(self),
                *final(self),
                *old(context),
                *final(context),
                r,
                |b: u8|
                    if b == 0x54 {
                        Some(ParserState::Detect3)
                    } else if spec_is_upper(b) {
                        Some(ParserState::RequestMethod)
                    } else {
                        None
                    },
                |b: u8| false,
                |b: u8| ParserError::Method(b),
            ),
            detect_follows(*old(self), *final(self), *old(context), *final(context), r),
    {
        if context.available() == 0 {
            return Ok(ParserValue::Exit(Success::Eos(context.stream_index)));
        }
        context.next();
        if context.byte == 0x54 {
            self.state = ParserState::Detect3;
            context.mark();
            return Ok(ParserValue::Continue);
        }
        // make sure we have an upper-cased alphabetical character
        if is_upper(context.byte) {
            self.state = ParserState::RequestMethod;
            return Ok(ParserValue::Continue);
        }
        Err(ParserError::Method(context.byte))
    }

    /// State function of `ParserState::Detect3`.
    pub fn detect3<T: HttpHandler>(&mut self, _handler: &mut T, context: &mut ByteStream) -> (r: Result<
        ParserValue,
        ParserError,
    >)
        requires
            old(self).ready(*old(context), ParserState::Detect3),
        ensures
            step_post(*old(self), *final(self), *old(context), *final(context), r),
            byte_step(
                *old(self),
                *final(self),
                *old(context),
                *final(context),
                r,
                |b: u8|
                    if b == 0x54 {
                        Some(ParserState::Detect4)
                    } else if spec_is_upper(b) {
                        Some(ParserState::RequestMethod)
                    } else {
                        None
                    },
                |b: u8| false,
                |b: u8| ParserError::Method(b),
            ),
            detect_follows(*old(self), *final(self), *old(context), *final(context), r),
    {
        if context.available() == 0 {
            return Ok(ParserValue::Exit(Success::Eos(context.stream_index)));
        }
        context.next();
        if context.byte == 0x54 {
            self.state = ParserState::Detect4;
            context.mark();
            return Ok(ParserValue::Continue);
        }
        // make sure we have an upper-cased alphabetical character
        if is_upper(context.byte) {
            self.state = ParserState::RequestMethod;
            return Ok(ParserValue::Continue);
        }
        Err(ParserError::Method(context.byte))
    }

    /// State function of `ParserState::Detect4`.
    pub fn detect4<T: HttpHandler>(&mut self, _handler: &mut T, context: &mut ByteStream) -> (r: Result<
        ParserValue,
        ParserError,
    >)
        requires
            old(self).ready(*old(context), ParserState::Detect4),
        ensures
            step_post(*old(self), *final(self), *old(context), *final(context), r),
            byte_step(
                *old(self),
                *final(self),
                *old(context),
                *final(context),
                r,
                |b: u8|
                    if b == 0x50 {
                        Some(ParserState::Detect5)
                    } else if spec_is_upper(b) {
                        Some(ParserState::RequestMethod)
                    } else {
                        None
                    },
                |b: u8| false,
                |b: u8| ParserError::Method(b),
            ),
            detect_follows(*old(self), *final(self), *old(context), *final(context), r),
    {
        if context.available() == 0 {
            return Ok(ParserValue::Exit(Success::Eos(context.stream_index)));
        }
        context.next();
        if context.byte == 0x50 {
            self.state = ParserState::Detect5;
            context.mark();
            return Ok(ParserValue::Continue);
        }
        // make sure we have an upper-cased alphabetical character
        if is_upper(context.byte) {
            self.state = ParserState::RequestMethod;
            return Ok(ParserValue::Continue);
        }
        Err(ParserError::Method(context.byte))
    }

    /// State function of `ParserState::Detect5`.
    pub fn detect5<T: HttpHandler>(&mut self, _handler: &mut T, context: &mut ByteStream) -> (r: Result<
        ParserValue,
        ParserError,
    >)
        requires
            old(self).ready(*old(context), ParserState::Detect5),
        ensures
            step_post(*old(self), *final(self), *old(context), *final(context), r),
            byte_step(
                *old(self),
                *final(self),
                *old(context),
                *final(context),
                r,
                |b: u8|
                    if b == 0x2F {
                        Some(ParserState::ResponseVersionMajor1)
                    } else if spec_is_upper(b) {
                        Some(ParserState::RequestMethod)
                    } else {
                        None
                    },
                |b: u8| false,
                |b: u8| ParserError::Method(b),
            ),
            detect_follows(*old(self), *final(self), *old(context), *final(context), r),
    {
        if context.available() == 0 {
            return Ok(ParserValue::Exit(Success::Eos(context.stream_index)));
        }
        context.next();
        if context.byte == 0x2F {
            self.state = ParserState::ResponseVersionMajor1;
            context.mark();
            return Ok(ParserValue::Continue);
        }
        // make sure we have an upper-cased alphabetical character
        if is_upper(context.byte) {
            self.state = ParserState::RequestMethod;
            return Ok(ParserValue::Continue);
        }
        Err(ParserError::Method(context.byte))
    }

    /// State function of `ParserState::RequestMethod`.
    pub fn request_method<T: HttpHandler>(&mut self, handler: &mut T, context: &mut ByteStream) -> (r: Result<
        ParserValue,
        ParserError,
    >)
        requires
            old(self).ready(*old(context), ParserState::RequestMethod),
        ensures
            step_post(*old(self), *final(self), *old(context), *final(context), r),
            collect_step(
                *old(self),
                *final(self),
                *old(context),
                *final(context),
                r,
                Collect::Upper,
                |b: u8|
                    if b == 0x20 {
                        Some(ParserState::RequestUrl1)
                    } else {
                        None
                    },
                |b: u8| false,
                |b: u8| ParserError::Method(b),
            ),
            message_step(*old(self), *final(self), *old(context), *final(context), r),
            ({
                let k = first_outside(
                    old(context).stream@,
                    old(context).stream_index as int,
                    Collect::Upper,
                );
                let bytes = old(context).stream@.subrange(old(context).mark_index as int, k);
                if r is Ok && bytes.len() > 0 {
                    pushed(old(self).spec_events(), final(self).spec_events(), Callback::Method, bytes, 0, 0)
                } else {
                    final(self).spec_events() == old(self).spec_events()
                }
            }),
    {
        proof {
            lemma_message_run_short(self.message_position());
        }
        let ghost i0 = context.stream_index as int;
        let found = collect(context, Collect::Upper);
        proof {
            lemma_message_collect(
                self.message_position(),
                context.stream@,
                i0,
                context.stream_index as int,
                found,
                Collect::Upper,
            );
        }
        if !found {
            if context.slice_length() > 0 {
                if self.report_method(handler, context.slice()) {
                    return Ok(ParserValue::Exit(Success::Eos(context.stream_index)));
                }
                return Ok(ParserValue::Exit(Success::Callback(context.stream_index)));
            }
            return Ok(ParserValue::Exit(Success::Eos(context.stream_index)));
        }
        if context.byte == 0x20 {
            self.state = ParserState::RequestUrl1;
            if context.slice_length() > 1 {
                if self.report_method(handler, context.slice_ignore()) {
                    context.mark();
                    return Ok(ParserValue::Continue);
                }
                return Ok(ParserValue::Exit(Success::Callback(context.stream_index)));
            }
            context.mark();
            return Ok(ParserValue::Continue);
        }
        Err(ParserError::Method(context.byte))
    }

    /// State function of `ParserState::RequestUrl1`.
    pub fn request_url1<T: HttpHandler>(&mut self, _handler: &mut T, context: &mut ByteStream) -> (r: Result<
        ParserValue,
        ParserError,
    >)
        requires
            old(self).ready(*old(context), ParserState::RequestUrl1),
        ensures
            step_post(*old(self), *final(self), *old(context), *final(context), r),
            byte_step(
                *old(self),
                *final(self),
                *old(context),
                *final(context),
                r,
                |b: u8|
                    if spec_is_visible_7bit(b) {
                        Some(ParserState::RequestUrl2)
                    } else {
                        None
                    },
                |b: u8| false,
                |b: u8| ParserError::Url(b),
            ),
            message_step(*old(self), *final(self), *old(context), *final(context), r),
    {
        proof {
            lemma_message_run_short(self.message_position());
        }
        if context.available() == 0 {
            return Ok(ParserValue::Exit(Success::Eos(context.stream_index)));
        }
        context.next();
        if is_visible_7bit(context.byte) {
            self.state = ParserState::RequestUrl2;
            return Ok(ParserValue::Continue);
        }
        Err(ParserError::Url(context.byte))
    }

    /// State function of `ParserState::RequestUrl2`.
    pub fn request_url2<T: HttpHandler>(&mut self, handler: &mut T, context: &mut ByteStream) -> (r: Result<
        ParserValue,
        ParserError,
    >)
        requires
            old(self).ready(*old(context), ParserState::RequestUrl2),
        ensures
            step_post(*old(self), *final(self), *old(context), *final(context), r),
            collect_step(
                *old(self),
                *final(self),
                *old(context),
                *final(context),
                r,
                Collect::Visible,
                |b: u8|
                    if b == 0x20 {
                        Some(ParserState::RequestHttp1)
                    } else {
                        None
                    },
                |b: u8| false,
                |b: u8| ParserError::Url(b),
            ),
            message_step(*old(self), *final(self), *old(context), *final(context), r),
            ({
                let k = first_outside(
                    old(context).stream@,
                    old(context).stream_index as int,
                    Collect::Visible,
                );
                let bytes = old(context).stream@.subrange(old(context).mark_index as int, k);
                if r is Ok && bytes.len() > 0 {
                    pushed(old(self).spec_events(), final(self).spec_events(), Callback::Url, bytes, 0, 0)
                } else {
                    final(self).spec_events() == old(self).spec_events()
                }
            }),
    {
        proof {
            lemma_message_run_short(self.message_position());
        }
        let ghost i0 = context.stream_index as int;
        let found = collect(context, Collect::Visible);
        proof {
            lemma_message_collect(
                self.message_position(),
                context.stream@,
                i0,
                context.stream_index as int,
                found,
                Collect::Visible,
            );
        }
        if !found {
            if context.slice_length() > 0 {
                if self.report_url(handler, context.slice()) {
                    return Ok(ParserValue::Exit(Success::Eos(context.stream_index)));
                }
                return Ok(ParserValue::Exit(Success::Callback(context.stream_index)));
            }
            return Ok(ParserValue::Exit(Success::Eos(context.stream_index)));
        }
        if context.byte == 0x20 {
            self.state = ParserState::RequestHttp1;
            if context.slice_length() > 1 {
                if self.report_url(handler, context.slice_ignore()) {
                    context.mark();
                    return Ok(ParserValue::Continue);
                }
                return Ok(ParserValue::Exit(Success::Callback(context.stream_index)));
            }
            context.mark();
            return Ok(ParserValue::Continue);
        }
        Err(ParserError::Url(context.byte))
    }

    /// State function of `ParserState::RequestHttp1`.
    pub fn request_http1<T: HttpHandler>(&mut self, handler: &mut T, context: &mut ByteStream) -> (r: Result<
        ParserValue,
        ParserError,
    >)
        requires
            old(self).ready(*old(context), ParserState::RequestHttp1),
        ensures
            step_post(*old(self), *final(self), *old(context), *final(context), r),
            request_version_shortcut(*old(context)) ==> final(context).stream_index
                == old(context).stream_index + 9 && pass_step(
                *old(self),
                *final(self),
                *final(context),
                *final(context),
                r,
                ParserState::InitialEnd,
            ),
            !request_version_shortcut(*old(context)) ==> byte_step(
                *old(self),
                *final(self),
                *old(context),
                *final(context),
                r,
                |b: u8|
                    if b == 0x48 {
                        Some(ParserState::RequestHttp2)
                    } else {
                        None
                    },
                |b: u8| false,
                |b: u8| ParserError::Version(b),
            ),
            message_step(*old(self), *final(self), *old(context), *final(context), r),
    {
        proof {
            lemma_message_run_short(self.message_position());
            if request_version_shortcut(*context) {
                lemma_request_version_shortcut(*context, self.length);
            }
        }
        let http_1_1_cr: [u8; 9] = [0x48, 0x54, 0x54, 0x50, 0x2F, 0x31, 0x2E, 0x31, 0x0D];
        let http_2_0_cr: [u8; 9] = [0x48, 0x54, 0x54, 0x50, 0x2F, 0x32, 0x2E, 0x30, 0x0D];
        let http_1_0_cr: [u8; 9] = [0x48, 0x54, 0x54, 0x50, 0x2F, 0x31, 0x2E, 0x30, 0x0D];
        proof {
            assert(http_1_1_cr@ == seq![0x48u8, 0x54, 0x54, 0x50, 0x2F, 0x31, 0x2E, 0x31, 0x0D]);
            assert(http_2_0_cr@ == seq![0x48u8, 0x54, 0x54, 0x50, 0x2F, 0x32, 0x2E, 0x30, 0x0D]);
            assert(http_1_0_cr@ == seq![0x48u8, 0x54, 0x54, 0x50, 0x2F, 0x31, 0x2E, 0x30, 0x0D]);
        }
        if context.has_bytes(9) {
            // enough bytes to compare all known versions immediately
            if context.starts_with(&http_1_1_cr) {
                context.jump(9);
                self.state = ParserState::InitialEnd;
                if self.report_version(handler, 1, 1) {
                    context.mark();
                    return Ok(ParserValue::Continue);
                }
                return Ok(ParserValue::Exit(Success::Callback(context.stream_index)));
            } else if context.starts_with(&http_2_0_cr) {
                context.jump(9);
                self.state = ParserState::InitialEnd;
                if self.report_version(handler, 2, 0) {
                    context.mark();
                    return Ok(ParserValue::Continue);
                }
                return Ok(ParserValue::Exit(Success::Callback(context.stream_index)));
            } else if context.starts_with(&http_1_0_cr) {
                context.jump(9);
                self.state = ParserState::InitialEnd;
                if self.report_version(handler, 1, 0) {
                    context.mark();
                    return Ok(ParserValue::Continue);
                }
                return Ok(ParserValue::Exit(Success::Callback(context.stream_index)));
            }
        }
        if context.available() == 0 {
            return Ok(ParserValue::Exit(Success::Eos(context.stream_index)));
        }
        context.next();
        if context.byte == 0x48 {
            self.state = ParserState::RequestHttp2;
            context.mark();
            return Ok(ParserValue::Continue);
        }
        Err(ParserError::Version(context.byte))
    }

    /// State function of `ParserState::RequestHttp2`.
    pub fn request_http2<T: HttpHandler>(&mut self, _handler: &mut T, context: &mut ByteStream) -> (r: Result<
        ParserValue,
        ParserError,
    >)
        requires
            old(self).ready(*old(context), ParserState::RequestHttp2),
        ensures
            step_post(*old(self), *final(self), *old(context), *final(context), r),
            expect_step(
                *old(self),
                *final(self),
                *old(context),
                *final(context),
                r,
                0x54,
                ParserState::RequestHttp3,
                |b: u8| ParserError::Version(b),
            ),
            message_step(*old(self), *final(self), *old(context), *final(context), r),
    {
        proof {
            lemma_message_run_short(self.message_position());
        }
        if context.available() == 0 {
            return Ok(ParserValue::Exit(Success::Eos(context.stream_index)));
        }
        context.next();
        if context.byte == 0x54 {
            self.state = ParserState::RequestHttp3;
            context.mark();
            return Ok(ParserValue::Continue);
        }
        Err(ParserError::Version(context.byte))
    }

    /// State function of `ParserState::RequestHttp3`.
    pub fn request_http3<T: HttpHandler>(&mut self, _handler: &mut T, context: &mut ByteStream) -> (r: Result<
        ParserValue,
        ParserError,
    >)
        requires
            old(self).ready(*old(context), ParserState::RequestHttp3),
        ensures
            step_post(*old(self), *final(self), *old(context), *final(context), r),
            expect_step(
                *old(self),
                *final(self),
                *old(context),
                *final(context),
                r,
                0x54,
                ParserState::RequestHttp4,
                |b: u8| ParserError::Version(b),
            ),
            message_step(*old(self), *final(self), *old(context), *final(context), r),
    {
        proof {
            lemma_message_run_short(self.message_position());
        }
        if context.available() == 0 {
            return Ok(ParserValue::Exit(Success::Eos(context.stream_index)));
        }
        context.next();
        if context.byte == 0x54 {
            self.state = ParserState::RequestHttp4;
            context.mark();
            return Ok(ParserValue::Continue);
        }
        Err(ParserError::Version(context.byte))
    }

    /// State function of `ParserState::RequestHttp4`.
    pub fn request_http4<T: HttpHandler>(&mut self, _handler: &mut T, context: &mut ByteStream) -> (r: Result<
        ParserValue,
        ParserError,
    >)
        requires
            old(self).ready(*old(context), ParserState::RequestHttp4),
        ensures
            step_post(*old(self), *final(self), *old(context), *final(context), r),
            expect_step(
                *old(self),
                *final(self),
                *old(context),
                *final(context),
                r,
                0x50,
                ParserState::RequestHttp5,
                |b: u8| ParserError::Version(b),
            ),
            message_step(*old(self), *final(self), *old(context), *final(context), r),
    {
        proof {
            lemma_message_run_short(self.message_position());
        }
        if context.available() == 0 {
            return Ok(ParserValue::Exit(Success::Eos(context.stream_index)));
        }
        context.next();
        if context.byte == 0x50 {
            self.state = ParserState::RequestHttp5;
            context.mark();
            return Ok(ParserValue::Continue);
        }
        Err(ParserError::Version(context.byte))
    }

    /// State function of `ParserState::RequestHttp5`.
    pub fn request_http5<T: HttpHandler>(&mut self, _handler: &mut T, context: &mut ByteStream) -> (r: Result<
        ParserValue,
        ParserError,
    >)
        requires
            old(self).ready(*old(context), ParserState::RequestHttp5),
        ensures
            step_post(*old(self), *final(self), *old(context), *final(context), r),
            expect_step(
                *old(self),
                *final(self),
                *old(context),
                *final(context),
                r,
                0x2F,
                ParserState::RequestVersionMajor1,
                |b: u8| ParserError::Version(b),
            ),
            message_step(*old(self), *final(self), *old(context), *final(context), r),
    {
        proof {
            lemma_message_run_short(self.message_position());
        }
        if context.available() == 0 {
            return Ok(ParserValue::Exit(Success::Eos(context.stream_index)));
        }
        context.next();
        if context.byte == 0x2F {
            self.state = ParserState::RequestVersionMajor1;
            context.mark();
            return Ok(ParserValue::Continue);
        }
        Err(ParserError::Version(context.byte))
    }

    /// State function of `ParserState::RequestVersionMajor1`.
    pub fn request_version_major1<T: HttpHandler>(&mut self, _handler: &mut T, context: &mut ByteStream) -> (r: Result<
        ParserValue,
        ParserError,
    >)
        requires
            old(self).ready(*old(context), ParserState::RequestVersionMajor1),
        ensures
            step_post(*old(self), *final(self), *old(context), *final(context), r),
            byte_step(
                *old(self),
                *final(self),
                *old(context),
                *final(context),
                r,
                |b: u8|
                    if spec_is_digit(b) {
                        Some(ParserState::RequestVersionMajor2)
                    } else {
                        None
                    },
                |b: u8| false,
                |b: u8| ParserError::Version(b),
            ),
            message_step(*old(self), *final(self), *old(context), *final(context), r),
    {
        proof {
            lemma_message_run_short(self.message_position());
        }
        if context.available() == 0 {
            return Ok(ParserValue::Exit(Success::Eos(context.stream_index)));
        }
        context.next();
        self.lower = 0;
        self.upper = 0;
        if is_digit(context.byte) {
            self.lower = (context.byte - 0x30) as u32;
            self.state = ParserState::RequestVersionMajor2;
            context.mark();
            return Ok(ParserValue::Continue);
        }
        Err(ParserError::Version(context.byte))
    }

    /// State function of `ParserState::RequestVersionMajor2`.
    pub fn request_version_major2<T: HttpHandler>(&mut self, _handler: &mut T, context: &mut ByteStream) -> (r: Result<
        ParserValue,
        ParserError,
    >)
        requires
            old(self).ready(*old(context), ParserState::RequestVersionMajor2),
        ensures
            step_post(*old(self), *final(self), *old(context), *final(context), r),
            byte_step(
                *old(self),
                *final(self),
                *old(context),
                *final(context),
                r,
                |b: u8|
                    if b == 0x2E {
                        Some(ParserState::RequestVersionMinor1)
                    } else if spec_is_digit(b) {
                        Some(ParserState::RequestVersionMajor3)
                    } else {
                        None
                    },
                |b: u8| false,
                |b: u8| ParserError::Version(b),
            ),
            message_step(*old(self), *final(self), *old(context), *final(context), r),
    {
        proof {
            lemma_message_run_short(self.message_position());
        }
        if context.available() == 0 {
            return Ok(ParserValue::Exit(Success::Eos(context.stream_index)));
        }
        context.next();
        if context.byte == 0x2E {
            self.state = ParserState::RequestVersionMinor1;
            context.mark();
            return Ok(ParserValue::Continue);
        } else if is_digit(context.byte) {
            self.lower = self.lower * 10 + (context.byte - 0x30) as u32;
            self.state = ParserState::RequestVersionMajor3;
            context.mark();
            return Ok(ParserValue::Continue);
        }
        Err(ParserError::Version(context.byte))
    }

    /// State function of `ParserState::RequestVersionMajor3`.
    pub fn request_version_major3<T: HttpHandler>(&mut self, _handler: &mut T, context: &mut ByteStream) -> (r: Result<
        ParserValue,
        ParserError,
    >)
        requires
            old(self).ready(*old(context), ParserState::RequestVersionMajor3),
        ensures
            step_post(*old(self), *final(self), *old(context), *final(context), r),
            byte_step(
                *old(self),
                *final(self),
                *old(context),
                *final(context),
                r,
                |b: u8|
                    if b == 0x2E {
                        Some(ParserState::RequestVersionMinor1)
                    } else if spec_is_digit(b) {
                        Some(ParserState::RequestVersionPeriod)
                    } else {
                        None
                    },
                |b: u8| false,
                |b: u8| ParserError::Version(b),
            ),
            message_step(*old(self), *final(self), *old(context), *final(context), r),
    {
        proof {
            lemma_message_run_short(self.message_position());
        }
        if context.available() == 0 {
            return Ok(ParserValue::Exit(Success::Eos(context.stream_index)));
        }
        context.next();
        if context.byte == 0x2E {
            self.state = ParserState::RequestVersionMinor1;
            context.mark();
            return Ok(ParserValue::Continue);
        } else if is_digit(context.byte) {
            self.lower = self.lower * 10 + (context.byte - 0x30) as u32;
            self.state = ParserState::RequestVersionPeriod;
            context.mark();
            return Ok(ParserValue::Continue);
        }
        Err(ParserError::Version(context.byte))
    }

    /// State function of `ParserState::RequestVersionPeriod`.
    pub fn request_version_period<T: HttpHandler>(&mut self, _handler: &mut T, context: &mut ByteStream) -> (r: Result<
        ParserValue,
        ParserError,
    >)
        requires
            old(self).ready(*old(context), ParserState::RequestVersionPeriod),
        ensures
            step_post(*old(self), *final(self), *old(context), *final(context), r),
            expect_step(
                *old(self),
                *final(self),
                *old(context),
                *final(context),
                r,
                0x2E,
                ParserState::RequestVersionMinor1,
                |b: u8| ParserError::Version(b),
            ),
            message_step(*old(self), *final(self), *old(context), *final(context), r),
    {
        proof {
            lemma_message_run_short(self.message_position());
        }
        if context.available() == 0 {
            return Ok(ParserValue::Exit(Success::Eos(context.stream_index)));
        }
        context.next();
        if context.byte == 0x2E {
            self.state = ParserState::RequestVersionMinor1;
            context.mark();
            return Ok(ParserValue::Continue);
        }
        Err(ParserError::Version(context.byte))
    }

    /// State function of `ParserState::RequestVersionMinor1`.
    pub fn request_version_minor1<T: HttpHandler>(&mut self, _handler: &mut T, context: &mut ByteStream) -> (r: Result<
        ParserValue,
        ParserError,
    >)
        requires
            old(self).ready(*old(context), ParserState::RequestVersionMinor1),
        ensures
            step_post(*old(self), *final(self), *old(context), *final(context), r),
            byte_step(
                *old(self),
                *final(self),
                *old(context),
                *final(context),
                r,
                |b: u8|
                    if spec_is_digit(b) {
                        Some(ParserState::RequestVersionMinor2)
                    } else {
                        None
                    },
                |b: u8| false,
                |b: u8| ParserError::Version(b),
            ),
            message_step(*old(self), *final(self), *old(context), *final(context), r),
    {
        proof {
            lemma_message_run_short(self.message_position());
        }
        if context.available() == 0 {
            return Ok(ParserValue::Exit(Success::Eos(context.stream_index)));
        }
        context.next();
        if is_digit(context.byte) {
            self.upper = (context.byte - 0x30) as usize;
            self.state = ParserState::RequestVersionMinor2;
            context.mark();
            return Ok(ParserValue::Continue);
        }
        Err(ParserError::Version(context.byte))
    }

    /// State function of `ParserState::RequestVersionMinor2`.
    pub fn request_version_minor2<T: HttpHandler>(&mut self, _handler: &mut T, context: &mut ByteStream) -> (r: Result<
        ParserValue,
        ParserError,
    >)
        requires
            old(self).ready(*old(context), ParserState::RequestVersionMinor2),
        ensures
            step_post(*old(self), *final(self), *old(context), *final(context), r),
            byte_step(
                *old(self),
                *final(self),
                *old(context),
                *final(context),
                r,
                |b: u8|
                    if b == 0x0D {
                        Some(ParserState::RequestVersionCr)
                    } else if spec_is_digit(b) {
                        Some(ParserState::RequestVersionMinor3)
                    } else {
                        None
                    },
                |b: u8| b == 0x0D,
                |b: u8| ParserError::Version(b),
            ),
            message_step(*old(self), *final(self), *old(context), *final(context), r),
    {
        proof {
            lemma_message_run_short(self.message_position());
        }
        if context.available() == 0 {
            return Ok(ParserValue::Exit(Success::Eos(context.stream_index)));
        }
        context.next();
        if context.byte == 0x0D {
            context.replay();
            self.state = ParserState::RequestVersionCr;
            context.mark();
            return Ok(ParserValue::Continue);
        } else if is_digit(context.byte) {
            self.upper = self.upper * 10 + (context.byte - 0x30) as usize;
            self.state = ParserState::RequestVersionMinor3;
            context.mark();
            return Ok(ParserValue::Continue);
        }
        Err(ParserError::Version(context.byte))
    }

    /// State function of `ParserState::RequestVersionMinor3`.
    pub fn request_version_minor3<T: HttpHandler>(&mut self, _handler: &mut T, context: &mut ByteStream) -> (r: Result<
        ParserValue,
        ParserError,
    >)
        requires
            old(self).ready(*old(context), ParserState::RequestVersionMinor3),
        ensures
            step_post(*old(self), *final(self), *old(context), *final(context), r),
            byte_step(
                *old(self),
                *final(self),
                *old(context),
                *final(context),
                r,
                |b: u8|
                    if b == 0x0D {
                        Some(ParserState::RequestVersionCr)
                    } else if spec_is_digit(b) {
                        Some(ParserState::RequestVersionCr)
                    } else {
                        None
                    },
                |b: u8| b == 0x0D,
                |b: u8| ParserError::Version(b),
            ),
            message_step(*old(self), *final(self), *old(context), *final(context), r),
    {
        proof {
            lemma_message_run_short(self.message_position());
        }
        if context.available() == 0 {
            return Ok(ParserValue::Exit(Success::Eos(context.stream_index)));
        }
        context.next();
        if context.byte == 0x0D {
            context.replay();
            self.state = ParserState::RequestVersionCr;
            context.mark();
            return Ok(ParserValue::Continue);
        } else if is_digit(context.byte) {
            self.upper = self.upper * 10 + (context.byte - 0x30) as usize;
            self.state = ParserState::RequestVersionCr;
            context.mark();
            return Ok(ParserValue::Continue);
        }
        Err(ParserError::Version(context.byte))
    }

    /// State function of `ParserState::RequestVersionCr`.
    pub fn request_version_cr<T: HttpHandler>(&mut self, handler: &mut T, context: &mut ByteStream) -> (r: Result<
        ParserValue,
        ParserError,
    >)
        requires
            old(self).ready(*old(context), ParserState::RequestVersionCr),
        ensures
            step_post(*old(self), *final(self), *old(context), *final(context), r),
            byte_step(
                *old(self),
                *final(self),
                *old(context),
                *final(context),
                r,
                |b: u8|
                    if b == 0x0D {
                        Some(ParserState::InitialEnd)
                    } else {
                        None
                    },
                |b: u8| false,
                |b: u8| ParserError::Version(b),
            ),
            message_step(*old(self), *final(self), *old(context), *final(context), r),
    {
        proof {
            lemma_message_run_short(self.message_position());
        }
        if context.available() == 0 {
            return Ok(ParserValue::Exit(Success::Eos(context.stream_index)));
        }
        context.next();
        if context.byte == 0x0D {
            self.state = ParserState::InitialEnd;
            if self.report_version(handler, self.lower as u16, self.upper as u16) {
                context.mark();
                return Ok(ParserValue::Continue);
            }
            return Ok(ParserValue::Exit(Success::Callback(context.stream_index)));
        }
        Err(ParserError::Version(context.byte))
    }

    /// State function of `ParserState::ResponseVersionMajor1`.
    pub fn response_version_major1<T: HttpHandler>(&mut self, _handler: &mut T, context: &mut ByteStream) -> (r: Result<
        ParserValue,
        ParserError,
    >)
        requires
            old(self).ready(*old(context), ParserState::ResponseVersionMajor1),
        ensures
            step_post(*old(self), *final(self), *old(context), *final(context), r),
            byte_step(
                *old(self),
                *final(self),
                *old(context),
                *final(context),
                r,
                |b: u8|
                    if spec_is_digit(b) {
                        Some(ParserState::ResponseVersionMajor2)
                    } else {
                        None
                    },
                |b: u8| false,
                |b: u8| ParserError::Version(b),
            ),
            message_step(*old(self), *final(self), *old(context), *final(context), r),
    {
        proof {
            lemma_message_run_short(self.message_position());
        }
        if context.available() == 0 {
            return Ok(ParserValue::Exit(Success::Eos(context.stream_index)));
        }
        context.next();
        self.lower = 0;
        self.upper = 0;
        if is_digit(context.byte) {
            self.lower = (context.byte - 0x30) as u32;
            self.state = ParserState::ResponseVersionMajor2;
            context.mark();
            return Ok(ParserValue::Continue);
        }
        Err(ParserError::Version(context.byte))
    }

    /// State function of `ParserState::ResponseVersionMajor2`.
    pub fn response_version_major2<T: HttpHandler>(&mut self, _handler: &mut T, context: &mut ByteStream) -> (r: Result<
        ParserValue,
        ParserError,
    >)
        requires
            old(self).ready(*old(context), ParserState::ResponseVersionMajor2),
        ensures
            step_post(*old(self), *final(self), *old(context), *final(context), r),
            byte_step(
                *old(self),
                *final(self),
                *old(context),
                *final(context),
                r,
                |b: u8|
                    if b == 0x2E {
                        Some(ParserState::ResponseVersionMinor1)
                    } else if spec_is_digit(b) {
                        Some(ParserState::ResponseVersionMajor3)
                    } else {
                        None
                    },
                |b: u8| false,
                |b: u8| ParserError::Version(b),
            ),
            message_step(*old(self), *final(self), *old(context), *final(context), r),
    {
        proof {
            lemma_message_run_short(self.message_position());
        }
        if context.available() == 0 {
            return Ok(ParserValue::Exit(Success::Eos(context.stream_index)));
        }
        context.next();
        if context.byte == 0x2E {
            self.state = ParserState::ResponseVersionMinor1;
            context.mark();
            return Ok(ParserValue::Continue);
        } else if is_digit(context.byte) {
            self.lower = self.lower * 10 + (context.byte - 0x30) as u32;
            self.state = ParserState::ResponseVersionMajor3;
            context.mark();
            return Ok(ParserValue::Continue);
        }
        Err(ParserError::Version(context.byte))
    }

    /// State function of `ParserState::ResponseVersionMajor3`.
    pub fn response_version_major3<T: HttpHandler>(&mut self, _handler: &mut T, context: &mut ByteStream) -> (r: Result<
        ParserValue,
        ParserError,
    >)
        requires
            old(self).ready(*old(context), ParserState::ResponseVersionMajor3),
        ensures
            step_post(*old(self), *final(self), *old(context), *final(context), r),
            byte_step(
                *old(self),
                *final(self),
                *old(context),
                *final(context),
                r,
                |b: u8|
                    if b == 0x2E {
                        Some(ParserState::ResponseVersionMinor1)
                    } else if spec_is_digit(b) {
                        Some(ParserState::ResponseVersionPeriod)
                    } else {
                        None
                    },
                |b: u8| false,
                |b: u8| ParserError::Version(b),
            ),
            message_step(*old(self), *final(self), *old(context), *final(context), r),
    {
        proof {
            lemma_message_run_short(self.message_position());
        }
        if context.available() == 0 {
            return Ok(ParserValue::Exit(Success::Eos(context.stream_index)));
        }
        context.next();
        if context.byte == 0x2E {
            self.state = ParserState::ResponseVersionMinor1;
            context.mark();
            return Ok(ParserValue::Continue);
        } else if is_digit(context.byte) {
            self.lower = self.lower * 10 + (context.byte - 0x30) as u32;
            self.state = ParserState::ResponseVersionPeriod;
            context.mark();
            return Ok(ParserValue::Continue);
        }
        Err(ParserError::Version(context.byte))
    }

    /// State function of `ParserState::ResponseVersionPeriod`.
    pub fn response_version_period<T: HttpHandler>(&mut self, _handler: &mut T, context: &mut ByteStream) -> (r: Result<
        ParserValue,
        ParserError,
    >)
        requires
            old(self).ready(*old(context), ParserState::ResponseVersionPeriod),
        ensures
            step_post(*old(self), *final(self), *old(context), *final(context), r),
            expect_step(
                *old(self),
                *final(self),
                *old(context),
                *final(context),
                r,
                0x2E,
                ParserState::ResponseVersionMinor1,
                |b: u8| ParserError::Version(b),
            ),
            message_step(*old(self), *final(self), *old(context), *final(context), r),
    {
        proof {
            lemma_message_run_short(self.message_position());
        }
        if context.available() == 0 {
            return Ok(ParserValue::Exit(Success::Eos(context.stream_index)));
        }
        context.next();
        if context.byte == 0x2E {
            self.state = ParserState::ResponseVersionMinor1;
            context.mark();
            return Ok(ParserValue::Continue);
        }
        Err(ParserError::Version(context.byte))
    }

    /// State function of `ParserState::ResponseVersionMinor1`.
    pub fn response_version_minor1<T: HttpHandler>(&mut self, _handler: &mut T, context: &mut ByteStream) -> (r: Result<
        ParserValue,
        ParserError,
    >)
        requires
            old(self).ready(*old(context), ParserState::ResponseVersionMinor1),
        ensures
            step_post(*old(self), *final(self), *old(context), *final(context), r),
            byte_step(
                *old(self),
                *final(self),
                *old(context),
                *final(context),
                r,
                |b: u8|
                    if spec_is_digit(b) {
                        Some(ParserState::ResponseVersionMinor2)
                    } else {
                        None
                    },
                |b: u8| false,
                |b: u8| ParserError::Version(b),
            ),
            message_step(*old(self), *final(self), *old(context), *final(context), r),
    {
        proof {
            lemma_message_run_short(self.message_position());
        }
        if context.available() == 0 {
            return Ok(ParserValue::Exit(Success::Eos(context.stream_index)));
        }
        context.next();
        if is_digit(context.byte) {
            self.upper = (context.byte - 0x30) as usize;
            self.state = ParserState::ResponseVersionMinor2;
            context.mark();
            return Ok(ParserValue::Continue);
        }
        Err(ParserError::Version(context.byte))
    }

    /// State function of `ParserState::ResponseVersionMinor2`.
    pub fn response_version_minor2<T: HttpHandler>(&mut self, _handler: &mut T, context: &mut ByteStream) -> (r: Result<
        ParserValue,
        ParserError,
    >)
        requires
            old(self).ready(*old(context), ParserState::ResponseVersionMinor2),
        ensures
            step_post(*old(self), *final(self), *old(context), *final(context), r),
            byte_step(
                *old(self),
                *final(self),
                *old(context),
                *final(context),
                r,
                |b: u8|
                    if b == 0x20 {
                        Some(ParserState::ResponseVersionSpace)
                    } else if spec_is_digit(b) {
                        Some(ParserState::ResponseVersionMinor3)
                    } else {
                        None
                    },
                |b: u8| b == 0x20,
                |b: u8| ParserError::Version(b),
            ),
            message_step(*old(self), *final(self), *old(context), *final(context), r),
    {
        proof {
            lemma_message_run_short(self.message_position());
        }
        if context.available() == 0 {
            return Ok(ParserValue::Exit(Success::Eos(context.stream_index)));
        }
        context.next();
        if context.byte == 0x20 {
            context.replay();
            self.state = ParserState::ResponseVersionSpace;
            context.mark();
            return Ok(ParserValue::Continue);
        } else if is_digit(context.byte) {
            self.upper = self.upper * 10 + (context.byte - 0x30) as usize;
            self.state = ParserState::ResponseVersionMinor3;
            context.mark();
            return Ok(ParserValue::Continue);
        }
        Err(ParserError::Version(context.byte))
    }

    /// State function of `ParserState::ResponseVersionMinor3`.
    pub fn response_version_minor3<T: HttpHandler>(&mut self, _handler: &mut T, context: &mut ByteStream) -> (r: Result<
        ParserValue,
        ParserError,
    >)
        requires
            old(self).ready(*old(context), ParserState::ResponseVersionMinor3),
        ensures
            step_post(*old(self), *final(self), *old(context), *final(context), r),
            byte_step(
                *old(self),
                *final(self),
                *old(context),
                *final(context),
                r,
                |b: u8|
                    if b == 0x20 {
                        Some(ParserState::ResponseVersionSpace)
                    } else if spec_is_digit(b) {
                        Some(ParserState::ResponseVersionSpace)
                    } else {
                        None
                    },
                |b: u8| b == 0x20,
                |b: u8| ParserError::Version(b),
            ),
            message_step(*old(self), *final(self), *old(context), *final(context), r),
    {
        proof {
            lemma_message_run_short(self.message_position());
        }
        if context.available() == 0 {
            return Ok(ParserValue::Exit(Success::Eos(context.stream_index)));
        }
        context.next();
        if context.byte == 0x20 {
            context.replay();
            self.state = ParserState::ResponseVersionSpace;
            context.mark();
            return Ok(ParserValue::Continue);
        } else if is_digit(context.byte) {
            self.upper = self.upper * 10 + (context.byte - 0x30) as usize;
            self.state = ParserState::ResponseVersionSpace;
            context.mark();
            return Ok(ParserValue::Continue);
        }
        Err(ParserError::Version(context.byte))
    }

    /// State function of `ParserState::ResponseVersionSpace`.
    pub fn response_version_space<T: HttpHandler>(&mut self, handler: &mut T, context: &mut ByteStream) -> (r: Result<
        ParserValue,
        ParserError,
    >)
        requires
            old(self).ready(*old(context), ParserState::ResponseVersionSpace),
        ensures
            step_post(*old(self), *final(self), *old(context), *final(context), r),
            byte_step(
                *old(self),
                *final(self),
                *old(context),
                *final(context),
                r,
                |b: u8|
                    if b == 0x20 {
                        Some(ParserState::ResponseStatusCode1)
                    } else {
                        None
                    },
                |b: u8| false,
                |b: u8| ParserError::Version(b),
            ),
            message_step(*old(self), *final(self), *old(context), *final(context), r),
    {
        proof {
            lemma_message_run_short(self.message_position());
        }
        if context.available() == 0 {
            return Ok(ParserValue::Exit(Success::Eos(context.stream_index)));
        }
        context.next();
        if context.byte == 0x20 {
            self.state = ParserState::ResponseStatusCode1;
            if self.report_version(handler, self.lower as u16, self.upper as u16) {
                context.mark();
                return Ok(ParserValue::Continue);
            }
            return Ok(ParserValue::Exit(Success::Callback(context.stream_index)));
        }
        Err(ParserError::Version(context.byte))
    }

    /// State function of `ParserState::ResponseStatusCode1`.
    pub fn response_status_code1<T: HttpHandler>(&mut self, _handler: &mut T, context: &mut ByteStream) -> (r: Result<
        ParserValue,
        ParserError,
    >)
        requires
            old(self).ready(*old(context), ParserState::ResponseStatusCode1),
        ensures
            step_post(*old(self), *final(self), *old(context), *final(context), r),
            old(context).spec_available() > 2 ==> ({
                let s = old(context).stream@;
                let i = old(context).stream_index as int;
                if !spec_is_digit(s[i]) {
                    final(context).stream_index == i + 1 && r == Err::<ParserValue, ParserError>(
                        ParserError::StatusCode(s[i]),
                    )
                } else if !spec_is_digit(s[i + 1]) {
                    final(context).stream_index == i + 2 && r == Err::<ParserValue, ParserError>(
                        ParserError::StatusCode(s[i + 1]),
                    )
                } else if !spec_is_digit(s[i + 2]) {
                    final(context).stream_index == i + 3 && r == Err::<ParserValue, ParserError>(
                        ParserError::StatusCode(s[i + 2]),
                    )
                } else {
                    &&& final(context).stream_index == i + 3
                    &&& final(self).spec_state() == ParserState::ResponseStatusCodeSpace
                    &&& r == Ok::<ParserValue, ParserError>(ParserValue::Continue)
                }
            }),
            old(context).spec_available() <= 2 ==> byte_step(
                *old(self),
                *final(self),
                *old(context),
                *final(context),
                r,
                |b: u8|
                    if spec_is_digit(b) {
                        Some(ParserState::ResponseStatusCode2)
                    } else {
                        None
                    },
                |b: u8| false,
                |b: u8| ParserError::StatusCode(b),
            ),
            message_step(*old(self), *final(self), *old(context), *final(context), r),
    {
        proof {
            lemma_message_run_short(self.message_position());
            if context.spec_available() > 2 {
                lemma_message_run_three(
                    self.message_position(),
                    context.stream@.subrange(
                        context.stream_index as int,
                        context.stream_index + 3,
                    ),
                );
            }
        }
        if context.available() == 0 {
            return Ok(ParserValue::Exit(Success::Eos(context.stream_index)));
        }
        if context.available() > 2 {
            // enough bytes to compare the entire status code
            context.next();
            if !is_digit(context.byte) {
                return Err(ParserError::StatusCode(context.byte));
            }
            self.lower = (context.byte - 0x30) as u32 * 100;
            context.next();
            if !is_digit(context.byte) {
                return Err(ParserError::StatusCode(context.byte));
            }
            self.lower = self.lower + (context.byte - 0x30) as u32 * 10;
            context.next();
            if !is_digit(context.byte) {
                return Err(ParserError::StatusCode(context.byte));
            }
            self.lower = self.lower + (context.byte - 0x30) as u32;
            self.state = ParserState::ResponseStatusCodeSpace;
            context.mark();
            return Ok(ParserValue::Continue);
        }
        context.next();
        if is_digit(context.byte) {
            self.lower = (context.byte - 0x30) as u32 * 100;
            self.state = ParserState::ResponseStatusCode2;
            context.mark();
            return Ok(ParserValue::Continue);
        }
        Err(ParserError::StatusCode(context.byte))
    }

    /// State function of `ParserState::ResponseStatusCode2`.
    pub fn response_status_code2<T: HttpHandler>(&mut self, _handler: &mut T, context: &mut ByteStream) -> (r: Result<
        ParserValue,
        ParserError,
    >)
        requires
            old(self).ready(*old(context), ParserState::ResponseStatusCode2),
        ensures
            step_post(*old(self), *final(self), *old(context), *final(context), r),
            byte_step(
                *old(self),
                *final(self),
                *old(context),
                *final(context),
                r,
                |b: u8|
                    if spec_is_digit(b) {
                        Some(ParserState::ResponseStatusCode3)
                    } else {
                        None
                    },
                |b: u8| false,
                |b: u8| ParserError::StatusCode(b),
            ),
            message_step(*old(self), *final(self), *old(context), *final(context), r),
    {
        proof {
            lemma_message_run_short(self.message_position());
        }
        if context.available() == 0 {
            return Ok(ParserValue::Exit(Success::Eos(context.stream_index)));
        }
        context.next();
        if is_digit(context.byte) {
            self.lower = self.lower + (context.byte - 0x30) as u32 * 10;
            self.state = ParserState::ResponseStatusCode3;
            context.mark();
            return Ok(ParserValue::Continue);
        }
        Err(ParserError::StatusCode(context.byte))
    }

    /// State function of `ParserState::ResponseStatusCode3`.
    pub fn response_status_code3<T: HttpHandler>(&mut self, _handler: &mut T, context: &mut ByteStream) -> (r: Result<
        ParserValue,
        ParserError,
    >)
        requires
            old(self).ready(*old(context), ParserState::ResponseStatusCode3),
        ensures
            step_post(*old(self), *final(self), *old(context), *final(context), r),
            byte_step(
                *old(self),
                *final(self),
                *old(context),
                *final(context),
                r,
                |b: u8|
                    if spec_is_digit(b) {
                        Some(ParserState::ResponseStatusCodeSpace)
                    } else {
                        None
                    },
                |b: u8| false,
                |b: u8| ParserError::StatusCode(b),
            ),
            message_step(*old(self), *final(self), *old(context), *final(context), r),
    {
        proof {
            lemma_message_run_short(self.message_position());
        }
        if context.available() == 0 {
            return Ok(ParserValue::Exit(Success::Eos(context.stream_index)));
        }
        context.next();
        if is_digit(context.byte) {
            self.lower = self.lower + (context.byte - 0x30) as u32;
            self.state = ParserState::ResponseStatusCodeSpace;
            context.mark();
            return Ok(ParserValue::Continue);
        }
        Err(ParserError::StatusCode(context.byte))
    }

    /// State function of `ParserState::ResponseStatusCodeSpace`.
    pub fn response_status_code_space<T: HttpHandler>(&mut self, handler: &mut T, context: &mut ByteStream) -> (r: Result<
        ParserValue,
        ParserError,
    >)
        requires
            old(self).ready(*old(context), ParserState::ResponseStatusCodeSpace),
        ensures
            step_post(*old(self), *final(self), *old(context), *final(context), r),
            byte_step(
                *old(self),
                *final(self),
                *old(context),
                *final(context),
                r,
                |b: u8|
                    if b == 0x20 {
                        Some(ParserState::ResponseStatus1)
                    } else {
                        None
                    },
                |b: u8| false,
                |b: u8| ParserError::StatusCode(b),
            ),
            message_step(*old(self), *final(self), *old(context), *final(context), r),
    {
        proof {
            lemma_message_run_short(self.message_position());
        }
        if context.available() == 0 {
            return Ok(ParserValue::Exit(Success::Eos(context.stream_index)));
        }
        context.next();
        if context.byte == 0x20 {
            self.state = ParserState::ResponseStatus1;
            if self.report_status_code(handler, self.lower as u16) {
                context.mark();
                return Ok(ParserValue::Continue);
            }
            return Ok(ParserValue::Exit(Success::Callback(context.stream_index)));
        }
        Err(ParserError::StatusCode(context.byte))
    }

    /// State function of `ParserState::ResponseStatus1`.
    pub fn response_status1<T: HttpHandler>(&mut self, _handler: &mut T, context: &mut ByteStream) -> (r: Result<
        ParserValue,
        ParserError,
    >)
        requires
            old(self).ready(*old(context), ParserState::ResponseStatus1),
        ensures
            step_post(*old(self), *final(self), *old(context), *final(context), r),
            byte_step(
                *old(self),
                *final(self),
                *old(context),
                *final(context),
                r,
                |b: u8|
                    if b > 0x1F && b != 0x7F {
                        Some(ParserState::ResponseStatus2)
                    } else {
                        None
                    },
                |b: u8| true,
                |b: u8| ParserError::Status(b),
            ),
            message_step(*old(self), *final(self), *old(context), *final(context), r),
    {
        proof {
            lemma_message_run_short(self.message_position());
        }
        if context.available() == 0 {
            return Ok(ParserValue::Exit(Success::Eos(context.stream_index)));
        }
        context.next();
        // status is any 8bit non-control byte
        if context.byte > 0x1F && context.byte != 0x7F {
            context.replay();
            self.state = ParserState::ResponseStatus2;
            context.mark();
            return Ok(ParserValue::Continue);
        }
        Err(ParserError::Status(context.byte))
    }

    /// State function of `ParserState::ResponseStatus2`.
    pub fn response_status2<T: HttpHandler>(&mut self, handler: &mut T, context: &mut ByteStream) -> (r: Result<
        ParserValue,
        ParserError,
    >)
        requires
            old(self).ready(*old(context), ParserState::ResponseStatus2),
        ensures
            step_post(*old(self), *final(self), *old(context), *final(context), r),
            collect_step(
                *old(self),
                *final(self),
                *old(context),
                *final(context),
                r,
                Collect::Status,
                |b: u8|
                    if b == 0x0D {
                        Some(ParserState::InitialEnd)
                    } else {
                        None
                    },
                |b: u8| false,
                |b: u8| ParserError::Status(b),
            ),
            message_step(*old(self), *final(self), *old(context), *final(context), r),
            ({
                let k = first_outside(
                    old(context).stream@,
                    old(context).stream_index as int,
                    Collect::Status,
                );
                let bytes = old(context).stream@.subrange(old(context).mark_index as int, k);
                if r is Ok && bytes.len() > 0 {
                    pushed(old(self).spec_events(), final(self).spec_events(), Callback::Status, bytes, 0, 0)
                } else {
                    final(self).spec_events() == old(self).spec_events()
                }
            }),
    {
        proof {
            lemma_message_run_short(self.message_position());
        }
        let ghost i0 = context.stream_index as int;
        let found = collect(context, Collect::Status);
        proof {
            lemma_message_collect(
                self.message_position(),
                context.stream@,
                i0,
                context.stream_index as int,
                found,
                Collect::Status,
            );
        }
        if !found {
            if context.slice_length() > 0 {
                if self.report_status(handler, context.slice()) {
                    return Ok(ParserValue::Exit(Success::Eos(context.stream_index)));
                }
                return Ok(ParserValue::Exit(Success::Callback(context.stream_index)));
            }
            return Ok(ParserValue::Exit(Success::Eos(context.stream_index)));
        }
        if context.byte == 0x0D {
            self.state = ParserState::InitialEnd;
            if context.slice_length() > 1 {
                if self.report_status(handler, context.slice_ignore()) {
                    context.mark();
                    return Ok(ParserValue::Continue);
                }
                return Ok(ParserValue::Exit(Success::Callback(context.stream_index)));
            }
            context.mark();
            return Ok(ParserValue::Continue);
        }
        Err(ParserError::Status(context.byte))
    }

    /// State function of `ParserState::InitialEnd`.
    pub fn initial_end<T: HttpHandler>(&mut self, handler: &mut T, context: &mut ByteStream) -> (r: Result<
        ParserValue,
        ParserError,
    >)
        requires
            old(self).ready(*old(context), ParserState::InitialEnd),
        ensures
            step_post(*old(self), *final(self), *old(context), *final(context), r),
            pass_step(*old(self), *final(self), *old(context), *final(context), r, ParserState::InitialLf),
            message_step(*old(self), *final(self), *old(context), *final(context), r),
    {
        proof {
            lemma_message_run_short(self.message_position());
        }
        self.state = ParserState::InitialLf;
        if self.report_initial_finished(handler) {
            context.mark();
            return Ok(ParserValue::Continue);
        }
        return Ok(ParserValue::Exit(Success::Callback(context.stream_index)));
    }

    /// State function of `ParserState::InitialLf`.
    pub fn initial_lf<T: HttpHandler>(&mut self, _handler: &mut T, context: &mut ByteStream) -> (r: Result<
        ParserValue,
        ParserError,
    >)
        requires
            old(self).ready(*old(context), ParserState::InitialLf),
        ensures
            step_post(*old(self), *final(self), *old(context), *final(context), r),
            expect_step(
                *old(self),
                *final(self),
                *old(context),
                *final(context),
                r,
                0x0A,
                ParserState::HeaderCr2,
                |b: u8| ParserError::CrlfSequence(b),
            ),
            message_step(*old(self), *final(self), *old(context), *final(context), r),
    {
        proof {
            lemma_message_run_short(self.message_position());
        }
        if context.available() == 0 {
            return Ok(ParserValue::Exit(Success::Eos(context.stream_index)));
        }
        context.next();
        if context.byte == 0x0A {
            self.state = ParserState::HeaderCr2;
            context.mark();
            return Ok(ParserValue::Continue);
        }
        Err(ParserError::CrlfSequence(context.byte))
    }

    /// State function of `ParserState::CheckHeaderName`.
    pub fn check_header_name<T: HttpHandler>(&mut self, _handler: &mut T, context: &mut ByteStream) -> (r: Result<
        ParserValue,
        ParserError,
    >)
        requires
            old(self).ready(*old(context), ParserState::CheckHeaderName),
        ensures
            step_post(*old(self), *final(self), *old(context), *final(context), r),
            byte_step(
                *old(self),
                *final(self),
                *old(context),
                *final(context),
                r,
                |b: u8|
                    if b == 0x20 || b == 0x09 {
                        Some(ParserState::HeaderValue)
                    } else {
                        Some(ParserState::FirstHeaderName)
                    },
                |b: u8| !(b == 0x20 || b == 0x09),
                |b: u8| ParserError::HeaderName(b),
            ),
            message_step(*old(self), *final(self), *old(context), *final(context), r),
    {
        proof {
            lemma_message_run_short(self.message_position());
        }
        if context.available() == 0 {
            return Ok(ParserValue::Exit(Success::Eos(context.stream_index)));
        }
        context.next();
        if context.byte == 0x20 || context.byte == 0x09 {
            // multiline value
            self.state = ParserState::HeaderValue;
            context.mark();
            return Ok(ParserValue::Continue);
        }
        context.replay();
        self.state = ParserState::FirstHeaderName;
        context.mark();
        return Ok(ParserValue::Continue);
    }

    /// Take a common header name and its colon, `n` bytes, at once: hand `name`, its lower-cased
    /// form, to the handler, and go on to the value.
    fn take_header_name<T: HttpHandler>(
        &mut self,
        handler: &mut T,
        context: &mut ByteStream,
        name: &[u8],
        n: usize,
    ) -> (r: Result<ParserValue, ParserError>)
        requires
            old(self).ready(*old(context), ParserState::FirstHeaderName),
            1 <= n <= old(context).spec_available(),
            forall|i: int|
                0 <= i < name@.len() ==> spec_is_token(#[trigger] name@[i]) && !spec_is_upper(
                    name@[i],
                ),
        ensures
            step_post(*old(self), *final(self), *old(context), *final(context), r),
            final(context).stream_index == old(context).stream_index + n,
            pass_step(
                *old(self),
                *final(self),
                *final(context),
                *final(context),
                r,
                ParserState::StripHeaderValue,
            ),
            pushed(
                old(self).spec_events(),
                final(self).spec_events(),
                Callback::HeaderName,
                name@,
                0,
                0,
            ),
    {
        context.jump(n);
        self.state = ParserState::StripHeaderValue;
        if self.report_header_name(handler, name) {
            context.mark();
            return Ok(ParserValue::Continue);
        }
        return Ok(ParserValue::Exit(Success::Callback(context.stream_index)));
    }

    /// State function of `ParserState::FirstHeaderName`.
    #[verifier::rlimit(100)]
    pub fn first_header_name<T: HttpHandler>(&mut self, handler: &mut T, context: &mut ByteStream) -> (r: Result<
        ParserValue,
        ParserError,
    >)
        requires
            old(self).ready(*old(context), ParserState::FirstHeaderName),
        ensures
            step_post(*old(self), *final(self), *old(context), *final(context), r),
            header_name_shortcut(*old(context)) matches Some(n) ==> final(context).stream_index
                == old(context).stream_index + n && pass_step(
                *old(self),
                *final(self),
                *final(context),
                *final(context),
                r,
                ParserState::StripHeaderValue,
            ),
            header_name_shortcut(*old(context)) is None ==> byte_step(
                *old(self),
                *final(self),
                *old(context),
                *final(context),
                r,
                |b: u8|
                    if spec_is_visible_7bit(b) {
                        Some(ParserState::UpperHeaderName)
                    } else {
                        None
                    },
                |b: u8| true,
                |b: u8| ParserError::HeaderName(b),
            ),
            header_name_shortcut(*old(context)) is None ==> message_step(
                *old(self),
                *final(self),
                *old(context),
                *final(context),
                r,
            ),
            header_name_shortcut(*old(context)) matches Some(n) ==> pushed(old(self).spec_events(), final(self).spec_events(), Callback::HeaderName, lower_bytes(
                        old(context).stream@.subrange(
                            old(context).stream_index as int,
                            old(context).stream_index + n - 1,
                        ),
                    ), 0, 0),
            header_name_shortcut(*old(context)) is None ==> final(self).spec_events() == old(
                self,
            ).spec_events(),
    {
        proof {
            lemma_header_name_shortcut_names(*context);
            lemma_message_run_short(self.message_position());
        }
        let accept: [u8; 7] = [0x41, 0x63, 0x63, 0x65, 0x70, 0x74, 0x3A];
        let accept_charset: [u8; 15] = [0x41, 0x63, 0x63, 0x65, 0x70, 0x74, 0x2D, 0x43, 0x68, 0x61, 0x72, 0x73, 0x65, 0x74, 0x3A];
        let accept_encoding: [u8; 16] = [0x41, 0x63, 0x63, 0x65, 0x70, 0x74, 0x2D, 0x45, 0x6E, 0x63, 0x6F, 0x64, 0x69, 0x6E, 0x67, 0x3A];
        let accept_language: [u8; 16] = [0x41, 0x63, 0x63, 0x65, 0x70, 0x74, 0x2D, 0x4C, 0x61, 0x6E, 0x67, 0x75, 0x61, 0x67, 0x65, 0x3A];
        let authorization: [u8; 14] = [0x41, 0x75, 0x74, 0x68, 0x6F, 0x72, 0x69, 0x7A, 0x61, 0x74, 0x69, 0x6F, 0x6E, 0x3A];
        let host: [u8; 5] = [0x48, 0x6F, 0x73, 0x74, 0x3A];
        let user_agent: [u8; 11] = [0x55, 0x73, 0x65, 0x72, 0x2D, 0x41, 0x67, 0x65, 0x6E, 0x74, 0x3A];
        let upgrade: [u8; 8] = [0x55, 0x70, 0x67, 0x72, 0x61, 0x64, 0x65, 0x3A];
        let connection: [u8; 11] = [0x43, 0x6F, 0x6E, 0x6E, 0x65, 0x63, 0x74, 0x69, 0x6F, 0x6E, 0x3A];
        let content_type: [u8; 13] = [0x43, 0x6F, 0x6E, 0x74, 0x65, 0x6E, 0x74, 0x2D, 0x54, 0x79, 0x70, 0x65, 0x3A];
        let content_length: [u8; 15] = [0x43, 0x6F, 0x6E, 0x74, 0x65, 0x6E, 0x74, 0x2D, 0x4C, 0x65, 0x6E, 0x67, 0x74, 0x68, 0x3A];
        let cookie: [u8; 7] = [0x43, 0x6F, 0x6F, 0x6B, 0x69, 0x65, 0x3A];
        let cache_control: [u8; 14] = [0x43, 0x61, 0x63, 0x68, 0x65, 0x2D, 0x43, 0x6F, 0x6E, 0x74, 0x72, 0x6F, 0x6C, 0x3A];
        let content_security_policy: [u8; 24] = [0x43, 0x6F, 0x6E, 0x74, 0x65, 0x6E, 0x74, 0x2D, 0x53, 0x65, 0x63, 0x75, 0x72, 0x69, 0x74, 0x79, 0x2D, 0x50, 0x6F, 0x6C, 0x69, 0x63, 0x79, 0x3A];
        let location: [u8; 9] = [0x4C, 0x6F, 0x63, 0x61, 0x74, 0x69, 0x6F, 0x6E, 0x3A];
        let last_modified: [u8; 14] = [0x4C, 0x61, 0x73, 0x74, 0x2D, 0x4D, 0x6F, 0x64, 0x69, 0x66, 0x69, 0x65, 0x64, 0x3A];
        let pragma: [u8; 7] = [0x50, 0x72, 0x61, 0x67, 0x6D, 0x61, 0x3A];
        let set_cookie: [u8; 11] = [0x53, 0x65, 0x74, 0x2D, 0x43, 0x6F, 0x6F, 0x6B, 0x69, 0x65, 0x3A];
        let transfer_encoding: [u8; 18] = [0x54, 0x72, 0x61, 0x6E, 0x73, 0x66, 0x65, 0x72, 0x2D, 0x45, 0x6E, 0x63, 0x6F, 0x64, 0x69, 0x6E, 0x67, 0x3A];
        let x_powered_by: [u8; 13] = [0x58, 0x2D, 0x50, 0x6F, 0x77, 0x65, 0x72, 0x65, 0x64, 0x2D, 0x42, 0x79, 0x3A];
        let x_forwarded_for: [u8; 16] = [0x58, 0x2D, 0x46, 0x6F, 0x72, 0x77, 0x61, 0x72, 0x64, 0x65, 0x64, 0x2D, 0x46, 0x6F, 0x72, 0x3A];
        let x_forwarded_host: [u8; 17] = [0x58, 0x2D, 0x46, 0x6F, 0x72, 0x77, 0x61, 0x72, 0x64, 0x65, 0x64, 0x2D, 0x48, 0x6F, 0x73, 0x74, 0x3A];
        let x_xss_protection: [u8; 17] = [0x58, 0x2D, 0x58, 0x53, 0x53, 0x2D, 0x50, 0x72, 0x6F, 0x74, 0x65, 0x63, 0x74, 0x69, 0x6F, 0x6E, 0x3A];
        let x_webkit_csp: [u8; 13] = [0x58, 0x2D, 0x57, 0x65, 0x62, 0x4B, 0x69, 0x74, 0x2D, 0x43, 0x53, 0x50, 0x3A];
        let www_authenticate: [u8; 17] = [0x57, 0x57, 0x57, 0x2D, 0x41, 0x75, 0x74, 0x68, 0x65, 0x6E, 0x74, 0x69, 0x63, 0x61, 0x74, 0x65, 0x3A];
        proof {
            assert(accept@ == seq![0x41u8, 0x63, 0x63, 0x65, 0x70, 0x74, 0x3A]);
            assert(accept_charset@ == seq![0x41u8, 0x63, 0x63, 0x65, 0x70, 0x74, 0x2D, 0x43, 0x68, 0x61, 0x72, 0x73, 0x65, 0x74, 0x3A]);
            assert(accept_encoding@ == seq![0x41u8, 0x63, 0x63, 0x65, 0x70, 0x74, 0x2D, 0x45, 0x6E, 0x63, 0x6F, 0x64, 0x69, 0x6E, 0x67, 0x3A]);
            assert(accept_language@ == seq![0x41u8, 0x63, 0x63, 0x65, 0x70, 0x74, 0x2D, 0x4C, 0x61, 0x6E, 0x67, 0x75, 0x61, 0x67, 0x65, 0x3A]);
            assert(authorization@ == seq![0x41u8, 0x75, 0x74, 0x68, 0x6F, 0x72, 0x69, 0x7A, 0x61, 0x74, 0x69, 0x6F, 0x6E, 0x3A]);
            assert(host@ == seq![0x48u8, 0x6F, 0x73, 0x74, 0x3A]);
            assert(user_agent@ == seq![0x55u8, 0x73, 0x65, 0x72, 0x2D, 0x41, 0x67, 0x65, 0x6E, 0x74, 0x3A]);
            assert(upgrade@ == seq![0x55u8, 0x70, 0x67, 0x72, 0x61, 0x64, 0x65, 0x3A]);
            assert(connection@ == seq![0x43u8, 0x6F, 0x6E, 0x6E, 0x65, 0x63, 0x74, 0x69, 0x6F, 0x6E, 0x3A]);
            assert(content_type@ == seq![0x43u8, 0x6F, 0x6E, 0x74, 0x65, 0x6E, 0x74, 0x2D, 0x54, 0x79, 0x70, 0x65, 0x3A]);
            assert(content_length@ == seq![0x43u8, 0x6F, 0x6E, 0x74, 0x65, 0x6E, 0x74, 0x2D, 0x4C, 0x65, 0x6E, 0x67, 0x74, 0x68, 0x3A]);
            assert(cookie@ == seq![0x43u8, 0x6F, 0x6F, 0x6B, 0x69, 0x65, 0x3A]);
            assert(cache_control@ == seq![0x43u8, 0x61, 0x63, 0x68, 0x65, 0x2D, 0x43, 0x6F, 0x6E, 0x74, 0x72, 0x6F, 0x6C, 0x3A]);
            assert(content_security_policy@ == seq![0x43u8, 0x6F, 0x6E, 0x74, 0x65, 0x6E, 0x74, 0x2D, 0x53, 0x65, 0x63, 0x75, 0x72, 0x69, 0x74, 0x79, 0x2D, 0x50, 0x6F, 0x6C, 0x69, 0x63, 0x79, 0x3A]);
            assert(location@ == seq![0x4Cu8, 0x6F, 0x63, 0x61, 0x74, 0x69, 0x6F, 0x6E, 0x3A]);
            assert(last_modified@ == seq![0x4Cu8, 0x61, 0x73, 0x74, 0x2D, 0x4D, 0x6F, 0x64, 0x69, 0x66, 0x69, 0x65, 0x64, 0x3A]);
            assert(pragma@ == seq![0x50u8, 0x72, 0x61, 0x67, 0x6D, 0x61, 0x3A]);
            assert(set_cookie@ == seq![0x53u8, 0x65, 0x74, 0x2D, 0x43, 0x6F, 0x6F, 0x6B, 0x69, 0x65, 0x3A]);
            assert(transfer_encoding@ == seq![0x54u8, 0x72, 0x61, 0x6E, 0x73, 0x66, 0x65, 0x72, 0x2D, 0x45, 0x6E, 0x63, 0x6F, 0x64, 0x69, 0x6E, 0x67, 0x3A]);
            assert(x_powered_by@ == seq![0x58u8, 0x2D, 0x50, 0x6F, 0x77, 0x65, 0x72, 0x65, 0x64, 0x2D, 0x42, 0x79, 0x3A]);
            assert(x_forwarded_for@ == seq![0x58u8, 0x2D, 0x46, 0x6F, 0x72, 0x77, 0x61, 0x72, 0x64, 0x65, 0x64, 0x2D, 0x46, 0x6F, 0x72, 0x3A]);
            assert(x_forwarded_host@ == seq![0x58u8, 0x2D, 0x46, 0x6F, 0x72, 0x77, 0x61, 0x72, 0x64, 0x65, 0x64, 0x2D, 0x48, 0x6F, 0x73, 0x74, 0x3A]);
            assert(x_xss_protection@ == seq![0x58u8, 0x2D, 0x58, 0x53, 0x53, 0x2D, 0x50, 0x72, 0x6F, 0x74, 0x65, 0x63, 0x74, 0x69, 0x6F, 0x6E, 0x3A]);
            assert(x_webkit_csp@ == seq![0x58u8, 0x2D, 0x57, 0x65, 0x62, 0x4B, 0x69, 0x74, 0x2D, 0x43, 0x53, 0x50, 0x3A]);
            assert(www_authenticate@ == seq![0x57u8, 0x57, 0x57, 0x2D, 0x41, 0x75, 0x74, 0x68, 0x65, 0x6E, 0x74, 0x69, 0x63, 0x61, 0x74, 0x65, 0x3A]);
        }
        if context.has_bytes(24) {
            // enough bytes to compare common header names immediately
            if context.byte == 0x41 {
                if context.starts_with(&accept) {
                    return self.take_header_name(handler, context, &[0x61u8, 0x63, 0x63, 0x65, 0x70, 0x74], 7);
                } else if context.starts_with(&accept_charset) {
                    return self.take_header_name(handler, context, &[0x61u8, 0x63, 0x63, 0x65, 0x70, 0x74, 0x2D, 0x63, 0x68, 0x61, 0x72, 0x73, 0x65, 0x74], 15);
                } else if context.starts_with(&accept_encoding) {
                    return self.take_header_name(handler, context, &[0x61u8, 0x63, 0x63, 0x65, 0x70, 0x74, 0x2D, 0x65, 0x6E, 0x63, 0x6F, 0x64, 0x69, 0x6E, 0x67], 16);
                } else if context.starts_with(&accept_language) {
                    return self.take_header_name(handler, context, &[0x61u8, 0x63, 0x63, 0x65, 0x70, 0x74, 0x2D, 0x6C, 0x61, 0x6E, 0x67, 0x75, 0x61, 0x67, 0x65], 16);
                } else if context.starts_with(&authorization) {
                    return self.take_header_name(handler, context, &[0x61u8, 0x75, 0x74, 0x68, 0x6F, 0x72, 0x69, 0x7A, 0x61, 0x74, 0x69, 0x6F, 0x6E], 14);
                }
            } else if context.starts_with(&host) {
                return self.take_header_name(handler, context, &[0x68u8, 0x6F, 0x73, 0x74], 5);
            } else if context.byte == 0x55 {
                if context.starts_with(&user_agent) {
                    return self.take_header_name(handler, context, &[0x75u8, 0x73, 0x65, 0x72, 0x2D, 0x61, 0x67, 0x65, 0x6E, 0x74], 11);
                } else if context.starts_with(&upgrade) {
                    return self.take_header_name(handler, context, &[0x75u8, 0x70, 0x67, 0x72, 0x61, 0x64, 0x65], 8);
                }
            } else if context.byte == 0x43 {
                if context.starts_with(&connection) {
                    return self.take_header_name(handler, context, &[0x63u8, 0x6F, 0x6E, 0x6E, 0x65, 0x63, 0x74, 0x69, 0x6F, 0x6E], 11);
                } else if context.starts_with(&content_type) {
                    return self.take_header_name(handler, context, &[0x63u8, 0x6F, 0x6E, 0x74, 0x65, 0x6E, 0x74, 0x2D, 0x74, 0x79, 0x70, 0x65], 13);
                } else if context.starts_with(&content_length) {
                    return self.take_header_name(handler, context, &[0x63u8, 0x6F, 0x6E, 0x74, 0x65, 0x6E, 0x74, 0x2D, 0x6C, 0x65, 0x6E, 0x67, 0x74, 0x68], 15);
                } else if context.starts_with(&cookie) {
                    return self.take_header_name(handler, context, &[0x63u8, 0x6F, 0x6F, 0x6B, 0x69, 0x65], 7);
                } else if context.starts_with(&cache_control) {
                    return self.take_header_name(handler, context, &[0x63u8, 0x61, 0x63, 0x68, 0x65, 0x2D, 0x63, 0x6F, 0x6E, 0x74, 0x72, 0x6F, 0x6C], 14);
                } else if context.starts_with(&content_security_policy) {
                    return self.take_header_name(handler, context, &[0x63u8, 0x6F, 0x6E, 0x74, 0x65, 0x6E, 0x74, 0x2D, 0x73, 0x65, 0x63, 0x75, 0x72, 0x69, 0x74, 0x79, 0x2D, 0x70, 0x6F, 0x6C, 0x69, 0x63, 0x79], 24);
                }
            } else if context.byte == 0x4C {
                if context.starts_with(&location) {
                    return self.take_header_name(handler, context, &[0x6Cu8, 0x6F, 0x63, 0x61, 0x74, 0x69, 0x6F, 0x6E], 9);
                } else if context.starts_with(&last_modified) {
                    return self.take_header_name(handler, context, &[0x6Cu8, 0x61, 0x73, 0x74, 0x2D, 0x6D, 0x6F, 0x64, 0x69, 0x66, 0x69, 0x65, 0x64], 14);
                }
            } else if context.starts_with(&pragma) {
                return self.take_header_name(handler, context, &[0x70u8, 0x72, 0x61, 0x67, 0x6D, 0x61], 7);
            } else if context.starts_with(&set_cookie) {
                return self.take_header_name(handler, context, &[0x73u8, 0x65, 0x74, 0x2D, 0x63, 0x6F, 0x6F, 0x6B, 0x69, 0x65], 11);
            } else if context.starts_with(&transfer_encoding) {
                return self.take_header_name(handler, context, &[0x74u8, 0x72, 0x61, 0x6E, 0x73, 0x66, 0x65, 0x72, 0x2D, 0x65, 0x6E, 0x63, 0x6F, 0x64, 0x69, 0x6E, 0x67], 18);
            } else if context.byte == 0x58 {
                if context.starts_with(&x_powered_by) {
                    return self.take_header_name(handler, context, &[0x78u8, 0x2D, 0x70, 0x6F, 0x77, 0x65, 0x72, 0x65, 0x64, 0x2D, 0x62, 0x79], 13);
                } else if context.starts_with(&x_forwarded_for) {
                    return self.take_header_name(handler, context, &[0x78u8, 0x2D, 0x66, 0x6F, 0x72, 0x77, 0x61, 0x72, 0x64, 0x65, 0x64, 0x2D, 0x66, 0x6F, 0x72], 16);
                } else if context.starts_with(&x_forwarded_host) {
                    return self.take_header_name(handler, context, &[0x78u8, 0x2D, 0x66, 0x6F, 0x72, 0x77, 0x61, 0x72, 0x64, 0x65, 0x64, 0x2D, 0x68, 0x6F, 0x73, 0x74], 17);
                } else if context.starts_with(&x_xss_protection) {
                    return self.take_header_name(handler, context, &[0x78u8, 0x2D, 0x78, 0x73, 0x73, 0x2D, 0x70, 0x72, 0x6F, 0x74, 0x65, 0x63, 0x74, 0x69, 0x6F, 0x6E], 17);
                } else if context.starts_with(&x_webkit_csp) {
                    return self.take_header_name(handler, context, &[0x78u8, 0x2D, 0x77, 0x65, 0x62, 0x6B, 0x69, 0x74, 0x2D, 0x63, 0x73, 0x70], 13);
                }
            } else if context.starts_with(&www_authenticate) {
                return self.take_header_name(handler, context, &[0x77u8, 0x77, 0x77, 0x2D, 0x61, 0x75, 0x74, 0x68, 0x65, 0x6E, 0x74, 0x69, 0x63, 0x61, 0x74, 0x65], 17);
            }
        }
        if context.available() == 0 {
            return Ok(ParserValue::Exit(Success::Eos(context.stream_index)));
        }
        context.next();
        // make sure we have something visible to collect in next state
        if is_visible_7bit(context.byte) {
            context.replay();
            self.state = ParserState::UpperHeaderName;
            context.mark();
            return Ok(ParserValue::Continue);
        }
        Err(ParserError::HeaderName(context.byte))
    }

    /// State function of `ParserState::UpperHeaderName`.
    pub fn upper_header_name<T: HttpHandler>(&mut self, handler: &mut T, context: &mut ByteStream) -> (r: Result<
        ParserValue,
        ParserError,
    >)
        requires
            old(self).ready(*old(context), ParserState::UpperHeaderName),
        ensures
            step_post(*old(self), *final(self), *old(context), *final(context), r),
            byte_step(
                *old(self),
                *final(self),
                *old(context),
                *final(context),
                r,
                |b: u8|
                    if spec_is_upper(b) {
                        Some(ParserState::LowerHeaderName)
                    } else {
                        Some(ParserState::LowerHeaderName)
                    },
                |b: u8| !spec_is_upper(b),
                |b: u8| ParserError::HeaderName(b),
            ),
            message_step(*old(self), *final(self), *old(context), *final(context), r),
            ({
                let b = old(context).stream@[old(context).stream_index as int];
                next_byte(*old(context)) is Some && spec_is_upper(b) ==> pushed(old(self).spec_events(), final(self).spec_events(), Callback::HeaderName, seq![(b + 0x20) as u8], 0, 0)
            }),
            !(next_byte(*old(context)) matches Some(b) && spec_is_upper(b)) ==> final(self).spec_events() == old(self).spec_events(),
    {
        proof {
            lemma_message_run_short(self.message_position());
        }
        if context.available() == 0 {
            return Ok(ParserValue::Exit(Success::Eos(context.stream_index)));
        }
        context.next();
        if is_upper(context.byte) {
            // upper-cased byte, let's lower-case it
            self.state = ParserState::LowerHeaderName;
            let byte: [u8; 1] = [context.byte + 0x20];
            assert(byte@ == seq![(context.byte + 0x20) as u8]);
            if self.report_header_name(handler, &byte) {
                context.mark();
                return Ok(ParserValue::Continue);
            }
            return Ok(ParserValue::Exit(Success::Callback(context.stream_index)));
        }
        context.replay();
        self.state = ParserState::LowerHeaderName;
        context.mark();
        return Ok(ParserValue::Continue);
    }

    /// State function of `ParserState::LowerHeaderName`.
    pub fn lower_header_name<T: HttpHandler>(&mut self, handler: &mut T, context: &mut ByteStream) -> (r: Result<
        ParserValue,
        ParserError,
    >)
        requires
            old(self).ready(*old(context), ParserState::LowerHeaderName),
        ensures
            step_post(*old(self), *final(self), *old(context), *final(context), r),
            collect_step(
                *old(self),
                *final(self),
                *old(context),
                *final(context),
                r,
                Collect::LowerTokens,
                |b: u8|
                    if spec_is_upper(b) {
                        Some(ParserState::UpperHeaderName)
                    } else if b == 0x3A {
                        Some(ParserState::StripHeaderValue)
                    } else {
                        None
                    },
                |b: u8| spec_is_upper(b),
                |b: u8| ParserError::HeaderName(b),
            ),
            message_step(*old(self), *final(self), *old(context), *final(context), r),
            ({
                let k = first_outside(
                    old(context).stream@,
                    old(context).stream_index as int,
                    Collect::LowerTokens,
                );
                let bytes = old(context).stream@.subrange(old(context).mark_index as int, k);
                if r is Ok && bytes.len() > 0 {
                    pushed(old(self).spec_events(), final(self).spec_events(), Callback::HeaderName, bytes, 0, 0)
                } else {
                    final(self).spec_events() == old(self).spec_events()
                }
            }),
    {
        proof {
            lemma_message_run_short(self.message_position());
        }
        let ghost i0 = context.stream_index as int;
        let found = collect(context, Collect::LowerTokens);
        proof {
            lemma_message_collect(
                self.message_position(),
                context.stream@,
                i0,
                context.stream_index as int,
                found,
                Collect::LowerTokens,
            );
        }
        if !found {
            if context.slice_length() > 0 {
                if self.report_header_name(handler, context.slice()) {
                    return Ok(ParserValue::Exit(Success::Eos(context.stream_index)));
                }
                return Ok(ParserValue::Exit(Success::Callback(context.stream_index)));
            }
            return Ok(ParserValue::Exit(Success::Eos(context.stream_index)));
        }
        if is_upper(context.byte) {
            // upper-cased byte
            context.replay();
            self.state = ParserState::UpperHeaderName;
            if context.slice_length() > 0 {
                if self.report_header_name(handler, context.slice()) {
                    context.mark();
                    return Ok(ParserValue::Continue);
                }
                return Ok(ParserValue::Exit(Success::Callback(context.stream_index)));
            }
            context.mark();
            return Ok(ParserValue::Continue);
        } else if context.byte == 0x3A {
            self.state = ParserState::StripHeaderValue;
            if context.slice_length() > 1 {
                if self.report_header_name(handler, context.slice_ignore()) {
                    context.mark();
                    return Ok(ParserValue::Continue);
                }
                return Ok(ParserValue::Exit(Success::Callback(context.stream_index)));
            }
            context.mark();
            return Ok(ParserValue::Continue);
        }
        Err(ParserError::HeaderName(context.byte))
    }

    /// State function of `ParserState::StripHeaderValue`.
    pub fn strip_header_value<T: HttpHandler>(&mut self, _handler: &mut T, context: &mut ByteStream) -> (r: Result<
        ParserValue,
        ParserError,
    >)
        requires
            old(self).ready(*old(context), ParserState::StripHeaderValue),
        ensures
            step_post(*old(self), *final(self), *old(context), *final(context), r),
            collect_step(
                *old(self),
                *final(self),
                *old(context),
                *final(context),
                r,
                Collect::LinearSpace,
                |b: u8|
                    if spec_is_visible_7bit(b) {
                        Some(ParserState::HeaderValue)
                    } else {
                        None
                    },
                |b: u8| true,
                |b: u8| ParserError::HeaderValue(b),
            ),
            message_step(*old(self), *final(self), *old(context), *final(context), r),
    {
        proof {
            lemma_message_run_short(self.message_position());
        }
        let ghost i0 = context.stream_index as int;
        let found = collect(context, Collect::LinearSpace);
        proof {
            lemma_message_collect(
                self.message_position(),
                context.stream@,
                i0,
                context.stream_index as int,
                found,
                Collect::LinearSpace,
            );
        }
        if !found {
            return Ok(ParserValue::Exit(Success::Eos(context.stream_index)));
        }
        // make sure we have something visible to collect in next state
        if is_visible_7bit(context.byte) {
            context.replay();
            self.state = ParserState::HeaderValue;
            context.mark();
            return Ok(ParserValue::Continue);
        }
        Err(ParserError::HeaderValue(context.byte))
    }

    /// State function of `ParserState::HeaderValue`.
    pub fn header_value<T: HttpHandler>(&mut self, handler: &mut T, context: &mut ByteStream) -> (r: Result<
        ParserValue,
        ParserError,
    >)
        requires
            old(self).ready(*old(context), ParserState::HeaderValue),
        ensures
            step_post(*old(self), *final(self), *old(context), *final(context), r),
            collect_step(
                *old(self),
                *final(self),
                *old(context),
                *final(context),
                r,
                Collect::HeaderField,
                |b: u8|
                    if b == 0x0D {
                        Some(ParserState::HeaderLf1)
                    } else if b == 0x22 {
                        Some(ParserState::HeaderQuotedValue)
                    } else {
                        None
                    },
                |b: u8| false,
                |b: u8| ParserError::HeaderValue(b),
            ),
            message_step(*old(self), *final(self), *old(context), *final(context), r),
            ({
                let s = old(context).stream@;
                let k = first_outside(s, old(context).stream_index as int, Collect::HeaderField);
                let bytes = s.subrange(old(context).mark_index as int, k);
                if r is Ok && bytes.len() > 0 && !(k < s.len() && s[k] == 0x22) {
                    pushed(old(self).spec_events(), final(self).spec_events(), Callback::HeaderValue, bytes, 0, 0)
                } else {
                    final(self).spec_events() == old(self).spec_events()
                }
            }),
    {
        proof {
            lemma_message_run_short(self.message_position());
        }
        let ghost i0 = context.stream_index as int;
        let found = collect(context, Collect::HeaderField);
        proof {
            lemma_first_outside(
                context.stream@,
                i0,
                if found {
                    context.stream_index - 1
                } else {
                    context.stream_index as int
                },
                Collect::HeaderField,
            );
            lemma_message_collect(
                self.message_position(),
                context.stream@,
                i0,
                context.stream_index as int,
                found,
                Collect::HeaderField,
            );
        }
        if !found {
            if context.slice_length() > 0 {
                if self.report_header_value(handler, context.slice()) {
                    return Ok(ParserValue::Exit(Success::Eos(context.stream_index)));
                }
                return Ok(ParserValue::Exit(Success::Callback(context.stream_index)));
            }
            return Ok(ParserValue::Exit(Success::Eos(context.stream_index)));
        }
        if context.byte == 0x0D {
            self.state = ParserState::HeaderLf1;
            if context.slice_length() > 1 {
                if self.report_header_value(handler, context.slice_ignore()) {
                    context.mark();
                    return Ok(ParserValue::Continue);
                }
                return Ok(ParserValue::Exit(Success::Callback(context.stream_index)));
            }
            context.mark();
            return Ok(ParserValue::Continue);
        } else if context.byte == 0x22 {
            self.state = ParserState::HeaderQuotedValue;
            return Ok(ParserValue::Continue);
        }
        Err(ParserError::HeaderValue(context.byte))
    }

    /// State function of `ParserState::HeaderQuotedValue`.
    pub fn header_quoted_value<T: HttpHandler>(&mut self, handler: &mut T, context: &mut ByteStream) -> (r: Result<
        ParserValue,
        ParserError,
    >)
        requires
            old(self).ready(*old(context), ParserState::HeaderQuotedValue),
        ensures
            step_post(*old(self), *final(self), *old(context), *final(context), r),
            collect_step(
                *old(self),
                *final(self),
                *old(context),
                *final(context),
                r,
                Collect::QuotedHeaderField,
                |b: u8|
                    if b == 0x22 {
                        Some(ParserState::HeaderValue)
                    } else if b == 0x5C {
                        Some(ParserState::HeaderEscapedValue)
                    } else {
                        None
                    },
                |b: u8| false,
                |b: u8| ParserError::HeaderValue(b),
            ),
            message_step(*old(self), *final(self), *old(context), *final(context), r),
            collect_events(
                old(self).spec_events(),
                final(self).spec_events(),
                old(context).stream@,
                old(context).stream_index as int,
                old(context).mark_index as int,
                Collect::QuotedHeaderField,
                Callback::HeaderValue,
                r is Ok && first_outside(old(context).stream@, old(context).stream_index as int, Collect::QuotedHeaderField) == old(context).stream@.len(),
            ),
    {
        proof {
            lemma_message_run_short(self.message_position());
        }
        let ghost i0 = context.stream_index as int;
        let found = collect(context, Collect::QuotedHeaderField);
        proof {
            lemma_first_outside(
                context.stream@,
                i0,
                if found {
                    context.stream_index - 1
                } else {
                    context.stream_index as int
                },
                Collect::QuotedHeaderField,
            );
            lemma_message_collect(
                self.message_position(),
                context.stream@,
                i0,
                context.stream_index as int,
                found,
                Collect::QuotedHeaderField,
            );
        }
        if !found {
            if context.slice_length() > 0 {
                if self.report_header_value(handler, context.slice()) {
                    return Ok(ParserValue::Exit(Success::Eos(context.stream_index)));
                }
                return Ok(ParserValue::Exit(Success::Callback(context.stream_index)));
            }
            return Ok(ParserValue::Exit(Success::Eos(context.stream_index)));
        }
        if context.byte == 0x22 {
            self.state = ParserState::HeaderValue;
            return Ok(ParserValue::Continue);
        } else if context.byte == 0x5C {
            self.state = ParserState::HeaderEscapedValue;
            return Ok(ParserValue::Continue);
        }
        Err(ParserError::HeaderValue(context.byte))
    }

    /// State function of `ParserState::HeaderEscapedValue`.
    pub fn header_escaped_value<T: HttpHandler>(&mut self, handler: &mut T, context: &mut ByteStream) -> (r: Result<
        ParserValue,
        ParserError,
    >)
        requires
            old(self).ready(*old(context), ParserState::HeaderEscapedValue),
        ensures
            step_post(*old(self), *final(self), *old(context), *final(context), r),
            next_byte(*old(context)) is None ==> final(self).same_but_events(*old(self)) && final(context).stream_index == old(context).stream_index && (r == Ok::<ParserValue, ParserError>(
                ParserValue::Exit(Success::Eos(old(context).stream_index)),
            ) || r == Ok::<ParserValue, ParserError>(
                ParserValue::Exit(Success::Callback(old(context).stream_index)),
            )),
            next_byte(*old(context)) is Some ==> byte_step(
                *old(self),
                *final(self),
                *old(context),
                *final(context),
                r,
                |b: u8|
                    if b > 0x1F && b < 0x7B {
                        Some(ParserState::HeaderQuotedValue)
                    } else {
                        None
                    },
                |b: u8| false,
                |b: u8| ParserError::HeaderValue(b),
            ),
            message_step(*old(self), *final(self), *old(context), *final(context), r),
    {
        proof {
            lemma_message_run_short(self.message_position());
        }
        // since we're not collecting, and because it's EOS, we must execute the callback manually
        if context.available() == 0 {
            if context.slice_length() > 0 {
                if self.report_header_value(handler, context.slice()) {
                    return Ok(ParserValue::Exit(Success::Eos(context.stream_index)));
                }
                return Ok(ParserValue::Exit(Success::Callback(context.stream_index)));
            }
            return Ok(ParserValue::Exit(Success::Eos(context.stream_index)));
        }
        context.next();
        // escaped bytes must be 7bit, and cannot be control characters
        if context.byte > 0x1F && context.byte < 0x7B {
            self.state = ParserState::HeaderQuotedValue;
            if context.slice_length() > 0 {
                if self.report_header_value(handler, context.slice()) {
                    context.mark();
                    return Ok(ParserValue::Continue);
                }
                return Ok(ParserValue::Exit(Success::Callback(context.stream_index)));
            }
            context.mark();
            return Ok(ParserValue::Continue);
        }
        Err(ParserError::HeaderValue(context.byte))
    }

    /// State function of `ParserState::HeaderCr1`.
    pub fn header_cr1<T: HttpHandler>(&mut self, _handler: &mut T, context: &mut ByteStream) -> (r: Result<
        ParserValue,
        ParserError,
    >)
        requires
            old(self).ready(*old(context), ParserState::HeaderCr1),
        ensures
            step_post(*old(self), *final(self), *old(context), *final(context), r),
            old(context).spec_available() >= 2 && old(context).stream@[old(context).stream_index as int] == 0x0D && old(context).stream@[old(context).stream_index + 1] == 0x0A ==> final(self).spec_state() == ParserState::HeaderCr2
                && final(context).stream_index == old(context).stream_index + 2 && r == Ok::<
                ParserValue,
                ParserError,
            >(ParserValue::Continue),
            !(old(context).spec_available() >= 2 && old(context).stream@[old(context).stream_index as int] == 0x0D && old(context).stream@[old(context).stream_index + 1] == 0x0A) ==> byte_step(
                *old(self),
                *final(self),
                *old(context),
                *final(context),
                r,
                |b: u8|
                    if b == 0x0D {
                        Some(ParserState::HeaderLf1)
                    } else {
                        None
                    },
                |b: u8| false,
                |b: u8| ParserError::CrlfSequence(b),
            ),
    {
        let crlf: [u8; 2] = [0x0D, 0x0A];
        proof {
            assert(crlf@ =~= seq![0x0Du8, 0x0A]);
            if context.spec_available() >= 2 && context.stream@[context.stream_index as int] == 0x0D
                && context.stream@[context.stream_index + 1] == 0x0A {
                assert(context.stream@.subrange(
                    context.stream_index as int,
                    context.stream_index + 2,
                ) =~= crlf@);
            }
        }
        if context.has_bytes(2) && context.starts_with(&crlf) {
            context.jump(2);
            self.state = ParserState::HeaderCr2;
            context.mark();
            return Ok(ParserValue::Continue);
        }
        if context.available() == 0 {
            return Ok(ParserValue::Exit(Success::Eos(context.stream_index)));
        }
        context.next();
        if context.byte == 0x0D {
            self.state = ParserState::HeaderLf1;
            context.mark();
            return Ok(ParserValue::Continue);
        }
        Err(ParserError::CrlfSequence(context.byte))
    }

    /// State function of `ParserState::HeaderLf1`.
    pub fn header_lf1<T: HttpHandler>(&mut self, _handler: &mut T, context: &mut ByteStream) -> (r: Result<
        ParserValue,
        ParserError,
    >)
        requires
            old(self).ready(*old(context), ParserState::HeaderLf1),
        ensures
            step_post(*old(self), *final(self), *old(context), *final(context), r),
            expect_step(
                *old(self),
                *final(self),
                *old(context),
                *final(context),
                r,
                0x0A,
                ParserState::HeaderCr2,
                |b: u8| ParserError::CrlfSequence(b),
            ),
            message_step(*old(self), *final(self), *old(context), *final(context), r),
    {
        proof {
            lemma_message_run_short(self.message_position());
        }
        if context.available() == 0 {
            return Ok(ParserValue::Exit(Success::Eos(context.stream_index)));
        }
        context.next();
        if context.byte == 0x0A {
            self.state = ParserState::HeaderCr2;
            context.mark();
            return Ok(ParserValue::Continue);
        }
        Err(ParserError::CrlfSequence(context.byte))
    }

    /// State function of `ParserState::HeaderCr2`.
    pub fn header_cr2<T: HttpHandler>(&mut self, _handler: &mut T, context: &mut ByteStream) -> (r: Result<
        ParserValue,
        ParserError,
    >)
        requires
            old(self).ready(*old(context), ParserState::HeaderCr2),
        ensures
            step_post(*old(self), *final(self), *old(context), *final(context), r),
            old(context).spec_available() >= 2 && old(context).stream@[old(context).stream_index as int] == 0x0D && old(context).stream@[old(context).stream_index + 1] == 0x0A ==> final(self).spec_state() == ParserState::HeaderEnd
                && final(context).stream_index == old(context).stream_index + 2 && r == Ok::<
                ParserValue,
                ParserError,
            >(ParserValue::Continue),
            !(old(context).spec_available() >= 2 && old(context).stream@[old(context).stream_index as int] == 0x0D && old(context).stream@[old(context).stream_index + 1] == 0x0A) ==> byte_step(
                *old(self),
                *final(self),
                *old(context),
                *final(context),
                r,
                |b: u8|
                    if b == 0x0D {
                        Some(ParserState::HeaderLf2)
                    } else {
                        Some(ParserState::CheckHeaderName)
                    },
                |b: u8| b != 0x0D,
                |b: u8| ParserError::CrlfSequence(b),
            ),
            message_step(*old(self), *final(self), *old(context), *final(context), r),
    {
        proof {
            lemma_message_run_short(self.message_position());
        }
        let crlf: [u8; 2] = [0x0D, 0x0A];
        proof {
            assert(crlf@ =~= seq![0x0Du8, 0x0A]);
            if context.spec_available() >= 2 && context.stream@[context.stream_index as int] == 0x0D
                && context.stream@[context.stream_index + 1] == 0x0A {
                assert(context.stream@.subrange(
                    context.stream_index as int,
                    context.stream_index + 2,
                ) =~= crlf@);
            }
        }
        if context.has_bytes(2) && context.starts_with(&crlf) {
            context.jump(2);
            self.state = ParserState::HeaderEnd;
            context.mark();
            return Ok(ParserValue::Continue);
        }
        if context.available() == 0 {
            return Ok(ParserValue::Exit(Success::Eos(context.stream_index)));
        }
        context.next();
        if context.byte == 0x0D {
            self.state = ParserState::HeaderLf2;
            context.mark();
            return Ok(ParserValue::Continue);
        }
        context.replay();
        self.state = ParserState::CheckHeaderName;
        context.mark();
        return Ok(ParserValue::Continue);
    }

    /// State function of `ParserState::HeaderLf2`.
    pub fn header_lf2<T: HttpHandler>(&mut self, _handler: &mut T, context: &mut ByteStream) -> (r: Result<
        ParserValue,
        ParserError,
    >)
        requires
            old(self).ready(*old(context), ParserState::HeaderLf2),
        ensures
            step_post(*old(self), *final(self), *old(context), *final(context), r),
            expect_step(
                *old(self),
                *final(self),
                *old(context),
                *final(context),
                r,
                0x0A,
                ParserState::HeaderEnd,
                |b: u8| ParserError::CrlfSequence(b),
            ),
            message_step(*old(self), *final(self), *old(context), *final(context), r),
    {
        proof {
            lemma_message_run_short(self.message_position());
        }
        if context.available() == 0 {
            return Ok(ParserValue::Exit(Success::Eos(context.stream_index)));
        }
        context.next();
        if context.byte == 0x0A {
            self.state = ParserState::HeaderEnd;
            context.mark();
            return Ok(ParserValue::Continue);
        }
        Err(ParserError::CrlfSequence(context.byte))
    }

    /// State function of `ParserState::HeaderEnd`.
    pub fn header_end<T: HttpHandler>(&mut self, handler: &mut T, context: &mut ByteStream) -> (r: Result<
        ParserValue,
        ParserError,
    >)
        requires
            old(self).ready(*old(context), ParserState::HeaderEnd),
        ensures
            step_post(*old(self), *final(self), *old(context), *final(context), r),
            pass_step(
                *old(self),
                *final(self),
                *old(context),
                *final(context),
                r,
                match old(self).spec_parser_type() {
                    ParserType::Chunked => ParserState::BodyFinished,
                    ParserType::Multipart => ParserState::MultipartDetectData,
                    _ => ParserState::Finished,
                },
            ),
            message_parser_type(old(self).spec_parser_type()) ==> message_step(
                *old(self),
                *final(self),
                *old(context),
                *final(context),
                r,
            ),
    {
        proof {
            lemma_message_run_short(self.message_position());
        }
        match self.parser_type {
            ParserType::Chunked => {
                self.state = ParserState::BodyFinished;
            },
            ParserType::Multipart => {
                self.state = ParserState::MultipartDetectData;
            },
            _ => {
                self.state = ParserState::Finished;
            },
        }
        if self.report_headers_finished(handler) {
            context.mark();
            return Ok(ParserValue::Continue);
        }
        Ok(ParserValue::Exit(Success::Callback(context.stream_index)))
    }

    /// State function of `ParserState::ChunkLength1`.
    pub fn chunk_length1<T: HttpHandler>(&mut self, handler: &mut T, context: &mut ByteStream) -> (r: Result<
        ParserValue,
        ParserError,
    >)
        requires
            old(self).ready(*old(context), ParserState::ChunkLength1),
        ensures
            step_post(*old(self), *final(self), *old(context), *final(context), r),
            byte_step(
                *old(self),
                *final(self),
                *old(context),
                *final(context),
                r,
                |b: u8|
                    if b == 0x30 {
                        Some(ParserState::ChunkLengthCr)
                    } else if spec_is_hex(b) {
                        Some(ParserState::ChunkLength2)
                    } else {
                        None
                    },
                |b: u8| false,
                |b: u8| ParserError::ChunkLength(b),
            ),
            ({
                let b = old(context).stream@[old(context).stream_index as int];
                next_byte(*old(context)) is Some && b != 0x30 && spec_is_hex(b)
                    ==> final(self).spec_length() == spec_hex_value(b)
            }),
            message_step(*old(self), *final(self), *old(context), *final(context), r),
    {
        proof {
            lemma_message_run_short(self.message_position());
        }
        if context.available() == 0 {
            return Ok(ParserValue::Exit(Success::Eos(context.stream_index)));
        }
        context.next();
        if context.byte == 0x30 {
            self.state = ParserState::ChunkLengthCr;
        } else if is_hex(context.byte) {
            self.length = hex_to_byte(context.byte) as usize;
            self.state = ParserState::ChunkLength2;
        } else {
            return Err(ParserError::ChunkLength(context.byte));
        }
        if self.report_chunk_begin(handler) {
            context.mark();
            return Ok(ParserValue::Continue);
        }
        Ok(ParserValue::Exit(Success::Callback(context.stream_index)))
    }

    /// State function of `ParserState::ChunkLength2`.
    pub fn chunk_length2<T: HttpHandler>(&mut self, _handler: &mut T, context: &mut ByteStream) -> (r: Result<
        ParserValue,
        ParserError,
    >)
        requires
            old(self).ready(*old(context), ParserState::ChunkLength2),
        ensures
            step_post(*old(self), *final(self), *old(context), *final(context), r),
            byte_step(
                *old(self),
                *final(self),
                *old(context),
                *final(context),
                r,
                |b: u8|
                    if spec_is_hex(b) {
                        Some(ParserState::ChunkLength3)
                    } else {
                        Some(ParserState::ChunkLengthCr)
                    },
                |b: u8| !spec_is_hex(b),
                |b: u8| ParserError::ChunkLength(b),
            ),
            ({
                let b = old(context).stream@[old(context).stream_index as int];
                next_byte(*old(context)) is Some && spec_is_hex(b)
                    ==> final(self).spec_length() == old(self).spec_length() * 16 + spec_hex_value(b)
            }),
            ({
                let b = old(context).stream@[old(context).stream_index as int];
                next_byte(*old(context)) is Some && !spec_is_hex(b)
                    ==> final(self).spec_length() == old(self).spec_length()
            }),
            message_step(*old(self), *final(self), *old(context), *final(context), r),
    {
        proof {
            lemma_message_run_short(self.message_position());
        }
        if context.available() == 0 {
            return Ok(ParserValue::Exit(Success::Eos(context.stream_index)));
        }
        context.next();
        if is_hex(context.byte) {
            let digit = hex_to_byte(context.byte) as usize;
            let previous = self.length;
            assert(previous < 0x10 && digit < 16 ==> (previous << 4usize) | digit < 0x100 && (previous << 4usize) | digit == previous * 16 + digit)
                by (bit_vector);
            self.length = (previous << 4) | digit;
            self.state = ParserState::ChunkLength3;
            context.mark();
            return Ok(ParserValue::Continue);
        }
        context.replay();
        self.state = ParserState::ChunkLengthCr;
        context.mark();
        return Ok(ParserValue::Continue);
    }

    /// State function of `ParserState::ChunkLength3`.
    pub fn chunk_length3<T: HttpHandler>(&mut self, _handler: &mut T, context: &mut ByteStream) -> (r: Result<
        ParserValue,
        ParserError,
    >)
        requires
            old(self).ready(*old(context), ParserState::ChunkLength3),
        ensures
            step_post(*old(self), *final(self), *old(context), *final(context), r),
            byte_step(
                *old(self),
                *final(self),
                *old(context),
                *final(context),
                r,
                |b: u8|
                    if spec_is_hex(b) {
                        Some(ParserState::ChunkLength4)
                    } else {
                        Some(ParserState::ChunkLengthCr)
                    },
                |b: u8| !spec_is_hex(b),
                |b: u8| ParserError::ChunkLength(b),
            ),
            ({
                let b = old(context).stream@[old(context).stream_index as int];
                next_byte(*old(context)) is Some && spec_is_hex(b)
                    ==> final(self).spec_length() == old(self).spec_length() * 16 + spec_hex_value(b)
            }),
            ({
                let b = old(context).stream@[old(context).stream_index as int];
                next_byte(*old(context)) is Some && !spec_is_hex(b)
                    ==> final(self).spec_length() == old(self).spec_length()
            }),
            message_step(*old(self), *final(self), *old(context), *final(context), r),
    {
        proof {
            lemma_message_run_short(self.message_position());
        }
        if context.available() == 0 {
            return Ok(ParserValue::Exit(Success::Eos(context.stream_index)));
        }
        context.next();
        if is_hex(context.byte) {
            let digit = hex_to_byte(context.byte) as usize;
            let previous = self.length;
            assert(previous < 0x100 && digit < 16 ==> (previous << 4usize) | digit < 0x1000 && (previous << 4usize) | digit == previous * 16 + digit)
                by (bit_vector);
            self.length = (previous << 4) | digit;
            self.state = ParserState::ChunkLength4;
            context.mark();
            return Ok(ParserValue::Continue);
        }
        context.replay();
        self.state = ParserState::ChunkLengthCr;
        context.mark();
        return Ok(ParserValue::Continue);
    }

    /// State function of `ParserState::ChunkLength4`.
    pub fn chunk_length4<T: HttpHandler>(&mut self, _handler: &mut T, context: &mut ByteStream) -> (r: Result<
        ParserValue,
        ParserError,
    >)
        requires
            old(self).ready(*old(context), ParserState::ChunkLength4),
        ensures
            step_post(*old(self), *final(self), *old(context), *final(context), r),
            byte_step(
                *old(self),
                *final(self),
                *old(context),
                *final(context),
                r,
                |b: u8|
                    if spec_is_hex(b) {
                        Some(ParserState::ChunkLength5)
                    } else {
                        Some(ParserState::ChunkLengthCr)
                    },
                |b: u8| !spec_is_hex(b),
                |b: u8| ParserError::ChunkLength(b),
            ),
            ({
                let b = old(context).stream@[old(context).stream_index as int];
                next_byte(*old(context)) is Some && spec_is_hex(b)
                    ==> final(self).spec_length() == old(self).spec_length() * 16 + spec_hex_value(b)
            }),
            ({
                let b = old(context).stream@[old(context).stream_index as int];
                next_byte(*old(context)) is Some && !spec_is_hex(b)
                    ==> final(self).spec_length() == old(self).spec_length()
            }),
            message_step(*old(self), *final(self), *old(context), *final(context), r),
    {
        proof {
            lemma_message_run_short(self.message_position());
        }
        if context.available() == 0 {
            return Ok(ParserValue::Exit(Success::Eos(context.stream_index)));
        }
        context.next();
        if is_hex(context.byte) {
            let digit = hex_to_byte(context.byte) as usize;
            let previous = self.length;
            assert(previous < 0x1000 && digit < 16 ==> (previous << 4usize) | digit < 0x1_0000 && (previous << 4usize) | digit == previous * 16 + digit)
                by (bit_vector);
            self.length = (previous << 4) | digit;
            self.state = ParserState::ChunkLength5;
            context.mark();
            return Ok(ParserValue::Continue);
        }
        context.replay();
        self.state = ParserState::ChunkLengthCr;
        context.mark();
        return Ok(ParserValue::Continue);
    }

    /// State function of `ParserState::ChunkLength5`.
    pub fn chunk_length5<T: HttpHandler>(&mut self, _handler: &mut T, context: &mut ByteStream) -> (r: Result<
        ParserValue,
        ParserError,
    >)
        requires
            old(self).ready(*old(context), ParserState::ChunkLength5),
        ensures
            step_post(*old(self), *final(self), *old(context), *final(context), r),
            byte_step(
                *old(self),
                *final(self),
                *old(context),
                *final(context),
                r,
                |b: u8|
                    if spec_is_hex(b) {
                        Some(ParserState::ChunkLength6)
                    } else {
                        Some(ParserState::ChunkLengthCr)
                    },
                |b: u8| !spec_is_hex(b),
                |b: u8| ParserError::ChunkLength(b),
            ),
            ({
                let b = old(context).stream@[old(context).stream_index as int];
                next_byte(*old(context)) is Some && spec_is_hex(b)
                    ==> final(self).spec_length() == old(self).spec_length() * 16 + spec_hex_value(b)
            }),
            ({
                let b = old(context).stream@[old(context).stream_index as int];
                next_byte(*old(context)) is Some && !spec_is_hex(b)
                    ==> final(self).spec_length() == old(self).spec_length()
            }),
            message_step(*old(self), *final(self), *old(context), *final(context), r),
    {
        proof {
            lemma_message_run_short(self.message_position());
        }
        if context.available() == 0 {
            return Ok(ParserValue::Exit(Success::Eos(context.stream_index)));
        }
        context.next();
        if is_hex(context.byte) {
            let digit = hex_to_byte(context.byte) as usize;
            let previous = self.length;
            assert(previous < 0x1_0000 && digit < 16 ==> (previous << 4usize) | digit < 0x10_0000 && (previous << 4usize) | digit == previous * 16 + digit)
                by (bit_vector);
            self.length = (previous << 4) | digit;
            self.state = ParserState::ChunkLength6;
            context.mark();
            return Ok(ParserValue::Continue);
        }
        context.replay();
        self.state = ParserState::ChunkLengthCr;
        context.mark();
        return Ok(ParserValue::Continue);
    }

    /// State function of `ParserState::ChunkLength6`.
    pub fn chunk_length6<T: HttpHandler>(&mut self, _handler: &mut T, context: &mut ByteStream) -> (r: Result<
        ParserValue,
        ParserError,
    >)
        requires
            old(self).ready(*old(context), ParserState::ChunkLength6),
        ensures
            step_post(*old(self), *final(self), *old(context), *final(context), r),
            byte_step(
                *old(self),
                *final(self),
                *old(context),
                *final(context),
                r,
                |b: u8|
                    if spec_is_hex(b) {
                        Some(ParserState::ChunkLength7)
                    } else {
                        Some(ParserState::ChunkLengthCr)
                    },
                |b: u8| !spec_is_hex(b),
                |b: u8| ParserError::ChunkLength(b),
            ),
            ({
                let b = old(context).stream@[old(context).stream_index as int];
                next_byte(*old(context)) is Some && spec_is_hex(b)
                    ==> final(self).spec_length() == old(self).spec_length() * 16 + spec_hex_value(b)
            }),
            ({
                let b = old(context).stream@[old(context).stream_index as int];
                next_byte(*old(context)) is Some && !spec_is_hex(b)
                    ==> final(self).spec_length() == old(self).spec_length()
            }),
            message_step(*old(self), *final(self), *old(context), *final(context), r),
    {
        proof {
            lemma_message_run_short(self.message_position());
        }
        if context.available() == 0 {
            return Ok(ParserValue::Exit(Success::Eos(context.stream_index)));
        }
        context.next();
        if is_hex(context.byte) {
            let digit = hex_to_byte(context.byte) as usize;
            let previous = self.length;
            assert(previous < 0x10_0000 && digit < 16 ==> (previous << 4usize) | digit < 0x100_0000 && (previous << 4usize) | digit == previous * 16 + digit)
                by (bit_vector);
            self.length = (previous << 4) | digit;
            self.state = ParserState::ChunkLength7;
            context.mark();
            return Ok(ParserValue::Continue);
        }
        context.replay();
        self.state = ParserState::ChunkLengthCr;
        context.mark();
        return Ok(ParserValue::Continue);
    }

    /// State function of `ParserState::ChunkLength7`.
    pub fn chunk_length7<T: HttpHandler>(&mut self, _handler: &mut T, context: &mut ByteStream) -> (r: Result<
        ParserValue,
        ParserError,
    >)
        requires
            old(self).ready(*old(context), ParserState::ChunkLength7),
        ensures
            step_post(*old(self), *final(self), *old(context), *final(context), r),
            byte_step(
                *old(self),
                *final(self),
                *old(context),
                *final(context),
                r,
                |b: u8|
                    if spec_is_hex(b) {
                        Some(ParserState::ChunkLength8)
                    } else {
                        Some(ParserState::ChunkLengthCr)
                    },
                |b: u8| !spec_is_hex(b),
                |b: u8| ParserError::ChunkLength(b),
            ),
            ({
                let b = old(context).stream@[old(context).stream_index as int];
                next_byte(*old(context)) is Some && spec_is_hex(b)
                    ==> final(self).spec_length() == old(self).spec_length() * 16 + spec_hex_value(b)
            }),
            ({
                let b = old(context).stream@[old(context).stream_index as int];
                next_byte(*old(context)) is Some && !spec_is_hex(b)
                    ==> final(self).spec_length() == old(self).spec_length()
            }),
            message_step(*old(self), *final(self), *old(context), *final(context), r),
    {
        proof {
            lemma_message_run_short(self.message_position());
        }
        if context.available() == 0 {
            return Ok(ParserValue::Exit(Success::Eos(context.stream_index)));
        }
        context.next();
        if is_hex(context.byte) {
            let digit = hex_to_byte(context.byte) as usize;
            let previous = self.length;
            assert(previous < 0x100_0000 && digit < 16 ==> (previous << 4usize) | digit < 0x1000_0000 && (previous << 4usize) | digit == previous * 16 + digit)
                by (bit_vector);
            self.length = (previous << 4) | digit;
            self.state = ParserState::ChunkLength8;
            context.mark();
            return Ok(ParserValue::Continue);
        }
        context.replay();
        self.state = ParserState::ChunkLengthCr;
        context.mark();
        return Ok(ParserValue::Continue);
    }

    /// State function of `ParserState::ChunkLength8`.
    pub fn chunk_length8<T: HttpHandler>(&mut self, _handler: &mut T, context: &mut ByteStream) -> (r: Result<
        ParserValue,
        ParserError,
    >)
        requires
            old(self).ready(*old(context), ParserState::ChunkLength8),
        ensures
            step_post(*old(self), *final(self), *old(context), *final(context), r),
            byte_step(
                *old(self),
                *final(self),
                *old(context),
                *final(context),
                r,
                |b: u8|
                    if spec_is_hex(b) {
                        Some(ParserState::ChunkLengthCr)
                    } else {
                        Some(ParserState::ChunkLengthCr)
                    },
                |b: u8| !spec_is_hex(b),
                |b: u8| ParserError::ChunkLength(b),
            ),
            ({
                let b = old(context).stream@[old(context).stream_index as int];
                next_byte(*old(context)) is Some && spec_is_hex(b)
                    ==> final(self).spec_length() == old(self).spec_length() * 16 + spec_hex_value(b)
            }),
            ({
                let b = old(context).stream@[old(context).stream_index as int];
                next_byte(*old(context)) is Some && !spec_is_hex(b)
                    ==> final(self).spec_length() == old(self).spec_length()
            }),
            message_step(*old(self), *final(self), *old(context), *final(context), r),
    {
        proof {
            lemma_message_run_short(self.message_position());
        }
        if context.available() == 0 {
            return Ok(ParserValue::Exit(Success::Eos(context.stream_index)));
        }
        context.next();
        if is_hex(context.byte) {
            let digit = hex_to_byte(context.byte) as usize;
            let previous = self.length;
            assert(previous < 0x1000_0000 && digit < 16 ==> (previous << 4usize) | digit < 0x1_0000_0000 && (previous << 4usize) | digit == previous * 16 + digit)
                by (bit_vector);
            self.length = (previous << 4) | digit;
        } else {
            context.replay();
        }
        self.state = ParserState::ChunkLengthCr;
        context.mark();
        return Ok(ParserValue::Continue);
    }

    /// State function of `ParserState::ChunkLengthCr`.
    pub fn chunk_length_cr<T: HttpHandler>(&mut self, handler: &mut T, context: &mut ByteStream) -> (r: Result<
        ParserValue,
        ParserError,
    >)
        requires
            old(self).ready(*old(context), ParserState::ChunkLengthCr),
        ensures
            step_post(*old(self), *final(self), *old(context), *final(context), r),
            byte_step(
                *old(self),
                *final(self),
                *old(context),
                *final(context),
                r,
                |b: u8|
                    if b == 0x0D {
                        if old(self).spec_length() == 0 {
                            Some(ParserState::HeaderLf1)
                        } else {
                            Some(ParserState::ChunkExtensionsFinished)
                        }
                    } else if b == 0x3B {
                        Some(ParserState::StripChunkExtensionName)
                    } else {
                        None
                    },
                |b: u8| false,
                |b: u8| ParserError::ChunkLength(b),
            ),
            message_step(*old(self), *final(self), *old(context), *final(context), r),
            next_byte(*old(context)) matches Some(b) && (b == 0x0D || b == 0x3B) ==> pushed(old(self).spec_events(), final(self).spec_events(), Callback::ChunkLength, Seq::<u8>::empty(), old(self).spec_length() as int, 0),
            !(next_byte(*old(context)) matches Some(b) && (b == 0x0D || b == 0x3B)) ==> final(self).spec_events() == old(self).spec_events(),
    {
        proof {
            lemma_message_run_short(self.message_position());
        }
        if context.available() == 0 {
            return Ok(ParserValue::Exit(Success::Eos(context.stream_index)));
        }
        context.next();
        if context.byte == 0x0D {
            if self.length == 0 {
                self.state = ParserState::HeaderLf1;
                if self.report_chunk_length(handler, self.length) {
                    context.mark();
                    return Ok(ParserValue::Continue);
                }
                return Ok(ParserValue::Exit(Success::Callback(context.stream_index)));
            }
            self.state = ParserState::ChunkExtensionsFinished;
            if self.report_chunk_length(handler, self.length) {
                context.mark();
                return Ok(ParserValue::Continue);
            }
            return Ok(ParserValue::Exit(Success::Callback(context.stream_index)));
        } else if context.byte == 0x3B {
            self.state = ParserState::StripChunkExtensionName;
            if self.report_chunk_length(handler, self.length) {
                context.mark();
                return Ok(ParserValue::Continue);
            }
            return Ok(ParserValue::Exit(Success::Callback(context.stream_index)));
        }
        Err(ParserError::ChunkLength(context.byte))
    }

    /// State function of `ParserState::ChunkLengthLf`.
    pub fn chunk_length_lf<T: HttpHandler>(&mut self, _handler: &mut T, context: &mut ByteStream) -> (r: Result<
        ParserValue,
        ParserError,
    >)
        requires
            old(self).ready(*old(context), ParserState::ChunkLengthLf),
        ensures
            step_post(*old(self), *final(self), *old(context), *final(context), r),
            expect_step(
                *old(self),
                *final(self),
                *old(context),
                *final(context),
                r,
                0x0A,
                ParserState::ChunkData,
                |b: u8| ParserError::CrlfSequence(b),
            ),
            message_step(*old(self), *final(self), *old(context), *final(context), r),
    {
        proof {
            lemma_message_run_short(self.message_position());
        }
        if context.available() == 0 {
            return Ok(ParserValue::Exit(Success::Eos(context.stream_index)));
        }
        context.next();
        if context.byte == 0x0A {
            self.state = ParserState::ChunkData;
            context.mark();
            return Ok(ParserValue::Continue);
        }
        Err(ParserError::CrlfSequence(context.byte))
    }

    /// State function of `ParserState::StripChunkExtensionName`.
    pub fn strip_chunk_extension_name<T: HttpHandler>(&mut self, _handler: &mut T, context: &mut ByteStream) -> (r: Result<
        ParserValue,
        ParserError,
    >)
        requires
            old(self).ready(*old(context), ParserState::StripChunkExtensionName),
        ensures
            step_post(*old(self), *final(self), *old(context), *final(context), r),
            collect_step(
                *old(self),
                *final(self),
                *old(context),
                *final(context),
                r,
                Collect::LinearSpace,
                |b: u8|
                    if spec_is_visible_7bit(b) {
                        Some(ParserState::LowerChunkExtensionName)
                    } else {
                        None
                    },
                |b: u8| true,
                |b: u8| ParserError::ChunkExtensionName(b),
            ),
            message_step(*old(self), *final(self), *old(context), *final(context), r),
    {
        proof {
            lemma_message_run_short(self.message_position());
        }
        let ghost i0 = context.stream_index as int;
        let found = collect(context, Collect::LinearSpace);
        proof {
            lemma_message_collect(
                self.message_position(),
                context.stream@,
                i0,
                context.stream_index as int,
                found,
                Collect::LinearSpace,
            );
        }
        if !found {
            return Ok(ParserValue::Exit(Success::Eos(context.stream_index)));
        }
        // make sure we have something visible to collect in next state
        if is_visible_7bit(context.byte) {
            context.replay();
            self.state = ParserState::LowerChunkExtensionName;
            context.mark();
            return Ok(ParserValue::Continue);
        }
        Err(ParserError::ChunkExtensionName(context.byte))
    }

    /// State function of `ParserState::LowerChunkExtensionName`.
    pub fn lower_chunk_extension_name<T: HttpHandler>(&mut self, handler: &mut T, context: &mut ByteStream) -> (r: Result<
        ParserValue,
        ParserError,
    >)
        requires
            old(self).ready(*old(context), ParserState::LowerChunkExtensionName),
        ensures
            step_post(*old(self), *final(self), *old(context), *final(context), r),
            collect_step(
                *old(self),
                *final(self),
                *old(context),
                *final(context),
                r,
                Collect::LowerTokens,
                |b: u8|
                    if b == 0x3D {
                        Some(ParserState::StripChunkExtensionValue)
                    } else if b == 0x0D || b == 0x3B {
                        Some(ParserState::ChunkExtensionFinished)
                    } else if spec_is_upper(b) {
                        Some(ParserState::UpperChunkExtensionName)
                    } else {
                        None
                    },
                |b: u8| b != 0x3D,
                |b: u8| ParserError::ChunkExtensionName(b),
            ),
            message_step(*old(self), *final(self), *old(context), *final(context), r),
            collect_events(
                old(self).spec_events(),
                final(self).spec_events(),
                old(context).stream@,
                old(context).stream_index as int,
                old(context).mark_index as int,
                Collect::LowerTokens,
                Callback::ChunkExtensionName,
                r is Ok,
            ),
    {
        proof {
            lemma_message_run_short(self.message_position());
        }
        let ghost i0 = context.stream_index as int;
        let found = collect(context, Collect::LowerTokens);
        proof {
            lemma_first_outside(
                context.stream@,
                i0,
                if found {
                    context.stream_index - 1
                } else {
                    context.stream_index as int
                },
                Collect::LowerTokens,
            );
            lemma_message_collect(
                self.message_position(),
                context.stream@,
                i0,
                context.stream_index as int,
                found,
                Collect::LowerTokens,
            );
        }
        if !found {
            if context.slice_length() > 0 {
                if self.report_chunk_extension_name(handler, context.slice()) {
                    return Ok(ParserValue::Exit(Success::Eos(context.stream_index)));
                }
                return Ok(ParserValue::Exit(Success::Callback(context.stream_index)));
            }
            return Ok(ParserValue::Exit(Success::Eos(context.stream_index)));
        }
        if context.byte == 0x3D {
            self.state = ParserState::StripChunkExtensionValue;
            if context.slice_length() > 1 {
                if self.report_chunk_extension_name(handler, context.slice_ignore()) {
                    context.mark();
                    return Ok(ParserValue::Continue);
                }
                return Ok(ParserValue::Exit(Success::Callback(context.stream_index)));
            }
            context.mark();
            return Ok(ParserValue::Continue);
        } else if context.byte == 0x0D || context.byte == 0x3B {
            // extension name without a value
            context.replay();
            self.state = ParserState::ChunkExtensionFinished;
            if context.slice_length() > 0 {
                if self.report_chunk_extension_name(handler, context.slice()) {
                    context.mark();
                    return Ok(ParserValue::Continue);
                }
                return Ok(ParserValue::Exit(Success::Callback(context.stream_index)));
            }
            context.mark();
            return Ok(ParserValue::Continue);
        } else if is_upper(context.byte) {
            // upper-cased byte
            context.replay();
            self.state = ParserState::UpperChunkExtensionName;
            if context.slice_length() > 0 {
                if self.report_chunk_extension_name(handler, context.slice()) {
                    context.mark();
                    return Ok(ParserValue::Continue);
                }
                return Ok(ParserValue::Exit(Success::Callback(context.stream_index)));
            }
            context.mark();
            return Ok(ParserValue::Continue);
        }
        Err(ParserError::ChunkExtensionName(context.byte))
    }

    /// State function of `ParserState::UpperChunkExtensionName`.
    pub fn upper_chunk_extension_name<T: HttpHandler>(&mut self, handler: &mut T, context: &mut ByteStream) -> (r: Result<
        ParserValue,
        ParserError,
    >)
        requires
            old(self).ready(*old(context), ParserState::UpperChunkExtensionName),
        ensures
            step_post(*old(self), *final(self), *old(context), *final(context), r),
            byte_step(
                *old(self),
                *final(self),
                *old(context),
                *final(context),
                r,
                |b: u8|
                    if spec_is_upper(b) {
                        Some(ParserState::LowerChunkExtensionName)
                    } else {
                        Some(ParserState::LowerChunkExtensionName)
                    },
                |b: u8| !spec_is_upper(b),
                |b: u8| ParserError::ChunkExtensionName(b),
            ),
            message_step(*old(self), *final(self), *old(context), *final(context), r),
    {
        proof {
            lemma_message_run_short(self.message_position());
        }
        if context.available() == 0 {
            return Ok(ParserValue::Exit(Success::Eos(context.stream_index)));
        }
        context.next();
        if is_upper(context.byte) {
            self.state = ParserState::LowerChunkExtensionName;
            if self.report_chunk_extension_name(handler, &[context.byte + 0x20]) {
                context.mark();
                return Ok(ParserValue::Continue);
            }
            return Ok(ParserValue::Exit(Success::Callback(context.stream_index)));
        }
        context.replay();
        self.state = ParserState::LowerChunkExtensionName;
        context.mark();
        return Ok(ParserValue::Continue);
    }

    /// State function of `ParserState::StripChunkExtensionValue`.
    pub fn strip_chunk_extension_value<T: HttpHandler>(&mut self, _handler: &mut T, context: &mut ByteStream) -> (r: Result<
        ParserValue,
        ParserError,
    >)
        requires
            old(self).ready(*old(context), ParserState::StripChunkExtensionValue),
        ensures
            step_post(*old(self), *final(self), *old(context), *final(context), r),
            collect_step(
                *old(self),
                *final(self),
                *old(context),
                *final(context),
                r,
                Collect::LinearSpace,
                |b: u8|
                    if spec_is_visible_7bit(b) {
                        Some(ParserState::ChunkExtensionValue)
                    } else {
                        None
                    },
                |b: u8| true,
                |b: u8| ParserError::ChunkExtensionValue(b),
            ),
            message_step(*old(self), *final(self), *old(context), *final(context), r),
    {
        proof {
            lemma_message_run_short(self.message_position());
        }
        let ghost i0 = context.stream_index as int;
        let found = collect(context, Collect::LinearSpace);
        proof {
            lemma_message_collect(
                self.message_position(),
                context.stream@,
                i0,
                context.stream_index as int,
                found,
                Collect::LinearSpace,
            );
        }
        if !found {
            return Ok(ParserValue::Exit(Success::Eos(context.stream_index)));
        }
        // make sure we have something visible to collect in next state
        if is_visible_7bit(context.byte) {
            context.replay();
            self.state = ParserState::ChunkExtensionValue;
            context.mark();
            return Ok(ParserValue::Continue);
        }
        Err(ParserError::ChunkExtensionValue(context.byte))
    }

    /// State function of `ParserState::ChunkExtensionValue`.
    pub fn chunk_extension_value<T: HttpHandler>(&mut self, handler: &mut T, context: &mut ByteStream) -> (r: Result<
        ParserValue,
        ParserError,
    >)
        requires
            old(self).ready(*old(context), ParserState::ChunkExtensionValue),
        ensures
            step_post(*old(self), *final(self), *old(context), *final(context), r),
            collect_step(
                *old(self),
                *final(self),
                *old(context),
                *final(context),
                r,
                Collect::ExtensionValue,
                |b: u8|
                    if b == 0x0D || b == 0x3B {
                        Some(ParserState::ChunkExtensionFinished)
                    } else if b == 0x22 {
                        Some(ParserState::ChunkExtensionQuotedValue)
                    } else {
                        None
                    },
                |b: u8| b == 0x0D || b == 0x3B,
                |b: u8| ParserError::ChunkExtensionValue(b),
            ),
            message_step(*old(self), *final(self), *old(context), *final(context), r),
            collect_events(
                old(self).spec_events(),
                final(self).spec_events(),
                old(context).stream@,
                old(context).stream_index as int,
                old(context).mark_index as int,
                Collect::ExtensionValue,
                Callback::ChunkExtensionValue,
                r is Ok,
            ),
    {
        proof {
            lemma_message_run_short(self.message_position());
        }
        let ghost i0 = context.stream_index as int;
        let found = collect(context, Collect::ExtensionValue);
        proof {
            lemma_first_outside(
                context.stream@,
                i0,
                if found {
                    context.stream_index - 1
                } else {
                    context.stream_index as int
                },
                Collect::ExtensionValue,
            );
            lemma_message_collect(
                self.message_position(),
                context.stream@,
                i0,
                context.stream_index as int,
                found,
                Collect::ExtensionValue,
            );
        }
        if !found {
            if context.slice_length() > 0 {
                if self.report_chunk_extension_value(handler, context.slice()) {
                    return Ok(ParserValue::Exit(Success::Eos(context.stream_index)));
                }
                return Ok(ParserValue::Exit(Success::Callback(context.stream_index)));
            }
            return Ok(ParserValue::Exit(Success::Eos(context.stream_index)));
        }
        if context.byte == 0x0D || context.byte == 0x3B {
            context.replay();
            self.state = ParserState::ChunkExtensionFinished;
            if context.slice_length() > 0 {
                if self.report_chunk_extension_value(handler, context.slice()) {
                    context.mark();
                    return Ok(ParserValue::Continue);
                }
                return Ok(ParserValue::Exit(Success::Callback(context.stream_index)));
            }
            context.mark();
            return Ok(ParserValue::Continue);
        } else if context.byte == 0x22 {
            self.state = ParserState::ChunkExtensionQuotedValue;
            if context.slice_length() > 1 {
                if self.report_chunk_extension_value(handler, context.slice_ignore()) {
                    context.mark();
                    return Ok(ParserValue::Continue);
                }
                return Ok(ParserValue::Exit(Success::Callback(context.stream_index)));
            }
            context.mark();
            return Ok(ParserValue::Continue);
        }
        Err(ParserError::ChunkExtensionValue(context.byte))
    }

    /// State function of `ParserState::ChunkExtensionQuotedValue`.
    pub fn chunk_extension_quoted_value<T: HttpHandler>(&mut self, handler: &mut T, context: &mut ByteStream) -> (r: Result<
        ParserValue,
        ParserError,
    >)
        requires
            old(self).ready(*old(context), ParserState::ChunkExtensionQuotedValue),
        ensures
            step_post(*old(self), *final(self), *old(context), *final(context), r),
            collect_step(
                *old(self),
                *final(self),
                *old(context),
                *final(context),
                r,
                Collect::QuotedHeaderField,
                |b: u8|
                    if b == 0x22 {
                        Some(ParserState::ChunkExtensionValue)
                    } else if b == 0x5C {
                        Some(ParserState::ChunkExtensionEscapedValue)
                    } else {
                        None
                    },
                |b: u8| false,
                |b: u8| ParserError::ChunkExtensionValue(b),
            ),
            message_step(*old(self), *final(self), *old(context), *final(context), r),
            collect_events(
                old(self).spec_events(),
                final(self).spec_events(),
                old(context).stream@,
                old(context).stream_index as int,
                old(context).mark_index as int,
                Collect::QuotedHeaderField,
                Callback::ChunkExtensionValue,
                r is Ok,
            ),
    {
        proof {
            lemma_message_run_short(self.message_position());
        }
        let ghost i0 = context.stream_index as int;
        let found = collect(context, Collect::QuotedHeaderField);
        proof {
            lemma_first_outside(
                context.stream@,
                i0,
                if found {
                    context.stream_index - 1
                } else {
                    context.stream_index as int
                },
                Collect::QuotedHeaderField,
            );
            lemma_message_collect(
                self.message_position(),
                context.stream@,
                i0,
                context.stream_index as int,
                found,
                Collect::QuotedHeaderField,
            );
        }
        if !found {
            if context.slice_length() > 0 {
                if self.report_chunk_extension_value(handler, context.slice()) {
                    return Ok(ParserValue::Exit(Success::Eos(context.stream_index)));
                }
                return Ok(ParserValue::Exit(Success::Callback(context.stream_index)));
            }
            return Ok(ParserValue::Exit(Success::Eos(context.stream_index)));
        }
        if context.byte == 0x22 {
            self.state = ParserState::ChunkExtensionValue;
            if context.slice_length() > 1 {
                if self.report_chunk_extension_value(handler, context.slice_ignore()) {
                    context.mark();
                    return Ok(ParserValue::Continue);
                }
                return Ok(ParserValue::Exit(Success::Callback(context.stream_index)));
            }
            context.mark();
            return Ok(ParserValue::Continue);
        } else if context.byte == 0x5C {
            self.state = ParserState::ChunkExtensionEscapedValue;
            if context.slice_length() > 1 {
                if self.report_chunk_extension_value(handler, context.slice_ignore()) {
                    context.mark();
                    return Ok(ParserValue::Continue);
                }
                return Ok(ParserValue::Exit(Success::Callback(context.stream_index)));
            }
            context.mark();
            return Ok(ParserValue::Continue);
        }
        Err(ParserError::ChunkExtensionValue(context.byte))
    }

    /// State function of `ParserState::ChunkExtensionEscapedValue`.
    pub fn chunk_extension_escaped_value<T: HttpHandler>(&mut self, handler: &mut T, context: &mut ByteStream) -> (r: Result<
        ParserValue,
        ParserError,
    >)
        requires
            old(self).ready(*old(context), ParserState::ChunkExtensionEscapedValue),
        ensures
            step_post(*old(self), *final(self), *old(context), *final(context), r),
            byte_step(
                *old(self),
                *final(self),
                *old(context),
                *final(context),
                r,
                |b: u8|
                    if b > 0x1F && b < 0x7B {
                        Some(ParserState::ChunkExtensionQuotedValue)
                    } else {
                        None
                    },
                |b: u8| false,
                |b: u8| ParserError::ChunkExtensionValue(b),
            ),
            message_step(*old(self), *final(self), *old(context), *final(context), r),
    {
        proof {
            lemma_message_run_short(self.message_position());
        }
        if context.available() == 0 {
            return Ok(ParserValue::Exit(Success::Eos(context.stream_index)));
        }
        context.next();
        // escaped bytes must be 7bit, and cannot be control characters
        if context.byte > 0x1F && context.byte < 0x7B {
            self.state = ParserState::ChunkExtensionQuotedValue;
            if self.report_chunk_extension_value(handler, &[context.byte]) {
                context.mark();
                return Ok(ParserValue::Continue);
            }
            return Ok(ParserValue::Exit(Success::Callback(context.stream_index)));
        }
        Err(ParserError::ChunkExtensionValue(context.byte))
    }

    /// State function of `ParserState::ChunkExtensionFinished`.
    pub fn chunk_extension_finished<T: HttpHandler>(&mut self, handler: &mut T, context: &mut ByteStream) -> (r: Result<
        ParserValue,
        ParserError,
    >)
        requires
            old(self).ready(*old(context), ParserState::ChunkExtensionFinished),
        ensures
            step_post(*old(self), *final(self), *old(context), *final(context), r),
            byte_step(
                *old(self),
                *final(self),
                *old(context),
                *final(context),
                r,
                |b: u8|
                    if b == 0x0D {
                        Some(ParserState::ChunkExtensionsFinished)
                    } else {
                        Some(ParserState::StripChunkExtensionName)
                    },
                |b: u8| false,
                |b: u8| ParserError::ChunkExtensionName(b),
            ),
            message_step(*old(self), *final(self), *old(context), *final(context), r),
    {
        proof {
            lemma_message_run_short(self.message_position());
        }
        if context.available() == 0 {
            return Ok(ParserValue::Exit(Success::Eos(context.stream_index)));
        }
        context.next();
        if context.byte == 0x0D {
            self.state = ParserState::ChunkExtensionsFinished;
        } else {
            self.state = ParserState::StripChunkExtensionName;
        }
        if self.report_chunk_extension_finished(handler) {
            context.mark();
            return Ok(ParserValue::Continue);
        }
        Ok(ParserValue::Exit(Success::Callback(context.stream_index)))
    }

    /// State function of `ParserState::ChunkExtensionsFinished`.
    pub fn chunk_extensions_finished<T: HttpHandler>(&mut self, handler: &mut T, context: &mut ByteStream) -> (r: Result<
        ParserValue,
        ParserError,
    >)
        requires
            old(self).ready(*old(context), ParserState::ChunkExtensionsFinished),
        ensures
            step_post(*old(self), *final(self), *old(context), *final(context), r),
            pass_step(*old(self), *final(self), *old(context), *final(context), r, ParserState::ChunkLengthLf),
            message_step(*old(self), *final(self), *old(context), *final(context), r),
    {
        proof {
            lemma_message_run_short(self.message_position());
        }
        self.state = ParserState::ChunkLengthLf;
        if self.report_chunk_extensions_finished(handler) {
            context.mark();
            return Ok(ParserValue::Continue);
        }
        return Ok(ParserValue::Exit(Success::Callback(context.stream_index)));
    }

    /// State function of `ParserState::ChunkData`.
    pub fn chunk_data<T: HttpHandler>(&mut self, handler: &mut T, context: &mut ByteStream) -> (r: Result<
        ParserValue,
        ParserError,
    >)
        requires
            old(self).ready(*old(context), ParserState::ChunkData),
        ensures
            step_post(*old(self), *final(self), *old(context), *final(context), r),
            next_byte(*old(context)) is None ==> r == Ok::<ParserValue, ParserError>(
                ParserValue::Exit(Success::Eos(old(context).stream_index)),
            ) && *final(self) == *old(self) && final(context).stream_index == old(context).stream_index,
            next_byte(*old(context)) is Some && old(self).spec_length() <= old(context).spec_available() ==> {
                &&& final(context).stream_index == old(context).stream_index + old(self).spec_length()
                &&& final(self).spec_length() == 0
                &&& pass_step(*old(self), *final(self), *final(context), *final(context), r, ParserState::ChunkDataCr)
            },
            next_byte(*old(context)) is Some && old(self).spec_length() > old(context).spec_available() ==> {
                &&& final(context).stream_index == old(context).stream@.len()
                &&& final(self).spec_length() == old(self).spec_length() - old(context).spec_available()
                &&& pass_step(*old(self), *final(self), *final(context), *final(context), r, ParserState::ChunkData)
            },
            message_step(*old(self), *final(self), *old(context), *final(context), r),
            next_byte(*old(context)) is Some ==> ({
                let bytes = old(context).stream@.subrange(
                    old(context).mark_index as int,
                    final(context).stream_index as int,
                );
                if bytes.len() > 0 {
                    pushed(old(self).spec_events(), final(self).spec_events(), Callback::ChunkData, bytes, 0, 0)
                } else {
                    final(self).spec_events() == old(self).spec_events()
                }
            }),
    {
        proof {
            lemma_message_run_short(self.message_position());
            let avail = context.stream@.len() - context.stream_index;
            if self.length > 0 {
                let n = if self.length <= avail {
                    self.length as int
                } else {
                    avail
                };
                lemma_message_data_run(
                    self.length,
                    context.stream@.subrange(
                        context.stream_index as int,
                        context.stream_index + n,
                    ),
                );
            }
        }
        if context.available() == 0 {
            return Ok(ParserValue::Exit(Success::Eos(context.stream_index)));
        }
        if context.available() >= self.length {
            // collect remaining data
            context.jump(self.length);
            self.length = 0;
            self.state = ParserState::ChunkDataCr;
            if context.slice_length() > 0 {
                if self.report_chunk_data(handler, context.slice()) {
                    context.mark();
                    return Ok(ParserValue::Continue);
                }
                return Ok(ParserValue::Exit(Success::Callback(context.stream_index)));
            }
            context.mark();
            return Ok(ParserValue::Continue);
        }
        // collect remaining stream data
        self.length = self.length - context.available();
        context.jump(context.available());
        self.state = ParserState::ChunkData;
        if context.slice_length() > 0 {
            if self.report_chunk_data(handler, context.slice()) {
                context.mark();
                return Ok(ParserValue::Continue);
            }
            return Ok(ParserValue::Exit(Success::Callback(context.stream_index)));
        }
        context.mark();
        return Ok(ParserValue::Continue);
    }

    /// State function of `ParserState::ChunkDataCr`.
    pub fn chunk_data_cr<T: HttpHandler>(&mut self, _handler: &mut T, context: &mut ByteStream) -> (r: Result<
        ParserValue,
        ParserError,
    >)
        requires
            old(self).ready(*old(context), ParserState::ChunkDataCr),
        ensures
            step_post(*old(self), *final(self), *old(context), *final(context), r),
            expect_step(
                *old(self),
                *final(self),
                *old(context),
                *final(context),
                r,
                0x0D,
                ParserState::ChunkDataLf,
                |b: u8| ParserError::CrlfSequence(b),
            ),
            message_step(*old(self), *final(self), *old(context), *final(context), r),
    {
        proof {
            lemma_message_run_short(self.message_position());
        }
        if context.available() == 0 {
            return Ok(ParserValue::Exit(Success::Eos(context.stream_index)));
        }
        context.next();
        if context.byte == 0x0D {
            self.state = ParserState::ChunkDataLf;
            context.mark();
            return Ok(ParserValue::Continue);
        }
        Err(ParserError::CrlfSequence(context.byte))
    }

    /// State function of `ParserState::ChunkDataLf`.
    pub fn chunk_data_lf<T: HttpHandler>(&mut self, _handler: &mut T, context: &mut ByteStream) -> (r: Result<
        ParserValue,
        ParserError,
    >)
        requires
            old(self).ready(*old(context), ParserState::ChunkDataLf),
        ensures
            step_post(*old(self), *final(self), *old(context), *final(context), r),
            expect_step(
                *old(self),
                *final(self),
                *old(context),
                *final(context),
                r,
                0x0A,
                ParserState::ChunkLength1,
                |b: u8| ParserError::CrlfSequence(b),
            ),
            message_step(*old(self), *final(self), *old(context), *final(context), r),
    {
        proof {
            lemma_message_run_short(self.message_position());
        }
        if context.available() == 0 {
            return Ok(ParserValue::Exit(Success::Eos(context.stream_index)));
        }
        context.next();
        if context.byte == 0x0A {
            self.state = ParserState::ChunkLength1;
            context.mark();
            return Ok(ParserValue::Continue);
        }
        Err(ParserError::CrlfSequence(context.byte))
    }

    /// State function of `ParserState::MultipartHyphen1`.
    pub fn multipart_hyphen1<T: HttpHandler>(&mut self, handler: &mut T, context: &mut ByteStream) -> (r: Result<
        ParserValue,
        ParserError,
    >)
        requires
            old(self).ready(*old(context), ParserState::MultipartHyphen1),
        ensures
            step_post(*old(self), *final(self), *old(context), *final(context), r),
            byte_step(
                *old(self),
                *final(self),
                *old(context),
                *final(context),
                r,
                |b: u8|
                    if b == 0x2D {
                        Some(ParserState::MultipartHyphen2)
                    } else if !old(self).expects_boundary() {
                        Some(ParserState::MultipartDataByByte)
                    } else {
                        None
                    },
                |b: u8| false,
                |b: u8| ParserError::MultipartBoundary(b),
            ),
            old(self).expects_boundary() ==> multipart_start_follows(
                *old(self),
                *final(self),
                *old(context),
                *final(context),
                r,
            ),
    {
        if context.available() == 0 {
            return Ok(ParserValue::Exit(Success::Eos(context.stream_index)));
        }
        context.next();
        if context.byte == 0x2D {
            self.state = ParserState::MultipartHyphen2;
            context.mark();
            return Ok(ParserValue::Continue);
        } else if self.lower == 0 {
            // checking for the boundary within multipart data, but it's not the boundary, so
            // send the data to the callback and get back to parsing
            self.state = ParserState::MultipartDataByByte;
            if self.report_multipart_data(handler, &[0x0Du8, 0x0A, context.byte]) {
                context.mark();
                return Ok(ParserValue::Continue);
            }
            return Ok(ParserValue::Exit(Success::Callback(context.stream_index)));
        }
        Err(ParserError::MultipartBoundary(context.byte))
    }

    /// State function of `ParserState::MultipartHyphen2`.
    pub fn multipart_hyphen2<T: HttpHandler>(&mut self, handler: &mut T, context: &mut ByteStream) -> (r: Result<
        ParserValue,
        ParserError,
    >)
        requires
            old(self).ready(*old(context), ParserState::MultipartHyphen2),
        ensures
            step_post(*old(self), *final(self), *old(context), *final(context), r),
            byte_step(
                *old(self),
                *final(self),
                *old(context),
                *final(context),
                r,
                |b: u8|
                    if b == 0x2D {
                        Some(ParserState::MultipartBoundary)
                    } else if !old(self).expects_boundary() {
                        Some(ParserState::MultipartDataByByte)
                    } else {
                        None
                    },
                |b: u8| false,
                |b: u8| ParserError::MultipartBoundary(b),
            ),
            old(self).expects_boundary() ==> multipart_start_follows(
                *old(self),
                *final(self),
                *old(context),
                *final(context),
                r,
            ),
    {
        if context.available() == 0 {
            return Ok(ParserValue::Exit(Success::Eos(context.stream_index)));
        }
        context.next();
        if context.byte == 0x2D {
            self.state = ParserState::MultipartBoundary;
            context.mark();
            return Ok(ParserValue::Continue);
        } else if self.lower == 0 {
            // checking for the boundary within multipart data, but it's not the boundary, so
            // send the data to the callback and get back to parsing
            self.state = ParserState::MultipartDataByByte;
            if self.report_multipart_data(handler, &[0x0Du8, 0x0A, 0x2D, context.byte]) {
                context.mark();
                return Ok(ParserValue::Continue);
            }
            return Ok(ParserValue::Exit(Success::Callback(context.stream_index)));
        }
        Err(ParserError::MultipartBoundary(context.byte))
    }

    /// State function of `ParserState::MultipartBoundary`.
    pub fn multipart_boundary<T: HttpHandler>(&mut self, handler: &mut T, context: &mut ByteStream) -> (r: Result<
        ParserValue,
        ParserError,
    >)
        requires
            old(self).ready(*old(context), ParserState::MultipartBoundary),
        ensures
            step_post(*old(self), *final(self), *old(context), *final(context), r),
            next_byte(*old(context)) is None ==> r == Ok::<ParserValue, ParserError>(
                ParserValue::Exit(Success::Eos(old(context).stream_index)),
            ) && *final(self) == *old(self) && final(context).stream_index == old(context).stream_index,
            next_byte(*old(context)) is Some ==> ({
                let boundary = old(self).spec_boundary()->0@;
                let u = old(self).spec_boundary_index() as int;
                let i = old(context).stream_index as int;
                let n = if boundary.len() - u <= old(context).spec_available() {
                    boundary.len() - u
                } else {
                    old(context).spec_available()
                };
                if old(context).stream@.subrange(i, i + n) == boundary.subrange(u, u + n) {
                    &&& final(context).stream_index == i + n
                    &&& if u + n == boundary.len() {
                        &&& final(self).spec_state() == ParserState::MultipartBoundaryCr
                        &&& final(self).spec_boundary_index() == 0
                        &&& r == Ok::<ParserValue, ParserError>(ParserValue::Continue)
                    } else {
                        &&& final(self).spec_state() == ParserState::MultipartBoundary
                        &&& final(self).spec_boundary_index() == u + n
                        &&& r == Ok::<ParserValue, ParserError>(
                            ParserValue::Exit(Success::Eos(final(context).stream_index)),
                        )
                    }
                } else if !old(self).expects_boundary() {
                    &&& final(self).spec_boundary_index() == 0
                    &&& pushed(
                        old(self).spec_events(),
                        final(self).spec_events(),
                        Callback::MultipartData,
                        seq![0x0Du8, 0x0Au8, 0x2Du8, 0x2Du8] + boundary.subrange(0, u),
                        0,
                        0,
                    )
                    &&& pass_step(
                        *old(self),
                        *final(self),
                        *old(context),
                        *final(context),
                        r,
                        ParserState::MultipartDataByByte,
                    )
                } else {
                    &&& final(context).stream_index == i + 1
                    &&& r == Err::<ParserValue, ParserError>(
                        ParserError::MultipartBoundary(old(context).stream@[i]),
                    )
                }
            }),
            old(self).expects_boundary() ==> multipart_start_follows(
                *old(self),
                *final(self),
                *old(context),
                *final(context),
                r,
            ),
    {
        if context.available() == 0 {
            return Ok(ParserValue::Exit(Success::Eos(context.stream_index)));
        }
        let boundary = self.boundary.unwrap();
        let upper = self.upper;
        let available = context.available();
        let slice = if boundary.len() - upper <= available {
            // compare remainder of boundary
            slice_subrange(boundary, upper, boundary.len())
        } else {
            // compare remainder of stream
            slice_subrange(boundary, upper, upper + available)
        };
        if context.starts_with(slice) {
            let length = slice.len();
            context.jump(length);
            if upper + length == boundary.len() {
                // boundary comparison finished
                self.upper = 0;
                self.state = ParserState::MultipartBoundaryCr;
                context.mark();
                return Ok(ParserValue::Continue);
            }
            // boundary comparison not finished
            self.upper = self.upper + length;
            return Ok(ParserValue::Exit(Success::Eos(context.stream_index)));
        }
        // does not match, so provide all the data that has been compared as the boundary up
        // to this point
        if self.lower == 0 {
            let mut v: Vec<u8> = Vec::new();
            v.push(0x0D);
            v.push(0x0A);
            v.push(0x2D);
            v.push(0x2D);
            v.extend_from_slice(slice_subrange(boundary, 0, upper));
            assert(v@ =~= seq![0x0Du8, 0x0Au8, 0x2Du8, 0x2Du8] + boundary@.subrange(0, upper as int));
            // reset boundary comparison index
            self.upper = 0;
            self.state = ParserState::MultipartDataByByte;
            if self.report_multipart_data(handler, v.as_slice()) {
                context.mark();
                return Ok(ParserValue::Continue);
            }
            return Ok(ParserValue::Exit(Success::Callback(context.stream_index)));
        }
        // parsing the initial boundary, and it's invalid; this always reports the first byte
        // being invalid, even if it's another byte that did not match
        context.next();
        Err(ParserError::MultipartBoundary(context.byte))
    }

    /// State function of `ParserState::MultipartBoundaryCr`.
    pub fn multipart_boundary_cr<T: HttpHandler>(&mut self, handler: &mut T, context: &mut ByteStream) -> (r: Result<
        ParserValue,
        ParserError,
    >)
        requires
            old(self).ready(*old(context), ParserState::MultipartBoundaryCr),
        ensures
            step_post(*old(self), *final(self), *old(context), *final(context), r),
            byte_step(
                *old(self),
                *final(self),
                *old(context),
                *final(context),
                r,
                |b: u8|
                    if b == 0x0D {
                        Some(ParserState::InitialLf)
                    } else if b == 0x2D {
                        Some(ParserState::MultipartEnd)
                    } else {
                        None
                    },
                |b: u8| false,
                |b: u8| ParserError::MultipartBoundary(b),
            ),
            old(self).expects_boundary() ==> multipart_start_follows(
                *old(self),
                *final(self),
                *old(context),
                *final(context),
                r,
            ),
    {
        if context.available() == 0 {
            return Ok(ParserValue::Exit(Success::Eos(context.stream_index)));
        }
        context.next();
        if context.byte == 0x0D {
            self.state = ParserState::InitialLf;
            if self.report_multipart_begin(handler) {
                context.mark();
                return Ok(ParserValue::Continue);
            }
            return Ok(ParserValue::Exit(Success::Callback(context.stream_index)));
        } else if context.byte == 0x2D {
            self.state = ParserState::MultipartEnd;
            context.mark();
            return Ok(ParserValue::Continue);
        }
        Err(ParserError::MultipartBoundary(context.byte))
    }

    /// State function of `ParserState::MultipartBoundaryLf`.
    pub fn multipart_boundary_lf<T: HttpHandler>(&mut self, _handler: &mut T, context: &mut ByteStream) -> (r: Result<
        ParserValue,
        ParserError,
    >)
        requires
            old(self).ready(*old(context), ParserState::MultipartBoundaryLf),
        ensures
            step_post(*old(self), *final(self), *old(context), *final(context), r),
            expect_step(
                *old(self),
                *final(self),
                *old(context),
                *final(context),
                r,
                0x0A,
                ParserState::CheckHeaderName,
                |b: u8| ParserError::MultipartBoundary(b),
            ),
    {
        if context.available() == 0 {
            return Ok(ParserValue::Exit(Success::Eos(context.stream_index)));
        }
        context.next();
        if context.byte == 0x0A {
            self.state = ParserState::CheckHeaderName;
            context.mark();
            return Ok(ParserValue::Continue);
        }
        Err(ParserError::MultipartBoundary(context.byte))
    }

    /// State function of `ParserState::MultipartDetectData`.
    pub fn multipart_detect_data<T: HttpHandler>(&mut self, handler: &mut T, context: &mut ByteStream) -> (r: Result<
        ParserValue,
        ParserError,
    >)
        requires
            old(self).ready(*old(context), ParserState::MultipartDetectData),
        ensures
            step_post(*old(self), *final(self), *old(context), *final(context), r),
            final(context).stream_index == old(context).stream_index,
            r == Ok::<ParserValue, ParserError>(ParserValue::Continue),
            final(self).spec_state() == ParserState::MultipartDataByLength
                || final(self).spec_state() == ParserState::MultipartDataByByte,
            final(self).expects_boundary() == (final(self).spec_state()
                == ParserState::MultipartDataByLength),
            *final(self) == old(self).data_detected(Some(final(self).spec_length()))
                || *final(self) == old(self).data_detected(None),
    {
        let length = handler.content_length();
        self.detect_data(length);
        context.mark();
        Ok(ParserValue::Continue)
    }

    /// The parser after a part's data is told how to read, by the content length that the
    /// handler gives: with a length, `length` data bytes followed by a boundary that must come;
    /// without one, bytes up to the next boundary, if any.
    pub closed spec fn data_detected(&self, length: Option<usize>) -> Parser<'boundary> {
        match length {
            Some(n) => Parser {
                length: n,
                lower: 1,
                state: ParserState::MultipartDataByLength,
                ..*self
            },
            None => Parser { lower: 0, state: ParserState::MultipartDataByByte, ..*self },
        }
    }

    /// Tell how a multipart part's data is read, by the content length that the handler gave:
    /// with `Some(n)`, `n` bytes by length, and a boundary must follow them; with `None`, byte
    /// by byte up to the next boundary, which need not come.
    pub fn detect_data(&mut self, length: Option<usize>)
        requires
            old(self).wf(),
            old(self).spec_state() == ParserState::MultipartDetectData,
        ensures
            *final(self) == old(self).data_detected(length),
            final(self).wf(),
            final(self).spec_state() == (if length is Some {
                ParserState::MultipartDataByLength
            } else {
                ParserState::MultipartDataByByte
            }),
            length matches Some(n) ==> final(self).spec_length() == n,
            length is None ==> final(self).spec_length() == old(self).spec_length(),
            final(self).expects_boundary() == (length is Some),
            final(self).spec_events() == old(self).spec_events(),
            final(self).spec_byte_count() == old(self).spec_byte_count(),
    {
        if let Some(n) = length {
            self.length = n;
            // expect boundary after data
            self.lower = 1;
            self.state = ParserState::MultipartDataByLength;
        } else {
            // do not expect boundary since it can be part of the data itself
            self.lower = 0;
            self.state = ParserState::MultipartDataByByte;
        }
    }

    /// State function of `ParserState::MultipartDataByLength`.
    pub fn multipart_data_by_length<T: HttpHandler>(&mut self, handler: &mut T, context: &mut ByteStream) -> (r: Result<
        ParserValue,
        ParserError,
    >)
        requires
            old(self).ready(*old(context), ParserState::MultipartDataByLength),
        ensures
            step_post(*old(self), *final(self), *old(context), *final(context), r),
            next_byte(*old(context)) is None ==> r == Ok::<ParserValue, ParserError>(
                ParserValue::Exit(Success::Eos(old(context).stream_index)),
            ) && *final(self) == *old(self) && final(context).stream_index == old(context).stream_index,
            next_byte(*old(context)) is Some && old(self).spec_length() <= old(context).spec_available() ==> {
                &&& final(context).stream_index == old(context).stream_index + old(self).spec_length()
                &&& final(self).spec_length() == 0
                &&& pass_step(*old(self), *final(self), *final(context), *final(context), r, ParserState::MultipartDataByLengthCr)
            },
            next_byte(*old(context)) is Some && old(self).spec_length() > old(context).spec_available() ==> {
                &&& final(context).stream_index == old(context).stream@.len()
                &&& final(self).spec_length() == old(self).spec_length() - old(context).spec_available()
                &&& pass_step(*old(self), *final(self), *final(context), *final(context), r, ParserState::MultipartDataByLength)
            },
            next_byte(*old(context)) is Some ==> ({
                let bytes = old(context).stream@.subrange(
                    old(context).mark_index as int,
                    final(context).stream_index as int,
                );
                if bytes.len() > 0 {
                    pushed(old(self).spec_events(), final(self).spec_events(), Callback::MultipartData, bytes, 0, 0)
                } else {
                    final(self).spec_events() == old(self).spec_events()
                }
            }),
    {
        if context.available() == 0 {
            return Ok(ParserValue::Exit(Success::Eos(context.stream_index)));
        }
        if context.available() >= self.length {
            // collect remaining data
            context.jump(self.length);
            self.length = 0;
            self.state = ParserState::MultipartDataByLengthCr;
            if context.slice_length() > 0 {
                if self.report_multipart_data(handler, context.slice()) {
                    context.mark();
                    return Ok(ParserValue::Continue);
                }
                return Ok(ParserValue::Exit(Success::Callback(context.stream_index)));
            }
            context.mark();
            return Ok(ParserValue::Continue);
        }
        // collect remaining stream data
        self.length = self.length - context.available();
        context.jump(context.available());
        self.state = ParserState::MultipartDataByLength;
        if context.slice_length() > 0 {
            if self.report_multipart_data(handler, context.slice()) {
                context.mark();
                return Ok(ParserValue::Continue);
            }
            return Ok(ParserValue::Exit(Success::Callback(context.stream_index)));
        }
        context.mark();
        return Ok(ParserValue::Continue);
    }

    /// State function of `ParserState::MultipartDataByLengthCr`.
    pub fn multipart_data_by_length_cr<T: HttpHandler>(&mut self, _handler: &mut T, context: &mut ByteStream) -> (r: Result<
        ParserValue,
        ParserError,
    >)
        requires
            old(self).ready(*old(context), ParserState::MultipartDataByLengthCr),
        ensures
            step_post(*old(self), *final(self), *old(context), *final(context), r),
            expect_step(
                *old(self),
                *final(self),
                *old(context),
                *final(context),
                r,
                0x0D,
                ParserState::MultipartDataByLengthLf,
                |b: u8| ParserError::MultipartBoundary(b),
            ),
    {
        if context.available() == 0 {
            return Ok(ParserValue::Exit(Success::Eos(context.stream_index)));
        }
        context.next();
        if context.byte == 0x0D {
            self.state = ParserState::MultipartDataByLengthLf;
            context.mark();
            return Ok(ParserValue::Continue);
        }
        Err(ParserError::MultipartBoundary(context.byte))
    }

    /// State function of `ParserState::MultipartDataByLengthLf`.
    pub fn multipart_data_by_length_lf<T: HttpHandler>(&mut self, _handler: &mut T, context: &mut ByteStream) -> (r: Result<
        ParserValue,
        ParserError,
    >)
        requires
            old(self).ready(*old(context), ParserState::MultipartDataByLengthLf),
        ensures
            step_post(*old(self), *final(self), *old(context), *final(context), r),
            expect_step(
                *old(self),
                *final(self),
                *old(context),
                *final(context),
                r,
                0x0A,
                ParserState::MultipartHyphen1,
                |b: u8| ParserError::MultipartBoundary(b),
            ),
    {
        if context.available() == 0 {
            return Ok(ParserValue::Exit(Success::Eos(context.stream_index)));
        }
        context.next();
        if context.byte == 0x0A {
            self.state = ParserState::MultipartHyphen1;
            context.mark();
            return Ok(ParserValue::Continue);
        }
        Err(ParserError::MultipartBoundary(context.byte))
    }

    /// State function of `ParserState::MultipartDataByByte`.
    pub fn multipart_data_by_byte<T: HttpHandler>(&mut self, handler: &mut T, context: &mut ByteStream) -> (r: Result<
        ParserValue,
        ParserError,
    >)
        requires
            old(self).ready(*old(context), ParserState::MultipartDataByByte),
        ensures
            step_post(*old(self), *final(self), *old(context), *final(context), r),
            collect_step(
                *old(self),
                *final(self),
                *old(context),
                *final(context),
                r,
                Collect::NotCr,
                |b: u8|
                    Some(ParserState::MultipartDataByByteLf),
                |b: u8| false,
                |b: u8| ParserError::Multipart(b),
            ),
            collect_events(
                old(self).spec_events(),
                final(self).spec_events(),
                old(context).stream@,
                old(context).stream_index as int,
                old(context).mark_index as int,
                Collect::NotCr,
                Callback::MultipartData,
                r is Ok,
            ),
    {
        let ghost i0 = context.stream_index as int;
        let found = collect(context, Collect::NotCr);
        proof {
            lemma_first_outside(
                context.stream@,
                i0,
                if found {
                    context.stream_index - 1
                } else {
                    context.stream_index as int
                },
                Collect::NotCr,
            );
        }
        if !found {
            if context.slice_length() > 0 {
                if self.report_multipart_data(handler, context.slice()) {
                    return Ok(ParserValue::Exit(Success::Eos(context.stream_index)));
                }
                return Ok(ParserValue::Exit(Success::Callback(context.stream_index)));
            }
            return Ok(ParserValue::Exit(Success::Eos(context.stream_index)));
        }
        self.state = ParserState::MultipartDataByByteLf;
        if context.slice_length() > 1 {
            if self.report_multipart_data(handler, context.slice_ignore()) {
                context.mark();
                return Ok(ParserValue::Continue);
            }
            return Ok(ParserValue::Exit(Success::Callback(context.stream_index)));
        }
        context.mark();
        return Ok(ParserValue::Continue);
    }

    /// State function of `ParserState::MultipartDataByByteLf`.
    pub fn multipart_data_by_byte_lf<T: HttpHandler>(&mut self, handler: &mut T, context: &mut ByteStream) -> (r: Result<
        ParserValue,
        ParserError,
    >)
        requires
            old(self).ready(*old(context), ParserState::MultipartDataByByteLf),
        ensures
            step_post(*old(self), *final(self), *old(context), *final(context), r),
            byte_step(
                *old(self),
                *final(self),
                *old(context),
                *final(context),
                r,
                |b: u8|
                    if b == 0x0A {
                        Some(ParserState::MultipartHyphen1)
                    } else {
                        Some(ParserState::MultipartDataByByte)
                    },
                |b: u8| false,
                |b: u8| ParserError::Multipart(b),
            ),
    {
        if context.available() == 0 {
            return Ok(ParserValue::Exit(Success::Eos(context.stream_index)));
        }
        context.next();
        if context.byte == 0x0A {
            self.state = ParserState::MultipartHyphen1;
            context.mark();
            return Ok(ParserValue::Continue);
        }
        self.state = ParserState::MultipartDataByByte;
        if self.report_multipart_data(handler, &[0x0Du8, context.byte]) {
            context.mark();
            return Ok(ParserValue::Continue);
        }
        return Ok(ParserValue::Exit(Success::Callback(context.stream_index)));
    }

    /// State function of `ParserState::MultipartEnd`.
    pub fn multipart_end<T: HttpHandler>(&mut self, _handler: &mut T, context: &mut ByteStream) -> (r: Result<
        ParserValue,
        ParserError,
    >)
        requires
            old(self).ready(*old(context), ParserState::MultipartEnd),
        ensures
            step_post(*old(self), *final(self), *old(context), *final(context), r),
            expect_step(
                *old(self),
                *final(self),
                *old(context),
                *final(context),
                r,
                0x2D,
                ParserState::BodyFinished,
                |b: u8| ParserError::MultipartBoundary(b),
            ),
    {
        if context.available() == 0 {
            return Ok(ParserValue::Exit(Success::Eos(context.stream_index)));
        }
        context.next();
        if context.byte == 0x2D {
            self.state = ParserState::BodyFinished;
            context.mark();
            return Ok(ParserValue::Continue);
        }
        Err(ParserError::MultipartBoundary(context.byte))
    }

    /// State function of `ParserState::FirstUrlEncodedName`.
    pub fn first_url_encoded_name<T: HttpHandler>(&mut self, handler: &mut T, context: &mut ByteStream) -> (r: Result<
        ParserValue,
        ParserError,
    >)
        requires
            old(self).ready(*old(context), ParserState::FirstUrlEncodedName),
        ensures
            step_post(*old(self), *final(self), *old(context), *final(context), r),
            next_byte(*old(context)) is None ==> r == Ok::<ParserValue, ParserError>(
                ParserValue::Exit(Success::Eos(old(context).stream_index)),
            ) && *final(self) == *old(self) && final(context).stream_index == old(context).stream_index,
            next_byte(*old(context)) is Some ==> pass_step(
                *old(self),
                *final(self),
                *old(context),
                *final(context),
                r,
                ParserState::UrlEncodedName,
            ),
            url_encoded_step(*old(self), *final(self), *old(context), *final(context), r),
    {
        proof {
            let x = context.stream@.subrange(
                context.stream_index as int,
                context.stream_index as int,
            );
            assert(x =~= Seq::<u8>::empty());
            assert forall|q: UrlEncodedPosition| url_encoded_tracks(
                q,
                *old(self),
                *old(context),
            ) implies #[trigger] url_encoded_run(q, x) == Ok::<UrlEncodedPosition, ParserError>(q)
                by {}
        }
        if context.available() == 0 {
            return Ok(ParserValue::Exit(Success::Eos(context.stream_index)));
        }
        self.state = ParserState::UrlEncodedName;
        if self.report_url_encoded_begin(handler) {
            self.state = ParserState::UrlEncodedName;
            context.mark();
            return Ok(ParserValue::Continue);
        }
        Ok(ParserValue::Exit(Success::Callback(context.stream_index)))
    }

    /// State function of `ParserState::UrlEncodedName`.
    pub fn url_encoded_name<T: HttpHandler>(&mut self, handler: &mut T, context: &mut ByteStream) -> (r: Result<
        ParserValue,
        ParserError,
    >)
        requires
            old(self).ready(*old(context), ParserState::UrlEncodedName),
        ensures
            step_post(*old(self), *final(self), *old(context), *final(context), r),
            collect_step(
                *old(self),
                *final(self),
                *old(context),
                *final(context),
                r,
                Collect::UrlEncodedName,
                |b: u8|
                    if b == 0x25 {
                        Some(ParserState::UrlEncodedNameHex1)
                    } else if b == 0x2B {
                        Some(ParserState::UrlEncodedNamePlus)
                    } else if b == 0x3D {
                        Some(ParserState::UrlEncodedValue)
                    } else if b == 0x26 || b == 0x3B {
                        Some(ParserState::FirstUrlEncodedName)
                    } else {
                        None
                    },
                |b: u8| false,
                |b: u8| ParserError::UrlEncodedName(b),
            ),
            url_encoded_step(*old(self), *final(self), *old(context), *final(context), r),
            ({
                let k = first_outside(
                    old(context).stream@,
                    old(context).stream_index as int,
                    Collect::UrlEncodedName,
                );
                let bytes = old(context).stream@.subrange(old(context).mark_index as int, k);
                if r is Ok && bytes.len() > 0 {
                    pushed(old(self).spec_events(), final(self).spec_events(), Callback::UrlEncodedName, bytes, 0, 0)
                } else {
                    final(self).spec_events() == old(self).spec_events()
                }
            }),
    {
        let ghost s = context.stream@;
        let ghost i0 = context.stream_index as int;
        let found = collect(context, Collect::UrlEncodedName);
        proof {
            let k = if found {
                context.stream_index - 1
            } else {
                context.stream_index as int
            };
            let t = s.subrange(i0, k);
            let x = old(context).stream@.subrange(
                old(context).stream_index as int,
                context.stream_index as int,
            );
            assert forall|j: int| 0 <= j < t.len() implies spec_collects(
                Collect::UrlEncodedName,
                #[trigger] t[j],
            ) by {
                assert(t[j] == s[i0 + j]);
            }
            if found {
                assert(x.drop_last() =~= t);
            } else {
                assert(x =~= t);
            }
            assert forall|q: UrlEncodedPosition| url_encoded_tracks(
                q,
                *old(self),
                *old(context),
            ) implies #[trigger] url_encoded_run(q, x) == (if found {
                url_encoded_byte(
                    if k == i0 {
                        q
                    } else {
                        (ParserState::UrlEncodedName, q.1, q.2)
                    },
                    context.byte,
                )
            } else {
                Ok::<UrlEncodedPosition, ParserError>(
                    if k == i0 {
                        q
                    } else {
                        (ParserState::UrlEncodedName, q.1, q.2)
                    },
                )
            }) by {
                lemma_url_encoded_name_run(q, t);
            }
        }
        if !found {
            if context.slice_length() > 0 {
                if self.report_url_encoded_name(handler, context.slice()) {
                    return Ok(ParserValue::Exit(Success::Eos(context.stream_index)));
                }
                return Ok(ParserValue::Exit(Success::Callback(context.stream_index)));
            }
            return Ok(ParserValue::Exit(Success::Eos(context.stream_index)));
        }
        if context.byte == 0x25 {
            self.state = ParserState::UrlEncodedNameHex1;
            if context.slice_length() > 1 {
                if self.report_url_encoded_name(handler, context.slice_ignore()) {
                    context.mark();
                    return Ok(ParserValue::Continue);
                }
                return Ok(ParserValue::Exit(Success::Callback(context.stream_index)));
            }
            context.mark();
            return Ok(ParserValue::Continue);
        } else if context.byte == 0x2B {
            self.state = ParserState::UrlEncodedNamePlus;
            if context.slice_length() > 1 {
                if self.report_url_encoded_name(handler, context.slice_ignore()) {
                    context.mark();
                    return Ok(ParserValue::Continue);
                }
                return Ok(ParserValue::Exit(Success::Callback(context.stream_index)));
            }
            context.mark();
            return Ok(ParserValue::Continue);
        } else if context.byte == 0x3D {
            self.state = ParserState::UrlEncodedValue;
            if context.slice_length() > 1 {
                if self.report_url_encoded_name(handler, context.slice_ignore()) {
                    context.mark();
                    return Ok(ParserValue::Continue);
                }
                return Ok(ParserValue::Exit(Success::Callback(context.stream_index)));
            }
            context.mark();
            return Ok(ParserValue::Continue);
        } else if context.byte == 0x26 || context.byte == 0x3B {
            self.state = ParserState::FirstUrlEncodedName;
            if context.slice_length() > 1 {
                if self.report_url_encoded_name(handler, context.slice_ignore()) {
                    context.mark();
                    return Ok(ParserValue::Continue);
                }
                return Ok(ParserValue::Exit(Success::Callback(context.stream_index)));
            }
            context.mark();
            return Ok(ParserValue::Continue);
        }
        Err(ParserError::UrlEncodedName(context.byte))
    }

    /// State function of `ParserState::UrlEncodedValue`.
    pub fn url_encoded_value<T: HttpHandler>(&mut self, handler: &mut T, context: &mut ByteStream) -> (r: Result<
        ParserValue,
        ParserError,
    >)
        requires
            old(self).ready(*old(context), ParserState::UrlEncodedValue),
        ensures
            step_post(*old(self), *final(self), *old(context), *final(context), r),
            collect_step(
                *old(self),
                *final(self),
                *old(context),
                *final(context),
                r,
                Collect::UrlEncodedValue,
                |b: u8|
                    if b == 0x25 {
                        Some(ParserState::UrlEncodedValueHex1)
                    } else if b == 0x26 || b == 0x3B {
                        Some(ParserState::FirstUrlEncodedName)
                    } else if b == 0x2B {
                        Some(ParserState::UrlEncodedValuePlus)
                    } else {
                        None
                    },
                |b: u8| false,
                |b: u8| ParserError::UrlEncodedValue(b),
            ),
            url_encoded_step(*old(self), *final(self), *old(context), *final(context), r),
            ({
                let k = first_outside(
                    old(context).stream@,
                    old(context).stream_index as int,
                    Collect::UrlEncodedValue,
                );
                let bytes = old(context).stream@.subrange(old(context).mark_index as int, k);
                if r is Ok && bytes.len() > 0 {
                    pushed(old(self).spec_events(), final(self).spec_events(), Callback::UrlEncodedValue, bytes, 0, 0)
                } else {
                    final(self).spec_events() == old(self).spec_events()
                }
            }),
    {
        let ghost s = context.stream@;
        let ghost i0 = context.stream_index as int;
        let found = collect(context, Collect::UrlEncodedValue);
        proof {
            let k = if found {
                context.stream_index - 1
            } else {
                context.stream_index as int
            };
            let t = s.subrange(i0, k);
            let x = old(context).stream@.subrange(
                old(context).stream_index as int,
                context.stream_index as int,
            );
            assert forall|j: int| 0 <= j < t.len() implies spec_collects(
                Collect::UrlEncodedValue,
                #[trigger] t[j],
            ) by {
                assert(t[j] == s[i0 + j]);
            }
            if found {
                assert(x.drop_last() =~= t);
            } else {
                assert(x =~= t);
            }
            assert forall|q: UrlEncodedPosition| url_encoded_tracks(
                q,
                *old(self),
                *old(context),
            ) implies #[trigger] url_encoded_run(q, x) == (if found {
                url_encoded_byte(q, context.byte)
            } else {
                Ok::<UrlEncodedPosition, ParserError>(q)
            }) by {
                lemma_url_encoded_value_run(q, t);
            }
        }
        if !found {
            if context.slice_length() > 0 {
                if self.report_url_encoded_value(handler, context.slice()) {
                    return Ok(ParserValue::Exit(Success::Eos(context.stream_index)));
                }
                return Ok(ParserValue::Exit(Success::Callback(context.stream_index)));
            }
            return Ok(ParserValue::Exit(Success::Eos(context.stream_index)));
        }
        if context.byte == 0x25 {
            self.state = ParserState::UrlEncodedValueHex1;
            if context.slice_length() > 1 {
                if self.report_url_encoded_value(handler, context.slice_ignore()) {
                    context.mark();
                    return Ok(ParserValue::Continue);
                }
                return Ok(ParserValue::Exit(Success::Callback(context.stream_index)));
            }
            context.mark();
            return Ok(ParserValue::Continue);
        } else if context.byte == 0x26 || context.byte == 0x3B {
            self.state = ParserState::FirstUrlEncodedName;
            if context.slice_length() > 1 {
                if self.report_url_encoded_value(handler, context.slice_ignore()) {
                    context.mark();
                    return Ok(ParserValue::Continue);
                }
                return Ok(ParserValue::Exit(Success::Callback(context.stream_index)));
            }
            context.mark();
            return Ok(ParserValue::Continue);
        } else if context.byte == 0x2B {
            self.state = ParserState::UrlEncodedValuePlus;
            if context.slice_length() > 1 {
                if self.report_url_encoded_value(handler, context.slice_ignore()) {
                    context.mark();
                    return Ok(ParserValue::Continue);
                }
                return Ok(ParserValue::Exit(Success::Callback(context.stream_index)));
            }
            context.mark();
            return Ok(ParserValue::Continue);
        }
        Err(ParserError::UrlEncodedValue(context.byte))
    }

    /// State function of `ParserState::UrlEncodedNameHex1`.
    pub fn url_encoded_name_hex1<T: HttpHandler>(&mut self, _handler: &mut T, context: &mut ByteStream) -> (r: Result<
        ParserValue,
        ParserError,
    >)
        requires
            old(self).ready(*old(context), ParserState::UrlEncodedNameHex1),
        ensures
            step_post(*old(self), *final(self), *old(context), *final(context), r),
            byte_step(
                *old(self),
                *final(self),
                *old(context),
                *final(context),
                r,
                |b: u8|
                    if spec_is_hex(b) {
                        Some(ParserState::UrlEncodedNameHex2)
                    } else {
                        None
                    },
                |b: u8| false,
                |b: u8| ParserError::UrlEncodedName(b),
            ),
            url_encoded_step(*old(self), *final(self), *old(context), *final(context), r),
    {
        if context.available() == 0 {
            proof {
                let x = context.stream@.subrange(
                    context.stream_index as int,
                    context.stream_index as int,
                );
                assert(x =~= Seq::<u8>::empty());
                assert forall|q: UrlEncodedPosition| url_encoded_tracks(
                    q,
                    *old(self),
                    *old(context),
                ) implies #[trigger] url_encoded_run(q, x) == Ok::<UrlEncodedPosition, ParserError>(
                    q,
                ) by {}
            }
            return Ok(ParserValue::Exit(Success::Eos(context.stream_index)));
        }
        context.next();
        proof {
            let x = old(context).stream@.subrange(
                old(context).stream_index as int,
                context.stream_index as int,
            );
            assert(x.drop_last() =~= Seq::<u8>::empty());
            assert forall|q: UrlEncodedPosition| url_encoded_tracks(
                q,
                *old(self),
                *old(context),
            ) implies #[trigger] url_encoded_run(q, x) == url_encoded_byte(q, context.byte) by {
                assert(url_encoded_run(q, x.drop_last()) == Ok::<UrlEncodedPosition, ParserError>(q));
            }
        }
        if is_hex(context.byte) {
            self.upper = hex_to_byte(context.byte) as usize * 16;
            self.state = ParserState::UrlEncodedNameHex2;
            context.mark();
            return Ok(ParserValue::Continue);
        }
        Err(ParserError::UrlEncodedName(context.byte))
    }

    /// State function of `ParserState::UrlEncodedNameHex2`.
    pub fn url_encoded_name_hex2<T: HttpHandler>(&mut self, handler: &mut T, context: &mut ByteStream) -> (r: Result<
        ParserValue,
        ParserError,
    >)
        requires
            old(self).ready(*old(context), ParserState::UrlEncodedNameHex2),
        ensures
            step_post(*old(self), *final(self), *old(context), *final(context), r),
            byte_step(
                *old(self),
                *final(self),
                *old(context),
                *final(context),
                r,
                |b: u8|
                    if spec_is_hex(b) {
                        Some(ParserState::UrlEncodedName)
                    } else {
                        None
                    },
                |b: u8| false,
                |b: u8| ParserError::UrlEncodedName(b),
            ),
            url_encoded_step(*old(self), *final(self), *old(context), *final(context), r),
            ({
                let b = old(context).stream@[old(context).stream_index as int];
                next_byte(*old(context)) is Some && spec_is_hex(b) ==> pushed(old(self).spec_events(), final(self).spec_events(), Callback::UrlEncodedName, seq![(old(self).url_encoded_position().1 + spec_hex_value(b)) as u8], 0, 0)
            }),
            !(next_byte(*old(context)) matches Some(b) && spec_is_hex(b)) ==> final(self).spec_events() == old(self).spec_events(),
    {
        if context.available() == 0 {
            proof {
                let x = context.stream@.subrange(
                    context.stream_index as int,
                    context.stream_index as int,
                );
                assert(x =~= Seq::<u8>::empty());
                assert forall|q: UrlEncodedPosition| url_encoded_tracks(
                    q,
                    *old(self),
                    *old(context),
                ) implies #[trigger] url_encoded_run(q, x) == Ok::<UrlEncodedPosition, ParserError>(
                    q,
                ) by {}
            }
            return Ok(ParserValue::Exit(Success::Eos(context.stream_index)));
        }
        context.next();
        proof {
            let x = old(context).stream@.subrange(
                old(context).stream_index as int,
                context.stream_index as int,
            );
            assert(x.drop_last() =~= Seq::<u8>::empty());
            assert forall|q: UrlEncodedPosition| url_encoded_tracks(
                q,
                *old(self),
                *old(context),
            ) implies #[trigger] url_encoded_run(q, x) == url_encoded_byte(q, context.byte) by {
                assert(url_encoded_run(q, x.drop_last()) == Ok::<UrlEncodedPosition, ParserError>(q));
            }
        }
        if is_hex(context.byte) {
            self.lower = hex_to_byte(context.byte) as u32;
            self.state = ParserState::UrlEncodedName;
            let byte: [u8; 1] = [(self.upper + self.lower as usize) as u8];
            assert(byte@ == seq![(self.upper + self.lower as usize) as u8]);
            if self.report_url_encoded_name(handler, &byte) {
                context.mark();
                return Ok(ParserValue::Continue);
            }
            return Ok(ParserValue::Exit(Success::Callback(context.stream_index)));
        }
        Err(ParserError::UrlEncodedName(context.byte))
    }

    /// State function of `ParserState::UrlEncodedNamePlus`.
    pub fn url_encoded_name_plus<T: HttpHandler>(&mut self, handler: &mut T, context: &mut ByteStream) -> (r: Result<
        ParserValue,
        ParserError,
    >)
        requires
            old(self).ready(*old(context), ParserState::UrlEncodedNamePlus),
        ensures
            step_post(*old(self), *final(self), *old(context), *final(context), r),
            pass_step(*old(self), *final(self), *old(context), *final(context), r, ParserState::UrlEncodedName),
            url_encoded_step(*old(self), *final(self), *old(context), *final(context), r),
            pushed(old(self).spec_events(), final(self).spec_events(), Callback::UrlEncodedName, seq![0x20u8], 0, 0),
    {
        proof {
            let x = context.stream@.subrange(
                context.stream_index as int,
                context.stream_index as int,
            );
            assert(x =~= Seq::<u8>::empty());
            assert forall|q: UrlEncodedPosition| url_encoded_tracks(
                q,
                *old(self),
                *old(context),
            ) implies #[trigger] url_encoded_run(q, x) == Ok::<UrlEncodedPosition, ParserError>(q)
                by {}
        }
        self.state = ParserState::UrlEncodedName;
        let space: [u8; 1] = [0x20];
        assert(space@ == seq![0x20u8]);
        if self.report_url_encoded_name(handler, &space) {
            context.mark();
            return Ok(ParserValue::Continue);
        }
        return Ok(ParserValue::Exit(Success::Callback(context.stream_index)));
    }

    /// State function of `ParserState::UrlEncodedValueHex1`.
    pub fn url_encoded_value_hex1<T: HttpHandler>(&mut self, _handler: &mut T, context: &mut ByteStream) -> (r: Result<
        ParserValue,
        ParserError,
    >)
        requires
            old(self).ready(*old(context), ParserState::UrlEncodedValueHex1),
        ensures
            step_post(*old(self), *final(self), *old(context), *final(context), r),
            byte_step(
                *old(self),
                *final(self),
                *old(context),
                *final(context),
                r,
                |b: u8|
                    if spec_is_hex(b) {
                        Some(ParserState::UrlEncodedValueHex2)
                    } else {
                        None
                    },
                |b: u8| false,
                |b: u8| ParserError::UrlEncodedValue(b),
            ),
            url_encoded_step(*old(self), *final(self), *old(context), *final(context), r),
    {
        if context.available() == 0 {
            proof {
                let x = context.stream@.subrange(
                    context.stream_index as int,
                    context.stream_index as int,
                );
                assert(x =~= Seq::<u8>::empty());
                assert forall|q: UrlEncodedPosition| url_encoded_tracks(
                    q,
                    *old(self),
                    *old(context),
                ) implies #[trigger] url_encoded_run(q, x) == Ok::<UrlEncodedPosition, ParserError>(
                    q,
                ) by {}
            }
            return Ok(ParserValue::Exit(Success::Eos(context.stream_index)));
        }
        context.next();
        proof {
            let x = old(context).stream@.subrange(
                old(context).stream_index as int,
                context.stream_index as int,
            );
            assert(x.drop_last() =~= Seq::<u8>::empty());
            assert forall|q: UrlEncodedPosition| url_encoded_tracks(
                q,
                *old(self),
                *old(context),
            ) implies #[trigger] url_encoded_run(q, x) == url_encoded_byte(q, context.byte) by {
                assert(url_encoded_run(q, x.drop_last()) == Ok::<UrlEncodedPosition, ParserError>(q));
            }
        }
        if is_hex(context.byte) {
            self.upper = hex_to_byte(context.byte) as usize * 16;
            self.state = ParserState::UrlEncodedValueHex2;
            context.mark();
            return Ok(ParserValue::Continue);
        }
        Err(ParserError::UrlEncodedValue(context.byte))
    }

    /// State function of `ParserState::UrlEncodedValueHex2`.
    pub fn url_encoded_value_hex2<T: HttpHandler>(&mut self, handler: &mut T, context: &mut ByteStream) -> (r: Result<
        ParserValue,
        ParserError,
    >)
        requires
            old(self).ready(*old(context), ParserState::UrlEncodedValueHex2),
        ensures
            step_post(*old(self), *final(self), *old(context), *final(context), r),
            byte_step(
                *old(self),
                *final(self),
                *old(context),
                *final(context),
                r,
                |b: u8|
                    if spec_is_hex(b) {
                        Some(ParserState::UrlEncodedValue)
                    } else {
                        None
                    },
                |b: u8| false,
                |b: u8| ParserError::UrlEncodedValue(b),
            ),
            url_encoded_step(*old(self), *final(self), *old(context), *final(context), r),
            ({
                let b = old(context).stream@[old(context).stream_index as int];
                next_byte(*old(context)) is Some && spec_is_hex(b) ==> pushed(old(self).spec_events(), final(self).spec_events(), Callback::UrlEncodedValue, seq![(old(self).url_encoded_position().1 + spec_hex_value(b)) as u8], 0, 0)
            }),
            !(next_byte(*old(context)) matches Some(b) && spec_is_hex(b)) ==> final(self).spec_events() == old(self).spec_events(),
    {
        if context.available() == 0 {
            proof {
                let x = context.stream@.subrange(
                    context.stream_index as int,
                    context.stream_index as int,
                );
                assert(x =~= Seq::<u8>::empty());
                assert forall|q: UrlEncodedPosition| url_encoded_tracks(
                    q,
                    *old(self),
                    *old(context),
                ) implies #[trigger] url_encoded_run(q, x) == Ok::<UrlEncodedPosition, ParserError>(
                    q,
                ) by {}
            }
            return Ok(ParserValue::Exit(Success::Eos(context.stream_index)));
        }
        context.next();
        proof {
            let x = old(context).stream@.subrange(
                old(context).stream_index as int,
                context.stream_index as int,
            );
            assert(x.drop_last() =~= Seq::<u8>::empty());
            assert forall|q: UrlEncodedPosition| url_encoded_tracks(
                q,
                *old(self),
                *old(context),
            ) implies #[trigger] url_encoded_run(q, x) == url_encoded_byte(q, context.byte) by {
                assert(url_encoded_run(q, x.drop_last()) == Ok::<UrlEncodedPosition, ParserError>(q));
            }
        }
        if is_hex(context.byte) {
            self.lower = hex_to_byte(context.byte) as u32;
            self.state = ParserState::UrlEncodedValue;
            let byte: [u8; 1] = [(self.upper + self.lower as usize) as u8];
            assert(byte@ == seq![(self.upper + self.lower as usize) as u8]);
            if self.report_url_encoded_value(handler, &byte) {
                context.mark();
                return Ok(ParserValue::Continue);
            }
            return Ok(ParserValue::Exit(Success::Callback(context.stream_index)));
        }
        Err(ParserError::UrlEncodedValue(context.byte))
    }

    /// State function of `ParserState::UrlEncodedValuePlus`.
    pub fn url_encoded_value_plus<T: HttpHandler>(&mut self, handler: &mut T, context: &mut ByteStream) -> (r: Result<
        ParserValue,
        ParserError,
    >)
        requires
            old(self).ready(*old(context), ParserState::UrlEncodedValuePlus),
        ensures
            step_post(*old(self), *final(self), *old(context), *final(context), r),
            pass_step(*old(self), *final(self), *old(context), *final(context), r, ParserState::UrlEncodedValue),
            url_encoded_step(*old(self), *final(self), *old(context), *final(context), r),
            pushed(old(self).spec_events(), final(self).spec_events(), Callback::UrlEncodedValue, seq![0x20u8], 0, 0),
    {
        proof {
            let x = context.stream@.subrange(
                context.stream_index as int,
                context.stream_index as int,
            );
            assert(x =~= Seq::<u8>::empty());
            assert forall|q: UrlEncodedPosition| url_encoded_tracks(
                q,
                *old(self),
                *old(context),
            ) implies #[trigger] url_encoded_run(q, x) == Ok::<UrlEncodedPosition, ParserError>(q)
                by {}
        }
        self.state = ParserState::UrlEncodedValue;
        let space: [u8; 1] = [0x20];
        assert(space@ == seq![0x20u8]);
        if self.report_url_encoded_value(handler, &space) {
            context.mark();
            return Ok(ParserValue::Continue);
        }
        return Ok(ParserValue::Exit(Success::Callback(context.stream_index)));
    }

    /// State function of `ParserState::Dead`.
    pub fn dead<T: HttpHandler>(&mut self, _handler: &mut T, context: &mut ByteStream) -> (r: Result<
        ParserValue,
        ParserError,
    >)
        requires
            old(self).ready(*old(context), ParserState::Dead),
        ensures
            step_post(*old(self), *final(self), *old(context), *final(context), r),
    {
        Err(ParserError::Dead)
    }

    /// State function of `ParserState::BodyFinished`.
    pub fn body_finished<T: HttpHandler>(&mut self, handler: &mut T, context: &mut ByteStream) -> (r: Result<
        ParserValue,
        ParserError,
    >)
        requires
            old(self).ready(*old(context), ParserState::BodyFinished),
        ensures
            step_post(*old(self), *final(self), *old(context), *final(context), r),
            pass_step(*old(self), *final(self), *old(context), *final(context), r, ParserState::Finished),
            message_step(*old(self), *final(self), *old(context), *final(context), r),
    {
        proof {
            lemma_message_run_short(self.message_position());
        }
        self.state = ParserState::Finished;
        if self.report_body_finished(handler) {
            context.mark();
            return Ok(ParserValue::Continue);
        }
        return Ok(ParserValue::Exit(Success::Callback(context.stream_index)));
    }

    /// State function of `ParserState::Finished`.
    pub fn finished<T: HttpHandler>(&mut self, _handler: &mut T, context: &mut ByteStream) -> (r: Result<
        ParserValue,
        ParserError,
    >)
        requires
            old(self).ready(*old(context), ParserState::Finished),
        ensures
            step_post(*old(self), *final(self), *old(context), *final(context), r),
            message_step(*old(self), *final(self), *old(context), *final(context), r),
    {
        proof {
            lemma_message_run_short(self.message_position());
        }
        Ok(ParserValue::Exit(Success::Finished(context.stream_index)))
    }

    /// Execute the state function of the current state.
    fn dispatch<T: HttpHandler>(&mut self, handler: &mut T, context: &mut ByteStream) -> (r:
        Result<ParserValue, ParserError>)
        requires
            old(self).wf(),
            old(context).wf(),
            region_ok(old(self).spec_state(), *old(context)),
        ensures
            step_post(*old(self), *final(self), *old(context), *final(context), r),
            old(self).spec_state() == ParserState::BodyFinished ==> r == Ok::<
                ParserValue,
                ParserError,
            >(ParserValue::Continue) || r == Ok::<ParserValue, ParserError>(
                ParserValue::Exit(Success::Callback(final(context).stream_index)),
            ),
            url_encoded_reading_state(old(self).spec_state()) ==> url_encoded_step(
                *old(self),
                *final(self),
                *old(context),
                *final(context),
                r,
            ),
            message_parser_type(old(self).spec_parser_type()) && message_reading_state(
                old(self).spec_state(),
            ) ==> message_step(*old(self), *final(self), *old(context), *final(context), r),
            detecting(old(self).spec_state()) ==> detect_follows(
                *old(self),
                *final(self),
                *old(context),
                *final(context),
                r,
            ),
            old(self).spec_parser_type() == ParserType::Multipart && multipart_header_state(
                old(self).spec_state(),
            ) ==> message_step(*old(self), *final(self), *old(context), *final(context), r),
            multipart_starting(old(self).spec_state()) && old(self).expects_boundary()
                ==> multipart_start_follows(
                *old(self),
                *final(self),
                *old(context),
                *final(context),
                r,
            ),
    {
        match self.state {
            ParserState::StripDetect => self.strip_detect(handler, context),
            ParserState::Detect1 => self.detect1(handler, context),
            ParserState::Detect2 => self.detect2(handler, context),
            ParserState::Detect3 => self.detect3(handler, context),
            ParserState::Detect4 => self.detect4(handler, context),
            ParserState::Detect5 => self.detect5(handler, context),
            ParserState::RequestMethod => self.request_method(handler, context),
            ParserState::RequestUrl1 => self.request_url1(handler, context),
            ParserState::RequestUrl2 => self.request_url2(handler, context),
            ParserState::RequestHttp1 => self.request_http1(handler, context),
            ParserState::RequestHttp2 => self.request_http2(handler, context),
            ParserState::RequestHttp3 => self.request_http3(handler, context),
            ParserState::RequestHttp4 => self.request_http4(handler, context),
            ParserState::RequestHttp5 => self.request_http5(handler, context),
            ParserState::RequestVersionMajor1 => self.request_version_major1(handler, context),
            ParserState::RequestVersionMajor2 => self.request_version_major2(handler, context),
            ParserState::RequestVersionMajor3 => self.request_version_major3(handler, context),
            ParserState::RequestVersionPeriod => self.request_version_period(handler, context),
            ParserState::RequestVersionMinor1 => self.request_version_minor1(handler, context),
            ParserState::RequestVersionMinor2 => self.request_version_minor2(handler, context),
            ParserState::RequestVersionMinor3 => self.request_version_minor3(handler, context),
            ParserState::RequestVersionCr => self.request_version_cr(handler, context),
            ParserState::ResponseVersionMajor1 => self.response_version_major1(handler, context),
            ParserState::ResponseVersionMajor2 => self.response_version_major2(handler, context),
            ParserState::ResponseVersionMajor3 => self.response_version_major3(handler, context),
            ParserState::ResponseVersionPeriod => self.response_version_period(handler, context),
            ParserState::ResponseVersionMinor1 => self.response_version_minor1(handler, context),
            ParserState::ResponseVersionMinor2 => self.response_version_minor2(handler, context),
            ParserState::ResponseVersionMinor3 => self.response_version_minor3(handler, context),
            ParserState::ResponseVersionSpace => self.response_version_space(handler, context),
            ParserState::ResponseStatusCode1 => self.response_status_code1(handler, context),
            ParserState::ResponseStatusCode2 => self.response_status_code2(handler, context),
            ParserState::ResponseStatusCode3 => self.response_status_code3(handler, context),
            ParserState::ResponseStatusCodeSpace => self.response_status_code_space(handler, context),
            ParserState::ResponseStatus1 => self.response_status1(handler, context),
            ParserState::ResponseStatus2 => self.response_status2(handler, context),
            ParserState::InitialEnd => self.initial_end(handler, context),
            ParserState::InitialLf => self.initial_lf(handler, context),
            ParserState::CheckHeaderName => self.check_header_name(handler, context),
            ParserState::FirstHeaderName => {
                let ghost p0 = *self;
                let ghost c0 = *context;
                let r = self.first_header_name(handler, context);
                proof {
                    if header_name_shortcut(c0) is Some {
                        lemma_first_header_name_shortcut(p0, *self, c0, *context, r);
                    }
                }
                r
            },
            ParserState::UpperHeaderName => self.upper_header_name(handler, context),
            ParserState::LowerHeaderName => self.lower_header_name(handler, context),
            ParserState::StripHeaderValue => self.strip_header_value(handler, context),
            ParserState::HeaderValue => self.header_value(handler, context),
            ParserState::HeaderQuotedValue => self.header_quoted_value(handler, context),
            ParserState::HeaderEscapedValue => self.header_escaped_value(handler, context),
            ParserState::HeaderCr1 => self.header_cr1(handler, context),
            ParserState::HeaderLf1 => self.header_lf1(handler, context),
            ParserState::HeaderCr2 => self.header_cr2(handler, context),
            ParserState::HeaderLf2 => self.header_lf2(handler, context),
            ParserState::HeaderEnd => self.header_end(handler, context),
            ParserState::ChunkLength1 => self.chunk_length1(handler, context),
            ParserState::ChunkLength2 => self.chunk_length2(handler, context),
            ParserState::ChunkLength3 => self.chunk_length3(handler, context),
            ParserState::ChunkLength4 => self.chunk_length4(handler, context),
            ParserState::ChunkLength5 => self.chunk_length5(handler, context),
            ParserState::ChunkLength6 => self.chunk_length6(handler, context),
            ParserState::ChunkLength7 => self.chunk_length7(handler, context),
            ParserState::ChunkLength8 => self.chunk_length8(handler, context),
            ParserState::ChunkLengthCr => self.chunk_length_cr(handler, context),
            ParserState::ChunkLengthLf => self.chunk_length_lf(handler, context),
            ParserState::StripChunkExtensionName => self.strip_chunk_extension_name(handler, context),
            ParserState::LowerChunkExtensionName => self.lower_chunk_extension_name(handler, context),
            ParserState::UpperChunkExtensionName => self.upper_chunk_extension_name(handler, context),
            ParserState::StripChunkExtensionValue => self.strip_chunk_extension_value(handler, context),
            ParserState::ChunkExtensionValue => self.chunk_extension_value(handler, context),
            ParserState::ChunkExtensionQuotedValue => self.chunk_extension_quoted_value(handler, context),
            ParserState::ChunkExtensionEscapedValue => self.chunk_extension_escaped_value(handler, context),
            ParserState::ChunkExtensionFinished => self.chunk_extension_finished(handler, context),
            ParserState::ChunkExtensionsFinished => self.chunk_extensions_finished(handler, context),
            ParserState::ChunkData => self.chunk_data(handler, context),
            ParserState::ChunkDataCr => self.chunk_data_cr(handler, context),
            ParserState::ChunkDataLf => self.chunk_data_lf(handler, context),
            ParserState::MultipartHyphen1 => self.multipart_hyphen1(handler, context),
            ParserState::MultipartHyphen2 => self.multipart_hyphen2(handler, context),
            ParserState::MultipartBoundary => self.multipart_boundary(handler, context),
            ParserState::MultipartBoundaryCr => self.multipart_boundary_cr(handler, context),
            ParserState::MultipartBoundaryLf => self.multipart_boundary_lf(handler, context),
            ParserState::MultipartDetectData => self.multipart_detect_data(handler, context),
            ParserState::MultipartDataByLength => self.multipart_data_by_length(handler, context),
            ParserState::MultipartDataByLengthCr => self.multipart_data_by_length_cr(handler, context),
            ParserState::MultipartDataByLengthLf => self.multipart_data_by_length_lf(handler, context),
            ParserState::MultipartDataByByte => self.multipart_data_by_byte(handler, context),
            ParserState::MultipartDataByByteLf => self.multipart_data_by_byte_lf(handler, context),
            ParserState::MultipartEnd => self.multipart_end(handler, context),
            ParserState::FirstUrlEncodedName => self.first_url_encoded_name(handler, context),
            ParserState::UrlEncodedName => self.url_encoded_name(handler, context),
            ParserState::UrlEncodedValue => self.url_encoded_value(handler, context),
            ParserState::UrlEncodedNameHex1 => self.url_encoded_name_hex1(handler, context),
            ParserState::UrlEncodedNameHex2 => self.url_encoded_name_hex2(handler, context),
            ParserState::UrlEncodedNamePlus => self.url_encoded_name_plus(handler, context),
            ParserState::UrlEncodedValueHex1 => self.url_encoded_value_hex1(handler, context),
            ParserState::UrlEncodedValueHex2 => self.url_encoded_value_hex2(handler, context),
            ParserState::UrlEncodedValuePlus => self.url_encoded_value_plus(handler, context),
            ParserState::Dead => self.dead(handler, context),
            ParserState::BodyFinished => self.body_finished(handler, context),
            ParserState::Finished => self.finished(handler, context),
        }
    }

    /// Main parser loop: execute state functions until one of them exits.
    #[verifier::rlimit(60)]
    pub fn parse<T: HttpHandler>(&mut self, handler: &mut T, context: &mut ByteStream) -> (r:
        Result<Success, ParserError>)
        requires
            old(self).wf(),
            old(context).wf(),
            region_ok(old(self).spec_state(), *old(context)),
            old(self).spec_byte_count() + old(context).stream@.len() <= usize::MAX,
        ensures
            url_encoded_reading_state(old(self).spec_state()) ==> ({
                let read = url_encoded_run(
                    url_encoded_start(*old(self)),
                    old(context).stream@.subrange(
                        old(context).stream_index as int,
                        final(context).stream_index as int,
                    ),
                );
                match r {
                    Ok(Success::Eos(_)) => read == Ok::<UrlEncodedPosition, ParserError>(
                        final(self).url_encoded_position(),
                    ),
                    Err(e) => read == Err::<UrlEncodedPosition, ParserError>(e),
                    _ => true,
                }
            }),
            message_parser_type(old(self).spec_parser_type()) && message_reading_state(
                old(self).spec_state(),
            ) ==> ({
                let read = message_run(
                    old(self).message_position(),
                    old(context).stream@.subrange(
                        old(context).stream_index as int,
                        final(context).stream_index as int,
                    ),
                );
                match r {
                    Ok(Success::Eos(_)) => read == Ok::<MessagePosition, ParserError>(
                        final(self).message_position(),
                    ),
                    Ok(Success::Finished(_)) => read matches Ok(q) && q.0 == ParserState::Finished,
                    Ok(Success::Callback(_)) => read is Ok,
                    Err(e) => read == Err::<MessagePosition, ParserError>(e),
                }
            }),
            answered(
                old(self).spec_events(),
                final(self).spec_events(),
                r matches Ok(Success::Callback(_)),
            ),
            old(self).spec_parser_type() == ParserType::Head && detecting(old(self).spec_state())
                ==> head_outcome(
                head_detect(
                    old(self).spec_state(),
                    old(context).byte,
                    old(context).stream@,
                    old(context).stream_index as int,
                ),
                old(self).spec_length(),
                old(context).stream@,
                final(context).stream_index as int,
                r,
                *final(self),
            ),
            old(self).spec_parser_type() == ParserType::Multipart && multipart_starting(
                old(self).spec_state(),
            ) && old(self).expects_boundary() ==> multipart_start_outcome(
                multipart_start(
                    old(self).spec_state(),
                    old(self).spec_boundary_index() as int,
                    old(self).spec_boundary()->0@,
                    old(context).stream@,
                    old(context).stream_index as int,
                ),
                old(self).spec_length(),
                old(context).stream@,
                final(context).stream_index as int,
                r,
                *final(self),
            ),
            old(self).spec_state() == ParserState::BodyFinished ==> (r matches Ok(success)
                && !(success is Eos)),
            final(self).wf(),
            final(context).wf(),
            final(context).stream@ == old(context).stream@,
            old(context).stream_index <= final(context).stream_index,
            final(self).spec_parser_type() == old(self).spec_parser_type(),
            final(self).spec_boundary() == old(self).spec_boundary(),
            final(self).spec_byte_count() == old(self).spec_byte_count()
                + final(context).stream_index,
            old(self).spec_parser_type() == ParserType::UrlEncoded ==> final(self).spec_length()
                == old(self).spec_length(),
            match r {
                Ok(s) => {
                    &&& s.spec_length() == final(context).stream_index
                    &&& final(self).spec_state() != ParserState::Dead
                    &&& (s is Eos ==> final(context).stream_index == final(context).stream@.len())
                    &&& (s is Finished ==> final(self).spec_state() == ParserState::Finished)
                },
                Err(e) => {
                    &&& final(self).spec_state() == ParserState::Dead
                    &&& (e == ParserError::Dead <==> old(self).spec_state() == ParserState::Dead)
                    &&& (e != ParserError::Dead ==> final(context).stream_index > 0
                        && e.spec_byte() == Some(
                        final(context).stream@[final(context).stream_index - 1],
                    ))
                },
            },
            old(self).spec_state() == ParserState::Dead ==> r == Err::<Success, ParserError>(
                ParserError::Dead,
            ) && final(context).stream_index == old(context).stream_index,
            old(self).spec_state() == ParserState::Finished ==> r == Ok::<Success, ParserError>(
                Success::Finished(old(context).stream_index),
            ) && final(context).stream_index == old(context).stream_index
                && final(self).spec_state() == ParserState::Finished,
    {
        let ghost start_state = self.state;
        assert(self.events@.subrange(0, self.events@.len() as int) =~= self.events@);
        loop
            invariant
                url_encoded_reading_state(start_state) ==> match url_encoded_run(
                    url_encoded_start(*old(self)),
                    old(context).stream@.subrange(
                        old(context).stream_index as int,
                        context.stream_index as int,
                    ),
                ) {
                    Ok(q) => url_encoded_tracks(q, *self, *context),
                    Err(_) => false,
                },
                message_parser_type(self.parser_type) && message_reading_state(start_state) ==> {
                    &&& message_reading_state(self.state)
                    &&& match message_run(
                        old(self).message_position(),
                        old(context).stream@.subrange(
                            old(context).stream_index as int,
                            context.stream_index as int,
                        ),
                    ) {
                        Ok(q) => message_tracks(q, *self, *context) && message_settled_state(q.0),
                        Err(_) => false,
                    }
                },
                answered(old(self).events@, self.events@, false),
                self.parser_type == ParserType::Head && detecting(start_state) ==> head_tracks(
                    start_state,
                    old(context).byte,
                    old(context).stream@,
                    old(context).stream_index as int,
                    old(self).length,
                    *self,
                    *context,
                ),
                self.parser_type == ParserType::Multipart && multipart_starting(start_state)
                    && old(self).expects_boundary() ==> multipart_start_tracks(
                    start_state,
                    old(self).upper as int,
                    old(self).length,
                    old(context).stream@,
                    old(context).stream_index as int,
                    *self,
                    *context,
                ),
                start_state == ParserState::BodyFinished ==> self.state == ParserState::BodyFinished
                    || self.state == ParserState::Finished,
                self.wf(),
                context.wf(),
                region_ok(self.state, *context),
                context.stream@ == old(context).stream@,
                old(context).stream_index <= context.stream_index,
                self.parser_type == old(self).parser_type,
                self.boundary == old(self).boundary,
                self.byte_count == old(self).byte_count,
                self.parser_type == ParserType::UrlEncoded ==> self.length == old(self).length,
                old(self).byte_count + context.stream@.len() <= usize::MAX,
                start_state == old(self).state,
                self.state == ParserState::Dead <==> start_state == ParserState::Dead,
                start_state == ParserState::Dead ==> context.stream_index == old(context).stream_index,
                start_state == ParserState::Finished ==> self.state == ParserState::Finished
                    && context.stream_index == old(context).stream_index,
            decreases self.measure(*context),
        {
            let ghost p_before = *self;
            let ghost c_before = *context;
            let r = self.dispatch(handler, context);
            proof {
                lemma_answered_step(old(self).events@, p_before.events@, self.events@, r);
                if url_encoded_reading_state(start_state) {
                    let s = old(context).stream@;
                    let i0 = old(context).stream_index as int;
                    let x = s.subrange(i0, c_before.stream_index as int);
                    let y = s.subrange(c_before.stream_index as int, context.stream_index as int);
                    assert(s.subrange(i0, context.stream_index as int) =~= x + y);
                    law_url_encoded_pieces(url_encoded_start(*old(self)), x, y);
                    let q = url_encoded_run(url_encoded_start(*old(self)), x)->Ok_0;
                    assert(url_encoded_tracks(q, p_before, c_before));
                }
                if self.parser_type == ParserType::Multipart && multipart_starting(start_state)
                    && old(self).expects_boundary() {
                    lemma_multipart_start_step(
                        start_state,
                        old(self).upper as int,
                        old(self).length,
                        old(context).stream@,
                        old(context).stream_index as int,
                        p_before,
                        *self,
                        c_before,
                        *context,
                        r,
                    );
                }
                if self.parser_type == ParserType::Head && detecting(start_state) {
                    lemma_head_step(
                        start_state,
                        old(context).byte,
                        old(context).stream@,
                        old(context).stream_index as int,
                        old(self).length,
                        p_before,
                        *self,
                        c_before,
                        *context,
                        r,
                    );
                }
                if message_parser_type(self.parser_type) && message_reading_state(start_state) {
                    let s = old(context).stream@;
                    let i0 = old(context).stream_index as int;
                    let x = s.subrange(i0, c_before.stream_index as int);
                    let y = s.subrange(c_before.stream_index as int, context.stream_index as int);
                    assert(s.subrange(i0, context.stream_index as int) =~= x + y);
                    law_message_pieces(old(self).message_position(), x, y);
                    let q = message_run(old(self).message_position(), x)->Ok_0;
                    lemma_message_follows(q, p_before, *self, c_before, *context, r);
                    lemma_message_run_settles(q, y);
                    if let Ok(q1) = message_run(q, y) {
                        if r matches Ok(ParserValue::Exit(Success::Finished(_))) {
                            lemma_message_tracks_finished(q1, *self, *context);
                        }
                    }
                }
            }
            match r {
                Ok(ParserValue::Continue) => {},
                Ok(ParserValue::Exit(success)) => {
                    self.byte_count = self.byte_count + context.stream_index;
                    if let Success::Finished(_) = success {
                        self.state = ParserState::Finished;
                    }
                    return Ok(success);
                },
                Err(error) => {
                    self.byte_count = self.byte_count + context.stream_index;
                    self.state = ParserState::Dead;
                    return Err(error);
                },
            }
        }
    }

    /// Reset `Parser` to its initial state.
    ///
    /// After each call to `reset()`, don't forget to also set the multipart boundary, or URL
    /// encoded data length using `set_boundary()` or `set_length()`.
    pub fn reset(&mut self)
        ensures
            *final(self) == old(self).initialized(old(self).spec_parser_type()),
            final(self).core_wf(),
            final(self).spec_state() == initial_state(old(self).spec_parser_type()),
            final(self).spec_parser_type() == old(self).spec_parser_type(),
            final(self).spec_boundary() is None,
            final(self).spec_boundary_index() == 0,
            final(self).spec_length() == 0,
            final(self).spec_byte_count() == old(self).spec_byte_count(),
            final(self).spec_parser_type() != ParserType::Multipart ==> final(self).wf(),
    {
        self.lower = 0;
        self.upper = 0;
        self.boundary = None;
        self.length = 0;
        match self.parser_type {
            ParserType::Chunked => {
                self.state = ParserState::ChunkLength1;
            },
            ParserType::Head => {
                self.state = ParserState::StripDetect;
            },
            ParserType::Multipart => {
                self.state = ParserState::MultipartHyphen1;
                // lower == 1 when we expect a boundary, which is only the first boundary
                self.lower = 1;
            },
            ParserType::UrlEncoded => {
                self.state = ParserState::FirstUrlEncodedName;
            },
        }
    }

    /// Initialize this `Parser` for chunked transfer encoding parsing.
    pub fn init_chunked(&mut self)
        ensures
            *final(self) == old(self).initialized(ParserType::Chunked),
            final(self).wf(),
            final(self).spec_parser_type() == ParserType::Chunked,
            final(self).spec_state() == ParserState::ChunkLength1,
            final(self).spec_boundary() is None,
            final(self).spec_length() == 0,
            final(self).spec_byte_count() == old(self).spec_byte_count(),
    {
        self.parser_type = ParserType::Chunked;
        self.reset();
    }

    /// Initialize this `Parser` for head parsing.
    pub fn init_head(&mut self)
        ensures
            *final(self) == old(self).initialized(ParserType::Head),
            final(self).wf(),
            final(self).spec_parser_type() == ParserType::Head,
            final(self).spec_state() == ParserState::StripDetect,
            final(self).spec_boundary() is None,
            final(self).spec_length() == 0,
            final(self).spec_byte_count() == old(self).spec_byte_count(),
    {
        self.parser_type = ParserType::Head;
        self.reset();
    }

    /// Initialize this `Parser` for multipart parsing.
    ///
    /// The multipart boundary must then be set with `set_boundary()` before parsing.
    pub fn init_multipart(&mut self)
        ensures
            *final(self) == old(self).initialized(ParserType::Multipart),
            final(self).core_wf(),
            final(self).spec_parser_type() == ParserType::Multipart,
            final(self).spec_state() == ParserState::MultipartHyphen1,
            final(self).spec_boundary() is None,
            final(self).spec_boundary_index() == 0,
            final(self).spec_length() == 0,
            final(self).spec_byte_count() == old(self).spec_byte_count(),
    {
        self.parser_type = ParserType::Multipart;
        self.reset();
    }

    /// Initialize this `Parser` for URL encoded parsing.
    ///
    /// The length of the URL encoded data must then be set with `set_length()`.
    pub fn init_url_encoded(&mut self)
        ensures
            *final(self) == old(self).initialized(ParserType::UrlEncoded),
            final(self).wf(),
            final(self).spec_parser_type() == ParserType::UrlEncoded,
            final(self).spec_state() == ParserState::FirstUrlEncodedName,
            final(self).spec_boundary() is None,
            final(self).spec_length() == 0,
            final(self).spec_byte_count() == old(self).spec_byte_count(),
    {
        self.parser_type = ParserType::UrlEncoded;
        self.reset();
    }

    /// Retrieve the total byte count processed since the instantiation of `Parser`.
    ///
    /// The byte count is updated when `resume()` completes.
    pub fn byte_count(&self) -> (r: usize)
        ensures
            r == self.spec_byte_count(),
    {
        self.byte_count
    }

    /// Set the multipart boundary.
    pub fn set_boundary(&mut self, boundary: &'boundary [u8])
        requires
            old(self).core_wf(),
        ensures
            *final(self) == old(self).with_boundary(boundary),
            final(self).core_wf(),
            final(self).spec_boundary() == Some(boundary),
            final(self).spec_boundary_index() == old(self).spec_boundary_index(),
            final(self).spec_state() == old(self).spec_state(),
            final(self).spec_parser_type() == old(self).spec_parser_type(),
            final(self).spec_length() == old(self).spec_length(),
            final(self).spec_byte_count() == old(self).spec_byte_count(),
            old(self).spec_parser_type() != ParserType::Multipart || old(self).spec_boundary_index() <= boundary@.len() ==> final(self).wf(),
    {
        self.boundary = Some(boundary);
    }

    /// Set the URL encoded length.
    ///
    /// The parser stays well-formed when the length suits its state: during chunk length parsing
    /// the length storage holds the chunk length read so far.
    pub fn set_length(&mut self, length: usize)
        requires
            old(self).core_wf(),
        ensures
            *final(self) == old(self).with_length(length),
            length_ok(old(self).spec_state(), length) ==> final(self).core_wf(),
            old(self).wf() && length_ok(old(self).spec_state(), length) ==> final(self).wf(),
            final(self).spec_length() == length,
            final(self).spec_boundary() == old(self).spec_boundary(),
            final(self).spec_boundary_index() == old(self).spec_boundary_index(),
            final(self).spec_state() == old(self).spec_state(),
            final(self).spec_parser_type() == old(self).spec_parser_type(),
            final(self).spec_byte_count() == old(self).spec_byte_count(),
    {
        self.length = length;
    }

    /// Retrieve the current state.
    pub fn state(&self) -> (r: ParserState)
        ensures
            r == self.spec_state(),
    {
        self.state
    }

    /// The number of bytes of `stream` that `resume` may process: all of them, except in URL
    /// encoded parsing, where no more than the remaining URL encoded length are processed.
    pub closed spec fn spec_resume_limit(&self, stream: Seq<u8>) -> int {
        if self.parser_type == ParserType::UrlEncoded && self.length < stream.len() {
            self.length as int
        } else {
            stream.len() as int
        }
    }

    /// Resume parsing an additional slice of data.
    ///
    /// Processing stops at the end of `stream`, when a callback returns `false`
    /// (`Success::Callback`), when the message is finished (`Success::Finished`), or on an error,
    /// after which the parser is dead and only ever returns `ParserError::Dead`. In URL encoded
    /// parsing, the stream is cut to the remaining URL encoded length, which decreases by the
    /// amount processed; once it reaches zero, the body is finished. The byte count grows by the
    /// amount processed, and in URL encoded parsing by that amount again when the body finishes.
    /// URL encoded, chunked and head parsing read the processed bytes as `url_encoded_run` and
    /// `message_run` read them one at a time, head parsing after telling a request from a
    /// response as `head_detect` does; multipart parsing reads its first boundary line as
    /// `multipart_start` does and a part's headers as `message_run` does.
    pub fn resume<T: HttpHandler>(&mut self, handler: &mut T, stream: &[u8]) -> (r: Result<
        Success,
        ParserError,
    >)
        requires
            old(self).wf(),
            old(self).spec_byte_count() + stream@.len() + (if old(self).spec_parser_type()
                == ParserType::UrlEncoded {
                stream@.len() as int
            } else {
                0
            }) <= usize::MAX,
        ensures
            resume_post(*old(self), *final(self), stream@, r),
    {
        if let ParserType::UrlEncoded = self.parser_type {
            let data = if self.length < stream.len() {
                // amount of data to process is less than the stream length
                slice_subrange(stream, 0, self.length)
            } else {
                stream
            };
            assert(data@.len() <= self.length);
            let mut context = ByteStream::new(data);
            let first = self.parse(handler, &mut context);
            proof {
                assert(data@.subrange(0, context.stream_index as int) =~= stream@.subrange(
                    0,
                    context.stream_index as int,
                ));
            }
            match first {
                Ok(Success::Eos(length)) => {
                    if self.length - length == 0 {
                        self.state = ParserState::BodyFinished;
                        let ghost mid = self.events@;
                        let second = self.parse(handler, &mut context);
                        proof {
                            lemma_answered_then(
                                old(self).events@,
                                mid,
                                self.events@,
                                second matches Ok(Success::Callback(_)),
                            );
                        }
                        second
                    } else {
                        self.length = self.length - length;
                        Ok(Success::Eos(length))
                    }
                },
                Ok(Success::Callback(length)) => {
                    self.length = self.length - length;
                    Ok(Success::Callback(length))
                },
                other => other,
            }
        } else {
            let mut context = ByteStream::new(stream);
            self.parse(handler, &mut context)
        }
    }
    /// Parse chunked transfer encoded data: a parser still in its first head parsing state is
    /// first initialized for chunked parsing; then parsing resumes with `stream`.
    pub fn parse_chunked<T: HttpHandler>(&mut self, handler: &mut T, stream: &[u8]) -> (r: Result<
        Success,
        ParserError,
    >)
        requires
            old(self).wf(),
            old(self).spec_byte_count() + 2 * stream@.len() <= usize::MAX,
        ensures
            old(self).spec_state() == ParserState::StripDetect ==> resume_post(
                old(self).initialized(ParserType::Chunked),
                *final(self),
                stream@,
                r,
            ),
            old(self).spec_state() != ParserState::StripDetect ==> resume_post(
                *old(self),
                *final(self),
                stream@,
                r,
            ),
    {
        if let ParserState::StripDetect = self.state {
            self.init_chunked();
        }
        self.resume(handler, stream)
    }

    /// Parse the initial request/response line and all headers: parsing resumes with `stream`.
    pub fn parse_head<T: HttpHandler>(&mut self, handler: &mut T, stream: &[u8]) -> (r: Result<
        Success,
        ParserError,
    >)
        requires
            old(self).wf(),
            old(self).spec_byte_count() + 2 * stream@.len() <= usize::MAX,
        ensures
            resume_post(*old(self), *final(self), stream@, r),
    {
        self.resume(handler, stream)
    }

    /// Parse multipart data: a parser still in its first head parsing state is first initialized
    /// for multipart parsing with `boundary`; a finished parser reports `Success::Finished(0)`;
    /// otherwise parsing resumes with `stream`.
    pub fn parse_multipart<T: HttpHandler>(
        &mut self,
        handler: &mut T,
        stream: &[u8],
        boundary: &'boundary [u8],
    ) -> (r: Result<Success, ParserError>)
        requires
            old(self).wf(),
            old(self).spec_byte_count() + 2 * stream@.len() <= usize::MAX,
        ensures
            old(self).spec_state() == ParserState::StripDetect ==> resume_post(
                old(self).initialized(ParserType::Multipart).with_boundary(boundary),
                *final(self),
                stream@,
                r,
            ),
            old(self).spec_state() == ParserState::Finished ==> r == Ok::<Success, ParserError>(
                Success::Finished(0),
            ) && *final(self) == *old(self),
            old(self).spec_state() != ParserState::StripDetect && old(self).spec_state()
                != ParserState::Finished ==> resume_post(*old(self), *final(self), stream@, r),
    {
        if let ParserState::StripDetect = self.state {
            self.init_multipart();
            self.set_boundary(boundary);
        } else if let ParserState::Finished = self.state {
            return Ok(Success::Finished(0));
        }
        self.resume(handler, stream)
    }

    /// Parse URL encoded data: a parser still in its first head parsing state is first
    /// initialized for URL encoded parsing of `length` bytes; a finished parser reports
    /// `Success::Finished(0)`; otherwise parsing resumes with `stream`.
    pub fn parse_url_encoded<T: HttpHandler>(
        &mut self,
        handler: &mut T,
        stream: &[u8],
        length: usize,
    ) -> (r: Result<Success, ParserError>)
        requires
            old(self).wf(),
            old(self).spec_byte_count() + 2 * stream@.len() <= usize::MAX,
        ensures
            old(self).spec_state() == ParserState::StripDetect ==> resume_post(
                old(self).initialized(ParserType::UrlEncoded).with_length(length),
                *final(self),
                stream@,
                r,
            ),
            old(self).spec_state() == ParserState::Finished ==> r == Ok::<Success, ParserError>(
                Success::Finished(0),
            ) && *final(self) == *old(self),
            old(self).spec_state() != ParserState::StripDetect && old(self).spec_state()
                != ParserState::Finished ==> resume_post(*old(self), *final(self), stream@, r),
    {
        if let ParserState::StripDetect = self.state {
            self.init_url_encoded();
            self.set_length(length);
        } else if let ParserState::Finished = self.state {
            return Ok(Success::Finished(0));
        }
        self.resume(handler, stream)
    }
}

} // verus!
