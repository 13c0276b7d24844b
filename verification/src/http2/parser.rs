//! HTTP 2.x frame parser.

use crate::fsm::{ParserValue, Success};
use crate::http2::{
    has_flag, HttpHandler, ParserError, ParserState, FL_PADDED, FL_PRIORITY, FR_CONTINUATION, FR_DATA,
    FR_GO_AWAY, FR_HEADERS, FR_PING, FR_PRIORITY, FR_PUSH_PROMISE, FR_RST_STREAM, FR_SETTINGS,
    FR_WINDOW_UPDATE,
};
use crate::stream::ByteStream;
use vstd::prelude::*;

verus! {

/// The big-endian value of the four bytes of `s` from `i` on.
pub open spec fn be_u32(s: Seq<u8>, i: int) -> int {
    s[i] * 0x1000000 + s[i + 1] * 0x10000 + s[i + 2] * 0x100 + s[i + 3]
}

/// The states that hand payload data to the handler.
pub open spec fn is_payload_state(state: ParserState) -> bool {
    state is DataDataWithoutPadding || state is DataDataWithPadding
        || state is UnsupportedWithoutPadding || state is UnsupportedWithPadding
}

/// The state that follows a frame header, by frame type and flags.
pub open spec fn frame_state(frame_type: u8, flags: u8) -> ParserState {
    if frame_type == FR_DATA {
        if has_flag(flags, FL_PADDED) {
            ParserState::DataPadLength
        } else {
            ParserState::DataDataWithoutPadding
        }
    } else if frame_type == FR_HEADERS {
        if has_flag(flags, FL_PADDED) {
            ParserState::HeadersPadLength
        } else if has_flag(flags, FL_PRIORITY) {
            ParserState::HeadersStreamId1
        } else {
            ParserState::HeadersFragmentWithoutPadding
        }
    } else if frame_type == FR_PRIORITY {
        ParserState::PriorityStreamId1
    } else if frame_type == FR_RST_STREAM {
        ParserState::RstStreamErrorCode1
    } else if frame_type == FR_SETTINGS {
        ParserState::SettingsId1
    } else if frame_type == FR_PUSH_PROMISE {
        if has_flag(flags, FL_PADDED) {
            ParserState::PushPromisePadLength
        } else {
            ParserState::PushPromiseStreamId1
        }
    } else if frame_type == FR_PING {
        ParserState::PingData
    } else if frame_type == FR_GO_AWAY {
        ParserState::GoAwayStreamId1
    } else if frame_type == FR_WINDOW_UPDATE {
        ParserState::WindowUpdateIncrement1
    } else if frame_type == FR_CONTINUATION {
        ParserState::HeadersFragmentWithoutPadding
    } else if has_flag(flags, FL_PADDED) {
        ParserState::UnsupportedWithPadding
    } else {
        ParserState::UnsupportedWithoutPadding
    }
}

/// The states whose frame payload parsing is not implemented: they stop parsing at once, with
/// `Success::Eos`, and consume nothing.
pub open spec fn is_unparsed_state(state: ParserState) -> bool {
    !(state is Dead || state is FrameLength1 || state is FrameLength2 || state is FrameLength3
        || state is FrameType || state is FrameFlags || state is FrameStreamId1
        || state is FrameStreamId2 || state is FrameStreamId3 || state is FrameStreamId4
        || state is FrameEnd || state is FramePadding || state is DataPadLength
        || state is DataDataWithoutPadding || state is DataDataWithPadding
        || state is UnsupportedWithPadding || state is UnsupportedWithoutPadding
        || state is Finished)
}

/// The state that follows a frame header, by frame type and flags.
fn next_frame_state(frame_type: u8, flags: u8) -> (r: ParserState)
    ensures
        r == frame_state(frame_type, flags),
{
    let padded = flags & FL_PADDED == FL_PADDED;
    if frame_type == FR_DATA {
        if padded {
            ParserState::DataPadLength
        } else {
            ParserState::DataDataWithoutPadding
        }
    } else if frame_type == FR_HEADERS {
        if padded {
            ParserState::HeadersPadLength
        } else if flags & FL_PRIORITY == FL_PRIORITY {
            ParserState::HeadersStreamId1
        } else {
            ParserState::HeadersFragmentWithoutPadding
        }
    } else if frame_type == FR_PRIORITY {
        ParserState::PriorityStreamId1
    } else if frame_type == FR_RST_STREAM {
        ParserState::RstStreamErrorCode1
    } else if frame_type == FR_SETTINGS {
        ParserState::SettingsId1
    } else if frame_type == FR_PUSH_PROMISE {
        if padded {
            ParserState::PushPromisePadLength
        } else {
            ParserState::PushPromiseStreamId1
        }
    } else if frame_type == FR_PING {
        ParserState::PingData
    } else if frame_type == FR_GO_AWAY {
        ParserState::GoAwayStreamId1
    } else if frame_type == FR_WINDOW_UPDATE {
        ParserState::WindowUpdateIncrement1
    } else if frame_type == FR_CONTINUATION {
        ParserState::HeadersFragmentWithoutPadding
    } else if padded {
        ParserState::UnsupportedWithPadding
    } else {
        ParserState::UnsupportedWithoutPadding
    }
}

/// The big-endian value of the four bytes of `s` from `i` on.
fn read_u32(s: &[u8], i: usize) -> (r: u32)
    requires
        i + 4 <= s@.len(),
    ensures
        r == be_u32(s@, i as int),
{
    let b0 = s[i];
    let b1 = s[i + 1];
    let b2 = s[i + 2];
    let b3 = s[i + 3];
    let r: u32 = (b0 as u32) << 24 | (b1 as u32) << 16 | (b2 as u32) << 8 | (b3 as u32);
    assert(r == b0 * 0x1000000 + b1 * 0x10000 + b2 * 0x100 + b3) by (bit_vector)
        requires
            r == (b0 as u32) << 24 | (b1 as u32) << 16 | (b2 as u32) << 8 | (b3 as u32),
    ;
    r
}

/// The low byte of `x`.
fn low_byte(x: u32) -> (r: u8)
    ensures
        r == x % 0x100,
        r == x & 0xFF,
{
    assert(x & 0xFF == x % 0x100) by (bit_vector);
    assert(x & 0xFF < 0x100) by (bit_vector);
    (x & 0xFF) as u8
}

/// HTTP 2.x parser.
///
/// The parser reads frame headers: the payload length, the frame type, the flags and the stream
/// identifier, which it hands to the handler's `on_frame`. The payloads of data frames and of
/// frames of unsupported types are handed to `on_data` and `on_unsupported`; the payloads of the
/// other frame types are not parsed yet, and parsing stops in their first state.
pub struct Parser<T: HttpHandler> {
    /// The frame payload length still to be read in the upper 24 bits; the frame type, or the
    /// pad length, in the low byte.
    bit_data32a: u32,
    /// The frame stream identifier.
    bit_data32b: u32,
    /// The frame flags.
    bit_data8a: u8,
    /// Unused bit data, kept with the others.
    bit_data8b: u8,
    /// Total byte count processed.
    byte_count: usize,
    /// Handler implementation.
    handler: T,
    /// Current state.
    state: ParserState,
    /// The frame headers handed to `on_frame`, oldest first: payload length, frame type, flags
    /// and stream identifier.
    frames: Ghost<Seq<(u32, u8, u8, u32)>>,
    /// The payload data handed to `on_data` and `on_unsupported`, oldest first: whether it went
    /// to `on_unsupported`, the bytes, and whether they were the last of their frame.
    payloads: Ghost<Seq<(bool, Seq<u8>, bool)>>,
}

/// The arguments that `on_frame` is given for the frame header that parser `p` has read: the
/// payload length, the frame type, the flags and the stream identifier without its reserved bit.
pub open spec fn frame_args<T: HttpHandler>(p: Parser<T>) -> (u32, u8, u8, u32) {
    (
        p.spec_payload_length(),
        p.spec_frame_type() as u8,
        p.spec_flags(),
        p.spec_stream_id() & 0x7FFF_FFFF,
    )
}

/// The frame data `x` after `n` bytes of the payload have been read: the upper 24 bits, the
/// payload length still to be read, go down by `n`, wrapping, and the low byte stays.
pub open spec fn dec_payload(x: u32, n: u32) -> u32 {
    (x & 0xFF) | ((x >> 8).wrapping_sub(n) << 8)
}

/// The payload bytes still to be read of frame data `x`, without its padding: the payload
/// length less the low byte, wrapping.
pub open spec fn remaining_data(x: u32) -> u32 {
    (x >> 8).wrapping_sub(x & 0xFF)
}

/// Reading `n` bytes of a payload at least `n` long lowers the payload length by `n` and keeps
/// the low byte.
pub proof fn lemma_dec_payload(x: u32, n: u32)
    requires
        n <= x >> 8,
    ensures
        dec_payload(x, n) >> 8 == (x >> 8) - n,
        dec_payload(x, n) & 0xFF == x & 0xFF,
{
    let w: u32 = ((x >> 8) - n) as u32;
    assert((x >> 8).wrapping_sub(n) == w);
    assert(((x & 0xFF) | (w << 8)) >> 8 == w && ((x & 0xFF) | (w << 8)) & 0xFF == x & 0xFF)
        by (bit_vector)
        requires
            w <= x >> 8,
    ;
}

/// Lower the payload length of frame data `x` by `n`, wrapping.
fn dec_payload_length(x: u32, n: u32) -> (r: u32)
    ensures
        r == dec_payload(x, n),
{
    (x & 0xFF) | ((x >> 8).wrapping_sub(n) << 8)
}

/// Parsing stops with `Success::Eos` after `n` bytes.
pub open spec fn eos_at(n: usize) -> Result<ParserValue, ParserError> {
    Ok(ParserValue::Exit(Success::Eos(n)))
}

/// Parsing goes on with the next state.
pub open spec fn go_on() -> Result<ParserValue, ParserError> {
    Ok(ParserValue::Continue)
}

/// Rank of a state in the termination measure: a state that may be left without reading a byte
/// ranks above the states it leads to.
pub open spec fn state_rank(state: ParserState) -> int {
    match state {
        ParserState::FrameEnd => 3,
        ParserState::DataPadLength => 2,
        ParserState::DataDataWithoutPadding => 2,
        ParserState::DataDataWithPadding => 2,
        ParserState::UnsupportedWithPadding => 2,
        ParserState::UnsupportedWithoutPadding => 2,
        ParserState::FramePadding => 1,
        _ => 0,
    }
}

/// Termination measure of the parser loop.
pub open spec fn step_measure(state: ParserState, c: ByteStream) -> int {
    c.spec_available() * 4 + state_rank(state)
}

/// The parser holds the frame header that the nine bytes of `stream` give: the payload length
/// from the first three bytes, big-endian, the frame type, the flags, and the stream identifier
/// from the last four bytes, big-endian; and it is in the state that the type and flags choose.
pub open spec fn header_parsed<T: HttpHandler>(p: Parser<T>, stream: Seq<u8>) -> bool {
    &&& p.spec_payload_length() == stream[0] * 0x10000 + stream[1] * 0x100 + stream[2]
    &&& p.spec_frame_type() == stream[3]
    &&& p.spec_flags() == stream[4]
    &&& p.spec_stream_id() == be_u32(stream, 5)
    &&& p.spec_state() == frame_state(stream[3], stream[4])
}

/// The frame word read from four bytes splits into the payload length, from the first three,
/// and the frame type, from the last.
proof fn lemma_frame_word(s0: u8, s1: u8, s2: u8, s3: u8, w: u32)
    requires
        w == s0 * 0x1000000 + s1 * 0x10000 + s2 * 0x100 + s3,
    ensures
        w >> 8 == s0 * 0x10000 + s1 * 0x100 + s2,
        w & 0xFF == s3,
{
    assert(w >> 8 == s0 * 0x10000 + s1 * 0x100 + s2 && w & 0xFF == s3) by (bit_vector)
        requires
            w == s0 * 0x1000000 + s1 * 0x10000 + s2 * 0x100 + s3,
    ;
}

/// The frame header that the first nine bytes of `s` give, as `on_frame` is handed it: the
/// payload length from the first three bytes, big-endian, the frame type, the flags, and the
/// stream identifier from the last four bytes, big-endian, without its reserved bit.
pub open spec fn first_frame_header(s: Seq<u8>) -> (u32, u8, u8, u32) {
    (
        (s[0] * 0x10000 + s[1] * 0x100 + s[2]) as u32,
        s[3],
        s[4],
        (be_u32(s, 5) as u32) & 0x7FFF_FFFF,
    )
}

/// The payload length that the frame header in the first nine bytes of `s` gives.
pub open spec fn header_payload_length(s: Seq<u8>) -> int {
    s[0] * 0x10000 + s[1] * 0x100 + s[2]
}

/// The bytes `s` start with the header of a DATA frame whose data starts within them: after
/// the header, and, where the frame is padded, after the pad length byte, whose padding fits in
/// the payload.
pub open spec fn starts_data_frame(s: Seq<u8>) -> bool {
    &&& s.len() > 9
    &&& s[3] == FR_DATA
    &&& has_flag(s[4], FL_PADDED) ==> s.len() > 10 && s[9] + 1 <= header_payload_length(s)
}

/// Where the data of the DATA frame at the start of `s` starts.
pub open spec fn data_start(s: Seq<u8>) -> int {
    if has_flag(s[4], FL_PADDED) {
        10
    } else {
        9
    }
}

/// How many data bytes the DATA frame at the start of `s` holds: its payload length, less the
/// pad length byte and the padding where it is padded.
pub open spec fn data_length(s: Seq<u8>) -> int {
    if has_flag(s[4], FL_PADDED) {
        header_payload_length(s) - 1 - s[9]
    } else {
        header_payload_length(s)
    }
}

/// What the DATA frame at the start of `s` first hands to `on_data`: all of its data when `s`
/// holds it, as the last of the frame's data, whether the frame is padded or not; or else the
/// data bytes `s` holds, with more to come.
pub open spec fn first_data_payload(s: Seq<u8>) -> (bool, Seq<u8>, bool) {
    let a = data_start(s);
    let e = a + data_length(s);
    if e <= s.len() {
        (false, s.subrange(a, e), true)
    } else {
        (false, s.subrange(a, s.len() as int), false)
    }
}

/// The data left of a padded frame's payload once its pad length byte `b` is read: the payload
/// length less that byte and the padding.
proof fn lemma_pad_length(w: u32, b: u8)
    requires
        w & 0xFF == 0,
        b + 1 <= (w >> 8),
    ensures
        remaining_data(dec_payload(w | (b as u32), 1)) == (w >> 8) - 1 - b,
{
    let x = w | (b as u32);
    assert((w | (b as u32)) >> 8 == w >> 8 && (w | (b as u32)) & 0xFF == b as u32) by (bit_vector)
        requires
            w & 0xFF == 0,
    ;
    lemma_dec_payload(x, 1);
    let d = dec_payload(x, 1);
    assert((d >> 8).wrapping_sub(d & 0xFF) == (w >> 8) - 1 - b);
}

/// Outcome of a `resume` call on `stream`, relating the parser before and after it.
pub open spec fn resume_post<T: HttpHandler>(
    p0: Parser<T>,
    p1: Parser<T>,
    stream: Seq<u8>,
    r: Result<Success, ParserError>,
) -> bool {
    let n = p1.spec_byte_count() - p0.spec_byte_count();
    &&& 0 <= n <= stream.len()
    &&& (p0.spec_state() is Dead ==> r == Err::<Success, ParserError>(ParserError::Dead) && n == 0)
    &&& (p0.spec_state() is Finished ==> r == Ok::<Success, ParserError>(Success::Finished(0))
        && p1.spec_state() is Finished)
    &&& match r {
        Ok(s) => {
            &&& s.spec_length() == n
            &&& !(p1.spec_state() is Dead)
            &&& (s is Eos ==> n == stream.len() || is_unparsed_state(p1.spec_state()))
            &&& (s is Finished ==> p0.spec_state() is Finished)
        },
        Err(_) => p0.spec_state() is Dead && p1.spec_state() is Dead,
    }
}

impl<T: HttpHandler> Parser<T> {
    /// The current state.
    pub closed spec fn spec_state(&self) -> ParserState {
        self.state
    }

    /// The frame headers handed to the handler's `on_frame`, oldest first.
    pub closed spec fn spec_frames(&self) -> Seq<(u32, u8, u8, u32)> {
        self.frames@
    }

    /// The payload data handed to `on_data` and `on_unsupported`, oldest first: whether it went
    /// to `on_unsupported`, the bytes, and whether they were the last of their frame's data.
    pub closed spec fn spec_payloads(&self) -> Seq<(bool, Seq<u8>, bool)> {
        self.payloads@
    }

    /// The total byte count processed.
    pub closed spec fn spec_byte_count(&self) -> usize {
        self.byte_count
    }

    /// The handler implementation.
    pub closed spec fn spec_handler(&self) -> T {
        self.handler
    }

    /// The payload length still to be read of the current frame.
    pub closed spec fn spec_payload_length(&self) -> u32 {
        self.bit_data32a >> 8
    }

    /// The frame type of the current frame, with the pad length of a padded data frame added in.
    pub closed spec fn spec_frame_type(&self) -> u32 {
        self.bit_data32a & 0xFF
    }

    /// The flags of the current frame.
    pub closed spec fn spec_flags(&self) -> u8 {
        self.bit_data8a
    }

    /// The stream identifier of the current frame, reserved bit included.
    pub closed spec fn spec_stream_id(&self) -> u32 {
        self.bit_data32b
    }

    /// The parser is in its initial state, with nothing processed.
    pub open spec fn is_initial(&self) -> bool {
        &&& self.spec_state() == ParserState::FrameLength1
        &&& self.spec_byte_count() == 0
        &&& self.spec_payload_length() == 0
        &&& self.spec_frame_type() == 0
        &&& self.spec_flags() == 0
        &&& self.spec_stream_id() == 0
    }

    /// Outcome of one state function call.
    closed spec fn step_post(
        p0: Self,
        p1: Self,
        c0: ByteStream,
        c1: ByteStream,
        r: Result<ParserValue, ParserError>,
    ) -> bool {
        &&& c1.wf()
        &&& c1.stream@ == c0.stream@
        &&& c0.stream_index <= c1.stream_index
        &&& p1.byte_count == p0.byte_count
        &&& (p1.state is Dead <==> p0.state is Dead)
        &&& p0.frames@.len() <= p1.frames@.len()
        &&& forall|i: int| 0 <= i < p0.frames@.len() ==> p1.frames@[i] == #[trigger] p0.frames@[i]
        &&& (!is_payload_state(p0.state) ==> p1.payloads@ == p0.payloads@)
        &&& p0.payloads@.len() <= p1.payloads@.len()
        &&& forall|i: int|
            0 <= i < p0.payloads@.len() ==> p1.payloads@[i] == #[trigger] p0.payloads@[i]
        &&& match r {
            Ok(ParserValue::Continue) => {
                &&& !(p0.state is Dead)
                &&& c1.mark_index == c1.stream_index
                &&& step_measure(p1.state, c1) < step_measure(p0.state, c0)
                &&& !(p0.state is Finished)
                &&& !(p1.state is Finished)
            },
            Ok(ParserValue::Exit(s)) => {
                &&& !(p0.state is Dead)
                &&& s.spec_length() == c1.stream_index
                &&& (s is Eos ==> c1.stream_index == c1.stream@.len() || is_unparsed_state(p1.state))
                &&& (s is Finished <==> p0.state is Finished)
                &&& (p0.state is Finished ==> p1.state is Finished && c1.stream_index == c0.stream_index)
            },
            Err(e) => p0.state is Dead && c1.stream_index == c0.stream_index && e == ParserError::Dead,
        }
    }

    /// Outcome of handing payload data to the handler, then going on with `next`.
    closed spec fn payload_post(
        p0: Self,
        p1: Self,
        c0: ByteStream,
        c1: ByteStream,
        r: Result<ParserValue, ParserError>,
        next: ParserState,
        unsupported: bool,
    ) -> bool {
        let remaining = remaining_data(p0.bit_data32a);
        let i = c0.stream_index as int;
        let callback = Ok::<ParserValue, ParserError>(
            ParserValue::Exit(Success::Callback(c1.stream_index)),
        );
        if remaining <= c0.spec_available() {
            &&& p1 == (Parser {
                bit_data32a: dec_payload(p0.bit_data32a, remaining),
                state: next,
                handler: p1.handler,
                payloads: p1.payloads,
                ..p0
            })
            &&& c1.stream_index == c0.stream_index + remaining
            &&& p1.payloads@ == p0.payloads@.push(
                (unsupported, c0.stream@.subrange(i, i + remaining), true),
            )
            &&& (r == go_on() || r == callback)
        } else {
            &&& p1 == (Parser {
                bit_data32a: dec_payload(p0.bit_data32a, c0.spec_available() as u32),
                handler: p1.handler,
                payloads: p1.payloads,
                ..p0
            })
            &&& c1.stream_index == c1.stream@.len()
            &&& p1.payloads@ == p0.payloads@.push(
                (unsupported, c0.stream@.subrange(i, c0.stream@.len() as int), false),
            )
            &&& (r == eos_at(c1.stream_index) || r == callback)
        }
    }

    /// What one state function call does in the states that read a frame header whole, and in
    /// any state but the frame end with no byte left.
    closed spec fn header_step(
        p0: Self,
        p1: Self,
        c0: ByteStream,
        c1: ByteStream,
        r: Result<ParserValue, ParserError>,
    ) -> bool {
        let i = c0.stream_index;
        &&& (c0.spec_available() == 0 && !(p0.state is FrameEnd) && !(p0.state is Dead)
            && !(p0.state is Finished) ==> p1 == p0 && c1 == c0 && r == eos_at(i))
        &&& (p0.state is FrameLength1 && c0.spec_available() >= 4 ==> p1 == (Parser {
            bit_data32a: be_u32(c0.stream@, i as int) as u32,
            bit_data32b: 0,
            bit_data8a: 0,
            bit_data8b: 0,
            state: ParserState::FrameFlags,
            ..p0
        }) && c1.stream_index == i + 4 && r == go_on())
        &&& (p0.state is FrameFlags && c0.spec_available() > 0 ==> p1 == (Parser {
            bit_data8a: c0.stream@[i as int],
            state: ParserState::FrameStreamId1,
            ..p0
        }) && c1.stream_index == i + 1 && r == go_on())
        &&& (p0.state is FrameStreamId1 && c0.spec_available() >= 4 ==> p1 == (Parser {
            bit_data32b: p0.bit_data32b | (be_u32(c0.stream@, i as int) as u32),
            state: ParserState::FrameEnd,
            ..p0
        }) && c1.stream_index == i + 4 && r == go_on())
        &&& (p0.state is FrameEnd ==> {
            &&& p1.state == frame_state((p0.bit_data32a & 0xFF) as u8, p0.bit_data8a)
            &&& p1.bit_data32a == p0.bit_data32a
            &&& p1.bit_data32b == p0.bit_data32b
            &&& p1.bit_data8a == p0.bit_data8a
            &&& c1.stream_index == i
            &&& (r == go_on() || r == Ok::<ParserValue, ParserError>(
                ParserValue::Exit(Success::Callback(i)),
            ))
        })
    }

    /// A frame header read from nine bytes of `stream` starting in the first frame state: the
    /// state, the bytes read, and the frame data after each step.
    closed spec fn header_progress(
        p: Self,
        c: ByteStream,
        stream: Seq<u8>,
        frames0: Seq<(u32, u8, u8, u32)>,
    ) -> bool {
        let word = be_u32(stream, 0) as u32;
        let id = be_u32(stream, 5) as u32;
        ||| c.stream_index == 0 && p.state is FrameLength1 && p.frames@ == frames0
        ||| c.stream_index == 4 && p.state is FrameFlags && p.bit_data32a == word && p.bit_data32b
            == 0 && p.frames@ == frames0
        ||| c.stream_index == 5 && p.state is FrameStreamId1 && p.bit_data32a == word
            && p.bit_data8a == stream[4] && p.bit_data32b == 0 && p.frames@ == frames0
        ||| c.stream_index == 9 && p.state is FrameEnd && p.bit_data32a == word && p.bit_data8a
            == stream[4] && p.bit_data32b == 0u32 | id && p.frames@ == frames0
        ||| c.stream_index == 9 && p.state == frame_state((word & 0xFF) as u8, stream[4])
            && p.bit_data32a == word && p.bit_data8a == stream[4] && p.bit_data32b == 0u32 | id
            && p.frames@ == frames0.push(frame_args(p))
    }

    /// The frame header of the first nine bytes of `stream` has been handed on: it follows the
    /// frames `frames0` that were there before.
    closed spec fn header_done(
        p: Self,
        c: ByteStream,
        stream: Seq<u8>,
        frames0: Seq<(u32, u8, u8, u32)>,
    ) -> bool {
        &&& c.stream_index >= 9
        &&& p.frames@.len() > frames0.len()
        &&& p.frames@[frames0.len() as int] == first_frame_header(stream)
    }

    /// Where a DATA frame at the start of `stream` stands on its way to its first payload data:
    /// reading its header, with no payload handed on yet (`payloads0` were there before); past
    /// its pad length byte; or with the first payload handed on.
    closed spec fn data_phase(
        p: Self,
        c: ByteStream,
        stream: Seq<u8>,
        frames0: Seq<(u32, u8, u8, u32)>,
        payloads0: Seq<(bool, Seq<u8>, bool)>,
    ) -> bool {
        let word = be_u32(stream, 0) as u32;
        ||| Self::header_progress(p, c, stream, frames0) && p.payloads@ == payloads0
        ||| c.stream_index == 10 && has_flag(stream[4], FL_PADDED) && p.state is DataDataWithPadding
            && p.bit_data32a == dec_payload(
            word | (stream[9] as u32),
            1,
        ) && p.payloads@ == payloads0
        ||| p.payloads@.len() > payloads0.len() && p.payloads@[payloads0.len() as int]
            == first_data_payload(stream)
    }

    /// Create a new `Parser` that hands what it parses to `handler`.
    pub fn new(handler: T) -> (r: Parser<T>)
        ensures
            r.is_initial(),
            r.spec_handler() == handler,
            r.spec_frames() == Seq::<(u32, u8, u8, u32)>::empty(),
            r.spec_payloads() == Seq::<(bool, Seq<u8>, bool)>::empty(),
    {
        assert(0u32 >> 8 == 0 && 0u32 & 0xFF == 0) by (bit_vector);
        Parser {
            bit_data32a: 0,
            bit_data32b: 0,
            bit_data8a: 0,
            bit_data8b: 0,
            byte_count: 0,
            handler: handler,
            state: ParserState::FrameLength1,
            frames: Ghost(Seq::empty()),
            payloads: Ghost(Seq::empty()),
        }
    }

    /// Retrieve the total byte count processed since the instantiation of `Parser`.
    pub fn byte_count(&self) -> (r: usize)
        ensures
            r == self.spec_byte_count(),
    {
        self.byte_count
    }

    /// Retrieve the handler implementation.
    pub fn handler(&mut self) -> (r: &mut T)
        ensures
            *r == old(self).spec_handler(),
            final(self).spec_handler() == *final(r),
            final(self).spec_state() == old(self).spec_state(),
            final(self).spec_byte_count() == old(self).spec_byte_count(),
            final(self).spec_payload_length() == old(self).spec_payload_length(),
            final(self).spec_frame_type() == old(self).spec_frame_type(),
            final(self).spec_flags() == old(self).spec_flags(),
            final(self).spec_stream_id() == old(self).spec_stream_id(),
    {
        &mut self.handler
    }

    /// Reset `Parser` to its initial state; the handler is kept.
    pub fn reset(&mut self)
        ensures
            final(self).is_initial(),
            final(self).spec_handler() == old(self).spec_handler(),
            final(self).spec_frames() == old(self).spec_frames(),
            final(self).spec_payloads() == old(self).spec_payloads(),
    {
        self.byte_count = 0;
        self.state = ParserState::FrameLength1;
        self.reset_bit_data();
        assert(0u32 >> 8 == 0 && 0u32 & 0xFF == 0) by (bit_vector);
    }

    /// Reset bit data.
    fn reset_bit_data(&mut self)
        ensures
            *final(self) == (Parser {
                bit_data32a: 0,
                bit_data32b: 0,
                bit_data8a: 0,
                bit_data8b: 0,
                ..*old(self)
            }),
    {
        self.bit_data32a = 0;
        self.bit_data32b = 0;
        self.bit_data8a = 0;
        self.bit_data8b = 0;
    }


    // ---------------------------------------------------------------------------------------------
    // FRAME STATES
    // ---------------------------------------------------------------------------------------------

    /// Exit with `Success::Eos` when the stream has no byte left.
    fn eos(context: &ByteStream) -> (r: Result<ParserValue, ParserError>)
        ensures
            r == eos_at(context.stream_index),
    {
        Ok(ParserValue::Exit(Success::Eos(context.stream_index)))
    }

    /// Read the next byte of the stream.
    fn get_u8(context: &mut ByteStream) -> (r: u8)
        requires
            old(context).wf(),
            old(context).stream_index < old(context).stream@.len(),
        ensures
            r == old(context).stream@[old(context).stream_index as int],
            *final(context) == (ByteStream { stream_index: (old(context).stream_index + 1) as usize, ..*old(context) }),
    {
        let b = context.stream[context.stream_index];
        context.jump(1);
        b
    }

    /// First byte of the frame length, or the whole length and the frame type at once.
    fn frame_length1(&mut self, context: &mut ByteStream) -> (r: Result<ParserValue, ParserError>)
        requires
            old(context).wf(),
            old(context).mark_index == old(context).stream_index,
            old(self).state == ParserState::FrameLength1,
        ensures
            Self::step_post(*old(self), *final(self), *old(context), *final(context), r),
            old(context).spec_available() == 0 ==> *final(self) == *old(self)
                && *final(context) == *old(context) && r == eos_at(old(context).stream_index),
            old(context).spec_available() >= 4 ==> *final(self) == (Parser {
                bit_data32a: be_u32(old(context).stream@, old(context).stream_index as int) as u32,
                bit_data32b: 0,
                bit_data8a: 0,
                bit_data8b: 0,
                state: ParserState::FrameFlags,
                ..*old(self)
            }) && final(context).stream_index == old(context).stream_index + 4
                && r == go_on(),
            0 < old(context).spec_available() < 4 ==> *final(self) == (Parser {
                bit_data32a: (old(context).stream@[old(context).stream_index as int] * 0x1000000) as u32,
                bit_data32b: 0,
                bit_data8a: 0,
                bit_data8b: 0,
                state: ParserState::FrameLength2,
                ..*old(self)
            }) && final(context).stream_index == old(context).stream_index + 1
                && r == go_on(),
    {
        if context.available() == 0 {
            return Self::eos(context);
        }
        self.reset_bit_data();
        if context.available() >= 4 {
            // read entire length and type
            let v = read_u32(context.stream, context.stream_index);
            assert(0u32 | v == v) by (bit_vector);
            self.bit_data32a = self.bit_data32a | v;
            context.jump(4);
            self.state = ParserState::FrameFlags;
        } else {
            // read first length byte
            let b = Self::get_u8(context);
            assert(0u32 | ((b as u32) << 24) == b * 0x1000000) by (bit_vector);
            self.bit_data32a = self.bit_data32a | ((b as u32) << 24);
            self.state = ParserState::FrameLength2;
        }
        context.mark();
        Ok(ParserValue::Continue)
    }


    /// Second byte of the frame length.
    fn frame_length2(&mut self, context: &mut ByteStream) -> (r: Result<ParserValue, ParserError>)
        requires
            old(context).wf(),
            old(context).mark_index == old(context).stream_index,
            old(self).state == ParserState::FrameLength2,
        ensures
            Self::step_post(*old(self), *final(self), *old(context), *final(context), r),
            old(context).spec_available() == 0 ==> *final(self) == *old(self)
                && *final(context) == *old(context) && r == eos_at(old(context).stream_index),
            old(context).spec_available() > 0 ==> {
                let b = old(context).stream@[old(context).stream_index as int];
                &&& *final(self) == (Parser {
                    bit_data32a: old(self).bit_data32a | ((b as u32) << 16),
                    state: ParserState::FrameLength3,
                    ..*old(self)
                })
                &&& final(context).stream_index == old(context).stream_index + 1
                &&& r == go_on()
            },
    {
        if context.available() == 0 {
            return Self::eos(context);
        }
        let b = Self::get_u8(context);
        self.bit_data32a = self.bit_data32a | ((b as u32) << 16);
        self.state = ParserState::FrameLength3;
        context.mark();
        Ok(ParserValue::Continue)
    }

    /// Third byte of the frame length.
    fn frame_length3(&mut self, context: &mut ByteStream) -> (r: Result<ParserValue, ParserError>)
        requires
            old(context).wf(),
            old(context).mark_index == old(context).stream_index,
            old(self).state == ParserState::FrameLength3,
        ensures
            Self::step_post(*old(self), *final(self), *old(context), *final(context), r),
            old(context).spec_available() == 0 ==> *final(self) == *old(self)
                && *final(context) == *old(context) && r == eos_at(old(context).stream_index),
            old(context).spec_available() > 0 ==> {
                let b = old(context).stream@[old(context).stream_index as int];
                &&& *final(self) == (Parser {
                    bit_data32a: old(self).bit_data32a | ((b as u32) << 8),
                    state: ParserState::FrameType,
                    ..*old(self)
                })
                &&& final(context).stream_index == old(context).stream_index + 1
                &&& r == go_on()
            },
    {
        if context.available() == 0 {
            return Self::eos(context);
        }
        let b = Self::get_u8(context);
        self.bit_data32a = self.bit_data32a | ((b as u32) << 8);
        self.state = ParserState::FrameType;
        context.mark();
        Ok(ParserValue::Continue)
    }

    /// Frame type.
    fn frame_type(&mut self, context: &mut ByteStream) -> (r: Result<ParserValue, ParserError>)
        requires
            old(context).wf(),
            old(context).mark_index == old(context).stream_index,
            old(self).state == ParserState::FrameType,
        ensures
            Self::step_post(*old(self), *final(self), *old(context), *final(context), r),
            old(context).spec_available() == 0 ==> *final(self) == *old(self)
                && *final(context) == *old(context) && r == eos_at(old(context).stream_index),
            old(context).spec_available() > 0 ==> {
                let b = old(context).stream@[old(context).stream_index as int];
                &&& *final(self) == (Parser {
                    bit_data32a: old(self).bit_data32a | (b as u32),
                    state: ParserState::FrameFlags,
                    ..*old(self)
                })
                &&& final(context).stream_index == old(context).stream_index + 1
                &&& r == go_on()
            },
    {
        if context.available() == 0 {
            return Self::eos(context);
        }
        let b = Self::get_u8(context);
        self.bit_data32a = self.bit_data32a | (b as u32);
        self.state = ParserState::FrameFlags;
        context.mark();
        Ok(ParserValue::Continue)
    }

    /// Frame flags.
    fn frame_flags(&mut self, context: &mut ByteStream) -> (r: Result<ParserValue, ParserError>)
        requires
            old(context).wf(),
            old(context).mark_index == old(context).stream_index,
            old(self).state == ParserState::FrameFlags,
        ensures
            Self::step_post(*old(self), *final(self), *old(context), *final(context), r),
            old(context).spec_available() == 0 ==> *final(self) == *old(self)
                && *final(context) == *old(context) && r == eos_at(old(context).stream_index),
            old(context).spec_available() > 0 ==> {
                let b = old(context).stream@[old(context).stream_index as int];
                &&& *final(self) == (Parser {
                    bit_data8a: b,
                    state: ParserState::FrameStreamId1,
                    ..*old(self)
                })
                &&& final(context).stream_index == old(context).stream_index + 1
                &&& r == go_on()
            },
    {
        if context.available() == 0 {
            return Self::eos(context);
        }
        let b = Self::get_u8(context);
        self.bit_data8a = b;
        self.state = ParserState::FrameStreamId1;
        context.mark();
        Ok(ParserValue::Continue)
    }

    /// Second byte of the stream identifier: it replaces what was read before.
    fn frame_stream_id2(&mut self, context: &mut ByteStream) -> (r: Result<ParserValue, ParserError>)
        requires
            old(context).wf(),
            old(context).mark_index == old(context).stream_index,
            old(self).state == ParserState::FrameStreamId2,
        ensures
            Self::step_post(*old(self), *final(self), *old(context), *final(context), r),
            old(context).spec_available() == 0 ==> *final(self) == *old(self)
                && *final(context) == *old(context) && r == eos_at(old(context).stream_index),
            old(context).spec_available() > 0 ==> {
                let b = old(context).stream@[old(context).stream_index as int];
                &&& *final(self) == (Parser {
                    bit_data32b: (b as u32) << 16,
                    state: ParserState::FrameStreamId3,
                    ..*old(self)
                })
                &&& final(context).stream_index == old(context).stream_index + 1
                &&& r == go_on()
            },
    {
        if context.available() == 0 {
            return Self::eos(context);
        }
        let b = Self::get_u8(context);
        self.bit_data32b = (b as u32) << 16;
        self.state = ParserState::FrameStreamId3;
        context.mark();
        Ok(ParserValue::Continue)
    }

    /// Third byte of the stream identifier: it replaces what was read before.
    fn frame_stream_id3(&mut self, context: &mut ByteStream) -> (r: Result<ParserValue, ParserError>)
        requires
            old(context).wf(),
            old(context).mark_index == old(context).stream_index,
            old(self).state == ParserState::FrameStreamId3,
        ensures
            Self::step_post(*old(self), *final(self), *old(context), *final(context), r),
            old(context).spec_available() == 0 ==> *final(self) == *old(self)
                && *final(context) == *old(context) && r == eos_at(old(context).stream_index),
            old(context).spec_available() > 0 ==> {
                let b = old(context).stream@[old(context).stream_index as int];
                &&& *final(self) == (Parser {
                    bit_data32b: (b as u32) << 8,
                    state: ParserState::FrameStreamId4,
                    ..*old(self)
                })
                &&& final(context).stream_index == old(context).stream_index + 1
                &&& r == go_on()
            },
    {
        if context.available() == 0 {
            return Self::eos(context);
        }
        let b = Self::get_u8(context);
        self.bit_data32b = (b as u32) << 8;
        self.state = ParserState::FrameStreamId4;
        context.mark();
        Ok(ParserValue::Continue)
    }

    /// Last byte of the stream identifier.
    fn frame_stream_id4(&mut self, context: &mut ByteStream) -> (r: Result<ParserValue, ParserError>)
        requires
            old(context).wf(),
            old(context).mark_index == old(context).stream_index,
            old(self).state == ParserState::FrameStreamId4,
        ensures
            Self::step_post(*old(self), *final(self), *old(context), *final(context), r),
            old(context).spec_available() == 0 ==> *final(self) == *old(self)
                && *final(context) == *old(context) && r == eos_at(old(context).stream_index),
            old(context).spec_available() > 0 ==> {
                let b = old(context).stream@[old(context).stream_index as int];
                &&& *final(self) == (Parser {
                    bit_data32b: old(self).bit_data32b | (b as u32),
                    state: ParserState::FrameEnd,
                    ..*old(self)
                })
                &&& final(context).stream_index == old(context).stream_index + 1
                &&& r == go_on()
            },
    {
        if context.available() == 0 {
            return Self::eos(context);
        }
        let b = Self::get_u8(context);
        self.bit_data32b = self.bit_data32b | (b as u32);
        self.state = ParserState::FrameEnd;
        context.mark();
        Ok(ParserValue::Continue)
    }

    /// First byte of the stream identifier, or the whole identifier at once.
    fn frame_stream_id1(&mut self, context: &mut ByteStream) -> (r: Result<ParserValue, ParserError>)
        requires
            old(context).wf(),
            old(context).mark_index == old(context).stream_index,
            old(self).state == ParserState::FrameStreamId1,
        ensures
            Self::step_post(*old(self), *final(self), *old(context), *final(context), r),
            old(context).spec_available() == 0 ==> *final(self) == *old(self)
                && *final(context) == *old(context) && r == eos_at(old(context).stream_index),
            old(context).spec_available() >= 4 ==> *final(self) == (Parser {
                bit_data32b: old(self).bit_data32b | (be_u32(
                    old(context).stream@,
                    old(context).stream_index as int,
                ) as u32),
                state: ParserState::FrameEnd,
                ..*old(self)
            }) && final(context).stream_index == old(context).stream_index + 4 && r == go_on(),
            0 < old(context).spec_available() < 4 ==> *final(self) == (Parser {
                bit_data32b: (old(context).stream@[old(context).stream_index as int] as u32) << 24,
                state: ParserState::FrameStreamId2,
                ..*old(self)
            }) && final(context).stream_index == old(context).stream_index + 1 && r == go_on(),
    {
        if context.available() == 0 {
            return Self::eos(context);
        }
        if context.available() >= 4 {
            // read entire stream id
            let v = read_u32(context.stream, context.stream_index);
            self.bit_data32b = self.bit_data32b | v;
            context.jump(4);
            self.state = ParserState::FrameEnd;
        } else {
            // read first stream id byte
            let b = Self::get_u8(context);
            self.bit_data32b = (b as u32) << 24;
            self.state = ParserState::FrameStreamId2;
        }
        context.mark();
        Ok(ParserValue::Continue)
    }

    /// Hand a frame header to the handler's `on_frame`, and record it.
    fn report_frame(&mut self, length: u32, frame_type: u8, flags: u8, stream_id: u32) -> (r: bool)
        requires
            length < 0x1000000,
            stream_id < 0x80000000,
        ensures
            *final(self) == (Parser {
                handler: final(self).handler,
                frames: final(self).frames,
                ..*old(self)
            }),
            final(self).frames@ == old(self).frames@.push((length, frame_type, flags, stream_id)),
    {
        let r = self.handler.on_frame(length, frame_type, flags, stream_id);
        proof {
            self.frames@ = self.frames@.push((length, frame_type, flags, stream_id));
        }
        r
    }

    /// The frame header is complete: choose the state for the payload by frame type and flags,
    /// and hand the header to the handler.
    fn frame_end(&mut self, context: &mut ByteStream) -> (r: Result<ParserValue, ParserError>)
        requires
            old(context).wf(),
            old(context).mark_index == old(context).stream_index,
            old(self).state == ParserState::FrameEnd,
        ensures
            Self::step_post(*old(self), *final(self), *old(context), *final(context), r),
            final(self).state == frame_state(
                (old(self).bit_data32a & 0xFF) as u8,
                old(self).bit_data8a,
            ),
            final(self).bit_data32a == old(self).bit_data32a,
            final(self).bit_data32b == old(self).bit_data32b,
            final(self).bit_data8a == old(self).bit_data8a,
            final(self).bit_data8b == old(self).bit_data8b,
            final(context).stream_index == old(context).stream_index,
            r == go_on() || r == Ok::<ParserValue, ParserError>(
                ParserValue::Exit(Success::Callback(old(context).stream_index)),
            ),
            final(self).spec_frames() == old(self).spec_frames().push(frame_args(*old(self))),
    {
        let frame_type = low_byte(self.bit_data32a);
        self.state = next_frame_state(frame_type, self.bit_data8a);
        let data = self.bit_data32a;
        let id = self.bit_data32b;
        let length = data >> 8;
        let stream_id = id & 0x7FFFFFFF;
        assert(data >> 8 < 0x1000000 && id & 0x7FFFFFFF < 0x80000000) by (bit_vector);
        let flags = self.bit_data8a;
        if self.report_frame(length, frame_type, flags, stream_id) {
            context.mark();
            Ok(ParserValue::Continue)
        } else {
            Ok(ParserValue::Exit(Success::Callback(context.stream_index)))
        }
    }


    /// Skip the padding that follows a payload: as many bytes as the flags byte holds.
    fn frame_padding(&mut self, context: &mut ByteStream) -> (r: Result<ParserValue, ParserError>)
        requires
            old(context).wf(),
            old(context).mark_index == old(context).stream_index,
            old(self).state == ParserState::FramePadding,
        ensures
            Self::step_post(*old(self), *final(self), *old(context), *final(context), r),
            old(context).spec_available() == 0 ==> *final(self) == *old(self)
                && *final(context) == *old(context) && r == eos_at(old(context).stream_index),
            0 < old(context).spec_available() && old(self).bit_data8a <= old(
                context,
            ).spec_available() ==> *final(self) == (Parser {
                state: ParserState::FrameLength1,
                ..*old(self)
            }) && final(context).stream_index == old(context).stream_index + old(self).bit_data8a
                && r == go_on(),
            0 < old(context).spec_available() < old(self).bit_data8a ==> *final(self) == (Parser {
                bit_data8a: (old(self).bit_data8a - old(context).spec_available()) as u8,
                ..*old(self)
            }) && final(context).stream_index == final(context).stream@.len() && r == eos_at(
                final(context).stream_index,
            ),
    {
        if context.available() == 0 {
            return Self::eos(context);
        }
        let available = context.available();
        if available >= self.bit_data8a as usize {
            // consume remaining padding
            context.jump(self.bit_data8a as usize);
            self.state = ParserState::FrameLength1;
            context.mark();
            Ok(ParserValue::Continue)
        } else {
            // consume remaining stream
            self.bit_data8a = self.bit_data8a - (available as u8);
            context.jump(available);
            Ok(ParserValue::Exit(Success::Eos(context.stream_index)))
        }
    }

    // ---------------------------------------------------------------------------------------------
    // DATA STATES
    // ---------------------------------------------------------------------------------------------

    /// Pad length of a padded data frame: it is added into the low byte, and the payload length
    /// goes down by one, wrapping.
    fn data_pad_length(&mut self, context: &mut ByteStream) -> (r: Result<ParserValue, ParserError>)
        requires
            old(context).wf(),
            old(context).mark_index == old(context).stream_index,
            old(self).state == ParserState::DataPadLength,
        ensures
            Self::step_post(*old(self), *final(self), *old(context), *final(context), r),
            old(context).spec_available() == 0 ==> *final(self) == *old(self)
                && *final(context) == *old(context) && r == eos_at(old(context).stream_index),
            old(context).spec_available() > 0 ==> {
                let b = old(context).stream@[old(context).stream_index as int];
                &&& *final(self) == (Parser {
                    bit_data32a: dec_payload(old(self).bit_data32a | (b as u32), 1),
                    state: ParserState::DataDataWithPadding,
                    ..*old(self)
                })
                &&& final(context).stream_index == old(context).stream_index + 1
                &&& r == go_on()
            },
    {
        if context.available() == 0 {
            return Self::eos(context);
        }
        let b = Self::get_u8(context);
        self.bit_data32a = dec_payload_length(self.bit_data32a | (b as u32), 1);
        self.state = ParserState::DataDataWithPadding;
        context.mark();
        Ok(ParserValue::Continue)
    }

    /// Hand payload data to the handler, `on_unsupported` when `unsupported` is set and `on_data`
    /// otherwise, with `finished` telling whether it is the last of its frame's data; and record
    /// it.
    fn report_payload(&mut self, unsupported: bool, data: &[u8], finished: bool) -> (r: bool)
        ensures
            *final(self) == (Parser {
                handler: final(self).handler,
                payloads: final(self).payloads,
                ..*old(self)
            }),
            final(self).payloads@ == old(self).payloads@.push((unsupported, data@, finished)),
    {
        let r = if unsupported {
            self.handler.on_unsupported(data, finished)
        } else {
            self.handler.on_data(data, finished)
        };
        proof {
            self.payloads@ = self.payloads@.push((unsupported, data@, finished));
        }
        r
    }

    /// Hand the payload data of the current frame to the handler, `on_unsupported` when
    /// `unsupported` is set and `on_data` otherwise: all of what is left of it, without its
    /// padding, and then go on with `next`; or all of the stream, in which case more payload is
    /// expected.
    fn payload_data(
        &mut self,
        context: &mut ByteStream,
        unsupported: bool,
        next: ParserState,
    ) -> (r: Result<ParserValue, ParserError>)
        requires
            old(context).wf(),
            old(context).mark_index == old(context).stream_index,
            old(context).spec_available() > 0,
            state_rank(old(self).state) == 2,
            is_payload_state(old(self).state),
            state_rank(next) < 2,
            !(next is Dead),
            !(next is Finished),
        ensures
            Self::step_post(*old(self), *final(self), *old(context), *final(context), r),
            Self::payload_post(
                *old(self),
                *final(self),
                *old(context),
                *final(context),
                r,
                next,
                unsupported,
            ),
    {
        let remaining = (self.bit_data32a >> 8).wrapping_sub(self.bit_data32a & 0xFF);
        let available = context.available();
        if available >= remaining as usize {
            // collect remaining data
            context.jump(remaining as usize);
            self.bit_data32a = dec_payload_length(self.bit_data32a, remaining);
            self.state = next;
            let go_on = self.report_payload(unsupported, context.slice(), true);
            if go_on {
                context.mark();
                Ok(ParserValue::Continue)
            } else {
                Ok(ParserValue::Exit(Success::Callback(context.stream_index)))
            }
        } else {
            // collect remaining slice
            self.bit_data32a = dec_payload_length(self.bit_data32a, available as u32);
            context.jump(available);
            let go_on = self.report_payload(unsupported, context.slice(), false);
            if go_on {
                Ok(ParserValue::Exit(Success::Eos(context.stream_index)))
            } else {
                Ok(ParserValue::Exit(Success::Callback(context.stream_index)))
            }
        }
    }

    /// Data of a padded data frame, followed by its padding.
    fn data_data_with_padding(&mut self, context: &mut ByteStream) -> (r: Result<
        ParserValue,
        ParserError,
    >)
        requires
            old(context).wf(),
            old(context).mark_index == old(context).stream_index,
            old(self).state == ParserState::DataDataWithPadding,
        ensures
            Self::step_post(*old(self), *final(self), *old(context), *final(context), r),
            old(context).spec_available() == 0 ==> *final(self) == *old(self)
                && *final(context) == *old(context) && r == eos_at(old(context).stream_index),
            old(context).spec_available() > 0 ==> Self::payload_post(
                *old(self),
                *final(self),
                *old(context),
                *final(context),
                r,
                ParserState::FramePadding,
                false,
            ),
    {
        if context.available() == 0 {
            return Self::eos(context);
        }
        self.payload_data(context, false, ParserState::FramePadding)
    }

    /// Data of a data frame without padding.
    fn data_data_without_padding(&mut self, context: &mut ByteStream) -> (r: Result<
        ParserValue,
        ParserError,
    >)
        requires
            old(context).wf(),
            old(context).mark_index == old(context).stream_index,
            old(self).state == ParserState::DataDataWithoutPadding,
        ensures
            Self::step_post(*old(self), *final(self), *old(context), *final(context), r),
            old(context).spec_available() == 0 ==> *final(self) == *old(self)
                && *final(context) == *old(context) && r == eos_at(old(context).stream_index),
            old(context).spec_available() > 0 ==> Self::payload_post(
                *old(self),
                *final(self),
                *old(context),
                *final(context),
                r,
                ParserState::FrameLength1,
                false,
            ),
    {
        if context.available() == 0 {
            return Self::eos(context);
        }
        self.payload_data(context, false, ParserState::FrameLength1)
    }

    /// Payload of a padded frame of an unsupported type, followed by its padding.
    fn unsupported_with_padding(&mut self, context: &mut ByteStream) -> (r: Result<
        ParserValue,
        ParserError,
    >)
        requires
            old(context).wf(),
            old(context).mark_index == old(context).stream_index,
            old(self).state == ParserState::UnsupportedWithPadding,
        ensures
            Self::step_post(*old(self), *final(self), *old(context), *final(context), r),
            old(context).spec_available() == 0 ==> *final(self) == *old(self)
                && *final(context) == *old(context) && r == eos_at(old(context).stream_index),
            old(context).spec_available() > 0 ==> Self::payload_post(
                *old(self),
                *final(self),
                *old(context),
                *final(context),
                r,
                ParserState::FramePadding,
                true,
            ),
    {
        if context.available() == 0 {
            return Self::eos(context);
        }
        self.payload_data(context, true, ParserState::FramePadding)
    }

    /// Payload of a frame of an unsupported type without padding.
    fn unsupported_without_padding(&mut self, context: &mut ByteStream) -> (r: Result<
        ParserValue,
        ParserError,
    >)
        requires
            old(context).wf(),
            old(context).mark_index == old(context).stream_index,
            old(self).state == ParserState::UnsupportedWithoutPadding,
        ensures
            Self::step_post(*old(self), *final(self), *old(context), *final(context), r),
            old(context).spec_available() == 0 ==> *final(self) == *old(self)
                && *final(context) == *old(context) && r == eos_at(old(context).stream_index),
            old(context).spec_available() > 0 ==> Self::payload_post(
                *old(self),
                *final(self),
                *old(context),
                *final(context),
                r,
                ParserState::FrameLength1,
                true,
            ),
    {
        if context.available() == 0 {
            return Self::eos(context);
        }
        self.payload_data(context, true, ParserState::FrameLength1)
    }


    // ---------------------------------------------------------------------------------------------
    // UNPARSED, DEAD AND FINISHED STATES
    // ---------------------------------------------------------------------------------------------

    /// A state whose payload parsing is not implemented: stop with `Success::Eos`, consuming
    /// nothing.
    fn unparsed(&mut self, context: &mut ByteStream) -> (r: Result<ParserValue, ParserError>)
        requires
            old(context).wf(),
            is_unparsed_state(old(self).state),
        ensures
            Self::step_post(*old(self), *final(self), *old(context), *final(context), r),
            *final(self) == *old(self),
            *final(context) == *old(context),
            r == eos_at(old(context).stream_index),
    {
        Ok(ParserValue::Exit(Success::Eos(context.stream_index)))
    }

    /// The parser is dead.
    fn dead(&mut self, context: &mut ByteStream) -> (r: Result<ParserValue, ParserError>)
        requires
            old(context).wf(),
            old(self).state == ParserState::Dead,
        ensures
            Self::step_post(*old(self), *final(self), *old(context), *final(context), r),
            *final(self) == *old(self),
            *final(context) == *old(context),
            r == Err::<ParserValue, ParserError>(ParserError::Dead),
    {
        Err(ParserError::Dead)
    }

    /// Parsing has finished.
    fn finished(&mut self, context: &mut ByteStream) -> (r: Result<ParserValue, ParserError>)
        requires
            old(context).wf(),
            old(self).state == ParserState::Finished,
        ensures
            Self::step_post(*old(self), *final(self), *old(context), *final(context), r),
            *final(self) == *old(self),
            *final(context) == *old(context),
            r == Ok::<ParserValue, ParserError>(
                ParserValue::Exit(Success::Finished(old(context).stream_index)),
            ),
    {
        Ok(ParserValue::Exit(Success::Finished(context.stream_index)))
    }

    /// Execute the state function of the current state.
    fn dispatch(&mut self, context: &mut ByteStream) -> (r: Result<ParserValue, ParserError>)
        requires
            old(context).wf(),
            old(context).mark_index == old(context).stream_index,
        ensures
            Self::step_post(*old(self), *final(self), *old(context), *final(context), r),
            Self::header_step(*old(self), *final(self), *old(context), *final(context), r),
            old(self).state is FrameEnd ==> final(self).spec_frames() == old(self).spec_frames().push(
                frame_args(*old(self)),
            ),
            !(old(self).state is FrameEnd) ==> final(self).spec_frames() == old(self).spec_frames(),
            old(self).state is DataPadLength && old(context).spec_available() > 0 ==> {
                let b = old(context).stream@[old(context).stream_index as int];
                &&& *final(self) == (Parser {
                    bit_data32a: dec_payload(old(self).bit_data32a | (b as u32), 1),
                    state: ParserState::DataDataWithPadding,
                    ..*old(self)
                })
                &&& final(context).stream_index == old(context).stream_index + 1
                &&& r == go_on()
            },
            old(self).state is DataDataWithoutPadding && old(context).spec_available() > 0
                ==> Self::payload_post(
                *old(self),
                *final(self),
                *old(context),
                *final(context),
                r,
                ParserState::FrameLength1,
                false,
            ),
            old(self).state is DataDataWithPadding && old(context).spec_available() > 0
                ==> Self::payload_post(
                *old(self),
                *final(self),
                *old(context),
                *final(context),
                r,
                ParserState::FramePadding,
                false,
            ),
    {
        match self.state {
            ParserState::FrameLength1 => self.frame_length1(context),
            ParserState::FrameLength2 => self.frame_length2(context),
            ParserState::FrameLength3 => self.frame_length3(context),
            ParserState::FrameType => self.frame_type(context),
            ParserState::FrameFlags => self.frame_flags(context),
            ParserState::FrameStreamId1 => self.frame_stream_id1(context),
            ParserState::FrameStreamId2 => self.frame_stream_id2(context),
            ParserState::FrameStreamId3 => self.frame_stream_id3(context),
            ParserState::FrameStreamId4 => self.frame_stream_id4(context),
            ParserState::FrameEnd => self.frame_end(context),
            ParserState::FramePadding => self.frame_padding(context),
            ParserState::DataPadLength => self.data_pad_length(context),
            ParserState::DataDataWithoutPadding => self.data_data_without_padding(context),
            ParserState::DataDataWithPadding => self.data_data_with_padding(context),
            ParserState::UnsupportedWithPadding => self.unsupported_with_padding(context),
            ParserState::UnsupportedWithoutPadding => self.unsupported_without_padding(context),
            ParserState::Dead => self.dead(context),
            ParserState::Finished => self.finished(context),
            _ => self.unparsed(context),
        }
    }

    /// Resume parsing an additional slice of data.
    ///
    /// Processing stops at the end of `stream`, when a callback returns `false`
    /// (`Success::Callback`), or in a state whose payload parsing is not implemented
    /// (`Success::Eos`, with the bytes processed so far). A dead parser only ever returns
    /// `ParserError::Dead`, and a finished one `Success::Finished(0)`. The byte count grows by the
    /// amount processed. From the first frame state, a stream of at least nine bytes has its
    /// frame header handed to `on_frame` first; a stream of exactly nine leaves the parser
    /// holding that header, in the state its type and flags choose.
    pub fn resume(&mut self, stream: &[u8]) -> (r: Result<Success, ParserError>)
        requires
            old(self).spec_byte_count() + stream@.len() <= usize::MAX,
        ensures
            resume_post(*old(self), *final(self), stream@, r),
            old(self).spec_state() == ParserState::FrameLength1 && stream@.len() == 9 ==> {
                &&& header_parsed(*final(self), stream@)
                &&& final(self).spec_frames() == old(self).spec_frames().push(
                    frame_args(*final(self)),
                )
                &&& (r == Ok::<Success, ParserError>(Success::Eos(9)) || r == Ok::<
                    Success,
                    ParserError,
                >(Success::Callback(9)))
            },
            old(self).spec_state() == ParserState::FrameLength1 && stream@.len() >= 9 ==> {
                &&& final(self).spec_frames().len() > old(self).spec_frames().len()
                &&& final(self).spec_frames()[old(self).spec_frames().len() as int]
                    == first_frame_header(stream@)
                &&& r matches Ok(x) && x.spec_length() >= 9
            },
            old(self).spec_state() == ParserState::FrameLength1 && starts_data_frame(stream@) ==> {
                ||| final(self).spec_payloads().len() > old(self).spec_payloads().len()
                    && final(self).spec_payloads()[old(self).spec_payloads().len() as int]
                    == first_data_payload(stream@)
                ||| r == Ok::<Success, ParserError>(Success::Callback(9))
                    && final(self).spec_payloads() == old(self).spec_payloads()
            },
    {
        let mut context = ByteStream::new(stream);
        loop
            invariant
                context.wf(),
                context.stream@ == stream@,
                context.mark_index == context.stream_index,
                self.byte_count == old(self).byte_count,
                old(self).byte_count + stream@.len() <= usize::MAX,
                self.state is Dead <==> old(self).state is Dead,
                old(self).state is Dead ==> context.stream_index == 0,
                old(self).state is Finished ==> self.state is Finished && context.stream_index
                    == 0,
                !(old(self).state is Finished) ==> !(self.state is Finished),
                old(self).state is FrameLength1 && stream@.len() == 9 ==> Self::header_progress(
                    *self,
                    context,
                    stream@,
                    old(self).frames@,
                ),
                old(self).state is FrameLength1 && stream@.len() >= 9 ==> Self::header_progress(
                    *self,
                    context,
                    stream@,
                    old(self).frames@,
                ) || Self::header_done(*self, context, stream@, old(self).frames@),
                old(self).state is FrameLength1 && starts_data_frame(stream@) ==> Self::data_phase(
                    *self,
                    context,
                    stream@,
                    old(self).frames@,
                    old(self).payloads@,
                ),
            decreases step_measure(self.state, context),
        {
            proof {
                if old(self).state is FrameLength1 && stream@.len() >= 9 {
                    let w = be_u32(stream@, 0) as u32;
                    lemma_frame_word(stream@[0], stream@[1], stream@[2], stream@[3], w);
                    let id = be_u32(stream@, 5) as u32;
                    assert(0u32 | id == id) by (bit_vector);
                    if Self::header_progress(*self, context, stream@, old(self).frames@)
                        && context.stream_index == 9 && !(self.state is FrameEnd) {
                        assert(frame_args(*self) == first_frame_header(stream@));
                        assert(Self::header_done(*self, context, stream@, old(self).frames@));
                    }
                }
            }
            let ghost p_before = *self;
            let r = self.dispatch(&mut context);
            proof {
                if old(self).state is FrameLength1 && stream@.len() >= 9 && Self::header_done(
                    p_before,
                    context,
                    stream@,
                    old(self).frames@,
                ) {
                    assert(self.frames@[old(self).frames@.len() as int] == p_before.frames@[old(
                        self,
                    ).frames@.len() as int]);
                }
                if old(self).state is FrameLength1 && starts_data_frame(stream@) {
                    let w = be_u32(stream@, 0) as u32;
                    let n0 = old(self).payloads@.len() as int;
                    if n0 < p_before.payloads@.len() {
                        assert(self.payloads@[n0] == p_before.payloads@[n0]);
                    } else if p_before.state is DataDataWithPadding {
                        lemma_pad_length(w, stream@[9]);
                    } else if p_before.state is DataDataWithoutPadding {
                        assert(remaining_data(w) == w >> 8);
                    }
                }
            }
            match r {
                Ok(ParserValue::Continue) => {},
                Ok(ParserValue::Exit(success)) => {
                    self.byte_count = self.byte_count + context.stream_index;
                    if let Success::Finished(_) = success {
                        self.state = ParserState::Finished;
                    }
                    return Ok(success);
                },
                Err(error) => {
                    self.byte_count = self.byte_count + context.stream_index;
                    self.state = ParserState::Dead;
                    return Err(error);
                },
            }
        }
    }

    /// Retrieve the current state.
    pub fn state(&self) -> (r: ParserState)
        ensures
            r == self.spec_state(),
    {
        self.state
    }
}

} // verus!
