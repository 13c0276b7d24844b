//! HTTP 2.x frame values, states, errors, the callback interface, and the frame parser.

pub mod parser;

pub use self::parser::Parser;

use crate::text::{append_bool, append_decimal, bool_text, decimal};
use vstd::prelude::*;

verus! {

// -------------------------------------------------------------------------------------------------
// ERROR CODES
// -------------------------------------------------------------------------------------------------

/// Cancel error code.
pub const E_CANCEL: u8 = 0x8;

/// Compression error code.
pub const E_COMPRESSION: u8 = 0x9;

/// Connect error code.
pub const E_CONNECT: u8 = 0xA;

/// Enhance your calm error code.
pub const E_ENHANCE_YOUR_CALM: u8 = 0xB;

/// Flow control error code.
pub const E_FLOW_CONTROL: u8 = 0x3;

/// Frame size error code.
pub const E_FRAME_SIZE: u8 = 0x6;

/// HTTP/1.1 required error code.
pub const E_HTTP_1_1_REQUIRED: u8 = 0xD;

/// Inadequate security error code.
pub const E_INADEQUATE_SECURITY: u8 = 0xC;

/// No error code.
pub const E_NO_ERROR: u8 = 0x0;

/// Internal error code.
pub const E_INTERNAL: u8 = 0x2;

/// Protocol error code.
pub const E_PROTOCOL: u8 = 0x1;

/// Refused stream error code.
pub const E_REFUSED_STREAM: u8 = 0x7;

/// Settings timeout error code.
pub const E_SETTINGS_TIMEOUT: u8 = 0x4;

/// Stream closed error code.
pub const E_STREAM_CLOSED: u8 = 0x5;

/// Unsupported error code.
pub const E_UNSUPPORTED: u8 = 0xFF;

// -------------------------------------------------------------------------------------------------
// FLAGS
// -------------------------------------------------------------------------------------------------

/// End headers flag.
pub const FL_END_HEADERS: u8 = 0x4;

/// End stream flag.
pub const FL_END_STREAM: u8 = 0x1;

/// Padded flag.
pub const FL_PADDED: u8 = 0x8;

/// Priority flag.
pub const FL_PRIORITY: u8 = 0x20;

// -------------------------------------------------------------------------------------------------
// FRAME TYPES
// -------------------------------------------------------------------------------------------------

/// Continuation frame type.
pub const FR_CONTINUATION: u8 = 0x9;

/// Data frame type.
pub const FR_DATA: u8 = 0x0;

/// Go away frame type.
pub const FR_GO_AWAY: u8 = 0x7;

/// Headers frame type.
pub const FR_HEADERS: u8 = 0x1;

/// Ping frame type.
pub const FR_PING: u8 = 0x6;

/// Priority frame type.
pub const FR_PRIORITY: u8 = 0x2;

/// Push promise frame type.
pub const FR_PUSH_PROMISE: u8 = 0x5;

/// Reset stream frame type.
pub const FR_RST_STREAM: u8 = 0x3;

/// Settings frame type.
pub const FR_SETTINGS: u8 = 0x4;

/// Window update frame type.
pub const FR_WINDOW_UPDATE: u8 = 0x8;

/// Unsupported frame type.
pub const FR_UNSUPPORTED: u8 = 0xFF;

// -------------------------------------------------------------------------------------------------
// SETTINGS
// -------------------------------------------------------------------------------------------------

/// Enable push setting.
pub const S_ENABLE_PUSH: u16 = 0x2;

/// Header table size setting.
pub const S_HEADER_TABLE_SIZE: u16 = 0x1;

/// Initial window size setting.
pub const S_INITIAL_WINDOW_SIZE: u16 = 0x4;

/// Maximum concurrent streams setting.
pub const S_MAX_CONCURRENT_STREAMS: u16 = 0x3;

/// Maximum frame size setting.
pub const S_MAX_FRAME_SIZE: u16 = 0x5;

/// Maximum header list size setting.
pub const S_MAX_HEADER_LIST_SIZE: u16 = 0x6;

/// Unsupported setting.
pub const S_UNSUPPORTED: u16 = 0xFF;

// -------------------------------------------------------------------------------------------------

/// Error codes.
#[derive(Clone, Copy, Debug, PartialEq, Eq, Structural)]
pub enum ErrorCode {
    /// Cancel error.
    Cancel,
    /// Compression error.
    Compression,
    /// Connect error.
    Connect,
    /// Enhance your calm error.
    EnhanceYourCalm,
    /// Flow control error.
    FlowControl,
    /// Frame size error.
    FrameSize,
    /// HTTP/1.1 required error.
    Http11Required,
    /// Inadequate security error.
    InadequateSecurity,
    /// No error.
    NoError,
    /// Internal error.
    Internal,
    /// Protocol error.
    Protocol,
    /// Refused stream error.
    RefusedStream,
    /// Settings timeout error.
    SettingsTimeout,
    /// Stream closed error.
    StreamClosed,
    /// Unsupported error.
    Unsupported,
}

/// The byte value of an error code.
pub open spec fn error_code_byte(e: ErrorCode) -> u8 {
    match e {
        ErrorCode::Cancel => E_CANCEL,
        ErrorCode::Compression => E_COMPRESSION,
        ErrorCode::Connect => E_CONNECT,
        ErrorCode::EnhanceYourCalm => E_ENHANCE_YOUR_CALM,
        ErrorCode::FlowControl => E_FLOW_CONTROL,
        ErrorCode::FrameSize => E_FRAME_SIZE,
        ErrorCode::Http11Required => E_HTTP_1_1_REQUIRED,
        ErrorCode::InadequateSecurity => E_INADEQUATE_SECURITY,
        ErrorCode::Internal => E_INTERNAL,
        ErrorCode::NoError => E_NO_ERROR,
        ErrorCode::Protocol => E_PROTOCOL,
        ErrorCode::RefusedStream => E_REFUSED_STREAM,
        ErrorCode::SettingsTimeout => E_SETTINGS_TIMEOUT,
        ErrorCode::StreamClosed => E_STREAM_CLOSED,
        ErrorCode::Unsupported => E_UNSUPPORTED,
    }
}

/// The error code named by a byte: the code whose byte value it is, or `Unsupported` for a byte
/// that names no code.
pub open spec fn error_code_of(byte: u8) -> ErrorCode {
    if byte == E_CANCEL {
        ErrorCode::Cancel
    } else if byte == E_COMPRESSION {
        ErrorCode::Compression
    } else if byte == E_CONNECT {
        ErrorCode::Connect
    } else if byte == E_ENHANCE_YOUR_CALM {
        ErrorCode::EnhanceYourCalm
    } else if byte == E_FLOW_CONTROL {
        ErrorCode::FlowControl
    } else if byte == E_FRAME_SIZE {
        ErrorCode::FrameSize
    } else if byte == E_HTTP_1_1_REQUIRED {
        ErrorCode::Http11Required
    } else if byte == E_INADEQUATE_SECURITY {
        ErrorCode::InadequateSecurity
    } else if byte == E_INTERNAL {
        ErrorCode::Internal
    } else if byte == E_NO_ERROR {
        ErrorCode::NoError
    } else if byte == E_PROTOCOL {
        ErrorCode::Protocol
    } else if byte == E_REFUSED_STREAM {
        ErrorCode::RefusedStream
    } else if byte == E_SETTINGS_TIMEOUT {
        ErrorCode::SettingsTimeout
    } else if byte == E_STREAM_CLOSED {
        ErrorCode::StreamClosed
    } else {
        ErrorCode::Unsupported
    }
}

impl ErrorCode {
    /// Create a new `ErrorCode` from a `u8`.
    pub fn from_u8(byte: u8) -> (r: ErrorCode)
        ensures
            r == error_code_of(byte),
    {
        if byte == E_CANCEL {
            ErrorCode::Cancel
        } else if byte == E_COMPRESSION {
            ErrorCode::Compression
        } else if byte == E_CONNECT {
            ErrorCode::Connect
        } else if byte == E_ENHANCE_YOUR_CALM {
            ErrorCode::EnhanceYourCalm
        } else if byte == E_FLOW_CONTROL {
            ErrorCode::FlowControl
        } else if byte == E_FRAME_SIZE {
            ErrorCode::FrameSize
        } else if byte == E_HTTP_1_1_REQUIRED {
            ErrorCode::Http11Required
        } else if byte == E_INADEQUATE_SECURITY {
            ErrorCode::InadequateSecurity
        } else if byte == E_INTERNAL {
            ErrorCode::Internal
        } else if byte == E_NO_ERROR {
            ErrorCode::NoError
        } else if byte == E_PROTOCOL {
            ErrorCode::Protocol
        } else if byte == E_REFUSED_STREAM {
            ErrorCode::RefusedStream
        } else if byte == E_SETTINGS_TIMEOUT {
            ErrorCode::SettingsTimeout
        } else if byte == E_STREAM_CLOSED {
            ErrorCode::StreamClosed
        } else {
            ErrorCode::Unsupported
        }
    }

    /// Convert this error code to byte value.
    pub fn as_byte(&self) -> (r: u8)
        ensures
            r == error_code_byte(*self),
    {
        match *self {
            ErrorCode::Cancel => E_CANCEL,
            ErrorCode::Compression => E_COMPRESSION,
            ErrorCode::Connect => E_CONNECT,
            ErrorCode::EnhanceYourCalm => E_ENHANCE_YOUR_CALM,
            ErrorCode::FlowControl => E_FLOW_CONTROL,
            ErrorCode::FrameSize => E_FRAME_SIZE,
            ErrorCode::Http11Required => E_HTTP_1_1_REQUIRED,
            ErrorCode::InadequateSecurity => E_INADEQUATE_SECURITY,
            ErrorCode::Internal => E_INTERNAL,
            ErrorCode::NoError => E_NO_ERROR,
            ErrorCode::Protocol => E_PROTOCOL,
            ErrorCode::RefusedStream => E_REFUSED_STREAM,
            ErrorCode::SettingsTimeout => E_SETTINGS_TIMEOUT,
            ErrorCode::StreamClosed => E_STREAM_CLOSED,
            ErrorCode::Unsupported => E_UNSUPPORTED,
        }
    }

    /// Indicates that this an `ErrorCode::Cancel`.
    pub fn is_cancel(&self) -> (r: bool)
        ensures
            r == (*self == ErrorCode::Cancel),
    {
        *self == ErrorCode::Cancel
    }

    /// Indicates that this an `ErrorCode::Compression`.
    pub fn is_compression(&self) -> (r: bool)
        ensures
            r == (*self == ErrorCode::Compression),
    {
        *self == ErrorCode::Compression
    }

    /// Indicates that this an `ErrorCode::Connect`.
    pub fn is_connect(&self) -> (r: bool)
        ensures
            r == (*self == ErrorCode::Connect),
    {
        *self == ErrorCode::Connect
    }

    /// Indicates that this an `ErrorCode::EnhanceYourCalm`.
    pub fn is_enhance_your_calm(&self) -> (r: bool)
        ensures
            r == (*self == ErrorCode::EnhanceYourCalm),
    {
        *self == ErrorCode::EnhanceYourCalm
    }

    /// Indicates that this an `ErrorCode::FlowControl`.
    pub fn is_flow_control(&self) -> (r: bool)
        ensures
            r == (*self == ErrorCode::FlowControl),
    {
        *self == ErrorCode::FlowControl
    }

    /// Indicates that this an `ErrorCode::FrameSize`.
    pub fn is_frame_size(&self) -> (r: bool)
        ensures
            r == (*self == ErrorCode::FrameSize),
    {
        *self == ErrorCode::FrameSize
    }

    /// Indicates that this an `ErrorCode::Http11Required`.
    pub fn is_http_1_1_required(&self) -> (r: bool)
        ensures
            r == (*self == ErrorCode::Http11Required),
    {
        *self == ErrorCode::Http11Required
    }

    /// Indicates that this an `ErrorCode::InadequateSecurity`.
    pub fn is_inadequate_security(&self) -> (r: bool)
        ensures
            r == (*self == ErrorCode::InadequateSecurity),
    {
        *self == ErrorCode::InadequateSecurity
    }

    /// Indicates that this an `ErrorCode::Internal`.
    pub fn is_internal(&self) -> (r: bool)
        ensures
            r == (*self == ErrorCode::Internal),
    {
        *self == ErrorCode::Internal
    }

    /// Indicates that this an `ErrorCode::NoError`.
    pub fn is_no_error(&self) -> (r: bool)
        ensures
            r == (*self == ErrorCode::NoError),
    {
        *self == ErrorCode::NoError
    }

    /// Indicates that this an `ErrorCode::Protocol`.
    pub fn is_protocol(&self) -> (r: bool)
        ensures
            r == (*self == ErrorCode::Protocol),
    {
        *self == ErrorCode::Protocol
    }

    /// Indicates that this an `ErrorCode::RefusedStream`.
    pub fn is_refused_stream(&self) -> (r: bool)
        ensures
            r == (*self == ErrorCode::RefusedStream),
    {
        *self == ErrorCode::RefusedStream
    }

    /// Indicates that this an `ErrorCode::SettingsTimeout`.
    pub fn is_settings_timeout(&self) -> (r: bool)
        ensures
            r == (*self == ErrorCode::SettingsTimeout),
    {
        *self == ErrorCode::SettingsTimeout
    }

    /// Indicates that this an `ErrorCode::StreamClosed`.
    pub fn is_stream_closed(&self) -> (r: bool)
        ensures
            r == (*self == ErrorCode::StreamClosed),
    {
        *self == ErrorCode::StreamClosed
    }
}

/// An error code converted to its byte value and back is the same error code.
pub proof fn lemma_error_code_round_trip(e: ErrorCode)
    ensures
        error_code_of(error_code_byte(e)) == e,
{
}

/// A byte converted to an error code and back is the same byte when it names an error code
/// (`0x0` through `0xD`), and the unsupported code's byte `0xFF` otherwise.
pub proof fn lemma_error_code_byte_round_trip(byte: u8)
    ensures
        byte <= 0xD ==> error_code_byte(error_code_of(byte)) == byte,
        byte > 0xD ==> error_code_byte(error_code_of(byte)) == E_UNSUPPORTED,
{
}

// -------------------------------------------------------------------------------------------------

/// Flags.
#[derive(Clone, Copy, Debug, PartialEq, Eq, Structural)]
pub struct Flags {
    flags: u8,
}

/// Indicates that every bit of `flag` is set in `flags`.
pub open spec fn has_flag(flags: u8, flag: u8) -> bool {
    flags & flag == flag
}

/// The text of flags: `Flags(EndHeaders: B, EndStream: B, Padded: B, Priority: B)`, each `B`
/// `true` when the flag is set.
pub open spec fn flags_text(flags: u8) -> Seq<char> {
    "Flags(EndHeaders: "@ + bool_text(has_flag(flags, FL_END_HEADERS)) + ", EndStream: "@
        + bool_text(has_flag(flags, FL_END_STREAM)) + ", Padded: "@ + bool_text(
        has_flag(flags, FL_PADDED),
    ) + ", Priority: "@ + bool_text(has_flag(flags, FL_PRIORITY)) + ")"@
}

impl Flags {
    /// The byte value of these flags.
    pub closed spec fn spec_byte(&self) -> u8 {
        self.flags
    }

    /// Create a new `Flags` from a `u8`.
    pub fn from_u8(byte: u8) -> (r: Flags)
        ensures
            r.spec_byte() == byte,
    {
        Flags { flags: byte }
    }

    /// Convert this flags to its byte value.
    pub fn as_byte(&self) -> (r: u8)
        ensures
            r == self.spec_byte(),
    {
        self.flags
    }

    /// Indicates that the end headers flag has been set.
    pub fn is_end_headers(&self) -> (r: bool)
        ensures
            r == has_flag(self.spec_byte(), FL_END_HEADERS),
    {
        self.flags & FL_END_HEADERS == FL_END_HEADERS
    }

    /// Indicates that the end stream flag has been set.
    pub fn is_end_stream(&self) -> (r: bool)
        ensures
            r == has_flag(self.spec_byte(), FL_END_STREAM),
    {
        self.flags & FL_END_STREAM == FL_END_STREAM
    }

    /// Indicates that the padded flag has been set.
    pub fn is_padded(&self) -> (r: bool)
        ensures
            r == has_flag(self.spec_byte(), FL_PADDED),
    {
        self.flags & FL_PADDED == FL_PADDED
    }

    /// Indicates that the priority flag has been set.
    pub fn is_priority(&self) -> (r: bool)
        ensures
            r == has_flag(self.spec_byte(), FL_PRIORITY),
    {
        self.flags & FL_PRIORITY == FL_PRIORITY
    }

    /// Append the text of these flags to `s`.
    fn append_text(&self, s: &mut String)
        ensures
            final(s)@ == old(s)@ + flags_text(self.spec_byte()),
    {
        s.append("Flags(EndHeaders: ");
        append_bool(s, self.is_end_headers());
        s.append(", EndStream: ");
        append_bool(s, self.is_end_stream());
        s.append(", Padded: ");
        append_bool(s, self.is_padded());
        s.append(", Priority: ");
        append_bool(s, self.is_priority());
        s.append(")");
        assert(final(s)@ =~= old(s)@ + flags_text(self.spec_byte()));
    }

    /// The text of these flags, as displayed and as debugged: `Flags(EndHeaders: true, ...)`.
    pub fn message(&self) -> (r: String)
        ensures
            r@ == flags_text(self.spec_byte()),
    {
        let mut s = String::new();
        self.append_text(&mut s);
        assert(s@ =~= flags_text(self.spec_byte()));
        s
    }
}

// -------------------------------------------------------------------------------------------------

/// Frame format.
#[derive(Clone, Copy, Debug, PartialEq, Eq, Structural)]
pub struct FrameFormat {
    flags: u8,
    payload_length_frame_type: u32,
    stream_id: u32,
}

impl FrameFormat {
    /// The frame flags byte.
    pub closed spec fn spec_flags(&self) -> u8 {
        self.flags
    }

    /// The frame type byte.
    pub closed spec fn spec_frame_type(&self) -> u8 {
        (self.payload_length_frame_type & 0xFF) as u8
    }

    /// The payload length: 24 bits.
    pub closed spec fn spec_payload_length(&self) -> u32 {
        self.payload_length_frame_type >> 8
    }

    /// The stream identifier.
    pub closed spec fn spec_stream_id(&self) -> u32 {
        self.stream_id
    }

    /// Create a new `FrameFormat`.
    ///
    /// The payload length is stored in 24 bits: higher bits of `payload_length` are dropped.
    pub fn new(&mut self, payload_length: u32, frame_type: u8, flags: u8, stream_id: u32) -> (r:
        FrameFormat)
        ensures
            *final(self) == *old(self),
            r.spec_flags() == flags,
            r.spec_frame_type() == frame_type,
            r.spec_payload_length() == payload_length % 0x100_0000,
            r.spec_stream_id() == stream_id,
    {
        let combined: u32 = (payload_length << 8u32) | (frame_type as u32);
        assert(((payload_length << 8u32) | (frame_type as u32)) >> 8u32 == payload_length
            % 0x100_0000) by (bit_vector);
        assert((((payload_length << 8u32) | (frame_type as u32)) & 0xFFu32) as u8 == frame_type)
            by (bit_vector);
        FrameFormat { flags: flags, payload_length_frame_type: combined, stream_id: stream_id }
    }

    /// Retrieve the frame flags.
    pub fn flags(&self) -> (r: Flags)
        ensures
            r.spec_byte() == self.spec_flags(),
    {
        Flags::from_u8(self.flags)
    }

    /// Retrieve the frame type.
    pub fn frame_type(&self) -> (r: FrameType)
        ensures
            r == frame_type_of(self.spec_frame_type()),
    {
        FrameType::from_u8((self.payload_length_frame_type & 0xFF) as u8)
    }

    /// Retrieve the payload length.
    pub fn payload_length(&self) -> (r: u32)
        ensures
            r == self.spec_payload_length(),
    {
        self.payload_length_frame_type >> 8
    }

    /// Retrieve the stream identifier.
    pub fn stream_id(&self) -> (r: u32)
        ensures
            r == self.spec_stream_id(),
    {
        self.stream_id
    }
}

/// The text of a frame format: `FrameFormat(flags: F, frame_type: T, payload_length: N,
/// stream_id: N)`.
pub open spec fn frame_format_text(flags: u8, frame_type: u8, payload_length: u32, stream_id: u32) -> Seq<
    char,
> {
    "FrameFormat(flags: "@ + flags_text(flags) + ", frame_type: "@ + frame_type_name(
        frame_type_of(frame_type),
    ) + ", payload_length: "@ + decimal(payload_length as nat) + ", stream_id: "@ + decimal(
        stream_id as nat,
    ) + ")"@
}

impl FrameFormat {
    /// The text of this frame format, as displayed and as debugged.
    pub fn message(&self) -> (r: String)
        ensures
            r@ == frame_format_text(
                self.spec_flags(),
                self.spec_frame_type(),
                self.spec_payload_length(),
                self.spec_stream_id(),
            ),
    {
        let mut s = String::new();
        s.append("FrameFormat(flags: ");
        self.flags().append_text(&mut s);
        s.append(", frame_type: ");
        s.append(self.frame_type().message());
        s.append(", payload_length: ");
        append_decimal(&mut s, self.payload_length() as u64);
        s.append(", stream_id: ");
        append_decimal(&mut s, self.stream_id as u64);
        s.append(")");
        assert(s@ =~= frame_format_text(
            self.spec_flags(),
            self.spec_frame_type(),
            self.spec_payload_length(),
            self.spec_stream_id(),
        ));
        s
    }
}

impl Default for FrameFormat {
    /// An empty frame format: no flags, a zero payload length, a data frame type, and a zero
    /// stream identifier.
    fn default() -> (r: FrameFormat)
        ensures
            r.spec_flags() == 0,
            r.spec_frame_type() == FR_DATA,
            r.spec_payload_length() == 0,
            r.spec_stream_id() == 0,
    {
        assert((0u32 & 0xFFu32) as u8 == 0u8 && 0u32 >> 8u32 == 0u32) by (bit_vector);
        FrameFormat { flags: 0, payload_length_frame_type: 0, stream_id: 0 }
    }
}

// -------------------------------------------------------------------------------------------------

/// Frame types.
#[derive(Clone, Copy, Debug, PartialEq, Eq, Structural)]
pub enum FrameType {
    /// Continuation frame.
    Continuation,
    /// Data frame.
    Data,
    /// Go away frame.
    GoAway,
    /// Headers frame.
    Headers,
    /// Ping frame.
    Ping,
    /// Priority frame.
    Priority,
    /// Push promise frame.
    PushPromise,
    /// Reset stream frame.
    RstStream,
    /// Settings frame.
    Settings,
    /// Window update frame.
    WindowUpdate,
    /// Unsupported frame.
    Unsupported,
}

/// The byte value of a frame type.
pub open spec fn frame_type_byte(t: FrameType) -> u8 {
    match t {
        FrameType::Continuation => FR_CONTINUATION,
        FrameType::Data => FR_DATA,
        FrameType::GoAway => FR_GO_AWAY,
        FrameType::Headers => FR_HEADERS,
        FrameType::Ping => FR_PING,
        FrameType::PushPromise => FR_PUSH_PROMISE,
        FrameType::Priority => FR_PRIORITY,
        FrameType::RstStream => FR_RST_STREAM,
        FrameType::Settings => FR_SETTINGS,
        FrameType::WindowUpdate => FR_WINDOW_UPDATE,
        FrameType::Unsupported => FR_UNSUPPORTED,
    }
}

/// The frame type named by a byte: the type whose byte value it is, or `Unsupported` for a byte
/// that names no type.
pub open spec fn frame_type_of(byte: u8) -> FrameType {
    if byte == FR_DATA {
        FrameType::Data
    } else if byte == FR_HEADERS {
        FrameType::Headers
    } else if byte == FR_PRIORITY {
        FrameType::Priority
    } else if byte == FR_RST_STREAM {
        FrameType::RstStream
    } else if byte == FR_SETTINGS {
        FrameType::Settings
    } else if byte == FR_PUSH_PROMISE {
        FrameType::PushPromise
    } else if byte == FR_PING {
        FrameType::Ping
    } else if byte == FR_GO_AWAY {
        FrameType::GoAway
    } else if byte == FR_WINDOW_UPDATE {
        FrameType::WindowUpdate
    } else if byte == FR_CONTINUATION {
        FrameType::Continuation
    } else {
        FrameType::Unsupported
    }
}

impl FrameType {
    /// Create a new `FrameType` from a `u8`.
    pub fn from_u8(byte: u8) -> (r: FrameType)
        ensures
            r == frame_type_of(byte),
    {
        if byte == FR_DATA {
            FrameType::Data
        } else if byte == FR_HEADERS {
            FrameType::Headers
        } else if byte == FR_PRIORITY {
            FrameType::Priority
        } else if byte == FR_RST_STREAM {
            FrameType::RstStream
        } else if byte == FR_SETTINGS {
            FrameType::Settings
        } else if byte == FR_PUSH_PROMISE {
            FrameType::PushPromise
        } else if byte == FR_PING {
            FrameType::Ping
        } else if byte == FR_GO_AWAY {
            FrameType::GoAway
        } else if byte == FR_WINDOW_UPDATE {
            FrameType::WindowUpdate
        } else if byte == FR_CONTINUATION {
            FrameType::Continuation
        } else {
            FrameType::Unsupported
        }
    }

    /// Convert this frame type to a byte value.
    pub fn as_byte(&self) -> (r: u8)
        ensures
            r == frame_type_byte(*self),
    {
        match *self {
            FrameType::Continuation => FR_CONTINUATION,
            FrameType::Data => FR_DATA,
            FrameType::GoAway => FR_GO_AWAY,
            FrameType::Headers => FR_HEADERS,
            FrameType::Ping => FR_PING,
            FrameType::PushPromise => FR_PUSH_PROMISE,
            FrameType::Priority => FR_PRIORITY,
            FrameType::RstStream => FR_RST_STREAM,
            FrameType::Settings => FR_SETTINGS,
            FrameType::WindowUpdate => FR_WINDOW_UPDATE,
            FrameType::Unsupported => FR_UNSUPPORTED,
        }
    }

    /// Indicates that this is a `FrameType::Continuation`.
    pub fn is_continuation(&self) -> (r: bool)
        ensures
            r == (*self == FrameType::Continuation),
    {
        matches!(*self, FrameType::Continuation)
    }

    /// Indicates that this is a `FrameType::Data`.
    pub fn is_data(&self) -> (r: bool)
        ensures
            r == (*self == FrameType::Data),
    {
        matches!(*self, FrameType::Data)
    }

    /// Indicates that this is a `FrameType::GoAway`.
    pub fn is_go_away(&self) -> (r: bool)
        ensures
            r == (*self == FrameType::GoAway),
    {
        matches!(*self, FrameType::GoAway)
    }

    /// Indicates that this is a `FrameType::Headers`.
    pub fn is_headers(&self) -> (r: bool)
        ensures
            r == (*self == FrameType::Headers),
    {
        matches!(*self, FrameType::Headers)
    }

    /// Indicates that this is a `FrameType::Ping`.
    pub fn is_push_ping(&self) -> (r: bool)
        ensures
            r == (*self == FrameType::Ping),
    {
        matches!(*self, FrameType::Ping)
    }

    /// Indicates that this is a `FrameType::Priority`.
    pub fn is_priority(&self) -> (r: bool)
        ensures
            r == (*self == FrameType::Priority),
    {
        matches!(*self, FrameType::Priority)
    }

    /// Indicates that this is a `FrameType::PushPromise`.
    pub fn is_push_promise(&self) -> (r: bool)
        ensures
            r == (*self == FrameType::PushPromise),
    {
        matches!(*self, FrameType::PushPromise)
    }

    /// Indicates that this is a `FrameType::RstStream`.
    pub fn is_rst_stream(&self) -> (r: bool)
        ensures
            r == (*self == FrameType::RstStream),
    {
        matches!(*self, FrameType::RstStream)
    }

    /// Indicates that this is a `FrameType::Settings`.
    pub fn is_settings(&self) -> (r: bool)
        ensures
            r == (*self == FrameType::Settings),
    {
        matches!(*self, FrameType::Settings)
    }

    /// Indicates that this is a `FrameType::Unsupported`.
    pub fn is_unsupported(&self) -> (r: bool)
        ensures
            r == (*self == FrameType::Unsupported),
    {
        matches!(*self, FrameType::Unsupported)
    }

    /// Indicates that this is a `FrameType::WindowUpdate`.
    pub fn is_window_update(&self) -> (r: bool)
        ensures
            r == (*self == FrameType::WindowUpdate),
    {
        matches!(*self, FrameType::WindowUpdate)
    }

    /// The name of this frame type, as displayed: `Data`, `Headers`, ...
    pub fn message(&self) -> (r: &'static str)
        ensures
            r@ == frame_type_name(*self),
    {
        match *self {
            FrameType::Continuation => "Continuation",
            FrameType::Data => "Data",
            FrameType::GoAway => "GoAway",
            FrameType::Headers => "Headers",
            FrameType::Ping => "Ping",
            FrameType::Priority => "Priority",
            FrameType::PushPromise => "PushPromise",
            FrameType::RstStream => "RstStream",
            FrameType::Settings => "Settings",
            FrameType::WindowUpdate => "WindowUpdate",
            FrameType::Unsupported => "Unsupported",
        }
    }

    /// The text of this frame type, as debugged: `FrameType::Data`, ...
    pub fn debug_message(&self) -> (r: String)
        ensures
            r@ == "FrameType::"@ + frame_type_name(*self),
    {
        let mut s = String::new();
        s.append("FrameType::");
        s.append(self.message());
        s
    }
}

/// The name of a frame type.
pub open spec fn frame_type_name(t: FrameType) -> Seq<char> {
    match t {
        FrameType::Continuation => "Continuation"@,
        FrameType::Data => "Data"@,
        FrameType::GoAway => "GoAway"@,
        FrameType::Headers => "Headers"@,
        FrameType::Ping => "Ping"@,
        FrameType::Priority => "Priority"@,
        FrameType::PushPromise => "PushPromise"@,
        FrameType::RstStream => "RstStream"@,
        FrameType::Settings => "Settings"@,
        FrameType::WindowUpdate => "WindowUpdate"@,
        FrameType::Unsupported => "Unsupported"@,
    }
}

/// A frame type converted to its byte value and back is the same frame type.
pub proof fn lemma_frame_type_round_trip(t: FrameType)
    ensures
        frame_type_of(frame_type_byte(t)) == t,
{
}

/// A byte converted to a frame type and back is the same byte when it names a frame type
/// (`0x0` through `0x9`), and the unsupported type's byte `0xFF` otherwise.
pub proof fn lemma_frame_type_byte_round_trip(byte: u8)
    ensures
        byte <= 0x9 ==> frame_type_byte(frame_type_of(byte)) == byte,
        byte > 0x9 ==> frame_type_byte(frame_type_of(byte)) == FR_UNSUPPORTED,
{
}

// -------------------------------------------------------------------------------------------------

/// Type that handles HTTP/2.x parser events.
///
/// Each callback returns `true` when parsing should continue, and `false` to exit the parser
/// function prematurely with `Success::Callback`.
pub trait HttpHandler {
    /// Callback that is executed when a data frame has been located.
    ///
    /// This may be executed multiple times in order to supply the entire segment; `finished`
    /// indicates this is the last chunk of the data.
    fn on_data(&mut self, data: &[u8], finished: bool) -> bool {
        true
    }

    /// Callback that is executed when a new frame has been located.
    ///
    /// The payload length is a 24-bit value, and the stream identifier has its reserved bit
    /// cleared.
    fn on_frame(&mut self, payload_length: u32, frame_type: u8, flags: u8, stream_id: u32)
        -> bool
        requires
            payload_length < 0x1000000,
            stream_id < 0x80000000,
    {
        true
    }

    /// Callback that is executed when a go away frame has been located.
    fn on_go_away(&mut self, stream_id: u32, error_code: u32) -> bool {
        true
    }

    /// Callback that is executed when go away frame debug data has been located.
    ///
    /// This may be executed multiple times in order to supply the entire segment; `finished`
    /// indicates this is the last chunk of the data.
    fn on_go_away_debug_data(&mut self, data: &[u8], finished: bool) -> bool {
        true
    }

    /// Callback that is executed when a headers frame has been located.
    fn on_headers(&mut self, exclusive: bool, stream_id: u32) -> bool {
        true
    }

    /// Callback that is executed when a headers frame fragment has been located.
    ///
    /// This may be executed multiple times in order to supply the entire segment; `finished`
    /// indicates this is the last chunk of the fragment.
    fn on_headers_fragment(&mut self, fragment: &[u8], finished: bool) -> bool {
        true
    }

    /// Callback that is executed when a ping frame has been located.
    ///
    /// This may be executed multiple times in order to supply the entire segment; `finished`
    /// indicates this is the last chunk of the data.
    fn on_ping(&mut self, data: &[u8], finished: bool) -> bool {
        true
    }

    /// Callback that is executed when a priority frame has been located.
    fn on_priority(&mut self, exclusive: bool, stream_id: u32, weight: u8) -> bool {
        true
    }

    /// Callback that is executed when a push promise frame has been located.
    fn on_push_promise(&mut self, stream_id: u32) -> bool {
        true
    }

    /// Callback that is executed when a rst stream frame has been located.
    fn on_rst_stream(&mut self, error_code: u32) -> bool {
        true
    }

    /// Callback that is executed when a settings frame has been located.
    fn on_settings(&mut self, id: u16, value: u32) -> bool {
        true
    }

    /// Callback that is executed when an unsupported frame has been located.
    ///
    /// This may be executed multiple times in order to supply the entire segment; `finished`
    /// indicates this is the last chunk of the data.
    fn on_unsupported(&mut self, data: &[u8], finished: bool) -> bool {
        true
    }

    /// Callback that is executed when a window update frame has been located.
    fn on_window_update(&mut self, size_increment: u32) -> bool {
        true
    }
}

// -------------------------------------------------------------------------------------------------

/// Parser error messages.
#[derive(Clone, Copy, Debug, PartialEq, Eq, Structural)]
pub enum ParserError {
    /// Parsing has failed.
    Dead,
}

impl ParserError {
    /// The message of this error.
    pub fn message(&self) -> (r: &'static str)
        ensures
            r@ == "Parser is dead"@,
    {
        match *self {
            ParserError::Dead => "Parser is dead",
        }
    }

    /// The message of this error, as debugged: `ParserError::Dead(Parser is dead)`.
    pub fn debug_message(&self) -> (r: &'static str)
        ensures
            r@ == "ParserError::Dead(Parser is dead)"@,
    {
        match *self {
            ParserError::Dead => "ParserError::Dead(Parser is dead)",
        }
    }
}

// -------------------------------------------------------------------------------------------------

/// Parser states.
#[derive(Clone, Copy, Debug, PartialEq, Eq, Structural)]
pub enum ParserState {
    /// An error was returned from a call to `Parser::parse()`.
    Dead,
    /// Parsing frame length first byte.
    FrameLength1,
    /// Parsing frame length second byte.
    FrameLength2,
    /// Parsing frame length third byte.
    FrameLength3,
    /// Parsing frame type.
    FrameType,
    /// Parsing frame flags.
    FrameFlags,
    /// Parsing frame stream identifier first byte.
    FrameStreamId1,
    /// Parsing frame stream identifier second byte.
    FrameStreamId2,
    /// Parsing frame stream identifier third byte.
    FrameStreamId3,
    /// Parsing frame stream identifier fourth byte.
    FrameStreamId4,
    /// Frame parsing finished.
    FrameEnd,
    /// Parsing end-of-frame padding.
    FramePadding,
    /// Parsing data pad length.
    DataPadLength,
    /// Parsing data without padding.
    DataDataWithoutPadding,
    /// Parsing data with padding.
    DataDataWithPadding,
    /// Parsing go away stream identifier first byte.
    GoAwayStreamId1,
    /// Parsing go away stream identifier second byte.
    GoAwayStreamId2,
    /// Parsing go away stream identifier third byte.
    GoAwayStreamId3,
    /// Parsing go away stream identifier fourth byte.
    GoAwayStreamId4,
    /// Parsing go away error code first byte.
    GoAwayErrorCode1,
    /// Parsing go away error code second byte.
    GoAwayErrorCode2,
    /// Parsing go away error code third byte.
    GoAwayErrorCode3,
    /// Parsing go away error code fourth byte.
    GoAwayErrorCode4,
    /// Parsing go away debug data.
    GoAwayDebugData,
    /// Parsing headers pad length.
    HeadersPadLength,
    /// Parsing headers stream identifier first byte.
    HeadersStreamId1,
    /// Parsing headers stream identifier second byte.
    HeadersStreamId2,
    /// Parsing headers stream identifier third byte.
    HeadersStreamId3,
    /// Parsing headers stream identifier fourth byte.
    HeadersStreamId4,
    /// Parsing headers weight.
    HeadersWeight,
    /// Parsing headers fragment without padding.
    HeadersFragmentWithoutPadding,
    /// Parsing headers fragment with padding.
    HeadersFragmentWithPadding,
    /// Parsing ping data.
    PingData,
    /// Parsing priority stream identifier first byte.
    PriorityStreamId1,
    /// Parsing priority stream identifier second byte.
    PriorityStreamId2,
    /// Parsing priority stream identifier third byte.
    PriorityStreamId3,
    /// Parsing priority stream identifier fourth byte.
    PriorityStreamId4,
    /// Parsing priority weight.
    PriorityWeight,
    /// Parsing push promise pad length.
    PushPromisePadLength,
    /// Parsing push promise stream identifier first byte.
    PushPromiseStreamId1,
    /// Parsing push promise stream identifier second byte.
    PushPromiseStreamId2,
    /// Parsing push promise stream identifier third byte.
    PushPromiseStreamId3,
    /// Parsing push promise stream identifier fourth byte.
    PushPromiseStreamId4,
    /// Parsing rst stream error code first byte.
    RstStreamErrorCode1,
    /// Parsing rst stream error code second byte.
    RstStreamErrorCode2,
    /// Parsing rst stream error code third byte.
    RstStreamErrorCode3,
    /// Parsing rst stream error code fourth byte.
    RstStreamErrorCode4,
    /// Parsing settings identifier first byte.
    SettingsId1,
    /// Parsing settings identifier second byte.
    SettingsId2,
    /// Parsing settings value first byte.
    SettingsValue1,
    /// Parsing settings value second byte.
    SettingsValue2,
    /// Parsing settings value third byte.
    SettingsValue3,
    /// Parsing settings value fourth byte.
    SettingsValue4,
    /// Parsing window update increment first byte.
    WindowUpdateIncrement1,
    /// Parsing window update increment second byte.
    WindowUpdateIncrement2,
    /// Parsing window update increment third byte.
    WindowUpdateIncrement3,
    /// Parsing window update increment fourth byte.
    WindowUpdateIncrement4,
    /// Parsing unsupported with padding.
    UnsupportedWithPadding,
    /// Parsing unsupported without padding.
    UnsupportedWithoutPadding,
    /// Parsing entire message has finished.
    Finished,
}

// -------------------------------------------------------------------------------------------------

/// Setting.
#[derive(Clone, Copy, Debug, PartialEq, Eq, Structural)]
pub enum Setting {
    /// Enable push setting.
    EnablePush(u32),
    /// Header table size setting.
    HeaderTableSize(u32),
    /// Initial window size setting.
    InitialWindowSize(u32),
    /// Maximum concurrent streams setting.
    MaxConcurrentStreams(u32),
    /// Maximum frame size setting.
    MaxFrameSize(u32),
    /// Maximum header list size setting.
    MaxHeaderListSize(u32),
    /// Unsupported setting.
    Unsupported(u32),
}

/// The setting that identifier `id` names, holding `value`; `Unsupported` for an identifier that
/// names no setting.
pub open spec fn setting_of(id: u16, value: u32) -> Setting {
    if id == S_HEADER_TABLE_SIZE {
        Setting::HeaderTableSize(value)
    } else if id == S_ENABLE_PUSH {
        Setting::EnablePush(value)
    } else if id == S_MAX_CONCURRENT_STREAMS {
        Setting::MaxConcurrentStreams(value)
    } else if id == S_INITIAL_WINDOW_SIZE {
        Setting::InitialWindowSize(value)
    } else if id == S_MAX_FRAME_SIZE {
        Setting::MaxFrameSize(value)
    } else if id == S_MAX_HEADER_LIST_SIZE {
        Setting::MaxHeaderListSize(value)
    } else {
        Setting::Unsupported(value)
    }
}

/// The value that a setting holds, whatever its identifier.
pub open spec fn setting_value(s: Setting) -> u32 {
    match s {
        Setting::EnablePush(x) => x,
        Setting::HeaderTableSize(x) => x,
        Setting::InitialWindowSize(x) => x,
        Setting::MaxConcurrentStreams(x) => x,
        Setting::MaxFrameSize(x) => x,
        Setting::MaxHeaderListSize(x) => x,
        Setting::Unsupported(x) => x,
    }
}

impl Setting {
    /// Create a new `Setting`.
    pub fn new(&mut self, id: u16, value: u32) -> (r: Setting)
        ensures
            *final(self) == *old(self),
            r == setting_of(id, value),
    {
        if id == S_HEADER_TABLE_SIZE {
            Setting::HeaderTableSize(value)
        } else if id == S_ENABLE_PUSH {
            Setting::EnablePush(value)
        } else if id == S_MAX_CONCURRENT_STREAMS {
            Setting::MaxConcurrentStreams(value)
        } else if id == S_INITIAL_WINDOW_SIZE {
            Setting::InitialWindowSize(value)
        } else if id == S_MAX_FRAME_SIZE {
            Setting::MaxFrameSize(value)
        } else if id == S_MAX_HEADER_LIST_SIZE {
            Setting::MaxHeaderListSize(value)
        } else {
            Setting::Unsupported(value)
        }
    }

    /// Indicates that this a `Setting::EnablePush`.
    pub fn is_enable_push(&self) -> (r: bool)
        ensures
            r == (*self is EnablePush),
    {
        matches!(*self, Setting::EnablePush(_))
    }

    /// Indicates that this a `Setting::HeaderTableSize`.
    pub fn is_header_table_size(&self) -> (r: bool)
        ensures
            r == (*self is HeaderTableSize),
    {
        matches!(*self, Setting::HeaderTableSize(_))
    }

    /// Indicates that this a `Setting::InitialWindowSize`.
    pub fn is_initial_window_size(&self) -> (r: bool)
        ensures
            r == (*self is InitialWindowSize),
    {
        matches!(*self, Setting::InitialWindowSize(_))
    }

    /// Indicates that this a `Setting::MaxConcurrentStreams`.
    pub fn is_max_concurrent_streams(&self) -> (r: bool)
        ensures
            r == (*self is MaxConcurrentStreams),
    {
        matches!(*self, Setting::MaxConcurrentStreams(_))
    }

    /// Indicates that this a `Setting::MaxFrameSize`.
    pub fn is_max_frame_size(&self) -> (r: bool)
        ensures
            r == (*self is MaxFrameSize),
    {
        matches!(*self, Setting::MaxFrameSize(_))
    }

    /// Indicates that this a `Setting::MaxHeaderListSize`.
    pub fn is_max_header_list_size(&self) -> (r: bool)
        ensures
            r == (*self is MaxHeaderListSize),
    {
        matches!(*self, Setting::MaxHeaderListSize(_))
    }

    /// Indicates that this a `Setting::Unsupported`.
    pub fn is_unsupported(&self) -> (r: bool)
        ensures
            r == (*self is Unsupported),
    {
        matches!(*self, Setting::Unsupported(_))
    }

    /// Retrieve the value.
    pub fn value(&self) -> (r: u32)
        ensures
            r == setting_value(*self),
    {
        match *self {
            Setting::EnablePush(x) => x,
            Setting::HeaderTableSize(x) => x,
            Setting::InitialWindowSize(x) => x,
            Setting::MaxConcurrentStreams(x) => x,
            Setting::MaxFrameSize(x) => x,
            Setting::MaxHeaderListSize(x) => x,
            Setting::Unsupported(x) => x,
        }
    }

    /// The name of this setting.
    fn name(&self) -> (r: &'static str)
        ensures
            r@ == setting_name(*self),
    {
        match *self {
            Setting::EnablePush(_) => "EnablePush",
            Setting::HeaderTableSize(_) => "HeaderTableSize",
            Setting::InitialWindowSize(_) => "InitialWindowSize",
            Setting::MaxConcurrentStreams(_) => "MaxConcurrentStreams",
            Setting::MaxFrameSize(_) => "MaxFrameSize",
            Setting::MaxHeaderListSize(_) => "MaxHeaderListSize",
            Setting::Unsupported(_) => "Unsupported",
        }
    }

    /// The text of this setting, as displayed: `EnablePush(1)`, ...
    pub fn message(&self) -> (r: String)
        ensures
            r@ == setting_text(*self),
    {
        let mut s = String::new();
        s.append(self.name());
        s.append("(");
        append_decimal(&mut s, self.value() as u64);
        s.append(")");
        assert(s@ =~= setting_text(*self));
        s
    }

    /// The text of this setting, as debugged: `Setting::EnablePush(1)`, ...
    pub fn debug_message(&self) -> (r: String)
        ensures
            r@ == "Setting::"@ + setting_text(*self),
    {
        let mut s = String::new();
        s.append("Setting::");
        s.append(self.name());
        s.append("(");
        append_decimal(&mut s, self.value() as u64);
        s.append(")");
        assert(s@ =~= "Setting::"@ + setting_text(*self));
        s
    }
}

/// The name of a setting.
pub open spec fn setting_name(s: Setting) -> Seq<char> {
    match s {
        Setting::EnablePush(_) => "EnablePush"@,
        Setting::HeaderTableSize(_) => "HeaderTableSize"@,
        Setting::InitialWindowSize(_) => "InitialWindowSize"@,
        Setting::MaxConcurrentStreams(_) => "MaxConcurrentStreams"@,
        Setting::MaxFrameSize(_) => "MaxFrameSize"@,
        Setting::MaxHeaderListSize(_) => "MaxHeaderListSize"@,
        Setting::Unsupported(_) => "Unsupported"@,
    }
}

/// The text of a setting, as displayed: `Name(V)`.
pub open spec fn setting_text(s: Setting) -> Seq<char> {
    setting_name(s) + "("@ + decimal(setting_value(s) as nat) + ")"@
}

/// A setting created from an identifier and a value holds that value, whatever the identifier.
pub proof fn lemma_setting_keeps_value(id: u16, value: u32)
    ensures
        setting_value(setting_of(id, value)) == value,
{
}

} // verus!
