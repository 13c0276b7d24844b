use http_box::fsm::Success;
use http_box::cookie::Cookie;
use http_box::http1::ParserError;
use http_box::http2;
use http_box::http2::{Flags, FrameFormat, FrameType, Setting};

#[test]
fn display_messages() {
    assert_eq!(
        ParserError::ChunkExtensionName(59).message(),
        "<ChunkExtensionName: Invalid chunk extension name on byte 59>"
    );
    assert_eq!(ParserError::Method(7).message(), "<Method: Invalid method on byte 7>");
    assert_eq!(ParserError::Url(255).message(), "<Url: Invalid URL on byte 255>");
    assert_eq!(ParserError::Version(100).message(), "<Version: Invalid HTTP version on byte 100>");
    assert_eq!(ParserError::Dead.message(), "<Dead: Parser is dead>");
    assert_eq!(
        ParserError::ChunkLengthOverflow.message(),
        "<ChunkLengthOverflow: Chunk length overflow>"
    );
    assert_eq!(
        ParserError::UrlEncodedValue(0).message(),
        "<UrlEncodedValue: Invalid URL encoded value on byte 0>"
    );
}

#[test]
fn debug_messages() {
    assert_eq!(
        ParserError::HeaderName(58).debug_message(),
        "<ParserError::HeaderName: Invalid header name on byte 58>"
    );
    assert_eq!(
        ParserError::ChunkExtensionValue(10).debug_message(),
        "<ParserError::ChunkExtensionValue Invalid chunk extension value on byte 10>"
    );
    assert_eq!(ParserError::Dead.debug_message(), "<ParserError::Dead: Parser is dead>");
}

#[test]
fn descriptions_and_bytes() {
    assert_eq!(ParserError::Status(1).description(), "Invalid status");
    assert_eq!(ParserError::Status(1).byte(), Some(1));
    assert_eq!(ParserError::Dead.byte(), None);
}

#[test]
fn success_length() {
    assert_eq!(Success::Callback(3).length(), 3);
    assert_eq!(Success::Eos(4).length(), 4);
    assert_eq!(Success::Finished(5).length(), 5);
}

#[test]
fn success_messages() {
    assert_eq!("0", Success::Eos(0).message());
    assert_eq!("1234567", Success::Finished(1234567).message());
    assert_eq!("Success::Callback(42)", Success::Callback(42).debug_message());
    assert_eq!("Success::Eos(10)", Success::Eos(10).debug_message());
    assert_eq!("Success::Finished(9)", Success::Finished(9).debug_message());
}

#[test]
fn http2_messages() {
    assert_eq!(
        "Flags(EndHeaders: true, EndStream: true, Padded: false, Priority: true)",
        Flags::from_u8(0x25).message()
    );
    assert_eq!("GoAway", FrameType::GoAway.message());
    assert_eq!("FrameType::WindowUpdate", FrameType::WindowUpdate.debug_message());

    let mut f = FrameFormat::default();
    let f = f.new(300, 0x1, 0x4, 7);

    assert_eq!(
        "FrameFormat(flags: Flags(EndHeaders: true, EndStream: false, Padded: false, \
         Priority: false), frame_type: Headers, payload_length: 300, stream_id: 7)",
        f.message()
    );

    let mut s = Setting::Unsupported(0);

    assert_eq!("MaxFrameSize(16384)", s.new(0x5, 16384).message());
    assert_eq!("Setting::EnablePush(1)", s.new(0x2, 1).debug_message());
    assert_eq!("Unsupported(4294967295)", s.new(0x99, u32::MAX).message());
    assert_eq!("ParserError::Dead(Parser is dead)", http2::ParserError::Dead.debug_message());
}

#[test]
fn cookie_messages() {
    let mut c = Cookie::new("id", "abc");

    assert_eq!("abc", c.message());
    assert_eq!(
        "Cookie(name=\"id\", value=\"abc\", domain=\"\", path=\"\", expires=\"\", \
         max-age=\"\", http-only=false, secure=false)",
        c.debug_message()
    );

    c.set_domain("example.com").set_path("/").set_secure(true).set_http_only(true);
    c.set_max_age("60").set_expires("never");

    assert_eq!(
        "Cookie(name=\"id\", value=\"abc\", domain=\"example.com\", path=\"/\", \
         expires=\"never\", max-age=\"60\", http-only=true, secure=true)",
        c.debug_message()
    );
}
