use http_box::fsm::Success;
use http_box::http2::{HttpHandler, Parser, ParserError, ParserState};

#[derive(Default)]
struct Collect {
    frames: Vec<(u32, u8, u8, u32)>,
    data: Vec<u8>,
    data_finished: Vec<bool>,
    unsupported: Vec<u8>,
    stop_on_frame: bool,
}

impl HttpHandler for Collect {
    fn on_data(&mut self, data: &[u8], finished: bool) -> bool {
        self.data.extend_from_slice(data);
        self.data_finished.push(finished);
        true
    }

    fn on_frame(&mut self, payload_length: u32, frame_type: u8, flags: u8, stream_id: u32) -> bool {
        self.frames.push((payload_length, frame_type, flags, stream_id));
        !self.stop_on_frame
    }

    fn on_unsupported(&mut self, data: &[u8], _finished: bool) -> bool {
        self.unsupported.extend_from_slice(data);
        true
    }
}

#[test]
fn http2_frame_header() {
    let mut p = Parser::new(Collect::default());

    assert_eq!(ParserState::FrameLength1, p.state());
    assert_eq!(
        Ok(Success::Eos(9)),
        p.resume(&[0x00, 0x01, 0x02, 0x04, 0x01, 0x80, 0x00, 0x00, 0x07])
    );
    assert_eq!(vec![(0x102, 0x04, 0x01, 7)], p.handler().frames);
    assert_eq!(ParserState::SettingsId1, p.state());
    assert_eq!(9, p.byte_count());
}

#[test]
fn http2_data_frame() {
    let mut p = Parser::new(Collect::default());

    assert_eq!(
        Ok(Success::Eos(14)),
        p.resume(b"\x00\x00\x05\x00\x00\x00\x00\x00\x01hello")
    );
    assert_eq!(b"hello", &p.handler().data[..]);
    assert_eq!(vec![true], p.handler().data_finished);
    assert_eq!(ParserState::FrameLength1, p.state());

    // a second frame, split over two calls
    assert_eq!(Ok(Success::Eos(11)), p.resume(b"\x00\x00\x04\x00\x00\x00\x00\x00\x03ab"));
    assert_eq!(ParserState::DataDataWithoutPadding, p.state());
    assert_eq!(Ok(Success::Eos(2)), p.resume(b"cd"));
    assert_eq!(b"helloabcd", &p.handler().data[..]);
    assert_eq!(vec![true, false, true], p.handler().data_finished);
    assert_eq!(27, p.byte_count());
}

#[test]
fn http2_padded_data_frame() {
    let mut p = Parser::new(Collect::default());

    // payload 6: pad length 2, data "abc", padding: as many bytes as the flags byte holds (8)
    assert_eq!(
        Ok(Success::Eos(16)),
        p.resume(b"\x00\x00\x06\x00\x08\x00\x00\x00\x01\x02abc\x00\x00\x00")
    );
    assert_eq!(b"abc", &p.handler().data[..]);
    assert_eq!(ParserState::FramePadding, p.state());
    assert_eq!(Ok(Success::Eos(5)), p.resume(b"\x00\x00\x00\x00\x00"));
    assert_eq!(ParserState::FrameLength1, p.state());
}

#[test]
fn http2_unsupported_frame() {
    let mut p = Parser::new(Collect::default());

    assert_eq!(
        Ok(Success::Eos(12)),
        p.resume(b"\x00\x00\x03\x20\x00\x00\x00\x00\x01xyz")
    );
    assert_eq!(vec![(3, 0x20, 0, 1)], p.handler().frames);
    assert_eq!(b"xyz", &p.handler().unsupported[..]);
    // the frame type byte is taken as a pad length, larger here than the payload, so the
    // payload is never seen to end
    assert_eq!(ParserState::UnsupportedWithoutPadding, p.state());
}

#[test]
fn http2_callback_stop_and_reset() {
    let mut c = Collect::default();
    c.stop_on_frame = true;

    let mut p = Parser::new(c);

    assert_eq!(
        Ok(Success::Callback(9)),
        p.resume(b"\x00\x00\x00\x06\x00\x00\x00\x00\x00more")
    );
    assert_eq!(ParserState::PingData, p.state());

    // ping payloads are not parsed: parsing stops at once
    assert_eq!(Ok(Success::Eos(0)), p.resume(b"more"));
    assert_eq!(9, p.byte_count());

    p.reset();
    assert_eq!(ParserState::FrameLength1, p.state());
    assert_eq!(0, p.byte_count());
    assert_eq!(1, p.handler().frames.len());
}

#[test]
fn http2_header_split_in_length() {
    let mut p = Parser::new(Collect::default());

    assert_eq!(Ok(Success::Eos(2)), p.resume(b"\x00\x00"));
    assert_eq!(ParserState::FrameLength3, p.state());
    assert_eq!(Ok(Success::Eos(7)), p.resume(b"\x01\x00\x00\x00\x00\x00\x05"));
    assert_eq!(vec![(1, 0, 0, 5)], p.handler().frames);
    assert_eq!(ParserState::DataDataWithoutPadding, p.state());
}

#[test]
fn http2_error_message() {
    assert_eq!("Parser is dead", ParserError::Dead.message());
}

#[test]
fn http2_stream_id_in_pieces_keeps_its_last_two_bytes() {
    let header: [u8; 9] = [0x00, 0x00, 0x00, 0x04, 0x00, 0x00, 0x01, 0x00, 0x01];

    // whole: the identifier is read at once
    let mut p = Parser::new(Collect::default());

    assert_eq!(Ok(Success::Eos(9)), p.resume(&header));
    assert_eq!(vec![(0, 0x04, 0x00, 0x10001)], p.handler().frames);

    // a byte at a time: its second and third bytes replace what came before them
    let mut q = Parser::new(Collect::default());

    for byte in header.iter() {
        assert_eq!(Ok(Success::Eos(1)), q.resume(&[*byte]));
    }

    assert_eq!(vec![(0, 0x04, 0x00, 0x1)], q.handler().frames);
    assert_eq!(p.state(), q.state());
    assert_eq!(ParserState::SettingsId1, q.state());
}
