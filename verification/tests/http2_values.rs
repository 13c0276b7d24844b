use http_box::http2::{ErrorCode, Flags, FrameFormat, FrameType, ParserError, Setting};

#[test]
fn error_code_round_trip() {
    for b in 0u8..=255 {
        let code = ErrorCode::from_u8(b);

        if b <= 0xD {
            assert_eq!(code.as_byte(), b);
        } else {
            assert_eq!(code, ErrorCode::Unsupported);
            assert_eq!(code.as_byte(), 0xFF);
        }

        assert_eq!(ErrorCode::from_u8(code.as_byte()), code);
    }
}

#[test]
fn error_code_values() {
    assert_eq!(ErrorCode::from_u8(0x0), ErrorCode::NoError);
    assert_eq!(ErrorCode::from_u8(0x1), ErrorCode::Protocol);
    assert_eq!(ErrorCode::from_u8(0x2), ErrorCode::Internal);
    assert_eq!(ErrorCode::from_u8(0x3), ErrorCode::FlowControl);
    assert_eq!(ErrorCode::from_u8(0x4), ErrorCode::SettingsTimeout);
    assert_eq!(ErrorCode::from_u8(0x5), ErrorCode::StreamClosed);
    assert_eq!(ErrorCode::from_u8(0x6), ErrorCode::FrameSize);
    assert_eq!(ErrorCode::from_u8(0x7), ErrorCode::RefusedStream);
    assert_eq!(ErrorCode::from_u8(0x8), ErrorCode::Cancel);
    assert_eq!(ErrorCode::from_u8(0x9), ErrorCode::Compression);
    assert_eq!(ErrorCode::from_u8(0xA), ErrorCode::Connect);
    assert_eq!(ErrorCode::from_u8(0xB), ErrorCode::EnhanceYourCalm);
    assert_eq!(ErrorCode::from_u8(0xC), ErrorCode::InadequateSecurity);
    assert_eq!(ErrorCode::from_u8(0xD), ErrorCode::Http11Required);
    assert_eq!(ErrorCode::from_u8(0xE), ErrorCode::Unsupported);
}

#[test]
fn error_code_predicates() {
    assert!(ErrorCode::Cancel.is_cancel());
    assert!(!ErrorCode::Cancel.is_compression());
    assert!(ErrorCode::Compression.is_compression());
    assert!(ErrorCode::Connect.is_connect());
    assert!(ErrorCode::EnhanceYourCalm.is_enhance_your_calm());
    assert!(ErrorCode::FlowControl.is_flow_control());
    assert!(ErrorCode::FrameSize.is_frame_size());
    assert!(ErrorCode::Http11Required.is_http_1_1_required());
    assert!(ErrorCode::InadequateSecurity.is_inadequate_security());
    assert!(ErrorCode::Internal.is_internal());
    assert!(ErrorCode::NoError.is_no_error());
    assert!(!ErrorCode::NoError.is_protocol());
    assert!(ErrorCode::Protocol.is_protocol());
    assert!(ErrorCode::RefusedStream.is_refused_stream());
    assert!(ErrorCode::SettingsTimeout.is_settings_timeout());
    assert!(ErrorCode::StreamClosed.is_stream_closed());
    assert!(!ErrorCode::Unsupported.is_stream_closed());
}

#[test]
fn flags() {
    let flags = Flags::from_u8(0x4 | 0x8);

    assert_eq!(flags.as_byte(), 0xC);
    assert!(flags.is_end_headers());
    assert!(!flags.is_end_stream());
    assert!(flags.is_padded());
    assert!(!flags.is_priority());

    let flags = Flags::from_u8(0x21);

    assert!(!flags.is_end_headers());
    assert!(flags.is_end_stream());
    assert!(!flags.is_padded());
    assert!(flags.is_priority());
}

#[test]
fn frame_format() {
    let mut base = FrameFormat::default();
    let format = base.new(0x123456, 0x4, 0x1, 7);

    assert_eq!(format.payload_length(), 0x123456);
    assert_eq!(format.frame_type(), FrameType::Settings);
    assert!(format.flags().is_end_stream());
    assert_eq!(format.flags().as_byte(), 0x1);
    assert_eq!(format.stream_id(), 7);
    assert_eq!(base, FrameFormat::default());
}

#[test]
fn frame_format_payload_length_is_24_bits() {
    let mut base = FrameFormat::default();
    let format = base.new(0xAB123456, 0x9, 0, 1);

    assert_eq!(format.payload_length(), 0x123456);
    assert_eq!(format.frame_type(), FrameType::Continuation);
}

#[test]
fn frame_type_round_trip() {
    for b in 0u8..=255 {
        let frame_type = FrameType::from_u8(b);

        if b <= 0x9 {
            assert_eq!(frame_type.as_byte(), b);
        } else {
            assert_eq!(frame_type, FrameType::Unsupported);
            assert_eq!(frame_type.as_byte(), 0xFF);
        }

        assert_eq!(FrameType::from_u8(frame_type.as_byte()), frame_type);
    }
}

#[test]
fn frame_type_predicates() {
    assert!(FrameType::from_u8(0x0).is_data());
    assert!(FrameType::from_u8(0x1).is_headers());
    assert!(FrameType::from_u8(0x2).is_priority());
    assert!(FrameType::from_u8(0x3).is_rst_stream());
    assert!(FrameType::from_u8(0x4).is_settings());
    assert!(FrameType::from_u8(0x5).is_push_promise());
    assert!(FrameType::from_u8(0x6).is_push_ping());
    assert!(FrameType::from_u8(0x7).is_go_away());
    assert!(FrameType::from_u8(0x8).is_window_update());
    assert!(FrameType::from_u8(0x9).is_continuation());
    assert!(FrameType::from_u8(0xA).is_unsupported());
    assert!(!FrameType::from_u8(0x0).is_headers());
}

#[test]
fn settings() {
    let mut base = Setting::Unsupported(0);

    assert!(base.new(0x1, 10).is_header_table_size());
    assert!(base.new(0x2, 10).is_enable_push());
    assert!(base.new(0x3, 10).is_max_concurrent_streams());
    assert!(base.new(0x4, 10).is_initial_window_size());
    assert!(base.new(0x5, 10).is_max_frame_size());
    assert!(base.new(0x6, 10).is_max_header_list_size());
    assert!(base.new(0x7, 10).is_unsupported());
    assert!(!base.new(0x1, 10).is_unsupported());

    for id in 0u16..10 {
        assert_eq!(base.new(id, 42).value(), 42);
    }

    assert_eq!(base, Setting::Unsupported(0));
}

#[test]
fn http2_parser_error_message() {
    assert_eq!(ParserError::Dead.message(), "Parser is dead");
}
