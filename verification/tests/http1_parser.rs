use http_box::byte::{is_header_field, is_quoted_header_field};
use http_box::fsm::Success;
use http_box::http1::{DebugHandler, HttpHandler, Parser, ParserError, ParserState};

// -------------------------------------------------------------------------------------------------
// Helpers
// -------------------------------------------------------------------------------------------------

fn http1_setup() -> (Parser<'static>, DebugHandler) {
    (Parser::new(), DebugHandler::new())
}

fn assert_callback<T: HttpHandler>(
    parser: &mut Parser,
    handler: &mut T,
    stream: &[u8],
    state: ParserState,
    length: usize,
) {
    match parser.resume(handler, stream) {
        Ok(Success::Callback(length_)) => {
            assert_eq!(length, length_);
            assert_eq!(state, parser.state());
        }
        _ => panic!("assert_callback() Ok() match failed"),
    }
}

fn assert_eos<T: HttpHandler>(
    parser: &mut Parser,
    handler: &mut T,
    stream: &[u8],
    state: ParserState,
    length: usize,
) {
    match parser.resume(handler, stream) {
        Ok(Success::Eos(length_)) => {
            assert_eq!(length, length_);
            assert_eq!(state, parser.state());
        }
        _ => panic!("assert_eos() Ok() match failed"),
    }
}

fn assert_error<T: HttpHandler>(
    parser: &mut Parser,
    handler: &mut T,
    stream: &[u8],
    error: ParserError,
) {
    match parser.resume(handler, stream) {
        Err(error_) => {
            assert_eq!(error, error_);
            assert_eq!(ParserState::Dead, parser.state());
        }
        _ => panic!("assert_error() Err() match failed"),
    }
}

fn iter_assert_eos<T: HttpHandler>(
    parser: &mut Parser,
    handler: &mut T,
    details: &[(u8, ParserState)],
) {
    for &(byte, _state) in details.iter() {
        match parser.resume(handler, &[byte]) {
            Ok(Success::Eos(length)) => {
                assert_eq!(length, 1);
            }
            _ => panic!("iter_assert_eos() Success::Eos match failed"),
        }
    }
}

fn assert_finished<T: HttpHandler>(
    parser: &mut Parser,
    handler: &mut T,
    stream: &[u8],
    length: usize,
) {
    match parser.resume(handler, stream) {
        Ok(Success::Finished(length_)) => {
            assert_eq!(length, length_);
            assert_eq!(ParserState::Finished, parser.state());
        }
        _ => panic!("assert_finished() Ok() match failed"),
    }
}

fn is_alpha(b: u8) -> bool {
    (b'a'..=b'z').contains(&b) || (b'A'..=b'Z').contains(&b)
}

fn is_digit(b: u8) -> bool {
    (b'0'..=b'9').contains(&b)
}

fn is_hex(b: u8) -> bool {
    is_digit(b) || (b'a'..=b'f').contains(&b) || (b'A'..=b'F').contains(&b)
}

fn is_tchar(b: u8) -> bool {
    is_alpha(b) || is_digit(b) || b"!#$%&'*+-.^_`|~".contains(&b)
}

fn is_visible(b: u8) -> bool {
    (0x21..=0x7E).contains(&b)
}

fn is_control(b: u8) -> bool {
    b < 0x20 || b == 0x7F
}

fn alpha_lower_vec() -> Vec<u8> {
    (b'a'..=b'z').collect()
}

fn alpha_upper_vec() -> Vec<u8> {
    (b'A'..=b'Z').collect()
}

fn digit_vec() -> Vec<u8> {
    (b'0'..=b'9').collect()
}

fn non_digit_vec() -> Vec<u8> {
    (0u8..255).filter(|&x| !is_digit(x)).collect()
}

fn token_vec() -> Vec<u8> {
    (0u8..255).filter(|&x| is_tchar(x)).collect()
}

fn non_token_vec() -> Vec<u8> {
    (0u8..255).filter(|&x| !is_tchar(x)).collect()
}

fn visible_7bit_vec() -> Vec<u8> {
    (0u8..255).filter(|&x| is_visible(x)).collect()
}

fn non_visible_7bit_vec() -> Vec<u8> {
    (0u8..255).filter(|&x| !is_visible(x)).collect()
}

fn control_vec() -> Vec<u8> {
    (0u8..255).filter(|&x| is_control(x)).collect()
}

fn non_control_vec() -> Vec<u8> {
    (0u8..255).filter(|&x| !is_control(x)).collect()
}

fn header_field_vec() -> Vec<u8> {
    (0u8..0x80).filter(|&x| is_header_field(x)).collect()
}

fn quoted_header_field_vec() -> Vec<u8> {
    (0u8..255).filter(|&x| is_quoted_header_field(x)).collect()
}

// -------------------------------------------------------------------------------------------------
// Handlers that stop the parser from one callback
// -------------------------------------------------------------------------------------------------

struct StopChunkBegin;
impl HttpHandler for StopChunkBegin {
    fn on_chunk_begin(&mut self) -> bool {
        false
    }
}

struct StopChunkData;
impl HttpHandler for StopChunkData {
    fn on_chunk_data(&mut self, _: &[u8]) -> bool {
        false
    }
}

struct StopChunkExtensionFinished;
impl HttpHandler for StopChunkExtensionFinished {
    fn on_chunk_extension_finished(&mut self) -> bool {
        false
    }
}

struct StopChunkExtensionName;
impl HttpHandler for StopChunkExtensionName {
    fn on_chunk_extension_name(&mut self, _: &[u8]) -> bool {
        false
    }
}

struct StopChunkExtensionValue;
impl HttpHandler for StopChunkExtensionValue {
    fn on_chunk_extension_value(&mut self, _: &[u8]) -> bool {
        false
    }
}

struct StopChunkExtensionsFinished;
impl HttpHandler for StopChunkExtensionsFinished {
    fn on_chunk_extensions_finished(&mut self) -> bool {
        false
    }
}

struct StopChunkLength;
impl HttpHandler for StopChunkLength {
    fn on_chunk_length(&mut self, _: usize) -> bool {
        false
    }
}

struct StopHeaderName;
impl HttpHandler for StopHeaderName {
    fn on_header_name(&mut self, _: &[u8]) -> bool {
        false
    }
}

struct StopMethod;
impl HttpHandler for StopMethod {
    fn on_method(&mut self, _: &[u8]) -> bool {
        false
    }
}

struct StopUrl;
impl HttpHandler for StopUrl {
    fn on_url(&mut self, _: &[u8]) -> bool {
        false
    }
}

struct StopVersion;
impl HttpHandler for StopVersion {
    fn on_version(&mut self, _: u16, _: u16) -> bool {
        false
    }
}

struct StopStatus;
impl HttpHandler for StopStatus {
    fn on_status(&mut self, _: &[u8]) -> bool {
        false
    }
}

struct StopStatusCode;
impl HttpHandler for StopStatusCode {
    fn on_status_code(&mut self, _: u16) -> bool {
        false
    }
}

struct StopMultipartBegin;
impl HttpHandler for StopMultipartBegin {
    fn on_multipart_begin(&mut self) -> bool {
        false
    }
}

struct StopMultipartData;
impl HttpHandler for StopMultipartData {
    fn on_multipart_data(&mut self, _: &[u8]) -> bool {
        false
    }
}

// -------------------------------------------------------------------------------------------------
// Chunked: callbacks
// -------------------------------------------------------------------------------------------------

#[test]
fn on_chunk_begin() {
    let mut h = StopChunkBegin;
    let mut p = Parser::new();

    p.init_chunked();

    assert_callback(&mut p, &mut h, b"F", ParserState::ChunkLength2, b"F".len());
}

#[test]
fn on_chunk_data() {
    let mut h = StopChunkData;
    let mut p = Parser::new();

    p.init_chunked();

    assert_eos(&mut p, &mut h, b"F\r\n", ParserState::ChunkData, b"F\r\n".len());
    assert_callback(&mut p, &mut h, b"X", ParserState::ChunkData, b"X".len());
}

#[test]
fn on_chunk_extension_finished() {
    let mut h = StopChunkExtensionFinished;
    let mut p = Parser::new();

    p.init_chunked();

    assert_callback(
        &mut p,
        &mut h,
        b"F;extension;",
        ParserState::StripChunkExtensionName,
        b"F;extension;".len(),
    );
}

#[test]
fn on_chunk_extension_name() {
    let mut h = StopChunkExtensionName;
    let mut p = Parser::new();

    p.init_chunked();

    assert_callback(
        &mut p,
        &mut h,
        b"F;extension",
        ParserState::LowerChunkExtensionName,
        b"F;extension".len(),
    );
}

#[test]
fn on_chunk_extension_value() {
    let mut h = StopChunkExtensionValue;
    let mut p = Parser::new();

    p.init_chunked();

    assert_callback(
        &mut p,
        &mut h,
        b"F;extension=v",
        ParserState::ChunkExtensionValue,
        b"F;extension=v".len(),
    );
}

#[test]
fn on_chunk_extensions_finished() {
    let mut h = StopChunkExtensionsFinished;
    let mut p = Parser::new();

    p.init_chunked();

    assert_callback(&mut p, &mut h, b"F\r", ParserState::ChunkLengthLf, b"F\r".len());
}

#[test]
fn on_chunk_length() {
    let mut h = StopChunkLength;
    let mut p = Parser::new();

    p.init_chunked();

    assert_callback(&mut p, &mut h, b"F\r", ParserState::ChunkExtensionsFinished, b"F\r".len());
}

// -------------------------------------------------------------------------------------------------
// Chunked: data
// -------------------------------------------------------------------------------------------------

fn data_setup() -> (Parser<'static>, DebugHandler) {
    let (mut p, mut h) = http1_setup();

    p.init_chunked();

    assert_eos(&mut p, &mut h, b"C\r\n", ParserState::ChunkData, b"C\r\n".len());

    (p, h)
}

#[test]
fn entire_chunk() {
    let (mut p, mut h) = data_setup();

    assert_eos(
        &mut p,
        &mut h,
        b"Hello, Rust!\r\n",
        ParserState::ChunkLength1,
        b"Hello, Rust!\r\n".len(),
    );

    assert_eq!(&h.chunk_data, b"Hello, Rust!");
}

#[test]
fn data_entire_iter() {
    let (mut p, mut h) = data_setup();

    iter_assert_eos(
        &mut p,
        &mut h,
        &[
            (b'H', ParserState::ChunkData),
            (b'e', ParserState::ChunkData),
            (b'l', ParserState::ChunkData),
            (b'l', ParserState::ChunkData),
            (b'o', ParserState::ChunkData),
            (b',', ParserState::ChunkData),
            (b' ', ParserState::ChunkData),
            (b'R', ParserState::ChunkData),
            (b'u', ParserState::ChunkData),
            (b's', ParserState::ChunkData),
            (b't', ParserState::ChunkData),
            (b'!', ParserState::ChunkDataCr),
            (b'\r', ParserState::ChunkDataLf),
            (b'\n', ParserState::ChunkLength1),
        ],
    );

    assert_eq!(&h.chunk_data, b"Hello, Rust!");
}

#[test]
fn state_chunk_length1() {
    let (mut p, mut h) = data_setup();

    iter_assert_eos(
        &mut p,
        &mut h,
        &[
            (b'H', ParserState::ChunkData),
            (b'e', ParserState::ChunkData),
            (b'l', ParserState::ChunkData),
            (b'l', ParserState::ChunkData),
            (b'o', ParserState::ChunkData),
            (b',', ParserState::ChunkData),
            (b' ', ParserState::ChunkData),
            (b'R', ParserState::ChunkData),
            (b'u', ParserState::ChunkData),
            (b's', ParserState::ChunkData),
            (b't', ParserState::ChunkData),
            (b'!', ParserState::ChunkData),
            (b'\r', ParserState::ChunkLengthLf),
            (b'\n', ParserState::ChunkLength1),
        ],
    );
}

// -------------------------------------------------------------------------------------------------
// Chunked: extension name
// -------------------------------------------------------------------------------------------------

fn extension_name_setup() -> (Parser<'static>, DebugHandler) {
    let (mut p, mut h) = http1_setup();

    p.init_chunked();

    assert_eos(&mut p, &mut h, b"F;", ParserState::StripChunkExtensionName, b"F;".len());

    (p, h)
}

#[test]
fn extension_name_allowed() {
    for b in token_vec().iter() {
        let (mut p, mut h) = extension_name_setup();

        assert_eos(&mut p, &mut h, &[*b], ParserState::LowerChunkExtensionName, [b].len());
    }
}

#[test]
fn extension_name_callback() {
    let mut h = StopChunkExtensionName;
    let mut p = Parser::new();

    p.init_chunked();

    assert_callback(
        &mut p,
        &mut h,
        b"F;extension",
        ParserState::LowerChunkExtensionName,
        b"F;extension".len(),
    );
}

#[test]
fn extension_name_entire_iter() {
    let (mut p, mut h) = extension_name_setup();

    iter_assert_eos(
        &mut p,
        &mut h,
        &[
            (b'E', ParserState::LowerChunkExtensionName),
            (b'x', ParserState::LowerChunkExtensionName),
            (b't', ParserState::LowerChunkExtensionName),
            (b'e', ParserState::LowerChunkExtensionName),
            (b'N', ParserState::LowerChunkExtensionName),
            (b's', ParserState::LowerChunkExtensionName),
            (b'I', ParserState::LowerChunkExtensionName),
            (b'o', ParserState::LowerChunkExtensionName),
            (b'N', ParserState::LowerChunkExtensionName),
            (b'\r', ParserState::ChunkLengthLf),
        ],
    );

    assert_eq!(&h.chunk_extension_name, b"extension");
}

#[test]
fn not_allowed() {
    // skip `\r`, `\t`, `space`, `=`, and `;`, otherwise state will change
    for b in non_token_vec()
        .iter()
        .filter(|&x| *x != b'\r')
        .filter(|&x| *x != b'\t')
        .filter(|&x| *x != b' ')
        .filter(|&x| *x != b'=')
        .filter(|&x| *x != b';')
    {
        let (mut p, mut h) = extension_name_setup();

        assert_error(&mut p, &mut h, &[*b], ParserError::ChunkExtensionName(*b));
    }
}

#[test]
fn state_chunk_extensions_finished() {
    let (mut p, mut h) = extension_name_setup();

    iter_assert_eos(
        &mut p,
        &mut h,
        &[
            (b'E', ParserState::LowerChunkExtensionName),
            (b'\r', ParserState::ChunkExtensionsFinished),
        ],
    );
}

#[test]
fn state_strip_chunk_extension_name1() {
    let (mut p, mut h) = extension_name_setup();

    iter_assert_eos(
        &mut p,
        &mut h,
        &[
            (b'E', ParserState::LowerChunkExtensionName),
            (b';', ParserState::StripChunkExtensionName),
        ],
    );
}

#[test]
fn state_strip_chunk_extension_name2() {
    let (mut p, mut h) = extension_name_setup();

    iter_assert_eos(
        &mut p,
        &mut h,
        &[
            (b' ', ParserState::StripChunkExtensionName),
            (b'\t', ParserState::StripChunkExtensionName),
        ],
    );
}

#[test]
fn state_strip_chunk_extension_value() {
    let (mut p, mut h) = extension_name_setup();

    iter_assert_eos(
        &mut p,
        &mut h,
        &[
            (b'E', ParserState::LowerChunkExtensionName),
            (b'=', ParserState::StripChunkExtensionValue),
        ],
    );
}

// -------------------------------------------------------------------------------------------------
// Chunked: extension value
// -------------------------------------------------------------------------------------------------

fn extension_value_setup() -> (Parser<'static>, DebugHandler) {
    let (mut p, mut h) = http1_setup();

    p.init_chunked();

    assert_eos(
        &mut p,
        &mut h,
        b"F;Extension=",
        ParserState::StripChunkExtensionValue,
        b"F;Extension=".len(),
    );

    (p, h)
}

#[test]
fn extension_value_allowed() {
    for b in token_vec().iter() {
        let (mut p, mut h) = extension_value_setup();

        assert_eos(&mut p, &mut h, &[*b], ParserState::ChunkExtensionValue, [b].len());
    }
}

#[test]
fn extension_value_callback() {
    let mut h = StopChunkExtensionValue;
    let mut p = Parser::new();

    p.init_chunked();

    assert_callback(
        &mut p,
        &mut h,
        b"F;extension=v",
        ParserState::ChunkExtensionValue,
        b"F;extension=v".len(),
    );
}

#[test]
fn extension_value_entire_iter() {
    let (mut p, mut h) = extension_value_setup();

    iter_assert_eos(
        &mut p,
        &mut h,
        &[
            (b'"', ParserState::ChunkExtensionQuotedValue),
            (b'v', ParserState::ChunkExtensionQuotedValue),
            (b'a', ParserState::ChunkExtensionQuotedValue),
            (b'\\', ParserState::ChunkExtensionEscapedValue),
            (b'l', ParserState::ChunkExtensionQuotedValue),
            (b'u', ParserState::ChunkExtensionQuotedValue),
            (b'e', ParserState::ChunkExtensionQuotedValue),
            (b'1', ParserState::ChunkExtensionQuotedValue),
            (b'"', ParserState::ChunkExtensionValue),
            (b'v', ParserState::ChunkExtensionValue),
            (b'a', ParserState::ChunkExtensionValue),
            (b'l', ParserState::ChunkExtensionValue),
            (b'u', ParserState::ChunkExtensionValue),
            (b'e', ParserState::ChunkExtensionValue),
            (b'2', ParserState::ChunkExtensionValue),
            (b'\r', ParserState::ChunkLengthLf),
        ],
    );

    assert_eq!(&h.chunk_extension_name, b"extension");
    assert_eq!(&h.chunk_extension_value, b"value1value2");
}

#[test]
fn extension_value_not_allowed_header_fields_error() {
    // skip `\r`, `;` and `"`, otherwise state will change
    for b in (0u8..255)
        .filter(|&x| !is_header_field(x))
        .filter(|&x| x != b'\r')
        .filter(|&x| x != b';')
        .filter(|&x| x != b'"')
    {
        let (mut p, mut h) = extension_value_setup();

        assert_error(&mut p, &mut h, &[b], ParserError::ChunkExtensionValue(b));
    }
}

#[test]
fn extension_value_not_allowed_quoted_header_fields_error() {
    // skip `"` and `\`, otherwise state will change
    for b in (0u8..255)
        .filter(|&x| !is_quoted_header_field(x))
        .filter(|&x| x != b'"')
        .filter(|&x| x != b'\\')
    {
        let (mut p, mut h) = extension_value_setup();

        assert_eos(&mut p, &mut h, b"\"", ParserState::ChunkExtensionQuotedValue, b"\"".len());
        assert_error(&mut p, &mut h, &[b], ParserError::ChunkExtensionValue(b));
    }
}

#[test]
fn state_strip_chunk_extension_name() {
    let (mut p, mut h) = extension_value_setup();

    iter_assert_eos(
        &mut p,
        &mut h,
        &[
            (b'V', ParserState::ChunkExtensionValue),
            (b';', ParserState::StripChunkExtensionName),
        ],
    );
}

#[test]
fn state_chunk_extension_escaped_value() {
    let (mut p, mut h) = extension_value_setup();

    iter_assert_eos(
        &mut p,
        &mut h,
        &[
            (b'V', ParserState::ChunkExtensionValue),
            (b'"', ParserState::ChunkExtensionQuotedValue),
            (b'\\', ParserState::ChunkExtensionEscapedValue),
        ],
    );
}

#[test]
fn state_chunk_extension_quoted_value() {
    let (mut p, mut h) = extension_value_setup();

    iter_assert_eos(
        &mut p,
        &mut h,
        &[
            (b'V', ParserState::ChunkExtensionValue),
            (b'"', ParserState::ChunkExtensionQuotedValue),
        ],
    );
}

#[test]
fn state_chunk_extension_value() {
    let (mut p, mut h) = extension_value_setup();

    iter_assert_eos(
        &mut p,
        &mut h,
        &[
            (b'V', ParserState::ChunkExtensionValue),
            (b'"', ParserState::ChunkExtensionQuotedValue),
            (b'V', ParserState::ChunkExtensionQuotedValue),
            (b'"', ParserState::ChunkExtensionValue),
        ],
    );
}

// -------------------------------------------------------------------------------------------------
// Chunked: length
// -------------------------------------------------------------------------------------------------

fn length_setup() -> (Parser<'static>, DebugHandler) {
    let (mut p, h) = http1_setup();

    p.init_chunked();

    (p, h)
}

fn assert_length_allowed(stream: &[u8], length: usize) {
    let (mut p, mut h) = length_setup();

    assert_eos(&mut p, &mut h, stream, ParserState::ChunkLengthLf, stream.len());

    assert_eq!(h.chunk_length, length);
}

#[test]
fn length_allowed1() {
    assert_length_allowed(b"F\r", 0xF);
}

#[test]
fn length_allowed2() {
    assert_length_allowed(b"FF\r", 0xFF);
}

#[test]
fn length_allowed3() {
    assert_length_allowed(b"FFF\r", 0xFFF);
}

#[test]
fn allowed4() {
    assert_length_allowed(b"FFFF\r", 0xFFFF);
}

#[test]
fn allowed5() {
    assert_length_allowed(b"FFFFF\r", 0xFFFFF);
}

#[test]
fn allowed6() {
    assert_length_allowed(b"FFFFFF\r", 0xFFFFFF);
}

#[test]
fn allowed7() {
    assert_length_allowed(b"FFFFFFF\r", 0xFFFFFFF);
}

#[test]
fn allowed8() {
    assert_length_allowed(b"FFFFFFFF\r", 0xFFFFFFFF);
}

#[test]
fn length_entire_iter() {
    let (mut p, mut h) = length_setup();

    iter_assert_eos(
        &mut p,
        &mut h,
        &[
            (b'F', ParserState::ChunkLength2),
            (b'F', ParserState::ChunkLength3),
            (b'F', ParserState::ChunkLength4),
            (b'F', ParserState::ChunkLength5),
            (b'F', ParserState::ChunkLength6),
            (b'F', ParserState::ChunkLength7),
            (b'F', ParserState::ChunkLength8),
            (b'F', ParserState::ChunkLengthCr),
            (b'\r', ParserState::ChunkLengthLf),
        ],
    );

    assert_eq!(h.chunk_length, 0xFFFFFFFF);
}

#[test]
fn not_allowed_hex_error1() {
    for b in (0u8..255).filter(|&x| !is_hex(x)) {
        let (mut p, mut h) = length_setup();

        assert_error(&mut p, &mut h, &[b], ParserError::ChunkLength(b));
    }
}

fn assert_hex_error_after(prefix: &[u8], state: ParserState) {
    // skip `\r` and `;`, otherwise state will change
    for b in (0u8..255).filter(|&x| !is_hex(x)).filter(|&x| x != b'\r').filter(|&x| x != b';') {
        let (mut p, mut h) = length_setup();

        assert_eos(&mut p, &mut h, prefix, state, prefix.len());
        assert_error(&mut p, &mut h, &[b], ParserError::ChunkLength(b));
    }
}

#[test]
fn not_allowed_hex_error2() {
    assert_hex_error_after(b"F", ParserState::ChunkLength2);
}

#[test]
fn not_allowed_hex_error3() {
    assert_hex_error_after(b"FF", ParserState::ChunkLength3);
}

#[test]
fn not_allowed_hex_error4() {
    assert_hex_error_after(b"FFF", ParserState::ChunkLength4);
}

#[test]
fn not_allowed_hex_error5() {
    assert_hex_error_after(b"FFFF", ParserState::ChunkLength5);
}

#[test]
fn not_allowed_hex_error6() {
    assert_hex_error_after(b"FFFFF", ParserState::ChunkLength6);
}

#[test]
fn not_allowed_hex_error7() {
    assert_hex_error_after(b"FFFFFF", ParserState::ChunkLength7);
}

#[test]
fn not_allowed_hex_error8() {
    assert_hex_error_after(b"FFFFFFF", ParserState::ChunkLength8);
}

#[test]
fn overflow_error() {
    let (mut p, mut h) = length_setup();

    assert_error(&mut p, &mut h, b"FFFFFFFFF", ParserError::ChunkLength(b'F'));
}

#[test]
fn state_chunk_data() {
    let (mut p, mut h) = length_setup();

    iter_assert_eos(
        &mut p,
        &mut h,
        &[
            (b'F', ParserState::ChunkLength2),
            (b'\r', ParserState::ChunkLengthLf),
            (b'\n', ParserState::ChunkData),
        ],
    );
}

#[test]
fn state_extension_name() {
    let (mut p, mut h) = length_setup();

    iter_assert_eos(
        &mut p,
        &mut h,
        &[
            (b'F', ParserState::ChunkLength2),
            (b';', ParserState::StripChunkExtensionName),
        ],
    );
}

// -------------------------------------------------------------------------------------------------
// Head: header name
// -------------------------------------------------------------------------------------------------

fn header_name_setup() -> (Parser<'static>, DebugHandler) {
    let (mut p, mut h) = http1_setup();

    assert_eos(
        &mut p,
        &mut h,
        b"GET / HTTP/1.1\r\n",
        ParserState::HeaderCr2,
        b"GET / HTTP/1.1\r\n".len(),
    );

    (p, h)
}

#[test]
fn allowed_alpha_lowercase() {
    for b in alpha_lower_vec().iter() {
        let (mut p, mut h) = header_name_setup();

        assert_eos(&mut p, &mut h, &[*b], ParserState::LowerHeaderName, [*b].len());
        assert_eos(&mut p, &mut h, b":", ParserState::StripHeaderValue, b":".len());

        assert_eq!(h.header_name, &[*b]);
    }
}

#[test]
fn allowed_alpha_uppercase() {
    for b in alpha_upper_vec().iter() {
        let (mut p, mut h) = header_name_setup();

        assert_eos(&mut p, &mut h, &[*b], ParserState::LowerHeaderName, [*b].len());
        assert_eos(&mut p, &mut h, b":", ParserState::StripHeaderValue, b":".len());

        // header name is normalized to lower-case, so we need to lower-case
        assert_eq!(h.header_name, &[*b + 0x20]);
    }
}

#[test]
fn allowed_tokens_without_alpha() {
    for b in token_vec().iter().filter(|&x| !is_alpha(*x)) {
        let (mut p, mut h) = header_name_setup();

        assert_eos(&mut p, &mut h, &[*b], ParserState::LowerHeaderName, [*b].len());
        assert_eos(&mut p, &mut h, b":", ParserState::StripHeaderValue, b":".len());

        assert_eq!(h.header_name, &[*b]);
    }
}

#[test]
fn header_name_callback_exit() {
    let mut h = StopHeaderName;
    let mut p = Parser::new();

    assert_callback(
        &mut p,
        &mut h,
        b"X / HTTP/1.1\r\nH",
        ParserState::LowerHeaderName,
        b"X / HTTP/1.1\r\nH".len(),
    );
}

#[test]
fn header_name_entire_iter() {
    let (mut p, mut h) = header_name_setup();

    iter_assert_eos(
        &mut p,
        &mut h,
        &[
            (b'H', ParserState::LowerHeaderName),
            (b'e', ParserState::LowerHeaderName),
            (b'a', ParserState::LowerHeaderName),
            (b'd', ParserState::LowerHeaderName),
            (b'e', ParserState::LowerHeaderName),
            (b'r', ParserState::LowerHeaderName),
            (b':', ParserState::StripHeaderValue),
        ],
    );

    assert_eq!(h.header_name, b"header");
}

#[test]
fn header_name_not_allowed_error() {
    // skip `:` otherwise it will change state
    for b in non_token_vec().iter().filter(|&x| *x != b':') {
        let (mut p, mut h) = header_name_setup();

        assert_eos(&mut p, &mut h, b"X", ParserState::LowerHeaderName, b"X".len());
        assert_error(&mut p, &mut h, &[*b], ParserError::HeaderName(*b));
    }
}

#[test]
fn state_strip_header_value() {
    let (mut p, mut h) = header_name_setup();

    iter_assert_eos(
        &mut p,
        &mut h,
        &[(b'H', ParserState::LowerHeaderName), (b':', ParserState::StripHeaderValue)],
    );
}

// -------------------------------------------------------------------------------------------------
// Head: header value
// -------------------------------------------------------------------------------------------------

fn header_value_setup() -> (Parser<'static>, DebugHandler) {
    let (mut p, mut h) = http1_setup();

    assert_eos(
        &mut p,
        &mut h,
        b"GET / HTTP/1.1\r\nHeader:",
        ParserState::StripHeaderValue,
        b"GET / HTTP/1.1\r\nHeader:".len(),
    );

    (p, h)
}

#[test]
fn allowed_escaped() {
    // escaped data can only be 7bit non-control
    for b in (0u8..255).filter(|&x| x > 0x1F && x < 0x7B) {
        let (mut p, mut h) = header_value_setup();

        assert_eos(
            &mut p,
            &mut h,
            b"escaped \"\\",
            ParserState::HeaderEscapedValue,
            b"escaped \"\\".len(),
        );

        assert_eos(&mut p, &mut h, &[b], ParserState::HeaderQuotedValue, [b].len());
    }
}

#[test]
fn allowed_header_fields() {
    // skip `\t` and `space`, otherwise state will change
    for b in header_field_vec().iter().filter(|&x| *x != b' ').filter(|&x| *x != b'\t') {
        let (mut p, mut h) = header_value_setup();

        assert_eos(&mut p, &mut h, &[*b], ParserState::HeaderValue, [*b].len());
        assert_eos(&mut p, &mut h, b"\r", ParserState::HeaderLf1, b"\r".len());

        assert_eq!(h.header_value[0], *b);
    }
}

#[test]
fn allowed_quoted_header_fields() {
    // skip `"` and `\`, otherwise state will change
    for b in quoted_header_field_vec().iter().filter(|&x| *x != b'"').filter(|&x| *x != b'\\') {
        let (mut p, mut h) = header_value_setup();

        assert_eos(&mut p, &mut h, b"\"", ParserState::HeaderQuotedValue, b"\"".len());
        assert_eos(&mut p, &mut h, &[*b], ParserState::HeaderQuotedValue, [*b].len());
        assert_eos(&mut p, &mut h, b"\"", ParserState::HeaderValue, b"\"".len());

        assert_eq!(h.header_value.len(), 3);
        assert_eq!((&h.header_value)[0], b'\"');
        assert_eq!((&h.header_value)[1], *b);
        assert_eq!((&h.header_value)[2], b'\"');
    }
}

#[test]
fn header_value_entire_iter() {
    let (mut p, mut h) = header_value_setup();

    iter_assert_eos(
        &mut p,
        &mut h,
        &[
            (b'"', ParserState::HeaderQuotedValue),
            (b'v', ParserState::HeaderQuotedValue),
            (b'a', ParserState::HeaderQuotedValue),
            (b'\\', ParserState::HeaderEscapedValue),
            (b'l', ParserState::HeaderQuotedValue),
            (b'u', ParserState::HeaderQuotedValue),
            (b'e', ParserState::HeaderQuotedValue),
            (b'1', ParserState::HeaderQuotedValue),
            (b'"', ParserState::HeaderValue),
            (b'v', ParserState::HeaderValue),
            (b'a', ParserState::HeaderValue),
            (b'l', ParserState::HeaderValue),
            (b'u', ParserState::HeaderValue),
            (b'e', ParserState::HeaderValue),
            (b'2', ParserState::HeaderValue),
            (b'\r', ParserState::HeaderLf1),
        ],
    );

    assert_eq!(&h.header_value, b"\"va\\lue1\"value2");
}

#[test]
fn multiline() {
    let (mut p, mut h) = header_value_setup();

    assert_eos(&mut p, &mut h, b"Part1\r\n", ParserState::HeaderCr2, b"Part1\r\n".len());
    assert_eos(&mut p, &mut h, b" Part2\r\n", ParserState::HeaderCr2, b" Part2\r\n".len());
    assert_eos(&mut p, &mut h, b" Part3\r\n", ParserState::HeaderCr2, b" Part3\r\n".len());

    assert_eq!(&h.header_value, b"Part1Part2Part3")
}

#[test]
fn not_allowed_escaped_error() {
    // escaped data can only be 7bit non-control
    for b in (0u8..255).filter(|&x| x < 0x20 || x > 0x7A) {
        let (mut p, mut h) = header_value_setup();

        assert_eos(
            &mut p,
            &mut h,
            b"escaped \"\\",
            ParserState::HeaderEscapedValue,
            b"escaped \"\\".len(),
        );

        assert_error(&mut p, &mut h, &[b], ParserError::HeaderValue(b));
    }
}

#[test]
fn header_value_not_allowed_header_fields_error() {
    // skip `\r` and `"`, otherwise state will change
    for b in (0u8..255)
        .filter(|&x| !is_header_field(x))
        .filter(|&x| x != b'\r')
        .filter(|&x| x != b'"')
    {
        let (mut p, mut h) = header_value_setup();

        assert_error(&mut p, &mut h, &[b], ParserError::HeaderValue(b));
    }
}

#[test]
fn header_value_not_allowed_quoted_header_fields_error() {
    // skip `"` and `\`, otherwise state will change
    for b in (0u8..255)
        .filter(|&x| !is_quoted_header_field(x))
        .filter(|&x| x != b'"')
        .filter(|&x| x != b'\\')
    {
        let (mut p, mut h) = header_value_setup();

        assert_eos(&mut p, &mut h, b"\"", ParserState::HeaderQuotedValue, b"\"".len());
        assert_error(&mut p, &mut h, &[b], ParserError::HeaderValue(b));
    }
}

#[test]
fn state_finished() {
    let (mut p, mut h) = header_value_setup();

    iter_assert_eos(
        &mut p,
        &mut h,
        &[
            (b'V', ParserState::LowerHeaderName),
            (b'\r', ParserState::HeaderLf1),
            (b'\n', ParserState::HeaderCr2),
            (b'\r', ParserState::HeaderLf2),
        ],
    );

    assert_finished(&mut p, &mut h, b"\n", b"\n".len());
}

// -------------------------------------------------------------------------------------------------
// Multipart
// -------------------------------------------------------------------------------------------------

#[test]
fn on_multipart_begin() {
    let mut h = StopMultipartBegin;
    let mut p = Parser::new();

    p.init_multipart();
    p.set_boundary(b"XTestBoundaryX");

    assert_callback(
        &mut p,
        &mut h,
        b"--XTestBoundaryX\r",
        ParserState::InitialLf,
        b"--XTestBoundaryX\r".len(),
    );
}

#[test]
fn on_multipart_data() {
    let mut h = StopMultipartData;
    let mut p = Parser::new();

    p.init_multipart();
    p.set_boundary(b"XTestBoundaryX");

    assert_callback(
        &mut p,
        &mut h,
        b"--XTestBoundaryX\r\nHeader: Value\r\n\r\nData",
        ParserState::MultipartDataByByte,
        b"--XTestBoundaryX\r\nHeader: Value\r\n\r\nData".len(),
    );
}

#[test]
fn headers() {
    let (mut p, mut h) = http1_setup();

    p.init_multipart();
    p.set_boundary(b"XTestBoundaryX");

    assert_eos(
        &mut p,
        &mut h,
        b"--XTestBoundaryX\r\nHeader1: Value1\r\nHeader2: Value2\r\n",
        ParserState::HeaderCr2,
        b"--XTestBoundaryX\r\nHeader1: Value1\r\nHeader2: Value2\r\n".len(),
    );

    assert_eq!(&h.header_name, b"header1header2");
    assert_eq!(&h.header_value, b"Value1Value2");
}

// -------------------------------------------------------------------------------------------------
// Request: method
// -------------------------------------------------------------------------------------------------

#[test]
fn method_allowed() {
    // skip `H`, otherwise state will change
    for b in alpha_upper_vec().iter().filter(|&x| *x != b'H') {
        let (mut p, mut h) = http1_setup();

        assert_eos(&mut p, &mut h, &[*b], ParserState::RequestMethod, [*b].len());
        assert_eos(&mut p, &mut h, b" ", ParserState::RequestUrl1, b" ".len());

        assert_eq!(h.method, &[*b]);
    }
}

#[test]
fn method_callback_exit() {
    let mut h = StopMethod;
    let mut p = Parser::new();

    assert_callback(&mut p, &mut h, b"X", ParserState::RequestMethod, b"X".len());
}

#[test]
fn method_entire_iter() {
    let (mut p, mut h) = http1_setup();

    iter_assert_eos(
        &mut p,
        &mut h,
        &[
            (b'M', ParserState::RequestMethod),
            (b'E', ParserState::RequestMethod),
            (b'T', ParserState::RequestMethod),
            (b'H', ParserState::RequestMethod),
            (b'O', ParserState::RequestMethod),
            (b'D', ParserState::RequestMethod),
            (b' ', ParserState::RequestUrl1),
        ],
    );

    assert_eq!(h.method, b"METHOD");
}

#[test]
fn method_lower_case_error() {
    for b in (0u8..0x41).chain(0x5B..0xFF) {
        let (mut p, mut h) = http1_setup();

        assert_error(&mut p, &mut h, &[b], ParserError::Method(b));
    }
}

#[test]
fn state_request_url() {
    let (mut p, mut h) = http1_setup();

    iter_assert_eos(
        &mut p,
        &mut h,
        &[(b'M', ParserState::RequestMethod), (b' ', ParserState::RequestUrl1)],
    );
}

// -------------------------------------------------------------------------------------------------
// Request: URL
// -------------------------------------------------------------------------------------------------

fn url_setup() -> (Parser<'static>, DebugHandler) {
    let (mut p, mut h) = http1_setup();

    // bypass method
    assert_eos(&mut p, &mut h, b"GET ", ParserState::RequestUrl1, b"GET ".len());

    (p, h)
}

#[test]
fn url_allowed() {
    for b in visible_7bit_vec().iter() {
        let (mut p, mut h) = url_setup();

        assert_eos(&mut p, &mut h, &[*b], ParserState::RequestUrl2, [*b].len());
    }
}

#[test]
fn url_callback_exit() {
    let mut h = StopUrl;
    let mut p = Parser::new();

    assert_callback(&mut p, &mut h, b"X /", ParserState::RequestUrl2, b"X /".len());
}

#[test]
fn url_entire_iter() {
    let (mut p, mut h) = url_setup();

    iter_assert_eos(
        &mut p,
        &mut h,
        &[
            (b'/', ParserState::RequestUrl2),
            (b'p', ParserState::RequestUrl2),
            (b'a', ParserState::RequestUrl2),
            (b't', ParserState::RequestUrl2),
            (b'h', ParserState::RequestUrl2),
            (b' ', ParserState::RequestHttp1),
        ],
    );

    assert_eq!(h.url, b"/path");
}

#[test]
fn url_not_allowed_error() {
    // skip `\t` and `space`, otherwise state will change
    for b in non_visible_7bit_vec().iter().filter(|&x| *x != b'\t').filter(|&x| *x != b' ') {
        let (mut p, mut h) = url_setup();

        assert_error(&mut p, &mut h, &[*b], ParserError::Url(*b));
    }
}

#[test]
fn state_request_http1() {
    let (mut p, mut h) = url_setup();

    iter_assert_eos(
        &mut p,
        &mut h,
        &[(b'/', ParserState::RequestUrl2), (b' ', ParserState::RequestHttp1)],
    );
}

// -------------------------------------------------------------------------------------------------
// Request: version
// -------------------------------------------------------------------------------------------------

fn version_setup() -> (Parser<'static>, DebugHandler) {
    let (mut p, mut h) = http1_setup();

    // bypass method
    assert_eos(
        &mut p,
        &mut h,
        b"GET /path HTTP/",
        ParserState::RequestVersionMajor1,
        b"GET /path HTTP/".len(),
    );

    (p, h)
}

#[test]
fn version_allowed1() {
    for b in digit_vec().iter() {
        let (mut p, mut h) = version_setup();

        assert_eos(&mut p, &mut h, &[*b], ParserState::RequestVersionMajor2, [*b].len());
        assert_eos(&mut p, &mut h, b".", ParserState::RequestVersionMinor1, b".".len());
        assert_eos(&mut p, &mut h, &[*b], ParserState::RequestVersionMinor2, [*b].len());
        assert_eos(&mut p, &mut h, b"\r", ParserState::InitialLf, b"\r".len());

        assert_eq!(h.version_major, (*b - b'0') as u16);
        assert_eq!(h.version_minor, (*b - b'0') as u16);
    }
}

#[test]
fn version_allowed2() {
    for b in digit_vec().iter() {
        let (mut p, mut h) = version_setup();

        assert_eos(&mut p, &mut h, &[*b], ParserState::RequestVersionMajor2, [*b].len());
        assert_eos(&mut p, &mut h, &[*b], ParserState::RequestVersionMajor3, [*b].len());
        assert_eos(&mut p, &mut h, b".", ParserState::RequestVersionMinor1, b".".len());
        assert_eos(&mut p, &mut h, &[*b], ParserState::RequestVersionMinor2, [*b].len());
        assert_eos(&mut p, &mut h, &[*b], ParserState::RequestVersionMinor3, [*b].len());
        assert_eos(&mut p, &mut h, b"\r", ParserState::InitialLf, b"\r".len());

        assert_eq!(h.version_major, (((*b - b'0') * 10) + (*b - b'0')) as u16);
        assert_eq!(h.version_minor, (((*b - b'0') * 10) + (*b - b'0')) as u16);
    }
}

#[test]
fn version_allowed3() {
    for b in digit_vec().iter() {
        let (mut p, mut h) = version_setup();

        assert_eos(&mut p, &mut h, &[*b], ParserState::RequestVersionMajor2, [*b].len());
        assert_eos(&mut p, &mut h, &[*b], ParserState::RequestVersionMajor3, [*b].len());
        assert_eos(&mut p, &mut h, &[*b], ParserState::RequestVersionPeriod, [*b].len());
        assert_eos(&mut p, &mut h, b".", ParserState::RequestVersionMinor1, b".".len());
        assert_eos(&mut p, &mut h, &[*b], ParserState::RequestVersionMinor2, [*b].len());
        assert_eos(&mut p, &mut h, &[*b], ParserState::RequestVersionMinor3, [*b].len());
        assert_eos(&mut p, &mut h, &[*b], ParserState::RequestVersionCr, [*b].len());
        assert_eos(&mut p, &mut h, b"\r", ParserState::InitialLf, b"\r".len());

        assert_eq!(
            h.version_major,
            ((*b - b'0') as u16 * 100) + ((*b - b'0') as u16 * 10) + (*b - b'0') as u16
        );
        assert_eq!(
            h.version_minor,
            ((*b - b'0') as u16 * 100) + ((*b - b'0') as u16 * 10) + (*b - b'0') as u16
        );
    }
}

#[test]
fn version_callback_exit() {
    let mut h = StopVersion;
    let mut p = Parser::new();

    assert_callback(
        &mut p,
        &mut h,
        b"X / HTTP/1.1\r",
        ParserState::InitialEnd,
        b"X / HTTP/1.1\r".len(),
    );
}

#[test]
fn version_entire_iter() {
    let (mut p, mut h) = version_setup();

    iter_assert_eos(
        &mut p,
        &mut h,
        &[
            (b'1', ParserState::RequestVersionMajor2),
            (b'.', ParserState::RequestVersionMinor1),
            (b'1', ParserState::RequestVersionMinor2),
            (b'\r', ParserState::InitialLf),
        ],
    );

    assert_eq!(h.version_major, 1);
    assert_eq!(h.version_minor, 1);
}

#[test]
fn major_not_allowed_error() {
    for b in non_digit_vec().iter() {
        let (mut p, mut h) = version_setup();

        assert_error(&mut p, &mut h, &[*b], ParserError::Version(*b));
    }
}

#[test]
fn major_overflow_error() {
    let (mut p, mut h) = version_setup();

    assert_error(&mut p, &mut h, b"9990", ParserError::Version(b'0'));
}

#[test]
fn minor_not_allowed_error() {
    for b in non_digit_vec().iter() {
        let (mut p, mut h) = version_setup();

        assert_eos(&mut p, &mut h, b"1.", ParserState::RequestVersionMinor1, b"1.".len());
        assert_error(&mut p, &mut h, &[*b], ParserError::Version(*b));
    }
}

#[test]
fn minor_overflow_error() {
    let (mut p, mut h) = version_setup();

    assert_error(&mut p, &mut h, b"1.9990", ParserError::Version(b'0'));
}

#[test]
fn version_state_lower_header_name() {
    let (mut p, mut h) = version_setup();

    iter_assert_eos(
        &mut p,
        &mut h,
        &[
            (b'1', ParserState::RequestVersionMajor2),
            (b'.', ParserState::RequestVersionMinor1),
            (b'1', ParserState::RequestVersionMinor2),
            (b'\r', ParserState::InitialLf),
            (b'\n', ParserState::HeaderCr2),
            (b'H', ParserState::LowerHeaderName),
        ],
    );
}

// -------------------------------------------------------------------------------------------------
// Response: callbacks
// -------------------------------------------------------------------------------------------------

#[test]
fn on_status() {
    let mut h = StopStatus;
    let mut p = Parser::new();

    assert_callback(
        &mut p,
        &mut h,
        b"HTTP/1.1 200 X",
        ParserState::ResponseStatus2,
        b"HTTP/1.1 200 X".len(),
    );
}

#[test]
fn on_status_code() {
    let mut h = StopStatusCode;
    let mut p = Parser::new();

    assert_callback(
        &mut p,
        &mut h,
        b"HTTP/1.1 200 ",
        ParserState::ResponseStatus1,
        b"HTTP/1.1 200 ".len(),
    );
}

#[test]
fn on_version() {
    let mut h = StopVersion;
    let mut p = Parser::new();

    assert_callback(
        &mut p,
        &mut h,
        b"HTTP/1.1 ",
        ParserState::ResponseStatusCode1,
        b"HTTP/1.1 ".len(),
    );
}

// -------------------------------------------------------------------------------------------------
// Response: status
// -------------------------------------------------------------------------------------------------

fn status_setup() -> (Parser<'static>, DebugHandler) {
    let (mut p, mut h) = http1_setup();

    assert_eos(
        &mut p,
        &mut h,
        b"HTTP/1.1 200 ",
        ParserState::ResponseStatus1,
        b"HTTP/1.1 200 ".len(),
    );

    (p, h)
}

#[test]
fn status_allowed() {
    for b in non_control_vec().iter() {
        let (mut p, mut h) = status_setup();

        assert_eos(&mut p, &mut h, b"X", ParserState::ResponseStatus2, b"X".len());
        assert_eos(&mut p, &mut h, &[*b], ParserState::ResponseStatus2, [b].len());
    }
}

#[test]
fn status_entire_iter() {
    let (mut p, mut h) = status_setup();

    iter_assert_eos(
        &mut p,
        &mut h,
        &[
            (b'N', ParserState::ResponseStatus2),
            (b'O', ParserState::ResponseStatus2),
            (b'T', ParserState::ResponseStatus2),
            (b' ', ParserState::ResponseStatus2),
            (b'F', ParserState::ResponseStatus2),
            (b'O', ParserState::ResponseStatus2),
            (b'U', ParserState::ResponseStatus2),
            (b'N', ParserState::ResponseStatus2),
            (b'D', ParserState::ResponseStatus2),
            (b'\r', ParserState::InitialLf),
        ],
    );

    assert_eq!(h.status, b"NOT FOUND");
}

#[test]
fn status_not_allowed_error() {
    // skip `\r`, otherwise state will change
    for b in control_vec().iter().filter(|&x| *x != b'\r') {
        let (mut p, mut h) = status_setup();

        assert_eos(&mut p, &mut h, b"X", ParserState::ResponseStatus2, b"X".len());
        assert_error(&mut p, &mut h, &[*b], ParserError::Status(*b));
    }
}

#[test]
fn status_state_lower_header_name() {
    let (mut p, mut h) = status_setup();

    iter_assert_eos(
        &mut p,
        &mut h,
        &[
            (b'O', ParserState::ResponseStatus2),
            (b'K', ParserState::ResponseStatus2),
            (b'\r', ParserState::InitialLf),
            (b'\n', ParserState::HeaderCr2),
            (b'H', ParserState::LowerHeaderName),
        ],
    );
}

// -------------------------------------------------------------------------------------------------
// Response: status code
// -------------------------------------------------------------------------------------------------

fn status_code_setup() -> (Parser<'static>, DebugHandler) {
    let (mut p, mut h) = http1_setup();

    assert_eos(
        &mut p,
        &mut h,
        b"HTTP/1.1 ",
        ParserState::ResponseStatusCode1,
        b"HTTP/1.1 ".len(),
    );

    (p, h)
}

#[test]
fn status_code_allowed() {
    for b in digit_vec().iter() {
        let (mut p, mut h) = status_code_setup();

        assert_eos(&mut p, &mut h, &[*b], ParserState::ResponseStatusCode2, [*b].len());
        assert_eos(&mut p, &mut h, &[*b], ParserState::ResponseStatusCode3, [*b].len());
        assert_eos(&mut p, &mut h, &[*b], ParserState::ResponseStatusCodeSpace, [*b].len());
        assert_eos(&mut p, &mut h, b" ", ParserState::ResponseStatus1, b" ".len());

        assert_eq!(
            h.status_code,
            ((*b - b'0') as u16 * 100) + ((*b - b'0') as u16 * 10) + (*b - b'0') as u16
        )
    }
}

#[test]
fn status_code_callback_exit() {
    let mut h = StopStatusCode;
    let mut p = Parser::new();

    assert_callback(
        &mut p,
        &mut h,
        b"HTTP/1.1 200 ",
        ParserState::ResponseStatus1,
        b"HTTP/1.1 200 ".len(),
    );
}

#[test]
fn status_code_entire_iter() {
    let (mut p, mut h) = status_code_setup();

    iter_assert_eos(
        &mut p,
        &mut h,
        &[
            (b'2', ParserState::ResponseStatusCode2),
            (b'0', ParserState::ResponseStatusCode3),
            (b'0', ParserState::ResponseStatusCodeSpace),
            (b' ', ParserState::ResponseStatus1),
        ],
    );

    assert_eq!(h.status_code, 200);
}

fn assert_status_code_error_after(prefix: &[u8], state: Option<ParserState>) {
    // skip `\t` and `space`, otherwise state will change
    for b in (0u8..255).filter(|&x| !is_digit(x)).filter(|&x| x != b'\t').filter(|&x| x != b' ') {
        let (mut p, mut h) = status_code_setup();

        if let Some(state) = state {
            assert_eos(&mut p, &mut h, prefix, state, prefix.len());
        }

        assert_error(&mut p, &mut h, &[b], ParserError::StatusCode(b));
    }
}

#[test]
fn not_allowed_error1() {
    assert_status_code_error_after(b"", None);
}

#[test]
fn not_allowed_error2() {
    assert_status_code_error_after(b"1", Some(ParserState::ResponseStatusCode2));
}

#[test]
fn not_allowed_error3() {
    assert_status_code_error_after(b"12", Some(ParserState::ResponseStatusCode3));
}

#[test]
fn state_response_status1() {
    let (mut p, mut h) = status_code_setup();

    iter_assert_eos(
        &mut p,
        &mut h,
        &[
            (b'2', ParserState::ResponseStatusCode2),
            (b'0', ParserState::ResponseStatusCode3),
            (b'0', ParserState::ResponseStatusCodeSpace),
            (b' ', ParserState::ResponseStatus1),
        ],
    );
}

// -------------------------------------------------------------------------------------------------
// URL encoded
// -------------------------------------------------------------------------------------------------

#[test]
fn finished_finished() {
    let (mut p, mut h) = http1_setup();

    p.init_url_encoded();
    p.set_length(b"Name+1%21=Value%201%21".len());

    assert_finished(
        &mut p,
        &mut h,
        b"Name+1%21=Value%201%21",
        b"Name+1%21=Value%201%21".len(),
    );

    assert_eq!(&h.url_encoded_name, b"Name 1!");
    assert_eq!(&h.url_encoded_value, b"Value 1!");
}

fn url_encoded_setup() -> (Parser<'static>, DebugHandler) {
    let (mut p, h) = http1_setup();

    p.init_url_encoded();
    p.set_length(1000);

    (p, h)
}

#[test]
fn name_allowed() {
    // skip `=`, `%`, `+`, `&`, and `;`, otherwise it will change state
    for b in visible_7bit_vec()
        .iter()
        .filter(|&x| *x != b'=')
        .filter(|&x| *x != b'%')
        .filter(|&x| *x != b'+')
        .filter(|&x| *x != b'&')
        .filter(|&x| *x != b';')
    {
        let (mut p, mut h) = url_encoded_setup();

        assert_eos(&mut p, &mut h, &[*b], ParserState::UrlEncodedName, [*b].len());

        assert_eq!(h.url_encoded_name, &[*b]);
    }
}

#[test]
fn name_entire_iter() {
    let (mut p, mut h) = url_encoded_setup();

    iter_assert_eos(
        &mut p,
        &mut h,
        &[
            (b'N', ParserState::UrlEncodedName),
            (b'a', ParserState::UrlEncodedName),
            (b'm', ParserState::UrlEncodedName),
            (b'e', ParserState::UrlEncodedName),
            (b'+', ParserState::UrlEncodedNamePlus),
            (b'1', ParserState::UrlEncodedName),
            (b'%', ParserState::UrlEncodedNameHex1),
            (b'2', ParserState::UrlEncodedNameHex1),
            (b'1', ParserState::UrlEncodedName),
            (b';', ParserState::UrlEncodedName),
            (b'N', ParserState::FirstUrlEncodedName),
            (b'a', ParserState::UrlEncodedName),
            (b'm', ParserState::UrlEncodedName),
            (b'e', ParserState::UrlEncodedName),
            (b'%', ParserState::UrlEncodedNameHex1),
            (b'2', ParserState::UrlEncodedNameHex1),
            (b'0', ParserState::UrlEncodedName),
            (b'2', ParserState::UrlEncodedName),
            (b'%', ParserState::UrlEncodedNameHex1),
            (b'2', ParserState::UrlEncodedNameHex1),
            (b'1', ParserState::UrlEncodedName),
            (b'=', ParserState::UrlEncodedValue),
        ],
    );

    assert_eq!(h.url_encoded_name, b"Name 1!Name 2!");
}

#[test]
fn name_not_allowed_error() {
    for b in non_visible_7bit_vec().iter() {
        let (mut p, mut h) = url_encoded_setup();

        assert_error(&mut p, &mut h, &[*b], ParserError::UrlEncodedName(*b));
    }
}

#[test]
fn state_url_encoded_name_hex() {
    let (mut p, mut h) = url_encoded_setup();

    iter_assert_eos(
        &mut p,
        &mut h,
        &[
            (b'N', ParserState::UrlEncodedName),
            (b'%', ParserState::UrlEncodedNameHex1),
            (b'2', ParserState::UrlEncodedNameHex2),
            (b'0', ParserState::UrlEncodedName),
        ],
    );
}

#[test]
fn name_state_first_url_encoded_name1() {
    let (mut p, mut h) = url_encoded_setup();

    iter_assert_eos(
        &mut p,
        &mut h,
        &[(b'N', ParserState::UrlEncodedName), (b';', ParserState::FirstUrlEncodedName)],
    );
}

#[test]
fn name_state_first_url_encoded_name2() {
    let (mut p, mut h) = url_encoded_setup();

    iter_assert_eos(
        &mut p,
        &mut h,
        &[(b'N', ParserState::UrlEncodedName), (b'&', ParserState::FirstUrlEncodedName)],
    );
}

#[test]
fn state_url_encoded_name_plus() {
    let (mut p, mut h) = url_encoded_setup();

    iter_assert_eos(
        &mut p,
        &mut h,
        &[(b'N', ParserState::UrlEncodedName), (b'+', ParserState::UrlEncodedNamePlus)],
    );
}

#[test]
fn state_url_encoded_value() {
    let (mut p, mut h) = url_encoded_setup();

    iter_assert_eos(
        &mut p,
        &mut h,
        &[(b'N', ParserState::UrlEncodedName), (b'=', ParserState::UrlEncodedValue)],
    );
}

fn url_encoded_value_setup() -> (Parser<'static>, DebugHandler) {
    let (mut p, mut h) = url_encoded_setup();

    assert_eos(&mut p, &mut h, b"N=", ParserState::UrlEncodedValue, b"N=".len());

    (p, h)
}

#[test]
fn value_allowed() {
    // skip `%`, `+`, `&`, and `;`, otherwise it will change state
    for b in visible_7bit_vec()
        .iter()
        .filter(|&x| *x != b'%')
        .filter(|&x| *x != b'+')
        .filter(|&x| *x != b'&')
        .filter(|&x| *x != b';')
    {
        let (mut p, mut h) = url_encoded_value_setup();

        p.init_url_encoded();
        p.set_length(1000);

        assert_eos(&mut p, &mut h, b"N=", ParserState::UrlEncodedValue, b"N=".len());
        assert_eos(&mut p, &mut h, &[*b], ParserState::UrlEncodedValue, [*b].len());

        assert_eq!(h.url_encoded_value, &[*b]);
    }
}

#[test]
fn value_entire_iter() {
    let (mut p, mut h) = url_encoded_value_setup();

    iter_assert_eos(
        &mut p,
        &mut h,
        &[
            (b'V', ParserState::UrlEncodedValue),
            (b'a', ParserState::UrlEncodedValue),
            (b'l', ParserState::UrlEncodedValue),
            (b'u', ParserState::UrlEncodedValue),
            (b'e', ParserState::UrlEncodedValue),
            (b'+', ParserState::UrlEncodedValuePlus),
            (b'1', ParserState::UrlEncodedValue),
            (b'%', ParserState::UrlEncodedValueHex1),
            (b'2', ParserState::UrlEncodedValueHex1),
            (b'1', ParserState::UrlEncodedValue),
            (b'V', ParserState::UrlEncodedValue),
            (b'a', ParserState::UrlEncodedValue),
            (b'l', ParserState::UrlEncodedValue),
            (b'u', ParserState::UrlEncodedValue),
            (b'e', ParserState::UrlEncodedValue),
            (b'%', ParserState::UrlEncodedValueHex1),
            (b'2', ParserState::UrlEncodedValueHex2),
            (b'0', ParserState::UrlEncodedValue),
            (b'2', ParserState::UrlEncodedValue),
            (b'%', ParserState::UrlEncodedValueHex1),
            (b'2', ParserState::UrlEncodedValueHex1),
            (b'1', ParserState::UrlEncodedValue),
        ],
    );

    assert_eq!(h.url_encoded_value, b"Value 1!Value 2!");
}

#[test]
fn value_finished() {
    let (mut p, mut h) = http1_setup();

    p.init_url_encoded();
    p.set_length(b"Name+1%21=Value%201%21".len());

    assert_finished(
        &mut p,
        &mut h,
        b"Name+1%21=Value%201%21",
        b"Name+1%21=Value%201%21".len(),
    );

    assert_eq!(&h.url_encoded_name, b"Name 1!");
    assert_eq!(&h.url_encoded_value, b"Value 1!");
}

#[test]
fn value_not_allowed_error() {
    for b in non_visible_7bit_vec().iter() {
        let (mut p, mut h) = url_encoded_value_setup();

        assert_error(&mut p, &mut h, &[*b], ParserError::UrlEncodedValue(*b));
    }
}

#[test]
fn state_url_encoded_value_hex() {
    let (mut p, mut h) = url_encoded_value_setup();

    iter_assert_eos(
        &mut p,
        &mut h,
        &[
            (b'V', ParserState::UrlEncodedValue),
            (b'%', ParserState::UrlEncodedValueHex1),
            (b'2', ParserState::UrlEncodedValueHex2),
            (b'0', ParserState::UrlEncodedValue),
        ],
    );
}

#[test]
fn value_state_first_url_encoded_name1() {
    let (mut p, mut h) = url_encoded_value_setup();

    iter_assert_eos(
        &mut p,
        &mut h,
        &[(b'V', ParserState::UrlEncodedValue), (b';', ParserState::FirstUrlEncodedName)],
    );
}

#[test]
fn value_state_first_url_encoded_name2() {
    let (mut p, mut h) = url_encoded_value_setup();

    iter_assert_eos(
        &mut p,
        &mut h,
        &[(b'V', ParserState::UrlEncodedValue), (b'&', ParserState::FirstUrlEncodedName)],
    );
}

#[test]
fn state_url_encoded_value_plus() {
    let (mut p, mut h) = url_encoded_value_setup();

    iter_assert_eos(
        &mut p,
        &mut h,
        &[(b'V', ParserState::UrlEncodedValue), (b'+', ParserState::UrlEncodedValuePlus)],
    );
}

#[test]
fn head_method_fed_in_pieces_loses_first_byte() {
    // a lone `H` with fewer than nine bytes left is taken as the start of a response version, and
    // is not handed on when the request method turns out to start with it
    let mut p = Parser::new();
    let mut h = DebugHandler::new();

    for byte in b"HEAD / HTTP/1.1\r\n".iter() {
        assert!(p.parse_head(&mut h, &[*byte]).is_ok());
    }

    assert_eq!(b"EAD", &h.method[..]);

    // in one piece, the method is read whole
    let mut p = Parser::new();
    let mut h = DebugHandler::new();

    assert!(p.parse_head(&mut h, b"HEAD / HTTP/1.1\r\n").is_ok());
    assert_eq!(b"HEAD", &h.method[..]);
}

#[test]
fn dead_parser_stays_dead() {
    let mut p = Parser::new();
    let mut h = DebugHandler::new();

    // the error carries the offending byte, the last one processed
    assert_eq!(Err(ParserError::Method(b'1')), p.parse_head(&mut h, b"G1T / HTTP/1.1\r\n"));
    assert_eq!(2, p.byte_count());
    assert_eq!(ParserState::Dead, p.state());

    assert_eq!(Err(ParserError::Dead), p.parse_head(&mut h, b"GET / HTTP/1.1\r\n"));
    assert_eq!(2, p.byte_count());
    assert_eq!(ParserState::Dead, p.state());
}

#[test]
fn eos_processes_the_whole_stream() {
    let mut p = Parser::new();
    let mut h = DebugHandler::new();

    assert_eq!(Ok(Success::Eos(9)), p.parse_head(&mut h, b"GET /url "));
    assert_eq!(Ok(Success::Eos(10)), p.parse_head(&mut h, b"HTTP/1.1\r\n"));
    assert_eq!(19, p.byte_count());
}

#[test]
fn multipart_boundary_error_depends_on_pieces() {
    // the first boundary is compared with as much of it as the stream holds, and a mismatch is
    // reported on the first byte compared, so where the error lands depends on the pieces
    let mut p = Parser::new();
    let mut h = DebugHandler::new();

    assert_eq!(
        Err(ParserError::MultipartBoundary(b'A')),
        p.parse_multipart(&mut h, b"--AX", b"AB")
    );
    assert_eq!(3, p.byte_count());

    let mut p = Parser::new();
    let mut h = DebugHandler::new();

    assert_eq!(Ok(Success::Eos(1)), p.parse_multipart(&mut h, b"-", b"AB"));
    assert_eq!(Ok(Success::Eos(1)), p.parse_multipart(&mut h, b"-", b"AB"));
    assert_eq!(Ok(Success::Eos(1)), p.parse_multipart(&mut h, b"A", b"AB"));
    assert_eq!(
        Err(ParserError::MultipartBoundary(b'X')),
        p.parse_multipart(&mut h, b"X", b"AB")
    );
    assert_eq!(4, p.byte_count());
}

#[test]
fn head_one_letter_method_depends_on_pieces() {
    // with nine bytes or more, a lone `H` is read as a method; with fewer, it starts a response
    // version, which a space does not continue
    let mut p = Parser::new();
    let mut h = DebugHandler::new();

    assert!(matches!(p.parse_head(&mut h, b"H / HTTP/1.1\r\n\r\n"), Ok(Success::Finished(_))));
    assert_eq!(b"H", &h.method[..]);

    let mut p = Parser::new();
    let mut h = DebugHandler::new();

    assert_eq!(Ok(Success::Eos(1)), p.parse_head(&mut h, b"H"));
    assert_eq!(Err(ParserError::Method(b' ')), p.parse_head(&mut h, b" "));
}

#[test]
fn head_pieces_read_the_same_after_detection() {
    let head: &[u8] = b"POST /form?x=1 HTTP/1.1\r\nHost: example.com\r\nContent-Length: 5\r\n\
                        X-Quoted: \"a\\\"b\"\r\nX-Folded: one\r\n\ttwo\r\n\r\n";

    let mut whole = DebugHandler::new();
    let mut p = Parser::new();

    assert!(matches!(p.parse_head(&mut whole, head), Ok(Success::Finished(_))));

    // the method is told apart in the first piece, the rest comes a byte at a time
    let mut pieces = DebugHandler::new();
    let mut q = Parser::new();

    assert_eq!(Ok(Success::Eos(8)), q.parse_head(&mut pieces, &head[..8]));

    for (index, byte) in head[8..].iter().enumerate() {
        let r = q.parse_head(&mut pieces, &[*byte]);

        if 8 + index + 1 < head.len() {
            assert_eq!(Ok(Success::Eos(1)), r);
        } else {
            assert_eq!(Ok(Success::Finished(1)), r);
        }
    }

    assert_eq!(ParserState::Finished, q.state());
    assert_eq!(whole.method, pieces.method);
    assert_eq!(b"POST", &pieces.method[..]);
    assert_eq!(whole.url, pieces.url);
    assert_eq!((1, 1), (pieces.version_major, pieces.version_minor));
    assert_eq!((whole.version_major, whole.version_minor), (pieces.version_major, pieces.version_minor));
    assert_eq!(whole.header_name, pieces.header_name);
    assert_eq!(b"hostcontent-lengthx-quotedx-folded", &whole.header_name[..]);
    assert_eq!(whole.header_value, pieces.header_value);

    // a response, split after the version
    let response: &[u8] = b"HTTP/1.1 404 Not Found\r\nServer: x\r\n\r\n";

    let mut whole = DebugHandler::new();
    let mut p = Parser::new();

    assert!(matches!(p.parse_head(&mut whole, response), Ok(Success::Finished(_))));

    let mut pieces = DebugHandler::new();
    let mut q = Parser::new();

    assert_eq!(Ok(Success::Eos(9)), q.parse_head(&mut pieces, &response[..9]));

    for byte in response[9..].iter() {
        assert!(q.parse_head(&mut pieces, &[*byte]).is_ok());
    }

    assert_eq!(ParserState::Finished, q.state());
    assert_eq!(404, pieces.status_code);
    assert_eq!(whole.status_code, pieces.status_code);
    assert_eq!(whole.status, pieces.status);
    assert_eq!(whole.header_name, pieces.header_name);
    assert_eq!(whole.header_value, pieces.header_value);
}

struct StopAtPartHeaders;
impl HttpHandler for StopAtPartHeaders {
    fn on_headers_finished(&mut self) -> bool {
        false
    }
}

#[test]
fn multipart_detect_data_by_length_or_byte() {
    let mut h = StopAtPartHeaders;
    let mut p = Parser::new();

    p.init_multipart();
    p.set_boundary(b"XTestBoundaryX");

    assert_callback(
        &mut p,
        &mut h,
        b"--XTestBoundaryX\r\nHeader: Value\r\n\r\n",
        ParserState::MultipartDetectData,
        b"--XTestBoundaryX\r\nHeader: Value\r\n\r\n".len(),
    );

    p.detect_data(Some(5));
    assert_eq!(ParserState::MultipartDataByLength, p.state());

    let mut q = Parser::new();
    q.init_multipart();
    q.set_boundary(b"XTestBoundaryX");
    assert_callback(
        &mut q,
        &mut h,
        b"--XTestBoundaryX\r\nHeader: Value\r\n\r\n",
        ParserState::MultipartDetectData,
        b"--XTestBoundaryX\r\nHeader: Value\r\n\r\n".len(),
    );
    q.detect_data(None);
    assert_eq!(ParserState::MultipartDataByByte, q.state());
}

#[test]
fn multipart_boundary_line_in_pieces() {
    let (mut p, mut h) = http1_setup();

    p.init_multipart();
    p.set_boundary(b"XTestBoundaryX");

    assert_eos(&mut p, &mut h, b"--XTest", ParserState::MultipartBoundary, 7);
    assert_eos(&mut p, &mut h, b"BoundaryX", ParserState::MultipartBoundaryCr, 9);
    assert_error(&mut p, &mut h, b"X", ParserError::MultipartBoundary(b'X'));
}

#[test]
fn multipart_wrong_first_byte() {
    let (mut p, mut h) = http1_setup();

    p.init_multipart();
    p.set_boundary(b"XTestBoundaryX");

    assert_error(&mut p, &mut h, b"X-XTestBoundaryX", ParserError::MultipartBoundary(b'X'));
}

#[test]
fn head_detection_request_and_response() {
    let (mut p, mut h) = http1_setup();

    p.init_head();
    assert_eos(&mut p, &mut h, b"GET / HTTP/1.1\r\n", ParserState::HeaderCr2, 16);

    let (mut q, mut g) = http1_setup();
    q.init_head();
    assert_eos(&mut q, &mut g, b"HTTP/1.1 200 OK\r\n", ParserState::HeaderCr2, 17);

    let (mut r, mut f) = http1_setup();
    r.init_head();
    assert_error(&mut r, &mut f, b"H X", ParserError::Method(b' '));
}

#[test]
fn multipart_part_header_error() {
    let (mut p, mut h) = http1_setup();

    p.init_multipart();
    p.set_boundary(b"XTestBoundaryX");

    assert_error(
        &mut p,
        &mut h,
        b"--XTestBoundaryX\r\nBad Header: x\r\n",
        ParserError::HeaderName(b' '),
    );
}
