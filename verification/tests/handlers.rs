use http_box::fsm::Success;
use http_box::handler::{
    ChunkDataHandler, ChunkDetails, ChunkedHandler, ContentType, DebugHandler, DebugHttp1Handler,
    HeadersHandler, MultipartHandler, TransferEncoding,
};
use http_box::http1::{HttpHandler, Parser, ParserState};

// -------------------------------------------------------------------------------------------------
// ChunkedHandler
// -------------------------------------------------------------------------------------------------

struct CollectChunks {
    data: Vec<u8>,
    calls: usize,
}

impl ChunkDataHandler for CollectChunks {
    fn on_data(&mut self, chunk: &ChunkDetails, data: &[u8]) -> bool {
        assert_eq!(false, chunk.is_finished());
        assert_eq!(0, chunk.get_index());
        assert_eq!(4, chunk.get_length());
        assert_eq!(b"data", data);
        assert_eq!("value", chunk.get_extensions().get("extension").unwrap());
        self.data.extend_from_slice(data);
        self.calls += 1;
        true
    }
}

#[test]
fn chunked_handler() {
    let mut h = ChunkedHandler::new(CollectChunks { data: Vec::new(), calls: 0 });
    let mut p = Parser::new();

    p.init_chunked();

    let r = p.resume(&mut h, b"4;extension=value\r\ndata\r\n0\r\nTrailer: value\r\n\r\n");

    assert!(matches!(r, Ok(Success::Finished(_))));
    assert!(h.is_finished());
    assert_eq!(1, h.get_index());
    assert_eq!(0, h.get_length());
    assert_eq!("value", h.get_trailers().get("trailer").unwrap());
    assert_eq!(b"data", &h.data_handler().data[..]);
    assert_eq!(1, h.data_handler().calls);
}

#[test]
fn chunked_handler_reset() {
    let mut h = ChunkedHandler::new(CollectChunks { data: Vec::new(), calls: 0 });

    assert!(h.on_chunk_length(10));
    assert!(h.on_chunk_extension_name(b"name"));
    assert!(h.on_chunk_extension_value(b"value"));
    assert!(h.on_chunk_extensions_finished());
    assert!(h.on_body_finished());

    assert_eq!(0, h.get_index());
    assert_eq!(10, h.get_length());
    assert_eq!("value", h.get_extensions().get("name").unwrap());
    assert!(h.is_finished());

    h.reset();

    assert!(!h.is_finished());
    assert_eq!(0, h.get_length());
    assert!(h.get_extensions().is_empty());
    assert!(h.get_trailers().is_empty());
    assert_eq!(0, h.details().get_length());
}

#[test]
fn chunked_handler_extensions_per_chunk() {
    let mut h = ChunkedHandler::new(CollectChunks { data: Vec::new(), calls: 0 });

    h.on_chunk_length(1);
    h.on_chunk_extension_name(b"a");
    h.on_chunk_extension_value(b"1");
    h.on_chunk_extension_name(b"b");
    h.on_chunk_extension_value(b"2");
    h.on_chunk_extensions_finished();

    assert_eq!(2, h.get_extensions().len());

    h.on_chunk_length(2);

    assert!(h.get_extensions().is_empty());
    assert_eq!(1, h.get_index());
}

// -------------------------------------------------------------------------------------------------
// HeadersHandler
// -------------------------------------------------------------------------------------------------

#[test]
fn headers_handler_request() {
    let mut h = HeadersHandler::new();
    let mut p = Parser::new();

    let r = p.resume(
        &mut h,
        b"GET / HTTP/1.1\r\n\
          Header1: value1\r\n\
          Header2: value2\r\n\
          Cookie: Cookie1=value1; Cookie2=value2\r\n\
          \r\n",
    );

    assert!(matches!(r, Ok(Success::Finished(_))));

    // header fields are normalized to lower-case
    assert_eq!("value1", h.headers().get("header1").unwrap());
    assert_eq!("value2", h.headers().get("header2").unwrap());
    assert_eq!("value1", h.header("header1").unwrap());
    assert!(h.has_header("header2"));
    assert!(!h.has_header("cookie"));

    // request details
    assert_eq!("GET", h.method());
    assert_eq!("/", h.url());
    assert_eq!(1, h.version_major());
    assert_eq!(1, h.version_minor());
    assert!(h.is_request());
    assert!(h.is_finished());

    let mut cookie = h.cookies().get("Cookie1").unwrap();

    assert_eq!("value1", cookie.value());

    cookie = h.cookies().get("Cookie2").unwrap();

    assert_eq!("value2", cookie.value());
    assert!(h.has_cookie("Cookie2"));
}

#[test]
fn headers_handler_response() {
    let mut h = HeadersHandler::new();
    let mut p = Parser::new();

    let r = p.resume(
        &mut h,
        b"HTTP/1.1 200 OK\r\n\
          Header1: value1\r\n\
          Header2: value2\r\n\
          Set-Cookie: Cookie1=value1; domain=.domain1; path=/path1\r\n\
          Set-Cookie: Cookie2=value2; domain=.domain2; path=/path2\r\n\
          \r\n",
    );

    assert!(matches!(r, Ok(Success::Finished(_))));

    assert_eq!("value1", h.headers().get("header1").unwrap());
    assert_eq!("value2", h.headers().get("header2").unwrap());

    // response details
    assert_eq!(1, h.version_major());
    assert_eq!(1, h.version_minor());
    assert_eq!(200, h.status_code());
    assert_eq!("OK", h.status());
    assert!(!h.is_request());

    let mut cookie = h.cookie("Cookie1").unwrap();

    assert_eq!("value1", cookie.value());
    assert_eq!(".domain1", cookie.domain().unwrap());
    assert_eq!("/path1", cookie.path().unwrap());

    cookie = h.cookie("Cookie2").unwrap();

    assert_eq!("value2", cookie.value());
    assert_eq!(".domain2", cookie.domain().unwrap());
    assert_eq!("/path2", cookie.path().unwrap());
}

#[test]
fn headers_handler_content_length() {
    let mut h = HeadersHandler::new();

    assert_eq!(None, h.content_length());

    h.on_header_name(b"content-length");
    h.on_header_value(b"1234");
    h.on_headers_finished();

    assert_eq!(Some(1234), h.content_length());

    h.reset();
    h.on_header_name(b"content-length");
    h.on_header_value(b"12a");
    h.on_headers_finished();

    assert_eq!(None, h.content_length());

    h.reset();
    h.on_header_name(b"content-length");
    h.on_header_value(b"99999999999999999999999999");
    h.on_headers_finished();

    assert_eq!(None, h.content_length());
}

#[test]
fn headers_handler_reset() {
    let mut h = HeadersHandler::new();

    h.on_method(b"POST");
    h.on_url(b"/x");
    h.on_status_code(404);
    h.on_version(1, 0);
    h.on_header_name(b"a");
    h.on_header_value(b"b");
    h.on_headers_finished();

    assert_eq!("POST", h.method());
    assert_eq!("b", h.header("a").unwrap());

    h.reset();

    assert_eq!("", h.method());
    assert_eq!("", h.url());
    assert_eq!(0, h.status_code());
    assert_eq!(0, h.version_major());
    assert!(h.header("a").is_none());
    assert!(!h.is_finished());
}

// -------------------------------------------------------------------------------------------------
// Debug handlers
// -------------------------------------------------------------------------------------------------

#[test]
fn debug_http1_handler() {
    let mut h = DebugHttp1Handler::new();
    let mut p = Parser::new();

    let r = p.resume(&mut h, b"GET /path HTTP/1.1\r\nHost: example\r\n\r\n");

    assert!(matches!(r, Ok(Success::Finished(_))));
    assert_eq!(b"GET", &h.method[..]);
    assert_eq!(b"/path", &h.url[..]);
    assert_eq!(b"host", &h.header_field[..]);
    assert_eq!(b"example", &h.header_value[..]);
    assert!(h.headers_finished);
    assert_eq!(ParserState::Finished, p.state());

    h.reset();

    assert!(h.method.is_empty());
    assert!(!h.headers_finished);
}

#[test]
fn debug_handler() {
    let mut h = DebugHandler::new();

    assert_eq!(ContentType::Unset, h.content_type);

    h.set_content_type(ContentType::Multipart(b"boundary".to_vec()));
    h.set_transfer_encoding(TransferEncoding::Chunked);

    assert_eq!(ContentType::Multipart(b"boundary".to_vec()), h.content_type);
    assert_eq!(TransferEncoding::Chunked, h.transfer_encoding);

    h.reset();

    assert_eq!(ContentType::Unset, h.content_type);
    assert_eq!(TransferEncoding::Unset, h.transfer_encoding);
}

// -------------------------------------------------------------------------------------------------
// UrlEncodedHandler and the parse functions
// -------------------------------------------------------------------------------------------------

#[test]
fn url_encoded_handler() {
    let mut h = http_box::handler::UrlEncodedHandler::new();
    let mut p = Parser::new();

    let stream = b"Field1=Value%201&Field2=Value%202&Field1=Value%203";
    let r = p.parse_url_encoded(&mut h, stream, stream.len());

    assert!(matches!(r, Ok(Success::Finished(_))));
    assert!(h.is_finished());
    assert_eq!("Value 1", h.field("Field1").unwrap().first().unwrap());
    assert_eq!("Value 2", h.field("Field2").unwrap().first().unwrap());
    assert_eq!("Value 3", h.field("Field1").unwrap().get(1).unwrap());
    assert!(h.has_field("Field2"));
    assert!(!h.has_field("Field3"));
    assert_eq!(2, h.fields().len());

    h.reset();

    assert!(!h.is_finished());
    assert!(!h.has_field("Field1"));
}

#[test]
fn parse_url_encoded_in_pieces() {
    let mut h = http_box::handler::UrlEncodedHandler::new();
    let mut p = Parser::new();

    let r = p.parse_url_encoded(&mut h, b"a=1&b", 9);
    assert!(matches!(r, Ok(Success::Eos(5))));

    // only the remaining length is processed, the rest of the stream is left alone
    let r = p.parse_url_encoded(&mut h, b"=2&cXXXX", 0);
    assert!(matches!(r, Ok(Success::Finished(4))));

    assert_eq!("1", h.field("a").unwrap().first().unwrap());
    assert_eq!("2", h.field("b").unwrap().first().unwrap());
    assert_eq!("", h.field("c").unwrap().first().unwrap());

    // a finished parser reports that it is finished
    assert!(matches!(p.parse_url_encoded(&mut h, b"x", 1), Ok(Success::Finished(0))));
}

#[test]
fn parse_chunked_and_head() {
    let mut h = DebugHttp1Handler::new();
    let mut p = Parser::new();

    let r = p.parse_chunked(&mut h, b"3\r\nabc\r\n0\r\n\r\n");

    assert!(matches!(r, Ok(Success::Finished(_))));
    assert_eq!(b"abc", &h.chunk_data[..]);

    let mut h = DebugHttp1Handler::new();
    let mut p = Parser::new();

    let r = p.parse_head(&mut h, b"HTTP/1.0 404 Not Found\r\n\r\n");

    assert!(matches!(r, Ok(Success::Finished(_))));
    assert_eq!(404, h.status_code);
    assert_eq!(b"Not Found", &h.status[..]);
    assert_eq!((1, 0), (h.version_major, h.version_minor));
}

#[test]
fn parse_multipart() {
    let mut h = DebugHttp1Handler::new();
    let mut p = Parser::new();

    let r = p.parse_multipart(
        &mut h,
        b"--XBoundaryX\r\nContent-Type: text/plain\r\n\r\nhello\r\n--XBoundaryX--",
        b"XBoundaryX",
    );

    assert!(matches!(r, Ok(Success::Finished(_))));
    assert_eq!(b"hello", &h.multipart_data[..]);
    assert_eq!(b"content-type", &h.header_field[..]);

    assert!(matches!(p.parse_multipart(&mut h, b"more", b"XBoundaryX"), Ok(Success::Finished(0))));
}

#[test]
fn field_push_slice() {
    let mut map = http_box::field::FieldMap::new();

    map.push_slice(b"key", b"value1").push_slice(b"key", b"value2");

    assert_eq!(1, map.len());
    assert_eq!("value2", map.field("key").unwrap().get(1).unwrap());

    let mut value = http_box::field::FieldValue::new();

    value.push_slice(b"v");

    assert_eq!("v", value.first().unwrap());
}

// -------------------------------------------------------------------------------------------------
// MultipartHandler
// -------------------------------------------------------------------------------------------------

#[test]
fn multipart_handler_example() {
    let mut h = MultipartHandler::new(b"ExampleBoundary");
    let mut p = Parser::new();

    let r = p.parse_multipart(
        &mut h,
        b"--ExampleBoundary\r\n\
          Content-Disposition: form-data; name=\"field1\"\r\n\
          Content-Length: 7\r\n\
          \r\n\
          value 1\r\n\
          --ExampleBoundary\r\n\
          Content-Disposition: form-data; name=\"field1\"\r\n\
          Content-Length: 7\r\n\
          \r\n\
          value 2\r\n\
          --ExampleBoundary\r\n\
          Content-Disposition: form-data; name=\"field2\"\r\n\
          Content-Length: 7\r\n\
          \r\n\
          value 3\r\n\
          --ExampleBoundary--\r\n",
        b"ExampleBoundary",
    );

    assert!(matches!(r, Ok(Success::Finished(_))));
    assert_eq!("value 1", h.parameter("field1").unwrap().get(0).unwrap());
    assert_eq!("value 2", h.parameter("field1").unwrap().get(1).unwrap());
    assert_eq!("value 3", h.parameter("field2").unwrap().first().unwrap());
    assert!(h.is_finished());
    assert_eq!(2, h.parameters().len());
    assert!(h.has_parameter("field2"));
    assert!(!h.has_parameter("field3"));
    assert_eq!(b"ExampleBoundary", h.multipart_boundary());
}

#[test]
fn multipart_handler_without_length() {
    let mut h = MultipartHandler::new(b"XB");
    let mut p = Parser::new();

    let r = p.parse_multipart(
        &mut h,
        b"--XB\r\n\
          Content-Disposition: form-data; NAME=plain\r\n\
          \r\n\
          some text\r\n\
          --XB--\r\n",
        b"XB",
    );

    assert!(matches!(r, Ok(Success::Finished(_))));
    assert_eq!("some text", h.parameter("plain").unwrap().first().unwrap());
    assert!(h.has_header("content-disposition"));
    assert_eq!(Some("form-data; NAME=plain"), h.header("content-disposition"));
    assert_eq!(1, h.headers().len());
}

#[test]
fn multipart_handler_skips_files_and_unknown_parts() {
    let mut h = MultipartHandler::new(b"XB");
    let mut p = Parser::new();

    let r = p.parse_multipart(
        &mut h,
        b"--XB\r\n\
          Content-Disposition: form-data; name=\"upload\"; filename=\"a.txt\"\r\n\
          \r\n\
          file data\r\n\
          --XB\r\n\
          Content-Type: text/plain\r\n\
          \r\n\
          no disposition\r\n\
          --XB\r\n\
          Content-Disposition: form-data; name=\"kept\"\r\n\
          \r\n\
          yes\r\n\
          --XB--\r\n",
        b"XB",
    );

    assert!(matches!(r, Ok(Success::Finished(_))));
    assert!(!h.has_parameter("upload"));
    assert_eq!(1, h.parameters().len());
    assert_eq!("yes", h.parameter("kept").unwrap().first().unwrap());
}

#[test]
fn multipart_handler_drops_invalid_utf8() {
    let mut h = MultipartHandler::new(b"XB");

    assert!(h.on_multipart_begin());
    assert!(h.on_header_name(b"content-disposition"));
    assert!(h.on_header_value(b"form-data; name=bad"));
    assert!(h.on_headers_finished());
    assert!(h.on_multipart_data(b"\xFF\xFE"));
    assert!(h.on_multipart_begin());
    assert!(!h.has_parameter("bad"));
    assert_eq!(0, h.headers().len());

    assert!(h.on_header_name(b"content-disposition"));
    assert!(h.on_header_value(b"form-data; name=good"));
    assert!(h.on_header_name(b"content-length"));
    assert!(h.on_header_value(b"4"));
    assert!(h.on_headers_finished());
    assert_eq!(Some(4), h.content_length());
    assert!(h.on_multipart_data(b"caf\xC3\xA9"));
    assert!(h.on_body_finished());
    assert_eq!("café", h.parameter("good").unwrap().first().unwrap());
    assert!(h.is_finished());

    h.set_max_file_size(10);
    h.set_max_parameter_size(20);
    h.set_upload_path("/var/tmp");
    h.reset();
    assert!(!h.is_finished());
    assert_eq!(0, h.parameters().len());
    assert_eq!(0, h.headers().len());
    assert_eq!(b"XB", h.multipart_boundary());
}

#[test]
fn debug_handler_copies_types() {
    let mut h = DebugHandler::new();

    assert_eq!(ContentType::Unset, h.get_content_type());
    assert_eq!(TransferEncoding::Unset, h.get_transfer_encoding());

    h.set_content_type(ContentType::Multipart(b"XB".to_vec()));
    h.set_transfer_encoding(TransferEncoding::Other(b"br".to_vec()));

    assert_eq!(ContentType::Multipart(b"XB".to_vec()), h.get_content_type());
    assert_eq!(TransferEncoding::Other(b"br".to_vec()), h.get_transfer_encoding());

    h.set_transfer_encoding(TransferEncoding::Gzip);
    assert_eq!(TransferEncoding::Gzip, h.get_transfer_encoding());
}

#[test]
fn extra_url_encoded_handler_example() {
    let mut h = http_box::extra::handler::UrlEncodedHandler::new();
    let mut p = Parser::new();

    let r = p.parse_url_encoded(
        &mut h,
        b"Field1=Value%201&Field2=Value%202&Field1=Value%203",
        50,
    );

    assert!(matches!(r, Ok(Success::Finished(_))));
    assert_eq!("Value 1", h.parameter("Field1").unwrap().first().unwrap());
    assert_eq!("Value 2", h.parameter("Field2").unwrap().first().unwrap());
    assert_eq!("Value 3", h.parameter("Field1").unwrap().get(1).unwrap());
    assert!(h.is_finished());
    assert!(h.has_parameter("Field2"));
    assert_eq!(2, h.parameters().len());

    h.reset();
    assert!(!h.is_finished());
    assert!(!h.has_parameter("Field1"));
}

#[test]
fn extra_url_encoded_handler_drops_invalid_utf8() {
    let mut h = http_box::extra::handler::UrlEncodedHandler::new();
    let mut p = Parser::new();

    let r = p.parse_url_encoded(&mut h, b"bad=%FF&good=caf%C3%A9", 22);

    assert!(matches!(r, Ok(Success::Finished(_))));
    assert!(!h.has_parameter("bad"));
    assert_eq!("café", h.parameter("good").unwrap().first().unwrap());
}

#[test]
fn url_encoded_pieces_read_the_same() {
    let body = b"first=a%41b+c&second=x%2By;third";

    // whole
    let mut whole = http_box::handler::UrlEncodedHandler::new();
    let mut p = Parser::new();

    assert!(matches!(
        p.parse_url_encoded(&mut whole, body, body.len() + 1),
        Ok(Success::Eos(_))
    ));

    let whole_state = p.state();

    // one byte at a time
    let mut pieces = http_box::handler::UrlEncodedHandler::new();
    let mut q = Parser::new();

    for byte in body.iter() {
        assert!(matches!(
            q.parse_url_encoded(&mut pieces, &[*byte], body.len() + 1),
            Ok(Success::Eos(1))
        ));
    }

    assert_eq!(whole_state, q.state());
    assert_eq!(ParserState::UrlEncodedName, q.state());

    // the last parameter is still being read: finish both
    assert!(matches!(p.parse_url_encoded(&mut whole, b"!", 0), Ok(Success::Finished(_))));
    assert!(matches!(q.parse_url_encoded(&mut pieces, b"!", 0), Ok(Success::Finished(_))));

    for name in ["first", "second", "third"].iter() {
        assert_eq!(whole.field(name).map(|v| v.as_vec().clone()), pieces.field(name).map(|v| v.as_vec().clone()));
    }

    assert_eq!("aAb c", whole.field("first").unwrap().first().unwrap());
    assert_eq!("x+y", whole.field("second").unwrap().first().unwrap());
}

#[test]
fn chunked_pieces_read_the_same() {
    let body: &[u8] = b"a;Ext=\"v\\\"x\";flag\r\n0123456789\r\n1A\r\nabcdefghijklmnopqrstuvwxyz\r\n\
                        0\r\nTransfer-Encoding: chunked\r\nX-Long: a\r\n  folded\r\n\r\n";

    // whole
    let mut whole = DebugHttp1Handler::new();
    let mut p = Parser::new();

    assert!(matches!(p.parse_chunked(&mut whole, body), Ok(Success::Finished(_))));

    // one byte at a time
    let mut pieces = DebugHttp1Handler::new();
    let mut q = Parser::new();

    q.init_chunked();

    for (index, byte) in body.iter().enumerate() {
        let r = q.resume(&mut pieces, &[*byte]);

        if index + 1 < body.len() {
            assert!(matches!(r, Ok(Success::Eos(1))));
        } else {
            assert!(matches!(r, Ok(Success::Finished(1))));
        }
    }

    assert_eq!(ParserState::Finished, p.state());
    assert_eq!(p.state(), q.state());
    assert_eq!(whole.chunk_data, pieces.chunk_data);
    assert_eq!(b"0123456789abcdefghijklmnopqrstuvwxyz", &whole.chunk_data[..]);
    assert_eq!(whole.chunk_extension_name, pieces.chunk_extension_name);
    assert_eq!(b"extflag", &whole.chunk_extension_name[..]);
    assert_eq!(whole.chunk_extension_value, pieces.chunk_extension_value);
    assert_eq!(b"v\"x", &whole.chunk_extension_value[..]);
    assert_eq!(whole.header_field, pieces.header_field);
    assert_eq!(b"transfer-encodingx-long", &whole.header_field[..]);
}

#[test]
fn chunked_error_comes_on_the_same_byte_in_pieces() {
    let body: &[u8] = b"4\r\ndata\r\nZ\r\n";

    let mut whole = DebugHttp1Handler::new();
    let mut p = Parser::new();

    let r = p.parse_chunked(&mut whole, body);

    assert!(matches!(r, Err(http_box::http1::ParserError::ChunkLength(b'Z'))));
    assert_eq!(10, p.byte_count());

    let mut pieces = DebugHttp1Handler::new();
    let mut q = Parser::new();

    q.init_chunked();

    assert!(matches!(q.resume(&mut pieces, &body[..5]), Ok(Success::Eos(5))));
    assert!(matches!(
        q.resume(&mut pieces, &body[5..]),
        Err(http_box::http1::ParserError::ChunkLength(b'Z'))
    ));
    assert_eq!(10, q.byte_count());
}

#[test]
fn headers_handler_no_header_lines() {
    let mut h = HeadersHandler::new();

    h.on_method(b"GET");
    h.on_url(b"/");
    h.on_version(1, 1);
    assert!(h.on_initial_finished());
    assert!(!h.is_finished());
    assert!(h.on_headers_finished());

    assert!(h.is_finished());
    assert!(h.headers().is_empty());
    assert_eq!(None, h.header(""));
}
