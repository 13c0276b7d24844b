# http_box

A push oriented HTTP 1.x and 2.x parser, written in Verus: the parsers, the handlers that
collect what they report, and the field and cookie utilities carry contracts that Verus proves.

The parsers process any `&[u8]` data, one slice at a time, and report what they find through
callbacks of a handler; a callback that returns `false` stops parsing with `Success::Callback`.

## Layout

- `src/http1/`: the HTTP 1.x parser (`parser.rs`), its states, errors and callback interface.
  Each state function has a contract: the state it goes on in, the bytes it consumes, and the
  error it reports, by the bytes it reads. `resume` and the `parse_*` functions state how the
  byte count grows, that a dead parser stays dead, and that `Success::Eos` means the whole
  stream was processed. URL encoded data, chunked data, and a head once its first bytes have
  told a request from a response, read the same whatever pieces they come in:
  `url_encoded_run` and `message_run` read bytes one at a time, `law_url_encoded_pieces` and
  `law_message_pieces` show that splitting them changes nothing, and `resume` is proved to end
  where these runs end, or to fail with the same error.
- `src/http2.rs`, `src/http2/parser.rs`: HTTP 2.x frame values (error codes, flags, frame
  types, settings) and the frame header parser.
- `src/handler/`, `src/extra/`: handlers that collect headers, cookies, chunked data,
  multipart parameters and URL encoded parameters.
- `src/field.rs`, `src/cookie.rs`, `src/util.rs`: collections of named values, cookies, and
  the field segment parser that headers and cookies are read with.
- `src/byte.rs`, `src/stream.rs`, `src/fsm.rs`, `src/text.rs`: byte classes, the stream
  cursor, parser return values, and decimal text.

The tests under `tests/` run the library on concrete messages.
