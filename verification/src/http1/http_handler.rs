//! The callback interface of the HTTP 1.x parser.

use crate::http1::parser::Callback;
use vstd::prelude::*;

verus! {

/// Type that handles HTTP/1.x parser events.
///
/// Every method has a default implementation that ignores the event and lets parsing continue.
///
/// The parser guarantees what it hands to some of the callbacks, as its own contracts state
/// (`event_guaranteed`): a method is made of upper-case letters, a URL of visible 7-bit bytes, a
/// status of non-control bytes, header and chunk extension names of lower-case token bytes, and
/// versions and status codes are at most 999. A handler accepts whatever it is handed.
pub trait HttpHandler: Sized {
    /// Retrieve the content length.
    ///
    /// **Called When::**
    ///
    /// Within multipart parsing, after each boundary's head data has been parsed.
    fn content_length(&mut self) -> (r: Option<usize>)
        default_ensures
            r is None,
            *final(self) == *old(self),
    {
        None
    }

    /// Callback that is executed when body parsing has completed successfully.
    ///
    /// **Returns:**
    ///
    /// `true` when parsing should continue, `false` to exit the parser function prematurely with
    /// [`Success::Callback`](../fsm/enum.Success.html#variant.Callback).
    fn on_body_finished(&mut self) -> (r: bool)
        default_ensures
            r,
            *final(self) == *old(self),
    {
        true
    }

    /// Callback that is executed when a new chunk section has been located. This is executed
    /// prior to the length, extensions, and data.
    ///
    /// **Returns:**
    ///
    /// `true` when parsing should continue, `false` to exit the parser function prematurely with
    /// [`Success::Callback`](../fsm/enum.Success.html#variant.Callback).
    fn on_chunk_begin(&mut self) -> (r: bool)
        default_ensures
            r,
            *final(self) == *old(self),
    {
        true
    }

    /// Callback that is executed when chunk encoded data has been located.
    ///
    /// *Note:* This may be executed multiple times in order to supply the entire segment.
    ///
    /// **Returns:**
    ///
    /// `true` when parsing should continue, `false` to exit the parser function prematurely with
    /// [`Success::Callback`](../fsm/enum.Success.html#variant.Callback).
    fn on_chunk_data(&mut self, _data: &[u8]) -> (r: bool)
        default_ensures
            r,
            *final(self) == *old(self),
    {
        true
    }

    /// Callback that is executed when parsing an individual chunk extension name/value pair has
    /// completed successfully.
    ///
    /// **Returns:**
    ///
    /// `true` when parsing should continue, `false` to exit the parser function prematurely with
    /// [`Success::Callback`](../fsm/enum.Success.html#variant.Callback).
    fn on_chunk_extension_finished(&mut self) -> (r: bool)
        default_ensures
            r,
            *final(self) == *old(self),
    {
        true
    }

    /// Callback that is executed when a chunk extension name has been located.
    ///
    /// *Note:* This may be executed multiple times in order to supply the entire segment.
    ///
    /// **Returns:**
    ///
    /// `true` when parsing should continue, `false` to exit the parser function prematurely with
    /// [`Success::Callback`](../fsm/enum.Success.html#variant.Callback).
    fn on_chunk_extension_name(&mut self, _name: &[u8]) -> (r: bool)
        default_ensures
            r,
            *final(self) == *old(self),
    {
        true
    }

    /// Callback that is executed when a chunk extension value has been located.
    ///
    /// *Note:* This may be executed multiple times in order to supply the entire segment.
    ///
    /// **Returns:**
    ///
    /// `true` when parsing should continue, `false` to exit the parser function prematurely with
    /// [`Success::Callback`](../fsm/enum.Success.html#variant.Callback).
    fn on_chunk_extension_value(&mut self, _value: &[u8]) -> (r: bool)
        default_ensures
            r,
            *final(self) == *old(self),
    {
        true
    }

    /// Callback that is executed when parsing all chunk extensions has completed successfully.
    ///
    /// **Returns:**
    ///
    /// `true` when parsing should continue, `false` to exit the parser function prematurely with
    /// [`Success::Callback`](../fsm/enum.Success.html#variant.Callback).
    fn on_chunk_extensions_finished(&mut self) -> (r: bool)
        default_ensures
            r,
            *final(self) == *old(self),
    {
        true
    }

    /// Callback that is executed when a chunk length has been located.
    ///
    /// **Returns:**
    ///
    /// `true` when parsing should continue, `false` to exit the parser function prematurely with
    /// [`Success::Callback`](../fsm/enum.Success.html#variant.Callback).
    fn on_chunk_length(&mut self, _size: usize) -> (r: bool)
        default_ensures
            r,
            *final(self) == *old(self),
    {
        true
    }

    /// Callback that is executed when a header name has been located.
    ///
    /// *Note:* This may be executed multiple times in order to supply the entire segment.
    ///
    /// **Returns:**
    ///
    /// `true` when parsing should continue, `false` to exit the parser function prematurely with
    /// [`Success::Callback`](../fsm/enum.Success.html#variant.Callback).
    ///
    /// **Called When:**
    ///
    /// During head parsing, multipart parsing of headers for each piece of data, or at the end of
    /// chunk encoded data when trailers are present.
    fn on_header_name(&mut self, _name: &[u8]) -> (r: bool)
        default_ensures
            r,
            *final(self) == *old(self),
    {
        true
    }

    /// Callback that is executed when a header value has been located.
    ///
    /// *Note:* This may be executed multiple times in order to supply the entire segment.
    ///
    /// **Returns:**
    ///
    /// `true` when parsing should continue, `false` to exit the parser function prematurely with
    /// [`Success::Callback`](../fsm/enum.Success.html#variant.Callback).
    ///
    /// **Called When:**
    ///
    /// During head parsing, multipart parsing of headers for each piece of data, or at the end of
    /// chunk encoded data when trailers are present.
    fn on_header_value(&mut self, _value: &[u8]) -> (r: bool)
        default_ensures
            r,
            *final(self) == *old(self),
    {
        true
    }

    /// Callback that is executed when header parsing has completed successfully.
    ///
    /// **Returns:**
    ///
    /// `true` when parsing should continue, `false` to exit the parser function prematurely with
    /// [`Success::Callback`](../fsm/enum.Success.html#variant.Callback).
    ///
    /// **Called When:**
    ///
    /// During head parsing, multipart parsing of headers for each piece of data, or at the end of
    /// chunk encoded data when trailers are present.
    fn on_headers_finished(&mut self) -> (r: bool)
        default_ensures
            r,
            *final(self) == *old(self),
    {
        true
    }

    /// Callback that is executed when parsing the initial request/response line has completed
    /// successfully.
    ///
    /// **Returns:**
    ///
    /// `true` when parsing should continue, `false` to exit the parser function prematurely with
    /// [`Success::Callback`](../fsm/enum.Success.html#variant.Callback).
    fn on_initial_finished(&mut self) -> (r: bool)
        default_ensures
            r,
            *final(self) == *old(self),
    {
        true
    }

    /// Callback that is executed when a request method has been located.
    ///
    /// *Note:* This may be executed multiple times in order to supply the entire segment.
    ///
    /// **Returns:**
    ///
    /// `true` when parsing should continue, `false` to exit the parser function prematurely with
    /// [`Success::Callback`](../fsm/enum.Success.html#variant.Callback).
    fn on_method(&mut self, _method: &[u8]) -> (r: bool)
        default_ensures
            r,
            *final(self) == *old(self),
    {
        true
    }

    /// Callback that is executed when a new multipart section has been located. This is executed
    /// prior to any headers.
    ///
    /// **Returns:**
    ///
    /// `true` when parsing should continue, `false` to exit the parser function prematurely with
    /// [`Success::Callback`](../fsm/enum.Success.html#variant.Callback).
    fn on_multipart_begin(&mut self) -> (r: bool)
        default_ensures
            r,
            *final(self) == *old(self),
    {
        true
    }

    /// Callback that is executed when multipart data has been located.
    ///
    /// *Note:* This may be executed multiple times in order to supply the entire segment.
    ///
    /// **Returns:**
    ///
    /// `true` when parsing should continue, `false` to exit the parser function prematurely with
    /// [`Success::Callback`](../fsm/enum.Success.html#variant.Callback).
    fn on_multipart_data(&mut self, _data: &[u8]) -> (r: bool)
        default_ensures
            r,
            *final(self) == *old(self),
    {
        true
    }

    /// Callback that is executed when a response status has been located.
    ///
    /// *Note:* This may be executed multiple times in order to supply the entire segment.
    ///
    /// **Returns:**
    ///
    /// `true` when parsing should continue, `false` to exit the parser function prematurely with
    /// [`Success::Callback`](../fsm/enum.Success.html#variant.Callback).
    fn on_status(&mut self, _status: &[u8]) -> (r: bool)
        default_ensures
            r,
            *final(self) == *old(self),
    {
        true
    }

    /// Callback that is executed when a response status code has been located.
    ///
    /// **Returns:**
    ///
    /// `true` when parsing should continue, `false` to exit the parser function prematurely with
    /// [`Success::Callback`](../fsm/enum.Success.html#variant.Callback).
    fn on_status_code(&mut self, _code: u16) -> (r: bool)
        default_ensures
            r,
            *final(self) == *old(self),
    {
        true
    }

    /// Callback that is executed when a request URL has been located.
    ///
    /// *Note:* This may be executed multiple times in order to supply the entire segment.
    ///
    /// **Returns:**
    ///
    /// `true` when parsing should continue, `false` to exit the parser function prematurely with
    /// [`Success::Callback`](../fsm/enum.Success.html#variant.Callback).
    fn on_url(&mut self, _url: &[u8]) -> (r: bool)
        default_ensures
            r,
            *final(self) == *old(self),
    {
        true
    }

    /// Callback that is executed when a new URL encoded name/value pair is about to be parsed.
    ///
    /// **Returns:**
    ///
    /// `true` when parsing should continue, `false` to exit the parser function prematurely with
    /// [`Success::Callback`](../fsm/enum.Success.html#variant.Callback).
    fn on_url_encoded_begin(&mut self) -> (r: bool)
        default_ensures
            r,
            *final(self) == *old(self),
    {
        true
    }

    /// Callback that is executed when a URL encoded name has been located.
    ///
    /// *Note:* This may be executed multiple times in order to supply the entire segment.
    ///
    /// **Returns:**
    ///
    /// `true` when parsing should continue, `false` to exit the parser function prematurely with
    /// [`Success::Callback`](../fsm/enum.Success.html#variant.Callback).
    fn on_url_encoded_name(&mut self, _name: &[u8]) -> (r: bool)
        default_ensures
            r,
            *final(self) == *old(self),
    {
        true
    }

    /// Callback that is executed when a URL encoded value has been located.
    ///
    /// *Note:* This may be executed multiple times in order to supply the entire segment.
    ///
    /// **Returns:**
    ///
    /// `true` when parsing should continue, `false` to exit the parser function prematurely with
    /// [`Success::Callback`](../fsm/enum.Success.html#variant.Callback).
    fn on_url_encoded_value(&mut self, _value: &[u8]) -> (r: bool)
        default_ensures
            r,
            *final(self) == *old(self),
    {
        true
    }

    /// Callback that is executed when the HTTP version has been located during the initial request
    /// or response line.
    ///
    /// **Returns:**
    ///
    /// `true` when parsing should continue, `false` to exit the parser function prematurely with
    /// [`Success::Callback`](../fsm/enum.Success.html#variant.Callback).
    fn on_version(&mut self, _major: u16, _minor: u16) -> (r: bool)
        default_ensures
            r,
            *final(self) == *old(self),
    {
        true
    }
}

/// A call on a handler: one of its `bool` callbacks, or its `reset`.
pub enum HandlerCall {
    /// A callback.
    Callback(Callback),
    /// `reset`.
    Reset,
}

/// A handler's flag after the call `call`, from `flag`: the callback `set` sets it, `reset`
/// clears it, and every other call keeps it.
pub open spec fn flag_step(flag: bool, call: HandlerCall, set: Callback) -> bool {
    if call == HandlerCall::Reset {
        false
    } else if call == HandlerCall::Callback(set) {
        true
    } else {
        flag
    }
}

/// A handler's flag after the calls `calls`, one after another, starting from `flag`.
pub open spec fn flag_after(flag: bool, calls: Seq<HandlerCall>, set: Callback) -> bool
    decreases calls.len(),
{
    if calls.len() == 0 {
        flag
    } else {
        flag_step(flag_after(flag, calls.drop_last(), set), calls.last(), set)
    }
}

/// A run of flags, one more than the calls, each the step of the one before by its call, ends
/// where `flag_after` does.
pub proof fn lemma_flag_steps(flags: Seq<bool>, calls: Seq<HandlerCall>, set: Callback)
    requires
        flags.len() == calls.len() + 1,
        forall|i: int|
            0 <= i < calls.len() ==> #[trigger] flags[i + 1] == flag_step(flags[i], calls[i], set),
    ensures
        flags.last() == flag_after(flags[0], calls, set),
    decreases calls.len(),
{
    if calls.len() > 0 {
        let n = calls.len() - 1;
        assert(flags[n + 1] == flag_step(flags[n], calls[n], set));
        lemma_flag_steps(flags.drop_last(), calls.drop_last(), set);
        assert(flags.drop_last().last() == flags[n]);
    }
}

/// No `reset` comes among the calls `calls` after the one at `i`.
pub open spec fn no_reset_after(calls: Seq<HandlerCall>, i: int) -> bool {
    forall|j: int| i < j < calls.len() ==> #[trigger] calls[j] != HandlerCall::Reset
}

/// Among the calls `calls` is the callback `set`, with no `reset` after it.
pub open spec fn set_since_reset(calls: Seq<HandlerCall>, set: Callback) -> bool {
    exists|i: int|
        0 <= i < calls.len() && calls[i] == HandlerCall::Callback(set) && #[trigger] no_reset_after(
            calls,
            i,
        )
}

/// Dropping the last call keeps the calls before it, and what follows them but that call.
proof fn lemma_no_reset_after_drop_last(calls: Seq<HandlerCall>, i: int)
    requires
        0 <= i < calls.len() - 1,
    ensures
        no_reset_after(calls, i) <==> no_reset_after(calls.drop_last(), i) && calls.last()
            != HandlerCall::Reset,
        calls.drop_last()[i] == calls[i],
{
    let rest = calls.drop_last();
    if no_reset_after(rest, i) && calls.last() != HandlerCall::Reset {
        assert forall|j: int| i < j < calls.len() implies #[trigger] calls[j] != HandlerCall::Reset by {
            if j < calls.len() - 1 {
                assert(rest[j] == calls[j]);
            }
        }
    }
    if no_reset_after(calls, i) {
        assert forall|j: int| i < j < rest.len() implies #[trigger] rest[j] != HandlerCall::Reset by {
            assert(rest[j] == calls[j]);
        }
        assert(calls[calls.len() - 1] != HandlerCall::Reset);
    }
}

/// A flag that starts cleared is set after a sequence of calls exactly when the callback that
/// sets it came, and no `reset` came after it.
pub proof fn lemma_flag_after(calls: Seq<HandlerCall>, set: Callback)
    ensures
        flag_after(false, calls, set) <==> set_since_reset(calls, set),
    decreases calls.len(),
{
    if calls.len() > 0 {
        let n = calls.len() - 1;
        let rest = calls.drop_last();
        lemma_flag_after(rest, set);
        if set_since_reset(calls, set) {
            let i = choose|i: int|
                0 <= i < calls.len() && calls[i] == HandlerCall::Callback(set)
                    && #[trigger] no_reset_after(calls, i);
            if i < n {
                lemma_no_reset_after_drop_last(calls, i);
                assert(no_reset_after(rest, i));
            }
        }
        if calls.last() == HandlerCall::Callback(set) {
            assert(no_reset_after(calls, n));
        } else if calls.last() != HandlerCall::Reset && set_since_reset(rest, set) {
            let i = choose|i: int|
                0 <= i < rest.len() && rest[i] == HandlerCall::Callback(set)
                    && #[trigger] no_reset_after(rest, i);
            lemma_no_reset_after_drop_last(calls, i);
            assert(no_reset_after(calls, i));
        }
    }
}

} // verus!
