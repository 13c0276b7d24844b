//! HTTP 1.x handler implementation for processing chunk encoded data.

use crate::field::StringMap;
use crate::http1::HttpHandler;
use crate::http1::http_handler::{flag_step, lemma_flag_after, lemma_flag_steps, set_since_reset, HandlerCall};
use crate::http1::parser::Callback;
use crate::util::{string_from_bytes, utf8_lossy_text};
use vstd::prelude::*;

verus! {

/// Receiver of the data of each chunk that a `ChunkedHandler` is given.
pub trait ChunkDataHandler {
    /// Receive a slice of the current chunk's data, along with the details of the chunk.
    ///
    /// Returns `true` when parsing should continue, `false` to exit the parser function
    /// prematurely with `Success::Callback`.
    fn on_data(&mut self, chunk: &ChunkDetails, data: &[u8]) -> bool;
}

/// Details of the chunked data parsed so far: the current chunk's index, length and extensions,
/// and the trailers.
pub struct ChunkDetails {
    /// Map of extensions for the current chunk.
    extensions: StringMap,
    /// Extension name buffer and trailer field buffer.
    field_buffer: Vec<u8>,
    /// Indicates that the chunked data is finished parsing.
    finished: bool,
    /// The number of chunks located so far.
    index: u32,
    /// Current chunk length.
    length: usize,
    /// Extension name/value, and trailer field/value toggle: set once a value has been given.
    toggle: bool,
    /// Map of trailers.
    trailers: StringMap,
    /// Extension value buffer and trailer value buffer.
    value_buffer: Vec<u8>,
}

impl ChunkDetails {
    /// The extensions of the current chunk.
    pub closed spec fn spec_extensions(&self) -> Map<Seq<char>, Seq<char>> {
        self.extensions@
    }

    /// The trailers.
    pub closed spec fn spec_trailers(&self) -> Map<Seq<char>, Seq<char>> {
        self.trailers@
    }

    /// The number of chunks located so far.
    pub closed spec fn spec_index(&self) -> u32 {
        self.index
    }

    /// The current chunk length.
    pub closed spec fn spec_length(&self) -> usize {
        self.length
    }

    /// Indicates that the chunked data is finished parsing.
    pub closed spec fn spec_finished(&self) -> bool {
        self.finished
    }

    /// The name collected for the extension or trailer being parsed.
    pub closed spec fn spec_field_buffer(&self) -> Seq<u8> {
        self.field_buffer@
    }

    /// The value collected for the extension or trailer being parsed.
    pub closed spec fn spec_value_buffer(&self) -> Seq<u8> {
        self.value_buffer@
    }

    /// Indicates that a value has been given for the extension or trailer being parsed.
    pub closed spec fn spec_toggle(&self) -> bool {
        self.toggle
    }

    /// Nothing has been parsed.
    pub open spec fn is_cleared(&self) -> bool {
        &&& self.spec_extensions() == Map::<Seq<char>, Seq<char>>::empty()
        &&& self.spec_trailers() == Map::<Seq<char>, Seq<char>>::empty()
        &&& self.spec_index() == 0
        &&& self.spec_length() == 0
        &&& !self.spec_finished()
        &&& self.spec_field_buffer().len() == 0
        &&& self.spec_value_buffer().len() == 0
        &&& !self.spec_toggle()
    }

    /// The details of a handler that has parsed nothing.
    fn new() -> (r: ChunkDetails)
        ensures
            r.is_cleared(),
    {
        ChunkDetails {
            extensions: StringMap::new(),
            field_buffer: Vec::new(),
            finished: false,
            index: 0,
            length: 0,
            toggle: false,
            trailers: StringMap::new(),
            value_buffer: Vec::new(),
        }
    }

    /// Retrieve the extensions for the current chunk.
    pub fn get_extensions(&self) -> (r: &StringMap)
        ensures
            r@ == self.spec_extensions(),
    {
        &self.extensions
    }

    /// Retrieve the current chunk index, counting from zero.
    pub fn get_index(&self) -> (r: u32)
        requires
            self.spec_index() > 0,
        ensures
            r == self.spec_index() - 1,
    {
        self.index - 1
    }

    /// Retrieve the length for the current chunk.
    pub fn get_length(&self) -> (r: usize)
        ensures
            r == self.spec_length(),
    {
        self.length
    }

    /// Retrieve the trailers.
    pub fn get_trailers(&self) -> (r: &StringMap)
        ensures
            r@ == self.spec_trailers(),
    {
        &self.trailers
    }

    /// Indicates that the body is finished parsing.
    pub fn is_finished(&self) -> (r: bool)
        ensures
            r == self.spec_finished(),
    {
        self.finished
    }

    /// Clear the name and value buffers.
    fn clear_buffers(&mut self)
        ensures
            *final(self) == (ChunkDetails {
                field_buffer: final(self).field_buffer,
                value_buffer: final(self).value_buffer,
                ..*old(self)
            }),
            final(self).field_buffer@.len() == 0,
            final(self).value_buffer@.len() == 0,
    {
        self.field_buffer = Vec::new();
        self.value_buffer = Vec::new();
    }

    /// Flush the most recent extension name/value: an extension with an empty name is dropped.
    fn flush_extension(&mut self)
        ensures
            final(self).extensions@ == if old(self).field_buffer@.len() > 0 {
                old(self).extensions@.insert(
                    utf8_lossy_text(old(self).field_buffer@),
                    utf8_lossy_text(old(self).value_buffer@),
                )
            } else {
                old(self).extensions@
            },
            final(self).field_buffer@.len() == 0,
            final(self).value_buffer@.len() == 0,
            final(self).trailers == old(self).trailers,
            final(self).index == old(self).index,
            final(self).length == old(self).length,
            final(self).finished == old(self).finished,
            final(self).toggle == old(self).toggle,
    {
        if self.field_buffer.len() > 0 {
            let name = string_from_bytes(self.field_buffer.as_slice());
            let value = string_from_bytes(self.value_buffer.as_slice());
            self.extensions.insert(name, value);
        }
        self.clear_buffers();
    }

    /// Flush the most recent trailer field/value: a trailer with an empty name is dropped.
    fn flush_trailer(&mut self)
        ensures
            final(self).trailers@ == if old(self).field_buffer@.len() > 0 {
                old(self).trailers@.insert(
                    utf8_lossy_text(old(self).field_buffer@),
                    utf8_lossy_text(old(self).value_buffer@),
                )
            } else {
                old(self).trailers@
            },
            final(self).field_buffer@.len() == 0,
            final(self).value_buffer@.len() == 0,
            final(self).extensions == old(self).extensions,
            final(self).index == old(self).index,
            final(self).length == old(self).length,
            final(self).finished == old(self).finished,
            final(self).toggle == old(self).toggle,
    {
        if self.field_buffer.len() > 0 {
            let name = string_from_bytes(self.field_buffer.as_slice());
            let value = string_from_bytes(self.value_buffer.as_slice());
            self.trailers.insert(name, value);
        }
        self.clear_buffers();
    }
}

/// `ChunkedHandler` is a suitable handler for chunked transfer encoding parsing: it hands each
/// slice of chunk data to its data handler, and keeps the extensions of the current chunk and
/// the trailers.
pub struct ChunkedHandler<F: ChunkDataHandler> {
    /// Data handler.
    data_fn: F,
    /// Details of the chunked data parsed so far.
    details: ChunkDetails,
    /// The calls made on the data handler, oldest first: the details and data it was handed,
    /// and its answer.
    calls: Ghost<Seq<(ChunkDetails, Seq<u8>, bool)>>,
}

impl<F: ChunkDataHandler> ChunkedHandler<F> {
    /// The details of the chunked data parsed so far.
    pub closed spec fn spec_details(&self) -> ChunkDetails {
        self.details
    }

    /// The data handler.
    pub closed spec fn spec_data_fn(&self) -> F {
        self.data_fn
    }

    /// The calls made on the data handler, oldest first: the details of the chunk and the data
    /// it was handed, and its answer.
    pub closed spec fn spec_calls(&self) -> Seq<(ChunkDetails, Seq<u8>, bool)> {
        self.calls@
    }

    /// Create a new `ChunkedHandler`.
    ///
    /// # Arguments
    ///
    /// **`data_fn`**
    ///
    /// The receiver of each slice of chunk data, along with the current chunk's details.
    pub fn new(data_fn: F) -> (r: ChunkedHandler<F>)
        ensures
            r.spec_details().is_cleared(),
            r.spec_data_fn() == data_fn,
            r.spec_calls() == Seq::<(ChunkDetails, Seq<u8>, bool)>::empty(),
    {
        ChunkedHandler { data_fn: data_fn, details: ChunkDetails::new(), calls: Ghost(Seq::empty()) }
    }

    /// Retrieve the data handler.
    pub fn data_handler(&self) -> (r: &F)
        ensures
            *r == self.spec_data_fn(),
    {
        &self.data_fn
    }

    /// Retrieve the details of the chunked data parsed so far.
    pub fn details(&self) -> (r: &ChunkDetails)
        ensures
            *r == self.spec_details(),
    {
        &self.details
    }

    /// Retrieve the extensions for the current chunk.
    pub fn get_extensions(&self) -> (r: &StringMap)
        ensures
            r@ == self.spec_details().spec_extensions(),
    {
        self.details.get_extensions()
    }

    /// Retrieve the current chunk index, counting from zero.
    pub fn get_index(&self) -> (r: u32)
        requires
            self.spec_details().spec_index() > 0,
        ensures
            r == self.spec_details().spec_index() - 1,
    {
        self.details.get_index()
    }

    /// Retrieve the length for the current chunk.
    pub fn get_length(&self) -> (r: usize)
        ensures
            r == self.spec_details().spec_length(),
    {
        self.details.get_length()
    }

    /// Retrieve the trailers.
    pub fn get_trailers(&self) -> (r: &StringMap)
        ensures
            r@ == self.spec_details().spec_trailers(),
    {
        self.details.get_trailers()
    }

    /// Indicates that the body is finished parsing.
    pub fn is_finished(&self) -> (r: bool)
        ensures
            r == self.spec_details().spec_finished(),
    {
        self.details.is_finished()
    }

    /// Reset the handler back to its original state.
    pub fn reset(&mut self)
        ensures
            final(self).spec_details().is_cleared(),
            final(self).spec_data_fn() == old(self).spec_data_fn(),
            final(self).spec_calls() == old(self).spec_calls(),
    {
        self.details = ChunkDetails::new();
    }
}

impl<F: ChunkDataHandler> HttpHandler for ChunkedHandler<F> {
    fn on_body_finished(&mut self) -> (r: bool)
        ensures
            r,
            final(self).spec_details().spec_finished(),
            final(self).spec_details().spec_extensions() == old(self).spec_details().spec_extensions(),
            final(self).spec_details().spec_trailers() == old(self).spec_details().spec_trailers(),
            final(self).spec_details().spec_index() == old(self).spec_details().spec_index(),
            final(self).spec_details().spec_length() == old(self).spec_details().spec_length(),
            final(self).spec_details().spec_field_buffer() == old(self).spec_details().spec_field_buffer(),
            final(self).spec_details().spec_value_buffer() == old(self).spec_details().spec_value_buffer(),
            final(self).spec_details().spec_toggle() == old(self).spec_details().spec_toggle(),
            final(self).spec_data_fn() == old(self).spec_data_fn(),
            final(self).spec_calls() == old(self).spec_calls(),
    {
        self.details.finished = true;
        true
    }

    fn on_chunk_data(&mut self, data: &[u8]) -> (r: bool)
        ensures
            final(self).spec_details() == old(self).spec_details(),
            final(self).spec_calls() == old(self).spec_calls().push(
                (old(self).spec_details(), data@, r),
            ),
    {
        let r = self.data_fn.on_data(&self.details, data);
        proof {
            self.calls@ = self.calls@.push((self.details, data@, r));
        }
        r
    }

    fn on_chunk_extension_name(&mut self, name: &[u8]) -> (r: bool)
        ensures
            r,
            !final(self).spec_details().spec_toggle(),
            old(self).spec_details().spec_toggle() ==> {
                &&& final(self).spec_details().spec_field_buffer() == name@
                &&& final(self).spec_details().spec_value_buffer().len() == 0
                &&& final(self).spec_details().spec_extensions() == if old(self).spec_details().spec_field_buffer().len() > 0 {
                old(self).spec_details().spec_extensions().insert(
                    utf8_lossy_text(old(self).spec_details().spec_field_buffer()),
                    utf8_lossy_text(old(self).spec_details().spec_value_buffer()),
                )
            } else {
                old(self).spec_details().spec_extensions()
            }
            },
            !old(self).spec_details().spec_toggle() ==> {
                &&& final(self).spec_details().spec_field_buffer() == old(self).spec_details().spec_field_buffer() + name@
                &&& final(self).spec_details().spec_value_buffer() == old(self).spec_details().spec_value_buffer()
                &&& final(self).spec_details().spec_extensions() == old(self).spec_details().spec_extensions()
            },
            final(self).spec_details().spec_trailers() == old(self).spec_details().spec_trailers(),
            final(self).spec_details().spec_index() == old(self).spec_details().spec_index(),
            final(self).spec_details().spec_length() == old(self).spec_details().spec_length(),
            final(self).spec_details().spec_finished() == old(self).spec_details().spec_finished(),
            final(self).spec_data_fn() == old(self).spec_data_fn(),
            final(self).spec_calls() == old(self).spec_calls(),
    {
        if self.details.toggle {
            self.details.flush_extension();
            self.details.toggle = false;
        }
        self.details.field_buffer.extend_from_slice(name);
        true
    }

    fn on_chunk_extension_value(&mut self, value: &[u8]) -> (r: bool)
        ensures
            r,
            final(self).spec_details().spec_toggle(),
            final(self).spec_details().spec_value_buffer() == old(self).spec_details().spec_value_buffer() + value@,
            final(self).spec_details().spec_field_buffer() == old(self).spec_details().spec_field_buffer(),
            final(self).spec_details().spec_extensions() == old(self).spec_details().spec_extensions(),
            final(self).spec_details().spec_trailers() == old(self).spec_details().spec_trailers(),
            final(self).spec_details().spec_index() == old(self).spec_details().spec_index(),
            final(self).spec_details().spec_length() == old(self).spec_details().spec_length(),
            final(self).spec_details().spec_finished() == old(self).spec_details().spec_finished(),
            final(self).spec_data_fn() == old(self).spec_data_fn(),
            final(self).spec_calls() == old(self).spec_calls(),
    {
        self.details.value_buffer.extend_from_slice(value);
        self.details.toggle = true;
        true
    }

    fn on_chunk_extensions_finished(&mut self) -> (r: bool)
        ensures
            r,
            final(self).spec_details().spec_extensions() == if old(self).spec_details().spec_field_buffer().len() > 0 {
                old(self).spec_details().spec_extensions().insert(
                    utf8_lossy_text(old(self).spec_details().spec_field_buffer()),
                    utf8_lossy_text(old(self).spec_details().spec_value_buffer()),
                )
            } else {
                old(self).spec_details().spec_extensions()
            },
            old(self).spec_details().spec_field_buffer().len() > 0 ==> final(self).spec_details().spec_field_buffer().len() == 0
                && final(self).spec_details().spec_value_buffer().len() == 0,
            old(self).spec_details().spec_field_buffer().len() == 0 ==> final(self).spec_details().spec_field_buffer() == old(self).spec_details().spec_field_buffer()
                && final(self).spec_details().spec_value_buffer() == old(self).spec_details().spec_value_buffer(),
            final(self).spec_details().spec_trailers() == old(self).spec_details().spec_trailers(),
            final(self).spec_details().spec_index() == old(self).spec_details().spec_index(),
            final(self).spec_details().spec_length() == old(self).spec_details().spec_length(),
            final(self).spec_details().spec_finished() == old(self).spec_details().spec_finished(),
            final(self).spec_details().spec_toggle() == old(self).spec_details().spec_toggle(),
            final(self).spec_data_fn() == old(self).spec_data_fn(),
            final(self).spec_calls() == old(self).spec_calls(),
    {
        if self.details.field_buffer.len() > 0 {
            self.details.flush_extension();
        }
        true
    }

    fn on_chunk_length(&mut self, length: usize) -> (r: bool)
        ensures
            r,
            final(self).spec_details().spec_extensions() == Map::<Seq<char>, Seq<char>>::empty(),
            final(self).spec_details().spec_field_buffer().len() == 0,
            final(self).spec_details().spec_value_buffer().len() == 0,
            final(self).spec_details().spec_index() == old(self).spec_details().spec_index().wrapping_add(1),
            final(self).spec_details().spec_length() == length,
            final(self).spec_details().spec_trailers() == old(self).spec_details().spec_trailers(),
            final(self).spec_details().spec_finished() == old(self).spec_details().spec_finished(),
            final(self).spec_details().spec_toggle() == old(self).spec_details().spec_toggle(),
            final(self).spec_data_fn() == old(self).spec_data_fn(),
            final(self).spec_calls() == old(self).spec_calls(),
    {
        self.details.extensions.clear();
        self.details.clear_buffers();
        self.details.index = self.details.index.wrapping_add(1);
        self.details.length = length;
        true
    }

    fn on_header_name(&mut self, name: &[u8]) -> (r: bool)
        ensures
            r,
            !final(self).spec_details().spec_toggle(),
            old(self).spec_details().spec_toggle() ==> {
                &&& final(self).spec_details().spec_field_buffer() == name@
                &&& final(self).spec_details().spec_value_buffer().len() == 0
                &&& final(self).spec_details().spec_trailers() == if old(self).spec_details().spec_field_buffer().len() > 0 {
                old(self).spec_details().spec_trailers().insert(
                    utf8_lossy_text(old(self).spec_details().spec_field_buffer()),
                    utf8_lossy_text(old(self).spec_details().spec_value_buffer()),
                )
            } else {
                old(self).spec_details().spec_trailers()
            }
            },
            !old(self).spec_details().spec_toggle() ==> {
                &&& final(self).spec_details().spec_field_buffer() == old(self).spec_details().spec_field_buffer() + name@
                &&& final(self).spec_details().spec_value_buffer() == old(self).spec_details().spec_value_buffer()
                &&& final(self).spec_details().spec_trailers() == old(self).spec_details().spec_trailers()
            },
            final(self).spec_details().spec_extensions() == old(self).spec_details().spec_extensions(),
            final(self).spec_details().spec_index() == old(self).spec_details().spec_index(),
            final(self).spec_details().spec_length() == old(self).spec_details().spec_length(),
            final(self).spec_details().spec_finished() == old(self).spec_details().spec_finished(),
            final(self).spec_data_fn() == old(self).spec_data_fn(),
            final(self).spec_calls() == old(self).spec_calls(),
    {
        if self.details.toggle {
            self.details.flush_trailer();
            self.details.toggle = false;
        }
        self.details.field_buffer.extend_from_slice(name);
        true
    }

    fn on_header_value(&mut self, value: &[u8]) -> (r: bool)
        ensures
            r,
            final(self).spec_details().spec_toggle(),
            final(self).spec_details().spec_value_buffer() == old(self).spec_details().spec_value_buffer() + value@,
            final(self).spec_details().spec_field_buffer() == old(self).spec_details().spec_field_buffer(),
            final(self).spec_details().spec_trailers() == old(self).spec_details().spec_trailers(),
            final(self).spec_details().spec_extensions() == old(self).spec_details().spec_extensions(),
            final(self).spec_details().spec_index() == old(self).spec_details().spec_index(),
            final(self).spec_details().spec_length() == old(self).spec_details().spec_length(),
            final(self).spec_details().spec_finished() == old(self).spec_details().spec_finished(),
            final(self).spec_data_fn() == old(self).spec_data_fn(),
            final(self).spec_calls() == old(self).spec_calls(),
    {
        self.details.value_buffer.extend_from_slice(value);
        self.details.toggle = true;
        true
    }

    fn on_headers_finished(&mut self) -> (r: bool)
        ensures
            r,
            final(self).spec_details().spec_trailers() == if old(self).spec_details().spec_field_buffer().len() > 0 {
                old(self).spec_details().spec_trailers().insert(
                    utf8_lossy_text(old(self).spec_details().spec_field_buffer()),
                    utf8_lossy_text(old(self).spec_details().spec_value_buffer()),
                )
            } else {
                old(self).spec_details().spec_trailers()
            },
            final(self).spec_details().spec_field_buffer().len() == 0,
            final(self).spec_details().spec_value_buffer().len() == 0,
            final(self).spec_details().spec_extensions() == old(self).spec_details().spec_extensions(),
            final(self).spec_details().spec_index() == old(self).spec_details().spec_index(),
            final(self).spec_details().spec_length() == old(self).spec_details().spec_length(),
            final(self).spec_details().spec_finished() == old(self).spec_details().spec_finished(),
            final(self).spec_details().spec_toggle() == old(self).spec_details().spec_toggle(),
            final(self).spec_data_fn() == old(self).spec_data_fn(),
            final(self).spec_calls() == old(self).spec_calls(),
    {
        self.details.flush_trailer();
        true
    }
}

/// A chunked handler's finished flag follows the calls on it: clear when it is made, set by
/// `on_body_finished`, cleared by `reset`, and kept by every other callback (chunk lengths and
/// data, extensions and trailers among them), as their contracts say. So a new handler is
/// finished after any sequence of calls exactly when `on_body_finished` came and no `reset`
/// came after it.
pub proof fn law_chunked_handler_finished<F: ChunkDataHandler>(
    hs: Seq<ChunkedHandler<F>>,
    calls: Seq<HandlerCall>,
)
    requires
        hs.len() == calls.len() + 1,
        !hs[0].spec_details().spec_finished(),
        forall|i: int|
            0 <= i < calls.len() ==> #[trigger] hs[i + 1].spec_details().spec_finished()
                == flag_step(hs[i].spec_details().spec_finished(), calls[i], Callback::BodyFinished),
    ensures
        hs.last().spec_details().spec_finished() <==> set_since_reset(
            calls,
            Callback::BodyFinished,
        ),
{
    let flags = Seq::new(hs.len(), |i: int| hs[i].spec_details().spec_finished());
    assert forall|i: int| 0 <= i < calls.len() implies #[trigger] flags[i + 1] == flag_step(
        flags[i],
        calls[i],
        Callback::BodyFinished,
    ) by {
        assert(hs[i + 1].spec_details().spec_finished() == flag_step(
            hs[i].spec_details().spec_finished(),
            calls[i],
            Callback::BodyFinished,
        ));
    }
    lemma_flag_steps(flags, calls, Callback::BodyFinished);
    lemma_flag_after(calls, Callback::BodyFinished);
}

} // verus!
