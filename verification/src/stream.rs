//! A cursor over a slice of stream data: the current byte, a mark, and the read position.

use vstd::prelude::*;
use vstd::slice::slice_subrange;

verus! {

/// A cursor over a slice of stream data.
///
/// `mark_index..stream_index` is the range of bytes collected since the last mark, and `byte` is
/// the most recently read byte.
pub struct ByteStream<'a> {
    /// The most recently read byte.
    pub byte: u8,
    /// Start of the collected range.
    pub mark_index: usize,
    /// The stream data.
    pub stream: &'a [u8],
    /// Current read position.
    pub stream_index: usize,
}

impl<'a> ByteStream<'a> {
    /// The mark never passes the read position, and the read position never passes the end.
    pub open spec fn wf(&self) -> bool {
        self.mark_index <= self.stream_index <= self.stream@.len() <= usize::MAX
    }

    /// Number of bytes not yet read.
    pub open spec fn spec_available(&self) -> int {
        self.stream@.len() - self.stream_index
    }

    /// The collected bytes.
    pub open spec fn spec_slice(&self) -> Seq<u8> {
        self.stream@.subrange(self.mark_index as int, self.stream_index as int)
    }

    /// Create a new cursor at the start of `stream`.
    pub fn new(stream: &'a [u8]) -> (r: ByteStream<'a>)
        ensures
            r.wf(),
            r.stream@ == stream@,
            r.mark_index == 0,
            r.stream_index == 0,
            r.byte == 0,
    {
        let _ = stream.len();
        ByteStream { byte: 0, mark_index: 0, stream, stream_index: 0 }
    }

    /// Number of bytes not yet read.
    pub fn available(&self) -> (r: usize)
        requires
            self.wf(),
        ensures
            r == self.spec_available(),
    {
        self.stream.len() - self.stream_index
    }

    /// Indicates that at least `n` bytes are left to read.
    pub fn has_bytes(&self, n: usize) -> (r: bool)
        requires
            self.wf(),
        ensures
            r == (self.spec_available() >= n),
    {
        self.stream.len() - self.stream_index >= n
    }

    /// Read the next byte.
    pub fn next(&mut self)
        requires
            old(self).wf(),
            old(self).stream_index < old(self).stream@.len(),
        ensures
            final(self).wf(),
            final(self).stream == old(self).stream,
            final(self).mark_index == old(self).mark_index,
            final(self).stream_index == old(self).stream_index + 1,
            final(self).byte == old(self).stream@[old(self).stream_index as int],
    {
        self.byte = self.stream[self.stream_index];
        self.stream_index = self.stream_index + 1;
    }

    /// Step back one byte, so that the most recently read byte is read again.
    pub fn replay(&mut self)
        requires
            old(self).wf(),
            old(self).stream_index > old(self).mark_index,
        ensures
            final(self).wf(),
            final(self).stream == old(self).stream,
            final(self).mark_index == old(self).mark_index,
            final(self).stream_index == old(self).stream_index - 1,
            final(self).byte == old(self).byte,
    {
        self.stream_index = self.stream_index - 1;
    }

    /// Skip `n` bytes.
    pub fn jump(&mut self, n: usize)
        requires
            old(self).wf(),
            n <= old(self).spec_available(),
        ensures
            final(self).wf(),
            final(self).stream == old(self).stream,
            final(self).mark_index == old(self).mark_index,
            final(self).stream_index == old(self).stream_index + n,
            final(self).byte == old(self).byte,
    {
        self.stream_index = self.stream_index + n;
    }

    /// Mark the current read position as the start of the collected range.
    pub fn mark(&mut self)
        requires
            old(self).wf(),
        ensures
            final(self).wf(),
            final(self).stream == old(self).stream,
            final(self).mark_index == old(self).stream_index,
            final(self).stream_index == old(self).stream_index,
            final(self).byte == old(self).byte,
    {
        self.mark_index = self.stream_index;
    }

    /// Length of the collected range.
    pub fn slice_length(&self) -> (r: usize)
        requires
            self.wf(),
        ensures
            r == self.stream_index - self.mark_index,
    {
        self.stream_index - self.mark_index
    }

    /// The collected range.
    pub fn slice(&self) -> (r: &'a [u8])
        requires
            self.wf(),
        ensures
            r@ == self.spec_slice(),
    {
        slice_subrange(self.stream, self.mark_index, self.stream_index)
    }

    /// The collected range without its last byte.
    pub fn slice_ignore(&self) -> (r: &'a [u8])
        requires
            self.wf(),
            self.stream_index > self.mark_index,
        ensures
            r@ == self.stream@.subrange(self.mark_index as int, self.stream_index - 1),
    {
        slice_subrange(self.stream, self.mark_index, self.stream_index - 1)
    }

    /// Indicates that the unread bytes start with `prefix`.
    pub fn starts_with(&self, prefix: &[u8]) -> (r: bool)
        requires
            self.wf(),
        ensures
            r == (prefix@.len() <= self.spec_available() && self.stream@.subrange(
                self.stream_index as int,
                self.stream_index + prefix@.len(),
            ) == prefix@),
    {
        if prefix.len() > self.stream.len() - self.stream_index {
            return false;
        }
        let mut i: usize = 0;
        while i < prefix.len()
            invariant
                self.wf(),
                prefix@.len() <= self.spec_available(),
                i <= prefix@.len(),
                forall|j: int|
                    0 <= j < i ==> #[trigger] prefix@[j] == self.stream@[self.stream_index + j],
            decreases prefix@.len() - i,
        {
            if self.stream[self.stream_index + i] != prefix[i] {
                proof {
                    assert(self.stream@.subrange(
                        self.stream_index as int,
                        self.stream_index + prefix@.len(),
                    )[i as int] != prefix@[i as int]);
                }
                return false;
            }
            i = i + 1;
        }
        proof {
            assert(self.stream@.subrange(
                self.stream_index as int,
                self.stream_index + prefix@.len(),
            ) =~= prefix@);
        }
        true
    }
}

} // verus!
