//! Reassembly of lines from a plain byte stream.
//!
//! The stream has no record boundary but the newline byte, and a record may
//! hold a JSON payload that runs over several lines. So the bytes between
//! newlines gather in a buffer, and a newline flushes the buffer only where
//! the braces of what it holds balance.

use bytes::BytesMut;
use vstd::prelude::*;
use vstd::slice::slice_subrange;
use vstd::utf8::*;

use crate::buffer::{buffer_bytes, contents, decode, decoded};
use crate::lines::NEWLINE;
use crate::spans::{balanced, find_json_ranges};

verus! {

/// What a reassembler holds and what it has handed out.
pub struct StreamState {
    pub pending: Seq<u8>,
    pub lines: Seq<Seq<char>>,
}

/// Whether a buffer may be flushed at a newline: the braces of its decoded
/// text balance.
pub open spec fn flushable(held: Seq<u8>) -> bool {
    balanced(encode_utf8(decoded(held)))
}

/// The state after a newline. A buffer whose braces balance is flushed: its
/// decoded text is one more line, unless it is empty, and nothing is held
/// any more. Any other buffer waits for more bytes.
pub open spec fn at_newline(state: StreamState) -> StreamState {
    if flushable(state.pending) {
        StreamState {
            pending: Seq::empty(),
            lines: if state.pending.len() > 0 {
                state.lines.push(decoded(state.pending))
            } else {
                state.lines
            },
        }
    } else {
        state
    }
}

/// The state after the given bytes: each byte but the newline is held, and
/// each newline is a chance to flush.
pub open spec fn fed(state: StreamState, bytes: Seq<u8>) -> StreamState
    decreases bytes.len(),
{
    if bytes.len() == 0 {
        state
    } else {
        let before = fed(state, bytes.drop_last());
        if bytes.last() == NEWLINE {
            at_newline(before)
        } else {
            StreamState { pending: before.pending.push(bytes.last()), lines: before.lines }
        }
    }
}

/// Bytes without a newline among them are only held.
pub proof fn lemma_fed_segment(state: StreamState, bytes: Seq<u8>, from: int, to: int)
    requires
        0 <= from <= to <= bytes.len(),
        forall|k: int| from <= k < to ==> bytes[k] != NEWLINE,
    ensures
        fed(state, bytes.subrange(0, to)) == (StreamState {
            pending: fed(state, bytes.subrange(0, from)).pending + bytes.subrange(from, to),
            lines: fed(state, bytes.subrange(0, from)).lines,
        }),
    decreases to - from,
{
    let start = fed(state, bytes.subrange(0, from));
    if from == to {
        assert(start.pending + bytes.subrange(from, to) =~= start.pending);
    } else {
        lemma_fed_segment(state, bytes, from, to - 1);
        assert(bytes.subrange(0, to).drop_last() =~= bytes.subrange(0, to - 1));
        assert(bytes.subrange(0, to).last() == bytes[to - 1]);
        assert((start.pending + bytes.subrange(from, to - 1)).push(bytes[to - 1])
            =~= start.pending + bytes.subrange(from, to));
    }
}

/// No newline is ever held, whatever is fed.
pub proof fn lemma_fed_holds_no_newline(state: StreamState, bytes: Seq<u8>)
    requires
        forall|i: int| 0 <= i < state.pending.len() ==> state.pending[i] != NEWLINE,
    ensures
        forall|i: int|
            0 <= i < fed(state, bytes).pending.len() ==> #[trigger] fed(state, bytes).pending[i]
                != NEWLINE,
    decreases bytes.len(),
{
    if bytes.len() > 0 {
        lemma_fed_holds_no_newline(state, bytes.drop_last());
        let before = fed(state, bytes.drop_last());
        let after = fed(state, bytes);
        assert forall|i: int| 0 <= i < after.pending.len() implies #[trigger] after.pending[i]
            != NEWLINE by {
            if bytes.last() != NEWLINE && i < before.pending.len() {
                assert(after.pending[i] == before.pending[i]);
            }
        }
    }
}

/// Cutting a stream into chunks at another place changes nothing: feeding two
/// chunks one after the other is feeding them joined.
pub proof fn lemma_fed_concat(state: StreamState, first: Seq<u8>, second: Seq<u8>)
    ensures
        fed(fed(state, first), second) == fed(state, first + second),
    decreases second.len(),
{
    if second.len() == 0 {
        assert(first + second =~= first);
    } else {
        lemma_fed_concat(state, first, second.drop_last());
        assert((first + second).drop_last() =~= first + second.drop_last());
        assert((first + second).last() == second.last());
    }
}

/// The lines handed out earlier stay in front, and what is handed out next
/// does not depend on them.
pub proof fn lemma_fed_keeps_lines(state: StreamState, bytes: Seq<u8>)
    ensures
        fed(state, bytes).pending == fed(
            StreamState { pending: state.pending, lines: Seq::empty() },
            bytes,
        ).pending,
        fed(state, bytes).lines == state.lines + fed(
            StreamState { pending: state.pending, lines: Seq::empty() },
            bytes,
        ).lines,
    decreases bytes.len(),
{
    let fresh = StreamState { pending: state.pending, lines: Seq::empty() };
    if bytes.len() == 0 {
        assert(state.lines + fresh.lines =~= state.lines);
    } else {
        lemma_fed_keeps_lines(state, bytes.drop_last());
        let before = fed(state, bytes.drop_last());
        let fresh_before = fed(fresh, bytes.drop_last());
        if bytes.last() == NEWLINE && flushable(before.pending) && before.pending.len() > 0 {
            assert(before.lines.push(decoded(before.pending)) =~= state.lines
                + fresh_before.lines.push(decoded(before.pending)));
        }
    }
}

/// The texts of the lines.
pub open spec fn line_texts(lines: Seq<String>) -> Seq<Seq<char>> {
    Seq::new(lines.len(), |j: int| lines[j]@)
}

/// The line buffer of one byte stream.
pub struct StreamReassembler {
    buffer: BytesMut,
}

impl StreamReassembler {
    /// The bytes received and not yet flushed.
    pub closed spec fn pending(&self) -> Seq<u8> {
        buffer_bytes(self.buffer)
    }

    /// What is held holds no newline.
    pub open spec fn wf(&self) -> bool {
        forall|i: int| 0 <= i < self.pending().len() ==> #[trigger] self.pending()[i] != NEWLINE
    }

    /// A reassembler that holds nothing.
    pub fn new() -> (made: StreamReassembler)
        ensures
            made.pending() == Seq::<u8>::empty(),
            made.wf(),
    {
        StreamReassembler { buffer: BytesMut::new() }
    }

    /// The number of bytes held.
    pub fn pending_len(&self) -> (len: usize)
        ensures
            len == self.pending().len(),
    {
        self.buffer.len()
    }

    /// Takes one chunk and hands out the lines that it completes.
    pub fn push_chunk(&mut self, chunk: &[u8]) -> (lines: Vec<String>)
        requires
            old(self).pending().len() + chunk@.len() <= isize::MAX,
        ensures
            ({
                let after = fed(
                    StreamState { pending: old(self).pending(), lines: Seq::empty() },
                    chunk@,
                );
                &&& final(self).pending() == after.pending
                &&& line_texts(lines@) == after.lines
            }),
            old(self).wf() ==> final(self).wf(),
    {
        let ghost start_state = StreamState { pending: old(self).pending(), lines: Seq::empty() };
        let mut lines: Vec<String> = Vec::new();
        let n: usize = chunk.len();
        let mut start: usize = 0;
        let mut i: usize = 0;
        assert(chunk@.subrange(0, 0) =~= Seq::<u8>::empty());
        assert(line_texts(lines@) =~= start_state.lines);
        while i < n
            invariant
                n == chunk@.len(),
                0 <= start <= i <= n,
                forall|k: int| start <= k < i ==> chunk@[k] != NEWLINE,
                self.pending().len() + (n - start) <= isize::MAX,
                self.pending() == fed(start_state, chunk@.subrange(0, start as int)).pending,
                line_texts(lines@) == fed(start_state, chunk@.subrange(0, start as int)).lines,
            decreases n - i,
        {
            if chunk[i] == NEWLINE {
                let ghost done = line_texts(lines@);
                self.buffer.extend_from_slice(slice_subrange(chunk, start, i));
                proof {
                    lemma_fed_segment(start_state, chunk@, start as int, i as int);
                    assert(chunk@.subrange(0, i + 1).drop_last() =~= chunk@.subrange(0, i as int));
                    assert(chunk@.subrange(0, i + 1).last() == chunk@[i as int]);
                }
                let text = decode(contents(&self.buffer));
                if find_json_ranges(text.as_str()).is_ok() {
                    if !self.buffer.is_empty() {
                        lines.push(text);
                        assert(line_texts(lines@) =~= done.push(text@));
                    }
                    self.buffer.clear();
                }
                start = i + 1;
            }
            i += 1;
        }
        self.buffer.extend_from_slice(slice_subrange(chunk, start, n));
        proof {
            lemma_fed_segment(start_state, chunk@, start as int, n as int);
            assert(chunk@.subrange(0, n as int) =~= chunk@);
            if old(self).wf() {
                lemma_fed_holds_no_newline(start_state, chunk@);
            }
        }
        lines
    }
}

} // verus!
