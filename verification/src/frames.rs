//! Reassembly of lines from the frames of a multiplexed source.
//!
//! A frame carries at most `MAX_FRAME_SIZE` bytes. A line longer than that
//! arrives in several frames, all but the last of them full, so a frame
//! shorter than the maximum ends the line.

use bytes::BytesMut;
use vstd::prelude::*;
use vstd::utf8::*;

use crate::buffer::{buffer_bytes, contents, decode, decoded};
use crate::lines::{lemma_one_line, split_lines, split_text, text_bytes, NEWLINE};

verus! {

/// The most bytes that one frame carries.
pub const MAX_FRAME_SIZE: usize = 8192;

/// The frame without the newline at its end, if it ends in one.
pub open spec fn frame_content(frame: Seq<u8>) -> Seq<u8> {
    if frame.len() > 0 && frame.last() == NEWLINE {
        frame.drop_last()
    } else {
        frame
    }
}

/// Whether the frame ends the line that it belongs to.
pub open spec fn ends_line(frame: Seq<u8>) -> bool {
    frame.len() < MAX_FRAME_SIZE
}

/// The lines that a buffer gives when it is flushed: its bytes decoded, with
/// invalid sequences replaced, and split at the newline characters.
pub open spec fn flushed_lines(held: Seq<u8>) -> Seq<Seq<u8>> {
    split_lines(encode_utf8(decoded(held)))
}

/// What is held after a frame and the lines that the frame hands out.
pub struct FrameState {
    pub pending: Seq<u8>,
    pub lines: Seq<Seq<u8>>,
}

/// One frame taken: its content goes to the end of what is held; a frame
/// that ends its line flushes a buffer that is not empty, a full frame is
/// only kept.
pub open spec fn pushed(held: Seq<u8>, frame: Seq<u8>) -> FrameState {
    let grown = held + frame_content(frame);
    if ends_line(frame) && grown.len() > 0 {
        FrameState { pending: Seq::empty(), lines: flushed_lines(grown) }
    } else {
        FrameState { pending: grown, lines: Seq::empty() }
    }
}

/// Whether the bytes hold no newline.
pub open spec fn no_newline(bytes: Seq<u8>) -> bool {
    forall|i: int| 0 <= i < bytes.len() ==> bytes[i] != NEWLINE
}

/// A line that fills two frames and ends in a third, short one comes out as
/// one line, and only once the third frame has arrived: the two full frames
/// hand out nothing, and the short frame hands out the three contents
/// joined. This is stated of contents that are valid UTF-8 when joined; of
/// other bytes it is not known where lossy decoding leaves newlines.
pub proof fn lemma_long_line_is_one_line(first: Seq<u8>, second: Seq<u8>, last: Seq<u8>)
    requires
        first.len() == MAX_FRAME_SIZE,
        second.len() == MAX_FRAME_SIZE,
        0 < last.len() < MAX_FRAME_SIZE,
        last.last() == NEWLINE,
        no_newline(frame_content(first)),
        no_newline(frame_content(second)),
        no_newline(frame_content(last)),
        valid_utf8(frame_content(first) + frame_content(second) + frame_content(last)),
    ensures
        ({
            let after_first = pushed(Seq::empty(), first);
            let after_second = pushed(after_first.pending, second);
            let after_last = pushed(after_second.pending, last);
            &&& after_first.lines.len() == 0
            &&& after_second.lines.len() == 0
            &&& after_last.pending.len() == 0
            &&& after_last.lines == seq![
                frame_content(first) + frame_content(second) + frame_content(last),
            ]
        }),
{
    let whole = frame_content(first) + frame_content(second) + frame_content(last);
    let after_first = pushed(Seq::empty(), first);
    let after_second = pushed(after_first.pending, second);
    assert(after_first.pending =~= frame_content(first));
    assert(after_second.pending =~= frame_content(first) + frame_content(second));
    assert(whole.len() > 0);
    decode_utf8_encode_utf8(whole);
    lemma_one_line(whole);
}

/// The line buffer of one framed stream.
pub struct FrameReassembler {
    buffer: BytesMut,
}

impl FrameReassembler {
    /// The bytes received and not yet flushed.
    pub closed spec fn pending(&self) -> Seq<u8> {
        buffer_bytes(self.buffer)
    }

    /// A reassembler that holds nothing.
    pub fn new() -> (made: FrameReassembler)
        ensures
            made.pending() == Seq::<u8>::empty(),
    {
        FrameReassembler { buffer: BytesMut::new() }
    }

    /// The number of bytes held.
    pub fn pending_len(&self) -> (len: usize)
        ensures
            len == self.pending().len(),
    {
        self.buffer.len()
    }

    /// Takes one frame. Its content goes to the end of what is held. A frame
    /// that ends its line flushes the buffer, unless the buffer is empty:
    /// the lines of the decoded bytes are handed out and nothing is held any
    /// more. A full frame is only kept.
    pub fn push_frame(&mut self, frame: &[u8]) -> (lines: Vec<String>)
        requires
            old(self).pending().len() + frame@.len() <= isize::MAX,
        ensures
            final(self).pending() == pushed(old(self).pending(), frame@).pending,
            text_bytes(lines@) == pushed(old(self).pending(), frame@).lines,
    {
        let n: usize = frame.len();
        let is_last = n < MAX_FRAME_SIZE;
        let content = if n > 0 && frame[n - 1] == NEWLINE {
            let (content, _) = frame.split_at(n - 1);
            content
        } else {
            frame
        };
        assert(content@ =~= frame_content(frame@));
        self.buffer.extend_from_slice(content);
        if is_last && !self.buffer.is_empty() {
            let text = decode(contents(&self.buffer));
            let lines = split_text(text.as_str());
            self.buffer.clear();
            lines
        } else {
            let lines: Vec<String> = Vec::new();
            assert(text_bytes(lines@) =~= Seq::<Seq<u8>>::empty());
            lines
        }
    }
}

} // verus!
