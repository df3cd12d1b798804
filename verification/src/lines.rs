//! Splitting of bytes and of text at newline bytes.

use vstd::prelude::*;
use vstd::string::{StringExecFns, StringSliceAdditionalSpecFns};
use vstd::utf8::*;

use crate::text::{lemma_ascii_byte_boundaries, slice_bytes};

verus! {

/// The byte that ends a line.
pub const NEWLINE: u8 = 0x0a;

/// The segments between the newline bytes of `bytes`: one more than there are
/// newlines, none holding a newline, empty ones included.
pub open spec fn split_lines(bytes: Seq<u8>) -> Seq<Seq<u8>>
    decreases bytes.len(),
{
    if bytes.len() == 0 {
        seq![Seq::empty()]
    } else {
        let front = split_lines(bytes.drop_last());
        if bytes.last() == NEWLINE {
            front.push(Seq::empty())
        } else {
            front.drop_last().push(front.last().push(bytes.last()))
        }
    }
}

/// The segments joined again, a newline between each two.
pub open spec fn join_lines(segments: Seq<Seq<u8>>) -> Seq<u8>
    decreases segments.len(),
{
    if segments.len() == 0 {
        Seq::empty()
    } else if segments.len() == 1 {
        segments[0]
    } else {
        join_lines(segments.drop_last()).push(NEWLINE) + segments.last()
    }
}

/// Splitting loses nothing and leaves no newline in a segment: joined again,
/// the segments give the bytes back.
pub proof fn lemma_split_lines(bytes: Seq<u8>)
    ensures
        split_lines(bytes).len() >= 1,
        join_lines(split_lines(bytes)) == bytes,
        forall|j: int, i: int|
            0 <= j < split_lines(bytes).len() && 0 <= i < split_lines(bytes)[j].len()
                ==> #[trigger] split_lines(bytes)[j][i] != NEWLINE,
    decreases bytes.len(),
{
    if bytes.len() > 0 {
        let front = split_lines(bytes.drop_last());
        lemma_split_lines(bytes.drop_last());
        let all = split_lines(bytes);
        if bytes.last() == NEWLINE {
            assert(all.drop_last() =~= front);
            assert(join_lines(all) =~= bytes.drop_last().push(NEWLINE));
            assert(bytes.drop_last().push(NEWLINE) =~= bytes);
        } else {
            let grown = front.last().push(bytes.last());
            assert(all.drop_last() =~= front.drop_last());
            assert(all.last() == grown);
            if front.len() == 1 {
                assert(front[0] == bytes.drop_last());
                assert(join_lines(all) =~= bytes);
            } else {
                assert(join_lines(front) == join_lines(front.drop_last()).push(NEWLINE)
                    + front.last());
                assert(join_lines(all) =~= join_lines(front).push(bytes.last()));
                assert(bytes.drop_last().push(bytes.last()) =~= bytes);
            }
        }
    }
}

/// Bytes without a newline among them are one segment.
pub proof fn lemma_one_line(bytes: Seq<u8>)
    requires
        forall|i: int| 0 <= i < bytes.len() ==> bytes[i] != NEWLINE,
    ensures
        split_lines(bytes) == seq![bytes],
    decreases bytes.len(),
{
    if bytes.len() == 0 {
        assert(bytes =~= Seq::<u8>::empty());
    } else {
        lemma_one_line(bytes.drop_last());
        let front = split_lines(bytes.drop_last());
        assert(bytes[bytes.len() - 1] != NEWLINE);
        assert(front.last() == bytes.drop_last());
        assert(front.drop_last() =~= Seq::<Seq<u8>>::empty());
        assert(bytes.drop_last().push(bytes.last()) =~= bytes);
        assert(split_lines(bytes) =~= seq![bytes]);
    }
}

/// The texts as UTF-8 byte sequences.
pub open spec fn text_bytes(texts: Seq<String>) -> Seq<Seq<u8>> {
    Seq::new(texts.len(), |j: int| encode_utf8(texts[j]@))
}

/// The lines of a text: the segments between its newline characters.
pub fn split_text(text: &str) -> (lines: Vec<String>)
    ensures
        text_bytes(lines@) == split_lines(text.spec_bytes()),
{
    broadcast use encode_utf8_valid_utf8;

    let bytes = text.as_bytes();
    let mut lines: Vec<String> = Vec::new();
    let n: usize = bytes.len();
    let mut start: usize = 0;
    let mut i: usize = 0;
    assert(bytes@.subrange(0, 0) =~= Seq::<u8>::empty());
    assert(text_bytes(lines@).push(bytes@.subrange(0, 0)) =~= split_lines(bytes@.subrange(0, 0)));
    proof {
        is_char_boundary_start_end_of_seq(bytes@);
    }
    while i < n
        invariant
            bytes@ == text.spec_bytes(),
            valid_utf8(bytes@),
            n == bytes@.len(),
            0 <= start <= i <= n,
            is_char_boundary(bytes@, start as int),
            text_bytes(lines@).push(bytes@.subrange(start as int, i as int)) == split_lines(
                bytes@.subrange(0, i as int),
            ),
        decreases n - i,
    {
        let ghost prefix = bytes@.subrange(0, i + 1);
        let ghost current = bytes@.subrange(start as int, i as int);
        let ghost done = text_bytes(lines@);
        assert(prefix.drop_last() =~= bytes@.subrange(0, i as int));
        assert(prefix.last() == bytes@[i as int]);
        if bytes[i] == NEWLINE {
            proof {
                lemma_ascii_byte_boundaries(bytes@, i as int);
            }
            let line = String::from_str(slice_bytes(text, start, i));
            lines.push(line);
            proof {
                assert(text_bytes(lines@) =~= done.push(current));
                assert(bytes@.subrange(i + 1, i + 1) =~= Seq::<u8>::empty());
            }
            start = i + 1;
        } else {
            proof {
                let front = done.push(current);
                assert(front.drop_last() =~= done);
                assert(current.push(bytes@[i as int]) =~= bytes@.subrange(start as int, i + 1));
            }
        }
        i += 1;
    }
    proof {
        is_char_boundary_start_end_of_seq(bytes@);
    }
    let ghost done = text_bytes(lines@);
    let line = String::from_str(slice_bytes(text, start, n));
    lines.push(line);
    assert(text_bytes(lines@) =~= done.push(bytes@.subrange(start as int, n as int)));
    assert(bytes@.subrange(0, n as int) =~= bytes@);
    lines
}

} // verus!
