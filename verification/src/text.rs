//! Facts about UTF-8 text and byte offsets into it.

use vstd::prelude::*;
use vstd::string::StringSliceAdditionalSpecFns;
use vstd::utf8::*;

verus! {

/// An ASCII byte of valid UTF-8 text is a character of its own: the text may
/// be cut before it and after it.
pub proof fn lemma_ascii_byte_boundaries(bytes: Seq<u8>, i: int)
    requires
        valid_utf8(bytes),
        0 <= i < bytes.len(),
        bytes[i] <= 0x7f,
    ensures
        is_char_boundary(bytes, i),
        is_char_boundary(bytes, i + 1),
{
    is_char_boundary_iff_not_is_continuation_byte(bytes, i);
    if i + 1 == bytes.len() {
        is_char_boundary_start_end_of_seq(bytes);
    } else {
        let tail = bytes.subrange(i, bytes.len() as int);
        valid_utf8_split(bytes, i);
        assert(tail[0] == bytes[i]);
        assert(length_of_first_scalar(tail) == 1);
        let rest = pop_first_scalar(tail);
        assert(rest =~= bytes.subrange(i + 1, bytes.len() as int));
        assert(valid_utf8(rest));
        assert(valid_first_scalar(rest));
        assert(rest[0] == bytes[i + 1]);
        is_char_boundary_iff_is_leading_byte(bytes, i + 1);
    }
}

/// Encoding a concatenation gives the concatenation of the encodings.
pub proof fn lemma_encode_concat(a: Seq<char>, b: Seq<char>)
    ensures
        encode_utf8(a + b) == encode_utf8(a) + encode_utf8(b),
    decreases a.len(),
{
    if a.len() == 0 {
        assert(a + b =~= b);
        assert(encode_utf8(a) + encode_utf8(b) =~= encode_utf8(b));
    } else {
        lemma_encode_concat(a.drop_first(), b);
        assert((a + b).drop_first() =~= a.drop_first() + b);
        assert((a + b)[0] == a[0]);
        assert(encode_utf8(a + b) =~= encode_utf8(a) + encode_utf8(b));
    }
}

/// The part of `text` between two character boundaries.
pub fn slice_bytes(text: &str, start: usize, end: usize) -> (part: &str)
    requires
        start <= end <= text.spec_bytes().len(),
        is_char_boundary(text.spec_bytes(), start as int),
        is_char_boundary(text.spec_bytes(), end as int),
    ensures
        part.spec_bytes() == text.spec_bytes().subrange(start as int, end as int),
{
    broadcast use encode_utf8_valid_utf8;

    let (head, _) = text.split_at(end);
    proof {
        let bytes = text.spec_bytes();
        let front = bytes.subrange(0, end as int);
        valid_utf8_split(bytes, end as int);
        assert(head.spec_bytes() == front);
        if start < end {
            if start > 0 {
                is_char_boundary_iff_not_is_continuation_byte(bytes, start as int);
                assert(front[start as int] == bytes[start as int]);
                is_char_boundary_iff_not_is_continuation_byte(front, start as int);
            }
        } else {
            is_char_boundary_start_end_of_seq(front);
        }
    }
    let (_, part) = head.split_at(start);
    assert(part.spec_bytes() =~= text.spec_bytes().subrange(start as int, end as int));
    part
}

} // verus!
