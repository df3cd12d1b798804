//! Location of top-level JSON object literals inside free text.
//!
//! The text is modelled as its UTF-8 byte sequence. A double quote toggles
//! the "inside a string" state (a backslash gives it no special meaning), and
//! braces count only outside strings.

use std::ops::Range;
use vstd::prelude::*;
use vstd::string::StringSliceAdditionalSpecFns;
use vstd::utf8::*;

use crate::text::lemma_ascii_byte_boundaries;

verus! {

pub const OPEN_BRACE: u8 = 0x7b;

pub const CLOSE_BRACE: u8 = 0x7d;

pub const QUOTE: u8 = 0x22;

/// Whether offset `i` lies inside a quoted string: an odd number of double
/// quotes stands before it.
pub open spec fn quoted(bytes: Seq<u8>, i: int) -> bool
    decreases i,
{
    if i <= 0 {
        false
    } else {
        quoted(bytes, i - 1) != (bytes[i - 1] == QUOTE)
    }
}

/// Whether the byte at offset `i` is an opening brace outside a string.
pub open spec fn opens(bytes: Seq<u8>, i: int) -> bool {
    bytes[i] == OPEN_BRACE && !quoted(bytes, i)
}

/// Whether the byte at offset `i` is a closing brace outside a string.
pub open spec fn closes(bytes: Seq<u8>, i: int) -> bool {
    bytes[i] == CLOSE_BRACE && !quoted(bytes, i)
}

/// The brace nesting depth just before offset `i`. A closing brace at depth
/// zero is ignored.
pub open spec fn depth(bytes: Seq<u8>, i: int) -> nat
    decreases i,
{
    if i <= 0 {
        0
    } else if opens(bytes, i - 1) {
        depth(bytes, i - 1) + 1
    } else if closes(bytes, i - 1) && depth(bytes, i - 1) > 0 {
        (depth(bytes, i - 1) - 1) as nat
    } else {
        depth(bytes, i - 1)
    }
}

/// `[start, end)` is a top-level object: it opens at depth zero with a brace,
/// stays nested until its last byte, and that byte is the brace that brings
/// the depth back to zero.
pub open spec fn is_span(bytes: Seq<u8>, start: int, end: int) -> bool {
    &&& 0 <= start < end <= bytes.len()
    &&& opens(bytes, start)
    &&& depth(bytes, start) == 0
    &&& closes(bytes, end - 1)
    &&& depth(bytes, end) == 0
    &&& forall|k: int| start < k < end ==> depth(bytes, k) > 0
}

/// A top-level brace at `start` is still open at offset `upto`.
pub open spec fn is_open_at(bytes: Seq<u8>, start: int, upto: int) -> bool {
    &&& 0 <= start < upto <= bytes.len()
    &&& opens(bytes, start)
    &&& depth(bytes, start) == 0
    &&& forall|k: int| start < k <= upto ==> depth(bytes, k) > 0
}

/// The brace at `start` opens a top-level object that the text never closes.
pub open spec fn is_dangling(bytes: Seq<u8>, start: int) -> bool {
    is_open_at(bytes, start, bytes.len() as int)
}

/// The text ends with every opened brace closed again.
pub open spec fn balanced(bytes: Seq<u8>) -> bool {
    depth(bytes, bytes.len() as int) == 0
}

/// The spans are exactly the top-level objects of `bytes` that end at or
/// before `limit`, from left to right.
pub open spec fn spans_cover(bytes: Seq<u8>, spans: Seq<Range<usize>>, limit: int) -> bool {
    &&& forall|j: int|
        0 <= j < spans.len() ==> #[trigger] is_span(bytes, spans[j].start as int, spans[j].end as int)
            && spans[j].end <= limit
    &&& forall|j: int, k: int| 0 <= j < k < spans.len() ==> spans[j].end <= spans[k].start
    &&& forall|s: int, e: int| #[trigger]
        is_span(bytes, s, e) && e <= limit ==> exists|j: int|
            0 <= j < spans.len() && spans[j].start == s && spans[j].end == e
}

/// A top-level object ends right after offset `i` only where a brace at
/// depth one closes there.
proof fn lemma_span_end(bytes: Seq<u8>, s: int, i: int)
    requires
        0 <= i < bytes.len(),
        is_span(bytes, s, i + 1),
    ensures
        closes(bytes, i),
        depth(bytes, i) == 1,
{
    assert(depth(bytes, i + 1) == 0);
    if depth(bytes, i) == 0 {
        if s < i {
            assert(depth(bytes, i) > 0);
        } else {
            assert(opens(bytes, i));
        }
        assert(false);
    }
}

/// Reading a byte that ends no object leaves the list of objects as it is.
proof fn lemma_step_without_span(bytes: Seq<u8>, spans: Seq<Range<usize>>, i: int)
    requires
        0 <= i < bytes.len(),
        spans_cover(bytes, spans, i),
        !(closes(bytes, i) && depth(bytes, i) == 1),
    ensures
        spans_cover(bytes, spans, i + 1),
{
    assert forall|j: int| 0 <= j < spans.len() implies #[trigger] is_span(
        bytes,
        spans[j].start as int,
        spans[j].end as int,
    ) && spans[j].end <= i + 1 by {
        assert(is_span(bytes, spans[j].start as int, spans[j].end as int));
            assert(spans[j].end <= i);
    }
    assert forall|s: int, e: int| #[trigger] is_span(bytes, s, e) && e <= i + 1 implies exists|
        j: int,
    |
        0 <= j < spans.len() && spans[j].start == s && spans[j].end == e by {
        if e == i + 1 {
            lemma_span_end(bytes, s, i);
        }
        assert(is_span(bytes, s, e));
        assert(e <= i);
    }
}

/// Reading the brace that closes the open top-level object adds that object
/// to the list, and nothing else.
proof fn lemma_step_with_span(
    bytes: Seq<u8>,
    spans: Seq<Range<usize>>,
    i: int,
    added: Range<usize>,
)
    requires
        0 <= i < bytes.len(),
        spans_cover(bytes, spans, i),
        closes(bytes, i),
        depth(bytes, i) == 1,
        is_open_at(bytes, added.start as int, i),
        added.end == i + 1,
    ensures
        spans_cover(bytes, spans.push(added), i + 1),
{
    let start = added.start as int;
    let grown = spans.push(added);
    assert(depth(bytes, i + 1) == 0);
    assert(is_span(bytes, start, i + 1));
    assert forall|j: int| 0 <= j < grown.len() implies #[trigger] is_span(
        bytes,
        grown[j].start as int,
        grown[j].end as int,
    ) && grown[j].end <= i + 1 by {
        if j < spans.len() {
            assert(grown[j] == spans[j]);
            assert(is_span(bytes, spans[j].start as int, spans[j].end as int));
            assert(spans[j].end <= i);
        }
    }
    assert forall|j: int, k: int| 0 <= j < k < grown.len() implies grown[j].end
        <= grown[k].start by {
        assert(grown[j] == spans[j]);
        if k < spans.len() {
            assert(grown[k] == spans[k]);
        } else {
            assert(is_span(bytes, spans[j].start as int, spans[j].end as int));
            assert(spans[j].end <= i);
            let e = spans[j].end as int;
            assert(depth(bytes, e) == 0);
            if start < e {
                assert(depth(bytes, e) > 0);
            }
        }
    }
    assert forall|s: int, e: int| #[trigger] is_span(bytes, s, e) && e <= i + 1 implies exists|
        j: int,
    |
        0 <= j < grown.len() && grown[j].start == s && grown[j].end == e by {
        if e <= i {
            assert(is_span(bytes, s, e));
        assert(e <= i);
            let j = choose|j: int| 0 <= j < spans.len() && spans[j].start == s && spans[j].end == e;
            assert(grown[j] == spans[j]);
        } else {
            assert(depth(bytes, s) == 0);
            assert(depth(bytes, start) == 0);
            if s < start {
                assert(depth(bytes, start) > 0);
            }
            if start < s {
                assert(depth(bytes, s) > 0);
            }
            assert(grown[spans.len() as int] == added);
        }
    }
}

/// What one pass over the text finds: the top-level objects, and the offset of
/// the outermost brace that is still open at the end, if there is one.
struct Scan {
    spans: Vec<Range<usize>>,
    dangling: Option<usize>,
}

/// The single left-to-right pass: a stack of the offsets of open braces and
/// the "inside a string" flag.
fn scan(bytes: &[u8]) -> (found: Scan)
    ensures
        spans_cover(bytes@, found.spans@, bytes@.len() as int),
        found.dangling is None <==> balanced(bytes@),
        found.dangling matches Some(at) ==> is_dangling(bytes@, at as int),
{
    let mut spans: Vec<Range<usize>> = Vec::new();
    let mut stack: Vec<usize> = Vec::new();
    let mut inside_str = false;
    let n: usize = bytes.len();
    let mut i: usize = 0;
    while i < n
        invariant
            n == bytes@.len(),
            0 <= i <= n,
            stack.len() == depth(bytes@, i as int),
            inside_str == quoted(bytes@, i as int),
            spans_cover(bytes@, spans@, i as int),
            stack.len() > 0 ==> is_open_at(bytes@, stack[0] as int, i as int),
        decreases n - i,
    {
        let c: u8 = bytes[i];
        let ghost before = spans@;
        let ghost open = stack@;
        if c == OPEN_BRACE && !inside_str {
            stack.push(i);
            proof {
                lemma_step_without_span(bytes@, before, i as int);
                assert(stack[0] == if open.len() > 0 { open[0] } else { i });
            }
        } else if c == QUOTE {
            inside_str = !inside_str;
            proof {
                lemma_step_without_span(bytes@, before, i as int);
            }
        } else if c == CLOSE_BRACE && !inside_str {
            if let Some(start) = stack.pop() {
                if stack.is_empty() {
                    let added = Range { start, end: i + 1 };
                    spans.push(added);
                    proof {
                        assert(start == open[0]);
                        lemma_step_with_span(bytes@, before, i as int, added);
                    }
                } else {
                    proof {
                        lemma_step_without_span(bytes@, before, i as int);
                        assert(stack[0] == open[0]);
                    }
                }
            } else {
                proof {
                    lemma_step_without_span(bytes@, before, i as int);
                }
            }
        } else {
            proof {
                lemma_step_without_span(bytes@, before, i as int);
            }
        }
        i += 1;
    }
    let dangling = if stack.len() > 0 {
        Some(stack[0])
    } else {
        None
    };
    Scan { spans, dangling }
}

/// Every span may be sliced out of the text: its ends are in range and fall
/// on character boundaries.
pub open spec fn sliceable(bytes: Seq<u8>, spans: Seq<Range<usize>>) -> bool {
    forall|j: int|
        0 <= j < spans.len() ==> {
            &&& spans[j].start < spans[j].end <= bytes.len()
            &&& is_char_boundary(bytes, #[trigger] spans[j].start as int)
            &&& is_char_boundary(bytes, spans[j].end as int)
        }
}

proof fn lemma_spans_sliceable(bytes: Seq<u8>, spans: Seq<Range<usize>>)
    requires
        valid_utf8(bytes),
        spans_cover(bytes, spans, bytes.len() as int),
    ensures
        sliceable(bytes, spans),
{
    assert forall|j: int| 0 <= j < spans.len() implies {
        &&& spans[j].start < spans[j].end <= bytes.len()
        &&& is_char_boundary(bytes, #[trigger] spans[j].start as int)
        &&& is_char_boundary(bytes, spans[j].end as int)
    } by {
        assert(is_span(bytes, spans[j].start as int, spans[j].end as int));
        lemma_ascii_byte_boundaries(bytes, spans[j].start as int);
        lemma_ascii_byte_boundaries(bytes, spans[j].end - 1);
    }
}

/// The byte ranges of the top-level JSON objects in `text`, from left to
/// right. Objects nested in another are not listed, and an object that the
/// text leaves open gives no range.
pub fn search_json(text: &str) -> (ranges: Vec<Range<usize>>)
    ensures
        spans_cover(text.spec_bytes(), ranges@, text.spec_bytes().len() as int),
        sliceable(text.spec_bytes(), ranges@),
{
    broadcast use encode_utf8_valid_utf8;

    let found = scan(text.as_bytes());
    proof {
        lemma_spans_sliceable(text.spec_bytes(), found.spans@);
    }
    found.spans
}

/// The text leaves a top-level object open: `open_at` is the offset of its
/// opening brace.
#[derive(Debug)]
pub struct UnbalancedJson {
    pub open_at: usize,
}

/// The ranges of `search_json`, but only for a text whose braces balance. A
/// text that ends inside an object is reported with the offset of the
/// outermost brace left open.
pub fn find_json_ranges(text: &str) -> (found: Result<Vec<Range<usize>>, UnbalancedJson>)
    ensures
        found is Ok <==> balanced(text.spec_bytes()),
        found matches Ok(ranges) ==> {
            &&& spans_cover(text.spec_bytes(), ranges@, text.spec_bytes().len() as int)
            &&& sliceable(text.spec_bytes(), ranges@)
        },
        found matches Err(fault) ==> is_dangling(text.spec_bytes(), fault.open_at as int),
{
    broadcast use encode_utf8_valid_utf8;

    let found = scan(text.as_bytes());
    proof {
        lemma_spans_sliceable(text.spec_bytes(), found.spans@);
    }
    match found.dangling {
        Some(open_at) => Err(UnbalancedJson { open_at }),
        None => Ok(found.spans),
    }
}

} // verus!
