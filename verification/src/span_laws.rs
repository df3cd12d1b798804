//! What holds of the top-level objects of a text, whatever the text.

use std::ops::Range;
use vstd::prelude::*;

use crate::spans::{balanced, closes, depth, is_span, opens, quoted, spans_cover};

verus! {

/// The spans as pairs of mathematical integers.
pub open spec fn span_pairs(spans: Seq<Range<usize>>) -> Seq<(int, int)> {
    Seq::new(spans.len(), |j: int| (spans[j].start as int, spans[j].end as int))
}

/// `pairs` lists, from left to right and without overlap, exactly the
/// top-level objects of `bytes` that end at or before `limit`.
pub open spec fn covers(bytes: Seq<u8>, pairs: Seq<(int, int)>, limit: int) -> bool {
    &&& forall|j: int|
        0 <= j < pairs.len() ==> #[trigger] is_span(bytes, pairs[j].0, pairs[j].1) && pairs[j].1
            <= limit
    &&& forall|j: int, k: int| 0 <= j < k < pairs.len() ==> pairs[j].1 <= pairs[k].0
    &&& forall|s: int, e: int| #[trigger]
        is_span(bytes, s, e) && e <= limit ==> exists|j: int|
            0 <= j < pairs.len() && pairs[j] == (s, e)
}

/// What `spans_cover` states of a list of ranges, `covers` states of its pairs.
pub proof fn lemma_cover_pairs(bytes: Seq<u8>, spans: Seq<Range<usize>>, limit: int)
    requires
        spans_cover(bytes, spans, limit),
    ensures
        covers(bytes, span_pairs(spans), limit),
{
    let pairs = span_pairs(spans);
    assert forall|j: int| 0 <= j < pairs.len() implies #[trigger] is_span(
        bytes,
        pairs[j].0,
        pairs[j].1,
    ) && pairs[j].1 <= limit by {
        assert(is_span(bytes, spans[j].start as int, spans[j].end as int));
    }
    assert forall|s: int, e: int| #[trigger] is_span(bytes, s, e) && e <= limit implies exists|
        j: int,
    |
        0 <= j < pairs.len() && pairs[j] == (s, e) by {
        let j = choose|j: int| 0 <= j < spans.len() && spans[j].start == s && spans[j].end == e;
        assert(pairs[j] == (s, e));
    }
}

/// Two lists that both cover the same text up to the same limit are the same
/// list: the contract of the span finder admits one result only.
pub proof fn lemma_cover_unique(
    bytes: Seq<u8>,
    p: Seq<(int, int)>,
    q: Seq<(int, int)>,
    limit: int,
)
    requires
        covers(bytes, p, limit),
        covers(bytes, q, limit),
    ensures
        p == q,
    decreases p.len(),
{
    if p.len() == 0 {
        if q.len() > 0 {
            assert(is_span(bytes, q[0].0, q[0].1));
            let j = choose|j: int| 0 <= j < p.len() && p[j] == (q[0].0, q[0].1);
        }
        assert(p =~= q);
    } else {
        let x = p.last();
        assert(is_span(bytes, x.0, x.1));
        let k = choose|k: int| 0 <= k < q.len() && q[k] == (x.0, x.1);
        let y = q.last();
        assert(is_span(bytes, y.0, y.1));
        let m = choose|m: int| 0 <= m < p.len() && p[m] == (y.0, y.1);
        assert(k == q.len() - 1);
        let p0 = p.drop_last();
        let q0 = q.drop_last();
        assert forall|s: int, e: int| #[trigger] is_span(bytes, s, e) && e <= x.0 implies exists|
            j: int,
        |
            0 <= j < p0.len() && p0[j] == (s, e) by {
            let j = choose|j: int| 0 <= j < p.len() && p[j] == (s, e);
            assert(p0[j] == p[j]);
        }
        assert forall|s: int, e: int| #[trigger] is_span(bytes, s, e) && e <= x.0 implies exists|
            j: int,
        |
            0 <= j < q0.len() && q0[j] == (s, e) by {
            let j = choose|j: int| 0 <= j < q.len() && q[j] == (s, e);
            assert(q0[j] == q[j]);
        }
        assert forall|j: int| 0 <= j < p0.len() implies #[trigger] is_span(
            bytes,
            p0[j].0,
            p0[j].1,
        ) && p0[j].1 <= x.0 by {
            assert(p0[j] == p[j]);
            assert(is_span(bytes, p[j].0, p[j].1));
        }
        assert forall|j: int| 0 <= j < q0.len() implies #[trigger] is_span(
            bytes,
            q0[j].0,
            q0[j].1,
        ) && q0[j].1 <= x.0 by {
            assert(q0[j] == q[j]);
            assert(is_span(bytes, q[j].0, q[j].1));
        }
        lemma_cover_unique(bytes, p0, q0, x.0);
        assert(p =~= p0.push(x));
        assert(q =~= q0.push(x));
    }
}

/// A text in front of which nothing stands keeps its string state and its
/// depth when more text follows it.
pub proof fn lemma_prefix_state(a: Seq<u8>, b: Seq<u8>, k: int)
    requires
        0 <= k <= a.len(),
    ensures
        quoted(a + b, k) == quoted(a, k),
        depth(a + b, k) == depth(a, k),
    decreases k,
{
    if k > 0 {
        lemma_prefix_state(a, b, k - 1);
        assert((a + b)[k - 1] == a[k - 1]);
    }
}

/// After a balanced text that ends outside a string, the text that follows is
/// read as if it stood alone.
pub proof fn lemma_suffix_state(a: Seq<u8>, b: Seq<u8>, k: int)
    requires
        balanced(a),
        !quoted(a, a.len() as int),
        0 <= k <= b.len(),
    ensures
        quoted(a + b, a.len() + k) == quoted(b, k),
        depth(a + b, a.len() + k) == depth(b, k),
    decreases k,
{
    if k == 0 {
        lemma_prefix_state(a, b, a.len() as int);
    } else {
        lemma_suffix_state(a, b, k - 1);
        assert((a + b)[a.len() + k - 1] == b[k - 1]);
    }
}

/// The top-level objects of a concatenation whose first part is balanced and
/// ends outside a string are those of the first part and, shifted, those of
/// the second.
pub proof fn lemma_spans_of_concat(a: Seq<u8>, b: Seq<u8>, s: int, e: int)
    requires
        balanced(a),
        !quoted(a, a.len() as int),
    ensures
        is_span(a + b, s, e) <==> (is_span(a, s, e) || is_span(b, s - a.len(), e - a.len())),
{
    let n = a.len() as int;
    let ab = a + b;
    if is_span(a, s, e) {
        lemma_prefix_state(a, b, s);
        lemma_prefix_state(a, b, e);
        lemma_prefix_state(a, b, e - 1);
        assert(ab[s] == a[s]);
        assert(ab[e - 1] == a[e - 1]);
        assert forall|k: int| s < k < e implies depth(ab, k) > 0 by {
            lemma_prefix_state(a, b, k);
        }
        assert(is_span(ab, s, e));
    }
    if is_span(b, s - n, e - n) {
        lemma_suffix_state(a, b, s - n);
        lemma_suffix_state(a, b, e - n);
        lemma_suffix_state(a, b, e - n - 1);
        assert(ab[s] == b[s - n]);
        assert(ab[e - 1] == b[e - n - 1]);
        assert forall|k: int| s < k < e implies depth(ab, k) > 0 by {
            lemma_suffix_state(a, b, k - n);
        }
        assert(is_span(ab, s, e));
    }
    if is_span(ab, s, e) {
        if e <= n {
            lemma_prefix_state(a, b, s);
            lemma_prefix_state(a, b, e);
            lemma_prefix_state(a, b, e - 1);
            assert(ab[s] == a[s]);
            assert(ab[e - 1] == a[e - 1]);
            assert forall|k: int| s < k < e implies depth(a, k) > 0 by {
                lemma_prefix_state(a, b, k);
            }
            assert(is_span(a, s, e));
        } else if s >= n {
            lemma_suffix_state(a, b, s - n);
            lemma_suffix_state(a, b, e - n);
            lemma_suffix_state(a, b, e - n - 1);
            assert(ab[s] == b[s - n]);
            assert(ab[e - 1] == b[e - n - 1]);
            assert forall|k: int| s - n < k < e - n implies depth(b, k) > 0 by {
                lemma_suffix_state(a, b, k);
                assert(depth(ab, n + k) > 0);
            }
            assert(is_span(b, s - n, e - n));
        } else {
            lemma_prefix_state(a, b, n);
            assert(depth(ab, n) > 0);
            assert(false);
        }
    }
}

/// The part is one top-level object from its first byte to its last.
pub open spec fn is_object(part: Seq<u8>) -> bool {
    is_span(part, 0, part.len() as int)
}

/// A top-level object, cut out of its text, is a top-level object from its
/// first byte to its last: every span is balanced on its own.
pub proof fn lemma_span_is_whole_object(bytes: Seq<u8>, start: int, end: int)
    requires
        is_span(bytes, start, end),
    ensures
        is_object(bytes.subrange(start, end)),
{
    let front = bytes.subrange(0, start);
    let back = bytes.subrange(start, bytes.len() as int);
    let part = bytes.subrange(start, end);
    let rest = bytes.subrange(end, bytes.len() as int);
    assert(front + back =~= bytes);
    assert(part + rest =~= back);
    lemma_prefix_state(front, back, start);
    lemma_spans_of_concat(front, back, start, end);
    assert(is_span(back, 0, end - start));
    lemma_prefix_state(part, rest, 0);
    lemma_prefix_state(part, rest, end - start);
    lemma_prefix_state(part, rest, end - start - 1);
    assert(part[0] == back[0]);
    assert(part[end - start - 1] == back[end - start - 1]);
    assert forall|k: int| 0 < k < end - start implies depth(part, k) > 0 by {
        lemma_prefix_state(part, rest, k);
    }
}

/// The part holds no brace outside a quoted string, and every string that it
/// opens it closes.
pub open spec fn is_gap(part: Seq<u8>) -> bool {
    &&& !quoted(part, part.len() as int)
    &&& forall|i: int| 0 <= i < part.len() ==> !opens(part, i) && !closes(part, i)
}

/// The parts one after another.
pub open spec fn joined(parts: Seq<Seq<u8>>) -> Seq<u8>
    decreases parts.len(),
{
    if parts.len() == 0 {
        Seq::empty()
    } else {
        joined(parts.drop_last()) + parts.last()
    }
}

/// Where the object parts stand in the joined text, from left to right.
pub open spec fn objects_of(parts: Seq<Seq<u8>>) -> Seq<(int, int)>
    decreases parts.len(),
{
    if parts.len() == 0 {
        Seq::empty()
    } else {
        let before = objects_of(parts.drop_last());
        let at = joined(parts.drop_last()).len() as int;
        if is_object(parts.last()) {
            before.push((at, at + parts.last().len()))
        } else {
            before
        }
    }
}

/// The object parts themselves, from left to right.
pub open spec fn object_texts(parts: Seq<Seq<u8>>) -> Seq<Seq<u8>>
    decreases parts.len(),
{
    if parts.len() == 0 {
        Seq::empty()
    } else if is_object(parts.last()) {
        object_texts(parts.drop_last()).push(parts.last())
    } else {
        object_texts(parts.drop_last())
    }
}

proof fn lemma_gap_is_flat(part: Seq<u8>, k: int)
    requires
        is_gap(part),
        0 <= k <= part.len(),
    ensures
        depth(part, k) == 0,
    decreases k,
{
    if k > 0 {
        lemma_gap_is_flat(part, k - 1);
    }
}

proof fn lemma_object_is_only_span(part: Seq<u8>, s: int, e: int)
    requires
        is_object(part),
        is_span(part, s, e),
    ensures
        s == 0,
        e == part.len(),
{
    assert(depth(part, s) == 0);
    assert(depth(part, e) == 0);
}

proof fn lemma_parts_cover(parts: Seq<Seq<u8>>)
    requires
        forall|i: int| 0 <= i < parts.len() ==> is_object(#[trigger] parts[i]) || is_gap(parts[i]),
    ensures
        balanced(joined(parts)),
        !quoted(joined(parts), joined(parts).len() as int),
        covers(joined(parts), objects_of(parts), joined(parts).len() as int),
        objects_of(parts).len() == object_texts(parts).len(),
        forall|j: int|
            0 <= j < objects_of(parts).len() ==> joined(parts).subrange(
                objects_of(parts)[j].0,
                objects_of(parts)[j].1,
            ) == #[trigger] object_texts(parts)[j],
    decreases parts.len(),
{
    if parts.len() > 0 {
        let front = parts.drop_last();
        let a = joined(front);
        let b = parts.last();
        let n = a.len() as int;
        let all = joined(parts);
        let old_pairs = objects_of(front);
        let pairs = objects_of(parts);
        assert forall|i: int| 0 <= i < front.len() implies is_object(#[trigger] front[i]) || is_gap(
            front[i],
        ) by {
            assert(front[i] == parts[i]);
        }
        lemma_parts_cover(front);
        assert(is_object(b) || is_gap(b));
        lemma_suffix_state(a, b, b.len() as int);
        if is_gap(b) {
            lemma_gap_is_flat(b, b.len() as int);
        }
        if is_object(b) {
            assert(closes(b, b.len() - 1));
            lemma_spans_of_concat(a, b, n, n + b.len());
        }
        assert forall|j: int| 0 <= j < pairs.len() implies #[trigger] is_span(
            all,
            pairs[j].0,
            pairs[j].1,
        ) && pairs[j].1 <= all.len() by {
            if j < old_pairs.len() {
                assert(pairs[j] == old_pairs[j]);
                assert(is_span(a, old_pairs[j].0, old_pairs[j].1));
                lemma_spans_of_concat(a, b, pairs[j].0, pairs[j].1);
            }
        }
        assert forall|j: int, k: int| 0 <= j < k < pairs.len() implies pairs[j].1
            <= pairs[k].0 by {
            assert(is_span(a, old_pairs[j].0, old_pairs[j].1));
        }
        assert forall|s: int, e: int| #[trigger] is_span(all, s, e) && e <= all.len() implies exists|
            j: int,
        |
            0 <= j < pairs.len() && pairs[j] == (s, e) by {
            lemma_spans_of_concat(a, b, s, e);
            if is_span(a, s, e) {
                let j = choose|j: int| 0 <= j < old_pairs.len() && old_pairs[j] == (s, e);
                assert(pairs[j] == (s, e));
            } else {
                assert(is_span(b, s - n, e - n));
                if is_gap(b) {
                    assert(opens(b, s - n));
                    assert(false);
                }
                lemma_object_is_only_span(b, s - n, e - n);
                assert(pairs[old_pairs.len() as int] == (s, e));
            }
        }
        assert forall|j: int| 0 <= j < pairs.len() implies all.subrange(pairs[j].0, pairs[j].1)
            == #[trigger] object_texts(parts)[j] by {
            if j < old_pairs.len() {
                assert(is_span(a, old_pairs[j].0, old_pairs[j].1));
                assert(all.subrange(pairs[j].0, pairs[j].1) =~= a.subrange(
                    old_pairs[j].0,
                    old_pairs[j].1,
                ));
            } else {
                assert(all.subrange(pairs[j].0, pairs[j].1) =~= b);
            }
        }
    }
}

/// A text made of parts, each either one whole top-level object or a stretch
/// without braces outside strings, has exactly its object parts as spans: as
/// many spans as object parts, in the same order, each span reaching from the
/// first byte of its object to the last, so that slicing the text by it gives
/// the object back.
pub proof fn lemma_spans_of_parts(parts: Seq<Seq<u8>>, spans: Seq<Range<usize>>)
    requires
        forall|i: int| 0 <= i < parts.len() ==> is_object(#[trigger] parts[i]) || is_gap(parts[i]),
        spans_cover(joined(parts), spans, joined(parts).len() as int),
    ensures
        spans.len() == object_texts(parts).len(),
        span_pairs(spans) == objects_of(parts),
        forall|j: int|
            0 <= j < spans.len() ==> joined(parts).subrange(
                spans[j].start as int,
                spans[j].end as int,
            ) == #[trigger] object_texts(parts)[j],
        forall|j: int, k: int| 0 <= j < k < spans.len() ==> spans[j].end <= spans[k].start,
{
    let text = joined(parts);
    lemma_parts_cover(parts);
    lemma_cover_pairs(text, spans, text.len() as int);
    lemma_cover_unique(text, span_pairs(spans), objects_of(parts), text.len() as int);
    assert forall|j: int| 0 <= j < spans.len() implies text.subrange(
        spans[j].start as int,
        spans[j].end as int,
    ) == #[trigger] object_texts(parts)[j] by {
        assert(span_pairs(spans)[j] == (spans[j].start as int, spans[j].end as int));
    }
}

} // verus!
