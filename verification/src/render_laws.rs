//! What holds of rendering, whatever the line.

use std::ops::Range;
use vstd::prelude::*;
use vstd::utf8::*;

use crate::recolor::{
    coloured_forms, gap_start, json_accepts, piece, recolored, replaces, span_text, spliced,
    spliced_prefix,
};
use crate::render::{
    recolored_text, rendered, unrecognized_print, RenderDecision, RenderError, UNRECOGNIZED_MARK,
};
use crate::shape::Shape;
use crate::span_laws::{lemma_cover_pairs, lemma_cover_unique, span_pairs};
use crate::spans::{is_span, spans_cover};

verus! {

/// The text holds a top-level object that is valid JSON: recolouring has
/// something to replace.
pub open spec fn has_json(text: Seq<char>) -> bool {
    exists|start: int, end: int| #[trigger]
        is_span(encode_utf8(text), start, end) && json_accepts(
            decode_utf8(encode_utf8(text).subrange(start, end)),
        )
}

/// Where no span has a replacement, the first spans and the text before them
/// come out as they went in.
proof fn lemma_splice_nothing_prefix(
    bytes: Seq<u8>,
    spans: Seq<Range<usize>>,
    replacements: Seq<Option<Seq<u8>>>,
    n: int,
)
    requires
        spans_cover(bytes, spans, bytes.len() as int),
        replacements.len() == spans.len(),
        forall|j: int| 0 <= j < spans.len() ==> replacements[j] is None,
        0 <= n <= spans.len(),
    ensures
        0 <= gap_start(spans, n) <= bytes.len(),
        spliced_prefix(bytes, spans, replacements, n) == bytes.subrange(0, gap_start(spans, n)),
    decreases n,
{
    if n > 0 {
        lemma_splice_nothing_prefix(bytes, spans, replacements, n - 1);
        assert(is_span(bytes, spans[n - 1].start as int, spans[n - 1].end as int));
        if n > 1 {
            assert(is_span(bytes, spans[n - 2].start as int, spans[n - 2].end as int));
            assert(spans[n - 2].end <= spans[n - 1].start);
        }
        assert(replacements[n - 1] is None);
        assert(piece(bytes, spans, replacements, n - 1) == bytes.subrange(
            spans[n - 1].start as int,
            spans[n - 1].end as int,
        ));
        assert(spliced_prefix(bytes, spans, replacements, n) =~= bytes.subrange(
            0,
            gap_start(spans, n),
        ));
    } else {
        assert(spliced_prefix(bytes, spans, replacements, n) =~= bytes.subrange(0, 0));
    }
}

/// Replacing no span changes nothing.
pub proof fn lemma_splice_nothing(
    bytes: Seq<u8>,
    spans: Seq<Range<usize>>,
    replacements: Seq<Option<Seq<u8>>>,
)
    requires
        spans_cover(bytes, spans, bytes.len() as int),
        replacements.len() == spans.len(),
        forall|j: int| 0 <= j < spans.len() ==> replacements[j] is None,
    ensures
        spliced(bytes, spans, replacements) == bytes,
{
    lemma_splice_nothing_prefix(bytes, spans, replacements, spans.len() as int);
    assert(spliced(bytes, spans, replacements) =~= bytes);
}

/// A text without valid JSON to replace comes out of recolouring as it went
/// in.
pub proof fn lemma_recolor_keeps_plain_text(before: Seq<char>, after: Seq<char>)
    requires
        !has_json(before),
        recolored_text(before, after),
    ensures
        after == before,
{
    let bytes = encode_utf8(before);
    {
        let ranges = choose|ranges: Seq<Range<usize>>|
            {
                &&& spans_cover(bytes, ranges, bytes.len() as int)
                &&& #[trigger] recolored(bytes, ranges, encode_utf8(after))
            };
        let replacements = choose|replacements: Seq<Option<Seq<u8>>>|
            {
                &&& replacements.len() == ranges.len()
                &&& encode_utf8(after) == #[trigger] spliced(bytes, ranges, replacements)
                &&& forall|j: int|
                    0 <= j < ranges.len() ==> replaces(
                        span_text(bytes, ranges, j),
                        #[trigger] replacements[j],
                    )
            };
        assert forall|j: int| 0 <= j < ranges.len() implies replacements[j] is None by {
            assert(is_span(bytes, ranges[j].start as int, ranges[j].end as int));
            assert(replaces(span_text(bytes, ranges, j), replacements[j]));
        }
        lemma_splice_nothing(bytes, ranges, replacements);
        assert(encode_utf8(after) == encode_utf8(before));
        encode_utf8_decode_utf8(after);
        encode_utf8_decode_utf8(before);
    }
}

/// Rendering a line of no known format twice gives the same text twice: the
/// line itself with the mark at its end. This is stated of lines without
/// valid JSON to recolour; the colours given to JSON are the terminal's
/// choice, made anew at each rendering.
pub proof fn lemma_unrecognized_render_repeats(
    line: Seq<char>,
    first: Result<RenderDecision, RenderError>,
    second: Result<RenderDecision, RenderError>,
)
    requires
        !has_json(line),
        rendered(Shape::Unrecognized, line, first),
        rendered(Shape::Unrecognized, line, second),
    ensures
        first matches Ok(RenderDecision::Print(once)) && second matches Ok(
            RenderDecision::Print(again),
        ) && once@ == again@ && once@ == line + UNRECOGNIZED_MARK@,
{
    lemma_unrecognized_text(line, first->Ok_0->Print_0@);
    lemma_unrecognized_text(line, second->Ok_0->Print_0@);
}

/// What stands for a span under one colour setting: its coloured form where
/// colours show, its plain form where they do not, nothing where it has a
/// fault.
pub open spec fn replaces_in(text: Seq<char>, replacement: Option<Seq<u8>>, coloured: bool) -> bool {
    match coloured_forms(text) {
        Some(forms) => replacement == Some(
            encode_utf8(
                if coloured {
                    forms.1
                } else {
                    forms.0
                },
            ),
        ),
        None => replacement is None,
    }
}

/// `after` is `before` recoloured under one colour setting.
pub open spec fn recolored_text_in(before: Seq<char>, after: Seq<char>, coloured: bool) -> bool {
    exists|ranges: Seq<Range<usize>>, replacements: Seq<Option<Seq<u8>>>|
        {
            &&& spans_cover(encode_utf8(before), ranges, encode_utf8(before).len() as int)
            &&& replacements.len() == ranges.len()
            &&& encode_utf8(after) == #[trigger] spliced(encode_utf8(before), ranges, replacements)
            &&& forall|j: int|
                0 <= j < ranges.len() ==> replaces_in(
                    span_text(encode_utf8(before), ranges, j),
                    #[trigger] replacements[j],
                    coloured,
                )
        }
}

/// `text` is the printed form of a line of no known format under one colour
/// setting.
pub open spec fn unrecognized_print_in(line: Seq<char>, text: Seq<char>, coloured: bool) -> bool {
    exists|colored: Seq<char>|
        recolored_text_in(line, colored, coloured) && text == #[trigger] (colored
            + UNRECOGNIZED_MARK@)
}

/// A recolouring under one colour setting is a recolouring: it is among the
/// outcomes that rendering admits.
pub proof fn lemma_one_setting_is_admitted(before: Seq<char>, after: Seq<char>, coloured: bool)
    requires
        recolored_text_in(before, after, coloured),
    ensures
        recolored_text(before, after),
{
    let bytes = encode_utf8(before);
    let (ranges, replacements) = choose|
        ranges: Seq<Range<usize>>,
        replacements: Seq<Option<Seq<u8>>>,
    |
        {
            &&& spans_cover(bytes, ranges, bytes.len() as int)
            &&& replacements.len() == ranges.len()
            &&& encode_utf8(after) == #[trigger] spliced(bytes, ranges, replacements)
            &&& forall|j: int|
                0 <= j < ranges.len() ==> replaces_in(
                    span_text(bytes, ranges, j),
                    #[trigger] replacements[j],
                    coloured,
                )
        };
    assert forall|j: int| 0 <= j < ranges.len() implies replaces(
        span_text(bytes, ranges, j),
        #[trigger] replacements[j],
    ) by {
        assert(replaces_in(span_text(bytes, ranges, j), replacements[j], coloured));
    }
    assert(recolored(bytes, ranges, encode_utf8(after)));
}

/// Under one colour setting a text has one recolouring.
pub proof fn lemma_one_setting_one_recolouring(
    before: Seq<char>,
    first: Seq<char>,
    second: Seq<char>,
    coloured: bool,
)
    requires
        recolored_text_in(before, first, coloured),
        recolored_text_in(before, second, coloured),
    ensures
        first == second,
{
    let bytes = encode_utf8(before);
    let (ranges_a, given_a) = choose|ranges: Seq<Range<usize>>, replacements: Seq<Option<Seq<u8>>>|
        {
            &&& spans_cover(bytes, ranges, bytes.len() as int)
            &&& replacements.len() == ranges.len()
            &&& encode_utf8(first) == #[trigger] spliced(bytes, ranges, replacements)
            &&& forall|j: int|
                0 <= j < ranges.len() ==> replaces_in(
                    span_text(bytes, ranges, j),
                    #[trigger] replacements[j],
                    coloured,
                )
        };
    let (ranges_b, given_b) = choose|ranges: Seq<Range<usize>>, replacements: Seq<Option<Seq<u8>>>|
        {
            &&& spans_cover(bytes, ranges, bytes.len() as int)
            &&& replacements.len() == ranges.len()
            &&& encode_utf8(second) == #[trigger] spliced(bytes, ranges, replacements)
            &&& forall|j: int|
                0 <= j < ranges.len() ==> replaces_in(
                    span_text(bytes, ranges, j),
                    #[trigger] replacements[j],
                    coloured,
                )
        };
    lemma_cover_pairs(bytes, ranges_a, bytes.len() as int);
    lemma_cover_pairs(bytes, ranges_b, bytes.len() as int);
    lemma_cover_unique(bytes, span_pairs(ranges_a), span_pairs(ranges_b), bytes.len() as int);
    assert(ranges_a.len() == span_pairs(ranges_a).len());
    assert(ranges_b.len() == span_pairs(ranges_b).len());
    assert forall|j: int| 0 <= j < ranges_a.len() implies ranges_a[j] == ranges_b[j] by {
        assert(span_pairs(ranges_a)[j] == span_pairs(ranges_b)[j]);
    }
    assert(ranges_a =~= ranges_b);
    assert forall|j: int| 0 <= j < given_a.len() implies given_a[j] == given_b[j] by {
        assert(replaces_in(span_text(bytes, ranges_a, j), given_a[j], coloured));
        assert(replaces_in(span_text(bytes, ranges_b, j), given_b[j], coloured));
    }
    assert(given_a =~= given_b);
    assert(encode_utf8(first) == encode_utf8(second));
    encode_utf8_decode_utf8(first);
    encode_utf8_decode_utf8(second);
}

/// Rendering a line of no known format twice under the same colour setting
/// gives the same text twice, and both texts are among those that rendering
/// admits.
pub proof fn lemma_render_repeats_with_one_setting(
    line: Seq<char>,
    once: Seq<char>,
    again: Seq<char>,
    coloured: bool,
)
    requires
        unrecognized_print_in(line, once, coloured),
        unrecognized_print_in(line, again, coloured),
    ensures
        once == again,
        unrecognized_print(line, once),
{
    let first = choose|colored: Seq<char>|
        recolored_text_in(line, colored, coloured) && once == #[trigger] (colored
            + UNRECOGNIZED_MARK@);
    let second = choose|colored: Seq<char>|
        recolored_text_in(line, colored, coloured) && again == #[trigger] (colored
            + UNRECOGNIZED_MARK@);
    lemma_one_setting_one_recolouring(line, first, second, coloured);
    lemma_one_setting_is_admitted(line, first, coloured);
}

proof fn lemma_unrecognized_text(line: Seq<char>, text: Seq<char>)
    requires
        !has_json(line),
        unrecognized_print(line, text),
    ensures
        text == line + UNRECOGNIZED_MARK@,
{
    let colored = choose|colored: Seq<char>|
        recolored_text(line, colored) && text == #[trigger] (colored + UNRECOGNIZED_MARK@);
    lemma_recolor_keeps_plain_text(line, colored);
}

} // verus!
