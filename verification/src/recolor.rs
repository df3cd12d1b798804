//! Replacement of the JSON objects inside a text by their coloured form.
//!
//! Texts are modelled as UTF-8 byte sequences, because spans are byte ranges.

use colored_json::{ColoredFormatter, CompactFormatter};
use std::ops::Range;
use vstd::prelude::*;
use vstd::string::{StringExecFns, StringSliceAdditionalSpecFns};
use vstd::utf8::*;

use crate::spans::{search_json, sliceable, spans_cover};
use crate::text::{lemma_encode_concat, slice_bytes};

verus! {

#[verifier::external_type_specification]
#[verifier::external_body]
pub struct ExJsonValue(serde_json::Value);

#[verifier::external_type_specification]
#[verifier::external_body]
pub struct ExJsonError(serde_json::Error);

/// The value that `serde_json` reads the whole text as; `None` for a text
/// that is no JSON value.
pub uninterp spec fn json_value(text: Seq<char>) -> Option<serde_json::Value>;

/// The two forms in which a value is written out in compact form: first
/// plain, then coloured. `None` for a value that cannot be written.
pub uninterp spec fn json_forms(value: serde_json::Value) -> Option<(Seq<char>, Seq<char>)>;

/// Whether `serde_json` reads the whole text as one JSON value.
pub open spec fn json_accepts(text: Seq<char>) -> bool {
    json_value(text) is Some
}

/// `serde_json::from_str` at the type `serde_json::Value`. The outcome is the
/// one that `json_value` names.
#[verifier::external_body]
fn parse_json(text: &str) -> (parsed: Result<serde_json::Value, serde_json::Error>)
    ensures
        match parsed {
            Ok(value) => json_value(text@) == Some(value),
            Err(_) => json_value(text@) is None,
        },
{
    serde_json::from_str(text)
}

/// `colored_json::ColoredFormatter::to_colored_json_auto` with the compact
/// formatter. Whether it colours depends on the terminal, on `NO_COLOR` and
/// on the switch of the painting library, so the text is one of the two
/// forms that `json_forms` names: the plain one, as `serde_json` writes the
/// value in compact form, or the coloured one, each token in its style.
#[verifier::external_body]
fn colorize(value: &serde_json::Value) -> (colored: Result<String, serde_json::Error>)
    ensures
        match colored {
            Ok(text) => json_forms(*value) matches Some(forms) && (text@ == forms.0 || text@
                == forms.1),
            Err(_) => json_forms(*value) is None,
        },
{
    ColoredFormatter::new(CompactFormatter {}).to_colored_json_auto(value)
}

/// The spans are in range, fall on character boundaries, and go from left to
/// right without overlap.
pub open spec fn well_placed(bytes: Seq<u8>, spans: Seq<Range<usize>>) -> bool {
    &&& sliceable(bytes, spans)
    &&& forall|j: int, k: int| 0 <= j < k < spans.len() ==> spans[j].end <= spans[k].start
}

/// Where the text between spans `n - 1` and `n` begins.
pub open spec fn gap_start(spans: Seq<Range<usize>>, n: int) -> int {
    if n <= 0 {
        0
    } else {
        spans[n - 1].end as int
    }
}

/// What stands for span `j` in the result: its replacement, or the span
/// itself where there is none.
pub open spec fn piece(
    bytes: Seq<u8>,
    spans: Seq<Range<usize>>,
    replacements: Seq<Option<Seq<u8>>>,
    j: int,
) -> Seq<u8> {
    match replacements[j] {
        Some(replacement) => replacement,
        None => bytes.subrange(spans[j].start as int, spans[j].end as int),
    }
}

/// The result up to the end of span `n - 1`: each span, with the text before
/// it, in turn.
pub open spec fn spliced_prefix(
    bytes: Seq<u8>,
    spans: Seq<Range<usize>>,
    replacements: Seq<Option<Seq<u8>>>,
    n: int,
) -> Seq<u8>
    decreases n,
{
    if n <= 0 {
        Seq::empty()
    } else {
        spliced_prefix(bytes, spans, replacements, n - 1) + bytes.subrange(
            gap_start(spans, n - 1),
            spans[n - 1].start as int,
        ) + piece(bytes, spans, replacements, n - 1)
    }
}

/// The text with every span replaced in place; the text outside the spans
/// stays as it is.
pub open spec fn spliced(
    bytes: Seq<u8>,
    spans: Seq<Range<usize>>,
    replacements: Seq<Option<Seq<u8>>>,
) -> Seq<u8> {
    spliced_prefix(bytes, spans, replacements, spans.len() as int) + bytes.subrange(
        gap_start(spans, spans.len() as int),
        bytes.len() as int,
    )
}

/// The replacements as byte sequences.
pub open spec fn replacement_bytes(replacements: Seq<Option<String>>) -> Seq<Option<Seq<u8>>> {
    Seq::new(
        replacements.len(),
        |j: int|
            match replacements[j] {
                Some(replacement) => Some(encode_utf8(replacement@)),
                None => None,
            },
    )
}

/// Puts each replacement in the place of its span. A span without a
/// replacement keeps its text.
pub fn splice_spans(
    text: &str,
    spans: &Vec<Range<usize>>,
    replacements: &Vec<Option<String>>,
) -> (out: String)
    requires
        well_placed(text.spec_bytes(), spans@),
        replacements.len() == spans.len(),
    ensures
        encode_utf8(out@) == spliced(text.spec_bytes(), spans@, replacement_bytes(replacements@)),
{
    broadcast use encode_utf8_valid_utf8;

    let ghost bytes = text.spec_bytes();
    let ghost wanted = replacement_bytes(replacements@);
    let total: usize = text.as_bytes().len();
    let mut out = String::new();
    let mut cursor: usize = 0;
    let mut j: usize = 0;
    proof {
        is_char_boundary_start_end_of_seq(bytes);
    }
    while j < spans.len()
        invariant
            bytes == text.spec_bytes(),
            wanted == replacement_bytes(replacements@),
            total == bytes.len(),
            valid_utf8(bytes),
            well_placed(bytes, spans@),
            replacements.len() == spans.len(),
            0 <= j <= spans.len(),
            cursor == gap_start(spans@, j as int),
            cursor <= total,
            is_char_boundary(bytes, cursor as int),
            encode_utf8(out@) == spliced_prefix(bytes, spans@, wanted, j as int),
        decreases spans.len() - j,
    {
        let start: usize = spans[j].start;
        let end: usize = spans[j].end;
        proof {
            if j > 0 {
                assert(spans@[j - 1].end <= spans@[j as int].start);
            }
        }
        let gap = slice_bytes(text, cursor, start);
        let ghost before = out@;
        out.append(gap);
        proof {
            lemma_encode_concat(before, gap@);
        }
        let ghost with_gap = out@;
        match &replacements[j] {
            Some(replacement) => {
                out.append(replacement.as_str());
                proof {
                    lemma_encode_concat(with_gap, replacement@);
                    assert(wanted[j as int] == Some(encode_utf8(replacement@)));
                }
            },
            None => {
                let kept = slice_bytes(text, start, end);
                out.append(kept);
                proof {
                    lemma_encode_concat(with_gap, kept@);
                    assert(wanted[j as int] is None);
                }
            },
        }
        cursor = end;
        j += 1;
    }
    proof {
        is_char_boundary_start_end_of_seq(bytes);
    }
    let tail = slice_bytes(text, cursor, total);
    let ghost before = out@;
    out.append(tail);
    proof {
        lemma_encode_concat(before, tail@);
    }
    out
}

/// Why a span keeps its text.
#[derive(Clone, Copy, Debug, PartialEq, Eq)]
pub enum FaultKind {
    /// The span is no JSON value.
    NotJson,
    /// The span is a JSON value that could not be written out again.
    NotWritten,
}

/// A span that keeps its text, with what the JSON library said of it.
#[derive(Debug)]
pub struct SpanFault {
    pub span: Range<usize>,
    pub kind: FaultKind,
    pub cause: serde_json::Error,
}

/// A recoloured text and the spans that were kept as they were.
#[derive(Debug)]
pub struct Recolored {
    pub text: String,
    pub faults: Vec<SpanFault>,
}

/// The plain and the coloured form of a text that is one JSON value.
pub open spec fn coloured_forms(text: Seq<char>) -> Option<(Seq<char>, Seq<char>)> {
    match json_value(text) {
        Some(value) => json_forms(value),
        None => None,
    }
}

/// Why a span of the given text keeps its text, if it does.
pub open spec fn fault_of(text: Seq<char>) -> Option<FaultKind> {
    match json_value(text) {
        Some(value) => if json_forms(value) is Some {
            None
        } else {
            Some(FaultKind::NotWritten)
        },
        None => Some(FaultKind::NotJson),
    }
}

/// What stands for a span of the given text: one of its two forms where it
/// has them, nothing where it has a fault.
pub open spec fn replaces(text: Seq<char>, replacement: Option<Seq<u8>>) -> bool {
    match coloured_forms(text) {
        Some(forms) => replacement == Some(encode_utf8(forms.0)) || replacement == Some(
            encode_utf8(forms.1),
        ),
        None => replacement is None,
    }
}

/// The text of span `j`.
pub open spec fn span_text(bytes: Seq<u8>, spans: Seq<Range<usize>>, j: int) -> Seq<char> {
    decode_utf8(bytes.subrange(spans[j].start as int, spans[j].end as int))
}

/// The faults among the first `n` spans, in order.
pub open spec fn faults_upto(bytes: Seq<u8>, spans: Seq<Range<usize>>, n: int) -> Seq<
    (Range<usize>, FaultKind),
>
    decreases n,
{
    if n <= 0 {
        Seq::empty()
    } else {
        let before = faults_upto(bytes, spans, n - 1);
        match fault_of(span_text(bytes, spans, n - 1)) {
            Some(kind) => before.push((spans[n - 1], kind)),
            None => before,
        }
    }
}

/// The faults as spans and kinds.
pub open spec fn fault_view(faults: Seq<SpanFault>) -> Seq<(Range<usize>, FaultKind)> {
    Seq::new(faults.len(), |j: int| (faults[j].span, faults[j].kind))
}

/// What the JSON library said of a text that keeps its form.
struct Refusal {
    kind: FaultKind,
    cause: serde_json::Error,
}

/// The coloured form of a text that is one JSON value, or why there is none.
fn color_span(text: &str) -> (colored: Result<String, Refusal>)
    ensures
        match colored {
            Ok(form) => coloured_forms(text@) matches Some(forms) && (form@ == forms.0 || form@
                == forms.1),
            Err(refusal) => fault_of(text@) == Some(refusal.kind),
        },
{
    match parse_json(text) {
        Ok(value) => match colorize(&value) {
            Ok(colored) => Ok(colored),
            Err(cause) => Err(Refusal { kind: FaultKind::NotWritten, cause }),
        },
        Err(cause) => Err(Refusal { kind: FaultKind::NotJson, cause }),
    }
}

/// `after` is `before` with each span that is valid JSON replaced by one of
/// its two forms, plain or coloured, and with nothing else changed: a span
/// that is no JSON, or that cannot be written out again, keeps its text.
pub open spec fn recolored(before: Seq<u8>, spans: Seq<Range<usize>>, after: Seq<u8>) -> bool {
    exists|replacements: Seq<Option<Seq<u8>>>|
        {
            &&& replacements.len() == spans.len()
            &&& after == #[trigger] spliced(before, spans, replacements)
            &&& forall|j: int|
                0 <= j < spans.len() ==> replaces(
                    span_text(before, spans, j),
                    #[trigger] replacements[j],
                )
        }
}

/// Replaces each of the given spans that parses as JSON by its compact form,
/// coloured where colours show, and lists the spans that keep their text
/// because they do not parse or cannot be written out again. Everything
/// outside the spans stays as it is.
pub fn color_json_spans(text: &str, ranges: Vec<Range<usize>>) -> (out: Recolored)
    requires
        well_placed(text.spec_bytes(), ranges@),
    ensures
        recolored(text.spec_bytes(), ranges@, encode_utf8(out.text@)),
        fault_view(out.faults@) == faults_upto(text.spec_bytes(), ranges@, ranges@.len() as int),
{
    let ghost bytes = text.spec_bytes();
    let mut replacements: Vec<Option<String>> = Vec::new();
    let mut faults: Vec<SpanFault> = Vec::new();
    let mut j: usize = 0;
    assert(fault_view(faults@) =~= faults_upto(bytes, ranges@, 0));
    while j < ranges.len()
        invariant
            bytes == text.spec_bytes(),
            well_placed(bytes, ranges@),
            0 <= j <= ranges.len(),
            replacements.len() == j,
            forall|k: int|
                0 <= k < j ==> replaces(
                    span_text(bytes, ranges@, k),
                    #[trigger] replacement_bytes(replacements@)[k],
                ),
            fault_view(faults@) == faults_upto(bytes, ranges@, j as int),
        decreases ranges.len() - j,
    {
        let start: usize = ranges[j].start;
        let end: usize = ranges[j].end;
        let part = slice_bytes(text, start, end);
        proof {
            encode_utf8_decode_utf8(part@);
            assert(part.spec_bytes() == encode_utf8(part@));
            assert(part@ == span_text(bytes, ranges@, j as int));
        }
        let ghost done = replacement_bytes(replacements@);
        let ghost listed = fault_view(faults@);
        match color_span(part) {
            Ok(form) => {
                replacements.push(Some(form));
            },
            Err(refusal) => {
                replacements.push(None);
                faults.push(
                    SpanFault { span: Range { start, end }, kind: refusal.kind, cause: refusal.cause },
                );
                assert(fault_view(faults@) =~= listed.push((ranges@[j as int], refusal.kind)));
            },
        }
        proof {
            let now = replacement_bytes(replacements@);
            assert forall|k: int| 0 <= k < j + 1 implies replaces(
                span_text(bytes, ranges@, k),
                #[trigger] now[k],
            ) by {
                if k < j {
                    assert(now[k] == done[k]);
                }
            }
        }
        j += 1;
    }
    let text = splice_spans(text, &ranges, &replacements);
    proof {
        let wanted = replacement_bytes(replacements@);
        assert(wanted.len() == ranges@.len());
        assert(encode_utf8(text@) == spliced(bytes, ranges@, wanted));
    }
    Recolored { text, faults }
}

/// Replaces each of the given spans that parses as JSON by its compact form,
/// coloured where colours show. A span that does not parse, or that cannot be
/// written out again, keeps its text, and so does everything outside the
/// spans.
pub fn make_json_colored(text: &str, ranges: Vec<Range<usize>>) -> (out: String)
    requires
        well_placed(text.spec_bytes(), ranges@),
    ensures
        recolored(text.spec_bytes(), ranges@, encode_utf8(out@)),
{
    color_json_spans(text, ranges).text
}

/// Recolours the top-level JSON objects of the text in place and hands the
/// text back.
pub fn find_and_color_json(text: &mut String) -> (out: &str)
    ensures
        out@ == final(text)@,
        exists|ranges: Seq<Range<usize>>|
            {
                &&& spans_cover(
                    encode_utf8(old(text)@),
                    ranges,
                    encode_utf8(old(text)@).len() as int,
                )
                &&& #[trigger] recolored(encode_utf8(old(text)@), ranges, encode_utf8(final(text)@))
            },
{
    let ranges = search_json(text.as_str());
    let ghost found = ranges@;
    let colored = make_json_colored(text.as_str(), ranges);
    *text = colored;
    assert(recolored(encode_utf8(old(text)@), found, encode_utf8(text@)));
    text.as_str()
}

} // verus!
