//! The render decision for one logical line.

use std::ops::Range;
use vstd::prelude::*;
use vstd::string::StringExecFns;
use vstd::utf8::*;

use crate::patterns::PatternSet;
use crate::recolor::{
    color_json_spans, fault_view, faults_upto, recolored, FaultKind, Recolored, SpanFault,
};
use crate::shape::{
    classify, shape_of, ApplicationFields, ApplicationRecord, LineShape, NoticeFields,
    NoticeRecord, Shape,
};
use crate::spans::{search_json, spans_cover};
use crate::style::{bold, bold_underlined, magenta, styled, yellow, BOLD, BOLD_UNDERLINED, MAGENTA, YELLOW};
use crate::time::{format_datetime, parse_rfc3339, rfc3339_instant, time_wording};

verus! {

/// What becomes of a line: it is printed as the given text, or it is left
/// out.
#[derive(Debug)]
pub enum RenderDecision {
    Print(String),
    Suppress,
}

/// A line has the shape of an application line but its timestamp, given
/// here, is no RFC 3339 date and time.
#[derive(Debug)]
pub enum RenderError {
    BadTimestamp(String),
}

/// The mark at the end of a line of no known format.
pub const UNRECOGNIZED_MARK: &'static str = "↵";

/// The levels of application lines that are never shown.
pub open spec fn quiet_level(level: Seq<char>) -> bool {
    level == "security.DEBUG"@ || level == "security.INFO"@
}

/// Whether application lines of this level are left out.
pub fn is_quiet_level(level: &String) -> (quiet: bool)
    ensures
        quiet == quiet_level(level@),
{
    let debug = String::from_str("security.DEBUG");
    let info = String::from_str("security.INFO");
    *level == debug || *level == info
}

/// An application line as printed: the time in brackets, the level with a
/// colon, the class in brackets where there is one, and the message.
pub open spec fn application_text(
    stamp: Seq<char>,
    level: Seq<char>,
    class: Option<Seq<char>>,
    message: Seq<char>,
) -> Seq<char> {
    let class_part = match class {
        Some(name) => " ["@ + name + "]"@,
        None => Seq::empty(),
    };
    "["@ + stamp + "] "@ + level + ":"@ + class_part + " "@ + message
}

/// Puts the parts of an application line together.
pub fn application_line(stamp: &str, level: &str, class: Option<&str>, message: &str) -> (line:
    String)
    ensures
        line@ == application_text(
            stamp@,
            level@,
            match class {
                Some(name) => Some(name@),
                None => None,
            },
            message@,
        ),
{
    let mut line = String::from_str("[");
    line.append(stamp);
    line.append("] ");
    line.append(level);
    line.append(":");
    let ghost front = line@;
    match class {
        Some(name) => {
            line.append(" [");
            line.append(name);
            line.append("]");
            assert(line@ =~= front + (" ["@ + name@ + "]"@));
        },
        None => {
            assert(line@ =~= front + Seq::<char>::empty());
        },
    }
    line.append(" ");
    line.append(message);
    line
}

/// A notice as printed: the timestamp in brackets, the level and the message.
pub open spec fn notice_text(stamp: Seq<char>, level: Seq<char>, message: Seq<char>) -> Seq<char> {
    "["@ + stamp + "] "@ + level + " "@ + message
}

/// Puts the parts of a notice together.
pub fn notice_line(stamp: &str, level: &str, message: &str) -> (line: String)
    ensures
        line@ == notice_text(stamp@, level@, message@),
{
    let mut line = String::from_str("[");
    line.append(stamp);
    line.append("] ");
    line.append(level);
    line.append(" ");
    line.append(message);
    line
}

/// `after` is `before` with its JSON recoloured: some of its top-level
/// objects that are valid JSON are replaced, and nothing else changes.
pub open spec fn recolored_text(before: Seq<char>, after: Seq<char>) -> bool {
    exists|ranges: Seq<Range<usize>>|
        {
            &&& spans_cover(encode_utf8(before), ranges, encode_utf8(before).len() as int)
            &&& #[trigger] recolored(encode_utf8(before), ranges, encode_utf8(after))
        }
}

/// The faults are those of the top-level objects of the text, in order.
pub open spec fn text_faults(text: Seq<char>, faults: Seq<(Range<usize>, FaultKind)>) -> bool {
    exists|ranges: Seq<Range<usize>>|
        {
            &&& spans_cover(encode_utf8(text), ranges, encode_utf8(text).len() as int)
            &&& faults == #[trigger] faults_upto(encode_utf8(text), ranges, ranges.len() as int)
        }
}

/// Recolours the top-level JSON objects of a text and lists those that keep
/// their text.
pub fn recolor_reporting(text: &str) -> (out: Recolored)
    ensures
        recolored_text(text@, out.text@),
        text_faults(text@, fault_view(out.faults@)),
{
    let ranges = search_json(text);
    let ghost found = ranges@;
    let out = color_json_spans(text, ranges);
    assert(recolored(encode_utf8(text@), found, encode_utf8(out.text@)));
    assert(fault_view(out.faults@) == faults_upto(encode_utf8(text@), found, found.len() as int));
    out
}

/// Recolours the top-level JSON objects of a text.
pub fn recolor(text: &str) -> (out: String)
    ensures
        recolored_text(text@, out@),
{
    recolor_reporting(text).text
}

/// `text` is the printed form of the application record: a wording of its
/// time, the level and the class, all styled, and the message recoloured.
pub open spec fn application_print(fields: ApplicationFields, text: Seq<char>) -> bool {
    exists|stamp: Seq<char>, level: Seq<char>, class: Option<Seq<char>>, message: Seq<char>|
        {
            &&& stamp_styled(stamp)
            &&& styled(level, fields.level, BOLD_UNDERLINED@)
            &&& match fields.class {
                Some(name) => class is Some && styled(class->0, name, MAGENTA@),
                None => class is None,
            }
            &&& recolored_text(fields.message, message)
            &&& text == #[trigger] application_text(stamp, level, class, message)
        }
}

/// `stamp` is a wording of a time, in yellow where styles show.
pub open spec fn stamp_styled(stamp: Seq<char>) -> bool {
    exists|label: Seq<char>| time_wording(label) && #[trigger] styled(stamp, label, YELLOW@)
}

/// `text` is the printed form of the notice: timestamp and level styled, the
/// message as it is.
pub open spec fn notice_print(fields: NoticeFields, text: Seq<char>) -> bool {
    exists|stamp: Seq<char>, level: Seq<char>|
        {
            &&& styled(stamp, fields.timestamp, YELLOW@)
            &&& styled(level, fields.level, BOLD@)
            &&& text == #[trigger] notice_text(stamp, level, fields.message)
        }
}

/// `text` is the printed form of a line of no known format: the line with its
/// JSON recoloured, and the mark.
pub open spec fn unrecognized_print(line: Seq<char>, text: Seq<char>) -> bool {
    exists|colored: Seq<char>|
        recolored_text(line, colored) && text == #[trigger] (colored + UNRECOGNIZED_MARK@)
}

/// The outcome that a line of the given shape is owed.
pub open spec fn rendered(
    shape: Shape,
    line: Seq<char>,
    outcome: Result<RenderDecision, RenderError>,
) -> bool {
    match shape {
        Shape::Application(fields) => if quiet_level(fields.level) {
            outcome matches Ok(RenderDecision::Suppress)
        } else if rfc3339_instant(fields.timestamp) is None {
            outcome matches Err(RenderError::BadTimestamp(stamp)) && stamp@ == fields.timestamp
        } else {
            outcome matches Ok(RenderDecision::Print(text)) && application_print(fields, text@)
        },
        Shape::Notice(fields) => outcome matches Ok(RenderDecision::Print(text)) && notice_print(
            fields,
            text@,
        ),
        Shape::WebAccess | Shape::ProxyAccess | Shape::GatewayError | Shape::ProcessManager
        | Shape::Blank => outcome matches Ok(RenderDecision::Suppress),
        Shape::Unrecognized => outcome matches Ok(RenderDecision::Print(text))
            && unrecognized_print(line, text@),
    }
}

/// A render decision and the JSON spans that were kept as they were on the
/// way to it. The offsets of the spans count from the start of the text that
/// was recoloured: the message of an application line, or the whole of a
/// line of no known format.
#[derive(Debug)]
pub struct Rendered {
    pub decision: RenderDecision,
    pub faults: Vec<SpanFault>,
}

/// The outcome without the faults.
pub open spec fn decision_of(outcome: Result<Rendered, RenderError>) -> Result<
    RenderDecision,
    RenderError,
> {
    match outcome {
        Ok(done) => Ok(done.decision),
        Err(fault) => Err(fault),
    }
}

/// The faults that come with the outcome: those of the text that was
/// recoloured, and none where nothing was.
pub open spec fn faults_owed(
    shape: Shape,
    line: Seq<char>,
    outcome: Result<Rendered, RenderError>,
) -> bool {
    outcome matches Ok(done) ==> match shape {
        Shape::Application(fields) => if quiet_level(fields.level) {
            done.faults@.len() == 0
        } else {
            text_faults(fields.message, fault_view(done.faults@))
        },
        Shape::Unrecognized => text_faults(line, fault_view(done.faults@)),
        _ => done.faults@.len() == 0,
    }
}

/// Renders an application record.
fn render_application(record: ApplicationRecord) -> (outcome: Result<Rendered, RenderError>)
    ensures
        forall|line: Seq<char>| rendered(Shape::Application(record@), line, decision_of(outcome)),
        forall|line: Seq<char>| faults_owed(Shape::Application(record@), line, outcome),
{
    if is_quiet_level(&record.level) {
        return Ok(Rendered { decision: RenderDecision::Suppress, faults: Vec::new() });
    }
    let instant = match parse_rfc3339(record.timestamp.as_str()) {
        Ok(instant) => instant,
        Err(_) => { return Err(RenderError::BadTimestamp(record.timestamp)); },
    };
    let label = match format_datetime(&instant) {
        Some(label) => label,
        None => { return Err(RenderError::BadTimestamp(record.timestamp)); },
    };
    let stamp = yellow(label.as_str());
    assert(stamp_styled(stamp@)) by {
        assert(styled(stamp@, label@, YELLOW@));
    }
    let level = bold_underlined(record.level.as_str());
    let message = recolor_reporting(record.message.as_str());
    let text = match &record.class {
        Some(name) => {
            let class = magenta(name.as_str());
            let text = application_line(
                stamp.as_str(),
                level.as_str(),
                Some(class.as_str()),
                message.text.as_str(),
            );
            assert(text@ == application_text(stamp@, level@, Some(class@), message.text@));
            text
        },
        None => {
            let text = application_line(
                stamp.as_str(),
                level.as_str(),
                None,
                message.text.as_str(),
            );
            assert(text@ == application_text(stamp@, level@, None, message.text@));
            text
        },
    };
    assert(application_print(record@, text@));
    Ok(Rendered { decision: RenderDecision::Print(text), faults: message.faults })
}

/// Renders a notice record.
fn render_notice(record: NoticeRecord) -> (outcome: Result<Rendered, RenderError>)
    ensures
        forall|line: Seq<char>| rendered(Shape::Notice(record@), line, decision_of(outcome)),
        forall|line: Seq<char>| faults_owed(Shape::Notice(record@), line, outcome),
{
    let stamp = yellow(record.timestamp.as_str());
    let level = bold(record.level.as_str());
    let text = notice_line(stamp.as_str(), level.as_str(), record.message.as_str());
    assert(text@ == notice_text(stamp@, level@, record@.message));
    assert(notice_print(record@, text@));
    Ok(Rendered { decision: RenderDecision::Print(text), faults: Vec::new() })
}

/// Renders a line of no known format.
fn render_unrecognized(line: &str) -> (outcome: Result<Rendered, RenderError>)
    ensures
        rendered(Shape::Unrecognized, line@, decision_of(outcome)),
        faults_owed(Shape::Unrecognized, line@, outcome),
{
    let colored = recolor_reporting(line);
    let mut text = colored.text;
    let ghost plain = text@;
    text.append(UNRECOGNIZED_MARK);
    assert(text@ == plain + UNRECOGNIZED_MARK@);
    assert(unrecognized_print(line@, text@));
    Ok(Rendered { decision: RenderDecision::Print(text), faults: colored.faults })
}

/// A line that is left out, with nothing to report.
fn left_out() -> (outcome: Result<Rendered, RenderError>)
    ensures
        outcome matches Ok(done) && done.decision is Suppress && done.faults@.len() == 0,
{
    Ok(Rendered { decision: RenderDecision::Suppress, faults: Vec::new() })
}

/// Decides what becomes of one logical line, and lists the JSON spans that
/// were kept as they were, for a report beside the output. The decision is
/// that of `parse_log_str`.
pub fn render_line(patterns: &PatternSet, line: &str) -> (outcome: Result<Rendered, RenderError>)
    ensures
        rendered(shape_of(*patterns, line@), line@, decision_of(outcome)),
        faults_owed(shape_of(*patterns, line@), line@, outcome),
{
    match classify(patterns, line) {
        LineShape::Application(record) => render_application(record),
        LineShape::Notice(record) => render_notice(record),
        LineShape::WebAccess => left_out(),
        LineShape::ProxyAccess => left_out(),
        LineShape::GatewayError => left_out(),
        LineShape::ProcessManager => left_out(),
        LineShape::Unrecognized => render_unrecognized(line),
        LineShape::Blank => left_out(),
    }
}

/// Decides what becomes of one logical line. The first format that the line
/// meets decides: an application line is printed with its time, level, class
/// and recoloured message, unless its level is a quiet one; a notice is
/// printed with its timestamp and level; access lines, gateway errors and
/// process-manager lines are left out, and so are blank lines; any other line
/// is printed with its JSON recoloured and a mark at its end. An application
/// line of a level that is shown is an error exactly where its timestamp is
/// no RFC 3339 date and time.
pub fn parse_log_str(patterns: &PatternSet, line: &str) -> (outcome: Result<
    RenderDecision,
    RenderError,
>)
    ensures
        rendered(shape_of(*patterns, line@), line@, outcome),
{
    match render_line(patterns, line) {
        Ok(done) => Ok(done.decision),
        Err(fault) => Err(fault),
    }
}

} // verus!
