//! Classification of one logical line against the ordered formats.

use vstd::prelude::*;
use vstd::std_specs::iter::IteratorSpec;

use crate::patterns::{regex_captures, regex_matches, Format, PatternSet};

verus! {

/// The fields of a structured application line.
pub struct ApplicationRecord {
    pub timestamp: String,
    pub level: String,
    pub class: Option<String>,
    pub message: String,
}

/// The fields of a notice written again by an embedded interpreter.
pub struct NoticeRecord {
    pub timestamp: String,
    pub level: String,
    pub message: String,
}

/// What a line is: the first format that it meets, with the fields that the
/// renderer needs, or a line of no known format, or a blank line.
pub enum LineShape {
    Application(ApplicationRecord),
    Notice(NoticeRecord),
    WebAccess,
    ProxyAccess,
    GatewayError,
    ProcessManager,
    Unrecognized,
    Blank,
}

/// An application record as plain text.
pub struct ApplicationFields {
    pub timestamp: Seq<char>,
    pub level: Seq<char>,
    pub class: Option<Seq<char>>,
    pub message: Seq<char>,
}

/// A notice record as plain text.
pub struct NoticeFields {
    pub timestamp: Seq<char>,
    pub level: Seq<char>,
    pub message: Seq<char>,
}

/// A line shape as plain text.
pub enum Shape {
    Application(ApplicationFields),
    Notice(NoticeFields),
    WebAccess,
    ProxyAccess,
    GatewayError,
    ProcessManager,
    Unrecognized,
    Blank,
}

impl View for ApplicationRecord {
    type V = ApplicationFields;

    open spec fn view(&self) -> ApplicationFields {
        ApplicationFields {
            timestamp: self.timestamp@,
            level: self.level@,
            class: match self.class {
                Some(class) => Some(class@),
                None => None,
            },
            message: self.message@,
        }
    }
}

impl View for NoticeRecord {
    type V = NoticeFields;

    open spec fn view(&self) -> NoticeFields {
        NoticeFields { timestamp: self.timestamp@, level: self.level@, message: self.message@ }
    }
}

impl View for LineShape {
    type V = Shape;

    open spec fn view(&self) -> Shape {
        match self {
            LineShape::Application(record) => Shape::Application(record@),
            LineShape::Notice(record) => Shape::Notice(record@),
            LineShape::WebAccess => Shape::WebAccess,
            LineShape::ProxyAccess => Shape::ProxyAccess,
            LineShape::GatewayError => Shape::GatewayError,
            LineShape::ProcessManager => Shape::ProcessManager,
            LineShape::Unrecognized => Shape::Unrecognized,
            LineShape::Blank => Shape::Blank,
        }
    }
}

/// The Unicode white space characters.
pub open spec fn is_white_space(c: char) -> bool {
    ||| '\u{9}' <= c <= '\u{d}'
    ||| c == ' '
    ||| c == '\u{85}'
    ||| c == '\u{a0}'
    ||| c == '\u{1680}'
    ||| '\u{2000}' <= c <= '\u{200a}'
    ||| c == '\u{2028}'
    ||| c == '\u{2029}'
    ||| c == '\u{202f}'
    ||| c == '\u{205f}'
    ||| c == '\u{3000}'
}

/// Nothing is left of the line once white space is trimmed away.
pub open spec fn blank(line: Seq<char>) -> bool {
    forall|i: int| 0 <= i < line.len() ==> is_white_space(#[trigger] line[i])
}

fn white_space(c: char) -> (b: bool)
    ensures
        b == is_white_space(c),
{
    ('\u{9}' <= c && c <= '\u{d}') || c == ' ' || c == '\u{85}' || c == '\u{a0}' || c
        == '\u{1680}' || ('\u{2000}' <= c && c <= '\u{200a}') || c == '\u{2028}' || c
        == '\u{2029}' || c == '\u{202f}' || c == '\u{205f}' || c == '\u{3000}'
}

/// Whether the line is empty once trimmed.
pub fn is_blank(line: &str) -> (b: bool)
    ensures
        b == blank(line@),
{
    broadcast use vstd::string::group_string_axioms;

    let mut rest = line.chars();
    let ghost mut seen: int = 0;
    loop
        invariant
            0 <= seen <= line@.len(),
            rest.obeys_prophetic_iter_laws(),
            rest.remaining() == line@.skip(seen),
            forall|i: int| 0 <= i < seen ==> is_white_space(#[trigger] line@[i]),
        decreases line@.len() - seen,
    {
        match rest.next() {
            Some(c) => {
                assert(c == line@[seen]);
                assert(line@.skip(seen).drop_first() =~= line@.skip(seen + 1));
                if !white_space(c) {
                    return false;
                }
                proof {
                    seen = seen + 1;
                }
            },
            None => {
                return true;
            },
        }
    }
}

/// The fields of an application line among what its pattern captured: five
/// groups, of which the timestamp, the level and the message took part.
pub open spec fn application_fields(captured: Option<Seq<Option<Seq<char>>>>) -> Option<
    ApplicationFields,
> {
    match captured {
        Some(groups) => if groups.len() == 5 && groups[1] is Some && groups[2] is Some
            && groups[4] is Some {
            Some(
                ApplicationFields {
                    timestamp: groups[1]->0,
                    level: groups[2]->0,
                    class: groups[3],
                    message: groups[4]->0,
                },
            )
        } else {
            None
        },
        None => None,
    }
}

/// The fields of a notice among what its pattern captured: four groups, all
/// of which took part.
pub open spec fn notice_fields(captured: Option<Seq<Option<Seq<char>>>>) -> Option<
    NoticeFields,
> {
    match captured {
        Some(groups) => if groups.len() == 4 && groups[1] is Some && groups[2] is Some
            && groups[3] is Some {
            Some(
                NoticeFields {
                    timestamp: groups[1]->0,
                    level: groups[2]->0,
                    message: groups[3]->0,
                },
            )
        } else {
            None
        },
        None => None,
    }
}

/// Takes the fields of an application line out of the captured groups.
pub fn application_record(captured: Option<Vec<Option<String>>>) -> (record: Option<
    ApplicationRecord,
>)
    ensures
        match record {
            Some(found) => application_fields(captured.deep_view()) == Some(found@),
            None => application_fields(captured.deep_view()) is None,
        },
{
    let mut groups = match captured {
        Some(groups) => groups,
        None => { return None; },
    };
    if groups.len() != 5 {
        return None;
    }
    let ghost all = groups.deep_view();
    assert(all[1] == groups@[1].deep_view());
    assert(all[2] == groups@[2].deep_view());
    assert(all[3] == groups@[3].deep_view());
    assert(all[4] == groups@[4].deep_view());
    let message = groups.pop().unwrap();
    let class = groups.pop().unwrap();
    let level = groups.pop().unwrap();
    let timestamp = groups.pop().unwrap();
    match (timestamp, level, message) {
        (Some(timestamp), Some(level), Some(message)) => Some(
            ApplicationRecord { timestamp, level, class, message },
        ),
        _ => None,
    }
}

/// Takes the fields of a notice out of the captured groups.
pub fn notice_record(captured: Option<Vec<Option<String>>>) -> (record: Option<NoticeRecord>)
    ensures
        match record {
            Some(found) => notice_fields(captured.deep_view()) == Some(found@),
            None => notice_fields(captured.deep_view()) is None,
        },
{
    let mut groups = match captured {
        Some(groups) => groups,
        None => { return None; },
    };
    if groups.len() != 4 {
        return None;
    }
    let ghost all = groups.deep_view();
    assert(all[1] == groups@[1].deep_view());
    assert(all[2] == groups@[2].deep_view());
    assert(all[3] == groups@[3].deep_view());
    let message = groups.pop().unwrap();
    let level = groups.pop().unwrap();
    let timestamp = groups.pop().unwrap();
    match (timestamp, level, message) {
        (Some(timestamp), Some(level), Some(message)) => Some(
            NoticeRecord { timestamp, level, message },
        ),
        _ => None,
    }
}

/// The shape of a line: the formats are tried in their fixed order and the
/// first that the line meets decides; a line that meets none is blank or
/// unrecognized.
pub open spec fn shape_of(patterns: PatternSet, line: Seq<char>) -> Shape {
    let application = application_fields(
        regex_captures(patterns.expression(Format::Application), line),
    );
    let notice = notice_fields(regex_captures(patterns.expression(Format::Notice), line));
    if application is Some {
        Shape::Application(application->0)
    } else if notice is Some {
        Shape::Notice(notice->0)
    } else if regex_matches(patterns.expression(Format::WebAccess), line) {
        Shape::WebAccess
    } else if regex_matches(patterns.expression(Format::ProxyAccess), line) {
        Shape::ProxyAccess
    } else if regex_matches(patterns.expression(Format::GatewayError), line) {
        Shape::GatewayError
    } else if regex_matches(patterns.expression(Format::ProcessManager), line) {
        Shape::ProcessManager
    } else if blank(line) {
        Shape::Blank
    } else {
        Shape::Unrecognized
    }
}

/// Classifies a line.
pub fn classify(patterns: &PatternSet, line: &str) -> (shape: LineShape)
    ensures
        shape@ == shape_of(*patterns, line@),
{
    if let Some(record) = application_record(patterns.captures(Format::Application, line)) {
        return LineShape::Application(record);
    }
    if let Some(record) = notice_record(patterns.captures(Format::Notice, line)) {
        return LineShape::Notice(record);
    }
    if patterns.is_match(Format::WebAccess, line) {
        LineShape::WebAccess
    } else if patterns.is_match(Format::ProxyAccess, line) {
        LineShape::ProxyAccess
    } else if patterns.is_match(Format::GatewayError, line) {
        LineShape::GatewayError
    } else if patterns.is_match(Format::ProcessManager, line) {
        LineShape::ProcessManager
    } else if is_blank(line) {
        LineShape::Blank
    } else {
        LineShape::Unrecognized
    }
}

} // verus!
