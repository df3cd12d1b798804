//! Timestamps of log lines and how long ago they were written.

use vstd::prelude::*;
use vstd::string::StringExecFns;

verus! {

#[verifier::external_type_specification]
#[verifier::external_body]
pub struct ExParseError(chrono::ParseError);

/// A point in time: whole seconds since the Unix epoch and the nanoseconds
/// within the second. During a leap second the nanoseconds go beyond one
/// thousand million.
#[derive(Clone, Copy, Debug)]
pub struct Instant {
    pub seconds: i64,
    pub nanos: u32,
}

/// The point in time that an RFC 3339 text denotes, as seconds and
/// nanoseconds; `None` for a text that is no RFC 3339 date and time.
pub uninterp spec fn rfc3339_instant(text: Seq<char>) -> Option<(int, int)>;

/// Whether `chrono::DateTime::from_timestamp` has a date and time for the
/// given seconds and nanoseconds.
pub uninterp spec fn calendar_holds(seconds: int, nanos: int) -> bool;

impl Instant {
    /// The calendar has a date and time for the instant.
    pub open spec fn placed(&self) -> bool {
        calendar_holds(self.seconds as int, self.nanos as int)
    }
}

/// `chrono::DateTime::parse_from_rfc3339`, the result taken apart with
/// `timestamp` and `timestamp_subsec_nanos`. The outcome is the one that
/// `rfc3339_instant` names, and what was parsed can be put together again
/// from its two parts.
#[verifier::external_body]
pub(crate) fn parse_rfc3339(text: &str) -> (parsed: Result<Instant, chrono::ParseError>)
    ensures
        match parsed {
            Ok(at) => rfc3339_instant(text@) == Some((at.seconds as int, at.nanos as int))
                && calendar_holds(at.seconds as int, at.nanos as int),
            Err(_) => rfc3339_instant(text@) is None,
        },
{
    chrono::DateTime::parse_from_rfc3339(text).map(
        |at| Instant { seconds: at.timestamp(), nanos: at.timestamp_subsec_nanos() },
    )
}

/// The whole seconds from the instant to now: `chrono::Utc::now`,
/// `signed_duration_since` and `num_seconds`, on the instant rebuilt with
/// `chrono::DateTime::from_timestamp`. `None` where the calendar cannot hold
/// the instant. The number depends on the clock, so nothing is claimed of it.
#[verifier::external_body]
fn seconds_since(at: &Instant) -> (elapsed: Option<i64>)
    ensures
        elapsed is Some <==> calendar_holds(at.seconds as int, at.nanos as int),
{
    chrono::DateTime::from_timestamp(at.seconds, at.nanos).map(
        |then| chrono::Utc::now().signed_duration_since(then).num_seconds(),
    )
}

/// The instant in the machine's time zone, as weekday, day, month and time of
/// day: `with_timezone` and `format` on the instant rebuilt with
/// `chrono::DateTime::from_timestamp`. `None` where the calendar cannot hold
/// the instant. The text depends on the time zone; whatever the zone, it is
/// a weekday of three letters, a comma, a day of two digits, a month of three
/// letters and the time as hours and minutes: seventeen characters.
#[verifier::external_body]
fn local_display(at: &Instant) -> (shown: Option<String>)
    ensures
        shown is Some <==> calendar_holds(at.seconds as int, at.nanos as int),
        shown matches Some(text) ==> text@.len() == LOCAL_DISPLAY_WIDTH,
{
    chrono::DateTime::from_timestamp(at.seconds, at.nanos).map(
        |then| then.with_timezone(&chrono::Local).format("%a, %d %b %R").to_string(),
    )
}

/// The character of a decimal digit.
pub open spec fn digit_char(d: int) -> char {
    if d == 0 {
        '0'
    } else if d == 1 {
        '1'
    } else if d == 2 {
        '2'
    } else if d == 3 {
        '3'
    } else if d == 4 {
        '4'
    } else if d == 5 {
        '5'
    } else if d == 6 {
        '6'
    } else if d == 7 {
        '7'
    } else if d == 8 {
        '8'
    } else {
        '9'
    }
}

/// A natural number in decimal, without leading zeros.
pub open spec fn decimal_text(n: nat) -> Seq<char>
    decreases n,
{
    if n < 10 {
        seq![digit_char(n as int)]
    } else {
        decimal_text(n / 10).push(digit_char((n % 10) as int))
    }
}

fn digit_str(d: u64) -> (text: &'static str)
    requires
        d < 10,
    ensures
        text@ == seq![digit_char(d as int)],
{
    proof {
        reveal_strlit("0");
        reveal_strlit("1");
        reveal_strlit("2");
        reveal_strlit("3");
        reveal_strlit("4");
        reveal_strlit("5");
        reveal_strlit("6");
        reveal_strlit("7");
        reveal_strlit("8");
        reveal_strlit("9");
    }
    let text = if d == 0 {
        "0"
    } else if d == 1 {
        "1"
    } else if d == 2 {
        "2"
    } else if d == 3 {
        "3"
    } else if d == 4 {
        "4"
    } else if d == 5 {
        "5"
    } else if d == 6 {
        "6"
    } else if d == 7 {
        "7"
    } else if d == 8 {
        "8"
    } else {
        "9"
    };
    assert(text@ =~= seq![digit_char(d as int)]);
    text
}

/// Writes a number in decimal.
pub fn decimal(n: u64) -> (text: String)
    ensures
        text@ == decimal_text(n as nat),
    decreases n,
{
    if n < 10 {
        String::from_str(digit_str(n))
    } else {
        let mut text = decimal(n / 10);
        let ghost front = text@;
        text.append(digit_str(n % 10));
        assert(text@ =~= front.push(digit_char((n % 10) as int)));
        text
    }
}

pub const SECONDS_PER_MINUTE: u64 = 60;

pub const SECONDS_PER_HOUR: u64 = 3600;

/// How a number of elapsed seconds reads: from twelve hours on there is no
/// relative wording (`None`); then whole hours, whole minutes, or seconds
/// from ten on; anything shorter, and any time still to come, is "a few
/// moments ago". One hour and one minute stand in the singular.
pub open spec fn relative_text(seconds: int) -> Option<Seq<char>> {
    if seconds < 10 {
        Some("a few moments ago"@)
    } else if seconds / 3600 >= 12 {
        None
    } else if seconds / 3600 >= 2 {
        Some(decimal_text((seconds / 3600) as nat) + " hours ago"@)
    } else if seconds / 3600 == 1 {
        Some(decimal_text(1) + " hour ago"@)
    } else if seconds / 60 >= 2 {
        Some(decimal_text((seconds / 60) as nat) + " minutes ago"@)
    } else if seconds / 60 == 1 {
        Some(decimal_text(1) + " minute ago"@)
    } else {
        Some(decimal_text(seconds as nat) + " seconds ago"@)
    }
}

/// The relative wording of an elapsed time, where it has one.
pub fn relative_label(seconds: i64) -> (label: Option<String>)
    ensures
        label is Some <==> relative_text(seconds as int) is Some,
        label matches Some(text) ==> Some(text@) == relative_text(seconds as int),
{
    if seconds < 10 {
        return Some(String::from_str("a few moments ago"));
    }
    let elapsed: u64 = seconds as u64;
    let hours: u64 = elapsed / SECONDS_PER_HOUR;
    let minutes: u64 = elapsed / SECONDS_PER_MINUTE;
    if hours >= 12 {
        None
    } else if hours >= 2 {
        let mut text = decimal(hours);
        text.append(" hours ago");
        Some(text)
    } else if hours == 1 {
        let mut text = decimal(hours);
        text.append(" hour ago");
        Some(text)
    } else if minutes >= 2 {
        let mut text = decimal(minutes);
        text.append(" minutes ago");
        Some(text)
    } else if minutes == 1 {
        let mut text = decimal(minutes);
        text.append(" minute ago");
        Some(text)
    } else {
        let mut text = decimal(elapsed);
        text.append(" seconds ago");
        Some(text)
    }
}

/// The number of characters of a date and time in the machine's time zone.
pub const LOCAL_DISPLAY_WIDTH: usize = 17;

/// The text is a wording of a time: the relative wording of some elapsed
/// time, or a date and time in the machine's time zone.
pub open spec fn time_wording(text: Seq<char>) -> bool {
    (exists|elapsed: int| #[trigger] relative_text(elapsed) == Some(text)) || text.len()
        == LOCAL_DISPLAY_WIDTH
}

/// How the instant reads to someone looking at the clock now: the relative
/// wording of the time elapsed since, and from twelve hours on the date and
/// time in the machine's time zone. `None` where the calendar cannot hold the
/// instant. The clock decides how much time has elapsed; `relative_label`
/// gives the wording for each elapsed time.
pub fn format_datetime(datetime: &Instant) -> (label: Option<String>)
    ensures
        label is Some <==> datetime.placed(),
        label matches Some(text) ==> time_wording(text@),
{
    match seconds_since(datetime) {
        Some(elapsed) => match relative_label(elapsed) {
            Some(text) => {
                assert(relative_text(elapsed as int) == Some(text@));
                Some(text)
            },
            None => local_display(datetime),
        },
        None => None,
    }
}

} // verus!
