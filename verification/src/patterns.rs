//! The fixed, ordered set of line formats, each a compiled regular expression.

use regex::Regex;
use vstd::prelude::*;

verus! {

#[verifier::external_type_specification]
#[verifier::external_body]
pub struct ExRegex(regex::Regex);

#[verifier::external_type_specification]
#[verifier::external_body]
pub struct ExRegexError(regex::Error);

/// The pattern text that a compiled expression was made from.
pub uninterp spec fn regex_pattern(re: Regex) -> Seq<char>;

/// What the expression captures at its first match in the haystack: one entry
/// for each group, the whole match first; an entry is `None` where the group
/// took no part. `None` where nothing matches.
pub uninterp spec fn regex_captures(re: Regex, haystack: Seq<char>) -> Option<
    Seq<Option<Seq<char>>>,
>;

/// Whether the expression matches anywhere in the haystack.
pub uninterp spec fn regex_matches(re: Regex, haystack: Seq<char>) -> bool;

/// `regex::Regex::new`: it takes the texts that `regex_compiles` names, and the result remembers its text.
#[verifier::external_body]
fn compile(pattern: &str) -> (made: Result<Regex, regex::Error>)
    ensures
        made is Ok <==> regex_compiles(pattern@),
        made matches Ok(re) ==> regex_pattern(re) == pattern@,
{
    Regex::new(pattern)
}

/// `regex::Regex::captures`, with the text of every group copied out. The
/// result is the one that `regex_captures` names.
#[verifier::external_body]
fn captures(re: &Regex, haystack: &str) -> (groups: Option<Vec<Option<String>>>)
    ensures
        groups.deep_view() == regex_captures(*re, haystack@),
{
    re.captures(haystack).map(
        |found| found.iter().map(|group| group.map(|part| part.as_str().to_owned())).collect(),
    )
}

/// `regex::Regex::is_match`. The result is the one that `regex_matches` names.
#[verifier::external_body]
fn is_match(re: &Regex, haystack: &str) -> (found: bool)
    ensures
        found == regex_matches(*re, haystack@),
{
    re.is_match(haystack)
}

/// A structured application log line: a bracketed ISO-8601 timestamp, a
/// dotted level, an optional bracketed class and a message.
pub const APPLICATION_PATTERN: &'static str = r"(?x)^
        \[(?P<dt>\d{4}-\d{2}-\d{2}T\d{2}:\d{2}:\d{2}(?:.\d+)?[-\+]\d{2}:\d{2})\]
        (?:\s+(?P<level>\w+\.\w+):)
        (?:\s+\[(?P<class>[^\]]+)\])?
        (?:\s+(?P<msg>.+))
    $";

/// A notice that an embedded interpreter wrote again: a literal prefix, an
/// ISO-8601 timestamp, a bracketed level and a message.
pub const NOTICE_PATTERN: &'static str = r"(?x)^
        NOTICE:\sPHP\smessage:
        (?:\s(?P<dt>\d{4}-\d{2}-\d{2}T\d{2}:\d{2}:\d{2}(?:.\d+)?[-\+]\d{2}:\d{2}))
        (?:\s\[(?P<lvl>\w+)\])
        (?:\s+(?P<msg>.+))
        $";

/// A web-server access line: a quoted timestamp and a request line.
pub const WEB_ACCESS_PATTERN: &'static str = r#"(?x)^
        "(?P<dt>\d{2}/\w{3}/\d{4}:\d{2}:\d{2}:\d{2}\s\+\d{4})"
        (?:\s+(?P<msg>.+))
    $"#;

/// A reverse-proxy access line: an IPv4 address, a dash, an optional user
/// name, a bracketed timestamp and a request line.
pub const PROXY_ACCESS_PATTERN: &'static str = r"(?x)^
        (?P<ip>((25[0-5]|(2[0-4]|1\d|[1-9]|)\d)\.?\b){4})
        (?:\s+-)
        (?:\s+(?P<username>.+)?)
        (?:\s+\[?(?P<dt>\d{2}/\w{3}/\d{4}:\d{2}:\d{2}:\d{2}\s\+\d{4})\]?)
        (?:\s+(?P<msg>.+))
    $";

/// The marker of output that a gateway passed through from a supervised
/// process.
pub const GATEWAY_ERROR_PATTERN: &'static str = "FastCGI sent in stderr";

/// A process-manager line: a bracketed timestamp, a level, a bracketed
/// instance and a message.
pub const PROCESS_MANAGER_PATTERN: &'static str = r"(?x)^
        \[(?P<dt>\d{2}-\w{3}-\d{4}\s\d{2}:\d{2}:\d{2})\]
        (?:\s+(?P<lvl>\w+):)
        (?:\s+\[(?P<instance>.+)\])
        (?:\s+(?P<msg>.+))
    $";

/// The known formats, in the order in which a line is tried against them.
#[derive(Clone, Copy, Debug, PartialEq, Eq)]
pub enum Format {
    Application,
    Notice,
    WebAccess,
    ProxyAccess,
    GatewayError,
    ProcessManager,
}

/// A pattern of the set did not compile.
#[derive(Debug)]
pub struct PatternError {
    pub format: Format,
    pub cause: regex::Error,
}

/// The compiled patterns. The set is built once and then only read.
pub struct PatternSet {
    application: Regex,
    notice: Regex,
    web_access: Regex,
    proxy_access: Regex,
    gateway_error: Regex,
    process_manager: Regex,
}

impl PatternSet {
    /// The compiled expression of a format.
    pub closed spec fn expression(&self, format: Format) -> Regex {
        match format {
            Format::Application => self.application,
            Format::Notice => self.notice,
            Format::WebAccess => self.web_access,
            Format::ProxyAccess => self.proxy_access,
            Format::GatewayError => self.gateway_error,
            Format::ProcessManager => self.process_manager,
        }
    }

    /// The pattern text of a format.
    pub open spec fn pattern_text(format: Format) -> Seq<char> {
        match format {
            Format::Application => APPLICATION_PATTERN@,
            Format::Notice => NOTICE_PATTERN@,
            Format::WebAccess => WEB_ACCESS_PATTERN@,
            Format::ProxyAccess => PROXY_ACCESS_PATTERN@,
            Format::GatewayError => GATEWAY_ERROR_PATTERN@,
            Format::ProcessManager => PROCESS_MANAGER_PATTERN@,
        }
    }

    /// Each expression was compiled from the pattern text of its format.
    pub open spec fn wf(&self) -> bool {
        forall|format: Format| #[trigger]
            regex_pattern(self.expression(format)) == Self::pattern_text(format)
    }

    /// Compiles the six patterns. The error names the first format whose
    /// pattern the regular-expression engine refuses.
    pub fn new() -> (made: Result<PatternSet, PatternError>)
        ensures
            made is Ok <==> forall|format: Format|
                regex_compiles(#[trigger] Self::pattern_text(format)),
            made matches Ok(set) ==> set.wf(),
            made matches Err(fault) ==> Self::first_refused(fault.format),
    {
        let application = match compile(APPLICATION_PATTERN) {
            Ok(re) => re,
            Err(cause) => {
                assert(!regex_compiles(Self::pattern_text(Format::Application)));
                return Err(PatternError { format: Format::Application, cause });
            },
        };
        let notice = match compile(NOTICE_PATTERN) {
            Ok(re) => re,
            Err(cause) => {
                assert(!regex_compiles(Self::pattern_text(Format::Notice)));
                return Err(PatternError { format: Format::Notice, cause });
            },
        };
        let web_access = match compile(WEB_ACCESS_PATTERN) {
            Ok(re) => re,
            Err(cause) => {
                assert(!regex_compiles(Self::pattern_text(Format::WebAccess)));
                return Err(PatternError { format: Format::WebAccess, cause });
            },
        };
        let proxy_access = match compile(PROXY_ACCESS_PATTERN) {
            Ok(re) => re,
            Err(cause) => {
                assert(!regex_compiles(Self::pattern_text(Format::ProxyAccess)));
                return Err(PatternError { format: Format::ProxyAccess, cause });
            },
        };
        let gateway_error = match compile(GATEWAY_ERROR_PATTERN) {
            Ok(re) => re,
            Err(cause) => {
                assert(!regex_compiles(Self::pattern_text(Format::GatewayError)));
                return Err(PatternError { format: Format::GatewayError, cause });
            },
        };
        let process_manager = match compile(PROCESS_MANAGER_PATTERN) {
            Ok(re) => re,
            Err(cause) => {
                assert(!regex_compiles(Self::pattern_text(Format::ProcessManager)));
                return Err(PatternError { format: Format::ProcessManager, cause });
            },
        };
        Ok(
            PatternSet {
                application,
                notice,
                web_access,
                proxy_access,
                gateway_error,
                process_manager,
            },
        )
    }

    /// What the pattern of `format` captures in the line.
    pub fn captures(&self, format: Format, line: &str) -> (groups: Option<Vec<Option<String>>>)
        ensures
            groups.deep_view() == regex_captures(self.expression(format), line@),
    {
        match format {
            Format::Application => captures(&self.application, line),
            Format::Notice => captures(&self.notice, line),
            Format::WebAccess => captures(&self.web_access, line),
            Format::ProxyAccess => captures(&self.proxy_access, line),
            Format::GatewayError => captures(&self.gateway_error, line),
            Format::ProcessManager => captures(&self.process_manager, line),
        }
    }

    /// Whether the pattern of `format` matches the line.
    pub fn is_match(&self, format: Format, line: &str) -> (found: bool)
        ensures
            found == regex_matches(self.expression(format), line@),
    {
        match format {
            Format::Application => is_match(&self.application, line),
            Format::Notice => is_match(&self.notice, line),
            Format::WebAccess => is_match(&self.web_access, line),
            Format::ProxyAccess => is_match(&self.proxy_access, line),
            Format::GatewayError => is_match(&self.gateway_error, line),
            Format::ProcessManager => is_match(&self.process_manager, line),
        }
    }

    /// The place of a format in the order in which the patterns are compiled
    /// and lines are tried.
    pub open spec fn order(format: Format) -> int {
        match format {
            Format::Application => 0,
            Format::Notice => 1,
            Format::WebAccess => 2,
            Format::ProxyAccess => 3,
            Format::GatewayError => 4,
            Format::ProcessManager => 5,
        }
    }

    /// The engine refuses the pattern of `format` and takes the pattern of
    /// every format before it.
    pub open spec fn first_refused(format: Format) -> bool {
        &&& !regex_compiles(Self::pattern_text(format))
        &&& forall|earlier: Format|
            Self::order(earlier) < Self::order(format) ==> regex_compiles(
                #[trigger] Self::pattern_text(earlier),
            )
    }
}

/// Whether the regular-expression engine takes the text as a pattern.
pub uninterp spec fn regex_compiles(pattern: Seq<char>) -> bool;

} // verus!
