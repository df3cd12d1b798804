//! Terminal styling of the parts of a rendered line.
//!
//! Whether a style shows depends on the terminal, so a styled text is either
//! the text itself or the text between an escape sequence and the reset
//! sequence.

use vstd::prelude::*;

verus! {

/// The sequence that ends every style.
pub const RESET: &'static str = "\x1b[0m";

/// Yellow foreground.
pub const YELLOW: &'static str = "\x1b[33m";

/// Magenta foreground.
pub const MAGENTA: &'static str = "\x1b[35m";

/// Bold.
pub const BOLD: &'static str = "\x1b[1m";

/// Bold and underlined.
pub const BOLD_UNDERLINED: &'static str = "\x1b[1m\x1b[4m";

/// `out` is `text` in the style that `escape` begins, or `text` itself where
/// styles are switched off.
pub open spec fn styled(out: Seq<char>, text: Seq<char>, escape: Seq<char>) -> bool {
    out == text || out == escape + text + RESET@
}

/// `console::style` with `yellow`, written to a string. With colours enabled
/// the text stands between the yellow escape and the reset, otherwise alone.
#[verifier::external_body]
pub(crate) fn yellow(text: &str) -> (out: String)
    ensures
        styled(out@, text@, YELLOW@),
{
    console::style(text).yellow().to_string()
}

/// `console::style` with `magenta`, written to a string. With colours enabled
/// the text stands between the magenta escape and the reset, otherwise alone.
#[verifier::external_body]
pub(crate) fn magenta(text: &str) -> (out: String)
    ensures
        styled(out@, text@, MAGENTA@),
{
    console::style(text).magenta().to_string()
}

/// `console::style` with `bright` and `bold`, written to a string. Without a
/// colour `bright` adds nothing, so with colours enabled the text stands
/// between the bold escape and the reset, otherwise alone.
#[verifier::external_body]
pub(crate) fn bold(text: &str) -> (out: String)
    ensures
        styled(out@, text@, BOLD@),
{
    console::style(text).bright().bold().to_string()
}

/// `console::style` with `bold`, `bright` and `underlined`, written to a
/// string. With colours enabled the text stands between the bold and
/// underline escapes and the reset, otherwise alone.
#[verifier::external_body]
pub(crate) fn bold_underlined(text: &str) -> (out: String)
    ensures
        styled(out@, text@, BOLD_UNDERLINED@),
{
    console::style(text).bold().bright().underlined().to_string()
}

} // verus!
