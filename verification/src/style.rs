//! Terminal styling used when permissions and listings are rendered for
//! human review. The escape sequences are produced by `ansi_term`; the
//! wrappers state the exact text that comes back.

use vstd::prelude::*;

verus! {

/// The text wrapped in the codes that `ansi_term` emits for bold yellow:
/// `ESC[1;33m` before, `ESC[0m` after.
pub open spec fn yellow_bold_wrap(s: Seq<char>) -> Seq<char> {
    "\u{1b}[1;33m"@ + s + "\u{1b}[0m"@
}

/// The text wrapped in the codes that `ansi_term` emits for bold blue:
/// `ESC[1;34m` before, `ESC[0m` after.
pub open spec fn blue_bold_wrap(s: Seq<char>) -> Seq<char> {
    "\u{1b}[1;34m"@ + s + "\u{1b}[0m"@
}

/// The text wrapped in the codes that `ansi_term` emits for plain blue:
/// `ESC[34m` before, `ESC[0m` after.
pub open spec fn blue_wrap(s: Seq<char>) -> Seq<char> {
    "\u{1b}[34m"@ + s + "\u{1b}[0m"@
}

/// Relies on `ansi_term::Style::paint` and its `Display` impl: a bold style
/// with a yellow foreground writes `\x1b[1;33m`, the text, then `\x1b[0m`.
#[verifier::external_body]
pub(crate) fn paint_yellow_bold(s: &str) -> (r: String)
    ensures
        r@ == yellow_bold_wrap(s@),
{
    ansi_term::Color::Yellow.bold().paint(s).to_string()
}

/// Relies on `ansi_term::Style::paint` and its `Display` impl: a bold style
/// with a blue foreground writes `\x1b[1;34m`, the text, then `\x1b[0m`.
#[verifier::external_body]
pub(crate) fn paint_blue_bold(s: &str) -> (r: String)
    ensures
        r@ == blue_bold_wrap(s@),
{
    ansi_term::Color::Blue.bold().paint(s).to_string()
}

/// Relies on `ansi_term::Colour::paint` and its `Display` impl: a blue
/// foreground alone writes `\x1b[34m`, the text, then `\x1b[0m`.
#[verifier::external_body]
pub(crate) fn paint_blue(s: &str) -> (r: String)
    ensures
        r@ == blue_wrap(s@),
{
    ansi_term::Color::Blue.paint(s).to_string()
}

} // verus!
