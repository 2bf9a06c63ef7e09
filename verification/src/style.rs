//! Terminal styling of text, done by the `colored` crate.
use vstd::prelude::*;
use colored::Colorize;

verus! {

/// The escape sequence that `colored` writes before text drawn bold and blue.
pub open spec fn bold_blue_start() -> Seq<char> {
    "\x1B[1;34m"@
}

/// The escape sequence that `colored` writes after styled text.
pub open spec fn style_reset() -> Seq<char> {
    "\x1B[0m"@
}

/// What `styled` may be when `text` is drawn bold and blue: `colored` writes
/// the text bare when colouring is off for this process (the `NO_COLOR`,
/// `CLICOLOR` and `CLICOLOR_FORCE` variables and whether standard output is
/// a terminal decide), else between the two escape sequences. Text that
/// holds an escape character itself may be rewritten, and is left open.
pub open spec fn drawn_bold_blue(text: Seq<char>, styled: Seq<char>) -> bool {
    !text.contains('\x1B') ==> (styled == text || styled == bold_blue_start() + text
        + style_reset())
}

/// `colored`'s `blue().bold()` on `text`, written out by its `Display`.
/// The contract claims that the result is the text bare or between the
/// bold-blue and reset sequences (`drawn_bold_blue`); which of the two comes
/// depends on the environment, and is left open.
#[verifier::external_body]
pub(crate) fn bold_blue(text: &str) -> (styled: String)
    ensures
        drawn_bold_blue(text@, styled@),
{
    text.blue().bold().to_string()
}

} // verus!
