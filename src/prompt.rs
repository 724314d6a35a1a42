//! Answers to yes/no confirmations. The caller asks the question and reads
//! the reply; whether it counts as consent is decided here.

use vstd::prelude::*;
use vstd::string::*;

verus! {

/// What `str::trim` makes of a text.
pub uninterp spec fn trimmed(s: Seq<char>) -> Seq<char>;

/// What `str::to_lowercase` makes of a text.
pub uninterp spec fn lower_of(s: Seq<char>) -> Seq<char>;

/// Relies on `str::trim`: the text without leading and trailing white
/// space, a function of the text alone.
#[verifier::external_body]
pub(crate) fn trim_text(s: &str) -> (r: &str)
    ensures
        r@ == trimmed(s@),
{
    s.trim()
}

/// Relies on `str::to_lowercase`: the text in lower case, a function of the
/// text alone.
#[verifier::external_body]
fn lowercase(s: &str) -> (r: String)
    ensures
        r@ == lower_of(s@),
{
    s.to_lowercase()
}

/// A reply, already trimmed and in lower case, that means yes.
pub open spec fn is_yes_word(s: Seq<char>) -> bool {
    s == "y"@ || s == "yes"@
}

/// Whether a trimmed, lower-cased reply means yes: `y` or `yes`.
pub fn is_affirmative(normalized: &str) -> (r: bool)
    ensures
        r == is_yes_word(normalized@),
{
    let s = String::from_str(normalized);
    s == String::from_str("y") || s == String::from_str("yes")
}

/// Whether a typed reply means yes: once trimmed and in lower case, `y` or `yes`.
pub fn reply_is_yes(reply: &str) -> (r: bool)
    ensures
        r == is_yes_word(lower_of(trimmed(reply@))),
{
    let lower = lowercase(trim_text(reply));
    is_affirmative(lower.as_str())
}

/// Whether to go ahead after asking: only on a terminal, and only when the
/// reply means yes. Without a terminal the answer is no.
pub fn confirm_action(interactive: bool, reply: &str) -> (r: bool)
    ensures
        r == (interactive && is_yes_word(lower_of(trimmed(reply@)))),
{
    interactive && reply_is_yes(reply)
}

/// Whether to go ahead: always when `yes` was given up front, otherwise as
/// [`confirm_action`] decides.
pub fn confirm_action_or_yes(yes: bool, interactive: bool, reply: &str) -> (r: bool)
    ensures
        r == (yes || (interactive && is_yes_word(lower_of(trimmed(reply@))))),
{
    yes || confirm_action(interactive, reply)
}

} // verus!
