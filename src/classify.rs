//! Whether a reply's explanation affirms that the user's input was already
//! a correct command.
use vstd::prelude::*;
use crate::text::{chars_of, contains, contains_chars};

verus! {

/// The lowercase form of a string, as `str::to_lowercase` gives it.
pub uninterp spec fn lower_of(s: Seq<char>) -> Seq<char>;

/// Relies on `str::to_lowercase`: the lowercase mapping of a string, which
/// depends on its characters alone.
#[verifier::external_body]
fn lowercase(s: &str) -> (r: String)
    ensures
        r@ == lower_of(s@),
{
    s.to_lowercase()
}

/// The text holds one of the affirming phrases: a check mark, "is correct",
/// "already correct", "no need for correction" or "is valid".
pub open spec fn affirms(t: Seq<char>) -> bool {
    contains(t, "\u{2705}"@) || contains(t, "is correct"@) || contains(t, "already correct"@)
        || contains(t, "no need for correction"@) || contains(t, "is valid"@)
}

/// Whether an explanation that is already lowercase holds an affirming phrase.
pub fn affirms_lowered(lowered: &str) -> (r: bool)
    ensures
        r == affirms(lowered@),
{
    let t = chars_of(lowered);
    contains_chars(&t, &chars_of("\u{2705}")) || contains_chars(&t, &chars_of("is correct"))
        || contains_chars(&t, &chars_of("already correct")) || contains_chars(
        &t,
        &chars_of("no need for correction"),
    ) || contains_chars(&t, &chars_of("is valid"))
}

/// Whether the lowercase form of an explanation holds an affirming phrase.
pub fn is_affirmed(explanation: &str) -> (r: bool)
    ensures
        r == affirms(lower_of(explanation@)),
{
    let lowered = lowercase(explanation);
    affirms_lowered(lowered.as_str())
}

} // verus!
