use vstd::prelude::*;

use crate::clap::{decimal, is_digits, lemma_decimal_nonneg};

verus! {

/// The number that `s` writes: decimal digits after an optional `+`.
pub open spec fn unsigned_text(s: Seq<char>) -> Option<int> {
    if s.len() > 0 && s[0] == '+' && is_digits(s.drop_first()) {
        Some(decimal(s.drop_first()))
    } else if is_digits(s) {
        Some(decimal(s))
    } else {
        None
    }
}

/// Relies on `str::parse::<u32>`: decimal digits after an optional `+` give
/// their value when it fits in a `u32`; any other text is an error.
#[verifier::external_body]
fn parse_u32(s: &str) -> (r: Option<u32>)
    ensures
        r == match unsigned_text(s@) {
            Some(v) => if v <= u32::MAX { Some(v as u32) } else { None },
            None => None,
        },
{
    s.parse::<u32>().ok()
}

/// The high score that a stored text holds: its number, or 0 when the text
/// is not a number that fits.
pub fn highscore_from_text(text: &str) -> (score: u32)
    ensures
        score == match unsigned_text(text@) {
            Some(v) => if v <= u32::MAX { v } else { 0 },
            None => 0,
        },
{
    proof {
        if text@.len() > 0 && text@[0] == '+' && is_digits(text@.drop_first()) {
            lemma_decimal_nonneg(text@.drop_first());
        } else if is_digits(text@) {
            lemma_decimal_nonneg(text@);
        }
    }
    match parse_u32(text) {
        Some(v) => v,
        None => 0,
    }
}

} // verus!
