//! Text helpers shared by the validation rules and the state layer.

use vstd::prelude::*;

verus! {

/// The characters of `s` with leading and trailing whitespace removed,
/// as `str::trim` computes it.
pub uninterp spec fn trimmed_of(s: Seq<char>) -> Seq<char>;

/// The UTF-8 byte length of a character sequence; `str::len` returns it.
pub open spec fn utf8_len(s: Seq<char>) -> usize {
    vstd::utf8::encode_utf8(s).len() as usize
}

/// Relies on str::trim: the result is the input without leading and
/// trailing whitespace, a function of the characters alone.
#[verifier::external_body]
pub fn trim_copy(s: &str) -> (r: String)
    ensures
        r@ == trimmed_of(s@),
        r@.len() <= s@.len(),
{
    s.trim().to_string()
}

} // verus!
