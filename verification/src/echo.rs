//! Echo functions for testing the C interface.

use vstd::prelude::*;

verus! {

/// The uppercase equivalent of a text, as `str::to_uppercase` computes it
/// from the Unicode property `Uppercase`.
pub uninterp spec fn unicode_uppercase(s: Seq<char>) -> Seq<char>;

/// `str::to_uppercase`: its result depends on the text alone and is named
/// [`unicode_uppercase`]; nothing more of the mapping is stated here.
#[verifier::external_body]
fn str_to_uppercase(s: &str) -> (r: String)
    ensures
        r@ == unicode_uppercase(s@),
{
    s.to_uppercase()
}

/// Returns the input uppercased.
pub fn echo_upper(input: &str) -> (r: String)
    ensures
        r@ == unicode_uppercase(input@),
{
    str_to_uppercase(input)
}

} // verus!
