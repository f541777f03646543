//! Codes that come out of the random source.
use vstd::prelude::*;

use crate::shortcode::generated_code;

verus! {

/// `code` is a draw of the random source: six characters of the short-code
/// alphabet. The body is closed, so outside this module nothing can prove it
/// of a code; it is known only of the codes that the random source hands out
/// (see `nanoid_format`), and so a contract that promises it of a code
/// promises that the code is such an output, not a fixed or earlier value.
pub closed spec fn random_draw(code: Seq<char>) -> bool {
    generated_code(code)
}

/// A draw is a code that `generate_short_code` may return.
pub proof fn lemma_draws_are_generated_codes(code: Seq<char>)
    requires
        random_draw(code),
    ensures
        generated_code(code),
{
}

} // verus!
