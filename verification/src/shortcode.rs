use vstd::prelude::*;
use vstd::utf8::is_ascii_chars;

use crate::draws::random_draw;
use crate::validation::ascii_custom_code_valid;

verus! {

/// Length of a generated short code.
pub const SHORT_CODE_LENGTH: usize = 6;

/// The characters that generated codes are drawn from: ASCII letters and the
/// digits 2 to 9, without the easily confused `l`, `I` and `O`.
pub open spec fn short_code_char(c: char) -> bool {
    ('a' <= c && c <= 'z' && c != 'l') || ('A' <= c && c <= 'Z' && c != 'I' && c != 'O') || (
    '2' <= c && c <= '9')
}

/// A code that `generate_short_code` can return.
pub open spec fn generated_code(code: Seq<char>) -> bool {
    &&& code.len() == SHORT_CODE_LENGTH
    &&& forall|i: int| 0 <= i < code.len() ==> short_code_char(#[trigger] code[i])
}

/// The alphabet of generated codes, in the order the generator indexes it.
pub open spec fn alphabet_chars() -> Seq<char> {
    seq![
        'a', 'b', 'c', 'd', 'e', 'f', 'g', 'h', 'i', 'j',
        'k', 'm', 'n', 'o', 'p', 'q', 'r', 's', 't', 'u',
        'v', 'w', 'x', 'y', 'z', 'A', 'B', 'C', 'D', 'E',
        'F', 'G', 'H', 'J', 'K', 'L', 'M', 'N', 'P', 'Q',
        'R', 'S', 'T', 'U', 'V', 'W', 'X', 'Y', 'Z', '2',
        '3', '4', '5', '6', '7', '8', '9',
    ]
}

/// The alphabet of generated codes, in the order the generator indexes it.
pub fn short_code_alphabet() -> (a: [char; 57])
    ensures
        a@ == alphabet_chars(),
        forall|i: int| 0 <= i < 57 ==> short_code_char(#[trigger] a@[i]),
{
    let a: [char; 57] = [
        'a', 'b', 'c', 'd', 'e', 'f', 'g', 'h', 'i', 'j',
        'k', 'm', 'n', 'o', 'p', 'q', 'r', 's', 't', 'u',
        'v', 'w', 'x', 'y', 'z', 'A', 'B', 'C', 'D', 'E',
        'F', 'G', 'H', 'J', 'K', 'L', 'M', 'N', 'P', 'Q',
        'R', 'S', 'T', 'U', 'V', 'W', 'X', 'Y', 'Z', '2',
        '3', '4', '5', '6', '7', '8', '9',
    ];
    a
}

/// Calls `nanoid::format` with the crate's default random source, which draws
/// `size` characters of `alphabet` at random. Its source returns once the
/// string holds `size` bytes; with an ASCII alphabet of 1 to 255 characters
/// that is `size` characters, each taken from `alphabet`. Which characters
/// come out rests on chance and is not stated; with the short-code alphabet
/// and length, the result is marked as a `random_draw` (whose body, six
/// characters of that alphabet, holds of it by the same facts).
#[verifier::external_body]
fn nanoid_format(alphabet: &[char], size: usize) -> (r: String)
    requires
        0 < alphabet@.len() <= 255,
        forall|i: int| 0 <= i < alphabet@.len() ==> (#[trigger] alphabet@[i] as u32) < 128,
        0 < size <= usize::MAX / 8,
    ensures
        r@.len() == size,
        forall|i: int| 0 <= i < size ==> alphabet@.contains(#[trigger] r@[i]),
        alphabet@ == alphabet_chars() && size == SHORT_CODE_LENGTH ==> random_draw(r@),
{
    nanoid::format(nanoid::rngs::default, alphabet, size)
}

/// Draws a random short code of `SHORT_CODE_LENGTH` characters from the
/// short-code alphabet.
pub fn generate_short_code() -> (code: String)
    ensures
        generated_code(code@),
        random_draw(code@),
{
    let alphabet = short_code_alphabet();
    let code = nanoid_format(&alphabet, SHORT_CODE_LENGTH);
    assert forall|i: int| 0 <= i < code@.len() implies short_code_char(#[trigger] code@[i]) by {
        let j = choose|j: int| 0 <= j < alphabet@.len() && alphabet@[j] == code@[i];
        assert(short_code_char(alphabet@[j]));
    }
    code
}

/// Every generated code would also be accepted as a custom code: it is six
/// ASCII letters and digits, so `validate_custom_code` accepts it.
pub proof fn lemma_generated_codes_are_valid_custom_codes(code: Seq<char>)
    requires
        generated_code(code),
    ensures
        is_ascii_chars(code),
        ascii_custom_code_valid(code),
{
}

} // verus!
