use vstd::prelude::*;
use vstd::utf8::{encode_utf8, is_ascii_chars, is_ascii_chars_encode_utf8};

use crate::error::{text_result_view, AppError, AppErrorView};

verus! {

/// What `char::is_alphanumeric` answers for `c`: whether `c` is alphabetic
/// or numeric in the Unicode sense.
pub uninterp spec fn unicode_alphanumeric(c: char) -> bool;

/// ASCII letters and digits.
pub open spec fn ascii_alphanumeric(c: char) -> bool {
    ('a' <= c && c <= 'z') || ('A' <= c && c <= 'Z') || ('0' <= c && c <= '9')
}

/// Calls `char::is_alphanumeric`. Its result is named `unicode_alphanumeric`;
/// on ASCII characters the standard library documents it to hold exactly for
/// letters and digits, which is stated here too.
#[verifier::external_body]
fn char_is_alphanumeric(c: char) -> (r: bool)
    ensures
        r == unicode_alphanumeric(c),
        (c as u32) < 128 ==> (r <==> ascii_alphanumeric(c)),
{
    c.is_alphanumeric()
}

/// A character allowed in a custom short code.
pub open spec fn custom_code_char(c: char) -> bool {
    unicode_alphanumeric(c) || c == '-' || c == '_'
}

/// The length that `str::len` reports for a string: its UTF-8 byte count,
/// as a `usize`.
pub open spec fn str_byte_len(s: Seq<char>) -> int {
    (encode_utf8(s).len() as usize) as int
}

/// The length rule on custom codes, counted in UTF-8 bytes.
pub open spec fn custom_code_length_ok(code: Seq<char>) -> bool {
    3 <= str_byte_len(code) && str_byte_len(code) <= 20
}

pub open spec fn custom_code_chars_ok(code: Seq<char>) -> bool {
    forall|i: int| 0 <= i < code.len() ==> custom_code_char(#[trigger] code[i])
}

pub open spec fn custom_code_length_message() -> Seq<char> {
    "Custom code must be between 3 and 20 characters"@
}

pub open spec fn custom_code_chars_message() -> Seq<char> {
    "Custom code can only contain letters, numbers, hyphens, and underscores"@
}

/// A valid custom code: the length and the character rules both hold.
pub open spec fn custom_code_valid(code: Seq<char>) -> bool {
    custom_code_length_ok(code) && custom_code_chars_ok(code)
}

/// The message of the rule that an invalid custom code breaks first.
pub open spec fn custom_code_error(code: Seq<char>) -> Seq<char> {
    if !custom_code_length_ok(code) {
        custom_code_length_message()
    } else {
        custom_code_chars_message()
    }
}

/// An ASCII character allowed in a custom short code.
pub open spec fn ascii_code_char(c: char) -> bool {
    ascii_alphanumeric(c) || c == '-' || c == '_'
}

/// The custom-code rules on an all-ASCII code, where each character is one
/// byte: 3 to 20 ASCII letters, digits, `-` and `_`.
pub open spec fn ascii_custom_code_valid(code: Seq<char>) -> bool {
    &&& 3 <= code.len() <= 20
    &&& forall|i: int| 0 <= i < code.len() ==> ascii_code_char(#[trigger] code[i])
}

/// Checks a user-chosen short code: 3 to 20 bytes long, made of letters,
/// digits, `-` and `_`.
pub fn validate_custom_code(code: &str) -> (r: Result<(), AppError>)
    ensures
        r is Ok <==> custom_code_valid(code@),
        r matches Err(e) ==> e@ == AppErrorView::InvalidUrl(custom_code_error(code@)),
        is_ascii_chars(code@) ==> (r is Ok <==> ascii_custom_code_valid(code@)),
{
    let n = code.unicode_len();
    proof {
        if is_ascii_chars(code@) {
            is_ascii_chars_encode_utf8(code@);
        }
    }
    let byte_len = code.len();
    if byte_len < 3 || byte_len > 20 {
        let msg = String::from_str("Custom code must be between 3 and 20 characters");
        return Err(AppError::InvalidUrl(msg));
    }
    let mut i: usize = 0;
    while i < n
        invariant
            n == code@.len(),
            custom_code_length_ok(code@),
            i <= n,
            forall|j: int| 0 <= j < i ==> custom_code_char(#[trigger] code@[j]),
            forall|j: int|
                0 <= j < i && (code@[j] as u32) < 128 ==> ascii_code_char(#[trigger] code@[j]),
            is_ascii_chars(code@) ==> 3 <= code@.len() <= 20,
        decreases n - i,
    {
        let c = code.get_char(i);
        if !(char_is_alphanumeric(c) || c == '-' || c == '_') {
            let msg = String::from_str(
                "Custom code can only contain letters, numbers, hyphens, and underscores",
            );
            return Err(AppError::InvalidUrl(msg));
        }
        i = i + 1;
    }
    Ok(())
}

/// What `url::Url::parse` gives for `input`, read as plain values: `None`
/// where it fails, else the URL's scheme and its serialization.
pub uninterp spec fn url_parse(input: Seq<char>) -> Option<(Seq<char>, Seq<char>)>;

/// Parses `input` with `url::Url::parse` and returns the scheme and the
/// serialization of the parsed URL. Beside the name `url_parse`, the contract
/// states what the `url` crate's source shows of every parsed URL: its
/// serialization begins with the scheme followed by `:`.
#[verifier::external_body]
fn parse_url(input: &str) -> (r: Option<(String, String)>)
    ensures
        match r {
            None => url_parse(input@) is None,
            Some(p) => url_parse(input@) == Some((p.0@, p.1@)),
        },
        r matches Some(p) ==> p.0@.len() < p.1@.len() && p.1@.subrange(0, p.0@.len() as int)
            == p.0@ && p.1@[p.0@.len() as int] == ':',
{
    match url::Url::parse(input) {
        Ok(u) => Some((u.scheme().to_string(), u.to_string())),
        Err(_) => None,
    }
}

/// The schemes that the service accepts.
pub open spec fn web_scheme(scheme: Seq<char>) -> bool {
    scheme == "http"@ || scheme == "https"@
}

/// The decision on `input` once the parser has given `parsed`: a URL with
/// the `http` or `https` scheme is accepted as its serialization; anything
/// else is refused with a message that names the input or the scheme.
pub open spec fn url_decision(input: Seq<char>, parsed: Option<(Seq<char>, Seq<char>)>) -> Result<
    Seq<char>,
    AppErrorView,
> {
    match parsed {
        None => Err(AppErrorView::InvalidUrl("'"@ + input + "' is not a valid URL"@)),
        Some(p) => if web_scheme(p.0) {
            Ok(p.1)
        } else {
            Err(AppErrorView::InvalidUrl("Unsupported scheme '"@ + p.0 + "'. Use http or https"@))
        },
    }
}

/// What `validate_url` gives for `input`.
pub open spec fn validated_url(input: Seq<char>) -> Result<Seq<char>, AppErrorView> {
    url_decision(input, url_parse(input))
}

/// Every input that the URL parser accepts with the scheme `http` or
/// `https` is accepted, as the parser's serialization of it, with no other
/// condition on it; an input that does not parse, or parses with any other
/// scheme, is refused with `InvalidUrl`.
pub proof fn lemma_web_urls_are_accepted(input: Seq<char>)
    ensures
        url_parse(input) matches Some(p) ==> ((p.0 == "http"@ || p.0 == "https"@)
            ==> validated_url(input) == Ok::<Seq<char>, AppErrorView>(p.1)),
        url_parse(input) matches Some(p) ==> (!(p.0 == "http"@ || p.0 == "https"@) ==> (
        validated_url(input) matches Err(e) && e is InvalidUrl)),
        url_parse(input) is None ==> (validated_url(input) matches Err(e) && e is InvalidUrl),
{
}

/// The view of a parser result.
pub open spec fn parsed_view(parsed: Option<(String, String)>) -> Option<(Seq<char>, Seq<char>)> {
    match parsed {
        Some(p) => Some((p.0@, p.1@)),
        None => None,
    }
}

/// `u` begins with `http:` or `https:`.
pub open spec fn has_web_prefix(u: Seq<char>) -> bool {
    (u.len() >= 5 && u.subrange(0, 5) == "http:"@) || (u.len() >= 6 && u.subrange(0, 6)
        == "https:"@)
}

/// Decides on a submitted URL from what the parser gave for it: its scheme
/// and serialization, or `None` where it did not parse.
pub fn accept_parsed_url(input: &str, parsed: Option<(String, String)>) -> (r: Result<
    String,
    AppError,
>)
    ensures
        text_result_view(r) == url_decision(input@, parsed_view(parsed)),
        parsed matches Some(p) ==> ((p.0@ == "http"@ || p.0@ == "https"@) ==> (r matches Ok(h)
            && h@ == p.1@)),
        parsed matches Some(p) ==> (!(p.0@ == "http"@ || p.0@ == "https"@) ==> r is Err),
        parsed is None ==> r is Err,
{
    match parsed {
        None => {
            let mut msg = String::from_str("'");
            msg.append(input);
            msg.append("' is not a valid URL");
            Err(AppError::InvalidUrl(msg))
        },
        Some((scheme, href)) => {
            let http = String::from_str("http");
            let https = String::from_str("https");
            if scheme == http || scheme == https {
                Ok(href)
            } else {
                let mut msg = String::from_str("Unsupported scheme '");
                msg.append(scheme.as_str());
                msg.append("'. Use http or https");
                Err(AppError::InvalidUrl(msg))
            }
        },
    }
}

/// Parses a submitted URL and accepts it only with the `http` or `https`
/// scheme, returning its normalized serialization.
pub fn validate_url(input: &str) -> (r: Result<String, AppError>)
    ensures
        text_result_view(r) == validated_url(input@),
        r matches Ok(u) ==> has_web_prefix(u@),
        url_parse(input@) matches Some(p) ==> ((p.0 == "http"@ || p.0 == "https"@) ==> (r matches Ok(
            h,
        ) && h@ == p.1)),
{
    let parsed = parse_url(input);
    proof {
        if parsed is Some {
            let p = parsed->0;
            if web_scheme(p.0@) {
                reveal_strlit("http");
                reveal_strlit("https");
                reveal_strlit("http:");
                reveal_strlit("https:");
                let k = p.0@.len() as int;
                assert(p.1@.subrange(0, k + 1) =~= p.0@ + seq![':']);
                if p.0@ == "http"@ {
                    assert(p.1@.subrange(0, 5) =~= "http:"@);
                } else {
                    assert(p.1@.subrange(0, 6) =~= "https:"@);
                }
            }
        }
    }
    accept_parsed_url(input, parsed)
}

} // verus!
