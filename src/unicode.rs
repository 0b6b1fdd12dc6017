//! Unicode character classes and case and whitespace handling, taken from
//! the `regex` crate and from `str`.
use vstd::prelude::*;

verus! {

/// Whether `c` is in the class that `\w` matches in the `regex` crate.
pub uninterp spec fn word_char(c: char) -> bool;

/// Whether `c` is in the class that `\d` matches in the `regex` crate.
pub uninterp spec fn digit_char(c: char) -> bool;

/// The lowercase form of a string, as `str::to_lowercase` gives it.
pub uninterp spec fn lower_of(s: Seq<char>) -> Seq<char>;

/// A string without its leading and trailing whitespace, as `str::trim`
/// gives it.
pub uninterp spec fn trim_of(s: Seq<char>) -> Seq<char>;

/// Relies on `regex::Regex::is_match` with the pattern `^\w$`: whether the
/// one-character string `c` is a Unicode word character (alphabetic, mark,
/// decimal digit, connector punctuation or join control).
#[verifier::external_body]
pub(crate) fn is_word_char(c: char) -> (r: bool)
    ensures
        r == word_char(c),
{
    let mut buf = [0u8; 4];
    match regex::Regex::new("^\\w$") {
        Ok(re) => re.is_match(c.encode_utf8(&mut buf)),
        Err(_) => false,
    }
}

/// Relies on `regex::Regex::is_match` with the pattern `^\d$`: whether the
/// one-character string `c` is a Unicode decimal digit (general category Nd).
#[verifier::external_body]
pub(crate) fn is_digit_char(c: char) -> (r: bool)
    ensures
        r == digit_char(c),
{
    let mut buf = [0u8; 4];
    match regex::Regex::new("^\\d$") {
        Ok(re) => re.is_match(c.encode_utf8(&mut buf)),
        Err(_) => false,
    }
}

/// Relies on `str::to_lowercase`: the result depends on the characters alone.
#[verifier::external_body]
pub(crate) fn lowercase(s: &str) -> (r: String)
    ensures
        r@ == lower_of(s@),
{
    s.to_lowercase()
}

/// Relies on `str::trim`: the result depends on the characters alone.
#[verifier::external_body]
pub(crate) fn trim(s: &str) -> (r: &str)
    ensures
        r@ == trim_of(s@),
{
    s.trim()
}

} // verus!
