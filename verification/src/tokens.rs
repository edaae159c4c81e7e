//! Small lexical helpers the front end hands values through: quote and
//! parenthesis stripping, and the parsing of duration and path literals.
use vstd::prelude::*;

use crate::data::ParsedDuration;
use crate::foreign::{duration_parse_nanos, parsed_duration_nanos};
use crate::params::ContentAddress;
use crate::strutil::{trim_str, trimmed};

verus! {

/// A value that could not be read as the literal its shape promised.
#[derive(Debug)]
pub enum LexicalError {
    InvalidInteger(String),
    InvalidType(ContentAddress),
    InvalidDuration(String, ContentAddress),
    InvalidPath(String, ContentAddress),
    InvalidToken(ContentAddress),
    /// A conversion function's name, the error, and where it stood.
    InvalidConversion(String, String, ContentAddress),
}

/// Removes the first and last double-quote characters. They are there by
/// the shape of a string literal; anything else is a programmer error.
pub fn strip_quotes(s: &String) -> (r: String)
    requires
        s@.len() >= 2,
        s@[0] == '"',
        s@.last() == '"',
    ensures
        r@ == s@.subrange(1, s@.len() - 1),
{
    let n = s.as_str().unicode_len();
    String::from_str(s.as_str().substring_char(1, n - 1))
}

/// Removes the surrounding parentheses of a conversion literal and trims
/// white space from what they held.
pub fn strip_parens_and_trim(s: &String) -> (r: String)
    requires
        s@.len() >= 2,
        s@[0] == '(',
        s@.last() == ')',
    ensures
        r@ == trimmed(s@.subrange(1, s@.len() - 1)),
{
    let n = s.as_str().unicode_len();
    trim_str(s.as_str().substring_char(1, n - 1))
}

/// Parses a duration literal, keeping the original text beside the parsed
/// value.
pub fn parse_duration_str(s: &String) -> (r: Option<ParsedDuration>)
    ensures
        match parsed_duration_nanos(s@) {
            Some(n) => r matches Some(d) && d.duration == n && d.duration_str == *s,
            None => r is None,
        },
{
    match duration_parse_nanos(s.as_str()) {
        Some(n) => Some(ParsedDuration::new(n, s.clone())),
        None => None,
    }
}

/// A path literal is any non-empty text, trimmed.
pub fn parse_path_str(s: &String) -> (r: Option<String>)
    ensures
        s@.len() == 0 ==> r is None,
        s@.len() > 0 ==> (r matches Some(p) && p@ == trimmed(s@)),
{
    if s.as_str().unicode_len() == 0 {
        None
    } else {
        Some(trim_str(s.as_str()))
    }
}

} // verus!
