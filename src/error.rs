//! Errors of lookups on text and on bytes.
use vstd::prelude::*;
use vstd::utf8::{valid_utf8, decode_utf8};
use vstd::string::to_string_from_display_ensures;

verus! {

#[verifier::external_type_specification]
#[verifier::external_body]
pub struct ExUtf8Error(std::str::Utf8Error);

/// Relies on `Utf8Error` being `Copy`: a clone is the same value.
pub assume_specification[ <std::str::Utf8Error as Clone>::clone ](e: &std::str::Utf8Error) -> (r: std::str::Utf8Error)
    ensures
        r == *e,
;

/// A lookup found no variant for the text. It shares the enumeration's
/// parse diagnostic rather than holding text of its own.
#[derive(Clone, Copy, Debug, PartialEq, Eq)]
pub struct ParseError<'a> {
    expected: &'a str,
}

impl<'a> ParseError<'a> {
    /// The diagnostic that the error carries.
    pub closed spec fn expected_text(&self) -> Seq<char> {
        self.expected@
    }

    pub(crate) fn wrap(expected: &'a str) -> (r: ParseError<'a>)
        ensures
            r.expected_text() == expected@,
    {
        ParseError { expected }
    }

    /// The text of the error: the parse diagnostic.
    pub fn message(&self) -> (r: &'a str)
        ensures
            r@ == self.expected_text(),
    {
        self.expected
    }
}

/// A lookup on bytes failed: either the bytes are not UTF-8, or they are
/// and name no variant.
#[derive(Debug, Clone, Copy, PartialEq, Eq)]
pub enum Utf8EnumError<E> {
    Utf8(std::str::Utf8Error),
    InvalidVariant(E),
}

impl<'a> Utf8EnumError<ParseError<'a>> {
    /// The text of the error: that of the UTF-8 error, or the parse
    /// diagnostic.
    pub fn message(&self) -> (r: String)
        ensures
            match self {
                Utf8EnumError::Utf8(e) => to_string_from_display_ensures::<std::str::Utf8Error>(e, r),
                Utf8EnumError::InvalidVariant(p) => r@ == p.expected_text(),
            },
    {
        match self {
            Utf8EnumError::Utf8(e) => e.to_string(),
            Utf8EnumError::InvalidVariant(p) => p.message().to_owned(),
        }
    }
}

/// Relies on `std::str::from_utf8`: it accepts exactly the well-formed UTF-8
/// byte strings, and the text it returns is the one they encode.
#[verifier::external_body]
pub(crate) fn str_from_utf8(b: &[u8]) -> (r: Result<&str, std::str::Utf8Error>)
    ensures
        match r {
            Ok(s) => valid_utf8(b@) && s@ == decode_utf8(b@),
            Err(_) => !valid_utf8(b@),
        },
{
    std::str::from_utf8(b)
}

} // verus!
