//! The serialization surface: a variant is written as its canonical string
//! and read back by lookup.
use vstd::prelude::*;
use crate::str_enum::{StrEnum, Variant, first_match, no_match};
use crate::table::{value_table_of, decode_prefix, diagnostic_suffix};

verus! {

/// A decoded string named no variant: the string, and the decode
/// diagnostic of the enumeration.
pub struct DecodeError<'a> {
    pub unexpected: String,
    pub expected: &'a str,
}

/// What a decode of `s` may return.
pub open spec fn decode_spec(e: &StrEnum, s: Seq<char>, r: Result<Variant, DecodeError>) -> bool {
    match r {
        Ok(v) => first_match(e.specs(), s, v.index as int),
        Err(x) => {
            &&& no_match(e.specs(), s)
            &&& x.unexpected@ == s
            &&& x.expected@ == decode_prefix() + value_table_of(e.specs()) + diagnostic_suffix()
        },
    }
}

impl StrEnum {
    /// The wire form of `v`: its canonical string.
    pub fn encode(&self, v: Variant) -> (r: &str)
        requires
            self.has(v),
        ensures
            r@ == self.canonical(v.index as int),
    {
        self.as_str(v)
    }

    /// Reads a wire form back: canonical strings and aliases are accepted as
    /// in `try_from_str`; anything else fails with the decode diagnostic.
    pub fn decode<'a>(&'a self, s: &str) -> (r: Result<Variant, DecodeError<'a>>)
        requires
            self.wf(),
        ensures
            decode_spec(self, s@, r),
    {
        match self.try_from_str(s) {
            Some(v) => Ok(v),
            None => Err(DecodeError { unexpected: s.to_owned(), expected: self.decode_expected_str() }),
        }
    }
}

} // verus!
