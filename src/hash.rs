//! Hashing that agrees between a variant and its canonical string.
use vstd::prelude::*;
use crate::str_enum::{StrEnum, Variant};

verus! {

/// The hash of a string under std's `DefaultHasher`, as `str`'s `Hash`
/// feeds it.
pub uninterp spec fn str_hash(s: Seq<char>) -> u64;

/// Relies on `std::hash::DefaultHasher` fed through `str`'s `Hash`: its
/// documentation guarantees that all hashers made by `new` give the same
/// result for the same input, so the hash depends on the text alone.
#[verifier::external_body]
fn default_hash_str(s: &str) -> (r: u64)
    ensures
        r == str_hash(s@),
{
    let mut h = std::hash::DefaultHasher::new();
    std::hash::Hash::hash(s, &mut h);
    std::hash::Hasher::finish(&h)
}

/// The hash of a string.
pub fn hash_str(s: &str) -> (r: u64)
    ensures
        r == str_hash(s@),
{
    default_hash_str(s)
}

impl StrEnum {
    /// The hash of `v`: that of its canonical string.
    pub fn hash_variant(&self, v: Variant) -> (r: u64)
        requires
            self.has(v),
        ensures
            r == str_hash(self.canonical(v.index as int)),
    {
        hash_str(self.as_str(v))
    }
}

} // verus!
