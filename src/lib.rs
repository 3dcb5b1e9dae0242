//! Closed enumerations whose variants are bound to canonical strings.
//!
//! A [`SchemaSpec`] lists the variants, each with one canonical string and
//! any number of alias spellings. [`StrEnum::new`] validates it and builds
//! the value table and the diagnostic strings once; the resulting value
//! converts between [`Variant`] handles and text, and compares, orders,
//! hashes and appends variants exactly as their canonical strings.
#![allow(unused_imports)]

pub mod codec;
pub mod error;
pub mod hash;
pub mod laws;
pub mod schema;
pub mod str_enum;
pub mod table;
pub mod text;

pub use codec::DecodeError;
pub use error::{ParseError, Utf8EnumError};
pub use hash::hash_str;
pub use schema::{Capabilities, ReprType, SchemaError, SchemaSpec, VariantSpec};
pub use str_enum::{StrEnum, Variant};
pub use text::{compare_text, text_eq};
