//! Codec for a binary localized-text container ("message table") format:
//! a fixed header, a hashed label index, an optional attribute section and a
//! text section of UTF-16 strings carrying an inline control-code sublanguage.
//! The crate decodes such containers into an editable string table, decodes
//! each string into a bracketed textual form, and re-encodes both directions.

pub mod control_codes;
pub mod diff_utils;
pub mod endian;
pub mod error;
pub mod escapes;
pub mod msbt;
pub mod structs;
pub mod text;
