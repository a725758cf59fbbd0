//! A compile-time token transformer: given a header `<name> in <start>..<end>`
//! and a brace-delimited body, it re-emits the body once per integer in the
//! range, replacing the placeholder identifier by the current value, fusing
//! `prefix#<name>` into a single identifier, and honouring an optional
//! `#( ... )*` marker that limits repetition to a sub-section of the body.

pub mod expand;
pub mod generic;
pub mod laws;
pub mod num;
pub mod parse;
pub mod process;
pub mod scan;
pub mod token;
