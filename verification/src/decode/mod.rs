//! Decoding a user's data from the JSON that the school's start page holds.
//!
//! Each piece of the data has an outcome: the decoded value, an error, or
//! `Unreadable` where it has no answer (a required field that is missing or
//! of the wrong kind, an id that is not a number). Reading the whole
//! document stops at the first piece, in document order, that does not
//! decode.
pub mod document;
pub mod fields;
pub mod items;
pub mod outcome;

pub use document::{data_outcome, decode_data, lemma_data_errors};
pub use outcome::Outcome;
