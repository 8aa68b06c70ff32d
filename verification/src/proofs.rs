//! Lemmas that relate the two models of the format: what decoding accepts
//! is what encoding produces. The theorems themselves are in `laws`.

pub mod seqs;
pub mod parts;
pub mod scalars;
pub mod types;
pub mod values;
pub mod encoded;
