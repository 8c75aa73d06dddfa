//! Inline-markup parser for two closely related outliner-note dialects.
//!
//! One block of note text is parsed into a sequence of
//! [`expression::Expression`] nodes: literal text interleaved with directives
//! such as links, hashtags, code spans, styled spans and attributes. The
//! grammar is given as spec functions over sequences of characters; every
//! executable recognizer is proved to return exactly what the spec grammar
//! says.

pub mod balance;
pub mod chars;
pub mod expression;
pub mod grammar;
pub mod parser;
pub mod url;
