//! A lexical scanner for a small dynamic scripting language.
//!
//! The scanner owns the full source text and is driven by repeated
//! invocation of a single operation, "scan next token", until the
//! source is exhausted.  It produces an ordered sequence of classified
//! [`token::Token`] records together with a list of structured lexical
//! errors; it never stops at the first error.  The behaviour of every
//! step is pinned down by the mathematical model in [`model`].

pub mod model;
pub mod scanner;
pub mod token;
