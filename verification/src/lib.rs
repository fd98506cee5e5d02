//! An interpreter for a minimal tape-based esoteric language: eight
//! single-character instructions plus two optional extensions, executed
//! against a fixed-size byte tape and a data pointer.
//!
//! The engine is specified as a small-step state machine
//! ([`engine::step`]), and the interpreter is proved to return exactly a
//! terminal state of that machine. Bracket validation, bracket matching and
//! the offset-to-line/column resolver carry their own exact contracts.
use vstd::prelude::*;

pub mod brackets;
pub mod chars;
pub mod decimal;
pub mod encoding;
pub mod engine;
pub mod errors;
pub mod location;

verus! {

} // verus!
