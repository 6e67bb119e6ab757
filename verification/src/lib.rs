//! Parser combinators over text.
//!
//! A parser is a value that reads the start of an input and returns what it found and what
//! is left. This crate holds the inputs ([`input`]), the parsers and the ways to put them
//! together ([`parse`], [`combinators`]), and parsers for the common pieces of text
//! ([`primitives`]). What each parser returns on each input is stated in its contract and
//! proved.
pub mod combinators;
pub mod input;
pub mod laws;
pub mod parse;
pub mod prelude;
pub mod primitives;
pub mod text;
pub mod util;

pub use crate::input::Input;
pub use crate::parse::{
    Incomplete, Never, NotFound, Parser, ParserError, ParserResult, StreamingError, StreamingOk,
    StreamingParser, StreamingResult,
};
