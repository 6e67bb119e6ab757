//! Parsers for the common pieces of text.
pub mod lines;
pub mod numbers;
pub mod quote;
pub mod tag;
pub mod take;
pub mod whitespace;

pub use crate::primitives::lines::{eof, eol, line, line_stream};
pub use numbers::{
    digits, digits_with_decimal, integer, negative_number, number_with_decimal, plain_number,
    positive_number, scientific_number, sign, special, unsigned_integer, Integer, NumberFailure,
    NumberKind, NumberToken, UnsignedInteger,
};
pub use quote::{
    double_quoted, double_quoted_stream, find_quote_mark, quoted, quoted_stream, single_quoted,
    single_quoted_stream, UnterminatedQuote, DOUBLE_QUOTE, DOUBLE_QUOTE_STR, ESCAPE, ESCAPE_STR,
    SINGLE_QUOTE, SINGLE_QUOTE_STR,
};
pub use tag::{tag, tag_no_case, Tag, TagNoCase};
pub use take::{
    take_until, take_until0, take_while, take_while0, TakeUntil, TakeUntil0, TakeWhile, TakeWhile0,
};
pub use whitespace::{whitespace, whitespace_stream, Whitespace};
