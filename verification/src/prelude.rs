//! The names that most users of this crate need.
pub use crate::combinators::escaped::{
    escape, escape_backslash, escape_character, AsText, Escape, EscapeCharacter, EscapeToken,
    InvalidEscapeSequence,
};
pub use crate::combinators::many::{delimited, many, repeat};
pub use crate::combinators::required::{required, required_or};
pub use crate::combinators::sandwich::{between, key_value, sandwich};
pub use crate::input::span::{Id, Span, TransformedSpan};
pub use crate::input::string::SharedString;
pub use crate::input::transform::TransformContent;
pub use crate::input::Input;
pub use crate::parse::{
    fuse, Choice, Compose, Fusable, FuseSequence, Incomplete, IntoStreamingParser, Never, NotFound,
    Parser, ParserError, ParserResult, Sequence, StreamingError, StreamingOk, StreamingParser,
    StreamingResult,
};
pub use crate::primitives::lines::{eof, eol, line_stream};
pub use crate::primitives::numbers::{
    digits, digits_with_decimal, integer, negative_number, number_with_decimal, plain_number,
    positive_number, scientific_number, sign, special, unsigned_integer, Integer, NumberFailure,
    NumberKind, NumberToken, UnsignedInteger,
};
pub use crate::primitives::quote::{
    double_quoted, double_quoted_stream, quoted, quoted_stream, single_quoted, single_quoted_stream,
    UnterminatedQuote,
};
pub use crate::primitives::tag::{tag, tag_no_case};
pub use crate::primitives::whitespace::{whitespace, whitespace_stream};
