//! Parsers made of other parsers.
pub mod escaped;
pub mod many;
pub mod required;
pub mod sandwich;
pub mod take_until;

pub use escaped::{
    escape, escape_backslash, escape_character, AsText, Escape, EscapeCharacter, EscapeToken,
    InvalidEscapeSequence,
};
pub use many::{delimited, many, repeat, Delimited, Many, Repeat};
pub use required::{required, required_or, Required, RequiredOr};
pub use sandwich::{between, key_value, sandwich, Between, KeyValue, Sandwich};
pub use take_until::{take_until, UpTo};
