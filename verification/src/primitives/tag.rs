//! Literals.
//!
//! A string slice is itself a parser: `"foo"` matches what `tag("foo")` matches.
use crate::input::{is_split, Input};
use crate::parse::{Never, NotFound, Parser, ParserError, ParserResult};
use crate::text::same_ignoring_case;
use vstd::prelude::*;

verus! {

/// A parser that matches one literal at the start of the input.
pub struct Tag<'a> {
    pub literal: &'a str,
}

/// A parser that matches one literal at the start of the input, whatever the case of its ASCII
/// letters.
pub struct TagNoCase<'a> {
    pub literal: &'a str,
}

/// The parser that matches `s` at the start of the input.
pub fn tag(s: &str) -> (r: Tag<'_>)
    ensures
        r.literal == s,
{
    Tag { literal: s }
}

/// The parser that matches `s` at the start of the input, whatever the case of its ASCII
/// letters.
pub fn tag_no_case(s: &str) -> (r: TagNoCase<'_>)
    ensures
        r.literal == s,
{
    TagNoCase { literal: s }
}

/// True when the text of `input` starts with `literal`, `out` is that start and `rest` is what
/// follows it.
pub open spec fn tag_accepts<I: Input>(literal: Seq<char>, input: I, out: I, rest: I) -> bool {
    &&& literal.is_prefix_of(input.text())
    &&& out.text() == literal
    &&& is_split(input, out, rest)
}

impl<'a, I: Input> Parser<I> for Tag<'a> {
    type Output = I;

    type Error = NotFound;

    type Failure = Never;

    open spec fn inv(&self) -> bool {
        true
    }

    open spec fn accepts(&self, input: I, out: I, rest: I) -> bool {
        tag_accepts(self.literal@, input, out, rest)
    }

    open spec fn rejects(&self, input: I, e: NotFound) -> bool {
        !self.literal@.is_prefix_of(input.text())
    }

    open spec fn fails(&self, input: I, f: Never) -> bool {
        false
    }

    fn parse(&self, input: &I) -> (r: ParserResult<I, I>) {
        match input.pop(self.literal) {
            Some(p) => Ok(p),
            None => Err(ParserError::Error(NotFound)),
        }
    }
}

impl<'a, I: Input> Parser<I> for &'a str {
    type Output = I;

    type Error = NotFound;

    type Failure = Never;

    open spec fn inv(&self) -> bool {
        true
    }

    open spec fn accepts(&self, input: I, out: I, rest: I) -> bool {
        tag_accepts(self@, input, out, rest)
    }

    open spec fn rejects(&self, input: I, e: NotFound) -> bool {
        !self@.is_prefix_of(input.text())
    }

    open spec fn fails(&self, input: I, f: Never) -> bool {
        false
    }

    fn parse(&self, input: &I) -> (r: ParserResult<I, I>) {
        match input.pop(self) {
            Some(p) => Ok(p),
            None => Err(ParserError::Error(NotFound)),
        }
    }
}

impl<'a, I: Input> Parser<I> for TagNoCase<'a> {
    type Output = I;

    type Error = NotFound;

    type Failure = Never;

    open spec fn inv(&self) -> bool {
        true
    }

    open spec fn accepts(&self, input: I, out: I, rest: I) -> bool {
        &&& self.literal@.len() <= input.text().len()
        &&& out.text() == input.text().take(self.literal@.len() as int)
        &&& same_ignoring_case(self.literal@, out.text())
        &&& is_split(input, out, rest)
    }

    open spec fn rejects(&self, input: I, e: NotFound) -> bool {
        !(self.literal@.len() <= input.text().len() && same_ignoring_case(
            self.literal@,
            input.text().take(self.literal@.len() as int),
        ))
    }

    open spec fn fails(&self, input: I, f: Never) -> bool {
        false
    }

    fn parse(&self, input: &I) -> (r: ParserResult<I, I>) {
        match input.pop_no_case(self.literal) {
            Some(p) => Ok(p),
            None => Err(ParserError::Error(NotFound)),
        }
    }
}

} // verus!
