//! Content between brackets.
//!
//! The parsers of this module run their parts in order, each on the input that they were
//! given, and return what the part for the content found and what the last part left.
use crate::parse::{Parser, ParserResult};
use vstd::prelude::*;

verus! {

/// A parser for content between two matches of the same bracket.
pub struct Sandwich<B, C> {
    pub bread: B,
    pub content: C,
}

/// A parser for content between an opening and a closing bracket.
pub struct Between<S, C, E> {
    pub start: S,
    pub content: C,
    pub end: E,
}

/// A parser for a key and a value around a delimiter.
pub struct KeyValue<K, D, V> {
    pub key: K,
    pub delimiter: D,
    pub value: V,
}

/// The parser that runs `bread`, `content` and `bread` again, each on the input, and returns
/// the output of `content` and what the second run of `bread` left. The first part that does
/// not succeed ends it with its error.
pub fn sandwich<B, C>(bread: B, content: C) -> (r: Sandwich<B, C>)
    ensures
        r.bread == bread,
        r.content == content,
{
    Sandwich { bread, content }
}

/// The parser that runs `start`, `content` and `end`, each on the input, and returns the
/// output of `content` and what `end` left. The first part that does not succeed ends it with
/// its error.
pub fn between<S, C, E>(start: S, content: C, end: E) -> (r: Between<S, C, E>)
    ensures
        r.start == start,
        r.content == content,
        r.end == end,
{
    Between { start, content, end }
}

/// The parser that runs `key`, `delimiter` and `value`, each on the input, and returns the
/// outputs of `key` and of `value` and what `value` left. The first part that does not succeed
/// ends it with its error.
pub fn key_value<K, D, V>(key: K, delimiter: D, value: V) -> (r: KeyValue<K, D, V>)
    ensures
        r.key == key,
        r.delimiter == delimiter,
        r.value == value,
{
    KeyValue { key, delimiter, value }
}

/// True when `p` may succeed on `input`.
pub open spec fn may_match<I, P: Parser<I>>(p: P, input: I) -> bool {
    exists|o: P::Output, rest: I| p.accepts(input, o, rest)
}

impl<I, B: Parser<I>, C: Parser<I, Error = B::Error, Failure = B::Failure>> Parser<
    I,
> for Sandwich<B, C> {
    type Output = C::Output;

    type Error = B::Error;

    type Failure = B::Failure;

    open spec fn inv(&self) -> bool {
        self.bread.inv() && self.content.inv()
    }

    open spec fn accepts(&self, input: I, out: C::Output, rest: I) -> bool {
        &&& exists|left: I| self.content.accepts(input, out, left)
        &&& exists|b: B::Output| self.bread.accepts(input, b, rest)
    }

    open spec fn rejects(&self, input: I, e: B::Error) -> bool {
        ||| self.bread.rejects(input, e)
        ||| may_match(self.bread, input) && self.content.rejects(input, e)
    }

    open spec fn fails(&self, input: I, f: B::Failure) -> bool {
        ||| self.bread.fails(input, f)
        ||| may_match(self.bread, input) && self.content.fails(input, f)
    }

    fn parse(&self, input: &I) -> (r: ParserResult<I, C::Output, B::Error, B::Failure>) {
        let (b, left) = match self.bread.parse(input) {
            Ok(x) => x,
            Err(e) => {
                return Err(e);
            },
        };
        assert(self.bread.accepts(*input, b, left));
        let (output, left) = match self.content.parse(input) {
            Ok(x) => x,
            Err(e) => {
                return Err(e);
            },
        };
        assert(self.content.accepts(*input, output, left));
        let (b, remaining) = match self.bread.parse(input) {
            Ok(x) => x,
            Err(e) => {
                return Err(e);
            },
        };
        assert(self.bread.accepts(*input, b, remaining));
        Ok((output, remaining))
    }
}

impl<
    I,
    S: Parser<I>,
    C: Parser<I, Error = S::Error, Failure = S::Failure>,
    E: Parser<I, Error = S::Error, Failure = S::Failure>,
> Parser<I> for Between<S, C, E> {
    type Output = C::Output;

    type Error = S::Error;

    type Failure = S::Failure;

    open spec fn inv(&self) -> bool {
        self.start.inv() && self.content.inv() && self.end.inv()
    }

    open spec fn accepts(&self, input: I, out: C::Output, rest: I) -> bool {
        &&& may_match(self.start, input)
        &&& exists|left: I| self.content.accepts(input, out, left)
        &&& exists|e: E::Output| self.end.accepts(input, e, rest)
    }

    open spec fn rejects(&self, input: I, e: S::Error) -> bool {
        ||| self.start.rejects(input, e)
        ||| may_match(self.start, input) && self.content.rejects(input, e)
        ||| may_match(self.start, input) && may_match(self.content, input) && self.end.rejects(
            input,
            e,
        )
    }

    open spec fn fails(&self, input: I, f: S::Failure) -> bool {
        ||| self.start.fails(input, f)
        ||| may_match(self.start, input) && self.content.fails(input, f)
        ||| may_match(self.start, input) && may_match(self.content, input) && self.end.fails(
            input,
            f,
        )
    }

    fn parse(&self, input: &I) -> (r: ParserResult<I, C::Output, S::Error, S::Failure>) {
        let (s, left) = match self.start.parse(input) {
            Ok(x) => x,
            Err(e) => {
                return Err(e);
            },
        };
        assert(self.start.accepts(*input, s, left));
        let (output, left) = match self.content.parse(input) {
            Ok(x) => x,
            Err(e) => {
                return Err(e);
            },
        };
        assert(self.content.accepts(*input, output, left));
        let (e, remaining) = match self.end.parse(input) {
            Ok(x) => x,
            Err(e) => {
                return Err(e);
            },
        };
        assert(self.end.accepts(*input, e, remaining));
        Ok((output, remaining))
    }
}

impl<
    I,
    K: Parser<I>,
    D: Parser<I, Error = K::Error, Failure = K::Failure>,
    V: Parser<I, Error = K::Error, Failure = K::Failure>,
> Parser<I> for KeyValue<K, D, V> {
    type Output = (K::Output, V::Output);

    type Error = K::Error;

    type Failure = K::Failure;

    open spec fn inv(&self) -> bool {
        self.key.inv() && self.delimiter.inv() && self.value.inv()
    }

    open spec fn accepts(&self, input: I, out: (K::Output, V::Output), rest: I) -> bool {
        &&& exists|left: I| self.key.accepts(input, out.0, left)
        &&& may_match(self.delimiter, input)
        &&& self.value.accepts(input, out.1, rest)
    }

    open spec fn rejects(&self, input: I, e: K::Error) -> bool {
        ||| self.key.rejects(input, e)
        ||| may_match(self.key, input) && self.delimiter.rejects(input, e)
        ||| may_match(self.key, input) && may_match(self.delimiter, input) && self.value.rejects(
            input,
            e,
        )
    }

    open spec fn fails(&self, input: I, f: K::Failure) -> bool {
        ||| self.key.fails(input, f)
        ||| may_match(self.key, input) && self.delimiter.fails(input, f)
        ||| may_match(self.key, input) && may_match(self.delimiter, input) && self.value.fails(
            input,
            f,
        )
    }

    fn parse(&self, input: &I) -> (r: ParserResult<I, (K::Output, V::Output), K::Error,
        K::Failure>) {
        let (key, left) = match self.key.parse(input) {
            Ok(x) => x,
            Err(e) => {
                return Err(e);
            },
        };
        assert(self.key.accepts(*input, key, left));
        let (d, left_d) = match self.delimiter.parse(input) {
            Ok(x) => x,
            Err(e) => {
                return Err(e);
            },
        };
        assert(self.delimiter.accepts(*input, d, left_d));
        let (value, remaining) = match self.value.parse(input) {
            Ok(x) => x,
            Err(e) => {
                return Err(e);
            },
        };
        proof {
            let out = (key, value);
            assert(self.key.accepts(*input, out.0, left));
        }
        Ok(((key, value), remaining))
    }
}

} // verus!
