//! Optional output made mandatory.
use crate::parse::{Parser, ParserError, ParserResult};
use vstd::prelude::*;

verus! {

/// A parser with an optional output, made to report an error where the output is missing.
pub struct Required<P> {
    pub parser: P,
}

/// A parser with an optional output, made to report the error that a function returns where
/// the output is missing.
pub struct RequiredOr<P, B> {
    pub parser: P,
    pub err: B,
}

/// The parser that runs `p` and returns the output that `p` found. Where `p` succeeds without
/// an output, the result is the default value of the error type, as a recoverable error.
pub fn required<P>(p: P) -> (r: Required<P>)
    ensures
        r.parser == p,
{
    Required { parser: p }
}

/// The parser that runs `p` and returns the output that `p` found. Where `p` succeeds without
/// an output, the result is what `err` returns, as a recoverable error.
pub fn required_or<P, B>(p: P, err: B) -> (r: RequiredOr<P, B>)
    ensures
        r.parser == p,
        r.err == err,
{
    RequiredOr { parser: p, err }
}

impl<I, O, P: Parser<I, Output = Option<O>>> Parser<I> for Required<P> where P::Error: Default {
    type Output = O;

    type Error = P::Error;

    type Failure = P::Failure;

    open spec fn inv(&self) -> bool {
        self.parser.inv()
    }

    open spec fn accepts(&self, input: I, out: O, rest: I) -> bool {
        self.parser.accepts(input, Some(out), rest)
    }

    open spec fn rejects(&self, input: I, e: P::Error) -> bool {
        ||| self.parser.rejects(input, e)
        ||| (exists|rest: I| self.parser.accepts(input, None, rest)) && call_ensures(
            <P::Error as Default>::default,
            (),
            e,
        )
    }

    open spec fn fails(&self, input: I, f: P::Failure) -> bool {
        self.parser.fails(input, f)
    }

    fn parse(&self, input: &I) -> (r: ParserResult<I, O, P::Error, P::Failure>) {
        match self.parser.parse(input) {
            Ok((Some(output), remaining)) => Ok((output, remaining)),
            Ok((None, remaining)) => {
                assert(self.parser.accepts(*input, None, remaining));
                Err(ParserError::Error(<P::Error as Default>::default()))
            },
            Err(e) => Err(e),
        }
    }
}

impl<I, O, P: Parser<I, Output = Option<O>>, B: Fn() -> P::Error> Parser<I> for RequiredOr<P, B> {
    type Output = O;

    type Error = P::Error;

    type Failure = P::Failure;

    open spec fn inv(&self) -> bool {
        self.parser.inv() && self.err.requires(())
    }

    open spec fn accepts(&self, input: I, out: O, rest: I) -> bool {
        self.parser.accepts(input, Some(out), rest)
    }

    open spec fn rejects(&self, input: I, e: P::Error) -> bool {
        ||| self.parser.rejects(input, e)
        ||| (exists|rest: I| self.parser.accepts(input, None, rest)) && self.err.ensures((), e)
    }

    open spec fn fails(&self, input: I, f: P::Failure) -> bool {
        self.parser.fails(input, f)
    }

    fn parse(&self, input: &I) -> (r: ParserResult<I, O, P::Error, P::Failure>) {
        match self.parser.parse(input) {
            Ok((Some(output), remaining)) => Ok((output, remaining)),
            Ok((None, remaining)) => {
                assert(self.parser.accepts(*input, None, remaining));
                Err(ParserError::Error((self.err)()))
            },
            Err(e) => Err(e),
        }
    }
}

} // verus!
