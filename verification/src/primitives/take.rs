//! Runs of characters picked by a predicate.
use crate::input::{is_split, Input};
use crate::parse::{Never, NotFound, Parser, ParserError, ParserResult};
use crate::text::{lemma_prefix_on_boundary, lemma_utf8_len_zero};
use vstd::prelude::*;

verus! {

/// True when `out` and `rest` cut `input` after the longest run of characters at its start
/// that `predicate` may all accept.
pub open spec fn run_of<I: Input, P: Fn(char) -> bool>(
    predicate: P,
    input: I,
    out: I,
    rest: I,
) -> bool {
    &&& is_split(input, out, rest)
    &&& forall|i: int|
        0 <= i < out.text().len() ==> predicate.ensures((#[trigger] out.text()[i],), true)
    &&& rest.text().len() > 0 ==> predicate.ensures((rest.text()[0],), false)
}

/// True when `out` and `rest` cut `input` before the first character that `predicate` may
/// accept.
pub open spec fn run_up_to<I: Input, P: Fn(char) -> bool>(
    predicate: P,
    input: I,
    out: I,
    rest: I,
) -> bool {
    &&& is_split(input, out, rest)
    &&& forall|i: int|
        0 <= i < out.text().len() ==> predicate.ensures((#[trigger] out.text()[i],), false)
    &&& rest.text().len() > 0
    &&& predicate.ensures((rest.text()[0],), true)
}

/// True when `predicate` may refuse every character of `input`.
pub open spec fn none_of<I: Input, P: Fn(char) -> bool>(predicate: P, input: I) -> bool {
    forall|i: int|
        0 <= i < input.text().len() ==> predicate.ensures((#[trigger] input.text()[i],), false)
}

/// A parser for the longest run of characters that satisfy a predicate; the run may be empty.
pub struct TakeWhile0<P> {
    pub predicate: P,
}

/// A parser for the longest run of characters that satisfy a predicate; the run has at least
/// one character.
pub struct TakeWhile<P> {
    pub predicate: P,
}

/// A parser for the text before the first character that satisfies a predicate, or for all of
/// the text where there is none.
pub struct TakeUntil0<P> {
    pub predicate: P,
}

/// A parser for the text before the first character that satisfies a predicate.
pub struct TakeUntil<P> {
    pub predicate: P,
}

/// The parser for the longest run of characters that satisfy `predicate`. It succeeds with an
/// empty output where the input does not start with one.
pub fn take_while0<P>(predicate: P) -> (r: TakeWhile0<P>)
    ensures
        r.predicate == predicate,
{
    TakeWhile0 { predicate }
}

/// The parser for the longest run of characters that satisfy `predicate`. It reports an error
/// where the input does not start with one.
pub fn take_while<P>(predicate: P) -> (r: TakeWhile<P>)
    ensures
        r.predicate == predicate,
{
    TakeWhile { predicate }
}

/// The parser for the text before the first character that satisfies `predicate`. It succeeds
/// with all of the input where no character does.
pub fn take_until0<P>(predicate: P) -> (r: TakeUntil0<P>)
    ensures
        r.predicate == predicate,
{
    TakeUntil0 { predicate }
}

/// The parser for the text before the first character that satisfies `predicate`. It reports
/// an error where no character does.
pub fn take_until<P>(predicate: P) -> (r: TakeUntil<P>)
    ensures
        r.predicate == predicate,
{
    TakeUntil { predicate }
}

impl<I: Input, P: Fn(char) -> bool> Parser<I> for TakeWhile0<P> {
    type Output = I;

    type Error = NotFound;

    type Failure = Never;

    open spec fn inv(&self) -> bool {
        forall|c: char| #[trigger] self.predicate.requires((c,))
    }

    open spec fn accepts(&self, input: I, out: I, rest: I) -> bool {
        run_of(self.predicate, input, out, rest)
    }

    open spec fn rejects(&self, input: I, e: NotFound) -> bool {
        false
    }

    open spec fn fails(&self, input: I, f: Never) -> bool {
        false
    }

    fn parse(&self, input: &I) -> (r: ParserResult<I, I>) {
        match input.take_while(&self.predicate) {
            Some(p) => Ok(p),
            None => {
                proof {
                    lemma_prefix_on_boundary(input.text(), 0);
                    assert(input.text().take(0) =~= Seq::<char>::empty());
                }
                let p = input.split_at(0);
                proof {
                    lemma_utf8_len_zero(p.0.text());
                    assert(p.1.text() =~= input.text());
                }
                Ok(p)
            },
        }
    }
}

impl<I: Input, P: Fn(char) -> bool> Parser<I> for TakeWhile<P> {
    type Output = I;

    type Error = NotFound;

    type Failure = Never;

    open spec fn inv(&self) -> bool {
        forall|c: char| #[trigger] self.predicate.requires((c,))
    }

    open spec fn accepts(&self, input: I, out: I, rest: I) -> bool {
        &&& run_of(self.predicate, input, out, rest)
        &&& out.text().len() > 0
    }

    open spec fn rejects(&self, input: I, e: NotFound) -> bool {
        input.text().len() == 0 || self.predicate.ensures((input.text()[0],), false)
    }

    open spec fn fails(&self, input: I, f: Never) -> bool {
        false
    }

    fn parse(&self, input: &I) -> (r: ParserResult<I, I>) {
        match input.take_while(&self.predicate) {
            Some(p) => Ok(p),
            None => Err(ParserError::Error(NotFound)),
        }
    }
}

impl<I: Input, P: Fn(char) -> bool> Parser<I> for TakeUntil0<P> {
    type Output = I;

    type Error = NotFound;

    type Failure = Never;

    open spec fn inv(&self) -> bool {
        forall|c: char| #[trigger] self.predicate.requires((c,))
    }

    open spec fn accepts(&self, input: I, out: I, rest: I) -> bool {
        ||| run_up_to(self.predicate, input, out, rest)
        ||| {
            &&& none_of(self.predicate, input)
            &&& is_split(input, out, rest)
            &&& rest.text().len() == 0
        }
    }

    open spec fn rejects(&self, input: I, e: NotFound) -> bool {
        false
    }

    open spec fn fails(&self, input: I, f: Never) -> bool {
        false
    }

    fn parse(&self, input: &I) -> (r: ParserResult<I, I>) {
        match input.take_until(&self.predicate) {
            Some(p) => Ok(p),
            None => {
                let n = input.len();
                proof {
                    lemma_prefix_on_boundary(input.text(), input.text().len() as int);
                    assert(input.text().take(input.text().len() as int) =~= input.text());
                }
                let p = input.split_at(n);
                proof {
                    crate::text::lemma_encode_concat(p.0.text(), p.1.text());
                    lemma_utf8_len_zero(p.1.text());
                }
                Ok(p)
            },
        }
    }
}

impl<I: Input, P: Fn(char) -> bool> Parser<I> for TakeUntil<P> {
    type Output = I;

    type Error = NotFound;

    type Failure = Never;

    open spec fn inv(&self) -> bool {
        forall|c: char| #[trigger] self.predicate.requires((c,))
    }

    open spec fn accepts(&self, input: I, out: I, rest: I) -> bool {
        run_up_to(self.predicate, input, out, rest)
    }

    open spec fn rejects(&self, input: I, e: NotFound) -> bool {
        none_of(self.predicate, input)
    }

    open spec fn fails(&self, input: I, f: Never) -> bool {
        false
    }

    fn parse(&self, input: &I) -> (r: ParserResult<I, I>) {
        match input.take_until(&self.predicate) {
            Some(p) => Ok(p),
            None => Err(ParserError::Error(NotFound)),
        }
    }
}

} // verus!
