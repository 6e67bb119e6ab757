//! The text before the first match of a parser.
use crate::input::{is_split, Input};
use crate::parse::{NotFound, Parser, ParserError, ParserResult};
use crate::util::splits::splits;
use vstd::prelude::*;

verus! {

/// A parser for the text before the first place at which another parser matches.
pub struct UpTo<P> {
    pub stop: P,
}

/// The parser that tries `parser` on the input from each of its characters on, from the first
/// one, and succeeds at the first place at which `parser` succeeds: with the text before that
/// place as its output and the text from it on, which `parser` matched the start of, as what is
/// left. A permanent failure of `parser` at a place ends the search with that failure. Where
/// `parser` matches at no place, the result is the recoverable error [`NotFound`].
pub fn take_until<P>(parser: P) -> (r: UpTo<P>)
    ensures
        r.stop == parser,
{
    UpTo { stop: parser }
}

/// True when `stop` may report a recoverable error on `input` from its character at index
/// `j` on.
pub open spec fn passed_over<I: Input, P: Parser<I>>(stop: P, input: I, j: int) -> bool {
    exists|a: I, b: I, e: P::Error|
        #![trigger is_split(input, a, b), stop.rejects(b, e)]
        is_split(input, a, b) && a.text().len() == j && stop.rejects(b, e)
}

/// True when `stop` may report a recoverable error on `input` from each of its first `n`
/// characters on.
pub open spec fn passed_over_all<I: Input, P: Parser<I>>(stop: P, input: I, n: int) -> bool {
    forall|j: int| 0 <= j < n ==> #[trigger] passed_over(stop, input, j)
}

impl<I: Input, P: Parser<I>> Parser<I> for UpTo<P> {
    type Output = I;

    type Error = NotFound;

    type Failure = P::Failure;

    open spec fn inv(&self) -> bool {
        self.stop.inv()
    }

    open spec fn accepts(&self, input: I, out: I, rest: I) -> bool {
        &&& is_split(input, out, rest)
        &&& rest.text().len() > 0
        &&& exists|o: P::Output, left: I| self.stop.accepts(rest, o, left)
        &&& passed_over_all(self.stop, input, out.text().len() as int)
    }

    open spec fn rejects(&self, input: I, e: NotFound) -> bool {
        passed_over_all(self.stop, input, input.text().len() as int)
    }

    open spec fn fails(&self, input: I, f: P::Failure) -> bool {
        exists|a: I, b: I|
            #![trigger is_split(input, a, b)]
            is_split(input, a, b) && b.text().len() > 0 && self.stop.fails(b, f)
                && passed_over_all(self.stop, input, a.text().len() as int)
    }

    fn parse(&self, input: &I) -> (r: ParserResult<I, I, NotFound, P::Failure>) {
        let mut it = splits(input);
        loop
            invariant
                self.stop.inv(),
                it.content() == *input,
                0 <= it.index() <= input.text().len(),
                passed_over_all(self.stop, *input, it.index()),
            ensures
                passed_over_all(self.stop, *input, input.text().len() as int),
            decreases input.text().len() - it.index(),
        {
            let ghost at = it.index();
            match it.next() {
                Some((a, b)) => {
                    proof {
                        assert(b.text().len() > 0) by {
                            assert((a.text() + b.text()).len() == input.text().len());
                        }
                    }
                    match self.stop.parse(&b) {
                        Ok((o, left)) => {
                            assert(self.stop.accepts(b, o, left));
                            return Ok((a, b));
                        },
                        Err(ParserError::Error(e)) => {
                            proof {
                                assert(is_split(*input, a, b) && a.text().len() == at
                                    && self.stop.rejects(b, e));
                                assert(passed_over(self.stop, *input, at));
                            }
                        },
                        Err(ParserError::Failure(f)) => {
                            assert(is_split(*input, a, b) && self.stop.fails(b, f));
                            return Err(ParserError::Failure(f));
                        },
                    }
                },
                None => {
                    break ;
                },
            }
        }
        Err(ParserError::Error(NotFound))
    }
}

} // verus!
