//! The first of several parsers to succeed.
use crate::parse::{NotFound, Parser, ParserError, ParserResult};
use vstd::prelude::*;

verus! {

/// A tuple of parsers with the same output and the same error types, to be tried in order on
/// the same input.
pub trait Choice: Sized {
    /// The parser that tries them in order.
    type Joined;

    /// The parser that tries each of these parsers on the input, in order, and returns the
    /// first success. A permanent failure ends the search at once. Where every parser reports a
    /// recoverable error, the result is the recoverable error [`NotFound`], whatever they
    /// reported.
    fn or(self) -> (r: Self::Joined)
        ensures
            r == self.joined(),
    ;

    /// The parser that [`or`](Choice::or) returns.
    spec fn joined(self) -> Self::Joined;
}

/// Two parsers tried in order on the same input.
pub struct Either2<P0, P1> {
    pub p0: P0,
    pub p1: P1,
}

impl<
    I,
    P0: Parser<I>,
    P1: Parser<I, Output = P0::Output, Error = P0::Error, Failure = P0::Failure>,
> Parser<I> for Either2<P0, P1> {
    type Output = P0::Output;

    type Error = NotFound;

    type Failure = P0::Failure;

    open spec fn inv(&self) -> bool {
        self.p0.inv() && self.p1.inv()
    }

    open spec fn accepts(&self, input: I, out: P0::Output, rest: I) -> bool {
        ||| self.p0.accepts(input, out, rest)
        ||| (exists|e: P0::Error| self.p0.rejects(input, e)) && self.p1.accepts(input, out, rest)
    }

    open spec fn rejects(&self, input: I, e: NotFound) -> bool {
        &&& (exists|e: P0::Error| self.p0.rejects(input, e))
        &&& exists|last: P0::Error| self.p1.rejects(input, last)
    }

    open spec fn fails(&self, input: I, f: P0::Failure) -> bool {
        ||| self.p0.fails(input, f)
        ||| (exists|e: P0::Error| self.p0.rejects(input, e)) && self.p1.fails(input, f)
    }

    fn parse(&self, input: &I) -> (r: ParserResult<I, P0::Output, NotFound, P0::Failure>) {
        match self.p0.parse(input) {
            Ok((out, rest)) => {
                return Ok((out, rest));
            },
            Err(ParserError::Error(e)) => {
                proof {
                    assert(self.p0.rejects(*input, e));
                }
            },
            Err(ParserError::Failure(f)) => {
                return Err(ParserError::Failure(f));
            },
        }
        match self.p1.parse(input) {
            Ok((out, rest)) => {
                proof {
                    assert(self.p1.accepts(*input, out, rest));
                }
                Ok((out, rest))
            },
            Err(ParserError::Error(e)) => {
                proof {
                    assert(self.p1.rejects(*input, e));
                    assert(self.rejects(*input, NotFound));
                }
                Err(ParserError::Error(NotFound))
            },
            Err(ParserError::Failure(f)) => {
                proof {
                    assert(self.p1.fails(*input, f));
                }
                Err(ParserError::Failure(f))
            },
        }
    }
}

impl<P0, P1> Choice for (P0, P1) {
    type Joined = Either2<P0, P1>;

    open spec fn joined(self) -> Either2<P0, P1> {
        Either2 { p0: self.0, p1: self.1 }
    }

    fn or(self) -> (r: Either2<P0, P1>) {
        Either2 { p0: self.0, p1: self.1 }
    }
}

/// Three parsers tried in order on the same input.
pub struct Either3<P0, P1, P2> {
    pub p0: P0,
    pub p1: P1,
    pub p2: P2,
}

impl<P0, P1, P2> Either3<P0, P1, P2> {
    /// The choice between all but the last parser.
    pub open spec fn head(self) -> Either2<P0, P1> {
        Either2 { p0: self.p0, p1: self.p1 }
    }
}

impl<
    I,
    P0: Parser<I>,
    P1: Parser<I, Output = P0::Output, Error = P0::Error, Failure = P0::Failure>,
    P2: Parser<I, Output = P0::Output, Error = P0::Error, Failure = P0::Failure>,
> Parser<I> for Either3<P0, P1, P2> {
    type Output = P0::Output;

    type Error = NotFound;

    type Failure = P0::Failure;

    open spec fn inv(&self) -> bool {
        self.p0.inv() && self.p1.inv() && self.p2.inv()
    }

    open spec fn accepts(&self, input: I, out: P0::Output, rest: I) -> bool {
        ||| self.head().accepts(input, out, rest)
        ||| self.head().rejects(input, NotFound) && self.p2.accepts(input, out, rest)
    }

    open spec fn rejects(&self, input: I, e: NotFound) -> bool {
        &&& self.head().rejects(input, NotFound)
        &&& exists|last: P0::Error| self.p2.rejects(input, last)
    }

    open spec fn fails(&self, input: I, f: P0::Failure) -> bool {
        ||| self.head().fails(input, f)
        ||| self.head().rejects(input, NotFound) && self.p2.fails(input, f)
    }

    fn parse(&self, input: &I) -> (r: ParserResult<I, P0::Output, NotFound, P0::Failure>) {
        match self.p0.parse(input) {
            Ok((out, rest)) => {
                proof {
                    assert(self.head().p0.accepts(*input, out, rest));
                    assert(self.head().accepts(*input, out, rest));
                }
                return Ok((out, rest));
            },
            Err(ParserError::Error(e)) => {
                proof {
                    assert(self.head().p0.rejects(*input, e));
                }
            },
            Err(ParserError::Failure(f)) => {
                proof {
                    assert(self.head().p0.fails(*input, f));
                    assert(self.head().fails(*input, f));
                }
                return Err(ParserError::Failure(f));
            },
        }
        match self.p1.parse(input) {
            Ok((out, rest)) => {
                proof {
                    assert(self.head().p1.accepts(*input, out, rest));
                    assert(self.head().accepts(*input, out, rest));
                }
                return Ok((out, rest));
            },
            Err(ParserError::Error(e)) => {
                proof {
                    assert(self.head().p1.rejects(*input, e));
                    assert(self.head().rejects(*input, NotFound));
                }
            },
            Err(ParserError::Failure(f)) => {
                proof {
                    assert(self.head().p1.fails(*input, f));
                    assert(self.head().fails(*input, f));
                }
                return Err(ParserError::Failure(f));
            },
        }
        match self.p2.parse(input) {
            Ok((out, rest)) => {
                proof {
                    assert(self.p2.accepts(*input, out, rest));
                }
                Ok((out, rest))
            },
            Err(ParserError::Error(e)) => {
                proof {
                    assert(self.p2.rejects(*input, e));
                    assert(self.rejects(*input, NotFound));
                }
                Err(ParserError::Error(NotFound))
            },
            Err(ParserError::Failure(f)) => {
                proof {
                    assert(self.p2.fails(*input, f));
                }
                Err(ParserError::Failure(f))
            },
        }
    }
}

impl<P0, P1, P2> Choice for (P0, P1, P2) {
    type Joined = Either3<P0, P1, P2>;

    open spec fn joined(self) -> Either3<P0, P1, P2> {
        Either3 { p0: self.0, p1: self.1, p2: self.2 }
    }

    fn or(self) -> (r: Either3<P0, P1, P2>) {
        Either3 { p0: self.0, p1: self.1, p2: self.2 }
    }
}

/// Four parsers tried in order on the same input.
pub struct Either4<P0, P1, P2, P3> {
    pub p0: P0,
    pub p1: P1,
    pub p2: P2,
    pub p3: P3,
}

impl<P0, P1, P2, P3> Either4<P0, P1, P2, P3> {
    /// The choice between all but the last parser.
    pub open spec fn head(self) -> Either3<P0, P1, P2> {
        Either3 { p0: self.p0, p1: self.p1, p2: self.p2 }
    }
}

impl<
    I,
    P0: Parser<I>,
    P1: Parser<I, Output = P0::Output, Error = P0::Error, Failure = P0::Failure>,
    P2: Parser<I, Output = P0::Output, Error = P0::Error, Failure = P0::Failure>,
    P3: Parser<I, Output = P0::Output, Error = P0::Error, Failure = P0::Failure>,
> Parser<I> for Either4<P0, P1, P2, P3> {
    type Output = P0::Output;

    type Error = NotFound;

    type Failure = P0::Failure;

    open spec fn inv(&self) -> bool {
        self.p0.inv() && self.p1.inv() && self.p2.inv() && self.p3.inv()
    }

    open spec fn accepts(&self, input: I, out: P0::Output, rest: I) -> bool {
        ||| self.head().accepts(input, out, rest)
        ||| self.head().rejects(input, NotFound) && self.p3.accepts(input, out, rest)
    }

    open spec fn rejects(&self, input: I, e: NotFound) -> bool {
        &&& self.head().rejects(input, NotFound)
        &&& exists|last: P0::Error| self.p3.rejects(input, last)
    }

    open spec fn fails(&self, input: I, f: P0::Failure) -> bool {
        ||| self.head().fails(input, f)
        ||| self.head().rejects(input, NotFound) && self.p3.fails(input, f)
    }

    fn parse(&self, input: &I) -> (r: ParserResult<I, P0::Output, NotFound, P0::Failure>) {
        match self.p0.parse(input) {
            Ok((out, rest)) => {
                proof {
                    assert(self.head().head().p0.accepts(*input, out, rest));
                    assert(self.head().head().accepts(*input, out, rest));
                    assert(self.head().accepts(*input, out, rest));
                }
                return Ok((out, rest));
            },
            Err(ParserError::Error(e)) => {
                proof {
                    assert(self.head().head().p0.rejects(*input, e));
                }
            },
            Err(ParserError::Failure(f)) => {
                proof {
                    assert(self.head().head().p0.fails(*input, f));
                    assert(self.head().head().fails(*input, f));
                    assert(self.head().fails(*input, f));
                }
                return Err(ParserError::Failure(f));
            },
        }
        match self.p1.parse(input) {
            Ok((out, rest)) => {
                proof {
                    assert(self.head().head().p1.accepts(*input, out, rest));
                    assert(self.head().head().accepts(*input, out, rest));
                    assert(self.head().accepts(*input, out, rest));
                }
                return Ok((out, rest));
            },
            Err(ParserError::Error(e)) => {
                proof {
                    assert(self.head().head().p1.rejects(*input, e));
                    assert(self.head().head().rejects(*input, NotFound));
                }
            },
            Err(ParserError::Failure(f)) => {
                proof {
                    assert(self.head().head().p1.fails(*input, f));
                    assert(self.head().head().fails(*input, f));
                    assert(self.head().fails(*input, f));
                }
                return Err(ParserError::Failure(f));
            },
        }
        match self.p2.parse(input) {
            Ok((out, rest)) => {
                proof {
                    assert(self.head().p2.accepts(*input, out, rest));
                    assert(self.head().accepts(*input, out, rest));
                }
                return Ok((out, rest));
            },
            Err(ParserError::Error(e)) => {
                proof {
                    assert(self.head().p2.rejects(*input, e));
                    assert(self.head().rejects(*input, NotFound));
                }
            },
            Err(ParserError::Failure(f)) => {
                proof {
                    assert(self.head().p2.fails(*input, f));
                    assert(self.head().fails(*input, f));
                }
                return Err(ParserError::Failure(f));
            },
        }
        match self.p3.parse(input) {
            Ok((out, rest)) => {
                proof {
                    assert(self.p3.accepts(*input, out, rest));
                }
                Ok((out, rest))
            },
            Err(ParserError::Error(e)) => {
                proof {
                    assert(self.p3.rejects(*input, e));
                    assert(self.rejects(*input, NotFound));
                }
                Err(ParserError::Error(NotFound))
            },
            Err(ParserError::Failure(f)) => {
                proof {
                    assert(self.p3.fails(*input, f));
                }
                Err(ParserError::Failure(f))
            },
        }
    }
}

impl<P0, P1, P2, P3> Choice for (P0, P1, P2, P3) {
    type Joined = Either4<P0, P1, P2, P3>;

    open spec fn joined(self) -> Either4<P0, P1, P2, P3> {
        Either4 { p0: self.0, p1: self.1, p2: self.2, p3: self.3 }
    }

    fn or(self) -> (r: Either4<P0, P1, P2, P3>) {
        Either4 { p0: self.0, p1: self.1, p2: self.2, p3: self.3 }
    }
}

/// Five parsers tried in order on the same input.
pub struct Either5<P0, P1, P2, P3, P4> {
    pub p0: P0,
    pub p1: P1,
    pub p2: P2,
    pub p3: P3,
    pub p4: P4,
}

impl<P0, P1, P2, P3, P4> Either5<P0, P1, P2, P3, P4> {
    /// The choice between all but the last parser.
    pub open spec fn head(self) -> Either4<P0, P1, P2, P3> {
        Either4 { p0: self.p0, p1: self.p1, p2: self.p2, p3: self.p3 }
    }
}

impl<
    I,
    P0: Parser<I>,
    P1: Parser<I, Output = P0::Output, Error = P0::Error, Failure = P0::Failure>,
    P2: Parser<I, Output = P0::Output, Error = P0::Error, Failure = P0::Failure>,
    P3: Parser<I, Output = P0::Output, Error = P0::Error, Failure = P0::Failure>,
    P4: Parser<I, Output = P0::Output, Error = P0::Error, Failure = P0::Failure>,
> Parser<I> for Either5<P0, P1, P2, P3, P4> {
    type Output = P0::Output;

    type Error = NotFound;

    type Failure = P0::Failure;

    open spec fn inv(&self) -> bool {
        self.p0.inv() && self.p1.inv() && self.p2.inv() && self.p3.inv() && self.p4.inv()
    }

    open spec fn accepts(&self, input: I, out: P0::Output, rest: I) -> bool {
        ||| self.head().accepts(input, out, rest)
        ||| self.head().rejects(input, NotFound) && self.p4.accepts(input, out, rest)
    }

    open spec fn rejects(&self, input: I, e: NotFound) -> bool {
        &&& self.head().rejects(input, NotFound)
        &&& exists|last: P0::Error| self.p4.rejects(input, last)
    }

    open spec fn fails(&self, input: I, f: P0::Failure) -> bool {
        ||| self.head().fails(input, f)
        ||| self.head().rejects(input, NotFound) && self.p4.fails(input, f)
    }

    fn parse(&self, input: &I) -> (r: ParserResult<I, P0::Output, NotFound, P0::Failure>) {
        match self.p0.parse(input) {
            Ok((out, rest)) => {
                proof {
                    assert(self.head().head().head().p0.accepts(*input, out, rest));
                    assert(self.head().head().head().accepts(*input, out, rest));
                    assert(self.head().head().accepts(*input, out, rest));
                    assert(self.head().accepts(*input, out, rest));
                }
                return Ok((out, rest));
            },
            Err(ParserError::Error(e)) => {
                proof {
                    assert(self.head().head().head().p0.rejects(*input, e));
                }
            },
            Err(ParserError::Failure(f)) => {
                proof {
                    assert(self.head().head().head().p0.fails(*input, f));
                    assert(self.head().head().head().fails(*input, f));
                    assert(self.head().head().fails(*input, f));
                    assert(self.head().fails(*input, f));
                }
                return Err(ParserError::Failure(f));
            },
        }
        match self.p1.parse(input) {
            Ok((out, rest)) => {
                proof {
                    assert(self.head().head().head().p1.accepts(*input, out, rest));
                    assert(self.head().head().head().accepts(*input, out, rest));
                    assert(self.head().head().accepts(*input, out, rest));
                    assert(self.head().accepts(*input, out, rest));
                }
                return Ok((out, rest));
            },
            Err(ParserError::Error(e)) => {
                proof {
                    assert(self.head().head().head().p1.rejects(*input, e));
                    assert(self.head().head().head().rejects(*input, NotFound));
                }
            },
            Err(ParserError::Failure(f)) => {
                proof {
                    assert(self.head().head().head().p1.fails(*input, f));
                    assert(self.head().head().head().fails(*input, f));
                    assert(self.head().head().fails(*input, f));
                    assert(self.head().fails(*input, f));
                }
                return Err(ParserError::Failure(f));
            },
        }
        match self.p2.parse(input) {
            Ok((out, rest)) => {
                proof {
                    assert(self.head().head().p2.accepts(*input, out, rest));
                    assert(self.head().head().accepts(*input, out, rest));
                    assert(self.head().accepts(*input, out, rest));
                }
                return Ok((out, rest));
            },
            Err(ParserError::Error(e)) => {
                proof {
                    assert(self.head().head().p2.rejects(*input, e));
                    assert(self.head().head().rejects(*input, NotFound));
                }
            },
            Err(ParserError::Failure(f)) => {
                proof {
                    assert(self.head().head().p2.fails(*input, f));
                    assert(self.head().head().fails(*input, f));
                    assert(self.head().fails(*input, f));
                }
                return Err(ParserError::Failure(f));
            },
        }
        match self.p3.parse(input) {
            Ok((out, rest)) => {
                proof {
                    assert(self.head().p3.accepts(*input, out, rest));
                    assert(self.head().accepts(*input, out, rest));
                }
                return Ok((out, rest));
            },
            Err(ParserError::Error(e)) => {
                proof {
                    assert(self.head().p3.rejects(*input, e));
                    assert(self.head().rejects(*input, NotFound));
                }
            },
            Err(ParserError::Failure(f)) => {
                proof {
                    assert(self.head().p3.fails(*input, f));
                    assert(self.head().fails(*input, f));
                }
                return Err(ParserError::Failure(f));
            },
        }
        match self.p4.parse(input) {
            Ok((out, rest)) => {
                proof {
                    assert(self.p4.accepts(*input, out, rest));
                }
                Ok((out, rest))
            },
            Err(ParserError::Error(e)) => {
                proof {
                    assert(self.p4.rejects(*input, e));
                    assert(self.rejects(*input, NotFound));
                }
                Err(ParserError::Error(NotFound))
            },
            Err(ParserError::Failure(f)) => {
                proof {
                    assert(self.p4.fails(*input, f));
                }
                Err(ParserError::Failure(f))
            },
        }
    }
}

impl<P0, P1, P2, P3, P4> Choice for (P0, P1, P2, P3, P4) {
    type Joined = Either5<P0, P1, P2, P3, P4>;

    open spec fn joined(self) -> Either5<P0, P1, P2, P3, P4> {
        Either5 { p0: self.0, p1: self.1, p2: self.2, p3: self.3, p4: self.4 }
    }

    fn or(self) -> (r: Either5<P0, P1, P2, P3, P4>) {
        Either5 { p0: self.0, p1: self.1, p2: self.2, p3: self.3, p4: self.4 }
    }
}

/// Six parsers tried in order on the same input.
pub struct Either6<P0, P1, P2, P3, P4, P5> {
    pub p0: P0,
    pub p1: P1,
    pub p2: P2,
    pub p3: P3,
    pub p4: P4,
    pub p5: P5,
}

impl<P0, P1, P2, P3, P4, P5> Either6<P0, P1, P2, P3, P4, P5> {
    /// The choice between all but the last parser.
    pub open spec fn head(self) -> Either5<P0, P1, P2, P3, P4> {
        Either5 { p0: self.p0, p1: self.p1, p2: self.p2, p3: self.p3, p4: self.p4 }
    }
}

impl<
    I,
    P0: Parser<I>,
    P1: Parser<I, Output = P0::Output, Error = P0::Error, Failure = P0::Failure>,
    P2: Parser<I, Output = P0::Output, Error = P0::Error, Failure = P0::Failure>,
    P3: Parser<I, Output = P0::Output, Error = P0::Error, Failure = P0::Failure>,
    P4: Parser<I, Output = P0::Output, Error = P0::Error, Failure = P0::Failure>,
    P5: Parser<I, Output = P0::Output, Error = P0::Error, Failure = P0::Failure>,
> Parser<I> for Either6<P0, P1, P2, P3, P4, P5> {
    type Output = P0::Output;

    type Error = NotFound;

    type Failure = P0::Failure;

    open spec fn inv(&self) -> bool {
        self.p0.inv() && self.p1.inv() && self.p2.inv() && self.p3.inv() && self.p4.inv()
            && self.p5.inv()
    }

    open spec fn accepts(&self, input: I, out: P0::Output, rest: I) -> bool {
        ||| self.head().accepts(input, out, rest)
        ||| self.head().rejects(input, NotFound) && self.p5.accepts(input, out, rest)
    }

    open spec fn rejects(&self, input: I, e: NotFound) -> bool {
        &&& self.head().rejects(input, NotFound)
        &&& exists|last: P0::Error| self.p5.rejects(input, last)
    }

    open spec fn fails(&self, input: I, f: P0::Failure) -> bool {
        ||| self.head().fails(input, f)
        ||| self.head().rejects(input, NotFound) && self.p5.fails(input, f)
    }

    fn parse(&self, input: &I) -> (r: ParserResult<I, P0::Output, NotFound, P0::Failure>) {
        match self.p0.parse(input) {
            Ok((out, rest)) => {
                proof {
                    assert(self.head().head().head().head().p0.accepts(*input, out, rest));
                    assert(self.head().head().head().head().accepts(*input, out, rest));
                    assert(self.head().head().head().accepts(*input, out, rest));
                    assert(self.head().head().accepts(*input, out, rest));
                    assert(self.head().accepts(*input, out, rest));
                }
                return Ok((out, rest));
            },
            Err(ParserError::Error(e)) => {
                proof {
                    assert(self.head().head().head().head().p0.rejects(*input, e));
                }
            },
            Err(ParserError::Failure(f)) => {
                proof {
                    assert(self.head().head().head().head().p0.fails(*input, f));
                    assert(self.head().head().head().head().fails(*input, f));
                    assert(self.head().head().head().fails(*input, f));
                    assert(self.head().head().fails(*input, f));
                    assert(self.head().fails(*input, f));
                }
                return Err(ParserError::Failure(f));
            },
        }
        match self.p1.parse(input) {
            Ok((out, rest)) => {
                proof {
                    assert(self.head().head().head().head().p1.accepts(*input, out, rest));
                    assert(self.head().head().head().head().accepts(*input, out, rest));
                    assert(self.head().head().head().accepts(*input, out, rest));
                    assert(self.head().head().accepts(*input, out, rest));
                    assert(self.head().accepts(*input, out, rest));
                }
                return Ok((out, rest));
            },
            Err(ParserError::Error(e)) => {
                proof {
                    assert(self.head().head().head().head().p1.rejects(*input, e));
                    assert(self.head().head().head().head().rejects(*input, NotFound));
                }
            },
            Err(ParserError::Failure(f)) => {
                proof {
                    assert(self.head().head().head().head().p1.fails(*input, f));
                    assert(self.head().head().head().head().fails(*input, f));
                    assert(self.head().head().head().fails(*input, f));
                    assert(self.head().head().fails(*input, f));
                    assert(self.head().fails(*input, f));
                }
                return Err(ParserError::Failure(f));
            },
        }
        match self.p2.parse(input) {
            Ok((out, rest)) => {
                proof {
                    assert(self.head().head().head().p2.accepts(*input, out, rest));
                    assert(self.head().head().head().accepts(*input, out, rest));
                    assert(self.head().head().accepts(*input, out, rest));
                    assert(self.head().accepts(*input, out, rest));
                }
                return Ok((out, rest));
            },
            Err(ParserError::Error(e)) => {
                proof {
                    assert(self.head().head().head().p2.rejects(*input, e));
                    assert(self.head().head().head().rejects(*input, NotFound));
                }
            },
            Err(ParserError::Failure(f)) => {
                proof {
                    assert(self.head().head().head().p2.fails(*input, f));
                    assert(self.head().head().head().fails(*input, f));
                    assert(self.head().head().fails(*input, f));
                    assert(self.head().fails(*input, f));
                }
                return Err(ParserError::Failure(f));
            },
        }
        match self.p3.parse(input) {
            Ok((out, rest)) => {
                proof {
                    assert(self.head().head().p3.accepts(*input, out, rest));
                    assert(self.head().head().accepts(*input, out, rest));
                    assert(self.head().accepts(*input, out, rest));
                }
                return Ok((out, rest));
            },
            Err(ParserError::Error(e)) => {
                proof {
                    assert(self.head().head().p3.rejects(*input, e));
                    assert(self.head().head().rejects(*input, NotFound));
                }
            },
            Err(ParserError::Failure(f)) => {
                proof {
                    assert(self.head().head().p3.fails(*input, f));
                    assert(self.head().head().fails(*input, f));
                    assert(self.head().fails(*input, f));
                }
                return Err(ParserError::Failure(f));
            },
        }
        match self.p4.parse(input) {
            Ok((out, rest)) => {
                proof {
                    assert(self.head().p4.accepts(*input, out, rest));
                    assert(self.head().accepts(*input, out, rest));
                }
                return Ok((out, rest));
            },
            Err(ParserError::Error(e)) => {
                proof {
                    assert(self.head().p4.rejects(*input, e));
                    assert(self.head().rejects(*input, NotFound));
                }
            },
            Err(ParserError::Failure(f)) => {
                proof {
                    assert(self.head().p4.fails(*input, f));
                    assert(self.head().fails(*input, f));
                }
                return Err(ParserError::Failure(f));
            },
        }
        match self.p5.parse(input) {
            Ok((out, rest)) => {
                proof {
                    assert(self.p5.accepts(*input, out, rest));
                }
                Ok((out, rest))
            },
            Err(ParserError::Error(e)) => {
                proof {
                    assert(self.p5.rejects(*input, e));
                    assert(self.rejects(*input, NotFound));
                }
                Err(ParserError::Error(NotFound))
            },
            Err(ParserError::Failure(f)) => {
                proof {
                    assert(self.p5.fails(*input, f));
                }
                Err(ParserError::Failure(f))
            },
        }
    }
}

impl<P0, P1, P2, P3, P4, P5> Choice for (P0, P1, P2, P3, P4, P5) {
    type Joined = Either6<P0, P1, P2, P3, P4, P5>;

    open spec fn joined(self) -> Either6<P0, P1, P2, P3, P4, P5> {
        Either6 { p0: self.0, p1: self.1, p2: self.2, p3: self.3, p4: self.4, p5: self.5 }
    }

    fn or(self) -> (r: Either6<P0, P1, P2, P3, P4, P5>) {
        Either6 { p0: self.0, p1: self.1, p2: self.2, p3: self.3, p4: self.4, p5: self.5 }
    }
}

/// Seven parsers tried in order on the same input.
pub struct Either7<P0, P1, P2, P3, P4, P5, P6> {
    pub p0: P0,
    pub p1: P1,
    pub p2: P2,
    pub p3: P3,
    pub p4: P4,
    pub p5: P5,
    pub p6: P6,
}

impl<P0, P1, P2, P3, P4, P5, P6> Either7<P0, P1, P2, P3, P4, P5, P6> {
    /// The choice between all but the last parser.
    pub open spec fn head(self) -> Either6<P0, P1, P2, P3, P4, P5> {
        Either6 { p0: self.p0, p1: self.p1, p2: self.p2, p3: self.p3, p4: self.p4, p5: self.p5 }
    }
}

impl<
    I,
    P0: Parser<I>,
    P1: Parser<I, Output = P0::Output, Error = P0::Error, Failure = P0::Failure>,
    P2: Parser<I, Output = P0::Output, Error = P0::Error, Failure = P0::Failure>,
    P3: Parser<I, Output = P0::Output, Error = P0::Error, Failure = P0::Failure>,
    P4: Parser<I, Output = P0::Output, Error = P0::Error, Failure = P0::Failure>,
    P5: Parser<I, Output = P0::Output, Error = P0::Error, Failure = P0::Failure>,
    P6: Parser<I, Output = P0::Output, Error = P0::Error, Failure = P0::Failure>,
> Parser<I> for Either7<P0, P1, P2, P3, P4, P5, P6> {
    type Output = P0::Output;

    type Error = NotFound;

    type Failure = P0::Failure;

    open spec fn inv(&self) -> bool {
        self.p0.inv() && self.p1.inv() && self.p2.inv() && self.p3.inv() && self.p4.inv()
            && self.p5.inv() && self.p6.inv()
    }

    open spec fn accepts(&self, input: I, out: P0::Output, rest: I) -> bool {
        ||| self.head().accepts(input, out, rest)
        ||| self.head().rejects(input, NotFound) && self.p6.accepts(input, out, rest)
    }

    open spec fn rejects(&self, input: I, e: NotFound) -> bool {
        &&& self.head().rejects(input, NotFound)
        &&& exists|last: P0::Error| self.p6.rejects(input, last)
    }

    open spec fn fails(&self, input: I, f: P0::Failure) -> bool {
        ||| self.head().fails(input, f)
        ||| self.head().rejects(input, NotFound) && self.p6.fails(input, f)
    }

    fn parse(&self, input: &I) -> (r: ParserResult<I, P0::Output, NotFound, P0::Failure>) {
        match self.p0.parse(input) {
            Ok((out, rest)) => {
                proof {
                    assert(self.head().head().head().head().head().p0.accepts(*input, out, rest));
                    assert(self.head().head().head().head().head().accepts(*input, out, rest));
                    assert(self.head().head().head().head().accepts(*input, out, rest));
                    assert(self.head().head().head().accepts(*input, out, rest));
                    assert(self.head().head().accepts(*input, out, rest));
                    assert(self.head().accepts(*input, out, rest));
                }
                return Ok((out, rest));
            },
            Err(ParserError::Error(e)) => {
                proof {
                    assert(self.head().head().head().head().head().p0.rejects(*input, e));
                }
            },
            Err(ParserError::Failure(f)) => {
                proof {
                    assert(self.head().head().head().head().head().p0.fails(*input, f));
                    assert(self.head().head().head().head().head().fails(*input, f));
                    assert(self.head().head().head().head().fails(*input, f));
                    assert(self.head().head().head().fails(*input, f));
                    assert(self.head().head().fails(*input, f));
                    assert(self.head().fails(*input, f));
                }
                return Err(ParserError::Failure(f));
            },
        }
        match self.p1.parse(input) {
            Ok((out, rest)) => {
                proof {
                    assert(self.head().head().head().head().head().p1.accepts(*input, out, rest));
                    assert(self.head().head().head().head().head().accepts(*input, out, rest));
                    assert(self.head().head().head().head().accepts(*input, out, rest));
                    assert(self.head().head().head().accepts(*input, out, rest));
                    assert(self.head().head().accepts(*input, out, rest));
                    assert(self.head().accepts(*input, out, rest));
                }
                return Ok((out, rest));
            },
            Err(ParserError::Error(e)) => {
                proof {
                    assert(self.head().head().head().head().head().p1.rejects(*input, e));
                    assert(self.head().head().head().head().head().rejects(*input, NotFound));
                }
            },
            Err(ParserError::Failure(f)) => {
                proof {
                    assert(self.head().head().head().head().head().p1.fails(*input, f));
                    assert(self.head().head().head().head().head().fails(*input, f));
                    assert(self.head().head().head().head().fails(*input, f));
                    assert(self.head().head().head().fails(*input, f));
                    assert(self.head().head().fails(*input, f));
                    assert(self.head().fails(*input, f));
                }
                return Err(ParserError::Failure(f));
            },
        }
        match self.p2.parse(input) {
            Ok((out, rest)) => {
                proof {
                    assert(self.head().head().head().head().p2.accepts(*input, out, rest));
                    assert(self.head().head().head().head().accepts(*input, out, rest));
                    assert(self.head().head().head().accepts(*input, out, rest));
                    assert(self.head().head().accepts(*input, out, rest));
                    assert(self.head().accepts(*input, out, rest));
                }
                return Ok((out, rest));
            },
            Err(ParserError::Error(e)) => {
                proof {
                    assert(self.head().head().head().head().p2.rejects(*input, e));
                    assert(self.head().head().head().head().rejects(*input, NotFound));
                }
            },
            Err(ParserError::Failure(f)) => {
                proof {
                    assert(self.head().head().head().head().p2.fails(*input, f));
                    assert(self.head().head().head().head().fails(*input, f));
                    assert(self.head().head().head().fails(*input, f));
                    assert(self.head().head().fails(*input, f));
                    assert(self.head().fails(*input, f));
                }
                return Err(ParserError::Failure(f));
            },
        }
        match self.p3.parse(input) {
            Ok((out, rest)) => {
                proof {
                    assert(self.head().head().head().p3.accepts(*input, out, rest));
                    assert(self.head().head().head().accepts(*input, out, rest));
                    assert(self.head().head().accepts(*input, out, rest));
                    assert(self.head().accepts(*input, out, rest));
                }
                return Ok((out, rest));
            },
            Err(ParserError::Error(e)) => {
                proof {
                    assert(self.head().head().head().p3.rejects(*input, e));
                    assert(self.head().head().head().rejects(*input, NotFound));
                }
            },
            Err(ParserError::Failure(f)) => {
                proof {
                    assert(self.head().head().head().p3.fails(*input, f));
                    assert(self.head().head().head().fails(*input, f));
                    assert(self.head().head().fails(*input, f));
                    assert(self.head().fails(*input, f));
                }
                return Err(ParserError::Failure(f));
            },
        }
        match self.p4.parse(input) {
            Ok((out, rest)) => {
                proof {
                    assert(self.head().head().p4.accepts(*input, out, rest));
                    assert(self.head().head().accepts(*input, out, rest));
                    assert(self.head().accepts(*input, out, rest));
                }
                return Ok((out, rest));
            },
            Err(ParserError::Error(e)) => {
                proof {
                    assert(self.head().head().p4.rejects(*input, e));
                    assert(self.head().head().rejects(*input, NotFound));
                }
            },
            Err(ParserError::Failure(f)) => {
                proof {
                    assert(self.head().head().p4.fails(*input, f));
                    assert(self.head().head().fails(*input, f));
                    assert(self.head().fails(*input, f));
                }
                return Err(ParserError::Failure(f));
            },
        }
        match self.p5.parse(input) {
            Ok((out, rest)) => {
                proof {
                    assert(self.head().p5.accepts(*input, out, rest));
                    assert(self.head().accepts(*input, out, rest));
                }
                return Ok((out, rest));
            },
            Err(ParserError::Error(e)) => {
                proof {
                    assert(self.head().p5.rejects(*input, e));
                    assert(self.head().rejects(*input, NotFound));
                }
            },
            Err(ParserError::Failure(f)) => {
                proof {
                    assert(self.head().p5.fails(*input, f));
                    assert(self.head().fails(*input, f));
                }
                return Err(ParserError::Failure(f));
            },
        }
        match self.p6.parse(input) {
            Ok((out, rest)) => {
                proof {
                    assert(self.p6.accepts(*input, out, rest));
                }
                Ok((out, rest))
            },
            Err(ParserError::Error(e)) => {
                proof {
                    assert(self.p6.rejects(*input, e));
                    assert(self.rejects(*input, NotFound));
                }
                Err(ParserError::Error(NotFound))
            },
            Err(ParserError::Failure(f)) => {
                proof {
                    assert(self.p6.fails(*input, f));
                }
                Err(ParserError::Failure(f))
            },
        }
    }
}

impl<P0, P1, P2, P3, P4, P5, P6> Choice for (P0, P1, P2, P3, P4, P5, P6) {
    type Joined = Either7<P0, P1, P2, P3, P4, P5, P6>;

    open spec fn joined(self) -> Either7<P0, P1, P2, P3, P4, P5, P6> {
        Either7 { p0: self.0, p1: self.1, p2: self.2, p3: self.3, p4: self.4, p5: self.5,
            p6: self.6 }
    }

    fn or(self) -> (r: Either7<P0, P1, P2, P3, P4, P5, P6>) {
        Either7 { p0: self.0, p1: self.1, p2: self.2, p3: self.3, p4: self.4, p5: self.5,
            p6: self.6 }
    }
}

/// Eight parsers tried in order on the same input.
pub struct Either8<P0, P1, P2, P3, P4, P5, P6, P7> {
    pub p0: P0,
    pub p1: P1,
    pub p2: P2,
    pub p3: P3,
    pub p4: P4,
    pub p5: P5,
    pub p6: P6,
    pub p7: P7,
}

impl<P0, P1, P2, P3, P4, P5, P6, P7> Either8<P0, P1, P2, P3, P4, P5, P6, P7> {
    /// The choice between all but the last parser.
    pub open spec fn head(self) -> Either7<P0, P1, P2, P3, P4, P5, P6> {
        Either7 { p0: self.p0, p1: self.p1, p2: self.p2, p3: self.p3, p4: self.p4, p5: self.p5,
            p6: self.p6 }
    }
}

impl<
    I,
    P0: Parser<I>,
    P1: Parser<I, Output = P0::Output, Error = P0::Error, Failure = P0::Failure>,
    P2: Parser<I, Output = P0::Output, Error = P0::Error, Failure = P0::Failure>,
    P3: Parser<I, Output = P0::Output, Error = P0::Error, Failure = P0::Failure>,
    P4: Parser<I, Output = P0::Output, Error = P0::Error, Failure = P0::Failure>,
    P5: Parser<I, Output = P0::Output, Error = P0::Error, Failure = P0::Failure>,
    P6: Parser<I, Output = P0::Output, Error = P0::Error, Failure = P0::Failure>,
    P7: Parser<I, Output = P0::Output, Error = P0::Error, Failure = P0::Failure>,
> Parser<I> for Either8<P0, P1, P2, P3, P4, P5, P6, P7> {
    type Output = P0::Output;

    type Error = NotFound;

    type Failure = P0::Failure;

    open spec fn inv(&self) -> bool {
        self.p0.inv() && self.p1.inv() && self.p2.inv() && self.p3.inv() && self.p4.inv()
            && self.p5.inv() && self.p6.inv() && self.p7.inv()
    }

    open spec fn accepts(&self, input: I, out: P0::Output, rest: I) -> bool {
        ||| self.head().accepts(input, out, rest)
        ||| self.head().rejects(input, NotFound) && self.p7.accepts(input, out, rest)
    }

    open spec fn rejects(&self, input: I, e: NotFound) -> bool {
        &&& self.head().rejects(input, NotFound)
        &&& exists|last: P0::Error| self.p7.rejects(input, last)
    }

    open spec fn fails(&self, input: I, f: P0::Failure) -> bool {
        ||| self.head().fails(input, f)
        ||| self.head().rejects(input, NotFound) && self.p7.fails(input, f)
    }

    fn parse(&self, input: &I) -> (r: ParserResult<I, P0::Output, NotFound, P0::Failure>) {
        match self.p0.parse(input) {
            Ok((out, rest)) => {
                proof {
                    assert(self.head().head().head().head().head().head().p0.accepts(*input, out,
                        rest));
                    assert(self.head().head().head().head().head().head().accepts(*input, out,
                        rest));
                    assert(self.head().head().head().head().head().accepts(*input, out, rest));
                    assert(self.head().head().head().head().accepts(*input, out, rest));
                    assert(self.head().head().head().accepts(*input, out, rest));
                    assert(self.head().head().accepts(*input, out, rest));
                    assert(self.head().accepts(*input, out, rest));
                }
                return Ok((out, rest));
            },
            Err(ParserError::Error(e)) => {
                proof {
                    assert(self.head().head().head().head().head().head().p0.rejects(*input, e));
                }
            },
            Err(ParserError::Failure(f)) => {
                proof {
                    assert(self.head().head().head().head().head().head().p0.fails(*input, f));
                    assert(self.head().head().head().head().head().head().fails(*input, f));
                    assert(self.head().head().head().head().head().fails(*input, f));
                    assert(self.head().head().head().head().fails(*input, f));
                    assert(self.head().head().head().fails(*input, f));
                    assert(self.head().head().fails(*input, f));
                    assert(self.head().fails(*input, f));
                }
                return Err(ParserError::Failure(f));
            },
        }
        match self.p1.parse(input) {
            Ok((out, rest)) => {
                proof {
                    assert(self.head().head().head().head().head().head().p1.accepts(*input, out,
                        rest));
                    assert(self.head().head().head().head().head().head().accepts(*input, out,
                        rest));
                    assert(self.head().head().head().head().head().accepts(*input, out, rest));
                    assert(self.head().head().head().head().accepts(*input, out, rest));
                    assert(self.head().head().head().accepts(*input, out, rest));
                    assert(self.head().head().accepts(*input, out, rest));
                    assert(self.head().accepts(*input, out, rest));
                }
                return Ok((out, rest));
            },
            Err(ParserError::Error(e)) => {
                proof {
                    assert(self.head().head().head().head().head().head().p1.rejects(*input, e));
                    assert(self.head().head().head().head().head().head().rejects(*input,
                        NotFound));
                }
            },
            Err(ParserError::Failure(f)) => {
                proof {
                    assert(self.head().head().head().head().head().head().p1.fails(*input, f));
                    assert(self.head().head().head().head().head().head().fails(*input, f));
                    assert(self.head().head().head().head().head().fails(*input, f));
                    assert(self.head().head().head().head().fails(*input, f));
                    assert(self.head().head().head().fails(*input, f));
                    assert(self.head().head().fails(*input, f));
                    assert(self.head().fails(*input, f));
                }
                return Err(ParserError::Failure(f));
            },
        }
        match self.p2.parse(input) {
            Ok((out, rest)) => {
                proof {
                    assert(self.head().head().head().head().head().p2.accepts(*input, out, rest));
                    assert(self.head().head().head().head().head().accepts(*input, out, rest));
                    assert(self.head().head().head().head().accepts(*input, out, rest));
                    assert(self.head().head().head().accepts(*input, out, rest));
                    assert(self.head().head().accepts(*input, out, rest));
                    assert(self.head().accepts(*input, out, rest));
                }
                return Ok((out, rest));
            },
            Err(ParserError::Error(e)) => {
                proof {
                    assert(self.head().head().head().head().head().p2.rejects(*input, e));
                    assert(self.head().head().head().head().head().rejects(*input, NotFound));
                }
            },
            Err(ParserError::Failure(f)) => {
                proof {
                    assert(self.head().head().head().head().head().p2.fails(*input, f));
                    assert(self.head().head().head().head().head().fails(*input, f));
                    assert(self.head().head().head().head().fails(*input, f));
                    assert(self.head().head().head().fails(*input, f));
                    assert(self.head().head().fails(*input, f));
                    assert(self.head().fails(*input, f));
                }
                return Err(ParserError::Failure(f));
            },
        }
        match self.p3.parse(input) {
            Ok((out, rest)) => {
                proof {
                    assert(self.head().head().head().head().p3.accepts(*input, out, rest));
                    assert(self.head().head().head().head().accepts(*input, out, rest));
                    assert(self.head().head().head().accepts(*input, out, rest));
                    assert(self.head().head().accepts(*input, out, rest));
                    assert(self.head().accepts(*input, out, rest));
                }
                return Ok((out, rest));
            },
            Err(ParserError::Error(e)) => {
                proof {
                    assert(self.head().head().head().head().p3.rejects(*input, e));
                    assert(self.head().head().head().head().rejects(*input, NotFound));
                }
            },
            Err(ParserError::Failure(f)) => {
                proof {
                    assert(self.head().head().head().head().p3.fails(*input, f));
                    assert(self.head().head().head().head().fails(*input, f));
                    assert(self.head().head().head().fails(*input, f));
                    assert(self.head().head().fails(*input, f));
                    assert(self.head().fails(*input, f));
                }
                return Err(ParserError::Failure(f));
            },
        }
        match self.p4.parse(input) {
            Ok((out, rest)) => {
                proof {
                    assert(self.head().head().head().p4.accepts(*input, out, rest));
                    assert(self.head().head().head().accepts(*input, out, rest));
                    assert(self.head().head().accepts(*input, out, rest));
                    assert(self.head().accepts(*input, out, rest));
                }
                return Ok((out, rest));
            },
            Err(ParserError::Error(e)) => {
                proof {
                    assert(self.head().head().head().p4.rejects(*input, e));
                    assert(self.head().head().head().rejects(*input, NotFound));
                }
            },
            Err(ParserError::Failure(f)) => {
                proof {
                    assert(self.head().head().head().p4.fails(*input, f));
                    assert(self.head().head().head().fails(*input, f));
                    assert(self.head().head().fails(*input, f));
                    assert(self.head().fails(*input, f));
                }
                return Err(ParserError::Failure(f));
            },
        }
        match self.p5.parse(input) {
            Ok((out, rest)) => {
                proof {
                    assert(self.head().head().p5.accepts(*input, out, rest));
                    assert(self.head().head().accepts(*input, out, rest));
                    assert(self.head().accepts(*input, out, rest));
                }
                return Ok((out, rest));
            },
            Err(ParserError::Error(e)) => {
                proof {
                    assert(self.head().head().p5.rejects(*input, e));
                    assert(self.head().head().rejects(*input, NotFound));
                }
            },
            Err(ParserError::Failure(f)) => {
                proof {
                    assert(self.head().head().p5.fails(*input, f));
                    assert(self.head().head().fails(*input, f));
                    assert(self.head().fails(*input, f));
                }
                return Err(ParserError::Failure(f));
            },
        }
        match self.p6.parse(input) {
            Ok((out, rest)) => {
                proof {
                    assert(self.head().p6.accepts(*input, out, rest));
                    assert(self.head().accepts(*input, out, rest));
                }
                return Ok((out, rest));
            },
            Err(ParserError::Error(e)) => {
                proof {
                    assert(self.head().p6.rejects(*input, e));
                    assert(self.head().rejects(*input, NotFound));
                }
            },
            Err(ParserError::Failure(f)) => {
                proof {
                    assert(self.head().p6.fails(*input, f));
                    assert(self.head().fails(*input, f));
                }
                return Err(ParserError::Failure(f));
            },
        }
        match self.p7.parse(input) {
            Ok((out, rest)) => {
                proof {
                    assert(self.p7.accepts(*input, out, rest));
                }
                Ok((out, rest))
            },
            Err(ParserError::Error(e)) => {
                proof {
                    assert(self.p7.rejects(*input, e));
                    assert(self.rejects(*input, NotFound));
                }
                Err(ParserError::Error(NotFound))
            },
            Err(ParserError::Failure(f)) => {
                proof {
                    assert(self.p7.fails(*input, f));
                }
                Err(ParserError::Failure(f))
            },
        }
    }
}

impl<P0, P1, P2, P3, P4, P5, P6, P7> Choice for (P0, P1, P2, P3, P4, P5, P6, P7) {
    type Joined = Either8<P0, P1, P2, P3, P4, P5, P6, P7>;

    open spec fn joined(self) -> Either8<P0, P1, P2, P3, P4, P5, P6, P7> {
        Either8 { p0: self.0, p1: self.1, p2: self.2, p3: self.3, p4: self.4, p5: self.5,
            p6: self.6, p7: self.7 }
    }

    fn or(self) -> (r: Either8<P0, P1, P2, P3, P4, P5, P6, P7>) {
        Either8 { p0: self.0, p1: self.1, p2: self.2, p3: self.3, p4: self.4, p5: self.5,
            p6: self.6, p7: self.7 }
    }
}

} // verus!
