//! Parsers run one after the other.
use crate::parse::{Parser, ParserError, ParserResult};
use crate::primitives::whitespace::Whitespace;
use vstd::prelude::*;

verus! {

/// A tuple of parsers that share their error types, to be run one after the other: each on
/// what the one before it left.
pub trait Sequence: Sized {
    /// The parser that runs them in turn.
    type Joined;

    /// True when a separator was already put between the parsers.
    spec fn separated(&self) -> bool;

    /// The parser that [`and`](Sequence::and) returns.
    spec fn joined(self) -> Self::Joined;

    /// The parser that runs each of these parsers on what the one before it left. It succeeds
    /// with all their outputs where all succeed, and stops at the first that does not.
    fn and(self) -> (r: Self::Joined)
        ensures
            r == self.joined(),
    ;

    /// These parsers with `sep` to be run between each two of them. Its output is dropped. A
    /// sequence takes one separator.
    fn with_sep<P>(self, sep: P) -> (r: SeparatedSequence<Self, P>)
        requires
            !self.separated(),
        ensures
            r.seq == self,
            r.sep == sep,
    {
        SeparatedSequence { seq: self, sep }
    }

    /// These parsers with white space to be matched between each two of them.
    fn whitespace(self) -> (r: SeparatedSequence<Self, Whitespace>)
        requires
            !self.separated(),
        ensures
            r.seq == self,
    {
        SeparatedSequence { seq: self, sep: Whitespace }
    }
}

/// A tuple of parsers with a separator to be run between each two of them.
pub struct SeparatedSequence<S, P> {
    pub seq: S,
    pub sep: P,
}

/// Two parsers run one after the other.
pub struct Chain2<P0, P1> {
    pub p0: P0,
    pub p1: P1,
}

impl<
    I,
    P0: Parser<I>,
    P1: Parser<I, Error = P0::Error, Failure = P0::Failure>,
> Parser<I> for Chain2<P0, P1> {
    type Output = (P0::Output, P1::Output);

    type Error = P0::Error;

    type Failure = P0::Failure;

    open spec fn inv(&self) -> bool {
        self.p0.inv() && self.p1.inv()
    }

    open spec fn accepts(&self, input: I, out: (P0::Output, P1::Output), rest: I) -> bool {
        exists|mid: I| #[trigger]
            self.p0.accepts(input, out.0, mid) && self.p1.accepts(mid, out.1, rest)
    }

    open spec fn rejects(&self, input: I, e: P0::Error) -> bool {
        ||| self.p0.rejects(input, e)
        ||| exists|o: P0::Output, mid: I| #[trigger]
            self.p0.accepts(input, o, mid) && self.p1.rejects(mid, e)
    }

    open spec fn fails(&self, input: I, f: P0::Failure) -> bool {
        ||| self.p0.fails(input, f)
        ||| exists|o: P0::Output, mid: I| #[trigger]
            self.p0.accepts(input, o, mid) && self.p1.fails(mid, f)
    }

    fn parse(&self, input: &I) -> (r: ParserResult<I, (P0::Output, P1::Output), P0::Error,
        P0::Failure>) {
        let (o0, r0) = match self.p0.parse(input) {
            Ok(x) => x,
            Err(ParserError::Error(e)) => {
                return Err(ParserError::Error(e));
            },
            Err(ParserError::Failure(f)) => {
                return Err(ParserError::Failure(f));
            },
        };
        let (o1, r1) = match self.p1.parse(&r0) {
            Ok(x) => x,
            Err(ParserError::Error(e)) => {
                proof {
                    assert(self.p0.accepts(*input, o0, r0) && self.p1.rejects(r0, e));
                }
                return Err(ParserError::Error(e));
            },
            Err(ParserError::Failure(f)) => {
                proof {
                    assert(self.p0.accepts(*input, o0, r0) && self.p1.fails(r0, f));
                }
                return Err(ParserError::Failure(f));
            },
        };
        proof {
            let out = (o0, o1);
            assert(self.p0.accepts(*input, out.0, r0) && self.p1.accepts(
                r0,
                out.1,
                r1,
            ));
        }
        Ok(((o0, o1), r1))
    }
}

impl<P0, P1> Sequence for (P0, P1) {
    type Joined = Chain2<P0, P1>;

    open spec fn separated(&self) -> bool {
        false
    }

    open spec fn joined(self) -> Chain2<P0, P1> {
        Chain2 { p0: self.0, p1: self.1 }
    }

    fn and(self) -> (r: Chain2<P0, P1>) {
        Chain2 { p0: self.0, p1: self.1 }
    }
}

/// Three parsers run one after the other.
pub struct Chain3<P0, P1, P2> {
    pub p0: P0,
    pub p1: P1,
    pub p2: P2,
}

impl<P0, P1, P2> Chain3<P0, P1, P2> {
    /// The chain of all but the last parser.
    pub open spec fn head(self) -> Chain2<P0, P1> {
        Chain2 { p0: self.p0, p1: self.p1 }
    }
}

impl<
    I,
    P0: Parser<I>,
    P1: Parser<I, Error = P0::Error, Failure = P0::Failure>,
    P2: Parser<I, Error = P0::Error, Failure = P0::Failure>,
> Parser<I> for Chain3<P0, P1, P2> {
    type Output = (P0::Output, P1::Output, P2::Output);

    type Error = P0::Error;

    type Failure = P0::Failure;

    open spec fn inv(&self) -> bool {
        self.p0.inv() && self.p1.inv() && self.p2.inv()
    }

    open spec fn accepts(&self, input: I, out: (P0::Output, P1::Output, P2::Output),
        rest: I) -> bool {
        exists|mid: I| #[trigger]
            self.head().accepts(input, (out.0, out.1), mid) && self.p2.accepts(mid, out.2, rest)
    }

    open spec fn rejects(&self, input: I, e: P0::Error) -> bool {
        ||| self.head().rejects(input, e)
        ||| exists|o: (P0::Output, P1::Output), mid: I| #[trigger]
            self.head().accepts(input, o, mid) && self.p2.rejects(mid, e)
    }

    open spec fn fails(&self, input: I, f: P0::Failure) -> bool {
        ||| self.head().fails(input, f)
        ||| exists|o: (P0::Output, P1::Output), mid: I| #[trigger]
            self.head().accepts(input, o, mid) && self.p2.fails(mid, f)
    }

    fn parse(&self, input: &I) -> (r: ParserResult<I, (P0::Output, P1::Output, P2::Output),
        P0::Error, P0::Failure>) {
        let (o0, r0) = match self.p0.parse(input) {
            Ok(x) => x,
            Err(ParserError::Error(e)) => {
                proof {
                    assert(self.head().rejects(*input, e));
                }
                return Err(ParserError::Error(e));
            },
            Err(ParserError::Failure(f)) => {
                proof {
                    assert(self.head().fails(*input, f));
                }
                return Err(ParserError::Failure(f));
            },
        };
        let (o1, r1) = match self.p1.parse(&r0) {
            Ok(x) => x,
            Err(ParserError::Error(e)) => {
                proof {
                    assert(self.head().p0.accepts(*input, o0, r0) && self.head().p1.rejects(r0, e));
                    assert(self.head().rejects(*input, e));
                }
                return Err(ParserError::Error(e));
            },
            Err(ParserError::Failure(f)) => {
                proof {
                    assert(self.head().p0.accepts(*input, o0, r0) && self.head().p1.fails(r0, f));
                    assert(self.head().fails(*input, f));
                }
                return Err(ParserError::Failure(f));
            },
        };
        proof {
            let out = (o0, o1);
            assert(self.head().p0.accepts(*input, out.0, r0) && self.head().p1.accepts(
                r0,
                out.1,
                r1,
            ));
        }
        let (o2, r2) = match self.p2.parse(&r1) {
            Ok(x) => x,
            Err(ParserError::Error(e)) => {
                proof {
                    assert(self.head().accepts(*input, (o0, o1), r1) && self.p2.rejects(r1, e));
                }
                return Err(ParserError::Error(e));
            },
            Err(ParserError::Failure(f)) => {
                proof {
                    assert(self.head().accepts(*input, (o0, o1), r1) && self.p2.fails(r1, f));
                }
                return Err(ParserError::Failure(f));
            },
        };
        proof {
            let out = (o0, o1, o2);
            assert(self.head().accepts(*input, (out.0, out.1), r1) && self.p2.accepts(
                r1,
                out.2,
                r2,
            ));
        }
        Ok(((o0, o1, o2), r2))
    }
}

impl<P0, P1, P2> Sequence for (P0, P1, P2) {
    type Joined = Chain3<P0, P1, P2>;

    open spec fn separated(&self) -> bool {
        false
    }

    open spec fn joined(self) -> Chain3<P0, P1, P2> {
        Chain3 { p0: self.0, p1: self.1, p2: self.2 }
    }

    fn and(self) -> (r: Chain3<P0, P1, P2>) {
        Chain3 { p0: self.0, p1: self.1, p2: self.2 }
    }
}

/// Four parsers run one after the other.
pub struct Chain4<P0, P1, P2, P3> {
    pub p0: P0,
    pub p1: P1,
    pub p2: P2,
    pub p3: P3,
}

impl<P0, P1, P2, P3> Chain4<P0, P1, P2, P3> {
    /// The chain of all but the last parser.
    pub open spec fn head(self) -> Chain3<P0, P1, P2> {
        Chain3 { p0: self.p0, p1: self.p1, p2: self.p2 }
    }
}

impl<
    I,
    P0: Parser<I>,
    P1: Parser<I, Error = P0::Error, Failure = P0::Failure>,
    P2: Parser<I, Error = P0::Error, Failure = P0::Failure>,
    P3: Parser<I, Error = P0::Error, Failure = P0::Failure>,
> Parser<I> for Chain4<P0, P1, P2, P3> {
    type Output = (P0::Output, P1::Output, P2::Output, P3::Output);

    type Error = P0::Error;

    type Failure = P0::Failure;

    open spec fn inv(&self) -> bool {
        self.p0.inv() && self.p1.inv() && self.p2.inv() && self.p3.inv()
    }

    open spec fn accepts(&self, input: I, out: (P0::Output, P1::Output, P2::Output, P3::Output),
        rest: I) -> bool {
        exists|mid: I| #[trigger]
            self.head().accepts(input, (out.0, out.1, out.2), mid) && self.p3.accepts(mid, out.3,
                rest)
    }

    open spec fn rejects(&self, input: I, e: P0::Error) -> bool {
        ||| self.head().rejects(input, e)
        ||| exists|o: (P0::Output, P1::Output, P2::Output), mid: I| #[trigger]
            self.head().accepts(input, o, mid) && self.p3.rejects(mid, e)
    }

    open spec fn fails(&self, input: I, f: P0::Failure) -> bool {
        ||| self.head().fails(input, f)
        ||| exists|o: (P0::Output, P1::Output, P2::Output), mid: I| #[trigger]
            self.head().accepts(input, o, mid) && self.p3.fails(mid, f)
    }

    fn parse(&self, input: &I) -> (r: ParserResult<I, (P0::Output, P1::Output, P2::Output,
        P3::Output), P0::Error, P0::Failure>) {
        let (o0, r0) = match self.p0.parse(input) {
            Ok(x) => x,
            Err(ParserError::Error(e)) => {
                proof {
                    assert(self.head().head().rejects(*input, e));
                    assert(self.head().rejects(*input, e));
                }
                return Err(ParserError::Error(e));
            },
            Err(ParserError::Failure(f)) => {
                proof {
                    assert(self.head().head().fails(*input, f));
                    assert(self.head().fails(*input, f));
                }
                return Err(ParserError::Failure(f));
            },
        };
        let (o1, r1) = match self.p1.parse(&r0) {
            Ok(x) => x,
            Err(ParserError::Error(e)) => {
                proof {
                    assert(self.head().head().p0.accepts(*input, o0, r0)
                        && self.head().head().p1.rejects(r0, e));
                    assert(self.head().head().rejects(*input, e));
                    assert(self.head().rejects(*input, e));
                }
                return Err(ParserError::Error(e));
            },
            Err(ParserError::Failure(f)) => {
                proof {
                    assert(self.head().head().p0.accepts(*input, o0, r0)
                        && self.head().head().p1.fails(r0, f));
                    assert(self.head().head().fails(*input, f));
                    assert(self.head().fails(*input, f));
                }
                return Err(ParserError::Failure(f));
            },
        };
        proof {
            let out = (o0, o1);
            assert(self.head().head().p0.accepts(*input, out.0, r0)
                && self.head().head().p1.accepts(
                r0,
                out.1,
                r1,
            ));
        }
        let (o2, r2) = match self.p2.parse(&r1) {
            Ok(x) => x,
            Err(ParserError::Error(e)) => {
                proof {
                    assert(self.head().head().accepts(*input, (o0, o1), r1)
                        && self.head().p2.rejects(r1, e));
                    assert(self.head().rejects(*input, e));
                }
                return Err(ParserError::Error(e));
            },
            Err(ParserError::Failure(f)) => {
                proof {
                    assert(self.head().head().accepts(*input, (o0, o1), r1)
                        && self.head().p2.fails(r1, f));
                    assert(self.head().fails(*input, f));
                }
                return Err(ParserError::Failure(f));
            },
        };
        proof {
            let out = (o0, o1, o2);
            assert(self.head().head().accepts(*input, (out.0, out.1), r1) && self.head().p2.accepts(
                r1,
                out.2,
                r2,
            ));
        }
        let (o3, r3) = match self.p3.parse(&r2) {
            Ok(x) => x,
            Err(ParserError::Error(e)) => {
                proof {
                    assert(self.head().accepts(*input, (o0, o1, o2), r2) && self.p3.rejects(r2, e));
                }
                return Err(ParserError::Error(e));
            },
            Err(ParserError::Failure(f)) => {
                proof {
                    assert(self.head().accepts(*input, (o0, o1, o2), r2) && self.p3.fails(r2, f));
                }
                return Err(ParserError::Failure(f));
            },
        };
        proof {
            let out = (o0, o1, o2, o3);
            assert(self.head().accepts(*input, (out.0, out.1, out.2), r2) && self.p3.accepts(
                r2,
                out.3,
                r3,
            ));
        }
        Ok(((o0, o1, o2, o3), r3))
    }
}

impl<P0, P1, P2, P3> Sequence for (P0, P1, P2, P3) {
    type Joined = Chain4<P0, P1, P2, P3>;

    open spec fn separated(&self) -> bool {
        false
    }

    open spec fn joined(self) -> Chain4<P0, P1, P2, P3> {
        Chain4 { p0: self.0, p1: self.1, p2: self.2, p3: self.3 }
    }

    fn and(self) -> (r: Chain4<P0, P1, P2, P3>) {
        Chain4 { p0: self.0, p1: self.1, p2: self.2, p3: self.3 }
    }
}

/// Five parsers run one after the other.
pub struct Chain5<P0, P1, P2, P3, P4> {
    pub p0: P0,
    pub p1: P1,
    pub p2: P2,
    pub p3: P3,
    pub p4: P4,
}

impl<P0, P1, P2, P3, P4> Chain5<P0, P1, P2, P3, P4> {
    /// The chain of all but the last parser.
    pub open spec fn head(self) -> Chain4<P0, P1, P2, P3> {
        Chain4 { p0: self.p0, p1: self.p1, p2: self.p2, p3: self.p3 }
    }
}

impl<
    I,
    P0: Parser<I>,
    P1: Parser<I, Error = P0::Error, Failure = P0::Failure>,
    P2: Parser<I, Error = P0::Error, Failure = P0::Failure>,
    P3: Parser<I, Error = P0::Error, Failure = P0::Failure>,
    P4: Parser<I, Error = P0::Error, Failure = P0::Failure>,
> Parser<I> for Chain5<P0, P1, P2, P3, P4> {
    type Output = (P0::Output, P1::Output, P2::Output, P3::Output, P4::Output);

    type Error = P0::Error;

    type Failure = P0::Failure;

    open spec fn inv(&self) -> bool {
        self.p0.inv() && self.p1.inv() && self.p2.inv() && self.p3.inv() && self.p4.inv()
    }

    open spec fn accepts(&self, input: I, out: (P0::Output, P1::Output, P2::Output, P3::Output,
        P4::Output), rest: I) -> bool {
        exists|mid: I| #[trigger]
            self.head().accepts(input, (out.0, out.1, out.2, out.3), mid) && self.p4.accepts(mid,
                out.4, rest)
    }

    open spec fn rejects(&self, input: I, e: P0::Error) -> bool {
        ||| self.head().rejects(input, e)
        ||| exists|o: (P0::Output, P1::Output, P2::Output, P3::Output), mid: I| #[trigger]
            self.head().accepts(input, o, mid) && self.p4.rejects(mid, e)
    }

    open spec fn fails(&self, input: I, f: P0::Failure) -> bool {
        ||| self.head().fails(input, f)
        ||| exists|o: (P0::Output, P1::Output, P2::Output, P3::Output), mid: I| #[trigger]
            self.head().accepts(input, o, mid) && self.p4.fails(mid, f)
    }

    fn parse(&self, input: &I) -> (r: ParserResult<I, (P0::Output, P1::Output, P2::Output,
        P3::Output, P4::Output), P0::Error, P0::Failure>) {
        let (o0, r0) = match self.p0.parse(input) {
            Ok(x) => x,
            Err(ParserError::Error(e)) => {
                proof {
                    assert(self.head().head().head().rejects(*input, e));
                    assert(self.head().head().rejects(*input, e));
                    assert(self.head().rejects(*input, e));
                }
                return Err(ParserError::Error(e));
            },
            Err(ParserError::Failure(f)) => {
                proof {
                    assert(self.head().head().head().fails(*input, f));
                    assert(self.head().head().fails(*input, f));
                    assert(self.head().fails(*input, f));
                }
                return Err(ParserError::Failure(f));
            },
        };
        let (o1, r1) = match self.p1.parse(&r0) {
            Ok(x) => x,
            Err(ParserError::Error(e)) => {
                proof {
                    assert(self.head().head().head().p0.accepts(*input, o0, r0)
                        && self.head().head().head().p1.rejects(r0, e));
                    assert(self.head().head().head().rejects(*input, e));
                    assert(self.head().head().rejects(*input, e));
                    assert(self.head().rejects(*input, e));
                }
                return Err(ParserError::Error(e));
            },
            Err(ParserError::Failure(f)) => {
                proof {
                    assert(self.head().head().head().p0.accepts(*input, o0, r0)
                        && self.head().head().head().p1.fails(r0, f));
                    assert(self.head().head().head().fails(*input, f));
                    assert(self.head().head().fails(*input, f));
                    assert(self.head().fails(*input, f));
                }
                return Err(ParserError::Failure(f));
            },
        };
        proof {
            let out = (o0, o1);
            assert(self.head().head().head().p0.accepts(*input, out.0, r0)
                && self.head().head().head().p1.accepts(
                r0,
                out.1,
                r1,
            ));
        }
        let (o2, r2) = match self.p2.parse(&r1) {
            Ok(x) => x,
            Err(ParserError::Error(e)) => {
                proof {
                    assert(self.head().head().head().accepts(*input, (o0, o1), r1)
                        && self.head().head().p2.rejects(r1, e));
                    assert(self.head().head().rejects(*input, e));
                    assert(self.head().rejects(*input, e));
                }
                return Err(ParserError::Error(e));
            },
            Err(ParserError::Failure(f)) => {
                proof {
                    assert(self.head().head().head().accepts(*input, (o0, o1), r1)
                        && self.head().head().p2.fails(r1, f));
                    assert(self.head().head().fails(*input, f));
                    assert(self.head().fails(*input, f));
                }
                return Err(ParserError::Failure(f));
            },
        };
        proof {
            let out = (o0, o1, o2);
            assert(self.head().head().head().accepts(*input, (out.0, out.1), r1)
                && self.head().head().p2.accepts(
                r1,
                out.2,
                r2,
            ));
        }
        let (o3, r3) = match self.p3.parse(&r2) {
            Ok(x) => x,
            Err(ParserError::Error(e)) => {
                proof {
                    assert(self.head().head().accepts(*input, (o0, o1, o2), r2)
                        && self.head().p3.rejects(r2, e));
                    assert(self.head().rejects(*input, e));
                }
                return Err(ParserError::Error(e));
            },
            Err(ParserError::Failure(f)) => {
                proof {
                    assert(self.head().head().accepts(*input, (o0, o1, o2), r2)
                        && self.head().p3.fails(r2, f));
                    assert(self.head().fails(*input, f));
                }
                return Err(ParserError::Failure(f));
            },
        };
        proof {
            let out = (o0, o1, o2, o3);
            assert(self.head().head().accepts(*input, (out.0, out.1, out.2), r2)
                && self.head().p3.accepts(
                r2,
                out.3,
                r3,
            ));
        }
        let (o4, r4) = match self.p4.parse(&r3) {
            Ok(x) => x,
            Err(ParserError::Error(e)) => {
                proof {
                    assert(self.head().accepts(*input, (o0, o1, o2, o3), r3) && self.p4.rejects(r3,
                        e));
                }
                return Err(ParserError::Error(e));
            },
            Err(ParserError::Failure(f)) => {
                proof {
                    assert(self.head().accepts(*input, (o0, o1, o2, o3), r3) && self.p4.fails(r3,
                        f));
                }
                return Err(ParserError::Failure(f));
            },
        };
        proof {
            let out = (o0, o1, o2, o3, o4);
            assert(self.head().accepts(*input, (out.0, out.1, out.2, out.3), r3) && self.p4.accepts(
                r3,
                out.4,
                r4,
            ));
        }
        Ok(((o0, o1, o2, o3, o4), r4))
    }
}

impl<P0, P1, P2, P3, P4> Sequence for (P0, P1, P2, P3, P4) {
    type Joined = Chain5<P0, P1, P2, P3, P4>;

    open spec fn separated(&self) -> bool {
        false
    }

    open spec fn joined(self) -> Chain5<P0, P1, P2, P3, P4> {
        Chain5 { p0: self.0, p1: self.1, p2: self.2, p3: self.3, p4: self.4 }
    }

    fn and(self) -> (r: Chain5<P0, P1, P2, P3, P4>) {
        Chain5 { p0: self.0, p1: self.1, p2: self.2, p3: self.3, p4: self.4 }
    }
}

/// Six parsers run one after the other.
pub struct Chain6<P0, P1, P2, P3, P4, P5> {
    pub p0: P0,
    pub p1: P1,
    pub p2: P2,
    pub p3: P3,
    pub p4: P4,
    pub p5: P5,
}

impl<P0, P1, P2, P3, P4, P5> Chain6<P0, P1, P2, P3, P4, P5> {
    /// The chain of all but the last parser.
    pub open spec fn head(self) -> Chain5<P0, P1, P2, P3, P4> {
        Chain5 { p0: self.p0, p1: self.p1, p2: self.p2, p3: self.p3, p4: self.p4 }
    }
}

impl<
    I,
    P0: Parser<I>,
    P1: Parser<I, Error = P0::Error, Failure = P0::Failure>,
    P2: Parser<I, Error = P0::Error, Failure = P0::Failure>,
    P3: Parser<I, Error = P0::Error, Failure = P0::Failure>,
    P4: Parser<I, Error = P0::Error, Failure = P0::Failure>,
    P5: Parser<I, Error = P0::Error, Failure = P0::Failure>,
> Parser<I> for Chain6<P0, P1, P2, P3, P4, P5> {
    type Output = (P0::Output, P1::Output, P2::Output, P3::Output, P4::Output, P5::Output);

    type Error = P0::Error;

    type Failure = P0::Failure;

    open spec fn inv(&self) -> bool {
        self.p0.inv() && self.p1.inv() && self.p2.inv() && self.p3.inv() && self.p4.inv()
            && self.p5.inv()
    }

    open spec fn accepts(&self, input: I, out: (P0::Output, P1::Output, P2::Output, P3::Output,
        P4::Output, P5::Output), rest: I) -> bool {
        exists|mid: I| #[trigger]
            self.head().accepts(input, (out.0, out.1, out.2, out.3, out.4), mid)
                && self.p5.accepts(mid, out.5, rest)
    }

    open spec fn rejects(&self, input: I, e: P0::Error) -> bool {
        ||| self.head().rejects(input, e)
        ||| exists|o: (P0::Output, P1::Output, P2::Output, P3::Output, P4::Output),
            mid: I| #[trigger]
            self.head().accepts(input, o, mid) && self.p5.rejects(mid, e)
    }

    open spec fn fails(&self, input: I, f: P0::Failure) -> bool {
        ||| self.head().fails(input, f)
        ||| exists|o: (P0::Output, P1::Output, P2::Output, P3::Output, P4::Output),
            mid: I| #[trigger]
            self.head().accepts(input, o, mid) && self.p5.fails(mid, f)
    }

    fn parse(&self, input: &I) -> (r: ParserResult<I, (P0::Output, P1::Output, P2::Output,
        P3::Output, P4::Output, P5::Output), P0::Error, P0::Failure>) {
        let (o0, r0) = match self.p0.parse(input) {
            Ok(x) => x,
            Err(ParserError::Error(e)) => {
                proof {
                    assert(self.head().head().head().head().rejects(*input, e));
                    assert(self.head().head().head().rejects(*input, e));
                    assert(self.head().head().rejects(*input, e));
                    assert(self.head().rejects(*input, e));
                }
                return Err(ParserError::Error(e));
            },
            Err(ParserError::Failure(f)) => {
                proof {
                    assert(self.head().head().head().head().fails(*input, f));
                    assert(self.head().head().head().fails(*input, f));
                    assert(self.head().head().fails(*input, f));
                    assert(self.head().fails(*input, f));
                }
                return Err(ParserError::Failure(f));
            },
        };
        let (o1, r1) = match self.p1.parse(&r0) {
            Ok(x) => x,
            Err(ParserError::Error(e)) => {
                proof {
                    assert(self.head().head().head().head().p0.accepts(*input, o0, r0)
                        && self.head().head().head().head().p1.rejects(r0, e));
                    assert(self.head().head().head().head().rejects(*input, e));
                    assert(self.head().head().head().rejects(*input, e));
                    assert(self.head().head().rejects(*input, e));
                    assert(self.head().rejects(*input, e));
                }
                return Err(ParserError::Error(e));
            },
            Err(ParserError::Failure(f)) => {
                proof {
                    assert(self.head().head().head().head().p0.accepts(*input, o0, r0)
                        && self.head().head().head().head().p1.fails(r0, f));
                    assert(self.head().head().head().head().fails(*input, f));
                    assert(self.head().head().head().fails(*input, f));
                    assert(self.head().head().fails(*input, f));
                    assert(self.head().fails(*input, f));
                }
                return Err(ParserError::Failure(f));
            },
        };
        proof {
            let out = (o0, o1);
            assert(self.head().head().head().head().p0.accepts(*input, out.0, r0)
                && self.head().head().head().head().p1.accepts(
                r0,
                out.1,
                r1,
            ));
        }
        let (o2, r2) = match self.p2.parse(&r1) {
            Ok(x) => x,
            Err(ParserError::Error(e)) => {
                proof {
                    assert(self.head().head().head().head().accepts(*input, (o0, o1), r1)
                        && self.head().head().head().p2.rejects(r1, e));
                    assert(self.head().head().head().rejects(*input, e));
                    assert(self.head().head().rejects(*input, e));
                    assert(self.head().rejects(*input, e));
                }
                return Err(ParserError::Error(e));
            },
            Err(ParserError::Failure(f)) => {
                proof {
                    assert(self.head().head().head().head().accepts(*input, (o0, o1), r1)
                        && self.head().head().head().p2.fails(r1, f));
                    assert(self.head().head().head().fails(*input, f));
                    assert(self.head().head().fails(*input, f));
                    assert(self.head().fails(*input, f));
                }
                return Err(ParserError::Failure(f));
            },
        };
        proof {
            let out = (o0, o1, o2);
            assert(self.head().head().head().head().accepts(*input, (out.0, out.1), r1)
                && self.head().head().head().p2.accepts(
                r1,
                out.2,
                r2,
            ));
        }
        let (o3, r3) = match self.p3.parse(&r2) {
            Ok(x) => x,
            Err(ParserError::Error(e)) => {
                proof {
                    assert(self.head().head().head().accepts(*input, (o0, o1, o2), r2)
                        && self.head().head().p3.rejects(r2, e));
                    assert(self.head().head().rejects(*input, e));
                    assert(self.head().rejects(*input, e));
                }
                return Err(ParserError::Error(e));
            },
            Err(ParserError::Failure(f)) => {
                proof {
                    assert(self.head().head().head().accepts(*input, (o0, o1, o2), r2)
                        && self.head().head().p3.fails(r2, f));
                    assert(self.head().head().fails(*input, f));
                    assert(self.head().fails(*input, f));
                }
                return Err(ParserError::Failure(f));
            },
        };
        proof {
            let out = (o0, o1, o2, o3);
            assert(self.head().head().head().accepts(*input, (out.0, out.1, out.2), r2)
                && self.head().head().p3.accepts(
                r2,
                out.3,
                r3,
            ));
        }
        let (o4, r4) = match self.p4.parse(&r3) {
            Ok(x) => x,
            Err(ParserError::Error(e)) => {
                proof {
                    assert(self.head().head().accepts(*input, (o0, o1, o2, o3), r3)
                        && self.head().p4.rejects(r3, e));
                    assert(self.head().rejects(*input, e));
                }
                return Err(ParserError::Error(e));
            },
            Err(ParserError::Failure(f)) => {
                proof {
                    assert(self.head().head().accepts(*input, (o0, o1, o2, o3), r3)
                        && self.head().p4.fails(r3, f));
                    assert(self.head().fails(*input, f));
                }
                return Err(ParserError::Failure(f));
            },
        };
        proof {
            let out = (o0, o1, o2, o3, o4);
            assert(self.head().head().accepts(*input, (out.0, out.1, out.2, out.3), r3)
                && self.head().p4.accepts(
                r3,
                out.4,
                r4,
            ));
        }
        let (o5, r5) = match self.p5.parse(&r4) {
            Ok(x) => x,
            Err(ParserError::Error(e)) => {
                proof {
                    assert(self.head().accepts(*input, (o0, o1, o2, o3, o4), r4)
                        && self.p5.rejects(r4, e));
                }
                return Err(ParserError::Error(e));
            },
            Err(ParserError::Failure(f)) => {
                proof {
                    assert(self.head().accepts(*input, (o0, o1, o2, o3, o4), r4)
                        && self.p5.fails(r4, f));
                }
                return Err(ParserError::Failure(f));
            },
        };
        proof {
            let out = (o0, o1, o2, o3, o4, o5);
            assert(self.head().accepts(*input, (out.0, out.1, out.2, out.3, out.4), r4)
                && self.p5.accepts(
                r4,
                out.5,
                r5,
            ));
        }
        Ok(((o0, o1, o2, o3, o4, o5), r5))
    }
}

impl<P0, P1, P2, P3, P4, P5> Sequence for (P0, P1, P2, P3, P4, P5) {
    type Joined = Chain6<P0, P1, P2, P3, P4, P5>;

    open spec fn separated(&self) -> bool {
        false
    }

    open spec fn joined(self) -> Chain6<P0, P1, P2, P3, P4, P5> {
        Chain6 { p0: self.0, p1: self.1, p2: self.2, p3: self.3, p4: self.4, p5: self.5 }
    }

    fn and(self) -> (r: Chain6<P0, P1, P2, P3, P4, P5>) {
        Chain6 { p0: self.0, p1: self.1, p2: self.2, p3: self.3, p4: self.4, p5: self.5 }
    }
}

/// Seven parsers run one after the other.
pub struct Chain7<P0, P1, P2, P3, P4, P5, P6> {
    pub p0: P0,
    pub p1: P1,
    pub p2: P2,
    pub p3: P3,
    pub p4: P4,
    pub p5: P5,
    pub p6: P6,
}

impl<P0, P1, P2, P3, P4, P5, P6> Chain7<P0, P1, P2, P3, P4, P5, P6> {
    /// The chain of all but the last parser.
    pub open spec fn head(self) -> Chain6<P0, P1, P2, P3, P4, P5> {
        Chain6 { p0: self.p0, p1: self.p1, p2: self.p2, p3: self.p3, p4: self.p4, p5: self.p5 }
    }
}

impl<
    I,
    P0: Parser<I>,
    P1: Parser<I, Error = P0::Error, Failure = P0::Failure>,
    P2: Parser<I, Error = P0::Error, Failure = P0::Failure>,
    P3: Parser<I, Error = P0::Error, Failure = P0::Failure>,
    P4: Parser<I, Error = P0::Error, Failure = P0::Failure>,
    P5: Parser<I, Error = P0::Error, Failure = P0::Failure>,
    P6: Parser<I, Error = P0::Error, Failure = P0::Failure>,
> Parser<I> for Chain7<P0, P1, P2, P3, P4, P5, P6> {
    type Output = (P0::Output, P1::Output, P2::Output, P3::Output, P4::Output, P5::Output,
        P6::Output);

    type Error = P0::Error;

    type Failure = P0::Failure;

    open spec fn inv(&self) -> bool {
        self.p0.inv() && self.p1.inv() && self.p2.inv() && self.p3.inv() && self.p4.inv()
            && self.p5.inv() && self.p6.inv()
    }

    open spec fn accepts(&self, input: I, out: (P0::Output, P1::Output, P2::Output, P3::Output,
        P4::Output, P5::Output, P6::Output), rest: I) -> bool {
        exists|mid: I| #[trigger]
            self.head().accepts(input, (out.0, out.1, out.2, out.3, out.4, out.5), mid)
                && self.p6.accepts(mid, out.6, rest)
    }

    open spec fn rejects(&self, input: I, e: P0::Error) -> bool {
        ||| self.head().rejects(input, e)
        ||| exists|o: (P0::Output, P1::Output, P2::Output, P3::Output, P4::Output, P5::Output),
            mid: I| #[trigger]
            self.head().accepts(input, o, mid) && self.p6.rejects(mid, e)
    }

    open spec fn fails(&self, input: I, f: P0::Failure) -> bool {
        ||| self.head().fails(input, f)
        ||| exists|o: (P0::Output, P1::Output, P2::Output, P3::Output, P4::Output, P5::Output),
            mid: I| #[trigger]
            self.head().accepts(input, o, mid) && self.p6.fails(mid, f)
    }

    fn parse(&self, input: &I) -> (r: ParserResult<I, (P0::Output, P1::Output, P2::Output,
        P3::Output, P4::Output, P5::Output, P6::Output), P0::Error, P0::Failure>) {
        let (o0, r0) = match self.p0.parse(input) {
            Ok(x) => x,
            Err(ParserError::Error(e)) => {
                proof {
                    assert(self.head().head().head().head().head().rejects(*input, e));
                    assert(self.head().head().head().head().rejects(*input, e));
                    assert(self.head().head().head().rejects(*input, e));
                    assert(self.head().head().rejects(*input, e));
                    assert(self.head().rejects(*input, e));
                }
                return Err(ParserError::Error(e));
            },
            Err(ParserError::Failure(f)) => {
                proof {
                    assert(self.head().head().head().head().head().fails(*input, f));
                    assert(self.head().head().head().head().fails(*input, f));
                    assert(self.head().head().head().fails(*input, f));
                    assert(self.head().head().fails(*input, f));
                    assert(self.head().fails(*input, f));
                }
                return Err(ParserError::Failure(f));
            },
        };
        let (o1, r1) = match self.p1.parse(&r0) {
            Ok(x) => x,
            Err(ParserError::Error(e)) => {
                proof {
                    assert(self.head().head().head().head().head().p0.accepts(*input, o0, r0)
                        && self.head().head().head().head().head().p1.rejects(r0, e));
                    assert(self.head().head().head().head().head().rejects(*input, e));
                    assert(self.head().head().head().head().rejects(*input, e));
                    assert(self.head().head().head().rejects(*input, e));
                    assert(self.head().head().rejects(*input, e));
                    assert(self.head().rejects(*input, e));
                }
                return Err(ParserError::Error(e));
            },
            Err(ParserError::Failure(f)) => {
                proof {
                    assert(self.head().head().head().head().head().p0.accepts(*input, o0, r0)
                        && self.head().head().head().head().head().p1.fails(r0, f));
                    assert(self.head().head().head().head().head().fails(*input, f));
                    assert(self.head().head().head().head().fails(*input, f));
                    assert(self.head().head().head().fails(*input, f));
                    assert(self.head().head().fails(*input, f));
                    assert(self.head().fails(*input, f));
                }
                return Err(ParserError::Failure(f));
            },
        };
        proof {
            let out = (o0, o1);
            assert(self.head().head().head().head().head().p0.accepts(*input, out.0, r0)
                && self.head().head().head().head().head().p1.accepts(
                r0,
                out.1,
                r1,
            ));
        }
        let (o2, r2) = match self.p2.parse(&r1) {
            Ok(x) => x,
            Err(ParserError::Error(e)) => {
                proof {
                    assert(self.head().head().head().head().head().accepts(*input, (o0, o1), r1)
                        && self.head().head().head().head().p2.rejects(r1, e));
                    assert(self.head().head().head().head().rejects(*input, e));
                    assert(self.head().head().head().rejects(*input, e));
                    assert(self.head().head().rejects(*input, e));
                    assert(self.head().rejects(*input, e));
                }
                return Err(ParserError::Error(e));
            },
            Err(ParserError::Failure(f)) => {
                proof {
                    assert(self.head().head().head().head().head().accepts(*input, (o0, o1), r1)
                        && self.head().head().head().head().p2.fails(r1, f));
                    assert(self.head().head().head().head().fails(*input, f));
                    assert(self.head().head().head().fails(*input, f));
                    assert(self.head().head().fails(*input, f));
                    assert(self.head().fails(*input, f));
                }
                return Err(ParserError::Failure(f));
            },
        };
        proof {
            let out = (o0, o1, o2);
            assert(self.head().head().head().head().head().accepts(*input, (out.0, out.1), r1)
                && self.head().head().head().head().p2.accepts(
                r1,
                out.2,
                r2,
            ));
        }
        let (o3, r3) = match self.p3.parse(&r2) {
            Ok(x) => x,
            Err(ParserError::Error(e)) => {
                proof {
                    assert(self.head().head().head().head().accepts(*input, (o0, o1, o2), r2)
                        && self.head().head().head().p3.rejects(r2, e));
                    assert(self.head().head().head().rejects(*input, e));
                    assert(self.head().head().rejects(*input, e));
                    assert(self.head().rejects(*input, e));
                }
                return Err(ParserError::Error(e));
            },
            Err(ParserError::Failure(f)) => {
                proof {
                    assert(self.head().head().head().head().accepts(*input, (o0, o1, o2), r2)
                        && self.head().head().head().p3.fails(r2, f));
                    assert(self.head().head().head().fails(*input, f));
                    assert(self.head().head().fails(*input, f));
                    assert(self.head().fails(*input, f));
                }
                return Err(ParserError::Failure(f));
            },
        };
        proof {
            let out = (o0, o1, o2, o3);
            assert(self.head().head().head().head().accepts(*input, (out.0, out.1, out.2), r2)
                && self.head().head().head().p3.accepts(
                r2,
                out.3,
                r3,
            ));
        }
        let (o4, r4) = match self.p4.parse(&r3) {
            Ok(x) => x,
            Err(ParserError::Error(e)) => {
                proof {
                    assert(self.head().head().head().accepts(*input, (o0, o1, o2, o3), r3)
                        && self.head().head().p4.rejects(r3, e));
                    assert(self.head().head().rejects(*input, e));
                    assert(self.head().rejects(*input, e));
                }
                return Err(ParserError::Error(e));
            },
            Err(ParserError::Failure(f)) => {
                proof {
                    assert(self.head().head().head().accepts(*input, (o0, o1, o2, o3), r3)
                        && self.head().head().p4.fails(r3, f));
                    assert(self.head().head().fails(*input, f));
                    assert(self.head().fails(*input, f));
                }
                return Err(ParserError::Failure(f));
            },
        };
        proof {
            let out = (o0, o1, o2, o3, o4);
            assert(self.head().head().head().accepts(*input, (out.0, out.1, out.2, out.3), r3)
                && self.head().head().p4.accepts(
                r3,
                out.4,
                r4,
            ));
        }
        let (o5, r5) = match self.p5.parse(&r4) {
            Ok(x) => x,
            Err(ParserError::Error(e)) => {
                proof {
                    assert(self.head().head().accepts(*input, (o0, o1, o2, o3, o4), r4)
                        && self.head().p5.rejects(r4, e));
                    assert(self.head().rejects(*input, e));
                }
                return Err(ParserError::Error(e));
            },
            Err(ParserError::Failure(f)) => {
                proof {
                    assert(self.head().head().accepts(*input, (o0, o1, o2, o3, o4), r4)
                        && self.head().p5.fails(r4, f));
                    assert(self.head().fails(*input, f));
                }
                return Err(ParserError::Failure(f));
            },
        };
        proof {
            let out = (o0, o1, o2, o3, o4, o5);
            assert(self.head().head().accepts(*input, (out.0, out.1, out.2, out.3, out.4), r4)
                && self.head().p5.accepts(
                r4,
                out.5,
                r5,
            ));
        }
        let (o6, r6) = match self.p6.parse(&r5) {
            Ok(x) => x,
            Err(ParserError::Error(e)) => {
                proof {
                    assert(self.head().accepts(*input, (o0, o1, o2, o3, o4, o5), r5)
                        && self.p6.rejects(r5, e));
                }
                return Err(ParserError::Error(e));
            },
            Err(ParserError::Failure(f)) => {
                proof {
                    assert(self.head().accepts(*input, (o0, o1, o2, o3, o4, o5), r5)
                        && self.p6.fails(r5, f));
                }
                return Err(ParserError::Failure(f));
            },
        };
        proof {
            let out = (o0, o1, o2, o3, o4, o5, o6);
            assert(self.head().accepts(*input, (out.0, out.1, out.2, out.3, out.4, out.5), r5)
                && self.p6.accepts(
                r5,
                out.6,
                r6,
            ));
        }
        Ok(((o0, o1, o2, o3, o4, o5, o6), r6))
    }
}

impl<P0, P1, P2, P3, P4, P5, P6> Sequence for (P0, P1, P2, P3, P4, P5, P6) {
    type Joined = Chain7<P0, P1, P2, P3, P4, P5, P6>;

    open spec fn separated(&self) -> bool {
        false
    }

    open spec fn joined(self) -> Chain7<P0, P1, P2, P3, P4, P5, P6> {
        Chain7 { p0: self.0, p1: self.1, p2: self.2, p3: self.3, p4: self.4, p5: self.5,
            p6: self.6 }
    }

    fn and(self) -> (r: Chain7<P0, P1, P2, P3, P4, P5, P6>) {
        Chain7 { p0: self.0, p1: self.1, p2: self.2, p3: self.3, p4: self.4, p5: self.5,
            p6: self.6 }
    }
}

/// Eight parsers run one after the other.
pub struct Chain8<P0, P1, P2, P3, P4, P5, P6, P7> {
    pub p0: P0,
    pub p1: P1,
    pub p2: P2,
    pub p3: P3,
    pub p4: P4,
    pub p5: P5,
    pub p6: P6,
    pub p7: P7,
}

impl<P0, P1, P2, P3, P4, P5, P6, P7> Chain8<P0, P1, P2, P3, P4, P5, P6, P7> {
    /// The chain of all but the last parser.
    pub open spec fn head(self) -> Chain7<P0, P1, P2, P3, P4, P5, P6> {
        Chain7 { p0: self.p0, p1: self.p1, p2: self.p2, p3: self.p3, p4: self.p4, p5: self.p5,
            p6: self.p6 }
    }
}

impl<
    I,
    P0: Parser<I>,
    P1: Parser<I, Error = P0::Error, Failure = P0::Failure>,
    P2: Parser<I, Error = P0::Error, Failure = P0::Failure>,
    P3: Parser<I, Error = P0::Error, Failure = P0::Failure>,
    P4: Parser<I, Error = P0::Error, Failure = P0::Failure>,
    P5: Parser<I, Error = P0::Error, Failure = P0::Failure>,
    P6: Parser<I, Error = P0::Error, Failure = P0::Failure>,
    P7: Parser<I, Error = P0::Error, Failure = P0::Failure>,
> Parser<I> for Chain8<P0, P1, P2, P3, P4, P5, P6, P7> {
    type Output = (P0::Output, P1::Output, P2::Output, P3::Output, P4::Output, P5::Output,
        P6::Output, P7::Output);

    type Error = P0::Error;

    type Failure = P0::Failure;

    open spec fn inv(&self) -> bool {
        self.p0.inv() && self.p1.inv() && self.p2.inv() && self.p3.inv() && self.p4.inv()
            && self.p5.inv() && self.p6.inv() && self.p7.inv()
    }

    open spec fn accepts(&self, input: I, out: (P0::Output, P1::Output, P2::Output, P3::Output,
        P4::Output, P5::Output, P6::Output, P7::Output), rest: I) -> bool {
        exists|mid: I| #[trigger]
            self.head().accepts(input, (out.0, out.1, out.2, out.3, out.4, out.5, out.6), mid)
                && self.p7.accepts(mid, out.7, rest)
    }

    open spec fn rejects(&self, input: I, e: P0::Error) -> bool {
        ||| self.head().rejects(input, e)
        ||| exists|o: (P0::Output, P1::Output, P2::Output, P3::Output, P4::Output, P5::Output,
            P6::Output), mid: I| #[trigger]
            self.head().accepts(input, o, mid) && self.p7.rejects(mid, e)
    }

    open spec fn fails(&self, input: I, f: P0::Failure) -> bool {
        ||| self.head().fails(input, f)
        ||| exists|o: (P0::Output, P1::Output, P2::Output, P3::Output, P4::Output, P5::Output,
            P6::Output), mid: I| #[trigger]
            self.head().accepts(input, o, mid) && self.p7.fails(mid, f)
    }

    fn parse(&self, input: &I) -> (r: ParserResult<I, (P0::Output, P1::Output, P2::Output,
        P3::Output, P4::Output, P5::Output, P6::Output, P7::Output), P0::Error, P0::Failure>) {
        let (o0, r0) = match self.p0.parse(input) {
            Ok(x) => x,
            Err(ParserError::Error(e)) => {
                proof {
                    assert(self.head().head().head().head().head().head().rejects(*input, e));
                    assert(self.head().head().head().head().head().rejects(*input, e));
                    assert(self.head().head().head().head().rejects(*input, e));
                    assert(self.head().head().head().rejects(*input, e));
                    assert(self.head().head().rejects(*input, e));
                    assert(self.head().rejects(*input, e));
                }
                return Err(ParserError::Error(e));
            },
            Err(ParserError::Failure(f)) => {
                proof {
                    assert(self.head().head().head().head().head().head().fails(*input, f));
                    assert(self.head().head().head().head().head().fails(*input, f));
                    assert(self.head().head().head().head().fails(*input, f));
                    assert(self.head().head().head().fails(*input, f));
                    assert(self.head().head().fails(*input, f));
                    assert(self.head().fails(*input, f));
                }
                return Err(ParserError::Failure(f));
            },
        };
        let (o1, r1) = match self.p1.parse(&r0) {
            Ok(x) => x,
            Err(ParserError::Error(e)) => {
                proof {
                    assert(self.head().head().head().head().head().head().p0.accepts(*input, o0,
                        r0) && self.head().head().head().head().head().head().p1.rejects(r0, e));
                    assert(self.head().head().head().head().head().head().rejects(*input, e));
                    assert(self.head().head().head().head().head().rejects(*input, e));
                    assert(self.head().head().head().head().rejects(*input, e));
                    assert(self.head().head().head().rejects(*input, e));
                    assert(self.head().head().rejects(*input, e));
                    assert(self.head().rejects(*input, e));
                }
                return Err(ParserError::Error(e));
            },
            Err(ParserError::Failure(f)) => {
                proof {
                    assert(self.head().head().head().head().head().head().p0.accepts(*input, o0,
                        r0) && self.head().head().head().head().head().head().p1.fails(r0, f));
                    assert(self.head().head().head().head().head().head().fails(*input, f));
                    assert(self.head().head().head().head().head().fails(*input, f));
                    assert(self.head().head().head().head().fails(*input, f));
                    assert(self.head().head().head().fails(*input, f));
                    assert(self.head().head().fails(*input, f));
                    assert(self.head().fails(*input, f));
                }
                return Err(ParserError::Failure(f));
            },
        };
        proof {
            let out = (o0, o1);
            assert(self.head().head().head().head().head().head().p0.accepts(*input, out.0, r0)
                && self.head().head().head().head().head().head().p1.accepts(
                r0,
                out.1,
                r1,
            ));
        }
        let (o2, r2) = match self.p2.parse(&r1) {
            Ok(x) => x,
            Err(ParserError::Error(e)) => {
                proof {
                    assert(self.head().head().head().head().head().head().accepts(*input, (o0, o1),
                        r1) && self.head().head().head().head().head().p2.rejects(r1, e));
                    assert(self.head().head().head().head().head().rejects(*input, e));
                    assert(self.head().head().head().head().rejects(*input, e));
                    assert(self.head().head().head().rejects(*input, e));
                    assert(self.head().head().rejects(*input, e));
                    assert(self.head().rejects(*input, e));
                }
                return Err(ParserError::Error(e));
            },
            Err(ParserError::Failure(f)) => {
                proof {
                    assert(self.head().head().head().head().head().head().accepts(*input, (o0, o1),
                        r1) && self.head().head().head().head().head().p2.fails(r1, f));
                    assert(self.head().head().head().head().head().fails(*input, f));
                    assert(self.head().head().head().head().fails(*input, f));
                    assert(self.head().head().head().fails(*input, f));
                    assert(self.head().head().fails(*input, f));
                    assert(self.head().fails(*input, f));
                }
                return Err(ParserError::Failure(f));
            },
        };
        proof {
            let out = (o0, o1, o2);
            assert(self.head().head().head().head().head().head().accepts(*input, (out.0, out.1),
                r1) && self.head().head().head().head().head().p2.accepts(
                r1,
                out.2,
                r2,
            ));
        }
        let (o3, r3) = match self.p3.parse(&r2) {
            Ok(x) => x,
            Err(ParserError::Error(e)) => {
                proof {
                    assert(self.head().head().head().head().head().accepts(*input, (o0, o1, o2),
                        r2) && self.head().head().head().head().p3.rejects(r2, e));
                    assert(self.head().head().head().head().rejects(*input, e));
                    assert(self.head().head().head().rejects(*input, e));
                    assert(self.head().head().rejects(*input, e));
                    assert(self.head().rejects(*input, e));
                }
                return Err(ParserError::Error(e));
            },
            Err(ParserError::Failure(f)) => {
                proof {
                    assert(self.head().head().head().head().head().accepts(*input, (o0, o1, o2),
                        r2) && self.head().head().head().head().p3.fails(r2, f));
                    assert(self.head().head().head().head().fails(*input, f));
                    assert(self.head().head().head().fails(*input, f));
                    assert(self.head().head().fails(*input, f));
                    assert(self.head().fails(*input, f));
                }
                return Err(ParserError::Failure(f));
            },
        };
        proof {
            let out = (o0, o1, o2, o3);
            assert(self.head().head().head().head().head().accepts(*input, (out.0, out.1, out.2),
                r2) && self.head().head().head().head().p3.accepts(
                r2,
                out.3,
                r3,
            ));
        }
        let (o4, r4) = match self.p4.parse(&r3) {
            Ok(x) => x,
            Err(ParserError::Error(e)) => {
                proof {
                    assert(self.head().head().head().head().accepts(*input, (o0, o1, o2, o3), r3)
                        && self.head().head().head().p4.rejects(r3, e));
                    assert(self.head().head().head().rejects(*input, e));
                    assert(self.head().head().rejects(*input, e));
                    assert(self.head().rejects(*input, e));
                }
                return Err(ParserError::Error(e));
            },
            Err(ParserError::Failure(f)) => {
                proof {
                    assert(self.head().head().head().head().accepts(*input, (o0, o1, o2, o3), r3)
                        && self.head().head().head().p4.fails(r3, f));
                    assert(self.head().head().head().fails(*input, f));
                    assert(self.head().head().fails(*input, f));
                    assert(self.head().fails(*input, f));
                }
                return Err(ParserError::Failure(f));
            },
        };
        proof {
            let out = (o0, o1, o2, o3, o4);
            assert(self.head().head().head().head().accepts(*input, (out.0, out.1, out.2, out.3),
                r3) && self.head().head().head().p4.accepts(
                r3,
                out.4,
                r4,
            ));
        }
        let (o5, r5) = match self.p5.parse(&r4) {
            Ok(x) => x,
            Err(ParserError::Error(e)) => {
                proof {
                    assert(self.head().head().head().accepts(*input, (o0, o1, o2, o3, o4), r4)
                        && self.head().head().p5.rejects(r4, e));
                    assert(self.head().head().rejects(*input, e));
                    assert(self.head().rejects(*input, e));
                }
                return Err(ParserError::Error(e));
            },
            Err(ParserError::Failure(f)) => {
                proof {
                    assert(self.head().head().head().accepts(*input, (o0, o1, o2, o3, o4), r4)
                        && self.head().head().p5.fails(r4, f));
                    assert(self.head().head().fails(*input, f));
                    assert(self.head().fails(*input, f));
                }
                return Err(ParserError::Failure(f));
            },
        };
        proof {
            let out = (o0, o1, o2, o3, o4, o5);
            assert(self.head().head().head().accepts(*input, (out.0, out.1, out.2, out.3, out.4),
                r4) && self.head().head().p5.accepts(
                r4,
                out.5,
                r5,
            ));
        }
        let (o6, r6) = match self.p6.parse(&r5) {
            Ok(x) => x,
            Err(ParserError::Error(e)) => {
                proof {
                    assert(self.head().head().accepts(*input, (o0, o1, o2, o3, o4, o5), r5)
                        && self.head().p6.rejects(r5, e));
                    assert(self.head().rejects(*input, e));
                }
                return Err(ParserError::Error(e));
            },
            Err(ParserError::Failure(f)) => {
                proof {
                    assert(self.head().head().accepts(*input, (o0, o1, o2, o3, o4, o5), r5)
                        && self.head().p6.fails(r5, f));
                    assert(self.head().fails(*input, f));
                }
                return Err(ParserError::Failure(f));
            },
        };
        proof {
            let out = (o0, o1, o2, o3, o4, o5, o6);
            assert(self.head().head().accepts(*input, (out.0, out.1, out.2, out.3, out.4, out.5),
                r5) && self.head().p6.accepts(
                r5,
                out.6,
                r6,
            ));
        }
        let (o7, r7) = match self.p7.parse(&r6) {
            Ok(x) => x,
            Err(ParserError::Error(e)) => {
                proof {
                    assert(self.head().accepts(*input, (o0, o1, o2, o3, o4, o5, o6), r6)
                        && self.p7.rejects(r6, e));
                }
                return Err(ParserError::Error(e));
            },
            Err(ParserError::Failure(f)) => {
                proof {
                    assert(self.head().accepts(*input, (o0, o1, o2, o3, o4, o5, o6), r6)
                        && self.p7.fails(r6, f));
                }
                return Err(ParserError::Failure(f));
            },
        };
        proof {
            let out = (o0, o1, o2, o3, o4, o5, o6, o7);
            assert(self.head().accepts(*input, (out.0, out.1, out.2, out.3, out.4, out.5, out.6),
                r6) && self.p7.accepts(
                r6,
                out.7,
                r7,
            ));
        }
        Ok(((o0, o1, o2, o3, o4, o5, o6, o7), r7))
    }
}

impl<P0, P1, P2, P3, P4, P5, P6, P7> Sequence for (P0, P1, P2, P3, P4, P5, P6, P7) {
    type Joined = Chain8<P0, P1, P2, P3, P4, P5, P6, P7>;

    open spec fn separated(&self) -> bool {
        false
    }

    open spec fn joined(self) -> Chain8<P0, P1, P2, P3, P4, P5, P6, P7> {
        Chain8 { p0: self.0, p1: self.1, p2: self.2, p3: self.3, p4: self.4, p5: self.5, p6: self.6,
            p7: self.7 }
    }

    fn and(self) -> (r: Chain8<P0, P1, P2, P3, P4, P5, P6, P7>) {
        Chain8 { p0: self.0, p1: self.1, p2: self.2, p3: self.3, p4: self.4, p5: self.5, p6: self.6,
            p7: self.7 }
    }
}

/// Two parsers run one after the other, with a separator between each two of them.
pub struct SeparatedChain2<S, P0, P1> {
    pub sep: S,
    pub p0: P0,
    pub p1: P1,
}


impl<
    I,
    P0: Parser<I>,
    P1: Parser<I, Error = P0::Error, Failure = P0::Failure>,
    S: Parser<I, Error = P0::Error, Failure = P0::Failure>,
> Parser<I> for SeparatedChain2<S, P0, P1> {
    type Output = (P0::Output, P1::Output);

    type Error = P0::Error;

    type Failure = P0::Failure;

    open spec fn inv(&self) -> bool {
        self.sep.inv() && self.p0.inv() && self.p1.inv()
    }

    open spec fn accepts(&self, input: I, out: (P0::Output, P1::Output), rest: I) -> bool {
        exists|mid: I, s: S::Output, next: I|
            self.p0.accepts(input, out.0, mid) && #[trigger] self.sep.accepts(mid, s, next)
                && self.p1.accepts(next, out.1, rest)
    }

    open spec fn rejects(&self, input: I, e: P0::Error) -> bool {
        ||| self.p0.rejects(input, e)
        ||| exists|o: P0::Output, mid: I| #[trigger]
            self.p0.accepts(input, o, mid) && self.sep.rejects(mid, e)
        ||| exists|o: P0::Output, mid: I, s: S::Output, next: I|
            #![trigger self.p0.accepts(input, o, mid), self.sep.accepts(mid, s, next)]
            self.p0.accepts(input, o, mid) && self.sep.accepts(mid, s, next) && self.p1.rejects(
                next,
                e,
            )
    }

    open spec fn fails(&self, input: I, f: P0::Failure) -> bool {
        ||| self.p0.fails(input, f)
        ||| exists|o: P0::Output, mid: I| #[trigger]
            self.p0.accepts(input, o, mid) && self.sep.fails(mid, f)
        ||| exists|o: P0::Output, mid: I, s: S::Output, next: I|
            #![trigger self.p0.accepts(input, o, mid), self.sep.accepts(mid, s, next)]
            self.p0.accepts(input, o, mid) && self.sep.accepts(mid, s, next) && self.p1.fails(
                next,
                f,
            )
    }

    fn parse(&self, input: &I) -> (r: ParserResult<I, (P0::Output, P1::Output), P0::Error,
        P0::Failure>) {
        let (o0, r0) = match self.p0.parse(input) {
            Ok(x) => x,
            Err(e) => {
                return Err(e);
            },
        };
        let (s1, n1) = match self.sep.parse(&r0) {
            Ok(x) => x,
            Err(ParserError::Error(e)) => {
                proof {
                    assert(self.p0.accepts(*input, o0, r0) && self.sep.rejects(r0, e));
                }
                return Err(ParserError::Error(e));
            },
            Err(ParserError::Failure(f)) => {
                proof {
                    assert(self.p0.accepts(*input, o0, r0) && self.sep.fails(r0, f));
                }
                return Err(ParserError::Failure(f));
            },
        };
        let (o1, r1) = match self.p1.parse(&n1) {
            Ok(x) => x,
            Err(ParserError::Error(e)) => {
                proof {
                    assert(self.p0.accepts(*input, o0, r0) && self.sep.accepts(r0, s1, n1)
                        && self.p1.rejects(n1, e));
                }
                return Err(ParserError::Error(e));
            },
            Err(ParserError::Failure(f)) => {
                proof {
                    assert(self.p0.accepts(*input, o0, r0) && self.sep.accepts(r0, s1, n1)
                        && self.p1.fails(n1, f));
                }
                return Err(ParserError::Failure(f));
            },
        };
        proof {
            let out = (o0, o1);
            assert(self.p0.accepts(*input, out.0, r0) && self.sep.accepts(r0, s1, n1)
                && self.p1.accepts(n1, out.1, r1));
        }
        Ok(((o0, o1), r1))
    }
}

impl<S, P0, P1> Sequence for SeparatedSequence<(P0, P1), S> {
    type Joined = SeparatedChain2<S, P0, P1>;

    open spec fn separated(&self) -> bool {
        true
    }

    open spec fn joined(self) -> SeparatedChain2<S, P0, P1> {
        SeparatedChain2 { sep: self.sep, p0: self.seq.0, p1: self.seq.1 }
    }

    fn and(self) -> (r: SeparatedChain2<S, P0, P1>) {
        SeparatedChain2 { sep: self.sep, p0: self.seq.0, p1: self.seq.1 }
    }
}


/// Three parsers run one after the other, with a separator between each two of them.
pub struct SeparatedChain3<S, P0, P1, P2> {
    pub sep: S,
    pub p0: P0,
    pub p1: P1,
    pub p2: P2,
}


impl<S, P0, P1, P2> SeparatedChain3<S, P0, P1, P2> {
    /// The chain of all but the last parser.
    pub open spec fn head(self) -> SeparatedChain2<S, P0, P1> {
        SeparatedChain2 { sep: self.sep, p0: self.p0, p1: self.p1 }
    }
}


impl<
    I,
    P0: Parser<I>,
    P1: Parser<I, Error = P0::Error, Failure = P0::Failure>,
    P2: Parser<I, Error = P0::Error, Failure = P0::Failure>,
    S: Parser<I, Error = P0::Error, Failure = P0::Failure>,
> Parser<I> for SeparatedChain3<S, P0, P1, P2> {
    type Output = (P0::Output, P1::Output, P2::Output);

    type Error = P0::Error;

    type Failure = P0::Failure;

    open spec fn inv(&self) -> bool {
        self.sep.inv() && self.p0.inv() && self.p1.inv() && self.p2.inv()
    }

    open spec fn accepts(&self, input: I, out: (P0::Output, P1::Output, P2::Output),
        rest: I) -> bool {
        exists|mid: I, s: S::Output, next: I|
            self.head().accepts(input, (out.0, out.1), mid) && #[trigger] self.sep.accepts(mid, s,
                next)
                && self.p2.accepts(next, out.2, rest)
    }

    open spec fn rejects(&self, input: I, e: P0::Error) -> bool {
        ||| self.head().rejects(input, e)
        ||| exists|o: (P0::Output, P1::Output), mid: I| #[trigger]
            self.head().accepts(input, o, mid) && self.sep.rejects(mid, e)
        ||| exists|o: (P0::Output, P1::Output), mid: I, s: S::Output, next: I|
            #![trigger self.head().accepts(input, o, mid), self.sep.accepts(mid, s, next)]
            self.head().accepts(input, o, mid) && self.sep.accepts(mid, s, next) && self.p2.rejects(
                next,
                e,
            )
    }

    open spec fn fails(&self, input: I, f: P0::Failure) -> bool {
        ||| self.head().fails(input, f)
        ||| exists|o: (P0::Output, P1::Output), mid: I| #[trigger]
            self.head().accepts(input, o, mid) && self.sep.fails(mid, f)
        ||| exists|o: (P0::Output, P1::Output), mid: I, s: S::Output, next: I|
            #![trigger self.head().accepts(input, o, mid), self.sep.accepts(mid, s, next)]
            self.head().accepts(input, o, mid) && self.sep.accepts(mid, s, next) && self.p2.fails(
                next,
                f,
            )
    }

    fn parse(&self, input: &I) -> (r: ParserResult<I, (P0::Output, P1::Output, P2::Output),
        P0::Error, P0::Failure>) {
        let (o0, r0) = match self.p0.parse(input) {
            Ok(x) => x,
            Err(e) => {
                return Err(e);
            },
        };
        let (s1, n1) = match self.sep.parse(&r0) {
            Ok(x) => x,
            Err(ParserError::Error(e)) => {
                proof {
                    assert(self.head().p0.accepts(*input, o0, r0) && self.head().sep.rejects(r0,
                        e));
                }
                return Err(ParserError::Error(e));
            },
            Err(ParserError::Failure(f)) => {
                proof {
                    assert(self.head().p0.accepts(*input, o0, r0) && self.head().sep.fails(r0, f));
                }
                return Err(ParserError::Failure(f));
            },
        };
        let (o1, r1) = match self.p1.parse(&n1) {
            Ok(x) => x,
            Err(ParserError::Error(e)) => {
                proof {
                    assert(self.head().p0.accepts(*input, o0, r0) && self.head().sep.accepts(r0, s1,
                        n1) && self.head().p1.rejects(n1, e));
                }
                return Err(ParserError::Error(e));
            },
            Err(ParserError::Failure(f)) => {
                proof {
                    assert(self.head().p0.accepts(*input, o0, r0) && self.head().sep.accepts(r0, s1,
                        n1) && self.head().p1.fails(n1, f));
                }
                return Err(ParserError::Failure(f));
            },
        };
        proof {
            let out = (o0, o1);
            assert(self.head().p0.accepts(*input, out.0, r0) && self.head().sep.accepts(r0, s1, n1)
                && self.head().p1.accepts(n1, out.1, r1));
        }
        let (s2, n2) = match self.sep.parse(&r1) {
            Ok(x) => x,
            Err(ParserError::Error(e)) => {
                proof {
                    assert(self.head().accepts(*input, (o0, o1), r1) && self.sep.rejects(r1, e));
                }
                return Err(ParserError::Error(e));
            },
            Err(ParserError::Failure(f)) => {
                proof {
                    assert(self.head().accepts(*input, (o0, o1), r1) && self.sep.fails(r1, f));
                }
                return Err(ParserError::Failure(f));
            },
        };
        let (o2, r2) = match self.p2.parse(&n2) {
            Ok(x) => x,
            Err(ParserError::Error(e)) => {
                proof {
                    assert(self.head().accepts(*input, (o0, o1), r1) && self.sep.accepts(r1, s2,
                        n2) && self.p2.rejects(n2, e));
                }
                return Err(ParserError::Error(e));
            },
            Err(ParserError::Failure(f)) => {
                proof {
                    assert(self.head().accepts(*input, (o0, o1), r1) && self.sep.accepts(r1, s2,
                        n2) && self.p2.fails(n2, f));
                }
                return Err(ParserError::Failure(f));
            },
        };
        proof {
            let out = (o0, o1, o2);
            assert(self.head().accepts(*input, (out.0, out.1), r1) && self.sep.accepts(r1, s2, n2)
                && self.p2.accepts(n2, out.2, r2));
        }
        Ok(((o0, o1, o2), r2))
    }
}

impl<S, P0, P1, P2> Sequence for SeparatedSequence<(P0, P1, P2), S> {
    type Joined = SeparatedChain3<S, P0, P1, P2>;

    open spec fn separated(&self) -> bool {
        true
    }

    open spec fn joined(self) -> SeparatedChain3<S, P0, P1, P2> {
        SeparatedChain3 { sep: self.sep, p0: self.seq.0, p1: self.seq.1, p2: self.seq.2 }
    }

    fn and(self) -> (r: SeparatedChain3<S, P0, P1, P2>) {
        SeparatedChain3 { sep: self.sep, p0: self.seq.0, p1: self.seq.1, p2: self.seq.2 }
    }
}


/// Four parsers run one after the other, with a separator between each two of them.
pub struct SeparatedChain4<S, P0, P1, P2, P3> {
    pub sep: S,
    pub p0: P0,
    pub p1: P1,
    pub p2: P2,
    pub p3: P3,
}


impl<S, P0, P1, P2, P3> SeparatedChain4<S, P0, P1, P2, P3> {
    /// The chain of all but the last parser.
    pub open spec fn head(self) -> SeparatedChain3<S, P0, P1, P2> {
        SeparatedChain3 { sep: self.sep, p0: self.p0, p1: self.p1, p2: self.p2 }
    }
}


impl<
    I,
    P0: Parser<I>,
    P1: Parser<I, Error = P0::Error, Failure = P0::Failure>,
    P2: Parser<I, Error = P0::Error, Failure = P0::Failure>,
    P3: Parser<I, Error = P0::Error, Failure = P0::Failure>,
    S: Parser<I, Error = P0::Error, Failure = P0::Failure>,
> Parser<I> for SeparatedChain4<S, P0, P1, P2, P3> {
    type Output = (P0::Output, P1::Output, P2::Output, P3::Output);

    type Error = P0::Error;

    type Failure = P0::Failure;

    open spec fn inv(&self) -> bool {
        self.sep.inv() && self.p0.inv() && self.p1.inv() && self.p2.inv() && self.p3.inv()
    }

    open spec fn accepts(&self, input: I, out: (P0::Output, P1::Output, P2::Output, P3::Output),
        rest: I) -> bool {
        exists|mid: I, s: S::Output, next: I|
            self.head().accepts(input, (out.0, out.1, out.2), mid)
                && #[trigger] self.sep.accepts(mid, s, next)
                && self.p3.accepts(next, out.3, rest)
    }

    open spec fn rejects(&self, input: I, e: P0::Error) -> bool {
        ||| self.head().rejects(input, e)
        ||| exists|o: (P0::Output, P1::Output, P2::Output), mid: I| #[trigger]
            self.head().accepts(input, o, mid) && self.sep.rejects(mid, e)
        ||| exists|o: (P0::Output, P1::Output, P2::Output), mid: I, s: S::Output, next: I|
            #![trigger self.head().accepts(input, o, mid), self.sep.accepts(mid, s, next)]
            self.head().accepts(input, o, mid) && self.sep.accepts(mid, s, next) && self.p3.rejects(
                next,
                e,
            )
    }

    open spec fn fails(&self, input: I, f: P0::Failure) -> bool {
        ||| self.head().fails(input, f)
        ||| exists|o: (P0::Output, P1::Output, P2::Output), mid: I| #[trigger]
            self.head().accepts(input, o, mid) && self.sep.fails(mid, f)
        ||| exists|o: (P0::Output, P1::Output, P2::Output), mid: I, s: S::Output, next: I|
            #![trigger self.head().accepts(input, o, mid), self.sep.accepts(mid, s, next)]
            self.head().accepts(input, o, mid) && self.sep.accepts(mid, s, next) && self.p3.fails(
                next,
                f,
            )
    }

    fn parse(&self, input: &I) -> (r: ParserResult<I, (P0::Output, P1::Output, P2::Output,
        P3::Output), P0::Error, P0::Failure>) {
        let (o0, r0) = match self.p0.parse(input) {
            Ok(x) => x,
            Err(e) => {
                return Err(e);
            },
        };
        let (s1, n1) = match self.sep.parse(&r0) {
            Ok(x) => x,
            Err(ParserError::Error(e)) => {
                proof {
                    assert(self.head().head().p0.accepts(*input, o0, r0)
                        && self.head().head().sep.rejects(r0, e));
                    assert(self.head().rejects(*input, e));
                }
                return Err(ParserError::Error(e));
            },
            Err(ParserError::Failure(f)) => {
                proof {
                    assert(self.head().head().p0.accepts(*input, o0, r0)
                        && self.head().head().sep.fails(r0, f));
                    assert(self.head().fails(*input, f));
                }
                return Err(ParserError::Failure(f));
            },
        };
        let (o1, r1) = match self.p1.parse(&n1) {
            Ok(x) => x,
            Err(ParserError::Error(e)) => {
                proof {
                    assert(self.head().head().p0.accepts(*input, o0, r0)
                        && self.head().head().sep.accepts(r0, s1, n1)
                        && self.head().head().p1.rejects(n1, e));
                    assert(self.head().rejects(*input, e));
                }
                return Err(ParserError::Error(e));
            },
            Err(ParserError::Failure(f)) => {
                proof {
                    assert(self.head().head().p0.accepts(*input, o0, r0)
                        && self.head().head().sep.accepts(r0, s1, n1)
                        && self.head().head().p1.fails(n1, f));
                    assert(self.head().fails(*input, f));
                }
                return Err(ParserError::Failure(f));
            },
        };
        proof {
            let out = (o0, o1);
            assert(self.head().head().p0.accepts(*input, out.0, r0)
                && self.head().head().sep.accepts(r0, s1, n1)
                && self.head().head().p1.accepts(n1, out.1, r1));
        }
        let (s2, n2) = match self.sep.parse(&r1) {
            Ok(x) => x,
            Err(ParserError::Error(e)) => {
                proof {
                    assert(self.head().head().accepts(*input, (o0, o1), r1)
                        && self.head().sep.rejects(r1, e));
                }
                return Err(ParserError::Error(e));
            },
            Err(ParserError::Failure(f)) => {
                proof {
                    assert(self.head().head().accepts(*input, (o0, o1), r1)
                        && self.head().sep.fails(r1, f));
                }
                return Err(ParserError::Failure(f));
            },
        };
        let (o2, r2) = match self.p2.parse(&n2) {
            Ok(x) => x,
            Err(ParserError::Error(e)) => {
                proof {
                    assert(self.head().head().accepts(*input, (o0, o1), r1)
                        && self.head().sep.accepts(r1, s2, n2) && self.head().p2.rejects(n2, e));
                }
                return Err(ParserError::Error(e));
            },
            Err(ParserError::Failure(f)) => {
                proof {
                    assert(self.head().head().accepts(*input, (o0, o1), r1)
                        && self.head().sep.accepts(r1, s2, n2) && self.head().p2.fails(n2, f));
                }
                return Err(ParserError::Failure(f));
            },
        };
        proof {
            let out = (o0, o1, o2);
            assert(self.head().head().accepts(*input, (out.0, out.1), r1)
                && self.head().sep.accepts(r1, s2, n2)
                && self.head().p2.accepts(n2, out.2, r2));
        }
        let (s3, n3) = match self.sep.parse(&r2) {
            Ok(x) => x,
            Err(ParserError::Error(e)) => {
                proof {
                    assert(self.head().accepts(*input, (o0, o1, o2), r2) && self.sep.rejects(r2,
                        e));
                }
                return Err(ParserError::Error(e));
            },
            Err(ParserError::Failure(f)) => {
                proof {
                    assert(self.head().accepts(*input, (o0, o1, o2), r2) && self.sep.fails(r2, f));
                }
                return Err(ParserError::Failure(f));
            },
        };
        let (o3, r3) = match self.p3.parse(&n3) {
            Ok(x) => x,
            Err(ParserError::Error(e)) => {
                proof {
                    assert(self.head().accepts(*input, (o0, o1, o2), r2) && self.sep.accepts(r2, s3,
                        n3) && self.p3.rejects(n3, e));
                }
                return Err(ParserError::Error(e));
            },
            Err(ParserError::Failure(f)) => {
                proof {
                    assert(self.head().accepts(*input, (o0, o1, o2), r2) && self.sep.accepts(r2, s3,
                        n3) && self.p3.fails(n3, f));
                }
                return Err(ParserError::Failure(f));
            },
        };
        proof {
            let out = (o0, o1, o2, o3);
            assert(self.head().accepts(*input, (out.0, out.1, out.2), r2) && self.sep.accepts(r2,
                s3, n3)
                && self.p3.accepts(n3, out.3, r3));
        }
        Ok(((o0, o1, o2, o3), r3))
    }
}

impl<S, P0, P1, P2, P3> Sequence for SeparatedSequence<(P0, P1, P2, P3), S> {
    type Joined = SeparatedChain4<S, P0, P1, P2, P3>;

    open spec fn separated(&self) -> bool {
        true
    }

    open spec fn joined(self) -> SeparatedChain4<S, P0, P1, P2, P3> {
        SeparatedChain4 { sep: self.sep, p0: self.seq.0, p1: self.seq.1, p2: self.seq.2,
            p3: self.seq.3 }
    }

    fn and(self) -> (r: SeparatedChain4<S, P0, P1, P2, P3>) {
        SeparatedChain4 { sep: self.sep, p0: self.seq.0, p1: self.seq.1, p2: self.seq.2,
            p3: self.seq.3 }
    }
}


/// Five parsers run one after the other, with a separator between each two of them.
pub struct SeparatedChain5<S, P0, P1, P2, P3, P4> {
    pub sep: S,
    pub p0: P0,
    pub p1: P1,
    pub p2: P2,
    pub p3: P3,
    pub p4: P4,
}


impl<S, P0, P1, P2, P3, P4> SeparatedChain5<S, P0, P1, P2, P3, P4> {
    /// The chain of all but the last parser.
    pub open spec fn head(self) -> SeparatedChain4<S, P0, P1, P2, P3> {
        SeparatedChain4 { sep: self.sep, p0: self.p0, p1: self.p1, p2: self.p2, p3: self.p3 }
    }
}


impl<
    I,
    P0: Parser<I>,
    P1: Parser<I, Error = P0::Error, Failure = P0::Failure>,
    P2: Parser<I, Error = P0::Error, Failure = P0::Failure>,
    P3: Parser<I, Error = P0::Error, Failure = P0::Failure>,
    P4: Parser<I, Error = P0::Error, Failure = P0::Failure>,
    S: Parser<I, Error = P0::Error, Failure = P0::Failure>,
> Parser<I> for SeparatedChain5<S, P0, P1, P2, P3, P4> {
    type Output = (P0::Output, P1::Output, P2::Output, P3::Output, P4::Output);

    type Error = P0::Error;

    type Failure = P0::Failure;

    open spec fn inv(&self) -> bool {
        self.sep.inv() && self.p0.inv() && self.p1.inv() && self.p2.inv() && self.p3.inv()
            && self.p4.inv()
    }

    open spec fn accepts(&self, input: I, out: (P0::Output, P1::Output, P2::Output, P3::Output,
        P4::Output), rest: I) -> bool {
        exists|mid: I, s: S::Output, next: I|
            self.head().accepts(input, (out.0, out.1, out.2, out.3), mid)
                && #[trigger] self.sep.accepts(mid, s, next)
                && self.p4.accepts(next, out.4, rest)
    }

    open spec fn rejects(&self, input: I, e: P0::Error) -> bool {
        ||| self.head().rejects(input, e)
        ||| exists|o: (P0::Output, P1::Output, P2::Output, P3::Output), mid: I| #[trigger]
            self.head().accepts(input, o, mid) && self.sep.rejects(mid, e)
        ||| exists|o: (P0::Output, P1::Output, P2::Output, P3::Output), mid: I, s: S::Output,
            next: I|
            #![trigger self.head().accepts(input, o, mid), self.sep.accepts(mid, s, next)]
            self.head().accepts(input, o, mid) && self.sep.accepts(mid, s, next) && self.p4.rejects(
                next,
                e,
            )
    }

    open spec fn fails(&self, input: I, f: P0::Failure) -> bool {
        ||| self.head().fails(input, f)
        ||| exists|o: (P0::Output, P1::Output, P2::Output, P3::Output), mid: I| #[trigger]
            self.head().accepts(input, o, mid) && self.sep.fails(mid, f)
        ||| exists|o: (P0::Output, P1::Output, P2::Output, P3::Output), mid: I, s: S::Output,
            next: I|
            #![trigger self.head().accepts(input, o, mid), self.sep.accepts(mid, s, next)]
            self.head().accepts(input, o, mid) && self.sep.accepts(mid, s, next) && self.p4.fails(
                next,
                f,
            )
    }

    fn parse(&self, input: &I) -> (r: ParserResult<I, (P0::Output, P1::Output, P2::Output,
        P3::Output, P4::Output), P0::Error, P0::Failure>) {
        let (o0, r0) = match self.p0.parse(input) {
            Ok(x) => x,
            Err(e) => {
                return Err(e);
            },
        };
        let (s1, n1) = match self.sep.parse(&r0) {
            Ok(x) => x,
            Err(ParserError::Error(e)) => {
                proof {
                    assert(self.head().head().head().p0.accepts(*input, o0, r0)
                        && self.head().head().head().sep.rejects(r0, e));
                    assert(self.head().head().rejects(*input, e));
                    assert(self.head().rejects(*input, e));
                }
                return Err(ParserError::Error(e));
            },
            Err(ParserError::Failure(f)) => {
                proof {
                    assert(self.head().head().head().p0.accepts(*input, o0, r0)
                        && self.head().head().head().sep.fails(r0, f));
                    assert(self.head().head().fails(*input, f));
                    assert(self.head().fails(*input, f));
                }
                return Err(ParserError::Failure(f));
            },
        };
        let (o1, r1) = match self.p1.parse(&n1) {
            Ok(x) => x,
            Err(ParserError::Error(e)) => {
                proof {
                    assert(self.head().head().head().p0.accepts(*input, o0, r0)
                        && self.head().head().head().sep.accepts(r0, s1, n1)
                        && self.head().head().head().p1.rejects(n1, e));
                    assert(self.head().head().rejects(*input, e));
                    assert(self.head().rejects(*input, e));
                }
                return Err(ParserError::Error(e));
            },
            Err(ParserError::Failure(f)) => {
                proof {
                    assert(self.head().head().head().p0.accepts(*input, o0, r0)
                        && self.head().head().head().sep.accepts(r0, s1, n1)
                        && self.head().head().head().p1.fails(n1, f));
                    assert(self.head().head().fails(*input, f));
                    assert(self.head().fails(*input, f));
                }
                return Err(ParserError::Failure(f));
            },
        };
        proof {
            let out = (o0, o1);
            assert(self.head().head().head().p0.accepts(*input, out.0, r0)
                && self.head().head().head().sep.accepts(r0, s1, n1)
                && self.head().head().head().p1.accepts(n1, out.1, r1));
        }
        let (s2, n2) = match self.sep.parse(&r1) {
            Ok(x) => x,
            Err(ParserError::Error(e)) => {
                proof {
                    assert(self.head().head().head().accepts(*input, (o0, o1), r1)
                        && self.head().head().sep.rejects(r1, e));
                    assert(self.head().rejects(*input, e));
                }
                return Err(ParserError::Error(e));
            },
            Err(ParserError::Failure(f)) => {
                proof {
                    assert(self.head().head().head().accepts(*input, (o0, o1), r1)
                        && self.head().head().sep.fails(r1, f));
                    assert(self.head().fails(*input, f));
                }
                return Err(ParserError::Failure(f));
            },
        };
        let (o2, r2) = match self.p2.parse(&n2) {
            Ok(x) => x,
            Err(ParserError::Error(e)) => {
                proof {
                    assert(self.head().head().head().accepts(*input, (o0, o1), r1)
                        && self.head().head().sep.accepts(r1, s2, n2)
                        && self.head().head().p2.rejects(n2, e));
                    assert(self.head().rejects(*input, e));
                }
                return Err(ParserError::Error(e));
            },
            Err(ParserError::Failure(f)) => {
                proof {
                    assert(self.head().head().head().accepts(*input, (o0, o1), r1)
                        && self.head().head().sep.accepts(r1, s2, n2)
                        && self.head().head().p2.fails(n2, f));
                    assert(self.head().fails(*input, f));
                }
                return Err(ParserError::Failure(f));
            },
        };
        proof {
            let out = (o0, o1, o2);
            assert(self.head().head().head().accepts(*input, (out.0, out.1), r1)
                && self.head().head().sep.accepts(r1, s2, n2)
                && self.head().head().p2.accepts(n2, out.2, r2));
        }
        let (s3, n3) = match self.sep.parse(&r2) {
            Ok(x) => x,
            Err(ParserError::Error(e)) => {
                proof {
                    assert(self.head().head().accepts(*input, (o0, o1, o2), r2)
                        && self.head().sep.rejects(r2, e));
                }
                return Err(ParserError::Error(e));
            },
            Err(ParserError::Failure(f)) => {
                proof {
                    assert(self.head().head().accepts(*input, (o0, o1, o2), r2)
                        && self.head().sep.fails(r2, f));
                }
                return Err(ParserError::Failure(f));
            },
        };
        let (o3, r3) = match self.p3.parse(&n3) {
            Ok(x) => x,
            Err(ParserError::Error(e)) => {
                proof {
                    assert(self.head().head().accepts(*input, (o0, o1, o2), r2)
                        && self.head().sep.accepts(r2, s3, n3) && self.head().p3.rejects(n3, e));
                }
                return Err(ParserError::Error(e));
            },
            Err(ParserError::Failure(f)) => {
                proof {
                    assert(self.head().head().accepts(*input, (o0, o1, o2), r2)
                        && self.head().sep.accepts(r2, s3, n3) && self.head().p3.fails(n3, f));
                }
                return Err(ParserError::Failure(f));
            },
        };
        proof {
            let out = (o0, o1, o2, o3);
            assert(self.head().head().accepts(*input, (out.0, out.1, out.2), r2)
                && self.head().sep.accepts(r2, s3, n3)
                && self.head().p3.accepts(n3, out.3, r3));
        }
        let (s4, n4) = match self.sep.parse(&r3) {
            Ok(x) => x,
            Err(ParserError::Error(e)) => {
                proof {
                    assert(self.head().accepts(*input, (o0, o1, o2, o3), r3) && self.sep.rejects(r3,
                        e));
                }
                return Err(ParserError::Error(e));
            },
            Err(ParserError::Failure(f)) => {
                proof {
                    assert(self.head().accepts(*input, (o0, o1, o2, o3), r3) && self.sep.fails(r3,
                        f));
                }
                return Err(ParserError::Failure(f));
            },
        };
        let (o4, r4) = match self.p4.parse(&n4) {
            Ok(x) => x,
            Err(ParserError::Error(e)) => {
                proof {
                    assert(self.head().accepts(*input, (o0, o1, o2, o3), r3) && self.sep.accepts(r3,
                        s4, n4) && self.p4.rejects(n4, e));
                }
                return Err(ParserError::Error(e));
            },
            Err(ParserError::Failure(f)) => {
                proof {
                    assert(self.head().accepts(*input, (o0, o1, o2, o3), r3) && self.sep.accepts(r3,
                        s4, n4) && self.p4.fails(n4, f));
                }
                return Err(ParserError::Failure(f));
            },
        };
        proof {
            let out = (o0, o1, o2, o3, o4);
            assert(self.head().accepts(*input, (out.0, out.1, out.2, out.3), r3)
                && self.sep.accepts(r3, s4, n4)
                && self.p4.accepts(n4, out.4, r4));
        }
        Ok(((o0, o1, o2, o3, o4), r4))
    }
}

impl<S, P0, P1, P2, P3, P4> Sequence for SeparatedSequence<(P0, P1, P2, P3, P4), S> {
    type Joined = SeparatedChain5<S, P0, P1, P2, P3, P4>;

    open spec fn separated(&self) -> bool {
        true
    }

    open spec fn joined(self) -> SeparatedChain5<S, P0, P1, P2, P3, P4> {
        SeparatedChain5 { sep: self.sep, p0: self.seq.0, p1: self.seq.1, p2: self.seq.2,
            p3: self.seq.3, p4: self.seq.4 }
    }

    fn and(self) -> (r: SeparatedChain5<S, P0, P1, P2, P3, P4>) {
        SeparatedChain5 { sep: self.sep, p0: self.seq.0, p1: self.seq.1, p2: self.seq.2,
            p3: self.seq.3, p4: self.seq.4 }
    }
}


/// Six parsers run one after the other, with a separator between each two of them.
pub struct SeparatedChain6<S, P0, P1, P2, P3, P4, P5> {
    pub sep: S,
    pub p0: P0,
    pub p1: P1,
    pub p2: P2,
    pub p3: P3,
    pub p4: P4,
    pub p5: P5,
}


impl<S, P0, P1, P2, P3, P4, P5> SeparatedChain6<S, P0, P1, P2, P3, P4, P5> {
    /// The chain of all but the last parser.
    pub open spec fn head(self) -> SeparatedChain5<S, P0, P1, P2, P3, P4> {
        SeparatedChain5 { sep: self.sep, p0: self.p0, p1: self.p1, p2: self.p2, p3: self.p3,
            p4: self.p4 }
    }
}


impl<
    I,
    P0: Parser<I>,
    P1: Parser<I, Error = P0::Error, Failure = P0::Failure>,
    P2: Parser<I, Error = P0::Error, Failure = P0::Failure>,
    P3: Parser<I, Error = P0::Error, Failure = P0::Failure>,
    P4: Parser<I, Error = P0::Error, Failure = P0::Failure>,
    P5: Parser<I, Error = P0::Error, Failure = P0::Failure>,
    S: Parser<I, Error = P0::Error, Failure = P0::Failure>,
> Parser<I> for SeparatedChain6<S, P0, P1, P2, P3, P4, P5> {
    type Output = (P0::Output, P1::Output, P2::Output, P3::Output, P4::Output, P5::Output);

    type Error = P0::Error;

    type Failure = P0::Failure;

    open spec fn inv(&self) -> bool {
        self.sep.inv() && self.p0.inv() && self.p1.inv() && self.p2.inv() && self.p3.inv()
            && self.p4.inv() && self.p5.inv()
    }

    open spec fn accepts(&self, input: I, out: (P0::Output, P1::Output, P2::Output, P3::Output,
        P4::Output, P5::Output), rest: I) -> bool {
        exists|mid: I, s: S::Output, next: I|
            self.head().accepts(input, (out.0, out.1, out.2, out.3, out.4), mid)
                && #[trigger] self.sep.accepts(mid, s, next)
                && self.p5.accepts(next, out.5, rest)
    }

    open spec fn rejects(&self, input: I, e: P0::Error) -> bool {
        ||| self.head().rejects(input, e)
        ||| exists|o: (P0::Output, P1::Output, P2::Output, P3::Output, P4::Output),
            mid: I| #[trigger]
            self.head().accepts(input, o, mid) && self.sep.rejects(mid, e)
        ||| exists|o: (P0::Output, P1::Output, P2::Output, P3::Output, P4::Output), mid: I,
            s: S::Output, next: I|
            #![trigger self.head().accepts(input, o, mid), self.sep.accepts(mid, s, next)]
            self.head().accepts(input, o, mid) && self.sep.accepts(mid, s, next) && self.p5.rejects(
                next,
                e,
            )
    }

    open spec fn fails(&self, input: I, f: P0::Failure) -> bool {
        ||| self.head().fails(input, f)
        ||| exists|o: (P0::Output, P1::Output, P2::Output, P3::Output, P4::Output),
            mid: I| #[trigger]
            self.head().accepts(input, o, mid) && self.sep.fails(mid, f)
        ||| exists|o: (P0::Output, P1::Output, P2::Output, P3::Output, P4::Output), mid: I,
            s: S::Output, next: I|
            #![trigger self.head().accepts(input, o, mid), self.sep.accepts(mid, s, next)]
            self.head().accepts(input, o, mid) && self.sep.accepts(mid, s, next) && self.p5.fails(
                next,
                f,
            )
    }

    fn parse(&self, input: &I) -> (r: ParserResult<I, (P0::Output, P1::Output, P2::Output,
        P3::Output, P4::Output, P5::Output), P0::Error, P0::Failure>) {
        let (o0, r0) = match self.p0.parse(input) {
            Ok(x) => x,
            Err(e) => {
                return Err(e);
            },
        };
        let (s1, n1) = match self.sep.parse(&r0) {
            Ok(x) => x,
            Err(ParserError::Error(e)) => {
                proof {
                    assert(self.head().head().head().head().p0.accepts(*input, o0, r0)
                        && self.head().head().head().head().sep.rejects(r0, e));
                    assert(self.head().head().head().rejects(*input, e));
                    assert(self.head().head().rejects(*input, e));
                    assert(self.head().rejects(*input, e));
                }
                return Err(ParserError::Error(e));
            },
            Err(ParserError::Failure(f)) => {
                proof {
                    assert(self.head().head().head().head().p0.accepts(*input, o0, r0)
                        && self.head().head().head().head().sep.fails(r0, f));
                    assert(self.head().head().head().fails(*input, f));
                    assert(self.head().head().fails(*input, f));
                    assert(self.head().fails(*input, f));
                }
                return Err(ParserError::Failure(f));
            },
        };
        let (o1, r1) = match self.p1.parse(&n1) {
            Ok(x) => x,
            Err(ParserError::Error(e)) => {
                proof {
                    assert(self.head().head().head().head().p0.accepts(*input, o0, r0)
                        && self.head().head().head().head().sep.accepts(r0, s1, n1)
                        && self.head().head().head().head().p1.rejects(n1, e));
                    assert(self.head().head().head().rejects(*input, e));
                    assert(self.head().head().rejects(*input, e));
                    assert(self.head().rejects(*input, e));
                }
                return Err(ParserError::Error(e));
            },
            Err(ParserError::Failure(f)) => {
                proof {
                    assert(self.head().head().head().head().p0.accepts(*input, o0, r0)
                        && self.head().head().head().head().sep.accepts(r0, s1, n1)
                        && self.head().head().head().head().p1.fails(n1, f));
                    assert(self.head().head().head().fails(*input, f));
                    assert(self.head().head().fails(*input, f));
                    assert(self.head().fails(*input, f));
                }
                return Err(ParserError::Failure(f));
            },
        };
        proof {
            let out = (o0, o1);
            assert(self.head().head().head().head().p0.accepts(*input, out.0, r0)
                && self.head().head().head().head().sep.accepts(r0, s1, n1)
                && self.head().head().head().head().p1.accepts(n1, out.1, r1));
        }
        let (s2, n2) = match self.sep.parse(&r1) {
            Ok(x) => x,
            Err(ParserError::Error(e)) => {
                proof {
                    assert(self.head().head().head().head().accepts(*input, (o0, o1), r1)
                        && self.head().head().head().sep.rejects(r1, e));
                    assert(self.head().head().rejects(*input, e));
                    assert(self.head().rejects(*input, e));
                }
                return Err(ParserError::Error(e));
            },
            Err(ParserError::Failure(f)) => {
                proof {
                    assert(self.head().head().head().head().accepts(*input, (o0, o1), r1)
                        && self.head().head().head().sep.fails(r1, f));
                    assert(self.head().head().fails(*input, f));
                    assert(self.head().fails(*input, f));
                }
                return Err(ParserError::Failure(f));
            },
        };
        let (o2, r2) = match self.p2.parse(&n2) {
            Ok(x) => x,
            Err(ParserError::Error(e)) => {
                proof {
                    assert(self.head().head().head().head().accepts(*input, (o0, o1), r1)
                        && self.head().head().head().sep.accepts(r1, s2, n2)
                        && self.head().head().head().p2.rejects(n2, e));
                    assert(self.head().head().rejects(*input, e));
                    assert(self.head().rejects(*input, e));
                }
                return Err(ParserError::Error(e));
            },
            Err(ParserError::Failure(f)) => {
                proof {
                    assert(self.head().head().head().head().accepts(*input, (o0, o1), r1)
                        && self.head().head().head().sep.accepts(r1, s2, n2)
                        && self.head().head().head().p2.fails(n2, f));
                    assert(self.head().head().fails(*input, f));
                    assert(self.head().fails(*input, f));
                }
                return Err(ParserError::Failure(f));
            },
        };
        proof {
            let out = (o0, o1, o2);
            assert(self.head().head().head().head().accepts(*input, (out.0, out.1), r1)
                && self.head().head().head().sep.accepts(r1, s2, n2)
                && self.head().head().head().p2.accepts(n2, out.2, r2));
        }
        let (s3, n3) = match self.sep.parse(&r2) {
            Ok(x) => x,
            Err(ParserError::Error(e)) => {
                proof {
                    assert(self.head().head().head().accepts(*input, (o0, o1, o2), r2)
                        && self.head().head().sep.rejects(r2, e));
                    assert(self.head().rejects(*input, e));
                }
                return Err(ParserError::Error(e));
            },
            Err(ParserError::Failure(f)) => {
                proof {
                    assert(self.head().head().head().accepts(*input, (o0, o1, o2), r2)
                        && self.head().head().sep.fails(r2, f));
                    assert(self.head().fails(*input, f));
                }
                return Err(ParserError::Failure(f));
            },
        };
        let (o3, r3) = match self.p3.parse(&n3) {
            Ok(x) => x,
            Err(ParserError::Error(e)) => {
                proof {
                    assert(self.head().head().head().accepts(*input, (o0, o1, o2), r2)
                        && self.head().head().sep.accepts(r2, s3, n3)
                        && self.head().head().p3.rejects(n3, e));
                    assert(self.head().rejects(*input, e));
                }
                return Err(ParserError::Error(e));
            },
            Err(ParserError::Failure(f)) => {
                proof {
                    assert(self.head().head().head().accepts(*input, (o0, o1, o2), r2)
                        && self.head().head().sep.accepts(r2, s3, n3)
                        && self.head().head().p3.fails(n3, f));
                    assert(self.head().fails(*input, f));
                }
                return Err(ParserError::Failure(f));
            },
        };
        proof {
            let out = (o0, o1, o2, o3);
            assert(self.head().head().head().accepts(*input, (out.0, out.1, out.2), r2)
                && self.head().head().sep.accepts(r2, s3, n3)
                && self.head().head().p3.accepts(n3, out.3, r3));
        }
        let (s4, n4) = match self.sep.parse(&r3) {
            Ok(x) => x,
            Err(ParserError::Error(e)) => {
                proof {
                    assert(self.head().head().accepts(*input, (o0, o1, o2, o3), r3)
                        && self.head().sep.rejects(r3, e));
                }
                return Err(ParserError::Error(e));
            },
            Err(ParserError::Failure(f)) => {
                proof {
                    assert(self.head().head().accepts(*input, (o0, o1, o2, o3), r3)
                        && self.head().sep.fails(r3, f));
                }
                return Err(ParserError::Failure(f));
            },
        };
        let (o4, r4) = match self.p4.parse(&n4) {
            Ok(x) => x,
            Err(ParserError::Error(e)) => {
                proof {
                    assert(self.head().head().accepts(*input, (o0, o1, o2, o3), r3)
                        && self.head().sep.accepts(r3, s4, n4) && self.head().p4.rejects(n4, e));
                }
                return Err(ParserError::Error(e));
            },
            Err(ParserError::Failure(f)) => {
                proof {
                    assert(self.head().head().accepts(*input, (o0, o1, o2, o3), r3)
                        && self.head().sep.accepts(r3, s4, n4) && self.head().p4.fails(n4, f));
                }
                return Err(ParserError::Failure(f));
            },
        };
        proof {
            let out = (o0, o1, o2, o3, o4);
            assert(self.head().head().accepts(*input, (out.0, out.1, out.2, out.3), r3)
                && self.head().sep.accepts(r3, s4, n4)
                && self.head().p4.accepts(n4, out.4, r4));
        }
        let (s5, n5) = match self.sep.parse(&r4) {
            Ok(x) => x,
            Err(ParserError::Error(e)) => {
                proof {
                    assert(self.head().accepts(*input, (o0, o1, o2, o3, o4), r4)
                        && self.sep.rejects(r4, e));
                }
                return Err(ParserError::Error(e));
            },
            Err(ParserError::Failure(f)) => {
                proof {
                    assert(self.head().accepts(*input, (o0, o1, o2, o3, o4), r4)
                        && self.sep.fails(r4, f));
                }
                return Err(ParserError::Failure(f));
            },
        };
        let (o5, r5) = match self.p5.parse(&n5) {
            Ok(x) => x,
            Err(ParserError::Error(e)) => {
                proof {
                    assert(self.head().accepts(*input, (o0, o1, o2, o3, o4), r4)
                        && self.sep.accepts(r4, s5, n5) && self.p5.rejects(n5, e));
                }
                return Err(ParserError::Error(e));
            },
            Err(ParserError::Failure(f)) => {
                proof {
                    assert(self.head().accepts(*input, (o0, o1, o2, o3, o4), r4)
                        && self.sep.accepts(r4, s5, n5) && self.p5.fails(n5, f));
                }
                return Err(ParserError::Failure(f));
            },
        };
        proof {
            let out = (o0, o1, o2, o3, o4, o5);
            assert(self.head().accepts(*input, (out.0, out.1, out.2, out.3, out.4), r4)
                && self.sep.accepts(r4, s5, n5)
                && self.p5.accepts(n5, out.5, r5));
        }
        Ok(((o0, o1, o2, o3, o4, o5), r5))
    }
}

impl<S, P0, P1, P2, P3, P4, P5> Sequence for SeparatedSequence<(P0, P1, P2, P3, P4, P5), S> {
    type Joined = SeparatedChain6<S, P0, P1, P2, P3, P4, P5>;

    open spec fn separated(&self) -> bool {
        true
    }

    open spec fn joined(self) -> SeparatedChain6<S, P0, P1, P2, P3, P4, P5> {
        SeparatedChain6 { sep: self.sep, p0: self.seq.0, p1: self.seq.1, p2: self.seq.2,
            p3: self.seq.3, p4: self.seq.4, p5: self.seq.5 }
    }

    fn and(self) -> (r: SeparatedChain6<S, P0, P1, P2, P3, P4, P5>) {
        SeparatedChain6 { sep: self.sep, p0: self.seq.0, p1: self.seq.1, p2: self.seq.2,
            p3: self.seq.3, p4: self.seq.4, p5: self.seq.5 }
    }
}


/// Seven parsers run one after the other, with a separator between each two of them.
pub struct SeparatedChain7<S, P0, P1, P2, P3, P4, P5, P6> {
    pub sep: S,
    pub p0: P0,
    pub p1: P1,
    pub p2: P2,
    pub p3: P3,
    pub p4: P4,
    pub p5: P5,
    pub p6: P6,
}


impl<S, P0, P1, P2, P3, P4, P5, P6> SeparatedChain7<S, P0, P1, P2, P3, P4, P5, P6> {
    /// The chain of all but the last parser.
    pub open spec fn head(self) -> SeparatedChain6<S, P0, P1, P2, P3, P4, P5> {
        SeparatedChain6 { sep: self.sep, p0: self.p0, p1: self.p1, p2: self.p2, p3: self.p3,
            p4: self.p4, p5: self.p5 }
    }
}


impl<
    I,
    P0: Parser<I>,
    P1: Parser<I, Error = P0::Error, Failure = P0::Failure>,
    P2: Parser<I, Error = P0::Error, Failure = P0::Failure>,
    P3: Parser<I, Error = P0::Error, Failure = P0::Failure>,
    P4: Parser<I, Error = P0::Error, Failure = P0::Failure>,
    P5: Parser<I, Error = P0::Error, Failure = P0::Failure>,
    P6: Parser<I, Error = P0::Error, Failure = P0::Failure>,
    S: Parser<I, Error = P0::Error, Failure = P0::Failure>,
> Parser<I> for SeparatedChain7<S, P0, P1, P2, P3, P4, P5, P6> {
    type Output = (P0::Output, P1::Output, P2::Output, P3::Output, P4::Output, P5::Output,
        P6::Output);

    type Error = P0::Error;

    type Failure = P0::Failure;

    open spec fn inv(&self) -> bool {
        self.sep.inv() && self.p0.inv() && self.p1.inv() && self.p2.inv() && self.p3.inv()
            && self.p4.inv() && self.p5.inv() && self.p6.inv()
    }

    open spec fn accepts(&self, input: I, out: (P0::Output, P1::Output, P2::Output, P3::Output,
        P4::Output, P5::Output, P6::Output), rest: I) -> bool {
        exists|mid: I, s: S::Output, next: I|
            self.head().accepts(input, (out.0, out.1, out.2, out.3, out.4, out.5), mid)
                && #[trigger] self.sep.accepts(mid, s, next)
                && self.p6.accepts(next, out.6, rest)
    }

    open spec fn rejects(&self, input: I, e: P0::Error) -> bool {
        ||| self.head().rejects(input, e)
        ||| exists|o: (P0::Output, P1::Output, P2::Output, P3::Output, P4::Output, P5::Output),
            mid: I| #[trigger]
            self.head().accepts(input, o, mid) && self.sep.rejects(mid, e)
        ||| exists|o: (P0::Output, P1::Output, P2::Output, P3::Output, P4::Output, P5::Output),
            mid: I, s: S::Output, next: I|
            #![trigger self.head().accepts(input, o, mid), self.sep.accepts(mid, s, next)]
            self.head().accepts(input, o, mid) && self.sep.accepts(mid, s, next) && self.p6.rejects(
                next,
                e,
            )
    }

    open spec fn fails(&self, input: I, f: P0::Failure) -> bool {
        ||| self.head().fails(input, f)
        ||| exists|o: (P0::Output, P1::Output, P2::Output, P3::Output, P4::Output, P5::Output),
            mid: I| #[trigger]
            self.head().accepts(input, o, mid) && self.sep.fails(mid, f)
        ||| exists|o: (P0::Output, P1::Output, P2::Output, P3::Output, P4::Output, P5::Output),
            mid: I, s: S::Output, next: I|
            #![trigger self.head().accepts(input, o, mid), self.sep.accepts(mid, s, next)]
            self.head().accepts(input, o, mid) && self.sep.accepts(mid, s, next) && self.p6.fails(
                next,
                f,
            )
    }

    fn parse(&self, input: &I) -> (r: ParserResult<I, (P0::Output, P1::Output, P2::Output,
        P3::Output, P4::Output, P5::Output, P6::Output), P0::Error, P0::Failure>) {
        let (o0, r0) = match self.p0.parse(input) {
            Ok(x) => x,
            Err(e) => {
                return Err(e);
            },
        };
        let (s1, n1) = match self.sep.parse(&r0) {
            Ok(x) => x,
            Err(ParserError::Error(e)) => {
                proof {
                    assert(self.head().head().head().head().head().p0.accepts(*input, o0, r0)
                        && self.head().head().head().head().head().sep.rejects(r0, e));
                    assert(self.head().head().head().head().rejects(*input, e));
                    assert(self.head().head().head().rejects(*input, e));
                    assert(self.head().head().rejects(*input, e));
                    assert(self.head().rejects(*input, e));
                }
                return Err(ParserError::Error(e));
            },
            Err(ParserError::Failure(f)) => {
                proof {
                    assert(self.head().head().head().head().head().p0.accepts(*input, o0, r0)
                        && self.head().head().head().head().head().sep.fails(r0, f));
                    assert(self.head().head().head().head().fails(*input, f));
                    assert(self.head().head().head().fails(*input, f));
                    assert(self.head().head().fails(*input, f));
                    assert(self.head().fails(*input, f));
                }
                return Err(ParserError::Failure(f));
            },
        };
        let (o1, r1) = match self.p1.parse(&n1) {
            Ok(x) => x,
            Err(ParserError::Error(e)) => {
                proof {
                    assert(self.head().head().head().head().head().p0.accepts(*input, o0, r0)
                        && self.head().head().head().head().head().sep.accepts(r0, s1, n1)
                        && self.head().head().head().head().head().p1.rejects(n1, e));
                    assert(self.head().head().head().head().rejects(*input, e));
                    assert(self.head().head().head().rejects(*input, e));
                    assert(self.head().head().rejects(*input, e));
                    assert(self.head().rejects(*input, e));
                }
                return Err(ParserError::Error(e));
            },
            Err(ParserError::Failure(f)) => {
                proof {
                    assert(self.head().head().head().head().head().p0.accepts(*input, o0, r0)
                        && self.head().head().head().head().head().sep.accepts(r0, s1, n1)
                        && self.head().head().head().head().head().p1.fails(n1, f));
                    assert(self.head().head().head().head().fails(*input, f));
                    assert(self.head().head().head().fails(*input, f));
                    assert(self.head().head().fails(*input, f));
                    assert(self.head().fails(*input, f));
                }
                return Err(ParserError::Failure(f));
            },
        };
        proof {
            let out = (o0, o1);
            assert(self.head().head().head().head().head().p0.accepts(*input, out.0, r0)
                && self.head().head().head().head().head().sep.accepts(r0, s1, n1)
                && self.head().head().head().head().head().p1.accepts(n1, out.1, r1));
        }
        let (s2, n2) = match self.sep.parse(&r1) {
            Ok(x) => x,
            Err(ParserError::Error(e)) => {
                proof {
                    assert(self.head().head().head().head().head().accepts(*input, (o0, o1), r1)
                        && self.head().head().head().head().sep.rejects(r1, e));
                    assert(self.head().head().head().rejects(*input, e));
                    assert(self.head().head().rejects(*input, e));
                    assert(self.head().rejects(*input, e));
                }
                return Err(ParserError::Error(e));
            },
            Err(ParserError::Failure(f)) => {
                proof {
                    assert(self.head().head().head().head().head().accepts(*input, (o0, o1), r1)
                        && self.head().head().head().head().sep.fails(r1, f));
                    assert(self.head().head().head().fails(*input, f));
                    assert(self.head().head().fails(*input, f));
                    assert(self.head().fails(*input, f));
                }
                return Err(ParserError::Failure(f));
            },
        };
        let (o2, r2) = match self.p2.parse(&n2) {
            Ok(x) => x,
            Err(ParserError::Error(e)) => {
                proof {
                    assert(self.head().head().head().head().head().accepts(*input, (o0, o1), r1)
                        && self.head().head().head().head().sep.accepts(r1, s2, n2)
                        && self.head().head().head().head().p2.rejects(n2, e));
                    assert(self.head().head().head().rejects(*input, e));
                    assert(self.head().head().rejects(*input, e));
                    assert(self.head().rejects(*input, e));
                }
                return Err(ParserError::Error(e));
            },
            Err(ParserError::Failure(f)) => {
                proof {
                    assert(self.head().head().head().head().head().accepts(*input, (o0, o1), r1)
                        && self.head().head().head().head().sep.accepts(r1, s2, n2)
                        && self.head().head().head().head().p2.fails(n2, f));
                    assert(self.head().head().head().fails(*input, f));
                    assert(self.head().head().fails(*input, f));
                    assert(self.head().fails(*input, f));
                }
                return Err(ParserError::Failure(f));
            },
        };
        proof {
            let out = (o0, o1, o2);
            assert(self.head().head().head().head().head().accepts(*input, (out.0, out.1), r1)
                && self.head().head().head().head().sep.accepts(r1, s2, n2)
                && self.head().head().head().head().p2.accepts(n2, out.2, r2));
        }
        let (s3, n3) = match self.sep.parse(&r2) {
            Ok(x) => x,
            Err(ParserError::Error(e)) => {
                proof {
                    assert(self.head().head().head().head().accepts(*input, (o0, o1, o2), r2)
                        && self.head().head().head().sep.rejects(r2, e));
                    assert(self.head().head().rejects(*input, e));
                    assert(self.head().rejects(*input, e));
                }
                return Err(ParserError::Error(e));
            },
            Err(ParserError::Failure(f)) => {
                proof {
                    assert(self.head().head().head().head().accepts(*input, (o0, o1, o2), r2)
                        && self.head().head().head().sep.fails(r2, f));
                    assert(self.head().head().fails(*input, f));
                    assert(self.head().fails(*input, f));
                }
                return Err(ParserError::Failure(f));
            },
        };
        let (o3, r3) = match self.p3.parse(&n3) {
            Ok(x) => x,
            Err(ParserError::Error(e)) => {
                proof {
                    assert(self.head().head().head().head().accepts(*input, (o0, o1, o2), r2)
                        && self.head().head().head().sep.accepts(r2, s3, n3)
                        && self.head().head().head().p3.rejects(n3, e));
                    assert(self.head().head().rejects(*input, e));
                    assert(self.head().rejects(*input, e));
                }
                return Err(ParserError::Error(e));
            },
            Err(ParserError::Failure(f)) => {
                proof {
                    assert(self.head().head().head().head().accepts(*input, (o0, o1, o2), r2)
                        && self.head().head().head().sep.accepts(r2, s3, n3)
                        && self.head().head().head().p3.fails(n3, f));
                    assert(self.head().head().fails(*input, f));
                    assert(self.head().fails(*input, f));
                }
                return Err(ParserError::Failure(f));
            },
        };
        proof {
            let out = (o0, o1, o2, o3);
            assert(self.head().head().head().head().accepts(*input, (out.0, out.1, out.2), r2)
                && self.head().head().head().sep.accepts(r2, s3, n3)
                && self.head().head().head().p3.accepts(n3, out.3, r3));
        }
        let (s4, n4) = match self.sep.parse(&r3) {
            Ok(x) => x,
            Err(ParserError::Error(e)) => {
                proof {
                    assert(self.head().head().head().accepts(*input, (o0, o1, o2, o3), r3)
                        && self.head().head().sep.rejects(r3, e));
                    assert(self.head().rejects(*input, e));
                }
                return Err(ParserError::Error(e));
            },
            Err(ParserError::Failure(f)) => {
                proof {
                    assert(self.head().head().head().accepts(*input, (o0, o1, o2, o3), r3)
                        && self.head().head().sep.fails(r3, f));
                    assert(self.head().fails(*input, f));
                }
                return Err(ParserError::Failure(f));
            },
        };
        let (o4, r4) = match self.p4.parse(&n4) {
            Ok(x) => x,
            Err(ParserError::Error(e)) => {
                proof {
                    assert(self.head().head().head().accepts(*input, (o0, o1, o2, o3), r3)
                        && self.head().head().sep.accepts(r3, s4, n4)
                        && self.head().head().p4.rejects(n4, e));
                    assert(self.head().rejects(*input, e));
                }
                return Err(ParserError::Error(e));
            },
            Err(ParserError::Failure(f)) => {
                proof {
                    assert(self.head().head().head().accepts(*input, (o0, o1, o2, o3), r3)
                        && self.head().head().sep.accepts(r3, s4, n4)
                        && self.head().head().p4.fails(n4, f));
                    assert(self.head().fails(*input, f));
                }
                return Err(ParserError::Failure(f));
            },
        };
        proof {
            let out = (o0, o1, o2, o3, o4);
            assert(self.head().head().head().accepts(*input, (out.0, out.1, out.2, out.3), r3)
                && self.head().head().sep.accepts(r3, s4, n4)
                && self.head().head().p4.accepts(n4, out.4, r4));
        }
        let (s5, n5) = match self.sep.parse(&r4) {
            Ok(x) => x,
            Err(ParserError::Error(e)) => {
                proof {
                    assert(self.head().head().accepts(*input, (o0, o1, o2, o3, o4), r4)
                        && self.head().sep.rejects(r4, e));
                }
                return Err(ParserError::Error(e));
            },
            Err(ParserError::Failure(f)) => {
                proof {
                    assert(self.head().head().accepts(*input, (o0, o1, o2, o3, o4), r4)
                        && self.head().sep.fails(r4, f));
                }
                return Err(ParserError::Failure(f));
            },
        };
        let (o5, r5) = match self.p5.parse(&n5) {
            Ok(x) => x,
            Err(ParserError::Error(e)) => {
                proof {
                    assert(self.head().head().accepts(*input, (o0, o1, o2, o3, o4), r4)
                        && self.head().sep.accepts(r4, s5, n5) && self.head().p5.rejects(n5, e));
                }
                return Err(ParserError::Error(e));
            },
            Err(ParserError::Failure(f)) => {
                proof {
                    assert(self.head().head().accepts(*input, (o0, o1, o2, o3, o4), r4)
                        && self.head().sep.accepts(r4, s5, n5) && self.head().p5.fails(n5, f));
                }
                return Err(ParserError::Failure(f));
            },
        };
        proof {
            let out = (o0, o1, o2, o3, o4, o5);
            assert(self.head().head().accepts(*input, (out.0, out.1, out.2, out.3, out.4), r4)
                && self.head().sep.accepts(r4, s5, n5)
                && self.head().p5.accepts(n5, out.5, r5));
        }
        let (s6, n6) = match self.sep.parse(&r5) {
            Ok(x) => x,
            Err(ParserError::Error(e)) => {
                proof {
                    assert(self.head().accepts(*input, (o0, o1, o2, o3, o4, o5), r5)
                        && self.sep.rejects(r5, e));
                }
                return Err(ParserError::Error(e));
            },
            Err(ParserError::Failure(f)) => {
                proof {
                    assert(self.head().accepts(*input, (o0, o1, o2, o3, o4, o5), r5)
                        && self.sep.fails(r5, f));
                }
                return Err(ParserError::Failure(f));
            },
        };
        let (o6, r6) = match self.p6.parse(&n6) {
            Ok(x) => x,
            Err(ParserError::Error(e)) => {
                proof {
                    assert(self.head().accepts(*input, (o0, o1, o2, o3, o4, o5), r5)
                        && self.sep.accepts(r5, s6, n6) && self.p6.rejects(n6, e));
                }
                return Err(ParserError::Error(e));
            },
            Err(ParserError::Failure(f)) => {
                proof {
                    assert(self.head().accepts(*input, (o0, o1, o2, o3, o4, o5), r5)
                        && self.sep.accepts(r5, s6, n6) && self.p6.fails(n6, f));
                }
                return Err(ParserError::Failure(f));
            },
        };
        proof {
            let out = (o0, o1, o2, o3, o4, o5, o6);
            assert(self.head().accepts(*input, (out.0, out.1, out.2, out.3, out.4, out.5), r5)
                && self.sep.accepts(r5, s6, n6)
                && self.p6.accepts(n6, out.6, r6));
        }
        Ok(((o0, o1, o2, o3, o4, o5, o6), r6))
    }
}

impl<S, P0, P1, P2, P3, P4, P5, P6> Sequence for SeparatedSequence<(P0, P1, P2, P3, P4, P5, P6),
    S> {
    type Joined = SeparatedChain7<S, P0, P1, P2, P3, P4, P5, P6>;

    open spec fn separated(&self) -> bool {
        true
    }

    open spec fn joined(self) -> SeparatedChain7<S, P0, P1, P2, P3, P4, P5, P6> {
        SeparatedChain7 { sep: self.sep, p0: self.seq.0, p1: self.seq.1, p2: self.seq.2,
            p3: self.seq.3, p4: self.seq.4, p5: self.seq.5, p6: self.seq.6 }
    }

    fn and(self) -> (r: SeparatedChain7<S, P0, P1, P2, P3, P4, P5, P6>) {
        SeparatedChain7 { sep: self.sep, p0: self.seq.0, p1: self.seq.1, p2: self.seq.2,
            p3: self.seq.3, p4: self.seq.4, p5: self.seq.5, p6: self.seq.6 }
    }
}


/// Eight parsers run one after the other, with a separator between each two of them.
pub struct SeparatedChain8<S, P0, P1, P2, P3, P4, P5, P6, P7> {
    pub sep: S,
    pub p0: P0,
    pub p1: P1,
    pub p2: P2,
    pub p3: P3,
    pub p4: P4,
    pub p5: P5,
    pub p6: P6,
    pub p7: P7,
}


impl<S, P0, P1, P2, P3, P4, P5, P6, P7> SeparatedChain8<S, P0, P1, P2, P3, P4, P5, P6, P7> {
    /// The chain of all but the last parser.
    pub open spec fn head(self) -> SeparatedChain7<S, P0, P1, P2, P3, P4, P5, P6> {
        SeparatedChain7 { sep: self.sep, p0: self.p0, p1: self.p1, p2: self.p2, p3: self.p3,
            p4: self.p4, p5: self.p5, p6: self.p6 }
    }
}


impl<
    I,
    P0: Parser<I>,
    P1: Parser<I, Error = P0::Error, Failure = P0::Failure>,
    P2: Parser<I, Error = P0::Error, Failure = P0::Failure>,
    P3: Parser<I, Error = P0::Error, Failure = P0::Failure>,
    P4: Parser<I, Error = P0::Error, Failure = P0::Failure>,
    P5: Parser<I, Error = P0::Error, Failure = P0::Failure>,
    P6: Parser<I, Error = P0::Error, Failure = P0::Failure>,
    P7: Parser<I, Error = P0::Error, Failure = P0::Failure>,
    S: Parser<I, Error = P0::Error, Failure = P0::Failure>,
> Parser<I> for SeparatedChain8<S, P0, P1, P2, P3, P4, P5, P6, P7> {
    type Output = (P0::Output, P1::Output, P2::Output, P3::Output, P4::Output, P5::Output,
        P6::Output, P7::Output);

    type Error = P0::Error;

    type Failure = P0::Failure;

    open spec fn inv(&self) -> bool {
        self.sep.inv() && self.p0.inv() && self.p1.inv() && self.p2.inv() && self.p3.inv()
            && self.p4.inv() && self.p5.inv() && self.p6.inv() && self.p7.inv()
    }

    open spec fn accepts(&self, input: I, out: (P0::Output, P1::Output, P2::Output, P3::Output,
        P4::Output, P5::Output, P6::Output, P7::Output), rest: I) -> bool {
        exists|mid: I, s: S::Output, next: I|
            self.head().accepts(input, (out.0, out.1, out.2, out.3, out.4, out.5, out.6), mid)
                && #[trigger] self.sep.accepts(mid, s, next)
                && self.p7.accepts(next, out.7, rest)
    }

    open spec fn rejects(&self, input: I, e: P0::Error) -> bool {
        ||| self.head().rejects(input, e)
        ||| exists|o: (P0::Output, P1::Output, P2::Output, P3::Output, P4::Output, P5::Output,
            P6::Output), mid: I| #[trigger]
            self.head().accepts(input, o, mid) && self.sep.rejects(mid, e)
        ||| exists|o: (P0::Output, P1::Output, P2::Output, P3::Output, P4::Output, P5::Output,
            P6::Output), mid: I, s: S::Output, next: I|
            #![trigger self.head().accepts(input, o, mid), self.sep.accepts(mid, s, next)]
            self.head().accepts(input, o, mid) && self.sep.accepts(mid, s, next) && self.p7.rejects(
                next,
                e,
            )
    }

    open spec fn fails(&self, input: I, f: P0::Failure) -> bool {
        ||| self.head().fails(input, f)
        ||| exists|o: (P0::Output, P1::Output, P2::Output, P3::Output, P4::Output, P5::Output,
            P6::Output), mid: I| #[trigger]
            self.head().accepts(input, o, mid) && self.sep.fails(mid, f)
        ||| exists|o: (P0::Output, P1::Output, P2::Output, P3::Output, P4::Output, P5::Output,
            P6::Output), mid: I, s: S::Output, next: I|
            #![trigger self.head().accepts(input, o, mid), self.sep.accepts(mid, s, next)]
            self.head().accepts(input, o, mid) && self.sep.accepts(mid, s, next) && self.p7.fails(
                next,
                f,
            )
    }

    fn parse(&self, input: &I) -> (r: ParserResult<I, (P0::Output, P1::Output, P2::Output,
        P3::Output, P4::Output, P5::Output, P6::Output, P7::Output), P0::Error, P0::Failure>) {
        let (o0, r0) = match self.p0.parse(input) {
            Ok(x) => x,
            Err(e) => {
                return Err(e);
            },
        };
        let (s1, n1) = match self.sep.parse(&r0) {
            Ok(x) => x,
            Err(ParserError::Error(e)) => {
                proof {
                    assert(self.head().head().head().head().head().head().p0.accepts(*input, o0,
                        r0) && self.head().head().head().head().head().head().sep.rejects(r0, e));
                    assert(self.head().head().head().head().head().rejects(*input, e));
                    assert(self.head().head().head().head().rejects(*input, e));
                    assert(self.head().head().head().rejects(*input, e));
                    assert(self.head().head().rejects(*input, e));
                    assert(self.head().rejects(*input, e));
                }
                return Err(ParserError::Error(e));
            },
            Err(ParserError::Failure(f)) => {
                proof {
                    assert(self.head().head().head().head().head().head().p0.accepts(*input, o0,
                        r0) && self.head().head().head().head().head().head().sep.fails(r0, f));
                    assert(self.head().head().head().head().head().fails(*input, f));
                    assert(self.head().head().head().head().fails(*input, f));
                    assert(self.head().head().head().fails(*input, f));
                    assert(self.head().head().fails(*input, f));
                    assert(self.head().fails(*input, f));
                }
                return Err(ParserError::Failure(f));
            },
        };
        let (o1, r1) = match self.p1.parse(&n1) {
            Ok(x) => x,
            Err(ParserError::Error(e)) => {
                proof {
                    assert(self.head().head().head().head().head().head().p0.accepts(*input, o0,
                        r0) && self.head().head().head().head().head().head().sep.accepts(r0, s1,
                        n1) && self.head().head().head().head().head().head().p1.rejects(n1, e));
                    assert(self.head().head().head().head().head().rejects(*input, e));
                    assert(self.head().head().head().head().rejects(*input, e));
                    assert(self.head().head().head().rejects(*input, e));
                    assert(self.head().head().rejects(*input, e));
                    assert(self.head().rejects(*input, e));
                }
                return Err(ParserError::Error(e));
            },
            Err(ParserError::Failure(f)) => {
                proof {
                    assert(self.head().head().head().head().head().head().p0.accepts(*input, o0,
                        r0) && self.head().head().head().head().head().head().sep.accepts(r0, s1,
                        n1) && self.head().head().head().head().head().head().p1.fails(n1, f));
                    assert(self.head().head().head().head().head().fails(*input, f));
                    assert(self.head().head().head().head().fails(*input, f));
                    assert(self.head().head().head().fails(*input, f));
                    assert(self.head().head().fails(*input, f));
                    assert(self.head().fails(*input, f));
                }
                return Err(ParserError::Failure(f));
            },
        };
        proof {
            let out = (o0, o1);
            assert(self.head().head().head().head().head().head().p0.accepts(*input, out.0, r0)
                && self.head().head().head().head().head().head().sep.accepts(r0, s1, n1)
                && self.head().head().head().head().head().head().p1.accepts(n1, out.1, r1));
        }
        let (s2, n2) = match self.sep.parse(&r1) {
            Ok(x) => x,
            Err(ParserError::Error(e)) => {
                proof {
                    assert(self.head().head().head().head().head().head().accepts(*input, (o0, o1),
                        r1) && self.head().head().head().head().head().sep.rejects(r1, e));
                    assert(self.head().head().head().head().rejects(*input, e));
                    assert(self.head().head().head().rejects(*input, e));
                    assert(self.head().head().rejects(*input, e));
                    assert(self.head().rejects(*input, e));
                }
                return Err(ParserError::Error(e));
            },
            Err(ParserError::Failure(f)) => {
                proof {
                    assert(self.head().head().head().head().head().head().accepts(*input, (o0, o1),
                        r1) && self.head().head().head().head().head().sep.fails(r1, f));
                    assert(self.head().head().head().head().fails(*input, f));
                    assert(self.head().head().head().fails(*input, f));
                    assert(self.head().head().fails(*input, f));
                    assert(self.head().fails(*input, f));
                }
                return Err(ParserError::Failure(f));
            },
        };
        let (o2, r2) = match self.p2.parse(&n2) {
            Ok(x) => x,
            Err(ParserError::Error(e)) => {
                proof {
                    assert(self.head().head().head().head().head().head().accepts(*input, (o0, o1),
                        r1) && self.head().head().head().head().head().sep.accepts(r1, s2, n2)
                        && self.head().head().head().head().head().p2.rejects(n2, e));
                    assert(self.head().head().head().head().rejects(*input, e));
                    assert(self.head().head().head().rejects(*input, e));
                    assert(self.head().head().rejects(*input, e));
                    assert(self.head().rejects(*input, e));
                }
                return Err(ParserError::Error(e));
            },
            Err(ParserError::Failure(f)) => {
                proof {
                    assert(self.head().head().head().head().head().head().accepts(*input, (o0, o1),
                        r1) && self.head().head().head().head().head().sep.accepts(r1, s2, n2)
                        && self.head().head().head().head().head().p2.fails(n2, f));
                    assert(self.head().head().head().head().fails(*input, f));
                    assert(self.head().head().head().fails(*input, f));
                    assert(self.head().head().fails(*input, f));
                    assert(self.head().fails(*input, f));
                }
                return Err(ParserError::Failure(f));
            },
        };
        proof {
            let out = (o0, o1, o2);
            assert(self.head().head().head().head().head().head().accepts(*input, (out.0, out.1),
                r1) && self.head().head().head().head().head().sep.accepts(r1, s2, n2)
                && self.head().head().head().head().head().p2.accepts(n2, out.2, r2));
        }
        let (s3, n3) = match self.sep.parse(&r2) {
            Ok(x) => x,
            Err(ParserError::Error(e)) => {
                proof {
                    assert(self.head().head().head().head().head().accepts(*input, (o0, o1, o2),
                        r2) && self.head().head().head().head().sep.rejects(r2, e));
                    assert(self.head().head().head().rejects(*input, e));
                    assert(self.head().head().rejects(*input, e));
                    assert(self.head().rejects(*input, e));
                }
                return Err(ParserError::Error(e));
            },
            Err(ParserError::Failure(f)) => {
                proof {
                    assert(self.head().head().head().head().head().accepts(*input, (o0, o1, o2),
                        r2) && self.head().head().head().head().sep.fails(r2, f));
                    assert(self.head().head().head().fails(*input, f));
                    assert(self.head().head().fails(*input, f));
                    assert(self.head().fails(*input, f));
                }
                return Err(ParserError::Failure(f));
            },
        };
        let (o3, r3) = match self.p3.parse(&n3) {
            Ok(x) => x,
            Err(ParserError::Error(e)) => {
                proof {
                    assert(self.head().head().head().head().head().accepts(*input, (o0, o1, o2),
                        r2) && self.head().head().head().head().sep.accepts(r2, s3, n3)
                        && self.head().head().head().head().p3.rejects(n3, e));
                    assert(self.head().head().head().rejects(*input, e));
                    assert(self.head().head().rejects(*input, e));
                    assert(self.head().rejects(*input, e));
                }
                return Err(ParserError::Error(e));
            },
            Err(ParserError::Failure(f)) => {
                proof {
                    assert(self.head().head().head().head().head().accepts(*input, (o0, o1, o2),
                        r2) && self.head().head().head().head().sep.accepts(r2, s3, n3)
                        && self.head().head().head().head().p3.fails(n3, f));
                    assert(self.head().head().head().fails(*input, f));
                    assert(self.head().head().fails(*input, f));
                    assert(self.head().fails(*input, f));
                }
                return Err(ParserError::Failure(f));
            },
        };
        proof {
            let out = (o0, o1, o2, o3);
            assert(self.head().head().head().head().head().accepts(*input, (out.0, out.1, out.2),
                r2) && self.head().head().head().head().sep.accepts(r2, s3, n3)
                && self.head().head().head().head().p3.accepts(n3, out.3, r3));
        }
        let (s4, n4) = match self.sep.parse(&r3) {
            Ok(x) => x,
            Err(ParserError::Error(e)) => {
                proof {
                    assert(self.head().head().head().head().accepts(*input, (o0, o1, o2, o3), r3)
                        && self.head().head().head().sep.rejects(r3, e));
                    assert(self.head().head().rejects(*input, e));
                    assert(self.head().rejects(*input, e));
                }
                return Err(ParserError::Error(e));
            },
            Err(ParserError::Failure(f)) => {
                proof {
                    assert(self.head().head().head().head().accepts(*input, (o0, o1, o2, o3), r3)
                        && self.head().head().head().sep.fails(r3, f));
                    assert(self.head().head().fails(*input, f));
                    assert(self.head().fails(*input, f));
                }
                return Err(ParserError::Failure(f));
            },
        };
        let (o4, r4) = match self.p4.parse(&n4) {
            Ok(x) => x,
            Err(ParserError::Error(e)) => {
                proof {
                    assert(self.head().head().head().head().accepts(*input, (o0, o1, o2, o3), r3)
                        && self.head().head().head().sep.accepts(r3, s4, n4)
                        && self.head().head().head().p4.rejects(n4, e));
                    assert(self.head().head().rejects(*input, e));
                    assert(self.head().rejects(*input, e));
                }
                return Err(ParserError::Error(e));
            },
            Err(ParserError::Failure(f)) => {
                proof {
                    assert(self.head().head().head().head().accepts(*input, (o0, o1, o2, o3), r3)
                        && self.head().head().head().sep.accepts(r3, s4, n4)
                        && self.head().head().head().p4.fails(n4, f));
                    assert(self.head().head().fails(*input, f));
                    assert(self.head().fails(*input, f));
                }
                return Err(ParserError::Failure(f));
            },
        };
        proof {
            let out = (o0, o1, o2, o3, o4);
            assert(self.head().head().head().head().accepts(*input, (out.0, out.1, out.2, out.3),
                r3) && self.head().head().head().sep.accepts(r3, s4, n4)
                && self.head().head().head().p4.accepts(n4, out.4, r4));
        }
        let (s5, n5) = match self.sep.parse(&r4) {
            Ok(x) => x,
            Err(ParserError::Error(e)) => {
                proof {
                    assert(self.head().head().head().accepts(*input, (o0, o1, o2, o3, o4), r4)
                        && self.head().head().sep.rejects(r4, e));
                    assert(self.head().rejects(*input, e));
                }
                return Err(ParserError::Error(e));
            },
            Err(ParserError::Failure(f)) => {
                proof {
                    assert(self.head().head().head().accepts(*input, (o0, o1, o2, o3, o4), r4)
                        && self.head().head().sep.fails(r4, f));
                    assert(self.head().fails(*input, f));
                }
                return Err(ParserError::Failure(f));
            },
        };
        let (o5, r5) = match self.p5.parse(&n5) {
            Ok(x) => x,
            Err(ParserError::Error(e)) => {
                proof {
                    assert(self.head().head().head().accepts(*input, (o0, o1, o2, o3, o4), r4)
                        && self.head().head().sep.accepts(r4, s5, n5)
                        && self.head().head().p5.rejects(n5, e));
                    assert(self.head().rejects(*input, e));
                }
                return Err(ParserError::Error(e));
            },
            Err(ParserError::Failure(f)) => {
                proof {
                    assert(self.head().head().head().accepts(*input, (o0, o1, o2, o3, o4), r4)
                        && self.head().head().sep.accepts(r4, s5, n5)
                        && self.head().head().p5.fails(n5, f));
                    assert(self.head().fails(*input, f));
                }
                return Err(ParserError::Failure(f));
            },
        };
        proof {
            let out = (o0, o1, o2, o3, o4, o5);
            assert(self.head().head().head().accepts(*input, (out.0, out.1, out.2, out.3, out.4),
                r4) && self.head().head().sep.accepts(r4, s5, n5)
                && self.head().head().p5.accepts(n5, out.5, r5));
        }
        let (s6, n6) = match self.sep.parse(&r5) {
            Ok(x) => x,
            Err(ParserError::Error(e)) => {
                proof {
                    assert(self.head().head().accepts(*input, (o0, o1, o2, o3, o4, o5), r5)
                        && self.head().sep.rejects(r5, e));
                }
                return Err(ParserError::Error(e));
            },
            Err(ParserError::Failure(f)) => {
                proof {
                    assert(self.head().head().accepts(*input, (o0, o1, o2, o3, o4, o5), r5)
                        && self.head().sep.fails(r5, f));
                }
                return Err(ParserError::Failure(f));
            },
        };
        let (o6, r6) = match self.p6.parse(&n6) {
            Ok(x) => x,
            Err(ParserError::Error(e)) => {
                proof {
                    assert(self.head().head().accepts(*input, (o0, o1, o2, o3, o4, o5), r5)
                        && self.head().sep.accepts(r5, s6, n6) && self.head().p6.rejects(n6, e));
                }
                return Err(ParserError::Error(e));
            },
            Err(ParserError::Failure(f)) => {
                proof {
                    assert(self.head().head().accepts(*input, (o0, o1, o2, o3, o4, o5), r5)
                        && self.head().sep.accepts(r5, s6, n6) && self.head().p6.fails(n6, f));
                }
                return Err(ParserError::Failure(f));
            },
        };
        proof {
            let out = (o0, o1, o2, o3, o4, o5, o6);
            assert(self.head().head().accepts(*input, (out.0, out.1, out.2, out.3, out.4, out.5),
                r5) && self.head().sep.accepts(r5, s6, n6)
                && self.head().p6.accepts(n6, out.6, r6));
        }
        let (s7, n7) = match self.sep.parse(&r6) {
            Ok(x) => x,
            Err(ParserError::Error(e)) => {
                proof {
                    assert(self.head().accepts(*input, (o0, o1, o2, o3, o4, o5, o6), r6)
                        && self.sep.rejects(r6, e));
                }
                return Err(ParserError::Error(e));
            },
            Err(ParserError::Failure(f)) => {
                proof {
                    assert(self.head().accepts(*input, (o0, o1, o2, o3, o4, o5, o6), r6)
                        && self.sep.fails(r6, f));
                }
                return Err(ParserError::Failure(f));
            },
        };
        let (o7, r7) = match self.p7.parse(&n7) {
            Ok(x) => x,
            Err(ParserError::Error(e)) => {
                proof {
                    assert(self.head().accepts(*input, (o0, o1, o2, o3, o4, o5, o6), r6)
                        && self.sep.accepts(r6, s7, n7) && self.p7.rejects(n7, e));
                }
                return Err(ParserError::Error(e));
            },
            Err(ParserError::Failure(f)) => {
                proof {
                    assert(self.head().accepts(*input, (o0, o1, o2, o3, o4, o5, o6), r6)
                        && self.sep.accepts(r6, s7, n7) && self.p7.fails(n7, f));
                }
                return Err(ParserError::Failure(f));
            },
        };
        proof {
            let out = (o0, o1, o2, o3, o4, o5, o6, o7);
            assert(self.head().accepts(*input, (out.0, out.1, out.2, out.3, out.4, out.5, out.6),
                r6) && self.sep.accepts(r6, s7, n7)
                && self.p7.accepts(n7, out.7, r7));
        }
        Ok(((o0, o1, o2, o3, o4, o5, o6, o7), r7))
    }
}

impl<S, P0, P1, P2, P3, P4, P5, P6, P7> Sequence for SeparatedSequence<(P0, P1, P2, P3, P4, P5, P6,
    P7), S> {
    type Joined = SeparatedChain8<S, P0, P1, P2, P3, P4, P5, P6, P7>;

    open spec fn separated(&self) -> bool {
        true
    }

    open spec fn joined(self) -> SeparatedChain8<S, P0, P1, P2, P3, P4, P5, P6, P7> {
        SeparatedChain8 { sep: self.sep, p0: self.seq.0, p1: self.seq.1, p2: self.seq.2,
            p3: self.seq.3, p4: self.seq.4, p5: self.seq.5, p6: self.seq.6, p7: self.seq.7 }
    }

    fn and(self) -> (r: SeparatedChain8<S, P0, P1, P2, P3, P4, P5, P6, P7>) {
        SeparatedChain8 { sep: self.sep, p0: self.seq.0, p1: self.seq.1, p2: self.seq.2,
            p3: self.seq.3, p4: self.seq.4, p5: self.seq.5, p6: self.seq.6, p7: self.seq.7 }
    }
}

} // verus!
