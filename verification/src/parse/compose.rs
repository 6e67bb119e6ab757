//! Parsers run on each other's output.
use crate::parse::{Parser, ParserError, ParserResult};
use vstd::prelude::*;

verus! {

/// A tuple of parsers to be run in a pipeline: each takes the output of the one before it as
/// its whole input.
pub trait Compose: Sized {
    /// The parser that runs the pipeline.
    type Joined;

    /// The parser that runs the first of these parsers on the input and each other one on the
    /// output of the one before it. It succeeds with the output of the last one and with what
    /// the first one left of the input.
    fn map(self) -> (r: Self::Joined)
        ensures
            r == self.joined(),
    ;

    /// The parser that [`map`](Compose::map) returns.
    spec fn joined(self) -> Self::Joined;
}

/// Two parsers run in a pipeline.
pub struct Pipe2<P0, P1> {
    pub p0: P0,
    pub p1: P1,
}

impl<
    I,
    P0: Parser<I>,
    P1: Parser<P0::Output, Error = P0::Error, Failure = P0::Failure>,
> Parser<I> for Pipe2<P0, P1> {
    type Output = P1::Output;

    type Error = P0::Error;

    type Failure = P0::Failure;

    open spec fn inv(&self) -> bool {
        self.p0.inv() && self.p1.inv()
    }

    open spec fn accepts(&self, input: I, out: P1::Output, rest: I) -> bool {
        exists|o: P0::Output, left: P0::Output|
            self.p0.accepts(input, o, rest) && #[trigger] self.p1.accepts(o, out, left)
    }

    open spec fn rejects(&self, input: I, e: P0::Error) -> bool {
        ||| self.p0.rejects(input, e)
        ||| exists|o: P0::Output, rest: I| #[trigger]
            self.p0.accepts(input, o, rest) && self.p1.rejects(o, e)
    }

    open spec fn fails(&self, input: I, f: P0::Failure) -> bool {
        ||| self.p0.fails(input, f)
        ||| exists|o: P0::Output, rest: I| #[trigger]
            self.p0.accepts(input, o, rest) && self.p1.fails(o, f)
    }

    fn parse(&self, input: &I) -> (r: ParserResult<I, P1::Output, P0::Error, P0::Failure>) {
        let (o0, rest) = match self.p0.parse(input) {
            Ok(x) => x,
            Err(e) => {
                return Err(e);
            },
        };
        let (o1, left1) = match self.p1.parse(&o0) {
            Ok(x) => x,
            Err(ParserError::Error(e)) => {
                proof {
                    assert(self.p0.accepts(*input, o0, rest) && self.p1.rejects(o0, e));
                }
                return Err(ParserError::Error(e));
            },
            Err(ParserError::Failure(f)) => {
                proof {
                    assert(self.p0.accepts(*input, o0, rest) && self.p1.fails(o0, f));
                }
                return Err(ParserError::Failure(f));
            },
        };
        proof {
            assert(self.p0.accepts(*input, o0, rest) && self.p1.accepts(o0, o1, left1));
        }
        Ok((o1, rest))
    }
}

impl<P0, P1> Compose for (P0, P1) {
    type Joined = Pipe2<P0, P1>;

    open spec fn joined(self) -> Pipe2<P0, P1> {
        Pipe2 { p0: self.0, p1: self.1 }
    }

    fn map(self) -> (r: Pipe2<P0, P1>) {
        Pipe2 { p0: self.0, p1: self.1 }
    }
}

/// Three parsers run in a pipeline.
pub struct Pipe3<P0, P1, P2> {
    pub p0: P0,
    pub p1: P1,
    pub p2: P2,
}

impl<P0, P1, P2> Pipe3<P0, P1, P2> {
    /// The pipeline of all but the last parser.
    pub open spec fn head(self) -> Pipe2<P0, P1> {
        Pipe2 { p0: self.p0, p1: self.p1 }
    }
}

impl<
    I,
    P0: Parser<I>,
    P1: Parser<P0::Output, Error = P0::Error, Failure = P0::Failure>,
    P2: Parser<P1::Output, Error = P0::Error, Failure = P0::Failure>,
> Parser<I> for Pipe3<P0, P1, P2> {
    type Output = P2::Output;

    type Error = P0::Error;

    type Failure = P0::Failure;

    open spec fn inv(&self) -> bool {
        self.p0.inv() && self.p1.inv() && self.p2.inv()
    }

    open spec fn accepts(&self, input: I, out: P2::Output, rest: I) -> bool {
        exists|o: P1::Output, left: P1::Output|
            self.head().accepts(input, o, rest) && #[trigger] self.p2.accepts(o, out, left)
    }

    open spec fn rejects(&self, input: I, e: P0::Error) -> bool {
        ||| self.head().rejects(input, e)
        ||| exists|o: P1::Output, rest: I| #[trigger]
            self.head().accepts(input, o, rest) && self.p2.rejects(o, e)
    }

    open spec fn fails(&self, input: I, f: P0::Failure) -> bool {
        ||| self.head().fails(input, f)
        ||| exists|o: P1::Output, rest: I| #[trigger]
            self.head().accepts(input, o, rest) && self.p2.fails(o, f)
    }

    fn parse(&self, input: &I) -> (r: ParserResult<I, P2::Output, P0::Error, P0::Failure>) {
        let (o0, rest) = match self.p0.parse(input) {
            Ok(x) => x,
            Err(e) => {
                return Err(e);
            },
        };
        let (o1, left1) = match self.p1.parse(&o0) {
            Ok(x) => x,
            Err(ParserError::Error(e)) => {
                proof {
                    assert(self.head().p0.accepts(*input, o0, rest) && self.head().p1.rejects(o0,
                        e));
                }
                return Err(ParserError::Error(e));
            },
            Err(ParserError::Failure(f)) => {
                proof {
                    assert(self.head().p0.accepts(*input, o0, rest) && self.head().p1.fails(o0, f));
                }
                return Err(ParserError::Failure(f));
            },
        };
        proof {
            assert(self.head().p0.accepts(*input, o0, rest) && self.head().p1.accepts(o0, o1,
                left1));
        }
        let (o2, left2) = match self.p2.parse(&o1) {
            Ok(x) => x,
            Err(ParserError::Error(e)) => {
                proof {
                    assert(self.head().accepts(*input, o1, rest) && self.p2.rejects(o1, e));
                }
                return Err(ParserError::Error(e));
            },
            Err(ParserError::Failure(f)) => {
                proof {
                    assert(self.head().accepts(*input, o1, rest) && self.p2.fails(o1, f));
                }
                return Err(ParserError::Failure(f));
            },
        };
        proof {
            assert(self.head().accepts(*input, o1, rest) && self.p2.accepts(o1, o2, left2));
        }
        Ok((o2, rest))
    }
}

impl<P0, P1, P2> Compose for (P0, P1, P2) {
    type Joined = Pipe3<P0, P1, P2>;

    open spec fn joined(self) -> Pipe3<P0, P1, P2> {
        Pipe3 { p0: self.0, p1: self.1, p2: self.2 }
    }

    fn map(self) -> (r: Pipe3<P0, P1, P2>) {
        Pipe3 { p0: self.0, p1: self.1, p2: self.2 }
    }
}

/// Four parsers run in a pipeline.
pub struct Pipe4<P0, P1, P2, P3> {
    pub p0: P0,
    pub p1: P1,
    pub p2: P2,
    pub p3: P3,
}

impl<P0, P1, P2, P3> Pipe4<P0, P1, P2, P3> {
    /// The pipeline of all but the last parser.
    pub open spec fn head(self) -> Pipe3<P0, P1, P2> {
        Pipe3 { p0: self.p0, p1: self.p1, p2: self.p2 }
    }
}

impl<
    I,
    P0: Parser<I>,
    P1: Parser<P0::Output, Error = P0::Error, Failure = P0::Failure>,
    P2: Parser<P1::Output, Error = P0::Error, Failure = P0::Failure>,
    P3: Parser<P2::Output, Error = P0::Error, Failure = P0::Failure>,
> Parser<I> for Pipe4<P0, P1, P2, P3> {
    type Output = P3::Output;

    type Error = P0::Error;

    type Failure = P0::Failure;

    open spec fn inv(&self) -> bool {
        self.p0.inv() && self.p1.inv() && self.p2.inv() && self.p3.inv()
    }

    open spec fn accepts(&self, input: I, out: P3::Output, rest: I) -> bool {
        exists|o: P2::Output, left: P2::Output|
            self.head().accepts(input, o, rest) && #[trigger] self.p3.accepts(o, out, left)
    }

    open spec fn rejects(&self, input: I, e: P0::Error) -> bool {
        ||| self.head().rejects(input, e)
        ||| exists|o: P2::Output, rest: I| #[trigger]
            self.head().accepts(input, o, rest) && self.p3.rejects(o, e)
    }

    open spec fn fails(&self, input: I, f: P0::Failure) -> bool {
        ||| self.head().fails(input, f)
        ||| exists|o: P2::Output, rest: I| #[trigger]
            self.head().accepts(input, o, rest) && self.p3.fails(o, f)
    }

    fn parse(&self, input: &I) -> (r: ParserResult<I, P3::Output, P0::Error, P0::Failure>) {
        let (o0, rest) = match self.p0.parse(input) {
            Ok(x) => x,
            Err(e) => {
                return Err(e);
            },
        };
        let (o1, left1) = match self.p1.parse(&o0) {
            Ok(x) => x,
            Err(ParserError::Error(e)) => {
                proof {
                    assert(self.head().head().p0.accepts(*input, o0, rest)
                        && self.head().head().p1.rejects(o0, e));
                    assert(self.head().rejects(*input, e));
                }
                return Err(ParserError::Error(e));
            },
            Err(ParserError::Failure(f)) => {
                proof {
                    assert(self.head().head().p0.accepts(*input, o0, rest)
                        && self.head().head().p1.fails(o0, f));
                    assert(self.head().fails(*input, f));
                }
                return Err(ParserError::Failure(f));
            },
        };
        proof {
            assert(self.head().head().p0.accepts(*input, o0, rest)
                && self.head().head().p1.accepts(o0, o1, left1));
        }
        let (o2, left2) = match self.p2.parse(&o1) {
            Ok(x) => x,
            Err(ParserError::Error(e)) => {
                proof {
                    assert(self.head().head().accepts(*input, o1, rest)
                        && self.head().p2.rejects(o1, e));
                }
                return Err(ParserError::Error(e));
            },
            Err(ParserError::Failure(f)) => {
                proof {
                    assert(self.head().head().accepts(*input, o1, rest) && self.head().p2.fails(o1,
                        f));
                }
                return Err(ParserError::Failure(f));
            },
        };
        proof {
            assert(self.head().head().accepts(*input, o1, rest) && self.head().p2.accepts(o1, o2,
                left2));
        }
        let (o3, left3) = match self.p3.parse(&o2) {
            Ok(x) => x,
            Err(ParserError::Error(e)) => {
                proof {
                    assert(self.head().accepts(*input, o2, rest) && self.p3.rejects(o2, e));
                }
                return Err(ParserError::Error(e));
            },
            Err(ParserError::Failure(f)) => {
                proof {
                    assert(self.head().accepts(*input, o2, rest) && self.p3.fails(o2, f));
                }
                return Err(ParserError::Failure(f));
            },
        };
        proof {
            assert(self.head().accepts(*input, o2, rest) && self.p3.accepts(o2, o3, left3));
        }
        Ok((o3, rest))
    }
}

impl<P0, P1, P2, P3> Compose for (P0, P1, P2, P3) {
    type Joined = Pipe4<P0, P1, P2, P3>;

    open spec fn joined(self) -> Pipe4<P0, P1, P2, P3> {
        Pipe4 { p0: self.0, p1: self.1, p2: self.2, p3: self.3 }
    }

    fn map(self) -> (r: Pipe4<P0, P1, P2, P3>) {
        Pipe4 { p0: self.0, p1: self.1, p2: self.2, p3: self.3 }
    }
}

/// Five parsers run in a pipeline.
pub struct Pipe5<P0, P1, P2, P3, P4> {
    pub p0: P0,
    pub p1: P1,
    pub p2: P2,
    pub p3: P3,
    pub p4: P4,
}

impl<P0, P1, P2, P3, P4> Pipe5<P0, P1, P2, P3, P4> {
    /// The pipeline of all but the last parser.
    pub open spec fn head(self) -> Pipe4<P0, P1, P2, P3> {
        Pipe4 { p0: self.p0, p1: self.p1, p2: self.p2, p3: self.p3 }
    }
}

impl<
    I,
    P0: Parser<I>,
    P1: Parser<P0::Output, Error = P0::Error, Failure = P0::Failure>,
    P2: Parser<P1::Output, Error = P0::Error, Failure = P0::Failure>,
    P3: Parser<P2::Output, Error = P0::Error, Failure = P0::Failure>,
    P4: Parser<P3::Output, Error = P0::Error, Failure = P0::Failure>,
> Parser<I> for Pipe5<P0, P1, P2, P3, P4> {
    type Output = P4::Output;

    type Error = P0::Error;

    type Failure = P0::Failure;

    open spec fn inv(&self) -> bool {
        self.p0.inv() && self.p1.inv() && self.p2.inv() && self.p3.inv() && self.p4.inv()
    }

    open spec fn accepts(&self, input: I, out: P4::Output, rest: I) -> bool {
        exists|o: P3::Output, left: P3::Output|
            self.head().accepts(input, o, rest) && #[trigger] self.p4.accepts(o, out, left)
    }

    open spec fn rejects(&self, input: I, e: P0::Error) -> bool {
        ||| self.head().rejects(input, e)
        ||| exists|o: P3::Output, rest: I| #[trigger]
            self.head().accepts(input, o, rest) && self.p4.rejects(o, e)
    }

    open spec fn fails(&self, input: I, f: P0::Failure) -> bool {
        ||| self.head().fails(input, f)
        ||| exists|o: P3::Output, rest: I| #[trigger]
            self.head().accepts(input, o, rest) && self.p4.fails(o, f)
    }

    fn parse(&self, input: &I) -> (r: ParserResult<I, P4::Output, P0::Error, P0::Failure>) {
        let (o0, rest) = match self.p0.parse(input) {
            Ok(x) => x,
            Err(e) => {
                return Err(e);
            },
        };
        let (o1, left1) = match self.p1.parse(&o0) {
            Ok(x) => x,
            Err(ParserError::Error(e)) => {
                proof {
                    assert(self.head().head().head().p0.accepts(*input, o0, rest)
                        && self.head().head().head().p1.rejects(o0, e));
                    assert(self.head().head().rejects(*input, e));
                    assert(self.head().rejects(*input, e));
                }
                return Err(ParserError::Error(e));
            },
            Err(ParserError::Failure(f)) => {
                proof {
                    assert(self.head().head().head().p0.accepts(*input, o0, rest)
                        && self.head().head().head().p1.fails(o0, f));
                    assert(self.head().head().fails(*input, f));
                    assert(self.head().fails(*input, f));
                }
                return Err(ParserError::Failure(f));
            },
        };
        proof {
            assert(self.head().head().head().p0.accepts(*input, o0, rest)
                && self.head().head().head().p1.accepts(o0, o1, left1));
        }
        let (o2, left2) = match self.p2.parse(&o1) {
            Ok(x) => x,
            Err(ParserError::Error(e)) => {
                proof {
                    assert(self.head().head().head().accepts(*input, o1, rest)
                        && self.head().head().p2.rejects(o1, e));
                    assert(self.head().rejects(*input, e));
                }
                return Err(ParserError::Error(e));
            },
            Err(ParserError::Failure(f)) => {
                proof {
                    assert(self.head().head().head().accepts(*input, o1, rest)
                        && self.head().head().p2.fails(o1, f));
                    assert(self.head().fails(*input, f));
                }
                return Err(ParserError::Failure(f));
            },
        };
        proof {
            assert(self.head().head().head().accepts(*input, o1, rest)
                && self.head().head().p2.accepts(o1, o2, left2));
        }
        let (o3, left3) = match self.p3.parse(&o2) {
            Ok(x) => x,
            Err(ParserError::Error(e)) => {
                proof {
                    assert(self.head().head().accepts(*input, o2, rest)
                        && self.head().p3.rejects(o2, e));
                }
                return Err(ParserError::Error(e));
            },
            Err(ParserError::Failure(f)) => {
                proof {
                    assert(self.head().head().accepts(*input, o2, rest) && self.head().p3.fails(o2,
                        f));
                }
                return Err(ParserError::Failure(f));
            },
        };
        proof {
            assert(self.head().head().accepts(*input, o2, rest) && self.head().p3.accepts(o2, o3,
                left3));
        }
        let (o4, left4) = match self.p4.parse(&o3) {
            Ok(x) => x,
            Err(ParserError::Error(e)) => {
                proof {
                    assert(self.head().accepts(*input, o3, rest) && self.p4.rejects(o3, e));
                }
                return Err(ParserError::Error(e));
            },
            Err(ParserError::Failure(f)) => {
                proof {
                    assert(self.head().accepts(*input, o3, rest) && self.p4.fails(o3, f));
                }
                return Err(ParserError::Failure(f));
            },
        };
        proof {
            assert(self.head().accepts(*input, o3, rest) && self.p4.accepts(o3, o4, left4));
        }
        Ok((o4, rest))
    }
}

impl<P0, P1, P2, P3, P4> Compose for (P0, P1, P2, P3, P4) {
    type Joined = Pipe5<P0, P1, P2, P3, P4>;

    open spec fn joined(self) -> Pipe5<P0, P1, P2, P3, P4> {
        Pipe5 { p0: self.0, p1: self.1, p2: self.2, p3: self.3, p4: self.4 }
    }

    fn map(self) -> (r: Pipe5<P0, P1, P2, P3, P4>) {
        Pipe5 { p0: self.0, p1: self.1, p2: self.2, p3: self.3, p4: self.4 }
    }
}

/// Six parsers run in a pipeline.
pub struct Pipe6<P0, P1, P2, P3, P4, P5> {
    pub p0: P0,
    pub p1: P1,
    pub p2: P2,
    pub p3: P3,
    pub p4: P4,
    pub p5: P5,
}

impl<P0, P1, P2, P3, P4, P5> Pipe6<P0, P1, P2, P3, P4, P5> {
    /// The pipeline of all but the last parser.
    pub open spec fn head(self) -> Pipe5<P0, P1, P2, P3, P4> {
        Pipe5 { p0: self.p0, p1: self.p1, p2: self.p2, p3: self.p3, p4: self.p4 }
    }
}

impl<
    I,
    P0: Parser<I>,
    P1: Parser<P0::Output, Error = P0::Error, Failure = P0::Failure>,
    P2: Parser<P1::Output, Error = P0::Error, Failure = P0::Failure>,
    P3: Parser<P2::Output, Error = P0::Error, Failure = P0::Failure>,
    P4: Parser<P3::Output, Error = P0::Error, Failure = P0::Failure>,
    P5: Parser<P4::Output, Error = P0::Error, Failure = P0::Failure>,
> Parser<I> for Pipe6<P0, P1, P2, P3, P4, P5> {
    type Output = P5::Output;

    type Error = P0::Error;

    type Failure = P0::Failure;

    open spec fn inv(&self) -> bool {
        self.p0.inv() && self.p1.inv() && self.p2.inv() && self.p3.inv() && self.p4.inv()
            && self.p5.inv()
    }

    open spec fn accepts(&self, input: I, out: P5::Output, rest: I) -> bool {
        exists|o: P4::Output, left: P4::Output|
            self.head().accepts(input, o, rest) && #[trigger] self.p5.accepts(o, out, left)
    }

    open spec fn rejects(&self, input: I, e: P0::Error) -> bool {
        ||| self.head().rejects(input, e)
        ||| exists|o: P4::Output, rest: I| #[trigger]
            self.head().accepts(input, o, rest) && self.p5.rejects(o, e)
    }

    open spec fn fails(&self, input: I, f: P0::Failure) -> bool {
        ||| self.head().fails(input, f)
        ||| exists|o: P4::Output, rest: I| #[trigger]
            self.head().accepts(input, o, rest) && self.p5.fails(o, f)
    }

    fn parse(&self, input: &I) -> (r: ParserResult<I, P5::Output, P0::Error, P0::Failure>) {
        let (o0, rest) = match self.p0.parse(input) {
            Ok(x) => x,
            Err(e) => {
                return Err(e);
            },
        };
        let (o1, left1) = match self.p1.parse(&o0) {
            Ok(x) => x,
            Err(ParserError::Error(e)) => {
                proof {
                    assert(self.head().head().head().head().p0.accepts(*input, o0, rest)
                        && self.head().head().head().head().p1.rejects(o0, e));
                    assert(self.head().head().head().rejects(*input, e));
                    assert(self.head().head().rejects(*input, e));
                    assert(self.head().rejects(*input, e));
                }
                return Err(ParserError::Error(e));
            },
            Err(ParserError::Failure(f)) => {
                proof {
                    assert(self.head().head().head().head().p0.accepts(*input, o0, rest)
                        && self.head().head().head().head().p1.fails(o0, f));
                    assert(self.head().head().head().fails(*input, f));
                    assert(self.head().head().fails(*input, f));
                    assert(self.head().fails(*input, f));
                }
                return Err(ParserError::Failure(f));
            },
        };
        proof {
            assert(self.head().head().head().head().p0.accepts(*input, o0, rest)
                && self.head().head().head().head().p1.accepts(o0, o1, left1));
        }
        let (o2, left2) = match self.p2.parse(&o1) {
            Ok(x) => x,
            Err(ParserError::Error(e)) => {
                proof {
                    assert(self.head().head().head().head().accepts(*input, o1, rest)
                        && self.head().head().head().p2.rejects(o1, e));
                    assert(self.head().head().rejects(*input, e));
                    assert(self.head().rejects(*input, e));
                }
                return Err(ParserError::Error(e));
            },
            Err(ParserError::Failure(f)) => {
                proof {
                    assert(self.head().head().head().head().accepts(*input, o1, rest)
                        && self.head().head().head().p2.fails(o1, f));
                    assert(self.head().head().fails(*input, f));
                    assert(self.head().fails(*input, f));
                }
                return Err(ParserError::Failure(f));
            },
        };
        proof {
            assert(self.head().head().head().head().accepts(*input, o1, rest)
                && self.head().head().head().p2.accepts(o1, o2, left2));
        }
        let (o3, left3) = match self.p3.parse(&o2) {
            Ok(x) => x,
            Err(ParserError::Error(e)) => {
                proof {
                    assert(self.head().head().head().accepts(*input, o2, rest)
                        && self.head().head().p3.rejects(o2, e));
                    assert(self.head().rejects(*input, e));
                }
                return Err(ParserError::Error(e));
            },
            Err(ParserError::Failure(f)) => {
                proof {
                    assert(self.head().head().head().accepts(*input, o2, rest)
                        && self.head().head().p3.fails(o2, f));
                    assert(self.head().fails(*input, f));
                }
                return Err(ParserError::Failure(f));
            },
        };
        proof {
            assert(self.head().head().head().accepts(*input, o2, rest)
                && self.head().head().p3.accepts(o2, o3, left3));
        }
        let (o4, left4) = match self.p4.parse(&o3) {
            Ok(x) => x,
            Err(ParserError::Error(e)) => {
                proof {
                    assert(self.head().head().accepts(*input, o3, rest)
                        && self.head().p4.rejects(o3, e));
                }
                return Err(ParserError::Error(e));
            },
            Err(ParserError::Failure(f)) => {
                proof {
                    assert(self.head().head().accepts(*input, o3, rest) && self.head().p4.fails(o3,
                        f));
                }
                return Err(ParserError::Failure(f));
            },
        };
        proof {
            assert(self.head().head().accepts(*input, o3, rest) && self.head().p4.accepts(o3, o4,
                left4));
        }
        let (o5, left5) = match self.p5.parse(&o4) {
            Ok(x) => x,
            Err(ParserError::Error(e)) => {
                proof {
                    assert(self.head().accepts(*input, o4, rest) && self.p5.rejects(o4, e));
                }
                return Err(ParserError::Error(e));
            },
            Err(ParserError::Failure(f)) => {
                proof {
                    assert(self.head().accepts(*input, o4, rest) && self.p5.fails(o4, f));
                }
                return Err(ParserError::Failure(f));
            },
        };
        proof {
            assert(self.head().accepts(*input, o4, rest) && self.p5.accepts(o4, o5, left5));
        }
        Ok((o5, rest))
    }
}

impl<P0, P1, P2, P3, P4, P5> Compose for (P0, P1, P2, P3, P4, P5) {
    type Joined = Pipe6<P0, P1, P2, P3, P4, P5>;

    open spec fn joined(self) -> Pipe6<P0, P1, P2, P3, P4, P5> {
        Pipe6 { p0: self.0, p1: self.1, p2: self.2, p3: self.3, p4: self.4, p5: self.5 }
    }

    fn map(self) -> (r: Pipe6<P0, P1, P2, P3, P4, P5>) {
        Pipe6 { p0: self.0, p1: self.1, p2: self.2, p3: self.3, p4: self.4, p5: self.5 }
    }
}

/// Seven parsers run in a pipeline.
pub struct Pipe7<P0, P1, P2, P3, P4, P5, P6> {
    pub p0: P0,
    pub p1: P1,
    pub p2: P2,
    pub p3: P3,
    pub p4: P4,
    pub p5: P5,
    pub p6: P6,
}

impl<P0, P1, P2, P3, P4, P5, P6> Pipe7<P0, P1, P2, P3, P4, P5, P6> {
    /// The pipeline of all but the last parser.
    pub open spec fn head(self) -> Pipe6<P0, P1, P2, P3, P4, P5> {
        Pipe6 { p0: self.p0, p1: self.p1, p2: self.p2, p3: self.p3, p4: self.p4, p5: self.p5 }
    }
}

impl<
    I,
    P0: Parser<I>,
    P1: Parser<P0::Output, Error = P0::Error, Failure = P0::Failure>,
    P2: Parser<P1::Output, Error = P0::Error, Failure = P0::Failure>,
    P3: Parser<P2::Output, Error = P0::Error, Failure = P0::Failure>,
    P4: Parser<P3::Output, Error = P0::Error, Failure = P0::Failure>,
    P5: Parser<P4::Output, Error = P0::Error, Failure = P0::Failure>,
    P6: Parser<P5::Output, Error = P0::Error, Failure = P0::Failure>,
> Parser<I> for Pipe7<P0, P1, P2, P3, P4, P5, P6> {
    type Output = P6::Output;

    type Error = P0::Error;

    type Failure = P0::Failure;

    open spec fn inv(&self) -> bool {
        self.p0.inv() && self.p1.inv() && self.p2.inv() && self.p3.inv() && self.p4.inv()
            && self.p5.inv() && self.p6.inv()
    }

    open spec fn accepts(&self, input: I, out: P6::Output, rest: I) -> bool {
        exists|o: P5::Output, left: P5::Output|
            self.head().accepts(input, o, rest) && #[trigger] self.p6.accepts(o, out, left)
    }

    open spec fn rejects(&self, input: I, e: P0::Error) -> bool {
        ||| self.head().rejects(input, e)
        ||| exists|o: P5::Output, rest: I| #[trigger]
            self.head().accepts(input, o, rest) && self.p6.rejects(o, e)
    }

    open spec fn fails(&self, input: I, f: P0::Failure) -> bool {
        ||| self.head().fails(input, f)
        ||| exists|o: P5::Output, rest: I| #[trigger]
            self.head().accepts(input, o, rest) && self.p6.fails(o, f)
    }

    fn parse(&self, input: &I) -> (r: ParserResult<I, P6::Output, P0::Error, P0::Failure>) {
        let (o0, rest) = match self.p0.parse(input) {
            Ok(x) => x,
            Err(e) => {
                return Err(e);
            },
        };
        let (o1, left1) = match self.p1.parse(&o0) {
            Ok(x) => x,
            Err(ParserError::Error(e)) => {
                proof {
                    assert(self.head().head().head().head().head().p0.accepts(*input, o0, rest)
                        && self.head().head().head().head().head().p1.rejects(o0, e));
                    assert(self.head().head().head().head().rejects(*input, e));
                    assert(self.head().head().head().rejects(*input, e));
                    assert(self.head().head().rejects(*input, e));
                    assert(self.head().rejects(*input, e));
                }
                return Err(ParserError::Error(e));
            },
            Err(ParserError::Failure(f)) => {
                proof {
                    assert(self.head().head().head().head().head().p0.accepts(*input, o0, rest)
                        && self.head().head().head().head().head().p1.fails(o0, f));
                    assert(self.head().head().head().head().fails(*input, f));
                    assert(self.head().head().head().fails(*input, f));
                    assert(self.head().head().fails(*input, f));
                    assert(self.head().fails(*input, f));
                }
                return Err(ParserError::Failure(f));
            },
        };
        proof {
            assert(self.head().head().head().head().head().p0.accepts(*input, o0, rest)
                && self.head().head().head().head().head().p1.accepts(o0, o1, left1));
        }
        let (o2, left2) = match self.p2.parse(&o1) {
            Ok(x) => x,
            Err(ParserError::Error(e)) => {
                proof {
                    assert(self.head().head().head().head().head().accepts(*input, o1, rest)
                        && self.head().head().head().head().p2.rejects(o1, e));
                    assert(self.head().head().head().rejects(*input, e));
                    assert(self.head().head().rejects(*input, e));
                    assert(self.head().rejects(*input, e));
                }
                return Err(ParserError::Error(e));
            },
            Err(ParserError::Failure(f)) => {
                proof {
                    assert(self.head().head().head().head().head().accepts(*input, o1, rest)
                        && self.head().head().head().head().p2.fails(o1, f));
                    assert(self.head().head().head().fails(*input, f));
                    assert(self.head().head().fails(*input, f));
                    assert(self.head().fails(*input, f));
                }
                return Err(ParserError::Failure(f));
            },
        };
        proof {
            assert(self.head().head().head().head().head().accepts(*input, o1, rest)
                && self.head().head().head().head().p2.accepts(o1, o2, left2));
        }
        let (o3, left3) = match self.p3.parse(&o2) {
            Ok(x) => x,
            Err(ParserError::Error(e)) => {
                proof {
                    assert(self.head().head().head().head().accepts(*input, o2, rest)
                        && self.head().head().head().p3.rejects(o2, e));
                    assert(self.head().head().rejects(*input, e));
                    assert(self.head().rejects(*input, e));
                }
                return Err(ParserError::Error(e));
            },
            Err(ParserError::Failure(f)) => {
                proof {
                    assert(self.head().head().head().head().accepts(*input, o2, rest)
                        && self.head().head().head().p3.fails(o2, f));
                    assert(self.head().head().fails(*input, f));
                    assert(self.head().fails(*input, f));
                }
                return Err(ParserError::Failure(f));
            },
        };
        proof {
            assert(self.head().head().head().head().accepts(*input, o2, rest)
                && self.head().head().head().p3.accepts(o2, o3, left3));
        }
        let (o4, left4) = match self.p4.parse(&o3) {
            Ok(x) => x,
            Err(ParserError::Error(e)) => {
                proof {
                    assert(self.head().head().head().accepts(*input, o3, rest)
                        && self.head().head().p4.rejects(o3, e));
                    assert(self.head().rejects(*input, e));
                }
                return Err(ParserError::Error(e));
            },
            Err(ParserError::Failure(f)) => {
                proof {
                    assert(self.head().head().head().accepts(*input, o3, rest)
                        && self.head().head().p4.fails(o3, f));
                    assert(self.head().fails(*input, f));
                }
                return Err(ParserError::Failure(f));
            },
        };
        proof {
            assert(self.head().head().head().accepts(*input, o3, rest)
                && self.head().head().p4.accepts(o3, o4, left4));
        }
        let (o5, left5) = match self.p5.parse(&o4) {
            Ok(x) => x,
            Err(ParserError::Error(e)) => {
                proof {
                    assert(self.head().head().accepts(*input, o4, rest)
                        && self.head().p5.rejects(o4, e));
                }
                return Err(ParserError::Error(e));
            },
            Err(ParserError::Failure(f)) => {
                proof {
                    assert(self.head().head().accepts(*input, o4, rest) && self.head().p5.fails(o4,
                        f));
                }
                return Err(ParserError::Failure(f));
            },
        };
        proof {
            assert(self.head().head().accepts(*input, o4, rest) && self.head().p5.accepts(o4, o5,
                left5));
        }
        let (o6, left6) = match self.p6.parse(&o5) {
            Ok(x) => x,
            Err(ParserError::Error(e)) => {
                proof {
                    assert(self.head().accepts(*input, o5, rest) && self.p6.rejects(o5, e));
                }
                return Err(ParserError::Error(e));
            },
            Err(ParserError::Failure(f)) => {
                proof {
                    assert(self.head().accepts(*input, o5, rest) && self.p6.fails(o5, f));
                }
                return Err(ParserError::Failure(f));
            },
        };
        proof {
            assert(self.head().accepts(*input, o5, rest) && self.p6.accepts(o5, o6, left6));
        }
        Ok((o6, rest))
    }
}

impl<P0, P1, P2, P3, P4, P5, P6> Compose for (P0, P1, P2, P3, P4, P5, P6) {
    type Joined = Pipe7<P0, P1, P2, P3, P4, P5, P6>;

    open spec fn joined(self) -> Pipe7<P0, P1, P2, P3, P4, P5, P6> {
        Pipe7 { p0: self.0, p1: self.1, p2: self.2, p3: self.3, p4: self.4, p5: self.5, p6: self.6 }
    }

    fn map(self) -> (r: Pipe7<P0, P1, P2, P3, P4, P5, P6>) {
        Pipe7 { p0: self.0, p1: self.1, p2: self.2, p3: self.3, p4: self.4, p5: self.5, p6: self.6 }
    }
}

/// Eight parsers run in a pipeline.
pub struct Pipe8<P0, P1, P2, P3, P4, P5, P6, P7> {
    pub p0: P0,
    pub p1: P1,
    pub p2: P2,
    pub p3: P3,
    pub p4: P4,
    pub p5: P5,
    pub p6: P6,
    pub p7: P7,
}

impl<P0, P1, P2, P3, P4, P5, P6, P7> Pipe8<P0, P1, P2, P3, P4, P5, P6, P7> {
    /// The pipeline of all but the last parser.
    pub open spec fn head(self) -> Pipe7<P0, P1, P2, P3, P4, P5, P6> {
        Pipe7 { p0: self.p0, p1: self.p1, p2: self.p2, p3: self.p3, p4: self.p4, p5: self.p5,
            p6: self.p6 }
    }
}

impl<
    I,
    P0: Parser<I>,
    P1: Parser<P0::Output, Error = P0::Error, Failure = P0::Failure>,
    P2: Parser<P1::Output, Error = P0::Error, Failure = P0::Failure>,
    P3: Parser<P2::Output, Error = P0::Error, Failure = P0::Failure>,
    P4: Parser<P3::Output, Error = P0::Error, Failure = P0::Failure>,
    P5: Parser<P4::Output, Error = P0::Error, Failure = P0::Failure>,
    P6: Parser<P5::Output, Error = P0::Error, Failure = P0::Failure>,
    P7: Parser<P6::Output, Error = P0::Error, Failure = P0::Failure>,
> Parser<I> for Pipe8<P0, P1, P2, P3, P4, P5, P6, P7> {
    type Output = P7::Output;

    type Error = P0::Error;

    type Failure = P0::Failure;

    open spec fn inv(&self) -> bool {
        self.p0.inv() && self.p1.inv() && self.p2.inv() && self.p3.inv() && self.p4.inv()
            && self.p5.inv() && self.p6.inv() && self.p7.inv()
    }

    open spec fn accepts(&self, input: I, out: P7::Output, rest: I) -> bool {
        exists|o: P6::Output, left: P6::Output|
            self.head().accepts(input, o, rest) && #[trigger] self.p7.accepts(o, out, left)
    }

    open spec fn rejects(&self, input: I, e: P0::Error) -> bool {
        ||| self.head().rejects(input, e)
        ||| exists|o: P6::Output, rest: I| #[trigger]
            self.head().accepts(input, o, rest) && self.p7.rejects(o, e)
    }

    open spec fn fails(&self, input: I, f: P0::Failure) -> bool {
        ||| self.head().fails(input, f)
        ||| exists|o: P6::Output, rest: I| #[trigger]
            self.head().accepts(input, o, rest) && self.p7.fails(o, f)
    }

    fn parse(&self, input: &I) -> (r: ParserResult<I, P7::Output, P0::Error, P0::Failure>) {
        let (o0, rest) = match self.p0.parse(input) {
            Ok(x) => x,
            Err(e) => {
                return Err(e);
            },
        };
        let (o1, left1) = match self.p1.parse(&o0) {
            Ok(x) => x,
            Err(ParserError::Error(e)) => {
                proof {
                    assert(self.head().head().head().head().head().head().p0.accepts(*input, o0,
                        rest) && self.head().head().head().head().head().head().p1.rejects(o0, e));
                    assert(self.head().head().head().head().head().rejects(*input, e));
                    assert(self.head().head().head().head().rejects(*input, e));
                    assert(self.head().head().head().rejects(*input, e));
                    assert(self.head().head().rejects(*input, e));
                    assert(self.head().rejects(*input, e));
                }
                return Err(ParserError::Error(e));
            },
            Err(ParserError::Failure(f)) => {
                proof {
                    assert(self.head().head().head().head().head().head().p0.accepts(*input, o0,
                        rest) && self.head().head().head().head().head().head().p1.fails(o0, f));
                    assert(self.head().head().head().head().head().fails(*input, f));
                    assert(self.head().head().head().head().fails(*input, f));
                    assert(self.head().head().head().fails(*input, f));
                    assert(self.head().head().fails(*input, f));
                    assert(self.head().fails(*input, f));
                }
                return Err(ParserError::Failure(f));
            },
        };
        proof {
            assert(self.head().head().head().head().head().head().p0.accepts(*input, o0, rest)
                && self.head().head().head().head().head().head().p1.accepts(o0, o1, left1));
        }
        let (o2, left2) = match self.p2.parse(&o1) {
            Ok(x) => x,
            Err(ParserError::Error(e)) => {
                proof {
                    assert(self.head().head().head().head().head().head().accepts(*input, o1,
                        rest) && self.head().head().head().head().head().p2.rejects(o1, e));
                    assert(self.head().head().head().head().rejects(*input, e));
                    assert(self.head().head().head().rejects(*input, e));
                    assert(self.head().head().rejects(*input, e));
                    assert(self.head().rejects(*input, e));
                }
                return Err(ParserError::Error(e));
            },
            Err(ParserError::Failure(f)) => {
                proof {
                    assert(self.head().head().head().head().head().head().accepts(*input, o1,
                        rest) && self.head().head().head().head().head().p2.fails(o1, f));
                    assert(self.head().head().head().head().fails(*input, f));
                    assert(self.head().head().head().fails(*input, f));
                    assert(self.head().head().fails(*input, f));
                    assert(self.head().fails(*input, f));
                }
                return Err(ParserError::Failure(f));
            },
        };
        proof {
            assert(self.head().head().head().head().head().head().accepts(*input, o1, rest)
                && self.head().head().head().head().head().p2.accepts(o1, o2, left2));
        }
        let (o3, left3) = match self.p3.parse(&o2) {
            Ok(x) => x,
            Err(ParserError::Error(e)) => {
                proof {
                    assert(self.head().head().head().head().head().accepts(*input, o2, rest)
                        && self.head().head().head().head().p3.rejects(o2, e));
                    assert(self.head().head().head().rejects(*input, e));
                    assert(self.head().head().rejects(*input, e));
                    assert(self.head().rejects(*input, e));
                }
                return Err(ParserError::Error(e));
            },
            Err(ParserError::Failure(f)) => {
                proof {
                    assert(self.head().head().head().head().head().accepts(*input, o2, rest)
                        && self.head().head().head().head().p3.fails(o2, f));
                    assert(self.head().head().head().fails(*input, f));
                    assert(self.head().head().fails(*input, f));
                    assert(self.head().fails(*input, f));
                }
                return Err(ParserError::Failure(f));
            },
        };
        proof {
            assert(self.head().head().head().head().head().accepts(*input, o2, rest)
                && self.head().head().head().head().p3.accepts(o2, o3, left3));
        }
        let (o4, left4) = match self.p4.parse(&o3) {
            Ok(x) => x,
            Err(ParserError::Error(e)) => {
                proof {
                    assert(self.head().head().head().head().accepts(*input, o3, rest)
                        && self.head().head().head().p4.rejects(o3, e));
                    assert(self.head().head().rejects(*input, e));
                    assert(self.head().rejects(*input, e));
                }
                return Err(ParserError::Error(e));
            },
            Err(ParserError::Failure(f)) => {
                proof {
                    assert(self.head().head().head().head().accepts(*input, o3, rest)
                        && self.head().head().head().p4.fails(o3, f));
                    assert(self.head().head().fails(*input, f));
                    assert(self.head().fails(*input, f));
                }
                return Err(ParserError::Failure(f));
            },
        };
        proof {
            assert(self.head().head().head().head().accepts(*input, o3, rest)
                && self.head().head().head().p4.accepts(o3, o4, left4));
        }
        let (o5, left5) = match self.p5.parse(&o4) {
            Ok(x) => x,
            Err(ParserError::Error(e)) => {
                proof {
                    assert(self.head().head().head().accepts(*input, o4, rest)
                        && self.head().head().p5.rejects(o4, e));
                    assert(self.head().rejects(*input, e));
                }
                return Err(ParserError::Error(e));
            },
            Err(ParserError::Failure(f)) => {
                proof {
                    assert(self.head().head().head().accepts(*input, o4, rest)
                        && self.head().head().p5.fails(o4, f));
                    assert(self.head().fails(*input, f));
                }
                return Err(ParserError::Failure(f));
            },
        };
        proof {
            assert(self.head().head().head().accepts(*input, o4, rest)
                && self.head().head().p5.accepts(o4, o5, left5));
        }
        let (o6, left6) = match self.p6.parse(&o5) {
            Ok(x) => x,
            Err(ParserError::Error(e)) => {
                proof {
                    assert(self.head().head().accepts(*input, o5, rest)
                        && self.head().p6.rejects(o5, e));
                }
                return Err(ParserError::Error(e));
            },
            Err(ParserError::Failure(f)) => {
                proof {
                    assert(self.head().head().accepts(*input, o5, rest) && self.head().p6.fails(o5,
                        f));
                }
                return Err(ParserError::Failure(f));
            },
        };
        proof {
            assert(self.head().head().accepts(*input, o5, rest) && self.head().p6.accepts(o5, o6,
                left6));
        }
        let (o7, left7) = match self.p7.parse(&o6) {
            Ok(x) => x,
            Err(ParserError::Error(e)) => {
                proof {
                    assert(self.head().accepts(*input, o6, rest) && self.p7.rejects(o6, e));
                }
                return Err(ParserError::Error(e));
            },
            Err(ParserError::Failure(f)) => {
                proof {
                    assert(self.head().accepts(*input, o6, rest) && self.p7.fails(o6, f));
                }
                return Err(ParserError::Failure(f));
            },
        };
        proof {
            assert(self.head().accepts(*input, o6, rest) && self.p7.accepts(o6, o7, left7));
        }
        Ok((o7, rest))
    }
}

impl<P0, P1, P2, P3, P4, P5, P6, P7> Compose for (P0, P1, P2, P3, P4, P5, P6, P7) {
    type Joined = Pipe8<P0, P1, P2, P3, P4, P5, P6, P7>;

    open spec fn joined(self) -> Pipe8<P0, P1, P2, P3, P4, P5, P6, P7> {
        Pipe8 { p0: self.0, p1: self.1, p2: self.2, p3: self.3, p4: self.4, p5: self.5, p6: self.6,
            p7: self.7 }
    }

    fn map(self) -> (r: Pipe8<P0, P1, P2, P3, P4, P5, P6, P7>) {
        Pipe8 { p0: self.0, p1: self.1, p2: self.2, p3: self.3, p4: self.4, p5: self.5, p6: self.6,
            p7: self.7 }
    }
}

} // verus!
