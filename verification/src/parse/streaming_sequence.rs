//! Streaming parsers run one after the other.
use crate::parse::streaming::{
    fails_unless_settled, StreamingError, StreamingOk, StreamingParser, StreamingResult,
};
use crate::parse::Incomplete;
use vstd::prelude::*;

verus! {

/// A tuple of streaming parsers that share their error types, to be run one after the other:
/// each on what the one before it left. A match that more input could extend cannot be built
/// on: the parser that runs them reports it as the permanent failure made from
/// [`Incomplete`].
pub trait StreamingSequence<I>: Sized {
    /// The streaming parser that runs them in turn.
    type Joined: StreamingParser<I>;

    /// The streaming parser that runs each of these parsers on what the one before it left.
    fn and(self) -> (r: Self::Joined)
        ensures
            r == self.joined(),
    ;

    /// The streaming parser that [`and`](StreamingSequence::and) returns.
    spec fn joined(self) -> Self::Joined;
}

/// Two streaming parsers run one after the other.
pub struct StreamChain2<P0, P1> {
    pub p0: P0,
    pub p1: P1,
}

impl<
    I,
    P0: StreamingParser<I>,
    P1: StreamingParser<I, Error = P0::Error, Failure = P0::Failure>,
> StreamingParser<I> for StreamChain2<P0, P1> where P0::Failure: From<Incomplete> {
    type Output = (P0::Output, P1::Output);

    type Error = P0::Error;

    type Failure = P0::Failure;

    open spec fn inv(&self) -> bool {
        self.p0.inv() && self.p1.inv()
    }

    open spec fn completes(&self, input: I, out: (P0::Output, P1::Output), rest: I) -> bool {
        exists|mid: I| #[trigger]
            self.p0.completes(input, out.0, mid) && self.p1.completes(mid, out.1, rest)
    }

    open spec fn extends(&self, input: I, out: (P0::Output, P1::Output), rest: I) -> bool {
        false
    }

    open spec fn rejects(&self, input: I, e: P0::Error) -> bool {
        ||| self.p0.rejects(input, e)
        ||| exists|o: P0::Output, mid: I| #[trigger]
            self.p0.completes(input, o, mid) && self.p1.rejects(mid, e)
    }

    open spec fn fails(&self, input: I, f: P0::Failure) -> bool {
        ||| fails_unless_settled(self.p0, input, f)
        ||| exists|o: P0::Output, mid: I| #[trigger]
            self.p0.completes(input, o, mid) && fails_unless_settled(self.p1, mid, f)
    }

    open spec fn starves(&self, input: I, f: P0::Failure) -> bool {
        ||| self.p0.starves(input, f)
        ||| exists|o: P0::Output, mid: I| #[trigger]
            self.p0.completes(input, o, mid) && self.p1.starves(mid, f)
    }

    fn parse_stream(&self, input: &I) -> (r: StreamingResult<I, (P0::Output, P1::Output), P0::Error,
        P0::Failure>) {
        let (o0, r0) = match self.p0.parse_stream(input) {
            Ok(StreamingOk::Complete(o, r)) => (o, r),
            Ok(StreamingOk::Partial(o, r)) => {
                let f = <P0::Failure as From<Incomplete>>::from(Incomplete);
                proof {
                    assert(self.p0.extends(*input, o, r));
                    assert(fails_unless_settled(self.p0, *input, f));
                }
                return Err(StreamingError::Failure(f));
            },
            Err(StreamingError::Error(e)) => {
                proof {
                    assert(self.p0.rejects(*input, e));
                }
                return Err(StreamingError::Error(e));
            },
            Err(StreamingError::Incomplete(f)) => {
                proof {
                    assert(self.p0.starves(*input, f));
                }
                return Err(StreamingError::Incomplete(f));
            },
            Err(StreamingError::Failure(f)) => {
                proof {
                    assert(self.p0.fails(*input, f));
                    assert(fails_unless_settled(self.p0, *input, f));
                }
                return Err(StreamingError::Failure(f));
            },
        };
        let (o1, r1) = match self.p1.parse_stream(&r0) {
            Ok(StreamingOk::Complete(o, r)) => (o, r),
            Ok(StreamingOk::Partial(o, r)) => {
                let f = <P0::Failure as From<Incomplete>>::from(Incomplete);
                proof {
                    assert(self.p1.extends(r0, o, r));
                    assert(self.p0.completes(*input, o0, r0) && fails_unless_settled(self.p1, r0,
                        f));
                }
                return Err(StreamingError::Failure(f));
            },
            Err(StreamingError::Error(e)) => {
                proof {
                    assert(self.p0.completes(*input, o0, r0) && self.p1.rejects(r0, e));
                }
                return Err(StreamingError::Error(e));
            },
            Err(StreamingError::Incomplete(f)) => {
                proof {
                    assert(self.p0.completes(*input, o0, r0) && self.p1.starves(r0, f));
                }
                return Err(StreamingError::Incomplete(f));
            },
            Err(StreamingError::Failure(f)) => {
                proof {
                    assert(self.p1.fails(r0, f));
                    assert(self.p0.completes(*input, o0, r0) && fails_unless_settled(self.p1, r0,
                        f));
                }
                return Err(StreamingError::Failure(f));
            },
        };
        proof {
            let out = (o0, o1);
            assert(self.p0.completes(*input, out.0, r0) && self.p1.completes(
                r0,
                out.1,
                r1,
            ));
        }
        Ok(StreamingOk::Complete((o0, o1), r1))
    }
}

impl<
    I,
    P0: StreamingParser<I>,
    P1: StreamingParser<I, Error = P0::Error, Failure = P0::Failure>,
> StreamingSequence<I> for (P0, P1) where P0::Failure: From<Incomplete> {
    type Joined = StreamChain2<P0, P1>;

    open spec fn joined(self) -> StreamChain2<P0, P1> {
        StreamChain2 { p0: self.0, p1: self.1 }
    }

    fn and(self) -> (r: StreamChain2<P0, P1>) {
        StreamChain2 { p0: self.0, p1: self.1 }
    }
}

/// Three streaming parsers run one after the other.
pub struct StreamChain3<P0, P1, P2> {
    pub p0: P0,
    pub p1: P1,
    pub p2: P2,
}

impl<P0, P1, P2> StreamChain3<P0, P1, P2> {
    /// All but the last parser.
    pub open spec fn head(self) -> StreamChain2<P0, P1> {
        StreamChain2 { p0: self.p0, p1: self.p1 }
    }
}

impl<
    I,
    P0: StreamingParser<I>,
    P1: StreamingParser<I, Error = P0::Error, Failure = P0::Failure>,
    P2: StreamingParser<I, Error = P0::Error, Failure = P0::Failure>,
> StreamingParser<I> for StreamChain3<P0, P1, P2> where P0::Failure: From<Incomplete> {
    type Output = (P0::Output, P1::Output, P2::Output);

    type Error = P0::Error;

    type Failure = P0::Failure;

    open spec fn inv(&self) -> bool {
        self.p0.inv() && self.p1.inv() && self.p2.inv()
    }

    open spec fn completes(&self, input: I, out: (P0::Output, P1::Output, P2::Output),
        rest: I) -> bool {
        exists|mid: I| #[trigger]
            self.head().completes(input, (out.0, out.1), mid) && self.p2.completes(mid, out.2, rest)
    }

    open spec fn extends(&self, input: I, out: (P0::Output, P1::Output, P2::Output),
        rest: I) -> bool {
        false
    }

    open spec fn rejects(&self, input: I, e: P0::Error) -> bool {
        ||| self.head().rejects(input, e)
        ||| exists|o: (P0::Output, P1::Output), mid: I| #[trigger]
            self.head().completes(input, o, mid) && self.p2.rejects(mid, e)
    }

    open spec fn fails(&self, input: I, f: P0::Failure) -> bool {
        ||| self.head().fails(input, f)
        ||| exists|o: (P0::Output, P1::Output), mid: I| #[trigger]
            self.head().completes(input, o, mid) && fails_unless_settled(self.p2, mid, f)
    }

    open spec fn starves(&self, input: I, f: P0::Failure) -> bool {
        ||| self.head().starves(input, f)
        ||| exists|o: (P0::Output, P1::Output), mid: I| #[trigger]
            self.head().completes(input, o, mid) && self.p2.starves(mid, f)
    }

    fn parse_stream(&self, input: &I) -> (r: StreamingResult<I, (P0::Output, P1::Output,
        P2::Output), P0::Error, P0::Failure>) {
        let (o0, r0) = match self.p0.parse_stream(input) {
            Ok(StreamingOk::Complete(o, r)) => (o, r),
            Ok(StreamingOk::Partial(o, r)) => {
                let f = <P0::Failure as From<Incomplete>>::from(Incomplete);
                proof {
                    assert(self.head().p0.extends(*input, o, r));
                    assert(fails_unless_settled(self.head().p0, *input, f));
                }
                return Err(StreamingError::Failure(f));
            },
            Err(StreamingError::Error(e)) => {
                proof {
                    assert(self.head().p0.rejects(*input, e));
                }
                return Err(StreamingError::Error(e));
            },
            Err(StreamingError::Incomplete(f)) => {
                proof {
                    assert(self.head().p0.starves(*input, f));
                }
                return Err(StreamingError::Incomplete(f));
            },
            Err(StreamingError::Failure(f)) => {
                proof {
                    assert(self.head().p0.fails(*input, f));
                    assert(fails_unless_settled(self.head().p0, *input, f));
                }
                return Err(StreamingError::Failure(f));
            },
        };
        let (o1, r1) = match self.p1.parse_stream(&r0) {
            Ok(StreamingOk::Complete(o, r)) => (o, r),
            Ok(StreamingOk::Partial(o, r)) => {
                let f = <P0::Failure as From<Incomplete>>::from(Incomplete);
                proof {
                    assert(self.head().p1.extends(r0, o, r));
                    assert(self.head().p0.completes(*input, o0, r0)
                        && fails_unless_settled(self.head().p1, r0, f));
                }
                return Err(StreamingError::Failure(f));
            },
            Err(StreamingError::Error(e)) => {
                proof {
                    assert(self.head().p0.completes(*input, o0, r0) && self.head().p1.rejects(r0,
                        e));
                }
                return Err(StreamingError::Error(e));
            },
            Err(StreamingError::Incomplete(f)) => {
                proof {
                    assert(self.head().p0.completes(*input, o0, r0) && self.head().p1.starves(r0,
                        f));
                }
                return Err(StreamingError::Incomplete(f));
            },
            Err(StreamingError::Failure(f)) => {
                proof {
                    assert(self.head().p1.fails(r0, f));
                    assert(self.head().p0.completes(*input, o0, r0)
                        && fails_unless_settled(self.head().p1, r0, f));
                }
                return Err(StreamingError::Failure(f));
            },
        };
        proof {
            let out = (o0, o1);
            assert(self.head().p0.completes(*input, out.0, r0) && self.head().p1.completes(
                r0,
                out.1,
                r1,
            ));
        }
        let (o2, r2) = match self.p2.parse_stream(&r1) {
            Ok(StreamingOk::Complete(o, r)) => (o, r),
            Ok(StreamingOk::Partial(o, r)) => {
                let f = <P0::Failure as From<Incomplete>>::from(Incomplete);
                proof {
                    assert(self.p2.extends(r1, o, r));
                    assert(self.head().completes(*input, (o0, o1), r1)
                        && fails_unless_settled(self.p2, r1, f));
                }
                return Err(StreamingError::Failure(f));
            },
            Err(StreamingError::Error(e)) => {
                proof {
                    assert(self.head().completes(*input, (o0, o1), r1) && self.p2.rejects(r1, e));
                }
                return Err(StreamingError::Error(e));
            },
            Err(StreamingError::Incomplete(f)) => {
                proof {
                    assert(self.head().completes(*input, (o0, o1), r1) && self.p2.starves(r1, f));
                }
                return Err(StreamingError::Incomplete(f));
            },
            Err(StreamingError::Failure(f)) => {
                proof {
                    assert(self.p2.fails(r1, f));
                    assert(self.head().completes(*input, (o0, o1), r1)
                        && fails_unless_settled(self.p2, r1, f));
                }
                return Err(StreamingError::Failure(f));
            },
        };
        proof {
            let out = (o0, o1, o2);
            assert(self.head().completes(*input, (out.0, out.1), r1) && self.p2.completes(
                r1,
                out.2,
                r2,
            ));
        }
        Ok(StreamingOk::Complete((o0, o1, o2), r2))
    }
}

impl<
    I,
    P0: StreamingParser<I>,
    P1: StreamingParser<I, Error = P0::Error, Failure = P0::Failure>,
    P2: StreamingParser<I, Error = P0::Error, Failure = P0::Failure>,
> StreamingSequence<I> for (P0, P1, P2) where P0::Failure: From<Incomplete> {
    type Joined = StreamChain3<P0, P1, P2>;

    open spec fn joined(self) -> StreamChain3<P0, P1, P2> {
        StreamChain3 { p0: self.0, p1: self.1, p2: self.2 }
    }

    fn and(self) -> (r: StreamChain3<P0, P1, P2>) {
        StreamChain3 { p0: self.0, p1: self.1, p2: self.2 }
    }
}

/// Four streaming parsers run one after the other.
pub struct StreamChain4<P0, P1, P2, P3> {
    pub p0: P0,
    pub p1: P1,
    pub p2: P2,
    pub p3: P3,
}

impl<P0, P1, P2, P3> StreamChain4<P0, P1, P2, P3> {
    /// All but the last parser.
    pub open spec fn head(self) -> StreamChain3<P0, P1, P2> {
        StreamChain3 { p0: self.p0, p1: self.p1, p2: self.p2 }
    }
}

impl<
    I,
    P0: StreamingParser<I>,
    P1: StreamingParser<I, Error = P0::Error, Failure = P0::Failure>,
    P2: StreamingParser<I, Error = P0::Error, Failure = P0::Failure>,
    P3: StreamingParser<I, Error = P0::Error, Failure = P0::Failure>,
> StreamingParser<I> for StreamChain4<P0, P1, P2, P3> where P0::Failure: From<Incomplete> {
    type Output = (P0::Output, P1::Output, P2::Output, P3::Output);

    type Error = P0::Error;

    type Failure = P0::Failure;

    open spec fn inv(&self) -> bool {
        self.p0.inv() && self.p1.inv() && self.p2.inv() && self.p3.inv()
    }

    open spec fn completes(&self, input: I, out: (P0::Output, P1::Output, P2::Output, P3::Output),
        rest: I) -> bool {
        exists|mid: I| #[trigger]
            self.head().completes(input, (out.0, out.1, out.2), mid) && self.p3.completes(mid,
                out.3, rest)
    }

    open spec fn extends(&self, input: I, out: (P0::Output, P1::Output, P2::Output, P3::Output),
        rest: I) -> bool {
        false
    }

    open spec fn rejects(&self, input: I, e: P0::Error) -> bool {
        ||| self.head().rejects(input, e)
        ||| exists|o: (P0::Output, P1::Output, P2::Output), mid: I| #[trigger]
            self.head().completes(input, o, mid) && self.p3.rejects(mid, e)
    }

    open spec fn fails(&self, input: I, f: P0::Failure) -> bool {
        ||| self.head().fails(input, f)
        ||| exists|o: (P0::Output, P1::Output, P2::Output), mid: I| #[trigger]
            self.head().completes(input, o, mid) && fails_unless_settled(self.p3, mid, f)
    }

    open spec fn starves(&self, input: I, f: P0::Failure) -> bool {
        ||| self.head().starves(input, f)
        ||| exists|o: (P0::Output, P1::Output, P2::Output), mid: I| #[trigger]
            self.head().completes(input, o, mid) && self.p3.starves(mid, f)
    }

    fn parse_stream(&self, input: &I) -> (r: StreamingResult<I, (P0::Output, P1::Output, P2::Output,
        P3::Output), P0::Error, P0::Failure>) {
        let (o0, r0) = match self.p0.parse_stream(input) {
            Ok(StreamingOk::Complete(o, r)) => (o, r),
            Ok(StreamingOk::Partial(o, r)) => {
                let f = <P0::Failure as From<Incomplete>>::from(Incomplete);
                proof {
                    assert(self.head().head().p0.extends(*input, o, r));
                    assert(fails_unless_settled(self.head().head().p0, *input, f));
                    assert(self.head().fails(*input, f));
                }
                return Err(StreamingError::Failure(f));
            },
            Err(StreamingError::Error(e)) => {
                proof {
                    assert(self.head().head().p0.rejects(*input, e));
                    assert(self.head().rejects(*input, e));
                }
                return Err(StreamingError::Error(e));
            },
            Err(StreamingError::Incomplete(f)) => {
                proof {
                    assert(self.head().head().p0.starves(*input, f));
                    assert(self.head().starves(*input, f));
                }
                return Err(StreamingError::Incomplete(f));
            },
            Err(StreamingError::Failure(f)) => {
                proof {
                    assert(self.head().head().p0.fails(*input, f));
                    assert(fails_unless_settled(self.head().head().p0, *input, f));
                    assert(self.head().fails(*input, f));
                }
                return Err(StreamingError::Failure(f));
            },
        };
        let (o1, r1) = match self.p1.parse_stream(&r0) {
            Ok(StreamingOk::Complete(o, r)) => (o, r),
            Ok(StreamingOk::Partial(o, r)) => {
                let f = <P0::Failure as From<Incomplete>>::from(Incomplete);
                proof {
                    assert(self.head().head().p1.extends(r0, o, r));
                    assert(self.head().head().p0.completes(*input, o0, r0)
                        && fails_unless_settled(self.head().head().p1, r0, f));
                    assert(self.head().fails(*input, f));
                }
                return Err(StreamingError::Failure(f));
            },
            Err(StreamingError::Error(e)) => {
                proof {
                    assert(self.head().head().p0.completes(*input, o0, r0)
                        && self.head().head().p1.rejects(r0, e));
                    assert(self.head().rejects(*input, e));
                }
                return Err(StreamingError::Error(e));
            },
            Err(StreamingError::Incomplete(f)) => {
                proof {
                    assert(self.head().head().p0.completes(*input, o0, r0)
                        && self.head().head().p1.starves(r0, f));
                    assert(self.head().starves(*input, f));
                }
                return Err(StreamingError::Incomplete(f));
            },
            Err(StreamingError::Failure(f)) => {
                proof {
                    assert(self.head().head().p1.fails(r0, f));
                    assert(self.head().head().p0.completes(*input, o0, r0)
                        && fails_unless_settled(self.head().head().p1, r0, f));
                    assert(self.head().fails(*input, f));
                }
                return Err(StreamingError::Failure(f));
            },
        };
        proof {
            let out = (o0, o1);
            assert(self.head().head().p0.completes(*input, out.0, r0)
                && self.head().head().p1.completes(
                r0,
                out.1,
                r1,
            ));
        }
        let (o2, r2) = match self.p2.parse_stream(&r1) {
            Ok(StreamingOk::Complete(o, r)) => (o, r),
            Ok(StreamingOk::Partial(o, r)) => {
                let f = <P0::Failure as From<Incomplete>>::from(Incomplete);
                proof {
                    assert(self.head().p2.extends(r1, o, r));
                    assert(self.head().head().completes(*input, (o0, o1), r1)
                        && fails_unless_settled(self.head().p2, r1, f));
                }
                return Err(StreamingError::Failure(f));
            },
            Err(StreamingError::Error(e)) => {
                proof {
                    assert(self.head().head().completes(*input, (o0, o1), r1)
                        && self.head().p2.rejects(r1, e));
                }
                return Err(StreamingError::Error(e));
            },
            Err(StreamingError::Incomplete(f)) => {
                proof {
                    assert(self.head().head().completes(*input, (o0, o1), r1)
                        && self.head().p2.starves(r1, f));
                }
                return Err(StreamingError::Incomplete(f));
            },
            Err(StreamingError::Failure(f)) => {
                proof {
                    assert(self.head().p2.fails(r1, f));
                    assert(self.head().head().completes(*input, (o0, o1), r1)
                        && fails_unless_settled(self.head().p2, r1, f));
                }
                return Err(StreamingError::Failure(f));
            },
        };
        proof {
            let out = (o0, o1, o2);
            assert(self.head().head().completes(*input, (out.0, out.1), r1)
                && self.head().p2.completes(
                r1,
                out.2,
                r2,
            ));
        }
        let (o3, r3) = match self.p3.parse_stream(&r2) {
            Ok(StreamingOk::Complete(o, r)) => (o, r),
            Ok(StreamingOk::Partial(o, r)) => {
                let f = <P0::Failure as From<Incomplete>>::from(Incomplete);
                proof {
                    assert(self.p3.extends(r2, o, r));
                    assert(self.head().completes(*input, (o0, o1, o2), r2)
                        && fails_unless_settled(self.p3, r2, f));
                }
                return Err(StreamingError::Failure(f));
            },
            Err(StreamingError::Error(e)) => {
                proof {
                    assert(self.head().completes(*input, (o0, o1, o2), r2) && self.p3.rejects(r2,
                        e));
                }
                return Err(StreamingError::Error(e));
            },
            Err(StreamingError::Incomplete(f)) => {
                proof {
                    assert(self.head().completes(*input, (o0, o1, o2), r2) && self.p3.starves(r2,
                        f));
                }
                return Err(StreamingError::Incomplete(f));
            },
            Err(StreamingError::Failure(f)) => {
                proof {
                    assert(self.p3.fails(r2, f));
                    assert(self.head().completes(*input, (o0, o1, o2), r2)
                        && fails_unless_settled(self.p3, r2, f));
                }
                return Err(StreamingError::Failure(f));
            },
        };
        proof {
            let out = (o0, o1, o2, o3);
            assert(self.head().completes(*input, (out.0, out.1, out.2), r2) && self.p3.completes(
                r2,
                out.3,
                r3,
            ));
        }
        Ok(StreamingOk::Complete((o0, o1, o2, o3), r3))
    }
}

impl<
    I,
    P0: StreamingParser<I>,
    P1: StreamingParser<I, Error = P0::Error, Failure = P0::Failure>,
    P2: StreamingParser<I, Error = P0::Error, Failure = P0::Failure>,
    P3: StreamingParser<I, Error = P0::Error, Failure = P0::Failure>,
> StreamingSequence<I> for (P0, P1, P2, P3) where P0::Failure: From<Incomplete> {
    type Joined = StreamChain4<P0, P1, P2, P3>;

    open spec fn joined(self) -> StreamChain4<P0, P1, P2, P3> {
        StreamChain4 { p0: self.0, p1: self.1, p2: self.2, p3: self.3 }
    }

    fn and(self) -> (r: StreamChain4<P0, P1, P2, P3>) {
        StreamChain4 { p0: self.0, p1: self.1, p2: self.2, p3: self.3 }
    }
}

/// Five streaming parsers run one after the other.
pub struct StreamChain5<P0, P1, P2, P3, P4> {
    pub p0: P0,
    pub p1: P1,
    pub p2: P2,
    pub p3: P3,
    pub p4: P4,
}

impl<P0, P1, P2, P3, P4> StreamChain5<P0, P1, P2, P3, P4> {
    /// All but the last parser.
    pub open spec fn head(self) -> StreamChain4<P0, P1, P2, P3> {
        StreamChain4 { p0: self.p0, p1: self.p1, p2: self.p2, p3: self.p3 }
    }
}

impl<
    I,
    P0: StreamingParser<I>,
    P1: StreamingParser<I, Error = P0::Error, Failure = P0::Failure>,
    P2: StreamingParser<I, Error = P0::Error, Failure = P0::Failure>,
    P3: StreamingParser<I, Error = P0::Error, Failure = P0::Failure>,
    P4: StreamingParser<I, Error = P0::Error, Failure = P0::Failure>,
> StreamingParser<I> for StreamChain5<P0, P1, P2, P3, P4> where P0::Failure: From<Incomplete> {
    type Output = (P0::Output, P1::Output, P2::Output, P3::Output, P4::Output);

    type Error = P0::Error;

    type Failure = P0::Failure;

    open spec fn inv(&self) -> bool {
        self.p0.inv() && self.p1.inv() && self.p2.inv() && self.p3.inv() && self.p4.inv()
    }

    open spec fn completes(&self, input: I, out: (P0::Output, P1::Output, P2::Output, P3::Output,
        P4::Output), rest: I) -> bool {
        exists|mid: I| #[trigger]
            self.head().completes(input, (out.0, out.1, out.2, out.3), mid)
                && self.p4.completes(mid, out.4, rest)
    }

    open spec fn extends(&self, input: I, out: (P0::Output, P1::Output, P2::Output, P3::Output,
        P4::Output), rest: I) -> bool {
        false
    }

    open spec fn rejects(&self, input: I, e: P0::Error) -> bool {
        ||| self.head().rejects(input, e)
        ||| exists|o: (P0::Output, P1::Output, P2::Output, P3::Output), mid: I| #[trigger]
            self.head().completes(input, o, mid) && self.p4.rejects(mid, e)
    }

    open spec fn fails(&self, input: I, f: P0::Failure) -> bool {
        ||| self.head().fails(input, f)
        ||| exists|o: (P0::Output, P1::Output, P2::Output, P3::Output), mid: I| #[trigger]
            self.head().completes(input, o, mid) && fails_unless_settled(self.p4, mid, f)
    }

    open spec fn starves(&self, input: I, f: P0::Failure) -> bool {
        ||| self.head().starves(input, f)
        ||| exists|o: (P0::Output, P1::Output, P2::Output, P3::Output), mid: I| #[trigger]
            self.head().completes(input, o, mid) && self.p4.starves(mid, f)
    }

    fn parse_stream(&self, input: &I) -> (r: StreamingResult<I, (P0::Output, P1::Output, P2::Output,
        P3::Output, P4::Output), P0::Error, P0::Failure>) {
        let (o0, r0) = match self.p0.parse_stream(input) {
            Ok(StreamingOk::Complete(o, r)) => (o, r),
            Ok(StreamingOk::Partial(o, r)) => {
                let f = <P0::Failure as From<Incomplete>>::from(Incomplete);
                proof {
                    assert(self.head().head().head().p0.extends(*input, o, r));
                    assert(fails_unless_settled(self.head().head().head().p0, *input, f));
                    assert(self.head().head().fails(*input, f));
                    assert(self.head().fails(*input, f));
                }
                return Err(StreamingError::Failure(f));
            },
            Err(StreamingError::Error(e)) => {
                proof {
                    assert(self.head().head().head().p0.rejects(*input, e));
                    assert(self.head().head().rejects(*input, e));
                    assert(self.head().rejects(*input, e));
                }
                return Err(StreamingError::Error(e));
            },
            Err(StreamingError::Incomplete(f)) => {
                proof {
                    assert(self.head().head().head().p0.starves(*input, f));
                    assert(self.head().head().starves(*input, f));
                    assert(self.head().starves(*input, f));
                }
                return Err(StreamingError::Incomplete(f));
            },
            Err(StreamingError::Failure(f)) => {
                proof {
                    assert(self.head().head().head().p0.fails(*input, f));
                    assert(fails_unless_settled(self.head().head().head().p0, *input, f));
                    assert(self.head().head().fails(*input, f));
                    assert(self.head().fails(*input, f));
                }
                return Err(StreamingError::Failure(f));
            },
        };
        let (o1, r1) = match self.p1.parse_stream(&r0) {
            Ok(StreamingOk::Complete(o, r)) => (o, r),
            Ok(StreamingOk::Partial(o, r)) => {
                let f = <P0::Failure as From<Incomplete>>::from(Incomplete);
                proof {
                    assert(self.head().head().head().p1.extends(r0, o, r));
                    assert(self.head().head().head().p0.completes(*input, o0, r0)
                        && fails_unless_settled(self.head().head().head().p1, r0, f));
                    assert(self.head().head().fails(*input, f));
                    assert(self.head().fails(*input, f));
                }
                return Err(StreamingError::Failure(f));
            },
            Err(StreamingError::Error(e)) => {
                proof {
                    assert(self.head().head().head().p0.completes(*input, o0, r0)
                        && self.head().head().head().p1.rejects(r0, e));
                    assert(self.head().head().rejects(*input, e));
                    assert(self.head().rejects(*input, e));
                }
                return Err(StreamingError::Error(e));
            },
            Err(StreamingError::Incomplete(f)) => {
                proof {
                    assert(self.head().head().head().p0.completes(*input, o0, r0)
                        && self.head().head().head().p1.starves(r0, f));
                    assert(self.head().head().starves(*input, f));
                    assert(self.head().starves(*input, f));
                }
                return Err(StreamingError::Incomplete(f));
            },
            Err(StreamingError::Failure(f)) => {
                proof {
                    assert(self.head().head().head().p1.fails(r0, f));
                    assert(self.head().head().head().p0.completes(*input, o0, r0)
                        && fails_unless_settled(self.head().head().head().p1, r0, f));
                    assert(self.head().head().fails(*input, f));
                    assert(self.head().fails(*input, f));
                }
                return Err(StreamingError::Failure(f));
            },
        };
        proof {
            let out = (o0, o1);
            assert(self.head().head().head().p0.completes(*input, out.0, r0)
                && self.head().head().head().p1.completes(
                r0,
                out.1,
                r1,
            ));
        }
        let (o2, r2) = match self.p2.parse_stream(&r1) {
            Ok(StreamingOk::Complete(o, r)) => (o, r),
            Ok(StreamingOk::Partial(o, r)) => {
                let f = <P0::Failure as From<Incomplete>>::from(Incomplete);
                proof {
                    assert(self.head().head().p2.extends(r1, o, r));
                    assert(self.head().head().head().completes(*input, (o0, o1), r1)
                        && fails_unless_settled(self.head().head().p2, r1, f));
                    assert(self.head().fails(*input, f));
                }
                return Err(StreamingError::Failure(f));
            },
            Err(StreamingError::Error(e)) => {
                proof {
                    assert(self.head().head().head().completes(*input, (o0, o1), r1)
                        && self.head().head().p2.rejects(r1, e));
                    assert(self.head().rejects(*input, e));
                }
                return Err(StreamingError::Error(e));
            },
            Err(StreamingError::Incomplete(f)) => {
                proof {
                    assert(self.head().head().head().completes(*input, (o0, o1), r1)
                        && self.head().head().p2.starves(r1, f));
                    assert(self.head().starves(*input, f));
                }
                return Err(StreamingError::Incomplete(f));
            },
            Err(StreamingError::Failure(f)) => {
                proof {
                    assert(self.head().head().p2.fails(r1, f));
                    assert(self.head().head().head().completes(*input, (o0, o1), r1)
                        && fails_unless_settled(self.head().head().p2, r1, f));
                    assert(self.head().fails(*input, f));
                }
                return Err(StreamingError::Failure(f));
            },
        };
        proof {
            let out = (o0, o1, o2);
            assert(self.head().head().head().completes(*input, (out.0, out.1), r1)
                && self.head().head().p2.completes(
                r1,
                out.2,
                r2,
            ));
        }
        let (o3, r3) = match self.p3.parse_stream(&r2) {
            Ok(StreamingOk::Complete(o, r)) => (o, r),
            Ok(StreamingOk::Partial(o, r)) => {
                let f = <P0::Failure as From<Incomplete>>::from(Incomplete);
                proof {
                    assert(self.head().p3.extends(r2, o, r));
                    assert(self.head().head().completes(*input, (o0, o1, o2), r2)
                        && fails_unless_settled(self.head().p3, r2, f));
                }
                return Err(StreamingError::Failure(f));
            },
            Err(StreamingError::Error(e)) => {
                proof {
                    assert(self.head().head().completes(*input, (o0, o1, o2), r2)
                        && self.head().p3.rejects(r2, e));
                }
                return Err(StreamingError::Error(e));
            },
            Err(StreamingError::Incomplete(f)) => {
                proof {
                    assert(self.head().head().completes(*input, (o0, o1, o2), r2)
                        && self.head().p3.starves(r2, f));
                }
                return Err(StreamingError::Incomplete(f));
            },
            Err(StreamingError::Failure(f)) => {
                proof {
                    assert(self.head().p3.fails(r2, f));
                    assert(self.head().head().completes(*input, (o0, o1, o2), r2)
                        && fails_unless_settled(self.head().p3, r2, f));
                }
                return Err(StreamingError::Failure(f));
            },
        };
        proof {
            let out = (o0, o1, o2, o3);
            assert(self.head().head().completes(*input, (out.0, out.1, out.2), r2)
                && self.head().p3.completes(
                r2,
                out.3,
                r3,
            ));
        }
        let (o4, r4) = match self.p4.parse_stream(&r3) {
            Ok(StreamingOk::Complete(o, r)) => (o, r),
            Ok(StreamingOk::Partial(o, r)) => {
                let f = <P0::Failure as From<Incomplete>>::from(Incomplete);
                proof {
                    assert(self.p4.extends(r3, o, r));
                    assert(self.head().completes(*input, (o0, o1, o2, o3), r3)
                        && fails_unless_settled(self.p4, r3, f));
                }
                return Err(StreamingError::Failure(f));
            },
            Err(StreamingError::Error(e)) => {
                proof {
                    assert(self.head().completes(*input, (o0, o1, o2, o3), r3)
                        && self.p4.rejects(r3, e));
                }
                return Err(StreamingError::Error(e));
            },
            Err(StreamingError::Incomplete(f)) => {
                proof {
                    assert(self.head().completes(*input, (o0, o1, o2, o3), r3)
                        && self.p4.starves(r3, f));
                }
                return Err(StreamingError::Incomplete(f));
            },
            Err(StreamingError::Failure(f)) => {
                proof {
                    assert(self.p4.fails(r3, f));
                    assert(self.head().completes(*input, (o0, o1, o2, o3), r3)
                        && fails_unless_settled(self.p4, r3, f));
                }
                return Err(StreamingError::Failure(f));
            },
        };
        proof {
            let out = (o0, o1, o2, o3, o4);
            assert(self.head().completes(*input, (out.0, out.1, out.2, out.3), r3)
                && self.p4.completes(
                r3,
                out.4,
                r4,
            ));
        }
        Ok(StreamingOk::Complete((o0, o1, o2, o3, o4), r4))
    }
}

impl<
    I,
    P0: StreamingParser<I>,
    P1: StreamingParser<I, Error = P0::Error, Failure = P0::Failure>,
    P2: StreamingParser<I, Error = P0::Error, Failure = P0::Failure>,
    P3: StreamingParser<I, Error = P0::Error, Failure = P0::Failure>,
    P4: StreamingParser<I, Error = P0::Error, Failure = P0::Failure>,
> StreamingSequence<I> for (P0, P1, P2, P3, P4) where P0::Failure: From<Incomplete> {
    type Joined = StreamChain5<P0, P1, P2, P3, P4>;

    open spec fn joined(self) -> StreamChain5<P0, P1, P2, P3, P4> {
        StreamChain5 { p0: self.0, p1: self.1, p2: self.2, p3: self.3, p4: self.4 }
    }

    fn and(self) -> (r: StreamChain5<P0, P1, P2, P3, P4>) {
        StreamChain5 { p0: self.0, p1: self.1, p2: self.2, p3: self.3, p4: self.4 }
    }
}

/// Six streaming parsers run one after the other.
pub struct StreamChain6<P0, P1, P2, P3, P4, P5> {
    pub p0: P0,
    pub p1: P1,
    pub p2: P2,
    pub p3: P3,
    pub p4: P4,
    pub p5: P5,
}

impl<P0, P1, P2, P3, P4, P5> StreamChain6<P0, P1, P2, P3, P4, P5> {
    /// All but the last parser.
    pub open spec fn head(self) -> StreamChain5<P0, P1, P2, P3, P4> {
        StreamChain5 { p0: self.p0, p1: self.p1, p2: self.p2, p3: self.p3, p4: self.p4 }
    }
}

impl<
    I,
    P0: StreamingParser<I>,
    P1: StreamingParser<I, Error = P0::Error, Failure = P0::Failure>,
    P2: StreamingParser<I, Error = P0::Error, Failure = P0::Failure>,
    P3: StreamingParser<I, Error = P0::Error, Failure = P0::Failure>,
    P4: StreamingParser<I, Error = P0::Error, Failure = P0::Failure>,
    P5: StreamingParser<I, Error = P0::Error, Failure = P0::Failure>,
> StreamingParser<I> for StreamChain6<P0, P1, P2, P3, P4, P5> where P0::Failure: From<Incomplete> {
    type Output = (P0::Output, P1::Output, P2::Output, P3::Output, P4::Output, P5::Output);

    type Error = P0::Error;

    type Failure = P0::Failure;

    open spec fn inv(&self) -> bool {
        self.p0.inv() && self.p1.inv() && self.p2.inv() && self.p3.inv() && self.p4.inv()
            && self.p5.inv()
    }

    open spec fn completes(&self, input: I, out: (P0::Output, P1::Output, P2::Output, P3::Output,
        P4::Output, P5::Output), rest: I) -> bool {
        exists|mid: I| #[trigger]
            self.head().completes(input, (out.0, out.1, out.2, out.3, out.4), mid)
                && self.p5.completes(mid, out.5, rest)
    }

    open spec fn extends(&self, input: I, out: (P0::Output, P1::Output, P2::Output, P3::Output,
        P4::Output, P5::Output), rest: I) -> bool {
        false
    }

    open spec fn rejects(&self, input: I, e: P0::Error) -> bool {
        ||| self.head().rejects(input, e)
        ||| exists|o: (P0::Output, P1::Output, P2::Output, P3::Output, P4::Output),
            mid: I| #[trigger]
            self.head().completes(input, o, mid) && self.p5.rejects(mid, e)
    }

    open spec fn fails(&self, input: I, f: P0::Failure) -> bool {
        ||| self.head().fails(input, f)
        ||| exists|o: (P0::Output, P1::Output, P2::Output, P3::Output, P4::Output),
            mid: I| #[trigger]
            self.head().completes(input, o, mid) && fails_unless_settled(self.p5, mid, f)
    }

    open spec fn starves(&self, input: I, f: P0::Failure) -> bool {
        ||| self.head().starves(input, f)
        ||| exists|o: (P0::Output, P1::Output, P2::Output, P3::Output, P4::Output),
            mid: I| #[trigger]
            self.head().completes(input, o, mid) && self.p5.starves(mid, f)
    }

    fn parse_stream(&self, input: &I) -> (r: StreamingResult<I, (P0::Output, P1::Output, P2::Output,
        P3::Output, P4::Output, P5::Output), P0::Error, P0::Failure>) {
        let (o0, r0) = match self.p0.parse_stream(input) {
            Ok(StreamingOk::Complete(o, r)) => (o, r),
            Ok(StreamingOk::Partial(o, r)) => {
                let f = <P0::Failure as From<Incomplete>>::from(Incomplete);
                proof {
                    assert(self.head().head().head().head().p0.extends(*input, o, r));
                    assert(fails_unless_settled(self.head().head().head().head().p0, *input, f));
                    assert(self.head().head().head().fails(*input, f));
                    assert(self.head().head().fails(*input, f));
                    assert(self.head().fails(*input, f));
                }
                return Err(StreamingError::Failure(f));
            },
            Err(StreamingError::Error(e)) => {
                proof {
                    assert(self.head().head().head().head().p0.rejects(*input, e));
                    assert(self.head().head().head().rejects(*input, e));
                    assert(self.head().head().rejects(*input, e));
                    assert(self.head().rejects(*input, e));
                }
                return Err(StreamingError::Error(e));
            },
            Err(StreamingError::Incomplete(f)) => {
                proof {
                    assert(self.head().head().head().head().p0.starves(*input, f));
                    assert(self.head().head().head().starves(*input, f));
                    assert(self.head().head().starves(*input, f));
                    assert(self.head().starves(*input, f));
                }
                return Err(StreamingError::Incomplete(f));
            },
            Err(StreamingError::Failure(f)) => {
                proof {
                    assert(self.head().head().head().head().p0.fails(*input, f));
                    assert(fails_unless_settled(self.head().head().head().head().p0, *input, f));
                    assert(self.head().head().head().fails(*input, f));
                    assert(self.head().head().fails(*input, f));
                    assert(self.head().fails(*input, f));
                }
                return Err(StreamingError::Failure(f));
            },
        };
        let (o1, r1) = match self.p1.parse_stream(&r0) {
            Ok(StreamingOk::Complete(o, r)) => (o, r),
            Ok(StreamingOk::Partial(o, r)) => {
                let f = <P0::Failure as From<Incomplete>>::from(Incomplete);
                proof {
                    assert(self.head().head().head().head().p1.extends(r0, o, r));
                    assert(self.head().head().head().head().p0.completes(*input, o0, r0)
                        && fails_unless_settled(self.head().head().head().head().p1, r0, f));
                    assert(self.head().head().head().fails(*input, f));
                    assert(self.head().head().fails(*input, f));
                    assert(self.head().fails(*input, f));
                }
                return Err(StreamingError::Failure(f));
            },
            Err(StreamingError::Error(e)) => {
                proof {
                    assert(self.head().head().head().head().p0.completes(*input, o0, r0)
                        && self.head().head().head().head().p1.rejects(r0, e));
                    assert(self.head().head().head().rejects(*input, e));
                    assert(self.head().head().rejects(*input, e));
                    assert(self.head().rejects(*input, e));
                }
                return Err(StreamingError::Error(e));
            },
            Err(StreamingError::Incomplete(f)) => {
                proof {
                    assert(self.head().head().head().head().p0.completes(*input, o0, r0)
                        && self.head().head().head().head().p1.starves(r0, f));
                    assert(self.head().head().head().starves(*input, f));
                    assert(self.head().head().starves(*input, f));
                    assert(self.head().starves(*input, f));
                }
                return Err(StreamingError::Incomplete(f));
            },
            Err(StreamingError::Failure(f)) => {
                proof {
                    assert(self.head().head().head().head().p1.fails(r0, f));
                    assert(self.head().head().head().head().p0.completes(*input, o0, r0)
                        && fails_unless_settled(self.head().head().head().head().p1, r0, f));
                    assert(self.head().head().head().fails(*input, f));
                    assert(self.head().head().fails(*input, f));
                    assert(self.head().fails(*input, f));
                }
                return Err(StreamingError::Failure(f));
            },
        };
        proof {
            let out = (o0, o1);
            assert(self.head().head().head().head().p0.completes(*input, out.0, r0)
                && self.head().head().head().head().p1.completes(
                r0,
                out.1,
                r1,
            ));
        }
        let (o2, r2) = match self.p2.parse_stream(&r1) {
            Ok(StreamingOk::Complete(o, r)) => (o, r),
            Ok(StreamingOk::Partial(o, r)) => {
                let f = <P0::Failure as From<Incomplete>>::from(Incomplete);
                proof {
                    assert(self.head().head().head().p2.extends(r1, o, r));
                    assert(self.head().head().head().head().completes(*input, (o0, o1), r1)
                        && fails_unless_settled(self.head().head().head().p2, r1, f));
                    assert(self.head().head().fails(*input, f));
                    assert(self.head().fails(*input, f));
                }
                return Err(StreamingError::Failure(f));
            },
            Err(StreamingError::Error(e)) => {
                proof {
                    assert(self.head().head().head().head().completes(*input, (o0, o1), r1)
                        && self.head().head().head().p2.rejects(r1, e));
                    assert(self.head().head().rejects(*input, e));
                    assert(self.head().rejects(*input, e));
                }
                return Err(StreamingError::Error(e));
            },
            Err(StreamingError::Incomplete(f)) => {
                proof {
                    assert(self.head().head().head().head().completes(*input, (o0, o1), r1)
                        && self.head().head().head().p2.starves(r1, f));
                    assert(self.head().head().starves(*input, f));
                    assert(self.head().starves(*input, f));
                }
                return Err(StreamingError::Incomplete(f));
            },
            Err(StreamingError::Failure(f)) => {
                proof {
                    assert(self.head().head().head().p2.fails(r1, f));
                    assert(self.head().head().head().head().completes(*input, (o0, o1), r1)
                        && fails_unless_settled(self.head().head().head().p2, r1, f));
                    assert(self.head().head().fails(*input, f));
                    assert(self.head().fails(*input, f));
                }
                return Err(StreamingError::Failure(f));
            },
        };
        proof {
            let out = (o0, o1, o2);
            assert(self.head().head().head().head().completes(*input, (out.0, out.1), r1)
                && self.head().head().head().p2.completes(
                r1,
                out.2,
                r2,
            ));
        }
        let (o3, r3) = match self.p3.parse_stream(&r2) {
            Ok(StreamingOk::Complete(o, r)) => (o, r),
            Ok(StreamingOk::Partial(o, r)) => {
                let f = <P0::Failure as From<Incomplete>>::from(Incomplete);
                proof {
                    assert(self.head().head().p3.extends(r2, o, r));
                    assert(self.head().head().head().completes(*input, (o0, o1, o2), r2)
                        && fails_unless_settled(self.head().head().p3, r2, f));
                    assert(self.head().fails(*input, f));
                }
                return Err(StreamingError::Failure(f));
            },
            Err(StreamingError::Error(e)) => {
                proof {
                    assert(self.head().head().head().completes(*input, (o0, o1, o2), r2)
                        && self.head().head().p3.rejects(r2, e));
                    assert(self.head().rejects(*input, e));
                }
                return Err(StreamingError::Error(e));
            },
            Err(StreamingError::Incomplete(f)) => {
                proof {
                    assert(self.head().head().head().completes(*input, (o0, o1, o2), r2)
                        && self.head().head().p3.starves(r2, f));
                    assert(self.head().starves(*input, f));
                }
                return Err(StreamingError::Incomplete(f));
            },
            Err(StreamingError::Failure(f)) => {
                proof {
                    assert(self.head().head().p3.fails(r2, f));
                    assert(self.head().head().head().completes(*input, (o0, o1, o2), r2)
                        && fails_unless_settled(self.head().head().p3, r2, f));
                    assert(self.head().fails(*input, f));
                }
                return Err(StreamingError::Failure(f));
            },
        };
        proof {
            let out = (o0, o1, o2, o3);
            assert(self.head().head().head().completes(*input, (out.0, out.1, out.2), r2)
                && self.head().head().p3.completes(
                r2,
                out.3,
                r3,
            ));
        }
        let (o4, r4) = match self.p4.parse_stream(&r3) {
            Ok(StreamingOk::Complete(o, r)) => (o, r),
            Ok(StreamingOk::Partial(o, r)) => {
                let f = <P0::Failure as From<Incomplete>>::from(Incomplete);
                proof {
                    assert(self.head().p4.extends(r3, o, r));
                    assert(self.head().head().completes(*input, (o0, o1, o2, o3), r3)
                        && fails_unless_settled(self.head().p4, r3, f));
                }
                return Err(StreamingError::Failure(f));
            },
            Err(StreamingError::Error(e)) => {
                proof {
                    assert(self.head().head().completes(*input, (o0, o1, o2, o3), r3)
                        && self.head().p4.rejects(r3, e));
                }
                return Err(StreamingError::Error(e));
            },
            Err(StreamingError::Incomplete(f)) => {
                proof {
                    assert(self.head().head().completes(*input, (o0, o1, o2, o3), r3)
                        && self.head().p4.starves(r3, f));
                }
                return Err(StreamingError::Incomplete(f));
            },
            Err(StreamingError::Failure(f)) => {
                proof {
                    assert(self.head().p4.fails(r3, f));
                    assert(self.head().head().completes(*input, (o0, o1, o2, o3), r3)
                        && fails_unless_settled(self.head().p4, r3, f));
                }
                return Err(StreamingError::Failure(f));
            },
        };
        proof {
            let out = (o0, o1, o2, o3, o4);
            assert(self.head().head().completes(*input, (out.0, out.1, out.2, out.3), r3)
                && self.head().p4.completes(
                r3,
                out.4,
                r4,
            ));
        }
        let (o5, r5) = match self.p5.parse_stream(&r4) {
            Ok(StreamingOk::Complete(o, r)) => (o, r),
            Ok(StreamingOk::Partial(o, r)) => {
                let f = <P0::Failure as From<Incomplete>>::from(Incomplete);
                proof {
                    assert(self.p5.extends(r4, o, r));
                    assert(self.head().completes(*input, (o0, o1, o2, o3, o4), r4)
                        && fails_unless_settled(self.p5, r4, f));
                }
                return Err(StreamingError::Failure(f));
            },
            Err(StreamingError::Error(e)) => {
                proof {
                    assert(self.head().completes(*input, (o0, o1, o2, o3, o4), r4)
                        && self.p5.rejects(r4, e));
                }
                return Err(StreamingError::Error(e));
            },
            Err(StreamingError::Incomplete(f)) => {
                proof {
                    assert(self.head().completes(*input, (o0, o1, o2, o3, o4), r4)
                        && self.p5.starves(r4, f));
                }
                return Err(StreamingError::Incomplete(f));
            },
            Err(StreamingError::Failure(f)) => {
                proof {
                    assert(self.p5.fails(r4, f));
                    assert(self.head().completes(*input, (o0, o1, o2, o3, o4), r4)
                        && fails_unless_settled(self.p5, r4, f));
                }
                return Err(StreamingError::Failure(f));
            },
        };
        proof {
            let out = (o0, o1, o2, o3, o4, o5);
            assert(self.head().completes(*input, (out.0, out.1, out.2, out.3, out.4), r4)
                && self.p5.completes(
                r4,
                out.5,
                r5,
            ));
        }
        Ok(StreamingOk::Complete((o0, o1, o2, o3, o4, o5), r5))
    }
}

impl<
    I,
    P0: StreamingParser<I>,
    P1: StreamingParser<I, Error = P0::Error, Failure = P0::Failure>,
    P2: StreamingParser<I, Error = P0::Error, Failure = P0::Failure>,
    P3: StreamingParser<I, Error = P0::Error, Failure = P0::Failure>,
    P4: StreamingParser<I, Error = P0::Error, Failure = P0::Failure>,
    P5: StreamingParser<I, Error = P0::Error, Failure = P0::Failure>,
> StreamingSequence<I> for (P0, P1, P2, P3, P4, P5) where P0::Failure: From<Incomplete> {
    type Joined = StreamChain6<P0, P1, P2, P3, P4, P5>;

    open spec fn joined(self) -> StreamChain6<P0, P1, P2, P3, P4, P5> {
        StreamChain6 { p0: self.0, p1: self.1, p2: self.2, p3: self.3, p4: self.4, p5: self.5 }
    }

    fn and(self) -> (r: StreamChain6<P0, P1, P2, P3, P4, P5>) {
        StreamChain6 { p0: self.0, p1: self.1, p2: self.2, p3: self.3, p4: self.4, p5: self.5 }
    }
}

/// Seven streaming parsers run one after the other.
pub struct StreamChain7<P0, P1, P2, P3, P4, P5, P6> {
    pub p0: P0,
    pub p1: P1,
    pub p2: P2,
    pub p3: P3,
    pub p4: P4,
    pub p5: P5,
    pub p6: P6,
}

impl<P0, P1, P2, P3, P4, P5, P6> StreamChain7<P0, P1, P2, P3, P4, P5, P6> {
    /// All but the last parser.
    pub open spec fn head(self) -> StreamChain6<P0, P1, P2, P3, P4, P5> {
        StreamChain6 { p0: self.p0, p1: self.p1, p2: self.p2, p3: self.p3, p4: self.p4,
            p5: self.p5 }
    }
}

impl<
    I,
    P0: StreamingParser<I>,
    P1: StreamingParser<I, Error = P0::Error, Failure = P0::Failure>,
    P2: StreamingParser<I, Error = P0::Error, Failure = P0::Failure>,
    P3: StreamingParser<I, Error = P0::Error, Failure = P0::Failure>,
    P4: StreamingParser<I, Error = P0::Error, Failure = P0::Failure>,
    P5: StreamingParser<I, Error = P0::Error, Failure = P0::Failure>,
    P6: StreamingParser<I, Error = P0::Error, Failure = P0::Failure>,
> StreamingParser<I> for StreamChain7<P0, P1, P2, P3, P4, P5,
    P6> where P0::Failure: From<Incomplete> {
    type Output = (P0::Output, P1::Output, P2::Output, P3::Output, P4::Output, P5::Output,
        P6::Output);

    type Error = P0::Error;

    type Failure = P0::Failure;

    open spec fn inv(&self) -> bool {
        self.p0.inv() && self.p1.inv() && self.p2.inv() && self.p3.inv() && self.p4.inv()
            && self.p5.inv() && self.p6.inv()
    }

    open spec fn completes(&self, input: I, out: (P0::Output, P1::Output, P2::Output, P3::Output,
        P4::Output, P5::Output, P6::Output), rest: I) -> bool {
        exists|mid: I| #[trigger]
            self.head().completes(input, (out.0, out.1, out.2, out.3, out.4, out.5), mid)
                && self.p6.completes(mid, out.6, rest)
    }

    open spec fn extends(&self, input: I, out: (P0::Output, P1::Output, P2::Output, P3::Output,
        P4::Output, P5::Output, P6::Output), rest: I) -> bool {
        false
    }

    open spec fn rejects(&self, input: I, e: P0::Error) -> bool {
        ||| self.head().rejects(input, e)
        ||| exists|o: (P0::Output, P1::Output, P2::Output, P3::Output, P4::Output, P5::Output),
            mid: I| #[trigger]
            self.head().completes(input, o, mid) && self.p6.rejects(mid, e)
    }

    open spec fn fails(&self, input: I, f: P0::Failure) -> bool {
        ||| self.head().fails(input, f)
        ||| exists|o: (P0::Output, P1::Output, P2::Output, P3::Output, P4::Output, P5::Output),
            mid: I| #[trigger]
            self.head().completes(input, o, mid) && fails_unless_settled(self.p6, mid, f)
    }

    open spec fn starves(&self, input: I, f: P0::Failure) -> bool {
        ||| self.head().starves(input, f)
        ||| exists|o: (P0::Output, P1::Output, P2::Output, P3::Output, P4::Output, P5::Output),
            mid: I| #[trigger]
            self.head().completes(input, o, mid) && self.p6.starves(mid, f)
    }

    fn parse_stream(&self, input: &I) -> (r: StreamingResult<I, (P0::Output, P1::Output, P2::Output,
        P3::Output, P4::Output, P5::Output, P6::Output), P0::Error, P0::Failure>) {
        let (o0, r0) = match self.p0.parse_stream(input) {
            Ok(StreamingOk::Complete(o, r)) => (o, r),
            Ok(StreamingOk::Partial(o, r)) => {
                let f = <P0::Failure as From<Incomplete>>::from(Incomplete);
                proof {
                    assert(self.head().head().head().head().head().p0.extends(*input, o, r));
                    assert(fails_unless_settled(self.head().head().head().head().head().p0, *input,
                        f));
                    assert(self.head().head().head().head().fails(*input, f));
                    assert(self.head().head().head().fails(*input, f));
                    assert(self.head().head().fails(*input, f));
                    assert(self.head().fails(*input, f));
                }
                return Err(StreamingError::Failure(f));
            },
            Err(StreamingError::Error(e)) => {
                proof {
                    assert(self.head().head().head().head().head().p0.rejects(*input, e));
                    assert(self.head().head().head().head().rejects(*input, e));
                    assert(self.head().head().head().rejects(*input, e));
                    assert(self.head().head().rejects(*input, e));
                    assert(self.head().rejects(*input, e));
                }
                return Err(StreamingError::Error(e));
            },
            Err(StreamingError::Incomplete(f)) => {
                proof {
                    assert(self.head().head().head().head().head().p0.starves(*input, f));
                    assert(self.head().head().head().head().starves(*input, f));
                    assert(self.head().head().head().starves(*input, f));
                    assert(self.head().head().starves(*input, f));
                    assert(self.head().starves(*input, f));
                }
                return Err(StreamingError::Incomplete(f));
            },
            Err(StreamingError::Failure(f)) => {
                proof {
                    assert(self.head().head().head().head().head().p0.fails(*input, f));
                    assert(fails_unless_settled(self.head().head().head().head().head().p0, *input,
                        f));
                    assert(self.head().head().head().head().fails(*input, f));
                    assert(self.head().head().head().fails(*input, f));
                    assert(self.head().head().fails(*input, f));
                    assert(self.head().fails(*input, f));
                }
                return Err(StreamingError::Failure(f));
            },
        };
        let (o1, r1) = match self.p1.parse_stream(&r0) {
            Ok(StreamingOk::Complete(o, r)) => (o, r),
            Ok(StreamingOk::Partial(o, r)) => {
                let f = <P0::Failure as From<Incomplete>>::from(Incomplete);
                proof {
                    assert(self.head().head().head().head().head().p1.extends(r0, o, r));
                    assert(self.head().head().head().head().head().p0.completes(*input, o0, r0)
                        && fails_unless_settled(self.head().head().head().head().head().p1, r0, f));
                    assert(self.head().head().head().head().fails(*input, f));
                    assert(self.head().head().head().fails(*input, f));
                    assert(self.head().head().fails(*input, f));
                    assert(self.head().fails(*input, f));
                }
                return Err(StreamingError::Failure(f));
            },
            Err(StreamingError::Error(e)) => {
                proof {
                    assert(self.head().head().head().head().head().p0.completes(*input, o0, r0)
                        && self.head().head().head().head().head().p1.rejects(r0, e));
                    assert(self.head().head().head().head().rejects(*input, e));
                    assert(self.head().head().head().rejects(*input, e));
                    assert(self.head().head().rejects(*input, e));
                    assert(self.head().rejects(*input, e));
                }
                return Err(StreamingError::Error(e));
            },
            Err(StreamingError::Incomplete(f)) => {
                proof {
                    assert(self.head().head().head().head().head().p0.completes(*input, o0, r0)
                        && self.head().head().head().head().head().p1.starves(r0, f));
                    assert(self.head().head().head().head().starves(*input, f));
                    assert(self.head().head().head().starves(*input, f));
                    assert(self.head().head().starves(*input, f));
                    assert(self.head().starves(*input, f));
                }
                return Err(StreamingError::Incomplete(f));
            },
            Err(StreamingError::Failure(f)) => {
                proof {
                    assert(self.head().head().head().head().head().p1.fails(r0, f));
                    assert(self.head().head().head().head().head().p0.completes(*input, o0, r0)
                        && fails_unless_settled(self.head().head().head().head().head().p1, r0, f));
                    assert(self.head().head().head().head().fails(*input, f));
                    assert(self.head().head().head().fails(*input, f));
                    assert(self.head().head().fails(*input, f));
                    assert(self.head().fails(*input, f));
                }
                return Err(StreamingError::Failure(f));
            },
        };
        proof {
            let out = (o0, o1);
            assert(self.head().head().head().head().head().p0.completes(*input, out.0, r0)
                && self.head().head().head().head().head().p1.completes(
                r0,
                out.1,
                r1,
            ));
        }
        let (o2, r2) = match self.p2.parse_stream(&r1) {
            Ok(StreamingOk::Complete(o, r)) => (o, r),
            Ok(StreamingOk::Partial(o, r)) => {
                let f = <P0::Failure as From<Incomplete>>::from(Incomplete);
                proof {
                    assert(self.head().head().head().head().p2.extends(r1, o, r));
                    assert(self.head().head().head().head().head().completes(*input, (o0, o1),
                        r1) && fails_unless_settled(self.head().head().head().head().p2, r1, f));
                    assert(self.head().head().head().fails(*input, f));
                    assert(self.head().head().fails(*input, f));
                    assert(self.head().fails(*input, f));
                }
                return Err(StreamingError::Failure(f));
            },
            Err(StreamingError::Error(e)) => {
                proof {
                    assert(self.head().head().head().head().head().completes(*input, (o0, o1),
                        r1) && self.head().head().head().head().p2.rejects(r1, e));
                    assert(self.head().head().head().rejects(*input, e));
                    assert(self.head().head().rejects(*input, e));
                    assert(self.head().rejects(*input, e));
                }
                return Err(StreamingError::Error(e));
            },
            Err(StreamingError::Incomplete(f)) => {
                proof {
                    assert(self.head().head().head().head().head().completes(*input, (o0, o1),
                        r1) && self.head().head().head().head().p2.starves(r1, f));
                    assert(self.head().head().head().starves(*input, f));
                    assert(self.head().head().starves(*input, f));
                    assert(self.head().starves(*input, f));
                }
                return Err(StreamingError::Incomplete(f));
            },
            Err(StreamingError::Failure(f)) => {
                proof {
                    assert(self.head().head().head().head().p2.fails(r1, f));
                    assert(self.head().head().head().head().head().completes(*input, (o0, o1),
                        r1) && fails_unless_settled(self.head().head().head().head().p2, r1, f));
                    assert(self.head().head().head().fails(*input, f));
                    assert(self.head().head().fails(*input, f));
                    assert(self.head().fails(*input, f));
                }
                return Err(StreamingError::Failure(f));
            },
        };
        proof {
            let out = (o0, o1, o2);
            assert(self.head().head().head().head().head().completes(*input, (out.0, out.1), r1)
                && self.head().head().head().head().p2.completes(
                r1,
                out.2,
                r2,
            ));
        }
        let (o3, r3) = match self.p3.parse_stream(&r2) {
            Ok(StreamingOk::Complete(o, r)) => (o, r),
            Ok(StreamingOk::Partial(o, r)) => {
                let f = <P0::Failure as From<Incomplete>>::from(Incomplete);
                proof {
                    assert(self.head().head().head().p3.extends(r2, o, r));
                    assert(self.head().head().head().head().completes(*input, (o0, o1, o2), r2)
                        && fails_unless_settled(self.head().head().head().p3, r2, f));
                    assert(self.head().head().fails(*input, f));
                    assert(self.head().fails(*input, f));
                }
                return Err(StreamingError::Failure(f));
            },
            Err(StreamingError::Error(e)) => {
                proof {
                    assert(self.head().head().head().head().completes(*input, (o0, o1, o2), r2)
                        && self.head().head().head().p3.rejects(r2, e));
                    assert(self.head().head().rejects(*input, e));
                    assert(self.head().rejects(*input, e));
                }
                return Err(StreamingError::Error(e));
            },
            Err(StreamingError::Incomplete(f)) => {
                proof {
                    assert(self.head().head().head().head().completes(*input, (o0, o1, o2), r2)
                        && self.head().head().head().p3.starves(r2, f));
                    assert(self.head().head().starves(*input, f));
                    assert(self.head().starves(*input, f));
                }
                return Err(StreamingError::Incomplete(f));
            },
            Err(StreamingError::Failure(f)) => {
                proof {
                    assert(self.head().head().head().p3.fails(r2, f));
                    assert(self.head().head().head().head().completes(*input, (o0, o1, o2), r2)
                        && fails_unless_settled(self.head().head().head().p3, r2, f));
                    assert(self.head().head().fails(*input, f));
                    assert(self.head().fails(*input, f));
                }
                return Err(StreamingError::Failure(f));
            },
        };
        proof {
            let out = (o0, o1, o2, o3);
            assert(self.head().head().head().head().completes(*input, (out.0, out.1, out.2), r2)
                && self.head().head().head().p3.completes(
                r2,
                out.3,
                r3,
            ));
        }
        let (o4, r4) = match self.p4.parse_stream(&r3) {
            Ok(StreamingOk::Complete(o, r)) => (o, r),
            Ok(StreamingOk::Partial(o, r)) => {
                let f = <P0::Failure as From<Incomplete>>::from(Incomplete);
                proof {
                    assert(self.head().head().p4.extends(r3, o, r));
                    assert(self.head().head().head().completes(*input, (o0, o1, o2, o3), r3)
                        && fails_unless_settled(self.head().head().p4, r3, f));
                    assert(self.head().fails(*input, f));
                }
                return Err(StreamingError::Failure(f));
            },
            Err(StreamingError::Error(e)) => {
                proof {
                    assert(self.head().head().head().completes(*input, (o0, o1, o2, o3), r3)
                        && self.head().head().p4.rejects(r3, e));
                    assert(self.head().rejects(*input, e));
                }
                return Err(StreamingError::Error(e));
            },
            Err(StreamingError::Incomplete(f)) => {
                proof {
                    assert(self.head().head().head().completes(*input, (o0, o1, o2, o3), r3)
                        && self.head().head().p4.starves(r3, f));
                    assert(self.head().starves(*input, f));
                }
                return Err(StreamingError::Incomplete(f));
            },
            Err(StreamingError::Failure(f)) => {
                proof {
                    assert(self.head().head().p4.fails(r3, f));
                    assert(self.head().head().head().completes(*input, (o0, o1, o2, o3), r3)
                        && fails_unless_settled(self.head().head().p4, r3, f));
                    assert(self.head().fails(*input, f));
                }
                return Err(StreamingError::Failure(f));
            },
        };
        proof {
            let out = (o0, o1, o2, o3, o4);
            assert(self.head().head().head().completes(*input, (out.0, out.1, out.2, out.3), r3)
                && self.head().head().p4.completes(
                r3,
                out.4,
                r4,
            ));
        }
        let (o5, r5) = match self.p5.parse_stream(&r4) {
            Ok(StreamingOk::Complete(o, r)) => (o, r),
            Ok(StreamingOk::Partial(o, r)) => {
                let f = <P0::Failure as From<Incomplete>>::from(Incomplete);
                proof {
                    assert(self.head().p5.extends(r4, o, r));
                    assert(self.head().head().completes(*input, (o0, o1, o2, o3, o4), r4)
                        && fails_unless_settled(self.head().p5, r4, f));
                }
                return Err(StreamingError::Failure(f));
            },
            Err(StreamingError::Error(e)) => {
                proof {
                    assert(self.head().head().completes(*input, (o0, o1, o2, o3, o4), r4)
                        && self.head().p5.rejects(r4, e));
                }
                return Err(StreamingError::Error(e));
            },
            Err(StreamingError::Incomplete(f)) => {
                proof {
                    assert(self.head().head().completes(*input, (o0, o1, o2, o3, o4), r4)
                        && self.head().p5.starves(r4, f));
                }
                return Err(StreamingError::Incomplete(f));
            },
            Err(StreamingError::Failure(f)) => {
                proof {
                    assert(self.head().p5.fails(r4, f));
                    assert(self.head().head().completes(*input, (o0, o1, o2, o3, o4), r4)
                        && fails_unless_settled(self.head().p5, r4, f));
                }
                return Err(StreamingError::Failure(f));
            },
        };
        proof {
            let out = (o0, o1, o2, o3, o4, o5);
            assert(self.head().head().completes(*input, (out.0, out.1, out.2, out.3, out.4), r4)
                && self.head().p5.completes(
                r4,
                out.5,
                r5,
            ));
        }
        let (o6, r6) = match self.p6.parse_stream(&r5) {
            Ok(StreamingOk::Complete(o, r)) => (o, r),
            Ok(StreamingOk::Partial(o, r)) => {
                let f = <P0::Failure as From<Incomplete>>::from(Incomplete);
                proof {
                    assert(self.p6.extends(r5, o, r));
                    assert(self.head().completes(*input, (o0, o1, o2, o3, o4, o5), r5)
                        && fails_unless_settled(self.p6, r5, f));
                }
                return Err(StreamingError::Failure(f));
            },
            Err(StreamingError::Error(e)) => {
                proof {
                    assert(self.head().completes(*input, (o0, o1, o2, o3, o4, o5), r5)
                        && self.p6.rejects(r5, e));
                }
                return Err(StreamingError::Error(e));
            },
            Err(StreamingError::Incomplete(f)) => {
                proof {
                    assert(self.head().completes(*input, (o0, o1, o2, o3, o4, o5), r5)
                        && self.p6.starves(r5, f));
                }
                return Err(StreamingError::Incomplete(f));
            },
            Err(StreamingError::Failure(f)) => {
                proof {
                    assert(self.p6.fails(r5, f));
                    assert(self.head().completes(*input, (o0, o1, o2, o3, o4, o5), r5)
                        && fails_unless_settled(self.p6, r5, f));
                }
                return Err(StreamingError::Failure(f));
            },
        };
        proof {
            let out = (o0, o1, o2, o3, o4, o5, o6);
            assert(self.head().completes(*input, (out.0, out.1, out.2, out.3, out.4, out.5), r5)
                && self.p6.completes(
                r5,
                out.6,
                r6,
            ));
        }
        Ok(StreamingOk::Complete((o0, o1, o2, o3, o4, o5, o6), r6))
    }
}

impl<
    I,
    P0: StreamingParser<I>,
    P1: StreamingParser<I, Error = P0::Error, Failure = P0::Failure>,
    P2: StreamingParser<I, Error = P0::Error, Failure = P0::Failure>,
    P3: StreamingParser<I, Error = P0::Error, Failure = P0::Failure>,
    P4: StreamingParser<I, Error = P0::Error, Failure = P0::Failure>,
    P5: StreamingParser<I, Error = P0::Error, Failure = P0::Failure>,
    P6: StreamingParser<I, Error = P0::Error, Failure = P0::Failure>,
> StreamingSequence<I> for (P0, P1, P2, P3, P4, P5, P6) where P0::Failure: From<Incomplete> {
    type Joined = StreamChain7<P0, P1, P2, P3, P4, P5, P6>;

    open spec fn joined(self) -> StreamChain7<P0, P1, P2, P3, P4, P5, P6> {
        StreamChain7 { p0: self.0, p1: self.1, p2: self.2, p3: self.3, p4: self.4, p5: self.5,
            p6: self.6 }
    }

    fn and(self) -> (r: StreamChain7<P0, P1, P2, P3, P4, P5, P6>) {
        StreamChain7 { p0: self.0, p1: self.1, p2: self.2, p3: self.3, p4: self.4, p5: self.5,
            p6: self.6 }
    }
}

/// Eight streaming parsers run one after the other.
pub struct StreamChain8<P0, P1, P2, P3, P4, P5, P6, P7> {
    pub p0: P0,
    pub p1: P1,
    pub p2: P2,
    pub p3: P3,
    pub p4: P4,
    pub p5: P5,
    pub p6: P6,
    pub p7: P7,
}

impl<P0, P1, P2, P3, P4, P5, P6, P7> StreamChain8<P0, P1, P2, P3, P4, P5, P6, P7> {
    /// All but the last parser.
    pub open spec fn head(self) -> StreamChain7<P0, P1, P2, P3, P4, P5, P6> {
        StreamChain7 { p0: self.p0, p1: self.p1, p2: self.p2, p3: self.p3, p4: self.p4, p5: self.p5,
            p6: self.p6 }
    }
}

impl<
    I,
    P0: StreamingParser<I>,
    P1: StreamingParser<I, Error = P0::Error, Failure = P0::Failure>,
    P2: StreamingParser<I, Error = P0::Error, Failure = P0::Failure>,
    P3: StreamingParser<I, Error = P0::Error, Failure = P0::Failure>,
    P4: StreamingParser<I, Error = P0::Error, Failure = P0::Failure>,
    P5: StreamingParser<I, Error = P0::Error, Failure = P0::Failure>,
    P6: StreamingParser<I, Error = P0::Error, Failure = P0::Failure>,
    P7: StreamingParser<I, Error = P0::Error, Failure = P0::Failure>,
> StreamingParser<I> for StreamChain8<P0, P1, P2, P3, P4, P5, P6,
    P7> where P0::Failure: From<Incomplete> {
    type Output = (P0::Output, P1::Output, P2::Output, P3::Output, P4::Output, P5::Output,
        P6::Output, P7::Output);

    type Error = P0::Error;

    type Failure = P0::Failure;

    open spec fn inv(&self) -> bool {
        self.p0.inv() && self.p1.inv() && self.p2.inv() && self.p3.inv() && self.p4.inv()
            && self.p5.inv() && self.p6.inv() && self.p7.inv()
    }

    open spec fn completes(&self, input: I, out: (P0::Output, P1::Output, P2::Output, P3::Output,
        P4::Output, P5::Output, P6::Output, P7::Output), rest: I) -> bool {
        exists|mid: I| #[trigger]
            self.head().completes(input, (out.0, out.1, out.2, out.3, out.4, out.5, out.6), mid)
                && self.p7.completes(mid, out.7, rest)
    }

    open spec fn extends(&self, input: I, out: (P0::Output, P1::Output, P2::Output, P3::Output,
        P4::Output, P5::Output, P6::Output, P7::Output), rest: I) -> bool {
        false
    }

    open spec fn rejects(&self, input: I, e: P0::Error) -> bool {
        ||| self.head().rejects(input, e)
        ||| exists|o: (P0::Output, P1::Output, P2::Output, P3::Output, P4::Output, P5::Output,
            P6::Output), mid: I| #[trigger]
            self.head().completes(input, o, mid) && self.p7.rejects(mid, e)
    }

    open spec fn fails(&self, input: I, f: P0::Failure) -> bool {
        ||| self.head().fails(input, f)
        ||| exists|o: (P0::Output, P1::Output, P2::Output, P3::Output, P4::Output, P5::Output,
            P6::Output), mid: I| #[trigger]
            self.head().completes(input, o, mid) && fails_unless_settled(self.p7, mid, f)
    }

    open spec fn starves(&self, input: I, f: P0::Failure) -> bool {
        ||| self.head().starves(input, f)
        ||| exists|o: (P0::Output, P1::Output, P2::Output, P3::Output, P4::Output, P5::Output,
            P6::Output), mid: I| #[trigger]
            self.head().completes(input, o, mid) && self.p7.starves(mid, f)
    }

    fn parse_stream(&self, input: &I) -> (r: StreamingResult<I, (P0::Output, P1::Output, P2::Output,
        P3::Output, P4::Output, P5::Output, P6::Output, P7::Output), P0::Error, P0::Failure>) {
        let (o0, r0) = match self.p0.parse_stream(input) {
            Ok(StreamingOk::Complete(o, r)) => (o, r),
            Ok(StreamingOk::Partial(o, r)) => {
                let f = <P0::Failure as From<Incomplete>>::from(Incomplete);
                proof {
                    assert(self.head().head().head().head().head().head().p0.extends(*input, o, r));
                    assert(fails_unless_settled(self.head().head().head().head().head().head().p0,
                        *input, f));
                    assert(self.head().head().head().head().head().fails(*input, f));
                    assert(self.head().head().head().head().fails(*input, f));
                    assert(self.head().head().head().fails(*input, f));
                    assert(self.head().head().fails(*input, f));
                    assert(self.head().fails(*input, f));
                }
                return Err(StreamingError::Failure(f));
            },
            Err(StreamingError::Error(e)) => {
                proof {
                    assert(self.head().head().head().head().head().head().p0.rejects(*input, e));
                    assert(self.head().head().head().head().head().rejects(*input, e));
                    assert(self.head().head().head().head().rejects(*input, e));
                    assert(self.head().head().head().rejects(*input, e));
                    assert(self.head().head().rejects(*input, e));
                    assert(self.head().rejects(*input, e));
                }
                return Err(StreamingError::Error(e));
            },
            Err(StreamingError::Incomplete(f)) => {
                proof {
                    assert(self.head().head().head().head().head().head().p0.starves(*input, f));
                    assert(self.head().head().head().head().head().starves(*input, f));
                    assert(self.head().head().head().head().starves(*input, f));
                    assert(self.head().head().head().starves(*input, f));
                    assert(self.head().head().starves(*input, f));
                    assert(self.head().starves(*input, f));
                }
                return Err(StreamingError::Incomplete(f));
            },
            Err(StreamingError::Failure(f)) => {
                proof {
                    assert(self.head().head().head().head().head().head().p0.fails(*input, f));
                    assert(fails_unless_settled(self.head().head().head().head().head().head().p0,
                        *input, f));
                    assert(self.head().head().head().head().head().fails(*input, f));
                    assert(self.head().head().head().head().fails(*input, f));
                    assert(self.head().head().head().fails(*input, f));
                    assert(self.head().head().fails(*input, f));
                    assert(self.head().fails(*input, f));
                }
                return Err(StreamingError::Failure(f));
            },
        };
        let (o1, r1) = match self.p1.parse_stream(&r0) {
            Ok(StreamingOk::Complete(o, r)) => (o, r),
            Ok(StreamingOk::Partial(o, r)) => {
                let f = <P0::Failure as From<Incomplete>>::from(Incomplete);
                proof {
                    assert(self.head().head().head().head().head().head().p1.extends(r0, o, r));
                    assert(self.head().head().head().head().head().head().p0.completes(*input, o0,
                        r0) && fails_unless_settled(self.head().head().head().head().head().head().p1, r0, f));
                    assert(self.head().head().head().head().head().fails(*input, f));
                    assert(self.head().head().head().head().fails(*input, f));
                    assert(self.head().head().head().fails(*input, f));
                    assert(self.head().head().fails(*input, f));
                    assert(self.head().fails(*input, f));
                }
                return Err(StreamingError::Failure(f));
            },
            Err(StreamingError::Error(e)) => {
                proof {
                    assert(self.head().head().head().head().head().head().p0.completes(*input, o0,
                        r0) && self.head().head().head().head().head().head().p1.rejects(r0, e));
                    assert(self.head().head().head().head().head().rejects(*input, e));
                    assert(self.head().head().head().head().rejects(*input, e));
                    assert(self.head().head().head().rejects(*input, e));
                    assert(self.head().head().rejects(*input, e));
                    assert(self.head().rejects(*input, e));
                }
                return Err(StreamingError::Error(e));
            },
            Err(StreamingError::Incomplete(f)) => {
                proof {
                    assert(self.head().head().head().head().head().head().p0.completes(*input, o0,
                        r0) && self.head().head().head().head().head().head().p1.starves(r0, f));
                    assert(self.head().head().head().head().head().starves(*input, f));
                    assert(self.head().head().head().head().starves(*input, f));
                    assert(self.head().head().head().starves(*input, f));
                    assert(self.head().head().starves(*input, f));
                    assert(self.head().starves(*input, f));
                }
                return Err(StreamingError::Incomplete(f));
            },
            Err(StreamingError::Failure(f)) => {
                proof {
                    assert(self.head().head().head().head().head().head().p1.fails(r0, f));
                    assert(self.head().head().head().head().head().head().p0.completes(*input, o0,
                        r0) && fails_unless_settled(self.head().head().head().head().head().head().p1, r0, f));
                    assert(self.head().head().head().head().head().fails(*input, f));
                    assert(self.head().head().head().head().fails(*input, f));
                    assert(self.head().head().head().fails(*input, f));
                    assert(self.head().head().fails(*input, f));
                    assert(self.head().fails(*input, f));
                }
                return Err(StreamingError::Failure(f));
            },
        };
        proof {
            let out = (o0, o1);
            assert(self.head().head().head().head().head().head().p0.completes(*input, out.0, r0)
                && self.head().head().head().head().head().head().p1.completes(
                r0,
                out.1,
                r1,
            ));
        }
        let (o2, r2) = match self.p2.parse_stream(&r1) {
            Ok(StreamingOk::Complete(o, r)) => (o, r),
            Ok(StreamingOk::Partial(o, r)) => {
                let f = <P0::Failure as From<Incomplete>>::from(Incomplete);
                proof {
                    assert(self.head().head().head().head().head().p2.extends(r1, o, r));
                    assert(self.head().head().head().head().head().head().completes(*input, (o0,
                        o1), r1) && fails_unless_settled(self.head().head().head().head().head().p2,
                        r1, f));
                    assert(self.head().head().head().head().fails(*input, f));
                    assert(self.head().head().head().fails(*input, f));
                    assert(self.head().head().fails(*input, f));
                    assert(self.head().fails(*input, f));
                }
                return Err(StreamingError::Failure(f));
            },
            Err(StreamingError::Error(e)) => {
                proof {
                    assert(self.head().head().head().head().head().head().completes(*input, (o0,
                        o1), r1) && self.head().head().head().head().head().p2.rejects(r1, e));
                    assert(self.head().head().head().head().rejects(*input, e));
                    assert(self.head().head().head().rejects(*input, e));
                    assert(self.head().head().rejects(*input, e));
                    assert(self.head().rejects(*input, e));
                }
                return Err(StreamingError::Error(e));
            },
            Err(StreamingError::Incomplete(f)) => {
                proof {
                    assert(self.head().head().head().head().head().head().completes(*input, (o0,
                        o1), r1) && self.head().head().head().head().head().p2.starves(r1, f));
                    assert(self.head().head().head().head().starves(*input, f));
                    assert(self.head().head().head().starves(*input, f));
                    assert(self.head().head().starves(*input, f));
                    assert(self.head().starves(*input, f));
                }
                return Err(StreamingError::Incomplete(f));
            },
            Err(StreamingError::Failure(f)) => {
                proof {
                    assert(self.head().head().head().head().head().p2.fails(r1, f));
                    assert(self.head().head().head().head().head().head().completes(*input, (o0,
                        o1), r1) && fails_unless_settled(self.head().head().head().head().head().p2,
                        r1, f));
                    assert(self.head().head().head().head().fails(*input, f));
                    assert(self.head().head().head().fails(*input, f));
                    assert(self.head().head().fails(*input, f));
                    assert(self.head().fails(*input, f));
                }
                return Err(StreamingError::Failure(f));
            },
        };
        proof {
            let out = (o0, o1, o2);
            assert(self.head().head().head().head().head().head().completes(*input, (out.0, out.1),
                r1) && self.head().head().head().head().head().p2.completes(
                r1,
                out.2,
                r2,
            ));
        }
        let (o3, r3) = match self.p3.parse_stream(&r2) {
            Ok(StreamingOk::Complete(o, r)) => (o, r),
            Ok(StreamingOk::Partial(o, r)) => {
                let f = <P0::Failure as From<Incomplete>>::from(Incomplete);
                proof {
                    assert(self.head().head().head().head().p3.extends(r2, o, r));
                    assert(self.head().head().head().head().head().completes(*input, (o0, o1, o2),
                        r2) && fails_unless_settled(self.head().head().head().head().p3, r2, f));
                    assert(self.head().head().head().fails(*input, f));
                    assert(self.head().head().fails(*input, f));
                    assert(self.head().fails(*input, f));
                }
                return Err(StreamingError::Failure(f));
            },
            Err(StreamingError::Error(e)) => {
                proof {
                    assert(self.head().head().head().head().head().completes(*input, (o0, o1, o2),
                        r2) && self.head().head().head().head().p3.rejects(r2, e));
                    assert(self.head().head().head().rejects(*input, e));
                    assert(self.head().head().rejects(*input, e));
                    assert(self.head().rejects(*input, e));
                }
                return Err(StreamingError::Error(e));
            },
            Err(StreamingError::Incomplete(f)) => {
                proof {
                    assert(self.head().head().head().head().head().completes(*input, (o0, o1, o2),
                        r2) && self.head().head().head().head().p3.starves(r2, f));
                    assert(self.head().head().head().starves(*input, f));
                    assert(self.head().head().starves(*input, f));
                    assert(self.head().starves(*input, f));
                }
                return Err(StreamingError::Incomplete(f));
            },
            Err(StreamingError::Failure(f)) => {
                proof {
                    assert(self.head().head().head().head().p3.fails(r2, f));
                    assert(self.head().head().head().head().head().completes(*input, (o0, o1, o2),
                        r2) && fails_unless_settled(self.head().head().head().head().p3, r2, f));
                    assert(self.head().head().head().fails(*input, f));
                    assert(self.head().head().fails(*input, f));
                    assert(self.head().fails(*input, f));
                }
                return Err(StreamingError::Failure(f));
            },
        };
        proof {
            let out = (o0, o1, o2, o3);
            assert(self.head().head().head().head().head().completes(*input, (out.0, out.1, out.2),
                r2) && self.head().head().head().head().p3.completes(
                r2,
                out.3,
                r3,
            ));
        }
        let (o4, r4) = match self.p4.parse_stream(&r3) {
            Ok(StreamingOk::Complete(o, r)) => (o, r),
            Ok(StreamingOk::Partial(o, r)) => {
                let f = <P0::Failure as From<Incomplete>>::from(Incomplete);
                proof {
                    assert(self.head().head().head().p4.extends(r3, o, r));
                    assert(self.head().head().head().head().completes(*input, (o0, o1, o2, o3),
                        r3) && fails_unless_settled(self.head().head().head().p4, r3, f));
                    assert(self.head().head().fails(*input, f));
                    assert(self.head().fails(*input, f));
                }
                return Err(StreamingError::Failure(f));
            },
            Err(StreamingError::Error(e)) => {
                proof {
                    assert(self.head().head().head().head().completes(*input, (o0, o1, o2, o3),
                        r3) && self.head().head().head().p4.rejects(r3, e));
                    assert(self.head().head().rejects(*input, e));
                    assert(self.head().rejects(*input, e));
                }
                return Err(StreamingError::Error(e));
            },
            Err(StreamingError::Incomplete(f)) => {
                proof {
                    assert(self.head().head().head().head().completes(*input, (o0, o1, o2, o3),
                        r3) && self.head().head().head().p4.starves(r3, f));
                    assert(self.head().head().starves(*input, f));
                    assert(self.head().starves(*input, f));
                }
                return Err(StreamingError::Incomplete(f));
            },
            Err(StreamingError::Failure(f)) => {
                proof {
                    assert(self.head().head().head().p4.fails(r3, f));
                    assert(self.head().head().head().head().completes(*input, (o0, o1, o2, o3),
                        r3) && fails_unless_settled(self.head().head().head().p4, r3, f));
                    assert(self.head().head().fails(*input, f));
                    assert(self.head().fails(*input, f));
                }
                return Err(StreamingError::Failure(f));
            },
        };
        proof {
            let out = (o0, o1, o2, o3, o4);
            assert(self.head().head().head().head().completes(*input, (out.0, out.1, out.2, out.3),
                r3) && self.head().head().head().p4.completes(
                r3,
                out.4,
                r4,
            ));
        }
        let (o5, r5) = match self.p5.parse_stream(&r4) {
            Ok(StreamingOk::Complete(o, r)) => (o, r),
            Ok(StreamingOk::Partial(o, r)) => {
                let f = <P0::Failure as From<Incomplete>>::from(Incomplete);
                proof {
                    assert(self.head().head().p5.extends(r4, o, r));
                    assert(self.head().head().head().completes(*input, (o0, o1, o2, o3, o4), r4)
                        && fails_unless_settled(self.head().head().p5, r4, f));
                    assert(self.head().fails(*input, f));
                }
                return Err(StreamingError::Failure(f));
            },
            Err(StreamingError::Error(e)) => {
                proof {
                    assert(self.head().head().head().completes(*input, (o0, o1, o2, o3, o4), r4)
                        && self.head().head().p5.rejects(r4, e));
                    assert(self.head().rejects(*input, e));
                }
                return Err(StreamingError::Error(e));
            },
            Err(StreamingError::Incomplete(f)) => {
                proof {
                    assert(self.head().head().head().completes(*input, (o0, o1, o2, o3, o4), r4)
                        && self.head().head().p5.starves(r4, f));
                    assert(self.head().starves(*input, f));
                }
                return Err(StreamingError::Incomplete(f));
            },
            Err(StreamingError::Failure(f)) => {
                proof {
                    assert(self.head().head().p5.fails(r4, f));
                    assert(self.head().head().head().completes(*input, (o0, o1, o2, o3, o4), r4)
                        && fails_unless_settled(self.head().head().p5, r4, f));
                    assert(self.head().fails(*input, f));
                }
                return Err(StreamingError::Failure(f));
            },
        };
        proof {
            let out = (o0, o1, o2, o3, o4, o5);
            assert(self.head().head().head().completes(*input, (out.0, out.1, out.2, out.3, out.4),
                r4) && self.head().head().p5.completes(
                r4,
                out.5,
                r5,
            ));
        }
        let (o6, r6) = match self.p6.parse_stream(&r5) {
            Ok(StreamingOk::Complete(o, r)) => (o, r),
            Ok(StreamingOk::Partial(o, r)) => {
                let f = <P0::Failure as From<Incomplete>>::from(Incomplete);
                proof {
                    assert(self.head().p6.extends(r5, o, r));
                    assert(self.head().head().completes(*input, (o0, o1, o2, o3, o4, o5), r5)
                        && fails_unless_settled(self.head().p6, r5, f));
                }
                return Err(StreamingError::Failure(f));
            },
            Err(StreamingError::Error(e)) => {
                proof {
                    assert(self.head().head().completes(*input, (o0, o1, o2, o3, o4, o5), r5)
                        && self.head().p6.rejects(r5, e));
                }
                return Err(StreamingError::Error(e));
            },
            Err(StreamingError::Incomplete(f)) => {
                proof {
                    assert(self.head().head().completes(*input, (o0, o1, o2, o3, o4, o5), r5)
                        && self.head().p6.starves(r5, f));
                }
                return Err(StreamingError::Incomplete(f));
            },
            Err(StreamingError::Failure(f)) => {
                proof {
                    assert(self.head().p6.fails(r5, f));
                    assert(self.head().head().completes(*input, (o0, o1, o2, o3, o4, o5), r5)
                        && fails_unless_settled(self.head().p6, r5, f));
                }
                return Err(StreamingError::Failure(f));
            },
        };
        proof {
            let out = (o0, o1, o2, o3, o4, o5, o6);
            assert(self.head().head().completes(*input, (out.0, out.1, out.2, out.3, out.4, out.5),
                r5) && self.head().p6.completes(
                r5,
                out.6,
                r6,
            ));
        }
        let (o7, r7) = match self.p7.parse_stream(&r6) {
            Ok(StreamingOk::Complete(o, r)) => (o, r),
            Ok(StreamingOk::Partial(o, r)) => {
                let f = <P0::Failure as From<Incomplete>>::from(Incomplete);
                proof {
                    assert(self.p7.extends(r6, o, r));
                    assert(self.head().completes(*input, (o0, o1, o2, o3, o4, o5, o6), r6)
                        && fails_unless_settled(self.p7, r6, f));
                }
                return Err(StreamingError::Failure(f));
            },
            Err(StreamingError::Error(e)) => {
                proof {
                    assert(self.head().completes(*input, (o0, o1, o2, o3, o4, o5, o6), r6)
                        && self.p7.rejects(r6, e));
                }
                return Err(StreamingError::Error(e));
            },
            Err(StreamingError::Incomplete(f)) => {
                proof {
                    assert(self.head().completes(*input, (o0, o1, o2, o3, o4, o5, o6), r6)
                        && self.p7.starves(r6, f));
                }
                return Err(StreamingError::Incomplete(f));
            },
            Err(StreamingError::Failure(f)) => {
                proof {
                    assert(self.p7.fails(r6, f));
                    assert(self.head().completes(*input, (o0, o1, o2, o3, o4, o5, o6), r6)
                        && fails_unless_settled(self.p7, r6, f));
                }
                return Err(StreamingError::Failure(f));
            },
        };
        proof {
            let out = (o0, o1, o2, o3, o4, o5, o6, o7);
            assert(self.head().completes(*input, (out.0, out.1, out.2, out.3, out.4, out.5, out.6),
                r6) && self.p7.completes(
                r6,
                out.7,
                r7,
            ));
        }
        Ok(StreamingOk::Complete((o0, o1, o2, o3, o4, o5, o6, o7), r7))
    }
}

impl<
    I,
    P0: StreamingParser<I>,
    P1: StreamingParser<I, Error = P0::Error, Failure = P0::Failure>,
    P2: StreamingParser<I, Error = P0::Error, Failure = P0::Failure>,
    P3: StreamingParser<I, Error = P0::Error, Failure = P0::Failure>,
    P4: StreamingParser<I, Error = P0::Error, Failure = P0::Failure>,
    P5: StreamingParser<I, Error = P0::Error, Failure = P0::Failure>,
    P6: StreamingParser<I, Error = P0::Error, Failure = P0::Failure>,
    P7: StreamingParser<I, Error = P0::Error, Failure = P0::Failure>,
> StreamingSequence<I> for (P0, P1, P2, P3, P4, P5, P6, P7) where P0::Failure: From<Incomplete> {
    type Joined = StreamChain8<P0, P1, P2, P3, P4, P5, P6, P7>;

    open spec fn joined(self) -> StreamChain8<P0, P1, P2, P3, P4, P5, P6, P7> {
        StreamChain8 { p0: self.0, p1: self.1, p2: self.2, p3: self.3, p4: self.4, p5: self.5,
            p6: self.6, p7: self.7 }
    }

    fn and(self) -> (r: StreamChain8<P0, P1, P2, P3, P4, P5, P6, P7>) {
        StreamChain8 { p0: self.0, p1: self.1, p2: self.2, p3: self.3, p4: self.4, p5: self.5,
            p6: self.6, p7: self.7 }
    }
}

} // verus!
