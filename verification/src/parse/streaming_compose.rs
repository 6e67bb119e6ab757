//! Streaming parsers run on each other's output.
use crate::parse::streaming::{
    fails_unless_settled, StreamingError, StreamingOk, StreamingParser, StreamingResult,
};
use crate::parse::Incomplete;
use vstd::prelude::*;

verus! {

/// A tuple of streaming parsers to be run in a pipeline: each takes the output of the one
/// before it as its whole input. A match that more input could extend cannot be built on: the
/// parser that runs them reports it as the permanent failure made from [`Incomplete`].
pub trait StreamingCompose<I>: Sized {
    /// The streaming parser that runs the pipeline.
    type Joined: StreamingParser<I>;

    /// The streaming parser that runs the first of these parsers on the input and each other
    /// one on the output of the one before it.
    fn map(self) -> (r: Self::Joined)
        ensures
            r == self.joined(),
    ;

    /// The streaming parser that [`map`](StreamingCompose::map) returns.
    spec fn joined(self) -> Self::Joined;
}

/// Two streaming parsers run in a pipeline.
pub struct StreamPipe2<P0, P1> {
    pub p0: P0,
    pub p1: P1,
}

impl<
    I,
    P0: StreamingParser<I>,
    P1: StreamingParser<P0::Output, Error = P0::Error, Failure = P0::Failure>,
> StreamingParser<I> for StreamPipe2<P0, P1> where P0::Failure: From<Incomplete> {
    type Output = P1::Output;

    type Error = P0::Error;

    type Failure = P0::Failure;

    open spec fn inv(&self) -> bool {
        self.p0.inv() && self.p1.inv()
    }

    open spec fn completes(&self, input: I, out: P1::Output, rest: I) -> bool {
        exists|o: P0::Output, left: P0::Output|
            self.p0.completes(input, o, rest) && #[trigger] self.p1.completes(o, out, left)
    }

    open spec fn extends(&self, input: I, out: P1::Output, rest: I) -> bool {
        false
    }

    open spec fn rejects(&self, input: I, e: P0::Error) -> bool {
        ||| self.p0.rejects(input, e)
        ||| exists|o: P0::Output, rest: I| #[trigger]
            self.p0.completes(input, o, rest) && self.p1.rejects(o, e)
    }

    open spec fn fails(&self, input: I, f: P0::Failure) -> bool {
        ||| fails_unless_settled(self.p0, input, f)
        ||| exists|o: P0::Output, rest: I| #[trigger]
            self.p0.completes(input, o, rest) && fails_unless_settled(self.p1, o, f)
    }

    open spec fn starves(&self, input: I, f: P0::Failure) -> bool {
        ||| self.p0.starves(input, f)
        ||| exists|o: P0::Output, rest: I| #[trigger]
            self.p0.completes(input, o, rest) && self.p1.starves(o, f)
    }

    fn parse_stream(&self, input: &I) -> (r: StreamingResult<I, P1::Output, P0::Error,
        P0::Failure>) {
        let (o0, rest) = match self.p0.parse_stream(input) {
            Ok(StreamingOk::Complete(o, r)) => (o, r),
            Ok(StreamingOk::Partial(o, r)) => {
                let f = <P0::Failure as From<Incomplete>>::from(Incomplete);
                proof {
                    assert(self.p0.extends(*input, o, r));
                    assert(fails_unless_settled(self.p0, *input, f));
                }
                return Err(StreamingError::Failure(f));
            },
            Err(StreamingError::Error(e)) => {
                proof {
                    assert(self.p0.rejects(*input, e));
                }
                return Err(StreamingError::Error(e));
            },
            Err(StreamingError::Incomplete(f)) => {
                proof {
                    assert(self.p0.starves(*input, f));
                }
                return Err(StreamingError::Incomplete(f));
            },
            Err(StreamingError::Failure(f)) => {
                proof {
                    assert(self.p0.fails(*input, f));
                    assert(fails_unless_settled(self.p0, *input, f));
                }
                return Err(StreamingError::Failure(f));
            },
        };
        let (o1, left1) = match self.p1.parse_stream(&o0) {
            Ok(StreamingOk::Complete(o, r)) => (o, r),
            Ok(StreamingOk::Partial(o, r)) => {
                let f = <P0::Failure as From<Incomplete>>::from(Incomplete);
                proof {
                    assert(self.p1.extends(o0, o, r));
                    assert(self.p0.completes(*input, o0, rest) && fails_unless_settled(self.p1, o0,
                        f));
                }
                return Err(StreamingError::Failure(f));
            },
            Err(StreamingError::Error(e)) => {
                proof {
                    assert(self.p0.completes(*input, o0, rest) && self.p1.rejects(o0, e));
                }
                return Err(StreamingError::Error(e));
            },
            Err(StreamingError::Incomplete(f)) => {
                proof {
                    assert(self.p0.completes(*input, o0, rest) && self.p1.starves(o0, f));
                }
                return Err(StreamingError::Incomplete(f));
            },
            Err(StreamingError::Failure(f)) => {
                proof {
                    assert(self.p1.fails(o0, f));
                    assert(self.p0.completes(*input, o0, rest) && fails_unless_settled(self.p1, o0,
                        f));
                }
                return Err(StreamingError::Failure(f));
            },
        };
        proof {
            assert(self.p0.completes(*input, o0, rest) && self.p1.completes(
                o0,
                o1,
                left1,
            ));
        }
        Ok(StreamingOk::Complete(o1, rest))
    }
}

impl<
    I,
    P0: StreamingParser<I>,
    P1: StreamingParser<P0::Output, Error = P0::Error, Failure = P0::Failure>,
> StreamingCompose<I> for (P0, P1) where P0::Failure: From<Incomplete> {
    type Joined = StreamPipe2<P0, P1>;

    open spec fn joined(self) -> StreamPipe2<P0, P1> {
        StreamPipe2 { p0: self.0, p1: self.1 }
    }

    fn map(self) -> (r: StreamPipe2<P0, P1>) {
        StreamPipe2 { p0: self.0, p1: self.1 }
    }
}

/// Three streaming parsers run in a pipeline.
pub struct StreamPipe3<P0, P1, P2> {
    pub p0: P0,
    pub p1: P1,
    pub p2: P2,
}

impl<P0, P1, P2> StreamPipe3<P0, P1, P2> {
    /// All but the last parser.
    pub open spec fn head(self) -> StreamPipe2<P0, P1> {
        StreamPipe2 { p0: self.p0, p1: self.p1 }
    }
}

impl<
    I,
    P0: StreamingParser<I>,
    P1: StreamingParser<P0::Output, Error = P0::Error, Failure = P0::Failure>,
    P2: StreamingParser<P1::Output, Error = P0::Error, Failure = P0::Failure>,
> StreamingParser<I> for StreamPipe3<P0, P1, P2> where P0::Failure: From<Incomplete> {
    type Output = P2::Output;

    type Error = P0::Error;

    type Failure = P0::Failure;

    open spec fn inv(&self) -> bool {
        self.p0.inv() && self.p1.inv() && self.p2.inv()
    }

    open spec fn completes(&self, input: I, out: P2::Output, rest: I) -> bool {
        exists|o: P1::Output, left: P1::Output|
            self.head().completes(input, o, rest) && #[trigger] self.p2.completes(o, out, left)
    }

    open spec fn extends(&self, input: I, out: P2::Output, rest: I) -> bool {
        false
    }

    open spec fn rejects(&self, input: I, e: P0::Error) -> bool {
        ||| self.head().rejects(input, e)
        ||| exists|o: P1::Output, rest: I| #[trigger]
            self.head().completes(input, o, rest) && self.p2.rejects(o, e)
    }

    open spec fn fails(&self, input: I, f: P0::Failure) -> bool {
        ||| self.head().fails(input, f)
        ||| exists|o: P1::Output, rest: I| #[trigger]
            self.head().completes(input, o, rest) && fails_unless_settled(self.p2, o, f)
    }

    open spec fn starves(&self, input: I, f: P0::Failure) -> bool {
        ||| self.head().starves(input, f)
        ||| exists|o: P1::Output, rest: I| #[trigger]
            self.head().completes(input, o, rest) && self.p2.starves(o, f)
    }

    fn parse_stream(&self, input: &I) -> (r: StreamingResult<I, P2::Output, P0::Error,
        P0::Failure>) {
        let (o0, rest) = match self.p0.parse_stream(input) {
            Ok(StreamingOk::Complete(o, r)) => (o, r),
            Ok(StreamingOk::Partial(o, r)) => {
                let f = <P0::Failure as From<Incomplete>>::from(Incomplete);
                proof {
                    assert(self.head().p0.extends(*input, o, r));
                    assert(fails_unless_settled(self.head().p0, *input, f));
                }
                return Err(StreamingError::Failure(f));
            },
            Err(StreamingError::Error(e)) => {
                proof {
                    assert(self.head().p0.rejects(*input, e));
                }
                return Err(StreamingError::Error(e));
            },
            Err(StreamingError::Incomplete(f)) => {
                proof {
                    assert(self.head().p0.starves(*input, f));
                }
                return Err(StreamingError::Incomplete(f));
            },
            Err(StreamingError::Failure(f)) => {
                proof {
                    assert(self.head().p0.fails(*input, f));
                    assert(fails_unless_settled(self.head().p0, *input, f));
                }
                return Err(StreamingError::Failure(f));
            },
        };
        let (o1, left1) = match self.p1.parse_stream(&o0) {
            Ok(StreamingOk::Complete(o, r)) => (o, r),
            Ok(StreamingOk::Partial(o, r)) => {
                let f = <P0::Failure as From<Incomplete>>::from(Incomplete);
                proof {
                    assert(self.head().p1.extends(o0, o, r));
                    assert(self.head().p0.completes(*input, o0, rest)
                        && fails_unless_settled(self.head().p1, o0, f));
                }
                return Err(StreamingError::Failure(f));
            },
            Err(StreamingError::Error(e)) => {
                proof {
                    assert(self.head().p0.completes(*input, o0, rest) && self.head().p1.rejects(o0,
                        e));
                }
                return Err(StreamingError::Error(e));
            },
            Err(StreamingError::Incomplete(f)) => {
                proof {
                    assert(self.head().p0.completes(*input, o0, rest) && self.head().p1.starves(o0,
                        f));
                }
                return Err(StreamingError::Incomplete(f));
            },
            Err(StreamingError::Failure(f)) => {
                proof {
                    assert(self.head().p1.fails(o0, f));
                    assert(self.head().p0.completes(*input, o0, rest)
                        && fails_unless_settled(self.head().p1, o0, f));
                }
                return Err(StreamingError::Failure(f));
            },
        };
        proof {
            assert(self.head().p0.completes(*input, o0, rest) && self.head().p1.completes(
                o0,
                o1,
                left1,
            ));
        }
        let (o2, left2) = match self.p2.parse_stream(&o1) {
            Ok(StreamingOk::Complete(o, r)) => (o, r),
            Ok(StreamingOk::Partial(o, r)) => {
                let f = <P0::Failure as From<Incomplete>>::from(Incomplete);
                proof {
                    assert(self.p2.extends(o1, o, r));
                    assert(self.head().completes(*input, o1, rest) && fails_unless_settled(self.p2,
                        o1, f));
                }
                return Err(StreamingError::Failure(f));
            },
            Err(StreamingError::Error(e)) => {
                proof {
                    assert(self.head().completes(*input, o1, rest) && self.p2.rejects(o1, e));
                }
                return Err(StreamingError::Error(e));
            },
            Err(StreamingError::Incomplete(f)) => {
                proof {
                    assert(self.head().completes(*input, o1, rest) && self.p2.starves(o1, f));
                }
                return Err(StreamingError::Incomplete(f));
            },
            Err(StreamingError::Failure(f)) => {
                proof {
                    assert(self.p2.fails(o1, f));
                    assert(self.head().completes(*input, o1, rest) && fails_unless_settled(self.p2,
                        o1, f));
                }
                return Err(StreamingError::Failure(f));
            },
        };
        proof {
            assert(self.head().completes(*input, o1, rest) && self.p2.completes(
                o1,
                o2,
                left2,
            ));
        }
        Ok(StreamingOk::Complete(o2, rest))
    }
}

impl<
    I,
    P0: StreamingParser<I>,
    P1: StreamingParser<P0::Output, Error = P0::Error, Failure = P0::Failure>,
    P2: StreamingParser<P1::Output, Error = P0::Error, Failure = P0::Failure>,
> StreamingCompose<I> for (P0, P1, P2) where P0::Failure: From<Incomplete> {
    type Joined = StreamPipe3<P0, P1, P2>;

    open spec fn joined(self) -> StreamPipe3<P0, P1, P2> {
        StreamPipe3 { p0: self.0, p1: self.1, p2: self.2 }
    }

    fn map(self) -> (r: StreamPipe3<P0, P1, P2>) {
        StreamPipe3 { p0: self.0, p1: self.1, p2: self.2 }
    }
}

/// Four streaming parsers run in a pipeline.
pub struct StreamPipe4<P0, P1, P2, P3> {
    pub p0: P0,
    pub p1: P1,
    pub p2: P2,
    pub p3: P3,
}

impl<P0, P1, P2, P3> StreamPipe4<P0, P1, P2, P3> {
    /// All but the last parser.
    pub open spec fn head(self) -> StreamPipe3<P0, P1, P2> {
        StreamPipe3 { p0: self.p0, p1: self.p1, p2: self.p2 }
    }
}

impl<
    I,
    P0: StreamingParser<I>,
    P1: StreamingParser<P0::Output, Error = P0::Error, Failure = P0::Failure>,
    P2: StreamingParser<P1::Output, Error = P0::Error, Failure = P0::Failure>,
    P3: StreamingParser<P2::Output, Error = P0::Error, Failure = P0::Failure>,
> StreamingParser<I> for StreamPipe4<P0, P1, P2, P3> where P0::Failure: From<Incomplete> {
    type Output = P3::Output;

    type Error = P0::Error;

    type Failure = P0::Failure;

    open spec fn inv(&self) -> bool {
        self.p0.inv() && self.p1.inv() && self.p2.inv() && self.p3.inv()
    }

    open spec fn completes(&self, input: I, out: P3::Output, rest: I) -> bool {
        exists|o: P2::Output, left: P2::Output|
            self.head().completes(input, o, rest) && #[trigger] self.p3.completes(o, out, left)
    }

    open spec fn extends(&self, input: I, out: P3::Output, rest: I) -> bool {
        false
    }

    open spec fn rejects(&self, input: I, e: P0::Error) -> bool {
        ||| self.head().rejects(input, e)
        ||| exists|o: P2::Output, rest: I| #[trigger]
            self.head().completes(input, o, rest) && self.p3.rejects(o, e)
    }

    open spec fn fails(&self, input: I, f: P0::Failure) -> bool {
        ||| self.head().fails(input, f)
        ||| exists|o: P2::Output, rest: I| #[trigger]
            self.head().completes(input, o, rest) && fails_unless_settled(self.p3, o, f)
    }

    open spec fn starves(&self, input: I, f: P0::Failure) -> bool {
        ||| self.head().starves(input, f)
        ||| exists|o: P2::Output, rest: I| #[trigger]
            self.head().completes(input, o, rest) && self.p3.starves(o, f)
    }

    fn parse_stream(&self, input: &I) -> (r: StreamingResult<I, P3::Output, P0::Error,
        P0::Failure>) {
        let (o0, rest) = match self.p0.parse_stream(input) {
            Ok(StreamingOk::Complete(o, r)) => (o, r),
            Ok(StreamingOk::Partial(o, r)) => {
                let f = <P0::Failure as From<Incomplete>>::from(Incomplete);
                proof {
                    assert(self.head().head().p0.extends(*input, o, r));
                    assert(fails_unless_settled(self.head().head().p0, *input, f));
                    assert(self.head().fails(*input, f));
                }
                return Err(StreamingError::Failure(f));
            },
            Err(StreamingError::Error(e)) => {
                proof {
                    assert(self.head().head().p0.rejects(*input, e));
                    assert(self.head().rejects(*input, e));
                }
                return Err(StreamingError::Error(e));
            },
            Err(StreamingError::Incomplete(f)) => {
                proof {
                    assert(self.head().head().p0.starves(*input, f));
                    assert(self.head().starves(*input, f));
                }
                return Err(StreamingError::Incomplete(f));
            },
            Err(StreamingError::Failure(f)) => {
                proof {
                    assert(self.head().head().p0.fails(*input, f));
                    assert(fails_unless_settled(self.head().head().p0, *input, f));
                    assert(self.head().fails(*input, f));
                }
                return Err(StreamingError::Failure(f));
            },
        };
        let (o1, left1) = match self.p1.parse_stream(&o0) {
            Ok(StreamingOk::Complete(o, r)) => (o, r),
            Ok(StreamingOk::Partial(o, r)) => {
                let f = <P0::Failure as From<Incomplete>>::from(Incomplete);
                proof {
                    assert(self.head().head().p1.extends(o0, o, r));
                    assert(self.head().head().p0.completes(*input, o0, rest)
                        && fails_unless_settled(self.head().head().p1, o0, f));
                    assert(self.head().fails(*input, f));
                }
                return Err(StreamingError::Failure(f));
            },
            Err(StreamingError::Error(e)) => {
                proof {
                    assert(self.head().head().p0.completes(*input, o0, rest)
                        && self.head().head().p1.rejects(o0, e));
                    assert(self.head().rejects(*input, e));
                }
                return Err(StreamingError::Error(e));
            },
            Err(StreamingError::Incomplete(f)) => {
                proof {
                    assert(self.head().head().p0.completes(*input, o0, rest)
                        && self.head().head().p1.starves(o0, f));
                    assert(self.head().starves(*input, f));
                }
                return Err(StreamingError::Incomplete(f));
            },
            Err(StreamingError::Failure(f)) => {
                proof {
                    assert(self.head().head().p1.fails(o0, f));
                    assert(self.head().head().p0.completes(*input, o0, rest)
                        && fails_unless_settled(self.head().head().p1, o0, f));
                    assert(self.head().fails(*input, f));
                }
                return Err(StreamingError::Failure(f));
            },
        };
        proof {
            assert(self.head().head().p0.completes(*input, o0, rest)
                && self.head().head().p1.completes(
                o0,
                o1,
                left1,
            ));
        }
        let (o2, left2) = match self.p2.parse_stream(&o1) {
            Ok(StreamingOk::Complete(o, r)) => (o, r),
            Ok(StreamingOk::Partial(o, r)) => {
                let f = <P0::Failure as From<Incomplete>>::from(Incomplete);
                proof {
                    assert(self.head().p2.extends(o1, o, r));
                    assert(self.head().head().completes(*input, o1, rest)
                        && fails_unless_settled(self.head().p2, o1, f));
                }
                return Err(StreamingError::Failure(f));
            },
            Err(StreamingError::Error(e)) => {
                proof {
                    assert(self.head().head().completes(*input, o1, rest)
                        && self.head().p2.rejects(o1, e));
                }
                return Err(StreamingError::Error(e));
            },
            Err(StreamingError::Incomplete(f)) => {
                proof {
                    assert(self.head().head().completes(*input, o1, rest)
                        && self.head().p2.starves(o1, f));
                }
                return Err(StreamingError::Incomplete(f));
            },
            Err(StreamingError::Failure(f)) => {
                proof {
                    assert(self.head().p2.fails(o1, f));
                    assert(self.head().head().completes(*input, o1, rest)
                        && fails_unless_settled(self.head().p2, o1, f));
                }
                return Err(StreamingError::Failure(f));
            },
        };
        proof {
            assert(self.head().head().completes(*input, o1, rest) && self.head().p2.completes(
                o1,
                o2,
                left2,
            ));
        }
        let (o3, left3) = match self.p3.parse_stream(&o2) {
            Ok(StreamingOk::Complete(o, r)) => (o, r),
            Ok(StreamingOk::Partial(o, r)) => {
                let f = <P0::Failure as From<Incomplete>>::from(Incomplete);
                proof {
                    assert(self.p3.extends(o2, o, r));
                    assert(self.head().completes(*input, o2, rest) && fails_unless_settled(self.p3,
                        o2, f));
                }
                return Err(StreamingError::Failure(f));
            },
            Err(StreamingError::Error(e)) => {
                proof {
                    assert(self.head().completes(*input, o2, rest) && self.p3.rejects(o2, e));
                }
                return Err(StreamingError::Error(e));
            },
            Err(StreamingError::Incomplete(f)) => {
                proof {
                    assert(self.head().completes(*input, o2, rest) && self.p3.starves(o2, f));
                }
                return Err(StreamingError::Incomplete(f));
            },
            Err(StreamingError::Failure(f)) => {
                proof {
                    assert(self.p3.fails(o2, f));
                    assert(self.head().completes(*input, o2, rest) && fails_unless_settled(self.p3,
                        o2, f));
                }
                return Err(StreamingError::Failure(f));
            },
        };
        proof {
            assert(self.head().completes(*input, o2, rest) && self.p3.completes(
                o2,
                o3,
                left3,
            ));
        }
        Ok(StreamingOk::Complete(o3, rest))
    }
}

impl<
    I,
    P0: StreamingParser<I>,
    P1: StreamingParser<P0::Output, Error = P0::Error, Failure = P0::Failure>,
    P2: StreamingParser<P1::Output, Error = P0::Error, Failure = P0::Failure>,
    P3: StreamingParser<P2::Output, Error = P0::Error, Failure = P0::Failure>,
> StreamingCompose<I> for (P0, P1, P2, P3) where P0::Failure: From<Incomplete> {
    type Joined = StreamPipe4<P0, P1, P2, P3>;

    open spec fn joined(self) -> StreamPipe4<P0, P1, P2, P3> {
        StreamPipe4 { p0: self.0, p1: self.1, p2: self.2, p3: self.3 }
    }

    fn map(self) -> (r: StreamPipe4<P0, P1, P2, P3>) {
        StreamPipe4 { p0: self.0, p1: self.1, p2: self.2, p3: self.3 }
    }
}

/// Five streaming parsers run in a pipeline.
pub struct StreamPipe5<P0, P1, P2, P3, P4> {
    pub p0: P0,
    pub p1: P1,
    pub p2: P2,
    pub p3: P3,
    pub p4: P4,
}

impl<P0, P1, P2, P3, P4> StreamPipe5<P0, P1, P2, P3, P4> {
    /// All but the last parser.
    pub open spec fn head(self) -> StreamPipe4<P0, P1, P2, P3> {
        StreamPipe4 { p0: self.p0, p1: self.p1, p2: self.p2, p3: self.p3 }
    }
}

impl<
    I,
    P0: StreamingParser<I>,
    P1: StreamingParser<P0::Output, Error = P0::Error, Failure = P0::Failure>,
    P2: StreamingParser<P1::Output, Error = P0::Error, Failure = P0::Failure>,
    P3: StreamingParser<P2::Output, Error = P0::Error, Failure = P0::Failure>,
    P4: StreamingParser<P3::Output, Error = P0::Error, Failure = P0::Failure>,
> StreamingParser<I> for StreamPipe5<P0, P1, P2, P3, P4> where P0::Failure: From<Incomplete> {
    type Output = P4::Output;

    type Error = P0::Error;

    type Failure = P0::Failure;

    open spec fn inv(&self) -> bool {
        self.p0.inv() && self.p1.inv() && self.p2.inv() && self.p3.inv() && self.p4.inv()
    }

    open spec fn completes(&self, input: I, out: P4::Output, rest: I) -> bool {
        exists|o: P3::Output, left: P3::Output|
            self.head().completes(input, o, rest) && #[trigger] self.p4.completes(o, out, left)
    }

    open spec fn extends(&self, input: I, out: P4::Output, rest: I) -> bool {
        false
    }

    open spec fn rejects(&self, input: I, e: P0::Error) -> bool {
        ||| self.head().rejects(input, e)
        ||| exists|o: P3::Output, rest: I| #[trigger]
            self.head().completes(input, o, rest) && self.p4.rejects(o, e)
    }

    open spec fn fails(&self, input: I, f: P0::Failure) -> bool {
        ||| self.head().fails(input, f)
        ||| exists|o: P3::Output, rest: I| #[trigger]
            self.head().completes(input, o, rest) && fails_unless_settled(self.p4, o, f)
    }

    open spec fn starves(&self, input: I, f: P0::Failure) -> bool {
        ||| self.head().starves(input, f)
        ||| exists|o: P3::Output, rest: I| #[trigger]
            self.head().completes(input, o, rest) && self.p4.starves(o, f)
    }

    fn parse_stream(&self, input: &I) -> (r: StreamingResult<I, P4::Output, P0::Error,
        P0::Failure>) {
        let (o0, rest) = match self.p0.parse_stream(input) {
            Ok(StreamingOk::Complete(o, r)) => (o, r),
            Ok(StreamingOk::Partial(o, r)) => {
                let f = <P0::Failure as From<Incomplete>>::from(Incomplete);
                proof {
                    assert(self.head().head().head().p0.extends(*input, o, r));
                    assert(fails_unless_settled(self.head().head().head().p0, *input, f));
                    assert(self.head().head().fails(*input, f));
                    assert(self.head().fails(*input, f));
                }
                return Err(StreamingError::Failure(f));
            },
            Err(StreamingError::Error(e)) => {
                proof {
                    assert(self.head().head().head().p0.rejects(*input, e));
                    assert(self.head().head().rejects(*input, e));
                    assert(self.head().rejects(*input, e));
                }
                return Err(StreamingError::Error(e));
            },
            Err(StreamingError::Incomplete(f)) => {
                proof {
                    assert(self.head().head().head().p0.starves(*input, f));
                    assert(self.head().head().starves(*input, f));
                    assert(self.head().starves(*input, f));
                }
                return Err(StreamingError::Incomplete(f));
            },
            Err(StreamingError::Failure(f)) => {
                proof {
                    assert(self.head().head().head().p0.fails(*input, f));
                    assert(fails_unless_settled(self.head().head().head().p0, *input, f));
                    assert(self.head().head().fails(*input, f));
                    assert(self.head().fails(*input, f));
                }
                return Err(StreamingError::Failure(f));
            },
        };
        let (o1, left1) = match self.p1.parse_stream(&o0) {
            Ok(StreamingOk::Complete(o, r)) => (o, r),
            Ok(StreamingOk::Partial(o, r)) => {
                let f = <P0::Failure as From<Incomplete>>::from(Incomplete);
                proof {
                    assert(self.head().head().head().p1.extends(o0, o, r));
                    assert(self.head().head().head().p0.completes(*input, o0, rest)
                        && fails_unless_settled(self.head().head().head().p1, o0, f));
                    assert(self.head().head().fails(*input, f));
                    assert(self.head().fails(*input, f));
                }
                return Err(StreamingError::Failure(f));
            },
            Err(StreamingError::Error(e)) => {
                proof {
                    assert(self.head().head().head().p0.completes(*input, o0, rest)
                        && self.head().head().head().p1.rejects(o0, e));
                    assert(self.head().head().rejects(*input, e));
                    assert(self.head().rejects(*input, e));
                }
                return Err(StreamingError::Error(e));
            },
            Err(StreamingError::Incomplete(f)) => {
                proof {
                    assert(self.head().head().head().p0.completes(*input, o0, rest)
                        && self.head().head().head().p1.starves(o0, f));
                    assert(self.head().head().starves(*input, f));
                    assert(self.head().starves(*input, f));
                }
                return Err(StreamingError::Incomplete(f));
            },
            Err(StreamingError::Failure(f)) => {
                proof {
                    assert(self.head().head().head().p1.fails(o0, f));
                    assert(self.head().head().head().p0.completes(*input, o0, rest)
                        && fails_unless_settled(self.head().head().head().p1, o0, f));
                    assert(self.head().head().fails(*input, f));
                    assert(self.head().fails(*input, f));
                }
                return Err(StreamingError::Failure(f));
            },
        };
        proof {
            assert(self.head().head().head().p0.completes(*input, o0, rest)
                && self.head().head().head().p1.completes(
                o0,
                o1,
                left1,
            ));
        }
        let (o2, left2) = match self.p2.parse_stream(&o1) {
            Ok(StreamingOk::Complete(o, r)) => (o, r),
            Ok(StreamingOk::Partial(o, r)) => {
                let f = <P0::Failure as From<Incomplete>>::from(Incomplete);
                proof {
                    assert(self.head().head().p2.extends(o1, o, r));
                    assert(self.head().head().head().completes(*input, o1, rest)
                        && fails_unless_settled(self.head().head().p2, o1, f));
                    assert(self.head().fails(*input, f));
                }
                return Err(StreamingError::Failure(f));
            },
            Err(StreamingError::Error(e)) => {
                proof {
                    assert(self.head().head().head().completes(*input, o1, rest)
                        && self.head().head().p2.rejects(o1, e));
                    assert(self.head().rejects(*input, e));
                }
                return Err(StreamingError::Error(e));
            },
            Err(StreamingError::Incomplete(f)) => {
                proof {
                    assert(self.head().head().head().completes(*input, o1, rest)
                        && self.head().head().p2.starves(o1, f));
                    assert(self.head().starves(*input, f));
                }
                return Err(StreamingError::Incomplete(f));
            },
            Err(StreamingError::Failure(f)) => {
                proof {
                    assert(self.head().head().p2.fails(o1, f));
                    assert(self.head().head().head().completes(*input, o1, rest)
                        && fails_unless_settled(self.head().head().p2, o1, f));
                    assert(self.head().fails(*input, f));
                }
                return Err(StreamingError::Failure(f));
            },
        };
        proof {
            assert(self.head().head().head().completes(*input, o1, rest)
                && self.head().head().p2.completes(
                o1,
                o2,
                left2,
            ));
        }
        let (o3, left3) = match self.p3.parse_stream(&o2) {
            Ok(StreamingOk::Complete(o, r)) => (o, r),
            Ok(StreamingOk::Partial(o, r)) => {
                let f = <P0::Failure as From<Incomplete>>::from(Incomplete);
                proof {
                    assert(self.head().p3.extends(o2, o, r));
                    assert(self.head().head().completes(*input, o2, rest)
                        && fails_unless_settled(self.head().p3, o2, f));
                }
                return Err(StreamingError::Failure(f));
            },
            Err(StreamingError::Error(e)) => {
                proof {
                    assert(self.head().head().completes(*input, o2, rest)
                        && self.head().p3.rejects(o2, e));
                }
                return Err(StreamingError::Error(e));
            },
            Err(StreamingError::Incomplete(f)) => {
                proof {
                    assert(self.head().head().completes(*input, o2, rest)
                        && self.head().p3.starves(o2, f));
                }
                return Err(StreamingError::Incomplete(f));
            },
            Err(StreamingError::Failure(f)) => {
                proof {
                    assert(self.head().p3.fails(o2, f));
                    assert(self.head().head().completes(*input, o2, rest)
                        && fails_unless_settled(self.head().p3, o2, f));
                }
                return Err(StreamingError::Failure(f));
            },
        };
        proof {
            assert(self.head().head().completes(*input, o2, rest) && self.head().p3.completes(
                o2,
                o3,
                left3,
            ));
        }
        let (o4, left4) = match self.p4.parse_stream(&o3) {
            Ok(StreamingOk::Complete(o, r)) => (o, r),
            Ok(StreamingOk::Partial(o, r)) => {
                let f = <P0::Failure as From<Incomplete>>::from(Incomplete);
                proof {
                    assert(self.p4.extends(o3, o, r));
                    assert(self.head().completes(*input, o3, rest) && fails_unless_settled(self.p4,
                        o3, f));
                }
                return Err(StreamingError::Failure(f));
            },
            Err(StreamingError::Error(e)) => {
                proof {
                    assert(self.head().completes(*input, o3, rest) && self.p4.rejects(o3, e));
                }
                return Err(StreamingError::Error(e));
            },
            Err(StreamingError::Incomplete(f)) => {
                proof {
                    assert(self.head().completes(*input, o3, rest) && self.p4.starves(o3, f));
                }
                return Err(StreamingError::Incomplete(f));
            },
            Err(StreamingError::Failure(f)) => {
                proof {
                    assert(self.p4.fails(o3, f));
                    assert(self.head().completes(*input, o3, rest) && fails_unless_settled(self.p4,
                        o3, f));
                }
                return Err(StreamingError::Failure(f));
            },
        };
        proof {
            assert(self.head().completes(*input, o3, rest) && self.p4.completes(
                o3,
                o4,
                left4,
            ));
        }
        Ok(StreamingOk::Complete(o4, rest))
    }
}

impl<
    I,
    P0: StreamingParser<I>,
    P1: StreamingParser<P0::Output, Error = P0::Error, Failure = P0::Failure>,
    P2: StreamingParser<P1::Output, Error = P0::Error, Failure = P0::Failure>,
    P3: StreamingParser<P2::Output, Error = P0::Error, Failure = P0::Failure>,
    P4: StreamingParser<P3::Output, Error = P0::Error, Failure = P0::Failure>,
> StreamingCompose<I> for (P0, P1, P2, P3, P4) where P0::Failure: From<Incomplete> {
    type Joined = StreamPipe5<P0, P1, P2, P3, P4>;

    open spec fn joined(self) -> StreamPipe5<P0, P1, P2, P3, P4> {
        StreamPipe5 { p0: self.0, p1: self.1, p2: self.2, p3: self.3, p4: self.4 }
    }

    fn map(self) -> (r: StreamPipe5<P0, P1, P2, P3, P4>) {
        StreamPipe5 { p0: self.0, p1: self.1, p2: self.2, p3: self.3, p4: self.4 }
    }
}

/// Six streaming parsers run in a pipeline.
pub struct StreamPipe6<P0, P1, P2, P3, P4, P5> {
    pub p0: P0,
    pub p1: P1,
    pub p2: P2,
    pub p3: P3,
    pub p4: P4,
    pub p5: P5,
}

impl<P0, P1, P2, P3, P4, P5> StreamPipe6<P0, P1, P2, P3, P4, P5> {
    /// All but the last parser.
    pub open spec fn head(self) -> StreamPipe5<P0, P1, P2, P3, P4> {
        StreamPipe5 { p0: self.p0, p1: self.p1, p2: self.p2, p3: self.p3, p4: self.p4 }
    }
}

impl<
    I,
    P0: StreamingParser<I>,
    P1: StreamingParser<P0::Output, Error = P0::Error, Failure = P0::Failure>,
    P2: StreamingParser<P1::Output, Error = P0::Error, Failure = P0::Failure>,
    P3: StreamingParser<P2::Output, Error = P0::Error, Failure = P0::Failure>,
    P4: StreamingParser<P3::Output, Error = P0::Error, Failure = P0::Failure>,
    P5: StreamingParser<P4::Output, Error = P0::Error, Failure = P0::Failure>,
> StreamingParser<I> for StreamPipe6<P0, P1, P2, P3, P4, P5> where P0::Failure: From<Incomplete> {
    type Output = P5::Output;

    type Error = P0::Error;

    type Failure = P0::Failure;

    open spec fn inv(&self) -> bool {
        self.p0.inv() && self.p1.inv() && self.p2.inv() && self.p3.inv() && self.p4.inv()
            && self.p5.inv()
    }

    open spec fn completes(&self, input: I, out: P5::Output, rest: I) -> bool {
        exists|o: P4::Output, left: P4::Output|
            self.head().completes(input, o, rest) && #[trigger] self.p5.completes(o, out, left)
    }

    open spec fn extends(&self, input: I, out: P5::Output, rest: I) -> bool {
        false
    }

    open spec fn rejects(&self, input: I, e: P0::Error) -> bool {
        ||| self.head().rejects(input, e)
        ||| exists|o: P4::Output, rest: I| #[trigger]
            self.head().completes(input, o, rest) && self.p5.rejects(o, e)
    }

    open spec fn fails(&self, input: I, f: P0::Failure) -> bool {
        ||| self.head().fails(input, f)
        ||| exists|o: P4::Output, rest: I| #[trigger]
            self.head().completes(input, o, rest) && fails_unless_settled(self.p5, o, f)
    }

    open spec fn starves(&self, input: I, f: P0::Failure) -> bool {
        ||| self.head().starves(input, f)
        ||| exists|o: P4::Output, rest: I| #[trigger]
            self.head().completes(input, o, rest) && self.p5.starves(o, f)
    }

    fn parse_stream(&self, input: &I) -> (r: StreamingResult<I, P5::Output, P0::Error,
        P0::Failure>) {
        let (o0, rest) = match self.p0.parse_stream(input) {
            Ok(StreamingOk::Complete(o, r)) => (o, r),
            Ok(StreamingOk::Partial(o, r)) => {
                let f = <P0::Failure as From<Incomplete>>::from(Incomplete);
                proof {
                    assert(self.head().head().head().head().p0.extends(*input, o, r));
                    assert(fails_unless_settled(self.head().head().head().head().p0, *input, f));
                    assert(self.head().head().head().fails(*input, f));
                    assert(self.head().head().fails(*input, f));
                    assert(self.head().fails(*input, f));
                }
                return Err(StreamingError::Failure(f));
            },
            Err(StreamingError::Error(e)) => {
                proof {
                    assert(self.head().head().head().head().p0.rejects(*input, e));
                    assert(self.head().head().head().rejects(*input, e));
                    assert(self.head().head().rejects(*input, e));
                    assert(self.head().rejects(*input, e));
                }
                return Err(StreamingError::Error(e));
            },
            Err(StreamingError::Incomplete(f)) => {
                proof {
                    assert(self.head().head().head().head().p0.starves(*input, f));
                    assert(self.head().head().head().starves(*input, f));
                    assert(self.head().head().starves(*input, f));
                    assert(self.head().starves(*input, f));
                }
                return Err(StreamingError::Incomplete(f));
            },
            Err(StreamingError::Failure(f)) => {
                proof {
                    assert(self.head().head().head().head().p0.fails(*input, f));
                    assert(fails_unless_settled(self.head().head().head().head().p0, *input, f));
                    assert(self.head().head().head().fails(*input, f));
                    assert(self.head().head().fails(*input, f));
                    assert(self.head().fails(*input, f));
                }
                return Err(StreamingError::Failure(f));
            },
        };
        let (o1, left1) = match self.p1.parse_stream(&o0) {
            Ok(StreamingOk::Complete(o, r)) => (o, r),
            Ok(StreamingOk::Partial(o, r)) => {
                let f = <P0::Failure as From<Incomplete>>::from(Incomplete);
                proof {
                    assert(self.head().head().head().head().p1.extends(o0, o, r));
                    assert(self.head().head().head().head().p0.completes(*input, o0, rest)
                        && fails_unless_settled(self.head().head().head().head().p1, o0, f));
                    assert(self.head().head().head().fails(*input, f));
                    assert(self.head().head().fails(*input, f));
                    assert(self.head().fails(*input, f));
                }
                return Err(StreamingError::Failure(f));
            },
            Err(StreamingError::Error(e)) => {
                proof {
                    assert(self.head().head().head().head().p0.completes(*input, o0, rest)
                        && self.head().head().head().head().p1.rejects(o0, e));
                    assert(self.head().head().head().rejects(*input, e));
                    assert(self.head().head().rejects(*input, e));
                    assert(self.head().rejects(*input, e));
                }
                return Err(StreamingError::Error(e));
            },
            Err(StreamingError::Incomplete(f)) => {
                proof {
                    assert(self.head().head().head().head().p0.completes(*input, o0, rest)
                        && self.head().head().head().head().p1.starves(o0, f));
                    assert(self.head().head().head().starves(*input, f));
                    assert(self.head().head().starves(*input, f));
                    assert(self.head().starves(*input, f));
                }
                return Err(StreamingError::Incomplete(f));
            },
            Err(StreamingError::Failure(f)) => {
                proof {
                    assert(self.head().head().head().head().p1.fails(o0, f));
                    assert(self.head().head().head().head().p0.completes(*input, o0, rest)
                        && fails_unless_settled(self.head().head().head().head().p1, o0, f));
                    assert(self.head().head().head().fails(*input, f));
                    assert(self.head().head().fails(*input, f));
                    assert(self.head().fails(*input, f));
                }
                return Err(StreamingError::Failure(f));
            },
        };
        proof {
            assert(self.head().head().head().head().p0.completes(*input, o0, rest)
                && self.head().head().head().head().p1.completes(
                o0,
                o1,
                left1,
            ));
        }
        let (o2, left2) = match self.p2.parse_stream(&o1) {
            Ok(StreamingOk::Complete(o, r)) => (o, r),
            Ok(StreamingOk::Partial(o, r)) => {
                let f = <P0::Failure as From<Incomplete>>::from(Incomplete);
                proof {
                    assert(self.head().head().head().p2.extends(o1, o, r));
                    assert(self.head().head().head().head().completes(*input, o1, rest)
                        && fails_unless_settled(self.head().head().head().p2, o1, f));
                    assert(self.head().head().fails(*input, f));
                    assert(self.head().fails(*input, f));
                }
                return Err(StreamingError::Failure(f));
            },
            Err(StreamingError::Error(e)) => {
                proof {
                    assert(self.head().head().head().head().completes(*input, o1, rest)
                        && self.head().head().head().p2.rejects(o1, e));
                    assert(self.head().head().rejects(*input, e));
                    assert(self.head().rejects(*input, e));
                }
                return Err(StreamingError::Error(e));
            },
            Err(StreamingError::Incomplete(f)) => {
                proof {
                    assert(self.head().head().head().head().completes(*input, o1, rest)
                        && self.head().head().head().p2.starves(o1, f));
                    assert(self.head().head().starves(*input, f));
                    assert(self.head().starves(*input, f));
                }
                return Err(StreamingError::Incomplete(f));
            },
            Err(StreamingError::Failure(f)) => {
                proof {
                    assert(self.head().head().head().p2.fails(o1, f));
                    assert(self.head().head().head().head().completes(*input, o1, rest)
                        && fails_unless_settled(self.head().head().head().p2, o1, f));
                    assert(self.head().head().fails(*input, f));
                    assert(self.head().fails(*input, f));
                }
                return Err(StreamingError::Failure(f));
            },
        };
        proof {
            assert(self.head().head().head().head().completes(*input, o1, rest)
                && self.head().head().head().p2.completes(
                o1,
                o2,
                left2,
            ));
        }
        let (o3, left3) = match self.p3.parse_stream(&o2) {
            Ok(StreamingOk::Complete(o, r)) => (o, r),
            Ok(StreamingOk::Partial(o, r)) => {
                let f = <P0::Failure as From<Incomplete>>::from(Incomplete);
                proof {
                    assert(self.head().head().p3.extends(o2, o, r));
                    assert(self.head().head().head().completes(*input, o2, rest)
                        && fails_unless_settled(self.head().head().p3, o2, f));
                    assert(self.head().fails(*input, f));
                }
                return Err(StreamingError::Failure(f));
            },
            Err(StreamingError::Error(e)) => {
                proof {
                    assert(self.head().head().head().completes(*input, o2, rest)
                        && self.head().head().p3.rejects(o2, e));
                    assert(self.head().rejects(*input, e));
                }
                return Err(StreamingError::Error(e));
            },
            Err(StreamingError::Incomplete(f)) => {
                proof {
                    assert(self.head().head().head().completes(*input, o2, rest)
                        && self.head().head().p3.starves(o2, f));
                    assert(self.head().starves(*input, f));
                }
                return Err(StreamingError::Incomplete(f));
            },
            Err(StreamingError::Failure(f)) => {
                proof {
                    assert(self.head().head().p3.fails(o2, f));
                    assert(self.head().head().head().completes(*input, o2, rest)
                        && fails_unless_settled(self.head().head().p3, o2, f));
                    assert(self.head().fails(*input, f));
                }
                return Err(StreamingError::Failure(f));
            },
        };
        proof {
            assert(self.head().head().head().completes(*input, o2, rest)
                && self.head().head().p3.completes(
                o2,
                o3,
                left3,
            ));
        }
        let (o4, left4) = match self.p4.parse_stream(&o3) {
            Ok(StreamingOk::Complete(o, r)) => (o, r),
            Ok(StreamingOk::Partial(o, r)) => {
                let f = <P0::Failure as From<Incomplete>>::from(Incomplete);
                proof {
                    assert(self.head().p4.extends(o3, o, r));
                    assert(self.head().head().completes(*input, o3, rest)
                        && fails_unless_settled(self.head().p4, o3, f));
                }
                return Err(StreamingError::Failure(f));
            },
            Err(StreamingError::Error(e)) => {
                proof {
                    assert(self.head().head().completes(*input, o3, rest)
                        && self.head().p4.rejects(o3, e));
                }
                return Err(StreamingError::Error(e));
            },
            Err(StreamingError::Incomplete(f)) => {
                proof {
                    assert(self.head().head().completes(*input, o3, rest)
                        && self.head().p4.starves(o3, f));
                }
                return Err(StreamingError::Incomplete(f));
            },
            Err(StreamingError::Failure(f)) => {
                proof {
                    assert(self.head().p4.fails(o3, f));
                    assert(self.head().head().completes(*input, o3, rest)
                        && fails_unless_settled(self.head().p4, o3, f));
                }
                return Err(StreamingError::Failure(f));
            },
        };
        proof {
            assert(self.head().head().completes(*input, o3, rest) && self.head().p4.completes(
                o3,
                o4,
                left4,
            ));
        }
        let (o5, left5) = match self.p5.parse_stream(&o4) {
            Ok(StreamingOk::Complete(o, r)) => (o, r),
            Ok(StreamingOk::Partial(o, r)) => {
                let f = <P0::Failure as From<Incomplete>>::from(Incomplete);
                proof {
                    assert(self.p5.extends(o4, o, r));
                    assert(self.head().completes(*input, o4, rest) && fails_unless_settled(self.p5,
                        o4, f));
                }
                return Err(StreamingError::Failure(f));
            },
            Err(StreamingError::Error(e)) => {
                proof {
                    assert(self.head().completes(*input, o4, rest) && self.p5.rejects(o4, e));
                }
                return Err(StreamingError::Error(e));
            },
            Err(StreamingError::Incomplete(f)) => {
                proof {
                    assert(self.head().completes(*input, o4, rest) && self.p5.starves(o4, f));
                }
                return Err(StreamingError::Incomplete(f));
            },
            Err(StreamingError::Failure(f)) => {
                proof {
                    assert(self.p5.fails(o4, f));
                    assert(self.head().completes(*input, o4, rest) && fails_unless_settled(self.p5,
                        o4, f));
                }
                return Err(StreamingError::Failure(f));
            },
        };
        proof {
            assert(self.head().completes(*input, o4, rest) && self.p5.completes(
                o4,
                o5,
                left5,
            ));
        }
        Ok(StreamingOk::Complete(o5, rest))
    }
}

impl<
    I,
    P0: StreamingParser<I>,
    P1: StreamingParser<P0::Output, Error = P0::Error, Failure = P0::Failure>,
    P2: StreamingParser<P1::Output, Error = P0::Error, Failure = P0::Failure>,
    P3: StreamingParser<P2::Output, Error = P0::Error, Failure = P0::Failure>,
    P4: StreamingParser<P3::Output, Error = P0::Error, Failure = P0::Failure>,
    P5: StreamingParser<P4::Output, Error = P0::Error, Failure = P0::Failure>,
> StreamingCompose<I> for (P0, P1, P2, P3, P4, P5) where P0::Failure: From<Incomplete> {
    type Joined = StreamPipe6<P0, P1, P2, P3, P4, P5>;

    open spec fn joined(self) -> StreamPipe6<P0, P1, P2, P3, P4, P5> {
        StreamPipe6 { p0: self.0, p1: self.1, p2: self.2, p3: self.3, p4: self.4, p5: self.5 }
    }

    fn map(self) -> (r: StreamPipe6<P0, P1, P2, P3, P4, P5>) {
        StreamPipe6 { p0: self.0, p1: self.1, p2: self.2, p3: self.3, p4: self.4, p5: self.5 }
    }
}

/// Seven streaming parsers run in a pipeline.
pub struct StreamPipe7<P0, P1, P2, P3, P4, P5, P6> {
    pub p0: P0,
    pub p1: P1,
    pub p2: P2,
    pub p3: P3,
    pub p4: P4,
    pub p5: P5,
    pub p6: P6,
}

impl<P0, P1, P2, P3, P4, P5, P6> StreamPipe7<P0, P1, P2, P3, P4, P5, P6> {
    /// All but the last parser.
    pub open spec fn head(self) -> StreamPipe6<P0, P1, P2, P3, P4, P5> {
        StreamPipe6 { p0: self.p0, p1: self.p1, p2: self.p2, p3: self.p3, p4: self.p4, p5: self.p5 }
    }
}

impl<
    I,
    P0: StreamingParser<I>,
    P1: StreamingParser<P0::Output, Error = P0::Error, Failure = P0::Failure>,
    P2: StreamingParser<P1::Output, Error = P0::Error, Failure = P0::Failure>,
    P3: StreamingParser<P2::Output, Error = P0::Error, Failure = P0::Failure>,
    P4: StreamingParser<P3::Output, Error = P0::Error, Failure = P0::Failure>,
    P5: StreamingParser<P4::Output, Error = P0::Error, Failure = P0::Failure>,
    P6: StreamingParser<P5::Output, Error = P0::Error, Failure = P0::Failure>,
> StreamingParser<I> for StreamPipe7<P0, P1, P2, P3, P4, P5,
    P6> where P0::Failure: From<Incomplete> {
    type Output = P6::Output;

    type Error = P0::Error;

    type Failure = P0::Failure;

    open spec fn inv(&self) -> bool {
        self.p0.inv() && self.p1.inv() && self.p2.inv() && self.p3.inv() && self.p4.inv()
            && self.p5.inv() && self.p6.inv()
    }

    open spec fn completes(&self, input: I, out: P6::Output, rest: I) -> bool {
        exists|o: P5::Output, left: P5::Output|
            self.head().completes(input, o, rest) && #[trigger] self.p6.completes(o, out, left)
    }

    open spec fn extends(&self, input: I, out: P6::Output, rest: I) -> bool {
        false
    }

    open spec fn rejects(&self, input: I, e: P0::Error) -> bool {
        ||| self.head().rejects(input, e)
        ||| exists|o: P5::Output, rest: I| #[trigger]
            self.head().completes(input, o, rest) && self.p6.rejects(o, e)
    }

    open spec fn fails(&self, input: I, f: P0::Failure) -> bool {
        ||| self.head().fails(input, f)
        ||| exists|o: P5::Output, rest: I| #[trigger]
            self.head().completes(input, o, rest) && fails_unless_settled(self.p6, o, f)
    }

    open spec fn starves(&self, input: I, f: P0::Failure) -> bool {
        ||| self.head().starves(input, f)
        ||| exists|o: P5::Output, rest: I| #[trigger]
            self.head().completes(input, o, rest) && self.p6.starves(o, f)
    }

    fn parse_stream(&self, input: &I) -> (r: StreamingResult<I, P6::Output, P0::Error,
        P0::Failure>) {
        let (o0, rest) = match self.p0.parse_stream(input) {
            Ok(StreamingOk::Complete(o, r)) => (o, r),
            Ok(StreamingOk::Partial(o, r)) => {
                let f = <P0::Failure as From<Incomplete>>::from(Incomplete);
                proof {
                    assert(self.head().head().head().head().head().p0.extends(*input, o, r));
                    assert(fails_unless_settled(self.head().head().head().head().head().p0, *input,
                        f));
                    assert(self.head().head().head().head().fails(*input, f));
                    assert(self.head().head().head().fails(*input, f));
                    assert(self.head().head().fails(*input, f));
                    assert(self.head().fails(*input, f));
                }
                return Err(StreamingError::Failure(f));
            },
            Err(StreamingError::Error(e)) => {
                proof {
                    assert(self.head().head().head().head().head().p0.rejects(*input, e));
                    assert(self.head().head().head().head().rejects(*input, e));
                    assert(self.head().head().head().rejects(*input, e));
                    assert(self.head().head().rejects(*input, e));
                    assert(self.head().rejects(*input, e));
                }
                return Err(StreamingError::Error(e));
            },
            Err(StreamingError::Incomplete(f)) => {
                proof {
                    assert(self.head().head().head().head().head().p0.starves(*input, f));
                    assert(self.head().head().head().head().starves(*input, f));
                    assert(self.head().head().head().starves(*input, f));
                    assert(self.head().head().starves(*input, f));
                    assert(self.head().starves(*input, f));
                }
                return Err(StreamingError::Incomplete(f));
            },
            Err(StreamingError::Failure(f)) => {
                proof {
                    assert(self.head().head().head().head().head().p0.fails(*input, f));
                    assert(fails_unless_settled(self.head().head().head().head().head().p0, *input,
                        f));
                    assert(self.head().head().head().head().fails(*input, f));
                    assert(self.head().head().head().fails(*input, f));
                    assert(self.head().head().fails(*input, f));
                    assert(self.head().fails(*input, f));
                }
                return Err(StreamingError::Failure(f));
            },
        };
        let (o1, left1) = match self.p1.parse_stream(&o0) {
            Ok(StreamingOk::Complete(o, r)) => (o, r),
            Ok(StreamingOk::Partial(o, r)) => {
                let f = <P0::Failure as From<Incomplete>>::from(Incomplete);
                proof {
                    assert(self.head().head().head().head().head().p1.extends(o0, o, r));
                    assert(self.head().head().head().head().head().p0.completes(*input, o0, rest)
                        && fails_unless_settled(self.head().head().head().head().head().p1, o0, f));
                    assert(self.head().head().head().head().fails(*input, f));
                    assert(self.head().head().head().fails(*input, f));
                    assert(self.head().head().fails(*input, f));
                    assert(self.head().fails(*input, f));
                }
                return Err(StreamingError::Failure(f));
            },
            Err(StreamingError::Error(e)) => {
                proof {
                    assert(self.head().head().head().head().head().p0.completes(*input, o0, rest)
                        && self.head().head().head().head().head().p1.rejects(o0, e));
                    assert(self.head().head().head().head().rejects(*input, e));
                    assert(self.head().head().head().rejects(*input, e));
                    assert(self.head().head().rejects(*input, e));
                    assert(self.head().rejects(*input, e));
                }
                return Err(StreamingError::Error(e));
            },
            Err(StreamingError::Incomplete(f)) => {
                proof {
                    assert(self.head().head().head().head().head().p0.completes(*input, o0, rest)
                        && self.head().head().head().head().head().p1.starves(o0, f));
                    assert(self.head().head().head().head().starves(*input, f));
                    assert(self.head().head().head().starves(*input, f));
                    assert(self.head().head().starves(*input, f));
                    assert(self.head().starves(*input, f));
                }
                return Err(StreamingError::Incomplete(f));
            },
            Err(StreamingError::Failure(f)) => {
                proof {
                    assert(self.head().head().head().head().head().p1.fails(o0, f));
                    assert(self.head().head().head().head().head().p0.completes(*input, o0, rest)
                        && fails_unless_settled(self.head().head().head().head().head().p1, o0, f));
                    assert(self.head().head().head().head().fails(*input, f));
                    assert(self.head().head().head().fails(*input, f));
                    assert(self.head().head().fails(*input, f));
                    assert(self.head().fails(*input, f));
                }
                return Err(StreamingError::Failure(f));
            },
        };
        proof {
            assert(self.head().head().head().head().head().p0.completes(*input, o0, rest)
                && self.head().head().head().head().head().p1.completes(
                o0,
                o1,
                left1,
            ));
        }
        let (o2, left2) = match self.p2.parse_stream(&o1) {
            Ok(StreamingOk::Complete(o, r)) => (o, r),
            Ok(StreamingOk::Partial(o, r)) => {
                let f = <P0::Failure as From<Incomplete>>::from(Incomplete);
                proof {
                    assert(self.head().head().head().head().p2.extends(o1, o, r));
                    assert(self.head().head().head().head().head().completes(*input, o1, rest)
                        && fails_unless_settled(self.head().head().head().head().p2, o1, f));
                    assert(self.head().head().head().fails(*input, f));
                    assert(self.head().head().fails(*input, f));
                    assert(self.head().fails(*input, f));
                }
                return Err(StreamingError::Failure(f));
            },
            Err(StreamingError::Error(e)) => {
                proof {
                    assert(self.head().head().head().head().head().completes(*input, o1, rest)
                        && self.head().head().head().head().p2.rejects(o1, e));
                    assert(self.head().head().head().rejects(*input, e));
                    assert(self.head().head().rejects(*input, e));
                    assert(self.head().rejects(*input, e));
                }
                return Err(StreamingError::Error(e));
            },
            Err(StreamingError::Incomplete(f)) => {
                proof {
                    assert(self.head().head().head().head().head().completes(*input, o1, rest)
                        && self.head().head().head().head().p2.starves(o1, f));
                    assert(self.head().head().head().starves(*input, f));
                    assert(self.head().head().starves(*input, f));
                    assert(self.head().starves(*input, f));
                }
                return Err(StreamingError::Incomplete(f));
            },
            Err(StreamingError::Failure(f)) => {
                proof {
                    assert(self.head().head().head().head().p2.fails(o1, f));
                    assert(self.head().head().head().head().head().completes(*input, o1, rest)
                        && fails_unless_settled(self.head().head().head().head().p2, o1, f));
                    assert(self.head().head().head().fails(*input, f));
                    assert(self.head().head().fails(*input, f));
                    assert(self.head().fails(*input, f));
                }
                return Err(StreamingError::Failure(f));
            },
        };
        proof {
            assert(self.head().head().head().head().head().completes(*input, o1, rest)
                && self.head().head().head().head().p2.completes(
                o1,
                o2,
                left2,
            ));
        }
        let (o3, left3) = match self.p3.parse_stream(&o2) {
            Ok(StreamingOk::Complete(o, r)) => (o, r),
            Ok(StreamingOk::Partial(o, r)) => {
                let f = <P0::Failure as From<Incomplete>>::from(Incomplete);
                proof {
                    assert(self.head().head().head().p3.extends(o2, o, r));
                    assert(self.head().head().head().head().completes(*input, o2, rest)
                        && fails_unless_settled(self.head().head().head().p3, o2, f));
                    assert(self.head().head().fails(*input, f));
                    assert(self.head().fails(*input, f));
                }
                return Err(StreamingError::Failure(f));
            },
            Err(StreamingError::Error(e)) => {
                proof {
                    assert(self.head().head().head().head().completes(*input, o2, rest)
                        && self.head().head().head().p3.rejects(o2, e));
                    assert(self.head().head().rejects(*input, e));
                    assert(self.head().rejects(*input, e));
                }
                return Err(StreamingError::Error(e));
            },
            Err(StreamingError::Incomplete(f)) => {
                proof {
                    assert(self.head().head().head().head().completes(*input, o2, rest)
                        && self.head().head().head().p3.starves(o2, f));
                    assert(self.head().head().starves(*input, f));
                    assert(self.head().starves(*input, f));
                }
                return Err(StreamingError::Incomplete(f));
            },
            Err(StreamingError::Failure(f)) => {
                proof {
                    assert(self.head().head().head().p3.fails(o2, f));
                    assert(self.head().head().head().head().completes(*input, o2, rest)
                        && fails_unless_settled(self.head().head().head().p3, o2, f));
                    assert(self.head().head().fails(*input, f));
                    assert(self.head().fails(*input, f));
                }
                return Err(StreamingError::Failure(f));
            },
        };
        proof {
            assert(self.head().head().head().head().completes(*input, o2, rest)
                && self.head().head().head().p3.completes(
                o2,
                o3,
                left3,
            ));
        }
        let (o4, left4) = match self.p4.parse_stream(&o3) {
            Ok(StreamingOk::Complete(o, r)) => (o, r),
            Ok(StreamingOk::Partial(o, r)) => {
                let f = <P0::Failure as From<Incomplete>>::from(Incomplete);
                proof {
                    assert(self.head().head().p4.extends(o3, o, r));
                    assert(self.head().head().head().completes(*input, o3, rest)
                        && fails_unless_settled(self.head().head().p4, o3, f));
                    assert(self.head().fails(*input, f));
                }
                return Err(StreamingError::Failure(f));
            },
            Err(StreamingError::Error(e)) => {
                proof {
                    assert(self.head().head().head().completes(*input, o3, rest)
                        && self.head().head().p4.rejects(o3, e));
                    assert(self.head().rejects(*input, e));
                }
                return Err(StreamingError::Error(e));
            },
            Err(StreamingError::Incomplete(f)) => {
                proof {
                    assert(self.head().head().head().completes(*input, o3, rest)
                        && self.head().head().p4.starves(o3, f));
                    assert(self.head().starves(*input, f));
                }
                return Err(StreamingError::Incomplete(f));
            },
            Err(StreamingError::Failure(f)) => {
                proof {
                    assert(self.head().head().p4.fails(o3, f));
                    assert(self.head().head().head().completes(*input, o3, rest)
                        && fails_unless_settled(self.head().head().p4, o3, f));
                    assert(self.head().fails(*input, f));
                }
                return Err(StreamingError::Failure(f));
            },
        };
        proof {
            assert(self.head().head().head().completes(*input, o3, rest)
                && self.head().head().p4.completes(
                o3,
                o4,
                left4,
            ));
        }
        let (o5, left5) = match self.p5.parse_stream(&o4) {
            Ok(StreamingOk::Complete(o, r)) => (o, r),
            Ok(StreamingOk::Partial(o, r)) => {
                let f = <P0::Failure as From<Incomplete>>::from(Incomplete);
                proof {
                    assert(self.head().p5.extends(o4, o, r));
                    assert(self.head().head().completes(*input, o4, rest)
                        && fails_unless_settled(self.head().p5, o4, f));
                }
                return Err(StreamingError::Failure(f));
            },
            Err(StreamingError::Error(e)) => {
                proof {
                    assert(self.head().head().completes(*input, o4, rest)
                        && self.head().p5.rejects(o4, e));
                }
                return Err(StreamingError::Error(e));
            },
            Err(StreamingError::Incomplete(f)) => {
                proof {
                    assert(self.head().head().completes(*input, o4, rest)
                        && self.head().p5.starves(o4, f));
                }
                return Err(StreamingError::Incomplete(f));
            },
            Err(StreamingError::Failure(f)) => {
                proof {
                    assert(self.head().p5.fails(o4, f));
                    assert(self.head().head().completes(*input, o4, rest)
                        && fails_unless_settled(self.head().p5, o4, f));
                }
                return Err(StreamingError::Failure(f));
            },
        };
        proof {
            assert(self.head().head().completes(*input, o4, rest) && self.head().p5.completes(
                o4,
                o5,
                left5,
            ));
        }
        let (o6, left6) = match self.p6.parse_stream(&o5) {
            Ok(StreamingOk::Complete(o, r)) => (o, r),
            Ok(StreamingOk::Partial(o, r)) => {
                let f = <P0::Failure as From<Incomplete>>::from(Incomplete);
                proof {
                    assert(self.p6.extends(o5, o, r));
                    assert(self.head().completes(*input, o5, rest) && fails_unless_settled(self.p6,
                        o5, f));
                }
                return Err(StreamingError::Failure(f));
            },
            Err(StreamingError::Error(e)) => {
                proof {
                    assert(self.head().completes(*input, o5, rest) && self.p6.rejects(o5, e));
                }
                return Err(StreamingError::Error(e));
            },
            Err(StreamingError::Incomplete(f)) => {
                proof {
                    assert(self.head().completes(*input, o5, rest) && self.p6.starves(o5, f));
                }
                return Err(StreamingError::Incomplete(f));
            },
            Err(StreamingError::Failure(f)) => {
                proof {
                    assert(self.p6.fails(o5, f));
                    assert(self.head().completes(*input, o5, rest) && fails_unless_settled(self.p6,
                        o5, f));
                }
                return Err(StreamingError::Failure(f));
            },
        };
        proof {
            assert(self.head().completes(*input, o5, rest) && self.p6.completes(
                o5,
                o6,
                left6,
            ));
        }
        Ok(StreamingOk::Complete(o6, rest))
    }
}

impl<
    I,
    P0: StreamingParser<I>,
    P1: StreamingParser<P0::Output, Error = P0::Error, Failure = P0::Failure>,
    P2: StreamingParser<P1::Output, Error = P0::Error, Failure = P0::Failure>,
    P3: StreamingParser<P2::Output, Error = P0::Error, Failure = P0::Failure>,
    P4: StreamingParser<P3::Output, Error = P0::Error, Failure = P0::Failure>,
    P5: StreamingParser<P4::Output, Error = P0::Error, Failure = P0::Failure>,
    P6: StreamingParser<P5::Output, Error = P0::Error, Failure = P0::Failure>,
> StreamingCompose<I> for (P0, P1, P2, P3, P4, P5, P6) where P0::Failure: From<Incomplete> {
    type Joined = StreamPipe7<P0, P1, P2, P3, P4, P5, P6>;

    open spec fn joined(self) -> StreamPipe7<P0, P1, P2, P3, P4, P5, P6> {
        StreamPipe7 { p0: self.0, p1: self.1, p2: self.2, p3: self.3, p4: self.4, p5: self.5,
            p6: self.6 }
    }

    fn map(self) -> (r: StreamPipe7<P0, P1, P2, P3, P4, P5, P6>) {
        StreamPipe7 { p0: self.0, p1: self.1, p2: self.2, p3: self.3, p4: self.4, p5: self.5,
            p6: self.6 }
    }
}

/// Eight streaming parsers run in a pipeline.
pub struct StreamPipe8<P0, P1, P2, P3, P4, P5, P6, P7> {
    pub p0: P0,
    pub p1: P1,
    pub p2: P2,
    pub p3: P3,
    pub p4: P4,
    pub p5: P5,
    pub p6: P6,
    pub p7: P7,
}

impl<P0, P1, P2, P3, P4, P5, P6, P7> StreamPipe8<P0, P1, P2, P3, P4, P5, P6, P7> {
    /// All but the last parser.
    pub open spec fn head(self) -> StreamPipe7<P0, P1, P2, P3, P4, P5, P6> {
        StreamPipe7 { p0: self.p0, p1: self.p1, p2: self.p2, p3: self.p3, p4: self.p4, p5: self.p5,
            p6: self.p6 }
    }
}

impl<
    I,
    P0: StreamingParser<I>,
    P1: StreamingParser<P0::Output, Error = P0::Error, Failure = P0::Failure>,
    P2: StreamingParser<P1::Output, Error = P0::Error, Failure = P0::Failure>,
    P3: StreamingParser<P2::Output, Error = P0::Error, Failure = P0::Failure>,
    P4: StreamingParser<P3::Output, Error = P0::Error, Failure = P0::Failure>,
    P5: StreamingParser<P4::Output, Error = P0::Error, Failure = P0::Failure>,
    P6: StreamingParser<P5::Output, Error = P0::Error, Failure = P0::Failure>,
    P7: StreamingParser<P6::Output, Error = P0::Error, Failure = P0::Failure>,
> StreamingParser<I> for StreamPipe8<P0, P1, P2, P3, P4, P5, P6,
    P7> where P0::Failure: From<Incomplete> {
    type Output = P7::Output;

    type Error = P0::Error;

    type Failure = P0::Failure;

    open spec fn inv(&self) -> bool {
        self.p0.inv() && self.p1.inv() && self.p2.inv() && self.p3.inv() && self.p4.inv()
            && self.p5.inv() && self.p6.inv() && self.p7.inv()
    }

    open spec fn completes(&self, input: I, out: P7::Output, rest: I) -> bool {
        exists|o: P6::Output, left: P6::Output|
            self.head().completes(input, o, rest) && #[trigger] self.p7.completes(o, out, left)
    }

    open spec fn extends(&self, input: I, out: P7::Output, rest: I) -> bool {
        false
    }

    open spec fn rejects(&self, input: I, e: P0::Error) -> bool {
        ||| self.head().rejects(input, e)
        ||| exists|o: P6::Output, rest: I| #[trigger]
            self.head().completes(input, o, rest) && self.p7.rejects(o, e)
    }

    open spec fn fails(&self, input: I, f: P0::Failure) -> bool {
        ||| self.head().fails(input, f)
        ||| exists|o: P6::Output, rest: I| #[trigger]
            self.head().completes(input, o, rest) && fails_unless_settled(self.p7, o, f)
    }

    open spec fn starves(&self, input: I, f: P0::Failure) -> bool {
        ||| self.head().starves(input, f)
        ||| exists|o: P6::Output, rest: I| #[trigger]
            self.head().completes(input, o, rest) && self.p7.starves(o, f)
    }

    fn parse_stream(&self, input: &I) -> (r: StreamingResult<I, P7::Output, P0::Error,
        P0::Failure>) {
        let (o0, rest) = match self.p0.parse_stream(input) {
            Ok(StreamingOk::Complete(o, r)) => (o, r),
            Ok(StreamingOk::Partial(o, r)) => {
                let f = <P0::Failure as From<Incomplete>>::from(Incomplete);
                proof {
                    assert(self.head().head().head().head().head().head().p0.extends(*input, o, r));
                    assert(fails_unless_settled(self.head().head().head().head().head().head().p0,
                        *input, f));
                    assert(self.head().head().head().head().head().fails(*input, f));
                    assert(self.head().head().head().head().fails(*input, f));
                    assert(self.head().head().head().fails(*input, f));
                    assert(self.head().head().fails(*input, f));
                    assert(self.head().fails(*input, f));
                }
                return Err(StreamingError::Failure(f));
            },
            Err(StreamingError::Error(e)) => {
                proof {
                    assert(self.head().head().head().head().head().head().p0.rejects(*input, e));
                    assert(self.head().head().head().head().head().rejects(*input, e));
                    assert(self.head().head().head().head().rejects(*input, e));
                    assert(self.head().head().head().rejects(*input, e));
                    assert(self.head().head().rejects(*input, e));
                    assert(self.head().rejects(*input, e));
                }
                return Err(StreamingError::Error(e));
            },
            Err(StreamingError::Incomplete(f)) => {
                proof {
                    assert(self.head().head().head().head().head().head().p0.starves(*input, f));
                    assert(self.head().head().head().head().head().starves(*input, f));
                    assert(self.head().head().head().head().starves(*input, f));
                    assert(self.head().head().head().starves(*input, f));
                    assert(self.head().head().starves(*input, f));
                    assert(self.head().starves(*input, f));
                }
                return Err(StreamingError::Incomplete(f));
            },
            Err(StreamingError::Failure(f)) => {
                proof {
                    assert(self.head().head().head().head().head().head().p0.fails(*input, f));
                    assert(fails_unless_settled(self.head().head().head().head().head().head().p0,
                        *input, f));
                    assert(self.head().head().head().head().head().fails(*input, f));
                    assert(self.head().head().head().head().fails(*input, f));
                    assert(self.head().head().head().fails(*input, f));
                    assert(self.head().head().fails(*input, f));
                    assert(self.head().fails(*input, f));
                }
                return Err(StreamingError::Failure(f));
            },
        };
        let (o1, left1) = match self.p1.parse_stream(&o0) {
            Ok(StreamingOk::Complete(o, r)) => (o, r),
            Ok(StreamingOk::Partial(o, r)) => {
                let f = <P0::Failure as From<Incomplete>>::from(Incomplete);
                proof {
                    assert(self.head().head().head().head().head().head().p1.extends(o0, o, r));
                    assert(self.head().head().head().head().head().head().p0.completes(*input, o0,
                        rest)
                        && fails_unless_settled(self.head().head().head().head().head().head().p1,
                        o0, f));
                    assert(self.head().head().head().head().head().fails(*input, f));
                    assert(self.head().head().head().head().fails(*input, f));
                    assert(self.head().head().head().fails(*input, f));
                    assert(self.head().head().fails(*input, f));
                    assert(self.head().fails(*input, f));
                }
                return Err(StreamingError::Failure(f));
            },
            Err(StreamingError::Error(e)) => {
                proof {
                    assert(self.head().head().head().head().head().head().p0.completes(*input, o0,
                        rest) && self.head().head().head().head().head().head().p1.rejects(o0, e));
                    assert(self.head().head().head().head().head().rejects(*input, e));
                    assert(self.head().head().head().head().rejects(*input, e));
                    assert(self.head().head().head().rejects(*input, e));
                    assert(self.head().head().rejects(*input, e));
                    assert(self.head().rejects(*input, e));
                }
                return Err(StreamingError::Error(e));
            },
            Err(StreamingError::Incomplete(f)) => {
                proof {
                    assert(self.head().head().head().head().head().head().p0.completes(*input, o0,
                        rest) && self.head().head().head().head().head().head().p1.starves(o0, f));
                    assert(self.head().head().head().head().head().starves(*input, f));
                    assert(self.head().head().head().head().starves(*input, f));
                    assert(self.head().head().head().starves(*input, f));
                    assert(self.head().head().starves(*input, f));
                    assert(self.head().starves(*input, f));
                }
                return Err(StreamingError::Incomplete(f));
            },
            Err(StreamingError::Failure(f)) => {
                proof {
                    assert(self.head().head().head().head().head().head().p1.fails(o0, f));
                    assert(self.head().head().head().head().head().head().p0.completes(*input, o0,
                        rest)
                        && fails_unless_settled(self.head().head().head().head().head().head().p1,
                        o0, f));
                    assert(self.head().head().head().head().head().fails(*input, f));
                    assert(self.head().head().head().head().fails(*input, f));
                    assert(self.head().head().head().fails(*input, f));
                    assert(self.head().head().fails(*input, f));
                    assert(self.head().fails(*input, f));
                }
                return Err(StreamingError::Failure(f));
            },
        };
        proof {
            assert(self.head().head().head().head().head().head().p0.completes(*input, o0, rest)
                && self.head().head().head().head().head().head().p1.completes(
                o0,
                o1,
                left1,
            ));
        }
        let (o2, left2) = match self.p2.parse_stream(&o1) {
            Ok(StreamingOk::Complete(o, r)) => (o, r),
            Ok(StreamingOk::Partial(o, r)) => {
                let f = <P0::Failure as From<Incomplete>>::from(Incomplete);
                proof {
                    assert(self.head().head().head().head().head().p2.extends(o1, o, r));
                    assert(self.head().head().head().head().head().head().completes(*input, o1,
                        rest) && fails_unless_settled(self.head().head().head().head().head().p2,
                        o1, f));
                    assert(self.head().head().head().head().fails(*input, f));
                    assert(self.head().head().head().fails(*input, f));
                    assert(self.head().head().fails(*input, f));
                    assert(self.head().fails(*input, f));
                }
                return Err(StreamingError::Failure(f));
            },
            Err(StreamingError::Error(e)) => {
                proof {
                    assert(self.head().head().head().head().head().head().completes(*input, o1,
                        rest) && self.head().head().head().head().head().p2.rejects(o1, e));
                    assert(self.head().head().head().head().rejects(*input, e));
                    assert(self.head().head().head().rejects(*input, e));
                    assert(self.head().head().rejects(*input, e));
                    assert(self.head().rejects(*input, e));
                }
                return Err(StreamingError::Error(e));
            },
            Err(StreamingError::Incomplete(f)) => {
                proof {
                    assert(self.head().head().head().head().head().head().completes(*input, o1,
                        rest) && self.head().head().head().head().head().p2.starves(o1, f));
                    assert(self.head().head().head().head().starves(*input, f));
                    assert(self.head().head().head().starves(*input, f));
                    assert(self.head().head().starves(*input, f));
                    assert(self.head().starves(*input, f));
                }
                return Err(StreamingError::Incomplete(f));
            },
            Err(StreamingError::Failure(f)) => {
                proof {
                    assert(self.head().head().head().head().head().p2.fails(o1, f));
                    assert(self.head().head().head().head().head().head().completes(*input, o1,
                        rest) && fails_unless_settled(self.head().head().head().head().head().p2,
                        o1, f));
                    assert(self.head().head().head().head().fails(*input, f));
                    assert(self.head().head().head().fails(*input, f));
                    assert(self.head().head().fails(*input, f));
                    assert(self.head().fails(*input, f));
                }
                return Err(StreamingError::Failure(f));
            },
        };
        proof {
            assert(self.head().head().head().head().head().head().completes(*input, o1, rest)
                && self.head().head().head().head().head().p2.completes(
                o1,
                o2,
                left2,
            ));
        }
        let (o3, left3) = match self.p3.parse_stream(&o2) {
            Ok(StreamingOk::Complete(o, r)) => (o, r),
            Ok(StreamingOk::Partial(o, r)) => {
                let f = <P0::Failure as From<Incomplete>>::from(Incomplete);
                proof {
                    assert(self.head().head().head().head().p3.extends(o2, o, r));
                    assert(self.head().head().head().head().head().completes(*input, o2, rest)
                        && fails_unless_settled(self.head().head().head().head().p3, o2, f));
                    assert(self.head().head().head().fails(*input, f));
                    assert(self.head().head().fails(*input, f));
                    assert(self.head().fails(*input, f));
                }
                return Err(StreamingError::Failure(f));
            },
            Err(StreamingError::Error(e)) => {
                proof {
                    assert(self.head().head().head().head().head().completes(*input, o2, rest)
                        && self.head().head().head().head().p3.rejects(o2, e));
                    assert(self.head().head().head().rejects(*input, e));
                    assert(self.head().head().rejects(*input, e));
                    assert(self.head().rejects(*input, e));
                }
                return Err(StreamingError::Error(e));
            },
            Err(StreamingError::Incomplete(f)) => {
                proof {
                    assert(self.head().head().head().head().head().completes(*input, o2, rest)
                        && self.head().head().head().head().p3.starves(o2, f));
                    assert(self.head().head().head().starves(*input, f));
                    assert(self.head().head().starves(*input, f));
                    assert(self.head().starves(*input, f));
                }
                return Err(StreamingError::Incomplete(f));
            },
            Err(StreamingError::Failure(f)) => {
                proof {
                    assert(self.head().head().head().head().p3.fails(o2, f));
                    assert(self.head().head().head().head().head().completes(*input, o2, rest)
                        && fails_unless_settled(self.head().head().head().head().p3, o2, f));
                    assert(self.head().head().head().fails(*input, f));
                    assert(self.head().head().fails(*input, f));
                    assert(self.head().fails(*input, f));
                }
                return Err(StreamingError::Failure(f));
            },
        };
        proof {
            assert(self.head().head().head().head().head().completes(*input, o2, rest)
                && self.head().head().head().head().p3.completes(
                o2,
                o3,
                left3,
            ));
        }
        let (o4, left4) = match self.p4.parse_stream(&o3) {
            Ok(StreamingOk::Complete(o, r)) => (o, r),
            Ok(StreamingOk::Partial(o, r)) => {
                let f = <P0::Failure as From<Incomplete>>::from(Incomplete);
                proof {
                    assert(self.head().head().head().p4.extends(o3, o, r));
                    assert(self.head().head().head().head().completes(*input, o3, rest)
                        && fails_unless_settled(self.head().head().head().p4, o3, f));
                    assert(self.head().head().fails(*input, f));
                    assert(self.head().fails(*input, f));
                }
                return Err(StreamingError::Failure(f));
            },
            Err(StreamingError::Error(e)) => {
                proof {
                    assert(self.head().head().head().head().completes(*input, o3, rest)
                        && self.head().head().head().p4.rejects(o3, e));
                    assert(self.head().head().rejects(*input, e));
                    assert(self.head().rejects(*input, e));
                }
                return Err(StreamingError::Error(e));
            },
            Err(StreamingError::Incomplete(f)) => {
                proof {
                    assert(self.head().head().head().head().completes(*input, o3, rest)
                        && self.head().head().head().p4.starves(o3, f));
                    assert(self.head().head().starves(*input, f));
                    assert(self.head().starves(*input, f));
                }
                return Err(StreamingError::Incomplete(f));
            },
            Err(StreamingError::Failure(f)) => {
                proof {
                    assert(self.head().head().head().p4.fails(o3, f));
                    assert(self.head().head().head().head().completes(*input, o3, rest)
                        && fails_unless_settled(self.head().head().head().p4, o3, f));
                    assert(self.head().head().fails(*input, f));
                    assert(self.head().fails(*input, f));
                }
                return Err(StreamingError::Failure(f));
            },
        };
        proof {
            assert(self.head().head().head().head().completes(*input, o3, rest)
                && self.head().head().head().p4.completes(
                o3,
                o4,
                left4,
            ));
        }
        let (o5, left5) = match self.p5.parse_stream(&o4) {
            Ok(StreamingOk::Complete(o, r)) => (o, r),
            Ok(StreamingOk::Partial(o, r)) => {
                let f = <P0::Failure as From<Incomplete>>::from(Incomplete);
                proof {
                    assert(self.head().head().p5.extends(o4, o, r));
                    assert(self.head().head().head().completes(*input, o4, rest)
                        && fails_unless_settled(self.head().head().p5, o4, f));
                    assert(self.head().fails(*input, f));
                }
                return Err(StreamingError::Failure(f));
            },
            Err(StreamingError::Error(e)) => {
                proof {
                    assert(self.head().head().head().completes(*input, o4, rest)
                        && self.head().head().p5.rejects(o4, e));
                    assert(self.head().rejects(*input, e));
                }
                return Err(StreamingError::Error(e));
            },
            Err(StreamingError::Incomplete(f)) => {
                proof {
                    assert(self.head().head().head().completes(*input, o4, rest)
                        && self.head().head().p5.starves(o4, f));
                    assert(self.head().starves(*input, f));
                }
                return Err(StreamingError::Incomplete(f));
            },
            Err(StreamingError::Failure(f)) => {
                proof {
                    assert(self.head().head().p5.fails(o4, f));
                    assert(self.head().head().head().completes(*input, o4, rest)
                        && fails_unless_settled(self.head().head().p5, o4, f));
                    assert(self.head().fails(*input, f));
                }
                return Err(StreamingError::Failure(f));
            },
        };
        proof {
            assert(self.head().head().head().completes(*input, o4, rest)
                && self.head().head().p5.completes(
                o4,
                o5,
                left5,
            ));
        }
        let (o6, left6) = match self.p6.parse_stream(&o5) {
            Ok(StreamingOk::Complete(o, r)) => (o, r),
            Ok(StreamingOk::Partial(o, r)) => {
                let f = <P0::Failure as From<Incomplete>>::from(Incomplete);
                proof {
                    assert(self.head().p6.extends(o5, o, r));
                    assert(self.head().head().completes(*input, o5, rest)
                        && fails_unless_settled(self.head().p6, o5, f));
                }
                return Err(StreamingError::Failure(f));
            },
            Err(StreamingError::Error(e)) => {
                proof {
                    assert(self.head().head().completes(*input, o5, rest)
                        && self.head().p6.rejects(o5, e));
                }
                return Err(StreamingError::Error(e));
            },
            Err(StreamingError::Incomplete(f)) => {
                proof {
                    assert(self.head().head().completes(*input, o5, rest)
                        && self.head().p6.starves(o5, f));
                }
                return Err(StreamingError::Incomplete(f));
            },
            Err(StreamingError::Failure(f)) => {
                proof {
                    assert(self.head().p6.fails(o5, f));
                    assert(self.head().head().completes(*input, o5, rest)
                        && fails_unless_settled(self.head().p6, o5, f));
                }
                return Err(StreamingError::Failure(f));
            },
        };
        proof {
            assert(self.head().head().completes(*input, o5, rest) && self.head().p6.completes(
                o5,
                o6,
                left6,
            ));
        }
        let (o7, left7) = match self.p7.parse_stream(&o6) {
            Ok(StreamingOk::Complete(o, r)) => (o, r),
            Ok(StreamingOk::Partial(o, r)) => {
                let f = <P0::Failure as From<Incomplete>>::from(Incomplete);
                proof {
                    assert(self.p7.extends(o6, o, r));
                    assert(self.head().completes(*input, o6, rest) && fails_unless_settled(self.p7,
                        o6, f));
                }
                return Err(StreamingError::Failure(f));
            },
            Err(StreamingError::Error(e)) => {
                proof {
                    assert(self.head().completes(*input, o6, rest) && self.p7.rejects(o6, e));
                }
                return Err(StreamingError::Error(e));
            },
            Err(StreamingError::Incomplete(f)) => {
                proof {
                    assert(self.head().completes(*input, o6, rest) && self.p7.starves(o6, f));
                }
                return Err(StreamingError::Incomplete(f));
            },
            Err(StreamingError::Failure(f)) => {
                proof {
                    assert(self.p7.fails(o6, f));
                    assert(self.head().completes(*input, o6, rest) && fails_unless_settled(self.p7,
                        o6, f));
                }
                return Err(StreamingError::Failure(f));
            },
        };
        proof {
            assert(self.head().completes(*input, o6, rest) && self.p7.completes(
                o6,
                o7,
                left7,
            ));
        }
        Ok(StreamingOk::Complete(o7, rest))
    }
}

impl<
    I,
    P0: StreamingParser<I>,
    P1: StreamingParser<P0::Output, Error = P0::Error, Failure = P0::Failure>,
    P2: StreamingParser<P1::Output, Error = P0::Error, Failure = P0::Failure>,
    P3: StreamingParser<P2::Output, Error = P0::Error, Failure = P0::Failure>,
    P4: StreamingParser<P3::Output, Error = P0::Error, Failure = P0::Failure>,
    P5: StreamingParser<P4::Output, Error = P0::Error, Failure = P0::Failure>,
    P6: StreamingParser<P5::Output, Error = P0::Error, Failure = P0::Failure>,
    P7: StreamingParser<P6::Output, Error = P0::Error, Failure = P0::Failure>,
> StreamingCompose<I> for (P0, P1, P2, P3, P4, P5, P6, P7) where P0::Failure: From<Incomplete> {
    type Joined = StreamPipe8<P0, P1, P2, P3, P4, P5, P6, P7>;

    open spec fn joined(self) -> StreamPipe8<P0, P1, P2, P3, P4, P5, P6, P7> {
        StreamPipe8 { p0: self.0, p1: self.1, p2: self.2, p3: self.3, p4: self.4, p5: self.5,
            p6: self.6, p7: self.7 }
    }

    fn map(self) -> (r: StreamPipe8<P0, P1, P2, P3, P4, P5, P6, P7>) {
        StreamPipe8 { p0: self.0, p1: self.1, p2: self.2, p3: self.3, p4: self.4, p5: self.5,
            p6: self.6, p7: self.7 }
    }
}

} // verus!
