//! The first of several streaming parsers to succeed.
use crate::parse::streaming::{StreamingError, StreamingOk, StreamingParser, StreamingResult};
use crate::parse::NotFound;
use vstd::prelude::*;

verus! {

/// A tuple of streaming parsers with the same output and the same error types, to be tried in
/// order on the same input.
pub trait StreamingChoice<I>: Sized {
    /// The streaming parser that tries them in order.
    type Joined: StreamingParser<I>;

    /// The streaming parser that tries each of these parsers on the input, in order, and
    /// returns the first success, settled or not. A permanent failure and a need for more
    /// input end the search at once. Where every parser reports a recoverable error, the
    /// result is the recoverable error [`NotFound`].
    fn or(self) -> (r: Self::Joined)
        ensures
            r == self.joined(),
    ;

    /// The streaming parser that [`or`](StreamingChoice::or) returns.
    spec fn joined(self) -> Self::Joined;
}

/// Two streaming parsers tried in order on the same input.
pub struct StreamEither2<P0, P1> {
    pub p0: P0,
    pub p1: P1,
}

impl<
    I,
    P0: StreamingParser<I>,
    P1: StreamingParser<I, Output = P0::Output, Error = P0::Error, Failure = P0::Failure>,
> StreamingParser<I> for StreamEither2<P0, P1> {
    type Output = P0::Output;

    type Error = NotFound;

    type Failure = P0::Failure;

    open spec fn inv(&self) -> bool {
        self.p0.inv() && self.p1.inv()
    }

    open spec fn completes(&self, input: I, out: P0::Output, rest: I) -> bool {
        ||| self.p0.completes(input, out, rest)
        ||| (exists|e: P0::Error| self.p0.rejects(input, e)) && self.p1.completes(input, out, rest)
    }

    open spec fn extends(&self, input: I, out: P0::Output, rest: I) -> bool {
        ||| self.p0.extends(input, out, rest)
        ||| (exists|e: P0::Error| self.p0.rejects(input, e)) && self.p1.extends(input, out, rest)
    }

    open spec fn fails(&self, input: I, f: P0::Failure) -> bool {
        ||| self.p0.fails(input, f)
        ||| (exists|e: P0::Error| self.p0.rejects(input, e)) && self.p1.fails(input, f)
    }

    open spec fn starves(&self, input: I, f: P0::Failure) -> bool {
        ||| self.p0.starves(input, f)
        ||| (exists|e: P0::Error| self.p0.rejects(input, e)) && self.p1.starves(input, f)
    }

    open spec fn rejects(&self, input: I, e: NotFound) -> bool {
        &&& (exists|e: P0::Error| self.p0.rejects(input, e))
        &&& exists|last: P0::Error| self.p1.rejects(input, last)
    }

    fn parse_stream(&self, input: &I) -> (r: StreamingResult<I, P0::Output, NotFound,
        P0::Failure>) {
        match self.p0.parse_stream(input) {
            Ok(StreamingOk::Complete(out, rest)) => {
                return Ok(StreamingOk::Complete(out, rest));
            },
            Ok(StreamingOk::Partial(out, rest)) => {
                return Ok(StreamingOk::Partial(out, rest));
            },
            Err(StreamingError::Error(e)) => {
                proof {
                    assert(self.p0.rejects(*input, e));
                }
            },
            Err(StreamingError::Incomplete(f)) => {
                return Err(StreamingError::Incomplete(f));
            },
            Err(StreamingError::Failure(f)) => {
                return Err(StreamingError::Failure(f));
            },
        }
        match self.p1.parse_stream(input) {
            Ok(StreamingOk::Complete(out, rest)) => {
                proof {
                    assert(self.p1.completes(*input, out, rest));
                }
                Ok(StreamingOk::Complete(out, rest))
            },
            Ok(StreamingOk::Partial(out, rest)) => {
                proof {
                    assert(self.p1.extends(*input, out, rest));
                }
                Ok(StreamingOk::Partial(out, rest))
            },
            Err(StreamingError::Error(e)) => {
                proof {
                    assert(self.p1.rejects(*input, e));
                    assert(self.rejects(*input, NotFound));
                }
                Err(StreamingError::Error(NotFound))
            },
            Err(StreamingError::Incomplete(f)) => {
                proof {
                    assert(self.p1.starves(*input, f));
                }
                Err(StreamingError::Incomplete(f))
            },
            Err(StreamingError::Failure(f)) => {
                proof {
                    assert(self.p1.fails(*input, f));
                }
                Err(StreamingError::Failure(f))
            },
        }
    }
}

impl<
    I,
    P0: StreamingParser<I>,
    P1: StreamingParser<I, Output = P0::Output, Error = P0::Error, Failure = P0::Failure>,
> StreamingChoice<I> for (P0, P1) {
    type Joined = StreamEither2<P0, P1>;

    open spec fn joined(self) -> StreamEither2<P0, P1> {
        StreamEither2 { p0: self.0, p1: self.1 }
    }

    fn or(self) -> (r: StreamEither2<P0, P1>) {
        StreamEither2 { p0: self.0, p1: self.1 }
    }
}

/// Three streaming parsers tried in order on the same input.
pub struct StreamEither3<P0, P1, P2> {
    pub p0: P0,
    pub p1: P1,
    pub p2: P2,
}

impl<P0, P1, P2> StreamEither3<P0, P1, P2> {
    /// The choice between all but the last parser.
    pub open spec fn head(self) -> StreamEither2<P0, P1> {
        StreamEither2 { p0: self.p0, p1: self.p1 }
    }
}

impl<
    I,
    P0: StreamingParser<I>,
    P1: StreamingParser<I, Output = P0::Output, Error = P0::Error, Failure = P0::Failure>,
    P2: StreamingParser<I, Output = P0::Output, Error = P0::Error, Failure = P0::Failure>,
> StreamingParser<I> for StreamEither3<P0, P1, P2> {
    type Output = P0::Output;

    type Error = NotFound;

    type Failure = P0::Failure;

    open spec fn inv(&self) -> bool {
        self.p0.inv() && self.p1.inv() && self.p2.inv()
    }

    open spec fn completes(&self, input: I, out: P0::Output, rest: I) -> bool {
        ||| self.head().completes(input, out, rest)
        ||| self.head().rejects(input, NotFound) && self.p2.completes(input, out, rest)
    }

    open spec fn extends(&self, input: I, out: P0::Output, rest: I) -> bool {
        ||| self.head().extends(input, out, rest)
        ||| self.head().rejects(input, NotFound) && self.p2.extends(input, out, rest)
    }

    open spec fn fails(&self, input: I, f: P0::Failure) -> bool {
        ||| self.head().fails(input, f)
        ||| self.head().rejects(input, NotFound) && self.p2.fails(input, f)
    }

    open spec fn starves(&self, input: I, f: P0::Failure) -> bool {
        ||| self.head().starves(input, f)
        ||| self.head().rejects(input, NotFound) && self.p2.starves(input, f)
    }

    open spec fn rejects(&self, input: I, e: NotFound) -> bool {
        &&& self.head().rejects(input, NotFound)
        &&& exists|last: P0::Error| self.p2.rejects(input, last)
    }

    fn parse_stream(&self, input: &I) -> (r: StreamingResult<I, P0::Output, NotFound,
        P0::Failure>) {
        match self.p0.parse_stream(input) {
            Ok(StreamingOk::Complete(out, rest)) => {
                proof {
                    assert(self.head().p0.completes(*input, out, rest));
                    assert(self.head().completes(*input, out, rest));
                }
                return Ok(StreamingOk::Complete(out, rest));
            },
            Ok(StreamingOk::Partial(out, rest)) => {
                proof {
                    assert(self.head().p0.extends(*input, out, rest));
                    assert(self.head().extends(*input, out, rest));
                }
                return Ok(StreamingOk::Partial(out, rest));
            },
            Err(StreamingError::Error(e)) => {
                proof {
                    assert(self.head().p0.rejects(*input, e));
                }
            },
            Err(StreamingError::Incomplete(f)) => {
                proof {
                    assert(self.head().p0.starves(*input, f));
                    assert(self.head().starves(*input, f));
                }
                return Err(StreamingError::Incomplete(f));
            },
            Err(StreamingError::Failure(f)) => {
                proof {
                    assert(self.head().p0.fails(*input, f));
                    assert(self.head().fails(*input, f));
                }
                return Err(StreamingError::Failure(f));
            },
        }
        match self.p1.parse_stream(input) {
            Ok(StreamingOk::Complete(out, rest)) => {
                proof {
                    assert(self.head().p1.completes(*input, out, rest));
                    assert(self.head().completes(*input, out, rest));
                }
                return Ok(StreamingOk::Complete(out, rest));
            },
            Ok(StreamingOk::Partial(out, rest)) => {
                proof {
                    assert(self.head().p1.extends(*input, out, rest));
                    assert(self.head().extends(*input, out, rest));
                }
                return Ok(StreamingOk::Partial(out, rest));
            },
            Err(StreamingError::Error(e)) => {
                proof {
                    assert(self.head().p1.rejects(*input, e));
                    assert(self.head().rejects(*input, NotFound));
                }
            },
            Err(StreamingError::Incomplete(f)) => {
                proof {
                    assert(self.head().p1.starves(*input, f));
                    assert(self.head().starves(*input, f));
                }
                return Err(StreamingError::Incomplete(f));
            },
            Err(StreamingError::Failure(f)) => {
                proof {
                    assert(self.head().p1.fails(*input, f));
                    assert(self.head().fails(*input, f));
                }
                return Err(StreamingError::Failure(f));
            },
        }
        match self.p2.parse_stream(input) {
            Ok(StreamingOk::Complete(out, rest)) => {
                proof {
                    assert(self.p2.completes(*input, out, rest));
                }
                Ok(StreamingOk::Complete(out, rest))
            },
            Ok(StreamingOk::Partial(out, rest)) => {
                proof {
                    assert(self.p2.extends(*input, out, rest));
                }
                Ok(StreamingOk::Partial(out, rest))
            },
            Err(StreamingError::Error(e)) => {
                proof {
                    assert(self.p2.rejects(*input, e));
                    assert(self.rejects(*input, NotFound));
                }
                Err(StreamingError::Error(NotFound))
            },
            Err(StreamingError::Incomplete(f)) => {
                proof {
                    assert(self.p2.starves(*input, f));
                }
                Err(StreamingError::Incomplete(f))
            },
            Err(StreamingError::Failure(f)) => {
                proof {
                    assert(self.p2.fails(*input, f));
                }
                Err(StreamingError::Failure(f))
            },
        }
    }
}

impl<
    I,
    P0: StreamingParser<I>,
    P1: StreamingParser<I, Output = P0::Output, Error = P0::Error, Failure = P0::Failure>,
    P2: StreamingParser<I, Output = P0::Output, Error = P0::Error, Failure = P0::Failure>,
> StreamingChoice<I> for (P0, P1, P2) {
    type Joined = StreamEither3<P0, P1, P2>;

    open spec fn joined(self) -> StreamEither3<P0, P1, P2> {
        StreamEither3 { p0: self.0, p1: self.1, p2: self.2 }
    }

    fn or(self) -> (r: StreamEither3<P0, P1, P2>) {
        StreamEither3 { p0: self.0, p1: self.1, p2: self.2 }
    }
}

/// Four streaming parsers tried in order on the same input.
pub struct StreamEither4<P0, P1, P2, P3> {
    pub p0: P0,
    pub p1: P1,
    pub p2: P2,
    pub p3: P3,
}

impl<P0, P1, P2, P3> StreamEither4<P0, P1, P2, P3> {
    /// The choice between all but the last parser.
    pub open spec fn head(self) -> StreamEither3<P0, P1, P2> {
        StreamEither3 { p0: self.p0, p1: self.p1, p2: self.p2 }
    }
}

impl<
    I,
    P0: StreamingParser<I>,
    P1: StreamingParser<I, Output = P0::Output, Error = P0::Error, Failure = P0::Failure>,
    P2: StreamingParser<I, Output = P0::Output, Error = P0::Error, Failure = P0::Failure>,
    P3: StreamingParser<I, Output = P0::Output, Error = P0::Error, Failure = P0::Failure>,
> StreamingParser<I> for StreamEither4<P0, P1, P2, P3> {
    type Output = P0::Output;

    type Error = NotFound;

    type Failure = P0::Failure;

    open spec fn inv(&self) -> bool {
        self.p0.inv() && self.p1.inv() && self.p2.inv() && self.p3.inv()
    }

    open spec fn completes(&self, input: I, out: P0::Output, rest: I) -> bool {
        ||| self.head().completes(input, out, rest)
        ||| self.head().rejects(input, NotFound) && self.p3.completes(input, out, rest)
    }

    open spec fn extends(&self, input: I, out: P0::Output, rest: I) -> bool {
        ||| self.head().extends(input, out, rest)
        ||| self.head().rejects(input, NotFound) && self.p3.extends(input, out, rest)
    }

    open spec fn fails(&self, input: I, f: P0::Failure) -> bool {
        ||| self.head().fails(input, f)
        ||| self.head().rejects(input, NotFound) && self.p3.fails(input, f)
    }

    open spec fn starves(&self, input: I, f: P0::Failure) -> bool {
        ||| self.head().starves(input, f)
        ||| self.head().rejects(input, NotFound) && self.p3.starves(input, f)
    }

    open spec fn rejects(&self, input: I, e: NotFound) -> bool {
        &&& self.head().rejects(input, NotFound)
        &&& exists|last: P0::Error| self.p3.rejects(input, last)
    }

    fn parse_stream(&self, input: &I) -> (r: StreamingResult<I, P0::Output, NotFound,
        P0::Failure>) {
        match self.p0.parse_stream(input) {
            Ok(StreamingOk::Complete(out, rest)) => {
                proof {
                    assert(self.head().head().p0.completes(*input, out, rest));
                    assert(self.head().head().completes(*input, out, rest));
                    assert(self.head().completes(*input, out, rest));
                }
                return Ok(StreamingOk::Complete(out, rest));
            },
            Ok(StreamingOk::Partial(out, rest)) => {
                proof {
                    assert(self.head().head().p0.extends(*input, out, rest));
                    assert(self.head().head().extends(*input, out, rest));
                    assert(self.head().extends(*input, out, rest));
                }
                return Ok(StreamingOk::Partial(out, rest));
            },
            Err(StreamingError::Error(e)) => {
                proof {
                    assert(self.head().head().p0.rejects(*input, e));
                }
            },
            Err(StreamingError::Incomplete(f)) => {
                proof {
                    assert(self.head().head().p0.starves(*input, f));
                    assert(self.head().head().starves(*input, f));
                    assert(self.head().starves(*input, f));
                }
                return Err(StreamingError::Incomplete(f));
            },
            Err(StreamingError::Failure(f)) => {
                proof {
                    assert(self.head().head().p0.fails(*input, f));
                    assert(self.head().head().fails(*input, f));
                    assert(self.head().fails(*input, f));
                }
                return Err(StreamingError::Failure(f));
            },
        }
        match self.p1.parse_stream(input) {
            Ok(StreamingOk::Complete(out, rest)) => {
                proof {
                    assert(self.head().head().p1.completes(*input, out, rest));
                    assert(self.head().head().completes(*input, out, rest));
                    assert(self.head().completes(*input, out, rest));
                }
                return Ok(StreamingOk::Complete(out, rest));
            },
            Ok(StreamingOk::Partial(out, rest)) => {
                proof {
                    assert(self.head().head().p1.extends(*input, out, rest));
                    assert(self.head().head().extends(*input, out, rest));
                    assert(self.head().extends(*input, out, rest));
                }
                return Ok(StreamingOk::Partial(out, rest));
            },
            Err(StreamingError::Error(e)) => {
                proof {
                    assert(self.head().head().p1.rejects(*input, e));
                    assert(self.head().head().rejects(*input, NotFound));
                }
            },
            Err(StreamingError::Incomplete(f)) => {
                proof {
                    assert(self.head().head().p1.starves(*input, f));
                    assert(self.head().head().starves(*input, f));
                    assert(self.head().starves(*input, f));
                }
                return Err(StreamingError::Incomplete(f));
            },
            Err(StreamingError::Failure(f)) => {
                proof {
                    assert(self.head().head().p1.fails(*input, f));
                    assert(self.head().head().fails(*input, f));
                    assert(self.head().fails(*input, f));
                }
                return Err(StreamingError::Failure(f));
            },
        }
        match self.p2.parse_stream(input) {
            Ok(StreamingOk::Complete(out, rest)) => {
                proof {
                    assert(self.head().p2.completes(*input, out, rest));
                    assert(self.head().completes(*input, out, rest));
                }
                return Ok(StreamingOk::Complete(out, rest));
            },
            Ok(StreamingOk::Partial(out, rest)) => {
                proof {
                    assert(self.head().p2.extends(*input, out, rest));
                    assert(self.head().extends(*input, out, rest));
                }
                return Ok(StreamingOk::Partial(out, rest));
            },
            Err(StreamingError::Error(e)) => {
                proof {
                    assert(self.head().p2.rejects(*input, e));
                    assert(self.head().rejects(*input, NotFound));
                }
            },
            Err(StreamingError::Incomplete(f)) => {
                proof {
                    assert(self.head().p2.starves(*input, f));
                    assert(self.head().starves(*input, f));
                }
                return Err(StreamingError::Incomplete(f));
            },
            Err(StreamingError::Failure(f)) => {
                proof {
                    assert(self.head().p2.fails(*input, f));
                    assert(self.head().fails(*input, f));
                }
                return Err(StreamingError::Failure(f));
            },
        }
        match self.p3.parse_stream(input) {
            Ok(StreamingOk::Complete(out, rest)) => {
                proof {
                    assert(self.p3.completes(*input, out, rest));
                }
                Ok(StreamingOk::Complete(out, rest))
            },
            Ok(StreamingOk::Partial(out, rest)) => {
                proof {
                    assert(self.p3.extends(*input, out, rest));
                }
                Ok(StreamingOk::Partial(out, rest))
            },
            Err(StreamingError::Error(e)) => {
                proof {
                    assert(self.p3.rejects(*input, e));
                    assert(self.rejects(*input, NotFound));
                }
                Err(StreamingError::Error(NotFound))
            },
            Err(StreamingError::Incomplete(f)) => {
                proof {
                    assert(self.p3.starves(*input, f));
                }
                Err(StreamingError::Incomplete(f))
            },
            Err(StreamingError::Failure(f)) => {
                proof {
                    assert(self.p3.fails(*input, f));
                }
                Err(StreamingError::Failure(f))
            },
        }
    }
}

impl<
    I,
    P0: StreamingParser<I>,
    P1: StreamingParser<I, Output = P0::Output, Error = P0::Error, Failure = P0::Failure>,
    P2: StreamingParser<I, Output = P0::Output, Error = P0::Error, Failure = P0::Failure>,
    P3: StreamingParser<I, Output = P0::Output, Error = P0::Error, Failure = P0::Failure>,
> StreamingChoice<I> for (P0, P1, P2, P3) {
    type Joined = StreamEither4<P0, P1, P2, P3>;

    open spec fn joined(self) -> StreamEither4<P0, P1, P2, P3> {
        StreamEither4 { p0: self.0, p1: self.1, p2: self.2, p3: self.3 }
    }

    fn or(self) -> (r: StreamEither4<P0, P1, P2, P3>) {
        StreamEither4 { p0: self.0, p1: self.1, p2: self.2, p3: self.3 }
    }
}

/// Five streaming parsers tried in order on the same input.
pub struct StreamEither5<P0, P1, P2, P3, P4> {
    pub p0: P0,
    pub p1: P1,
    pub p2: P2,
    pub p3: P3,
    pub p4: P4,
}

impl<P0, P1, P2, P3, P4> StreamEither5<P0, P1, P2, P3, P4> {
    /// The choice between all but the last parser.
    pub open spec fn head(self) -> StreamEither4<P0, P1, P2, P3> {
        StreamEither4 { p0: self.p0, p1: self.p1, p2: self.p2, p3: self.p3 }
    }
}

impl<
    I,
    P0: StreamingParser<I>,
    P1: StreamingParser<I, Output = P0::Output, Error = P0::Error, Failure = P0::Failure>,
    P2: StreamingParser<I, Output = P0::Output, Error = P0::Error, Failure = P0::Failure>,
    P3: StreamingParser<I, Output = P0::Output, Error = P0::Error, Failure = P0::Failure>,
    P4: StreamingParser<I, Output = P0::Output, Error = P0::Error, Failure = P0::Failure>,
> StreamingParser<I> for StreamEither5<P0, P1, P2, P3, P4> {
    type Output = P0::Output;

    type Error = NotFound;

    type Failure = P0::Failure;

    open spec fn inv(&self) -> bool {
        self.p0.inv() && self.p1.inv() && self.p2.inv() && self.p3.inv() && self.p4.inv()
    }

    open spec fn completes(&self, input: I, out: P0::Output, rest: I) -> bool {
        ||| self.head().completes(input, out, rest)
        ||| self.head().rejects(input, NotFound) && self.p4.completes(input, out, rest)
    }

    open spec fn extends(&self, input: I, out: P0::Output, rest: I) -> bool {
        ||| self.head().extends(input, out, rest)
        ||| self.head().rejects(input, NotFound) && self.p4.extends(input, out, rest)
    }

    open spec fn fails(&self, input: I, f: P0::Failure) -> bool {
        ||| self.head().fails(input, f)
        ||| self.head().rejects(input, NotFound) && self.p4.fails(input, f)
    }

    open spec fn starves(&self, input: I, f: P0::Failure) -> bool {
        ||| self.head().starves(input, f)
        ||| self.head().rejects(input, NotFound) && self.p4.starves(input, f)
    }

    open spec fn rejects(&self, input: I, e: NotFound) -> bool {
        &&& self.head().rejects(input, NotFound)
        &&& exists|last: P0::Error| self.p4.rejects(input, last)
    }

    fn parse_stream(&self, input: &I) -> (r: StreamingResult<I, P0::Output, NotFound,
        P0::Failure>) {
        match self.p0.parse_stream(input) {
            Ok(StreamingOk::Complete(out, rest)) => {
                proof {
                    assert(self.head().head().head().p0.completes(*input, out, rest));
                    assert(self.head().head().head().completes(*input, out, rest));
                    assert(self.head().head().completes(*input, out, rest));
                    assert(self.head().completes(*input, out, rest));
                }
                return Ok(StreamingOk::Complete(out, rest));
            },
            Ok(StreamingOk::Partial(out, rest)) => {
                proof {
                    assert(self.head().head().head().p0.extends(*input, out, rest));
                    assert(self.head().head().head().extends(*input, out, rest));
                    assert(self.head().head().extends(*input, out, rest));
                    assert(self.head().extends(*input, out, rest));
                }
                return Ok(StreamingOk::Partial(out, rest));
            },
            Err(StreamingError::Error(e)) => {
                proof {
                    assert(self.head().head().head().p0.rejects(*input, e));
                }
            },
            Err(StreamingError::Incomplete(f)) => {
                proof {
                    assert(self.head().head().head().p0.starves(*input, f));
                    assert(self.head().head().head().starves(*input, f));
                    assert(self.head().head().starves(*input, f));
                    assert(self.head().starves(*input, f));
                }
                return Err(StreamingError::Incomplete(f));
            },
            Err(StreamingError::Failure(f)) => {
                proof {
                    assert(self.head().head().head().p0.fails(*input, f));
                    assert(self.head().head().head().fails(*input, f));
                    assert(self.head().head().fails(*input, f));
                    assert(self.head().fails(*input, f));
                }
                return Err(StreamingError::Failure(f));
            },
        }
        match self.p1.parse_stream(input) {
            Ok(StreamingOk::Complete(out, rest)) => {
                proof {
                    assert(self.head().head().head().p1.completes(*input, out, rest));
                    assert(self.head().head().head().completes(*input, out, rest));
                    assert(self.head().head().completes(*input, out, rest));
                    assert(self.head().completes(*input, out, rest));
                }
                return Ok(StreamingOk::Complete(out, rest));
            },
            Ok(StreamingOk::Partial(out, rest)) => {
                proof {
                    assert(self.head().head().head().p1.extends(*input, out, rest));
                    assert(self.head().head().head().extends(*input, out, rest));
                    assert(self.head().head().extends(*input, out, rest));
                    assert(self.head().extends(*input, out, rest));
                }
                return Ok(StreamingOk::Partial(out, rest));
            },
            Err(StreamingError::Error(e)) => {
                proof {
                    assert(self.head().head().head().p1.rejects(*input, e));
                    assert(self.head().head().head().rejects(*input, NotFound));
                }
            },
            Err(StreamingError::Incomplete(f)) => {
                proof {
                    assert(self.head().head().head().p1.starves(*input, f));
                    assert(self.head().head().head().starves(*input, f));
                    assert(self.head().head().starves(*input, f));
                    assert(self.head().starves(*input, f));
                }
                return Err(StreamingError::Incomplete(f));
            },
            Err(StreamingError::Failure(f)) => {
                proof {
                    assert(self.head().head().head().p1.fails(*input, f));
                    assert(self.head().head().head().fails(*input, f));
                    assert(self.head().head().fails(*input, f));
                    assert(self.head().fails(*input, f));
                }
                return Err(StreamingError::Failure(f));
            },
        }
        match self.p2.parse_stream(input) {
            Ok(StreamingOk::Complete(out, rest)) => {
                proof {
                    assert(self.head().head().p2.completes(*input, out, rest));
                    assert(self.head().head().completes(*input, out, rest));
                    assert(self.head().completes(*input, out, rest));
                }
                return Ok(StreamingOk::Complete(out, rest));
            },
            Ok(StreamingOk::Partial(out, rest)) => {
                proof {
                    assert(self.head().head().p2.extends(*input, out, rest));
                    assert(self.head().head().extends(*input, out, rest));
                    assert(self.head().extends(*input, out, rest));
                }
                return Ok(StreamingOk::Partial(out, rest));
            },
            Err(StreamingError::Error(e)) => {
                proof {
                    assert(self.head().head().p2.rejects(*input, e));
                    assert(self.head().head().rejects(*input, NotFound));
                }
            },
            Err(StreamingError::Incomplete(f)) => {
                proof {
                    assert(self.head().head().p2.starves(*input, f));
                    assert(self.head().head().starves(*input, f));
                    assert(self.head().starves(*input, f));
                }
                return Err(StreamingError::Incomplete(f));
            },
            Err(StreamingError::Failure(f)) => {
                proof {
                    assert(self.head().head().p2.fails(*input, f));
                    assert(self.head().head().fails(*input, f));
                    assert(self.head().fails(*input, f));
                }
                return Err(StreamingError::Failure(f));
            },
        }
        match self.p3.parse_stream(input) {
            Ok(StreamingOk::Complete(out, rest)) => {
                proof {
                    assert(self.head().p3.completes(*input, out, rest));
                    assert(self.head().completes(*input, out, rest));
                }
                return Ok(StreamingOk::Complete(out, rest));
            },
            Ok(StreamingOk::Partial(out, rest)) => {
                proof {
                    assert(self.head().p3.extends(*input, out, rest));
                    assert(self.head().extends(*input, out, rest));
                }
                return Ok(StreamingOk::Partial(out, rest));
            },
            Err(StreamingError::Error(e)) => {
                proof {
                    assert(self.head().p3.rejects(*input, e));
                    assert(self.head().rejects(*input, NotFound));
                }
            },
            Err(StreamingError::Incomplete(f)) => {
                proof {
                    assert(self.head().p3.starves(*input, f));
                    assert(self.head().starves(*input, f));
                }
                return Err(StreamingError::Incomplete(f));
            },
            Err(StreamingError::Failure(f)) => {
                proof {
                    assert(self.head().p3.fails(*input, f));
                    assert(self.head().fails(*input, f));
                }
                return Err(StreamingError::Failure(f));
            },
        }
        match self.p4.parse_stream(input) {
            Ok(StreamingOk::Complete(out, rest)) => {
                proof {
                    assert(self.p4.completes(*input, out, rest));
                }
                Ok(StreamingOk::Complete(out, rest))
            },
            Ok(StreamingOk::Partial(out, rest)) => {
                proof {
                    assert(self.p4.extends(*input, out, rest));
                }
                Ok(StreamingOk::Partial(out, rest))
            },
            Err(StreamingError::Error(e)) => {
                proof {
                    assert(self.p4.rejects(*input, e));
                    assert(self.rejects(*input, NotFound));
                }
                Err(StreamingError::Error(NotFound))
            },
            Err(StreamingError::Incomplete(f)) => {
                proof {
                    assert(self.p4.starves(*input, f));
                }
                Err(StreamingError::Incomplete(f))
            },
            Err(StreamingError::Failure(f)) => {
                proof {
                    assert(self.p4.fails(*input, f));
                }
                Err(StreamingError::Failure(f))
            },
        }
    }
}

impl<
    I,
    P0: StreamingParser<I>,
    P1: StreamingParser<I, Output = P0::Output, Error = P0::Error, Failure = P0::Failure>,
    P2: StreamingParser<I, Output = P0::Output, Error = P0::Error, Failure = P0::Failure>,
    P3: StreamingParser<I, Output = P0::Output, Error = P0::Error, Failure = P0::Failure>,
    P4: StreamingParser<I, Output = P0::Output, Error = P0::Error, Failure = P0::Failure>,
> StreamingChoice<I> for (P0, P1, P2, P3, P4) {
    type Joined = StreamEither5<P0, P1, P2, P3, P4>;

    open spec fn joined(self) -> StreamEither5<P0, P1, P2, P3, P4> {
        StreamEither5 { p0: self.0, p1: self.1, p2: self.2, p3: self.3, p4: self.4 }
    }

    fn or(self) -> (r: StreamEither5<P0, P1, P2, P3, P4>) {
        StreamEither5 { p0: self.0, p1: self.1, p2: self.2, p3: self.3, p4: self.4 }
    }
}

/// Six streaming parsers tried in order on the same input.
pub struct StreamEither6<P0, P1, P2, P3, P4, P5> {
    pub p0: P0,
    pub p1: P1,
    pub p2: P2,
    pub p3: P3,
    pub p4: P4,
    pub p5: P5,
}

impl<P0, P1, P2, P3, P4, P5> StreamEither6<P0, P1, P2, P3, P4, P5> {
    /// The choice between all but the last parser.
    pub open spec fn head(self) -> StreamEither5<P0, P1, P2, P3, P4> {
        StreamEither5 { p0: self.p0, p1: self.p1, p2: self.p2, p3: self.p3, p4: self.p4 }
    }
}

impl<
    I,
    P0: StreamingParser<I>,
    P1: StreamingParser<I, Output = P0::Output, Error = P0::Error, Failure = P0::Failure>,
    P2: StreamingParser<I, Output = P0::Output, Error = P0::Error, Failure = P0::Failure>,
    P3: StreamingParser<I, Output = P0::Output, Error = P0::Error, Failure = P0::Failure>,
    P4: StreamingParser<I, Output = P0::Output, Error = P0::Error, Failure = P0::Failure>,
    P5: StreamingParser<I, Output = P0::Output, Error = P0::Error, Failure = P0::Failure>,
> StreamingParser<I> for StreamEither6<P0, P1, P2, P3, P4, P5> {
    type Output = P0::Output;

    type Error = NotFound;

    type Failure = P0::Failure;

    open spec fn inv(&self) -> bool {
        self.p0.inv() && self.p1.inv() && self.p2.inv() && self.p3.inv() && self.p4.inv()
            && self.p5.inv()
    }

    open spec fn completes(&self, input: I, out: P0::Output, rest: I) -> bool {
        ||| self.head().completes(input, out, rest)
        ||| self.head().rejects(input, NotFound) && self.p5.completes(input, out, rest)
    }

    open spec fn extends(&self, input: I, out: P0::Output, rest: I) -> bool {
        ||| self.head().extends(input, out, rest)
        ||| self.head().rejects(input, NotFound) && self.p5.extends(input, out, rest)
    }

    open spec fn fails(&self, input: I, f: P0::Failure) -> bool {
        ||| self.head().fails(input, f)
        ||| self.head().rejects(input, NotFound) && self.p5.fails(input, f)
    }

    open spec fn starves(&self, input: I, f: P0::Failure) -> bool {
        ||| self.head().starves(input, f)
        ||| self.head().rejects(input, NotFound) && self.p5.starves(input, f)
    }

    open spec fn rejects(&self, input: I, e: NotFound) -> bool {
        &&& self.head().rejects(input, NotFound)
        &&& exists|last: P0::Error| self.p5.rejects(input, last)
    }

    fn parse_stream(&self, input: &I) -> (r: StreamingResult<I, P0::Output, NotFound,
        P0::Failure>) {
        match self.p0.parse_stream(input) {
            Ok(StreamingOk::Complete(out, rest)) => {
                proof {
                    assert(self.head().head().head().head().p0.completes(*input, out, rest));
                    assert(self.head().head().head().head().completes(*input, out, rest));
                    assert(self.head().head().head().completes(*input, out, rest));
                    assert(self.head().head().completes(*input, out, rest));
                    assert(self.head().completes(*input, out, rest));
                }
                return Ok(StreamingOk::Complete(out, rest));
            },
            Ok(StreamingOk::Partial(out, rest)) => {
                proof {
                    assert(self.head().head().head().head().p0.extends(*input, out, rest));
                    assert(self.head().head().head().head().extends(*input, out, rest));
                    assert(self.head().head().head().extends(*input, out, rest));
                    assert(self.head().head().extends(*input, out, rest));
                    assert(self.head().extends(*input, out, rest));
                }
                return Ok(StreamingOk::Partial(out, rest));
            },
            Err(StreamingError::Error(e)) => {
                proof {
                    assert(self.head().head().head().head().p0.rejects(*input, e));
                }
            },
            Err(StreamingError::Incomplete(f)) => {
                proof {
                    assert(self.head().head().head().head().p0.starves(*input, f));
                    assert(self.head().head().head().head().starves(*input, f));
                    assert(self.head().head().head().starves(*input, f));
                    assert(self.head().head().starves(*input, f));
                    assert(self.head().starves(*input, f));
                }
                return Err(StreamingError::Incomplete(f));
            },
            Err(StreamingError::Failure(f)) => {
                proof {
                    assert(self.head().head().head().head().p0.fails(*input, f));
                    assert(self.head().head().head().head().fails(*input, f));
                    assert(self.head().head().head().fails(*input, f));
                    assert(self.head().head().fails(*input, f));
                    assert(self.head().fails(*input, f));
                }
                return Err(StreamingError::Failure(f));
            },
        }
        match self.p1.parse_stream(input) {
            Ok(StreamingOk::Complete(out, rest)) => {
                proof {
                    assert(self.head().head().head().head().p1.completes(*input, out, rest));
                    assert(self.head().head().head().head().completes(*input, out, rest));
                    assert(self.head().head().head().completes(*input, out, rest));
                    assert(self.head().head().completes(*input, out, rest));
                    assert(self.head().completes(*input, out, rest));
                }
                return Ok(StreamingOk::Complete(out, rest));
            },
            Ok(StreamingOk::Partial(out, rest)) => {
                proof {
                    assert(self.head().head().head().head().p1.extends(*input, out, rest));
                    assert(self.head().head().head().head().extends(*input, out, rest));
                    assert(self.head().head().head().extends(*input, out, rest));
                    assert(self.head().head().extends(*input, out, rest));
                    assert(self.head().extends(*input, out, rest));
                }
                return Ok(StreamingOk::Partial(out, rest));
            },
            Err(StreamingError::Error(e)) => {
                proof {
                    assert(self.head().head().head().head().p1.rejects(*input, e));
                    assert(self.head().head().head().head().rejects(*input, NotFound));
                }
            },
            Err(StreamingError::Incomplete(f)) => {
                proof {
                    assert(self.head().head().head().head().p1.starves(*input, f));
                    assert(self.head().head().head().head().starves(*input, f));
                    assert(self.head().head().head().starves(*input, f));
                    assert(self.head().head().starves(*input, f));
                    assert(self.head().starves(*input, f));
                }
                return Err(StreamingError::Incomplete(f));
            },
            Err(StreamingError::Failure(f)) => {
                proof {
                    assert(self.head().head().head().head().p1.fails(*input, f));
                    assert(self.head().head().head().head().fails(*input, f));
                    assert(self.head().head().head().fails(*input, f));
                    assert(self.head().head().fails(*input, f));
                    assert(self.head().fails(*input, f));
                }
                return Err(StreamingError::Failure(f));
            },
        }
        match self.p2.parse_stream(input) {
            Ok(StreamingOk::Complete(out, rest)) => {
                proof {
                    assert(self.head().head().head().p2.completes(*input, out, rest));
                    assert(self.head().head().head().completes(*input, out, rest));
                    assert(self.head().head().completes(*input, out, rest));
                    assert(self.head().completes(*input, out, rest));
                }
                return Ok(StreamingOk::Complete(out, rest));
            },
            Ok(StreamingOk::Partial(out, rest)) => {
                proof {
                    assert(self.head().head().head().p2.extends(*input, out, rest));
                    assert(self.head().head().head().extends(*input, out, rest));
                    assert(self.head().head().extends(*input, out, rest));
                    assert(self.head().extends(*input, out, rest));
                }
                return Ok(StreamingOk::Partial(out, rest));
            },
            Err(StreamingError::Error(e)) => {
                proof {
                    assert(self.head().head().head().p2.rejects(*input, e));
                    assert(self.head().head().head().rejects(*input, NotFound));
                }
            },
            Err(StreamingError::Incomplete(f)) => {
                proof {
                    assert(self.head().head().head().p2.starves(*input, f));
                    assert(self.head().head().head().starves(*input, f));
                    assert(self.head().head().starves(*input, f));
                    assert(self.head().starves(*input, f));
                }
                return Err(StreamingError::Incomplete(f));
            },
            Err(StreamingError::Failure(f)) => {
                proof {
                    assert(self.head().head().head().p2.fails(*input, f));
                    assert(self.head().head().head().fails(*input, f));
                    assert(self.head().head().fails(*input, f));
                    assert(self.head().fails(*input, f));
                }
                return Err(StreamingError::Failure(f));
            },
        }
        match self.p3.parse_stream(input) {
            Ok(StreamingOk::Complete(out, rest)) => {
                proof {
                    assert(self.head().head().p3.completes(*input, out, rest));
                    assert(self.head().head().completes(*input, out, rest));
                    assert(self.head().completes(*input, out, rest));
                }
                return Ok(StreamingOk::Complete(out, rest));
            },
            Ok(StreamingOk::Partial(out, rest)) => {
                proof {
                    assert(self.head().head().p3.extends(*input, out, rest));
                    assert(self.head().head().extends(*input, out, rest));
                    assert(self.head().extends(*input, out, rest));
                }
                return Ok(StreamingOk::Partial(out, rest));
            },
            Err(StreamingError::Error(e)) => {
                proof {
                    assert(self.head().head().p3.rejects(*input, e));
                    assert(self.head().head().rejects(*input, NotFound));
                }
            },
            Err(StreamingError::Incomplete(f)) => {
                proof {
                    assert(self.head().head().p3.starves(*input, f));
                    assert(self.head().head().starves(*input, f));
                    assert(self.head().starves(*input, f));
                }
                return Err(StreamingError::Incomplete(f));
            },
            Err(StreamingError::Failure(f)) => {
                proof {
                    assert(self.head().head().p3.fails(*input, f));
                    assert(self.head().head().fails(*input, f));
                    assert(self.head().fails(*input, f));
                }
                return Err(StreamingError::Failure(f));
            },
        }
        match self.p4.parse_stream(input) {
            Ok(StreamingOk::Complete(out, rest)) => {
                proof {
                    assert(self.head().p4.completes(*input, out, rest));
                    assert(self.head().completes(*input, out, rest));
                }
                return Ok(StreamingOk::Complete(out, rest));
            },
            Ok(StreamingOk::Partial(out, rest)) => {
                proof {
                    assert(self.head().p4.extends(*input, out, rest));
                    assert(self.head().extends(*input, out, rest));
                }
                return Ok(StreamingOk::Partial(out, rest));
            },
            Err(StreamingError::Error(e)) => {
                proof {
                    assert(self.head().p4.rejects(*input, e));
                    assert(self.head().rejects(*input, NotFound));
                }
            },
            Err(StreamingError::Incomplete(f)) => {
                proof {
                    assert(self.head().p4.starves(*input, f));
                    assert(self.head().starves(*input, f));
                }
                return Err(StreamingError::Incomplete(f));
            },
            Err(StreamingError::Failure(f)) => {
                proof {
                    assert(self.head().p4.fails(*input, f));
                    assert(self.head().fails(*input, f));
                }
                return Err(StreamingError::Failure(f));
            },
        }
        match self.p5.parse_stream(input) {
            Ok(StreamingOk::Complete(out, rest)) => {
                proof {
                    assert(self.p5.completes(*input, out, rest));
                }
                Ok(StreamingOk::Complete(out, rest))
            },
            Ok(StreamingOk::Partial(out, rest)) => {
                proof {
                    assert(self.p5.extends(*input, out, rest));
                }
                Ok(StreamingOk::Partial(out, rest))
            },
            Err(StreamingError::Error(e)) => {
                proof {
                    assert(self.p5.rejects(*input, e));
                    assert(self.rejects(*input, NotFound));
                }
                Err(StreamingError::Error(NotFound))
            },
            Err(StreamingError::Incomplete(f)) => {
                proof {
                    assert(self.p5.starves(*input, f));
                }
                Err(StreamingError::Incomplete(f))
            },
            Err(StreamingError::Failure(f)) => {
                proof {
                    assert(self.p5.fails(*input, f));
                }
                Err(StreamingError::Failure(f))
            },
        }
    }
}

impl<
    I,
    P0: StreamingParser<I>,
    P1: StreamingParser<I, Output = P0::Output, Error = P0::Error, Failure = P0::Failure>,
    P2: StreamingParser<I, Output = P0::Output, Error = P0::Error, Failure = P0::Failure>,
    P3: StreamingParser<I, Output = P0::Output, Error = P0::Error, Failure = P0::Failure>,
    P4: StreamingParser<I, Output = P0::Output, Error = P0::Error, Failure = P0::Failure>,
    P5: StreamingParser<I, Output = P0::Output, Error = P0::Error, Failure = P0::Failure>,
> StreamingChoice<I> for (P0, P1, P2, P3, P4, P5) {
    type Joined = StreamEither6<P0, P1, P2, P3, P4, P5>;

    open spec fn joined(self) -> StreamEither6<P0, P1, P2, P3, P4, P5> {
        StreamEither6 { p0: self.0, p1: self.1, p2: self.2, p3: self.3, p4: self.4, p5: self.5 }
    }

    fn or(self) -> (r: StreamEither6<P0, P1, P2, P3, P4, P5>) {
        StreamEither6 { p0: self.0, p1: self.1, p2: self.2, p3: self.3, p4: self.4, p5: self.5 }
    }
}

/// Seven streaming parsers tried in order on the same input.
pub struct StreamEither7<P0, P1, P2, P3, P4, P5, P6> {
    pub p0: P0,
    pub p1: P1,
    pub p2: P2,
    pub p3: P3,
    pub p4: P4,
    pub p5: P5,
    pub p6: P6,
}

impl<P0, P1, P2, P3, P4, P5, P6> StreamEither7<P0, P1, P2, P3, P4, P5, P6> {
    /// The choice between all but the last parser.
    pub open spec fn head(self) -> StreamEither6<P0, P1, P2, P3, P4, P5> {
        StreamEither6 { p0: self.p0, p1: self.p1, p2: self.p2, p3: self.p3, p4: self.p4,
            p5: self.p5 }
    }
}

impl<
    I,
    P0: StreamingParser<I>,
    P1: StreamingParser<I, Output = P0::Output, Error = P0::Error, Failure = P0::Failure>,
    P2: StreamingParser<I, Output = P0::Output, Error = P0::Error, Failure = P0::Failure>,
    P3: StreamingParser<I, Output = P0::Output, Error = P0::Error, Failure = P0::Failure>,
    P4: StreamingParser<I, Output = P0::Output, Error = P0::Error, Failure = P0::Failure>,
    P5: StreamingParser<I, Output = P0::Output, Error = P0::Error, Failure = P0::Failure>,
    P6: StreamingParser<I, Output = P0::Output, Error = P0::Error, Failure = P0::Failure>,
> StreamingParser<I> for StreamEither7<P0, P1, P2, P3, P4, P5, P6> {
    type Output = P0::Output;

    type Error = NotFound;

    type Failure = P0::Failure;

    open spec fn inv(&self) -> bool {
        self.p0.inv() && self.p1.inv() && self.p2.inv() && self.p3.inv() && self.p4.inv()
            && self.p5.inv() && self.p6.inv()
    }

    open spec fn completes(&self, input: I, out: P0::Output, rest: I) -> bool {
        ||| self.head().completes(input, out, rest)
        ||| self.head().rejects(input, NotFound) && self.p6.completes(input, out, rest)
    }

    open spec fn extends(&self, input: I, out: P0::Output, rest: I) -> bool {
        ||| self.head().extends(input, out, rest)
        ||| self.head().rejects(input, NotFound) && self.p6.extends(input, out, rest)
    }

    open spec fn fails(&self, input: I, f: P0::Failure) -> bool {
        ||| self.head().fails(input, f)
        ||| self.head().rejects(input, NotFound) && self.p6.fails(input, f)
    }

    open spec fn starves(&self, input: I, f: P0::Failure) -> bool {
        ||| self.head().starves(input, f)
        ||| self.head().rejects(input, NotFound) && self.p6.starves(input, f)
    }

    open spec fn rejects(&self, input: I, e: NotFound) -> bool {
        &&& self.head().rejects(input, NotFound)
        &&& exists|last: P0::Error| self.p6.rejects(input, last)
    }

    fn parse_stream(&self, input: &I) -> (r: StreamingResult<I, P0::Output, NotFound,
        P0::Failure>) {
        match self.p0.parse_stream(input) {
            Ok(StreamingOk::Complete(out, rest)) => {
                proof {
                    assert(self.head().head().head().head().head().p0.completes(*input, out, rest));
                    assert(self.head().head().head().head().head().completes(*input, out, rest));
                    assert(self.head().head().head().head().completes(*input, out, rest));
                    assert(self.head().head().head().completes(*input, out, rest));
                    assert(self.head().head().completes(*input, out, rest));
                    assert(self.head().completes(*input, out, rest));
                }
                return Ok(StreamingOk::Complete(out, rest));
            },
            Ok(StreamingOk::Partial(out, rest)) => {
                proof {
                    assert(self.head().head().head().head().head().p0.extends(*input, out, rest));
                    assert(self.head().head().head().head().head().extends(*input, out, rest));
                    assert(self.head().head().head().head().extends(*input, out, rest));
                    assert(self.head().head().head().extends(*input, out, rest));
                    assert(self.head().head().extends(*input, out, rest));
                    assert(self.head().extends(*input, out, rest));
                }
                return Ok(StreamingOk::Partial(out, rest));
            },
            Err(StreamingError::Error(e)) => {
                proof {
                    assert(self.head().head().head().head().head().p0.rejects(*input, e));
                }
            },
            Err(StreamingError::Incomplete(f)) => {
                proof {
                    assert(self.head().head().head().head().head().p0.starves(*input, f));
                    assert(self.head().head().head().head().head().starves(*input, f));
                    assert(self.head().head().head().head().starves(*input, f));
                    assert(self.head().head().head().starves(*input, f));
                    assert(self.head().head().starves(*input, f));
                    assert(self.head().starves(*input, f));
                }
                return Err(StreamingError::Incomplete(f));
            },
            Err(StreamingError::Failure(f)) => {
                proof {
                    assert(self.head().head().head().head().head().p0.fails(*input, f));
                    assert(self.head().head().head().head().head().fails(*input, f));
                    assert(self.head().head().head().head().fails(*input, f));
                    assert(self.head().head().head().fails(*input, f));
                    assert(self.head().head().fails(*input, f));
                    assert(self.head().fails(*input, f));
                }
                return Err(StreamingError::Failure(f));
            },
        }
        match self.p1.parse_stream(input) {
            Ok(StreamingOk::Complete(out, rest)) => {
                proof {
                    assert(self.head().head().head().head().head().p1.completes(*input, out, rest));
                    assert(self.head().head().head().head().head().completes(*input, out, rest));
                    assert(self.head().head().head().head().completes(*input, out, rest));
                    assert(self.head().head().head().completes(*input, out, rest));
                    assert(self.head().head().completes(*input, out, rest));
                    assert(self.head().completes(*input, out, rest));
                }
                return Ok(StreamingOk::Complete(out, rest));
            },
            Ok(StreamingOk::Partial(out, rest)) => {
                proof {
                    assert(self.head().head().head().head().head().p1.extends(*input, out, rest));
                    assert(self.head().head().head().head().head().extends(*input, out, rest));
                    assert(self.head().head().head().head().extends(*input, out, rest));
                    assert(self.head().head().head().extends(*input, out, rest));
                    assert(self.head().head().extends(*input, out, rest));
                    assert(self.head().extends(*input, out, rest));
                }
                return Ok(StreamingOk::Partial(out, rest));
            },
            Err(StreamingError::Error(e)) => {
                proof {
                    assert(self.head().head().head().head().head().p1.rejects(*input, e));
                    assert(self.head().head().head().head().head().rejects(*input, NotFound));
                }
            },
            Err(StreamingError::Incomplete(f)) => {
                proof {
                    assert(self.head().head().head().head().head().p1.starves(*input, f));
                    assert(self.head().head().head().head().head().starves(*input, f));
                    assert(self.head().head().head().head().starves(*input, f));
                    assert(self.head().head().head().starves(*input, f));
                    assert(self.head().head().starves(*input, f));
                    assert(self.head().starves(*input, f));
                }
                return Err(StreamingError::Incomplete(f));
            },
            Err(StreamingError::Failure(f)) => {
                proof {
                    assert(self.head().head().head().head().head().p1.fails(*input, f));
                    assert(self.head().head().head().head().head().fails(*input, f));
                    assert(self.head().head().head().head().fails(*input, f));
                    assert(self.head().head().head().fails(*input, f));
                    assert(self.head().head().fails(*input, f));
                    assert(self.head().fails(*input, f));
                }
                return Err(StreamingError::Failure(f));
            },
        }
        match self.p2.parse_stream(input) {
            Ok(StreamingOk::Complete(out, rest)) => {
                proof {
                    assert(self.head().head().head().head().p2.completes(*input, out, rest));
                    assert(self.head().head().head().head().completes(*input, out, rest));
                    assert(self.head().head().head().completes(*input, out, rest));
                    assert(self.head().head().completes(*input, out, rest));
                    assert(self.head().completes(*input, out, rest));
                }
                return Ok(StreamingOk::Complete(out, rest));
            },
            Ok(StreamingOk::Partial(out, rest)) => {
                proof {
                    assert(self.head().head().head().head().p2.extends(*input, out, rest));
                    assert(self.head().head().head().head().extends(*input, out, rest));
                    assert(self.head().head().head().extends(*input, out, rest));
                    assert(self.head().head().extends(*input, out, rest));
                    assert(self.head().extends(*input, out, rest));
                }
                return Ok(StreamingOk::Partial(out, rest));
            },
            Err(StreamingError::Error(e)) => {
                proof {
                    assert(self.head().head().head().head().p2.rejects(*input, e));
                    assert(self.head().head().head().head().rejects(*input, NotFound));
                }
            },
            Err(StreamingError::Incomplete(f)) => {
                proof {
                    assert(self.head().head().head().head().p2.starves(*input, f));
                    assert(self.head().head().head().head().starves(*input, f));
                    assert(self.head().head().head().starves(*input, f));
                    assert(self.head().head().starves(*input, f));
                    assert(self.head().starves(*input, f));
                }
                return Err(StreamingError::Incomplete(f));
            },
            Err(StreamingError::Failure(f)) => {
                proof {
                    assert(self.head().head().head().head().p2.fails(*input, f));
                    assert(self.head().head().head().head().fails(*input, f));
                    assert(self.head().head().head().fails(*input, f));
                    assert(self.head().head().fails(*input, f));
                    assert(self.head().fails(*input, f));
                }
                return Err(StreamingError::Failure(f));
            },
        }
        match self.p3.parse_stream(input) {
            Ok(StreamingOk::Complete(out, rest)) => {
                proof {
                    assert(self.head().head().head().p3.completes(*input, out, rest));
                    assert(self.head().head().head().completes(*input, out, rest));
                    assert(self.head().head().completes(*input, out, rest));
                    assert(self.head().completes(*input, out, rest));
                }
                return Ok(StreamingOk::Complete(out, rest));
            },
            Ok(StreamingOk::Partial(out, rest)) => {
                proof {
                    assert(self.head().head().head().p3.extends(*input, out, rest));
                    assert(self.head().head().head().extends(*input, out, rest));
                    assert(self.head().head().extends(*input, out, rest));
                    assert(self.head().extends(*input, out, rest));
                }
                return Ok(StreamingOk::Partial(out, rest));
            },
            Err(StreamingError::Error(e)) => {
                proof {
                    assert(self.head().head().head().p3.rejects(*input, e));
                    assert(self.head().head().head().rejects(*input, NotFound));
                }
            },
            Err(StreamingError::Incomplete(f)) => {
                proof {
                    assert(self.head().head().head().p3.starves(*input, f));
                    assert(self.head().head().head().starves(*input, f));
                    assert(self.head().head().starves(*input, f));
                    assert(self.head().starves(*input, f));
                }
                return Err(StreamingError::Incomplete(f));
            },
            Err(StreamingError::Failure(f)) => {
                proof {
                    assert(self.head().head().head().p3.fails(*input, f));
                    assert(self.head().head().head().fails(*input, f));
                    assert(self.head().head().fails(*input, f));
                    assert(self.head().fails(*input, f));
                }
                return Err(StreamingError::Failure(f));
            },
        }
        match self.p4.parse_stream(input) {
            Ok(StreamingOk::Complete(out, rest)) => {
                proof {
                    assert(self.head().head().p4.completes(*input, out, rest));
                    assert(self.head().head().completes(*input, out, rest));
                    assert(self.head().completes(*input, out, rest));
                }
                return Ok(StreamingOk::Complete(out, rest));
            },
            Ok(StreamingOk::Partial(out, rest)) => {
                proof {
                    assert(self.head().head().p4.extends(*input, out, rest));
                    assert(self.head().head().extends(*input, out, rest));
                    assert(self.head().extends(*input, out, rest));
                }
                return Ok(StreamingOk::Partial(out, rest));
            },
            Err(StreamingError::Error(e)) => {
                proof {
                    assert(self.head().head().p4.rejects(*input, e));
                    assert(self.head().head().rejects(*input, NotFound));
                }
            },
            Err(StreamingError::Incomplete(f)) => {
                proof {
                    assert(self.head().head().p4.starves(*input, f));
                    assert(self.head().head().starves(*input, f));
                    assert(self.head().starves(*input, f));
                }
                return Err(StreamingError::Incomplete(f));
            },
            Err(StreamingError::Failure(f)) => {
                proof {
                    assert(self.head().head().p4.fails(*input, f));
                    assert(self.head().head().fails(*input, f));
                    assert(self.head().fails(*input, f));
                }
                return Err(StreamingError::Failure(f));
            },
        }
        match self.p5.parse_stream(input) {
            Ok(StreamingOk::Complete(out, rest)) => {
                proof {
                    assert(self.head().p5.completes(*input, out, rest));
                    assert(self.head().completes(*input, out, rest));
                }
                return Ok(StreamingOk::Complete(out, rest));
            },
            Ok(StreamingOk::Partial(out, rest)) => {
                proof {
                    assert(self.head().p5.extends(*input, out, rest));
                    assert(self.head().extends(*input, out, rest));
                }
                return Ok(StreamingOk::Partial(out, rest));
            },
            Err(StreamingError::Error(e)) => {
                proof {
                    assert(self.head().p5.rejects(*input, e));
                    assert(self.head().rejects(*input, NotFound));
                }
            },
            Err(StreamingError::Incomplete(f)) => {
                proof {
                    assert(self.head().p5.starves(*input, f));
                    assert(self.head().starves(*input, f));
                }
                return Err(StreamingError::Incomplete(f));
            },
            Err(StreamingError::Failure(f)) => {
                proof {
                    assert(self.head().p5.fails(*input, f));
                    assert(self.head().fails(*input, f));
                }
                return Err(StreamingError::Failure(f));
            },
        }
        match self.p6.parse_stream(input) {
            Ok(StreamingOk::Complete(out, rest)) => {
                proof {
                    assert(self.p6.completes(*input, out, rest));
                }
                Ok(StreamingOk::Complete(out, rest))
            },
            Ok(StreamingOk::Partial(out, rest)) => {
                proof {
                    assert(self.p6.extends(*input, out, rest));
                }
                Ok(StreamingOk::Partial(out, rest))
            },
            Err(StreamingError::Error(e)) => {
                proof {
                    assert(self.p6.rejects(*input, e));
                    assert(self.rejects(*input, NotFound));
                }
                Err(StreamingError::Error(NotFound))
            },
            Err(StreamingError::Incomplete(f)) => {
                proof {
                    assert(self.p6.starves(*input, f));
                }
                Err(StreamingError::Incomplete(f))
            },
            Err(StreamingError::Failure(f)) => {
                proof {
                    assert(self.p6.fails(*input, f));
                }
                Err(StreamingError::Failure(f))
            },
        }
    }
}

impl<
    I,
    P0: StreamingParser<I>,
    P1: StreamingParser<I, Output = P0::Output, Error = P0::Error, Failure = P0::Failure>,
    P2: StreamingParser<I, Output = P0::Output, Error = P0::Error, Failure = P0::Failure>,
    P3: StreamingParser<I, Output = P0::Output, Error = P0::Error, Failure = P0::Failure>,
    P4: StreamingParser<I, Output = P0::Output, Error = P0::Error, Failure = P0::Failure>,
    P5: StreamingParser<I, Output = P0::Output, Error = P0::Error, Failure = P0::Failure>,
    P6: StreamingParser<I, Output = P0::Output, Error = P0::Error, Failure = P0::Failure>,
> StreamingChoice<I> for (P0, P1, P2, P3, P4, P5, P6) {
    type Joined = StreamEither7<P0, P1, P2, P3, P4, P5, P6>;

    open spec fn joined(self) -> StreamEither7<P0, P1, P2, P3, P4, P5, P6> {
        StreamEither7 { p0: self.0, p1: self.1, p2: self.2, p3: self.3, p4: self.4, p5: self.5,
            p6: self.6 }
    }

    fn or(self) -> (r: StreamEither7<P0, P1, P2, P3, P4, P5, P6>) {
        StreamEither7 { p0: self.0, p1: self.1, p2: self.2, p3: self.3, p4: self.4, p5: self.5,
            p6: self.6 }
    }
}

/// Eight streaming parsers tried in order on the same input.
pub struct StreamEither8<P0, P1, P2, P3, P4, P5, P6, P7> {
    pub p0: P0,
    pub p1: P1,
    pub p2: P2,
    pub p3: P3,
    pub p4: P4,
    pub p5: P5,
    pub p6: P6,
    pub p7: P7,
}

impl<P0, P1, P2, P3, P4, P5, P6, P7> StreamEither8<P0, P1, P2, P3, P4, P5, P6, P7> {
    /// The choice between all but the last parser.
    pub open spec fn head(self) -> StreamEither7<P0, P1, P2, P3, P4, P5, P6> {
        StreamEither7 { p0: self.p0, p1: self.p1, p2: self.p2, p3: self.p3, p4: self.p4,
            p5: self.p5, p6: self.p6 }
    }
}

impl<
    I,
    P0: StreamingParser<I>,
    P1: StreamingParser<I, Output = P0::Output, Error = P0::Error, Failure = P0::Failure>,
    P2: StreamingParser<I, Output = P0::Output, Error = P0::Error, Failure = P0::Failure>,
    P3: StreamingParser<I, Output = P0::Output, Error = P0::Error, Failure = P0::Failure>,
    P4: StreamingParser<I, Output = P0::Output, Error = P0::Error, Failure = P0::Failure>,
    P5: StreamingParser<I, Output = P0::Output, Error = P0::Error, Failure = P0::Failure>,
    P6: StreamingParser<I, Output = P0::Output, Error = P0::Error, Failure = P0::Failure>,
    P7: StreamingParser<I, Output = P0::Output, Error = P0::Error, Failure = P0::Failure>,
> StreamingParser<I> for StreamEither8<P0, P1, P2, P3, P4, P5, P6, P7> {
    type Output = P0::Output;

    type Error = NotFound;

    type Failure = P0::Failure;

    open spec fn inv(&self) -> bool {
        self.p0.inv() && self.p1.inv() && self.p2.inv() && self.p3.inv() && self.p4.inv()
            && self.p5.inv() && self.p6.inv() && self.p7.inv()
    }

    open spec fn completes(&self, input: I, out: P0::Output, rest: I) -> bool {
        ||| self.head().completes(input, out, rest)
        ||| self.head().rejects(input, NotFound) && self.p7.completes(input, out, rest)
    }

    open spec fn extends(&self, input: I, out: P0::Output, rest: I) -> bool {
        ||| self.head().extends(input, out, rest)
        ||| self.head().rejects(input, NotFound) && self.p7.extends(input, out, rest)
    }

    open spec fn fails(&self, input: I, f: P0::Failure) -> bool {
        ||| self.head().fails(input, f)
        ||| self.head().rejects(input, NotFound) && self.p7.fails(input, f)
    }

    open spec fn starves(&self, input: I, f: P0::Failure) -> bool {
        ||| self.head().starves(input, f)
        ||| self.head().rejects(input, NotFound) && self.p7.starves(input, f)
    }

    open spec fn rejects(&self, input: I, e: NotFound) -> bool {
        &&& self.head().rejects(input, NotFound)
        &&& exists|last: P0::Error| self.p7.rejects(input, last)
    }

    fn parse_stream(&self, input: &I) -> (r: StreamingResult<I, P0::Output, NotFound,
        P0::Failure>) {
        match self.p0.parse_stream(input) {
            Ok(StreamingOk::Complete(out, rest)) => {
                proof {
                    assert(self.head().head().head().head().head().head().p0.completes(*input, out,
                        rest));
                    assert(self.head().head().head().head().head().head().completes(*input, out,
                        rest));
                    assert(self.head().head().head().head().head().completes(*input, out, rest));
                    assert(self.head().head().head().head().completes(*input, out, rest));
                    assert(self.head().head().head().completes(*input, out, rest));
                    assert(self.head().head().completes(*input, out, rest));
                    assert(self.head().completes(*input, out, rest));
                }
                return Ok(StreamingOk::Complete(out, rest));
            },
            Ok(StreamingOk::Partial(out, rest)) => {
                proof {
                    assert(self.head().head().head().head().head().head().p0.extends(*input, out,
                        rest));
                    assert(self.head().head().head().head().head().head().extends(*input, out,
                        rest));
                    assert(self.head().head().head().head().head().extends(*input, out, rest));
                    assert(self.head().head().head().head().extends(*input, out, rest));
                    assert(self.head().head().head().extends(*input, out, rest));
                    assert(self.head().head().extends(*input, out, rest));
                    assert(self.head().extends(*input, out, rest));
                }
                return Ok(StreamingOk::Partial(out, rest));
            },
            Err(StreamingError::Error(e)) => {
                proof {
                    assert(self.head().head().head().head().head().head().p0.rejects(*input, e));
                }
            },
            Err(StreamingError::Incomplete(f)) => {
                proof {
                    assert(self.head().head().head().head().head().head().p0.starves(*input, f));
                    assert(self.head().head().head().head().head().head().starves(*input, f));
                    assert(self.head().head().head().head().head().starves(*input, f));
                    assert(self.head().head().head().head().starves(*input, f));
                    assert(self.head().head().head().starves(*input, f));
                    assert(self.head().head().starves(*input, f));
                    assert(self.head().starves(*input, f));
                }
                return Err(StreamingError::Incomplete(f));
            },
            Err(StreamingError::Failure(f)) => {
                proof {
                    assert(self.head().head().head().head().head().head().p0.fails(*input, f));
                    assert(self.head().head().head().head().head().head().fails(*input, f));
                    assert(self.head().head().head().head().head().fails(*input, f));
                    assert(self.head().head().head().head().fails(*input, f));
                    assert(self.head().head().head().fails(*input, f));
                    assert(self.head().head().fails(*input, f));
                    assert(self.head().fails(*input, f));
                }
                return Err(StreamingError::Failure(f));
            },
        }
        match self.p1.parse_stream(input) {
            Ok(StreamingOk::Complete(out, rest)) => {
                proof {
                    assert(self.head().head().head().head().head().head().p1.completes(*input, out,
                        rest));
                    assert(self.head().head().head().head().head().head().completes(*input, out,
                        rest));
                    assert(self.head().head().head().head().head().completes(*input, out, rest));
                    assert(self.head().head().head().head().completes(*input, out, rest));
                    assert(self.head().head().head().completes(*input, out, rest));
                    assert(self.head().head().completes(*input, out, rest));
                    assert(self.head().completes(*input, out, rest));
                }
                return Ok(StreamingOk::Complete(out, rest));
            },
            Ok(StreamingOk::Partial(out, rest)) => {
                proof {
                    assert(self.head().head().head().head().head().head().p1.extends(*input, out,
                        rest));
                    assert(self.head().head().head().head().head().head().extends(*input, out,
                        rest));
                    assert(self.head().head().head().head().head().extends(*input, out, rest));
                    assert(self.head().head().head().head().extends(*input, out, rest));
                    assert(self.head().head().head().extends(*input, out, rest));
                    assert(self.head().head().extends(*input, out, rest));
                    assert(self.head().extends(*input, out, rest));
                }
                return Ok(StreamingOk::Partial(out, rest));
            },
            Err(StreamingError::Error(e)) => {
                proof {
                    assert(self.head().head().head().head().head().head().p1.rejects(*input, e));
                    assert(self.head().head().head().head().head().head().rejects(*input,
                        NotFound));
                }
            },
            Err(StreamingError::Incomplete(f)) => {
                proof {
                    assert(self.head().head().head().head().head().head().p1.starves(*input, f));
                    assert(self.head().head().head().head().head().head().starves(*input, f));
                    assert(self.head().head().head().head().head().starves(*input, f));
                    assert(self.head().head().head().head().starves(*input, f));
                    assert(self.head().head().head().starves(*input, f));
                    assert(self.head().head().starves(*input, f));
                    assert(self.head().starves(*input, f));
                }
                return Err(StreamingError::Incomplete(f));
            },
            Err(StreamingError::Failure(f)) => {
                proof {
                    assert(self.head().head().head().head().head().head().p1.fails(*input, f));
                    assert(self.head().head().head().head().head().head().fails(*input, f));
                    assert(self.head().head().head().head().head().fails(*input, f));
                    assert(self.head().head().head().head().fails(*input, f));
                    assert(self.head().head().head().fails(*input, f));
                    assert(self.head().head().fails(*input, f));
                    assert(self.head().fails(*input, f));
                }
                return Err(StreamingError::Failure(f));
            },
        }
        match self.p2.parse_stream(input) {
            Ok(StreamingOk::Complete(out, rest)) => {
                proof {
                    assert(self.head().head().head().head().head().p2.completes(*input, out, rest));
                    assert(self.head().head().head().head().head().completes(*input, out, rest));
                    assert(self.head().head().head().head().completes(*input, out, rest));
                    assert(self.head().head().head().completes(*input, out, rest));
                    assert(self.head().head().completes(*input, out, rest));
                    assert(self.head().completes(*input, out, rest));
                }
                return Ok(StreamingOk::Complete(out, rest));
            },
            Ok(StreamingOk::Partial(out, rest)) => {
                proof {
                    assert(self.head().head().head().head().head().p2.extends(*input, out, rest));
                    assert(self.head().head().head().head().head().extends(*input, out, rest));
                    assert(self.head().head().head().head().extends(*input, out, rest));
                    assert(self.head().head().head().extends(*input, out, rest));
                    assert(self.head().head().extends(*input, out, rest));
                    assert(self.head().extends(*input, out, rest));
                }
                return Ok(StreamingOk::Partial(out, rest));
            },
            Err(StreamingError::Error(e)) => {
                proof {
                    assert(self.head().head().head().head().head().p2.rejects(*input, e));
                    assert(self.head().head().head().head().head().rejects(*input, NotFound));
                }
            },
            Err(StreamingError::Incomplete(f)) => {
                proof {
                    assert(self.head().head().head().head().head().p2.starves(*input, f));
                    assert(self.head().head().head().head().head().starves(*input, f));
                    assert(self.head().head().head().head().starves(*input, f));
                    assert(self.head().head().head().starves(*input, f));
                    assert(self.head().head().starves(*input, f));
                    assert(self.head().starves(*input, f));
                }
                return Err(StreamingError::Incomplete(f));
            },
            Err(StreamingError::Failure(f)) => {
                proof {
                    assert(self.head().head().head().head().head().p2.fails(*input, f));
                    assert(self.head().head().head().head().head().fails(*input, f));
                    assert(self.head().head().head().head().fails(*input, f));
                    assert(self.head().head().head().fails(*input, f));
                    assert(self.head().head().fails(*input, f));
                    assert(self.head().fails(*input, f));
                }
                return Err(StreamingError::Failure(f));
            },
        }
        match self.p3.parse_stream(input) {
            Ok(StreamingOk::Complete(out, rest)) => {
                proof {
                    assert(self.head().head().head().head().p3.completes(*input, out, rest));
                    assert(self.head().head().head().head().completes(*input, out, rest));
                    assert(self.head().head().head().completes(*input, out, rest));
                    assert(self.head().head().completes(*input, out, rest));
                    assert(self.head().completes(*input, out, rest));
                }
                return Ok(StreamingOk::Complete(out, rest));
            },
            Ok(StreamingOk::Partial(out, rest)) => {
                proof {
                    assert(self.head().head().head().head().p3.extends(*input, out, rest));
                    assert(self.head().head().head().head().extends(*input, out, rest));
                    assert(self.head().head().head().extends(*input, out, rest));
                    assert(self.head().head().extends(*input, out, rest));
                    assert(self.head().extends(*input, out, rest));
                }
                return Ok(StreamingOk::Partial(out, rest));
            },
            Err(StreamingError::Error(e)) => {
                proof {
                    assert(self.head().head().head().head().p3.rejects(*input, e));
                    assert(self.head().head().head().head().rejects(*input, NotFound));
                }
            },
            Err(StreamingError::Incomplete(f)) => {
                proof {
                    assert(self.head().head().head().head().p3.starves(*input, f));
                    assert(self.head().head().head().head().starves(*input, f));
                    assert(self.head().head().head().starves(*input, f));
                    assert(self.head().head().starves(*input, f));
                    assert(self.head().starves(*input, f));
                }
                return Err(StreamingError::Incomplete(f));
            },
            Err(StreamingError::Failure(f)) => {
                proof {
                    assert(self.head().head().head().head().p3.fails(*input, f));
                    assert(self.head().head().head().head().fails(*input, f));
                    assert(self.head().head().head().fails(*input, f));
                    assert(self.head().head().fails(*input, f));
                    assert(self.head().fails(*input, f));
                }
                return Err(StreamingError::Failure(f));
            },
        }
        match self.p4.parse_stream(input) {
            Ok(StreamingOk::Complete(out, rest)) => {
                proof {
                    assert(self.head().head().head().p4.completes(*input, out, rest));
                    assert(self.head().head().head().completes(*input, out, rest));
                    assert(self.head().head().completes(*input, out, rest));
                    assert(self.head().completes(*input, out, rest));
                }
                return Ok(StreamingOk::Complete(out, rest));
            },
            Ok(StreamingOk::Partial(out, rest)) => {
                proof {
                    assert(self.head().head().head().p4.extends(*input, out, rest));
                    assert(self.head().head().head().extends(*input, out, rest));
                    assert(self.head().head().extends(*input, out, rest));
                    assert(self.head().extends(*input, out, rest));
                }
                return Ok(StreamingOk::Partial(out, rest));
            },
            Err(StreamingError::Error(e)) => {
                proof {
                    assert(self.head().head().head().p4.rejects(*input, e));
                    assert(self.head().head().head().rejects(*input, NotFound));
                }
            },
            Err(StreamingError::Incomplete(f)) => {
                proof {
                    assert(self.head().head().head().p4.starves(*input, f));
                    assert(self.head().head().head().starves(*input, f));
                    assert(self.head().head().starves(*input, f));
                    assert(self.head().starves(*input, f));
                }
                return Err(StreamingError::Incomplete(f));
            },
            Err(StreamingError::Failure(f)) => {
                proof {
                    assert(self.head().head().head().p4.fails(*input, f));
                    assert(self.head().head().head().fails(*input, f));
                    assert(self.head().head().fails(*input, f));
                    assert(self.head().fails(*input, f));
                }
                return Err(StreamingError::Failure(f));
            },
        }
        match self.p5.parse_stream(input) {
            Ok(StreamingOk::Complete(out, rest)) => {
                proof {
                    assert(self.head().head().p5.completes(*input, out, rest));
                    assert(self.head().head().completes(*input, out, rest));
                    assert(self.head().completes(*input, out, rest));
                }
                return Ok(StreamingOk::Complete(out, rest));
            },
            Ok(StreamingOk::Partial(out, rest)) => {
                proof {
                    assert(self.head().head().p5.extends(*input, out, rest));
                    assert(self.head().head().extends(*input, out, rest));
                    assert(self.head().extends(*input, out, rest));
                }
                return Ok(StreamingOk::Partial(out, rest));
            },
            Err(StreamingError::Error(e)) => {
                proof {
                    assert(self.head().head().p5.rejects(*input, e));
                    assert(self.head().head().rejects(*input, NotFound));
                }
            },
            Err(StreamingError::Incomplete(f)) => {
                proof {
                    assert(self.head().head().p5.starves(*input, f));
                    assert(self.head().head().starves(*input, f));
                    assert(self.head().starves(*input, f));
                }
                return Err(StreamingError::Incomplete(f));
            },
            Err(StreamingError::Failure(f)) => {
                proof {
                    assert(self.head().head().p5.fails(*input, f));
                    assert(self.head().head().fails(*input, f));
                    assert(self.head().fails(*input, f));
                }
                return Err(StreamingError::Failure(f));
            },
        }
        match self.p6.parse_stream(input) {
            Ok(StreamingOk::Complete(out, rest)) => {
                proof {
                    assert(self.head().p6.completes(*input, out, rest));
                    assert(self.head().completes(*input, out, rest));
                }
                return Ok(StreamingOk::Complete(out, rest));
            },
            Ok(StreamingOk::Partial(out, rest)) => {
                proof {
                    assert(self.head().p6.extends(*input, out, rest));
                    assert(self.head().extends(*input, out, rest));
                }
                return Ok(StreamingOk::Partial(out, rest));
            },
            Err(StreamingError::Error(e)) => {
                proof {
                    assert(self.head().p6.rejects(*input, e));
                    assert(self.head().rejects(*input, NotFound));
                }
            },
            Err(StreamingError::Incomplete(f)) => {
                proof {
                    assert(self.head().p6.starves(*input, f));
                    assert(self.head().starves(*input, f));
                }
                return Err(StreamingError::Incomplete(f));
            },
            Err(StreamingError::Failure(f)) => {
                proof {
                    assert(self.head().p6.fails(*input, f));
                    assert(self.head().fails(*input, f));
                }
                return Err(StreamingError::Failure(f));
            },
        }
        match self.p7.parse_stream(input) {
            Ok(StreamingOk::Complete(out, rest)) => {
                proof {
                    assert(self.p7.completes(*input, out, rest));
                }
                Ok(StreamingOk::Complete(out, rest))
            },
            Ok(StreamingOk::Partial(out, rest)) => {
                proof {
                    assert(self.p7.extends(*input, out, rest));
                }
                Ok(StreamingOk::Partial(out, rest))
            },
            Err(StreamingError::Error(e)) => {
                proof {
                    assert(self.p7.rejects(*input, e));
                    assert(self.rejects(*input, NotFound));
                }
                Err(StreamingError::Error(NotFound))
            },
            Err(StreamingError::Incomplete(f)) => {
                proof {
                    assert(self.p7.starves(*input, f));
                }
                Err(StreamingError::Incomplete(f))
            },
            Err(StreamingError::Failure(f)) => {
                proof {
                    assert(self.p7.fails(*input, f));
                }
                Err(StreamingError::Failure(f))
            },
        }
    }
}

impl<
    I,
    P0: StreamingParser<I>,
    P1: StreamingParser<I, Output = P0::Output, Error = P0::Error, Failure = P0::Failure>,
    P2: StreamingParser<I, Output = P0::Output, Error = P0::Error, Failure = P0::Failure>,
    P3: StreamingParser<I, Output = P0::Output, Error = P0::Error, Failure = P0::Failure>,
    P4: StreamingParser<I, Output = P0::Output, Error = P0::Error, Failure = P0::Failure>,
    P5: StreamingParser<I, Output = P0::Output, Error = P0::Error, Failure = P0::Failure>,
    P6: StreamingParser<I, Output = P0::Output, Error = P0::Error, Failure = P0::Failure>,
    P7: StreamingParser<I, Output = P0::Output, Error = P0::Error, Failure = P0::Failure>,
> StreamingChoice<I> for (P0, P1, P2, P3, P4, P5, P6, P7) {
    type Joined = StreamEither8<P0, P1, P2, P3, P4, P5, P6, P7>;

    open spec fn joined(self) -> StreamEither8<P0, P1, P2, P3, P4, P5, P6, P7> {
        StreamEither8 { p0: self.0, p1: self.1, p2: self.2, p3: self.3, p4: self.4, p5: self.5,
            p6: self.6, p7: self.7 }
    }

    fn or(self) -> (r: StreamEither8<P0, P1, P2, P3, P4, P5, P6, P7>) {
        StreamEither8 { p0: self.0, p1: self.1, p2: self.2, p3: self.3, p4: self.4, p5: self.5,
            p6: self.6, p7: self.7 }
    }
}

} // verus!
