//! Parsers over input that may still grow.
//!
//! A streaming parser is handed a prefix of the input that will eventually arrive. Besides the
//! outcomes of a [`Parser`] it tells a match that is settled (complete) from one that more
//! input could extend (partial), and it may report that it cannot decide yet (incomplete).
use crate::parse::streaming_choice::StreamEither2;
use crate::parse::streaming_compose::StreamPipe2;
use crate::parse::streaming_sequence::StreamChain2;
use crate::parse::{Incomplete, Never, NotFound, Over, Parser, ParserError};
use std::marker::PhantomData;
use vstd::pervasive::cloned;
use vstd::prelude::*;
use vstd::std_specs::convert::FromSpecImpl;

verus! {

/// A success of a streaming parser: the output and the remaining input.
#[derive(Debug, PartialEq, Eq, PartialOrd, Ord)]
pub enum StreamingOk<Input, Output> {
    /// The match is settled: no further input can change it.
    Complete(Output, Input),
    /// The match reaches the end of what is there: more input could extend it.
    Partial(Output, Input),
}

impl<I, O> StreamingOk<I, O> {
    /// True when more input could extend the match.
    pub fn is_partial(&self) -> (b: bool)
        ensures
            b == (*self is Partial),
    {
        match self {
            StreamingOk::Partial(_, _) => true,
            _ => false,
        }
    }

    /// The output and the remaining input.
    pub fn peek(&self) -> (r: (&O, &I))
        ensures
            *r.0 == self.output(),
            *r.1 == self.remaining(),
    {
        match self {
            StreamingOk::Complete(o, r) => (o, r),
            StreamingOk::Partial(o, r) => (o, r),
        }
    }

    /// The output of the match.
    pub open spec fn output(&self) -> O {
        match *self {
            StreamingOk::Complete(o, _) => o,
            StreamingOk::Partial(o, _) => o,
        }
    }

    /// The input that the match left.
    pub open spec fn remaining(&self) -> I {
        match *self {
            StreamingOk::Complete(_, r) => r,
            StreamingOk::Partial(_, r) => r,
        }
    }
}

/// Why a streaming parser did not succeed.
#[derive(Debug, PartialEq, Eq, PartialOrd, Ord)]
pub enum StreamingError<Error, Failure> {
    /// There is not enough input yet to decide.
    Incomplete(Failure),
    /// Nothing matched and no input was consumed.
    Error(Error),
    /// The input is malformed; no other parser should be tried on it.
    Failure(Failure),
}

/// What a streaming parser returns.
pub type StreamingResult<Input, Output, Error = NotFound, Failure = Never> = Result<
    StreamingOk<Input, Output>,
    StreamingError<Error, Failure>,
>;

impl<E, F> From<ParserError<E, F>> for StreamingError<E, F> {
    fn from(value: ParserError<E, F>) -> (r: Self) {
        match value {
            ParserError::Error(e) => StreamingError::Error(e),
            ParserError::Failure(e) => StreamingError::Failure(e),
        }
    }
}

impl<E, F> FromSpecImpl<ParserError<E, F>> for StreamingError<E, F> {
    open spec fn obeys_from_spec() -> bool {
        true
    }

    open spec fn from_spec(value: ParserError<E, F>) -> Self {
        match value {
            ParserError::Error(e) => StreamingError::Error(e),
            ParserError::Failure(e) => StreamingError::Failure(e),
        }
    }
}

/// The error of a conversion that met [`StreamingError::Incomplete`], which a parser over whole
/// input cannot report.
#[derive(Clone, Copy, Debug, PartialEq, Eq, PartialOrd, Ord, Hash, Default)]
pub struct ErrorWasIncomplete;

impl ErrorWasIncomplete {
    /// What this error says.
    pub fn message(&self) -> (r: &'static str)
        ensures
            r@ == "Cannot convert Incomplete to a non-streaming error."@,
    {
        "Cannot convert Incomplete to a non-streaming error."
    }
}

/// The error that a parser over whole input reports for a streaming error, where there is one:
/// an error that says that there is not enough input has none.
pub fn try_from_streaming<E, F>(value: StreamingError<E, F>) -> (r: Result<
    ParserError<E, F>,
    ErrorWasIncomplete,
>)
    ensures
        r == match value {
            StreamingError::Incomplete(_) => Err::<ParserError<E, F>, ErrorWasIncomplete>(
                ErrorWasIncomplete,
            ),
            StreamingError::Error(e) => Ok(ParserError::Error(e)),
            StreamingError::Failure(f) => Ok(ParserError::Failure(f)),
        },
{
    match value {
        StreamingError::Incomplete(_) => Err(ErrorWasIncomplete),
        StreamingError::Error(e) => Ok(ParserError::Error(e)),
        StreamingError::Failure(f) => Ok(ParserError::Failure(f)),
    }
}

/// A parser over input that may still grow.
///
/// What it does is stated by five relations, one for each outcome.
pub trait StreamingParser<I>: Sized {
    type Output;

    type Error;

    type Failure;

    /// True when this parser can be run.
    spec fn inv(&self) -> bool;

    /// True when this parser may succeed on `input` with a settled match.
    spec fn completes(&self, input: I, out: Self::Output, rest: I) -> bool;

    /// True when this parser may succeed on `input` with a match that more input could extend.
    spec fn extends(&self, input: I, out: Self::Output, rest: I) -> bool;

    /// True when this parser may report the recoverable error `e` on `input`.
    spec fn rejects(&self, input: I, e: Self::Error) -> bool;

    /// True when this parser may report the permanent failure `f` on `input`.
    spec fn fails(&self, input: I, f: Self::Failure) -> bool;

    /// True when this parser may report on `input` that it needs more of it, with `f`.
    spec fn starves(&self, input: I, f: Self::Failure) -> bool;

    /// Runs the parser on `input`, the part of the input that is there.
    fn parse_stream(&self, input: &I) -> (r: StreamingResult<
        I,
        Self::Output,
        Self::Error,
        Self::Failure,
    >)
        requires
            self.inv(),
        ensures
            match r {
                Ok(StreamingOk::Complete(out, rest)) => self.completes(*input, out, rest),
                Ok(StreamingOk::Partial(out, rest)) => self.extends(*input, out, rest),
                Err(StreamingError::Error(e)) => self.rejects(*input, e),
                Err(StreamingError::Failure(f)) => self.fails(*input, f),
                Err(StreamingError::Incomplete(f)) => self.starves(*input, f),
            },
    ;

    /// This parser as a parser over whole input: a match counts whether settled or not, and a
    /// need for more input is a permanent failure.
    fn complete(self) -> (r: Over<I, Completed<Self>>)
        ensures
            r.parser.parser == self,
    {
        Over { parser: Completed { parser: self }, input: PhantomData }
    }

    /// This parser with `f` applied to its output.
    fn map<O, G: Fn(Self::Output) -> O>(self, f: G) -> (r: Over<I, StreamMapped<Self, G>>)
        ensures
            r.parser.parser == self,
            r.parser.f == f,
    {
        Over { parser: StreamMapped { parser: self, f }, input: PhantomData }
    }

    /// This parser with `f` applied to its recoverable errors.
    fn map_errors<E, G: Fn(Self::Error) -> E>(self, f: G) -> (r: Over<I, StreamMappedErrors<Self,
        G>>)
        ensures
            r.parser.parser == self,
            r.parser.f == f,
    {
        Over { parser: StreamMappedErrors { parser: self, f }, input: PhantomData }
    }

    /// This parser with `f` applied to its permanent failures and to what it reports when it
    /// needs more input.
    fn map_failures<F, G: Fn(Self::Failure) -> F>(self, f: G) -> (r: Over<I,
        StreamMappedFailures<Self, G>>)
        ensures
            r.parser.parser == self,
            r.parser.f == f,
    {
        Over { parser: StreamMappedFailures { parser: self, f }, input: PhantomData }
    }

    /// This parser with its recoverable errors raised to permanent failures.
    fn or_fail(self) -> (r: Over<I, StreamOrFail<Self>>)
        ensures
            r.parser.parser == self,
    {
        Over { parser: StreamOrFail { parser: self }, input: PhantomData }
    }

    /// This parser with its permanent failures lowered to recoverable errors. What it reports
    /// when it needs more input stays as it is.
    fn no_fail(self) -> (r: Over<I, StreamNoFail<Self>>)
        ensures
            r.parser.parser == self,
    {
        Over { parser: StreamNoFail { parser: self }, input: PhantomData }
    }

    /// This parser made optional: where it reports a recoverable error, the result is a settled
    /// success without output on the whole input.
    fn opt(self) -> (r: Over<I, StreamOpt<Self>>)
        ensures
            r.parser.parser == self,
    {
        Over { parser: StreamOpt { parser: self }, input: PhantomData }
    }

    /// This parser with `f` applied to every error that it reports; `f` decides of which
    /// kind the result is.
    fn map_err<
        E,
        F,
        G: Fn(StreamingError<Self::Error, Self::Failure>) -> StreamingError<E, F>,
    >(self, f: G) -> (r: Over<I, StreamMappedErr<Self, G>>)
        ensures
            r.parser.parser == self,
            r.parser.f == f,
    {
        Over { parser: StreamMappedErr { parser: self, f }, input: PhantomData }
    }

    /// This parser with its output, recoverable errors and permanent failures converted into
    /// `O`, `E` and `F`.
    fn to<O: From<Self::Output>, E: From<Self::Error>, F: From<Self::Failure>>(self) -> (r: Over<I,
        StreamConverted<Self, O, E, F>>)
        ensures
            r.parser.parser == self,
    {
        Over { parser: StreamConverted { parser: self, target: PhantomData }, input: PhantomData }
    }

    /// This parser with its output converted into `O`.
    fn to_output<O: From<Self::Output>>(self) -> (r: Over<I, StreamConverted<Self, O, Self::Error,
        Self::Failure>>)
        ensures
            r.parser.parser == self,
    {
        Over { parser: StreamConverted { parser: self, target: PhantomData }, input: PhantomData }
    }

    /// This parser with its recoverable errors converted into `E`.
    fn to_error<E: From<Self::Error>>(self) -> (r: Over<I, StreamConverted<Self, Self::Output, E,
        Self::Failure>>)
        ensures
            r.parser.parser == self,
    {
        Over { parser: StreamConverted { parser: self, target: PhantomData }, input: PhantomData }
    }

    /// This parser with its permanent failures converted into `F`.
    fn to_failure<F: From<Self::Failure>>(self) -> (r: Over<I, StreamConverted<Self, Self::Output,
        Self::Error, F>>)
        ensures
            r.parser.parser == self,
    {
        Over { parser: StreamConverted { parser: self, target: PhantomData }, input: PhantomData }
    }

    /// This parser with every recoverable error replaced by a clone of `err`.
    fn with_error<E: Clone>(self, err: E) -> (r: Over<I, StreamWithError<Self, E>>)
        ensures
            r.parser.parser == self,
            r.parser.err == err,
    {
        Over { parser: StreamWithError { parser: self, err }, input: PhantomData }
    }

    /// This parser with every recoverable error replaced by what `f` returns.
    fn with_error_as<E, G: Fn() -> E>(self, f: G) -> (r: Over<I, StreamWithErrorAs<Self, G>>)
        ensures
            r.parser.parser == self,
            r.parser.f == f,
    {
        Over { parser: StreamWithErrorAs { parser: self, f }, input: PhantomData }
    }

    /// This parser with every permanent failure, and what it reports when it needs more
    /// input, replaced by a clone of `err`.
    fn with_failure<F: Clone>(self, err: F) -> (r: Over<I, StreamWithFailure<Self, F>>)
        ensures
            r.parser.parser == self,
            r.parser.err == err,
    {
        Over { parser: StreamWithFailure { parser: self, err }, input: PhantomData }
    }

    /// This parser with every permanent failure, and what it reports when it needs more
    /// input, replaced by what `f` returns.
    fn with_failure_as<F, G: Fn() -> F>(self, f: G) -> (r: Over<I, StreamWithFailureAs<Self, G>>)
        ensures
            r.parser.parser == self,
            r.parser.f == f,
    {
        Over { parser: StreamWithFailureAs { parser: self, f }, input: PhantomData }
    }

    /// This parser with every output replaced by a clone of `output`.
    fn with_output<O: Clone>(self, output: O) -> (r: Over<I, StreamWithOutput<Self, O>>)
        ensures
            r.parser.parser == self,
            r.parser.output == output,
    {
        Over { parser: StreamWithOutput { parser: self, output }, input: PhantomData }
    }

    /// This parser with its recoverable errors raised to a clone of the permanent failure
    /// `err`, and what else it reports converted into the type of `err`.
    fn or_fail_with<F: Clone + From<Self::Failure>>(self, err: F) -> (r: Over<I,
        StreamOrFailWith<Self, F>>)
        ensures
            r.parser.parser == self,
            r.parser.err == err,
    {
        Over { parser: StreamOrFailWith { parser: self, err }, input: PhantomData }
    }

    /// This parser with its recoverable errors raised to the permanent failure that `f`
    /// returns, and what else it reports converted into that type.
    fn or_fail_as<F: From<Self::Failure>, G: Fn() -> F>(self, f: G) -> (r: Over<I,
        StreamOrFailAs<Self, G>>)
        ensures
            r.parser.parser == self,
            r.parser.f == f,
    {
        Over { parser: StreamOrFailAs { parser: self, f }, input: PhantomData }
    }

    /// This parser followed by `other`, which runs on what this one left.
    fn and<Other>(self, other: Other) -> (r: Over<I, StreamChain2<Self, Other>>)
        ensures
            r.parser == (StreamChain2 { p0: self, p1: other }),
    {
        Over { parser: StreamChain2 { p0: self, p1: other }, input: PhantomData }
    }

    /// This parser, or `other` on the same input where this one reports a recoverable error.
    fn or<Other>(self, other: Other) -> (r: Over<I, StreamEither2<Self, Other>>)
        ensures
            r.parser == (StreamEither2 { p0: self, p1: other }),
    {
        Over { parser: StreamEither2 { p0: self, p1: other }, input: PhantomData }
    }

    /// This parser with `other` run on its output.
    fn then<Other>(self, other: Other) -> (r: Over<I, StreamPipe2<Self, Other>>)
        ensures
            r.parser == (StreamPipe2 { p0: self, p1: other }),
    {
        Over { parser: StreamPipe2 { p0: self, p1: other }, input: PhantomData }
    }
}

/// True when `p` may fail for good on `input` with `f` where a match that more input could
/// extend counts as a failure: it may report the permanent failure `f`, or it may report
/// such a match, and `f` is the failure made from [`Incomplete`].
pub open spec fn fails_unless_settled<I, P: StreamingParser<I>>(
    p: P,
    input: I,
    f: P::Failure,
) -> bool where P::Failure: From<Incomplete> {
    ||| p.fails(input, f)
    ||| (exists|o: P::Output, rest: I| p.extends(input, o, rest)) && call_ensures(
        <P::Failure as From<Incomplete>>::from,
        (Incomplete,),
        f,
    )
}

/// A function from inputs to streaming results is a streaming parser.
impl<I, O, E, F, T: Fn(&I) -> StreamingResult<I, O, E, F>> StreamingParser<I> for T {
    type Output = O;

    type Error = E;

    type Failure = F;

    open spec fn inv(&self) -> bool {
        forall|input: I| #[trigger] self.requires((&input,))
    }

    open spec fn completes(&self, input: I, out: O, rest: I) -> bool {
        self.ensures((&input,), Ok(StreamingOk::Complete(out, rest)))
    }

    open spec fn extends(&self, input: I, out: O, rest: I) -> bool {
        self.ensures((&input,), Ok(StreamingOk::Partial(out, rest)))
    }

    open spec fn rejects(&self, input: I, e: E) -> bool {
        self.ensures((&input,), Err(StreamingError::Error(e)))
    }

    open spec fn fails(&self, input: I, f: F) -> bool {
        self.ensures((&input,), Err(StreamingError::Failure(f)))
    }

    open spec fn starves(&self, input: I, f: F) -> bool {
        self.ensures((&input,), Err(StreamingError::Incomplete(f)))
    }

    fn parse_stream(&self, input: &I) -> (r: StreamingResult<I, O, E, F>) {
        self(input)
    }
}

/// A streaming parser run over whole input.
pub struct Completed<P> {
    pub parser: P,
}

impl<I, P: StreamingParser<I>> Parser<I> for Completed<P> {
    type Output = P::Output;

    type Error = P::Error;

    type Failure = P::Failure;

    open spec fn inv(&self) -> bool {
        self.parser.inv()
    }

    open spec fn accepts(&self, input: I, out: P::Output, rest: I) -> bool {
        self.parser.completes(input, out, rest) || self.parser.extends(input, out, rest)
    }

    open spec fn rejects(&self, input: I, e: P::Error) -> bool {
        self.parser.rejects(input, e)
    }

    open spec fn fails(&self, input: I, f: P::Failure) -> bool {
        self.parser.fails(input, f) || self.parser.starves(input, f)
    }

    fn parse(&self, input: &I) -> (r: Result<(P::Output, I), ParserError<P::Error, P::Failure>>) {
        match self.parser.parse_stream(input) {
            Ok(StreamingOk::Complete(o, r)) => Ok((o, r)),
            Ok(StreamingOk::Partial(o, r)) => Ok((o, r)),
            Err(StreamingError::Incomplete(f)) => Err(ParserError::Failure(f)),
            Err(StreamingError::Error(e)) => Err(ParserError::Error(e)),
            Err(StreamingError::Failure(f)) => Err(ParserError::Failure(f)),
        }
    }
}

/// A parser over whole input can be run on input that may still grow.
pub trait IntoStreamingParser<I>: Parser<I> {
    /// This parser as a streaming parser: every match it finds counts as settled.
    fn stream(self) -> (r: Over<I, Streamed<Self>>)
        ensures
            r.parser.parser == self,
    ;
}

impl<I, T: Parser<I>> IntoStreamingParser<I> for T {
    fn stream(self) -> (r: Over<I, Streamed<Self>>) {
        Over { parser: Streamed { parser: self }, input: PhantomData }
    }
}

impl<I, P: StreamingParser<I>> StreamingParser<I> for Over<I, P> {
    type Output = P::Output;

    type Error = P::Error;

    type Failure = P::Failure;

    open spec fn inv(&self) -> bool {
        self.parser.inv()
    }

    open spec fn completes(&self, input: I, out: P::Output, rest: I) -> bool {
        self.parser.completes(input, out, rest)
    }

    open spec fn extends(&self, input: I, out: P::Output, rest: I) -> bool {
        self.parser.extends(input, out, rest)
    }

    open spec fn rejects(&self, input: I, e: P::Error) -> bool {
        self.parser.rejects(input, e)
    }

    open spec fn fails(&self, input: I, f: P::Failure) -> bool {
        self.parser.fails(input, f)
    }

    open spec fn starves(&self, input: I, f: P::Failure) -> bool {
        self.parser.starves(input, f)
    }

    fn parse_stream(&self, input: &I) -> (r: StreamingResult<
        I,
        P::Output,
        P::Error,
        P::Failure,
    >) {
        self.parser.parse_stream(input)
    }
}

/// A parser over whole input, run as a streaming parser.
pub struct Streamed<P> {
    pub parser: P,
}

impl<I, P: Parser<I>> StreamingParser<I> for Streamed<P> {
    type Output = P::Output;

    type Error = P::Error;

    type Failure = P::Failure;

    open spec fn inv(&self) -> bool {
        self.parser.inv()
    }

    open spec fn completes(&self, input: I, out: P::Output, rest: I) -> bool {
        self.parser.accepts(input, out, rest)
    }

    open spec fn extends(&self, input: I, out: P::Output, rest: I) -> bool {
        false
    }

    open spec fn rejects(&self, input: I, e: P::Error) -> bool {
        self.parser.rejects(input, e)
    }

    open spec fn fails(&self, input: I, f: P::Failure) -> bool {
        self.parser.fails(input, f)
    }

    open spec fn starves(&self, input: I, f: P::Failure) -> bool {
        false
    }

    fn parse_stream(&self, input: &I) -> (r: StreamingResult<I, P::Output, P::Error, P::Failure>) {
        match self.parser.parse(input) {
            Ok((o, r)) => Ok(StreamingOk::Complete(o, r)),
            Err(ParserError::Error(e)) => Err(StreamingError::Error(e)),
            Err(ParserError::Failure(f)) => Err(StreamingError::Failure(f)),
        }
    }
}

/// A result with the error of a parser over whole input can be read as a streaming result.
pub trait IntoStreamingResult<I, O, E, F> {
    /// This result with its error as a streaming error.
    fn as_streaming(self) -> (r: StreamingResult<I, O, E, F>);
}

impl<I, O, E, F> IntoStreamingResult<I, O, E, F> for Result<
    StreamingOk<I, O>,
    ParserError<E, F>,
> {
    fn as_streaming(self) -> (r: StreamingResult<I, O, E, F>)
        ensures
            r == match self {
                Ok(x) => Ok::<StreamingOk<I, O>, StreamingError<E, F>>(x),
                Err(ParserError::Error(e)) => Err(StreamingError::Error(e)),
                Err(ParserError::Failure(f)) => Err(StreamingError::Failure(f)),
            },
    {
        match self {
            Ok(x) => Ok(x),
            Err(ParserError::Error(e)) => Err(StreamingError::Error(e)),
            Err(ParserError::Failure(f)) => Err(StreamingError::Failure(f)),
        }
    }
}

/// A streaming parser with a function applied to its output.
pub struct StreamMapped<P, G> {
    pub parser: P,
    pub f: G,
}

impl<I, O, P: StreamingParser<I>, G: Fn(P::Output) -> O> StreamingParser<I> for StreamMapped<
    P,
    G,
> {
    type Output = O;

    type Error = P::Error;

    type Failure = P::Failure;

    open spec fn inv(&self) -> bool {
        &&& self.parser.inv()
        &&& forall|o: P::Output| #[trigger] self.f.requires((o,))
    }

    open spec fn completes(&self, input: I, out: O, rest: I) -> bool {
        exists|o: P::Output| #[trigger]
            self.parser.completes(input, o, rest) && self.f.ensures((o,), out)
    }

    open spec fn extends(&self, input: I, out: O, rest: I) -> bool {
        exists|o: P::Output| #[trigger]
            self.parser.extends(input, o, rest) && self.f.ensures((o,), out)
    }

    open spec fn rejects(&self, input: I, e: P::Error) -> bool {
        self.parser.rejects(input, e)
    }

    open spec fn fails(&self, input: I, f: P::Failure) -> bool {
        self.parser.fails(input, f)
    }

    open spec fn starves(&self, input: I, f: P::Failure) -> bool {
        self.parser.starves(input, f)
    }

    fn parse_stream(&self, input: &I) -> (r: StreamingResult<I, O, P::Error, P::Failure>) {
        match self.parser.parse_stream(input) {
            Ok(StreamingOk::Complete(o, rest)) => {
                let out = (self.f)(o);
                assert(self.parser.completes(*input, o, rest) && self.f.ensures((o,), out));
                Ok(StreamingOk::Complete(out, rest))
            },
            Ok(StreamingOk::Partial(o, rest)) => {
                let out = (self.f)(o);
                assert(self.parser.extends(*input, o, rest) && self.f.ensures((o,), out));
                Ok(StreamingOk::Partial(out, rest))
            },
            Err(StreamingError::Incomplete(f)) => Err(StreamingError::Incomplete(f)),
            Err(StreamingError::Error(e)) => Err(StreamingError::Error(e)),
            Err(StreamingError::Failure(f)) => Err(StreamingError::Failure(f)),
        }
    }
}

/// A streaming parser with a function applied to its recoverable errors.
pub struct StreamMappedErrors<P, G> {
    pub parser: P,
    pub f: G,
}

impl<I, E, P: StreamingParser<I>, G: Fn(P::Error) -> E> StreamingParser<
    I,
> for StreamMappedErrors<P, G> {
    type Output = P::Output;

    type Error = E;

    type Failure = P::Failure;

    open spec fn inv(&self) -> bool {
        &&& self.parser.inv()
        &&& forall|e: P::Error| #[trigger] self.f.requires((e,))
    }

    open spec fn completes(&self, input: I, out: P::Output, rest: I) -> bool {
        self.parser.completes(input, out, rest)
    }

    open spec fn extends(&self, input: I, out: P::Output, rest: I) -> bool {
        self.parser.extends(input, out, rest)
    }

    open spec fn rejects(&self, input: I, e: E) -> bool {
        exists|inner: P::Error| #[trigger]
            self.parser.rejects(input, inner) && self.f.ensures((inner,), e)
    }

    open spec fn fails(&self, input: I, f: P::Failure) -> bool {
        self.parser.fails(input, f)
    }

    open spec fn starves(&self, input: I, f: P::Failure) -> bool {
        self.parser.starves(input, f)
    }

    fn parse_stream(&self, input: &I) -> (r: StreamingResult<I, P::Output, E, P::Failure>) {
        match self.parser.parse_stream(input) {
            Ok(x) => Ok(x),
            Err(StreamingError::Error(inner)) => {
                let e = (self.f)(inner);
                assert(self.parser.rejects(*input, inner) && self.f.ensures((inner,), e));
                Err(StreamingError::Error(e))
            },
            Err(StreamingError::Incomplete(f)) => Err(StreamingError::Incomplete(f)),
            Err(StreamingError::Failure(f)) => Err(StreamingError::Failure(f)),
        }
    }
}

/// A streaming parser with a function applied to its permanent failures and to what it reports
/// when it needs more input.
pub struct StreamMappedFailures<P, G> {
    pub parser: P,
    pub f: G,
}

impl<I, F, P: StreamingParser<I>, G: Fn(P::Failure) -> F> StreamingParser<
    I,
> for StreamMappedFailures<P, G> {
    type Output = P::Output;

    type Error = P::Error;

    type Failure = F;

    open spec fn inv(&self) -> bool {
        &&& self.parser.inv()
        &&& forall|f: P::Failure| #[trigger] self.f.requires((f,))
    }

    open spec fn completes(&self, input: I, out: P::Output, rest: I) -> bool {
        self.parser.completes(input, out, rest)
    }

    open spec fn extends(&self, input: I, out: P::Output, rest: I) -> bool {
        self.parser.extends(input, out, rest)
    }

    open spec fn rejects(&self, input: I, e: P::Error) -> bool {
        self.parser.rejects(input, e)
    }

    open spec fn fails(&self, input: I, f: F) -> bool {
        exists|inner: P::Failure| #[trigger]
            self.parser.fails(input, inner) && self.f.ensures((inner,), f)
    }

    open spec fn starves(&self, input: I, f: F) -> bool {
        exists|inner: P::Failure| #[trigger]
            self.parser.starves(input, inner) && self.f.ensures((inner,), f)
    }

    fn parse_stream(&self, input: &I) -> (r: StreamingResult<I, P::Output, P::Error, F>) {
        match self.parser.parse_stream(input) {
            Ok(x) => Ok(x),
            Err(StreamingError::Error(e)) => Err(StreamingError::Error(e)),
            Err(StreamingError::Incomplete(inner)) => {
                let f = (self.f)(inner);
                assert(self.parser.starves(*input, inner) && self.f.ensures((inner,), f));
                Err(StreamingError::Incomplete(f))
            },
            Err(StreamingError::Failure(inner)) => {
                let f = (self.f)(inner);
                assert(self.parser.fails(*input, inner) && self.f.ensures((inner,), f));
                Err(StreamingError::Failure(f))
            },
        }
    }
}

/// A streaming parser with its recoverable errors raised to permanent failures.
pub struct StreamOrFail<P> {
    pub parser: P,
}

impl<I, P: StreamingParser<I>> StreamingParser<I> for StreamOrFail<P> where
    P::Failure: From<P::Error>,
 {
    type Output = P::Output;

    type Error = P::Error;

    type Failure = P::Failure;

    open spec fn inv(&self) -> bool {
        self.parser.inv()
    }

    open spec fn completes(&self, input: I, out: P::Output, rest: I) -> bool {
        self.parser.completes(input, out, rest)
    }

    open spec fn extends(&self, input: I, out: P::Output, rest: I) -> bool {
        self.parser.extends(input, out, rest)
    }

    open spec fn rejects(&self, input: I, e: P::Error) -> bool {
        false
    }

    open spec fn fails(&self, input: I, f: P::Failure) -> bool {
        ||| self.parser.fails(input, f)
        ||| exists|e: P::Error| #[trigger]
            self.parser.rejects(input, e) && call_ensures(
                <P::Failure as From<P::Error>>::from,
                (e,),
                f,
            )
    }

    open spec fn starves(&self, input: I, f: P::Failure) -> bool {
        self.parser.starves(input, f)
    }

    fn parse_stream(&self, input: &I) -> (r: StreamingResult<
        I,
        P::Output,
        P::Error,
        P::Failure,
    >) {
        match self.parser.parse_stream(input) {
            Ok(x) => Ok(x),
            Err(StreamingError::Error(e)) => {
                let f = <P::Failure as From<P::Error>>::from(e);
                assert(self.parser.rejects(*input, e) && call_ensures(
                    <P::Failure as From<P::Error>>::from,
                    (e,),
                    f,
                ));
                Err(StreamingError::Failure(f))
            },
            Err(StreamingError::Incomplete(f)) => Err(StreamingError::Incomplete(f)),
            Err(StreamingError::Failure(f)) => Err(StreamingError::Failure(f)),
        }
    }
}

/// A streaming parser with its permanent failures lowered to recoverable errors.
pub struct StreamNoFail<P> {
    pub parser: P,
}

impl<I, P: StreamingParser<I>> StreamingParser<I> for StreamNoFail<P> where
    P::Error: From<P::Failure>,
 {
    type Output = P::Output;

    type Error = P::Error;

    type Failure = P::Failure;

    open spec fn inv(&self) -> bool {
        self.parser.inv()
    }

    open spec fn completes(&self, input: I, out: P::Output, rest: I) -> bool {
        self.parser.completes(input, out, rest)
    }

    open spec fn extends(&self, input: I, out: P::Output, rest: I) -> bool {
        self.parser.extends(input, out, rest)
    }

    open spec fn rejects(&self, input: I, e: P::Error) -> bool {
        ||| self.parser.rejects(input, e)
        ||| exists|f: P::Failure| #[trigger]
            self.parser.fails(input, f) && call_ensures(
                <P::Error as From<P::Failure>>::from,
                (f,),
                e,
            )
    }

    open spec fn fails(&self, input: I, f: P::Failure) -> bool {
        false
    }

    open spec fn starves(&self, input: I, f: P::Failure) -> bool {
        self.parser.starves(input, f)
    }

    fn parse_stream(&self, input: &I) -> (r: StreamingResult<
        I,
        P::Output,
        P::Error,
        P::Failure,
    >) {
        match self.parser.parse_stream(input) {
            Ok(x) => Ok(x),
            Err(StreamingError::Error(e)) => Err(StreamingError::Error(e)),
            Err(StreamingError::Incomplete(f)) => Err(StreamingError::Incomplete(f)),
            Err(StreamingError::Failure(f)) => {
                let e = <P::Error as From<P::Failure>>::from(f);
                assert(self.parser.fails(*input, f) && call_ensures(
                    <P::Error as From<P::Failure>>::from,
                    (f,),
                    e,
                ));
                Err(StreamingError::Error(e))
            },
        }
    }
}

/// A streaming parser made optional.
pub struct StreamOpt<P> {
    pub parser: P,
}

impl<I: Clone, P: StreamingParser<I>> StreamingParser<I> for StreamOpt<P> {
    type Output = Option<P::Output>;

    type Error = P::Error;

    type Failure = P::Failure;

    open spec fn inv(&self) -> bool {
        self.parser.inv()
    }

    open spec fn completes(&self, input: I, out: Option<P::Output>, rest: I) -> bool {
        match out {
            Some(o) => self.parser.completes(input, o, rest),
            None => (exists|e: P::Error| self.parser.rejects(input, e)) && cloned(input, rest),
        }
    }

    open spec fn extends(&self, input: I, out: Option<P::Output>, rest: I) -> bool {
        match out {
            Some(o) => self.parser.extends(input, o, rest),
            None => false,
        }
    }

    open spec fn rejects(&self, input: I, e: P::Error) -> bool {
        false
    }

    open spec fn fails(&self, input: I, f: P::Failure) -> bool {
        self.parser.fails(input, f)
    }

    open spec fn starves(&self, input: I, f: P::Failure) -> bool {
        self.parser.starves(input, f)
    }

    fn parse_stream(&self, input: &I) -> (r: StreamingResult<
        I,
        Option<P::Output>,
        P::Error,
        P::Failure,
    >) {
        match self.parser.parse_stream(input) {
            Ok(StreamingOk::Complete(o, rest)) => Ok(StreamingOk::Complete(Some(o), rest)),
            Ok(StreamingOk::Partial(o, rest)) => Ok(StreamingOk::Partial(Some(o), rest)),
            Err(StreamingError::Error(e)) => {
                assert(self.parser.rejects(*input, e));
                Ok(StreamingOk::Complete(None, input.clone()))
            },
            Err(StreamingError::Incomplete(f)) => Err(StreamingError::Incomplete(f)),
            Err(StreamingError::Failure(f)) => Err(StreamingError::Failure(f)),
        }
    }
}

/// A streaming parser with a function applied to every error that it reports.
pub struct StreamMappedErr<P, G> {
    pub parser: P,
    pub f: G,
}

/// True when `p` may report `err` on `input`.
pub open spec fn stream_reports<I, P: StreamingParser<I>>(
    p: P,
    input: I,
    err: StreamingError<P::Error, P::Failure>,
) -> bool {
    match err {
        StreamingError::Error(e) => p.rejects(input, e),
        StreamingError::Failure(f) => p.fails(input, f),
        StreamingError::Incomplete(f) => p.starves(input, f),
    }
}

impl<
    I,
    E,
    F,
    P: StreamingParser<I>,
    G: Fn(StreamingError<P::Error, P::Failure>) -> StreamingError<E, F>,
> StreamingParser<I> for StreamMappedErr<P, G> {
    type Output = P::Output;

    type Error = E;

    type Failure = F;

    open spec fn inv(&self) -> bool {
        &&& self.parser.inv()
        &&& forall|err: StreamingError<P::Error, P::Failure>| #[trigger] self.f.requires((err,))
    }

    open spec fn completes(&self, input: I, out: P::Output, rest: I) -> bool {
        self.parser.completes(input, out, rest)
    }

    open spec fn extends(&self, input: I, out: P::Output, rest: I) -> bool {
        self.parser.extends(input, out, rest)
    }

    open spec fn rejects(&self, input: I, e: E) -> bool {
        exists|inner: StreamingError<P::Error, P::Failure>| #[trigger]
            stream_reports(self.parser, input, inner) && self.f.ensures(
                (inner,),
                StreamingError::Error(e),
            )
    }

    open spec fn fails(&self, input: I, f: F) -> bool {
        exists|inner: StreamingError<P::Error, P::Failure>| #[trigger]
            stream_reports(self.parser, input, inner) && self.f.ensures(
                (inner,),
                StreamingError::Failure(f),
            )
    }

    open spec fn starves(&self, input: I, f: F) -> bool {
        exists|inner: StreamingError<P::Error, P::Failure>| #[trigger]
            stream_reports(self.parser, input, inner) && self.f.ensures(
                (inner,),
                StreamingError::Incomplete(f),
            )
    }

    fn parse_stream(&self, input: &I) -> (r: StreamingResult<I, P::Output, E, F>) {
        match self.parser.parse_stream(input) {
            Ok(x) => Ok(x),
            Err(inner) => {
                let err = (self.f)(inner);
                assert(stream_reports(self.parser, *input, inner) && self.f.ensures(
                    (inner,),
                    err,
                ));
                Err(err)
            },
        }
    }
}

/// A streaming parser with its output, recoverable errors and permanent failures converted
/// into other types.
pub struct StreamConverted<P, O, E, F> {
    pub parser: P,
    pub target: PhantomData<(O, E, F)>,
}

impl<
    I,
    O: From<P::Output>,
    E: From<P::Error>,
    F: From<P::Failure>,
    P: StreamingParser<I>,
> StreamingParser<I> for StreamConverted<P, O, E, F> {
    type Output = O;

    type Error = E;

    type Failure = F;

    open spec fn inv(&self) -> bool {
        self.parser.inv()
    }

    open spec fn completes(&self, input: I, out: O, rest: I) -> bool {
        exists|inner: P::Output| #[trigger]
            self.parser.completes(input, inner, rest) && call_ensures(O::from, (inner,), out)
    }

    open spec fn extends(&self, input: I, out: O, rest: I) -> bool {
        exists|inner: P::Output| #[trigger]
            self.parser.extends(input, inner, rest) && call_ensures(O::from, (inner,), out)
    }

    open spec fn rejects(&self, input: I, e: E) -> bool {
        exists|inner: P::Error| #[trigger]
            self.parser.rejects(input, inner) && call_ensures(E::from, (inner,), e)
    }

    open spec fn fails(&self, input: I, f: F) -> bool {
        exists|inner: P::Failure| #[trigger]
            self.parser.fails(input, inner) && call_ensures(F::from, (inner,), f)
    }

    open spec fn starves(&self, input: I, f: F) -> bool {
        exists|inner: P::Failure| #[trigger]
            self.parser.starves(input, inner) && call_ensures(F::from, (inner,), f)
    }

    fn parse_stream(&self, input: &I) -> (r: StreamingResult<I, O, E, F>) {
        match self.parser.parse_stream(input) {
            Ok(StreamingOk::Complete(inner, rest)) => {
                let out = O::from(inner);
                assert(self.parser.completes(*input, inner, rest) && call_ensures(
                    O::from,
                    (inner,),
                    out,
                ));
                Ok(StreamingOk::Complete(out, rest))
            },
            Ok(StreamingOk::Partial(inner, rest)) => {
                let out = O::from(inner);
                assert(self.parser.extends(*input, inner, rest) && call_ensures(
                    O::from,
                    (inner,),
                    out,
                ));
                Ok(StreamingOk::Partial(out, rest))
            },
            Err(StreamingError::Error(inner)) => {
                let e = E::from(inner);
                assert(self.parser.rejects(*input, inner) && call_ensures(E::from, (inner,), e));
                Err(StreamingError::Error(e))
            },
            Err(StreamingError::Failure(inner)) => {
                let f = F::from(inner);
                assert(self.parser.fails(*input, inner) && call_ensures(F::from, (inner,), f));
                Err(StreamingError::Failure(f))
            },
            Err(StreamingError::Incomplete(inner)) => {
                let f = F::from(inner);
                assert(self.parser.starves(*input, inner) && call_ensures(F::from, (inner,), f));
                Err(StreamingError::Incomplete(f))
            },
        }
    }
}

/// A streaming parser with every recoverable error replaced by a clone of a fixed one.
pub struct StreamWithError<P, E> {
    pub parser: P,
    pub err: E,
}

impl<I, E: Clone, P: StreamingParser<I>> StreamingParser<I> for StreamWithError<P, E> {
    type Output = P::Output;

    type Error = E;

    type Failure = P::Failure;

    open spec fn inv(&self) -> bool {
        self.parser.inv()
    }

    open spec fn completes(&self, input: I, out: P::Output, rest: I) -> bool {
        self.parser.completes(input, out, rest)
    }

    open spec fn extends(&self, input: I, out: P::Output, rest: I) -> bool {
        self.parser.extends(input, out, rest)
    }

    open spec fn rejects(&self, input: I, e: E) -> bool {
        &&& exists|inner: P::Error| self.parser.rejects(input, inner)
        &&& cloned(self.err, e)
    }

    open spec fn fails(&self, input: I, f: P::Failure) -> bool {
        self.parser.fails(input, f)
    }

    open spec fn starves(&self, input: I, f: P::Failure) -> bool {
        self.parser.starves(input, f)
    }

    fn parse_stream(&self, input: &I) -> (r: StreamingResult<I, P::Output, E, P::Failure>) {
        match self.parser.parse_stream(input) {
            Ok(x) => Ok(x),
            Err(StreamingError::Error(inner)) => {
                assert(self.parser.rejects(*input, inner));
                Err(StreamingError::Error(self.err.clone()))
            },
            Err(StreamingError::Incomplete(f)) => Err(StreamingError::Incomplete(f)),
            Err(StreamingError::Failure(f)) => Err(StreamingError::Failure(f)),
        }
    }
}

/// A streaming parser with every recoverable error replaced by what a function returns.
pub struct StreamWithErrorAs<P, G> {
    pub parser: P,
    pub f: G,
}

impl<I, E, G: Fn() -> E, P: StreamingParser<I>> StreamingParser<I> for StreamWithErrorAs<P, G> {
    type Output = P::Output;

    type Error = E;

    type Failure = P::Failure;

    open spec fn inv(&self) -> bool {
        self.parser.inv() && self.f.requires(())
    }

    open spec fn completes(&self, input: I, out: P::Output, rest: I) -> bool {
        self.parser.completes(input, out, rest)
    }

    open spec fn extends(&self, input: I, out: P::Output, rest: I) -> bool {
        self.parser.extends(input, out, rest)
    }

    open spec fn rejects(&self, input: I, e: E) -> bool {
        &&& exists|inner: P::Error| self.parser.rejects(input, inner)
        &&& self.f.ensures((), e)
    }

    open spec fn fails(&self, input: I, f: P::Failure) -> bool {
        self.parser.fails(input, f)
    }

    open spec fn starves(&self, input: I, f: P::Failure) -> bool {
        self.parser.starves(input, f)
    }

    fn parse_stream(&self, input: &I) -> (r: StreamingResult<I, P::Output, E, P::Failure>) {
        match self.parser.parse_stream(input) {
            Ok(x) => Ok(x),
            Err(StreamingError::Error(inner)) => {
                assert(self.parser.rejects(*input, inner));
                Err(StreamingError::Error((self.f)()))
            },
            Err(StreamingError::Incomplete(f)) => Err(StreamingError::Incomplete(f)),
            Err(StreamingError::Failure(f)) => Err(StreamingError::Failure(f)),
        }
    }
}

/// A streaming parser with every permanent failure, and what it reports when it needs more
/// input, replaced by a clone of a fixed failure.
pub struct StreamWithFailure<P, F> {
    pub parser: P,
    pub err: F,
}

impl<I, F: Clone, P: StreamingParser<I>> StreamingParser<I> for StreamWithFailure<P, F> {
    type Output = P::Output;

    type Error = P::Error;

    type Failure = F;

    open spec fn inv(&self) -> bool {
        self.parser.inv()
    }

    open spec fn completes(&self, input: I, out: P::Output, rest: I) -> bool {
        self.parser.completes(input, out, rest)
    }

    open spec fn extends(&self, input: I, out: P::Output, rest: I) -> bool {
        self.parser.extends(input, out, rest)
    }

    open spec fn rejects(&self, input: I, e: P::Error) -> bool {
        self.parser.rejects(input, e)
    }

    open spec fn fails(&self, input: I, f: F) -> bool {
        &&& exists|inner: P::Failure| self.parser.fails(input, inner)
        &&& cloned(self.err, f)
    }

    open spec fn starves(&self, input: I, f: F) -> bool {
        &&& exists|inner: P::Failure| self.parser.starves(input, inner)
        &&& cloned(self.err, f)
    }

    fn parse_stream(&self, input: &I) -> (r: StreamingResult<I, P::Output, P::Error, F>) {
        match self.parser.parse_stream(input) {
            Ok(x) => Ok(x),
            Err(StreamingError::Error(e)) => Err(StreamingError::Error(e)),
            Err(StreamingError::Incomplete(inner)) => {
                assert(self.parser.starves(*input, inner));
                Err(StreamingError::Incomplete(self.err.clone()))
            },
            Err(StreamingError::Failure(inner)) => {
                assert(self.parser.fails(*input, inner));
                Err(StreamingError::Failure(self.err.clone()))
            },
        }
    }
}

/// A streaming parser with every permanent failure, and what it reports when it needs more
/// input, replaced by what a function returns.
pub struct StreamWithFailureAs<P, G> {
    pub parser: P,
    pub f: G,
}

impl<I, F, G: Fn() -> F, P: StreamingParser<I>> StreamingParser<I> for StreamWithFailureAs<P, G> {
    type Output = P::Output;

    type Error = P::Error;

    type Failure = F;

    open spec fn inv(&self) -> bool {
        self.parser.inv() && self.f.requires(())
    }

    open spec fn completes(&self, input: I, out: P::Output, rest: I) -> bool {
        self.parser.completes(input, out, rest)
    }

    open spec fn extends(&self, input: I, out: P::Output, rest: I) -> bool {
        self.parser.extends(input, out, rest)
    }

    open spec fn rejects(&self, input: I, e: P::Error) -> bool {
        self.parser.rejects(input, e)
    }

    open spec fn fails(&self, input: I, f: F) -> bool {
        &&& exists|inner: P::Failure| self.parser.fails(input, inner)
        &&& self.f.ensures((), f)
    }

    open spec fn starves(&self, input: I, f: F) -> bool {
        &&& exists|inner: P::Failure| self.parser.starves(input, inner)
        &&& self.f.ensures((), f)
    }

    fn parse_stream(&self, input: &I) -> (r: StreamingResult<I, P::Output, P::Error, F>) {
        match self.parser.parse_stream(input) {
            Ok(x) => Ok(x),
            Err(StreamingError::Error(e)) => Err(StreamingError::Error(e)),
            Err(StreamingError::Incomplete(inner)) => {
                assert(self.parser.starves(*input, inner));
                Err(StreamingError::Incomplete((self.f)()))
            },
            Err(StreamingError::Failure(inner)) => {
                assert(self.parser.fails(*input, inner));
                Err(StreamingError::Failure((self.f)()))
            },
        }
    }
}

/// A streaming parser with every output replaced by a clone of a fixed one.
pub struct StreamWithOutput<P, O> {
    pub parser: P,
    pub output: O,
}

impl<I, O: Clone, P: StreamingParser<I>> StreamingParser<I> for StreamWithOutput<P, O> {
    type Output = O;

    type Error = P::Error;

    type Failure = P::Failure;

    open spec fn inv(&self) -> bool {
        self.parser.inv()
    }

    open spec fn completes(&self, input: I, out: O, rest: I) -> bool {
        &&& exists|inner: P::Output| self.parser.completes(input, inner, rest)
        &&& cloned(self.output, out)
    }

    open spec fn extends(&self, input: I, out: O, rest: I) -> bool {
        &&& exists|inner: P::Output| self.parser.extends(input, inner, rest)
        &&& cloned(self.output, out)
    }

    open spec fn rejects(&self, input: I, e: P::Error) -> bool {
        self.parser.rejects(input, e)
    }

    open spec fn fails(&self, input: I, f: P::Failure) -> bool {
        self.parser.fails(input, f)
    }

    open spec fn starves(&self, input: I, f: P::Failure) -> bool {
        self.parser.starves(input, f)
    }

    fn parse_stream(&self, input: &I) -> (r: StreamingResult<I, O, P::Error, P::Failure>) {
        match self.parser.parse_stream(input) {
            Ok(StreamingOk::Complete(inner, rest)) => {
                assert(self.parser.completes(*input, inner, rest));
                Ok(StreamingOk::Complete(self.output.clone(), rest))
            },
            Ok(StreamingOk::Partial(inner, rest)) => {
                assert(self.parser.extends(*input, inner, rest));
                Ok(StreamingOk::Partial(self.output.clone(), rest))
            },
            Err(e) => Err(e),
        }
    }
}

/// A streaming parser with its recoverable errors raised to a clone of a fixed permanent
/// failure.
pub struct StreamOrFailWith<P, F> {
    pub parser: P,
    pub err: F,
}

impl<I, P: StreamingParser<I>,
    F: Clone + From<P::Failure>> StreamingParser<I> for StreamOrFailWith<P, F> {
    type Output = P::Output;

    type Error = P::Error;

    type Failure = F;

    open spec fn inv(&self) -> bool {
        self.parser.inv()
    }

    open spec fn completes(&self, input: I, out: P::Output, rest: I) -> bool {
        self.parser.completes(input, out, rest)
    }

    open spec fn extends(&self, input: I, out: P::Output, rest: I) -> bool {
        self.parser.extends(input, out, rest)
    }

    open spec fn rejects(&self, input: I, e: P::Error) -> bool {
        false
    }

    open spec fn fails(&self, input: I, f: F) -> bool {
        ||| (exists|e: P::Error| self.parser.rejects(input, e)) && cloned(self.err, f)
        ||| exists|inner: P::Failure| #[trigger]
            self.parser.fails(input, inner) && call_ensures(F::from, (inner,), f)
    }

    open spec fn starves(&self, input: I, f: F) -> bool {
        exists|inner: P::Failure| #[trigger]
            self.parser.starves(input, inner) && call_ensures(F::from, (inner,), f)
    }

    fn parse_stream(&self, input: &I) -> (r: StreamingResult<I, P::Output, P::Error, F>) {
        match self.parser.parse_stream(input) {
            Ok(x) => Ok(x),
            Err(StreamingError::Error(e)) => {
                assert(self.parser.rejects(*input, e));
                Err(StreamingError::Failure(self.err.clone()))
            },
            Err(StreamingError::Incomplete(inner)) => {
                let f = F::from(inner);
                assert(self.parser.starves(*input, inner) && call_ensures(F::from, (inner,), f));
                Err(StreamingError::Incomplete(f))
            },
            Err(StreamingError::Failure(inner)) => {
                let f = F::from(inner);
                assert(self.parser.fails(*input, inner) && call_ensures(F::from, (inner,), f));
                Err(StreamingError::Failure(f))
            },
        }
    }
}

/// A streaming parser with its recoverable errors raised to the permanent failure that a
/// function returns.
pub struct StreamOrFailAs<P, G> {
    pub parser: P,
    pub f: G,
}

impl<I, P: StreamingParser<I>, F: From<P::Failure>,
    G: Fn() -> F> StreamingParser<I> for StreamOrFailAs<P, G> {
    type Output = P::Output;

    type Error = P::Error;

    type Failure = F;

    open spec fn inv(&self) -> bool {
        self.parser.inv() && self.f.requires(())
    }

    open spec fn completes(&self, input: I, out: P::Output, rest: I) -> bool {
        self.parser.completes(input, out, rest)
    }

    open spec fn extends(&self, input: I, out: P::Output, rest: I) -> bool {
        self.parser.extends(input, out, rest)
    }

    open spec fn rejects(&self, input: I, e: P::Error) -> bool {
        false
    }

    open spec fn fails(&self, input: I, f: F) -> bool {
        ||| (exists|e: P::Error| self.parser.rejects(input, e)) && self.f.ensures((), f)
        ||| exists|inner: P::Failure| #[trigger]
            self.parser.fails(input, inner) && call_ensures(F::from, (inner,), f)
    }

    open spec fn starves(&self, input: I, f: F) -> bool {
        exists|inner: P::Failure| #[trigger]
            self.parser.starves(input, inner) && call_ensures(F::from, (inner,), f)
    }

    fn parse_stream(&self, input: &I) -> (r: StreamingResult<I, P::Output, P::Error, F>) {
        match self.parser.parse_stream(input) {
            Ok(x) => Ok(x),
            Err(StreamingError::Error(e)) => {
                assert(self.parser.rejects(*input, e));
                Err(StreamingError::Failure((self.f)()))
            },
            Err(StreamingError::Incomplete(inner)) => {
                let f = F::from(inner);
                assert(self.parser.starves(*input, inner) && call_ensures(F::from, (inner,), f));
                Err(StreamingError::Incomplete(f))
            },
            Err(StreamingError::Failure(inner)) => {
                let f = F::from(inner);
                assert(self.parser.fails(*input, inner) && call_ensures(F::from, (inner,), f));
                Err(StreamingError::Failure(f))
            },
        }
    }
}

} // verus!
