//! Parsers and their results.
//!
//! A parser takes an input and either succeeds, with an output and the input that remains, or
//! reports a recoverable error (nothing matched, another parser may be tried) or a permanent
//! failure (the input belongs to this parser and is malformed).
use std::marker::PhantomData;
use vstd::pervasive::cloned;
use vstd::prelude::*;

pub mod choice;
pub mod compose;
pub mod err;
pub mod fuse;
pub mod sequence;
pub mod streaming;
pub mod streaming_choice;
pub mod streaming_compose;
pub mod streaming_sequence;

pub use choice::{Choice, Either2, Either3, Either4, Either5, Either6, Either7, Either8};
pub use compose::{Compose, Pipe2, Pipe3, Pipe4, Pipe5, Pipe6, Pipe7, Pipe8};
pub use err::{Incomplete, Never, NotFound};
pub use fuse::{fuse, Fusable, FuseSequence, Fused, OutputLen};
pub use sequence::{
    Chain2, Chain3, Chain4, Chain5, Chain6, Chain7, Chain8, SeparatedChain2, SeparatedChain3,
    SeparatedChain4, SeparatedChain5, SeparatedChain6, SeparatedChain7, SeparatedChain8,
    SeparatedSequence, Sequence,
};
pub use streaming::{
    fails_unless_settled, try_from_streaming, Completed, ErrorWasIncomplete, IntoStreamingParser,
    IntoStreamingResult, Streamed, StreamingError, StreamingOk, StreamingParser, StreamingResult,
};
pub use streaming_choice::{
    StreamEither2, StreamEither3, StreamEither4, StreamEither5, StreamEither6, StreamEither7,
    StreamEither8, StreamingChoice,
};
pub use streaming_compose::{
    StreamPipe2, StreamPipe3, StreamPipe4, StreamPipe5, StreamPipe6, StreamPipe7, StreamPipe8,
    StreamingCompose,
};
pub use streaming_sequence::{
    StreamChain2, StreamChain3, StreamChain4, StreamChain5, StreamChain6, StreamChain7,
    StreamChain8, StreamingSequence,
};

verus! {

/// Why a parser did not succeed.
#[derive(Debug, PartialEq, Eq, PartialOrd, Ord)]
pub enum ParserError<Error, Failure> {
    /// Nothing matched and no input was consumed.
    Error(Error),
    /// The input is malformed; no other parser should be tried on it.
    Failure(Failure),
}

impl<E, F> ParserError<E, F> {
    /// What kind of error this is, in words.
    pub fn label(&self) -> (r: &'static str)
        ensures
            r@ == match self {
                ParserError::Error(_) => "Parsing error: Normal error"@,
                ParserError::Failure(_) => "Parsing error: Permanent failure"@,
            },
    {
        match self {
            ParserError::Error(_) => "Parsing error: Normal error",
            ParserError::Failure(_) => "Parsing error: Permanent failure",
        }
    }
}

/// What a parser returns: the output and the remaining input, or the reason for neither.
pub type ParserResult<Input, Output, Error = NotFound, Failure = Never> = Result<
    (Output, Input),
    ParserError<Error, Failure>,
>;

/// A parser over inputs of type `I`.
///
/// What a parser does is stated by three relations: the successes it may return on an input
/// ([`accepts`](Parser::accepts)), the recoverable errors ([`rejects`](Parser::rejects)) and the
/// permanent failures ([`fails`](Parser::fails)). A parser whose relations allow one outcome for
/// each input is a function of its input.
pub trait Parser<I>: Sized {
    type Output;

    type Error;

    type Failure;

    /// True when this parser can be run: the functions it was built from accept every argument
    /// that it may hand them.
    spec fn inv(&self) -> bool;

    /// True when this parser may succeed on `input` with the output `out`, leaving `rest`.
    spec fn accepts(&self, input: I, out: Self::Output, rest: I) -> bool;

    /// True when this parser may report the recoverable error `e` on `input`.
    spec fn rejects(&self, input: I, e: Self::Error) -> bool;

    /// True when this parser may report the permanent failure `f` on `input`.
    spec fn fails(&self, input: I, f: Self::Failure) -> bool;

    /// Runs the parser on `input`.
    fn parse(&self, input: &I) -> (r: ParserResult<I, Self::Output, Self::Error, Self::Failure>)
        requires
            self.inv(),
        ensures
            match r {
                Ok((out, rest)) => self.accepts(*input, out, rest),
                Err(ParserError::Error(e)) => self.rejects(*input, e),
                Err(ParserError::Failure(f)) => self.fails(*input, f),
            },
    ;

    /// This parser with `f` applied to its output.
    fn map<G>(self, f: G) -> (r: Over<I, Mapped<Self, G>>)
        ensures
            r.parser.parser == self,
            r.parser.f == f,
    {
        Over { parser: Mapped { parser: self, f }, input: PhantomData }
    }

    /// This parser with `f` applied to its recoverable errors.
    fn map_errors<G>(self, f: G) -> (r: Over<I, MappedErrors<Self, G>>)
        ensures
            r.parser.parser == self,
            r.parser.f == f,
    {
        Over { parser: MappedErrors { parser: self, f }, input: PhantomData }
    }

    /// This parser with `f` applied to its permanent failures.
    fn map_failures<G>(self, f: G) -> (r: Over<I, MappedFailures<Self, G>>)
        ensures
            r.parser.parser == self,
            r.parser.f == f,
    {
        Over { parser: MappedFailures { parser: self, f }, input: PhantomData }
    }

    /// This parser with its output, recoverable errors and permanent failures converted into
    /// `O`, `E` and `F`.
    fn to<O, E, F>(self) -> (r: Over<I, Converted<Self, O, E, F>>)
        ensures
            r.parser.parser == self,
    {
        Over { parser: Converted { parser: self, target: PhantomData }, input: PhantomData }
    }

    /// This parser with its output converted into `O`.
    fn to_output<O>(self) -> (r: Over<I, ConvertedOutput<Self, O>>)
        ensures
            r.parser.parser == self,
    {
        Over { parser: ConvertedOutput { parser: self, target: PhantomData }, input: PhantomData }
    }

    /// This parser with its recoverable errors converted into `E`.
    fn to_error<E>(self) -> (r: Over<I, ConvertedError<Self, E>>)
        ensures
            r.parser.parser == self,
    {
        Over { parser: ConvertedError { parser: self, target: PhantomData }, input: PhantomData }
    }

    /// This parser with its permanent failures converted into `F`.
    fn to_failure<F>(self) -> (r: Over<I, ConvertedFailure<Self, F>>)
        ensures
            r.parser.parser == self,
    {
        Over { parser: ConvertedFailure { parser: self, target: PhantomData }, input: PhantomData }
    }

    /// This parser with every recoverable error replaced by a clone of `err`.
    fn with_error<E>(self, err: E) -> (r: Over<I, WithError<Self, E>>)
        ensures
            r.parser.parser == self,
            r.parser.err == err,
    {
        Over { parser: WithError { parser: self, err }, input: PhantomData }
    }

    /// This parser with every recoverable error replaced by what `f` returns.
    fn with_error_as<G>(self, f: G) -> (r: Over<I, WithErrorAs<Self, G>>)
        ensures
            r.parser.parser == self,
            r.parser.f == f,
    {
        Over { parser: WithErrorAs { parser: self, f }, input: PhantomData }
    }

    /// This parser with every permanent failure replaced by a clone of `err`.
    fn with_failure<F>(self, err: F) -> (r: Over<I, WithFailure<Self, F>>)
        ensures
            r.parser.parser == self,
            r.parser.err == err,
    {
        Over { parser: WithFailure { parser: self, err }, input: PhantomData }
    }

    /// This parser with every permanent failure replaced by what `f` returns.
    fn with_failure_as<G>(self, f: G) -> (r: Over<I, WithFailureAs<Self, G>>)
        ensures
            r.parser.parser == self,
            r.parser.f == f,
    {
        Over { parser: WithFailureAs { parser: self, f }, input: PhantomData }
    }

    /// This parser with every output replaced by a clone of `output`.
    fn with_output<O>(self, output: O) -> (r: Over<I, WithOutput<Self, O>>)
        ensures
            r.parser.parser == self,
            r.parser.output == output,
    {
        Over { parser: WithOutput { parser: self, output }, input: PhantomData }
    }

    /// This parser with its recoverable errors raised to permanent failures.
    fn or_fail(self) -> (r: Over<I, OrFail<Self>>)
        ensures
            r.parser.parser == self,
    {
        Over { parser: OrFail { parser: self }, input: PhantomData }
    }

    /// This parser with its recoverable errors raised to a clone of the permanent failure
    /// `err`, and its own failures converted into the type of `err`.
    fn or_fail_with<F>(self, err: F) -> (r: Over<I, OrFailWith<Self, F>>)
        ensures
            r.parser.parser == self,
            r.parser.err == err,
    {
        Over { parser: OrFailWith { parser: self, err }, input: PhantomData }
    }

    /// This parser with every error, recoverable or permanent, replaced by the permanent
    /// failure that `f` returns.
    fn or_fail_as<G>(self, f: G) -> (r: Over<I, OrFailAs<Self, G>>)
        ensures
            r.parser.parser == self,
            r.parser.f == f,
    {
        Over { parser: OrFailAs { parser: self, f }, input: PhantomData }
    }

    /// This parser with its permanent failures lowered to recoverable errors.
    fn no_fail(self) -> (r: Over<I, NoFail<Self>>)
        ensures
            r.parser.parser == self,
    {
        Over { parser: NoFail { parser: self }, input: PhantomData }
    }

    /// This parser made optional: where it reports a recoverable error, the result is a success
    /// without output on the whole input.
    fn opt(self) -> (r: Over<I, Opt<Self>>)
        ensures
            r.parser.parser == self,
    {
        Over { parser: Opt { parser: self }, input: PhantomData }
    }

    /// This parser with `f` applied to every error that it reports, recoverable or permanent;
    /// `f` decides which of the two the result is.
    fn map_err<G>(self, f: G) -> (r: Over<I, MappedErr<Self, G>>)
        ensures
            r.parser.parser == self,
            r.parser.f == f,
    {
        Over { parser: MappedErr { parser: self, f }, input: PhantomData }
    }

    /// This parser followed by `other`, which runs on what this one left.
    fn and<Other>(self, other: Other) -> (r: Over<I, Chain2<Self, Other>>)
        ensures
            r.parser == (Chain2 { p0: self, p1: other }),
    {
        Over { parser: Chain2 { p0: self, p1: other }, input: PhantomData }
    }

    /// This parser, or `other` on the same input where this one reports a recoverable error.
    fn or<Other>(self, other: Other) -> (r: Over<I, Either2<Self, Other>>)
        ensures
            r.parser == (Either2 { p0: self, p1: other }),
    {
        Over { parser: Either2 { p0: self, p1: other }, input: PhantomData }
    }

    /// This parser with `other` run on its output.
    fn then<Other>(self, other: Other) -> (r: Over<I, Pipe2<Self, Other>>)
        ensures
            r.parser == (Pipe2 { p0: self, p1: other }),
    {
        Over { parser: Pipe2 { p0: self, p1: other }, input: PhantomData }
    }
}

/// A parser marked as one over inputs of type `I`. The methods that make a parser from
/// another one return their result with this mark, so that the type of the input is known
/// from the parser that they were called on.
pub struct Over<I, P> {
    pub parser: P,
    pub input: PhantomData<I>,
}

impl<I, P: Parser<I>> Parser<I> for Over<I, P> {
    type Output = P::Output;

    type Error = P::Error;

    type Failure = P::Failure;

    open spec fn inv(&self) -> bool {
        self.parser.inv()
    }

    open spec fn accepts(&self, input: I, out: P::Output, rest: I) -> bool {
        self.parser.accepts(input, out, rest)
    }

    open spec fn rejects(&self, input: I, e: P::Error) -> bool {
        self.parser.rejects(input, e)
    }

    open spec fn fails(&self, input: I, f: P::Failure) -> bool {
        self.parser.fails(input, f)
    }

    fn parse(&self, input: &I) -> (r: ParserResult<I, P::Output, P::Error, P::Failure>) {
        self.parser.parse(input)
    }
}

/// A function from inputs to results is a parser.
impl<I, O, E, F, T: Fn(&I) -> ParserResult<I, O, E, F>> Parser<I> for T {
    type Output = O;

    type Error = E;

    type Failure = F;

    open spec fn inv(&self) -> bool {
        forall|input: I| #[trigger] self.requires((&input,))
    }

    open spec fn accepts(&self, input: I, out: O, rest: I) -> bool {
        self.ensures((&input,), Ok((out, rest)))
    }

    open spec fn rejects(&self, input: I, e: E) -> bool {
        self.ensures((&input,), Err(ParserError::Error(e)))
    }

    open spec fn fails(&self, input: I, f: F) -> bool {
        self.ensures((&input,), Err(ParserError::Failure(f)))
    }

    fn parse(&self, input: &I) -> (r: ParserResult<I, O, E, F>) {
        self(input)
    }
}

/// A parser with a function applied to its output.
pub struct Mapped<P, G> {
    pub parser: P,
    pub f: G,
}

impl<I, O, P: Parser<I>, G: Fn(P::Output) -> O> Parser<I> for Mapped<P, G> {
    type Output = O;

    type Error = P::Error;

    type Failure = P::Failure;

    open spec fn inv(&self) -> bool {
        &&& self.parser.inv()
        &&& forall|o: P::Output| #[trigger] self.f.requires((o,))
    }

    open spec fn accepts(&self, input: I, out: O, rest: I) -> bool {
        exists|o: P::Output| #[trigger]
            self.parser.accepts(input, o, rest) && self.f.ensures((o,), out)
    }

    open spec fn rejects(&self, input: I, e: P::Error) -> bool {
        self.parser.rejects(input, e)
    }

    open spec fn fails(&self, input: I, f: P::Failure) -> bool {
        self.parser.fails(input, f)
    }

    fn parse(&self, input: &I) -> (r: ParserResult<I, O, P::Error, P::Failure>) {
        match self.parser.parse(input) {
            Ok((o, rest)) => {
                let out = (self.f)(o);
                assert(self.parser.accepts(*input, o, rest) && self.f.ensures((o,), out));
                Ok((out, rest))
            },
            Err(ParserError::Error(e)) => Err(ParserError::Error(e)),
            Err(ParserError::Failure(f)) => Err(ParserError::Failure(f)),
        }
    }
}

/// A parser with a function applied to every error that it reports.
pub struct MappedErr<P, G> {
    pub parser: P,
    pub f: G,
}

/// True when `p` may report `err` on `input`, as a recoverable error or as a permanent
/// failure.
pub open spec fn reports<I, P: Parser<I>>(
    p: P,
    input: I,
    err: ParserError<P::Error, P::Failure>,
) -> bool {
    match err {
        ParserError::Error(e) => p.rejects(input, e),
        ParserError::Failure(f) => p.fails(input, f),
    }
}

impl<
    I,
    E,
    F,
    P: Parser<I>,
    G: Fn(ParserError<P::Error, P::Failure>) -> ParserError<E, F>,
> Parser<I> for MappedErr<P, G> {
    type Output = P::Output;

    type Error = E;

    type Failure = F;

    open spec fn inv(&self) -> bool {
        &&& self.parser.inv()
        &&& forall|err: ParserError<P::Error, P::Failure>| #[trigger] self.f.requires((err,))
    }

    open spec fn accepts(&self, input: I, out: P::Output, rest: I) -> bool {
        self.parser.accepts(input, out, rest)
    }

    open spec fn rejects(&self, input: I, e: E) -> bool {
        exists|inner: ParserError<P::Error, P::Failure>| #[trigger]
            reports(self.parser, input, inner) && self.f.ensures(
                (inner,),
                ParserError::Error(e),
            )
    }

    open spec fn fails(&self, input: I, f: F) -> bool {
        exists|inner: ParserError<P::Error, P::Failure>| #[trigger]
            reports(self.parser, input, inner) && self.f.ensures(
                (inner,),
                ParserError::Failure(f),
            )
    }

    fn parse(&self, input: &I) -> (r: ParserResult<I, P::Output, E, F>) {
        match self.parser.parse(input) {
            Ok(x) => Ok(x),
            Err(inner) => {
                let err = (self.f)(inner);
                assert(reports(self.parser, *input, inner) && self.f.ensures((inner,), err));
                Err(err)
            },
        }
    }
}

/// A parser with a function applied to its recoverable errors.
pub struct MappedErrors<P, G> {
    pub parser: P,
    pub f: G,
}

impl<I, E, P: Parser<I>, G: Fn(P::Error) -> E> Parser<I> for MappedErrors<P, G> {
    type Output = P::Output;

    type Error = E;

    type Failure = P::Failure;

    open spec fn inv(&self) -> bool {
        &&& self.parser.inv()
        &&& forall|e: P::Error| #[trigger] self.f.requires((e,))
    }

    open spec fn accepts(&self, input: I, out: P::Output, rest: I) -> bool {
        self.parser.accepts(input, out, rest)
    }

    open spec fn rejects(&self, input: I, e: E) -> bool {
        exists|inner: P::Error| #[trigger]
            self.parser.rejects(input, inner) && self.f.ensures((inner,), e)
    }

    open spec fn fails(&self, input: I, f: P::Failure) -> bool {
        self.parser.fails(input, f)
    }

    fn parse(&self, input: &I) -> (r: ParserResult<I, P::Output, E, P::Failure>) {
        match self.parser.parse(input) {
            Ok(x) => Ok(x),
            Err(ParserError::Error(inner)) => {
                let e = (self.f)(inner);
                assert(self.parser.rejects(*input, inner) && self.f.ensures((inner,), e));
                Err(ParserError::Error(e))
            },
            Err(ParserError::Failure(f)) => Err(ParserError::Failure(f)),
        }
    }
}

/// A parser with a function applied to its permanent failures.
pub struct MappedFailures<P, G> {
    pub parser: P,
    pub f: G,
}

impl<I, F, P: Parser<I>, G: Fn(P::Failure) -> F> Parser<I> for MappedFailures<P, G> {
    type Output = P::Output;

    type Error = P::Error;

    type Failure = F;

    open spec fn inv(&self) -> bool {
        &&& self.parser.inv()
        &&& forall|f: P::Failure| #[trigger] self.f.requires((f,))
    }

    open spec fn accepts(&self, input: I, out: P::Output, rest: I) -> bool {
        self.parser.accepts(input, out, rest)
    }

    open spec fn rejects(&self, input: I, e: P::Error) -> bool {
        self.parser.rejects(input, e)
    }

    open spec fn fails(&self, input: I, f: F) -> bool {
        exists|inner: P::Failure| #[trigger]
            self.parser.fails(input, inner) && self.f.ensures((inner,), f)
    }

    fn parse(&self, input: &I) -> (r: ParserResult<I, P::Output, P::Error, F>) {
        match self.parser.parse(input) {
            Ok(x) => Ok(x),
            Err(ParserError::Error(e)) => Err(ParserError::Error(e)),
            Err(ParserError::Failure(inner)) => {
                let f = (self.f)(inner);
                assert(self.parser.fails(*input, inner) && self.f.ensures((inner,), f));
                Err(ParserError::Failure(f))
            },
        }
    }
}

/// A parser with its output, recoverable errors and permanent failures converted into other
/// types.
pub struct Converted<P, O, E, F> {
    pub parser: P,
    pub target: PhantomData<(O, E, F)>,
}

impl<I, O: From<P::Output>, E: From<P::Error>, F: From<P::Failure>, P: Parser<I>> Parser<
    I,
> for Converted<P, O, E, F> {
    type Output = O;

    type Error = E;

    type Failure = F;

    open spec fn inv(&self) -> bool {
        self.parser.inv()
    }

    open spec fn accepts(&self, input: I, out: O, rest: I) -> bool {
        exists|inner: P::Output| #[trigger]
            self.parser.accepts(input, inner, rest) && call_ensures(O::from, (inner,), out)
    }

    open spec fn rejects(&self, input: I, e: E) -> bool {
        exists|inner: P::Error| #[trigger]
            self.parser.rejects(input, inner) && call_ensures(E::from, (inner,), e)
    }

    open spec fn fails(&self, input: I, f: F) -> bool {
        exists|inner: P::Failure| #[trigger]
            self.parser.fails(input, inner) && call_ensures(F::from, (inner,), f)
    }

    fn parse(&self, input: &I) -> (r: ParserResult<I, O, E, F>) {
        match self.parser.parse(input) {
            Ok((inner, rest)) => {
                let out = O::from(inner);
                assert(self.parser.accepts(*input, inner, rest) && call_ensures(
                    O::from,
                    (inner,),
                    out,
                ));
                Ok((out, rest))
            },
            Err(ParserError::Error(inner)) => {
                let e = E::from(inner);
                assert(self.parser.rejects(*input, inner) && call_ensures(E::from, (inner,), e));
                Err(ParserError::Error(e))
            },
            Err(ParserError::Failure(inner)) => {
                let f = F::from(inner);
                assert(self.parser.fails(*input, inner) && call_ensures(F::from, (inner,), f));
                Err(ParserError::Failure(f))
            },
        }
    }
}

/// A parser with its output converted into another type.
pub struct ConvertedOutput<P, O> {
    pub parser: P,
    pub target: PhantomData<O>,
}

impl<I, O: From<P::Output>, P: Parser<I>> Parser<I> for ConvertedOutput<P, O> {
    type Output = O;

    type Error = P::Error;

    type Failure = P::Failure;

    open spec fn inv(&self) -> bool {
        self.parser.inv()
    }

    open spec fn accepts(&self, input: I, out: O, rest: I) -> bool {
        exists|inner: P::Output| #[trigger]
            self.parser.accepts(input, inner, rest) && call_ensures(O::from, (inner,), out)
    }

    open spec fn rejects(&self, input: I, e: P::Error) -> bool {
        self.parser.rejects(input, e)
    }

    open spec fn fails(&self, input: I, f: P::Failure) -> bool {
        self.parser.fails(input, f)
    }

    fn parse(&self, input: &I) -> (r: ParserResult<I, O, P::Error, P::Failure>) {
        match self.parser.parse(input) {
            Ok((inner, rest)) => {
                let out = O::from(inner);
                assert(self.parser.accepts(*input, inner, rest) && call_ensures(
                    O::from,
                    (inner,),
                    out,
                ));
                Ok((out, rest))
            },
            Err(ParserError::Error(e)) => Err(ParserError::Error(e)),
            Err(ParserError::Failure(f)) => Err(ParserError::Failure(f)),
        }
    }
}

/// A parser with its recoverable errors converted into another type.
pub struct ConvertedError<P, E> {
    pub parser: P,
    pub target: PhantomData<E>,
}

impl<I, E: From<P::Error>, P: Parser<I>> Parser<I> for ConvertedError<P, E> {
    type Output = P::Output;

    type Error = E;

    type Failure = P::Failure;

    open spec fn inv(&self) -> bool {
        self.parser.inv()
    }

    open spec fn accepts(&self, input: I, out: P::Output, rest: I) -> bool {
        self.parser.accepts(input, out, rest)
    }

    open spec fn rejects(&self, input: I, e: E) -> bool {
        exists|inner: P::Error| #[trigger]
            self.parser.rejects(input, inner) && call_ensures(E::from, (inner,), e)
    }

    open spec fn fails(&self, input: I, f: P::Failure) -> bool {
        self.parser.fails(input, f)
    }

    fn parse(&self, input: &I) -> (r: ParserResult<I, P::Output, E, P::Failure>) {
        match self.parser.parse(input) {
            Ok(x) => Ok(x),
            Err(ParserError::Error(inner)) => {
                let e = E::from(inner);
                assert(self.parser.rejects(*input, inner) && call_ensures(E::from, (inner,), e));
                Err(ParserError::Error(e))
            },
            Err(ParserError::Failure(f)) => Err(ParserError::Failure(f)),
        }
    }
}

/// A parser with its permanent failures converted into another type.
pub struct ConvertedFailure<P, F> {
    pub parser: P,
    pub target: PhantomData<F>,
}

impl<I, F: From<P::Failure>, P: Parser<I>> Parser<I> for ConvertedFailure<P, F> {
    type Output = P::Output;

    type Error = P::Error;

    type Failure = F;

    open spec fn inv(&self) -> bool {
        self.parser.inv()
    }

    open spec fn accepts(&self, input: I, out: P::Output, rest: I) -> bool {
        self.parser.accepts(input, out, rest)
    }

    open spec fn rejects(&self, input: I, e: P::Error) -> bool {
        self.parser.rejects(input, e)
    }

    open spec fn fails(&self, input: I, f: F) -> bool {
        exists|inner: P::Failure| #[trigger]
            self.parser.fails(input, inner) && call_ensures(F::from, (inner,), f)
    }

    fn parse(&self, input: &I) -> (r: ParserResult<I, P::Output, P::Error, F>) {
        match self.parser.parse(input) {
            Ok(x) => Ok(x),
            Err(ParserError::Error(e)) => Err(ParserError::Error(e)),
            Err(ParserError::Failure(inner)) => {
                let f = F::from(inner);
                assert(self.parser.fails(*input, inner) && call_ensures(F::from, (inner,), f));
                Err(ParserError::Failure(f))
            },
        }
    }
}

/// A parser with every recoverable error replaced by a clone of a fixed one.
pub struct WithError<P, E> {
    pub parser: P,
    pub err: E,
}

impl<I, E: Clone, P: Parser<I>> Parser<I> for WithError<P, E> {
    type Output = P::Output;

    type Error = E;

    type Failure = P::Failure;

    open spec fn inv(&self) -> bool {
        self.parser.inv()
    }

    open spec fn accepts(&self, input: I, out: P::Output, rest: I) -> bool {
        self.parser.accepts(input, out, rest)
    }

    open spec fn rejects(&self, input: I, e: E) -> bool {
        &&& exists|inner: P::Error| self.parser.rejects(input, inner)
        &&& cloned(self.err, e)
    }

    open spec fn fails(&self, input: I, f: P::Failure) -> bool {
        self.parser.fails(input, f)
    }

    fn parse(&self, input: &I) -> (r: ParserResult<I, P::Output, E, P::Failure>) {
        match self.parser.parse(input) {
            Ok(x) => Ok(x),
            Err(ParserError::Error(inner)) => {
                assert(self.parser.rejects(*input, inner));
                Err(ParserError::Error(self.err.clone()))
            },
            Err(ParserError::Failure(f)) => Err(ParserError::Failure(f)),
        }
    }
}

/// A parser with every recoverable error replaced by what a function returns.
pub struct WithErrorAs<P, G> {
    pub parser: P,
    pub f: G,
}

impl<I, E, P: Parser<I>, G: Fn() -> E> Parser<I> for WithErrorAs<P, G> {
    type Output = P::Output;

    type Error = E;

    type Failure = P::Failure;

    open spec fn inv(&self) -> bool {
        &&& self.parser.inv()
        &&& self.f.requires(())
    }

    open spec fn accepts(&self, input: I, out: P::Output, rest: I) -> bool {
        self.parser.accepts(input, out, rest)
    }

    open spec fn rejects(&self, input: I, e: E) -> bool {
        &&& exists|inner: P::Error| self.parser.rejects(input, inner)
        &&& self.f.ensures((), e)
    }

    open spec fn fails(&self, input: I, f: P::Failure) -> bool {
        self.parser.fails(input, f)
    }

    fn parse(&self, input: &I) -> (r: ParserResult<I, P::Output, E, P::Failure>) {
        match self.parser.parse(input) {
            Ok(x) => Ok(x),
            Err(ParserError::Error(inner)) => {
                assert(self.parser.rejects(*input, inner));
                Err(ParserError::Error((self.f)()))
            },
            Err(ParserError::Failure(f)) => Err(ParserError::Failure(f)),
        }
    }
}

/// A parser with every permanent failure replaced by a clone of a fixed one.
pub struct WithFailure<P, F> {
    pub parser: P,
    pub err: F,
}

impl<I, F: Clone, P: Parser<I>> Parser<I> for WithFailure<P, F> {
    type Output = P::Output;

    type Error = P::Error;

    type Failure = F;

    open spec fn inv(&self) -> bool {
        self.parser.inv()
    }

    open spec fn accepts(&self, input: I, out: P::Output, rest: I) -> bool {
        self.parser.accepts(input, out, rest)
    }

    open spec fn rejects(&self, input: I, e: P::Error) -> bool {
        self.parser.rejects(input, e)
    }

    open spec fn fails(&self, input: I, f: F) -> bool {
        &&& exists|inner: P::Failure| self.parser.fails(input, inner)
        &&& cloned(self.err, f)
    }

    fn parse(&self, input: &I) -> (r: ParserResult<I, P::Output, P::Error, F>) {
        match self.parser.parse(input) {
            Ok(x) => Ok(x),
            Err(ParserError::Error(e)) => Err(ParserError::Error(e)),
            Err(ParserError::Failure(inner)) => {
                assert(self.parser.fails(*input, inner));
                Err(ParserError::Failure(self.err.clone()))
            },
        }
    }
}

/// A parser with every permanent failure replaced by what a function returns.
pub struct WithFailureAs<P, G> {
    pub parser: P,
    pub f: G,
}

impl<I, F, P: Parser<I>, G: Fn() -> F> Parser<I> for WithFailureAs<P, G> {
    type Output = P::Output;

    type Error = P::Error;

    type Failure = F;

    open spec fn inv(&self) -> bool {
        &&& self.parser.inv()
        &&& self.f.requires(())
    }

    open spec fn accepts(&self, input: I, out: P::Output, rest: I) -> bool {
        self.parser.accepts(input, out, rest)
    }

    open spec fn rejects(&self, input: I, e: P::Error) -> bool {
        self.parser.rejects(input, e)
    }

    open spec fn fails(&self, input: I, f: F) -> bool {
        &&& exists|inner: P::Failure| self.parser.fails(input, inner)
        &&& self.f.ensures((), f)
    }

    fn parse(&self, input: &I) -> (r: ParserResult<I, P::Output, P::Error, F>) {
        match self.parser.parse(input) {
            Ok(x) => Ok(x),
            Err(ParserError::Error(e)) => Err(ParserError::Error(e)),
            Err(ParserError::Failure(inner)) => {
                assert(self.parser.fails(*input, inner));
                Err(ParserError::Failure((self.f)()))
            },
        }
    }
}

/// A parser with every output replaced by a clone of a fixed one.
pub struct WithOutput<P, O> {
    pub parser: P,
    pub output: O,
}

impl<I, O: Clone, P: Parser<I>> Parser<I> for WithOutput<P, O> {
    type Output = O;

    type Error = P::Error;

    type Failure = P::Failure;

    open spec fn inv(&self) -> bool {
        self.parser.inv()
    }

    open spec fn accepts(&self, input: I, out: O, rest: I) -> bool {
        &&& exists|inner: P::Output| self.parser.accepts(input, inner, rest)
        &&& cloned(self.output, out)
    }

    open spec fn rejects(&self, input: I, e: P::Error) -> bool {
        self.parser.rejects(input, e)
    }

    open spec fn fails(&self, input: I, f: P::Failure) -> bool {
        self.parser.fails(input, f)
    }

    fn parse(&self, input: &I) -> (r: ParserResult<I, O, P::Error, P::Failure>) {
        match self.parser.parse(input) {
            Ok((inner, rest)) => {
                assert(self.parser.accepts(*input, inner, rest));
                Ok((self.output.clone(), rest))
            },
            Err(ParserError::Error(e)) => Err(ParserError::Error(e)),
            Err(ParserError::Failure(f)) => Err(ParserError::Failure(f)),
        }
    }
}

/// A parser with its recoverable errors raised to permanent failures.
pub struct OrFail<P> {
    pub parser: P,
}

impl<I, P: Parser<I>> Parser<I> for OrFail<P> where P::Failure: From<P::Error> {
    type Output = P::Output;

    type Error = P::Error;

    type Failure = P::Failure;

    open spec fn inv(&self) -> bool {
        self.parser.inv()
    }

    open spec fn accepts(&self, input: I, out: P::Output, rest: I) -> bool {
        self.parser.accepts(input, out, rest)
    }

    open spec fn rejects(&self, input: I, e: P::Error) -> bool {
        false
    }

    open spec fn fails(&self, input: I, f: P::Failure) -> bool {
        ||| self.parser.fails(input, f)
        ||| exists|e: P::Error| #[trigger]
            self.parser.rejects(input, e) && call_ensures(
                <P::Failure as From<P::Error>>::from,
                (e,),
                f,
            )
    }

    fn parse(&self, input: &I) -> (r: ParserResult<I, P::Output, P::Error, P::Failure>) {
        match self.parser.parse(input) {
            Ok(x) => Ok(x),
            Err(ParserError::Error(e)) => {
                let f = <P::Failure as From<P::Error>>::from(e);
                assert(self.parser.rejects(*input, e) && call_ensures(
                    <P::Failure as From<P::Error>>::from,
                    (e,),
                    f,
                ));
                Err(ParserError::Failure(f))
            },
            Err(ParserError::Failure(f)) => Err(ParserError::Failure(f)),
        }
    }
}

/// A parser with its recoverable errors raised to a clone of a fixed permanent failure.
pub struct OrFailWith<P, F> {
    pub parser: P,
    pub err: F,
}

impl<I, P: Parser<I>, F: Clone + From<P::Failure>> Parser<I> for OrFailWith<P, F> {
    type Output = P::Output;

    type Error = P::Error;

    type Failure = F;

    open spec fn inv(&self) -> bool {
        self.parser.inv()
    }

    open spec fn accepts(&self, input: I, out: P::Output, rest: I) -> bool {
        self.parser.accepts(input, out, rest)
    }

    open spec fn rejects(&self, input: I, e: P::Error) -> bool {
        false
    }

    open spec fn fails(&self, input: I, f: F) -> bool {
        ||| (exists|e: P::Error| self.parser.rejects(input, e)) && cloned(self.err, f)
        ||| exists|inner: P::Failure| #[trigger]
            self.parser.fails(input, inner) && call_ensures(F::from, (inner,), f)
    }

    fn parse(&self, input: &I) -> (r: ParserResult<I, P::Output, P::Error, F>) {
        match self.parser.parse(input) {
            Ok(x) => Ok(x),
            Err(ParserError::Error(e)) => {
                assert(self.parser.rejects(*input, e));
                Err(ParserError::Failure(self.err.clone()))
            },
            Err(ParserError::Failure(inner)) => {
                let f = F::from(inner);
                assert(self.parser.fails(*input, inner) && call_ensures(F::from, (inner,), f));
                Err(ParserError::Failure(f))
            },
        }
    }
}

/// A parser with every error replaced by the permanent failure that a function returns.
pub struct OrFailAs<P, G> {
    pub parser: P,
    pub f: G,
}

impl<I, F, P: Parser<I>, G: Fn() -> F> Parser<I> for OrFailAs<P, G> {
    type Output = P::Output;

    type Error = P::Error;

    type Failure = F;

    open spec fn inv(&self) -> bool {
        &&& self.parser.inv()
        &&& self.f.requires(())
    }

    open spec fn accepts(&self, input: I, out: P::Output, rest: I) -> bool {
        self.parser.accepts(input, out, rest)
    }

    open spec fn rejects(&self, input: I, e: P::Error) -> bool {
        false
    }

    open spec fn fails(&self, input: I, f: F) -> bool {
        &&& (exists|e: P::Error| self.parser.rejects(input, e)) || (exists|inner: P::Failure|
            self.parser.fails(input, inner))
        &&& self.f.ensures((), f)
    }

    fn parse(&self, input: &I) -> (r: ParserResult<I, P::Output, P::Error, F>) {
        match self.parser.parse(input) {
            Ok(x) => Ok(x),
            Err(ParserError::Error(e)) => {
                assert(self.parser.rejects(*input, e));
                Err(ParserError::Failure((self.f)()))
            },
            Err(ParserError::Failure(inner)) => {
                assert(self.parser.fails(*input, inner));
                Err(ParserError::Failure((self.f)()))
            },
        }
    }
}

/// A parser with its permanent failures lowered to recoverable errors.
pub struct NoFail<P> {
    pub parser: P,
}

impl<I, P: Parser<I>> Parser<I> for NoFail<P> where P::Error: From<P::Failure> {
    type Output = P::Output;

    type Error = P::Error;

    type Failure = Never;

    open spec fn inv(&self) -> bool {
        self.parser.inv()
    }

    open spec fn accepts(&self, input: I, out: P::Output, rest: I) -> bool {
        self.parser.accepts(input, out, rest)
    }

    open spec fn rejects(&self, input: I, e: P::Error) -> bool {
        ||| self.parser.rejects(input, e)
        ||| exists|f: P::Failure| #[trigger]
            self.parser.fails(input, f) && call_ensures(
                <P::Error as From<P::Failure>>::from,
                (f,),
                e,
            )
    }

    open spec fn fails(&self, input: I, f: Never) -> bool {
        false
    }

    fn parse(&self, input: &I) -> (r: ParserResult<I, P::Output, P::Error, Never>) {
        match self.parser.parse(input) {
            Ok(x) => Ok(x),
            Err(ParserError::Error(e)) => Err(ParserError::Error(e)),
            Err(ParserError::Failure(f)) => {
                let e = <P::Error as From<P::Failure>>::from(f);
                assert(self.parser.fails(*input, f) && call_ensures(
                    <P::Error as From<P::Failure>>::from,
                    (f,),
                    e,
                ));
                Err(ParserError::Error(e))
            },
        }
    }
}

/// A parser made optional.
pub struct Opt<P> {
    pub parser: P,
}

impl<I: Clone, P: Parser<I>> Parser<I> for Opt<P> {
    type Output = Option<P::Output>;

    type Error = P::Error;

    type Failure = P::Failure;

    open spec fn inv(&self) -> bool {
        self.parser.inv()
    }

    open spec fn accepts(&self, input: I, out: Option<P::Output>, rest: I) -> bool {
        match out {
            Some(o) => self.parser.accepts(input, o, rest),
            None => (exists|e: P::Error| self.parser.rejects(input, e)) && cloned(input, rest),
        }
    }

    open spec fn rejects(&self, input: I, e: P::Error) -> bool {
        false
    }

    open spec fn fails(&self, input: I, f: P::Failure) -> bool {
        self.parser.fails(input, f)
    }

    fn parse(&self, input: &I) -> (r: ParserResult<I, Option<P::Output>, P::Error, P::Failure>) {
        match self.parser.parse(input) {
            Ok((o, rest)) => Ok((Some(o), rest)),
            Err(ParserError::Error(e)) => {
                assert(self.parser.rejects(*input, e));
                Ok((None, input.clone()))
            },
            Err(ParserError::Failure(f)) => Err(ParserError::Failure(f)),
        }
    }
}

} // verus!
