//! Options and pairs read as results of parsers.
use crate::input::Input;
use crate::parse::{
    Incomplete, Never, NotFound, ParserError, ParserResult, StreamingError, StreamingOk,
    StreamingResult,
};
use vstd::prelude::*;

verus! {

/// A match that may be missing, read as the result of a parser.
pub trait OrNotFound<I, O> {
    /// The match as a success; a missing one as the recoverable error [`NotFound`].
    fn ok_or_not_found(self) -> (r: ParserResult<I, O>);
}

impl<I, O> OrNotFound<I, O> for Option<(O, I)> {
    fn ok_or_not_found(self) -> (r: ParserResult<I, O>)
        ensures
            r == match self {
                Some(p) => Ok::<(O, I), ParserError<NotFound, Never>>(p),
                None => Err(ParserError::Error(NotFound)),
            },
    {
        match self {
            Some(p) => Ok(p),
            None => Err(ParserError::Error(NotFound)),
        }
    }
}

/// A match that may be missing, read as the result of a parser that fails without one.
pub trait OrFail<I, O, F> {
    /// The match as a success; a missing one as the permanent failure that is the default
    /// value of `F`.
    fn ok_or_fail(self) -> (r: ParserResult<I, O, Never, F>);
}

impl<I, O, F: Default> OrFail<I, O, F> for Option<(O, I)> {
    fn ok_or_fail(self) -> (r: ParserResult<I, O, Never, F>)
        ensures
            match r {
                Ok(p) => self == Some(p),
                Err(ParserError::Failure(f)) => self is None && call_ensures(F::default, (), f),
                Err(ParserError::Error(_)) => false,
            },
    {
        match self {
            Some(p) => Ok(p),
            None => Err(ParserError::Failure(F::default())),
        }
    }
}

/// A streaming match that may be missing, read as the result of a streaming parser.
pub trait StreamingOrNotFound<I, O> {
    /// The match as a success; a missing one as the recoverable error [`NotFound`].
    fn ok_or_not_found(self) -> (r: StreamingResult<I, O>);
}

impl<I, O> StreamingOrNotFound<I, O> for Option<StreamingOk<I, O>> {
    fn ok_or_not_found(self) -> (r: StreamingResult<I, O>)
        ensures
            r == match self {
                Some(p) => Ok::<StreamingOk<I, O>, StreamingError<NotFound, Never>>(p),
                None => Err(StreamingError::Error(NotFound)),
            },
    {
        match self {
            Some(p) => Ok(p),
            None => Err(StreamingError::Error(NotFound)),
        }
    }
}

/// A streaming match that may be missing, read as the result of a streaming parser that needs
/// more input without one.
pub trait OrIncomplete<I, O> {
    /// The match as a success; a missing one as the need for more input.
    fn ok_or_incomplete(self) -> (r: StreamingResult<I, O, Never, Incomplete>);
}

impl<I, O> OrIncomplete<I, O> for Option<StreamingOk<I, O>> {
    fn ok_or_incomplete(self) -> (r: StreamingResult<I, O, Never, Incomplete>)
        ensures
            r == match self {
                Some(p) => Ok::<StreamingOk<I, O>, StreamingError<Never, Incomplete>>(p),
                None => Err(StreamingError::Incomplete(Incomplete)),
            },
    {
        match self {
            Some(p) => Ok(p),
            None => Err(StreamingError::Incomplete(Incomplete)),
        }
    }
}

/// A match that can be marked as settled or as open to more input.
pub trait CompleteIf<I, O>: Sized {
    /// The output of the match.
    spec fn output(&self) -> O;

    /// The input that the match left.
    spec fn remaining(&self) -> I;

    /// The match, settled where `f` says so of its output and of what it left, else open to
    /// more input.
    fn as_complete_if<Func: Fn(&O, &I) -> bool>(self, f: Func) -> (r: StreamingOk<I, O>)
        requires
            f.requires((&self.output(), &self.remaining())),
        ensures
            r.output() == self.output(),
            r.remaining() == self.remaining(),
            f.ensures((&self.output(), &self.remaining()), r is Complete),
    ;

    /// The match, settled.
    fn as_complete(self) -> (r: StreamingOk<I, O>)
        ensures
            r == StreamingOk::Complete(self.output(), self.remaining()),
    {
        let yes = |o: &O, i: &I| -> (b: bool)
            ensures
                b,
            { true };
        self.as_complete_if(yes)
    }

    /// The match, open to more input.
    fn as_partial(self) -> (r: StreamingOk<I, O>)
        ensures
            r == StreamingOk::Partial(self.output(), self.remaining()),
    {
        let no = |o: &O, i: &I| -> (b: bool)
            ensures
                !b,
            { false };
        self.as_complete_if(no)
    }

    /// The match, settled where it left input, else open to more input: a match that reaches
    /// the end of the input could go on.
    fn has_stopped(self) -> (r: StreamingOk<I, O>) where I: Input
        ensures
            r.output() == self.output(),
            r.remaining() == self.remaining(),
            r is Complete <==> self.remaining().text().len() > 0,
    {
        let left = |o: &O, i: &I| -> (b: bool)
            ensures
                b == (i.text().len() > 0),
            { !i.is_empty() };
        self.as_complete_if(left)
    }
}

impl<I, O> CompleteIf<I, O> for (O, I) {
    open spec fn output(&self) -> O {
        self.0
    }

    open spec fn remaining(&self) -> I {
        self.1
    }

    fn as_complete_if<Func: Fn(&O, &I) -> bool>(self, f: Func) -> (r: StreamingOk<I, O>) {
        let (output, remaining) = self;
        if f(&output, &remaining) {
            StreamingOk::Complete(output, remaining)
        } else {
            StreamingOk::Partial(output, remaining)
        }
    }
}

impl<I, O> CompleteIf<I, O> for StreamingOk<I, O> {
    open spec fn output(&self) -> O {
        StreamingOk::output(self)
    }

    open spec fn remaining(&self) -> I {
        StreamingOk::remaining(self)
    }

    fn as_complete_if<Func: Fn(&O, &I) -> bool>(self, f: Func) -> (r: StreamingOk<I, O>) {
        match self {
            StreamingOk::Complete(o, r) => (o, r).as_complete_if(f),
            StreamingOk::Partial(o, r) => (o, r).as_complete_if(f),
        }
    }
}

/// A match that may be missing and can be marked as settled or as open to more input.
pub trait MaybeCompleteIf<I, O>: Sized {
    /// The match, if there is one: its output and what it left.
    spec fn found(&self) -> Option<(O, I)>;

    /// The match, if there is one, settled where `f` says so of its output and of what it
    /// left, else open to more input.
    fn as_complete_if<Func: Fn(&O, &I) -> bool>(self, f: Func) -> (r: Option<StreamingOk<I, O>>)
        requires
            self.found() matches Some(p) ==> f.requires((&p.0, &p.1)),
        ensures
            r is Some == self.found() is Some,
            r matches Some(ok) ==> {
                &&& self.found() == Some((ok.output(), ok.remaining()))
                &&& f.ensures((&ok.output(), &ok.remaining()), ok is Complete)
            },
    ;

    /// The match, if there is one, settled.
    fn as_complete(self) -> (r: Option<StreamingOk<I, O>>)
        ensures
            r == match self.found() {
                Some(p) => Some(StreamingOk::Complete(p.0, p.1)),
                None => None,
            },
    {
        let yes = |o: &O, i: &I| -> (b: bool)
            ensures
                b,
            { true };
        self.as_complete_if(yes)
    }

    /// The match, if there is one, open to more input.
    fn as_partial(self) -> (r: Option<StreamingOk<I, O>>)
        ensures
            r == match self.found() {
                Some(p) => Some(StreamingOk::Partial(p.0, p.1)),
                None => None,
            },
    {
        let no = |o: &O, i: &I| -> (b: bool)
            ensures
                !b,
            { false };
        self.as_complete_if(no)
    }

    /// The match, if there is one, settled where it left input, else open to more input.
    fn has_stopped(self) -> (r: Option<StreamingOk<I, O>>) where I: Input
        ensures
            r is Some == self.found() is Some,
            r matches Some(ok) ==> {
                &&& self.found() == Some((ok.output(), ok.remaining()))
                &&& ok is Complete <==> ok.remaining().text().len() > 0
            },
    {
        let left = |o: &O, i: &I| -> (b: bool)
            ensures
                b == (i.text().len() > 0),
            { !i.is_empty() };
        self.as_complete_if(left)
    }
}

impl<I, O> MaybeCompleteIf<I, O> for Option<(O, I)> {
    open spec fn found(&self) -> Option<(O, I)> {
        *self
    }

    fn as_complete_if<Func: Fn(&O, &I) -> bool>(self, f: Func) -> (r: Option<StreamingOk<I, O>>) {
        match self {
            Some(p) => Some(p.as_complete_if(f)),
            None => None,
        }
    }
}

/// The result of a parser, which can be marked as settled or as open to more input.
pub trait EitherCompleteIf<I, O, E, F>: Sized {
    /// The success of the result, if it is one: its output and what it left.
    spec fn found(&self) -> Option<(O, I)>;

    /// The error of the result, if it is one, as the error of a streaming parser.
    spec fn error(&self) -> Option<StreamingError<E, F>>;

    /// The result as the result of a streaming parser: a success is settled where `f` says so
    /// of its output and of what it left, else open to more input.
    fn as_complete_if<Func: Fn(&O, &I) -> bool>(self, f: Func) -> (r: StreamingResult<I, O, E, F>)
        requires
            self.found() matches Some(p) ==> f.requires((&p.0, &p.1)),
        ensures
            match r {
                Ok(ok) => {
                    &&& self.found() == Some((ok.output(), ok.remaining()))
                    &&& f.ensures((&ok.output(), &ok.remaining()), ok is Complete)
                },
                Err(e) => self.found() is None && self.error() == Some(e),
            },
    ;

    /// The result as the result of a streaming parser, with a success settled.
    fn as_complete(self) -> (r: StreamingResult<I, O, E, F>)
        ensures
            match r {
                Ok(ok) => self.found() == Some((ok.output(), ok.remaining())) && ok is Complete,
                Err(e) => self.found() is None && self.error() == Some(e),
            },
    {
        let yes = |o: &O, i: &I| -> (b: bool)
            ensures
                b,
            { true };
        self.as_complete_if(yes)
    }

    /// The result as the result of a streaming parser, with a success open to more input.
    fn as_partial(self) -> (r: StreamingResult<I, O, E, F>)
        ensures
            match r {
                Ok(ok) => self.found() == Some((ok.output(), ok.remaining())) && ok is Partial,
                Err(e) => self.found() is None && self.error() == Some(e),
            },
    {
        let no = |o: &O, i: &I| -> (b: bool)
            ensures
                !b,
            { false };
        self.as_complete_if(no)
    }

    /// The result as the result of a streaming parser, with a success settled where it left
    /// input, else open to more input.
    fn has_stopped(self) -> (r: StreamingResult<I, O, E, F>) where I: Input
        ensures
            match r {
                Ok(ok) => {
                    &&& self.found() == Some((ok.output(), ok.remaining()))
                    &&& ok is Complete <==> ok.remaining().text().len() > 0
                },
                Err(e) => self.found() is None && self.error() == Some(e),
            },
    {
        let left = |o: &O, i: &I| -> (b: bool)
            ensures
                b == (i.text().len() > 0),
            { !i.is_empty() };
        self.as_complete_if(left)
    }
}

impl<I, O, E, F> EitherCompleteIf<I, O, E, F> for ParserResult<I, O, E, F> {
    open spec fn found(&self) -> Option<(O, I)> {
        match *self {
            Ok(p) => Some(p),
            Err(_) => None,
        }
    }

    open spec fn error(&self) -> Option<StreamingError<E, F>> {
        match *self {
            Ok(_) => None,
            Err(ParserError::Error(e)) => Some(StreamingError::Error(e)),
            Err(ParserError::Failure(f)) => Some(StreamingError::Failure(f)),
        }
    }

    fn as_complete_if<Func: Fn(&O, &I) -> bool>(self, f: Func) -> (r: StreamingResult<I, O, E, F>) {
        match self {
            Ok(p) => Ok(p.as_complete_if(f)),
            Err(ParserError::Error(e)) => Err(StreamingError::Error(e)),
            Err(ParserError::Failure(e)) => Err(StreamingError::Failure(e)),
        }
    }
}

impl<I, O, E, F> EitherCompleteIf<I, O, E, F> for StreamingResult<I, O, E, F> {
    open spec fn found(&self) -> Option<(O, I)> {
        match *self {
            Ok(ok) => Some((ok.output(), ok.remaining())),
            Err(_) => None,
        }
    }

    open spec fn error(&self) -> Option<StreamingError<E, F>> {
        match *self {
            Ok(_) => None,
            Err(e) => Some(e),
        }
    }

    fn as_complete_if<Func: Fn(&O, &I) -> bool>(self, f: Func) -> (r: StreamingResult<I, O, E, F>) {
        match self {
            Ok(ok) => Ok(ok.as_complete_if(f)),
            Err(e) => Err(e),
        }
    }
}

/// The result of a streaming parser, read where a match that is open to more input cannot be
/// used.
pub trait NoPartial<I, O, E, F> {
    /// The result with a match that is open to more input turned into a permanent failure.
    fn no_partial(self) -> (r: StreamingResult<I, O, E, F>);
}

impl<I, O, E, F: From<Incomplete>> NoPartial<I, O, E, F> for StreamingResult<I, O, E, F> {
    fn no_partial(self) -> (r: StreamingResult<I, O, E, F>)
        ensures
            match self {
                Ok(StreamingOk::Complete(o, rest)) => r == Ok::<
                    StreamingOk<I, O>,
                    StreamingError<E, F>,
                >(StreamingOk::Complete(o, rest)),
                Ok(StreamingOk::Partial(_, _)) => r matches Err(StreamingError::Failure(f))
                    && call_ensures(F::from, (Incomplete,), f),
                Err(e) => r == Err::<StreamingOk<I, O>, StreamingError<E, F>>(e),
            },
    {
        match self {
            Ok(StreamingOk::Complete(o, r)) => Ok(StreamingOk::Complete(o, r)),
            Ok(StreamingOk::Partial(_, _)) => Err(StreamingError::Failure(F::from(Incomplete))),
            Err(e) => Err(e),
        }
    }
}

} // verus!
