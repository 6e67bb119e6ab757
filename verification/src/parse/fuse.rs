//! The span that a sequence of parsers matched.
//!
//! Fusing runs a sequence only to learn how long its outputs are, and then cuts that many
//! bytes from the start of the input: the output is one view of the input, and no text is
//! copied.
use crate::input::{is_split, Input};
use crate::parse::sequence::Sequence;
use crate::parse::streaming::StreamingOk;
use crate::parse::{NotFound, Parser, ParserError, ParserResult};
use crate::text::{on_boundary, utf8_len};
use vstd::prelude::*;

verus! {

/// `n`, or the largest `usize` where `n` is above it.
pub open spec fn capped(n: nat) -> nat {
    if n > usize::MAX {
        usize::MAX as nat
    } else {
        n
    }
}

/// The sum of `a` and `b`, or the largest `usize` where the sum is above it.
pub fn capped_sum(a: usize, b: usize) -> (n: usize)
    ensures
        n == capped((a + b) as nat),
{
    if a > usize::MAX - b {
        usize::MAX
    } else {
        a + b
    }
}

/// An output with a length: the number of bytes of input that it stands for.
pub trait Fusable {
    /// The length of the output in bytes. The length of several outputs is the sum of their
    /// lengths, and the largest `usize` where the sum is above it.
    spec fn fused_len(&self) -> nat;

    /// The length of the output in bytes.
    fn len(&self) -> (n: usize)
        ensures
            n == self.fused_len(),
    ;
}

impl<I: Input> Fusable for I {
    open spec fn fused_len(&self) -> nat {
        utf8_len(self.text())
    }

    fn len(&self) -> (n: usize) {
        Input::len(self)
    }
}

impl<I: Input> Fusable for Option<I> {
    open spec fn fused_len(&self) -> nat {
        match self {
            Some(x) => utf8_len(x.text()),
            None => 0,
        }
    }

    fn len(&self) -> (n: usize) {
        match self {
            Some(x) => Input::len(x),
            None => 0,
        }
    }
}

impl<I, O: Fusable> Fusable for StreamingOk<I, O> {
    open spec fn fused_len(&self) -> nat {
        self.output().fused_len()
    }

    fn len(&self) -> (n: usize) {
        self.peek().0.len()
    }
}

impl<T0: Fusable, T1: Fusable> Fusable for (T0, T1) {
    open spec fn fused_len(&self) -> nat {
        capped(self.0.fused_len() + self.1.fused_len())
    }

    fn len(&self) -> (n: usize) {
        capped_sum(self.0.len(), self.1.len())
    }
}

impl<T0: Fusable, T1: Fusable, T2: Fusable> Fusable for (T0, T1, T2) {
    open spec fn fused_len(&self) -> nat {
        capped(self.0.fused_len() + self.1.fused_len() + self.2.fused_len())
    }

    fn len(&self) -> (n: usize) {
        let n = capped_sum(self.0.len(), self.1.len());
        let n = capped_sum(n, self.2.len());
        n
    }
}

impl<T0: Fusable, T1: Fusable, T2: Fusable, T3: Fusable> Fusable for (T0, T1, T2, T3) {
    open spec fn fused_len(&self) -> nat {
        capped(self.0.fused_len() + self.1.fused_len() + self.2.fused_len() + self.3.fused_len())
    }

    fn len(&self) -> (n: usize) {
        let n = capped_sum(self.0.len(), self.1.len());
        let n = capped_sum(n, self.2.len());
        let n = capped_sum(n, self.3.len());
        n
    }
}

impl<T0: Fusable, T1: Fusable, T2: Fusable, T3: Fusable, T4: Fusable> Fusable for (T0, T1, T2, T3,
    T4) {
    open spec fn fused_len(&self) -> nat {
        capped(
            self.0.fused_len()
                + self.1.fused_len()
                + self.2.fused_len()
                + self.3.fused_len()
                + self.4.fused_len(),
        )
    }

    fn len(&self) -> (n: usize) {
        let n = capped_sum(self.0.len(), self.1.len());
        let n = capped_sum(n, self.2.len());
        let n = capped_sum(n, self.3.len());
        let n = capped_sum(n, self.4.len());
        n
    }
}

impl<T0: Fusable, T1: Fusable, T2: Fusable, T3: Fusable, T4: Fusable, T5: Fusable> Fusable for (T0,
    T1, T2, T3, T4, T5) {
    open spec fn fused_len(&self) -> nat {
        capped(
            self.0.fused_len()
                + self.1.fused_len()
                + self.2.fused_len()
                + self.3.fused_len()
                + self.4.fused_len()
                + self.5.fused_len(),
        )
    }

    fn len(&self) -> (n: usize) {
        let n = capped_sum(self.0.len(), self.1.len());
        let n = capped_sum(n, self.2.len());
        let n = capped_sum(n, self.3.len());
        let n = capped_sum(n, self.4.len());
        let n = capped_sum(n, self.5.len());
        n
    }
}

impl<T0: Fusable, T1: Fusable, T2: Fusable, T3: Fusable, T4: Fusable, T5: Fusable,
    T6: Fusable> Fusable for (T0, T1, T2, T3, T4, T5, T6) {
    open spec fn fused_len(&self) -> nat {
        capped(
            self.0.fused_len()
                + self.1.fused_len()
                + self.2.fused_len()
                + self.3.fused_len()
                + self.4.fused_len()
                + self.5.fused_len()
                + self.6.fused_len(),
        )
    }

    fn len(&self) -> (n: usize) {
        let n = capped_sum(self.0.len(), self.1.len());
        let n = capped_sum(n, self.2.len());
        let n = capped_sum(n, self.3.len());
        let n = capped_sum(n, self.4.len());
        let n = capped_sum(n, self.5.len());
        let n = capped_sum(n, self.6.len());
        n
    }
}

impl<T0: Fusable, T1: Fusable, T2: Fusable, T3: Fusable, T4: Fusable, T5: Fusable, T6: Fusable,
    T7: Fusable> Fusable for (T0, T1, T2, T3, T4, T5, T6, T7) {
    open spec fn fused_len(&self) -> nat {
        capped(
            self.0.fused_len()
                + self.1.fused_len()
                + self.2.fused_len()
                + self.3.fused_len()
                + self.4.fused_len()
                + self.5.fused_len()
                + self.6.fused_len()
                + self.7.fused_len(),
        )
    }

    fn len(&self) -> (n: usize) {
        let n = capped_sum(self.0.len(), self.1.len());
        let n = capped_sum(n, self.2.len());
        let n = capped_sum(n, self.3.len());
        let n = capped_sum(n, self.4.len());
        let n = capped_sum(n, self.5.len());
        let n = capped_sum(n, self.6.len());
        let n = capped_sum(n, self.7.len());
        n
    }
}

/// A parser that returns the length of what another parser returns.
pub struct OutputLen<P> {
    pub parser: P,
}

/// A parser that returns the start of the input that is as long as what another parser
/// returns.
pub struct Fused<P> {
    pub parser: P,
}

impl<I, P: Parser<I>> Parser<I> for OutputLen<P> where P::Output: Fusable {
    type Output = usize;

    type Error = P::Error;

    type Failure = P::Failure;

    open spec fn inv(&self) -> bool {
        self.parser.inv()
    }

    open spec fn accepts(&self, input: I, out: usize, rest: I) -> bool {
        exists|o: P::Output| #[trigger] self.parser.accepts(input, o, rest) && out == o.fused_len()
    }

    open spec fn rejects(&self, input: I, e: P::Error) -> bool {
        self.parser.rejects(input, e)
    }

    open spec fn fails(&self, input: I, f: P::Failure) -> bool {
        self.parser.fails(input, f)
    }

    fn parse(&self, input: &I) -> (r: ParserResult<I, usize, P::Error, P::Failure>) {
        match self.parser.parse(input) {
            Ok((o, rest)) => {
                let n = o.len();
                assert(self.parser.accepts(*input, o, rest) && n == o.fused_len());
                Ok((n, rest))
            },
            Err(e) => Err(e),
        }
    }
}

impl<I: Input, P: Parser<I>> Parser<I> for Fused<P> where P::Output: Fusable {
    type Output = I;

    type Error = NotFound;

    type Failure = P::Failure;

    open spec fn inv(&self) -> bool {
        self.parser.inv()
    }

    open spec fn accepts(&self, input: I, out: I, rest: I) -> bool {
        &&& is_split(input, out, rest)
        &&& exists|o: P::Output, left: I| #[trigger]
            self.parser.accepts(input, o, left) && utf8_len(out.text()) == o.fused_len()
    }

    open spec fn rejects(&self, input: I, e: NotFound) -> bool {
        ||| exists|inner: P::Error| self.parser.rejects(input, inner)
        ||| exists|o: P::Output, left: I| #[trigger]
            self.parser.accepts(input, o, left) && !on_boundary(
                input.text(),
                o.fused_len() as int,
            )
    }

    open spec fn fails(&self, input: I, f: P::Failure) -> bool {
        self.parser.fails(input, f)
    }

    fn parse(&self, input: &I) -> (r: ParserResult<I, I, NotFound, P::Failure>) {
        match self.parser.parse(input) {
            Ok((o, left)) => {
                let n = o.len();
                match input.split_at_checked(n) {
                    Some((out, rest)) => {
                        assert(self.parser.accepts(*input, o, left) && utf8_len(out.text())
                            == o.fused_len());
                        Ok((out, rest))
                    },
                    None => {
                        assert(self.parser.accepts(*input, o, left) && !on_boundary(
                            input.text(),
                            o.fused_len() as int,
                        ));
                        Err(ParserError::Error(NotFound))
                    },
                }
            },
            Err(ParserError::Error(e)) => {
                assert(self.parser.rejects(*input, e));
                Err(ParserError::Error(NotFound))
            },
            Err(ParserError::Failure(f)) => Err(ParserError::Failure(f)),
        }
    }
}

/// A sequence of parsers whose outputs have lengths.
pub trait FuseSequence: Sequence {
    /// The parser that runs the sequence and returns the length of its outputs.
    fn output_len(self) -> (r: OutputLen<Self::Joined>)
        ensures
            r.parser == self.joined(),
    ;

    /// The parser that runs the sequence to learn the length of its outputs, and returns the
    /// start of the input that is as long, as one view, and what follows it. Where that
    /// length does not fall between two characters of the input, and where the sequence
    /// reports a recoverable error, the result is the recoverable error [`NotFound`].
    fn fuse(self) -> (r: Fused<Self::Joined>)
        ensures
            r.parser == self.joined(),
    ;
}

impl<T: Sequence> FuseSequence for T {
    fn output_len(self) -> (r: OutputLen<T::Joined>) {
        OutputLen { parser: self.and() }
    }

    fn fuse(self) -> (r: Fused<T::Joined>) {
        Fused { parser: self.and() }
    }
}

/// The parser that runs the sequence `seq` to learn the length of its outputs, and returns
/// the start of the input that is as long, as one view, and what follows it.
pub fn fuse<S: Sequence>(seq: S) -> (r: Fused<S::Joined>)
    ensures
        r.parser == seq.joined(),
{
    seq.fuse()
}

} // verus!
