//! Repetition.
//!
//! A repetition runs a parser again and again, each time on what the run before it left. The
//! runs are told by the points between them: the input of the first run, then what each run
//! left.
use crate::input::Input;
use crate::parse::{NotFound, Parser, ParserError, ParserResult};
use crate::text::utf8_len;
use vstd::prelude::*;

verus! {

/// True when `p`, run from each of `points` but the last, may give the output of `outs` at
/// that index and leave the next point.
pub open spec fn steps<I, P: Parser<I>>(p: P, points: Seq<I>, outs: Seq<P::Output>) -> bool {
    &&& points.len() == outs.len() + 1
    &&& forall|i: int|
        #![trigger outs[i]]
        0 <= i < outs.len() ==> p.accepts(points[i], outs[i], points[i + 1])
}

/// True when every run after the first one took something from its input: each point after
/// the second holds less text than the one before it.
pub open spec fn shrinking<I: Input>(points: Seq<I>) -> bool {
    forall|i: int|
        #![trigger points[i]]
        2 <= i < points.len() ==> utf8_len(points[i].text()) < utf8_len(points[i - 1].text())
}

/// True when `p`, run on `rest`, may succeed without taking anything from it: it leaves no
/// less text than it was given. A repetition ends before such a run, which could be repeated
/// without end.
pub open spec fn stalls<I: Input, P: Parser<I>>(p: P, rest: I) -> bool {
    exists|o: P::Output, r: I| #[trigger]
        p.accepts(rest, o, r) && utf8_len(r.text()) >= utf8_len(rest.text())
}

/// One or more runs of a parser.
pub struct Many<P> {
    pub parser: P,
}

/// The parser that runs `p` one or more times, as often as it succeeds. It ends at the end of
/// the input, or where `p` reports a recoverable error or succeeds without taking any input,
/// and returns the outputs of the runs before that in their order. A recoverable error of the
/// first run is the recoverable error [`NotFound`]; a permanent failure of any run ends the
/// repetition with that failure.
pub fn many<P>(p: P) -> (r: Many<P>)
    ensures
        r.parser == p,
{
    Many { parser: p }
}

/// True when a repetition of `p` ends at `rest`: it is empty, or `p` may report a recoverable
/// error on it or succeed without taking anything from it.
pub open spec fn many_ends_at<I: Input, P: Parser<I>>(p: P, rest: I) -> bool {
    ||| rest.text().len() == 0
    ||| exists|e: P::Error| p.rejects(rest, e)
    ||| stalls(p, rest)
}

/// True when `p` may give `outs`, one or more outputs, in runs from `input` that leave `rest`.
pub open spec fn many_runs<I: Input, P: Parser<I>>(
    p: P,
    input: I,
    outs: Seq<P::Output>,
    rest: I,
) -> bool {
    exists|points: Seq<I>| #[trigger]
        steps(p, points, outs) && shrinking(points) && outs.len() >= 1 && points[0] == input
            && points.last() == rest
}

impl<I: Input, P: Parser<I>> Parser<I> for Many<P> {
    type Output = Vec<P::Output>;

    type Error = NotFound;

    type Failure = P::Failure;

    open spec fn inv(&self) -> bool {
        self.parser.inv()
    }

    open spec fn accepts(&self, input: I, out: Vec<P::Output>, rest: I) -> bool {
        many_runs(self.parser, input, out@, rest) && many_ends_at(self.parser, rest)
    }

    open spec fn rejects(&self, input: I, e: NotFound) -> bool {
        exists|first: P::Error| self.parser.rejects(input, first)
    }

    open spec fn fails(&self, input: I, f: P::Failure) -> bool {
        ||| self.parser.fails(input, f)
        ||| exists|outs: Seq<P::Output>, rest: I| #[trigger]
            many_runs(self.parser, input, outs, rest) && rest.text().len() > 0
                && self.parser.fails(rest, f)
    }

    fn parse(&self, input: &I) -> (r: ParserResult<I, Vec<P::Output>, NotFound, P::Failure>) {
        let (first, mut remaining) = match self.parser.parse(input) {
            Ok(x) => x,
            Err(ParserError::Error(e)) => {
                assert(self.parser.rejects(*input, e));
                return Err(ParserError::Error(NotFound));
            },
            Err(ParserError::Failure(f)) => {
                return Err(ParserError::Failure(f));
            },
        };
        let mut output: Vec<P::Output> = Vec::new();
        output.push(first);
        let ghost mut points: Seq<I> = seq![*input, remaining];
        loop
            invariant
                self.parser.inv(),
                steps(self.parser, points, output@),
                shrinking(points),
                output@.len() >= 1,
                points[0] == *input,
                points.last() == remaining,
            ensures
                steps(self.parser, points, output@),
                shrinking(points),
                output@.len() >= 1,
                points[0] == *input,
                points.last() == remaining,
                many_ends_at(self.parser, remaining),
            decreases utf8_len(remaining.text()),
        {
            if remaining.is_empty() {
                break ;
            }
            let size = remaining.len();
            match self.parser.parse(&remaining) {
                Ok((o, r)) => {
                    if r.len() >= size {
                        assert(self.parser.accepts(remaining, o, r) && utf8_len(r.text())
                            >= utf8_len(remaining.text()));
                        break ;
                    }
                    proof {
                        let old_outs = output@;
                        let old_points = points;
                        points = points.push(r);
                        assert forall|i: int|
                            #![trigger old_outs.push(o)[i]]
                            0 <= i < old_outs.push(o).len() implies self.parser.accepts(
                            points[i],
                            old_outs.push(o)[i],
                            points[i + 1],
                        ) by {
                            if i < old_outs.len() {
                                assert(old_outs[i] == old_outs.push(o)[i]);
                                assert(self.parser.accepts(
                                    old_points[i],
                                    old_outs[i],
                                    old_points[i + 1],
                                ));
                            }
                        }
                        assert forall|i: int|
                            #![trigger points[i]]
                            2 <= i < points.len() implies utf8_len(points[i].text()) < utf8_len(
                            points[i - 1].text(),
                        ) by {
                            if i < old_points.len() {
                                assert(points[i] == old_points[i]);
                            }
                        }
                    }
                    output.push(o);
                    remaining = r;
                },
                Err(ParserError::Error(e)) => {
                    assert(self.parser.rejects(remaining, e));
                    break ;
                },
                Err(ParserError::Failure(f)) => {
                    proof {
                        assert(steps(self.parser, points, output@) && shrinking(points)
                            && output@.len() >= 1 && points[0] == *input && points.last()
                            == remaining);
                        assert(many_runs(self.parser, *input, output@, remaining)
                            && remaining.text().len() > 0
                            && self.parser.fails(remaining, f));
                    }
                    return Err(ParserError::Failure(f));
                },
            }
        }
        proof {
            assert(steps(self.parser, points, output@) && shrinking(points) && output@.len() >= 1
                && points[0] == *input && points.last() == remaining);
        }
        Ok((output, remaining))
    }
}

/// One or more runs of a parser, with a separator between each two.
pub struct Delimited<P, D> {
    pub parser: P,
    pub delimiter: D,
}

/// The parser that runs `p` one or more times with `delimiter` before each run but the first.
/// The outputs of the delimiter are dropped. The list ends at the end of the input, or where
/// the delimiter or the run after it reports a recoverable error, or where they succeed
/// without taking any input; a delimiter that no run follows is left in the input.
pub fn delimited<P, D>(p: P, delimiter: D) -> (r: Delimited<P, D>)
    ensures
        r.parser == p,
        r.delimiter == delimiter,
{
    Delimited { parser: p, delimiter }
}

/// True when the items `outs` may be read from the points `points`, each but the first after
/// a delimiter: `p`, run from the start `starts` of the item at an index, may give that item
/// and leave the next point, and `d`, run from the point of each item but the first, may give
/// the output `seps` at that index and leave the start of the item.
pub open spec fn delimited_steps<I, P: Parser<I>, D: Parser<I>>(
    p: P,
    d: D,
    points: Seq<I>,
    seps: Seq<D::Output>,
    starts: Seq<I>,
    outs: Seq<P::Output>,
) -> bool {
    &&& points.len() == outs.len() + 1
    &&& seps.len() == outs.len()
    &&& starts.len() == outs.len()
    &&& outs.len() >= 1
    &&& starts[0] == points[0]
    &&& forall|i: int|
        #![trigger outs[i]]
        0 <= i < outs.len() ==> p.accepts(starts[i], outs[i], points[i + 1])
    &&& forall|i: int|
        #![trigger seps[i]]
        1 <= i < outs.len() ==> d.accepts(points[i], seps[i], starts[i])
}

/// True when a list of items read by `p` between delimiters read by `d` ends at `rest`: it
/// is empty, or `d` may report a recoverable error on it, or `d` may match and `p` may then
/// report a recoverable error, or the two may match without taking anything from `rest`.
pub open spec fn delimited_ends_at<I: Input, P: Parser<I>, D: Parser<I>>(
    p: P,
    d: D,
    rest: I,
) -> bool {
    ||| rest.text().len() == 0
    ||| exists|e: D::Error| d.rejects(rest, e)
    ||| exists|s: D::Output, start: I, e: P::Error|
        #![trigger d.accepts(rest, s, start), p.rejects(start, e)]
        d.accepts(rest, s, start) && p.rejects(start, e)
    ||| exists|s: D::Output, start: I, o: P::Output, r: I|
        #![trigger d.accepts(rest, s, start), p.accepts(start, o, r)]
        d.accepts(rest, s, start) && p.accepts(start, o, r) && utf8_len(r.text()) >= utf8_len(
            rest.text(),
        )
}

/// True when `p` and `d` may give the items `outs` in a list read from `input` that leaves
/// `rest`.
pub open spec fn delimited_runs<I: Input, P: Parser<I>, D: Parser<I>>(
    p: P,
    d: D,
    input: I,
    outs: Seq<P::Output>,
    rest: I,
) -> bool {
    exists|points: Seq<I>, seps: Seq<D::Output>, starts: Seq<I>| #[trigger]
        delimited_steps(p, d, points, seps, starts, outs) && shrinking(points) && points[0]
            == input && points.last() == rest
}

impl<
    I: Input,
    P: Parser<I>,
    D: Parser<I, Error = P::Error, Failure = P::Failure>,
> Parser<I> for Delimited<P, D> {
    type Output = Vec<P::Output>;

    type Error = NotFound;

    type Failure = P::Failure;

    open spec fn inv(&self) -> bool {
        self.parser.inv() && self.delimiter.inv()
    }

    open spec fn accepts(&self, input: I, out: Vec<P::Output>, rest: I) -> bool {
        delimited_runs(self.parser, self.delimiter, input, out@, rest)
            && delimited_ends_at(self.parser, self.delimiter, rest)
    }

    open spec fn rejects(&self, input: I, e: NotFound) -> bool {
        exists|first: P::Error| self.parser.rejects(input, first)
    }

    open spec fn fails(&self, input: I, f: P::Failure) -> bool {
        ||| self.parser.fails(input, f)
        ||| exists|outs: Seq<P::Output>, rest: I| #[trigger]
            delimited_runs(self.parser, self.delimiter, input, outs, rest)
                && rest.text().len() > 0 && {
                ||| self.delimiter.fails(rest, f)
                ||| exists|s: D::Output, start: I| #[trigger]
                    self.delimiter.accepts(rest, s, start) && self.parser.fails(start, f)
            }
    }

    fn parse(&self, input: &I) -> (r: ParserResult<I, Vec<P::Output>, NotFound, P::Failure>) {
        let (first, mut remaining) = match self.parser.parse(input) {
            Ok(x) => x,
            Err(ParserError::Error(e)) => {
                assert(self.parser.rejects(*input, e));
                return Err(ParserError::Error(NotFound));
            },
            Err(ParserError::Failure(f)) => {
                return Err(ParserError::Failure(f));
            },
        };
        let mut output: Vec<P::Output> = Vec::new();
        output.push(first);
        let ghost mut points: Seq<I> = seq![*input, remaining];
        let ghost mut seps: Seq<D::Output> = seq![arbitrary()];
        let ghost mut starts: Seq<I> = seq![*input];
        loop
            invariant
                self.parser.inv(),
                self.delimiter.inv(),
                delimited_steps(self.parser, self.delimiter, points, seps, starts, output@),
                shrinking(points),
                points[0] == *input,
                points.last() == remaining,
            ensures
                delimited_steps(self.parser, self.delimiter, points, seps, starts, output@),
                shrinking(points),
                points[0] == *input,
                points.last() == remaining,
                delimited_ends_at(self.parser, self.delimiter, remaining),
            decreases utf8_len(remaining.text()),
        {
            if remaining.is_empty() {
                break ;
            }
            let size = remaining.len();
            let (s, start) = match self.delimiter.parse(&remaining) {
                Ok(x) => x,
                Err(ParserError::Error(e)) => {
                    assert(self.delimiter.rejects(remaining, e));
                    break ;
                },
                Err(ParserError::Failure(f)) => {
                    proof {
                        assert(delimited_steps(
                            self.parser,
                            self.delimiter,
                            points,
                            seps,
                            starts,
                            output@,
                        ) && shrinking(points) && points[0] == *input && points.last()
                            == remaining);
                        assert(delimited_runs(self.parser, self.delimiter, *input, output@,
                            remaining) && remaining.text().len() > 0
                            && self.delimiter.fails(remaining, f));
                    }
                    return Err(ParserError::Failure(f));
                },
            };
            match self.parser.parse(&start) {
                Ok((o, r)) => {
                    if r.len() >= size {
                        assert(self.delimiter.accepts(remaining, s, start) && self.parser.accepts(
                            start,
                            o,
                            r,
                        ) && utf8_len(r.text()) >= utf8_len(remaining.text()));
                        break ;
                    }
                    proof {
                        let old_outs = output@;
                        let old_points = points;
                        let old_seps = seps;
                        let old_starts = starts;
                        points = points.push(r);
                        seps = seps.push(s);
                        starts = starts.push(start);
                        assert forall|i: int|
                            #![trigger old_outs.push(o)[i]]
                            0 <= i < old_outs.push(o).len() implies self.parser.accepts(
                            starts[i],
                            old_outs.push(o)[i],
                            points[i + 1],
                        ) by {
                            if i < old_outs.len() {
                                assert(old_outs[i] == old_outs.push(o)[i]);
                                assert(self.parser.accepts(
                                    old_starts[i],
                                    old_outs[i],
                                    old_points[i + 1],
                                ));
                            }
                        }
                        assert forall|i: int|
                            #![trigger seps[i]]
                            1 <= i < old_outs.push(o).len() implies self.delimiter.accepts(
                            points[i],
                            seps[i],
                            starts[i],
                        ) by {
                            if i < old_outs.len() {
                                assert(seps[i] == old_seps[i]);
                                assert(self.delimiter.accepts(
                                    old_points[i],
                                    old_seps[i],
                                    old_starts[i],
                                ));
                            }
                        }
                        assert forall|i: int|
                            #![trigger points[i]]
                            2 <= i < points.len() implies utf8_len(points[i].text()) < utf8_len(
                            points[i - 1].text(),
                        ) by {
                            if i < old_points.len() {
                                assert(points[i] == old_points[i]);
                            }
                        }
                    }
                    output.push(o);
                    remaining = r;
                },
                Err(ParserError::Error(e)) => {
                    assert(self.delimiter.accepts(remaining, s, start) && self.parser.rejects(
                        start,
                        e,
                    ));
                    break ;
                },
                Err(ParserError::Failure(f)) => {
                    proof {
                        assert(delimited_steps(
                            self.parser,
                            self.delimiter,
                            points,
                            seps,
                            starts,
                            output@,
                        ) && shrinking(points) && points[0] == *input && points.last()
                            == remaining);
                        assert(self.delimiter.accepts(remaining, s, start) && self.parser.fails(
                            start,
                            f,
                        ));
                        assert(delimited_runs(self.parser, self.delimiter, *input, output@,
                            remaining) && remaining.text().len()
                            > 0);
                    }
                    return Err(ParserError::Failure(f));
                },
            }
        }
        proof {
            assert(delimited_steps(self.parser, self.delimiter, points, seps, starts, output@)
                && shrinking(points) && points[0] == *input && points.last() == remaining);
        }
        Ok((output, remaining))
    }
}

/// A fixed number of runs of a parser.
pub struct Repeat<P> {
    pub parser: P,
    pub count: usize,
}

/// The parser that runs `p` `c` times, whatever input is left after that, and returns the `c`
/// outputs in their order. The first run that does not succeed ends it with its error.
pub fn repeat<P>(p: P, c: usize) -> (r: Repeat<P>)
    requires
        c > 0,
    ensures
        r.parser == p,
        r.count == c,
{
    Repeat { parser: p, count: c }
}

/// True when `p` may give `outs` in runs from `input` that leave `rest`.
pub open spec fn repeat_runs<I, P: Parser<I>>(
    p: P,
    input: I,
    outs: Seq<P::Output>,
    rest: I,
) -> bool {
    exists|points: Seq<I>| #[trigger]
        steps(p, points, outs) && points[0] == input && points.last() == rest
}

impl<I: Input, P: Parser<I>> Parser<I> for Repeat<P> {
    type Output = Vec<P::Output>;

    type Error = P::Error;

    type Failure = P::Failure;

    open spec fn inv(&self) -> bool {
        self.parser.inv() && self.count > 0
    }

    open spec fn accepts(&self, input: I, out: Vec<P::Output>, rest: I) -> bool {
        repeat_runs(self.parser, input, out@, rest) && out@.len() == self.count
    }

    open spec fn rejects(&self, input: I, e: P::Error) -> bool {
        exists|outs: Seq<P::Output>, rest: I| #[trigger]
            repeat_runs(self.parser, input, outs, rest) && outs.len() < self.count
                && self.parser.rejects(
                rest,
                e,
            )
    }

    open spec fn fails(&self, input: I, f: P::Failure) -> bool {
        exists|outs: Seq<P::Output>, rest: I| #[trigger]
            repeat_runs(self.parser, input, outs, rest) && outs.len() < self.count
                && self.parser.fails(rest, f)
    }

    fn parse(&self, input: &I) -> (r: ParserResult<I, Vec<P::Output>, P::Error, P::Failure>) {
        let mut output: Vec<P::Output> = Vec::new();
        let (first, mut remaining) = match self.parser.parse(input) {
            Ok(x) => x,
            Err(ParserError::Error(e)) => {
                proof {
                    let points = seq![*input];
                    assert(steps(self.parser, points, output@) && points[0] == *input
                        && points.last() == *input);
                    assert(repeat_runs(self.parser, *input, output@, *input)
                        && self.parser.rejects(*input, e));
                }
                return Err(ParserError::Error(e));
            },
            Err(ParserError::Failure(f)) => {
                proof {
                    let points = seq![*input];
                    assert(steps(self.parser, points, output@) && points[0] == *input
                        && points.last() == *input);
                    assert(repeat_runs(self.parser, *input, output@, *input)
                        && self.parser.fails(*input, f));
                }
                return Err(ParserError::Failure(f));
            },
        };
        output.push(first);
        let ghost mut points: Seq<I> = seq![*input, remaining];
        while output.len() < self.count
            invariant
                self.parser.inv(),
                steps(self.parser, points, output@),
                output@.len() <= self.count,
                points[0] == *input,
                points.last() == remaining,
            decreases self.count - output.len(),
        {
            proof {
                assert(steps(self.parser, points, output@) && points[0] == *input
                    && points.last() == remaining);
            }
            match self.parser.parse(&remaining) {
                Ok((o, r)) => {
                    proof {
                        let old_outs = output@;
                        let old_points = points;
                        points = points.push(r);
                        assert forall|i: int|
                            #![trigger old_outs.push(o)[i]]
                            0 <= i < old_outs.push(o).len() implies self.parser.accepts(
                            points[i],
                            old_outs.push(o)[i],
                            points[i + 1],
                        ) by {
                            if i < old_outs.len() {
                                assert(old_outs[i] == old_outs.push(o)[i]);
                                assert(self.parser.accepts(
                                    old_points[i],
                                    old_outs[i],
                                    old_points[i + 1],
                                ));
                            }
                        }
                    }
                    output.push(o);
                    remaining = r;
                },
                Err(ParserError::Error(e)) => {
                    assert(repeat_runs(self.parser, *input, output@, remaining)
                        && self.parser.rejects(
                        remaining,
                        e,
                    ));
                    return Err(ParserError::Error(e));
                },
                Err(ParserError::Failure(f)) => {
                    assert(repeat_runs(self.parser, *input, output@, remaining)
                        && self.parser.fails(
                        remaining,
                        f,
                    ));
                    return Err(ParserError::Failure(f));
                },
            }
        }
        proof {
            assert(steps(self.parser, points, output@) && points[0] == *input && points.last()
                == remaining);
        }
        Ok((output, remaining))
    }
}

} // verus!
