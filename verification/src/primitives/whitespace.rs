//! White space.
use crate::input::{is_split, Input};
use crate::parse::{
    Never, NotFound, Parser, ParserError, ParserResult, StreamingError, StreamingOk,
    StreamingResult,
};
use crate::text::{lemma_run_len_is, run_len};
use vstd::prelude::*;

verus! {

/// Whether `c` is white space to `char::is_whitespace`.
pub uninterp spec fn is_white_space(c: char) -> bool;

/// Calls `char::is_whitespace`, which tells whether a character has the Unicode property
/// `White_Space`. The answer depends on the character alone; the contract gives it the name
/// [`is_white_space`] and says nothing of which characters have the property.
#[verifier::external_body]
fn char_is_whitespace(c: char) -> (b: bool)
    ensures
        b == is_white_space(c),
{
    c.is_whitespace()
}

/// The number of white space characters that `chars` starts with.
pub open spec fn white_space_len(chars: Seq<char>) -> nat {
    run_len(chars, |c: char| is_white_space(c))
}

/// Matches the longest run of white space at the start of `s`, which has at least one
/// character.
pub fn whitespace<I: Input>(s: &I) -> (r: ParserResult<I, I>)
    ensures
        match r {
            Ok((out, rest)) => {
                &&& white_space_len(s.text()) > 0
                &&& out.text() == s.text().take(white_space_len(s.text()) as int)
                &&& is_split(*s, out, rest)
            },
            Err(ParserError::Error(_)) => white_space_len(s.text()) == 0,
            Err(ParserError::Failure(_)) => false,
        },
{
    let white = |c: char| -> (b: bool)
        ensures
            b == is_white_space(c),
        { char_is_whitespace(c) };
    match s.take_while(white) {
        Some((out, rest)) => {
            proof {
                let p = |c: char| is_white_space(c);
                assert forall|i: int| 0 <= i < out.text().len() implies p(
                    #[trigger] s.text()[i],
                ) by {
                    assert(s.text()[i] == out.text()[i]);
                }
                if out.text().len() < s.text().len() {
                    assert(s.text()[out.text().len() as int] == rest.text()[0]);
                }
                lemma_run_len_is(s.text(), p, out.text().len() as int);
                assert(s.text().take(out.text().len() as int) =~= out.text());
            }
            Ok((out, rest))
        },
        None => {
            proof {
                let p = |c: char| is_white_space(c);
                lemma_run_len_is(s.text(), p, 0);
            }
            Err(ParserError::Error(NotFound))
        },
    }
}

/// Matches the longest run of white space at the start of `s`. The match is settled where
/// text follows it, and may be extended where it reaches the end of `s`.
pub fn whitespace_stream<I: Input>(s: &I) -> (r: StreamingResult<I, I>)
    ensures
        match r {
            Ok(ok) => {
                &&& white_space_len(s.text()) > 0
                &&& ok.output().text() == s.text().take(white_space_len(s.text()) as int)
                &&& is_split(*s, ok.output(), ok.remaining())
                &&& ok is Complete <==> ok.remaining().text().len() > 0
            },
            Err(StreamingError::Error(_)) => white_space_len(s.text()) == 0,
            Err(_) => false,
        },
{
    match whitespace(s) {
        Ok((out, rest)) => {
            if rest.is_empty() {
                Ok(StreamingOk::Partial(out, rest))
            } else {
                Ok(StreamingOk::Complete(out, rest))
            }
        },
        Err(ParserError::Error(e)) => Err(StreamingError::Error(e)),
        Err(ParserError::Failure(f)) => Err(StreamingError::Failure(f)),
    }
}

/// The parser that [`whitespace`] is, as a value.
pub struct Whitespace;

impl<I: Input> Parser<I> for Whitespace {
    type Output = I;

    type Error = NotFound;

    type Failure = Never;

    open spec fn inv(&self) -> bool {
        true
    }

    open spec fn accepts(&self, input: I, out: I, rest: I) -> bool {
        &&& white_space_len(input.text()) > 0
        &&& out.text() == input.text().take(white_space_len(input.text()) as int)
        &&& is_split(input, out, rest)
    }

    open spec fn rejects(&self, input: I, e: NotFound) -> bool {
        white_space_len(input.text()) == 0
    }

    open spec fn fails(&self, input: I, f: Never) -> bool {
        false
    }

    fn parse(&self, input: &I) -> (r: ParserResult<I, I>) {
        whitespace(input)
    }
}

} // verus!
