//! Lines and ends.
use crate::input::{cut_after, is_split, Input};
use crate::parse::{
    NotFound, ParserError, ParserResult, StreamingError, StreamingOk, StreamingResult,
};
use crate::text::{first_index, lemma_first_index_is, lemma_utf8_len_push, lemma_utf8_len_take};
use vstd::prelude::*;

verus! {

/// The number of characters in the first line of `chars`, its line feed included where it has
/// one.
pub open spec fn line_len(chars: Seq<char>) -> nat {
    let n = first_index(chars, |c: char| c == '\n');
    if n < chars.len() {
        n + 1
    } else {
        chars.len()
    }
}

/// True when `chars` starts with a line end: a line feed, or a carriage return and a line
/// feed.
pub open spec fn eol_len(chars: Seq<char>) -> nat {
    if chars.len() >= 1 && chars[0] == '\n' {
        1
    } else if chars.len() >= 2 && chars[0] == '\r' && chars[1] == '\n' {
        2
    } else {
        0
    }
}

/// Matches one line: the text up to the first line feed and that line feed, or all of the
/// text where it holds no line feed. It always succeeds; on empty input the line is empty.
pub fn line<I: Input>(s: &I) -> (r: ParserResult<I, I>)
    ensures
        r matches Ok((out, rest)) && out.text() == s.text().take(line_len(s.text()) as int)
            && is_split(*s, out, rest),
{
    let newline = |c: char| -> (b: bool)
        ensures
            b == (c == '\n'),
        { c == '\n' };
    let ghost p = |c: char| c == '\n';
    match s.take_until(newline) {
        Some((front, back)) => {
            let ghost k = front.text().len() as int;
            proof {
                assert forall|i: int| 0 <= i < k implies !p(#[trigger] s.text()[i]) by {
                    assert(s.text()[i] == front.text()[i]);
                }
                assert(s.text()[k] == back.text()[0]);
                lemma_first_index_is(s.text(), p, k);
                assert(s.text().take(k + 1) =~= front.text().push('\n'));
                lemma_utf8_len_push(front.text(), '\n');
                lemma_utf8_len_take(s.text(), k + 1);
            }
            // The length of the input bounds the offset after the line feed.
            let _len = s.len();
            let n = front.len() + 1;
            Ok(cut_after(s, n, Ghost(k + 1)))
        },
        None => {
            proof {
                lemma_first_index_is(s.text(), p, s.text().len() as int);
                assert(s.text().take(s.text().len() as int) =~= s.text());
            }
            let n = s.len();
            Ok(cut_after(s, n, Ghost(s.text().len() as int)))
        },
    }
}

/// Matches the text before the first line feed. It reports an error where there is none
/// before it. The match is settled where text follows it, and may be extended where it reaches
/// the end of `s`.
pub fn line_stream<I: Input>(s: &I) -> (r: StreamingResult<I, I>)
    ensures
        match r {
            Ok(ok) => {
                let n = first_index(s.text(), |c: char| c == '\n');
                &&& n > 0
                &&& ok.output().text() == s.text().take(n as int)
                &&& is_split(*s, ok.output(), ok.remaining())
                &&& ok is Complete <==> n < s.text().len()
            },
            Err(StreamingError::Error(_)) => first_index(s.text(), |c: char| c == '\n') == 0,
            Err(_) => false,
        },
{
    let other = |c: char| -> (b: bool)
        ensures
            b == (c != '\n'),
        { c != '\n' };
    let ghost p = |c: char| c == '\n';
    match s.take_while(other) {
        Some((out, rest)) => {
            proof {
                let k = out.text().len() as int;
                assert forall|i: int| 0 <= i < k implies !p(#[trigger] s.text()[i]) by {
                    assert(s.text()[i] == out.text()[i]);
                }
                if k < s.text().len() {
                    assert(s.text()[k] == rest.text()[0]);
                }
                lemma_first_index_is(s.text(), p, k);
                assert(s.text().take(k) =~= out.text());
            }
            if rest.is_empty() {
                Ok(StreamingOk::Partial(out, rest))
            } else {
                Ok(StreamingOk::Complete(out, rest))
            }
        },
        None => {
            proof {
                lemma_first_index_is(s.text(), p, 0);
            }
            Err(StreamingError::Error(NotFound))
        },
    }
}

/// Matches a line end: a line feed, or a carriage return and a line feed.
pub fn eol<I: Input>(s: &I) -> (r: ParserResult<I, I>)
    ensures
        match r {
            Ok((out, rest)) => {
                &&& eol_len(s.text()) > 0
                &&& out.text() == s.text().take(eol_len(s.text()) as int)
                &&& is_split(*s, out, rest)
            },
            Err(ParserError::Error(_)) => eol_len(s.text()) == 0,
            Err(ParserError::Failure(_)) => false,
        },
{
    proof {
        reveal_strlit("\n");
        reveal_strlit("\r\n");
    }
    match s.pop("\n") {
        Some((out, rest)) => {
            proof {
                assert(s.text()[0] == out.text()[0]);
                assert(s.text().take(1) =~= out.text());
            }
            Ok((out, rest))
        },
        None => {
            match s.pop("\r\n") {
                Some((out, rest)) => {
                    proof {
                        assert(s.text()[0] == out.text()[0]);
                        assert(s.text()[1] == out.text()[1]);
                        assert(s.text().take(2) =~= out.text());
                    }
                    Ok((out, rest))
                },
                None => {
                    proof {
                        if s.text().len() >= 1 && s.text()[0] == '\n' {
                            assert("\n"@ =~= s.text().take(1));
                        }
                        if s.text().len() >= 2 && s.text()[0] == '\r' && s.text()[1] == '\n' {
                            assert("\r\n"@ =~= s.text().take(2));
                        }
                    }
                    Err(ParserError::Error(NotFound))
                },
            }
        },
    }
}

/// Matches the end of the input: it succeeds on empty input and on no other.
pub fn eof<I: Input>(s: &I) -> (r: ParserResult<I, ()>)
    ensures
        match r {
            Ok((_, rest)) => {
                &&& s.text().len() == 0
                &&& rest.text().len() == 0
                &&& s.sub_view(0, 0, rest)
            },
            Err(ParserError::Error(_)) => s.text().len() > 0,
            Err(ParserError::Failure(_)) => false,
        },
{
    if s.is_empty() {
        Ok(((), s.empty()))
    } else {
        Err(ParserError::Error(NotFound))
    }
}

} // verus!
