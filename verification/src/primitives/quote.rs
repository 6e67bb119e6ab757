//! Quoted text.
//!
//! Quoted text starts with a quote mark and ends before the next quote mark that no escape
//! character stands directly before. Only that one character is looked at: a quote mark after
//! two escape characters is still taken as escaped.
use crate::input::Input;
use crate::parse::{
    Never, NotFound, ParserError, ParserResult, StreamingError, StreamingOk, StreamingResult,
};
use crate::text::{
    byte_len, char_at, char_width, lemma_prefix_on_boundary, lemma_prefix_unique, lemma_take_add,
    lemma_utf8_len_push, lemma_utf8_len_take, lemma_window, utf8_len,
};
use vstd::prelude::*;
use vstd::std_specs::convert::FromSpecImpl;

verus! {

/// The double quote mark.
pub const DOUBLE_QUOTE: char = '"';

/// The double quote mark, as text.
pub const DOUBLE_QUOTE_STR: &'static str = "\"";

/// The single quote mark.
pub const SINGLE_QUOTE: char = '\'';

/// The single quote mark, as text.
pub const SINGLE_QUOTE_STR: &'static str = "'";

/// The escape character: a quote mark directly after it does not close a quote.
pub const ESCAPE: char = '\\';

/// The escape character, as text.
pub const ESCAPE_STR: &'static str = "\\";

/// The failure of a parser for quoted text that found no closing quote mark.
#[derive(Clone, Copy, Debug, Default, PartialEq, Eq, PartialOrd, Ord, Hash)]
pub struct UnterminatedQuote;

impl From<NotFound> for UnterminatedQuote {
    fn from(value: NotFound) -> (r: Self) {
        UnterminatedQuote
    }
}

impl FromSpecImpl<NotFound> for UnterminatedQuote {
    open spec fn obeys_from_spec() -> bool {
        true
    }

    open spec fn from_spec(value: NotFound) -> Self {
        UnterminatedQuote
    }
}

impl From<Never> for UnterminatedQuote {
    fn from(value: Never) -> (r: Self) {
        UnterminatedQuote
    }
}

impl FromSpecImpl<Never> for UnterminatedQuote {
    open spec fn obeys_from_spec() -> bool {
        true
    }

    open spec fn from_spec(value: Never) -> Self {
        UnterminatedQuote
    }
}

/// True when the character at index `k` of `chars` is a quote mark that closes: it is `quote`,
/// and the character before it, if there is one, is not the escape character.
pub open spec fn is_closing(chars: Seq<char>, quote: char, k: int) -> bool {
    &&& 0 <= k < chars.len()
    &&& chars[k] == quote
    &&& (k == 0 || chars[k - 1] != '\\')
}

/// The index of the first closing quote mark of `chars` at or after index `from`, or the
/// length of `chars` where there is none.
pub open spec fn closing_index(chars: Seq<char>, quote: char, from: int) -> int
    decreases chars.len() - from,
{
    if from < 0 || from >= chars.len() {
        chars.len() as int
    } else if is_closing(chars, quote, from) {
        from
    } else {
        closing_index(chars, quote, from + 1)
    }
}

/// The closing index is a closing quote mark or the end, and no closing quote mark comes
/// before it.
pub proof fn lemma_closing_index(chars: Seq<char>, quote: char, from: int)
    requires
        0 <= from <= chars.len(),
    ensures
        from <= closing_index(chars, quote, from) <= chars.len(),
        closing_index(chars, quote, from) < chars.len() ==> is_closing(
            chars,
            quote,
            closing_index(chars, quote, from),
        ),
        forall|k: int|
            from <= k < closing_index(chars, quote, from) ==> !is_closing(chars, quote, k),
    decreases chars.len() - from,
{
    if from < chars.len() && !is_closing(chars, quote, from) {
        lemma_closing_index(chars, quote, from + 1);
    }
}

/// The byte offset in `s` of the first quote mark `quote` that closes, if there is one.
pub fn find_quote_mark(quote: char, s: &str) -> (r: Option<usize>)
    ensures
        match r {
            Some(at) => {
                let k = closing_index(s@, quote, 0);
                k < s@.len() && at == utf8_len(s@.take(k))
            },
            None => closing_index(s@, quote, 0) == s@.len(),
        },
{
    let n = byte_len(s);
    let mut at: usize = 0;
    let mut escaped = false;
    let ghost mut k: int = 0;
    proof {
        assert(s@.take(0) =~= Seq::<char>::empty());
    }
    while at < n
        invariant
            n == utf8_len(s@),
            0 <= k <= s@.len(),
            at <= n,
            at == utf8_len(s@.take(k)),
            escaped == (k > 0 && s@[k - 1] == '\\'),
            closing_index(s@, quote, 0) == closing_index(s@, quote, k),
        decreases n - at,
    {
        proof {
            if k == s@.len() {
                assert(s@.take(k) =~= s@);
            }
        }
        let c = char_at(s, at, Ghost(k));
        if c == quote && !escaped {
            return Some(at);
        }
        proof {
            assert(s@.take(k + 1) =~= s@.take(k).push(c));
            lemma_utf8_len_push(s@.take(k), c);
            lemma_utf8_len_take(s@, k + 1);
            assert(!is_closing(s@, quote, k));
            k = k + 1;
        }
        escaped = c == ESCAPE;
        at = at + char_width(c);
    }
    proof {
        if k < s@.len() {
            lemma_utf8_len_take(s@, k);
        }
    }
    None
}

/// True when `chars` starts with the quote mark `quote`.
pub open spec fn opens_with(chars: Seq<char>, quote: char) -> bool {
    chars.len() > 0 && chars[0] == quote
}

/// The number of characters between the opening quote mark of `chars` and the quote mark that
/// closes it; where none closes it, the number of all characters after the opening one.
pub open spec fn quoted_len(chars: Seq<char>, quote: char) -> int {
    closing_index(chars.skip(1), quote, 0)
}

/// True when `chars` starts with text in the quote marks `quote`: an opening mark, and later
/// one that closes it.
pub open spec fn is_quoted(chars: Seq<char>, quote: char) -> bool {
    opens_with(chars, quote) && quoted_len(chars, quote) < chars.len() - 1
}

/// True when `out` is the text between the quote marks `quote` that `input` starts with, and
/// `rest` is what follows the closing mark.
pub open spec fn quoted_parts<I: Input>(input: I, quote: char, out: I, rest: I) -> bool {
    let k = quoted_len(input.text(), quote);
    &&& is_quoted(input.text(), quote)
    &&& out.text() == input.text().subrange(1, 1 + k)
    &&& rest.text() == input.text().skip(k + 2)
    &&& input.sub_view(1, 1 + utf8_len(out.text()) as int, out)
    &&& input.sub_view(2 + utf8_len(out.text()) as int, utf8_len(input.text()) as int, rest)
}

/// What a streaming parser for text in the quote marks `quote` returns on `input`: the quoted
/// text where it is closed, the wish for more input where it is not, and an error where the
/// input does not start with the mark.
pub open spec fn quoted_stream_outcome<I: Input>(
    input: I,
    quote: char,
    r: StreamingResult<I, I, NotFound, UnterminatedQuote>,
) -> bool {
    match r {
        Ok(StreamingOk::Complete(out, rest)) => quoted_parts(input, quote, out, rest),
        Ok(StreamingOk::Partial(_, _)) => false,
        Err(StreamingError::Error(_)) => !opens_with(input.text(), quote),
        Err(StreamingError::Incomplete(_)) => opens_with(input.text(), quote) && !is_quoted(
            input.text(),
            quote,
        ),
        Err(StreamingError::Failure(_)) => false,
    }
}

/// What a parser for text in the quote marks `quote` returns on `input` when no more input
/// will come: as [`quoted_stream_outcome`], with a permanent failure where the quote is not
/// closed.
pub open spec fn quoted_outcome<I: Input>(
    input: I,
    quote: char,
    r: ParserResult<I, I, NotFound, UnterminatedQuote>,
) -> bool {
    match r {
        Ok((out, rest)) => quoted_parts(input, quote, out, rest),
        Err(ParserError::Error(_)) => !opens_with(input.text(), quote),
        Err(ParserError::Failure(_)) => opens_with(input.text(), quote) && !is_quoted(
            input.text(),
            quote,
        ),
    }
}

/// Matches text in the quote marks `quote`, which is an ASCII character and `mark` as text.
fn quoted_with<I: Input>(s: &I, quote: char, mark: &str) -> (r: StreamingResult<
    I,
    I,
    NotFound,
    UnterminatedQuote,
>)
    requires
        mark@ == seq![quote],
        (quote as u32) < 0x80,
    ensures
        quoted_stream_outcome(*s, quote, r),
{
    let (_, remaining) = match s.pop(mark) {
        Some(p) => p,
        None => {
            proof {
                if opens_with(s.text(), quote) {
                    assert(mark@ =~= s.text().take(1));
                }
            }
            return Err(StreamingError::Error(NotFound));
        },
    };
    let ghost text = s.text();
    let ghost body = text.skip(1);
    proof {
        assert(text[0] == mark@[0]);
        assert(text.take(1) =~= seq![quote]);
        assert(remaining.text() =~= body) by {
            assert((mark@ + remaining.text()).skip(1) =~= remaining.text());
        }
        lemma_closing_index(body, quote, 0);
    }
    match find_quote_mark(quote, remaining.as_str()) {
        Some(idx) => {
            let ghost k = closing_index(body, quote, 0);
            proof {
                assert(Seq::<char>::empty().push(quote) =~= seq![quote]);
                lemma_utf8_len_push(Seq::<char>::empty(), quote);
                assert(utf8_len(Seq::<char>::empty()) == 0) by {
                    crate::text::lemma_utf8_len_zero(Seq::<char>::empty());
                }
                lemma_take_add(text, 1, k);
                lemma_take_add(text, 1, k + 1);
                assert(body.take(k + 1) =~= body.take(k).push(quote));
                lemma_utf8_len_push(body.take(k), quote);
                lemma_prefix_on_boundary(text, 1);
                lemma_prefix_on_boundary(text, 1 + k);
                lemma_prefix_on_boundary(text, 2 + k);
                lemma_utf8_len_take(text, 2 + k);
            }
            // The length of the input bounds the offsets after the two quote marks.
            let _len = s.len();
            let out = s.slice(1..1 + idx);
            let rest = s.skip(idx + 2);
            proof {
                let (a, b) = lemma_window(text, 1, 1 + idx);
                lemma_prefix_unique(text, a, 1);
                lemma_prefix_unique(text, b, 1 + k);
                broadcast use vstd::utf8::encode_utf8_decode_utf8;

                assert(out.text() == text.subrange(1, 1 + k));
                assert(text.skip(k + 2).is_suffix_of(text)) by {
                    assert(text =~= text.take(k + 2) + text.skip(k + 2));
                }
                lemma_suffix_unique(text, rest.text(), text.skip(k + 2));
            }
            Ok(StreamingOk::Complete(out, rest))
        },
        None => Err(StreamingError::Incomplete(UnterminatedQuote)),
    }
}

/// Two suffixes of the same text that take as many bytes are the same suffix.
pub proof fn lemma_suffix_unique(chars: Seq<char>, a: Seq<char>, b: Seq<char>)
    requires
        a.is_suffix_of(chars),
        b.is_suffix_of(chars),
        utf8_len(a) == utf8_len(b),
    ensures
        a == b,
{
    let i = chars.len() - a.len();
    let j = chars.len() - b.len();
    assert(chars.skip(i) =~= a);
    assert(chars.skip(j) =~= b);
    lemma_utf8_len_take(chars, i);
    lemma_utf8_len_take(chars, j);
    lemma_prefix_unique(chars, i, j);
}

/// Matches text in single quote marks at the start of `s`, which may still grow.
pub fn single_quoted_stream<I: Input>(s: &I) -> (r: StreamingResult<
    I,
    I,
    NotFound,
    UnterminatedQuote,
>)
    ensures
        quoted_stream_outcome(*s, '\'', r),
{
    proof {
        reveal_strlit("'");
        assert("'"@ =~= seq!['\'']);
    }
    quoted_with(s, SINGLE_QUOTE, SINGLE_QUOTE_STR)
}

/// Matches text in single quote marks at the start of `s`. A quote that is not closed is a
/// permanent failure.
pub fn single_quoted<I: Input>(s: &I) -> (r: ParserResult<I, I, NotFound, UnterminatedQuote>)
    ensures
        quoted_outcome(*s, '\'', r),
{
    settle(single_quoted_stream(s))
}

/// Matches text in double quote marks at the start of `s`, which may still grow.
pub fn double_quoted_stream<I: Input>(s: &I) -> (r: StreamingResult<
    I,
    I,
    NotFound,
    UnterminatedQuote,
>)
    ensures
        quoted_stream_outcome(*s, '"', r),
{
    proof {
        reveal_strlit("\"");
        assert("\""@ =~= seq!['"']);
    }
    quoted_with(s, DOUBLE_QUOTE, DOUBLE_QUOTE_STR)
}

/// Matches text in double quote marks at the start of `s`. A quote that is not closed is a
/// permanent failure.
pub fn double_quoted<I: Input>(s: &I) -> (r: ParserResult<I, I, NotFound, UnterminatedQuote>)
    ensures
        quoted_outcome(*s, '"', r),
{
    settle(double_quoted_stream(s))
}

/// Matches text in single or in double quote marks at the start of `s`, which may still grow.
pub fn quoted_stream<I: Input>(s: &I) -> (r: StreamingResult<I, I, NotFound, UnterminatedQuote>)
    ensures
        opens_with(s.text(), '\'') ==> quoted_stream_outcome(*s, '\'', r),
        !opens_with(s.text(), '\'') ==> quoted_stream_outcome(*s, '"', r),
{
    match single_quoted_stream(s) {
        Err(StreamingError::Error(_)) => double_quoted_stream(s),
        r => r,
    }
}

/// Matches text in single or in double quote marks at the start of `s`.
pub fn quoted<I: Input>(s: &I) -> (r: ParserResult<I, I, NotFound, UnterminatedQuote>)
    ensures
        opens_with(s.text(), '\'') ==> quoted_outcome(*s, '\'', r),
        !opens_with(s.text(), '\'') ==> quoted_outcome(*s, '"', r),
{
    match single_quoted(s) {
        Err(ParserError::Error(_)) => double_quoted(s),
        r => r,
    }
}

/// The result of a streaming parser for quoted text, read when no more input will come.
fn settle<I>(r: StreamingResult<I, I, NotFound, UnterminatedQuote>) -> (out: ParserResult<
    I,
    I,
    NotFound,
    UnterminatedQuote,
>)
    ensures
        out == match r {
            Ok(ok) => Ok::<(I, I), ParserError<NotFound, UnterminatedQuote>>(
                (ok.output(), ok.remaining()),
            ),
            Err(StreamingError::Error(e)) => Err(ParserError::Error(e)),
            Err(StreamingError::Incomplete(f)) => Err(ParserError::Failure(f)),
            Err(StreamingError::Failure(f)) => Err(ParserError::Failure(f)),
        },
{
    match r {
        Ok(StreamingOk::Complete(o, r)) => Ok((o, r)),
        Ok(StreamingOk::Partial(o, r)) => Ok((o, r)),
        Err(StreamingError::Error(e)) => Err(ParserError::Error(e)),
        Err(StreamingError::Incomplete(f)) => Err(ParserError::Failure(f)),
        Err(StreamingError::Failure(f)) => Err(ParserError::Failure(f)),
    }
}

} // verus!
