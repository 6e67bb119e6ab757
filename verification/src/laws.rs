//! What holds of the parsers of this crate, whatever the input.
use crate::combinators::escaped::{
    absent, folded, lemma_absent_char, occurrence, Escape, EscapeCharacter, EscapeToken,
};
use crate::combinators::many::{many_ends_at, many_runs, shrinking, steps, Many};
use crate::input::span::{
    entries_up_to, lemma_entries_up_to, lemma_entries_up_to_bounds, lemma_line_starts,
    lemma_line_starts_follow_line_feeds, line_starts, no_line_feed_between, position_in,
};
use crate::input::transform::TransformContent;
use crate::input::Input;
use crate::parse::{NotFound, Parser, ParserResult};
use crate::primitives::numbers::{
    char_len_at, converted, digits_len, digits_of, from_index, is_digit, lemma_digits_of,
    positive_number_len, unsigned_value, UnsignedInteger,
};
use crate::primitives::tag::{Tag, TagNoCase};
use crate::text::{lemma_run_len_is, lemma_utf8_len_zero, same_ignoring_case, utf8_len};
use std::num::ParseIntError;
use vstd::prelude::*;

verus! {

/// A literal is matched exactly where the input starts with it: a success has the literal as
/// its output and the rest of the input as what is left, an error says that the input does
/// not start with the literal, and there is no failure.
pub proof fn law_tag<I: Input>(t: Tag, input: I, out: I, rest: I)
    ensures
        t.accepts(input, out, rest) ==> {
            &&& t.literal@.is_prefix_of(input.text())
            &&& out.text() == t.literal@
            &&& rest.text() == input.text().skip(t.literal@.len() as int)
        },
        t.rejects(input, NotFound) <==> !t.literal@.is_prefix_of(input.text()),
        forall|f: crate::parse::Never| !t.fails(input, f),
{
    if t.accepts(input, out, rest) {
        assert((out.text() + rest.text()).skip(out.text().len() as int) =~= rest.text());
    }
}

/// A literal is matched without regard to case exactly where the input starts with text that
/// is the literal but for the case of ASCII letters: a success has that text as its output and
/// the rest of the input as what is left, an error says that the input starts with no such
/// text, and there is no failure.
pub proof fn law_tag_no_case<I: Input>(t: TagNoCase, input: I, out: I, rest: I)
    ensures
        t.accepts(input, out, rest) ==> {
            &&& t.literal@.len() <= input.text().len()
            &&& same_ignoring_case(t.literal@, input.text().take(t.literal@.len() as int))
            &&& out.text() == input.text().take(t.literal@.len() as int)
            &&& rest.text() == input.text().skip(t.literal@.len() as int)
        },
        t.rejects(input, NotFound) <==> !(t.literal@.len() <= input.text().len()
            && same_ignoring_case(t.literal@, input.text().take(t.literal@.len() as int))),
        forall|f: crate::parse::Never| !t.fails(input, f),
{
    if t.accepts(input, out, rest) {
        assert((out.text() + rest.text()).skip(out.text().len() as int) =~= rest.text());
    }
}

/// A repetition reports that nothing was found exactly where its parser may report a
/// recoverable error on the input itself.
pub proof fn law_many_none<I: Input, P: Parser<I>>(m: Many<P>, input: I)
    ensures
        m.rejects(input, NotFound) <==> exists|e: P::Error| m.parser.rejects(input, e),
{
}

/// A repetition that succeeds returns one output for each run of its parser, in the order of
/// the runs: the first run starts at the input, each other one where the one before it
/// stopped, and the last one stops at what is left, where the parser can go no further.
pub proof fn law_many_some<I: Input, P: Parser<I>>(
    m: Many<P>,
    input: I,
    out: Vec<P::Output>,
    rest: I,
) -> (points: Seq<I>)
    requires
        m.accepts(input, out, rest),
    ensures
        out@.len() >= 1,
        points.len() == out@.len() + 1,
        points[0] == input,
        points.last() == rest,
        forall|i: int|
            #![trigger out@[i]]
            0 <= i < out@.len() ==> m.parser.accepts(points[i], out@[i], points[i + 1]),
        many_ends_at(m.parser, rest),
{
    let points = choose|points: Seq<I>| #[trigger]
        steps(m.parser, points, out@) && shrinking(points) && out@.len() >= 1 && points[0]
            == input && points.last() == rest;
    points
}

/// True when `input` holds no introducer of `rec`, which is not empty.
pub open spec fn plain_for<I: Input>(rec: EscapeCharacter, input: I) -> bool {
    &&& rec.introducer@.len() > 0
    &&& absent(input.text(), rec.introducer@)
}

/// On input without an introducer the recognizer reads all of the input in one step that
/// stands for itself.
pub proof fn lemma_plain_step<I: Input>(
    rec: EscapeCharacter,
    input: I,
    token: EscapeToken<I>,
    rest: I,
)
    requires
        plain_for(rec, input),
        rec.accepts(input, token, rest),
    ensures
        token.text() == input.text(),
        rest.text().len() == 0,
{
    let text = input.text();
    let intro = rec.introducer@;
    if intro.is_prefix_of(text) {
        assert(text.len() > 0);
        assert(text.skip(0) =~= text);
        assert(occurrence(text, intro, 0) == 0);
    }
    assert(text.take(text.len() as int) =~= text);
    let plain = token->Unescaped_0;
    assert(rest.text().len() == 0) by {
        assert((plain.text() + rest.text()).len() == text.len());
    }
}

/// Text without an introducer stands for itself: on input that holds no introducer, the
/// output of [`escape`](crate::combinators::escaped::escape) has the text of the input, and
/// nothing is left.
pub proof fn law_escape_plain<I: TransformContent>(
    e: Escape<EscapeCharacter>,
    input: I,
    out: I::Transformed,
    rest: I,
) where I::Transformed: TransformContent<Transformed = I::Transformed>
    requires
        plain_for(e.recognizer, input),
        e.accepts(input, out, rest),
    ensures
        out.text() == input.text(),
        rest.text().len() == 0,
{
    let rec = e.recognizer;
    let tokens = choose|tokens: Seq<EscapeToken<I>>| #[trigger]
        many_runs(rec, input, tokens, rest) && out.text() == folded(tokens);
    let points = choose|points: Seq<I>| #[trigger]
        steps(rec, points, tokens) && shrinking(points) && tokens.len() >= 1 && points[0]
            == input && points.last() == rest;
    assert(rec.accepts(points[0], tokens[0], points[1]));
    lemma_plain_step(rec, input, tokens[0], points[1]);
    lemma_utf8_len_zero(points[1].text());
    if tokens.len() >= 2 {
        assert(utf8_len(points[2].text()) < utf8_len(points[1].text()));
    }
    assert(tokens.drop_last() =~= Seq::<EscapeToken<I>>::empty());
    assert(folded(tokens) =~= tokens[0].text()) by {
        reveal_with_fuel(folded, 2);
    }
}

/// On input without an introducer [`escape`](crate::combinators::escaped::escape) neither
/// reports an error nor fails.
pub proof fn law_escape_plain_succeeds<I: TransformContent>(
    e: Escape<EscapeCharacter>,
    input: I,
) where I::Transformed: TransformContent<Transformed = I::Transformed>
    requires
        plain_for(e.recognizer, input),
    ensures
        forall|err: crate::parse::Never| !e.rejects(input, err),
        forall|f: crate::combinators::escaped::InvalidEscapeSequence| !e.fails(input, f),
{
    let rec = e.recognizer;
    let text = input.text();
    let intro = rec.introducer@;
    if intro.is_prefix_of(text) {
        assert(text.skip(0) =~= text);
        assert(occurrence(text, intro, 0) == 0);
    }
    assert forall|f: crate::combinators::escaped::InvalidEscapeSequence| !e.fails(
        input,
        f,
    ) by {
        if e.fails(input, f) {
            let (tokens, rest) = choose|tokens: Seq<EscapeToken<I>>, rest: I| #[trigger]
                many_runs(rec, input, tokens, rest) && rest.text().len() > 0 && rec.fails(
                    rest,
                    f,
                );
            let points = choose|points: Seq<I>| #[trigger]
                steps(rec, points, tokens) && shrinking(points) && tokens.len() >= 1
                    && points[0] == input && points.last() == rest;
            assert(rec.accepts(points[0], tokens[0], points[1]));
            lemma_plain_step(rec, input, tokens[0], points[1]);
            lemma_utf8_len_zero(points[1].text());
            if tokens.len() >= 2 {
                assert(utf8_len(points[2].text()) < utf8_len(points[1].text()));
            }
        }
    }
}

/// Escaping text without an introducer in one piece or in two gives the same text: where
/// `whole` holds the text of `first` followed by that of `second` and no introducer, the
/// output for `whole` has the text of the output for `first` followed by that of the output
/// for `second`.
pub proof fn law_escape_concat<I: TransformContent>(
    e: Escape<EscapeCharacter>,
    first: I,
    second: I,
    whole: I,
    out_first: I::Transformed,
    out_second: I::Transformed,
    out_whole: I::Transformed,
    rest_first: I,
    rest_second: I,
    rest_whole: I,
) where I::Transformed: TransformContent<Transformed = I::Transformed>
    requires
        whole.text() == first.text() + second.text(),
        plain_for(e.recognizer, first),
        plain_for(e.recognizer, second),
        plain_for(e.recognizer, whole),
        e.accepts(first, out_first, rest_first),
        e.accepts(second, out_second, rest_second),
        e.accepts(whole, out_whole, rest_whole),
    ensures
        out_whole.text() == out_first.text() + out_second.text(),
{
    law_escape_plain(e, first, out_first, rest_first);
    law_escape_plain(e, second, out_second, rest_second);
    law_escape_plain(e, whole, out_whole, rest_whole);
}

/// Where the introducer is one character, as a backslash is, two texts without it make a
/// text without it: escaping the text of `first` followed by that of `second` gives the text
/// of the output for `first` followed by that of the output for `second`.
pub proof fn law_escape_concat_one_character<I: TransformContent>(
    e: Escape<EscapeCharacter>,
    first: I,
    second: I,
    whole: I,
    out_first: I::Transformed,
    out_second: I::Transformed,
    out_whole: I::Transformed,
    rest_first: I,
    rest_second: I,
    rest_whole: I,
) where I::Transformed: TransformContent<Transformed = I::Transformed>
    requires
        e.recognizer.introducer@.len() == 1,
        whole.text() == first.text() + second.text(),
        plain_for(e.recognizer, first),
        plain_for(e.recognizer, second),
        e.accepts(first, out_first, rest_first),
        e.accepts(second, out_second, rest_second),
        e.accepts(whole, out_whole, rest_whole),
    ensures
        plain_for(e.recognizer, whole),
        out_whole.text() == out_first.text() + out_second.text(),
{
    let intro = e.recognizer.introducer@;
    let c = intro[0];
    assert(intro =~= seq![c]);
    lemma_absent_char(first.text(), c);
    lemma_absent_char(second.text(), c);
    lemma_absent_char(whole.text(), c);
    assert forall|k: int| 0 <= k < whole.text().len() implies whole.text()[k] != c by {
        if k < first.text().len() {
            assert(whole.text()[k] == first.text()[k]);
        } else {
            assert(whole.text()[k] == second.text()[k - first.text().len()]);
        }
    }
    law_escape_concat(
        e,
        first,
        second,
        whole,
        out_first,
        out_second,
        out_whole,
        rest_first,
        rest_second,
        rest_whole,
    );
}

/// Reading the digits of a number gives the number back: on input whose text is the digits
/// that write `n`, [`unsigned_integer`](crate::primitives::numbers::unsigned_integer) for
/// `u32` returns `n` and leaves nothing.
pub proof fn law_u32_round_trip<I: Input>(
    n: u32,
    s: I,
    r: ParserResult<I, u32, NotFound, ParseIntError>,
)
    requires
        s.text() == digits_of(n as nat),
        converted(
            positive_number_len(s.text()),
            |chars: Seq<char>| <u32 as UnsignedInteger>::read(chars),
            s,
            r,
        ),
    ensures
        r matches Ok((v, rest)) && v == n && rest.text().len() == 0,
{
    let text = s.text();
    lemma_digits_of(n as nat);
    assert(text[0] != '+') by {
        assert(is_digit(text[0]));
    }
    assert(char_len_at(text, 0, '+') == 0);
    assert(from_index(text, 0) =~= text);
    lemma_run_len_is(text, |c: char| is_digit(c), text.len() as int);
    assert(digits_len(text) == text.len());
    assert(positive_number_len(text) == Some(text.len()));
    assert(text.take(text.len() as int) =~= text);
    assert(unsigned_value(text) == Some(n as nat));
    assert(<u32 as UnsignedInteger>::read(text) == Some(n));
}

/// Within a line the column counts the bytes: where no line feed ends between the byte
/// offset `at` and the offset `n` bytes after it, which is before the end of the text, the two
/// offsets are on the same line and `n` columns apart. The positions are those that
/// [`Span::position`](crate::input::span::Span::position) returns for views that start at the
/// offsets.
pub proof fn law_column_counts_bytes(chars: Seq<char>, first_line: int, at: int, n: int)
    requires
        0 <= at,
        0 <= n,
        at + n < utf8_len(chars),
        no_line_feed_between(chars, at, at + n),
    ensures
        position_in(line_starts(chars), first_line, at + n).0 == position_in(
            line_starts(chars),
            first_line,
            at,
        ).0,
        position_in(line_starts(chars), first_line, at + n).1 == position_in(
            line_starts(chars),
            first_line,
            at,
        ).1 + n,
{
    let table = line_starts(chars);
    lemma_line_starts(chars);
    lemma_line_starts_follow_line_feeds(chars);
    lemma_entries_up_to_bounds(table, at);
    let c = entries_up_to(table, at) as int;
    assert(c >= 1) by {
        if c == 0 {
            assert(table[0] == 0);
        }
    }
    assert(table[c - 1] <= at);
    if c < table.len() && table[c] <= at + n {
        if c == table.len() - 1 {
            assert(table[c] == table.last());
        } else {
            let e = table[c];
            assert(crate::input::span::ends_line_feed(chars, e));
            let k = choose|k: int|
                1 <= k <= chars.len() && chars[k - 1] == '\n' && #[trigger] utf8_len(
                    chars.take(k),
                ) == e;
            assert(false);
        }
    }
    lemma_entries_up_to(table, at + n, c);
}

} // verus!
