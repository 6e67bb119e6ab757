//! Escape sequences.
//!
//! A recognizer reads text in steps: a step is a run of text that stands for itself or an
//! escape sequence that stands for other text. [`escape`] runs a recognizer over the input and
//! puts together what the steps stand for.
use crate::combinators::many::{many_ends_at, many_runs, shrinking, steps};
use crate::input::transform::TransformContent;
use crate::input::{cut_after, is_split, Input};
use crate::parse::{Never, Parser, ParserError, ParserResult};
use crate::text::{lemma_encode_concat, lemma_take_add, lemma_utf8_len_take, utf8_len};
use crate::util::splits::splits;
use vstd::prelude::*;

verus! {

/// A value that holds text.
pub trait AsText {
    /// The text.
    spec fn chars(&self) -> Seq<char>;

    /// The text, as a string slice.
    fn as_text(&self) -> (s: &str)
        ensures
            s@ == self.chars(),
    ;
}

impl<'a> AsText for &'a str {
    open spec fn chars(&self) -> Seq<char> {
        self@
    }

    fn as_text(&self) -> (s: &str) {
        self
    }
}

impl AsText for String {
    open spec fn chars(&self) -> Seq<char> {
        self@
    }

    fn as_text(&self) -> (s: &str) {
        self.as_str()
    }
}

/// One step of a recognizer.
#[derive(Debug, PartialEq, PartialOrd)]
pub enum EscapeToken<I, U = &'static str> {
    /// A part of the input that stands for itself.
    Unescaped(I),
    /// The text that an escape sequence stands for.
    Escaped(U),
}

impl<I: Input, U: AsText> EscapeToken<I, U> {
    /// The text that the step stands for.
    pub open spec fn text(&self) -> Seq<char> {
        match self {
            EscapeToken::Unescaped(s) => s.text(),
            EscapeToken::Escaped(s) => s.chars(),
        }
    }

    /// The text that the step stands for.
    pub fn as_str(&self) -> (r: &str)
        ensures
            r@ == self.text(),
    {
        match self {
            EscapeToken::Unescaped(s) => s.as_str(),
            EscapeToken::Escaped(s) => s.as_text(),
        }
    }
}

/// The failure of a recognizer that met an escape sequence that it does not know.
#[derive(Clone, Copy, Debug, Default, PartialEq, Eq, PartialOrd, Ord, Hash)]
pub struct InvalidEscapeSequence;

/// What the steps `tokens` stand for, put together.
pub open spec fn folded<I: Input, U: AsText>(tokens: Seq<EscapeToken<I, U>>) -> Seq<char>
    decreases tokens.len(),
{
    if tokens.len() == 0 {
        Seq::empty()
    } else {
        folded(tokens.drop_last()) + tokens.last().text()
    }
}

/// A parser that puts together what the steps of a recognizer stand for.
pub struct Escape<P> {
    pub recognizer: P,
}

/// The parser that runs `esc` one or more times, as often as it succeeds, and returns a view
/// over the text that its steps stand for, put together in their order; the view has the
/// origin of the input. The runs end as those of [`many`](crate::combinators::many::many) do: at
/// the end of the input, or where `esc` reports a recoverable error or succeeds without taking
/// any input, and what is left there is returned. A recoverable error of the first run and a
/// permanent failure of any run end the parser with that error.
pub fn escape<P>(esc: P) -> (r: Escape<P>)
    ensures
        r.recognizer == esc,
{
    Escape { recognizer: esc }
}

impl<
    I: TransformContent,
    U: AsText,
    P: Parser<I, Output = EscapeToken<I, U>>,
> Parser<I> for Escape<P> where I::Transformed: TransformContent<Transformed = I::Transformed> {
    type Output = I::Transformed;

    type Error = P::Error;

    type Failure = P::Failure;

    open spec fn inv(&self) -> bool {
        self.recognizer.inv()
    }

    open spec fn accepts(&self, input: I, out: I::Transformed, rest: I) -> bool {
        &&& exists|tokens: Seq<EscapeToken<I, U>>| #[trigger]
            many_runs(self.recognizer, input, tokens, rest) && out.text() == folded(tokens)
        &&& many_ends_at(self.recognizer, rest)
        &&& out.origin() == input.origin()
    }

    open spec fn rejects(&self, input: I, e: P::Error) -> bool {
        self.recognizer.rejects(input, e)
    }

    open spec fn fails(&self, input: I, f: P::Failure) -> bool {
        ||| self.recognizer.fails(input, f)
        ||| exists|tokens: Seq<EscapeToken<I, U>>, rest: I| #[trigger]
            many_runs(self.recognizer, input, tokens, rest) && rest.text().len() > 0
                && self.recognizer.fails(rest, f)
    }

    fn parse(&self, input: &I) -> (r: ParserResult<I, I::Transformed, P::Error, P::Failure>) {
        let (first, mut remaining) = match self.recognizer.parse(input) {
            Ok(x) => x,
            Err(e) => {
                return Err(e);
            },
        };
        let mut output = input.to_content(first.as_str().to_owned());
        let ghost mut tokens: Seq<EscapeToken<I, U>> = seq![first];
        let ghost mut points: Seq<I> = seq![*input, remaining];
        proof {
            assert(tokens.drop_last() =~= Seq::<EscapeToken<I, U>>::empty());
            assert(folded(tokens) =~= first.text()) by {
                reveal_with_fuel(folded, 2);
            }
        }
        loop
            invariant
                self.recognizer.inv(),
                steps(self.recognizer, points, tokens),
                shrinking(points),
                tokens.len() >= 1,
                points[0] == *input,
                points.last() == remaining,
                output.text() == folded(tokens),
                output.origin() == input.origin(),
            ensures
                steps(self.recognizer, points, tokens),
                shrinking(points),
                tokens.len() >= 1,
                points[0] == *input,
                points.last() == remaining,
                output.text() == folded(tokens),
                output.origin() == input.origin(),
                many_ends_at(self.recognizer, remaining),
            decreases utf8_len(remaining.text()),
        {
            if remaining.is_empty() {
                break ;
            }
            let size = remaining.len();
            match self.recognizer.parse(&remaining) {
                Ok((o, r)) => {
                    if r.len() >= size {
                        assert(self.recognizer.accepts(remaining, o, r) && utf8_len(r.text())
                            >= utf8_len(remaining.text()));
                        break ;
                    }
                    proof {
                        let old_tokens = tokens;
                        let old_points = points;
                        points = points.push(r);
                        tokens = tokens.push(o);
                        assert forall|i: int|
                            #![trigger tokens[i]]
                            0 <= i < tokens.len() implies self.recognizer.accepts(
                            points[i],
                            tokens[i],
                            points[i + 1],
                        ) by {
                            if i < old_tokens.len() {
                                assert(old_tokens[i] == tokens[i]);
                                assert(self.recognizer.accepts(
                                    old_points[i],
                                    old_tokens[i],
                                    old_points[i + 1],
                                ));
                            }
                        }
                        assert forall|i: int|
                            #![trigger points[i]]
                            2 <= i < points.len() implies utf8_len(points[i].text()) < utf8_len(
                            points[i - 1].text(),
                        ) by {
                            if i < old_points.len() {
                                assert(points[i] == old_points[i]);
                            }
                        }
                        assert(tokens.drop_last() =~= old_tokens);
                    }
                    output = output.append_content(o.as_str());
                    remaining = r;
                },
                Err(ParserError::Error(e)) => {
                    assert(self.recognizer.rejects(remaining, e));
                    break ;
                },
                Err(ParserError::Failure(f)) => {
                    proof {
                        assert(steps(self.recognizer, points, tokens) && shrinking(points)
                            && tokens.len() >= 1 && points[0] == *input && points.last()
                            == remaining);
                        assert(many_runs(self.recognizer, *input, tokens, remaining)
                            && remaining.text().len() > 0 && self.recognizer.fails(remaining, f));
                    }
                    return Err(ParserError::Failure(f));
                },
            }
        }
        proof {
            assert(steps(self.recognizer, points, tokens) && shrinking(points) && tokens.len() >= 1
                && points[0] == *input && points.last() == remaining);
            assert(many_runs(self.recognizer, *input, tokens, remaining) && output.text()
                == folded(tokens));
        }
        Ok((output, remaining))
    }
}

/// The index of the first character of `chars` at or after index `from` at which `pattern`
/// starts, or the length of `chars` where it starts at none.
pub open spec fn occurrence(chars: Seq<char>, pattern: Seq<char>, from: int) -> int
    decreases chars.len() - from,
{
    if from < 0 || from >= chars.len() {
        chars.len() as int
    } else if pattern.is_prefix_of(chars.skip(from)) {
        from
    } else {
        occurrence(chars, pattern, from + 1)
    }
}

/// True when `pattern` starts at no character of `chars`.
pub open spec fn absent(chars: Seq<char>, pattern: Seq<char>) -> bool {
    occurrence(chars, pattern, 0) == chars.len()
}

/// The occurrence is a place at which the pattern starts, or the end, and the pattern starts
/// at no place before it.
pub proof fn lemma_occurrence(chars: Seq<char>, pattern: Seq<char>, from: int)
    requires
        0 <= from <= chars.len(),
    ensures
        from <= occurrence(chars, pattern, from) <= chars.len(),
        occurrence(chars, pattern, from) < chars.len() ==> pattern.is_prefix_of(
            chars.skip(occurrence(chars, pattern, from)),
        ),
        forall|k: int|
            from <= k < occurrence(chars, pattern, from) ==> !pattern.is_prefix_of(
                #[trigger] chars.skip(k),
            ),
    decreases chars.len() - from,
{
    if from < chars.len() && !pattern.is_prefix_of(chars.skip(from)) {
        lemma_occurrence(chars, pattern, from + 1);
    }
}

/// A pattern of one character is absent from a text exactly where no character of the text
/// is that character.
pub proof fn lemma_absent_char(chars: Seq<char>, c: char)
    ensures
        absent(chars, seq![c]) <==> forall|k: int| 0 <= k < chars.len() ==> chars[k] != c,
{
    let pattern = seq![c];
    lemma_occurrence(chars, pattern, 0);
    let at = occurrence(chars, pattern, 0);
    if at < chars.len() {
        assert(chars.skip(at)[0] == pattern[0]);
        assert(chars[at] == c);
    } else {
        assert forall|k: int| 0 <= k < chars.len() implies chars[k] != c by {
            if chars[k] == c {
                assert(pattern =~= chars.skip(k).take(1));
                assert(pattern.is_prefix_of(chars.skip(k)));
            }
        }
    }
}

/// The index of the first pair of `sequences` whose escape sequence `chars` starts with, or
/// the number of pairs where it starts with none.
pub open spec fn known_sequence(
    sequences: Seq<(&'static str, &'static str)>,
    chars: Seq<char>,
) -> int
    decreases sequences.len(),
{
    if sequences.len() == 0 {
        0
    } else if sequences[0].0@.is_prefix_of(chars) {
        0
    } else {
        1 + known_sequence(sequences.drop_first(), chars)
    }
}

/// A recognizer for escape sequences that start with one introducer.
pub struct EscapeCharacter {
    /// The text that starts every escape sequence.
    pub introducer: &'static str,
    /// The escape sequences, each as what follows the introducer and the text that it stands
    /// for. Where several fit, the first one counts.
    pub sequences: Vec<(&'static str, &'static str)>,
}

/// The recognizer for the escape sequences `sequences` after the introducer `esc`. At the
/// introducer it reads the first of the sequences that follows it, and fails for good where
/// none does. Elsewhere it reads the text before the next introducer, or all of the text where
/// there is none.
pub fn escape_character(
    esc: &'static str,
    sequences: Vec<(&'static str, &'static str)>,
) -> (r: EscapeCharacter)
    ensures
        r.introducer == esc,
        r.sequences == sequences,
{
    EscapeCharacter { introducer: esc, sequences }
}

/// The recognizer for the escape sequences `sequences` after a backslash.
pub fn escape_backslash(sequences: Vec<(&'static str, &'static str)>) -> (r: EscapeCharacter)
    ensures
        r.introducer@ == seq!['\\'],
        r.sequences == sequences,
{
    proof {
        reveal_strlit("\\");
        assert("\\"@ =~= seq!['\\']);
    }
    EscapeCharacter { introducer: "\\", sequences }
}

impl<I: Input> Parser<I> for EscapeCharacter {
    type Output = EscapeToken<I>;

    type Error = Never;

    type Failure = InvalidEscapeSequence;

    open spec fn inv(&self) -> bool {
        true
    }

    open spec fn accepts(&self, input: I, out: EscapeToken<I>, rest: I) -> bool {
        let text = input.text();
        let intro = self.introducer@;
        if intro.is_prefix_of(text) {
            let after = text.skip(intro.len() as int);
            let k = known_sequence(self.sequences@, after);
            &&& k < self.sequences@.len()
            &&& out == EscapeToken::<I>::Escaped(self.sequences@[k].1)
            &&& rest.text() == after.skip(self.sequences@[k].0@.len() as int)
            &&& input.sub_view(
                utf8_len(text) - utf8_len(rest.text()),
                utf8_len(text) as int,
                rest,
            )
        } else {
            &&& out matches EscapeToken::Unescaped(plain)
            &&& is_split(input, plain, rest)
            &&& plain.text() == text.take(occurrence(text, intro, 0))
        }
    }

    open spec fn rejects(&self, input: I, e: Never) -> bool {
        false
    }

    open spec fn fails(&self, input: I, f: InvalidEscapeSequence) -> bool {
        let text = input.text();
        let intro = self.introducer@;
        &&& intro.is_prefix_of(text)
        &&& known_sequence(self.sequences@, text.skip(intro.len() as int))
            == self.sequences@.len()
    }

    fn parse(&self, input: &I) -> (r: ParserResult<I, EscapeToken<I>, Never,
        InvalidEscapeSequence>) {
        let ghost text = input.text();
        let ghost intro = self.introducer@;
        match input.pop(self.introducer) {
            Some((head, after)) => {
                let ghost tail = text.skip(intro.len() as int);
                proof {
                    assert(after.text() =~= tail) by {
                        assert((head.text() + after.text()).skip(head.text().len() as int)
                            =~= after.text());
                    }
                }
                let total = input.len();
                let skipped = head.len();
                let mut i: usize = 0;
                proof {
                    assert(self.sequences@.skip(0) =~= self.sequences@);
                }
                while i < self.sequences.len()
                    invariant
                        0 <= i <= self.sequences@.len(),
                        after.text() == tail,
                        known_sequence(self.sequences@, tail) == i + known_sequence(
                            self.sequences@.skip(i as int),
                            tail,
                        ),
                        total == utf8_len(text),
                        skipped == utf8_len(intro),
                        intro.is_prefix_of(text),
                        tail == text.skip(intro.len() as int),
                        text == input.text(),
                        intro == self.introducer@,
                    decreases self.sequences@.len() - i,
                {
                    let (sequence, stands_for) = self.sequences[i];
                    let ghost left = self.sequences@.skip(i as int);
                    proof {
                        assert(left[0] == self.sequences@[i as int]);
                        assert(left.drop_first() =~= self.sequences@.skip(i + 1));
                    }
                    match after.pop(sequence) {
                        Some((matched, _)) => {
                            let ghost n = (intro.len() + sequence@.len()) as int;
                            proof {
                                assert(text.take(intro.len() as int) =~= intro);
                                assert(tail.take(sequence@.len() as int) =~= sequence@);
                                lemma_take_add(text, intro.len() as int, sequence@.len() as int);
                                lemma_utf8_len_take(text, n);
                            }
                            let at = skipped + matched.len();
                            let (_, rest) = cut_after(input, at, Ghost(n));
                            proof {
                                assert(text.skip(n) =~= tail.skip(sequence@.len() as int));
                                lemma_encode_concat(text.take(n), text.skip(n));
                                assert(text.take(n) + text.skip(n) =~= text);
                            }
                            return Ok((EscapeToken::Escaped(stands_for), rest));
                        },
                        None => {},
                    }
                    i = i + 1;
                }
                proof {
                    assert(self.sequences@.skip(i as int) =~= Seq::<
                        (&'static str, &'static str),
                    >::empty());
                }
                Err(ParserError::Failure(InvalidEscapeSequence))
            },
            None => {
                let mut it = splits(input);
                proof {
                    lemma_occurrence(text, intro, 0);
                }
                loop
                    invariant
                        it.content() == *input,
                        0 <= it.index() <= text.len(),
                        text == input.text(),
                        intro == self.introducer@,
                        !intro.is_prefix_of(text),
                        occurrence(text, intro, 0) == occurrence(text, intro, it.index()),
                    ensures
                        occurrence(text, intro, 0) == text.len(),
                    decreases text.len() - it.index(),
                {
                    let ghost at = it.index();
                    match it.next() {
                        Some((a, b)) => {
                            proof {
                                assert(b.text() =~= text.skip(at)) by {
                                    assert((a.text() + b.text()).skip(a.text().len() as int)
                                        =~= b.text());
                                }
                                assert(a.text() =~= text.take(at)) by {
                                    assert((a.text() + b.text()).take(a.text().len() as int)
                                        =~= a.text());
                                }
                            }
                            match b.pop(self.introducer) {
                                Some(_) => {
                                    assert(occurrence(text, intro, at) == at);
                                    return Ok((EscapeToken::Unescaped(a), b));
                                },
                                None => {},
                            }
                        },
                        None => {
                            break ;
                        },
                    }
                }
                let n = input.len();
                proof {
                    assert(text.take(text.len() as int) =~= text);
                }
                let (all, rest) = cut_after(input, n, Ghost(text.len() as int));
                Ok((EscapeToken::Unescaped(all), rest))
            },
        }
    }
}

} // verus!
