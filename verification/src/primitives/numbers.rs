//! Numbers.
//!
//! The grammars of this module tell where the text of a number ends; what the text means is
//! left to the number type that it is read into.
use crate::input::{cut_after, is_split, Input};
use crate::parse::{NotFound, ParserError, ParserResult};
use crate::text::{byte_len, char_at, lemma_run_len_is, lemma_utf8_len_take, run_len, utf8_len};
use std::num::ParseFloatError;
use std::num::ParseIntError;
use vstd::prelude::*;
use vstd::string::StringExecFns;
use vstd::std_specs::convert::FromSpecImpl;
use vstd::utf8::{is_ascii_chars, is_ascii_chars_encode_utf8};

verus! {

/// True when `c` is one of the digits `0` to `9`.
pub open spec fn is_digit(c: char) -> bool {
    '0' <= c <= '9'
}

/// The number of digits that `chars` starts with.
pub open spec fn digits_len(chars: Seq<char>) -> nat {
    run_len(chars, |c: char| is_digit(c))
}

/// 1 where `chars` starts with `+` or `-`, else 0.
pub open spec fn sign_len(chars: Seq<char>) -> nat {
    if chars.len() > 0 && (chars[0] == '+' || chars[0] == '-') {
        1
    } else {
        0
    }
}

/// 1 where the character of `chars` at index `at` is `c`, else 0.
pub open spec fn char_len_at(chars: Seq<char>, at: int, c: char) -> nat {
    if 0 <= at < chars.len() && chars[at] == c {
        1
    } else {
        0
    }
}

/// `chars` from index `at` on; nothing where `at` is past the end.
pub open spec fn from_index(chars: Seq<char>, at: int) -> Seq<char> {
    if 0 <= at <= chars.len() {
        chars.skip(at)
    } else {
        Seq::empty()
    }
}

/// The length of the plain number that `chars` starts with: an optional sign and digits.
pub open spec fn plain_number_len(chars: Seq<char>) -> Option<nat> {
    let a = sign_len(chars);
    let d = digits_len(from_index(chars, a as int));
    if d > 0 {
        Some(a + d)
    } else {
        None
    }
}

/// The length of the positive number that `chars` starts with: an optional `+` and digits.
pub open spec fn positive_number_len(chars: Seq<char>) -> Option<nat> {
    let a = char_len_at(chars, 0, '+');
    let d = digits_len(from_index(chars, a as int));
    if d > 0 {
        Some(a + d)
    } else {
        None
    }
}

/// The length of the negative number that `chars` starts with: a `-` and digits.
pub open spec fn negative_number_len(chars: Seq<char>) -> Option<nat> {
    let d = digits_len(from_index(chars, 1));
    if char_len_at(chars, 0, '-') == 1 && d > 0 {
        Some(1 + d)
    } else {
        None
    }
}

/// The length of the digits with a decimal point that `chars` holds from index `at` on:
/// digits, a point and digits. The length counts from `at`.
pub open spec fn decimal_len_at(chars: Seq<char>, at: int) -> Option<nat> {
    let d1 = digits_len(from_index(chars, at));
    let d2 = digits_len(from_index(chars, at + d1 + 1));
    if d1 > 0 && char_len_at(chars, at + d1, '.') == 1 && d2 > 0 {
        Some(d1 + 1 + d2)
    } else {
        None
    }
}

/// The length of the digits with a decimal point that `chars` starts with.
pub open spec fn digits_with_decimal_len(chars: Seq<char>) -> Option<nat> {
    decimal_len_at(chars, 0)
}

/// The length of the number with a decimal point that `chars` starts with: an optional sign,
/// digits, a point and digits.
pub open spec fn number_with_decimal_len(chars: Seq<char>) -> Option<nat> {
    let a = sign_len(chars);
    match decimal_len_at(chars, a as int) {
        Some(n) => Some(a + n),
        None => None,
    }
}

/// The length of the number in scientific notation that `chars` starts with: an optional
/// sign, digits, an optional point, optional digits, `e` or `E`, an optional sign and digits.
pub open spec fn scientific_number_len(chars: Seq<char>) -> Option<nat> {
    let a = sign_len(chars);
    let d1 = digits_len(from_index(chars, a as int));
    let p = a + d1;
    let q = p + char_len_at(chars, p as int, '.');
    let r = q + digits_len(from_index(chars, q as int));
    let e = char_len_at(chars, r as int, 'e') + char_len_at(chars, r as int, 'E');
    let s = r + 1 + sign_len(from_index(chars, r as int + 1));
    let d3 = digits_len(from_index(chars, s as int));
    if d1 > 0 && e == 1 && d3 > 0 {
        Some(s + d3)
    } else {
        None
    }
}

/// The length of the special value that `chars` starts with: `infinity` or `inf` after an
/// optional sign, or `NaN` or `nan`.
pub open spec fn special_len(chars: Seq<char>) -> Option<nat> {
    let a = sign_len(chars);
    if "infinity"@.is_prefix_of(from_index(chars, a as int)) {
        Some(a + 8)
    } else if "inf"@.is_prefix_of(from_index(chars, a as int)) {
        Some(a + 3)
    } else if "NaN"@.is_prefix_of(chars) || "nan"@.is_prefix_of(chars) {
        Some(3)
    } else {
        None
    }
}

/// What a grammar returns on `s` whose match at the start of a text has the length `len`:
/// the first `len` characters and what follows them, or an error where there is no match.
pub open spec fn matched<I: Input>(len: Option<nat>, s: I, r: ParserResult<I, I>) -> bool {
    match r {
        Ok((out, rest)) => {
            &&& len matches Some(n)
            &&& n <= s.text().len()
            &&& out.text() == s.text().take(n as int)
            &&& is_split(s, out, rest)
        },
        Err(ParserError::Error(_)) => len is None,
        Err(ParserError::Failure(_)) => false,
    }
}

/// True when the first `n` characters of `chars` are ASCII characters.
pub open spec fn ascii_prefix(chars: Seq<char>, n: int) -> bool {
    &&& 0 <= n <= chars.len()
    &&& forall|i: int| 0 <= i < n ==> '\0' <= #[trigger] chars[i] <= '\u{7f}'
}

/// A prefix of ASCII characters takes one byte for each.
pub proof fn lemma_ascii_prefix(chars: Seq<char>, n: int)
    requires
        ascii_prefix(chars, n),
    ensures
        utf8_len(chars.take(n)) == n,
        n < chars.len() ==> n < utf8_len(chars),
        n == chars.len() ==> n == utf8_len(chars),
{
    let head = chars.take(n);
    assert(is_ascii_chars(head)) by {
        assert forall|i: int| 0 <= i < head.len() implies '\0' <= #[trigger] head[i]
            <= '\u{7f}' by {
            assert(head[i] == chars[i]);
        }
    }
    is_ascii_chars_encode_utf8(head);
    lemma_utf8_len_take(chars, n);
    if n == chars.len() {
        assert(head =~= chars);
    }
}

/// The character of `t` at index `at`, if there is one; the characters before it are ASCII.
fn peek(t: &str, at: usize) -> (r: Option<char>)
    requires
        ascii_prefix(t@, at as int),
    ensures
        r == if at < t@.len() {
            Some(t@[at as int])
        } else {
            None::<char>
        },
{
    proof {
        lemma_ascii_prefix(t@, at as int);
    }
    if at < byte_len(t) {
        Some(char_at(t, at, Ghost(at as int)))
    } else {
        None
    }
}

/// True when `c` is one of the digits `0` to `9`.
fn digit(c: char) -> (b: bool)
    ensures
        b == is_digit(c),
{
    let v = c as u32;
    48 <= v && v <= 57
}

/// The index after the digits that `t` holds from index `at` on.
fn skip_digits(t: &str, at: usize) -> (n: usize)
    requires
        ascii_prefix(t@, at as int),
    ensures
        n == at + digits_len(from_index(t@, at as int)),
        ascii_prefix(t@, n as int),
{
    let mut n = at;
    loop
        invariant
            at <= n,
            ascii_prefix(t@, n as int),
            forall|i: int| at <= i < n ==> is_digit(#[trigger] t@[i]),
        ensures
            at <= n,
            ascii_prefix(t@, n as int),
            forall|i: int| at <= i < n ==> is_digit(#[trigger] t@[i]),
            n < t@.len() ==> !is_digit(t@[n as int]),
        decreases t@.len() - n,
    {
        match peek(t, n) {
            Some(c) => {
                if !digit(c) {
                    break ;
                }
                proof {
                    lemma_ascii_prefix(t@, n as int);
                }
                // The length of the text bounds the index, which is before its end.
                let _len = byte_len(t);
                n = n + 1;
            },
            None => {
                break ;
            },
        }
    }
    proof {
        let tail = t@.skip(at as int);
        let p = |c: char| is_digit(c);
        assert forall|i: int| 0 <= i < n - at implies p(#[trigger] tail[i]) by {
            assert(tail[i] == t@[at + i]);
        }
        if n - at < tail.len() {
            assert(tail[n - at] == t@[n as int]);
        }
        lemma_run_len_is(tail, p, n - at);
    }
    n
}

/// The index after the character of `t` at index `at` where that is `a` or `b`, which are
/// ASCII characters; else `at`.
fn skip_either(t: &str, at: usize, a: char, b: char) -> (n: usize)
    requires
        ascii_prefix(t@, at as int),
        a <= '\u{7f}',
        b <= '\u{7f}',
    ensures
        n == at + if at < t@.len() && (t@[at as int] == a || t@[at as int] == b) {
            1nat
        } else {
            0nat
        },
        ascii_prefix(t@, n as int),
{
    match peek(t, at) {
        Some(c) => {
            if c == a || c == b {
                proof {
                    lemma_ascii_prefix(t@, at as int);
                }
                // The length of the text bounds the index, which is before its end.
                let _len = byte_len(t);
                at + 1
            } else {
                at
            }
        },
        None => at,
    }
}

/// True when `t` holds the ASCII text `lit` from index `at` on.
fn literal_at(t: &str, at: usize, lit: &str) -> (b: bool)
    requires
        ascii_prefix(t@, at as int),
        ascii_prefix(lit@, lit@.len() as int),
    ensures
        b == lit@.is_prefix_of(from_index(t@, at as int)),
        b ==> ascii_prefix(t@, at + lit@.len()),
{
    let m = byte_len(lit);
    let total = byte_len(t);
    proof {
        lemma_ascii_prefix(lit@, lit@.len() as int);
        lemma_ascii_prefix(t@, at as int);
    }
    let mut i: usize = 0;
    while i < m
        invariant
            m == lit@.len(),
            total == utf8_len(t@),
            i <= m,
            at + i <= t@.len(),
            ascii_prefix(t@, at as int),
            ascii_prefix(lit@, lit@.len() as int),
            ascii_prefix(t@, at + i),
            forall|j: int| 0 <= j < i ==> lit@[j] == t@[at + j],
        decreases m - i,
    {
        proof {
            lemma_ascii_prefix(t@, at + i);
        }
        let c = match peek(t, at + i) {
            Some(c) => c,
            None => {
                assert(!lit@.is_prefix_of(t@.skip(at as int)));
                return false;
            },
        };
        assert(ascii_prefix(lit@, i as int));
        let d = match peek(lit, i) {
            Some(d) => d,
            None => {
                return false;
            },
        };
        if c != d {
            proof {
                if lit@.is_prefix_of(t@.skip(at as int)) {
                    assert(t@.skip(at as int)[i as int] == lit@[i as int]);
                }
            }
            return false;
        }
        i = i + 1;
    }
    proof {
        assert(lit@ =~= t@.skip(at as int).take(lit@.len() as int));
    }
    true
}

/// Cuts `s` after its first `n` characters, which are ASCII characters.
fn cut_ascii<I: Input>(s: &I, n: usize) -> (r: (I, I))
    requires
        ascii_prefix(s.text(), n as int),
    ensures
        is_split(*s, r.0, r.1),
        r.0.text() == s.text().take(n as int),
{
    proof {
        lemma_ascii_prefix(s.text(), n as int);
    }
    cut_after(s, n, Ghost(n as int))
}

/// Matches a sign: `+` or `-`.
pub fn sign<I: Input>(s: &I) -> (r: ParserResult<I, I>)
    ensures
        matched(if sign_len(s.text()) == 1 { Some(1nat) } else { None }, *s, r),
{
    let n = skip_either(s.as_str(), 0, '+', '-');
    if n == 1 {
        Ok(cut_ascii(s, n))
    } else {
        Err(ParserError::Error(NotFound))
    }
}

/// Matches digits: one or more of `0` to `9`.
pub fn digits<I: Input>(s: &I) -> (r: ParserResult<I, I>)
    ensures
        matched(
            if digits_len(s.text()) > 0 { Some(digits_len(s.text())) } else { None },
            *s,
            r,
        ),
{
    proof {
        assert(s.text().skip(0) =~= s.text());
    }
    let n = skip_digits(s.as_str(), 0);
    if n > 0 {
        Ok(cut_ascii(s, n))
    } else {
        Err(ParserError::Error(NotFound))
    }
}

/// The index after the digits with a decimal point that `t` holds from index `at` on, if it
/// holds them.
fn skip_decimal(t: &str, at: usize) -> (r: Option<usize>)
    requires
        ascii_prefix(t@, at as int),
    ensures
        match r {
            Some(n) => {
                &&& at < n
                &&& decimal_len_at(t@, at as int) == Some((n - at) as nat)
                &&& ascii_prefix(t@, n as int)
            },
            None => decimal_len_at(t@, at as int) is None,
        },
{
    let p = skip_digits(t, at);
    if p == at {
        return None;
    }
    let q = skip_either(t, p, '.', '.');
    if q == p {
        return None;
    }
    let n = skip_digits(t, q);
    if n == q {
        return None;
    }
    Some(n)
}

/// Matches digits with a decimal point: digits, a point and digits.
pub fn digits_with_decimal<I: Input>(s: &I) -> (r: ParserResult<I, I>)
    ensures
        matched(digits_with_decimal_len(s.text()), *s, r),
{
    match skip_decimal(s.as_str(), 0) {
        Some(n) => Ok(cut_ascii(s, n)),
        None => Err(ParserError::Error(NotFound)),
    }
}

/// Matches a plain number: an optional sign and digits.
pub fn plain_number<I: Input>(s: &I) -> (r: ParserResult<I, I>)
    ensures
        matched(plain_number_len(s.text()), *s, r),
{
    let t = s.as_str();
    let a = skip_either(t, 0, '+', '-');
    let n = skip_digits(t, a);
    if n > a {
        Ok(cut_ascii(s, n))
    } else {
        Err(ParserError::Error(NotFound))
    }
}

/// Matches a positive number: an optional `+` and digits.
pub fn positive_number<I: Input>(s: &I) -> (r: ParserResult<I, I>)
    ensures
        matched(positive_number_len(s.text()), *s, r),
{
    let t = s.as_str();
    let a = skip_either(t, 0, '+', '+');
    let n = skip_digits(t, a);
    if n > a {
        Ok(cut_ascii(s, n))
    } else {
        Err(ParserError::Error(NotFound))
    }
}

/// Matches a negative number: a `-` and digits.
pub fn negative_number<I: Input>(s: &I) -> (r: ParserResult<I, I>)
    ensures
        matched(negative_number_len(s.text()), *s, r),
{
    let t = s.as_str();
    let a = skip_either(t, 0, '-', '-');
    if a == 0 {
        return Err(ParserError::Error(NotFound));
    }
    let n = skip_digits(t, a);
    if n > a {
        Ok(cut_ascii(s, n))
    } else {
        Err(ParserError::Error(NotFound))
    }
}

/// Matches a number with a decimal point: an optional sign, digits, a point and digits.
pub fn number_with_decimal<I: Input>(s: &I) -> (r: ParserResult<I, I>)
    ensures
        matched(number_with_decimal_len(s.text()), *s, r),
{
    let t = s.as_str();
    let a = skip_either(t, 0, '+', '-');
    match skip_decimal(t, a) {
        Some(n) => Ok(cut_ascii(s, n)),
        None => Err(ParserError::Error(NotFound)),
    }
}

/// Matches a number in scientific notation: an optional sign, digits, an optional point,
/// optional digits, `e` or `E`, an optional sign and digits.
pub fn scientific_number<I: Input>(s: &I) -> (r: ParserResult<I, I>)
    ensures
        matched(scientific_number_len(s.text()), *s, r),
{
    let t = s.as_str();
    let a = skip_either(t, 0, '+', '-');
    let p = skip_digits(t, a);
    if p == a {
        return Err(ParserError::Error(NotFound));
    }
    let q = skip_either(t, p, '.', '.');
    let r = skip_digits(t, q);
    let e = skip_either(t, r, 'e', 'E');
    if e == r {
        return Err(ParserError::Error(NotFound));
    }
    proof {
        assert(from_index(t@, e as int).len() > 0 ==> from_index(t@, e as int)[0] == t@[e as int]);
    }
    let g = skip_either(t, e, '+', '-');
    let n = skip_digits(t, g);
    if n > g {
        Ok(cut_ascii(s, n))
    } else {
        Err(ParserError::Error(NotFound))
    }
}

/// Matches a special value: `infinity` or `inf` after an optional sign, or `NaN` or `nan`.
pub fn special<I: Input>(s: &I) -> (r: ParserResult<I, I>)
    ensures
        matched(special_len(s.text()), *s, r),
{
    proof {
        reveal_strlit("infinity");
        reveal_strlit("inf");
        reveal_strlit("NaN");
        reveal_strlit("nan");
        assert(s.text().skip(0) =~= s.text());
    }
    let t = s.as_str();
    let a = skip_either(t, 0, '+', '-');
    if literal_at(t, a, "infinity") {
        Ok(cut_ascii(s, a + 8))
    } else if literal_at(t, a, "inf") {
        Ok(cut_ascii(s, a + 3))
    } else if literal_at(t, 0, "NaN") || literal_at(t, 0, "nan") {
        Ok(cut_ascii(s, 3))
    } else {
        Err(ParserError::Error(NotFound))
    }
}

/// The text of a number, marked by its form.
#[derive(Debug, Clone, PartialEq, Eq, PartialOrd, Ord, Hash)]
pub enum NumberToken<I> {
    /// An optional sign and digits.
    Plain(I),
    /// An optional sign, digits, a point and digits.
    WithDecimal(I),
    /// A number in scientific notation.
    Scientific(I),
}

/// The type of number that the text of a number is read into.
#[derive(Debug, Clone, Copy, PartialEq, Eq)]
pub enum NumberKind {
    /// A whole number without a `-`.
    Unsigned,
    /// A whole number with a `-`.
    Signed,
    /// A number with a decimal point or an exponent.
    Real,
}

impl<I> NumberToken<I> {
    /// The text of the number.
    pub open spec fn literal(&self) -> I {
        match *self {
            NumberToken::Plain(x) => x,
            NumberToken::WithDecimal(x) => x,
            NumberToken::Scientific(x) => x,
        }
    }

    /// The text of the number.
    pub fn unwrap(self) -> (r: I)
        ensures
            r == self.literal(),
    {
        match self {
            NumberToken::Plain(x) => x,
            NumberToken::WithDecimal(x) => x,
            NumberToken::Scientific(x) => x,
        }
    }
}

/// The form and the length of the number that `chars` starts with. The forms are tried from
/// the most specific one: scientific notation, then a decimal point, then a plain number.
pub open spec fn number_len(chars: Seq<char>) -> Option<nat> {
    if scientific_number_len(chars) is Some {
        scientific_number_len(chars)
    } else if number_with_decimal_len(chars) is Some {
        number_with_decimal_len(chars)
    } else {
        plain_number_len(chars)
    }
}

impl<I: Input> NumberToken<I> {
    /// Matches a number in one of its three forms, tried from the most specific one, so that
    /// a plain number is not taken from the start of a longer one.
    pub fn parse(s: &I) -> (r: ParserResult<I, Self>)
        ensures
            match r {
                Ok((token, rest)) => {
                    &&& matched(number_len(s.text()), *s, Ok((token.literal(), rest)))
                    &&& token is Scientific <==> scientific_number_len(s.text()) is Some
                    &&& token is Plain <==> scientific_number_len(s.text()) is None
                        && number_with_decimal_len(s.text()) is None
                },
                Err(ParserError::Error(_)) => number_len(s.text()) is None,
                Err(ParserError::Failure(_)) => false,
            },
    {
        match scientific_number(s) {
            Ok((out, rest)) => {
                return Ok((NumberToken::Scientific(out), rest));
            },
            Err(_) => {},
        }
        match number_with_decimal(s) {
            Ok((out, rest)) => {
                return Ok((NumberToken::WithDecimal(out), rest));
            },
            Err(_) => {},
        }
        match plain_number(s) {
            Ok((out, rest)) => Ok((NumberToken::Plain(out), rest)),
            Err(_) => Err(ParserError::Error(NotFound)),
        }
    }

    /// The type of number that this text is read into: a plain number is unsigned unless it
    /// starts with `-`, and every other number is real.
    pub fn kind(&self) -> (r: NumberKind)
        ensures
            r == match *self {
                NumberToken::Plain(x) => if x.text().len() > 0 && x.text()[0] == '-' {
                    NumberKind::Signed
                } else {
                    NumberKind::Unsigned
                },
                _ => NumberKind::Real,
            },
    {
        match self {
            NumberToken::Plain(x) => {
                proof {
                    assert(ascii_prefix(x.text(), 0));
                }
                match peek(x.as_str(), 0) {
                    Some(c) => {
                        if c == '-' {
                            NumberKind::Signed
                        } else {
                            NumberKind::Unsigned
                        }
                    },
                    None => NumberKind::Unsigned,
                }
            },
            _ => NumberKind::Real,
        }
    }
}

/// The value of the digit `c`.
pub open spec fn digit_value(c: char) -> nat {
    (c as u32 - 48) as nat
}

/// True when every character of `chars` is a digit.
pub open spec fn all_digits(chars: Seq<char>) -> bool {
    forall|i: int| 0 <= i < chars.len() ==> is_digit(#[trigger] chars[i])
}

/// The number that the digits `digits` write in base ten.
pub open spec fn decimal_value(digits: Seq<char>) -> nat
    decreases digits.len(),
{
    if digits.len() == 0 {
        0
    } else {
        decimal_value(digits.drop_last()) * 10 + digit_value(digits.last())
    }
}

/// The number that `chars` writes as an unsigned number: an optional `+` and one or more
/// digits, and nothing else. Nothing where `chars` is not of that form.
pub open spec fn unsigned_value(chars: Seq<char>) -> Option<nat> {
    let body = from_index(chars, char_len_at(chars, 0, '+') as int);
    if body.len() > 0 && all_digits(body) {
        Some(decimal_value(body))
    } else {
        None
    }
}

/// The number that `chars` writes as a signed number: an optional `+` or `-` and one or more
/// digits, and nothing else. Nothing where `chars` is not of that form.
pub open spec fn signed_value(chars: Seq<char>) -> Option<int> {
    let body = from_index(chars, sign_len(chars) as int);
    if body.len() > 0 && all_digits(body) {
        if chars[0] == '-' {
            Some(-(decimal_value(body) as int))
        } else {
            Some(decimal_value(body) as int)
        }
    } else {
        None
    }
}

/// The number that `chars` writes as an unsigned number, where it is at most `max`.
pub open spec fn unsigned_within(chars: Seq<char>, max: nat) -> Option<nat> {
    match unsigned_value(chars) {
        Some(v) => if v <= max {
            Some(v)
        } else {
            None
        },
        None => None,
    }
}

/// The number that `chars` writes as a signed number, where it is from `min` to `max`.
pub open spec fn signed_within(chars: Seq<char>, min: int, max: int) -> Option<int> {
    match signed_value(chars) {
        Some(v) => if min <= v <= max {
            Some(v)
        } else {
            None
        },
        None => None,
    }
}

/// The error of the standard library for text that is not an integer of the type asked for.
#[verifier::external_type_specification]
#[verifier::external_body]
pub struct ExParseIntError(ParseIntError);

/// The error of the standard library for text that is not a real number.
#[verifier::external_type_specification]
#[verifier::external_body]
pub struct ExParseFloatError(ParseFloatError);

/// An unsigned number type that text can be read into.
pub trait UnsignedInteger: Sized {
    /// The error of the type for text that it cannot read.
    type Err;

    /// The number of this type that `chars` writes, where it writes one.
    spec fn read(chars: Seq<char>) -> Option<Self>;

    /// Reads `s` as a number of this type.
    fn from_text(s: &str) -> (r: Result<Self, Self::Err>)
        ensures
            r is Ok <==> Self::read(s@) is Some,
            r matches Ok(v) ==> Self::read(s@) == Some(v),
    ;
}

/// A signed number type that text can be read into.
pub trait Integer: Sized {
    /// The error of the type for text that it cannot read.
    type Err;

    /// The number of this type that `chars` writes, where it writes one.
    spec fn read(chars: Seq<char>) -> Option<Self>;

    /// Reads `s` as a number of this type.
    fn from_text(s: &str) -> (r: Result<Self, Self::Err>)
        ensures
            r is Ok <==> Self::read(s@) is Some,
            r matches Ok(v) ==> Self::read(s@) == Some(v),
    ;
}

/// Calls `str::parse::<u8>`, the standard library's `FromStr` for `u8`. The library reads an
/// optional `+` followed by decimal digits and nothing else, and returns their value where it
/// fits the type; every other text is an error. The contract states that.
#[verifier::external_body]
fn parse_u8(s: &str) -> (r: Result<u8, ParseIntError>)
    ensures
        r is Ok <==> unsigned_within(s@, u8::MAX as nat) is Some,
        r matches Ok(v) ==> unsigned_within(s@, u8::MAX as nat) == Some(v as nat),
{
    s.parse::<u8>()
}

impl UnsignedInteger for u8 {
    type Err = ParseIntError;

    open spec fn read(chars: Seq<char>) -> Option<u8> {
        match unsigned_within(chars, u8::MAX as nat) {
            Some(v) => Some(v as u8),
            None => None,
        }
    }

    fn from_text(s: &str) -> (r: Result<u8, ParseIntError>) {
        parse_u8(s)
    }
}

/// Calls `str::parse::<u16>`, the standard library's `FromStr` for `u16`. The library reads an
/// optional `+` followed by decimal digits and nothing else, and returns their value where it
/// fits the type; every other text is an error. The contract states that.
#[verifier::external_body]
fn parse_u16(s: &str) -> (r: Result<u16, ParseIntError>)
    ensures
        r is Ok <==> unsigned_within(s@, u16::MAX as nat) is Some,
        r matches Ok(v) ==> unsigned_within(s@, u16::MAX as nat) == Some(v as nat),
{
    s.parse::<u16>()
}

impl UnsignedInteger for u16 {
    type Err = ParseIntError;

    open spec fn read(chars: Seq<char>) -> Option<u16> {
        match unsigned_within(chars, u16::MAX as nat) {
            Some(v) => Some(v as u16),
            None => None,
        }
    }

    fn from_text(s: &str) -> (r: Result<u16, ParseIntError>) {
        parse_u16(s)
    }
}

/// Calls `str::parse::<u32>`, the standard library's `FromStr` for `u32`. The library reads an
/// optional `+` followed by decimal digits and nothing else, and returns their value where it
/// fits the type; every other text is an error. The contract states that.
#[verifier::external_body]
fn parse_u32(s: &str) -> (r: Result<u32, ParseIntError>)
    ensures
        r is Ok <==> unsigned_within(s@, u32::MAX as nat) is Some,
        r matches Ok(v) ==> unsigned_within(s@, u32::MAX as nat) == Some(v as nat),
{
    s.parse::<u32>()
}

impl UnsignedInteger for u32 {
    type Err = ParseIntError;

    open spec fn read(chars: Seq<char>) -> Option<u32> {
        match unsigned_within(chars, u32::MAX as nat) {
            Some(v) => Some(v as u32),
            None => None,
        }
    }

    fn from_text(s: &str) -> (r: Result<u32, ParseIntError>) {
        parse_u32(s)
    }
}

/// Calls `str::parse::<u64>`, the standard library's `FromStr` for `u64`. The library reads an
/// optional `+` followed by decimal digits and nothing else, and returns their value where it
/// fits the type; every other text is an error. The contract states that.
#[verifier::external_body]
fn parse_u64(s: &str) -> (r: Result<u64, ParseIntError>)
    ensures
        r is Ok <==> unsigned_within(s@, u64::MAX as nat) is Some,
        r matches Ok(v) ==> unsigned_within(s@, u64::MAX as nat) == Some(v as nat),
{
    s.parse::<u64>()
}

impl UnsignedInteger for u64 {
    type Err = ParseIntError;

    open spec fn read(chars: Seq<char>) -> Option<u64> {
        match unsigned_within(chars, u64::MAX as nat) {
            Some(v) => Some(v as u64),
            None => None,
        }
    }

    fn from_text(s: &str) -> (r: Result<u64, ParseIntError>) {
        parse_u64(s)
    }
}

/// Calls `str::parse::<u128>`, the standard library's `FromStr` for `u128`. The library reads an
/// optional `+` followed by decimal digits and nothing else, and returns their value where it
/// fits the type; every other text is an error. The contract states that.
#[verifier::external_body]
fn parse_u128(s: &str) -> (r: Result<u128, ParseIntError>)
    ensures
        r is Ok <==> unsigned_within(s@, u128::MAX as nat) is Some,
        r matches Ok(v) ==> unsigned_within(s@, u128::MAX as nat) == Some(v as nat),
{
    s.parse::<u128>()
}

impl UnsignedInteger for u128 {
    type Err = ParseIntError;

    open spec fn read(chars: Seq<char>) -> Option<u128> {
        match unsigned_within(chars, u128::MAX as nat) {
            Some(v) => Some(v as u128),
            None => None,
        }
    }

    fn from_text(s: &str) -> (r: Result<u128, ParseIntError>) {
        parse_u128(s)
    }
}

/// Calls `str::parse::<i8>`, the standard library's `FromStr` for `i8`. The library reads an
/// optional `+` or `-` followed by decimal digits and nothing else, and returns their value
/// where it fits the type; every other text is an error. The contract states that.
#[verifier::external_body]
fn parse_i8(s: &str) -> (r: Result<i8, ParseIntError>)
    ensures
        r is Ok <==> signed_within(s@, i8::MIN as int, i8::MAX as int) is Some,
        r matches Ok(v) ==> signed_within(s@, i8::MIN as int, i8::MAX as int) == Some(v as int),
{
    s.parse::<i8>()
}

impl Integer for i8 {
    type Err = ParseIntError;

    open spec fn read(chars: Seq<char>) -> Option<i8> {
        match signed_within(chars, i8::MIN as int, i8::MAX as int) {
            Some(v) => Some(v as i8),
            None => None,
        }
    }

    fn from_text(s: &str) -> (r: Result<i8, ParseIntError>) {
        parse_i8(s)
    }
}

/// Calls `str::parse::<i16>`, the standard library's `FromStr` for `i16`. The library reads an
/// optional `+` or `-` followed by decimal digits and nothing else, and returns their value
/// where it fits the type; every other text is an error. The contract states that.
#[verifier::external_body]
fn parse_i16(s: &str) -> (r: Result<i16, ParseIntError>)
    ensures
        r is Ok <==> signed_within(s@, i16::MIN as int, i16::MAX as int) is Some,
        r matches Ok(v) ==> signed_within(s@, i16::MIN as int, i16::MAX as int) == Some(v as int),
{
    s.parse::<i16>()
}

impl Integer for i16 {
    type Err = ParseIntError;

    open spec fn read(chars: Seq<char>) -> Option<i16> {
        match signed_within(chars, i16::MIN as int, i16::MAX as int) {
            Some(v) => Some(v as i16),
            None => None,
        }
    }

    fn from_text(s: &str) -> (r: Result<i16, ParseIntError>) {
        parse_i16(s)
    }
}

/// Calls `str::parse::<i32>`, the standard library's `FromStr` for `i32`. The library reads an
/// optional `+` or `-` followed by decimal digits and nothing else, and returns their value
/// where it fits the type; every other text is an error. The contract states that.
#[verifier::external_body]
fn parse_i32(s: &str) -> (r: Result<i32, ParseIntError>)
    ensures
        r is Ok <==> signed_within(s@, i32::MIN as int, i32::MAX as int) is Some,
        r matches Ok(v) ==> signed_within(s@, i32::MIN as int, i32::MAX as int) == Some(v as int),
{
    s.parse::<i32>()
}

impl Integer for i32 {
    type Err = ParseIntError;

    open spec fn read(chars: Seq<char>) -> Option<i32> {
        match signed_within(chars, i32::MIN as int, i32::MAX as int) {
            Some(v) => Some(v as i32),
            None => None,
        }
    }

    fn from_text(s: &str) -> (r: Result<i32, ParseIntError>) {
        parse_i32(s)
    }
}

/// Calls `str::parse::<i64>`, the standard library's `FromStr` for `i64`. The library reads an
/// optional `+` or `-` followed by decimal digits and nothing else, and returns their value
/// where it fits the type; every other text is an error. The contract states that.
#[verifier::external_body]
fn parse_i64(s: &str) -> (r: Result<i64, ParseIntError>)
    ensures
        r is Ok <==> signed_within(s@, i64::MIN as int, i64::MAX as int) is Some,
        r matches Ok(v) ==> signed_within(s@, i64::MIN as int, i64::MAX as int) == Some(v as int),
{
    s.parse::<i64>()
}

impl Integer for i64 {
    type Err = ParseIntError;

    open spec fn read(chars: Seq<char>) -> Option<i64> {
        match signed_within(chars, i64::MIN as int, i64::MAX as int) {
            Some(v) => Some(v as i64),
            None => None,
        }
    }

    fn from_text(s: &str) -> (r: Result<i64, ParseIntError>) {
        parse_i64(s)
    }
}

/// Calls `str::parse::<i128>`, the standard library's `FromStr` for `i128`. The library reads an
/// optional `+` or `-` followed by decimal digits and nothing else, and returns their value
/// where it fits the type; every other text is an error. The contract states that.
#[verifier::external_body]
fn parse_i128(s: &str) -> (r: Result<i128, ParseIntError>)
    ensures
        r is Ok <==> signed_within(s@, i128::MIN as int, i128::MAX as int) is Some,
        r matches Ok(v) ==> signed_within(s@, i128::MIN as int, i128::MAX as int) == Some(v as int),
{
    s.parse::<i128>()
}

impl Integer for i128 {
    type Err = ParseIntError;

    open spec fn read(chars: Seq<char>) -> Option<i128> {
        match signed_within(chars, i128::MIN as int, i128::MAX as int) {
            Some(v) => Some(v as i128),
            None => None,
        }
    }

    fn from_text(s: &str) -> (r: Result<i128, ParseIntError>) {
        parse_i128(s)
    }
}

/// What [`integer`] and [`unsigned_integer`] return on `s`, where `len` is the length of the
/// number that the text starts with and `value` is the number that its text writes: the
/// number and what follows its text, an error where the text starts with no number, and a
/// permanent failure where the type cannot hold what the text writes.
pub open spec fn converted<I: Input, O, E>(
    len: Option<nat>,
    value: spec_fn(Seq<char>) -> Option<O>,
    s: I,
    r: ParserResult<I, O, NotFound, E>,
) -> bool {
    match r {
        Ok((v, rest)) => {
            &&& len matches Some(n)
            &&& n <= s.text().len()
            &&& value(s.text().take(n as int)) == Some(v)
            &&& rest.text() == s.text().skip(n as int)
            &&& s.sub_view(
                utf8_len(s.text().take(n as int)) as int,
                utf8_len(s.text()) as int,
                rest,
            )
        },
        Err(ParserError::Error(_)) => len is None,
        Err(ParserError::Failure(_)) => {
            &&& len matches Some(n)
            &&& n <= s.text().len()
            &&& value(s.text().take(n as int)) is None
        },
    }
}

/// Matches a plain number and reads it into the signed number type `O`. The error of `O` for
/// text that it cannot hold is a permanent failure.
pub fn integer<I: Input, O: Integer>(s: &I) -> (r: ParserResult<I, O, NotFound, O::Err>)
    ensures
        converted(plain_number_len(s.text()), |chars: Seq<char>| O::read(chars), *s, r),
{
    match plain_number(s) {
        Ok((n, remaining)) => {
            proof {
                assert(s.text().skip(n.text().len() as int) =~= remaining.text());
            }
            match O::from_text(n.as_str()) {
                Ok(output) => Ok((output, remaining)),
                Err(e) => Err(ParserError::Failure(e)),
            }
        },
        Err(_) => Err(ParserError::Error(NotFound)),
    }
}

/// Matches a positive number and reads it into the unsigned number type `O`. The error of `O`
/// for text that it cannot hold is a permanent failure.
pub fn unsigned_integer<I: Input, O: UnsignedInteger>(s: &I) -> (r: ParserResult<
    I,
    O,
    NotFound,
    O::Err,
>)
    ensures
        converted(positive_number_len(s.text()), |chars: Seq<char>| O::read(chars), *s, r),
{
    match positive_number(s) {
        Ok((n, remaining)) => {
            proof {
                assert(s.text().skip(n.text().len() as int) =~= remaining.text());
            }
            match O::from_text(n.as_str()) {
                Ok(output) => Ok((output, remaining)),
                Err(e) => Err(ParserError::Failure(e)),
            }
        },
        Err(_) => Err(ParserError::Error(NotFound)),
    }
}

/// The failure of a parser for numbers of any kind: the error of the standard library for
/// the kind of number that the text was read as.
#[derive(Debug, PartialEq, Eq)]
pub enum NumberFailure {
    Int(ParseIntError),
    Real(ParseFloatError),
}

impl From<ParseFloatError> for NumberFailure {
    fn from(v: ParseFloatError) -> (r: Self) {
        NumberFailure::Real(v)
    }
}

impl FromSpecImpl<ParseFloatError> for NumberFailure {
    open spec fn obeys_from_spec() -> bool {
        true
    }

    open spec fn from_spec(v: ParseFloatError) -> Self {
        NumberFailure::Real(v)
    }
}

impl From<ParseIntError> for NumberFailure {
    fn from(v: ParseIntError) -> (r: Self) {
        NumberFailure::Int(v)
    }
}

impl FromSpecImpl<ParseIntError> for NumberFailure {
    open spec fn obeys_from_spec() -> bool {
        true
    }

    open spec fn from_spec(v: ParseIntError) -> Self {
        NumberFailure::Int(v)
    }
}

/// The digit that writes the number `d`, which is below ten.
pub open spec fn digit_char(d: nat) -> char {
    (d + 48) as char
}

/// The digits that write `n` in base ten, without a leading zero but for 0 itself.
pub open spec fn digits_of(n: nat) -> Seq<char>
    decreases n,
{
    if n < 10 {
        seq![digit_char(n)]
    } else {
        digits_of(n / 10).push(digit_char(n % 10))
    }
}

/// The digits that write a number are digits, and they write that number.
pub proof fn lemma_digits_of(n: nat)
    ensures
        digits_of(n).len() >= 1,
        all_digits(digits_of(n)),
        decimal_value(digits_of(n)) == n,
    decreases n,
{
    if n < 10 {
        let s = digits_of(n);
        assert(s.drop_last() =~= Seq::<char>::empty());
        assert(is_digit(s[0]));
        assert(digit_value(s[0]) == n);
        assert(decimal_value(s) == n) by {
            reveal_with_fuel(decimal_value, 2);
        }
    } else {
        lemma_digits_of(n / 10);
        let head = digits_of(n / 10);
        let d = digit_char(n % 10);
        let s = head.push(d);
        assert(s.drop_last() =~= head);
        assert(is_digit(d));
        assert(digit_value(d) == n % 10);
        assert forall|i: int| 0 <= i < s.len() implies is_digit(#[trigger] s[i]) by {
            if i < head.len() {
                assert(s[i] == head[i]);
            }
        }
    }
}


/// The digit that writes `d`, which is below ten, as text.
fn digit_text(d: usize) -> (r: &'static str)
    requires
        d < 10,
    ensures
        r@ == seq![digit_char(d as nat)],
{
    proof {
        reveal_strlit("0");
        reveal_strlit("1");
        reveal_strlit("2");
        reveal_strlit("3");
        reveal_strlit("4");
        reveal_strlit("5");
        reveal_strlit("6");
        reveal_strlit("7");
        reveal_strlit("8");
        reveal_strlit("9");
    }
    let r = if d == 0 {
        "0"
    } else if d == 1 {
        "1"
    } else if d == 2 {
        "2"
    } else if d == 3 {
        "3"
    } else if d == 4 {
        "4"
    } else if d == 5 {
        "5"
    } else if d == 6 {
        "6"
    } else if d == 7 {
        "7"
    } else if d == 8 {
        "8"
    } else {
        "9"
    };
    assert(r@ =~= seq![digit_char(d as nat)]);
    r
}

/// The digits that write `n` in base ten, as text.
pub fn decimal_string(n: usize) -> (r: String)
    ensures
        r@ == digits_of(n as nat),
    decreases n,
{
    if n < 10 {
        digit_text(n).to_owned()
    } else {
        let mut s = decimal_string(n / 10);
        s.append(digit_text(n % 10));
        proof {
            let d = digit_char((n % 10) as nat);
            assert(digits_of((n / 10) as nat) + seq![d] =~= digits_of((n / 10) as nat).push(d));
        }
        s
    }
}

} // verus!
