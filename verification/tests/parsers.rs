use text_parsers::combinators::escaped::{
    escape, escape_backslash, escape_character, EscapeToken, InvalidEscapeSequence,
};
use text_parsers::combinators::many::{delimited, many, repeat};
use text_parsers::combinators::required::{required, required_or};
use text_parsers::combinators::sandwich::{between, key_value, sandwich};
use text_parsers::combinators::take_until::take_until;
use text_parsers::input::span::{Id, Span, TransformedSpan};
use text_parsers::input::string::SharedString;
use text_parsers::input::Input;
use text_parsers::parse::{
    fuse, try_from_streaming, Choice, Compose, ErrorWasIncomplete, Fusable, FuseSequence,
    Incomplete, IntoStreamingParser, IntoStreamingResult, Never, NotFound, Parser, ParserError,
    ParserResult, Sequence, StreamingError, StreamingOk, StreamingParser, StreamingResult,
};
use text_parsers::primitives::lines::{eof, eol, line_stream};
use text_parsers::primitives::numbers::{
    digits, digits_with_decimal, integer, negative_number, number_with_decimal, plain_number,
    positive_number, scientific_number, sign, special, unsigned_integer, NumberFailure, NumberKind,
    NumberToken,
};
use text_parsers::primitives::quote::{
    double_quoted_stream, find_quote_mark, quoted, quoted_stream, single_quoted,
    single_quoted_stream, UnterminatedQuote, DOUBLE_QUOTE, ESCAPE, SINGLE_QUOTE,
};
use text_parsers::primitives::tag::{tag, tag_no_case};
use text_parsers::primitives::take;
use text_parsers::primitives::whitespace::{whitespace, whitespace_stream, Whitespace};
use text_parsers::util::conditional_transforms::{
    CompleteIf, EitherCompleteIf, MaybeCompleteIf, NoPartial, OrFail, OrIncomplete, OrNotFound,
    StreamingOrNotFound,
};
use text_parsers::util::rotate::{Rotate, RotateFn};

fn not_found<O>() -> ParserResult<&'static str, O> {
    Err(ParserError::Error(NotFound))
}

#[test]
fn delimited_list_leaves_a_trailing_separator() {
    let one_digit = take::take_while(|c: char| c.is_ascii_digit());
    assert_eq!(
        delimited(one_digit, ",").parse(&"1,2,3"),
        Ok((vec!["1", "2", "3"], ""))
    );
    let one_digit = take::take_while(|c: char| c.is_ascii_digit());
    assert_eq!(
        delimited(one_digit, ",").parse(&"1,2,"),
        Ok((vec!["1", "2"], ","))
    );
    assert_eq!(delimited(digits, ",").parse(&"12,3 4"), Ok((vec!["12", "3"], " 4")));
    assert_eq!(delimited(digits, ",").parse(&"x"), Err(ParserError::Error(NotFound)));
    assert_eq!(delimited(digits, ",").parse(&"7"), Ok((vec!["7"], "")));
}

#[test]
fn fused_sign_and_digits_is_one_span() {
    assert_eq!(
        fuse((sign.opt(), digits)).parse(&"-123abc"),
        Ok(("-123", "abc"))
    );
    assert_eq!((sign.opt(), digits).fuse().parse(&"123"), Ok(("123", "")));
    assert_eq!(
        (sign.opt(), digits).fuse().parse(&"-abc"),
        Err(ParserError::Error(NotFound))
    );
    assert_eq!(
        (sign.opt(), digits).output_len().parse(&"+12;"),
        Ok((3, ";"))
    );
    let span = Span::new(Id::from("n"), "x\n-12 ".to_string()).skip(2);
    let (number, rest) = (sign.opt(), digits).fuse().parse(&span).unwrap();
    assert_eq!(number.as_str(), "-12");
    assert_eq!(number.position(), (2, 1));
    assert_eq!(rest.as_str(), " ");
    assert_eq!(rest.position(), (2, 4));
}

#[test]
fn fused_length_must_fall_between_characters() {
    fn one_byte<'a, 'b>(s: &'a &'b str) -> ParserResult<&'b str, &'b str> {
        Ok(("x", *s))
    }
    assert_eq!((one_byte, "").fuse().parse(&"é"), Err(ParserError::Error(NotFound)));
    assert_eq!((one_byte, "").fuse().parse(&"ab"), Ok(("a", "b")));
    assert_eq!((one_byte, one_byte).fuse().parse(&"a"), Err(ParserError::Error(NotFound)));
}

#[test]
fn fusable_lengths_add_up() {
    assert_eq!(Fusable::len(&"abc"), 3);
    assert_eq!(Fusable::len(&Some("ab")), 2);
    assert_eq!(Fusable::len(&None::<&str>), 0);
    assert_eq!(Fusable::len(&("a", Some("bc"), None::<&str>)), 3);
    assert_eq!(Fusable::len(&("a", "b", "c", "d", "e", "f", "g", "hi")), 9);
    assert_eq!(Fusable::len(&StreamingOk::Partial("abcd", "")), 4);
}

#[test]
fn truncated_quote_needs_more_input() {
    assert_eq!(
        single_quoted_stream(&"'foo\\' bar"),
        Err(StreamingError::Incomplete(UnterminatedQuote))
    );
    assert_eq!(
        single_quoted_stream(&"'foo\\' bar' baz"),
        Ok(StreamingOk::Complete("foo\\' bar", " baz"))
    );
    assert_eq!(
        single_quoted(&"'foo\\' bar"),
        Err(ParserError::Failure(UnterminatedQuote))
    );
    assert_eq!(single_quoted(&"foo"), Err(ParserError::Error(NotFound)));
    assert_eq!(single_quoted(&""), Err(ParserError::Error(NotFound)));
    assert_eq!(single_quoted_stream(&"'"), Err(StreamingError::Incomplete(UnterminatedQuote)));
    assert_eq!(single_quoted(&"''"), Ok(("", "")));
    assert_eq!(
        double_quoted_stream(&"\"a"),
        Err(StreamingError::Incomplete(UnterminatedQuote))
    );
    assert_eq!(double_quoted_stream(&"'a'"), Err(StreamingError::Error(NotFound)));
    assert_eq!(quoted_stream(&"\"a\"b"), Ok(StreamingOk::Complete("a", "b")));
    assert_eq!(quoted_stream(&"'a"), Err(StreamingError::Incomplete(UnterminatedQuote)));
    assert_eq!(quoted_stream(&"a"), Err(StreamingError::Error(NotFound)));
    assert_eq!(quoted(&"\"a"), Err(ParserError::Failure(UnterminatedQuote)));
    assert_eq!(quoted(&"a"), Err(ParserError::Error(NotFound)));
}

#[test]
fn quote_after_two_escapes_counts_as_escaped() {
    assert_eq!(single_quoted(&"'a\\\\' b' c"), Ok(("a\\\\' b", " c")));
    assert_eq!(find_quote_mark(SINGLE_QUOTE, "a\\\\'b'"), Some(5));
    assert_eq!(find_quote_mark(SINGLE_QUOTE, "'"), Some(0));
    assert_eq!(find_quote_mark(SINGLE_QUOTE, "\\'"), None);
    assert_eq!(find_quote_mark(DOUBLE_QUOTE, "é\"x"), Some(2));
    assert_eq!(find_quote_mark(DOUBLE_QUOTE, ""), None);
    assert_eq!(find_quote_mark(DOUBLE_QUOTE, "abc"), None);
    assert_eq!(ESCAPE, '\\');
}

#[test]
fn quoted_span_keeps_its_place() {
    let span = Span::new(Id::from("q"), "a\n'bc' d".to_string()).skip(2);
    let (inner, rest) = single_quoted(&span).unwrap();
    assert_eq!(inner.as_str(), "bc");
    assert_eq!(inner.position(), (2, 2));
    assert_eq!(rest.as_str(), " d");
    assert_eq!(rest.position(), (2, 5));
}

#[test]
fn unsigned_numbers_round_trip() {
    for n in [0u32, 1, 9, 10, 99, 100, 12345, 4294967294, u32::MAX] {
        let text = n.to_string();
        assert_eq!(
            unsigned_integer::<&str, u32>(&text.as_str()),
            Ok((n, ""))
        );
        let (token, rest) = NumberToken::parse(&text.as_str()).unwrap();
        assert_eq!(rest, "");
        assert_eq!(token.kind(), NumberKind::Unsigned);
        assert_eq!(token, NumberToken::Plain(text.as_str()));
    }
    assert_eq!(unsigned_integer::<&str, u32>(&"+42 "), Ok((42, " ")));
    assert_eq!(unsigned_integer::<&str, u8>(&"255"), Ok((255, "")));
    assert_eq!(unsigned_integer::<&str, u16>(&"65535x"), Ok((65535, "x")));
    assert_eq!(unsigned_integer::<&str, u64>(&"18446744073709551615"), Ok((u64::MAX, "")));
    assert_eq!(
        unsigned_integer::<&str, u128>(&"340282366920938463463374607431768211455"),
        Ok((u128::MAX, ""))
    );
    assert_eq!(unsigned_integer::<&str, u32>(&"007"), Ok((7, "")));
}

#[test]
fn numbers_out_of_range_fail_with_the_native_error() {
    let native = "4294967296".parse::<u32>().unwrap_err();
    assert_eq!(
        unsigned_integer::<&str, u32>(&"4294967296"),
        Err(ParserError::Failure(native))
    );
    let native = "256".parse::<u8>().unwrap_err();
    assert_eq!(unsigned_integer::<&str, u8>(&"256"), Err(ParserError::Failure(native)));
    let native = "-129".parse::<i8>().unwrap_err();
    assert_eq!(integer::<&str, i8>(&"-129"), Err(ParserError::Failure(native)));
    let native = "128".parse::<i8>().unwrap_err();
    assert_eq!(integer::<&str, i8>(&"128"), Err(ParserError::Failure(native.clone())));
    assert_eq!(NumberFailure::from(native.clone()), NumberFailure::Int(native));
    let real = "1.2.3".parse::<f32>().unwrap_err();
    assert_eq!(NumberFailure::from(real.clone()), NumberFailure::Real(real));
    assert_eq!(unsigned_integer::<&str, u32>(&"-1"), Err(ParserError::Error(NotFound)));
    assert_eq!(unsigned_integer::<&str, u32>(&""), Err(ParserError::Error(NotFound)));
    assert_eq!(integer::<&str, i32>(&"x"), Err(ParserError::Error(NotFound)));
}

#[test]
fn signed_numbers() {
    assert_eq!(integer::<&str, i32>(&"-2147483648"), Ok((i32::MIN, "")));
    assert_eq!(integer::<&str, i32>(&"2147483647"), Ok((i32::MAX, "")));
    assert_eq!(integer::<&str, i32>(&"+5"), Ok((5, "")));
    assert_eq!(integer::<&str, i8>(&"-128"), Ok((-128, "")));
    assert_eq!(integer::<&str, i16>(&"-32768 "), Ok((-32768, " ")));
    assert_eq!(integer::<&str, i64>(&"-9223372036854775808"), Ok((i64::MIN, "")));
    assert_eq!(
        integer::<&str, i128>(&"-170141183460469231731687303715884105728"),
        Ok((i128::MIN, ""))
    );
    assert_eq!(integer::<&str, i32>(&"-0"), Ok((0, "")));
    let span = Span::anonymous("12 34".to_string());
    let (n, rest) = integer::<Span, i32>(&span).unwrap();
    assert_eq!(n, 12);
    assert_eq!(rest.as_str(), " 34");
    assert_eq!(rest.position(), (1, 3));
}

#[test]
fn the_kind_of_a_number_follows_its_form() {
    let kind = |s: &'static str| {
        let (token, rest) = NumberToken::parse(&s).unwrap();
        (token.kind(), token.unwrap(), rest)
    };
    assert_eq!(kind("-17"), (NumberKind::Signed, "-17", ""));
    assert_eq!(kind("+17"), (NumberKind::Unsigned, "+17", ""));
    assert_eq!(kind("17.5x"), (NumberKind::Real, "17.5", "x"));
    assert_eq!(kind("-1e3"), (NumberKind::Real, "-1e3", ""));
    assert_eq!(kind("1.e3"), (NumberKind::Real, "1.e3", ""));
    assert_eq!(kind("1.2.3"), (NumberKind::Real, "1.2", ".3"));
    assert_eq!(kind("1.x"), (NumberKind::Unsigned, "1", ".x"));
    assert_eq!(kind("1e"), (NumberKind::Unsigned, "1", "e"));
    assert_eq!(NumberToken::parse(&"1e5"), Ok((NumberToken::Scientific("1e5"), "")));
    assert_eq!(NumberToken::parse(&"1.5"), Ok((NumberToken::WithDecimal("1.5"), "")));
    assert_eq!(NumberToken::parse(&"x"), Err(ParserError::Error(NotFound)));
    assert_eq!(NumberToken::parse(&""), Err(ParserError::Error(NotFound)));
    assert!("1.2.3".parse::<f32>().is_err());
}

#[test]
fn number_grammars() {
    assert_eq!(sign(&"+1"), Ok(("+", "1")));
    assert_eq!(sign(&"-"), Ok(("-", "")));
    assert_eq!(sign(&"1"), not_found());
    assert_eq!(sign(&""), not_found());
    assert_eq!(digits(&"0129a"), Ok(("0129", "a")));
    assert_eq!(digits(&"a"), not_found());
    assert_eq!(digits(&"٣"), not_found());
    assert_eq!(digits_with_decimal(&"1.25."), Ok(("1.25", ".")));
    assert_eq!(digits_with_decimal(&"1."), not_found());
    assert_eq!(digits_with_decimal(&".5"), not_found());
    assert_eq!(digits_with_decimal(&"15"), not_found());
    assert_eq!(plain_number(&"-12.5"), Ok(("-12", ".5")));
    assert_eq!(plain_number(&"+"), not_found());
    assert_eq!(positive_number(&"+12"), Ok(("+12", "")));
    assert_eq!(positive_number(&"12"), Ok(("12", "")));
    assert_eq!(positive_number(&"-12"), not_found());
    assert_eq!(negative_number(&"-12 "), Ok(("-12", " ")));
    assert_eq!(negative_number(&"12"), not_found());
    assert_eq!(negative_number(&"-"), not_found());
    assert_eq!(number_with_decimal(&"-0.5e"), Ok(("-0.5", "e")));
    assert_eq!(number_with_decimal(&"5"), not_found());
    assert_eq!(scientific_number(&"-1.5E-10;"), Ok(("-1.5E-10", ";")));
    assert_eq!(scientific_number(&"1e+5"), Ok(("1e+5", "")));
    assert_eq!(scientific_number(&"1.e5"), Ok(("1.e5", "")));
    assert_eq!(scientific_number(&"1e"), not_found());
    assert_eq!(scientific_number(&"e5"), not_found());
    assert_eq!(scientific_number(&"1.5"), not_found());
    assert_eq!(scientific_number(&"1e-"), not_found());
}

#[test]
fn special_values() {
    assert_eq!(special(&"infinity!"), Ok(("infinity", "!")));
    assert_eq!(special(&"-infinity"), Ok(("-infinity", "")));
    assert_eq!(special(&"+inf"), Ok(("+inf", "")));
    assert_eq!(special(&"infinite"), Ok(("inf", "inite")));
    assert_eq!(special(&"NaN"), Ok(("NaN", "")));
    assert_eq!(special(&"nan1"), Ok(("nan", "1")));
    assert_eq!(special(&"-nan"), not_found());
    assert_eq!(special(&"Inf"), not_found());
    assert_eq!(special(&"in"), not_found());
    assert_eq!(special(&""), not_found());
}

#[test]
fn many_collects_until_the_parser_stops() {
    assert_eq!(many("ab").parse(&"ababac"), Ok((vec!["ab", "ab"], "ac")));
    assert_eq!(many("ab").parse(&"abab"), Ok((vec!["ab", "ab"], "")));
    assert_eq!(many("ab").parse(&"ba"), Err(ParserError::Error(NotFound)));
    assert_eq!(many("ab").parse(&""), Err(ParserError::Error(NotFound)));
    assert_eq!(many("").parse(&"ab"), Ok((vec![""], "ab")));
    assert_eq!(
        many(single_quoted).parse(&"'a''b''c"),
        Err(ParserError::Failure(UnterminatedQuote))
    );
    assert_eq!(many(single_quoted).parse(&"'a''b' c"), Ok((vec!["a", "b"], " c")));
    assert_eq!(many(single_quoted).parse(&"'a"), Err(ParserError::Failure(UnterminatedQuote)));
}

#[test]
fn repeat_runs_a_fixed_number_of_times() {
    assert_eq!(repeat("a", 3).parse(&"aaaa"), Ok((vec!["a", "a", "a"], "a")));
    assert_eq!(repeat("a", 1).parse(&"aaaa"), Ok((vec!["a"], "aaa")));
    assert_eq!(repeat("a", 3).parse(&"aab"), Err(ParserError::Error(NotFound)));
    assert_eq!(repeat("a", 2).parse(&""), Err(ParserError::Error(NotFound)));
    assert_eq!(repeat("", 2).parse(&"x"), Ok((vec!["", ""], "x")));
    assert_eq!(
        repeat(single_quoted, 2).parse(&"'a''b"),
        Err(ParserError::Failure(UnterminatedQuote))
    );
}

#[test]
fn required_turns_no_output_into_an_error() {
    assert_eq!(required(tag("a").opt()).parse(&"ab"), Ok(("a", "b")));
    assert_eq!(required(tag("a").opt()).parse(&"b"), Err(ParserError::Error(NotFound)));
    let or = required_or(single_quoted.opt(), || NotFound);
    assert_eq!(or.parse(&"'a'b"), Ok(("a", "b")));
    assert_eq!(or.parse(&"b"), Err(ParserError::Error(NotFound)));
    assert_eq!(or.parse(&"'b"), Err(ParserError::Failure(UnterminatedQuote)));
}

#[test]
fn brackets_run_each_part_on_the_input() {
    assert_eq!(sandwich("a", "ab").parse(&"abc"), Ok(("ab", "bc")));
    assert_eq!(sandwich("x", "ab").parse(&"abc"), Err(ParserError::Error(NotFound)));
    assert_eq!(sandwich("a", "x").parse(&"abc"), Err(ParserError::Error(NotFound)));
    assert_eq!(between("a", "ab", "abc").parse(&"abcd"), Ok(("ab", "d")));
    assert_eq!(between("a", "ab", "x").parse(&"abcd"), Err(ParserError::Error(NotFound)));
    assert_eq!(between("a", "x", "a").parse(&"abcd"), Err(ParserError::Error(NotFound)));
    assert_eq!(between("x", "a", "a").parse(&"abcd"), Err(ParserError::Error(NotFound)));
    assert_eq!(key_value("a", "ab", "abc").parse(&"abcd"), Ok((("a", "abc"), "d")));
    assert_eq!(key_value("a", "x", "abc").parse(&"abcd"), Err(ParserError::Error(NotFound)));
    assert_eq!(key_value("a", "a", "x").parse(&"abcd"), Err(ParserError::Error(NotFound)));
    assert_eq!(key_value("x", "a", "a").parse(&"abcd"), Err(ParserError::Error(NotFound)));
}

#[test]
fn take_until_a_match() {
    assert_eq!(take_until("é").parse(&"aéb"), Ok(("a", "éb")));
    assert_eq!(take_until("a").parse(&"abc"), Ok(("", "abc")));
    assert_eq!(take_until("").parse(&"abc"), Ok(("", "abc")));
    assert_eq!(take_until("").parse(&""), Err(ParserError::Error(NotFound)));
    assert_eq!(
        take_until(single_quoted).parse(&"ab'c"),
        Err(ParserError::Failure(UnterminatedQuote))
    );
    assert_eq!(take_until(single_quoted).parse(&"ab'c'"), Ok(("ab", "'c'")));
    let span = Span::anonymous("a\nbcd".to_string());
    let (before, from) = take_until("c").parse(&span).unwrap();
    assert_eq!(before.as_str(), "a\nb");
    assert_eq!(from.position(), (2, 2));
}

#[test]
fn escape_sequences() {
    let rec = escape_character("%", vec![("20", " "), ("2", "two"), ("%", "%")]);
    assert_eq!(rec.parse(&"%20x"), Ok((EscapeToken::Escaped(" "), "x")));
    assert_eq!(rec.parse(&"%2x"), Ok((EscapeToken::Escaped("two"), "x")));
    assert_eq!(rec.parse(&"%%"), Ok((EscapeToken::Escaped("%"), "")));
    assert_eq!(rec.parse(&"%x"), Err(ParserError::Failure(InvalidEscapeSequence)));
    assert_eq!(rec.parse(&"%"), Err(ParserError::Failure(InvalidEscapeSequence)));
    assert_eq!(rec.parse(&"ab%20"), Ok((EscapeToken::Unescaped("ab"), "%20")));
    assert_eq!(rec.parse(&""), Ok((EscapeToken::Unescaped(""), "")));
    assert_eq!(rec.parse(&"é%"), Ok((EscapeToken::Unescaped("é"), "%")));
    let unescape = escape(rec);
    assert_eq!(unescape.parse(&"a%20b%%c"), Ok(("a b%c".to_string(), "")));
    assert_eq!(unescape.parse(&"%2%20"), Ok(("two ".to_string(), "")));
    assert_eq!(unescape.parse(&""), Ok((String::new(), "")));
    assert_eq!(unescape.parse(&"abc"), Ok(("abc".to_string(), "")));
    assert_eq!(unescape.parse(&"a%b"), Err(ParserError::Failure(InvalidEscapeSequence)));
    assert_eq!(EscapeToken::<&str>::Unescaped("ab").as_str(), "ab");
    assert_eq!(EscapeToken::<&str>::Escaped("cd").as_str(), "cd");
    assert_eq!(EscapeToken::<&str, String>::Escaped("ef".to_string()).as_str(), "ef");
}

#[test]
fn escaping_plain_text_changes_nothing() {
    let unescape = escape(escape_backslash(vec![("n", "\n")]));
    for (a, b) in [("", ""), ("foo", ""), ("", "bar"), ("foo ", "bar"), ("é", "€")] {
        let whole = format!("{}{}", a, b);
        let left = unescape.parse(&a).unwrap();
        let right = unescape.parse(&b).unwrap();
        let both = unescape.parse(&whole.as_str()).unwrap();
        assert_eq!(left, (a.to_string(), ""));
        assert_eq!(right, (b.to_string(), ""));
        assert_eq!(both, (whole.clone(), ""));
        assert_eq!(both.0, format!("{}{}", left.0, right.0));
    }
    assert_eq!(unescape.parse(&"a\\nb"), Ok(("a\nb".to_string(), "")));
}

#[test]
fn escaping_a_span_keeps_its_place() {
    let unescape = escape(escape_backslash(vec![("t", "\t")]));
    let span = Span::new(Id::from("e"), "x\na\\tb".to_string()).skip(2);
    let (out, rest) = unescape.parse(&span).unwrap();
    assert_eq!(out, TransformedSpan::new(&Id::from("e"), 2, 1, "a\tb".to_string()));
    assert_eq!(rest.as_str(), "");
    let shared = SharedString::new("a\\tb".to_string());
    assert_eq!(unescape.parse(&shared).unwrap().0.as_str(), "a\tb");
}

#[test]
fn tags() {
    assert_eq!(tag("foo").parse(&"fo"), not_found());
    assert_eq!(tag("foo").parse(&"Foo"), not_found());
    assert_eq!(tag("").parse(&"x"), Ok(("", "x")));
    assert_eq!(tag_no_case("FoO").parse(&"fOo"), Ok(("fOo", "")));
    assert_eq!(tag_no_case("foo").parse(&"fo"), not_found());
    assert_eq!(tag_no_case("foo").parse(&"fxo"), not_found());
    assert_eq!(Parser::parse(&"foo", &"foobar"), Ok(("foo", "bar")));
    assert_eq!(Parser::parse(&"foo", &"bar"), not_found());
    let s = "foobar".to_string();
    assert_eq!(tag("foo").parse(&s), Ok(("foo".to_string(), "bar".to_string())));
    let shared = SharedString::new("foobar".to_string());
    let (a, b) = tag("foo").parse(&shared).unwrap();
    assert_eq!((a.as_str(), b.as_str()), ("foo", "bar"));
}

#[test]
fn runs_of_characters() {
    let is_x = |c: char| c == 'x';
    assert_eq!(take::take_while0(is_x).parse(&"xxy"), Ok(("xx", "y")));
    assert_eq!(take::take_while0(is_x).parse(&"y"), Ok(("", "y")));
    assert_eq!(take::take_while0(is_x).parse(&""), Ok(("", "")));
    assert_eq!(take::take_while(is_x).parse(&"xxy"), Ok(("xx", "y")));
    assert_eq!(take::take_while(is_x).parse(&"y"), not_found());
    assert_eq!(take::take_until0(is_x).parse(&"yyx"), Ok(("yy", "x")));
    assert_eq!(take::take_until0(is_x).parse(&"yy"), Ok(("yy", "")));
    assert_eq!(take::take_until0(is_x).parse(&""), Ok(("", "")));
    assert_eq!(take::take_until(is_x).parse(&"yyx"), Ok(("yy", "x")));
    assert_eq!(take::take_until(is_x).parse(&"yy"), not_found());
}

#[test]
fn white_space() {
    assert_eq!(whitespace(&" \t\r\n\u{a0}\u{2003}x "), Ok((" \t\r\n\u{a0}\u{2003}", "x ")));
    assert_eq!(whitespace(&"x"), not_found());
    assert_eq!(whitespace(&""), not_found());
    assert_eq!(whitespace(&"\u{200b}"), not_found());
    assert_eq!(whitespace_stream(&"  x"), Ok(StreamingOk::Complete("  ", "x")));
    assert_eq!(whitespace_stream(&"  "), Ok(StreamingOk::Partial("  ", "")));
    assert_eq!(whitespace_stream(&"x"), Err(StreamingError::Error(NotFound)));
    assert_eq!(Whitespace.parse(&" a"), Ok((" ", "a")));
    assert_eq!(("a", "b").whitespace().and().parse(&"a \n b!"), Ok((("a", "b"), "!")));
    assert_eq!(("a", "b").whitespace().and().parse(&"ab"), not_found());
    assert_eq!(
        ("a", "b", "c").with_sep(",").and().parse(&"a,b,c,"),
        Ok((("a", "b", "c"), ","))
    );
    assert_eq!(("a", "b", "c").with_sep(",").and().parse(&"a,b;c"), not_found());
}

#[test]
fn line_ends() {
    assert_eq!(eol(&"\nx"), Ok(("\n", "x")));
    assert_eq!(eol(&"\r\nx"), Ok(("\r\n", "x")));
    assert_eq!(eol(&"\rx"), not_found());
    assert_eq!(eol(&"x\n"), not_found());
    assert_eq!(eol(&""), not_found());
    assert_eq!(eof(&""), Ok(((), "")));
    assert_eq!(eof(&"x"), Err(ParserError::Error(NotFound)));
    assert_eq!(line_stream(&"ab\ncd"), Ok(StreamingOk::Complete("ab", "\ncd")));
    assert_eq!(line_stream(&"ab"), Ok(StreamingOk::Partial("ab", "")));
    assert_eq!(line_stream(&"\nab"), Err(StreamingError::Error(NotFound)));
    assert_eq!(line_stream(&""), Err(StreamingError::Error(NotFound)));
}

#[test]
fn sequences_stop_at_the_first_error() {
    assert_eq!(("a", "b").and().parse(&"abc"), Ok((("a", "b"), "c")));
    assert_eq!(("a", "b", "c").and().parse(&"abc"), Ok((("a", "b", "c"), "")));
    assert_eq!(("a", "b", "c").and().parse(&"abx"), not_found());
    assert_eq!(
        ("a", "b", "c", "d", "e", "f", "g", "h").and().parse(&"abcdefghi"),
        Ok((("a", "b", "c", "d", "e", "f", "g", "h"), "i"))
    );
    assert_eq!(("a", "b", "c", "d", "e", "f", "g", "h").and().parse(&"abcdefg"), not_found());
    assert_eq!(tag("a").and(tag("b")).parse(&"abc"), Ok((("a", "b"), "c")));
    let quotes = (single_quoted, single_quoted, single_quoted).and();
    assert_eq!(quotes.parse(&"'a''b''c'"), Ok((("a", "b", "c"), "")));
    assert_eq!(quotes.parse(&"'a''b''c"), Err(ParserError::Failure(UnterminatedQuote)));
    assert_eq!(quotes.parse(&"'a'b"), Err(ParserError::Error(NotFound)));
}

#[test]
fn choices_return_the_first_success() {
    assert_eq!(("a", "b").or().parse(&"bc"), Ok(("b", "c")));
    assert_eq!(("ab", "a").or().parse(&"abc"), Ok(("ab", "c")));
    assert_eq!(("a", "ab").or().parse(&"abc"), Ok(("a", "bc")));
    assert_eq!(("a", "b", "c").or().parse(&"d"), not_found());
    assert_eq!(
        ("a", "b", "c", "d", "e", "f", "g", "h").or().parse(&"hi"),
        Ok(("h", "i"))
    );
    assert_eq!(tag("a").or(tag("b")).parse(&"b"), Ok(("b", "")));
    let quotes = (single_quoted, quoted).or();
    assert_eq!(quotes.parse(&"'a"), Err(ParserError::Failure(UnterminatedQuote)));
    assert_eq!(quotes.parse(&"\"a\""), Ok(("a", "")));
    assert_eq!(quotes.parse(&"a"), Err(ParserError::Error(NotFound)));
}

#[test]
fn pipelines_feed_outputs_on() {
    assert_eq!((plain_number, sign).map().parse(&"-12x"), Ok(("-", "x")));
    assert_eq!((plain_number, sign).map().parse(&"12x"), not_found());
    assert_eq!((plain_number, sign).map().parse(&"x"), not_found());
    assert_eq!((plain_number, digits, "1").map().parse(&"12 x"), Ok(("1", " x")));
    assert_eq!((plain_number, digits, "2").map().parse(&"12 x"), not_found());
    assert_eq!(plain_number.then(digits).parse(&"12x"), Ok(("12", "x")));
    assert_eq!(plain_number.then(digits).parse(&"+12x"), not_found());
}

#[test]
fn adapters_change_one_channel() {
    assert_eq!(tag("a").map(|s: &str| s.len()).parse(&"ab"), Ok((1, "b")));
    assert_eq!(tag("a").map(|s: &str| s.len()).parse(&"b"), Err(ParserError::Error(NotFound)));
    assert_eq!(tag("a").map_errors(|_| 7).parse(&"b"), Err(ParserError::Error(7)));
    assert_eq!(tag("a").map_errors(|_| 7).parse(&"a"), Ok(("a", "")));
    assert_eq!(single_quoted.map_failures(|_| 9).parse(&"'a"), Err(ParserError::Failure(9)));
    assert_eq!(single_quoted.map_failures(|_| 9).parse(&"a"), Err(ParserError::Error(NotFound)));
    assert_eq!(
        single_quoted.map_err(|e| match e {
            ParserError::Error(_) => ParserError::Failure(1),
            ParserError::Failure(_) => ParserError::Error(2),
        }).parse(&"'a"),
        Err(ParserError::<i32, i32>::Error(2))
    );
    assert_eq!(tag("a").with_output(5).parse(&"ab"), Ok((5, "b")));
    assert_eq!(tag("a").with_error("no").parse(&"b"), Err(ParserError::Error("no")));
    assert_eq!(tag("a").with_error_as(|| 3).parse(&"b"), Err(ParserError::Error(3)));
    assert_eq!(single_quoted.with_failure('f').parse(&"'"), Err(ParserError::Failure('f')));
    assert_eq!(single_quoted.with_failure_as(|| 4).parse(&"'"), Err(ParserError::Failure(4)));
    assert_eq!(single_quoted.or_fail().parse(&"a"), Err(ParserError::Failure(UnterminatedQuote)));
    assert_eq!(single_quoted.or_fail().parse(&"'a'"), Ok(("a", "")));
    assert_eq!(
        tag("a").or_fail_with(UnterminatedQuote).parse(&"b"),
        Err(ParserError::Failure(UnterminatedQuote))
    );
    assert_eq!(tag("a").or_fail_as(|| 8).parse(&"b"), Err(ParserError::Failure(8)));
    assert_eq!(single_quoted.or_fail_as(|| 8).parse(&"'"), Err(ParserError::Failure(8)));
    assert_eq!(tag("a").no_fail().parse(&"b"), Err(ParserError::Error(NotFound)));
    assert_eq!(tag("a").opt().parse(&"b"), Ok((None, "b")));
    assert_eq!(tag("a").opt().parse(&"ab"), Ok((Some("a"), "b")));
    assert_eq!(single_quoted.opt().parse(&"'"), Err(ParserError::Failure(UnterminatedQuote)));
    assert_eq!(
        tag("a").to::<String, Incomplete, UnterminatedQuote>().parse(&"ab"),
        Ok(("a".to_string(), "b"))
    );
    assert_eq!(tag("a").to_output::<String>().parse(&"ab"), Ok(("a".to_string(), "b")));
    assert_eq!(tag("a").to_error::<Incomplete>().parse(&"b"), Err(ParserError::Error(Incomplete)));
    assert_eq!(
        tag("a").to_failure::<UnterminatedQuote>().parse(&"b"),
        Err(ParserError::Error(NotFound))
    );
}

#[test]
fn streaming_adapters() {
    let ws = whitespace_stream::<&str>;
    assert_eq!(ws.complete().parse(&"  "), Ok(("  ", "")));
    assert_eq!(ws.complete().parse(&"x"), Err(ParserError::Error(NotFound)));
    assert_eq!(
        single_quoted_stream.complete().parse(&"'a"),
        Err(ParserError::Failure(UnterminatedQuote))
    );
    assert_eq!(tag("a").stream().parse_stream(&"ab"), Ok(StreamingOk::Complete("a", "b")));
    assert_eq!(tag("a").stream().parse_stream(&"b"), Err(StreamingError::Error(NotFound)));
    assert_eq!(
        ws.map(|s: &str| s.len()).parse_stream(&"  "),
        Ok(StreamingOk::Partial(2, ""))
    );
    assert_eq!(ws.map_errors(|_| 1).parse_stream(&"x"), Err(StreamingError::Error(1)));
    assert_eq!(
        single_quoted_stream.map_failures(|_| 2).parse_stream(&"'"),
        Err(StreamingError::Incomplete(2))
    );
    assert_eq!(
        single_quoted_stream.or_fail().parse_stream(&"x"),
        Err(StreamingError::Failure(UnterminatedQuote))
    );
    assert_eq!(ws.opt().parse_stream(&"x"), Ok(StreamingOk::Complete(None, "x")));
    assert_eq!(ws.opt().parse_stream(&" "), Ok(StreamingOk::Partial(Some(" "), "")));
    assert_eq!(ws.with_output(1).parse_stream(&" x"), Ok(StreamingOk::Complete(1, "x")));
    assert_eq!(ws.with_error(2).parse_stream(&"x"), Err(StreamingError::Error(2)));
    assert_eq!(ws.with_error_as(|| 3).parse_stream(&"x"), Err(StreamingError::Error(3)));
    assert_eq!(
        single_quoted_stream.with_failure(4).parse_stream(&"'"),
        Err(StreamingError::Incomplete(4))
    );
    assert_eq!(
        single_quoted_stream.with_failure_as(|| 5).parse_stream(&"'"),
        Err(StreamingError::Incomplete(5))
    );
    assert_eq!(
        ws.or_fail_with(UnterminatedQuote).parse_stream(&"x"),
        Err(StreamingError::Failure(UnterminatedQuote))
    );
    assert_eq!(
        ws.or_fail_as(|| UnterminatedQuote).parse_stream(&"x"),
        Err(StreamingError::Failure(UnterminatedQuote))
    );
    assert_eq!(
        ws.to_output::<String>().parse_stream(&" x"),
        Ok(StreamingOk::Complete(" ".to_string(), "x"))
    );
    assert_eq!(
        ws.map_err(|_| StreamingError::<i32, i32>::Failure(6)).parse_stream(&"x"),
        Err(StreamingError::Failure(6))
    );
    let relaxed = double_quoted_stream::<&str>.map_failures(|_| NotFound).no_fail();
    assert_eq!(relaxed.parse_stream(&"\"a"), Err(StreamingError::Incomplete(NotFound)));
    assert_eq!(relaxed.parse_stream(&"a"), Err(StreamingError::Error(NotFound)));
    let failing = |_: &&str| -> StreamingResult<&str, &str, NotFound, Incomplete> {
        Err(StreamingError::Failure(Incomplete))
    };
    assert_eq!(failing.no_fail().parse_stream(&"a"), Err(StreamingError::Error(NotFound)));
}

#[test]
fn streaming_results_convert() {
    assert!(StreamingOk::Partial(1, "").is_partial());
    assert!(!StreamingOk::Complete(1, "").is_partial());
    assert_eq!(StreamingOk::Partial(1, "x").peek(), (&1, &"x"));
    assert_eq!(StreamingOk::Complete(2, "y").peek(), (&2, &"y"));
    assert_eq!(
        StreamingError::from(ParserError::<i32, i32>::Error(1)),
        StreamingError::Error(1)
    );
    assert_eq!(
        StreamingError::from(ParserError::<i32, i32>::Failure(2)),
        StreamingError::Failure(2)
    );
    assert_eq!(
        try_from_streaming(StreamingError::<i32, i32>::Incomplete(3)),
        Err(ErrorWasIncomplete)
    );
    assert_eq!(
        try_from_streaming(StreamingError::<i32, i32>::Error(4)),
        Ok(ParserError::Error(4))
    );
    assert_eq!(
        try_from_streaming(StreamingError::<i32, i32>::Failure(5)),
        Ok(ParserError::Failure(5))
    );
    assert_eq!(
        ErrorWasIncomplete.message(),
        "Cannot convert Incomplete to a non-streaming error."
    );
    let r: Result<StreamingOk<&str, i32>, ParserError<i32, i32>> = Err(ParserError::Failure(1));
    assert_eq!(r.as_streaming(), Err(StreamingError::Failure(1)));
    let r: Result<StreamingOk<&str, i32>, ParserError<i32, i32>> =
        Ok(StreamingOk::Partial(1, ""));
    assert_eq!(r.as_streaming(), Ok(StreamingOk::Partial(1, "")));
    assert_eq!(ParserError::<i32, i32>::Error(1).label(), "Parsing error: Normal error");
    assert_eq!(
        ParserError::<i32, i32>::Failure(1).label(),
        "Parsing error: Permanent failure"
    );
    assert_eq!(NotFound::from(Incomplete), NotFound);
    assert_eq!(Incomplete::from(NotFound), Incomplete);
    assert_eq!(UnterminatedQuote::from(NotFound), UnterminatedQuote);
}

#[test]
fn options_and_pairs_become_results() {
    assert_eq!(OrNotFound::ok_or_not_found(Some((1, "x"))), Ok((1, "x")));
    assert_eq!(
        OrNotFound::ok_or_not_found(None::<(i32, &str)>),
        Err(ParserError::Error(NotFound))
    );
    let r: ParserResult<&str, i32, Never, UnterminatedQuote> = None.ok_or_fail();
    assert_eq!(r, Err(ParserError::Failure(UnterminatedQuote)));
    let r: ParserResult<&str, i32, Never, UnterminatedQuote> = Some((1, "")).ok_or_fail();
    assert_eq!(r, Ok((1, "")));
    assert_eq!(
        StreamingOrNotFound::ok_or_not_found(Some(StreamingOk::Partial(1, "x"))),
        Ok(StreamingOk::Partial(1, "x"))
    );
    assert_eq!(
        StreamingOrNotFound::ok_or_not_found(None::<StreamingOk<&str, i32>>),
        Err(StreamingError::Error(NotFound))
    );
    assert_eq!(
        None::<StreamingOk<&str, i32>>.ok_or_incomplete(),
        Err(StreamingError::Incomplete(Incomplete))
    );
    assert_eq!(
        Some(StreamingOk::Complete(1, "x")).ok_or_incomplete(),
        Ok(StreamingOk::Complete(1, "x"))
    );
    assert_eq!(CompleteIf::as_complete((1, "x")), StreamingOk::Complete(1, "x"));
    assert_eq!(CompleteIf::as_partial((1, "x")), StreamingOk::Partial(1, "x"));
    assert_eq!(
        CompleteIf::as_complete_if((1, "x"), |o: &i32, _: &&str| *o > 0),
        StreamingOk::Complete(1, "x")
    );
    assert_eq!(
        CompleteIf::as_complete_if(StreamingOk::Complete(0, "x"), |o: &i32, _: &&str| *o > 0),
        StreamingOk::Partial(0, "x")
    );
    assert_eq!(CompleteIf::has_stopped((1, "x")), StreamingOk::Complete(1, "x"));
    assert_eq!(CompleteIf::has_stopped((1, "")), StreamingOk::Partial(1, ""));
    assert_eq!(
        CompleteIf::has_stopped(StreamingOk::Partial(1, "x")),
        StreamingOk::Complete(1, "x")
    );
    assert_eq!(
        MaybeCompleteIf::has_stopped(Some((1, ""))),
        Some(StreamingOk::Partial(1, ""))
    );
    assert_eq!(
        MaybeCompleteIf::as_complete(Some((1, ""))),
        Some(StreamingOk::Complete(1, ""))
    );
    assert_eq!(MaybeCompleteIf::as_partial(None::<(i32, &str)>), None);
    let ok: ParserResult<&str, i32> = Ok((1, "x"));
    assert_eq!(EitherCompleteIf::has_stopped(ok), Ok(StreamingOk::Complete(1, "x")));
    let ok: ParserResult<&str, i32> = Ok((1, "x"));
    assert_eq!(EitherCompleteIf::as_partial(ok), Ok(StreamingOk::Partial(1, "x")));
    let ok: StreamingResult<&str, i32> = Ok(StreamingOk::Partial(1, "x"));
    assert_eq!(EitherCompleteIf::as_complete(ok), Ok(StreamingOk::Complete(1, "x")));
    assert_eq!(
        MaybeCompleteIf::as_complete_if(Some((1, "x")), |_: &i32, r: &&str| r.is_empty()),
        Some(StreamingOk::Partial(1, "x"))
    );
    assert_eq!(
        MaybeCompleteIf::as_complete_if(None::<(i32, &str)>, |_: &i32, _: &&str| true),
        None
    );
    let ok: ParserResult<&str, i32> = Ok((1, ""));
    assert_eq!(
        EitherCompleteIf::as_complete_if(ok, |_: &i32, r: &&str| r.is_empty()),
        Ok(StreamingOk::Complete(1, ""))
    );
    let err: ParserResult<&str, i32> = Err(ParserError::Error(NotFound));
    assert_eq!(
        EitherCompleteIf::as_complete_if(err, |_: &i32, _: &&str| true),
        Err(StreamingError::Error(NotFound))
    );
    let s: StreamingResult<&str, i32> = Ok(StreamingOk::Partial(1, ""));
    assert_eq!(
        EitherCompleteIf::as_complete_if(s, |_: &i32, _: &&str| true),
        Ok(StreamingOk::Complete(1, ""))
    );
    let p: StreamingResult<&str, i32, NotFound, Incomplete> = Ok(StreamingOk::Partial(1, ""));
    assert_eq!(p.no_partial(), Err(StreamingError::Failure(Incomplete)));
    let c: StreamingResult<&str, i32, NotFound, Incomplete> = Ok(StreamingOk::Complete(1, ""));
    assert_eq!(c.no_partial(), Ok(StreamingOk::Complete(1, "")));
    let e: StreamingResult<&str, i32, NotFound, Incomplete> = Err(StreamingError::Error(NotFound));
    assert_eq!(e.no_partial(), Err(StreamingError::Error(NotFound)));
}

#[test]
fn pairs_turn_around() {
    assert_eq!(Rotate::rot((1, "a")), ("a", 1));
    assert_eq!(Rotate::rot(Some((1, "a"))), Some(("a", 1)));
    assert_eq!(Rotate::rot(None::<(i32, &str)>), None);
    let ok: Result<(i32, &str), bool> = Ok((1, "a"));
    assert_eq!(Rotate::rot(ok), Ok(("a", 1)));
    let err: Result<(i32, &str), bool> = Err(true);
    assert_eq!(Rotate::rot(err), Err(true));
    let f = || -> Result<(i32, &'static str), bool> { Ok((2, "b")) };
    assert_eq!(RotateFn::rot(f).call(), Ok(("b", 2)));
}
