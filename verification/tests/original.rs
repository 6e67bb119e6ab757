use text_parsers::combinators::escaped::{
    escape, escape_backslash, EscapeToken, InvalidEscapeSequence,
};
use text_parsers::combinators::take_until::take_until;
use text_parsers::input::span::{line_indexes, Span};
use text_parsers::input::Input;
use text_parsers::parse::{Choice, FuseSequence, NotFound, Parser, ParserError, ParserResult};
use text_parsers::primitives::lines;
use text_parsers::primitives::numbers::{
    integer, number_with_decimal, plain_number, scientific_number, unsigned_integer, NumberKind,
    NumberToken,
};
use text_parsers::primitives::quote::{double_quoted, quoted, single_quoted};
use text_parsers::primitives::tag::{tag, tag_no_case};

fn never_escape<I: Input>(s: &I) -> ParserResult<I, EscapeToken<I>> {
    Ok((EscapeToken::Unescaped(s.clone()), s.empty()))
}

fn always_escape<I: Input>(s: &I) -> ParserResult<I, EscapeToken<I>> {
    Ok((EscapeToken::Escaped("bar"), s.empty()))
}

#[test]
fn escaped_simple() {
    assert_eq!(
        escape(never_escape).parse(&"foo"),
        Ok(("foo".to_string(), ""))
    );
    assert_eq!(
        escape(always_escape).parse(&"foo"),
        Ok(("bar".to_string(), ""))
    );
}

#[test]
fn backslash_parser() {
    let parser = escape_backslash(vec![("a", "a"), ("b", "b")]);
    assert_eq!(
        parser.parse(&"foo \\a bar"),
        Ok((EscapeToken::Unescaped("foo "), "\\a bar"))
    );
    assert_eq!(
        parser.parse(&"foo \\b bar"),
        Ok((EscapeToken::Unescaped("foo "), "\\b bar"))
    );

    assert_eq!(
        parser.parse(&"\\a bar"),
        Ok((EscapeToken::Escaped("a"), " bar"))
    );
    assert_eq!(
        parser.parse(&"\\b bar"),
        Ok((EscapeToken::Escaped("b"), " bar"))
    );

    assert_eq!(
        parser.parse(&" bar"),
        Ok((EscapeToken::Unescaped(" bar"), ""))
    );
}

#[test]
fn backslash_escape() {
    let parser = escape(escape_backslash(vec![("a", "a"), ("b", "b")]));
    assert_eq!(
        parser.parse(&"foo \\a bar"),
        Ok(("foo a bar".to_string(), ""))
    );
    assert_eq!(
        parser.parse(&"foo \\b bar"),
        Ok(("foo b bar".to_string(), ""))
    );

    assert_eq!(parser.parse(&"foo bar"), Ok(("foo bar".to_string(), "")));

    assert_eq!(
        parser.parse(&"foo \\ bar"),
        Err(ParserError::Failure(InvalidEscapeSequence))
    );
}

fn foo<'a, 'b>(s: &'a &'b str) -> ParserResult<&'b str, &'b str> {
    Ok(("", *s))
}

#[test]
fn fuse_simple() {
    assert_eq!(("a", "b").fuse().parse(&"abc"), Ok(("ab", "c")));
    assert_eq!(("a", "b", foo).fuse().parse(&"abc"), Ok(("ab", "c")));
}

#[test]
fn take_until_simple() {
    assert_eq!(
        take_until(("a", "b").or()).parse(&"123abc"),
        Ok(("123", "abc"))
    );

    assert_eq!(
        take_until(("d", "e").or()).parse(&"123abc"),
        Err(ParserError::Error(NotFound))
    );
}

#[test]
fn take_while_is_inclusive() {
    assert_eq!("xxxyyy".take_while(|c| c == 'x'), Some(("xxx", "yyy")));
    assert_eq!("xxxyyy".take_while(|c| c == 'y'), None);
}

#[test]
fn take_until_is_inclusive() {
    assert_eq!("xxxyyy".take_until(|c| c == 'y'), Some(("xxx", "yyy")));
    assert_eq!("xxxyyy".take_until(|c| c == 'z'), None);
}

#[test]
fn empty_line_indexes() {
    assert_eq!(line_indexes(""), vec![0]);
}

#[test]
fn single_line_indexes() {
    assert_eq!(line_indexes("foo"), vec![0, 3]);
    assert_eq!(line_indexes("foo\n"), vec![0, 4]);
    assert_eq!(line_indexes("foo\r\n"), vec![0, 5]);
}

#[test]
fn multi_line_indexes() {
    assert_eq!(line_indexes("foo\nbar"), vec![0, 4, 7]);
    assert_eq!(line_indexes("foo\r\nbar"), vec![0, 5, 8]);
    assert_eq!(line_indexes("foo\nbar\r\nbaz"), vec![0, 4, 9, 12]);
    assert_eq!(line_indexes("foo\n\nbar"), vec![0, 4, 5, 8]);
}

#[test]
fn start_of_line_locations() {
    let s = Span::anonymous("foo\nbar".to_string());
    let (first_line, second_line) = lines::line(&s).unwrap();

    assert_eq!(first_line.position(), (1, 1));
    assert_eq!(second_line.position(), (2, 1));
}

#[test]
fn column_2_locations() {
    let s = Span::anonymous("foo\nbar".to_string());
    let (first_line, second_line) = lines::line(&s).unwrap();
    let first_line_col1 = first_line.skip(1);
    let second_line_col1 = second_line.skip(1);

    assert_eq!(first_line_col1.position(), (1, 2));
    assert_eq!(second_line_col1.position(), (2, 2));
}

#[test]
fn empty() {
    assert_eq!(lines::line.parse(&""), Ok(("", "")));
}

#[test]
fn blank_line() {
    assert_eq!(lines::line.parse(&"\n\n"), Ok(("\n", "\n")));
    assert_eq!(lines::line.parse(&"\r\n\r\n"), Ok(("\r\n", "\r\n")));
}

#[test]
fn no_newline() {
    assert_eq!(lines::line.parse(&"foo"), Ok(("foo", "")));
}

#[test]
fn linebreak_is_present() {
    assert_eq!(lines::line.parse(&"foo\n"), Ok(("foo\n", "")));
    assert_eq!(lines::line.parse(&"foo\nbar"), Ok(("foo\n", "bar")));

    assert_eq!(lines::line.parse(&"foo\r\n"), Ok(("foo\r\n", "")));
    assert_eq!(lines::line.parse(&"foo\r\nbar"), Ok(("foo\r\n", "bar")));
}

#[test]
fn multiple_linebreaks() {
    assert_eq!(lines::line.parse(&"foo\nbar\nbaz"), Ok(("foo\n", "bar\nbaz")));
    assert_eq!(
        lines::line.parse(&"foo\r\nbar\r\nbaz"),
        Ok(("foo\r\n", "bar\r\nbaz"))
    );
}

#[test]
fn plain() {
    assert_eq!(plain_number.parse(&"123"), Ok(("123", "")));
}

#[test]
fn with_decimal() {
    assert_eq!(number_with_decimal.parse(&"123.45"), Ok(("123.45", "")));
}

#[test]
fn scientific() {
    assert_eq!(scientific_number.parse(&"1e6"), Ok(("1e6", "")));
    assert_eq!(scientific_number.parse(&"1.0e6"), Ok(("1.0e6", "")));

    assert_eq!(scientific_number.parse(&"1E6"), Ok(("1E6", "")));
    assert_eq!(scientific_number.parse(&"1.0E6"), Ok(("1.0E6", "")));
}

fn kind_of(s: &str) -> (NumberKind, &str, &str) {
    let (token, rest) = NumberToken::parse(&s).unwrap();
    let kind = token.kind();
    (kind, token.unwrap(), rest)
}

#[test]
fn one() {
    assert_eq!(kind_of("1"), (NumberKind::Unsigned, "1", ""));
    assert_eq!(unsigned_integer::<&str, u32>(&"1"), Ok((1, "")));
    assert_eq!(kind_of("-1"), (NumberKind::Signed, "-1", ""));
    assert_eq!(integer::<&str, i32>(&"-1"), Ok((-1, "")));
    assert_eq!(kind_of("1.0"), (NumberKind::Real, "1.0", ""));
    assert_eq!("1.0".parse::<f32>(), Ok(1.0));
    assert_eq!(kind_of("-1.0"), (NumberKind::Real, "-1.0", ""));
    assert_eq!("-1.0".parse::<f32>(), Ok(-1.0));
}

#[test]
fn zeroes() {
    assert_eq!(kind_of("0"), (NumberKind::Unsigned, "0", ""));
    assert_eq!(unsigned_integer::<&str, u32>(&"0"), Ok((0, "")));
    assert_eq!(kind_of("0.0"), (NumberKind::Real, "0.0", ""));
    assert_eq!("0.0".parse::<f32>(), Ok(0.0));
    assert_eq!(kind_of("-0.0"), (NumberKind::Real, "-0.0", ""));
    assert_eq!("-0.0".parse::<f32>(), Ok(0.0));
}

#[test]
fn quote_simple() {
    assert_eq!(single_quoted.parse(&"'foo' bar"), Ok(("foo", " bar")));
    assert_eq!(quoted.parse(&"'foo' bar"), Ok(("foo", " bar")));

    assert_eq!(double_quoted.parse(&"\"foo\" bar"), Ok(("foo", " bar")));
    assert_eq!(quoted.parse(&"\"foo\" bar"), Ok(("foo", " bar")));
}

#[test]
fn escaped() {
    assert_eq!(
        single_quoted.parse(&"'foo\\' bar' baz"),
        Ok(("foo\\' bar", " baz"))
    );
    assert_eq!(
        quoted.parse(&"'foo\\' bar' baz"),
        Ok(("foo\\' bar", " baz"))
    );

    assert_eq!(
        double_quoted.parse(&"\"foo\\\" bar\" baz"),
        Ok(("foo\\\" bar", " baz"))
    );
    assert_eq!(
        quoted.parse(&"\"foo\\\" bar\" baz"),
        Ok(("foo\\\" bar", " baz"))
    );
}

#[test]
fn tag_simple() {
    assert_eq!(tag("foo").parse(&"foobar"), Ok(("foo", "bar")));

    assert_eq!(tag_no_case("foo").parse(&"foobar"), Ok(("foo", "bar")));
    assert_eq!(tag_no_case("foo").parse(&"FOObar"), Ok(("FOO", "bar")));
    assert_eq!(tag_no_case("foo").parse(&"fOobar"), Ok(("fOo", "bar")));
}
