use text_parsers::input::span::{Id, Source, Span, TransformedSpan};
use text_parsers::input::string::SharedString;
use text_parsers::input::transform::TransformContent;
use text_parsers::input::{Coverage, Input};
use text_parsers::primitives::lines;
use text_parsers::primitives::numbers::decimal_string;
use text_parsers::text::{byte_len, char_width, same_char_ignoring_case, same_text};
use text_parsers::util::splits::splits;

#[test]
fn str_splits_between_characters_only() {
    let s = "aé€z";
    assert_eq!(s.len(), 7);
    assert_eq!(Input::split_at_checked(&s, 0), Some(("", "aé€z")));
    assert_eq!(Input::split_at_checked(&s, 1), Some(("a", "é€z")));
    assert_eq!(Input::split_at_checked(&s, 2), None);
    assert_eq!(Input::split_at_checked(&s, 3), Some(("aé", "€z")));
    assert_eq!(Input::split_at_checked(&s, 4), None);
    assert_eq!(Input::split_at_checked(&s, 5), None);
    assert_eq!(Input::split_at_checked(&s, 6), Some(("aé€", "z")));
    assert_eq!(Input::split_at_checked(&s, 7), Some(("aé€z", "")));
    assert_eq!(Input::split_at_checked(&s, 8), None);
}

#[test]
fn str_slices() {
    let s = "hello world";
    assert_eq!(Input::slice(&s, 6..11), "world");
    assert_eq!(Input::take(&s, 5), "hello");
    assert_eq!(Input::skip(&s, 6), "world");
    assert_eq!(Input::take_checked(&s, 5), Some("hello"));
    assert_eq!(Input::take_checked(&s, 12), None);
    assert_eq!(Input::empty(&s), "");
    assert!(!Input::is_empty(&s));
    assert!(Input::is_empty(&""));
    assert_eq!(Input::len(&s), 11);
}

#[test]
fn pop_matches_exactly() {
    assert_eq!("foobar".pop("foo"), Some(("foo", "bar")));
    assert_eq!("foobar".pop("Foo"), None);
    assert_eq!("fo".pop("foo"), None);
    assert_eq!("foo".pop("foo"), Some(("foo", "")));
    assert_eq!("foo".pop(""), Some(("", "foo")));
    assert_eq!("aé".pop("a\u{c3}"), None);
}

#[test]
fn pop_no_case_folds_ascii_only() {
    assert_eq!("FooBar".pop_no_case("foo"), Some(("Foo", "Bar")));
    assert_eq!("foo".pop_no_case("FOO"), Some(("foo", "")));
    assert_eq!("fo".pop_no_case("foo"), None);
    assert_eq!("fxo".pop_no_case("foo"), None);
    assert_eq!("Éa".pop_no_case("éa"), None);
    assert_eq!("éA".pop_no_case("éa"), Some(("éA", "")));
    assert_eq!("[x".pop_no_case("{x"), None);
    assert_eq!("@x".pop_no_case("`x"), None);
}

#[test]
fn take_while_on_all_of_the_text() {
    assert_eq!("xxx".take_while(|c| c == 'x'), Some(("xxx", "")));
    assert_eq!("".take_while(|c| c == 'x'), None);
    assert_eq!("ééa".take_while(|c| c == 'é'), Some(("éé", "a")));
    assert_eq!("".take_until(|c| c == 'x'), None);
    assert_eq!("xab".take_until(|c| c == 'x'), Some(("", "xab")));
    assert_eq!("éx".take_until(|c| c == 'x'), Some(("é", "x")));
}

#[test]
fn owned_strings_copy() {
    let s = "foo\nbar".to_string();
    assert_eq!(s.split_at(4), ("foo\n".to_string(), "bar".to_string()));
    assert_eq!(s.split_at_checked(8), None);
    assert_eq!(s.slice(1..2), "o".to_string());
    assert_eq!(s.take(3), "foo".to_string());
    assert_eq!(s.skip(4), "bar".to_string());
    assert_eq!(s.empty(), String::new());
    assert_eq!(Input::len(&s), 7);
    assert_eq!(Input::as_str(&s), "foo\nbar");
    assert_eq!(s.pop("foo"), Some(("foo".to_string(), "\nbar".to_string())));
}

#[test]
fn shared_strings_share() {
    let s = SharedString::new("hello world".to_string());
    assert_eq!(s.as_str(), "hello world");
    assert_eq!(s.len(), 11);
    let (a, b) = s.split_at(5);
    assert_eq!(a.as_str(), "hello");
    assert_eq!(b.as_str(), " world");
    let (c, d) = b.split_at(6);
    assert_eq!(c.as_str(), " world");
    assert_eq!(d.as_str(), "");
    assert!(d.is_empty());
    assert_eq!(b.slice(1..6).as_str(), "world");
    assert_eq!(b.take(1).as_str(), " ");
    assert_eq!(b.skip(1).as_str(), "world");
    assert_eq!(b.empty().as_str(), "");
    assert!(s.split_at_checked(12).is_none());
    assert!(s.split_at_checked(11).is_some());
    assert_eq!(s.clone(), s);
    assert_eq!(b.to_string(), " world".to_string());
    assert_eq!(SharedString::default().as_str(), "");
    let t = SharedString::new("aé".to_string());
    assert!(t.split_at_checked(2).is_none());
    assert_eq!(t.split_at_checked(1).unwrap().1.as_str(), "é");
}

#[test]
fn shared_string_coverage_shows_in_debug_text() {
    let s = SharedString::new("hello world".to_string());
    assert_eq!(s.coverage(), Coverage::Whole);
    assert_eq!(s.debug_string(), "SharedString [ \"hello world\" ]");
    let (a, b) = s.split_at(5);
    assert_eq!(a.coverage(), Coverage::Prefix);
    assert_eq!(a.debug_string(), "SharedString [ \"hello\" .. ]");
    assert_eq!(b.coverage(), Coverage::Suffix);
    assert_eq!(b.debug_string(), "SharedString [ .. \" world\" ]");
    let m = s.slice(2..4);
    assert_eq!(m.coverage(), Coverage::Interior);
    assert_eq!(m.debug_string(), "SharedString [ .. \"ll\" .. ]");
    let q = SharedString::new("a\"b\n".to_string());
    assert_eq!(q.debug_string(), "SharedString [ \"a\\\"b\\n\" ]");
}

#[test]
fn span_positions() {
    let s = Span::new(Id::from("file.txt"), "ab\ncd\r\n\nxyz".to_string());
    assert_eq!(s.id().as_str(), "file.txt");
    assert_eq!(s.id().len(), 8);
    assert_eq!(s.position(), (1, 1));
    assert_eq!(s.skip(1).position(), (1, 2));
    assert_eq!(s.skip(2).position(), (1, 3));
    assert_eq!(s.skip(3).position(), (2, 1));
    assert_eq!(s.skip(6).position(), (2, 4));
    assert_eq!(s.skip(7).position(), (3, 1));
    assert_eq!(s.skip(8).position(), (4, 1));
    assert_eq!(s.skip(10).position(), (4, 3));
    assert_eq!(s.skip(11).position(), (5, 1));
    assert_eq!(s.location().0.as_str(), "file.txt");
    assert_eq!(s.skip(4).location().1, (2, 2));
}

#[test]
fn empty_span_is_at_the_first_column() {
    let s = Span::anonymous(String::new());
    assert_eq!(s.position(), (1, 1));
    assert_eq!(s.as_str(), "");
    assert_eq!(s.id().as_str(), "");
    assert_eq!(Span::default().position(), (1, 1));
}

#[test]
fn continued_span_counts_lines_on() {
    let s = Span::new_continued(Id::from("part".to_string()), "foo\nbar".to_string(), 10);
    let (first, second) = lines::line(&s).unwrap();
    assert_eq!(first.position(), (11, 1));
    assert_eq!(second.position(), (12, 1));
    assert_eq!(second.skip(2).position(), (12, 3));
    assert_eq!(second.as_str(), "bar");
}

#[test]
fn span_views() {
    let s = Span::anonymous("foo\nbar".to_string());
    assert_eq!(s.len(), 7);
    assert!(!s.is_empty());
    let (a, b) = s.split_at(4);
    assert_eq!(a.as_str(), "foo\n");
    assert_eq!(b.as_str(), "bar");
    assert_eq!(b.empty().as_str(), "");
    assert_eq!(b.empty().position(), (2, 1));
    assert_eq!(b.take(2).as_str(), "ba");
    assert_eq!(s.slice(2..5).as_str(), "o\nb");
    assert_eq!(s.slice(2..5).position(), (1, 3));
    assert!(s.split_at_checked(8).is_none());
    let (whole, nothing) = s.split_at_checked(7).unwrap();
    assert_eq!(whole.as_str(), "foo\nbar");
    assert_eq!(nothing.as_str(), "");
    assert_eq!(nothing.position(), (3, 1));
    assert_eq!(s.clone().as_str(), "foo\nbar");
}

#[test]
fn span_debug_text() {
    let s = Span::new(Id::from("src"), "foo\nbar".to_string());
    assert_eq!(s.coverage(), Coverage::Whole);
    assert_eq!(s.debug_string(), "Span 1 1:src [ \"foo\\nbar\" ]");
    let (a, b) = s.split_at(4);
    assert_eq!(a.debug_string(), "Span 1 1:src [ \"foo\\n\" .. ]");
    assert_eq!(b.debug_string(), "Span 2 1:src [ .. \"bar\" ]");
    assert_eq!(s.slice(5..6).debug_string(), "Span 2 2:src [ .. \"a\" .. ]");
    assert_eq!(s.slice(5..6).coverage(), Coverage::Interior);
}

#[test]
fn detached_span_keeps_its_place() {
    let s = Span::new(Id::from("src"), "foo\nbar".to_string());
    let b = s.skip(5);
    let d = b.clone().detatch();
    assert_eq!(d.as_str(), "ar");
    assert_eq!(d, TransformedSpan::new(&Id::from("src"), 2, 2, "ar".to_string()));
    let e = d.append_content("!?");
    assert_eq!(e.as_str(), "ar!?");
    assert_eq!(e, TransformedSpan::new(&Id::from("src"), 2, 2, "ar!?".to_string()));
    let f = e.to_content("zzz".to_string());
    assert_eq!(f, TransformedSpan::new(&Id::from("src"), 2, 2, "zzz".to_string()));
    let (x, y) = f.split_at(1);
    assert_eq!(x.as_str(), "z");
    assert_eq!(y.as_str(), "zz");
    assert_eq!(f.slice(1..2).as_str(), "z");
    assert_eq!(f.take(2).as_str(), "zz");
    assert_eq!(f.skip(3).as_str(), "");
    assert!(f.split_at_checked(4).is_none());
    assert_eq!(f.empty().as_str(), "");
    assert_eq!(f.len(), 3);
    assert!(!f.is_empty());
    assert_eq!(f.clone(), f);
}

#[test]
fn content_is_replaced_and_appended() {
    assert_eq!("foo".to_content("bar".to_string()), "bar".to_string());
    assert_eq!("foo".append_content("bar"), "foobar".to_string());
    assert_eq!("foo".to_string().to_content("bar".to_string()), "bar".to_string());
    assert_eq!("foo".to_string().append_content("bar"), "foobar".to_string());
    let s = SharedString::new("foo".to_string());
    assert_eq!(s.to_content("bar".to_string()).as_str(), "bar");
    assert_eq!(s.skip(1).append_content("bar").as_str(), "oobar");
    let span = Span::new(Id::from("src"), "a\nbc".to_string()).skip(3);
    assert_eq!(
        span.to_content("new".to_string()),
        TransformedSpan::new(&Id::from("src"), 2, 2, "new".to_string())
    );
    assert_eq!(
        span.append_content("d"),
        TransformedSpan::new(&Id::from("src"), 2, 2, "cd".to_string())
    );
}

#[test]
fn case_is_changed_by_the_standard_library() {
    assert_eq!("Foo ß".to_uppercase(), "FOO SS".to_string());
    assert_eq!(TransformContent::to_uppercase(&"Foo ß"), "FOO SS".to_string());
    assert_eq!(TransformContent::to_lowercase(&"Foo Σ"), "foo σ".to_string());
    let s = SharedString::new("abc".to_string());
    assert_eq!(TransformContent::to_uppercase(&s.skip(1)).as_str(), "BC");
}

#[test]
fn ids() {
    assert_eq!(Id::default(), Id::Static(""));
    assert_eq!(Id::from("a"), Id::Static("a"));
    assert_eq!(Id::from("a".to_string()), Id::String("a".to_string()));
    assert_eq!(Id::from("abc").len(), 3);
    assert_eq!(Id::from("abc").to_string(), "abc".to_string());
    assert_eq!(Id::from("abc").clone(), Id::Static("abc"));
    assert_eq!(Id::String("é".to_string()).clone().len(), 2);
}

#[test]
fn sources() {
    let s = Source::new(Id::from("a"), "x\ny".to_string());
    assert_eq!(format!("{:?}", s).contains("[0, 2, 3]"), true);
    let c = Source::new_continued(Id::from("a"), "x\ny".to_string(), 4);
    assert_eq!(format!("{:?}", c).contains("starting_line: 4"), true);
    let d = Source::default();
    assert_eq!(format!("{:?}", d).contains("[0]"), true);
}

#[test]
fn splits_cut_before_each_character() {
    let s = "aé!";
    let mut it = splits(&s);
    assert_eq!(it.next(), Some(("", "aé!")));
    assert_eq!(it.next(), Some(("a", "é!")));
    assert_eq!(it.next(), Some(("aé", "!")));
    assert_eq!(it.next(), None);
    assert_eq!(it.next(), None);
    let e = "";
    assert_eq!(splits(&e).next(), None);
}

#[test]
fn text_helpers() {
    assert_eq!(byte_len("aé€"), 6);
    assert_eq!(char_width('a'), 1);
    assert_eq!(char_width('é'), 2);
    assert_eq!(char_width('€'), 3);
    assert_eq!(char_width('😀'), 4);
    assert_eq!(char_width('\u{7f}'), 1);
    assert_eq!(char_width('\u{80}'), 2);
    assert_eq!(char_width('\u{7ff}'), 2);
    assert_eq!(char_width('\u{800}'), 3);
    assert_eq!(char_width('\u{ffff}'), 3);
    assert_eq!(char_width('\u{10000}'), 4);
    assert!(same_text("abc", "abc"));
    assert!(!same_text("abc", "abd"));
    assert!(!same_text("abc", "ab"));
    assert!(same_char_ignoring_case('a', 'A'));
    assert!(same_char_ignoring_case('Z', 'z'));
    assert!(same_char_ignoring_case('1', '1'));
    assert!(!same_char_ignoring_case('a', 'b'));
    assert!(!same_char_ignoring_case('@', '`'));
    assert!(!same_char_ignoring_case('[', '{'));
    assert!(!same_char_ignoring_case('é', 'É'));
}

#[test]
fn decimal_strings() {
    assert_eq!(decimal_string(0), "0");
    assert_eq!(decimal_string(7), "7");
    assert_eq!(decimal_string(10), "10");
    assert_eq!(decimal_string(4294967295), "4294967295");
    assert_eq!(decimal_string(1234567890), "1234567890");
    assert_eq!(decimal_string(usize::MAX), usize::MAX.to_string());
}

#[test]
fn views_tell_their_range() {
    let s = SharedString::new("hello".to_string());
    assert_eq!(s.range(), (0, 5));
    assert_eq!(s.slice(1..3).range(), (1, 3));
    assert_eq!(s.slice(1..3).skip(1).range(), (2, 3));
    let span = Span::anonymous("a\nbc".to_string());
    assert_eq!(span.range(), (0, 4));
    assert_eq!(span.skip(2).take(1).range(), (2, 3));
    assert_eq!(span.skip(2).empty().range(), (2, 2));
}

#[test]
fn columns_count_bytes_within_a_line() {
    let span = Span::anonymous("aé€\nxyz".to_string());
    assert_eq!(span.position(), (1, 1));
    assert_eq!(span.skip(1).position(), (1, 2));
    assert_eq!(span.skip(3).position(), (1, 4));
    assert_eq!(span.skip(6).position(), (1, 7));
    assert_eq!(span.skip(7).position(), (2, 1));
    assert_eq!(span.skip(9).position(), (2, 3));
    let all = span.len();
    assert_eq!(span.skip(all).position(), (3, 1));
}
