//! Views over text.
//!
//! An [`Input`] is a contiguous range of text that can be read, measured and cut into smaller
//! views without copying the text (where the variant allows it). Offsets count bytes of the
//! text's UTF-8 encoding and are valid where they fall between two characters.
use crate::text::{
    ascii_lower, byte_len, char_at, char_width, lemma_boundary_is_prefix, lemma_cut_bytes,
    lemma_encode_concat, lemma_prefix_on_boundary, lemma_prefix_unique, lemma_utf8_len_push,
    lemma_utf8_len_take, lemma_utf8_len_zero, on_boundary, same_char_ignoring_case,
    same_ignoring_case, same_text, utf8_len,
};
use std::ops::Range;
use vstd::prelude::*;
use vstd::string::StringExecFns;
use vstd::string::StringSliceAdditionalSpecFns;
use vstd::utf8::*;

pub mod span;
pub mod string;
pub mod transform;

verus! {

/// True when `front` and `back` are the two adjacent views that `whole` is cut into: their
/// texts, put together, are the text of `whole`, and each is the sub-view of `whole` over its
/// own bytes.
pub open spec fn is_split<I: Input>(whole: I, front: I, back: I) -> bool {
    &&& front.text() + back.text() == whole.text()
    &&& whole.sub_view(0, utf8_len(front.text()) as int, front)
    &&& whole.sub_view(utf8_len(front.text()) as int, utf8_len(whole.text()) as int, back)
}

/// A contiguous range of text.
pub trait Input: Sized + Clone {
    /// The text of this view.
    spec fn text(&self) -> Seq<char>;

    /// Where the text came from, for a view that knows it: the name of a source, and the line
    /// and the column in it at which the text of this view starts.
    spec fn origin(&self) -> Option<(Seq<char>, int, int)>;

    /// True when `part` is the view of the bytes `start..end` of this view: it shares this
    /// view's backing storage, where there is one, and covers that range of it.
    spec fn sub_view(&self, start: int, end: int, part: Self) -> bool;

    /// The text, as a string slice.
    fn as_str(&self) -> (s: &str)
        ensures
            s@ == self.text(),
    ;

    /// The length of the text in bytes.
    fn len(&self) -> (n: usize)
        ensures
            n == utf8_len(self.text()),
    ;

    /// True when the text has no characters.
    fn is_empty(&self) -> (b: bool)
        ensures
            b == (self.text().len() == 0),
    ;

    /// An empty view at the start of this one.
    fn empty(&self) -> (r: Self)
        ensures
            r.text() == Seq::<char>::empty(),
            self.sub_view(0, 0, r),
    ;

    /// The view of the bytes `range.start..range.end`.
    fn slice(&self, range: Range<usize>) -> (r: Self)
        requires
            range.start <= range.end,
            on_boundary(self.text(), range.start as int),
            on_boundary(self.text(), range.end as int),
        ensures
            encode_utf8(r.text()) == encode_utf8(self.text()).subrange(
                range.start as int,
                range.end as int,
            ),
            self.sub_view(range.start as int, range.end as int, r),
    ;

    /// The views before and after the byte offset `mid`.
    fn split_at(&self, mid: usize) -> (r: (Self, Self))
        requires
            on_boundary(self.text(), mid as int),
        ensures
            r.0.text() + r.1.text() == self.text(),
            utf8_len(r.0.text()) == mid,
            self.sub_view(0, mid as int, r.0),
            self.sub_view(mid as int, utf8_len(self.text()) as int, r.1),
    ;

    /// The views before and after the byte offset `mid`, or nothing where `mid` is past the end
    /// or inside a character.
    fn split_at_checked(&self, mid: usize) -> (r: Option<(Self, Self)>)
        ensures
            r is Some <==> on_boundary(self.text(), mid as int),
            r matches Some(p) ==> {
                &&& p.0.text() + p.1.text() == self.text()
                &&& utf8_len(p.0.text()) == mid
                &&& self.sub_view(0, mid as int, p.0)
                &&& self.sub_view(mid as int, utf8_len(self.text()) as int, p.1)
            },
    ;

    /// The first `count` bytes.
    fn take(&self, count: usize) -> (r: Self)
        requires
            on_boundary(self.text(), count as int),
        ensures
            r.text().is_prefix_of(self.text()),
            utf8_len(r.text()) == count,
            self.sub_view(0, count as int, r),
    ;

    /// All but the first `count` bytes.
    fn skip(&self, count: usize) -> (r: Self)
        requires
            on_boundary(self.text(), count as int),
        ensures
            r.text().is_suffix_of(self.text()),
            utf8_len(r.text()) + count == utf8_len(self.text()),
            self.sub_view(count as int, utf8_len(self.text()) as int, r),
    ;

    /// The first `count` bytes, or nothing where `count` is past the end or inside a
    /// character.
    fn take_checked(&self, count: usize) -> (r: Option<Self>)
        ensures
            r is Some <==> on_boundary(self.text(), count as int),
            r matches Some(p) ==> {
                &&& p.text().is_prefix_of(self.text())
                &&& utf8_len(p.text()) == count
                &&& self.sub_view(0, count as int, p)
            },
    {
        if count <= self.len() && self.as_str().is_char_boundary(count) {
            Some(self.take(count))
        } else {
            proof {
                if on_boundary(self.text(), count as int) {
                    let k = lemma_boundary_is_prefix(self.text(), count as int);
                    lemma_utf8_len_take(self.text(), k);
                }
            }
            None
        }
    }

    /// The longest run of characters at the start that all satisfy `predicate`, and what
    /// follows it; nothing where the first character does not satisfy it, or there is none.
    fn take_while<P: Fn(char) -> bool>(&self, predicate: P) -> (r: Option<(Self, Self)>)
        requires
            forall|c: char| #[trigger] predicate.requires((c,)),
        ensures
            match r {
                Some((front, back)) => {
                    &&& front.text() + back.text() == self.text()
                    &&& self.sub_view(0, utf8_len(front.text()) as int, front)
                    &&& self.sub_view(
                        utf8_len(front.text()) as int,
                        utf8_len(self.text()) as int,
                        back,
                    )
                    &&& front.text().len() > 0
                    &&& forall|i: int|
                        0 <= i < front.text().len() ==> predicate.ensures(
                            (#[trigger] front.text()[i],),
                            true,
                        )
                    &&& back.text().len() > 0 ==> predicate.ensures((back.text()[0],), false)
                },
                None => self.text().len() == 0 || predicate.ensures((self.text()[0],), false),
            },
    {
        let s = self.as_str();
        let n = byte_len(s);
        let mut at: usize = 0;
        let ghost mut k: int = 0;
        proof {
            assert(s@.take(0) =~= Seq::<char>::empty());
            lemma_utf8_len_take(s@, 0);
        }
        while at < n
            invariant_except_break
                at == utf8_len(s@.take(k)),
                k < s@.len() ==> at < n,
            invariant
                n == utf8_len(s@),
                0 <= k <= s@.len(),
                at <= n,
                forall|c: char| #[trigger] predicate.requires((c,)),
                forall|i: int| 0 <= i < k ==> predicate.ensures((#[trigger] s@[i],), true),
            ensures
                at == utf8_len(s@.take(k)),
                k == s@.len() || predicate.ensures((s@[k],), false),
            decreases n - at,
        {
            proof {
                if k == s@.len() {
                    assert(s@.take(k) =~= s@);
                }
            }
            let c = char_at(s, at, Ghost(k));
            if !predicate(c) {
                break ;
            }
            proof {
                assert(s@.take(k + 1) =~= s@.take(k).push(c));
                lemma_utf8_len_push(s@.take(k), c);
                lemma_utf8_len_take(s@, k + 1);
                k = k + 1;
            }
            at = at + char_width(c);
        }
        proof {
            lemma_prefix_on_boundary(s@, k);
            if at >= n && k < s@.len() {
                lemma_utf8_len_take(s@, k);
            }
        }
        if at == 0 {
            proof {
                lemma_utf8_len_zero(s@.take(k));
            }
            None
        } else {
            let r = self.split_at(at);
            proof {
                assert(s@.take(r.0.text().len() as int) =~= r.0.text());
                lemma_prefix_unique(s@, k, r.0.text().len() as int);
                assert(r.1.text() =~= s@.skip(k));
                lemma_utf8_len_zero(r.0.text());
            }
            Some(r)
        }
    }

    /// The text before the first character that satisfies `predicate`, and the text from that
    /// character on; nothing where no character satisfies it.
    fn take_until<P: Fn(char) -> bool>(&self, predicate: P) -> (r: Option<(Self, Self)>)
        requires
            forall|c: char| #[trigger] predicate.requires((c,)),
        ensures
            match r {
                Some((front, back)) => {
                    &&& front.text() + back.text() == self.text()
                    &&& self.sub_view(0, utf8_len(front.text()) as int, front)
                    &&& self.sub_view(
                        utf8_len(front.text()) as int,
                        utf8_len(self.text()) as int,
                        back,
                    )
                    &&& forall|i: int|
                        0 <= i < front.text().len() ==> predicate.ensures(
                            (#[trigger] front.text()[i],),
                            false,
                        )
                    &&& back.text().len() > 0
                    &&& predicate.ensures((back.text()[0],), true)
                },
                None => forall|i: int|
                    0 <= i < self.text().len() ==> predicate.ensures(
                        (#[trigger] self.text()[i],),
                        false,
                    ),
            },
    {
        let s = self.as_str();
        let n = byte_len(s);
        let mut at: usize = 0;
        let ghost mut k: int = 0;
        proof {
            assert(s@.take(0) =~= Seq::<char>::empty());
        }
        while at < n
            invariant
                n == utf8_len(s@),
                s@ == self.text(),
                0 <= k <= s@.len(),
                at <= n,
                at == utf8_len(s@.take(k)),
                forall|c: char| #[trigger] predicate.requires((c,)),
                forall|i: int| 0 <= i < k ==> predicate.ensures((#[trigger] s@[i],), false),
            decreases n - at,
        {
            proof {
                if k == s@.len() {
                    assert(s@.take(k) =~= s@);
                }
            }
            let c = char_at(s, at, Ghost(k));
            if predicate(c) {
                proof {
                    lemma_prefix_on_boundary(s@, k);
                }
                let r = self.split_at(at);
                proof {
                    assert(s@.take(r.0.text().len() as int) =~= r.0.text());
                    lemma_prefix_unique(s@, k, r.0.text().len() as int);
                    assert(r.1.text() =~= s@.skip(k));
                }
                return Some(r);
            }
            proof {
                assert(s@.take(k + 1) =~= s@.take(k).push(c));
                lemma_utf8_len_push(s@.take(k), c);
                lemma_utf8_len_take(s@, k + 1);
                k = k + 1;
            }
            at = at + char_width(c);
        }
        proof {
            if k < s@.len() {
                lemma_utf8_len_take(s@, k);
            }
        }
        None
    }

    /// The literal `tag` at the start of the text, and what follows it; nothing where the text
    /// does not start with `tag`.
    fn pop(&self, tag: &str) -> (r: Option<(Self, Self)>)
        ensures
            r is Some <==> tag@.is_prefix_of(self.text()),
            r matches Some(p) ==> {
                &&& p.0.text() == tag@
                &&& p.0.text() + p.1.text() == self.text()
                &&& self.sub_view(0, utf8_len(tag@) as int, p.0)
                &&& self.sub_view(utf8_len(tag@) as int, utf8_len(self.text()) as int, p.1)
            },
    {
        let n = byte_len(tag);
        proof {
            if tag@.is_prefix_of(self.text()) {
                assert(self.text().take(tag@.len() as int) =~= tag@);
                lemma_prefix_on_boundary(self.text(), tag@.len() as int);
            }
        }
        match self.split_at_checked(n) {
            Some((front, back)) => {
                if same_text(front.as_str(), tag) {
                    Some((front, back))
                } else {
                    proof {
                        if tag@.is_prefix_of(self.text()) {
                            assert(self.text().take(tag@.len() as int) =~= tag@);
                            assert(self.text().take(front.text().len() as int) =~= front.text());
                            lemma_prefix_unique(
                                self.text(),
                                tag@.len() as int,
                                front.text().len() as int,
                            );
                        }
                    }
                    None
                }
            },
            None => None,
        }
    }

    /// A prefix of the text that is `tag` but for the case of ASCII letters, and what follows
    /// it; nothing where the text does not start with one.
    fn pop_no_case(&self, tag: &str) -> (r: Option<(Self, Self)>)
        ensures
            r is Some <==> tag@.len() <= self.text().len() && same_ignoring_case(
                tag@,
                self.text().take(tag@.len() as int),
            ),
            r matches Some(p) ==> {
                &&& p.0.text() == self.text().take(tag@.len() as int)
                &&& p.0.text() + p.1.text() == self.text()
                &&& self.sub_view(0, utf8_len(p.0.text()) as int, p.0)
                &&& self.sub_view(
                    utf8_len(p.0.text()) as int,
                    utf8_len(self.text()) as int,
                    p.1,
                )
            },
    {
        let s = self.as_str();
        let n = byte_len(s);
        let m = byte_len(tag);
        let mut at: usize = 0;
        let mut tag_at: usize = 0;
        let ghost mut k: int = 0;
        proof {
            assert(s@.take(0) =~= Seq::<char>::empty());
            assert(tag@.take(0) =~= Seq::<char>::empty());
        }
        while tag_at < m
            invariant
                n == utf8_len(s@),
                m == utf8_len(tag@),
                s@ == self.text(),
                0 <= k <= s@.len(),
                k <= tag@.len(),
                at <= n,
                tag_at <= m,
                at == utf8_len(s@.take(k)),
                tag_at == utf8_len(tag@.take(k)),
                forall|i: int| 0 <= i < k ==> ascii_lower(#[trigger] tag@[i]) == ascii_lower(s@[i]),
            decreases m - tag_at,
        {
            proof {
                if k == tag@.len() {
                    assert(tag@.take(k) =~= tag@);
                }
                if k == s@.len() {
                    assert(s@.take(k) =~= s@);
                }
            }
            if at >= n {
                proof {
                    if k < s@.len() {
                        lemma_utf8_len_take(s@, k);
                    }
                }
                return None;
            }
            let a = char_at(tag, tag_at, Ghost(k));
            let b = char_at(s, at, Ghost(k));
            if !same_char_ignoring_case(a, b) {
                proof {
                    if tag@.len() <= s@.len() {
                        assert(s@.take(tag@.len() as int)[k] == s@[k]);
                    }
                }
                return None;
            }
            proof {
                assert(s@.take(k + 1) =~= s@.take(k).push(b));
                lemma_utf8_len_push(s@.take(k), b);
                lemma_utf8_len_take(s@, k + 1);
                assert(tag@.take(k + 1) =~= tag@.take(k).push(a));
                lemma_utf8_len_push(tag@.take(k), a);
                lemma_utf8_len_take(tag@, k + 1);
                k = k + 1;
            }
            at = at + char_width(b);
            tag_at = tag_at + char_width(a);
        }
        proof {
            if k < tag@.len() {
                lemma_utf8_len_take(tag@, k);
            }
            lemma_prefix_on_boundary(s@, k);
        }
        let r = self.split_at(at);
        proof {
            assert(s@.take(r.0.text().len() as int) =~= r.0.text());
            lemma_prefix_unique(s@, k, r.0.text().len() as int);
            assert forall|i: int| 0 <= i < tag@.len() implies ascii_lower(#[trigger] tag@[i])
                == ascii_lower(s@.take(tag@.len() as int)[i]) by {
                assert(s@.take(tag@.len() as int)[i] == s@[i]);
            }
        }
        Some(r)
    }
}

impl<'a> Input for &'a str {
    open spec fn text(&self) -> Seq<char> {
        self@
    }

    open spec fn origin(&self) -> Option<(Seq<char>, int, int)> {
        None
    }

    open spec fn sub_view(&self, start: int, end: int, part: Self) -> bool {
        encode_utf8(part@) == encode_utf8(self@).subrange(start, end)
    }

    fn as_str(&self) -> (s: &str) {
        self
    }

    fn len(&self) -> (n: usize) {
        byte_len(self)
    }

    fn is_empty(&self) -> (b: bool) {
        str::is_empty(self)
    }

    fn empty(&self) -> (r: Self) {
        proof {
            lemma_prefix_on_boundary(self@, 0);
            assert(self@.take(0) =~= Seq::<char>::empty());
        }
        let (front, back) = str::split_at(self, 0);
        proof {
            lemma_cut_bytes(self@, front@, back@, 0);
            lemma_utf8_len_zero(front@);
            assert(front@ =~= Seq::<char>::empty());
        }
        front
    }

    fn slice(&self, range: Range<usize>) -> (r: Self) {
        proof {
            assert(self.text() == self@);
            assert(on_boundary(self@, range.start as int));
            let j = lemma_boundary_is_prefix(self@, range.start as int);
            let k = lemma_boundary_is_prefix(self@, range.end as int);
            lemma_utf8_len_take(self@, k);
        }
        let (head, _) = str::split_at(self, range.end);
        proof {
            broadcast use encode_utf8_valid_utf8;
            assert(head.spec_bytes() =~= self.spec_bytes().subrange(0, range.end as int));
            is_char_boundary_start_end_of_seq(self.spec_bytes());
            vstd::utf8::valid_utf8_split(self.spec_bytes(), range.end as int);
            lemma_boundary_within(self@, head@, range.start as int, range.end as int);
        }
        let (_, part) = str::split_at(head, range.start);
        proof {
            assert(part.spec_bytes() =~= self.spec_bytes().subrange(
                range.start as int,
                range.end as int,
            ));
            assert(encode_utf8(part@) == encode_utf8(self@).subrange(
                range.start as int,
                range.end as int,
            ));
            assert(self.sub_view(range.start as int, range.end as int, part));
        }
        part
    }

    fn split_at(&self, mid: usize) -> (r: (Self, Self)) {
        let r = str::split_at(self, mid);
        proof {
            lemma_cut_bytes(self@, r.0@, r.1@, mid as int);
            lemma_encode_concat(r.0@, r.1@);
        }
        r
    }

    fn split_at_checked(&self, mid: usize) -> (r: Option<(Self, Self)>) {
        if mid <= byte_len(self) && str::is_char_boundary(self, mid) {
            Some(Input::split_at(self, mid))
        } else {
            proof {
                if on_boundary(self@, mid as int) {
                    let k = lemma_boundary_is_prefix(self@, mid as int);
                    lemma_utf8_len_take(self@, k);
                }
            }
            None
        }
    }

    fn take(&self, count: usize) -> (r: Self) {
        let (front, back) = Input::split_at(self, count);
        proof {
            assert(self@.take(front@.len() as int) =~= front@);
        }
        front
    }

    fn skip(&self, count: usize) -> (r: Self) {
        let (front, back) = Input::split_at(self, count);
        proof {
            assert(self@.skip(front@.len() as int) =~= back@);
            lemma_encode_concat(front@, back@);
        }
        back
    }
}

impl Input for String {
    open spec fn text(&self) -> Seq<char> {
        self@
    }

    open spec fn origin(&self) -> Option<(Seq<char>, int, int)> {
        None
    }

    open spec fn sub_view(&self, start: int, end: int, part: Self) -> bool {
        encode_utf8(part@) == encode_utf8(self@).subrange(start, end)
    }

    fn as_str(&self) -> (s: &str) {
        String::as_str(self)
    }

    fn len(&self) -> (n: usize) {
        byte_len(String::as_str(self))
    }

    fn is_empty(&self) -> (b: bool) {
        str::is_empty(String::as_str(self))
    }

    fn empty(&self) -> (r: Self) {
        let s = String::as_str(self);
        Input::empty(&s).to_owned()
    }

    fn slice(&self, range: Range<usize>) -> (r: Self) {
        let s = String::as_str(self);
        Input::slice(&s, range).to_owned()
    }

    fn split_at(&self, mid: usize) -> (r: (Self, Self)) {
        let s = String::as_str(self);
        let (a, b) = Input::split_at(&s, mid);
        (a.to_owned(), b.to_owned())
    }

    fn split_at_checked(&self, mid: usize) -> (r: Option<(Self, Self)>) {
        let s = String::as_str(self);
        match Input::split_at_checked(&s, mid) {
            Some((a, b)) => Some((a.to_owned(), b.to_owned())),
            None => None,
        }
    }

    fn take(&self, count: usize) -> (r: Self) {
        let s = String::as_str(self);
        Input::take(&s, count).to_owned()
    }

    fn skip(&self, count: usize) -> (r: Self) {
        let s = String::as_str(self);
        Input::skip(&s, count).to_owned()
    }
}

/// Cuts `s` after its first `n` bytes, which are its first `k` characters.
pub(crate) fn cut_after<I: Input>(s: &I, n: usize, Ghost(k): Ghost<int>) -> (r: (I, I))
    requires
        0 <= k <= s.text().len(),
        n == utf8_len(s.text().take(k)),
    ensures
        is_split(*s, r.0, r.1),
        r.0.text() == s.text().take(k),
        r.1.text() == s.text().skip(k),
{
    proof {
        lemma_prefix_on_boundary(s.text(), k);
    }
    let r = s.split_at(n);
    proof {
        assert(s.text().take(r.0.text().len() as int) =~= r.0.text());
        lemma_prefix_unique(s.text(), k, r.0.text().len() as int);
        assert(r.1.text() =~= s.text().skip(k));
    }
    r
}

/// How much of its backing text a view covers.
#[derive(Debug, Clone, Copy, PartialEq, Eq)]
pub enum Coverage {
    /// All of the text.
    Whole,
    /// A part at the start of the text.
    Prefix,
    /// A part at the end of the text.
    Suffix,
    /// A part from the middle of the text.
    Interior,
}

/// How much of a text of `len` bytes the range of bytes `start..end` covers. A range that
/// covers all of the text is whole; of the others, one that starts at the start is a prefix,
/// one that ends at the end is a suffix, and every other one is interior.
pub open spec fn coverage_of(start: int, end: int, len: int) -> Coverage {
    if end - start == len {
        Coverage::Whole
    } else if start == 0 {
        Coverage::Prefix
    } else if end == len {
        Coverage::Suffix
    } else {
        Coverage::Interior
    }
}

/// How much of a text of `len` bytes the range of bytes `start..end` covers.
pub fn coverage(start: usize, end: usize, len: usize) -> (r: Coverage)
    requires
        start <= end,
    ensures
        r == coverage_of(start as int, end as int, len as int),
{
    if end - start == len {
        Coverage::Whole
    } else if start == 0 {
        Coverage::Prefix
    } else if end == len {
        Coverage::Suffix
    } else {
        Coverage::Interior
    }
}

/// The text `s` as Rust writes it for debugging: in double quotes, with escape sequences for
/// the characters that need them.
pub uninterp spec fn debug_text(s: Seq<char>) -> Seq<char>;

/// Calls `format!` with `{:?}` on `s`, the `Debug` form of `str`. The result depends on the
/// text alone; the contract gives it the name [`debug_text`] and says nothing of what it
/// holds.
#[verifier::external_body]
pub(crate) fn debug_quoted(s: &str) -> (r: String)
    ensures
        r@ == debug_text(s@),
{
    format!("{:?}", s)
}

/// The text `quoted` in square brackets, with two dots on each side on which the view that it
/// was taken from leaves out text.
pub open spec fn framed(cover: Coverage, quoted: Seq<char>) -> Seq<char> {
    match cover {
        Coverage::Whole => "[ "@ + quoted + " ]"@,
        Coverage::Prefix => "[ "@ + quoted + " .. ]"@,
        Coverage::Suffix => "[ .. "@ + quoted + " ]"@,
        Coverage::Interior => "[ .. "@ + quoted + " .. ]"@,
    }
}

/// Appends to `out` the text `text` as it is written for debugging, in square brackets,
/// with two dots on each side on which `cover` says that text is left out.
pub fn push_framed(out: &mut String, cover: Coverage, text: &str)
    ensures
        final(out)@ == old(out)@ + framed(cover, debug_text(text@)),
{
    let quoted = debug_quoted(text);
    let ghost before = out@;
    match cover {
        Coverage::Whole => {
            out.append("[ ");
            out.append(quoted.as_str());
            out.append(" ]");
            assert(out@ =~= before + ("[ "@ + quoted@ + " ]"@));
        },
        Coverage::Prefix => {
            out.append("[ ");
            out.append(quoted.as_str());
            out.append(" .. ]");
            assert(out@ =~= before + ("[ "@ + quoted@ + " .. ]"@));
        },
        Coverage::Suffix => {
            out.append("[ .. ");
            out.append(quoted.as_str());
            out.append(" ]");
            assert(out@ =~= before + ("[ .. "@ + quoted@ + " ]"@));
        },
        Coverage::Interior => {
            out.append("[ .. ");
            out.append(quoted.as_str());
            out.append(" .. ]");
            assert(out@ =~= before + ("[ .. "@ + quoted@ + " .. ]"@));
        },
    }
}

/// A boundary of text is a boundary of each of its prefixes that reaches it.
pub proof fn lemma_boundary_within(chars: Seq<char>, head: Seq<char>, at: int, end: int)
    requires
        on_boundary(chars, at),
        on_boundary(chars, end),
        0 <= at <= end,
        encode_utf8(head) == encode_utf8(chars).subrange(0, end),
    ensures
        on_boundary(head, at),
{
    let j = lemma_boundary_is_prefix(chars, at);
    let k = lemma_boundary_is_prefix(chars, end);
    lemma_utf8_len_take(chars, k);
    assert(encode_utf8(chars).subrange(end, encode_utf8(chars).len() as int) == encode_utf8(
        chars.skip(k),
    )) by {
        lemma_encode_concat(chars.take(k), chars.skip(k));
        assert(chars.take(k) + chars.skip(k) =~= chars);
        assert(encode_utf8(chars).subrange(end, encode_utf8(chars).len() as int) =~= encode_utf8(
            chars.skip(k),
        ));
    }
    lemma_cut_bytes(chars, head, chars.skip(k), end);
    assert(head =~= chars.take(k)) by {
        assert(head.len() + chars.skip(k).len() == chars.len());
        assert(head =~= (head + chars.skip(k)).take(head.len() as int));
    }
    if j > k {
        lemma_utf8_len_take(chars.take(j), k);
        assert(chars.take(j).take(k) =~= chars.take(k));
        assert(false);
    }
    assert(head.take(j) =~= chars.take(j));
    lemma_prefix_on_boundary(head, j);
}

} // verus!
