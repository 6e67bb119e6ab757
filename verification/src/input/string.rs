//! Text shared between views.
use crate::input::{coverage, coverage_of, debug_text, framed, push_framed, Coverage, Input};
use crate::text::{
    byte_len, is_window, lemma_boundary_is_prefix, lemma_prefix_on_boundary, lemma_utf8_len_take,
    lemma_window, lemma_window_join, lemma_window_nested, on_boundary, utf8_len, window,
};
use std::ops::Range;
use std::sync::Arc;
use vstd::prelude::*;
use vstd::string::StringExecFns;
use vstd::utf8::*;

verus! {

/// A view over text that it shares with other views: cutting and cloning copy no text.
#[derive(Debug, PartialEq)]
pub struct SharedString {
    content: Arc<String>,
    start: usize,
    end: usize,
}

impl SharedString {
    #[verifier::type_invariant]
    spec fn well_formed(self) -> bool {
        is_window(self.content@, self.start as int, self.end as int)
    }

    /// The whole of the text that this view shares.
    pub closed spec fn backing(&self) -> Seq<char> {
        self.content@
    }

    /// The byte offset in the shared text at which this view starts.
    pub closed spec fn start(&self) -> int {
        self.start as int
    }

    /// The byte offset in the shared text at which this view ends.
    pub closed spec fn end(&self) -> int {
        self.end as int
    }

    /// A view over the whole of `s`.
    pub fn new(s: String) -> (r: Self)
        ensures
            r.backing() == s@,
            r.start() == 0,
            r.end() == utf8_len(s@),
            r.text() == s@,
    {
        let end = byte_len(s.as_str());
        proof {
            whole_is_window(s@);
        }
        SharedString { content: Arc::new(s), start: 0, end }
    }

    /// The byte offsets in the shared text at which this view starts and ends. They fall
    /// between characters of the shared text, and the view ends in it.
    pub fn range(&self) -> (r: (usize, usize))
        ensures
            r.0 == self.start(),
            r.1 == self.end(),
            is_window(self.backing(), self.start(), self.end()),
    {
        proof {
            use_type_invariant(self);
        }
        (self.start, self.end)
    }

    /// True when this view covers all of the shared text.
    pub fn is_whole(&self) -> (b: bool)
        ensures
            b == (self.start() == 0 && self.end() == utf8_len(self.backing())),
    {
        self.start == 0 && self.end == byte_len(self.content.as_str())
    }

    /// How much of the shared text this view covers.
    pub fn coverage(&self) -> (r: Coverage)
        ensures
            r == coverage_of(self.start(), self.end(), utf8_len(self.backing()) as int),
    {
        proof {
            use_type_invariant(self);
        }
        coverage(self.start, self.end, byte_len(self.content.as_str()))
    }

    /// What this view shows for debugging: its type and its text, written as Rust writes text
    /// for debugging, in square brackets; two dots stand on each side on which the view
    /// leaves out shared text.
    pub open spec fn spec_debug_string(&self) -> Seq<char> {
        "SharedString "@ + framed(
            coverage_of(self.start(), self.end(), utf8_len(self.backing()) as int),
            debug_text(self.text()),
        )
    }

    /// What this view shows for debugging.
    pub fn debug_string(&self) -> (r: String)
        ensures
            r@ == self.spec_debug_string(),
    {
        let mut out = String::from_str("SharedString ");
        push_framed(&mut out, self.coverage(), self.as_str());
        out
    }

    /// The text of this view, in a string of its own.
    pub fn to_string(&self) -> (r: String)
        ensures
            r@ == self.text(),
    {
        self.as_str().to_owned()
    }

    /// The view of the bytes `start..end` of this one's range.
    fn narrow(&self, start: usize, end: usize) -> (r: Self)
        requires
            is_window(self.text(), start as int, end as int),
        ensures
            r.backing() == self.backing(),
            r.start() == self.start() + start,
            r.end() == self.start() + end,
            r.text() == window(self.text(), start as int, end as int),
    {
        proof {
            use_type_invariant(self);
            lemma_window(self.content@, self.start as int, self.end as int);
            lemma_window_nested(
                self.content@,
                self.start as int,
                self.end as int,
                start as int,
                end as int,
            );
        }
        SharedString {
            content: self.content.clone(),
            start: self.start + start,
            end: self.start + end,
        }
    }
}

/// The whole of a text is a window of it, and holds the text.
pub proof fn whole_is_window(chars: Seq<char>)
    ensures
        is_window(chars, 0, utf8_len(chars) as int),
        is_window(chars, 0, 0),
        window(chars, 0, utf8_len(chars) as int) == chars,
        window(chars, 0, 0) == Seq::<char>::empty(),
{
    broadcast use encode_utf8_decode_utf8;

    lemma_prefix_on_boundary(chars, 0);
    lemma_prefix_on_boundary(chars, chars.len() as int);
    assert(chars.take(0) =~= Seq::<char>::empty());
    assert(chars.take(chars.len() as int) =~= chars);
    assert(encode_utf8(chars).subrange(0, utf8_len(chars) as int) =~= encode_utf8(chars));
    assert(encode_utf8(chars).subrange(0, 0) =~= encode_utf8(Seq::<char>::empty()));
}

impl Default for SharedString {
    fn default() -> (r: Self)
        ensures
            r.text() == Seq::<char>::empty(),
            r.backing() == Seq::<char>::empty(),
    {
        SharedString::new(String::new())
    }
}

impl Clone for SharedString {
    fn clone(&self) -> (r: Self)
        ensures
            r == *self,
    {
        proof {
            use_type_invariant(self);
        }
        SharedString { content: self.content.clone(), start: self.start, end: self.end }
    }
}

impl Input for SharedString {
    open spec fn text(&self) -> Seq<char> {
        window(self.backing(), self.start(), self.end())
    }

    open spec fn origin(&self) -> Option<(Seq<char>, int, int)> {
        None
    }

    open spec fn sub_view(&self, start: int, end: int, part: Self) -> bool {
        &&& part.backing() == self.backing()
        &&& part.start() == self.start() + start
        &&& part.end() == self.start() + end
    }

    fn as_str(&self) -> (s: &str) {
        proof {
            use_type_invariant(self);
            broadcast use encode_utf8_decode_utf8;

        }
        let whole = self.content.as_str();
        Input::slice(&whole, self.start..self.end)
    }

    fn len(&self) -> (n: usize) {
        proof {
            use_type_invariant(self);
            lemma_window(self.content@, self.start as int, self.end as int);
        }
        self.end - self.start
    }

    fn is_empty(&self) -> (b: bool) {
        proof {
            use_type_invariant(self);
            lemma_window(self.content@, self.start as int, self.end as int);
            crate::text::lemma_utf8_len_zero(self.text());
        }
        self.end == self.start
    }

    fn empty(&self) -> (r: Self) {
        proof {
            whole_is_window(self.text());
        }
        self.narrow(0, 0)
    }

    fn slice(&self, range: Range<usize>) -> (r: Self) {
        proof {
            let k = lemma_boundary_is_prefix(self.text(), range.end as int);
            lemma_utf8_len_take(self.text(), k);
            lemma_window(self.text(), range.start as int, range.end as int);
        }
        self.narrow(range.start, range.end)
    }

    fn split_at(&self, mid: usize) -> (r: (Self, Self)) {
        let n = self.len();
        proof {
            whole_is_window(self.text());
            let k = lemma_boundary_is_prefix(self.text(), mid as int);
            lemma_utf8_len_take(self.text(), k);
            lemma_window_join(self.text(), 0, mid as int, n as int);
            lemma_window(self.text(), 0, mid as int);
        }
        (self.narrow(0, mid), self.narrow(mid, n))
    }

    fn split_at_checked(&self, mid: usize) -> (r: Option<(Self, Self)>) {
        if mid <= self.len() && self.as_str().is_char_boundary(mid) {
            Some(self.split_at(mid))
        } else {
            proof {
                if on_boundary(self.text(), mid as int) {
                    let k = lemma_boundary_is_prefix(self.text(), mid as int);
                    lemma_utf8_len_take(self.text(), k);
                }
            }
            None
        }
    }

    fn take(&self, count: usize) -> (r: Self) {
        let (front, back) = self.split_at(count);
        proof {
            assert(self.text().take(front.text().len() as int) =~= front.text());
        }
        front
    }

    fn skip(&self, count: usize) -> (r: Self) {
        let (front, back) = self.split_at(count);
        proof {
            assert(self.text().skip(front.text().len() as int) =~= back.text());
            crate::text::lemma_encode_concat(front.text(), back.text());
        }
        back
    }
}

} // verus!
