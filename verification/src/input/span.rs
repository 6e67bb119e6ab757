//! Views that know where their text came from.
//!
//! A [`Span`] is a view into a source: a text with an identifier and a table of the offsets at
//! which its lines start. From the table a span tells the line and the column at which it
//! starts.
use crate::input::string::{whole_is_window, SharedString};
use crate::input::transform::{joined, TransformContent};
use crate::input::{coverage, coverage_of, debug_text, framed, push_framed, Coverage, Input};
use crate::primitives::numbers::{decimal_string, digits_of};
use crate::primitives::lines::{line, line_len};
use crate::text::{
    byte_len, is_window, lemma_boundary_is_prefix, lemma_encode_concat, lemma_utf8_len_take,
    lemma_utf8_len_zero, lemma_window, lemma_window_join, lemma_window_nested, on_boundary,
    utf8_len, window,
};
use std::ops::Range;
use std::sync::Arc;
use vstd::prelude::*;
use vstd::string::StringExecFns;
use vstd::std_specs::convert::FromSpecImpl;
use vstd::utf8::*;

verus! {

/// The name of a source.
#[derive(Debug, PartialEq, Eq, PartialOrd, Ord, Hash)]
pub enum Id {
    Static(&'static str),
    String(String),
}

impl Id {
    /// The name.
    pub open spec fn text(&self) -> Seq<char> {
        match self {
            Id::Static(s) => s@,
            Id::String(s) => s@,
        }
    }

    /// The name, as a string slice.
    pub fn as_str(&self) -> (r: &str)
        ensures
            r@ == self.text(),
    {
        match self {
            Id::Static(s) => s,
            Id::String(s) => s.as_str(),
        }
    }

    /// The length of the name in bytes.
    pub fn len(&self) -> (n: usize)
        ensures
            n == utf8_len(self.text()),
    {
        byte_len(self.as_str())
    }

    /// The name, in a string of its own.
    pub fn to_string(&self) -> (r: String)
        ensures
            r@ == self.text(),
    {
        self.as_str().to_owned()
    }
}

impl Clone for Id {
    fn clone(&self) -> (r: Self)
        ensures
            r == *self,
    {
        match self {
            Id::Static(s) => Id::Static(s),
            Id::String(s) => Id::String(s.clone()),
        }
    }
}

impl From<&'static str> for Id {
    fn from(v: &'static str) -> (r: Self) {
        Id::Static(v)
    }
}

impl FromSpecImpl<&'static str> for Id {
    open spec fn obeys_from_spec() -> bool {
        true
    }

    open spec fn from_spec(v: &'static str) -> Self {
        Id::Static(v)
    }
}

impl From<String> for Id {
    fn from(v: String) -> (r: Self) {
        Id::String(v)
    }
}

impl FromSpecImpl<String> for Id {
    open spec fn obeys_from_spec() -> bool {
        true
    }

    open spec fn from_spec(v: String) -> Self {
        Id::String(v)
    }
}

impl Default for Id {
    fn default() -> (r: Self)
        ensures
            r.text() == Seq::<char>::empty(),
    {
        proof {
            reveal_strlit("");
        }
        Id::Static("")
    }
}

/// `table` with `by` added to each entry.
pub open spec fn shifted(table: Seq<int>, by: int) -> Seq<int> {
    Seq::new(table.len(), |i: int| table[i] + by)
}

/// The table of line starts of `chars`: the byte offset 0, and after it the byte offset at
/// which each line ends, in order. A line ends after its line feed, and the last one at the
/// end of the text.
pub open spec fn line_starts(chars: Seq<char>) -> Seq<int>
    decreases chars.len(),
{
    let n = line_len(chars);
    if chars.len() == 0 || n == 0 || n > chars.len() {
        seq![0int]
    } else {
        seq![0int] + shifted(line_starts(chars.skip(n as int)),
            utf8_len(chars.take(n as int)) as int)
    }
}

/// The number of entries at the start of `table` that are at most `at`. In a table in rising
/// order these are all the entries that are at most `at`.
pub open spec fn entries_up_to(table: Seq<int>, at: int) -> nat
    decreases table.len(),
{
    if table.len() == 0 || table[0] > at {
        0
    } else {
        1 + entries_up_to(table.drop_first(), at)
    }
}

/// The line and the column of the byte offset `at` in a text with the line starts `table`,
/// where the first line of the text has the number `first_line + 1`. Lines and columns count
/// from 1, and a column counts bytes.
pub open spec fn position_in(table: Seq<int>, first_line: int, at: int) -> (int, int) {
    let k = entries_up_to(table, at) as int;
    (k + first_line, at - table[k - 1] + 1)
}

/// True when the entries of `table` rise.
pub open spec fn rising(table: Seq<int>) -> bool {
    forall|i: int, j: int| 0 <= i < j < table.len() ==> table[i] < table[j]
}

/// The first line of a text that is not empty has at least one character and no more than the
/// text.
pub proof fn lemma_line_len(chars: Seq<char>)
    requires
        chars.len() > 0,
    ensures
        1 <= line_len(chars) <= chars.len(),
{
    crate::text::lemma_first_index_bounds(chars, |c: char| c == '\n');
}

/// A table of line starts begins with 0, rises, and ends with the length of the text.
pub proof fn lemma_line_starts(chars: Seq<char>)
    ensures
        line_starts(chars).len() >= 1,
        line_starts(chars).len() <= chars.len() + 1,
        line_starts(chars)[0] == 0,
        line_starts(chars).last() == utf8_len(chars),
        rising(line_starts(chars)),
    decreases chars.len(),
{
    if chars.len() == 0 {
        lemma_utf8_len_zero(chars);
    } else {
        lemma_line_len(chars);
        let n = line_len(chars) as int;
        let rest = chars.skip(n);
        let w = utf8_len(chars.take(n)) as int;
        lemma_line_starts(rest);
        lemma_utf8_len_take(chars, n);
        lemma_utf8_len_zero(chars.take(n));
        let inner = line_starts(rest);
        let table = line_starts(chars);
        assert(table =~= seq![0int] + shifted(inner, w));
        assert forall|i: int, j: int| 0 <= i < j < table.len() implies table[i] < table[j] by {
            if i == 0 {
                assert(table[j] == inner[j - 1] + w);
                if j - 1 > 0 {
                    assert(inner[0] < inner[j - 1]);
                }
            } else {
                assert(table[i] == inner[i - 1] + w);
                assert(table[j] == inner[j - 1] + w);
                assert(inner[i - 1] < inner[j - 1]);
            }
        }
        assert(table.last() == inner.last() + w);
    }
}

/// In a rising table, the entries at most `at` are the first `k`, where the entry before index
/// `k` is at most `at` and the one at `k`, if there is one, is above it.
pub proof fn lemma_entries_up_to(table: Seq<int>, at: int, k: int)
    requires
        rising(table),
        0 <= k <= table.len(),
        k > 0 ==> table[k - 1] <= at,
        k < table.len() ==> at < table[k],
    ensures
        entries_up_to(table, at) == k,
    decreases k,
{
    if k == 0 {
    } else {
        let rest = table.drop_first();
        assert(table[0] <= table[k - 1]);
        assert forall|i: int, j: int| 0 <= i < j < rest.len() implies rest[i] < rest[j] by {
            assert(rest[i] == table[i + 1]);
            assert(rest[j] == table[j + 1]);
        }
        if k - 1 > 0 {
            assert(rest[k - 2] == table[k - 1]);
        }
        if k - 1 < rest.len() {
            assert(rest[k - 1] == table[k]);
        }
        lemma_entries_up_to(rest, at, k - 1);
    }
}

/// True when the byte offset `e` in `chars` is the end of a line feed.
pub open spec fn ends_line_feed(chars: Seq<char>, e: int) -> bool {
    exists|k: int|
        1 <= k <= chars.len() && chars[k - 1] == '\n' && #[trigger] utf8_len(chars.take(k)) == e
}

/// Every line start but the first and the last one is the end of a line feed.
pub proof fn lemma_line_starts_follow_line_feeds(chars: Seq<char>)
    ensures
        forall|i: int|
            0 < i < line_starts(chars).len() - 1 ==> ends_line_feed(
                chars,
                #[trigger] line_starts(chars)[i],
            ),
    decreases chars.len(),
{
    if chars.len() > 0 {
        lemma_line_len(chars);
        let n = line_len(chars) as int;
        let rest = chars.skip(n);
        let w = utf8_len(chars.take(n)) as int;
        let inner = line_starts(rest);
        let table = line_starts(chars);
        lemma_line_starts_follow_line_feeds(rest);
        lemma_line_starts(rest);
        assert(table =~= seq![0int] + shifted(inner, w));
        assert forall|i: int| 0 < i < table.len() - 1 implies ends_line_feed(
            chars,
            #[trigger] table[i],
        ) by {
            assert(table[i] == inner[i - 1] + w);
            if i == 1 {
                assert(inner.len() >= 2);
                assert(rest.len() > 0) by {
                    if rest.len() == 0 {
                        assert(inner =~= seq![0int]);
                    }
                }
                crate::text::lemma_first_index_bounds(chars, |c: char| c == '\n');
                assert(chars[n - 1] == '\n');
                assert(utf8_len(chars.take(n)) == table[i]);
            } else {
                assert(ends_line_feed(rest, inner[i - 1]));
                let k = choose|k: int|
                    1 <= k <= rest.len() && rest[k - 1] == '\n' && #[trigger] utf8_len(
                        rest.take(k),
                    ) == inner[i - 1];
                crate::text::lemma_take_add(chars, n, k);
                assert(chars[n + k - 1] == rest[k - 1]);
                assert(utf8_len(chars.take(n + k)) == table[i]);
            }
        }
    }
}

/// In a rising table the entries at most `at` are the first ones: each of them is at most
/// `at`, and the entry after them, if there is one, is above `at`.
pub proof fn lemma_entries_up_to_bounds(table: Seq<int>, at: int)
    requires
        rising(table),
    ensures
        entries_up_to(table, at) <= table.len(),
        forall|i: int| 0 <= i < entries_up_to(table, at) ==> #[trigger] table[i] <= at,
        entries_up_to(table, at) < table.len() ==> at < table[entries_up_to(table, at) as int],
    decreases table.len(),
{
    if table.len() > 0 && table[0] <= at {
        let rest = table.drop_first();
        assert forall|i: int, j: int| 0 <= i < j < rest.len() implies rest[i] < rest[j] by {
            assert(rest[i] == table[i + 1]);
            assert(rest[j] == table[j + 1]);
        }
        lemma_entries_up_to_bounds(rest, at);
        assert forall|i: int| 0 <= i < entries_up_to(table, at) implies #[trigger] table[i]
            <= at by {
            if i > 0 {
                assert(table[i] == rest[i - 1]);
            }
        }
        if entries_up_to(table, at) < table.len() {
            assert(table[entries_up_to(table, at) as int] == rest[entries_up_to(rest, at) as int]);
        }
    }
}

/// True when no line feed of `chars` ends after the byte offset `from` and at or before the
/// byte offset `to`.
pub open spec fn no_line_feed_between(chars: Seq<char>, from: int, to: int) -> bool {
    forall|k: int|
        1 <= k <= chars.len() && from < #[trigger] utf8_len(chars.take(k)) <= to ==> chars[k - 1]
            != '\n'
}

/// The entries of `v`, as integers.
pub open spec fn as_ints(v: Seq<usize>) -> Seq<int> {
    Seq::new(v.len(), |i: int| v[i] as int)
}

/// The table of line starts of `s`.
pub fn line_indexes(s: &str) -> (lines: Vec<usize>)
    ensures
        as_ints(lines@) == line_starts(s@),
{
    let total = byte_len(s);
    let mut lines: Vec<usize> = Vec::new();
    lines.push(0);
    let mut remaining: &str = s;
    let ghost mut done: int = 0;
    proof {
        assert(s@.skip(0) =~= s@);
        assert(s@.take(0) =~= Seq::<char>::empty());
        lemma_utf8_len_zero(s@.take(0));
        assert(as_ints(lines@).drop_last() =~= Seq::<int>::empty());
        assert(shifted(line_starts(s@), 0) =~= line_starts(s@));
    }
    while !Input::is_empty(&remaining)
        invariant
            total == utf8_len(s@),
            0 <= done <= s@.len(),
            remaining@ == s@.skip(done),
            lines@.len() >= 1,
            lines@.last() == utf8_len(s@.take(done)),
            line_starts(s@) == as_ints(lines@).drop_last() + shifted(
                line_starts(remaining@),
                lines@.last() as int,
            ),
        decreases remaining@.len(),
    {
        let ghost before = remaining@;
        let ghost base = lines@.last() as int;
        let ghost old_lines = lines@;
        let (l, r) = match line(&remaining) {
            Ok(x) => x,
            Err(_) => {
                return lines;
            },
        };
        proof {
            lemma_line_len(before);
            let n = line_len(before) as int;
            assert(r@ =~= before.skip(n)) by {
                assert((l@ + r@).skip(l@.len() as int) =~= r@);
            }
            crate::text::lemma_take_add(s@, done, n);
            assert(s@.skip(done).take(n) == l@);
            lemma_utf8_len_take(s@, done + n);
        }
        let next = lines[lines.len() - 1] + Input::len(&l);
        lines.push(next);
        remaining = r;
        proof {
            let n = line_len(before) as int;
            let w = utf8_len(before.take(n)) as int;
            let inner = line_starts(before.skip(n));
            assert(line_starts(before) =~= seq![0int] + shifted(inner, w));
            assert(shifted(line_starts(before), base) =~= seq![base] + shifted(inner, base + w));
            assert(as_ints(lines@).drop_last() =~= as_ints(old_lines));
            assert(as_ints(old_lines) =~= as_ints(old_lines).drop_last() + seq![base]);
            assert(line_starts(s@) =~= as_ints(lines@).drop_last() + shifted(
                line_starts(remaining@),
                lines@.last() as int,
            ));
            done = done + n;
        }
    }
    proof {
        assert(line_starts(remaining@) =~= seq![0int]);
        assert(shifted(line_starts(remaining@), lines@.last() as int) =~= seq![
            lines@.last() as int,
        ]);
        assert(as_ints(lines@) =~= as_ints(lines@).drop_last() + seq![lines@.last() as int]);
    }
    lines
}

/// A text with a name and the table of its line starts.
#[derive(Debug)]
pub struct Source {
    id: Id,
    content: String,
    lines: Vec<usize>,
    starting_line: usize,
}

impl Source {
    #[verifier::type_invariant]
    spec fn well_formed(self) -> bool {
        &&& as_ints(self.lines@) == line_starts(self.content@)
        &&& self.starting_line + self.lines@.len() <= usize::MAX
    }

    /// The name of the source.
    pub closed spec fn id(&self) -> Id {
        self.id
    }

    /// The text of the source.
    pub closed spec fn content(&self) -> Seq<char> {
        self.content@
    }

    /// The number of lines that come before this text in the source it continues; 0 for a
    /// source that starts here.
    pub closed spec fn starting_line(&self) -> int {
        self.starting_line as int
    }

    /// The source with the name `id` and the text `content`.
    pub fn new(id: Id, content: String) -> (r: Self)
        ensures
            r.id() == id,
            r.content() == content@,
            r.starting_line() == 0,
    {
        let lines = line_indexes(content.as_str());
        // The number of lines is a `usize`, so it leaves room for no lines before them.
        let _count = lines.len();
        Source { id, content, lines, starting_line: 0 }
    }

    /// The source with the name `id` and the text `content`, which continues a source after
    /// `starting_line` lines of it.
    pub fn new_continued(id: Id, content: String, starting_line: usize) -> (r: Self)
        requires
            starting_line + content@.len() + 1 <= usize::MAX,
        ensures
            r.id() == id,
            r.content() == content@,
            r.starting_line() == starting_line,
    {
        let lines = line_indexes(content.as_str());
        proof {
            lemma_line_starts(content@);
        }
        Source { id, content, lines, starting_line }
    }
}

impl Default for Source {
    fn default() -> (r: Self)
        ensures
            r.id().text() == Seq::<char>::empty(),
            r.content() == Seq::<char>::empty(),
            r.starting_line() == 0,
    {
        Source::new(Id::default(), String::new())
    }
}

/// A view into a source.
#[derive(Debug)]
pub struct Span {
    source: Arc<Source>,
    start: usize,
    end: usize,
}

impl Span {
    #[verifier::type_invariant]
    spec fn well_formed(self) -> bool {
        &&& is_window(self.source.content@, self.start as int, self.end as int)
        &&& as_ints(self.source.lines@) == line_starts(self.source.content@)
        &&& self.source.starting_line + self.source.lines@.len() <= usize::MAX
    }

    /// The source that this view looks into.
    pub closed spec fn source(&self) -> Source {
        *self.source
    }

    /// The byte offset in the source at which this view starts.
    pub closed spec fn start(&self) -> int {
        self.start as int
    }

    /// The byte offset in the source at which this view ends.
    pub closed spec fn end(&self) -> int {
        self.end as int
    }

    /// The line and the column at which this view starts.
    pub open spec fn spec_position(&self) -> (int, int) {
        position_in(
            line_starts(self.source().content()),
            self.source().starting_line(),
            self.start(),
        )
    }

    /// A view over all of the text `content` of a new source with the name `id`.
    pub fn new(id: Id, content: String) -> (r: Self)
        ensures
            r.source().id() == id,
            r.source().content() == content@,
            r.source().starting_line() == 0,
            r.start() == 0,
            r.end() == utf8_len(content@),
            r.text() == content@,
    {
        let end = byte_len(content.as_str());
        proof {
            whole_is_window(content@);
        }
        let source = Source::new(id, content);
        proof {
            use_type_invariant(&source);
        }
        Span { source: Arc::new(source), start: 0, end }
    }

    /// A view over all of the text `content` of a new source with the name `id`, which
    /// continues a source after `starting_line` lines of it.
    pub fn new_continued(id: Id, content: String, starting_line: usize) -> (r: Self)
        requires
            starting_line + content@.len() + 1 <= usize::MAX,
        ensures
            r.source().id() == id,
            r.source().content() == content@,
            r.source().starting_line() == starting_line,
            r.start() == 0,
            r.end() == utf8_len(content@),
            r.text() == content@,
    {
        let end = byte_len(content.as_str());
        proof {
            whole_is_window(content@);
        }
        let source = Source::new_continued(id, content, starting_line);
        proof {
            use_type_invariant(&source);
        }
        Span { source: Arc::new(source), start: 0, end }
    }

    /// A view over all of the text `content` of a new source without a name.
    pub fn anonymous(content: String) -> (r: Self)
        ensures
            r.source().id().text() == Seq::<char>::empty(),
            r.source().content() == content@,
            r.source().starting_line() == 0,
            r.start() == 0,
            r.end() == utf8_len(content@),
            r.text() == content@,
    {
        Span::new(Id::default(), content)
    }

    /// The byte offsets in the source at which this view starts and ends. They fall between
    /// characters of the text of the source, and the view ends in it.
    pub fn range(&self) -> (r: (usize, usize))
        ensures
            r.0 == self.start(),
            r.1 == self.end(),
            is_window(self.source().content(), self.start(), self.end()),
    {
        proof {
            use_type_invariant(self);
        }
        (self.start, self.end)
    }

    /// The name of the source.
    pub fn id(&self) -> (r: &Id)
        ensures
            *r == self.source().id(),
    {
        &self.source.id
    }

    /// The line and the column at which this view starts, both counted from 1. The line is
    /// found by binary search in the table of line starts; the column counts the bytes from
    /// the start of that line.
    pub fn position(&self) -> (r: (usize, usize))
        ensures
            (r.0 as int, r.1 as int) == self.spec_position(),
    {
        proof {
            use_type_invariant(self);
            lemma_line_starts(self.source.content@);
        }
        let lines = &self.source.lines;
        let at = self.start;
        let ghost table = line_starts(self.source.content@);
        let mut lo: usize = 0;
        let mut hi: usize = lines.len();
        assert(table[0] == lines@[0]);
        while hi - lo > 1
            invariant
                as_ints(lines@) == table,
                rising(table),
                0 <= lo < hi <= lines.len(),
                lines@[lo as int] <= at,
                hi < lines.len() ==> at < lines@[hi as int],
            decreases hi - lo,
        {
            let mid = lo + (hi - lo) / 2;
            assert(table[mid as int] == lines@[mid as int]);
            if lines[mid] <= at {
                lo = mid;
            } else {
                hi = mid;
            }
        }
        proof {
            assert(table[lo as int] == lines@[lo as int]);
            if hi < lines.len() {
                assert(table[hi as int] == lines@[hi as int]);
            }
            lemma_entries_up_to(table, at as int, lo + 1);
        }
        (lo + 1 + self.source.starting_line, at - lines[lo] + 1)
    }

    /// The name of the source, and the line and the column at which this view starts.
    pub fn location(&self) -> (r: (&Id, (usize, usize)))
        ensures
            *r.0 == self.source().id(),
            (r.1.0 as int, r.1.1 as int) == self.spec_position(),
    {
        (self.id(), self.position())
    }

    /// This view cut loose from its source: a view that owns a copy of the text and keeps the
    /// name of the source and the line and the column at which this view starts.
    pub fn detatch(self) -> (r: TransformedSpan)
        ensures
            r.id() == self.source().id(),
            (r.line() as int, r.column() as int) == self.spec_position(),
            r.text() == self.text(),
    {
        let (line, column) = self.position();
        let text = self.as_str().to_owned();
        TransformedSpan::new(self.id(), line, column, text)
    }

    /// How much of the text of the source this view covers.
    pub fn coverage(&self) -> (r: Coverage)
        ensures
            r == coverage_of(self.start(), self.end(), utf8_len(self.source().content()) as int),
    {
        proof {
            use_type_invariant(self);
        }
        coverage(self.start, self.end, byte_len(self.source.content.as_str()))
    }

    /// What this view shows for debugging: its type, the line and the column at which it
    /// starts, the name of its source, and its text, written as Rust writes text for
    /// debugging, in square brackets; two dots stand on each side on which the view leaves out
    /// text of the source.
    pub open spec fn spec_debug_string(&self) -> Seq<char> {
        "Span "@ + digits_of(self.spec_position().0 as nat) + " "@ + digits_of(
            self.spec_position().1 as nat,
        ) + ":"@ + self.source().id().text() + " "@ + framed(
            coverage_of(self.start(), self.end(), utf8_len(self.source().content()) as int),
            debug_text(self.text()),
        )
    }

    /// What this view shows for debugging.
    pub fn debug_string(&self) -> (r: String)
        ensures
            r@ == self.spec_debug_string(),
    {
        let (line, column) = self.position();
        let mut out = String::from_str("Span ");
        out.append(decimal_string(line).as_str());
        out.append(" ");
        out.append(decimal_string(column).as_str());
        out.append(":");
        out.append(self.id().as_str());
        out.append(" ");
        push_framed(&mut out, self.coverage(), self.as_str());
        proof {
            assert(out@ =~= self.spec_debug_string());
        }
        out
    }

    /// The view of the bytes `start..end` of this one's range.
    fn narrow(&self, start: usize, end: usize) -> (r: Self)
        requires
            is_window(self.text(), start as int, end as int),
        ensures
            r.source() == self.source(),
            r.start() == self.start() + start,
            r.end() == self.start() + end,
            r.text() == window(self.text(), start as int, end as int),
    {
        proof {
            use_type_invariant(self);
            lemma_window(self.source.content@, self.start as int, self.end as int);
            lemma_window_nested(
                self.source.content@,
                self.start as int,
                self.end as int,
                start as int,
                end as int,
            );
        }
        Span { source: self.source.clone(), start: self.start + start, end: self.start + end }
    }
}

impl Clone for Span {
    fn clone(&self) -> (r: Self)
        ensures
            r == *self,
    {
        proof {
            use_type_invariant(self);
        }
        Span { source: self.source.clone(), start: self.start, end: self.end }
    }
}

impl Default for Span {
    fn default() -> (r: Self)
        ensures
            r.text() == Seq::<char>::empty(),
            r.source().id().text() == Seq::<char>::empty(),
    {
        Span::anonymous(String::new())
    }
}

impl Input for Span {
    open spec fn text(&self) -> Seq<char> {
        window(self.source().content(), self.start(), self.end())
    }

    open spec fn origin(&self) -> Option<(Seq<char>, int, int)> {
        Some((self.source().id().text(), self.spec_position().0, self.spec_position().1))
    }

    open spec fn sub_view(&self, start: int, end: int, part: Self) -> bool {
        &&& part.source() == self.source()
        &&& part.start() == self.start() + start
        &&& part.end() == self.start() + end
    }

    fn as_str(&self) -> (s: &str) {
        proof {
            use_type_invariant(self);
            broadcast use encode_utf8_decode_utf8;

        }
        let whole = self.source.content.as_str();
        Input::slice(&whole, self.start..self.end)
    }

    fn len(&self) -> (n: usize) {
        proof {
            use_type_invariant(self);
            lemma_window(self.source.content@, self.start as int, self.end as int);
        }
        self.end - self.start
    }

    fn is_empty(&self) -> (b: bool) {
        proof {
            use_type_invariant(self);
            lemma_window(self.source.content@, self.start as int, self.end as int);
            lemma_utf8_len_zero(self.text());
        }
        self.end == self.start
    }

    fn empty(&self) -> (r: Self) {
        proof {
            whole_is_window(self.text());
        }
        self.narrow(0, 0)
    }

    fn slice(&self, range: Range<usize>) -> (r: Self) {
        proof {
            let k = lemma_boundary_is_prefix(self.text(), range.end as int);
            lemma_utf8_len_take(self.text(), k);
            lemma_window(self.text(), range.start as int, range.end as int);
        }
        self.narrow(range.start, range.end)
    }

    fn split_at(&self, mid: usize) -> (r: (Self, Self)) {
        let n = self.len();
        proof {
            whole_is_window(self.text());
            let k = lemma_boundary_is_prefix(self.text(), mid as int);
            lemma_utf8_len_take(self.text(), k);
            lemma_window_join(self.text(), 0, mid as int, n as int);
            lemma_window(self.text(), 0, mid as int);
        }
        (self.narrow(0, mid), self.narrow(mid, n))
    }

    fn split_at_checked(&self, mid: usize) -> (r: Option<(Self, Self)>) {
        if mid <= self.len() && self.as_str().is_char_boundary(mid) {
            Some(self.split_at(mid))
        } else {
            proof {
                if on_boundary(self.text(), mid as int) {
                    let k = lemma_boundary_is_prefix(self.text(), mid as int);
                    lemma_utf8_len_take(self.text(), k);
                }
            }
            None
        }
    }

    fn take(&self, count: usize) -> (r: Self) {
        let (front, back) = self.split_at(count);
        proof {
            assert(self.text().take(front.text().len() as int) =~= front.text());
        }
        front
    }

    fn skip(&self, count: usize) -> (r: Self) {
        let (front, back) = self.split_at(count);
        proof {
            assert(self.text().skip(front.text().len() as int) =~= back.text());
            lemma_encode_concat(front.text(), back.text());
        }
        back
    }
}

/// A view over text of its own that remembers where the text it was made from came from: the
/// name of a source, and a line and a column in it.
#[derive(Debug, PartialEq)]
pub struct TransformedSpan {
    id: Arc<Id>,
    line: usize,
    column: usize,
    content: SharedString,
}

impl TransformedSpan {
    /// The name of the source.
    pub closed spec fn id(&self) -> Id {
        *self.id
    }

    /// The line in the source.
    pub closed spec fn line(&self) -> usize {
        self.line
    }

    /// The column in the source.
    pub closed spec fn column(&self) -> usize {
        self.column
    }

    /// The view over the text.
    pub closed spec fn content(&self) -> SharedString {
        self.content
    }

    /// True when `other` remembers the same name, line and column.
    pub open spec fn same_origin(&self, other: Self) -> bool {
        &&& other.id() == self.id()
        &&& other.line() == self.line()
        &&& other.column() == self.column()
    }

    /// A view over `content` that remembers the name `id`, the line `line` and the column
    /// `column`.
    pub fn new(id: &Id, line: usize, column: usize, content: String) -> (r: Self)
        ensures
            r.id() == *id,
            r.line() == line,
            r.column() == column,
            r.text() == content@,
    {
        TransformedSpan { id: Arc::new(id.clone()), line, column,
            content: SharedString::new(content) }
    }

    /// A view over `content` that remembers what this one does.
    fn with_content(&self, content: SharedString) -> (r: Self)
        ensures
            self.same_origin(r),
            r.content() == content,
    {
        TransformedSpan { id: self.id.clone(), line: self.line, column: self.column, content }
    }
}

impl Clone for TransformedSpan {
    fn clone(&self) -> (r: Self)
        ensures
            r == *self,
    {
        TransformedSpan {
            id: self.id.clone(),
            line: self.line,
            column: self.column,
            content: self.content.clone(),
        }
    }
}

impl Input for TransformedSpan {
    open spec fn text(&self) -> Seq<char> {
        self.content().text()
    }

    open spec fn origin(&self) -> Option<(Seq<char>, int, int)> {
        Some((self.id().text(), self.line() as int, self.column() as int))
    }

    open spec fn sub_view(&self, start: int, end: int, part: Self) -> bool {
        &&& self.same_origin(part)
        &&& self.content().sub_view(start, end, part.content())
    }

    fn as_str(&self) -> (s: &str) {
        self.content.as_str()
    }

    fn len(&self) -> (n: usize) {
        self.content.len()
    }

    fn is_empty(&self) -> (b: bool) {
        self.content.is_empty()
    }

    fn empty(&self) -> (r: Self) {
        self.with_content(self.content.empty())
    }

    fn slice(&self, range: Range<usize>) -> (r: Self) {
        self.with_content(self.content.slice(range))
    }

    fn split_at(&self, mid: usize) -> (r: (Self, Self)) {
        let (a, b) = self.content.split_at(mid);
        (self.with_content(a), self.with_content(b))
    }

    fn split_at_checked(&self, mid: usize) -> (r: Option<(Self, Self)>) {
        match self.content.split_at_checked(mid) {
            Some((a, b)) => Some((self.with_content(a), self.with_content(b))),
            None => None,
        }
    }

    fn take(&self, count: usize) -> (r: Self) {
        self.with_content(self.content.take(count))
    }

    fn skip(&self, count: usize) -> (r: Self) {
        self.with_content(self.content.skip(count))
    }
}

impl TransformContent for SharedString {
    type Transformed = SharedString;

    fn to_content(&self, content: String) -> (r: SharedString) {
        SharedString::new(content)
    }

    fn append_content(&self, content: &str) -> (r: SharedString) {
        SharedString::new(joined(self.as_str(), content))
    }
}

impl TransformContent for Span {
    type Transformed = TransformedSpan;

    fn to_content(&self, content: String) -> (r: TransformedSpan) {
        let (line, column) = self.position();
        TransformedSpan::new(self.id(), line, column, content)
    }

    fn append_content(&self, content: &str) -> (r: TransformedSpan) {
        let (line, column) = self.position();
        TransformedSpan::new(self.id(), line, column, joined(self.as_str(), content))
    }
}

impl TransformContent for TransformedSpan {
    type Transformed = TransformedSpan;

    fn to_content(&self, content: String) -> (r: TransformedSpan) {
        self.with_content(SharedString::new(content))
    }

    fn append_content(&self, content: &str) -> (r: TransformedSpan) {
        self.with_content(SharedString::new(joined(self.as_str(), content)))
    }
}

} // verus!
