//! Characters, bytes and offsets.
//!
//! Text is a sequence of characters, and an offset into it counts the bytes of its UTF-8
//! encoding, as `str` does. This module relates the two: which offsets fall between two
//! characters, and how many bytes a run of characters takes.
use vstd::prelude::*;
use vstd::string::StrSliceExecFns;
use vstd::string::StringSliceAdditionalSpecFns;
use vstd::utf8::*;

verus! {

/// The number of bytes that `chars` takes in UTF-8.
pub open spec fn utf8_len(chars: Seq<char>) -> nat {
    encode_utf8(chars).len()
}

/// The number of bytes that one character takes in UTF-8.
pub open spec fn char_len(c: char) -> nat {
    encode_scalar(c as u32).len()
}

/// True when the byte offset `at` falls between two characters of `chars`, or at one of its
/// ends.
pub open spec fn on_boundary(chars: Seq<char>, at: int) -> bool {
    is_char_boundary(encode_utf8(chars), at)
}

/// The length of the longest prefix of `chars` whose characters all satisfy `p`.
pub open spec fn run_len(chars: Seq<char>, p: spec_fn(char) -> bool) -> nat
    decreases chars.len(),
{
    if chars.len() == 0 || !p(chars[0]) {
        0
    } else {
        1 + run_len(chars.drop_first(), p)
    }
}

/// The index of the first character of `chars` that satisfies `p`, or the length of `chars`
/// where none does.
pub open spec fn first_index(chars: Seq<char>, p: spec_fn(char) -> bool) -> nat {
    run_len(chars, |c: char| !p(c))
}

/// A character takes between one and four bytes.
pub proof fn lemma_char_len_bounds(c: char)
    ensures
        1 <= char_len(c) <= 4,
        char_len(c) == 1 <==> (c as u32) < 0x80,
{
}

/// Encoding distributes over concatenation.
pub proof fn lemma_encode_concat(a: Seq<char>, b: Seq<char>)
    ensures
        encode_utf8(a + b) == encode_utf8(a) + encode_utf8(b),
        utf8_len(a + b) == utf8_len(a) + utf8_len(b),
    decreases a.len(),
{
    if a.len() == 0 {
        assert(a + b =~= b);
        assert(encode_utf8(a) + encode_utf8(b) =~= encode_utf8(b));
    } else {
        lemma_encode_concat(a.drop_first(), b);
        assert((a + b).drop_first() =~= a.drop_first() + b);
        assert((a + b)[0] == a[0]);
        assert(encode_utf8(a + b) =~= encode_utf8(a) + encode_utf8(b));
    }
}

/// One more character adds its own length.
pub proof fn lemma_utf8_len_push(a: Seq<char>, c: char)
    ensures
        utf8_len(a.push(c)) == utf8_len(a) + char_len(c),
{
    lemma_encode_concat(a, seq![c]);
    assert(a.push(c) =~= a + seq![c]);
    assert(seq![c].drop_first() =~= Seq::<char>::empty());
    assert(encode_utf8(seq![c]) =~= encode_scalar(c as u32)) by {
        reveal_with_fuel(encode_utf8, 2);
    }
}

/// Text without bytes has no characters.
pub proof fn lemma_utf8_len_zero(a: Seq<char>)
    ensures
        utf8_len(a) == 0 <==> a.len() == 0,
{
    if a.len() > 0 {
        lemma_char_len_bounds(a[0]);
    }
}

/// A longer prefix takes at least as many bytes.
pub proof fn lemma_utf8_len_take(a: Seq<char>, k: int)
    requires
        0 <= k <= a.len(),
    ensures
        utf8_len(a.take(k)) <= utf8_len(a),
        utf8_len(a.take(k)) + utf8_len(a.skip(k)) == utf8_len(a),
        k < a.len() ==> utf8_len(a.take(k)) < utf8_len(a),
{
    lemma_encode_concat(a.take(k), a.skip(k));
    assert(a.take(k) + a.skip(k) =~= a);
    if k < a.len() {
        lemma_utf8_len_zero(a.skip(k));
    }
}

/// The end of every prefix is a boundary.
pub proof fn lemma_prefix_on_boundary(chars: Seq<char>, k: int)
    requires
        0 <= k <= chars.len(),
    ensures
        on_boundary(chars, utf8_len(chars.take(k)) as int),
    decreases k,
{
    broadcast use encode_utf8_valid_utf8;

    let bytes = encode_utf8(chars);
    if k == 0 {
        assert(chars.take(0) =~= Seq::<char>::empty());
    } else {
        let rest = chars.drop_first();
        encode_utf8_first_scalar(chars);
        assert(pop_first_scalar(bytes) =~= encode_utf8(rest));
        lemma_prefix_on_boundary(rest, k - 1);
        assert(chars.take(k) =~= seq![chars[0]] + rest.take(k - 1));
        lemma_encode_concat(seq![chars[0]], rest.take(k - 1));
        assert(encode_utf8(seq![chars[0]]) =~= encode_scalar(chars[0] as u32)) by {
            reveal_with_fuel(encode_utf8, 2);
            assert(seq![chars[0]].drop_first() =~= Seq::<char>::empty());
        }
        lemma_utf8_len_take(rest, k - 1);
        lemma_char_len_bounds(chars[0]);
        let at = utf8_len(chars.take(k)) as int;
        assert(at == char_len(chars[0]) + utf8_len(rest.take(k - 1)));
        assert(bytes.len() == char_len(chars[0]) + utf8_len(rest));
        assert(is_char_boundary(bytes, at));
    }
}

/// Every boundary is the end of a prefix.
pub proof fn lemma_boundary_is_prefix(chars: Seq<char>, at: int) -> (k: int)
    requires
        on_boundary(chars, at),
    ensures
        0 <= k <= chars.len(),
        utf8_len(chars.take(k)) == at,
    decreases chars.len(),
{
    broadcast use encode_utf8_valid_utf8;

    let bytes = encode_utf8(chars);
    if at == 0 {
        assert(chars.take(0) =~= Seq::<char>::empty());
        0
    } else {
        assert(0 < at <= bytes.len());
        assert(chars.len() > 0);
        let rest = chars.drop_first();
        encode_utf8_first_scalar(chars);
        assert(pop_first_scalar(bytes) =~= encode_utf8(rest));
        let k = lemma_boundary_is_prefix(rest, at - length_of_first_scalar(bytes));
        assert(chars.take(k + 1) =~= seq![chars[0]] + rest.take(k));
        lemma_encode_concat(seq![chars[0]], rest.take(k));
        assert(encode_utf8(seq![chars[0]]) =~= encode_scalar(chars[0] as u32)) by {
            reveal_with_fuel(encode_utf8, 2);
            assert(seq![chars[0]].drop_first() =~= Seq::<char>::empty());
        }
        k + 1
    }
}

/// Two prefixes of the same byte length are the same prefix.
pub proof fn lemma_prefix_unique(chars: Seq<char>, j: int, k: int)
    requires
        0 <= j <= chars.len(),
        0 <= k <= chars.len(),
        utf8_len(chars.take(j)) == utf8_len(chars.take(k)),
    ensures
        j == k,
{
    if j < k {
        lemma_utf8_len_take(chars.take(k), j);
        assert(chars.take(k).take(j) =~= chars.take(j));
    } else if k < j {
        lemma_utf8_len_take(chars.take(j), k);
        assert(chars.take(j).take(k) =~= chars.take(k));
    }
}

/// Cutting text at a boundary: the two parts, decoded, are a prefix and the matching suffix.
pub proof fn lemma_cut_bytes(chars: Seq<char>, front: Seq<char>, back: Seq<char>, at: int)
    requires
        on_boundary(chars, at),
        encode_utf8(front) == encode_utf8(chars).subrange(0, at),
        encode_utf8(back) == encode_utf8(chars).subrange(at, encode_utf8(chars).len() as int),
    ensures
        front + back == chars,
        utf8_len(front) == at,
{
    broadcast use encode_utf8_valid_utf8, encode_utf8_decode_utf8;

    let bytes = encode_utf8(chars);
    decode_utf8_split(bytes, at);
    assert(decode_utf8(bytes) == chars);
    assert(decode_utf8(encode_utf8(front)) == front);
    assert(decode_utf8(encode_utf8(back)) == back);
    assert(front + back =~= chars);
    let k = lemma_boundary_is_prefix(chars, at);
    lemma_utf8_len_take(chars, k);
}

/// Where a prefix satisfies `p` throughout and what follows it does not start with a character
/// that satisfies `p`, the prefix is the run.
pub proof fn lemma_run_len_is(chars: Seq<char>, p: spec_fn(char) -> bool, n: int)
    requires
        0 <= n <= chars.len(),
        forall|i: int| 0 <= i < n ==> p(#[trigger] chars[i]),
        n < chars.len() ==> !p(chars[n]),
    ensures
        run_len(chars, p) == n,
    decreases n,
{
    if n > 0 {
        let rest = chars.drop_first();
        assert forall|i: int| 0 <= i < n - 1 implies p(#[trigger] rest[i]) by {
            assert(rest[i] == chars[i + 1]);
        }
        lemma_run_len_is(rest, p, n - 1);
    }
}

/// The run is a prefix that satisfies `p` throughout and cannot be extended.
pub proof fn lemma_run_len_bounds(chars: Seq<char>, p: spec_fn(char) -> bool)
    ensures
        run_len(chars, p) <= chars.len(),
        forall|i: int| 0 <= i < run_len(chars, p) ==> p(#[trigger] chars[i]),
        run_len(chars, p) < chars.len() ==> !p(chars[run_len(chars, p) as int]),
    decreases chars.len(),
{
    if chars.len() == 0 || !p(chars[0]) {
    } else {
        let rest = chars.drop_first();
        lemma_run_len_bounds(rest, p);
        assert forall|i: int| 0 <= i < run_len(chars, p) implies p(#[trigger] chars[i]) by {
            if i > 0 {
                assert(chars[i] == rest[i - 1]);
            }
        }
    }
}

/// The length of `s` in bytes.
pub fn byte_len(s: &str) -> (n: usize)
    ensures
        n == utf8_len(s@),
{
    s.as_bytes().len()
}

/// The lower-case form of an ASCII capital letter; any other character as it is.
pub open spec fn ascii_lower(c: char) -> char {
    if 'A' <= c <= 'Z' {
        ((c as u32) + 32) as char
    } else {
        c
    }
}

/// True when `a` and `b` are the same but for the case of their ASCII letters.
pub open spec fn same_ignoring_case(a: Seq<char>, b: Seq<char>) -> bool {
    &&& a.len() == b.len()
    &&& forall|i: int| 0 <= i < a.len() ==> ascii_lower(#[trigger] a[i]) == ascii_lower(b[i])
}

/// True when `a` and `b` are the same character but for the case of an ASCII letter.
pub fn same_char_ignoring_case(a: char, b: char) -> (r: bool)
    ensures
        r == (ascii_lower(a) == ascii_lower(b)),
{
    let x = a as u32;
    let y = b as u32;
    let x = if 65 <= x && x <= 90 {
        x + 32
    } else {
        x
    };
    let y = if 65 <= y && y <= 90 {
        y + 32
    } else {
        y
    };
    proof {
        assert(x == ascii_lower(a) as u32);
        assert(y == ascii_lower(b) as u32);
        char_u32_cast(ascii_lower(a), x);
        char_u32_cast(ascii_lower(b), y);
    }
    x == y
}

/// True when `a` and `b` hold the same text.
pub fn same_text(a: &str, b: &str) -> (r: bool)
    ensures
        r == (a@ == b@),
{
    broadcast use encode_utf8_decode_utf8;

    let x = a.as_bytes();
    let y = b.as_bytes();
    if x.len() != y.len() {
        return false;
    }
    let mut i: usize = 0;
    while i < x.len()
        invariant
            i <= x.len(),
            x.len() == y.len(),
            x@ == encode_utf8(a@),
            y@ == encode_utf8(b@),
            forall|j: int| 0 <= j < i ==> x@[j] == y@[j],
        decreases x.len() - i,
    {
        if x[i] != y[i] {
            return false;
        }
        i = i + 1;
    }
    proof {
        assert(x@ =~= y@);
        assert(decode_utf8(encode_utf8(a@)) == a@);
        assert(decode_utf8(encode_utf8(b@)) == b@);
    }
    true
}

/// The characters whose encoding is the bytes `start..end` of the encoding of `chars`.
pub open spec fn window(chars: Seq<char>, start: int, end: int) -> Seq<char> {
    decode_utf8(encode_utf8(chars).subrange(start, end))
}

/// True when `start..end` is a range of bytes of `chars` that begins and ends between
/// characters.
pub open spec fn is_window(chars: Seq<char>, start: int, end: int) -> bool {
    &&& 0 <= start <= end <= utf8_len(chars)
    &&& on_boundary(chars, start)
    &&& on_boundary(chars, end)
}

/// A window is a run of whole characters: the characters between two prefixes.
pub proof fn lemma_window(chars: Seq<char>, start: int, end: int) -> (jk: (int, int))
    requires
        is_window(chars, start, end),
    ensures
        0 <= jk.0 <= jk.1 <= chars.len(),
        utf8_len(chars.take(jk.0)) == start,
        utf8_len(chars.take(jk.1)) == end,
        window(chars, start, end) == chars.subrange(jk.0, jk.1),
        encode_utf8(window(chars, start, end)) == encode_utf8(chars).subrange(start, end),
        utf8_len(window(chars, start, end)) == end - start,
{
    broadcast use encode_utf8_decode_utf8;

    let j = lemma_boundary_is_prefix(chars, start);
    let k = lemma_boundary_is_prefix(chars, end);
    if j > k {
        lemma_utf8_len_take(chars.take(j), k);
        assert(chars.take(j).take(k) =~= chars.take(k));
    }
    let mid = chars.subrange(j, k);
    assert(chars.take(k) =~= chars.take(j) + mid);
    lemma_encode_concat(chars.take(j), mid);
    assert(chars =~= chars.take(k) + chars.skip(k));
    lemma_encode_concat(chars.take(k), chars.skip(k));
    assert(encode_utf8(mid) =~= encode_utf8(chars).subrange(start, end));
    assert(decode_utf8(encode_utf8(mid)) == mid);
    (j, k)
}

/// A boundary of a window is a boundary of the text around it.
pub proof fn lemma_window_boundary(chars: Seq<char>, start: int, end: int, at: int)
    requires
        is_window(chars, start, end),
        on_boundary(window(chars, start, end), at),
    ensures
        0 <= at <= end - start,
        on_boundary(chars, start + at),
{
    let (j, k) = lemma_window(chars, start, end);
    let w = chars.subrange(j, k);
    let i = lemma_boundary_is_prefix(w, at);
    lemma_utf8_len_take(w, i);
    assert(chars.take(j + i) =~= chars.take(j) + w.take(i));
    lemma_encode_concat(chars.take(j), w.take(i));
    lemma_prefix_on_boundary(chars, j + i);
}

/// Two adjacent windows make up the window over both.
pub proof fn lemma_window_join(chars: Seq<char>, start: int, mid: int, end: int)
    requires
        is_window(chars, start, mid),
        is_window(chars, mid, end),
    ensures
        window(chars, start, mid) + window(chars, mid, end) == window(chars, start, end),
{
    let (j, k) = lemma_window(chars, start, mid);
    let (k2, l) = lemma_window(chars, mid, end);
    lemma_prefix_unique(chars, k, k2);
    let (j2, l2) = lemma_window(chars, start, end);
    lemma_prefix_unique(chars, j, j2);
    lemma_prefix_unique(chars, l, l2);
    assert(chars.subrange(j, k) + chars.subrange(k, l) =~= chars.subrange(j, l));
}

/// A window inside a window is a window of the text around both.
pub proof fn lemma_window_nested(chars: Seq<char>, start: int, end: int, a: int, b: int)
    requires
        is_window(chars, start, end),
        is_window(window(chars, start, end), a, b),
    ensures
        is_window(chars, start + a, start + b),
        window(chars, start + a, start + b) == window(window(chars, start, end), a, b),
{
    let (j, k) = lemma_window(chars, start, end);
    let w = chars.subrange(j, k);
    lemma_window_boundary(chars, start, end, a);
    lemma_window_boundary(chars, start, end, b);
    let (x, y) = lemma_window(w, a, b);
    let (x2, y2) = lemma_window(chars, start + a, start + b);
    assert(chars.take(j + x) =~= chars.take(j) + w.take(x));
    lemma_encode_concat(chars.take(j), w.take(x));
    assert(chars.take(j + y) =~= chars.take(j) + w.take(y));
    lemma_encode_concat(chars.take(j), w.take(y));
    lemma_prefix_unique(chars, j + x, x2);
    lemma_prefix_unique(chars, j + y, y2);
    assert(w.subrange(x, y) =~= chars.subrange(j + x, j + y));
}

/// Where no character before index `n` satisfies `p` and the one at `n`, if there is one,
/// does, `n` is the first index.
pub proof fn lemma_first_index_is(chars: Seq<char>, p: spec_fn(char) -> bool, n: int)
    requires
        0 <= n <= chars.len(),
        forall|i: int| 0 <= i < n ==> !p(#[trigger] chars[i]),
        n < chars.len() ==> p(chars[n]),
    ensures
        first_index(chars, p) == n,
{
    lemma_run_len_is(chars, |c: char| !p(c), n);
}

/// No character before the first index satisfies `p`, and the one at it, if there is one,
/// does.
pub proof fn lemma_first_index_bounds(chars: Seq<char>, p: spec_fn(char) -> bool)
    ensures
        first_index(chars, p) <= chars.len(),
        forall|i: int| 0 <= i < first_index(chars, p) ==> !p(#[trigger] chars[i]),
        first_index(chars, p) < chars.len() ==> p(chars[first_index(chars, p) as int]),
{
    lemma_run_len_bounds(chars, |c: char| !p(c));
}

/// A prefix and a prefix of what follows it make up a longer prefix.
pub proof fn lemma_take_add(chars: Seq<char>, a: int, b: int)
    requires
        0 <= a,
        0 <= b,
        a + b <= chars.len(),
    ensures
        chars.take(a + b) == chars.take(a) + chars.skip(a).take(b),
        chars.skip(a + b) == chars.skip(a).skip(b),
        utf8_len(chars.take(a + b)) == utf8_len(chars.take(a)) + utf8_len(chars.skip(a).take(b)),
        utf8_len(chars.take(a + b)) <= utf8_len(chars),
{
    assert(chars.take(a + b) =~= chars.take(a) + chars.skip(a).take(b));
    assert(chars.skip(a + b) =~= chars.skip(a).skip(b));
    lemma_encode_concat(chars.take(a), chars.skip(a).take(b));
    lemma_utf8_len_take(chars, a + b);
}

/// The number of bytes that `c` takes in UTF-8.
pub fn char_width(c: char) -> (n: usize)
    ensures
        n == char_len(c),
        1 <= n <= 4,
{
    let v = c as u32;
    if v < 0x80 {
        1
    } else if v < 0x800 {
        2
    } else if v < 0x10000 {
        3
    } else {
        4
    }
}

/// The character of `s` that starts at byte offset `at`, the end of the `k`-character prefix.
pub(crate) fn char_at(s: &str, at: usize, Ghost(k): Ghost<int>) -> (c: char)
    requires
        0 <= k < s@.len(),
        at == utf8_len(s@.take(k)),
    ensures
        c == s@[k],
{
    proof {
        lemma_prefix_on_boundary(s@, k);
        lemma_utf8_len_take(s@, k);
    }
    let (front, back) = s.split_at(at);
    proof {
        lemma_cut_bytes(s@, front@, back@, at as int);
        lemma_encode_concat(front@, back@);
        assert(s@.take(front@.len() as int) =~= front@);
        lemma_prefix_unique(s@, k, front@.len() as int);
        assert(back@ =~= s@.skip(k));
    }
    back.get_char(0)
}

} // verus!
