//! Every way to cut a view in two.
use crate::input::{cut_after, is_split, Input};
use crate::text::{char_at, char_width, lemma_utf8_len_push, lemma_utf8_len_take, utf8_len};
use vstd::prelude::*;

verus! {

/// The cuts of a view before each of its characters, handed out in order.
pub struct Splits<'a, I: Input> {
    content: &'a I,
    at: usize,
    index: Ghost<int>,
}

/// The cuts of `s` before each of its characters, from the first one on.
pub fn splits<I: Input>(s: &I) -> (r: Splits<'_, I>)
    ensures
        r.content() == *s,
        r.index() == 0,
{
    proof {
        assert(s.text().take(0) =~= Seq::<char>::empty());
        crate::text::lemma_utf8_len_zero(s.text().take(0));
    }
    Splits { content: s, at: 0, index: Ghost(0) }
}

impl<'a, I: Input> Splits<'a, I> {
    #[verifier::type_invariant]
    spec fn well_formed(self) -> bool {
        &&& 0 <= self.index@ <= self.content.text().len()
        &&& self.at == utf8_len(self.content.text().take(self.index@))
    }

    /// The view that is cut.
    pub closed spec fn content(&self) -> I {
        *self.content
    }

    /// The number of characters before the next cut.
    pub closed spec fn index(&self) -> int {
        self.index@
    }

    /// The next cut: the view before the next character and the view from it on. Nothing
    /// when every character had its cut.
    pub fn next(&mut self) -> (r: Option<(I, I)>)
        ensures
            final(self).content() == old(self).content(),
            match r {
                Some((a, b)) => {
                    &&& old(self).index() < old(self).content().text().len()
                    &&& final(self).index() == old(self).index() + 1
                    &&& is_split(old(self).content(), a, b)
                    &&& a.text().len() == old(self).index()
                },
                None => {
                    &&& old(self).index() == old(self).content().text().len()
                    &&& final(self).index() == old(self).index()
                },
            },
    {
        proof {
            use_type_invariant(&*self);
        }
        let s = self.content.as_str();
        let n = self.content.len();
        let ghost k = self.index@;
        proof {
            if k == s@.len() {
                assert(s@.take(k) =~= s@);
            } else {
                lemma_utf8_len_take(s@, k);
            }
        }
        if self.at < n {
            let c = char_at(s, self.at, Ghost(k));
            let r = cut_after(self.content, self.at, Ghost(k));
            proof {
                assert(s@.take(k + 1) =~= s@.take(k).push(c));
                lemma_utf8_len_push(s@.take(k), c);
                lemma_utf8_len_take(s@, k + 1);
            }
            let at = self.at + char_width(c);
            *self = Splits { content: self.content, at, index: Ghost(k + 1) };
            Some(r)
        } else {
            None
        }
    }
}

} // verus!
