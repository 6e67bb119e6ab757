//! Text that replaces the text of a view.
use crate::input::Input;
use vstd::prelude::*;
use vstd::string::StringExecFns;

verus! {

/// A view whose text can be replaced by new text: the result is a view that owns the new text
/// and has the origin of the old one.
pub trait TransformContent: Input {
    /// The type of the view over the new text.
    type Transformed: Input;

    /// A view over `content` in place of this view's text.
    fn to_content(&self, content: String) -> (r: Self::Transformed)
        ensures
            r.text() == content@,
            r.origin() == self.origin(),
    ;

    /// A view over this view's text followed by `content`.
    fn append_content(&self, content: &str) -> (r: Self::Transformed)
        ensures
            r.text() == self.text() + content@,
            r.origin() == self.origin(),
    ;

    /// A view over this view's text in upper case.
    fn to_uppercase(&self) -> (r: Self::Transformed)
        ensures
            r.text() == uppercase_of(self.text()),
            r.origin() == self.origin(),
    {
        self.to_content(str_to_uppercase(self.as_str()))
    }

    /// A view over this view's text in lower case.
    fn to_lowercase(&self) -> (r: Self::Transformed)
        ensures
            r.text() == lowercase_of(self.text()),
            r.origin() == self.origin(),
    {
        self.to_content(str_to_lowercase(self.as_str()))
    }
}

/// The text `s` with its letters in upper case, as `str::to_uppercase` gives it.
pub uninterp spec fn uppercase_of(s: Seq<char>) -> Seq<char>;

/// The text `s` with its letters in lower case, as `str::to_lowercase` gives it.
pub uninterp spec fn lowercase_of(s: Seq<char>) -> Seq<char>;

/// Calls `str::to_uppercase`, which maps each character to its upper case by the rules of
/// Unicode. The result depends on the text alone; the contract gives it the name
/// [`uppercase_of`] and says nothing of what it holds.
#[verifier::external_body]
fn str_to_uppercase(s: &str) -> (r: String)
    ensures
        r@ == uppercase_of(s@),
{
    s.to_uppercase()
}

/// Calls `str::to_lowercase`, which maps each character to its lower case by the rules of
/// Unicode. The result depends on the text alone; the contract gives it the name
/// [`lowercase_of`] and says nothing of what it holds.
#[verifier::external_body]
fn str_to_lowercase(s: &str) -> (r: String)
    ensures
        r@ == lowercase_of(s@),
{
    s.to_lowercase()
}

/// The text of `a` followed by the text of `b`, in a new string.
pub fn joined(a: &str, b: &str) -> (r: String)
    ensures
        r@ == a@ + b@,
{
    let mut output = String::from_str(a);
    output.append(b);
    output
}

impl<'a> TransformContent for &'a str {
    type Transformed = String;

    fn to_content(&self, content: String) -> (r: String) {
        assert(content.text() == content@);
        assert(content.origin() == self.origin());
        content
    }

    fn append_content(&self, content: &str) -> (r: String) {
        joined(self, content)
    }
}

impl TransformContent for String {
    type Transformed = String;

    fn to_content(&self, content: String) -> (r: String) {
        assert(content.text() == content@);
        assert(content.origin() == self.origin());
        content
    }

    fn append_content(&self, content: &str) -> (r: String) {
        joined(self.as_str(), content)
    }
}

} // verus!
