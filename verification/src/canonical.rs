//! The canonical form of an expression: an S-expression string such as
//! `(+ 2 3)`, used as the cache key and for `--canonical` output.

use vstd::prelude::*;
use crate::text::owned;

verus! {

/// The canonical S-expression text of an expression.
#[derive(Debug, Clone)]
pub struct CanonicalForm {
    text: String,
}

impl View for CanonicalForm {
    type V = Seq<char>;

    /// The S-expression text.
    closed spec fn view(&self) -> Seq<char> {
        self.text@
    }
}

impl CanonicalForm {
    /// A canonical form holding the given text.
    pub fn new(text: &str) -> (r: CanonicalForm)
        ensures
            r@ == text@,
    {
        CanonicalForm { text: owned(text) }
    }

    /// The S-expression text.
    pub fn as_str(&self) -> (s: &str)
        ensures
            s@ == self@,
    {
        self.text.as_str()
    }
}

/// The text of a canonical form, unchanged (whitespace included).
pub fn format_canonical(cf: &CanonicalForm) -> (s: String)
    ensures
        s@ == cf@,
{
    owned(cf.as_str())
}

} // verus!
