//! Operations on text that the standard library performs and the verifier
//! takes on trust.

use vstd::prelude::*;

verus! {

/// Equality of string slices, as `str`'s own `==` decides it: two slices are
/// equal exactly when they hold the same characters in the same order.
#[verifier::external_body]
pub(crate) fn same_text(a: &str, b: &str) -> (r: bool)
    ensures
        r == (a@ == b@),
{
    a == b
}

/// The lower-case form of a text, as `str::to_lowercase` gives it.
pub uninterp spec fn lowercase(s: Seq<char>) -> Seq<char>;

/// `str::to_lowercase`: the text with each character replaced by its
/// lower-case form under the Unicode rules that the standard library
/// carries. The result depends on the text alone; it is named, not spelled
/// out.
#[verifier::external_body]
pub(crate) fn to_lowercase(s: &str) -> (r: String)
    ensures
        r@ == lowercase(s@),
{
    s.to_lowercase()
}

} // verus!
