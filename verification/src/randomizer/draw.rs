//! Random draws.

use rand::seq::SliceRandom;
use vstd::prelude::*;

verus! {

/// One item of a list, drawn by `rand`'s `SliceRandom::choose` with the
/// thread's generator. The call returns nothing exactly when the list is
/// empty, and otherwise one of the list's items; which one is left to chance,
/// and nothing more is claimed of it.
#[verifier::external_body]
pub(crate) fn draw_one<T: Copy>(items: &Vec<T>) -> (r: Option<T>)
    ensures
        items@.len() == 0 ==> r is None,
        items@.len() > 0 ==> r is Some && items@.contains(r.unwrap()),
{
    items.choose(&mut rand::thread_rng()).copied()
}

} // verus!
