//! The one place the engine draws randomness: picking one element of a list
//! of candidate moves.

use vstd::prelude::*;
use rand::seq::SliceRandom;

verus! {

/// Relies on rand's `SliceRandom::choose` (fed from `rand::thread_rng`): on
/// a non-empty slice it returns `Some` of one of the slice's elements, on an
/// empty slice `None`.  Which element comes back is left open.
#[verifier::external_body]
pub(crate) fn random_element(values: &Vec<u16>) -> (r: Option<u16>)
    ensures
        r is None <==> values@.len() == 0,
        r is Some ==> exists|k: int| 0 <= k < values@.len() && values@[k] == r->Some_0,
{
    values.choose(&mut rand::thread_rng()).copied()
}

} // verus!
