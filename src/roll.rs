use rand::Rng;
use vstd::prelude::*;

verus! {

/// A uniform draw from `0..bound`.
///
/// Relies on `rand::thread_rng` and `Rng::gen_range`: on a half-open range it
/// returns a value inside the range, and it panics only on an empty range,
/// which `requires` leaves out.
#[verifier::external_body]
pub(crate) fn roll_below(bound: u32) -> (r: u32)
    requires
        bound > 0,
    ensures
        r < bound,
{
    rand::thread_rng().gen_range(0..bound)
}

} // verus!
