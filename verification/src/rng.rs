//! The one source of chance: the thread-local generator of `fastrand`.

use vstd::prelude::*;

verus! {

/// Draws an integer from `fastrand::i32` over the half-open range
/// `low..end`. Nothing here is proved: the contract records that the
/// generator answers inside the range it is given, whatever it draws, and
/// leaves out the empty range, on which it panics.
#[verifier::external_body]
pub(crate) fn random_in_range(low: i32, end: i32) -> (r: i32)
    requires
        low < end,
    ensures
        low <= r < end,
{
    fastrand::i32(low..end)
}

} // verus!
