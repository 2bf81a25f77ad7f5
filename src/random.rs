//! The pseudo-random source used to pick a route and a colour.
use vstd::prelude::*;

verus! {

/// Relies on `macroquad::rand::gen_range` (quad-rand's global generator):
/// for `low < high` it scales a 32-bit draw `k` into `low..high` as
/// `low + (high - low) * (k / 2^32)` in `f64`. For `high` up to `u32::MAX`
/// the exact product is at most `high - high / 2^32`, more than half an ulp
/// below `high`, so after rounding and truncation the result is below `high`.
#[verifier::external_body]
pub(crate) fn gen_index(high: usize) -> (r: usize)
    requires
        0 < high <= 0xFFFF_FFFF,
    ensures
        r < high,
{
    macroquad::rand::gen_range(0, high)
}

} // verus!
