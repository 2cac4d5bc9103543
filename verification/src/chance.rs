//! Numbers drawn at random.

use rand::Rng;
use vstd::prelude::*;

verus! {

/// Calls `rand::thread_rng().gen_range` on an inclusive range: the number drawn lies
/// in the range. Which one it is is left open.
#[verifier::external_body]
fn draw_in_range(low: u64, high: u64) -> (r: u64)
    requires
        low <= high,
    ensures
        low <= r <= high,
{
    rand::thread_rng().gen_range(low..=high)
}

/// A number from `low` to `high`, drawn at random.
pub fn draw(low: u64, high: u64) -> (r: u64)
    requires
        low <= high,
    ensures
        low <= r <= high,
{
    draw_in_range(low, high)
}

} // verus!
