use rand::Rng;
use vstd::prelude::*;

verus! {

/// Relies on `rand::Rng::gen_range` over an inclusive range of the thread-local
/// generator: it panics on an empty range, and otherwise the draw lies between
/// both ends.
#[verifier::external_body]
fn gen_i32_inclusive(low: i32, high: i32) -> (r: i32)
    requires
        low <= high,
    ensures
        low <= r <= high,
{
    rand::thread_rng().gen_range(low..=high)
}

/// A uniformly drawn integer between `x` and `y`, both included.
pub fn random_i32_ranged(x: i32, y: i32) -> (r: i32)
    requires
        x <= y,
    ensures
        x <= r <= y,
{
    gen_i32_inclusive(x, y)
}

} // verus!
