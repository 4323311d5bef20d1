use vstd::prelude::*;

verus! {

/// Relies on `rand::random_range` on the half-open range `0..n`: it returns a
/// value drawn uniformly from that range, so the result is below `n`. The
/// call panics on an empty range, which the precondition rules out.
#[verifier::external_body]
pub(crate) fn rand_below(n: u32) -> (r: u32)
    requires
        n > 0,
    ensures
        r < n,
{
    rand::random_range(0..n)
}

} // verus!
