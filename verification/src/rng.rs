use vstd::prelude::*;

verus! {

/// Relies on rand::random_range over `0..n` (the thread-local generator):
/// it returns a uniformly sampled value of the non-empty range, so the
/// result is below `n`; it panics only on an empty range, which the
/// precondition rules out.
#[verifier::external_body]
pub(crate) fn random_below(n: usize) -> (r: usize)
    requires
        1 <= n,
    ensures
        r < n,
{
    rand::random_range(0..n)
}

} // verus!
