use vstd::prelude::*;
use rand::Rng;

verus! {

/// Relies on rand's `thread_rng().gen_range(lo..hi)`: a value drawn from the
/// half-open range, which must not be empty.
#[verifier::external_body]
pub(crate) fn draw_in_range(lo: i64, hi: i64) -> (r: i64)
    requires
        lo < hi,
    ensures
        lo <= r < hi,
{
    rand::thread_rng().gen_range(lo..hi)
}

} // verus!
