use rand::Rng;
use vstd::prelude::*;

verus! {

/// Relies on rand's `thread_rng` and `Rng::gen_range`: a value drawn
/// uniformly from the half-open range `lo..hi`, which panics only when the
/// range is empty.
#[verifier::external_body]
pub(crate) fn random_u8_in(lo: u8, hi: u8) -> (r: u8)
    requires
        lo < hi,
    ensures
        lo <= r < hi,
{
    rand::thread_rng().gen_range(lo..hi)
}

/// Relies on rand's `thread_rng` and `Rng::gen_range`: a value drawn
/// uniformly from the half-open range `lo..hi`, which panics only when the
/// range is empty.
#[verifier::external_body]
pub(crate) fn random_i8_in(lo: i8, hi: i8) -> (r: i8)
    requires
        lo < hi,
    ensures
        lo <= r < hi,
{
    rand::thread_rng().gen_range(lo..hi)
}

} // verus!
