use vstd::prelude::*;
use rand::rngs::SmallRng;
use rand::Rng;

verus! {

/// The random source of the generators: `rand::rngs::SmallRng`, carried
/// through as an opaque value.
#[verifier::external_type_specification]
#[verifier::external_body]
pub struct ExSmallRng(SmallRng);

/// One draw of `rand::Rng::gen_range` on the half-open range `low..high`.
///
/// Trusted: the call panics on an empty range, which `requires` leaves out,
/// and for integers returns `low` plus an offset below `high - low`. Nothing
/// is claimed of which value in the range comes back.
#[verifier::external_body]
pub(crate) fn uniform(rng: &mut SmallRng, low: i32, high: i32) -> (r: i32)
    requires
        low < high,
    ensures
        low <= r < high,
{
    rng.gen_range(low..high)
}

} // verus!
