use rand::Rng;
use vstd::prelude::*;

verus! {

/// Relies on rand's `Rng::gen_range` on the thread-local generator: it
/// returns a value in [`low`, `high`) and panics when `low >= high`.
#[verifier::external_body]
pub(crate) fn random_range(low: i32, high: i32) -> (r: i32)
    requires
        low < high,
    ensures
        low <= r < high,
{
    rand::thread_rng().gen_range(low, high)
}

/// Relies on rand's `random::<bool>()`: a coin flip; nothing is promised of
/// its outcome.
#[verifier::external_body]
pub(crate) fn coin_flip() -> bool {
    rand::random::<bool>()
}

} // verus!
