use vstd::prelude::*;
use rand::Rng;

verus! {

/// Declares `rand::rngs::ThreadRng` to Verus as an opaque type.
#[verifier::external_type_specification]
#[verifier::external_body]
pub struct ExThreadRng(rand::rngs::ThreadRng);

/// Calls `rand::rng()`: a handle to the thread-local generator. Nothing is claimed of it.
#[verifier::external_body]
pub fn new_thread_rng() -> (r: rand::rngs::ThreadRng)
{
    rand::rng()
}

/// Calls `ThreadRng::clone`: another handle to the same thread-local generator. Nothing is
/// claimed of it.
#[verifier::external_body]
pub fn clone_thread_rng(rng: &rand::rngs::ThreadRng) -> (r: rand::rngs::ThreadRng)
{
    rng.clone()
}

/// Calls `Rng::random_range(low..high)` on the generator. Its documentation promises a
/// value of the given range, which must not be empty (else it panics), so `requires` asks
/// for `low < high` and the result lies in `low..high`; which value comes back rests on
/// chance and is not stated.
#[verifier::external_body]
pub fn random_in_range(rng: &mut rand::rngs::ThreadRng, low: u8, high: u8) -> (r: u8)
    requires
        low < high,
    ensures
        low <= r < high,
{
    rng.random_range(low..high)
}

} // verus!
