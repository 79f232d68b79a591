//! The calls outside the library that the game makes: random draws,
//! fresh identifiers and readings of the clock.
use vstd::prelude::*;
use rand::Rng;

verus! {

/// A fresh identifier for a ship, from `uuid::Uuid::new_v4` read as a
/// `u128` with `Uuid::as_u128`. The bits are random; the contract states
/// only the bits that `new_v4` always sets: the version nibble 4 (a random
/// UUID) and the two variant bits `10` (RFC 4122).
#[verifier::external_body]
pub(crate) fn fresh_ship_id() -> (id: u128)
    ensures
        (id >> 76u128) & 0xfu128 == 4,
        (id >> 62u128) & 0x3u128 == 2,
{
    uuid::Uuid::new_v4().as_u128()
}

/// A number drawn from `0..bound` by `rand::Rng::gen_range` on the thread's
/// generator (`rand::thread_rng`); `gen_range` panics on an empty range, so
/// `bound` is positive. Which number comes out is left open.
#[verifier::external_body]
pub(crate) fn random_below(bound: u32) -> (r: u32)
    requires
        bound > 0,
    ensures
        r < bound,
{
    rand::thread_rng().gen_range(0..bound)
}

/// The clock readings the settings keep, as `std::time::Instant` values.
#[verifier::external_type_specification]
#[verifier::external_body]
pub struct ExInstant(std::time::Instant);

/// The current time, from `std::time::Instant::now`; nothing is stated of
/// it.
#[verifier::external_body]
pub(crate) fn instant_now() -> (now: std::time::Instant) {
    std::time::Instant::now()
}

/// The whole milliseconds elapsed since `since`, from
/// `std::time::Instant::elapsed` read with `Duration::as_millis`; it
/// depends on the clock, so nothing is stated of it.
#[verifier::external_body]
pub(crate) fn millis_since(since: &std::time::Instant) -> (ms: u128) {
    since.elapsed().as_millis()
}

} // verus!
