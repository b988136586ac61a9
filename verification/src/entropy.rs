use vstd::prelude::*;

use core::time::Duration;
use rand::rngs::StdRng;
use std::time::SystemTime;

verus! {

#[verifier::external_type_specification]
#[verifier::external_body]
pub struct ExStdRng(StdRng);

#[verifier::external_type_specification]
#[verifier::external_body]
pub struct ExSystemTime(SystemTime);

/// Calls `SeedableRng::from_rng` with `rand::rngs::OsRng`: a generator
/// seeded from the operating system's generator, or `None` when that cannot
/// give the seed. Which of the two comes back depends on the system and is
/// not stated; the generator itself is opaque here.
#[verifier::external_body]
pub(crate) fn seeded_rng() -> Option<StdRng> {
    rand::SeedableRng::from_rng(rand::rngs::OsRng).ok()
}

/// Calls `RngCore::fill_bytes` on a seeded generator: overwrites `dest` with
/// random bytes. Only that the length stays is stated; the bytes are chance.
#[verifier::external_body]
pub(crate) fn fill_random(rng: &mut StdRng, dest: &mut Vec<u8>)
    ensures
        final(dest)@.len() == old(dest)@.len(),
{
    rand::RngCore::fill_bytes(rng, dest.as_mut_slice())
}

/// Calls `Rng::sample` with `rand::distributions::Alphanumeric` on a
/// seeded generator: a random ASCII letter or digit, given as its byte.
/// Only that it is one of `A`-`Z`, `a`-`z`, `0`-`9` is stated.
#[verifier::external_body]
pub(crate) fn sample_alphanumeric(rng: &mut StdRng) -> (b: u8)
    ensures
        (0x30 <= b <= 0x39) || (0x41 <= b <= 0x5a) || (0x61 <= b <= 0x7a),
{
    rand::Rng::sample(rng, rand::distributions::Alphanumeric) as u8
}

/// Calls `SystemTime::now`: the time of the system clock. Nothing is stated
/// of it.
#[verifier::external_body]
pub(crate) fn system_now() -> SystemTime {
    SystemTime::now()
}

/// Calls `SystemTime::duration_since` with the Unix epoch: the time elapsed
/// since then, or `None` when `time` lies before it. Which of the two comes
/// back depends on the clock and is not stated.
#[verifier::external_body]
pub(crate) fn since_unix_epoch(time: &SystemTime) -> Option<Duration> {
    time.duration_since(SystemTime::UNIX_EPOCH).ok()
}

/// Calls `Duration::as_millis`: the whole milliseconds of `duration`. The
/// duration is opaque here, so nothing is stated of the number.
#[verifier::external_body]
pub(crate) fn duration_millis(duration: &Duration) -> u128 {
    duration.as_millis()
}

/// The whole nanoseconds of `duration`.
pub uninterp spec fn nanos_of(duration: Duration) -> u128;

/// Calls `Duration::as_nanos`: the whole nanoseconds of `duration`, which
/// the name `nanos_of` stands for; what that number is, is not stated.
#[verifier::external_body]
pub(crate) fn duration_nanos(duration: &Duration) -> (n: u128)
    ensures
        n == nanos_of(*duration),
{
    duration.as_nanos()
}

} // verus!
