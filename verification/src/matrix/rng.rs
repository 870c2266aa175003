//! The random draws of the simulation, all made by `fastrand`.
//!
//! The simulation keeps the state of its generator as a plain `u64`: a
//! `fastrand::Rng` is exactly that word (`Rng::with_seed` stores the seed as
//! the state, `Rng::get_seed` reads the state back), so a draw rebuilds the
//! generator from the word, draws, and hands the new word back.

use vstd::prelude::*;

verus! {

/// What `fastrand::Rng::u64` returns for the inclusive range `low..=high`
/// when it is called on a generator whose state is `state`, paired with the
/// generator's state after the call. The generator is a deterministic
/// function of its state, on every machine.
pub uninterp spec fn wyrand_u64_inclusive(state: u64, low: u64, high: u64) -> (u64, u64);

/// Calls `fastrand::Rng::u64(low..=high)` on the generator whose state is
/// `state`. Trusted: the value lies in the range (the crate documents "a
/// random `u64` in the given range" and panics only on an empty range, which
/// `requires` excludes), and value and next state are those that
/// `wyrand_u64_inclusive` names.
#[verifier::external_body]
pub(crate) fn rng_u64_inclusive(state: u64, low: u64, high: u64) -> (out: (u64, u64))
    requires
        low <= high,
    ensures
        out == wyrand_u64_inclusive(state, low, high),
        low <= out.0 <= high,
{
    let mut rng = fastrand::Rng::with_seed(state);
    let value = rng.u64(low..=high);
    (value, rng.get_seed())
}

/// What `fastrand::Rng::usize` returns for the range `0..len` when it is
/// called on a generator whose state is `state`, paired with the generator's
/// state after the call. The generator is a deterministic function of its
/// state; the draw depends on the width of `usize`, which is fixed for a
/// given target.
pub uninterp spec fn wyrand_usize_below(state: u64, len: usize) -> (usize, u64);

/// Calls `fastrand::Rng::usize(0..len)` on the generator whose state is
/// `state`. Trusted: the value is below `len` (the crate documents "a random
/// `usize` in the given range" and panics only on an empty range, which
/// `requires` excludes), and value and next state are those that
/// `wyrand_usize_below` names.
#[verifier::external_body]
pub(crate) fn rng_usize_below(state: u64, len: usize) -> (out: (usize, u64))
    requires
        len > 0,
    ensures
        out == wyrand_usize_below(state, len),
        out.0 < len,
{
    let mut rng = fastrand::Rng::with_seed(state);
    let value = rng.usize(0..len);
    (value, rng.get_seed())
}

/// Calls `fastrand::u64(..)`, which draws from the thread-local generator
/// seeded from the system's entropy. Nothing is stated of the value.
#[verifier::external_body]
pub(crate) fn entropy_seed() -> (seed: u64) {
    fastrand::u64(..)
}

/// Calls `fastrand::usize(0..len)` on the thread-local generator. Trusted:
/// the value is below `len` (the crate documents a value in the given range
/// and panics only on an empty range, which `requires` excludes).
#[verifier::external_body]
pub(crate) fn thread_usize_below(len: usize) -> (i: usize)
    requires
        len > 0,
    ensures
        i < len,
{
    fastrand::usize(0..len)
}

/// Calls `fastrand::u128(0..=high)` on the thread-local generator. Trusted:
/// the value is at most `high` (the crate documents a value in the given
/// range; the range is never empty).
#[verifier::external_body]
pub(crate) fn thread_u128_up_to(high: u128) -> (r: u128)
    ensures
        r <= high,
{
    fastrand::u128(0..=high)
}

/// Calls `fastrand::u32(low..=high)` on the thread-local generator.
/// Trusted: the value lies in the range (the crate documents a value in the
/// given range and panics only on an empty range, which `requires`
/// excludes).
#[verifier::external_body]
pub(crate) fn thread_u32_in(low: u32, high: u32) -> (r: u32)
    requires
        low <= high,
    ensures
        low <= r <= high,
{
    fastrand::u32(low..=high)
}

/// Calls `fastrand::i32(low..=high)` on the thread-local generator.
/// Trusted: the value lies in the range (the crate documents a value in the
/// given range and panics only on an empty range, which `requires`
/// excludes).
#[verifier::external_body]
pub(crate) fn thread_i32_in(low: i32, high: i32) -> (r: i32)
    requires
        low <= high,
    ensures
        low <= r <= high,
{
    fastrand::i32(low..=high)
}

/// Calls `fastrand::u8(low..=high)` on the thread-local generator.
/// Trusted: the value lies in the range (the crate documents a value in the
/// given range and panics only on an empty range, which `requires`
/// excludes).
#[verifier::external_body]
pub(crate) fn thread_u8_in(low: u8, high: u8) -> (r: u8)
    requires
        low <= high,
    ensures
        low <= r <= high,
{
    fastrand::u8(low..=high)
}

} // verus!
