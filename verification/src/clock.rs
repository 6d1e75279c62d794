//! The wall clock and fresh identifiers.
//!
//! Both depend on the moment and on a per-process random seed, so nothing is
//! promised of what they return beyond its shape.

use std::collections::hash_map::RandomState;
use std::hash::BuildHasher;
use std::time::{Duration, SystemTime, SystemTimeError, UNIX_EPOCH};
use vstd::prelude::*;

use crate::text::{lower_hex, to_lower_hex};

verus! {

/// `std::time::SystemTime`, carried through opaquely.
#[verifier::external_type_specification]
#[verifier::external_body]
pub struct ExSystemTime(SystemTime);

/// `std::time::SystemTimeError`, carried through opaquely.
#[verifier::external_type_specification]
#[verifier::external_body]
pub struct ExSystemTimeError(SystemTimeError);

/// Calls `SystemTime::now`. The moment it reads is not stated.
#[verifier::external_body]
fn system_now() -> SystemTime {
    SystemTime::now()
}

/// Calls `SystemTime::duration_since` against the Unix epoch; it fails when
/// the moment lies before the epoch. Nothing is stated of the duration.
#[verifier::external_body]
fn since_unix_epoch(t: &SystemTime) -> Result<Duration, SystemTimeError> {
    t.duration_since(UNIX_EPOCH)
}

/// Calls `Duration::as_secs`. The duration is opaque here, so nothing is
/// stated of the seconds.
#[verifier::external_body]
fn whole_seconds(d: &Duration) -> u64 {
    d.as_secs()
}

/// Calls `RandomState::new`, which seeds a hasher at random.
#[verifier::external_body]
fn random_state() -> RandomState {
    RandomState::new()
}

/// Calls `BuildHasher::hash_one` on a randomly seeded state. The digest
/// depends on the seed, so nothing is stated of it.
#[verifier::external_body]
fn seeded_hash(state: &RandomState, x: u64) -> u64 {
    state.hash_one(x)
}

/// Whole seconds since the Unix epoch by the system clock; a clock set before
/// the epoch reads as 0.
pub fn current_timestamp() -> u64 {
    let now = system_now();
    match since_unix_epoch(&now) {
        Ok(d) => whole_seconds(&d),
        Err(_) => 0,
    }
}

/// A fresh identifier: the current timestamp hashed with a random seed,
/// written in lower-case hexadecimal.
pub fn generate_id() -> (id: String)
    ensures
        exists|h: u64| id@ == lower_hex(h as nat),
{
    let state = random_state();
    let h = seeded_hash(&state, current_timestamp());
    to_lower_hex(h)
}

} // verus!
