//! Generation numbers of collections: the high 53 bits are microseconds since the
//! epoch, the low 11 bits a per-process counter.
use vstd::prelude::*;
use std::sync::atomic::AtomicU64;
use crate::expiration::now_micros;

verus! {

/// Generates increasing collection generations.
///
/// When the clock does not move forward the next generation is the previous one
/// plus one, which keeps the generations of this process unique and increasing.
pub struct VersionGenerator {
    last_version: AtomicU64,
    first_version: Ghost<u64>,
}

pub const COUNTER_BITS: u64 = 11;

pub const COUNTER_MASK: u64 = 0x7FF;

/// The generation that follows `last` when the clock reads `now` microseconds: the
/// clock in the high bits with the next counter value, unless that is not above
/// `last`, in which case `last + 1`.
pub open spec fn next_version_spec(last: u64, now: u64) -> u64 {
    let counter = (if last == u64::MAX { 0 } else { last + 1 }) as u64 & COUNTER_MASK;
    let candidate = (now << COUNTER_BITS) | counter;
    if candidate > last {
        candidate
    } else if last == u64::MAX {
        0
    } else {
        (last + 1) as u64
    }
}

/// The first generation of a generator started when the clock reads `now`.
pub open spec fn initial_version_spec(now: u64) -> u64 {
    (now << COUNTER_BITS) | (now & COUNTER_MASK)
}

/// The next generation after `last` at clock reading `now`.
pub fn next_version(last: u64, now: u64) -> (r: u64)
    ensures
        r == next_version_spec(last, now),
{
    let counter = last.wrapping_add(1) & COUNTER_MASK;
    let candidate = (now << COUNTER_BITS) | counter;
    if candidate > last {
        candidate
    } else {
        last.wrapping_add(1)
    }
}

/// Each generation is above the one before it, unless the one before is `u64::MAX`.
pub proof fn lemma_next_version_increases(last: u64, now: u64)
    requires
        last < u64::MAX,
    ensures
        next_version_spec(last, now) > last,
{
}

/// A generation taken while the clock reads at least one microsecond has a
/// non-zero timestamp part; the counter always sits in the low 11 bits.
pub proof fn lemma_next_version_layout(last: u64, now: u64)
    requires
        0 < now < 0x20_0000_0000_0000,
        last < (now << 11u64),
    ensures
        next_version_spec(last, now) >> 11u64 == now,
{
    let counter = (last + 1) as u64 & 0x7FFu64;
    assert(counter <= 0x7FF) by (bit_vector)
        requires
            counter == (last + 1) as u64 & 0x7FFu64,
    ;
    assert(((now << 11u64) | counter) >> 11u64 == now && ((now << 11u64) | counter) >= (now
        << 11u64)) by (bit_vector)
        requires
            0 < now < 0x20_0000_0000_0000,
            counter <= 0x7FF,
    ;
}

/// The microsecond timestamp of a clock reading: zero before the epoch.
pub open spec fn micros_of_reading(now: i64) -> u64 {
    if now < 0 {
        0
    } else {
        now as u64
    }
}

/// Microseconds since the epoch, or zero for a clock before the epoch.
fn timestamp_micros() -> (r: u64)
    ensures
        exists|now: i64| r == #[trigger] micros_of_reading(now),
        r <= i64::MAX,
{
    let now = now_micros();
    let r: u64 = if now < 0 {
        0
    } else {
        now as u64
    };
    assert(r == micros_of_reading(now));
    r
}

/// Atomically replaces the generation `last` stored in `atomic` by
/// `next_version(last, now)`, retrying while other threads change it, and returns
/// the `last` it replaced, through `AtomicU64::fetch_update`. Nothing is stated of
/// the result: it is whatever the other threads left there.
#[verifier::external_body]
fn advance_version(atomic: &AtomicU64, now: u64) -> u64 {
    match atomic.fetch_update(
        std::sync::atomic::Ordering::Release,
        std::sync::atomic::Ordering::Acquire,
        |last| Some(next_version(last, now)),
    ) {
        Ok(previous) | Err(previous) => previous,
    }
}

impl VersionGenerator {
    pub const COUNTER_BITS: u64 = 11;
    pub const COUNTER_MASK: u64 = 0x7FF;

    /// The generation this generator was started at.
    pub closed spec fn start_version(&self) -> u64 {
        self.first_version@
    }

    /// A generator whose first generation is the current clock in the high bits and
    /// the clock's low bits as the counter seed.
    pub fn new() -> (r: VersionGenerator)
        ensures
            exists|t: u64| t <= i64::MAX && r.start_version() == #[trigger] initial_version_spec(t),
    {
        let timestamp = timestamp_micros();
        let seed = timestamp & COUNTER_MASK;
        let first = (timestamp << COUNTER_BITS) | seed;
        assert(first == initial_version_spec(timestamp));
        VersionGenerator { last_version: AtomicU64::new(first), first_version: Ghost(first) }
    }

    /// A new generation, greater than the generation it replaces in this generator.
    pub fn next(&self) -> (r: u64)
        ensures
            exists|last: u64, now: u64| r == next_version_spec(last, now),
    {
        let now = timestamp_micros();
        let last = advance_version(&self.last_version, now);
        next_version(last, now)
    }
}

} // verus!
