//! Expiration deadlines: their supported ceilings and their conversion to row TTLs.
use vstd::prelude::*;
use crate::error::{StorageError, ErrorModel, fails_with};

verus! {

/// Latest deadline that a row may carry: the last millisecond of year 9999.
pub const MAX_ROW_EXPIRATION_TIMESTAMP_MS: u64 = 253_402_300_799_999;

/// Headroom for the second clock read that turns a relative TTL into a row deadline.
pub const SLATEDB_CLOCK_HEADROOM_MS: u64 = 86_400_000;

/// Latest supported logical deadline, one day before year 10000.
pub const MAX_EXPIRATION_TIMESTAMP_MS: u64 = MAX_ROW_EXPIRATION_TIMESTAMP_MS
    - SLATEDB_CLOCK_HEADROOM_MS;

/// Time to live of a written row.
#[derive(Debug, Clone, Copy, PartialEq, Eq, Structural)]
pub enum Ttl {
    NoExpiry,
    ExpireAfter(u64),
}

/// The current time in milliseconds since the Unix epoch, negative before it:
/// `std::time::SystemTime::now` through chrono's `From<SystemTime> for
/// DateTime<Utc>` and `timestamp_millis`, which accept a clock set before the
/// epoch. Nothing is stated of the result: it is the clock's reading.
#[verifier::external_body]
pub fn now_millis() -> i64 {
    chrono::DateTime::<chrono::Utc>::from(std::time::SystemTime::now()).timestamp_millis()
}

/// The current time in microseconds since the Unix epoch, negative before it:
/// `std::time::SystemTime::now` through chrono's `From<SystemTime> for
/// DateTime<Utc>` and `timestamp_micros`, which accept a clock set before the
/// epoch. Nothing is stated of the result: it is the clock's reading.
#[verifier::external_body]
pub fn now_micros() -> i64 {
    chrono::DateTime::<chrono::Utc>::from(std::time::SystemTime::now()).timestamp_micros()
}

/// Fails with `InvalidExpiration` when `timestamp` is past the supported logical deadline.
pub fn validate_expiration(timestamp: u64) -> (r: Result<(), StorageError>)
    ensures
        r is Ok <==> timestamp <= MAX_EXPIRATION_TIMESTAMP_MS,
        r is Err ==> fails_with(r, ErrorModel::Expiration(timestamp, MAX_EXPIRATION_TIMESTAMP_MS)),
{
    if timestamp > MAX_EXPIRATION_TIMESTAMP_MS {
        return Err(
            StorageError::InvalidExpiration { timestamp, max: MAX_EXPIRATION_TIMESTAMP_MS },
        );
    }
    Ok(())
}

/// Checks the deadline stored with a row: it may be absent, and otherwise must be
/// non-negative and no later than the row ceiling.
pub fn validate_row_expiration(timestamp: Option<i64>) -> (r: Result<(), StorageError>)
    ensures
        r is Ok <==> match timestamp {
            None => true,
            Some(t) => 0 <= t <= MAX_ROW_EXPIRATION_TIMESTAMP_MS,
        },
        timestamp is Some && timestamp.unwrap() < 0 ==> fails_with(r, ErrorModel::Inconsistent),
        timestamp is Some && timestamp.unwrap() > MAX_ROW_EXPIRATION_TIMESTAMP_MS ==> fails_with(
            r,
            ErrorModel::Expiration(timestamp.unwrap() as u64, MAX_ROW_EXPIRATION_TIMESTAMP_MS),
        ),
{
    match timestamp {
        None => Ok(()),
        Some(t) => {
            if t < 0 {
                return Err(
                    StorageError::inconsistency(
                        "SlateDB row contains a negative expiration timestamp",
                    ),
                );
            }
            let t = t as u64;
            if t > MAX_ROW_EXPIRATION_TIMESTAMP_MS {
                return Err(
                    StorageError::InvalidExpiration {
                        timestamp: t,
                        max: MAX_ROW_EXPIRATION_TIMESTAMP_MS,
                    },
                );
            }
            Ok(())
        },
    }
}

/// The row TTL that makes a row written at `now` expire at `timestamp`.
pub open spec fn ttl_at(timestamp: u64, now: i64) -> Ttl {
    if timestamp == 0 {
        Ttl::NoExpiry
    } else {
        let now_ms: int = if now < 0 {
            0
        } else {
            now as int
        };
        Ttl::ExpireAfter(
            if timestamp >= now_ms {
                (timestamp - now_ms) as u64
            } else {
                0
            },
        )
    }
}

/// The TTL for a deadline, as seen at the clock reading `now`: none for zero,
/// otherwise the time left until the deadline, or zero once it has passed.
pub fn ttl_for_expiration_at(timestamp: u64, now: i64) -> (r: Result<Ttl, StorageError>)
    ensures
        r is Ok <==> timestamp <= MAX_EXPIRATION_TIMESTAMP_MS || timestamp == 0,
        r matches Ok(t) ==> t == ttl_at(timestamp, now),
        r is Err ==> fails_with(r, ErrorModel::Expiration(timestamp, MAX_EXPIRATION_TIMESTAMP_MS)),
{
    if timestamp == 0 {
        return Ok(Ttl::NoExpiry);
    }
    validate_expiration(timestamp)?;
    let now_ms: u64 = if now < 0 {
        0
    } else {
        now as u64
    };
    Ok(Ttl::ExpireAfter(timestamp.saturating_sub(now_ms)))
}

/// The TTL for a deadline at the current time: none for zero, otherwise at most
/// the deadline itself, and zero once the deadline has passed.
pub fn ttl_for_expiration(timestamp: u64) -> (r: Result<Ttl, StorageError>)
    ensures
        r is Ok <==> timestamp <= MAX_EXPIRATION_TIMESTAMP_MS || timestamp == 0,
        timestamp == 0 ==> r == Ok::<Ttl, StorageError>(Ttl::NoExpiry),
        r matches Ok(t) ==> exists|now: i64| t == ttl_at(timestamp, now),
        r matches Ok(Ttl::ExpireAfter(d)) ==> d <= timestamp,
        r is Err ==> fails_with(r, ErrorModel::Expiration(timestamp, MAX_EXPIRATION_TIMESTAMP_MS)),
{
    let now = now_millis();
    ttl_for_expiration_at(timestamp, now)
}

/// A deadline has passed at `now` when it is present and not after `now`.
pub open spec fn expired_at(timestamp: Option<i64>, now: i64) -> bool {
    timestamp matches Some(t) && t <= now
}

pub fn is_expired_at(timestamp: Option<i64>, now: i64) -> (r: bool)
    ensures
        r == expired_at(timestamp, now),
{
    match timestamp {
        Some(t) => t <= now,
        None => false,
    }
}

/// Whether a deadline has passed at the current time; never for an absent one.
pub fn is_expired(timestamp: Option<i64>) -> (r: bool)
    ensures
        timestamp is None ==> !r,
        exists|now: i64| r == expired_at(timestamp, now),
{
    let now = now_millis();
    let r = is_expired_at(timestamp, now);
    assert(r == expired_at(timestamp, now));
    r
}

/// The TTL written with collection metadata whose deadline is `expire_time`, at
/// clock reading `now`: none for zero, otherwise the time left, zero once passed.
pub fn meta_put_ttl_at(expire_time: u64, now: i64) -> (r: Ttl)
    ensures
        r == ttl_at(expire_time, now),
{
    if expire_time == 0 {
        return Ttl::NoExpiry;
    }
    let now_ms: u64 = if now < 0 {
        0
    } else {
        now as u64
    };
    Ttl::ExpireAfter(expire_time.saturating_sub(now_ms))
}

/// The TTL written with collection metadata whose deadline is `expire_time`, now.
pub fn meta_put_ttl(expire_time: u64) -> (r: Ttl)
    ensures
        exists|now: i64| r == ttl_at(expire_time, now),
        expire_time == 0 <==> r == Ttl::NoExpiry,
        r matches Ttl::ExpireAfter(d) ==> d <= expire_time,
{
    let now = now_millis();
    meta_put_ttl_at(expire_time, now)
}

} // verus!
