//! Keyspace decisions shared by every type: whether a stored row is live, and
//! what DEL, EXPIRE and TTL do with it.
use vstd::prelude::*;
use crate::data_type::DataType;
use crate::dedup::{views, first_occurrences};
use crate::error::{StorageError, ErrorModel, error_model};
use crate::expiration::{expired_at, now_millis, ttl_at, ttl_for_expiration_at, Ttl};
use crate::meta::{AnyValue, model_with_expire_time};
use crate::top_level_key::{TopLevelKey, key_prefix, MAX_USER_KEY_LEN};
use crate::top_level_row::{
    NormalizedTopLevelRow, RowOutcome, normalize_spec, normalize_top_level_row,
};

verus! {

/// A top-level row as read from a database.
pub struct StoredRow {
    pub value: Vec<u8>,
    pub seq: u64,
    pub expire_ts: Option<i64>,
}

/// What a read of a top-level key finds.
pub enum LoadedRow {
    /// No row.
    Missing,
    /// A row whose deadline has passed; it is deleted lazily.
    Expired,
    /// A live row.
    Live(NormalizedTopLevelRow),
}

/// What reading a key finds at clock reading `now`.
pub open spec fn loaded_matches(r: Result<LoadedRow, StorageError>, row: Option<StoredRow>, expected: DataType, now: i64) -> bool {
    match row {
        None => r matches Ok(LoadedRow::Missing),
        Some(stored) => match normalize_spec(stored.value@, stored.seq, stored.expire_ts, expected) {
            RowOutcome::Fail(m) => r matches Err(e) && error_model(e) == m,
            RowOutcome::Row(v, logical) => if expired_at(stored.expire_ts, now) || expired_at(logical, now) {
                r matches Ok(LoadedRow::Expired)
            } else {
                r matches Ok(LoadedRow::Live(n)) && n.value@ == v && n.logical_expire_ts == logical
                    && n.row_expire_ts == stored.expire_ts
            },
        },
    }
}

/// Classifies the row read for a key of `expected` type at clock reading `now`.
pub fn classify_row_at(row: Option<StoredRow>, expected: DataType, now: i64) -> (r: Result<LoadedRow, StorageError>)
    ensures
        loaded_matches(r, row, expected, now),
{
    match row {
        None => Ok(LoadedRow::Missing),
        Some(stored) => {
            let normalized = normalize_top_level_row(
                stored.value.as_slice(),
                stored.seq,
                stored.expire_ts,
                expected,
            )?;
            if normalized.is_expired_at(now) {
                Ok(LoadedRow::Expired)
            } else {
                Ok(LoadedRow::Live(normalized))
            }
        },
    }
}

/// Classifies the row read for a key of `expected` type at the current time.
pub fn classify_row(row: Option<StoredRow>, expected: DataType) -> (r: Result<LoadedRow, StorageError>)
    ensures
        exists|now: i64| loaded_matches(r, row, expected, now),
{
    let now = now_millis();
    classify_row_at(row, expected, now)
}

/// What EXPIRE does with a live row.
pub enum ExpireAction {
    /// The deadline has already passed: the row is deleted.
    Delete,
    /// The row is written again with its new deadline embedded and as its TTL.
    Rewrite { value: AnyValue, ttl: Ttl },
}

/// EXPIRE with the (validated) deadline `expire_time` on a live row at clock reading
/// `now`: zero clears the deadline; a deadline not after `now` deletes the row.
pub fn plan_expire(value: AnyValue, expire_time: u64, now: i64) -> (r: Result<ExpireAction, StorageError>)
    requires
        expire_time <= crate::expiration::MAX_EXPIRATION_TIMESTAMP_MS,
    ensures
        ({
            let now_ms: int = if now < 0 {
                0
            } else {
                now as int
            };
            if expire_time > 0 && expire_time <= now_ms {
                r matches Ok(ExpireAction::Delete)
            } else {
                r matches Ok(ExpireAction::Rewrite { value: v, ttl }) && v@ == model_with_expire_time(
                    value@,
                    expire_time,
                ) && ttl == ttl_at(expire_time, now)
            }
        }),
{
    let now_ms: u64 = if now < 0 {
        0
    } else {
        now as u64
    };
    if expire_time > 0 && expire_time <= now_ms {
        return Ok(ExpireAction::Delete);
    }
    let mut value = value;
    value.set_expire_time(expire_time);
    let ttl = ttl_for_expiration_at(expire_time, now)?;
    Ok(ExpireAction::Rewrite { value, ttl })
}

/// The TTL that TTL reports in milliseconds: the time left until the logical
/// deadline (never negative), or -1 for a key without one.
pub open spec fn remaining_ttl_spec(logical: Option<i64>, now: i64) -> int {
    match logical {
        Some(ts) => if ts - now > 0 {
            ts - now
        } else {
            0
        },
        None => -1,
    }
}

pub fn remaining_ttl(logical: Option<i64>, now: i64) -> (r: i64)
    requires
        logical matches Some(ts) ==> i64::MIN <= ts - now <= i64::MAX,
    ensures
        r == remaining_ttl_spec(logical, now),
{
    match logical {
        Some(ts) => {
            let left = ts - now;
            if left > 0 {
                left
            } else {
                0
            }
        },
        None => -1,
    }
}

/// The distinct encoded keys of `keys`, in first-occurrence order; fails on the
/// first key that the key codec cannot represent.
pub fn encode_distinct_keys(keys: &Vec<Vec<u8>>) -> (r: Result<Vec<Vec<u8>>, StorageError>)
    ensures
        (forall|i: int| 0 <= i < keys@.len() ==> #[trigger] keys@[i]@.len() <= MAX_USER_KEY_LEN)
            ==> (r matches Ok(encoded) && views(encoded@) == first_occurrences(
            views(keys@).map_values(|k: Seq<u8>| key_prefix(k)),
        )),
        !(forall|i: int| 0 <= i < keys@.len() ==> #[trigger] keys@[i]@.len() <= MAX_USER_KEY_LEN)
            ==> (r matches Err(e) && error_model(e) is KeyLength),
{
    let mut encoded: Vec<Vec<u8>> = Vec::new();
    let mut i: usize = 0;
    while i < keys.len()
        invariant
            0 <= i <= keys@.len(),
            encoded@.len() == i,
            forall|j: int| 0 <= j < i ==> #[trigger] keys@[j]@.len() <= MAX_USER_KEY_LEN,
            forall|j: int| 0 <= j < i ==> #[trigger] encoded@[j]@ == key_prefix(keys@[j]@),
        decreases keys@.len() - i,
    {
        let copy = keys[i].clone();
        assert(copy@ =~= keys@[i as int]@);
        let key = TopLevelKey::new(copy)?;
        encoded.push(key.encode());
        i = i + 1;
    }
    let distinct = crate::dedup::first_occurrences_of(&encoded);
    assert(views(encoded@) =~= views(keys@).map_values(|k: Seq<u8>| key_prefix(k)));
    Ok(distinct)
}

/// Reading back a string row that SET wrote (the encoded value under its key,
/// with a row deadline that is absent or valid and not yet reached) gives the
/// live string holding exactly the bytes written, whatever its sequence number,
/// and its deadline stays the row's.
pub proof fn lemma_get_after_set(
    v: Seq<u8>,
    row: StoredRow,
    now: i64,
    r: Result<LoadedRow, StorageError>,
)
    requires
        row.value@ == crate::meta::string_bytes(v),
        row.expire_ts matches Some(t) ==> 0 <= t <= crate::expiration::MAX_ROW_EXPIRATION_TIMESTAMP_MS
            && now < t,
        loaded_matches(r, Some(row), DataType::String, now),
    ensures
        r matches Ok(LoadedRow::Live(n)) && n.value@ == crate::meta::ValueModel::String(v)
            && n.logical_expire_ts == row.expire_ts,
{
    crate::meta::lemma_string_round_trip(v);
    assert(row.value@[0] == crate::data_type::tag_of(DataType::String));
}

/// A collection written without a TTL (embedded deadline zero, no row deadline)
/// is live at every clock reading, and has no deadline.
pub proof fn lemma_collection_without_ttl_is_live(
    v: crate::meta::ValueModel,
    row: StoredRow,
    now: i64,
    r: Result<LoadedRow, StorageError>,
)
    requires
        v !is String,
        crate::meta::model_expire_time(v) == Some(0u64),
        row.value@ == crate::meta::model_bytes(v),
        row.expire_ts is None,
        loaded_matches(r, Some(row), crate::meta::model_type(v), now),
    ensures
        r matches Ok(LoadedRow::Live(n)) && n.logical_expire_ts is None && n.row_expire_ts is None,
{
    crate::top_level_row::lemma_collection_deadline_is_embedded(v, row.seq, row.expire_ts);
}

} // verus!
