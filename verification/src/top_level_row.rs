//! Decoding a top-level row and reconciling its embedded and row deadlines.
use vstd::prelude::*;
use crate::data_type::{DataType, type_of_tag};
use crate::error::{StorageError, ErrorModel, error_model};
use crate::expiration::{
    MAX_EXPIRATION_TIMESTAMP_MS, MAX_ROW_EXPIRATION_TIMESTAMP_MS, validate_expiration,
    validate_row_expiration, expired_at, is_expired_at, now_millis,
};
use crate::meta::{
    AnyValue, ValueModel, decode_value_spec, model_version, model_with_version,
    model_expire_time, model_with_expire_time,
};

verus! {

/// A decoded top-level row with its physical and logical state reconciled.
///
/// Normalization never deletes anything: callers decide what to do with an
/// expired row.
#[derive(Debug)]
pub struct NormalizedTopLevelRow {
    pub value: AnyValue,
    pub logical_expire_ts: Option<i64>,
    pub row_expire_ts: Option<i64>,
}

/// What normalizing a row gives: the value and its logical deadline, or a failure.
pub enum RowOutcome {
    Row(ValueModel, Option<i64>),
    Fail(ErrorModel),
}

/// A row whose collection generation is still pending takes its commit sequence.
pub open spec fn resolve_generation(v: ValueModel, row_sequence: u64) -> ValueModel {
    if model_version(v) == Some(0u64) {
        model_with_version(v, row_sequence)
    } else {
        v
    }
}

/// Collection metadata carries its own deadline; a legacy collection row without
/// one inherits the row deadline, and strings always use the row deadline. The
/// row deadline and the embedded deadline have their own ceilings.
pub open spec fn normalize_spec(
    encoded: Seq<u8>,
    row_sequence: u64,
    row_expire_ts: Option<i64>,
    expected: DataType,
) -> RowOutcome {
    if row_expire_ts is Some && row_expire_ts.unwrap() < 0 {
        RowOutcome::Fail(ErrorModel::Inconsistent)
    } else if row_expire_ts is Some && row_expire_ts.unwrap() > MAX_ROW_EXPIRATION_TIMESTAMP_MS {
        RowOutcome::Fail(
            ErrorModel::Expiration(row_expire_ts.unwrap() as u64, MAX_ROW_EXPIRATION_TIMESTAMP_MS),
        )
    } else if encoded.len() == 0 || type_of_tag(encoded[0]) != Some(expected) {
        RowOutcome::Fail(ErrorModel::Inconsistent)
    } else {
        match decode_value_spec(encoded) {
            Err(e) => RowOutcome::Fail(ErrorModel::Decode(e)),
            Ok(v0) => {
                let v = resolve_generation(v0, row_sequence);
                match model_expire_time(v) {
                    None => RowOutcome::Row(v, row_expire_ts),
                    Some(t) => if t == 0 {
                        match row_expire_ts {
                            None => RowOutcome::Row(v, None),
                            Some(ts) => if ts as u64 > MAX_EXPIRATION_TIMESTAMP_MS {
                                RowOutcome::Fail(
                                    ErrorModel::Expiration(ts as u64, MAX_EXPIRATION_TIMESTAMP_MS),
                                )
                            } else {
                                RowOutcome::Row(model_with_expire_time(v, ts as u64), row_expire_ts)
                            },
                        }
                    } else if t > MAX_EXPIRATION_TIMESTAMP_MS {
                        RowOutcome::Fail(ErrorModel::Expiration(t, MAX_EXPIRATION_TIMESTAMP_MS))
                    } else {
                        RowOutcome::Row(v, Some(t as i64))
                    },
                }
            },
        }
    }
}

/// `r` is the outcome that `o` describes, with the row deadline passed through.
pub open spec fn normalized_matches(
    r: Result<NormalizedTopLevelRow, StorageError>,
    o: RowOutcome,
    row_expire_ts: Option<i64>,
) -> bool {
    match o {
        RowOutcome::Row(v, logical) => r matches Ok(n) && n.value@ == v && n.logical_expire_ts
            == logical && n.row_expire_ts == row_expire_ts,
        RowOutcome::Fail(m) => r matches Err(e) && error_model(e) == m,
    }
}

/// Decodes and reconciles one top-level row read from the database of `expected_type`.
pub fn normalize_top_level_row(
    encoded_value: &[u8],
    row_sequence: u64,
    row_expire_ts: Option<i64>,
    expected_type: DataType,
) -> (r: Result<NormalizedTopLevelRow, StorageError>)
    ensures
        normalized_matches(
            r,
            normalize_spec(encoded_value@, row_sequence, row_expire_ts, expected_type),
            row_expire_ts,
        ),
{
    validate_row_expiration(row_expire_ts)?;
    let encoded_type = if encoded_value.len() == 0 {
        None
    } else {
        DataType::from_u8(encoded_value[0])
    };
    let matches_expected = match encoded_type {
        Some(t) => t == expected_type,
        None => false,
    };
    if !matches_expected {
        return Err(StorageError::inconsistency("top-level row has an unexpected type tag"));
    }
    let mut value = match AnyValue::decode(encoded_value) {
        Ok(v) => v,
        Err(e) => {
            return Err(StorageError::DecodeError { source: e });
        },
    };
    if value.version() == Some(0u64) {
        value.set_version(row_sequence);
    }
    let logical_expire_ts = match value.embedded_expire_time() {
        None => row_expire_ts,
        Some(expire_time) => {
            if expire_time == 0 {
                if let Some(expire_ts) = row_expire_ts {
                    let expire_time = expire_ts as u64;
                    validate_expiration(expire_time)?;
                    value.set_expire_time(expire_time);
                }
                row_expire_ts
            } else {
                validate_expiration(expire_time)?;
                Some(expire_time as i64)
            }
        },
    };
    Ok(NormalizedTopLevelRow { value, logical_expire_ts, row_expire_ts })
}

impl NormalizedTopLevelRow {
    /// Expired at `now`: the row deadline or the logical deadline has passed.
    pub fn is_expired_at(&self, now: i64) -> (r: bool)
        ensures
            r == (expired_at(self.row_expire_ts, now) || expired_at(self.logical_expire_ts, now)),
    {
        is_expired_at(self.row_expire_ts, now) || is_expired_at(self.logical_expire_ts, now)
    }

    /// Expired at the current time.
    pub fn is_expired(&self) -> (r: bool)
        ensures
            exists|now: i64|
                r == (expired_at(self.row_expire_ts, now) || expired_at(self.logical_expire_ts, now)),
    {
        let now = now_millis();
        self.is_expired_at(now)
    }
}

proof fn lemma_normalize_decoded(
    e: Seq<u8>,
    v: ValueModel,
    t: DataType,
    row_sequence: u64,
    row_expire_ts: Option<i64>,
)
    requires
        v !is String,
        crate::meta::model_type(v) == t,
        e.len() > 0,
        type_of_tag(e[0]) == Some(t),
        decode_value_spec(e) == Ok::<ValueModel, crate::error::DecoderError>(v),
        row_expire_ts matches Some(r) ==> 0 <= r <= MAX_ROW_EXPIRATION_TIMESTAMP_MS,
    ensures
        model_expire_time(v) == Some(0u64) && row_expire_ts is None ==> (normalize_spec(
            e,
            row_sequence,
            row_expire_ts,
            t,
        ) matches RowOutcome::Row(w, logical) && logical is None && model_expire_time(w) == Some(
            0u64,
        ) && crate::meta::model_type(w) == t),
        model_expire_time(v) matches Some(x) ==> (0 < x <= MAX_EXPIRATION_TIMESTAMP_MS ==> (
        normalize_spec(e, row_sequence, row_expire_ts, t) matches RowOutcome::Row(w, logical)
            && logical == Some(x as i64) && model_expire_time(w) == Some(x))),
{
    let g = resolve_generation(v, row_sequence);
    assert(model_expire_time(g) == model_expire_time(v));
    assert(crate::meta::model_type(g) == t);
}

/// A collection's logical deadline is the one embedded in its metadata: reading
/// back metadata of the expected type whose embedded deadline is zero (written
/// without a TTL) and whose row carries no deadline gives a row without any
/// deadline, and an embedded deadline `t` within the ceiling is the logical
/// deadline whatever the row deadline is (a valid one).
pub proof fn lemma_collection_deadline_is_embedded(
    v: ValueModel,
    row_sequence: u64,
    row_expire_ts: Option<i64>,
)
    requires
        v !is String,
        row_expire_ts matches Some(r) ==> 0 <= r <= MAX_ROW_EXPIRATION_TIMESTAMP_MS,
    ensures
        model_expire_time(v) == Some(0u64) && row_expire_ts is None ==> (normalize_spec(
            crate::meta::model_bytes(v),
            row_sequence,
            row_expire_ts,
            crate::meta::model_type(v),
        ) matches RowOutcome::Row(w, logical) && logical is None && model_expire_time(w) == Some(
            0u64,
        ) && crate::meta::model_type(w) == crate::meta::model_type(v)),
        model_expire_time(v) matches Some(t) ==> (0 < t <= MAX_EXPIRATION_TIMESTAMP_MS ==> (normalize_spec(
            crate::meta::model_bytes(v),
            row_sequence,
            row_expire_ts,
            crate::meta::model_type(v),
        ) matches RowOutcome::Row(w, logical) && logical == Some(t as i64) && model_expire_time(w)
            == Some(t))),
{
    let b = crate::meta::model_bytes(v);
    let t = crate::meta::model_type(v);
    crate::meta::lemma_value_round_trip(v);
    crate::meta::lemma_value_tag(v);
    crate::data_type::lemma_tag_round_trip(t, 0);
    lemma_normalize_decoded(b, v, t, row_sequence, row_expire_ts);
}

} // verus!
