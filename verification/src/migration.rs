//! Decisions of the layout migration that moves top-level rows left in another
//! type's database into the database of their own type.
use vstd::prelude::*;
use vstd::string::{StringSliceAdditionalSpecFns, StrSliceExecFns};
use crate::data_type::{DataType, type_of_tag};
use crate::error::{StorageError, ErrorModel, error_model};
use crate::expiration::{Ttl, ttl_at, ttl_for_expiration_at, now_millis, expired_at};
use crate::key_range::bytes_equal;
use crate::meta::{ValueModel, model_bytes, model_type};
use crate::top_level_key::{TopLevelKey, decode_prefix_spec};
use crate::top_level_row::{NormalizedTopLevelRow, RowOutcome, normalize_spec, normalize_top_level_row};
use crate::keyspace_ops::{StoredRow, LoadedRow};

verus! {

/// How far a re-created row deadline may lie after the deadline it copies.
pub const MAX_MIGRATION_TTL_DRIFT_MS: i64 = 5_000;

/// How many rows one migration scan reads before it writes.
pub const MIGRATION_SCAN_CHUNK_SIZE: usize = 64;

/// A destination deadline `d` may stand for the source deadline `s`: both absent,
/// or `d` no earlier than `s` and at most the allowed drift later.
pub open spec fn deadline_compatible(s: Option<i64>, d: Option<i64>) -> bool {
    match (s, d) {
        (None, None) => true,
        (Some(a), Some(b)) => b >= a && b - a <= MAX_MIGRATION_TTL_DRIFT_MS,
        _ => false,
    }
}

/// A copy in the destination database may replace the source row: same type and
/// same bytes; a string's row deadline must be compatible with the source's logical
/// deadline, and a collection must keep the same logical deadline with a compatible
/// row deadline.
pub open spec fn destination_matches_spec(
    source: NormalizedTopLevelRow,
    destination: NormalizedTopLevelRow,
    expected: DataType,
) -> bool {
    &&& model_type(destination.value@) == expected
    &&& model_bytes(destination.value@) == model_bytes(source.value@)
    &&& if expected == DataType::String {
        deadline_compatible(source.logical_expire_ts, destination.row_expire_ts)
    } else {
        destination.logical_expire_ts == source.logical_expire_ts && deadline_compatible(
            source.logical_expire_ts,
            destination.row_expire_ts,
        )
    }
}

fn deadlines_compatible(s: Option<i64>, d: Option<i64>) -> (r: bool)
    ensures
        r == deadline_compatible(s, d),
{
    match (s, d) {
        (None, None) => true,
        (Some(a), Some(b)) => b >= a && (b as i128) - (a as i128) <= MAX_MIGRATION_TTL_DRIFT_MS as i128,
        _ => false,
    }
}

/// Whether `destination` may replace `source` during migration.
pub fn destination_matches_source(
    source: &NormalizedTopLevelRow,
    destination: &NormalizedTopLevelRow,
    expected_type: DataType,
) -> (r: bool)
    ensures
        r == destination_matches_spec(*source, *destination, expected_type),
{
    if destination.value.data_type() != expected_type {
        return false;
    }
    let destination_bytes = destination.value.encode();
    let source_bytes = source.value.encode();
    if !bytes_equal(destination_bytes.as_slice(), source_bytes.as_slice()) {
        return false;
    }
    match expected_type {
        DataType::String => deadlines_compatible(source.logical_expire_ts, destination.row_expire_ts),
        _ => {
            if destination.logical_expire_ts != source.logical_expire_ts {
                return false;
            }
            deadlines_compatible(source.logical_expire_ts, destination.row_expire_ts)
        },
    }
}

/// The TTL of a migrated row, as seen at clock reading `now`: its logical deadline
/// (negative ones count as zero), or none.
pub fn migration_ttl_at(logical_expire_ts: Option<i64>, now: i64) -> (r: Result<Ttl, StorageError>)
    ensures
        match logical_expire_ts {
            None => r == Ok::<Ttl, StorageError>(Ttl::NoExpiry),
            Some(ts) => {
                let t: u64 = if ts < 0 {
                    0
                } else {
                    ts as u64
                };
                if t == 0 || t <= crate::expiration::MAX_EXPIRATION_TIMESTAMP_MS {
                    r == Ok::<Ttl, StorageError>(ttl_at(t, now))
                } else {
                    r matches Err(e) && error_model(e) == ErrorModel::Expiration(
                        t,
                        crate::expiration::MAX_EXPIRATION_TIMESTAMP_MS,
                    )
                }
            },
        },
{
    match logical_expire_ts {
        Some(expire_ts) => {
            let t: u64 = if expire_ts < 0 {
                0
            } else {
                expire_ts as u64
            };
            ttl_for_expiration_at(t, now)
        },
        None => Ok(Ttl::NoExpiry),
    }
}

/// The TTL of a migrated row at the current time.
pub fn migration_ttl(logical_expire_ts: Option<i64>) -> (r: Result<Ttl, StorageError>)
    ensures
        logical_expire_ts is None ==> r == Ok::<Ttl, StorageError>(Ttl::NoExpiry),
        logical_expire_ts matches Some(ts) ==> (r is Ok <==> ts <= crate::expiration::MAX_EXPIRATION_TIMESTAMP_MS),
        logical_expire_ts matches Some(ts) && ts <= 0 ==> r == Ok::<Ttl, StorageError>(Ttl::NoExpiry),
        r matches Ok(Ttl::ExpireAfter(d)) ==> (logical_expire_ts matches Some(ts) && 0 < ts && d <= ts),
        r matches Err(e) ==> e is InvalidExpiration,
        logical_expire_ts matches Some(ts) ==> (0 < ts <= crate::expiration::MAX_EXPIRATION_TIMESTAMP_MS
            ==> (r matches Ok(t) && exists|now: i64| t == #[trigger] ttl_at(ts as u64, now))),
{
    let now = now_millis();
    let r = migration_ttl_at(logical_expire_ts, now);
    proof {
        if let Some(ts) = logical_expire_ts {
            if 0 < ts && ts <= crate::expiration::MAX_EXPIRATION_TIMESTAMP_MS {
                assert(r == Ok::<Ttl, StorageError>(ttl_at(ts as u64, now)));
            }
        }
    }
    r
}

/// Which scanned rows of the database of `source_type` are legacy top-level rows,
/// and the type whose database they belong in.
///
/// Rows whose key is not an exact top-level key are sub-keys and are skipped;
/// but a collection metadata value under such a key in the string database cannot
/// be assigned to one logical key, and migration stops there.
pub open spec fn legacy_destination_spec(source_type: DataType, key: Seq<u8>, value: Seq<u8>) -> Result<
    Option<DataType>,
    ErrorModel,
> {
    let encoded_type = if value.len() == 0 {
        None
    } else {
        type_of_tag(value[0])
    };
    let exact = decode_prefix_spec(key) matches Ok((_, t)) && t.len() == 0;
    if !exact {
        if source_type == DataType::String && encoded_type is Some && encoded_type.unwrap()
            != DataType::String {
            Err(ErrorModel::Inconsistent)
        } else {
            Ok(None)
        }
    } else {
        match encoded_type {
            None => Ok(None),
            Some(t) => if (source_type == DataType::String) == (t != DataType::String) {
                Ok(Some(t))
            } else {
                Ok(None)
            },
        }
    }
}

pub fn legacy_destination(source_type: DataType, key: &[u8], value: &[u8]) -> (r: Result<
    Option<DataType>,
    StorageError,
>)
    ensures
        match legacy_destination_spec(source_type, key@, value@) {
            Ok(d) => r matches Ok(d2) && d2 == d,
            Err(m) => r matches Err(e) && error_model(e) == m,
        },
{
    let encoded_type = if value.len() == 0 {
        None
    } else {
        DataType::from_u8(value[0])
    };
    let exact = TopLevelKey::decode_exact(key).is_ok();
    if !exact {
        let collection_meta = match encoded_type {
            Some(t) => t != DataType::String,
            None => false,
        };
        if source_type == DataType::String && collection_meta {
            return Err(
                StorageError::inconsistency(
                    "cannot safely migrate legacy collection metadata with an invalid top-level key length",
                ),
            );
        }
        return Ok(None);
    }
    match encoded_type {
        None => Ok(None),
        Some(t) => {
            let is_legacy = if source_type == DataType::String {
                t != DataType::String
            } else {
                t == DataType::String
            };
            if is_legacy {
                Ok(Some(t))
            } else {
                Ok(None)
            }
        },
    }
}

/// What becomes of a source row once its copy has been written and read back.
#[derive(Debug, Clone, Copy, PartialEq, Eq, Structural)]
pub enum CopyVerdict {
    /// The copy stands: the source row is deleted.
    DeleteSource,
    /// The copy is gone but so is the need for it: the source has expired meanwhile
    /// and is deleted.
    SourceExpired,
    /// The copy did not become visible and the source is still live: migration fails.
    Vanished,
    /// The copy differs from the source: it is deleted and migration fails.
    Mismatch,
}

/// A normalized destination row (value model `v`, logical deadline `logical`, row
/// deadline `row_expire_ts`) may replace `source`.
pub open spec fn normalized_matches_spec(
    source: NormalizedTopLevelRow,
    v: ValueModel,
    logical: Option<i64>,
    row_expire_ts: Option<i64>,
    expected: DataType,
) -> bool {
    &&& model_type(v) == expected
    &&& model_bytes(v) == model_bytes(source.value@)
    &&& if expected == DataType::String {
        deadline_compatible(source.logical_expire_ts, row_expire_ts)
    } else {
        logical == source.logical_expire_ts && deadline_compatible(
            source.logical_expire_ts,
            row_expire_ts,
        )
    }
}

/// Checks a destination row that existed before the copy: it must match the source.
pub fn check_existing_destination(
    source: &NormalizedTopLevelRow,
    destination: &StoredRow,
    expected_type: DataType,
) -> (r: Result<(), StorageError>)
    ensures
        match normalize_spec(destination.value@, destination.seq, destination.expire_ts, expected_type) {
            RowOutcome::Fail(m) => r matches Err(e) && error_model(e) == m,
            RowOutcome::Row(v, logical) => if normalized_matches_spec(
                *source,
                v,
                logical,
                destination.expire_ts,
                expected_type,
            ) {
                r is Ok
            } else {
                r matches Err(e) && error_model(e) == ErrorModel::Inconsistent
            },
        },
{
    let normalized = normalize_top_level_row(
        destination.value.as_slice(),
        destination.seq,
        destination.expire_ts,
        expected_type,
    )?;
    if !destination_matches_source(source, &normalized, expected_type) {
        return Err(
            StorageError::inconsistency("conflicting metadata authorities during layout migration"),
        );
    }
    Ok(())
}

/// Decides on a copy that was written and read back at clock reading `now`.
pub fn verify_written_destination(
    source: &NormalizedTopLevelRow,
    destination: Option<StoredRow>,
    expected_type: DataType,
    now: i64,
) -> (r: Result<CopyVerdict, StorageError>)
    ensures
        match destination {
            None => if expired_at(source.row_expire_ts, now) || expired_at(source.logical_expire_ts, now) {
                r == Ok::<CopyVerdict, StorageError>(CopyVerdict::SourceExpired)
            } else {
                r == Ok::<CopyVerdict, StorageError>(CopyVerdict::Vanished)
            },
            Some(d) => match normalize_spec(d.value@, d.seq, d.expire_ts, expected_type) {
                RowOutcome::Fail(m) => r matches Err(e) && error_model(e) == m,
                RowOutcome::Row(v, logical) => if normalized_matches_spec(
                    *source,
                    v,
                    logical,
                    d.expire_ts,
                    expected_type,
                ) {
                    r == Ok::<CopyVerdict, StorageError>(CopyVerdict::DeleteSource)
                } else {
                    r == Ok::<CopyVerdict, StorageError>(CopyVerdict::Mismatch)
                },
            },
        },
{
    match destination {
        None => {
            if source.is_expired_at(now) {
                Ok(CopyVerdict::SourceExpired)
            } else {
                Ok(CopyVerdict::Vanished)
            }
        },
        Some(d) => {
            let normalized = normalize_top_level_row(d.value.as_slice(), d.seq, d.expire_ts, expected_type)?;
            if destination_matches_source(source, &normalized, expected_type) {
                Ok(CopyVerdict::DeleteSource)
            } else {
                Ok(CopyVerdict::Mismatch)
            }
        },
    }
}

/// The contents of the marker object that records the current on-disk layout.
pub open spec fn current_layout_version() -> Seq<u8> {
    "nimbis-layout:type-local-metadata:v1\n".spec_bytes()
}

/// The marker contents, as bytes.
pub fn current_layout_marker() -> (r: Vec<u8>)
    ensures
        r@ == current_layout_version(),
{
    "nimbis-layout:type-local-metadata:v1\n".as_bytes_vec()
}

/// Whether a marker object's contents name the current layout.
pub fn layout_marker_is_current(contents: &[u8]) -> (r: bool)
    ensures
        r == (contents@ == current_layout_version()),
{
    let marker = current_layout_marker();
    bytes_equal(contents, marker.as_slice())
}

/// A destination that holds the source's bytes, keeps its logical deadline and
/// carries that deadline as its row deadline (what a copy written with the
/// migration TTL holds when read back at once) may replace the source.
pub proof fn lemma_faithful_copy_matches(
    source: NormalizedTopLevelRow,
    destination: NormalizedTopLevelRow,
    expected: DataType,
)
    requires
        model_type(source.value@) == expected,
        destination.value@ == source.value@,
        destination.logical_expire_ts == source.logical_expire_ts,
        destination.row_expire_ts == source.logical_expire_ts,
    ensures
        destination_matches_spec(source, destination, expected),
{
}

/// The TTL of a migrated row at clock reading `now`, as `migration_ttl_at` gives it.
pub open spec fn migration_ttl_spec(logical_expire_ts: Option<i64>, now: i64) -> Result<Ttl, ErrorModel> {
    match logical_expire_ts {
        None => Ok(Ttl::NoExpiry),
        Some(ts) => {
            let t: u64 = if ts < 0 {
                0
            } else {
                ts as u64
            };
            if t == 0 || t <= crate::expiration::MAX_EXPIRATION_TIMESTAMP_MS {
                Ok(ttl_at(t, now))
            } else {
                Err(ErrorModel::Expiration(t, crate::expiration::MAX_EXPIRATION_TIMESTAMP_MS))
            }
        },
    }
}

/// What the copy of one legacy row has observed so far.
pub enum CopyStage {
    /// Only the source row has been read.
    Started,
    /// The destination row was read before anything was written to it.
    DestinationRead(Option<StoredRow>),
    /// The copy was written durably.
    CopyWritten,
    /// The copy was read back after it was written.
    CopyReadBack(Option<StoredRow>),
    /// A fresh copy that did not match the source was deleted durably.
    CopyRemoved,
    /// The source row was deleted durably.
    SourceRemoved,
}

/// The next step of the copy of one legacy row.
pub enum CopyAction {
    /// Read the destination row.
    ReadDestination,
    /// Write `value` to the destination with `ttl`, durably.
    WriteCopy { value: Vec<u8>, ttl: Ttl },
    /// Read the written copy back.
    ReadBack,
    /// Delete the copy just written, durably.
    RemoveCopy,
    /// Delete the source row, durably.
    RemoveSource,
    /// Nothing is left to do.
    Finished,
}

/// A copy step as values.
pub enum CopyActionModel {
    ReadDestination,
    WriteCopy(Seq<u8>, Ttl),
    ReadBack,
    RemoveCopy,
    RemoveSource,
    Finished,
}

pub open spec fn action_model(a: CopyAction) -> CopyActionModel {
    match a {
        CopyAction::ReadDestination => CopyActionModel::ReadDestination,
        CopyAction::WriteCopy { value, ttl } => CopyActionModel::WriteCopy(value@, ttl),
        CopyAction::ReadBack => CopyActionModel::ReadBack,
        CopyAction::RemoveCopy => CopyActionModel::RemoveCopy,
        CopyAction::RemoveSource => CopyActionModel::RemoveSource,
        CopyAction::Finished => CopyActionModel::Finished,
    }
}

/// Whether the destination row `d` may stand for the live source `src`.
pub open spec fn row_matches_source(src: NormalizedTopLevelRow, d: StoredRow, expected: DataType) -> bool {
    match normalize_spec(d.value@, d.seq, d.expire_ts, expected) {
        RowOutcome::Row(v, logical) => normalized_matches_spec(src, v, logical, d.expire_ts, expected),
        RowOutcome::Fail(_) => false,
    }
}

/// The step after `stage` in copying the source row `source` (as read and
/// classified at the start) into the database of `expected`, at clock reading
/// `now`. An expired source is only deleted. A live source is deleted only once
/// a destination that matches it is in place, or, when its fresh copy vanished,
/// once it has expired itself; a fresh copy that does not match is deleted and
/// the migration then fails.
pub open spec fn copy_step_spec(source: LoadedRow, stage: CopyStage, expected: DataType, now: i64) -> Result<
    CopyActionModel,
    ErrorModel,
> {
    match source {
        LoadedRow::Live(src) => match stage {
            CopyStage::Started => Ok(CopyActionModel::ReadDestination),
            CopyStage::DestinationRead(Some(d)) => match normalize_spec(
                d.value@,
                d.seq,
                d.expire_ts,
                expected,
            ) {
                RowOutcome::Fail(m) => Err(m),
                RowOutcome::Row(v, logical) => if normalized_matches_spec(
                    src,
                    v,
                    logical,
                    d.expire_ts,
                    expected,
                ) {
                    Ok(CopyActionModel::RemoveSource)
                } else {
                    Err(ErrorModel::Inconsistent)
                },
            },
            CopyStage::DestinationRead(None) => match migration_ttl_spec(src.logical_expire_ts, now) {
                Ok(ttl) => Ok(CopyActionModel::WriteCopy(model_bytes(src.value@), ttl)),
                Err(m) => Err(m),
            },
            CopyStage::CopyWritten => Ok(CopyActionModel::ReadBack),
            CopyStage::CopyReadBack(None) => if expired_at(src.row_expire_ts, now) || expired_at(
                src.logical_expire_ts,
                now,
            ) {
                Ok(CopyActionModel::RemoveSource)
            } else {
                Err(ErrorModel::Inconsistent)
            },
            CopyStage::CopyReadBack(Some(d)) => match normalize_spec(
                d.value@,
                d.seq,
                d.expire_ts,
                expected,
            ) {
                RowOutcome::Fail(m) => Err(m),
                RowOutcome::Row(v, logical) => if normalized_matches_spec(
                    src,
                    v,
                    logical,
                    d.expire_ts,
                    expected,
                ) {
                    Ok(CopyActionModel::RemoveSource)
                } else {
                    Ok(CopyActionModel::RemoveCopy)
                },
            },
            CopyStage::CopyRemoved => Err(ErrorModel::Inconsistent),
            CopyStage::SourceRemoved => Ok(CopyActionModel::Finished),
        },
        LoadedRow::Expired => match stage {
            CopyStage::Started => Ok(CopyActionModel::RemoveSource),
            _ => Ok(CopyActionModel::Finished),
        },
        LoadedRow::Missing => Ok(CopyActionModel::Finished),
    }
}

fn type_inconsistency(expected: DataType, what: &str) -> (r: StorageError)
    ensures
        error_model(r) == ErrorModel::Inconsistent,
{
    let mut message = String::from_str(expected.name());
    message.append(what);
    StorageError::DataInconsistency { message }
}

/// The step after `stage` in copying a legacy row; see `copy_step_spec`.
pub fn copy_step(source: &LoadedRow, stage: &CopyStage, expected: DataType, now: i64) -> (r: Result<
    CopyAction,
    StorageError,
>)
    ensures
        match copy_step_spec(*source, *stage, expected, now) {
            Ok(a) => r matches Ok(b) && action_model(b) == a,
            Err(m) => r matches Err(e) && error_model(e) == m,
        },
{
    let src = match source {
        LoadedRow::Live(row) => row,
        LoadedRow::Expired => {
            return match stage {
                CopyStage::Started => Ok(CopyAction::RemoveSource),
                _ => Ok(CopyAction::Finished),
            };
        },
        LoadedRow::Missing => {
            return Ok(CopyAction::Finished);
        },
    };
    match stage {
        CopyStage::Started => Ok(CopyAction::ReadDestination),
        CopyStage::DestinationRead(Some(d)) => {
            check_existing_destination(src, d, expected)?;
            Ok(CopyAction::RemoveSource)
        },
        CopyStage::DestinationRead(None) => {
            let ttl = migration_ttl_at(src.logical_expire_ts, now)?;
            Ok(CopyAction::WriteCopy { value: src.value.encode(), ttl })
        },
        CopyStage::CopyWritten => Ok(CopyAction::ReadBack),
        CopyStage::CopyReadBack(None) => {
            if src.is_expired_at(now) {
                Ok(CopyAction::RemoveSource)
            } else {
                Err(type_inconsistency(expected, " metadata was not visible after durable migration write"))
            }
        },
        CopyStage::CopyReadBack(Some(d)) => {
            let normalized = normalize_top_level_row(d.value.as_slice(), d.seq, d.expire_ts, expected)?;
            if destination_matches_source(src, &normalized, expected) {
                Ok(CopyAction::RemoveSource)
            } else {
                Ok(CopyAction::RemoveCopy)
            }
        },
        CopyStage::CopyRemoved => Err(type_inconsistency(expected, " metadata verification failed after migration")),
        CopyStage::SourceRemoved => Ok(CopyAction::Finished),
    }
}

/// A live source row is deleted only when a destination row that matches it is
/// in place (found before the copy, or read back after it), or when its fresh
/// copy vanished and the source has expired meanwhile.
pub proof fn lemma_source_removed_only_when_secured(
    src: NormalizedTopLevelRow,
    stage: CopyStage,
    expected: DataType,
    now: i64,
)
    requires
        copy_step_spec(LoadedRow::Live(src), stage, expected, now) == Ok::<CopyActionModel, ErrorModel>(
            CopyActionModel::RemoveSource,
        ),
    ensures
        match stage {
            CopyStage::DestinationRead(Some(d)) => row_matches_source(src, d, expected),
            CopyStage::CopyReadBack(Some(d)) => row_matches_source(src, d, expected),
            CopyStage::CopyReadBack(None) => expired_at(src.row_expire_ts, now) || expired_at(
                src.logical_expire_ts,
                now,
            ),
            _ => false,
        },
{
}

/// The copy is written only once the destination has been read and found
/// empty, and it holds the source's bytes.
pub proof fn lemma_copy_written_only_into_empty_destination(
    src: NormalizedTopLevelRow,
    stage: CopyStage,
    expected: DataType,
    now: i64,
    value: Seq<u8>,
    ttl: Ttl,
)
    requires
        copy_step_spec(LoadedRow::Live(src), stage, expected, now) == Ok::<CopyActionModel, ErrorModel>(
            CopyActionModel::WriteCopy(value, ttl),
        ),
    ensures
        stage matches CopyStage::DestinationRead(None),
        value == model_bytes(src.value@),
        migration_ttl_spec(src.logical_expire_ts, now) == Ok::<Ttl, ErrorModel>(ttl),
{
}

/// A fresh copy that reads back different from the source is deleted, and the
/// migration fails after that deletion.
pub proof fn lemma_mismatching_copy_removed_then_fails(
    src: NormalizedTopLevelRow,
    d: StoredRow,
    expected: DataType,
    now: i64,
)
    requires
        normalize_spec(d.value@, d.seq, d.expire_ts, expected) is Row,
        !row_matches_source(src, d, expected),
    ensures
        copy_step_spec(LoadedRow::Live(src), CopyStage::CopyReadBack(Some(d)), expected, now) == Ok::<
            CopyActionModel,
            ErrorModel,
        >(CopyActionModel::RemoveCopy),
        copy_step_spec(LoadedRow::Live(src), CopyStage::CopyRemoved, expected, now) == Err::<
            CopyActionModel,
            ErrorModel,
        >(ErrorModel::Inconsistent),
{
}

/// Whether a migration scan that read `scanned` rows in its last chunk goes on
/// with another chunk: it stops at the first chunk that is not full.
pub fn migration_scan_continues(scanned: usize) -> (r: bool)
    ensures
        r == (scanned >= MIGRATION_SCAN_CHUNK_SIZE),
{
    scanned >= MIGRATION_SCAN_CHUNK_SIZE
}

/// Only exact top-level rows migrate: a row whose key is not the encoding of any
/// user key (a collection sub-key, or malformed) is never a candidate, in every
/// source database; the string database refuses such a row holding collection
/// metadata instead of skipping it.
pub proof fn lemma_only_exact_keys_migrate(source_type: DataType, key: Seq<u8>, value: Seq<u8>)
    requires
        forall|u: Seq<u8>| u.len() <= crate::top_level_key::MAX_USER_KEY_LEN ==> key
            != #[trigger] crate::top_level_key::key_prefix(u),
    ensures
        legacy_destination_spec(source_type, key, value) == Ok::<Option<DataType>, ErrorModel>(None)
            || (source_type == DataType::String && legacy_destination_spec(source_type, key, value)
            == Err::<Option<DataType>, ErrorModel>(ErrorModel::Inconsistent)),
{
    if decode_prefix_spec(key) is Ok {
        crate::top_level_key::lemma_decode_encode(key);
        let (k, t) = decode_prefix_spec(key).unwrap();
        if t.len() == 0 {
            assert(crate::top_level_key::key_prefix(k) + t =~= crate::top_level_key::key_prefix(k));
            assert(k.len() <= crate::top_level_key::MAX_USER_KEY_LEN);
            assert(key == crate::top_level_key::key_prefix(k));
        }
    }
}

/// An exact top-level row migrates exactly when its type tag belongs in the
/// other kind of database: a collection row found in the string database, or a
/// string row found in a collection database; it then goes to its own type.
pub proof fn lemma_exact_rows_go_to_their_type(source_type: DataType, user_key: Seq<u8>, value: Seq<u8>)
    requires
        user_key.len() <= crate::top_level_key::MAX_USER_KEY_LEN,
        value.len() > 0,
        type_of_tag(value[0]) is Some,
    ensures
        ({
            let t = type_of_tag(value[0]).unwrap();
            let misplaced = if source_type == DataType::String {
                t != DataType::String
            } else {
                t == DataType::String
            };
            legacy_destination_spec(source_type, crate::top_level_key::key_prefix(user_key), value)
                == Ok::<Option<DataType>, ErrorModel>(if misplaced {
                Some(t)
            } else {
                None
            })
        }),
{
    crate::top_level_key::lemma_encode_decode(user_key, Seq::<u8>::empty());
    assert(crate::top_level_key::key_prefix(user_key) + Seq::<u8>::empty() =~= crate::top_level_key::key_prefix(
        user_key,
    ));
}

} // verus!
