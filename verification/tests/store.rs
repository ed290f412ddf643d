use nimbis_storage::keyspace_ops::LoadedRow;
use nimbis_storage::migration::CopyAction;
use nimbis_storage::migration::CopyStage;
use nimbis_storage::migration::copy_step;
use nimbis_storage::migration::migration_scan_continues;
use nimbis_storage::data_type::DataType;
use nimbis_storage::error::StorageError;
use nimbis_storage::expiration::Ttl;
use nimbis_storage::expiration::meta_put_ttl;
use nimbis_storage::expiration::meta_put_ttl_at;
use nimbis_storage::keyspace_ops::StoredRow;
use nimbis_storage::meta::AnyValue;
use nimbis_storage::meta::HashMetaValue;
use nimbis_storage::meta::StringValue;
use nimbis_storage::migration::CopyVerdict;
use nimbis_storage::migration::MAX_MIGRATION_TTL_DRIFT_MS;
use nimbis_storage::migration::check_existing_destination;
use nimbis_storage::migration::current_layout_marker;
use nimbis_storage::migration::destination_matches_source;
use nimbis_storage::migration::layout_marker_is_current;
use nimbis_storage::migration::legacy_destination;
use nimbis_storage::migration::migration_ttl_at;
use nimbis_storage::migration::verify_written_destination;
use nimbis_storage::store_config::LocalRoot;
use nimbis_storage::store_config::local_root;
use nimbis_storage::store_config::shard_segment;
use nimbis_storage::store_config::validate_object_store_url;
use nimbis_storage::top_level_key::TopLevelKey;
use nimbis_storage::top_level_key::decode_exact_meta_key;
use nimbis_storage::top_level_row::NormalizedTopLevelRow;

fn now_millis() -> u64 {
	std::time::SystemTime::now()
		.duration_since(std::time::UNIX_EPOCH)
		.unwrap()
		.as_millis() as u64
}

#[test]
fn test_meta_put_opts() {
	let mut val = HashMetaValue::new(1, 10);

	// No expiration
	val.expire_time = 0;
	assert_eq!(meta_put_ttl(val.expire_time), Ttl::NoExpiry);

	// Expired
	val.expire_time = now_millis().saturating_sub(1000);
	assert_eq!(meta_put_ttl(val.expire_time), Ttl::ExpireAfter(0));

	// Future expiration
	let future = now_millis() + 10000;
	val.expire_time = future;
	if let Ttl::ExpireAfter(millis) = meta_put_ttl(val.expire_time) {
		assert!(millis > 0);
		assert!(millis <= 10000);
	} else {
		panic!("Expected ExpireAfter");
	}
}

#[test]
fn metadata_ttl_is_measured_from_the_clock_reading() {
	assert_eq!(meta_put_ttl_at(0, 5), Ttl::NoExpiry);
	assert_eq!(meta_put_ttl_at(1_500, 1_000), Ttl::ExpireAfter(500));
	assert_eq!(meta_put_ttl_at(900, 1_000), Ttl::ExpireAfter(0));
	assert_eq!(meta_put_ttl_at(900, -5), Ttl::ExpireAfter(900));
}

#[test]
fn exact_meta_keys_need_a_length_that_covers_the_rest() {
	let encoded = TopLevelKey::new(b"user".to_vec()).unwrap().encode();
	assert_eq!(decode_exact_meta_key(&encoded), Some(b"user".to_vec()));
	let mut longer = encoded.clone();
	longer.push(1);
	assert_eq!(decode_exact_meta_key(&longer), None);
	assert_eq!(decode_exact_meta_key(&[0]), None);
	assert_eq!(decode_exact_meta_key(&[0, 0]), Some(Vec::new()));
}

#[test]
fn the_layout_marker_names_the_current_layout() {
	assert_eq!(current_layout_marker(), b"nimbis-layout:type-local-metadata:v1\n".to_vec());
	assert!(layout_marker_is_current(b"nimbis-layout:type-local-metadata:v1\n"));
	assert!(!layout_marker_is_current(b"nimbis-layout:type-local-metadata:v0\n"));
	assert!(!layout_marker_is_current(b""));
}

fn string_row(value: &[u8], logical: Option<i64>, row: Option<i64>) -> NormalizedTopLevelRow {
	NormalizedTopLevelRow {
		value: AnyValue::String(StringValue::new(value.to_vec())),
		logical_expire_ts: logical,
		row_expire_ts: row,
	}
}

#[test]
fn a_destination_matches_with_bounded_deadline_drift() {
	let source = string_row(b"v", Some(10_000), Some(10_000));
	let same = string_row(b"v", Some(12_000), Some(12_000));
	assert!(destination_matches_source(&source, &same, DataType::String));
	let drifted = string_row(b"v", None, Some(10_000 + MAX_MIGRATION_TTL_DRIFT_MS + 1));
	assert!(!destination_matches_source(&source, &drifted, DataType::String));
	let shortened = string_row(b"v", None, Some(9_999));
	assert!(!destination_matches_source(&source, &shortened, DataType::String));
	let other = string_row(b"w", None, Some(10_000));
	assert!(!destination_matches_source(&source, &other, DataType::String));
	let no_deadline = string_row(b"v", None, None);
	assert!(!destination_matches_source(&source, &no_deadline, DataType::String));
}

#[test]
fn collections_keep_their_logical_deadline() {
	let meta = |expire: u64| NormalizedTopLevelRow {
		value: AnyValue::Hash(HashMetaValue::new_with_ttl(3, 1, expire)),
		logical_expire_ts: Some(expire as i64),
		row_expire_ts: Some(expire as i64),
	};
	assert!(destination_matches_source(&meta(5_000), &meta(5_000), DataType::Hash));
	assert!(!destination_matches_source(&meta(5_000), &meta(5_001), DataType::Hash));
	assert!(!destination_matches_source(&meta(5_000), &meta(5_000), DataType::String));
}

#[test]
fn legacy_rows_are_found_by_their_type_tag() {
	let key = TopLevelKey::new(b"k".to_vec()).unwrap().encode();
	let hash = HashMetaValue::new(1, 1).encode();
	let string = StringValue::new(b"x".to_vec()).encode();
	assert_eq!(legacy_destination(DataType::String, &key, &hash).unwrap(), Some(DataType::Hash));
	assert_eq!(legacy_destination(DataType::String, &key, &string).unwrap(), None);
	assert_eq!(legacy_destination(DataType::Hash, &key, &string).unwrap(), Some(DataType::String));
	assert_eq!(legacy_destination(DataType::Hash, &key, &hash).unwrap(), None);

	let mut sub_key = key.clone();
	sub_key.extend_from_slice(b"suffix");
	assert_eq!(legacy_destination(DataType::Hash, &sub_key, &hash).unwrap(), None);
	assert!(matches!(
		legacy_destination(DataType::String, &sub_key, &hash),
		Err(StorageError::DataInconsistency { .. })
	));
	assert_eq!(legacy_destination(DataType::String, &sub_key, &string).unwrap(), None);
}

#[test]
fn migrated_rows_keep_their_logical_deadline_as_ttl() {
	assert_eq!(migration_ttl_at(None, 100).unwrap(), Ttl::NoExpiry);
	assert_eq!(migration_ttl_at(Some(1_000), 400).unwrap(), Ttl::ExpireAfter(600));
	assert_eq!(migration_ttl_at(Some(-7), 400).unwrap(), Ttl::NoExpiry);
	assert!(matches!(migration_ttl_at(Some(i64::MAX), 0), Err(StorageError::InvalidExpiration { .. })));
}

#[test]
fn existing_destinations_must_agree_with_the_source() {
	let source = string_row(b"v", None, None);
	let good = StoredRow { value: StringValue::new(b"v".to_vec()).encode(), seq: 3, expire_ts: None };
	assert!(check_existing_destination(&source, &good, DataType::String).is_ok());
	let bad = StoredRow { value: StringValue::new(b"w".to_vec()).encode(), seq: 3, expire_ts: None };
	assert!(matches!(
		check_existing_destination(&source, &bad, DataType::String),
		Err(StorageError::DataInconsistency { .. })
	));
}

#[test]
fn written_copies_are_confirmed_or_rejected() {
	let source = string_row(b"v", Some(2_000), Some(2_000));
	let copy = StoredRow { value: StringValue::new(b"v".to_vec()).encode(), seq: 4, expire_ts: Some(2_100) };
	assert_eq!(
		verify_written_destination(&source, Some(copy), DataType::String, 1_000).unwrap(),
		CopyVerdict::DeleteSource
	);
	let wrong = StoredRow { value: StringValue::new(b"x".to_vec()).encode(), seq: 4, expire_ts: Some(2_000) };
	assert_eq!(
		verify_written_destination(&source, Some(wrong), DataType::String, 1_000).unwrap(),
		CopyVerdict::Mismatch
	);
	assert_eq!(
		verify_written_destination(&source, None, DataType::String, 1_000).unwrap(),
		CopyVerdict::Vanished
	);
	assert_eq!(
		verify_written_destination(&source, None, DataType::String, 3_000).unwrap(),
		CopyVerdict::SourceExpired
	);
}

#[test]
fn object_store_urls_are_checked() {
	assert!(validate_object_store_url("file:///tmp/nimbis").is_ok());
	assert!(validate_object_store_url("memory:///").is_ok());
	assert!(matches!(
		validate_object_store_url("not a url"),
		Err(StorageError::ObjectStoreConfig { .. })
	));
	assert!(matches!(
		validate_object_store_url("ftp://example.com/data"),
		Err(StorageError::ObjectStoreConfig { .. })
	));
}

#[test]
fn local_roots_follow_the_written_url() {
	assert!(matches!(local_root("s3://bucket/path"), LocalRoot::UrlPath));
	assert!(matches!(local_root("file:"), LocalRoot::CurrentDir));
	assert!(matches!(local_root("file:///abs/path"), LocalRoot::FileUrl));
	match local_root("file:relative/dir") {
		LocalRoot::Relative(p) => assert_eq!(p, "relative/dir"),
		other => panic!("unexpected {other:?}"),
	}
	match local_root("file:/") {
		LocalRoot::Relative(p) => assert_eq!(p, "/"),
		other => panic!("unexpected {other:?}"),
	}
}

#[test]
fn shards_live_in_numbered_directories() {
	assert_eq!(shard_segment(0), "shard-0");
	assert_eq!(shard_segment(17), "shard-17");
}

fn live(row: NormalizedTopLevelRow) -> nimbis_storage::keyspace_ops::LoadedRow {
	nimbis_storage::keyspace_ops::LoadedRow::Live(row)
}

#[test]
fn a_copy_runs_read_write_read_back_then_removes_the_source() {
	let source = live(string_row(b"v", Some(2_000), Some(2_000)));
	assert!(matches!(
		copy_step(&source, &CopyStage::Started, DataType::String, 1_000),
		Ok(CopyAction::ReadDestination)
	));
	match copy_step(&source, &CopyStage::DestinationRead(None), DataType::String, 1_000) {
		Ok(CopyAction::WriteCopy { value, ttl }) => {
			assert_eq!(value, StringValue::new(b"v".to_vec()).encode());
			assert_eq!(ttl, Ttl::ExpireAfter(1_000));
		}
		_ => panic!("expected a write"),
	}
	assert!(matches!(
		copy_step(&source, &CopyStage::CopyWritten, DataType::String, 1_000),
		Ok(CopyAction::ReadBack)
	));
	let copy = StoredRow { value: StringValue::new(b"v".to_vec()).encode(), seq: 4, expire_ts: Some(2_000) };
	assert!(matches!(
		copy_step(&source, &CopyStage::CopyReadBack(Some(copy)), DataType::String, 1_000),
		Ok(CopyAction::RemoveSource)
	));
	assert!(matches!(
		copy_step(&source, &CopyStage::SourceRemoved, DataType::String, 1_000),
		Ok(CopyAction::Finished)
	));
}

#[test]
fn a_mismatching_copy_is_removed_and_the_copy_fails() {
	let source = live(string_row(b"v", None, None));
	let wrong = StoredRow { value: StringValue::new(b"w".to_vec()).encode(), seq: 4, expire_ts: None };
	assert!(matches!(
		copy_step(&source, &CopyStage::CopyReadBack(Some(wrong)), DataType::String, 1_000),
		Ok(CopyAction::RemoveCopy)
	));
	match copy_step(&source, &CopyStage::CopyRemoved, DataType::String, 1_000) {
		Err(StorageError::DataInconsistency { message }) => {
			assert_eq!(message, "String metadata verification failed after migration")
		}
		_ => panic!("expected a failure"),
	}
	assert!(matches!(
		copy_step(&source, &CopyStage::CopyReadBack(None), DataType::String, 1_000),
		Err(StorageError::DataInconsistency { .. })
	));
	let conflicting = StoredRow { value: StringValue::new(b"w".to_vec()).encode(), seq: 4, expire_ts: None };
	assert!(matches!(
		copy_step(&source, &CopyStage::DestinationRead(Some(conflicting)), DataType::String, 1_000),
		Err(StorageError::DataInconsistency { .. })
	));
}

#[test]
fn an_expired_source_is_only_removed() {
	assert!(matches!(
		copy_step(&LoadedRow::Expired, &CopyStage::Started, DataType::Hash, 0),
		Ok(CopyAction::RemoveSource)
	));
	assert!(matches!(
		copy_step(&LoadedRow::Expired, &CopyStage::SourceRemoved, DataType::Hash, 0),
		Ok(CopyAction::Finished)
	));
	assert!(migration_scan_continues(64));
	assert!(!migration_scan_continues(63));
}
