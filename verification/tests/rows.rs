use nimbis_storage::data_type::DataType;
use nimbis_storage::error::StorageError;
use nimbis_storage::expiration::ttl_for_expiration;
use nimbis_storage::expiration::ttl_for_expiration_at;
use nimbis_storage::expiration::Ttl;
use nimbis_storage::expiration::MAX_EXPIRATION_TIMESTAMP_MS;
use nimbis_storage::expiration::MAX_ROW_EXPIRATION_TIMESTAMP_MS;
use nimbis_storage::meta::AnyValue;
use nimbis_storage::meta::HashMetaValue;
use nimbis_storage::meta::StringValue;
use nimbis_storage::top_level_row::normalize_top_level_row;

#[test]
fn resolves_pending_generation_and_inherits_legacy_row_deadline() {
	let encoded = HashMetaValue::new(0, 2).encode();
	let normalized = normalize_top_level_row(&encoded, 42, Some(123_456), DataType::Hash).unwrap();

	let AnyValue::Hash(value) = &normalized.value else {
		panic!("expected hash metadata");
	};
	assert_eq!(value.version, 42);
	assert_eq!(value.expire_time, 123_456);
	assert_eq!(normalized.logical_expire_ts, Some(123_456));
	assert_eq!(normalized.row_expire_ts, Some(123_456));
}

#[test]
fn string_uses_the_row_deadline_without_embedding_it() {
	let encoded = StringValue::new(b"value".to_vec()).encode();
	let normalized = normalize_top_level_row(
		&encoded,
		7,
		Some(MAX_ROW_EXPIRATION_TIMESTAMP_MS as i64),
		DataType::String,
	)
	.unwrap();

	assert_eq!(normalized.logical_expire_ts, normalized.row_expire_ts);
	let AnyValue::String(value) = &normalized.value else {
		panic!("expected a string");
	};
	assert_eq!(value.value, b"value".to_vec());
}

#[test]
fn keeps_logical_and_row_expiration_limits_distinct() {
	let encoded = HashMetaValue::new_with_ttl(1, 1, MAX_EXPIRATION_TIMESTAMP_MS).encode();
	let normalized = normalize_top_level_row(
		&encoded,
		1,
		Some(MAX_ROW_EXPIRATION_TIMESTAMP_MS as i64),
		DataType::Hash,
	)
	.unwrap();
	assert_eq!(
		normalized.logical_expire_ts,
		Some(MAX_EXPIRATION_TIMESTAMP_MS as i64)
	);
	assert_eq!(
		normalized.row_expire_ts,
		Some(MAX_ROW_EXPIRATION_TIMESTAMP_MS as i64)
	);

	let encoded = HashMetaValue::new(1, 1).encode();
	assert!(matches!(
		normalize_top_level_row(
			&encoded,
			1,
			Some(MAX_ROW_EXPIRATION_TIMESTAMP_MS as i64),
			DataType::Hash,
		),
		Err(StorageError::InvalidExpiration {
			timestamp: MAX_ROW_EXPIRATION_TIMESTAMP_MS,
			max: MAX_EXPIRATION_TIMESTAMP_MS,
		})
	));

	let encoded = HashMetaValue::new_with_ttl(1, 1, MAX_EXPIRATION_TIMESTAMP_MS + 1).encode();
	assert!(matches!(
		normalize_top_level_row(&encoded, 1, None, DataType::Hash),
		Err(StorageError::InvalidExpiration {
			timestamp,
			max: MAX_EXPIRATION_TIMESTAMP_MS,
		}) if timestamp == MAX_EXPIRATION_TIMESTAMP_MS + 1
	));

	let encoded = StringValue::new(Vec::new()).encode();
	assert!(matches!(
		normalize_top_level_row(
			&encoded,
			1,
			Some((MAX_ROW_EXPIRATION_TIMESTAMP_MS + 1) as i64),
			DataType::String,
		),
		Err(StorageError::InvalidExpiration {
			timestamp,
			max: MAX_ROW_EXPIRATION_TIMESTAMP_MS,
		}) if timestamp == MAX_ROW_EXPIRATION_TIMESTAMP_MS + 1
	));
}

#[test]
fn rejects_a_row_from_the_wrong_typed_database() {
	let encoded = StringValue::new(Vec::new()).encode();
	assert!(matches!(
		normalize_top_level_row(&encoded, 1, None, DataType::Hash),
		Err(StorageError::DataInconsistency { .. })
	));
}

#[test]
fn normalized_rows_expire_by_either_deadline() {
	let encoded = HashMetaValue::new_with_ttl(5, 1, 100).encode();
	let normalized = normalize_top_level_row(&encoded, 9, Some(500), DataType::Hash).unwrap();
	assert_eq!(normalized.logical_expire_ts, Some(100));
	assert!(!normalized.is_expired_at(99));
	assert!(normalized.is_expired_at(100));
	assert!(normalized.is_expired());
}

#[test]
fn converts_zero_and_expired_deadlines_without_overflow() {
	assert_eq!(ttl_for_expiration(0).unwrap(), Ttl::NoExpiry);
	assert_eq!(ttl_for_expiration(1).unwrap(), Ttl::ExpireAfter(0));
	assert!(matches!(
		ttl_for_expiration(MAX_EXPIRATION_TIMESTAMP_MS).unwrap(),
		Ttl::ExpireAfter(duration) if duration > 0
	));
	assert_eq!(ttl_for_expiration_at(1_500, 1_000).unwrap(), Ttl::ExpireAfter(500));
	assert_eq!(ttl_for_expiration_at(1_500, -7).unwrap(), Ttl::ExpireAfter(1_500));
	assert!(ttl_for_expiration_at(MAX_EXPIRATION_TIMESTAMP_MS + 1, 0).is_err());
}
