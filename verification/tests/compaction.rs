use nimbis_storage::compaction_filter::CollectionCompactionFilter;
use nimbis_storage::compaction_filter::CollectionCompactionFilterSupplier;
use nimbis_storage::compaction_filter::FilterDecision;
use nimbis_storage::compaction_filter::FilterRow;
use nimbis_storage::compaction_filter::RowValue;
use nimbis_storage::data_type::DataType;
use nimbis_storage::meta::HashMetaValue;
use nimbis_storage::meta::ListMetaValue;
use nimbis_storage::meta::SetMetaValue;
use nimbis_storage::meta::StringValue;
use nimbis_storage::meta::ZSetMetaValue;
use nimbis_storage::top_level_key::TopLevelKey;

fn filter(data_type: DataType) -> CollectionCompactionFilter {
	CollectionCompactionFilter::new(data_type, 1_000, None)
}

fn row(key: Vec<u8>, value: RowValue, seq: u64, expire_ts: Option<i64>) -> FilterRow {
	FilterRow {
		key,
		value,
		seq,
		expire_ts,
	}
}

fn meta_key(user_key: &[u8]) -> Vec<u8> {
	TopLevelKey::new(user_key.to_vec()).unwrap().encode()
}

fn sub_key(data_type: DataType, user_key: &[u8], suffix: &[u8]) -> Vec<u8> {
	let mut encoded = Vec::new();
	encoded.extend_from_slice(&(user_key.len() as u16).to_be_bytes());
	encoded.extend_from_slice(user_key);
	match data_type {
		DataType::Hash | DataType::SetType => {
			encoded.extend_from_slice(&(suffix.len() as u32).to_be_bytes());
			encoded.extend_from_slice(suffix);
		}
		DataType::List => encoded.extend_from_slice(&1u64.to_be_bytes()),
		DataType::ZSet => {
			encoded.push(b'M');
			encoded.extend_from_slice(&(suffix.len() as u32).to_be_bytes());
			encoded.extend_from_slice(suffix);
		}
		DataType::String => unreachable!(),
	}
	encoded
}

#[test]
fn metadata_row_is_kept_and_controls_generation_for_every_collection() {
	let cases = [
		(DataType::Hash, HashMetaValue::new(10, 1).encode()),
		(DataType::List, ListMetaValue::new(10).encode()),
		(DataType::SetType, SetMetaValue::new(10, 1).encode()),
		(DataType::ZSet, ZSetMetaValue::new(10, 1).encode()),
	];

	for (data_type, encoded_meta) in cases {
		let key = b"collection";
		let mut filter = filter(data_type);
		let meta = row(meta_key(key), RowValue::Value(encoded_meta), 20, None);
		assert_eq!(filter.filter(&meta), FilterDecision::Keep);

		let stale = row(sub_key(data_type, key, b"field"), RowValue::Value(Vec::new()), 9, None);
		assert_eq!(filter.filter(&stale), FilterDecision::Tombstone);

		let current = row(sub_key(data_type, key, b"current"), RowValue::Value(Vec::new()), 10, None);
		assert_eq!(filter.filter(&current), FilterDecision::Keep);
	}
}

#[test]
fn pending_generation_uses_metadata_commit_sequence() {
	let key = b"pending";
	let mut filter = filter(DataType::Hash);
	let meta = row(
		meta_key(key),
		RowValue::Value(HashMetaValue::new(0, 1).encode()),
		42,
		None,
	);
	filter.filter(&meta);

	let stale = row(sub_key(DataType::Hash, key, b"old"), RowValue::Value(Vec::new()), 41, None);
	assert_eq!(filter.filter(&stale), FilterDecision::Tombstone);
	let current = row(sub_key(DataType::Hash, key, b"new"), RowValue::Value(Vec::new()), 42, None);
	assert_eq!(filter.filter(&current), FilterDecision::Keep);
}

#[test]
fn missing_metadata_in_compaction_input_fails_open() {
	let key = b"missing-meta";
	let entry = row(sub_key(DataType::SetType, key, b"field"), RowValue::Value(Vec::new()), 1, None);
	assert_eq!(filter(DataType::SetType).filter(&entry), FilterDecision::Keep);
}

#[test]
fn older_metadata_versions_do_not_override_the_newest() {
	let key = b"versions";
	let mut filter = filter(DataType::Hash);
	let newest = row(
		meta_key(key),
		RowValue::Value(HashMetaValue::new(100, 1).encode()),
		100,
		None,
	);
	let older = row(meta_key(key), RowValue::Value(HashMetaValue::new(1, 1).encode()), 1, None);
	filter.filter(&newest);
	filter.filter(&older);

	let stale = row(sub_key(DataType::Hash, key, b"old"), RowValue::Value(Vec::new()), 50, None);
	assert_eq!(filter.filter(&stale), FilterDecision::Tombstone);
}

#[test]
fn deletion_barrier_only_reclaims_older_rows() {
	let key = b"deleted";
	let mut filter = filter(DataType::SetType);
	let deleted_meta = row(meta_key(key), RowValue::Tombstone, 20, None);
	filter.filter(&deleted_meta);

	let older = row(sub_key(DataType::SetType, key, b"older"), RowValue::Value(Vec::new()), 19, None);
	assert_eq!(filter.filter(&older), FilterDecision::Tombstone);
	let same_batch = row(
		sub_key(DataType::SetType, key, b"same-batch"),
		RowValue::Value(Vec::new()),
		20,
		None,
	);
	assert_eq!(filter.filter(&same_batch), FilterDecision::Tombstone);
	let newer = row(sub_key(DataType::SetType, key, b"newer"), RowValue::Value(Vec::new()), 21, None);
	assert_eq!(filter.filter(&newer), FilterDecision::Keep);
}

#[test]
fn retention_boundary_uses_an_older_snapshot_safe_cutoff() {
	let key = b"snapshot";
	let mut filter = CollectionCompactionFilter::new(DataType::Hash, 1_000, Some(50));

	let newer_than_snapshot = row(
		meta_key(key),
		RowValue::Value(HashMetaValue::new(100, 1).encode()),
		100,
		None,
	);
	let visible_to_snapshot = row(
		meta_key(key),
		RowValue::Value(HashMetaValue::new(20, 1).encode()),
		40,
		None,
	);
	filter.filter(&newer_than_snapshot);
	filter.filter(&visible_to_snapshot);

	let stale = row(sub_key(DataType::Hash, key, b"stale"), RowValue::Value(Vec::new()), 19, None);
	assert_eq!(filter.filter(&stale), FilterDecision::Tombstone);
	let snapshot_visible = row(
		sub_key(DataType::Hash, key, b"visible"),
		RowValue::Value(Vec::new()),
		20,
		None,
	);
	assert_eq!(filter.filter(&snapshot_visible), FilterDecision::Keep);
}

#[test]
fn expiration_and_string_replacement_create_sequence_barriers() {
	let key = b"barrier";
	let subkey = row(sub_key(DataType::SetType, key, b"member"), RowValue::Value(Vec::new()), 1, None);

	let mut expired_filter = filter(DataType::SetType);
	let expired_meta = row(
		meta_key(key),
		RowValue::Value(SetMetaValue::new(1, 1).encode()),
		2,
		Some(999),
	);
	expired_filter.filter(&expired_meta);
	assert_eq!(expired_filter.filter(&subkey), FilterDecision::Tombstone);

	let mut string_filter = filter(DataType::Hash);
	let string_meta = row(
		meta_key(key),
		RowValue::Value(StringValue::new(b"replacement".to_vec()).encode()),
		2,
		None,
	);
	string_filter.filter(&string_meta);
	assert_eq!(string_filter.filter(&subkey), FilterDecision::Tombstone);
}

#[test]
fn reclaimed_rows_are_counted() {
	let key = b"counted";
	let mut filter = filter(DataType::Hash);
	filter.filter(&row(meta_key(key), RowValue::Tombstone, 5, None));
	assert_eq!(filter.reclaimed_count(), 0);
	filter.filter(&row(sub_key(DataType::Hash, key, b"a"), RowValue::Value(Vec::new()), 3, None));
	filter.filter(&row(sub_key(DataType::Hash, key, b"b"), RowValue::Value(Vec::new()), 6, None));
	assert_eq!(filter.reclaimed_count(), 1);
}

#[test]
fn sub_keys_of_another_user_key_are_not_reclaimed() {
	let mut filter = filter(DataType::Hash);
	filter.filter(&row(meta_key(b"a"), RowValue::Tombstone, 50, None));
	let other = row(sub_key(DataType::Hash, b"b", b"f"), RowValue::Value(Vec::new()), 1, None);
	assert_eq!(filter.filter(&other), FilterDecision::Keep);
}

#[test]
fn malformed_sub_key_is_kept() {
	let key = b"malformed";
	let mut filter = filter(DataType::Hash);
	filter.filter(&row(meta_key(key), RowValue::Tombstone, 50, None));
	let mut bad = sub_key(DataType::Hash, key, b"field");
	bad.push(0);
	assert_eq!(filter.filter(&row(bad, RowValue::Value(Vec::new()), 1, None)), FilterDecision::Keep);
}

#[test]
fn supplier_creates_a_fresh_filter_for_its_type() {
	let supplier = CollectionCompactionFilterSupplier::new(DataType::ZSet);
	let filter = supplier.create_compaction_filter(77, Some(3));
	assert_eq!(filter.data_type, DataType::ZSet);
	assert_eq!(filter.reclaimed_count(), 0);
	assert_eq!(filter.strongest_cutoff(), None);
}
