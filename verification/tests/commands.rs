use nimbis_storage::collection_ops::hmget_values;
use nimbis_storage::collection_ops::MetadataChange;
use nimbis_storage::collection_ops::ScannedRow;
use nimbis_storage::collection_ops::collect_hash_fields;
use nimbis_storage::collection_ops::collect_set_members;
use nimbis_storage::collection_ops::plan_hdel;
use nimbis_storage::collection_ops::plan_hset_existing;
use nimbis_storage::collection_ops::plan_hset_new;
use nimbis_storage::collection_ops::plan_sadd;
use nimbis_storage::collection_ops::plan_srem;
use nimbis_storage::collection_ops::visible_value;
use nimbis_storage::data_type::DataType;
use nimbis_storage::dedup::first_occurrences_of;
use nimbis_storage::dedup::last_value_per_name;
use nimbis_storage::error::StorageError;
use nimbis_storage::expiration::Ttl;
use nimbis_storage::keyspace_ops::ExpireAction;
use nimbis_storage::keyspace_ops::LoadedRow;
use nimbis_storage::keyspace_ops::StoredRow;
use nimbis_storage::keyspace_ops::classify_row_at;
use nimbis_storage::keyspace_ops::encode_distinct_keys;
use nimbis_storage::keyspace_ops::plan_expire;
use nimbis_storage::keyspace_ops::remaining_ttl;
use nimbis_storage::list_ops::plan_list_pop;
use nimbis_storage::list_ops::plan_list_push;
use nimbis_storage::list_ops::plan_lrange;
use nimbis_storage::list_ops::popped_values;
use nimbis_storage::list_ops::validate_list_meta;
use nimbis_storage::list_ops::visible_values;
use nimbis_storage::meta::AnyValue;
use nimbis_storage::meta::HashMetaValue;
use nimbis_storage::meta::LIST_MIDPOINT;
use nimbis_storage::meta::ListMetaValue;
use nimbis_storage::meta::SetMetaValue;
use nimbis_storage::meta::StringValue;
use nimbis_storage::string_ops::append_value;
use nimbis_storage::string_ops::apply_counter;
use nimbis_storage::sub_keys::HashFieldKey;
use nimbis_storage::sub_keys::SetMemberKey;
use nimbis_storage::sub_keys::user_key_prefix;
use nimbis_storage::top_level_key::TopLevelKey;

fn list_meta(head: u64, tail: u64) -> ListMetaValue {
	ListMetaValue {
		version: 7,
		len: tail - head,
		head,
		tail,
		expire_time: 0,
	}
}

#[test]
fn hset_into_a_new_hash_adds_every_field_with_pending_generation() {
	let w = plan_hset_new(3);
	assert_eq!(w.added, 3);
	assert_eq!(w.meta, HashMetaValue::new(0, 3));
}

#[test]
fn hset_counts_only_fields_that_were_not_visible() {
	let meta = HashMetaValue::new_with_ttl(5, 2, 99);
	let w = plan_hset_existing(meta, &vec![true, false, false]).unwrap();
	assert_eq!(w.added, 2);
	assert_eq!(w.meta, HashMetaValue::new_with_ttl(5, 4, 99));

	let full = HashMetaValue::new(5, u64::MAX);
	assert!(matches!(
		plan_hset_existing(full, &vec![false]),
		Err(StorageError::DataInconsistency { .. })
	));
}

#[test]
fn hdel_shrinks_or_removes_the_hash() {
	let meta = HashMetaValue::new(4, 3);
	let none = plan_hdel(meta, &vec![false, false]).unwrap();
	assert_eq!(none.deleted, 0);
	assert_eq!(none.change, None);

	let some = plan_hdel(meta, &vec![true, false, true]).unwrap();
	assert_eq!(some.deleted, 2);
	assert_eq!(some.change, Some(MetadataChange::Put(HashMetaValue::new(4, 1))));

	let all = plan_hdel(meta, &vec![true, true, true]).unwrap();
	assert_eq!(all.deleted, 3);
	assert_eq!(all.change, Some(MetadataChange::Delete));

	let short = HashMetaValue::new(4, 1);
	assert!(matches!(
		plan_hdel(short, &vec![true, true]),
		Err(StorageError::DataInconsistency { .. })
	));
}

#[test]
fn sub_key_values_older_than_the_generation_are_invisible() {
	assert_eq!(visible_value(Some((10, b"v".to_vec())), 10), Some(b"v".to_vec()));
	assert_eq!(visible_value(Some((9, b"v".to_vec())), 10), None);
	assert_eq!(visible_value(None, 0), None);
}

#[test]
fn hgetall_reads_visible_fields_until_the_prefix_ends() {
	let prefix = user_key_prefix(b"h");
	let field = |name: &[u8]| HashFieldKey::new(b"h".to_vec(), name.to_vec()).encode().unwrap();
	let rows = vec![
		ScannedRow { key: field(b"a"), seq: 5, value: b"1".to_vec() },
		ScannedRow { key: field(b"b"), seq: 4, value: b"old".to_vec() },
		ScannedRow { key: field(b"c"), seq: 6, value: b"3".to_vec() },
		ScannedRow { key: HashFieldKey::new(b"i".to_vec(), b"x".to_vec()).encode().unwrap(), seq: 9, value: b"other".to_vec() },
	];
	let fields = collect_hash_fields(&prefix, 5, &rows);
	assert_eq!(fields, vec![(b"a".to_vec(), b"1".to_vec()), (b"c".to_vec(), b"3".to_vec())]);
}

#[test]
fn sadd_on_a_missing_set_adds_every_member() {
	let plan = plan_sadd(None, &vec![false, false]).unwrap();
	assert_eq!(plan.added, 2);
	assert_eq!(plan.add, vec![true, true]);
	assert_eq!(plan.meta, Some(SetMetaValue::new(0, 2)));
}

#[test]
fn sadd_writes_only_new_members() {
	let meta = SetMetaValue::new(3, 1);
	let plan = plan_sadd(Some(meta), &vec![true, false]).unwrap();
	assert_eq!(plan.added, 1);
	assert_eq!(plan.add, vec![false, true]);
	assert_eq!(plan.meta, Some(SetMetaValue::new(3, 2)));

	let nothing = plan_sadd(Some(meta), &vec![true]).unwrap();
	assert_eq!(nothing.added, 0);
	assert_eq!(nothing.meta, None);
}

#[test]
fn srem_shrinks_or_removes_the_set() {
	let meta = SetMetaValue::new(3, 2);
	assert_eq!(plan_srem(meta, &vec![false]).unwrap().change, None);
	let one = plan_srem(meta, &vec![true, false]).unwrap();
	assert_eq!(one.removed, 1);
	assert_eq!(one.change, Some(MetadataChange::Put(SetMetaValue::new(3, 1))));
	let both = plan_srem(meta, &vec![true, true]).unwrap();
	assert_eq!(both.change, Some(MetadataChange::Delete));
	assert!(plan_srem(SetMetaValue::new(3, 1), &vec![true, true]).is_err());
}

#[test]
fn smembers_reads_visible_members() {
	let prefix = user_key_prefix(b"s");
	let member = |m: &[u8]| SetMemberKey::new(b"s".to_vec(), m.to_vec()).encode().unwrap();
	let rows = vec![
		ScannedRow { key: member(b"x"), seq: 2, value: Vec::new() },
		ScannedRow { key: member(b"y"), seq: 1, value: Vec::new() },
		ScannedRow { key: member(b"z"), seq: 3, value: Vec::new() },
	];
	assert_eq!(collect_set_members(&prefix, 2, &rows), vec![b"x".to_vec(), b"z".to_vec()]);
}

#[test]
fn duplicate_arguments_are_collapsed() {
	let items = vec![b"a".to_vec(), b"b".to_vec(), b"a".to_vec(), b"c".to_vec(), b"b".to_vec()];
	assert_eq!(first_occurrences_of(&items), vec![b"a".to_vec(), b"b".to_vec(), b"c".to_vec()]);

	let pairs = vec![
		(b"f".to_vec(), b"1".to_vec()),
		(b"g".to_vec(), b"2".to_vec()),
		(b"f".to_vec(), b"3".to_vec()),
	];
	assert_eq!(
		last_value_per_name(pairs),
		vec![(b"f".to_vec(), b"3".to_vec()), (b"g".to_vec(), b"2".to_vec())]
	);
}

#[test]
fn list_metadata_must_be_consistent() {
	assert!(validate_list_meta(&list_meta(10, 12)).is_ok());
	let mut bad = list_meta(10, 12);
	bad.len = 5;
	assert!(matches!(validate_list_meta(&bad), Err(StorageError::DataInconsistency { .. })));
	assert!(validate_list_meta(&ListMetaValue::new(1)).is_err());
}

#[test]
fn lpush_and_rpush_assign_sequences_at_the_ends() {
	let left = plan_list_push(None, 3, true).unwrap();
	assert_eq!(left.seqs, vec![LIST_MIDPOINT - 1, LIST_MIDPOINT - 2, LIST_MIDPOINT - 3]);
	assert_eq!(left.meta.len, 3);
	assert_eq!(left.meta.head, LIST_MIDPOINT - 3);
	assert_eq!(left.meta.tail, LIST_MIDPOINT);

	let right = plan_list_push(Some(list_meta(10, 12)), 2, false).unwrap();
	assert_eq!(right.seqs, vec![12, 13]);
	assert_eq!(right.meta, list_meta(10, 14));

	assert!(plan_list_push(Some(list_meta(1, 2)), 2, true).is_err());
}

#[test]
fn pop_takes_from_the_requested_end() {
	let meta = list_meta(10, 14);
	let left = plan_list_pop(meta, Some(2), true).unwrap().unwrap();
	assert_eq!(left.seqs, vec![10, 11]);
	assert_eq!(left.change, MetadataChange::Put(list_meta(12, 14)));

	let right = plan_list_pop(meta, None, false).unwrap().unwrap();
	assert_eq!(right.seqs, vec![13]);

	let all = plan_list_pop(meta, Some(10), true).unwrap().unwrap();
	assert_eq!(all.seqs, vec![10, 11, 12, 13]);
	assert_eq!(all.change, MetadataChange::Delete);

	assert!(plan_list_pop(meta, Some(0), true).unwrap().is_none());
}

#[test]
fn push_then_pop_on_the_same_end_is_last_in_first_out() {
	let base = list_meta(100, 103);
	let pushed = plan_list_push(Some(base), 2, true).unwrap();
	let popped = plan_list_pop(pushed.meta, Some(2), true).unwrap().unwrap();
	assert_eq!(popped.seqs, vec![pushed.seqs[1], pushed.seqs[0]]);
	assert_eq!(popped.change, MetadataChange::Put(base));
}

#[test]
fn popped_elements_must_all_be_visible() {
	let entries = vec![Some((5, b"a".to_vec())), Some((6, b"b".to_vec()))];
	assert_eq!(popped_values(&entries, 5).unwrap(), vec![b"a".to_vec(), b"b".to_vec()]);
	let missing = vec![Some((5, b"a".to_vec())), None];
	assert!(popped_values(&missing, 5).is_err());
	assert!(popped_values(&entries, 6).is_err());
}

#[test]
fn lrange_clamps_negative_and_out_of_range_indices() {
	let meta = list_meta(100, 105);
	assert_eq!(plan_lrange(&meta, 0, -1).unwrap(), Some((100, 104)));
	assert_eq!(plan_lrange(&meta, -2, 10).unwrap(), Some((103, 104)));
	assert_eq!(plan_lrange(&meta, 3, 1).unwrap(), None);
	assert_eq!(plan_lrange(&meta, -100, 0).unwrap(), Some((100, 100)));
	let entries = vec![Some((7, b"x".to_vec())), None, Some((6, b"old".to_vec())), Some((8, b"y".to_vec()))];
	assert_eq!(visible_values(&entries, 7), vec![b"x".to_vec(), b"y".to_vec()]);
}

#[test]
fn incr_and_decr_follow_redis_rules() {
	let (n, text) = apply_counter(None, true).unwrap();
	assert_eq!(n, 1);
	assert_eq!(text, b"1".to_vec());
	let (n, text) = apply_counter(Some(&b"-5".to_vec()), false).unwrap();
	assert_eq!(n, -6);
	assert_eq!(text, b"-6".to_vec());
	match apply_counter(Some(&b"abc".to_vec()), true) {
		Err(StorageError::DataInconsistency { message }) => {
			assert_eq!(message, "ERR value is not an integer or out of range")
		}
		other => panic!("unexpected {other:?}"),
	}
	match apply_counter(Some(&i64::MAX.to_string().into_bytes()), true) {
		Err(StorageError::DataInconsistency { message }) => {
			assert_eq!(message, "ERR increment or decrement would overflow")
		}
		other => panic!("unexpected {other:?}"),
	}
	assert!(matches!(
		apply_counter(Some(&vec![0xff, 0xfe]), true),
		Err(StorageError::DecodeError { .. })
	));
}

#[test]
fn append_concatenates_or_starts_fresh() {
	assert_eq!(append_value(Some(&b"ab".to_vec()), b"cd"), b"abcd".to_vec());
	assert_eq!(append_value(None, b"cd"), b"cd".to_vec());
}

#[test]
fn rows_are_classified_as_missing_expired_or_live() {
	assert!(matches!(classify_row_at(None, DataType::String, 0), Ok(LoadedRow::Missing)));
	let value = StringValue::new(b"v".to_vec()).encode();
	let live = StoredRow { value: value.clone(), seq: 1, expire_ts: Some(2_000) };
	assert!(matches!(classify_row_at(Some(live), DataType::String, 1_000), Ok(LoadedRow::Live(_))));
	let expired = StoredRow { value: value.clone(), seq: 1, expire_ts: Some(500) };
	assert!(matches!(classify_row_at(Some(expired), DataType::String, 1_000), Ok(LoadedRow::Expired)));
	let wrong = StoredRow { value, seq: 1, expire_ts: None };
	assert!(classify_row_at(Some(wrong), DataType::Hash, 1_000).is_err());
}

#[test]
fn expire_in_the_past_deletes_and_in_the_future_rewrites() {
	let value = AnyValue::Hash(HashMetaValue::new(3, 1));
	assert!(matches!(plan_expire(value, 500, 1_000), Ok(ExpireAction::Delete)));
	let value = AnyValue::Hash(HashMetaValue::new(3, 1));
	match plan_expire(value, 5_000, 1_000) {
		Ok(ExpireAction::Rewrite { value: AnyValue::Hash(m), ttl }) => {
			assert_eq!(m.expire_time, 5_000);
			assert_eq!(ttl, Ttl::ExpireAfter(4_000));
		}
		_ => panic!("expected a rewrite"),
	}
}

#[test]
fn ttl_reports_remaining_time_or_no_deadline() {
	assert_eq!(remaining_ttl(None, 100), -1);
	assert_eq!(remaining_ttl(Some(1_500), 1_000), 500);
	assert_eq!(remaining_ttl(Some(900), 1_000), 0);
}

#[test]
fn del_encodes_each_key_once() {
	let keys = vec![b"a".to_vec(), b"b".to_vec(), b"a".to_vec()];
	let encoded = encode_distinct_keys(&keys).unwrap();
	assert_eq!(
		encoded,
		vec![
			TopLevelKey::new(b"a".to_vec()).unwrap().encode(),
			TopLevelKey::new(b"b".to_vec()).unwrap().encode()
		]
	);
	assert!(matches!(
		encode_distinct_keys(&vec![vec![0u8; 70_000]]),
		Err(StorageError::InvalidKeyLength { .. })
	));
}

#[test]
fn incr_then_decr_gives_back_the_starting_text() {
	for start in [-7i64, 0, 41, i64::MAX - 1] {
		let text = start.to_string().into_bytes();
		let (up, up_text) = apply_counter(Some(&text), true).unwrap();
		assert_eq!(up, start + 1);
		let (down, down_text) = apply_counter(Some(&up_text), false).unwrap();
		assert_eq!(down, start);
		assert_eq!(down_text, text);
	}
}

#[test]
fn full_lrange_reads_the_whole_list() {
	let meta = list_meta(40, 47);
	assert_eq!(plan_lrange(&meta, 0, -1).unwrap(), Some((40, 46)));
}

#[test]
fn hmget_gives_what_hget_gives_for_each_field() {
	let entries = vec![Some((5, b"v2".to_vec())), Some((4, b"stale".to_vec())), None, Some((9, b"x".to_vec()))];
	let values = hmget_values(&entries, 5);
	assert_eq!(values, vec![Some(b"v2".to_vec()), None, None, Some(b"x".to_vec())]);
	for (entry, value) in entries.into_iter().zip(values) {
		assert_eq!(visible_value(entry, 5), value);
	}
	assert!(hmget_values(&Vec::new(), 0).is_empty());
}

#[test]
fn hset_overflow_names_the_hash_metadata_length() {
	let full = HashMetaValue::new(5, u64::MAX);
	match plan_hset_existing(full, &vec![true, false]) {
		Err(StorageError::DataInconsistency { message }) => {
			assert_eq!(message, "hash metadata length overflow")
		}
		_ => panic!("expected an overflow"),
	}
}

#[test]
fn a_string_read_back_holds_the_bytes_that_were_set() {
	for value in [Vec::new(), b"plain".to_vec(), "multi-byte \u{1F600}".as_bytes().to_vec()] {
		let row = StoredRow { value: StringValue::new(value.clone()).encode(), seq: 9, expire_ts: None };
		match classify_row_at(Some(row), DataType::String, 1_000) {
			Ok(LoadedRow::Live(n)) => match n.value {
				AnyValue::String(s) => assert_eq!(s.value, value),
				_ => panic!("expected a string"),
			},
			_ => panic!("expected a live row"),
		}
	}
}
