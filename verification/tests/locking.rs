use std::hash::Hash;
use std::hash::Hasher;
use nimbis_storage::data_type::DataType;
use nimbis_storage::lock::DEFAULT_KEY_LOCK_STRIPES;
use nimbis_storage::lock::KEY_LOCK_NAMESPACE_COUNT;
use nimbis_storage::lock::KeyLockIdentity;
use nimbis_storage::lock::KeyMode;
use nimbis_storage::lock::StorageLock;
use nimbis_storage::lock::StorageLockMode;
use nimbis_storage::lock::data_type_namespace;
use nimbis_storage::lock::lock_stripe;
use nimbis_storage::lock::ordered_key_stripes;
use nimbis_storage::lock::stripe_index;

fn keys(names: &[&[u8]]) -> Vec<Vec<u8>> {
	names.iter().map(|k| k.to_vec()).collect()
}

#[test]
fn global_write_lock_holds_no_keys() {
	let lock = StorageLock::global_write();
	assert_eq!(lock.mode, StorageLockMode::GlobalWrite);
	assert!(lock.read_keys.is_empty());
	assert!(lock.write_keys.is_empty());
}

#[test]
fn key_locks_keep_their_keys_in_order() {
	let lock = StorageLock::write_keys(DataType::Hash, keys(&[b"a", b"b"]));
	assert_eq!(lock.mode, StorageLockMode::Keys);
	assert!(lock.read_keys.is_empty());
	assert_eq!(lock.write_keys.len(), 2);
	assert_eq!(lock.write_keys[0].key, b"a".to_vec());
	assert_eq!(lock.write_keys[1].key, b"b".to_vec());
	assert_eq!(lock.write_keys[1].data_type, DataType::Hash);

	let lock = StorageLock::read_keys(DataType::String, keys(&[b"k"]));
	assert_eq!(lock.read_keys.len(), 1);
	assert!(lock.write_keys.is_empty());
}

#[test]
fn namespaces_are_distinct_per_type() {
	let all = [DataType::String, DataType::Hash, DataType::List, DataType::SetType, DataType::ZSet];
	let ns: Vec<usize> = all.iter().map(|t| data_type_namespace(*t)).collect();
	assert_eq!(ns, vec![0, 1, 2, 3, 4]);
	assert!(ns.iter().all(|n| *n < KEY_LOCK_NAMESPACE_COUNT));
}

#[test]
fn stripes_are_stable_and_bounded() {
	for i in 0..=DEFAULT_KEY_LOCK_STRIPES {
		let key = format!("key-{i}").into_bytes();
		let s = stripe_index(&key, DEFAULT_KEY_LOCK_STRIPES);
		assert!(s < DEFAULT_KEY_LOCK_STRIPES);
		assert_eq!(s, stripe_index(&key, DEFAULT_KEY_LOCK_STRIPES));
	}
}

#[test]
fn same_named_keys_in_different_types_use_different_stripes() {
	let s = lock_stripe(&KeyLockIdentity { data_type: DataType::String, key: b"key".to_vec() }, 4096);
	let h = lock_stripe(&KeyLockIdentity { data_type: DataType::Hash, key: b"key".to_vec() }, 4096);
	assert_ne!(s, h);
	assert_eq!(s.1, h.1);
}

#[test]
fn multi_key_locks_use_one_ascending_order() {
	let forward = StorageLock::write_keys(DataType::Hash, keys(&[b"a", b"b", b"c"]));
	let backward = StorageLock::write_keys(DataType::Hash, keys(&[b"c", b"b", b"a"]));
	let f = ordered_key_stripes(&forward, DEFAULT_KEY_LOCK_STRIPES);
	let b = ordered_key_stripes(&backward, DEFAULT_KEY_LOCK_STRIPES);
	assert_eq!(f, b);
	assert!(f.windows(2).all(|w| w[0].0 < w[1].0));
	assert!(f.iter().all(|(_, m)| *m == KeyMode::Write));
}

#[test]
fn repeated_keys_take_their_stripe_once() {
	let lock = StorageLock::read_keys(DataType::String, keys(&[b"k", b"k", b"k"]));
	let stripes = ordered_key_stripes(&lock, DEFAULT_KEY_LOCK_STRIPES);
	assert_eq!(stripes.len(), 1);
	assert_eq!(stripes[0].1, KeyMode::Read);
}

#[test]
fn a_write_wins_over_a_read_of_the_same_stripe() {
	let mut lock = StorageLock::read_keys(DataType::List, keys(&[b"x", b"y"]));
	lock.write_keys = vec![KeyLockIdentity { data_type: DataType::List, key: b"x".to_vec() }];
	let stripes = ordered_key_stripes(&lock, DEFAULT_KEY_LOCK_STRIPES);
	let x = lock_stripe(&lock.write_keys[0], DEFAULT_KEY_LOCK_STRIPES);
	let y = lock_stripe(&lock.read_keys[1], DEFAULT_KEY_LOCK_STRIPES);
	let mode_of = |s| stripes.iter().find(|(t, _)| *t == s).map(|(_, m)| *m);
	assert_eq!(mode_of(x), Some(KeyMode::Write));
	if y != x {
		assert_eq!(mode_of(y), Some(KeyMode::Read));
		assert_eq!(stripes.len(), 2);
	}
}

#[test]
fn a_single_stripe_table_puts_every_key_of_a_type_together() {
	let lock = StorageLock::write_keys(DataType::ZSet, keys(&[b"p", b"q"]));
	let stripes = ordered_key_stripes(&lock, 1);
	assert_eq!(stripes, vec![((4, 0), KeyMode::Write)]);
}

#[test]
fn stripes_follow_the_standard_hash_of_the_key() {
	for key in [b"".to_vec(), b"key".to_vec(), b"another-key".to_vec()] {
		let mut hasher = std::collections::hash_map::DefaultHasher::new();
		key.as_slice().hash(&mut hasher);
		let expected = (hasher.finish() % DEFAULT_KEY_LOCK_STRIPES as u64) as usize;
		assert_eq!(stripe_index(&key, DEFAULT_KEY_LOCK_STRIPES), expected);
	}
}
