use nimbis_storage::error::DecoderError;
use nimbis_storage::error::StorageError;
use nimbis_storage::key_range::range_contains_key;
use nimbis_storage::key_range::KeyBound;
use nimbis_storage::sub_keys::decode_score_bits;
use nimbis_storage::sub_keys::encode_score_bits;
use nimbis_storage::sub_keys::user_key_prefix;
use nimbis_storage::sub_keys::user_key_sub_key_range;
use nimbis_storage::sub_keys::zset_score_user_key_prefix;
use nimbis_storage::sub_keys::HashFieldKey;
use nimbis_storage::sub_keys::ListElementKey;
use nimbis_storage::sub_keys::MemberKey;
use nimbis_storage::sub_keys::ScoreKey;
use nimbis_storage::sub_keys::SetMemberKey;
use nimbis_storage::sub_keys::StringKey;
use nimbis_storage::top_level_key::TopLevelKey;
use nimbis_storage::top_level_key::MAX_ENCODED_KEY_LEN;
use nimbis_storage::top_level_key::MAX_USER_KEY_LEN;

fn contains(range: &(KeyBound, KeyBound), key: &[u8]) -> bool {
	range_contains_key(&range.0, &range.1, key)
}

#[test]
fn exact_codec_round_trips_the_maximum_key() {
	let key = TopLevelKey::new(vec![b'k'; MAX_USER_KEY_LEN]).unwrap();
	let decoded = TopLevelKey::decode_exact(&key.encode()).unwrap();
	assert_eq!(decoded, key);
}

#[test]
fn rejects_unrepresentable_keys() {
	let error = TopLevelKey::new(vec![b'k'; MAX_USER_KEY_LEN + 1]).unwrap_err();
	assert!(matches!(
		error,
		StorageError::InvalidKeyLength {
			length,
			max: MAX_USER_KEY_LEN
		} if length == MAX_USER_KEY_LEN + 1
	));
}

#[test]
fn decoder_rejects_an_oversized_user_key_prefix() {
	let oversized_len = MAX_USER_KEY_LEN + 1;
	let mut encoded = Vec::with_capacity(2 + oversized_len);
	encoded.extend_from_slice(&(oversized_len as u16).to_be_bytes());
	encoded.resize(2 + oversized_len, b'k');
	assert!(matches!(
		TopLevelKey::decode_exact(&encoded),
		Err(DecoderError::InvalidLength)
	));
}

#[test]
fn top_level_key_sub_key_range_excludes_metadata_and_neighboring_keys() {
	let key = TopLevelKey::new(b"hash".to_vec()).unwrap();
	let encoded = key.encode();
	let range = key.sub_key_range().unwrap();
	assert!(!contains(&range, &encoded));
	assert!(contains(&range, &key.with_suffix(&[0]).unwrap()));

	let neighbor = TopLevelKey::new(b"hash:neighbor".to_vec())
		.unwrap()
		.encode();
	assert!(!contains(&range, &neighbor));
}

#[test]
fn utils_sub_key_range_excludes_metadata_and_neighboring_keys() {
	let key = b"hash".to_vec();
	let prefix = user_key_prefix(&key);
	let range = user_key_sub_key_range(&key);
	assert!(!contains(&range, &prefix));

	let mut empty_field = prefix.clone();
	empty_field.extend_from_slice(&0u32.to_be_bytes());
	assert!(contains(&range, &empty_field));

	let neighbor = user_key_prefix(b"hash:neighbor");
	assert!(!contains(&range, &neighbor));
}

#[test]
fn sub_key_range_upper_bound_skips_trailing_max_bytes() {
	let range = user_key_sub_key_range(&[0xff, 0xff]);
	assert_eq!(range.0, KeyBound::Included(vec![0, 2, 0xff, 0xff, 0]));
	assert_eq!(range.1, KeyBound::Excluded(vec![0, 3]));
	assert!(contains(&range, &[0, 2, 0xff, 0xff, 7]));
	assert!(!contains(&range, &[0, 3]));
	assert_eq!(zset_score_user_key_prefix(b"z"), vec![0, 1, b'z', b'S']);
}

#[test]
fn test_encode() {
	for (key, expected) in [
		("mykey", &b"\x00\x05mykey"[..]),
		("something else", &b"\x00\x0esomething else"[..]),
	] {
		let key = StringKey::new(key.as_bytes().to_vec());
		assert_eq!(&key.encode()[..], expected);
	}
}

#[test]
fn test_decode() {
	for (encoded, expected) in [
		(&b"\x00\x05mykey"[..], "mykey"),
		(&b"\x00\x0esomething else"[..], "something else"),
	] {
		let key = StringKey::decode(encoded).unwrap();
		assert_eq!(key.user_key, expected.as_bytes().to_vec());
	}
}

#[test]
fn test_decode_empty() {
	let encoded = b"";
	let err = StringKey::decode(encoded).unwrap_err();
	assert!(matches!(err, DecoderError::InvalidLength));
}

#[test]
fn test_hash_field_key_encode() {
	for (key, field) in [("user", "field"), ("key", "f")] {
		let field_key = HashFieldKey::new(key.as_bytes().to_vec(), field.as_bytes().to_vec());
		let encoded = field_key.encode().unwrap();
		assert_eq!(&encoded[..2], &(key.len() as u16).to_be_bytes());
		assert_eq!(&encoded[2..2 + key.len()], key.as_bytes());
		let decoded = HashFieldKey::decode(&encoded).unwrap();
		assert_eq!(decoded.field(), &field.as_bytes().to_vec());
	}
}

#[test]
fn rejects_a_field_that_makes_the_composite_key_too_long() {
	let field_key = HashFieldKey::new(b"key".to_vec(), vec![b'f'; MAX_ENCODED_KEY_LEN]);

	let error = field_key.encode().unwrap_err();
	assert!(matches!(
		error,
		StorageError::InvalidKeyLength {
			length,
			max: MAX_ENCODED_KEY_LEN
		} if length > MAX_ENCODED_KEY_LEN
	));
}

#[test]
fn test_list_element_key_encode() {
	for (key, seq) in [("mykey", 100u64), ("key", 255u64)] {
		let element_key = ListElementKey::new(key.as_bytes().to_vec(), seq);
		let encoded = element_key.encode().unwrap();
		assert_eq!(&encoded[..2], &(key.len() as u16).to_be_bytes());
		assert_eq!(&encoded[2..2 + key.len()], key.as_bytes());
		assert_eq!(
			&encoded[2 + key.len()..2 + key.len() + 8],
			&seq.to_be_bytes()
		);
		assert_eq!(
			ListElementKey::decode(&encoded).unwrap(),
			ListElementKey::new(key.as_bytes().to_vec(), seq)
		);
	}
}

#[test]
fn test_set_member_key_encode() {
	for (key, member) in [("user", "member"), ("key", "m")] {
		let member_key = SetMemberKey::new(key.as_bytes().to_vec(), member.as_bytes().to_vec());
		let encoded = member_key.encode().unwrap();
		assert_eq!(&encoded[..2], &(key.len() as u16).to_be_bytes());
		assert_eq!(&encoded[2..2 + key.len()], key.as_bytes());
		assert_eq!(SetMemberKey::decode(&encoded).unwrap(), member_key);
	}
}

#[test]
fn zset_member_and_score_keys_round_trip() {
	let member_key = MemberKey::new(b"z".to_vec(), b"m".to_vec());
	let encoded = member_key.encode().unwrap();
	assert_eq!(encoded, b"\x00\x01zM\x00\x00\x00\x01m".to_vec());
	assert_eq!(MemberKey::decode(&encoded).unwrap(), member_key);

	let score_key = ScoreKey::new(b"z".to_vec(), 1.5f64.to_bits(), b"m".to_vec());
	let encoded = score_key.encode().unwrap();
	assert_eq!(encoded[3], b'S');
	assert_eq!(ScoreKey::decode(&encoded).unwrap(), score_key);
	assert_eq!(
		MemberKey::decode(&encoded),
		Err(DecoderError::InvalidLength)
	);
}

#[test]
fn test_encode_decode_roundtrip() {
	for score in [
		f64::NEG_INFINITY,
		-1e308,
		-1000.0,
		-1.0,
		-0.1,
		-0.0,
		0.0,
		0.1,
		1.0,
		1000.0,
		1e308,
		f64::INFINITY,
		f64::MIN,
		f64::MAX,
	] {
		let encoded = encode_score_bits(score.to_bits());
		let decoded = f64::from_bits(decode_score_bits(encoded));
		assert_eq!(score, decoded);
	}
}

#[test]
fn test_byte_sortable_order() {
	let scores = vec![
		f64::NEG_INFINITY,
		-1000.0,
		-100.0,
		-1.0,
		-0.5,
		0.0,
		0.5,
		1.0,
		100.0,
		1000.0,
		f64::INFINITY,
	];

	let encoded: Vec<u64> = scores.iter().map(|&s| encode_score_bits(s.to_bits())).collect();

	for i in 1..encoded.len() {
		assert!(
			encoded[i - 1] < encoded[i],
			"Order broken: {} ({}) >= {} ({})",
			scores[i - 1],
			encoded[i - 1],
			scores[i],
			encoded[i]
		);
	}
}

#[test]
fn test_positive_has_msb_set() {
	for score in [0.0, 1.0, 100.0, f64::MAX, f64::INFINITY] {
		let encoded = encode_score_bits(f64::to_bits(score));
		assert_ne!(encoded & 0x8000_0000_0000_0000, 0);
	}
}

#[test]
fn test_negative_has_msb_unset() {
	for score in [-1.0, -100.0, f64::MIN, f64::NEG_INFINITY] {
		let encoded = encode_score_bits(f64::to_bits(score));
		assert_eq!(encoded & 0x8000_0000_0000_0000, 0);
	}
}

#[test]
fn sub_key_range_of_a_maximal_key_reports_the_encoded_length() {
	let key = TopLevelKey::new(vec![b'k'; MAX_USER_KEY_LEN]).unwrap();
	assert!(matches!(
		key.sub_key_range(),
		Err(StorageError::InvalidKeyLength { length: 65536, max: 65535 })
	));
	let shorter = TopLevelKey::new(vec![b'k'; MAX_USER_KEY_LEN - 1]).unwrap();
	assert!(shorter.sub_key_range().is_ok());
}
