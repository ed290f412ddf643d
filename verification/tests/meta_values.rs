use nimbis_storage::meta::AnyValue;
use nimbis_storage::meta::HashMetaValue;
use nimbis_storage::meta::ListMetaValue;
use nimbis_storage::meta::SetMetaValue;
use nimbis_storage::meta::StringValue;
use nimbis_storage::meta::ZSetMetaValue;
use nimbis_storage::data_type::DataType;
use nimbis_storage::error::DecoderError;

#[test]
fn test_hash_meta_value_encode() {
	let val = HashMetaValue::new_with_ttl(1, 10, 123456789);
	let encoded = val.encode();
	assert_eq!(encoded.len(), 25);
	assert_eq!(encoded[0], b'h');
	assert_eq!(&encoded[1..9], &1u64.to_be_bytes());
	assert_eq!(&encoded[9..17], &10u64.to_be_bytes());
	assert_eq!(&encoded[17..25], &123456789u64.to_be_bytes());
}

#[test]
fn test_hash_meta_value_decode() {
	let val = HashMetaValue::new_with_ttl(1, 12345, 987654321);
	let encoded = val.encode();
	let decoded = HashMetaValue::decode(&encoded).unwrap();
	assert_eq!(decoded, val);
}

#[test]
fn test_hash_meta_value_new() {
	let val = HashMetaValue::new(1, 100);
	assert_eq!(val.version, 1);
	assert_eq!(val.len, 100);
	assert_eq!(val.expire_time, 0);

	let encoded = val.encode();
	let decoded = HashMetaValue::decode(&encoded).unwrap();
	assert_eq!(decoded, val);
	assert_eq!(decoded.expire_time, 0);
}

#[test]
fn test_set_meta_value_encode() {
	let val = SetMetaValue::new_with_ttl(1, 5, 111222333);
	let encoded = val.encode();
	assert_eq!(encoded.len(), 25);
	assert_eq!(encoded[0], b'S');
	assert_eq!(&encoded[1..9], &1u64.to_be_bytes());
	assert_eq!(&encoded[9..17], &5u64.to_be_bytes());
	assert_eq!(&encoded[17..25], &111222333u64.to_be_bytes());
}

#[test]
fn test_set_meta_value_decode() {
	let val = SetMetaValue::new_with_ttl(1, 555, 999888);
	let encoded = val.encode();
	let decoded = SetMetaValue::decode(&encoded).unwrap();
	assert_eq!(decoded, val);
}

#[test]
fn test_set_meta_value_new() {
	let val = SetMetaValue::new(1, 50);
	assert_eq!(val.version, 1);
	assert_eq!(val.len, 50);
	assert_eq!(val.expire_time, 0);

	let encoded = val.encode();
	let decoded = SetMetaValue::decode(&encoded).unwrap();
	assert_eq!(decoded, val);
}

#[test]
fn test_list_meta_value_encode_decode() {
	let mut val = ListMetaValue::new(1);
	val.len = 5;
	val.head = 100;
	val.tail = 105;
	val.expire_time = 123456789;

	let encoded = val.encode();
	let decoded = ListMetaValue::decode(&encoded).unwrap();
	assert_eq!(decoded, val);
}

#[test]
fn test_list_meta_value_new() {
	let val = ListMetaValue::new(1);
	assert_eq!(val.version, 1);
	assert_eq!(val.len, 0);
	assert!(val.head > 0);
	assert_eq!(val.head, val.tail);
}

#[test]
fn test_zset_meta_value_encode() {
	let val = ZSetMetaValue::new_with_ttl(1, 5, 111222333);
	let encoded = val.encode();
	assert_eq!(encoded.len(), 25);
	assert_eq!(encoded[0], b'z');
	assert_eq!(&encoded[1..9], &1u64.to_be_bytes());
	assert_eq!(&encoded[9..17], &5u64.to_be_bytes());
	assert_eq!(&encoded[17..25], &111222333u64.to_be_bytes());
}

#[test]
fn test_zset_meta_value_decode() {
	let val = ZSetMetaValue::new_with_ttl(1, 555, 999888);
	let encoded = val.encode();
	let decoded = ZSetMetaValue::decode(&encoded).unwrap();
	assert_eq!(decoded, val);
}

#[test]
fn meta_decoders_reject_short_and_mistagged_rows() {
	assert_eq!(
		HashMetaValue::decode(&[b'h'; 24]),
		Err(DecoderError::InvalidLength)
	);
	let set_row = SetMetaValue::new(1, 1).encode();
	assert_eq!(
		HashMetaValue::decode(&set_row),
		Err(DecoderError::InvalidType)
	);
	assert_eq!(
		ListMetaValue::decode(&HashMetaValue::new(1, 1).encode()),
		Err(DecoderError::InvalidLength)
	);
}

#[test]
fn any_value_dispatches_on_the_tag_byte() {
	let string = StringValue::new(b"value".to_vec()).encode();
	assert_eq!(string, b"svalue".to_vec());
	let decoded = AnyValue::decode(&string).unwrap();
	assert_eq!(decoded.data_type(), DataType::String);
	assert_eq!(decoded.version(), None);
	assert_eq!(decoded.encode(), string);

	let mut hash = AnyValue::decode(&HashMetaValue::new(0, 3).encode()).unwrap();
	assert_eq!(hash.version(), Some(0));
	hash.set_version(42);
	hash.set_expire_time(7);
	assert_eq!(hash, AnyValue::Hash(HashMetaValue::new_with_ttl(42, 3, 7)));
	assert_eq!(hash.expire_time(), 7);

	assert_eq!(AnyValue::decode(&[]), Err(DecoderError::Empty));
	assert_eq!(AnyValue::decode(b"x"), Err(DecoderError::InvalidType));
	assert_eq!(StringValue::decode(&[]), Err(DecoderError::Empty));
}
