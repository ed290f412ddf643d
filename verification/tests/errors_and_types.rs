use std::collections::HashSet;

use nimbis_storage::data_type::DataType;
use nimbis_storage::error::DecoderError;
use nimbis_storage::error::StorageError;
use nimbis_storage::expiration::validate_expiration;
use nimbis_storage::expiration::validate_row_expiration;
use nimbis_storage::expiration::MAX_EXPIRATION_TIMESTAMP_MS;
use nimbis_storage::expiration::MAX_ROW_EXPIRATION_TIMESTAMP_MS;

#[test]
fn parses_protocol_type_names_case_insensitively() {
	assert_eq!(DataType::from_name(b"STRING"), Some(DataType::String));
	assert_eq!(DataType::from_name(b"hash"), Some(DataType::Hash));
	assert_eq!(DataType::from_name(b"LiSt"), Some(DataType::List));
	assert_eq!(DataType::from_name(b"SET"), Some(DataType::SetType));
	assert_eq!(DataType::from_name(b"zset"), Some(DataType::ZSet));
	assert_eq!(DataType::from_name(b"stream"), None);
}

#[test]
fn type_tags_round_trip() {
	for data_type in [
		DataType::String,
		DataType::Hash,
		DataType::List,
		DataType::SetType,
		DataType::ZSet,
	] {
		assert_eq!(DataType::from_u8(data_type.tag()), Some(data_type));
	}
	assert_eq!(DataType::Hash.tag(), b'h');
	assert_eq!(DataType::SetType.tag(), b'S');
	assert_eq!(DataType::from_u8(b'x'), None);
}

#[test]
fn test_error_codes() {
	assert_eq!(DecoderError::Empty.code(), "E0001");
	assert_eq!(DecoderError::InvalidType.code(), "E0002");
	assert_eq!(DecoderError::InvalidLength.code(), "E0003");
}

#[test]
fn test_error_codes_unique() {
	let codes = [
		DecoderError::Empty.code(),
		DecoderError::InvalidType.code(),
		DecoderError::InvalidLength.code(),
	];
	let unique_codes: HashSet<_> = codes.iter().collect();
	assert_eq!(
		codes.len(),
		unique_codes.len(),
		"Error codes must be unique"
	);
}

#[test]
fn test_error_messages() {
	assert_eq!(
		DecoderError::Empty.to_display_string(),
		"Empty key, cannot decode"
	);
	assert_eq!(
		DecoderError::InvalidType.to_display_string(),
		"Invalid type code"
	);
	assert_eq!(
		DecoderError::InvalidLength.to_display_string(),
		"Invalid data length"
	);
}

#[test]
fn test_storage_error_codes() {
	let db_err = StorageError::DatabaseError {
		message: "test error".into(),
	};
	assert_eq!(db_err.code(), "E1000");

	let decode_err = StorageError::from(DecoderError::Empty);
	assert_eq!(decode_err.code(), "E1002");

	let io_err = StorageError::io(
		std::io::Error::new(std::io::ErrorKind::NotFound, "not found").to_string(),
	);
	assert_eq!(io_err.code(), "E1003");

	let inconsistency_err = StorageError::DataInconsistency {
		message: "test".into(),
	};
	assert_eq!(inconsistency_err.code(), "E1004");

	let object_store_err = StorageError::ObjectStoreConfig {
		message: "test".into(),
	};
	assert_eq!(object_store_err.code(), "E1005");

	let invalid_expiration = StorageError::InvalidExpiration {
		timestamp: u64::MAX,
		max: MAX_EXPIRATION_TIMESTAMP_MS,
	};
	assert_eq!(invalid_expiration.code(), "E1007");
}

#[test]
fn test_detailed_error_code() {
	let decode_err = StorageError::from(DecoderError::Empty);
	assert_eq!(decode_err.detailed_code(), "E1002:E0001");

	let decode_err2 = StorageError::from(DecoderError::InvalidType);
	assert_eq!(decode_err2.detailed_code(), "E1002:E0002");

	let db_err = StorageError::DatabaseError {
		message: "test".into(),
	};
	assert_eq!(db_err.detailed_code(), "E1000");
}

#[test]
fn test_storage_error_codes_unique() {
	let codes = [
		"E1000", "E1002", "E1003", "E1004", "E1005", "E1006", "E1007",
	];
	let unique_codes: HashSet<_> = codes.iter().collect();
	assert_eq!(
		codes.len(),
		unique_codes.len(),
		"StorageError codes must be unique"
	);
	let errors = [
		StorageError::DatabaseError { message: String::new() },
		StorageError::DecodeError { source: DecoderError::Empty },
		StorageError::IoError { message: String::new() },
		StorageError::DataInconsistency { message: String::new() },
		StorageError::ObjectStoreConfig { message: String::new() },
		StorageError::InvalidKeyLength { length: 0, max: 0 },
		StorageError::InvalidExpiration { timestamp: 0, max: 0 },
	];
	for (error, code) in errors.iter().zip(codes) {
		assert_eq!(error.code(), code);
	}
}

#[test]
fn test_from_decoder_error() {
	let decoder_err = DecoderError::Empty;
	let storage_err: StorageError = decoder_err.into();

	assert_eq!(storage_err.code(), "E1002");
	assert_eq!(storage_err.detailed_code(), "E1002:E0001");
}

#[test]
fn test_from_io_error() {
	let io_err = std::io::Error::new(std::io::ErrorKind::PermissionDenied, "access denied");
	let storage_err: StorageError = StorageError::io(io_err.to_string());

	assert_eq!(storage_err.code(), "E1003");
	assert!(storage_err.to_display_string().contains("access denied"));
}

#[test]
fn storage_error_texts_name_their_values() {
	let error = StorageError::InvalidKeyLength {
		length: 65536,
		max: 65533,
	};
	assert_eq!(
		error.to_display_string(),
		"Key length 65536 exceeds the supported maximum of 65533 bytes"
	);
	let error = StorageError::InvalidExpiration {
		timestamp: 0,
		max: MAX_EXPIRATION_TIMESTAMP_MS,
	};
	assert_eq!(
		error.to_display_string(),
		"Expiration timestamp 0 exceeds the supported maximum of 253402214399999 milliseconds"
	);
	let error = StorageError::from(DecoderError::InvalidLength);
	assert_eq!(
		error.to_display_string(),
		"Failed to decode data: Invalid data length"
	);
}

#[test]
fn validates_the_supported_expiration_boundary() {
	assert!(validate_expiration(0).is_ok());
	assert!(validate_expiration(MAX_EXPIRATION_TIMESTAMP_MS).is_ok());
	assert!(matches!(
		validate_expiration(MAX_EXPIRATION_TIMESTAMP_MS + 1),
		Err(StorageError::InvalidExpiration {
			timestamp,
			max: MAX_EXPIRATION_TIMESTAMP_MS,
		}) if timestamp == MAX_EXPIRATION_TIMESTAMP_MS + 1
	));
}

#[test]
fn validates_the_row_expiration_headroom_boundary() {
	assert!(validate_row_expiration(None).is_ok());
	assert!(validate_row_expiration(Some(MAX_ROW_EXPIRATION_TIMESTAMP_MS as i64)).is_ok());
	assert!(matches!(
		validate_row_expiration(Some((MAX_ROW_EXPIRATION_TIMESTAMP_MS + 1) as i64)),
		Err(StorageError::InvalidExpiration { .. })
	));
	assert!(matches!(
		validate_row_expiration(Some(-1)),
		Err(StorageError::DataInconsistency { .. })
	));
}
