//! Errors of the key and value codecs and of the storage layer, with stable codes.
use vstd::prelude::*;
use vstd::string::*;
use crate::decimal::{decimal, format_u64, lemma_decimal};

verus! {

/// Failure to decode a key or a value.
#[derive(Debug, Clone, Copy, PartialEq, Eq, Structural)]
pub enum DecoderError {
    Empty,
    InvalidType,
    InvalidLength,
}

/// Failure of a storage operation.
#[derive(Debug)]
pub enum StorageError {
    /// Database operation failed.
    DatabaseError { message: String },
    /// Encoding or decoding failed.
    DecodeError { source: DecoderError },
    /// I/O operation failed.
    IoError { message: String },
    /// Data inconsistency detected.
    DataInconsistency { message: String },
    /// Object store configuration failed.
    ObjectStoreConfig { message: String },
    /// The user key cannot be represented by the on-disk key codec.
    InvalidKeyLength { length: usize, max: usize },
    /// The absolute expiration exceeds the supported logical deadline.
    InvalidExpiration { timestamp: u64, max: u64 },
}

/// A storage failure without its free-form text.
#[derive(PartialEq, Eq, Structural)]
pub enum ErrorModel {
    Database,
    Decode(DecoderError),
    Io,
    Inconsistent,
    ObjectStoreConfig,
    KeyLength(usize, usize),
    Expiration(u64, u64),
}

pub open spec fn error_model(e: StorageError) -> ErrorModel {
    match e {
        StorageError::DatabaseError { .. } => ErrorModel::Database,
        StorageError::DecodeError { source } => ErrorModel::Decode(source),
        StorageError::IoError { .. } => ErrorModel::Io,
        StorageError::DataInconsistency { .. } => ErrorModel::Inconsistent,
        StorageError::ObjectStoreConfig { .. } => ErrorModel::ObjectStoreConfig,
        StorageError::InvalidKeyLength { length, max } => ErrorModel::KeyLength(length, max),
        StorageError::InvalidExpiration { timestamp, max } => ErrorModel::Expiration(timestamp, max),
    }
}

/// `r` failed, and its failure is `m`.
pub open spec fn fails_with<T>(r: Result<T, StorageError>, m: ErrorModel) -> bool {
    r matches Err(e) && error_model(e) == m
}

/// The stable code of each decoder failure.
pub open spec fn decoder_code(e: DecoderError) -> Seq<char> {
    match e {
        DecoderError::Empty => "E0001"@,
        DecoderError::InvalidType => "E0002"@,
        DecoderError::InvalidLength => "E0003"@,
    }
}

/// The text of each decoder failure.
pub open spec fn decoder_text(e: DecoderError) -> Seq<char> {
    match e {
        DecoderError::Empty => "Empty key, cannot decode"@,
        DecoderError::InvalidType => "Invalid type code"@,
        DecoderError::InvalidLength => "Invalid data length"@,
    }
}

/// The stable code of each storage failure.
pub open spec fn storage_code(e: StorageError) -> Seq<char> {
    match e {
        StorageError::DatabaseError { .. } => "E1000"@,
        StorageError::DecodeError { .. } => "E1002"@,
        StorageError::IoError { .. } => "E1003"@,
        StorageError::DataInconsistency { .. } => "E1004"@,
        StorageError::ObjectStoreConfig { .. } => "E1005"@,
        StorageError::InvalidKeyLength { .. } => "E1006"@,
        StorageError::InvalidExpiration { .. } => "E1007"@,
    }
}

/// The code of a storage failure together with the code it wraps, if any.
pub open spec fn storage_detailed_code(e: StorageError) -> Seq<char> {
    match e {
        StorageError::DecodeError { source } => storage_code(e) + ":"@ + decoder_code(source),
        _ => storage_code(e),
    }
}

/// The decimal text of `n` as characters.
pub open spec fn decimal_text(n: nat) -> Seq<char> {
    decimal(n).map_values(|b: u8| b as char)
}

/// The text of each storage failure.
pub open spec fn storage_text(e: StorageError) -> Seq<char> {
    match e {
        StorageError::DatabaseError { message } => "Database operation failed: "@ + message@,
        StorageError::DecodeError { source } => "Failed to decode data: "@ + decoder_text(source),
        StorageError::IoError { message } => "I/O operation failed: "@ + message@,
        StorageError::DataInconsistency { message } => "Data inconsistency detected: "@ + message@,
        StorageError::ObjectStoreConfig { message } => "Object store configuration failed: "@
            + message@,
        StorageError::InvalidKeyLength { length, max } => "Key length "@ + decimal_text(
            length as nat,
        ) + " exceeds the supported maximum of "@ + decimal_text(max as nat) + " bytes"@,
        StorageError::InvalidExpiration { timestamp, max } => "Expiration timestamp "@
            + decimal_text(timestamp as nat) + " exceeds the supported maximum of "@
            + decimal_text(max as nat) + " milliseconds"@,
    }
}

impl DecoderError {
    /// Returns the unique error code for this error variant.
    pub fn code(&self) -> (r: &'static str)
        ensures
            r@ == decoder_code(*self),
    {
        match self {
            DecoderError::Empty => "E0001",
            DecoderError::InvalidType => "E0002",
            DecoderError::InvalidLength => "E0003",
        }
    }

    /// The human-readable text of this error.
    pub fn to_display_string(&self) -> (r: String)
        ensures
            r@ == decoder_text(*self),
    {
        match self {
            DecoderError::Empty => String::from_str("Empty key, cannot decode"),
            DecoderError::InvalidType => String::from_str("Invalid type code"),
            DecoderError::InvalidLength => String::from_str("Invalid data length"),
        }
    }
}

fn digit_text(d: u8) -> (r: &'static str)
    requires
        d < 10,
    ensures
        r@ == seq![(48 + d) as u8 as char],
{
    proof {
        reveal_strlit("0");
        reveal_strlit("1");
        reveal_strlit("2");
        reveal_strlit("3");
        reveal_strlit("4");
        reveal_strlit("5");
        reveal_strlit("6");
        reveal_strlit("7");
        reveal_strlit("8");
        reveal_strlit("9");
    }
    if d == 0 {
        "0"
    } else if d == 1 {
        "1"
    } else if d == 2 {
        "2"
    } else if d == 3 {
        "3"
    } else if d == 4 {
        "4"
    } else if d == 5 {
        "5"
    } else if d == 6 {
        "6"
    } else if d == 7 {
        "7"
    } else if d == 8 {
        "8"
    } else {
        "9"
    }
}

/// Appends the decimal text of `n`.
pub(crate) fn append_decimal(s: &mut String, n: u64)
    ensures
        final(s)@ == old(s)@ + decimal_text(n as nat),
{
    let digits = format_u64(n);
    proof {
        lemma_decimal(n as nat);
    }
    let mut i: usize = 0;
    while i < digits.len()
        invariant
            digits@ == decimal(n as nat),
            crate::decimal::all_digits(digits@),
            0 <= i <= digits@.len(),
            s@ == old(s)@ + digits@.subrange(0, i as int).map_values(|b: u8| b as char),
        decreases digits@.len() - i,
    {
        let b = digits[i];
        assert(crate::decimal::is_digit(digits@[i as int]));
        s.append(digit_text(b - 48));
        i = i + 1;
        assert(s@ =~= old(s)@ + digits@.subrange(0, i as int).map_values(|b: u8| b as char));
    }
    assert(digits@.subrange(0, i as int) =~= digits@);
}

impl StorageError {
    /// Returns the error code for this error variant.
    pub fn code(&self) -> (r: &'static str)
        ensures
            r@ == storage_code(*self),
    {
        match self {
            StorageError::DatabaseError { .. } => "E1000",
            StorageError::DecodeError { .. } => "E1002",
            StorageError::IoError { .. } => "E1003",
            StorageError::DataInconsistency { .. } => "E1004",
            StorageError::ObjectStoreConfig { .. } => "E1005",
            StorageError::InvalidKeyLength { .. } => "E1006",
            StorageError::InvalidExpiration { .. } => "E1007",
        }
    }

    /// Returns the detailed error code including nested error codes, such as
    /// "E1002:E0001" for a decode failure that wraps `DecoderError::Empty`.
    pub fn detailed_code(&self) -> (r: String)
        ensures
            r@ == storage_detailed_code(*self),
    {
        match self {
            StorageError::DecodeError { source } => {
                String::from_str(self.code()).concat(":").concat(source.code())
            },
            _ => String::from_str(self.code()),
        }
    }

    /// The human-readable text of this error.
    pub fn to_display_string(&self) -> (r: String)
        ensures
            r@ == storage_text(*self),
    {
        match self {
            StorageError::DatabaseError { message } => {
                String::from_str("Database operation failed: ").concat(message.as_str())
            },
            StorageError::DecodeError { source } => {
                let text = source.to_display_string();
                String::from_str("Failed to decode data: ").concat(text.as_str())
            },
            StorageError::IoError { message } => {
                String::from_str("I/O operation failed: ").concat(message.as_str())
            },
            StorageError::DataInconsistency { message } => {
                String::from_str("Data inconsistency detected: ").concat(message.as_str())
            },
            StorageError::ObjectStoreConfig { message } => {
                String::from_str("Object store configuration failed: ").concat(message.as_str())
            },
            StorageError::InvalidKeyLength { length, max } => {
                let mut s = String::from_str("Key length ");
                append_decimal(&mut s, *length as u64);
                s.append(" exceeds the supported maximum of ");
                append_decimal(&mut s, *max as u64);
                s.append(" bytes");
                s
            },
            StorageError::InvalidExpiration { timestamp, max } => {
                let mut s = String::from_str("Expiration timestamp ");
                append_decimal(&mut s, *timestamp);
                s.append(" exceeds the supported maximum of ");
                append_decimal(&mut s, *max);
                s.append(" milliseconds");
                s
            },
        }
    }

    /// A data-inconsistency failure with the given text.
    pub fn inconsistency(message: &str) -> (r: StorageError)
        ensures
            r matches StorageError::DataInconsistency { message: m } && m@ == message@,
    {
        StorageError::DataInconsistency { message: String::from_str(message) }
    }

    /// A database failure with the given text.
    pub fn database(message: String) -> (r: StorageError)
        ensures
            r matches StorageError::DatabaseError { message: m } && m@ == message@,
    {
        StorageError::DatabaseError { message }
    }

    /// An I/O failure with the given text.
    pub fn io(message: String) -> (r: StorageError)
        ensures
            r matches StorageError::IoError { message: m } && m@ == message@,
    {
        StorageError::IoError { message }
    }
}

impl From<DecoderError> for StorageError {
    fn from(err: DecoderError) -> (r: StorageError) {
        StorageError::DecodeError { source: err }
    }
}

impl vstd::std_specs::convert::FromSpecImpl<DecoderError> for StorageError {
    open spec fn obeys_from_spec() -> bool {
        true
    }

    open spec fn from_spec(err: DecoderError) -> StorageError {
        StorageError::DecodeError { source: err }
    }
}

/// Distinct decoder failures have distinct codes.
pub proof fn lemma_decoder_codes_unique(a: DecoderError, b: DecoderError)
    requires
        a != b,
    ensures
        decoder_code(a) != decoder_code(b),
{
    reveal_strlit("E0001");
    reveal_strlit("E0002");
    reveal_strlit("E0003");
    assert("E0001"@[4] != "E0002"@[4]);
    assert("E0001"@[4] != "E0003"@[4]);
    assert("E0002"@[4] != "E0003"@[4]);
}

/// The kind of a storage failure, as a number.
pub open spec fn storage_kind(e: StorageError) -> int {
    match e {
        StorageError::DatabaseError { .. } => 0,
        StorageError::DecodeError { .. } => 2,
        StorageError::IoError { .. } => 3,
        StorageError::DataInconsistency { .. } => 4,
        StorageError::ObjectStoreConfig { .. } => 5,
        StorageError::InvalidKeyLength { .. } => 6,
        StorageError::InvalidExpiration { .. } => 7,
    }
}

proof fn lemma_storage_code_digit(e: StorageError)
    ensures
        storage_code(e).len() == 5,
        storage_code(e)[4] == (48 + storage_kind(e)) as char,
{
    reveal_strlit("E1000");
    reveal_strlit("E1002");
    reveal_strlit("E1003");
    reveal_strlit("E1004");
    reveal_strlit("E1005");
    reveal_strlit("E1006");
    reveal_strlit("E1007");
}

/// Storage failures of distinct kinds have distinct codes.
pub proof fn lemma_storage_codes_unique(a: StorageError, b: StorageError)
    requires
        storage_kind(a) != storage_kind(b),
    ensures
        storage_code(a) != storage_code(b),
{
    lemma_storage_code_digit(a);
    lemma_storage_code_digit(b);
}

} // verus!
