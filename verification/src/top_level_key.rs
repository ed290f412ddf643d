//! The validated user key that starts every row: a big-endian `u16` length, then the key.
use vstd::prelude::*;
use crate::codec::{be_u16, push_bytes, push_u16, read_u16, u16_of, copy_range, lemma_be_u16};
use crate::error::{DecoderError, StorageError};
use crate::key_range::{KeyBound, prefix_successor, prefix_upper_bound, range_contains,
    is_proper_prefix, lemma_sub_key_range};

verus! {

/// The largest encoded key that the key codec can represent.
pub const MAX_ENCODED_KEY_LEN: usize = 65535;

/// The largest user key that leaves room for its two length bytes.
pub const MAX_USER_KEY_LEN: usize = 65533;

/// The encoded form of a user key: its length as a big-endian `u16`, then its bytes.
pub open spec fn key_prefix(user_key: Seq<u8>) -> Seq<u8> {
    be_u16(user_key.len() as u16) + user_key
}

/// What decoding the user-key prefix of `s` gives: the user key and the bytes after it.
pub open spec fn decode_prefix_spec(s: Seq<u8>) -> Result<(Seq<u8>, Seq<u8>), DecoderError> {
    if s.len() < 2 {
        Err(DecoderError::InvalidLength)
    } else {
        let n = u16_of(s) as int;
        if n > MAX_USER_KEY_LEN || s.len() - 2 < n {
            Err(DecoderError::InvalidLength)
        } else {
            Ok((s.subrange(2, 2 + n), s.subrange(2 + n, s.len() as int)))
        }
    }
}

/// What checking an encoded key length gives.
pub open spec fn encoded_len_ok(length: int) -> bool {
    length <= MAX_ENCODED_KEY_LEN
}

/// Fails with `InvalidKeyLength` when an encoded key of `length` bytes is too long.
pub fn ensure_encoded_key_len(length: usize) -> (r: Result<(), StorageError>)
    ensures
        r is Ok <==> length <= MAX_ENCODED_KEY_LEN,
        r matches Err(e) ==> e matches StorageError::InvalidKeyLength { length: l, max: m }
            && l == length && m == MAX_ENCODED_KEY_LEN,
{
    if length > MAX_ENCODED_KEY_LEN {
        return Err(StorageError::InvalidKeyLength { length, max: MAX_ENCODED_KEY_LEN });
    }
    Ok(())
}

/// A user key that the key codec can represent.
#[derive(Debug, PartialEq, Eq)]
pub struct TopLevelKey {
    user_key: Vec<u8>,
}

impl View for TopLevelKey {
    type V = Seq<u8>;

    open spec fn view(&self) -> Seq<u8> {
        self.spec_user_key()
    }
}

impl TopLevelKey {
    pub closed spec fn spec_user_key(&self) -> Seq<u8> {
        self.user_key@
    }

    #[verifier::type_invariant]
    closed spec fn inv(self) -> bool {
        self.user_key@.len() <= MAX_USER_KEY_LEN
    }

    /// Validates `user_key`; fails when it is longer than `MAX_USER_KEY_LEN`.
    pub fn new(user_key: Vec<u8>) -> (r: Result<TopLevelKey, StorageError>)
        ensures
            r is Ok <==> user_key@.len() <= MAX_USER_KEY_LEN,
            r matches Ok(k) ==> k@ == user_key@,
            r matches Err(e) ==> e matches StorageError::InvalidKeyLength { length: l, max: m }
                && l == user_key@.len() && m == MAX_USER_KEY_LEN,
    {
        if user_key.len() > MAX_USER_KEY_LEN {
            return Err(
                StorageError::InvalidKeyLength { length: user_key.len(), max: MAX_USER_KEY_LEN },
            );
        }
        Ok(TopLevelKey { user_key })
    }

    /// The user key.
    pub fn user_key(&self) -> (r: &Vec<u8>)
        ensures
            r@ == self@,
            r@.len() <= MAX_USER_KEY_LEN,
    {
        proof {
            use_type_invariant(self);
        }
        &self.user_key
    }

    /// Splits an encoded key into its user key and the bytes after it.
    pub fn decode_prefix(encoded: &[u8]) -> (r: Result<(Vec<u8>, Vec<u8>), DecoderError>)
        ensures
            match decode_prefix_spec(encoded@) {
                Ok((k, t)) => r matches Ok((k2, t2)) && k2@ == k && t2@ == t,
                Err(e) => r == Err::<(Vec<u8>, Vec<u8>), DecoderError>(e),
            },
    {
        if encoded.len() < 2 {
            return Err(DecoderError::InvalidLength);
        }
        let key_len = read_u16(encoded, 0) as usize;
        assert(encoded@.subrange(0, 2)[0] == encoded@[0]);
        assert(encoded@.subrange(0, 2)[1] == encoded@[1]);
        if key_len > MAX_USER_KEY_LEN || encoded.len() - 2 < key_len {
            return Err(DecoderError::InvalidLength);
        }
        let user_key = copy_range(encoded, 2, 2 + key_len);
        let suffix = copy_range(encoded, 2 + key_len, encoded.len());
        Ok((user_key, suffix))
    }

    /// Decodes an encoded key that holds nothing after the user key.
    pub fn decode_exact(encoded: &[u8]) -> (r: Result<TopLevelKey, DecoderError>)
        ensures
            match decode_prefix_spec(encoded@) {
                Ok((k, t)) => if t.len() == 0 {
                    r matches Ok(key) && key@ == k
                } else {
                    r == Err::<TopLevelKey, DecoderError>(DecoderError::InvalidLength)
                },
                Err(e) => r == Err::<TopLevelKey, DecoderError>(e),
            },
    {
        let (user_key, suffix) = Self::decode_prefix(encoded)?;
        if suffix.len() != 0 {
            return Err(DecoderError::InvalidLength);
        }
        Ok(TopLevelKey { user_key })
    }

    /// The encoded key: the length of the user key as a big-endian `u16`, then the user key.
    pub fn encode(&self) -> (r: Vec<u8>)
        ensures
            r@ == key_prefix(self@),
            r@.len() == self@.len() + 2,
    {
        proof {
            use_type_invariant(self);
            lemma_be_u16(self.user_key@.len() as u16);
        }
        let mut encoded: Vec<u8> = Vec::new();
        push_u16(&mut encoded, self.user_key.len() as u16);
        push_bytes(&mut encoded, self.user_key.as_slice());
        encoded
    }

    /// Fails with `InvalidKeyLength` when this key followed by `suffix_len` bytes
    /// would be longer than `MAX_ENCODED_KEY_LEN`.
    pub fn ensure_suffix_len(&self, suffix_len: usize) -> (r: Result<(), StorageError>)
        ensures
            r is Ok <==> 2 + self@.len() + suffix_len <= MAX_ENCODED_KEY_LEN,
            r matches Err(e) ==> e matches StorageError::InvalidKeyLength { length: l, max: m }
                && m == MAX_ENCODED_KEY_LEN && l > MAX_ENCODED_KEY_LEN
                && (l == 2 + self@.len() + suffix_len || (l == usize::MAX && 2 + self@.len()
                + suffix_len > usize::MAX)),
    {
        proof {
            use_type_invariant(self);
        }
        let prefix_len = 2 + self.user_key.len();
        match prefix_len.checked_add(suffix_len) {
            Some(encoded_len) => ensure_encoded_key_len(encoded_len),
            None => Err(StorageError::InvalidKeyLength { length: usize::MAX, max: MAX_ENCODED_KEY_LEN }),
        }
    }

    /// This key followed by `suffix`, when that fits the key codec.
    pub fn with_suffix(&self, suffix: &[u8]) -> (r: Result<Vec<u8>, StorageError>)
        ensures
            r is Ok <==> 2 + self@.len() + suffix@.len() <= MAX_ENCODED_KEY_LEN,
            r matches Ok(v) ==> v@ == key_prefix(self@) + suffix@,
            r matches Err(e) ==> e is InvalidKeyLength,
    {
        self.ensure_suffix_len(suffix.len())?;
        let mut encoded = self.encode();
        push_bytes(&mut encoded, suffix);
        Ok(encoded)
    }

    /// The range holding every sub-key of this key and nothing else: from the
    /// encoded key followed by a zero byte, up to the successor of the encoded key.
    pub fn sub_key_range(&self) -> (r: Result<(KeyBound, KeyBound), StorageError>)
        ensures
            r is Ok <==> self@.len() + 3 <= MAX_ENCODED_KEY_LEN,
            r matches Err(e) ==> e matches StorageError::InvalidKeyLength { length: l, max: m }
                && l == self@.len() + 3 && m == MAX_ENCODED_KEY_LEN,
            r matches Ok((lo, hi)) ==> (forall|s: Seq<u8>|
                #[trigger] range_contains(lo, hi, s) <==> is_proper_prefix(key_prefix(self@), s)),
    {
        proof {
            use_type_invariant(self);
        }
        let prefix = self.encode();
        ensure_encoded_key_len(prefix.len() + 1)?;
        let mut start = prefix.clone();
        start.push(0);
        let end = prefix_upper_bound(prefix.as_slice());
        let lo = KeyBound::Included(start);
        proof {
            assert(prefix@ == key_prefix(self@));
            assert forall|s: Seq<u8>|
                #[trigger] range_contains(lo, end, s) <==> is_proper_prefix(key_prefix(self@), s) by {
                lemma_sub_key_range(prefix@, s);
            }
        }
        Ok((lo, end))
    }
}

/// Decoding an encoded key gives back the key, and nothing after it.
pub proof fn lemma_encode_decode(user_key: Seq<u8>, suffix: Seq<u8>)
    requires
        user_key.len() <= MAX_USER_KEY_LEN,
    ensures
        decode_prefix_spec(key_prefix(user_key) + suffix) == Ok::<(Seq<u8>, Seq<u8>), DecoderError>(
            (user_key, suffix),
        ),
{
    let n = user_key.len() as u16;
    lemma_be_u16(n);
    let s = key_prefix(user_key) + suffix;
    assert(s =~= be_u16(n) + (user_key + suffix));
    assert(u16_of(s) == n);
    assert(s.subrange(2, 2 + n as int) =~= user_key);
    assert(s.subrange(2 + n as int, s.len() as int) =~= suffix);
}

/// A decoded prefix re-encodes to the bytes it was read from.
pub proof fn lemma_decode_encode(s: Seq<u8>)
    requires
        decode_prefix_spec(s) is Ok,
    ensures
        decode_prefix_spec(s) matches Ok((k, t)) && key_prefix(k) + t == s,
{
    crate::codec::lemma_u16_of_prefix(s);
    let n = u16_of(s) as int;
    let k = s.subrange(2, 2 + n);
    assert(k.len() as u16 == u16_of(s));
    assert(key_prefix(k) + s.subrange(2 + n, s.len() as int) =~= s);
}

/// The user key of an encoded metadata key whose length prefix covers exactly
/// the rest of the bytes (whatever that length is).
pub open spec fn exact_meta_key_spec(s: Seq<u8>) -> Option<Seq<u8>> {
    if s.len() >= 2 && s.len() - 2 == u16_of(s) as int {
        Some(s.subrange(2, s.len() as int))
    } else {
        None
    }
}

/// The user key of `encoded` when its length prefix covers exactly the rest.
pub fn decode_exact_meta_key(encoded: &[u8]) -> (r: Option<Vec<u8>>)
    ensures
        match exact_meta_key_spec(encoded@) {
            Some(k) => r matches Some(v) && v@ == k,
            None => r is None,
        },
{
    if encoded.len() < 2 {
        return None;
    }
    let key_len = read_u16(encoded, 0) as usize;
    assert(encoded@.subrange(0, 2)[0] == encoded@[0]);
    assert(encoded@.subrange(0, 2)[1] == encoded@[1]);
    if encoded.len() - 2 != key_len {
        return None;
    }
    Some(copy_range(encoded, 2, encoded.len()))
}

} // verus!
