//! Keys of the rows that hold collection members: the owner's encoded key, then a
//! type-specific suffix.
use vstd::prelude::*;
use crate::codec::{
    be_u32, be_u64, push_bytes, push_u32, push_u64, push_u16, read_u32, read_u64, read_u16, u32_of,
    u64_of, u16_of, be_u16, copy_range, lemma_be_u32, lemma_be_u64, lemma_be_u16,
};
use crate::error::{DecoderError, StorageError, ErrorModel, error_model};
use crate::key_range::KeyBound;
use crate::top_level_key::{
    TopLevelKey, key_prefix, decode_prefix_spec, MAX_USER_KEY_LEN, MAX_ENCODED_KEY_LEN,
    lemma_encode_decode,
};

verus! {

/// `x`, or `usize::MAX` when `x` does not fit in a `usize`.
pub open spec fn clamp_usize(x: int) -> usize {
    if x <= usize::MAX {
        x as usize
    } else {
        usize::MAX
    }
}

/// What encoding the key of `user_key` followed by `suffix_len` bytes of `suffix` gives.
pub open spec fn composite_key_spec(user_key: Seq<u8>, suffix: Seq<u8>) -> Result<Seq<u8>, ErrorModel> {
    if user_key.len() > MAX_USER_KEY_LEN {
        Err(ErrorModel::KeyLength(user_key.len() as usize, MAX_USER_KEY_LEN))
    } else if 2 + user_key.len() + suffix.len() > MAX_ENCODED_KEY_LEN {
        Err(ErrorModel::KeyLength(clamp_usize((2 + user_key.len() + suffix.len()) as int), MAX_ENCODED_KEY_LEN))
    } else {
        Ok(key_prefix(user_key) + suffix)
    }
}

/// `r` is the outcome that `spec` describes.
pub open spec fn key_result_matches(r: Result<Vec<u8>, StorageError>, spec: Result<Seq<u8>, ErrorModel>) -> bool {
    match spec {
        Ok(s) => r matches Ok(v) && v@ == s,
        Err(m) => r matches Err(e) && error_model(e) == m,
    }
}

/// The suffix of a hash field or set member row: the length as a big-endian `u32`, then the bytes.
pub open spec fn length_prefixed(item: Seq<u8>) -> Seq<u8> {
    be_u32(item.len() as u32) + item
}

/// The suffix of a sorted-set member row.
pub open spec fn zset_member_suffix(member: Seq<u8>) -> Seq<u8> {
    seq![77u8] + length_prefixed(member)
}

/// The suffix of a sorted-set score row.
pub open spec fn zset_score_suffix(score: u64, member: Seq<u8>) -> Seq<u8> {
    seq![83u8] + be_u64(score) + member
}

/// Checks that the key of `user_key` followed by `extra` more bytes than `item`
/// fits the key codec, and returns the validated owner key.
fn validate_composite(user_key: &Vec<u8>, extra: usize, item_len: usize) -> (r: Result<
    TopLevelKey,
    StorageError,
>)
    requires
        extra <= 9,
    ensures
        match composite_key_spec(user_key@, Seq::<u8>::new((extra + item_len) as nat, |i: int| 0u8)) {
            Ok(_) => r matches Ok(k) && k@ == user_key@,
            Err(m) => r matches Err(e) && error_model(e) == m,
        },
{
    let copy = user_key.clone();
    assert(copy@ =~= user_key@);
    let key = TopLevelKey::new(copy)?;
    let suffix_len = match extra.checked_add(item_len) {
        Some(n) => n,
        None => {
            return Err(StorageError::InvalidKeyLength { length: usize::MAX, max: MAX_ENCODED_KEY_LEN });
        },
    };
    key.ensure_suffix_len(suffix_len)?;
    Ok(key)
}

proof fn lemma_spec_len_only(user_key: Seq<u8>, a: Seq<u8>, b: Seq<u8>)
    requires
        a.len() == b.len(),
    ensures
        composite_key_spec(user_key, a) is Ok <==> composite_key_spec(user_key, b) is Ok,
        composite_key_spec(user_key, a) is Err ==> composite_key_spec(user_key, a)
            == composite_key_spec(user_key, b),
{
}

// ---------------------------------------------------------------------------------------

/// The key of one field of a hash.
#[derive(Debug, PartialEq, Eq)]
pub struct HashFieldKey {
    user_key: Vec<u8>,
    field: Vec<u8>,
}

impl View for HashFieldKey {
    type V = (Seq<u8>, Seq<u8>);

    closed spec fn view(&self) -> (Seq<u8>, Seq<u8>) {
        (self.user_key@, self.field@)
    }
}

/// What decoding a row key as a key with a length-prefixed item gives.
pub open spec fn decode_length_prefixed_spec(s: Seq<u8>) -> Result<(Seq<u8>, Seq<u8>), DecoderError> {
    match decode_prefix_spec(s) {
        Err(e) => Err(e),
        Ok((k, t)) => if t.len() < 4 || t.len() - 4 != u32_of(t) {
            Err(DecoderError::InvalidLength)
        } else {
            Ok((k, t.subrange(4, t.len() as int)))
        },
    }
}

fn encode_length_prefixed(user_key: &Vec<u8>, item: &Vec<u8>, tag: Option<u8>) -> (r: Result<Vec<u8>, StorageError>)
    ensures
        key_result_matches(
            r,
            composite_key_spec(
                user_key@,
                match tag {
                    Some(t) => seq![t] + length_prefixed(item@),
                    None => length_prefixed(item@),
                },
            ),
        ),
{
    let extra: usize = match tag {
        Some(_) => 5,
        None => 4,
    };
    let ghost suffix = match tag {
        Some(t) => seq![t] + length_prefixed(item@),
        None => length_prefixed(item@),
    };
    proof {
        lemma_be_u32(item@.len() as u32);
        lemma_spec_len_only(user_key@, suffix, Seq::<u8>::new((extra + item@.len()) as nat, |i: int| 0u8));
    }
    let key = validate_composite(user_key, extra, item.len())?;
    let mut suffix_bytes: Vec<u8> = Vec::new();
    match tag {
        Some(t) => suffix_bytes.push(t),
        None => {},
    }
    push_u32(&mut suffix_bytes, item.len() as u32);
    push_bytes(&mut suffix_bytes, item.as_slice());
    assert(suffix_bytes@ =~= suffix);
    key.with_suffix(suffix_bytes.as_slice())
}

fn decode_length_prefixed(encoded: &[u8]) -> (r: Result<(Vec<u8>, Vec<u8>), DecoderError>)
    ensures
        match decode_length_prefixed_spec(encoded@) {
            Ok((k, f)) => r matches Ok((k2, f2)) && k2@ == k && f2@ == f,
            Err(e) => r matches Err(e2) && e2 == e,
        },
{
    let (user_key, suffix) = TopLevelKey::decode_prefix(encoded)?;
    if suffix.len() < 4 {
        return Err(DecoderError::InvalidLength);
    }
    let item_len = read_u32(suffix.as_slice(), 0) as usize;
    assert(suffix@.subrange(0, 4) =~= suffix@.subrange(0, 4));
    proof {
        let t = suffix@;
        assert(t.subrange(0, 4)[0] == t[0]);
        assert(t.subrange(0, 4)[1] == t[1]);
        assert(t.subrange(0, 4).subrange(2, 4) =~= t.subrange(2, 4));
    }
    if suffix.len() - 4 != item_len {
        return Err(DecoderError::InvalidLength);
    }
    let item = copy_range(suffix.as_slice(), 4, suffix.len());
    Ok((user_key, item))
}

proof fn lemma_u32_of_prefixed(item: Seq<u8>, rest: Seq<u8>)
    requires
        item.len() <= u32::MAX,
    ensures
        u32_of(be_u32(item.len() as u32) + rest) == item.len(),
{
    lemma_be_u32(item.len() as u32);
}

/// Decoding an encoded length-prefixed key gives back its owner key and item.
pub proof fn lemma_length_prefixed_round_trip(user_key: Seq<u8>, item: Seq<u8>)
    requires
        composite_key_spec(user_key, length_prefixed(item)) is Ok,
    ensures
        decode_length_prefixed_spec(key_prefix(user_key) + length_prefixed(item)) == Ok::<
            (Seq<u8>, Seq<u8>),
            DecoderError,
        >((user_key, item)),
{
    lemma_be_u32(item.len() as u32);
    lemma_encode_decode(user_key, length_prefixed(item));
    let t = length_prefixed(item);
    assert(t + Seq::<u8>::empty() =~= t);
    lemma_u32_of_prefixed(item, item);
    assert(t.subrange(4, t.len() as int) =~= item);
}

impl HashFieldKey {
    pub fn new(user_key: Vec<u8>, field: Vec<u8>) -> (r: HashFieldKey)
        ensures
            r@ == (user_key@, field@),
    {
        HashFieldKey { user_key, field }
    }

    /// The owner key, then the field length as a big-endian `u32`, then the field.
    pub fn encode(&self) -> (r: Result<Vec<u8>, StorageError>)
        ensures
            key_result_matches(r, composite_key_spec(self@.0, length_prefixed(self@.1))),
    {
        encode_length_prefixed(&self.user_key, &self.field, None)
    }

    pub fn decode(encoded: &[u8]) -> (r: Result<HashFieldKey, DecoderError>)
        ensures
            match decode_length_prefixed_spec(encoded@) {
                Ok((k, f)) => r matches Ok(key) && key@ == (k, f),
                Err(e) => r matches Err(e2) && e2 == e,
            },
    {
        let (user_key, field) = decode_length_prefixed(encoded)?;
        Ok(HashFieldKey { user_key, field })
    }

    pub fn field(&self) -> (r: &Vec<u8>)
        ensures
            r@ == self@.1,
    {
        &self.field
    }

    pub fn user_key(&self) -> (r: &Vec<u8>)
        ensures
            r@ == self@.0,
    {
        &self.user_key
    }
}

/// The key of one member of a set.
#[derive(Debug, PartialEq, Eq)]
pub struct SetMemberKey {
    user_key: Vec<u8>,
    member: Vec<u8>,
}

impl View for SetMemberKey {
    type V = (Seq<u8>, Seq<u8>);

    closed spec fn view(&self) -> (Seq<u8>, Seq<u8>) {
        (self.user_key@, self.member@)
    }
}

impl SetMemberKey {
    pub fn new(user_key: Vec<u8>, member: Vec<u8>) -> (r: SetMemberKey)
        ensures
            r@ == (user_key@, member@),
    {
        SetMemberKey { user_key, member }
    }

    /// The owner key, then the member length as a big-endian `u32`, then the member.
    pub fn encode(&self) -> (r: Result<Vec<u8>, StorageError>)
        ensures
            key_result_matches(r, composite_key_spec(self@.0, length_prefixed(self@.1))),
    {
        encode_length_prefixed(&self.user_key, &self.member, None)
    }

    pub fn decode(encoded: &[u8]) -> (r: Result<SetMemberKey, DecoderError>)
        ensures
            match decode_length_prefixed_spec(encoded@) {
                Ok((k, m)) => r matches Ok(key) && key@ == (k, m),
                Err(e) => r matches Err(e2) && e2 == e,
            },
    {
        let (user_key, member) = decode_length_prefixed(encoded)?;
        Ok(SetMemberKey { user_key, member })
    }

    pub fn member(&self) -> (r: &Vec<u8>)
        ensures
            r@ == self@.1,
    {
        &self.member
    }
}

/// What decoding a sorted-set member key gives.
pub open spec fn decode_zset_member_spec(s: Seq<u8>) -> Result<(Seq<u8>, Seq<u8>), DecoderError> {
    match decode_prefix_spec(s) {
        Err(e) => Err(e),
        Ok((k, t)) => if t.len() < 5 || t[0] != 77 {
            Err(DecoderError::InvalidLength)
        } else if t.len() - 5 != u32_of(t.drop_first()) {
            Err(DecoderError::InvalidLength)
        } else {
            Ok((k, t.subrange(5, t.len() as int)))
        },
    }
}

/// The key of one member of a sorted set, in the member index.
#[derive(Debug, PartialEq, Eq)]
pub struct MemberKey {
    user_key: Vec<u8>,
    member: Vec<u8>,
}

impl View for MemberKey {
    type V = (Seq<u8>, Seq<u8>);

    closed spec fn view(&self) -> (Seq<u8>, Seq<u8>) {
        (self.user_key@, self.member@)
    }
}

impl MemberKey {
    pub fn new(user_key: Vec<u8>, member: Vec<u8>) -> (r: MemberKey)
        ensures
            r@ == (user_key@, member@),
    {
        MemberKey { user_key, member }
    }

    /// The owner key, then `M`, the member length as a big-endian `u32`, and the member.
    pub fn encode(&self) -> (r: Result<Vec<u8>, StorageError>)
        ensures
            key_result_matches(r, composite_key_spec(self@.0, zset_member_suffix(self@.1))),
    {
        encode_length_prefixed(&self.user_key, &self.member, Some(77))
    }

    pub fn decode(encoded: &[u8]) -> (r: Result<MemberKey, DecoderError>)
        ensures
            match decode_zset_member_spec(encoded@) {
                Ok((k, m)) => r matches Ok(key) && key@ == (k, m),
                Err(e) => r matches Err(e2) && e2 == e,
            },
    {
        let (user_key, suffix) = TopLevelKey::decode_prefix(encoded)?;
        if suffix.len() < 5 || suffix[0] != 77 {
            return Err(DecoderError::InvalidLength);
        }
        let member_len = read_u32(suffix.as_slice(), 1) as usize;
        proof {
            let t = suffix@;
            let d = t.drop_first();
            assert(t.subrange(1, 5)[0] == d[0]);
            assert(t.subrange(1, 5)[1] == d[1]);
            assert(t.subrange(1, 5).subrange(2, 4) =~= d.subrange(2, 4));
        }
        if suffix.len() - 5 != member_len {
            return Err(DecoderError::InvalidLength);
        }
        let member = copy_range(suffix.as_slice(), 5, suffix.len());
        Ok(MemberKey { user_key, member })
    }
}

/// The key of one element of a list, at logical sequence `seq`.
#[derive(Debug, PartialEq, Eq)]
pub struct ListElementKey {
    user_key: Vec<u8>,
    seq: u64,
}

impl View for ListElementKey {
    type V = (Seq<u8>, u64);

    closed spec fn view(&self) -> (Seq<u8>, u64) {
        (self.user_key@, self.seq)
    }
}

/// What decoding a list element key gives.
pub open spec fn decode_list_element_spec(s: Seq<u8>) -> Result<(Seq<u8>, u64), DecoderError> {
    match decode_prefix_spec(s) {
        Err(e) => Err(e),
        Ok((k, t)) => if t.len() != 8 {
            Err(DecoderError::InvalidLength)
        } else {
            Ok((k, u64_of(t)))
        },
    }
}

impl ListElementKey {
    pub fn new(user_key: Vec<u8>, seq: u64) -> (r: ListElementKey)
        ensures
            r@ == (user_key@, seq),
    {
        ListElementKey { user_key, seq }
    }

    /// The owner key, then the sequence as a big-endian `u64`.
    pub fn encode(&self) -> (r: Result<Vec<u8>, StorageError>)
        ensures
            key_result_matches(r, composite_key_spec(self@.0, be_u64(self@.1))),
    {
        proof {
            lemma_be_u64(self.seq);
            lemma_spec_len_only(self.user_key@, be_u64(self.seq), Seq::<u8>::new((8 + 0) as nat, |i: int| 0u8));
        }
        let key = validate_composite(&self.user_key, 8, 0)?;
        let mut suffix: Vec<u8> = Vec::new();
        push_u64(&mut suffix, self.seq);
        assert(suffix@ =~= be_u64(self.seq));
        key.with_suffix(suffix.as_slice())
    }

    pub fn decode(encoded: &[u8]) -> (r: Result<ListElementKey, DecoderError>)
        ensures
            match decode_list_element_spec(encoded@) {
                Ok((k, s)) => r matches Ok(key) && key@ == (k, s),
                Err(e) => r matches Err(e2) && e2 == e,
            },
    {
        let (user_key, suffix) = TopLevelKey::decode_prefix(encoded)?;
        if suffix.len() != 8 {
            return Err(DecoderError::InvalidLength);
        }
        let seq = read_u64(suffix.as_slice(), 0);
        assert(suffix@.subrange(0, 8) =~= suffix@);
        Ok(ListElementKey { user_key, seq })
    }
}

/// Decoding an encoded list element key gives back its owner key and sequence.
pub proof fn lemma_list_element_round_trip(user_key: Seq<u8>, seq: u64)
    requires
        composite_key_spec(user_key, be_u64(seq)) is Ok,
    ensures
        decode_list_element_spec(key_prefix(user_key) + be_u64(seq)) == Ok::<(Seq<u8>, u64), DecoderError>(
            (user_key, seq),
        ),
{
    lemma_be_u64(seq);
    lemma_encode_decode(user_key, be_u64(seq));
    assert(be_u64(seq) + Seq::<u8>::empty() =~= be_u64(seq));
}

pub const SCORE_SIGN_BIT: u64 = 0x8000_0000_0000_0000;

/// The IEEE-754 bits `b` are a NaN.
pub open spec fn f64_bits_nan(b: u64) -> bool {
    b & 0x7FF0_0000_0000_0000 == 0x7FF0_0000_0000_0000 && b & 0x000F_FFFF_FFFF_FFFF != 0
}

/// The float with bits `b` compares `>= 0.0`: it is not a NaN, and it is positive or a zero.
pub open spec fn f64_bits_non_negative(b: u64) -> bool {
    !f64_bits_nan(b) && (b & 0x8000_0000_0000_0000u64 == 0 || b == 0x8000_0000_0000_0000u64)
}

/// Numeric order of the non-NaN floats with bits `a` and `b`; the two zeros are equal.
pub open spec fn f64_bits_lt(a: u64, b: u64) -> bool {
    let a_neg = a & SCORE_SIGN_BIT != 0;
    let b_neg = b & SCORE_SIGN_BIT != 0;
    if a & !SCORE_SIGN_BIT == 0 && b & !SCORE_SIGN_BIT == 0 {
        false
    } else if !a_neg && !b_neg {
        a < b
    } else if a_neg && b_neg {
        a > b
    } else {
        a_neg
    }
}

/// The byte-sortable form of a score: non-negative scores get the sign bit set,
/// negative ones have every bit flipped.
pub open spec fn encode_score_spec(bits: u64) -> u64 {
    if f64_bits_non_negative(bits) {
        bits | SCORE_SIGN_BIT
    } else {
        !bits
    }
}

/// The score bits that a byte-sortable form stands for.
pub open spec fn decode_score_spec(encoded: u64) -> u64 {
    if encoded & SCORE_SIGN_BIT != 0 {
        encoded & !SCORE_SIGN_BIT
    } else {
        !encoded
    }
}

/// Encodes the bits of an `f64` score so that their big-endian bytes sort as the scores do.
pub fn encode_score_bits(bits: u64) -> (r: u64)
    ensures
        r == encode_score_spec(bits),
{
    let nan = bits & 0x7FF0_0000_0000_0000 == 0x7FF0_0000_0000_0000 && bits & 0x000F_FFFF_FFFF_FFFF != 0;
    if !nan && (bits & SCORE_SIGN_BIT == 0 || bits == SCORE_SIGN_BIT) {
        bits | SCORE_SIGN_BIT
    } else {
        !bits
    }
}

/// The bits of the score that a byte-sortable form stands for.
pub fn decode_score_bits(encoded: u64) -> (r: u64)
    ensures
        r == decode_score_spec(encoded),
{
    if encoded & SCORE_SIGN_BIT != 0 {
        encoded & !SCORE_SIGN_BIT
    } else {
        !encoded
    }
}

/// Decoding an encoded score gives back the score, except that negative zero
/// comes back as positive zero.
pub proof fn lemma_score_round_trip(bits: u64)
    requires
        !f64_bits_nan(bits),
    ensures
        bits != SCORE_SIGN_BIT ==> decode_score_spec(encode_score_spec(bits)) == bits,
        bits == SCORE_SIGN_BIT ==> decode_score_spec(encode_score_spec(bits)) == 0,
{
    assert(bits & 0x8000_0000_0000_0000u64 == 0 ==> (bits | 0x8000_0000_0000_0000u64)
        & 0x8000_0000_0000_0000u64 != 0 && (bits | 0x8000_0000_0000_0000u64)
        & !0x8000_0000_0000_0000u64 == bits) by (bit_vector);
    assert(bits & 0x8000_0000_0000_0000u64 != 0 ==> !bits & 0x8000_0000_0000_0000u64 == 0
        && !!bits == bits) by (bit_vector);
    assert(bits == 0x8000_0000_0000_0000u64 ==> (bits | 0x8000_0000_0000_0000u64)
        & !0x8000_0000_0000_0000u64 == 0 && (bits | 0x8000_0000_0000_0000u64)
        & 0x8000_0000_0000_0000u64 != 0) by (bit_vector);
}

/// The encoding keeps the numeric order of scores that are not NaN.
pub proof fn lemma_score_order(a: u64, b: u64)
    requires
        !f64_bits_nan(a),
        !f64_bits_nan(b),
        f64_bits_lt(a, b),
    ensures
        encode_score_spec(a) < encode_score_spec(b),
{
    assert(encode_score_spec(a) < encode_score_spec(b)) by (bit_vector)
        requires
            !f64_bits_nan(a),
            !f64_bits_nan(b),
            f64_bits_lt(a, b),
    ;
}

/// The key of one member of a sorted set, in the score index.
#[derive(Debug, PartialEq, Eq)]
pub struct ScoreKey {
    user_key: Vec<u8>,
    score_bits: u64,
    member: Vec<u8>,
}

impl View for ScoreKey {
    type V = (Seq<u8>, u64, Seq<u8>);

    closed spec fn view(&self) -> (Seq<u8>, u64, Seq<u8>) {
        (self.user_key@, self.score_bits, self.member@)
    }
}

/// What decoding a sorted-set score key gives: owner key, score bits, member.
pub open spec fn decode_score_key_spec(s: Seq<u8>) -> Result<(Seq<u8>, u64, Seq<u8>), DecoderError> {
    match decode_prefix_spec(s) {
        Err(e) => Err(e),
        Ok((k, t)) => if t.len() < 9 || t[0] != 83 {
            Err(DecoderError::InvalidLength)
        } else {
            Ok((k, decode_score_spec(u64_of(t.subrange(1, 9))), t.subrange(9, t.len() as int)))
        },
    }
}

impl ScoreKey {
    /// A score key for the score whose IEEE-754 bits are `score_bits`.
    pub fn new(user_key: Vec<u8>, score_bits: u64, member: Vec<u8>) -> (r: ScoreKey)
        ensures
            r@ == (user_key@, score_bits, member@),
    {
        ScoreKey { user_key, score_bits, member }
    }

    /// The owner key, then `S`, the byte-sortable score as a big-endian `u64`, and the member.
    pub fn encode(&self) -> (r: Result<Vec<u8>, StorageError>)
        ensures
            key_result_matches(
                r,
                composite_key_spec(self@.0, zset_score_suffix(encode_score_spec(self@.1), self@.2)),
            ),
    {
        let encoded_score = encode_score_bits(self.score_bits);
        let ghost suffix = zset_score_suffix(encoded_score, self.member@);
        proof {
            lemma_be_u64(encoded_score);
            lemma_spec_len_only(self.user_key@, suffix, Seq::<u8>::new((9 + self.member@.len()) as nat, |i: int| 0u8));
        }
        let key = validate_composite(&self.user_key, 9, self.member.len())?;
        let mut suffix_bytes: Vec<u8> = Vec::new();
        suffix_bytes.push(83);
        push_u64(&mut suffix_bytes, encoded_score);
        push_bytes(&mut suffix_bytes, self.member.as_slice());
        assert(suffix_bytes@ =~= suffix);
        key.with_suffix(suffix_bytes.as_slice())
    }

    pub fn decode(encoded: &[u8]) -> (r: Result<ScoreKey, DecoderError>)
        ensures
            match decode_score_key_spec(encoded@) {
                Ok((k, b, m)) => r matches Ok(key) && key@ == (k, b, m),
                Err(e) => r matches Err(e2) && e2 == e,
            },
    {
        let (user_key, suffix) = TopLevelKey::decode_prefix(encoded)?;
        if suffix.len() < 9 || suffix[0] != 83 {
            return Err(DecoderError::InvalidLength);
        }
        let score_bits = decode_score_bits(read_u64(suffix.as_slice(), 1));
        let member = copy_range(suffix.as_slice(), 9, suffix.len());
        Ok(ScoreKey { user_key, score_bits, member })
    }

    pub fn score_bits(&self) -> (r: u64)
        ensures
            r == self@.1,
    {
        self.score_bits
    }

    pub fn member(&self) -> (r: &Vec<u8>)
        ensures
            r@ == self@.2,
    {
        &self.member
    }
}

// ---------------------------------------------------------------------------------------

/// The key of a string value: its length as a big-endian `u16`, then its bytes.
#[derive(Debug, PartialEq, Eq)]
pub struct StringKey {
    pub user_key: Vec<u8>,
}

/// The storage prefix of a key: its length as a big-endian `u16`, then its bytes.
pub open spec fn user_key_prefix_spec(key: Seq<u8>) -> Seq<u8> {
    be_u16(key.len() as u16) + key
}

/// What decoding a string key gives: the key that its length prefix selects.
pub open spec fn decode_string_key_spec(s: Seq<u8>) -> Result<Seq<u8>, DecoderError> {
    if s.len() < 2 || s.len() - 2 < u16_of(s) {
        Err(DecoderError::InvalidLength)
    } else {
        Ok(s.subrange(2, 2 + u16_of(s) as int))
    }
}

/// Builds the common storage prefix of `key`: its length as a big-endian `u16`, then its bytes.
pub fn user_key_prefix(key: &[u8]) -> (r: Vec<u8>)
    ensures
        r@ == user_key_prefix_spec(key@),
{
    let mut prefix: Vec<u8> = Vec::new();
    push_u16(&mut prefix, key.len() as u16);
    push_bytes(&mut prefix, key);
    prefix
}

/// Builds the range that holds the collection sub-keys of `key` and not its own
/// metadata key: every sub-key has at least one byte after the prefix.
pub fn user_key_sub_key_range(key: &[u8]) -> (r: (KeyBound, KeyBound))
    ensures
        forall|s: Seq<u8>|
            #[trigger] crate::key_range::range_contains(r.0, r.1, s)
                <==> crate::key_range::is_proper_prefix(user_key_prefix_spec(key@), s),
{
    let prefix = user_key_prefix(key);
    let mut start = prefix.clone();
    assert(start@ =~= prefix@);
    start.push(0);
    let end = crate::key_range::prefix_upper_bound(prefix.as_slice());
    let lo = KeyBound::Included(start);
    proof {
        assert forall|s: Seq<u8>|
            #[trigger] crate::key_range::range_contains(lo, end, s)
                <==> crate::key_range::is_proper_prefix(prefix@, s) by {
            crate::key_range::lemma_sub_key_range(prefix@, s);
        }
    }
    (lo, end)
}

/// Builds the prefix of the score index of a sorted set: the storage prefix of `key`, then `S`.
pub fn zset_score_user_key_prefix(key: &[u8]) -> (r: Vec<u8>)
    ensures
        r@ == user_key_prefix_spec(key@).push(83u8),
{
    let mut prefix = user_key_prefix(key);
    prefix.push(83);
    prefix
}

impl StringKey {
    pub fn new(user_key: Vec<u8>) -> (r: StringKey)
        ensures
            r.user_key@ == user_key@,
    {
        StringKey { user_key }
    }

    /// The key length as a big-endian `u16`, then the key.
    pub fn encode(&self) -> (r: Vec<u8>)
        ensures
            r@ == user_key_prefix_spec(self.user_key@),
    {
        user_key_prefix(self.user_key.as_slice())
    }

    pub fn decode(bytes: &[u8]) -> (r: Result<StringKey, DecoderError>)
        ensures
            match decode_string_key_spec(bytes@) {
                Ok(k) => r matches Ok(key) && key.user_key@ == k,
                Err(e) => r matches Err(e2) && e2 == e,
            },
    {
        if bytes.len() < 2 {
            return Err(DecoderError::InvalidLength);
        }
        let len = read_u16(bytes, 0) as usize;
        proof {
            assert(bytes@.subrange(0, 2)[0] == bytes@[0]);
            assert(bytes@.subrange(0, 2)[1] == bytes@[1]);
        }
        if bytes.len() - 2 < len {
            return Err(DecoderError::InvalidLength);
        }
        let user_key = copy_range(bytes, 2, 2 + len);
        Ok(StringKey { user_key })
    }
}

} // verus!
