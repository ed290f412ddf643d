//! Top-level values: string payloads and the metadata rows of the collection types.
use vstd::prelude::*;
use crate::codec::{be_u64, push_u64, read_u64, u64_of, lemma_be_u64, push_bytes, copy_range};
use crate::data_type::{DataType, tag_of, type_of_tag};
use crate::error::DecoderError;

verus! {

/// A string value.
#[derive(Debug, PartialEq, Eq)]
pub struct StringValue {
    pub value: Vec<u8>,
}

/// Metadata of a hash.
#[derive(Debug, Clone, Copy, PartialEq, Eq, Structural)]
pub struct HashMetaValue {
    pub version: u64,
    pub len: u64,
    pub expire_time: u64,
}

/// Metadata of a list: its elements sit at the sequence numbers `head..tail`.
#[derive(Debug, Clone, Copy, PartialEq, Eq, Structural)]
pub struct ListMetaValue {
    pub version: u64,
    pub len: u64,
    pub head: u64,
    pub tail: u64,
    pub expire_time: u64,
}

/// Metadata of a set.
#[derive(Debug, Clone, Copy, PartialEq, Eq, Structural)]
pub struct SetMetaValue {
    pub version: u64,
    pub len: u64,
    pub expire_time: u64,
}

/// Metadata of a sorted set.
#[derive(Debug, Clone, Copy, PartialEq, Eq, Structural)]
pub struct ZSetMetaValue {
    pub version: u64,
    pub len: u64,
    pub expire_time: u64,
}

/// The first sequence number of a new list, in the middle of the `u64` range so
/// that it can grow in both directions.
pub const LIST_MIDPOINT: u64 = 9_223_372_036_854_775_807;

// ---- encodings ----

pub open spec fn string_bytes(value: Seq<u8>) -> Seq<u8> {
    seq![tag_of(DataType::String)] + value
}

pub open spec fn three_field_bytes(tag: u8, a: u64, b: u64, c: u64) -> Seq<u8> {
    seq![tag] + be_u64(a) + be_u64(b) + be_u64(c)
}

pub open spec fn hash_bytes(m: HashMetaValue) -> Seq<u8> {
    three_field_bytes(tag_of(DataType::Hash), m.version, m.len, m.expire_time)
}

pub open spec fn set_bytes(m: SetMetaValue) -> Seq<u8> {
    three_field_bytes(tag_of(DataType::SetType), m.version, m.len, m.expire_time)
}

pub open spec fn zset_bytes(m: ZSetMetaValue) -> Seq<u8> {
    three_field_bytes(tag_of(DataType::ZSet), m.version, m.len, m.expire_time)
}

pub open spec fn list_bytes(m: ListMetaValue) -> Seq<u8> {
    seq![tag_of(DataType::List)] + be_u64(m.version) + be_u64(m.len) + be_u64(m.head) + be_u64(
        m.tail,
    ) + be_u64(m.expire_time)
}

/// The `u64` field that starts at byte `at`.
pub open spec fn field_at(s: Seq<u8>, at: int) -> u64 {
    u64_of(s.subrange(at, at + 8))
}

/// What decoding the first three `u64` fields after tag `tag` gives.
pub open spec fn decode_three_spec(s: Seq<u8>, tag: u8) -> Result<(u64, u64, u64), DecoderError> {
    if s.len() < 25 {
        Err(DecoderError::InvalidLength)
    } else if s[0] != tag {
        Err(DecoderError::InvalidType)
    } else {
        Ok((field_at(s, 1), field_at(s, 9), field_at(s, 17)))
    }
}

pub open spec fn decode_hash_spec(s: Seq<u8>) -> Result<HashMetaValue, DecoderError> {
    match decode_three_spec(s, tag_of(DataType::Hash)) {
        Ok((v, l, e)) => Ok(HashMetaValue { version: v, len: l, expire_time: e }),
        Err(e) => Err(e),
    }
}

pub open spec fn decode_set_spec(s: Seq<u8>) -> Result<SetMetaValue, DecoderError> {
    match decode_three_spec(s, tag_of(DataType::SetType)) {
        Ok((v, l, e)) => Ok(SetMetaValue { version: v, len: l, expire_time: e }),
        Err(e) => Err(e),
    }
}

pub open spec fn decode_zset_spec(s: Seq<u8>) -> Result<ZSetMetaValue, DecoderError> {
    match decode_three_spec(s, tag_of(DataType::ZSet)) {
        Ok((v, l, e)) => Ok(ZSetMetaValue { version: v, len: l, expire_time: e }),
        Err(e) => Err(e),
    }
}

pub open spec fn decode_list_spec(s: Seq<u8>) -> Result<ListMetaValue, DecoderError> {
    if s.len() < 41 {
        Err(DecoderError::InvalidLength)
    } else if s[0] != tag_of(DataType::List) {
        Err(DecoderError::InvalidType)
    } else {
        Ok(
            ListMetaValue {
                version: field_at(s, 1),
                len: field_at(s, 9),
                head: field_at(s, 17),
                tail: field_at(s, 25),
                expire_time: field_at(s, 33),
            },
        )
    }
}

pub open spec fn decode_string_spec(s: Seq<u8>) -> Result<Seq<u8>, DecoderError> {
    if s.len() == 0 {
        Err(DecoderError::Empty)
    } else if s[0] != tag_of(DataType::String) {
        Err(DecoderError::InvalidType)
    } else {
        Ok(s.drop_first())
    }
}

// ---- exec codecs ----

fn encode_three(tag: u8, a: u64, b: u64, c: u64) -> (r: Vec<u8>)
    ensures
        r@ == three_field_bytes(tag, a, b, c),
        r@.len() == 25,
{
    proof {
        lemma_be_u64(a);
        lemma_be_u64(b);
        lemma_be_u64(c);
    }
    let mut bytes: Vec<u8> = Vec::new();
    bytes.push(tag);
    push_u64(&mut bytes, a);
    push_u64(&mut bytes, b);
    push_u64(&mut bytes, c);
    assert(bytes@ =~= three_field_bytes(tag, a, b, c));
    bytes
}

fn decode_three(bytes: &[u8], tag: u8) -> (r: Result<(u64, u64, u64), DecoderError>)
    ensures
        r == decode_three_spec(bytes@, tag),
{
    if bytes.len() < 25 {
        return Err(DecoderError::InvalidLength);
    }
    if bytes[0] != tag {
        return Err(DecoderError::InvalidType);
    }
    let a = read_u64(bytes, 1);
    let b = read_u64(bytes, 9);
    let c = read_u64(bytes, 17);
    Ok((a, b, c))
}

proof fn lemma_three_round_trip(tag: u8, a: u64, b: u64, c: u64)
    ensures
        decode_three_spec(three_field_bytes(tag, a, b, c), tag) == Ok::<(u64, u64, u64), DecoderError>(
            (a, b, c),
        ),
{
    lemma_be_u64(a);
    lemma_be_u64(b);
    lemma_be_u64(c);
    let s = three_field_bytes(tag, a, b, c);
    assert(s.subrange(1, 9) =~= be_u64(a));
    assert(s.subrange(9, 17) =~= be_u64(b));
    assert(s.subrange(17, 25) =~= be_u64(c));
}

impl StringValue {
    pub fn new(value: Vec<u8>) -> (r: StringValue)
        ensures
            r.value@ == value@,
    {
        StringValue { value }
    }

    /// The tag of the string type, then the payload.
    pub fn encode(&self) -> (r: Vec<u8>)
        ensures
            r@ == string_bytes(self.value@),
    {
        let mut bytes: Vec<u8> = Vec::new();
        bytes.push(115);
        push_bytes(&mut bytes, self.value.as_slice());
        assert(bytes@ =~= string_bytes(self.value@));
        bytes
    }

    pub fn decode(bytes: &[u8]) -> (r: Result<StringValue, DecoderError>)
        ensures
            match decode_string_spec(bytes@) {
                Ok(v) => r matches Ok(sv) && sv.value@ == v,
                Err(e) => r matches Err(e2) && e2 == e,
            },
    {
        if bytes.len() == 0 {
            return Err(DecoderError::Empty);
        }
        if bytes[0] != 115 {
            return Err(DecoderError::InvalidType);
        }
        let value = copy_range(bytes, 1, bytes.len());
        assert(value@ =~= bytes@.drop_first());
        Ok(StringValue { value })
    }
}

impl HashMetaValue {
    pub fn new(version: u64, len: u64) -> (r: HashMetaValue)
        ensures
            r == (HashMetaValue { version, len, expire_time: 0 }),
    {
        HashMetaValue { version, len, expire_time: 0 }
    }

    pub fn new_with_ttl(version: u64, len: u64, expire_time: u64) -> (r: HashMetaValue)
        ensures
            r == (HashMetaValue { version, len, expire_time }),
    {
        HashMetaValue { version, len, expire_time }
    }

    /// The tag of the hash type, then version, length and expiration as big-endian `u64`s.
    pub fn encode(&self) -> (r: Vec<u8>)
        ensures
            r@ == hash_bytes(*self),
            r@.len() == 25,
    {
        encode_three(104, self.version, self.len, self.expire_time)
    }

    pub fn decode(bytes: &[u8]) -> (r: Result<HashMetaValue, DecoderError>)
        ensures
            r == decode_hash_spec(bytes@),
    {
        let (version, len, expire_time) = decode_three(bytes, 104)?;
        Ok(HashMetaValue::new_with_ttl(version, len, expire_time))
    }
}

impl SetMetaValue {
    pub fn new(version: u64, len: u64) -> (r: SetMetaValue)
        ensures
            r == (SetMetaValue { version, len, expire_time: 0 }),
    {
        SetMetaValue { version, len, expire_time: 0 }
    }

    pub fn new_with_ttl(version: u64, len: u64, expire_time: u64) -> (r: SetMetaValue)
        ensures
            r == (SetMetaValue { version, len, expire_time }),
    {
        SetMetaValue { version, len, expire_time }
    }

    /// The tag of the set type, then version, length and expiration as big-endian `u64`s.
    pub fn encode(&self) -> (r: Vec<u8>)
        ensures
            r@ == set_bytes(*self),
            r@.len() == 25,
    {
        encode_three(83, self.version, self.len, self.expire_time)
    }

    pub fn decode(bytes: &[u8]) -> (r: Result<SetMetaValue, DecoderError>)
        ensures
            r == decode_set_spec(bytes@),
    {
        let (version, len, expire_time) = decode_three(bytes, 83)?;
        Ok(SetMetaValue::new_with_ttl(version, len, expire_time))
    }
}

impl ZSetMetaValue {
    pub fn new(version: u64, len: u64) -> (r: ZSetMetaValue)
        ensures
            r == (ZSetMetaValue { version, len, expire_time: 0 }),
    {
        ZSetMetaValue { version, len, expire_time: 0 }
    }

    pub fn new_with_ttl(version: u64, len: u64, expire_time: u64) -> (r: ZSetMetaValue)
        ensures
            r == (ZSetMetaValue { version, len, expire_time }),
    {
        ZSetMetaValue { version, len, expire_time }
    }

    /// The tag of the sorted-set type, then version, length and expiration as big-endian `u64`s.
    pub fn encode(&self) -> (r: Vec<u8>)
        ensures
            r@ == zset_bytes(*self),
            r@.len() == 25,
    {
        encode_three(122, self.version, self.len, self.expire_time)
    }

    pub fn decode(bytes: &[u8]) -> (r: Result<ZSetMetaValue, DecoderError>)
        ensures
            r == decode_zset_spec(bytes@),
    {
        let (version, len, expire_time) = decode_three(bytes, 122)?;
        Ok(ZSetMetaValue::new_with_ttl(version, len, expire_time))
    }
}

impl ListMetaValue {
    /// An empty list whose head and tail both sit in the middle of the `u64` range.
    pub fn new(version: u64) -> (r: ListMetaValue)
        ensures
            r == (ListMetaValue {
                version,
                len: 0,
                head: LIST_MIDPOINT,
                tail: LIST_MIDPOINT,
                expire_time: 0,
            }),
    {
        ListMetaValue {
            version,
            len: 0,
            head: LIST_MIDPOINT,
            tail: LIST_MIDPOINT,
            expire_time: 0,
        }
    }

    /// The tag of the list type, then version, length, head, tail and expiration
    /// as big-endian `u64`s.
    pub fn encode(&self) -> (r: Vec<u8>)
        ensures
            r@ == list_bytes(*self),
            r@.len() == 41,
    {
        proof {
            lemma_be_u64(self.version);
            lemma_be_u64(self.len);
            lemma_be_u64(self.head);
            lemma_be_u64(self.tail);
            lemma_be_u64(self.expire_time);
        }
        let mut bytes: Vec<u8> = Vec::new();
        bytes.push(108);
        push_u64(&mut bytes, self.version);
        push_u64(&mut bytes, self.len);
        push_u64(&mut bytes, self.head);
        push_u64(&mut bytes, self.tail);
        push_u64(&mut bytes, self.expire_time);
        assert(bytes@ =~= list_bytes(*self));
        bytes
    }

    pub fn decode(bytes: &[u8]) -> (r: Result<ListMetaValue, DecoderError>)
        ensures
            r == decode_list_spec(bytes@),
    {
        if bytes.len() < 41 {
            return Err(DecoderError::InvalidLength);
        }
        if bytes[0] != 108 {
            return Err(DecoderError::InvalidType);
        }
        let version = read_u64(bytes, 1);
        let len = read_u64(bytes, 9);
        let head = read_u64(bytes, 17);
        let tail = read_u64(bytes, 25);
        let expire_time = read_u64(bytes, 33);
        Ok(ListMetaValue { version, len, head, tail, expire_time })
    }
}

/// Decoding an encoded hash metadata row gives back the same metadata.
pub proof fn lemma_hash_round_trip(m: HashMetaValue)
    ensures
        decode_hash_spec(hash_bytes(m)) == Ok::<HashMetaValue, DecoderError>(m),
{
    lemma_three_round_trip(tag_of(DataType::Hash), m.version, m.len, m.expire_time);
}

/// Decoding an encoded set metadata row gives back the same metadata.
pub proof fn lemma_set_round_trip(m: SetMetaValue)
    ensures
        decode_set_spec(set_bytes(m)) == Ok::<SetMetaValue, DecoderError>(m),
{
    lemma_three_round_trip(tag_of(DataType::SetType), m.version, m.len, m.expire_time);
}

/// Decoding an encoded sorted-set metadata row gives back the same metadata.
pub proof fn lemma_zset_round_trip(m: ZSetMetaValue)
    ensures
        decode_zset_spec(zset_bytes(m)) == Ok::<ZSetMetaValue, DecoderError>(m),
{
    lemma_three_round_trip(tag_of(DataType::ZSet), m.version, m.len, m.expire_time);
}

proof fn lemma_field_at(a: Seq<u8>, v: u64, b: Seq<u8>)
    ensures
        field_at(a + be_u64(v) + b, a.len() as int) == v,
{
    lemma_be_u64(v);
    let s = a + be_u64(v) + b;
    assert(s.subrange(a.len() as int, a.len() as int + 8) =~= be_u64(v));
}

/// Decoding an encoded list metadata row gives back the same metadata.
pub proof fn lemma_list_round_trip(m: ListMetaValue)
    ensures
        decode_list_spec(list_bytes(m)) == Ok::<ListMetaValue, DecoderError>(m),
{
    let t = seq![tag_of(DataType::List)];
    let b1 = be_u64(m.version);
    let b2 = be_u64(m.len);
    let b3 = be_u64(m.head);
    let b4 = be_u64(m.tail);
    let b5 = be_u64(m.expire_time);
    lemma_be_u64(m.version);
    lemma_be_u64(m.len);
    lemma_be_u64(m.head);
    lemma_be_u64(m.tail);
    lemma_be_u64(m.expire_time);
    let s = list_bytes(m);
    assert(s =~= t + b1 + (b2 + b3 + b4 + b5));
    lemma_field_at(t, m.version, b2 + b3 + b4 + b5);
    assert(s =~= (t + b1) + b2 + (b3 + b4 + b5));
    lemma_field_at(t + b1, m.len, b3 + b4 + b5);
    assert(s =~= (t + b1 + b2) + b3 + (b4 + b5));
    lemma_field_at(t + b1 + b2, m.head, b4 + b5);
    assert(s =~= (t + b1 + b2 + b3) + b4 + b5);
    lemma_field_at(t + b1 + b2 + b3, m.tail, b5);
    assert(s =~= (t + b1 + b2 + b3 + b4) + b5 + Seq::<u8>::empty());
    lemma_field_at(t + b1 + b2 + b3 + b4, m.expire_time, Seq::<u8>::empty());
}

/// Decoding an encoded string value gives back the same payload.
pub proof fn lemma_string_round_trip(value: Seq<u8>)
    ensures
        decode_string_spec(string_bytes(value)) == Ok::<Seq<u8>, DecoderError>(value),
{
    assert(string_bytes(value).drop_first() =~= value);
}

/// A decoded top-level row of any type.
#[derive(Debug, PartialEq, Eq)]
pub enum AnyValue {
    String(StringValue),
    Hash(HashMetaValue),
    List(ListMetaValue),
    SetType(SetMetaValue),
    ZSet(ZSetMetaValue),
}

/// The mathematical content of a top-level value.
pub enum ValueModel {
    String(Seq<u8>),
    Hash(HashMetaValue),
    List(ListMetaValue),
    SetType(SetMetaValue),
    ZSet(ZSetMetaValue),
}

impl View for AnyValue {
    type V = ValueModel;

    open spec fn view(&self) -> ValueModel {
        match self {
            AnyValue::String(v) => ValueModel::String(v.value@),
            AnyValue::Hash(m) => ValueModel::Hash(*m),
            AnyValue::List(m) => ValueModel::List(*m),
            AnyValue::SetType(m) => ValueModel::SetType(*m),
            AnyValue::ZSet(m) => ValueModel::ZSet(*m),
        }
    }
}

pub open spec fn model_type(v: ValueModel) -> DataType {
    match v {
        ValueModel::String(_) => DataType::String,
        ValueModel::Hash(_) => DataType::Hash,
        ValueModel::List(_) => DataType::List,
        ValueModel::SetType(_) => DataType::SetType,
        ValueModel::ZSet(_) => DataType::ZSet,
    }
}

/// The bytes of a top-level value.
pub open spec fn model_bytes(v: ValueModel) -> Seq<u8> {
    match v {
        ValueModel::String(s) => string_bytes(s),
        ValueModel::Hash(m) => hash_bytes(m),
        ValueModel::List(m) => list_bytes(m),
        ValueModel::SetType(m) => set_bytes(m),
        ValueModel::ZSet(m) => zset_bytes(m),
    }
}

/// The collection generation of a value; strings have none.
pub open spec fn model_version(v: ValueModel) -> Option<u64> {
    match v {
        ValueModel::String(_) => None,
        ValueModel::Hash(m) => Some(m.version),
        ValueModel::List(m) => Some(m.version),
        ValueModel::SetType(m) => Some(m.version),
        ValueModel::ZSet(m) => Some(m.version),
    }
}

/// The expiration embedded in a value; strings embed none.
pub open spec fn model_expire_time(v: ValueModel) -> Option<u64> {
    match v {
        ValueModel::String(_) => None,
        ValueModel::Hash(m) => Some(m.expire_time),
        ValueModel::List(m) => Some(m.expire_time),
        ValueModel::SetType(m) => Some(m.expire_time),
        ValueModel::ZSet(m) => Some(m.expire_time),
    }
}

/// The value with its embedded expiration replaced; strings are unchanged.
pub open spec fn model_with_expire_time(v: ValueModel, t: u64) -> ValueModel {
    match v {
        ValueModel::String(s) => ValueModel::String(s),
        ValueModel::Hash(m) => ValueModel::Hash(HashMetaValue { expire_time: t, ..m }),
        ValueModel::List(m) => ValueModel::List(ListMetaValue { expire_time: t, ..m }),
        ValueModel::SetType(m) => ValueModel::SetType(SetMetaValue { expire_time: t, ..m }),
        ValueModel::ZSet(m) => ValueModel::ZSet(ZSetMetaValue { expire_time: t, ..m }),
    }
}

/// The value with its generation replaced; strings are unchanged.
pub open spec fn model_with_version(v: ValueModel, g: u64) -> ValueModel {
    match v {
        ValueModel::String(s) => ValueModel::String(s),
        ValueModel::Hash(m) => ValueModel::Hash(HashMetaValue { version: g, ..m }),
        ValueModel::List(m) => ValueModel::List(ListMetaValue { version: g, ..m }),
        ValueModel::SetType(m) => ValueModel::SetType(SetMetaValue { version: g, ..m }),
        ValueModel::ZSet(m) => ValueModel::ZSet(ZSetMetaValue { version: g, ..m }),
    }
}

/// What decoding a top-level row gives: the tag byte selects the decoder.
pub open spec fn decode_value_spec(s: Seq<u8>) -> Result<ValueModel, DecoderError> {
    if s.len() == 0 {
        Err(DecoderError::Empty)
    } else {
        match type_of_tag(s[0]) {
            Some(DataType::String) => match decode_string_spec(s) {
                Ok(v) => Ok(ValueModel::String(v)),
                Err(e) => Err(e),
            },
            Some(DataType::Hash) => match decode_hash_spec(s) {
                Ok(m) => Ok(ValueModel::Hash(m)),
                Err(e) => Err(e),
            },
            Some(DataType::List) => match decode_list_spec(s) {
                Ok(m) => Ok(ValueModel::List(m)),
                Err(e) => Err(e),
            },
            Some(DataType::SetType) => match decode_set_spec(s) {
                Ok(m) => Ok(ValueModel::SetType(m)),
                Err(e) => Err(e),
            },
            Some(DataType::ZSet) => match decode_zset_spec(s) {
                Ok(m) => Ok(ValueModel::ZSet(m)),
                Err(e) => Err(e),
            },
            None => Err(DecoderError::InvalidType),
        }
    }
}

/// `r` is the outcome that `spec` describes.
pub open spec fn value_result_matches(
    r: Result<AnyValue, DecoderError>,
    spec: Result<ValueModel, DecoderError>,
) -> bool {
    match spec {
        Ok(m) => r matches Ok(v) && v@ == m,
        Err(e) => r matches Err(e2) && e2 == e,
    }
}

impl AnyValue {
    /// Decodes a top-level row of any type, selected by its tag byte.
    pub fn decode(bytes: &[u8]) -> (r: Result<AnyValue, DecoderError>)
        ensures
            value_result_matches(r, decode_value_spec(bytes@)),
    {
        if bytes.len() == 0 {
            return Err(DecoderError::Empty);
        }
        match DataType::from_u8(bytes[0]) {
            Some(DataType::String) => Ok(AnyValue::String(StringValue::decode(bytes)?)),
            Some(DataType::Hash) => Ok(AnyValue::Hash(HashMetaValue::decode(bytes)?)),
            Some(DataType::List) => Ok(AnyValue::List(ListMetaValue::decode(bytes)?)),
            Some(DataType::SetType) => Ok(AnyValue::SetType(SetMetaValue::decode(bytes)?)),
            Some(DataType::ZSet) => Ok(AnyValue::ZSet(ZSetMetaValue::decode(bytes)?)),
            None => Err(DecoderError::InvalidType),
        }
    }

    pub fn data_type(&self) -> (r: DataType)
        ensures
            r == model_type(self@),
    {
        match self {
            AnyValue::String(_) => DataType::String,
            AnyValue::Hash(_) => DataType::Hash,
            AnyValue::List(_) => DataType::List,
            AnyValue::SetType(_) => DataType::SetType,
            AnyValue::ZSet(_) => DataType::ZSet,
        }
    }

    pub fn encode(&self) -> (r: Vec<u8>)
        ensures
            r@ == model_bytes(self@),
    {
        match self {
            AnyValue::String(v) => v.encode(),
            AnyValue::Hash(v) => v.encode(),
            AnyValue::List(v) => v.encode(),
            AnyValue::SetType(v) => v.encode(),
            AnyValue::ZSet(v) => v.encode(),
        }
    }

    pub fn version(&self) -> (r: Option<u64>)
        ensures
            r == model_version(self@),
    {
        match self {
            AnyValue::String(_) => None,
            AnyValue::Hash(v) => Some(v.version),
            AnyValue::List(v) => Some(v.version),
            AnyValue::SetType(v) => Some(v.version),
            AnyValue::ZSet(v) => Some(v.version),
        }
    }

    /// The expiration embedded in the value; strings embed none.
    pub fn embedded_expire_time(&self) -> (r: Option<u64>)
        ensures
            r == model_expire_time(self@),
    {
        match self {
            AnyValue::String(_) => None,
            AnyValue::Hash(v) => Some(v.expire_time),
            AnyValue::List(v) => Some(v.expire_time),
            AnyValue::SetType(v) => Some(v.expire_time),
            AnyValue::ZSet(v) => Some(v.expire_time),
        }
    }

    /// The embedded expiration, or zero where there is none.
    pub fn expire_time(&self) -> (r: u64)
        ensures
            r == match model_expire_time(self@) {
                Some(t) => t,
                None => 0,
            },
    {
        match self.embedded_expire_time() {
            Some(t) => t,
            None => 0,
        }
    }

    pub fn set_expire_time(&mut self, timestamp: u64)
        ensures
            final(self)@ == model_with_expire_time(old(self)@, timestamp),
    {
        match self {
            AnyValue::String(_) => {},
            AnyValue::Hash(v) => v.expire_time = timestamp,
            AnyValue::List(v) => v.expire_time = timestamp,
            AnyValue::SetType(v) => v.expire_time = timestamp,
            AnyValue::ZSet(v) => v.expire_time = timestamp,
        }
    }

    pub fn set_version(&mut self, version: u64)
        ensures
            final(self)@ == model_with_version(old(self)@, version),
    {
        match self {
            AnyValue::String(_) => {},
            AnyValue::Hash(v) => v.version = version,
            AnyValue::List(v) => v.version = version,
            AnyValue::SetType(v) => v.version = version,
            AnyValue::ZSet(v) => v.version = version,
        }
    }
}

/// Decoding the bytes of any value gives back that value.
pub proof fn lemma_value_round_trip(v: ValueModel)
    ensures
        decode_value_spec(model_bytes(v)) == Ok::<ValueModel, DecoderError>(v),
{
    match v {
        ValueModel::String(s) => lemma_string_round_trip(s),
        ValueModel::Hash(m) => lemma_hash_round_trip(m),
        ValueModel::List(m) => lemma_list_round_trip(m),
        ValueModel::SetType(m) => lemma_set_round_trip(m),
        ValueModel::ZSet(m) => lemma_zset_round_trip(m),
    }
}

/// Every encoded value starts with the tag of its type.
pub proof fn lemma_value_tag(v: ValueModel)
    ensures
        model_bytes(v).len() > 0,
        model_bytes(v)[0] == tag_of(model_type(v)),
{
}

} // verus!
