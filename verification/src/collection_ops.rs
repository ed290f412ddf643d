//! The decisions of the collection commands: which sub-keys are visible under the
//! current generation, how many members a write adds or removes, and what becomes
//! of the metadata row.
use vstd::prelude::*;
use crate::error::{StorageError, ErrorModel, error_model};
use crate::meta::{HashMetaValue, SetMetaValue};
use crate::sub_keys::{
    HashFieldKey, decode_length_prefixed_spec, composite_key_spec, length_prefixed,
    lemma_length_prefixed_round_trip,
};
use crate::top_level_key::key_prefix;
use crate::key_range::is_prefix;

verus! {

/// What becomes of a collection's metadata row in a write batch.
#[derive(Debug, Clone, Copy, PartialEq, Eq, Structural)]
pub enum MetadataChange<M> {
    Put(M),
    Delete,
}

/// A sub-key row is visible when it was written at or after the collection's generation.
pub open spec fn visible_at(entry_seq: Option<u64>, version: u64) -> bool {
    entry_seq is Some && entry_seq.unwrap() >= version
}

pub fn is_visible(entry_seq: Option<u64>, version: u64) -> (r: bool)
    ensures
        r == visible_at(entry_seq, version),
{
    match entry_seq {
        Some(seq) => seq >= version,
        None => false,
    }
}

/// The value of a sub-key row (its sequence and value), if it is visible under
/// `version`.
pub open spec fn visible_value_spec(entry: Option<(u64, Vec<u8>)>, version: u64) -> Option<Seq<u8>> {
    match entry {
        Some((seq, v)) => if seq >= version {
            Some(v@)
        } else {
            None
        },
        None => None,
    }
}

/// The byte strings of an optional value.
pub open spec fn opt_view(v: Option<Vec<u8>>) -> Option<Seq<u8>> {
    match v {
        Some(w) => Some(w@),
        None => None,
    }
}

/// HMGET: for each requested field, the value HGET gives for it, from the row
/// read for that field under the hash's generation `version`.
pub fn hmget_values(entries: &Vec<Option<(u64, Vec<u8>)>>, version: u64) -> (r: Vec<Option<Vec<u8>>>)
    ensures
        r@.len() == entries@.len(),
        forall|i: int|
            0 <= i < entries@.len() ==> opt_view(#[trigger] r@[i]) == visible_value_spec(entries@[i], version),
{
    let mut r: Vec<Option<Vec<u8>>> = Vec::new();
    let mut i: usize = 0;
    while i < entries.len()
        invariant
            0 <= i <= entries@.len(),
            r@.len() == i,
            forall|j: int|
                0 <= j < i ==> opt_view(#[trigger] r@[j]) == visible_value_spec(entries@[j], version),
        decreases entries@.len() - i,
    {
        let value = match &entries[i] {
            Some((seq, v)) => if *seq >= version {
                let w = v.clone();
                assert(w@ =~= v@);
                Some(w)
            } else {
                None
            },
            None => None,
        };
        r.push(value);
        i = i + 1;
    }
    r
}

/// The value of a sub-key row, if it is visible under `version`.
pub fn visible_value(entry: Option<(u64, Vec<u8>)>, version: u64) -> (r: Option<Vec<u8>>)
    ensures
        opt_view(r) == visible_value_spec(entry, version),
        match entry {
            Some((seq, v)) => if seq >= version {
                r matches Some(w) && w@ == v@
            } else {
                r is None
            },
            None => r is None,
        },
{
    match entry {
        Some((seq, value)) => if seq >= version {
            Some(value)
        } else {
            None
        },
        None => None,
    }
}

/// How many of `flags` are set.
pub open spec fn count_true(flags: Seq<bool>) -> nat
    decreases flags.len(),
{
    if flags.len() == 0 {
        0
    } else {
        count_true(flags.drop_last()) + if flags.last() {
            1nat
        } else {
            0nat
        }
    }
}

pub proof fn lemma_count_true_bound(flags: Seq<bool>)
    ensures
        count_true(flags) <= flags.len(),
    decreases flags.len(),
{
    if flags.len() > 0 {
        lemma_count_true_bound(flags.drop_last());
    }
}

/// How many of `flags` are set.
pub fn count_set(flags: &Vec<bool>) -> (r: u64)
    ensures
        r == count_true(flags@),
{
    let mut n: u64 = 0;
    let mut i: usize = 0;
    while i < flags.len()
        invariant
            0 <= i <= flags@.len(),
            n == count_true(flags@.subrange(0, i as int)),
            n <= i,
        decreases flags@.len() - i,
    {
        assert(flags@.subrange(0, i + 1).drop_last() =~= flags@.subrange(0, i as int));
        if flags[i] {
            n = n + 1;
        }
        i = i + 1;
    }
    assert(flags@.subrange(0, i as int) =~= flags@);
    n
}

/// The negation of each flag.
pub fn negate_all(flags: &Vec<bool>) -> (r: Vec<bool>)
    ensures
        r@.len() == flags@.len(),
        forall|i: int| 0 <= i < flags@.len() ==> r@[i] == !flags@[i],
{
    let mut r: Vec<bool> = Vec::new();
    let mut i: usize = 0;
    while i < flags.len()
        invariant
            0 <= i <= flags@.len(),
            r@.len() == i,
            forall|j: int| 0 <= j < i ==> r@[j] == !flags@[j],
        decreases flags@.len() - i,
    {
        r.push(!flags[i]);
        i = i + 1;
    }
    r
}

pub proof fn lemma_count_negation(flags: Seq<bool>, negated: Seq<bool>)
    requires
        negated.len() == flags.len(),
        forall|i: int| 0 <= i < flags.len() ==> negated[i] == !flags[i],
    ensures
        count_true(negated) + count_true(flags) == flags.len(),
    decreases flags.len(),
{
    if flags.len() > 0 {
        lemma_count_negation(flags.drop_last(), negated.drop_last());
    }
}

// ---- hashes ----

/// The outcome of HSET on an existing hash: the fields it adds and the new metadata.
pub struct HashWrite {
    pub added: u64,
    pub meta: HashMetaValue,
}

/// HSET of `field_count` distinct fields into a hash with no live metadata: every
/// field is new, and the metadata's generation stays pending (zero) until commit.
pub fn plan_hset_new(field_count: usize) -> (r: HashWrite)
    ensures
        r.added == field_count,
        r.meta == (HashMetaValue { version: 0, len: field_count as u64, expire_time: 0 }),
{
    HashWrite { added: field_count as u64, meta: HashMetaValue::new(0, field_count as u64) }
}

/// HSET into an existing hash: `visible[i]` says whether the `i`-th distinct field
/// already has a visible row. Fields without one are added to the length.
pub fn plan_hset_existing(meta: HashMetaValue, visible: &Vec<bool>) -> (r: Result<HashWrite, StorageError>)
    ensures
        ({
            let added = visible@.len() - count_true(visible@);
            if meta.len + added > u64::MAX {
                r matches Err(StorageError::DataInconsistency { message }) && message@
                    == "hash metadata length overflow"@
            } else {
                r matches Ok(w) && w.added == added && w.meta == (HashMetaValue {
                    len: (meta.len + added) as u64,
                    ..meta
                })
            }
        }),
{
    let fresh = negate_all(visible);
    let added = count_set(&fresh);
    proof {
        lemma_count_negation(visible@, fresh@);
    }
    let mut meta = meta;
    if added > 0 {
        meta.len = match meta.len.checked_add(added) {
            Some(n) => n,
            None => {
                return Err(StorageError::inconsistency("hash metadata length overflow"));
            },
        };
    }
    Ok(HashWrite { added, meta })
}

/// The outcome of HDEL: the fields it deletes and what becomes of the metadata.
pub struct HashDelete {
    pub deleted: u64,
    pub change: Option<MetadataChange<HashMetaValue>>,
}

/// HDEL: `visible[i]` says whether the `i`-th distinct field has a visible row.
/// Nothing is written when none does; the metadata goes when the hash becomes empty.
pub fn plan_hdel(meta: HashMetaValue, visible: &Vec<bool>) -> (r: Result<HashDelete, StorageError>)
    ensures
        ({
            let deleted = count_true(visible@);
            if deleted == 0 {
                r matches Ok(d) && d.deleted == 0 && d.change is None
            } else if deleted > meta.len {
                r matches Err(e) && error_model(e) == ErrorModel::Inconsistent
            } else if deleted == meta.len {
                r matches Ok(d) && d.deleted == deleted && d.change == Some(
                    MetadataChange::<HashMetaValue>::Delete,
                )
            } else {
                r matches Ok(d) && d.deleted == deleted && d.change == Some(
                    MetadataChange::Put(HashMetaValue { len: (meta.len - deleted) as u64, ..meta }),
                )
            }
        }),
{
    let deleted = count_set(visible);
    if deleted == 0 {
        return Ok(HashDelete { deleted: 0, change: None });
    }
    if deleted > meta.len {
        return Err(
            StorageError::inconsistency("hash metadata length is smaller than deleted field count"),
        );
    }
    let mut meta = meta;
    meta.len = meta.len - deleted;
    let change = if meta.len == 0 {
        MetadataChange::Delete
    } else {
        MetadataChange::Put(meta)
    };
    Ok(HashDelete { deleted, change: Some(change) })
}

/// A row read by a scan: its key, sequence number and value.
pub struct ScannedRow {
    pub key: Vec<u8>,
    pub seq: u64,
    pub value: Vec<u8>,
}

pub open spec fn scanned_views(rows: Seq<ScannedRow>) -> Seq<(Seq<u8>, u64, Seq<u8>)> {
    rows.map_values(|r: ScannedRow| (r.key@, r.seq, r.value@))
}

/// The visible fields of a hash, from the rows of its sub-key range in key order:
/// reading stops at the first row outside `prefix`, and rows older than the
/// generation or not shaped like a field key are skipped.
pub open spec fn hash_fields_spec(
    prefix: Seq<u8>,
    version: u64,
    rows: Seq<(Seq<u8>, u64, Seq<u8>)>,
) -> Seq<(Seq<u8>, Seq<u8>)>
    decreases rows.len(),
{
    if rows.len() == 0 || !is_prefix(prefix, rows[0].0) {
        Seq::empty()
    } else {
        let rest = hash_fields_spec(prefix, version, rows.drop_first());
        if rows[0].1 < version {
            rest
        } else {
            match decode_length_prefixed_spec(rows[0].0) {
                Ok((_, field)) => seq![(field, rows[0].2)] + rest,
                Err(_) => rest,
            }
        }
    }
}

fn starts_with(bytes: &[u8], prefix: &[u8]) -> (r: bool)
    ensures
        r == is_prefix(prefix@, bytes@),
{
    if prefix.len() > bytes.len() {
        return false;
    }
    let mut i: usize = 0;
    while i < prefix.len()
        invariant
            prefix@.len() <= bytes@.len(),
            0 <= i <= prefix@.len(),
            forall|j: int| 0 <= j < i ==> prefix@[j] == bytes@[j],
        decreases prefix@.len() - i,
    {
        if prefix[i] != bytes[i] {
            assert(bytes@.subrange(0, prefix@.len() as int)[i as int] != prefix@[i as int]);
            return false;
        }
        i = i + 1;
    }
    assert(bytes@.subrange(0, prefix@.len() as int) =~= prefix@);
    true
}

/// Collects the visible fields of a hash from the rows of its sub-key range.
pub fn collect_hash_fields(prefix: &[u8], version: u64, rows: &Vec<ScannedRow>) -> (r: Vec<(Vec<u8>, Vec<u8>)>)
    ensures
        crate::dedup::pair_views(r@) == hash_fields_spec(prefix@, version, scanned_views(rows@)),
{
    let ghost all = scanned_views(rows@);
    let mut out: Vec<(Vec<u8>, Vec<u8>)> = Vec::new();
    let mut i: usize = 0;
    assert(all.subrange(0, all.len() as int) =~= all);
    assert(crate::dedup::pair_views(out@) =~= Seq::<(Seq<u8>, Seq<u8>)>::empty());
    assert(Seq::<(Seq<u8>, Seq<u8>)>::empty() + hash_fields_spec(prefix@, version, all) =~= hash_fields_spec(prefix@, version, all));
    while i < rows.len()
        invariant
            0 <= i <= rows@.len(),
            all == scanned_views(rows@),
            crate::dedup::pair_views(out@) + hash_fields_spec(prefix@, version, all.subrange(i as int, all.len() as int))
                == hash_fields_spec(prefix@, version, all),
        decreases rows@.len() - i,
    {
        let ghost rest = all.subrange(i as int, all.len() as int);
        assert(rest.drop_first() =~= all.subrange(i + 1, all.len() as int));
        assert(rest[0] == all[i as int]);
        let row = &rows[i];
        if !starts_with(row.key.as_slice(), prefix) {
            assert(hash_fields_spec(prefix@, version, rest) =~= Seq::<(Seq<u8>, Seq<u8>)>::empty());
            assert(crate::dedup::pair_views(out@) =~= crate::dedup::pair_views(out@) + Seq::<(Seq<u8>, Seq<u8>)>::empty());
            return out;
        }
        if row.seq >= version {
            match HashFieldKey::decode(row.key.as_slice()) {
                Ok(field_key) => {
                    let ghost before = crate::dedup::pair_views(out@);
                    let field = field_key.field().clone();
                    assert(field@ =~= field_key@.1);
                    let value = row.value.clone();
                    assert(value@ =~= row.value@);
                    out.push((field, value));
                    assert(crate::dedup::pair_views(out@) =~= before.push((field@, value@)));
                    assert(crate::dedup::pair_views(out@) + hash_fields_spec(prefix@, version, all.subrange(i + 1, all.len() as int))
                        =~= before + hash_fields_spec(prefix@, version, rest));
                },
                Err(_) => {},
            }
        }
        i = i + 1;
    }
    assert(all.subrange(i as int, all.len() as int) =~= Seq::<(Seq<u8>, u64, Seq<u8>)>::empty());
    assert(crate::dedup::pair_views(out@) + Seq::<(Seq<u8>, Seq<u8>)>::empty() =~= crate::dedup::pair_views(out@));
    out
}

// ---- sets ----

/// The outcome of SADD: the number of new members, which of the distinct members
/// to write, and the metadata to write with them (none when nothing is added).
pub struct SetAdd {
    pub added: u64,
    pub add: Vec<bool>,
    pub meta: Option<SetMetaValue>,
}

/// SADD of distinct members: `visible[i]` says whether the `i`-th member already has
/// a visible row; a set without live metadata has none. New members are written
/// with the metadata, whose generation stays pending (zero) for a new set.
pub fn plan_sadd(meta: Option<SetMetaValue>, visible: &Vec<bool>) -> (r: Result<SetAdd, StorageError>)
    ensures
        ({
            let base = match meta {
                Some(m) => m,
                None => SetMetaValue { version: 0, len: 0, expire_time: 0 },
            };
            let added = if meta is None {
                visible@.len() as int
            } else {
                visible@.len() - count_true(visible@)
            };
            if added == 0 {
                r matches Ok(p) && p.added == 0 && p.meta is None
            } else if base.len + added > u64::MAX {
                r matches Err(e) && error_model(e) == ErrorModel::Inconsistent
            } else {
                r matches Ok(p) && p.added == added && p.meta == Some(
                    SetMetaValue { len: (base.len + added) as u64, ..base },
                ) && p.add@.len() == visible@.len() && forall|i: int|
                    0 <= i < visible@.len() ==> p.add@[i] == (meta is None || !visible@[i])
            }
        }),
{
    let missing = meta.is_none();
    let base = match meta {
        Some(m) => m,
        None => SetMetaValue::new(0, 0),
    };
    let mut add: Vec<bool> = Vec::new();
    let mut i: usize = 0;
    while i < visible.len()
        invariant
            0 <= i <= visible@.len(),
            add@.len() == i,
            missing == meta is None,
            forall|j: int| 0 <= j < i ==> add@[j] == (missing || !visible@[j]),
        decreases visible@.len() - i,
    {
        add.push(missing || !visible[i]);
        i = i + 1;
    }
    let added = count_set(&add);
    proof {
        if missing {
            assert forall|j: int| 0 <= j < add@.len() implies add@[j] by {}
            lemma_count_all(add@);
        } else {
            lemma_count_negation(visible@, add@);
        }
    }
    if added == 0 {
        return Ok(SetAdd { added: 0, add, meta: None });
    }
    let len = match base.len.checked_add(added) {
        Some(n) => n,
        None => {
            return Err(StorageError::inconsistency("set metadata length overflow after SADD"));
        },
    };
    Ok(SetAdd { added, add, meta: Some(SetMetaValue { len, ..base }) })
}

proof fn lemma_count_all(flags: Seq<bool>)
    requires
        forall|i: int| 0 <= i < flags.len() ==> flags[i],
    ensures
        count_true(flags) == flags.len(),
    decreases flags.len(),
{
    if flags.len() > 0 {
        lemma_count_all(flags.drop_last());
    }
}

/// The outcome of SREM: the number of members removed and what becomes of the metadata.
pub struct SetRemove {
    pub removed: u64,
    pub change: Option<MetadataChange<SetMetaValue>>,
}

/// SREM of distinct members: `visible[i]` says whether the `i`-th member has a
/// visible row. Nothing is written when none does; the metadata goes when the set
/// becomes empty.
pub fn plan_srem(meta: SetMetaValue, visible: &Vec<bool>) -> (r: Result<SetRemove, StorageError>)
    ensures
        ({
            let removed = count_true(visible@);
            if removed == 0 {
                r matches Ok(p) && p.removed == 0 && p.change is None
            } else if removed > meta.len {
                r matches Err(e) && error_model(e) == ErrorModel::Inconsistent
            } else if removed == meta.len {
                r matches Ok(p) && p.removed == removed && p.change == Some(
                    MetadataChange::<SetMetaValue>::Delete,
                )
            } else {
                r matches Ok(p) && p.removed == removed && p.change == Some(
                    MetadataChange::Put(SetMetaValue { len: (meta.len - removed) as u64, ..meta }),
                )
            }
        }),
{
    let removed = count_set(visible);
    if removed == 0 {
        return Ok(SetRemove { removed: 0, change: None });
    }
    let len = match meta.len.checked_sub(removed) {
        Some(n) => n,
        None => {
            return Err(
                StorageError::inconsistency(
                    "set metadata length is smaller than removed member count",
                ),
            );
        },
    };
    let change = if len == 0 {
        MetadataChange::Delete
    } else {
        MetadataChange::Put(SetMetaValue { len, ..meta })
    };
    Ok(SetRemove { removed, change: Some(change) })
}

/// The member named by the bytes after a set's prefix: a big-endian `u32` length,
/// then exactly that many bytes.
pub open spec fn member_of_suffix(t: Seq<u8>) -> Option<Seq<u8>> {
    if t.len() >= 4 && t.len() - 4 == crate::codec::u32_of(t) {
        Some(t.subrange(4, t.len() as int))
    } else {
        None
    }
}

/// The visible members of a set, from the rows of its sub-key range in key order:
/// reading stops at the first row outside `prefix`, and rows older than the
/// generation or not shaped like a member key are skipped.
pub open spec fn set_members_spec(prefix: Seq<u8>, version: u64, rows: Seq<(Seq<u8>, u64, Seq<u8>)>) -> Seq<
    Seq<u8>,
>
    decreases rows.len(),
{
    if rows.len() == 0 || !is_prefix(prefix, rows[0].0) {
        Seq::empty()
    } else {
        let rest = set_members_spec(prefix, version, rows.drop_first());
        if rows[0].1 < version {
            rest
        } else {
            match member_of_suffix(rows[0].0.subrange(prefix.len() as int, rows[0].0.len() as int)) {
                Some(m) => seq![m] + rest,
                None => rest,
            }
        }
    }
}

/// Collects the visible members of a set from the rows of its sub-key range.
pub fn collect_set_members(prefix: &[u8], version: u64, rows: &Vec<ScannedRow>) -> (r: Vec<Vec<u8>>)
    ensures
        crate::dedup::views(r@) == set_members_spec(prefix@, version, scanned_views(rows@)),
{
    let ghost all = scanned_views(rows@);
    let mut out: Vec<Vec<u8>> = Vec::new();
    let mut i: usize = 0;
    assert(all.subrange(0, all.len() as int) =~= all);
    assert(crate::dedup::views(out@) =~= Seq::<Seq<u8>>::empty());
    assert(Seq::<Seq<u8>>::empty() + set_members_spec(prefix@, version, all) =~= set_members_spec(prefix@, version, all));
    while i < rows.len()
        invariant
            0 <= i <= rows@.len(),
            all == scanned_views(rows@),
            crate::dedup::views(out@) + set_members_spec(prefix@, version, all.subrange(i as int, all.len() as int))
                == set_members_spec(prefix@, version, all),
        decreases rows@.len() - i,
    {
        let ghost rest = all.subrange(i as int, all.len() as int);
        assert(rest.drop_first() =~= all.subrange(i + 1, all.len() as int));
        assert(rest[0] == all[i as int]);
        let row = &rows[i];
        if !starts_with(row.key.as_slice(), prefix) {
            assert(set_members_spec(prefix@, version, rest) =~= Seq::<Seq<u8>>::empty());
            assert(crate::dedup::views(out@) =~= crate::dedup::views(out@) + Seq::<Seq<u8>>::empty());
            return out;
        }
        if row.seq >= version {
            let suffix = crate::codec::copy_range(row.key.as_slice(), prefix.len(), row.key.len());
            if suffix.len() >= 4 {
                let member_len = crate::codec::read_u32(suffix.as_slice(), 0) as usize;
                proof {
                    let t = suffix@;
                    assert(t.subrange(0, 4)[0] == t[0]);
                    assert(t.subrange(0, 4)[1] == t[1]);
                    assert(t.subrange(0, 4).subrange(2, 4) =~= t.subrange(2, 4));
                }
                if suffix.len() - 4 == member_len {
                    let ghost before = crate::dedup::views(out@);
                    let member = crate::codec::copy_range(suffix.as_slice(), 4, suffix.len());
                    out.push(member);
                    assert(crate::dedup::views(out@) =~= before.push(member@));
                    assert(crate::dedup::views(out@) + set_members_spec(prefix@, version, all.subrange(i + 1, all.len() as int))
                        =~= before + set_members_spec(prefix@, version, rest));
                }
            }
        }
        i = i + 1;
    }
    assert(all.subrange(i as int, all.len() as int) =~= Seq::<(Seq<u8>, u64, Seq<u8>)>::empty());
    assert(crate::dedup::views(out@) + Seq::<Seq<u8>>::empty() =~= crate::dedup::views(out@));
    out
}

/// `row` is the row written for field `f` (name and value) of the hash `user_key`,
/// at or after the generation `version`.
pub open spec fn field_row(user_key: Seq<u8>, version: u64, f: (Seq<u8>, Seq<u8>), row: (Seq<u8>, u64, Seq<u8>)) -> bool {
    &&& composite_key_spec(user_key, length_prefixed(f.0)) is Ok
    &&& row.0 == key_prefix(user_key) + length_prefixed(f.0)
    &&& row.1 >= version
    &&& row.2 == f.1
}

/// `rows` are the field rows written for `fields` of the hash `user_key`, one per
/// field in key order.
pub open spec fn written_field_rows(
    user_key: Seq<u8>,
    version: u64,
    fields: Seq<(Seq<u8>, Seq<u8>)>,
    rows: Seq<(Seq<u8>, u64, Seq<u8>)>,
) -> bool {
    &&& rows.len() == fields.len()
    &&& forall|i: int| 0 <= i < rows.len() ==> #[trigger] field_row(user_key, version, fields[i], rows[i])
}

/// Reading the fields of a hash back from the rows written for them gives every
/// field with its value, in the order of the rows.
pub proof fn lemma_hash_fields_read_back(
    user_key: Seq<u8>,
    version: u64,
    fields: Seq<(Seq<u8>, Seq<u8>)>,
    rows: Seq<(Seq<u8>, u64, Seq<u8>)>,
)
    requires
        written_field_rows(user_key, version, fields, rows),
    ensures
        hash_fields_spec(key_prefix(user_key), version, rows) == fields,
    decreases rows.len(),
{
    if rows.len() > 0 {
        let p = key_prefix(user_key);
        assert(field_row(user_key, version, fields[0], rows[0]));
        let k = rows[0].0;
        assert(k.subrange(0, p.len() as int) =~= p);
        lemma_length_prefixed_round_trip(user_key, fields[0].0);
        assert forall|i: int| 0 <= i < rows.drop_first().len() implies #[trigger] field_row(
            user_key,
            version,
            fields.drop_first()[i],
            rows.drop_first()[i],
        ) by {
            assert(field_row(user_key, version, fields[i + 1], rows[i + 1]));
        }
        lemma_hash_fields_read_back(user_key, version, fields.drop_first(), rows.drop_first());
        assert(fields =~= seq![(fields[0].0, rows[0].2)] + fields.drop_first());
    } else {
        assert(fields =~= Seq::<(Seq<u8>, Seq<u8>)>::empty());
    }
}

/// `row` is the row written for `member` of the set `user_key`, at or after the
/// generation `version`.
pub open spec fn member_row(user_key: Seq<u8>, version: u64, member: Seq<u8>, row: (Seq<u8>, u64, Seq<u8>)) -> bool {
    &&& composite_key_spec(user_key, length_prefixed(member)) is Ok
    &&& row.0 == key_prefix(user_key) + length_prefixed(member)
    &&& row.1 >= version
}

/// `rows` are the member rows written for `members` of the set `user_key`, one per
/// member in key order.
pub open spec fn written_member_rows(
    user_key: Seq<u8>,
    version: u64,
    members: Seq<Seq<u8>>,
    rows: Seq<(Seq<u8>, u64, Seq<u8>)>,
) -> bool {
    &&& rows.len() == members.len()
    &&& forall|i: int| 0 <= i < rows.len() ==> #[trigger] member_row(user_key, version, members[i], rows[i])
}

/// Reading the members of a set back from the rows written for them gives every
/// member, in the order of the rows.
pub proof fn lemma_set_members_read_back(
    user_key: Seq<u8>,
    version: u64,
    members: Seq<Seq<u8>>,
    rows: Seq<(Seq<u8>, u64, Seq<u8>)>,
)
    requires
        written_member_rows(user_key, version, members, rows),
    ensures
        set_members_spec(key_prefix(user_key), version, rows) == members,
    decreases rows.len(),
{
    if rows.len() > 0 {
        let p = key_prefix(user_key);
        assert(member_row(user_key, version, members[0], rows[0]));
        let k = rows[0].0;
        let t = length_prefixed(members[0]);
        assert(k.subrange(0, p.len() as int) =~= p);
        assert(k.subrange(p.len() as int, k.len() as int) =~= t);
        crate::codec::lemma_be_u32(members[0].len() as u32);
        assert(t.subrange(4, t.len() as int) =~= members[0]);
        assert forall|i: int| 0 <= i < rows.drop_first().len() implies #[trigger] member_row(
            user_key,
            version,
            members.drop_first()[i],
            rows.drop_first()[i],
        ) by {
            assert(member_row(user_key, version, members[i + 1], rows[i + 1]));
        }
        lemma_set_members_read_back(user_key, version, members.drop_first(), rows.drop_first());
        assert(members =~= seq![members[0]] + members.drop_first());
    } else {
        assert(members =~= Seq::<Seq<u8>>::empty());
    }
}

} // verus!
