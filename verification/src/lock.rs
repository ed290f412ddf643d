//! Which key-lock stripes a command takes, and in which order.
//!
//! Keys are striped into a fixed table per data type. A command that locks
//! several keys takes their stripes in one global ascending order, so two
//! commands never wait on each other in a cycle.
use vstd::prelude::*;
use std::collections::hash_map::DefaultHasher;
use std::hash::Hasher;
use vstd::std_specs::hash::DefaultHasherAdditionalSpecFns;
use crate::data_type::DataType;

verus! {

/// Stripes per data-type namespace.
pub const DEFAULT_KEY_LOCK_STRIPES: usize = 4096;

/// One namespace per data type.
pub const KEY_LOCK_NAMESPACE_COUNT: usize = 5;

/// Whether a lock covers keys or the whole store.
#[derive(Debug, Clone, Copy, PartialEq, Eq, Structural)]
pub enum StorageLockMode {
    Keys,
    GlobalWrite,
}

/// How one stripe is held.
#[derive(Debug, Clone, Copy, PartialEq, Eq, Structural)]
pub enum KeyMode {
    Read,
    Write,
}

/// A user key within the namespace of its data type.
#[derive(Debug, Clone)]
pub struct KeyLockIdentity {
    pub data_type: DataType,
    pub key: Vec<u8>,
}

/// What a command asks to lock.
#[derive(Debug, Clone)]
pub struct StorageLock {
    pub mode: StorageLockMode,
    pub read_keys: Vec<KeyLockIdentity>,
    pub write_keys: Vec<KeyLockIdentity>,
}

/// A stripe: namespace, then index within the namespace.
pub type Stripe = (usize, usize);

/// The namespace of each data type.
pub open spec fn namespace_spec(t: DataType) -> usize {
    match t {
        DataType::String => 0,
        DataType::Hash => 1,
        DataType::List => 2,
        DataType::SetType => 3,
        DataType::ZSet => 4,
    }
}

/// The eight little-endian bytes of `v`.
pub open spec fn le_u64_bytes(v: u64) -> Seq<u8> {
    seq![
        v as u8,
        (v >> 8u64) as u8,
        (v >> 16u64) as u8,
        (v >> 24u64) as u8,
        (v >> 32u64) as u8,
        (v >> 40u64) as u8,
        (v >> 48u64) as u8,
        (v >> 56u64) as u8,
    ]
}

/// The hash of a key as `Hash for [u8]` feeds a `DefaultHasher`: first the
/// length (eight little-endian bytes, as a `usize` is on little-endian 64-bit
/// targets), then the key's bytes.
pub open spec fn key_hash(key: Seq<u8>) -> u64 {
    DefaultHasher::spec_finish(seq![le_u64_bytes(key.len() as u64), key])
}

/// The length prefix that `Hash for [u8]` writes before the bytes.
fn length_prefix(len: usize) -> (r: Vec<u8>)
    ensures
        r@ == le_u64_bytes(len as u64),
{
    let v: u64 = len as u64;
    let r = vec![
        v as u8,
        (v >> 8u64) as u8,
        (v >> 16u64) as u8,
        (v >> 24u64) as u8,
        (v >> 32u64) as u8,
        (v >> 40u64) as u8,
        (v >> 48u64) as u8,
        (v >> 56u64) as u8,
    ];
    assert(r@ =~= le_u64_bytes(v));
    r
}

/// The stripe index of a key among `stripe_count` stripes.
pub open spec fn stripe_index_spec(key: Seq<u8>, stripe_count: usize) -> usize {
    (key_hash(key) as int % stripe_count as int) as usize
}

/// The stripe of a key identity.
pub open spec fn stripe_of(id: KeyLockIdentity, stripe_count: usize) -> Stripe {
    (namespace_spec(id.data_type), stripe_index_spec(id.key@, stripe_count))
}

/// The global order on stripes: by namespace, then by index.
pub open spec fn stripe_lt(a: Stripe, b: Stripe) -> bool {
    a.0 < b.0 || (a.0 == b.0 && a.1 < b.1)
}

/// Stripes listed in strictly ascending order (so each at most once).
pub open spec fn strictly_ascending(v: Seq<(Stripe, KeyMode)>) -> bool {
    forall|i: int, j: int| 0 <= i < j < v.len() ==> stripe_lt(#[trigger] v[i].0, #[trigger] v[j].0)
}

/// Whether stripe `t` is listed in `v`.
pub open spec fn lists(v: Seq<(Stripe, KeyMode)>, t: Stripe) -> bool {
    exists|i: int| 0 <= i < v.len() && (#[trigger] v[i]).0 == t
}

/// A list of stripes with their modes, read as a map.
pub open spec fn stripe_map(v: Seq<(Stripe, KeyMode)>) -> Map<Stripe, KeyMode> {
    Map::new(
        |t: Stripe| lists(v, t),
        |t: Stripe| v[choose|i: int| 0 <= i < v.len() && (#[trigger] v[i]).0 == t].1,
    )
}

/// The namespace of a data type.
pub fn data_type_namespace(data_type: DataType) -> (r: usize)
    ensures
        r == namespace_spec(data_type),
        r < KEY_LOCK_NAMESPACE_COUNT,
{
    match data_type {
        DataType::String => 0,
        DataType::Hash => 1,
        DataType::List => 2,
        DataType::SetType => 3,
        DataType::ZSet => 4,
    }
}

/// The stripe index of `key` among `stripe_count` stripes.
pub fn stripe_index(key: &[u8], stripe_count: usize) -> (r: usize)
    requires
        stripe_count > 0,
    ensures
        r == stripe_index_spec(key@, stripe_count),
        r < stripe_count,
{
    let prefix = length_prefix(key.len());
    let mut hasher = DefaultHasher::new();
    hasher.write(prefix.as_slice());
    hasher.write(key);
    let h: u64 = hasher.finish();
    proof {
        assert(hasher@ =~= seq![le_u64_bytes(key@.len() as u64), key@]);
    }
    let count: u64 = stripe_count as u64;
    (h % count) as usize
}

/// The stripe of a key identity.
pub fn lock_stripe(identity: &KeyLockIdentity, stripe_count: usize) -> (r: Stripe)
    requires
        stripe_count > 0,
    ensures
        r == stripe_of(*identity, stripe_count),
        r.0 < KEY_LOCK_NAMESPACE_COUNT,
        r.1 < stripe_count,
{
    (data_type_namespace(identity.data_type), stripe_index(identity.key.as_slice(), stripe_count))
}

fn stripe_less(a: Stripe, b: Stripe) -> (r: bool)
    ensures
        r == stripe_lt(a, b),
{
    a.0 < b.0 || (a.0 == b.0 && a.1 < b.1)
}

/// In a strictly ascending list, each listed stripe maps to the mode next to it.
proof fn lemma_stripe_map_entries(v: Seq<(Stripe, KeyMode)>)
    requires
        strictly_ascending(v),
    ensures
        forall|k: int|
            0 <= k < v.len() ==> #[trigger] stripe_map(v).contains_key(v[k].0) && stripe_map(v)[v[k].0]
                == v[k].1,
{
    assert forall|k: int| 0 <= k < v.len() implies #[trigger] stripe_map(v).contains_key(v[k].0)
        && stripe_map(v)[v[k].0] == v[k].1 by {
        assert(lists(v, v[k].0));
        let c = choose|i: int| 0 <= i < v.len() && (#[trigger] v[i]).0 == v[k].0;
        if c < k {
            assert(stripe_lt(v[c].0, v[k].0));
        } else if c > k {
            assert(stripe_lt(v[k].0, v[c].0));
        }
    }
}

/// What recording stripe `s` with `mode` does to the map: a stripe already listed
/// keeps its mode unless `overwrite`; otherwise `s` maps to `mode`.
pub open spec fn recorded(m: Map<Stripe, KeyMode>, s: Stripe, mode: KeyMode, overwrite: bool) -> Map<
    Stripe,
    KeyMode,
> {
    if m.contains_key(s) && !overwrite {
        m
    } else {
        m.insert(s, mode)
    }
}

/// Records stripe `s` in the ascending list `v`.
fn record_stripe(v: &mut Vec<(Stripe, KeyMode)>, s: Stripe, mode: KeyMode, overwrite: bool)
    requires
        strictly_ascending(old(v)@),
    ensures
        strictly_ascending(final(v)@),
        stripe_map(final(v)@) == recorded(stripe_map(old(v)@), s, mode, overwrite),
{
    let ghost o = v@;
    proof {
        lemma_stripe_map_entries(o);
    }
    let mut i: usize = 0;
    while i < v.len() && stripe_less(v[i].0, s)
        invariant
            v@ == o,
            i <= v.len(),
            forall|j: int| 0 <= j < i ==> stripe_lt(#[trigger] o[j].0, s),
        decreases v.len() - i,
    {
        i = i + 1;
    }
    if i < v.len() && v[i].0 .0 == s.0 && v[i].0 .1 == s.1 {
        proof {
            assert(stripe_map(o).contains_key(s));
        }
        if overwrite {
            v.set(i, (s, mode));
            let ghost n = v@;
            assert(strictly_ascending(n)) by {
                assert forall|a: int, b: int| 0 <= a < b < n.len() implies stripe_lt(
                    #[trigger] n[a].0,
                    #[trigger] n[b].0,
                ) by {
                    assert(stripe_lt(o[a].0, o[b].0));
                }
            }
            proof {
                lemma_stripe_map_entries(n);
                let target = stripe_map(o).insert(s, mode);
                assert forall|t: Stripe| #[trigger] stripe_map(n).contains_key(t) <==> target.contains_key(t) by {
                    if lists(n, t) {
                        let k = choose|k: int| 0 <= k < n.len() && (#[trigger] n[k]).0 == t;
                        assert(o[k].0 == t);
                    }
                    if lists(o, t) {
                        let k = choose|k: int| 0 <= k < o.len() && (#[trigger] o[k]).0 == t;
                        assert(n[k].0 == t);
                    }
                }
                assert forall|t: Stripe| #[trigger] stripe_map(n).contains_key(t) implies stripe_map(n)[t]
                    == target[t] by {
                    let k = choose|k: int| 0 <= k < n.len() && (#[trigger] n[k]).0 == t;
                    assert(stripe_map(n)[n[k].0] == n[k].1);
                    if k != i {
                        assert(o[k] == n[k]);
                        assert(stripe_map(o)[o[k].0] == o[k].1);
                    }
                }
                assert(stripe_map(n) =~= target);
            }
        }
    } else {
        proof {
            assert(!lists(o, s)) by {
                if lists(o, s) {
                    let k = choose|k: int| 0 <= k < o.len() && (#[trigger] o[k]).0 == s;
                    if k >= i {
                        assert(i < o.len());
                        if k > i {
                            assert(stripe_lt(o[i as int].0, o[k].0));
                        }
                    }
                }
            }
            assert(i < o.len() ==> stripe_lt(s, o[i as int].0));
        }
        v.insert(i, (s, mode));
        let ghost n = v@;
        assert(n.len() == o.len() + 1);
        assert(forall|k: int| 0 <= k < i ==> n[k] == o[k]);
        assert(forall|k: int| i < k < n.len() ==> n[k] == o[k - 1]);
        assert(n[i as int] == (s, mode));
        assert(strictly_ascending(n)) by {
            assert forall|a: int, b: int| 0 <= a < b < n.len() implies stripe_lt(
                #[trigger] n[a].0,
                #[trigger] n[b].0,
            ) by {
                if a < i && b < i {
                    assert(stripe_lt(o[a].0, o[b].0));
                } else if a < i && b == i {
                } else if a < i {
                    assert(stripe_lt(o[a].0, s));
                    assert(stripe_lt(s, o[i as int].0));
                    if b - 1 > i {
                        assert(stripe_lt(o[i as int].0, o[b - 1].0));
                    }
                } else if a == i {
                    if b - 1 > i {
                        assert(stripe_lt(o[i as int].0, o[b - 1].0));
                    }
                } else {
                    assert(stripe_lt(o[a - 1].0, o[b - 1].0));
                }
            }
        }
        proof {
            lemma_stripe_map_entries(n);
            let target = stripe_map(o).insert(s, mode);
            assert forall|t: Stripe| #[trigger] stripe_map(n).contains_key(t) <==> target.contains_key(t) by {
                if lists(n, t) {
                    let k = choose|k: int| 0 <= k < n.len() && (#[trigger] n[k]).0 == t;
                    if k < i {
                        assert(o[k].0 == t);
                    } else if k > i {
                        assert(o[k - 1].0 == t);
                    }
                }
                if lists(o, t) {
                    let k = choose|k: int| 0 <= k < o.len() && (#[trigger] o[k]).0 == t;
                    if k < i {
                        assert(n[k].0 == t);
                    } else {
                        assert(n[k + 1].0 == t);
                    }
                }
            }
            assert forall|t: Stripe| #[trigger] stripe_map(n).contains_key(t) implies stripe_map(n)[t]
                == target[t] by {
                let k = choose|k: int| 0 <= k < n.len() && (#[trigger] n[k]).0 == t;
                assert(stripe_map(n)[n[k].0] == n[k].1);
                if k < i {
                    assert(stripe_map(o)[o[k].0] == o[k].1);
                } else if k > i {
                    assert(stripe_map(o)[o[k - 1].0] == o[k - 1].1);
                }
            }
            assert(stripe_map(n) =~= target);
        }
    }
}

/// The stripes after the read keys are recorded in order: each stripe first met
/// is taken for reading.
pub open spec fn read_phase(keys: Seq<KeyLockIdentity>, stripe_count: usize) -> Map<Stripe, KeyMode>
    decreases keys.len(),
{
    if keys.len() == 0 {
        Map::empty()
    } else {
        recorded(
            read_phase(keys.drop_last(), stripe_count),
            stripe_of(keys.last(), stripe_count),
            KeyMode::Read,
            false,
        )
    }
}

/// The stripes after the write keys are recorded on top of `m`: each is taken
/// for writing, whatever it was.
pub open spec fn write_phase(m: Map<Stripe, KeyMode>, keys: Seq<KeyLockIdentity>, stripe_count: usize) -> Map<
    Stripe,
    KeyMode,
>
    decreases keys.len(),
{
    if keys.len() == 0 {
        m
    } else {
        recorded(
            write_phase(m, keys.drop_last(), stripe_count),
            stripe_of(keys.last(), stripe_count),
            KeyMode::Write,
            true,
        )
    }
}

/// The stripes a key lock takes, with their modes.
pub open spec fn expected_stripes(lock: StorageLock, stripe_count: usize) -> Map<Stripe, KeyMode> {
    write_phase(read_phase(lock.read_keys@, stripe_count), lock.write_keys@, stripe_count)
}

/// Whether some key of `keys` falls on stripe `t`.
pub open spec fn some_key_on(keys: Seq<KeyLockIdentity>, t: Stripe, stripe_count: usize) -> bool {
    exists|i: int| 0 <= i < keys.len() && stripe_of(#[trigger] keys[i], stripe_count) == t
}

/// The stripes of `lock`, each once, in ascending order, with the mode it is taken in.
pub fn ordered_key_stripes(lock: &StorageLock, stripe_count: usize) -> (r: Vec<(Stripe, KeyMode)>)
    requires
        stripe_count > 0,
    ensures
        strictly_ascending(r@),
        stripe_map(r@) == expected_stripes(*lock, stripe_count),
        forall|i: int|
            0 <= i < r.len() ==> (#[trigger] r[i]).0.0 < KEY_LOCK_NAMESPACE_COUNT && r[i].0.1
                < stripe_count,
{
    let mut stripes: Vec<(Stripe, KeyMode)> = Vec::new();
    let ghost reads = lock.read_keys@;
    let ghost writes = lock.write_keys@;
    proof {
        assert(stripe_map(stripes@) =~= Map::<Stripe, KeyMode>::empty());
        assert(reads.take(0) =~= Seq::<KeyLockIdentity>::empty());
    }
    let mut i: usize = 0;
    while i < lock.read_keys.len()
        invariant
            stripe_count > 0,
            reads == lock.read_keys@,
            i <= reads.len(),
            strictly_ascending(stripes@),
            stripe_map(stripes@) == read_phase(reads.take(i as int), stripe_count),
            forall|k: int|
                0 <= k < stripes.len() ==> (#[trigger] stripes[k]).0.0 < KEY_LOCK_NAMESPACE_COUNT
                    && stripes[k].0.1 < stripe_count,
        decreases reads.len() - i,
    {
        let s = lock_stripe(&lock.read_keys[i], stripe_count);
        let ghost before = stripes@;
        record_stripe(&mut stripes, s, KeyMode::Read, false);
        proof {
            lemma_stripe_bounds_kept(before, stripes@, s, stripe_count);
            assert(reads.take(i + 1).drop_last() =~= reads.take(i as int));
        }
        i = i + 1;
    }
    proof {
        assert(reads.take(reads.len() as int) =~= reads);
        assert(writes.take(0) =~= Seq::<KeyLockIdentity>::empty());
    }
    let mut j: usize = 0;
    while j < lock.write_keys.len()
        invariant
            stripe_count > 0,
            reads == lock.read_keys@,
            writes == lock.write_keys@,
            j <= writes.len(),
            strictly_ascending(stripes@),
            stripe_map(stripes@) == write_phase(
                read_phase(reads, stripe_count),
                writes.take(j as int),
                stripe_count,
            ),
            forall|k: int|
                0 <= k < stripes.len() ==> (#[trigger] stripes[k]).0.0 < KEY_LOCK_NAMESPACE_COUNT
                    && stripes[k].0.1 < stripe_count,
        decreases writes.len() - j,
    {
        let s = lock_stripe(&lock.write_keys[j], stripe_count);
        let ghost before = stripes@;
        record_stripe(&mut stripes, s, KeyMode::Write, true);
        proof {
            lemma_stripe_bounds_kept(before, stripes@, s, stripe_count);
            assert(writes.take(j + 1).drop_last() =~= writes.take(j as int));
        }
        j = j + 1;
    }
    proof {
        assert(writes.take(writes.len() as int) =~= writes);
    }
    stripes
}

/// Recording an in-range stripe keeps every listed stripe in range.
proof fn lemma_stripe_bounds_kept(
    before: Seq<(Stripe, KeyMode)>,
    after: Seq<(Stripe, KeyMode)>,
    s: Stripe,
    stripe_count: usize,
)
    requires
        strictly_ascending(before),
        strictly_ascending(after),
        s.0 < KEY_LOCK_NAMESPACE_COUNT,
        s.1 < stripe_count,
        forall|k: int|
            0 <= k < before.len() ==> (#[trigger] before[k]).0.0 < KEY_LOCK_NAMESPACE_COUNT
                && before[k].0.1 < stripe_count,
        stripe_map(after).dom() =~= stripe_map(before).dom().insert(s),
    ensures
        forall|k: int|
            0 <= k < after.len() ==> (#[trigger] after[k]).0.0 < KEY_LOCK_NAMESPACE_COUNT
                && after[k].0.1 < stripe_count,
{
    lemma_stripe_map_entries(after);
    assert forall|k: int| 0 <= k < after.len() implies (#[trigger] after[k]).0.0
        < KEY_LOCK_NAMESPACE_COUNT && after[k].0.1 < stripe_count by {
        assert(stripe_map(after).contains_key(after[k].0));
        if after[k].0 != s {
            assert(stripe_map(before).contains_key(after[k].0));
            let c = choose|c: int| 0 <= c < before.len() && (#[trigger] before[c]).0 == after[k].0;
            assert(before[c].0.0 < KEY_LOCK_NAMESPACE_COUNT);
        }
    }
}

/// The identities of `keys` within the namespace of `data_type`, in order.
pub open spec fn identities_of(data_type: DataType, keys: Seq<Vec<u8>>, ids: Seq<KeyLockIdentity>) -> bool {
    &&& ids.len() == keys.len()
    &&& forall|i: int|
        0 <= i < ids.len() ==> (#[trigger] ids[i]).data_type == data_type && ids[i].key@ == keys[i]@
}

fn identities(data_type: DataType, keys: Vec<Vec<u8>>) -> (r: Vec<KeyLockIdentity>)
    ensures
        identities_of(data_type, keys@, r@),
{
    let mut r: Vec<KeyLockIdentity> = Vec::new();
    let mut rest = keys;
    let ghost all = rest@;
    let n = rest.len();
    // Keys are taken from the back, then the identities are turned around.
    while rest.len() > 0
        invariant
            n == all.len(),
            rest@ == all.take(rest.len() as int),
            r.len() + rest.len() == n,
            forall|k: int|
                0 <= k < r.len() ==> (#[trigger] r[k]).data_type == data_type && r[k].key@ == all[n
                    - 1 - k]@,
        decreases rest.len(),
    {
        let key = rest.pop().unwrap();
        r.push(KeyLockIdentity { data_type, key });
        proof {
            assert(rest@ =~= all.take(rest.len() as int));
        }
    }
    let mut out: Vec<KeyLockIdentity> = Vec::new();
    while r.len() > 0
        invariant
            n == all.len(),
            out.len() + r.len() == n,
            forall|k: int|
                0 <= k < r.len() ==> (#[trigger] r[k]).data_type == data_type && r[k].key@ == all[n
                    - 1 - k]@,
            forall|k: int|
                0 <= k < out.len() ==> (#[trigger] out[k]).data_type == data_type && out[k].key@
                    == all[k]@,
        decreases r.len(),
    {
        let id = r.pop().unwrap();
        out.push(id);
    }
    out
}

impl StorageLock {
    /// The lock that excludes every other lock.
    pub fn global_write() -> (r: StorageLock)
        ensures
            r.mode == StorageLockMode::GlobalWrite,
            r.read_keys@.len() == 0,
            r.write_keys@.len() == 0,
    {
        StorageLock { mode: StorageLockMode::GlobalWrite, read_keys: Vec::new(), write_keys: Vec::new() }
    }

    /// Shared locks on `keys` of type `data_type`.
    pub fn read_keys(data_type: DataType, keys: Vec<Vec<u8>>) -> (r: StorageLock)
        ensures
            r.mode == StorageLockMode::Keys,
            identities_of(data_type, keys@, r.read_keys@),
            r.write_keys@.len() == 0,
    {
        StorageLock { mode: StorageLockMode::Keys, read_keys: identities(data_type, keys), write_keys: Vec::new() }
    }

    /// Exclusive locks on `keys` of type `data_type`.
    pub fn write_keys(data_type: DataType, keys: Vec<Vec<u8>>) -> (r: StorageLock)
        ensures
            r.mode == StorageLockMode::Keys,
            r.read_keys@.len() == 0,
            identities_of(data_type, keys@, r.write_keys@),
    {
        StorageLock { mode: StorageLockMode::Keys, read_keys: Vec::new(), write_keys: identities(data_type, keys) }
    }
}

proof fn lemma_read_phase(keys: Seq<KeyLockIdentity>, stripe_count: usize)
    ensures
        forall|t: Stripe| #[trigger]
            read_phase(keys, stripe_count).contains_key(t) <==> some_key_on(keys, t, stripe_count),
        forall|t: Stripe| #[trigger]
            read_phase(keys, stripe_count).contains_key(t) ==> read_phase(keys, stripe_count)[t]
                == KeyMode::Read,
    decreases keys.len(),
{
    if keys.len() > 0 {
        let init = keys.drop_last();
        lemma_read_phase(init, stripe_count);
        assert forall|t: Stripe| #[trigger]
            read_phase(keys, stripe_count).contains_key(t) <==> some_key_on(keys, t, stripe_count) by {
            if some_key_on(init, t, stripe_count) {
                let i = choose|i: int| 0 <= i < init.len() && stripe_of(#[trigger] init[i], stripe_count) == t;
                assert(keys[i] == init[i]);
            }
            if some_key_on(keys, t, stripe_count) {
                let i = choose|i: int| 0 <= i < keys.len() && stripe_of(#[trigger] keys[i], stripe_count) == t;
                if i < keys.len() - 1 {
                    assert(init[i] == keys[i]);
                }
            }
            if stripe_of(keys.last(), stripe_count) == t {
                assert(keys[keys.len() - 1] == keys.last());
            }
        }
    }
}

proof fn lemma_write_phase(m: Map<Stripe, KeyMode>, keys: Seq<KeyLockIdentity>, stripe_count: usize)
    ensures
        forall|t: Stripe| #[trigger]
            write_phase(m, keys, stripe_count).contains_key(t) <==> (m.contains_key(t) || some_key_on(
                keys,
                t,
                stripe_count,
            )),
        forall|t: Stripe| #[trigger]
            write_phase(m, keys, stripe_count).contains_key(t) ==> write_phase(m, keys, stripe_count)[t]
                == if some_key_on(keys, t, stripe_count) {
                KeyMode::Write
            } else {
                m[t]
            },
    decreases keys.len(),
{
    if keys.len() > 0 {
        let init = keys.drop_last();
        lemma_write_phase(m, init, stripe_count);
        assert forall|t: Stripe| some_key_on(keys, t, stripe_count) <==> (some_key_on(init, t, stripe_count)
            || stripe_of(keys.last(), stripe_count) == t) by {
            if some_key_on(init, t, stripe_count) {
                let i = choose|i: int| 0 <= i < init.len() && stripe_of(#[trigger] init[i], stripe_count) == t;
                assert(keys[i] == init[i]);
            }
            if some_key_on(keys, t, stripe_count) {
                let i = choose|i: int| 0 <= i < keys.len() && stripe_of(#[trigger] keys[i], stripe_count) == t;
                if i < keys.len() - 1 {
                    assert(init[i] == keys[i]);
                }
            }
            if stripe_of(keys.last(), stripe_count) == t {
                assert(keys[keys.len() - 1] == keys.last());
            }
        }
    }
}

/// A key lock takes exactly the stripes its keys fall on; a stripe is taken for
/// writing exactly when a key to be written falls on it, and for reading otherwise.
pub proof fn lemma_key_lock_stripes(lock: StorageLock, stripe_count: usize)
    ensures
        forall|t: Stripe| #[trigger]
            expected_stripes(lock, stripe_count).contains_key(t) <==> (some_key_on(
                lock.read_keys@,
                t,
                stripe_count,
            ) || some_key_on(lock.write_keys@, t, stripe_count)),
        forall|t: Stripe| #[trigger]
            expected_stripes(lock, stripe_count).contains_key(t) ==> (expected_stripes(lock, stripe_count)[t]
                == KeyMode::Write <==> some_key_on(lock.write_keys@, t, stripe_count)),
{
    lemma_read_phase(lock.read_keys@, stripe_count);
    lemma_write_phase(read_phase(lock.read_keys@, stripe_count), lock.write_keys@, stripe_count);
}

/// Keys of different data types never share a stripe, whatever their bytes.
pub proof fn lemma_types_never_share_stripes(a: KeyLockIdentity, b: KeyLockIdentity, stripe_count: usize)
    requires
        a.data_type != b.data_type,
    ensures
        stripe_of(a, stripe_count) != stripe_of(b, stripe_count),
{
}

/// Two key locks take their common stripes in the same relative order, so
/// neither can hold one stripe while waiting for another that the other holds
/// first.
pub proof fn lemma_common_stripes_same_order(
    x: Seq<(Stripe, KeyMode)>,
    y: Seq<(Stripe, KeyMode)>,
    a: Stripe,
    b: Stripe,
    i1: int,
    j1: int,
    i2: int,
    j2: int,
)
    requires
        strictly_ascending(x),
        strictly_ascending(y),
        0 <= i1 < x.len(),
        0 <= j1 < x.len(),
        0 <= i2 < y.len(),
        0 <= j2 < y.len(),
        x[i1].0 == a,
        x[j1].0 == b,
        y[i2].0 == a,
        y[j2].0 == b,
    ensures
        i1 < j1 <==> i2 < j2,
{
    if i1 < j1 {
        assert(stripe_lt(x[i1].0, x[j1].0));
        if j2 < i2 {
            assert(stripe_lt(y[j2].0, y[i2].0));
        }
    }
    if i2 < j2 {
        assert(stripe_lt(y[i2].0, y[j2].0));
        if j1 < i1 {
            assert(stripe_lt(x[j1].0, x[i1].0));
        }
    }
}

} // verus!
