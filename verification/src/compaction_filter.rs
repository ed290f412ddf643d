//! The compaction filter of the collection databases: sub-key rows older than the
//! newest generation of their collection's metadata are replaced by tombstones.
//!
//! Metadata is the exact prefix of every sub-key of its collection, so it sorts
//! before them in the compaction stream. The filter remembers only the strongest
//! cutoff seen for the current user key, reads nothing from the database, and
//! keeps every row when no metadata of its key is part of the input.
use vstd::prelude::*;
use crate::codec::{read_u16, read_u32, u16_of, u32_of, copy_range};
use crate::data_type::DataType;
use crate::meta::{AnyValue, ValueModel, decode_value_spec, model_type, model_version};

verus! {

/// The generation boundary below which sub-keys of a collection are stale.
#[derive(Debug, Clone, Copy, PartialEq, Eq, Structural)]
pub struct Cutoff {
    pub seq: u64,
    pub inclusive: bool,
}

/// The value of a row in the compaction stream.
#[derive(Debug, PartialEq, Eq)]
pub enum RowValue {
    Value(Vec<u8>),
    Merge(Vec<u8>),
    Tombstone,
}

/// One row of the compaction stream.
#[derive(Debug, PartialEq, Eq)]
pub struct FilterRow {
    pub key: Vec<u8>,
    pub value: RowValue,
    pub seq: u64,
    pub expire_ts: Option<i64>,
}

/// What the filter does with a row.
#[derive(Debug, Clone, Copy, PartialEq, Eq, Structural)]
pub enum FilterDecision {
    Keep,
    Tombstone,
}

pub enum RowValueModel {
    Value(Seq<u8>),
    Merge(Seq<u8>),
    Tombstone,
}

pub struct RowModel {
    pub key: Seq<u8>,
    pub value: RowValueModel,
    pub seq: u64,
    pub expire_ts: Option<i64>,
}

impl View for FilterRow {
    type V = RowModel;

    open spec fn view(&self) -> RowModel {
        RowModel {
            key: self.key@,
            value: match self.value {
                RowValue::Value(v) => RowValueModel::Value(v@),
                RowValue::Merge(v) => RowValueModel::Merge(v@),
                RowValue::Tombstone => RowValueModel::Tombstone,
            },
            seq: self.seq,
            expire_ts: self.expire_ts,
        }
    }
}

/// Compaction filter used by the hash, list, set and sorted-set databases.
pub struct CollectionCompactionFilter {
    pub data_type: DataType,
    current_user_key: Option<Vec<u8>>,
    strongest_cutoff: Option<Cutoff>,
    compaction_clock_tick: i64,
    retention_min_seq: Option<u64>,
    reclaimed_count: u64,
}

/// The state of a compaction filter.
pub struct FilterModel {
    pub data_type: DataType,
    pub current_user_key: Option<Seq<u8>>,
    pub strongest_cutoff: Option<Cutoff>,
    pub compaction_clock_tick: i64,
    pub retention_min_seq: Option<u64>,
    pub reclaimed_count: u64,
}

impl View for CollectionCompactionFilter {
    type V = FilterModel;

    closed spec fn view(&self) -> FilterModel {
        FilterModel {
            data_type: self.data_type,
            current_user_key: match self.current_user_key {
                Some(k) => Some(k@),
                None => None,
            },
            strongest_cutoff: self.strongest_cutoff,
            compaction_clock_tick: self.compaction_clock_tick,
            retention_min_seq: self.retention_min_seq,
            reclaimed_count: self.reclaimed_count,
        }
    }
}

// ---- the specification of one filter step ----

/// The user key that a row key starts with, if its length prefix fits.
pub open spec fn decode_user_key_spec(key: Seq<u8>) -> Option<Seq<u8>> {
    if key.len() < 2 || key.len() - 2 < u16_of(key) {
        None
    } else {
        Some(key.subrange(2, 2 + u16_of(key) as int))
    }
}

/// `key` is a well-formed sub-key of `user_key` in the database of `dt`.
pub open spec fn is_valid_sub_key_spec(dt: DataType, key: Seq<u8>, user_key: Seq<u8>) -> bool {
    let prefix_len = 2 + user_key.len();
    if key.len() < prefix_len {
        false
    } else {
        let suffix = key.subrange(prefix_len as int, key.len() as int);
        match dt {
            DataType::Hash | DataType::SetType => suffix.len() >= 4 && suffix.len() - 4 == u32_of(
                suffix,
            ),
            DataType::List => suffix.len() == 8,
            DataType::ZSet => if suffix.len() >= 5 && suffix[0] == 77 {
                suffix.len() - 5 == u32_of(suffix.drop_first())
            } else {
                suffix.len() >= 1 && suffix[0] == 83 && suffix.len() >= 9
            },
            DataType::String => false,
        }
    }
}

/// The cutoff that a metadata row of the current user key offers.
pub open spec fn meta_candidate(s: FilterModel, e: RowModel) -> Option<Cutoff> {
    match e.value {
        RowValueModel::Tombstone => Some(Cutoff { seq: e.seq, inclusive: true }),
        RowValueModel::Merge(_) => None,
        RowValueModel::Value(bytes) => match decode_value_spec(bytes) {
            Ok(v) => if model_type(v) == s.data_type {
                if e.expire_ts is Some && e.expire_ts.unwrap() <= s.compaction_clock_tick {
                    Some(Cutoff { seq: e.seq, inclusive: true })
                } else {
                    Some(
                        Cutoff {
                            seq: match model_version(v) {
                                Some(version) => if version == 0 {
                                    e.seq
                                } else {
                                    version
                                },
                                None => e.seq,
                            },
                            inclusive: false,
                        },
                    )
                }
            } else if model_type(v) == DataType::String {
                Some(Cutoff { seq: e.seq, inclusive: true })
            } else {
                None
            },
            Err(_) => None,
        },
    }
}

/// `c` hides at least the rows that `d` hides.
pub open spec fn cutoff_at_least(c: Cutoff, d: Cutoff) -> bool {
    c.seq > d.seq || (c.seq == d.seq && (c.inclusive || !d.inclusive))
}

/// The strongest cutoff after offering `candidate`: one newer than the oldest
/// protected snapshot is refused, and otherwise the stronger of the two stays.
pub open spec fn add_cutoff_spec(
    current: Option<Cutoff>,
    retention_min_seq: Option<u64>,
    candidate: Cutoff,
) -> Option<Cutoff> {
    if retention_min_seq is Some && candidate.seq > retention_min_seq.unwrap() {
        current
    } else if current is None || candidate.seq > current.unwrap().seq || (candidate.seq
        == current.unwrap().seq && candidate.inclusive && !current.unwrap().inclusive) {
        Some(candidate)
    } else {
        current
    }
}

/// A row at `seq` is hidden by `c`.
pub open spec fn covered_by(c: Cutoff, seq: u64) -> bool {
    seq < c.seq || (c.inclusive && seq == c.seq)
}

/// One step of the filter: its next state and its decision on row `e`.
pub open spec fn filter_step(s: FilterModel, e: RowModel) -> (FilterModel, FilterDecision) {
    match decode_user_key_spec(e.key) {
        None => (s, FilterDecision::Keep),
        Some(user_key) => {
            let s1 = if s.current_user_key == Some(user_key) {
                s
            } else {
                FilterModel { current_user_key: Some(user_key), strongest_cutoff: None, ..s }
            };
            if e.key.len() == 2 + user_key.len() {
                let s2 = match meta_candidate(s1, e) {
                    Some(c) => FilterModel {
                        strongest_cutoff: add_cutoff_spec(
                            s1.strongest_cutoff,
                            s1.retention_min_seq,
                            c,
                        ),
                        ..s1
                    },
                    None => s1,
                };
                (s2, FilterDecision::Keep)
            } else if !is_valid_sub_key_spec(s1.data_type, e.key, user_key) {
                (s1, FilterDecision::Keep)
            } else if e.value is Tombstone {
                (s1, FilterDecision::Keep)
            } else if s1.strongest_cutoff is Some && covered_by(
                s1.strongest_cutoff.unwrap(),
                e.seq,
            ) {
                (
                    FilterModel {
                        reclaimed_count: if s1.reclaimed_count == u64::MAX {
                            u64::MAX
                        } else {
                            (s1.reclaimed_count + 1) as u64
                        },
                        ..s1
                    },
                    FilterDecision::Tombstone,
                )
            } else {
                (s1, FilterDecision::Keep)
            }
        },
    }
}

// ---- the filter ----

impl CollectionCompactionFilter {
    /// A filter for one compaction job over the database of `data_type`.
    pub fn new(data_type: DataType, compaction_clock_tick: i64, retention_min_seq: Option<u64>) -> (r:
        CollectionCompactionFilter)
        ensures
            r@ == (FilterModel {
                data_type,
                current_user_key: None,
                strongest_cutoff: None,
                compaction_clock_tick,
                retention_min_seq,
                reclaimed_count: 0,
            }),
    {
        CollectionCompactionFilter {
            data_type,
            current_user_key: None,
            strongest_cutoff: None,
            compaction_clock_tick,
            retention_min_seq,
            reclaimed_count: 0,
        }
    }

    /// How many sub-key rows this filter replaced by tombstones.
    pub fn reclaimed_count(&self) -> (r: u64)
        ensures
            r == self@.reclaimed_count,
    {
        self.reclaimed_count
    }

    /// The strongest cutoff seen for the current user key.
    pub fn strongest_cutoff(&self) -> (r: Option<Cutoff>)
        ensures
            r == self@.strongest_cutoff,
    {
        self.strongest_cutoff
    }

    /// The user-key portion of a top-level key or sub-key.
    pub fn decode_user_key(key: &[u8]) -> (r: Option<Vec<u8>>)
        ensures
            match decode_user_key_spec(key@) {
                Some(k) => r matches Some(v) && v@ == k,
                None => r is None,
            },
    {
        if key.len() < 2 {
            return None;
        }
        let key_len = read_u16(key, 0) as usize;
        proof {
            assert(key@.subrange(0, 2)[0] == key@[0]);
            assert(key@.subrange(0, 2)[1] == key@[1]);
        }
        if key.len() - 2 < key_len {
            return None;
        }
        Some(copy_range(key, 2, 2 + key_len))
    }

    fn same_key(a: &Vec<u8>, b: &Vec<u8>) -> (r: bool)
        ensures
            r == (a@ == b@),
    {
        if a.len() != b.len() {
            return false;
        }
        let mut i: usize = 0;
        while i < a.len()
            invariant
                a@.len() == b@.len(),
                0 <= i <= a@.len(),
                a@.subrange(0, i as int) == b@.subrange(0, i as int),
            decreases a@.len() - i,
        {
            if a[i] != b[i] {
                assert(a@[i as int] != b@[i as int]);
                return false;
            }
            i = i + 1;
            assert(a@.subrange(0, i as int) =~= b@.subrange(0, i as int)) by {
                assert(a@.subrange(0, i - 1) == b@.subrange(0, i - 1));
                assert forall|j: int| 0 <= j < i implies a@.subrange(0, i as int)[j] == b@.subrange(0, i as int)[j] by {
                    if j < i - 1 {
                        assert(a@.subrange(0, i - 1)[j] == b@.subrange(0, i - 1)[j]);
                    }
                }
            }
        }
        assert(a@ =~= a@.subrange(0, i as int));
        assert(b@ =~= b@.subrange(0, i as int));
        true
    }

    fn select_user_key(&mut self, user_key: &Vec<u8>)
        ensures
            final(self)@ == (if old(self)@.current_user_key == Some(user_key@) {
                old(self)@
            } else {
                FilterModel {
                    current_user_key: Some(user_key@),
                    strongest_cutoff: None,
                    ..old(self)@
                }
            }),
    {
        let same = match &self.current_user_key {
            Some(current) => Self::same_key(current, user_key),
            None => false,
        };
        if same {
            return;
        }
        let copy = user_key.clone();
        assert(copy@ =~= user_key@);
        self.current_user_key = Some(copy);
        self.strongest_cutoff = None;
    }

    fn is_valid_sub_key(&self, encoded_key: &[u8], user_key: &Vec<u8>) -> (r: bool)
        requires
            user_key@.len() <= 65535,
        ensures
            r == is_valid_sub_key_spec(self@.data_type, encoded_key@, user_key@),
    {
        let prefix_len = 2 + user_key.len();
        if encoded_key.len() < prefix_len {
            return false;
        }
        let suffix = copy_range(encoded_key, prefix_len, encoded_key.len());
        match self.data_type {
            DataType::Hash | DataType::SetType => {
                if suffix.len() < 4 {
                    return false;
                }
                let value_len = read_u32(suffix.as_slice(), 0) as usize;
                proof {
                    let t = suffix@;
                    assert(t.subrange(0, 4)[0] == t[0]);
                    assert(t.subrange(0, 4)[1] == t[1]);
                    assert(t.subrange(0, 4).subrange(2, 4) =~= t.subrange(2, 4));
                }
                suffix.len() - 4 == value_len
            },
            DataType::List => suffix.len() == 8,
            DataType::ZSet => {
                if suffix.len() >= 5 && suffix[0] == 77 {
                    let member_len = read_u32(suffix.as_slice(), 1) as usize;
                    proof {
                        let t = suffix@;
                        let d = t.drop_first();
                        assert(t.subrange(1, 5)[0] == d[0]);
                        assert(t.subrange(1, 5)[1] == d[1]);
                        assert(t.subrange(1, 5).subrange(2, 4) =~= d.subrange(2, 4));
                    }
                    suffix.len() - 5 == member_len
                } else {
                    suffix.len() >= 9 && suffix[0] == 83
                }
            },
            DataType::String => false,
        }
    }

    fn add_cutoff(&mut self, candidate: Cutoff)
        ensures
            final(self)@ == (FilterModel {
                strongest_cutoff: add_cutoff_spec(
                    old(self)@.strongest_cutoff,
                    old(self)@.retention_min_seq,
                    candidate,
                ),
                ..old(self)@
            }),
    {
        // A cutoff newer than the oldest protected snapshot might hide rows that
        // snapshot still needs; an older metadata version can offer a safe one.
        if let Some(min_seq) = self.retention_min_seq {
            if candidate.seq > min_seq {
                return;
            }
        }
        let replace = match self.strongest_cutoff {
            None => true,
            Some(current) => candidate.seq > current.seq || (candidate.seq == current.seq
                && candidate.inclusive && !current.inclusive),
        };
        if replace {
            self.strongest_cutoff = Some(candidate);
        }
    }

    fn meta_candidate(&self, entry: &FilterRow) -> (r: Option<Cutoff>)
        ensures
            r == meta_candidate(self@, entry@),
    {
        match &entry.value {
            RowValue::Tombstone => Some(Cutoff { seq: entry.seq, inclusive: true }),
            RowValue::Merge(_) => None,
            RowValue::Value(encoded) => match AnyValue::decode(encoded.as_slice()) {
                Ok(value) => {
                    let value_type = value.data_type();
                    if value_type == self.data_type {
                        let expired = match entry.expire_ts {
                            Some(expire_ts) => expire_ts <= self.compaction_clock_tick,
                            None => false,
                        };
                        if expired {
                            Some(Cutoff { seq: entry.seq, inclusive: true })
                        } else {
                            let version = match value.version() {
                                Some(version) => if version == 0 {
                                    entry.seq
                                } else {
                                    version
                                },
                                None => entry.seq,
                            };
                            Some(Cutoff { seq: version, inclusive: false })
                        }
                    } else if value_type == DataType::String {
                        // An earlier layout could atomically replace collection metadata
                        // with a String; that row is a generation barrier.
                        Some(Cutoff { seq: entry.seq, inclusive: true })
                    } else {
                        None
                    }
                },
                Err(_) => None,
            },
        }
    }

    /// Decides what becomes of one row of the compaction stream.
    pub fn filter(&mut self, entry: &FilterRow) -> (r: FilterDecision)
        ensures
            (final(self)@, r) == filter_step(old(self)@, entry@),
    {
        let user_key = match Self::decode_user_key(entry.key.as_slice()) {
            Some(k) => k,
            None => {
                return FilterDecision::Keep;
            },
        };
        self.select_user_key(&user_key);
        if entry.key.len() == 2 + user_key.len() {
            match self.meta_candidate(entry) {
                Some(candidate) => self.add_cutoff(candidate),
                None => {},
            }
            return FilterDecision::Keep;
        }
        if !self.is_valid_sub_key(entry.key.as_slice(), &user_key) {
            return FilterDecision::Keep;
        }
        if let RowValue::Tombstone = entry.value {
            return FilterDecision::Keep;
        }
        let should_delete = match self.strongest_cutoff {
            Some(cutoff) => entry.seq < cutoff.seq || (cutoff.inclusive && entry.seq == cutoff.seq),
            None => false,
        };
        if should_delete {
            self.reclaimed_count = self.reclaimed_count.saturating_add(1);
            return FilterDecision::Tombstone;
        }
        FilterDecision::Keep
    }
}

/// Supplies one compaction filter per compaction job of the database of `data_type`.
pub struct CollectionCompactionFilterSupplier {
    pub data_type: DataType,
}

impl CollectionCompactionFilterSupplier {
    pub fn new(data_type: DataType) -> (r: CollectionCompactionFilterSupplier)
        ensures
            r.data_type == data_type,
    {
        CollectionCompactionFilterSupplier { data_type }
    }

    /// The filter for a job that runs at `compaction_clock_tick` and must keep what
    /// snapshots at or above `retention_min_seq` can see.
    pub fn create_compaction_filter(&self, compaction_clock_tick: i64, retention_min_seq: Option<u64>) -> (r:
        CollectionCompactionFilter)
        ensures
            r@ == (FilterModel {
                data_type: self.data_type,
                current_user_key: None,
                strongest_cutoff: None,
                compaction_clock_tick,
                retention_min_seq,
                reclaimed_count: 0,
            }),
    {
        CollectionCompactionFilter::new(self.data_type, compaction_clock_tick, retention_min_seq)
    }
}

// ---- laws ----

/// The filter only ever replaces a well-formed, live sub-key row of the current
/// user key, and only when the strongest cutoff of that key hides its sequence;
/// metadata rows, tombstones and unrecognised keys are always kept.
pub proof fn lemma_filter_only_reclaims_covered_sub_keys(s: FilterModel, e: RowModel)
    ensures
        filter_step(s, e).1 == FilterDecision::Tombstone ==> {
            let next = filter_step(s, e).0;
            &&& decode_user_key_spec(e.key) is Some
            &&& next.current_user_key == decode_user_key_spec(e.key)
            &&& e.key.len() > 2 + decode_user_key_spec(e.key).unwrap().len()
            &&& is_valid_sub_key_spec(s.data_type, e.key, decode_user_key_spec(e.key).unwrap())
            &&& !(e.value is Tombstone)
            &&& next.strongest_cutoff is Some
            &&& covered_by(next.strongest_cutoff.unwrap(), e.seq)
        },
{
}

/// Until a metadata row of a user key has been seen, no row of that key is reclaimed.
pub proof fn lemma_filter_fails_open(s: FilterModel, e: RowModel)
    requires
        decode_user_key_spec(e.key) is Some,
        s.current_user_key != decode_user_key_spec(e.key),
    ensures
        filter_step(s, e).1 == FilterDecision::Keep,
{
}

/// While the filter stays on one user key, its cutoff never weakens: an older
/// metadata version cannot override a newer one.
pub proof fn lemma_cutoff_never_weakens(s: FilterModel, e: RowModel)
    requires
        s.strongest_cutoff is Some,
        s.current_user_key is Some,
        decode_user_key_spec(e.key) == s.current_user_key,
    ensures
        filter_step(s, e).0.strongest_cutoff is Some,
        cutoff_at_least(filter_step(s, e).0.strongest_cutoff.unwrap(), s.strongest_cutoff.unwrap()),
{
}

/// No cutoff newer than the oldest protected snapshot is ever adopted.
pub proof fn lemma_cutoff_respects_retention(s: FilterModel, e: RowModel)
    requires
        s.retention_min_seq is Some,
        s.strongest_cutoff is Some ==> s.strongest_cutoff.unwrap().seq <= s.retention_min_seq.unwrap(),
    ensures
        filter_step(s, e).0.retention_min_seq == s.retention_min_seq,
        filter_step(s, e).0.strongest_cutoff is Some ==> filter_step(s, e).0.strongest_cutoff.unwrap().seq
            <= s.retention_min_seq.unwrap(),
{
}

/// The live generation of a collection whose metadata `v` sits in a row at
/// `row_seq`: its version, or the row's sequence while the version is pending.
pub open spec fn live_generation(v: ValueModel, row_seq: u64) -> u64 {
    match model_version(v) {
        Some(g) => if g == 0 {
            row_seq
        } else {
            g
        },
        None => row_seq,
    }
}

/// A live collection keeps its current sub-keys: once the newest metadata row
/// of a user key is seen (of the filter's type, with no row deadline or one
/// after the compaction clock), no row of that key written at or after the live
/// generation is replaced, whatever its shape.
pub proof fn lemma_live_generation_kept(
    s: FilterModel,
    meta: RowModel,
    sub: RowModel,
    user_key: Seq<u8>,
    v: ValueModel,
)
    requires
        decode_user_key_spec(meta.key) == Some(user_key),
        meta.key.len() == 2 + user_key.len(),
        s.current_user_key != Some(user_key),
        meta.value matches RowValueModel::Value(b) && decode_value_spec(b) == Ok::<
            ValueModel,
            crate::error::DecoderError,
        >(v),
        model_type(v) == s.data_type,
        meta.expire_ts matches Some(t) ==> t > s.compaction_clock_tick,
        decode_user_key_spec(sub.key) == Some(user_key),
        sub.seq >= live_generation(v, meta.seq),
    ensures
        filter_step(filter_step(s, meta).0, sub).1 == FilterDecision::Keep,
{
}

} // verus!
