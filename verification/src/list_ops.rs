//! The decisions of the list commands: elements sit at consecutive logical
//! sequence numbers `head..tail`, and pushes and pops move the two ends.
use vstd::prelude::*;
use crate::collection_ops::MetadataChange;
use crate::error::{StorageError, ErrorModel, error_model};
use crate::meta::{ListMetaValue, LIST_MIDPOINT};

verus! {

/// Stored list metadata is consistent: the list is not empty and its length is the
/// distance from head to tail.
pub open spec fn list_meta_valid(m: ListMetaValue) -> bool {
    m.len != 0 && m.head <= m.tail && m.tail - m.head == m.len
}

/// Fails with a data inconsistency when stored list metadata is not consistent.
pub fn validate_list_meta(meta: &ListMetaValue) -> (r: Result<(), StorageError>)
    ensures
        r is Ok <==> list_meta_valid(*meta),
        r is Err ==> (r matches Err(e) && error_model(e) == ErrorModel::Inconsistent),
{
    if meta.len == 0 {
        return Err(StorageError::inconsistency("stored list metadata has zero length"));
    }
    let span = match meta.tail.checked_sub(meta.head) {
        Some(span) => span,
        None => {
            return Err(StorageError::inconsistency("list metadata tail is before head"));
        },
    };
    if span != meta.len {
        return Err(StorageError::inconsistency("list metadata length mismatch"));
    }
    Ok(())
}

/// The metadata of a list that does not exist yet.
pub open spec fn empty_list_meta() -> ListMetaValue {
    ListMetaValue { version: 0, len: 0, head: LIST_MIDPOINT, tail: LIST_MIDPOINT, expire_time: 0 }
}

/// The outcome of LPUSH or RPUSH: the new metadata and the sequence number of each
/// pushed element, in argument order.
pub struct ListPush {
    pub meta: ListMetaValue,
    pub seqs: Vec<u64>,
}

/// Whether pushing `count` elements onto `base` stays within the `u64` range.
pub open spec fn push_fits(base: ListMetaValue, count: int, is_left: bool) -> bool {
    &&& base.len + count <= u64::MAX
    &&& is_left ==> count <= base.head
    &&& !is_left ==> base.tail + count <= u64::MAX
}

/// LPUSH (`is_left`) or RPUSH of `count` elements. A list without live metadata
/// starts empty in the middle of the sequence range. LPUSH gives the `i`-th element
/// the sequence `head - 1 - i`, RPUSH gives it `tail + i`.
pub fn plan_list_push(meta: Option<ListMetaValue>, count: usize, is_left: bool) -> (r: Result<
    ListPush,
    StorageError,
>)
    ensures
        ({
            let base = match meta {
                Some(m) => m,
                None => empty_list_meta(),
            };
            if meta is Some && !list_meta_valid(meta.unwrap()) {
                r matches Err(e) && error_model(e) == ErrorModel::Inconsistent
            } else if !push_fits(base, count as int, is_left) {
                r matches Err(e) && error_model(e) == ErrorModel::Inconsistent
            } else {
                r matches Ok(p) && p.meta == pushed_meta(base, count as int, is_left) && p.seqs@.len()
                    == count && forall|i: int|
                    0 <= i < count ==> #[trigger] p.seqs@[i] == pushed_seq(base, i, is_left)
            }
        }),
{
    let mut meta_val = match meta {
        Some(m) => {
            validate_list_meta(&m)?;
            m
        },
        None => ListMetaValue::new(0),
    };
    let ghost base = meta_val;
    let mut seqs: Vec<u64> = Vec::new();
    let mut i: usize = 0;
    while i < count
        invariant
            0 <= i <= count,
            base == match meta {
                Some(m) => m,
                None => empty_list_meta(),
            },
            meta is Some ==> list_meta_valid(meta.unwrap()),
            seqs@.len() == i,
            meta_val.len == base.len + i,
            is_left ==> meta_val.head == base.head - i && meta_val.tail == base.tail,
            !is_left ==> meta_val.tail == base.tail + i && meta_val.head == base.head,
            meta_val.version == base.version,
            meta_val.expire_time == base.expire_time,
            forall|j: int| 0 <= j < i ==> #[trigger] seqs@[j] == if is_left {
                base.head - 1 - j
            } else {
                base.tail + j
            },
        decreases count - i,
    {
        meta_val.len = match meta_val.len.checked_add(1) {
            Some(n) => n,
            None => {
                return Err(StorageError::inconsistency("list length overflow during push"));
            },
        };
        let seq = if is_left {
            meta_val.head = match meta_val.head.checked_sub(1) {
                Some(h) => h,
                None => {
                    return Err(StorageError::inconsistency("list head underflow during LPUSH"));
                },
            };
            meta_val.head
        } else {
            let s = meta_val.tail;
            meta_val.tail = match meta_val.tail.checked_add(1) {
                Some(t) => t,
                None => {
                    return Err(StorageError::inconsistency("list tail overflow during RPUSH"));
                },
            };
            s
        };
        seqs.push(seq);
        i = i + 1;
    }
    Ok(ListPush { meta: meta_val, seqs })
}

/// The outcome of LPOP or RPOP: the sequence numbers to remove, in the order their
/// values are returned, and what becomes of the metadata.
pub struct ListPop {
    pub seqs: Vec<u64>,
    pub change: MetadataChange<ListMetaValue>,
}

/// LPOP (`is_left`) or RPOP of `count` elements (one when absent) from a list with
/// metadata `meta`: at most the whole list is popped, from the head upwards or from
/// the tail downwards; nothing is done for a count of zero.
pub fn plan_list_pop(meta: ListMetaValue, count: Option<usize>, is_left: bool) -> (r: Result<
    Option<ListPop>,
    StorageError,
>)
    ensures
        ({
            let num: int = match count {
                Some(n) => n as int,
                None => 1,
            };
            let k: int = if num < meta.len {
                num
            } else {
                meta.len as int
            };
            if !list_meta_valid(meta) {
                r matches Err(e) && error_model(e) == ErrorModel::Inconsistent
            } else if num == 0 {
                r matches Ok(None)
            } else {
                r matches Ok(Some(p)) && p.seqs@.len() == k && (forall|i: int|
                    0 <= i < k ==> #[trigger] p.seqs@[i] == popped_seq(meta, i, is_left)) && p.change
                    == popped_change(meta, k, is_left)
            }
        }),
{
    validate_list_meta(&meta)?;
    let num: usize = match count {
        Some(n) => n,
        None => 1,
    };
    if num == 0 {
        return Ok(None);
    }
    let requested = num as u64;
    let loop_count = if requested < meta.len {
        requested
    } else {
        meta.len
    };
    let mut meta_val = meta;
    let mut seqs: Vec<u64> = Vec::new();
    let mut i: u64 = 0;
    while i < loop_count
        invariant
            list_meta_valid(meta),
            0 <= i <= loop_count <= meta.len,
            seqs@.len() == i,
            meta_val.len == meta.len - i,
            is_left ==> meta_val.head == meta.head + i && meta_val.tail == meta.tail,
            !is_left ==> meta_val.tail == meta.tail - i && meta_val.head == meta.head,
            meta_val.version == meta.version,
            meta_val.expire_time == meta.expire_time,
            forall|j: int| 0 <= j < i ==> #[trigger] seqs@[j] == if is_left {
                meta.head + j
            } else {
                meta.tail - 1 - j
            },
        decreases loop_count - i,
    {
        if is_left {
            seqs.push(meta_val.head);
            meta_val.head = meta_val.head + 1;
        } else {
            let seq = meta_val.tail - 1;
            seqs.push(seq);
            meta_val.tail = seq;
        }
        meta_val.len = meta_val.len - 1;
        i = i + 1;
    }
    let change = if meta_val.len == 0 {
        MetadataChange::Delete
    } else {
        MetadataChange::Put(meta_val)
    };
    Ok(Some(ListPop { seqs, change }))
}

fn copy_bytes(v: &Vec<u8>) -> (r: Vec<u8>)
    ensures
        r@ == v@,
{
    let r = v.clone();
    assert(r@ =~= v@);
    r
}

/// The entry at `i` is present and visible under `version`.
pub open spec fn entry_visible(entries: Seq<Option<(u64, Vec<u8>)>>, i: int, version: u64) -> bool {
    entries[i] is Some && entries[i].unwrap().0 >= version
}

/// The values of popped elements, in order; every element must be present and
/// visible under `version`, or the whole pop fails without writing.
pub fn popped_values(entries: &Vec<Option<(u64, Vec<u8>)>>, version: u64) -> (r: Result<
    Vec<Vec<u8>>,
    StorageError,
>)
    ensures
        (forall|i: int| 0 <= i < entries@.len() ==> #[trigger] entry_visible(entries@, i, version))
            ==> (r matches Ok(values) && values@.len() == entries@.len() && forall|i: int|
            0 <= i < entries@.len() ==> #[trigger] values@[i]@ == entries@[i].unwrap().1@),
        !(forall|i: int| 0 <= i < entries@.len() ==> #[trigger] entry_visible(entries@, i, version))
            ==> (r matches Err(e) && error_model(e) == ErrorModel::Inconsistent),
{
    let mut values: Vec<Vec<u8>> = Vec::new();
    let mut i: usize = 0;
    while i < entries.len()
        invariant
            0 <= i <= entries@.len(),
            values@.len() == i,
            forall|j: int| 0 <= j < i ==> #[trigger] entry_visible(entries@, j, version),
            forall|j: int| 0 <= j < i ==> #[trigger] values@[j]@ == entries@[j].unwrap().1@,
        decreases entries@.len() - i,
    {
        match &entries[i] {
            Some((seq, value)) => {
                if *seq < version {
                    assert(!entry_visible(entries@, i as int, version));
                    return Err(StorageError::inconsistency("list element missing or stale"));
                }
                values.push(copy_bytes(value));
            },
            None => {
                assert(!entry_visible(entries@, i as int, version));
                return Err(StorageError::inconsistency("list element missing or stale"));
            },
        }
        assert(entry_visible(entries@, i as int, version));
        i = i + 1;
    }
    Ok(values)
}

/// The sequence numbers that LRANGE reads, first and last: negative indices count
/// from the end, the range is clamped to the list, and it may be empty.
pub open spec fn lrange_spec(meta: ListMetaValue, start: i64, stop: i64) -> Option<(u64, u64)> {
    let len = meta.len as int;
    let s = if start < 0 {
        len + start
    } else {
        start as int
    };
    let e = if stop < 0 {
        len + stop
    } else {
        stop as int
    };
    let s2 = if s < 0 {
        0
    } else {
        s
    };
    let e2 = if e > len - 1 {
        len - 1
    } else {
        e
    };
    if s2 > e2 {
        None
    } else {
        Some(((meta.head + s2) as u64, (meta.head + e2) as u64))
    }
}

/// The first and last sequence numbers of LRANGE `start..=stop`, or none for an
/// empty range.
pub fn plan_lrange(meta: &ListMetaValue, start: i64, stop: i64) -> (r: Result<Option<(u64, u64)>, StorageError>)
    requires
        meta.len <= i64::MAX,
    ensures
        !list_meta_valid(*meta) ==> (r matches Err(e) && error_model(e) == ErrorModel::Inconsistent),
        list_meta_valid(*meta) ==> r == Ok::<Option<(u64, u64)>, StorageError>(lrange_spec(*meta, start, stop)),
        r matches Ok(Some((a, b))) ==> meta.head <= a <= b < meta.tail,
{
    validate_list_meta(meta)?;
    let len = meta.len as i64;
    let start_idx = if start < 0 {
        len + start
    } else {
        start
    };
    let stop_idx = if stop < 0 {
        len + stop
    } else {
        stop
    };
    let start_idx = if start_idx < 0 {
        0
    } else {
        start_idx
    };
    let stop_idx = if stop_idx > len - 1 {
        len - 1
    } else {
        stop_idx
    };
    if start_idx > stop_idx {
        return Ok(None);
    }
    Ok(Some((meta.head + start_idx as u64, meta.head + stop_idx as u64)))
}

/// The values of the visible elements among `entries`, in order; missing or stale
/// ones are left out.
pub fn visible_values(entries: &Vec<Option<(u64, Vec<u8>)>>, version: u64) -> (r: Vec<Vec<u8>>)
    ensures
        crate::dedup::views(r@) == visible_values_spec(entries@, version),
{
    let mut values: Vec<Vec<u8>> = Vec::new();
    let mut i: usize = 0;
    assert(crate::dedup::views(values@) =~= visible_values_spec(entries@.subrange(0, 0), version));
    while i < entries.len()
        invariant
            0 <= i <= entries@.len(),
            crate::dedup::views(values@) == visible_values_spec(entries@.subrange(0, i as int), version),
        decreases entries@.len() - i,
    {
        let ghost before = crate::dedup::views(values@);
        assert(entries@.subrange(0, i + 1).drop_last() =~= entries@.subrange(0, i as int));
        assert(entries@.subrange(0, i + 1).last() == entries@[i as int]);
        match &entries[i] {
            Some((seq, value)) => {
                if *seq >= version {
                    values.push(copy_bytes(value));
                    assert(crate::dedup::views(values@) =~= before.push(entries@[i as int].unwrap().1@));
                }
            },
            None => {},
        }
        i = i + 1;
    }
    assert(entries@.subrange(0, i as int) =~= entries@);
    values
}

pub open spec fn visible_values_spec(entries: Seq<Option<(u64, Vec<u8>)>>, version: u64) -> Seq<Seq<u8>>
    decreases entries.len(),
{
    if entries.len() == 0 {
        Seq::empty()
    } else {
        let prior = visible_values_spec(entries.drop_last(), version);
        match entries.last() {
            Some((seq, v)) => if seq >= version {
                prior.push(v@)
            } else {
                prior
            },
            None => prior,
        }
    }
}

/// Pushing onto a list keeps its metadata consistent.
pub proof fn lemma_push_keeps_list_valid(base: ListMetaValue, count: int, is_left: bool)
    requires
        base.head <= base.tail,
        base.tail - base.head == base.len,
        count > 0,
        push_fits(base, count, is_left),
    ensures
        list_meta_valid(
            if is_left {
                ListMetaValue {
                    len: (base.len + count) as u64,
                    head: (base.head - count) as u64,
                    ..base
                }
            } else {
                ListMetaValue {
                    len: (base.len + count) as u64,
                    tail: (base.tail + count) as u64,
                    ..base
                }
            },
        ),
{
}

/// Popping part of a list keeps its metadata consistent.
pub proof fn lemma_pop_keeps_list_valid(meta: ListMetaValue, k: int, is_left: bool)
    requires
        list_meta_valid(meta),
        0 < k < meta.len,
    ensures
        list_meta_valid(
            if is_left {
                ListMetaValue { len: (meta.len - k) as u64, head: (meta.head + k) as u64, ..meta }
            } else {
                ListMetaValue { len: (meta.len - k) as u64, tail: (meta.tail - k) as u64, ..meta }
            },
        ),
{
}

/// The metadata after pushing `count` elements onto `base`.
pub open spec fn pushed_meta(base: ListMetaValue, count: int, is_left: bool) -> ListMetaValue {
    if is_left {
        ListMetaValue { len: (base.len + count) as u64, head: (base.head - count) as u64, ..base }
    } else {
        ListMetaValue { len: (base.len + count) as u64, tail: (base.tail + count) as u64, ..base }
    }
}

/// The sequence of the `i`-th pushed element.
pub open spec fn pushed_seq(base: ListMetaValue, i: int, is_left: bool) -> int {
    if is_left {
        base.head - 1 - i
    } else {
        base.tail + i
    }
}

/// The sequence of the `i`-th popped element.
pub open spec fn popped_seq(meta: ListMetaValue, i: int, is_left: bool) -> int {
    if is_left {
        meta.head + i
    } else {
        meta.tail - 1 - i
    }
}

/// The metadata change after popping `k` elements.
pub open spec fn popped_change(meta: ListMetaValue, k: int, is_left: bool) -> MetadataChange<ListMetaValue> {
    if k == meta.len {
        MetadataChange::Delete
    } else if is_left {
        MetadataChange::Put(ListMetaValue { len: (meta.len - k) as u64, head: (meta.head + k) as u64, ..meta })
    } else {
        MetadataChange::Put(ListMetaValue { len: (meta.len - k) as u64, tail: (meta.tail - k) as u64, ..meta })
    }
}

/// Popping from one end the `count` elements just pushed onto that end gives back
/// their sequence numbers in the reverse order of pushing, and leaves the metadata
/// as it was before the push (or removes it, for a list the push created).
pub proof fn lemma_push_then_pop_same_end(base: ListMetaValue, count: int, is_left: bool)
    requires
        base.len == 0 ==> base == empty_list_meta(),
        base.len != 0 ==> list_meta_valid(base),
        count > 0,
        push_fits(base, count, is_left),
    ensures
        list_meta_valid(pushed_meta(base, count, is_left)),
        forall|i: int| 0 <= i < count ==> #[trigger] popped_seq(pushed_meta(base, count, is_left), i, is_left)
            == pushed_seq(base, count - 1 - i, is_left),
        popped_change(pushed_meta(base, count, is_left), count, is_left) == if base.len == 0 {
            MetadataChange::<ListMetaValue>::Delete
        } else {
            MetadataChange::Put(base)
        },
{
    let pushed = pushed_meta(base, count, is_left);
    if base.len != 0 {
        if is_left {
            assert(ListMetaValue { len: (pushed.len - count) as u64, head: (pushed.head + count) as u64, ..pushed } == base);
        } else {
            assert(ListMetaValue { len: (pushed.len - count) as u64, tail: (pushed.tail - count) as u64, ..pushed } == base);
        }
    }
}

/// LRANGE 0 -1 covers the whole list: from the head to the last element.
pub proof fn lemma_full_range_covers_list(meta: ListMetaValue)
    requires
        list_meta_valid(meta),
        meta.len <= i64::MAX,
    ensures
        lrange_spec(meta, 0i64, -1i64) == Some((meta.head, (meta.tail - 1) as u64)),
{
}

/// The position that LRANGE index `x` names in a list of `len` elements: a
/// non-negative index counts from the head, a negative index `-k` names the
/// `k`-th element from the end.
pub open spec fn list_position(x: i64, len: int) -> int {
    if x >= 0 {
        x as int
    } else {
        len + x
    }
}

/// LRANGE selects exactly the elements whose position lies between the
/// positions `start` and `stop` name, both included: the element at position
/// `i` (sequence `head + i`) is in the returned range if and only if
/// `list_position(start) <= i <= list_position(stop)`. In particular a negative
/// `stop` of `-k` ends the range at the `k`-th element from the end.
pub proof fn lemma_lrange_selects_named_positions(meta: ListMetaValue, start: i64, stop: i64, i: int)
    requires
        list_meta_valid(meta),
        meta.len <= i64::MAX,
        0 <= i < meta.len,
    ensures
        (lrange_spec(meta, start, stop) matches Some((a, b)) && a <= meta.head + i <= b) <==> (
        list_position(start, meta.len as int) <= i <= list_position(stop, meta.len as int)),
        (lrange_spec(meta, start, stop) matches Some((a, b)) ==> meta.head <= a && b < meta.tail),
        (-(meta.len as int) <= stop < 0 && lrange_spec(meta, start, stop) is Some) ==> lrange_spec(
            meta,
            start,
            stop,
        ).unwrap().1 == meta.head + meta.len + stop,
{
}

} // verus!
