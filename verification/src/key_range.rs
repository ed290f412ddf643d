//! Byte-wise key order and the half-open ranges that select a key's sub-keys.
use vstd::prelude::*;

verus! {

/// One end of a key range.
#[derive(Debug, Clone, PartialEq, Eq)]
pub enum KeyBound {
    Included(Vec<u8>),
    Excluded(Vec<u8>),
    Unbounded,
}

/// `a` is a prefix of `b`.
pub open spec fn is_prefix(a: Seq<u8>, b: Seq<u8>) -> bool {
    a.len() <= b.len() && b.subrange(0, a.len() as int) == a
}

/// `a` is a prefix of `b` and shorter than it.
pub open spec fn is_proper_prefix(a: Seq<u8>, b: Seq<u8>) -> bool {
    a.len() < b.len() && b.subrange(0, a.len() as int) == a
}

/// `a` and `b` agree on their first `i` bytes and `a` is smaller at byte `i`.
pub open spec fn differs_below_at(a: Seq<u8>, b: Seq<u8>, i: int) -> bool {
    &&& 0 <= i < a.len()
    &&& i < b.len()
    &&& a.subrange(0, i) == b.subrange(0, i)
    &&& a[i] < b[i]
}

/// Lexicographic byte order, as slices of bytes compare.
pub open spec fn lex_lt(a: Seq<u8>, b: Seq<u8>) -> bool {
    is_proper_prefix(a, b) || exists|i: int| #[trigger] differs_below_at(a, b, i)
}

pub open spec fn lex_le(a: Seq<u8>, b: Seq<u8>) -> bool {
    a == b || lex_lt(a, b)
}

pub open spec fn bound_view(b: KeyBound) -> Option<(bool, Seq<u8>)> {
    match b {
        KeyBound::Included(v) => Some((true, v@)),
        KeyBound::Excluded(v) => Some((false, v@)),
        KeyBound::Unbounded => None,
    }
}

/// `s` lies at or above the lower bound `b`.
pub open spec fn above_lower(b: KeyBound, s: Seq<u8>) -> bool {
    match bound_view(b) {
        Some((true, v)) => lex_le(v, s),
        Some((false, v)) => lex_lt(v, s),
        None => true,
    }
}

/// `s` lies at or below the upper bound `b`.
pub open spec fn below_upper(b: KeyBound, s: Seq<u8>) -> bool {
    match bound_view(b) {
        Some((true, v)) => lex_le(s, v),
        Some((false, v)) => lex_lt(s, v),
        None => true,
    }
}

/// `s` lies in the range between `lo` and `hi`.
pub open spec fn range_contains(lo: KeyBound, hi: KeyBound, s: Seq<u8>) -> bool {
    above_lower(lo, s) && below_upper(hi, s)
}

/// The index of the last byte of `p` that is not 0xFF, if any.
pub open spec fn last_non_max(p: Seq<u8>) -> int
    decreases p.len(),
{
    if p.len() == 0 {
        -1
    } else if p.last() != 255 {
        p.len() - 1
    } else {
        last_non_max(p.drop_last())
    }
}

/// The smallest key above every key that starts with `p`: `p` cut after its
/// last byte below 0xFF, with that byte increased; none if every byte is 0xFF.
pub open spec fn prefix_successor(p: Seq<u8>) -> Option<Seq<u8>> {
    let k = last_non_max(p);
    if k < 0 {
        None
    } else {
        Some(p.subrange(0, k).push((p[k] + 1) as u8))
    }
}

proof fn lemma_last_non_max(p: Seq<u8>)
    ensures
        -1 <= last_non_max(p) < p.len(),
        last_non_max(p) >= 0 ==> p[last_non_max(p)] != 255,
        forall|j: int| last_non_max(p) < j < p.len() ==> #[trigger] p[j] == 255,
    decreases p.len(),
{
    if p.len() > 0 && p.last() == 255 {
        let q = p.drop_last();
        lemma_last_non_max(q);
        assert forall|j: int| last_non_max(p) < j < p.len() implies #[trigger] p[j] == 255 by {
            if j < q.len() {
                assert(p[j] == q[j]);
            }
        }
    }
}

/// The keys at or above `p + [0]` and below the successor of `p` (or unbounded
/// when there is none) are exactly the keys that extend `p` by at least one byte.
pub proof fn lemma_sub_key_range(p: Seq<u8>, s: Seq<u8>)
    ensures
        ({
            let lower_ok = lex_le(p.push(0), s);
            let upper_ok = match prefix_successor(p) {
                Some(u) => lex_lt(s, u),
                None => true,
            };
            lower_ok && upper_ok <==> is_proper_prefix(p, s)
        }),
{
    lemma_last_non_max(p);
    let z = p.push(0);
    let n = p.len() as int;
    let k = last_non_max(p);
    if is_proper_prefix(p, s) {
        // s = p + t with t non-empty: s is at least p + [0].
        if s[n] == 0 {
            assert(s.subrange(0, n + 1) =~= z);
            if s.len() == n + 1 {
                assert(s =~= z);
            } else {
                assert(is_proper_prefix(z, s));
            }
        } else {
            assert(z.subrange(0, n) =~= s.subrange(0, n));
            assert(differs_below_at(z, s, n));
        }
        assert(lex_le(z, s));
        // and below the successor of p.
        if k >= 0 {
            let u = p.subrange(0, k).push((p[k] + 1) as u8);
            assert(u.subrange(0, k) =~= s.subrange(0, k));
            assert(s[k] == p[k]);
            assert(differs_below_at(s, u, k));
        }
    } else {
        if lex_le(z, s) {
            // s is strictly above z without extending p: it leaves p at some byte.
            if z == s {
                assert(s.subrange(0, n) =~= p);
            } else if is_proper_prefix(z, s) {
                assert(s.subrange(0, n) =~= z.subrange(0, n));
                assert(z.subrange(0, n) =~= p);
            } else {
                let j = choose|j: int| #[trigger] differs_below_at(z, s, j);
                if j == n {
                    assert(s.subrange(0, n) =~= z.subrange(0, n));
                    assert(z.subrange(0, n) =~= p);
                } else {
                    assert(z[j] == p[j]);
                    assert(p[j] < 255);
                    assert(j <= k);
                    let u = p.subrange(0, k).push((p[k] + 1) as u8);
                    assert(s.subrange(0, j) =~= p.subrange(0, j)) by {
                        assert(z.subrange(0, j) =~= p.subrange(0, j));
                    }
                    // s is not below u.
                    if lex_lt(s, u) {
                        if is_proper_prefix(s, u) {
                            assert(s.len() <= k);
                            assert(false);
                        } else {
                            let i = choose|i: int| #[trigger] differs_below_at(s, u, i);
                            if i < j {
                                assert(s.subrange(0, i + 1)[i] == s[i]);
                                assert(u[i] == p[i]);
                                assert(s[i] == p[i]) by {
                                    assert(s.subrange(0, j)[i] == s[i]);
                                    assert(p.subrange(0, j)[i] == p[i]);
                                }
                                assert(false);
                            } else if i == j {
                                if j < k {
                                    assert(u[j] == p[j]);
                                }
                                assert(false);
                            } else {
                                assert(j < k);
                                assert(s.subrange(0, i)[j] == s[j]);
                                assert(u.subrange(0, i)[j] == u[j]);
                                assert(u[j] == p[j]);
                                assert(false);
                            }
                        }
                    }
                }
            }
        }
    }
}

/// The only index that is not 0xFF and is followed by 0xFF bytes alone is the last such index.
proof fn lemma_last_non_max_unique(p: Seq<u8>, k: int)
    requires
        -1 <= k < p.len(),
        k >= 0 ==> p[k] != 255,
        forall|j: int| k < j < p.len() ==> #[trigger] p[j] == 255,
    ensures
        last_non_max(p) == k,
    decreases p.len(),
{
    if p.len() > 0 && k < p.len() - 1 {
        let q = p.drop_last();
        assert(p.last() == p[p.len() - 1]);
        assert forall|j: int| k < j < q.len() implies #[trigger] q[j] == 255 by {
            assert(q[j] == p[j]);
        }
        if k >= 0 {
            assert(q[k] == p[k]);
        }
        lemma_last_non_max_unique(q, k);
    }
}

/// The upper bound of the keys that start with `prefix`: the successor of
/// `prefix`, excluded, or no bound when every byte of `prefix` is 0xFF.
pub fn prefix_upper_bound(prefix: &[u8]) -> (r: KeyBound)
    ensures
        match prefix_successor(prefix@) {
            Some(u) => r matches KeyBound::Excluded(v) && v@ == u,
            None => r is Unbounded,
        },
{
    let mut i: usize = prefix.len();
    while i > 0 && prefix[i - 1] == 255
        invariant
            0 <= i <= prefix@.len(),
            forall|j: int| i <= j < prefix@.len() ==> #[trigger] prefix@[j] == 255,
        decreases i,
    {
        i = i - 1;
    }
    proof {
        lemma_last_non_max_unique(prefix@, i - 1);
    }
    if i == 0 {
        KeyBound::Unbounded
    } else {
        let k = i - 1;
        let mut upper = crate::codec::copy_range(prefix, 0, k);
        upper.push(prefix[k] + 1);
        KeyBound::Excluded(upper)
    }
}

/// Whether `a` sorts strictly before `b`, comparing byte by byte.
pub fn lex_less(a: &[u8], b: &[u8]) -> (r: bool)
    ensures
        r == lex_lt(a@, b@),
{
    let mut i: usize = 0;
    while i < a.len() && i < b.len()
        invariant
            0 <= i <= a@.len(),
            i <= b@.len(),
            a@.subrange(0, i as int) == b@.subrange(0, i as int),
        decreases a@.len() - i,
    {
        if a[i] != b[i] {
            let less = a[i] < b[i];
            proof {
                if less {
                    assert(differs_below_at(a@, b@, i as int));
                } else {
                    assert forall|j: int| !differs_below_at(a@, b@, j) by {
                        if differs_below_at(a@, b@, j) {
                            if j < i {
                                assert(a@.subrange(0, i as int)[j] == b@.subrange(0, i as int)[j]);
                            } else if j > i {
                                assert(a@.subrange(0, j)[i as int] == b@.subrange(0, j)[i as int]);
                            }
                        }
                    }
                    assert(!is_proper_prefix(a@, b@)) by {
                        if is_proper_prefix(a@, b@) {
                            assert(b@.subrange(0, a@.len() as int)[i as int] == b@[i as int]);
                        }
                    }
                }
            }
            return less;
        }
        i = i + 1;
        assert(a@.subrange(0, i as int) =~= b@.subrange(0, i as int)) by {
            assert forall|j: int| 0 <= j < i implies a@.subrange(0, i as int)[j] == b@.subrange(0, i as int)[j] by {
                if j < i - 1 {
                    assert(a@.subrange(0, i - 1)[j] == b@.subrange(0, i - 1)[j]);
                }
            }
        }
    }
    proof {
        assert forall|j: int| !differs_below_at(a@, b@, j) by {
            if differs_below_at(a@, b@, j) {
                assert(a@.subrange(0, i as int)[j] == b@.subrange(0, i as int)[j]);
            }
        }
        if i == a@.len() && i < b@.len() {
            assert(b@.subrange(0, a@.len() as int) =~= a@) by {
                assert(a@.subrange(0, i as int) =~= a@);
            }
        }
    }
    i == a.len() && i < b.len()
}

/// Whether two byte strings are equal.
pub fn bytes_equal(a: &[u8], b: &[u8]) -> (r: bool)
    ensures
        r == (a@ == b@),
{
    if a.len() != b.len() {
        return false;
    }
    let mut i: usize = 0;
    while i < a.len()
        invariant
            a@.len() == b@.len(),
            0 <= i <= a@.len(),
            forall|j: int| 0 <= j < i ==> a@[j] == b@[j],
        decreases a@.len() - i,
    {
        if a[i] != b[i] {
            return false;
        }
        i = i + 1;
    }
    assert(a@ =~= b@);
    true
}

/// Whether `key` lies between the bounds `lo` and `hi`.
pub fn range_contains_key(lo: &KeyBound, hi: &KeyBound, key: &[u8]) -> (r: bool)
    ensures
        r == range_contains(*lo, *hi, key@),
{
    let above = match lo {
        KeyBound::Included(v) => bytes_equal(v.as_slice(), key) || lex_less(v.as_slice(), key),
        KeyBound::Excluded(v) => lex_less(v.as_slice(), key),
        KeyBound::Unbounded => true,
    };
    let below = match hi {
        KeyBound::Included(v) => bytes_equal(key, v.as_slice()) || lex_less(key, v.as_slice()),
        KeyBound::Excluded(v) => lex_less(key, v.as_slice()),
        KeyBound::Unbounded => true,
    };
    above && below
}

} // verus!
