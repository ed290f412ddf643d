//! Removing repeated members and fields from a command's arguments.
use vstd::prelude::*;
use crate::key_range::bytes_equal;

verus! {

/// The byte strings of `v`.
pub open spec fn views(v: Seq<Vec<u8>>) -> Seq<Seq<u8>> {
    v.map_values(|x: Vec<u8>| x@)
}

/// The field names and values of `v`.
pub open spec fn pair_views(v: Seq<(Vec<u8>, Vec<u8>)>) -> Seq<(Seq<u8>, Seq<u8>)> {
    v.map_values(|p: (Vec<u8>, Vec<u8>)| (p.0@, p.1@))
}

/// The first occurrence of each distinct item of `s`, in the order of `s`.
pub open spec fn first_occurrences(s: Seq<Seq<u8>>) -> Seq<Seq<u8>>
    decreases s.len(),
{
    if s.len() == 0 {
        Seq::empty()
    } else {
        let prior = first_occurrences(s.drop_last());
        if prior.contains(s.last()) {
            prior
        } else {
            prior.push(s.last())
        }
    }
}

/// The value of the last occurrence of field `k` in `s`, if any.
pub open spec fn last_value_of(s: Seq<(Seq<u8>, Seq<u8>)>, k: Seq<u8>) -> Option<Seq<u8>>
    decreases s.len(),
{
    if s.len() == 0 {
        None
    } else if s.last().0 == k {
        Some(s.last().1)
    } else {
        last_value_of(s.drop_last(), k)
    }
}

/// The field names of `s`.
pub open spec fn names(s: Seq<(Seq<u8>, Seq<u8>)>) -> Seq<Seq<u8>> {
    s.map_values(|p: (Seq<u8>, Seq<u8>)| p.0)
}

pub proof fn lemma_first_occurrences(s: Seq<Seq<u8>>)
    ensures
        first_occurrences(s).no_duplicates(),
        forall|x: Seq<u8>| first_occurrences(s).contains(x) <==> s.contains(x),
        first_occurrences(s).len() <= s.len(),
    decreases s.len(),
{
    if s.len() > 0 {
        let t = s.drop_last();
        lemma_first_occurrences(t);
        assert forall|x: Seq<u8>| first_occurrences(s).contains(x) <==> s.contains(x) by {
            if s.contains(x) {
                let i = choose|i: int| 0 <= i < s.len() && s[i] == x;
                if i < s.len() - 1 {
                    assert(t[i] == x);
                    assert(t.contains(x));
                }
            }
            if t.contains(x) {
                let i = choose|i: int| 0 <= i < t.len() && t[i] == x;
                assert(s[i] == x);
            }
            if first_occurrences(s).contains(x) && !first_occurrences(t).contains(x) {
                assert(first_occurrences(s) == first_occurrences(t).push(s.last()));
                let i = choose|i: int| 0 <= i < first_occurrences(s).len() && first_occurrences(s)[i] == x;
                if i < first_occurrences(t).len() {
                    assert(first_occurrences(t)[i] == x);
                }
                assert(s[s.len() - 1] == x);
            }
            if first_occurrences(t).contains(x) && !first_occurrences(t).contains(s.last()) {
                let i = choose|i: int| 0 <= i < first_occurrences(t).len() && first_occurrences(t)[i] == x;
                assert(first_occurrences(t).push(s.last())[i] == x);
            }
            if !first_occurrences(t).contains(s.last()) {
                assert(first_occurrences(t).push(s.last())[first_occurrences(t).len() as int] == s.last());
            }
        }
    }
}

fn contains_bytes(items: &Vec<Vec<u8>>, item: &Vec<u8>) -> (r: bool)
    ensures
        r == views(items@).contains(item@),
{
    let mut i: usize = 0;
    while i < items.len()
        invariant
            0 <= i <= items@.len(),
            forall|j: int| 0 <= j < i ==> items@[j]@ != item@,
        decreases items@.len() - i,
    {
        if bytes_equal(items[i].as_slice(), item.as_slice()) {
            assert(views(items@)[i as int] == item@);
            return true;
        }
        i = i + 1;
    }
    assert forall|j: int| 0 <= j < views(items@).len() implies views(items@)[j] != item@ by {
        assert(views(items@)[j] == items@[j]@);
    }
    false
}

fn clone_bytes(v: &Vec<u8>) -> (r: Vec<u8>)
    ensures
        r@ == v@,
{
    let r = v.clone();
    assert(r@ =~= v@);
    r
}

/// Keeps the first occurrence of each distinct item, in order.
pub fn first_occurrences_of(items: &Vec<Vec<u8>>) -> (r: Vec<Vec<u8>>)
    ensures
        views(r@) == first_occurrences(views(items@)),
{
    let mut r: Vec<Vec<u8>> = Vec::new();
    let mut i: usize = 0;
    while i < items.len()
        invariant
            0 <= i <= items@.len(),
            views(r@) == first_occurrences(views(items@).subrange(0, i as int)),
        decreases items@.len() - i,
    {
        let ghost prefix = views(items@).subrange(0, i as int);
        let ghost next = views(items@).subrange(0, i + 1);
        assert(next.drop_last() =~= prefix);
        assert(next.last() == items@[i as int]@);
        if !contains_bytes(&r, &items[i]) {
            let copy = clone_bytes(&items[i]);
            r.push(copy);
            assert(views(r@) =~= first_occurrences(prefix).push(next.last()));
        }
        i = i + 1;
    }
    assert(views(items@).subrange(0, i as int) =~= views(items@));
    r
}

/// The index of the pair whose name is `name`, if any.
fn find_name(pairs: &Vec<(Vec<u8>, Vec<u8>)>, name: &Vec<u8>) -> (r: Option<usize>)
    ensures
        match r {
            Some(i) => i < pairs@.len() && pairs@[i as int].0@ == name@,
            None => !names(pair_views(pairs@)).contains(name@),
        },
{
    let mut i: usize = 0;
    while i < pairs.len()
        invariant
            0 <= i <= pairs@.len(),
            forall|j: int| 0 <= j < i ==> pairs@[j].0@ != name@,
        decreases pairs@.len() - i,
    {
        if bytes_equal(pairs[i].0.as_slice(), name.as_slice()) {
            return Some(i);
        }
        i = i + 1;
    }
    assert forall|j: int| 0 <= j < names(pair_views(pairs@)).len() implies names(
        pair_views(pairs@),
    )[j] != name@ by {
        assert(names(pair_views(pairs@))[j] == pairs@[j].0@);
    }
    None
}

/// `s` has no repeated field name.
pub open spec fn distinct_names(s: Seq<(Seq<u8>, Seq<u8>)>) -> bool {
    names(s).no_duplicates()
}

/// Keeps one pair per distinct name, at the position of the name's first
/// occurrence, with the value of its last occurrence.
pub fn last_value_per_name(pairs: Vec<(Vec<u8>, Vec<u8>)>) -> (r: Vec<(Vec<u8>, Vec<u8>)>)
    ensures
        distinct_names(pair_views(r@)),
        names(pair_views(r@)) == first_occurrences(names(pair_views(pairs@))),
        forall|j: int| 0 <= j < r@.len() ==> last_value_of(pair_views(pairs@), #[trigger] r@[j].0@)
            == Some(r@[j].1@),
{
    let mut r: Vec<(Vec<u8>, Vec<u8>)> = Vec::new();
    let mut i: usize = 0;
    let ghost input = pair_views(pairs@);
    while i < pairs.len()
        invariant
            0 <= i <= pairs@.len(),
            input == pair_views(pairs@),
            names(pair_views(r@)) == first_occurrences(names(input.subrange(0, i as int))),
            forall|j: int| 0 <= j < r@.len() ==> last_value_of(input.subrange(0, i as int), #[trigger] r@[j].0@)
                == Some(r@[j].1@),
        decreases pairs@.len() - i,
    {
        let ghost prefix = input.subrange(0, i as int);
        let ghost next = input.subrange(0, i + 1);
        let ghost old_r = pair_views(r@);
        let ghost old_vec = r@;
        assert(next.drop_last() =~= prefix);
        assert(names(next).drop_last() =~= names(prefix));
        assert(next.last() == (pairs@[i as int].0@, pairs@[i as int].1@));
        assert(names(next).last() == next.last().0);
        let name = clone_bytes(&pairs[i].0);
        let value = clone_bytes(&pairs[i].1);
        proof {
            lemma_first_occurrences(names(prefix));
        }
        match find_name(&r, &name) {
            Some(j) => {
                r.set(j, (name, value));
                proof {
                    let new_r = pair_views(r@);
                    assert(names(new_r) =~= names(old_r)) by {
                        assert forall|k: int| 0 <= k < names(new_r).len() implies names(new_r)[k] == names(old_r)[k] by {
                            if k != j {
                                assert(r@[k] == old_vec[k]);
                            }
                        }
                    }
                    assert(names(old_r)[j as int] == next.last().0);
                    assert(names(old_r).contains(next.last().0));
                    assert(names(prefix).contains(next.last().0));
                    assert(first_occurrences(names(next)) == first_occurrences(names(prefix)));
                    assert forall|m: int| 0 <= m < r@.len() implies last_value_of(next, #[trigger] r@[m].0@)
                        == Some(r@[m].1@) by {
                        if m != j {
                            assert(r@[m] == old_vec[m]);
                            assert(last_value_of(prefix, old_vec[m].0@) == Some(old_vec[m].1@));
                            assert(names(old_r).no_duplicates());
                            assert(names(old_r)[m] == old_vec[m].0@);
                            assert(names(old_r)[m] != names(old_r)[j as int]);
                            assert(last_value_of(next, r@[m].0@) == Some(r@[m].1@));
                        } else {
                            assert(r@[m].0@ == next.last().0);
                            assert(last_value_of(next, r@[m].0@) == Some(r@[m].1@));
                        }
                    }
                }
            },
            None => {
                r.push((name, value));
                proof {
                    let new_r = pair_views(r@);
                    assert(new_r =~= old_r.push(next.last()));
                    assert(names(new_r) =~= names(old_r).push(next.last().0));
                    assert(!names(prefix).contains(next.last().0));
                    assert forall|m: int| 0 <= m < r@.len() implies last_value_of(next, #[trigger] r@[m].0@)
                        == Some(r@[m].1@) by {
                        if m < old_vec.len() {
                            assert(r@[m] == old_vec[m]);
                            assert(last_value_of(prefix, old_vec[m].0@) == Some(old_vec[m].1@));
                            assert(names(old_r)[m] == old_vec[m].0@);
                            assert(old_vec[m].0@ != next.last().0);
                            assert(last_value_of(next, old_vec[m].0@) == last_value_of(prefix, old_vec[m].0@));
                            assert(last_value_of(next, r@[m].0@) == Some(r@[m].1@));
                        } else {
                            assert(r@[m] == (name, value));
                            assert(r@[m].0@ == next.last().0);
                            assert(r@[m].1@ == next.last().1);
                            assert(next.len() > 0);
                            assert(last_value_of(next, next.last().0) == Some(next.last().1));
                            assert(last_value_of(next, r@[m].0@) == Some(r@[m].1@));
                        }
                    }
                }
            },
        }
        i = i + 1;
    }
    assert(input.subrange(0, i as int) =~= input);
    proof {
        lemma_first_occurrences(names(input));
    }
    r
}

} // verus!
