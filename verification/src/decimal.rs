//! Decimal text of integers, as `i64::from_str` reads it and `to_string` writes it.
use vstd::prelude::*;

verus! {

pub open spec fn is_digit(b: u8) -> bool {
    48 <= b <= 57
}

pub open spec fn all_digits(s: Seq<u8>) -> bool {
    forall|i: int| 0 <= i < s.len() ==> #[trigger] is_digit(s[i])
}

/// The value of a string of decimal digits.
pub open spec fn digits_value(s: Seq<u8>) -> nat
    decreases s.len(),
{
    if s.len() == 0 {
        0
    } else {
        digits_value(s.drop_last()) * 10 + (s.last() - 48) as nat
    }
}

/// The shortest decimal digits of `n`.
pub open spec fn decimal(n: nat) -> Seq<u8>
    decreases n,
{
    if n < 10 {
        seq![(48 + n) as u8]
    } else {
        decimal(n / 10).push((48 + n % 10) as u8)
    }
}

/// The text that `to_string` gives for `n`.
pub open spec fn i64_text(n: i64) -> Seq<u8> {
    if n < 0 {
        seq![45u8] + decimal((-n) as nat)
    } else {
        decimal(n as nat)
    }
}

/// The sign and the digits of a signed decimal text.
pub open spec fn split_sign(s: Seq<u8>) -> (bool, Seq<u8>) {
    if s.len() > 0 && s[0] == 45 {
        (true, s.drop_first())
    } else if s.len() > 0 && s[0] == 43 {
        (false, s.drop_first())
    } else {
        (false, s)
    }
}

/// What `i64::from_str` gives for `s`: an optional `+` or `-`, then one or more
/// decimal digits, whose value lies in the range of `i64`.
pub open spec fn parse_i64_spec(s: Seq<u8>) -> Option<i64> {
    let neg = split_sign(s).0;
    let body = split_sign(s).1;
    if body.len() == 0 || !all_digits(body) {
        None
    } else {
        let v: int = if neg {
            -(digits_value(body) as int)
        } else {
            digits_value(body) as int
        };
        if i64::MIN <= v <= i64::MAX {
            Some(v as i64)
        } else {
            None
        }
    }
}

pub proof fn lemma_decimal(n: nat)
    ensures
        decimal(n).len() >= 1,
        all_digits(decimal(n)),
        digits_value(decimal(n)) == n,
    decreases n,
{
    if n < 10 {
        let s = decimal(n);
        assert(s.drop_last() =~= Seq::<u8>::empty());
        assert(digits_value(s.drop_last()) == 0);
    } else {
        lemma_decimal(n / 10);
        let s = decimal(n);
        assert(s.drop_last() =~= decimal(n / 10));
        assert(s.last() == (48 + n % 10) as u8);
        assert(n == (n / 10) * 10 + n % 10);
        assert forall|i: int| 0 <= i < s.len() implies #[trigger] is_digit(s[i]) by {
            if i < s.len() - 1 {
                assert(s[i] == decimal(n / 10)[i]);
            }
        }
    }
}

/// Digits read so far never exceed the value of all of them.
pub proof fn lemma_digits_value_prefix(s: Seq<u8>, k: int)
    requires
        all_digits(s),
        0 <= k <= s.len(),
    ensures
        digits_value(s.subrange(0, k)) <= digits_value(s),
    decreases s.len(),
{
    if k < s.len() {
        let t = s.drop_last();
        assert(all_digits(t)) by {
            assert forall|i: int| 0 <= i < t.len() implies #[trigger] is_digit(t[i]) by {
                assert(t[i] == s[i]);
            }
        }
        lemma_digits_value_prefix(t, k);
        assert(t.subrange(0, k) =~= s.subrange(0, k));
    } else {
        assert(s.subrange(0, k) =~= s);
    }
}

/// The decimal digits of `n`.
pub fn format_u64(n: u64) -> (r: Vec<u8>)
    ensures
        r@ == decimal(n as nat),
    decreases n,
{
    if n < 10 {
        let mut v: Vec<u8> = Vec::new();
        v.push((48 + n) as u8);
        assert(v@ =~= decimal(n as nat));
        v
    } else {
        let mut v = format_u64(n / 10);
        v.push((48 + n % 10) as u8);
        v
    }
}

/// The text that `to_string` gives for `n`.
pub fn format_i64(n: i64) -> (r: Vec<u8>)
    ensures
        r@ == i64_text(n),
{
    if n < 0 {
        let magnitude: u64 = if n == i64::MIN {
            9_223_372_036_854_775_808u64
        } else {
            (-n) as u64
        };
        let digits = format_u64(magnitude);
        let mut r: Vec<u8> = Vec::new();
        r.push(45);
        crate::codec::push_bytes(&mut r, digits.as_slice());
        assert(r@ =~= i64_text(n));
        r
    } else {
        format_u64(n as u64)
    }
}

/// Parses `s` as `i64::from_str` does; `None` where it fails.
pub fn parse_i64(s: &[u8]) -> (r: Option<i64>)
    ensures
        r == parse_i64_spec(s@),
{
    let len = s.len();
    let mut start: usize = 0;
    let mut neg = false;
    if len > 0 && s[0] == 45 {
        neg = true;
        start = 1;
    } else if len > 0 && s[0] == 43 {
        start = 1;
    }
    let ghost body = split_sign(s@).1;
    assert(body =~= s@.subrange(start as int, len as int));
    if start == len {
        return None;
    }
    let mut acc: u64 = 0;
    let mut i: usize = start;
    while i < len
        invariant
            start <= i <= len == s@.len(),
            body == s@.subrange(start as int, len as int),
            body == split_sign(s@).1,
            all_digits(body.subrange(0, i - start)),
            acc as nat == digits_value(body.subrange(0, i - start)),
        decreases len - i,
    {
        let b = s[i];
        if b < 48 || b > 57 {
            assert(body[i - start] == s@[i as int]);
            assert(!is_digit(body[i - start]));
            assert(!all_digits(body));
            return None;
        }
        let ghost prev = body.subrange(0, i - start);
        let ghost next = body.subrange(0, i - start + 1);
        assert(next.drop_last() =~= prev);
        assert(next.last() == b);
        assert(digits_value(next) == digits_value(prev) * 10 + (b - 48) as nat);
        assert(all_digits(next)) by {
            assert forall|j: int| 0 <= j < next.len() implies #[trigger] is_digit(next[j]) by {
                if j < prev.len() {
                    assert(next[j] == prev[j]);
                }
            }
        }
        let d = (b - 48) as u64;
        let grown = match acc.checked_mul(10) {
            Some(m) => m.checked_add(d),
            None => None,
        };
        match grown {
            Some(v) => {
                acc = v;
            },
            None => {
                proof {
                    assert(digits_value(next) > u64::MAX);
                    if all_digits(body) {
                        lemma_digits_value_prefix(body, i - start + 1);
                        assert(digits_value(body) > u64::MAX);
                    }
                }
                return None;
            },
        }
        i = i + 1;
    }
    assert(body.subrange(0, i - start) =~= body);
    if neg {
        if acc <= 9_223_372_036_854_775_808u64 {
            if acc == 9_223_372_036_854_775_808u64 {
                Some(i64::MIN)
            } else {
                Some(-(acc as i64))
            }
        } else {
            None
        }
    } else {
        if acc <= 9_223_372_036_854_775_807u64 {
            Some(acc as i64)
        } else {
            None
        }
    }
}

/// Reading back the text of any `i64` gives that `i64`.
pub proof fn lemma_parse_format_i64(n: i64)
    ensures
        parse_i64_spec(i64_text(n)) == Some(n),
{
    if n < 0 {
        let m = (-n) as nat;
        lemma_decimal(m);
        let s = i64_text(n);
        assert(s.drop_first() =~= decimal(m));
        assert(split_sign(s).1 =~= decimal(m));
    } else {
        lemma_decimal(n as nat);
        let s = decimal(n as nat);
        assert(is_digit(s[0]));
        assert(split_sign(s).1 =~= s);
    }
}

} // verus!
