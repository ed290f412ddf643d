//! The value computations of the string commands INCR, DECR and APPEND.
use vstd::prelude::*;
use crate::codec::push_bytes;
use crate::decimal::{format_i64, parse_i64, parse_i64_spec, i64_text};
use crate::error::{StorageError, ErrorModel, DecoderError, error_model};

verus! {

/// Whether `bytes` are valid UTF-8, through `std::str::from_utf8`; the claim is
/// that it accepts exactly the byte strings that `vstd::utf8::valid_utf8` describes.
#[verifier::external_body]
fn utf8_valid(bytes: &[u8]) -> (r: bool)
    ensures
        r == vstd::utf8::valid_utf8(bytes@),
{
    std::str::from_utf8(bytes).is_ok()
}

pub open spec fn not_an_integer_text() -> Seq<char> {
    "ERR value is not an integer or out of range"@
}

pub open spec fn overflow_text() -> Seq<char> {
    "ERR increment or decrement would overflow"@
}

/// What INCR (`increment`) or DECR gives for the current value: the new integer,
/// or the failure, in the order the checks are made.
pub enum CounterOutcome {
    Value(i64),
    NotUtf8,
    NotAnInteger,
    Overflow,
}

pub open spec fn counter_spec(current: Option<Seq<u8>>, increment: bool) -> CounterOutcome {
    let start: Option<i64> = match current {
        None => Some(0i64),
        Some(bytes) => parse_i64_spec(bytes),
    };
    if current is Some && !vstd::utf8::valid_utf8(current.unwrap()) {
        CounterOutcome::NotUtf8
    } else if start is None {
        CounterOutcome::NotAnInteger
    } else {
        let next: int = if increment {
            start.unwrap() + 1
        } else {
            start.unwrap() - 1
        };
        if i64::MIN <= next <= i64::MAX {
            CounterOutcome::Value(next as i64)
        } else {
            CounterOutcome::Overflow
        }
    }
}

/// Adds one to (`increment`) or subtracts one from the integer held by a string
/// value; an absent value counts as zero. Returns the new integer and its text.
pub fn apply_counter(current: Option<&Vec<u8>>, increment: bool) -> (r: Result<(i64, Vec<u8>), StorageError>)
    ensures
        match counter_spec(
            match current {
                Some(v) => Some(v@),
                None => None,
            },
            increment,
        ) {
            CounterOutcome::Value(n) => r matches Ok((m, text)) && m == n && text@ == i64_text(n),
            CounterOutcome::NotUtf8 => r matches Err(e) && error_model(e) == ErrorModel::Decode(
                DecoderError::InvalidLength,
            ),
            CounterOutcome::NotAnInteger => r matches Err(StorageError::DataInconsistency { message })
                && message@ == not_an_integer_text(),
            CounterOutcome::Overflow => r matches Err(StorageError::DataInconsistency { message })
                && message@ == overflow_text(),
        },
{
    let start: i64 = match current {
        Some(bytes) => {
            if !utf8_valid(bytes.as_slice()) {
                return Err(StorageError::DecodeError { source: DecoderError::InvalidLength });
            }
            match parse_i64(bytes.as_slice()) {
                Some(n) => n,
                None => {
                    return Err(
                        StorageError::inconsistency("ERR value is not an integer or out of range"),
                    );
                },
            }
        },
        None => 0,
    };
    let next = if increment {
        start.checked_add(1)
    } else {
        start.checked_sub(1)
    };
    match next {
        Some(n) => Ok((n, format_i64(n))),
        None => Err(StorageError::inconsistency("ERR increment or decrement would overflow")),
    }
}

/// The value that APPEND stores: the current value, if any, followed by `suffix`.
pub fn append_value(current: Option<&Vec<u8>>, suffix: &[u8]) -> (r: Vec<u8>)
    ensures
        r@ == match current {
            Some(v) => v@ + suffix@,
            None => suffix@,
        },
{
    let mut combined: Vec<u8> = Vec::new();
    match current {
        Some(bytes) => push_bytes(&mut combined, bytes.as_slice()),
        None => {},
    }
    push_bytes(&mut combined, suffix);
    assert(combined@ =~= match current {
        Some(v) => v@ + suffix@,
        None => suffix@,
    });
    combined
}

/// INCR then DECR on any integer value away from the ends of the `i64` range
/// gives back the text of the integer it started from.
pub proof fn lemma_increment_then_decrement(n: i64)
    requires
        n < i64::MAX,
    ensures
        counter_spec(Some(i64_text(n)), true) == CounterOutcome::Value((n + 1) as i64),
        counter_spec(Some(i64_text((n + 1) as i64)), false) == CounterOutcome::Value(n),
{
    crate::decimal::lemma_parse_format_i64(n);
    crate::decimal::lemma_parse_format_i64((n + 1) as i64);
    lemma_i64_text_is_utf8(n);
    lemma_i64_text_is_utf8((n + 1) as i64);
}

/// Bytes below 128 are ASCII, hence valid UTF-8.
pub proof fn lemma_ascii_is_utf8(bytes: Seq<u8>)
    requires
        forall|i: int| 0 <= i < bytes.len() ==> #[trigger] bytes[i] < 128,
    ensures
        vstd::utf8::valid_utf8(bytes),
{
    assert(bytes.subrange(0, 0) =~= Seq::<u8>::empty());
    assert forall|i: int| 0 <= 0 <= i < bytes.len() <= bytes.len() implies
        #[trigger] vstd::utf8::is_leading_byte_width_1(bytes[i]) by {
        assert(bytes[i] < 128);
    }
    vstd::utf8::partial_valid_utf8_extend_ascii_block(bytes, 0, bytes.len() as int);
    assert(bytes.subrange(0, bytes.len() as int) =~= bytes);
}

/// The text of an integer is ASCII, hence valid UTF-8.
pub proof fn lemma_i64_text_is_utf8(n: i64)
    ensures
        vstd::utf8::valid_utf8(i64_text(n)),
{
    let m: nat = if n < 0 {
        (-n) as nat
    } else {
        n as nat
    };
    crate::decimal::lemma_decimal(m);
    let t = i64_text(n);
    assert forall|i: int| 0 <= i < t.len() implies #[trigger] t[i] < 128 by {
        if n < 0 {
            if i > 0 {
                assert(t[i] == crate::decimal::decimal(m)[i - 1]);
                assert(crate::decimal::is_digit(crate::decimal::decimal(m)[i - 1]));
            }
        } else {
            assert(crate::decimal::is_digit(crate::decimal::decimal(m)[i]));
        }
    }
    lemma_ascii_is_utf8(t);
}

/// The integer a string value holds for INCR and DECR: an absent value counts
/// as zero.
pub open spec fn counter_start(current: Option<Seq<u8>>) -> Option<i64> {
    match current {
        None => Some(0i64),
        Some(bytes) => parse_i64_spec(bytes),
    }
}

/// INCR adds one and DECR subtracts one from the integer the value holds (zero
/// for an absent value): INCR on an absent key gives 1 and DECR gives -1, and
/// wherever both succeed, INCR's result is DECR's plus two.
pub proof fn lemma_counter_steps_by_one(current: Option<Seq<u8>>)
    ensures
        counter_spec(current, true) matches CounterOutcome::Value(n) ==> (counter_start(current)
            matches Some(s) && n == s + 1),
        counter_spec(current, false) matches CounterOutcome::Value(n) ==> (counter_start(current)
            matches Some(s) && n == s - 1),
        counter_spec(current, true) matches CounterOutcome::Value(n) ==> (counter_spec(current, false)
            matches CounterOutcome::Value(m) ==> n == m + 2),
        current is None ==> counter_spec(current, true) == CounterOutcome::Value(1i64),
        current is None ==> counter_spec(current, false) == CounterOutcome::Value(-1i64),
{
}

} // verus!
