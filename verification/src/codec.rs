//! Big-endian integer framing used by every on-disk key and value.
use vstd::prelude::*;

verus! {

/// The two big-endian bytes of a `u16`.
pub open spec fn be_u16(v: u16) -> Seq<u8> {
    seq![(v / 256) as u8, (v % 256) as u8]
}

/// The four big-endian bytes of a `u32`.
pub open spec fn be_u32(v: u32) -> Seq<u8> {
    be_u16((v / 0x1_0000) as u16) + be_u16((v % 0x1_0000) as u16)
}

/// The eight big-endian bytes of a `u64`.
pub open spec fn be_u64(v: u64) -> Seq<u8> {
    be_u32((v / 0x1_0000_0000) as u32) + be_u32((v % 0x1_0000_0000) as u32)
}

/// The `u16` whose big-endian bytes start `s`.
pub open spec fn u16_of(s: Seq<u8>) -> u16 {
    (s[0] * 256 + s[1]) as u16
}

/// The `u32` whose big-endian bytes start `s`.
pub open spec fn u32_of(s: Seq<u8>) -> u32 {
    (u16_of(s) * 0x1_0000 + u16_of(s.subrange(2, 4))) as u32
}

/// The `u64` whose big-endian bytes start `s`.
pub open spec fn u64_of(s: Seq<u8>) -> u64 {
    (u32_of(s) * 0x1_0000_0000 + u32_of(s.subrange(4, 8))) as u64
}

pub proof fn lemma_be_u16(v: u16)
    ensures
        be_u16(v).len() == 2,
        u16_of(be_u16(v)) == v,
        forall|t: Seq<u8>| #![auto] u16_of(be_u16(v) + t) == v,
{
    assert forall|t: Seq<u8>| #![auto] u16_of(be_u16(v) + t) == v by {
        assert((be_u16(v) + t)[0] == be_u16(v)[0]);
        assert((be_u16(v) + t)[1] == be_u16(v)[1]);
    }
}

pub proof fn lemma_be_u32(v: u32)
    ensures
        be_u32(v).len() == 4,
        u32_of(be_u32(v)) == v,
        forall|t: Seq<u8>| #![auto] u32_of(be_u32(v) + t) == v,
{
    let hi = (v / 0x1_0000) as u16;
    let lo = (v % 0x1_0000) as u16;
    lemma_be_u16(hi);
    lemma_be_u16(lo);
    assert forall|t: Seq<u8>| #![auto] u32_of(be_u32(v) + t) == v by {
        let s = be_u32(v) + t;
        assert(s.subrange(2, 4) =~= be_u16(lo));
        assert(s[0] == be_u16(hi)[0]);
        assert(s[1] == be_u16(hi)[1]);
    }
    assert(u32_of(be_u32(v) + Seq::<u8>::empty()) == v);
    assert(be_u32(v) + Seq::<u8>::empty() =~= be_u32(v));
}

pub proof fn lemma_be_u64(v: u64)
    ensures
        be_u64(v).len() == 8,
        u64_of(be_u64(v)) == v,
        forall|t: Seq<u8>| #![auto] u64_of(be_u64(v) + t) == v,
{
    let hi = (v / 0x1_0000_0000) as u32;
    let lo = (v % 0x1_0000_0000) as u32;
    lemma_be_u32(hi);
    lemma_be_u32(lo);
    assert forall|t: Seq<u8>| #![auto] u64_of(be_u64(v) + t) == v by {
        let s = be_u64(v) + t;
        assert(s =~= be_u32(hi) + (be_u32(lo) + t));
        assert(s.subrange(4, 8) =~= be_u32(lo));
        assert(s.subrange(4, 8) + Seq::<u8>::empty() =~= be_u32(lo));
        assert(u32_of(s) == hi);
    }
    assert(be_u64(v) + Seq::<u8>::empty() =~= be_u64(v));
}

/// Bytes that start with the big-endian encoding of the value they decode to.
pub proof fn lemma_u16_of_prefix(s: Seq<u8>)
    requires
        s.len() >= 2,
    ensures
        be_u16(u16_of(s)) == s.subrange(0, 2),
{
    assert(be_u16(u16_of(s)) =~= s.subrange(0, 2));
}

pub proof fn lemma_u32_of_prefix(s: Seq<u8>)
    requires
        s.len() >= 4,
    ensures
        be_u32(u32_of(s)) == s.subrange(0, 4),
{
    lemma_u16_of_prefix(s);
    lemma_u16_of_prefix(s.subrange(2, 4));
    let v = u32_of(s);
    assert((v / 0x1_0000) as u16 == u16_of(s));
    assert((v % 0x1_0000) as u16 == u16_of(s.subrange(2, 4)));
    assert(be_u32(v) =~= s.subrange(0, 4));
}

/// Appends the big-endian bytes of `v`.
pub fn push_u16(buf: &mut Vec<u8>, v: u16)
    ensures
        final(buf)@ == old(buf)@ + be_u16(v),
{
    buf.push((v / 256) as u8);
    buf.push((v % 256) as u8);
    assert(buf@ =~= old(buf)@ + be_u16(v));
}

/// Appends the big-endian bytes of `v`.
pub fn push_u32(buf: &mut Vec<u8>, v: u32)
    ensures
        final(buf)@ == old(buf)@ + be_u32(v),
{
    push_u16(buf, (v / 0x1_0000) as u16);
    push_u16(buf, (v % 0x1_0000) as u16);
    assert(buf@ =~= old(buf)@ + be_u32(v));
}

/// Appends the big-endian bytes of `v`.
pub fn push_u64(buf: &mut Vec<u8>, v: u64)
    ensures
        final(buf)@ == old(buf)@ + be_u64(v),
{
    push_u32(buf, (v / 0x1_0000_0000) as u32);
    push_u32(buf, (v % 0x1_0000_0000) as u32);
    assert(buf@ =~= old(buf)@ + be_u64(v));
}

/// Appends every byte of `bytes`.
pub fn push_bytes(buf: &mut Vec<u8>, bytes: &[u8])
    ensures
        final(buf)@ == old(buf)@ + bytes@,
{
    let mut i: usize = 0;
    while i < bytes.len()
        invariant
            0 <= i <= bytes@.len(),
            buf@ == old(buf)@ + bytes@.subrange(0, i as int),
        decreases bytes@.len() - i,
    {
        buf.push(bytes[i]);
        i = i + 1;
        assert(buf@ =~= old(buf)@ + bytes@.subrange(0, i as int));
    }
    assert(bytes@.subrange(0, i as int) =~= bytes@);
}

/// Copies `bytes[start..end]` into a new vector.
pub fn copy_range(bytes: &[u8], start: usize, end: usize) -> (out: Vec<u8>)
    requires
        start <= end <= bytes@.len(),
    ensures
        out@ == bytes@.subrange(start as int, end as int),
{
    let mut out: Vec<u8> = Vec::new();
    let mut i: usize = start;
    while i < end
        invariant
            start <= i <= end <= bytes@.len(),
            out@ == bytes@.subrange(start as int, i as int),
        decreases end - i,
    {
        out.push(bytes[i]);
        i = i + 1;
        assert(out@ =~= bytes@.subrange(start as int, i as int));
    }
    out
}

/// Reads a big-endian `u16` at `pos`.
pub fn read_u16(bytes: &[u8], pos: usize) -> (v: u16)
    requires
        pos + 2 <= bytes@.len(),
    ensures
        v == u16_of(bytes@.subrange(pos as int, pos + 2)),
{
    let hi = bytes[pos] as u16;
    let lo = bytes[pos + 1] as u16;
    hi * 256 + lo
}

/// Reads a big-endian `u32` at `pos`.
pub fn read_u32(bytes: &[u8], pos: usize) -> (v: u32)
    requires
        pos + 4 <= bytes@.len(),
    ensures
        v == u32_of(bytes@.subrange(pos as int, pos + 4)),
{
    let n = bytes.len();
    assert(pos + 4 <= n);
    let hi = read_u16(bytes, pos) as u32;
    let lo = read_u16(bytes, pos + 2) as u32;
    let ghost s = bytes@.subrange(pos as int, pos + 4);
    assert(s.subrange(2, 4) =~= bytes@.subrange(pos + 2, pos + 4));
    assert(bytes@.subrange(pos as int, pos + 2)[0] == s[0]);
    assert(bytes@.subrange(pos as int, pos + 2)[1] == s[1]);
    hi * 0x1_0000 + lo
}

/// Reads a big-endian `u64` at `pos`.
pub fn read_u64(bytes: &[u8], pos: usize) -> (v: u64)
    requires
        pos + 8 <= bytes@.len(),
    ensures
        v == u64_of(bytes@.subrange(pos as int, pos + 8)),
{
    let n = bytes.len();
    assert(pos + 8 <= n);
    let hi = read_u32(bytes, pos) as u64;
    let lo = read_u32(bytes, pos + 4) as u64;
    let ghost s = bytes@.subrange(pos as int, pos + 8);
    assert(s.subrange(4, 8) =~= bytes@.subrange(pos + 4, pos + 8));
    assert(s.subrange(0, 4) =~= bytes@.subrange(pos as int, pos + 4));
    assert(u16_of(s.subrange(0, 4)) == u16_of(s)) by {
        assert(s.subrange(0, 4)[0] == s[0]);
        assert(s.subrange(0, 4)[1] == s[1]);
    }
    assert(s.subrange(0, 4).subrange(2, 4) =~= s.subrange(2, 4));
    hi * 0x1_0000_0000 + lo
}

} // verus!
