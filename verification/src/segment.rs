//! One-byte segment prefixes that route the keys of a database, and the prefix
//! extractor that tells the store how long such a prefix is.
use vstd::prelude::*;

verus! {

/// The name under which the extractor is registered with the store.
pub const EXTRACTOR_NAME: &'static str = "nimbis-storage-segment-v1";

pub const META_PREFIX: u8 = 109;  // 'm'

pub const HASH_PREFIX: u8 = 104;  // 'h'

pub const LIST_PREFIX: u8 = 108;  // 'l'

pub const SET_PREFIX: u8 = 83;  // 'S'

pub const ZSET_PREFIX: u8 = 122;  // 'z'

/// A segment of the key space, named by its first byte.
#[derive(Debug, Clone, Copy, PartialEq, Eq, Structural)]
pub enum Segment {
    Meta,
    Hash,
    List,
    SetType,
    ZSet,
}

/// The prefix byte of each segment.
pub open spec fn segment_prefix(s: Segment) -> u8 {
    match s {
        Segment::Meta => META_PREFIX,
        Segment::Hash => HASH_PREFIX,
        Segment::List => LIST_PREFIX,
        Segment::SetType => SET_PREFIX,
        Segment::ZSet => ZSET_PREFIX,
    }
}

/// The payload of `encoded` if it lies in segment `s`.
pub open spec fn strip_spec(s: Segment, encoded: Seq<u8>) -> Option<Seq<u8>> {
    if encoded.len() > 0 && encoded[0] == segment_prefix(s) {
        Some(encoded.drop_first())
    } else {
        None
    }
}

impl Segment {
    /// The prefix byte of this segment.
    pub fn prefix(self) -> (r: u8)
        ensures
            r == segment_prefix(self),
    {
        match self {
            Segment::Meta => META_PREFIX,
            Segment::Hash => HASH_PREFIX,
            Segment::List => LIST_PREFIX,
            Segment::SetType => SET_PREFIX,
            Segment::ZSet => ZSET_PREFIX,
        }
    }

    /// `payload` behind this segment's prefix byte.
    pub fn wrap(self, payload: &[u8]) -> (r: Vec<u8>)
        requires
            payload@.len() < usize::MAX,
        ensures
            r@ == seq![segment_prefix(self)] + payload@,
    {
        let mut out: Vec<u8> = Vec::with_capacity(payload.len() + 1);
        out.push(self.prefix());
        let mut i: usize = 0;
        while i < payload.len()
            invariant
                i <= payload@.len(),
                out@ == seq![segment_prefix(self)] + payload@.take(i as int),
            decreases payload@.len() - i,
        {
            out.push(payload[i]);
            i = i + 1;
            proof {
                assert(payload@.take(i as int) =~= payload@.take(i - 1).push(payload@[i - 1]));
            }
        }
        proof {
            assert(payload@.take(payload@.len() as int) =~= payload@);
        }
        out
    }

    /// The payload of `encoded` if it starts with this segment's prefix.
    pub fn strip(self, encoded: &[u8]) -> (r: Option<Vec<u8>>)
        ensures
            match strip_spec(self, encoded@) {
                Some(p) => r matches Some(v) && v@ == p,
                None => r is None,
            },
    {
        if encoded.len() == 0 || encoded[0] != self.prefix() {
            return None;
        }
        let mut out: Vec<u8> = Vec::with_capacity(encoded.len() - 1);
        let mut i: usize = 1;
        while i < encoded.len()
            invariant
                1 <= i <= encoded@.len(),
                out@ == encoded@.subrange(1, i as int),
            decreases encoded@.len() - i,
        {
            out.push(encoded[i]);
            i = i + 1;
            proof {
                assert(encoded@.subrange(1, i as int) =~= encoded@.subrange(1, i - 1).push(encoded@[i - 1]));
            }
        }
        proof {
            assert(encoded@.subrange(1, encoded@.len() as int) =~= encoded@.drop_first());
        }
        Some(out)
    }
}

/// Stripping the segment that wrapped a payload gives the payload back; any other
/// segment refuses it.
pub proof fn lemma_strip_wrap(s: Segment, other: Segment, payload: Seq<u8>)
    ensures
        strip_spec(s, seq![segment_prefix(s)] + payload) == Some(payload),
        other != s ==> strip_spec(other, seq![segment_prefix(s)] + payload) is None,
{
    let w = seq![segment_prefix(s)] + payload;
    assert(w[0] == segment_prefix(s));
    assert(w.drop_first() =~= payload);
}

/// What a prefix length is asked for: a point key or a scan prefix.
pub enum SegmentTarget {
    Point(Vec<u8>),
    Prefix(Vec<u8>),
}

/// The bytes of a target.
pub open spec fn target_bytes(t: SegmentTarget) -> Seq<u8> {
    match t {
        SegmentTarget::Point(b) => b@,
        SegmentTarget::Prefix(b) => b@,
    }
}

/// Routes keys and scan prefixes by their first byte.
#[derive(Debug, Default)]
pub struct NimbisSegmentExtractor;

impl NimbisSegmentExtractor {
    /// The registered name of the extractor.
    pub fn name(&self) -> (r: &'static str)
        ensures
            r@ == EXTRACTOR_NAME@,
    {
        EXTRACTOR_NAME
    }

    /// One byte of any non-empty key or prefix; nothing of an empty one.
    pub fn prefix_len(&self, target: &SegmentTarget) -> (r: Option<usize>)
        ensures
            r == (if target_bytes(*target).len() > 0 {
                Some(1usize)
            } else {
                None
            }),
    {
        let bytes = match target {
            SegmentTarget::Point(b) => b,
            SegmentTarget::Prefix(b) => b,
        };
        if bytes.len() > 0 {
            Some(1)
        } else {
            None
        }
    }
}

} // verus!
