//! Little-endian 64-bit framing used by the record encoding.

use vstd::prelude::*;

verus! {

/// The eight little-endian bytes of a 64-bit word.
pub open spec fn le64_bytes(x: u64) -> Seq<u8> {
    seq![
        (x & 0xff) as u8,
        ((x >> 8) & 0xff) as u8,
        ((x >> 16) & 0xff) as u8,
        ((x >> 24) & 0xff) as u8,
        ((x >> 32) & 0xff) as u8,
        ((x >> 40) & 0xff) as u8,
        ((x >> 48) & 0xff) as u8,
        ((x >> 56) & 0xff) as u8,
    ]
}

/// The word the first eight bytes spell, little-endian.
pub open spec fn le64_value(s: Seq<u8>) -> u64 {
    (s[0] as u64) | ((s[1] as u64) << 8) | ((s[2] as u64) << 16) | ((s[3] as u64) << 24) | ((
    s[4] as u64) << 32) | ((s[5] as u64) << 40) | ((s[6] as u64) << 48) | ((s[7] as u64) << 56)
}

/// Splits off a framed word: the first eight bytes and the rest.
pub open spec fn take_u64(s: Seq<u8>) -> Option<(u64, Seq<u8>)> {
    if s.len() >= 8 {
        Some((le64_value(s), s.skip(8)))
    } else {
        None
    }
}

pub proof fn lemma_le64_roundtrip(x: u64)
    ensures
        le64_bytes(x).len() == 8,
        le64_value(le64_bytes(x)) == x,
{
    let b = le64_bytes(x);
    assert((((x & 0xff) as u8) as u64) | (((((x >> 8) & 0xff) as u8) as u64) << 8) | (((((x >> 16)
        & 0xff) as u8) as u64) << 16) | (((((x >> 24) & 0xff) as u8) as u64) << 24) | (((((x >> 32)
        & 0xff) as u8) as u64) << 32) | (((((x >> 40) & 0xff) as u8) as u64) << 40) | (((((x >> 48)
        & 0xff) as u8) as u64) << 48) | (((((x >> 56) & 0xff) as u8) as u64) << 56) == x)
        by (bit_vector);
}

pub proof fn lemma_take_u64_of(x: u64, rest: Seq<u8>)
    ensures
        take_u64(le64_bytes(x) + rest) == Some((x, rest)),
{
    lemma_le64_roundtrip(x);
    let s = le64_bytes(x) + rest;
    assert(le64_value(s) == le64_value(le64_bytes(x))) by {
        assert(s[0] == le64_bytes(x)[0]);
        assert(s[1] == le64_bytes(x)[1]);
        assert(s[2] == le64_bytes(x)[2]);
        assert(s[3] == le64_bytes(x)[3]);
        assert(s[4] == le64_bytes(x)[4]);
        assert(s[5] == le64_bytes(x)[5]);
        assert(s[6] == le64_bytes(x)[6]);
        assert(s[7] == le64_bytes(x)[7]);
    }
    assert(s.skip(8) =~= rest);
}

/// Appends the eight little-endian bytes of a word.
pub fn push_u64_le(out: &mut Vec<u8>, x: u64)
    ensures
        final(out)@ == old(out)@ + le64_bytes(x),
{
    out.push((x & 0xff) as u8);
    out.push(((x >> 8u64) & 0xff) as u8);
    out.push(((x >> 16u64) & 0xff) as u8);
    out.push(((x >> 24u64) & 0xff) as u8);
    out.push(((x >> 32u64) & 0xff) as u8);
    out.push(((x >> 40u64) & 0xff) as u8);
    out.push(((x >> 48u64) & 0xff) as u8);
    out.push(((x >> 56u64) & 0xff) as u8);
    proof {
        assert(out@ =~= old(out)@ + le64_bytes(x));
    }
}

/// Copies `data[from..to]` out.
pub fn subrange_vec(data: &Vec<u8>, from: usize, to: usize) -> (r: Vec<u8>)
    requires
        from <= to <= data@.len(),
    ensures
        r@ == data@.subrange(from as int, to as int),
{
    let mut r: Vec<u8> = Vec::new();
    let mut k = from;
    while k < to
        invariant
            from <= k <= to <= data@.len(),
            r@ =~= data@.subrange(from as int, k as int),
        decreases to - k,
    {
        r.push(data[k]);
        k = k + 1;
        assert(r@ =~= data@.subrange(from as int, k as int));
    }
    r
}

/// Reads the first framed word and hands back the rest, following
/// [`take_u64`].
pub fn take_u64_exec(s: Vec<u8>) -> (r: Option<(u64, Vec<u8>)>)
    ensures
        match r {
            Some((x, rest)) => take_u64(s@) == Some((x, rest@)),
            None => take_u64(s@) is None,
        },
{
    if s.len() >= 8 {
        let x = (s[0] as u64) | ((s[1] as u64) << 8u64) | ((s[2] as u64) << 16u64) | ((s[3] as u64)
            << 24u64) | ((s[4] as u64) << 32u64) | ((s[5] as u64) << 40u64) | ((s[6] as u64)
            << 48u64) | ((s[7] as u64) << 56u64);
        let rest = subrange_vec(&s, 8, s.len());
        proof {
            assert(rest@ =~= s@.skip(8));
        }
        Some((x, rest))
    } else {
        None
    }
}

} // verus!
