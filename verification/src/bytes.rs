//! Big-endian integer encodings over byte sequences, and the helpers that
//! read and write them against growing byte stores.

use vstd::prelude::*;

verus! {

// ---------------------------------------------------------------------------
// Decoding: byte sequences to integers (big-endian throughout).
// ---------------------------------------------------------------------------

/// The unsigned 16-bit value held big-endian in a 2-byte sequence.
pub open spec fn dec_u16(b: Seq<u8>) -> u16
    recommends
        b.len() == 2,
{
    (b[0] * 0x100 + b[1]) as u16
}

/// The unsigned 32-bit value held big-endian in a 4-byte sequence.
pub open spec fn dec_u32(b: Seq<u8>) -> u32
    recommends
        b.len() == 4,
{
    (b[0] * 0x1000000 + b[1] * 0x10000 + b[2] * 0x100 + b[3]) as u32
}

/// The unsigned 64-bit value held big-endian in an 8-byte sequence.
pub open spec fn dec_u64(b: Seq<u8>) -> u64
    recommends
        b.len() == 8,
{
    (dec_u32(b.subrange(0, 4)) * 0x100000000 + dec_u32(b.subrange(4, 8))) as u64
}

/// The signed value that a two's-complement unsigned 8-bit pattern stands for.
pub open spec fn as_signed8(v: u8) -> i8 {
    if v >= 0x80 {
        (v - 0x100) as i8
    } else {
        v as i8
    }
}

/// The signed value that a two's-complement unsigned 16-bit pattern stands for.
pub open spec fn as_signed16(v: u16) -> i16 {
    if v >= 0x8000 {
        (v - 0x10000) as i16
    } else {
        v as i16
    }
}

/// The signed value that a two's-complement unsigned 32-bit pattern stands for.
pub open spec fn as_signed32(v: u32) -> i32 {
    if v >= 0x80000000 {
        (v - 0x100000000) as i32
    } else {
        v as i32
    }
}

/// The signed value that a two's-complement unsigned 64-bit pattern stands for.
pub open spec fn as_signed64(v: u64) -> i64 {
    if v >= 0x8000000000000000 {
        (v - 0x10000000000000000) as i64
    } else {
        v as i64
    }
}

/// The signed 16-bit value held big-endian in a 2-byte sequence.
pub open spec fn dec_i16(b: Seq<u8>) -> i16
    recommends
        b.len() == 2,
{
    as_signed16(dec_u16(b))
}

/// The signed 32-bit value held big-endian in a 4-byte sequence.
pub open spec fn dec_i32(b: Seq<u8>) -> i32
    recommends
        b.len() == 4,
{
    as_signed32(dec_u32(b))
}

/// The signed 64-bit value held big-endian in an 8-byte sequence.
pub open spec fn dec_i64(b: Seq<u8>) -> i64
    recommends
        b.len() == 8,
{
    as_signed64(dec_u64(b))
}

// ---------------------------------------------------------------------------
// Encoding: integers to byte sequences.
// ---------------------------------------------------------------------------

/// The unsigned 8-bit two's-complement pattern of a signed 8-bit value.
pub open spec fn as_unsigned8(v: i8) -> u8 {
    if v < 0 {
        (v + 0x100) as u8
    } else {
        v as u8
    }
}

/// The unsigned 16-bit two's-complement pattern of a signed 16-bit value.
pub open spec fn as_unsigned16(v: i16) -> u16 {
    if v < 0 {
        (v + 0x10000) as u16
    } else {
        v as u16
    }
}

/// The unsigned 32-bit two's-complement pattern of a signed 32-bit value.
pub open spec fn as_unsigned32(v: i32) -> u32 {
    if v < 0 {
        (v + 0x100000000) as u32
    } else {
        v as u32
    }
}

/// The unsigned 64-bit two's-complement pattern of a signed 64-bit value.
pub open spec fn as_unsigned64(v: i64) -> u64 {
    if v < 0 {
        (v + 0x10000000000000000) as u64
    } else {
        v as u64
    }
}

/// The 2-byte big-endian encoding of an unsigned 16-bit value.
pub open spec fn enc_u16(v: u16) -> Seq<u8> {
    seq![(v / 0x100) as u8, (v % 0x100) as u8]
}

/// The 4-byte big-endian encoding of an unsigned 32-bit value.
pub open spec fn enc_u32(v: u32) -> Seq<u8> {
    seq![
        (v / 0x1000000) as u8,
        ((v / 0x10000) % 0x100) as u8,
        ((v / 0x100) % 0x100) as u8,
        (v % 0x100) as u8,
    ]
}

/// The 8-byte big-endian encoding of an unsigned 64-bit value.
pub open spec fn enc_u64(v: u64) -> Seq<u8> {
    enc_u32((v / 0x100000000) as u32) + enc_u32((v % 0x100000000) as u32)
}

/// The 2-byte big-endian encoding of a signed 16-bit value.
pub open spec fn enc_i16(v: i16) -> Seq<u8> {
    enc_u16(as_unsigned16(v))
}

/// The 4-byte big-endian encoding of a signed 32-bit value.
pub open spec fn enc_i32(v: i32) -> Seq<u8> {
    enc_u32(as_unsigned32(v))
}

/// The 8-byte big-endian encoding of a signed 64-bit value.
pub open spec fn enc_i64(v: i64) -> Seq<u8> {
    enc_u64(as_unsigned64(v))
}

// ---------------------------------------------------------------------------
// Round-trip lemmas.
// ---------------------------------------------------------------------------

pub proof fn lemma_enc_dec_u16(v: u16)
    ensures
        enc_u16(v).len() == 2,
        dec_u16(enc_u16(v)) == v,
{
}

pub proof fn lemma_enc_dec_u32(v: u32)
    ensures
        enc_u32(v).len() == 4,
        dec_u32(enc_u32(v)) == v,
{
}

pub proof fn lemma_enc_dec_u64(v: u64)
    ensures
        enc_u64(v).len() == 8,
        dec_u64(enc_u64(v)) == v,
{
    let hi = (v / 0x100000000) as u32;
    let lo = (v % 0x100000000) as u32;
    lemma_enc_dec_u32(hi);
    lemma_enc_dec_u32(lo);
    assert(enc_u64(v).subrange(0, 4) =~= enc_u32(hi));
    assert(enc_u64(v).subrange(4, 8) =~= enc_u32(lo));
}


#[verifier::rlimit(50)]
pub proof fn lemma_dec_enc_u32(b: Seq<u8>)
    requires
        b.len() == 4,
    ensures
        enc_u32(dec_u32(b)) =~= b,
{
}


pub proof fn lemma_signed_unsigned16(v: i16)
    ensures
        as_signed16(as_unsigned16(v)) == v,
{
}

pub proof fn lemma_signed_unsigned32(v: i32)
    ensures
        as_signed32(as_unsigned32(v)) == v,
{
}

pub proof fn lemma_signed_unsigned64(v: i64)
    ensures
        as_signed64(as_unsigned64(v)) == v,
{
}


// ---------------------------------------------------------------------------
// Executable readers: each reads a fixed-width big-endian value at an offset.
// ---------------------------------------------------------------------------


pub fn read_i8_at(b: &[u8], at: usize) -> (r: i8)
    requires
        at < b@.len(),
    ensures
        r == as_signed8(b@[at as int]),
{
    let v: u8 = b[at];
    if v >= 0x80 {
        ((v as i16) - 0x100) as i8
    } else {
        v as i8
    }
}

pub fn read_u16_at(b: &[u8], at: usize) -> (r: u16)
    requires
        at + 2 <= b@.len(),
    ensures
        r == dec_u16(b@.subrange(at as int, at + 2)),
{
    let r = (b[at] as u16) * 0x100 + (b[at + 1] as u16);
    proof {
        let s = b@.subrange(at as int, at + 2);
        assert(s[0] == b@[at as int] && s[1] == b@[at as int + 1]);
    }
    r
}

pub fn read_i16_at(b: &[u8], at: usize) -> (r: i16)
    requires
        at + 2 <= b@.len(),
    ensures
        r == dec_i16(b@.subrange(at as int, at + 2)),
{
    let v = read_u16_at(b, at);
    if v >= 0x8000 {
        ((v as i32) - 0x10000) as i16
    } else {
        v as i16
    }
}

pub fn read_u32_at(b: &[u8], at: usize) -> (r: u32)
    requires
        at + 4 <= b@.len(),
    ensures
        r == dec_u32(b@.subrange(at as int, at + 4)),
{
    let r = (b[at] as u32) * 0x1000000 + (b[at + 1] as u32) * 0x10000 + (b[at + 2] as u32) * 0x100
        + (b[at + 3] as u32);
    proof {
        let s = b@.subrange(at as int, at + 4);
        assert(s[0] == b@[at as int] && s[1] == b@[at as int + 1] && s[2] == b@[at as int + 2]
            && s[3] == b@[at as int + 3]);
    }
    r
}

pub fn read_i32_at(b: &[u8], at: usize) -> (r: i32)
    requires
        at + 4 <= b@.len(),
    ensures
        r == dec_i32(b@.subrange(at as int, at + 4)),
{
    let v = read_u32_at(b, at);
    if v >= 0x80000000 {
        ((v as i64) - 0x100000000) as i32
    } else {
        v as i32
    }
}

pub fn read_u64_at(b: &[u8], at: usize) -> (r: u64)
    requires
        at + 8 <= b@.len(),
    ensures
        r == dec_u64(b@.subrange(at as int, at + 8)),
{
    let n = b.len();
    assert(at + 8 <= n);
    let hi = read_u32_at(b, at);
    let lo = read_u32_at(b, at + 4);
    let r = (hi as u64) * 0x100000000 + (lo as u64);
    proof {
        let s = b@.subrange(at as int, at + 8);
        assert(s.subrange(0, 4) =~= b@.subrange(at as int, at + 4));
        assert(s.subrange(4, 8) =~= b@.subrange(at + 4, at + 8));
        assert(r == dec_u32(s.subrange(0, 4)) * 0x100000000 + dec_u32(s.subrange(4, 8)));
    }
    r
}

pub fn read_i64_at(b: &[u8], at: usize) -> (r: i64)
    requires
        at + 8 <= b@.len(),
    ensures
        r == dec_i64(b@.subrange(at as int, at + 8)),
{
    let v = read_u64_at(b, at);
    if v >= 0x8000000000000000 {
        // Shift the pattern down into signed range without leaving u64/i64 bounds.
        let low63 = v - 0x8000000000000000;
        proof {
            assert(low63 < 0x8000000000000000);
        }
        (low63 as i64) + (-0x8000000000000000i64)
    } else {
        v as i64
    }
}

// ---------------------------------------------------------------------------
// Executable writers: each appends a big-endian encoding to a byte store.
// ---------------------------------------------------------------------------

pub fn push_u16(out: &mut Vec<u8>, v: u16)
    ensures
        final (out)@ == old(out)@ + enc_u16(v),
{
    out.push((v / 0x100) as u8);
    out.push((v % 0x100) as u8);
    assert(final (out)@ =~= old(out)@ + enc_u16(v));
}

pub fn push_u32(out: &mut Vec<u8>, v: u32)
    ensures
        final (out)@ == old(out)@ + enc_u32(v),
{
    out.push((v / 0x1000000) as u8);
    out.push(((v / 0x10000) % 0x100) as u8);
    out.push(((v / 0x100) % 0x100) as u8);
    out.push((v % 0x100) as u8);
    assert(final (out)@ =~= old(out)@ + enc_u32(v));
}

pub fn push_u64(out: &mut Vec<u8>, v: u64)
    ensures
        final (out)@ == old(out)@ + enc_u64(v),
{
    push_u32(out, (v / 0x100000000) as u32);
    push_u32(out, (v % 0x100000000) as u32);
    assert(final (out)@ =~= old(out)@ + enc_u64(v));
}

/// The unsigned two's-complement pattern of a signed 16-bit value.
pub fn unsigned16(v: i16) -> (r: u16)
    ensures
        r == as_unsigned16(v),
{
    if v < 0 {
        ((v as i32) + 0x10000) as u16
    } else {
        v as u16
    }
}

/// The unsigned two's-complement pattern of a signed 32-bit value.
pub fn unsigned32(v: i32) -> (r: u32)
    ensures
        r == as_unsigned32(v),
{
    if v < 0 {
        ((v as i64) + 0x100000000) as u32
    } else {
        v as u32
    }
}

/// The unsigned two's-complement pattern of a signed 64-bit value.
pub fn unsigned64(v: i64) -> (r: u64)
    ensures
        r == as_unsigned64(v),
{
    if v < 0 {
        // Shift up into unsigned range without leaving i64/u64 bounds.
        let shifted = v + 0x4000000000000000i64 + 0x4000000000000000i64;
        (shifted as u64) + 0x8000000000000000u64
    } else {
        v as u64
    }
}

pub fn push_i16(out: &mut Vec<u8>, v: i16)
    ensures
        final (out)@ == old(out)@ + enc_i16(v),
{
    push_u16(out, unsigned16(v));
}

pub fn push_i32(out: &mut Vec<u8>, v: i32)
    ensures
        final (out)@ == old(out)@ + enc_i32(v),
{
    push_u32(out, unsigned32(v));
}

pub fn push_i64(out: &mut Vec<u8>, v: i64)
    ensures
        final (out)@ == old(out)@ + enc_i64(v),
{
    push_u64(out, unsigned64(v));
}

/// A sequence of `n` zero bytes.
pub open spec fn zeros(n: int) -> Seq<u8> {
    Seq::new(n as nat, |i: int| 0u8)
}

pub fn push_zeros(out: &mut Vec<u8>, n: usize)
    ensures
        final (out)@ == old(out)@ + zeros(n as int),
{
    let mut i: usize = 0;
    while i < n
        invariant
            i <= n,
            out@ == old(out)@ + zeros(i as int),
        decreases n - i,
    {
        out.push(0u8);
        i = i + 1;
        assert(out@ =~= old(out)@ + zeros(i as int));
    }
}

/// Appends every byte of `src` to `out`.
pub fn extend_bytes(out: &mut Vec<u8>, src: &[u8])
    ensures
        final (out)@ == old(out)@ + src@,
{
    let n = src.len();
    let mut i: usize = 0;
    while i < n
        invariant
            i <= n,
            n == src@.len(),
            out@ == old(out)@ + src@.take(i as int),
        decreases n - i,
    {
        out.push(src[i]);
        assert(out@ =~= old(out)@ + src@.take(i + 1));
        i = i + 1;
    }
    assert(src@.take(n as int) =~= src@);
}

// ---------------------------------------------------------------------------
// Locating NUL terminators.
// ---------------------------------------------------------------------------

/// The position of the first zero byte at or after `i`, or `b.len()` if none.
pub open spec fn nul_from(b: Seq<u8>, i: int) -> int
    recommends
        0 <= i <= b.len(),
    decreases b.len() - i when 0 <= i <= b.len()
{
    if i >= b.len() {
        b.len() as int
    } else if b[i] == 0 {
        i
    } else {
        nul_from(b, i + 1)
    }
}

pub proof fn lemma_nul_from_bounds(b: Seq<u8>, i: int)
    requires
        0 <= i <= b.len(),
    ensures
        i <= nul_from(b, i) <= b.len(),
        nul_from(b, i) < b.len() ==> b[nul_from(b, i)] == 0,
        forall|k: int| i <= k < nul_from(b, i) ==> b[k] != 0,
    decreases b.len() - i,
{
    if i < b.len() && b[i] != 0 {
        lemma_nul_from_bounds(b, i + 1);
    }
}

/// If the bytes from `i` up to `j` are nonzero and `b[j]` is zero, then `j`
/// is the first NUL at or after `i`.
pub proof fn lemma_nul_from_found(b: Seq<u8>, i: int, j: int)
    requires
        0 <= i <= j <= b.len(),
        forall|k: int| i <= k < j ==> b[k] != 0,
        j < b.len() ==> b[j] == 0,
    ensures
        j < b.len() ==> nul_from(b, i) == j,
        j == b.len() ==> nul_from(b, i) == b.len(),
    decreases j - i,
{
    if i < j {
        lemma_nul_from_found(b, i + 1, j);
    }
}

/// Scans for the first zero byte at or after `from`.
pub fn find_nul(b: &[u8], from: usize) -> (r: usize)
    requires
        from <= b@.len(),
    ensures
        r == nul_from(b@, from as int),
{
    let n = b.len();
    let mut i: usize = from;
    while i < n
        invariant
            from <= i <= n,
            n == b@.len(),
            forall|k: int| from <= k < i ==> b@[k] != 0,
        decreases n - i,
    {
        if b[i] == 0 {
            proof {
                lemma_nul_from_found(b@, from as int, i as int);
            }
            return i;
        }
        i = i + 1;
    }
    proof {
        lemma_nul_from_found(b@, from as int, n as int);
    }
    n
}

} // verus!
