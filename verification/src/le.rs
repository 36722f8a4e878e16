//! Little-endian integer encoding, the byte order of every multi-byte
//! field in the vessel header.

use vstd::prelude::*;

verus! {

/// The unsigned value of the four bytes `s[off..off + 4]`, little-endian.
pub open spec fn le32_at(s: Seq<u8>, off: int) -> int {
    s[off] + s[off + 1] * 256 + s[off + 2] * 65536 + s[off + 3] * 16777216
}

/// The unsigned value of the eight bytes `s[off..off + 8]`, little-endian.
pub open spec fn le64_at(s: Seq<u8>, off: int) -> int {
    le32_at(s, off) + le32_at(s, off + 4) * 4294967296
}

/// The four little-endian bytes of `x`.
pub open spec fn le32_bytes(x: u32) -> Seq<u8> {
    seq![
        (x % 256) as u8,
        ((x / 256) % 256) as u8,
        ((x / 65536) % 256) as u8,
        (x / 16777216) as u8,
    ]
}

/// The eight little-endian bytes of `x`.
pub open spec fn le64_bytes(x: u64) -> Seq<u8> {
    le32_bytes((x % 4294967296) as u32) + le32_bytes((x / 4294967296) as u32)
}

/// Reading back the four bytes of `x` gives `x`.
pub proof fn lemma_le32_value(x: u32)
    ensures
        le32_bytes(x).len() == 4,
        le32_at(le32_bytes(x), 0) == x,
{
    let s = le32_bytes(x);
    assert(x == (x % 256) + ((x / 256) % 256) * 256 + ((x / 65536) % 256) * 65536 + (x / 16777216)
        * 16777216) by (bit_vector);
    assert(x / 16777216 < 256) by (bit_vector);
    assert(s[0] == x % 256);
    assert(s[1] == (x / 256) % 256);
    assert(s[2] == (x / 65536) % 256);
    assert(s[3] == x / 16777216);
}

/// Four bytes re-encode to themselves.
pub proof fn lemma_le32_bytes(s: Seq<u8>, off: int)
    requires
        0 <= off,
        off + 4 <= s.len(),
    ensures
        0 <= le32_at(s, off) <= u32::MAX,
        le32_bytes(le32_at(s, off) as u32) == s.subrange(off, off + 4),
{
    let b0 = s[off];
    let b1 = s[off + 1];
    let b2 = s[off + 2];
    let b3 = s[off + 3];
    let x: u32 = ((b0 as u32) + (b1 as u32) * 256 + (b2 as u32) * 65536 + (b3 as u32) * 16777216) as u32;
    assert(x % 256 == b0 && (x / 256) % 256 == b1 && (x / 65536) % 256 == b2 && x / 16777216 == b3)
        by (bit_vector)
        requires
            x == (b0 as u32) + (b1 as u32) * 256 + (b2 as u32) * 65536 + (b3 as u32) * 16777216,
    ;
    assert(le32_bytes(x) =~= s.subrange(off, off + 4));
}

/// Reading back the eight bytes of `x` gives `x`.
pub proof fn lemma_le64_value(x: u64)
    ensures
        le64_bytes(x).len() == 8,
        le64_at(le64_bytes(x), 0) == x,
{
    let lo = (x % 4294967296) as u32;
    let hi = (x / 4294967296) as u32;
    assert(x / 4294967296 <= u32::MAX) by (bit_vector);
    lemma_le32_value(lo);
    lemma_le32_value(hi);
    let s = le64_bytes(x);
    assert(s.subrange(0, 4) =~= le32_bytes(lo));
    assert(s.subrange(4, 8) =~= le32_bytes(hi));
    assert(le32_at(s, 0) == le32_at(le32_bytes(lo), 0));
    assert(le32_at(s, 4) == le32_at(le32_bytes(hi), 0));
    assert(x == (x % 4294967296) + (x / 4294967296) * 4294967296) by (bit_vector);
}

/// Eight bytes re-encode to themselves.
pub proof fn lemma_le64_bytes(s: Seq<u8>, off: int)
    requires
        0 <= off,
        off + 8 <= s.len(),
    ensures
        0 <= le64_at(s, off) <= u64::MAX,
        le64_bytes(le64_at(s, off) as u64) == s.subrange(off, off + 8),
{
    lemma_le32_bytes(s, off);
    lemma_le32_bytes(s, off + 4);
    let lo = le32_at(s, off) as u32;
    let hi = le32_at(s, off + 4) as u32;
    let x: u64 = ((lo as u64) + (hi as u64) * 4294967296) as u64;
    assert((x % 4294967296) as u32 == lo && (x / 4294967296) as u32 == hi) by (bit_vector)
        requires
            x == (lo as u64) + (hi as u64) * 4294967296,
    ;
    assert(le64_bytes(x) =~= s.subrange(off, off + 8));
}

/// Appends the four little-endian bytes of `x`.
pub fn push_le32(out: &mut Vec<u8>, x: u32)
    ensures
        final(out)@ == old(out)@ + le32_bytes(x),
{
    out.push((x % 256) as u8);
    out.push(((x / 256) % 256) as u8);
    out.push(((x / 65536) % 256) as u8);
    out.push((x / 16777216) as u8);
    assert(out@ =~= old(out)@ + le32_bytes(x));
}

/// Appends the eight little-endian bytes of `x`.
pub fn push_le64(out: &mut Vec<u8>, x: u64)
    ensures
        final(out)@ == old(out)@ + le64_bytes(x),
{
    push_le32(out, (x % 4294967296) as u32);
    push_le32(out, (x / 4294967296) as u32);
    assert(out@ =~= old(out)@ + le64_bytes(x));
}

/// Appends every byte of `s`.
pub fn push_all(out: &mut Vec<u8>, s: &[u8])
    ensures
        final(out)@ == old(out)@ + s@,
{
    let n = s.len();
    for i in 0..n
        invariant
            n == s@.len(),
            out@ == old(out)@ + s@.subrange(0, i as int),
    {
        out.push(s[i]);
        assert(out@ =~= old(out)@ + s@.subrange(0, i + 1));
    }
    assert(s@.subrange(0, n as int) =~= s@);
}

/// The little-endian `u32` at `b[off..off + 4]`.
pub fn read_le32(b: &[u8], off: usize) -> (x: u32)
    requires
        off + 4 <= b@.len(),
    ensures
        x == le32_at(b@, off as int),
{
    (b[off] as u32) + (b[off + 1] as u32) * 256 + (b[off + 2] as u32) * 65536 + (b[off + 3] as u32)
        * 16777216
}

/// The little-endian `u64` at `b[off..off + 8]`.
pub fn read_le64(b: &[u8], off: usize) -> (x: u64)
    requires
        off + 8 <= b@.len(),
    ensures
        x == le64_at(b@, off as int),
{
    let n = b.len();
    assert(off + 4 < n);
    let lo = read_le32(b, off) as u64;
    let hi = read_le32(b, off + 4) as u64;
    lo + hi * 4294967296
}

/// The 32 bytes `b[off..off + 32]` as an array.
pub fn array32_at(b: &[u8], off: usize) -> (a: [u8; 32])
    requires
        off + 32 <= b@.len(),
    ensures
        a@ == b@.subrange(off as int, off + 32),
{
    let mut a = [0u8; 32];
    let n = b.len();
    for i in 0..32
        invariant
            n == b@.len(),
            off + 32 <= b@.len(),
            forall|k: int| 0 <= k < i ==> a@[k] == b@[off + k],
    {
        a.set(i, b[off + i]);
    }
    assert(a@ =~= b@.subrange(off as int, off + 32));
    a
}

/// The 64 bytes `b[off..off + 64]` as an array.
pub fn array64_at(b: &[u8], off: usize) -> (a: [u8; 64])
    requires
        off + 64 <= b@.len(),
    ensures
        a@ == b@.subrange(off as int, off + 64),
{
    let mut a = [0u8; 64];
    let n = b.len();
    for i in 0..64
        invariant
            n == b@.len(),
            off + 64 <= b@.len(),
            forall|k: int| 0 <= k < i ==> a@[k] == b@[off + k],
    {
        a.set(i, b[off + i]);
    }
    assert(a@ =~= b@.subrange(off as int, off + 64));
    a
}

} // verus!
