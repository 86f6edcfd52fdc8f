//! Little-endian integer fields inside byte buffers.
use vstd::prelude::*;

verus! {

/// The little-endian `u16` at `s[i..i + 2]`.
pub open spec fn le16(s: Seq<u8>, i: int) -> int {
    s[i] as int + 256 * s[i + 1] as int
}

/// The little-endian `u32` at `s[i..i + 4]`.
pub open spec fn le32(s: Seq<u8>, i: int) -> int {
    le16(s, i) + 65536 * le16(s, i + 2)
}

/// The little-endian `u64` at `s[i..i + 8]`.
pub open spec fn le64(s: Seq<u8>, i: int) -> int {
    le32(s, i) + 0x1_0000_0000 * le32(s, i + 4)
}

/// The two little-endian bytes of `v`.
pub open spec fn le16_bytes(v: u16) -> Seq<u8> {
    seq![(v % 256) as u8, (v / 256) as u8]
}

/// The four little-endian bytes of `v`.
pub open spec fn le32_bytes(v: u32) -> Seq<u8> {
    seq![
        (v % 256) as u8,
        ((v / 256) % 256) as u8,
        ((v / 65536) % 256) as u8,
        (v / 16777216) as u8,
    ]
}

/// The eight little-endian bytes of `v`.
pub open spec fn le64_bytes(v: u64) -> Seq<u8> {
    le32_bytes((v % 0x1_0000_0000) as u32) + le32_bytes((v / 0x1_0000_0000) as u32)
}

/// `b` written over `s` at offset `at`.
pub open spec fn splice(s: Seq<u8>, at: int, b: Seq<u8>) -> Seq<u8> {
    s.take(at) + b + s.skip(at + b.len())
}

/// Reading back a written `u32` gives the value.
pub proof fn lemma_le32_roundtrip(v: u32)
    ensures
        le32(le32_bytes(v), 0) == v,
{
}

/// Reading back a written `u16` gives the value.
pub proof fn lemma_le16_roundtrip(v: u16)
    ensures
        le16(le16_bytes(v), 0) == v,
{
}

/// Reading back a written `u64` gives the value.
pub proof fn lemma_le64_roundtrip(v: u64)
    ensures
        le64(le64_bytes(v), 0) == v,
{
    let lo = (v % 0x1_0000_0000) as u32;
    let hi = (v / 0x1_0000_0000) as u32;
    lemma_le32_roundtrip(lo);
    lemma_le32_roundtrip(hi);
    let b = le64_bytes(v);
    assert(b.subrange(0, 4) =~= le32_bytes(lo));
    assert(b.subrange(4, 8) =~= le32_bytes(hi));
    assert(le32(b, 0) == le32(le32_bytes(lo), 0));
    assert(le32(b, 4) == le32(le32_bytes(hi), 0));
}

/// The little-endian `u16` at `s[i..i + 2]`.
pub fn read_u16(s: &[u8], i: usize) -> (v: u16)
    requires
        i + 2 <= s@.len(),
    ensures
        v as int == le16(s@, i as int),
{
    (s[i] as u16) + (s[i + 1] as u16) * 256
}

/// The little-endian `u32` at `s[i..i + 4]`.
pub fn read_u32(s: &[u8], i: usize) -> (v: u32)
    requires
        i + 4 <= s@.len(),
    ensures
        v as int == le32(s@, i as int),
{
    (s[i] as u32) + (s[i + 1] as u32) * 256 + (s[i + 2] as u32) * 65536 + (s[i + 3] as u32)
        * 16777216
}

/// The little-endian `u64` at `s[i..i + 8]`.
pub fn read_u64(s: &[u8], i: usize) -> (v: u64)
    requires
        i + 8 <= s@.len(),
    ensures
        v as int == le64(s@, i as int),
{
    let _n = s.len();
    let lo = read_u32(s, i) as u64;
    let hi = read_u32(s, i + 4) as u64;
    lo + hi * 0x1_0000_0000
}

/// Writes the little-endian bytes of `v` at `buf[at..at + 2]`.
pub fn write_u16(buf: &mut Vec<u8>, at: usize, v: u16)
    requires
        at + 2 <= old(buf)@.len(),
    ensures
        final(buf)@ == splice(old(buf)@, at as int, le16_bytes(v)),
{
    let _n = buf.len();
    buf.set(at, (v % 256) as u8);
    buf.set(at + 1, (v / 256) as u8);
    assert(buf@ =~= splice(old(buf)@, at as int, le16_bytes(v)));
}

/// Writes the little-endian bytes of `v` at `buf[at..at + 4]`.
pub fn write_u32(buf: &mut Vec<u8>, at: usize, v: u32)
    requires
        at + 4 <= old(buf)@.len(),
    ensures
        final(buf)@ == splice(old(buf)@, at as int, le32_bytes(v)),
{
    let _n = buf.len();
    buf.set(at, (v % 256) as u8);
    buf.set(at + 1, ((v / 256) % 256) as u8);
    buf.set(at + 2, ((v / 65536) % 256) as u8);
    buf.set(at + 3, (v / 16777216) as u8);
    assert(buf@ =~= splice(old(buf)@, at as int, le32_bytes(v)));
}

/// Writes the little-endian bytes of `v` at `buf[at..at + 8]`.
pub fn write_u64(buf: &mut Vec<u8>, at: usize, v: u64)
    requires
        at + 8 <= old(buf)@.len(),
    ensures
        final(buf)@ == splice(old(buf)@, at as int, le64_bytes(v)),
{
    let ghost b0 = buf@;
    let _n = buf.len();
    write_u32(buf, at, (v % 0x1_0000_0000) as u32);
    write_u32(buf, at + 4, (v / 0x1_0000_0000) as u32);
    assert(buf@ =~= splice(b0, at as int, le64_bytes(v)));
}

/// Writes `bytes` at `buf[at..at + bytes.len()]`.
pub fn write_bytes(buf: &mut Vec<u8>, at: usize, bytes: &[u8])
    requires
        at + bytes@.len() <= old(buf)@.len(),
    ensures
        final(buf)@ == splice(old(buf)@, at as int, bytes@),
{
    let mut i: usize = 0;
    let n = buf.len();
    while i < bytes.len()
        invariant
            0 <= i <= bytes@.len(),
            at + bytes@.len() <= old(buf)@.len(),
            n == old(buf)@.len(),
            buf@ == splice(old(buf)@, at as int, bytes@.take(i as int)),
        decreases bytes@.len() - i,
    {
        buf.set(at + i, bytes[i]);
        i += 1;
        assert(buf@ =~= splice(old(buf)@, at as int, bytes@.take(i as int)));
    }
    assert(bytes@.take(bytes@.len() as int) =~= bytes@);
}

/// A buffer of `n` zero bytes.
pub fn zeros(n: usize) -> (v: Vec<u8>)
    ensures
        v@ == Seq::new(n as nat, |_i: int| 0u8),
{
    let mut v: Vec<u8> = Vec::new();
    let mut i: usize = 0;
    while i < n
        invariant
            0 <= i <= n,
            v@ == Seq::new(i as nat, |_i: int| 0u8),
        decreases n - i,
    {
        v.push(0);
        i += 1;
        assert(v@ =~= Seq::new(i as nat, |_i: int| 0u8));
    }
    v
}

/// Appends `b` to `v`.
pub fn append_bytes(v: &mut Vec<u8>, b: &[u8])
    ensures
        final(v)@ == old(v)@ + b@,
{
    let mut i: usize = 0;
    while i < b.len()
        invariant
            0 <= i <= b@.len(),
            v@ == old(v)@ + b@.take(i as int),
        decreases b@.len() - i,
    {
        v.push(b[i]);
        i += 1;
        assert(v@ =~= old(v)@ + b@.take(i as int));
    }
    assert(b@.take(b@.len() as int) =~= b@);
}

/// Appends the little-endian bytes of `x`.
pub fn append_u32(v: &mut Vec<u8>, x: u32)
    ensures
        final(v)@ == old(v)@ + le32_bytes(x),
{
    v.push((x % 256) as u8);
    v.push(((x / 256) % 256) as u8);
    v.push(((x / 65536) % 256) as u8);
    v.push((x / 16777216) as u8);
    assert(v@ =~= old(v)@ + le32_bytes(x));
}

/// Appends the little-endian bytes of `x`.
pub fn append_u64(v: &mut Vec<u8>, x: u64)
    ensures
        final(v)@ == old(v)@ + le64_bytes(x),
{
    append_u32(v, (x % 0x1_0000_0000) as u32);
    append_u32(v, (x / 0x1_0000_0000) as u32);
    assert(v@ =~= old(v)@ + le64_bytes(x));
}

/// Appends the little-endian bytes of `x`.
pub fn append_u16(v: &mut Vec<u8>, x: u16)
    ensures
        final(v)@ == old(v)@ + le16_bytes(x),
{
    v.push((x % 256) as u8);
    v.push((x / 256) as u8);
    assert(v@ =~= old(v)@ + le16_bytes(x));
}

/// Appends `n` zero bytes.
pub fn append_zeros(v: &mut Vec<u8>, n: usize)
    ensures
        final(v)@ == old(v)@ + Seq::new(n as nat, |_i: int| 0u8),
{
    let z = zeros(n);
    append_bytes(v, &z);
}

} // verus!
