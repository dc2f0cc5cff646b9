//! Big-endian integers on byte sequences, and the outside byte buffer type.

use vstd::prelude::*;

verus! {

/// The two bytes of `x`, most significant first.
pub open spec fn u16_be(x: u16) -> Seq<u8> {
    seq![(x >> 8u16) as u8, (x & 0xffu16) as u8]
}

/// The value of two bytes read most significant first.
pub open spec fn be_u16(s: Seq<u8>) -> u16 {
    ((s[0] as u16) << 8u16) | (s[1] as u16)
}

/// The four bytes of `x`, most significant first.
pub open spec fn u32_be(x: u32) -> Seq<u8> {
    seq![
        (x >> 24u32) as u8,
        ((x >> 16u32) & 0xffu32) as u8,
        ((x >> 8u32) & 0xffu32) as u8,
        (x & 0xffu32) as u8,
    ]
}

/// The value of four bytes read most significant first.
pub open spec fn be_u32(s: Seq<u8>) -> u32 {
    ((s[0] as u32) << 24u32) | ((s[1] as u32) << 16u32) | ((s[2] as u32) << 8u32) | (s[3] as u32)
}

/// The eight bytes of `x`, most significant first.
pub open spec fn u64_be(x: u64) -> Seq<u8> {
    seq![
        (x >> 56u64) as u8,
        ((x >> 48u64) & 0xffu64) as u8,
        ((x >> 40u64) & 0xffu64) as u8,
        ((x >> 32u64) & 0xffu64) as u8,
        ((x >> 24u64) & 0xffu64) as u8,
        ((x >> 16u64) & 0xffu64) as u8,
        ((x >> 8u64) & 0xffu64) as u8,
        (x & 0xffu64) as u8,
    ]
}

/// The value of eight bytes read most significant first.
pub open spec fn be_u64(s: Seq<u8>) -> u64 {
    ((s[0] as u64) << 56u64) | ((s[1] as u64) << 48u64) | ((s[2] as u64) << 40u64) | ((
    s[3] as u64) << 32u64) | ((s[4] as u64) << 24u64) | ((s[5] as u64) << 16u64) | ((s[6] as u64)
        << 8u64) | (s[7] as u64)
}

/// Reading back the bytes of a 16-bit value gives the value.
pub proof fn lemma_u16_be_roundtrip(x: u16)
    ensures
        u16_be(x).len() == 2,
        be_u16(u16_be(x)) == x,
{
    let b0 = (x >> 8u16) as u8;
    let b1 = (x & 0xffu16) as u8;
    assert((((x >> 8u16) as u8) as u16) == (x >> 8u16)) by (bit_vector);
    assert((((x & 0xffu16) as u8) as u16) == (x & 0xffu16)) by (bit_vector);
    assert(((x >> 8u16) << 8u16) | (x & 0xffu16) == x) by (bit_vector);
}

/// Reading back the bytes of a 32-bit value gives the value.
pub proof fn lemma_u32_be_roundtrip(x: u32)
    ensures
        u32_be(x).len() == 4,
        be_u32(u32_be(x)) == x,
{
    assert((((x >> 24u32) as u8) as u32) == (x >> 24u32)) by (bit_vector);
    assert(((((x >> 16u32) & 0xffu32) as u8) as u32) == ((x >> 16u32) & 0xffu32)) by (bit_vector);
    assert(((((x >> 8u32) & 0xffu32) as u8) as u32) == ((x >> 8u32) & 0xffu32)) by (bit_vector);
    assert((((x & 0xffu32) as u8) as u32) == (x & 0xffu32)) by (bit_vector);
    assert(((x >> 24u32) << 24u32) | (((x >> 16u32) & 0xffu32) << 16u32) | (((x >> 8u32)
        & 0xffu32) << 8u32) | (x & 0xffu32) == x) by (bit_vector);
}

/// Reading back the bytes of a 64-bit value gives the value.
pub proof fn lemma_u64_be_roundtrip(x: u64)
    ensures
        u64_be(x).len() == 8,
        be_u64(u64_be(x)) == x,
{
    assert((((x >> 56u64) as u8) as u64) == (x >> 56u64)) by (bit_vector);
    assert(((((x >> 48u64) & 0xffu64) as u8) as u64) == ((x >> 48u64) & 0xffu64)) by (bit_vector);
    assert(((((x >> 40u64) & 0xffu64) as u8) as u64) == ((x >> 40u64) & 0xffu64)) by (bit_vector);
    assert(((((x >> 32u64) & 0xffu64) as u8) as u64) == ((x >> 32u64) & 0xffu64)) by (bit_vector);
    assert(((((x >> 24u64) & 0xffu64) as u8) as u64) == ((x >> 24u64) & 0xffu64)) by (bit_vector);
    assert(((((x >> 16u64) & 0xffu64) as u8) as u64) == ((x >> 16u64) & 0xffu64)) by (bit_vector);
    assert(((((x >> 8u64) & 0xffu64) as u8) as u64) == ((x >> 8u64) & 0xffu64)) by (bit_vector);
    assert((((x & 0xffu64) as u8) as u64) == (x & 0xffu64)) by (bit_vector);
    assert(((x >> 56u64) << 56u64) | (((x >> 48u64) & 0xffu64) << 48u64) | (((x >> 40u64)
        & 0xffu64) << 40u64) | (((x >> 32u64) & 0xffu64) << 32u64) | (((x >> 24u64) & 0xffu64)
        << 24u64) | (((x >> 16u64) & 0xffu64) << 16u64) | (((x >> 8u64) & 0xffu64) << 8u64) | (x
        & 0xffu64) == x) by (bit_vector);
}

/// Reads the 16-bit big-endian value at `pos`.
pub fn get_u16_be(buf: &[u8], pos: usize) -> (r: u16)
    requires
        pos + 2 <= buf@.len(),
    ensures
        r == be_u16(buf@.subrange(pos as int, pos + 2)),
{
    let b0 = buf[pos] as u16;
    let b1 = buf[pos + 1] as u16;
    (b0 << 8u16) | b1
}

/// Reads the 32-bit big-endian value at `pos`.
pub fn get_u32_be(buf: &[u8], pos: usize) -> (r: u32)
    requires
        pos + 4 <= buf@.len(),
    ensures
        r == be_u32(buf@.subrange(pos as int, pos + 4)),
{
    let b0 = buf[pos] as u32;
    let b1 = buf[pos + 1] as u32;
    let b2 = buf[pos + 2] as u32;
    let b3 = buf[pos + 3] as u32;
    (b0 << 24u32) | (b1 << 16u32) | (b2 << 8u32) | b3
}

/// Reads the 64-bit big-endian value at `pos`.
pub fn get_u64_be(buf: &[u8], pos: usize) -> (r: u64)
    requires
        pos + 8 <= buf@.len(),
    ensures
        r == be_u64(buf@.subrange(pos as int, pos + 8)),
{
    let b0 = buf[pos] as u64;
    let b1 = buf[pos + 1] as u64;
    let b2 = buf[pos + 2] as u64;
    let b3 = buf[pos + 3] as u64;
    let b4 = buf[pos + 4] as u64;
    let b5 = buf[pos + 5] as u64;
    let b6 = buf[pos + 6] as u64;
    let b7 = buf[pos + 7] as u64;
    (b0 << 56u64) | (b1 << 48u64) | (b2 << 40u64) | (b3 << 32u64) | (b4 << 24u64) | (b5 << 16u64)
        | (b6 << 8u64) | b7
}

/// Appends the two big-endian bytes of `x`.
pub fn put_u16_be(buf: &mut Vec<u8>, x: u16)
    ensures
        final(buf)@ == old(buf)@ + u16_be(x),
{
    buf.push((x >> 8u16) as u8);
    buf.push((x & 0xffu16) as u8);
    assert(final(buf)@ =~= old(buf)@ + u16_be(x));
}

/// Appends the four big-endian bytes of `x`.
pub fn put_u32_be(buf: &mut Vec<u8>, x: u32)
    ensures
        final(buf)@ == old(buf)@ + u32_be(x),
{
    buf.push((x >> 24u32) as u8);
    buf.push(((x >> 16u32) & 0xffu32) as u8);
    buf.push(((x >> 8u32) & 0xffu32) as u8);
    buf.push((x & 0xffu32) as u8);
    assert(final(buf)@ =~= old(buf)@ + u32_be(x));
}

/// Appends the eight big-endian bytes of `x`.
pub fn put_u64_be(buf: &mut Vec<u8>, x: u64)
    ensures
        final(buf)@ == old(buf)@ + u64_be(x),
{
    buf.push((x >> 56u64) as u8);
    buf.push(((x >> 48u64) & 0xffu64) as u8);
    buf.push(((x >> 40u64) & 0xffu64) as u8);
    buf.push(((x >> 32u64) & 0xffu64) as u8);
    buf.push(((x >> 24u64) & 0xffu64) as u8);
    buf.push(((x >> 16u64) & 0xffu64) as u8);
    buf.push(((x >> 8u64) & 0xffu64) as u8);
    buf.push((x & 0xffu64) as u8);
    assert(final(buf)@ =~= old(buf)@ + u64_be(x));
}

/// A byte of the file, or 0 past its end: a read past the end of a file
/// leaves its buffer as it was, zeroed.
pub open spec fn byte_or_zero(s: Seq<u8>, i: int) -> u8 {
    if 0 <= i < s.len() {
        s[i]
    } else {
        0
    }
}

/// `n` bytes of the file from `pos`, zero past its end.
pub open spec fn bytes_or_zero(s: Seq<u8>, pos: int, n: nat) -> Seq<u8> {
    Seq::new(n, |k: int| byte_or_zero(s, pos + k))
}

/// The big-endian 32-bit value at `pos`, zero past the end.
pub open spec fn read_u32(s: Seq<u8>, pos: int) -> u32 {
    be_u32(bytes_or_zero(s, pos, 4))
}

/// Reads the big-endian 32-bit value at `pos`; bytes past the end read as 0.
pub fn read_u32_at(log: &[u8], pos: u64) -> (r: u32)
    ensures
        r == read_u32(log@, pos as int),
{
    let buf = read_or_zero(log, pos, 4);
    assert(buf@.subrange(0, 4) =~= buf@);
    get_u32_be(&buf, 0)
}

/// The big-endian 64-bit value at `pos`, zero past the end.
pub open spec fn read_u64(s: Seq<u8>, pos: int) -> u64 {
    be_u64(bytes_or_zero(s, pos, 8))
}

/// Copies `n` bytes from `pos`; bytes past the end read as 0.
pub fn read_or_zero(log: &[u8], pos: u64, n: usize) -> (r: Vec<u8>)
    ensures
        r@ == bytes_or_zero(log@, pos as int, n as nat),
{
    let mut out: Vec<u8> = Vec::new();
    let mut k: usize = 0;
    while k < n
        invariant
            k <= n,
            out@.len() == k,
            forall|j: int| 0 <= j < k ==> out@[j] == byte_or_zero(log@, pos + j),
        decreases n - k,
    {
        if pos < log.len() as u64 && (log.len() as u64 - pos) > k as u64 {
            out.push(log[pos as usize + k]);
        } else {
            out.push(0);
        }
        k = k + 1;
    }
    assert(out@ =~= bytes_or_zero(log@, pos as int, n as nat));
    out
}

/// Reads the big-endian 64-bit value at `pos`; bytes past the end read as 0.
pub fn read_u64_at(log: &[u8], pos: u64) -> (r: u64)
    ensures
        r == read_u64(log@, pos as int),
{
    let buf = read_or_zero(log, pos, 8);
    assert(buf@.subrange(0, 8) =~= buf@);
    get_u64_be(&buf, 0)
}

} // verus!
