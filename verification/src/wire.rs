//! Little-endian integer encodings shared by the packet formats.

use vstd::prelude::*;

verus! {

/// The value of two bytes read in little-endian order.
pub open spec fn le16(b0: u8, b1: u8) -> u16 {
    (b0 as u16) | ((b1 as u16) << 8u16)
}

/// The two little-endian bytes of a 16-bit value.
pub open spec fn le16_bytes(v: u16) -> Seq<u8> {
    seq![v as u8, (v >> 8u16) as u8]
}

/// The value of four bytes read in little-endian order.
pub open spec fn le32(b0: u8, b1: u8, b2: u8, b3: u8) -> u32 {
    (b0 as u32) | ((b1 as u32) << 8u32) | ((b2 as u32) << 16u32) | ((b3 as u32) << 24u32)
}

/// The four little-endian bytes of a 32-bit value.
pub open spec fn le32_bytes(v: u32) -> Seq<u8> {
    seq![v as u8, (v >> 8u32) as u8, (v >> 16u32) as u8, (v >> 24u32) as u8]
}

/// The value of eight bytes read in little-endian order.
pub open spec fn le64(s: Seq<u8>) -> u64 {
    (s[0] as u64) | ((s[1] as u64) << 8u64) | ((s[2] as u64) << 16u64) | ((s[3] as u64) << 24u64)
        | ((s[4] as u64) << 32u64) | ((s[5] as u64) << 40u64) | ((s[6] as u64) << 48u64)
        | ((s[7] as u64) << 56u64)
}

/// The eight little-endian bytes of a 64-bit value.
pub open spec fn le64_bytes(v: u64) -> Seq<u8> {
    seq![
        v as u8,
        (v >> 8u64) as u8,
        (v >> 16u64) as u8,
        (v >> 24u64) as u8,
        (v >> 32u64) as u8,
        (v >> 40u64) as u8,
        (v >> 48u64) as u8,
        (v >> 56u64) as u8,
    ]
}

/// The value of six bytes read in little-endian order (a 48-bit address).
pub open spec fn le48(s: Seq<u8>) -> u64 {
    (s[0] as u64) | ((s[1] as u64) << 8u64) | ((s[2] as u64) << 16u64) | ((s[3] as u64) << 24u64)
        | ((s[4] as u64) << 32u64) | ((s[5] as u64) << 40u64)
}

/// The six low bytes of a value, least significant first.
pub open spec fn le48_bytes(v: u64) -> Seq<u8> {
    seq![
        v as u8,
        (v >> 8u64) as u8,
        (v >> 16u64) as u8,
        (v >> 24u64) as u8,
        (v >> 32u64) as u8,
        (v >> 40u64) as u8,
    ]
}

/// Two bytes read little-endian give back the value they were written from,
/// and a value read from two bytes writes back those bytes.
pub proof fn lemma_le16(v: u16, b0: u8, b1: u8)
    ensures
        le16(v as u8, (v >> 8u16) as u8) == v,
        le16(b0, b1) as u8 == b0,
        (le16(b0, b1) >> 8u16) as u8 == b1,
{
    assert(((v as u8) as u16) | ((((v >> 8u16) as u8) as u16) << 8u16) == v) by (bit_vector);
    assert((((b0 as u16) | ((b1 as u16) << 8u16)) as u8) == b0) by (bit_vector);
    assert(((((b0 as u16) | ((b1 as u16) << 8u16)) >> 8u16) as u8) == b1) by (bit_vector);
}

/// Four bytes read little-endian give back the value they were written from,
/// and a value read from four bytes writes back those bytes.
pub proof fn lemma_le32(v: u32, b0: u8, b1: u8, b2: u8, b3: u8)
    ensures
        le32(v as u8, (v >> 8u32) as u8, (v >> 16u32) as u8, (v >> 24u32) as u8) == v,
        le32(b0, b1, b2, b3) as u8 == b0,
        (le32(b0, b1, b2, b3) >> 8u32) as u8 == b1,
        (le32(b0, b1, b2, b3) >> 16u32) as u8 == b2,
        (le32(b0, b1, b2, b3) >> 24u32) as u8 == b3,
{
    assert(((v as u8) as u32) | ((((v >> 8u32) as u8) as u32) << 8u32) | ((((v >> 16u32) as u8) as u32) << 16u32)
        | ((((v >> 24u32) as u8) as u32) << 24u32) == v) by (bit_vector);
    assert({
        let w = (b0 as u32) | ((b1 as u32) << 8u32) | ((b2 as u32) << 16u32) | ((b3 as u32) << 24u32);
        &&& w as u8 == b0
        &&& (w >> 8u32) as u8 == b1
        &&& (w >> 16u32) as u8 == b2
        &&& (w >> 24u32) as u8 == b3
    }) by (bit_vector);
}

/// Six bytes read little-endian give back the low 48 bits of the value they
/// were written from, and a value read from six bytes fits in 48 bits and
/// writes back those bytes.
pub proof fn lemma_le48(v: u64, s: Seq<u8>)
    requires
        s.len() == 6,
    ensures
        le48(le48_bytes(v)) == v & 0xffff_ffff_ffffu64,
        v < 0x1_0000_0000_0000u64 ==> le48(le48_bytes(v)) == v,
        le48(s) < 0x1_0000_0000_0000u64,
        le48_bytes(le48(s)) == s,
{
    let (b0, b1, b2, b3, b4, b5) = (s[0], s[1], s[2], s[3], s[4], s[5]);
    assert(((v as u8) as u64) | ((((v >> 8u64) as u8) as u64) << 8u64) | ((((v >> 16u64) as u8) as u64) << 16u64)
        | ((((v >> 24u64) as u8) as u64) << 24u64) | ((((v >> 32u64) as u8) as u64) << 32u64)
        | ((((v >> 40u64) as u8) as u64) << 40u64) == v & 0xffff_ffff_ffffu64) by (bit_vector);
    assert(v < 0x1_0000_0000_0000u64 ==> v & 0xffff_ffff_ffffu64 == v) by (bit_vector);
    assert({
        let w = (b0 as u64) | ((b1 as u64) << 8u64) | ((b2 as u64) << 16u64) | ((b3 as u64) << 24u64)
            | ((b4 as u64) << 32u64) | ((b5 as u64) << 40u64);
        &&& w < 0x1_0000_0000_0000u64
        &&& w as u8 == b0
        &&& (w >> 8u64) as u8 == b1
        &&& (w >> 16u64) as u8 == b2
        &&& (w >> 24u64) as u8 == b3
        &&& (w >> 32u64) as u8 == b4
        &&& (w >> 40u64) as u8 == b5
    }) by (bit_vector);
    assert(le48_bytes(le48(s)) =~= s);
}

/// Eight bytes read little-endian give back the value they were written
/// from, and a value read from eight bytes writes back those bytes.
pub proof fn lemma_le64(v: u64, s: Seq<u8>)
    requires
        s.len() == 8,
    ensures
        le64(le64_bytes(v)) == v,
        le64_bytes(le64(s)) == s,
{
    let (b0, b1, b2, b3, b4, b5, b6, b7) = (s[0], s[1], s[2], s[3], s[4], s[5], s[6], s[7]);
    assert(((v as u8) as u64) | ((((v >> 8u64) as u8) as u64) << 8u64) | ((((v >> 16u64) as u8) as u64) << 16u64)
        | ((((v >> 24u64) as u8) as u64) << 24u64) | ((((v >> 32u64) as u8) as u64) << 32u64)
        | ((((v >> 40u64) as u8) as u64) << 40u64) | ((((v >> 48u64) as u8) as u64) << 48u64)
        | ((((v >> 56u64) as u8) as u64) << 56u64) == v) by (bit_vector);
    assert({
        let w = (b0 as u64) | ((b1 as u64) << 8u64) | ((b2 as u64) << 16u64) | ((b3 as u64) << 24u64)
            | ((b4 as u64) << 32u64) | ((b5 as u64) << 40u64) | ((b6 as u64) << 48u64) | ((b7 as u64) << 56u64);
        &&& w as u8 == b0
        &&& (w >> 8u64) as u8 == b1
        &&& (w >> 16u64) as u8 == b2
        &&& (w >> 24u64) as u8 == b3
        &&& (w >> 32u64) as u8 == b4
        &&& (w >> 40u64) as u8 == b5
        &&& (w >> 48u64) as u8 == b6
        &&& (w >> 56u64) as u8 == b7
    }) by (bit_vector);
    assert(le64_bytes(le64(s)) =~= s);
}

/// Reads a little-endian 16-bit value at `pos`.
pub fn read_u16(s: &[u8], pos: usize) -> (r: u16)
    requires
        pos + 2 <= s@.len(),
    ensures
        r == le16(s@[pos as int], s@[pos + 1]),
{
    (s[pos] as u16) | ((s[pos + 1] as u16) << 8u16)
}

/// Reads a little-endian 32-bit value at `pos`.
pub fn read_u32(s: &[u8], pos: usize) -> (r: u32)
    requires
        pos + 4 <= s@.len(),
    ensures
        r == le32(s@[pos as int], s@[pos + 1], s@[pos + 2], s@[pos + 3]),
{
    (s[pos] as u32) | ((s[pos + 1] as u32) << 8u32) | ((s[pos + 2] as u32) << 16u32) | ((s[
        pos + 3] as u32) << 24u32)
}

/// Reads a little-endian 48-bit value at `pos`.
pub fn read_u48(s: &[u8], pos: usize) -> (r: u64)
    requires
        pos + 6 <= s@.len(),
    ensures
        r == le48(s@.subrange(pos as int, pos + 6)),
{
    (s[pos] as u64) | ((s[pos + 1] as u64) << 8u64) | ((s[pos + 2] as u64) << 16u64) | ((s[pos
        + 3] as u64) << 24u64) | ((s[pos + 4] as u64) << 32u64) | ((s[pos + 5] as u64) << 40u64)
}

/// Reads a little-endian 64-bit value at `pos`.
pub fn read_u64(s: &[u8], pos: usize) -> (r: u64)
    requires
        pos + 8 <= s@.len(),
    ensures
        r == le64(s@.subrange(pos as int, pos + 8)),
{
    (s[pos] as u64) | ((s[pos + 1] as u64) << 8u64) | ((s[pos + 2] as u64) << 16u64) | ((s[pos
        + 3] as u64) << 24u64) | ((s[pos + 4] as u64) << 32u64) | ((s[pos + 5] as u64) << 40u64)
        | ((s[pos + 6] as u64) << 48u64) | ((s[pos + 7] as u64) << 56u64)
}

/// Appends the two little-endian bytes of `v`.
pub fn push_u16(out: &mut Vec<u8>, v: u16)
    ensures
        final(out)@ == old(out)@ + le16_bytes(v),
{
    out.push(v as u8);
    out.push((v >> 8u16) as u8);
    assert(final(out)@ =~= old(out)@ + le16_bytes(v));
}

/// Appends the four little-endian bytes of `v`.
pub fn push_u32(out: &mut Vec<u8>, v: u32)
    ensures
        final(out)@ == old(out)@ + le32_bytes(v),
{
    out.push(v as u8);
    out.push((v >> 8u32) as u8);
    out.push((v >> 16u32) as u8);
    out.push((v >> 24u32) as u8);
    assert(final(out)@ =~= old(out)@ + le32_bytes(v));
}

/// Appends the six low little-endian bytes of `v`.
pub fn push_u48(out: &mut Vec<u8>, v: u64)
    ensures
        final(out)@ == old(out)@ + le48_bytes(v),
{
    out.push(v as u8);
    out.push((v >> 8u64) as u8);
    out.push((v >> 16u64) as u8);
    out.push((v >> 24u64) as u8);
    out.push((v >> 32u64) as u8);
    out.push((v >> 40u64) as u8);
    assert(final(out)@ =~= old(out)@ + le48_bytes(v));
}

/// Appends the eight little-endian bytes of `v`.
pub fn push_u64(out: &mut Vec<u8>, v: u64)
    ensures
        final(out)@ == old(out)@ + le64_bytes(v),
{
    out.push(v as u8);
    out.push((v >> 8u64) as u8);
    out.push((v >> 16u64) as u8);
    out.push((v >> 24u64) as u8);
    out.push((v >> 32u64) as u8);
    out.push((v >> 40u64) as u8);
    out.push((v >> 48u64) as u8);
    out.push((v >> 56u64) as u8);
    assert(final(out)@ =~= old(out)@ + le64_bytes(v));
}

/// Appends all bytes of `data`.
pub fn push_bytes(out: &mut Vec<u8>, data: &[u8])
    ensures
        final(out)@ == old(out)@ + data@,
{
    let ghost start = out@;
    let mut i: usize = 0;
    while i < data.len()
        invariant
            i <= data@.len(),
            out@ == start + data@.subrange(0, i as int),
        decreases data@.len() - i,
    {
        out.push(data[i]);
        i = i + 1;
        assert(out@ =~= start + data@.subrange(0, i as int));
    }
    assert(data@.subrange(0, data@.len() as int) =~= data@);
}

/// A fresh copy of `v`.
pub fn clone_bytes(v: &Vec<u8>) -> (r: Vec<u8>)
    ensures
        r@ == v@,
{
    let mut r: Vec<u8> = Vec::new();
    let mut i: usize = 0;
    while i < v.len()
        invariant
            i <= v@.len(),
            r@ == v@.take(i as int),
        decreases v@.len() - i,
    {
        r.push(v[i]);
        i = i + 1;
        assert(r@ =~= v@.take(i as int));
    }
    assert(v@.take(v@.len() as int) =~= v@);
    r
}

/// Copies `len` bytes starting at `pos` into a new vector.
pub fn copy_range(s: &[u8], pos: usize, len: usize) -> (r: Vec<u8>)
    requires
        pos + len <= s@.len(),
    ensures
        r@ == s@.subrange(pos as int, pos + len),
{
    let mut r: Vec<u8> = Vec::new();
    let mut i: usize = 0;
    while i < len
        invariant
            i <= len,
            pos + len <= s.len(),
            r@ == s@.subrange(pos as int, pos + i),
        decreases len - i,
    {
        r.push(s[pos + i]);
        i = i + 1;
        assert(r@ =~= s@.subrange(pos as int, pos + i));
    }
    r
}

} // verus!
