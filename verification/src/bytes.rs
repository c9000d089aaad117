//! Little-endian views of byte buffers: reading and writing the fixed-width
//! fields that the binary formats of this kernel (program images, partition
//! tables, filesystem headers, the bootstrap blob) are made of.

use vstd::prelude::*;

verus! {

/// 256 to the `k`-th power: the weight of byte `k` of a little-endian field.
pub open spec fn pow256(k: int) -> int
    decreases k,
{
    if k <= 0 {
        1
    } else {
        256 * pow256(k - 1)
    }
}

/// Byte `k` of the little-endian encoding of `v`.
pub open spec fn le_byte(v: u64, k: int) -> u8 {
    (((v as int) / pow256(k)) % 256) as u8
}

/// The value of the 2-byte little-endian field of `s` at `off`.
pub open spec fn le16(s: Seq<u8>, off: int) -> int {
    s[off] + 0x100 * s[off + 1]
}

/// The value of the 4-byte little-endian field of `s` at `off`.
pub open spec fn le32(s: Seq<u8>, off: int) -> int {
    le16(s, off) + 0x10000 * le16(s, off + 2)
}

/// The value of the 8-byte little-endian field of `s` at `off`.
pub open spec fn le64(s: Seq<u8>, off: int) -> int {
    le32(s, off) + 0x1_0000_0000 * le32(s, off + 4)
}

/// The 8 bytes of the little-endian encoding of `v`.
pub open spec fn le64_bytes(v: u64) -> Seq<u8> {
    Seq::new(8, |k: int| le_byte(v, k))
}

/// Reads the 2-byte little-endian field of `b` at `off`.
pub fn read_u16_le(b: &[u8], off: usize) -> (r: u16)
    requires
        off + 2 <= b@.len(),
    ensures
        r as int == le16(b@, off as int),
{
    b[off] as u16 + b[off + 1] as u16 * 0x100
}

/// Reads the 4-byte little-endian field of `b` at `off`.
pub fn read_u32_le(b: &[u8], off: usize) -> (r: u32)
    requires
        off + 4 <= b@.len(),
    ensures
        r as int == le32(b@, off as int),
{
    b[off] as u32 + b[off + 1] as u32 * 0x100 + b[off + 2] as u32 * 0x10000 + b[off + 3] as u32
        * 0x1000000
}

/// Reads the 8-byte little-endian field of `b` at `off`.
pub fn read_u64_le(b: &[u8], off: usize) -> (r: u64)
    requires
        off + 8 <= b@.len(),
    ensures
        r as int == le64(b@, off as int),
{
    b[off] as u64 + b[off + 1] as u64 * 0x100 + b[off + 2] as u64 * 0x10000 + b[off + 3] as u64
        * 0x1000000 + b[off + 4] as u64 * 0x1_0000_0000 + b[off + 5] as u64 * 0x100_0000_0000 + b[off
        + 6] as u64 * 0x1_0000_0000_0000 + b[off + 7] as u64 * 0x100_0000_0000_0000
}

/// The little-endian bytes of a value reassemble to the value.
pub proof fn lemma_le64_bytes_value(v: u64)
    ensures
        le64(le64_bytes(v), 0) == v,
        forall|k: int| 0 <= k < 8 ==> le64_bytes(v)[k] == #[trigger] le_byte(v, k),
{
    lemma_u64_byte_decomposition(v);
}

/// A 64-bit value is the weighted sum of its eight little-endian bytes.
proof fn lemma_u64_byte_decomposition(v: u64)
    ensures
        v == le_byte(v, 0) + 0x100 * le_byte(v, 1) + 0x10000 * le_byte(v, 2) + 0x1000000 * le_byte(
            v,
            3,
        ) + 0x1_0000_0000 * le_byte(v, 4) + 0x100_0000_0000 * le_byte(v, 5) + 0x1_0000_0000_0000
            * le_byte(v, 6) + 0x100_0000_0000_0000 * le_byte(v, 7),
{
    assert(pow256(0) == 1);
    assert(pow256(1) == 0x100);
    assert(pow256(2) == 0x10000);
    assert(pow256(3) == 0x1000000);
    assert(pow256(4) == 0x1_0000_0000);
    assert(pow256(5) == 0x100_0000_0000);
    assert(pow256(6) == 0x1_0000_0000_0000);
    assert(pow256(7) == 0x100_0000_0000_0000);
    assert(v == (v % 256) + 0x100 * ((v / 0x100) % 256) + 0x10000 * ((v / 0x10000) % 256)
        + 0x1000000 * ((v / 0x1000000) % 256) + 0x1_0000_0000 * ((v / 0x1_0000_0000) % 256)
        + 0x100_0000_0000 * ((v / 0x100_0000_0000) % 256) + 0x1_0000_0000_0000 * ((v
        / 0x1_0000_0000_0000) % 256) + 0x100_0000_0000_0000 * ((v / 0x100_0000_0000_0000)
        % 256)) by (bit_vector);
}

/// A 32-bit value is the weighted sum of its four little-endian bytes.
proof fn lemma_u32_byte_decomposition(v: u32)
    ensures
        v == le_byte(v as u64, 0) + 0x100 * le_byte(v as u64, 1) + 0x10000 * le_byte(v as u64, 2)
            + 0x1000000 * le_byte(v as u64, 3),
{
    assert(pow256(0) == 1);
    assert(pow256(1) == 0x100);
    assert(pow256(2) == 0x10000);
    assert(pow256(3) == 0x1000000);
    let w = v as u64;
    assert(w == (w % 256) + 0x100 * ((w / 0x100) % 256) + 0x10000 * ((w / 0x10000) % 256)
        + 0x1000000 * ((w / 0x1000000) % 256) && (w / 0x1000000) % 256 == w / 0x1000000
        && w < 0x1_0000_0000) by (bit_vector)
        requires
            w <= 0xffff_ffff,
    ;
}

/// Writes `v` into `b` at `off` as 8 little-endian bytes; nothing else of
/// the buffer changes.
pub fn write_u64_le(b: &mut Vec<u8>, off: usize, v: u64)
    requires
        off + 8 <= old(b).len(),
    ensures
        final(b).len() == old(b).len(),
        forall|k: int| 0 <= k < 8 ==> final(b)[off + k] == #[trigger] le_byte(v, k),
        le64(final(b)@, off as int) == v,
        forall|i: int| 0 <= i < old(b).len() && !(off <= i < off + 8) ==> final(b)[i] == old(b)[i],
{
    proof {
        lemma_u64_byte_decomposition(v);
        assert(pow256(0) == 1);
        assert(pow256(1) == 0x100);
        assert(pow256(2) == 0x10000);
        assert(pow256(3) == 0x1000000);
        assert(pow256(4) == 0x1_0000_0000);
        assert(pow256(5) == 0x100_0000_0000);
        assert(pow256(6) == 0x1_0000_0000_0000);
        assert(pow256(7) == 0x100_0000_0000_0000);
    }
    b[off] = (v % 0x100) as u8;
    b[off + 1] = ((v / 0x100) % 0x100) as u8;
    b[off + 2] = ((v / 0x10000) % 0x100) as u8;
    b[off + 3] = ((v / 0x1000000) % 0x100) as u8;
    b[off + 4] = ((v / 0x1_0000_0000) % 0x100) as u8;
    b[off + 5] = ((v / 0x100_0000_0000) % 0x100) as u8;
    b[off + 6] = ((v / 0x1_0000_0000_0000) % 0x100) as u8;
    b[off + 7] = ((v / 0x100_0000_0000_0000) % 0x100) as u8;
}

/// Writes `v` into `b` at `off` as 4 little-endian bytes; nothing else of
/// the buffer changes.
pub fn write_u32_le(b: &mut Vec<u8>, off: usize, v: u32)
    requires
        off + 4 <= old(b).len(),
    ensures
        final(b).len() == old(b).len(),
        forall|k: int| 0 <= k < 4 ==> final(b)[off + k] == #[trigger] le_byte(v as u64, k),
        le32(final(b)@, off as int) == v,
        forall|i: int| 0 <= i < old(b).len() && !(off <= i < off + 4) ==> final(b)[i] == old(b)[i],
{
    proof {
        lemma_u32_byte_decomposition(v);
        assert(pow256(0) == 1);
        assert(pow256(1) == 0x100);
        assert(pow256(2) == 0x10000);
        assert(pow256(3) == 0x1000000);
    }
    b[off] = (v % 0x100) as u8;
    b[off + 1] = ((v / 0x100) % 0x100) as u8;
    b[off + 2] = ((v / 0x10000) % 0x100) as u8;
    b[off + 3] = (v / 0x1000000) as u8;
}

} // verus!
