use vstd::prelude::*;

verus! {

/// The unsigned value of two little-endian bytes at index `i`.
pub open spec fn le16(b: Seq<u8>, i: int) -> int {
    b[i] + 0x100 * b[i + 1]
}

/// The unsigned value of four little-endian bytes at index `i`.
pub open spec fn le32(b: Seq<u8>, i: int) -> int {
    b[i] + 0x100 * b[i + 1] + 0x1_0000 * b[i + 2] + 0x100_0000 * b[i + 3]
}

/// The unsigned value of eight little-endian bytes at index `i`.
pub open spec fn le64(b: Seq<u8>, i: int) -> int {
    le32(b, i) + 0x1_0000_0000 * le32(b, i + 4)
}

pub proof fn lemma_le16_bounds(b: Seq<u8>, i: int)
    requires
        0 <= i,
        i + 2 <= b.len(),
    ensures
        0 <= le16(b, i) < 0x1_0000,
{
}

pub proof fn lemma_le32_bounds(b: Seq<u8>, i: int)
    requires
        0 <= i,
        i + 4 <= b.len(),
    ensures
        0 <= le32(b, i) < 0x1_0000_0000,
{
}

pub proof fn lemma_le64_bounds(b: Seq<u8>, i: int)
    requires
        0 <= i,
        i + 8 <= b.len(),
    ensures
        0 <= le64(b, i) < 0x1_0000_0000_0000_0000,
{
    lemma_le32_bounds(b, i);
    lemma_le32_bounds(b, i + 4);
}

/// Decode two little-endian bytes.
pub fn read_u16_le(b: &[u8], i: usize) -> (r: u16)
    requires
        i + 2 <= b@.len(),
    ensures
        r == le16(b@, i as int),
{
    (b[i] as u16) + 0x100 * (b[i + 1] as u16)
}

/// Decode four little-endian bytes.
pub fn read_u32_le(b: &[u8], i: usize) -> (r: u32)
    requires
        i + 4 <= b@.len(),
    ensures
        r == le32(b@, i as int),
{
    (b[i] as u32) + 0x100 * (b[i + 1] as u32) + 0x1_0000 * (b[i + 2] as u32) + 0x100_0000 * (b[i
        + 3] as u32)
}

/// Decode eight little-endian bytes.
pub fn read_u64_le(b: &[u8], i: usize) -> (r: u64)
    requires
        i + 8 <= b@.len(),
    ensures
        r == le64(b@, i as int),
{
    let n: usize = b.len();
    let lo = read_u32_le(b, i);
    let hi = read_u32_le(b, i + 4);
    proof {
        lemma_le32_bounds(b@, i as int);
        lemma_le32_bounds(b@, i + 4);
    }
    (lo as u64) + 0x1_0000_0000 * (hi as u64)
}

} // verus!
