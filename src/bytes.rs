//! Little-endian integer reads over byte sequences.
use vstd::prelude::*;

verus! {

/// The unsigned 16-bit little-endian value stored at `b[i..i + 2]`.
pub open spec fn le_u16(b: Seq<u8>, i: int) -> u16 {
    (b[i] as int + 256 * (b[i + 1] as int)) as u16
}

/// The unsigned 32-bit little-endian value stored at `b[i..i + 4]`.
pub open spec fn le_u32(b: Seq<u8>, i: int) -> u32 {
    (le_u16(b, i) as int + 65536 * (le_u16(b, i + 2) as int)) as u32
}

/// The unsigned 64-bit little-endian value stored at `b[i..i + 8]`.
pub open spec fn le_u64(b: Seq<u8>, i: int) -> u64 {
    (le_u32(b, i) as int + 4294967296 * (le_u32(b, i + 4) as int)) as u64
}

/// The unsigned 128-bit little-endian value stored at `b[i..i + 16]`.
pub open spec fn le_u128(b: Seq<u8>, i: int) -> u128 {
    (le_u64(b, i) as int + 18446744073709551616 * (le_u64(b, i + 8) as int)) as u128
}

/// Bit `i` (least significant bit first) of the byte sequence `b`.
pub open spec fn bit_at(b: Seq<u8>, i: int) -> bool {
    (b[i / 8] >> ((i % 8) as u8)) & 1 == 1
}

pub fn read_u16(b: &[u8], i: usize) -> (r: u16)
    requires
        i + 2 <= b@.len(),
    ensures
        r == le_u16(b@, i as int),
{
    b[i] as u16 + 256 * (b[i + 1] as u16)
}

pub fn read_u32(b: &[u8], i: usize) -> (r: u32)
    requires
        i + 4 <= b@.len(),
    ensures
        r == le_u32(b@, i as int),
{
    let _n = b.len();
    read_u16(b, i) as u32 + 65536 * (read_u16(b, i + 2) as u32)
}

pub fn read_u64(b: &[u8], i: usize) -> (r: u64)
    requires
        i + 8 <= b@.len(),
    ensures
        r == le_u64(b@, i as int),
{
    let _n = b.len();
    read_u32(b, i) as u64 + 4294967296 * (read_u32(b, i + 4) as u64)
}

pub fn read_u128(b: &[u8], i: usize) -> (r: u128)
    requires
        i + 16 <= b@.len(),
    ensures
        r == le_u128(b@, i as int),
{
    let _n = b.len();
    read_u64(b, i) as u128 + 18446744073709551616 * (read_u64(b, i + 8) as u128)
}

/// Reads bit `i` of `b`, least significant bit of each byte first.
pub fn read_bit(b: &[u8], i: usize) -> (r: bool)
    requires
        i / 8 < b@.len(),
    ensures
        r == bit_at(b@, i as int),
{
    (b[i / 8] >> ((i % 8) as u8)) & 1 == 1
}

/// Copies `b[start..end]` into a fresh vector.
pub fn copy_range(b: &[u8], start: usize, end: usize) -> (r: Vec<u8>)
    requires
        start <= end <= b@.len(),
    ensures
        r@ == b@.subrange(start as int, end as int),
{
    let mut r: Vec<u8> = Vec::new();
    let mut k: usize = start;
    while k < end
        invariant
            start <= k <= end <= b@.len(),
            r@ == b@.subrange(start as int, k as int),
        decreases end - k,
    {
        r.push(b[k]);
        k = k + 1;
    }
    r
}

/// Copies all of `b` into a fresh vector.
pub fn copy_bytes(b: &[u8]) -> (r: Vec<u8>)
    ensures
        r@ == b@,
{
    let r = copy_range(b, 0, b.len());
    proof {
        assert(b@.subrange(0, b@.len() as int) =~= b@);
    }
    r
}

} // verus!
