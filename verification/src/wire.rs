//! Byte-level primitives of the wire format.
//!
//! Every multi-byte integer on the wire is big-endian.  The spec functions
//! `be2`, `be4` and `be8` give the byte sequence of a value, and `val2`,
//! `val4` and `val8` give the value of a byte sequence; the lemmas state
//! that reading back an encoded value yields the value.  The exec functions
//! read from a slice at an index or append to a `Vec`, and their contracts
//! tie them to the spec functions byte for byte.

use vstd::prelude::*;

verus! {

/// Big-endian byte pair of a 16-bit value.
pub open spec fn be2(v: u16) -> Seq<u8> {
    seq![((v >> 8) & 0xff) as u8, (v & 0xff) as u8]
}

/// Value of two big-endian bytes.
pub open spec fn val2(b0: u8, b1: u8) -> u16 {
    (b0 as u16) << 8 | (b1 as u16)
}

/// Big-endian byte quadruple of a 32-bit value.
pub open spec fn be4(v: u32) -> Seq<u8> {
    seq![
        ((v >> 24) & 0xff) as u8,
        ((v >> 16) & 0xff) as u8,
        ((v >> 8) & 0xff) as u8,
        (v & 0xff) as u8,
    ]
}

/// Value of four big-endian bytes.
pub open spec fn val4(b0: u8, b1: u8, b2: u8, b3: u8) -> u32 {
    (b0 as u32) << 24 | (b1 as u32) << 16 | (b2 as u32) << 8 | (b3 as u32)
}

/// Big-endian byte octuple of a 64-bit value.
pub open spec fn be8(v: u64) -> Seq<u8> {
    seq![
        ((v >> 56) & 0xff) as u8,
        ((v >> 48) & 0xff) as u8,
        ((v >> 40) & 0xff) as u8,
        ((v >> 32) & 0xff) as u8,
        ((v >> 24) & 0xff) as u8,
        ((v >> 16) & 0xff) as u8,
        ((v >> 8) & 0xff) as u8,
        (v & 0xff) as u8,
    ]
}

/// Value of eight big-endian bytes.
pub open spec fn val8(b0: u8, b1: u8, b2: u8, b3: u8, b4: u8, b5: u8, b6: u8, b7: u8) -> u64 {
    (b0 as u64) << 56 | (b1 as u64) << 48 | (b2 as u64) << 40 | (b3 as u64) << 32 | (b4 as u64)
        << 24 | (b5 as u64) << 16 | (b6 as u64) << 8 | (b7 as u64)
}

/// Big-endian bytes of a signed 32-bit value: the bytes of its two's
/// complement bit pattern.
pub open spec fn be4i(v: i32) -> Seq<u8> {
    be4(v as u32)
}

/// Signed value of four big-endian bytes.
pub open spec fn val4i(b0: u8, b1: u8, b2: u8, b3: u8) -> i32 {
    val4(b0, b1, b2, b3) as i32
}

pub proof fn lemma_val2_be2(v: u16)
    ensures
        val2(be2(v)[0], be2(v)[1]) == v,
{
    assert((((v >> 8) & 0xff) as u8 as u16) << 8 | ((v & 0xff) as u8 as u16) == v) by (bit_vector);
}

pub proof fn lemma_val4_be4(v: u32)
    ensures
        val4(be4(v)[0], be4(v)[1], be4(v)[2], be4(v)[3]) == v,
{
    assert((((v >> 24) & 0xff) as u8 as u32) << 24 | (((v >> 16) & 0xff) as u8 as u32) << 16 | (((v
        >> 8) & 0xff) as u8 as u32) << 8 | ((v & 0xff) as u8 as u32) == v) by (bit_vector);
}

pub proof fn lemma_val8_be8(v: u64)
    ensures
        val8(
            be8(v)[0],
            be8(v)[1],
            be8(v)[2],
            be8(v)[3],
            be8(v)[4],
            be8(v)[5],
            be8(v)[6],
            be8(v)[7],
        ) == v,
{
    assert((((v >> 56) & 0xff) as u8 as u64) << 56 | (((v >> 48) & 0xff) as u8 as u64) << 48 | (((v
        >> 40) & 0xff) as u8 as u64) << 40 | (((v >> 32) & 0xff) as u8 as u64) << 32 | (((v >> 24)
        & 0xff) as u8 as u64) << 24 | (((v >> 16) & 0xff) as u8 as u64) << 16 | (((v >> 8) & 0xff)
        as u8 as u64) << 8 | ((v & 0xff) as u8 as u64) == v) by (bit_vector);
}

pub proof fn lemma_val4i_be4i(v: i32)
    ensures
        val4i(be4i(v)[0], be4i(v)[1], be4i(v)[2], be4i(v)[3]) == v,
{
    lemma_val4_be4(v as u32);
    assert(v as u32 as i32 == v) by (bit_vector);
}

/// A signed byte survives the round trip through its wire byte.
pub proof fn lemma_cast_i8(x: i8)
    ensures
        (x as u8) as i8 == x,
{
    assert((x as u8) as i8 == x) by (bit_vector);
}

/// Reads a big-endian 16-bit value at index `i`.
pub fn read_u16(b: &[u8], i: usize) -> (r: u16)
    requires
        i + 2 <= b.len(),
    ensures
        r == val2(b[i as int], b[i + 1]),
{
    (b[i] as u16) << 8 | (b[i + 1] as u16)
}

/// Reads a big-endian 32-bit value at index `i`.
pub fn read_u32(b: &[u8], i: usize) -> (r: u32)
    requires
        i + 4 <= b.len(),
    ensures
        r == val4(b[i as int], b[i + 1], b[i + 2], b[i + 3]),
{
    (b[i] as u32) << 24 | (b[i + 1] as u32) << 16 | (b[i + 2] as u32) << 8 | (b[i + 3] as u32)
}

/// Reads a big-endian 64-bit value at index `i`.
pub fn read_u64(b: &[u8], i: usize) -> (r: u64)
    requires
        i + 8 <= b.len(),
    ensures
        r == val8(b[i as int], b[i + 1], b[i + 2], b[i + 3], b[i + 4], b[i + 5], b[i + 6], b[i + 7]),
{
    (b[i] as u64) << 56 | (b[i + 1] as u64) << 48 | (b[i + 2] as u64) << 40 | (b[i + 3] as u64)
        << 32 | (b[i + 4] as u64) << 24 | (b[i + 5] as u64) << 16 | (b[i + 6] as u64) << 8 | (b[i
        + 7] as u64)
}

/// Reads a big-endian signed 32-bit value at index `i`.
pub fn read_i32(b: &[u8], i: usize) -> (r: i32)
    requires
        i + 4 <= b.len(),
    ensures
        r == val4i(b[i as int], b[i + 1], b[i + 2], b[i + 3]),
{
    read_u32(b, i) as i32
}

/// Reads a signed byte at index `i`.
pub fn read_i8(b: &[u8], i: usize) -> (r: i8)
    requires
        i < b.len(),
    ensures
        r == b[i as int] as i8,
{
    b[i] as i8
}

/// Appends the big-endian bytes of a 16-bit value.
pub fn push_u16(out: &mut Vec<u8>, v: u16)
    ensures
        final(out)@ == old(out)@ + be2(v),
{
    out.push(((v >> 8) & 0xff) as u8);
    out.push((v & 0xff) as u8);
    assert(out@ =~= old(out)@ + be2(v));
}

/// Appends the big-endian bytes of a 32-bit value.
pub fn push_u32(out: &mut Vec<u8>, v: u32)
    ensures
        final(out)@ == old(out)@ + be4(v),
{
    out.push(((v >> 24) & 0xff) as u8);
    out.push(((v >> 16) & 0xff) as u8);
    out.push(((v >> 8) & 0xff) as u8);
    out.push((v & 0xff) as u8);
    assert(out@ =~= old(out)@ + be4(v));
}

/// Appends the big-endian bytes of a 64-bit value.
pub fn push_u64(out: &mut Vec<u8>, v: u64)
    ensures
        final(out)@ == old(out)@ + be8(v),
{
    out.push(((v >> 56) & 0xff) as u8);
    out.push(((v >> 48) & 0xff) as u8);
    out.push(((v >> 40) & 0xff) as u8);
    out.push(((v >> 32) & 0xff) as u8);
    out.push(((v >> 24) & 0xff) as u8);
    out.push(((v >> 16) & 0xff) as u8);
    out.push(((v >> 8) & 0xff) as u8);
    out.push((v & 0xff) as u8);
    assert(out@ =~= old(out)@ + be8(v));
}

/// Appends the big-endian bytes of a signed 32-bit value.
pub fn push_i32(out: &mut Vec<u8>, v: i32)
    ensures
        final(out)@ == old(out)@ + be4i(v),
{
    push_u32(out, v as u32);
}

} // verus!
