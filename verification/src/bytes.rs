//! Little-endian codec primitives.
//!
//! These move fixed-width values and raw byte blocks between a byte
//! buffer and native integers, with no interpretation of the values.
//! All multi-byte fields are strictly little-endian, whatever the host
//! byte order; the spec functions here are the single definition of
//! that encoding, which the record codec builds on.

use vstd::prelude::*;

use crate::error::StlError;

verus! {

/// The `u16` denoted by two bytes in little-endian order.
pub open spec fn u16_of_le(b0: u8, b1: u8) -> u16 {
    (b0 + b1 * 0x100) as u16
}

/// The `u32` denoted by four bytes in little-endian order.
pub open spec fn u32_of_le(b0: u8, b1: u8, b2: u8, b3: u8) -> u32 {
    (b0 + b1 * 0x100 + b2 * 0x10000 + b3 * 0x1000000) as u32
}

/// The two bytes of `v` in little-endian order.
pub open spec fn le_bytes_of_u16(v: u16) -> Seq<u8> {
    seq![(v % 0x100) as u8, (v / 0x100) as u8]
}

/// The four bytes of `v` in little-endian order.
pub open spec fn le_bytes_of_u32(v: u32) -> Seq<u8> {
    seq![
        (v % 0x100) as u8,
        ((v / 0x100) % 0x100) as u8,
        ((v / 0x10000) % 0x100) as u8,
        (v / 0x1000000) as u8,
    ]
}

/// Decoding the two little-endian bytes of a `u16` gives the value back.
pub proof fn lemma_u16_le_roundtrip(v: u16)
    ensures
        u16_of_le(le_bytes_of_u16(v)[0], le_bytes_of_u16(v)[1]) == v,
{
    assert(v % 0x100 + (v / 0x100) * 0x100 == v) by (bit_vector);
}

/// Decoding the four little-endian bytes of a `u32` gives the value back.
pub proof fn lemma_u32_le_roundtrip(v: u32)
    ensures
        u32_of_le(
            le_bytes_of_u32(v)[0],
            le_bytes_of_u32(v)[1],
            le_bytes_of_u32(v)[2],
            le_bytes_of_u32(v)[3],
        ) == v,
{
    assert(v % 0x100 + ((v / 0x100) % 0x100) * 0x100 + ((v / 0x10000) % 0x100) * 0x10000 + (v
        / 0x1000000) * 0x1000000 == v) by (bit_vector);
}

/// Encoding the `u16` two little-endian bytes denote gives the bytes
/// back.
pub proof fn lemma_u16_le_reverse(b0: u8, b1: u8)
    ensures
        le_bytes_of_u16(u16_of_le(b0, b1)) == seq![b0, b1],
{
    let v = u16_of_le(b0, b1);
    assert(v == b0 + b1 * 0x100);
    assert(v % 0x100 == b0 && v / 0x100 == b1) by (bit_vector)
        requires
            v == b0 + b1 * 0x100,
    ;
    assert(le_bytes_of_u16(v) =~= seq![b0, b1]);
}

/// Encoding the `u32` four little-endian bytes denote gives the bytes
/// back.
pub proof fn lemma_u32_le_reverse(b0: u8, b1: u8, b2: u8, b3: u8)
    ensures
        le_bytes_of_u32(u32_of_le(b0, b1, b2, b3)) == seq![b0, b1, b2, b3],
{
    let v = u32_of_le(b0, b1, b2, b3);
    assert(v == b0 + b1 * 0x100 + b2 * 0x10000 + b3 * 0x1000000);
    assert(v % 0x100 == b0 && (v / 0x100) % 0x100 == b1 && (v / 0x10000) % 0x100 == b2 && v
        / 0x1000000 == b3) by (bit_vector)
        requires
            v == b0 + b1 * 0x100 + b2 * 0x10000 + b3 * 0x1000000,
    ;
    assert(le_bytes_of_u32(v) =~= seq![b0, b1, b2, b3]);
}

/// Decode the little-endian `u16` at offset `off`, consuming exactly two
/// bytes; fail with `ShortRead` if they are not all available.
pub fn read_u16_le(input: &Vec<u8>, off: usize) -> (r: Result<u16, StlError>)
    ensures
        off + 2 <= input@.len() ==> r == Ok::<u16, StlError>(
            u16_of_le(input@[off as int], input@[off + 1]),
        ),
        off + 2 > input@.len() ==> r == Err::<u16, StlError>(StlError::ShortRead),
{
    if input.len() < 2 || off > input.len() - 2 {
        return Err(StlError::ShortRead);
    }
    let b0: u16 = input[off] as u16;
    let b1: u16 = input[off + 1] as u16;
    Ok(b0 + b1 * 0x100)
}

/// Decode the little-endian `u32` at offset `off`, consuming exactly four
/// bytes; fail with `ShortRead` if they are not all available.
pub fn read_u32_le(input: &Vec<u8>, off: usize) -> (r: Result<u32, StlError>)
    ensures
        off + 4 <= input@.len() ==> r == Ok::<u32, StlError>(
            u32_of_le(input@[off as int], input@[off + 1], input@[off + 2], input@[off + 3]),
        ),
        off + 4 > input@.len() ==> r == Err::<u32, StlError>(StlError::ShortRead),
{
    if input.len() < 4 || off > input.len() - 4 {
        return Err(StlError::ShortRead);
    }
    let b0: u32 = input[off] as u32;
    let b1: u32 = input[off + 1] as u32;
    let b2: u32 = input[off + 2] as u32;
    let b3: u32 = input[off + 3] as u32;
    Ok(b0 + b1 * 0x100 + b2 * 0x10000 + b3 * 0x1000000)
}

/// Copy the `n` bytes at offset `off` into a fresh buffer; fail with
/// `ShortRead` if fewer than `n` bytes are available there.
pub fn read_exact_bytes(input: &Vec<u8>, off: usize, n: usize) -> (r: Result<Vec<u8>, StlError>)
    ensures
        off + n <= input@.len() ==> (r matches Ok(b) && b@ == input@.subrange(
            off as int,
            off + n,
        )),
        off + n > input@.len() ==> r == Err::<Vec<u8>, StlError>(StlError::ShortRead),
{
    if n > input.len() || off > input.len() - n {
        return Err(StlError::ShortRead);
    }
    let mut buf: Vec<u8> = Vec::new();
    let mut i: usize = 0;
    while i < n
        invariant
            i <= n,
            off + n <= input@.len(),
            input@.len() <= usize::MAX,
            buf@ =~= input@.subrange(off as int, off + i),
        decreases n - i,
    {
        buf.push(input[off + i]);
        i += 1;
    }
    Ok(buf)
}

/// Append the two bytes of `v` in little-endian order.
pub fn write_u16_le(out: &mut Vec<u8>, v: u16)
    ensures
        final(out)@ == old(out)@ + le_bytes_of_u16(v),
{
    out.push((v % 0x100) as u8);
    out.push((v / 0x100) as u8);
    proof {
        assert(out@ =~= old(out)@ + le_bytes_of_u16(v));
    }
}

/// Append the four bytes of `v` in little-endian order.
pub fn write_u32_le(out: &mut Vec<u8>, v: u32)
    ensures
        final(out)@ == old(out)@ + le_bytes_of_u32(v),
{
    out.push((v % 0x100) as u8);
    out.push(((v / 0x100) % 0x100) as u8);
    out.push(((v / 0x10000) % 0x100) as u8);
    out.push((v / 0x1000000) as u8);
    proof {
        assert(out@ =~= old(out)@ + le_bytes_of_u32(v));
    }
}

/// Append a raw byte block verbatim.
pub fn write_raw_bytes(out: &mut Vec<u8>, data: &Vec<u8>)
    ensures
        final(out)@ == old(out)@ + data@,
{
    let n = data.len();
    let mut i: usize = 0;
    while i < n
        invariant
            i <= n,
            n == data@.len(),
            out@ =~= old(out)@ + data@.subrange(0, i as int),
        decreases n - i,
    {
        out.push(data[i]);
        i += 1;
    }
    proof {
        assert(data@.subrange(0, n as int) =~= data@);
    }
}

} // verus!
