//! Little-endian integer fields of the characteristic values.

use byteorder::{ByteOrder, LittleEndian};
use vstd::prelude::*;

verus! {

/// The number that the first four bytes of `b` spell, least significant byte first.
pub open spec fn u32_from_le(b: Seq<u8>) -> int
    recommends
        b.len() >= 4,
{
    b[0] as int + b[1] as int * 0x100 + b[2] as int * 0x1_0000 + b[3] as int * 0x100_0000
}

/// The four bytes of `n`, least significant byte first.
pub open spec fn u32_to_le(n: u32) -> Seq<u8> {
    seq![
        (n as int % 0x100) as u8,
        (n as int / 0x100 % 0x100) as u8,
        (n as int / 0x1_0000 % 0x100) as u8,
        (n as int / 0x100_0000) as u8,
    ]
}

/// The two bytes of `n`, least significant byte first.
pub open spec fn u16_to_le(n: u16) -> Seq<u8> {
    seq![(n as int % 0x100) as u8, (n as int / 0x100) as u8]
}

/// Decoding undoes encoding.
pub proof fn lemma_u32_le_round_trip(n: u32)
    ensures
        u32_to_le(n).len() == 4,
        u32_from_le(u32_to_le(n)) == n,
{
}

/// Four zero bytes spell zero, and only zero is spelled by them.
pub proof fn lemma_u32_le_zero(b: Seq<u8>)
    requires
        b.len() >= 4,
    ensures
        u32_from_le(b) == 0 <==> (b[0] == 0 && b[1] == 0 && b[2] == 0 && b[3] == 0),
{
}

/// `byteorder::LittleEndian::read_u32`: decodes the first four bytes of `buf` as a
/// little-endian integer. The outside function panics on fewer than four bytes,
/// which the precondition rules out.
#[verifier::external_body]
pub(crate) fn read_u32_le(buf: &[u8]) -> (n: u32)
    requires
        buf@.len() >= 4,
    ensures
        n as int == u32_from_le(buf@),
{
    LittleEndian::read_u32(buf)
}

/// `byteorder::LittleEndian::write_u32`: the four little-endian bytes of `n`,
/// written into a fresh array of exactly that length.
#[verifier::external_body]
pub(crate) fn u32_le_bytes(n: u32) -> (out: [u8; 4])
    ensures
        out@ == u32_to_le(n),
{
    let mut out = [0u8; 4];
    LittleEndian::write_u32(&mut out, n);
    out
}

/// `byteorder::LittleEndian::write_u16`: the two little-endian bytes of `n`,
/// written into a fresh array of exactly that length.
#[verifier::external_body]
pub(crate) fn u16_le_bytes(n: u16) -> (out: [u8; 2])
    ensures
        out@ == u16_to_le(n),
{
    let mut out = [0u8; 2];
    LittleEndian::write_u16(&mut out, n);
    out
}

/// Appends the four little-endian bytes of `n` to `out`.
pub fn put_u32_le(out: &mut Vec<u8>, n: u32)
    ensures
        final(out)@ == old(out)@ + u32_to_le(n),
{
    let bytes = u32_le_bytes(n);
    out.push(bytes[0]);
    out.push(bytes[1]);
    out.push(bytes[2]);
    out.push(bytes[3]);
    assert(out@ =~= old(out)@ + u32_to_le(n));
}

/// Appends the two little-endian bytes of `n` to `out`.
pub fn put_u16_le(out: &mut Vec<u8>, n: u16)
    ensures
        final(out)@ == old(out)@ + u16_to_le(n),
{
    let bytes = u16_le_bytes(n);
    out.push(bytes[0]);
    out.push(bytes[1]);
    assert(out@ =~= old(out)@ + u16_to_le(n));
}

/// Reads the little-endian integer that starts at `offset`, if `buf` holds all
/// four of its bytes.
pub fn get_u32_le(buf: &[u8], offset: usize) -> (r: Option<u32>)
    ensures
        r == spec_get_u32_le(buf@, offset as int),
{
    if buf.len() >= 4 && offset <= buf.len() - 4 {
        let field = vstd::slice::slice_subrange(buf, offset, offset + 4);
        let n = read_u32_le(field);
        Some(n)
    } else {
        None
    }
}

/// The integer at `offset` in `b`, or `None` where `b` ends before the field does.
pub open spec fn spec_get_u32_le(b: Seq<u8>, offset: int) -> Option<u32> {
    if 0 <= offset && offset + 4 <= b.len() {
        Some(u32_from_le(b.subrange(offset, offset + 4)) as u32)
    } else {
        None
    }
}

} // verus!
