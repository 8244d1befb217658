//! Little-endian integers, read and written by `byteorder`.

use byteorder::{ByteOrder, LittleEndian};
use vstd::bytes::{
    spec_u32_from_le_bytes, spec_u32_to_le_bytes, spec_u64_from_le_bytes, spec_u64_to_le_bytes,
};
use vstd::prelude::*;

verus! {

/// Trusted: `byteorder::LittleEndian::read_u32` returns the little-endian
/// value of the first four bytes of `buf`. It panics on a shorter slice,
/// which the precondition leaves out.
#[verifier::external_body]
pub(crate) fn read_u32_le(buf: &[u8]) -> (n: u32)
    requires
        buf@.len() >= 4,
    ensures
        n == spec_u32_from_le_bytes(buf@.subrange(0, 4)),
{
    LittleEndian::read_u32(buf)
}

/// Trusted: `byteorder::LittleEndian::read_u64` returns the little-endian
/// value of the first eight bytes of `buf`. It panics on a shorter slice,
/// which the precondition leaves out.
#[verifier::external_body]
pub(crate) fn read_u64_le(buf: &[u8]) -> (n: u64)
    requires
        buf@.len() >= 8,
    ensures
        n == spec_u64_from_le_bytes(buf@.subrange(0, 8)),
{
    LittleEndian::read_u64(buf)
}

/// Trusted: `byteorder::LittleEndian::write_u32` fills a four-byte buffer
/// with the little-endian bytes of `n`; they are appended to `out`.
#[verifier::external_body]
pub(crate) fn push_u32_le(out: &mut Vec<u8>, n: u32)
    ensures
        final(out)@ == old(out)@ + spec_u32_to_le_bytes(n),
{
    let mut buf = [0u8; 4];
    LittleEndian::write_u32(&mut buf, n);
    out.extend_from_slice(&buf);
}

/// Trusted: `byteorder::LittleEndian::write_u64` fills an eight-byte buffer
/// with the little-endian bytes of `n`; they are appended to `out`.
#[verifier::external_body]
pub(crate) fn push_u64_le(out: &mut Vec<u8>, n: u64)
    ensures
        final(out)@ == old(out)@ + spec_u64_to_le_bytes(n),
{
    let mut buf = [0u8; 8];
    LittleEndian::write_u64(&mut buf, n);
    out.extend_from_slice(&buf);
}

} // verus!
