//! Integers as they lie in a byte sequence, and the calls that read them.

use crate::read::{read_until_full, UntilReadError};
use byteorder::{BigEndian, ByteOrder, LittleEndian};
use vstd::prelude::*;

verus! {

/// The unsigned 16-bit integer whose big-endian form is the first two bytes of `s`.
pub open spec fn spec_be_u16(s: Seq<u8>) -> int {
    s[0] as int * 256 + s[1] as int
}

/// The unsigned 16-bit integer whose little-endian form is the first two bytes of `s`.
pub open spec fn spec_le_u16(s: Seq<u8>) -> int {
    s[0] as int + s[1] as int * 256
}

/// The unsigned 32-bit integer whose little-endian form is the first four bytes of `s`.
pub open spec fn spec_le_u32(s: Seq<u8>) -> int {
    s[0] as int + s[1] as int * 256 + s[2] as int * 65536 + s[3] as int * 16777216
}

/// `byteorder::ByteOrder::read_u16` of `BigEndian`: the first two bytes of
/// `buf`, the first being the more significant. It panics on a shorter slice.
#[verifier::external_body]
pub(crate) fn be_u16(buf: &[u8]) -> (r: u16)
    requires
        buf@.len() >= 2,
    ensures
        r as int == spec_be_u16(buf@),
{
    BigEndian::read_u16(buf)
}

/// `byteorder::ByteOrder::read_u32` of `LittleEndian`: the first four bytes
/// of `buf`, the first being the least significant. It panics on a shorter slice.
#[verifier::external_body]
pub(crate) fn le_u32(buf: &[u8]) -> (r: u32)
    requires
        buf@.len() >= 4,
    ensures
        r as int == spec_le_u32(buf@),
{
    LittleEndian::read_u32(buf)
}

/// Takes two bytes from the front of `read` as a big-endian integer.
pub fn read_u16_be(read: &mut &[u8]) -> (r: Result<u16, UntilReadError>)
    ensures
        old(read)@.len() >= 2 ==> r == Ok::<u16, UntilReadError>(spec_be_u16(old(read)@) as u16)
            && final(read)@ == old(read)@.skip(2),
        old(read)@.len() < 2 ==> r == Err::<u16, UntilReadError>(UntilReadError::Close)
            && final(read)@.len() == 0,
{
    let mut buf = [0u8; 2];
    match read_until_full(read, &mut buf) {
        Ok(_) => Ok(be_u16(buf.as_slice())),
        Err(e) => Err(e),
    }
}

/// Takes four bytes from the front of `read` as a little-endian integer.
pub fn read_u32_le(read: &mut &[u8]) -> (r: Result<u32, UntilReadError>)
    ensures
        old(read)@.len() >= 4 ==> r == Ok::<u32, UntilReadError>(spec_le_u32(old(read)@) as u32)
            && final(read)@ == old(read)@.skip(4),
        old(read)@.len() < 4 ==> r == Err::<u32, UntilReadError>(UntilReadError::Close)
            && final(read)@.len() == 0,
{
    let mut buf = [0u8; 4];
    match read_until_full(read, &mut buf) {
        Ok(_) => Ok(le_u32(buf.as_slice())),
        Err(e) => Err(e),
    }
}

} // verus!
