//! Reading fixed amounts from a byte source held in memory.
//!
//! The source is a slice that shrinks from the front as bytes are taken, the
//! way a reader over a buffer does.

use vstd::prelude::*;
use vstd::slice::slice_subrange;
use crate::endian::{spec_le_u16, spec_le_u32};

verus! {

/// Why a read stopped short.
#[derive(Debug, Clone, Copy, PartialEq, Eq, Structural)]
pub enum UntilReadError {
    /// The source ended before the requested bytes had all arrived.
    Close,
}

/// Fills `buf` from the front of `read`.
///
/// With enough bytes in the source, `buf` receives the first `buf.len()` of
/// them, the source moves past them, and the count is returned. With too
/// few, the bytes that were there are moved to the front of `buf`, the source
/// is left empty, and the read fails with `Close`.
pub fn read_until_full(read: &mut &[u8], buf: &mut [u8]) -> (r: Result<usize, UntilReadError>)
    ensures
        final(buf)@.len() == old(buf)@.len(),
        old(read)@.len() >= old(buf)@.len() ==> r == Ok::<usize, UntilReadError>(old(buf).len())
            && final(buf)@ == old(read)@.take(old(buf)@.len() as int)
            && final(read)@ == old(read)@.skip(old(buf)@.len() as int),
        old(read)@.len() < old(buf)@.len() ==> r == Err::<usize, UntilReadError>(UntilReadError::Close)
            && final(read)@.len() == 0
            && final(buf)@ == old(read)@ + old(buf)@.skip(old(read)@.len() as int),
{
    let ghost src = read@;
    let ghost dst = buf@;
    let mut readed: usize = 0;
    while readed < buf.len()
        invariant
            src == old(read)@,
            dst == old(buf)@,
            readed <= buf@.len(),
            buf@.len() == dst.len(),
            readed <= src.len(),
            read@ == src.skip(readed as int),
            buf@ == src.take(readed as int) + dst.skip(readed as int),
        decreases buf@.len() - readed,
    {
        if read.len() == 0 {
            return Err(UntilReadError::Close);
        }
        buf[readed] = read[0];
        *read = slice_subrange(*read, 1, read.len());
        readed += 1;
    }
    Ok(readed)
}

/// Takes four bytes from the front of `read` as a little-endian integer.
pub fn read_u32(read: &mut &[u8]) -> (r: Result<u32, UntilReadError>)
    ensures
        old(read)@.len() >= 4 ==> r == Ok::<u32, UntilReadError>(spec_le_u32(old(read)@) as u32)
            && final(read)@ == old(read)@.skip(4),
        old(read)@.len() < 4 ==> r == Err::<u32, UntilReadError>(UntilReadError::Close)
            && final(read)@.len() == 0,
{
    let mut buf = [0u8; 4];
    match read_until_full(read, &mut buf) {
        Ok(_) => {
            let ans: u32 = ((buf[3] as u32 * 256 + buf[2] as u32) * 256 + buf[1] as u32) * 256
                + buf[0] as u32;
            Ok(ans)
        },
        Err(e) => Err(e),
    }
}

/// Takes two bytes from the front of `read` as a little-endian integer.
pub fn read_u16(read: &mut &[u8]) -> (r: Result<u16, UntilReadError>)
    ensures
        old(read)@.len() >= 2 ==> r == Ok::<u16, UntilReadError>(spec_le_u16(old(read)@) as u16)
            && final(read)@ == old(read)@.skip(2),
        old(read)@.len() < 2 ==> r == Err::<u16, UntilReadError>(UntilReadError::Close)
            && final(read)@.len() == 0,
{
    let mut buf = [0u8; 2];
    match read_until_full(read, &mut buf) {
        Ok(_) => {
            let ans: u16 = buf[1] as u16 * 256 + buf[0] as u16;
            Ok(ans)
        },
        Err(e) => Err(e),
    }
}

/// Takes one byte from the front of `read`.
pub fn read_u8(read: &mut &[u8]) -> (r: Result<u8, UntilReadError>)
    ensures
        old(read)@.len() >= 1 ==> r == Ok::<u8, UntilReadError>(old(read)@[0]) && final(read)@
            == old(read)@.skip(1),
        old(read)@.len() < 1 ==> r == Err::<u8, UntilReadError>(UntilReadError::Close)
            && final(read)@.len() == 0,
{
    let mut buf = [0u8; 1];
    match read_until_full(read, &mut buf) {
        Ok(_) => Ok(buf[0]),
        Err(e) => Err(e),
    }
}

} // verus!
