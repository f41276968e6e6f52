//! The header that opens a capture stream.

use crate::read::{read_until_full, UntilReadError};
use vstd::prelude::*;

verus! {

/// Why a capture stream was turned away.
#[derive(Debug, Clone, Copy, PartialEq, Eq, Structural)]
pub enum PcapError {
    /// The stream ended inside the header.
    Io(UntilReadError),
    /// The first four bytes are not the magic number, in either byte order.
    NotPcap,
}

/// The 24 bytes that open a capture stream, field by field as they lie on
/// the wire. Only the magic number is checked.
pub struct PcapHeader {
    tcpdump_magic: [u8; 4],
    major_version: [u8; 2],
    minor_version: [u8; 2],
    time_zone: [u8; 4],
    sigfigs: [u8; 4],
    scaplen: [u8; 4],
    link_type: [u8; 4],
}

/// The number of bytes in a capture stream's header.
pub const PCAP_HEADER_LEN: usize = 24;

impl View for PcapHeader {
    type V = Seq<u8>;

    /// The header's bytes in wire order.
    closed spec fn view(&self) -> Seq<u8> {
        self.tcpdump_magic@ + self.major_version@ + self.minor_version@ + self.time_zone@
            + self.sigfigs@ + self.scaplen@ + self.link_type@
    }
}

impl Default for PcapHeader {
    fn default() -> (h: Self)
        ensures
            h@ == Seq::new(24, |i: int| 0u8),
    {
        let h = PcapHeader {
            tcpdump_magic: [0u8; 4],
            major_version: [0u8; 2],
            minor_version: [0u8; 2],
            time_zone: [0u8; 4],
            sigfigs: [0u8; 4],
            scaplen: [0u8; 4],
            link_type: [0u8; 4],
        };
        h
    }
}

/// The magic number as a stream written on a machine of the other byte
/// order shows it.
pub open spec fn spec_is_bigendian_pcap_magic(buf: Seq<u8>) -> bool {
    buf.len() == 4 && buf[0] == 0xd4 && buf[1] == 0xc3 && buf[2] == 0xb2 && buf[3] == 0xa1
}

/// The magic number in its own byte order.
pub open spec fn spec_is_littleendian_pcap_magic(buf: Seq<u8>) -> bool {
    buf.len() == 4 && buf[0] == 0xa1 && buf[1] == 0xb2 && buf[2] == 0xc3 && buf[3] == 0xd4
}

/// The magic number in either byte order.
pub open spec fn spec_is_pcap_magic(buf: Seq<u8>) -> bool {
    spec_is_bigendian_pcap_magic(buf) || spec_is_littleendian_pcap_magic(buf)
}

/// What reading a header from `s` gives.
pub open spec fn spec_read_pcap_header(s: Seq<u8>) -> Result<Seq<u8>, PcapError> {
    if s.len() < 4 {
        Err(PcapError::Io(UntilReadError::Close))
    } else if !spec_is_pcap_magic(s.take(4)) {
        Err(PcapError::NotPcap)
    } else if s.len() < 24 {
        Err(PcapError::Io(UntilReadError::Close))
    } else {
        Ok(s.take(24))
    }
}

/// Reads the stream header from the front of `read`.
///
/// The magic number is judged as soon as its four bytes are there, before
/// the rest of the header is asked for, so a foreign stream is turned away
/// as `NotPcap` however short it is beyond those four bytes.
pub fn read_pcap_header(read: &mut &[u8]) -> (r: Result<PcapHeader, PcapError>)
    ensures
        match spec_read_pcap_header(old(read)@) {
            Ok(bytes) => r is Ok && r->Ok_0@ == bytes && final(read)@ == old(read)@.skip(24),
            Err(e) => r is Err && r->Err_0 == e,
        },
        r == Err::<PcapHeader, PcapError>(PcapError::NotPcap) ==> final(read)@ == old(read)@.skip(4),
        r == Err::<PcapHeader, PcapError>(PcapError::Io(UntilReadError::Close))
            ==> final(read)@.len() == 0,
{
    let mut ans: PcapHeader = Default::default();
    if let Err(e) = read_until_full(read, &mut ans.tcpdump_magic) {
        return Err(PcapError::Io(e));
    }
    if !is_pcap_magic(&ans.tcpdump_magic) {
        return Err(PcapError::NotPcap);
    }
    if let Err(e) = read_until_full(read, &mut ans.major_version) {
        return Err(PcapError::Io(e));
    }
    if let Err(e) = read_until_full(read, &mut ans.minor_version) {
        return Err(PcapError::Io(e));
    }
    if let Err(e) = read_until_full(read, &mut ans.time_zone) {
        return Err(PcapError::Io(e));
    }
    if let Err(e) = read_until_full(read, &mut ans.sigfigs) {
        return Err(PcapError::Io(e));
    }
    if let Err(e) = read_until_full(read, &mut ans.scaplen) {
        return Err(PcapError::Io(e));
    }
    if let Err(e) = read_until_full(read, &mut ans.link_type) {
        return Err(PcapError::Io(e));
    }
    Ok(ans)
}

/// Whether `buf` is the magic number with its bytes swapped.
pub fn is_bigendian_pcap_magic(buf: &[u8; 4]) -> (b: bool)
    ensures
        b == spec_is_bigendian_pcap_magic(buf@),
{
    buf[0] == 0xd4 && buf[1] == 0xc3 && buf[2] == 0xb2 && buf[3] == 0xa1
}

/// Whether `buf` is the magic number in its own byte order.
pub fn is_littleendian_pcap_magic(buf: &[u8; 4]) -> (b: bool)
    ensures
        b == spec_is_littleendian_pcap_magic(buf@),
{
    buf[0] == 0xa1 && buf[1] == 0xb2 && buf[2] == 0xc3 && buf[3] == 0xd4
}

/// Whether `buf` is the magic number in either byte order.
pub fn is_pcap_magic(buf: &[u8; 4]) -> (b: bool)
    ensures
        b == spec_is_pcap_magic(buf@),
{
    is_bigendian_pcap_magic(buf) || is_littleendian_pcap_magic(buf)
}

} // verus!
