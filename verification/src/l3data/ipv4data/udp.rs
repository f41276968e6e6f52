//! The UDP layer.

use crate::endian::{read_u16_be, spec_be_u16};
use crate::l3data::ipv4data::Ipv4data;
use crate::l3data::l3dataerror::L3dataError;
use crate::read::UntilReadError;
use crate::text::{lines_of, push_byte_list, push_dec, push_ipv4, spec_byte_list, spec_dec, spec_ipv4};
use vstd::prelude::*;
use vstd::slice::slice_to_vec;

verus! {

/// The four fields that open a UDP datagram.
#[derive(Debug)]
pub struct UdpHeader {
    pub src_port: u16,
    pub dst_port: u16,
    pub len: u16,
    pub checksum: u16,
}

/// A UDP datagram: its header and the bytes it carries.
#[derive(Debug)]
pub struct Udp {
    pub header: UdpHeader,
    pub data: Vec<u8>,
}

/// `u` is what the bytes `s` decode to: four big-endian fields, then the payload.
pub open spec fn is_udp_of(u: Udp, s: Seq<u8>) -> bool {
    &&& s.len() >= 8
    &&& u.header.src_port == spec_be_u16(s)
    &&& u.header.dst_port == spec_be_u16(s.skip(2))
    &&& u.header.len == spec_be_u16(s.skip(4))
    &&& u.header.checksum == spec_be_u16(s.skip(6))
    &&& u.data@ == s.skip(8)
}

/// Why the bytes `s` do not decode to a UDP datagram, if they do not.
pub open spec fn spec_udp_error(s: Seq<u8>) -> Option<L3dataError> {
    if s.len() < 8 {
        Some(L3dataError::Io(UntilReadError::Close))
    } else {
        None
    }
}

/// Decodes a UDP datagram from all of `read`.
///
/// It fails exactly when fewer than the eight header bytes are there; every
/// byte after the header is payload.
pub fn read_udp(read: &[u8]) -> (r: Result<Udp, L3dataError>)
    ensures
        match spec_udp_error(read@) {
            Some(e) => r == Err::<Udp, L3dataError>(e),
            None => r is Ok && is_udp_of(r->Ok_0, read@),
        },
{
    let mut read = read;
    let ghost s = read@;
    let src_port = match read_u16_be(&mut read) {
        Ok(x) => x,
        Err(e) => { return Err(L3dataError::Io(e)); },
    };
    let dst_port = match read_u16_be(&mut read) {
        Ok(x) => x,
        Err(e) => { return Err(L3dataError::Io(e)); },
    };
    let len = match read_u16_be(&mut read) {
        Ok(x) => x,
        Err(e) => { return Err(L3dataError::Io(e)); },
    };
    let checksum = match read_u16_be(&mut read) {
        Ok(x) => x,
        Err(e) => { return Err(L3dataError::Io(e)); },
    };
    let header = UdpHeader { src_port, dst_port, len, checksum };
    let data = slice_to_vec(read);
    proof {
        assert(s.skip(2).skip(2) =~= s.skip(4));
        assert(s.skip(4).skip(2) =~= s.skip(6));
        assert(s.skip(6).skip(2) =~= s.skip(8));
    }
    Ok(Udp { header, data })
}

impl Udp {
    /// The number of bytes that the datagram was decoded from.
    pub open spec fn spec_len(&self) -> int {
        8 + self.data@.len() as int
    }
}

impl UdpHeader {
    /// The header written out field by field.
    pub open spec fn spec_text(&self) -> Seq<char> {
        "UdpHeader { src_port: "@ + spec_dec(self.src_port as nat) + ", dst_port: "@ + spec_dec(
            self.dst_port as nat,
        ) + ", _len: "@ + spec_dec(self.len as nat) + ", _checksum: "@ + spec_dec(
            self.checksum as nat,
        ) + " }"@
    }

    /// The header written out field by field.
    pub fn text(&self) -> (r: String)
        ensures
            r@ == self.spec_text(),
    {
        let mut s = String::new();
        s.append("UdpHeader { src_port: ");
        push_dec(&mut s, self.src_port as u32);
        s.append(", dst_port: ");
        push_dec(&mut s, self.dst_port as u32);
        s.append(", _len: ");
        push_dec(&mut s, self.len as u32);
        s.append(", _checksum: ");
        push_dec(&mut s, self.checksum as u32);
        s.append(" }");
        s
    }
}

impl Ipv4data for Udp {
    /// Two lines: the header, then the payload as a list of decimal bytes.
    open spec fn spec_text(&self) -> Seq<Seq<char>> {
        seq![self.header.spec_text(), "UdpData "@ + spec_byte_list(self.data@, false)]
    }

    /// Both endpoints as address and port, with an arrow from the sender to
    /// the receiver.
    open spec fn spec_line(&self, src: Seq<u8>, dst: Seq<u8>) -> Seq<char> {
        spec_ipv4(src) + ":"@ + spec_dec(self.header.src_port as nat) + " \u{2192} "@ + spec_ipv4(
            dst,
        ) + ":"@ + spec_dec(self.header.dst_port as nat) + " UDP"@
    }

    fn text(&self) -> (r: Vec<String>) {
        let mut data = String::new();
        data.append("UdpData ");
        push_byte_list(&mut data, self.data.as_slice(), false);
        let mut r: Vec<String> = Vec::new();
        r.push(self.header.text());
        r.push(data);
        r
    }

    fn line(&self, src: &[u8; 4], dst: &[u8; 4]) -> (r: String) {
        let mut s = String::new();
        push_ipv4(&mut s, src);
        s.append(":");
        push_dec(&mut s, self.header.src_port as u32);
        s.append(" \u{2192} ");
        push_ipv4(&mut s, dst);
        s.append(":");
        push_dec(&mut s, self.header.dst_port as u32);
        s.append(" UDP");
        s
    }
}

} // verus!
