//! What an IPv4 packet carries.

pub mod other;
pub mod udp;

use crate::l3data::l3dataerror::L3dataError;
use crate::text::lines_of;
use other::{read_other, Other};
use udp::{is_udp_of, read_udp, spec_udp_error, Udp};
use vstd::prelude::*;

verus! {

/// A node carried by an IPv4 packet: its detailed rendering, and its
/// one-line summary given the packet's two addresses.
pub trait Ipv4data {
    /// The lines of the detailed rendering.
    spec fn spec_text(&self) -> Seq<Seq<char>>;

    /// The one-line summary between the addresses `src` and `dst`.
    spec fn spec_line(&self, src: Seq<u8>, dst: Seq<u8>) -> Seq<char>;

    /// The detailed rendering, line by line.
    fn text(&self) -> (r: Vec<String>)
        ensures
            lines_of(r@) == self.spec_text(),
    ;

    /// The one-line summary between the addresses `src` and `dst`.
    fn line(&self, src: &[u8; 4], dst: &[u8; 4]) -> (r: String)
        ensures
            r@ == self.spec_line(src@, dst@),
    ;
}

/// The protocol number of UDP.
pub const PROTOCOL_UDP: u8 = 17;

/// The payload of an IPv4 packet: a UDP datagram, or bytes kept verbatim.
#[derive(Debug)]
pub enum Ipv4Payload {
    Udp(Udp),
    Other(Other),
}

/// Why the bytes `s` do not decode as the payload of protocol number
/// `protocol`, if they do not.
pub open spec fn spec_ipv4data_error(s: Seq<u8>, protocol: u8) -> Option<L3dataError> {
    if protocol == PROTOCOL_UDP {
        spec_udp_error(s)
    } else {
        None
    }
}

/// `p` is what the bytes `s` decode to under protocol number `protocol`.
pub open spec fn is_ipv4data_of(p: Ipv4Payload, s: Seq<u8>, protocol: u8) -> bool {
    if protocol == PROTOCOL_UDP {
        p is Udp && is_udp_of(p->Udp_0, s)
    } else {
        p is Other && p->Other_0.payload@ == s && p->Other_0.protocol == protocol
    }
}

/// Decodes what an IPv4 packet of protocol number `protocol` carries from
/// all of `read`: a UDP datagram for protocol 17, verbatim bytes for any
/// other. Only a UDP datagram cut short fails.
pub fn read_ipv4data(read: &[u8], protocol: u8) -> (r: Result<Ipv4Payload, L3dataError>)
    ensures
        match spec_ipv4data_error(read@, protocol) {
            Some(e) => r == Err::<Ipv4Payload, L3dataError>(e),
            None => r is Ok && is_ipv4data_of(r->Ok_0, read@, protocol),
        },
{
    if protocol == PROTOCOL_UDP {
        match read_udp(read) {
            Ok(u) => Ok(Ipv4Payload::Udp(u)),
            Err(e) => Err(e),
        }
    } else {
        match read_other(read, protocol) {
            Ok(o) => Ok(Ipv4Payload::Other(o)),
            Err(e) => Err(e),
        }
    }
}

impl Ipv4Payload {
    /// The number of bytes that the payload was decoded from.
    pub open spec fn spec_len(&self) -> int {
        match self {
            Ipv4Payload::Udp(u) => u.spec_len(),
            Ipv4Payload::Other(o) => o.spec_len(),
        }
    }
}

/// A payload accounts for every byte it was decoded from.
pub proof fn lemma_ipv4data_len(p: Ipv4Payload, s: Seq<u8>, protocol: u8)
    requires
        is_ipv4data_of(p, s, protocol),
    ensures
        p.spec_len() == s.len(),
{
}

impl Ipv4data for Ipv4Payload {
    open spec fn spec_text(&self) -> Seq<Seq<char>> {
        match self {
            Ipv4Payload::Udp(u) => u.spec_text(),
            Ipv4Payload::Other(o) => o.spec_text(),
        }
    }

    open spec fn spec_line(&self, src: Seq<u8>, dst: Seq<u8>) -> Seq<char> {
        match self {
            Ipv4Payload::Udp(u) => u.spec_line(src, dst),
            Ipv4Payload::Other(o) => o.spec_line(src, dst),
        }
    }

    fn text(&self) -> (r: Vec<String>) {
        match self {
            Ipv4Payload::Udp(u) => u.text(),
            Ipv4Payload::Other(o) => o.text(),
        }
    }

    fn line(&self, src: &[u8; 4], dst: &[u8; 4]) -> (r: String) {
        match self {
            Ipv4Payload::Udp(u) => u.line(src, dst),
            Ipv4Payload::Other(o) => o.line(src, dst),
        }
    }
}

} // verus!
