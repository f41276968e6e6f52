//! What an Ethernet frame carries.

pub mod ipv4;
pub mod ipv4data;
pub mod l3dataerror;
pub mod other;

use crate::text::lines_of;
use ipv4::{is_ipv4_of, lemma_ipv4_len, read_ipv4, spec_ipv4_error, Ipv4};
use l3dataerror::L3dataError;
use other::{read_otherl3data, OtherL3data};
use vstd::prelude::*;

verus! {

/// A node carried by a frame: its detailed rendering and its one-line
/// summary.
pub trait L3data {
    /// The lines of the detailed rendering.
    spec fn spec_text(&self) -> Seq<Seq<char>>;

    /// The one-line summary.
    spec fn spec_line(&self) -> Seq<char>;

    /// The detailed rendering, line by line.
    fn text(&self) -> (r: Vec<String>)
        ensures
            lines_of(r@) == self.spec_text(),
    ;

    /// The one-line summary.
    fn line(&self) -> (r: String)
        ensures
            r@ == self.spec_line(),
    ;
}

/// The frame type of IPv4.
pub const ETHERTYPE_IPV4: u16 = 0x0800;

/// The payload of a frame: an IPv4 packet, or bytes kept verbatim.
#[derive(Debug)]
pub enum L3Payload {
    Ipv4(Ipv4),
    Other(OtherL3data),
}

/// Why the bytes `s` do not decode as the payload of a frame of type
/// `ethertype`, if they do not.
pub open spec fn spec_l3data_error(s: Seq<u8>, ethertype: u16) -> Option<L3dataError> {
    if ethertype == ETHERTYPE_IPV4 {
        spec_ipv4_error(s)
    } else {
        None
    }
}

/// `p` is what the bytes `s` decode to in a frame of type `ethertype`.
pub open spec fn is_l3data_of(p: L3Payload, s: Seq<u8>, ethertype: u16) -> bool {
    if ethertype == ETHERTYPE_IPV4 {
        p is Ipv4 && is_ipv4_of(p->Ipv4_0, s)
    } else {
        p is Other && p->Other_0.payload@ == s && p->Other_0.ethertype == ethertype
    }
}

/// Decodes what a frame of type `_type` carries from all of `read`: an IPv4
/// packet for type `0x0800`, verbatim bytes for any other.
pub fn read_l3data(read: &[u8], _type: u16) -> (r: Result<L3Payload, L3dataError>)
    ensures
        match spec_l3data_error(read@, _type) {
            Some(e) => r == Err::<L3Payload, L3dataError>(e),
            None => r is Ok && is_l3data_of(r->Ok_0, read@, _type),
        },
{
    if _type == ETHERTYPE_IPV4 {
        match read_ipv4(read) {
            Ok(p) => Ok(L3Payload::Ipv4(p)),
            Err(e) => Err(e),
        }
    } else {
        match read_otherl3data(read, _type) {
            Ok(o) => Ok(L3Payload::Other(o)),
            Err(e) => Err(e),
        }
    }
}

impl L3Payload {
    /// The number of bytes that the payload was decoded from.
    pub open spec fn spec_len(&self) -> int {
        match self {
            L3Payload::Ipv4(p) => p.spec_len(),
            L3Payload::Other(o) => o.spec_len(),
        }
    }
}

/// A frame's payload accounts for every byte it was decoded from.
pub proof fn lemma_l3data_len(p: L3Payload, s: Seq<u8>, ethertype: u16)
    requires
        is_l3data_of(p, s, ethertype),
    ensures
        p.spec_len() == s.len(),
{
    if ethertype == ETHERTYPE_IPV4 {
        lemma_ipv4_len(p->Ipv4_0, s);
    }
}

impl L3data for L3Payload {
    open spec fn spec_text(&self) -> Seq<Seq<char>> {
        match self {
            L3Payload::Ipv4(p) => p.spec_text(),
            L3Payload::Other(o) => o.spec_text(),
        }
    }

    open spec fn spec_line(&self) -> Seq<char> {
        match self {
            L3Payload::Ipv4(p) => p.spec_line(),
            L3Payload::Other(o) => o.spec_line(),
        }
    }

    fn text(&self) -> (r: Vec<String>) {
        match self {
            L3Payload::Ipv4(p) => p.text(),
            L3Payload::Other(o) => o.text(),
        }
    }

    fn line(&self) -> (r: String) {
        match self {
            L3Payload::Ipv4(p) => p.line(),
            L3Payload::Other(o) => o.line(),
        }
    }
}

} // verus!
