//! The fallback for a protocol above IPv4 that is not taken apart.

use crate::l3data::ipv4data::Ipv4data;
use crate::l3data::l3dataerror::L3dataError;
use crate::text::{lines_of, push_byte_list, push_dec, push_ipv4, spec_byte_list, spec_dec, spec_ipv4};
use vstd::prelude::*;
use vstd::slice::slice_to_vec;

verus! {

/// The payload of an IPv4 packet whose protocol is not taken apart: the
/// bytes as they came and the protocol number.
#[derive(Debug)]
pub struct Other {
    pub payload: Vec<u8>,
    pub protocol: u8,
}

/// Keeps all of `read` verbatim under the protocol number `_type`. It never fails.
pub fn read_other(read: &[u8], _type: u8) -> (r: Result<Other, L3dataError>)
    ensures
        r is Ok,
        r->Ok_0.payload@ == read@,
        r->Ok_0.protocol == _type,
{
    let payload = slice_to_vec(read);
    Ok(Other { payload, protocol: _type })
}

impl Other {
    /// The number of bytes that were kept.
    pub open spec fn spec_len(&self) -> int {
        self.payload@.len() as int
    }
}

impl Ipv4data for Other {
    /// One line: the payload as a list of hexadecimal bytes.
    open spec fn spec_text(&self) -> Seq<Seq<char>> {
        seq!["Ipv4Data "@ + spec_byte_list(self.payload@, true)]
    }

    /// Both addresses and the protocol number.
    open spec fn spec_line(&self, src: Seq<u8>, dst: Seq<u8>) -> Seq<char> {
        spec_ipv4(src) + " -> "@ + spec_ipv4(dst) + " protocol("@ + spec_dec(self.protocol as nat)
            + ")"@
    }

    fn text(&self) -> (r: Vec<String>) {
        let mut s = String::new();
        s.append("Ipv4Data ");
        push_byte_list(&mut s, self.payload.as_slice(), true);
        let mut r: Vec<String> = Vec::new();
        r.push(s);
        r
    }

    fn line(&self, src: &[u8; 4], dst: &[u8; 4]) -> (r: String) {
        let mut s = String::new();
        push_ipv4(&mut s, src);
        s.append(" -> ");
        push_ipv4(&mut s, dst);
        s.append(" protocol(");
        push_dec(&mut s, self.protocol as u32);
        s.append(")");
        s
    }
}

} // verus!
