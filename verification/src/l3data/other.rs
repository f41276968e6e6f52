//! The fallback for a frame whose type is not taken apart.

use crate::l3data::l3dataerror::L3dataError;
use crate::l3data::L3data;
use crate::text::{lines_of, push_byte_list, push_dec, spec_byte_list, spec_dec};
use vstd::prelude::*;
use vstd::slice::slice_to_vec;

verus! {

/// The payload of a frame whose type is not taken apart: the bytes as they
/// came and the frame's type field.
#[derive(Debug)]
pub struct OtherL3data {
    pub ethertype: u16,
    pub payload: Vec<u8>,
}

/// Keeps all of `read` verbatim under the frame type `_type`. It never fails.
pub fn read_otherl3data(read: &[u8], _type: u16) -> (r: Result<OtherL3data, L3dataError>)
    ensures
        r is Ok,
        r->Ok_0.payload@ == read@,
        r->Ok_0.ethertype == _type,
{
    let payload = slice_to_vec(read);
    Ok(OtherL3data { ethertype: _type, payload })
}

impl OtherL3data {
    /// The number of bytes that were kept.
    pub open spec fn spec_len(&self) -> int {
        self.payload@.len() as int
    }
}

impl L3data for OtherL3data {
    /// One line: the payload as a list of hexadecimal bytes.
    open spec fn spec_text(&self) -> Seq<Seq<char>> {
        seq!["L3Data "@ + spec_byte_list(self.payload@, true)]
    }

    /// The frame's type field in decimal.
    open spec fn spec_line(&self) -> Seq<char> {
        "type("@ + spec_dec(self.ethertype as nat) + ")"@
    }

    fn text(&self) -> (r: Vec<String>) {
        let mut s = String::new();
        s.append("L3Data ");
        push_byte_list(&mut s, self.payload.as_slice(), true);
        let mut r: Vec<String> = Vec::new();
        r.push(s);
        r
    }

    fn line(&self) -> (r: String) {
        let mut s = String::new();
        s.append("type(");
        push_dec(&mut s, self.ethertype as u32);
        s.append(")");
        s
    }
}

} // verus!
