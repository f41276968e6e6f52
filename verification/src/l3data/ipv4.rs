//! The IPv4 layer.

use crate::endian::{read_u16_be, spec_be_u16};
use crate::l3data::ipv4data::{
    is_ipv4data_of, lemma_ipv4data_len, read_ipv4data, spec_ipv4data_error, Ipv4Payload, Ipv4data,
};
use crate::l3data::l3dataerror::L3dataError;
use crate::l3data::L3data;
use crate::read::{read_u8, read_until_full, UntilReadError};
use crate::text::{
    lines_of, push_bool, push_byte_list, push_dec, push_ipv4, spec_bool, spec_byte_list, spec_dec,
    spec_ipv4,
};
use vstd::prelude::*;

verus! {

/// The fields of an IPv4 header. `header_len` counts 32-bit words; the
/// options are kept as they came.
#[derive(Debug)]
pub struct Ipv4Header {
    pub header_len: u8,
    pub service_type: u8,
    pub packet_len: u16,
    pub id: u16,
    pub df: bool,
    pub mf: bool,
    pub fragment_offset: u16,
    pub ttl: u8,
    pub protocol: u8,
    pub header_checksum: u16,
    pub src: [u8; 4],
    pub dst: [u8; 4],
    pub option: Vec<u8>,
}

/// An IPv4 packet: its header and what it carries.
#[derive(Debug)]
pub struct Ipv4 {
    pub header: Ipv4Header,
    pub payload: Ipv4Payload,
}

/// The bytes of the fixed part of an IPv4 header.
pub const IPV4_FIXED_LEN: usize = 20;

/// The header length in bytes that the first byte of `s` declares: four
/// times its low nibble.
pub open spec fn spec_ipv4_header_len(s: Seq<u8>) -> int {
    (s[0] & 0x0f) as int * 4
}

/// The 16-bit word of an IPv4 header that holds the two fragment flags and
/// the fragment offset.
pub open spec fn spec_ipv4_fragment_word(s: Seq<u8>) -> u16 {
    spec_be_u16(s.skip(6)) as u16
}

/// Why the bytes `s` do not open with an IPv4 header, if they do not: the
/// fixed part is cut short, the declared length is under that of the fixed
/// part, or the options are cut short.
pub open spec fn spec_ipv4_header_error(s: Seq<u8>) -> Option<L3dataError> {
    if s.len() < 20 {
        Some(L3dataError::Io(UntilReadError::Close))
    } else if spec_ipv4_header_len(s) < 20 {
        Some(L3dataError::HeaderLength)
    } else if s.len() < spec_ipv4_header_len(s) {
        Some(L3dataError::Io(UntilReadError::Close))
    } else {
        None
    }
}

/// `h` is the header that the bytes `s` open with.
pub open spec fn is_ipv4_header_of(h: Ipv4Header, s: Seq<u8>) -> bool {
    &&& 20 <= spec_ipv4_header_len(s) <= s.len()
    &&& h.header_len == s[0] & 0x0f
    &&& h.service_type == s[1]
    &&& h.packet_len == spec_be_u16(s.skip(2))
    &&& h.id == spec_be_u16(s.skip(4))
    &&& h.df == (spec_ipv4_fragment_word(s) & 0x4000 != 0)
    &&& h.mf == (spec_ipv4_fragment_word(s) & 0x2000 != 0)
    &&& h.fragment_offset == spec_ipv4_fragment_word(s) & 0x1fff
    &&& h.ttl == s[8]
    &&& h.protocol == s[9]
    &&& h.header_checksum == spec_be_u16(s.skip(10))
    &&& h.src@ == s.subrange(12, 16)
    &&& h.dst@ == s.subrange(16, 20)
    &&& h.option@ == s.subrange(20, spec_ipv4_header_len(s))
}

/// Why the bytes `s` do not decode to an IPv4 packet, if they do not: the
/// header's reason, or else the payload's.
pub open spec fn spec_ipv4_error(s: Seq<u8>) -> Option<L3dataError> {
    match spec_ipv4_header_error(s) {
        Some(e) => Some(e),
        None => spec_ipv4data_error(s.skip(spec_ipv4_header_len(s)), s[9]),
    }
}

/// `p` is what the bytes `s` decode to: the header they open with, and the
/// payload that all the bytes after the header decode to.
pub open spec fn is_ipv4_of(p: Ipv4, s: Seq<u8>) -> bool {
    &&& is_ipv4_header_of(p.header, s)
    &&& is_ipv4data_of(p.payload, s.skip(spec_ipv4_header_len(s)), p.header.protocol)
}

/// Takes an IPv4 header from the front of `read`.
///
/// The fixed part is read first and the declared length judged after it, so
/// bytes that end inside the fixed part fail as cut short whatever length
/// they declare. On success the source stands at the first byte after the
/// options.
pub fn read_ipv4_header(read: &mut &[u8]) -> (r: Result<Ipv4Header, L3dataError>)
    ensures
        match spec_ipv4_header_error(old(read)@) {
            Some(e) => r == Err::<Ipv4Header, L3dataError>(e),
            None => r is Ok && is_ipv4_header_of(r->Ok_0, old(read)@) && final(read)@ == old(
                read,
            )@.skip(spec_ipv4_header_len(old(read)@)),
        },
{
    let ghost s = read@;
    let first = match read_u8(read) {
        Ok(x) => x,
        Err(e) => { return Err(L3dataError::Io(e)); },
    };
    let header_len: u8 = first & 0x0f;
    let service_type = match read_u8(read) {
        Ok(x) => x,
        Err(e) => { return Err(L3dataError::Io(e)); },
    };
    let packet_len = match read_u16_be(read) {
        Ok(x) => x,
        Err(e) => { return Err(L3dataError::Io(e)); },
    };
    let id = match read_u16_be(read) {
        Ok(x) => x,
        Err(e) => { return Err(L3dataError::Io(e)); },
    };
    let tmp = match read_u16_be(read) {
        Ok(x) => x,
        Err(e) => { return Err(L3dataError::Io(e)); },
    };
    let df = tmp & 0x4000 != 0;
    let mf = tmp & 0x2000 != 0;
    let fragment_offset = tmp & 0x1fff;
    let ttl = match read_u8(read) {
        Ok(x) => x,
        Err(e) => { return Err(L3dataError::Io(e)); },
    };
    let protocol = match read_u8(read) {
        Ok(x) => x,
        Err(e) => { return Err(L3dataError::Io(e)); },
    };
    let header_checksum = match read_u16_be(read) {
        Ok(x) => x,
        Err(e) => { return Err(L3dataError::Io(e)); },
    };
    let mut src = [0u8; 4];
    if let Err(e) = read_until_full(read, &mut src) {
        return Err(L3dataError::Io(e));
    }
    let mut dst = [0u8; 4];
    if let Err(e) = read_until_full(read, &mut dst) {
        return Err(L3dataError::Io(e));
    }
    proof {
        assert(s.skip(1).skip(1) =~= s.skip(2));
        assert(s.skip(2).skip(2) =~= s.skip(4));
        assert(s.skip(4).skip(2) =~= s.skip(6));
        assert(s.skip(6).skip(2) =~= s.skip(8));
        assert(s.skip(8).skip(1) =~= s.skip(9));
        assert(s.skip(9).skip(1) =~= s.skip(10));
        assert(s.skip(10).skip(2) =~= s.skip(12));
        assert(s.skip(12).skip(4) =~= s.skip(16));
        assert(s.skip(12).take(4) =~= s.subrange(12, 16));
        assert(s.skip(16).take(4) =~= s.subrange(16, 20));
        assert(read@ == s.skip(20));
    }
    let header_bytes: usize = header_len as usize * 4;
    if header_bytes < IPV4_FIXED_LEN {
        return Err(L3dataError::HeaderLength);
    }
    let option_bytes: usize = header_bytes - IPV4_FIXED_LEN;
    let mut option: Vec<u8> = vec![0u8; option_bytes];
    if let Err(e) = read_until_full(read, option.as_mut_slice()) {
        return Err(L3dataError::Io(e));
    }
    proof {
        assert(s.skip(20).take(header_bytes - 20) =~= s.subrange(20, header_bytes as int));
    }
    Ok(
        Ipv4Header {
            header_len,
            service_type,
            packet_len,
            id,
            df,
            mf,
            fragment_offset,
            ttl,
            protocol,
            header_checksum,
            src,
            dst,
            option,
        },
    )
}

/// Decodes an IPv4 packet from all of `read`: the header, then whatever the
/// header's protocol number says the remaining bytes are.
pub fn read_ipv4(read: &[u8]) -> (r: Result<Ipv4, L3dataError>)
    ensures
        match spec_ipv4_error(read@) {
            Some(e) => r == Err::<Ipv4, L3dataError>(e),
            None => r is Ok && is_ipv4_of(r->Ok_0, read@),
        },
{
    let mut read = read;
    let header = match read_ipv4_header(&mut read) {
        Ok(h) => h,
        Err(e) => { return Err(e); },
    };
    let payload = match read_ipv4data(read, header.protocol) {
        Ok(p) => p,
        Err(e) => { return Err(e); },
    };
    Ok(Ipv4 { header, payload })
}

impl Ipv4 {
    /// The number of bytes that the packet was decoded from: the header
    /// with its options, and the payload.
    pub open spec fn spec_len(&self) -> int {
        self.header.header_len as int * 4 + self.payload.spec_len()
    }
}

/// An IPv4 packet accounts for every byte it was decoded from.
pub proof fn lemma_ipv4_len(p: Ipv4, s: Seq<u8>)
    requires
        is_ipv4_of(p, s),
    ensures
        p.spec_len() == s.len(),
{
    lemma_ipv4data_len(p.payload, s.skip(spec_ipv4_header_len(s)), p.header.protocol);
}

impl Ipv4Header {
    /// The header written out field by field.
    pub open spec fn spec_text(&self) -> Seq<char> {
        "Ipv4Header { _header_len: "@ + spec_dec(self.header_len as nat) + ", _service_type: "@
            + spec_dec(self.service_type as nat) + ", _packet_len: "@ + spec_dec(
            self.packet_len as nat,
        ) + ", _id: "@ + spec_dec(self.id as nat) + ", _df: "@ + spec_bool(self.df) + ", _mf: "@
            + spec_bool(self.mf) + ", _fragment_offset: "@ + spec_dec(self.fragment_offset as nat)
            + ", _ttl: "@ + spec_dec(self.ttl as nat) + ", _protocol: "@ + spec_dec(
            self.protocol as nat,
        ) + ", _header_checksum: "@ + spec_dec(self.header_checksum as nat) + ", _src: "@
            + spec_ipv4(self.src@) + ", _dst: "@ + spec_ipv4(self.dst@) + ", _option: "@
            + spec_byte_list(self.option@, false) + " }"@
    }

    /// The header written out field by field.
    pub fn text(&self) -> (r: String)
        ensures
            r@ == self.spec_text(),
    {
        let mut s = String::new();
        s.append("Ipv4Header { _header_len: ");
        push_dec(&mut s, self.header_len as u32);
        s.append(", _service_type: ");
        push_dec(&mut s, self.service_type as u32);
        s.append(", _packet_len: ");
        push_dec(&mut s, self.packet_len as u32);
        s.append(", _id: ");
        push_dec(&mut s, self.id as u32);
        s.append(", _df: ");
        push_bool(&mut s, self.df);
        s.append(", _mf: ");
        push_bool(&mut s, self.mf);
        s.append(", _fragment_offset: ");
        push_dec(&mut s, self.fragment_offset as u32);
        s.append(", _ttl: ");
        push_dec(&mut s, self.ttl as u32);
        s.append(", _protocol: ");
        push_dec(&mut s, self.protocol as u32);
        s.append(", _header_checksum: ");
        push_dec(&mut s, self.header_checksum as u32);
        s.append(", _src: ");
        push_ipv4(&mut s, &self.src);
        s.append(", _dst: ");
        push_ipv4(&mut s, &self.dst);
        s.append(", _option: ");
        push_byte_list(&mut s, self.option.as_slice(), false);
        s.append(" }");
        s
    }
}

impl L3data for Ipv4 {
    /// The header's line, then the payload's lines.
    open spec fn spec_text(&self) -> Seq<Seq<char>> {
        seq![self.header.spec_text()] + self.payload.spec_text()
    }

    /// The payload's summary between the header's two addresses.
    open spec fn spec_line(&self) -> Seq<char> {
        self.payload.spec_line(self.header.src@, self.header.dst@)
    }

    fn text(&self) -> (r: Vec<String>) {
        let mut ans: Vec<String> = Vec::new();
        ans.push(self.header.text());
        let mut rest = self.payload.text();
        ans.append(&mut rest);
        ans
    }

    fn line(&self) -> (r: String) {
        self.payload.line(&self.header.src, &self.header.dst)
    }
}

} // verus!
