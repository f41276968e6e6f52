//! One captured record: its record header, its frame header and the
//! layers the frame carries.

use crate::clock::{local_time, spec_valid_subsec, LocalTime};
use crate::endian::{read_u16_be, read_u32_le, spec_be_u16, spec_le_u32};
use crate::filtable::Filtable;
use crate::l3data::l3dataerror::L3dataError;
use crate::l3data::{
    is_l3data_of, lemma_l3data_len, read_l3data, spec_l3data_error, L3Payload, L3data,
};
use crate::read::{read_until_full, UntilReadError};
use crate::text::{
    contains, is_substring, lines_of, push_dec, push_hex2, push_padded_dec, spec_dec, spec_hex2,
    spec_pad_left,
};
use vstd::prelude::*;
use vstd::slice::slice_subrange;

verus! {

/// Why a record could not be decoded.
#[derive(Debug, Clone, Copy, PartialEq, Eq, Structural)]
pub enum PacketError {
    /// The bytes ended inside the record header, the record or the frame header.
    Io(UntilReadError),
    /// The record's timestamp is no moment in time.
    Timestamp,
    /// A layer inside the frame could not be decoded.
    Data(L3dataError),
}

/// When a record was captured: the two fields of the record header, and
/// that moment as the local time zone showed it when the record was decoded.
#[derive(Debug)]
pub struct Timestamp {
    pub secs: u32,
    pub subsec: u32,
    pub local: LocalTime,
}

/// The header of a record: when it was captured, how many bytes were
/// captured, and how many the packet had.
#[derive(Debug)]
pub struct PacketHeader {
    pub timestamp: Timestamp,
    pub caplen: u32,
    pub len: u32,
}

/// A hardware address.
#[derive(Debug, Clone, Copy)]
pub struct Macaddr(pub [u8; 6]);

/// The header of an Ethernet frame.
#[derive(Debug, Clone, Copy)]
pub struct FrameHeader {
    pub src: Macaddr,
    pub dst: Macaddr,
    pub type_len: u16,
}

/// A frame: its header and what it carries.
#[derive(Debug)]
pub struct PacketBody {
    pub header: FrameHeader,
    pub data: L3Payload,
}

/// A decoded record.
#[derive(Debug)]
pub struct Packet {
    pub header: PacketHeader,
    pub body: PacketBody,
}

/// The bytes of a record header.
pub const RECORD_HEADER_LEN: usize = 16;

/// The bytes of a frame header.
pub const FRAME_HEADER_LEN: usize = 14;

/// The width that a summary line gives to the packet's length.
pub const LEN_WIDTH: usize = 5;

impl Timestamp {
    /// The timestamp of a record from its two fields and from what the
    /// conversion to local time gave for them: a record whose fields are no
    /// moment in time is turned away.
    pub fn from_local(secs: u32, subsec: u32, local: Option<LocalTime>) -> (r: Result<
        Timestamp,
        PacketError,
    >)
        ensures
            match local {
                Some(t) => r == Ok::<Timestamp, PacketError>(
                    Timestamp { secs, subsec, local: t },
                ),
                None => r == Err::<Timestamp, PacketError>(PacketError::Timestamp),
            },
    {
        match local {
            Some(t) => Ok(Timestamp { secs, subsec, local: t }),
            None => Err(PacketError::Timestamp),
        }
    }
}

/// Why the bytes `s` do not decode to a record header, if they do not.
///
/// The timestamp is judged as soon as its two fields are there, before the
/// two lengths are asked for.
pub open spec fn spec_packet_header_error(s: Seq<u8>) -> Option<PacketError> {
    if s.len() < 8 {
        Some(PacketError::Io(UntilReadError::Close))
    } else if !spec_valid_subsec(spec_le_u32(s) as u32, spec_le_u32(s.skip(4)) as u32) {
        Some(PacketError::Timestamp)
    } else if s.len() < 16 {
        Some(PacketError::Io(UntilReadError::Close))
    } else {
        None
    }
}

/// `h` holds the four little-endian fields that the bytes `s` open with.
pub open spec fn is_packet_header_of(h: PacketHeader, s: Seq<u8>) -> bool {
    &&& s.len() >= 16
    &&& h.timestamp.secs == spec_le_u32(s)
    &&& h.timestamp.subsec == spec_le_u32(s.skip(4))
    &&& h.caplen == spec_le_u32(s.skip(8))
    &&& h.len == spec_le_u32(s.skip(12))
}

/// Why the bytes `s` do not decode to a frame, if they do not: the frame
/// header is cut short, or a layer inside fails.
pub open spec fn spec_packet_body_error(s: Seq<u8>) -> Option<PacketError> {
    if s.len() < 14 {
        Some(PacketError::Io(UntilReadError::Close))
    } else {
        match spec_l3data_error(s.skip(14), spec_be_u16(s.skip(12)) as u16) {
            Some(e) => Some(PacketError::Data(e)),
            None => None,
        }
    }
}

/// `b` is what the bytes `s` decode to: destination address, source
/// address, the type field in network byte order, and the payload that all
/// the bytes after them decode to under that type.
pub open spec fn is_packet_body_of(b: PacketBody, s: Seq<u8>) -> bool {
    &&& s.len() >= 14
    &&& b.header.dst.0@ == s.subrange(0, 6)
    &&& b.header.src.0@ == s.subrange(6, 12)
    &&& b.header.type_len == spec_be_u16(s.skip(12))
    &&& is_l3data_of(b.data, s.skip(14), b.header.type_len)
}

/// The number of bytes that the record at the front of `s` takes, header
/// included, going by the length field of its header.
pub open spec fn spec_record_len(s: Seq<u8>) -> int {
    16 + spec_le_u32(s.skip(12))
}

/// Why no record can be decoded from the front of `s`, if none can: its
/// header fails, the bytes end before the length that the header declares,
/// or the frame inside fails.
pub open spec fn spec_packet_error(s: Seq<u8>) -> Option<PacketError> {
    if s.len() < 16 {
        spec_packet_header_error(s)
    } else if spec_packet_header_error(s.take(16)) is Some {
        spec_packet_header_error(s.take(16))
    } else if s.len() < spec_record_len(s) {
        Some(PacketError::Io(UntilReadError::Close))
    } else {
        spec_packet_body_error(s.subrange(16, spec_record_len(s)))
    }
}

/// `p` is the record at the front of `s`.
pub open spec fn is_packet_of(p: Packet, s: Seq<u8>) -> bool {
    &&& 16 <= spec_record_len(s) <= s.len()
    &&& is_packet_header_of(p.header, s.take(16))
    &&& is_packet_body_of(p.body, s.subrange(16, spec_record_len(s)))
}

/// Decodes a frame from all of `bytes`.
pub fn read_packet_body(bytes: &[u8]) -> (r: Result<PacketBody, PacketError>)
    ensures
        match spec_packet_body_error(bytes@) {
            Some(e) => r == Err::<PacketBody, PacketError>(e),
            None => r is Ok && is_packet_body_of(r->Ok_0, bytes@),
        },
{
    let mut bytes = bytes;
    let ghost s = bytes@;
    let mut dst = [0u8; 6];
    if let Err(e) = read_until_full(&mut bytes, &mut dst) {
        return Err(PacketError::Io(e));
    }
    let mut src = [0u8; 6];
    if let Err(e) = read_until_full(&mut bytes, &mut src) {
        return Err(PacketError::Io(e));
    }
    let type_len = match read_u16_be(&mut bytes) {
        Ok(x) => x,
        Err(e) => { return Err(PacketError::Io(e)); },
    };
    proof {
        assert(s.skip(6).take(6) =~= s.subrange(6, 12));
        assert(s.skip(6).skip(6) =~= s.skip(12));
        assert(s.skip(12).skip(2) =~= s.skip(14));
    }
    let header = FrameHeader { src: Macaddr(src), dst: Macaddr(dst), type_len };
    let data = match read_l3data(bytes, type_len) {
        Ok(d) => d,
        Err(e) => { return Err(PacketError::Data(e)); },
    };
    Ok(PacketBody { header, data })
}

/// Decodes a record header from `buf`.
///
/// On success the four fields are those of `buf`. The sub-second field is
/// handed to the conversion to local time as it stands. The local reading
/// that comes back depends on the time zone of the machine, so nothing is
/// promised of its text.
pub fn read_packet_header(buf: &[u8]) -> (r: Result<PacketHeader, PacketError>)
    ensures
        match spec_packet_header_error(buf@) {
            Some(e) => r == Err::<PacketHeader, PacketError>(e),
            None => r is Ok && is_packet_header_of(r->Ok_0, buf@),
        },
{
    let mut slice = buf;
    let unix_time = match read_u32_le(&mut slice) {
        Ok(x) => x,
        Err(e) => { return Err(PacketError::Io(e)); },
    };
    let subsec = match read_u32_le(&mut slice) {
        Ok(x) => x,
        Err(e) => { return Err(PacketError::Io(e)); },
    };
    let timestamp = match Timestamp::from_local(unix_time, subsec, local_time(unix_time, subsec)) {
        Ok(t) => t,
        Err(e) => { return Err(e); },
    };
    let caplen = match read_u32_le(&mut slice) {
        Ok(x) => x,
        Err(e) => { return Err(PacketError::Io(e)); },
    };
    let len = match read_u32_le(&mut slice) {
        Ok(x) => x,
        Err(e) => { return Err(PacketError::Io(e)); },
    };
    Ok(PacketHeader { timestamp, caplen, len })
}

/// Takes one record from the front of `read`: sixteen bytes of header, then
/// as many bytes of frame as the header's length field says.
///
/// A record that is not all there is never decoded in part: the read fails.
/// On success the source stands at the first byte after the record.
pub fn read_packet(read: &mut &[u8]) -> (r: Result<Packet, PacketError>)
    ensures
        match spec_packet_error(old(read)@) {
            Some(e) => r == Err::<Packet, PacketError>(e),
            None => r is Ok && is_packet_of(r->Ok_0, old(read)@) && final(read)@ == old(
                read,
            )@.skip(spec_record_len(old(read)@)),
        },
{
    let ghost s = read@;
    let header_len: usize = if read.len() < RECORD_HEADER_LEN {
        read.len()
    } else {
        RECORD_HEADER_LEN
    };
    let header_buf = slice_subrange(*read, 0, header_len);
    *read = slice_subrange(*read, header_len, read.len());
    let header = match read_packet_header(header_buf) {
        Ok(h) => h,
        Err(e) => { return Err(e); },
    };
    let len: usize = header.len as usize;
    if read.len() < len {
        *read = slice_subrange(*read, read.len(), read.len());
        return Err(PacketError::Io(UntilReadError::Close));
    }
    let body_buf = slice_subrange(*read, 0, len);
    *read = slice_subrange(*read, len, read.len());
    proof {
        assert(body_buf@ =~= s.subrange(16, 16 + len));
    }
    let body = match read_packet_body(body_buf) {
        Ok(b) => b,
        Err(e) => { return Err(e); },
    };
    Ok(Packet { header, body })
}

impl PacketBody {
    /// The number of bytes that the frame was decoded from: the frame
    /// header and the payload.
    pub open spec fn spec_len(&self) -> int {
        14 + self.data.spec_len()
    }
}

/// Decoding never leaves a byte over and never makes one up: the layers of
/// a decoded frame add up to the bytes it was decoded from, and those of a
/// decoded record to the length that its header declares.
pub proof fn lemma_layers_add_up(p: Packet, s: Seq<u8>)
    requires
        is_packet_of(p, s),
    ensures
        p.body.spec_len() == p.header.len,
        p.body.spec_len() + 16 == spec_record_len(s),
{
    let frame = s.subrange(16, spec_record_len(s));
    lemma_frame_adds_up(p.body, frame);
}

/// The layers of a decoded frame add up to the bytes it was decoded from.
pub proof fn lemma_frame_adds_up(b: PacketBody, s: Seq<u8>)
    requires
        is_packet_body_of(b, s),
    ensures
        b.spec_len() == s.len(),
{
    lemma_l3data_len(b.data, s.skip(14), b.header.type_len);
}

impl Macaddr {
    /// The six bytes in two hexadecimal digits each, separated by colons, in
    /// square brackets.
    pub open spec fn spec_text(&self) -> Seq<char> {
        "["@ + spec_hex2(self.0[0]) + ":"@ + spec_hex2(self.0[1]) + ":"@ + spec_hex2(self.0[2])
            + ":"@ + spec_hex2(self.0[3]) + ":"@ + spec_hex2(self.0[4]) + ":"@ + spec_hex2(
            self.0[5],
        ) + "]"@
    }

    /// Appends the address to `s`.
    pub fn push_to(&self, s: &mut String)
        ensures
            final(s)@ == old(s)@ + self.spec_text(),
    {
        s.append("[");
        push_hex2(s, self.0[0]);
        s.append(":");
        push_hex2(s, self.0[1]);
        s.append(":");
        push_hex2(s, self.0[2]);
        s.append(":");
        push_hex2(s, self.0[3]);
        s.append(":");
        push_hex2(s, self.0[4]);
        s.append(":");
        push_hex2(s, self.0[5]);
        s.append("]");
    }
}

impl FrameHeader {
    /// The header written out field by field.
    pub open spec fn spec_text(&self) -> Seq<char> {
        "FrameHeader { _src: "@ + self.src.spec_text() + ", _dst: "@ + self.dst.spec_text()
            + ", _type_len: "@ + spec_dec(self.type_len as nat) + " }"@
    }

    /// The header written out field by field.
    pub fn text(&self) -> (r: String)
        ensures
            r@ == self.spec_text(),
    {
        let mut s = String::new();
        s.append("FrameHeader { _src: ");
        self.src.push_to(&mut s);
        s.append(", _dst: ");
        self.dst.push_to(&mut s);
        s.append(", _type_len: ");
        push_dec(&mut s, self.type_len as u32);
        s.append(" }");
        s
    }
}

impl PacketHeader {
    /// The header written out field by field, the timestamp as the full
    /// local date and time.
    pub open spec fn spec_text(&self) -> Seq<char> {
        "PacketHeader { _timestamp: "@ + self.timestamp.local.stamp@ + ", _caplen: "@ + spec_dec(
            self.caplen as nat,
        ) + ", len: "@ + spec_dec(self.len as nat) + " }"@
    }

    /// The header written out field by field.
    pub fn text(&self) -> (r: String)
        ensures
            r@ == self.spec_text(),
    {
        let mut s = String::new();
        s.append("PacketHeader { _timestamp: ");
        s.append(self.timestamp.local.stamp.as_str());
        s.append(", _caplen: ");
        push_dec(&mut s, self.caplen as u32);
        s.append(", len: ");
        push_dec(&mut s, self.len as u32);
        s.append(" }");
        s
    }
}

impl Packet {
    /// The detailed rendering: the record header, the frame header, then
    /// the lines of the layers inside.
    pub open spec fn spec_text(&self) -> Seq<Seq<char>> {
        seq![self.header.spec_text(), self.body.header.spec_text()] + self.body.data.spec_text()
    }

    /// The one-line summary: the local time of day, the packet's length
    /// moved right to five characters, a space, and the summary of the
    /// layers inside.
    pub open spec fn spec_line(&self) -> Seq<char> {
        self.header.timestamp.local.clock@ + spec_pad_left(spec_dec(self.header.len as nat), 5)
            + " "@ + self.body.data.spec_line()
    }

    /// The detailed rendering, line by line.
    pub fn text(&self) -> (r: Vec<String>)
        ensures
            lines_of(r@) == self.spec_text(),
    {
        let mut ans: Vec<String> = Vec::new();
        ans.push(self.header.text());
        ans.push(self.body.header.text());
        let mut rest = self.body.data.text();
        ans.append(&mut rest);
        ans
    }

    /// The one-line summary, which is also what a filter is matched against.
    pub fn line(&self) -> (r: String)
        ensures
            r@ == self.spec_line(),
    {
        let mut s = String::new();
        s.append(self.header.timestamp.local.clock.as_str());
        push_padded_dec(&mut s, self.header.len, LEN_WIDTH);
        s.append(" ");
        s.append(self.body.data.line().as_str());
        s
    }
}

impl Filtable for Packet {
    /// A packet matches a filter that occurs in its summary line.
    open spec fn matches(&self, filter: Seq<char>) -> bool {
        is_substring(self.spec_line(), filter)
    }

    fn is_match(&self, s: &str) -> (b: bool) {
        contains(self.line().as_str(), s)
    }
}

} // verus!
