use wirewhale::pcap::{
    is_bigendian_pcap_magic, is_littleendian_pcap_magic, is_pcap_magic, read_pcap_header, PcapError,
};
use wirewhale::read::UntilReadError;

#[test]
fn test_is_pcap_magic() {
    let a = [0xd4, 0xc3, 0xb2, 0xa1];
    assert!(is_pcap_magic(&a));
    let b = [0xd5, 0xc3, 0xb2, 0xa1];
    assert!(!is_pcap_magic(&b));
}

#[test]
fn magic_in_either_byte_order() {
    assert!(is_bigendian_pcap_magic(&[0xd4, 0xc3, 0xb2, 0xa1]));
    assert!(!is_littleendian_pcap_magic(&[0xd4, 0xc3, 0xb2, 0xa1]));
    assert!(is_littleendian_pcap_magic(&[0xa1, 0xb2, 0xc3, 0xd4]));
    assert!(!is_bigendian_pcap_magic(&[0xa1, 0xb2, 0xc3, 0xd4]));
    assert!(is_pcap_magic(&[0xa1, 0xb2, 0xc3, 0xd4]));
    assert!(!is_pcap_magic(&[0xa1, 0xb2, 0xc3, 0xd5]));
    assert!(!is_pcap_magic(&[0, 0, 0, 0]));
}

fn stream_header() -> Vec<u8> {
    vec![
        0xd4, 0xc3, 0xb2, 0xa1, 0x02, 0x00, 0x04, 0x00, 0x00, 0x00, 0x00, 0x00, 0x00, 0x00, 0x00,
        0x00, 0x00, 0x00, 0x04, 0x00, 0x01, 0x00, 0x00, 0x00,
    ]
}

#[test]
fn header_is_consumed_and_the_rest_is_left() {
    let mut bytes = stream_header();
    bytes.extend_from_slice(&[9, 8, 7]);
    let mut read = &bytes[..];
    assert!(read_pcap_header(&mut read).is_ok());
    assert_eq!(read, &[9, 8, 7]);
}

#[test]
fn foreign_magic_is_a_format_error() {
    let mut bytes = stream_header();
    bytes[0] = 0x0a;
    let mut read = &bytes[..];
    assert_eq!(read_pcap_header(&mut read).err(), Some(PcapError::NotPcap));
    assert_eq!(read.len(), 20);
}

#[test]
fn foreign_magic_is_judged_before_the_rest_is_missed() {
    let bytes = [0x0au8, 0x0d, 0x0d, 0x0a];
    let mut read = &bytes[..];
    assert_eq!(read_pcap_header(&mut read).err(), Some(PcapError::NotPcap));
}

#[test]
fn short_magic_is_cut_short() {
    let bytes = [0xd4u8, 0xc3, 0xb2];
    let mut read = &bytes[..];
    assert_eq!(
        read_pcap_header(&mut read).err(),
        Some(PcapError::Io(UntilReadError::Close))
    );
    assert!(read.is_empty());
}

#[test]
fn short_header_is_cut_short() {
    let bytes = stream_header();
    let mut read = &bytes[..23];
    assert_eq!(
        read_pcap_header(&mut read).err(),
        Some(PcapError::Io(UntilReadError::Close))
    );
    assert!(read.is_empty());
}

#[test]
fn empty_stream_is_cut_short() {
    let bytes: [u8; 0] = [];
    let mut read = &bytes[..];
    assert_eq!(
        read_pcap_header(&mut read).err(),
        Some(PcapError::Io(UntilReadError::Close))
    );
}
