use quic_codec::conn_id::ConnectionID;
use quic_codec::error::CodecError;
use quic_codec::packet::handshake_header::HandshakeHeader;
use quic_codec::packet::initial_header::InitialHeader;
use quic_codec::packet::long_header::{read_packet_header_connid, write_packet_header_connid, LongHeader};
use quic_codec::packet::zero_rtt_header::ZeroRTTHeader;
use quic_codec::packet_number::{read_fixed, serialize_len, write_fixed};

fn conn_id(bytes: &[u8]) -> ConnectionID {
    let mut id = ConnectionID::new();
    id.set_id(bytes);
    id
}

fn long_header() -> LongHeader {
    let mut h = LongHeader::new();
    h.set_version(1);
    h.set_dst(conn_id(&[0xd1, 0xd2]));
    h.set_src(conn_id(&[0x51]));
    h
}

#[test]
fn connection_id_accepts_one_and_twenty_bytes() {
    let one = conn_id(&[7]);
    assert_eq!(one.get_id(), &[7][..]);
    let twenty = conn_id(&[3u8; 20]);
    assert_eq!(twenty.get_id(), &[3u8; 20][..]);
    assert_eq!(ConnectionID::new().get_id().len(), 0);
}

#[test]
fn connection_id_lengths_zero_and_twenty_one_are_invalid_on_decode() {
    assert_eq!(read_packet_header_connid(&[0, 1, 2], 0).err(), Some(CodecError::InvalidEncoding));
    let mut input = vec![21u8];
    input.extend_from_slice(&[0u8; 21]);
    assert_eq!(read_packet_header_connid(&input, 0).err(), Some(CodecError::InvalidEncoding));
    let mut input = vec![20u8];
    input.extend_from_slice(&[4u8; 20]);
    let (n, id) = read_packet_header_connid(&input, 0).unwrap();
    assert_eq!(n, 21);
    assert_eq!(id.get_id(), &[4u8; 20][..]);
    assert_eq!(read_packet_header_connid(&[3, 1, 2], 0).err(), Some(CodecError::Truncated));
    assert_eq!(read_packet_header_connid(&[], 0).err(), Some(CodecError::Truncated));
}

#[test]
fn connection_id_write() {
    let mut out: Vec<u8> = Vec::new();
    assert_eq!(write_packet_header_connid(&[1, 2, 3], &mut out), 4);
    assert_eq!(out, vec![3, 1, 2, 3]);
}

#[test]
fn long_header_round_trip() {
    let h = long_header();
    let mut out: Vec<u8> = Vec::new();
    assert_eq!(h.write(&mut out), 9);
    assert_eq!(out, vec![0, 0, 0, 1, 2, 0xd1, 0xd2, 1, 0x51]);
    let mut g = LongHeader::new();
    assert_eq!(g.read(&out), Ok(9));
    assert_eq!(g.get_version(), 1);
    assert_eq!(g.get_dst(), &[0xd1, 0xd2][..]);
    assert_eq!(g.get_src(), &[0x51][..]);
    assert_eq!(g.read(&[0, 0, 1]), Err(CodecError::Truncated));
}

#[test]
fn packet_number_lengths() {
    assert_eq!(serialize_len(0), Ok(1));
    assert_eq!(serialize_len(0x7f), Ok(1));
    assert_eq!(serialize_len(0x80), Ok(2));
    assert_eq!(serialize_len(0x7fff), Ok(2));
    assert_eq!(serialize_len(0x8000), Ok(3));
    assert_eq!(serialize_len(0x7f_ffff), Ok(3));
    assert_eq!(serialize_len(0x80_0000), Ok(4));
    assert_eq!(serialize_len(0x7fff_ffff), Ok(4));
    assert_eq!(serialize_len(0x8000_0000), Err(CodecError::OutOfRange));
    assert_eq!(serialize_len(u64::MAX), Err(CodecError::OutOfRange));
}

#[test]
fn packet_number_fixed_width() {
    let mut out: Vec<u8> = Vec::new();
    assert_eq!(write_fixed(0x12_3456, 3, &mut out), Ok(()));
    assert_eq!(out, vec![0x12, 0x34, 0x56]);
    assert_eq!(write_fixed(0xaabb_ccdd, 2, &mut out), Ok(()));
    assert_eq!(out, vec![0x12, 0x34, 0x56, 0xcc, 0xdd]);
    assert_eq!(write_fixed(1, 5, &mut out), Err(CodecError::UnsupportedLength));
    assert_eq!(write_fixed(1, 0, &mut out), Err(CodecError::UnsupportedLength));
    assert_eq!(out.len(), 5);
    assert_eq!(read_fixed(3, &out, 0), Ok(0x12_3456));
    assert_eq!(read_fixed(4, &out, 1), Ok(0x3456_ccdd));
    assert_eq!(read_fixed(4, &out, 2), Err(CodecError::Truncated));
    assert_eq!(read_fixed(0, &out, 0), Err(CodecError::UnsupportedLength));
    assert_eq!(read_fixed(8, &out, 0), Err(CodecError::UnsupportedLength));
}

#[test]
fn initial_header_round_trip() {
    let mut h = InitialHeader::new(2);
    h.set_header(long_header());
    h.set_token(&[0xee, 0xff]);
    h.set_length(300);
    h.set_packet_number(0x1234);
    let mut out: Vec<u8> = Vec::new();
    assert_eq!(h.write(&mut out), Ok(17));
    assert_eq!(out[0], 0xc1);
    assert_eq!(&out[10..], &[2, 0xee, 0xff, 0x41, 0x2c, 0x12, 0x34][..]);

    let mut g = InitialHeader::new(2);
    assert_eq!(g.read(&out[1..]), Ok(16));
    assert_eq!(g.get_token(), &[0xee, 0xff][..]);
    assert_eq!(g.get_length(), 300);
    assert_eq!(g.get_packet_number(), 0x1234);
    assert_eq!(g.get_packet_number_len(), 2);
    let mut wide = InitialHeader::new(3);
    assert_eq!(wide.read(&out[1..]), Err(CodecError::Truncated));
    assert_eq!(g.get_header().get_dst(), &[0xd1, 0xd2][..]);
}

#[test]
fn zero_rtt_and_handshake_first_bytes() {
    let mut z = ZeroRTTHeader::new(1);
    z.set_header(long_header());
    z.set_packet_number(5);
    let mut out: Vec<u8> = Vec::new();
    assert_eq!(z.write(&mut out), Ok(12));
    assert_eq!(out[0], 0xd0);
    assert_eq!(&out[10..], &[0, 5][..]);
    let mut z2 = ZeroRTTHeader::new(1);
    assert_eq!(z2.read(&out[1..]), Ok(11));
    assert_eq!(z2.get_packet_number(), 5);

    let mut hs = HandshakeHeader::new(4);
    hs.set_header(long_header());
    hs.set_length(1);
    hs.set_packet_number(0x80_0000);
    let mut out: Vec<u8> = Vec::new();
    assert_eq!(hs.write(&mut out), Ok(15));
    assert_eq!(out[0], 0xe3);
    let mut h2 = HandshakeHeader::new(4);
    assert_eq!(h2.read(&out[1..]), Ok(14));
    assert_eq!(h2.get_packet_number(), 0x80_0000);
    assert_eq!(h2.get_length(), 1);
}

#[test]
fn header_errors() {
    let mut hs = HandshakeHeader::new(0);
    hs.set_header(long_header());
    let mut out: Vec<u8> = Vec::new();
    hs.write(&mut out).unwrap();
    let mut h2 = HandshakeHeader::new(0);
    assert_eq!(h2.read(&out[1..]), Err(CodecError::UnsupportedLength));
    let mut big = HandshakeHeader::new(1);
    big.set_packet_number(0x8000_0000);
    let mut out2: Vec<u8> = Vec::new();
    assert_eq!(big.write(&mut out2), Err(CodecError::OutOfRange));
    assert!(out2.is_empty());
    let mut i = InitialHeader::new(1);
    assert_eq!(i.read(&[0, 0, 0, 1, 0]), Err(CodecError::InvalidEncoding));
}
