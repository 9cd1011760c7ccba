use quic_codec::conn_id::ConnectionID;
use quic_codec::error::CodecError;
use quic_codec::frame::ack::{ACKFrame, ACKRange, ECNCounts};
use quic_codec::frame::connection_close::ConnectionCloseFrame;
use quic_codec::frame::crypto::CryptoFrame;
use quic_codec::frame::data_blocked::DataBlockedFrame;
use quic_codec::frame::max_data::MaxDataFrame;
use quic_codec::frame::max_stream_data::MaxStreamDataFrame;
use quic_codec::frame::max_streams::MaxStreamsFrame;
use quic_codec::frame::new_connection_id::NewConnectionIDFrame;
use quic_codec::frame::new_token::NewTokenFrame;
use quic_codec::frame::path_challenge::PathChallengeFrame;
use quic_codec::frame::path_response::PathResponseFrame;
use quic_codec::frame::reset_stream::ResetStreamFrame;
use quic_codec::frame::retire_connection_id::RetireConnectionIDFrame;
use quic_codec::frame::stop_sending::StopSendingFrame;
use quic_codec::frame::stream::StreamFrame;
use quic_codec::frame::stream_data_blocked::StreamDataBlockedFrame;
use quic_codec::frame::streams_blocked::StreamsBlockedFrame;

#[test]
fn ack_without_further_ranges() {
    let mut f = ACKFrame::new(false);
    f.set_largest(100);
    f.set_delay(5);
    f.set_first_range(3);
    let mut out: Vec<u8> = Vec::new();
    assert_eq!(f.write(&mut out), Ok(6));
    // the range count on the wire is 1: the first range alone
    assert_eq!(out, vec![0x02, 0x40, 0x64, 0x05, 0x01, 0x03]);

    let mut g = ACKFrame::new(false);
    assert_eq!(g.read(&out[1..]), Ok(5));
    assert_eq!(g.get_largest(), 100);
    assert_eq!(g.get_delay(), 5);
    assert_eq!(g.get_first_range(), 3);
    assert_eq!(g.get_ranges().len(), 0);
    assert_eq!(g.get_ecn(), None);
}

#[test]
fn ack_range_count_is_ranges_plus_one() {
    let mut f = ACKFrame::new(false);
    f.set_largest(20);
    f.set_ranges(&[ACKRange { gap: 1, length: 2 }, ACKRange { gap: 3, length: 4 }]);
    let mut out: Vec<u8> = Vec::new();
    f.write(&mut out).unwrap();
    assert_eq!(out, vec![0x02, 20, 0, 3, 0, 1, 2, 3, 4]);

    let mut g = ACKFrame::new(false);
    assert_eq!(g.read(&out[1..]), Ok(8));
    assert_eq!(
        g.get_ranges(),
        &[ACKRange { gap: 1, length: 2 }, ACKRange { gap: 3, length: 4 }][..]
    );
}

#[test]
fn ack_with_ecn_counts() {
    let mut f = ACKFrame::new(true);
    f.set_largest(7);
    f.set_ecn(ECNCounts { ect0: 1, ect1: 2, ecn_ce: 3 });
    let mut out: Vec<u8> = Vec::new();
    assert_eq!(f.write(&mut out), Ok(8));
    assert_eq!(out, vec![0x03, 7, 0, 1, 0, 1, 2, 3]);

    let mut g = ACKFrame::new(true);
    assert_eq!(g.read(&out[1..]), Ok(7));
    assert_eq!(g.get_ecn(), Some(ECNCounts { ect0: 1, ect1: 2, ecn_ce: 3 }));
}

#[test]
fn ack_zero_range_count_is_invalid() {
    let mut g = ACKFrame::new(false);
    assert_eq!(g.read(&[1, 0, 0, 0]), Err(CodecError::InvalidEncoding));
}

#[test]
fn ack_truncated_range() {
    let mut g = ACKFrame::new(false);
    assert_eq!(g.read(&[1, 0, 2, 0, 5]), Err(CodecError::Truncated));
}

#[test]
fn ack_value_too_large() {
    let mut f = ACKFrame::new(false);
    f.set_delay(1u64 << 62);
    let mut out: Vec<u8> = Vec::new();
    assert_eq!(f.write(&mut out), Err(CodecError::OutOfRange));
    assert!(out.is_empty());
}

#[test]
fn stream_end_to_end() {
    let mut f = StreamFrame::new(true, true, true);
    f.set_stream_id(4);
    f.set_data(10, &[1, 2, 3]);
    let mut out: Vec<u8> = Vec::new();
    assert_eq!(f.write(&mut out), Ok(7));
    assert_eq!(out, vec![0x0f, 0x04, 0x0a, 0x03, 0x01, 0x02, 0x03]);

    let mut g = StreamFrame::new(true, true, true);
    assert_eq!(g.read(&out[1..]), Ok(6));
    assert_eq!(g.get_stream_id(), 4);
    let (offset, data) = g.get_data();
    assert_eq!(offset, 10);
    assert_eq!(data, &[1, 2, 3][..]);
    assert!(g.get_off_flag() && g.get_len_flag() && g.get_fin_flag());
}

#[test]
fn stream_without_length_takes_everything() {
    let input = [0x04, 9, 8, 7, 6];
    let mut g = StreamFrame::new(false, false, false);
    assert_eq!(g.read(&input), Ok(5));
    assert_eq!(g.get_stream_id(), 4);
    assert_eq!(g.get_data(), (0, &[9, 8, 7, 6][..]));
}

#[test]
fn stream_with_length_leaves_trailing_bytes() {
    let input = [0x04, 0x02, 9, 8, 7, 6];
    let mut g = StreamFrame::new(false, true, false);
    assert_eq!(g.read(&input), Ok(4));
    assert_eq!(g.get_data(), (0, &[9, 8][..]));
}

#[test]
fn stream_with_length_past_end_is_truncated() {
    let mut g = StreamFrame::new(false, true, false);
    assert_eq!(g.read(&[0x04, 0x05, 1, 2]), Err(CodecError::Truncated));
    assert_eq!(g.get_data(), (0, &[][..]));
}

#[test]
fn connection_close_round_trip() {
    let mut f = ConnectionCloseFrame::new(true);
    f.set_error_code(0x0a);
    f.set_frame_type(0x06);
    f.set_reason("héllo");
    let mut out: Vec<u8> = Vec::new();
    assert_eq!(f.write(&mut out), Ok(10));
    assert_eq!(out, vec![0x1c, 0x0a, 0x06, 0x06, b'h', 0xc3, 0xa9, b'l', b'l', b'o']);

    let mut g = ConnectionCloseFrame::new(true);
    assert_eq!(g.read(&out[1..]), Ok(9));
    assert_eq!(g.get_error_code(), 0x0a);
    assert_eq!(g.get_frame_type(), 0x06);
    assert_eq!(g.get_reason(), "héllo");
}

#[test]
fn connection_close_application_error_has_no_frame_type() {
    let mut f = ConnectionCloseFrame::new(false);
    f.set_error_code(1);
    f.set_frame_type(9);
    f.set_reason("x");
    let mut out: Vec<u8> = Vec::new();
    f.write(&mut out).unwrap();
    assert_eq!(out, vec![0x1d, 1, 1, b'x']);
}

#[test]
fn connection_close_invalid_utf8_is_refused() {
    let mut g = ConnectionCloseFrame::new(false);
    assert_eq!(g.read(&[0x01, 0x02, 0xff, 0xfe]), Err(CodecError::InvalidEncoding));
    assert_eq!(g.read(&[0x01, 0x01, 0xc3]), Err(CodecError::InvalidEncoding));
    assert_eq!(g.get_reason(), "");
    assert_eq!(g.get_error_code(), 0);
}

#[test]
fn new_connection_id_round_trip() {
    let mut id = ConnectionID::new();
    id.set_id(&[0xab, 0xcd]);
    let mut f = NewConnectionIDFrame::new();
    f.set_seq(3);
    f.set_retire_prior_to(1);
    f.set_connection_id(id);
    f.set_reset_token(&[7u8; 16]);
    let mut out: Vec<u8> = Vec::new();
    assert_eq!(f.write(&mut out), Ok(22));
    assert_eq!(&out[..6], &[0x18, 3, 1, 2, 0xab, 0xcd][..]);

    let mut g = NewConnectionIDFrame::new();
    assert_eq!(g.read(&out[1..]), Ok(21));
    assert_eq!(g.get_seq(), 3);
    assert_eq!(g.get_retire_prior_to(), 1);
    assert_eq!(g.get_connection_id().get_id(), &[0xab, 0xcd][..]);
    assert_eq!(g.get_reset_token(), &[7u8; 16][..]);
}

#[test]
fn new_connection_id_bad_lengths() {
    let mut g = NewConnectionIDFrame::new();
    let mut input = vec![0, 0, 0];
    input.extend_from_slice(&[0u8; 16]);
    assert_eq!(g.read(&input), Err(CodecError::InvalidEncoding));
    let mut input = vec![0, 0, 21];
    input.extend_from_slice(&[0u8; 40]);
    assert_eq!(g.read(&input), Err(CodecError::InvalidEncoding));
    let mut input = vec![0, 0, 20];
    input.extend_from_slice(&[0u8; 36]);
    assert_eq!(g.read(&input), Ok(39));
    assert_eq!(g.read(&[0, 0, 1, 5, 1, 2]), Err(CodecError::Truncated));
}

#[test]
fn crypto_round_trip() {
    let mut f = CryptoFrame::new();
    f.set_data(70, &[5, 6]);
    let mut out: Vec<u8> = Vec::new();
    assert_eq!(f.write(&mut out), Ok(6));
    assert_eq!(out, vec![0x06, 0x40, 0x46, 0x02, 5, 6]);
    let mut g = CryptoFrame::new();
    assert_eq!(g.read(&out[1..]), Ok(5));
    assert_eq!(g.get_data(), (70, &[5, 6][..]));
}

#[test]
fn new_token_round_trip() {
    let mut f = NewTokenFrame::new();
    f.set_token(&[1, 2, 3, 4]);
    let mut out: Vec<u8> = Vec::new();
    assert_eq!(f.write(&mut out), Ok(6));
    assert_eq!(out, vec![0x07, 4, 1, 2, 3, 4]);
    let mut g = NewTokenFrame::new();
    assert_eq!(g.read(&out[1..]), Ok(5));
    assert_eq!(g.get_token(), &[1, 2, 3, 4][..]);
    assert_eq!(g.read(&[9, 1]), Err(CodecError::Truncated));
}

#[test]
fn path_frames() {
    let mut c = PathChallengeFrame::new();
    c.set_data(&[1, 2, 3, 4, 5, 6, 7, 8]);
    let mut out: Vec<u8> = Vec::new();
    assert_eq!(c.write(&mut out), 9);
    assert_eq!(out, vec![0x1a, 1, 2, 3, 4, 5, 6, 7, 8]);
    let mut r = PathResponseFrame::new();
    assert_eq!(r.read(&out[1..]), Ok(8));
    assert_eq!(r.get_data(), &[1, 2, 3, 4, 5, 6, 7, 8][..]);
    let mut out2: Vec<u8> = Vec::new();
    r.write(&mut out2);
    assert_eq!(out2[0], 0x1b);
    assert_eq!(c.read(&[1, 2, 3]), Err(CodecError::Truncated));
    assert_eq!(c.get_data(), &[1, 2, 3, 4, 5, 6, 7, 8][..]);
}

#[test]
fn flow_control_frames() {
    let mut out: Vec<u8> = Vec::new();
    let mut a = MaxDataFrame::new();
    a.set_maximum_data(1000);
    a.write(&mut out).unwrap();
    let mut b = MaxStreamDataFrame::new();
    b.set_stream_id(2);
    b.set_maximum_data(3);
    b.write(&mut out).unwrap();
    let mut c = DataBlockedFrame::new();
    c.set_maximum_data(63);
    c.write(&mut out).unwrap();
    let mut d = StreamDataBlockedFrame::new();
    d.set_stream_id(1);
    d.set_maximum_data(64);
    d.write(&mut out).unwrap();
    assert_eq!(
        out,
        vec![0x10, 0x43, 0xe8, 0x11, 2, 3, 0x14, 63, 0x15, 1, 0x40, 0x40]
    );

    let mut a2 = MaxDataFrame::new();
    assert_eq!(a2.read(&out[1..]), Ok(2));
    assert_eq!(a2.get_maximum_data(), 1000);
    let mut b2 = MaxStreamDataFrame::new();
    assert_eq!(b2.read(&out[4..]), Ok(2));
    assert_eq!((b2.get_stream_id(), b2.get_maximum_data()), (2, 3));
    let mut d2 = StreamDataBlockedFrame::new();
    assert_eq!(d2.read(&out[9..]), Ok(3));
    assert_eq!(d2.get_maximum_data(), 64);
    let mut c2 = DataBlockedFrame::new();
    assert_eq!(c2.read(&out[7..]), Ok(1));
    assert_eq!(c2.get_maximum_data(), 63);
}

#[test]
fn stream_limit_frames() {
    let mut s = StreamsBlockedFrame::new(true);
    s.set_maximum_streams(9);
    assert!(s.is_bidi());
    let mut out: Vec<u8> = Vec::new();
    assert_eq!(s.write(&mut out), Ok(2));
    s.set_bidi(false);
    s.write(&mut out).unwrap();
    let mut m = MaxStreamsFrame::new(true);
    m.set_maximum_streams(5);
    m.write(&mut out).unwrap();
    m.set_bidi(false);
    m.write(&mut out).unwrap();
    assert_eq!(out, vec![0x16, 9, 0x17, 9, 0x12, 5, 0x13, 5]);

    let mut s2 = StreamsBlockedFrame::new(false);
    assert_eq!(s2.read(&[0x41, 0x00]), Ok(2));
    assert_eq!(s2.get_maximum_streams(), 256);
    assert!(!s2.is_bidi());
    let mut m2 = MaxStreamsFrame::new(true);
    assert_eq!(m2.read(&[7]), Ok(1));
    assert_eq!(m2.get_maximum_streams(), 7);
}

#[test]
fn stream_management_frames() {
    let mut out: Vec<u8> = Vec::new();
    let mut r = ResetStreamFrame::new();
    r.set_stream_id(4);
    r.set_error_code(5);
    r.set_final_size(6);
    assert_eq!(r.write(&mut out), Ok(4));
    let mut s = StopSendingFrame::new();
    s.set_stream_id(8);
    s.set_error_code(9);
    assert_eq!(s.write(&mut out), Ok(3));
    let mut t = RetireConnectionIDFrame::new();
    t.set_seq(2);
    assert_eq!(t.write(&mut out), Ok(2));
    assert_eq!(out, vec![0x04, 4, 5, 6, 0x05, 8, 9, 0x19, 2]);

    let mut r2 = ResetStreamFrame::new();
    assert_eq!(r2.read(&out[1..]), Ok(3));
    assert_eq!((r2.get_stream_id(), r2.get_error_code(), r2.get_final_size()), (4, 5, 6));
    let mut s2 = StopSendingFrame::new();
    assert_eq!(s2.read(&out[5..]), Ok(2));
    assert_eq!((s2.get_stream_id(), s2.get_error_code()), (8, 9));
    let mut t2 = RetireConnectionIDFrame::new();
    assert_eq!(t2.read(&out[8..]), Ok(1));
    assert_eq!(t2.get_seq(), 2);
    assert_eq!(r2.read(&[1, 2]), Err(CodecError::Truncated));
    assert_eq!(r2.get_stream_id(), 4);
}

#[test]
fn simple_frame_value_too_large() {
    let mut f = MaxDataFrame::new();
    f.set_maximum_data(u64::MAX);
    let mut out: Vec<u8> = Vec::new();
    assert_eq!(f.write(&mut out), Err(CodecError::OutOfRange));
    assert!(out.is_empty());
}
