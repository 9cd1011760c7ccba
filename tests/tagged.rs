use quic_codec::error::CodecError;
use quic_codec::frame::max_data::MaxDataFrame;
use quic_codec::frame::tagged::{read_frame, write_frame, Frame};

#[test]
fn read_frame_dispatches_on_the_tag() {
    let input = [0x0f, 0x04, 0x0a, 0x03, 0x01, 0x02, 0x03, 0x01];
    match read_frame(&input) {
        Ok((Frame::Stream(f), n)) => {
            assert_eq!(n, 7);
            assert_eq!(f.get_stream_id(), 4);
            assert_eq!(f.get_data(), (10, &[1, 2, 3][..]));
            assert!(f.get_off_flag() && f.get_len_flag() && f.get_fin_flag());
        }
        _ => panic!("expected a STREAM frame"),
    }
    match read_frame(&input[7..]) {
        Ok((Frame::Ping, 1)) => {}
        _ => panic!("expected a PING frame"),
    }
}

#[test]
fn read_frame_flags_come_from_the_tag() {
    match read_frame(&[0x13, 0x05]) {
        Ok((Frame::MaxStreams(f), 2)) => {
            assert!(!f.is_bidi());
            assert_eq!(f.get_maximum_streams(), 5);
        }
        _ => panic!("expected a MAX_STREAMS frame"),
    }
    match read_frame(&[0x03, 1, 0, 1, 0, 4, 5, 6]) {
        Ok((Frame::Ack(f), 8)) => {
            assert_eq!(f.get_largest(), 1);
            assert!(f.get_ecn().is_some());
        }
        _ => panic!("expected an ACK frame with ECN counts"),
    }
}

#[test]
fn read_frame_errors_and_extensions() {
    assert_eq!(read_frame(&[]).err(), Some(CodecError::Truncated));
    assert_eq!(read_frame(&[0x10]).err(), Some(CodecError::Truncated));
    assert_eq!(read_frame(&[0x1d, 0, 1, 0xff]).err(), Some(CodecError::InvalidEncoding));
    match read_frame(&[0x40, 0x99]) {
        Ok((Frame::Extension(0x40), 1)) => {}
        _ => panic!("expected an extension frame"),
    }
}

#[test]
fn write_frame_uses_the_kind_encoder() {
    let mut f = MaxDataFrame::new();
    f.set_maximum_data(64);
    let mut out: Vec<u8> = Vec::new();
    assert_eq!(write_frame(&Frame::MaxData(f), &mut out), Ok(3));
    assert_eq!(write_frame(&Frame::HandshakeDone, &mut out), Ok(1));
    assert_eq!(write_frame(&Frame::Padding, &mut out), Ok(1));
    assert_eq!(out, vec![0x10, 0x40, 0x40, 0x1e, 0x00]);
    let mut big = MaxDataFrame::new();
    big.set_maximum_data(1 << 62);
    assert_eq!(write_frame(&Frame::MaxData(big), &mut out), Err(CodecError::OutOfRange));
    assert_eq!(out.len(), 5);
}
