use quic_codec::frame::types::FrameType;

#[test]
fn every_tag_byte_re_encodes_to_itself() {
    for b in 0..=255u8 {
        let t = FrameType::from(b);
        assert_eq!(u8::from(t), b);
    }
}

#[test]
fn flagged_tags_decode_to_their_flags() {
    assert_eq!(FrameType::from(0x02), FrameType::Ack { with_ecm: false });
    assert_eq!(FrameType::from(0x03), FrameType::Ack { with_ecm: true });
    assert_eq!(FrameType::from(0x12), FrameType::MaxStreams { bidi_flag: true });
    assert_eq!(FrameType::from(0x13), FrameType::MaxStreams { bidi_flag: false });
    assert_eq!(FrameType::from(0x16), FrameType::StreamsBlocked { bidi_flag: true });
    assert_eq!(FrameType::from(0x17), FrameType::StreamsBlocked { bidi_flag: false });
    assert_eq!(FrameType::from(0x1c), FrameType::ConnectionClose { sys_err: true });
    assert_eq!(FrameType::from(0x1d), FrameType::ConnectionClose { sys_err: false });
    assert_eq!(
        FrameType::from(0x0d),
        FrameType::Stream { off_flag: true, len_flag: false, fin_flag: true }
    );
    assert_eq!(
        FrameType::from(0x0a),
        FrameType::Stream { off_flag: false, len_flag: true, fin_flag: false }
    );
}

#[test]
fn stream_flags_map_to_low_bits() {
    for off in [false, true] {
        for len in [false, true] {
            for fin in [false, true] {
                let t = FrameType::Stream { off_flag: off, len_flag: len, fin_flag: fin };
                let b = u8::from(t);
                let expected = 0x08 | if off { 4 } else { 0 } | if len { 2 } else { 0 } | if fin { 1 } else { 0 };
                assert_eq!(b, expected);
                assert_eq!(FrameType::from(b), t);
            }
        }
    }
}

#[test]
fn plain_tags() {
    assert_eq!(FrameType::from(0x00), FrameType::Padding);
    assert_eq!(FrameType::from(0x01), FrameType::Ping);
    assert_eq!(FrameType::from(0x04), FrameType::ResetStream);
    assert_eq!(FrameType::from(0x1a), FrameType::PathChallenge);
    assert_eq!(FrameType::from(0x1b), FrameType::PathResponse);
    assert_eq!(FrameType::from(0x1e), FrameType::HandshakeDone);
    assert_eq!(u8::from(FrameType::NewConnectionID), 0x18);
    assert_eq!(u8::from(FrameType::RetireConnectionID), 0x19);
}

#[test]
fn unknown_tags_are_extensions() {
    assert_eq!(FrameType::from(0x1f), FrameType::Extension { type_byte: 0x1f });
    assert_eq!(FrameType::from(0xff), FrameType::Extension { type_byte: 0xff });
    assert_eq!(u8::from(FrameType::Extension { type_byte: 0x30 }), 0x30);
}
