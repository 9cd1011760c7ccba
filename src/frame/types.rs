//! The frame type tag: the leading byte of every frame. Some kinds fold
//! boolean flags into the low bits of the tag.
use vstd::prelude::*;

verus! {

/// The kind of a frame, with the flags that its tag byte carries.
#[derive(Clone, Copy, Debug, PartialEq, Eq, Structural)]
pub enum FrameType {
    /// PADDING (0x00): no payload.
    Padding,
    /// PING (0x01): no payload.
    Ping,
    /// ACK (0x02, or 0x03 when ECN counts follow).
    Ack { with_ecm: bool },
    /// RESET_STREAM (0x04).
    ResetStream,
    /// STOP_SENDING (0x05).
    StopSending,
    /// CRYPTO (0x06).
    Crypto,
    /// NEW_TOKEN (0x07).
    NewToken,
    /// STREAM (0x08..=0x0f): bit 2 = offset present, bit 1 = length present,
    /// bit 0 = final frame of the stream.
    Stream { off_flag: bool, len_flag: bool, fin_flag: bool },
    /// MAX_DATA (0x10).
    MaxData,
    /// MAX_STREAM_DATA (0x11).
    MaxStreamData,
    /// MAX_STREAMS (0x12 bidirectional, 0x13 unidirectional).
    MaxStreams { bidi_flag: bool },
    /// DATA_BLOCKED (0x14).
    DataBlocked,
    /// STREAM_DATA_BLOCKED (0x15).
    StreamDataBlocked,
    /// STREAMS_BLOCKED (0x16 bidirectional, 0x17 unidirectional).
    StreamsBlocked { bidi_flag: bool },
    /// NEW_CONNECTION_ID (0x18).
    NewConnectionID,
    /// RETIRE_CONNECTION_ID (0x19).
    RetireConnectionID,
    /// PATH_CHALLENGE (0x1a).
    PathChallenge,
    /// PATH_RESPONSE (0x1b).
    PathResponse,
    /// CONNECTION_CLOSE (0x1c for a transport error, which names the
    /// offending frame type; 0x1d for an application error).
    ConnectionClose { sys_err: bool },
    /// HANDSHAKE_DONE (0x1e): no payload.
    HandshakeDone,
    /// Any other tag, kept as it was read.
    Extension { type_byte: u8 },
}

/// The kind that a tag byte selects. Every byte selects one.
pub open spec fn frame_type_of(byte: u8) -> FrameType {
    if byte == 0x00 {
        FrameType::Padding
    } else if byte == 0x01 {
        FrameType::Ping
    } else if byte == 0x02 || byte == 0x03 {
        FrameType::Ack { with_ecm: byte == 0x03 }
    } else if byte == 0x04 {
        FrameType::ResetStream
    } else if byte == 0x05 {
        FrameType::StopSending
    } else if byte == 0x06 {
        FrameType::Crypto
    } else if byte == 0x07 {
        FrameType::NewToken
    } else if 0x08 <= byte <= 0x0f {
        FrameType::Stream {
            off_flag: byte & 0x04 != 0,
            len_flag: byte & 0x02 != 0,
            fin_flag: byte & 0x01 != 0,
        }
    } else if byte == 0x10 {
        FrameType::MaxData
    } else if byte == 0x11 {
        FrameType::MaxStreamData
    } else if byte == 0x12 || byte == 0x13 {
        FrameType::MaxStreams { bidi_flag: byte == 0x12 }
    } else if byte == 0x14 {
        FrameType::DataBlocked
    } else if byte == 0x15 {
        FrameType::StreamDataBlocked
    } else if byte == 0x16 || byte == 0x17 {
        FrameType::StreamsBlocked { bidi_flag: byte == 0x16 }
    } else if byte == 0x18 {
        FrameType::NewConnectionID
    } else if byte == 0x19 {
        FrameType::RetireConnectionID
    } else if byte == 0x1a {
        FrameType::PathChallenge
    } else if byte == 0x1b {
        FrameType::PathResponse
    } else if byte == 0x1c || byte == 0x1d {
        FrameType::ConnectionClose { sys_err: byte == 0x1c }
    } else if byte == 0x1e {
        FrameType::HandshakeDone
    } else {
        FrameType::Extension { type_byte: byte }
    }
}

/// The STREAM tag for the given flags.
pub open spec fn stream_tag(off_flag: bool, len_flag: bool, fin_flag: bool) -> u8 {
    (0x08 + (if off_flag { 0x04u8 } else { 0 }) + (if len_flag { 0x02u8 } else { 0 }) + (if fin_flag {
        0x01u8
    } else {
        0
    })) as u8
}

/// The tag byte of a kind.
pub open spec fn tag_of(t: FrameType) -> u8 {
    match t {
        FrameType::Padding => 0x00,
        FrameType::Ping => 0x01,
        FrameType::Ack { with_ecm } => if with_ecm { 0x03 } else { 0x02 },
        FrameType::ResetStream => 0x04,
        FrameType::StopSending => 0x05,
        FrameType::Crypto => 0x06,
        FrameType::NewToken => 0x07,
        FrameType::Stream { off_flag, len_flag, fin_flag } => stream_tag(off_flag, len_flag, fin_flag),
        FrameType::MaxData => 0x10,
        FrameType::MaxStreamData => 0x11,
        FrameType::MaxStreams { bidi_flag } => if bidi_flag { 0x12 } else { 0x13 },
        FrameType::DataBlocked => 0x14,
        FrameType::StreamDataBlocked => 0x15,
        FrameType::StreamsBlocked { bidi_flag } => if bidi_flag { 0x16 } else { 0x17 },
        FrameType::NewConnectionID => 0x18,
        FrameType::RetireConnectionID => 0x19,
        FrameType::PathChallenge => 0x1a,
        FrameType::PathResponse => 0x1b,
        FrameType::ConnectionClose { sys_err } => if sys_err { 0x1c } else { 0x1d },
        FrameType::HandshakeDone => 0x1e,
        FrameType::Extension { type_byte } => type_byte,
    }
}

impl FrameType {
    /// A kind that some tag byte selects: an `Extension` carries a byte that
    /// no known kind uses.
    pub open spec fn wf(self) -> bool {
        match self {
            FrameType::Extension { type_byte } => type_byte >= 0x1f,
            _ => true,
        }
    }
}

impl From<u8> for FrameType {
    fn from(byte: u8) -> (r: FrameType)
        ensures
            r == frame_type_of(byte),
    {
        match byte {
            0x00 => FrameType::Padding,
            0x01 => FrameType::Ping,
            0x02..=0x03 => FrameType::Ack { with_ecm: byte == 0x03 },
            0x04 => FrameType::ResetStream,
            0x05 => FrameType::StopSending,
            0x06 => FrameType::Crypto,
            0x07 => FrameType::NewToken,
            0x08..=0x0f => FrameType::Stream {
                off_flag: (byte & 0x04) != 0,
                len_flag: (byte & 0x02) != 0,
                fin_flag: (byte & 0x01) != 0,
            },
            0x10 => FrameType::MaxData,
            0x11 => FrameType::MaxStreamData,
            0x12..=0x13 => FrameType::MaxStreams { bidi_flag: byte == 0x12 },
            0x14 => FrameType::DataBlocked,
            0x15 => FrameType::StreamDataBlocked,
            0x16..=0x17 => FrameType::StreamsBlocked { bidi_flag: byte == 0x16 },
            0x18 => FrameType::NewConnectionID,
            0x19 => FrameType::RetireConnectionID,
            0x1a => FrameType::PathChallenge,
            0x1b => FrameType::PathResponse,
            0x1c..=0x1d => FrameType::ConnectionClose { sys_err: byte == 0x1c },
            0x1e => FrameType::HandshakeDone,
            _ => FrameType::Extension { type_byte: byte },
        }
    }
}

impl vstd::std_specs::convert::FromSpecImpl<u8> for FrameType {
    open spec fn obeys_from_spec() -> bool {
        true
    }

    open spec fn from_spec(byte: u8) -> FrameType {
        frame_type_of(byte)
    }
}

impl From<FrameType> for u8 {
    fn from(frame: FrameType) -> (r: u8)
        ensures
            r == tag_of(frame),
    {
        match frame {
            FrameType::Padding => 0x00,
            FrameType::Ping => 0x01,
            FrameType::Ack { with_ecm: false } => 0x02,
            FrameType::Ack { with_ecm: true } => 0x03,
            FrameType::ResetStream => 0x04,
            FrameType::StopSending => 0x05,
            FrameType::Crypto => 0x06,
            FrameType::NewToken => 0x07,
            FrameType::Stream { off_flag, len_flag, fin_flag } => {
                let off: u8 = if off_flag { 0x04 } else { 0x00 };
                let len: u8 = if len_flag { 0x02 } else { 0x00 };
                let fin: u8 = if fin_flag { 0x01 } else { 0x00 };
                assert(0x08u8 | off | len | fin == 0x08u8 + off + len + fin) by (bit_vector)
                    requires
                        off == 0 || off == 4,
                        len == 0 || len == 2,
                        fin == 0 || fin == 1,
                ;
                0x08 | off | len | fin
            },
            FrameType::MaxData => 0x10,
            FrameType::MaxStreamData => 0x11,
            FrameType::MaxStreams { bidi_flag: true } => 0x12,
            FrameType::MaxStreams { bidi_flag: false } => 0x13,
            FrameType::DataBlocked => 0x14,
            FrameType::StreamDataBlocked => 0x15,
            FrameType::StreamsBlocked { bidi_flag: true } => 0x16,
            FrameType::StreamsBlocked { bidi_flag: false } => 0x17,
            FrameType::NewConnectionID => 0x18,
            FrameType::RetireConnectionID => 0x19,
            FrameType::PathChallenge => 0x1a,
            FrameType::PathResponse => 0x1b,
            FrameType::ConnectionClose { sys_err: true } => 0x1c,
            FrameType::ConnectionClose { sys_err: false } => 0x1d,
            FrameType::HandshakeDone => 0x1e,
            FrameType::Extension { type_byte } => type_byte,
        }
    }
}

impl vstd::std_specs::convert::FromSpecImpl<FrameType> for u8 {
    open spec fn obeys_from_spec() -> bool {
        true
    }

    open spec fn from_spec(frame: FrameType) -> u8 {
        tag_of(frame)
    }
}

/// Re-encoding the kind that a byte selects gives back that byte, for all
/// 256 bytes; and the kind is one that `wf` admits.
pub proof fn lemma_tag_round_trip(byte: u8)
    ensures
        tag_of(frame_type_of(byte)) == byte,
        frame_type_of(byte).wf(),
{
    if 0x08 <= byte <= 0x0f {
        let off: u8 = if byte & 0x04 != 0 { 0x04 } else { 0 };
        let len: u8 = if byte & 0x02 != 0 { 0x02 } else { 0 };
        let fin: u8 = if byte & 0x01 != 0 { 0x01 } else { 0 };
        assert(0x08u8 + off + len + fin == byte) by (bit_vector)
            requires
                0x08 <= byte <= 0x0f,
                off == (if byte & 0x04 != 0 { 0x04u8 } else { 0u8 }),
                len == (if byte & 0x02 != 0 { 0x02u8 } else { 0u8 }),
                fin == (if byte & 0x01 != 0 { 0x01u8 } else { 0u8 }),
        ;
    }
}

/// Decoding the tag of a kind gives back that kind, flags included.
pub proof fn lemma_frame_type_round_trip(t: FrameType)
    requires
        t.wf(),
    ensures
        frame_type_of(tag_of(t)) == t,
{
    match t {
        FrameType::Stream { off_flag, len_flag, fin_flag } => {
            let b = tag_of(t);
            let off: u8 = if off_flag { 0x04 } else { 0 };
            let len: u8 = if len_flag { 0x02 } else { 0 };
            let fin: u8 = if fin_flag { 0x01 } else { 0 };
            assert(b == 0x08u8 + off + len + fin);
            assert(((b & 0x04) != 0) == (off == 4) && ((b & 0x02) != 0) == (len == 2) && ((b
                & 0x01) != 0) == (fin == 1)) by (bit_vector)
                requires
                    b == 0x08u8 + off + len + fin,
                    off == 0 || off == 4,
                    len == 0 || len == 2,
                    fin == 0 || fin == 1,
            ;
        },
        _ => {},
    }
}

} // verus!
