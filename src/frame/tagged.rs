//! Frames of any kind: a sum type over the frame kinds, decoded in two
//! phases (the tag byte selects the kind and its flags, then the kind's own
//! decoder reads the rest) and encoded by the kind's own encoder.
use vstd::prelude::*;
use vstd::slice::slice_subrange;
use crate::error::CodecError;
use crate::frame::ack::{lemma_ack_round_trip, ACKFrame, ACKFrameModel};
use crate::frame::reset_stream::{
    lemma_reset_stream_round_trip, ResetStreamFrame, ResetStreamFrameModel,
};
use crate::frame::stop_sending::{
    lemma_stop_sending_round_trip, StopSendingFrame, StopSendingFrameModel,
};
use crate::frame::crypto::{lemma_crypto_round_trip, CryptoFrame, CryptoFrameModel};
use crate::frame::new_token::{lemma_new_token_round_trip, NewTokenFrame, NewTokenFrameModel};
use crate::frame::stream::{lemma_stream_round_trip, StreamFrame, StreamFrameModel};
use crate::frame::max_data::{lemma_max_data_round_trip, MaxDataFrame, MaxDataFrameModel};
use crate::frame::max_stream_data::{
    lemma_max_stream_data_round_trip, MaxStreamDataFrame, MaxStreamDataFrameModel,
};
use crate::frame::max_streams::{
    lemma_max_streams_round_trip, MaxStreamsFrame, MaxStreamsFrameModel,
};
use crate::frame::data_blocked::{
    lemma_data_blocked_round_trip, DataBlockedFrame, DataBlockedFrameModel,
};
use crate::frame::stream_data_blocked::{
    lemma_stream_data_blocked_round_trip, StreamDataBlockedFrame, StreamDataBlockedFrameModel,
};
use crate::frame::streams_blocked::{
    lemma_streams_blocked_round_trip, StreamsBlockedFrame, StreamsBlockedFrameModel,
};
use crate::frame::new_connection_id::{
    lemma_new_connection_id_round_trip, NewConnectionIDFrame, NewConnectionIDFrameModel,
};
use crate::frame::retire_connection_id::{
    lemma_retire_connection_id_round_trip, RetireConnectionIDFrame, RetireConnectionIDFrameModel,
};
use crate::frame::path_challenge::{PathChallengeFrame, PathChallengeFrameModel};
use crate::frame::path_response::{PathResponseFrame, PathResponseFrameModel};
use crate::frame::connection_close::{
    lemma_connection_close_round_trip, ConnectionCloseFrame, ConnectionCloseFrameModel,
};
use crate::frame::types::{frame_type_of, lemma_frame_type_round_trip, tag_of, FrameType};
use crate::conn_id::MAX_CONN_ID_LEN;
use crate::frame::new_connection_id::RESET_TOKEN_LEN;

verus! {

/// A frame of any kind.
pub enum Frame {
    /// PADDING: no payload.
    Padding,
    /// PING: no payload.
    Ping,
    Ack(ACKFrame),
    ResetStream(ResetStreamFrame),
    StopSending(StopSendingFrame),
    Crypto(CryptoFrame),
    NewToken(NewTokenFrame),
    Stream(StreamFrame),
    MaxData(MaxDataFrame),
    MaxStreamData(MaxStreamDataFrame),
    MaxStreams(MaxStreamsFrame),
    DataBlocked(DataBlockedFrame),
    StreamDataBlocked(StreamDataBlockedFrame),
    StreamsBlocked(StreamsBlockedFrame),
    NewConnectionID(NewConnectionIDFrame),
    RetireConnectionID(RetireConnectionIDFrame),
    PathChallenge(PathChallengeFrame),
    PathResponse(PathResponseFrame),
    ConnectionClose(ConnectionCloseFrame),
    /// HANDSHAKE_DONE: no payload.
    HandshakeDone,
    /// A frame of a kind this codec does not know; only its tag is read
    /// and written, the rest is left to the caller.
    Extension(u8),
}

/// The content of a [`Frame`].
pub enum FrameModel {
    Padding,
    Ping,
    Ack(ACKFrameModel),
    ResetStream(ResetStreamFrameModel),
    StopSending(StopSendingFrameModel),
    Crypto(CryptoFrameModel),
    NewToken(NewTokenFrameModel),
    Stream(StreamFrameModel),
    MaxData(MaxDataFrameModel),
    MaxStreamData(MaxStreamDataFrameModel),
    MaxStreams(MaxStreamsFrameModel),
    DataBlocked(DataBlockedFrameModel),
    StreamDataBlocked(StreamDataBlockedFrameModel),
    StreamsBlocked(StreamsBlockedFrameModel),
    NewConnectionID(NewConnectionIDFrameModel),
    RetireConnectionID(RetireConnectionIDFrameModel),
    PathChallenge(PathChallengeFrameModel),
    PathResponse(PathResponseFrameModel),
    ConnectionClose(ConnectionCloseFrameModel),
    HandshakeDone,
    Extension(u8),
}

impl View for Frame {
    type V = FrameModel;

    open spec fn view(&self) -> FrameModel {
        match self {
            Frame::Padding => FrameModel::Padding,
            Frame::Ping => FrameModel::Ping,
            Frame::Ack(f) => FrameModel::Ack(f@),
            Frame::ResetStream(f) => FrameModel::ResetStream(f@),
            Frame::StopSending(f) => FrameModel::StopSending(f@),
            Frame::Crypto(f) => FrameModel::Crypto(f@),
            Frame::NewToken(f) => FrameModel::NewToken(f@),
            Frame::Stream(f) => FrameModel::Stream(f@),
            Frame::MaxData(f) => FrameModel::MaxData(f@),
            Frame::MaxStreamData(f) => FrameModel::MaxStreamData(f@),
            Frame::MaxStreams(f) => FrameModel::MaxStreams(f@),
            Frame::DataBlocked(f) => FrameModel::DataBlocked(f@),
            Frame::StreamDataBlocked(f) => FrameModel::StreamDataBlocked(f@),
            Frame::StreamsBlocked(f) => FrameModel::StreamsBlocked(f@),
            Frame::NewConnectionID(f) => FrameModel::NewConnectionID(f@),
            Frame::RetireConnectionID(f) => FrameModel::RetireConnectionID(f@),
            Frame::PathChallenge(f) => FrameModel::PathChallenge(f@),
            Frame::PathResponse(f) => FrameModel::PathResponse(f@),
            Frame::ConnectionClose(f) => FrameModel::ConnectionClose(f@),
            Frame::HandshakeDone => FrameModel::HandshakeDone,
            Frame::Extension(b) => FrameModel::Extension(*b),
        }
    }
}

impl FrameModel {
    /// Every number the frame sends fits its encoding.
    pub open spec fn encodable(self) -> bool {
        match self {
            FrameModel::Ack(m) => m.encodable(),
            FrameModel::ResetStream(m) => m.encodable(),
            FrameModel::StopSending(m) => m.encodable(),
            FrameModel::Crypto(m) => m.encodable(),
            FrameModel::NewToken(m) => m.encodable(),
            FrameModel::Stream(m) => m.encodable(),
            FrameModel::MaxData(m) => m.encodable(),
            FrameModel::MaxStreamData(m) => m.encodable(),
            FrameModel::MaxStreams(m) => m.encodable(),
            FrameModel::DataBlocked(m) => m.encodable(),
            FrameModel::StreamDataBlocked(m) => m.encodable(),
            FrameModel::StreamsBlocked(m) => m.encodable(),
            FrameModel::NewConnectionID(m) => m.encodable(),
            FrameModel::RetireConnectionID(m) => m.encodable(),
            FrameModel::ConnectionClose(m) => m.encodable(),
            _ => true,
        }
    }

    /// The bytes of the frame, tag first.
    pub open spec fn encode(self) -> Seq<u8> {
        match self {
            FrameModel::Padding => seq![0x00u8],
            FrameModel::Ping => seq![0x01u8],
            FrameModel::Ack(m) => m.encode(),
            FrameModel::ResetStream(m) => m.encode(),
            FrameModel::StopSending(m) => m.encode(),
            FrameModel::Crypto(m) => m.encode(),
            FrameModel::NewToken(m) => m.encode(),
            FrameModel::Stream(m) => m.encode(),
            FrameModel::MaxData(m) => m.encode(),
            FrameModel::MaxStreamData(m) => m.encode(),
            FrameModel::MaxStreams(m) => m.encode(),
            FrameModel::DataBlocked(m) => m.encode(),
            FrameModel::StreamDataBlocked(m) => m.encode(),
            FrameModel::StreamsBlocked(m) => m.encode(),
            FrameModel::NewConnectionID(m) => m.encode(),
            FrameModel::RetireConnectionID(m) => m.encode(),
            FrameModel::PathChallenge(m) => m.encode(),
            FrameModel::PathResponse(m) => m.encode(),
            FrameModel::ConnectionClose(m) => m.encode(),
            FrameModel::HandshakeDone => seq![0x1eu8],
            FrameModel::Extension(b) => seq![b],
        }
    }
}

/// What a decoder makes of `s`, which starts with a tag byte: the frame
/// and the number of bytes it used, tag included. The tag selects the
/// kind and its flags; the kind's own decoder reads what follows.
pub open spec fn parse_frame(s: Seq<u8>) -> Result<(FrameModel, nat), CodecError> {
    if s.len() == 0 {
        Err(CodecError::Truncated)
    } else {
        let body = s.subrange(1, s.len() as int);
        match frame_type_of(s[0]) {
            FrameType::Padding => Ok((FrameModel::Padding, 1)),
            FrameType::Ping => Ok((FrameModel::Ping, 1)),
            FrameType::Ack { with_ecm } => match ACKFrameModel::parse(with_ecm, body) {
                Ok((m, n)) => Ok((FrameModel::Ack(m), n + 1)),
                Err(e) => Err(e),
            },
            FrameType::ResetStream => match ResetStreamFrameModel::parse(body) {
                Ok((m, n)) => Ok((FrameModel::ResetStream(m), n + 1)),
                Err(e) => Err(e),
            },
            FrameType::StopSending => match StopSendingFrameModel::parse(body) {
                Ok((m, n)) => Ok((FrameModel::StopSending(m), n + 1)),
                Err(e) => Err(e),
            },
            FrameType::Crypto => match CryptoFrameModel::parse(body) {
                Ok((m, n)) => Ok((FrameModel::Crypto(m), n + 1)),
                Err(e) => Err(e),
            },
            FrameType::NewToken => match NewTokenFrameModel::parse(body) {
                Ok((m, n)) => Ok((FrameModel::NewToken(m), n + 1)),
                Err(e) => Err(e),
            },
            FrameType::Stream { off_flag, len_flag, fin_flag } => match StreamFrameModel::parse(
                off_flag,
                len_flag,
                fin_flag,
                body,
            ) {
                Ok((m, n)) => Ok((FrameModel::Stream(m), n + 1)),
                Err(e) => Err(e),
            },
            FrameType::MaxData => match MaxDataFrameModel::parse(body) {
                Ok((m, n)) => Ok((FrameModel::MaxData(m), n + 1)),
                Err(e) => Err(e),
            },
            FrameType::MaxStreamData => match MaxStreamDataFrameModel::parse(body) {
                Ok((m, n)) => Ok((FrameModel::MaxStreamData(m), n + 1)),
                Err(e) => Err(e),
            },
            FrameType::MaxStreams { bidi_flag } => match MaxStreamsFrameModel::parse(
                bidi_flag,
                body,
            ) {
                Ok((m, n)) => Ok((FrameModel::MaxStreams(m), n + 1)),
                Err(e) => Err(e),
            },
            FrameType::DataBlocked => match DataBlockedFrameModel::parse(body) {
                Ok((m, n)) => Ok((FrameModel::DataBlocked(m), n + 1)),
                Err(e) => Err(e),
            },
            FrameType::StreamDataBlocked => match StreamDataBlockedFrameModel::parse(body) {
                Ok((m, n)) => Ok((FrameModel::StreamDataBlocked(m), n + 1)),
                Err(e) => Err(e),
            },
            FrameType::StreamsBlocked { bidi_flag } => match StreamsBlockedFrameModel::parse(
                bidi_flag,
                body,
            ) {
                Ok((m, n)) => Ok((FrameModel::StreamsBlocked(m), n + 1)),
                Err(e) => Err(e),
            },
            FrameType::NewConnectionID => match NewConnectionIDFrameModel::parse(body) {
                Ok((m, n)) => Ok((FrameModel::NewConnectionID(m), n + 1)),
                Err(e) => Err(e),
            },
            FrameType::RetireConnectionID => match RetireConnectionIDFrameModel::parse(body) {
                Ok((m, n)) => Ok((FrameModel::RetireConnectionID(m), n + 1)),
                Err(e) => Err(e),
            },
            FrameType::PathChallenge => match PathChallengeFrameModel::parse(body) {
                Ok((m, n)) => Ok((FrameModel::PathChallenge(m), n + 1)),
                Err(e) => Err(e),
            },
            FrameType::PathResponse => match PathResponseFrameModel::parse(body) {
                Ok((m, n)) => Ok((FrameModel::PathResponse(m), n + 1)),
                Err(e) => Err(e),
            },
            FrameType::ConnectionClose { sys_err } => match ConnectionCloseFrameModel::parse(
                sys_err,
                body,
            ) {
                Ok((m, n)) => Ok((FrameModel::ConnectionClose(m), n + 1)),
                Err(e) => Err(e),
            },
            FrameType::HandshakeDone => Ok((FrameModel::HandshakeDone, 1)),
            FrameType::Extension { type_byte } => Ok((FrameModel::Extension(type_byte), 1)),
        }
    }
}

/// Decodes one frame from the start of `input`: the tag byte first, then
/// the fields that the tag's kind and flags call for. Returns the frame and
/// the number of bytes used, tag included.
#[verifier::spinoff_prover]
#[verifier::rlimit(100)]
pub fn read_frame(input: &[u8]) -> (r: Result<(Frame, usize), CodecError>)
    ensures
        match parse_frame(input@) {
            Ok((m, n)) => r is Ok && (r->Ok_0).0@ == m && (r->Ok_0).1 == n,
            Err(e) => r is Err && r->Err_0 == e,
        },
{
    let len = input.len();
    if len == 0 {
        return Err(CodecError::Truncated);
    }
    let body = slice_subrange(input, 1, len);
    match FrameType::from(input[0]) {
        FrameType::Padding => Ok((Frame::Padding, 1)),
        FrameType::Ping => Ok((Frame::Ping, 1)),
        FrameType::Ack { with_ecm } => {
            let mut f = ACKFrame::new(with_ecm);
            let n = f.read(body)?;
            Ok((Frame::Ack(f), n + 1))
        },
        FrameType::ResetStream => {
            let mut f = ResetStreamFrame::new();
            let n = f.read(body)?;
            Ok((Frame::ResetStream(f), n + 1))
        },
        FrameType::StopSending => {
            let mut f = StopSendingFrame::new();
            let n = f.read(body)?;
            Ok((Frame::StopSending(f), n + 1))
        },
        FrameType::Crypto => {
            let mut f = CryptoFrame::new();
            let n = f.read(body)?;
            Ok((Frame::Crypto(f), n + 1))
        },
        FrameType::NewToken => {
            let mut f = NewTokenFrame::new();
            let n = f.read(body)?;
            Ok((Frame::NewToken(f), n + 1))
        },
        FrameType::Stream { off_flag, len_flag, fin_flag } => {
            let mut f = StreamFrame::new(off_flag, len_flag, fin_flag);
            let n = f.read(body)?;
            Ok((Frame::Stream(f), n + 1))
        },
        FrameType::MaxData => {
            let mut f = MaxDataFrame::new();
            let n = f.read(body)?;
            Ok((Frame::MaxData(f), n + 1))
        },
        FrameType::MaxStreamData => {
            let mut f = MaxStreamDataFrame::new();
            let n = f.read(body)?;
            Ok((Frame::MaxStreamData(f), n + 1))
        },
        FrameType::MaxStreams { bidi_flag } => {
            let mut f = MaxStreamsFrame::new(bidi_flag);
            let n = f.read(body)?;
            Ok((Frame::MaxStreams(f), n + 1))
        },
        FrameType::DataBlocked => {
            let mut f = DataBlockedFrame::new();
            let n = f.read(body)?;
            Ok((Frame::DataBlocked(f), n + 1))
        },
        FrameType::StreamDataBlocked => {
            let mut f = StreamDataBlockedFrame::new();
            let n = f.read(body)?;
            Ok((Frame::StreamDataBlocked(f), n + 1))
        },
        FrameType::StreamsBlocked { bidi_flag } => {
            let mut f = StreamsBlockedFrame::new(bidi_flag);
            let n = f.read(body)?;
            Ok((Frame::StreamsBlocked(f), n + 1))
        },
        FrameType::NewConnectionID => {
            let mut f = NewConnectionIDFrame::new();
            let n = f.read(body)?;
            Ok((Frame::NewConnectionID(f), n + 1))
        },
        FrameType::RetireConnectionID => {
            let mut f = RetireConnectionIDFrame::new();
            let n = f.read(body)?;
            Ok((Frame::RetireConnectionID(f), n + 1))
        },
        FrameType::PathChallenge => {
            let mut f = PathChallengeFrame::new();
            let n = f.read(body)?;
            Ok((Frame::PathChallenge(f), n + 1))
        },
        FrameType::PathResponse => {
            let mut f = PathResponseFrame::new();
            let n = f.read(body)?;
            Ok((Frame::PathResponse(f), n + 1))
        },
        FrameType::ConnectionClose { sys_err } => {
            let mut f = ConnectionCloseFrame::new(sys_err);
            let n = f.read(body)?;
            Ok((Frame::ConnectionClose(f), n + 1))
        },
        FrameType::HandshakeDone => Ok((Frame::HandshakeDone, 1)),
        FrameType::Extension { type_byte } => Ok((Frame::Extension(type_byte), 1)),
    }
}

/// Appends `frame`, tag first, and returns the number of bytes written. A
/// number too large for its encoding is refused and `out` is left as it
/// was.
pub fn write_frame(frame: &Frame, out: &mut Vec<u8>) -> (r: Result<usize, CodecError>)
    ensures
        frame@.encodable() ==> r == Ok::<usize, CodecError>(frame@.encode().len() as usize)
            && final(out)@ == old(out)@ + frame@.encode(),
        !frame@.encodable() ==> r == Err::<usize, CodecError>(CodecError::OutOfRange)
            && final(out)@ == old(out)@,
{
    match frame {
        Frame::Padding => {
            out.push(u8::from(FrameType::Padding));
            Ok(1)
        },
        Frame::Ping => {
            out.push(u8::from(FrameType::Ping));
            Ok(1)
        },
        Frame::Ack(f) => f.write(out),
        Frame::ResetStream(f) => f.write(out),
        Frame::StopSending(f) => f.write(out),
        Frame::Crypto(f) => f.write(out),
        Frame::NewToken(f) => f.write(out),
        Frame::Stream(f) => f.write(out),
        Frame::MaxData(f) => f.write(out),
        Frame::MaxStreamData(f) => f.write(out),
        Frame::MaxStreams(f) => f.write(out),
        Frame::DataBlocked(f) => f.write(out),
        Frame::StreamDataBlocked(f) => f.write(out),
        Frame::StreamsBlocked(f) => f.write(out),
        Frame::NewConnectionID(f) => f.write(out),
        Frame::RetireConnectionID(f) => f.write(out),
        Frame::PathChallenge(f) => Ok(f.write(out)),
        Frame::PathResponse(f) => Ok(f.write(out)),
        Frame::ConnectionClose(f) => f.write(out),
        Frame::HandshakeDone => {
            out.push(u8::from(FrameType::HandshakeDone));
            Ok(1)
        },
        Frame::Extension(type_byte) => {
            out.push(*type_byte);
            Ok(1)
        },
    }
}

impl FrameModel {
    /// A frame that a decoder can give back: fields that are not sent hold
    /// what a decoder fills in (0), a connection ID holds 1 to 20 bytes, the
    /// fixed-size fields have their sizes, and an extension carries a tag that
    /// no known kind uses.
    pub open spec fn wf(self) -> bool {
        match self {
            FrameModel::Stream(m) => !m.off_flag ==> m.offset == 0,
            FrameModel::ConnectionClose(m) => !m.sys_err ==> m.frame_type == 0,
            FrameModel::NewConnectionID(m) => 1 <= m.connection_id.len() <= MAX_CONN_ID_LEN
                && m.reset_token.len() == RESET_TOKEN_LEN,
            FrameModel::PathChallenge(m) => m.data.len() == 8,
            FrameModel::PathResponse(m) => m.data.len() == 8,
            FrameModel::Extension(b) => b >= 0x1f,
            _ => true,
        }
    }
}

/// Decoding what the encoder wrote for a frame gives back the same frame
/// and uses exactly its bytes, whatever follows. The one exception is a
/// STREAM frame without a length, whose data runs to the end of the input:
/// it reads back as written when nothing follows it.
pub proof fn lemma_frame_round_trip(m: FrameModel, rest: Seq<u8>)
    requires
        m.encodable(),
        m.wf(),
        m matches FrameModel::Stream(f) && !f.len_flag ==> rest.len() == 0,
    ensures
        parse_frame(m.encode() + rest) == Ok::<(FrameModel, nat), CodecError>(
            (m, m.encode().len()),
        ),
{
    let s = m.encode() + rest;
    match m {
        FrameModel::Padding => {
            assert(s[0] == 0x00u8);
        },
        FrameModel::Ping => {
            assert(s[0] == 0x01u8);
        },
        FrameModel::HandshakeDone => {
            assert(s[0] == 0x1eu8);
        },
        FrameModel::Ack(f) => lemma_ack_frame_round_trip(f, rest),
        FrameModel::ResetStream(f) => lemma_reset_stream_frame_round_trip(f, rest),
        FrameModel::StopSending(f) => lemma_stop_sending_frame_round_trip(f, rest),
        FrameModel::Crypto(f) => lemma_crypto_frame_round_trip(f, rest),
        FrameModel::NewToken(f) => lemma_new_token_frame_round_trip(f, rest),
        FrameModel::Stream(f) => lemma_stream_frame_round_trip(f, rest),
        FrameModel::MaxData(f) => lemma_max_data_frame_round_trip(f, rest),
        FrameModel::MaxStreamData(f) => lemma_max_stream_data_frame_round_trip(f, rest),
        FrameModel::MaxStreams(f) => lemma_max_streams_frame_round_trip(f, rest),
        FrameModel::DataBlocked(f) => lemma_data_blocked_frame_round_trip(f, rest),
        FrameModel::StreamDataBlocked(f) => lemma_stream_data_blocked_frame_round_trip(f, rest),
        FrameModel::StreamsBlocked(f) => lemma_streams_blocked_frame_round_trip(f, rest),
        FrameModel::NewConnectionID(f) => lemma_new_connection_id_frame_round_trip(f, rest),
        FrameModel::RetireConnectionID(f) => lemma_retire_connection_id_frame_round_trip(f, rest),
        FrameModel::PathChallenge(f) => lemma_path_challenge_frame_round_trip(f, rest),
        FrameModel::PathResponse(f) => lemma_path_response_frame_round_trip(f, rest),
        FrameModel::ConnectionClose(f) => lemma_connection_close_frame_round_trip(f, rest),
        FrameModel::Extension(b) => {
            lemma_frame_type_round_trip(FrameType::Extension { type_byte: b });
        },
    }
}

/// What follows the tag byte of a frame is its payload, then whatever
/// follows the frame.
proof fn lemma_after_tag(tag: u8, payload: Seq<u8>, rest: Seq<u8>)
    ensures
        (seq![tag] + payload + rest).subrange(1, (seq![tag] + payload + rest).len() as int)
            == payload + rest,
{
    assert((seq![tag] + payload + rest).subrange(1, (seq![tag] + payload + rest).len() as int)
        =~= payload + rest);
}

#[verifier::spinoff_prover]
proof fn lemma_ack_frame_round_trip(f: ACKFrameModel, rest: Seq<u8>)
    requires
        FrameModel::Ack(f).encodable(),
        FrameModel::Ack(f).wf(),
    ensures
        ({
            let m = FrameModel::Ack(f);
            parse_frame(m.encode() + rest) == Ok::<(FrameModel, nat), CodecError>(
                (m, m.encode().len()),
            )
        }),
{
    let s = f.encode() + rest;
    let tag = FrameType::Ack { with_ecm: f.ecn is Some };
    lemma_frame_type_round_trip(tag);
    lemma_after_tag(tag_of(tag), f.payload(), rest);
    lemma_ack_round_trip(f, rest);
}

#[verifier::spinoff_prover]
proof fn lemma_reset_stream_frame_round_trip(f: ResetStreamFrameModel, rest: Seq<u8>)
    requires
        FrameModel::ResetStream(f).encodable(),
        FrameModel::ResetStream(f).wf(),
    ensures
        ({
            let m = FrameModel::ResetStream(f);
            parse_frame(m.encode() + rest) == Ok::<(FrameModel, nat), CodecError>(
                (m, m.encode().len()),
            )
        }),
{
    let s = f.encode() + rest;
    let tag = FrameType::ResetStream;
    lemma_frame_type_round_trip(tag);
    lemma_after_tag(tag_of(tag), f.payload(), rest);
    lemma_reset_stream_round_trip(f, rest);
}

#[verifier::spinoff_prover]
proof fn lemma_stop_sending_frame_round_trip(f: StopSendingFrameModel, rest: Seq<u8>)
    requires
        FrameModel::StopSending(f).encodable(),
        FrameModel::StopSending(f).wf(),
    ensures
        ({
            let m = FrameModel::StopSending(f);
            parse_frame(m.encode() + rest) == Ok::<(FrameModel, nat), CodecError>(
                (m, m.encode().len()),
            )
        }),
{
    let s = f.encode() + rest;
    let tag = FrameType::StopSending;
    lemma_frame_type_round_trip(tag);
    lemma_after_tag(tag_of(tag), f.payload(), rest);
    lemma_stop_sending_round_trip(f, rest);
}

#[verifier::spinoff_prover]
proof fn lemma_crypto_frame_round_trip(f: CryptoFrameModel, rest: Seq<u8>)
    requires
        FrameModel::Crypto(f).encodable(),
        FrameModel::Crypto(f).wf(),
    ensures
        ({
            let m = FrameModel::Crypto(f);
            parse_frame(m.encode() + rest) == Ok::<(FrameModel, nat), CodecError>(
                (m, m.encode().len()),
            )
        }),
{
    let s = f.encode() + rest;
    let tag = FrameType::Crypto;
    lemma_frame_type_round_trip(tag);
    lemma_after_tag(tag_of(tag), f.payload(), rest);
    lemma_crypto_round_trip(f, rest);
}

#[verifier::spinoff_prover]
proof fn lemma_new_token_frame_round_trip(f: NewTokenFrameModel, rest: Seq<u8>)
    requires
        FrameModel::NewToken(f).encodable(),
        FrameModel::NewToken(f).wf(),
    ensures
        ({
            let m = FrameModel::NewToken(f);
            parse_frame(m.encode() + rest) == Ok::<(FrameModel, nat), CodecError>(
                (m, m.encode().len()),
            )
        }),
{
    let s = f.encode() + rest;
    let tag = FrameType::NewToken;
    lemma_frame_type_round_trip(tag);
    lemma_after_tag(tag_of(tag), f.payload(), rest);
    lemma_new_token_round_trip(f, rest);
}

#[verifier::spinoff_prover]
proof fn lemma_stream_frame_round_trip(f: StreamFrameModel, rest: Seq<u8>)
    requires
        FrameModel::Stream(f).encodable(),
        FrameModel::Stream(f).wf(),
        !f.len_flag ==> rest.len() == 0,
    ensures
        ({
            let m = FrameModel::Stream(f);
            parse_frame(m.encode() + rest) == Ok::<(FrameModel, nat), CodecError>(
                (m, m.encode().len()),
            )
        }),
{
    let s = f.encode() + rest;
    let tag = FrameType::Stream {
        off_flag: f.off_flag,
        len_flag: f.len_flag,
        fin_flag: f.fin_flag,
    };
    lemma_frame_type_round_trip(tag);
    lemma_after_tag(tag_of(tag), f.payload(), rest);
    lemma_stream_round_trip(f, rest);
    if !f.len_flag {
        assert(f.data + rest =~= f.data);
        assert((StreamFrameModel { data: f.data + rest, ..f }) == f);
        assert(s.subrange(1, s.len() as int) == f.payload());
    }
}

#[verifier::spinoff_prover]
proof fn lemma_max_data_frame_round_trip(f: MaxDataFrameModel, rest: Seq<u8>)
    requires
        FrameModel::MaxData(f).encodable(),
        FrameModel::MaxData(f).wf(),
    ensures
        ({
            let m = FrameModel::MaxData(f);
            parse_frame(m.encode() + rest) == Ok::<(FrameModel, nat), CodecError>(
                (m, m.encode().len()),
            )
        }),
{
    let s = f.encode() + rest;
    let tag = FrameType::MaxData;
    lemma_frame_type_round_trip(tag);
    lemma_after_tag(tag_of(tag), f.payload(), rest);
    lemma_max_data_round_trip(f, rest);
}

#[verifier::spinoff_prover]
proof fn lemma_max_stream_data_frame_round_trip(f: MaxStreamDataFrameModel, rest: Seq<u8>)
    requires
        FrameModel::MaxStreamData(f).encodable(),
        FrameModel::MaxStreamData(f).wf(),
    ensures
        ({
            let m = FrameModel::MaxStreamData(f);
            parse_frame(m.encode() + rest) == Ok::<(FrameModel, nat), CodecError>(
                (m, m.encode().len()),
            )
        }),
{
    let s = f.encode() + rest;
    let tag = FrameType::MaxStreamData;
    lemma_frame_type_round_trip(tag);
    lemma_after_tag(tag_of(tag), f.payload(), rest);
    lemma_max_stream_data_round_trip(f, rest);
}

#[verifier::spinoff_prover]
proof fn lemma_max_streams_frame_round_trip(f: MaxStreamsFrameModel, rest: Seq<u8>)
    requires
        FrameModel::MaxStreams(f).encodable(),
        FrameModel::MaxStreams(f).wf(),
    ensures
        ({
            let m = FrameModel::MaxStreams(f);
            parse_frame(m.encode() + rest) == Ok::<(FrameModel, nat), CodecError>(
                (m, m.encode().len()),
            )
        }),
{
    let s = f.encode() + rest;
    let tag = FrameType::MaxStreams { bidi_flag: f.bidi_flag };
    lemma_frame_type_round_trip(tag);
    lemma_after_tag(tag_of(tag), f.payload(), rest);
    lemma_max_streams_round_trip(f, rest);
}

#[verifier::spinoff_prover]
proof fn lemma_data_blocked_frame_round_trip(f: DataBlockedFrameModel, rest: Seq<u8>)
    requires
        FrameModel::DataBlocked(f).encodable(),
        FrameModel::DataBlocked(f).wf(),
    ensures
        ({
            let m = FrameModel::DataBlocked(f);
            parse_frame(m.encode() + rest) == Ok::<(FrameModel, nat), CodecError>(
                (m, m.encode().len()),
            )
        }),
{
    let s = f.encode() + rest;
    let tag = FrameType::DataBlocked;
    lemma_frame_type_round_trip(tag);
    lemma_after_tag(tag_of(tag), f.payload(), rest);
    lemma_data_blocked_round_trip(f, rest);
}

#[verifier::spinoff_prover]
proof fn lemma_stream_data_blocked_frame_round_trip(f: StreamDataBlockedFrameModel, rest: Seq<u8>)
    requires
        FrameModel::StreamDataBlocked(f).encodable(),
        FrameModel::StreamDataBlocked(f).wf(),
    ensures
        ({
            let m = FrameModel::StreamDataBlocked(f);
            parse_frame(m.encode() + rest) == Ok::<(FrameModel, nat), CodecError>(
                (m, m.encode().len()),
            )
        }),
{
    let s = f.encode() + rest;
    let tag = FrameType::StreamDataBlocked;
    lemma_frame_type_round_trip(tag);
    lemma_after_tag(tag_of(tag), f.payload(), rest);
    lemma_stream_data_blocked_round_trip(f, rest);
}

#[verifier::spinoff_prover]
proof fn lemma_streams_blocked_frame_round_trip(f: StreamsBlockedFrameModel, rest: Seq<u8>)
    requires
        FrameModel::StreamsBlocked(f).encodable(),
        FrameModel::StreamsBlocked(f).wf(),
    ensures
        ({
            let m = FrameModel::StreamsBlocked(f);
            parse_frame(m.encode() + rest) == Ok::<(FrameModel, nat), CodecError>(
                (m, m.encode().len()),
            )
        }),
{
    let s = f.encode() + rest;
    let tag = FrameType::StreamsBlocked { bidi_flag: f.bidi_flag };
    lemma_frame_type_round_trip(tag);
    lemma_after_tag(tag_of(tag), f.payload(), rest);
    lemma_streams_blocked_round_trip(f, rest);
}

#[verifier::spinoff_prover]
proof fn lemma_new_connection_id_frame_round_trip(f: NewConnectionIDFrameModel, rest: Seq<u8>)
    requires
        FrameModel::NewConnectionID(f).encodable(),
        FrameModel::NewConnectionID(f).wf(),
    ensures
        ({
            let m = FrameModel::NewConnectionID(f);
            parse_frame(m.encode() + rest) == Ok::<(FrameModel, nat), CodecError>(
                (m, m.encode().len()),
            )
        }),
{
    let s = f.encode() + rest;
    let tag = FrameType::NewConnectionID;
    lemma_frame_type_round_trip(tag);
    lemma_after_tag(tag_of(tag), f.payload(), rest);
    lemma_new_connection_id_round_trip(f, rest);
}

#[verifier::spinoff_prover]
proof fn lemma_retire_connection_id_frame_round_trip(f: RetireConnectionIDFrameModel, rest: Seq<u8>)
    requires
        FrameModel::RetireConnectionID(f).encodable(),
        FrameModel::RetireConnectionID(f).wf(),
    ensures
        ({
            let m = FrameModel::RetireConnectionID(f);
            parse_frame(m.encode() + rest) == Ok::<(FrameModel, nat), CodecError>(
                (m, m.encode().len()),
            )
        }),
{
    let s = f.encode() + rest;
    let tag = FrameType::RetireConnectionID;
    lemma_frame_type_round_trip(tag);
    lemma_after_tag(tag_of(tag), f.payload(), rest);
    lemma_retire_connection_id_round_trip(f, rest);
}

#[verifier::spinoff_prover]
proof fn lemma_path_challenge_frame_round_trip(f: PathChallengeFrameModel, rest: Seq<u8>)
    requires
        FrameModel::PathChallenge(f).encodable(),
        FrameModel::PathChallenge(f).wf(),
    ensures
        ({
            let m = FrameModel::PathChallenge(f);
            parse_frame(m.encode() + rest) == Ok::<(FrameModel, nat), CodecError>(
                (m, m.encode().len()),
            )
        }),
{
    let s = f.encode() + rest;
    let tag = FrameType::PathChallenge;
    lemma_frame_type_round_trip(tag);
    assert(s.subrange(1, s.len() as int).subrange(0, 8) =~= f.data);
}

#[verifier::spinoff_prover]
proof fn lemma_path_response_frame_round_trip(f: PathResponseFrameModel, rest: Seq<u8>)
    requires
        FrameModel::PathResponse(f).encodable(),
        FrameModel::PathResponse(f).wf(),
    ensures
        ({
            let m = FrameModel::PathResponse(f);
            parse_frame(m.encode() + rest) == Ok::<(FrameModel, nat), CodecError>(
                (m, m.encode().len()),
            )
        }),
{
    let s = f.encode() + rest;
    let tag = FrameType::PathResponse;
    lemma_frame_type_round_trip(tag);
    assert(s.subrange(1, s.len() as int).subrange(0, 8) =~= f.data);
}

#[verifier::spinoff_prover]
proof fn lemma_connection_close_frame_round_trip(f: ConnectionCloseFrameModel, rest: Seq<u8>)
    requires
        FrameModel::ConnectionClose(f).encodable(),
        FrameModel::ConnectionClose(f).wf(),
    ensures
        ({
            let m = FrameModel::ConnectionClose(f);
            parse_frame(m.encode() + rest) == Ok::<(FrameModel, nat), CodecError>(
                (m, m.encode().len()),
            )
        }),
{
    let s = f.encode() + rest;
    let tag = FrameType::ConnectionClose { sys_err: f.sys_err };
    lemma_frame_type_round_trip(tag);
    lemma_after_tag(tag_of(tag), f.payload(), rest);
    lemma_connection_close_round_trip(f, rest);
}

} // verus!
