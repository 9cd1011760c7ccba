//! STREAMS_BLOCKED frame: the sender cannot open a stream because of the peer's stream limit.
use vstd::prelude::*;
use crate::error::CodecError;
use crate::frame::types::{tag_of, FrameType};
use crate::varint::{
    lemma_varint_round_trip, read_varint, spec_read_varint, varint_bytes, write_varint, VARINT_MAX,
};

verus! {

/// STREAMS_BLOCKED frame: the sender cannot open a stream because of the peer's stream limit.
///
/// On the wire: the tag (the bidirectional one when `bidi_flag` is set),
/// then `maximum_streams` as a variable-length integer.
pub struct StreamsBlockedFrame {
    bidi_flag: bool,
    maximum_streams: u64,
}

/// The content of a [`StreamsBlockedFrame`].
pub struct StreamsBlockedFrameModel {
    /// Whether the frame is about bidirectional streams.
    pub bidi_flag: bool,
    /// The stream limit at which the sender is blocked.
    pub maximum_streams: u64,
}

impl View for StreamsBlockedFrame {
    type V = StreamsBlockedFrameModel;

    closed spec fn view(&self) -> StreamsBlockedFrameModel {
        StreamsBlockedFrameModel {
            bidi_flag: self.bidi_flag,
            maximum_streams: self.maximum_streams,
        }
    }
}

impl StreamsBlockedFrameModel {
    /// Every field fits a variable-length integer.
    pub open spec fn encodable(self) -> bool {
        self.maximum_streams <= VARINT_MAX
    }

    /// The bytes that follow the tag.
    pub open spec fn payload(self) -> Seq<u8> {
        varint_bytes(self.maximum_streams as nat)
    }

    /// The whole frame: the tag, then the payload.
    pub open spec fn encode(self) -> Seq<u8> {
        seq![tag_of(FrameType::StreamsBlocked { bidi_flag: self.bidi_flag })] + self.payload()
    }

    /// What a decoder makes of `s`, the bytes after the tag: the frame and
    /// the number of bytes it used.
    pub open spec fn parse(bidi_flag: bool, s: Seq<u8>) -> Result<(Self, nat), CodecError> {
        match spec_read_varint(s, 0) {
            Err(e) => Err(e),
            Ok(v0) => Ok(
                (
                    StreamsBlockedFrameModel { bidi_flag, maximum_streams: v0.value },
                    v0.size as nat,
                ),
            ),
        }
    }
}

impl StreamsBlockedFrame {
    /// A frame with the given direction and a limit of 0.
    pub fn new(bidi_flag: bool) -> (r: Self)
        ensures
            r@ == (StreamsBlockedFrameModel { bidi_flag, maximum_streams: 0 }),
    {
        StreamsBlockedFrame { bidi_flag, maximum_streams: 0 }
    }

    /// Whether the frame is about bidirectional streams.
    pub fn is_bidi(&self) -> (r: bool)
        ensures
            r == self@.bidi_flag,
    {
        self.bidi_flag
    }

    /// Sets whether the frame is about bidirectional streams.
    pub fn set_bidi(&mut self, bidi_flag: bool)
        ensures
            final(self)@ == (StreamsBlockedFrameModel { bidi_flag, ..old(self)@ }),
    {
        self.bidi_flag = bidi_flag;
    }

    /// The stream limit at which the sender is blocked.
    pub fn get_maximum_streams(&self) -> (r: u64)
        ensures
            r == self@.maximum_streams,
    {
        self.maximum_streams
    }

    /// Sets the stream limit at which the sender is blocked.
    pub fn set_maximum_streams(&mut self, maximum_streams: u64)
        ensures
            final(self)@ == (StreamsBlockedFrameModel { maximum_streams, ..old(self)@ }),
    {
        self.maximum_streams = maximum_streams;
    }

    /// Appends the frame, tag first, and returns the number of bytes
    /// written. A field above `2^62 - 1` is refused and `out` is left as it
    /// was.
    pub fn write(&self, out: &mut Vec<u8>) -> (r: Result<usize, CodecError>)
        ensures
            self@.encodable() ==> r == Ok::<usize, CodecError>(self@.encode().len() as usize)
                && final(out)@ == old(out)@ + self@.encode(),
            !self@.encodable() ==> r == Err::<usize, CodecError>(CodecError::OutOfRange)
                && final(out)@ == old(out)@,
    {
        if self.maximum_streams > VARINT_MAX {
            return Err(CodecError::OutOfRange);
        }
        let start = out.len();
        out.push(u8::from(FrameType::StreamsBlocked { bidi_flag: self.bidi_flag }));
        write_varint(self.maximum_streams, out)?;
        assert(out@ =~= old(out)@ + self@.encode());
        Ok(out.len() - start)
    }

    /// Decodes the fields from `input`, which starts right after the tag,
    /// and returns the number of bytes used. On failure the frame is left
    /// as it was.
    pub fn read(&mut self, input: &[u8]) -> (r: Result<usize, CodecError>)
        ensures
            match StreamsBlockedFrameModel::parse(old(self)@.bidi_flag, input@) {
                Ok((m, n)) => r == Ok::<usize, CodecError>(n as usize) && final(self)@ == m && n
                    <= input@.len(),
                Err(e) => r == Err::<usize, CodecError>(e) && final(self)@ == old(self)@,
            },
    {
        let maximum_streams = read_varint(input, 0)?;
        self.maximum_streams = maximum_streams.value;
        Ok(maximum_streams.size)
    }
}

/// Decoding the payload that the encoder wrote gives back the same frame
/// and uses exactly the payload, whatever follows it.
pub proof fn lemma_streams_blocked_round_trip(m: StreamsBlockedFrameModel, rest: Seq<u8>)
    requires
        m.encodable(),
    ensures
        StreamsBlockedFrameModel::parse(m.bidi_flag, m.payload() + rest)
            == Ok::<(StreamsBlockedFrameModel, nat), CodecError>((m, m.payload().len())),
{
    let b0 = varint_bytes(m.maximum_streams as nat);
    let s = m.payload() + rest;
    lemma_varint_round_trip(m.maximum_streams, Seq::<u8>::empty(), rest);
    assert(s =~= Seq::<u8>::empty() + b0 + rest);
}

} // verus!
