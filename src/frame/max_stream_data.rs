//! MAX_STREAM_DATA frame: the most data the peer may send on one stream.
use vstd::prelude::*;
use crate::error::CodecError;
use crate::frame::types::{tag_of, FrameType};
use crate::varint::{
    lemma_varint_round_trip, read_varint, spec_read_varint, varint_bytes, write_varint, VARINT_MAX,
};

verus! {

/// MAX_STREAM_DATA frame: the most data the peer may send on one stream.
///
/// On the wire: the tag, then `stream_id` and `maximum_data` as variable-length integers.
pub struct MaxStreamDataFrame {
    stream_id: u64,
    maximum_data: u64,
}

/// The content of a [`MaxStreamDataFrame`].
pub struct MaxStreamDataFrameModel {
    /// The stream concerned.
    pub stream_id: u64,
    /// The stream's limit, in bytes.
    pub maximum_data: u64,
}

impl View for MaxStreamDataFrame {
    type V = MaxStreamDataFrameModel;

    closed spec fn view(&self) -> MaxStreamDataFrameModel {
        MaxStreamDataFrameModel { stream_id: self.stream_id, maximum_data: self.maximum_data }
    }
}

impl MaxStreamDataFrameModel {
    /// Every field fits a variable-length integer.
    pub open spec fn encodable(self) -> bool {
        self.stream_id <= VARINT_MAX && self.maximum_data <= VARINT_MAX
    }

    /// The bytes that follow the tag.
    pub open spec fn payload(self) -> Seq<u8> {
        varint_bytes(self.stream_id as nat) + varint_bytes(self.maximum_data as nat)
    }

    /// The whole frame: the tag, then the payload.
    pub open spec fn encode(self) -> Seq<u8> {
        seq![tag_of(FrameType::MaxStreamData)] + self.payload()
    }

    /// What a decoder makes of `s`, the bytes after the tag: the frame and
    /// the number of bytes it used.
    pub open spec fn parse(s: Seq<u8>) -> Result<(Self, nat), CodecError> {
        match spec_read_varint(s, 0) {
            Err(e) => Err(e),
            Ok(v0) => match spec_read_varint(s, v0.size as nat) {
                Err(e) => Err(e),
                Ok(v1) => Ok(
                    (
                        MaxStreamDataFrameModel { stream_id: v0.value, maximum_data: v1.value },
                        (v0.size + v1.size) as nat,
                    ),
                ),
            },
        }
    }
}

impl MaxStreamDataFrame {
    /// A frame whose fields are all 0.
    pub fn new() -> (r: Self)
        ensures
            r@ == (MaxStreamDataFrameModel { stream_id: 0, maximum_data: 0 }),
    {
        MaxStreamDataFrame { stream_id: 0, maximum_data: 0 }
    }

    /// The stream concerned.
    pub fn get_stream_id(&self) -> (r: u64)
        ensures
            r == self@.stream_id,
    {
        self.stream_id
    }

    /// Sets the stream concerned.
    pub fn set_stream_id(&mut self, stream_id: u64)
        ensures
            final(self)@ == (MaxStreamDataFrameModel { stream_id, ..old(self)@ }),
    {
        self.stream_id = stream_id;
    }

    /// The stream's limit, in bytes.
    pub fn get_maximum_data(&self) -> (r: u64)
        ensures
            r == self@.maximum_data,
    {
        self.maximum_data
    }

    /// Sets the stream's limit, in bytes.
    pub fn set_maximum_data(&mut self, maximum_data: u64)
        ensures
            final(self)@ == (MaxStreamDataFrameModel { maximum_data, ..old(self)@ }),
    {
        self.maximum_data = maximum_data;
    }

    /// Appends the frame, tag first, and returns the number of bytes
    /// written. A field above `2^62 - 1` is refused and `out` is left as it
    /// was.
    pub fn write(&self, out: &mut Vec<u8>) -> (r: Result<usize, CodecError>)
        ensures
            self@.encodable() ==> r == Ok::<usize, CodecError>(self@.encode().len() as usize)
                && final(out)@ == old(out)@ + self@.encode(),
            !self@.encodable() ==> r == Err::<usize, CodecError>(CodecError::OutOfRange)
                && final(out)@ == old(out)@,
    {
        if self.stream_id > VARINT_MAX || self.maximum_data > VARINT_MAX {
            return Err(CodecError::OutOfRange);
        }
        let start = out.len();
        out.push(u8::from(FrameType::MaxStreamData));
        write_varint(self.stream_id, out)?;
        write_varint(self.maximum_data, out)?;
        assert(out@ =~= old(out)@ + self@.encode());
        Ok(out.len() - start)
    }

    /// Decodes the fields from `input`, which starts right after the tag,
    /// and returns the number of bytes used. On failure the frame is left
    /// as it was.
    pub fn read(&mut self, input: &[u8]) -> (r: Result<usize, CodecError>)
        ensures
            match MaxStreamDataFrameModel::parse(input@) {
                Ok((m, n)) => r == Ok::<usize, CodecError>(n as usize) && final(self)@ == m && n
                    <= input@.len(),
                Err(e) => r == Err::<usize, CodecError>(e) && final(self)@ == old(self)@,
            },
    {
        let stream_id = read_varint(input, 0)?;
        let maximum_data = read_varint(input, stream_id.size)?;
        self.stream_id = stream_id.value;
        self.maximum_data = maximum_data.value;
        Ok(stream_id.size + maximum_data.size)
    }
}

/// Decoding the payload that the encoder wrote gives back the same frame
/// and uses exactly the payload, whatever follows it.
pub proof fn lemma_max_stream_data_round_trip(m: MaxStreamDataFrameModel, rest: Seq<u8>)
    requires
        m.encodable(),
    ensures
        MaxStreamDataFrameModel::parse(m.payload() + rest)
            == Ok::<(MaxStreamDataFrameModel, nat), CodecError>((m, m.payload().len())),
{
    let b0 = varint_bytes(m.stream_id as nat);
    let b1 = varint_bytes(m.maximum_data as nat);
    let s = m.payload() + rest;
    lemma_varint_round_trip(m.stream_id, Seq::<u8>::empty(), (b1 + rest));
    assert(s =~= Seq::<u8>::empty() + b0 + (b1 + rest));
    lemma_varint_round_trip(m.maximum_data, b0, rest);
    assert(s =~= b0 + b1 + rest);
}

} // verus!
