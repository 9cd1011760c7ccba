//! MAX_DATA frame: the most data the peer may send on the whole connection.
use vstd::prelude::*;
use crate::error::CodecError;
use crate::frame::types::{tag_of, FrameType};
use crate::varint::{
    lemma_varint_round_trip, read_varint, spec_read_varint, varint_bytes, write_varint, VARINT_MAX,
};

verus! {

/// MAX_DATA frame: the most data the peer may send on the whole connection.
///
/// On the wire: the tag, then `maximum_data` as variable-length integer.
pub struct MaxDataFrame {
    maximum_data: u64,
}

/// The content of a [`MaxDataFrame`].
pub struct MaxDataFrameModel {
    /// The connection-wide limit, in bytes.
    pub maximum_data: u64,
}

impl View for MaxDataFrame {
    type V = MaxDataFrameModel;

    closed spec fn view(&self) -> MaxDataFrameModel {
        MaxDataFrameModel { maximum_data: self.maximum_data }
    }
}

impl MaxDataFrameModel {
    /// Every field fits a variable-length integer.
    pub open spec fn encodable(self) -> bool {
        self.maximum_data <= VARINT_MAX
    }

    /// The bytes that follow the tag.
    pub open spec fn payload(self) -> Seq<u8> {
        varint_bytes(self.maximum_data as nat)
    }

    /// The whole frame: the tag, then the payload.
    pub open spec fn encode(self) -> Seq<u8> {
        seq![tag_of(FrameType::MaxData)] + self.payload()
    }

    /// What a decoder makes of `s`, the bytes after the tag: the frame and
    /// the number of bytes it used.
    pub open spec fn parse(s: Seq<u8>) -> Result<(Self, nat), CodecError> {
        match spec_read_varint(s, 0) {
            Err(e) => Err(e),
            Ok(v0) => Ok((MaxDataFrameModel { maximum_data: v0.value }, v0.size as nat)),
        }
    }
}

impl MaxDataFrame {
    /// A frame whose fields are all 0.
    pub fn new() -> (r: Self)
        ensures
            r@ == (MaxDataFrameModel { maximum_data: 0 }),
    {
        MaxDataFrame { maximum_data: 0 }
    }

    /// The connection-wide limit, in bytes.
    pub fn get_maximum_data(&self) -> (r: u64)
        ensures
            r == self@.maximum_data,
    {
        self.maximum_data
    }

    /// Sets the connection-wide limit, in bytes.
    pub fn set_maximum_data(&mut self, maximum_data: u64)
        ensures
            final(self)@ == (MaxDataFrameModel { maximum_data, ..old(self)@ }),
    {
        self.maximum_data = maximum_data;
    }

    /// Appends the frame, tag first, and returns the number of bytes
    /// written. A field above `2^62 - 1` is refused and `out` is left as it
    /// was.
    pub fn write(&self, out: &mut Vec<u8>) -> (r: Result<usize, CodecError>)
        ensures
            self@.encodable() ==> r == Ok::<usize, CodecError>(self@.encode().len() as usize)
                && final(out)@ == old(out)@ + self@.encode(),
            !self@.encodable() ==> r == Err::<usize, CodecError>(CodecError::OutOfRange)
                && final(out)@ == old(out)@,
    {
        if self.maximum_data > VARINT_MAX {
            return Err(CodecError::OutOfRange);
        }
        let start = out.len();
        out.push(u8::from(FrameType::MaxData));
        write_varint(self.maximum_data, out)?;
        assert(out@ =~= old(out)@ + self@.encode());
        Ok(out.len() - start)
    }

    /// Decodes the fields from `input`, which starts right after the tag,
    /// and returns the number of bytes used. On failure the frame is left
    /// as it was.
    pub fn read(&mut self, input: &[u8]) -> (r: Result<usize, CodecError>)
        ensures
            match MaxDataFrameModel::parse(input@) {
                Ok((m, n)) => r == Ok::<usize, CodecError>(n as usize) && final(self)@ == m && n
                    <= input@.len(),
                Err(e) => r == Err::<usize, CodecError>(e) && final(self)@ == old(self)@,
            },
    {
        let maximum_data = read_varint(input, 0)?;
        self.maximum_data = maximum_data.value;
        Ok(maximum_data.size)
    }
}

/// Decoding the payload that the encoder wrote gives back the same frame
/// and uses exactly the payload, whatever follows it.
pub proof fn lemma_max_data_round_trip(m: MaxDataFrameModel, rest: Seq<u8>)
    requires
        m.encodable(),
    ensures
        MaxDataFrameModel::parse(m.payload() + rest)
            == Ok::<(MaxDataFrameModel, nat), CodecError>((m, m.payload().len())),
{
    let b0 = varint_bytes(m.maximum_data as nat);
    let s = m.payload() + rest;
    lemma_varint_round_trip(m.maximum_data, Seq::<u8>::empty(), rest);
    assert(s =~= Seq::<u8>::empty() + b0 + rest);
}

} // verus!
