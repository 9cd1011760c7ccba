//! RETIRE_CONNECTION_ID frame: the sender will no longer use a connection ID the peer issued.
use vstd::prelude::*;
use crate::error::CodecError;
use crate::frame::types::{tag_of, FrameType};
use crate::varint::{
    lemma_varint_round_trip, read_varint, spec_read_varint, varint_bytes, write_varint, VARINT_MAX,
};

verus! {

/// RETIRE_CONNECTION_ID frame: the sender will no longer use a connection ID the peer issued.
///
/// On the wire: the tag, then `seq` as variable-length integer.
pub struct RetireConnectionIDFrame {
    seq: u64,
}

/// The content of a [`RetireConnectionIDFrame`].
pub struct RetireConnectionIDFrameModel {
    /// The sequence number of the retired connection ID.
    pub seq: u64,
}

impl View for RetireConnectionIDFrame {
    type V = RetireConnectionIDFrameModel;

    closed spec fn view(&self) -> RetireConnectionIDFrameModel {
        RetireConnectionIDFrameModel { seq: self.seq }
    }
}

impl RetireConnectionIDFrameModel {
    /// Every field fits a variable-length integer.
    pub open spec fn encodable(self) -> bool {
        self.seq <= VARINT_MAX
    }

    /// The bytes that follow the tag.
    pub open spec fn payload(self) -> Seq<u8> {
        varint_bytes(self.seq as nat)
    }

    /// The whole frame: the tag, then the payload.
    pub open spec fn encode(self) -> Seq<u8> {
        seq![tag_of(FrameType::RetireConnectionID)] + self.payload()
    }

    /// What a decoder makes of `s`, the bytes after the tag: the frame and
    /// the number of bytes it used.
    pub open spec fn parse(s: Seq<u8>) -> Result<(Self, nat), CodecError> {
        match spec_read_varint(s, 0) {
            Err(e) => Err(e),
            Ok(v0) => Ok((RetireConnectionIDFrameModel { seq: v0.value }, v0.size as nat)),
        }
    }
}

impl RetireConnectionIDFrame {
    /// A frame whose fields are all 0.
    pub fn new() -> (r: Self)
        ensures
            r@ == (RetireConnectionIDFrameModel { seq: 0 }),
    {
        RetireConnectionIDFrame { seq: 0 }
    }

    /// Sets the sequence number of the retired connection ID.
    pub fn set_seq(&mut self, seq: u64)
        ensures
            final(self)@ == (RetireConnectionIDFrameModel { seq, ..old(self)@ }),
    {
        self.seq = seq;
    }

    /// The sequence number of the retired connection ID.
    pub fn get_seq(&self) -> (r: u64)
        ensures
            r == self@.seq,
    {
        self.seq
    }

    /// Appends the frame, tag first, and returns the number of bytes
    /// written. A field above `2^62 - 1` is refused and `out` is left as it
    /// was.
    pub fn write(&self, out: &mut Vec<u8>) -> (r: Result<usize, CodecError>)
        ensures
            self@.encodable() ==> r == Ok::<usize, CodecError>(self@.encode().len() as usize)
                && final(out)@ == old(out)@ + self@.encode(),
            !self@.encodable() ==> r == Err::<usize, CodecError>(CodecError::OutOfRange)
                && final(out)@ == old(out)@,
    {
        if self.seq > VARINT_MAX {
            return Err(CodecError::OutOfRange);
        }
        let start = out.len();
        out.push(u8::from(FrameType::RetireConnectionID));
        write_varint(self.seq, out)?;
        assert(out@ =~= old(out)@ + self@.encode());
        Ok(out.len() - start)
    }

    /// Decodes the fields from `input`, which starts right after the tag,
    /// and returns the number of bytes used. On failure the frame is left
    /// as it was.
    pub fn read(&mut self, input: &[u8]) -> (r: Result<usize, CodecError>)
        ensures
            match RetireConnectionIDFrameModel::parse(input@) {
                Ok((m, n)) => r == Ok::<usize, CodecError>(n as usize) && final(self)@ == m && n
                    <= input@.len(),
                Err(e) => r == Err::<usize, CodecError>(e) && final(self)@ == old(self)@,
            },
    {
        let seq = read_varint(input, 0)?;
        self.seq = seq.value;
        Ok(seq.size)
    }
}

/// Decoding the payload that the encoder wrote gives back the same frame
/// and uses exactly the payload, whatever follows it.
pub proof fn lemma_retire_connection_id_round_trip(m: RetireConnectionIDFrameModel, rest: Seq<u8>)
    requires
        m.encodable(),
    ensures
        RetireConnectionIDFrameModel::parse(m.payload() + rest)
            == Ok::<(RetireConnectionIDFrameModel, nat), CodecError>((m, m.payload().len())),
{
    let b0 = varint_bytes(m.seq as nat);
    let s = m.payload() + rest;
    lemma_varint_round_trip(m.seq, Seq::<u8>::empty(), rest);
    assert(s =~= Seq::<u8>::empty() + b0 + rest);
}

} // verus!
