//! RESET_STREAM frame: abruptly ends the sending part of a stream.
use vstd::prelude::*;
use crate::error::CodecError;
use crate::frame::types::{tag_of, FrameType};
use crate::varint::{
    lemma_varint_round_trip, read_varint, spec_read_varint, varint_bytes, write_varint, VARINT_MAX,
};

verus! {

/// RESET_STREAM frame: abruptly ends the sending part of a stream.
///
/// On the wire: the tag, then `stream_id`, `error_code` and `final_size` as
/// variable-length integers.
pub struct ResetStreamFrame {
    stream_id: u64,
    error_code: u64,
    final_size: u64,
}

/// The content of a [`ResetStreamFrame`].
pub struct ResetStreamFrameModel {
    /// The stream being reset.
    pub stream_id: u64,
    /// The application's error code.
    pub error_code: u64,
    /// The final size of the stream, in bytes.
    pub final_size: u64,
}

impl View for ResetStreamFrame {
    type V = ResetStreamFrameModel;

    closed spec fn view(&self) -> ResetStreamFrameModel {
        ResetStreamFrameModel {
            stream_id: self.stream_id,
            error_code: self.error_code,
            final_size: self.final_size,
        }
    }
}

impl ResetStreamFrameModel {
    /// Every field fits a variable-length integer.
    pub open spec fn encodable(self) -> bool {
        &&& self.stream_id <= VARINT_MAX
        &&& self.error_code <= VARINT_MAX
        &&& self.final_size <= VARINT_MAX
    }

    /// The bytes that follow the tag.
    pub open spec fn payload(self) -> Seq<u8> {
        varint_bytes(self.stream_id as nat)
            + varint_bytes(self.error_code as nat)
            + varint_bytes(self.final_size as nat)
    }

    /// The whole frame: the tag, then the payload.
    pub open spec fn encode(self) -> Seq<u8> {
        seq![tag_of(FrameType::ResetStream)] + self.payload()
    }

    /// What a decoder makes of `s`, the bytes after the tag: the frame and
    /// the number of bytes it used.
    pub open spec fn parse(s: Seq<u8>) -> Result<(Self, nat), CodecError> {
        match spec_read_varint(s, 0) {
            Err(e) => Err(e),
            Ok(v0) => match spec_read_varint(s, v0.size as nat) {
                Err(e) => Err(e),
                Ok(v1) => match spec_read_varint(s, (v0.size + v1.size) as nat) {
                    Err(e) => Err(e),
                    Ok(v2) => Ok(
                        (
                            ResetStreamFrameModel {
                                stream_id: v0.value,
                                error_code: v1.value,
                                final_size: v2.value,
                            },
                            (v0.size + v1.size + v2.size) as nat,
                        ),
                    ),
                },
            },
        }
    }
}

impl ResetStreamFrame {
    /// A frame whose fields are all 0.
    pub fn new() -> (r: Self)
        ensures
            r@ == (ResetStreamFrameModel { stream_id: 0, error_code: 0, final_size: 0 }),
    {
        ResetStreamFrame { stream_id: 0, error_code: 0, final_size: 0 }
    }

    /// The stream being reset.
    pub fn get_stream_id(&self) -> (r: u64)
        ensures
            r == self@.stream_id,
    {
        self.stream_id
    }

    /// Sets the stream being reset.
    pub fn set_stream_id(&mut self, stream_id: u64)
        ensures
            final(self)@ == (ResetStreamFrameModel { stream_id, ..old(self)@ }),
    {
        self.stream_id = stream_id;
    }

    /// The application's error code.
    pub fn get_error_code(&self) -> (r: u64)
        ensures
            r == self@.error_code,
    {
        self.error_code
    }

    /// Sets the application's error code.
    pub fn set_error_code(&mut self, error_code: u64)
        ensures
            final(self)@ == (ResetStreamFrameModel { error_code, ..old(self)@ }),
    {
        self.error_code = error_code;
    }

    /// The final size of the stream, in bytes.
    pub fn get_final_size(&self) -> (r: u64)
        ensures
            r == self@.final_size,
    {
        self.final_size
    }

    /// Sets the final size of the stream, in bytes.
    pub fn set_final_size(&mut self, final_size: u64)
        ensures
            final(self)@ == (ResetStreamFrameModel { final_size, ..old(self)@ }),
    {
        self.final_size = final_size;
    }

    /// Appends the frame, tag first, and returns the number of bytes
    /// written. A field above `2^62 - 1` is refused and `out` is left as it
    /// was.
    pub fn write(&self, out: &mut Vec<u8>) -> (r: Result<usize, CodecError>)
        ensures
            self@.encodable() ==> r == Ok::<usize, CodecError>(self@.encode().len() as usize)
                && final(out)@ == old(out)@ + self@.encode(),
            !self@.encodable() ==> r == Err::<usize, CodecError>(CodecError::OutOfRange)
                && final(out)@ == old(out)@,
    {
        if self.stream_id > VARINT_MAX || self.error_code > VARINT_MAX || self.final_size > VARINT_MAX {
            return Err(CodecError::OutOfRange);
        }
        let start = out.len();
        out.push(u8::from(FrameType::ResetStream));
        write_varint(self.stream_id, out)?;
        write_varint(self.error_code, out)?;
        write_varint(self.final_size, out)?;
        assert(out@ =~= old(out)@ + self@.encode());
        Ok(out.len() - start)
    }

    /// Decodes the fields from `input`, which starts right after the tag,
    /// and returns the number of bytes used. On failure the frame is left
    /// as it was.
    pub fn read(&mut self, input: &[u8]) -> (r: Result<usize, CodecError>)
        ensures
            match ResetStreamFrameModel::parse(input@) {
                Ok((m, n)) => r == Ok::<usize, CodecError>(n as usize) && final(self)@ == m && n
                    <= input@.len(),
                Err(e) => r == Err::<usize, CodecError>(e) && final(self)@ == old(self)@,
            },
    {
        let stream_id = read_varint(input, 0)?;
        let error_code = read_varint(input, stream_id.size)?;
        let final_size = read_varint(input, stream_id.size + error_code.size)?;
        self.stream_id = stream_id.value;
        self.error_code = error_code.value;
        self.final_size = final_size.value;
        Ok(stream_id.size + error_code.size + final_size.size)
    }
}

/// Decoding the payload that the encoder wrote gives back the same frame
/// and uses exactly the payload, whatever follows it.
pub proof fn lemma_reset_stream_round_trip(m: ResetStreamFrameModel, rest: Seq<u8>)
    requires
        m.encodable(),
    ensures
        ResetStreamFrameModel::parse(m.payload() + rest)
            == Ok::<(ResetStreamFrameModel, nat), CodecError>((m, m.payload().len())),
{
    let b0 = varint_bytes(m.stream_id as nat);
    let b1 = varint_bytes(m.error_code as nat);
    let b2 = varint_bytes(m.final_size as nat);
    let s = m.payload() + rest;
    lemma_varint_round_trip(m.stream_id, Seq::<u8>::empty(), (b1 + b2 + rest));
    assert(s =~= Seq::<u8>::empty() + b0 + (b1 + b2 + rest));
    lemma_varint_round_trip(m.error_code, b0, (b2 + rest));
    assert(s =~= b0 + b1 + (b2 + rest));
    lemma_varint_round_trip(m.final_size, b0 + b1, rest);
    assert(s =~= (b0 + b1) + b2 + rest);
}

} // verus!
