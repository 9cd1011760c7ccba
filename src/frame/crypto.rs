//! CRYPTO frame: carries handshake data, an ordered byte stream without a
//! stream ID.
use vstd::prelude::*;
use crate::byteorder::{append_bytes, read_bytes, spec_read_bytes};
use crate::error::CodecError;
use crate::frame::types::{tag_of, FrameType};
use crate::varint::{
    lemma_varint_at, lemma_varint_bytes_len, read_next, spec_read_varint, varint_bytes,
    write_varint, VARINT_MAX,
};

verus! {

/// CRYPTO frame.
///
/// On the wire: the tag, the offset and the data length as variable-length
/// integers, then the data.
pub struct CryptoFrame {
    offset: u64,
    data: Vec<u8>,
}

/// The content of a [`CryptoFrame`].
pub struct CryptoFrameModel {
    /// The position of the data in the handshake stream.
    pub offset: u64,
    /// The data.
    pub data: Seq<u8>,
}

impl View for CryptoFrame {
    type V = CryptoFrameModel;

    closed spec fn view(&self) -> CryptoFrameModel {
        CryptoFrameModel { offset: self.offset, data: self.data@ }
    }
}

impl CryptoFrameModel {
    /// Both numbers the frame sends fit a variable-length integer.
    pub open spec fn encodable(self) -> bool {
        self.offset <= VARINT_MAX && self.data.len() <= VARINT_MAX
    }

    /// The bytes that follow the tag.
    pub open spec fn payload(self) -> Seq<u8> {
        varint_bytes(self.offset as nat) + varint_bytes(self.data.len()) + self.data
    }

    /// The whole frame: the tag, then the payload.
    pub open spec fn encode(self) -> Seq<u8> {
        seq![tag_of(FrameType::Crypto)] + self.payload()
    }

    /// What a decoder makes of `s`, the bytes after the tag: the frame and
    /// the number of bytes it used.
    pub open spec fn parse(s: Seq<u8>) -> Result<(Self, nat), CodecError> {
        match spec_read_varint(s, 0) {
            Err(e) => Err(e),
            Ok(offset) => match spec_read_varint(s, offset.size as nat) {
                Err(e) => Err(e),
                Ok(len) => match spec_read_bytes(
                    s,
                    (offset.size + len.size) as nat,
                    len.value as nat,
                ) {
                    Err(e) => Err(e),
                    Ok((data, end)) => Ok((CryptoFrameModel { offset: offset.value, data }, end)),
                },
            },
        }
    }
}

impl CryptoFrame {
    /// An empty frame at offset 0.
    pub fn new() -> (r: Self)
        ensures
            r@ == (CryptoFrameModel { offset: 0, data: Seq::empty() }),
    {
        CryptoFrame { offset: 0, data: Vec::new() }
    }

    /// The offset and the data.
    pub fn get_data(&self) -> (r: (u64, &[u8]))
        ensures
            r.0 == self@.offset,
            r.1@ == self@.data,
    {
        (self.offset, self.data.as_slice())
    }

    /// Sets the offset and appends `data` to the data held.
    pub fn set_data(&mut self, offset: u64, data: &[u8])
        ensures
            final(self)@ == (CryptoFrameModel { offset, data: old(self)@.data + data@ }),
    {
        self.offset = offset;
        append_bytes(&mut self.data, data);
    }

    /// Appends the frame, tag first, and returns the number of bytes
    /// written. A number above `2^62 - 1` is refused and `out` is left as it
    /// was.
    pub fn write(&self, out: &mut Vec<u8>) -> (r: Result<usize, CodecError>)
        ensures
            self@.encodable() ==> r == Ok::<usize, CodecError>(self@.encode().len() as usize)
                && final(out)@ == old(out)@ + self@.encode(),
            !self@.encodable() ==> r == Err::<usize, CodecError>(CodecError::OutOfRange)
                && final(out)@ == old(out)@,
    {
        let len = self.data.len() as u64;
        if self.offset > VARINT_MAX || len > VARINT_MAX {
            return Err(CodecError::OutOfRange);
        }
        let start = out.len();
        out.push(u8::from(FrameType::Crypto));
        write_varint(self.offset, out)?;
        write_varint(len, out)?;
        append_bytes(out, self.data.as_slice());
        assert(out@ =~= old(out)@ + self@.encode());
        Ok(out.len() - start)
    }

    /// Decodes the fields from `input`, which starts right after the tag,
    /// and returns the number of bytes used. On failure the frame is left
    /// as it was.
    pub fn read(&mut self, input: &[u8]) -> (r: Result<usize, CodecError>)
        ensures
            match CryptoFrameModel::parse(input@) {
                Ok((m, n)) => r == Ok::<usize, CodecError>(n as usize) && final(self)@ == m && n
                    <= input@.len(),
                Err(e) => r == Err::<usize, CodecError>(e) && final(self)@ == old(self)@,
            },
    {
        let (offset, pos) = read_next(input, 0)?;
        let (len, pos) = read_next(input, pos)?;
        let (data, end) = read_bytes(input, pos, len.value)?;
        self.offset = offset.value;
        self.data = data;
        Ok(end)
    }
}

/// Decoding the payload that the encoder wrote gives back the same frame
/// and uses exactly the payload, whatever follows it.
pub proof fn lemma_crypto_round_trip(m: CryptoFrameModel, rest: Seq<u8>)
    requires
        m.encodable(),
    ensures
        CryptoFrameModel::parse(m.payload() + rest)
            == Ok::<(CryptoFrameModel, nat), CodecError>((m, m.payload().len())),
{
    let s = m.payload() + rest;
    let b0 = varint_bytes(m.offset as nat);
    let b1 = varint_bytes(m.data.len());
    lemma_varint_bytes_len(m.offset as nat);
    lemma_varint_bytes_len(m.data.len());
    let at1 = b0.len() as int;
    let at2 = at1 + b1.len();
    assert(s.subrange(0, at1) =~= b0);
    lemma_varint_at(m.offset, s, 0);
    assert(s.subrange(at1, at2) =~= b1);
    lemma_varint_at(m.data.len() as u64, s, at1 as nat);
    assert(s.subrange(at2, at2 + m.data.len()) =~= m.data);
}

} // verus!
