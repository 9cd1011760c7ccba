//! NEW_TOKEN frame: a token the server gives the client for the Initial
//! packets of a later connection.
use vstd::prelude::*;
use crate::byteorder::{append_bytes, read_bytes, spec_read_bytes};
use crate::error::CodecError;
use crate::frame::types::{tag_of, FrameType};
use crate::varint::{
    lemma_varint_at, lemma_varint_bytes_len, read_next, spec_read_varint, varint_bytes,
    write_varint, VARINT_MAX,
};

verus! {

/// NEW_TOKEN frame.
///
/// On the wire: the tag, the token length as a variable-length integer,
/// then the token.
pub struct NewTokenFrame {
    token: Vec<u8>,
}

/// The content of a [`NewTokenFrame`].
pub struct NewTokenFrameModel {
    /// The opaque token.
    pub token: Seq<u8>,
}

impl View for NewTokenFrame {
    type V = NewTokenFrameModel;

    closed spec fn view(&self) -> NewTokenFrameModel {
        NewTokenFrameModel { token: self.token@ }
    }
}

impl NewTokenFrameModel {
    /// The token length fits a variable-length integer.
    pub open spec fn encodable(self) -> bool {
        self.token.len() <= VARINT_MAX
    }

    /// The bytes that follow the tag.
    pub open spec fn payload(self) -> Seq<u8> {
        varint_bytes(self.token.len()) + self.token
    }

    /// The whole frame: the tag, then the payload.
    pub open spec fn encode(self) -> Seq<u8> {
        seq![tag_of(FrameType::NewToken)] + self.payload()
    }

    /// What a decoder makes of `s`, the bytes after the tag: the frame and
    /// the number of bytes it used.
    pub open spec fn parse(s: Seq<u8>) -> Result<(Self, nat), CodecError> {
        match spec_read_varint(s, 0) {
            Err(e) => Err(e),
            Ok(len) => match spec_read_bytes(s, len.size as nat, len.value as nat) {
                Err(e) => Err(e),
                Ok((token, end)) => Ok((NewTokenFrameModel { token }, end)),
            },
        }
    }
}

impl NewTokenFrame {
    /// A frame with an empty token.
    pub fn new() -> (r: Self)
        ensures
            r@ == (NewTokenFrameModel { token: Seq::empty() }),
    {
        NewTokenFrame { token: Vec::new() }
    }

    /// The token.
    pub fn get_token(&self) -> (r: &[u8])
        ensures
            r@ == self@.token,
    {
        self.token.as_slice()
    }

    /// Appends `token` to the token held.
    pub fn set_token(&mut self, token: &[u8])
        ensures
            final(self)@.token == old(self)@.token + token@,
    {
        append_bytes(&mut self.token, token);
    }

    /// Appends the frame, tag first, and returns the number of bytes
    /// written. A token longer than `2^62 - 1` bytes is refused and `out`
    /// is left as it was.
    pub fn write(&self, out: &mut Vec<u8>) -> (r: Result<usize, CodecError>)
        ensures
            self@.encodable() ==> r == Ok::<usize, CodecError>(self@.encode().len() as usize)
                && final(out)@ == old(out)@ + self@.encode(),
            !self@.encodable() ==> r == Err::<usize, CodecError>(CodecError::OutOfRange)
                && final(out)@ == old(out)@,
    {
        let len = self.token.len() as u64;
        if len > VARINT_MAX {
            return Err(CodecError::OutOfRange);
        }
        let start = out.len();
        out.push(u8::from(FrameType::NewToken));
        write_varint(len, out)?;
        append_bytes(out, self.token.as_slice());
        assert(out@ =~= old(out)@ + self@.encode());
        Ok(out.len() - start)
    }

    /// Decodes the token from `input`, which starts right after the tag,
    /// and returns the number of bytes used. On failure the frame is left
    /// as it was.
    pub fn read(&mut self, input: &[u8]) -> (r: Result<usize, CodecError>)
        ensures
            match NewTokenFrameModel::parse(input@) {
                Ok((m, n)) => r == Ok::<usize, CodecError>(n as usize) && final(self)@ == m && n
                    <= input@.len(),
                Err(e) => r == Err::<usize, CodecError>(e) && final(self)@ == old(self)@,
            },
    {
        let (len, pos) = read_next(input, 0)?;
        let (token, end) = read_bytes(input, pos, len.value)?;
        self.token = token;
        Ok(end)
    }
}

/// Decoding the payload that the encoder wrote gives back the same token
/// and uses exactly the payload, whatever follows it.
pub proof fn lemma_new_token_round_trip(m: NewTokenFrameModel, rest: Seq<u8>)
    requires
        m.encodable(),
    ensures
        NewTokenFrameModel::parse(m.payload() + rest)
            == Ok::<(NewTokenFrameModel, nat), CodecError>((m, m.payload().len())),
{
    let s = m.payload() + rest;
    let b0 = varint_bytes(m.token.len());
    lemma_varint_bytes_len(m.token.len());
    let at1 = b0.len() as int;
    assert(s.subrange(0, at1) =~= b0);
    lemma_varint_at(m.token.len() as u64, s, 0);
    assert(s.subrange(at1, at1 + m.token.len()) =~= m.token);
}

} // verus!
