//! NEW_CONNECTION_ID frame: offers the peer another connection ID.
use vstd::prelude::*;
use crate::byteorder::{append_bytes, read_bytes, spec_read_bytes, to_array};
use crate::conn_id::{ConnectionID, MAX_CONN_ID_LEN};
use crate::error::CodecError;
use crate::frame::types::{tag_of, FrameType};
use crate::varint::{
    lemma_varint_at, lemma_varint_bytes_len, read_next, spec_read_varint, varint_bytes,
    write_varint, VARINT_MAX,
};

verus! {

/// The length of a stateless reset token, in bytes.
pub const RESET_TOKEN_LEN: usize = 16;

/// NEW_CONNECTION_ID frame.
///
/// On the wire: the tag, the sequence number and the retire-prior-to
/// watermark as variable-length integers, one byte with the length of the
/// connection ID, the connection ID, then the 16-byte stateless reset
/// token.
pub struct NewConnectionIDFrame {
    seq: u64,
    retire_prior_to: u64,
    connection_id: ConnectionID,
    reset_token: [u8; 16],
}

/// The content of a [`NewConnectionIDFrame`].
pub struct NewConnectionIDFrameModel {
    /// The sequence number the sender gives the connection ID.
    pub seq: u64,
    /// Connection IDs with a lower sequence number are to be retired.
    pub retire_prior_to: u64,
    /// The new connection ID.
    pub connection_id: Seq<u8>,
    /// The stateless reset token that goes with it.
    pub reset_token: Seq<u8>,
}

impl View for NewConnectionIDFrame {
    type V = NewConnectionIDFrameModel;

    closed spec fn view(&self) -> NewConnectionIDFrameModel {
        NewConnectionIDFrameModel {
            seq: self.seq,
            retire_prior_to: self.retire_prior_to,
            connection_id: self.connection_id@,
            reset_token: self.reset_token@,
        }
    }
}

impl NewConnectionIDFrameModel {
    /// Both numbers fit a variable-length integer.
    pub open spec fn encodable(self) -> bool {
        self.seq <= VARINT_MAX && self.retire_prior_to <= VARINT_MAX
    }

    /// The bytes that follow the tag.
    pub open spec fn payload(self) -> Seq<u8> {
        varint_bytes(self.seq as nat) + varint_bytes(self.retire_prior_to as nat) + seq![
            self.connection_id.len() as u8,
        ] + self.connection_id + self.reset_token
    }

    /// The whole frame: the tag, then the payload.
    pub open spec fn encode(self) -> Seq<u8> {
        seq![tag_of(FrameType::NewConnectionID)] + self.payload()
    }

    /// What a decoder makes of `s`, the bytes after the tag: the frame and
    /// the number of bytes it used. A connection ID length outside `1..=20`
    /// is `InvalidEncoding`.
    pub open spec fn parse(s: Seq<u8>) -> Result<(Self, nat), CodecError> {
        match spec_read_varint(s, 0) {
            Err(e) => Err(e),
            Ok(seq) => match spec_read_varint(s, seq.size as nat) {
                Err(e) => Err(e),
                Ok(retire) => {
                    let p = (seq.size + retire.size) as nat;
                    if p >= s.len() {
                        Err(CodecError::Truncated)
                    } else if !(1 <= s[p as int] <= MAX_CONN_ID_LEN) {
                        Err(CodecError::InvalidEncoding)
                    } else {
                        match spec_read_bytes(s, p + 1, s[p as int] as nat) {
                            Err(e) => Err(e),
                            Ok((id, q)) => match spec_read_bytes(s, q, RESET_TOKEN_LEN as nat) {
                                Err(e) => Err(e),
                                Ok((token, end)) => Ok(
                                    (
                                        NewConnectionIDFrameModel {
                                            seq: seq.value,
                                            retire_prior_to: retire.value,
                                            connection_id: id,
                                            reset_token: token,
                                        },
                                        end,
                                    ),
                                ),
                            },
                        }
                    }
                },
            },
        }
    }
}

impl NewConnectionIDFrame {
    /// A frame with both numbers 0, an empty connection ID and a reset
    /// token of zeros.
    pub fn new() -> (r: Self)
        ensures
            r@ == (NewConnectionIDFrameModel {
                seq: 0,
                retire_prior_to: 0,
                connection_id: Seq::empty(),
                reset_token: Seq::new(16, |i: int| 0u8),
            }),
    {
        let r = NewConnectionIDFrame {
            seq: 0,
            retire_prior_to: 0,
            connection_id: ConnectionID::new(),
            reset_token: [0u8; 16],
        };
        assert(r.reset_token@ =~= Seq::new(16, |i: int| 0u8));
        r
    }

    /// The sequence number of the connection ID.
    pub fn get_seq(&self) -> (r: u64)
        ensures
            r == self@.seq,
    {
        self.seq
    }

    /// Sets the sequence number of the connection ID.
    pub fn set_seq(&mut self, seq: u64)
        ensures
            final(self)@ == (NewConnectionIDFrameModel { seq, ..old(self)@ }),
    {
        self.seq = seq;
    }

    /// The sequence number below which connection IDs are to be retired.
    pub fn get_retire_prior_to(&self) -> (r: u64)
        ensures
            r == self@.retire_prior_to,
    {
        self.retire_prior_to
    }

    /// Sets the sequence number below which connection IDs are to be retired.
    pub fn set_retire_prior_to(&mut self, retire_prior_to: u64)
        ensures
            final(self)@ == (NewConnectionIDFrameModel { retire_prior_to, ..old(self)@ }),
    {
        self.retire_prior_to = retire_prior_to;
    }

    /// The connection ID.
    pub fn get_connection_id(&self) -> (r: ConnectionID)
        ensures
            r@ == self@.connection_id,
    {
        self.connection_id.clone()
    }

    /// Sets the connection ID.
    pub fn set_connection_id(&mut self, connection_id: ConnectionID)
        ensures
            final(self)@ == (NewConnectionIDFrameModel {
                connection_id: connection_id@,
                ..old(self)@
            }),
    {
        self.connection_id = connection_id;
    }

    /// The stateless reset token.
    pub fn get_reset_token(&self) -> (r: &[u8])
        ensures
            r@ == self@.reset_token,
    {
        self.reset_token.as_slice()
    }

    /// Sets the stateless reset token, which must hold exactly 16 bytes.
    pub fn set_reset_token(&mut self, reset_token: &[u8])
        requires
            reset_token@.len() == RESET_TOKEN_LEN,
        ensures
            final(self)@ == (NewConnectionIDFrameModel { reset_token: reset_token@, ..old(self)@ }),
    {
        self.reset_token = to_array(reset_token);
    }

    /// Appends the frame, tag first, and returns the number of bytes
    /// written. A number above `2^62 - 1` is refused and `out` is left as it
    /// was.
    pub fn write(&self, out: &mut Vec<u8>) -> (r: Result<usize, CodecError>)
        ensures
            self@.encodable() ==> r == Ok::<usize, CodecError>(self@.encode().len() as usize)
                && final(out)@ == old(out)@ + self@.encode(),
            !self@.encodable() ==> r == Err::<usize, CodecError>(CodecError::OutOfRange)
                && final(out)@ == old(out)@,
    {
        if self.seq > VARINT_MAX || self.retire_prior_to > VARINT_MAX {
            return Err(CodecError::OutOfRange);
        }
        let start = out.len();
        out.push(u8::from(FrameType::NewConnectionID));
        write_varint(self.seq, out)?;
        write_varint(self.retire_prior_to, out)?;
        let id = self.connection_id.get_id();
        out.push(id.len() as u8);
        append_bytes(out, id);
        append_bytes(out, self.reset_token.as_slice());
        assert(out@ =~= old(out)@ + self@.encode());
        Ok(out.len() - start)
    }

    /// Decodes the fields from `input`, which starts right after the tag,
    /// and returns the number of bytes used. The connection ID length comes
    /// from the peer: one outside `1..=20` is `InvalidEncoding`. On failure
    /// the frame is left as it was.
    pub fn read(&mut self, input: &[u8]) -> (r: Result<usize, CodecError>)
        ensures
            match NewConnectionIDFrameModel::parse(input@) {
                Ok((m, n)) => r == Ok::<usize, CodecError>(n as usize) && final(self)@ == m && n
                    <= input@.len(),
                Err(e) => r == Err::<usize, CodecError>(e) && final(self)@ == old(self)@,
            },
    {
        let (seq, pos) = read_next(input, 0)?;
        let (retire_prior_to, pos) = read_next(input, pos)?;
        if pos >= input.len() {
            return Err(CodecError::Truncated);
        }
        let len = input[pos];
        if len < 1 || len as usize > MAX_CONN_ID_LEN {
            return Err(CodecError::InvalidEncoding);
        }
        let (id, pos) = read_bytes(input, pos + 1, len as u64)?;
        let (token, end) = read_bytes(input, pos, RESET_TOKEN_LEN as u64)?;
        let mut connection_id = ConnectionID::new();
        connection_id.set_id(id.as_slice());
        self.seq = seq.value;
        self.retire_prior_to = retire_prior_to.value;
        self.connection_id = connection_id;
        self.reset_token = to_array(token.as_slice());
        Ok(end)
    }
}

/// Decoding the payload that the encoder wrote gives back the same frame
/// and uses exactly the payload, whatever follows it, when the connection
/// ID holds 1 to 20 bytes and the token 16.
pub proof fn lemma_new_connection_id_round_trip(m: NewConnectionIDFrameModel, rest: Seq<u8>)
    requires
        m.encodable(),
        1 <= m.connection_id.len() <= MAX_CONN_ID_LEN,
        m.reset_token.len() == RESET_TOKEN_LEN,
    ensures
        NewConnectionIDFrameModel::parse(m.payload() + rest) == Ok::<
            (NewConnectionIDFrameModel, nat),
            CodecError,
        >((m, m.payload().len())),
{
    let s = m.payload() + rest;
    let b0 = varint_bytes(m.seq as nat);
    let b1 = varint_bytes(m.retire_prior_to as nat);
    lemma_varint_bytes_len(m.seq as nat);
    lemma_varint_bytes_len(m.retire_prior_to as nat);
    let at1 = b0.len() as int;
    let at2 = at1 + b1.len();
    let q = at2 + 1 + m.connection_id.len();
    assert(s.subrange(0, at1) =~= b0);
    lemma_varint_at(m.seq, s, 0);
    assert(s.subrange(at1, at2) =~= b1);
    lemma_varint_at(m.retire_prior_to, s, at1 as nat);
    assert(s[at2] == m.connection_id.len() as u8);
    assert(s.subrange(at2 + 1, q) =~= m.connection_id);
    assert(s.subrange(q, q + 16) =~= m.reset_token);
}

} // verus!
