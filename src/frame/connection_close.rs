//! CONNECTION_CLOSE frame: ends the connection, with an error code and a
//! reason phrase.
use vstd::prelude::*;
use vstd::string::StringExecFns;
use vstd::utf8::{
    decode_utf8, encode_utf8, encode_utf8_decode_utf8, encode_utf8_valid_utf8, valid_utf8,
};
use crate::byteorder::{append_bytes, read_bytes, spec_read_bytes};
use crate::error::CodecError;
use crate::frame::types::{tag_of, FrameType};
use crate::varint::{
    lemma_varint_at, lemma_varint_bytes_len, read_next, spec_read_varint, varint_bytes,
    write_varint, VARINT_MAX,
};

verus! {

/// CONNECTION_CLOSE frame.
///
/// On the wire: the tag (0x1c for an error of the transport itself, 0x1d
/// for one of the application), the error code, for a transport error the
/// type of the frame that caused it, the length of the reason phrase, then
/// the phrase in UTF-8.
pub struct ConnectionCloseFrame {
    sys_err: bool,
    error_code: u64,
    frame_type: u64,
    reason: String,
}

/// The content of a [`ConnectionCloseFrame`].
pub struct ConnectionCloseFrameModel {
    /// Whether the error is one of the transport rather than of the
    /// application.
    pub sys_err: bool,
    /// The error code.
    pub error_code: u64,
    /// The type of the frame that caused a transport error; 0 when unknown
    /// or not sent.
    pub frame_type: u64,
    /// The reason phrase.
    pub reason: Seq<char>,
}

impl View for ConnectionCloseFrame {
    type V = ConnectionCloseFrameModel;

    closed spec fn view(&self) -> ConnectionCloseFrameModel {
        ConnectionCloseFrameModel {
            sys_err: self.sys_err,
            error_code: self.error_code,
            frame_type: self.frame_type,
            reason: self.reason@,
        }
    }
}

/// Relies on `String::from_utf8`: it accepts a byte vector exactly when
/// the bytes are valid UTF-8, and the string then holds the characters
/// they encode.
#[verifier::external_body]
fn string_from_utf8(bytes: Vec<u8>) -> (r: Option<String>)
    ensures
        r is Some <==> valid_utf8(bytes@),
        r is Some ==> r->Some_0@ == decode_utf8(bytes@),
{
    String::from_utf8(bytes).ok()
}

impl ConnectionCloseFrameModel {
    /// Every number the frame sends fits a variable-length integer.
    pub open spec fn encodable(self) -> bool {
        &&& self.error_code <= VARINT_MAX
        &&& self.sys_err ==> self.frame_type <= VARINT_MAX
        &&& encode_utf8(self.reason).len() <= VARINT_MAX
    }

    /// The frame type as sent: only for a transport error.
    pub open spec fn frame_type_bytes(self) -> Seq<u8> {
        if self.sys_err {
            varint_bytes(self.frame_type as nat)
        } else {
            Seq::empty()
        }
    }

    /// The bytes that follow the tag.
    pub open spec fn payload(self) -> Seq<u8> {
        varint_bytes(self.error_code as nat) + self.frame_type_bytes() + varint_bytes(
            encode_utf8(self.reason).len(),
        ) + encode_utf8(self.reason)
    }

    /// The whole frame: the tag, then the payload.
    pub open spec fn encode(self) -> Seq<u8> {
        seq![tag_of(FrameType::ConnectionClose { sys_err: self.sys_err })] + self.payload()
    }

    /// What a decoder makes of `s`, the bytes after the tag, when the tag
    /// said whether the error is one of the transport: the frame and the
    /// number of bytes it used. A reason phrase that is not valid UTF-8 is
    /// `InvalidEncoding`.
    pub open spec fn parse(sys_err: bool, s: Seq<u8>) -> Result<(Self, nat), CodecError> {
        match spec_read_varint(s, 0) {
            Err(e) => Err(e),
            Ok(code) => match parse_frame_type(sys_err, s, code.size as nat) {
                Err(e) => Err(e),
                Ok((frame_type, p)) => match spec_read_varint(s, p) {
                    Err(e) => Err(e),
                    Ok(len) => match spec_read_bytes(s, (p + len.size) as nat, len.value as nat) {
                        Err(e) => Err(e),
                        Ok((phrase, end)) => if valid_utf8(phrase) {
                            Ok(
                                (
                                    ConnectionCloseFrameModel {
                                        sys_err,
                                        error_code: code.value,
                                        frame_type,
                                        reason: decode_utf8(phrase),
                                    },
                                    end,
                                ),
                            )
                        } else {
                            Err(CodecError::InvalidEncoding)
                        },
                    },
                },
            },
        }
    }
}

/// What a decoder makes of the frame type at position `at` of `s`: read
/// only for a transport error, else 0. Gives it and the position after it.
pub open spec fn parse_frame_type(sys_err: bool, s: Seq<u8>, at: nat) -> Result<
    (u64, nat),
    CodecError,
> {
    if !sys_err {
        Ok((0, at))
    } else {
        match spec_read_varint(s, at) {
            Err(e) => Err(e),
            Ok(v) => Ok((v.value, (at + v.size) as nat)),
        }
    }
}

impl ConnectionCloseFrame {
    /// A frame with error code 0, frame type 0 and an empty reason phrase.
    pub fn new(sys_err: bool) -> (r: Self)
        ensures
            r@ == (ConnectionCloseFrameModel {
                sys_err,
                error_code: 0,
                frame_type: 0,
                reason: Seq::empty(),
            }),
    {
        ConnectionCloseFrame { sys_err, error_code: 0, frame_type: 0, reason: String::new() }
    }

    /// Whether the error is one of the transport.
    pub fn get_sys_err(&self) -> (r: bool)
        ensures
            r == self@.sys_err,
    {
        self.sys_err
    }

    /// Sets whether the error is one of the transport.
    pub fn set_sys_err(&mut self, sys_err: bool)
        ensures
            final(self)@ == (ConnectionCloseFrameModel { sys_err, ..old(self)@ }),
    {
        self.sys_err = sys_err;
    }

    /// The error code.
    pub fn get_error_code(&self) -> (r: u64)
        ensures
            r == self@.error_code,
    {
        self.error_code
    }

    /// Sets the error code.
    pub fn set_error_code(&mut self, error_code: u64)
        ensures
            final(self)@ == (ConnectionCloseFrameModel { error_code, ..old(self)@ }),
    {
        self.error_code = error_code;
    }

    /// The type of the frame that caused the error.
    pub fn get_frame_type(&self) -> (r: u64)
        ensures
            r == self@.frame_type,
    {
        self.frame_type
    }

    /// Sets the type of the frame that caused the error.
    pub fn set_frame_type(&mut self, frame_type: u64)
        ensures
            final(self)@ == (ConnectionCloseFrameModel { frame_type, ..old(self)@ }),
    {
        self.frame_type = frame_type;
    }

    /// The reason phrase.
    pub fn get_reason(&self) -> (r: &str)
        ensures
            r@ == self@.reason,
    {
        self.reason.as_str()
    }

    /// Sets the reason phrase.
    pub fn set_reason(&mut self, reason: &str)
        ensures
            final(self)@ == (ConnectionCloseFrameModel { reason: reason@, ..old(self)@ }),
    {
        self.reason = String::from_str(reason);
    }

    /// Appends the frame, tag first, and returns the number of bytes
    /// written. A number above `2^62 - 1` is refused and `out` is left as it
    /// was.
    pub fn write(&self, out: &mut Vec<u8>) -> (r: Result<usize, CodecError>)
        ensures
            self@.encodable() ==> r == Ok::<usize, CodecError>(self@.encode().len() as usize)
                && final(out)@ == old(out)@ + self@.encode(),
            !self@.encodable() ==> r == Err::<usize, CodecError>(CodecError::OutOfRange)
                && final(out)@ == old(out)@,
    {
        let phrase = self.reason.as_str().as_bytes();
        let len = phrase.len() as u64;
        if self.error_code > VARINT_MAX || (self.sys_err && self.frame_type > VARINT_MAX) || len
            > VARINT_MAX {
            return Err(CodecError::OutOfRange);
        }
        let start = out.len();
        out.push(u8::from(FrameType::ConnectionClose { sys_err: self.sys_err }));
        write_varint(self.error_code, out)?;
        if self.sys_err {
            write_varint(self.frame_type, out)?;
        }
        write_varint(len, out)?;
        append_bytes(out, phrase);
        assert(out@ =~= old(out)@ + self@.encode());
        Ok(out.len() - start)
    }

    /// Decodes the fields from `input`, which starts right after the tag,
    /// and returns the number of bytes used. The frame type is read for a
    /// transport error only. A reason phrase that is not valid UTF-8 is
    /// refused, never repaired. On failure the frame is left as it was.
    pub fn read(&mut self, input: &[u8]) -> (r: Result<usize, CodecError>)
        ensures
            match ConnectionCloseFrameModel::parse(old(self)@.sys_err, input@) {
                Ok((m, n)) => r == Ok::<usize, CodecError>(n as usize) && final(self)@ == m && n
                    <= input@.len(),
                Err(e) => r == Err::<usize, CodecError>(e) && final(self)@ == old(self)@,
            },
    {
        let (error_code, pos) = read_next(input, 0)?;
        let (frame_type, pos) = if self.sys_err {
            let (frame_type, pos) = read_next(input, pos)?;
            (frame_type.value, pos)
        } else {
            (0, pos)
        };
        let (len, pos) = read_next(input, pos)?;
        let (phrase, end) = read_bytes(input, pos, len.value)?;
        match string_from_utf8(phrase) {
            Some(reason) => {
                self.error_code = error_code.value;
                self.frame_type = frame_type;
                self.reason = reason;
                Ok(end)
            },
            None => Err(CodecError::InvalidEncoding),
        }
    }
}

/// Decoding the payload that the encoder wrote, with the flag its tag
/// carries, gives back the same frame and uses exactly the payload,
/// whatever follows it. An application error sends no frame type, which
/// reads back as 0.
pub proof fn lemma_connection_close_round_trip(m: ConnectionCloseFrameModel, rest: Seq<u8>)
    requires
        m.encodable(),
        !m.sys_err ==> m.frame_type == 0,
    ensures
        ConnectionCloseFrameModel::parse(m.sys_err, m.payload() + rest) == Ok::<
            (ConnectionCloseFrameModel, nat),
            CodecError,
        >((m, m.payload().len())),
{
    let s = m.payload() + rest;
    let phrase = encode_utf8(m.reason);
    let b0 = varint_bytes(m.error_code as nat);
    let fb = m.frame_type_bytes();
    let lb = varint_bytes(phrase.len());
    lemma_varint_bytes_len(m.error_code as nat);
    lemma_varint_bytes_len(m.frame_type as nat);
    lemma_varint_bytes_len(phrase.len());
    let at1 = b0.len() as int;
    let at2 = at1 + fb.len();
    let at3 = at2 + lb.len();
    assert(s.subrange(0, at1) =~= b0);
    lemma_varint_at(m.error_code, s, 0);
    if m.sys_err {
        assert(s.subrange(at1, at2) =~= fb);
        lemma_varint_at(m.frame_type, s, at1 as nat);
    }
    assert(s.subrange(at2, at3) =~= lb);
    lemma_varint_at(phrase.len() as u64, s, at2 as nat);
    assert(s.subrange(at3, at3 + phrase.len()) =~= phrase);
    encode_utf8_valid_utf8(m.reason);
    encode_utf8_decode_utf8(m.reason);
}

} // verus!
