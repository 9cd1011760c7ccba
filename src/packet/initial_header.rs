//! The Initial packet header: carries the first handshake data of each side.
use vstd::prelude::*;
use crate::byteorder::{append_bytes, be_bytes, read_bytes, spec_read_bytes};
use crate::error::CodecError;
use crate::packet::long_header::{lemma_long_header_round_trip, LongHeader, LongHeaderModel};
use crate::packet_number::{
    lemma_packet_number_round_trip, read_fixed, serialize_len, spec_read_fixed, spec_serialize_len,
    write_fixed, PacketNumber,
};
use crate::varint::{
    lemma_varint_at, lemma_varint_bytes_len, read_next, spec_read_varint, varint_bytes,
    write_varint, VARINT_MAX,
};

verus! {

/// Initial packet header.
///
/// Carries the first CRYPTO frames of client and server, and ACK frames in
/// either direction.
///
/// On the wire: the first byte (0xC0, with the packet number length minus
/// one in its low two bits), the long header body, the token length and
/// the token, the length of the rest of the packet as a variable-length
/// integer, then the packet number in its length.
pub struct InitialHeader {
    header: LongHeader,
    token: Vec<u8>,
    length: u64,
    packet_number: PacketNumber,
    packet_number_len: usize,
}

/// The content of a [`InitialHeader`].
pub struct InitialHeaderModel {
    /// The long header body.
    pub header: LongHeaderModel,
    /// The address validation token.
    pub token: Seq<u8>,
    /// The length of the rest of the packet.
    pub length: u64,
    /// The packet number.
    pub packet_number: PacketNumber,
    /// The packet number length a decoder reads, learnt from the first
    /// byte before the header is decoded.
    pub packet_number_len: usize,
}

impl View for InitialHeader {
    type V = InitialHeaderModel;

    closed spec fn view(&self) -> InitialHeaderModel {
        InitialHeaderModel {
            header: self.header@,
            token: self.token@,
            length: self.length,
            packet_number: self.packet_number,
            packet_number_len: self.packet_number_len,
        }
    }
}

impl InitialHeaderModel {
    /// The packet number fits 4 bytes in the sense of `serialize_len`, and
    /// every number sent fits a variable-length integer.
    pub open spec fn encodable(self) -> bool {
        &&& spec_serialize_len(self.packet_number as nat) is Some
        &&& self.token.len() <= VARINT_MAX
        &&& self.length <= VARINT_MAX
    }

    /// The number of bytes the packet number is sent in.
    pub open spec fn sent_len(self) -> nat {
        spec_serialize_len(self.packet_number as nat)->0
    }

    /// What follows the first byte.
    pub open spec fn body(self) -> Seq<u8> {
        self.header.encode() + varint_bytes(self.token.len()) + self.token + varint_bytes(
            self.length as nat,
        ) + be_bytes(self.packet_number as nat, self.sent_len())
    }

    /// The whole header: the first byte, then the body.
    pub open spec fn encode(self) -> Seq<u8> {
        seq![(0xc0 + self.sent_len() - 1) as u8] + self.body()
    }

    /// What a decoder makes of `s`, the bytes after the first byte, given
    /// the packet number length: the header and the number of bytes it used.
    pub open spec fn parse(packet_number_len: usize, s: Seq<u8>) -> Result<(Self, nat), CodecError> {
        match LongHeaderModel::parse(s) {
            Err(e) => Err(e),
            Ok((header, at0)) => match spec_read_varint(s, at0) {
                Err(e) => Err(e),
                Ok(tl) => match spec_read_bytes(s, (at0 + tl.size) as nat, tl.value as nat) {
                    Err(e) => Err(e),
                    Ok((token, at1)) => match spec_read_varint(s, at1) {
                        Err(e) => Err(e),
                        Ok(len) => match spec_read_fixed(
                            packet_number_len as nat,
                            s,
                            (at1 + len.size) as nat,
                        ) {
                            Err(e) => Err(e),
                            Ok(packet_number) => Ok(
                                (
                                    InitialHeaderModel {
                                        header,
                                        token,
                                        length: len.value,
                                        packet_number,
                                        packet_number_len,
                                    },
                                    (at1 + len.size + packet_number_len) as nat,
                                ),
                            ),
                        },
                    },
                },
            },
        }
    }
}

impl InitialHeader {
    /// An empty header whose decoder reads a packet number of
    /// `packet_number_len` bytes.
    pub fn new(packet_number_len: usize) -> (r: Self)
        ensures
            r@ == (InitialHeaderModel {
                header: LongHeaderModel { version: 0, dst: Seq::empty(), src: Seq::empty() },
                token: Seq::empty(),
                length: 0,
                packet_number: 0,
                packet_number_len,
            }),
    {
        InitialHeader {
            header: LongHeader::new(),
            token: Vec::new(),
            length: 0,
            packet_number: 0,
            packet_number_len,
        }
    }

    /// The long header body.
    pub fn get_header(&self) -> (r: &LongHeader)
        ensures
            r@ == self@.header,
    {
        &self.header
    }

    /// Sets the long header body.
    pub fn set_header(&mut self, header: LongHeader)
        ensures
            final(self)@ == (InitialHeaderModel { header: header@, ..old(self)@ }),
    {
        self.header = header;
    }

    /// The token.
    pub fn get_token(&self) -> (r: &[u8])
        ensures
            r@ == self@.token,
    {
        self.token.as_slice()
    }

    /// Appends `token` to the token held.
    pub fn set_token(&mut self, token: &[u8])
        ensures
            final(self)@ == (InitialHeaderModel { token: old(self)@.token + token@, ..old(self)@ }),
    {
        append_bytes(&mut self.token, token);
    }

    /// The length of the rest of the packet.
    pub fn get_length(&self) -> (r: u64)
        ensures
            r == self@.length,
    {
        self.length
    }

    /// Sets the length of the rest of the packet.
    pub fn set_length(&mut self, length: u64)
        ensures
            final(self)@ == (InitialHeaderModel { length, ..old(self)@ }),
    {
        self.length = length;
    }

    /// The packet number.
    pub fn get_packet_number(&self) -> (r: PacketNumber)
        ensures
            r == self@.packet_number,
    {
        self.packet_number
    }

    /// Sets the packet number.
    pub fn set_packet_number(&mut self, packet_number: PacketNumber)
        ensures
            final(self)@ == (InitialHeaderModel { packet_number, ..old(self)@ }),
    {
        self.packet_number = packet_number;
    }

    /// The packet number length the decoder reads.
    pub fn get_packet_number_len(&self) -> (r: usize)
        ensures
            r == self@.packet_number_len,
    {
        self.packet_number_len
    }

    /// Appends the header, first byte included, and returns the number of
    /// bytes written. The packet number is sent in the length
    /// `serialize_len` picks. A packet number too large for 4 bytes, or a
    /// number above `2^62 - 1`, is refused and `out` is left as it was.
    pub fn write(&self, out: &mut Vec<u8>) -> (r: Result<usize, CodecError>)
        ensures
            self@.encodable() ==> r == Ok::<usize, CodecError>(self@.encode().len() as usize)
                && final(out)@ == old(out)@ + self@.encode(),
            !self@.encodable() ==> r == Err::<usize, CodecError>(CodecError::OutOfRange)
                && final(out)@ == old(out)@,
    {
        let n = serialize_len(self.packet_number)?;
        let token_len = self.token.len() as u64;
        if token_len > VARINT_MAX || self.length > VARINT_MAX {
            return Err(CodecError::OutOfRange);
        }
        let start = out.len();
        let low = n as u8 - 1;
        assert(0xc0u8 | low == 0xc0u8 + low) by (bit_vector)
            requires
                low < 4,
        ;
        out.push(0xc0 | low);
        self.header.write(out);
        write_varint(token_len, out)?;
        append_bytes(out, self.token.as_slice());
        write_varint(self.length, out)?;
        write_fixed(self.packet_number, n, out)?;
        assert(out@ =~= old(out)@ + self@.encode());
        Ok(out.len() - start)
    }

    /// Decodes the header from `input`, which starts right after the first
    /// byte, and returns the number of bytes used. The packet number is
    /// read in the length given at construction; a length outside `1..=4`
    /// is `UnsupportedLength`. On failure the header is left as it was.
    pub fn read(&mut self, input: &[u8]) -> (r: Result<usize, CodecError>)
        ensures
            match InitialHeaderModel::parse(old(self)@.packet_number_len, input@) {
                Ok((m, n)) => r == Ok::<usize, CodecError>(n as usize) && final(self)@ == m && n
                    <= input@.len(),
                Err(e) => r == Err::<usize, CodecError>(e) && final(self)@ == old(self)@,
            },
    {
        let total = input.len();
        let mut header = LongHeader::new();
        let pos = header.read(input)?;
        let (token_len, pos) = read_next(input, pos)?;
        let (token, pos) = read_bytes(input, pos, token_len.value)?;
        let (length, pos) = read_next(input, pos)?;
        let packet_number = read_fixed(self.packet_number_len, input, pos)?;
        assert(pos + self.packet_number_len <= total);
        self.header = header;
        self.token = token;
        self.length = length.value;
        self.packet_number = packet_number;
        Ok(pos + self.packet_number_len)
    }
}

/// Decoding the body that the encoder wrote, with the packet number length
/// that the low two bits of its first byte give, gives back the same header
/// and uses exactly the body, whatever follows it. This holds when both
/// connection IDs hold 1 to 20 bytes and the header is to be decoded with
/// the length that the encoder picks.
pub proof fn lemma_initial_header_round_trip(m: InitialHeaderModel, rest: Seq<u8>)
    requires
        m.encodable(),
        m.header.wf(),
        m.packet_number_len == m.sent_len(),
    ensures
        m.encode()[0] % 4 + 1 == m.sent_len(),
        InitialHeaderModel::parse(m.packet_number_len, m.body() + rest)
            == Ok::<(InitialHeaderModel, nat), CodecError>((m, m.body().len())),
{
    let s = m.body() + rest;
    let h = m.header.encode();
    let lb = varint_bytes(m.length as nat);
    let pn = be_bytes(m.packet_number as nat, m.sent_len());
    lemma_varint_bytes_len(m.length as nat);
    let tb = varint_bytes(m.token.len());
    lemma_varint_bytes_len(m.token.len());
    lemma_long_header_round_trip(m.header, tb + m.token + lb + pn + rest);
    assert(s =~= h + (tb + m.token + lb + pn + rest));
    let at0 = h.len() as int;
    assert(s.subrange(at0, at0 + tb.len()) =~= tb);
    lemma_varint_at(m.token.len() as u64, s, at0 as nat);
    let pt = at0 + tb.len();
    assert(s.subrange(pt, pt + m.token.len()) =~= m.token);
    let at1 = pt + m.token.len();
    let before = h + tb + m.token + lb;
    assert(s.subrange(at1, at1 + lb.len()) =~= lb);
    lemma_varint_at(m.length, s, at1 as nat);
    lemma_packet_number_round_trip(m.packet_number, before, rest);
    assert(s =~= before + pn + rest);
}

} // verus!
