//! The 0-RTT packet header: carries early data from the client before the handshake completes.
use vstd::prelude::*;
use crate::byteorder::be_bytes;
use crate::error::CodecError;
use crate::packet::long_header::{lemma_long_header_round_trip, LongHeader, LongHeaderModel};
use crate::packet_number::{
    lemma_packet_number_round_trip, read_fixed, serialize_len, spec_read_fixed, spec_serialize_len,
    write_fixed, PacketNumber,
};
use crate::varint::{
    lemma_varint_at, lemma_varint_bytes_len, read_next, spec_read_varint, varint_bytes,
    write_varint, VARINT_MAX,
};

verus! {

/// 0-RTT packet header.
///
/// Carries early data from client to server before the handshake
/// completes.
///
/// On the wire: the first byte (0xD0, with the packet number length minus
/// one in its low two bits), the long header body, the length of the rest
/// of the packet as a variable-length integer, then the packet number in
/// its length.
pub struct ZeroRTTHeader {
    header: LongHeader,
    length: u64,
    packet_number: PacketNumber,
    packet_number_len: usize,
}

/// The content of a [`ZeroRTTHeader`].
pub struct ZeroRTTHeaderModel {
    /// The long header body.
    pub header: LongHeaderModel,
    /// The length of the rest of the packet.
    pub length: u64,
    /// The packet number.
    pub packet_number: PacketNumber,
    /// The packet number length a decoder reads, learnt from the first
    /// byte before the header is decoded.
    pub packet_number_len: usize,
}

impl View for ZeroRTTHeader {
    type V = ZeroRTTHeaderModel;

    closed spec fn view(&self) -> ZeroRTTHeaderModel {
        ZeroRTTHeaderModel {
            header: self.header@,
            length: self.length,
            packet_number: self.packet_number,
            packet_number_len: self.packet_number_len,
        }
    }
}

impl ZeroRTTHeaderModel {
    /// The packet number fits 4 bytes in the sense of `serialize_len`, and
    /// every number sent fits a variable-length integer.
    pub open spec fn encodable(self) -> bool {
        &&& spec_serialize_len(self.packet_number as nat) is Some
        &&& self.length <= VARINT_MAX
    }

    /// The number of bytes the packet number is sent in.
    pub open spec fn sent_len(self) -> nat {
        spec_serialize_len(self.packet_number as nat)->0
    }

    /// What follows the first byte.
    pub open spec fn body(self) -> Seq<u8> {
        self.header.encode() + varint_bytes(self.length as nat) + be_bytes(
            self.packet_number as nat,
            self.sent_len(),
        )
    }

    /// The whole header: the first byte, then the body.
    pub open spec fn encode(self) -> Seq<u8> {
        seq![(0xd0 + self.sent_len() - 1) as u8] + self.body()
    }

    /// What a decoder makes of `s`, the bytes after the first byte, given
    /// the packet number length: the header and the number of bytes it used.
    pub open spec fn parse(packet_number_len: usize, s: Seq<u8>) -> Result<(Self, nat), CodecError> {
        match LongHeaderModel::parse(s) {
            Err(e) => Err(e),
            Ok((header, at1)) => match spec_read_varint(s, at1) {
                Err(e) => Err(e),
                Ok(len) => match spec_read_fixed(
                    packet_number_len as nat,
                    s,
                    (at1 + len.size) as nat,
                ) {
                    Err(e) => Err(e),
                    Ok(packet_number) => Ok(
                        (
                            ZeroRTTHeaderModel {
                                header,
                                length: len.value,
                                packet_number,
                                packet_number_len,
                            },
                            (at1 + len.size + packet_number_len) as nat,
                        ),
                    ),
                },
            },
        }
    }
}

impl ZeroRTTHeader {
    /// An empty header whose decoder reads a packet number of
    /// `packet_number_len` bytes.
    pub fn new(packet_number_len: usize) -> (r: Self)
        ensures
            r@ == (ZeroRTTHeaderModel {
                header: LongHeaderModel { version: 0, dst: Seq::empty(), src: Seq::empty() },
                length: 0,
                packet_number: 0,
                packet_number_len,
            }),
    {
        ZeroRTTHeader {
            header: LongHeader::new(),
            length: 0,
            packet_number: 0,
            packet_number_len,
        }
    }

    /// The long header body.
    pub fn get_header(&self) -> (r: &LongHeader)
        ensures
            r@ == self@.header,
    {
        &self.header
    }

    /// Sets the long header body.
    pub fn set_header(&mut self, header: LongHeader)
        ensures
            final(self)@ == (ZeroRTTHeaderModel { header: header@, ..old(self)@ }),
    {
        self.header = header;
    }

    /// The length of the rest of the packet.
    pub fn get_length(&self) -> (r: u64)
        ensures
            r == self@.length,
    {
        self.length
    }

    /// Sets the length of the rest of the packet.
    pub fn set_length(&mut self, length: u64)
        ensures
            final(self)@ == (ZeroRTTHeaderModel { length, ..old(self)@ }),
    {
        self.length = length;
    }

    /// The packet number.
    pub fn get_packet_number(&self) -> (r: PacketNumber)
        ensures
            r == self@.packet_number,
    {
        self.packet_number
    }

    /// Sets the packet number.
    pub fn set_packet_number(&mut self, packet_number: PacketNumber)
        ensures
            final(self)@ == (ZeroRTTHeaderModel { packet_number, ..old(self)@ }),
    {
        self.packet_number = packet_number;
    }

    /// The packet number length the decoder reads.
    pub fn get_packet_number_len(&self) -> (r: usize)
        ensures
            r == self@.packet_number_len,
    {
        self.packet_number_len
    }

    /// Appends the header, first byte included, and returns the number of
    /// bytes written. The packet number is sent in the length
    /// `serialize_len` picks. A packet number too large for 4 bytes, or a
    /// number above `2^62 - 1`, is refused and `out` is left as it was.
    pub fn write(&self, out: &mut Vec<u8>) -> (r: Result<usize, CodecError>)
        ensures
            self@.encodable() ==> r == Ok::<usize, CodecError>(self@.encode().len() as usize)
                && final(out)@ == old(out)@ + self@.encode(),
            !self@.encodable() ==> r == Err::<usize, CodecError>(CodecError::OutOfRange)
                && final(out)@ == old(out)@,
    {
        let n = serialize_len(self.packet_number)?;
        if self.length > VARINT_MAX {
            return Err(CodecError::OutOfRange);
        }
        let start = out.len();
        let low = n as u8 - 1;
        assert(0xd0u8 | low == 0xd0u8 + low) by (bit_vector)
            requires
                low < 4,
        ;
        out.push(0xd0 | low);
        self.header.write(out);
        write_varint(self.length, out)?;
        write_fixed(self.packet_number, n, out)?;
        assert(out@ =~= old(out)@ + self@.encode());
        Ok(out.len() - start)
    }

    /// Decodes the header from `input`, which starts right after the first
    /// byte, and returns the number of bytes used. The packet number is
    /// read in the length given at construction; a length outside `1..=4`
    /// is `UnsupportedLength`. On failure the header is left as it was.
    pub fn read(&mut self, input: &[u8]) -> (r: Result<usize, CodecError>)
        ensures
            match ZeroRTTHeaderModel::parse(old(self)@.packet_number_len, input@) {
                Ok((m, n)) => r == Ok::<usize, CodecError>(n as usize) && final(self)@ == m && n
                    <= input@.len(),
                Err(e) => r == Err::<usize, CodecError>(e) && final(self)@ == old(self)@,
            },
    {
        let total = input.len();
        let mut header = LongHeader::new();
        let pos = header.read(input)?;
        let (length, pos) = read_next(input, pos)?;
        let packet_number = read_fixed(self.packet_number_len, input, pos)?;
        assert(pos + self.packet_number_len <= total);
        self.header = header;
        self.length = length.value;
        self.packet_number = packet_number;
        Ok(pos + self.packet_number_len)
    }
}

/// Decoding the body that the encoder wrote, with the packet number length
/// that the low two bits of its first byte give, gives back the same header
/// and uses exactly the body, whatever follows it. This holds when both
/// connection IDs hold 1 to 20 bytes and the header is to be decoded with
/// the length that the encoder picks.
pub proof fn lemma_zero_rtt_header_round_trip(m: ZeroRTTHeaderModel, rest: Seq<u8>)
    requires
        m.encodable(),
        m.header.wf(),
        m.packet_number_len == m.sent_len(),
    ensures
        m.encode()[0] % 4 + 1 == m.sent_len(),
        ZeroRTTHeaderModel::parse(m.packet_number_len, m.body() + rest)
            == Ok::<(ZeroRTTHeaderModel, nat), CodecError>((m, m.body().len())),
{
    let s = m.body() + rest;
    let h = m.header.encode();
    let lb = varint_bytes(m.length as nat);
    let pn = be_bytes(m.packet_number as nat, m.sent_len());
    lemma_varint_bytes_len(m.length as nat);
    lemma_long_header_round_trip(m.header, lb + pn + rest);
    assert(s =~= h + (lb + pn + rest));
    let at1 = h.len() as int;
    let before = h + lb;
    assert(s.subrange(at1, at1 + lb.len()) =~= lb);
    lemma_varint_at(m.length, s, at1 as nat);
    lemma_packet_number_round_trip(m.packet_number, before, rest);
    assert(s =~= before + pn + rest);
}

} // verus!
