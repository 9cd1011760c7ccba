//! The body shared by all long headers: version, destination connection ID
//! and source connection ID.
use vstd::prelude::*;
use crate::byteorder::{
    append_bytes, be_bytes, be_value, from_bigendian, lemma_be_bytes_len, lemma_be_value_bound,
    lemma_be_value_of_bytes, lemma_pow256_values, read_bytes, spec_read_bytes, to_bigendian,
};
use crate::conn_id::{ConnectionID, MAX_CONN_ID_LEN};
use crate::error::CodecError;
use vstd::arithmetic::div_mod::lemma_small_mod;

verus! {

/// A protocol version number.
pub type Version = u32;

/// A connection ID as a long header sends it: one length byte, then the
/// bytes.
pub open spec fn connid_bytes(id: Seq<u8>) -> Seq<u8> {
    seq![id.len() as u8] + id
}

/// What a decoder makes of a connection ID at position `at` of `s`: its
/// bytes and the number of bytes used. The length byte comes from the
/// peer: outside `1..=20` it is `InvalidEncoding`.
pub open spec fn spec_read_connid(s: Seq<u8>, at: nat) -> Result<(Seq<u8>, nat), CodecError> {
    if at >= s.len() {
        Err(CodecError::Truncated)
    } else if !(1 <= s[at as int] <= MAX_CONN_ID_LEN) {
        Err(CodecError::InvalidEncoding)
    } else {
        match spec_read_bytes(s, at + 1, s[at as int] as nat) {
            Err(e) => Err(e),
            Ok((id, end)) => Ok((id, (end - at) as nat)),
        }
    }
}

/// Appends a connection ID as a long header sends it and returns the
/// number of bytes written.
pub fn write_packet_header_connid(conn_id: &[u8], out: &mut Vec<u8>) -> (r: usize)
    requires
        conn_id@.len() <= MAX_CONN_ID_LEN,
    ensures
        final(out)@ == old(out)@ + connid_bytes(conn_id@),
        r == connid_bytes(conn_id@).len(),
{
    let len = conn_id.len();
    out.push(len as u8);
    append_bytes(out, conn_id);
    assert(out@ =~= old(out)@ + connid_bytes(conn_id@));
    1 + len
}

/// Reads a connection ID as a long header sends it, at `input[pos]`;
/// returns the number of bytes used and the connection ID.
pub fn read_packet_header_connid(input: &[u8], pos: usize) -> (r: Result<
    (usize, ConnectionID),
    CodecError,
>)
    ensures
        match spec_read_connid(input@, pos as nat) {
            Ok((id, n)) => r is Ok && (r->Ok_0).0 == n && (r->Ok_0).1@ == id,
            Err(e) => r is Err && r->Err_0 == e,
        },
{
    if pos >= input.len() {
        return Err(CodecError::Truncated);
    }
    let len = input[pos];
    if len < 1 || len as usize > MAX_CONN_ID_LEN {
        return Err(CodecError::InvalidEncoding);
    }
    let (id, end) = read_bytes(input, pos + 1, len as u64)?;
    let mut conn_id = ConnectionID::new();
    conn_id.set_id(id.as_slice());
    Ok((end - pos, conn_id))
}

/// The body shared by the long headers.
///
/// On the wire: the version in 4 bytes, big-endian, then the destination
/// and the source connection IDs, each as one length byte and the bytes.
pub struct LongHeader {
    version: Version,
    dst: ConnectionID,
    src: ConnectionID,
}

/// The content of a [`LongHeader`].
pub struct LongHeaderModel {
    /// The protocol version.
    pub version: Version,
    /// The destination connection ID.
    pub dst: Seq<u8>,
    /// The source connection ID.
    pub src: Seq<u8>,
}

impl View for LongHeader {
    type V = LongHeaderModel;

    closed spec fn view(&self) -> LongHeaderModel {
        LongHeaderModel { version: self.version, dst: self.dst@, src: self.src@ }
    }
}

impl LongHeaderModel {
    /// The bytes of the body.
    pub open spec fn encode(self) -> Seq<u8> {
        be_bytes(self.version as nat, 4) + connid_bytes(self.dst) + connid_bytes(self.src)
    }

    /// What a decoder makes of `s`: the body and the number of bytes it
    /// used.
    pub open spec fn parse(s: Seq<u8>) -> Result<(Self, nat), CodecError> {
        if s.len() < 4 {
            Err(CodecError::Truncated)
        } else {
            match spec_read_connid(s, 4) {
                Err(e) => Err(e),
                Ok((dst, n)) => match spec_read_connid(s, 4 + n) {
                    Err(e) => Err(e),
                    Ok((src, m)) => Ok(
                        (
                            LongHeaderModel {
                                version: be_value(s.subrange(0, 4)) as u32,
                                dst,
                                src,
                            },
                            4 + n + m,
                        ),
                    ),
                },
            }
        }
    }

    /// Both connection IDs hold 1 to 20 bytes, as a decoder requires.
    pub open spec fn wf(self) -> bool {
        1 <= self.dst.len() <= MAX_CONN_ID_LEN && 1 <= self.src.len() <= MAX_CONN_ID_LEN
    }
}

impl LongHeader {
    /// A body with version 0 and empty connection IDs.
    pub fn new() -> (r: Self)
        ensures
            r@ == (LongHeaderModel { version: 0, dst: Seq::empty(), src: Seq::empty() }),
    {
        LongHeader { version: 0x00000000, dst: ConnectionID::new(), src: ConnectionID::new() }
    }

    /// The protocol version.
    pub fn get_version(&self) -> (r: Version)
        ensures
            r == self@.version,
    {
        self.version
    }

    /// Sets the protocol version.
    pub fn set_version(&mut self, version: Version)
        ensures
            final(self)@ == (LongHeaderModel { version, ..old(self)@ }),
    {
        self.version = version;
    }

    /// The destination connection ID.
    pub fn get_dst(&self) -> (r: &[u8])
        ensures
            r@ == self@.dst,
    {
        self.dst.get_id()
    }

    /// Sets the destination connection ID.
    pub fn set_dst(&mut self, dst: ConnectionID)
        ensures
            final(self)@ == (LongHeaderModel { dst: dst@, ..old(self)@ }),
    {
        self.dst = dst;
    }

    /// The source connection ID.
    pub fn get_src(&self) -> (r: &[u8])
        ensures
            r@ == self@.src,
    {
        self.src.get_id()
    }

    /// Sets the source connection ID.
    pub fn set_src(&mut self, src: ConnectionID)
        ensures
            final(self)@ == (LongHeaderModel { src: src@, ..old(self)@ }),
    {
        self.src = src;
    }

    /// Appends the body and returns the number of bytes written.
    pub fn write(&self, out: &mut Vec<u8>) -> (r: usize)
        ensures
            final(out)@ == old(out)@ + self@.encode(),
            r == self@.encode().len(),
    {
        to_bigendian(self.version as u64, 4, out);
        let dst = self.dst.get_id();
        let src = self.src.get_id();
        let n = write_packet_header_connid(dst, out);
        let m = write_packet_header_connid(src, out);
        proof {
            lemma_be_bytes_len(self.version as nat, 4);
        }
        assert(out@ =~= old(out)@ + self@.encode());
        4 + n + m
    }

    /// Decodes the body from the start of `input` and returns the number of
    /// bytes used. On failure the body is left as it was.
    pub fn read(&mut self, input: &[u8]) -> (r: Result<usize, CodecError>)
        ensures
            match LongHeaderModel::parse(input@) {
                Ok((m, n)) => r == Ok::<usize, CodecError>(n as usize) && final(self)@ == m && n
                    <= input@.len(),
                Err(e) => r == Err::<usize, CodecError>(e) && final(self)@ == old(self)@,
            },
    {
        if input.len() < 4 {
            return Err(CodecError::Truncated);
        }
        let raw = from_bigendian(input, 0, 4);
        proof {
            lemma_be_value_bound(input@.subrange(0, 4));
            lemma_pow256_values();
        }
        let (n, dst) = read_packet_header_connid(input, 4)?;
        let (m, src) = read_packet_header_connid(input, 4 + n)?;
        self.version = raw as u32;
        self.dst = dst;
        self.src = src;
        Ok(4 + n + m)
    }
}

/// A connection ID written as a long header sends it reads back as the
/// same connection ID, whatever stands before and after it.
pub proof fn lemma_connid_round_trip(id: Seq<u8>, before: Seq<u8>, after: Seq<u8>)
    requires
        1 <= id.len() <= MAX_CONN_ID_LEN,
    ensures
        spec_read_connid(before + connid_bytes(id) + after, before.len()) == Ok::<
            (Seq<u8>, nat),
            CodecError,
        >((id, connid_bytes(id).len())),
{
    let s = before + connid_bytes(id) + after;
    let at = before.len() as int;
    assert(s[at] == id.len() as u8);
    assert(s.subrange(at + 1, at + 1 + id.len()) =~= id);
}

/// Decoding the body that the encoder wrote gives back the same body and
/// uses exactly its bytes, whatever follows, when both connection IDs hold
/// 1 to 20 bytes.
pub proof fn lemma_long_header_round_trip(h: LongHeaderModel, rest: Seq<u8>)
    requires
        h.wf(),
    ensures
        LongHeaderModel::parse(h.encode() + rest)
            == Ok::<(LongHeaderModel, nat), CodecError>((h, h.encode().len())),
{
    let v = be_bytes(h.version as nat, 4);
    let d = connid_bytes(h.dst);
    let c = connid_bytes(h.src);
    let s = h.encode() + rest;
    lemma_be_bytes_len(h.version as nat, 4);
    lemma_be_value_of_bytes(h.version as nat, 4);
    lemma_pow256_values();
    lemma_small_mod(h.version as nat, 0x1_0000_0000);
    assert(s.subrange(0, 4) =~= v);
    lemma_connid_round_trip(h.dst, v, c + rest);
    assert(s =~= v + d + (c + rest));
    lemma_connid_round_trip(h.src, v + d, rest);
    assert(s =~= (v + d) + c + rest);
}

} // verus!
