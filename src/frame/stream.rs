//! STREAM frame: carries data of one stream.
use vstd::prelude::*;
use crate::byteorder::{append_bytes, copy_bytes, read_bytes, spec_read_bytes};
use crate::error::CodecError;
use crate::frame::types::{tag_of, FrameType};
use crate::varint::{
    lemma_read_varint_extend, lemma_varint_at, lemma_varint_bytes_len, read_next,
    spec_read_varint, varint_bytes, write_varint, VARINT_MAX,
};

verus! {

/// STREAM frame.
///
/// On the wire: the tag 0x08 with the three flags in its low bits (offset
/// present, length present, final frame), the stream ID, the offset when
/// `off_flag` is set, the data length when `len_flag` is set, then the
/// data. Without a length the data runs to the end of the input.
pub struct StreamFrame {
    off_flag: bool,
    len_flag: bool,
    fin_flag: bool,
    stream_id: u64,
    offset: u64,
    data: Vec<u8>,
}

/// The content of a [`StreamFrame`].
pub struct StreamFrameModel {
    /// Whether the offset is sent.
    pub off_flag: bool,
    /// Whether the data length is sent.
    pub len_flag: bool,
    /// Whether this frame ends the stream.
    pub fin_flag: bool,
    /// The stream the data belongs to.
    pub stream_id: u64,
    /// The position of the data in the stream; 0 when not sent.
    pub offset: u64,
    /// The data.
    pub data: Seq<u8>,
}

impl View for StreamFrame {
    type V = StreamFrameModel;

    closed spec fn view(&self) -> StreamFrameModel {
        StreamFrameModel {
            off_flag: self.off_flag,
            len_flag: self.len_flag,
            fin_flag: self.fin_flag,
            stream_id: self.stream_id,
            offset: self.offset,
            data: self.data@,
        }
    }
}

/// What a decoder makes of the offset at position `at` of `s`: read only
/// when `off_flag` is set, else 0. Gives the offset and the position after
/// it.
pub open spec fn parse_offset(off_flag: bool, s: Seq<u8>, at: nat) -> Result<(u64, nat), CodecError> {
    if !off_flag {
        Ok((0, at))
    } else {
        match spec_read_varint(s, at) {
            Err(e) => Err(e),
            Ok(v) => Ok((v.value, (at + v.size) as nat)),
        }
    }
}

/// What a decoder makes of the data at position `at` of `s`: with
/// `len_flag` a length and that many bytes; without it, every byte up to
/// the end. Gives the data and the position after it.
pub open spec fn parse_data(len_flag: bool, s: Seq<u8>, at: nat) -> Result<(Seq<u8>, nat), CodecError> {
    if !len_flag {
        Ok((s.subrange(at as int, s.len() as int), s.len()))
    } else {
        match spec_read_varint(s, at) {
            Err(e) => Err(e),
            Ok(n) => spec_read_bytes(s, (at + n.size) as nat, n.value as nat),
        }
    }
}

impl StreamFrameModel {
    /// Every number the frame sends fits a variable-length integer.
    pub open spec fn encodable(self) -> bool {
        &&& self.stream_id <= VARINT_MAX
        &&& self.off_flag ==> self.offset <= VARINT_MAX
        &&& self.len_flag ==> self.data.len() <= VARINT_MAX
    }

    /// The offset as sent: nothing without `off_flag`.
    pub open spec fn offset_bytes(self) -> Seq<u8> {
        if self.off_flag {
            varint_bytes(self.offset as nat)
        } else {
            Seq::empty()
        }
    }

    /// The data length as sent: nothing without `len_flag`.
    pub open spec fn length_bytes(self) -> Seq<u8> {
        if self.len_flag {
            varint_bytes(self.data.len())
        } else {
            Seq::empty()
        }
    }

    /// The bytes that follow the tag.
    pub open spec fn payload(self) -> Seq<u8> {
        varint_bytes(self.stream_id as nat) + self.offset_bytes() + self.length_bytes() + self.data
    }

    /// The whole frame: the tag, then the payload.
    pub open spec fn encode(self) -> Seq<u8> {
        seq![
            tag_of(
                FrameType::Stream {
                    off_flag: self.off_flag,
                    len_flag: self.len_flag,
                    fin_flag: self.fin_flag,
                },
            ),
        ] + self.payload()
    }

    /// What a decoder makes of `s`, the bytes after the tag, with the flags
    /// the tag carried: the frame and the number of bytes it used.
    pub open spec fn parse(off_flag: bool, len_flag: bool, fin_flag: bool, s: Seq<u8>) -> Result<
        (Self, nat),
        CodecError,
    > {
        match spec_read_varint(s, 0) {
            Err(e) => Err(e),
            Ok(id) => match parse_offset(off_flag, s, id.size as nat) {
                Err(e) => Err(e),
                Ok((offset, p)) => match parse_data(len_flag, s, p) {
                    Err(e) => Err(e),
                    Ok((data, end)) => Ok(
                        (
                            StreamFrameModel {
                                off_flag,
                                len_flag,
                                fin_flag,
                                stream_id: id.value,
                                offset,
                                data,
                            },
                            end,
                        ),
                    ),
                },
            },
        }
    }
}

impl StreamFrame {
    /// An empty frame of stream 0 at offset 0, with the given flags.
    pub fn new(off_flag: bool, len_flag: bool, fin_flag: bool) -> (r: Self)
        ensures
            r@ == (StreamFrameModel {
                off_flag,
                len_flag,
                fin_flag,
                stream_id: 0,
                offset: 0,
                data: Seq::empty(),
            }),
    {
        StreamFrame { off_flag, len_flag, fin_flag, stream_id: 0, offset: 0, data: Vec::new() }
    }

    /// Whether this frame ends the stream.
    pub fn get_fin_flag(&self) -> (r: bool)
        ensures
            r == self@.fin_flag,
    {
        self.fin_flag
    }

    /// Sets whether this frame ends the stream.
    pub fn set_fin_flag(&mut self, fin_flag: bool)
        ensures
            final(self)@ == (StreamFrameModel { fin_flag, ..old(self)@ }),
    {
        self.fin_flag = fin_flag;
    }

    /// Whether the data length is sent.
    pub fn get_len_flag(&self) -> (r: bool)
        ensures
            r == self@.len_flag,
    {
        self.len_flag
    }

    /// Sets whether the data length is sent.
    pub fn set_len_flag(&mut self, len_flag: bool)
        ensures
            final(self)@ == (StreamFrameModel { len_flag, ..old(self)@ }),
    {
        self.len_flag = len_flag;
    }

    /// Whether the offset is sent.
    pub fn get_off_flag(&self) -> (r: bool)
        ensures
            r == self@.off_flag,
    {
        self.off_flag
    }

    /// Sets whether the offset is sent.
    pub fn set_off_flag(&mut self, off_flag: bool)
        ensures
            final(self)@ == (StreamFrameModel { off_flag, ..old(self)@ }),
    {
        self.off_flag = off_flag;
    }

    /// The stream the data belongs to.
    pub fn get_stream_id(&self) -> (r: u64)
        ensures
            r == self@.stream_id,
    {
        self.stream_id
    }

    /// Sets the stream the data belongs to.
    pub fn set_stream_id(&mut self, stream_id: u64)
        ensures
            final(self)@ == (StreamFrameModel { stream_id, ..old(self)@ }),
    {
        self.stream_id = stream_id;
    }

    /// The offset and the data.
    pub fn get_data(&self) -> (r: (u64, &[u8]))
        ensures
            r.0 == self@.offset,
            r.1@ == self@.data,
    {
        (self.offset, self.data.as_slice())
    }

    /// Sets the offset and appends `data` to the data held.
    pub fn set_data(&mut self, offset: u64, data: &[u8])
        ensures
            final(self)@ == (StreamFrameModel { offset, data: old(self)@.data + data@, ..old(self)@ }),
    {
        self.offset = offset;
        append_bytes(&mut self.data, data);
    }

    /// Appends the frame, tag first, and returns the number of bytes
    /// written. A number above `2^62 - 1` is refused and `out` is left as it
    /// was.
    pub fn write(&self, out: &mut Vec<u8>) -> (r: Result<usize, CodecError>)
        ensures
            self@.encodable() ==> r == Ok::<usize, CodecError>(self@.encode().len() as usize)
                && final(out)@ == old(out)@ + self@.encode(),
            !self@.encodable() ==> r == Err::<usize, CodecError>(CodecError::OutOfRange)
                && final(out)@ == old(out)@,
    {
        let len = self.data.len() as u64;
        if self.stream_id > VARINT_MAX || (self.off_flag && self.offset > VARINT_MAX) || (
        self.len_flag && len > VARINT_MAX) {
            return Err(CodecError::OutOfRange);
        }
        let start = out.len();
        out.push(
            u8::from(
                FrameType::Stream {
                    off_flag: self.off_flag,
                    len_flag: self.len_flag,
                    fin_flag: self.fin_flag,
                },
            ),
        );
        write_varint(self.stream_id, out)?;
        if self.off_flag {
            write_varint(self.offset, out)?;
        }
        if self.len_flag {
            write_varint(len, out)?;
        }
        append_bytes(out, self.data.as_slice());
        assert(out@ =~= old(out)@ + self@.encode());
        Ok(out.len() - start)
    }

    /// Decodes the fields from `input`, which starts right after the tag,
    /// and returns the number of bytes used. Without `len_flag` the data is
    /// the rest of `input`; with it, exactly the announced number of bytes,
    /// and what follows them is not used. On failure the frame is left as it
    /// was.
    pub fn read(&mut self, input: &[u8]) -> (r: Result<usize, CodecError>)
        ensures
            match StreamFrameModel::parse(
                old(self)@.off_flag,
                old(self)@.len_flag,
                old(self)@.fin_flag,
                input@,
            ) {
                Ok((m, n)) => r == Ok::<usize, CodecError>(n as usize) && final(self)@ == m && n
                    <= input@.len(),
                Err(e) => r == Err::<usize, CodecError>(e) && final(self)@ == old(self)@,
            },
    {
        let (stream_id, pos) = read_next(input, 0)?;
        let (offset, pos) = if self.off_flag {
            let (offset, pos) = read_next(input, pos)?;
            (offset.value, pos)
        } else {
            (0, pos)
        };
        let (data, end) = if self.len_flag {
            let (n, pos) = read_next(input, pos)?;
            read_bytes(input, pos, n.value)?
        } else {
            let total = input.len();
            (copy_bytes(input, pos, total - pos), total)
        };
        self.stream_id = stream_id.value;
        self.offset = offset;
        self.data = data;
        Ok(end)
    }
}

/// With `len_flag` the decoder reads exactly the announced data: bytes
/// after the frame never change what is decoded, nor how many bytes are
/// used.
pub proof fn lemma_stream_len_flag_ignores_trailing(
    off_flag: bool,
    fin_flag: bool,
    s: Seq<u8>,
    rest: Seq<u8>,
)
    requires
        StreamFrameModel::parse(off_flag, true, fin_flag, s) is Ok,
    ensures
        StreamFrameModel::parse(off_flag, true, fin_flag, s + rest) == StreamFrameModel::parse(
            off_flag,
            true,
            fin_flag,
            s,
        ),
{
    let id = spec_read_varint(s, 0)->Ok_0;
    lemma_read_varint_extend(s, rest, 0);
    let at1 = id.size as nat;
    if off_flag {
        lemma_read_varint_extend(s, rest, at1);
    }
    let at2 = parse_offset(off_flag, s, at1)->Ok_0.1;
    lemma_read_varint_extend(s, rest, at2);
    let n = spec_read_varint(s, at2)->Ok_0;
    let at3 = at2 + n.size;
    assert((s + rest).subrange(at3 as int, at3 + n.value) =~= s.subrange(at3 as int, at3 + n.value));
}

/// Without `len_flag` the decoder takes every byte after the header as
/// data: whenever it succeeds it has used the whole input.
pub proof fn lemma_stream_no_len_flag_takes_all(off_flag: bool, fin_flag: bool, s: Seq<u8>)
    requires
        StreamFrameModel::parse(off_flag, false, fin_flag, s) is Ok,
    ensures
        StreamFrameModel::parse(off_flag, false, fin_flag, s)->Ok_0.1 == s.len(),
{
}

/// The stream ID and offset that the encoder wrote read back, and the data
/// starts right after the header.
proof fn lemma_stream_header(m: StreamFrameModel, rest: Seq<u8>)
    requires
        m.encodable(),
        !m.off_flag ==> m.offset == 0,
    ensures
        ({
            let s = m.payload() + rest;
            let h = varint_bytes(m.stream_id as nat) + m.offset_bytes();
            &&& spec_read_varint(s, 0) is Ok
            &&& spec_read_varint(s, 0)->Ok_0.value == m.stream_id
            &&& parse_offset(m.off_flag, s, spec_read_varint(s, 0)->Ok_0.size as nat) == Ok::<
                (u64, nat),
                CodecError,
            >((m.offset, h.len()))
            &&& s == h + (m.length_bytes() + m.data + rest)
        }),
{
    let s = m.payload() + rest;
    let b0 = varint_bytes(m.stream_id as nat);
    let ob = m.offset_bytes();
    lemma_varint_bytes_len(m.stream_id as nat);
    lemma_varint_bytes_len(m.offset as nat);
    let at1 = b0.len() as int;
    assert(s.subrange(0, at1) =~= b0);
    lemma_varint_at(m.stream_id, s, 0);
    if m.off_flag {
        assert(s.subrange(at1, at1 + ob.len()) =~= ob);
        lemma_varint_at(m.offset, s, at1 as nat);
    }
    assert(s =~= (b0 + ob) + (m.length_bytes() + m.data + rest));
}

/// Decoding the payload that the encoder wrote, with the flags its tag
/// carries, gives back the frame. With `len_flag` exactly the payload is
/// used and whatever follows stays unread; without it every byte that
/// follows is taken as more data. A frame that sends no offset is at
/// offset 0.
pub proof fn lemma_stream_round_trip(m: StreamFrameModel, rest: Seq<u8>)
    requires
        m.encodable(),
        !m.off_flag ==> m.offset == 0,
    ensures
        m.len_flag ==> StreamFrameModel::parse(m.off_flag, m.len_flag, m.fin_flag, m.payload() + rest)
            == Ok::<(StreamFrameModel, nat), CodecError>((m, m.payload().len())),
        !m.len_flag ==> StreamFrameModel::parse(
            m.off_flag,
            m.len_flag,
            m.fin_flag,
            m.payload() + rest,
        )
            == Ok::<(StreamFrameModel, nat), CodecError>(
                (StreamFrameModel { data: m.data + rest, ..m }, m.payload().len() + rest.len()),
            ),
{
    let s = m.payload() + rest;
    let h = varint_bytes(m.stream_id as nat) + m.offset_bytes();
    lemma_stream_header(m, rest);
    let at2 = h.len() as int;
    let lb = m.length_bytes();
    if m.len_flag {
        lemma_varint_bytes_len(m.data.len());
        let at3 = at2 + lb.len();
        assert(s.subrange(at2, at3) =~= lb);
        lemma_varint_at(m.data.len() as u64, s, at2 as nat);
        assert(s.subrange(at3, at3 + m.data.len()) =~= m.data);
        assert(parse_data(m.len_flag, s, at2 as nat) == Ok::<(Seq<u8>, nat), CodecError>(
            (m.data, m.payload().len()),
        ));
    } else {
        assert(s.subrange(at2, s.len() as int) =~= m.data + rest);
    }
}

} // verus!
