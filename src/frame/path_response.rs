//! PATH_RESPONSE frame: answers a PATH_CHALLENGE with its data.
use vstd::prelude::*;
use crate::byteorder::{append_bytes, read_bytes, spec_read_bytes, to_array};
use crate::error::CodecError;
use crate::frame::types::{tag_of, FrameType};

verus! {

/// PATH_RESPONSE frame: answers a PATH_CHALLENGE with its data.
///
/// On the wire: the tag, then 8 bytes of opaque data.
pub struct PathResponseFrame {
    data: [u8; 8],
}

/// The content of a [`PathResponseFrame`].
pub struct PathResponseFrameModel {
    /// The 8 bytes of data.
    pub data: Seq<u8>,
}

impl View for PathResponseFrame {
    type V = PathResponseFrameModel;

    closed spec fn view(&self) -> PathResponseFrameModel {
        PathResponseFrameModel { data: self.data@ }
    }
}

impl PathResponseFrameModel {
    /// The whole frame: the tag, then the data.
    pub open spec fn encode(self) -> Seq<u8> {
        seq![tag_of(FrameType::PathResponse)] + self.data
    }

    /// What a decoder makes of `s`, the bytes after the tag: the frame and
    /// the number of bytes it used.
    pub open spec fn parse(s: Seq<u8>) -> Result<(Self, nat), CodecError> {
        match spec_read_bytes(s, 0, 8) {
            Err(e) => Err(e),
            Ok((data, end)) => Ok((PathResponseFrameModel { data }, end)),
        }
    }
}

impl PathResponseFrame {
    /// A frame whose data is 8 zero bytes.
    pub fn new() -> (r: Self)
        ensures
            r@ == (PathResponseFrameModel { data: Seq::new(8, |i: int| 0u8) }),
    {
        let r = PathResponseFrame { data: [0u8; 8] };
        assert(r.data@ =~= Seq::new(8, |i: int| 0u8));
        r
    }

    /// The data.
    pub fn get_data(&self) -> (r: &[u8])
        ensures
            r@ == self@.data,
    {
        self.data.as_slice()
    }

    /// Replaces the data with `data`, which must hold exactly 8 bytes.
    pub fn set_data(&mut self, data: &[u8])
        requires
            data@.len() == 8,
        ensures
            final(self)@.data == data@,
    {
        self.data = to_array(data);
    }

    /// Appends the frame, tag first, and returns the number of bytes
    /// written, always 9.
    pub fn write(&self, out: &mut Vec<u8>) -> (r: usize)
        ensures
            r == self@.encode().len(),
            final(out)@ == old(out)@ + self@.encode(),
    {
        let start = out.len();
        out.push(u8::from(FrameType::PathResponse));
        append_bytes(out, self.data.as_slice());
        assert(out@ =~= old(out)@ + self@.encode());
        out.len() - start
    }

    /// Decodes the data from `input`, which starts right after the tag,
    /// and returns the number of bytes used, always 8. On failure the
    /// frame is left as it was.
    pub fn read(&mut self, input: &[u8]) -> (r: Result<usize, CodecError>)
        ensures
            match PathResponseFrameModel::parse(input@) {
                Ok((m, n)) => r == Ok::<usize, CodecError>(n as usize) && final(self)@ == m && n
                    <= input@.len(),
                Err(e) => r == Err::<usize, CodecError>(e) && final(self)@ == old(self)@,
            },
    {
        let (data, end) = read_bytes(input, 0, 8)?;
        self.data = to_array(data.as_slice());
        Ok(end)
    }
}

} // verus!
