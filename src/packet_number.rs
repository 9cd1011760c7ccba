//! Packet numbers: 62-bit counters sent as their 1 to 4 low-order bytes.
use vstd::prelude::*;
use crate::byteorder::{
    be_bytes, be_value, from_bigendian, lemma_be_bytes_len, lemma_be_value_of_bytes,
    lemma_pow256_values, pow256, to_bigendian,
};
use crate::error::CodecError;
use vstd::arithmetic::div_mod::lemma_small_mod;

verus! {

/// A packet number; only its low-order bytes travel on the wire.
pub type PacketNumber = u64;

/// How many bytes a packet number is sent in: the smallest width whose
/// range holds twice its value, so that a receiver can place it within a
/// window of half that range. `None` when even 4 bytes are too few.
pub open spec fn spec_serialize_len(pn: nat) -> Option<nat> {
    if 2 * pn <= 0xff {
        Some(1)
    } else if 2 * pn <= 0xffff {
        Some(2)
    } else if 2 * pn <= 0xff_ffff {
        Some(3)
    } else if 2 * pn <= 0xffff_ffff {
        Some(4)
    } else {
        None
    }
}

/// What `read_fixed` reads: `len` bytes at `at`, as a big-endian number.
pub open spec fn spec_read_fixed(len: nat, s: Seq<u8>, at: nat) -> Result<u64, CodecError> {
    if !(1 <= len <= 4) {
        Err(CodecError::UnsupportedLength)
    } else if at + len > s.len() {
        Err(CodecError::Truncated)
    } else {
        Ok(be_value(s.subrange(at as int, (at + len) as int)) as u64)
    }
}

/// The number of bytes that `pn` is sent in; `OutOfRange` when twice its
/// value exceeds `0xffff_ffff`.
pub fn serialize_len(pn: PacketNumber) -> (r: Result<usize, CodecError>)
    ensures
        match spec_serialize_len(pn as nat) {
            Some(n) => r == Ok::<usize, CodecError>(n as usize),
            None => r == Err::<usize, CodecError>(CodecError::OutOfRange),
        },
{
    if pn <= 0x7f {
        Ok(1)
    } else if pn <= 0x7fff {
        Ok(2)
    } else if pn <= 0x7f_ffff {
        Ok(3)
    } else if pn <= 0x7fff_ffff {
        Ok(4)
    } else {
        Err(CodecError::OutOfRange)
    }
}

/// Appends the `len` low-order bytes of `pn`, most significant first. A
/// width outside `1..=4` is refused and `out` is left as it was.
pub fn write_fixed(pn: PacketNumber, len: usize, out: &mut Vec<u8>) -> (r: Result<(), CodecError>)
    ensures
        1 <= len <= 4 ==> r == Ok::<(), CodecError>(()) && final(out)@ == old(out)@ + be_bytes(
            pn as nat,
            len as nat,
        ),
        !(1 <= len <= 4) ==> r == Err::<(), CodecError>(CodecError::UnsupportedLength)
            && final(out)@ == old(out)@,
{
    if 1 <= len && len <= 4 {
        to_bigendian(pn, len, out);
        Ok(())
    } else {
        Err(CodecError::UnsupportedLength)
    }
}

/// Reads a packet number sent in `len` bytes, starting at `input[pos]`.
pub fn read_fixed(len: usize, input: &[u8], pos: usize) -> (r: Result<PacketNumber, CodecError>)
    ensures
        r == spec_read_fixed(len as nat, input@, pos as nat),
{
    if len < 1 || len > 4 {
        return Err(CodecError::UnsupportedLength);
    }
    let total = input.len();
    if pos > total || len > total - pos {
        return Err(CodecError::Truncated);
    }
    proof {
        lemma_be_value_bound_small(input@.subrange(pos as int, pos + len));
    }
    Ok(from_bigendian(input, pos, len))
}

proof fn lemma_be_value_bound_small(s: Seq<u8>)
    requires
        s.len() <= 4,
    ensures
        be_value(s) < 0x1_0000_0000,
{
    crate::byteorder::lemma_be_value_bound(s);
    lemma_pow256_values();
    if s.len() < 4 {
        crate::byteorder::lemma_pow256_mono(s.len(), 4);
    }
}

/// A packet number written in the width `serialize_len` picks reads back
/// as the same number, whatever stands before and after it.
pub proof fn lemma_packet_number_round_trip(pn: PacketNumber, before: Seq<u8>, after: Seq<u8>)
    requires
        spec_serialize_len(pn as nat) is Some,
    ensures
        ({
            let n = spec_serialize_len(pn as nat)->0;
            &&& be_bytes(pn as nat, n).len() == n
            &&& spec_read_fixed(n, before + be_bytes(pn as nat, n) + after, before.len())
                == Ok::<u64, CodecError>(pn)
        }),
{
    let n = spec_serialize_len(pn as nat)->0;
    let b = be_bytes(pn as nat, n);
    lemma_be_bytes_len(pn as nat, n);
    lemma_be_value_of_bytes(pn as nat, n);
    lemma_pow256_values();
    assert((before + b + after).subrange(before.len() as int, (before.len() + n) as int) =~= b);
    assert(pn < pow256(n));
    lemma_small_mod(pn as nat, pow256(n));
}

} // verus!
