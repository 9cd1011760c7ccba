//! Variable-length integers: 1, 2, 4 or 8 bytes, the length class held in
//! the two most significant bits of the first byte.
use vstd::prelude::*;
use crate::byteorder::{
    be_bytes, be_value, from_bigendian, lemma_be_bytes_first, lemma_be_bytes_len,
    lemma_be_value_of_bytes, lemma_pow256_values, pow256, to_bigendian,
};
use crate::error::CodecError;
use vstd::arithmetic::div_mod::lemma_small_mod;

verus! {

/// The largest value a variable-length integer can hold, `2^62 - 1`.
pub const VARINT_MAX: u64 = 0x3fff_ffff_ffff_ffff;

/// A decoded variable-length integer and the number of bytes it took.
#[derive(Clone, Copy, Debug, PartialEq, Eq, Structural)]
pub struct Varint {
    pub value: u64,
    pub size: usize,
}

/// The length class the encoder picks for `v`: the smallest that holds it.
pub open spec fn varint_len(v: nat) -> nat {
    if v < 0x40 {
        1
    } else if v < 0x4000 {
        2
    } else if v < 0x4000_0000 {
        4
    } else {
        8
    }
}

/// The length class that a first byte announces in its two top bits.
pub open spec fn varint_class_len(first: u8) -> nat {
    if first < 0x40 {
        1
    } else if first < 0x80 {
        2
    } else if first < 0xc0 {
        4
    } else {
        8
    }
}

/// One more than the largest value of a length class: the value bits are
/// those of the class minus the two selector bits.
pub open spec fn varint_base(n: nat) -> nat {
    if n == 1 {
        0x40
    } else if n == 2 {
        0x4000
    } else if n == 4 {
        0x4000_0000
    } else {
        0x4000_0000_0000_0000
    }
}

/// The two selector bits of a length class, as a number.
pub open spec fn varint_tag(n: nat) -> nat {
    if n == 1 {
        0
    } else if n == 2 {
        1
    } else if n == 4 {
        2
    } else {
        3
    }
}

/// The bytes the encoder writes for `v`.
pub open spec fn varint_bytes(v: nat) -> Seq<u8> {
    let n = varint_len(v);
    be_bytes(v + varint_tag(n) * varint_base(n), n)
}

/// What a decoder reads at position `at` of `s`: the selector bits of the
/// first byte give the length; the value is the big-endian number of that
/// many bytes with the selector bits cleared.
pub open spec fn spec_read_varint(s: Seq<u8>, at: nat) -> Result<Varint, CodecError> {
    if at >= s.len() {
        Err(CodecError::Truncated)
    } else {
        let n = varint_class_len(s[at as int]);
        if at + n > s.len() {
            Err(CodecError::Truncated)
        } else {
            Ok(
                Varint {
                    value: (be_value(s.subrange(at as int, (at + n) as int)) % varint_base(n)) as u64,
                    size: n as usize,
                },
            )
        }
    }
}

/// Decodes the variable-length integer that starts at `input[pos]`.
pub fn read_varint(input: &[u8], pos: usize) -> (r: Result<Varint, CodecError>)
    ensures
        r == spec_read_varint(input@, pos as nat),
{
    let len = input.len();
    if pos >= len {
        return Err(CodecError::Truncated);
    }
    let first = input[pos];
    let size: usize = if first < 0x40 {
        1
    } else if first < 0x80 {
        2
    } else if first < 0xc0 {
        4
    } else {
        8
    };
    if size > len - pos {
        return Err(CodecError::Truncated);
    }
    let raw = from_bigendian(input, pos, size);
    let value = if size == 1 {
        raw % 0x40
    } else if size == 2 {
        raw % 0x4000
    } else if size == 4 {
        raw % 0x4000_0000
    } else {
        raw % 0x4000_0000_0000_0000
    };
    Ok(Varint { value, size })
}

/// Decodes the variable-length integer at `input[pos]` and returns it with
/// the position of the byte after it.
pub(crate) fn read_next(input: &[u8], pos: usize) -> (r: Result<(Varint, usize), CodecError>)
    ensures
        match spec_read_varint(input@, pos as nat) {
            Ok(v) => r is Ok && (r->Ok_0).0 == v && (r->Ok_0).1 == pos + v.size && pos + v.size
                <= input@.len(),
            Err(e) => r == Err::<(Varint, usize), CodecError>(e),
        },
{
    let len = input.len();
    let v = read_varint(input, pos)?;
    assert(pos + v.size <= len);
    Ok((v, pos + v.size))
}

/// Appends the shortest encoding of `n` to `out` and returns its length.
/// Values above `2^62 - 1` cannot be encoded: `out` is left as it was.
pub fn write_varint(n: u64, out: &mut Vec<u8>) -> (r: Result<usize, CodecError>)
    ensures
        n <= VARINT_MAX ==> r == Ok::<usize, CodecError>(varint_len(n as nat) as usize)
            && final(out)@ == old(out)@ + varint_bytes(n as nat),
        n > VARINT_MAX ==> r == Err::<usize, CodecError>(CodecError::OutOfRange)
            && final(out)@ == old(out)@,
{
    if n <= 63 {
        assert(varint_bytes(n as nat) == be_bytes(n as nat, 1));
        to_bigendian(n, 1, out);
        Ok(1)
    } else if n <= 16383 {
        assert(varint_bytes(n as nat) == be_bytes((n + 0x4000) as nat, 2));
        to_bigendian(n + 0x4000, 2, out);
        Ok(2)
    } else if n <= 1073741823 {
        assert(varint_bytes(n as nat) == be_bytes((n + 0x8000_0000) as nat, 4));
        to_bigendian(n + 0x8000_0000, 4, out);
        Ok(4)
    } else if n <= VARINT_MAX {
        assert(varint_bytes(n as nat) == be_bytes((n + 0xc000_0000_0000_0000) as nat, 8));
        to_bigendian(n + 0xc000_0000_0000_0000, 8, out);
        Ok(8)
    } else {
        Err(CodecError::OutOfRange)
    }
}

pub proof fn lemma_varint_bytes_len(v: nat)
    ensures
        varint_bytes(v).len() == varint_len(v),
{
    let n = varint_len(v);
    lemma_be_bytes_len(v + varint_tag(n) * varint_base(n), n);
}

/// Decoding what the encoder wrote gives back the value and the length the
/// encoder chose, whatever stands before and after it.
pub proof fn lemma_varint_round_trip(v: u64, before: Seq<u8>, after: Seq<u8>)
    requires
        v <= VARINT_MAX,
    ensures
        varint_bytes(v as nat).len() == varint_len(v as nat),
        spec_read_varint(before + varint_bytes(v as nat) + after, before.len()) == Ok::<
            Varint,
            CodecError,
        >(Varint { value: v, size: varint_len(v as nat) as usize }),
{
    let n = varint_len(v as nat);
    let x: nat = (v + varint_tag(n) * varint_base(n)) as nat;
    let b = varint_bytes(v as nat);
    let s = before + b + after;
    let p = before.len();
    lemma_varint_bytes_len(v as nat);
    assert(s.subrange(p as int, (p + n) as int) =~= b);
    assert(s[p as int] == b[0]);
    lemma_be_value_of_bytes(x, n);
    lemma_be_bytes_first(x, n);
    lemma_pow256_values();
    assert(4 * varint_base(n) == pow256(n));
    assert(x < pow256(n));
    lemma_small_mod(x, pow256(n));
    if n == 1 {
        assert(b[0] == x % 256);
    } else if n == 2 {
        assert(b[0] == (x / 0x100) % 256);
        assert(0x40 <= x / 0x100 < 0x80);
    } else if n == 4 {
        assert(b[0] == (x / 0x100_0000) % 256);
        assert(0x80 <= x / 0x100_0000 < 0xc0);
    } else {
        assert(b[0] == (x / 0x100_0000_0000_0000) % 256);
        assert(0xc0 <= x / 0x100_0000_0000_0000 < 0x100);
    }
    assert(x % varint_base(n) == v);
    assert(varint_class_len(b[0]) == n);
}

/// Bytes appended after a complete variable-length integer do not change
/// what is read.
pub proof fn lemma_read_varint_extend(s: Seq<u8>, rest: Seq<u8>, at: nat)
    requires
        spec_read_varint(s, at) is Ok,
    ensures
        spec_read_varint(s + rest, at) == spec_read_varint(s, at),
{
    let n = varint_class_len(s[at as int]);
    assert((s + rest)[at as int] == s[at as int]);
    assert((s + rest).subrange(at as int, (at + n) as int) =~= s.subrange(at as int, (at + n) as int));
}

/// The encoding of `v` found at position `at` of `s` reads as `v`.
pub proof fn lemma_varint_at(v: u64, s: Seq<u8>, at: nat)
    requires
        v <= VARINT_MAX,
        at + varint_len(v as nat) <= s.len(),
        s.subrange(at as int, (at + varint_len(v as nat)) as int) == varint_bytes(v as nat),
    ensures
        spec_read_varint(s, at) == Ok::<Varint, CodecError>(
            Varint { value: v, size: varint_len(v as nat) as usize },
        ),
{
    let n = varint_len(v as nat);
    lemma_varint_round_trip(v, s.take(at as int), s.skip((at + n) as int));
    assert(s =~= s.take(at as int) + varint_bytes(v as nat) + s.skip((at + n) as int));
}

} // verus!
