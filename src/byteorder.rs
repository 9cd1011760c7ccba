//! Fixed-width unsigned integers in network (big-endian) byte order.
use vstd::prelude::*;
use vstd::slice::{slice_subrange, slice_to_vec};
use crate::error::CodecError;
use vstd::arithmetic::div_mod::{lemma_div_denominator, lemma_mod_breakdown, lemma_div_pos_is_pos};
use vstd::arithmetic::mul::lemma_mul_strictly_positive;

verus! {

/// `256` raised to the power `n`: one more than the largest value that `n`
/// bytes can hold.
pub open spec fn pow256(n: nat) -> nat
    decreases n,
{
    if n == 0 {
        1
    } else {
        256 * pow256((n - 1) as nat)
    }
}

/// The number whose big-endian representation is `s`.
pub open spec fn be_value(s: Seq<u8>) -> nat
    decreases s.len(),
{
    if s.len() == 0 {
        0
    } else {
        be_value(s.drop_last()) * 256 + s.last() as nat
    }
}

/// The `n` low-order bytes of `v`, most significant first.
pub open spec fn be_bytes(v: nat, n: nat) -> Seq<u8>
    decreases n,
{
    if n == 0 {
        Seq::empty()
    } else {
        be_bytes(v / 256, (n - 1) as nat).push((v % 256) as u8)
    }
}

pub proof fn lemma_pow256_pos(n: nat)
    ensures
        pow256(n) > 0,
    decreases n,
{
    if n > 0 {
        lemma_pow256_pos((n - 1) as nat);
    }
}

/// The powers of 256 that fixed-width fields use.
pub proof fn lemma_pow256_values()
    ensures
        pow256(0) == 1,
        pow256(1) == 0x100,
        pow256(2) == 0x1_0000,
        pow256(3) == 0x100_0000,
        pow256(4) == 0x1_0000_0000,
        pow256(7) == 0x100_0000_0000_0000,
        pow256(8) == 0x1_0000_0000_0000_0000,
{
    reveal_with_fuel(pow256, 9);
}

pub proof fn lemma_be_bytes_len(v: nat, n: nat)
    ensures
        be_bytes(v, n).len() == n,
    decreases n,
{
    if n > 0 {
        lemma_be_bytes_len(v / 256, (n - 1) as nat);
    }
}

/// A big-endian byte string denotes a number below `256^len`.
pub proof fn lemma_be_value_bound(s: Seq<u8>)
    ensures
        be_value(s) < pow256(s.len()),
    decreases s.len(),
{
    if s.len() > 0 {
        lemma_be_value_bound(s.drop_last());
        let p = pow256((s.len() - 1) as nat);
        assert(be_value(s.drop_last()) * 256 + 256 <= p * 256) by (nonlinear_arith)
            requires
                be_value(s.drop_last()) + 1 <= p,
        ;
    }
}

/// Reading back `n` written bytes gives the value modulo `256^n`.
pub proof fn lemma_be_value_of_bytes(v: nat, n: nat)
    ensures
        be_value(be_bytes(v, n)) == v % pow256(n),
    decreases n,
{
    if n == 0 {
    } else {
        let m = (n - 1) as nat;
        lemma_be_value_of_bytes(v / 256, m);
        lemma_be_bytes_len(v / 256, m);
        assert(be_bytes(v, n).drop_last() =~= be_bytes(v / 256, m));
        lemma_pow256_pos(m);
        lemma_mod_breakdown(v as int, 256, pow256(m) as int);
        assert(pow256(n) == 256 * pow256(m));
    }
}

/// The first of `n` written bytes is the value's digit of weight `256^(n-1)`.
pub proof fn lemma_be_bytes_first(v: nat, n: nat)
    requires
        n >= 1,
    ensures
        be_bytes(v, n)[0] == (v / pow256((n - 1) as nat)) % 256,
    decreases n,
{
    lemma_be_bytes_len(v, n);
    if n == 1 {
        assert(pow256(0) == 1);
    } else {
        let m = (n - 1) as nat;
        lemma_be_bytes_first(v / 256, m);
        lemma_be_bytes_len(v / 256, m);
        lemma_pow256_pos((m - 1) as nat);
        lemma_div_denominator(v as int, 256, pow256((m - 1) as nat) as int);
    }
}

/// Appends the `width` low-order bytes of `value` to `out`, most significant
/// first.
pub fn to_bigendian(value: u64, width: usize, out: &mut Vec<u8>)
    requires
        width <= 8,
    ensures
        final(out)@ == old(out)@ + be_bytes(value as nat, width as nat),
{
    let mut digits: Vec<u8> = Vec::new();
    let mut v: u64 = value;
    let mut i: usize = 0;
    // digits holds the i least significant bytes, least significant first
    while i < width
        invariant
            i <= width,
            digits@.len() == i,
            be_bytes(value as nat, width as nat) == be_bytes(v as nat, (width - i) as nat)
                + digits@.reverse(),
        decreases width - i,
    {
        let ghost old_digits = digits@;
        let ghost k = (width - i) as nat;
        let ghost rest = be_bytes((v / 256) as nat, (k - 1) as nat);
        assert(be_bytes(v as nat, k) == rest.push((v % 256) as u8));
        digits.push((v % 256) as u8);
        assert(digits@.reverse() =~= seq![(v % 256) as u8] + old_digits.reverse());
        assert(be_bytes(v as nat, k) + old_digits.reverse() =~= rest + digits@.reverse());
        v = v / 256;
        i = i + 1;
    }
    assert(digits@.reverse() =~= be_bytes(value as nat, width as nat));
    let mut j: usize = width;
    while j > 0
        invariant
            j <= width,
            digits@.len() == width,
            out@ == old(out)@ + digits@.reverse().subrange(0, (width - j) as int),
        decreases j,
    {
        j = j - 1;
        out.push(digits[j]);
        assert(digits@.reverse().subrange(0, (width - j) as int) =~= digits@.reverse().subrange(
            0,
            (width - j - 1) as int,
        ).push(digits@[j as int]));
    }
    assert(digits@.reverse().subrange(0, width as int) =~= digits@.reverse());
}

/// Reads the `width` bytes of `bytes` that start at `start` as one
/// big-endian number.
pub fn from_bigendian(bytes: &[u8], start: usize, width: usize) -> (r: u64)
    requires
        width <= 8,
        start + width <= bytes@.len(),
    ensures
        r == be_value(bytes@.subrange(start as int, start + width)),
{
    let len = bytes.len();
    let mut acc: u64 = 0;
    let mut i: usize = 0;
    while i < width
        invariant
            len == bytes@.len(),
            i <= width,
            width <= 8,
            start + width <= bytes@.len(),
            acc == be_value(bytes@.subrange(start as int, start + i)),
        decreases width - i,
    {
        let ghost s = bytes@.subrange(start as int, start + i + 1);
        assert(s.drop_last() =~= bytes@.subrange(start as int, start + i));
        proof {
            lemma_be_value_bound(bytes@.subrange(start as int, start + i));
            lemma_pow256_values();
            if i < 7 {
                lemma_pow256_mono(i as nat, 7);
            }
        }
        let b = bytes[start + i];
        assert(acc * 256 + b <= 0xffff_ffff_ffff_ffff);
        acc = acc * 256 + b as u64;
        i = i + 1;
    }
    acc
}

/// Appends `data` to `out`.
pub fn append_bytes(out: &mut Vec<u8>, data: &[u8])
    ensures
        final(out)@ == old(out)@ + data@,
{
    let n = data.len();
    let mut i: usize = 0;
    while i < n
        invariant
            n == data@.len(),
            i <= n,
            out@ == old(out)@ + data@.subrange(0, i as int),
        decreases n - i,
    {
        out.push(data[i]);
        assert(data@.subrange(0, i + 1) =~= data@.subrange(0, i as int).push(data@[i as int]));
        i = i + 1;
    }
    assert(data@.subrange(0, n as int) =~= data@);
}

/// The `n` bytes of `input` that start at `pos`, copied.
pub fn copy_bytes(input: &[u8], pos: usize, n: usize) -> (r: Vec<u8>)
    requires
        pos + n <= input@.len(),
    ensures
        r@ == input@.subrange(pos as int, pos + n),
{
    let total = input.len();
    assert(pos + n <= total);
    slice_to_vec(slice_subrange(input, pos, pos + n))
}

/// What a decoder makes of a run of `n` raw bytes at position `at` of `s`:
/// the bytes and the position after them.
pub open spec fn spec_read_bytes(s: Seq<u8>, at: nat, n: nat) -> Result<(Seq<u8>, nat), CodecError> {
    if at + n > s.len() {
        Err(CodecError::Truncated)
    } else {
        Ok((s.subrange(at as int, (at + n) as int), at + n))
    }
}

/// Copies the run of `n` bytes at `input[pos]`; returns it with the
/// position after it. A run that goes past the end is `Truncated`.
pub fn read_bytes(input: &[u8], pos: usize, n: u64) -> (r: Result<(Vec<u8>, usize), CodecError>)
    ensures
        match spec_read_bytes(input@, pos as nat, n as nat) {
            Ok((b, end)) => r is Ok && (r->Ok_0).0@ == b && (r->Ok_0).1 == end,
            Err(e) => r == Err::<(Vec<u8>, usize), CodecError>(e),
        },
{
    let len = input.len();
    if pos > len || n > (len - pos) as u64 {
        return Err(CodecError::Truncated);
    }
    let n = n as usize;
    Ok((copy_bytes(input, pos, n), pos + n))
}

/// The bytes of `v`, which holds exactly `N` of them, as an array.
pub fn to_array<const N: usize>(v: &[u8]) -> (r: [u8; N])
    requires
        v@.len() == N,
    ensures
        r@ == v@,
{
    let mut a = [0u8; N];
    let mut i: usize = 0;
    while i < N
        invariant
            v@.len() == N,
            a@.len() == N,
            i <= N,
            forall|j: int| 0 <= j < i ==> a@[j] == v@[j],
        decreases N - i,
    {
        a[i] = v[i];
        i = i + 1;
    }
    assert(a@ =~= v@);
    a
}

pub proof fn lemma_pow256_mono(a: nat, b: nat)
    requires
        a <= b,
    ensures
        pow256(a) <= pow256(b),
    decreases b - a,
{
    if a < b {
        lemma_pow256_mono(a, (b - 1) as nat);
        lemma_pow256_pos((b - 1) as nat);
    }
}

} // verus!
