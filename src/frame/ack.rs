//! ACK frame: which packets the receiver has received and processed.
use vstd::prelude::*;
use crate::error::CodecError;
use vstd::seq_lib::lemma_concat_associative;
use crate::frame::types::{tag_of, FrameType};
use crate::packet_number::PacketNumber;
use crate::varint::{
    lemma_varint_at, lemma_varint_bytes_len, read_next, spec_read_varint, varint_bytes,
    varint_len, write_varint, Varint, VARINT_MAX,
};

verus! {

/// One further acknowledged range, below the previous one: `gap` packets
/// not acknowledged, then `length` acknowledged.
#[derive(Clone, Copy, Debug, PartialEq, Eq, Structural)]
pub struct ACKRange {
    pub gap: u64,
    pub length: u64,
}

/// The cumulative counts of packets received with each ECN marking.
#[derive(Clone, Copy, Debug, PartialEq, Eq, Structural)]
pub struct ECNCounts {
    pub ect0: u64,
    pub ect1: u64,
    pub ecn_ce: u64,
}

/// ACK frame.
///
/// On the wire: the tag (0x03 when ECN counts follow, else 0x02), then as
/// variable-length integers the largest acknowledged packet number, the ACK
/// delay, the number of ranges counting the first one, the length of the
/// first range, a gap and a length for each further range and, with the
/// 0x03 tag, the three ECN counts.
pub struct ACKFrame {
    largest: PacketNumber,
    delay: u64,
    first_range: u64,
    ranges: Vec<ACKRange>,
    ecn: Option<ECNCounts>,
}

/// The content of an [`ACKFrame`].
pub struct ACKFrameModel {
    /// The largest packet number acknowledged.
    pub largest: PacketNumber,
    /// The ACK delay, in microseconds.
    pub delay: u64,
    /// How many packets below `largest` the first range also acknowledges.
    pub first_range: u64,
    /// The ranges after the first one, in decreasing packet-number order.
    pub ranges: Seq<ACKRange>,
    /// The ECN counts, when the frame carries them.
    pub ecn: Option<ECNCounts>,
}

impl View for ACKFrame {
    type V = ACKFrameModel;

    closed spec fn view(&self) -> ACKFrameModel {
        ACKFrameModel {
            largest: self.largest,
            delay: self.delay,
            first_range: self.first_range,
            ranges: self.ranges@,
            ecn: self.ecn,
        }
    }
}

/// The bytes of one further range: its gap, then its length.
pub open spec fn range_bytes(r: ACKRange) -> Seq<u8> {
    varint_bytes(r.gap as nat) + varint_bytes(r.length as nat)
}

/// The bytes of a list of further ranges, in order.
pub open spec fn ranges_bytes(rs: Seq<ACKRange>) -> Seq<u8>
    decreases rs.len(),
{
    if rs.len() == 0 {
        Seq::empty()
    } else {
        range_bytes(rs[0]) + ranges_bytes(rs.drop_first())
    }
}

/// The bytes of the ECN counts, none when absent.
pub open spec fn ecn_bytes(ecn: Option<ECNCounts>) -> Seq<u8> {
    match ecn {
        Some(c) => varint_bytes(c.ect0 as nat) + varint_bytes(c.ect1 as nat) + varint_bytes(
            c.ecn_ce as nat,
        ),
        None => Seq::empty(),
    }
}

/// What a decoder makes of `count` further ranges at position `at` of `s`:
/// the ranges and the position after them.
pub open spec fn parse_ranges(s: Seq<u8>, at: nat, count: nat) -> Result<
    (Seq<ACKRange>, nat),
    CodecError,
>
    decreases count,
{
    if count == 0 {
        Ok((Seq::empty(), at))
    } else {
        match spec_read_varint(s, at) {
            Err(e) => Err(e),
            Ok(gap) => match spec_read_varint(s, (at + gap.size) as nat) {
                Err(e) => Err(e),
                Ok(length) => match parse_ranges(
                    s,
                    (at + gap.size + length.size) as nat,
                    (count - 1) as nat,
                ) {
                    Err(e) => Err(e),
                    Ok((rest, end)) => Ok(
                        (seq![ACKRange { gap: gap.value, length: length.value }] + rest, end),
                    ),
                },
            },
        }
    }
}

/// What a decoder makes of the ECN counts at position `at` of `s`, read
/// only when `with_ecn` is set: the counts and the position after them.
pub open spec fn parse_ecn(with_ecn: bool, s: Seq<u8>, at: nat) -> Result<
    (Option<ECNCounts>, nat),
    CodecError,
> {
    if !with_ecn {
        Ok((None, at))
    } else {
        match spec_read_varint(s, at) {
            Err(e) => Err(e),
            Ok(ect0) => match spec_read_varint(s, (at + ect0.size) as nat) {
                Err(e) => Err(e),
                Ok(ect1) => match spec_read_varint(s, (at + ect0.size + ect1.size) as nat) {
                    Err(e) => Err(e),
                    Ok(ecn_ce) => Ok(
                        (
                            Some(
                                ECNCounts {
                                    ect0: ect0.value,
                                    ect1: ect1.value,
                                    ecn_ce: ecn_ce.value,
                                },
                            ),
                            (at + ect0.size + ect1.size + ecn_ce.size) as nat,
                        ),
                    ),
                },
            },
        }
    }
}

impl ACKFrameModel {
    /// Every number the frame sends fits a variable-length integer, the
    /// range count included.
    pub open spec fn encodable(self) -> bool {
        &&& self.largest <= VARINT_MAX
        &&& self.delay <= VARINT_MAX
        &&& self.first_range <= VARINT_MAX
        &&& self.ranges.len() + 1 <= VARINT_MAX
        &&& forall|i: int|
            0 <= i < self.ranges.len() ==> #[trigger] self.ranges[i].gap <= VARINT_MAX
                && self.ranges[i].length <= VARINT_MAX
        &&& match self.ecn {
            Some(c) => c.ect0 <= VARINT_MAX && c.ect1 <= VARINT_MAX && c.ecn_ce <= VARINT_MAX,
            None => true,
        }
    }

    /// The bytes that follow the tag. The range count sent is the number of
    /// further ranges plus one, for the first range.
    pub open spec fn payload(self) -> Seq<u8> {
        self.head_bytes() + ranges_bytes(self.ranges) + ecn_bytes(self.ecn)
    }

    /// The four numbers that open the payload: largest acknowledged, delay,
    /// range count and first range.
    pub open spec fn head_bytes(self) -> Seq<u8> {
        varint_bytes(self.largest as nat) + varint_bytes(self.delay as nat) + varint_bytes(
            self.ranges.len() + 1,
        ) + varint_bytes(self.first_range as nat)
    }

    /// The whole frame: the tag, then the payload.
    pub open spec fn encode(self) -> Seq<u8> {
        seq![tag_of(FrameType::Ack { with_ecm: self.ecn is Some })] + self.payload()
    }

    /// What a decoder makes of `s`, the bytes after the tag, when the tag
    /// said whether ECN counts follow: the frame and the number of bytes it
    /// used. A range count of 0 cannot be: it counts the first range.
    pub open spec fn parse(with_ecn: bool, s: Seq<u8>) -> Result<(Self, nat), CodecError> {
        match spec_read_varint(s, 0) {
            Err(e) => Err(e),
            Ok(largest) => match spec_read_varint(s, largest.size as nat) {
                Err(e) => Err(e),
                Ok(delay) => match spec_read_varint(s, (largest.size + delay.size) as nat) {
                    Err(e) => Err(e),
                    Ok(count) => {
                        let at3 = (largest.size + delay.size + count.size) as nat;
                        if count.value == 0 {
                            Err(CodecError::InvalidEncoding)
                        } else {
                            match spec_read_varint(s, at3) {
                                Err(e) => Err(e),
                                Ok(first) => match parse_ranges(
                                    s,
                                    (at3 + first.size) as nat,
                                    (count.value - 1) as nat,
                                ) {
                                    Err(e) => Err(e),
                                    Ok((ranges, at5)) => match parse_ecn(with_ecn, s, at5) {
                                        Err(e) => Err(e),
                                        Ok((ecn, end)) => Ok(
                                            (
                                                ACKFrameModel {
                                                    largest: largest.value,
                                                    delay: delay.value,
                                                    first_range: first.value,
                                                    ranges,
                                                    ecn,
                                                },
                                                end,
                                            ),
                                        ),
                                    },
                                },
                            }
                        }
                    },
                },
            },
        }
    }
}

pub proof fn lemma_ranges_bytes_push(rs: Seq<ACKRange>, r: ACKRange)
    ensures
        ranges_bytes(rs.push(r)) == ranges_bytes(rs) + range_bytes(r),
    decreases rs.len(),
{
    if rs.len() == 0 {
        assert(rs.push(r).drop_first() =~= Seq::<ACKRange>::empty());
        assert(ranges_bytes(rs.push(r).drop_first()) == Seq::<u8>::empty());
        assert(ranges_bytes(rs.push(r)) =~= range_bytes(r));
    } else {
        lemma_ranges_bytes_push(rs.drop_first(), r);
        assert(rs.push(r).drop_first() =~= rs.drop_first().push(r));
        assert(ranges_bytes(rs.push(r)) =~= ranges_bytes(rs) + range_bytes(r));
    }
}

impl ACKFrame {
    /// A frame with no ranges and every number 0; it carries ECN counts,
    /// all 0, when `with_ecn` is set.
    pub fn new(with_ecn: bool) -> (r: Self)
        ensures
            r@ == (ACKFrameModel {
                largest: 0,
                delay: 0,
                first_range: 0,
                ranges: Seq::empty(),
                ecn: if with_ecn {
                    Some(ECNCounts { ect0: 0, ect1: 0, ecn_ce: 0 })
                } else {
                    None
                },
            }),
    {
        ACKFrame {
            largest: 0,
            delay: 0,
            first_range: 0,
            ranges: Vec::new(),
            ecn: if with_ecn {
                Some(ECNCounts { ect0: 0, ect1: 0, ecn_ce: 0 })
            } else {
                None
            },
        }
    }

    /// The largest packet number acknowledged.
    pub fn get_largest(&self) -> (r: PacketNumber)
        ensures
            r == self@.largest,
    {
        self.largest
    }

    /// Sets the largest packet number acknowledged.
    pub fn set_largest(&mut self, largest: PacketNumber)
        ensures
            final(self)@ == (ACKFrameModel { largest, ..old(self)@ }),
    {
        self.largest = largest;
    }

    /// The ACK delay, in microseconds.
    pub fn get_delay(&self) -> (r: u64)
        ensures
            r == self@.delay,
    {
        self.delay
    }

    /// Sets the ACK delay, in microseconds.
    pub fn set_delay(&mut self, delay: u64)
        ensures
            final(self)@ == (ACKFrameModel { delay, ..old(self)@ }),
    {
        self.delay = delay;
    }

    /// How many packets below the largest the first range acknowledges.
    pub fn get_first_range(&self) -> (r: u64)
        ensures
            r == self@.first_range,
    {
        self.first_range
    }

    /// Sets how many packets below the largest the first range acknowledges.
    pub fn set_first_range(&mut self, first_range: u64)
        ensures
            final(self)@ == (ACKFrameModel { first_range, ..old(self)@ }),
    {
        self.first_range = first_range;
    }

    /// The ECN counts, when the frame carries them.
    pub fn get_ecn(&self) -> (r: Option<ECNCounts>)
        ensures
            r == self@.ecn,
    {
        self.ecn
    }

    /// Makes the frame carry `ecn_count`.
    pub fn set_ecn(&mut self, ecn_count: ECNCounts)
        ensures
            final(self)@ == (ACKFrameModel { ecn: Some(ecn_count), ..old(self)@ }),
    {
        self.ecn = Some(ecn_count);
    }

    /// The further ranges.
    pub fn get_ranges(&self) -> (r: &[ACKRange])
        ensures
            r@ == self@.ranges,
    {
        self.ranges.as_slice()
    }

    /// Appends `ranges` to the further ranges held.
    pub fn set_ranges(&mut self, ranges: &[ACKRange])
        ensures
            final(self)@ == (ACKFrameModel { ranges: old(self)@.ranges + ranges@, ..old(self)@ }),
    {
        let n = ranges.len();
        let mut i: usize = 0;
        while i < n
            invariant
                n == ranges@.len(),
                i <= n,
                self@ == (ACKFrameModel {
                    ranges: old(self)@.ranges + ranges@.take(i as int),
                    ..old(self)@
                }),
            decreases n - i,
        {
            self.ranges.push(ranges[i]);
            assert(ranges@.take(i + 1) =~= ranges@.take(i as int).push(ranges@[i as int]));
            assert(self.ranges@ =~= old(self)@.ranges + ranges@.take(i + 1));
            i = i + 1;
        }
        assert(ranges@.take(n as int) =~= ranges@);
    }

    /// Appends the frame, tag first, and returns the number of bytes
    /// written. A number above `2^62 - 1` is refused and `out` is left as it
    /// was.
    pub fn write(&self, out: &mut Vec<u8>) -> (r: Result<usize, CodecError>)
        ensures
            self@.encodable() ==> r == Ok::<usize, CodecError>(self@.encode().len() as usize)
                && final(out)@ == old(out)@ + self@.encode(),
            !self@.encodable() ==> r == Err::<usize, CodecError>(CodecError::OutOfRange)
                && final(out)@ == old(out)@,
    {
        let n = self.ranges.len();
        if self.largest > VARINT_MAX || self.delay > VARINT_MAX || self.first_range > VARINT_MAX
            || n as u64 >= VARINT_MAX {
            return Err(CodecError::OutOfRange);
        }
        let mut i: usize = 0;
        while i < n
            invariant
                n == self.ranges@.len(),
                i <= n,
                forall|j: int|
                    0 <= j < i ==> #[trigger] self.ranges@[j].gap <= VARINT_MAX
                        && self.ranges@[j].length <= VARINT_MAX,
            decreases n - i,
        {
            if self.ranges[i].gap > VARINT_MAX || self.ranges[i].length > VARINT_MAX {
                return Err(CodecError::OutOfRange);
            }
            i = i + 1;
        }
        if let Some(ecn) = self.ecn {
            if ecn.ect0 > VARINT_MAX || ecn.ect1 > VARINT_MAX || ecn.ecn_ce > VARINT_MAX {
                return Err(CodecError::OutOfRange);
            }
        }
        let start = out.len();
        out.push(u8::from(FrameType::Ack { with_ecm: self.ecn.is_some() }));
        write_varint(self.largest, out)?;
        write_varint(self.delay, out)?;
        write_varint(n as u64 + 1, out)?;
        write_varint(self.first_range, out)?;
        let ghost head = out@;
        let mut i: usize = 0;
        while i < n
            invariant
                n == self.ranges@.len(),
                i <= n,
                self@.encodable(),
                out@ == head + ranges_bytes(self.ranges@.take(i as int)),
            decreases n - i,
        {
            let range = self.ranges[i];
            write_varint(range.gap, out)?;
            write_varint(range.length, out)?;
            proof {
                lemma_ranges_bytes_push(self.ranges@.take(i as int), range);
                assert(self.ranges@.take(i + 1) =~= self.ranges@.take(i as int).push(range));
            }
            i = i + 1;
        }
        assert(self.ranges@.take(n as int) =~= self.ranges@);
        if let Some(ecn) = self.ecn {
            write_varint(ecn.ect0, out)?;
            write_varint(ecn.ect1, out)?;
            write_varint(ecn.ecn_ce, out)?;
        }
        assert(out@ =~= old(out)@ + self@.encode());
        Ok(out.len() - start)
    }

    /// Decodes the fields from `input`, which starts right after the tag,
    /// and returns the number of bytes used. ECN counts are read when the
    /// frame was made to carry them. On failure the frame is left as it
    /// was.
    pub fn read(&mut self, input: &[u8]) -> (r: Result<usize, CodecError>)
        ensures
            match ACKFrameModel::parse(old(self)@.ecn is Some, input@) {
                Ok((m, n)) => r == Ok::<usize, CodecError>(n as usize) && final(self)@ == m && n
                    <= input@.len(),
                Err(e) => r == Err::<usize, CodecError>(e) && final(self)@ == old(self)@,
            },
    {
        let with_ecn = self.ecn.is_some();
        let (largest, pos) = read_next(input, 0)?;
        let (delay, pos) = read_next(input, pos)?;
        let (count, pos) = read_next(input, pos)?;
        if count.value == 0 {
            return Err(CodecError::InvalidEncoding);
        }
        let (first, pos) = read_next(input, pos)?;
        let (ranges, pos) = read_ranges(input, pos, count.value - 1)?;
        let (ecn, pos) = read_ecn(with_ecn, input, pos)?;
        self.largest = largest.value;
        self.delay = delay.value;
        self.first_range = first.value;
        self.ranges = ranges;
        self.ecn = ecn;
        Ok(pos)
    }
}

/// Reads `count` further ranges starting at `input[pos]`; returns them and
/// the position after them.
fn read_ranges(input: &[u8], pos: usize, count: u64) -> (r: Result<
    (Vec<ACKRange>, usize),
    CodecError,
>)
    requires
        pos <= input@.len(),
    ensures
        match parse_ranges(input@, pos as nat, count as nat) {
            Ok((rs, end)) => r is Ok && (r->Ok_0).0@ == rs && (r->Ok_0).1 == end && end <= input@.len(),
            Err(e) => r == Err::<(Vec<ACKRange>, usize), CodecError>(e),
        },
{
    let mut ranges: Vec<ACKRange> = Vec::new();
    let mut at = pos;
    let mut i: u64 = 0;
    while i < count
        invariant
            i <= count,
            at <= input@.len(),
            parse_ranges(input@, pos as nat, count as nat) == match parse_ranges(
                input@,
                at as nat,
                (count - i) as nat,
            ) {
                Ok((rest, end)) => Ok::<(Seq<ACKRange>, nat), CodecError>((ranges@ + rest, end)),
                Err(e) => Err::<(Seq<ACKRange>, nat), CodecError>(e),
            },
        decreases input@.len() - at,
    {
        let (gap, next) = read_next(input, at)?;
        let (length, next) = read_next(input, next)?;
        let ghost old_ranges = ranges@;
        let range = ACKRange { gap: gap.value, length: length.value };
        ranges.push(range);
        proof {
            match parse_ranges(input@, next as nat, (count - i - 1) as nat) {
                Ok((rest, end)) => {
                    assert(old_ranges + (seq![range] + rest) =~= ranges@ + rest);
                },
                Err(e) => {},
            }
        }
        at = next;
        i = i + 1;
    }
    assert(ranges@ + Seq::<ACKRange>::empty() =~= ranges@);
    Ok((ranges, at))
}

/// Reads the ECN counts at `input[pos]` when `with_ecn` is set; returns
/// them and the position after them.
fn read_ecn(with_ecn: bool, input: &[u8], pos: usize) -> (r: Result<
    (Option<ECNCounts>, usize),
    CodecError,
>)
    ensures
        match parse_ecn(with_ecn, input@, pos as nat) {
            Ok((ecn, end)) => r is Ok && (r->Ok_0).0 == ecn && (r->Ok_0).1 == end,
            Err(e) => r == Err::<(Option<ECNCounts>, usize), CodecError>(e),
        },
{
    if !with_ecn {
        return Ok((None, pos));
    }
    let (ect0, p) = read_next(input, pos)?;
    let (ect1, p) = read_next(input, p)?;
    let (ecn_ce, p) = read_next(input, p)?;
    Ok((Some(ECNCounts { ect0: ect0.value, ect1: ect1.value, ecn_ce: ecn_ce.value }), p))
}

/// Further ranges that the encoder wrote read back as the same ranges.
pub proof fn lemma_ranges_round_trip(rs: Seq<ACKRange>, before: Seq<u8>, after: Seq<u8>)
    requires
        forall|i: int|
            0 <= i < rs.len() ==> #[trigger] rs[i].gap <= VARINT_MAX && rs[i].length <= VARINT_MAX,
    ensures
        parse_ranges(before + ranges_bytes(rs) + after, before.len(), rs.len()) == Ok::<
            (Seq<ACKRange>, nat),
            CodecError,
        >((rs, before.len() + ranges_bytes(rs).len())),
    decreases rs.len(),
{
    if rs.len() > 0 {
        let r = rs[0];
        let rest = rs.drop_first();
        let g = varint_bytes(r.gap as nat);
        let l = varint_bytes(r.length as nat);
        let tail = ranges_bytes(rest);
        let s = before + ranges_bytes(rs) + after;
        let at = before.len() as int;
        assert(rs[0].gap <= VARINT_MAX && rs[0].length <= VARINT_MAX);
        assert(ranges_bytes(rs) == (g + l) + tail);
        lemma_varint_bytes_len(r.gap as nat);
        lemma_varint_bytes_len(r.length as nat);
        assert(s.subrange(at, at + g.len()) =~= g);
        lemma_varint_at(r.gap, s, at as nat);
        assert(s.subrange(at + g.len(), at + g.len() + l.len()) =~= l);
        lemma_varint_at(r.length, s, (at + g.len()) as nat);
        assert forall|i: int| 0 <= i < rest.len() implies #[trigger] rest[i].gap <= VARINT_MAX
            && rest[i].length <= VARINT_MAX by {
            assert(rest[i] == rs[i + 1]);
        }
        lemma_concat_associative(before, g + l, tail);
        lemma_ranges_round_trip(rest, before + (g + l), after);
        assert(seq![r] + rest =~= rs);
    } else {
        assert(rs =~= Seq::<ACKRange>::empty());
    }
}

/// ECN counts that the encoder wrote read back as the same counts.
pub proof fn lemma_ecn_round_trip(ecn: Option<ECNCounts>, before: Seq<u8>, after: Seq<u8>)
    requires
        match ecn {
            Some(c) => c.ect0 <= VARINT_MAX && c.ect1 <= VARINT_MAX && c.ecn_ce <= VARINT_MAX,
            None => true,
        },
    ensures
        parse_ecn(ecn is Some, before + ecn_bytes(ecn) + after, before.len()) == Ok::<
            (Option<ECNCounts>, nat),
            CodecError,
        >((ecn, before.len() + ecn_bytes(ecn).len())),
{
    if let Some(c) = ecn {
        let b0 = varint_bytes(c.ect0 as nat);
        let b1 = varint_bytes(c.ect1 as nat);
        let b2 = varint_bytes(c.ecn_ce as nat);
        let s = before + ecn_bytes(ecn) + after;
        lemma_varint_bytes_len(c.ect0 as nat);
        lemma_varint_bytes_len(c.ect1 as nat);
        lemma_varint_bytes_len(c.ecn_ce as nat);
        let at0 = before.len() as int;
        let at1 = at0 + b0.len();
        let at2 = at1 + b1.len();
        assert(s.subrange(at0, at1) =~= b0);
        lemma_varint_at(c.ect0, s, at0 as nat);
        assert(s.subrange(at1, at2) =~= b1);
        lemma_varint_at(c.ect1, s, at1 as nat);
        assert(s.subrange(at2, at2 + b2.len()) =~= b2);
        lemma_varint_at(c.ecn_ce, s, at2 as nat);
    } else {
        assert(before + ecn_bytes(ecn) + after =~= before + after);
    }
}

/// The four numbers that open the payload read back at their positions.
proof fn lemma_ack_head(m: ACKFrameModel, s: Seq<u8>)
    requires
        m.encodable(),
        s.len() >= m.head_bytes().len(),
        s.subrange(0, m.head_bytes().len() as int) == m.head_bytes(),
    ensures
        ({
            let at1 = varint_len(m.largest as nat);
            let at2 = at1 + varint_len(m.delay as nat);
            let at3 = at2 + varint_len(m.ranges.len() + 1);
            &&& spec_read_varint(s, 0) == Ok::<Varint, CodecError>(
                Varint { value: m.largest, size: at1 as usize },
            )
            &&& spec_read_varint(s, at1) == Ok::<Varint, CodecError>(
                Varint { value: m.delay, size: varint_len(m.delay as nat) as usize },
            )
            &&& spec_read_varint(s, at2) == Ok::<Varint, CodecError>(
                Varint {
                    value: (m.ranges.len() + 1) as u64,
                    size: varint_len(m.ranges.len() + 1) as usize,
                },
            )
            &&& spec_read_varint(s, at3) == Ok::<Varint, CodecError>(
                Varint { value: m.first_range, size: varint_len(m.first_range as nat) as usize },
            )
            &&& at3 + varint_len(m.first_range as nat) == m.head_bytes().len()
        }),
{
    let b0 = varint_bytes(m.largest as nat);
    let b1 = varint_bytes(m.delay as nat);
    let b2 = varint_bytes(m.ranges.len() + 1);
    let b3 = varint_bytes(m.first_range as nat);
    let count = (m.ranges.len() + 1) as u64;
    lemma_varint_bytes_len(m.largest as nat);
    lemma_varint_bytes_len(m.delay as nat);
    lemma_varint_bytes_len(count as nat);
    lemma_varint_bytes_len(m.first_range as nat);
    let h = m.head_bytes();
    let at1 = b0.len() as int;
    let at2 = at1 + b1.len();
    let at3 = at2 + b2.len();
    let at4 = at3 + b3.len();
    assert(s.subrange(0, at1) =~= h.subrange(0, at1));
    assert(h.subrange(0, at1) =~= b0);
    lemma_varint_at(m.largest, s, 0);
    assert(s.subrange(at1, at2) =~= h.subrange(at1, at2));
    assert(h.subrange(at1, at2) =~= b1);
    lemma_varint_at(m.delay, s, at1 as nat);
    assert(s.subrange(at2, at3) =~= h.subrange(at2, at3));
    assert(h.subrange(at2, at3) =~= b2);
    lemma_varint_at(count, s, at2 as nat);
    assert(s.subrange(at3, at4) =~= h.subrange(at3, at4));
    assert(h.subrange(at3, at4) =~= b3);
    lemma_varint_at(m.first_range, s, at3 as nat);
}

/// Decoding the payload that the encoder wrote, with the ECN flag that its
/// tag carries, gives back the same frame and uses exactly the payload,
/// whatever follows it. In particular the range count read is the number
/// of further ranges plus one, and a frame without further ranges reads
/// back without any.
pub proof fn lemma_ack_round_trip(m: ACKFrameModel, rest: Seq<u8>)
    requires
        m.encodable(),
    ensures
        ACKFrameModel::parse(m.ecn is Some, m.payload() + rest)
            == Ok::<(ACKFrameModel, nat), CodecError>((m, m.payload().len())),
{
    let h = m.head_bytes();
    let rb = ranges_bytes(m.ranges);
    let eb = ecn_bytes(m.ecn);
    let s = m.payload() + rest;
    lemma_concat_associative(h + rb, eb, rest);
    lemma_concat_associative(h, rb, eb + rest);
    assert(s.subrange(0, h.len() as int) =~= h);
    lemma_ack_head(m, s);
    lemma_ranges_round_trip(m.ranges, h, eb + rest);
    lemma_ecn_round_trip(m.ecn, h + rb, rest);
}

} // verus!
