//! Serial shift registers and the cascade that chains two of them into one
//! register of twice the width.

use vstd::prelude::*;

verus! {

/// A ten-stage serial-in, parallel-out shift register. Bit 0 is the stage
/// nearest the serial input; bit 9 is the stage whose content falls off.
#[derive(Clone, Copy, Debug, PartialEq, Eq, Structural)]
pub struct Shifter {
    pub bits: u16,
}

/// The content of a register holding `bits` after one clocked shift that
/// takes `data` in: every stage moves up by one, the far stage is lost,
/// and `data` enters stage 0.
pub open spec fn shifted(bits: u16, data: bool) -> u16 {
    ((bits * 2 + (if data { 1int } else { 0int })) % 1024) as u16
}

/// The bit that falls off the far end of a register holding `bits`: the
/// content of stage 9.
pub open spec fn far_bit(bits: u16) -> bool {
    (bits / 512) % 2 == 1
}

/// The parallel value of a cascade: the first register in the low ten bits,
/// the second register directly above it.
pub open spec fn combined(first: u16, second: u16) -> u32 {
    (first as u32) | ((second as u32) << 10)
}

/// The content of a twenty-stage register holding `wide` after one clocked
/// shift that takes `data` in.
pub open spec fn wide_shifted(wide: u32, data: bool) -> u32 {
    ((wide << 1) | (if data { 1u32 } else { 0u32 })) & 0xF_FFFF
}

impl Shifter {
    /// The register holds nothing above its ten stages.
    pub open spec fn wf(&self) -> bool {
        self.bits <= 0x3FF
    }

    /// An empty register.
    pub fn new() -> (s: Shifter)
        ensures
            s.bits == 0,
            s.wf(),
    {
        Shifter { bits: 0 }
    }

    /// One tick of the serial line. With `clock` asserted the register
    /// shifts by one stage, takes `data` into stage 0 and returns the bit
    /// that fell off the far end. Without it the register is left alone and
    /// nothing falls off.
    pub fn read_write_serial(&mut self, data: bool, clock: bool) -> (out: bool)
        requires
            old(self).wf(),
        ensures
            final(self).wf(),
            clock ==> final(self).bits == shifted(old(self).bits, data),
            clock ==> out == far_bit(old(self).bits),
            !clock ==> final(self).bits == old(self).bits,
            !clock ==> !out,
    {
        if clock {
            let bits: u16 = self.bits;
            let out = bits & 0x200 != 0;
            let low: u16 = if data { 1 } else { 0 };
            proof {
                lemma_shift_bits(bits, low);
            }
            self.bits = ((bits << 1) | low) & 0x3FF;
            out
        } else {
            false
        }
    }

    /// The register's content, stage 0 in bit 0.
    pub fn read_parallel(&self) -> (bits: u16)
        ensures
            bits == self.bits,
    {
        self.bits
    }
}

/// The shift written with bit operations is the shift written with
/// arithmetic.
pub proof fn lemma_shift_bits(bits: u16, low: u16)
    requires
        low <= 1,
    ensures
        ((bits << 1) | low) & 0x3FF == (bits * 2 + low) % 1024,
        (bits & 0x200 != 0) == ((bits / 512) % 2 == 1),
{
    assert(((bits << 1) | low) & 0x3FF == ((bits as u32) * 2 + (low as u32)) % 1024)
        by (bit_vector)
        requires
            low <= 1,
    ;
    assert((bits & 0x200 != 0) == ((bits / 512) % 2 == 1)) by (bit_vector);
}

/// One tick of two registers chained on a shared clock: `first` takes
/// `data`, and what falls off `first` is the data of `second` on the same
/// edge. Returns the bit that falls off `second`.
pub fn shift_cascade(first: &mut Shifter, second: &mut Shifter, data: bool, clock: bool) -> (out:
    bool)
    requires
        old(first).wf(),
        old(second).wf(),
    ensures
        final(first).wf(),
        final(second).wf(),
        clock ==> final(first).bits == shifted(old(first).bits, data),
        clock ==> final(second).bits == shifted(old(second).bits, far_bit(old(first).bits)),
        clock ==> out == far_bit(old(second).bits),
        clock ==> combined(final(first).bits, final(second).bits) == wide_shifted(
            combined(old(first).bits, old(second).bits),
            data,
        ),
        !clock ==> *final(first) == *old(first) && *final(second) == *old(second) && !out,
{
    proof {
        lemma_cascade_is_wide(first.bits, second.bits, data);
    }
    let carry = first.read_write_serial(data, clock);
    second.read_write_serial(carry, clock)
}

/// Reads a cascade in parallel: the second register's bits sit directly
/// above the ten bits of the first.
pub fn combine_parallel(first: u16, second: u16) -> (wide: u32)
    ensures
        wide == combined(first, second),
        first <= 0x3FF && second <= 0x3FF ==> wide == first + 1024 * second,
{
    proof {
        lemma_combined_splits(first, second);
    }
    (first as u32) | ((second as u32) << 10)
}

/// Two chained ten-stage registers on one clock behave as a single
/// twenty-stage register: shifting the chain once shifts the combined
/// parallel value once.
pub proof fn lemma_cascade_is_wide(first: u16, second: u16, data: bool)
    requires
        first <= 0x3FF,
        second <= 0x3FF,
    ensures
        combined(shifted(first, data), shifted(second, far_bit(first))) == wide_shifted(
            combined(first, second),
            data,
        ),
{
    let d16: u16 = if data { 1 } else { 0 };
    let d32: u32 = if data { 1 } else { 0 };
    let c16: u16 = if far_bit(first) { 1 } else { 0 };
    lemma_shift_bits(first, d16);
    lemma_shift_bits(second, c16);
    let next_first = shifted(first, data);
    let next_second = shifted(second, far_bit(first));
    assert((next_first as u32) | ((next_second as u32) << 10) == (((((first as u32) | ((
    second as u32) << 10)) << 1) | d32) & 0xF_FFFF)) by (bit_vector)
        requires
            first <= 0x3FF,
            second <= 0x3FF,
            d16 <= 1,
            d32 == d16 as u32,
            c16 == (if first & 0x200 != 0 { 1u16 } else { 0u16 }),
            next_first == ((first << 1) | d16) & 0x3FF,
            next_second == ((second << 1) | c16) & 0x3FF,
    ;
}

/// The parallel read-out loses nothing: both registers can be recovered
/// from the combined value, which is the first register plus 1024 times the
/// second.
pub proof fn lemma_combined_splits(first: u16, second: u16)
    ensures
        first <= 0x3FF && second <= 0x3FF ==> {
            &&& combined(first, second) & 0x3FF == first as u32
            &&& combined(first, second) >> 10 == second as u32
            &&& combined(first, second) <= 0xF_FFFF
            &&& combined(first, second) == first + 1024 * second
        },
{
    if first <= 0x3FF && second <= 0x3FF {
        lemma_combined_in_range(first, second);
    }
}

/// The facts of the parallel read-out for two registers within their ten
/// bits.
proof fn lemma_combined_in_range(first: u16, second: u16)
    requires
        first <= 0x3FF,
        second <= 0x3FF,
    ensures
        combined(first, second) & 0x3FF == first as u32,
        combined(first, second) >> 10 == second as u32,
        combined(first, second) <= 0xF_FFFF,
        combined(first, second) == first + 1024 * second,
{
    assert(((first as u32) | ((second as u32) << 10)) == (first as u32) + 1024 * (second as u32))
        by (bit_vector)
        requires
            first <= 0x3FF,
            second <= 0x3FF,
    ;
    assert(((first as u32) | ((second as u32) << 10)) & 0x3FF == first as u32) by (bit_vector)
        requires
            first <= 0x3FF,
            second <= 0x3FF,
    ;
    assert(((first as u32) | ((second as u32) << 10)) >> 10 == second as u32) by (bit_vector)
        requires
            first <= 0x3FF,
            second <= 0x3FF,
    ;
    assert(((first as u32) | ((second as u32) << 10)) <= 0xF_FFFF) by (bit_vector)
        requires
            first <= 0x3FF,
            second <= 0x3FF,
    ;
}

/// The content of a twenty-stage register that held `wide` after the bits
/// of `stream` were clocked in, first bit first.
pub open spec fn wide_shift_all(wide: u32, stream: Seq<bool>) -> u32
    decreases stream.len(),
{
    if stream.len() == 0 {
        wide
    } else {
        wide_shifted(wide_shift_all(wide, stream.drop_last()), stream.last())
    }
}

/// The number that a bit pattern spells when it is clocked into an empty
/// register, first bit first: the last bit ends up in bit 0.
pub open spec fn pattern_value(stream: Seq<bool>) -> u32 {
    wide_shift_all(0, stream)
}

/// Clocks a whole stream of bits into a cascade, first bit first. The
/// combined read-out afterwards is that of one twenty-stage register that
/// took the same stream.
pub fn shift_stream(first: &mut Shifter, second: &mut Shifter, stream: &Vec<bool>)
    requires
        old(first).wf(),
        old(second).wf(),
    ensures
        final(first).wf(),
        final(second).wf(),
        combined(final(first).bits, final(second).bits) == wide_shift_all(
            combined(old(first).bits, old(second).bits),
            stream@,
        ),
{
    let mut i: usize = 0;
    while i < stream.len()
        invariant
            i <= stream@.len(),
            first.wf(),
            second.wf(),
            combined(first.bits, second.bits) == wide_shift_all(
                combined(old(first).bits, old(second).bits),
                stream@.subrange(0, i as int),
            ),
        decreases stream@.len() - i,
    {
        proof {
            assert(stream@.subrange(0, i + 1).drop_last() =~= stream@.subrange(0, i as int));
        }
        shift_cascade(first, second, stream[i], true);
        i += 1;
    }
    proof {
        assert(stream@.subrange(0, i as int) =~= stream@);
    }
}

/// Clocking in one stream after another is clocking in their
/// concatenation.
pub proof fn lemma_shift_all_concat(wide: u32, head: Seq<bool>, tail: Seq<bool>)
    ensures
        wide_shift_all(wide, head + tail) == wide_shift_all(wide_shift_all(wide, head), tail),
    decreases tail.len(),
{
    if tail.len() == 0 {
        assert(head + tail =~= head);
    } else {
        assert((head + tail).drop_last() =~= head + tail.drop_last());
        lemma_shift_all_concat(wide, head, tail.drop_last());
    }
}

/// What was in the register before a stream of up to twenty bits is still
/// there afterwards, moved up by the stream's length, and the stream's
/// pattern sits below it.
pub proof fn lemma_shift_all_splits(wide: u32, stream: Seq<bool>)
    requires
        stream.len() <= 20,
        wide <= 0xF_FFFF,
    ensures
        wide_shift_all(wide, stream) == ((wide << (stream.len() as u32)) & 0xF_FFFF)
            | pattern_value(stream),
        pattern_value(stream) >> (stream.len() as u32) == 0,
    decreases stream.len(),
{
    let n = stream.len() as u32;
    if stream.len() == 0 {
        assert(wide == ((wide << 0u32) & 0xF_FFFF) | 0u32 && 0u32 >> 0u32 == 0) by (bit_vector)
            requires
                wide <= 0xF_FFFF,
        ;
    } else {
        let front = stream.drop_last();
        let d: u32 = if stream.last() { 1 } else { 0 };
        lemma_shift_all_splits(wide, front);
        let k = front.len() as u32;
        let a = wide_shift_all(wide, front);
        let b = pattern_value(front);
        assert(n == k + 1);
        assert((((a << 1) | d) & 0xF_FFFF) == ((wide << n) & 0xF_FFFF) | (((b << 1) | d)
            & 0xF_FFFF) && ((((b << 1) | d) & 0xF_FFFF) >> n) == 0) by (bit_vector)
            requires
                k < 20,
                n == k + 1,
                d <= 1,
                a == ((wide << k) & 0xF_FFFF) | b,
                b >> k == 0,
        ;
    }
}

/// Serial in, parallel out: after ten bits `second_bits` and then ten bits
/// `first_bits` are clocked into the cascade, whatever it held before, the
/// first register holds the pattern of `first_bits`, the second register
/// that of `second_bits`, and the combined read-out is the first pattern
/// with the second one ten bits above it.
pub proof fn lemma_cascade_read_out(wide: u32, second_bits: Seq<bool>, first_bits: Seq<bool>)
    requires
        wide <= 0xF_FFFF,
        second_bits.len() == 10,
        first_bits.len() == 10,
    ensures
        wide_shift_all(wide, second_bits + first_bits) == pattern_value(first_bits) | (
        pattern_value(second_bits) << 10),
        wide_shift_all(wide, second_bits + first_bits) & 0x3FF == pattern_value(first_bits),
        wide_shift_all(wide, second_bits + first_bits) >> 10 == pattern_value(second_bits),
        pattern_value(first_bits) <= 0x3FF,
        pattern_value(second_bits) <= 0x3FF,
{
    lemma_shift_all_concat(wide, second_bits, first_bits);
    lemma_shift_all_splits(wide, second_bits);
    let x = wide_shift_all(wide, second_bits);
    let b = pattern_value(second_bits);
    assert(x <= 0xF_FFFF) by (bit_vector)
        requires
            x == ((wide << 10u32) & 0xF_FFFF) | b,
            b >> 10u32 == 0,
    ;
    lemma_shift_all_splits(x, first_bits);
    let a = pattern_value(first_bits);
    let r = wide_shift_all(x, first_bits);
    assert(r == a | (b << 10) && r & 0x3FF == a && r >> 10 == b && a <= 0x3FF && b <= 0x3FF)
        by (bit_vector)
        requires
            x == ((wide << 10u32) & 0xF_FFFF) | b,
            r == ((x << 10u32) & 0xF_FFFF) | a,
            a >> 10u32 == 0,
            b >> 10u32 == 0,
    ;
}

} // verus!
