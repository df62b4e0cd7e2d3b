//! The mathematical model of a bit stream: a sequence of bits, least
//! significant bit of each byte first, and what a read of a given width
//! returns and leaves behind.

use vstd::arithmetic::power2::{lemma_pow2_unfold, pow2};
use vstd::prelude::*;

verus! {

/// Bit `k` of `byte`, counted from the least significant one.
pub open spec fn byte_bit(byte: u8, k: int) -> bool {
    (byte >> (k as u8)) & 1 == 1
}

/// The bits of `bytes` in reading order: byte after byte, each from its
/// least significant bit upwards.
pub open spec fn bits_of(bytes: Seq<u8>) -> Seq<bool> {
    Seq::new(8 * bytes.len(), |i: int| byte_bit(bytes[i / 8], i % 8))
}

/// The number that `bits` spell when bit `i` has the weight `2^i`.
pub open spec fn bits_value(bits: Seq<bool>) -> nat
    decreases bits.len(),
{
    if bits.len() == 0 {
        0
    } else {
        bits_value(bits.drop_last()) + if bits.last() {
            pow2((bits.len() - 1) as nat)
        } else {
            0
        }
    }
}

/// What is left of `s` after a read of `n` bits: the rest where there were
/// enough bits, nothing where the read ran past the end.
pub open spec fn after_bits(s: Seq<bool>, n: nat) -> Seq<bool> {
    if n <= s.len() {
        s.skip(n as int)
    } else {
        Seq::empty()
    }
}

/// A read of one bit: the bit as `0` or `1`, and the rest.
pub open spec fn spec_read_bit(s: Seq<bool>) -> (Option<u8>, Seq<bool>) {
    if 1 <= s.len() {
        (Some(if s[0] { 1u8 } else { 0u8 }), after_bits(s, 1))
    } else {
        (None, after_bits(s, 1))
    }
}

/// A read of one bit as a truth value.
pub open spec fn spec_read_bool(s: Seq<bool>) -> (Option<bool>, Seq<bool>) {
    if 1 <= s.len() {
        (Some(s[0]), after_bits(s, 1))
    } else {
        (None, after_bits(s, 1))
    }
}

/// A read of `n <= 8` bits.
pub open spec fn spec_read_u8(s: Seq<bool>, n: nat) -> (Option<u8>, Seq<bool>) {
    if n <= s.len() {
        (Some(bits_value(s.take(n as int)) as u8), after_bits(s, n))
    } else {
        (None, after_bits(s, n))
    }
}

/// A read of `n <= 16` bits.
pub open spec fn spec_read_u16(s: Seq<bool>, n: nat) -> (Option<u16>, Seq<bool>) {
    if n <= s.len() {
        (Some(bits_value(s.take(n as int)) as u16), after_bits(s, n))
    } else {
        (None, after_bits(s, n))
    }
}

/// A read of `n <= 32` bits.
pub open spec fn spec_read_u32(s: Seq<bool>, n: nat) -> (Option<u32>, Seq<bool>) {
    if n <= s.len() {
        (Some(bits_value(s.take(n as int)) as u32), after_bits(s, n))
    } else {
        (None, after_bits(s, n))
    }
}

/// A read of `n <= 64` bits.
pub open spec fn spec_read_u64(s: Seq<bool>, n: nat) -> (Option<u64>, Seq<bool>) {
    if n <= s.len() {
        (Some(bits_value(s.take(n as int)) as u64), after_bits(s, n))
    } else {
        (None, after_bits(s, n))
    }
}

/// A number spelt by `n` bits is below `2^n`.
pub proof fn lemma_bits_value_bound(bits: Seq<bool>)
    ensures
        bits_value(bits) < pow2(bits.len()),
    decreases bits.len(),
{
    if bits.len() > 0 {
        lemma_bits_value_bound(bits.drop_last());
        lemma_pow2_unfold(bits.len());
    } else {
        vstd::arithmetic::power2::lemma_pow2_pos(0);
    }
}

/// A number spelt by at most `width` bits is below `2^width`.
pub proof fn lemma_bits_value_fits(bits: Seq<bool>, width: nat)
    requires
        bits.len() <= width,
    ensures
        bits_value(bits) < pow2(width),
{
    lemma_bits_value_bound(bits);
    if bits.len() < width {
        vstd::arithmetic::power2::lemma_pow2_strictly_increases(bits.len(), width);
    }
}

/// One more bit adds its weight to the number spelt so far.
pub proof fn lemma_bits_value_push(s: Seq<bool>, i: int)
    requires
        0 <= i < s.len(),
    ensures
        bits_value(s.take(i + 1)) == bits_value(s.take(i)) + if s[i] {
            pow2(i as nat)
        } else {
            0
        },
{
    assert(s.take(i + 1).drop_last() =~= s.take(i));
}

/// What is left of `s` after reads of the given widths, one after another.
pub open spec fn after_reads(s: Seq<bool>, widths: Seq<nat>) -> Seq<bool>
    decreases widths.len(),
{
    if widths.len() == 0 {
        s
    } else {
        after_reads(after_bits(s, widths[0]), widths.skip(1))
    }
}

/// The number of bits that reads of the given widths ask for together.
pub open spec fn total_width(widths: Seq<nat>) -> nat
    decreases widths.len(),
{
    if widths.len() == 0 {
        0
    } else {
        widths[0] + total_width(widths.skip(1))
    }
}

/// Reads that together ask for no more bits than there are leave exactly
/// the bits that they did not ask for.
pub proof fn lemma_reads_consume_their_widths(s: Seq<bool>, widths: Seq<nat>)
    requires
        total_width(widths) <= s.len(),
    ensures
        after_reads(s, widths).len() == s.len() - total_width(widths),
    decreases widths.len(),
{
    if widths.len() > 0 {
        lemma_reads_consume_their_widths(after_bits(s, widths[0]), widths.skip(1));
    }
}

/// Reads whose widths add up to the length of the input in bits use it up:
/// the reader is then empty, and a further read of one bit finds none.
pub proof fn lemma_exact_reads_exhaust(bytes: Seq<u8>, widths: Seq<nat>)
    requires
        total_width(widths) == 8 * bytes.len(),
    ensures
        after_reads(bits_of(bytes), widths).len() == 0,
        spec_read_bit(after_reads(bits_of(bytes), widths)).0 is None,
        spec_read_bool(after_reads(bits_of(bytes), widths)).0 is None,
{
    lemma_reads_consume_their_widths(bits_of(bytes), widths);
}

} // verus!
