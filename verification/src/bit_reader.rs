//! A reader that hands out the bits of a byte buffer one after another,
//! least significant bit of each byte first, and the coded integers that the
//! format builds from them.

use crate::bits::{
    after_bits, bits_of, bits_value, byte_bit, lemma_bits_value_bound, lemma_bits_value_fits,
    lemma_bits_value_push,
    spec_read_bit, spec_read_bool, spec_read_u16, spec_read_u32, spec_read_u64, spec_read_u8,
};
use crate::error::{JxlError, Unsupported};
use vstd::arithmetic::power2::{lemma2_to64, lemma_pow2_strictly_increases, pow2};
use vstd::prelude::*;
use vstd::slice::slice_to_vec;

verus! {

/// Where the reader stands: the byte it is in, the bits of that byte that
/// are still unread (shifted down to bit 0), and how many they are.
#[derive(Clone, Copy)]
struct Cursor {
    ptr: usize,
    tail: u8,
    tail_len: u8,
}

/// A cursor over an owned, non-empty byte buffer that is read bit by bit.
pub struct BitStream {
    data: Vec<u8>,
    cursor: Cursor,
}

/// One of the four ways in which a selector-coded integer is spelt.
#[derive(Copy, Clone, Debug)]
pub enum QuadDistributions {
    /// The value itself; no further bits are read.
    RawValue(u32),
    /// The value is spelt by this many bits.
    BitCount(u8),
    /// The value is spelt by this many bits, and the offset is added to it,
    /// wrapping round at `2^32`.
    BitCountWithOffset(u8, u32),
}

impl QuadDistributions {
    /// The number of bits that this branch reads after the selector.
    pub open spec fn width(self) -> nat {
        match self {
            QuadDistributions::RawValue(_) => 0,
            QuadDistributions::BitCount(n) => n as nat,
            QuadDistributions::BitCountWithOffset(n, _) => n as nat,
        }
    }

    /// A branch can be read into 32 bits.
    pub open spec fn wf(self) -> bool {
        self.width() <= 32
    }

    /// Every value that this branch can produce fits in eight bits.
    pub open spec fn fits_u8(self) -> bool {
        match self {
            QuadDistributions::RawValue(x) => x <= 255,
            QuadDistributions::BitCount(n) => n <= 8,
            QuadDistributions::BitCountWithOffset(n, o) => n <= 8 && o + pow2(n as nat) <= 256,
        }
    }

    /// Whether this branch can produce `v`: the literal itself, or a number
    /// that its bits can spell, moved by the offset where that does not wrap.
    pub open spec fn yields(self, v: u32) -> bool {
        match self {
            QuadDistributions::RawValue(x) => v == x,
            QuadDistributions::BitCount(n) => (v as nat) < pow2(n as nat),
            QuadDistributions::BitCountWithOffset(n, o) => o + pow2(n as nat) <= 0x1_0000_0000
                ==> o <= v < o + pow2(n as nat),
        }
    }
}

/// A branch whose values fit in eight bits produces no larger value.
pub proof fn lemma_fits_u8(d: QuadDistributions, v: u32)
    requires
        d.fits_u8(),
        d.yields(v),
    ensures
        v <= 255,
{
    lemma2_to64();
    if let QuadDistributions::BitCount(n) = d {
        if n < 8 {
            lemma_pow2_strictly_increases(n as nat, 8);
        }
    }
}

/// The branch that the selector `k` picks among four.
pub open spec fn pick_distribution(
    k: u8,
    d0: QuadDistributions,
    d1: QuadDistributions,
    d2: QuadDistributions,
    d3: QuadDistributions,
) -> QuadDistributions {
    if k == 0 {
        d0
    } else if k == 1 {
        d1
    } else if k == 2 {
        d2
    } else {
        d3
    }
}

/// A read of the integer that one branch spells.
pub open spec fn spec_read_distribution(s: Seq<bool>, d: QuadDistributions) -> (
    Option<u32>,
    Seq<bool>,
) {
    match d {
        QuadDistributions::RawValue(v) => (Some(v), s),
        QuadDistributions::BitCount(n) => spec_read_u32(s, n as nat),
        QuadDistributions::BitCountWithOffset(n, o) => {
            let raw = spec_read_u32(s, n as nat);
            match raw.0 {
                Some(v) => (Some(vstd::wrapping::u32_specs::wrapping_add(v, o)), raw.1),
                None => (None, raw.1),
            }
        },
    }
}

/// The selector that a selector-coded integer starts with.
pub open spec fn spec_selector(s: Seq<bool>) -> u8 {
    bits_value(s.take(2)) as u8
}

/// A read of a selector-coded integer: two bits pick one of four branches,
/// and the branch spells the value.
#[verifier::opaque]
pub open spec fn spec_read_quad(
    s: Seq<bool>,
    d0: QuadDistributions,
    d1: QuadDistributions,
    d2: QuadDistributions,
    d3: QuadDistributions,
) -> (Option<u32>, Seq<bool>) {
    let selector = spec_read_u8(s, 2);
    match selector.0 {
        Some(k) => spec_read_distribution(selector.1, pick_distribution(k, d0, d1, d2, d3)),
        None => (None, selector.1),
    }
}

/// A read of a small variable-length integer: two bits pick the range, `0`
/// alone, `1` to `16` in four bits, `17` to `272` in eight bits; the fourth
/// range is not decoded.
#[verifier::opaque]
pub open spec fn spec_read_var_u64(s: Seq<bool>) -> (Result<u64, JxlError>, Seq<bool>) {
    let selector = spec_read_u8(s, 2);
    match selector.0 {
        None => (Err(JxlError::Truncated), selector.1),
        Some(k) => if k == 0 {
            (Ok(0), selector.1)
        } else if k == 1 {
            let raw = spec_read_u8(selector.1, 4);
            match raw.0 {
                Some(v) => (Ok((v + 1) as u64), raw.1),
                None => (Err(JxlError::Truncated), raw.1),
            }
        } else if k == 2 {
            let raw = spec_read_u8(selector.1, 8);
            match raw.0 {
                Some(v) => (Ok((v + 17) as u64), raw.1),
                None => (Err(JxlError::Truncated), raw.1),
            }
        } else {
            (Err(JxlError::Unsupported(Unsupported::LargeVarInt)), selector.1)
        },
    }
}

impl View for BitStream {
    type V = Seq<bool>;

    /// The bits that have not been read yet, in reading order.
    closed spec fn view(&self) -> Seq<bool> {
        bits_of(self.data@).skip(8 * self.cursor.ptr + 8 - self.cursor.tail_len)
    }
}

impl BitStream {
    #[verifier::type_invariant]
    spec fn inv(self) -> bool {
        &&& self.cursor.ptr < self.data.len()
        &&& self.cursor.tail_len <= 8
        &&& self.cursor.tail == self.data[self.cursor.ptr as int] >> ((8 - self.cursor.tail_len) as u8)
    }

    /// A reader at the first bit of `data`.
    pub fn new(data: &[u8]) -> (s: Self)
        requires
            data@.len() > 0,
        ensures
            s@ == bits_of(data@),
    {
        let first = data[0];
        assert(first >> 0u8 == first) by (bit_vector);
        let s = BitStream {
            data: slice_to_vec(data),
            cursor: Cursor { ptr: 0, tail: first, tail_len: 8 },
        };
        assert(s@ =~= bits_of(data@));
        s
    }

    /// A reader at the first bit of `data`, or nothing where `data` is empty.
    pub fn try_new(data: &[u8]) -> (s: Option<Self>)
        ensures
            s is Some <==> data@.len() > 0,
            s matches Some(stream) ==> stream@ == bits_of(data@),
    {
        if data.len() == 0 {
            None
        } else {
            Some(BitStream::new(data))
        }
    }

    /// Whether every bit has been read.
    pub fn is_empty(&self) -> (r: bool)
        ensures
            r == (self@.len() == 0),
    {
        proof {
            use_type_invariant(self);
        }
        self.cursor.tail_len == 0 && self.cursor.ptr == self.data.len() - 1
    }

    /// Checks that the unread bits of the byte the reader is in are all zero.
    /// Nothing is read; at the end of the input the check fails.
    pub fn pad_zero(&mut self) -> (r: Option<()>)
        ensures
            final(self)@ == old(self)@,
            r is Some <==> old(self)@.len() > 0 && forall|i: int|
                0 <= i < old(self)@.len() % 8 ==> !old(self)@[i],
    {
        proof {
            use_type_invariant(&*self);
            self.lemma_tail_bits();
        }
        if self.is_empty() {
            None
        } else if self.cursor.tail_len < 8 && self.cursor.tail != 0 {
            None
        } else {
            Some(())
        }
    }

    /// The unread bits of the current byte are the first bits of the view,
    /// and they are all zero exactly when the cached tail is zero.
    proof fn lemma_tail_bits(self)
        requires
            self.inv(),
        ensures
            self@.len() == 8 * (self.data.len() - 1 - self.cursor.ptr) + self.cursor.tail_len,
            (forall|i: int| 0 <= i < self.cursor.tail_len ==> !self@[i]) <==> self.cursor.tail == 0,
    {
        let d = self.data[self.cursor.ptr as int];
        let n = self.cursor.tail_len;
        let t = self.cursor.tail;
        let k: u8 = (8 - n) as u8;
        assert forall|i: int| 0 <= i < n implies self@[i] == byte_bit(t, i) by {
            let j: u8 = i as u8;
            assert(t == d >> k && k + j < 8 ==> (t >> j) & 1 == (d >> ((k + j) as u8)) & 1)
                by (bit_vector);
            assert((8 * self.cursor.ptr + 8 - n + i) / 8 == self.cursor.ptr as int);
            assert((8 * self.cursor.ptr + 8 - n + i) % 8 == 8 - n + i);
        }
        if t == 0 {
            assert forall|i: int| 0 <= i < n implies !self@[i] by {
                let j: u8 = i as u8;
                assert((0u8 >> j) & 1 == 0) by (bit_vector);
                assert(self@[i] == byte_bit(t, i));
            }
        } else {
            assert(t == d >> k && k + n == 8 && t != 0 ==> (n > 0 && (t >> 0u8) & 1 == 1) || (n > 1
                && (t >> 1u8) & 1 == 1) || (n > 2 && (t >> 2u8) & 1 == 1) || (n > 3 && (t >> 3u8)
                & 1 == 1) || (n > 4 && (t >> 4u8) & 1 == 1) || (n > 5 && (t >> 5u8) & 1 == 1) || (n
                > 6 && (t >> 6u8) & 1 == 1) || (n > 7 && (t >> 7u8) & 1 == 1)) by (bit_vector);
            let j: int = if n > 0 && (t >> 0u8) & 1 == 1 {
                0
            } else if n > 1 && (t >> 1u8) & 1 == 1 {
                1
            } else if n > 2 && (t >> 2u8) & 1 == 1 {
                2
            } else if n > 3 && (t >> 3u8) & 1 == 1 {
                3
            } else if n > 4 && (t >> 4u8) & 1 == 1 {
                4
            } else if n > 5 && (t >> 5u8) & 1 == 1 {
                5
            } else if n > 6 && (t >> 6u8) & 1 == 1 {
                6
            } else {
                7
            };
            assert(self@[j] == byte_bit(t, j));
            assert(self@[j]);
        }
    }

    /// Reads the next bit, as `0` or `1`.
    pub fn read_bit(&mut self) -> (r: Option<u8>)
        ensures
            (r, final(self)@) == spec_read_bit(old(self)@),
    {
        proof {
            use_type_invariant(&*self);
        }
        let mut ptr = self.cursor.ptr;
        let mut tail = self.cursor.tail;
        let mut tail_len = self.cursor.tail_len;
        if tail_len == 0 {
            if ptr == self.data.len() - 1 {
                return None;
            }
            ptr += 1;
            tail = self.data[ptr];
            tail_len = 8;
            assert(tail >> 0u8 == tail) by (bit_vector);
        }
        let out = tail & 0x1;
        proof {
            let k: u8 = (8 - tail_len) as u8;
            let d = self.data[ptr as int];
            assert((d >> k) >> 1u8 == d >> ((k + 1) as u8)) by (bit_vector)
                requires
                    k < 8,
            ;
            assert(tail & 1 == 0 || tail & 1 == 1) by (bit_vector);
            let p = 8 * ptr + 8 - tail_len;
            assert(p / 8 == ptr as int);
            assert(p % 8 == 8 - tail_len);
            assert(old(self)@ =~= bits_of(self.data@).skip(p));
            assert(old(self)@[0] == byte_bit(d, k as int));
        }
        self.cursor = Cursor { ptr, tail: tail >> 1, tail_len: tail_len - 1 };
        proof {
            assert(self@ =~= old(self)@.skip(1));
        }
        Some(out)
    }

    /// Reads the next bit as a truth value: `1` is `true`.
    pub fn read_bool(&mut self) -> (r: Option<bool>)
        ensures
            (r, final(self)@) == spec_read_bool(old(self)@),
    {
        match self.read_bit() {
            Some(bit) => Some(bit != 0),
            None => None,
        }
    }

    /// Reads `bits` bits into a number, the first bit read being the least
    /// significant. Where fewer bits are left, they are all consumed.
    pub fn read_u64(&mut self, bits: u8) -> (r: Option<u64>)
        requires
            bits <= 64,
        ensures
            (r, final(self)@) == spec_read_u64(old(self)@, bits as nat),
            r matches Some(v) ==> (v as nat) < pow2(bits as nat),
    {
        let mut out: u64 = 0;
        let mut i: u8 = 0;
        while i < bits
            invariant
                i <= bits <= 64,
                i <= old(self)@.len(),
                self@ == old(self)@.skip(i as int),
                out == bits_value(old(self)@.take(i as int)),
            decreases bits - i,
        {
            let bit = match self.read_bit() {
                Some(bit) => bit,
                None => {
                    return None;
                },
            };
            proof {
                let wide: u64 = bit as u64;
                let shift: u64 = i as u64;
                lemma_bits_value_bound(old(self)@.take(i as int));
                lemma_bits_value_push(old(self)@, i as int);
                vstd::bits::lemma_u64_pow2_no_overflow(i as nat);
                vstd::bits::lemma_u64_shl_is_mul(1, shift);
                assert(out | (wide << shift) == out + wide * (1u64 << shift)) by (bit_vector)
                    requires
                        wide <= 1,
                        shift < 64,
                        out < (1u64 << shift),
                ;
                assert(self@ =~= old(self)@.skip(i + 1));
            }
            out |= (bit as u64) << i;
            i += 1;
        }
        proof {
            lemma_bits_value_bound(old(self)@.take(bits as int));
        }
        Some(out)
    }

    /// Reads `bits` bits into a number of at most eight bits.
    pub fn read_u8(&mut self, bits: u8) -> (r: Option<u8>)
        requires
            bits <= 8,
        ensures
            (r, final(self)@) == spec_read_u8(old(self)@, bits as nat),
            r matches Some(v) ==> (v as nat) < pow2(bits as nat),
    {
        proof {
            lemma2_to64();
            if bits <= old(self)@.len() {
                lemma_bits_value_fits(old(self)@.take(bits as int), 8);
            }
        }
        match self.read_u64(bits) {
            Some(v) => Some(v as u8),
            None => None,
        }
    }

    /// Reads `bits` bits into a number of at most sixteen bits.
    pub fn read_u16(&mut self, bits: u8) -> (r: Option<u16>)
        requires
            bits <= 16,
        ensures
            (r, final(self)@) == spec_read_u16(old(self)@, bits as nat),
            r matches Some(v) ==> (v as nat) < pow2(bits as nat),
    {
        proof {
            lemma2_to64();
            if bits <= old(self)@.len() {
                lemma_bits_value_fits(old(self)@.take(bits as int), 16);
            }
        }
        match self.read_u64(bits) {
            Some(v) => Some(v as u16),
            None => None,
        }
    }

    /// Reads `bits` bits into a number of at most thirty-two bits.
    pub fn read_u32(&mut self, bits: u8) -> (r: Option<u32>)
        requires
            bits <= 32,
        ensures
            (r, final(self)@) == spec_read_u32(old(self)@, bits as nat),
            r matches Some(v) ==> (v as nat) < pow2(bits as nat),
    {
        proof {
            lemma2_to64();
            if bits <= old(self)@.len() {
                lemma_bits_value_fits(old(self)@.take(bits as int), 32);
            }
        }
        match self.read_u64(bits) {
            Some(v) => Some(v as u32),
            None => None,
        }
    }
    /// Reads a selector-coded integer: a two-bit selector picks one of the
    /// four branches, and the branch says how the value is spelt. What is
    /// consumed is the selector and the bits of the branch that was picked,
    /// whatever value comes out.
    pub fn read_quad_u32(
        &mut self,
        d0: QuadDistributions,
        d1: QuadDistributions,
        d2: QuadDistributions,
        d3: QuadDistributions,
    ) -> (r: Option<u32>)
        requires
            d0.wf(),
            d1.wf(),
            d2.wf(),
            d3.wf(),
        ensures
            (r, final(self)@) == spec_read_quad(old(self)@, d0, d1, d2, d3),
            r is Some ==> final(self)@.len() + 2 + pick_distribution(
                spec_selector(old(self)@),
                d0,
                d1,
                d2,
                d3,
            ).width() == old(self)@.len(),
            r matches Some(v) ==> pick_distribution(
                spec_selector(old(self)@),
                d0,
                d1,
                d2,
                d3,
            ).yields(v),
    {
        proof {
            reveal(spec_read_quad);
        }
        let distribution = self.read_u8(2)?;
        let selected_distribution = match distribution {
            0 => d0,
            1 => d1,
            2 => d2,
            _ => d3,
        };
        let out = match selected_distribution {
            QuadDistributions::RawValue(n) => n,
            QuadDistributions::BitCount(n) => self.read_u32(n)?,
            QuadDistributions::BitCountWithOffset(n, o) => self.read_u32(n)?.wrapping_add(o),
        };
        Some(out)
    }

    /// Reads a small variable-length integer. The fourth range of the coding
    /// is reported as unsupported, after its selector has been consumed.
    pub fn read_var_u64(&mut self) -> (r: Result<u64, JxlError>)
        ensures
            (r, final(self)@) == spec_read_var_u64(old(self)@),
    {
        proof {
            reveal(spec_read_var_u64);
            lemma2_to64();
        }
        let selector = match self.read_u8(2) {
            Some(k) => k,
            None => {
                return Err(JxlError::Truncated);
            },
        };
        match selector {
            0 => Ok(0),
            1 => match self.read_u8(4) {
                Some(v) => Ok(v as u64 + 1),
                None => Err(JxlError::Truncated),
            },
            2 => match self.read_u8(8) {
                Some(v) => Ok(v as u64 + 17),
                None => Err(JxlError::Truncated),
            },
            _ => Err(JxlError::Unsupported(Unsupported::LargeVarInt)),
        }
    }
}

} // verus!
