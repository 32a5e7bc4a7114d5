//! Bit-string primitives: a fixed-width unsigned value used as a
//! bit-addressable buffer, with flip, flip-and-report, and substring
//! extraction, plus the reinterpretation of signed values as bit strings.

use vstd::prelude::*;

verus! {

/// Bit `i` of `x`, reading a 64-bit value as a string of 64 bits.
pub open spec fn bit64(x: u64, i: u64) -> bool {
    (x >> i) & 1 == 1
}

/// The value with exactly the bits below `k` set (all bits for `k >= 64`).
pub open spec fn mask64(k: u64) -> u64 {
    if k >= 64 {
        0xffff_ffff_ffff_ffffu64
    } else {
        ((1u64 << k) - 1) as u64
    }
}

/// `x` with bit `i` toggled.
pub open spec fn flip64(x: u64, i: u64) -> u64 {
    x ^ (1u64 << i)
}

/// The bits of `x` inside the half-open range `[from, to)`, all others zero.
pub open spec fn sub_bits64(x: u64, from: u64, to: u64) -> u64 {
    x & (mask64(to) ^ mask64(from))
}

/// A fixed-width unsigned value read as an addressable string of bits.
///
/// `view64` is the bit content zero-extended to 64 bits, so every width
/// shares one spec vocabulary; `width_spec` is the number of addressable
/// bits. Bit indices at or above the width are out of range, and the
/// operations require callers to stay below it.
pub trait BitString: Sized + Copy {
    /// The number of addressable bits.
    spec fn width_spec() -> u64;

    /// The bit content, zero-extended to 64 bits.
    spec fn view64(&self) -> u64;

    /// Every width fits the shared 64-bit view.
    proof fn width_bounds()
        ensures
            1 <= Self::width_spec(),
            Self::width_spec() <= 64,
    ;

    /// The width in bits.
    fn len(&self) -> (n: usize)
        ensures
            n == Self::width_spec(),
    ;

    /// Toggle bit `index`.
    fn flip(&mut self, index: usize)
        requires
            index < Self::width_spec(),
        ensures
            final(self).view64() == flip64(old(self).view64(), index as u64),
    ;

    /// Toggle bit `index` and report the bit's value before the flip.
    fn flip_get(&mut self, index: usize) -> (was: bool)
        requires
            index < Self::width_spec(),
        ensures
            final(self).view64() == flip64(old(self).view64(), index as u64),
            was == bit64(old(self).view64(), index as u64),
    ;

    /// The bits of `self` in `[from, to)`, with all other bits zero.
    fn substring(&self, from: usize, to: usize) -> (r: Self)
        requires
            from <= to,
            to <= Self::width_spec(),
        ensures
            r.view64() == sub_bits64(self.view64(), from as u64, to as u64),
    ;

    /// Bitwise exclusive or.
    fn xor(self, other: Self) -> (r: Self)
        ensures
            r.view64() == self.view64() ^ other.view64(),
    ;
}

impl BitString for u64 {
    open spec fn width_spec() -> u64 {
        64
    }

    open spec fn view64(&self) -> u64 {
        *self
    }

    proof fn width_bounds() {
    }

    fn len(&self) -> usize {
        64
    }

    fn flip(&mut self, index: usize) {
        *self = *self ^ (1u64 << index);
    }

    fn flip_get(&mut self, index: usize) -> (was: bool) {
        let ghost pre: u64 = *self;
        let mask: u64 = 1u64 << index;
        *self = *self ^ mask;
        let now_zero: bool = *self & mask == 0;
        proof {
            assert(((pre ^ (1u64 << (index as u64))) & (1u64 << (index as u64)) == 0) == bit64(
                pre,
                index as u64,
            )) by (bit_vector)
                requires
                    index < 64,
            ;
        }
        now_zero
    }

    fn substring(&self, from: usize, to: usize) -> (r: u64) {
        proof {
            assert(to < 64 ==> 1u64 << to >= 1) by (bit_vector);
            assert(from < 64 ==> 1u64 << from >= 1) by (bit_vector);
        }
        let hi: u64 = if to == 64 {
            0xffff_ffff_ffff_ffffu64
        } else {
            (1u64 << to) - 1
        };
        let lo: u64 = if from == 64 {
            0xffff_ffff_ffff_ffffu64
        } else {
            (1u64 << from) - 1
        };
        *self & (hi ^ lo)
    }

    fn xor(self, other: u64) -> u64 {
        self ^ other
    }
}

impl BitString for u32 {
    open spec fn width_spec() -> u64 {
        32
    }

    open spec fn view64(&self) -> u64 {
        *self as u64
    }

    proof fn width_bounds() {
    }

    fn len(&self) -> usize {
        32
    }

    fn flip(&mut self, index: usize) {
        let ghost pre: u32 = *self;
        *self = *self ^ (1u32 << index);
        proof {
            assert((pre ^ (1u32 << (index as u32))) as u64 == (pre as u64) ^ (1u64 << (
            index as u64))) by (bit_vector)
                requires
                    index < 32,
            ;
        }
    }

    fn flip_get(&mut self, index: usize) -> (was: bool) {
        let ghost pre: u32 = *self;
        let mask: u32 = 1u32 << index;
        *self = *self ^ mask;
        let now_zero: bool = *self & mask == 0;
        proof {
            assert((pre ^ (1u32 << (index as u32))) as u64 == (pre as u64) ^ (1u64 << (
            index as u64))) by (bit_vector)
                requires
                    index < 32,
            ;
            assert(((pre ^ (1u32 << (index as u32))) & (1u32 << (index as u32)) == 0) == bit64(
                pre as u64,
                index as u64,
            )) by (bit_vector)
                requires
                    index < 32,
            ;
        }
        now_zero
    }

    fn substring(&self, from: usize, to: usize) -> (r: u32) {
        proof {
            assert(to < 32 ==> 1u32 << to >= 1) by (bit_vector);
            assert(from < 32 ==> 1u32 << from >= 1) by (bit_vector);
        }
        let pre: u32 = *self;
        let hi: u32 = if to == 32 {
            0xffff_ffffu32
        } else {
            (1u32 << to) - 1
        };
        let lo: u32 = if from == 32 {
            0xffff_ffffu32
        } else {
            (1u32 << from) - 1
        };
        let r: u32 = pre & (hi ^ lo);
        proof {
            assert((pre & (hi ^ lo)) as u64 == sub_bits64(pre as u64, from as u64, to as u64))
                by (bit_vector)
                requires
                    from <= to,
                    to <= 32,
                    hi == (if to == 32 {
                        0xffff_ffffu32
                    } else {
                        ((1u32 << (to as u32)) - 1) as u32
                    }),
                    lo == (if from == 32 {
                        0xffff_ffffu32
                    } else {
                        ((1u32 << (from as u32)) - 1) as u32
                    }),
            ;
        }
        r
    }

    fn xor(self, other: u32) -> u32 {
        self ^ other
    }
}

/// Flipping the same bit twice restores the value: at every width, since
/// both widths share the zero-extended 64-bit view.
pub proof fn lemma_flip_involutive(x: u64, i: u64)
    by (bit_vector)
    requires
        i < 64,
    ensures
        flip64(flip64(x, i), i) == x,
{
}

/// Flipping a bit changes exactly that bit.
pub proof fn lemma_flip_changes_one_bit(x: u64, i: u64)
    by (bit_vector)
    requires
        i < 64,
    ensures
        forall|j: u64|
            j < 64 ==> #[trigger] bit64(flip64(x, i), j) == (if j == i {
                !bit64(x, j)
            } else {
                bit64(x, j)
            }),
{
}

/// A substring keeps exactly the bits inside `[from, to)`: bits outside the
/// range are zero, bits inside match the source, the empty range `[k, k)`
/// gives zero, and `[0, 64)` gives the value back whole.
pub proof fn lemma_substring_bits(x: u64, from: u64, to: u64)
    by (bit_vector)
    requires
        from <= to,
        to <= 64,
    ensures
        forall|j: u64|
            j < from || to <= j ==> !#[trigger] bit64(sub_bits64(x, from, to), j),
        forall|j: u64|
            from <= j < to ==> #[trigger] bit64(sub_bits64(x, from, to), j) == bit64(x, j),
        sub_bits64(x, from, from) == 0,
        sub_bits64(x, 0, 64) == x,
{
}

/// A fixed-width numeric value reinterpreted, bit for bit, as the unsigned
/// bit string of the same width, and recovered from one. The two round-trip
/// clauses pin the reinterpretation down: same bits, different type.
pub trait BitStringRepr: Sized + Copy {
    /// The same-width unsigned bit-string type.
    type Repr: BitString + Copy;

    /// The bit pattern of the value.
    spec fn to_bits_spec(&self) -> Self::Repr;

    /// The value with the given bit pattern.
    spec fn of_bits_spec(b: Self::Repr) -> Self;

    /// View the value as its bit string.
    fn to_bit_string(&self) -> (b: Self::Repr)
        ensures
            b == self.to_bits_spec(),
            Self::of_bits_spec(b) == *self,
    ;

    /// Rebuild the value from a bit string.
    fn of_bit_string(b: Self::Repr) -> (v: Self)
        ensures
            v == Self::of_bits_spec(b),
            v.to_bits_spec() == b,
    ;
}

impl BitStringRepr for u32 {
    type Repr = u32;

    open spec fn to_bits_spec(&self) -> u32 {
        *self
    }

    open spec fn of_bits_spec(b: u32) -> u32 {
        b
    }

    fn to_bit_string(&self) -> u32 {
        *self
    }

    fn of_bit_string(b: u32) -> u32 {
        b
    }
}

impl BitStringRepr for u64 {
    type Repr = u64;

    open spec fn to_bits_spec(&self) -> u64 {
        *self
    }

    open spec fn of_bits_spec(b: u64) -> u64 {
        b
    }

    fn to_bit_string(&self) -> u64 {
        *self
    }

    fn of_bit_string(b: u64) -> u64 {
        b
    }
}

impl BitStringRepr for i32 {
    type Repr = u32;

    open spec fn to_bits_spec(&self) -> u32 {
        *self as u32
    }

    open spec fn of_bits_spec(b: u32) -> i32 {
        b as i32
    }

    fn to_bit_string(&self) -> (b: u32) {
        let b: u32 = *self as u32;
        proof {
            assert((*self as u32) as i32 == *self) by (bit_vector);
        }
        b
    }

    fn of_bit_string(b: u32) -> (v: i32) {
        let v: i32 = b as i32;
        proof {
            assert((b as i32) as u32 == b) by (bit_vector);
        }
        v
    }
}

impl BitStringRepr for i64 {
    type Repr = u64;

    open spec fn to_bits_spec(&self) -> u64 {
        *self as u64
    }

    open spec fn of_bits_spec(b: u64) -> i64 {
        b as i64
    }

    fn to_bit_string(&self) -> (b: u64) {
        let b: u64 = *self as u64;
        proof {
            assert((*self as u64) as i64 == *self) by (bit_vector);
        }
        b
    }

    fn of_bit_string(b: u64) -> (v: i64) {
        let v: i64 = b as i64;
        proof {
            assert((b as i64) as u64 == b) by (bit_vector);
        }
        v
    }
}

} // verus!
