//! The genetic-operator layer: crossover, mutation and swap at the
//! granularity of one chromosome locus, together with the weighted choice of
//! the bit index they target.

use vstd::prelude::*;
use vstd::assert_multisets_equal;
use vstd::multiset::Multiset;
use crate::bits::{bit64, flip64, sub_bits64, BitString, BitStringRepr};
use crate::random::next_u64;

verus! {

/// The result of single-point crossover at split `k`, seen from the first of
/// the pair: the bits below `k` come from `b`, the bits above stay from `a`.
/// Written as the XOR exchange that the operators perform in one pass.
pub open spec fn crossed64(a: u64, b: u64, k: u64) -> u64 {
    a ^ (sub_bits64(a, 0, k) ^ sub_bits64(b, 0, k))
}

/// Single-point crossover on two 64-bit strings at split `k`: the bits in
/// `[0, k)` are exchanged between the two values, the bits above stay put.
/// Split 0 is a no-op and split 64 a full exchange.
pub fn crossover_bits64(a: &mut u64, b: &mut u64, k: usize)
    requires
        k <= 64,
    ensures
        *final(a) == crossed64(*old(a), *old(b), k as u64),
        *final(b) == crossed64(*old(b), *old(a), k as u64),
{
    let ia: u64 = a.substring(0, k);
    let ib: u64 = b.substring(0, k);
    let inter: u64 = ia ^ ib;
    proof {
        assert(ia ^ ib == ib ^ ia) by (bit_vector);
    }
    *a = *a ^ inter;
    *b = *b ^ inter;
}

/// Crossover at a fixed split is self-inverse: applying it twice with the
/// same `k` restores the original pair.
pub proof fn lemma_crossover_involutive(a: u64, b: u64, k: u64)
    by (bit_vector)
    requires
        k <= 64,
    ensures
        crossed64(crossed64(a, b, k), crossed64(b, a, k), k) == a,
        crossed64(crossed64(b, a, k), crossed64(a, b, k), k) == b,
{
}

/// Crossover only redistributes the bits below the split between the pair:
/// at each position below `k` the two bits are exchanged, and at each
/// position at or above `k` each value keeps its own bit. The pair of bits
/// at any position is therefore conserved as a multiset.
pub proof fn lemma_crossover_conserves_bits(a: u64, b: u64, k: u64)
    by (bit_vector)
    requires
        k <= 64,
    ensures
        forall|j: u64| j < k ==> #[trigger] bit64(crossed64(a, b, k), j) == bit64(b, j),
        forall|j: u64| k <= j < 64 ==> #[trigger] bit64(crossed64(a, b, k), j) == bit64(a, j),
{
}

/// The multiset of the two bits at any one position below the split is
/// unchanged by crossover: the total bit population of the pair's low
/// segment is conserved, only redistributed between the two genes.
pub proof fn lemma_crossover_conserves_pair(a: u64, b: u64, k: u64, j: u64)
    requires
        k <= 64,
        j < k,
    ensures
        Multiset::<bool>::empty().insert(bit64(crossed64(a, b, k), j)).insert(
            bit64(crossed64(b, a, k), j),
        ) == Multiset::<bool>::empty().insert(bit64(a, j)).insert(bit64(b, j)),
{
    lemma_crossover_conserves_bits(a, b, k);
    lemma_crossover_conserves_bits(b, a, k);
    assert(bit64(crossed64(a, b, k), j) == bit64(b, j));
    assert(bit64(crossed64(b, a, k), j) == bit64(a, j));
    assert_multisets_equal!(
        Multiset::<bool>::empty().insert(bit64(b, j)).insert(bit64(a, j)),
        Multiset::<bool>::empty().insert(bit64(a, j)).insert(bit64(b, j))
    );
}

/// One fixed-point multiplication, both factors scaled by 2^32.
pub open spec fn fix_mul(a: u64, b: u64) -> u64 {
    ((a * b) / 0x1_0000_0000) as u64
}

/// `s^w` in fixed point scaled by 2^32, for a weight `w >= 1`.
pub open spec fn pow_frac(s: u64, w: nat) -> u64
    decreases w,
{
    if w <= 1 {
        s
    } else {
        fix_mul(pow_frac(s, (w - 1) as nat), s)
    }
}

/// The bit index that a fixed-point sample `s` selects in `[0, width)` once
/// skewed by the integer weight `w`: `floor(s^w * width)`.
pub open spec fn spec_weighted_index(s: u64, w: u32, width: u64) -> u64 {
    fix_mul(pow_frac(s, w as nat), width)
}

proof fn lemma_fix_mul_lt(a: u64, b: u64)
    requires
        a < 0x1_0000_0000,
        1 <= b,
        b <= 0x1_0000_0000,
    ensures
        a * b < 0x1_0000_0000 * b,
        fix_mul(a, b) < b,
{
    assert(a * b < 0x1_0000_0000 * b) by (nonlinear_arith)
        requires
            a < 0x1_0000_0000,
            b >= 1,
    ;
    assert((a * b) / 0x1_0000_0000 < b) by (nonlinear_arith)
        requires
            a * b < 0x1_0000_0000 * b,
    ;
}

/// The weighted bit-index selection: skew a uniform fixed-point sample
/// (scaled by 2^32) toward one end of `[0, width)` by exponentiation before
/// scaling it to an index. Weight 1 keeps the distribution uniform; larger
/// weights bias the choice toward the low-order bits.
pub fn weighted_bit_index(sample: u32, weight: u32, width: u64) -> (index: u64)
    requires
        1 <= weight,
        1 <= width,
        width <= 0x1_0000_0000,
    ensures
        index == spec_weighted_index(sample as u64, weight, width),
        index < width,
{
    let s: u64 = sample as u64;
    let mut acc: u64 = s;
    let mut i: u32 = 1;
    while i < weight
        invariant
            1 <= i <= weight,
            s == sample as u64,
            s < 0x1_0000_0000,
            acc == pow_frac(s, i as nat),
            acc < 0x1_0000_0000,
        decreases weight - i,
    {
        proof {
            assert(acc * s < 0x1_0000_0000 * 0x1_0000_0000) by (nonlinear_arith)
                requires
                    acc < 0x1_0000_0000,
                    s < 0x1_0000_0000,
            ;
            if s >= 1 {
                lemma_fix_mul_lt(acc, s);
            }
        }
        acc = (acc * s) / 0x1_0000_0000;
        i = i + 1;
    }
    proof {
        lemma_fix_mul_lt(acc, width);
    }
    (acc * width) / 0x1_0000_0000
}

/// The sign bit of a 64-bit float's bit pattern; toggling it alone is
/// exactly IEEE negation.
pub const F64_SIGN_BIT: u64 = 0x8000_0000_0000_0000;

/// The index that plain-float point mutation reserves to mean "negate the
/// value"; the indices below it address the mantissa-adjacent bits.
pub const F64_NEGATE_INDEX: usize = 53;

/// The bit-level step of plain-float point mutation. Index 53 negates the
/// value by toggling the sign bit of its pattern, no matter what else the
/// random draw did; a smaller index toggles that bit and reports its
/// previous value, so the caller can rescale the float by `1 ± 2^-index`.
pub fn float_mutation_flip(bits: &mut u64, index: usize) -> (was: bool)
    requires
        index <= F64_NEGATE_INDEX,
    ensures
        index == F64_NEGATE_INDEX ==> *final(bits) == flip64(*old(bits), 63) && !was,
        index < F64_NEGATE_INDEX ==> *final(bits) == flip64(*old(bits), index as u64) && was
            == bit64(*old(bits), index as u64),
{
    if index == F64_NEGATE_INDEX {
        let ghost pre: u64 = *bits;
        *bits = *bits ^ F64_SIGN_BIT;
        proof {
            assert(pre ^ 0x8000_0000_0000_0000u64 == flip64(pre, 63)) by (bit_vector);
        }
        false
    } else {
        bits.flip_get(index)
    }
}

/// One gene: the operator contract at the granularity of a single chromosome
/// locus. `bits_spec` is the gene's content zero-extended to 64 bits,
/// `width_spec` its bit width, `tuning_spec` whatever the locus carries
/// beside the gene (a weight), and `wf` the locus's own validity. Every
/// operator preserves validity and leaves each slot's tuning in place:
/// only gene content moves between the two loci.
pub trait Chromosome: Sized {
    /// The gene's bit content, zero-extended to 64 bits.
    spec fn bits_spec(&self) -> u64;

    /// The gene's bit width.
    spec fn width_spec() -> u64;

    /// What the locus carries beside the gene value (a weight); the
    /// operators never move it between loci.
    spec fn tuning_spec(&self) -> u32;

    /// The locus's validity.
    spec fn wf(&self) -> bool;

    /// Exchange the two loci's gene values whole; each slot keeps its own
    /// tuning.
    fn swap(&mut self, other: &mut Self)
        requires
            old(self).wf(),
            old(other).wf(),
        ensures
            final(self).wf(),
            final(other).wf(),
            final(self).bits_spec() == old(other).bits_spec(),
            final(other).bits_spec() == old(self).bits_spec(),
            final(self).tuning_spec() == old(self).tuning_spec(),
            final(other).tuning_spec() == old(other).tuning_spec(),
    ;

    /// Cross the two homologous loci at one random split point: the bits
    /// below the split are exchanged between the genes, those above stay,
    /// and each slot keeps its own tuning.
    fn single_point_crossover(&mut self, other: &mut Self, rng: &mut rand::rngs::ThreadRng)
        requires
            old(self).wf(),
            old(other).wf(),
        ensures
            final(self).wf(),
            final(other).wf(),
            final(self).tuning_spec() == old(self).tuning_spec(),
            final(other).tuning_spec() == old(other).tuning_spec(),
            exists|k: u64|
                k <= Self::width_spec() && final(self).bits_spec() == crossed64(
                    old(self).bits_spec(),
                    old(other).bits_spec(),
                    k,
                ) && final(other).bits_spec() == crossed64(
                    old(other).bits_spec(),
                    old(self).bits_spec(),
                    k,
                ),
    ;

    /// Mutate the locus at one random point: exactly one bit below the
    /// width is toggled, and the tuning stays.
    fn point_mutation(&mut self, rng: &mut rand::rngs::ThreadRng)
        requires
            old(self).wf(),
        ensures
            final(self).wf(),
            final(self).tuning_spec() == old(self).tuning_spec(),
            exists|i: u64|
                i < Self::width_spec() && final(self).bits_spec() == flip64(
                    old(self).bits_spec(),
                    i,
                ),
    ;
}

/// One possible outcome of a per-locus mutation roll: the locus is left
/// alone, or exactly one bit below its width is toggled; its validity and
/// tuning stay.
pub open spec fn mutation_step<L: Chromosome>(a: L, b: L) -> bool {
    &&& b.wf()
    &&& b.tuning_spec() == a.tuning_spec()
    &&& (b.bits_spec() == a.bits_spec() || (exists|i: u64|
        i < L::width_spec() && b.bits_spec() == flip64(a.bits_spec(), i)))
}

/// One possible outcome of the per-locus breeding pipeline on a homologous
/// pair: an independent mutation roll on each clone, then a crossover roll
/// (split 0 when skipped), then a swap roll that either leaves the two gene
/// values in place or exchanges them; tunings never move between the slots.
pub open spec fn breeding_step<L: Chromosome>(a: L, b: L, a2: L, b2: L) -> bool {
    exists|m1: L, m2: L, k: u64|
        mutation_step(a, m1) && mutation_step(b, m2) && k <= L::width_spec() && a2.wf()
            && b2.wf() && a2.tuning_spec() == a.tuning_spec() && b2.tuning_spec()
            == b.tuning_spec() && ((a2.bits_spec() == #[trigger] crossed64(
            m1.bits_spec(),
            m2.bits_spec(),
            k,
        ) && b2.bits_spec() == crossed64(m2.bits_spec(), m1.bits_spec(), k)) || (a2.bits_spec()
            == crossed64(m2.bits_spec(), m1.bits_spec(), k) && b2.bits_spec() == crossed64(
            m1.bits_spec(),
            m2.bits_spec(),
            k,
        )))
}

/// Crossover at split 0 is a no-op: the whole exchanged segment is empty.
pub proof fn lemma_crossed_zero(a: u64, b: u64)
    by (bit_vector)
    ensures
        crossed64(a, b, 0) == a,
{
}

/// A gene value paired with a weight that skews which bit index mutation and
/// crossover target: weight 1 keeps the choice uniform over the gene's bit
/// positions, larger integer weights bias it toward the low-order bits.
///
/// The weight is a whole number of at least 1. A fractional weight below 1,
/// which would bias the choice toward the high-order bits, has no
/// representation here: that is a deliberate limit of the integer model.
#[derive(Clone, Copy)]
pub struct Ordered<T> {
    /// The gene value.
    pub value: T,
    /// The weight; the operators expect it to be at least 1.
    pub weight: u32,
}

impl<T: BitStringRepr> Ordered<T> {
    /// The weight.
    pub open spec fn weight_spec(&self) -> u32 {
        self.weight
    }

    /// The gene value.
    pub open spec fn value_spec(&self) -> T {
        self.value
    }

    /// A locus with the neutral weight 1: the bit choice stays uniform.
    pub fn unweighted(value: T) -> (r: Self)
        ensures
            r.value_spec() == value,
            r.weight_spec() == 1,
    {
        Ordered { value, weight: 1 }
    }

    /// A locus whose bit choice is skewed by `weight`.
    pub fn weighted(value: T, weight: u32) -> (r: Self)
        requires
            1 <= weight,
        ensures
            r.value_spec() == value,
            r.weight_spec() == weight,
    {
        Ordered { value, weight }
    }

    /// Draw the weighted bit index for this locus's width.
    fn weighted_index(&self, rng: &mut rand::rngs::ThreadRng) -> (index: u64)
        requires
            1 <= self.weight_spec(),
        ensures
            index < <T::Repr as BitString>::width_spec(),
    {
        proof {
            <T::Repr as BitString>::width_bounds();
        }
        let draw: u64 = next_u64(rng);
        let sample: u32 = (draw % 0x1_0000_0000) as u32;
        let width: usize = self.value.to_bit_string().len();
        weighted_bit_index(sample, self.weight, width as u64)
    }
}

impl<T: BitStringRepr> Chromosome for Ordered<T> {
    open spec fn bits_spec(&self) -> u64 {
        self.value.to_bits_spec().view64()
    }

    open spec fn width_spec() -> u64 {
        <T::Repr as BitString>::width_spec()
    }

    open spec fn tuning_spec(&self) -> u32 {
        self.weight
    }

    open spec fn wf(&self) -> bool {
        self.weight_spec() >= 1
    }

    fn swap(&mut self, other: &mut Self)
        ensures
            final(self).value_spec() == old(other).value_spec(),
            final(other).value_spec() == old(self).value_spec(),
            final(self).weight_spec() == old(self).weight_spec(),
            final(other).weight_spec() == old(other).weight_spec(),
    {
        let tmp: T = self.value;
        self.value = other.value;
        other.value = tmp;
    }

    fn single_point_crossover(&mut self, other: &mut Self, rng: &mut rand::rngs::ThreadRng)
        ensures
            final(self).weight_spec() == old(self).weight_spec(),
            final(other).weight_spec() == old(other).weight_spec(),
            exists|k: u64|
                k < Self::width_spec() && final(self).bits_spec() == crossed64(
                    old(self).bits_spec(),
                    old(other).bits_spec(),
                    k,
                ) && final(other).bits_spec() == crossed64(
                    old(other).bits_spec(),
                    old(self).bits_spec(),
                    k,
                ),
    {
        let ghost oa: u64 = self.bits_spec();
        let ghost ob: u64 = other.bits_spec();
        proof {
            <T::Repr as BitString>::width_bounds();
        }
        let k: u64 = self.weighted_index(rng);
        let a: T::Repr = self.value.to_bit_string();
        let b: T::Repr = other.value.to_bit_string();
        let ia: T::Repr = a.substring(0, k as usize);
        let ib: T::Repr = b.substring(0, k as usize);
        let inter: T::Repr = ia.xor(ib);
        self.value = T::of_bit_string(a.xor(inter));
        other.value = T::of_bit_string(b.xor(inter));
        proof {
            let x: u64 = ia.view64();
            let y: u64 = ib.view64();
            assert(x ^ y == y ^ x) by (bit_vector);
            assert(k <= Self::width_spec() && self.bits_spec() == crossed64(oa, ob, k)
                && other.bits_spec() == crossed64(ob, oa, k));
        }
    }

    fn point_mutation(&mut self, rng: &mut rand::rngs::ThreadRng) {
        let ghost oa: u64 = self.bits_spec();
        proof {
            <T::Repr as BitString>::width_bounds();
        }
        let k: u64 = self.weighted_index(rng);
        let mut b: T::Repr = self.value.to_bit_string();
        b.flip(k as usize);
        self.value = T::of_bit_string(b);
        proof {
            assert(k < Self::width_spec() && self.bits_spec() == flip64(oa, k));
        }
    }
}

} // verus!
