use genetic::chromosome::{
    crossover_bits64, float_mutation_flip, weighted_bit_index, Chromosome, Ordered,
    F64_NEGATE_INDEX,
};

#[test]
fn crossover_exchanges_low_segment() {
    let mut a: u64 = 0xffff_ffff_ffff_ffff;
    let mut b: u64 = 0;
    crossover_bits64(&mut a, &mut b, 16);
    assert_eq!(a, 0xffff_ffff_ffff_0000);
    assert_eq!(b, 0x0000_0000_0000_ffff);
}

#[test]
fn crossover_split_zero_is_no_op() {
    let mut a: u64 = 0x1234_5678_9abc_def0;
    let mut b: u64 = 0x0fed_cba9_8765_4321;
    crossover_bits64(&mut a, &mut b, 0);
    assert_eq!(a, 0x1234_5678_9abc_def0);
    assert_eq!(b, 0x0fed_cba9_8765_4321);
}

#[test]
fn crossover_split_full_swaps_whole() {
    let mut a: u64 = 0x1234_5678_9abc_def0;
    let mut b: u64 = 0x0fed_cba9_8765_4321;
    crossover_bits64(&mut a, &mut b, 64);
    assert_eq!(a, 0x0fed_cba9_8765_4321);
    assert_eq!(b, 0x1234_5678_9abc_def0);
}

#[test]
fn crossover_twice_restores_pair() {
    for k in [0usize, 1, 7, 13, 32, 53, 63, 64] {
        let mut a: u64 = 0xdead_beef_0123_4567;
        let mut b: u64 = 0x0bad_f00d_cafe_1234;
        crossover_bits64(&mut a, &mut b, k);
        crossover_bits64(&mut a, &mut b, k);
        assert_eq!(a, 0xdead_beef_0123_4567);
        assert_eq!(b, 0x0bad_f00d_cafe_1234);
    }
}

#[test]
fn crossover_conserves_bit_population() {
    for k in [0usize, 5, 17, 40, 64] {
        let a: u64 = 0xdead_beef_0123_4567;
        let b: u64 = 0x0bad_f00d_cafe_1234;
        let mut a2 = a;
        let mut b2 = b;
        crossover_bits64(&mut a2, &mut b2, k);
        let mask: u64 = if k == 64 { u64::MAX } else { (1u64 << k) - 1 };
        assert_eq!(
            (a & mask).count_ones() + (b & mask).count_ones(),
            (a2 & mask).count_ones() + (b2 & mask).count_ones()
        );
        assert_eq!(a2 & !mask, a & !mask);
        assert_eq!(b2 & !mask, b & !mask);
    }
}

#[test]
fn float_mutation_index_53_negates() {
    for v in [3.5f64, -0.25, 0.0, 1e300, f64::INFINITY] {
        let mut bits: u64 = v.to_bits();
        let was = float_mutation_flip(&mut bits, F64_NEGATE_INDEX);
        assert!(!was);
        assert_eq!(f64::from_bits(bits), -v);
    }
}

#[test]
fn float_mutation_low_index_flips_and_reports() {
    let x: f64 = 1.0;
    let mut bits: u64 = x.to_bits();
    let was = float_mutation_flip(&mut bits, 0);
    assert!(!was);
    assert_eq!(bits, x.to_bits() | 1);
    let was = float_mutation_flip(&mut bits, 0);
    assert!(was);
    assert_eq!(bits, x.to_bits());
}

#[test]
fn weighted_index_neutral_weight_scales_sample() {
    // weight 1: index is floor(sample / 2^32 * width)
    assert_eq!(weighted_bit_index(0, 1, 64), 0);
    assert_eq!(weighted_bit_index(0x8000_0000, 1, 64), 32);
    assert_eq!(weighted_bit_index(0xffff_ffff, 1, 64), 63);
    assert_eq!(weighted_bit_index(0x8000_0000, 1, 32), 16);
}

#[test]
fn weighted_index_larger_weight_biases_low() {
    // weight 2 squares the sample: 0.5 -> 0.25 of the width
    assert_eq!(weighted_bit_index(0x8000_0000, 2, 64), 16);
    // weight 3 cubes it: 0.5 -> 0.125 of the width
    assert_eq!(weighted_bit_index(0x8000_0000, 3, 64), 8);
    // the index always stays inside the width
    for w in 1..6u32 {
        assert!(weighted_bit_index(0xffff_ffff, w, 64) < 64);
    }
}

#[test]
fn ordered_swap_exchanges_values() {
    let mut a: Ordered<u32> = Ordered::weighted(11, 3);
    let mut b: Ordered<u32> = Ordered::weighted(22, 5);
    a.swap(&mut b);
    assert_eq!(a.value, 22);
    assert_eq!(b.value, 11);
    // the weights stay with their slots
    assert_eq!(a.weight, 3);
    assert_eq!(b.weight, 5);
}

#[test]
fn ordered_crossover_of_equal_values_is_identity() {
    let mut rng = rand::thread_rng();
    let mut a: Ordered<u64> = Ordered::unweighted(0x1234_5678_9abc_def0);
    let mut b: Ordered<u64> = Ordered::unweighted(0x1234_5678_9abc_def0);
    for _ in 0..50 {
        a.single_point_crossover(&mut b, &mut rng);
        assert_eq!(a.value, 0x1234_5678_9abc_def0);
        assert_eq!(b.value, 0x1234_5678_9abc_def0);
    }
}

#[test]
fn ordered_mutation_flips_exactly_one_bit() {
    let mut rng = rand::thread_rng();
    for _ in 0..100 {
        let mut a: Ordered<u32> = Ordered::weighted(0xcafe_f00d, 2);
        a.point_mutation(&mut rng);
        assert_eq!((a.value ^ 0xcafe_f00d).count_ones(), 1);
    }
    for _ in 0..100 {
        let mut a: Ordered<i32> = Ordered::unweighted(-17);
        a.point_mutation(&mut rng);
        assert_eq!((a.value ^ -17i32).count_ones(), 1);
        assert_eq!(a.weight, 1);
    }
}
