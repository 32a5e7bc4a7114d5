use genetic::bits::{BitString, BitStringRepr};

#[test]
fn flip_round_trip_u64() {
    let original: u64 = 0xdead_beef_0123_4567;
    for i in [0usize, 1, 31, 32, 62, 63] {
        let mut x: u64 = original;
        x.flip(i);
        assert_ne!(x, original);
        x.flip(i);
        assert_eq!(x, original);
    }
}

#[test]
fn flip_round_trip_u32() {
    let original: u32 = 0xcafe_f00d;
    for i in [0usize, 1, 15, 16, 30, 31] {
        let mut x: u32 = original;
        x.flip(i);
        assert_ne!(x, original);
        x.flip(i);
        assert_eq!(x, original);
    }
}

#[test]
fn flip_sets_and_clears() {
    let mut x: u64 = 0;
    x.flip(5);
    assert_eq!(x, 1u64 << 5);
    x.flip(63);
    assert_eq!(x, (1u64 << 5) | (1u64 << 63));
    x.flip(5);
    assert_eq!(x, 1u64 << 63);
}

#[test]
fn flip_get_reports_prior_bit() {
    let mut x: u64 = 0b1010;
    let was = x.flip_get(1);
    assert!(was);
    assert_eq!(x, 0b1000);
    let was = x.flip_get(0);
    assert!(!was);
    assert_eq!(x, 0b1001);

    let mut y: u32 = 0x8000_0000;
    assert!(y.flip_get(31));
    assert_eq!(y, 0);
}

#[test]
fn flip_get_matches_flip() {
    let mut a: u64 = 0x0123_4567_89ab_cdef;
    let mut b: u64 = a;
    a.flip(40);
    b.flip_get(40);
    assert_eq!(a, b);
}

#[test]
fn substring_masks_range() {
    let x: u64 = 0xffff_ffff_ffff_ffff;
    assert_eq!(x.substring(4, 8), 0xf0);
    assert_eq!(x.substring(0, 4), 0xf);
    assert_eq!(x.substring(60, 64), 0xf000_0000_0000_0000);

    let y: u64 = 0xdead_beef_0123_4567;
    assert_eq!(y.substring(0, 16), 0x4567);
    assert_eq!(y.substring(16, 32), 0x0123_0000);
}

#[test]
fn substring_empty_and_full() {
    let x: u64 = 0xdead_beef_0123_4567;
    for k in [0usize, 1, 32, 64] {
        assert_eq!(x.substring(k, k), 0);
    }
    assert_eq!(x.substring(0, 64), x);

    let y: u32 = 0xcafe_f00d;
    assert_eq!(y.substring(17, 17), 0);
    assert_eq!(y.substring(0, 32), y);
    assert_eq!(y.substring(28, 32), 0xc000_0000);
}

#[test]
fn bit_string_lengths() {
    assert_eq!(0u32.len(), 32);
    assert_eq!(0u64.len(), 64);
}

#[test]
fn signed_repr_round_trips() {
    let v: i32 = -5;
    let bits: u32 = v.to_bit_string();
    assert_eq!(bits, 0xffff_fffb);
    assert_eq!(i32::of_bit_string(bits), v);

    let w: i64 = -1;
    let bits64: u64 = w.to_bit_string();
    assert_eq!(bits64, u64::MAX);
    assert_eq!(i64::of_bit_string(bits64), w);

    assert_eq!(7u64.to_bit_string(), 7u64);
    assert_eq!(u32::of_bit_string(9u32), 9u32);
}
