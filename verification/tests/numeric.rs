use trae_cli::numeric::{bit_floor, isqrt, saturate_to_u64, saturate_to_usize, scale, scale_u64, Ratio};

#[test]
fn integer_square_roots() {
    assert_eq!(isqrt(0), 0);
    assert_eq!(isqrt(1), 1);
    assert_eq!(isqrt(3), 1);
    assert_eq!(isqrt(4), 2);
    assert_eq!(isqrt(99), 9);
    assert_eq!(isqrt(100), 10);
    assert_eq!(isqrt(u128::MAX), u64::MAX);
    for n in 0u128..2000 {
        let r = isqrt(n) as u128;
        assert!(r * r <= n && n < (r + 1) * (r + 1));
    }
}

#[test]
fn scaling_rounds_down() {
    assert_eq!(scale(50, 4, 5), 40);
    assert_eq!(scale(7, 4, 5), 5);
    assert_eq!(scale(50, 6, 5), 60);
    assert_eq!(scale(9, 7, 10), 6);
    assert_eq!(scale(0, 7, 10), 0);
    assert_eq!(scale_u64(10000, 80, 100), 8000);
}

#[test]
fn scaling_saturates() {
    assert_eq!(scale(usize::MAX, 2, 1), usize::MAX);
    assert_eq!(scale_u64(u64::MAX, 120, 100), u64::MAX);
    assert_eq!(saturate_to_usize(u128::MAX), usize::MAX);
    assert_eq!(saturate_to_usize(17), 17);
    assert_eq!(saturate_to_u64(u128::MAX), u64::MAX);
    assert_eq!(saturate_to_u64(17), 17);
}

#[test]
fn ratios_compare_by_cross_multiplication() {
    let half = Ratio { numerator: 1, denominator: 2 };
    let six_tenths = Ratio { numerator: 6, denominator: 10 };
    let three_fifths = Ratio { numerator: 3, denominator: 5 };
    assert!(half.is_below(&six_tenths));
    assert!(!six_tenths.is_below(&half));
    assert!(!six_tenths.is_below(&three_fifths));
    assert!(!three_fifths.is_below(&six_tenths));
    let huge = Ratio { numerator: u64::MAX, denominator: u64::MAX };
    let nearly = Ratio { numerator: u64::MAX - 1, denominator: u64::MAX };
    assert!(nearly.is_below(&huge));
    assert!(half.is_positive());
    assert!(!Ratio { numerator: 0, denominator: 5 }.is_positive());
}

#[test]
fn binary_logarithms_round_down() {
    assert_eq!(bit_floor(1), 0);
    assert_eq!(bit_floor(2), 1);
    assert_eq!(bit_floor(3), 1);
    assert_eq!(bit_floor(255), 7);
    assert_eq!(bit_floor(256), 8);
    assert_eq!(bit_floor(u64::MAX), 63);
}
