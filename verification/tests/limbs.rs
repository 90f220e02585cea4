use trae_cli::limbs::{limbs_greater, limbs_log2, limbs_mul, limbs_pad, limbs_pow, limbs_trim};

#[test]
fn powers_are_exact() {
    assert_eq!(limbs_pow(7, 0), vec![1]);
    assert_eq!(limbs_pow(7, 2), vec![49]);
    assert_eq!(limbs_pow(2, 64), vec![0, 1]);
    assert_eq!(limbs_pow(10, 20), vec![0x6bc7_5e2d_6310_0000, 0x5]);
    assert_eq!(limbs_pow(3, 100), vec![0xd694_7d55_cf38_13d1, 0x6737_6856_5b41_f775, 0x5a46_53ca]);
    assert_eq!(limbs_pow(0, 5), Vec::<u64>::new());
    assert_eq!(limbs_pow(0, 0), vec![1]);
}

#[test]
fn multiplying_by_a_limb_carries() {
    assert_eq!(limbs_mul(&vec![u64::MAX], 2), vec![u64::MAX - 1, 1]);
    assert_eq!(limbs_mul(&vec![5, 7], 3), vec![15, 21, 0]);
    assert_eq!(limbs_mul(&vec![], 9), vec![0]);
}

#[test]
fn trimming_drops_the_zero_limbs_at_the_top() {
    assert_eq!(limbs_trim(vec![1, 0, 0]), vec![1]);
    assert_eq!(limbs_trim(vec![0, 2]), vec![0, 2]);
    assert_eq!(limbs_trim(vec![0, 0]), Vec::<u64>::new());
}

#[test]
fn padding_adds_zero_limbs_at_the_top() {
    assert_eq!(limbs_pad(vec![3], 3), vec![3, 0, 0]);
    assert_eq!(limbs_pad(vec![3, 4], 1), vec![3, 4]);
}

#[test]
fn limb_sequences_compare_as_numbers() {
    assert!(limbs_greater(&vec![0, 1], &vec![u64::MAX, 0]));
    assert!(!limbs_greater(&vec![u64::MAX, 0], &vec![0, 1]));
    assert!(!limbs_greater(&vec![4, 4], &vec![4, 4]));
    assert!(limbs_greater(&vec![5, 4], &vec![4, 4]));
}

#[test]
fn logarithms_count_the_binary_digits() {
    assert_eq!(limbs_log2(&vec![1]), 0);
    assert_eq!(limbs_log2(&vec![0, 1]), 64);
    assert_eq!(limbs_log2(&limbs_pow(10, 20)), 66);
    assert_eq!(limbs_log2(&limbs_pow(3, 100)), 158);
    assert_eq!(limbs_log2(&limbs_pow(2, 1000)), 1000);
}
