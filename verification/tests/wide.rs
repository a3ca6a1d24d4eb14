use bls12_381_g1::wide::Wide;

fn wide(limbs: &[u64]) -> Wide {
    let mut l = [0u64; 13];
    l[..limbs.len()].copy_from_slice(limbs);
    Wide::from_limbs(l)
}

fn low(w: &Wide) -> [u64; 3] {
    let l = w.limbs();
    assert!(l[3..].iter().all(|x| *x == 0));
    [l[0], l[1], l[2]]
}

#[test]
fn wide_addition_carries_between_limbs() {
    assert_eq!(low(&Wide::from_u64(3).add(&Wide::from_u64(4))), [7, 0, 0]);
    assert_eq!(low(&Wide::from_u64(u64::MAX).add(&Wide::from_u64(1))), [0, 1, 0]);
    assert_eq!(low(&wide(&[u64::MAX, u64::MAX]).add(&wide(&[1]))), [0, 0, 1]);
    assert_eq!(low(&wide(&[5, 6]).add(&wide(&[0]))), [5, 6, 0]);
}

#[test]
fn wide_subtraction_borrows_between_limbs() {
    assert_eq!(low(&Wide::from_u64(9).sub(&Wide::from_u64(4))), [5, 0, 0]);
    assert_eq!(low(&wide(&[0, 1]).sub(&wide(&[1]))), [u64::MAX, 0, 0]);
    assert_eq!(low(&wide(&[0, 0, 1]).sub(&wide(&[1]))), [u64::MAX, u64::MAX, 0]);
    assert_eq!(low(&wide(&[5, 6]).sub(&wide(&[5, 6]))), [0, 0, 0]);
}

#[test]
fn wide_multiplication_is_the_full_product() {
    assert_eq!(low(&Wide::from_u64(6).mul(&Wide::from_u64(7))), [42, 0, 0]);
    assert_eq!(
        low(&Wide::from_u64(u64::MAX).mul(&Wide::from_u64(u64::MAX))),
        [1, 0xfffffffffffffffe, 0]
    );
    assert_eq!(low(&wide(&[0, 1]).mul(&wide(&[0, 1]))), [0, 0, 1]);
    assert_eq!(low(&wide(&[3, 4]).mul(&Wide::from_u64(0))), [0, 0, 0]);
    let top = wide(&[0, 0, 0, 0, 0, 0, 1]).mul(&wide(&[0, 0, 0, 0, 0, 0, 2]));
    assert_eq!(top.limbs(), [0, 0, 0, 0, 0, 0, 0, 0, 0, 0, 0, 0, 2]);
}

#[test]
fn wide_shift_divides_by_a_power_of_two() {
    assert_eq!(low(&Wide::from_u64(40).shr(3)), [5, 0, 0]);
    assert_eq!(low(&Wide::from_u64(41).shr(0)), [41, 0, 0]);
    assert_eq!(low(&wide(&[0, 1]).shr(1)), [1 << 63, 0, 0]);
    assert_eq!(low(&wide(&[7, 8, 9]).shr(64)), [8, 9, 0]);
    assert_eq!(low(&wide(&[7, 8, 9]).shr(128)), [9, 0, 0]);
    assert_eq!(low(&wide(&[0, 0, 0, 0, 0, 0, 0, 0, 0, 0, 0, 0, 1 << 63]).shr(831)), [1, 0, 0]);
    assert_eq!(low(&wide(&[0, 0, 0, 0, 0, 0, 0, 0, 0, 0, 0, 0, 1 << 63]).shr(832)), [0, 0, 0]);
    assert_eq!(low(&wide(&[7, 8, 9]).shr(u32::MAX)), [0, 0, 0]);
    assert_eq!(low(&Wide::from_u64(9).half()), [4, 0, 0]);
    assert_eq!(low(&wide(&[1, 1]).half()), [1 << 63, 0, 0]);
}

#[test]
fn wide_order_goes_by_the_value() {
    assert!(Wide::from_u64(3).lt(&Wide::from_u64(4)));
    assert!(!Wide::from_u64(4).lt(&Wide::from_u64(4)));
    assert!(!Wide::from_u64(5).lt(&Wide::from_u64(4)));
    assert!(wide(&[u64::MAX]).lt(&wide(&[0, 1])));
    assert!(!wide(&[0, 1]).lt(&wide(&[u64::MAX])));
    assert!(wide(&[9, 1]).lt(&wide(&[0, 0, 0, 0, 0, 0, 0, 0, 0, 0, 0, 0, 1])));
    assert!(wide(&[3, 4]).same(&wide(&[3, 4])));
    assert!(!wide(&[3, 4]).same(&wide(&[4, 3])));
}

#[test]
fn wide_parity_and_zero() {
    assert!(Wide::from_u64(0).is_zero());
    assert!(!Wide::from_u64(1).is_zero());
    assert!(!wide(&[0, 1]).is_zero());
    assert!(Wide::from_u64(7).is_odd());
    assert!(!Wide::from_u64(8).is_odd());
    assert!(!wide(&[0, 1]).is_odd());
    assert!(wide(&[1, 1]).is_odd());
}

#[test]
fn wide_limbs_of_narrower_values() {
    assert_eq!(Wide::from_limbs6(&[1, 2, 3, 4, 5, 6]).limbs(), [1, 2, 3, 4, 5, 6, 0, 0, 0, 0, 0, 0, 0]);
    assert_eq!(Wide::from_limbs4(&[1, 2, 3, 4]).limbs(), [1, 2, 3, 4, 0, 0, 0, 0, 0, 0, 0, 0, 0]);
    assert_eq!(Wide::from_limbs6(&[1, 2, 3, 4, 5, 6]).low6(), [1, 2, 3, 4, 5, 6]);
    assert_eq!(Wide::from_limbs4(&[1, 2, 3, 4]).low4(), [1, 2, 3, 4]);
    assert_eq!(Wide::from_u64(9).limbs()[0], 9);
}
