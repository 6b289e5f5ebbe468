use zk_voting::uint256::U256;

fn big(w0: u64, w1: u64, w2: u64, w3: u64) -> U256 {
    U256 { w0, w1, w2, w3 }
}

#[test]
fn add_small_values() {
    let a = U256::from_u64(40);
    let b = U256::from_u64(2);
    let s = a.checked_add(&b).unwrap();
    assert_eq!(s, U256::from_u64(42));
}

#[test]
fn add_carries_across_limbs() {
    let a = U256::from_u64(u64::MAX);
    let b = U256::from_u64(1);
    let s = a.checked_add(&b).unwrap();
    assert_eq!(s, big(0, 1, 0, 0));
}

#[test]
fn add_carries_to_the_top_limb() {
    let a = big(u64::MAX, u64::MAX, u64::MAX, 0);
    let b = U256::from_u64(1);
    let s = a.checked_add(&b).unwrap();
    assert_eq!(s, big(0, 0, 0, 1));
}

#[test]
fn add_overflow_is_detected() {
    let a = big(u64::MAX, u64::MAX, u64::MAX, u64::MAX);
    let b = U256::from_u64(1);
    assert!(a.checked_add(&b).is_none());
    // One below the limit still fits.
    let c = big(u64::MAX - 1, u64::MAX, u64::MAX, u64::MAX);
    assert_eq!(c.checked_add(&U256::from_u64(1)).unwrap(), a);
}

#[test]
fn subtract_borrows_across_limbs() {
    let a = big(0, 1, 0, 0);
    let b = U256::from_u64(1);
    let d = a.sub_with_carry(&b, false);
    assert_eq!(d, U256::from_u64(u64::MAX));
}

#[test]
fn comparisons_use_the_whole_width() {
    let small = U256::from_u64(u64::MAX);
    let large = big(0, 0, 0, 1);
    assert!(large.gt(&small));
    assert!(small.lt(&large));
    assert!(large.ge(&large));
    assert!(!small.ge(&large));
}

#[test]
fn division_with_remainder() {
    let a = U256::from_u64(100);
    let b = U256::from_u64(7);
    let (q, r) = a.div_rem(&b);
    assert_eq!(q, U256::from_u64(14));
    assert_eq!(r, U256::from_u64(2));
}

#[test]
fn division_crosses_limbs() {
    // 2^64 / 2 == 2^63.
    let a = big(0, 1, 0, 0);
    let two = U256::from_u64(2);
    let (q, r) = a.div_rem(&two);
    assert_eq!(q, U256::from_u64(1u64 << 63));
    assert_eq!(r, U256::from_u64(0));
}

#[test]
fn division_by_self_and_by_one() {
    let a = big(123, 456, 789, 1011);
    let one = U256::from_u64(1);
    let (q, r) = a.div_rem(&a);
    assert_eq!(q, one);
    assert_eq!(r, U256::from_u64(0));
    let (q1, r1) = a.div_rem(&one);
    assert_eq!(q1, a);
    assert_eq!(r1, U256::from_u64(0));
}

#[test]
fn division_by_a_larger_value() {
    let a = U256::from_u64(5);
    let b = U256::from_u64(9);
    let (q, r) = a.div_rem(&b);
    assert_eq!(q, U256::from_u64(0));
    assert_eq!(r, U256::from_u64(5));
}

#[test]
fn zero_and_is_zero() {
    assert!(U256::zero().is_zero());
    assert!(!U256::from_u64(1).is_zero());
}

#[test]
fn big_endian_bytes() {
    let a = U256::from_u64(0x0102);
    let bytes = a.to_be_bytes();
    assert_eq!(bytes.len(), 32);
    assert_eq!(&bytes[..30], &[0u8; 30][..]);
    assert_eq!(bytes[30], 1);
    assert_eq!(bytes[31], 2);
    let b = big(0, 0, 0, 0x0100_0000_0000_0000);
    let bb = b.to_be_bytes();
    assert_eq!(bb[0], 1);
    assert_eq!(&bb[1..], &[0u8; 31][..]);
}

#[test]
fn doubling_reports_the_carry() {
    let a = big(0, 0, 0, 1u64 << 63);
    let (d, carry) = a.double_with_carry();
    assert_eq!(carry, 1);
    assert!(d.is_zero());
    let (d2, c2) = U256::from_u64(3).double_with_carry();
    assert_eq!(c2, 0);
    assert_eq!(d2, U256::from_u64(6));
}
