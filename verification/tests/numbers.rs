use middleware::utils::natural::{Nat, ToNatType, ToNativeTypes, U256};

#[test]
fn small_number_converts_to_itself() {
    let n = Nat { digits: vec![1125] };
    assert_eq!(n.to_u64(), 1125);
    assert_eq!(n.to_u32(), 1125);
}

#[test]
fn zero_converts_to_zero() {
    let n = Nat { digits: vec![] };
    assert_eq!(n.to_u64(), 0);
    assert_eq!(n.to_u32(), 0);
    assert_eq!(n.to_u256(), U256([0, 0, 0, 0]));
    let z = Nat { digits: vec![0, 0] };
    assert_eq!(z.to_u64(), 0);
}

#[test]
fn large_number_gives_its_top_digit() {
    // 1 + 2 * 2^32 + 3 * 2^64
    let n = Nat { digits: vec![1, 2, 3] };
    assert_eq!(n.to_u64(), 3);
    assert_eq!(n.to_u32(), 3);
    // 2^32 fits in 64 bits
    let m = Nat { digits: vec![0, 1] };
    assert_eq!(m.to_u64(), 1u64 << 32);
    assert_eq!(m.to_u32(), 1);
}

#[test]
fn trailing_zero_digits_are_ignored() {
    let n = Nat { digits: vec![5, 0, 0] };
    assert_eq!(n.to_u32(), 5);
    assert_eq!(n.to_u64(), 5);
}

#[test]
fn to_u256_keeps_the_number() {
    let n = Nat { digits: vec![1, 2, 3, 4, 5, 6, 7, 8] };
    let u = n.to_u256();
    assert_eq!(u, U256([1 + (2u64 << 32), 3 + (4u64 << 32), 5 + (6u64 << 32), 7 + (8u64 << 32)]));
}

#[test]
fn to_nat_keeps_the_number() {
    let u = U256([1, 0, 2, 0]);
    let n = u.to_nat();
    assert_eq!(n.digits, vec![1, 0, 0, 0, 2]);
}

#[test]
fn round_trip_through_u256() {
    let n = Nat { digits: vec![9, 8, 7, 6, 5] };
    assert_eq!(n.to_u256().to_nat(), n);
}
