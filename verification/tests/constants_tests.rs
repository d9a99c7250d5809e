use num_bigint::BigUint;
use plonk::constants::{curve_order, MODULES_BIT_SIZE, PRIMITIVE_ROOT};

#[test]
fn check_pow() {
    let _a: BigUint = BigUint::from(5u64);
    let c = BigUint::from(2u64);
    let b: BigUint = BigUint::from(5u64);
    let pow_of_root = c.modpow(&(&(b.clone() - BigUint::from(1u64)) / BigUint::from(2u64)), &b);

    assert_eq!(pow_of_root, BigUint::from(4usize));
}

#[test]
fn curve_order_matches_the_known_modulus() {
    let r = curve_order();
    assert_eq!(r.bits() as usize, MODULES_BIT_SIZE);
    let expected = BigUint::parse_bytes(
        b"52435875175126190479447740508185965837690552500527637822603658699938581184513",
        10,
    )
    .unwrap();
    assert_eq!(r, expected);
    // The primitive root is a quadratic non-residue: 5^((r-1)/2) = r - 1.
    let root = BigUint::from(PRIMITIVE_ROOT);
    let exp = (&expected - BigUint::from(1u64)) / BigUint::from(2u64);
    assert_eq!(root.modpow(&exp, &expected), &expected - BigUint::from(1u64));
}
