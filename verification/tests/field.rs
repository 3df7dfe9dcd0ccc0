use opprf::field::{Fp, FIELD_MODULUS};

#[test]
fn test_field_new_reduces() {
    assert_eq!(Fp::new(0).v, 0);
    assert_eq!(Fp::new(FIELD_MODULUS).v, 0);
    assert_eq!(Fp::new(FIELD_MODULUS + 7).v, 7);
    assert_eq!(Fp::new(u64::MAX).v, u64::MAX % FIELD_MODULUS);
}

#[test]
fn test_field_add_exact() {
    assert_eq!(Fp::new(2).add(Fp::new(3)).v, 5);
    // wrap-around across the modulus
    assert_eq!(Fp::new(FIELD_MODULUS - 1).add(Fp::new(5)).v, 4);
    assert_eq!(Fp::new(FIELD_MODULUS - 1).add(Fp::new(1)).v, 0);
}

#[test]
fn test_field_sub_exact() {
    assert_eq!(Fp::new(5).sub(Fp::new(3)).v, 2);
    // wrap-around below zero
    assert_eq!(Fp::new(3).sub(Fp::new(5)).v, FIELD_MODULUS - 2);
    assert_eq!(Fp::new(0).sub(Fp::new(1)).v, FIELD_MODULUS - 1);
}

#[test]
fn test_field_mul_exact() {
    assert_eq!(Fp::new(2).mul(Fp::new(3)).v, 6);
    // (p - 1) * 2 = 2p - 2 = p - 2 (mod p)
    assert_eq!(Fp::new(FIELD_MODULUS - 1).mul(Fp::new(2)).v, FIELD_MODULUS - 2);
    assert_eq!(Fp::new(0).mul(Fp::new(12345)).v, 0);
}

#[test]
fn test_field_sub_add_cancel() {
    let z = Fp::new(987654321);
    let b = Fp::new(123456789987654321);
    assert_eq!(z.sub(b).add(b), z);
    let z2 = Fp::new(1);
    let b2 = Fp::new(FIELD_MODULUS - 1);
    assert_eq!(z2.sub(b2).add(b2), z2);
}
