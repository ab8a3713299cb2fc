//! Checks of the field and group primitives against known values, and
//! of the proof wire codec round trip.

use t_siris::bytes::{bytes_eq, copy_bytes};
use t_siris::commitment::{parse_proof, serialize_proof, Commitment};
use t_siris::group::{g1_add, g1_check, g1_msm, g1_mul, g1_neg};
use t_siris::rng::SeedRng;
use t_siris::scalar::{
    fr_add, fr_check, fr_from_u64, fr_inverse, fr_mul, fr_neg, fr_sub, Scalar,
};

#[test]
fn test_scalar_arithmetic_known_values() {
    let two = fr_from_u64(2);
    let three = fr_from_u64(3);
    let five = fr_from_u64(5);
    assert!(fr_add(&two, &three).equals(&five));
    let six = fr_from_u64(6);
    let seven = fr_from_u64(7);
    let forty_two = fr_from_u64(42);
    assert!(fr_mul(&six, &seven).equals(&forty_two));
    assert!(fr_sub(&five, &three).equals(&two));
    let neg_five = fr_neg(&five);
    assert!(fr_add(&neg_five, &five).is_zero());
    let inv7 = fr_inverse(&seven).expect("seven must be invertible");
    assert!(fr_mul(&seven, &inv7).equals(&Scalar::one()));
    assert!(fr_inverse(&Scalar::zero()).is_none());
    assert_eq!(Scalar::zero().to_bytes(), vec![0u8; 32]);
    let one_bytes = Scalar::one().to_bytes();
    assert_eq!(one_bytes[0], 1);
    assert!(one_bytes[1..].iter().all(|b| *b == 0));
}

#[test]
fn test_scalar_byte_round_trip() {
    let mut rng = SeedRng::from_u64(7);
    let s = rng.next_scalar();
    let b = s.to_bytes();
    let back = fr_check(&b).expect("canonical bytes must parse");
    assert!(back.equals(&s));
    // a value at or above the order is refused
    let mut too_big = vec![0xffu8; 32];
    too_big[31] = 0xff;
    assert!(fr_check(&too_big).is_none());
}

#[test]
fn test_group_operations_consistent() {
    let mut rng = SeedRng::from_u64(99);
    let p = rng.next_g1();
    let q = rng.next_g1();
    let a = rng.next_scalar();
    let b = rng.next_scalar();
    // the multi-scalar product agrees with the single operations
    let lhs = g1_msm(&vec![p.clone(), q.clone()], &vec![a.clone(), b.clone()]);
    let rhs = g1_add(&g1_mul(&p, &a), &g1_mul(&q, &b));
    assert!(lhs.equals(&rhs));
    // doubling two ways
    let two = fr_from_u64(2);
    assert!(g1_mul(&p, &two).equals(&g1_add(&p, &p)));
    // negation inverts: p + (-p) + p == p
    let back = g1_add(&g1_add(&p, &g1_neg(&p)), &p);
    assert!(back.equals(&p));
    // point bytes survive the checked constructor
    let pb = p.to_bytes();
    let p2 = g1_check(&pb).expect("canonical point bytes must parse");
    assert!(p2.equals(&p));
}

#[test]
fn test_byte_helpers() {
    let a = vec![1u8, 2, 3];
    let b = copy_bytes(&a);
    assert!(bytes_eq(&a, &b));
    let c = vec![1u8, 2, 4];
    assert!(!bytes_eq(&a, &c));
    assert!(!bytes_eq(&a, &vec![1u8, 2]));
}

#[test]
fn test_proof_codec_round_trip() {
    let mut rng = SeedRng::from_u64(2024);
    let h = rng.next_g1();
    let g = rng.next_g1();
    let m = rng.next_scalar();
    let commitment = Commitment::new(&h, &g, &m, None, &mut rng);
    let bytes = commitment.prove(&mut rng).expect("proving cannot fail");
    let parsed = parse_proof(&bytes).expect("serialized proof must parse");
    let again = serialize_proof(&parsed);
    assert_eq!(bytes, again);
    // truncated input is refused
    let mut short = bytes.clone();
    short.truncate(bytes.len() - 1);
    assert!(parse_proof(&short).is_none());
    // trailing garbage is refused
    let mut long = bytes.clone();
    long.push(0);
    assert!(parse_proof(&long).is_none());
}
