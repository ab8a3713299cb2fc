//! The pairing-check accumulator against real pairings computed with
//! arkworks, the rule against merging un-randomized checks, and the
//! private VRF protocol.

use ark_ec::pairing::Pairing;
use ark_ec::CurveGroup;
use ark_serialize::CanonicalSerialize;
use ark_std::UniformRand;
use rand::SeedableRng;
use t_siris::group::{g1_check, g2_check, gt_check, miller_prod, final_exp, G1Elem, G2Elem, GtElem};
use t_siris::pairing::PairingCheck;
use t_siris::rng::SeedRng;
use t_siris::scalar::fr_neg;
use t_siris::nullifier::{DYPFPrivVRF, DYPFPrivVRFWitness};

fn random_pair(ark_rng: &mut rand::rngs::StdRng) -> (G1Elem, G2Elem, GtElem) {
    let g1r = ark_bls12_381::G1Projective::rand(ark_rng).into_affine();
    let g2r = ark_bls12_381::G2Projective::rand(ark_rng).into_affine();
    let exp = ark_bls12_381::Bls12_381::pairing(g1r, g2r);
    let mut g1b = Vec::new();
    g1r.serialize_compressed(&mut g1b).unwrap();
    let mut g2b = Vec::new();
    g2r.serialize_compressed(&mut g2b).unwrap();
    let mut gtb = Vec::new();
    exp.0.serialize_compressed(&mut gtb).unwrap();
    (
        g1_check(&g1b).expect("valid G1 point"),
        g2_check(&g2b).expect("valid G2 point"),
        gt_check(&gtb).expect("valid target element"),
    )
}

#[test]
fn test_pairing_randomize() {
    let mut ark_rng = rand::rngs::StdRng::seed_from_u64(41);
    let mut rng = SeedRng::from_u64(42);

    let mut final_tuple = PairingCheck::new();
    for _ in 0..3 {
        let (p, q, target) = random_pair(&mut ark_rng);
        let tuple = PairingCheck::rand(&mut rng, &vec![p], &vec![q], &target);
        assert!(tuple.verify());
        final_tuple.merge(&tuple);
    }
    assert!(final_tuple.verify());
}

#[test]
fn test_merged_unrandomized_checks_fail() {
    let mut ark_rng = rand::rngs::StdRng::seed_from_u64(43);
    let (p1, q1, _) = random_pair(&mut ark_rng);
    let (p2, q2, _) = random_pair(&mut ark_rng);

    // two honest un-randomized checks, each fine on its own
    let m1 = miller_prod(&vec![p1], &vec![q1]);
    let t1 = final_exp(&m1).expect("nonzero miller output");
    let c1 = PairingCheck::from_products(vec![m1], t1);
    assert!(c1.verify());

    let m2 = miller_prod(&vec![p2], &vec![q2]);
    let t2 = final_exp(&m2).expect("nonzero miller output");
    let c2 = PairingCheck::from_products(vec![m2], t2);
    assert!(c2.verify());

    // merged they can never verify: the counter rejects them
    let mut merged = c1;
    merged.merge(&c2);
    assert!(!merged.verify());
}

#[test]
fn test_new_invalid_never_verifies() {
    let check = PairingCheck::new_invalid();
    assert!(!check.verify());
}

#[test]
fn test_pdy_priv_vrf_complete_protocol() {
    let mut rng = SeedRng::from_u64(44);

    let vrf = DYPFPrivVRF::new(&mut rng);
    let (sk, mut pk) = vrf.generate_keys(&mut rng);

    let x = rng.next_scalar();
    let (input, cm_x) = vrf.commit_to_input(&x, &mut rng);
    pk.cm_x = cm_x;

    let witness = DYPFPrivVRFWitness {
        sk: sk.sk.clone(),
        r_sk: sk.r_sk.clone(),
        x: input.x.clone(),
        r_x: input.r_x.clone(),
    };

    let output = vrf.evaluate(&witness).expect("Failed to evaluate VRF");

    let challenge = rng.next_scalar();
    let proof = vrf.prove_with_challenge(&witness, &output, &challenge, &mut rng);

    let is_valid = vrf.verify(&pk, &output, &proof, &challenge);
    assert!(is_valid, "P-DY-Priv VRF verification failed");
}

#[test]
fn test_vrf_eval_is_deterministic_and_zero_sum_fails() {
    let mut rng = SeedRng::from_u64(45);
    let vrf = DYPFPrivVRF::new(&mut rng);
    let sk = rng.next_scalar();
    let x = rng.next_scalar();
    let w = DYPFPrivVRFWitness {
        sk: sk.clone(),
        r_sk: rng.next_scalar(),
        x: x.clone(),
        r_x: rng.next_scalar(),
    };
    let y1 = vrf.evaluate(&w).expect("evaluation succeeds");
    let y2 = vrf.evaluate(&w).expect("evaluation succeeds");
    assert!(y1.y.equals(&y2.y));

    // sk + x = 0 in the field is refused
    let w_zero = DYPFPrivVRFWitness {
        sk: sk.clone(),
        r_sk: rng.next_scalar(),
        x: fr_neg(&sk),
        r_x: rng.next_scalar(),
    };
    assert!(vrf.evaluate(&w_zero).is_err());
}

#[test]
fn test_vrf_rejects_wrong_output() {
    let mut rng = SeedRng::from_u64(46);
    let vrf = DYPFPrivVRF::new(&mut rng);
    let (sk, mut pk) = vrf.generate_keys(&mut rng);
    let x = rng.next_scalar();
    let (input, cm_x) = vrf.commit_to_input(&x, &mut rng);
    pk.cm_x = cm_x;
    let witness = DYPFPrivVRFWitness {
        sk: sk.sk.clone(),
        r_sk: sk.r_sk.clone(),
        x: input.x.clone(),
        r_x: input.r_x.clone(),
    };
    let output = vrf.evaluate(&witness).expect("evaluation succeeds");
    let challenge = rng.next_scalar();
    let proof = vrf.prove_with_challenge(&witness, &output, &challenge, &mut rng);

    // verification against a different output fails
    let other = t_siris::nullifier::DYPFPrivVRFOutput { y: vrf.pp.g.clone() };
    assert!(!vrf.verify(&pk, &other, &proof, &challenge));
}
