//! The Schnorr protocol on one, two and three bases, the base-pair
//! commitment with its serialized opening proof, the symmetric
//! commitment opening, and batch verification with one corrupted proof.

use t_siris::commitment::{batch_verify, Commitment};
use t_siris::group::{g1_msm, g1_mul, g2_msm, g2_mul};
use t_siris::rng::SeedRng;
use t_siris::scalar::Scalar;
use t_siris::schnorr::SchnorrProtocol;
use t_siris::symmetric_commitment::{SymmetricCommitment, SymmetricCommitmentKey};

#[test]
fn test_schnorr_single() {
    let mut rng = SeedRng::from_u64(11);

    // G1 side
    let base = rng.next_g1();
    let witness = rng.next_scalar();
    let statement = g1_mul(&base, &witness);
    let bases = vec![base];
    let schnorr_commitment = SchnorrProtocol::commit(&bases, &mut rng);
    let challenge = rng.next_scalar();
    let schnorr_responses =
        SchnorrProtocol::prove(&schnorr_commitment, &vec![witness], &challenge);
    assert!(SchnorrProtocol::verify(
        &bases,
        &statement,
        &schnorr_commitment,
        &schnorr_responses,
        &challenge
    ));

    // G2 side
    let base2 = rng.next_g2();
    let witness2 = rng.next_scalar();
    let statement2 = g2_mul(&base2, &witness2);
    let bases2 = vec![base2];
    let commitment2 = SchnorrProtocol::commit_g2(&bases2, &mut rng);
    let challenge2 = rng.next_scalar();
    let responses2 = SchnorrProtocol::prove_g2_responses(&commitment2, &vec![witness2], &challenge2);
    assert!(SchnorrProtocol::verify_g2(
        &bases2,
        &statement2,
        &commitment2,
        &responses2,
        &challenge2
    ));
}

#[test]
fn test_schnorr_double() {
    let mut rng = SeedRng::from_u64(12);

    let base1 = rng.next_g1();
    let witness1 = rng.next_scalar();
    let base2 = rng.next_g1();
    let witness2 = rng.next_scalar();
    let bases = vec![base1, base2];
    let witnesses = vec![witness1, witness2];
    let public_statement = g1_msm(&bases, &witnesses);

    let commitment = SchnorrProtocol::commit(&bases, &mut rng);
    let challenge = rng.next_scalar();
    let schnorr_responses = SchnorrProtocol::prove(&commitment, &witnesses, &challenge);
    assert!(SchnorrProtocol::verify(
        &bases,
        &public_statement,
        &commitment,
        &schnorr_responses,
        &challenge
    ));

    let base1t = rng.next_g2();
    let base2t = rng.next_g2();
    let w1 = rng.next_scalar();
    let w2 = rng.next_scalar();
    let bases_t = vec![base1t, base2t];
    let witnesses_t = vec![w1, w2];
    let statement_t = g2_msm(&bases_t, &witnesses_t);
    let commitment_t = SchnorrProtocol::commit_g2(&bases_t, &mut rng);
    let challenge_t = rng.next_scalar();
    let responses_t =
        SchnorrProtocol::prove_g2_responses(&commitment_t, &witnesses_t, &challenge_t);
    assert!(SchnorrProtocol::verify_g2(
        &bases_t,
        &statement_t,
        &commitment_t,
        &responses_t,
        &challenge_t
    ));
}

#[test]
fn test_schnorr_tripple() {
    let mut rng = SeedRng::from_u64(13);

    let num_witnesses = 3;
    let mut public_generators = Vec::new();
    let mut witnesses: Vec<Scalar> = Vec::new();
    for _ in 0..num_witnesses {
        public_generators.push(rng.next_g1());
        witnesses.push(rng.next_scalar());
    }
    let public_statement = g1_msm(&public_generators, &witnesses);

    let commitment = SchnorrProtocol::commit(&public_generators, &mut rng);
    let challenge = rng.next_scalar();
    let schnorr_responses = SchnorrProtocol::prove(&commitment, &witnesses, &challenge);

    let is_valid = SchnorrProtocol::verify(
        &public_generators,
        &public_statement,
        &commitment,
        &schnorr_responses,
        &challenge,
    );
    assert!(is_valid, "Schnorr proof verification failed");
}

#[test]
fn test_basic_commitment_and_proof() {
    let mut rng = SeedRng::from_u64(12345);

    let h = rng.next_g1();
    let g = rng.next_g1();
    let m = rng.next_scalar();

    let commitment = Commitment::new(&h, &g, &m, None, &mut rng);
    let serialized_proof = commitment.prove(&mut rng).unwrap();

    let is_valid = Commitment::verify(&serialized_proof).unwrap();
    assert!(is_valid, "Proof verification failed");
}

#[test]
fn test_randomized_commitment() {
    let mut rng = SeedRng::from_u64(14);
    let l = 4;
    let mut y_values: Vec<Scalar> = Vec::new();
    for _ in 0..l {
        y_values.push(rng.next_scalar());
    }
    let ck = SymmetricCommitmentKey::new(&y_values, &mut rng);

    let mut messages: Vec<Scalar> = Vec::new();
    for _ in 0..l {
        messages.push(rng.next_scalar());
    }
    let r = rng.next_scalar();
    let commitment = SymmetricCommitment::new(&ck, &messages, &r);

    let challenge = rng.next_scalar();
    let (bases, _) = ck.get_bases();
    let schnorr_commitment = SchnorrProtocol::commit(&bases, &mut rng);
    let responses =
        SchnorrProtocol::prove(&schnorr_commitment, &commitment.get_exponents(), &challenge);

    let is_valid = SchnorrProtocol::verify(
        &bases,
        &commitment.cm,
        &schnorr_commitment,
        &responses,
        &challenge,
    );
    assert!(is_valid);
}

#[test]
fn test_batch_verify_rejects_one_bad_proof() {
    let mut rng = SeedRng::from_u64(31);
    let h = rng.next_g1();
    let g = rng.next_g1();
    let mut proofs: Vec<Vec<u8>> = Vec::new();
    for _ in 0..32 {
        let m = rng.next_scalar();
        let c = Commitment::new(&h, &g, &m, None, &mut rng);
        proofs.push(c.prove(&mut rng).unwrap());
    }
    assert_eq!(batch_verify(&proofs, &mut rng).unwrap(), true);
    // flip one byte of one response: layout is C(48) T(48) len(8)
    // bases(2*48) challenge(32) len(8) responses...
    let response_offset = 48 + 48 + 8 + 96 + 32 + 8;
    proofs[17][response_offset] ^= 1;
    assert_eq!(batch_verify(&proofs, &mut rng).unwrap(), false);
}

#[test]
fn test_batch_verify_empty_is_true() {
    let mut rng = SeedRng::from_u64(32);
    let proofs: Vec<Vec<u8>> = Vec::new();
    assert_eq!(batch_verify(&proofs, &mut rng).unwrap(), true);
}

#[test]
fn test_batch_verify_rejects_garbage_bytes() {
    let mut rng = SeedRng::from_u64(33);
    let proofs = vec![vec![0u8; 10]];
    assert!(matches!(
        batch_verify(&proofs, &mut rng),
        Err(t_siris::errors::CommitmentError::SerializationError)
    ));
}

#[test]
fn test_batch_verify_rejects_mismatched_counts() {
    let mut rng = SeedRng::from_u64(34);
    let h = rng.next_g1();
    let g = rng.next_g1();
    let m = rng.next_scalar();
    let c = Commitment::new(&h, &g, &m, None, &mut rng);
    let good = c.prove(&mut rng).unwrap();
    let parsed = t_siris::commitment::parse_proof(&good).expect("parses");
    // drop one response: the counts no longer match the bases
    let crippled = t_siris::commitment::CommitmentProof {
        commitment: parsed.commitment,
        schnorr_commitment: parsed.schnorr_commitment,
        bases: parsed.bases,
        challenge: parsed.challenge,
        responses: vec![parsed.responses[0].clone()],
    };
    let bytes = t_siris::commitment::serialize_proof(&crippled);
    let r = batch_verify(&vec![bytes], &mut rng);
    assert!(matches!(
        r,
        Err(t_siris::errors::CommitmentError::InvalidProof)
    ));
}

#[test]
fn test_schnorr_prepared_and_equality_blindings() {
    let mut rng = SeedRng::from_u64(35);
    let bases = vec![rng.next_g1(), rng.next_g1()];
    let witnesses = vec![rng.next_scalar(), rng.next_scalar()];
    let statement = g1_msm(&bases, &witnesses);

    // caller-prepared blindings give a working proof
    let blindings = vec![rng.next_scalar(), rng.next_scalar()];
    let commitment = SchnorrProtocol::commit_with_prepared_blindings(&bases, &blindings);
    let challenge = rng.next_scalar();
    let responses = SchnorrProtocol::prove(&commitment, &witnesses, &challenge);
    assert!(SchnorrProtocol::verify(
        &bases,
        &statement,
        &commitment,
        &responses,
        &challenge
    ));

    // the equality variant pins the first blinding and still proves
    let shared = rng.next_scalar();
    let commitment2 = SchnorrProtocol::commit_equality(&bases, &mut rng, &shared, 0);
    assert!(commitment2.random_blindings[0].equals(&shared));
    let challenge2 = rng.next_scalar();
    let responses2 = SchnorrProtocol::prove(&commitment2, &witnesses, &challenge2);
    assert!(SchnorrProtocol::verify(
        &bases,
        &statement,
        &commitment2,
        &responses2,
        &challenge2
    ));
}

#[test]
fn test_batch_verify_with_explicit_weights() {
    let mut rng = SeedRng::from_u64(36);
    let h = rng.next_g1();
    let g = rng.next_g1();
    let mut proofs: Vec<Vec<u8>> = Vec::new();
    let mut weights: Vec<Scalar> = Vec::new();
    for _ in 0..4 {
        let m = rng.next_scalar();
        let c = Commitment::new(&h, &g, &m, None, &mut rng);
        proofs.push(c.prove(&mut rng).unwrap());
        weights.push(rng.next_scalar_nonzero());
    }
    let r = t_siris::schnorr_batch::batch_verify_with_weights(&proofs, &weights);
    assert_eq!(r.unwrap(), true);
    // the same weights reject a corrupted batch
    let response_offset = 48 + 48 + 8 + 96 + 32 + 8;
    proofs[2][response_offset] ^= 1;
    let r2 = t_siris::schnorr_batch::batch_verify_with_weights(&proofs, &weights);
    assert_eq!(r2.unwrap(), false);
}
