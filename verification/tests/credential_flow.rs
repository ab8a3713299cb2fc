//! End-to-end credential issuance, showing and verification, threshold
//! tightness, duplicate rejection, mutation rejection, and the
//! unlinkability of repeated presentations.

use t_siris::credential::CredentialState;
use t_siris::errors::SignatureError;
use t_siris::group::{g1_check, G1Elem};
use t_siris::keygen::keygen;
use t_siris::protocol::{IssuerProtocol, UserProtocol, VerifierProtocol};
use t_siris::rng::SeedRng;
use t_siris::scalar::Scalar;
use t_siris::signature::{PartialSignature, ThresholdSignature};
use t_siris::signer::Signer;

const THRESHOLD: usize = 2;
const N_PARTICIPANTS: usize = 5;
const L_ATTRIBUTES: usize = 3;

fn random_attributes(rng: &mut SeedRng, l: usize) -> Vec<Scalar> {
    let mut attributes = Vec::new();
    for _ in 0..l {
        attributes.push(rng.next_scalar());
    }
    attributes
}

/// Flips bits of the point's bytes until they decode as a different
/// valid point; compressed encodings make most single-bit flips
/// invalid, so several positions are tried.
fn mutate_point(p: &G1Elem) -> G1Elem {
    let base_bytes = p.to_bytes();
    for byte in 0..base_bytes.len() {
        for bit in 0..8 {
            let mut tweaked = base_bytes.clone();
            tweaked[byte] ^= 1u8 << bit;
            if let Some(q) = g1_check(&tweaked) {
                if !q.equals(p) {
                    return q;
                }
            }
        }
    }
    panic!("no single-bit mutation decoded as a different point");
}

#[test]
fn test_complete_credential_flow() {
    let mut rng = SeedRng::from_u64(51);

    let (ck, vk, ts_keys) = keygen(THRESHOLD, N_PARTICIPANTS, L_ATTRIBUTES, &mut rng);

    let signers: Vec<Signer> = ts_keys
        .sk_shares
        .iter()
        .zip(ts_keys.vk_shares.iter())
        .map(|(sk_share, vk_share)| Signer::new(&ck, sk_share, vk_share))
        .collect();

    let attributes = random_attributes(&mut rng, L_ATTRIBUTES);
    let (mut credential, credential_request) =
        UserProtocol::request_credential(ck.clone(), Some(&attributes), &mut rng)
            .expect("Failed to create credential request");

    let signature_shares = UserProtocol::collect_signature_shares(
        &signers,
        &credential_request,
        THRESHOLD,
        &mut rng,
    )
    .expect("Failed to collect signature shares");

    let verified_shares = UserProtocol::verify_signature_shares(
        &ck,
        &ts_keys.vk_shares,
        &credential_request,
        &signature_shares,
        THRESHOLD,
        &mut rng,
    )
    .expect("Failed to verify signature shares");

    let blindings = credential.get_blinding_factors().clone();
    let threshold_signature = UserProtocol::aggregate_shares(
        &ck,
        &verified_shares,
        &blindings,
        THRESHOLD,
        &credential_request.h,
    )
    .expect("Failed to aggregate signature shares");

    credential.attach_signature(threshold_signature);
    assert!(matches!(credential.state, CredentialState::Signed));

    let (randomized_sig, commitment, commitment_tilde, proof) =
        UserProtocol::show(&credential, &mut rng)
            .expect("Failed to generate credential presentation");

    let is_valid = VerifierProtocol::verify(
        &ck,
        &vk,
        &commitment,
        &commitment_tilde,
        &randomized_sig,
        &proof,
        &mut rng,
    )
    .expect("Verification failed");

    assert!(is_valid, "Credential verification should succeed");
}

/// Runs issuance with an explicit set of signer positions and returns
/// everything a presentation needs.
fn issue_with_signers(
    seed: u64,
    t: usize,
    n: usize,
    l: usize,
    signer_positions: &[usize],
) -> (
    t_siris::symmetric_commitment::SymmetricCommitmentKey,
    t_siris::keygen::VerificationKey,
    t_siris::credential::Credential,
    Result<ThresholdSignature, SignatureError>,
    SeedRng,
) {
    let mut rng = SeedRng::from_u64(seed);
    let (ck, vk, ts_keys) = keygen(t, n, l, &mut rng);
    let attributes = random_attributes(&mut rng, l);
    let (credential, request) =
        UserProtocol::request_credential(ck.clone(), Some(&attributes), &mut rng)
            .expect("request must succeed");

    let mut shares: Vec<(usize, PartialSignature)> = Vec::new();
    for &pos in signer_positions {
        let signer = Signer::new(&ck, &ts_keys.sk_shares[pos], &ts_keys.vk_shares[pos]);
        let share = IssuerProtocol::issue_share(
            &signer,
            &request.commitments,
            &request.proofs,
            &request.h,
            &mut rng,
        )
        .expect("share signing must succeed");
        shares.push((share.party_index, share));
    }

    let blindings = credential.get_blinding_factors().clone();
    let agg = UserProtocol::aggregate_shares(&ck, &shares, &blindings, t, &request.h);
    (ck, vk, credential, agg, rng)
}

#[test]
fn test_flow_with_seed_and_first_three_signers() {
    let (ck, vk, mut credential, agg, mut rng) =
        issue_with_signers(12345, 3, 5, 3, &[0, 1, 2]);
    let sig = agg.expect("aggregation with t shares succeeds");
    credential.attach_signature(sig);
    let (shown_sig, cm, cm_tilde, proof) =
        UserProtocol::show(&credential, &mut rng).expect("show succeeds");
    let ok = VerifierProtocol::verify(&ck, &vk, &cm, &cm_tilde, &shown_sig, &proof, &mut rng)
        .expect("verification runs");
    assert!(ok);
}

#[test]
fn test_flow_with_other_subset_and_threshold_tightness() {
    // signers {1, 2, 4} (positions 0, 1, 3) also make a valid credential
    let (ck, vk, mut credential, agg, mut rng) =
        issue_with_signers(12345, 3, 5, 3, &[0, 1, 3]);
    let sig = agg.expect("any t-subset aggregates");
    credential.attach_signature(sig);
    let (shown_sig, cm, cm_tilde, proof) =
        UserProtocol::show(&credential, &mut rng).expect("show succeeds");
    let ok = VerifierProtocol::verify(&ck, &vk, &cm, &cm_tilde, &shown_sig, &proof, &mut rng)
        .expect("verification runs");
    assert!(ok);

    // signers {1, 2} alone are one short
    let (_, _, _, agg_short, _) = issue_with_signers(12345, 3, 5, 3, &[0, 1]);
    assert!(matches!(
        agg_short,
        Err(SignatureError::InsufficientShares { needed: 3, got: 2 })
    ));
}

#[test]
fn test_duplicate_share_rejected() {
    let (_, _, _, agg, _) = issue_with_signers(777, 3, 5, 3, &[0, 1, 1]);
    assert!(matches!(agg, Err(SignatureError::DuplicateShare(_))));
}

#[test]
fn test_zero_threshold_rejected() {
    let mut rng = SeedRng::from_u64(778);
    let (ck, _, _) = keygen(2, 3, 2, &mut rng);
    let shares: Vec<(usize, PartialSignature)> = Vec::new();
    let blindings: Vec<Scalar> = Vec::new();
    let h = rng.next_g1();
    let r = UserProtocol::aggregate_shares(&ck, &shares, &blindings, 0, &h);
    assert!(matches!(r, Err(SignatureError::ThresholdNotMet)));
}

#[test]
fn test_large_flow_and_sigma_mutation_rejected() {
    let (ck, vk, mut credential, agg, mut rng) =
        issue_with_signers(999, 9, 16, 16, &[0, 1, 2, 3, 4, 5, 6, 7, 8]);
    let sig = agg.expect("aggregation succeeds");
    credential.attach_signature(sig);
    let (shown_sig, cm, cm_tilde, proof) =
        UserProtocol::show(&credential, &mut rng).expect("show succeeds");
    let ok = VerifierProtocol::verify(&ck, &vk, &cm, &cm_tilde, &shown_sig, &proof, &mut rng)
        .expect("verification runs");
    assert!(ok);

    // mutating the randomized signature makes verification fail
    let mutated = ThresholdSignature {
        h: shown_sig.h.clone(),
        sigma: mutate_point(&shown_sig.sigma),
    };
    let res = VerifierProtocol::verify(&ck, &vk, &cm, &cm_tilde, &mutated, &proof, &mut rng);
    assert!(matches!(res, Err(SignatureError::SignatureVerificationFailed)));

    // mutating the shown commitment breaks it too
    let mutated_cm = mutate_point(&cm);
    let res2 = VerifierProtocol::verify(
        &ck,
        &vk,
        &mutated_cm,
        &cm_tilde,
        &shown_sig,
        &proof,
        &mut rng,
    );
    assert!(res2.is_err());

    // corrupting the opening proof breaks it as well
    let mut bad_proof = proof.clone();
    let last = bad_proof.len() - 1;
    bad_proof[last] ^= 1;
    let res3 = VerifierProtocol::verify(
        &ck,
        &vk,
        &cm,
        &cm_tilde,
        &shown_sig,
        &bad_proof,
        &mut rng,
    );
    assert!(res3.is_err());
}

#[test]
fn test_two_shows_are_unlinkable() {
    let (ck, vk, mut credential, agg, mut rng) = issue_with_signers(555, 2, 4, 2, &[0, 1]);
    let sig = agg.expect("aggregation succeeds");
    credential.attach_signature(sig);
    let (sig1, cm1, cmt1, proof1) =
        UserProtocol::show(&credential, &mut rng).expect("first show");
    let (sig2, cm2, cmt2, proof2) =
        UserProtocol::show(&credential, &mut rng).expect("second show");
    assert!(!sig1.sigma.equals(&sig2.sigma));
    assert!(!cm1.equals(&cm2));
    // both remain valid
    let ok1 = VerifierProtocol::verify(&ck, &vk, &cm1, &cmt1, &sig1, &proof1, &mut rng)
        .expect("verification runs");
    let ok2 = VerifierProtocol::verify(&ck, &vk, &cm2, &cmt2, &sig2, &proof2, &mut rng)
        .expect("verification runs");
    assert!(ok1 && ok2);
}

#[test]
fn test_show_before_signing_is_refused() {
    let mut rng = SeedRng::from_u64(556);
    let (ck, _, _) = keygen(2, 3, 2, &mut rng);
    let attributes = random_attributes(&mut rng, 2);
    let (credential, _) = UserProtocol::request_credential(ck, Some(&attributes), &mut rng)
        .expect("request must succeed");
    let r = UserProtocol::show(&credential, &mut rng);
    assert!(matches!(
        r,
        Err(t_siris::errors::CredentialError::InvalidState(_))
    ));
}

#[test]
fn test_empty_attribute_vector_is_refused() {
    let mut rng = SeedRng::from_u64(557);
    let (ck, _, _) = keygen(2, 3, 2, &mut rng);
    let empty: Vec<Scalar> = Vec::new();
    let r = UserProtocol::request_credential(ck, Some(&empty), &mut rng);
    assert!(matches!(
        r,
        Err(t_siris::errors::CredentialError::ProofGenerationFailed(
            t_siris::errors::CommitmentError::InvalidComputeCommitment
        ))
    ));
}

#[test]
fn test_signed_state_without_signature_is_refused() {
    let mut rng = SeedRng::from_u64(558);
    let (ck, _, _) = keygen(2, 3, 2, &mut rng);
    let attributes = random_attributes(&mut rng, 2);
    let (mut credential, _) = UserProtocol::request_credential(ck, Some(&attributes), &mut rng)
        .expect("request must succeed");
    credential.state = CredentialState::Signed;
    let r = UserProtocol::show(&credential, &mut rng);
    assert!(matches!(
        r,
        Err(t_siris::errors::CredentialError::MissingSignature(_))
    ));
}

#[test]
fn test_unknown_signer_index_is_refused() {
    let mut rng = SeedRng::from_u64(559);
    let (ck, _, ts_keys) = keygen(2, 3, 2, &mut rng);
    let signers: Vec<Signer> = ts_keys
        .sk_shares
        .iter()
        .zip(ts_keys.vk_shares.iter())
        .map(|(sk_share, vk_share)| Signer::new(&ck, sk_share, vk_share))
        .collect();
    let attributes = random_attributes(&mut rng, 2);
    let (_, request) = UserProtocol::request_credential(ck.clone(), Some(&attributes), &mut rng)
        .expect("request must succeed");
    let mut shares =
        UserProtocol::collect_signature_shares(&signers, &request, 2, &mut rng).expect("collect");
    // claim a sender index nobody holds a verification share for
    shares[0].0 = 99;
    shares[0].1.party_index = 99;
    let r = UserProtocol::verify_signature_shares(
        &ck,
        &ts_keys.vk_shares,
        &request,
        &shares,
        2,
        &mut rng,
    );
    assert!(matches!(r, Err(SignatureError::InvalidState(_))));
}

#[test]
fn test_proof_for_other_presentation_is_refused() {
    let (ck, vk, mut credential, agg, mut rng) = issue_with_signers(560, 2, 4, 2, &[0, 1]);
    let sig = agg.expect("aggregation succeeds");
    credential.attach_signature(sig);
    let (sig1, cm1, cmt1, _proof1) =
        UserProtocol::show(&credential, &mut rng).expect("first show");
    let (_sig2, _cm2, _cmt2, proof2) =
        UserProtocol::show(&credential, &mut rng).expect("second show");
    // a well-formed proof for a different shown commitment is refused
    let r = VerifierProtocol::verify(&ck, &vk, &cm1, &cmt1, &sig1, &proof2, &mut rng);
    assert!(matches!(
        r,
        Err(SignatureError::CommitmentError(
            t_siris::errors::CommitmentError::ProofVerificationFailed
        ))
    ));
}

/// Same bit-flipping search on a G2 point.
fn mutate_point_g2(p: &t_siris::group::G2Elem) -> t_siris::group::G2Elem {
    let base_bytes = p.to_bytes();
    for byte in 0..base_bytes.len() {
        for bit in 0..8 {
            let mut tweaked = base_bytes.clone();
            tweaked[byte] ^= 1u8 << bit;
            if let Some(q) = t_siris::group::g2_check(&tweaked) {
                if !q.equals(p) {
                    return q;
                }
            }
        }
    }
    panic!("no single-bit mutation decoded as a different point");
}

#[test]
fn test_presentation_wire_round_trip_and_cm_tilde_mutation() {
    let (ck, vk, mut credential, agg, mut rng) = issue_with_signers(561, 2, 4, 2, &[0, 1]);
    let sig = agg.expect("aggregation succeeds");
    credential.attach_signature(sig);
    let (shown_sig, cm, cm_tilde, proof) =
        UserProtocol::show(&credential, &mut rng).expect("show succeeds");

    // the presentation survives its wire form unchanged
    let wire =
        t_siris::signature::serialize_presentation(&shown_sig, &cm, &cm_tilde, &proof);
    let (sig2, cm2, cmt2, proof2) =
        t_siris::signature::parse_presentation(&wire).expect("wire form parses");
    let wire2 = t_siris::signature::serialize_presentation(&sig2, &cm2, &cmt2, &proof2);
    assert_eq!(wire, wire2);
    let ok = VerifierProtocol::verify(&ck, &vk, &cm2, &cmt2, &sig2, &proof2, &mut rng)
        .expect("verification runs");
    assert!(ok);

    // truncated wire bytes are refused
    let mut short = wire.clone();
    short.truncate(wire.len() - 1);
    assert!(t_siris::signature::parse_presentation(&short).is_none());

    // mutating the G2 commitment makes verification fail
    let bad_cmt = mutate_point_g2(&cm_tilde);
    let res = VerifierProtocol::verify(&ck, &vk, &cm, &bad_cmt, &shown_sig, &proof, &mut rng);
    assert!(matches!(res, Err(SignatureError::SignatureVerificationFailed)));
}
