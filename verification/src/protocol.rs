//! The protocol façade: thin issuer, user and verifier entry points
//! over key generation, share signing, share verification, aggregation,
//! showing, and presentation verification. Each contract forwards the
//! exact statement of the operation it delegates to.

use crate::commitment::{proof_wire_ok, wire_counts_match};
use crate::credential::{Credential, CredentialCommitments};
use crate::errors::{CommitmentError, CredentialError, SignatureError};
use crate::group::{sc_views, G1Elem, G2Elem};
use crate::keygen::{keygen, keygen_rel, ThresholdKeys, VerificationKey, VerificationKeyShare};
use crate::rng::SeedRng;
use crate::scalar::Scalar;
use crate::schnorr_batch::{batch_inputs_ok, batch_outcome};
use crate::signature::{aggregated_sigma, has_duplicate, PartialSignature, ThresholdSignature};
use crate::signer::Signer;
use crate::symmetric_commitment::SymmetricCommitmentKey;
use crate::user::{kept_in_order, kept_share_ok, User};
use vstd::prelude::*;

verus! {

pub struct IssuerProtocol;

pub struct UserProtocol;

pub struct VerifierProtocol;

impl IssuerProtocol {
    /// Generates the system parameters and all key shares.
    pub fn setup(
        threshold: usize,
        num_signers: usize,
        num_attributes: usize,
        rng: &mut SeedRng,
    ) -> (out: (SymmetricCommitmentKey, VerificationKey, ThresholdKeys))
        requires
            1 <= threshold <= num_signers,
            num_attributes >= 1,
        ensures
            out.2.t == threshold && out.2.n == num_signers && out.2.l == num_attributes,
            exists|xpoly: Seq<nat>, ypolys: Seq<Seq<nat>>|
                keygen_rel(
                    out.0,
                    out.1,
                    out.2,
                    threshold as nat,
                    num_signers as nat,
                    num_attributes as nat,
                    xpoly,
                    ypolys,
                ),
    {
        keygen(threshold, num_signers, num_attributes, rng)
    }

    /// One issuer signs a credential request: the signer's exact
    /// contract is forwarded, parse and count errors included.
    pub fn issue_share(
        signer: &Signer,
        commitments: &Vec<G1Elem>,
        commitment_proofs: &Vec<Vec<u8>>,
        h: &G1Elem,
        rng: &mut SeedRng,
    ) -> (r: Result<PartialSignature, SignatureError>)
        ensures
            (r matches Err(SignatureError::CommitmentError(CommitmentError::SerializationError)))
                <==> exists|i: int|
                0 <= i < commitment_proofs@.len() && !proof_wire_ok(
                    (#[trigger] commitment_proofs@[i])@,
                ),
            (r matches Err(SignatureError::CommitmentError(CommitmentError::InvalidProof))) <==> ((
            forall|i: int|
                0 <= i < commitment_proofs@.len() ==> proof_wire_ok(
                    (#[trigger] commitment_proofs@[i])@,
                )) && exists|i: int|
                0 <= i < commitment_proofs@.len() && !wire_counts_match(
                    (#[trigger] commitment_proofs@[i])@,
                )),
            batch_inputs_ok(commitment_proofs@) ==> exists|v: bool|
                {
                    &&& #[trigger] batch_outcome(commitment_proofs@, v)
                    &&& (v ==> (r matches Ok(ps) && signer.signed_share_ok(
                        commitments@,
                        *h,
                        ps,
                    )))
                    &&& (!v ==> r matches Err(
                        SignatureError::CommitmentError(CommitmentError::BatchVerifyError),
                    ))
                },
            r matches Ok(ps) ==> batch_outcome(commitment_proofs@, true)
                && signer.signed_share_ok(commitments@, *h, ps),
    {
        signer.sign_share(commitments, commitment_proofs, h, rng)
    }
}

impl UserProtocol {
    /// Creates a credential and its per-attribute commitment request;
    /// succeeds exactly when there is at least one attribute to commit.
    pub fn request_credential(
        commitment_key: SymmetricCommitmentKey,
        attributes: Option<&Vec<Scalar>>,
        rng: &mut SeedRng,
    ) -> (r: Result<(Credential, CredentialCommitments), CredentialError>)
        requires
            attributes matches Some(m) ==> m@.len() <= commitment_key.ck@.len() && m@.len()
                <= commitment_key.ck_tilde@.len(),
            commitment_key.ck@.len() <= commitment_key.ck_tilde@.len(),
        ensures
            (r is Ok) <==> (match attributes {
                Some(m) => m@.len() > 0,
                None => commitment_key.ck@.len() > 0,
            }),
            r is Err ==> r matches Err(CredentialError::ProofGenerationFailed(
                CommitmentError::InvalidComputeCommitment,
            )),
            r matches Ok(out) ==> {
                &&& out.0.state == crate::credential::CredentialState::Committed
                &&& out.1.h@ == out.0.h_view()
                &&& out.1.commitments@.len() == out.0.messages_view().len()
                &&& out.1.proofs@.len() == out.0.messages_view().len()
                &&& out.0.blindings@.len() == out.0.messages_view().len()
                &&& (attributes matches Some(m) ==> sc_views(out.0.messages_view()) == sc_views(
                    m@,
                ))
                &&& (forall|k: int|
                    0 <= k < out.1.proofs@.len() ==> crate::credential::opening_proof_for(
                        (#[trigger] out.1.proofs@[k])@,
                        out.1.commitments@[k]@,
                        out.0.h_view(),
                        out.0.ck.g@,
                    ))
            },
    {
        let mut credential = Credential::new(commitment_key, attributes, rng);
        proof {
            match attributes {
                Some(m) => {
                    assert(credential.messages_view().len() == m@.len()) by {
                        assert(sc_views(credential.messages_view()).len() == sc_views(m@).len());
                    }
                },
                None => {},
            }
        }
        let commitments = match credential.compute_commitments_per_m(rng) {
            Ok(cc) => cc,
            Err(e) => {
                match e {
                    CommitmentError::InvalidComputeCommitment => {
                        return Err(CredentialError::ProofGenerationFailed(
                            CommitmentError::InvalidComputeCommitment,
                        ));
                    },
                    _ => {
                        proof {
                            assert(false);
                        }
                        return Err(CredentialError::ProofGenerationFailed(
                            CommitmentError::InvalidComputeCommitment,
                        ));
                    },
                }
            },
        };
        Ok((credential, commitments))
    }

    /// Collects partial signatures from the first `threshold` signers,
    /// one after the other; too few signers — and only that — is the
    /// insufficient-shares error, and with parseable proofs every other
    /// outcome is either the full share list or a signer's batch error.
    pub fn collect_signature_shares(
        signers: &Vec<Signer>,
        credential_request: &CredentialCommitments,
        threshold: usize,
        rng: &mut SeedRng,
    ) -> (r: Result<Vec<(usize, PartialSignature)>, SignatureError>)
        ensures
            (signers@.len() < threshold) <==> (r matches Err(
                SignatureError::InsufficientShares { needed, got },
            ) && needed == threshold && got == signers@.len()),
            r matches Err(SignatureError::CommitmentError(CommitmentError::SerializationError))
                ==> exists|i: int|
                0 <= i < credential_request.proofs@.len() && !proof_wire_ok(
                    (#[trigger] credential_request.proofs@[i])@,
                ),
            r matches Err(SignatureError::CommitmentError(CommitmentError::InvalidProof))
                ==> exists|i: int|
                0 <= i < credential_request.proofs@.len() && !wire_counts_match(
                    (#[trigger] credential_request.proofs@[i])@,
                ),
            r matches Err(SignatureError::CommitmentError(CommitmentError::BatchVerifyError))
                ==> batch_outcome(credential_request.proofs@, false),
            (signers@.len() >= threshold && batch_inputs_ok(credential_request.proofs@)) ==> (r
                is Ok || r matches Err(SignatureError::CommitmentError(
                CommitmentError::BatchVerifyError,
            ))),
            r matches Ok(v) ==> {
                &&& v@.len() == threshold
                &&& threshold <= signers@.len()
                &&& (forall|q: int|
                    0 <= q < v@.len() ==> (#[trigger] v@[q]).0 == signers@[q].sk_share.index
                        && signers@[q].signed_share_ok(
                        credential_request.commitments@,
                        credential_request.h,
                        v@[q].1,
                    ))
            },
    {
        if signers.len() < threshold {
            return Err(SignatureError::InsufficientShares {
                needed: threshold,
                got: signers.len(),
            });
        }
        let mut shares: Vec<(usize, PartialSignature)> = Vec::new();
        let mut i: usize = 0;
        while i < threshold
            invariant
                i <= threshold,
                threshold <= signers@.len(),
                shares@.len() == i,
                forall|q: int|
                    0 <= q < i ==> (#[trigger] shares@[q]).0 == signers@[q].sk_share.index
                        && signers@[q].signed_share_ok(
                        credential_request.commitments@,
                        credential_request.h,
                        shares@[q].1,
                    ),
            decreases threshold - i,
        {
            let sig_share = match signers[i].sign_share(
                &credential_request.commitments,
                &credential_request.proofs,
                &credential_request.h,
                rng,
            ) {
                Ok(s) => s,
                Err(e) => { return Err(e); },
            };
            shares.push((sig_share.party_index, sig_share));
            i += 1;
        }
        Ok(shares)
    }

    /// Verifies received shares and keeps, in input order, exactly the
    /// ones whose checks reported true.
    pub fn verify_signature_shares(
        commitment_key: &SymmetricCommitmentKey,
        vk_shares: &Vec<VerificationKeyShare>,
        credential_request: &CredentialCommitments,
        signature_shares: &Vec<(usize, PartialSignature)>,
        threshold: usize,
        rng: &mut SeedRng,
    ) -> (r: Result<Vec<(usize, PartialSignature)>, SignatureError>)
        ensures
            r matches Ok(kept) ==> {
                &&& kept@.len() >= threshold
                &&& exists|srcs: Seq<int>| kept_in_order(signature_shares@, kept@, srcs)
                &&& (forall|q: int|
                    0 <= q < kept@.len() ==> kept_share_ok(
                        *commitment_key,
                        vk_shares@,
                        credential_request.commitments@,
                        #[trigger] kept@[q],
                    ))
            },
            r matches Err(SignatureError::InvalidState(_)) ==> crate::user::some_sender_unknown(
                signature_shares@,
                vk_shares@,
            ),
            r matches Err(SignatureError::InsufficientShares { needed, got }) ==> needed
                == threshold && got < threshold,
            r matches Err(SignatureError::CommitmentError(CommitmentError::BatchVerifyError))
                ==> batch_outcome(credential_request.proofs@, false),
    {
        let r = User::process_signature_shares(
            commitment_key,
            vk_shares,
            &credential_request.commitments,
            &credential_request.proofs,
            signature_shares,
            threshold,
            rng,
        );
        r
    }

    /// Aggregates verified shares into the threshold signature.
    pub fn aggregate_shares(
        commitment_key: &SymmetricCommitmentKey,
        shares: &Vec<(usize, PartialSignature)>,
        blindings: &Vec<Scalar>,
        threshold: usize,
        h: &G1Elem,
    ) -> (r: Result<ThresholdSignature, SignatureError>)
        ensures
            (threshold == 0) <==> (r matches Err(SignatureError::ThresholdNotMet)),
            (threshold >= 1 && shares@.len() < threshold) <==> (r matches Err(
                SignatureError::InsufficientShares { needed: n2, got: g2 },
            ) && n2 == threshold && g2 == shares@.len()),
            r matches Ok(sig) ==> {
                &&& sig.h@ == h@
                &&& sig.sigma@ == aggregated_sigma(
                    shares@,
                    threshold as int,
                    crate::group::g1_views(commitment_key.ck@),
                    blindings@,
                    vstd::math::min(commitment_key.ck@.len() as int, blindings@.len() as int),
                )
            },
            (threshold >= 1 && shares@.len() >= threshold && !has_duplicate(
                crate::signature::agg_idx_vals(shares@, threshold as int),
            )) ==> (r is Ok),
    {
        ThresholdSignature::aggregate_signature_shares(
            commitment_key,
            shares,
            blindings,
            threshold,
            h,
        )
    }

    /// Shows a signed credential without revealing its attributes; the
    /// state errors are exact, and a signed, full-width credential is
    /// always shown.
    pub fn show(credential: &Credential, rng: &mut SeedRng) -> (r: Result<
        (ThresholdSignature, G1Elem, G2Elem, Vec<u8>),
        CredentialError,
    >)
        ensures
            (r matches Err(CredentialError::InvalidState(_))) <==> credential.state
                != crate::credential::CredentialState::Signed,
            (r matches Err(CredentialError::MissingSignature(_))) <==> (credential.state
                == crate::credential::CredentialState::Signed && credential.sig_view() is None),
            (credential.state == crate::credential::CredentialState::Signed
                && credential.sig_view() is Some && credential.cm.messages@.len()
                == credential.cm.ck.ck@.len()) ==> r is Ok,
            r matches Ok(out) ==> exists|p: crate::commitment::CommitmentProof|
                out.3@ == crate::commitment::proof_wire(p) && p.commitment@ == out.1@,
    {
        credential.show(rng)
    }
}

impl VerifierProtocol {
    /// Verifies a credential presentation: opening proof first — its
    /// parse and equation errors exact over the wire windows — then the
    /// two pairing checks folded into one final exponentiation.
    pub fn verify(
        commitment_key: &SymmetricCommitmentKey,
        verification_key: &VerificationKey,
        commitment: &G1Elem,
        commitment_tilde: &G2Elem,
        signature: &ThresholdSignature,
        proof: &Vec<u8>,
        rng: &mut SeedRng,
    ) -> (r: Result<bool, SignatureError>)
        ensures
            (r matches Err(SignatureError::CommitmentError(CommitmentError::SerializationError)))
                <==> !proof_wire_ok(proof@),
            (r matches Err(SignatureError::CommitmentError(
                CommitmentError::ProofVerificationFailed,
            ))) <==> (proof_wire_ok(proof@) && !(crate::commitment::wire_equation(proof@)
                && crate::commitment::wire_statement(proof@) == commitment@)),
            r matches Ok(v) ==> v == true,
            r matches Ok(v) ==> proof_wire_ok(proof@) && crate::commitment::wire_equation(proof@)
                && crate::commitment::wire_statement(proof@) == commitment@,
            r matches Ok(v) ==> exists|a1: Scalar, a2: Scalar|
                a1.val() != 0 && a2.val() != 0 && crate::signature::presentation_pass(
                    commitment_key.g@,
                    commitment_key.g_tilde@,
                    verification_key.g_tilde_x@,
                    commitment@,
                    commitment_tilde@,
                    signature.h@,
                    signature.sigma@,
                    a1,
                    a2,
                ),
            r matches Err(SignatureError::SignatureVerificationFailed) ==> exists|
                a1: Scalar,
                a2: Scalar,
            |
                a1.val() != 0 && a2.val() != 0 && !crate::signature::presentation_pass(
                    commitment_key.g@,
                    commitment_key.g_tilde@,
                    verification_key.g_tilde_x@,
                    commitment@,
                    commitment_tilde@,
                    signature.h@,
                    signature.sigma@,
                    a1,
                    a2,
                ),
            (proof_wire_ok(proof@) && crate::commitment::wire_equation(proof@)
                && crate::commitment::wire_statement(proof@) == commitment@) ==> (r is Ok
                || r matches Err(SignatureError::SignatureVerificationFailed)),
    {
        ThresholdSignature::verify(
            commitment_key,
            verification_key,
            commitment,
            commitment_tilde,
            signature,
            proof,
            rng,
        )
    }
}

} // verus!
