//! The user-side credential state machine: attributes are committed per
//! message with opening proofs, the aggregated signature is attached,
//! and showing randomizes the signature and the symmetric commitment by
//! the same blinding shift before proving the opening in zero knowledge.

use crate::commitment::{proof_wire, Commitment, CommitmentProof};
use crate::errors::{CommitmentError, CredentialError};
use crate::group::{
    g1_add_of, g1_msm_of, g1_mul_of, g1_views, g2_add_of, g2_mul_of, sc_views, G1Elem, G2Elem,
};
use crate::rng::SeedRng;
use crate::scalar::{copy_scalars, Scalar};
use crate::signature::ThresholdSignature;
use crate::symmetric_commitment::{key_eq, SymmetricCommitment, SymmetricCommitmentKey};
use vstd::prelude::*;

verus! {

/// Where a credential stands in its life cycle.
#[derive(PartialEq, Eq, Structural, Clone, Copy, Debug)]
pub enum CredentialState {
    Initialized,
    Committed,
    Signed,
    Randomized,
}

/// A credential request: the shared base, one commitment per attribute,
/// and one serialized opening proof per commitment.
pub struct CredentialCommitments {
    pub h: G1Elem,
    pub commitments: Vec<G1Elem>,
    pub proofs: Vec<Vec<u8>>,
}

/// Whether serialized bytes are an opening proof for the commitment
/// `cmv` under the base pair `(h, g)`.
pub open spec fn opening_proof_for(bytes: Seq<u8>, cmv: Seq<u8>, h: Seq<u8>, g: Seq<u8>) -> bool {
    exists|p: CommitmentProof|
        bytes == proof_wire(p) && p.commitment@ == cmv && g1_views(p.bases@) == seq![h, g]
}

/// The user's credential: attributes, their blindings, the shared base,
/// the symmetric commitment, and eventually the signature.
pub struct Credential {
    pub ck: SymmetricCommitmentKey,
    pub cm: SymmetricCommitment,
    pub messages: Vec<Scalar>,
    pub blindings: Vec<Scalar>,
    pub h: G1Elem,
    pub sig: Option<ThresholdSignature>,
    pub context: Scalar,
    pub state: CredentialState,
    pub metadata: Option<String>,
}

impl Credential {
    /// The attribute scalars this credential holds.
    pub open spec fn messages_view(self) -> Seq<Scalar> {
        self.messages@
    }

    /// The shared commitment base.
    pub open spec fn h_view(self) -> Seq<u8> {
        self.h@
    }

    /// The attached signature, if any.
    pub open spec fn sig_view(self) -> Option<ThresholdSignature> {
        self.sig
    }

    /// Builds a fresh credential: the given attributes (or random ones,
    /// one per key base), a random shared base, and the symmetric
    /// commitment to the attributes with blinding zero.
    pub fn new(
        ck: SymmetricCommitmentKey,
        messages: Option<&Vec<Scalar>>,
        rng: &mut SeedRng,
    ) -> (r: Credential)
        requires
            messages matches Some(m) ==> m@.len() <= ck.ck@.len() && m@.len()
                <= ck.ck_tilde@.len(),
            ck.ck@.len() <= ck.ck_tilde@.len(),
        ensures
            r.state == CredentialState::Initialized,
            r.sig_view() is None,
            key_eq(r.ck, ck),
            r.blindings@.len() == 0,
            messages matches Some(m) ==> sc_views(r.messages_view()) == sc_views(m@),
            messages is None ==> r.messages_view().len() == ck.ck@.len(),
            r.cm.cm@ == crate::symmetric_commitment::g1_commit_of(
                ck,
                r.messages_view(),
                r.cm.r,
            ) && r.cm.r.val() == 0,
    {
        let msgs: Vec<Scalar> = match messages {
            Some(m) => copy_scalars(m),
            None => {
                let mut v: Vec<Scalar> = Vec::new();
                while v.len() < ck.ck.len()
                    invariant
                        v@.len() <= ck.ck@.len(),
                    decreases ck.ck@.len() - v@.len(),
                {
                    v.push(rng.next_scalar());
                }
                v
            },
        };
        let h = rng.next_g1();
        let zero = Scalar::zero();
        let cm = SymmetricCommitment::new(&ck, &msgs, &zero);
        proof {
            match messages {
                Some(m) => {
                    assert(sc_views(msgs@) =~= sc_views(m@));
                },
                None => {},
            }
            assert(sc_views(cm.messages@) == sc_views(msgs@));
        }
        let context = rng.next_scalar();
        let r = Credential {
            ck,
            cm,
            messages: msgs,
            blindings: Vec::new(),
            h,
            sig: None,
            context,
            state: CredentialState::Initialized,
            metadata: None,
        };
        r
    }

    /// Replaces the attribute vector.
    pub fn set_attributes(&mut self, messages: Vec<Scalar>)
        ensures
            final(self).messages_view() == messages@,
            final(self).ck == old(self).ck,
            final(self).cm == old(self).cm,
            final(self).blindings == old(self).blindings,
            final(self).h_view() == old(self).h_view(),
            final(self).sig_view() == old(self).sig_view(),
            final(self).state == old(self).state,
    {
        self.messages = messages;
    }

    /// Rebuilds the symmetric commitment to the current attributes with
    /// blinding zero.
    pub fn set_symmetric_commitment(&mut self)
        requires
            old(self).messages_view().len() <= old(self).ck.ck@.len(),
            old(self).messages_view().len() <= old(self).ck.ck_tilde@.len(),
        ensures
            final(self).cm.cm@ == crate::symmetric_commitment::g1_commit_of(
                old(self).ck,
                old(self).messages_view(),
                final(self).cm.r,
            ) && final(self).cm.r.val() == 0,
            final(self).messages_view() == old(self).messages_view(),
            final(self).ck == old(self).ck,
            final(self).state == old(self).state,
            final(self).sig_view() == old(self).sig_view(),
            final(self).h_view() == old(self).h_view(),
    {
        let zero = Scalar::zero();
        let cm = SymmetricCommitment::new(&self.ck, &self.messages, &zero);
        self.cm = cm;
    }

    /// The attribute scalars.
    pub fn get_messages(&self) -> (r: &Vec<Scalar>)
        ensures
            r@ == self.messages_view(),
    {
        &self.messages
    }

    /// The per-attribute blindings drawn while committing.
    pub fn get_blinding_factors(&self) -> (r: &Vec<Scalar>)
        ensures
            r@ == self.blindings@,
    {
        &self.blindings
    }

    /// Commits to each attribute under the shared base: draws one
    /// blinding per message, forms `cm_k = m_k·h + r_k·g` with a
    /// serialized opening proof each, stores the blindings, and moves to
    /// the committed state. An empty attribute vector is refused.
    pub fn compute_commitments_per_m(&mut self, rng: &mut SeedRng) -> (r: Result<
        CredentialCommitments,
        CommitmentError,
    >)
        ensures
            (r is Ok) <==> old(self).messages_view().len() > 0,
            (old(self).messages_view().len() == 0) <==> (r matches Err(
                CommitmentError::InvalidComputeCommitment,
            )),
            r is Err ==> *final(self) == *old(self),
            r matches Ok(cc) ==> {
                &&& final(self).state == CredentialState::Committed
                &&& final(self).messages_view() == old(self).messages_view()
                &&& final(self).sig_view() == old(self).sig_view()
                &&& final(self).ck == old(self).ck
                &&& final(self).cm == old(self).cm
                &&& final(self).h_view() == old(self).h_view()
                &&& cc.h@ == old(self).h_view()
                &&& cc.commitments@.len() == old(self).messages_view().len()
                &&& cc.proofs@.len() == old(self).messages_view().len()
                &&& final(self).blindings@.len() == old(self).messages_view().len()
                &&& (forall|k: int|
                    0 <= k < cc.commitments@.len() ==> (#[trigger] cc.commitments@[k])@
                        == g1_msm_of(
                        seq![old(self).h_view(), old(self).ck.g@],
                        seq![
                            old(self).messages_view()[k]@,
                            final(self).blindings@[k]@,
                        ],
                    ))
                &&& (forall|k: int|
                    0 <= k < cc.proofs@.len() ==> opening_proof_for(
                        (#[trigger] cc.proofs@[k])@,
                        cc.commitments@[k]@,
                        old(self).h_view(),
                        old(self).ck.g@,
                    ))
            },
    {
        if self.messages.len() == 0 {
            return Err(CommitmentError::InvalidComputeCommitment);
        }
        let num_messages = self.messages.len();
        let mut blindings: Vec<Scalar> = Vec::new();
        while blindings.len() < num_messages
            invariant
                blindings@.len() <= num_messages,
            decreases num_messages - blindings@.len(),
        {
            blindings.push(rng.next_scalar());
        }
        let mut commitments: Vec<G1Elem> = Vec::new();
        let mut commitment_proofs: Vec<Vec<u8>> = Vec::new();
        let mut i: usize = 0;
        while i < num_messages
            invariant
                i <= num_messages,
                num_messages == self.messages@.len(),
                blindings@.len() == num_messages,
                commitments@.len() == i,
                commitment_proofs@.len() == i,
                forall|k: int|
                    0 <= k < i ==> (#[trigger] commitments@[k])@ == g1_msm_of(
                        seq![self.h@, self.ck.g@],
                        seq![self.messages@[k]@, blindings@[k]@],
                    ),
                forall|k: int|
                    0 <= k < i ==> opening_proof_for(
                        (#[trigger] commitment_proofs@[k])@,
                        commitments@[k]@,
                        self.h@,
                        self.ck.g@,
                    ),
            decreases num_messages - i,
        {
            let m = &self.messages[i];
            let b = &blindings[i];
            let bc = b.clone();
            proof {
                use_type_invariant(b);
                use_type_invariant(&bc);
            }
            let current = Commitment::new(&self.h, &self.ck.g, m, Some(bc), rng);
            let cm_i = current.cm.clone();
            proof {
                assert(g1_views(current.bases@) =~= seq![self.h@, self.ck.g@]);
                assert(sc_views(current.exponents@) =~= seq![self.messages@[i as int]@, blindings@[i as int]@]);
            }
            let proof_bytes = match current.prove(rng) {
                Ok(pb) => pb,
                Err(e) => { return Err(e); },
            };
            proof {
                assert(opening_proof_for(proof_bytes@, cm_i@, self.h@, self.ck.g@)) by {
                    let p = choose|p: CommitmentProof|
                        proof_bytes@ == proof_wire(p) && p.commitment@ == cm_i@ && g1_views(
                            p.bases@,
                        ) == seq![self.h@, self.ck.g@];
                    assert(proof_bytes@ == proof_wire(p));
                }
            }
            commitments.push(cm_i);
            commitment_proofs.push(proof_bytes);
            i += 1;
        }
        self.blindings = blindings;
        self.state = CredentialState::Committed;
        Ok(CredentialCommitments { h: self.h.clone(), commitments, proofs: commitment_proofs })
    }

    /// The earlier per-message path: a fresh blinding is drawn inside
    /// each commitment and appended to the stored blindings.
    pub fn compute_commitments_per_m_old(&mut self, rng: &mut SeedRng) -> (r: Result<
        CredentialCommitments,
        CommitmentError,
    >)
        ensures
            (r is Ok) <==> old(self).messages_view().len() > 0,
            (old(self).messages_view().len() == 0) <==> (r matches Err(
                CommitmentError::InvalidComputeCommitment,
            )),
            r is Err ==> *final(self) == *old(self),
            r matches Ok(cc) ==> {
                &&& final(self).state == CredentialState::Committed
                &&& final(self).messages_view() == old(self).messages_view()
                &&& cc.h@ == old(self).h_view()
                &&& cc.commitments@.len() == old(self).messages_view().len()
                &&& cc.proofs@.len() == old(self).messages_view().len()
                &&& final(self).blindings@.len() == old(self).blindings@.len() + old(
                    self,
                ).messages_view().len()
                &&& (forall|k: int|
                    0 <= k < cc.commitments@.len() ==> (#[trigger] cc.commitments@[k])@
                        == g1_msm_of(
                        seq![old(self).h_view(), old(self).ck.g@],
                        seq![
                            old(self).messages_view()[k]@,
                            final(self).blindings@[old(self).blindings@.len() + k]@,
                        ],
                    ))
                &&& (forall|k: int|
                    0 <= k < cc.proofs@.len() ==> opening_proof_for(
                        (#[trigger] cc.proofs@[k])@,
                        cc.commitments@[k]@,
                        old(self).h_view(),
                        old(self).ck.g@,
                    ))
            },
    {
        if self.messages.len() == 0 {
            return Err(CommitmentError::InvalidComputeCommitment);
        }
        let num_messages = self.messages.len();
        let mut commitments: Vec<G1Elem> = Vec::new();
        let mut commitment_proofs: Vec<Vec<u8>> = Vec::new();
        let ghost blind_base = self.blindings@.len();
        let mut i: usize = 0;
        while i < num_messages
            invariant
                i <= num_messages,
                num_messages == self.messages@.len(),
                self.messages@ == old(self).messages_view(),
                self.h@ == old(self).h_view(),
                self.ck == old(self).ck,
                self.cm == old(self).cm,
                self.sig == old(self).sig_view(),
                self.context == old(self).context,
                self.metadata == old(self).metadata,
                self.state == old(self).state,
                blind_base == old(self).blindings@.len(),
                self.blindings@.len() == blind_base + i,
                commitments@.len() == i,
                commitment_proofs@.len() == i,
                forall|k: int|
                    0 <= k < i ==> (#[trigger] commitments@[k])@ == g1_msm_of(
                        seq![self.h@, self.ck.g@],
                        seq![self.messages@[k]@, self.blindings@[blind_base + k]@],
                    ),
                forall|k: int|
                    0 <= k < i ==> opening_proof_for(
                        (#[trigger] commitment_proofs@[k])@,
                        commitments@[k]@,
                        self.h@,
                        self.ck.g@,
                    ),
            decreases num_messages - i,
        {
            let m = &self.messages[i];
            let current = Commitment::new(&self.h, &self.ck.g, m, None, rng);
            let cm_i = current.cm.clone();
            let r_ref = &current.exponents[1];
            let r_i = r_ref.clone();
            proof {
                use_type_invariant(r_ref);
            }
            proof {
                assert(g1_views(current.bases@) =~= seq![self.h@, self.ck.g@]);
                assert(sc_views(current.exponents@) =~= seq![
                    self.messages@[i as int]@,
                    r_i@,
                ]);
            }
            self.blindings.push(r_i);
            let proof_bytes = match current.prove(rng) {
                Ok(pb) => pb,
                Err(e) => { return Err(e); },
            };
            proof {
                assert(opening_proof_for(proof_bytes@, cm_i@, self.h@, self.ck.g@)) by {
                    let p = choose|p: CommitmentProof|
                        proof_bytes@ == proof_wire(p) && p.commitment@ == cm_i@ && g1_views(
                            p.bases@,
                        ) == seq![self.h@, self.ck.g@];
                    assert(proof_bytes@ == proof_wire(p));
                }
            }
            commitments.push(cm_i);
            commitment_proofs.push(proof_bytes);
            i += 1;
        }
        self.state = CredentialState::Committed;
        Ok(CredentialCommitments { h: self.h.clone(), commitments, proofs: commitment_proofs })
    }

    /// Attaches the aggregated signature and moves to the signed state.
    pub fn attach_signature(&mut self, sig: ThresholdSignature)
        ensures
            final(self).state == CredentialState::Signed,
            final(self).sig_view() matches Some(s) && s.h@ == sig.h@ && s.sigma@ == sig.sigma@,
            final(self).messages_view() == old(self).messages_view(),
            final(self).ck == old(self).ck,
            final(self).cm == old(self).cm,
            final(self).blindings == old(self).blindings,
            final(self).h_view() == old(self).h_view(),
    {
        self.state = CredentialState::Signed;
        self.sig = Some(sig);
    }

    /// Shows the credential: the signature is rerandomized by `(u, r')`
    /// and the symmetric commitment is shifted by the same `r'`, so the
    /// verification identity carries over; an opening proof for the
    /// shifted commitment completes the presentation. Only a signed
    /// credential with a full attribute vector can be shown.
    pub fn show(&self, rng: &mut SeedRng) -> (r: Result<
        (ThresholdSignature, G1Elem, G2Elem, Vec<u8>),
        CredentialError,
    >)
        ensures
            (r matches Err(CredentialError::InvalidState(_))) <==> self.state
                != CredentialState::Signed,
            (r matches Err(CredentialError::MissingSignature(_))) <==> (self.state
                == CredentialState::Signed && self.sig_view() is None),
            (r matches Err(CredentialError::ProofGenerationFailed(_))) <==> (self.state
                == CredentialState::Signed && self.sig_view() is Some && self.cm.messages@.len()
                != self.cm.ck.ck@.len()),
            (self.state == CredentialState::Signed && self.sig_view() is Some
                && self.cm.messages@.len() == self.cm.ck.ck@.len()) ==> r is Ok,
            r matches Ok(out) ==> {
                &&& self.state == CredentialState::Signed
                &&& self.sig_view() matches Some(s) && exists|u: Scalar, rd: Scalar|
                    {
                        &&& out.0.h@ == g1_mul_of(s.h@, u@)
                        &&& out.0.sigma@ == g1_mul_of(
                            g1_add_of(g1_mul_of(s.h@, rd@), s.sigma@),
                            u@,
                        )
                        &&& out.1@ == g1_add_of(self.cm.cm@, g1_mul_of(self.cm.ck.g@, rd@))
                        &&& out.2@ == g2_add_of(
                            self.cm.cm_tilde@,
                            g2_mul_of(self.cm.ck.g_tilde@, rd@),
                        )
                    }
                &&& exists|p: CommitmentProof| out.3@ == proof_wire(p) && p.commitment@ == out.1@
            },
    {
        if !matches!(self.state, CredentialState::Signed) {
            return Err(CredentialError::InvalidState(
                "credential must be signed before showing".to_string(),
            ));
        }
        let sig = match &self.sig {
            Some(s) => s,
            None => {
                return Err(CredentialError::MissingSignature(
                    "signed credential carries no signature".to_string(),
                ));
            },
        };
        if self.cm.messages.len() != self.cm.ck.ck.len() {
            return Err(CredentialError::ProofGenerationFailed(CommitmentError::InvalidCommitment));
        }
        let (randomized_sig, r_delta) = sig.randomize(rng);
        let rand_sym_cm = self.cm.randomize(&r_delta);
        let shown_cm = rand_sym_cm.cm.clone();
        let shown_cm_tilde = rand_sym_cm.cm_tilde.clone();
        let ghost shown_view = rand_sym_cm.cm@;
        let proof_bytes = match rand_sym_cm.prove(rng) {
            Ok(pb) => pb,
            Err(e) => { return Err(CredentialError::ProofGenerationFailed(e)); },
        };
        let out = (randomized_sig, shown_cm, shown_cm_tilde, proof_bytes);
        proof {
            let p = choose|p: CommitmentProof|
                out.3@ == proof_wire(p) && p.commitment@ == shown_view && g1_views(p.bases@)
                    == g1_views(rand_sym_cm.ck.ck@).push(rand_sym_cm.ck.g@);
            assert(out.3@ == proof_wire(p) && p.commitment@ == out.1@);
            let u0 = choose|u: Scalar|
                out.0.h@ == g1_mul_of(sig.h@, u@) && out.0.sigma@ == g1_mul_of(
                    g1_add_of(g1_mul_of(sig.h@, r_delta@), sig.sigma@),
                    u@,
                );
            assert(out.0.h@ == g1_mul_of(sig.h@, u0@) && out.0.sigma@ == g1_mul_of(
                g1_add_of(g1_mul_of(sig.h@, r_delta@), sig.sigma@),
                u0@,
            ) && out.1@ == g1_add_of(self.cm.cm@, g1_mul_of(self.cm.ck.g@, r_delta@)) && out.2@
                == g2_add_of(self.cm.cm_tilde@, g2_mul_of(self.cm.ck.g_tilde@, r_delta@)));
        }
        Ok(out)
    }

    /// Tags the credential with caller metadata.
    pub fn with_metadata(self, metadata: String) -> (r: Self)
        ensures
            r.metadata matches Some(m) && m@ == metadata@,
            r.messages_view() == self.messages_view(),
            r.state == self.state,
            r.sig_view() == self.sig_view(),
    {
        Credential { metadata: Some(metadata), ..self }
    }
}

} // verus!
