//! A signer in the threshold scheme: it holds the commitment key and
//! its own key shares, verifies the opening proofs of a request in one
//! batch, and returns its partial signature
//! `σ_i = [x]_i·h + Σ_k [y_k]_i·cm_k`.

use crate::commitment::{proof_wire_ok, wire_counts_match};
use crate::errors::{CommitmentError, SignatureError};
use crate::group::{g1_msm, g1_msm_of, g1_views, sc_views, G1Elem};
use crate::keygen::{SecretKeyShare, VerificationKeyShare};
use crate::rng::SeedRng;
use crate::schnorr_batch::{batch_inputs_ok, batch_outcome, batch_verify};
use crate::signature::PartialSignature;
use crate::symmetric_commitment::{key_eq, SymmetricCommitmentKey};
use vstd::prelude::*;

verus! {

/// What a partial signature is over: the shared base followed by the
/// commitments, against the signer's share of `x` followed by its
/// shares of the `y_k`.
pub open spec fn partial_sigma_of(
    h: Seq<u8>,
    x_share: Seq<u8>,
    cms: Seq<Seq<u8>>,
    ys: Seq<Seq<u8>>,
    m: int,
) -> Seq<u8> {
    g1_msm_of(seq![h] + cms.take(m), seq![x_share] + ys.take(m))
}

/// A signer: the public commitment key and this party's key shares.
pub struct Signer {
    pub ck: SymmetricCommitmentKey,
    pub sk_share: SecretKeyShare,
    pub vk_share: VerificationKeyShare,
}

impl Signer {
    /// Builds a signer from its key material.
    pub fn new(
        ck: &SymmetricCommitmentKey,
        sk_share: &SecretKeyShare,
        vk_share: &VerificationKeyShare,
    ) -> (r: Signer)
        ensures
            key_eq(r.ck, *ck),
            r.sk_share.index == sk_share.index,
            r.sk_share.x_share@ == sk_share.x_share@,
            sc_views(r.sk_share.y_shares@) == sc_views(sk_share.y_shares@),
            r.sk_share.y_shares@.len() == sk_share.y_shares@.len(),
            r.vk_share.index == vk_share.index,
    {
        Signer { ck: ck.clone(), sk_share: sk_share.clone(), vk_share: vk_share.clone() }
    }

    /// What a partial signature from this signer over the given request
    /// holds: this signer's index, the shared base, and the exact
    /// multi-scalar product against its key shares.
    pub open spec fn signed_share_ok(
        &self,
        commitments: Seq<G1Elem>,
        h: G1Elem,
        ps: PartialSignature,
    ) -> bool {
        &&& ps.party_index == self.sk_share.index
        &&& ps.h@ == h@
        &&& ps.sigma@ == partial_sigma_of(
            h@,
            self.sk_share.x_share@,
            g1_views(commitments),
            sc_views(self.sk_share.y_shares@),
            vstd::math::min(commitments.len() as int, self.sk_share.y_shares@.len() as int),
        )
    }

    /// Verifies the request's opening proofs as one batch, then signs:
    /// the partial signature is the multi-scalar product of the shared
    /// base and the commitments against this signer's shares. The parse
    /// and count errors are exact; on parseable proofs the batch's
    /// verdict decides between the exact signature and the batch error.
    pub fn sign_share(
        &self,
        commitments: &Vec<G1Elem>,
        commitment_proofs: &Vec<Vec<u8>>,
        h: &G1Elem,
        rng: &mut SeedRng,
    ) -> (r: Result<PartialSignature, SignatureError>)
        ensures
            (r matches Err(SignatureError::CommitmentError(CommitmentError::SerializationError)))
                <==> exists|i: int|
                0 <= i < commitment_proofs@.len() && !proof_wire_ok(
                    (#[trigger] commitment_proofs@[i])@,
                ),
            (r matches Err(SignatureError::CommitmentError(CommitmentError::InvalidProof))) <==> ((
            forall|i: int|
                0 <= i < commitment_proofs@.len() ==> proof_wire_ok(
                    (#[trigger] commitment_proofs@[i])@,
                )) && exists|i: int|
                0 <= i < commitment_proofs@.len() && !wire_counts_match(
                    (#[trigger] commitment_proofs@[i])@,
                )),
            batch_inputs_ok(commitment_proofs@) ==> exists|v: bool|
                {
                    &&& #[trigger] batch_outcome(commitment_proofs@, v)
                    &&& (v ==> (r matches Ok(ps) && self.signed_share_ok(commitments@, *h, ps)))
                    &&& (!v ==> r matches Err(
                        SignatureError::CommitmentError(CommitmentError::BatchVerifyError),
                    ))
                },
            r matches Ok(ps) ==> batch_outcome(commitment_proofs@, true) && self.signed_share_ok(
                commitments@,
                *h,
                ps,
            ),
            r is Err ==> (r matches Err(SignatureError::CommitmentError(
                CommitmentError::SerializationError,
            )) || r matches Err(SignatureError::CommitmentError(CommitmentError::InvalidProof))
                || r matches Err(SignatureError::CommitmentError(
                CommitmentError::BatchVerifyError,
            ))),
    {
        let valid = match batch_verify(commitment_proofs, rng) {
            Ok(v) => v,
            Err(e) => { return Err(SignatureError::CommitmentError(e)); },
        };
        if !valid {
            return Err(SignatureError::CommitmentError(CommitmentError::BatchVerifyError));
        }
        let ps = self.sign_share_no_zkp_verify(commitments, commitment_proofs, h, rng);
        match ps {
            Ok(p) => Ok(p),
            Err(e) => Err(e),
        }
    }

    /// Signs without checking the opening proofs. Reserved for
    /// measurement and adversarial testing; production callers must
    /// verify openings first.
    pub fn sign_share_no_zkp_verify(
        &self,
        commitments: &Vec<G1Elem>,
        commitment_proofs: &Vec<Vec<u8>>,
        h: &G1Elem,
        rng: &mut SeedRng,
    ) -> (r: Result<PartialSignature, SignatureError>)
        ensures
            r matches Ok(ps) ==> self.signed_share_ok(commitments@, *h, ps),
            r is Ok,
    {
        let _ = commitment_proofs;
        let _ = rng;
        let m = if commitments.len() < self.sk_share.y_shares.len() {
            commitments.len()
        } else {
            self.sk_share.y_shares.len()
        };
        let mut bases: Vec<G1Elem> = Vec::new();
        bases.push(h.clone());
        let mut scalars: Vec<crate::scalar::Scalar> = Vec::new();
        let x = self.sk_share.x_share.clone();
        proof {
            use_type_invariant(&self.sk_share.x_share);
            use_type_invariant(&x);
        }
        scalars.push(x);
        let mut k: usize = 0;
        while k < m
            invariant
                k <= m,
                m <= commitments@.len(),
                m <= self.sk_share.y_shares@.len(),
                bases@.len() == k + 1,
                scalars@.len() == k + 1,
                bases@[0]@ == h@,
                scalars@[0]@ == self.sk_share.x_share@,
                forall|q: int| 1 <= q < k + 1 ==> (#[trigger] bases@[q])@ == commitments@[q - 1]@,
                forall|q: int|
                    1 <= q < k + 1 ==> (#[trigger] scalars@[q])@ == self.sk_share.y_shares@[q
                        - 1]@,
            decreases m - k,
        {
            bases.push(commitments[k].clone());
            let y = &self.sk_share.y_shares[k];
            let yc = y.clone();
            proof {
                use_type_invariant(y);
                use_type_invariant(&yc);
            }
            scalars.push(yc);
            k += 1;
        }
        proof {
            assert(g1_views(bases@) =~= seq![h@] + g1_views(commitments@).take(m as int));
            assert(sc_views(scalars@) =~= seq![self.sk_share.x_share@] + sc_views(
                self.sk_share.y_shares@,
            ).take(m as int));
        }
        let sigma = g1_msm(&bases, &scalars);
        Ok(PartialSignature { party_index: self.sk_share.index, h: h.clone(), sigma })
    }
}

} // verus!
