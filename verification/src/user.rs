//! The user's side of share handling: checking a signer's partial
//! signature — opening proofs first, then the pairing equation against
//! that signer's verification share — and collecting enough valid
//! shares to aggregate.

use crate::commitment::{proof_wire_ok, wire_counts_match};
use crate::errors::{CommitmentError, SignatureError};
use crate::group::G1Elem;
use crate::keygen::VerificationKeyShare;
use crate::rng::SeedRng;
use crate::schnorr_batch::{batch_inputs_ok, batch_outcome, batch_verify};
use crate::signature::{share_eq_check, PartialSignature, ThresholdSignature};
use crate::symmetric_commitment::SymmetricCommitmentKey;
use vstd::prelude::*;

verus! {

/// Whether a kept element is one of the input shares, field for field,
/// whose pairing check against the verification share of its sender
/// reported true for some nonzero coefficient.
pub open spec fn kept_share_ok(
    ck: SymmetricCommitmentKey,
    vk_shares: Seq<VerificationKeyShare>,
    commitments: Seq<G1Elem>,
    e: (usize, PartialSignature),
) -> bool {
    exists|w: int|
        0 <= w < vk_shares.len() && (#[trigger] vk_shares[w]).index == e.0 && exists|alpha: Scalar|
            alpha.val() != 0 && share_eq_check(ck, vk_shares[w], commitments, e.1, alpha)
}

use crate::scalar::Scalar;

/// Whether `kept` lists, in input order, shares of `shares` (field for
/// field) at the strictly increasing source positions `srcs`.
pub open spec fn kept_in_order(
    shares: Seq<(usize, PartialSignature)>,
    kept: Seq<(usize, PartialSignature)>,
    srcs: Seq<int>,
) -> bool {
    &&& srcs.len() == kept.len()
    &&& (forall|q: int| 0 <= q < srcs.len() ==> 0 <= #[trigger] srcs[q] < shares.len())
    &&& (forall|q1: int, q2: int| 0 <= q1 < q2 < srcs.len() ==> srcs[q1] < srcs[q2])
    &&& (forall|q: int|
        0 <= q < kept.len() ==> {
            let src = shares[srcs[q]];
            &&& (#[trigger] kept[q]).0 == src.0
            &&& kept[q].1.party_index == src.1.party_index
            &&& kept[q].1.h@ == src.1.h@
            &&& kept[q].1.sigma@ == src.1.sigma@
        })
}

/// Whether some share names a sender for whom no verification key
/// share exists.
pub open spec fn some_sender_unknown(
    shares: Seq<(usize, PartialSignature)>,
    vks: Seq<VerificationKeyShare>,
) -> bool {
    exists|q: int|
        0 <= q < shares.len() && (forall|w: int|
            0 <= w < vks.len() ==> (#[trigger] vks[w]).index != (#[trigger] shares[q]).0)
}

pub struct User;

impl User {
    /// Verifies one partial signature: the opening proofs must pass as
    /// a batch against the same commitments, then the pairing equation
    /// for this signer decides the result. Parse and count errors are
    /// exact; on parseable proofs the batch's verdict decides between
    /// the pairing answer and the batch error.
    pub fn verify_signature_share(
        commitment_key: &SymmetricCommitmentKey,
        vk_share: &VerificationKeyShare,
        commitments: &Vec<G1Elem>,
        commitment_proofs: &Vec<Vec<u8>>,
        sig_share: &PartialSignature,
        rng: &mut SeedRng,
    ) -> (r: Result<bool, SignatureError>)
        ensures
            (r matches Err(SignatureError::CommitmentError(CommitmentError::SerializationError)))
                <==> exists|i: int|
                0 <= i < commitment_proofs@.len() && !proof_wire_ok(
                    (#[trigger] commitment_proofs@[i])@,
                ),
            (r matches Err(SignatureError::CommitmentError(CommitmentError::InvalidProof))) <==> ((
            forall|i: int|
                0 <= i < commitment_proofs@.len() ==> proof_wire_ok(
                    (#[trigger] commitment_proofs@[i])@,
                )) && exists|i: int|
                0 <= i < commitment_proofs@.len() && !wire_counts_match(
                    (#[trigger] commitment_proofs@[i])@,
                )),
            r matches Err(SignatureError::CommitmentError(CommitmentError::BatchVerifyError))
                ==> batch_outcome(commitment_proofs@, false),
            batch_inputs_ok(commitment_proofs@) ==> exists|v: bool|
                {
                    &&& #[trigger] batch_outcome(commitment_proofs@, v)
                    &&& (v ==> (r matches Ok(b) && exists|alpha: Scalar|
                        alpha.val() != 0 && b == share_eq_check(
                            *commitment_key,
                            *vk_share,
                            commitments@,
                            *sig_share,
                            alpha,
                        )))
                    &&& (!v ==> r matches Err(
                        SignatureError::CommitmentError(CommitmentError::BatchVerifyError),
                    ))
                },
            r matches Ok(b) ==> batch_outcome(commitment_proofs@, true) && exists|alpha: Scalar|
                alpha.val() != 0 && b == share_eq_check(
                    *commitment_key,
                    *vk_share,
                    commitments@,
                    *sig_share,
                    alpha,
                ),
            r is Err ==> (r matches Err(SignatureError::CommitmentError(
                CommitmentError::SerializationError,
            )) || r matches Err(SignatureError::CommitmentError(CommitmentError::InvalidProof))
                || r matches Err(SignatureError::CommitmentError(
                CommitmentError::BatchVerifyError,
            ))),
    {
        let valid = match batch_verify(commitment_proofs, rng) {
            Ok(v) => v,
            Err(e) => { return Err(SignatureError::CommitmentError(e)); },
        };
        if !valid {
            return Err(SignatureError::CommitmentError(CommitmentError::BatchVerifyError));
        }
        let ok = ThresholdSignature::verify_share(
            commitment_key,
            vk_share,
            commitments,
            sig_share,
            rng,
        );
        Ok(ok)
    }

    /// Verifies every received share against the verification key share
    /// of its sender and keeps, in input order, exactly those whose
    /// check reported true; fails when a sender has no verification
    /// share, when proofs fail, or when fewer than the threshold remain.
    pub fn process_signature_shares(
        commitment_key: &SymmetricCommitmentKey,
        vk_shares: &Vec<VerificationKeyShare>,
        commitments: &Vec<G1Elem>,
        commitment_proofs: &Vec<Vec<u8>>,
        signature_shares: &Vec<(usize, PartialSignature)>,
        threshold: usize,
        rng: &mut SeedRng,
    ) -> (r: Result<Vec<(usize, PartialSignature)>, SignatureError>)
        ensures
            r matches Ok(kept) ==> {
                &&& kept@.len() >= threshold
                &&& exists|srcs: Seq<int>| kept_in_order(signature_shares@, kept@, srcs)
                &&& (forall|q: int|
                    0 <= q < kept@.len() ==> kept_share_ok(
                        *commitment_key,
                        vk_shares@,
                        commitments@,
                        #[trigger] kept@[q],
                    ))
            },
            r matches Err(SignatureError::InvalidState(_)) ==> some_sender_unknown(
                signature_shares@,
                vk_shares@,
            ),
            r matches Err(SignatureError::InsufficientShares { needed, got }) ==> needed
                == threshold && got < threshold,
            r matches Err(SignatureError::CommitmentError(CommitmentError::SerializationError))
                ==> exists|i: int|
                0 <= i < commitment_proofs@.len() && !proof_wire_ok(
                    (#[trigger] commitment_proofs@[i])@,
                ),
            r matches Err(SignatureError::CommitmentError(CommitmentError::BatchVerifyError))
                ==> batch_outcome(commitment_proofs@, false),
    {
        let mut valid_shares: Vec<(usize, PartialSignature)> = Vec::new();
        let ghost mut srcs: Seq<int> = Seq::empty();
        let mut i: usize = 0;
        while i < signature_shares.len()
            invariant
                i <= signature_shares@.len(),
                srcs.len() == valid_shares@.len(),
                forall|q: int| 0 <= q < srcs.len() ==> 0 <= #[trigger] srcs[q] < i,
                forall|q1: int, q2: int| 0 <= q1 < q2 < srcs.len() ==> srcs[q1] < srcs[q2],
                kept_in_order(signature_shares@, valid_shares@, srcs),
                forall|q: int|
                    0 <= q < valid_shares@.len() ==> kept_share_ok(
                        *commitment_key,
                        vk_shares@,
                        commitments@,
                        #[trigger] valid_shares@[q],
                    ),
            decreases signature_shares@.len() - i,
        {
            let idx = signature_shares[i].0;
            let share_ref = &signature_shares[i].1;

            // find this sender's verification key share
            let mut found: Option<usize> = None;
            let mut j: usize = 0;
            while j < vk_shares.len()
                invariant
                    j <= vk_shares@.len(),
                    found matches Some(w) ==> w < vk_shares@.len() && vk_shares@[w as int].index
                        == idx,
                    found is None ==> forall|w: int|
                        0 <= w < j ==> (#[trigger] vk_shares@[w]).index != idx,
                decreases vk_shares@.len() - j,
            {
                if found.is_none() && vk_shares[j].index == idx {
                    found = Some(j);
                }
                j += 1;
            }
            let w = match found {
                Some(w) => w,
                None => {
                    proof {
                        assert(some_sender_unknown(signature_shares@, vk_shares@)) by {
                            assert((i as int) < signature_shares@.len() && (forall|w: int|
                                0 <= w < vk_shares@.len() ==> (#[trigger] vk_shares@[w]).index
                                    != (signature_shares@[i as int]).0));
                        }
                    }
                    return Err(SignatureError::InvalidState(
                        "no verification key share for this signer".to_string(),
                    ));
                },
            };
            let is_valid = match Self::verify_signature_share(
                commitment_key,
                &vk_shares[w],
                commitments,
                commitment_proofs,
                share_ref,
                rng,
            ) {
                Ok(v) => v,
                Err(e) => { return Err(e); },
            };
            if is_valid {
                let kept = (idx, share_ref.clone());
                proof {
                    let alpha = choose|alpha: Scalar|
                        alpha.val() != 0 && true == share_eq_check(
                            *commitment_key,
                            vk_shares@[w as int],
                            commitments@,
                            *share_ref,
                            alpha,
                        );
                    assert(share_eq_check(
                        *commitment_key,
                        vk_shares@[w as int],
                        commitments@,
                        kept.1,
                        alpha,
                    ) == share_eq_check(
                        *commitment_key,
                        vk_shares@[w as int],
                        commitments@,
                        *share_ref,
                        alpha,
                    ));
                    assert(kept_share_ok(*commitment_key, vk_shares@, commitments@, kept)) by {
                        assert((w as int) < vk_shares@.len() && vk_shares@[w as int].index
                            == kept.0 && alpha.val() != 0 && share_eq_check(
                            *commitment_key,
                            vk_shares@[w as int],
                            commitments@,
                            kept.1,
                            alpha,
                        ));
                    }
                    srcs = srcs.push(i as int);
                }
                valid_shares.push(kept);
            }
            i += 1;
        }
        if valid_shares.len() < threshold {
            return Err(SignatureError::InsufficientShares {
                needed: threshold,
                got: valid_shares.len(),
            });
        }
        proof {
            assert(kept_in_order(signature_shares@, valid_shares@, srcs));
            assert(exists|s2: Seq<int>| kept_in_order(signature_shares@, valid_shares@, s2));
        }
        Ok(valid_shares)
    }
}

} // verus!
