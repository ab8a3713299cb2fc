//! Threshold signatures: pairing-based verification of one signer's
//! partial signature, Lagrange aggregation of the first `t` shares with
//! de-blinding, Pointcheval–Sanders style rerandomization, and the final
//! two-pairing presentation check, all against exact contracts.

use crate::commitment::{parse_proof, proof_equation, proof_wire, CommitmentProof};
use crate::errors::SignatureError;
use crate::group::{
    g1_add, g1_add_of, g1_msm, g1_msm_of, g1_mul, g1_mul_of, g1_neg, g1_neg_of, g1_views, g2_add,
    g2_add_of, g2_views, gt_one, gt_one_bytes, miller_of, sc_views, G1Elem, G2Elem,
};
use crate::keygen::{VerificationKey, VerificationKeyShare};
use crate::pairing::{
    check_passes, mul_unless_one, rand_target, scaled_g1, verify_pairing_equation, PairingCheck,
};
use crate::rng::SeedRng;
use crate::scalar::{fr_bytes, lemma_canonical_bytes, Scalar};
use crate::schnorr::SchnorrProtocol;
use crate::shamir::{compute_lagrange_coefficient, idx_vals, lagrange_prod};
use crate::symmetric_commitment::SymmetricCommitmentKey;
use vstd::prelude::*;

verus! {

/// One signer's contribution: its index, the shared base `h`, and its
/// partial signature point.
pub struct PartialSignature {
    pub party_index: usize,
    pub h: G1Elem,
    pub sigma: G1Elem,
}

impl Clone for PartialSignature {
    fn clone(&self) -> (r: Self)
        ensures
            r.party_index == self.party_index,
            r.h@ == self.h@,
            r.sigma@ == self.sigma@,
    {
        PartialSignature {
            party_index: self.party_index,
            h: self.h.clone(),
            sigma: self.sigma.clone(),
        }
    }
}

/// The aggregated signature `(h, σ)`.
pub struct ThresholdSignature {
    pub h: G1Elem,
    pub sigma: G1Elem,
}

impl Clone for ThresholdSignature {
    fn clone(&self) -> (r: Self)
        ensures
            r.h@ == self.h@,
            r.sigma@ == self.sigma@,
    {
        ThresholdSignature { h: self.h.clone(), sigma: self.sigma.clone() }
    }
}

/// The `G1` side of the share-verification pairing product:
/// `(-σ_i, h, cm_1, …, cm_m)`.
pub open spec fn share_check_g1s(sigma: Seq<u8>, h: Seq<u8>, cms: Seq<Seq<u8>>) -> Seq<Seq<u8>> {
    seq![g1_neg_of(sigma), h] + cms
}

/// The `G2` side: `(g̃, X̃_i, Ỹ_{1,i}, …, Ỹ_{m,i})`.
pub open spec fn share_check_g2s(g_tilde: Seq<u8>, xs: Seq<u8>, ys: Seq<Seq<u8>>) -> Seq<Seq<u8>> {
    seq![g_tilde, xs] + ys
}

/// The party indices of the first `t` shares, as field values.
pub open spec fn agg_idx_vals(s: Seq<(usize, PartialSignature)>, t: int) -> Seq<nat> {
    Seq::new(t as nat, |i: int| s[i].1.party_index as nat)
}

/// The partial-signature points of the first `t` shares.
pub open spec fn agg_sigma_views(s: Seq<(usize, PartialSignature)>, t: int) -> Seq<Seq<u8>> {
    Seq::new(t as nat, |i: int| s[i].1.sigma@)
}

/// The Lagrange coefficients at zero for each point of `xs` over `xs`,
/// in canonical bytes.
pub open spec fn lagrange_coef_bytes(xs: Seq<nat>) -> Seq<Seq<u8>> {
    Seq::new(xs.len(), |i: int| fr_bytes(lagrange_prod(xs, xs[i], 0)))
}

/// Whether two of the values collide.
pub open spec fn has_duplicate(xs: Seq<nat>) -> bool {
    exists|i: int, j: int| 0 <= i < j < xs.len() && xs[i] == xs[j]
}

/// What aggregation returns on success: the interpolation of the first
/// `t` partial signatures at zero, de-blinded by the blinding term over
/// the commitment bases.
pub open spec fn aggregated_sigma(
    shares: Seq<(usize, PartialSignature)>,
    t: int,
    ck_bases: Seq<Seq<u8>>,
    blindings: Seq<Scalar>,
    m: int,
) -> Seq<u8> {
    g1_add_of(
        g1_msm_of(agg_sigma_views(shares, t), lagrange_coef_bytes(agg_idx_vals(shares, t))),
        g1_neg_of(g1_msm_of(ck_bases.take(m), sc_views(blindings.take(m)))),
    )
}

/// The two randomized pairing products of the presentation check, with
/// the whole decision: signature–commitment consistency and `G1`/`G2`
/// commitment consistency, folded and finally exponentiated.
pub open spec fn presentation_pass(
    g: Seq<u8>,
    g_tilde: Seq<u8>,
    vkx: Seq<u8>,
    cm: Seq<u8>,
    cm_tilde: Seq<u8>,
    h: Seq<u8>,
    sigma: Seq<u8>,
    a1: Scalar,
    a2: Scalar,
) -> bool {
    let l1 = miller_of(
        scaled_g1(seq![sigma, g1_neg_of(h)], a1),
        seq![g_tilde, g2_add_of(vkx, cm_tilde)],
    );
    let l2 = miller_of(scaled_g1(seq![cm, g1_neg_of(g)], a2), seq![g_tilde, cm_tilde]);
    final_exp_matches_one(mul_unless_one(l1, l2))
}

/// Whether the final exponentiation of a left side lands on one.
pub open spec fn final_exp_matches_one(left: Seq<u8>) -> bool {
    crate::group::final_exp_of(left) == Some(gt_one_bytes())
}

/// The share-verification decision for one coefficient: the randomized
/// pairing product over `(-σ_i, h, cm_k)` against `(g̃, X̃_i, Ỹ_{k,i})`
/// finally exponentiates to one.
pub open spec fn share_eq_check(
    ck: SymmetricCommitmentKey,
    vks: VerificationKeyShare,
    cms: Seq<G1Elem>,
    ps: PartialSignature,
    alpha: Scalar,
) -> bool {
    let m = vstd::math::min(cms.len() as int, vks.g_tilde_y_shares@.len() as int);
    check_passes(
        miller_of(
            scaled_g1(share_check_g1s(ps.sigma@, ps.h@, g1_views(cms).take(m)), alpha),
            share_check_g2s(
                ck.g_tilde@,
                vks.g_tilde_x_share@,
                g2_views(vks.g_tilde_y_shares@).take(m),
            ),
        ),
        gt_one_bytes(),
        0,
    )
}

/// The wire form of a presentation: the randomized signature pair, the
/// shown commitments on both sides, and the length-prefixed opening
/// proof bytes.
pub open spec fn presentation_wire(
    sig: ThresholdSignature,
    cm: G1Elem,
    cm_tilde: G2Elem,
    pi: Seq<u8>,
) -> Seq<u8> {
    sig.h@ + sig.sigma@ + cm@ + cm_tilde@ + crate::bytes::nat_to_le(pi.len(), 8) + pi
}

/// Whether bytes have the presentation wire shape: three valid `G1`
/// points, a valid `G2` point, and a proof length that reaches exactly
/// the end of the input.
pub open spec fn presentation_wire_ok(b: Seq<u8>) -> bool {
    let n = b.len() as int;
    &&& n >= 248
    &&& crate::group::g1_valid(b.subrange(0, 48))
    &&& crate::group::g1_valid(b.subrange(48, 96))
    &&& crate::group::g1_valid(b.subrange(96, 144))
    &&& crate::group::g2_valid(b.subrange(144, 240))
    &&& crate::bytes::le_val(b.subrange(240, 248)) == n - 248
}

/// Serializes a presentation into its canonical wire form.
pub fn serialize_presentation(
    sig: &ThresholdSignature,
    cm: &G1Elem,
    cm_tilde: &G2Elem,
    pi: &Vec<u8>,
) -> (r: Vec<u8>)
    ensures
        r@ == presentation_wire(*sig, *cm, *cm_tilde, pi@),
{
    let mut out = sig.h.to_bytes();
    let sb = sig.sigma.to_bytes();
    crate::bytes::append_bytes(&mut out, &sb);
    let cb = cm.to_bytes();
    crate::bytes::append_bytes(&mut out, &cb);
    let tb = cm_tilde.to_bytes();
    crate::bytes::append_bytes(&mut out, &tb);
    crate::bytes::push_u64_le(&mut out, pi.len() as u64);
    crate::bytes::append_bytes(&mut out, pi);
    proof {
        assert(out@ =~= presentation_wire(*sig, *cm, *cm_tilde, pi@));
    }
    out
}

/// Parses the presentation wire form: succeeds exactly on bytes of
/// that shape, and on success the parts re-serialize to the input.
pub fn parse_presentation(bytes: &Vec<u8>) -> (r: Option<
    (ThresholdSignature, G1Elem, G2Elem, Vec<u8>),
>)
    ensures
        (r is Some) <==> presentation_wire_ok(bytes@),
        r matches Some(q) ==> presentation_wire(q.0, q.1, q.2, q.3@) == bytes@,
{
    let ghost bv = bytes@;
    let n = bytes.len();
    if n < 248 {
        return None;
    }
    let hb = crate::bytes::sub_bytes(bytes, 0, 48);
    let h = match crate::group::g1_check(&hb) {
        Some(p) => p,
        None => {
            return None;
        },
    };
    let sb = crate::bytes::sub_bytes(bytes, 48, 48);
    let sigma = match crate::group::g1_check(&sb) {
        Some(p) => p,
        None => {
            return None;
        },
    };
    let cb = crate::bytes::sub_bytes(bytes, 96, 48);
    let cm = match crate::group::g1_check(&cb) {
        Some(p) => p,
        None => {
            return None;
        },
    };
    let tb = crate::bytes::sub_bytes(bytes, 144, 96);
    let cm_tilde = match crate::group::g2_check(&tb) {
        Some(p) => p,
        None => {
            return None;
        },
    };
    let plen64 = crate::bytes::read_u64_le(bytes, 240);
    if plen64 != (n - 248) as u64 {
        return None;
    }
    let pi = crate::bytes::sub_bytes(bytes, 248, n - 248);
    let sig = ThresholdSignature { h, sigma };
    let out = (sig, cm, cm_tilde, pi);
    proof {
        assert(presentation_wire_ok(bv));
        assert(crate::bytes::pow256(8) == 18446744073709551616) by {
            reveal_with_fuel(crate::bytes::pow256, 9);
        }
        crate::bytes::lemma_nat_to_le((n - 248) as nat, 8);
        crate::bytes::lemma_le_val_injective(
            bv.subrange(240, 248),
            crate::bytes::nat_to_le((n - 248) as nat, 8),
        );
        assert(bv.subrange(0, 48) + bv.subrange(48, 96) =~= bv.subrange(0, 96));
        assert(bv.subrange(0, 96) + bv.subrange(96, 144) =~= bv.subrange(0, 144));
        assert(bv.subrange(0, 144) + bv.subrange(144, 240) =~= bv.subrange(0, 240));
        assert(bv.subrange(0, 240) + bv.subrange(240, 248) =~= bv.subrange(0, 248));
        assert(bv.subrange(0, 248) + bv.subrange(248, n as int) =~= bv.subrange(0, n as int));
        assert(bv.subrange(0, n as int) =~= bv);
        assert(presentation_wire(out.0, out.1, out.2, out.3@) == bv);
    }
    Some(out)
}

impl ThresholdSignature {
    /// Checks one signer's partial signature by the pairing equation
    /// `e(σ_i, g̃) = e(h, X̃_i) · ∏_k e(cm_k, Ỹ_{k,i})`, carried out as
    /// one randomized product with the left side negated.
    pub fn verify_share(
        ck: &SymmetricCommitmentKey,
        vk_share: &VerificationKeyShare,
        commitments: &Vec<G1Elem>,
        sig_share: &PartialSignature,
        rng: &mut SeedRng,
    ) -> (r: bool)
        ensures
            exists|alpha: Scalar|
                alpha.val() != 0 && r == share_eq_check(
                    *ck,
                    *vk_share,
                    commitments@,
                    *sig_share,
                    alpha,
                ),
    {
        let m = if commitments.len() < vk_share.g_tilde_y_shares.len() {
            commitments.len()
        } else {
            vk_share.g_tilde_y_shares.len()
        };
        let mut g1s: Vec<G1Elem> = Vec::new();
        g1s.push(g1_neg(&sig_share.sigma));
        g1s.push(sig_share.h.clone());
        let mut g2s: Vec<G2Elem> = Vec::new();
        g2s.push(ck.g_tilde.clone());
        g2s.push(vk_share.g_tilde_x_share.clone());
        let mut k: usize = 0;
        while k < m
            invariant
                k <= m,
                m <= commitments@.len(),
                m <= vk_share.g_tilde_y_shares@.len(),
                g1s@.len() == k + 2,
                g2s@.len() == k + 2,
                g1s@[0]@ == g1_neg_of(sig_share.sigma@),
                g1s@[1]@ == sig_share.h@,
                g2s@[0]@ == ck.g_tilde@,
                g2s@[1]@ == vk_share.g_tilde_x_share@,
                forall|q: int| 2 <= q < k + 2 ==> (#[trigger] g1s@[q])@ == commitments@[q - 2]@,
                forall|q: int|
                    2 <= q < k + 2 ==> (#[trigger] g2s@[q])@ == vk_share.g_tilde_y_shares@[q - 2]@,
            decreases m - k,
        {
            g1s.push(commitments[k].clone());
            g2s.push(vk_share.g_tilde_y_shares[k].clone());
            k += 1;
        }
        proof {
            assert(g1_views(g1s@) =~= share_check_g1s(
                sig_share.sigma@,
                sig_share.h@,
                g1_views(commitments@).take(m as int),
            ));
            assert(g2_views(g2s@) =~= share_check_g2s(
                ck.g_tilde@,
                vk_share.g_tilde_x_share@,
                g2_views(vk_share.g_tilde_y_shares@).take(m as int),
            ));
        }
        verify_pairing_equation(&g1s, &g2s, None, rng)
    }

    /// Aggregates the first `threshold` verified shares: Lagrange
    /// interpolation at zero over their indices, then subtraction of
    /// the blinding term `Σ_k r_k·ck_k`. Rejects a zero threshold, too
    /// few shares, and colliding indices, in that order.
    pub fn aggregate_signature_shares(
        ck: &SymmetricCommitmentKey,
        signature_shares: &Vec<(usize, PartialSignature)>,
        blindings: &Vec<Scalar>,
        threshold: usize,
        h: &G1Elem,
    ) -> (r: Result<ThresholdSignature, SignatureError>)
        ensures
            (threshold == 0) <==> (r matches Err(SignatureError::ThresholdNotMet)),
            (threshold >= 1 && signature_shares@.len() < threshold) <==> (r matches Err(
                SignatureError::InsufficientShares { needed: n2, got: g2 },
            ) && n2 == threshold && g2 == signature_shares@.len()),
            (threshold >= 1 && signature_shares@.len() >= threshold && has_duplicate(
                agg_idx_vals(signature_shares@, threshold as int),
            )) <==> (r matches Err(SignatureError::DuplicateShare(_))),
            r matches Ok(sig) ==> {
                &&& threshold >= 1
                &&& signature_shares@.len() >= threshold
                &&& !has_duplicate(agg_idx_vals(signature_shares@, threshold as int))
                &&& sig.h@ == h@
                &&& sig.sigma@ == aggregated_sigma(
                    signature_shares@,
                    threshold as int,
                    g1_views(ck.ck@),
                    blindings@,
                    vstd::math::min(ck.ck@.len() as int, blindings@.len() as int),
                )
            },
            (threshold >= 1 && signature_shares@.len() >= threshold && !has_duplicate(
                agg_idx_vals(signature_shares@, threshold as int),
            )) ==> (r is Ok),
    {
        if threshold == 0 {
            return Err(SignatureError::ThresholdNotMet);
        }
        if signature_shares.len() < threshold {
            return Err(SignatureError::InsufficientShares {
                needed: threshold,
                got: signature_shares.len(),
            });
        }
        let ghost xs = agg_idx_vals(signature_shares@, threshold as int);

        // collect the first `threshold` indices
        let mut indices: Vec<usize> = Vec::new();
        let mut i: usize = 0;
        while i < threshold
            invariant
                i <= threshold,
                threshold <= signature_shares@.len(),
                xs == agg_idx_vals(signature_shares@, threshold as int),
                indices@.len() == i,
                forall|q: int|
                    0 <= q < i ==> (#[trigger] indices@[q]) == signature_shares@[q].1.party_index,
            decreases threshold - i,
        {
            indices.push(signature_shares[i].1.party_index);
            i += 1;
        }
        proof {
            assert(idx_vals(indices@) =~= xs);
        }

        // reject duplicated indices before interpolating
        let mut i: usize = 0;
        while i < threshold
            invariant
                i <= threshold,
                threshold <= signature_shares@.len(),
                indices@.len() == threshold,
                xs == agg_idx_vals(signature_shares@, threshold as int),
                forall|q: int|
                    0 <= q < threshold ==> (#[trigger] indices@[q])
                        == signature_shares@[q].1.party_index,
                forall|a: int, b: int| 0 <= a < b < threshold && a < i ==> xs[a] != xs[b],
            decreases threshold - i,
        {
            let mut j: usize = i + 1;
            while j < threshold
                invariant
                    i < j <= threshold,
                    threshold <= signature_shares@.len(),
                    indices@.len() == threshold,
                    xs == agg_idx_vals(signature_shares@, threshold as int),
                    forall|q: int|
                        0 <= q < threshold ==> (#[trigger] indices@[q])
                            == signature_shares@[q].1.party_index,
                    forall|b: int| i < b < j ==> xs[i as int] != xs[b],
                decreases threshold - j,
            {
                if indices[i] == indices[j] {
                    proof {
                        assert(xs[i as int] == xs[j as int]);
                        assert(has_duplicate(xs)) by {
                            assert((i as int) < (j as int) && (j as int) < xs.len() && xs[
                                i as int
                            ] == xs[j as int]);
                        }
                    }
                    return Err(SignatureError::DuplicateShare(indices[i]));
                }
                j += 1;
            }
            i += 1;
        }
        proof {
            assert(!has_duplicate(xs));
        }

        // Lagrange interpolation of the sigma points at zero
        let mut sigmas: Vec<G1Elem> = Vec::new();
        let mut lambdas: Vec<Scalar> = Vec::new();
        let mut i: usize = 0;
        while i < threshold
            invariant
                i <= threshold,
                threshold <= signature_shares@.len(),
                indices@.len() == threshold,
                xs == agg_idx_vals(signature_shares@, threshold as int),
                idx_vals(indices@) == xs,
                forall|q: int|
                    0 <= q < threshold ==> (#[trigger] indices@[q])
                        == signature_shares@[q].1.party_index,
                sigmas@.len() == i,
                lambdas@.len() == i,
                forall|q: int|
                    0 <= q < i ==> (#[trigger] sigmas@[q])@ == signature_shares@[q].1.sigma@,
                forall|q: int|
                    0 <= q < i ==> (#[trigger] lambdas@[q])@ == fr_bytes(
                        lagrange_prod(xs, xs[q], 0),
                    ),
            decreases threshold - i,
        {
            let coef = compute_lagrange_coefficient(&indices, indices[i]);
            proof {
                use_type_invariant(&coef);
                lemma_canonical_bytes(coef@, coef.val());
            }
            lambdas.push(coef);
            sigmas.push(signature_shares[i].1.sigma.clone());
            i += 1;
        }
        proof {
            assert(g1_views(sigmas@) =~= agg_sigma_views(signature_shares@, threshold as int));
            assert(sc_views(lambdas@) =~= lagrange_coef_bytes(xs));
        }
        let sigma_2 = g1_msm(&sigmas, &lambdas);

        // de-blinding term over the commitment bases
        let m = if ck.ck.len() < blindings.len() {
            ck.ck.len()
        } else {
            blindings.len()
        };
        let mut base_trunc: Vec<G1Elem> = Vec::new();
        let mut blind_trunc: Vec<Scalar> = Vec::new();
        let mut k: usize = 0;
        while k < m
            invariant
                k <= m,
                m <= ck.ck@.len(),
                m <= blindings@.len(),
                base_trunc@.len() == k,
                blind_trunc@.len() == k,
                forall|q: int| 0 <= q < k ==> (#[trigger] base_trunc@[q])@ == ck.ck@[q]@,
                forall|q: int| 0 <= q < k ==> (#[trigger] blind_trunc@[q])@ == blindings@[q]@,
            decreases m - k,
        {
            base_trunc.push(ck.ck[k].clone());
            let b = &blindings[k];
            let bc = b.clone();
            proof {
                use_type_invariant(b);
                use_type_invariant(&bc);
            }
            blind_trunc.push(bc);
            k += 1;
        }
        proof {
            assert(g1_views(base_trunc@) =~= g1_views(ck.ck@).take(m as int));
            assert(sc_views(blind_trunc@) =~= sc_views(blindings@.take(m as int)));
        }
        let g_k_r_k = g1_neg(&g1_msm(&base_trunc, &blind_trunc));
        let final_sigma = g1_add(&sigma_2, &g_k_r_k);

        Ok(ThresholdSignature { h: h.clone(), sigma: final_sigma })
    }

    /// Rerandomizes with fresh factors; returns the signature and the
    /// blinding shift the commitment must follow.
    pub fn randomize(&self, rng: &mut SeedRng) -> (out: (ThresholdSignature, Scalar))
        ensures
            exists|u: Scalar|
                out.0.h@ == g1_mul_of(self.h@, u@) && out.0.sigma@ == g1_mul_of(
                    g1_add_of(g1_mul_of(self.h@, out.1@), self.sigma@),
                    u@,
                ),
    {
        let u_delta = rng.next_scalar();
        let r_delta = rng.next_scalar();
        let sig = self.randomize_with_factors(&u_delta, &r_delta);
        let out = (sig, r_delta);
        proof {
            assert(out.0.h@ == g1_mul_of(self.h@, u_delta@) && out.0.sigma@ == g1_mul_of(
                g1_add_of(g1_mul_of(self.h@, out.1@), self.sigma@),
                u_delta@,
            ));
        }
        out
    }

    /// Rerandomizes with the given factors:
    /// `(h, σ) ↦ (u·h, u·(σ + r'·h))`.
    pub fn randomize_with_factors(&self, u_delta: &Scalar, r_delta: &Scalar) -> (out:
        ThresholdSignature)
        ensures
            out.h@ == g1_mul_of(self.h@, u_delta@),
            out.sigma@ == g1_mul_of(
                g1_add_of(g1_mul_of(self.h@, r_delta@), self.sigma@),
                u_delta@,
            ),
    {
        let h_prime = g1_mul(&self.h, u_delta);
        let temp = g1_mul(&self.h, r_delta);
        let sigma_prime = g1_mul(&g1_add(&temp, &self.sigma), u_delta);
        ThresholdSignature { h: h_prime, sigma: sigma_prime }
    }

    /// Verifies a presentation: the opening proof must parse and carry
    /// the shown commitment with a passing Schnorr equation — each of
    /// those decided exactly over the proof's wire windows — and then
    /// the two pairing checks, `e(σ, g̃) = e(h, X̃ + C̃)` and
    /// `e(C, g̃) = e(g, C̃)`, folded into one final exponentiation,
    /// must pass. `Ok` comes only with all of them, and each error
    /// names the stage that refused.
    pub fn verify(
        ck: &SymmetricCommitmentKey,
        vk: &VerificationKey,
        cm: &G1Elem,
        cm_tilde: &G2Elem,
        sig: &ThresholdSignature,
        serialized_proof: &Vec<u8>,
        rng: &mut SeedRng,
    ) -> (r: Result<bool, SignatureError>)
        ensures
            (r matches Err(SignatureError::CommitmentError(
                crate::errors::CommitmentError::SerializationError,
            ))) <==> !crate::commitment::proof_wire_ok(serialized_proof@),
            (r matches Err(SignatureError::CommitmentError(
                crate::errors::CommitmentError::ProofVerificationFailed,
            ))) <==> (crate::commitment::proof_wire_ok(serialized_proof@) && !(
            crate::commitment::wire_equation(serialized_proof@)
                && crate::commitment::wire_statement(serialized_proof@) == cm@)),
            r matches Ok(v) ==> v == true,
            r matches Ok(v) ==> crate::commitment::proof_wire_ok(serialized_proof@)
                && crate::commitment::wire_equation(serialized_proof@)
                && crate::commitment::wire_statement(serialized_proof@) == cm@,
            r matches Ok(v) ==> exists|a1: Scalar, a2: Scalar|
                a1.val() != 0 && a2.val() != 0 && presentation_pass(
                    ck.g@,
                    ck.g_tilde@,
                    vk.g_tilde_x@,
                    cm@,
                    cm_tilde@,
                    sig.h@,
                    sig.sigma@,
                    a1,
                    a2,
                ),
            r matches Err(SignatureError::SignatureVerificationFailed) ==> exists|
                a1: Scalar,
                a2: Scalar,
            |
                a1.val() != 0 && a2.val() != 0 && !presentation_pass(
                    ck.g@,
                    ck.g_tilde@,
                    vk.g_tilde_x@,
                    cm@,
                    cm_tilde@,
                    sig.h@,
                    sig.sigma@,
                    a1,
                    a2,
                ),
            (crate::commitment::proof_wire_ok(serialized_proof@)
                && crate::commitment::wire_equation(serialized_proof@)
                && crate::commitment::wire_statement(serialized_proof@) == cm@) ==> (r is Ok
                || r matches Err(SignatureError::SignatureVerificationFailed)),
    {
        let p = match parse_proof(serialized_proof) {
            Some(p) => p,
            None => {
                return Err(SignatureError::CommitmentError(
                    crate::errors::CommitmentError::SerializationError,
                ));
            },
        };
        let pi_ok = SchnorrProtocol::verify_schnorr(
            &p.bases,
            &p.commitment,
            &p.schnorr_commitment,
            &p.responses,
            &p.challenge,
        );
        proof {
            assert(pi_ok == crate::commitment::wire_equation(serialized_proof@));
        }
        if !pi_ok || !p.commitment.equals(cm) {
            return Err(SignatureError::CommitmentError(
                crate::errors::CommitmentError::ProofVerificationFailed,
            ));
        }

        let one = gt_one();
        let vk_plus_cm_tilde = g2_add(&vk.g_tilde_x, cm_tilde);
        let mut c1_g1: Vec<G1Elem> = Vec::new();
        c1_g1.push(sig.sigma.clone());
        c1_g1.push(g1_neg(&sig.h));
        let mut c1_g2: Vec<G2Elem> = Vec::new();
        c1_g2.push(ck.g_tilde.clone());
        c1_g2.push(vk_plus_cm_tilde);
        let check1 = PairingCheck::rand(rng, &c1_g1, &c1_g2, &one);

        let mut c2_g1: Vec<G1Elem> = Vec::new();
        c2_g1.push(cm.clone());
        c2_g1.push(g1_neg(&ck.g));
        let mut c2_g2: Vec<G2Elem> = Vec::new();
        c2_g2.push(ck.g_tilde.clone());
        c2_g2.push(cm_tilde.clone());
        let check2 = PairingCheck::rand(rng, &c2_g1, &c2_g2, &one);

        let mut final_check = PairingCheck::new();
        final_check.merge(&check1);
        final_check.merge(&check2);
        let is_valid = final_check.verify();
        proof {
            let a1 = choose|a: Scalar|
                a.val() != 0 && check1.left_v() == miller_of(
                    scaled_g1(g1_views(c1_g1@), a),
                    g2_views(c1_g2@),
                ) && check1.right_v() == rand_target(one@, a) && check1.unrandomized() == 0;
            let a2 = choose|a: Scalar|
                a.val() != 0 && check2.left_v() == miller_of(
                    scaled_g1(g1_views(c2_g1@), a),
                    g2_views(c2_g2@),
                ) && check2.right_v() == rand_target(one@, a) && check2.unrandomized() == 0;
            assert(g1_views(c1_g1@) =~= seq![sig.sigma@, g1_neg_of(sig.h@)]);
            assert(g2_views(c1_g2@) =~= seq![ck.g_tilde@, g2_add_of(vk.g_tilde_x@, cm_tilde@)]);
            assert(g1_views(c2_g1@) =~= seq![cm@, g1_neg_of(ck.g@)]);
            assert(g2_views(c2_g2@) =~= seq![ck.g_tilde@, cm_tilde@]);
            if is_valid {
                assert(presentation_pass(
                    ck.g@,
                    ck.g_tilde@,
                    vk.g_tilde_x@,
                    cm@,
                    cm_tilde@,
                    sig.h@,
                    sig.sigma@,
                    a1,
                    a2,
                ));
            } else {
                assert(!presentation_pass(
                    ck.g@,
                    ck.g_tilde@,
                    vk.g_tilde_x@,
                    cm@,
                    cm_tilde@,
                    sig.h@,
                    sig.sigma@,
                    a1,
                    a2,
                ));
            }
        }
        if !is_valid {
            return Err(SignatureError::SignatureVerificationFailed);
        }
        Ok(true)
    }
}

} // verus!
