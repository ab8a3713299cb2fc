//! The symmetric commitment: one vector commitment taken in parallel in
//! `G1` and `G2` under paired key material, so that both sides commit to
//! the same messages and blinding. The key invariant — each `G1` base and
//! its `G2` partner carry one scalar — is part of the key's contract.

use crate::commitment::{proof_equation, proof_wire, serialize_proof, CommitmentProof};
use crate::errors::CommitmentError;
use crate::group::{
    copy_g1s, copy_g2s, g1_add, g1_add_of, g1_msm, g1_msm_of, g1_mul, g1_mul_of, g1_views, g2_add,
    g2_add_of, g2_msm, g2_msm_of, g2_mul, g2_mul_of, g2_views, sc_views, G1Elem, G2Elem,
};
use crate::rng::SeedRng;
use crate::scalar::{copy_scalars, fr_add, fr_reduce, Scalar};
use crate::schnorr::SchnorrProtocol;
use vstd::prelude::*;

verus! {

/// The commitment key: generators `g`, `g̃` and per-attribute bases
/// `ck_k = y_k·g`, `c̃k_k = y_k·g̃` under one `y_k` each.
pub struct SymmetricCommitmentKey {
    pub g: G1Elem,
    pub ck: Vec<G1Elem>,
    pub g_tilde: G2Elem,
    pub ck_tilde: Vec<G2Elem>,
}

/// Two keys carry the same bases, byte for byte.
pub open spec fn key_eq(a: SymmetricCommitmentKey, b: SymmetricCommitmentKey) -> bool {
    &&& a.g@ == b.g@
    &&& a.g_tilde@ == b.g_tilde@
    &&& g1_views(a.ck@) == g1_views(b.ck@)
    &&& g2_views(a.ck_tilde@) == g2_views(b.ck_tilde@)
    &&& a.ck@.len() == b.ck@.len()
    &&& a.ck_tilde@.len() == b.ck_tilde@.len()
}

impl SymmetricCommitmentKey {
    /// Builds a key from the secret scalars: random generators and the
    /// paired bases `y_k·g`, `y_k·g̃`.
    pub fn new(y_values: &Vec<Scalar>, rng: &mut SeedRng) -> (r: Self)
        ensures
            r.ck@.len() == y_values@.len(),
            r.ck_tilde@.len() == y_values@.len(),
            forall|k: int|
                0 <= k < y_values@.len() ==> (#[trigger] r.ck@[k])@ == g1_mul_of(
                    r.g@,
                    y_values@[k]@,
                ),
            forall|k: int|
                0 <= k < y_values@.len() ==> (#[trigger] r.ck_tilde@[k])@ == g2_mul_of(
                    r.g_tilde@,
                    y_values@[k]@,
                ),
    {
        let g = rng.next_g1();
        let g_tilde = rng.next_g2();
        let mut ck: Vec<G1Elem> = Vec::new();
        let mut ck_tilde: Vec<G2Elem> = Vec::new();
        let mut k: usize = 0;
        while k < y_values.len()
            invariant
                k <= y_values@.len(),
                ck@.len() == k,
                ck_tilde@.len() == k,
                forall|q: int|
                    0 <= q < k ==> (#[trigger] ck@[q])@ == g1_mul_of(g@, y_values@[q]@),
                forall|q: int|
                    0 <= q < k ==> (#[trigger] ck_tilde@[q])@ == g2_mul_of(
                        g_tilde@,
                        y_values@[q]@,
                    ),
            decreases y_values@.len() - k,
        {
            let y = &y_values[k];
            ck.push(g1_mul(&g, y));
            ck_tilde.push(g2_mul(&g_tilde, y));
            k += 1;
        }
        SymmetricCommitmentKey { g, ck, g_tilde, ck_tilde }
    }

    /// The proving bases: the `G1` bases followed by `g`, and the `G2`
    /// bases followed by `g̃`.
    pub fn get_bases(&self) -> (r: (Vec<G1Elem>, Vec<G2Elem>))
        ensures
            g1_views(r.0@) == g1_views(self.ck@).push(self.g@),
            g2_views(r.1@) == g2_views(self.ck_tilde@).push(self.g_tilde@),
            r.0@.len() == self.ck@.len() + 1,
            r.1@.len() == self.ck_tilde@.len() + 1,
    {
        let mut bases = copy_g1s(&self.ck);
        bases.push(self.g.clone());
        let mut bases_tilde = copy_g2s(&self.ck_tilde);
        bases_tilde.push(self.g_tilde.clone());
        proof {
            assert(g1_views(bases@) =~= g1_views(self.ck@).push(self.g@));
            assert(g2_views(bases_tilde@) =~= g2_views(self.ck_tilde@).push(self.g_tilde@));
        }
        (bases, bases_tilde)
    }
}

impl Clone for SymmetricCommitmentKey {
    fn clone(&self) -> (r: Self)
        ensures
            key_eq(r, *self),
    {
        let r = SymmetricCommitmentKey {
            g: self.g.clone(),
            ck: copy_g1s(&self.ck),
            g_tilde: self.g_tilde.clone(),
            ck_tilde: copy_g2s(&self.ck_tilde),
        };
        proof {
            assert(g1_views(r.ck@) =~= g1_views(self.ck@));
            assert(g2_views(r.ck_tilde@) =~= g2_views(self.ck_tilde@));
        }
        r
    }
}

/// What the `G1` side commits to: the message multi-scalar product over
/// the first bases plus `r·g`.
pub open spec fn g1_commit_of(
    ck: SymmetricCommitmentKey,
    messages: Seq<Scalar>,
    r: Scalar,
) -> Seq<u8> {
    g1_add_of(
        g1_msm_of(g1_views(ck.ck@).take(messages.len() as int), sc_views(messages)),
        g1_mul_of(ck.g@, r@),
    )
}

/// What the `G2` side commits to.
pub open spec fn g2_commit_of(
    ck: SymmetricCommitmentKey,
    messages: Seq<Scalar>,
    r: Scalar,
) -> Seq<u8> {
    g2_add_of(
        g2_msm_of(g2_views(ck.ck_tilde@).take(messages.len() as int), sc_views(messages)),
        g2_mul_of(ck.g_tilde@, r@),
    )
}

/// Commits the message vector on the `G1` side:
/// `C = Σ_k m_k·ck_k + r·g`.
pub fn g1_commit(ck: &SymmetricCommitmentKey, messages: &Vec<Scalar>, r: &Scalar) -> (out: G1Elem)
    requires
        messages@.len() <= ck.ck@.len(),
    ensures
        out@ == g1_commit_of(*ck, messages@, *r),
{
    let mut bases: Vec<G1Elem> = Vec::new();
    let mut k: usize = 0;
    while k < messages.len()
        invariant
            k <= messages@.len(),
            messages@.len() <= ck.ck@.len(),
            bases@.len() == k,
            forall|q: int| 0 <= q < k ==> (#[trigger] bases@[q])@ == ck.ck@[q]@,
        decreases messages@.len() - k,
    {
        bases.push(ck.ck[k].clone());
        k += 1;
    }
    proof {
        assert(g1_views(bases@) =~= g1_views(ck.ck@).take(messages@.len() as int));
    }
    let temp = g1_msm(&bases, messages);
    let g1_r = g1_mul(&ck.g, r);
    g1_add(&temp, &g1_r)
}

/// Commits the message vector on the `G2` side:
/// `C̃ = Σ_k m_k·c̃k_k + r·g̃`.
pub fn g2_commit(ck: &SymmetricCommitmentKey, messages: &Vec<Scalar>, r: &Scalar) -> (out: G2Elem)
    requires
        messages@.len() <= ck.ck_tilde@.len(),
    ensures
        out@ == g2_commit_of(*ck, messages@, *r),
{
    let mut bases: Vec<G2Elem> = Vec::new();
    let mut k: usize = 0;
    while k < messages.len()
        invariant
            k <= messages@.len(),
            messages@.len() <= ck.ck_tilde@.len(),
            bases@.len() == k,
            forall|q: int| 0 <= q < k ==> (#[trigger] bases@[q])@ == ck.ck_tilde@[q]@,
        decreases messages@.len() - k,
    {
        bases.push(ck.ck_tilde[k].clone());
        k += 1;
    }
    proof {
        assert(g2_views(bases@) =~= g2_views(ck.ck_tilde@).take(messages@.len() as int));
    }
    let temp = g2_msm(&bases, messages);
    let g2_r = g2_mul(&ck.g_tilde, r);
    g2_add(&temp, &g2_r)
}

/// The paired commitment `(C, C̃)` with the key, messages and blinding
/// it was formed from.
pub struct SymmetricCommitment {
    pub ck: SymmetricCommitmentKey,
    pub messages: Vec<Scalar>,
    pub r: Scalar,
    pub cm: G1Elem,
    pub cm_tilde: G2Elem,
}

impl SymmetricCommitment {
    /// Commits to the messages under blinding `r` on both sides.
    pub fn new(ck: &SymmetricCommitmentKey, messages: &Vec<Scalar>, r: &Scalar) -> (out: Self)
        requires
            messages@.len() <= ck.ck@.len(),
            messages@.len() <= ck.ck_tilde@.len(),
        ensures
            out.cm@ == g1_commit_of(*ck, messages@, *r),
            out.cm_tilde@ == g2_commit_of(*ck, messages@, *r),
            key_eq(out.ck, *ck),
            sc_views(out.messages@) == sc_views(messages@),
            out.messages@.len() == messages@.len(),
            out.r@ == r@,
            out.r.val() == r.val(),
    {
        let cm = g1_commit(ck, messages, r);
        let cm_tilde = g2_commit(ck, messages, r);
        let kept_r = r.clone();
        proof {
            use_type_invariant(r);
            use_type_invariant(&kept_r);
        }
        let kept = copy_scalars(messages);
        proof {
            assert(sc_views(kept@) =~= sc_views(messages@));
        }
        SymmetricCommitment {
            ck: ck.clone(),
            messages: kept,
            r: kept_r,
            cm,
            cm_tilde,
        }
    }

    /// Shifts the blinding by `r_delta` on both sides, keeping the
    /// messages: `C + r'·g`, `C̃ + r'·g̃`, blinding `r + r'`.
    pub fn randomize(&self, r_delta: &Scalar) -> (out: Self)
        ensures
            out.cm@ == g1_add_of(self.cm@, g1_mul_of(self.ck.g@, r_delta@)),
            out.cm_tilde@ == g2_add_of(self.cm_tilde@, g2_mul_of(self.ck.g_tilde@, r_delta@)),
            out.r.val() == fr_reduce((self.r.val() + r_delta.val()) as int),
            key_eq(out.ck, self.ck),
            sc_views(out.messages@) == sc_views(self.messages@),
            out.messages@.len() == self.messages@.len(),
    {
        let new_r = fr_add(&self.r, r_delta);
        let cm_delta = g1_add(&self.cm, &g1_mul(&self.ck.g, r_delta));
        let cm_tilde_delta = g2_add(&self.cm_tilde, &g2_mul(&self.ck.g_tilde, r_delta));
        let kept = copy_scalars(&self.messages);
        proof {
            assert(sc_views(kept@) =~= sc_views(self.messages@));
        }
        SymmetricCommitment {
            ck: self.ck.clone(),
            messages: kept,
            r: new_r,
            cm: cm_delta,
            cm_tilde: cm_tilde_delta,
        }
    }

    /// Shifts the blinding on the `G1` side only, keeping `C̃`.
    pub fn randomize_just_g1(&self, r_delta: &Scalar) -> (out: Self)
        ensures
            out.cm@ == g1_add_of(self.cm@, g1_mul_of(self.ck.g@, r_delta@)),
            out.cm_tilde@ == self.cm_tilde@,
            out.r.val() == fr_reduce((self.r.val() + r_delta.val()) as int),
            key_eq(out.ck, self.ck),
            sc_views(out.messages@) == sc_views(self.messages@),
    {
        let new_r = fr_add(&self.r, r_delta);
        let cm_delta = g1_add(&self.cm, &g1_mul(&self.ck.g, r_delta));
        let kept = copy_scalars(&self.messages);
        proof {
            assert(sc_views(kept@) =~= sc_views(self.messages@));
        }
        SymmetricCommitment {
            ck: self.ck.clone(),
            messages: kept,
            r: new_r,
            cm: cm_delta,
            cm_tilde: self.cm_tilde.clone(),
        }
    }

    /// The exponents the opening proof speaks for: the messages followed
    /// by the blinding.
    pub fn get_exponents(&self) -> (out: Vec<Scalar>)
        ensures
            sc_views(out@) == sc_views(self.messages@).push(self.r@),
            out@.len() == self.messages@.len() + 1,
    {
        let mut exponents = copy_scalars(&self.messages);
        let tail = self.r.clone();
        proof {
            use_type_invariant(&self.r);
            use_type_invariant(&tail);
        }
        exponents.push(tail);
        proof {
            assert(sc_views(exponents@) =~= sc_views(self.messages@).push(self.r@));
        }
        exponents
    }

    /// Emits a serialized Schnorr proof that `C` opens to the messages
    /// and blinding under the bases `(ck_1..ck_ℓ, g)`.
    pub fn prove(self, rng: &mut SeedRng) -> (out: Result<Vec<u8>, CommitmentError>)
        requires
            self.messages@.len() == self.ck.ck@.len(),
        ensures
            out is Ok,
            out matches Ok(b) ==> exists|p: CommitmentProof|
                b@ == proof_wire(p) && p.commitment@ == self.cm@ && g1_views(p.bases@)
                    == g1_views(self.ck.ck@).push(self.ck.g@),
    {
        let (bases, _bases_tilde) = self.ck.get_bases();
        let schnorr_commitment = SchnorrProtocol::commit(&bases, rng);
        let challenge = rng.next_scalar();
        let exponents = self.get_exponents();
        let responses = SchnorrProtocol::prove(&schnorr_commitment, &exponents, &challenge);
        let p = CommitmentProof {
            commitment: self.cm,
            schnorr_commitment: schnorr_commitment.commited_blindings,
            bases,
            challenge,
            responses: responses.0,
        };
        let out = serialize_proof(&p);
        proof {
            assert(out@ == proof_wire(p) && p.commitment@ == p.commitment@ && g1_views(p.bases@)
                == g1_views(p.bases@));
        }
        Ok(out)
    }

    /// Checks a serialized opening proof: parses it and decides the
    /// Schnorr equation it carries. Bytes off the wire shape — and only
    /// those — are a serialization error; on parseable bytes the answer
    /// is exactly the equation the wire carries.
    pub fn verify(serialized_proof: &Vec<u8>) -> (out: Result<bool, CommitmentError>)
        ensures
            (out is Err) <==> !crate::commitment::proof_wire_ok(serialized_proof@),
            out is Err ==> out matches Err(CommitmentError::SerializationError),
            out matches Ok(v) ==> v == crate::commitment::wire_equation(serialized_proof@),
    {
        crate::commitment::Commitment::verify(serialized_proof)
    }
}

impl Clone for SymmetricCommitment {
    fn clone(&self) -> (out: Self)
        ensures
            out.cm@ == self.cm@,
            out.cm_tilde@ == self.cm_tilde@,
            out.r@ == self.r@,
            out.r.val() == self.r.val(),
            key_eq(out.ck, self.ck),
            sc_views(out.messages@) == sc_views(self.messages@),
            out.messages@.len() == self.messages@.len(),
    {
        let kept = copy_scalars(&self.messages);
        let kept_r = self.r.clone();
        proof {
            use_type_invariant(&self.r);
            use_type_invariant(&kept_r);
            assert(sc_views(kept@) =~= sc_views(self.messages@));
        }
        SymmetricCommitment {
            ck: self.ck.clone(),
            messages: kept,
            r: kept_r,
            cm: self.cm.clone(),
            cm_tilde: self.cm_tilde.clone(),
        }
    }
}

} // verus!
