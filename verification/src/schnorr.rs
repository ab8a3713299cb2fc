//! The multi-base Schnorr Σ-protocol: commit to random blindings, respond
//! to a challenge, and check the linear verification equation. The
//! verifier's contract states the equation itself, over the named group
//! operations, so what "verifies" means is pinned down exactly.

use crate::group::{g1_add, g1_add_of, g1_msm, g1_msm_of, g1_mul, g1_mul_of, g1_views, g2_add,
    g2_add_of, g2_msm, g2_msm_of, g2_mul, g2_mul_of, g2_views, sc_views, G1Elem, G2Elem};
use crate::rng::SeedRng;
use crate::scalar::{copy_scalars, fr_add, fr_mul, fr_order, fr_reduce, Scalar};
use vstd::arithmetic::div_mod::lemma_add_mod_noop_right;
use vstd::prelude::*;

verus! {

/// The prover's first message: the blindings it drew and their
/// multi-base commitment `T`.
pub struct SchnorrCommitment {
    pub random_blindings: Vec<Scalar>,
    pub commited_blindings: G1Elem,
}

/// The prover's responses `z_j = ρ_j + c·w_j`.
pub struct SchnorrResponses(pub Vec<Scalar>);

/// The `G2` form of the first message.
pub struct SchnorrCommitmentG2 {
    pub random_blindings: Vec<Scalar>,
    pub commited_blindings: G2Elem,
}

/// What each response says: `z_j` is the blinding plus challenge times
/// witness, in the field.
pub open spec fn responses_match(
    blindings: Seq<Scalar>,
    witnesses: Seq<Scalar>,
    challenge: Scalar,
    zs: Seq<Scalar>,
) -> bool {
    &&& zs.len() == blindings.len()
    &&& forall|j: int|
        0 <= j < zs.len() ==> (#[trigger] zs[j]).val() == fr_reduce(
            (blindings[j].val() + witnesses[j].val() * challenge.val()) as int,
        )
}

pub struct SchnorrProtocol;

impl SchnorrProtocol {
    /// Draws one blinding per base and commits to them:
    /// `T = Σ_j ρ_j · B_j`.
    pub fn commit(public_generators: &Vec<G1Elem>, rng: &mut SeedRng) -> (r: SchnorrCommitment)
        ensures
            r.random_blindings@.len() == public_generators@.len(),
            r.commited_blindings@ == g1_msm_of(
                g1_views(public_generators@),
                sc_views(r.random_blindings@),
            ),
    {
        let mut random_blindings: Vec<Scalar> = Vec::new();
        while random_blindings.len() < public_generators.len()
            invariant
                random_blindings@.len() <= public_generators@.len(),
            decreases public_generators@.len() - random_blindings@.len(),
        {
            random_blindings.push(rng.next_scalar());
        }
        let commited_blindings = g1_msm(public_generators, &random_blindings);
        SchnorrCommitment { random_blindings, commited_blindings }
    }

    /// Commits to blindings the caller prepared.
    pub fn commit_with_prepared_blindings(
        public_generators: &Vec<G1Elem>,
        random_blindings: &Vec<Scalar>,
    ) -> (r: SchnorrCommitment)
        requires
            public_generators@.len() == random_blindings@.len(),
        ensures
            sc_views(r.random_blindings@) == sc_views(random_blindings@),
            r.random_blindings@.len() == random_blindings@.len(),
            forall|j: int|
                0 <= j < random_blindings@.len() ==> (#[trigger] r.random_blindings@[j]).val()
                    == random_blindings@[j].val(),
            r.commited_blindings@ == g1_msm_of(
                g1_views(public_generators@),
                sc_views(random_blindings@),
            ),
    {
        let kept = copy_scalars(random_blindings);
        let commited_blindings = g1_msm(public_generators, &kept);
        proof {
            assert(sc_views(kept@) =~= sc_views(random_blindings@));
        }
        SchnorrCommitment { random_blindings: kept, commited_blindings }
    }

    /// Commits with the first blinding fixed to a caller-supplied value,
    /// so a parallel proof can share it; the rest are drawn fresh.
    pub fn commit_equality(
        public_generators: &Vec<G1Elem>,
        rng: &mut SeedRng,
        equal_blindness: &Scalar,
        index: usize,
    ) -> (r: SchnorrCommitment)
        requires
            public_generators@.len() >= 1,
        ensures
            r.random_blindings@.len() == public_generators@.len(),
            r.random_blindings@[0].val() == equal_blindness.val(),
            r.commited_blindings@ == g1_msm_of(
                g1_views(public_generators@),
                sc_views(r.random_blindings@),
            ),
    {
        let _ = index;
        let mut random_blindings: Vec<Scalar> = Vec::new();
        let head = equal_blindness.clone();
        proof {
            use_type_invariant(equal_blindness);
            use_type_invariant(&head);
        }
        random_blindings.push(head);
        while random_blindings.len() < public_generators.len()
            invariant
                1 <= random_blindings@.len() <= public_generators@.len(),
                random_blindings@[0].val() == equal_blindness.val(),
            decreases public_generators@.len() - random_blindings@.len(),
        {
            random_blindings.push(rng.next_scalar());
        }
        let commited_blindings = g1_msm(public_generators, &random_blindings);
        SchnorrCommitment { random_blindings, commited_blindings }
    }

    /// Computes the responses `z_j = ρ_j + c·w_j`.
    pub fn prove(
        commitment: &SchnorrCommitment,
        witnesses: &Vec<Scalar>,
        challenge: &Scalar,
    ) -> (r: SchnorrResponses)
        requires
            witnesses@.len() == commitment.random_blindings@.len(),
        ensures
            responses_match(commitment.random_blindings@, witnesses@, *challenge, r.0@),
    {
        let mut zs: Vec<Scalar> = Vec::new();
        let mut j: usize = 0;
        while j < witnesses.len()
            invariant
                j <= witnesses@.len(),
                witnesses@.len() == commitment.random_blindings@.len(),
                zs@.len() == j,
                forall|k: int|
                    0 <= k < j ==> (#[trigger] zs@[k]).val() == fr_reduce(
                        (commitment.random_blindings@[k].val() + witnesses@[k].val()
                            * challenge.val()) as int,
                    ),
            decreases witnesses@.len() - j,
        {
            let w = &witnesses[j];
            let b = &commitment.random_blindings[j];
            let t = fr_mul(w, challenge);
            let z = fr_add(b, &t);
            proof {
                let m = fr_order() as int;
                let wv = w.val() as int;
                let cv = challenge.val() as int;
                let bv = b.val() as int;
                // (b + (w·c) mod m) mod m == (b + w·c) mod m
                lemma_add_mod_noop_right(bv, wv * cv, m);
            }
            zs.push(z);
            j += 1;
        }
        SchnorrResponses(zs)
    }

    /// The verification equation over a prover-supplied commitment
    /// structure: `Σ_j z_j·B_j == T + c·P`, decided by comparing
    /// canonical bytes.
    pub fn verify(
        public_generators: &Vec<G1Elem>,
        statement: &G1Elem,
        blinding_commitment: &SchnorrCommitment,
        schnorr_responses: &SchnorrResponses,
        challenge: &Scalar,
    ) -> (r: bool)
        ensures
            r == (public_generators@.len() == schnorr_responses.0@.len() && g1_msm_of(
                g1_views(public_generators@),
                sc_views(schnorr_responses.0@),
            ) == g1_add_of(
                blinding_commitment.commited_blindings@,
                g1_mul_of(statement@, challenge@),
            )),
    {
        Self::verify_schnorr(
            public_generators,
            statement,
            &blinding_commitment.commited_blindings,
            &schnorr_responses.0,
            challenge,
        )
    }

    /// The verification equation with the commitment `T` given as a bare
    /// point: `Σ_j z_j·B_j == T + c·P`.
    pub fn verify_schnorr(
        public_generators: &Vec<G1Elem>,
        statement: &G1Elem,
        schnorr_commitment: &G1Elem,
        schnorr_responses: &Vec<Scalar>,
        challenge: &Scalar,
    ) -> (r: bool)
        ensures
            r == (public_generators@.len() == schnorr_responses@.len() && g1_msm_of(
                g1_views(public_generators@),
                sc_views(schnorr_responses@),
            ) == g1_add_of(schnorr_commitment@, g1_mul_of(statement@, challenge@))),
    {
        if public_generators.len() != schnorr_responses.len() {
            return false;
        }
        let lhs = g1_msm(public_generators, schnorr_responses);
        let rhs = g1_add(schnorr_commitment, &g1_mul(statement, challenge));
        lhs.equals(&rhs)
    }

    /// The `G2` form of `commit`.
    pub fn commit_g2(public_generators: &Vec<G2Elem>, rng: &mut SeedRng) -> (r:
        SchnorrCommitmentG2)
        ensures
            r.random_blindings@.len() == public_generators@.len(),
            r.commited_blindings@ == g2_msm_of(
                g2_views(public_generators@),
                sc_views(r.random_blindings@),
            ),
    {
        let mut random_blindings: Vec<Scalar> = Vec::new();
        while random_blindings.len() < public_generators.len()
            invariant
                random_blindings@.len() <= public_generators@.len(),
            decreases public_generators@.len() - random_blindings@.len(),
        {
            random_blindings.push(rng.next_scalar());
        }
        let commited_blindings = g2_msm(public_generators, &random_blindings);
        SchnorrCommitmentG2 { random_blindings, commited_blindings }
    }

    /// The responses for a `G2` commitment's blindings:
    /// `z_j = ρ_j + c·w_j`.
    pub fn prove_g2_responses(
        commitment: &SchnorrCommitmentG2,
        witnesses: &Vec<Scalar>,
        challenge: &Scalar,
    ) -> (r: SchnorrResponses)
        requires
            witnesses@.len() == commitment.random_blindings@.len(),
        ensures
            responses_match(commitment.random_blindings@, witnesses@, *challenge, r.0@),
    {
        let mut zs: Vec<Scalar> = Vec::new();
        let mut j: usize = 0;
        while j < witnesses.len()
            invariant
                j <= witnesses@.len(),
                witnesses@.len() == commitment.random_blindings@.len(),
                zs@.len() == j,
                forall|k: int|
                    0 <= k < j ==> (#[trigger] zs@[k]).val() == fr_reduce(
                        (commitment.random_blindings@[k].val() + witnesses@[k].val()
                            * challenge.val()) as int,
                    ),
            decreases witnesses@.len() - j,
        {
            let w = &witnesses[j];
            let b = &commitment.random_blindings[j];
            let t = fr_mul(w, challenge);
            let z = fr_add(b, &t);
            proof {
                let m = fr_order() as int;
                let wv = w.val() as int;
                let cv = challenge.val() as int;
                let bv = b.val() as int;
                lemma_add_mod_noop_right(bv, wv * cv, m);
            }
            zs.push(z);
            j += 1;
        }
        SchnorrResponses(zs)
    }

    /// The `G2` form of the verification equation.
    pub fn verify_g2(
        public_generators: &Vec<G2Elem>,
        statement: &G2Elem,
        blinding_commitment: &SchnorrCommitmentG2,
        schnorr_responses: &SchnorrResponses,
        challenge: &Scalar,
    ) -> (r: bool)
        ensures
            r == (public_generators@.len() == schnorr_responses.0@.len() && g2_msm_of(
                g2_views(public_generators@),
                sc_views(schnorr_responses.0@),
            ) == g2_add_of(
                blinding_commitment.commited_blindings@,
                g2_mul_of(statement@, challenge@),
            )),
    {
        if public_generators.len() != schnorr_responses.0.len() {
            return false;
        }
        let lhs = g2_msm(public_generators, &schnorr_responses.0);
        let rhs = g2_add(
            &blinding_commitment.commited_blindings,
            &g2_mul(statement, challenge),
        );
        lhs.equals(&rhs)
    }
}

} // verus!
