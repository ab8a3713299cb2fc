//! Batch verification of serialized Schnorr opening proofs: one random
//! weight per proof collapses all verification equations into a single
//! comparison of two multi-scalar multiplications. The weighted
//! decision itself is deterministic — a public function takes the
//! weights and its result equals the combined equation over the inputs'
//! own wire windows; the randomized entry point draws nonzero weights
//! and hands them to it.

use crate::bytes::le_val;
use crate::commitment::{
    parse_proof, proof_wire_ok, wire_bases, wire_blinding_commitment, wire_challenge,
    wire_counts_match, wire_nz, wire_responses, wire_statement, CommitmentProof,
};
use crate::errors::CommitmentError;
use crate::group::{g1_msm, g1_msm_of, g1_views, sc_views, G1Elem};
use crate::rng::SeedRng;
use crate::scalar::{fr_bytes, fr_mul, fr_reduce, lemma_canonical_bytes, Scalar};
use vstd::prelude::*;

verus! {

/// Every input parses and carries matching base and response counts.
pub open spec fn batch_inputs_ok(inputs: Seq<Vec<u8>>) -> bool {
    &&& (forall|i: int| 0 <= i < inputs.len() ==> proof_wire_ok((#[trigger] inputs[i])@))
    &&& (forall|i: int| 0 <= i < inputs.len() ==> wire_counts_match((#[trigger] inputs[i])@))
}

/// One input's response windows, each scaled by that input's weight.
pub open spec fn scaled_wire_responses(b: Seq<u8>, alpha: Scalar) -> Seq<Seq<u8>> {
    Seq::new(
        wire_nz(b) as nat,
        |j: int| fr_bytes(fr_reduce((le_val(wire_responses(b)[j]) * alpha.val()) as int)),
    )
}

/// All base windows of the inputs, in order.
pub open spec fn batch_lhs_bases(inputs: Seq<Vec<u8>>) -> Seq<Seq<u8>>
    decreases inputs.len(),
{
    if inputs.len() == 0 {
        Seq::empty()
    } else {
        batch_lhs_bases(inputs.drop_last()) + wire_bases(inputs.last()@)
    }
}

/// All scaled response windows of the inputs, in order.
pub open spec fn batch_lhs_scalars(inputs: Seq<Vec<u8>>, alphas: Seq<Scalar>) -> Seq<Seq<u8>>
    decreases inputs.len(),
{
    if inputs.len() == 0 {
        Seq::empty()
    } else {
        batch_lhs_scalars(inputs.drop_last(), alphas.drop_last()) + scaled_wire_responses(
            inputs.last()@,
            alphas.last(),
        )
    }
}

/// The right side's bases: each input's `T` and `C` windows.
pub open spec fn batch_rhs_bases(inputs: Seq<Vec<u8>>) -> Seq<Seq<u8>>
    decreases inputs.len(),
{
    if inputs.len() == 0 {
        Seq::empty()
    } else {
        batch_rhs_bases(inputs.drop_last()) + seq![
            wire_blinding_commitment(inputs.last()@),
            wire_statement(inputs.last()@),
        ]
    }
}

/// The right side's scalars: each input's weight and weight times its
/// challenge window.
pub open spec fn batch_rhs_scalars(inputs: Seq<Vec<u8>>, alphas: Seq<Scalar>) -> Seq<Seq<u8>>
    decreases inputs.len(),
{
    if inputs.len() == 0 {
        Seq::empty()
    } else {
        batch_rhs_scalars(inputs.drop_last(), alphas.drop_last()) + seq![
            alphas.last()@,
            fr_bytes(
                fr_reduce(
                    (alphas.last().val() * le_val(wire_challenge(inputs.last()@))) as int,
                ),
            ),
        ]
    }
}

/// The one weighted equation the batch decides for given weights.
pub open spec fn batch_equation(inputs: Seq<Vec<u8>>, alphas: Seq<Scalar>) -> bool {
    g1_msm_of(batch_lhs_bases(inputs), batch_lhs_scalars(inputs, alphas)) == g1_msm_of(
        batch_rhs_bases(inputs),
        batch_rhs_scalars(inputs, alphas),
    )
}

/// What the randomized batch check reports: the weighted equation for
/// some choice of nonzero weights, one per input.
pub open spec fn batch_outcome(inputs: Seq<Vec<u8>>, v: bool) -> bool {
    exists|alphas: Seq<Scalar>|
        {
            &&& alphas.len() == inputs.len()
            &&& (forall|k: int| 0 <= k < alphas.len() ==> (#[trigger] alphas[k]).val() != 0)
            &&& v == batch_equation(inputs, alphas)
        }
}

/// Decides the batch for caller-supplied weights: parses every input
/// (any unparseable input — and only that — is a serialization error;
/// with everything parseable, a count mismatch — and only that — is an
/// invalid proof), then compares the two combined multi-scalar
/// multiplications. The answer equals the weighted equation over the
/// inputs' own wire windows for exactly these weights.
pub fn batch_verify_with_weights(
    serialized_proofs: &Vec<Vec<u8>>,
    weights: &Vec<Scalar>,
) -> (r: Result<bool, CommitmentError>)
    requires
        weights@.len() == serialized_proofs@.len(),
    ensures
        (r matches Err(CommitmentError::SerializationError)) <==> exists|i: int|
            0 <= i < serialized_proofs@.len() && !proof_wire_ok((#[trigger] serialized_proofs@[i])@),
        (r matches Err(CommitmentError::InvalidProof)) <==> ((forall|i: int|
            0 <= i < serialized_proofs@.len() ==> proof_wire_ok((#[trigger] serialized_proofs@[i])@))
            && exists|i: int|
            0 <= i < serialized_proofs@.len() && !wire_counts_match(
                (#[trigger] serialized_proofs@[i])@,
            )),
        (r is Ok) <==> batch_inputs_ok(serialized_proofs@),
        r matches Ok(v) ==> v == batch_equation(serialized_proofs@, weights@),
        r is Err ==> (r matches Err(CommitmentError::SerializationError) || r matches Err(
            CommitmentError::InvalidProof,
        )),
{
    let n = serialized_proofs.len();

    // parse everything first: an unparseable input decides the error
    let mut proofs: Vec<CommitmentProof> = Vec::new();
    let mut i: usize = 0;
    while i < n
        invariant
            i <= n,
            n == serialized_proofs@.len(),
            proofs@.len() == i,
            forall|k: int|
                0 <= k < i ==> proof_wire_ok((#[trigger] serialized_proofs@[k])@),
            forall|k: int|
                0 <= k < i ==> g1_views((#[trigger] proofs@[k]).bases@) == wire_bases(
                    serialized_proofs@[k]@,
                ) && sc_views(proofs@[k].responses@) == wire_responses(serialized_proofs@[k]@)
                    && proofs@[k].bases@.len() == crate::commitment::wire_nb(
                    serialized_proofs@[k]@,
                ) && proofs@[k].responses@.len() == wire_nz(serialized_proofs@[k]@)
                    && proofs@[k].schnorr_commitment@ == wire_blinding_commitment(
                    serialized_proofs@[k]@,
                ) && proofs@[k].commitment@ == wire_statement(serialized_proofs@[k]@)
                    && proofs@[k].challenge@ == wire_challenge(serialized_proofs@[k]@),
        decreases n - i,
    {
        let p = match parse_proof(&serialized_proofs[i]) {
            Some(p) => p,
            None => { return Err(CommitmentError::SerializationError); },
        };
        proofs.push(p);
        i += 1;
    }

    // with everything parseable, mismatched counts decide the error
    let mut i: usize = 0;
    while i < n
        invariant
            i <= n,
            n == serialized_proofs@.len(),
            proofs@.len() == n,
            forall|k: int|
                0 <= k < n ==> proof_wire_ok((#[trigger] serialized_proofs@[k])@),
            forall|k: int|
                0 <= k < n ==> g1_views((#[trigger] proofs@[k]).bases@) == wire_bases(
                    serialized_proofs@[k]@,
                ) && sc_views(proofs@[k].responses@) == wire_responses(serialized_proofs@[k]@)
                    && proofs@[k].bases@.len() == crate::commitment::wire_nb(
                    serialized_proofs@[k]@,
                ) && proofs@[k].responses@.len() == wire_nz(serialized_proofs@[k]@)
                    && proofs@[k].schnorr_commitment@ == wire_blinding_commitment(
                    serialized_proofs@[k]@,
                ) && proofs@[k].commitment@ == wire_statement(serialized_proofs@[k]@)
                    && proofs@[k].challenge@ == wire_challenge(serialized_proofs@[k]@),
            forall|k: int|
                0 <= k < i ==> wire_counts_match((#[trigger] serialized_proofs@[k])@),
        decreases n - i,
    {
        let p = &proofs[i];
        if p.responses.len() != p.bases.len() {
            return Err(CommitmentError::InvalidProof);
        }
        i += 1;
    }

    let mut all_bases: Vec<G1Elem> = Vec::new();
    let mut all_scalars: Vec<Scalar> = Vec::new();
    let mut i: usize = 0;
    while i < n
        invariant
            i <= n,
            n == serialized_proofs@.len(),
            n == weights@.len(),
            proofs@.len() == n,
            forall|k: int|
                0 <= k < n ==> g1_views((#[trigger] proofs@[k]).bases@) == wire_bases(
                    serialized_proofs@[k]@,
                ) && sc_views(proofs@[k].responses@) == wire_responses(serialized_proofs@[k]@)
                    && proofs@[k].responses@.len() == wire_nz(serialized_proofs@[k]@)
                    && proofs@[k].responses@.len() == proofs@[k].bases@.len(),
            g1_views(all_bases@) == batch_lhs_bases(serialized_proofs@.take(i as int)),
            sc_views(all_scalars@) == batch_lhs_scalars(
                serialized_proofs@.take(i as int),
                weights@.take(i as int),
            ),
            all_bases@.len() == all_scalars@.len(),
        decreases n - i,
    {
        let p = &proofs[i];
        let alpha = &weights[i];
        let ghost bw = serialized_proofs@[i as int]@;
        let ghost base_snapshot = g1_views(all_bases@);
        let ghost scalar_snapshot = sc_views(all_scalars@);
        let mut j: usize = 0;
        while j < p.bases.len()
            invariant
                j <= p.bases@.len(),
                p == &proofs@[i as int],
                alpha == &weights@[i as int],
                bw == serialized_proofs@[i as int]@,
                g1_views(p.bases@) == wire_bases(bw),
                sc_views(p.responses@) == wire_responses(bw),
                p.responses@.len() == wire_nz(bw),
                p.bases@.len() == wire_bases(bw).len(),
                p.responses@.len() == p.bases@.len(),
                g1_views(all_bases@) == base_snapshot + wire_bases(bw).take(j as int),
                sc_views(all_scalars@) == scalar_snapshot + scaled_wire_responses(
                    bw,
                    *alpha,
                ).take(j as int),
                all_bases@.len() == all_scalars@.len(),
            decreases p.bases@.len() - j,
        {
            let b = p.bases[j].clone();
            let zr = &p.responses[j];
            let z = fr_mul(zr, alpha);
            proof {
                use_type_invariant(zr);
                use_type_invariant(&z);
                lemma_canonical_bytes(z@, z.val());
                assert(zr.val() == le_val(wire_responses(bw)[j as int]));
                assert(g1_views(all_bases@.push(b)) =~= g1_views(all_bases@).push(b@));
                assert(b@ == wire_bases(bw)[j as int]);
                assert(base_snapshot + wire_bases(bw).take(j as int + 1) =~= (base_snapshot
                    + wire_bases(bw).take(j as int)).push(wire_bases(bw)[j as int]));
                assert(sc_views(all_scalars@.push(z)) =~= sc_views(all_scalars@).push(z@));
                assert(z@ == scaled_wire_responses(bw, *alpha)[j as int]);
                assert(scalar_snapshot + scaled_wire_responses(bw, *alpha).take(j as int + 1)
                    =~= (scalar_snapshot + scaled_wire_responses(bw, *alpha).take(j as int)).push(
                    scaled_wire_responses(bw, *alpha)[j as int],
                ));
            }
            all_bases.push(b);
            all_scalars.push(z);
            j += 1;
        }
        proof {
            let st = serialized_proofs@.take(i as int + 1);
            assert(st.drop_last() =~= serialized_proofs@.take(i as int));
            assert(weights@.take(i as int + 1).drop_last() =~= weights@.take(i as int));
            assert(st.last() == serialized_proofs@[i as int]);
            assert(weights@.take(i as int + 1).last() == weights@[i as int]);
            assert(wire_bases(bw).take(p.bases@.len() as int) =~= wire_bases(bw));
            assert(scaled_wire_responses(bw, *alpha).take(p.bases@.len() as int)
                =~= scaled_wire_responses(bw, *alpha));
        }
        i += 1;
    }

    let mut rhs_bases: Vec<G1Elem> = Vec::new();
    let mut rhs_scalars: Vec<Scalar> = Vec::new();
    let mut i: usize = 0;
    while i < n
        invariant
            i <= n,
            n == serialized_proofs@.len(),
            n == weights@.len(),
            proofs@.len() == n,
            forall|k: int|
                0 <= k < n ==> (#[trigger] proofs@[k]).schnorr_commitment@
                    == wire_blinding_commitment(serialized_proofs@[k]@) && proofs@[k].commitment@
                    == wire_statement(serialized_proofs@[k]@) && proofs@[k].challenge@
                    == wire_challenge(serialized_proofs@[k]@),
            g1_views(rhs_bases@) == batch_rhs_bases(serialized_proofs@.take(i as int)),
            sc_views(rhs_scalars@) == batch_rhs_scalars(
                serialized_proofs@.take(i as int),
                weights@.take(i as int),
            ),
            rhs_bases@.len() == rhs_scalars@.len(),
        decreases n - i,
    {
        let p = &proofs[i];
        let alpha = &weights[i];
        let ghost bw = serialized_proofs@[i as int]@;
        let t = p.schnorr_commitment.clone();
        let c = p.commitment.clone();
        let a1 = alpha.clone();
        proof {
            use_type_invariant(alpha);
            use_type_invariant(&a1);
        }
        let a2 = fr_mul(alpha, &p.challenge);
        proof {
            use_type_invariant(&p.challenge);
            use_type_invariant(&a2);
            lemma_canonical_bytes(a2@, a2.val());
            assert(p.challenge.val() == le_val(wire_challenge(bw)));
            let st = serialized_proofs@.take(i as int + 1);
            assert(st.drop_last() =~= serialized_proofs@.take(i as int));
            assert(weights@.take(i as int + 1).drop_last() =~= weights@.take(i as int));
            assert(st.last() == serialized_proofs@[i as int]);
            assert(weights@.take(i as int + 1).last() == weights@[i as int]);
            assert(g1_views(rhs_bases@.push(t).push(c)) =~= g1_views(rhs_bases@) + seq![
                wire_blinding_commitment(bw),
                wire_statement(bw),
            ]);
            assert(sc_views(rhs_scalars@.push(a1).push(a2)) =~= sc_views(rhs_scalars@) + seq![
                weights@[i as int]@,
                fr_bytes(
                    fr_reduce((weights@[i as int].val() * le_val(wire_challenge(bw))) as int),
                ),
            ]);
        }
        rhs_bases.push(t);
        rhs_bases.push(c);
        rhs_scalars.push(a1);
        rhs_scalars.push(a2);
        i += 1;
    }
    proof {
        assert(serialized_proofs@.take(n as int) =~= serialized_proofs@);
        assert(weights@.take(n as int) =~= weights@);
    }
    let lhs = g1_msm(&all_bases, &all_scalars);
    let rhs = g1_msm(&rhs_bases, &rhs_scalars);
    let v = lhs.equals(&rhs);
    Ok(v)
}

/// Checks all serialized proofs at once: draws one nonzero random
/// weight per proof and decides the weighted equation for that draw.
/// An empty batch verifies; the parse and count errors are those of
/// the weighted decision.
pub fn batch_verify(serialized_proofs: &Vec<Vec<u8>>, rng: &mut SeedRng) -> (r: Result<
    bool,
    CommitmentError,
>)
    ensures
        serialized_proofs@.len() == 0 ==> (r matches Ok(v) && v == true),
        (r matches Err(CommitmentError::SerializationError)) <==> exists|i: int|
            0 <= i < serialized_proofs@.len() && !proof_wire_ok((#[trigger] serialized_proofs@[i])@),
        (r matches Err(CommitmentError::InvalidProof)) <==> ((forall|i: int|
            0 <= i < serialized_proofs@.len() ==> proof_wire_ok((#[trigger] serialized_proofs@[i])@))
            && exists|i: int|
            0 <= i < serialized_proofs@.len() && !wire_counts_match(
                (#[trigger] serialized_proofs@[i])@,
            )),
        (r is Ok) <==> batch_inputs_ok(serialized_proofs@),
        r matches Ok(v) ==> batch_outcome(serialized_proofs@, v),
        r is Err ==> (r matches Err(CommitmentError::SerializationError) || r matches Err(
            CommitmentError::InvalidProof,
        )),
{
    let n = serialized_proofs.len();
    let mut weights: Vec<Scalar> = Vec::new();
    while weights.len() < n
        invariant
            weights@.len() <= n,
            forall|k: int| 0 <= k < weights@.len() ==> (#[trigger] weights@[k]).val() != 0,
        decreases n - weights@.len(),
    {
        weights.push(rng.next_scalar_nonzero());
    }
    let r = batch_verify_with_weights(serialized_proofs, &weights);
    proof {
        match r {
            Ok(v) => {
                assert(batch_outcome(serialized_proofs@, v)) by {
                    assert(weights@.len() == serialized_proofs@.len() && (forall|k: int|
                        0 <= k < weights@.len() ==> (#[trigger] weights@[k]).val() != 0) && v
                        == batch_equation(serialized_proofs@, weights@));
                }
            },
            Err(_) => {},
        }
    }
    r
}

/// The same weighted decision, kept under the name of the earlier,
/// slower batch path; both report the one combined comparison.
pub fn batch_verify_old(serialized_proofs: &Vec<Vec<u8>>, rng: &mut SeedRng) -> (r: Result<
    bool,
    CommitmentError,
>)
    ensures
        serialized_proofs@.len() == 0 ==> (r matches Ok(v) && v == true),
        (r is Ok) <==> batch_inputs_ok(serialized_proofs@),
        r matches Ok(v) ==> batch_outcome(serialized_proofs@, v),
        r is Err ==> (r matches Err(CommitmentError::SerializationError) || r matches Err(
            CommitmentError::InvalidProof,
        )),
{
    batch_verify(serialized_proofs, rng)
}

} // verus!
