//! A private pairing-free VRF used as a nullifier: the holder of a
//! committed secret key evaluates `y = (1/(sk + x))·g` on a committed
//! input and proves, by a Σ-protocol over both commitments, that the
//! output is well formed without revealing `sk` or `x`.

use crate::group::{g1_add, g1_add_of, g1_mul, g1_mul_of, G1Elem};
use crate::rng::SeedRng;
use crate::scalar::{
    fr_add, fr_bytes, fr_inv_val, fr_inverse, fr_mul, fr_order, fr_reduce, lemma_canonical_bytes,
    lemma_inv_val_of, Scalar,
};
use vstd::arithmetic::div_mod::{lemma_add_mod_noop_right, lemma_mul_mod_noop_right};
use vstd::prelude::*;

verus! {

/// The committed input: the value and its commitment randomness.
pub struct DYPFPrivVRFInput {
    pub x: Scalar,
    pub r_x: Scalar,
}

/// The full witness: secret key, input, and both blindings.
pub struct DYPFPrivVRFWitness {
    pub sk: Scalar,
    pub r_sk: Scalar,
    pub x: Scalar,
    pub r_x: Scalar,
}

/// The public commitments to the secret key and the input.
pub struct DYPFPrivPublicKey {
    pub cm_sk: G1Elem,
    pub cm_x: G1Elem,
}

/// The secret key and its commitment randomness.
pub struct DYPFPrivSecretKey {
    pub sk: Scalar,
    pub r_sk: Scalar,
}

/// The VRF output `y = (1/(sk+x))·g`.
pub struct DYPFPrivVRFOutput {
    pub y: G1Elem,
}

/// The Σ-proof linking both commitments to the output.
pub struct DYPFPrivVRFProof {
    pub t1: G1Elem,
    pub t2: G1Elem,
    pub ty: G1Elem,
    pub z_sk: Scalar,
    pub z_x: Scalar,
    pub z_r_sk: Scalar,
    pub z_r_x: Scalar,
    pub z_m: Scalar,
}

/// The three public generators.
pub struct DYPFPrivVRFPublicParams {
    pub g: G1Elem,
    pub g1: G1Elem,
    pub g2: G1Elem,
}

/// The VRF with its public parameters.
pub struct DYPFPrivVRF {
    pub pp: DYPFPrivVRFPublicParams,
}

/// A two-base commitment `a·p + b·q`.
pub open spec fn pedersen_of(p: Seq<u8>, a: Seq<u8>, q: Seq<u8>, b: Seq<u8>) -> Seq<u8> {
    g1_add_of(g1_mul_of(p, a), g1_mul_of(q, b))
}

/// What an honestly produced proof holds, given the blinding draws and
/// the challenge.
pub open spec fn vrf_proof_rel(
    pp: DYPFPrivVRFPublicParams,
    w: DYPFPrivVRFWitness,
    out: DYPFPrivVRFOutput,
    pf: DYPFPrivVRFProof,
    a_sk: Scalar,
    a_x: Scalar,
    a_r_sk: Scalar,
    a_r_x: Scalar,
    c: Scalar,
) -> bool {
    &&& pf.t1@ == pedersen_of(pp.g1@, a_sk@, pp.g@, a_r_sk@)
    &&& pf.t2@ == pedersen_of(pp.g2@, a_x@, pp.g@, a_r_x@)
    &&& pf.ty@ == g1_mul_of(out.y@, fr_bytes(fr_reduce((a_sk.val() + a_x.val()) as int)))
    &&& pf.z_sk.val() == fr_reduce((a_sk.val() + c.val() * w.sk.val()) as int)
    &&& pf.z_x.val() == fr_reduce((a_x.val() + c.val() * w.x.val()) as int)
    &&& pf.z_r_sk.val() == fr_reduce((a_r_sk.val() + c.val() * w.r_sk.val()) as int)
    &&& pf.z_r_x.val() == fr_reduce((a_r_x.val() + c.val() * w.r_x.val()) as int)
    &&& pf.z_m.val() == fr_reduce(
        (a_sk.val() + a_x.val() + c.val() * (w.sk.val() + w.x.val())) as int,
    )
}

/// The verifier's four equations, over canonical bytes and field values.
pub open spec fn vrf_verifies(
    pp: DYPFPrivVRFPublicParams,
    pk: DYPFPrivPublicKey,
    out: DYPFPrivVRFOutput,
    pf: DYPFPrivVRFProof,
    c: Scalar,
) -> bool {
    &&& g1_add_of(pf.t1@, g1_mul_of(pk.cm_sk@, c@)) == pedersen_of(
        pp.g1@,
        pf.z_sk@,
        pp.g@,
        pf.z_r_sk@,
    )
    &&& g1_add_of(pf.t2@, g1_mul_of(pk.cm_x@, c@)) == pedersen_of(
        pp.g2@,
        pf.z_x@,
        pp.g@,
        pf.z_r_x@,
    )
    &&& g1_add_of(pf.ty@, g1_mul_of(pp.g@, c@)) == g1_mul_of(out.y@, pf.z_m@)
    &&& pf.z_m.val() == fr_reduce((pf.z_sk.val() + pf.z_x.val()) as int)
}

impl DYPFPrivVRF {
    /// Draws three random generators.
    pub fn new(rng: &mut SeedRng) -> (r: DYPFPrivVRF) {
        let g = rng.next_g1();
        let g1 = rng.next_g1();
        let g2 = rng.next_g1();
        DYPFPrivVRF { pp: DYPFPrivVRFPublicParams { g, g1, g2 } }
    }

    /// Uses the given generators.
    pub fn new_with_generators(g: G1Elem, g1: G1Elem, g2: G1Elem) -> (r: DYPFPrivVRF)
        ensures
            r.pp.g@ == g@,
            r.pp.g1@ == g1@,
            r.pp.g2@ == g2@,
    {
        DYPFPrivVRF { pp: DYPFPrivVRFPublicParams { g, g1, g2 } }
    }

    /// Samples a secret key with its commitment `sk·g₁ + r_sk·g`; the
    /// input commitment starts at the zero point.
    pub fn generate_keys(&self, rng: &mut SeedRng) -> (r: (DYPFPrivSecretKey, DYPFPrivPublicKey))
        ensures
            r.1.cm_sk@ == pedersen_of(self.pp.g1@, r.0.sk@, self.pp.g@, r.0.r_sk@),
    {
        let sk = rng.next_scalar();
        let r_sk = rng.next_scalar();
        let cm_sk = g1_add(&g1_mul(&self.pp.g1, &sk), &g1_mul(&self.pp.g, &r_sk));
        let zero = Scalar::zero();
        let cm_x = g1_mul(&self.pp.g, &zero);
        let out = (DYPFPrivSecretKey { sk, r_sk }, DYPFPrivPublicKey { cm_sk, cm_x });
        proof {
            assert(out.1.cm_sk@ == pedersen_of(self.pp.g1@, out.0.sk@, self.pp.g@, out.0.r_sk@));
        }
        out
    }

    /// Commits to an input `x`: draws `r_x` and forms `x·g₂ + r_x·g`.
    pub fn commit_to_input(&self, x: &Scalar, rng: &mut SeedRng) -> (r: (
        DYPFPrivVRFInput,
        G1Elem,
    ))
        ensures
            r.0.x@ == x@,
            r.1@ == pedersen_of(self.pp.g2@, x@, self.pp.g@, r.0.r_x@),
    {
        let r_x = rng.next_scalar();
        let cm_x = g1_add(&g1_mul(&self.pp.g2, x), &g1_mul(&self.pp.g, &r_x));
        let kept_x = x.clone();
        proof {
            use_type_invariant(x);
            use_type_invariant(&kept_x);
        }
        let out = (DYPFPrivVRFInput { x: kept_x, r_x }, cm_x);
        proof {
            assert(out.0.x@ == x@ && out.1@ == pedersen_of(
                self.pp.g2@,
                x@,
                self.pp.g@,
                out.0.r_x@,
            ));
        }
        out
    }

    /// Evaluates the VRF: `y = (1/(sk+x))·g`, failing exactly when
    /// `sk + x` is zero in the field. The output is a function of the
    /// generator, the secret key and the input alone.
    pub fn evaluate(&self, witness: &DYPFPrivVRFWitness) -> (r: Result<
        DYPFPrivVRFOutput,
        &'static str,
    >)
        ensures
            (r is Err) <==> fr_reduce((witness.sk.val() + witness.x.val()) as int) == 0,
            r matches Ok(o) ==> o.y@ == g1_mul_of(
                self.pp.g@,
                fr_bytes(fr_inv_val(fr_reduce((witness.sk.val() + witness.x.val()) as int))),
            ),
    {
        let s = fr_add(&witness.sk, &witness.x);
        let inv = match fr_inverse(&s) {
            Some(v) => v,
            None => { return Err("sk + x is zero"); },
        };
        proof {
            use_type_invariant(&inv);
            lemma_inv_val_of(s.val(), inv.val());
            lemma_canonical_bytes(inv@, inv.val());
        }
        let y = g1_mul(&self.pp.g, &inv);
        Ok(DYPFPrivVRFOutput { y })
    }

    /// Proves knowledge of the openings and the inverse relation with a
    /// random challenge drawn here.
    pub fn prove(
        &self,
        witness: &DYPFPrivVRFWitness,
        output: &DYPFPrivVRFOutput,
        rng: &mut SeedRng,
    ) -> (r: DYPFPrivVRFProof)
        ensures
            exists|a_sk: Scalar, a_x: Scalar, a_r_sk: Scalar, a_r_x: Scalar, c: Scalar|
                vrf_proof_rel(self.pp, *witness, *output, r, a_sk, a_x, a_r_sk, a_r_x, c),
    {
        let c = rng.next_scalar();
        let r = self.prove_with_challenge(witness, output, &c, rng);
        proof {
            let (a_sk, a_x, a_r_sk, a_r_x) = choose|a_sk: Scalar, a_x: Scalar, a_r_sk: Scalar, a_r_x: Scalar|
                vrf_proof_rel(self.pp, *witness, *output, r, a_sk, a_x, a_r_sk, a_r_x, c);
            assert(vrf_proof_rel(self.pp, *witness, *output, r, a_sk, a_x, a_r_sk, a_r_x, c));
        }
        r
    }

    /// Proves with a caller-supplied challenge.
    pub fn prove_with_challenge(
        &self,
        witness: &DYPFPrivVRFWitness,
        output: &DYPFPrivVRFOutput,
        challenge: &Scalar,
        rng: &mut SeedRng,
    ) -> (r: DYPFPrivVRFProof)
        ensures
            exists|a_sk: Scalar, a_x: Scalar, a_r_sk: Scalar, a_r_x: Scalar|
                vrf_proof_rel(self.pp, *witness, *output, r, a_sk, a_x, a_r_sk, a_r_x, *challenge),
    {
        let a_sk = rng.next_scalar();
        let a_x = rng.next_scalar();
        let a_r_sk = rng.next_scalar();
        let a_r_x = rng.next_scalar();

        let a_sk_plus_a_x = fr_add(&a_sk, &a_x);
        let t1 = g1_add(&g1_mul(&self.pp.g1, &a_sk), &g1_mul(&self.pp.g, &a_r_sk));
        let t2 = g1_add(&g1_mul(&self.pp.g2, &a_x), &g1_mul(&self.pp.g, &a_r_x));
        let ty = g1_mul(&output.y, &a_sk_plus_a_x);
        proof {
            use_type_invariant(&a_sk_plus_a_x);
            lemma_canonical_bytes(a_sk_plus_a_x@, a_sk_plus_a_x.val());
        }

        let z_sk = fr_add(&a_sk, &fr_mul(challenge, &witness.sk));
        let z_x = fr_add(&a_x, &fr_mul(challenge, &witness.x));
        let z_r_sk = fr_add(&a_r_sk, &fr_mul(challenge, &witness.r_sk));
        let z_r_x = fr_add(&a_r_x, &fr_mul(challenge, &witness.r_x));
        let sum_w = fr_add(&witness.sk, &witness.x);
        let z_m = fr_add(&a_sk_plus_a_x, &fr_mul(challenge, &sum_w));
        proof {
            let m = fr_order() as int;
            let cv = challenge.val() as int;
            lemma_add_mod_noop_right(a_sk.val() as int, cv * witness.sk.val(), m);
            lemma_add_mod_noop_right(a_x.val() as int, cv * witness.x.val(), m);
            lemma_add_mod_noop_right(a_r_sk.val() as int, cv * witness.r_sk.val(), m);
            lemma_add_mod_noop_right(a_r_x.val() as int, cv * witness.r_x.val(), m);
            // z_m: both the blinding sum and the witness sum are already
            // reduced, and the products push through the modulus
            let ws = witness.sk.val() + witness.x.val();
            lemma_mul_mod_noop_right(cv, ws as int, m);
            lemma_add_mod_noop_right(a_sk_plus_a_x.val() as int, cv * (ws as int), m);
            vstd::arithmetic::div_mod::lemma_add_mod_noop(
                (a_sk.val() + a_x.val()) as int,
                cv * (ws as int),
                m,
            );
            vstd::arithmetic::div_mod::lemma_mod_twice(cv * (ws as int), m);
        }
        let pf = DYPFPrivVRFProof { t1, t2, ty, z_sk, z_x, z_r_sk, z_r_x, z_m };
        proof {
            assert(vrf_proof_rel(
                self.pp,
                *witness,
                *output,
                pf,
                a_sk,
                a_x,
                a_r_sk,
                a_r_x,
                *challenge,
            ));
        }
        pf
    }

    /// Verifies the four Σ-protocol equations; the result is exactly
    /// their conjunction.
    pub fn verify(
        &self,
        pk_with_commitments: &DYPFPrivPublicKey,
        output: &DYPFPrivVRFOutput,
        proof: &DYPFPrivVRFProof,
        challenge: &Scalar,
    ) -> (r: bool)
        ensures
            r == vrf_verifies(self.pp, *pk_with_commitments, *output, *proof, *challenge),
    {
        let lhs1 = g1_add(&proof.t1, &g1_mul(&pk_with_commitments.cm_sk, challenge));
        let rhs1 = g1_add(&g1_mul(&self.pp.g1, &proof.z_sk), &g1_mul(&self.pp.g, &proof.z_r_sk));
        let check1 = lhs1.equals(&rhs1);

        let lhs2 = g1_add(&proof.t2, &g1_mul(&pk_with_commitments.cm_x, challenge));
        let rhs2 = g1_add(&g1_mul(&self.pp.g2, &proof.z_x), &g1_mul(&self.pp.g, &proof.z_r_x));
        let check2 = lhs2.equals(&rhs2);

        let lhs3 = g1_add(&proof.ty, &g1_mul(&self.pp.g, challenge));
        let rhs3 = g1_mul(&output.y, &proof.z_m);
        let check3 = lhs3.equals(&rhs3);

        let z_sum = fr_add(&proof.z_sk, &proof.z_x);
        let check4 = proof.z_m.equals(&z_sum);

        check1 && check2 && check3 && check4
    }
}

/// Evaluation is a function: for one generator, secret key and input,
/// any two outputs meeting the evaluation contract are the same point.
pub proof fn lemma_evaluate_functional(g: Seq<u8>, sk: nat, x: nat, y1: Seq<u8>, y2: Seq<u8>)
    requires
        y1 == g1_mul_of(g, fr_bytes(fr_inv_val(fr_reduce((sk + x) as int)))),
        y2 == g1_mul_of(g, fr_bytes(fr_inv_val(fr_reduce((sk + x) as int)))),
    ensures
        y1 == y2,
{
}

} // verus!
