//! Pedersen-style commitments over a base pair, their Schnorr opening
//! proofs, and the canonical wire form of a proof: fixed-width point and
//! scalar fields with little-endian length prefixes. The serializer and
//! parser are verified against the same wire specification.

use crate::bytes::{
    le_val,
    concat_of, lemma_concat_pieces, lemma_concat_snoc, lemma_le_val_injective, lemma_nat_to_le,
    nat_to_le, pow256, push_u64_le, read_u64_le, sub_bytes,
};
use crate::errors::CommitmentError;
use crate::group::{
    g1_add_of, g1_check, g1_msm, g1_msm_of, g1_mul_of, g1_valid, g1_views, sc_views, G1Elem,
};
use crate::rng::SeedRng;
use crate::scalar::{fr_check, fr_order, Scalar};
use crate::schnorr::SchnorrProtocol;
use vstd::prelude::*;

verus! {

/// A commitment under a list of bases: `cm = Σ_j exponents_j · bases_j`.
pub struct Commitment {
    pub bases: Vec<G1Elem>,
    pub exponents: Vec<Scalar>,
    pub cm: G1Elem,
}

/// A serialized-form Schnorr proof of opening: the statement `C`, the
/// blinding commitment `T`, the bases, the challenge and the responses.
pub struct CommitmentProof {
    pub commitment: G1Elem,
    pub schnorr_commitment: G1Elem,
    pub bases: Vec<G1Elem>,
    pub challenge: Scalar,
    pub responses: Vec<Scalar>,
}

/// The canonical wire form of a proof: `C`, `T`, a length-prefixed base
/// list, the challenge, and a length-prefixed response list.
pub open spec fn proof_wire(p: CommitmentProof) -> Seq<u8> {
    p.commitment@ + p.schnorr_commitment@ + nat_to_le(p.bases@.len() as nat, 8) + concat_of(
        g1_views(p.bases@),
    ) + p.challenge@ + nat_to_le(p.responses@.len() as nat, 8) + concat_of(sc_views(p.responses@))
}

/// The Schnorr verification equation a proof carries:
/// `Σ_j z_j·B_j == T + c·C`.
pub open spec fn proof_equation(p: CommitmentProof) -> bool {
    &&& p.bases@.len() == p.responses@.len()
    &&& g1_msm_of(g1_views(p.bases@), sc_views(p.responses@)) == g1_add_of(
        p.schnorr_commitment@,
        g1_mul_of(p.commitment@, p.challenge@),
    )
}

/// Whether bytes have the exact shape of a serialized proof: two valid
/// points, a base count whose bases all decode, a canonical challenge,
/// and a response count whose responses are all canonical scalars,
/// ending exactly at the end of the input.
pub open spec fn proof_wire_ok(b: Seq<u8>) -> bool {
    let n = b.len() as int;
    &&& n >= 104
    &&& g1_valid(b.subrange(0, 48))
    &&& g1_valid(b.subrange(48, 96))
    &&& {
        let nb = le_val(b.subrange(96, 104)) as int;
        &&& 48 * nb <= n - 104
        &&& (forall|i: int|
            0 <= i < nb ==> g1_valid(#[trigger] b.subrange(104 + 48 * i, 104 + 48 * (i + 1))))
        &&& {
            let pos = 104 + 48 * nb;
            &&& n - pos >= 40
            &&& le_val(b.subrange(pos, pos + 32)) < fr_order()
            &&& {
                let mz = le_val(b.subrange(pos + 32, pos + 40)) as int;
                &&& 32 * mz <= n - (pos + 40)
                &&& (forall|j: int|
                    0 <= j < mz ==> le_val(
                        #[trigger] b.subrange(pos + 40 + 32 * j, pos + 40 + 32 * (j + 1)),
                    ) < fr_order())
                &&& pos + 40 + 32 * mz == n
            }
        }
    }
}

/// The base count a wire form carries.
pub open spec fn wire_nb(b: Seq<u8>) -> int {
    le_val(b.subrange(96, 104)) as int
}

/// Where the challenge window starts: after the base list.
pub open spec fn wire_body_start(b: Seq<u8>) -> int {
    104 + 48 * wire_nb(b)
}

/// The response count a wire form carries.
pub open spec fn wire_nz(b: Seq<u8>) -> int {
    le_val(b.subrange(wire_body_start(b) + 32, wire_body_start(b) + 40)) as int
}

/// Whether the carried base and response counts agree.
pub open spec fn wire_counts_match(b: Seq<u8>) -> bool {
    wire_nb(b) == wire_nz(b)
}

/// The statement `C` a wire form carries.
pub open spec fn wire_statement(b: Seq<u8>) -> Seq<u8> {
    b.subrange(0, 48)
}

/// The blinding commitment `T` a wire form carries.
pub open spec fn wire_blinding_commitment(b: Seq<u8>) -> Seq<u8> {
    b.subrange(48, 96)
}

/// The base windows a wire form carries.
pub open spec fn wire_bases(b: Seq<u8>) -> Seq<Seq<u8>> {
    Seq::new(wire_nb(b) as nat, |i: int| b.subrange(104 + 48 * i, 104 + 48 * (i + 1)))
}

/// The challenge window a wire form carries.
pub open spec fn wire_challenge(b: Seq<u8>) -> Seq<u8> {
    b.subrange(wire_body_start(b), wire_body_start(b) + 32)
}

/// The response windows a wire form carries.
pub open spec fn wire_responses(b: Seq<u8>) -> Seq<Seq<u8>> {
    Seq::new(
        wire_nz(b) as nat,
        |j: int|
            b.subrange(wire_body_start(b) + 40 + 32 * j, wire_body_start(b) + 40 + 32 * (j + 1)),
    )
}

/// The Schnorr equation a wire form carries, decided over its own
/// windows: matching counts and `Σ z_j·B_j == T + c·C`.
pub open spec fn wire_equation(b: Seq<u8>) -> bool {
    &&& wire_counts_match(b)
    &&& g1_msm_of(wire_bases(b), wire_responses(b)) == g1_add_of(
        wire_blinding_commitment(b),
        g1_mul_of(wire_statement(b), wire_challenge(b)),
    )
}

/// A quotient bound turns into a product bound.
proof fn lemma_le_div_mul(x: int, d: int, q: int)
    requires
        d > 0,
        x >= 0,
        0 <= q <= x / d,
    ensures
        d * q <= x,
{
    vstd::arithmetic::div_mod::lemma_fundamental_div_mod(x, d);
    vstd::arithmetic::div_mod::lemma_mod_bound(x, d);
    assert(d * q <= d * (x / d)) by (nonlinear_arith)
        requires
            d > 0,
            q <= x / d,
    ;
}

/// Exceeding the quotient means exceeding the dividend.
proof fn lemma_gt_div_mul(x: int, d: int, q: int)
    requires
        d > 0,
        x >= 0,
        q > x / d,
    ensures
        d * q > x,
{
    vstd::arithmetic::div_mod::lemma_fundamental_div_mod(x, d);
    vstd::arithmetic::div_mod::lemma_mod_bound(x, d);
    assert(d * q >= d * (x / d) + d) by (nonlinear_arith)
        requires
            d > 0,
            q >= x / d + 1,
    ;
}

/// Serializes a proof into its canonical wire form.
pub fn serialize_proof(p: &CommitmentProof) -> (r: Vec<u8>)
    ensures
        r@ == proof_wire(*p),
{
    let mut out = p.commitment.to_bytes();
    let tb = p.schnorr_commitment.to_bytes();
    crate::bytes::append_bytes(&mut out, &tb);
    push_u64_le(&mut out, p.bases.len() as u64);
    let ghost pre1 = out@;
    let mut i: usize = 0;
    while i < p.bases.len()
        invariant
            i <= p.bases@.len(),
            out@ == pre1 + concat_of(g1_views(p.bases@).take(i as int)),
        decreases p.bases@.len() - i,
    {
        let bb = p.bases[i].to_bytes();
        crate::bytes::append_bytes(&mut out, &bb);
        proof {
            let vs = g1_views(p.bases@);
            lemma_concat_snoc(vs.take(i as int), vs[i as int]);
            assert(vs.take(i as int + 1) =~= vs.take(i as int).push(vs[i as int]));
            assert(vs[i as int] == p.bases@[i as int]@);
        }
        i += 1;
    }
    proof {
        assert(g1_views(p.bases@).take(p.bases@.len() as int) =~= g1_views(p.bases@));
    }
    let cb = p.challenge.to_bytes();
    crate::bytes::append_bytes(&mut out, &cb);
    push_u64_le(&mut out, p.responses.len() as u64);
    let ghost pre2 = out@;
    let mut j: usize = 0;
    while j < p.responses.len()
        invariant
            j <= p.responses@.len(),
            out@ == pre2 + concat_of(sc_views(p.responses@).take(j as int)),
        decreases p.responses@.len() - j,
    {
        let zb = p.responses[j].to_bytes();
        crate::bytes::append_bytes(&mut out, &zb);
        proof {
            let vs = sc_views(p.responses@);
            lemma_concat_snoc(vs.take(j as int), vs[j as int]);
            assert(vs.take(j as int + 1) =~= vs.take(j as int).push(vs[j as int]));
            assert(vs[j as int] == p.responses@[j as int]@);
        }
        j += 1;
    }
    proof {
        assert(sc_views(p.responses@).take(p.responses@.len() as int) =~= sc_views(p.responses@));
        assert(out@ =~= proof_wire(*p));
    }
    out
}

/// Parses the canonical wire form: succeeds exactly on bytes of the
/// wire shape, and on success the result re-serializes to exactly the
/// input, so nothing is invented or dropped.
pub fn parse_proof(bytes: &Vec<u8>) -> (r: Option<CommitmentProof>)
    ensures
        (r is Some) <==> proof_wire_ok(bytes@),
        r matches Some(p) ==> proof_wire(p) == bytes@,
        r matches Some(p) ==> {
            &&& p.commitment@ == wire_statement(bytes@)
            &&& p.schnorr_commitment@ == wire_blinding_commitment(bytes@)
            &&& p.bases@.len() == wire_nb(bytes@)
            &&& g1_views(p.bases@) == wire_bases(bytes@)
            &&& p.challenge@ == wire_challenge(bytes@)
            &&& p.responses@.len() == wire_nz(bytes@)
            &&& sc_views(p.responses@) == wire_responses(bytes@)
        },
{
    let ghost bv = bytes@;
    let n = bytes.len();
    if n < 104 {
        return None;
    }
    let cb = sub_bytes(bytes, 0, 48);
    let commitment = match g1_check(&cb) {
        Some(c) => c,
        None => {
            return None;
        },
    };
    let tb = sub_bytes(bytes, 48, 48);
    let schnorr_commitment = match g1_check(&tb) {
        Some(t) => t,
        None => {
            return None;
        },
    };
    let nb64 = read_u64_le(bytes, 96);
    if nb64 > ((n - 104) / 48) as u64 {
        proof {
            lemma_gt_div_mul(n as int - 104, 48, nb64 as int);
        }
        return None;
    }
    let nb = nb64 as usize;
    proof {
        lemma_le_div_mul(n as int - 104, 48, nb as int);
    }
    let mut bases: Vec<G1Elem> = Vec::new();
    let mut pos: usize = 104;
    let mut i: usize = 0;
    while i < nb
        invariant
            i <= nb,
            n == bv.len(),
            bv == bytes@,
            n >= 104,
            pos == 104 + 48 * i,
            104 + 48 * nb <= n,
            g1_valid(bv.subrange(0, 48)),
            g1_valid(bv.subrange(48, 96)),
            nb as int == le_val(bv.subrange(96, 104)),
            bases@.len() == i,
            forall|k: int|
                0 <= k < i ==> (#[trigger] bases@[k])@ == bv.subrange(
                    104 + 48 * k,
                    104 + 48 * (k + 1),
                ),
            forall|k: int|
                0 <= k < i ==> g1_valid(#[trigger] bv.subrange(104 + 48 * k, 104 + 48 * (k + 1))),
        decreases nb - i,
    {
        proof {
            assert(48 * (i + 1) <= 48 * nb) by (nonlinear_arith)
                requires
                    i + 1 <= nb,
            ;
        }
        let bb = sub_bytes(bytes, pos, 48);
        let b = match g1_check(&bb) {
            Some(b) => b,
            None => {
                proof {
                    assert(!proof_wire_ok(bv)) by {
                        assert(!g1_valid(bv.subrange(104 + 48 * (i as int), 104 + 48 * (i as int + 1))));
                    }
                }
                return None;
            },
        };
        bases.push(b);
        pos = pos + 48;
        i += 1;
    }
    if n - pos < 40 {
        proof {
            assert(!proof_wire_ok(bv));
        }
        return None;
    }
    let chb = sub_bytes(bytes, pos, 32);
    let challenge = match fr_check(&chb) {
        Some(c) => c,
        None => {
            proof {
                assert(!proof_wire_ok(bv));
            }
            return None;
        },
    };
    let mz64 = read_u64_le(bytes, pos + 32);
    let after = pos + 40;
    if mz64 > ((n - after) / 32) as u64 {
        proof {
            lemma_gt_div_mul(n as int - after as int, 32, mz64 as int);
        }
        return None;
    }
    let mz = mz64 as usize;
    proof {
        lemma_le_div_mul(n as int - after as int, 32, mz as int);
    }
    let mut responses: Vec<Scalar> = Vec::new();
    let mut pos2: usize = after;
    let mut j: usize = 0;
    while j < mz
        invariant
            j <= mz,
            n == bv.len(),
            bv == bytes@,
            n >= 104,
            pos == 104 + 48 * (nb as int),
            104 + 48 * nb <= n,
            g1_valid(bv.subrange(0, 48)),
            g1_valid(bv.subrange(48, 96)),
            nb as int == le_val(bv.subrange(96, 104)),
            forall|k: int|
                0 <= k < nb ==> g1_valid(#[trigger] bv.subrange(104 + 48 * k, 104 + 48 * (k + 1))),
            bases@.len() == nb,
            forall|k: int|
                0 <= k < nb ==> (#[trigger] bases@[k])@ == bv.subrange(
                    104 + 48 * k,
                    104 + 48 * (k + 1),
                ),
            n - pos >= 40,
            le_val(bv.subrange(pos as int, pos as int + 32)) < fr_order(),
            challenge@ == bv.subrange(pos as int, pos as int + 32),
            mz as int == le_val(bv.subrange(pos as int + 32, pos as int + 40)),
            after == pos + 40,
            pos2 == after + 32 * j,
            after + 32 * mz <= n,
            responses@.len() == j,
            forall|k: int|
                0 <= k < j ==> (#[trigger] responses@[k])@ == bv.subrange(
                    after + 32 * k,
                    after + 32 * (k + 1),
                ),
            forall|k: int|
                0 <= k < j ==> le_val(
                    #[trigger] bv.subrange(after + 32 * k, after + 32 * (k + 1)),
                ) < fr_order(),
        decreases mz - j,
    {
        proof {
            assert(32 * (j + 1) <= 32 * mz) by (nonlinear_arith)
                requires
                    j + 1 <= mz,
            ;
        }
        let zb = sub_bytes(bytes, pos2, 32);
        let z = match fr_check(&zb) {
            Some(z) => z,
            None => {
                proof {
                    assert(!proof_wire_ok(bv)) by {
                        assert(!(le_val(
                            bv.subrange(
                                pos as int + 40 + 32 * (j as int),
                                pos as int + 40 + 32 * (j as int + 1),
                            ),
                        ) < fr_order()));
                    }
                }
                return None;
            },
        };
        responses.push(z);
        pos2 = pos2 + 32;
        j += 1;
    }
    if pos2 != n {
        proof {
            assert(!proof_wire_ok(bv));
        }
        return None;
    }
    let p = CommitmentProof { commitment, schnorr_commitment, bases, challenge, responses };
    proof {
        assert(proof_wire_ok(bv));
        // the two length prefixes are the canonical encodings of the counts
        assert(pow256(8) == 18446744073709551616) by {
            reveal_with_fuel(pow256, 9);
        }
        lemma_nat_to_le(nb as nat, 8);
        lemma_le_val_injective(bv.subrange(96, 104), nat_to_le(nb as nat, 8));
        lemma_nat_to_le(mz as nat, 8);
        lemma_le_val_injective(
            bv.subrange(pos as int + 32, pos as int + 40),
            nat_to_le(mz as nat, 8),
        );
        // the collected pieces concatenate back to their windows
        lemma_concat_pieces(bv, 104, 48, g1_views(p.bases@));
        lemma_concat_pieces(bv, after as int, 32, sc_views(p.responses@));
        // adjacent windows glue into the whole input
        assert(bv.subrange(0, 48) + bv.subrange(48, 96) =~= bv.subrange(0, 96));
        assert(bv.subrange(0, 96) + bv.subrange(96, 104) =~= bv.subrange(0, 104));
        assert(bv.subrange(0, 104) + bv.subrange(104, pos as int) =~= bv.subrange(0, pos as int));
        assert(bv.subrange(0, pos as int) + bv.subrange(pos as int, pos as int + 32)
            =~= bv.subrange(0, pos as int + 32));
        assert(bv.subrange(0, pos as int + 32) + bv.subrange(pos as int + 32, after as int)
            =~= bv.subrange(0, after as int));
        assert(bv.subrange(0, after as int) + bv.subrange(after as int, pos2 as int)
            =~= bv.subrange(0, pos2 as int));
        assert(bv.subrange(0, n as int) =~= bv);
        assert(proof_wire(p) == bv);
        assert(g1_views(p.bases@) =~= wire_bases(bv));
        assert(sc_views(p.responses@) =~= wire_responses(bv));
    }
    Some(p)
}

impl Commitment {
    /// Commits to `m` under the base pair `(h, g)` with blinding `r`,
    /// drawing the blinding when none is supplied:
    /// `cm = m·h + r·g`.
    pub fn new(
        h: &G1Elem,
        g: &G1Elem,
        m: &Scalar,
        r_opt: Option<Scalar>,
        rng: &mut SeedRng,
    ) -> (r: Commitment)
        ensures
            r.bases@.len() == 2,
            r.exponents@.len() == 2,
            r.bases@[0]@ == h@,
            r.bases@[1]@ == g@,
            r.exponents@[0]@ == m@,
            r.exponents@[0].val() == m.val(),
            r_opt matches Some(rv) ==> r.exponents@[1]@ == rv@,
            r.cm@ == g1_msm_of(g1_views(r.bases@), sc_views(r.exponents@)),
    {
        let blind = match r_opt {
            Some(rv) => rv,
            None => rng.next_scalar(),
        };
        let m2 = m.clone();
        proof {
            use_type_invariant(m);
            use_type_invariant(&m2);
        }
        let mut bases: Vec<G1Elem> = Vec::new();
        bases.push(h.clone());
        bases.push(g.clone());
        let mut exponents: Vec<Scalar> = Vec::new();
        exponents.push(m2);
        exponents.push(blind);
        let cm = g1_msm(&bases, &exponents);
        Commitment { bases, exponents, cm }
    }

    /// Emits a serialized Schnorr proof that `cm` opens under the bases
    /// to the held exponents.
    pub fn prove(self, rng: &mut SeedRng) -> (r: Result<Vec<u8>, CommitmentError>)
        requires
            self.bases@.len() == self.exponents@.len(),
        ensures
            r is Ok,
            r matches Ok(out) ==> exists|p: CommitmentProof|
                out@ == proof_wire(p) && p.commitment@ == self.cm@ && g1_views(p.bases@)
                    == g1_views(self.bases@),
    {
        let schnorr_commitment = SchnorrProtocol::commit(&self.bases, rng);
        let challenge = rng.next_scalar();
        let responses = SchnorrProtocol::prove(&schnorr_commitment, &self.exponents, &challenge);
        let p = CommitmentProof {
            commitment: self.cm,
            schnorr_commitment: schnorr_commitment.commited_blindings,
            bases: self.bases,
            challenge,
            responses: responses.0,
        };
        let out = serialize_proof(&p);
        proof {
            assert(out@ == proof_wire(p) && p.commitment@ == p.commitment@ && g1_views(p.bases@)
                == g1_views(p.bases@));
        }
        Ok(out)
    }

    /// Checks a serialized opening proof: parses the wire form and
    /// decides the Schnorr equation it carries. Bytes off the wire
    /// shape — and only those — are a serialization error; on parseable
    /// bytes the answer is exactly the equation the wire carries.
    pub fn verify(serialized_proof: &Vec<u8>) -> (r: Result<bool, CommitmentError>)
        ensures
            (r is Err) <==> !proof_wire_ok(serialized_proof@),
            r is Err ==> r matches Err(CommitmentError::SerializationError),
            r matches Ok(v) ==> v == wire_equation(serialized_proof@),
    {
        let p = match parse_proof(serialized_proof) {
            Some(p) => p,
            None => { return Err(CommitmentError::SerializationError); },
        };
        let valid = SchnorrProtocol::verify_schnorr(
            &p.bases,
            &p.commitment,
            &p.schnorr_commitment,
            &p.responses,
            &p.challenge,
        );
        proof {
            assert(valid == wire_equation(serialized_proof@));
        }
        Ok(valid)
    }
}

/// Batch verification of serialized opening proofs by a random linear
/// combination of nonzero weights; no proofs at all verify vacuously.
pub fn batch_verify(serialized_proofs: &Vec<Vec<u8>>, rng: &mut SeedRng) -> (r: Result<
    bool,
    CommitmentError,
>)
    ensures
        serialized_proofs@.len() == 0 ==> (r matches Ok(v) && v == true),
        (r matches Err(CommitmentError::SerializationError)) <==> exists|i: int|
            0 <= i < serialized_proofs@.len() && !proof_wire_ok((#[trigger] serialized_proofs@[i])@),
        (r matches Err(CommitmentError::InvalidProof)) <==> ((forall|i: int|
            0 <= i < serialized_proofs@.len() ==> proof_wire_ok((#[trigger] serialized_proofs@[i])@))
            && exists|i: int|
            0 <= i < serialized_proofs@.len() && !wire_counts_match(
                (#[trigger] serialized_proofs@[i])@,
            )),
        (r is Ok) <==> crate::schnorr_batch::batch_inputs_ok(serialized_proofs@),
        r matches Ok(v) ==> crate::schnorr_batch::batch_outcome(serialized_proofs@, v),
{
    crate::schnorr_batch::batch_verify(serialized_proofs, rng)
}

} // verus!
