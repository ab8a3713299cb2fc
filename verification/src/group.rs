//! Points of the BLS12-381 groups `G1`, `G2` and elements of the pairing
//! target field, each held in canonical compressed byte form. The curve
//! arithmetic lives in arkworks behind trusted wrappers; what each
//! operation returns is named by an uninterpreted function over the byte
//! views, and the verified protocol code is specified in that vocabulary.

use crate::bytes::{bytes_eq, copy_bytes};
use crate::scalar::Scalar;
use ark_ec::pairing::Pairing;
use ark_ec::{CurveGroup, VariableBaseMSM};
use ark_ff::{Field, PrimeField};
use ark_serialize::{CanonicalDeserialize, CanonicalSerialize};
use vstd::prelude::*;

verus! {

/// Whether 48 bytes are the canonical compressed form of a `G1` point.
pub uninterp spec fn g1_valid(b: Seq<u8>) -> bool;

/// Whether 96 bytes are the canonical compressed form of a `G2` point.
pub uninterp spec fn g2_valid(b: Seq<u8>) -> bool;

/// Whether 576 bytes are the canonical form of a target-field element.
pub uninterp spec fn gt_valid(b: Seq<u8>) -> bool;

/// The sum of two `G1` points, in canonical bytes.
pub uninterp spec fn g1_add_of(a: Seq<u8>, b: Seq<u8>) -> Seq<u8>;

/// The negation of a `G1` point, in canonical bytes.
pub uninterp spec fn g1_neg_of(a: Seq<u8>) -> Seq<u8>;

/// The scalar multiple of a `G1` point, in canonical bytes.
pub uninterp spec fn g1_mul_of(p: Seq<u8>, k: Seq<u8>) -> Seq<u8>;

/// The multi-scalar multiplication over `G1`: the sum of each base times
/// its scalar, over canonical byte forms.
pub uninterp spec fn g1_msm_of(bases: Seq<Seq<u8>>, scalars: Seq<Seq<u8>>) -> Seq<u8>;

/// The sum of two `G2` points, in canonical bytes.
pub uninterp spec fn g2_add_of(a: Seq<u8>, b: Seq<u8>) -> Seq<u8>;

/// The scalar multiple of a `G2` point, in canonical bytes.
pub uninterp spec fn g2_mul_of(p: Seq<u8>, k: Seq<u8>) -> Seq<u8>;

/// The multi-scalar multiplication over `G2`.
pub uninterp spec fn g2_msm_of(bases: Seq<Seq<u8>>, scalars: Seq<Seq<u8>>) -> Seq<u8>;

/// The product of two target-field elements.
pub uninterp spec fn gt_mul_of(a: Seq<u8>, b: Seq<u8>) -> Seq<u8>;

/// A target-field element raised to a scalar.
pub uninterp spec fn gt_pow_of(a: Seq<u8>, k: Seq<u8>) -> Seq<u8>;

/// The product of the Miller loops of the paired points.
pub uninterp spec fn miller_of(g1s: Seq<Seq<u8>>, g2s: Seq<Seq<u8>>) -> Seq<u8>;

/// The final exponentiation of a Miller-loop product; `None` exactly
/// where arkworks refuses the input (a zero element).
pub uninterp spec fn final_exp_of(l: Seq<u8>) -> Option<Seq<u8>>;

/// The canonical bytes of the target-field element one: the 48-byte
/// little-endian form of 1 followed by eleven zero coefficients.
pub open spec fn gt_one_bytes() -> Seq<u8> {
    Seq::new(576, |i: int| if i == 0 { 1u8 } else { 0u8 })
}

/// A `G1` point in canonical compressed form.
pub struct G1Elem {
    pub(crate) b: Vec<u8>,
}

/// A `G2` point in canonical compressed form.
pub struct G2Elem {
    pub(crate) b: Vec<u8>,
}

/// A target-field element in canonical serialized form.
pub struct GtElem {
    pub(crate) b: Vec<u8>,
}

impl View for G1Elem {
    type V = Seq<u8>;

    closed spec fn view(&self) -> Seq<u8> {
        self.b@
    }
}

impl View for G2Elem {
    type V = Seq<u8>;

    closed spec fn view(&self) -> Seq<u8> {
        self.b@
    }
}

impl View for GtElem {
    type V = Seq<u8>;

    closed spec fn view(&self) -> Seq<u8> {
        self.b@
    }
}

impl G1Elem {
    /// Every held point is 48 canonical compressed bytes.
    #[verifier::type_invariant]
    pub(crate) open spec fn wf(self) -> bool {
        self@.len() == 48 && g1_valid(self@)
    }

    /// The canonical compressed bytes of this point.
    pub fn to_bytes(&self) -> (r: Vec<u8>)
        ensures
            r@ == self@,
            r@.len() == 48,
            g1_valid(r@),
    {
        proof {
            use_type_invariant(self);
        }
        copy_bytes(&self.b)
    }

    /// Whether two points are equal; canonical form makes byte equality
    /// point equality.
    pub fn equals(&self, other: &G1Elem) -> (r: bool)
        ensures
            r <==> self@ == other@,
    {
        bytes_eq(&self.b, &other.b)
    }
}

impl G2Elem {
    /// Every held point is 96 canonical compressed bytes.
    #[verifier::type_invariant]
    pub(crate) open spec fn wf(self) -> bool {
        self@.len() == 96 && g2_valid(self@)
    }

    /// The canonical compressed bytes of this point.
    pub fn to_bytes(&self) -> (r: Vec<u8>)
        ensures
            r@ == self@,
            r@.len() == 96,
            g2_valid(r@),
    {
        proof {
            use_type_invariant(self);
        }
        copy_bytes(&self.b)
    }

    /// Whether two points are equal.
    pub fn equals(&self, other: &G2Elem) -> (r: bool)
        ensures
            r <==> self@ == other@,
    {
        bytes_eq(&self.b, &other.b)
    }
}

impl GtElem {
    /// Every held element is 576 canonical bytes.
    #[verifier::type_invariant]
    pub(crate) open spec fn wf(self) -> bool {
        self@.len() == 576 && gt_valid(self@)
    }

    /// The canonical bytes of this element.
    pub fn to_bytes(&self) -> (r: Vec<u8>)
        ensures
            r@ == self@,
            r@.len() == 576,
            gt_valid(r@),
    {
        proof {
            use_type_invariant(self);
        }
        copy_bytes(&self.b)
    }

    /// Whether two elements are equal.
    pub fn equals(&self, other: &GtElem) -> (r: bool)
        ensures
            r <==> self@ == other@,
    {
        bytes_eq(&self.b, &other.b)
    }

    /// Whether this element is the target-field one.
    pub fn is_one(&self) -> (r: bool)
        ensures
            r <==> self@ == gt_one_bytes(),
    {
        proof {
            use_type_invariant(self);
        }
        if self.b.len() != 576 {
            return false;
        }
        if self.b[0] != 1u8 {
            proof {
                assert(self@ != gt_one_bytes()) by {
                    assert(gt_one_bytes()[0] == 1u8);
                }
            }
            return false;
        }
        let mut i: usize = 1;
        while i < 576
            invariant
                1 <= i <= 576,
                self@.len() == 576,
                self@[0] == 1,
                forall|j: int| 1 <= j < i ==> self@[j] == 0,
            decreases 576 - i,
        {
            if self.b[i] != 0u8 {
                proof {
                    assert(self@ != gt_one_bytes()) by {
                        assert(gt_one_bytes()[i as int] == 0u8);
                    }
                }
                return false;
            }
            i += 1;
        }
        proof {
            assert(self@ =~= gt_one_bytes());
        }
        true
    }
}

impl Clone for G1Elem {
    fn clone(&self) -> (r: Self)
        ensures
            r@ == self@,
    {
        proof {
            use_type_invariant(self);
        }
        G1Elem { b: copy_bytes(&self.b) }
    }
}

impl Clone for G2Elem {
    fn clone(&self) -> (r: Self)
        ensures
            r@ == self@,
    {
        proof {
            use_type_invariant(self);
        }
        G2Elem { b: copy_bytes(&self.b) }
    }
}

impl Clone for GtElem {
    fn clone(&self) -> (r: Self)
        ensures
            r@ == self@,
    {
        proof {
            use_type_invariant(self);
        }
        GtElem { b: copy_bytes(&self.b) }
    }
}

/// The byte views of a sequence of `G1` points.
pub open spec fn g1_views(s: Seq<G1Elem>) -> Seq<Seq<u8>> {
    s.map_values(|e: G1Elem| e@)
}

/// The byte views of a sequence of `G2` points.
pub open spec fn g2_views(s: Seq<G2Elem>) -> Seq<Seq<u8>> {
    s.map_values(|e: G2Elem| e@)
}

/// The byte views of a sequence of scalars.
pub open spec fn sc_views(s: Seq<Scalar>) -> Seq<Seq<u8>> {
    s.map_values(|e: Scalar| e@)
}

/// The byte view of an optional target-field element.
pub open spec fn opt_gt_view(o: Option<GtElem>) -> Option<Seq<u8>> {
    match o {
        Some(v) => Some(v@),
        None => None,
    }
}

/// Copies a vector of `G1` points, keeping views.
pub fn copy_g1s(v: &Vec<G1Elem>) -> (r: Vec<G1Elem>)
    ensures
        r@.len() == v@.len(),
        forall|i: int| 0 <= i < v@.len() ==> (#[trigger] r@[i])@ == v@[i]@,
{
    let mut out: Vec<G1Elem> = Vec::new();
    let mut i: usize = 0;
    while i < v.len()
        invariant
            i <= v@.len(),
            out@.len() == i,
            forall|k: int| 0 <= k < i ==> (#[trigger] out@[k])@ == v@[k]@,
        decreases v.len() - i,
    {
        let c = v[i].clone();
        out.push(c);
        i += 1;
    }
    out
}

/// Copies a vector of `G2` points, keeping views.
pub fn copy_g2s(v: &Vec<G2Elem>) -> (r: Vec<G2Elem>)
    ensures
        r@.len() == v@.len(),
        forall|i: int| 0 <= i < v@.len() ==> (#[trigger] r@[i])@ == v@[i]@,
{
    let mut out: Vec<G2Elem> = Vec::new();
    let mut i: usize = 0;
    while i < v.len()
        invariant
            i <= v@.len(),
            out@.len() == i,
            forall|k: int| 0 <= k < i ==> (#[trigger] out@[k])@ == v@[k]@,
        decreases v.len() - i,
    {
        let c = v[i].clone();
        out.push(c);
        i += 1;
    }
    out
}

/// Relies on `ark_bls12_381` `G1` point addition, with canonical
/// compressed serialization on both sides.
#[verifier::external_body]
pub fn g1_add(a: &G1Elem, b: &G1Elem) -> (r: G1Elem)
    ensures
        r@ == g1_add_of(a@, b@),
{
    let x = ark_bls12_381::G1Affine::deserialize_compressed(&a.b[..]).unwrap();
    let y = ark_bls12_381::G1Affine::deserialize_compressed(&b.b[..]).unwrap();
    let mut out = Vec::new();
    (x + y).into_affine().serialize_compressed(&mut out).unwrap();
    G1Elem { b: out }
}

/// Relies on `ark_bls12_381` `G1` point negation.
#[verifier::external_body]
pub fn g1_neg(a: &G1Elem) -> (r: G1Elem)
    ensures
        r@ == g1_neg_of(a@),
{
    let x = ark_bls12_381::G1Affine::deserialize_compressed(&a.b[..]).unwrap();
    let mut out = Vec::new();
    (-x).serialize_compressed(&mut out).unwrap();
    G1Elem { b: out }
}

/// Relies on `ark_bls12_381` `G1` scalar multiplication.
#[verifier::external_body]
pub fn g1_mul(p: &G1Elem, k: &Scalar) -> (r: G1Elem)
    ensures
        r@ == g1_mul_of(p@, k@),
{
    let x = ark_bls12_381::G1Affine::deserialize_compressed(&p.b[..]).unwrap();
    let s = ark_bls12_381::Fr::deserialize_compressed(&k.b[..]).unwrap();
    let mut out = Vec::new();
    (x * s).into_affine().serialize_compressed(&mut out).unwrap();
    G1Elem { b: out }
}

/// Relies on `ark_ec::VariableBaseMSM::msm_unchecked` over `G1`: the sum
/// of each base times the scalar at the same position.
#[verifier::external_body]
pub fn g1_msm(bases: &Vec<G1Elem>, scalars: &Vec<Scalar>) -> (r: G1Elem)
    requires
        bases@.len() == scalars@.len(),
    ensures
        r@ == g1_msm_of(g1_views(bases@), sc_views(scalars@)),
{
    let bs: Vec<ark_bls12_381::G1Affine> = bases.iter().map(|p|
        ark_bls12_381::G1Affine::deserialize_compressed(&p.b[..]).unwrap()).collect();
    let ss: Vec<ark_bls12_381::Fr> = scalars.iter().map(|s|
        ark_bls12_381::Fr::deserialize_compressed(&s.b[..]).unwrap()).collect();
    let m = ark_bls12_381::G1Projective::msm_unchecked(&bs, &ss);
    let mut out = Vec::new();
    m.into_affine().serialize_compressed(&mut out).unwrap();
    G1Elem { b: out }
}

/// Relies on `ark_bls12_381::G1Affine::deserialize_compressed`: succeeds
/// exactly on canonical compressed points, and keeps the bytes.
#[verifier::external_body]
pub fn g1_check(b: &Vec<u8>) -> (r: Option<G1Elem>)
    requires
        b@.len() == 48,
    ensures
        (r is Some) <==> g1_valid(b@),
        r matches Some(v) ==> v@ == b@,
{
    match ark_bls12_381::G1Affine::deserialize_compressed(&b[..]) {
        Ok(_) => Some(G1Elem { b: b.clone() }),
        Err(_) => None,
    }
}

/// Relies on `ark_bls12_381` `G2` point addition.
#[verifier::external_body]
pub fn g2_add(a: &G2Elem, b: &G2Elem) -> (r: G2Elem)
    ensures
        r@ == g2_add_of(a@, b@),
{
    let x = ark_bls12_381::G2Affine::deserialize_compressed(&a.b[..]).unwrap();
    let y = ark_bls12_381::G2Affine::deserialize_compressed(&b.b[..]).unwrap();
    let mut out = Vec::new();
    (x + y).into_affine().serialize_compressed(&mut out).unwrap();
    G2Elem { b: out }
}

/// Relies on `ark_bls12_381` `G2` scalar multiplication.
#[verifier::external_body]
pub fn g2_mul(p: &G2Elem, k: &Scalar) -> (r: G2Elem)
    ensures
        r@ == g2_mul_of(p@, k@),
{
    let x = ark_bls12_381::G2Affine::deserialize_compressed(&p.b[..]).unwrap();
    let s = ark_bls12_381::Fr::deserialize_compressed(&k.b[..]).unwrap();
    let mut out = Vec::new();
    (x * s).into_affine().serialize_compressed(&mut out).unwrap();
    G2Elem { b: out }
}

/// Relies on `ark_ec::VariableBaseMSM::msm_unchecked` over `G2`.
#[verifier::external_body]
pub fn g2_msm(bases: &Vec<G2Elem>, scalars: &Vec<Scalar>) -> (r: G2Elem)
    requires
        bases@.len() == scalars@.len(),
    ensures
        r@ == g2_msm_of(g2_views(bases@), sc_views(scalars@)),
{
    let bs: Vec<ark_bls12_381::G2Affine> = bases.iter().map(|p|
        ark_bls12_381::G2Affine::deserialize_compressed(&p.b[..]).unwrap()).collect();
    let ss: Vec<ark_bls12_381::Fr> = scalars.iter().map(|s|
        ark_bls12_381::Fr::deserialize_compressed(&s.b[..]).unwrap()).collect();
    let m = ark_bls12_381::G2Projective::msm_unchecked(&bs, &ss);
    let mut out = Vec::new();
    m.into_affine().serialize_compressed(&mut out).unwrap();
    G2Elem { b: out }
}

/// Relies on `ark_bls12_381::G2Affine::deserialize_compressed`: succeeds
/// exactly on canonical compressed points, and keeps the bytes.
#[verifier::external_body]
pub fn g2_check(b: &Vec<u8>) -> (r: Option<G2Elem>)
    requires
        b@.len() == 96,
    ensures
        (r is Some) <==> g2_valid(b@),
        r matches Some(v) ==> v@ == b@,
{
    match ark_bls12_381::G2Affine::deserialize_compressed(&b[..]) {
        Ok(_) => Some(G2Elem { b: b.clone() }),
        Err(_) => None,
    }
}

/// Relies on `ark_ff::Fq12::ONE`, the multiplicative unit of the target
/// field, whose canonical bytes are one followed by zeros.
#[verifier::external_body]
pub fn gt_one() -> (r: GtElem)
    ensures
        r@ == gt_one_bytes(),
{
    let one = <ark_bls12_381::Fq12 as Field>::ONE;
    let mut out = Vec::new();
    one.serialize_compressed(&mut out).unwrap();
    GtElem { b: out }
}

/// Relies on `ark_bls12_381::Fq12` multiplication.
#[verifier::external_body]
pub fn gt_mul(a: &GtElem, b: &GtElem) -> (r: GtElem)
    ensures
        r@ == gt_mul_of(a@, b@),
{
    let x = ark_bls12_381::Fq12::deserialize_compressed(&a.b[..]).unwrap();
    let y = ark_bls12_381::Fq12::deserialize_compressed(&b.b[..]).unwrap();
    let mut out = Vec::new();
    (x * y).serialize_compressed(&mut out).unwrap();
    GtElem { b: out }
}

/// Relies on `ark_ff::Field::pow` of `Fq12` by a scalar's integer.
#[verifier::external_body]
pub fn gt_pow(a: &GtElem, k: &Scalar) -> (r: GtElem)
    ensures
        r@ == gt_pow_of(a@, k@),
{
    let x = ark_bls12_381::Fq12::deserialize_compressed(&a.b[..]).unwrap();
    let s = ark_bls12_381::Fr::deserialize_compressed(&k.b[..]).unwrap();
    let mut out = Vec::new();
    x.pow(s.into_bigint()).serialize_compressed(&mut out).unwrap();
    GtElem { b: out }
}

/// Relies on `ark_ec::pairing::Pairing::multi_miller_loop` for BLS12-381:
/// the product of the Miller loops of the paired points.
#[verifier::external_body]
pub fn miller_prod(g1s: &Vec<G1Elem>, g2s: &Vec<G2Elem>) -> (r: GtElem)
    requires
        g1s@.len() == g2s@.len(),
    ensures
        r@ == miller_of(g1_views(g1s@), g2_views(g2s@)),
{
    let aps: Vec<ark_bls12_381::G1Affine> = g1s.iter().map(|p|
        ark_bls12_381::G1Affine::deserialize_compressed(&p.b[..]).unwrap()).collect();
    let bps: Vec<ark_bls12_381::G2Affine> = g2s.iter().map(|q|
        ark_bls12_381::G2Affine::deserialize_compressed(&q.b[..]).unwrap()).collect();
    let m = ark_bls12_381::Bls12_381::multi_miller_loop(aps, bps);
    let mut out = Vec::new();
    m.0.serialize_compressed(&mut out).unwrap();
    GtElem { b: out }
}

/// Relies on `ark_ec::pairing::Pairing::final_exponentiation` for
/// BLS12-381; `None` exactly where arkworks returns `None`.
#[verifier::external_body]
pub fn final_exp(l: &GtElem) -> (r: Option<GtElem>)
    ensures
        opt_gt_view(r) == final_exp_of(l@),
{
    let f = ark_bls12_381::Fq12::deserialize_compressed(&l.b[..]).unwrap();
    let m = ark_ec::pairing::MillerLoopOutput::<ark_bls12_381::Bls12_381>(f);
    match ark_bls12_381::Bls12_381::final_exponentiation(m) {
        Some(p) => {
            let mut out = Vec::new();
            p.0.serialize_compressed(&mut out).unwrap();
            Some(GtElem { b: out })
        },
        None => None,
    }
}

/// Relies on `ark_bls12_381::Fq12::deserialize_compressed`: succeeds
/// exactly on canonical target-field bytes, and keeps the bytes.
#[verifier::external_body]
pub fn gt_check(b: &Vec<u8>) -> (r: Option<GtElem>)
    requires
        b@.len() == 576,
    ensures
        (r is Some) <==> gt_valid(b@),
        r matches Some(v) ==> v@ == b@,
{
    match ark_bls12_381::Fq12::deserialize_compressed(&b[..]) {
        Ok(_) => Some(GtElem { b: b.clone() }),
        Err(_) => None,
    }
}

} // verus!
