//! A seedable source of random field and group elements. Callers thread
//! it explicitly; no hidden global randomness exists in the library.

use crate::group::{G1Elem, G2Elem};
use crate::scalar::Scalar;
use ark_ec::CurveGroup;
use ark_serialize::CanonicalSerialize;
use ark_std::UniformRand;
use rand::SeedableRng;
use vstd::prelude::*;

verus! {

#[verifier::external_type_specification]
#[verifier::external_body]
pub struct ExStdRng(rand::rngs::StdRng);

/// A deterministic random generator seeded by the caller.
pub struct SeedRng {
    pub(crate) inner: rand::rngs::StdRng,
}

impl SeedRng {
    /// Relies on `rand::rngs::StdRng::seed_from_u64`.
    #[verifier::external_body]
    pub fn from_u64(seed: u64) -> (r: SeedRng) {
        SeedRng { inner: rand::rngs::StdRng::seed_from_u64(seed) }
    }

    /// Relies on `ark_std::UniformRand` for `Fr`: a uniformly drawn
    /// scalar; nothing is promised of which one.
    #[verifier::external_body]
    pub fn next_scalar(&mut self) -> (r: Scalar) {
        let f = ark_bls12_381::Fr::rand(&mut self.inner);
        let mut out = Vec::new();
        f.serialize_compressed(&mut out).unwrap();
        Scalar { b: out }
    }

    /// A uniformly drawn scalar, except that a zero draw is replaced by
    /// one, so the result is never zero.
    pub fn next_scalar_nonzero(&mut self) -> (r: Scalar)
        ensures
            r.val() != 0,
    {
        let c = self.next_scalar();
        if c.is_zero() {
            Scalar::one()
        } else {
            c
        }
    }

    /// Relies on `ark_std::UniformRand` for `G1`: a uniformly drawn
    /// point, serialized canonically.
    #[verifier::external_body]
    pub fn next_g1(&mut self) -> (r: G1Elem) {
        let p = ark_bls12_381::G1Projective::rand(&mut self.inner).into_affine();
        let mut out = Vec::new();
        p.serialize_compressed(&mut out).unwrap();
        G1Elem { b: out }
    }

    /// Relies on `ark_std::UniformRand` for `G2`: a uniformly drawn
    /// point, serialized canonically.
    #[verifier::external_body]
    pub fn next_g2(&mut self) -> (r: G2Elem) {
        let p = ark_bls12_381::G2Projective::rand(&mut self.inner).into_affine();
        let mut out = Vec::new();
        p.serialize_compressed(&mut out).unwrap();
        G2Elem { b: out }
    }
}

} // verus!
