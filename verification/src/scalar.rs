//! Elements of the BLS12-381 scalar field, held in canonical 32-byte
//! little-endian form, with the field arithmetic supplied by arkworks
//! behind trusted wrappers whose contracts speak of integers modulo the
//! field order.

use crate::bytes::{bytes_eq, copy_bytes, le_val, lemma_le_val_zero, pow256};
use ark_ff::Field;
use ark_serialize::{CanonicalDeserialize, CanonicalSerialize};
use vstd::prelude::*;

verus! {

/// The order of the BLS12-381 scalar field.
pub open spec fn fr_order() -> nat {
    52435875175126190479447740508185965837690552500527637822603658699938581184513nat
}

/// `x` reduced into the field: the representative of `x` modulo the order.
pub open spec fn fr_reduce(x: int) -> nat {
    (x % (fr_order() as int)) as nat
}

/// The inverse of `x` in the field, where one exists.
pub open spec fn fr_inv_val(x: nat) -> nat {
    choose|y: nat| y < fr_order() && #[trigger] ((x * y) % fr_order()) == 1
}

/// The canonical 32-byte form of a field value.
pub open spec fn fr_bytes(v: nat) -> Seq<u8> {
    crate::bytes::nat_to_le(v, 32)
}

/// Canonical bytes are determined by the value: 32 bytes below the order
/// encode it one way only.
pub proof fn lemma_canonical_bytes(b: Seq<u8>, v: nat)
    requires
        b.len() == 32,
        le_val(b) == v,
        v < fr_order(),
    ensures
        b == fr_bytes(v),
{
    lemma_fr_order_fits();
    crate::bytes::lemma_nat_to_le(v, 32);
    crate::bytes::lemma_le_val_injective(b, fr_bytes(v));
}

/// A scalar field element in canonical little-endian form.
pub struct Scalar {
    pub(crate) b: Vec<u8>,
}

impl View for Scalar {
    type V = Seq<u8>;

    closed spec fn view(&self) -> Seq<u8> {
        self.b@
    }
}

impl Scalar {
    /// Every scalar holds canonical bytes: 32 of them, encoding its value,
    /// which lies below the field order.
    #[verifier::type_invariant]
    pub(crate) open spec fn wf(self) -> bool {
        self@.len() == 32 && self.val() == le_val(self@) && self.val() < fr_order()
    }

    /// The integer this scalar stands for.
    pub closed spec fn val(self) -> nat {
        le_val(self.b@)
    }

    /// The canonical little-endian bytes of this scalar.
    pub fn to_bytes(&self) -> (r: Vec<u8>)
        ensures
            r@ == self@,
            r@.len() == 32,
            le_val(r@) < fr_order(),
    {
        proof {
            use_type_invariant(self);
        }
        copy_bytes(&self.b)
    }

    /// The scalar zero.
    pub fn zero() -> (r: Scalar)
        ensures
            r.val() == 0,
    {
        let mut b: Vec<u8> = Vec::new();
        let mut i: usize = 0;
        while i < 32
            invariant
                i <= 32,
                b@.len() == i,
                forall|j: int| 0 <= j < i ==> b@[j] == 0,
            decreases 32 - i,
        {
            b.push(0u8);
            i += 1;
        }
        proof {
            lemma_le_val_zero(b@);
        }
        Scalar { b }
    }

    /// The scalar one.
    pub fn one() -> (r: Scalar)
        ensures
            r.val() == 1,
    {
        let mut b: Vec<u8> = Vec::new();
        b.push(1u8);
        let mut i: usize = 1;
        while i < 32
            invariant
                1 <= i <= 32,
                b@.len() == i,
                b@[0] == 1,
                forall|j: int| 1 <= j < i ==> b@[j] == 0,
            decreases 32 - i,
        {
            b.push(0u8);
            i += 1;
        }
        proof {
            assert forall|j: int| 0 <= j < b@.skip(1).len() implies b@.skip(1)[j] == 0 by {
                assert(b@.skip(1)[j] == b@[j + 1]);
            }
            lemma_le_val_zero(b@.skip(1));
            assert(le_val(b@) == 1 + 256 * le_val(b@.skip(1)));
        }
        Scalar { b }
    }

    /// Whether this scalar is zero.
    pub fn is_zero(&self) -> (r: bool)
        ensures
            r <==> self.val() == 0,
    {
        let z = Scalar::zero();
        self.equals(&z)
    }

    /// Whether two scalars are the same field element.
    pub fn equals(&self, other: &Scalar) -> (r: bool)
        ensures
            r <==> self.val() == other.val(),
    {
        proof {
            use_type_invariant(self);
            use_type_invariant(other);
            if self.b@ != other.b@ {
                if self.val() == other.val() {
                    crate::bytes::lemma_le_val_injective(self.b@, other.b@);
                }
            }
        }
        bytes_eq(&self.b, &other.b)
    }
}

impl Clone for Scalar {
    fn clone(&self) -> (r: Self)
        ensures
            r@ == self@,
    {
        proof {
            use_type_invariant(self);
        }
        Scalar { b: copy_bytes(&self.b) }
    }
}

/// Copies a vector of scalars, keeping views and values.
pub fn copy_scalars(v: &Vec<Scalar>) -> (r: Vec<Scalar>)
    ensures
        r@.len() == v@.len(),
        forall|i: int|
            0 <= i < v@.len() ==> (#[trigger] r@[i])@ == v@[i]@ && r@[i].val() == v@[i].val(),
{
    let mut out: Vec<Scalar> = Vec::new();
    let mut i: usize = 0;
    while i < v.len()
        invariant
            i <= v@.len(),
            out@.len() == i,
            forall|k: int|
                0 <= k < i ==> (#[trigger] out@[k])@ == v@[k]@ && out@[k].val() == v@[k].val(),
        decreases v.len() - i,
    {
        let e = &v[i];
        let c = e.clone();
        proof {
            use_type_invariant(e);
            use_type_invariant(&c);
        }
        out.push(c);
        i += 1;
    }
    out
}

/// Embeds an integer into the field: its eight little-endian bytes
/// padded with zeros. Every `u64` is below the field order, so no
/// reduction occurs.
pub fn fr_from_u64(v: u64) -> (r: Scalar)
    ensures
        r.val() == v as nat,
{
    let mut b: Vec<u8> = Vec::new();
    crate::bytes::push_u64_le(&mut b, v);
    proof {
        assert(pow256(8) == 18446744073709551616) by {
            reveal_with_fuel(pow256, 9);
        }
        crate::bytes::lemma_nat_to_le(v as nat, 8);
    }
    while b.len() < 32
        invariant
            8 <= b@.len() <= 32,
            le_val(b@) == v as nat,
        decreases 32 - b@.len(),
    {
        proof {
            crate::bytes::lemma_le_val_push_zero(b@);
        }
        b.push(0u8);
    }
    Scalar { b }
}

/// Relies on `ark_bls12_381::Fr` addition: the field is the integers
/// modulo `fr_order()`, serialized canonically.
#[verifier::external_body]
pub fn fr_add(a: &Scalar, b: &Scalar) -> (r: Scalar)
    ensures
        r.val() == fr_reduce((a.val() + b.val()) as int),
{
    let x = ark_bls12_381::Fr::deserialize_compressed(&a.b[..]).unwrap();
    let y = ark_bls12_381::Fr::deserialize_compressed(&b.b[..]).unwrap();
    let mut out = Vec::new();
    (x + y).serialize_compressed(&mut out).unwrap();
    Scalar { b: out }
}

/// Relies on `ark_bls12_381::Fr` subtraction modulo the field order.
#[verifier::external_body]
pub fn fr_sub(a: &Scalar, b: &Scalar) -> (r: Scalar)
    ensures
        r.val() == fr_reduce(a.val() - b.val()),
{
    let x = ark_bls12_381::Fr::deserialize_compressed(&a.b[..]).unwrap();
    let y = ark_bls12_381::Fr::deserialize_compressed(&b.b[..]).unwrap();
    let mut out = Vec::new();
    (x - y).serialize_compressed(&mut out).unwrap();
    Scalar { b: out }
}

/// Relies on `ark_bls12_381::Fr` multiplication modulo the field order.
#[verifier::external_body]
pub fn fr_mul(a: &Scalar, b: &Scalar) -> (r: Scalar)
    ensures
        r.val() == fr_reduce((a.val() * b.val()) as int),
{
    let x = ark_bls12_381::Fr::deserialize_compressed(&a.b[..]).unwrap();
    let y = ark_bls12_381::Fr::deserialize_compressed(&b.b[..]).unwrap();
    let mut out = Vec::new();
    (x * y).serialize_compressed(&mut out).unwrap();
    Scalar { b: out }
}

/// Relies on `ark_bls12_381::Fr` negation modulo the field order.
#[verifier::external_body]
pub fn fr_neg(a: &Scalar) -> (r: Scalar)
    ensures
        r.val() == fr_reduce(0 - a.val()),
{
    let x = ark_bls12_381::Fr::deserialize_compressed(&a.b[..]).unwrap();
    let mut out = Vec::new();
    (-x).serialize_compressed(&mut out).unwrap();
    Scalar { b: out }
}

/// Relies on `ark_ff::Field::inverse`: `Some` exactly for nonzero input,
/// and the product of the input with the result is one.
#[verifier::external_body]
pub fn fr_inverse(a: &Scalar) -> (r: Option<Scalar>)
    ensures
        (r is Some) <==> a.val() != 0,
        r matches Some(v) ==> (a.val() * v.val()) % fr_order() == 1,
{
    let x = ark_bls12_381::Fr::deserialize_compressed(&a.b[..]).unwrap();
    match x.inverse() {
        Some(y) => {
            let mut out = Vec::new();
            y.serialize_compressed(&mut out).unwrap();
            Some(Scalar { b: out })
        },
        None => None,
    }
}

/// Relies on `ark_bls12_381::Fr::deserialize_compressed`: succeeds exactly
/// on 32-byte little-endian encodings of integers below the field order,
/// and returns that integer.
#[verifier::external_body]
pub fn fr_check(b: &Vec<u8>) -> (r: Option<Scalar>)
    requires
        b@.len() == 32,
    ensures
        (r is Some) <==> le_val(b@) < fr_order(),
        r matches Some(v) ==> v@ == b@,
{
    match ark_bls12_381::Fr::deserialize_compressed(&b[..]) {
        Ok(_) => Some(Scalar { b: b.clone() }),
        Err(_) => None,
    }
}

/// In a prime field an element has at most one inverse: whatever `y` the
/// inverse wrapper returned equals `fr_inv_val` of its argument.
pub proof fn lemma_inverse_unique(x: nat, y1: nat, y2: nat)
    requires
        y1 < fr_order(),
        y2 < fr_order(),
        (x * y1) % fr_order() == 1,
        (x * y2) % fr_order() == 1,
    ensures
        y1 == y2,
{
    let m = fr_order() as int;
    let xi = x as int;
    let a = y1 as int;
    let b = y2 as int;
    // y1 ≡ y1·(x·y2) ≡ (y1·x)·y2 ≡ y2 (mod m)
    assert((xi * b) % m == 1);
    assert((xi * a) % m == 1);
    assert(a * ((xi * b) % m) == a) by (nonlinear_arith)
        requires
            (xi * b) % m == 1,
    ;
    vstd::arithmetic::div_mod::lemma_mul_mod_noop_right(a, xi * b, m);
    assert((a * (xi * b)) % m == a % m);
    assert(a * (xi * b) == (a * xi) * b) by (nonlinear_arith);
    vstd::arithmetic::div_mod::lemma_mul_mod_noop_left(a * xi, b, m);
    assert((((a * xi) % m) * b) % m == a % m);
    assert(a * xi == xi * a) by (nonlinear_arith);
    assert((((a * xi) % m) * b) == b) by (nonlinear_arith)
        requires
            (a * xi) % m == 1,
    ;
    assert(b % m == a % m);
    vstd::arithmetic::div_mod::lemma_small_mod(y1, fr_order());
    vstd::arithmetic::div_mod::lemma_small_mod(y2, fr_order());
}

/// An exec-found inverse is the field inverse: ties a wrapper's result
/// to `fr_inv_val`.
pub proof fn lemma_inv_val_of(x: nat, v: nat)
    requires
        v < fr_order(),
        (x * v) % fr_order() == 1,
    ensures
        fr_inv_val(x) == v,
{
    assert(v < fr_order() && #[trigger] ((x * v) % fr_order()) == 1);
    let y0 = choose|y: nat| y < fr_order() && #[trigger] ((x * y) % fr_order()) == 1;
    lemma_inverse_unique(x, y0, v);
}

/// Values below the order are 32-byte representable.
pub proof fn lemma_fr_order_fits()
    ensures
        fr_order() < pow256(32),
{
    reveal_with_fuel(pow256, 33);
}

} // verus!
