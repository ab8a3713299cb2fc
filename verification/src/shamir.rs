//! Shamir secret sharing over the scalar field: shares are evaluations of
//! a random polynomial whose constant term is the secret, and the secret
//! is recovered by the Lagrange combination at zero. The contracts pin
//! each result down to the exact modular formula.

use crate::rng::SeedRng;
use crate::scalar::{
    fr_add, fr_from_u64, fr_inv_val, fr_inverse, fr_mul, fr_neg, fr_order, fr_reduce, fr_sub,
    Scalar,
};
use vstd::arithmetic::div_mod::{
    lemma_add_mod_noop, lemma_mod_add_multiples_vanish, lemma_small_mod,
};
use vstd::prelude::*;

verus! {

/// The values of a sequence of scalars.
pub open spec fn scalar_vals(s: Seq<Scalar>) -> Seq<nat> {
    s.map_values(|c: Scalar| c.val())
}

/// The evaluation of the polynomial with coefficients `cs` (constant term
/// first) at `x`, modulo the field order.
pub open spec fn poly_eval(cs: Seq<nat>, x: nat) -> nat
    decreases cs.len(),
{
    if cs.len() == 0 {
        0
    } else {
        fr_reduce((cs[0] + x * poly_eval(cs.skip(1), x)) as int)
    }
}

/// A coefficient vector for sharing `s` with threshold `t`: `t` field
/// values whose constant term is the secret.
pub open spec fn shamir_poly_ok(cs: Seq<nat>, s: nat, t: nat) -> bool {
    &&& cs.len() == t
    &&& t >= 1
    &&& cs[0] == s
    &&& forall|i: int| 0 <= i < cs.len() ==> #[trigger] cs[i] < fr_order()
}

/// Share `i` (for `i` from 0) carries evaluation point `i + 1` and the
/// polynomial's value there.
pub open spec fn shares_match_poly(cs: Seq<nat>, shares: Seq<(usize, Scalar)>) -> bool {
    forall|i: int|
        0 <= i < shares.len() ==> (#[trigger] shares[i]).0 == i + 1 && shares[i].1.val()
            == poly_eval(cs, (i + 1) as nat)
}

/// One factor of the Lagrange coefficient at zero: `(0 - x_i) / (x_j - x_i)`
/// in the field.
pub open spec fn lagrange_term(xs: Seq<nat>, xj: nat, i: int) -> nat {
    fr_reduce((fr_reduce(0 - xs[i]) * fr_inv_val(fr_reduce(xj - xs[i]))) as int)
}

/// The Lagrange coefficient at zero for the point `xj` over the points
/// `xs`, skipping entries equal to `xj` itself, taken from position `i` on.
pub open spec fn lagrange_prod(xs: Seq<nat>, xj: nat, i: int) -> nat
    decreases xs.len() - i,
{
    if i < 0 || i >= xs.len() {
        1
    } else if xs[i] == xj {
        lagrange_prod(xs, xj, i + 1)
    } else {
        fr_reduce((lagrange_term(xs, xj, i) * lagrange_prod(xs, xj, i + 1)) as int)
    }
}

/// The Lagrange combination at zero of the points `(xs[i], ys[i])` from
/// position `i` on: the reconstructed secret.
pub open spec fn lagrange_sum(xs: Seq<nat>, ys: Seq<nat>, i: int) -> nat
    decreases xs.len() - i,
{
    if i < 0 || i >= xs.len() {
        0
    } else {
        fr_reduce((ys[i] * lagrange_prod(xs, xs[i], 0) + lagrange_sum(xs, ys, i + 1)) as int)
    }
}

/// The evaluation points of a share list, as field values.
pub open spec fn share_xs(s: Seq<(usize, Scalar)>) -> Seq<nat> {
    s.map_values(|p: (usize, Scalar)| p.0 as nat)
}

/// The share values of a share list, as field values.
pub open spec fn share_ys(s: Seq<(usize, Scalar)>) -> Seq<nat> {
    s.map_values(|p: (usize, Scalar)| p.1.val())
}

/// The index values of an index list.
pub open spec fn idx_vals(s: Seq<usize>) -> Seq<nat> {
    s.map_values(|u: usize| u as nat)
}

/// Distinct values below the order stay apart after reduction.
proof fn lemma_sub_nonzero(a: nat, b: nat)
    requires
        a < fr_order(),
        b < fr_order(),
        a != b,
    ensures
        fr_reduce(a - b) != 0,
{
    let m = fr_order() as int;
    if a > b {
        lemma_small_mod((a - b) as nat, fr_order());
    } else {
        lemma_mod_add_multiples_vanish(a - b, m);
        lemma_small_mod((a - b + m) as nat, fr_order());
    }
}

/// Reconstruction is exact for a single share: with threshold one the
/// polynomial is constant, the lone Lagrange coefficient is one, and
/// the combination at zero returns the secret itself. (The general
/// interpolation theorem for higher thresholds is exercised by tests;
/// it is not proved here.)
pub proof fn lemma_reconstruct_single(cs: Seq<nat>, x0: nat, y0: nat)
    requires
        shamir_poly_ok(cs, cs[0], 1),
        y0 == poly_eval(cs, x0),
    ensures
        lagrange_sum(seq![x0], seq![y0], 0) == cs[0],
{
    let xs = seq![x0];
    let ys = seq![y0];
    assert(cs.skip(1) =~= Seq::<nat>::empty());
    assert(poly_eval(cs.skip(1), x0) == 0);
    assert(x0 * poly_eval(cs.skip(1), x0) == 0) by (nonlinear_arith)
        requires
            poly_eval(cs.skip(1), x0) == 0,
    ;
    assert(poly_eval(cs, x0) == fr_reduce(cs[0] as int));
    lemma_small_mod(cs[0], fr_order());
    assert(y0 == cs[0]);
    assert(lagrange_prod(xs, x0, 0) == lagrange_prod(xs, x0, 1));
    assert(lagrange_prod(xs, x0, 1) == 1);
    assert(lagrange_sum(xs, ys, 1) == 0);
    assert(lagrange_sum(xs, ys, 0) == fr_reduce((y0 * 1 + 0) as int));
    lemma_small_mod(y0, fr_order());
}

/// Reconstruction is exact for two shares: with threshold two and
/// distinct points, the Lagrange combination at zero of the two
/// evaluations returns the constant term. The caller supplies the
/// inverse `u` of `x1 − x2`, as the reconstruction code does at run
/// time. (Thresholds past two are exercised by tests; the general
/// interpolation theorem is not proved here.)
#[verifier::rlimit(60)]
pub proof fn lemma_reconstruct_pair(cs: Seq<nat>, x1: nat, x2: nat, y1: nat, y2: nat, u: nat)
    requires
        shamir_poly_ok(cs, cs[0], 2),
        x1 < fr_order(),
        x2 < fr_order(),
        x1 != x2,
        y1 == poly_eval(cs, x1),
        y2 == poly_eval(cs, x2),
        u < fr_order(),
        (fr_reduce(x1 - x2) * u) % fr_order() == 1,
    ensures
        lagrange_sum(seq![x1, x2], seq![y1, y2], 0) == cs[0],
{
    let m = fr_order() as int;
    let a0 = cs[0] as int;
    let a1 = cs[1] as int;
    let xs = seq![x1, x2];
    let ys = seq![y1, y2];
    let d = fr_reduce(x1 - x2);
    let d2 = fr_reduce(x2 - x1);
    let v = fr_reduce(0 - u);

    // the supplied u is the field inverse of x1 − x2
    crate::scalar::lemma_inv_val_of(d, u);

    // and its negation inverts x2 − x1
    vstd::arithmetic::div_mod::lemma_mod_bound(x2 - x1, m);
    vstd::arithmetic::div_mod::lemma_mod_bound(0 - u, m);
    assert(((d2 * v) as int) % m == 1) by {
        vstd::arithmetic::div_mod::lemma_mul_mod_noop_general(x2 - x1, 0 - u, m);
        assert((x2 - x1) * (0 - u) == (x1 - x2) * u) by (nonlinear_arith);
        vstd::arithmetic::div_mod::lemma_mul_mod_noop_left(x1 - x2, u as int, m);
    }
    crate::scalar::lemma_inv_val_of(d2, v as nat);

    // unfold the two Lagrange coefficients
    assert(xs[0] == x1 && xs[1] == x2);
    let lam1 = lagrange_prod(xs, x1, 0);
    let lam2 = lagrange_prod(xs, x2, 0);
    let term1 = lagrange_term(xs, x1, 1);
    let term2 = lagrange_term(xs, x2, 0);
    assert(lagrange_prod(xs, x1, 2) == 1);
    assert(lagrange_prod(xs, x1, 0) == lagrange_prod(xs, x1, 1));
    assert(lam1 == fr_reduce((term1 * 1) as int));
    vstd::arithmetic::div_mod::lemma_mod_bound(
        (fr_reduce(0 - x2) * fr_inv_val(fr_reduce(x1 - x2))) as int,
        m,
    );
    lemma_small_mod(term1, fr_order());
    assert(lam1 == term1);
    assert(lagrange_prod(xs, x2, 1) == lagrange_prod(xs, x2, 2));
    assert(lagrange_prod(xs, x2, 2) == 1);
    assert(lam2 == fr_reduce((term2 * 1) as int));
    vstd::arithmetic::div_mod::lemma_mod_bound(
        (fr_reduce(0 - x1) * fr_inv_val(fr_reduce(x2 - x1))) as int,
        m,
    );
    lemma_small_mod(term2, fr_order());
    assert(lam2 == term2);

    // the coefficients in congruence form: λ1 ≡ −x2·u, λ2 ≡ x1·u
    assert(lam1 as int == ((0 - x2) * u) % m) by {
        vstd::arithmetic::div_mod::lemma_mul_mod_noop_left(0 - x2, u as int, m);
    }
    assert(lam2 as int == ((x1 * u) as int) % m) by {
        vstd::arithmetic::div_mod::lemma_mul_mod_noop_general(0 - x1, 0 - u, m);
        assert((0 - (x1 as int)) * (0 - (u as int)) == (x1 as int) * (u as int))
            by (nonlinear_arith);
    }

    // the two evaluations: y_i ≡ a0 + a1·x_i
    assert(cs.skip(1).skip(1) =~= Seq::<nat>::empty());
    assert(cs.skip(1)[0] == cs[1]);
    assert(cs.skip(1).len() == 1);
    assert(x1 * poly_eval(cs.skip(1).skip(1), x1) == 0) by (nonlinear_arith)
        requires
            poly_eval(cs.skip(1).skip(1), x1) == 0,
    ;
    assert(x2 * poly_eval(cs.skip(1).skip(1), x2) == 0) by (nonlinear_arith)
        requires
            poly_eval(cs.skip(1).skip(1), x2) == 0,
    ;
    lemma_small_mod(cs[1], fr_order());
    assert(poly_eval(cs.skip(1), x1) == cs[1]);
    assert(poly_eval(cs.skip(1), x2) == cs[1]);
    assert(y1 == fr_reduce(a0 + x1 * a1));
    assert(y2 == fr_reduce(a0 + x2 * a1));

    // assemble the sum and push every factor through the modulus
    assert(lagrange_sum(xs, ys, 2) == 0);
    assert(lagrange_sum(xs, ys, 1) == fr_reduce((y2 * lam2 + 0) as int));
    assert(lagrange_sum(xs, ys, 0) == fr_reduce((y1 * lam1 + lagrange_sum(xs, ys, 1)) as int));

    let pa = (a0 + x1 * a1) * ((0 - x2) * u);
    let pb = (a0 + x2 * a1) * (x1 * u);
    assert(((y1 * lam1) as int) % m == pa % m) by {
        vstd::arithmetic::div_mod::lemma_mul_mod_noop_general(a0 + x1 * a1, (0 - x2) * u, m);
    }
    assert(((y2 * lam2) as int) % m == pb % m) by {
        vstd::arithmetic::div_mod::lemma_mul_mod_noop_general(a0 + x2 * a1, (x1 * u) as int, m);
    }
    assert(lagrange_sum(xs, ys, 1) as int == pb % m) by {
        vstd::arithmetic::div_mod::lemma_mod_twice((y2 * lam2) as int, m);
    }
    assert(lagrange_sum(xs, ys, 0) as int == (pa + pb) % m) by {
        vstd::arithmetic::div_mod::lemma_add_mod_noop((y1 * lam1) as int, pb, m);
        vstd::arithmetic::div_mod::lemma_mod_twice((y1 * lam1) as int, m);
        vstd::arithmetic::div_mod::lemma_mod_twice(pb, m);
        vstd::arithmetic::div_mod::lemma_add_mod_noop(pa, pb, m);
    }

    // the blinding terms cancel and the inverse collapses to one
    assert(pa + pb == a0 * ((x1 - x2) * u)) by (nonlinear_arith)
        requires
            pa == (a0 + x1 * a1) * ((0 - x2) * u),
            pb == (a0 + x2 * a1) * ((x1 * u) as int),
    ;
    assert(((x1 - x2) * u) % m == 1) by {
        vstd::arithmetic::div_mod::lemma_mul_mod_noop_left(x1 - x2, u as int, m);
    }
    assert((a0 * ((x1 - x2) * u)) % m == a0 % m) by {
        vstd::arithmetic::div_mod::lemma_mul_mod_noop_right(a0, (x1 - x2) * u, m);
        assert(a0 * 1 == a0) by (nonlinear_arith);
    }
    lemma_small_mod(cs[0], fr_order());
}

/// Evaluates the polynomial with the given coefficients at `x` by
/// Horner's rule.
fn eval_poly(coeffs: &Vec<Scalar>, x: &Scalar) -> (y: Scalar)
    requires
        coeffs@.len() >= 1,
    ensures
        y.val() == poly_eval(scalar_vals(coeffs@), x.val()),
{
    let ghost cs = scalar_vals(coeffs@);
    let mut j: usize = coeffs.len() - 1;
    let top = &coeffs[j];
    let mut y: Scalar = top.clone();
    proof {
        use_type_invariant(top);
        use_type_invariant(&y);
        assert(y.val() == top.val());
        assert(cs[j as int] == coeffs@[j as int].val());
        assert(top.val() == cs[j as int]);
        let s = cs.skip(j as int);
        assert(s.len() == 1);
        assert(s[0] == cs[j as int]);
        assert(s.skip(1) =~= Seq::<nat>::empty());
        assert(poly_eval(s.skip(1), x.val()) == 0);
        assert(poly_eval(s, x.val()) == fr_reduce((s[0] + x.val() * poly_eval(s.skip(1), x.val())) as int));
        lemma_small_mod(cs[j as int], fr_order());
        assert(y.val() == poly_eval(cs.skip(j as int), x.val()));
    }
    while j > 0
        invariant
            0 <= j < coeffs@.len(),
            cs == scalar_vals(coeffs@),
            y.val() == poly_eval(cs.skip(j as int), x.val()),
        decreases j,
    {
        j = j - 1;
        let t1 = fr_mul(&y, x);
        let cj = &coeffs[j];
        let y2 = fr_add(&t1, cj);
        proof {
            use_type_invariant(cj);
            let m = fr_order() as int;
            let p = poly_eval(cs.skip(j as int + 1), x.val()) as int;
            let c = cs[j as int] as int;
            let xv = x.val() as int;
            assert(cs[j as int] == coeffs@[j as int].val());
            assert(cs.skip(j as int).skip(1) =~= cs.skip(j as int + 1));
            assert(cs.skip(j as int)[0] == cs[j as int]);
            // ((p·x) mod m + c) mod m == (c + x·p) mod m
            lemma_add_mod_noop(p * xv, c, m);
            lemma_small_mod(cs[j as int], fr_order());
            assert(p * xv == xv * p) by (nonlinear_arith);
            assert(y2.val() == poly_eval(cs.skip(j as int), x.val()));
        }
        y = y2;
    }
    proof {
        assert(cs.skip(0) =~= cs);
    }
    y
}

/// Produces `num_shares` Shamir shares of `secret` with threshold
/// `threshold`: the evaluations at `1..=num_shares` of a polynomial with
/// random higher coefficients and the secret as constant term.
pub fn generate_shares(
    secret: &Scalar,
    threshold: usize,
    num_shares: usize,
    rng: &mut SeedRng,
) -> (shares: Vec<(usize, Scalar)>)
    requires
        1 <= threshold <= num_shares,
    ensures
        shares@.len() == num_shares,
        exists|cs: Seq<nat>|
            shamir_poly_ok(cs, secret.val(), threshold as nat) && shares_match_poly(cs, shares@),
{
    let mut coeffs: Vec<Scalar> = Vec::new();
    let first = secret.clone();
    proof {
        use_type_invariant(secret);
        use_type_invariant(&first);
    }
    coeffs.push(first);
    while coeffs.len() < threshold
        invariant
            1 <= coeffs@.len() <= threshold,
            coeffs@[0].val() == secret.val(),
            forall|i: int| 0 <= i < coeffs@.len() ==> (#[trigger] coeffs@[i]).val() < fr_order(),
        decreases threshold - coeffs@.len(),
    {
        let c = rng.next_scalar();
        proof {
            use_type_invariant(&c);
        }
        coeffs.push(c);
    }
    let ghost cs = scalar_vals(coeffs@);
    proof {
        assert forall|i: int| 0 <= i < cs.len() implies #[trigger] cs[i] < fr_order() by {
            assert(cs[i] == coeffs@[i].val());
        }
    }
    let mut shares: Vec<(usize, Scalar)> = Vec::new();
    let mut i: usize = 0;
    while i < num_shares
        invariant
            i <= num_shares,
            num_shares <= usize::MAX,
            shares@.len() == i,
            coeffs@.len() >= 1,
            cs == scalar_vals(coeffs@),
            shamir_poly_ok(cs, secret.val(), threshold as nat),
            shares_match_poly(cs, shares@),
        decreases num_shares - i,
    {
        let x = fr_from_u64((i as u64) + 1);
        proof {
            assert(x.val() == (i + 1) as nat);
        }
        let y = eval_poly(&coeffs, &x);
        shares.push((i + 1, y));
        i += 1;
    }
    shares
}

/// The Lagrange coefficient at zero for party `j` over the given index
/// set: the product of `(0 - x_i) / (x_j - x_i)` over entries differing
/// from `j`.
pub fn compute_lagrange_coefficient(indices: &Vec<usize>, j: usize) -> (r: Scalar)
    ensures
        r.val() == lagrange_prod(idx_vals(indices@), j as nat, 0),
{
    let ghost xs = idx_vals(indices@);
    let j_field = fr_from_u64(j as u64);
    let mut acc = Scalar::one();
    let mut i: usize = indices.len();
    while i > 0
        invariant
            0 <= i <= indices@.len(),
            xs == idx_vals(indices@),
            j_field.val() == j as nat,
            acc.val() == lagrange_prod(xs, j as nat, i as int),
        decreases i,
    {
        i = i - 1;
        let xi = indices[i];
        if xi != j {
            let i_field = fr_from_u64(xi as u64);
            let num = fr_neg(&i_field);
            let den = fr_sub(&j_field, &i_field);
            proof {
                assert((j as u64) as nat == j as nat);
                assert((xi as u64) as nat == xi as nat);
                assert((j as nat) < fr_order());
                assert((xi as nat) < fr_order());
                lemma_sub_nonzero(j as nat, xi as nat);
                assert(den.val() == fr_reduce(j as nat - xi as nat));
            }
            let inv = fr_inverse(&den).unwrap();
            proof {
                use_type_invariant(&inv);
                crate::scalar::lemma_inv_val_of(den.val(), inv.val());
            }
            let term = fr_mul(&num, &inv);
            let acc2 = fr_mul(&term, &acc);
            proof {
                assert(term.val() == lagrange_term(xs, j as nat, i as int));
                assert(acc2.val() == lagrange_prod(xs, j as nat, i as int));
            }
            acc = acc2;
        }
    }
    acc
}

/// Reconstructs the secret from the first `threshold` shares by the
/// Lagrange combination at zero. The caller supplies distinct indices;
/// extra shares beyond the threshold are ignored.
pub fn reconstruct_secret(shares: &Vec<(usize, Scalar)>, threshold: usize) -> (r: Scalar)
    requires
        1 <= threshold,
        shares@.len() >= threshold,
        forall|i: int, k: int|
            0 <= i < k < threshold ==> (#[trigger] shares@[i]).0 != (#[trigger] shares@[k]).0,
    ensures
        r.val() == lagrange_sum(
            share_xs(shares@.take(threshold as int)),
            share_ys(shares@.take(threshold as int)),
            0,
        ),
{
    let ghost used = shares@.take(threshold as int);
    let ghost xs = share_xs(used);
    let ghost ys = share_ys(used);
    let mut indices: Vec<usize> = Vec::new();
    let mut k: usize = 0;
    while k < threshold
        invariant
            k <= threshold,
            threshold <= shares@.len(),
            indices@.len() == k,
            forall|i: int| 0 <= i < k ==> indices@[i] == (#[trigger] shares@[i]).0,
        decreases threshold - k,
    {
        indices.push(shares[k].0);
        k += 1;
    }
    proof {
        assert(idx_vals(indices@) =~= xs);
    }
    let mut acc = Scalar::zero();
    let mut i: usize = threshold;
    while i > 0
        invariant
            0 <= i <= threshold,
            threshold <= shares@.len(),
            idx_vals(indices@) == xs,
            xs == share_xs(shares@.take(threshold as int)),
            ys == share_ys(shares@.take(threshold as int)),
            indices@.len() == threshold,
            forall|q: int| 0 <= q < threshold ==> indices@[q] == (#[trigger] shares@[q]).0,
            acc.val() == lagrange_sum(xs, ys, i as int),
        decreases i,
    {
        i = i - 1;
        let coef = compute_lagrange_coefficient(&indices, indices[i]);
        let yi = &shares[i].1;
        let term = fr_mul(yi, &coef);
        let acc2 = fr_add(&term, &acc);
        proof {
            use_type_invariant(yi);
            use_type_invariant(&acc);
            let m = fr_order() as int;
            let yv = ys[i as int] as int;
            let cv = lagrange_prod(xs, xs[i as int], 0) as int;
            let sv = lagrange_sum(xs, ys, i as int + 1) as int;
            assert(xs[i as int] == indices@[i as int] as nat);
            assert(ys[i as int] == shares@[i as int].1.val());
            // ((y·c) mod m + s) mod m == (y·c + s) mod m
            lemma_add_mod_noop(yv * cv, sv, m);
            lemma_small_mod(acc.val(), fr_order());
            assert(acc2.val() == lagrange_sum(xs, ys, i as int));
        }
        acc = acc2;
    }
    acc
}

} // verus!
