//! Distributed key generation: the master secret `x` and per-attribute
//! secrets `y_k` are Shamir-shared independently with one threshold, the
//! commitment key pairs `y_k·g` with `y_k·g̃`, and each party receives
//! its secret shares with the matching `G2` verification shares.

use crate::rng::SeedRng;
use crate::scalar::{fr_bytes, lemma_canonical_bytes, Scalar};
use crate::shamir::{generate_shares, poly_eval, shamir_poly_ok, shares_match_poly};
use crate::symmetric_commitment::SymmetricCommitmentKey;
use crate::group::{g1_mul_of, g2_mul, g2_mul_of, G2Elem};
use vstd::prelude::*;

verus! {

/// One party's secret key material: its index and its share of `x` and
/// of each `y_k`.
pub struct SecretKeyShare {
    pub index: usize,
    pub x_share: Scalar,
    pub y_shares: Vec<Scalar>,
}

/// The whole dealt key set.
pub struct ThresholdKeys {
    pub t: usize,
    pub n: usize,
    pub l: usize,
    pub sk_shares: Vec<SecretKeyShare>,
    pub vk_shares: Vec<VerificationKeyShare>,
}

/// The aggregate verification key `x·g̃`.
pub struct VerificationKey {
    pub g_tilde_x: G2Elem,
}

/// One party's verification key material: its shares moved to `G2`.
pub struct VerificationKeyShare {
    pub index: usize,
    pub g_tilde_x_share: G2Elem,
    pub g_tilde_y_shares: Vec<G2Elem>,
}

impl Clone for SecretKeyShare {
    fn clone(&self) -> (r: Self)
        ensures
            r.index == self.index,
            r.x_share@ == self.x_share@,
            r.x_share.val() == self.x_share.val(),
            crate::group::sc_views(r.y_shares@) == crate::group::sc_views(self.y_shares@),
            r.y_shares@.len() == self.y_shares@.len(),
            forall|k: int|
                0 <= k < self.y_shares@.len() ==> (#[trigger] r.y_shares@[k]).val()
                    == self.y_shares@[k].val(),
    {
        let x_share = self.x_share.clone();
        let y_shares = crate::scalar::copy_scalars(&self.y_shares);
        proof {
            use_type_invariant(&self.x_share);
            use_type_invariant(&x_share);
            assert(crate::group::sc_views(y_shares@) =~= crate::group::sc_views(self.y_shares@));
            assert forall|k: int| 0 <= k < self.y_shares@.len() implies (#[trigger] y_shares@[k]).val()
                == self.y_shares@[k].val() by {}
        }
        SecretKeyShare { index: self.index, x_share, y_shares }
    }
}

impl Clone for VerificationKeyShare {
    fn clone(&self) -> (r: Self)
        ensures
            r.index == self.index,
            r.g_tilde_x_share@ == self.g_tilde_x_share@,
            crate::group::g2_views(r.g_tilde_y_shares@) == crate::group::g2_views(
                self.g_tilde_y_shares@,
            ),
            r.g_tilde_y_shares@.len() == self.g_tilde_y_shares@.len(),
    {
        let g_tilde_y_shares = crate::group::copy_g2s(&self.g_tilde_y_shares);
        proof {
            assert(crate::group::g2_views(g_tilde_y_shares@) =~= crate::group::g2_views(
                self.g_tilde_y_shares@,
            ));
        }
        VerificationKeyShare {
            index: self.index,
            g_tilde_x_share: self.g_tilde_x_share.clone(),
            g_tilde_y_shares,
        }
    }
}

/// What key generation establishes. Each party `i` (indices `1..=n`)
/// holds polynomial evaluations at `i`, the constant terms are the
/// secrets behind the verification key and the commitment bases, and
/// every `G2` share is the `G2` image of the matching secret share.
pub open spec fn keygen_rel(
    ck: SymmetricCommitmentKey,
    vk: VerificationKey,
    tk: ThresholdKeys,
    t: nat,
    n: nat,
    l: nat,
    xpoly: Seq<nat>,
    ypolys: Seq<Seq<nat>>,
) -> bool {
    &&& tk.sk_shares@.len() == n
    &&& tk.vk_shares@.len() == n
    &&& ck.ck@.len() == l
    &&& ck.ck_tilde@.len() == l
    &&& shamir_poly_ok(xpoly, xpoly[0], t)
    &&& ypolys.len() == l
    &&& (forall|k: int|
        0 <= k < l ==> shamir_poly_ok(#[trigger] ypolys[k], ypolys[k][0], t))
    &&& vk.g_tilde_x@ == g2_mul_of(ck.g_tilde@, fr_bytes(xpoly[0]))
    &&& (forall|k: int|
        0 <= k < l ==> (#[trigger] ck.ck@[k])@ == g1_mul_of(ck.g@, fr_bytes(ypolys[k][0])))
    &&& (forall|k: int|
        0 <= k < l ==> (#[trigger] ck.ck_tilde@[k])@ == g2_mul_of(
            ck.g_tilde@,
            fr_bytes(ypolys[k][0]),
        ))
    &&& (forall|i: int|
        0 <= i < n ==> {
            let sk = #[trigger] tk.sk_shares@[i];
            let vks = tk.vk_shares@[i];
            &&& sk.index == i + 1
            &&& vks.index == i + 1
            &&& sk.y_shares@.len() == l
            &&& vks.g_tilde_y_shares@.len() == l
            &&& sk.x_share.val() == poly_eval(xpoly, (i + 1) as nat)
            &&& vks.g_tilde_x_share@ == g2_mul_of(ck.g_tilde@, sk.x_share@)
            &&& (forall|k: int|
                0 <= k < l ==> (#[trigger] sk.y_shares@[k]).val() == poly_eval(
                    ypolys[k],
                    (i + 1) as nat,
                ))
            &&& (forall|k: int|
                0 <= k < l ==> (#[trigger] vks.g_tilde_y_shares@[k])@ == g2_mul_of(
                    ck.g_tilde@,
                    sk.y_shares@[k]@,
                ))
        })
}

/// Deals keys for `n` parties with threshold `t` over `l` attributes:
/// samples the secrets, shares each with the same threshold, and moves
/// every share to `G2` alongside the commitment key.
pub fn keygen(t: usize, n: usize, l: usize, rng: &mut SeedRng) -> (out: (
    SymmetricCommitmentKey,
    VerificationKey,
    ThresholdKeys,
))
    requires
        1 <= t <= n,
        l >= 1,
    ensures
        out.2.t == t && out.2.n == n && out.2.l == l,
        exists|xpoly: Seq<nat>, ypolys: Seq<Seq<nat>>|
            keygen_rel(out.0, out.1, out.2, t as nat, n as nat, l as nat, xpoly, ypolys),
{
    let x = rng.next_scalar();
    let x_shares = generate_shares(&x, t, n, rng);
    let ghost xpoly = choose|cs: Seq<nat>|
        shamir_poly_ok(cs, x.val(), t as nat) && shares_match_poly(cs, x_shares@);
    proof {
        use_type_invariant(&x);
        lemma_canonical_bytes(x@, x.val());
    }

    let mut y_values: Vec<Scalar> = Vec::new();
    let mut y_shares_by_k: Vec<Vec<(usize, Scalar)>> = Vec::new();
    let ghost mut ypolys: Seq<Seq<nat>> = Seq::empty();
    let mut k: usize = 0;
    while k < l
        invariant
            k <= l,
            1 <= t <= n,
            y_values@.len() == k,
            y_shares_by_k@.len() == k,
            ypolys.len() == k,
            forall|q: int|
                0 <= q < k ==> shamir_poly_ok(#[trigger] ypolys[q], ypolys[q][0], t as nat),
            forall|q: int|
                0 <= q < k ==> (#[trigger] y_values@[q])@ == fr_bytes(ypolys[q][0]),
            forall|q: int|
                0 <= q < k ==> (#[trigger] y_shares_by_k@[q])@.len() == n && shares_match_poly(
                    ypolys[q],
                    y_shares_by_k@[q]@,
                ),
        decreases l - k,
    {
        let y_k = rng.next_scalar();
        let shares_k = generate_shares(&y_k, t, n, rng);
        proof {
            use_type_invariant(&y_k);
            lemma_canonical_bytes(y_k@, y_k.val());
            let cs = choose|cs: Seq<nat>|
                shamir_poly_ok(cs, y_k.val(), t as nat) && shares_match_poly(cs, shares_k@);
            ypolys = ypolys.push(cs);
        }
        y_values.push(y_k);
        y_shares_by_k.push(shares_k);
        k += 1;
    }

    let ck = SymmetricCommitmentKey::new(&y_values, rng);
    let g_tilde_x = g2_mul(&ck.g_tilde, &x);
    let vk = VerificationKey { g_tilde_x };

    let mut sk_shares: Vec<SecretKeyShare> = Vec::new();
    let mut vk_shares: Vec<VerificationKeyShare> = Vec::new();
    let mut i: usize = 0;
    while i < n
        invariant
            i <= n,
            1 <= t <= n,
            l >= 1,
            x_shares@.len() == n,
            shares_match_poly(xpoly, x_shares@),
            y_values@.len() == l,
            y_shares_by_k@.len() == l,
            ypolys.len() == l,
            ck.ck@.len() == l,
            ck.ck_tilde@.len() == l,
            forall|q: int|
                0 <= q < l ==> shamir_poly_ok(#[trigger] ypolys[q], ypolys[q][0], t as nat),
            forall|q: int|
                0 <= q < l ==> (#[trigger] y_values@[q])@ == fr_bytes(ypolys[q][0]),
            forall|q: int|
                0 <= q < l ==> (#[trigger] y_shares_by_k@[q])@.len() == n && shares_match_poly(
                    ypolys[q],
                    y_shares_by_k@[q]@,
                ),
            forall|q: int|
                0 <= q < l ==> (#[trigger] ck.ck@[q])@ == g1_mul_of(ck.g@, y_values@[q]@),
            forall|q: int|
                0 <= q < l ==> (#[trigger] ck.ck_tilde@[q])@ == g2_mul_of(
                    ck.g_tilde@,
                    y_values@[q]@,
                ),
            sk_shares@.len() == i,
            vk_shares@.len() == i,
            forall|q: int|
                0 <= q < i ==> {
                    let sk = #[trigger] sk_shares@[q];
                    let vks = vk_shares@[q];
                    &&& sk.index == q + 1
                    &&& vks.index == q + 1
                    &&& sk.y_shares@.len() == l
                    &&& vks.g_tilde_y_shares@.len() == l
                    &&& sk.x_share.val() == poly_eval(xpoly, (q + 1) as nat)
                    &&& vks.g_tilde_x_share@ == g2_mul_of(ck.g_tilde@, sk.x_share@)
                    &&& (forall|w: int|
                        0 <= w < l ==> (#[trigger] sk.y_shares@[w]).val() == poly_eval(
                            ypolys[w],
                            (q + 1) as nat,
                        ))
                    &&& (forall|w: int|
                        0 <= w < l ==> (#[trigger] vks.g_tilde_y_shares@[w])@ == g2_mul_of(
                            ck.g_tilde@,
                            sk.y_shares@[w]@,
                        ))
                },
        decreases n - i,
    {
        let idx = x_shares[i].0;
        let xs_ref = &x_shares[i].1;
        let x_share_i = xs_ref.clone();
        proof {
            use_type_invariant(xs_ref);
            use_type_invariant(&x_share_i);
        }
        let g_tilde_x_share = g2_mul(&ck.g_tilde, &x_share_i);

        let mut y_shares_i: Vec<Scalar> = Vec::new();
        let mut g_tilde_y_shares_i: Vec<G2Elem> = Vec::new();
        let mut w: usize = 0;
        while w < l
            invariant
                w <= l,
                i < n,
                y_shares_by_k@.len() == l,
                ypolys.len() == l,
                forall|q: int|
                    0 <= q < l ==> (#[trigger] y_shares_by_k@[q])@.len() == n
                        && shares_match_poly(ypolys[q], y_shares_by_k@[q]@),
                y_shares_i@.len() == w,
                g_tilde_y_shares_i@.len() == w,
                forall|q: int|
                    0 <= q < w ==> (#[trigger] y_shares_i@[q]).val() == poly_eval(
                        ypolys[q],
                        (i + 1) as nat,
                    ),
                forall|q: int|
                    0 <= q < w ==> (#[trigger] g_tilde_y_shares_i@[q])@ == g2_mul_of(
                        ck.g_tilde@,
                        y_shares_i@[q]@,
                    ),
            decreases l - w,
        {
            let row = &y_shares_by_k[w];
            let ys_ref = &row[i].1;
            let y_share_w = ys_ref.clone();
            proof {
                use_type_invariant(ys_ref);
                use_type_invariant(&y_share_w);
            }
            g_tilde_y_shares_i.push(g2_mul(&ck.g_tilde, &y_share_w));
            y_shares_i.push(y_share_w);
            w += 1;
        }

        sk_shares.push(SecretKeyShare { index: idx, x_share: x_share_i, y_shares: y_shares_i });
        vk_shares.push(VerificationKeyShare {
            index: idx,
            g_tilde_x_share,
            g_tilde_y_shares: g_tilde_y_shares_i,
        });
        i += 1;
    }

    let ts_keys = ThresholdKeys { t, n, l, sk_shares, vk_shares };
    proof {
        assert(shamir_poly_ok(xpoly, x.val(), t as nat));
        assert(xpoly[0] == x.val());
        assert(vk.g_tilde_x@ == g2_mul_of(ck.g_tilde@, x@));
        assert(x@ == fr_bytes(xpoly[0]));
        assert(forall|q: int|
            0 <= q < l ==> (#[trigger] ck.ck@[q])@ == g1_mul_of(ck.g@, fr_bytes(ypolys[q][0])));
        assert(forall|q: int|
            0 <= q < l ==> (#[trigger] ck.ck_tilde@[q])@ == g2_mul_of(
                ck.g_tilde@,
                fr_bytes(ypolys[q][0]),
            ));
        assert(keygen_rel(ck, vk, ts_keys, t as nat, n as nat, l as nat, xpoly, ypolys));
    }
    let out = (ck, vk, ts_keys);
    proof {
        assert(keygen_rel(out.0, out.1, out.2, t as nat, n as nat, l as nat, xpoly, ypolys));
    }
    out
}

} // verus!
