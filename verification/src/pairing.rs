//! The pairing-check accumulator: Miller-loop products are collected on
//! the left, expected targets on the right, and one final exponentiation
//! decides them all. A counter tracks contributions that were not
//! blinded by a random coefficient; more than one such contribution can
//! never verify, since un-randomized checks could cancel one another.

use crate::group::{
    final_exp, final_exp_of, g1_mul, g1_mul_of, g1_views, g2_views, gt_mul, gt_mul_of, gt_one,
    gt_one_bytes, gt_pow, gt_pow_of, miller_of, miller_prod, G1Elem, G2Elem, GtElem,
};
use crate::rng::SeedRng;
use crate::scalar::Scalar;
use vstd::prelude::*;

verus! {

/// The byte views of a sequence of target-field elements.
pub open spec fn gt_views(s: Seq<GtElem>) -> Seq<Seq<u8>> {
    s.map_values(|e: GtElem| e@)
}

/// Each `G1` view scaled by one coefficient.
pub open spec fn scaled_g1(g1s: Seq<Seq<u8>>, alpha: Scalar) -> Seq<Seq<u8>> {
    Seq::new(g1s.len(), |i: int| g1_mul_of(g1s[i], alpha@))
}

/// How two accumulated sides combine: multiplying by one is skipped.
pub open spec fn mul_unless_one(a: Seq<u8>, b: Seq<u8>) -> Seq<u8> {
    if a == gt_one_bytes() {
        b
    } else if b == gt_one_bytes() {
        a
    } else {
        gt_mul_of(a, b)
    }
}

/// The left side of a product of target-field elements, folded in order
/// from the given accumulator.
pub open spec fn gt_fold(s: Seq<Seq<u8>>, acc: Seq<u8>) -> Seq<u8>
    decreases s.len(),
{
    if s.len() == 0 {
        acc
    } else {
        gt_fold(s.skip(1), gt_mul_of(acc, s[0]))
    }
}

/// The right side a randomized check stores for a target: one stays
/// one, anything else is raised to the coefficient.
pub open spec fn rand_target(out: Seq<u8>, alpha: Scalar) -> Seq<u8> {
    if out == gt_one_bytes() {
        out
    } else {
        gt_pow_of(out, alpha@)
    }
}

/// Whether a finished accumulator verifies: at most one un-randomized
/// contribution, and the final exponentiation of the left side meets
/// the right side.
pub open spec fn check_passes(left: Seq<u8>, right: Seq<u8>, unrandomized: nat) -> bool {
    unrandomized <= 1 && final_exp_of(left) == Some(right)
}

/// An accumulator of pairing checks: a Miller-loop product on the left,
/// a target on the right, and the count of un-randomized contributions.
pub struct PairingCheck {
    left: GtElem,
    right: GtElem,
    non_randomized: u8,
}

impl PairingCheck {
    /// The accumulated left side.
    pub closed spec fn left_v(self) -> Seq<u8> {
        self.left@
    }

    /// The accumulated right side.
    pub closed spec fn right_v(self) -> Seq<u8> {
        self.right@
    }

    /// How many contributions came in without a random coefficient.
    pub closed spec fn unrandomized(self) -> nat {
        self.non_randomized as nat
    }

    /// The empty check `1 = 1`, which counts as randomized.
    pub fn new() -> (r: PairingCheck)
        ensures
            r.left_v() == gt_one_bytes(),
            r.right_v() == gt_one_bytes(),
            r.unrandomized() == 0,
    {
        PairingCheck { left: gt_one(), right: gt_one(), non_randomized: 0 }
    }

    /// A check that can never verify, whatever is merged into it.
    pub fn new_invalid() -> (r: PairingCheck)
        ensures
            r.unrandomized() == 2,
    {
        PairingCheck { left: gt_one(), right: gt_one(), non_randomized: 2 }
    }

    /// An un-randomized check: the product of the given Miller-loop
    /// outputs against the given target. Counts one toward the
    /// un-randomized limit.
    pub fn from_products(lefts: Vec<GtElem>, right: GtElem) -> (r: PairingCheck)
        ensures
            r.left_v() == gt_fold(gt_views(lefts@), gt_one_bytes()),
            r.right_v() == right@,
            r.unrandomized() == 1,
    {
        let mut acc = gt_one();
        let mut i: usize = 0;
        proof {
            assert(gt_views(lefts@).skip(0) =~= gt_views(lefts@));
        }
        while i < lefts.len()
            invariant
                i <= lefts@.len(),
                gt_fold(gt_views(lefts@).skip(i as int), acc@) == gt_fold(
                    gt_views(lefts@),
                    gt_one_bytes(),
                ),
            decreases lefts@.len() - i,
        {
            let acc2 = gt_mul(&acc, &lefts[i]);
            proof {
                let vs = gt_views(lefts@);
                assert(vs.skip(i as int)[0] == vs[i as int]);
                assert(vs.skip(i as int).skip(1) =~= vs.skip(i as int + 1));
            }
            acc = acc2;
            i += 1;
        }
        proof {
            assert(gt_views(lefts@).skip(lefts@.len() as int) =~= Seq::<Seq<u8>>::empty());
        }
        PairingCheck { left: acc, right, non_randomized: 1 }
    }

    /// A randomized check for `∏ e(A_i, B_i) = out`: a fresh nonzero
    /// coefficient scales every `G1` point and raises the target. Counts
    /// nothing toward the un-randomized limit.
    pub fn rand(rng: &mut SeedRng, g1s: &Vec<G1Elem>, g2s: &Vec<G2Elem>, out: &GtElem) -> (r:
        PairingCheck)
        requires
            g1s@.len() == g2s@.len(),
        ensures
            exists|alpha: Scalar|
                alpha.val() != 0 && r.left_v() == miller_of(
                    scaled_g1(g1_views(g1s@), alpha),
                    g2_views(g2s@),
                ) && r.right_v() == rand_target(out@, alpha) && r.unrandomized() == 0,
    {
        let coeff = rng.next_scalar_nonzero();
        let mut scaled: Vec<G1Elem> = Vec::new();
        let mut i: usize = 0;
        while i < g1s.len()
            invariant
                i <= g1s@.len(),
                scaled@.len() == i,
                forall|k: int|
                    0 <= k < i ==> (#[trigger] scaled@[k])@ == g1_mul_of(g1s@[k]@, coeff@),
            decreases g1s@.len() - i,
        {
            scaled.push(g1_mul(&g1s[i], &coeff));
            i += 1;
        }
        proof {
            assert(g1_views(scaled@) =~= scaled_g1(g1_views(g1s@), coeff));
        }
        let left = miller_prod(&scaled, g2s);
        let right = if out.is_one() {
            out.clone()
        } else {
            gt_pow(out, &coeff)
        };
        let r = PairingCheck { left, right, non_randomized: 0 };
        proof {
            assert(r.left_v() == miller_of(scaled_g1(g1_views(g1s@), coeff), g2_views(g2s@))
                && r.right_v() == rand_target(out@, coeff) && r.unrandomized() == 0);
        }
        r
    }

    /// Folds another check into this one: sides multiply (skipping
    /// ones), and the un-randomized counts add, capped at the counter's
    /// width.
    pub fn merge(&mut self, p2: &PairingCheck)
        ensures
            final(self).left_v() == mul_unless_one(old(self).left_v(), p2.left_v()),
            final(self).right_v() == mul_unless_one(old(self).right_v(), p2.right_v()),
            final(self).unrandomized() == if old(self).unrandomized() + p2.unrandomized() > 255 {
                255nat
            } else {
                old(self).unrandomized() + p2.unrandomized()
            },
    {
        if self.left.is_one() {
            self.left = p2.left.clone();
        } else if p2.left.is_one() {
        } else {
            let combined = gt_mul(&self.left, &p2.left);
            self.left = combined;
        }
        if self.right.is_one() {
            self.right = p2.right.clone();
        } else if p2.right.is_one() {
        } else {
            let combined = gt_mul(&self.right, &p2.right);
            self.right = combined;
        }
        let total: u16 = self.non_randomized as u16 + p2.non_randomized as u16;
        self.non_randomized = if total > 255 {
            255
        } else {
            total as u8
        };
    }

    /// Decides the accumulated check: false outright when more than one
    /// un-randomized contribution came in, else one final exponentiation
    /// against the right side.
    pub fn verify(&self) -> (r: bool)
        ensures
            r == check_passes(self.left_v(), self.right_v(), self.unrandomized()),
    {
        if self.non_randomized > 1 {
            return false;
        }
        match final_exp(&self.left) {
            Some(v) => v.equals(&self.right),
            None => false,
        }
    }
}

impl Clone for PairingCheck {
    fn clone(&self) -> (r: Self)
        ensures
            r.left_v() == self.left_v(),
            r.right_v() == self.right_v(),
            r.unrandomized() == self.unrandomized(),
    {
        PairingCheck {
            left: self.left.clone(),
            right: self.right.clone(),
            non_randomized: self.non_randomized,
        }
    }
}

/// Merging two checks that were both built without randomization can
/// never verify, whatever their sides hold: the counter alone rejects
/// the merge, closing the cross-cancellation route.
pub proof fn lemma_two_unrandomized_never_verify(a: PairingCheck, b: PairingCheck, merged: PairingCheck)
    requires
        a.unrandomized() >= 1,
        b.unrandomized() >= 1,
        merged.unrandomized() == if a.unrandomized() + b.unrandomized() > 255 {
            255nat
        } else {
            a.unrandomized() + b.unrandomized()
        },
    ensures
        !check_passes(merged.left_v(), merged.right_v(), merged.unrandomized()),
{
}

/// Checks one pairing equation `∏ e(A_i, B_i) = target` (target one
/// when absent) through a single randomized check.
pub fn verify_pairing_equation(
    g1s: &Vec<G1Elem>,
    g2s: &Vec<G2Elem>,
    target: Option<&GtElem>,
    rng: &mut SeedRng,
) -> (r: bool)
    requires
        g1s@.len() == g2s@.len(),
    ensures
        exists|alpha: Scalar|
            alpha.val() != 0 && r == check_passes(
                miller_of(scaled_g1(g1_views(g1s@), alpha), g2_views(g2s@)),
                rand_target(
                    match target {
                        Some(t) => t@,
                        None => gt_one_bytes(),
                    },
                    alpha,
                ),
                0,
            ),
{
    let target_value = match target {
        Some(t) => t.clone(),
        None => gt_one(),
    };
    let check = PairingCheck::rand(rng, g1s, g2s, &target_value);
    check.verify()
}

/// Builds a randomized check for later merging.
pub fn create_check(
    g1s: &Vec<G1Elem>,
    g2s: &Vec<G2Elem>,
    target: Option<&GtElem>,
    rng: &mut SeedRng,
) -> (r: PairingCheck)
    requires
        g1s@.len() == g2s@.len(),
    ensures
        exists|alpha: Scalar|
            alpha.val() != 0 && r.left_v() == miller_of(
                scaled_g1(g1_views(g1s@), alpha),
                g2_views(g2s@),
            ) && r.right_v() == rand_target(
                match target {
                    Some(t) => t@,
                    None => gt_one_bytes(),
                },
                alpha,
            ) && r.unrandomized() == 0,
{
    let target_value = match target {
        Some(t) => t.clone(),
        None => gt_one(),
    };
    PairingCheck::rand(rng, g1s, g2s, &target_value)
}

} // verus!
