//! Conversion of many projective points to affine form with one shared
//! field inversion (Montgomery's trick).
//!
//! The running product of the `Z` coordinates of the finite points is
//! inverted once; walking back through the points, each `1/Z` is recovered
//! with two multiplications. Points at infinity take no part in the product.

use vstd::prelude::*;
use crate::curve::{to_affine, AffinePoint, G1Affine, G1Projective, ProjectivePoint};
use crate::fq::{
    fmul, invertible, is_inverse, lemma_finv_is, lemma_fmul_assoc, lemma_fmul_comm,
    lemma_fmul_one, Fq,
};

verus! {

/// Whether every point of `v` is the point at infinity.
pub open spec fn all_infinity(v: Seq<G1Projective>) -> bool {
    forall|i: int| 0 <= i < v.len() ==> (#[trigger] v[i])@.z == 0
}

/// What a point contributes to the shared product: its `Z`, or one for the
/// point at infinity.
pub open spec fn factor(p: ProjectivePoint) -> int {
    if p.z == 0 {
        1
    } else {
        p.z
    }
}

/// The product of the factors of the first `n` points.
pub open spec fn factor_product(v: Seq<G1Projective>, n: int) -> int
    decreases n,
{
    if n <= 0 {
        1
    } else {
        fmul(factor_product(v, n - 1), factor(v[n - 1]@))
    }
}

/// From an inverse of the product of `k + 1` factors: the inverse of the
/// last factor, and an inverse of the product of the first `k`.
proof fn lemma_peel(inv: int, before: int, z: int)
    requires
        is_inverse(inv, fmul(before, z)),
    ensures
        is_inverse(z, fmul(inv, before)),
        is_inverse(fmul(inv, z), before),
{
    lemma_fmul_comm(before, z);
    lemma_fmul_assoc(inv, z, before);
    lemma_fmul_assoc(z, inv, before);
    lemma_fmul_comm(z, inv);
}

fn all_at_infinity(n: usize) -> (out: Vec<G1Affine>)
    ensures
        out@.len() == n,
        forall|i: int| 0 <= i < n ==> (#[trigger] out@[i])@ == AffinePoint::Infinity,
{
    let mut out: Vec<G1Affine> = Vec::new();
    let mut i: usize = 0;
    while i < n
        invariant
            i <= n,
            out@.len() == i,
            forall|j: int| 0 <= j < i ==> (#[trigger] out@[j])@ == AffinePoint::Infinity,
        decreases n - i,
    {
        out.push(G1Affine::Infinity);
        i = i + 1;
    }
    out
}

/// Each point converted on its own, with one inversion per finite point.
fn normalize_each(v: &[G1Projective]) -> (r: (Vec<G1Affine>, usize))
    ensures
        r.0@.len() == v@.len(),
        forall|i: int| 0 <= i < v@.len() ==> (#[trigger] r.0@[i])@ == to_affine(v@[i]@),
{
    let n: usize = v.len();
    let mut out: Vec<G1Affine> = Vec::new();
    let mut count: usize = 0;
    let mut i: usize = 0;
    while i < n
        invariant
            n == v@.len(),
            i <= n,
            count <= i,
            out@.len() == i,
            forall|j: int| 0 <= j < i ==> (#[trigger] out@[j])@ == to_affine(v@[j]@),
        decreases n - i,
    {
        if !v[i].is_zero() {
            count = count + 1;
        }
        out.push(v[i].into_affine());
        i = i + 1;
    }
    (out, count)
}

/// The affine form of every point of `v`, in order, and the number of field
/// inversions that were made: none where every point is at infinity, else
/// one.
pub fn batch_normalize_counted(v: &[G1Projective]) -> (r: (Vec<G1Affine>, usize))
    ensures
        r.0@.len() == v@.len(),
        forall|i: int| 0 <= i < v@.len() ==> (#[trigger] r.0@[i])@ == to_affine(v@[i]@),
        all_infinity(v@) ==> r.1 == 0 && forall|i: int|
            0 <= i < v@.len() ==> (#[trigger] r.0@[i])@ == AffinePoint::Infinity,
        !all_infinity(v@) && invertible(factor_product(v@, v@.len() as int)) ==> r.1 == 1,
{
    let n: usize = v.len();
    let mut prefix: Vec<Fq> = Vec::new();
    let mut acc = Fq::one();
    let mut any_finite = false;
    let mut i: usize = 0;
    while i < n
        invariant
            n == v@.len(),
            i <= n,
            prefix@.len() == i,
            forall|j: int| 0 <= j < i ==> (#[trigger] prefix@[j])@ == factor_product(v@, j),
            acc@ == factor_product(v@, i as int),
            !any_finite ==> forall|j: int| 0 <= j < i ==> (#[trigger] v@[j])@.z == 0,
            any_finite ==> !all_infinity(v@),
        decreases n - i,
    {
        prefix.push(acc);
        let z = v[i].z;
        if !z.is_zero() {
            acc = acc.mul(&z);
            any_finite = true;
        } else {
            proof {
                lemma_fmul_one(factor_product(v@, i as int));
            }
        }
        i = i + 1;
    }
    if !any_finite {
        return (all_at_infinity(n), 0);
    }
    let mut inv = match acc.inverse() {
        Some(x) => x,
        None => {
            let (out, count) = normalize_each(v);
            return (out, if count < usize::MAX { count + 1 } else { count });
        },
    };
    let mut out = all_at_infinity(n);
    let mut k: usize = n;
    while k > 0
        invariant
            n == v@.len(),
            k <= n,
            prefix@.len() == n,
            forall|j: int| 0 <= j < n ==> (#[trigger] prefix@[j])@ == factor_product(v@, j),
            out@.len() == n,
            forall|j: int| 0 <= j < k ==> (#[trigger] out@[j])@ == AffinePoint::Infinity,
            forall|j: int| k <= j < n ==> (#[trigger] out@[j])@ == to_affine(v@[j]@),
            is_inverse(inv@, factor_product(v@, k as int)),
        decreases k,
    {
        k = k - 1;
        let p = v[k];
        if !p.z.is_zero() {
            let before = prefix[k];
            let z_inv = inv.mul(&before);
            proof {
                lemma_peel(inv@, before@, p.z@);
                lemma_finv_is(p.z@, z_inv@);
            }
            inv = inv.mul(&p.z);
            out.set(k, G1Affine::Finite { x: p.x.mul(&z_inv), y: p.y.mul(&z_inv) });
        } else {
            proof {
                lemma_fmul_one(factor_product(v@, k as int));
            }
        }
    }
    (out, 1)
}

/// The affine form of every point of `v`, in order: what converting each
/// point on its own gives, at the price of a single inversion.
pub fn batch_normalize(v: &[G1Projective]) -> (r: Vec<G1Affine>)
    ensures
        r@.len() == v@.len(),
        forall|i: int| 0 <= i < v@.len() ==> (#[trigger] r@[i])@ == to_affine(v@[i]@),
{
    batch_normalize_counted(v).0
}

impl G1Projective {
    /// The affine form of every point of `v`, in order, with one inversion.
    pub fn normalize_batch(v: &[G1Projective]) -> (r: Vec<G1Affine>)
        ensures
            r@.len() == v@.len(),
            forall|i: int| 0 <= i < v@.len() ==> (#[trigger] r@[i])@ == to_affine(v@[i]@),
    {
        batch_normalize(v)
    }
}

} // verus!
