//! Points of the curve `y^2 = x^3 + 4` over the base field, in affine and in
//! homogeneous projective coordinates, with the chord-and-tangent group law.
//!
//! A projective triple `(X, Y, Z)` with `Z != 0` stands for the affine point
//! `(X/Z, Y/Z)`; every triple with `Z = 0` stands for the point at infinity.
//! That the formulas below compute the chord-and-tangent law on those affine
//! points is proved in the module `group_law`.

use vstd::prelude::*;
use vstd::arithmetic::div_mod::lemma_div_denominator;
use vstd::arithmetic::power2::{lemma2_to64, lemma_pow2_pos, lemma_pow2_unfold, pow2};
use vstd::bits::lemma_u64_shr_is_div;
use crate::fq::{
    fadd, finv, fmul, fsub, invertible, is_inverse, lemma_fmul_cancel, lemma_fmul_comm,
    lemma_fmul_one, lemma_fmul_swap, lemma_invertible_is_nonzero, modulus, Fq,
};
use crate::params::Parameters;

verus! {

/// An affine point, as a mathematical value.
pub enum AffinePoint {
    /// The point at infinity.
    Infinity,
    /// The finite point `(x, y)`.
    Finite { x: int, y: int },
}

/// A projective triple, as a mathematical value.
pub struct ProjectivePoint {
    pub x: int,
    pub y: int,
    pub z: int,
}

/// The coefficient `a` of the curve equation.
pub open spec fn coeff_a() -> int {
    0
}

/// The coefficient `b` of the curve equation.
pub open spec fn coeff_b() -> int {
    4
}

/// `x^3 + a*x + b` in the field.
pub open spec fn weierstrass_rhs(a: int, b: int, x: int) -> int {
    fadd(fadd(fmul(fmul(x, x), x), fmul(a, x)), b)
}

/// Whether `(x, y)` satisfies `y^2 = x^3 + a*x + b`.
pub open spec fn satisfies_equation(a: int, b: int, x: int, y: int) -> bool {
    fmul(y, y) == weierstrass_rhs(a, b, x)
}

/// Whether an affine point lies on the curve; the point at infinity does.
pub open spec fn on_curve(p: AffinePoint) -> bool {
    match p {
        AffinePoint::Infinity => true,
        AffinePoint::Finite { x, y } => satisfies_equation(coeff_a(), coeff_b(), x, y),
    }
}

/// Whether a triple satisfies the homogeneous equation
/// `Y^2 Z = X^3 + a X Z^2 + b Z^3`.
pub open spec fn proj_on_curve(p: ProjectivePoint) -> bool {
    let zz = fmul(p.z, p.z);
    fmul(fmul(p.y, p.y), p.z) == fadd(
        fadd(fmul(fmul(p.x, p.x), p.x), fmul(fmul(coeff_a(), p.x), zz)),
        fmul(coeff_b(), fmul(zz, p.z)),
    )
}

/// The triple `(0, 1, 0)`, which stands for the point at infinity.
pub open spec fn proj_identity() -> ProjectivePoint {
    ProjectivePoint { x: 0, y: 1, z: 0 }
}

/// Twice a point: infinity for infinity, else the tangent formulas.
pub open spec fn proj_double(p: ProjectivePoint) -> ProjectivePoint {
    if p.z == 0 {
        proj_identity()
    } else {
        let xx = fmul(p.x, p.x);
        let zz = fmul(p.z, p.z);
        let w = fadd(fmul(coeff_a(), zz), fadd(fadd(xx, xx), xx));
        let yz = fmul(p.y, p.z);
        let s = fadd(yz, yz);
        let ss = fmul(s, s);
        let sss = fmul(s, ss);
        let r = fmul(p.y, s);
        let rr = fmul(r, r);
        let xr = fadd(p.x, r);
        let b = fsub(fsub(fmul(xr, xr), xx), rr);
        let h = fsub(fmul(w, w), fadd(b, b));
        ProjectivePoint {
            x: fmul(h, s),
            y: fsub(fmul(w, fsub(b, h)), fadd(rr, rr)),
            z: sss,
        }
    }
}

/// The sum of two points. Infinity is the identity; equal points are
/// doubled; opposite points give infinity; else the chord formulas.
pub open spec fn proj_add(p: ProjectivePoint, q: ProjectivePoint) -> ProjectivePoint {
    if p.z == 0 {
        q
    } else if q.z == 0 {
        p
    } else {
        let y1z2 = fmul(p.y, q.z);
        let x1z2 = fmul(p.x, q.z);
        let z1z2 = fmul(p.z, q.z);
        let u = fsub(fmul(q.y, p.z), y1z2);
        let v = fsub(fmul(q.x, p.z), x1z2);
        if v == 0 {
            if u == 0 {
                proj_double(p)
            } else {
                proj_identity()
            }
        } else {
            let uu = fmul(u, u);
            let vv = fmul(v, v);
            let vvv = fmul(v, vv);
            let r = fmul(vv, x1z2);
            let a = fsub(fsub(fmul(uu, z1z2), vvv), fadd(r, r));
            ProjectivePoint {
                x: fmul(v, a),
                y: fsub(fmul(u, fsub(r, a)), fmul(vvv, y1z2)),
                z: fmul(vvv, z1z2),
            }
        }
    }
}

/// Whether two triples stand for the same point: both for infinity, or
/// neither and `X1 Z2 = X2 Z1` and `Y1 Z2 = Y2 Z1`.
pub open spec fn proj_eq(p: ProjectivePoint, q: ProjectivePoint) -> bool {
    if p.z == 0 {
        q.z == 0
    } else if q.z == 0 {
        false
    } else {
        fmul(p.x, q.z) == fmul(q.x, p.z) && fmul(p.y, q.z) == fmul(q.y, p.z)
    }
}

/// The affine point that a triple stands for: `(X/Z, Y/Z)`, or infinity.
pub open spec fn to_affine(p: ProjectivePoint) -> AffinePoint {
    if p.z == 0 {
        AffinePoint::Infinity
    } else {
        AffinePoint::Finite { x: fmul(p.x, finv(p.z)), y: fmul(p.y, finv(p.z)) }
    }
}

/// The triple `(x, y, 1)` for a finite point, `(0, 1, 0)` for infinity.
pub open spec fn to_projective(a: AffinePoint) -> ProjectivePoint {
    match a {
        AffinePoint::Infinity => proj_identity(),
        AffinePoint::Finite { x, y } => ProjectivePoint { x, y, z: 1 },
    }
}

/// `k` times a point, by doubling and adding along the binary digits of `k`
/// from the most significant down: `k P = 2 (floor(k/2) P) + (k mod 2) P`.
pub open spec fn scalar_mul(p: ProjectivePoint, k: nat) -> ProjectivePoint
    decreases k,
{
    if k == 0 {
        proj_identity()
    } else {
        let d = proj_double(scalar_mul(p, k / 2));
        if k % 2 == 1 {
            proj_add(d, p)
        } else {
            d
        }
    }
}

/// The number that little-endian 64-bit limbs denote.
pub open spec fn limbs_nat(s: Seq<u64>) -> nat
    decreases s.len(),
{
    if s.len() == 0 {
        0
    } else {
        (s[0] as nat) + 0x1_0000_0000_0000_0000 * limbs_nat(s.skip(1))
    }
}

/// One step of double-and-add: appending a binary digit to the scalar
/// doubles the point and adds the base where the digit is one.
pub proof fn lemma_scalar_mul_step(p: ProjectivePoint, n: nat, bit: nat)
    requires
        bit <= 1,
    ensures
        scalar_mul(p, 2 * n + bit) == if bit == 1 {
            proj_add(proj_double(scalar_mul(p, n)), p)
        } else {
            proj_double(scalar_mul(p, n))
        },
{
    let k = 2 * n + bit;
    if k != 0 {
        assert(k / 2 == n && k % 2 == bit);
    }
}

proof fn lemma_digit_step(limb: nat, hi: nat, i: nat)
    requires
        i < 64,
    ensures
        hi * pow2((64 - i) as nat) + limb / pow2(i) == 2 * (hi * pow2((63 - i) as nat) + limb / pow2(
            i + 1,
        )) + (limb / pow2(i)) % 2,
{
    lemma_pow2_unfold((64 - i) as nat);
    lemma_pow2_unfold(i + 1);
    lemma_pow2_pos(i);
    lemma_div_denominator(limb as int, pow2(i) as int, 2);
    let a = pow2((63 - i) as nat);
    assert(hi * (2 * a) == 2 * (hi * a)) by (nonlinear_arith);
    assert(pow2(i + 1) == pow2(i) * 2);
}

/// An affine point of G1's curve: infinity, or a pair of coordinates.
#[derive(Clone, Copy, Debug, PartialEq, Eq)]
pub enum G1Affine {
    /// The point at infinity.
    Infinity,
    /// The finite point `(x, y)`.
    Finite { x: Fq, y: Fq },
}

impl View for G1Affine {
    type V = AffinePoint;

    open spec fn view(&self) -> AffinePoint {
        match *self {
            G1Affine::Infinity => AffinePoint::Infinity,
            G1Affine::Finite { x, y } => AffinePoint::Finite { x: x@, y: y@ },
        }
    }
}

/// A point of G1's curve in homogeneous projective coordinates.
#[derive(Clone, Copy, Debug)]
pub struct G1Projective {
    pub x: Fq,
    pub y: Fq,
    pub z: Fq,
}

impl View for G1Projective {
    type V = ProjectivePoint;

    open spec fn view(&self) -> ProjectivePoint {
        ProjectivePoint { x: self.x@, y: self.y@, z: self.z@ }
    }
}

/// `x^3 + a*x + b`, given `a*x`.
pub(crate) fn weierstrass_rhs_exec(ax: &Fq, b: &Fq, x: &Fq) -> (r: Fq)
    ensures
        forall|a: int| ax@ == fmul(a, x@) ==> r@ == #[trigger] weierstrass_rhs(a, b@, x@),
{
    x.square().mul(x).add(ax).add(b)
}

impl G1Affine {
    /// The point at infinity.
    pub fn identity() -> (r: G1Affine)
        ensures
            r@ == AffinePoint::Infinity,
    {
        G1Affine::Infinity
    }

    /// The finite point `(x, y)`, whether or not it lies on the curve.
    pub fn new_unchecked(x: Fq, y: Fq) -> (r: G1Affine)
        ensures
            r@ == (AffinePoint::Finite { x: x@, y: y@ }),
    {
        G1Affine::Finite { x, y }
    }

    /// Whether this is the point at infinity.
    pub fn is_zero(&self) -> (r: bool)
        ensures
            r == (self@ == AffinePoint::Infinity),
    {
        match self {
            G1Affine::Infinity => true,
            G1Affine::Finite { .. } => false,
        }
    }

    /// The coordinates of a finite point.
    pub fn xy(&self) -> (r: Option<(Fq, Fq)>)
        ensures
            match r {
                Some((x, y)) => self@ == (AffinePoint::Finite { x: x@, y: y@ }),
                None => self@ == AffinePoint::Infinity,
            },
    {
        match self {
            G1Affine::Infinity => None,
            G1Affine::Finite { x, y } => Some((*x, *y)),
        }
    }

    /// Whether the point satisfies the curve equation.
    pub fn is_on_curve(&self) -> (r: bool)
        ensures
            r == on_curve(self@),
    {
        match self {
            G1Affine::Infinity => true,
            G1Affine::Finite { x, y } => {
                let ax = Parameters::mul_by_a(*x);
                let rhs = weierstrass_rhs_exec(&ax, &Parameters::coeff_b(), x);
                y.square().equals(&rhs)
            },
        }
    }

    /// The same point in projective coordinates.
    pub fn into_group(&self) -> (r: G1Projective)
        ensures
            r@ == to_projective(self@),
    {
        match self {
            G1Affine::Infinity => G1Projective::zero(),
            G1Affine::Finite { x, y } => G1Projective { x: *x, y: *y, z: Fq::one() },
        }
    }
}

impl G1Projective {
    /// The point at infinity, as the triple `(0, 1, 0)`.
    pub fn zero() -> (r: G1Projective)
        ensures
            r@ == proj_identity(),
    {
        G1Projective { x: Fq::zero(), y: Fq::one(), z: Fq::zero() }
    }

    /// The triple `(x, y, z)`, whether or not it lies on the curve.
    pub fn new_unchecked(x: Fq, y: Fq, z: Fq) -> (r: G1Projective)
        ensures
            r@ == (ProjectivePoint { x: x@, y: y@, z: z@ }),
    {
        G1Projective { x, y, z }
    }

    /// Whether this is the point at infinity.
    pub fn is_zero(&self) -> (r: bool)
        ensures
            r == (self@.z == 0),
    {
        self.z.is_zero()
    }

    /// Whether the triple satisfies the homogeneous curve equation.
    pub fn is_on_curve(&self) -> (r: bool)
        ensures
            r == proj_on_curve(self@),
    {
        let zz = self.z.square();
        let lhs = self.y.square().mul(&self.z);
        let ax = Parameters::mul_by_a(self.x);
        let bz = Parameters::coeff_b().mul(&zz.mul(&self.z));
        let rhs = self.x.square().mul(&self.x).add(&ax.mul(&zz)).add(&bz);
        lhs.equals(&rhs)
    }

    /// Twice this point.
    pub fn double(&self) -> (r: G1Projective)
        ensures
            r@ == proj_double(self@),
    {
        if self.z.is_zero() {
            return G1Projective::zero();
        }
        let xx = self.x.square();
        let zz = self.z.square();
        let w = Parameters::mul_by_a(zz).add(&xx.double().add(&xx));
        let s = self.y.mul(&self.z).double();
        let ss = s.square();
        let sss = s.mul(&ss);
        let r = self.y.mul(&s);
        let rr = r.square();
        let b = self.x.add(&r).square().sub(&xx).sub(&rr);
        let h = w.square().sub(&b.double());
        G1Projective { x: h.mul(&s), y: w.mul(&b.sub(&h)).sub(&rr.double()), z: sss }
    }

    /// The sum of this point and `other`.
    pub fn add(&self, other: &G1Projective) -> (r: G1Projective)
        ensures
            r@ == proj_add(self@, other@),
    {
        if self.z.is_zero() {
            return *other;
        }
        if other.z.is_zero() {
            return *self;
        }
        let y1z2 = self.y.mul(&other.z);
        let x1z2 = self.x.mul(&other.z);
        let z1z2 = self.z.mul(&other.z);
        let u = other.y.mul(&self.z).sub(&y1z2);
        let v = other.x.mul(&self.z).sub(&x1z2);
        if v.is_zero() {
            if u.is_zero() {
                return self.double();
            } else {
                return G1Projective::zero();
            }
        }
        let uu = u.square();
        let vv = v.square();
        let vvv = v.mul(&vv);
        let r = vv.mul(&x1z2);
        let a = uu.mul(&z1z2).sub(&vvv).sub(&r.double());
        G1Projective {
            x: v.mul(&a),
            y: u.mul(&r.sub(&a)).sub(&vvv.mul(&y1z2)),
            z: vvv.mul(&z1z2),
        }
    }

    /// Whether this triple and `other` stand for the same point, compared
    /// by cross-multiplication.
    pub fn equals(&self, other: &G1Projective) -> (r: bool)
        ensures
            r == proj_eq(self@, other@),
    {
        if self.z.is_zero() {
            return other.z.is_zero();
        }
        if other.z.is_zero() {
            return false;
        }
        self.x.mul(&other.z).equals(&other.x.mul(&self.z)) && self.y.mul(&other.z).equals(
            &other.y.mul(&self.z),
        )
    }

    /// The affine point that this triple stands for, with one inversion.
    pub fn into_affine(&self) -> (r: G1Affine)
        ensures
            r@ == to_affine(self@),
    {
        if self.z.is_zero() {
            G1Affine::Infinity
        } else {
            let zi = self.z.inverse_or_zero();
            G1Affine::Finite { x: self.x.mul(&zi), y: self.y.mul(&zi) }
        }
    }

    /// This point times the scalar with the given little-endian limbs, by
    /// double-and-add over every binary digit, most significant first.
    pub fn mul_bigint(&self, scalar: &[u64]) -> (r: G1Projective)
        ensures
            r@ == scalar_mul(self@, limbs_nat(scalar@)),
    {
        let mut acc = G1Projective::zero();
        let mut j: usize = scalar.len();
        assert(scalar@.skip(j as int) =~= Seq::<u64>::empty());
        while j > 0
            invariant
                j <= scalar@.len(),
                acc@ == scalar_mul(self@, limbs_nat(scalar@.skip(j as int))),
            decreases j,
        {
            j = j - 1;
            let limb: u64 = scalar[j];
            let ghost hi = limbs_nat(scalar@.skip(j + 1));
            let mut i: u64 = 64;
            proof {
                lemma2_to64();
                assert(limb as nat / pow2(64) == 0);
                assert(hi * pow2(0) == hi) by (nonlinear_arith)
                    requires
                        pow2(0) == 1,
                ;
            }
            while i > 0
                invariant
                    i <= 64,
                    acc@ == scalar_mul(
                        self@,
                        hi * pow2((64 - i) as nat) + limb as nat / pow2(i as nat),
                    ),
                decreases i,
            {
                i = i - 1;
                let bit: u64 = (limb >> i) % 2;
                proof {
                    lemma_u64_shr_is_div(limb, i);
                    lemma_digit_step(limb as nat, hi, i as nat);
                    lemma_scalar_mul_step(
                        self@,
                        hi * pow2((63 - i) as nat) + limb as nat / pow2((i + 1) as nat),
                        bit as nat,
                    );
                }
                acc = acc.double();
                if bit == 1 {
                    acc = acc.add(self);
                }
            }
            proof {
                lemma2_to64();
                assert(scalar@.skip(j as int).skip(1) =~= scalar@.skip(j + 1));
                assert(limb as nat / pow2(0) == limb);
                assert(hi * pow2(64) == 0x1_0000_0000_0000_0000 * hi) by (nonlinear_arith)
                    requires
                        pow2(64) == 0x1_0000_0000_0000_0000,
                ;
                assert(limbs_nat(scalar@.skip(j as int)) == limb + 0x1_0000_0000_0000_0000 * hi);
            }
        }
        assert(scalar@.skip(0) =~= scalar@);
        acc
    }
}

/// The point at infinity is the identity of addition: added to a point on
/// either side it gives that point back, coordinate for coordinate (and,
/// for another triple that stands for infinity, again infinity). Its double
/// is the point at infinity.
pub proof fn lemma_identity_laws(p: ProjectivePoint)
    ensures
        proj_add(proj_identity(), p) == p,
        p.z != 0 ==> proj_add(p, proj_identity()) == p,
        proj_eq(proj_add(p, proj_identity()), p),
        to_affine(proj_add(p, proj_identity())) == to_affine(p),
        proj_double(proj_identity()) == proj_identity(),
        p.z == 0 ==> proj_double(p) == proj_identity(),
{
}

/// Equality by cross-multiplication is equality of the affine points: for
/// triples with canonical coordinates and invertible `Z`, `proj_eq` holds
/// exactly when both stand for the same affine point.
pub proof fn lemma_eq_is_affine_eq(p: ProjectivePoint, q: ProjectivePoint)
    requires
        0 <= p.x < modulus() && 0 <= p.y < modulus() && 0 <= p.z < modulus(),
        0 <= q.x < modulus() && 0 <= q.y < modulus() && 0 <= q.z < modulus(),
        invertible(p.z),
        invertible(q.z),
    ensures
        proj_eq(p, q) <==> to_affine(p) == to_affine(q),
{
    let i1 = finv(p.z);
    let i2 = finv(q.z);
    lemma_invertible_is_nonzero(p.z);
    lemma_invertible_is_nonzero(q.z);
    lemma_cross_ratio(p.x, p.z, i1, q.x, q.z, i2);
    lemma_cross_ratio(p.y, p.z, i1, q.y, q.z, i2);
}

/// `x1 z2 = x2 z1` exactly when `x1 / z1 = x2 / z2`.
pub proof fn lemma_cross_ratio(x1: int, z1: int, i1: int, x2: int, z2: int, i2: int)
    requires
        0 <= x1 < modulus(),
        0 <= x2 < modulus(),
        is_inverse(z1, i1),
        is_inverse(z2, i2),
    ensures
        fmul(x1, z2) == fmul(x2, z1) <==> fmul(x1, i1) == fmul(x2, i2),
{
    let a1 = fmul(x1, i1);
    let a2 = fmul(x2, i2);
    lemma_fmul_comm(z1, i1);
    lemma_fmul_comm(z2, i2);
    if fmul(x1, z2) == fmul(x2, z1) {
        lemma_fmul_cancel(a1, z2, i2);
        lemma_fmul_swap(x1, i1, z2);
        lemma_fmul_cancel(x2, z1, i1);
    }
    if a1 == a2 {
        lemma_fmul_cancel(x1, i1, z1);
        lemma_fmul_cancel(x2, i2, z2);
        lemma_fmul_swap(a1, z1, z2);
    }
}

/// Once a point is the point itself, twice a point is its double, and
/// nought times a point is the point at infinity.
pub proof fn lemma_scalar_mul_small(p: ProjectivePoint)
    ensures
        scalar_mul(p, 0) == proj_identity(),
        scalar_mul(p, 1) == p,
        scalar_mul(p, 2) == proj_double(p),
{
    reveal_with_fuel(scalar_mul, 3);
}

/// A finite affine point with canonical coordinates survives the passage
/// to projective coordinates and back.
pub proof fn lemma_round_trip(a: AffinePoint)
    requires
        a matches AffinePoint::Finite { x, y } ==> 0 <= x < modulus() && 0 <= y < modulus(),
    ensures
        to_affine(to_projective(a)) == a,
{
    match a {
        AffinePoint::Infinity => {},
        AffinePoint::Finite { x, y } => {
            lemma_fmul_one(x);
            lemma_fmul_one(y);
        },
    }
}

} // verus!
