//! The group law in affine terms. The projective formulas of the curve
//! module compute the chord-and-tangent law: what they return stands for the
//! affine point that the law gives, wherever the divisions that the law needs
//! can be made.

use vstd::prelude::*;
use vstd::arithmetic::div_mod::{
    lemma_add_mod_noop, lemma_mod_twice, lemma_mul_mod_noop_general, lemma_small_mod,
    lemma_sub_mod_noop,
};
use crate::curve::{
    coeff_a, lemma_cross_ratio, proj_add, proj_double, to_affine, AffinePoint, ProjectivePoint,
};
use crate::fq::{
    fadd, finv, fmul, fsub, invertible, is_inverse, lemma_finv_is, lemma_invertible_is_nonzero,
    modulus,
};

verus! {

/// Whether two integers are congruent modulo `p`.
pub open spec fn cong(a: int, b: int) -> bool {
    a % modulus() == b % modulus()
}

/// Whether the three coordinates are canonical.
pub open spec fn canonical(p: ProjectivePoint) -> bool {
    0 <= p.x < modulus() && 0 <= p.y < modulus() && 0 <= p.z < modulus()
}

/// Twice an affine point, by the tangent at it: with
/// `l = (3 x^2 + a) / (2 y)`, the point `(l^2 - 2 x, l (x - x3) - y)`; the
/// point at infinity where `2 y = 0`.
pub open spec fn affine_double(p: AffinePoint) -> AffinePoint {
    match p {
        AffinePoint::Infinity => AffinePoint::Infinity,
        AffinePoint::Finite { x, y } => {
            let yy = fadd(y, y);
            if yy == 0 {
                AffinePoint::Infinity
            } else {
                let xx = fmul(x, x);
                let l = fmul(fadd(fadd(fadd(xx, xx), xx), coeff_a()), finv(yy));
                let x3 = fsub(fmul(l, l), fadd(x, x));
                AffinePoint::Finite { x: x3, y: fsub(fmul(l, fsub(x, x3)), y) }
            }
        },
    }
}

/// The sum of two affine points, by the chord through them: with
/// `l = (y2 - y1) / (x2 - x1)`, the point `(l^2 - x1 - x2, l (x1 - x3) - y1)`.
/// The point at infinity is the identity; a point added to itself is
/// doubled; two points with one `x` and different `y` give infinity.
pub open spec fn affine_add(p: AffinePoint, q: AffinePoint) -> AffinePoint {
    match (p, q) {
        (AffinePoint::Infinity, _) => q,
        (_, AffinePoint::Infinity) => p,
        (AffinePoint::Finite { x: x1, y: y1 }, AffinePoint::Finite { x: x2, y: y2 }) => {
            if x1 == x2 {
                if y1 == y2 {
                    affine_double(p)
                } else {
                    AffinePoint::Infinity
                }
            } else {
                let l = fmul(fsub(y2, y1), finv(fsub(x2, x1)));
                let x3 = fsub(fsub(fmul(l, l), x1), x2);
                AffinePoint::Finite { x: x3, y: fsub(fmul(l, fsub(x1, x3)), y1) }
            }
        },
    }
}

proof fn lemma_mul_cong(a: int, a2: int, b: int, b2: int)
    requires
        cong(a, a2),
        cong(b, b2),
    ensures
        cong(a * b, a2 * b2),
{
    lemma_mul_mod_noop_general(a, b, modulus());
    lemma_mul_mod_noop_general(a2, b2, modulus());
}

proof fn lemma_add_cong(a: int, a2: int, b: int, b2: int)
    requires
        cong(a, a2),
        cong(b, b2),
    ensures
        cong(a + b, a2 + b2),
{
    lemma_add_mod_noop(a, b, modulus());
    lemma_add_mod_noop(a2, b2, modulus());
}

proof fn lemma_sub_cong(a: int, a2: int, b: int, b2: int)
    requires
        cong(a, a2),
        cong(b, b2),
    ensures
        cong(a - b, a2 - b2),
{
    lemma_sub_mod_noop(a, b, modulus());
    lemma_sub_mod_noop(a2, b2, modulus());
}

proof fn lemma_fmul_cong(e1: int, e2: int, n1: int, n2: int)
    requires
        cong(e1, n1),
        cong(e2, n2),
    ensures
        cong(fmul(e1, e2), n1 * n2),
{
    lemma_mul_cong(e1, n1, e2, n2);
    lemma_mod_twice(e1 * e2, modulus());
}

proof fn lemma_fadd_cong(e1: int, e2: int, n1: int, n2: int)
    requires
        cong(e1, n1),
        cong(e2, n2),
    ensures
        cong(fadd(e1, e2), n1 + n2),
{
    lemma_add_cong(e1, n1, e2, n2);
    lemma_mod_twice(e1 + e2, modulus());
}

proof fn lemma_fsub_cong(e1: int, e2: int, n1: int, n2: int)
    requires
        cong(e1, n1),
        cong(e2, n2),
    ensures
        cong(fsub(e1, e2), n1 - n2),
{
    lemma_sub_cong(e1, n1, e2, n2);
    lemma_mod_twice(e1 - e2, modulus());
}

/// A factor congruent to one can be dropped.
proof fn lemma_cong_unit(t: int, e: int)
    requires
        cong(e, 1),
    ensures
        cong(t * e, t),
{
    lemma_mul_cong(t, t, e, 1);
    assert(t * 1 == t) by (nonlinear_arith);
}

/// Congruent canonical values are equal.
proof fn lemma_cong_canonical(a: int, b: int)
    requires
        cong(a, b),
        0 <= a < modulus(),
        0 <= b < modulus(),
    ensures
        a == b,
{
    lemma_small_mod(a as nat, modulus() as nat);
    lemma_small_mod(b as nat, modulus() as nat);
}

/// Two inverses of one element are congruent.
proof fn lemma_inverses_cong(z: int, i: int, k: int)
    requires
        cong(z * i, 1),
        cong(z * k, 1),
    ensures
        cong(k, i),
{
    lemma_cong_unit(k, z * i);
    lemma_cong_unit(i, z * k);
    assert(k * (z * i) == i * (z * k)) by (nonlinear_arith);
}

/// The doubling formulas in integers: with `Z iz = 1` and `S is = 1` for
/// `S = 2 Y Z`, the quotients `X3 / Z3` and `Y3 / Z3` are the coordinates
/// that the tangent with the slope `L = 3 X^2 / S` gives.
proof fn lemma_double_quotients(x: int, y: int, z: int, iz: int, is: int)
    requires
        cong(z * iz, 1),
        cong((2 * (y * z)) * is, 1),
    ensures
        ({
            let s = 2 * (y * z);
            let w = 3 * (x * x);
            let r = y * s;
            let b = 2 * (x * r);
            let h = w * w - 2 * b;
            let l = w * is;
            let xz = x * iz;
            let q = l * l - 2 * xz;
            let i3 = is * (is * is);
            &&& cong((h * s) * i3, q)
            &&& cong((w * (b - h) - 2 * (r * r)) * i3, l * (xz - q) - y * iz)
            &&& cong((2 * (y * iz)) * (is * (z * z)), 1)
            &&& cong((3 * ((x * iz) * (x * iz))) * (is * (z * z)), l)
            &&& cong((s * (s * s)) * i3, 1)
        }),
{
    let s = 2 * (y * z);
    let w = 3 * (x * x);
    let r = y * s;
    let b = 2 * (x * r);
    let h = w * w - 2 * b;
    let l = w * is;
    let xz = x * iz;
    let q = l * l - 2 * xz;
    let i2 = is * is;
    let i3 = is * i2;
    let k = 2 * (y * is);
    let u = s * is;
    let v = z * iz;
    // 2 Y / S is the inverse of Z
    assert(z * k == u) by (nonlinear_arith)
        requires
            k == 2 * (y * is),
            u == (2 * (y * z)) * is,
    ;
    lemma_inverses_cong(z, iz, k);
    // B / S^2 = X / Z
    let t = b * i2;
    assert(t == (x * k) * u) by (nonlinear_arith)
        requires
            t == (2 * (x * (y * s))) * (is * is),
            k == 2 * (y * is),
            u == s * is,
    ;
    lemma_cong_unit(x * k, u);
    lemma_mul_cong(x, x, k, iz);
    assert(cong(t, xz));
    // X3 / Z3
    let hi = h * i2;
    assert((h * s) * i3 == hi * u) by (nonlinear_arith)
        requires
            i3 == is * (is * is),
            hi == h * (is * is),
            u == s * is,
    ;
    lemma_cong_unit(hi, u);
    assert(hi == l * l - 2 * t) by (nonlinear_arith)
        requires
            hi == (w * w - 2 * b) * (is * is),
            l == w * is,
            t == b * (is * is),
    ;
    lemma_add_cong(t, xz, t, xz);
    lemma_sub_cong(l * l, l * l, t + t, xz + xz);
    assert(cong(hi, q));
    // Y3 / Z3
    let yk = y * (y * is);
    let uu = u * u;
    let d = b - h;
    let di = d * i2;
    let rr = r * r;
    assert((w * d - 2 * rr) * i3 == (w * d) * i3 - 2 * (rr * i3)) by (nonlinear_arith);
    assert((w * d) * i3 == l * di) by (nonlinear_arith)
        requires
            i3 == is * i2,
            l == w * is,
            di == d * i2,
    ;
    assert(di == t - hi) by (nonlinear_arith)
        requires
            di == (b - h) * i2,
            t == b * i2,
            hi == h * i2,
    ;
    let ys = y * is;
    let ss = s * is;
    assert(rr * i3 == ((y * ys) * ss) * ss) by (nonlinear_arith)
        requires
            rr == (y * s) * (y * s),
            i3 == is * (is * is),
            ys == y * is,
            ss == s * is,
    ;
    assert(((y * ys) * ss) * ss == yk * uu) by (nonlinear_arith)
        requires
            yk == y * ys,
            uu == ss * ss,
    ;
    assert((w * (b - h) - 2 * (r * r)) * i3 == l * (t - hi) - 2 * (yk * uu));
    lemma_mul_cong(u, 1, u, 1);
    lemma_cong_unit(yk, uu);
    assert(2 * yk == y * k) by (nonlinear_arith)
        requires
            yk == y * (y * is),
            k == 2 * (y * is),
    ;
    lemma_mul_cong(y, y, k, iz);
    lemma_add_cong(yk * uu, yk, yk * uu, yk);
    assert(cong(2 * (yk * uu), y * iz));
    lemma_sub_cong(t, xz, hi, q);
    lemma_mul_cong(l, l, t - hi, xz - q);
    lemma_sub_cong(l * (t - hi), l * (xz - q), 2 * (yk * uu), y * iz);
    // the inverse of 2 y
    assert((2 * (y * iz)) * (is * (z * z)) == u * v) by (nonlinear_arith)
        requires
            u == (2 * (y * z)) * is,
            v == z * iz,
    ;
    lemma_mul_cong(u, 1, v, 1);
    // the slope
    let vv = v * v;
    assert((3 * ((x * iz) * (x * iz))) * (is * (z * z)) == l * vv) by (nonlinear_arith)
        requires
            l == (3 * (x * x)) * is,
            vv == (z * iz) * (z * iz),
    ;
    lemma_mul_cong(v, 1, v, 1);
    lemma_cong_unit(l, vv);
    // the inverse of Z3
    assert((s * (s * s)) * i3 == uu * u) by (nonlinear_arith)
        requires
            i3 == is * (is * is),
            uu == (s * is) * (s * is),
            u == s * is,
    ;
    lemma_mul_cong(uu, 1, u, 1);
}

/// The addition formulas in integers: with `Z1 i1 = 1`, `Z2 i2 = 1` and
/// `V iv = 1` for `V = X2 Z1 - X1 Z2`, the quotients `X3 / Z3` and
/// `Y3 / Z3` are the coordinates that the chord with the slope `L = U / V`
/// gives, where `U = Y2 Z1 - Y1 Z2`.
proof fn lemma_add_quotients(
    x1: int,
    y1: int,
    z1: int,
    x2: int,
    y2: int,
    z2: int,
    i1: int,
    i2: int,
    iv: int,
)
    requires
        cong(z1 * i1, 1),
        cong(z2 * i2, 1),
        cong((x2 * z1 - x1 * z2) * iv, 1),
    ensures
        ({
            let u = y2 * z1 - y1 * z2;
            let v = x2 * z1 - x1 * z2;
            let e = z1 * z2;
            let v3 = v * (v * v);
            let r = (v * v) * (x1 * z2);
            let a = (u * u) * e - v3 - 2 * r;
            let l = u * iv;
            let q = l * l - x1 * i1 - x2 * i2;
            let i3 = (iv * (iv * iv)) * (i1 * i2);
            &&& cong((v * a) * i3, q)
            &&& cong((u * (r - a) - v3 * (y1 * z2)) * i3, l * (x1 * i1 - q) - y1 * i1)
            &&& cong((x2 * i2 - x1 * i1) * (iv * e), 1)
            &&& cong((y2 * i2 - y1 * i1) * (iv * e), l)
            &&& cong((v3 * e) * i3, 1)
        }),
{
    let u = y2 * z1 - y1 * z2;
    let v = x2 * z1 - x1 * z2;
    let e = z1 * z2;
    let vv = v * v;
    let v3 = v * vv;
    let n1 = x1 * z2;
    let n2 = x2 * z1;
    let r = vv * n1;
    let uu = u * u;
    let a = uu * e - v3 - 2 * r;
    let l = u * iv;
    let xa1 = x1 * i1;
    let xa2 = x2 * i2;
    let ya1 = y1 * i1;
    let ya2 = y2 * i2;
    let q = l * l - xa1 - xa2;
    let m = i1 * i2;
    let iv2 = iv * iv;
    let iv3 = iv * iv2;
    let i3 = iv3 * m;
    let g = iv2 * m;
    let t1 = z1 * i1;
    let t2 = z2 * i2;
    let tv = v * iv;
    let tvv = tv * tv;
    let t12 = t1 * t2;
    lemma_mul_cong(tv, 1, tv, 1);
    lemma_mul_cong(tvv, 1, tv, 1);
    lemma_mul_cong(t1, 1, t2, 1);
    assert(e * m == t12) by (nonlinear_arith)
        requires
            e == z1 * z2,
            m == i1 * i2,
            t12 == (z1 * i1) * (z2 * i2),
    ;
    assert(vv * iv2 == tvv) by (nonlinear_arith)
        requires
            vv == v * v,
            iv2 == iv * iv,
            tvv == (v * iv) * (v * iv),
    ;
    assert(v3 * iv3 == tvv * tv) by (nonlinear_arith)
        requires
            v3 == v * vv,
            iv3 == iv * iv2,
            vv * iv2 == tvv,
            tv == v * iv,
    ;
    // the inverse of Z3
    assert((v3 * e) * i3 == (v3 * iv3) * (e * m)) by (nonlinear_arith)
        requires
            i3 == iv3 * m,
    ;
    lemma_mul_cong(tvv * tv, 1, t12, 1);
    // the affine coordinates, cleared of one denominator
    assert(n2 * m == xa2 * t1 && n1 * m == xa1 * t2) by (nonlinear_arith)
        requires
            n2 == x2 * z1,
            n1 == x1 * z2,
            m == i1 * i2,
            xa2 == x2 * i2,
            xa1 == x1 * i1,
            t1 == z1 * i1,
            t2 == z2 * i2,
    ;
    lemma_cong_unit(xa2, t1);
    lemma_cong_unit(xa1, t2);
    let a1 = y1 * z2;
    assert(a1 * m == ya1 * t2) by (nonlinear_arith)
        requires
            a1 == y1 * z2,
            m == i1 * i2,
            ya1 == y1 * i1,
            t2 == z2 * i2,
    ;
    lemma_cong_unit(ya1, t2);
    // the inverse of x2 - x1, and the slope
    assert(xa2 * e == n2 * t2 && xa1 * e == n1 * t1) by (nonlinear_arith)
        requires
            n2 == x2 * z1,
            n1 == x1 * z2,
            e == z1 * z2,
            xa2 == x2 * i2,
            xa1 == x1 * i1,
            t1 == z1 * i1,
            t2 == z2 * i2,
    ;
    lemma_cong_unit(n2, t2);
    lemma_cong_unit(n1, t1);
    lemma_sub_cong(xa2 * e, n2, xa1 * e, n1);
    lemma_mul_cong(iv, iv, xa2 * e - xa1 * e, v);
    assert((xa2 - xa1) * (iv * e) == iv * (xa2 * e - xa1 * e)) by (nonlinear_arith);
    assert(iv * v == tv) by (nonlinear_arith)
        requires
            tv == v * iv,
    ;
    assert(cong((xa2 - xa1) * (iv * e), 1));
    let b1 = y1 * z2;
    let b2 = y2 * z1;
    assert(ya2 * e == b2 * t2 && ya1 * e == b1 * t1) by (nonlinear_arith)
        requires
            b2 == y2 * z1,
            b1 == y1 * z2,
            e == z1 * z2,
            ya2 == y2 * i2,
            ya1 == y1 * i1,
            t1 == z1 * i1,
            t2 == z2 * i2,
    ;
    lemma_cong_unit(b2, t2);
    lemma_cong_unit(b1, t1);
    lemma_sub_cong(ya2 * e, b2, ya1 * e, b1);
    lemma_mul_cong(iv, iv, ya2 * e - ya1 * e, u);
    assert((ya2 - ya1) * (iv * e) == iv * (ya2 * e - ya1 * e)) by (nonlinear_arith);
    assert(iv * u == l) by (nonlinear_arith)
        requires
            l == u * iv,
    ;
    assert(cong((ya2 - ya1) * (iv * e), l));
    // A / (V^2 Z1 Z2)
    let ue = uu * e;
    assert(a * g == ue * g - v3 * g - 2 * (r * g)) by (nonlinear_arith)
        requires
            a == ue - v3 - 2 * r,
    ;
    assert(ue * g == (l * l) * t12) by (nonlinear_arith)
        requires
            ue == (u * u) * e,
            g == (iv * iv) * m,
            l == u * iv,
            e * m == t12,
    ;
    lemma_cong_unit(l * l, t12);
    assert(v3 * g == (v * tvv) * m) by (nonlinear_arith)
        requires
            v3 == v * vv,
            g == iv2 * m,
            vv * iv2 == tvv,
    ;
    lemma_cong_unit(v, tvv);
    lemma_mul_cong(v * tvv, v, m, m);
    assert(v * m == n2 * m - n1 * m) by (nonlinear_arith)
        requires
            v == n2 - n1,
    ;
    lemma_sub_cong(xa2 * t1, xa2, xa1 * t2, xa1);
    assert(cong(v3 * g, xa2 - xa1));
    assert(r * g == (n1 * tvv) * m) by (nonlinear_arith)
        requires
            r == vv * n1,
            g == iv2 * m,
            vv * iv2 == tvv,
    ;
    lemma_cong_unit(n1, tvv);
    lemma_mul_cong(n1 * tvv, n1, m, m);
    assert(cong(r * g, xa1));
    lemma_sub_cong(ue * g, l * l, v3 * g, xa2 - xa1);
    lemma_add_cong(r * g, xa1, r * g, xa1);
    lemma_sub_cong(ue * g - v3 * g, l * l - (xa2 - xa1), r * g + r * g, xa1 + xa1);
    assert(cong(a * g, q));
    // X3 / Z3
    let ag = a * g;
    assert((v * a) * i3 == ag * tv) by (nonlinear_arith)
        requires
            i3 == (iv * iv2) * m,
            g == iv2 * m,
            ag == a * g,
            tv == v * iv,
    ;
    lemma_cong_unit(ag, tv);
    // Y3 / Z3
    let d = r - a;
    let dg = d * g;
    let w = v3 * a1;
    assert((u * d - w) * i3 == (u * d) * i3 - w * i3) by (nonlinear_arith);
    assert((u * d) * i3 == l * dg) by (nonlinear_arith)
        requires
            i3 == (iv * iv2) * m,
            g == iv2 * m,
            dg == d * g,
            l == u * iv,
    ;
    assert(dg == r * g - a * g) by (nonlinear_arith)
        requires
            dg == (r - a) * g,
    ;
    lemma_sub_cong(r * g, xa1, a * g, q);
    lemma_mul_cong(l, l, dg, xa1 - q);
    let am = a1 * m;
    let vi = v3 * iv3;
    assert(w * i3 == vi * am) by (nonlinear_arith)
        requires
            w == v3 * a1,
            i3 == iv3 * m,
            vi == v3 * iv3,
            am == a1 * m,
    ;
    lemma_mul_cong(vi, 1, am, ya1);
    assert(1 * ya1 == ya1) by (nonlinear_arith);
    lemma_sub_cong(l * dg, l * (xa1 - q), w * i3, ya1);
}

/// The coordinates of a double, as polynomials in the coordinates of the
/// point, up to congruence.
proof fn lemma_double_polys(p: ProjectivePoint)
    requires
        p.z != 0,
    ensures
        ({
            let s = 2 * (p.y * p.z);
            let w = 3 * (p.x * p.x);
            let r = p.y * s;
            let b = 2 * (p.x * r);
            let h = w * w - 2 * b;
            let yz = fmul(p.y, p.z);
            &&& cong(fadd(yz, yz), s)
            &&& cong(proj_double(p).x, h * s)
            &&& cong(proj_double(p).y, w * (b - h) - 2 * (r * r))
            &&& cong(proj_double(p).z, s * (s * s))
            &&& proj_double(p).z == fmul(fadd(yz, yz), fmul(fadd(yz, yz), fadd(yz, yz)))
        }),
{
    let (x, y, z) = (p.x, p.y, p.z);
    let si = 2 * (y * z);
    let wi = 3 * (x * x);
    let ri = y * si;
    let bi = 2 * (x * ri);
    let hi = wi * wi - 2 * bi;
    let xx = fmul(x, x);
    let zz = fmul(z, z);
    let az = fmul(coeff_a(), zz);
    assert(az == 0) by {
        assert(0 * zz == 0) by (nonlinear_arith);
    }
    let x3 = fadd(fadd(xx, xx), xx);
    let w = fadd(az, x3);
    let yz = fmul(y, z);
    let s = fadd(yz, yz);
    let ss = fmul(s, s);
    let r = fmul(y, s);
    let rr = fmul(r, r);
    let xr = fadd(x, r);
    let b = fsub(fsub(fmul(xr, xr), xx), rr);
    let h = fsub(fmul(w, w), fadd(b, b));
    lemma_fmul_cong(x, x, x, x);
    lemma_fadd_cong(xx, xx, x * x, x * x);
    lemma_fadd_cong(fadd(xx, xx), xx, x * x + x * x, x * x);
    lemma_fadd_cong(az, x3, 0, wi);
    lemma_fmul_cong(y, z, y, z);
    lemma_fadd_cong(yz, yz, y * z, y * z);
    lemma_fmul_cong(s, s, si, si);
    lemma_fmul_cong(s, ss, si, si * si);
    lemma_fmul_cong(y, s, y, si);
    lemma_fmul_cong(r, r, ri, ri);
    lemma_fadd_cong(x, r, x, ri);
    lemma_fmul_cong(xr, xr, x + ri, x + ri);
    lemma_fsub_cong(fmul(xr, xr), xx, (x + ri) * (x + ri), x * x);
    lemma_fsub_cong(fsub(fmul(xr, xr), xx), rr, (x + ri) * (x + ri) - x * x, ri * ri);
    assert((x + ri) * (x + ri) - x * x - ri * ri == 2 * (x * ri)) by (nonlinear_arith);
    lemma_fmul_cong(w, w, wi, wi);
    lemma_fadd_cong(b, b, bi, bi);
    lemma_fsub_cong(fmul(w, w), fadd(b, b), wi * wi, bi + bi);
    lemma_fmul_cong(h, s, hi, si);
    lemma_fsub_cong(b, h, bi, hi);
    lemma_fmul_cong(w, fsub(b, h), wi, bi - hi);
    lemma_fadd_cong(rr, rr, ri * ri, ri * ri);
    lemma_fsub_cong(fmul(w, fsub(b, h)), fadd(rr, rr), wi * (bi - hi), ri * ri + ri * ri);
}

/// Doubling computes the tangent law. For a triple with canonical
/// coordinates whose `Z` and `2 Y Z` are each zero or invertible (as every
/// residue of a prime modulus is), the double stands for the affine point
/// that the tangent at the point that the triple stands for gives.
pub proof fn lemma_double_is_tangent(p: ProjectivePoint)
    requires
        canonical(p),
        p.z == 0 || invertible(p.z),
        ({
            let yz = fmul(p.y, p.z);
            fadd(yz, yz) == 0 || invertible(fadd(yz, yz))
        }),
    ensures
        to_affine(proj_double(p)) == affine_double(to_affine(p)),
{
    if p.z != 0 {
        let (x, y, z) = (p.x, p.y, p.z);
        let iz = finv(z);
        lemma_invertible_is_nonzero(z);
        let yz = fmul(y, z);
        let s = fadd(yz, yz);
        let si = 2 * (y * z);
        lemma_double_polys(p);
        let d = proj_double(p);
        let xa = fmul(x, iz);
        let ya = fmul(y, iz);
        let yy = fadd(ya, ya);
        lemma_fmul_cong(x, iz, x, iz);
        lemma_fmul_cong(y, iz, y, iz);
        lemma_fadd_cong(ya, ya, y * iz, y * iz);
        let a2 = 2 * (y * iz);
        assert(cong(yy, a2));
        if s == 0 {
            assert(d.z == 0) by {
                assert(0 * fmul(s, s) == 0) by (nonlinear_arith);
            }
            let v = z * iz;
            let ii = iz * iz;
            lemma_cong_unit(a2, v);
            assert(a2 * v == si * ii) by (nonlinear_arith)
                requires
                    a2 == 2 * (y * iz),
                    v == z * iz,
                    si == 2 * (y * z),
                    ii == iz * iz,
            ;
            lemma_mul_cong(si, 0, ii, ii);
            assert(0 * ii == 0) by (nonlinear_arith);
            lemma_cong_canonical(yy, 0);
        } else {
            let is = finv(s);
            lemma_invertible_is_nonzero(s);
            lemma_mul_cong(s, si, is, is);
            lemma_double_quotients(x, y, z, iz, is);
            let wi = 3 * (x * x);
            let ri = y * si;
            let bi = 2 * (x * ri);
            let hi = wi * wi - 2 * bi;
            let l = wi * is;
            let xz = x * iz;
            let q = l * l - 2 * xz;
            let i3 = is * (is * is);
            // the inverse of Z3
            let i3f = fmul(is, fmul(is, is));
            lemma_fmul_cong(is, is, is, is);
            lemma_fmul_cong(is, fmul(is, is), is, is * is);
            lemma_mul_cong(d.z, si * (si * si), i3f, i3);
            assert(is_inverse(d.z, i3f)) by {
                lemma_small_mod(1, modulus() as nat);
            }
            lemma_finv_is(d.z, i3f);
            lemma_invertible_is_nonzero(d.z);
            // the inverse of 2 y
            let j = fmul(is, fmul(z, z));
            lemma_fmul_cong(z, z, z, z);
            lemma_fmul_cong(is, fmul(z, z), is, z * z);
            lemma_mul_cong(yy, a2, j, is * (z * z));
            assert(is_inverse(yy, j)) by {
                lemma_small_mod(1, modulus() as nat);
            }
            lemma_finv_is(yy, j);
            lemma_invertible_is_nonzero(yy);
            // the slope
            let xxa = fmul(xa, xa);
            let num = fadd(fadd(fadd(xxa, xxa), xxa), coeff_a());
            let xzz = xz * xz;
            lemma_fmul_cong(xa, xa, xz, xz);
            lemma_fadd_cong(xxa, xxa, xzz, xzz);
            lemma_fadd_cong(fadd(xxa, xxa), xxa, xzz + xzz, xzz);
            lemma_fadd_cong(fadd(fadd(xxa, xxa), xxa), coeff_a(), 3 * xzz, 0);
            let lf = fmul(num, j);
            lemma_fmul_cong(num, j, 3 * xzz, is * (z * z));
            assert(cong(lf, l));
            // X3 / Z3
            let x3a = fsub(fmul(lf, lf), fadd(xa, xa));
            lemma_fmul_cong(lf, lf, l, l);
            lemma_fadd_cong(xa, xa, xz, xz);
            lemma_fsub_cong(fmul(lf, lf), fadd(xa, xa), l * l, xz + xz);
            lemma_fmul_cong(d.x, i3f, hi * si, i3);
            lemma_cong_canonical(fmul(d.x, i3f), x3a);
            // Y3 / Z3
            let y3a = fsub(fmul(lf, fsub(xa, x3a)), ya);
            lemma_fsub_cong(xa, x3a, xz, q);
            lemma_fmul_cong(lf, fsub(xa, x3a), l, xz - q);
            lemma_fsub_cong(fmul(lf, fsub(xa, x3a)), ya, l * (xz - q), y * iz);
            lemma_fmul_cong(d.y, i3f, wi * (bi - hi) - 2 * (ri * ri), i3);
            lemma_cong_canonical(fmul(d.y, i3f), y3a);
        }
    }
}

/// The coordinates of a sum of two finite points with different `x`, as
/// polynomials in the coordinates of the points, up to congruence.
proof fn lemma_add_polys(p: ProjectivePoint, q: ProjectivePoint)
    requires
        p.z != 0,
        q.z != 0,
        fsub(fmul(q.x, p.z), fmul(p.x, q.z)) != 0,
    ensures
        ({
            let u = q.y * p.z - p.y * q.z;
            let v = q.x * p.z - p.x * q.z;
            let e = p.z * q.z;
            let v3 = v * (v * v);
            let r = (v * v) * (p.x * q.z);
            let a = (u * u) * e - v3 - 2 * r;
            &&& cong(fsub(fmul(q.x, p.z), fmul(p.x, q.z)), v)
            &&& cong(proj_add(p, q).x, v * a)
            &&& cong(proj_add(p, q).y, u * (r - a) - v3 * (p.y * q.z))
            &&& cong(proj_add(p, q).z, v3 * e)
        }),
{
    let (x1, y1, z1) = (p.x, p.y, p.z);
    let (x2, y2, z2) = (q.x, q.y, q.z);
    let ui = y2 * z1 - y1 * z2;
    let vi = x2 * z1 - x1 * z2;
    let ei = z1 * z2;
    let v3i = vi * (vi * vi);
    let ri = (vi * vi) * (x1 * z2);
    let ai = (ui * ui) * ei - v3i - 2 * ri;
    let y1z2 = fmul(y1, z2);
    let x1z2 = fmul(x1, z2);
    let z1z2 = fmul(z1, z2);
    let u = fsub(fmul(y2, z1), y1z2);
    let v = fsub(fmul(x2, z1), x1z2);
    let uu = fmul(u, u);
    let vv = fmul(v, v);
    let vvv = fmul(v, vv);
    let r = fmul(vv, x1z2);
    let a = fsub(fsub(fmul(uu, z1z2), vvv), fadd(r, r));
    lemma_fmul_cong(y1, z2, y1, z2);
    lemma_fmul_cong(x1, z2, x1, z2);
    lemma_fmul_cong(z1, z2, z1, z2);
    lemma_fmul_cong(y2, z1, y2, z1);
    lemma_fmul_cong(x2, z1, x2, z1);
    lemma_fsub_cong(fmul(y2, z1), y1z2, y2 * z1, y1 * z2);
    lemma_fsub_cong(fmul(x2, z1), x1z2, x2 * z1, x1 * z2);
    lemma_fmul_cong(u, u, ui, ui);
    lemma_fmul_cong(v, v, vi, vi);
    lemma_fmul_cong(v, vv, vi, vi * vi);
    lemma_fmul_cong(vv, x1z2, vi * vi, x1 * z2);
    lemma_fmul_cong(uu, z1z2, ui * ui, ei);
    lemma_fsub_cong(fmul(uu, z1z2), vvv, (ui * ui) * ei, v3i);
    lemma_fadd_cong(r, r, ri, ri);
    lemma_fsub_cong(fsub(fmul(uu, z1z2), vvv), fadd(r, r), (ui * ui) * ei - v3i, ri + ri);
    lemma_fmul_cong(v, a, vi, ai);
    lemma_fsub_cong(r, a, ri, ai);
    lemma_fmul_cong(u, fsub(r, a), ui, ri - ai);
    lemma_fmul_cong(vvv, y1z2, v3i, y1 * z2);
    lemma_fsub_cong(fmul(u, fsub(r, a)), fmul(vvv, y1z2), ui * (ri - ai), v3i * (y1 * z2));
    lemma_fmul_cong(vvv, z1z2, v3i, ei);
}

/// A difference of canonical values is zero exactly when they are equal.
proof fn lemma_fsub_zero(a: int, b: int)
    requires
        0 <= a < modulus(),
        0 <= b < modulus(),
    ensures
        fsub(a, b) == 0 <==> a == b,
{
    if fsub(a, b) == 0 {
        lemma_sub_mod_noop(a, b, modulus());
        lemma_small_mod(a as nat, modulus() as nat);
        lemma_small_mod(b as nat, modulus() as nat);
        if a >= b {
            lemma_small_mod((a - b) as nat, modulus() as nat);
        } else {
            lemma_small_mod((b - a) as nat, modulus() as nat);
            lemma_fsub_cong(b, a, b, a);
            lemma_add_cong(a - b, 0, b - a, b - a);
        }
    }
}

/// Addition computes the chord-and-tangent law. For two triples with
/// canonical coordinates, where `Z1`, `Z2`, `X2 Z1 - X1 Z2` and `2 Y1 Z1`
/// are each zero or invertible (as every residue of a prime modulus is),
/// the sum stands for the affine point that the law gives for the points
/// that the triples stand for.
pub proof fn lemma_add_is_chord(p: ProjectivePoint, q: ProjectivePoint)
    requires
        canonical(p),
        canonical(q),
        p.z == 0 || invertible(p.z),
        q.z == 0 || invertible(q.z),
        ({
            let v = fsub(fmul(q.x, p.z), fmul(p.x, q.z));
            v == 0 || invertible(v)
        }),
        ({
            let yz = fmul(p.y, p.z);
            fadd(yz, yz) == 0 || invertible(fadd(yz, yz))
        }),
    ensures
        to_affine(proj_add(p, q)) == affine_add(to_affine(p), to_affine(q)),
{
    if p.z != 0 && q.z != 0 {
        let (x1, y1, z1) = (p.x, p.y, p.z);
        let (x2, y2, z2) = (q.x, q.y, q.z);
        let i1 = finv(z1);
        let i2 = finv(z2);
        lemma_invertible_is_nonzero(z1);
        lemma_invertible_is_nonzero(z2);
        let u = fsub(fmul(y2, z1), fmul(y1, z2));
        let v = fsub(fmul(x2, z1), fmul(x1, z2));
        let xa1 = fmul(x1, i1);
        let xa2 = fmul(x2, i2);
        let ya1 = fmul(y1, i1);
        let ya2 = fmul(y2, i2);
        lemma_cross_ratio(x1, z1, i1, x2, z2, i2);
        lemma_cross_ratio(y1, z1, i1, y2, z2, i2);
        lemma_fsub_zero(fmul(x2, z1), fmul(x1, z2));
        lemma_fsub_zero(fmul(y2, z1), fmul(y1, z2));
        if v == 0 {
            assert(xa1 == xa2);
            if u == 0 {
                assert(ya1 == ya2);
                lemma_double_is_tangent(p);
            } else {
                assert(ya1 != ya2);
            }
        } else {
            assert(xa1 != xa2);
            let iv = finv(v);
            lemma_invertible_is_nonzero(v);
            lemma_add_polys(p, q);
            let d = proj_add(p, q);
            let ui = y2 * z1 - y1 * z2;
            let vi = x2 * z1 - x1 * z2;
            let ei = z1 * z2;
            let v3i = vi * (vi * vi);
            let ri = (vi * vi) * (x1 * z2);
            let ai = (ui * ui) * ei - v3i - 2 * ri;
            let l = ui * iv;
            let q3 = l * l - x1 * i1 - x2 * i2;
            let i3 = (iv * (iv * iv)) * (i1 * i2);
            lemma_mul_cong(v, vi, iv, iv);
            lemma_add_quotients(x1, y1, z1, x2, y2, z2, i1, i2, iv);
            // the inverse of Z3
            let i3f = fmul(fmul(iv, fmul(iv, iv)), fmul(i1, i2));
            lemma_fmul_cong(iv, iv, iv, iv);
            lemma_fmul_cong(iv, fmul(iv, iv), iv, iv * iv);
            lemma_fmul_cong(i1, i2, i1, i2);
            lemma_fmul_cong(fmul(iv, fmul(iv, iv)), fmul(i1, i2), iv * (iv * iv), i1 * i2);
            lemma_mul_cong(d.z, v3i * ei, i3f, i3);
            assert(is_inverse(d.z, i3f)) by {
                lemma_small_mod(1, modulus() as nat);
            }
            lemma_finv_is(d.z, i3f);
            lemma_invertible_is_nonzero(d.z);
            // the inverse of x2 - x1
            lemma_fmul_cong(x1, i1, x1, i1);
            lemma_fmul_cong(x2, i2, x2, i2);
            lemma_fmul_cong(y1, i1, y1, i1);
            lemma_fmul_cong(y2, i2, y2, i2);
            let dx = fsub(xa2, xa1);
            lemma_fsub_cong(xa2, xa1, x2 * i2, x1 * i1);
            let j = fmul(iv, fmul(z1, z2));
            lemma_fmul_cong(z1, z2, z1, z2);
            lemma_fmul_cong(iv, fmul(z1, z2), iv, ei);
            lemma_mul_cong(dx, x2 * i2 - x1 * i1, j, iv * ei);
            assert(is_inverse(dx, j)) by {
                lemma_small_mod(1, modulus() as nat);
            }
            lemma_finv_is(dx, j);
            // the slope
            let dy = fsub(ya2, ya1);
            lemma_fsub_cong(ya2, ya1, y2 * i2, y1 * i1);
            let lf = fmul(dy, j);
            lemma_fmul_cong(dy, j, y2 * i2 - y1 * i1, iv * ei);
            assert(cong(lf, l));
            // X3 / Z3
            let x3a = fsub(fsub(fmul(lf, lf), xa1), xa2);
            lemma_fmul_cong(lf, lf, l, l);
            lemma_fsub_cong(fmul(lf, lf), xa1, l * l, x1 * i1);
            lemma_fsub_cong(fsub(fmul(lf, lf), xa1), xa2, l * l - x1 * i1, x2 * i2);
            lemma_fmul_cong(d.x, i3f, vi * ai, i3);
            lemma_cong_canonical(fmul(d.x, i3f), x3a);
            // Y3 / Z3
            let y3a = fsub(fmul(lf, fsub(xa1, x3a)), ya1);
            lemma_fsub_cong(xa1, x3a, x1 * i1, q3);
            lemma_fmul_cong(lf, fsub(xa1, x3a), l, x1 * i1 - q3);
            lemma_fsub_cong(fmul(lf, fsub(xa1, x3a)), ya1, l * (x1 * i1 - q3), y1 * i1);
            lemma_fmul_cong(d.y, i3f, ui * (ri - ai) - v3i * (y1 * z2), i3);
            lemma_cong_canonical(fmul(d.y, i3f), y3a);
        }
    }
}

} // verus!
