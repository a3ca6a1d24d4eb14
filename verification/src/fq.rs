//! The base field of BLS12-381: integers modulo the 381-bit prime `p`.
//!
//! Field elements are kept in canonical form, as the integer in `[0, p)`.
//! The contracts are stated over that integer; nothing in this module relies
//! on `p` being prime, only on its being odd.

use vstd::prelude::*;
use vstd::arithmetic::div_mod::{
    lemma_fundamental_div_mod, lemma_fundamental_div_mod_converse, lemma_mul_mod_noop_general,
};
use vstd::arithmetic::power2::{lemma2_to64, lemma_pow2_adds, pow2};
use vstd::string::StringSliceAdditionalSpecFns;
use crate::decimal::{parse_below, parse_result, ConstantError};
use crate::wide::{lemma_wide_range, limbs6_value, wide_bound, Wide};

verus! {

/// The field modulus `p`.
pub open spec fn modulus() -> int {
    4002409555221667393417789825735904156556882819939007885332058136124031650490837864442687629129015664037894272559787int
}

/// Sum in the field.
pub open spec fn fadd(a: int, b: int) -> int {
    (a + b) % modulus()
}

/// Difference in the field.
pub open spec fn fsub(a: int, b: int) -> int {
    (a - b) % modulus()
}

/// Additive inverse in the field.
pub open spec fn fneg(a: int) -> int {
    (-a) % modulus()
}

/// Product in the field.
pub open spec fn fmul(a: int, b: int) -> int {
    (a * b) % modulus()
}

/// Whether `b` is a multiplicative inverse of `a`.
pub open spec fn is_inverse(a: int, b: int) -> bool {
    (a * b) % modulus() == 1
}

/// Whether `a` has a multiplicative inverse modulo `p`.
pub open spec fn invertible(a: int) -> bool {
    exists|b: int| 0 <= b < modulus() && #[trigger] is_inverse(a, b)
}

/// The canonical inverse of `a`, or zero where `a` has none.
pub open spec fn finv(a: int) -> int {
    if invertible(a) {
        choose|b: int| 0 <= b < modulus() && #[trigger] is_inverse(a, b)
    } else {
        0
    }
}

/// `floor(2^768 / p)`, the factor of the Barrett quotient estimate.
pub open spec fn barrett_factor() -> int {
    387895858952076949850655135101097619915683056388127769962234230165833549439524687160934695519155361600282632981166638int
}

/// The product `d * k`, named so that it can be matched on.
pub open spec fn times(d: int, k: int) -> int {
    d * k
}

/// Whether `d` divides `n`.
pub open spec fn divides(d: int, n: int) -> bool {
    exists|k: int| n == #[trigger] times(d, k)
}

/// A field element in canonical form.
#[derive(Clone, Copy, Debug, PartialEq, Eq)]
pub struct Fq {
    limbs: [u64; 6],
}

impl View for Fq {
    type V = int;

    closed spec fn view(&self) -> int {
        limbs6_value(self.limbs)
    }
}

/// The modulus as a wide integer.
pub(crate) fn modulus_wide() -> (r: Wide)
    ensures
        r@ == modulus(),
{
    Wide::from_limbs(
        [
            0xb9feffffffffaaab,
            0x1eabfffeb153ffff,
            0x6730d2a0f6b0f624,
            0x64774b84f38512bf,
            0x4b1ba7b6434bacd7,
            0x1a0111ea397fe69a,
            0,
            0,
            0,
            0,
            0,
            0,
            0,
        ],
    )
}

fn barrett_factor_wide() -> (r: Wide)
    ensures
        r@ == barrett_factor(),
{
    Wide::from_limbs(
        [
            0x13e207f56591ba2e,
            0x997167a058f1c07b,
            0xdf4771e0286779d3,
            0x1b82741ff6a0a94b,
            0x28101b0cc7a6ba29,
            0xd835d2f3cc9e45ce,
            0x9,
            0,
            0,
            0,
            0,
            0,
            0,
        ],
    )
}

proof fn lemma_pow2_shifts()
    ensures
        pow2(320) == 0x1_0000_0000_0000_0000_0000_0000_0000_0000_0000_0000_0000_0000_0000_0000_0000_0000_0000_0000_0000_0000int,
        pow2(448) == 0x1_0000_0000_0000_0000_0000_0000_0000_0000_0000_0000_0000_0000_0000_0000_0000_0000_0000_0000_0000_0000_0000_0000_0000_0000_0000_0000_0000_0000int,
{
    lemma2_to64();
    lemma_pow2_adds(64, 64);
    lemma_pow2_adds(128, 64);
    lemma_pow2_adds(192, 128);
    lemma_pow2_adds(320, 128);
    let a = pow2(64) as int;
    let b = pow2(128) as int;
    let c = pow2(192) as int;
    let d = pow2(320) as int;
    let e = pow2(448) as int;
    assert(b == 0x1_0000_0000_0000_0000_0000_0000_0000_0000int) by (nonlinear_arith)
        requires
            a == 0x1_0000_0000_0000_0000int,
            b == a * a,
    ;
    assert(c == 0x1_0000_0000_0000_0000_0000_0000_0000_0000_0000_0000_0000_0000int) by (nonlinear_arith)
        requires
            a == 0x1_0000_0000_0000_0000int,
            b == 0x1_0000_0000_0000_0000_0000_0000_0000_0000int,
            c == b * a,
    ;
    assert(d == 0x1_0000_0000_0000_0000_0000_0000_0000_0000_0000_0000_0000_0000_0000_0000_0000_0000_0000_0000_0000_0000int) by (nonlinear_arith)
        requires
            b == 0x1_0000_0000_0000_0000_0000_0000_0000_0000int,
            c == 0x1_0000_0000_0000_0000_0000_0000_0000_0000_0000_0000_0000_0000int,
            d == c * b,
    ;
    assert(e == 0x1_0000_0000_0000_0000_0000_0000_0000_0000_0000_0000_0000_0000_0000_0000_0000_0000_0000_0000_0000_0000_0000_0000_0000_0000_0000_0000_0000_0000int) by (nonlinear_arith)
        requires
            b == 0x1_0000_0000_0000_0000_0000_0000_0000_0000int,
            d == 0x1_0000_0000_0000_0000_0000_0000_0000_0000_0000_0000_0000_0000_0000_0000_0000_0000_0000_0000_0000_0000int,
            e == d * b,
    ;
}

proof fn lemma_barrett_quotient(x: int, t: int, q: int, p: int, mu: int, s: int, w: int)
    by (nonlinear_arith)
    requires
        0 <= t,
        0 <= q,
        0 < p,
        0 <= mu,
        0 < s,
        0 < w,
        t * s <= x,
        q * w <= t * mu,
        mu * p <= s * w,
    ensures
        q * p <= x,
{
    assert((q * w) * p <= (t * mu) * p);
    assert(t * (mu * p) <= t * (s * w));
    assert((t * s) * w <= x * w);
    assert((q * p) * w <= x * w);
}

/// `x mod p`, for `x` below `p^2`, by Barrett reduction: a quotient estimate
/// from two shifts and a product, then subtraction of `p` until canonical.
fn reduce(x: &Wide) -> (r: Wide)
    requires
        0 <= x@ < modulus() * modulus(),
    ensures
        r@ == x@ % modulus(),
{
    let p = modulus_wide();
    let mu = barrett_factor_wide();
    let ghost s = pow2(320) as int;
    let ghost w = pow2(448) as int;
    let t = x.shr(320);
    proof {
        lemma_pow2_shifts();
        lemma_wide_range(*x);
        lemma_fundamental_div_mod(x@, s);
        assert(0 <= t@ && t@ * s <= x@);
        assert(0 <= t@ * mu@ < wide_bound());
    }
    let m = t.mul(&mu);
    let q = m.shr(448);
    proof {
        lemma_fundamental_div_mod(m@, w);
        assert(0 <= q@ && q@ * w <= t@ * mu@);
        lemma_barrett_quotient(x@, t@, q@, modulus(), barrett_factor(), s, w);
        assert(0 <= q@ * p@ <= x@) by (nonlinear_arith)
            requires
                0 <= q@,
                0 < p@,
                p@ == modulus(),
                q@ * modulus() <= x@,
        ;
    }
    let qp = q.mul(&p);
    let mut r = x.sub(&qp);
    let ghost mut k: int = q@;
    while !r.lt(&p)
        invariant
            p@ == modulus(),
            0 <= r@,
            x@ == r@ + k * modulus(),
        decreases r@,
    {
        r = r.sub(&p);
        proof {
            k = k + 1;
        }
    }
    proof {
        lemma_fundamental_div_mod_converse(x@, modulus(), k, r@);
    }
    r
}

proof fn lemma_divides_double(d: int, n: int)
    requires
        divides(d, n),
    ensures
        divides(d, 2 * n),
{
    let k = choose|k: int| n == #[trigger] times(d, k);
    assert(2 * n == d * (2 * k)) by (nonlinear_arith)
        requires
            n == d * k,
    ;
    assert(2 * n == times(d, 2 * k));
}

proof fn lemma_divides_sum(d: int, x: int, y: int)
    requires
        divides(d, x),
        divides(d, y),
    ensures
        divides(d, x + y),
{
    let j = choose|k: int| x == #[trigger] times(d, k);
    let k = choose|k: int| y == #[trigger] times(d, k);
    assert(x + y == d * (j + k)) by (nonlinear_arith)
        requires
            x == d * j,
            y == d * k,
    ;
    assert(x + y == times(d, j + k));
}

proof fn lemma_odd_factor(p: int, w: int, x: int)
    requires
        p % 2 == 1,
        p * w == 2 * x,
    ensures
        w % 2 == 0,
        x == p * (w / 2),
{
    let h = p / 2;
    assert(p * w == 2 * (h * w) + w) by (nonlinear_arith)
        requires
            p == 2 * h + 1,
    ;
    let y = w / 2;
    assert(p * w == 2 * (p * y)) by (nonlinear_arith)
        requires
            w == 2 * y,
    ;
}

proof fn lemma_halve_step(a: int, b: int, b2: int, u: int, u2: int, kb: int, p: int) -> (k2: int)
    requires
        p % 2 == 1,
        a * b - u == kb * p,
        2 * u2 == u,
        2 * b2 == b || 2 * b2 == b + p,
    ensures
        a * b2 - u2 == k2 * p,
{
    let e: int = if 2 * b2 == b { 0 } else { 1 };
    let w = kb + a * e;
    let x = a * b2 - u2;
    assert(p * w == 2 * x) by (nonlinear_arith)
        requires
            a * b - u == kb * p,
            2 * u2 == u,
            2 * b2 == b + e * p,
            w == kb + a * e,
            x == a * b2 - u2,
    ;
    lemma_odd_factor(p, w, x);
    assert(x == (w / 2) * p) by (nonlinear_arith)
        requires
            x == p * (w / 2),
    ;
    w / 2
}

proof fn lemma_sub_step(
    a: int,
    b: int,
    c: int,
    b2: int,
    u: int,
    v: int,
    kb: int,
    kc: int,
    p: int,
) -> (k2: int)
    requires
        a * b - u == kb * p,
        a * c - v == kc * p,
        b2 == b - c || b2 == b - c + p,
    ensures
        a * b2 - (u - v) == k2 * p,
{
    let e: int = if b2 == b - c { 0 } else { 1 };
    let k2 = kb - kc + a * e;
    assert(a * b2 - (u - v) == k2 * p) by (nonlinear_arith)
        requires
            a * b - u == kb * p,
            a * c - v == kc * p,
            b2 == b - c + e * p,
            k2 == kb - kc + a * e,
    ;
    k2
}

/// A common divisor `g >= 2` of `a` and `p` rules out an inverse of `a`.
proof fn lemma_common_divisor_blocks(a: int, g: int)
    requires
        g >= 2,
        divides(g, a),
        divides(g, modulus()),
    ensures
        !invertible(a),
{
    if invertible(a) {
        let y = choose|b: int| 0 <= b < modulus() && #[trigger] is_inverse(a, b);
        let ka = choose|k: int| a == #[trigger] times(g, k);
        let kp = choose|k: int| modulus() == #[trigger] times(g, k);
        let m = (a * y) / modulus();
        lemma_fundamental_div_mod(a * y, modulus());
        let p = modulus();
        let z = ka * y - kp * m;
        assert(g * z == 1) by (nonlinear_arith)
            requires
                a == g * ka,
                p == g * kp,
                a * y == p * m + 1,
                z == ka * y - kp * m,
        ;
        assert(false) by (nonlinear_arith)
            requires
                g >= 2,
                g * z == 1,
        ;
    }
}

/// An inverse modulo `p` is unique among canonical values.
pub proof fn lemma_inverse_unique(a: int, b: int, c: int)
    requires
        0 <= b < modulus(),
        0 <= c < modulus(),
        is_inverse(a, b),
        is_inverse(a, c),
    ensures
        b == c,
{
    let p = modulus();
    let m1 = (a * b) / p;
    let m2 = (a * c) / p;
    lemma_fundamental_div_mod(a * b, p);
    lemma_fundamental_div_mod(a * c, p);
    let k = c * m1 - b * m2;
    assert(b - c == p * k) by (nonlinear_arith)
        requires
            a * b == p * m1 + 1,
            a * c == p * m2 + 1,
            k == c * m1 - b * m2,
    ;
    assert(k == 0) by (nonlinear_arith)
        requires
            b - c == p * k,
            -p < b - c < p,
            p > 0,
    ;
}

/// Where `b` is a canonical inverse of `a`, it is the one that `finv` names.
pub proof fn lemma_finv_is(a: int, b: int)
    requires
        0 <= b < modulus(),
        is_inverse(a, b),
    ensures
        invertible(a),
        finv(a) == b,
        is_inverse(a, finv(a)),
{
    let c = choose|c: int| 0 <= c < modulus() && #[trigger] is_inverse(a, c);
    lemma_inverse_unique(a, b, c);
}

/// A product in the field, from its quotient and remainder by `p`.
pub proof fn lemma_fmul_value(a: int, b: int, q: int, r: int)
    requires
        a * b == q * modulus() + r,
        0 <= r < modulus(),
    ensures
        fmul(a, b) == r,
{
    lemma_fundamental_div_mod_converse(a * b, modulus(), q, r);
}

/// An invertible element is not zero, and `finv` names its inverse.
pub proof fn lemma_invertible_is_nonzero(z: int)
    requires
        invertible(z),
    ensures
        z != 0,
        is_inverse(z, finv(z)),
        0 <= finv(z) < modulus(),
{
    let b = choose|b: int| 0 <= b < modulus() && #[trigger] is_inverse(z, b);
    if z == 0 {
        assert(z * b == 0) by (nonlinear_arith)
            requires
                z == 0,
        ;
    }
}

/// Multiplication in the field is associative.
pub proof fn lemma_fmul_assoc(a: int, b: int, c: int)
    ensures
        fmul(fmul(a, b), c) == fmul(a, fmul(b, c)),
{
    let p = modulus();
    lemma_mul_mod_noop_general(a * b, c, p);
    lemma_mul_mod_noop_general(a, b * c, p);
    assert((a * b) * c == a * (b * c)) by (nonlinear_arith);
}

/// Multiplication in the field is commutative.
pub proof fn lemma_fmul_comm(a: int, b: int)
    ensures
        fmul(a, b) == fmul(b, a),
{
    assert(a * b == b * a) by (nonlinear_arith);
}

/// The order of two successive factors does not matter.
pub proof fn lemma_fmul_swap(a: int, b: int, c: int)
    ensures
        fmul(fmul(a, b), c) == fmul(fmul(a, c), b),
{
    lemma_fmul_assoc(a, b, c);
    lemma_fmul_assoc(a, c, b);
    lemma_fmul_comm(b, c);
}

/// Multiplying by an element and then by its inverse changes nothing.
pub proof fn lemma_fmul_cancel(a: int, z: int, i: int)
    requires
        0 <= a < modulus(),
        is_inverse(z, i),
    ensures
        fmul(fmul(a, z), i) == a,
{
    lemma_fmul_assoc(a, z, i);
    lemma_mul_mod_noop_general(a, z * i, modulus());
    assert(a * 1 == a) by (nonlinear_arith);
}

/// One is the multiplicative identity on canonical values, and its own inverse.
pub proof fn lemma_fmul_one(a: int)
    requires
        0 <= a < modulus(),
    ensures
        fmul(a, 1) == a,
        fmul(1, a) == a,
        finv(1) == 1,
{
    assert(a * 1 == a && 1 * a == a) by (nonlinear_arith);
    assert(is_inverse(1, 1));
    lemma_finv_is(1, 1);
}

/// `b - c` modulo `p`, for canonical `b` and `c`.
fn sub_mod(b: &Wide, c: &Wide, p: &Wide) -> (r: Wide)
    requires
        p@ == modulus(),
        0 <= b@ < modulus(),
        0 <= c@ < modulus(),
    ensures
        0 <= r@ < modulus(),
        r@ == b@ - c@ || r@ == b@ - c@ + modulus(),
{
    if b.lt(c) {
        b.add(p).sub(c)
    } else {
        b.sub(c)
    }
}

/// Half of `b` modulo the odd `p`: the canonical `h` with `2h = b (mod p)`.
fn halve_mod(b: &Wide, p: &Wide) -> (h: Wide)
    requires
        p@ == modulus(),
        0 <= b@ < modulus(),
    ensures
        0 <= h@ < modulus(),
        2 * h@ == b@ || 2 * h@ == b@ + modulus(),
{
    if b.is_odd() {
        b.add(p).half()
    } else {
        b.half()
    }
}

proof fn lemma_product_bound(a: int, b: int, p: int)
    by (nonlinear_arith)
    requires
        0 <= a < p,
        0 <= b < p,
    ensures
        0 <= a * b < p * p,
{
}

impl Fq {
    #[verifier::type_invariant]
    spec fn canonical(self) -> bool {
        limbs6_value(self.limbs) < modulus()
    }

    /// The element as a wide integer.
    pub(crate) fn to_wide(&self) -> (w: Wide)
        ensures
            w@ == self@,
            0 <= w@ < modulus(),
    {
        proof {
            use_type_invariant(self);
        }
        Wide::from_limbs6(&self.limbs)
    }

    /// The element with the given canonical value.
    pub(crate) fn from_wide(w: &Wide) -> (r: Fq)
        requires
            0 <= w@ < modulus(),
        ensures
            r@ == w@,
    {
        Fq { limbs: w.low6() }
    }

    /// The additive identity.
    pub fn zero() -> (r: Fq)
        ensures
            r@ == 0,
    {
        Fq { limbs: [0, 0, 0, 0, 0, 0] }
    }

    /// The multiplicative identity.
    pub fn one() -> (r: Fq)
        ensures
            r@ == 1,
    {
        Fq { limbs: [1, 0, 0, 0, 0, 0] }
    }

    /// The element `n`.
    pub fn from_u64(n: u64) -> (r: Fq)
        ensures
            r@ == n,
    {
        Fq { limbs: [n, 0, 0, 0, 0, 0] }
    }

    /// The element with the given little-endian limbs, known to be below `p`.
    pub(crate) fn from_canonical_limbs(limbs: [u64; 6]) -> (r: Fq)
        requires
            limbs6_value(limbs) < modulus(),
        ensures
            r@ == limbs6_value(limbs),
    {
        Fq { limbs }
    }

    /// The element with the given little-endian limbs, if they are below `p`.
    pub fn from_limbs(limbs: [u64; 6]) -> (r: Option<Fq>)
        ensures
            r is Some <==> limbs6_value(limbs) < modulus(),
            r is Some ==> r->0@ == limbs6_value(limbs),
    {
        let w = Wide::from_limbs6(&limbs);
        if w.lt(&modulus_wide()) {
            Some(Fq { limbs })
        } else {
            None
        }
    }

    /// The element that a canonical decimal numeral below `p` denotes.
    pub fn from_decimal(s: &str) -> (r: Result<Fq, ConstantError>)
        ensures
            parse_result(
                s.spec_bytes(),
                modulus(),
                match r {
                    Ok(x) => Ok(x@),
                    Err(e) => Err(e),
                },
            ),
    {
        match parse_below(s.as_bytes(), &modulus_wide()) {
            Ok(w) => Ok(Fq::from_wide(&w)),
            Err(e) => Err(e),
        }
    }

    /// The little-endian limbs of the canonical value.
    pub fn to_limbs(&self) -> (r: [u64; 6])
        ensures
            limbs6_value(r) == self@,
            0 <= self@ < modulus(),
    {
        proof {
            use_type_invariant(self);
        }
        self.limbs
    }

    /// Whether this is the additive identity.
    pub fn is_zero(&self) -> (r: bool)
        ensures
            r == (self@ == 0),
    {
        self.to_wide().is_zero()
    }

    /// Whether two elements are equal.
    pub fn equals(&self, other: &Fq) -> (r: bool)
        ensures
            r == (self@ == other@),
    {
        self.to_wide().same(&other.to_wide())
    }

    /// `self + rhs`.
    pub fn add(&self, rhs: &Fq) -> (r: Fq)
        ensures
            r@ == fadd(self@, rhs@),
    {
        let p = modulus_wide();
        let s = self.to_wide().add(&rhs.to_wide());
        if s.lt(&p) {
            Fq::from_wide(&s)
        } else {
            Fq::from_wide(&s.sub(&p))
        }
    }

    /// `2 * self`.
    pub fn double(&self) -> (r: Fq)
        ensures
            r@ == fadd(self@, self@),
    {
        self.add(self)
    }

    /// `self - rhs`.
    pub fn sub(&self, rhs: &Fq) -> (r: Fq)
        ensures
            r@ == fsub(self@, rhs@),
    {
        let d = sub_mod(&self.to_wide(), &rhs.to_wide(), &modulus_wide());
        Fq::from_wide(&d)
    }

    /// The multiplicative inverse, by the binary extended Euclidean
    /// algorithm; `None` exactly where no inverse exists.
    pub fn inverse(&self) -> (r: Option<Fq>)
        ensures
            r is Some <==> invertible(self@),
            r is Some ==> r->0@ == finv(self@) && is_inverse(self@, r->0@),
    {
        let a = self.to_wide();
        let p = modulus_wide();
        if a.is_zero() {
            proof {
                assert forall|b: int| !#[trigger] is_inverse(a@, b) by {
                    assert(a@ * b == 0) by (nonlinear_arith)
                        requires
                            a@ == 0,
                    ;
                }
            }
            return None;
        }
        let mut u = a;
        let mut v = p;
        let mut b = Wide::from_u64(1);
        let mut c = Wide::from_u64(0);
        let ghost mut kb: int = 0;
        let ghost mut kc: int = -1;
        proof {
            assert(a@ * b@ - u@ == kb * modulus()) by (nonlinear_arith)
                requires
                    b@ == 1,
                    u@ == a@,
                    kb == 0,
            ;
            assert(a@ * c@ - v@ == kc * modulus()) by (nonlinear_arith)
                requires
                    c@ == 0,
                    v@ == modulus(),
                    kc == -1,
            ;
        }
        while !u.same(&v)
            invariant
                p@ == modulus(),
                a@ == self@,
                0 < a@ < modulus(),
                1 <= u@ <= modulus(),
                1 <= v@ <= modulus(),
                0 <= b@ < modulus(),
                0 <= c@ < modulus(),
                a@ * b@ - u@ == kb * modulus(),
                a@ * c@ - v@ == kc * modulus(),
                u@ % 2 == 1 || v@ % 2 == 1,
                forall|d: int|
                    divides(d, u@) && divides(d, v@) ==> divides(d, a@) && divides(
                        d,
                        modulus(),
                    ),
            decreases u@ + v@,
        {
            if !u.is_odd() {
                let u2 = u.half();
                let b2 = halve_mod(&b, &p);
                proof {
                    kb = lemma_halve_step(a@, b@, b2@, u@, u2@, kb, modulus());
                    assert forall|d: int| divides(d, u2@) && divides(d, v@) implies divides(
                        d,
                        a@,
                    ) && divides(d, modulus()) by {
                        lemma_divides_double(d, u2@);
                    }
                }
                u = u2;
                b = b2;
            } else if !v.is_odd() {
                let v2 = v.half();
                let c2 = halve_mod(&c, &p);
                proof {
                    kc = lemma_halve_step(a@, c@, c2@, v@, v2@, kc, modulus());
                    assert forall|d: int| divides(d, u@) && divides(d, v2@) implies divides(
                        d,
                        a@,
                    ) && divides(d, modulus()) by {
                        lemma_divides_double(d, v2@);
                    }
                }
                v = v2;
                c = c2;
            } else if v.lt(&u) {
                let u2 = u.sub(&v);
                let b2 = sub_mod(&b, &c, &p);
                proof {
                    kb = lemma_sub_step(a@, b@, c@, b2@, u@, v@, kb, kc, modulus());
                    assert forall|d: int| divides(d, u2@) && divides(d, v@) implies divides(
                        d,
                        a@,
                    ) && divides(d, modulus()) by {
                        lemma_divides_sum(d, u2@, v@);
                    }
                }
                u = u2;
                b = b2;
            } else {
                let v2 = v.sub(&u);
                let c2 = sub_mod(&c, &b, &p);
                proof {
                    kc = lemma_sub_step(a@, c@, b@, c2@, v@, u@, kc, kb, modulus());
                    assert forall|d: int| divides(d, u@) && divides(d, v2@) implies divides(
                        d,
                        a@,
                    ) && divides(d, modulus()) by {
                        lemma_divides_sum(d, v2@, u@);
                    }
                }
                v = v2;
                c = c2;
            }
        }
        if u.same(&Wide::from_u64(1)) {
            proof {
                lemma_fundamental_div_mod_converse(a@ * b@, modulus(), kb, 1);
                lemma_finv_is(a@, b@);
            }
            Some(Fq::from_wide(&b))
        } else {
            proof {
                assert(u@ == times(u@, 1));
                assert(divides(u@, u@));
                lemma_common_divisor_blocks(a@, u@);
            }
            None
        }
    }

    /// The multiplicative inverse where there is one, else zero.
    pub fn inverse_or_zero(&self) -> (r: Fq)
        ensures
            r@ == finv(self@),
    {
        match self.inverse() {
            Some(x) => x,
            None => Fq::zero(),
        }
    }

    /// `self * rhs`.
    pub fn mul(&self, rhs: &Fq) -> (r: Fq)
        ensures
            r@ == fmul(self@, rhs@),
    {
        let a = self.to_wide();
        let b = rhs.to_wide();
        proof {
            lemma_product_bound(a@, b@, modulus());
        }
        let x = a.mul(&b);
        let r = reduce(&x);
        Fq::from_wide(&r)
    }

    /// `self * self`.
    pub fn square(&self) -> (r: Fq)
        ensures
            r@ == fmul(self@, self@),
    {
        self.mul(self)
    }

    /// `-self`.
    pub fn neg(&self) -> (r: Fq)
        ensures
            r@ == fneg(self@),
    {
        Fq::zero().sub(self)
    }
}

} // verus!
