//! Unsigned 832-bit integers, held as thirteen little-endian 64-bit limbs.
//!
//! The limb-level work (carry chains, schoolbook products, shifts) is done by
//! `ark_ff::BigInt<13>`; the functions that call it are the only trusted
//! items of this module. Everything else is proved from their contracts.

use vstd::prelude::*;
use vstd::arithmetic::div_mod::lemma_small_mod;
use vstd::arithmetic::power2::{lemma2_to64, pow2};

verus! {

/// The value of thirteen little-endian limbs: `l[0] + 2^64 * l[1] + ...`.
pub open spec fn limbs_value(l: [u64; 13]) -> int {
    l[0] + 0x1_0000_0000_0000_0000int * (l[1] + 0x1_0000_0000_0000_0000int * (l[2]
        + 0x1_0000_0000_0000_0000int * (l[3] + 0x1_0000_0000_0000_0000int * (l[4]
        + 0x1_0000_0000_0000_0000int * (l[5] + 0x1_0000_0000_0000_0000int * (l[6]
        + 0x1_0000_0000_0000_0000int * (l[7] + 0x1_0000_0000_0000_0000int * (l[8]
        + 0x1_0000_0000_0000_0000int * (l[9] + 0x1_0000_0000_0000_0000int * (l[10]
        + 0x1_0000_0000_0000_0000int * (l[11] + 0x1_0000_0000_0000_0000int * (l[12] as int))))))))))))
}

/// The value of six little-endian limbs: `l[0] + 2^64 * l[1] + ...`.
pub open spec fn limbs6_value(l: [u64; 6]) -> int {
    l[0] + 0x1_0000_0000_0000_0000int * (l[1] + 0x1_0000_0000_0000_0000int * (l[2]
        + 0x1_0000_0000_0000_0000int * (l[3] + 0x1_0000_0000_0000_0000int * (l[4]
        + 0x1_0000_0000_0000_0000int * (l[5] as int)))))
}

/// The value of four little-endian limbs: `l[0] + 2^64 * l[1] + ...`.
pub open spec fn limbs4_value(l: [u64; 4]) -> int {
    l[0] + 0x1_0000_0000_0000_0000int * (l[1] + 0x1_0000_0000_0000_0000int * (l[2]
        + 0x1_0000_0000_0000_0000int * (l[3] as int)))
}

/// `2^256`, one more than the largest value four limbs can hold.
pub open spec fn limbs4_bound() -> int {
    0x10000000000000000000000000000000000000000000000000000000000000000int
}

/// `2^384`, one more than the largest value six limbs can hold.
pub open spec fn limbs6_bound() -> int {
    0x1000000000000000000000000000000000000000000000000000000000000000000000000000000000000000000000000int
}

/// `2^832`, one more than the largest value a [`Wide`] can hold.
pub open spec fn wide_bound() -> int {
    0x10000000000000000000000000000000000000000000000000000000000000000000000000000000000000000000000000000000000000000000000000000000000000000000000000000000000000000000000000000000000000000000000000000000000000000int
}

/// An unsigned integer below `2^832`.
#[derive(Clone, Copy, Debug)]
pub struct Wide {
    limbs: [u64; 13],
}

impl View for Wide {
    type V = int;

    closed spec fn view(&self) -> int {
        limbs_value(self.limbs)
    }
}

/// Every [`Wide`] lies in `[0, 2^832)`.
pub proof fn lemma_wide_range(w: Wide)
    ensures
        0 <= w@ < wide_bound(),
{
}

/// Sum of two wide integers, with the carry out of the top limb.
///
/// Trusted: calls `ark_ff::BigInteger::add_with_carry` on `BigInt<13>`, which
/// adds limb by limb and returns whether the last limb carried.
#[verifier::external_body]
fn wide_add(a: &Wide, b: &Wide) -> (r: (Wide, bool))
    ensures
        r.0@ + (if r.1 { wide_bound() } else { 0 }) == a@ + b@,
{
    let mut x = ark_ff::BigInt::<13>(a.limbs);
    let carry = ark_ff::BigInteger::add_with_carry(&mut x, &ark_ff::BigInt::<13>(b.limbs));
    (Wide { limbs: x.0 }, carry)
}

/// Difference of two wide integers, with the borrow out of the top limb.
///
/// Trusted: calls `ark_ff::BigInteger::sub_with_borrow` on `BigInt<13>`, which
/// subtracts limb by limb and returns whether the last limb borrowed.
#[verifier::external_body]
fn wide_sub(a: &Wide, b: &Wide) -> (r: (Wide, bool))
    ensures
        r.0@ - (if r.1 { wide_bound() } else { 0 }) == a@ - b@,
{
    let mut x = ark_ff::BigInt::<13>(a.limbs);
    let borrow = ark_ff::BigInteger::sub_with_borrow(&mut x, &ark_ff::BigInt::<13>(b.limbs));
    (Wide { limbs: x.0 }, borrow)
}

/// The low 832 bits of a product.
///
/// Trusted: calls `ark_ff::BigInteger::mul_low` on `BigInt<13>`, the
/// schoolbook product truncated to thirteen limbs.
#[verifier::external_body]
fn wide_mul_low(a: &Wide, b: &Wide) -> (r: Wide)
    ensures
        r@ == (a@ * b@) % wide_bound(),
{
    let x = ark_ff::BigInt::<13>(a.limbs);
    let y = ark_ff::BigInteger::mul_low(&x, &ark_ff::BigInt::<13>(b.limbs));
    Wide { limbs: y.0 }
}

/// Right shift by `n` bits: the quotient by `2^n`.
///
/// Trusted: applies the `>>` of `ark_ff::BigInt<13>`, which shifts whole
/// limbs and then bits, and yields zero for `n >= 832`.
#[verifier::external_body]
fn wide_shr(a: &Wide, n: u32) -> (r: Wide)
    ensures
        r@ == a@ / (pow2(n as nat) as int),
{
    let x = ark_ff::BigInt::<13>(a.limbs) >> n;
    Wide { limbs: x.0 }
}

/// Whether `a` is strictly below `b`.
///
/// Trusted: uses the ordering of `ark_ff::BigInt<13>`, which compares limbs
/// from the most significant down.
#[verifier::external_body]
fn wide_lt(a: &Wide, b: &Wide) -> (r: bool)
    ensures
        r == (a@ < b@),
{
    ark_ff::BigInt::<13>(a.limbs) < ark_ff::BigInt::<13>(b.limbs)
}

impl Wide {
    /// The integer held by thirteen little-endian limbs.
    pub fn from_limbs(l: [u64; 13]) -> (r: Wide)
        ensures
            r@ == limbs_value(l),
    {
        Wide { limbs: l }
    }

    /// The thirteen little-endian limbs of the value.
    pub fn limbs(&self) -> (r: [u64; 13])
        ensures
            limbs_value(r) == self@,
    {
        self.limbs
    }

    /// `self + rhs`, where the sum fits.
    pub fn add(&self, rhs: &Wide) -> (r: Wide)
        requires
            self@ + rhs@ < wide_bound(),
        ensures
            r@ == self@ + rhs@,
    {
        let (s, _) = wide_add(self, rhs);
        s
    }

    /// `self - rhs`, where `rhs` is not the larger.
    pub fn sub(&self, rhs: &Wide) -> (r: Wide)
        requires
            rhs@ <= self@,
        ensures
            r@ == self@ - rhs@,
    {
        let (d, _) = wide_sub(self, rhs);
        d
    }

    /// `self * rhs`, where the product fits.
    pub fn mul(&self, rhs: &Wide) -> (r: Wide)
        requires
            0 <= self@ * rhs@ < wide_bound(),
        ensures
            r@ == self@ * rhs@,
    {
        proof {
            lemma_small_mod((self@ * rhs@) as nat, wide_bound() as nat);
        }
        wide_mul_low(self, rhs)
    }

    /// `floor(self / 2^n)`.
    pub fn shr(&self, n: u32) -> (r: Wide)
        ensures
            r@ == self@ / (pow2(n as nat) as int),
    {
        wide_shr(self, n)
    }

    /// `floor(self / 2)`.
    pub fn half(&self) -> (r: Wide)
        ensures
            r@ == self@ / 2,
    {
        proof {
            lemma2_to64();
        }
        wide_shr(self, 1)
    }

    /// Whether `self < rhs`.
    pub fn lt(&self, rhs: &Wide) -> (r: bool)
        ensures
            r == (self@ < rhs@),
    {
        wide_lt(self, rhs)
    }

    /// The integer `n`.
    pub fn from_u64(n: u64) -> (r: Wide)
        ensures
            r@ == n,
    {
        Wide { limbs: [n, 0, 0, 0, 0, 0, 0, 0, 0, 0, 0, 0, 0] }
    }

    /// The integer held by six little-endian limbs.
    pub fn from_limbs6(l: &[u64; 6]) -> (r: Wide)
        ensures
            r@ == limbs6_value(*l),
    {
        Wide { limbs: [l[0], l[1], l[2], l[3], l[4], l[5], 0, 0, 0, 0, 0, 0, 0] }
    }

    /// The six low limbs of a value that fits in them.
    pub fn low6(&self) -> (r: [u64; 6])
        requires
            self@ < limbs6_bound(),
        ensures
            limbs6_value(r) == self@,
    {
        let l = &self.limbs;
        [l[0], l[1], l[2], l[3], l[4], l[5]]
    }

    /// The integer held by four little-endian limbs.
    pub fn from_limbs4(l: &[u64; 4]) -> (r: Wide)
        ensures
            r@ == limbs4_value(*l),
    {
        Wide { limbs: [l[0], l[1], l[2], l[3], 0, 0, 0, 0, 0, 0, 0, 0, 0] }
    }

    /// The four low limbs of a value that fits in them.
    pub fn low4(&self) -> (r: [u64; 4])
        requires
            self@ < limbs4_bound(),
        ensures
            limbs4_value(r) == self@,
    {
        let l = &self.limbs;
        [l[0], l[1], l[2], l[3]]
    }

    /// Whether the value is odd.
    pub fn is_odd(&self) -> (r: bool)
        ensures
            r == (self@ % 2 == 1),
    {
        let low: u64 = self.limbs[0];
        low % 2 == 1
    }

    /// Whether the value is zero.
    pub fn is_zero(&self) -> (r: bool)
        ensures
            r == (self@ == 0),
    {
        let zero = Wide::from_u64(0);
        !wide_lt(&zero, self)
    }

    /// Whether two wide integers have the same value.
    pub fn same(&self, other: &Wide) -> (r: bool)
        ensures
            r == (self@ == other@),
    {
        !wide_lt(self, other) && !wide_lt(other, self)
    }
}

} // verus!
