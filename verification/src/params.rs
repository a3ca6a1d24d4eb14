//! The parameters of G1: the curve coefficients, the cofactor and its
//! inverse, the generator, and cofactor clearing.

use vstd::prelude::*;
use crate::curve::{
    coeff_a, limbs_nat, on_curve, scalar_mul, to_affine, to_projective, AffinePoint, G1Affine,
};
use crate::fq::{fmul, lemma_fmul_value, Fq};
use crate::fr::{scalar_modulus, Fr};

verus! {

/// The cofactor `h = (x - 1)^2 / 3` of G1's curve, where `x` is the
/// parameter of the BLS12 family.
pub open spec fn cofactor() -> int {
    76329603384216526031706109802092473003
}

/// The inverse of the cofactor modulo `r`.
pub open spec fn cofactor_inv() -> int {
    52435875175126190458656871551744051925719901746859129887267498875565241663483int
}

/// The effective cofactor `h_eff = |x - 1|`.
pub open spec fn effective_cofactor() -> int {
    0xd201000000010001
}

/// The `x` coordinate of the generator.
pub open spec fn generator_x() -> int {
    3685416753713387016781088315183077757961620795782546409894578378688607592378376318836054947676345821548104185464507int
}

/// The `y` coordinate of the generator.
pub open spec fn generator_y() -> int {
    1339506544944476473020471379941921221584933875938349620426543736416511423956333506472724655353366534992391756441569int
}

/// The effective cofactor, the scalar of cofactor clearing.
pub const H_EFF: u64 = 0xd201000000010001;

/// The parameters of G1.
#[derive(Clone, Copy, Debug, Default, PartialEq, Eq)]
pub struct Parameters;

/// The little-endian limbs of the cofactor.
pub const COFACTOR: [u64; 2] = [0x8c00aaab0000aaab, 0x396c8c005555e156];

/// The little-endian limbs of the inverse of the cofactor modulo `r`.
pub const COFACTOR_INV_LIMBS: [u64; 4] = [
    0xec0000020005fffb,
    0xd07c8ff73bf14809,
    0xe34f0b31458fbb21,
    0x73eda753299d7d44,
];

/// The little-endian limbs of the `x` coordinate of the generator.
pub const G1_GENERATOR_X_LIMBS: [u64; 6] = [
    0xfb3af00adb22c6bb,
    0x6c55e83ff97a1aef,
    0xa14e3a3f171bac58,
    0xc3688c4f9774b905,
    0x2695638c4fa9ac0f,
    0x17f1d3a73197d794,
];

/// The little-endian limbs of the `y` coordinate of the generator.
pub const G1_GENERATOR_Y_LIMBS: [u64; 6] = [
    0x0caa232946c5e7e1,
    0xd03cc744a2888ae4,
    0x00db18cb2c04b3ed,
    0xfcf5e095d5d00af6,
    0xa09e30ed741d8ae4,
    0x08b3f481e3aaa0f1,
];

/// The `x` coordinate of the generator.
pub fn g1_generator_x() -> (r: Fq)
    ensures
        r@ == generator_x(),
{
    Fq::from_canonical_limbs(G1_GENERATOR_X_LIMBS)
}

/// The `y` coordinate of the generator.
pub fn g1_generator_y() -> (r: Fq)
    ensures
        r@ == generator_y(),
{
    Fq::from_canonical_limbs(G1_GENERATOR_Y_LIMBS)
}

impl Parameters {
    /// The little-endian limbs of the cofactor.
    pub fn cofactor() -> (r: [u64; 2])
        ensures
            r[0] + 0x1_0000_0000_0000_0000 * r[1] == cofactor(),
    {
        COFACTOR
    }

    /// The inverse of the cofactor in the scalar field.
    pub fn cofactor_inv() -> (r: Fr)
        ensures
            r@ == cofactor_inv(),
    {
        Fr::from_canonical_limbs(COFACTOR_INV_LIMBS)
    }

    /// The coefficient `a = 0` of the curve equation.
    pub fn coeff_a() -> (r: Fq)
        ensures
            r@ == coeff_a(),
    {
        Fq::zero()
    }

    /// The coefficient `b = 4` of the curve equation.
    pub fn coeff_b() -> (r: Fq)
        ensures
            r@ == crate::curve::coeff_b(),
    {
        Fq::from_u64(4)
    }

    /// The generator of the prime-order subgroup.
    pub fn generator() -> (r: G1Affine)
        ensures
            r@ == (AffinePoint::Finite { x: generator_x(), y: generator_y() }),
    {
        G1Affine::new_unchecked(g1_generator_x(), g1_generator_y())
    }

    /// `a * elem`. As `a` of this curve is zero, the product is zero and no
    /// multiplication is made.
    pub fn mul_by_a(elem: Fq) -> (r: Fq)
        ensures
            r@ == fmul(coeff_a(), elem@),
            r@ == 0,
    {
        let a = Parameters::coeff_a();
        if a.is_zero() {
            proof {
                assert(0 * elem@ == 0) by (nonlinear_arith);
            }
            Fq::zero()
        } else {
            a.mul(&elem)
        }
    }

    /// Clears the cofactor: the point times the effective cofactor, by
    /// double-and-add over its 64 binary digits. For a point of the curve the
    /// product lies in the subgroup of order `r`; the contract states the
    /// product, not that.
    pub fn clear_cofactor(p: &G1Affine) -> (q: G1Affine)
        ensures
            q@ == to_affine(scalar_mul(to_projective(p@), effective_cofactor() as nat)),
    {
        let h_eff: [u64; 1] = [H_EFF];
        proof {
            let s = h_eff@;
            assert(s.skip(1) =~= Seq::<u64>::empty());
            assert(limbs_nat(s.skip(1)) == 0);
            assert(limbs_nat(s) == effective_cofactor() as nat);
        }
        p.into_group().mul_bigint(h_eff.as_slice()).into_affine()
    }
}

/// The generator satisfies the curve equation `y^2 = x^3 + 4`.
pub proof fn lemma_generator_on_curve()
    ensures
        on_curve(AffinePoint::Finite { x: generator_x(), y: generator_y() }),
{
    let x = generator_x();
    let y = generator_y();
    let xx: int = 1629092352764067373085128153631492358428671501634445987332049123086166066000456263238544119621924823335074158262649int;
    let xxx: int = 968112345466204497593495094225082465695320231616114492644572856830458035916047023522252439176025404895343838468690int;
    let yy: int = 968112345466204497593495094225082465695320231616114492644572856830458035916047023522252439176025404895343838468694int;
    lemma_fmul_value(x, x, 3393529937692517076696519149477922429187479009263208180229512251393878044269887146750093283641276002679471729359200int, xx);
    lemma_fmul_value(xx, x, 1500067438723306028009714652893718426117109526363589397415013797011849947485818756381034326413962604803312957351219int, xxx);
    lemma_fmul_value(y, y, 448299395449977984814647465226532234802097392444747352936811583784697280452528816341091110865257011929452385381441int, yy);
    lemma_fmul_value(0, x, 0, 0);
    assert(xxx + 4 == yy);
}

/// The cofactor is `(x - 1)^2 / 3`, and the constant named as its inverse
/// is its inverse modulo `r`.
pub proof fn lemma_cofactor_structure()
    ensures
        3 * cofactor() == effective_cofactor() * effective_cofactor(),
        (cofactor() * cofactor_inv()) % scalar_modulus() == 1,
        0 <= cofactor_inv() < scalar_modulus(),
{
}

} // verus!
