use ark_std::rand::RngCore;
use bls12_381_g1::curve::G1Affine;
use bls12_381_g1::fq::Fq;
use bls12_381_g1::isogeny::{
    horner, isogeny_map, phi_x_den, phi_x_nom, phi_y_den, phi_y_nom, IsoAffine, SwuIsoParameters,
};

fn fq(s: &str) -> Fq {
    Fq::from_decimal(s).unwrap()
}

fn pow(base: &Fq, exp: &[u64; 6]) -> Fq {
    let mut acc = Fq::one();
    for limb in exp.iter().rev() {
        let mut i: u32 = 64;
        while i > 0 {
            i -= 1;
            acc = acc.square();
            if (limb >> i) & 1 == 1 {
                acc = acc.mul(base);
            }
        }
    }
    acc
}

fn sample_field(rng: &mut impl RngCore) -> Fq {
    loop {
        let mut limbs = [0u64; 6];
        for limb in limbs.iter_mut() {
            *limb = rng.next_u64();
        }
        limbs[5] &= u64::MAX >> 3;
        if let Some(x) = Fq::from_limbs(limbs) {
            return x;
        }
    }
}

fn sample_iso_point(rng: &mut impl RngCore) -> IsoAffine {
    let sqrt_exp: [u64; 6] = [0xee7fbfffffffeaab, 0x07aaffffac54ffff, 0xd9cc34a83dac3d89, 0xd91dd2e13ce144af, 0x92c6e9ed90d2eb35, 0x0680447a8e5ff9a6];
    loop {
        let x = sample_field(rng);
        let rhs = x
            .square()
            .mul(&x)
            .add(&SwuIsoParameters::coeff_a().mul(&x))
            .add(&SwuIsoParameters::coeff_b());
        let y = pow(&rhs, &sqrt_exp);
        if y.square() == rhs {
            return IsoAffine::new_unchecked(x, y);
        }
    }
}

#[test]
fn infinity_is_mapped_to_infinity() {
    assert_eq!(isogeny_map(&IsoAffine::identity()), G1Affine::identity());
    assert_eq!(isogeny_map(&IsoAffine::Infinity), G1Affine::Infinity);
}

#[test]
fn image_of_a_known_point() {
    let q = IsoAffine::new_unchecked(fq("2"), fq("658522096176515125667361255350269797307718222519385801637008089782287711363858559738763090642304321670226247205569"));
    assert!(q.is_on_curve());
    let p = isogeny_map(&q);
    assert_eq!(p, G1Affine::new_unchecked(fq("1384268032843187931577744935794021849477093533132643028447960422504097372357464892278764833258943292598173897964446"), fq("170777223941508342991395825761222040488124841701563870859151878352755117726076679753899159764730498374549406122928")));
    assert!(p.is_on_curve());
}

#[test]
fn images_of_sampled_points_lie_on_the_curve() {
    let mut rng = ark_std::test_rng();
    for _ in 0..100 {
        let q = sample_iso_point(&mut rng);
        assert!(q.is_on_curve());
        let p = isogeny_map(&q);
        assert!(!p.is_zero());
        assert!(p.is_on_curve());
        let (x, y) = p.xy().unwrap();
        assert_eq!(y.square(), x.square().mul(&x).add(&Fq::from_u64(4)));
    }
}

#[test]
fn image_is_the_quotient_of_the_polynomials() {
    let x = fq("2");
    let y = fq("658522096176515125667361255350269797307718222519385801637008089782287711363858559738763090642304321670226247205569");
    let x_num = horner(&phi_x_nom(), &x);
    let x_den = horner(&phi_x_den(), &x);
    let y_num = horner(&phi_y_nom(), &x);
    let y_den = horner(&phi_y_den(), &x);
    let (px, py) = isogeny_map(&IsoAffine::new_unchecked(x, y)).xy().unwrap();
    assert_eq!(px.mul(&x_den), x_num);
    assert_eq!(py.mul(&y_den), y.mul(&y_num));
}

#[test]
fn coefficient_tables_have_the_stated_sizes_and_values() {
    assert_eq!(phi_x_nom().len(), 12);
    assert_eq!(phi_x_den().len(), 11);
    assert_eq!(phi_y_nom().len(), 16);
    assert_eq!(phi_y_den().len(), 16);
    assert_eq!(phi_x_nom()[0], fq("2712959285290305970661081772124144179193819192423276218370281158706191519995889425075952244140278856085036081760695"));
    assert_eq!(phi_x_nom()[11], fq("1058488477413994682556770863004536636444795456512795473806825292198091015005841418695586811009326456605062948114985"));
    assert_eq!(phi_x_den()[0], fq("1353092447850172218905095041059784486169131709710991428415161466575141675351394082965234118340787683181925558786844"));
    assert_eq!(phi_x_den()[9], fq("1442797143427491432630626390066422021593505165588630398337491100088557278058060064930663878153124164818522816175370"));
    assert_eq!(phi_y_nom()[0], fq("1393399195776646641963150658816615410692049723305861307490980409834842911816308830479576739332720113414154429643571"));
    assert_eq!(phi_y_nom()[15], fq("3370924952219000111210625390420697640496067348723987858345031683392215988129398381698161406651860675722373763741188"));
    assert_eq!(phi_y_den()[0], fq("3396434800020507717552209507749485772788165484415495716688989613875369612529138640646200921379825018840894888371137"));
    assert_eq!(phi_y_den()[14], fq("2164195715141237148945939585099633032390257748382945597506236650132835917087090097395995817229686247227784224263055"));
}

#[test]
fn denominators_are_monic() {
    assert_eq!(phi_x_den()[10], Fq::one());
    assert_eq!(phi_y_den()[15], Fq::one());
}

#[test]
fn horner_evaluates_with_the_constant_term_first() {
    let c = [Fq::from_u64(1), Fq::from_u64(2), Fq::from_u64(3)];
    assert_eq!(horner(&c, &Fq::from_u64(2)), Fq::from_u64(17));
    assert_eq!(horner(&c, &Fq::zero()), Fq::from_u64(1));
    assert_eq!(horner(&[], &Fq::from_u64(2)), Fq::zero());
    assert_eq!(horner(&[Fq::from_u64(9)], &fq("2")), Fq::from_u64(9));
    let x = fq("1234567890123456789012345678901234567890123456789012345678901234567890123456789012345678901234567890");
    assert_eq!(horner(&c, &x), Fq::from_u64(3).mul(&x).add(&Fq::from_u64(2)).mul(&x).add(&Fq::one()));
}

#[test]
fn auxiliary_curve_has_the_stated_coefficients() {
    assert_eq!(SwuIsoParameters::coeff_a(), fq("12190336318893619529228877361869031420615612348429846051986726275283378313155663745811710833465465981901188123677"));
    assert_eq!(SwuIsoParameters::coeff_b(), fq("2906670324641927570491258158026293881577086121416628140204402091718288198173574630967936031029026176254968826637280"));
    assert!(IsoAffine::identity().is_on_curve());
    assert!(!IsoAffine::new_unchecked(Fq::one(), Fq::one()).is_on_curve());
}

#[test]
fn quotient_by_a_zero_denominator_is_zero() {
    let x = fq("2077344747421819657086473418925078480898358265217674456436079722467637536216749299440611432676849905020722484031356");
    let y = fq("864739370173431256541490135500561859725318822539686417753397107695043273625955431515886911526288167244999522605888");
    let q = IsoAffine::new_unchecked(x, y);
    assert!(q.is_on_curve());
    assert_eq!(horner(&phi_x_den(), &x), Fq::zero());
    assert_eq!(horner(&phi_y_den(), &x), Fq::zero());
    let p = isogeny_map(&q);
    assert_eq!(p, G1Affine::new_unchecked(Fq::zero(), Fq::zero()));
    assert!(!p.is_on_curve());
}
