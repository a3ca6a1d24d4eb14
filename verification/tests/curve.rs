use ark_std::rand::RngCore;
use bls12_381_g1::curve::{G1Affine, G1Projective};
use bls12_381_g1::fq::Fq;
use bls12_381_g1::fr::scalar_modulus_limbs;
use bls12_381_g1::params::{Parameters, H_EFF};

fn fq(s: &str) -> Fq {
    Fq::from_decimal(s).unwrap()
}

fn point(x: &str, y: &str) -> G1Affine {
    G1Affine::new_unchecked(fq(x), fq(y))
}

fn generator() -> G1Projective {
    Parameters::generator().into_group()
}

fn pow(base: &Fq, exp: &[u64; 6]) -> Fq {
    let mut acc = Fq::one();
    for limb in exp.iter().rev() {
        let mut i: u32 = 64;
        while i > 0 {
            i -= 1;
            acc = acc.square();
            if (limb >> i) & 1 == 1 {
                acc = acc.mul(base);
            }
        }
    }
    acc
}

fn sample_field(rng: &mut impl RngCore) -> Fq {
    loop {
        let mut limbs = [0u64; 6];
        for limb in limbs.iter_mut() {
            *limb = rng.next_u64();
        }
        limbs[5] &= u64::MAX >> 3;
        if let Some(x) = Fq::from_limbs(limbs) {
            return x;
        }
    }
}

fn sample_point(rng: &mut impl RngCore) -> G1Affine {
    let sqrt_exp: [u64; 6] = [0xee7fbfffffffeaab, 0x07aaffffac54ffff, 0xd9cc34a83dac3d89, 0xd91dd2e13ce144af, 0x92c6e9ed90d2eb35, 0x0680447a8e5ff9a6];
    loop {
        let x = sample_field(rng);
        let rhs = x.square().mul(&x).add(&Fq::from_u64(4));
        let y = pow(&rhs, &sqrt_exp);
        if y.square() == rhs {
            return G1Affine::new_unchecked(x, y);
        }
    }
}

fn double_and_add(p: &G1Projective, k: u64) -> G1Projective {
    let mut acc = G1Projective::zero();
    let mut i: u32 = 64;
    while i > 0 {
        i -= 1;
        acc = acc.double();
        if (k >> i) & 1 == 1 {
            acc = acc.add(p);
        }
    }
    acc
}

#[test]
fn doubling_the_generator() {
    let two_g = generator().double();
    assert_eq!(two_g.into_affine(), point("838589206289216005799424730305866328161735431124665289961769162861615689790485775997575391185127590486775437397838", "3450209970729243429733164009999191867485184320918914219895632678707687208996709678363578245114137957452475385814312"));
    assert!(two_g.is_on_curve());
    assert!(two_g.into_affine().is_on_curve());
}

#[test]
fn adding_distinct_points() {
    let g = generator();
    let three_g = g.double().add(&g);
    assert_eq!(three_g.into_affine(), point("1527649530533633684281386512094328299672026648504329745640827351945739272160755686119065091946435084697047221031460", "487897572011753812113448064805964756454529228648704488481988876974355015977479905373670519228592356747638779818193"));
    assert_eq!(g.add(&g.double()).into_affine(), point("1527649530533633684281386512094328299672026648504329745640827351945739272160755686119065091946435084697047221031460", "487897572011753812113448064805964756454529228648704488481988876974355015977479905373670519228592356747638779818193"));
    let five_g = three_g.add(&g.double());
    assert_eq!(five_g.into_affine(), point("2601793266141653880357945339922727723793268013331457916525213050197274797722760296318099993752923714935161798464476", "3498096627312022583321348410616510759186251088555060790999813363211667535344132702692445545590448314959259020805858"));
    assert!(five_g.is_on_curve());
}

#[test]
fn adding_a_point_to_itself_doubles_it() {
    let g = generator();
    assert_eq!(g.add(&g).into_affine(), point("838589206289216005799424730305866328161735431124665289961769162861615689790485775997575391185127590486775437397838", "3450209970729243429733164009999191867485184320918914219895632678707687208996709678363578245114137957452475385814312"));
    let scaled = G1Projective::new_unchecked(
        g.x.mul(&Fq::from_u64(9)),
        g.y.mul(&Fq::from_u64(9)),
        g.z.mul(&Fq::from_u64(9)),
    );
    assert_eq!(g.add(&scaled).into_affine(), point("838589206289216005799424730305866328161735431124665289961769162861615689790485775997575391185127590486775437397838", "3450209970729243429733164009999191867485184320918914219895632678707687208996709678363578245114137957452475385814312"));
}

#[test]
fn adding_opposite_points_gives_infinity() {
    let g = generator();
    let minus_g = point("3685416753713387016781088315183077757961620795782546409894578378688607592378376318836054947676345821548104185464507", "2662903010277190920397318445793982934971948944000658264905514399707520226534504357969962973775649129045502516118218").into_group();
    assert!(minus_g.is_on_curve());
    assert!(g.add(&minus_g).is_zero());
    assert_eq!(g.add(&minus_g).into_affine(), G1Affine::identity());
    assert_eq!(g.double().add(&minus_g).into_affine(), Parameters::generator());
}

#[test]
fn infinity_is_the_identity_of_addition() {
    let g = generator().double();
    let zero = G1Projective::zero();
    let left = zero.add(&g);
    assert_eq!((left.x, left.y, left.z), (g.x, g.y, g.z));
    let right = g.add(&zero);
    assert_eq!((right.x, right.y, right.z), (g.x, g.y, g.z));
    assert!(zero.add(&zero).is_zero());
}

#[test]
fn doubling_infinity_gives_infinity() {
    let zero = G1Projective::zero();
    assert!(zero.double().is_zero());
    assert_eq!(zero.double().into_affine(), G1Affine::identity());
    let other = G1Projective::new_unchecked(Fq::from_u64(5), Fq::from_u64(7), Fq::zero());
    assert!(other.is_zero());
    assert!(other.double().is_zero());
}

#[test]
fn equality_compares_the_points_not_the_coordinates() {
    let g = generator();
    let k = fq("1234567890123456789012345678901234567890123456789012345678901234567890123456789012345678901234567890");
    let scaled = G1Projective::new_unchecked(g.x.mul(&k), g.y.mul(&k), g.z.mul(&k));
    assert!(scaled.z != g.z);
    assert_eq!(scaled, g);
    assert!(scaled.equals(&g));
    assert_eq!(scaled.into_affine(), Parameters::generator());
    assert!(g != g.double());
    assert!(!g.equals(&G1Projective::zero()));
    assert!(!G1Projective::zero().equals(&g));
    let other = G1Projective::new_unchecked(Fq::from_u64(5), Fq::from_u64(7), Fq::zero());
    assert_eq!(other, G1Projective::zero());
}

#[test]
fn affine_points_and_their_parts() {
    let g = Parameters::generator();
    assert!(!g.is_zero());
    assert!(G1Affine::identity().is_zero());
    assert_eq!(G1Affine::identity().xy(), None);
    assert_eq!(g.xy(), Some((fq("3685416753713387016781088315183077757961620795782546409894578378688607592378376318836054947676345821548104185464507"), fq("1339506544944476473020471379941921221584933875938349620426543736416511423956333506472724655353366534992391756441569"))));
    assert!(G1Affine::identity().is_on_curve());
    assert!(!G1Affine::new_unchecked(Fq::one(), Fq::one()).is_on_curve());
    assert!(!G1Projective::new_unchecked(Fq::one(), Fq::one(), Fq::one()).is_on_curve());
    assert!(G1Affine::identity().into_group().is_zero());
    let p = g.into_group();
    assert_eq!((p.x, p.y, p.z), (fq("3685416753713387016781088315183077757961620795782546409894578378688607592378376318836054947676345821548104185464507"), fq("1339506544944476473020471379941921221584933875938349620426543736416511423956333506472724655353366534992391756441569"), Fq::one()));
}

#[test]
fn scalar_multiplication_of_small_scalars() {
    let g = generator();
    assert!(g.mul_bigint(&[]).is_zero());
    assert!(g.mul_bigint(&[0]).is_zero());
    assert!(g.mul_bigint(&[0, 0]).is_zero());
    assert_eq!(g.mul_bigint(&[1]).into_affine(), Parameters::generator());
    assert_eq!(g.mul_bigint(&[2]).into_affine(), point("838589206289216005799424730305866328161735431124665289961769162861615689790485775997575391185127590486775437397838", "3450209970729243429733164009999191867485184320918914219895632678707687208996709678363578245114137957452475385814312"));
    assert_eq!(g.mul_bigint(&[3]).into_affine(), point("1527649530533633684281386512094328299672026648504329745640827351945739272160755686119065091946435084697047221031460", "487897572011753812113448064805964756454529228648704488481988876974355015977479905373670519228592356747638779818193"));
    assert_eq!(g.mul_bigint(&[5]).into_affine(), point("2601793266141653880357945339922727723793268013331457916525213050197274797722760296318099993752923714935161798464476", "3498096627312022583321348410616510759186251088555060790999813363211667535344132702692445545590448314959259020805858"));
    assert_eq!(g.mul_bigint(&[5, 0, 0]).into_affine(), point("2601793266141653880357945339922727723793268013331457916525213050197274797722760296318099993752923714935161798464476", "3498096627312022583321348410616510759186251088555060790999813363211667535344132702692445545590448314959259020805858"));
    assert!(G1Projective::zero().mul_bigint(&[5]).is_zero());
}

#[test]
fn scalar_multiplication_over_several_limbs() {
    let g = generator();
    let expected = point("197408815357513944840451471789328466703038526463331362443507319390261983413537707469836454160686797264756657362476", "70956026550579010391137096475884661651950609166861618197286298386290774163180314524211263807215728221306457572142");
    assert_eq!(g.mul_bigint(&[0, 1]).into_affine(), expected);
    let mut doubled = g;
    for _ in 0..64 {
        doubled = doubled.double();
    }
    assert_eq!(doubled.into_affine(), expected);
    assert_eq!(g.mul_bigint(&[1, 1]), doubled.add(&g));
}

#[test]
fn clearing_the_cofactor_of_the_generator() {
    let q = Parameters::clear_cofactor(&Parameters::generator());
    assert_eq!(q, point("428118997744292516543550098377437887826485687703105365843758178742354698138161827749299781222314818072840804683030", "1187925144028261603901959499994415250734791513270324173155840980954139930941013730225808200658851627441295322609901"));
    assert_eq!(q, generator().mul_bigint(&[H_EFF]).into_affine());
}

#[test]
fn clearing_the_cofactor_of_infinity() {
    assert_eq!(Parameters::clear_cofactor(&G1Affine::identity()), G1Affine::identity());
}

#[test]
fn clearing_the_cofactor_moves_a_point_into_the_subgroup() {
    let p = point("4", "1630892974828014537729259858097113969650871260980656934049590190201941782487224876496582135785777461178964897591404");
    assert!(p.is_on_curve());
    let r = scalar_modulus_limbs();
    assert!(!p.into_group().mul_bigint(&r).is_zero());
    let q = Parameters::clear_cofactor(&p);
    assert_eq!(q, point("56515598713542595105535154143995857100409058763328409322773457724891989782737254539214686845070258539207009483897", "418738149885429019043710122079590799999075875715088397644079011073046535610566638730031691678090481371268504266939"));
    assert!(q.is_on_curve());
    assert!(q.into_group().mul_bigint(&r).is_zero());
}

#[test]
fn clearing_the_cofactor_is_double_and_add_by_the_effective_cofactor() {
    let mut rng = ark_std::test_rng();
    let r = scalar_modulus_limbs();
    for _ in 0..100 {
        let p = sample_point(&mut rng);
        assert!(p.is_on_curve());
        let q = Parameters::clear_cofactor(&p);
        let direct = double_and_add(&p.into_group(), 0xd201000000010001);
        assert_eq!(q, direct.into_affine());
        assert!(q.is_on_curve());
        assert!(q.into_group().mul_bigint(&r).is_zero());
    }
}

#[test]
fn sum_is_the_chord_through_the_points() {
    let (x1, y1) = Parameters::generator().xy().unwrap();
    let (x2, y2) = generator().double().into_affine().xy().unwrap();
    let slope = y2.sub(&y1).mul(&x2.sub(&x1).inverse().unwrap());
    let x3 = slope.square().sub(&x1).sub(&x2);
    let y3 = slope.mul(&x1.sub(&x3)).sub(&y1);
    assert_eq!(generator().add(&generator().double()).into_affine(), G1Affine::new_unchecked(x3, y3));
    assert_eq!(G1Affine::new_unchecked(x3, y3), point("1527649530533633684281386512094328299672026648504329745640827351945739272160755686119065091946435084697047221031460", "487897572011753812113448064805964756454529228648704488481988876974355015977479905373670519228592356747638779818193"));
}

#[test]
fn double_is_the_tangent_at_the_point() {
    let (x, y) = Parameters::generator().xy().unwrap();
    let three_xx = x.square().double().add(&x.square());
    let slope = three_xx.mul(&y.double().inverse().unwrap());
    let x3 = slope.square().sub(&x.double());
    let y3 = slope.mul(&x.sub(&x3)).sub(&y);
    assert_eq!(generator().double().into_affine(), G1Affine::new_unchecked(x3, y3));
    let scaled = G1Projective::new_unchecked(
        x.mul(&Fq::from_u64(3)),
        y.mul(&Fq::from_u64(3)),
        Fq::from_u64(3),
    );
    assert_eq!(scaled.double().into_affine(), G1Affine::new_unchecked(x3, y3));
}
