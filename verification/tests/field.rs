use bls12_381_g1::decimal::ConstantError;
use bls12_381_g1::fq::Fq;
use bls12_381_g1::fr::Fr;

fn fq(s: &str) -> Fq {
    Fq::from_decimal(s).unwrap()
}

const BA: &str = "1234567890123456789012345678901234567890123456789012345678901234567890123456789012345678901234567890";
const BB: &str = "3987654321098765432109876543210987654321098765432109876543210987654321098765432109876543210987654321098765432109876";
const MODULUS: &str = "4002409555221667393417789825735904156556882819939007885332058136124031650490837864442687629129015664037894272559787";
const MODULUS_MINUS_ONE: &str = "4002409555221667393417789825735904156556882819939007885332058136124031650490837864442687629129015664037894272559786";

#[test]
fn decimal_accepts_canonical_values() {
    assert_eq!(Fq::from_decimal("0"), Ok(Fq::zero()));
    assert_eq!(Fq::from_decimal("1"), Ok(Fq::one()));
    assert_eq!(Fq::from_decimal("4"), Ok(Fq::from_u64(4)));
    assert_eq!(Fq::from_decimal("18446744073709551615"), Ok(Fq::from_u64(u64::MAX)));
    assert_eq!(fq("18446744073709551616").to_limbs(), [0, 1, 0, 0, 0, 0]);
    assert_eq!(fq(MODULUS_MINUS_ONE).to_limbs(), [0xb9feffffffffaaaa, 0x1eabfffeb153ffff, 0x6730d2a0f6b0f624, 0x64774b84f38512bf, 0x4b1ba7b6434bacd7, 0x1a0111ea397fe69a]);
    assert_eq!(fq(BA).to_limbs(), [0xaccff196ce3f0ad2, 0x47851641ef7bf14b, 0xa7f8e67e477381be, 0x6afe52b31741cfe5, 0xfc1742fe8d29593a, 0x0000000000000241]);
}

#[test]
fn decimal_rejects_empty_numeral() {
    assert_eq!(Fq::from_decimal(""), Err(ConstantError::Empty));
    assert_eq!(Fr::from_decimal(""), Err(ConstantError::Empty));
}

#[test]
fn decimal_rejects_what_is_no_digit() {
    assert_eq!(Fq::from_decimal("12a"), Err(ConstantError::NotADigit));
    assert_eq!(Fq::from_decimal("-1"), Err(ConstantError::NotADigit));
    assert_eq!(Fq::from_decimal("+1"), Err(ConstantError::NotADigit));
    assert_eq!(Fq::from_decimal(" 1"), Err(ConstantError::NotADigit));
    assert_eq!(Fq::from_decimal("1_000"), Err(ConstantError::NotADigit));
    assert_eq!(Fq::from_decimal("0x10"), Err(ConstantError::NotADigit));
    assert_eq!(Fq::from_decimal("\u{0663}"), Err(ConstantError::NotADigit));
    assert_eq!(Fr::from_decimal("1.5"), Err(ConstantError::NotADigit));
}

#[test]
fn decimal_rejects_leading_zero() {
    assert_eq!(Fq::from_decimal("007"), Err(ConstantError::LeadingZero));
    assert_eq!(Fq::from_decimal("00"), Err(ConstantError::LeadingZero));
    assert_eq!(Fr::from_decimal("01"), Err(ConstantError::LeadingZero));
}

#[test]
fn decimal_rejects_the_modulus_and_above() {
    assert_eq!(Fq::from_decimal(MODULUS), Err(ConstantError::NotBelowModulus));
    assert_eq!(Fq::from_decimal("4002409555221667393417789825735904156556882819939007885332058136124031650490837864442687629129015664037894272559788"), Err(ConstantError::NotBelowModulus));
    assert_eq!(Fq::from_decimal("39402006196394479212279040100143613805079739270465446667948293404245721771497210611414266254884915640806627990306815"), Err(ConstantError::NotBelowModulus));
    assert_eq!(Fq::from_decimal("100000000000000000000000000000000000000000000000000000000000000000000000000000000000000000000000000000000000000000000000000000000000000000000000000000000000000000000000000000000000000000000000000000000"), Err(ConstantError::NotBelowModulus));
    assert!(Fq::from_decimal(MODULUS_MINUS_ONE).is_ok());
}

#[test]
fn scalar_decimal_is_held_to_the_scalar_modulus() {
    assert_eq!(Fr::from_decimal("52435875175126190479447740508185965837690552500527637822603658699938581184513"), Err(ConstantError::NotBelowModulus));
    assert_eq!(Fr::from_decimal(MODULUS_MINUS_ONE), Err(ConstantError::NotBelowModulus));
    let top = Fr::from_decimal("52435875175126190479447740508185965837690552500527637822603658699938581184512").unwrap();
    assert_eq!(
        top.to_limbs(),
        [0xffffffff00000000, 0x53bda402fffe5bfe, 0x3339d80809a1d805, 0x73eda753299d7d48]
    );
    assert_eq!(Fr::from_decimal("0").unwrap().to_limbs(), [0, 0, 0, 0]);
}

#[test]
fn limbs_are_held_to_the_modulus() {
    assert_eq!(Fq::from_limbs([0xb9feffffffffaaab, 0x1eabfffeb153ffff, 0x6730d2a0f6b0f624, 0x64774b84f38512bf, 0x4b1ba7b6434bacd7, 0x1a0111ea397fe69a]), None);
    assert_eq!(Fq::from_limbs([u64::MAX; 6]), None);
    assert_eq!(Fq::from_limbs([0xb9feffffffffaaaa, 0x1eabfffeb153ffff, 0x6730d2a0f6b0f624, 0x64774b84f38512bf, 0x4b1ba7b6434bacd7, 0x1a0111ea397fe69a]), Some(fq(MODULUS_MINUS_ONE)));
    assert_eq!(Fq::from_limbs([5, 0, 0, 0, 0, 0]), Some(Fq::from_u64(5)));
    assert_eq!(Fr::from_limbs([0xffffffff00000001, 0x53bda402fffe5bfe, 0x3339d80809a1d805, 0x73eda753299d7d48]), None);
    assert!(Fr::from_limbs([7, 0, 0, 0]).is_some());
}

#[test]
fn addition_wraps_at_the_modulus() {
    assert_eq!(fq(MODULUS_MINUS_ONE).add(&Fq::one()), Fq::zero());
    assert_eq!(fq(MODULUS_MINUS_ONE).add(&fq(MODULUS_MINUS_ONE)), fq("4002409555221667393417789825735904156556882819939007885332058136124031650490837864442687629129015664037894272559785"));
    assert_eq!(fq(BA).add(&fq(BB)), fq("3987654321098766666677766666667776666666777666666677766666667776666666777666666677766666667776666666777666666677766"));
    assert_eq!(Fq::from_u64(3).add(&Fq::from_u64(4)), Fq::from_u64(7));
    assert_eq!(fq(BA).double(), fq(BA).add(&fq(BA)));
    assert_eq!(Fq::from_u64(u64::MAX).add(&Fq::one()).to_limbs(), [0, 1, 0, 0, 0, 0]);
}

#[test]
fn subtraction_wraps_below_zero() {
    assert_eq!(Fq::from_u64(3).sub(&Fq::from_u64(5)), fq("4002409555221667393417789825735904156556882819939007885332058136124031650490837864442687629129015664037894272559785"));
    assert_eq!(Fq::from_u64(5).sub(&Fq::from_u64(3)), Fq::from_u64(2));
    assert_eq!(fq(BA).sub(&fq(BB)), fq("14755234122903195875803405981705514581462955741465898912303937482056230626640322456267874930373688618030075017801"));
    assert_eq!(fq(BB).sub(&fq(BA)), fq("3987654321098764197541986419754198641975419864197541986419754198641975419864197541986419754198641975419864197541986"));
    assert_eq!(fq(BA).sub(&fq(BA)), Fq::zero());
}

#[test]
fn negation_is_the_additive_inverse() {
    assert_eq!(Fq::zero().neg(), Fq::zero());
    assert_eq!(Fq::one().neg(), fq(MODULUS_MINUS_ONE));
    assert_eq!(fq(BA).neg(), fq("4002409555221666158849899702279115144211203918704439995208601347111685971589603296552564172340003318358993037991897"));
    assert_eq!(fq(BA).neg().add(&fq(BA)), Fq::zero());
}

#[test]
fn multiplication_reduces_the_product() {
    assert_eq!(Fq::from_u64(3).mul(&Fq::from_u64(5)), Fq::from_u64(15));
    assert_eq!(fq(BA).mul(&fq(BB)), fq("3932281695863286997829721913888893929170743167992522595341215851143577971717733337411809051252532806378112043114652"));
    assert_eq!(fq(BB).mul(&fq(BA)), fq("3932281695863286997829721913888893929170743167992522595341215851143577971717733337411809051252532806378112043114652"));
    assert_eq!(fq(BA).square(), fq("1134379141952146655316344589709111399877214818710214792198380534564382570239469843110777657280982401246011132843523"));
    assert_eq!(fq(MODULUS_MINUS_ONE).square(), Fq::one());
    assert_eq!(fq(BA).mul(&Fq::zero()), Fq::zero());
    assert_eq!(fq(BA).mul(&Fq::one()), fq(BA));
    assert_eq!(
        Fq::from_u64(u64::MAX).mul(&Fq::from_u64(u64::MAX)).to_limbs(),
        [1, 0xfffffffffffffffe, 0, 0, 0, 0]
    );
}

#[test]
fn inverse_of_known_values() {
    assert_eq!(Fq::from_u64(7).inverse(), Some(fq("571772793603095341916827117962272022365268974277001126476008305160575950070119694920383947018430809148270610365684")));
    assert_eq!(fq(BA).inverse(), Some(fq("254104897097809595096708725638553337421403838585969737131839760870503000099732072400058051606695295494079338515910")));
    assert_eq!(Fq::one().inverse(), Some(Fq::one()));
    assert_eq!(fq(MODULUS_MINUS_ONE).inverse(), Some(fq(MODULUS_MINUS_ONE)));
    assert_eq!(fq(BA).inverse().unwrap().mul(&fq(BA)), Fq::one());
}

#[test]
fn zero_has_no_inverse() {
    assert_eq!(Fq::zero().inverse(), None);
    assert_eq!(Fq::zero().inverse_or_zero(), Fq::zero());
    assert_eq!(Fq::from_u64(7).inverse_or_zero(), fq("571772793603095341916827117962272022365268974277001126476008305160575950070119694920383947018430809148270610365684"));
}

#[test]
fn zero_and_equality_tests() {
    assert!(Fq::zero().is_zero());
    assert!(!Fq::one().is_zero());
    assert!(!fq(MODULUS_MINUS_ONE).is_zero());
    assert!(fq(BA).equals(&fq(BA)));
    assert!(!fq(BA).equals(&fq(BB)));
    assert!(!Fq::from_limbs([0, 1, 0, 0, 0, 0]).unwrap().equals(&Fq::zero()));
}
