//! The 11-isogeny from the auxiliary curve `E'` onto G1's curve, the last
//! step but one of hashing to G1: a rational map
//! `(x, y) -> (Nx(x) / Dx(x), y * Ny(x) / Dy(x))` with fixed coefficients.

use vstd::prelude::*;
use vstd::arithmetic::div_mod::{lemma_add_mod_noop, lemma_mul_mod_noop_general, lemma_small_mod};
use crate::curve::{satisfies_equation, weierstrass_rhs_exec, AffinePoint, G1Affine};
use crate::fq::{finv, fmul, modulus, Fq};

verus! {

/// The coefficient `a` of the auxiliary curve `y^2 = x^3 + a*x + b`.
pub open spec fn iso_coeff_a() -> int {
    12190336318893619529228877361869031420615612348429846051986726275283378313155663745811710833465465981901188123677int
}

/// The coefficient `b` of the auxiliary curve.
pub open spec fn iso_coeff_b() -> int {
    2906670324641927570491258158026293881577086121416628140204402091718288198173574630967936031029026176254968826637280int
}

/// The canonical values of a sequence of field elements.
pub open spec fn values(s: Seq<Fq>) -> Seq<int> {
    Seq::new(s.len(), |i: int| s[i]@)
}

/// The value at `x` of the integer polynomial with coefficients `c`,
/// constant term first: `c[0] + c[1] x + c[2] x^2 + ...`.
pub open spec fn poly_value(c: Seq<int>, x: int) -> int
    decreases c.len(),
{
    if c.len() == 0 {
        0
    } else {
        c[0] + x * poly_value(c.skip(1), x)
    }
}

/// The value of a polynomial in the field.
pub open spec fn poly_eval(c: Seq<int>, x: int) -> int {
    poly_value(c, x) % modulus()
}

/// The image of a point of the auxiliary curve under the isogeny. The point
/// at infinity goes to the point at infinity; a quotient by zero is zero.
pub open spec fn isogeny_image(q: AffinePoint) -> AffinePoint {
    match q {
        AffinePoint::Infinity => AffinePoint::Infinity,
        AffinePoint::Finite { x, y } => AffinePoint::Finite {
            x: fmul(poly_eval(x_numerator(), x), finv(poly_eval(x_denominator(), x))),
            y: fmul(
                fmul(y, poly_eval(y_numerator(), x)),
                finv(poly_eval(y_denominator(), x)),
            ),
        },
    }
}

/// Whether an affine point lies on the auxiliary curve.
pub open spec fn on_iso_curve(p: AffinePoint) -> bool {
    match p {
        AffinePoint::Infinity => true,
        AffinePoint::Finite { x, y } => satisfies_equation(iso_coeff_a(), iso_coeff_b(), x, y),
    }
}

/// The coefficients of the numerator of the `x` map, constant term first.
pub open spec fn x_numerator() -> Seq<int> {
    seq![
        2712959285290305970661081772124144179193819192423276218370281158706191519995889425075952244140278856085036081760695int,
        3564859427549639835253027846704205725951033235539816243131874237388832081954622352624080767121604606753339903542203int,
        2051387046688339481714726479723076305756384619135044672831882917686431912682625619320120082313093891743187631791280int,
        3612713941521031012780325893181011392520079402153354595775735142359240110423346445050803899623018402874731133626465int,
        2247053637822768981792833880270996398470828564809439728372634811976089874056583714987807553397615562273407692740057int,
        3415427104483187489859740871640064348492611444552862448295571438270821994900526625562705192993481400731539293415811int,
        2067521456483432583860405634125513059912765526223015704616050604591207046392807563217109432457129564962571408764292int,
        3650721292069012982822225637849018828271936405382082649291891245623305084633066170122780668657208923883092359301262int,
        1239271775787030039269460763652455868148971086016832054354147730155061349388626624328773377658494412538595239256855int,
        3479374185711034293956731583912244564891370843071137483962415222733470401948838363051960066766720884717833231600798int,
        2492756312273161536685660027440158956721981129429869601638362407515627529461742974364729223659746272460004902959995int,
        1058488477413994682556770863004536636444795456512795473806825292198091015005841418695586811009326456605062948114985int,
    ]
}

/// The coefficients of the denominator of the `x` map, constant term first.
pub open spec fn x_denominator() -> Seq<int> {
    seq![
        1353092447850172218905095041059784486169131709710991428415161466575141675351394082965234118340787683181925558786844int,
        2822220997908397120956501031591772354860004534930174057793539372552395729721474912921980407622851861692773516917759int,
        1717937747208385987946072944131378949849282930538642983149296304709633281382731764122371874602115081850953846504985int,
        501624051089734157816582944025690868317536915684467868346388760435016044027032505306995281054569109955275640941784int,
        3025903087998593826923738290305187197829899948335370692927241015584233559365859980023579293766193297662657497834014int,
        2224140216975189437834161136818943039444741035168992629437640302964164227138031844090123490881551522278632040105125int,
        1146414465848284837484508420047674663876992808692209238763293935905506532411661921697047880549716175045414621825594int,
        3179090966864399634396993677377903383656908036827452986467581478509513058347781039562481806409014718357094150199902int,
        1549317016540628014674302140786462938410429359529923207442151939696344988707002602944342203885692366490121021806145int,
        1442797143427491432630626390066422021593505165588630398337491100088557278058060064930663878153124164818522816175370int,
        1int,
    ]
}

/// The coefficients of the numerator of the `y` map, constant term first.
pub open spec fn y_numerator() -> Seq<int> {
    seq![
        1393399195776646641963150658816615410692049723305861307490980409834842911816308830479576739332720113414154429643571int,
        2968610969752762946134106091152102846225411740689724909058016729455736597929366401532929068084731548131227395540630int,
        122933100683284845219599644396874530871261396084070222155796123161881094323788483360414289333111221370374027338230int,
        303251954782077855462083823228569901064301365507057490567314302006681283228886645653148231378803311079384246777035int,
        1353972356724735644398279028378555627591260676383150667237975415318226973994509601413730187583692624416197017403099int,
        3443977503653895028417260979421240655844034880950251104724609885224259484262346958661845148165419691583810082940400int,
        718493410301850496156792713845282235942975872282052335612908458061560958159410402177452633054233549648465863759602int,
        1466864076415884313141727877156167508644960317046160398342634861648153052436926062434809922037623519108138661903145int,
        1536886493137106337339531461344158973554574987550750910027365237255347020572858445054025958480906372033954157667719int,
        2171468288973248519912068884667133903101171670397991979582205855298465414047741472281361964966463442016062407908400int,
        3915937073730221072189646057898966011292434045388986394373682715266664498392389619761133407846638689998746172899634int,
        3802409194827407598156407709510350851173404795262202653149767739163117554648574333789388883640862266596657730112910int,
        1707589313757812493102695021134258021969283151093981498394095062397393499601961942449581422761005023512037430861560int,
        349697005987545415860583335313370109325490073856352967581197273584891698473628451945217286148025358795756956811571int,
        885704436476567581377743161796735879083481447641210566405057346859953524538988296201011389016649354976986251207243int,
        3370924952219000111210625390420697640496067348723987858345031683392215988129398381698161406651860675722373763741188int,
    ]
}

/// The coefficients of the denominator of the `y` map, constant term first.
pub open spec fn y_denominator() -> Seq<int> {
    seq![
        3396434800020507717552209507749485772788165484415495716688989613875369612529138640646200921379825018840894888371137int,
        3907278185868397906991868466757978732688957419873771881240086730384895060595583602347317992689443299391009456758845int,
        854914566454823955479427412036002165304466268547334760894270240966182605542146252771872707010378658178126128834546int,
        3496628876382137961119423566187258795236027183112131017519536056628828830323846696121917502443333849318934945158166int,
        1828256966233331991927609917644344011503610008134915752990581590799656305331275863706710232159635159092657073225757int,
        1362317127649143894542621413133849052553333099883364300946623208643344298804722863920546222860227051989127113848748int,
        3443845896188810583748698342858554856823966611538932245284665132724280883115455093457486044009395063504744802318172int,
        3484671274283470572728732863557945897902920439975203610275006103818288159899345245633896492713412187296754791689945int,
        3755735109429418587065437067067640634211015783636675372165599470771975919172394156249639331555277748466603540045130int,
        3459661102222301807083870307127272890283709299202626530836335779816726101522661683404130556379097384249447658110805int,
        742483168411032072323733249644347333168432665415341249073150659015707795549260947228694495111018381111866512337576int,
        1662231279858095762833829698537304807741442669992646287950513237989158777254081548205552083108208170765474149568658int,
        1668238650112823419388205992952852912407572045257706138925379268508860023191233729074751042562151098884528280913356int,
        369162719928976119195087327055926326601627748362769544198813069133429557026740823593067700396825489145575282378487int,
        2164195715141237148945939585099633032390257748382945597506236650132835917087090097395995817229686247227784224263055int,
        1int,
    ]
}

/// The limbs of the coefficients of the numerator of the `x` map, constant term first.
pub const PHI_X_NOM_LIMBS: [[u64; 6]; 12] = [
    [0xaeac1662734649b7, 0x5610c2d5f2e62d6e, 0xf2627b56cdb4e2c8, 0x6b303e88a2d7005f, 0xb809101dd9981585, 0x11a05f2b1e833340],
    [0xe834eef1b3cb83bb, 0x4838f2a6f318c356, 0xf565e33c70d1e86b, 0x7c17e75b2f6a8417, 0x0588bab22147a81c, 0x17294ed3e943ab2f],
    [0xe0179f9dac9edcb0, 0x958c3e3d2a09729f, 0x6878e501ec68e25c, 0xce032473295983e5, 0x1d1048c5d10a9a1b, 0x0d54005db97678ec],
    [0xc5b388641d9b6861, 0x5336e25ce3107193, 0xf1b33289f1b33083, 0xd7f5e4656a8dbf25, 0x4e0609d307e55412, 0x1778e7166fcc6db7],
    [0x51154ce9ac8895d9, 0x985a286f301e77c4, 0x086eeb65982fac18, 0x99db995a1257fb3f, 0x6642b4b3e4118e54, 0x0e99726a3199f443],
    [0xcd13c1c66f652983, 0xa0870d2dcae73d19, 0x9ed3ab9097e68f90, 0xdb3cb17dd952799b, 0x01d1201bf7a74ab5, 0x1630c3250d7313ff],
    [0xddd7f225a139ed84, 0x8da25128c1052eca, 0x9008e218f9c86b2a, 0xb11586264f0f8ce1, 0x6a3726c38ae652bf, 0x0d6ed6553fe44d29],
    [0x9ccb5618e3f0c88e, 0x39b7c8f8c8f475af, 0xa682c62ef0f27533, 0x356de5ab275b4db1, 0xe8743884d1117e53, 0x17b81e7701abdbe2],
    [0x6d71986a8497e317, 0x4fa295f296b74e95, 0xa2c596c928c5d1de, 0xc43b756ce79f5574, 0x7b90b33563be990d, 0x080d3cf1f9a78fc4],
    [0x7f241067be390c9e, 0xa3190b2edc032779, 0x676314baf4bb1b7f, 0xdd2ecb803a0c5c99, 0x2e0c37515d138f22, 0x169b1f8e1bcfa7c4],
    [0xca67df3f1605fb7b, 0xf69b771f8c285dec, 0xd50af36003b14866, 0xfa7dccdde6787f96, 0x72d8ec09d2565b0d, 0x10321da079ce07e2],
    [0xa9c8ba2e8ba2d229, 0xc24b1b80b64d391f, 0x23c0bf1bc24c6b68, 0x31d79d7e22c837bc, 0xbd1e962381edee3d, 0x06e08c248e260e70],
];

/// The coefficients of the numerator of the `x` map, constant term first.
pub fn phi_x_nom() -> (r: [Fq; 12])
    ensures
        values(r@) == x_numerator(),
{
    let r = [
        Fq::from_canonical_limbs(PHI_X_NOM_LIMBS[0]),
        Fq::from_canonical_limbs(PHI_X_NOM_LIMBS[1]),
        Fq::from_canonical_limbs(PHI_X_NOM_LIMBS[2]),
        Fq::from_canonical_limbs(PHI_X_NOM_LIMBS[3]),
        Fq::from_canonical_limbs(PHI_X_NOM_LIMBS[4]),
        Fq::from_canonical_limbs(PHI_X_NOM_LIMBS[5]),
        Fq::from_canonical_limbs(PHI_X_NOM_LIMBS[6]),
        Fq::from_canonical_limbs(PHI_X_NOM_LIMBS[7]),
        Fq::from_canonical_limbs(PHI_X_NOM_LIMBS[8]),
        Fq::from_canonical_limbs(PHI_X_NOM_LIMBS[9]),
        Fq::from_canonical_limbs(PHI_X_NOM_LIMBS[10]),
        Fq::from_canonical_limbs(PHI_X_NOM_LIMBS[11]),
    ];
    assert(values(r@) =~= x_numerator());
    r
}

/// The limbs of the coefficients of the denominator of the `x` map, constant term first.
pub const PHI_X_DEN_LIMBS: [[u64; 6]; 11] = [
    [0x993cf9fa40d21b1c, 0xb558d681be343df8, 0x9c9588617fc8ac62, 0x01d5ef4ba35b48ba, 0x18b2e62f4bd3fa6f, 0x08ca8d548cff19ae],
    [0xe5c8276ec82b3bff, 0x13daa8846cb026e9, 0x0126c2588c48bf57, 0x7041e8ca0cf0800c, 0x48b4711298e53636, 0x12561a5deb559c43],
    [0xfcc239ba5cb83e19, 0xd6a3d0967c94fedc, 0xfca64e00b11aceac, 0x6f89416f5a718cd1, 0x8137e629bff2991f, 0x0b2962fe57a3225e],
    [0x130de8938dc62cd8, 0x4976d5243eecf5c4, 0x54cca8abc28d6fd0, 0x5b08243f16b16551, 0xc83aafef7c40eb54, 0x03425581a58ae2fe],
    [0x539d395b3532a21e, 0x9bd29ba81f35781d, 0x8d6b44e833b306da, 0xffdfc759a12062bb, 0x0a6f1d5f43e7a07d, 0x13a8e162022914a8],
    [0xc02df9a29f6304a5, 0x7400d24bc4228f11, 0x0a43bcef24b8982f, 0x395735e9ce9cad4d, 0x55390f7f0506c6e9, 0x0e7355f8e4e667b9],
    [0xec2574496ee84a3a, 0xea73b3538f0de06c, 0x4e2e073062aede9c, 0x570f5799af53a189, 0x0f3e0c63e0596721, 0x0772caacf1693619],
    [0x11f7d99bbdcc5a5e, 0x0fa5b9489d11e2d3, 0x1996e1cdf9822c58, 0x6e7f63c21bca68a8, 0x30b3f5b074cf0199, 0x14a7ac2a9d64a8b2],
    [0x4776ec3a79a1d641, 0x03826692abba4370, 0x74100da67f398835, 0xe07f8d1d7161366b, 0x5e920b3dafc7a3cc, 0x0a10ecf6ada54f82],
    [0x2d6384d168ecdd0a, 0x93174e4b4b786500, 0x76df533978f31c15, 0xf682b4ee96f7d037, 0x476d6e3eb3a56680, 0x095fc13ab9e92ad4],
    [0x0000000000000001, 0x0000000000000000, 0x0000000000000000, 0x0000000000000000, 0x0000000000000000, 0x0000000000000000],
];

/// The coefficients of the denominator of the `x` map, constant term first.
pub fn phi_x_den() -> (r: [Fq; 11])
    ensures
        values(r@) == x_denominator(),
{
    let r = [
        Fq::from_canonical_limbs(PHI_X_DEN_LIMBS[0]),
        Fq::from_canonical_limbs(PHI_X_DEN_LIMBS[1]),
        Fq::from_canonical_limbs(PHI_X_DEN_LIMBS[2]),
        Fq::from_canonical_limbs(PHI_X_DEN_LIMBS[3]),
        Fq::from_canonical_limbs(PHI_X_DEN_LIMBS[4]),
        Fq::from_canonical_limbs(PHI_X_DEN_LIMBS[5]),
        Fq::from_canonical_limbs(PHI_X_DEN_LIMBS[6]),
        Fq::from_canonical_limbs(PHI_X_DEN_LIMBS[7]),
        Fq::from_canonical_limbs(PHI_X_DEN_LIMBS[8]),
        Fq::from_canonical_limbs(PHI_X_DEN_LIMBS[9]),
        Fq::from_canonical_limbs(PHI_X_DEN_LIMBS[10]),
    ];
    assert(values(r@) =~= x_denominator());
    r
}

/// The limbs of the coefficients of the numerator of the `y` map, constant term first.
pub const PHI_Y_NOM_LIMBS: [[u64; 6]; 16] = [
    [0xbe9845719707bb33, 0xcd0c7aee9b3ba3c2, 0x2b52af6c956543d3, 0x11ad138e48a86952, 0x259d1f094980dcfa, 0x090d97c81ba24ee0],
    [0xe097e75a2e41c696, 0xd6c56711962fa8bf, 0x0f906343eb67ad34, 0x1223e96c254f383d, 0xd51036d776fb4683, 0x134996a104ee5811],
    [0xb8dfe240c72de1f6, 0xd26d521628b00523, 0xc344be4b91400da7, 0x2552e2d658a31ce2, 0xf4a384c86a3b4994, 0x00cc786baa966e66],
    [0xa6355c77b0e5f4cb, 0xde405aba9ec61dec, 0x09e4a3ec03251cf9, 0xd42aa7b90eeb791c, 0x7898751ad8746757, 0x01f86376e8981c21],
    [0x41b6daecf2e8fedb, 0x2ee7f8dc099040a8, 0x79833fd221351adc, 0x195536fbe3ce50b8, 0x5caf4fe2a21529c4, 0x08cc03fdefe0ff13],
    [0x99b23ab13633a5f0, 0x203f6326c95a8072, 0x76505c3d3ad5544e, 0x74a7d0d4afadb7bd, 0x2211e11db8f0a6a0, 0x16603fca40634b6a],
    [0xc961f8855fe9d6f2, 0x47a87ac2460f415e, 0x5231413c4d634f37, 0xe75bb8ca2be184cb, 0xb2c977d027796b3c, 0x04ab0b9bcfac1bbc],
    [0xa15e4ca31870fb29, 0x42f64550fedfe935, 0xfd038da6c26c8426, 0x170a05bfe3bdd81f, 0xde9926bd2ca6c674, 0x0987c8d5333ab86f],
    [0x60370e577bdba587, 0x69d65201c78607a3, 0x1e8b6e6a1f20cabe, 0x8f3abd16679dc26c, 0xe88c9e221e4da1bb, 0x09fc4018bd96684b],
    [0x2bafaaebca731c30, 0x9b3f7055dd4eba6f, 0x06985e7ed1e4d43b, 0xc42a0ca7915af6fe, 0x223abde7ada14a23, 0x0e1bba7a1186bdb5],
    [0xe813711ad011c132, 0x31bf3a5cce3fbafc, 0xd1183e416389e610, 0xcd2fcbcb6caf493f, 0x0dfd0b8f1d43fb93, 0x19713e47937cd1be],
    [0xce07c8a4d0074d8e, 0x49d9cdf41b44d606, 0x2e6bfe7f911f6432, 0x523559b8aaf0c246, 0xb918c143fed2edcc, 0x18b46a908f36f6de],
    [0x0d4c04f00b971ef8, 0x06c851c1919211f2, 0xc02710e807b4633f, 0x7aa7b12a3426b08e, 0xd155096004f53f44, 0x0b182cac101b9399],
    [0x42d9d3f5db980133, 0xc6cf90ad1c232a64, 0x13e6632d3c40659c, 0x757b3b080d4c1580, 0x72fc00ae7be315dc, 0x0245a394ad1eca9b],
    [0x866b1e715475224b, 0x6ba1049b6579afb7, 0xd9ab0f5d396a7ce4, 0x5e673d81d7e86568, 0x02a159f748c4a3fc, 0x05c129645e44cf11],
    [0x04b456be69c8b604, 0xb665027efec01c77, 0x57add4fa95af01b2, 0xcb181d8f84965a39, 0x4ea50b3b42df2eb5, 0x15e6be4e990f03ce],
];

/// The coefficients of the numerator of the `y` map, constant term first.
pub fn phi_y_nom() -> (r: [Fq; 16])
    ensures
        values(r@) == y_numerator(),
{
    let r = [
        Fq::from_canonical_limbs(PHI_Y_NOM_LIMBS[0]),
        Fq::from_canonical_limbs(PHI_Y_NOM_LIMBS[1]),
        Fq::from_canonical_limbs(PHI_Y_NOM_LIMBS[2]),
        Fq::from_canonical_limbs(PHI_Y_NOM_LIMBS[3]),
        Fq::from_canonical_limbs(PHI_Y_NOM_LIMBS[4]),
        Fq::from_canonical_limbs(PHI_Y_NOM_LIMBS[5]),
        Fq::from_canonical_limbs(PHI_Y_NOM_LIMBS[6]),
        Fq::from_canonical_limbs(PHI_Y_NOM_LIMBS[7]),
        Fq::from_canonical_limbs(PHI_Y_NOM_LIMBS[8]),
        Fq::from_canonical_limbs(PHI_Y_NOM_LIMBS[9]),
        Fq::from_canonical_limbs(PHI_Y_NOM_LIMBS[10]),
        Fq::from_canonical_limbs(PHI_Y_NOM_LIMBS[11]),
        Fq::from_canonical_limbs(PHI_Y_NOM_LIMBS[12]),
        Fq::from_canonical_limbs(PHI_Y_NOM_LIMBS[13]),
        Fq::from_canonical_limbs(PHI_Y_NOM_LIMBS[14]),
        Fq::from_canonical_limbs(PHI_Y_NOM_LIMBS[15]),
    ];
    assert(values(r@) =~= y_numerator());
    r
}

/// The limbs of the coefficients of the denominator of the `y` map, constant term first.
pub const PHI_Y_DEN_LIMBS: [[u64; 6]; 16] = [
    [0x01479253b03663c1, 0x07f3688ef60c206d, 0xeec3232b5be72e7a, 0x601a6de578980be6, 0x52181140fad0eae9, 0x16112c4c3a9c98b2],
    [0x32f6102c2e49a03d, 0x78a4260763529e35, 0xa4a10356f453e01f, 0x85c84ff731c4d59c, 0x1a0cbd6c43c348b8, 0x1962d75c2381201e],
    [0x1e2538b53dbf67f2, 0xa6757cd636f96f89, 0x0c35a5dd279cd2ec, 0x78c4855551ae7f31, 0x6faaae7d6e8eb157, 0x058df3306640da27],
    [0xa8d26d98445f5416, 0x727364f2c28297ad, 0x123da489e726af41, 0xd115c5dbddbcd30e, 0xf20d23bf89edb4d1, 0x16b7d288798e5395],
    [0xda39142311a5001d, 0xa20b15dc0fd2eded, 0x542eda0fc9dec916, 0xc6d19c9f0f69bbb0, 0xb00cc912f8228ddc, 0x0be0e079545f43e4],
    [0x02c6477faaf9b7ac, 0x49f38db9dfa9cce2, 0xc5ecd87b6f0f5a64, 0xb70152c65550d881, 0x9fb266eaac783182, 0x08d9e5297186db2d],
    [0x3d1a1399126a775c, 0xd5fa9c01a58b1fb9, 0x5dd365bc400a0051, 0x5eecfdfa8d0cf8ef, 0xc3ba8734ace9824b, 0x166007c08a99db2f],
    [0x60ee415a15812ed9, 0xb920f5b00801dee4, 0xfeb34fd206357132, 0xe5a4375efa1f4fd7, 0x03bcddfabba6ff6e, 0x16a3ef08be3ea7ea],
    [0x6b233d9d55535d4a, 0x52cfe2f7bb924883, 0xabc5750c4bf39b48, 0xf9fb0ce4c6af5920, 0x1a1be54fd1d74cc4, 0x1866c8ed336c6123],
    [0x346ef48bb8913f55, 0xc7385ea3d529b35e, 0x5308592e7ea7d4fb, 0x3216f763e13d87bb, 0xea820597d94a8490, 0x167a55cda70a6e1c],
    [0x00f8b49cba8f6aa8, 0x71a5c29f4f830604, 0x0e591b36e636a5c8, 0x9c6dd039bb61a629, 0x48f010a01ad2911d, 0x04d2f259eea405bd],
    [0x9684b529e2561092, 0x16f968986f7ebbea, 0x8c0f9a88cea79135, 0x7f94ff8aefce42d2, 0xf5852c1e48c50c47, 0x0accbb67481d033f],
    [0x1e99b138573345cc, 0x93000763e3b90ac1, 0x7d5ceef9a00d9b86, 0x543346d98adf0226, 0xc3613144b45f1496, 0x0ad6b9514c767fe3],
    [0xd1fadc1326ed06f7, 0x420517bd8714cc80, 0xcb748df27942480e, 0xbf565b94e72927c1, 0x628bdd0d53cd76f2, 0x02660400eb2e4f3b],
    [0x4415473a1d634b8f, 0x5ca2f570f1349780, 0x324efcd6356caa20, 0x71c40f65e273b853, 0x6b24255e0d7819c1, 0x0e0fa1d816ddc03e],
    [0x0000000000000001, 0x0000000000000000, 0x0000000000000000, 0x0000000000000000, 0x0000000000000000, 0x0000000000000000],
];

/// The coefficients of the denominator of the `y` map, constant term first.
pub fn phi_y_den() -> (r: [Fq; 16])
    ensures
        values(r@) == y_denominator(),
{
    let r = [
        Fq::from_canonical_limbs(PHI_Y_DEN_LIMBS[0]),
        Fq::from_canonical_limbs(PHI_Y_DEN_LIMBS[1]),
        Fq::from_canonical_limbs(PHI_Y_DEN_LIMBS[2]),
        Fq::from_canonical_limbs(PHI_Y_DEN_LIMBS[3]),
        Fq::from_canonical_limbs(PHI_Y_DEN_LIMBS[4]),
        Fq::from_canonical_limbs(PHI_Y_DEN_LIMBS[5]),
        Fq::from_canonical_limbs(PHI_Y_DEN_LIMBS[6]),
        Fq::from_canonical_limbs(PHI_Y_DEN_LIMBS[7]),
        Fq::from_canonical_limbs(PHI_Y_DEN_LIMBS[8]),
        Fq::from_canonical_limbs(PHI_Y_DEN_LIMBS[9]),
        Fq::from_canonical_limbs(PHI_Y_DEN_LIMBS[10]),
        Fq::from_canonical_limbs(PHI_Y_DEN_LIMBS[11]),
        Fq::from_canonical_limbs(PHI_Y_DEN_LIMBS[12]),
        Fq::from_canonical_limbs(PHI_Y_DEN_LIMBS[13]),
        Fq::from_canonical_limbs(PHI_Y_DEN_LIMBS[14]),
        Fq::from_canonical_limbs(PHI_Y_DEN_LIMBS[15]),
    ];
    assert(values(r@) =~= y_denominator());
    r
}

/// The little-endian limbs of the coefficient `a` of the auxiliary curve.
pub const ISO_COEFF_A_LIMBS: [u64; 6] = [
    0x5cf428082d584c1d,
    0x98936f8da0e0f97f,
    0xd8e8981aefd881ac,
    0xb0ea985383ee66a8,
    0x3d693a02c96d4982,
    0x00144698a3b8e943,
];

/// The little-endian limbs of the coefficient `b` of the auxiliary curve.
pub const ISO_COEFF_B_LIMBS: [u64; 6] = [
    0xd1cc48e98e172be0,
    0x5a23215a316ceaa5,
    0xa0b9c14fcef35ef5,
    0x2016c1f0f24f4070,
    0x018b12e8753eee3b,
    0x12e2908d11688030,
];

/// The parameters of the auxiliary curve.
#[derive(Clone, Copy, Debug, Default, PartialEq, Eq)]
pub struct SwuIsoParameters;

impl SwuIsoParameters {
    /// The coefficient `a` of the auxiliary curve.
    pub fn coeff_a() -> (r: Fq)
        ensures
            r@ == iso_coeff_a(),
    {
        Fq::from_canonical_limbs(ISO_COEFF_A_LIMBS)
    }

    /// The coefficient `b` of the auxiliary curve.
    pub fn coeff_b() -> (r: Fq)
        ensures
            r@ == iso_coeff_b(),
    {
        Fq::from_canonical_limbs(ISO_COEFF_B_LIMBS)
    }
}

/// An affine point of the auxiliary curve. It is a type of its own: such a
/// point is no point of G1.
#[derive(Clone, Copy, Debug, PartialEq, Eq)]
pub enum IsoAffine {
    /// The point at infinity.
    Infinity,
    /// The finite point `(x, y)`.
    Finite { x: Fq, y: Fq },
}

impl View for IsoAffine {
    type V = AffinePoint;

    open spec fn view(&self) -> AffinePoint {
        match *self {
            IsoAffine::Infinity => AffinePoint::Infinity,
            IsoAffine::Finite { x, y } => AffinePoint::Finite { x: x@, y: y@ },
        }
    }
}

impl IsoAffine {
    /// The point at infinity.
    pub fn identity() -> (r: IsoAffine)
        ensures
            r@ == AffinePoint::Infinity,
    {
        IsoAffine::Infinity
    }

    /// The finite point `(x, y)`, whether or not it lies on the curve.
    pub fn new_unchecked(x: Fq, y: Fq) -> (r: IsoAffine)
        ensures
            r@ == (AffinePoint::Finite { x: x@, y: y@ }),
    {
        IsoAffine::Finite { x, y }
    }

    /// Whether the point satisfies the equation of the auxiliary curve.
    pub fn is_on_curve(&self) -> (r: bool)
        ensures
            r == on_iso_curve(self@),
    {
        match self {
            IsoAffine::Infinity => true,
            IsoAffine::Finite { x, y } => {
                let ax = SwuIsoParameters::coeff_a().mul(x);
                let rhs = weierstrass_rhs_exec(&ax, &SwuIsoParameters::coeff_b(), x);
                y.square().equals(&rhs)
            },
        }
    }
}

/// One step of Horner's rule: from the value of the tail of a polynomial
/// to the value of the polynomial, in the field.
proof fn lemma_horner_step(c: Seq<int>, x: int, acc: int)
    requires
        c.len() > 0,
        acc == poly_eval(c.skip(1), x),
    ensures
        (fmul(acc, x) + c[0]) % modulus() == poly_eval(c, x),
{
    let p = modulus();
    let t = poly_value(c.skip(1), x);
    lemma_mul_mod_noop_general(t, x, p);
    assert(t * x == x * t) by (nonlinear_arith);
    lemma_add_mod_noop(t * x, c[0], p);
    lemma_add_mod_noop((t * x) % p, c[0], p);
    lemma_small_mod(((t * x) % p) as nat, p as nat);
}

/// The value of the polynomial with coefficients `coeffs`, constant term
/// first, at `x`, by Horner's rule.
pub fn horner(coeffs: &[Fq], x: &Fq) -> (r: Fq)
    ensures
        r@ == poly_eval(values(coeffs@), x@),
{
    let ghost c = values(coeffs@);
    let mut acc = Fq::zero();
    let mut i: usize = coeffs.len();
    assert(c.skip(i as int) =~= Seq::<int>::empty());
    while i > 0
        invariant
            i <= coeffs@.len(),
            c == values(coeffs@),
            acc@ == poly_eval(c.skip(i as int), x@),
        decreases i,
    {
        i = i - 1;
        proof {
            assert(c.skip(i as int).skip(1) =~= c.skip(i + 1));
            lemma_horner_step(c.skip(i as int), x@, acc@);
        }
        acc = acc.mul(x).add(&coeffs[i]);
    }
    assert(c.skip(0) =~= c);
    acc
}

/// Maps a point of the auxiliary curve to G1's curve. The point at infinity
/// is mapped to the point at infinity without evaluating anything. Where a
/// denominator vanishes, at the finite points of the kernel, the quotient
/// is taken to be zero.
pub fn isogeny_map(q: &IsoAffine) -> (p: G1Affine)
    ensures
        p@ == isogeny_image(q@),
        q@ is Infinity ==> p@ is Infinity,
{
    match q {
        IsoAffine::Infinity => G1Affine::Infinity,
        IsoAffine::Finite { x, y } => {
            let x_num = horner(phi_x_nom().as_slice(), x);
            let x_den = horner(phi_x_den().as_slice(), x);
            let y_num = horner(phi_y_nom().as_slice(), x);
            let y_den = horner(phi_y_den().as_slice(), x);
            let img_x = x_num.mul(&x_den.inverse_or_zero());
            let img_y = y.mul(&y_num).mul(&y_den.inverse_or_zero());
            G1Affine::Finite { x: img_x, y: img_y }
        },
    }
}

} // verus!
