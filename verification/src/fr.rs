//! The scalar field of BLS12-381: integers modulo the 255-bit prime `r`,
//! the order of the group G1. Only constants of this field are needed here,
//! so an element is a canonical value and nothing more.

use vstd::prelude::*;
use vstd::string::StringSliceAdditionalSpecFns;
use crate::decimal::{parse_below, parse_result, ConstantError};
use crate::wide::{limbs4_value, Wide};

verus! {

/// The scalar-field modulus `r`.
pub open spec fn scalar_modulus() -> int {
    52435875175126190479447740508185965837690552500527637822603658699938581184513int
}

/// The little-endian limbs of `r`.
pub fn scalar_modulus_limbs() -> (l: [u64; 4])
    ensures
        limbs4_value(l) == scalar_modulus(),
{
    [0xffffffff00000001, 0x53bda402fffe5bfe, 0x3339d80809a1d805, 0x73eda753299d7d48]
}

/// A scalar-field element in canonical form.
#[derive(Clone, Copy, Debug, PartialEq, Eq)]
pub struct Fr {
    limbs: [u64; 4],
}

impl View for Fr {
    type V = int;

    closed spec fn view(&self) -> int {
        limbs4_value(self.limbs)
    }
}

impl Fr {
    #[verifier::type_invariant]
    spec fn canonical(self) -> bool {
        limbs4_value(self.limbs) < scalar_modulus()
    }

    /// The element with the given little-endian limbs, known to be below `r`.
    pub(crate) fn from_canonical_limbs(limbs: [u64; 4]) -> (r: Fr)
        requires
            limbs4_value(limbs) < scalar_modulus(),
        ensures
            r@ == limbs4_value(limbs),
    {
        Fr { limbs }
    }

    /// The element with the given little-endian limbs, if they are below `r`.
    pub fn from_limbs(limbs: [u64; 4]) -> (r: Option<Fr>)
        ensures
            r is Some <==> limbs4_value(limbs) < scalar_modulus(),
            r is Some ==> r->0@ == limbs4_value(limbs),
    {
        let w = Wide::from_limbs4(&limbs);
        let m = Wide::from_limbs4(&scalar_modulus_limbs());
        if w.lt(&m) {
            Some(Fr { limbs })
        } else {
            None
        }
    }

    /// The little-endian limbs of the canonical value.
    pub fn to_limbs(&self) -> (r: [u64; 4])
        ensures
            limbs4_value(r) == self@,
            0 <= self@ < scalar_modulus(),
    {
        proof {
            use_type_invariant(self);
        }
        self.limbs
    }

    /// The element that a canonical decimal numeral below `r` denotes.
    pub fn from_decimal(s: &str) -> (r: Result<Fr, ConstantError>)
        ensures
            parse_result(
                s.spec_bytes(),
                scalar_modulus(),
                match r {
                    Ok(x) => Ok(x@),
                    Err(e) => Err(e),
                },
            ),
    {
        let m = Wide::from_limbs4(&scalar_modulus_limbs());
        match parse_below(s.as_bytes(), &m) {
            Ok(w) => Ok(Fr { limbs: w.low4() }),
            Err(e) => Err(e),
        }
    }
}

} // verus!
