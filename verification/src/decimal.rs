//! Canonical decimal numerals: one or more ASCII digits, with no leading
//! zero unless the numeral is `0` itself.

use vstd::prelude::*;
use crate::wide::{wide_bound, Wide};

verus! {

/// Why a numeral was refused as a constant.
#[derive(Clone, Copy, Debug, PartialEq, Eq)]
pub enum ConstantError {
    /// The numeral has no digits.
    Empty,
    /// Some byte is not an ASCII digit.
    NotADigit,
    /// More than one digit, the first of them `0`.
    LeadingZero,
    /// The value is not below the modulus.
    NotBelowModulus,
}

/// Whether `b` is one of the ASCII digits `0` to `9`.
pub open spec fn is_digit(b: u8) -> bool {
    48 <= b <= 57
}

/// Whether every byte of `s` is an ASCII digit.
pub open spec fn all_digits(s: Seq<u8>) -> bool {
    forall|i: int| 0 <= i < s.len() ==> is_digit(#[trigger] s[i])
}

/// Whether `s` is a canonical decimal numeral.
pub open spec fn canonical_decimal(s: Seq<u8>) -> bool {
    s.len() > 0 && all_digits(s) && (s.len() > 1 ==> s[0] != 48)
}

/// The number that the digits of `s` denote, most significant digit first.
pub open spec fn decimal_value(s: Seq<u8>) -> int
    decreases s.len(),
{
    if s.len() == 0 {
        0
    } else {
        10 * decimal_value(s.drop_last()) + (s.last() - 48)
    }
}

/// What [`parse_below`] owes for the numeral `s` and the modulus `m`.
pub open spec fn parse_result(s: Seq<u8>, m: int, r: Result<int, ConstantError>) -> bool {
    match r {
        Ok(v) => canonical_decimal(s) && decimal_value(s) < m && v == decimal_value(s),
        Err(ConstantError::Empty) => s.len() == 0,
        Err(ConstantError::NotADigit) => s.len() > 0 && !all_digits(s),
        Err(ConstantError::LeadingZero) => s.len() > 1 && all_digits(s) && s[0] == 48,
        Err(ConstantError::NotBelowModulus) => canonical_decimal(s) && decimal_value(s) >= m,
    }
}

/// A prefix of a digit string denotes no more than the whole string.
pub proof fn lemma_prefix_value(s: Seq<u8>, i: int)
    requires
        all_digits(s),
        0 <= i <= s.len(),
    ensures
        0 <= decimal_value(s.take(i)) <= decimal_value(s),
    decreases s.len() - i,
{
    if i == s.len() {
        assert(s.take(i) =~= s);
        lemma_value_nonnegative(s);
    } else {
        lemma_prefix_value(s, i + 1);
        lemma_prefix_step(s, i);
        lemma_value_nonnegative(s.take(i));
    }
}

proof fn lemma_value_nonnegative(s: Seq<u8>)
    requires
        all_digits(s),
    ensures
        0 <= decimal_value(s),
    decreases s.len(),
{
    if s.len() > 0 {
        lemma_value_nonnegative(s.drop_last());
    }
}

proof fn lemma_prefix_step(s: Seq<u8>, i: int)
    requires
        0 <= i < s.len(),
    ensures
        decimal_value(s.take(i + 1)) == 10 * decimal_value(s.take(i)) + (s[i] - 48),
{
    assert(s.take(i + 1).drop_last() =~= s.take(i));
}

/// Reads a canonical decimal numeral below `m`. A numeral that is empty,
/// holds a byte that is no digit, starts with a needless zero, or denotes
/// `m` or more is refused; nothing is reduced.
pub fn parse_below(s: &[u8], m: &Wide) -> (r: Result<Wide, ConstantError>)
    requires
        0 < m@,
        10 * m@ + 9 < wide_bound(),
    ensures
        parse_result(
            s@,
            m@,
            match r {
                Ok(w) => Ok(w@),
                Err(e) => Err(e),
            },
        ),
        r matches Ok(w) ==> 0 <= w@ < m@,
{
    let n: usize = s.len();
    if n == 0 {
        return Err(ConstantError::Empty);
    }
    let mut i: usize = 0;
    while i < n
        invariant
            n == s@.len(),
            0 <= i <= n,
            forall|j: int| 0 <= j < i ==> is_digit(#[trigger] s@[j]),
        decreases n - i,
    {
        let b: u8 = s[i];
        if b < 48 || b > 57 {
            return Err(ConstantError::NotADigit);
        }
        i = i + 1;
    }
    if n > 1 && s[0] == 48 {
        return Err(ConstantError::LeadingZero);
    }
    let ten = Wide::from_u64(10);
    let mut acc = Wide::from_u64(0);
    let mut k: usize = 0;
    assert(s@.take(0) =~= Seq::<u8>::empty());
    while k < n
        invariant
            n == s@.len(),
            0 <= k <= n,
            canonical_decimal(s@),
            ten@ == 10,
            0 < m@,
            10 * m@ + 9 < wide_bound(),
            acc@ == decimal_value(s@.take(k as int)),
            0 <= acc@ < m@,
        decreases n - k,
    {
        let b: u8 = s[k];
        let d = Wide::from_u64((b - 48) as u64);
        proof {
            assert(acc@ * ten@ == 10 * acc@) by (nonlinear_arith)
                requires
                    ten@ == 10,
            ;
            lemma_prefix_step(s@, k as int);
        }
        let next = acc.mul(&ten).add(&d);
        if !next.lt(m) {
            proof {
                lemma_prefix_value(s@, k + 1);
            }
            return Err(ConstantError::NotBelowModulus);
        }
        acc = next;
        k = k + 1;
    }
    assert(s@.take(n as int) =~= s@);
    Ok(acc)
}

} // verus!
