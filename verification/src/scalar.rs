//! Scalars are IEEE 754 double-precision values carried as their 64-bit
//! patterns. The arithmetic itself is done by outside soft-float crates;
//! each operation's result is named by an uninterpreted spec function, or
//! stated exactly where one line can say it, so that every contract of the
//! library can pin results down.
use vstd::prelude::*;
use rustc_apfloat::Float;

verus! {

/// Sign bit of a double's bit pattern.
pub const SIGN_MASK: u64 = 0x8000_0000_0000_0000;

/// Exponent field of a double's bit pattern.
pub const EXP_MASK: u64 = 0x7FF0_0000_0000_0000;

/// Fraction field of a double's bit pattern.
pub const FRAC_MASK: u64 = 0x000F_FFFF_FFFF_FFFF;

/// Bit pattern of 1.0.
pub const ONE_BITS: u64 = 0x3FF0_0000_0000_0000;

/// Bit pattern of +infinity.
pub const INF_BITS: u64 = 0x7FF0_0000_0000_0000;

/// Bit pattern of the canonical quiet NaN.
pub const NAN_BITS: u64 = 0x7FF8_0000_0000_0000;

/// Implicit leading bit of a normal double's significand.
pub const IMPLICIT_BIT: u64 = 0x0010_0000_0000_0000;

pub open spec fn biased_exp_of(x: u64) -> u64 {
    (x & EXP_MASK) >> 52
}

pub open spec fn frac_of(x: u64) -> u64 {
    x & FRAC_MASK
}

pub open spec fn sign_of(x: u64) -> bool {
    x & SIGN_MASK != 0
}

pub open spec fn is_nan_bits(x: u64) -> bool {
    biased_exp_of(x) == 0x7FF && frac_of(x) != 0
}

pub uninterp spec fn add_bits(a: u64, b: u64) -> u64;

pub uninterp spec fn sub_bits(a: u64, b: u64) -> u64;

pub uninterp spec fn mul_word(a: u64, b: u64) -> u64;

pub uninterp spec fn div_bits(a: u64, b: u64) -> u64;

pub uninterp spec fn exp_word_of(m: u64, e: i32, neg: bool) -> (u64, i32, bool);

pub uninterp spec fn usize_bits(n: usize) -> u64;

/// The IEEE product of two doubles, as a bit pattern. Two facts of IEEE 754
/// multiplication are folded into the definition, so that they are
/// available wherever the name is: the product of two non-NaN operands does
/// not depend on their order (signs are xored and significands multiplied),
/// so the operands are normalized here; and the product of a non-NaN value
/// with 1.0 is that value exactly, since the real product is already
/// representable. A NaN operand is passed through as given, since the
/// payload that comes back then depends on the operand order.
pub open spec fn mul_bits(a: u64, b: u64) -> u64 {
    if is_nan_bits(a) || is_nan_bits(b) {
        mul_word(a, b)
    } else if b == ONE_BITS {
        a
    } else if a == ONE_BITS {
        b
    } else if a <= b {
        mul_word(a, b)
    } else {
        mul_word(b, a)
    }
}

/// Relies on rustc_apfloat's `add_r` on `ieee::Double` (IEEE 754 addition,
/// round to nearest, ties to even): the result depends on the two operand
/// bit patterns alone.
#[verifier::external_body]
pub fn f_add(a: u64, b: u64) -> (r: u64)
    ensures
        r == add_bits(a, b),
{
    let x = rustc_apfloat::ieee::Double::from_bits(a as u128);
    let y = rustc_apfloat::ieee::Double::from_bits(b as u128);
    (x + y).value.to_bits() as u64
}

/// Relies on rustc_apfloat's `sub_r` on `ieee::Double` (IEEE 754
/// subtraction, round to nearest, ties to even).
#[verifier::external_body]
pub fn f_sub(a: u64, b: u64) -> (r: u64)
    ensures
        r == sub_bits(a, b),
{
    let x = rustc_apfloat::ieee::Double::from_bits(a as u128);
    let y = rustc_apfloat::ieee::Double::from_bits(b as u128);
    (x - y).value.to_bits() as u64
}

/// Relies on rustc_apfloat's `mul_r` on `ieee::Double` (IEEE 754
/// multiplication, round to nearest, ties to even). Its source computes the
/// product of non-NaN operands symmetrically (sign xor, significand
/// product), which is what lets this contract speak of `mul_bits` with the
/// operands ordered.
#[verifier::external_body]
pub fn f_mul(a: u64, b: u64) -> (r: u64)
    ensures
        r == mul_bits(a, b),
        a <= b || is_nan_bits(a) || is_nan_bits(b) ==> r == mul_word(a, b),
{
    let x = rustc_apfloat::ieee::Double::from_bits(a as u128);
    let y = rustc_apfloat::ieee::Double::from_bits(b as u128);
    (x * y).value.to_bits() as u64
}

/// Relies on rustc_apfloat's `div_r` on `ieee::Double` (IEEE 754 division,
/// round to nearest, ties to even).
#[verifier::external_body]
pub fn f_div(a: u64, b: u64) -> (r: u64)
    ensures
        r == div_bits(a, b),
{
    let x = rustc_apfloat::ieee::Double::from_bits(a as u128);
    let y = rustc_apfloat::ieee::Double::from_bits(b as u128);
    (x / y).value.to_bits() as u64
}

/// IEEE 754 negation is exactly a flip of the sign bit, so it needs no
/// outside call.
pub fn f_neg(a: u64) -> (r: u64)
    ensures
        r == a ^ SIGN_MASK,
{
    a ^ SIGN_MASK
}

/// Relies on rustc_apfloat's `from_u128_r` on `ieee::Double` (conversion of
/// an unsigned integer to the nearest double, ties to even).
#[verifier::external_body]
pub fn f_usize(n: usize) -> (r: u64)
    ensures
        r == usize_bits(n),
{
    let x = rustc_apfloat::ieee::Double::from_u128(n as u128);
    x.value.to_bits() as u64
}

/// Relies on astro-float's `exp` on `BigFloat` (e to the power of the
/// argument, 64 bits of precision, round to nearest even), through its
/// words-based interface: the argument is the positive or negated value
/// `0.m * 2^e` with `m` read as a binary fraction, and the result comes
/// back in the same form. The bound on `e` keeps the result's exponent
/// representable, so that the call returns a finite nonzero value.
#[verifier::external_body]
fn f_exp_word(m: u64, e: i32, neg: bool) -> (r: (u64, i32, bool))
    requires
        m & SIGN_MASK != 0,
        -1100 <= e <= 10,
    ensures
        r == exp_word_of(m, e, neg),
{
    let s = if neg { astro_float::Sign::Neg } else { astro_float::Sign::Pos };
    let x = astro_float::BigFloat::from_words(&[m], s, e);
    let mut cc = astro_float::Consts::new().expect("constants cache");
    let y = x.exp(64, astro_float::RoundingMode::ToEven, &mut cc);
    let (w, _n, ys, ye, _inexact) = y.as_raw_parts().expect("finite exponential");
    let yneg = match ys {
        astro_float::Sign::Neg => true,
        astro_float::Sign::Pos => false,
    };
    (w[0], ye, yneg)
}

/// The normal double nearest to `(-1)^neg * (w / 2^64) * 2^e`, rounding the
/// 64-bit word to a 53-bit significand (nearest, ties to even). An exponent
/// above the normal range saturates to infinity; one below it collapses to
/// a signed zero, subnormals included, which loses nothing here: the
/// exponential only underflows for arguments far below where the sigmoid
/// already rounds to one.
pub open spec fn round_word_to_bits(w: u64, e: int, neg: bool) -> u64 {
    let h = w >> 11;
    let round_up = (w >> 10) & 1 == 1 && (w & 0x3FF != 0 || (w >> 11) & 1 == 1);
    let h2: int = if round_up {
        h + 1
    } else {
        h as int
    };
    let h3: int = if h2 == 0x20_0000_0000_0000 {
        0x10_0000_0000_0000
    } else {
        h2
    };
    let e3: int = if h2 == 0x20_0000_0000_0000 {
        e + 1
    } else {
        e
    };
    let sign: u64 = if neg {
        SIGN_MASK
    } else {
        0u64
    };
    if e3 - 1 > 1023 {
        sign | INF_BITS
    } else if e3 - 1 < -1022 {
        sign
    } else {
        sign | (((e3 - 1 + 1023) as u64) << 52) | ((h3 as u64) & FRAC_MASK)
    }
}

/// Executable form of `round_word_to_bits`.
fn round_word(w: u64, e: i32, neg: bool) -> (r: u64)
    ensures
        r == round_word_to_bits(w, e as int, neg),
{
    let h: u64 = w >> 11;
    let round_up: bool = (w >> 10) & 1 == 1 && (w & 0x3FF != 0 || (w >> 11) & 1 == 1);
    assert(h < 0x20_0000_0000_0000) by (bit_vector)
        requires
            h == w >> 11u64,
    ;
    let h2: u64 = if round_up {
        h + 1
    } else {
        h
    };
    let h3: u64 = if h2 == 0x20_0000_0000_0000 {
        0x10_0000_0000_0000
    } else {
        h2
    };
    let e3: i64 = if h2 == 0x20_0000_0000_0000 {
        e as i64 + 1
    } else {
        e as i64
    };
    let sign: u64 = if neg {
        SIGN_MASK
    } else {
        0u64
    };
    if e3 - 1 > 1023 {
        sign | INF_BITS
    } else if e3 - 1 < -1022 {
        sign
    } else {
        let biased: u64 = (e3 - 1 + 1023) as u64;
        sign | (biased << 52) | (h3 & FRAC_MASK)
    }
}

/// The exponential of the double with bit pattern `x`, as a bit pattern.
/// NaN maps to NaN and the infinities to their limits; zeros and
/// subnormal arguments are so small that the nearest double to their
/// exponential is exactly 1.0; arguments of magnitude 1024.0 or more
/// saturate, since the double exponential range ends near 709.8; the
/// remaining (normal) arguments are handed to the outside exponential with
/// their significand as a 64-bit word.
pub open spec fn exp_bits(x: u64) -> u64 {
    if is_nan_bits(x) {
        NAN_BITS
    } else if biased_exp_of(x) == 0x7FF {
        if sign_of(x) {
            0u64
        } else {
            INF_BITS
        }
    } else if biased_exp_of(x) == 0 {
        ONE_BITS
    } else if biased_exp_of(x) >= 1033 {
        if sign_of(x) {
            0u64
        } else {
            INF_BITS
        }
    } else {
        let w = (frac_of(x) | IMPLICIT_BIT) << 11;
        let e = (biased_exp_of(x) - 1022) as i32;
        let t = exp_word_of(w, e, sign_of(x));
        round_word_to_bits(t.0, t.1 as int, t.2)
    }
}

/// Executable form of `exp_bits`.
pub fn exp_scalar(x: u64) -> (r: u64)
    ensures
        r == exp_bits(x),
{
    let biased: u64 = (x & EXP_MASK) >> 52;
    let frac: u64 = x & FRAC_MASK;
    let neg: bool = x & SIGN_MASK != 0;
    assert(biased <= 0x7FF) by (bit_vector)
        requires
            biased == (x & EXP_MASK) >> 52u64,
    ;
    if biased == 0x7FF {
        if frac != 0 {
            NAN_BITS
        } else if neg {
            0u64
        } else {
            INF_BITS
        }
    } else if biased == 0 {
        ONE_BITS
    } else if biased >= 1033 {
        if neg {
            0u64
        } else {
            INF_BITS
        }
    } else {
        let w: u64 = (frac | IMPLICIT_BIT) << 11;
        assert(w & SIGN_MASK != 0) by (bit_vector)
            requires
                w == ((x & FRAC_MASK) | IMPLICIT_BIT) << 11u64,
        ;
        let e: i32 = (biased as i64 - 1022) as i32;
        assert(e as int == biased_exp_of(x) - 1022);
        let t = f_exp_word(w, e, neg);
        round_word(t.0, t.1, t.2)
    }
}

/// The logistic sigmoid `1 / (1 + e^-x)` of the double with bit pattern
/// `x`, as a bit pattern, over the scalar operations above.
pub open spec fn sigmoid_bits(x: u64) -> u64 {
    div_bits(ONE_BITS, add_bits(ONE_BITS, exp_bits(x ^ SIGN_MASK)))
}

/// The derivative of the logistic sigmoid at `x`, computed as
/// `s * (1 - s)` with `s` the sigmoid of `x`.
pub open spec fn sigmoid_deriv_bits(x: u64) -> u64 {
    mul_bits(sigmoid_bits(x), sub_bits(ONE_BITS, sigmoid_bits(x)))
}

/// Executable form of `sigmoid_bits`.
pub fn sigmoid_scalar(x: u64) -> (r: u64)
    ensures
        r == sigmoid_bits(x),
{
    let u = exp_scalar(f_neg(x));
    f_div(ONE_BITS, f_add(ONE_BITS, u))
}

/// Executable form of `sigmoid_deriv_bits`.
pub fn sigmoid_deriv_scalar(x: u64) -> (r: u64)
    ensures
        r == sigmoid_deriv_bits(x),
{
    let s = sigmoid_scalar(x);
    f_mul(s, f_sub(ONE_BITS, s))
}

} // verus!
