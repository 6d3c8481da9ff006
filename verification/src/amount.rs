//! Exact decimal amounts.
//!
//! An [`Amount`] is the pair of a signed mantissa and a decimal scale, and
//! stands for the number `mantissa / 10^scale`. The arithmetic itself is done
//! by `rust_decimal`, whose `Decimal` has exactly these two parts.

use crate::text::{digit_char, digits_of};
use rust_decimal::Decimal;
use vstd::prelude::*;

verus! {

/// The largest magnitude a mantissa may have: `2^96 - 1`.
pub const MAX_MANTISSA: i128 = 0xFFFF_FFFF_FFFF_FFFF_FFFF_FFFFi128;

/// The largest scale: the number of digits after the decimal point.
pub const MAX_SCALE: u32 = 28u32;

/// `10^e`.
pub open spec fn pow10(e: nat) -> nat
    decreases e,
{
    if e == 0 {
        1
    } else {
        10 * pow10((e - 1) as nat)
    }
}

/// What `Decimal::checked_add` returns for the two decimals with these
/// mantissas and scales: the mantissa and scale of the sum, or `None` where
/// the sum cannot be represented.
pub uninterp spec fn decimal_sum(a_mantissa: int, a_scale: nat, b_mantissa: int, b_scale: nat) -> Option<(int, nat)>;

/// What `Decimal::checked_sub` returns for the two decimals with these
/// mantissas and scales.
pub uninterp spec fn decimal_difference(a_mantissa: int, a_scale: nat, b_mantissa: int, b_scale: nat) -> Option<(int, nat)>;

/// What `Decimal::checked_div` returns for the two decimals with these
/// mantissas and scales; `None` where the divisor is zero or the quotient
/// cannot be represented.
pub uninterp spec fn decimal_quotient(a_mantissa: int, a_scale: nat, b_mantissa: int, b_scale: nat) -> Option<(int, nat)>;

/// What `Decimal::from_str` makes of a text: the mantissa and scale of the
/// decimal it reads, or `None` where it reads none.
pub uninterp spec fn decimal_parse(text: Seq<char>) -> Option<(int, nat)>;

/// The last `width` decimal digits of a number, with zeros in front where
/// the number has fewer.
pub open spec fn padded_digits(n: nat, width: nat) -> Seq<char>
    decreases width,
{
    if width == 0 {
        Seq::empty()
    } else {
        padded_digits(n / 10, (width - 1) as nat).push(digit_char((n % 10) as int))
    }
}

/// The decimal with this mantissa and scale in digits: `-` before a number
/// below zero, the whole part without leading zeros, and, where the scale is
/// not zero, a point and as many digits behind it as the scale says.
pub open spec fn decimal_text(mantissa: int, scale: nat) -> Seq<char> {
    let magnitude = (if mantissa < 0 {
        -mantissa
    } else {
        mantissa
    }) as nat;
    let sign = if mantissa < 0 {
        seq!['-']
    } else {
        Seq::empty()
    };
    let whole = digits_of(magnitude / pow10(scale));
    if scale == 0 {
        sign + whole
    } else {
        sign + whole + seq!['.'] + padded_digits(magnitude % pow10(scale), scale)
    }
}

/// The amount with these parts.
pub open spec fn amount_of(parts: (int, nat)) -> Amount {
    Amount { mantissa: parts.0 as i128, scale: parts.1 as u32 }
}

/// The amount among the parts of an optional amount.
pub open spec fn some_amount_of(parts: Option<(int, nat)>) -> Option<Amount> {
    match parts {
        Some(p) => Some(amount_of(p)),
        None => None,
    }
}

/// The sum of two amounts as `rust_decimal` computes it.
pub open spec fn spec_checked_add(a: Amount, b: Amount) -> Option<Amount> {
    some_amount_of(decimal_sum(a.mantissa as int, a.scale as nat, b.mantissa as int, b.scale as nat))
}

/// The difference of two amounts as `rust_decimal` computes it.
pub open spec fn spec_checked_sub(a: Amount, b: Amount) -> Option<Amount> {
    some_amount_of(decimal_difference(a.mantissa as int, a.scale as nat, b.mantissa as int, b.scale as nat))
}

/// The quotient of two amounts as `rust_decimal` computes it.
pub open spec fn spec_checked_div(a: Amount, b: Amount) -> Option<Amount> {
    some_amount_of(decimal_quotient(a.mantissa as int, a.scale as nat, b.mantissa as int, b.scale as nat))
}

/// The amount that a text reads as.
pub open spec fn spec_parse(text: Seq<char>) -> Option<Amount> {
    some_amount_of(decimal_parse(text))
}

/// The sum of the two amounts can be represented, and `rust_decimal` gives
/// it without rounding.
pub open spec fn adds_exactly(a: Amount, b: Amount) -> bool {
    spec_checked_add(a, b) matches Some(sum) && sum.wf() && sum.units() == a.units() + b.units()
}

/// The difference of the two amounts can be represented, and `rust_decimal`
/// gives it without rounding.
pub open spec fn subtracts_exactly(a: Amount, b: Amount) -> bool {
    spec_checked_sub(a, b) matches Some(rest) && rest.wf() && rest.units() == a.units() - b.units()
}

/// The amount is divided into `n` parts without rounding: `n` times what
/// `rust_decimal` gives is the amount.
pub open spec fn divides_exactly(a: Amount, n: nat) -> bool {
    spec_checked_div(a, Amount { mantissa: n as i128, scale: 0 }) matches Some(part) && part.wf()
        && part.units() * n == a.units()
}

/// An exact decimal number, `mantissa / 10^scale`.
#[derive(Clone, Copy, Debug, PartialEq, Eq, Structural)]
pub struct Amount {
    pub mantissa: i128,
    pub scale: u32,
}

impl Amount {
    /// The mantissa fits 96 bits and the scale is at most 28.
    pub open spec fn wf(self) -> bool {
        &&& -MAX_MANTISSA <= self.mantissa <= MAX_MANTISSA
        &&& self.scale <= MAX_SCALE
    }

    /// The mantissa and the scale as mathematical numbers.
    pub open spec fn parts(self) -> (int, nat) {
        (self.mantissa as int, self.scale as nat)
    }

    /// The number as a multiple of `10^-28`: two amounts stand for the same
    /// number exactly when their units are equal.
    pub open spec fn units(self) -> int {
        self.mantissa * pow10((MAX_SCALE - self.scale) as nat)
    }

    /// The amount with the given mantissa and scale, where these are within
    /// the limits.
    pub fn new(mantissa: i128, scale: u32) -> (r: Option<Amount>)
        ensures
            r == (if (Amount { mantissa, scale }).wf() {
                Some(Amount { mantissa, scale })
            } else {
                None::<Amount>
            }),
    {
        if scale <= MAX_SCALE && -MAX_MANTISSA <= mantissa && mantissa <= MAX_MANTISSA {
            Some(Amount { mantissa, scale })
        } else {
            None
        }
    }

    /// Whether the mantissa and the scale are within the limits.
    pub fn is_valid(&self) -> (r: bool)
        ensures
            r == self.wf(),
    {
        self.scale <= MAX_SCALE && -MAX_MANTISSA <= self.mantissa && self.mantissa <= MAX_MANTISSA
    }

    /// Zero.
    pub fn zero() -> (r: Amount)
        ensures
            r == (Amount { mantissa: 0, scale: 0 }),
            r.wf(),
            r.units() == 0,
    {
        Amount { mantissa: 0, scale: 0 }
    }

    /// The whole number `n`.
    pub fn from_count(n: usize) -> (r: Amount)
        ensures
            r == (Amount { mantissa: n as i128, scale: 0 }),
            r.wf(),
    {
        Amount { mantissa: n as i128, scale: 0 }
    }

    /// Reads a decimal from a text, as `rust_decimal` reads it.
    pub fn parse(text: &str) -> (r: Option<Amount>)
        ensures
            r matches Some(a) ==> a.wf(),
            r == spec_parse(text@),
    {
        decimal_from_text(text)
    }

    /// The sum, or `None` where `rust_decimal` cannot represent it.
    pub fn checked_add(self, other: Amount) -> (r: Option<Amount>)
        requires
            self.wf(),
            other.wf(),
        ensures
            r matches Some(s) ==> s.wf(),
            r == spec_checked_add(self, other),
    {
        decimal_checked_add(self, other)
    }

    /// The difference, or `None` where `rust_decimal` cannot represent it.
    pub fn checked_sub(self, other: Amount) -> (r: Option<Amount>)
        requires
            self.wf(),
            other.wf(),
        ensures
            r matches Some(s) ==> s.wf(),
            r == spec_checked_sub(self, other),
    {
        decimal_checked_sub(self, other)
    }

    /// The quotient, or `None` where the divisor is zero or `rust_decimal`
    /// cannot represent the quotient.
    pub fn checked_div(self, other: Amount) -> (r: Option<Amount>)
        requires
            self.wf(),
            other.wf(),
        ensures
            r matches Some(s) ==> s.wf(),
            r == spec_checked_div(self, other),
    {
        decimal_checked_div(self, other)
    }

    /// The amount in digits, as `rust_decimal` writes it.
    pub fn to_text(&self) -> (r: String)
        requires
            self.wf(),
        ensures
            r@ == decimal_text(self.mantissa as int, self.scale as nat),
    {
        decimal_to_text(*self)
    }

    /// Whether the number is zero.
    pub fn is_zero(&self) -> (r: bool)
        ensures
            r == (self.units() == 0),
    {
        proof {
            lemma_units_sign(*self);
        }
        self.mantissa == 0
    }

    /// Whether the number is above zero.
    pub fn is_positive(&self) -> (r: bool)
        ensures
            r == (self.units() > 0),
    {
        proof {
            lemma_units_sign(*self);
        }
        self.mantissa > 0
    }

    /// Whether the number is below zero.
    pub fn is_negative(&self) -> (r: bool)
        ensures
            r == (self.units() < 0),
    {
        proof {
            lemma_units_sign(*self);
        }
        self.mantissa < 0
    }

    /// The number without its sign, at the same scale.
    pub fn abs(&self) -> (r: Amount)
        requires
            self.wf(),
        ensures
            r.wf(),
            r.scale == self.scale,
            r.mantissa == (if self.mantissa < 0 { -self.mantissa } else { self.mantissa as int }),
            r.units() == (if self.units() < 0 { -self.units() } else { self.units() }),
    {
        proof {
            lemma_units_sign(*self);
            lemma_units_negated(*self);
        }
        if self.mantissa < 0 {
            Amount { mantissa: -self.mantissa, scale: self.scale }
        } else {
            *self
        }
    }

    /// Whether this number is smaller than the other.
    pub fn less_than(&self, other: &Amount) -> (r: bool)
        requires
            self.wf(),
            other.wf(),
        ensures
            r == (self.units() < other.units()),
    {
        decimal_less(*self, *other)
    }

    /// The mantissa: the digits of the number as a whole number, with its sign.
    pub fn mantissa(&self) -> (r: i128)
        ensures
            r == self.mantissa,
    {
        self.mantissa
    }

    /// The scale: how many of the digits stand after the decimal point.
    pub fn scale(&self) -> (r: u32)
        ensures
            r == self.scale,
    {
        self.scale
    }
}

/// `10^e` is positive.
pub proof fn lemma_pow10_positive(e: nat)
    ensures
        pow10(e) > 0,
    decreases e,
{
    if e > 0 {
        lemma_pow10_positive((e - 1) as nat);
    }
}

/// The units of an amount have the sign of its mantissa.
pub proof fn lemma_units_sign(a: Amount)
    ensures
        (a.units() == 0) == (a.mantissa == 0),
        (a.units() > 0) == (a.mantissa > 0),
        (a.units() < 0) == (a.mantissa < 0),
{
    let p = pow10((MAX_SCALE - a.scale) as nat) as int;
    lemma_pow10_positive((MAX_SCALE - a.scale) as nat);
    let m = a.mantissa as int;
    assert((m * p == 0) == (m == 0) && (m * p > 0) == (m > 0) && (m * p < 0) == (m < 0)) by (nonlinear_arith)
        requires
            p > 0,
    ;
}

/// Negating the mantissa negates the units.
pub proof fn lemma_units_negated(a: Amount)
    requires
        a.wf(),
    ensures
        (Amount { mantissa: (-a.mantissa) as i128, scale: a.scale }).units() == -a.units(),
{
    let p = pow10((MAX_SCALE - a.scale) as nat) as int;
    let m = a.mantissa as int;
    assert((-m) * p == -(m * p)) by (nonlinear_arith);
}

/// Calls `Decimal::checked_add` on the two decimals. Claimed: the result is
/// a function of the operands' mantissas and scales, and a sum that comes
/// back is a decimal within the limits of the type.
#[verifier::external_body]
pub(crate) fn decimal_checked_add(a: Amount, b: Amount) -> (r: Option<Amount>)
    requires
        a.wf(),
        b.wf(),
    ensures
        r matches Some(s) ==> s.wf(),
        amount_parts(r) == decimal_sum(a.mantissa as int, a.scale as nat, b.mantissa as int, b.scale as nat),
{
    let x = Decimal::from_i128_with_scale(a.mantissa, a.scale);
    let y = Decimal::from_i128_with_scale(b.mantissa, b.scale);
    x.checked_add(y).map(|d| Amount { mantissa: d.mantissa(), scale: d.scale() })
}

/// Calls `Decimal::checked_sub` on the two decimals. Claimed: the result is
/// a function of the operands' mantissas and scales, and a difference that
/// comes back is a decimal within the limits of the type.
#[verifier::external_body]
pub(crate) fn decimal_checked_sub(a: Amount, b: Amount) -> (r: Option<Amount>)
    requires
        a.wf(),
        b.wf(),
    ensures
        r matches Some(s) ==> s.wf(),
        amount_parts(r) == decimal_difference(a.mantissa as int, a.scale as nat, b.mantissa as int, b.scale as nat),
{
    let x = Decimal::from_i128_with_scale(a.mantissa, a.scale);
    let y = Decimal::from_i128_with_scale(b.mantissa, b.scale);
    x.checked_sub(y).map(|d| Amount { mantissa: d.mantissa(), scale: d.scale() })
}

/// Calls `Decimal::checked_div` on the two decimals. Claimed: the result is
/// a function of the operands' mantissas and scales, and a quotient that
/// comes back is a decimal within the limits of the type.
#[verifier::external_body]
pub(crate) fn decimal_checked_div(a: Amount, b: Amount) -> (r: Option<Amount>)
    requires
        a.wf(),
        b.wf(),
    ensures
        r matches Some(s) ==> s.wf(),
        amount_parts(r) == decimal_quotient(a.mantissa as int, a.scale as nat, b.mantissa as int, b.scale as nat),
{
    let x = Decimal::from_i128_with_scale(a.mantissa, a.scale);
    let y = Decimal::from_i128_with_scale(b.mantissa, b.scale);
    x.checked_div(y).map(|d| Amount { mantissa: d.mantissa(), scale: d.scale() })
}

/// Calls `<` of `Decimal`, which compares the two decimals as numbers,
/// whatever their scales. Claimed: it holds exactly when the first number is
/// the smaller one.
#[verifier::external_body]
pub(crate) fn decimal_less(a: Amount, b: Amount) -> (r: bool)
    requires
        a.wf(),
        b.wf(),
    ensures
        r == (a.units() < b.units()),
{
    let x = Decimal::from_i128_with_scale(a.mantissa, a.scale);
    let y = Decimal::from_i128_with_scale(b.mantissa, b.scale);
    x < y
}

/// Calls `Decimal::from_str` on the text. Claimed: the result is a function
/// of the text, and a decimal that comes back is within the limits of the
/// type.
#[verifier::external_body]
pub(crate) fn decimal_from_text(text: &str) -> (r: Option<Amount>)
    ensures
        r matches Some(a) ==> a.wf(),
        amount_parts(r) == decimal_parse(text@),
{
    match text.parse::<Decimal>() {
        Ok(d) => Some(Amount { mantissa: d.mantissa(), scale: d.scale() }),
        Err(_) => None,
    }
}

/// Writes the decimal with `Display`. Claimed: the text is the sign of a
/// number below zero, the digits of the whole part, and for a scale that is
/// not zero a point and the digits of the fraction, as many as the scale
/// says.
#[verifier::external_body]
pub(crate) fn decimal_to_text(a: Amount) -> (r: String)
    requires
        a.wf(),
    ensures
        r@ == decimal_text(a.mantissa as int, a.scale as nat),
{
    Decimal::from_i128_with_scale(a.mantissa, a.scale).to_string()
}

/// The parts of an optional amount.
pub open spec fn amount_parts(a: Option<Amount>) -> Option<(int, nat)> {
    match a {
        Some(x) => Some(x.parts()),
        None => None,
    }
}

} // verus!
