//! Decimal quantities: a mantissa and a power-of-ten scale, computed with `rust_decimal`.

use rust_decimal::Decimal;
use std::cmp::Ordering;
use crate::keyed::Duplicate;
use vstd::prelude::*;

verus! {

/// Largest mantissa magnitude a decimal holds (2^96 - 1).
pub const MAX_MANTISSA: i128 = 79228162514264337593543950335i128;

/// Largest scale a decimal holds.
pub const MAX_SCALE: u32 = 28u32;

/// 10 to the power `n`.
pub open spec fn pow10(n: nat) -> int
    decreases n,
{
    if n == 0 {
        1
    } else {
        10 * pow10((n - 1) as nat)
    }
}

/// A decimal number `mantissa * 10^(-scale)`, in the range of `rust_decimal::Decimal`.
#[derive(Clone, Copy, Debug)]
pub struct Dec {
    mantissa: i128,
    scale: u32,
}

impl Duplicate for Dec {
    fn duplicate(&self) -> (r: Self) {
        *self
    }
}

/// Result of comparing two decimals by value.
#[derive(Clone, Copy, Debug, PartialEq, Eq, Structural)]
pub enum ValueOrder {
    /// Left is smaller.
    Less,
    /// Same value.
    Equal,
    /// Left is larger.
    Greater,
}

impl Dec {
    /// The mantissa.
    pub closed spec fn mant(self) -> int {
        self.mantissa as int
    }

    /// The scale.
    pub closed spec fn sc(self) -> nat {
        self.scale as nat
    }

    /// Mantissa and scale lie in the representable range.
    #[verifier::type_invariant]
    pub open spec fn well_formed(self) -> bool {
        &&& -MAX_MANTISSA <= self.mant() <= MAX_MANTISSA
        &&& self.sc() <= MAX_SCALE
    }

    /// The decimal with mantissa `m` and scale `s`.
    pub closed spec fn of(m: int, s: nat) -> Dec {
        Dec { mantissa: m as i128, scale: s as u32 }
    }

    /// `Dec::of` gives back its mantissa and scale when they are in range.
    pub proof fn lemma_of(m: int, s: nat)
        requires
            -MAX_MANTISSA <= m <= MAX_MANTISSA,
            s <= MAX_SCALE,
        ensures
            Dec::of(m, s).mant() == m,
            Dec::of(m, s).sc() == s,
    {
    }

    /// A decimal is determined by its mantissa and scale.
    pub proof fn lemma_ext(a: Dec, b: Dec)
        requires
            a.mant() == b.mant(),
            a.sc() == b.sc(),
        ensures
            a == b,
    {
    }

    /// Decimal from a mantissa and scale in range.
    pub fn from_i128_with_scale(mantissa: i128, scale: u32) -> (r: Dec)
        requires
            -MAX_MANTISSA <= mantissa <= MAX_MANTISSA,
            scale <= MAX_SCALE,
        ensures
            r.mant() == mantissa,
            r.sc() == scale,
            r == Dec::of(mantissa as int, scale as nat),
    {
        Dec { mantissa, scale }
    }

    /// Decimal from a 64-bit mantissa and a scale.
    pub fn new(num: i64, scale: u32) -> (r: Dec)
        requires
            scale <= MAX_SCALE,
        ensures
            r.mant() == num,
            r.sc() == scale,
            r == Dec::of(num as int, scale as nat),
    {
        Dec { mantissa: num as i128, scale }
    }

    /// Integer-valued decimal.
    pub fn from_u64(n: u64) -> (r: Dec)
        ensures
            r.mant() == n,
            r.sc() == 0,
            r == Dec::of(n as int, 0),
    {
        Dec { mantissa: n as i128, scale: 0 }
    }

    /// Zero.
    pub fn zero() -> (r: Dec)
        ensures
            r.mant() == 0,
            r.sc() == 0,
            r == Dec::of(0, 0),
    {
        Dec { mantissa: 0, scale: 0 }
    }

    /// One.
    pub fn one() -> (r: Dec)
        ensures
            r.mant() == 1,
            r.sc() == 0,
            r == Dec::of(1, 0),
    {
        Dec { mantissa: 1, scale: 0 }
    }

    /// The mantissa.
    pub fn mantissa(&self) -> (r: i128)
        ensures
            r == self.mant(),
    {
        self.mantissa
    }

    /// The scale.
    pub fn scale(&self) -> (r: u32)
        ensures
            r == self.sc(),
    {
        self.scale
    }

    /// Whether the value is zero.
    pub fn is_zero(&self) -> (r: bool)
        ensures
            r == (self.mant() == 0),
    {
        self.mantissa == 0
    }

    /// The negated value.
    pub fn neg(&self) -> (r: Dec)
        ensures
            r.mant() == -self.mant(),
            r.sc() == self.sc(),
    {
        proof {
            use_type_invariant(self);
        }
        Dec { mantissa: -self.mantissa, scale: self.scale }
    }

    /// The absolute value.
    pub fn abs(&self) -> (r: Dec)
        ensures
            r.mant() == abs_int(self.mant()),
            r.sc() == self.sc(),
    {
        proof {
            use_type_invariant(self);
        }
        if self.mantissa < 0 {
            Dec { mantissa: -self.mantissa, scale: self.scale }
        } else {
            Dec { mantissa: self.mantissa, scale: self.scale }
        }
    }

    /// Whether the value is greater than zero.
    pub fn is_positive(&self) -> (r: bool)
        ensures
            r == (self.mant() > 0),
    {
        self.mantissa > 0
    }
}

/// Absolute value of an integer.
pub open spec fn abs_int(x: int) -> int {
    if x < 0 {
        -x
    } else {
        x
    }
}

/// `d` denotes the number `num * 10^(-scale)`.
pub open spec fn value_is(d: Dec, num: int, scale: nat) -> bool {
    d.mant() * pow10(scale) == num * pow10(d.sc())
}

/// `a` and `b` denote the same number.
pub open spec fn same_value(a: Dec, b: Dec) -> bool {
    a.mant() * pow10(b.sc()) == b.mant() * pow10(a.sc())
}

/// `a` denotes a smaller number than `b`.
pub open spec fn value_lt(a: Dec, b: Dec) -> bool {
    a.mant() * pow10(b.sc()) < b.mant() * pow10(a.sc())
}

/// `a` denotes a number no larger than `b`.
pub open spec fn value_le(a: Dec, b: Dec) -> bool {
    a.mant() * pow10(b.sc()) <= b.mant() * pow10(a.sc())
}

/// Three-way comparison by value.
pub open spec fn value_order(a: Dec, b: Dec) -> ValueOrder {
    if value_lt(a, b) {
        ValueOrder::Less
    } else if same_value(a, b) {
        ValueOrder::Equal
    } else {
        ValueOrder::Greater
    }
}

/// The larger of two scales.
pub open spec fn max_scale(a: Dec, b: Dec) -> nat {
    if a.sc() >= b.sc() {
        a.sc()
    } else {
        b.sc()
    }
}

/// Mantissa of the exact sum `a + b` written at scale `max_scale(a, b)`.
pub open spec fn exact_sum(a: Dec, b: Dec) -> int {
    a.mant() * pow10((max_scale(a, b) - a.sc()) as nat) + b.mant() * pow10(
        (max_scale(a, b) - b.sc()) as nat,
    )
}

/// Mantissa of the exact difference `a - b` written at scale `max_scale(a, b)`.
pub open spec fn exact_difference(a: Dec, b: Dec) -> int {
    a.mant() * pow10((max_scale(a, b) - a.sc()) as nat) - b.mant() * pow10(
        (max_scale(a, b) - b.sc()) as nat,
    )
}

/// The exact product `a * b`: mantissas multiplied at the summed scale, or the plain zero
/// (scale 0) when a factor is zero.
pub open spec fn exact_product(a: Dec, b: Dec) -> Dec {
    if a.mant() * b.mant() == 0 {
        Dec::of(0, 0)
    } else {
        Dec::of(a.mant() * b.mant(), a.sc() + b.sc())
    }
}

/// What `Decimal::checked_add` returns (it rounds where the exact sum does not fit).
pub uninterp spec fn decimal_sum(a: Dec, b: Dec) -> Option<Dec>;

/// What `Decimal::checked_sub` returns.
pub uninterp spec fn decimal_difference(a: Dec, b: Dec) -> Option<Dec>;

/// What `Decimal::checked_mul` returns.
pub uninterp spec fn decimal_product(a: Dec, b: Dec) -> Option<Dec>;

/// What `Decimal::checked_div` returns.
pub uninterp spec fn decimal_quotient(a: Dec, b: Dec) -> Option<Dec>;

/// What `Decimal`'s `FromStr` returns on the text `s`, if it succeeds.
pub uninterp spec fn decimal_parse(s: Seq<char>) -> Option<Dec>;

/// The text that `Decimal`'s `Display` writes.
pub uninterp spec fn decimal_text(d: Dec) -> Seq<char>;

/// What `rust_decimal`'s checked operations do where the exact result fits, as the wrappers
/// [`checked_add`], [`checked_sub`], [`checked_mul`] and [`checked_div`] state for every call:
/// a sum or difference whose exact mantissa (at the larger scale) fits is computed exactly; a
/// product within scale 28 whose mantissa fits is the exact product; a nonzero integer
/// divisor always gives a quotient, exact where it divides the dividend's mantissa. Laws
/// about results computed with these operations take this as their premise.
pub open spec fn decimal_ops_exact() -> bool {
    &&& forall|a: Dec, b: Dec|
        abs_int(exact_sum(a, b)) <= MAX_MANTISSA ==> (#[trigger] decimal_sum(a, b) is Some
            && value_is(decimal_sum(a, b)->0, exact_sum(a, b), max_scale(a, b)))
    &&& forall|a: Dec, b: Dec|
        abs_int(exact_difference(a, b)) <= MAX_MANTISSA ==> (#[trigger] decimal_difference(a, b) is Some
            && value_is(decimal_difference(a, b)->0, exact_difference(a, b), max_scale(a, b)))
    &&& forall|a: Dec, b: Dec|
        a.sc() + b.sc() <= MAX_SCALE && abs_int(a.mant() * b.mant()) <= MAX_MANTISSA
            ==> #[trigger] decimal_product(a, b) == Some(exact_product(a, b))
    &&& forall|a: Dec, b: Dec|
        #![trigger decimal_quotient(a, b)]
        (b.mant() != 0 && b.sc() == 0 ==> decimal_quotient(a, b) is Some) && (decimal_quotient(
            a,
            b,
        ) is Some && b.sc() == 0 && a.mant() % b.mant() == 0 ==> value_is(
            decimal_quotient(a, b)->0,
            a.mant() / b.mant(),
            a.sc(),
        ))
}

/// Sum, through `Decimal::checked_add`: `None` when the result overflows.
/// Trusted: the result is named; where the exact sum, written at the larger scale,
/// has a mantissa within 96 bits, `rust_decimal` adds without rounding.
#[verifier::external_body]
pub(crate) fn checked_add(a: Dec, b: Dec) -> (r: Option<Dec>)
    ensures
        r == decimal_sum(a, b),
        abs_int(exact_sum(a, b)) <= MAX_MANTISSA ==> r is Some && value_is(
            r->0,
            exact_sum(a, b),
            max_scale(a, b),
        ),
{
    let x = Decimal::from_i128_with_scale(a.mantissa, a.scale);
    let y = Decimal::from_i128_with_scale(b.mantissa, b.scale);
    x.checked_add(y).map(|d| Dec { mantissa: d.mantissa(), scale: d.scale() })
}

/// Difference, through `Decimal::checked_sub`: `None` when the result overflows.
/// Trusted: the result is named; where the exact difference, written at the larger
/// scale, has a mantissa within 96 bits, `rust_decimal` subtracts without rounding.
#[verifier::external_body]
pub(crate) fn checked_sub(a: Dec, b: Dec) -> (r: Option<Dec>)
    ensures
        r == decimal_difference(a, b),
        abs_int(exact_difference(a, b)) <= MAX_MANTISSA ==> r is Some && value_is(
            r->0,
            exact_difference(a, b),
            max_scale(a, b),
        ),
{
    let x = Decimal::from_i128_with_scale(a.mantissa, a.scale);
    let y = Decimal::from_i128_with_scale(b.mantissa, b.scale);
    x.checked_sub(y).map(|d| Dec { mantissa: d.mantissa(), scale: d.scale() })
}

/// Product, through `Decimal::checked_mul`: `None` when the result overflows.
/// Trusted: the result is named; a zero factor gives the plain zero, and where the scales
/// add up to at most 28 and the product of the mantissas fits in 96 bits, the mantissas
/// are multiplied at the summed scale without rounding.
#[verifier::external_body]
pub(crate) fn checked_mul(a: Dec, b: Dec) -> (r: Option<Dec>)
    ensures
        r == decimal_product(a, b),
        a.sc() + b.sc() <= MAX_SCALE && abs_int(a.mant() * b.mant()) <= MAX_MANTISSA ==> r == Some(
            exact_product(a, b),
        ) && value_is(r->0, a.mant() * b.mant(), a.sc() + b.sc()),
{
    let x = Decimal::from_i128_with_scale(a.mantissa, a.scale);
    let y = Decimal::from_i128_with_scale(b.mantissa, b.scale);
    x.checked_mul(y).map(|d| Dec { mantissa: d.mantissa(), scale: d.scale() })
}

/// Quotient, through `Decimal::checked_div`: `None` on a zero divisor or on overflow.
/// Trusted: the result is named (it rounds to 28 digits); a zero divisor gives `None`; a
/// nonzero integer divisor cannot overflow, as the quotient is no larger than the dividend;
/// and an integer divisor that divides the dividend's mantissa gives the exact quotient at the
/// dividend's scale (the path without remainder).
#[verifier::external_body]
pub(crate) fn checked_div(a: Dec, b: Dec) -> (r: Option<Dec>)
    ensures
        r == decimal_quotient(a, b),
        b.mant() == 0 ==> r is None,
        b.mant() != 0 && b.sc() == 0 ==> r is Some,
        r is Some && b.sc() == 0 && a.mant() % b.mant() == 0 ==> value_is(r->0, a.mant() / b.mant(), a.sc()),
{
    let x = Decimal::from_i128_with_scale(a.mantissa, a.scale);
    let y = Decimal::from_i128_with_scale(b.mantissa, b.scale);
    x.checked_div(y).map(|d| Dec { mantissa: d.mantissa(), scale: d.scale() })
}

/// Comparison by value, through `Decimal`'s `Ord`.
/// Trusted: `rust_decimal` orders decimals by the numbers they denote.
#[verifier::external_body]
pub(crate) fn compare_values(a: Dec, b: Dec) -> (r: ValueOrder)
    ensures
        r == value_order(a, b),
{
    let x = Decimal::from_i128_with_scale(a.mantissa, a.scale);
    let y = Decimal::from_i128_with_scale(b.mantissa, b.scale);
    match x.cmp(&y) {
        Ordering::Less => ValueOrder::Less,
        Ordering::Equal => ValueOrder::Equal,
        Ordering::Greater => ValueOrder::Greater,
    }
}

/// Parse decimal text through `Decimal`'s `FromStr`; the error is its message.
/// Trusted: success and the value are named by `decimal_parse`.
#[verifier::external_body]
pub(crate) fn parse_decimal(s: &str) -> (r: Result<Dec, String>)
    ensures
        r is Ok <==> decimal_parse(s@) is Some,
        r matches Ok(d) ==> decimal_parse(s@) == Some(d),
{
    match s.parse::<Decimal>() {
        Ok(d) => Ok(Dec { mantissa: d.mantissa(), scale: d.scale() }),
        Err(e) => Err(e.to_string()),
    }
}

/// Decimal text through `Decimal`'s `Display`.
/// Trusted: the text is named by `decimal_text`.
#[verifier::external_body]
pub(crate) fn decimal_to_string(d: Dec) -> (r: String)
    ensures
        r@ == decimal_text(d),
{
    Decimal::from_i128_with_scale(d.mantissa, d.scale).to_string()
}

/// `a < b` by value.
pub fn lt(a: Dec, b: Dec) -> (r: bool)
    ensures
        r == value_lt(a, b),
{
    match compare_values(a, b) {
        ValueOrder::Less => true,
        _ => false,
    }
}

/// `a <= b` by value.
pub fn le(a: Dec, b: Dec) -> (r: bool)
    ensures
        r == value_le(a, b),
{
    match compare_values(a, b) {
        ValueOrder::Greater => false,
        _ => true,
    }
}

/// `a == b` by value.
pub fn eq_value(a: Dec, b: Dec) -> (r: bool)
    ensures
        r == same_value(a, b),
{
    match compare_values(a, b) {
        ValueOrder::Equal => true,
        _ => false,
    }
}

/// The larger of `a` and `b` by value (`a` when equal, as `Decimal::max` does).
pub fn max_value(a: Dec, b: Dec) -> (r: Dec)
    ensures
        r == (if value_lt(a, b) {
            b
        } else {
            a
        }),
{
    if lt(a, b) {
        b
    } else {
        a
    }
}

} // verus!
