//! The decimal number type used for every monetary amount and rate.
//!
//! A `Decimal` is a signed 96-bit mantissa with a decimal scale between
//! 0 and 28: its value is `mantissa / 10^scale`.  Every value is also an
//! exact whole number of `10^-28` units, which is how contracts compare
//! and add decimals (see [`DecimalModel::units`]).

use rust_decimal::Decimal as RustDecimal;
use rust_decimal::MathematicalOps;
use vstd::prelude::*;

verus! {

/// `10^n`.
pub open spec fn pow10(n: nat) -> int
    decreases n,
{
    if n == 0 {
        1
    } else {
        10 * pow10((n - 1) as nat)
    }
}

/// `10^n` is positive.
pub proof fn lemma_pow10_pos(n: nat)
    ensures
        pow10(n) > 0,
    decreases n,
{
    if n > 0 {
        lemma_pow10_pos((n - 1) as nat);
    }
}

/// `10^(a+b) == 10^a * 10^b`.
pub proof fn lemma_pow10_add(a: nat, b: nat)
    ensures
        pow10(a + b) == pow10(a) * pow10(b),
    decreases a,
{
    if a > 0 {
        lemma_pow10_add((a - 1) as nat, b);
        assert(pow10(a + b) == 10 * pow10((a - 1 + b) as nat));
        assert(10 * (pow10((a - 1) as nat) * pow10(b)) == (10 * pow10((a - 1) as nat)) * pow10(b))
            by (nonlinear_arith);
    }
}

/// Largest magnitude a mantissa may have: `2^96 - 1`.
pub open spec fn max_mantissa() -> int {
    79228162514264337593543950335
}

/// Largest scale a decimal may have.
pub open spec fn max_scale() -> nat {
    28
}

/// The mathematical content of a decimal: its mantissa and its scale.
pub struct DecimalModel {
    pub mantissa: int,
    pub scale: nat,
}

impl DecimalModel {
    /// The value expressed in units of `10^-28`; exact for every valid decimal.
    pub open spec fn units(self) -> int {
        self.mantissa * pow10((max_scale() - self.scale) as nat)
    }

    /// A mantissa of at most 96 bits and a scale of at most 28.
    pub open spec fn wf(self) -> bool {
        &&& -max_mantissa() <= self.mantissa <= max_mantissa()
        &&& self.scale <= max_scale()
    }

    pub open spec fn is_zero(self) -> bool {
        self.mantissa == 0
    }
}

/// The units of a decimal have the sign of its mantissa.
pub proof fn lemma_units_sign(d: DecimalModel)
    ensures
        d.mantissa == 0 <==> d.units() == 0,
        d.mantissa < 0 <==> d.units() < 0,
        d.mantissa > 0 <==> d.units() > 0,
{
    let p = pow10((max_scale() - d.scale) as nat);
    lemma_pow10_pos((max_scale() - d.scale) as nat);
    assert(d.mantissa < 0 ==> d.mantissa * p < 0) by (nonlinear_arith)
        requires
            p > 0,
    ;
    assert(d.mantissa > 0 ==> d.mantissa * p > 0) by (nonlinear_arith)
        requires
            p > 0,
    ;
    assert(d.mantissa == 0 ==> d.mantissa * p == 0) by (nonlinear_arith);
    assert(d.units() == d.mantissa * p);
}

/// Negating the mantissa negates the units.
pub proof fn lemma_units_neg(d: DecimalModel)
    ensures
        (DecimalModel { mantissa: -d.mantissa, scale: d.scale }).units() == -d.units(),
{
    let p = pow10((max_scale() - d.scale) as nat);
    assert((-d.mantissa) * p == -(d.mantissa * p)) by (nonlinear_arith);
}

/// The absolute value: the mantissa without its sign, the same scale.
pub open spec fn abs_model(d: DecimalModel) -> DecimalModel {
    DecimalModel { mantissa: if d.mantissa < 0 { -d.mantissa } else { d.mantissa }, scale: d.scale }
}

/// `x` as a decimal with scale 0.
pub open spec fn int_model(x: int) -> DecimalModel {
    DecimalModel { mantissa: x, scale: 0 }
}

/// A signed decimal number.
#[derive(Clone, Copy, Debug)]
pub struct Decimal {
    pub(crate) mantissa: i128,
    pub(crate) scale: u32,
}

impl View for Decimal {
    type V = DecimalModel;

    closed spec fn view(&self) -> DecimalModel {
        DecimalModel { mantissa: self.mantissa as int, scale: self.scale as nat }
    }
}

/// `Some(d@)` for `Some(d)`.
pub open spec fn opt_view(o: Option<Decimal>) -> Option<DecimalModel> {
    match o {
        Some(d) => Some(d@),
        None => None,
    }
}

/// The model of the value 1.
pub open spec fn one_model() -> DecimalModel {
    int_model(1)
}

/// The model of Euler's number as the library holds it.
pub open spec fn e_model() -> DecimalModel {
    DecimalModel { mantissa: 27182818284590452353602874714, scale: 28 }
}

/// The model of the value 0 with scale 0.
pub open spec fn zero_model() -> DecimalModel {
    int_model(0)
}

/// `x` with its sign turned, for `Some(x)`.
pub open spec fn opt_negated(o: Option<DecimalModel>) -> Option<DecimalModel> {
    match o {
        Some(x) => Some(DecimalModel { mantissa: -x.mantissa, scale: x.scale }),
        None => None,
    }
}

/// The larger of the two scales.
pub open spec fn max_scale_of(a: DecimalModel, b: DecimalModel) -> nat {
    if a.scale >= b.scale {
        a.scale
    } else {
        b.scale
    }
}

/// `10^a <= 10^b` for `a <= b`.
pub proof fn lemma_pow10_mono(a: nat, b: nat)
    requires
        a <= b,
    ensures
        pow10(a) <= pow10(b),
{
    lemma_pow10_add(a, (b - a) as nat);
    lemma_pow10_pos(a);
    lemma_pow10_pos((b - a) as nat);
    assert(pow10(a) * pow10((b - a) as nat) >= pow10(a)) by (nonlinear_arith)
        requires
            pow10(a) > 0,
            pow10((b - a) as nat) >= 1,
    ;
}

/// A sum that fits at scale `s` fits at any larger scale of its operands
/// up to `s`.
pub proof fn lemma_sum_fits_at_scale(a: DecimalModel, b: DecimalModel, u: int, s: nat)
    requires
        max_scale_of(a, b) <= s <= max_scale(),
        -max_mantissa() * pow10((max_scale() - s) as nat) <= u <= max_mantissa() * pow10((max_scale() - s) as nat),
    ensures
        sum_fits(a, b, u),
{
    let m = max_scale_of(a, b);
    let p = pow10((max_scale() - s) as nat);
    let q = pow10((max_scale() - m) as nat);
    lemma_pow10_mono((max_scale() - s) as nat, (max_scale() - m) as nat);
    assert(max_mantissa() * p <= max_mantissa() * q && -max_mantissa() * q <= -max_mantissa() * p)
        by (nonlinear_arith)
        requires
            p <= q,
            max_mantissa() > 0,
    ;
}

/// The exact sum of `a` and `b`, written at the larger of the two scales,
/// fits in a 96-bit mantissa.
pub open spec fn sum_fits(a: DecimalModel, b: DecimalModel, sum_units: int) -> bool {
    let s = if a.scale >= b.scale { a.scale } else { b.scale };
    -max_mantissa() * pow10((max_scale() - s) as nat) <= sum_units <= max_mantissa() * pow10(
        (max_scale() - s) as nat,
    )
}

/// `u` units of `10^-28` can be written as a decimal: for some scale `s <= 28`
/// it is a whole number of `10^-s` and that number fits in 96 bits.
pub open spec fn representable(u: int) -> bool {
    exists|s: nat|
        s <= max_scale() && #[trigger] (u % pow10((max_scale() - s) as nat)) == 0 && -max_mantissa()
            <= u / pow10((max_scale() - s) as nat) <= max_mantissa()
}

/// The exact quotient of `a` by `b` in units, when `b` divides exactly.
pub open spec fn exact_quotient(a: DecimalModel, b: DecimalModel) -> int {
    (a.units() * pow10(max_scale())) / b.units()
}

/// `a / b` has an exact decimal value that a decimal can hold.
pub open spec fn quotient_is_exact(a: DecimalModel, b: DecimalModel) -> bool {
    &&& b.units() != 0
    &&& (a.units() * pow10(max_scale())) % b.units() == 0
    &&& representable(exact_quotient(a, b))
}

/// Result of `rust_decimal::Decimal::checked_add` on the two values.
pub uninterp spec fn decimal_add(a: DecimalModel, b: DecimalModel) -> Option<DecimalModel>;

/// Result of `rust_decimal::Decimal::checked_sub` on the two values.
pub uninterp spec fn decimal_sub(a: DecimalModel, b: DecimalModel) -> Option<DecimalModel>;

/// Result of `rust_decimal::Decimal::checked_mul` on the two values.
pub uninterp spec fn decimal_mul(a: DecimalModel, b: DecimalModel) -> Option<DecimalModel>;

/// Result of `rust_decimal::Decimal::checked_div` on the two values.
pub uninterp spec fn decimal_div(a: DecimalModel, b: DecimalModel) -> Option<DecimalModel>;

/// Result of `rust_decimal::MathematicalOps::checked_powi`.
pub uninterp spec fn decimal_powi(a: DecimalModel, exp: int) -> Option<DecimalModel>;

/// Result of `rust_decimal::MathematicalOps::checked_powd`.
pub uninterp spec fn decimal_powd(a: DecimalModel, exp: DecimalModel) -> Option<DecimalModel>;

/// Result of `rust_decimal::MathematicalOps::checked_ln`.
pub uninterp spec fn decimal_ln(a: DecimalModel) -> Option<DecimalModel>;

/// Result of `rust_decimal::MathematicalOps::sqrt`.
pub uninterp spec fn decimal_sqrt(a: DecimalModel) -> Option<DecimalModel>;

/// `a` rounded to `dp` decimal places, halves to even: unchanged when it
/// has no more places; otherwise its magnitude is divided by `10^(scale -
/// dp)`, the quotient goes up by one when the remainder is above half the
/// divisor, or exactly half with an odd quotient, and the sign is kept.
pub open spec fn decimal_round_dp(a: DecimalModel, dp: nat) -> DecimalModel {
    if a.scale <= dp {
        a
    } else {
        let p = pow10((a.scale - dp) as nat);
        let m = if a.mantissa < 0 {
            -a.mantissa
        } else {
            a.mantissa
        };
        let q = m / p;
        let rem = m % p;
        let rounded = if rem * 2 > p || (rem * 2 == p && q % 2 == 1) {
            q + 1
        } else {
            q
        };
        DecimalModel {
            mantissa: if a.mantissa < 0 {
                -rounded
            } else {
                rounded
            },
            scale: dp,
        }
    }
}

/// Text that `format!("{:.2}", d)` writes for a `rust_decimal::Decimal`: a
/// minus sign for a negative value, the whole part in decimal digits (`0`
/// when there is none), a point, and the first two decimal places, cut off
/// rather than rounded and padded with zeros.
pub open spec fn decimal_text_2dp(a: DecimalModel) -> Seq<char> {
    let m: nat = (if a.mantissa < 0 {
        -a.mantissa
    } else {
        a.mantissa
    }) as nat;
    let p: nat = pow10(a.scale) as nat;
    let cents: nat = ((m * 100 / p) % 100) as nat;
    (if a.mantissa < 0 {
        seq!['-']
    } else {
        Seq::<char>::empty()
    }) + crate::text::nat_text((m / p) as nat) + seq![
        '.',
        crate::text::digit_char(cents / 10),
        crate::text::digit_char(cents % 10),
    ]
}

impl Decimal {
    #[verifier::type_invariant]
    pub open spec fn inv(self) -> bool {
        self@.wf()
    }

    /// Creates `num / 10^scale`.
    pub fn new(num: i64, scale: u32) -> (d: Decimal)
        requires
            scale <= 28,
        ensures
            d@ == (DecimalModel { mantissa: num as int, scale: scale as nat }),
    {
        Decimal { mantissa: num as i128, scale }
    }

    /// `mantissa / 10^scale`, or `None` when the mantissa needs more than
    /// 96 bits or the scale is above 28.
    pub fn from_i128_with_scale(mantissa: i128, scale: u32) -> (d: Option<Decimal>)
        ensures
            (-max_mantissa() <= mantissa <= max_mantissa() && scale <= 28) <==> d is Some,
            d matches Some(x) ==> x@ == (DecimalModel { mantissa: mantissa as int, scale: scale as nat }),
    {
        if -79228162514264337593543950335 <= mantissa && mantissa <= 79228162514264337593543950335 && scale <= 28 {
            Some(Decimal { mantissa, scale })
        } else {
            None
        }
    }

    /// The whole number `n`.
    pub fn from_i64(n: i64) -> (d: Decimal)
        ensures
            d@ == int_model(n as int),
    {
        Decimal { mantissa: n as i128, scale: 0 }
    }

    /// The whole number `n`.
    pub fn from_u32(n: u32) -> (d: Decimal)
        ensures
            d@ == int_model(n as int),
    {
        Decimal { mantissa: n as i128, scale: 0 }
    }

    /// The whole number `n`.
    pub fn from_usize(n: usize) -> (d: Decimal)
        ensures
            d@ == int_model(n as int),
    {
        Decimal { mantissa: n as i128, scale: 0 }
    }

    /// Zero.
    pub fn zero() -> (d: Decimal)
        ensures
            d@ == zero_model(),
    {
        Decimal { mantissa: 0, scale: 0 }
    }

    /// One.
    pub fn one() -> (d: Decimal)
        ensures
            d@ == one_model(),
    {
        Decimal { mantissa: 1, scale: 0 }
    }

    /// Minus one.
    pub fn negative_one() -> (d: Decimal)
        ensures
            d@ == int_model(-1),
    {
        Decimal { mantissa: -1, scale: 0 }
    }

    /// Euler's number to 28 decimal places: `2.7182818284590452353602874714`.
    pub fn e() -> (d: Decimal)
        ensures
            d@ == e_model(),
    {
        Decimal { mantissa: 27182818284590452353602874714, scale: 28 }
    }

    /// The signed mantissa.
    pub fn mantissa(&self) -> (m: i128)
        ensures
            m == self@.mantissa,
    {
        self.mantissa
    }

    /// The number of decimal places.
    pub fn scale(&self) -> (s: u32)
        ensures
            s == self@.scale,
    {
        self.scale
    }

    /// Whether the value is zero.
    pub fn is_zero(&self) -> (b: bool)
        ensures
            b == (self@.units() == 0),
    {
        proof {
            use_type_invariant(self);
            lemma_units_sign(self@);
        }
        self.mantissa == 0
    }

    /// Whether the value is below zero.
    pub fn is_sign_negative(&self) -> (b: bool)
        ensures
            b == (self@.units() < 0),
    {
        proof {
            use_type_invariant(self);
            lemma_units_sign(self@);
        }
        self.mantissa < 0
    }

    /// Whether the value is zero or above.
    pub fn is_sign_positive(&self) -> (b: bool)
        ensures
            b == (self@.units() >= 0),
    {
        proof {
            use_type_invariant(self);
            lemma_units_sign(self@);
        }
        self.mantissa >= 0
    }

    /// The absolute value.
    pub fn abs(&self) -> (d: Decimal)
        ensures
            d@ == (DecimalModel {
                mantissa: if self@.mantissa < 0 { -self@.mantissa } else { self@.mantissa },
                scale: self@.scale,
            }),
            d@.units() == if self@.units() < 0 { -self@.units() } else { self@.units() },
    {
        proof {
            use_type_invariant(self);
            lemma_units_sign(self@);
            lemma_units_neg(self@);
        }
        if self.mantissa < 0 {
            Decimal { mantissa: -self.mantissa, scale: self.scale }
        } else {
            *self
        }
    }

    /// The value with its sign flipped.
    pub fn neg(&self) -> (d: Decimal)
        ensures
            d@ == (DecimalModel { mantissa: -self@.mantissa, scale: self@.scale }),
            d@.units() == -self@.units(),
    {
        proof {
            use_type_invariant(self);
            lemma_units_neg(self@);
        }
        Decimal { mantissa: -self.mantissa, scale: self.scale }
    }

    /// Checked addition: `None` when the sum cannot be held.
    pub fn checked_add(&self, other: Decimal) -> (r: Option<Decimal>)
        ensures
            opt_view(r) == decimal_add(self@, other@),
            sum_fits(self@, other@, self@.units() + other@.units()) ==> r is Some && r->0@.units()
                == self@.units() + other@.units(),
            r matches Some(x) ==> x@.scale <= max_scale_of(self@, other@),
    {
        self.rd_checked_add(other)
    }

    /// Checked subtraction: `None` when the difference cannot be held.
    pub fn checked_sub(&self, other: Decimal) -> (r: Option<Decimal>)
        ensures
            opt_view(r) == decimal_sub(self@, other@),
            sum_fits(self@, other@, self@.units() - other@.units()) ==> r is Some && r->0@.units()
                == self@.units() - other@.units(),
            r matches Some(x) ==> x@.scale <= max_scale_of(self@, other@),
    {
        self.rd_checked_sub(other)
    }

    /// Checked multiplication: `None` when the product cannot be held.
    pub fn checked_mul(&self, other: Decimal) -> (r: Option<Decimal>)
        ensures
            opt_view(r) == decimal_mul(self@, other@),
            self@.mantissa == 0 || other@.mantissa == 0 ==> r is Some && r->0@ == zero_model(),
            self@.mantissa != 0 && other@.mantissa != 0 && self@.scale + other@.scale <= max_scale()
                && -max_mantissa() <= self@.mantissa * other@.mantissa <= max_mantissa() ==> r is Some
                && r->0@ == (DecimalModel {
                mantissa: self@.mantissa * other@.mantissa,
                scale: self@.scale + other@.scale,
            }),
    {
        self.rd_checked_mul(other)
    }

    /// Checked division: `None` for a zero divisor or a quotient that cannot be held.
    pub fn checked_div(&self, other: Decimal) -> (r: Option<Decimal>)
        ensures
            opt_view(r) == decimal_div(self@, other@),
            self@.units() >= 0 && other@.scale == 0 && other@.mantissa >= 1 ==> (r is Some && r->0@.units()
                <= self@.units()),
            decimal_div(DecimalModel { mantissa: -self@.mantissa, scale: self@.scale }, other@) == opt_negated(
                opt_view(r),
            ),
            other@.mantissa == 0 ==> r is None,
            other@.mantissa != 0 && self@.mantissa == 0 ==> r is Some && r->0@ == zero_model(),
            other@ == one_model() && self@.mantissa != 0 ==> r is Some && r->0@ == self@,
            r matches Some(x) ==> (self@.units() >= 0 && other@.units() > 0 ==> x@.units() >= 0),
            other@.units() >= pow10(max_scale()) || other@.units() <= -pow10(max_scale()) ==> r is Some,
            quotient_is_exact(self@, other@) ==> r is Some && r->0@.units() == exact_quotient(
                self@,
                other@,
            ),
    {
        self.rd_checked_div(other)
    }

    /// Integer power; a negative exponent takes the reciprocal.
    pub fn checked_powi(&self, exp: i64) -> (r: Option<Decimal>)
        ensures
            opt_view(r) == decimal_powi(self@, exp as int),
            exp == 0 ==> r is Some && r->0@ == one_model(),
            exp > 0 && self@.mantissa == 0 ==> r is Some && r->0@ == zero_model(),
            exp > 0 && self@.units() == pow10(max_scale()) ==> r is Some && r->0@ == one_model(),
            exp == 1 ==> r is Some && r->0@.units() == self@.units(),
            exp < 0 && self@.units() == pow10(max_scale()) ==> r is Some && r->0@.units() == pow10(
                max_scale(),
            ),
    {
        self.rd_checked_powi(exp)
    }

    /// Decimal power.
    pub fn checked_powd(&self, exp: Decimal) -> (r: Option<Decimal>)
        ensures
            opt_view(r) == decimal_powd(self@, exp@),
            exp@.mantissa == 0 ==> r is Some && r->0@ == one_model(),
            exp@.mantissa != 0 && self@.mantissa == 0 ==> r is Some && r->0@ == zero_model(),
    {
        self.rd_checked_powd(exp)
    }

    /// Natural logarithm: `None` for values that are not positive.
    pub fn checked_ln(&self) -> (r: Option<Decimal>)
        ensures
            opt_view(r) == decimal_ln(self@),
            self@.units() <= 0 ==> r is None,
            self@.units() == pow10(max_scale()) ==> r is Some && r->0@ == zero_model(),
    {
        self.rd_checked_ln()
    }

    /// The square root of the whole number `n`.
    pub fn sqrt_of_count(n: u32) -> (r: Option<Decimal>)
        ensures
            opt_view(r) == decimal_sqrt(int_model(n as int)),
            n == 0 ==> r is Some && r->0@ == zero_model(),
    {
        Decimal::rd_sqrt_count(n)
    }

    /// Rounds to `dp` decimal places, halves to even.
    pub fn round_dp(&self, dp: u32) -> (r: Decimal)
        ensures
            r@ == decimal_round_dp(self@, dp as nat),
            self@.scale <= dp ==> r@ == self@,
    {
        self.rd_round_dp(dp)
    }

    /// The value written with two decimal places.
    pub fn to_text_2dp(&self) -> (t: String)
        ensures
            t@ == decimal_text_2dp(self@),
    {
        self.rd_text_2dp()
    }

    /// `self < other` by value.
    pub fn lt(&self, other: &Decimal) -> (b: bool)
        ensures
            b == (self@.units() < other@.units()),
    {
        self.rd_lt(*other)
    }

    /// `self <= other` by value.
    pub fn le(&self, other: &Decimal) -> (b: bool)
        ensures
            b == (self@.units() <= other@.units()),
    {
        !other.rd_lt(*self)
    }

    /// `self > other` by value.
    pub fn gt(&self, other: &Decimal) -> (b: bool)
        ensures
            b == (self@.units() > other@.units()),
    {
        other.rd_lt(*self)
    }

    /// `self >= other` by value.
    pub fn ge(&self, other: &Decimal) -> (b: bool)
        ensures
            b == (self@.units() >= other@.units()),
    {
        !self.rd_lt(*other)
    }

    /// Equality by value: `1.0` equals `1.00`.
    pub fn eq_value(&self, other: &Decimal) -> (b: bool)
        ensures
            b == (self@.units() == other@.units()),
    {
        self.rd_eq(*other)
    }

    /// Compares with `<` on `rust_decimal::Decimal` (its `PartialOrd`).
    /// Trusted: the comparison is by value, that is by units of `10^-28`.
    #[verifier::external_body]
    fn rd_lt(self, other: Decimal) -> (b: bool)
        ensures
            b == (self@.units() < other@.units()),
    {
        RustDecimal::from_i128_with_scale(self.mantissa, self.scale)
            < RustDecimal::from_i128_with_scale(other.mantissa, other.scale)
    }

    /// Compares with `==` on `rust_decimal::Decimal` (its `PartialEq`).
    /// Trusted: equality is by value, so `1.0` equals `1.00`.
    #[verifier::external_body]
    fn rd_eq(self, other: Decimal) -> (b: bool)
        ensures
            b == (self@.units() == other@.units()),
    {
        RustDecimal::from_i128_with_scale(self.mantissa, self.scale)
            == RustDecimal::from_i128_with_scale(other.mantissa, other.scale)
    }

    /// Calls `rust_decimal::MathematicalOps::checked_powi`.  Trusted: the
    /// result is what [`decimal_powi`] names; a zero exponent gives one, a
    /// positive exponent of zero gives zero and of one gives one, the first
    /// power keeps the value, and a negative power of one is one.
    #[verifier::external_body]
    fn rd_checked_powi(self, exp: i64) -> (r: Option<Decimal>)
        ensures
            opt_view(r) == decimal_powi(self@, exp as int),
            exp == 0 ==> r is Some && r->0@ == one_model(),
            exp > 0 && self@.mantissa == 0 ==> r is Some && r->0@ == zero_model(),
            exp > 0 && self@.units() == pow10(max_scale()) ==> r is Some && r->0@ == one_model(),
            exp == 1 ==> r is Some && r->0@.units() == self@.units(),
            exp < 0 && self@.units() == pow10(max_scale()) ==> r is Some && r->0@.units() == pow10(
                max_scale(),
            ),
    {
        let a = RustDecimal::from_i128_with_scale(self.mantissa, self.scale);
        match a.checked_powi(exp) {
            Some(v) => Some(Decimal { mantissa: v.mantissa(), scale: v.scale() }),
            None => None,
        }
    }

    /// Calls `rust_decimal::MathematicalOps::checked_powd`.  Trusted: the
    /// result is what [`decimal_powd`] names; a zero exponent gives one and a
    /// non-zero exponent of zero gives zero.
    #[verifier::external_body]
    fn rd_checked_powd(self, exp: Decimal) -> (r: Option<Decimal>)
        ensures
            opt_view(r) == decimal_powd(self@, exp@),
            exp@.mantissa == 0 ==> r is Some && r->0@ == one_model(),
            exp@.mantissa != 0 && self@.mantissa == 0 ==> r is Some && r->0@ == zero_model(),
    {
        let a = RustDecimal::from_i128_with_scale(self.mantissa, self.scale);
        let b = RustDecimal::from_i128_with_scale(exp.mantissa, exp.scale);
        match a.checked_powd(b) {
            Some(v) => Some(Decimal { mantissa: v.mantissa(), scale: v.scale() }),
            None => None,
        }
    }

    /// Calls `rust_decimal::MathematicalOps::checked_ln`.  Trusted: the
    /// result is what [`decimal_ln`] names; values that are not positive give
    /// `None` and the logarithm of one is zero.
    #[verifier::external_body]
    fn rd_checked_ln(self) -> (r: Option<Decimal>)
        ensures
            opt_view(r) == decimal_ln(self@),
            self@.units() <= 0 ==> r is None,
            self@.units() == pow10(max_scale()) ==> r is Some && r->0@ == zero_model(),
    {
        let a = RustDecimal::from_i128_with_scale(self.mantissa, self.scale);
        match a.checked_ln() {
            Some(v) => Some(Decimal { mantissa: v.mantissa(), scale: v.scale() }),
            None => None,
        }
    }

    /// The square root of a whole count, as `rust_decimal` computes it.
    /// `MathematicalOps::sqrt` starts from `n / 2` and repeats
    /// `x = (x + n / x) / 2` until `x` no longer changes, asserting that this
    /// takes fewer than 1000 rounds.  From above the root each round at least
    /// halves the distance to it until that distance is within about one unit
    /// of the last place, so the count of rounds stays far below the guard;
    /// what the source does not exclude is that the rounded iteration then
    /// alternates between the two neighbours of the root.  This item is
    /// trusted not to do so for whole numbers below `2^32`; the test suite
    /// runs it on every count up to 300000 and on `u32::MAX`.
    #[verifier::external_body]
    fn rd_sqrt_count(n: u32) -> (r: Option<Decimal>)
        ensures
            opt_view(r) == decimal_sqrt(int_model(n as int)),
            n == 0 ==> r is Some && r->0@ == zero_model(),
    {
        match RustDecimal::from(n).sqrt() {
            Some(v) => Some(Decimal { mantissa: v.mantissa(), scale: v.scale() }),
            None => None,
        }
    }

    /// Calls `rust_decimal::Decimal::round_dp`, which rounds halves to even.
    /// Trusted: the result is [`decimal_round_dp`], whose body states that
    /// rounding as the crate's source performs it.
    #[verifier::external_body]
    fn rd_round_dp(self, dp: u32) -> (r: Decimal)
        ensures
            r@ == decimal_round_dp(self@, dp as nat),
    {
        let v = RustDecimal::from_i128_with_scale(self.mantissa, self.scale).round_dp(dp);
        Decimal { mantissa: v.mantissa(), scale: v.scale() }
    }

    /// Formats a `rust_decimal::Decimal` with `{:.2}`.  Trusted: the text is
    /// [`decimal_text_2dp`], as the crate's `Display` builds it.
    #[verifier::external_body]
    fn rd_text_2dp(self) -> (t: String)
        ensures
            t@ == decimal_text_2dp(self@),
    {
        format!("{:.2}", RustDecimal::from_i128_with_scale(self.mantissa, self.scale))
    }

    /// Calls `rust_decimal::Decimal::checked_add`.  Trusted: the result is
    /// what [`decimal_add`] names; a sum that fits at the larger scale is
    /// exact, and no result has a scale above the larger scale.
    #[verifier::external_body]
    fn rd_checked_add(self, other: Decimal) -> (r: Option<Decimal>)
        ensures
            opt_view(r) == decimal_add(self@, other@),
            sum_fits(self@, other@, self@.units() + other@.units()) ==> r is Some && r->0@.units()
                == self@.units() + other@.units(),
            r matches Some(x) ==> x@.scale <= max_scale_of(self@, other@),
    {
        let a = RustDecimal::from_i128_with_scale(self.mantissa, self.scale);
        let b = RustDecimal::from_i128_with_scale(other.mantissa, other.scale);
        match a.checked_add(b) {
            Some(v) => Some(Decimal { mantissa: v.mantissa(), scale: v.scale() }),
            None => None,
        }
    }

    /// Calls `rust_decimal::Decimal::checked_sub`.  Trusted: the result is
    /// what [`decimal_sub`] names; a difference that fits at the larger scale
    /// is exact, and no result has a scale above the larger scale.
    #[verifier::external_body]
    fn rd_checked_sub(self, other: Decimal) -> (r: Option<Decimal>)
        ensures
            opt_view(r) == decimal_sub(self@, other@),
            sum_fits(self@, other@, self@.units() - other@.units()) ==> r is Some && r->0@.units()
                == self@.units() - other@.units(),
            r matches Some(x) ==> x@.scale <= max_scale_of(self@, other@),
    {
        let a = RustDecimal::from_i128_with_scale(self.mantissa, self.scale);
        let b = RustDecimal::from_i128_with_scale(other.mantissa, other.scale);
        match a.checked_sub(b) {
            Some(v) => Some(Decimal { mantissa: v.mantissa(), scale: v.scale() }),
            None => None,
        }
    }

    /// Calls `rust_decimal::Decimal::checked_mul`.  Trusted: the result is
    /// what [`decimal_mul`] names; a zero factor gives zero, and a product
    /// whose mantissa fits in 96 bits at the summed scale is that exact product.
    #[verifier::external_body]
    fn rd_checked_mul(self, other: Decimal) -> (r: Option<Decimal>)
        ensures
            opt_view(r) == decimal_mul(self@, other@),
            self@.mantissa == 0 || other@.mantissa == 0 ==> r is Some && r->0@ == zero_model(),
            self@.mantissa != 0 && other@.mantissa != 0 && self@.scale + other@.scale <= max_scale()
                && -max_mantissa() <= self@.mantissa * other@.mantissa <= max_mantissa() ==> r is Some
                && r->0@ == (DecimalModel {
                mantissa: self@.mantissa * other@.mantissa,
                scale: self@.scale + other@.scale,
            }),
    {
        let a = RustDecimal::from_i128_with_scale(self.mantissa, self.scale);
        let b = RustDecimal::from_i128_with_scale(other.mantissa, other.scale);
        match a.checked_mul(b) {
            Some(v) => Some(Decimal { mantissa: v.mantissa(), scale: v.scale() }),
            None => None,
        }
    }

    /// Calls `rust_decimal::Decimal::checked_div`.  Trusted: the result is
    /// what [`decimal_div`] names; a zero divisor gives `None`, a zero
    /// dividend gives zero, division by one keeps the value, division by a
    /// value of magnitude at least one succeeds, a quotient that a decimal
    /// can hold exactly is exact, a non-negative value divided by a
    /// positive one is not negative, a non-negative value divided by a whole
    /// number of at least one is at most that value (the quotient is rounded
    /// to nearest at a scale no coarser than the dividend's), and turning the
    /// dividend's sign turns the quotient's (the crate divides magnitudes and
    /// sets the sign apart).
    #[verifier::external_body]
    fn rd_checked_div(self, other: Decimal) -> (r: Option<Decimal>)
        ensures
            opt_view(r) == decimal_div(self@, other@),
            self@.units() >= 0 && other@.scale == 0 && other@.mantissa >= 1 ==> (r is Some && r->0@.units()
                <= self@.units()),
            decimal_div(DecimalModel { mantissa: -self@.mantissa, scale: self@.scale }, other@) == opt_negated(
                opt_view(r),
            ),
            other@.mantissa == 0 ==> r is None,
            other@.mantissa != 0 && self@.mantissa == 0 ==> r is Some && r->0@ == zero_model(),
            other@ == one_model() && self@.mantissa != 0 ==> r is Some && r->0@ == self@,
            r matches Some(x) ==> (self@.units() >= 0 && other@.units() > 0 ==> x@.units() >= 0),
            other@.units() >= pow10(max_scale()) || other@.units() <= -pow10(max_scale()) ==> r is Some,
            quotient_is_exact(self@, other@) ==> r is Some && r->0@.units() == exact_quotient(
                self@,
                other@,
            ),
    {
        let a = RustDecimal::from_i128_with_scale(self.mantissa, self.scale);
        let b = RustDecimal::from_i128_with_scale(other.mantissa, other.scale);
        match a.checked_div(b) {
            Some(v) => Some(Decimal { mantissa: v.mantissa(), scale: v.scale() }),
            None => None,
        }
    }
}

} // verus!

verus! {

impl From<i64> for Decimal {
    fn from(n: i64) -> (d: Decimal)
        ensures
            d@ == int_model(n as int),
    {
        Decimal::from_i64(n)
    }
}

impl vstd::std_specs::convert::FromSpecImpl<i64> for Decimal {
    open spec fn obeys_from_spec() -> bool {
        true
    }

    closed spec fn from_spec(v: i64) -> Decimal {
        Decimal { mantissa: v as i128, scale: 0 }
    }
}

} // verus!
