//! Fixed-point decimal amounts.
//!
//! `Dec` holds the two plain parts of a `rust_decimal::Decimal`: the signed
//! 96-bit mantissa and the scale (number of fractional digits).  All arithmetic
//! is delegated to `rust_decimal`; comparisons are stated exactly over the
//! rational value `mantissa / 10^scale`.
use rust_decimal::Decimal;
use rust_decimal::prelude::ToPrimitive;
use rust_decimal::MathematicalOps;
use vstd::prelude::*;

verus! {

/// Largest magnitude of a decimal mantissa: 2^96 - 1.
pub const MAX_MANTISSA: i128 = 79228162514264337593543950335i128;

/// Largest number of fractional digits.
pub const MAX_SCALE: u32 = 28u32;

/// A decimal number `mantissa / 10^scale`.
#[derive(Clone, Copy, Debug, PartialEq, Eq, Structural)]
pub struct Dec {
    pub mantissa: i128,
    pub scale: u32,
}

/// `10^n`.
pub open spec fn pow10(n: nat) -> int
    decreases n,
{
    if n == 0 {
        1
    } else {
        10 * pow10((n - 1) as nat)
    }
}

pub proof fn lemma_pow10_positive(n: nat)
    ensures
        pow10(n) >= 1,
    decreases n,
{
    if n > 0 {
        lemma_pow10_positive((n - 1) as nat);
    }
}

/// Integer division rounding to nearest, ties to even (banker's rounding).
pub open spec fn round_half_even(m: int, p: int) -> int
    recommends
        p > 0,
{
    let q = if m >= 0 { m / p } else { -((-m) / p) };
    let r = m - q * p;
    let ar = if r >= 0 { r } else { -r };
    let step = if m >= 0 { 1int } else { -1int };
    if 2 * ar > p {
        q + step
    } else if 2 * ar == p && q % 2 != 0 {
        q + step
    } else {
        q
    }
}

impl Dec {
    /// The parts can be held by a `rust_decimal::Decimal`.
    pub open spec fn wf(self) -> bool {
        &&& self.scale <= MAX_SCALE
        &&& -MAX_MANTISSA <= self.mantissa <= MAX_MANTISSA
    }

    /// `self < other` as rational numbers.
    pub open spec fn spec_lt(self, other: Dec) -> bool {
        self.mantissa * pow10(other.scale as nat) < other.mantissa * pow10(self.scale as nat)
    }

    /// `self == other` as rational numbers.
    pub open spec fn spec_same(self, other: Dec) -> bool {
        self.mantissa * pow10(other.scale as nat) == other.mantissa * pow10(self.scale as nat)
    }

    pub open spec fn spec_le(self, other: Dec) -> bool {
        self.spec_lt(other) || self.spec_same(other)
    }

    pub open spec fn is_pos(self) -> bool {
        self.mantissa > 0
    }

    pub open spec fn is_neg(self) -> bool {
        self.mantissa < 0
    }

    /// The integer `n` as a decimal of scale zero.
    pub open spec fn of_int(n: int) -> Dec {
        Dec { mantissa: n as i128, scale: 0 }
    }

    pub open spec fn spec_neg(self) -> Dec {
        Dec { mantissa: (-self.mantissa) as i128, scale: self.scale }
    }

    /// Zero.
    pub fn zero() -> (r: Dec)
        ensures
            r == Dec::of_int(0),
            r.wf(),
    {
        Dec { mantissa: 0, scale: 0 }
    }

    /// One.
    pub fn one() -> (r: Dec)
        ensures
            r == Dec::of_int(1),
            r.wf(),
    {
        Dec { mantissa: 1, scale: 0 }
    }

    /// `mantissa / 10^scale`, the parts of `rust_decimal::Decimal::new`.
    pub fn new(mantissa: i64, scale: u32) -> (r: Dec)
        requires
            scale <= MAX_SCALE,
        ensures
            r == (Dec { mantissa: mantissa as i128, scale }),
            r.wf(),
    {
        Dec { mantissa: mantissa as i128, scale }
    }

    /// An unsigned integer as a decimal (what `Decimal::from(u64)` builds).
    pub fn from_u64(n: u64) -> (r: Dec)
        ensures
            r == Dec::of_int(n as int),
            r.wf(),
    {
        Dec { mantissa: n as i128, scale: 0 }
    }

    /// A signed integer as a decimal (what `Decimal::from(i64)` builds).
    pub fn from_i64(n: i64) -> (r: Dec)
        ensures
            r == Dec::of_int(n as int),
            r.wf(),
    {
        Dec { mantissa: n as i128, scale: 0 }
    }

    /// Negation (`-d`), which never overflows.
    pub fn neg(&self) -> (r: Dec)
        requires
            self.wf(),
        ensures
            r == self.spec_neg(),
            r.wf(),
    {
        Dec { mantissa: -self.mantissa, scale: self.scale }
    }

    /// `self + other`, `None` where `rust_decimal` reports overflow.
    pub fn checked_add(&self, other: &Dec) -> (r: Option<Dec>)
        requires
            self.wf(),
            other.wf(),
        ensures
            r == decimal_add(*self, *other),
            r matches Some(x) ==> x.wf(),
    {
        rd_checked_add(*self, *other)
    }

    /// `self - other`, `None` where `rust_decimal` reports overflow.
    pub fn checked_sub(&self, other: &Dec) -> (r: Option<Dec>)
        requires
            self.wf(),
            other.wf(),
        ensures
            r == decimal_sub(*self, *other),
            r matches Some(x) ==> x.wf(),
    {
        rd_checked_sub(*self, *other)
    }

    /// `self * other`, `None` where `rust_decimal` reports overflow; exact
    /// where the product fits.
    pub fn checked_mul(&self, other: &Dec) -> (r: Option<Dec>)
        requires
            self.wf(),
            other.wf(),
        ensures
            r == decimal_mul(*self, *other),
            r matches Some(x) ==> x.wf(),
            exact_product_fits(*self, *other) ==> r == Some(
                Dec {
                    mantissa: (self.mantissa * other.mantissa) as i128,
                    scale: (self.scale + other.scale) as u32,
                },
            ),
    {
        rd_checked_mul(*self, *other)
    }

    /// `self / other`, `None` on a zero divisor or overflow; never `None`
    /// for a nonzero whole divisor.
    pub fn checked_div(&self, other: &Dec) -> (r: Option<Dec>)
        requires
            self.wf(),
            other.wf(),
        ensures
            r == decimal_div(*self, *other),
            r matches Some(x) ==> x.wf(),
            other.mantissa == 0 ==> r is None,
            other.mantissa != 0 && other.scale == 0 ==> r is Some,
            short_whole_quotient(*self, *other) ==> (r matches Some(x) && x.scale <= 9 && x.mantissa
                * other.mantissa == self.mantissa * pow10(x.scale as nat)),
    {
        rd_checked_div(*self, *other)
    }

    /// `self < other`.
    pub fn lt(&self, other: &Dec) -> (r: bool)
        requires
            self.wf(),
            other.wf(),
        ensures
            r == self.spec_lt(*other),
    {
        rd_lt(*self, *other)
    }

    /// `self <= other`.
    pub fn le(&self, other: &Dec) -> (r: bool)
        requires
            self.wf(),
            other.wf(),
        ensures
            r == self.spec_le(*other),
    {
        !rd_lt(*other, *self)
    }

    /// `self > other`.
    pub fn gt(&self, other: &Dec) -> (r: bool)
        requires
            self.wf(),
            other.wf(),
        ensures
            r == other.spec_lt(*self),
    {
        rd_lt(*other, *self)
    }

    /// The smaller of the two (the first on equal values), as `Ord::min`.
    pub fn min(&self, other: &Dec) -> (r: Dec)
        requires
            self.wf(),
            other.wf(),
        ensures
            r == (if other.spec_lt(*self) { *other } else { *self }),
    {
        if rd_lt(*other, *self) {
            *other
        } else {
            *self
        }
    }

    /// The larger of the two (the second on equal values), as `Ord::max`.
    pub fn max(&self, other: &Dec) -> (r: Dec)
        requires
            self.wf(),
            other.wf(),
        ensures
            r == (if other.spec_lt(*self) { *self } else { *other }),
    {
        if rd_lt(*other, *self) {
            *self
        } else {
            *other
        }
    }

    /// The absolute value.
    pub fn abs(&self) -> (r: Dec)
        requires
            self.wf(),
        ensures
            r.wf(),
            r.mantissa == (if self.mantissa < 0 { -self.mantissa } else { self.mantissa as int }),
            r.scale == self.scale,
    {
        if self.mantissa < 0 {
            Dec { mantissa: -self.mantissa, scale: self.scale }
        } else {
            *self
        }
    }

    /// Banker's rounding to an integral value.
    pub fn round(&self) -> (r: Dec)
        requires
            self.wf(),
        ensures
            r.wf(),
            r.scale == 0,
            r.mantissa == round_half_even(self.mantissa as int, pow10(self.scale as nat)),
    {
        rd_round(*self)
    }

    /// The square root, never negative; `None` for a negative number.
    pub fn sqrt(&self) -> (r: Option<Dec>)
        requires
            self.wf(),
        ensures
            r == decimal_sqrt(*self),
            r matches Some(x) ==> x.wf() && x.mantissa >= 0,
            r is None <==> self.mantissa < 0,
    {
        rd_sqrt(*self)
    }

    /// The integer part as a `u64`: `None` for a negative number or one too large.
    pub fn to_u64(&self) -> (r: Option<u64>)
        requires
            self.wf(),
        ensures
            r == trunc_to_u64(*self),
    {
        rd_to_u64(*self)
    }
}

/// What `to_u64` gives for a decimal built from these parts.
pub open spec fn trunc_to_u64(d: Dec) -> Option<u64> {
    if d.mantissa < 0 {
        None
    } else if (d.mantissa as int) / pow10(d.scale as nat) <= u64::MAX {
        Some(((d.mantissa as int) / pow10(d.scale as nat)) as u64)
    } else {
        None
    }
}

/// The result of `Decimal::checked_add` on the decimals with these parts.
pub uninterp spec fn decimal_add(a: Dec, b: Dec) -> Option<Dec>;

/// The result of `Decimal::checked_sub` on the decimals with these parts.
pub uninterp spec fn decimal_sub(a: Dec, b: Dec) -> Option<Dec>;

/// The result of `Decimal::checked_mul` on the decimals with these parts.
pub uninterp spec fn decimal_mul(a: Dec, b: Dec) -> Option<Dec>;

/// The result of `Decimal::checked_div` on the decimals with these parts.
pub uninterp spec fn decimal_div(a: Dec, b: Dec) -> Option<Dec>;

/// The result of `MathematicalOps::sqrt` on the decimal with these parts.
pub uninterp spec fn decimal_sqrt(a: Dec) -> Option<Dec>;

/// A product the 96-bit mantissa holds exactly: both factors positive, the
/// product of the mantissas at most `MAX_MANTISSA`, the scales together at
/// most `MAX_SCALE`.
pub open spec fn exact_product_fits(a: Dec, b: Dec) -> bool {
    &&& 0 < a.mantissa
    &&& 0 < b.mantissa
    &&& a.mantissa * b.mantissa <= MAX_MANTISSA
    &&& a.scale + b.scale <= MAX_SCALE
}

/// A whole dividend of at most 32 bits over a positive whole divisor of
/// `10^9`: the quotient ends within nine decimal places.
pub open spec fn short_whole_quotient(a: Dec, b: Dec) -> bool {
    &&& a.scale == 0
    &&& 0 <= a.mantissa <= u32::MAX
    &&& b.scale == 0
    &&& b.mantissa > 0
    &&& 1_000_000_000int % (b.mantissa as int) == 0
}

/// Calls `Decimal::checked_add`.  Trusted: the result is named, and the parts
/// it is converted back into can be held by a `Decimal` again.
#[verifier::external_body]
fn rd_checked_add(a: Dec, b: Dec) -> (r: Option<Dec>)
    requires
        a.wf(),
        b.wf(),
    ensures
        r == decimal_add(a, b),
        r matches Some(x) ==> x.wf(),
{
    let x = Decimal::from_i128_with_scale(a.mantissa, a.scale);
    let y = Decimal::from_i128_with_scale(b.mantissa, b.scale);
    x.checked_add(y).map(|d| Dec { mantissa: d.mantissa(), scale: d.scale() })
}

/// Calls `Decimal::checked_sub`.  Trusted: the result is named, and its parts
/// can be held by a `Decimal` again.
#[verifier::external_body]
fn rd_checked_sub(a: Dec, b: Dec) -> (r: Option<Dec>)
    requires
        a.wf(),
        b.wf(),
    ensures
        r == decimal_sub(a, b),
        r matches Some(x) ==> x.wf(),
{
    let x = Decimal::from_i128_with_scale(a.mantissa, a.scale);
    let y = Decimal::from_i128_with_scale(b.mantissa, b.scale);
    x.checked_sub(y).map(|d| Dec { mantissa: d.mantissa(), scale: d.scale() })
}

/// Calls `Decimal::checked_mul`.  Trusted: the result is named, and its parts
/// can be held by a `Decimal` again.  A product that fits (see
/// `exact_product_fits`) is exact: the source multiplies the mantissas in
/// full, adds the scales, and rescales only where the product exceeds 96
/// bits or the scale exceeds 28.
#[verifier::external_body]
fn rd_checked_mul(a: Dec, b: Dec) -> (r: Option<Dec>)
    requires
        a.wf(),
        b.wf(),
    ensures
        r == decimal_mul(a, b),
        r matches Some(x) ==> x.wf(),
        exact_product_fits(a, b) ==> r == Some(
            Dec { mantissa: (a.mantissa * b.mantissa) as i128, scale: (a.scale + b.scale) as u32 },
        ),
{
    let x = Decimal::from_i128_with_scale(a.mantissa, a.scale);
    let y = Decimal::from_i128_with_scale(b.mantissa, b.scale);
    x.checked_mul(y).map(|d| Dec { mantissa: d.mantissa(), scale: d.scale() })
}

/// Calls `Decimal::checked_div`.  Trusted: the result is named, a zero
/// divisor gives `None` (the source returns `DivByZero`, which `checked_div`
/// maps to `None`), a nonzero whole divisor gives `Some` (the quotient is no
/// larger than the dividend, so it cannot overflow; a quotient that needs
/// more digits is rounded, not refused), and the parts can be held by a
/// `Decimal` again.  A quotient of a whole number of at most 32 bits by a
/// divisor of `10^9` (see `short_whole_quotient`) is exact, at a scale of at
/// most nine: the source's first remainder round scales the quotient by
/// `10^9`, after which the remainder is zero, and the trailing zeros it then
/// strips only lower the scale.
#[verifier::external_body]
fn rd_checked_div(a: Dec, b: Dec) -> (r: Option<Dec>)
    requires
        a.wf(),
        b.wf(),
    ensures
        r == decimal_div(a, b),
        r matches Some(x) ==> x.wf(),
        b.mantissa == 0 ==> r is None,
        b.mantissa != 0 && b.scale == 0 ==> r is Some,
        short_whole_quotient(a, b) ==> r.is_some() && r.unwrap().scale <= 9 && r.unwrap().mantissa
            * b.mantissa == a.mantissa * pow10(r.unwrap().scale as nat),
{
    let x = Decimal::from_i128_with_scale(a.mantissa, a.scale);
    let y = Decimal::from_i128_with_scale(b.mantissa, b.scale);
    x.checked_div(y).map(|d| Dec { mantissa: d.mantissa(), scale: d.scale() })
}

/// Calls `<Decimal as PartialOrd>::lt`.  Trusted: the comparison is by value
/// (the source rescales both operands before comparing).
#[verifier::external_body]
fn rd_lt(a: Dec, b: Dec) -> (r: bool)
    requires
        a.wf(),
        b.wf(),
    ensures
        r == a.spec_lt(b),
{
    let x = Decimal::from_i128_with_scale(a.mantissa, a.scale);
    let y = Decimal::from_i128_with_scale(b.mantissa, b.scale);
    x < y
}

/// Calls `Decimal::round`.  Trusted: banker's rounding to scale zero, as its
/// documentation states.
#[verifier::external_body]
fn rd_round(a: Dec) -> (r: Dec)
    requires
        a.wf(),
    ensures
        r.wf(),
        r.scale == 0,
        r.mantissa == round_half_even(a.mantissa as int, pow10(a.scale as nat)),
{
    let d = Decimal::from_i128_with_scale(a.mantissa, a.scale).round();
    Dec { mantissa: d.mantissa(), scale: d.scale() }
}

/// Calls `MathematicalOps::sqrt`.  Trusted: the result is named; it is `None`
/// exactly for a negative number (the source returns `None` on a negative
/// sign, and a decimal built from these parts has a negative sign exactly when
/// the mantissa is negative); a result is never negative (zero gives zero,
/// and otherwise the iteration starts from a positive guess and each round
/// averages two positive numbers).  Left unsaid: the source's Newton iteration
/// stops the program with an assertion once it has run 1000 rounds, and
/// neither the source nor its documentation says on which inputs that can
/// happen, so no input is excluded here for it.
#[verifier::external_body]
fn rd_sqrt(a: Dec) -> (r: Option<Dec>)
    requires
        a.wf(),
    ensures
        r == decimal_sqrt(a),
        r matches Some(x) ==> x.wf() && x.mantissa >= 0,
        r is None <==> a.mantissa < 0,
{
    let x = Decimal::from_i128_with_scale(a.mantissa, a.scale);
    x.sqrt().map(|d| Dec { mantissa: d.mantissa(), scale: d.scale() })
}

/// Calls `<Decimal as ToPrimitive>::to_u64`.  Trusted: `None` on a negative
/// sign, otherwise the truncated integer part when it fits in 64 bits.
#[verifier::external_body]
fn rd_to_u64(a: Dec) -> (r: Option<u64>)
    requires
        a.wf(),
    ensures
        r == trunc_to_u64(a),
{
    Decimal::from_i128_with_scale(a.mantissa, a.scale).to_u64()
}

} // verus!
