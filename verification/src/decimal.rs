//! Checked fixed-point decimal arithmetic.
//!
//! A `Decimal` carries a signed value scaled by `10^DECIMAL_SCALE`: the field
//! `units` represents the number `units / 10^DECIMAL_SCALE`. Every operation
//! is checked: it reports an error instead of wrapping or saturating.
//! Multiplication and division truncate toward zero at the fixed scale.

use vstd::prelude::*;

verus! {

/// Number of fractional decimal digits carried by every `Decimal` value.
pub const DECIMAL_SCALE: u32 = 12;

/// `10^DECIMAL_SCALE`: the `units` value that represents one.
pub const DECIMAL_UNIT: i128 = 1_000_000_000_000;

/// Failure of a checked decimal operation.
#[derive(Clone, Copy, Debug, PartialEq, Eq, Structural)]
pub enum MathError {
    /// An intermediate or final value does not fit the machine representation.
    Overflow,
    /// Division by a zero decimal.
    DivisionByZero,
    /// A requested scale exceeds `DECIMAL_SCALE`.
    ScaleTooLarge,
    /// A value falls outside the range the operation can return.
    OutOfRange,
}

/// A fixed-point decimal number: the represented value is
/// `units / 10^DECIMAL_SCALE`.
#[derive(Clone, Copy, Debug, PartialEq, Eq, Structural)]
pub struct Decimal {
    pub units: i128,
}

/// `10^e`.
pub open spec fn pow10(e: nat) -> int
    decreases e,
{
    if e == 0 {
        1
    } else {
        10 * pow10((e - 1) as nat)
    }
}

/// Whether a mathematical integer fits in `i128`.
pub open spec fn in_i128(x: int) -> bool {
    i128::MIN <= x <= i128::MAX
}

/// Rust's truncating (toward zero) integer division, on mathematical integers.
pub open spec fn trunc_div(x: int, d: int) -> int {
    if x == 0 {
        0
    } else if x > 0 && d > 0 {
        x / d
    } else if x < 0 && d < 0 {
        (x * -1) / (d * -1)
    } else if x < 0 {
        ((x * -1) / d) * -1
    } else {
        (x / (d * -1)) * -1
    }
}

/// Units of a decimal built from `value` at `scale` fractional digits.
pub open spec fn dec_from_scale(value: int, scale: nat) -> Result<int, MathError> {
    if scale > DECIMAL_SCALE {
        Err(MathError::ScaleTooLarge)
    } else {
        let u = value * pow10((DECIMAL_SCALE - scale) as nat);
        if in_i128(u) {
            Ok(u)
        } else {
            Err(MathError::Overflow)
        }
    }
}

/// Units of a checked decimal addition.
pub open spec fn dec_add(a: int, b: int) -> Result<int, MathError> {
    if in_i128(a + b) {
        Ok(a + b)
    } else {
        Err(MathError::Overflow)
    }
}

/// Units of a checked decimal subtraction.
pub open spec fn dec_sub(a: int, b: int) -> Result<int, MathError> {
    if in_i128(a - b) {
        Ok(a - b)
    } else {
        Err(MathError::Overflow)
    }
}

/// Units of a checked decimal multiplication: the product of the unit counts,
/// rescaled by `DECIMAL_UNIT` with truncation toward zero.
pub open spec fn dec_mul(a: int, b: int) -> Result<int, MathError> {
    if !in_i128(a * b) {
        Err(MathError::Overflow)
    } else {
        Ok(trunc_div(a * b, DECIMAL_UNIT as int))
    }
}

/// Units of a checked decimal division: the dividend raised by `DECIMAL_UNIT`,
/// divided by the divisor's unit count with truncation toward zero.
pub open spec fn dec_div(a: int, b: int) -> Result<int, MathError> {
    if b == 0 {
        Err(MathError::DivisionByZero)
    } else if !in_i128(a * DECIMAL_UNIT) {
        Err(MathError::Overflow)
    } else {
        let q = trunc_div(a * DECIMAL_UNIT, b);
        if in_i128(q) {
            Ok(q)
        } else {
            Err(MathError::Overflow)
        }
    }
}

/// Units of a checked decimal power: `b` multiplied into one `e` times.
pub open spec fn dec_pow(b: int, e: nat) -> Result<int, MathError>
    decreases e,
{
    if e == 0 {
        Ok(DECIMAL_UNIT as int)
    } else {
        match dec_pow(b, (e - 1) as nat) {
            Ok(p) => dec_mul(p, b),
            Err(er) => Err(er),
        }
    }
}

/// The integer part of a non-negative decimal, as a `u64`-ranged integer.
pub open spec fn dec_floor(a: int) -> Result<int, MathError> {
    if a < 0 {
        Err(MathError::OutOfRange)
    } else {
        let q = a / (DECIMAL_UNIT as int);
        if q > u64::MAX {
            Err(MathError::OutOfRange)
        } else {
            Ok(q)
        }
    }
}

/// The unit counts of a decimal result, with its error passed through.
pub open spec fn r_units(r: Result<Decimal, MathError>) -> Result<int, MathError> {
    match r {
        Ok(d) => Ok(d.units as int),
        Err(e) => Err(e),
    }
}

pub proof fn lemma_pow10_pos(e: nat)
    ensures
        pow10(e) >= 1,
    decreases e,
{
    if e > 0 {
        lemma_pow10_pos((e - 1) as nat);
    }
}

pub proof fn lemma_pow10_mono(a: nat, b: nat)
    requires
        a <= b,
    ensures
        pow10(a) <= pow10(b),
    decreases b,
{
    if a < b {
        lemma_pow10_mono(a, (b - 1) as nat);
        lemma_pow10_pos((b - 1) as nat);
    }
}

pub proof fn lemma_pow10_unit()
    ensures
        pow10(12) == DECIMAL_UNIT as int,
{
    reveal_with_fuel(pow10, 13);
}

/// `10^e` as a machine integer, for exponents up to the decimal scale.
fn pow10_i128(e: u32) -> (r: i128)
    requires
        e <= 12,
    ensures
        r == pow10(e as nat),
{
    let mut r: i128 = 1;
    let mut i: u32 = 0;
    while i < e
        invariant
            i <= e <= 12,
            r == pow10(i as nat),
        decreases e - i,
    {
        proof {
            lemma_pow10_pos(i as nat);
            lemma_pow10_mono((i + 1) as nat, 12);
            lemma_pow10_unit();
            assert(pow10((i + 1) as nat) == 10 * pow10(i as nat));
        }
        r = r * 10;
        i = i + 1;
    }
    r
}

impl Decimal {
    /// The decimal zero.
    pub fn zero() -> (r: Decimal)
        ensures
            r.units == 0,
    {
        Decimal { units: 0 }
    }

    /// Builds the decimal `value / 10^scale`; the scale must not exceed
    /// `DECIMAL_SCALE` and the rescaled value must fit the representation.
    pub fn from_i128_with_scale(value: i128, scale: u32) -> (r: Result<Decimal, MathError>)
        ensures
            r_units(r) == dec_from_scale(value as int, scale as nat),
    {
        if scale > DECIMAL_SCALE {
            return Err(MathError::ScaleTooLarge);
        }
        let factor = pow10_i128(DECIMAL_SCALE - scale);
        match value.checked_mul(factor) {
            Some(u) => Ok(Decimal { units: u }),
            None => Err(MathError::Overflow),
        }
    }

    /// Checked addition.
    pub fn checked_add(&self, rhs: &Decimal) -> (r: Result<Decimal, MathError>)
        ensures
            r_units(r) == dec_add(self.units as int, rhs.units as int),
    {
        match self.units.checked_add(rhs.units) {
            Some(u) => Ok(Decimal { units: u }),
            None => Err(MathError::Overflow),
        }
    }

    /// Checked subtraction.
    pub fn checked_sub(&self, rhs: &Decimal) -> (r: Result<Decimal, MathError>)
        ensures
            r_units(r) == dec_sub(self.units as int, rhs.units as int),
    {
        match self.units.checked_sub(rhs.units) {
            Some(u) => Ok(Decimal { units: u }),
            None => Err(MathError::Overflow),
        }
    }

    /// Checked multiplication, truncating toward zero at the fixed scale.
    pub fn checked_mul(&self, rhs: &Decimal) -> (r: Result<Decimal, MathError>)
        ensures
            r_units(r) == dec_mul(self.units as int, rhs.units as int),
    {
        match self.units.checked_mul(rhs.units) {
            Some(p) => {
                match p.checked_div(DECIMAL_UNIT) {
                    Some(q) => Ok(Decimal { units: q }),
                    None => {
                        proof {
                            lemma_trunc_div_in_range(p as int, DECIMAL_UNIT as int);
                        }
                        vstd::pervasive::unreached()
                    },
                }
            },
            None => Err(MathError::Overflow),
        }
    }

    /// Checked division, truncating toward zero at the fixed scale.
    pub fn checked_div(&self, rhs: &Decimal) -> (r: Result<Decimal, MathError>)
        ensures
            r_units(r) == dec_div(self.units as int, rhs.units as int),
    {
        if rhs.units == 0 {
            return Err(MathError::DivisionByZero);
        }
        match self.units.checked_mul(DECIMAL_UNIT) {
            Some(s) => {
                match s.checked_div(rhs.units) {
                    Some(q) => Ok(Decimal { units: q }),
                    None => Err(MathError::Overflow),
                }
            },
            None => Err(MathError::Overflow),
        }
    }

    /// Checked power with a non-negative integer exponent.
    pub fn checked_pow(&self, exp: u64) -> (r: Result<Decimal, MathError>)
        ensures
            r_units(r) == dec_pow(self.units as int, exp as nat),
    {
        let mut acc = Decimal { units: DECIMAL_UNIT };
        let mut i: u64 = 0;
        while i < exp
            invariant
                i <= exp,
                dec_pow(self.units as int, i as nat) == Ok::<int, MathError>(acc.units as int),
            decreases exp - i,
        {
            match acc.checked_mul(self) {
                Ok(next) => {
                    acc = next;
                },
                Err(e) => {
                    proof {
                        lemma_dec_pow_error_persists(self.units as int, (i + 1) as nat, exp as nat, e);
                    }
                    return Err(e);
                },
            }
            i = i + 1;
        }
        Ok(acc)
    }

    /// The integer part of a non-negative decimal.
    pub fn floor(&self) -> (r: Result<u64, MathError>)
        ensures
            match r {
                Ok(q) => dec_floor(self.units as int) == Ok::<int, MathError>(q as int),
                Err(e) => dec_floor(self.units as int) == Err::<int, MathError>(e),
            },
    {
        if self.units < 0 {
            return Err(MathError::OutOfRange);
        }
        match self.units.checked_div(DECIMAL_UNIT) {
            Some(q) => {
                if q > u64::MAX as i128 {
                    Err(MathError::OutOfRange)
                } else {
                    Ok(q as u64)
                }
            },
            None => {
                proof {
                    lemma_trunc_div_in_range(self.units as int, DECIMAL_UNIT as int);
                }
                vstd::pervasive::unreached()
            },
        }
    }
}

/// Truncating division by a positive divisor never leaves the `i128` range.
proof fn lemma_trunc_div_in_range(x: int, d: int)
    requires
        in_i128(x),
        d >= 1,
    ensures
        in_i128(trunc_div(x, d)),
        x >= 0 ==> trunc_div(x, d) == x / d,
{
    if x > 0 {
        vstd::arithmetic::div_mod::lemma_div_nonincreasing(x, d);
        vstd::arithmetic::div_mod::lemma_div_pos_is_pos(x, d);
    } else if x < 0 {
        vstd::arithmetic::div_mod::lemma_div_nonincreasing(x * -1, d);
        vstd::arithmetic::div_mod::lemma_div_pos_is_pos(x * -1, d);
    }
}

/// Once a checked power step fails, every later step fails the same way.
proof fn lemma_dec_pow_error_persists(b: int, e1: nat, e2: nat, er: MathError)
    requires
        e1 <= e2,
        dec_pow(b, e1) == Err::<int, MathError>(er),
    ensures
        dec_pow(b, e2) == Err::<int, MathError>(er),
    decreases e2,
{
    if e1 < e2 {
        lemma_dec_pow_error_persists(b, e1, (e2 - 1) as nat, er);
    }
}

} // verus!
