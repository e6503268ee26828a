//! Signed fixed-point numbers with 48 fractional bits, computed by the
//! `fixed` crate's `I80F48`.

use fixed::types::I80F48;
use vstd::prelude::*;

verus! {

/// Two to the power of the number of fractional bits.
pub const FRAC_SCALE: i128 = 281474976710656;

/// A fixed-point number held as its raw bits: the value is `bits / 2^48`.
#[derive(Clone, Copy, Debug, PartialEq, Eq, Structural)]
pub struct Fixed {
    pub bits: i128,
}

/// The raw bits of the number `n` (an integer).
pub open spec fn int_bits(n: int) -> int {
    n * FRAC_SCALE
}

/// Raw bits of a product: the exact product of the two values, rounded
/// towards negative infinity to a multiple of `2^-48`.
pub open spec fn mul_bits(a: int, b: int) -> int {
    (a * b) / (FRAC_SCALE as int)
}

/// Raw bits of integers that fit in a `u64` stay far inside `i128`.
pub proof fn lemma_int_bits_bounds(n: int)
    requires
        0 <= n <= u64::MAX,
    ensures
        0 <= int_bits(n) <= u64::MAX * FRAC_SCALE,
{
    assert(0 <= n * FRAC_SCALE <= u64::MAX * FRAC_SCALE) by (nonlinear_arith)
        requires
            0 <= n <= u64::MAX,
    ;
}

pub open spec fn fits_i128(x: int) -> bool {
    i128::MIN <= x <= i128::MAX
}

/// Relies on `I80F48::checked_add`: the raw bits are added, `None` on overflow.
#[verifier::external_body]
fn i80f48_checked_add(a: i128, b: i128) -> (r: Option<i128>)
    ensures
        r == (if fits_i128(a + b) { Some((a + b) as i128) } else { None::<i128> }),
{
    I80F48::from_bits(a).checked_add(I80F48::from_bits(b)).map(|x| x.to_bits())
}

/// Relies on `I80F48::checked_sub`: the raw bits are subtracted, `None` on overflow.
#[verifier::external_body]
fn i80f48_checked_sub(a: i128, b: i128) -> (r: Option<i128>)
    ensures
        r == (if fits_i128(a - b) { Some((a - b) as i128) } else { None::<i128> }),
{
    I80F48::from_bits(a).checked_sub(I80F48::from_bits(b)).map(|x| x.to_bits())
}

/// Relies on `I80F48::checked_mul`: the full product of the raw bits shifted
/// right by 48 (rounding down), `None` when that does not fit.
#[verifier::external_body]
fn i80f48_checked_mul(a: i128, b: i128) -> (r: Option<i128>)
    ensures
        r == (if fits_i128(mul_bits(a as int, b as int)) {
            Some(mul_bits(a as int, b as int) as i128)
        } else {
            None::<i128>
        }),
{
    I80F48::from_bits(a).checked_mul(I80F48::from_bits(b)).map(|x| x.to_bits())
}

/// Relies on `I80F48::from(u64)`: a lossless conversion, the integer shifted
/// left by 48.
#[verifier::external_body]
fn i80f48_from_u64(n: u64) -> (r: i128)
    ensures
        r == int_bits(n as int),
{
    I80F48::from(n).to_bits()
}

impl Fixed {
    pub open spec fn raw(self) -> int {
        self.bits as int
    }

    pub fn zero() -> (r: Fixed)
        ensures
            r.raw() == 0,
    {
        Fixed { bits: 0 }
    }

    /// The integer `n` as a fixed-point number.
    pub fn from_u64(n: u64) -> (r: Fixed)
        ensures
            r.raw() == int_bits(n as int),
    {
        Fixed { bits: i80f48_from_u64(n) }
    }

    pub fn neg(&self) -> (r: Fixed)
        requires
            self.raw() > i128::MIN,
        ensures
            r.raw() == -self.raw(),
    {
        Fixed { bits: -self.bits }
    }

    pub fn is_positive(&self) -> (r: bool)
        ensures
            r == (self.raw() > 0),
    {
        self.bits > 0
    }

    pub fn checked_add(&self, o: Fixed) -> (r: Option<Fixed>)
        ensures
            r == (if fits_i128(self.raw() + o.raw()) {
                Some(Fixed { bits: (self.raw() + o.raw()) as i128 })
            } else {
                None::<Fixed>
            }),
    {
        match i80f48_checked_add(self.bits, o.bits) {
            Some(bits) => Some(Fixed { bits }),
            None => None,
        }
    }

    pub fn checked_sub(&self, o: Fixed) -> (r: Option<Fixed>)
        ensures
            r == (if fits_i128(self.raw() - o.raw()) {
                Some(Fixed { bits: (self.raw() - o.raw()) as i128 })
            } else {
                None::<Fixed>
            }),
    {
        match i80f48_checked_sub(self.bits, o.bits) {
            Some(bits) => Some(Fixed { bits }),
            None => None,
        }
    }

    pub fn checked_mul(&self, o: Fixed) -> (r: Option<Fixed>)
        ensures
            r == (if fits_i128(mul_bits(self.raw(), o.raw())) {
                Some(Fixed { bits: mul_bits(self.raw(), o.raw()) as i128 })
            } else {
                None::<Fixed>
            }),
    {
        match i80f48_checked_mul(self.bits, o.bits) {
            Some(bits) => Some(Fixed { bits }),
            None => None,
        }
    }
}

} // verus!
