//! The 8.8 format: barycentric weights, reciprocal depth and depth.

use crate::arith::divide;
use crate::arith::divide_i16;
use crate::arith::floor256;
use crate::arith::Rounding;
use crate::q12p4::Q12p4;
use crate::q24p4::Q24p4;
use core::convert::From;
use core::ops::Add;
use core::ops::Div;
use core::ops::Mul;
use vstd::prelude::*;
use vstd::std_specs::convert::FromSpecImpl;
use vstd::std_specs::ops::AddSpecImpl;
use vstd::std_specs::ops::DivSpecImpl;
use vstd::std_specs::ops::MulSpecImpl;

verus! {

/// A signed 16-bit number counted in 256ths: eight integer bits and eight
/// fractional bits. The name counts all sixteen.
#[derive(Clone, Copy, Debug, PartialEq, Eq, Structural)]
pub struct Q16p16(pub i16);

impl View for Q16p16 {
    type V = int;

    /// The number of 256ths held.
    open spec fn view(&self) -> int {
        self.0 as int
    }
}

/// The quotient of two 24.4 numbers in 256ths, rounded to the nearest and
/// held to sixteen bits: `round(256 num / den)`. A zero `den` gives the rail.
pub open spec fn ratio(num: int, den: int) -> int {
    divide(256 * num, den, Rounding::Nearest, i16::MIN as int, i16::MAX as int)
}

/// The quotient of an 8.8 number by an 8.8 number in 256ths, rounded toward
/// zero and held to sixteen bits.
pub open spec fn quotient_8p8(num: int, den: int) -> int {
    divide(256 * num, den, Rounding::TowardZero, i16::MIN as int, i16::MAX as int)
}

/// The quotient of an 8.8 number by a number in sixteenths, in 256ths,
/// rounded toward zero and held to sixteen bits.
pub open spec fn quotient_by_sixteenths(num: int, den: int) -> int {
    divide(16 * num, den, Rounding::TowardZero, i16::MIN as int, i16::MAX as int)
}

/// The product of two 8.8 numbers in 256ths, rounded down, of which the low
/// sixteen bits are kept.
pub open spec fn product_8p8(a: int, b: int) -> int {
    (floor256(a * b) as i16) as int
}

/// The sum of two 8.8 numbers of which the low sixteen bits are kept.
pub open spec fn wrapped_sum(a: int, b: int) -> int {
    ((a + b) as i16) as int
}

impl Q16p16 {
    /// Whether `v` 256ths can be held.
    pub open spec fn fits(v: int) -> bool {
        i16::MIN <= v <= i16::MAX
    }

    /// One.
    pub fn one() -> (r: Self)
        ensures
            r@ == 256,
    {
        Q16p16(256)
    }

    /// Divides one 24.4 number by another into the 8.8 format.
    pub fn div_q24p4(lhs: Q24p4, rhs: Q24p4) -> (r: Q16p16)
        ensures
            r@ == ratio(lhs@, rhs@),
    {
        Q16p16(divide_i16(256 * (lhs.0 as i64), rhs.0 as i64, Rounding::Nearest))
    }

    /// Adds and keeps the low sixteen bits of the sum.
    pub fn wrapping_add(self, rhs: Self) -> (r: Self)
        ensures
            r@ == wrapped_sum(self@, rhs@),
            Q16p16::fits(self@ + rhs@) ==> r@ == self@ + rhs@,
    {
        let s: i32 = self.0 as i32 + rhs.0 as i32;
        Q16p16(#[verifier::truncate] (s as i16))
    }
}

/// A 24.4 number as an 8.8 number: four more fractional bits. Of a number
/// that does not fit the sixteen bits the high bits are lost.
impl From<Q24p4> for Q16p16 {
    fn from(val: Q24p4) -> (r: Self) {
        let low: i16 = #[verifier::truncate] (val.0 as i16);
        Q16p16(low << 4)
    }
}

/// What the conversion from 24.4 means in contracts.
impl FromSpecImpl<Q24p4> for Q16p16 {
    open spec fn obeys_from_spec() -> bool {
        true
    }

    /// The low sixteen bits, moved left by four.
    open spec fn from_spec(val: Q24p4) -> Self {
        Q16p16((val.0 as i16) << 4)
    }
}

/// A 12.4 number as an 8.8 number: four more fractional bits. Of a number
/// that does not fit the sixteen bits the high bits are lost.
impl From<Q12p4> for Q16p16 {
    fn from(val: Q12p4) -> (r: Self) {
        Q16p16(val.0 << 4)
    }
}

/// What the conversion from 12.4 means in contracts.
impl FromSpecImpl<Q12p4> for Q16p16 {
    open spec fn obeys_from_spec() -> bool {
        true
    }

    /// The bits moved left by four.
    open spec fn from_spec(val: Q12p4) -> Self {
        Q16p16(val.0 << 4)
    }
}

/// The sum, which must fit the sixteen bits.
impl Add<Q16p16> for Q16p16 {
    type Output = Q16p16;

    fn add(self, rhs: Self) -> (r: Self::Output) {
        Q16p16(self.0 + rhs.0)
    }
}

/// What `+` means in contracts.
impl AddSpecImpl<Q16p16> for Q16p16 {
    open spec fn obeys_add_spec() -> bool {
        true
    }

    open spec fn add_req(self, rhs: Self) -> bool {
        Q16p16::fits(self@ + rhs@)
    }

    open spec fn add_spec(self, rhs: Self) -> Self::Output {
        Q16p16((self.0 + rhs.0) as i16)
    }
}

/// The product, rounded down to a 256th; of a product that does not fit
/// the sixteen bits the high bits are lost.
impl Mul for Q16p16 {
    type Output = Q16p16;

    fn mul(self, rhs: Self) -> (r: Self::Output) {
        let a: i64 = self.0 as i64;
        let b: i64 = rhs.0 as i64;
        assert(-0x4000_0000 <= a * b <= 0x4000_0000) by (nonlinear_arith)
            requires
                -0x8000 <= a <= 0x7fff,
                -0x8000 <= b <= 0x7fff,
        ;
        let p: i64 = a * b;
        assert((p >> 8u32) == p / 256) by (bit_vector);
        let q: i64 = p >> 8;
        Q16p16(#[verifier::truncate] (q as i16))
    }
}

/// What `*` means in contracts.
impl MulSpecImpl for Q16p16 {
    open spec fn obeys_mul_spec() -> bool {
        true
    }

    open spec fn mul_req(self, rhs: Self) -> bool {
        true
    }

    open spec fn mul_spec(self, rhs: Self) -> Self::Output {
        Q16p16(floor256(self@ * rhs@) as i16)
    }
}

/// The quotient, rounded toward zero and held to the sixteen bits.
impl Div<Q16p16> for Q16p16 {
    type Output = Q16p16;

    fn div(self, rhs: Self) -> (r: Self::Output) {
        Q16p16(divide_i16(256 * (self.0 as i64), rhs.0 as i64, Rounding::TowardZero))
    }
}

/// What `/` means in contracts.
impl DivSpecImpl<Q16p16> for Q16p16 {
    open spec fn obeys_div_spec() -> bool {
        true
    }

    open spec fn div_req(self, rhs: Self) -> bool {
        true
    }

    open spec fn div_spec(self, rhs: Self) -> Self::Output {
        Q16p16(quotient_8p8(self@, rhs@) as i16)
    }
}

/// The quotient by a 24.4 number, rounded toward zero and held to the
/// sixteen bits.
impl Div<Q24p4> for Q16p16 {
    type Output = Q16p16;

    fn div(self, rhs: Q24p4) -> (r: Self::Output) {
        Q16p16(divide_i16(16 * (self.0 as i64), rhs.0 as i64, Rounding::TowardZero))
    }
}

/// What `/` by a 24.4 number means in contracts.
impl DivSpecImpl<Q24p4> for Q16p16 {
    open spec fn obeys_div_spec() -> bool {
        true
    }

    open spec fn div_req(self, rhs: Q24p4) -> bool {
        true
    }

    open spec fn div_spec(self, rhs: Q24p4) -> Self::Output {
        Q16p16(quotient_by_sixteenths(self@, rhs@) as i16)
    }
}

/// The quotient by a 12.4 number, rounded toward zero and held to the
/// sixteen bits.
impl Div<Q12p4> for Q16p16 {
    type Output = Q16p16;

    fn div(self, rhs: Q12p4) -> (r: Self::Output) {
        Q16p16(divide_i16(16 * (self.0 as i64), rhs.0 as i64, Rounding::TowardZero))
    }
}

/// What `/` by a 12.4 number means in contracts.
impl DivSpecImpl<Q12p4> for Q16p16 {
    open spec fn obeys_div_spec() -> bool {
        true
    }

    open spec fn div_req(self, rhs: Q12p4) -> bool {
        true
    }

    open spec fn div_spec(self, rhs: Q12p4) -> Self::Output {
        Q16p16(quotient_by_sixteenths(self@, rhs@) as i16)
    }
}

} // verus!
