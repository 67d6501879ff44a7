//! The 24.4 format: edge-function values and areas.

use crate::arith::divide;
use crate::arith::divide_i32;
use crate::arith::clamp;
use crate::arith::floor16;
use crate::arith::Rounding;
use crate::q12p4::Q12p4;
use core::convert::From;
use core::ops::Add;
use core::ops::AddAssign;
use core::ops::Div;
use core::ops::Mul;
use core::ops::Neg;
use core::ops::Sub;
use vstd::prelude::*;
use vstd::std_specs::convert::FromSpecImpl;
use vstd::std_specs::ops::AddSpecImpl;
use vstd::std_specs::ops::DivSpecImpl;
use vstd::std_specs::ops::MulSpecImpl;
use vstd::std_specs::ops::NegSpecImpl;
use vstd::std_specs::ops::SubSpecImpl;

verus! {

/// A signed 32-bit number counted in sixteenths.
#[derive(Clone, Copy, Debug, PartialEq, Eq, Structural, PartialOrd, Ord)]
pub struct Q24p4(pub i32);

impl View for Q24p4 {
    type V = int;

    /// The number of sixteenths held.
    open spec fn view(&self) -> int {
        self.0 as int
    }
}

/// The edge function of the directed edge from A to B at the point P, in
/// sixteenths: `(P.x - A.x)(B.y - A.y) - (P.y - A.y)(B.x - A.x)`, each
/// product rounded down to a sixteenth before the subtraction. All six
/// arguments are in sixteenths.
pub open spec fn edge_value(ax: int, ay: int, bx: int, by: int, px: int, py: int) -> int {
    floor16((px - ax) * (by - ay)) - floor16((py - ay) * (bx - ax))
}

impl Q24p4 {
    /// Whether `v` sixteenths can be held.
    pub open spec fn fits(v: int) -> bool {
        i32::MIN <= v <= i32::MAX
    }

    /// Zero.
    pub fn zero() -> (r: Self)
        ensures
            r@ == 0,
    {
        Self(0)
    }

    /// One.
    pub fn one() -> (r: Self)
        ensures
            r@ == 16,
    {
        Self(16)
    }

    /// Two.
    pub fn two() -> (r: Self)
        ensures
            r@ == 32,
    {
        Self(32)
    }

    /// Whether the number is above zero.
    pub fn is_positive(self) -> (r: bool)
        ensures
            r == (self@ > 0),
    {
        self.0 > 0
    }

    /// Whether the number is zero.
    pub fn is_zero(self) -> (r: bool)
        ensures
            r == (self@ == 0),
    {
        self.0 == 0
    }

    /// Whether the number is below zero.
    pub fn is_negative(self) -> (r: bool)
        ensures
            r == (self@ < 0),
    {
        self.0 < 0
    }

    /// Evaluates the edge function of the edge from `(ax, ay)` to `(bx, by)`
    /// at `(px, py)`. The four coordinate differences it takes must each fit
    /// the 12.4 format.
    pub fn edge_function(ax: Q12p4, ay: Q12p4, bx: Q12p4, by: Q12p4, px: Q12p4, py: Q12p4) -> (r:
        Self)
        requires
            Q12p4::fits(px@ - ax@),
            Q12p4::fits(by@ - ay@),
            Q12p4::fits(py@ - ay@),
            Q12p4::fits(bx@ - ax@),
        ensures
            r@ == edge_value(ax@, ay@, bx@, by@, px@, py@),
    {
        let u = (px - ax) * (by - ay);
        let v = (py - ay) * (bx - ax);
        proof {
            lemma_product_bound(px@ - ax@, by@ - ay@);
            lemma_product_bound(py@ - ay@, bx@ - ax@);
        }
        u - v
    }
}

/// The product of two 12.4 numbers, rounded down to a sixteenth, stays well
/// inside the 24.4 format.
pub proof fn lemma_product_bound(a: int, b: int)
    requires
        Q12p4::fits(a),
        Q12p4::fits(b),
    ensures
        -0x400_0000 <= floor16(a * b) <= 0x400_0000,
{
    assert(-0x4000_0000 <= a * b <= 0x4000_0000) by (nonlinear_arith)
        requires
            -0x8000 <= a <= 0x7fff,
            -0x8000 <= b <= 0x7fff,
    ;
}

/// The sum with a 12.4 number, sign-extended; it must fit the 32 bits.
impl Add<Q12p4> for Q24p4 {
    type Output = Q24p4;

    fn add(self, rhs: Q12p4) -> (r: Self::Output) {
        Self(self.0 + (rhs.0 as i32))
    }
}

/// What `+` with a 12.4 number means in contracts.
impl AddSpecImpl<Q12p4> for Q24p4 {
    open spec fn obeys_add_spec() -> bool {
        true
    }

    open spec fn add_req(self, rhs: Q12p4) -> bool {
        Q24p4::fits(self@ + rhs@)
    }

    open spec fn add_spec(self, rhs: Q12p4) -> Self::Output {
        Q24p4((self.0 + rhs.0) as i32)
    }
}

/// The sum, which must fit the 32 bits.
impl Add<Q24p4> for Q24p4 {
    type Output = Q24p4;

    fn add(self, rhs: Q24p4) -> (r: Self::Output) {
        Self(self.0 + rhs.0)
    }
}

/// What `+` means in contracts.
impl AddSpecImpl<Q24p4> for Q24p4 {
    open spec fn obeys_add_spec() -> bool {
        true
    }

    open spec fn add_req(self, rhs: Q24p4) -> bool {
        Q24p4::fits(self@ + rhs@)
    }

    open spec fn add_spec(self, rhs: Q24p4) -> Self::Output {
        Q24p4((self.0 + rhs.0) as i32)
    }
}

/// Addition of a 12.4 number in place; the sum must fit the 32 bits.
impl AddAssign<Q12p4> for Q24p4 {
    fn add_assign(&mut self, rhs: Q12p4)
        requires
            Q24p4::fits(old(self)@ + rhs@),
        ensures
            final(self)@ == old(self)@ + rhs@,
    {
        self.0 = self.0 + (rhs.0 as i32);
    }
}

/// The difference, which must fit the 32 bits.
impl Sub for Q24p4 {
    type Output = Q24p4;

    fn sub(self, rhs: Self) -> (r: Self::Output) {
        Self(self.0 - rhs.0)
    }
}

/// What `-` means in contracts.
impl SubSpecImpl for Q24p4 {
    open spec fn obeys_sub_spec() -> bool {
        true
    }

    open spec fn sub_req(self, rhs: Self) -> bool {
        Q24p4::fits(self@ - rhs@)
    }

    open spec fn sub_spec(self, rhs: Self) -> Self::Output {
        Q24p4((self.0 - rhs.0) as i32)
    }
}

/// The product: the 64-bit product of the two, rounded down to a sixteenth
/// and held to the 32 bits.
impl Mul for Q24p4 {
    type Output = Q24p4;

    fn mul(self, rhs: Self) -> (r: Self::Output) {
        let a: i64 = self.0 as i64;
        let b: i64 = rhs.0 as i64;
        assert(-0x4000_0000_0000_0000 <= a * b <= 0x4000_0000_0000_0000) by (nonlinear_arith)
            requires
                -0x8000_0000 <= a <= 0x7fff_ffff,
                -0x8000_0000 <= b <= 0x7fff_ffff,
        ;
        let p: i64 = a * b;
        assert((p >> 4u32) == p / 16) by (bit_vector);
        let q: i64 = p >> 4;
        if q < -0x8000_0000 {
            Self(i32::MIN)
        } else if q > 0x7fff_ffff {
            Self(i32::MAX)
        } else {
            Self(q as i32)
        }
    }
}

/// What `*` means in contracts.
impl MulSpecImpl for Q24p4 {
    open spec fn obeys_mul_spec() -> bool {
        true
    }

    open spec fn mul_req(self, rhs: Self) -> bool {
        true
    }

    /// The product in sixteenths, rounded down, held to the 32 bits.
    open spec fn mul_spec(self, rhs: Self) -> Self::Output {
        Q24p4(clamp(floor16(self@ * rhs@), i32::MIN as int, i32::MAX as int) as i32)
    }
}

/// The quotient, rounded toward zero and held to the 32 bits.
impl Div for Q24p4 {
    type Output = Q24p4;

    fn div(self, rhs: Self) -> (r: Self::Output) {
        Self(divide_i32(16 * (self.0 as i64), rhs.0 as i64, Rounding::TowardZero))
    }
}

/// What `/` means in contracts.
impl DivSpecImpl for Q24p4 {
    open spec fn obeys_div_spec() -> bool {
        true
    }

    open spec fn div_req(self, rhs: Self) -> bool {
        true
    }

    /// The quotient in sixteenths, rounded toward zero and held to the 32
    /// bits; a zero divisor gives the rail.
    open spec fn div_spec(self, rhs: Self) -> Self::Output {
        Q24p4(
            divide(16 * self@, rhs@, Rounding::TowardZero, i32::MIN as int, i32::MAX as int) as i32,
        )
    }
}

/// The negative; the least number of the format has none.
impl Neg for Q24p4 {
    type Output = Q24p4;

    fn neg(self) -> (r: Self::Output) {
        Self(-self.0)
    }
}

/// What the unary `-` means in contracts.
impl NegSpecImpl for Q24p4 {
    open spec fn obeys_neg_spec() -> bool {
        true
    }

    open spec fn neg_req(self) -> bool {
        self@ != i32::MIN
    }

    open spec fn neg_spec(self) -> Self::Output {
        Q24p4((-self.0) as i32)
    }
}

/// A 12.4 number as a 24.4 number of the same value.
impl From<Q12p4> for Q24p4 {
    fn from(x: Q12p4) -> (r: Self) {
        Self(x.0 as i32)
    }
}

/// What the conversion means in contracts.
impl FromSpecImpl<Q12p4> for Q24p4 {
    open spec fn obeys_from_spec() -> bool {
        true
    }

    /// The same number of sixteenths, sign-extended.
    open spec fn from_spec(x: Q12p4) -> Self {
        Q24p4(x.0 as i32)
    }
}

} // verus!
