//! The 12.4 format: screen coordinates and edge increments.

use crate::arith::floor16;
use crate::q24p4::Q24p4;
use core::ops::Add;
use core::ops::AddAssign;
use core::ops::Mul;
use core::ops::Neg;
use core::ops::Shl;
use core::ops::Sub;
use vstd::prelude::*;
use vstd::std_specs::ops::AddSpecImpl;
use vstd::std_specs::ops::MulSpecImpl;
use vstd::std_specs::ops::NegSpecImpl;
use vstd::std_specs::ops::ShlSpec;
use vstd::std_specs::ops::ShlSpecImpl;
use vstd::std_specs::ops::SubSpecImpl;

verus! {

/// A signed 16-bit number counted in sixteenths: twelve integer bits and
/// four fractional bits.
#[derive(Clone, Copy, Debug, PartialEq, Eq, Structural, PartialOrd, Ord)]
pub struct Q12p4(pub i16);

impl View for Q12p4 {
    type V = int;

    /// The number of sixteenths held.
    open spec fn view(&self) -> int {
        self.0 as int
    }
}

impl Q12p4 {
    /// Whether `v` sixteenths can be held.
    pub open spec fn fits(v: int) -> bool {
        i16::MIN <= v <= i16::MAX
    }

    /// One half.
    pub fn half() -> (r: Self)
        ensures
            r@ == 8,
    {
        Self(8)
    }

    /// Zero.
    pub fn zero() -> (r: Self)
        ensures
            r@ == 0,
    {
        Self(0)
    }

    /// One.
    pub fn one() -> (r: Self)
        ensures
            r@ == 16,
    {
        Self(16)
    }

    /// Two.
    pub fn two() -> (r: Self)
        ensures
            r@ == 32,
    {
        Self(32)
    }

    /// Whether the number is above zero.
    pub fn is_positive(self) -> (r: bool)
        ensures
            r == (self@ > 0),
    {
        self.0 > 0
    }

    /// Whether the number is zero.
    pub fn is_zero(self) -> (r: bool)
        ensures
            r == (self@ == 0),
    {
        self.0 == 0
    }

    /// Whether the number is below zero.
    pub fn is_negative(self) -> (r: bool)
        ensures
            r == (self@ < 0),
    {
        self.0 < 0
    }

    /// The whole part: the largest integer not above the value.
    pub fn truncate(self) -> (r: i16)
        ensures
            r == floor16(self@),
    {
        let v: i16 = self.0;
        assert((v >> 4u32) == v / 16) by (bit_vector);
        v >> 4
    }
}

/// The sum, which must fit the sixteen bits.
impl Add for Q12p4 {
    type Output = Q12p4;

    fn add(self, rhs: Self) -> (r: Self::Output) {
        Self(self.0 + rhs.0)
    }
}

/// What `+` means in contracts.
impl AddSpecImpl for Q12p4 {
    open spec fn obeys_add_spec() -> bool {
        true
    }

    open spec fn add_req(self, rhs: Self) -> bool {
        Q12p4::fits(self@ + rhs@)
    }

    open spec fn add_spec(self, rhs: Self) -> Self::Output {
        Q12p4((self.0 + rhs.0) as i16)
    }
}

/// Addition in place; the sum must fit the sixteen bits.
impl AddAssign<Q12p4> for Q12p4 {
    fn add_assign(&mut self, rhs: Q12p4)
        requires
            Q12p4::fits(old(self)@ + rhs@),
        ensures
            final(self)@ == old(self)@ + rhs@,
    {
        self.0 = self.0 + rhs.0;
    }
}

/// The difference, which must fit the sixteen bits.
impl Sub for Q12p4 {
    type Output = Q12p4;

    fn sub(self, rhs: Self) -> (r: Self::Output) {
        Self(self.0 - rhs.0)
    }
}

/// What `-` means in contracts.
impl SubSpecImpl for Q12p4 {
    open spec fn obeys_sub_spec() -> bool {
        true
    }

    open spec fn sub_req(self, rhs: Self) -> bool {
        Q12p4::fits(self@ - rhs@)
    }

    open spec fn sub_spec(self, rhs: Self) -> Self::Output {
        Q12p4((self.0 - rhs.0) as i16)
    }
}

/// The product as a 24.4 number: the 32-bit product of the two, rounded
/// down to a sixteenth. It cannot overflow.
impl Mul for Q12p4 {
    type Output = Q24p4;

    fn mul(self, rhs: Self) -> (r: Self::Output) {
        let a: i32 = self.0 as i32;
        let b: i32 = rhs.0 as i32;
        assert(-0x4000_0000 <= a * b <= 0x4000_0000) by (nonlinear_arith)
            requires
                -0x8000 <= a <= 0x7fff,
                -0x8000 <= b <= 0x7fff,
        ;
        let p: i32 = a * b;
        assert((p >> 4u32) == p / 16) by (bit_vector);
        Q24p4(p >> 4)
    }
}

/// What `*` means in contracts.
impl MulSpecImpl for Q12p4 {
    open spec fn obeys_mul_spec() -> bool {
        true
    }

    open spec fn mul_req(self, rhs: Self) -> bool {
        true
    }

    /// The product in sixteenths, rounded down.
    open spec fn mul_spec(self, rhs: Self) -> Self::Output {
        Q24p4(floor16(self@ * rhs@) as i32)
    }
}

/// The bits moved left by `rhs`, which is from 0 to 15.
impl Shl<i16> for Q12p4 {
    type Output = Q12p4;

    fn shl(self, rhs: i16) -> (r: Self::Output) {
        Self(self.0 << rhs)
    }
}

/// What `<<` means in contracts.
impl ShlSpecImpl<i16> for Q12p4 {
    open spec fn obeys_shl_spec() -> bool {
        true
    }

    open spec fn shl_req(self, rhs: i16) -> bool {
        0 <= rhs < 16
    }

    /// The bits moved left; what leaves the sixteen bits is lost.
    open spec fn shl_spec(self, rhs: i16) -> Self::Output {
        Q12p4(self.0 << rhs)
    }
}

/// The negative; the least number of the format has none.
impl Neg for Q12p4 {
    type Output = Q12p4;

    fn neg(self) -> (r: Self::Output) {
        Self(-self.0)
    }
}

/// What the unary `-` means in contracts.
impl NegSpecImpl for Q12p4 {
    open spec fn obeys_neg_spec() -> bool {
        true
    }

    open spec fn neg_req(self) -> bool {
        self@ != i16::MIN
    }

    open spec fn neg_spec(self) -> Self::Output {
        Q12p4((-self.0) as i16)
    }
}

/// A left shift by one doubles a value that has room for it.
pub proof fn lemma_shl_one(v: Q12p4)
    requires
        Q12p4::fits(2 * v@),
    ensures
        ShlSpec::shl_spec(v, 1i16)@ == 2 * v@,
{
    let x: i16 = v.0;
    assert((x << 1i16) == 2 * x) by (bit_vector)
        requires
            -0x4000 <= x <= 0x3fff,
    ;
}

} // verus!
