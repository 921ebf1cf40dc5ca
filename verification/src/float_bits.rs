//! IEEE-754 numbers held as their bit patterns.
//!
//! The library never computes with floating point; it only carries numbers
//! from the wire to the caller and back. Equality follows IEEE-754, as the
//! `==` of `f32` and `f64` does: a NaN equals nothing, not even itself, and
//! positive and negative zero are equal.
use vstd::prelude::*;
use vstd::std_specs::cmp::PartialEqSpecImpl;

verus! {

/// An IEEE-754 single-precision number, held as its bit pattern.
#[derive(Debug, Clone, Copy)]
pub struct F32Bits(pub u32);

/// An IEEE-754 double-precision number, held as its bit pattern.
#[derive(Debug, Clone, Copy)]
pub struct F64Bits(pub u64);

/// The single-precision pattern `b` is a NaN: all exponent bits set, nonzero fraction.
pub open spec fn f32_is_nan(b: u32) -> bool {
    b & 0x7F80_0000 == 0x7F80_0000 && b & 0x007F_FFFF != 0
}

/// The single-precision pattern `b` is a zero of either sign.
pub open spec fn f32_is_zero(b: u32) -> bool {
    b & 0x7FFF_FFFF == 0
}

/// IEEE-754 equality of two single-precision patterns.
pub open spec fn f32_ieee_eq(a: u32, b: u32) -> bool {
    !f32_is_nan(a) && !f32_is_nan(b) && (a == b || (f32_is_zero(a) && f32_is_zero(b)))
}

/// The double-precision pattern `b` is a NaN: all exponent bits set, nonzero fraction.
pub open spec fn f64_is_nan(b: u64) -> bool {
    b & 0x7FF0_0000_0000_0000 == 0x7FF0_0000_0000_0000 && b & 0x000F_FFFF_FFFF_FFFF != 0
}

/// The double-precision pattern `b` is a zero of either sign.
pub open spec fn f64_is_zero(b: u64) -> bool {
    b & 0x7FFF_FFFF_FFFF_FFFF == 0
}

/// IEEE-754 equality of two double-precision patterns.
pub open spec fn f64_ieee_eq(a: u64, b: u64) -> bool {
    !f64_is_nan(a) && !f64_is_nan(b) && (a == b || (f64_is_zero(a) && f64_is_zero(b)))
}

impl PartialEq for F32Bits {
    fn eq(&self, other: &Self) -> (r: bool) {
        let a = self.0;
        let b = other.0;
        let a_nan = a & 0x7F80_0000 == 0x7F80_0000 && a & 0x007F_FFFF != 0;
        let b_nan = b & 0x7F80_0000 == 0x7F80_0000 && b & 0x007F_FFFF != 0;
        !a_nan && !b_nan && (a == b || (a & 0x7FFF_FFFF == 0 && b & 0x7FFF_FFFF == 0))
    }
}

impl PartialEqSpecImpl for F32Bits {
    open spec fn obeys_eq_spec() -> bool {
        true
    }

    open spec fn eq_spec(&self, other: &F32Bits) -> bool {
        f32_ieee_eq(self.0, other.0)
    }
}

impl PartialEq for F64Bits {
    fn eq(&self, other: &Self) -> (r: bool) {
        let a = self.0;
        let b = other.0;
        let a_nan = a & 0x7FF0_0000_0000_0000 == 0x7FF0_0000_0000_0000
            && a & 0x000F_FFFF_FFFF_FFFF != 0;
        let b_nan = b & 0x7FF0_0000_0000_0000 == 0x7FF0_0000_0000_0000
            && b & 0x000F_FFFF_FFFF_FFFF != 0;
        !a_nan && !b_nan && (a == b || (a & 0x7FFF_FFFF_FFFF_FFFF == 0 && b & 0x7FFF_FFFF_FFFF_FFFF
            == 0))
    }
}

impl PartialEqSpecImpl for F64Bits {
    open spec fn obeys_eq_spec() -> bool {
        true
    }

    open spec fn eq_spec(&self, other: &F64Bits) -> bool {
        f64_ieee_eq(self.0, other.0)
    }
}

} // verus!
