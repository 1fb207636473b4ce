use vstd::prelude::*;

verus! {

/// Smallest value of `i8`, the widest range among the quantized element types.
pub open spec fn widest_min() -> int {
    -128
}

/// Largest value of `u8`, the widest range among the quantized element types.
pub open spec fn widest_max() -> int {
    255
}

/// `v` clamped into `[lo, hi]`.
pub open spec fn clamp(v: int, lo: int, hi: int) -> int {
    if v < lo {
        lo
    } else if v > hi {
        hi
    } else {
        v
    }
}

/// An 8-bit quantized element type: `i8` or `u8`.
///
/// `value` is the integer an element stands for; it determines the element.
pub trait Quantized: Copy + Sized {
    spec fn value(self) -> int;

    spec fn min_value() -> int;

    spec fn max_value() -> int;

    proof fn lemma_range(x: Self)
        ensures
            Self::min_value() <= x.value() <= Self::max_value(),
            widest_min() <= Self::min_value() <= 0,
            0 < Self::max_value() <= widest_max(),
    ;

    proof fn lemma_injective(x: Self, y: Self)
        requires
            x.value() == y.value(),
        ensures
            x == y,
    ;

    fn to_i32(self) -> (r: i32)
        ensures
            r == self.value(),
    ;

    /// The value of the element stored in the byte `b`.
    spec fn of_byte(b: u8) -> int;

    /// The element stored in the byte `b`.
    fn from_byte(b: u8) -> (r: Self)
        ensures
            r.value() == Self::of_byte(b),
    ;

    /// The element that stands for zero.
    fn zero() -> (r: Self)
        ensures
            r.value() == 0,
    ;

    /// The element nearest to `v`: `v` saturated to the element's range.
    fn saturating_from_i32(v: i32) -> (r: Self)
        ensures
            r.value() == clamp(v as int, Self::min_value(), Self::max_value()),
    ;
}

impl Quantized for i8 {
    open spec fn value(self) -> int {
        self as int
    }

    open spec fn min_value() -> int {
        i8::MIN as int
    }

    open spec fn max_value() -> int {
        i8::MAX as int
    }

    open spec fn of_byte(b: u8) -> int {
        if b >= 128 {
            b - 256
        } else {
            b as int
        }
    }

    proof fn lemma_range(x: Self) {
    }

    proof fn lemma_injective(x: Self, y: Self) {
    }

    fn to_i32(self) -> (r: i32) {
        self as i32
    }

    fn from_byte(b: u8) -> (r: Self) {
        if b >= 128 {
            (b as i16 - 256) as i8
        } else {
            b as i8
        }
    }

    fn zero() -> (r: Self) {
        0
    }

    fn saturating_from_i32(v: i32) -> (r: Self) {
        if v < i8::MIN as i32 {
            i8::MIN
        } else if v > i8::MAX as i32 {
            i8::MAX
        } else {
            v as i8
        }
    }
}

impl Quantized for u8 {
    open spec fn value(self) -> int {
        self as int
    }

    open spec fn min_value() -> int {
        0
    }

    open spec fn max_value() -> int {
        u8::MAX as int
    }

    open spec fn of_byte(b: u8) -> int {
        b as int
    }

    proof fn lemma_range(x: Self) {
    }

    proof fn lemma_injective(x: Self, y: Self) {
    }

    fn to_i32(self) -> (r: i32) {
        self as i32
    }

    fn from_byte(b: u8) -> (r: Self) {
        b
    }

    fn zero() -> (r: Self) {
        0
    }

    fn saturating_from_i32(v: i32) -> (r: Self) {
        if v < 0 {
            0
        } else if v > u8::MAX as i32 {
            u8::MAX
        } else {
            v as u8
        }
    }
}

/// The element of type `T` nearest to the rounded value `v`.
///
/// This is the integer half of quantization: the caller divides by the scale,
/// rounds half away from zero and adds the zero point; this function saturates
/// the result to the element's representable range.
pub fn saturate<T: Quantized>(v: i32) -> (r: T)
    ensures
        r.value() == clamp(v as int, T::min_value(), T::max_value()),
{
    T::saturating_from_i32(v)
}

} // verus!
