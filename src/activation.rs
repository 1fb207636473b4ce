use vstd::prelude::*;

use crate::quantize::{clamp, Quantized};

verus! {

/// The activation fused at the output of a linear operator.
#[derive(Clone, Copy, Debug, PartialEq, Eq, Structural)]
pub enum FusedActivation {
    Identity,
    Relu,
    Relu6,
}

pub open spec fn max_int(a: int, b: int) -> int {
    if a >= b {
        a
    } else {
        b
    }
}

pub open spec fn min_int(a: int, b: int) -> int {
    if a <= b {
        a
    } else {
        b
    }
}

/// Rectified linear unit in the quantized domain: the dequantized value is
/// clamped at zero, that is the element is clamped at the zero point.
pub fn relu<T: Quantized>(input: T, zero_point: T) -> (r: T)
    ensures
        r.value() == max_int(input.value(), zero_point.value()),
        r.value() >= zero_point.value(),
{
    if input.to_i32() >= zero_point.to_i32() {
        input
    } else {
        zero_point
    }
}

/// `relu` additionally clamped at six; `six` is the quantized value of `6.0`
/// under the output's scale and zero point.
pub fn relu6<T: Quantized>(input: T, six: T, zero_point: T) -> (r: T)
    ensures
        r.value() == min_int(max_int(input.value(), zero_point.value()), six.value()),
        r.value() <= six.value(),
{
    let y = relu(input, zero_point);
    if y.to_i32() <= six.to_i32() {
        y
    } else {
        six
    }
}

/// What `activation` makes of the element `v`.
pub open spec fn activated(
    activation: FusedActivation,
    v: int,
    zero_point: int,
    six: int,
) -> int {
    match activation {
        FusedActivation::Identity => v,
        FusedActivation::Relu => max_int(v, zero_point),
        FusedActivation::Relu6 => min_int(max_int(v, zero_point), six),
    }
}

/// Applies the fused activation to an element.
pub fn activate<T: Quantized>(
    activation: FusedActivation,
    input: T,
    six: T,
    zero_point: T,
) -> (r: T)
    ensures
        r.value() == activated(activation, input.value(), zero_point.value(), six.value()),
{
    match activation {
        FusedActivation::Identity => input,
        FusedActivation::Relu => relu(input, zero_point),
        FusedActivation::Relu6 => relu6(input, six, zero_point),
    }
}

/// The last integer step of every linear kernel: the rounded output value `y`
/// is saturated to the element type, then the fused activation is applied.
pub fn requantize<T: Quantized>(
    y: i32,
    activation: FusedActivation,
    six: T,
    zero_point: T,
) -> (r: T)
    ensures
        r.value() == activated(
            activation,
            clamp(y as int, T::min_value(), T::max_value()),
            zero_point.value(),
            six.value(),
        ),
{
    let q: T = T::saturating_from_i32(y);
    activate(activation, q, six, zero_point)
}

} // verus!
