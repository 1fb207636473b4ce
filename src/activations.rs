use vstd::prelude::*;

use crate::activation::max_int;

verus! {

/// The activations of the fully connected kernel on signed elements.
#[derive(Clone, Copy, Debug, PartialEq, Eq, Structural)]
#[allow(non_camel_case_types)]
pub enum ActivationType {
    NONE,
    RELU,
    RELU6,
}

/// Rectified linear unit on a signed element: the larger of `input` and the
/// zero point.
pub fn relu(input: i8, zero_point: i8) -> (r: i8)
    ensures
        r as int == max_int(input as int, zero_point as int),
        r >= zero_point,
{
    if input >= zero_point {
        input
    } else {
        zero_point
    }
}

} // verus!
