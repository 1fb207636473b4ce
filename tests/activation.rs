use microflow::activation::{activate, relu, relu6, requantize, FusedActivation};
use microflow::activations;
use microflow::quantize::saturate;

const SCALE: f32 = 0.1;
const ZERO_POINT: i8 = 2;

const RELU_INACTIVE_INPUT: i8 = 1;
const RELU_ACTIVE_INPUT: i8 = 3;

const RELU6_SATURATED_INPUT: i8 = 63;
const RELU6_SATURATION_POINT: i8 = 62;

fn quantized_six(scale: f32, zero_point: i8) -> i8 {
    saturate::<i8>((6. / scale).round() as i32 + zero_point as i32)
}

#[test]
fn relu_inactive() {
    assert_eq!(relu(RELU_INACTIVE_INPUT, ZERO_POINT), ZERO_POINT);
}

#[test]
fn relu_active() {
    assert_eq!(relu(RELU_ACTIVE_INPUT, ZERO_POINT), RELU_ACTIVE_INPUT);
}

#[test]
fn relu6_saturated() {
    let six = quantized_six(SCALE, ZERO_POINT);
    assert_eq!(relu6(RELU6_SATURATED_INPUT, six, ZERO_POINT), RELU6_SATURATION_POINT);
}

#[test]
fn relu6_between_zero_and_six() {
    let six = quantized_six(SCALE, ZERO_POINT);
    assert_eq!(relu6(40i8, six, ZERO_POINT), 40);
    assert_eq!(relu6(-7i8, six, ZERO_POINT), ZERO_POINT);
}

#[test]
fn relu_never_below_zero_point() {
    for q in i8::MIN..=i8::MAX {
        assert!(relu(q, ZERO_POINT) >= ZERO_POINT);
        assert!(relu(q as u8, 128u8) >= 128);
    }
}

#[test]
fn relu6_never_above_six() {
    let six = quantized_six(SCALE, ZERO_POINT);
    for q in i8::MIN..=i8::MAX {
        assert!(relu6(q, six, ZERO_POINT) <= six);
    }
}

#[test]
fn signed_relu_of_activations_module() {
    assert_eq!(activations::relu(-5, 0), 0);
    assert_eq!(activations::relu(5, 0), 5);
    assert_eq!(activations::relu(1, 2), 2);
}

#[test]
fn activate_each_kind() {
    assert_eq!(activate(FusedActivation::Identity, -9i8, 50, 0), -9);
    assert_eq!(activate(FusedActivation::Relu, -9i8, 50, 0), 0);
    assert_eq!(activate(FusedActivation::Relu6, 90i8, 50, 0), 50);
}

#[test]
fn saturate_to_element_range() {
    assert_eq!(saturate::<i8>(200), 127);
    assert_eq!(saturate::<i8>(-200), -128);
    assert_eq!(saturate::<i8>(-7), -7);
    assert_eq!(saturate::<u8>(-5), 0);
    assert_eq!(saturate::<u8>(300), 255);
    assert_eq!(saturate::<u8>(77), 77);
}

#[test]
fn requantize_saturates_then_activates() {
    assert_eq!(requantize::<i8>(1000, FusedActivation::Identity, 0, 0), 127);
    assert_eq!(requantize::<i8>(-1000, FusedActivation::Relu, 0, -3), -3);
    assert_eq!(requantize::<u8>(400, FusedActivation::Relu6, 200, 10), 200);
}

#[test]
fn quantize_value_through_saturation() {
    // round(1.0 / 0.2) + 3
    let q = saturate::<i8>((1f32 / 0.2).round() as i32 + 3);
    assert_eq!(q, 8);
}
