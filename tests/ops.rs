use microflow::activation::{requantize, FusedActivation};
use microflow::ops::argmax;
use microflow::ops::average_pool_2d::{average_pool_2d_sums, AveragePool2DOptions};
use microflow::ops::conv_2d::{conv_2d_accumulators, Conv2DOptions};
use microflow::ops::depthwise_conv_2d::{depthwise_conv_2d_accumulators, DepthwiseConv2DOptions};
use microflow::ops::fully_connected::{fully_connected_accumulators, fully_connected_constants};
use microflow::tensor::{Tensor2D, Tensor4D, TensorViewPadding};

fn input_4d() -> Tensor4D<i8, f32> {
    Tensor4D::new(
        vec![vec![
            vec![vec![1, 2], vec![3, 4], vec![5, 6]],
            vec![vec![7, 8], vec![9, 10], vec![11, 12]],
        ]],
        vec![0.13],
        vec![14],
    )
}

fn round_to_i32(v: f32) -> i32 {
    v.round() as i32
}

#[test]
fn fully_connected_layer() {
    let input = Tensor2D::new(vec![vec![1i8, 2, 3], vec![4, 5, 6]], vec![0.7f32], vec![8i8]);
    let weights = Tensor2D::new(
        vec![vec![9i8, 10, 11, 12], vec![13, 14, 15, 16], vec![17, 18, 19, 20]],
        vec![0.21f32],
        vec![22i8],
    );
    let constants_0 = [-4.655_172_3f32, -3.724_138, -2.793_103_5, -1.862_069];
    let constants_1 = 0.506_896_56f32;
    let constants_2 = vec![312i64, 336, 360, 384];
    let constants_3 = 528i64;
    let output_zero_point = 30i8;
    let acc = fully_connected_accumulators(&input, &weights, &constants_2, constants_3);
    let mut output = vec![vec![0i8; 4]; 2];
    for i in 0..2 {
        for j in 0..4 {
            let y = round_to_i32(
                output_zero_point as f32 + constants_0[j] + constants_1 * acc[i][j] as f32,
            );
            output[i][j] = requantize(y, FusedActivation::Relu, 127, output_zero_point);
        }
    }
    assert_eq!(output, vec![vec![112, 103, 95, 87], vec![70, 67, 63, 60]]);
}

#[test]
fn fully_connected_folded_constants() {
    let weights = Tensor2D::new(
        vec![vec![9i8, 10, 11, 12], vec![13, 14, 15, 16], vec![17, 18, 19, 20]],
        vec![0.21f32],
        vec![22i8],
    );
    let (constants_2, constants_3) = fully_connected_constants(8i8, &weights);
    assert_eq!(constants_2, vec![312, 336, 360, 384]);
    assert_eq!(constants_3, 528);
}

#[test]
fn fully_connected_preprocess() {
    // Weights stored 2 x 3 with zero point 8, input zero point 18.
    let weights = Tensor2D::new(vec![vec![1i8, 2, 3], vec![4, 5, 6]], vec![0.7f32], vec![8i8]);
    let (constants_2, constants_3) = fully_connected_constants(18i8, &weights);
    assert_eq!(constants_2, vec![90, 126, 162]);
    assert_eq!(constants_3, 288);
}

#[test]
fn fully_connected_folded_equals_centered_dot() {
    let input = Tensor2D::new(vec![vec![-3i8, 7, 100], vec![4, -128, 6]], vec![1f32], vec![-5i8]);
    let weights = Tensor2D::new(
        vec![vec![1i8, -2], vec![127, 0], vec![-9, 33]],
        vec![1f32],
        vec![3i8],
    );
    let (c2, c3) = fully_connected_constants(input.zero_point[0], &weights);
    let acc = fully_connected_accumulators(&input, &weights, &c2, c3);
    for i in 0..2 {
        for j in 0..2 {
            let expected: i64 = (0..3)
                .map(|k| (input.buffer[i][k] as i64 + 5) * (weights.buffer[k][j] as i64 - 3))
                .sum();
            assert_eq!(acc[i][j], expected);
        }
    }
}

#[test]
fn fully_connected_identity_reproduces_input() {
    let input = Tensor2D::new(vec![vec![12i8, -40, 99]], vec![0.5f32], vec![-3i8]);
    let weights = Tensor2D::new(
        vec![vec![1i8, 0, 0], vec![0, 1, 0], vec![0, 0, 1]],
        vec![1f32],
        vec![0i8],
    );
    let (c2, c3) = fully_connected_constants(input.zero_point[0], &weights);
    let acc = fully_connected_accumulators(&input, &weights, &c2, c3);
    for j in 0..3 {
        assert_eq!(acc[0][j], input.buffer[0][j] as i64 + 3);
        let y = round_to_i32(-3. + acc[0][j] as f32);
        assert_eq!(requantize(y, FusedActivation::Identity, 0, -3i8), input.buffer[0][j]);
    }
}

#[test]
fn depthwise_conv_2d_layer() {
    let weights = Tensor4D::new(
        vec![vec![
            vec![vec![15i8, 16], vec![17, 18], vec![19, 20]],
            vec![vec![21, 22], vec![23, 24], vec![25, 26]],
        ]],
        vec![0.27f32, 0.28],
        vec![29i8, 30],
    );
    let options = DepthwiseConv2DOptions {
        fused_activation: FusedActivation::Identity,
        view_padding: TensorViewPadding::Same,
        strides: (1, 1),
    };
    let constants_0 = [-3.567_567_6f32, -3.675_675_7];
    let constants_1 = [0.094_864_86f32, 0.098_378_378];
    let output_zero_point = 38i8;
    let acc = depthwise_conv_2d_accumulators(&input_4d(), &weights, options, 2, 3);
    let mut output = vec![vec![vec![0i8; 2]; 3]; 2];
    for i in 0..2 {
        for j in 0..3 {
            for c in 0..2 {
                let y = round_to_i32(
                    output_zero_point as f32 + constants_0[c] + constants_1[c] * acc[0][i][j][c] as f32,
                );
                output[i][j][c] = requantize(y, options.fused_activation, 127, output_zero_point);
            }
        }
    }
    assert_eq!(
        output,
        vec![
            vec![vec![66, 63], vec![82, 78], vec![65, 62]],
            vec![vec![47, 45], vec![52, 49], vec![44, 42]],
        ]
    );
}

#[test]
fn depthwise_unit_filter_reproduces_input() {
    let input = input_4d();
    let weights = Tensor4D::new(vec![vec![vec![vec![1i8, 1]]]], vec![1f32, 1.], vec![0i8, 0]);
    let options = DepthwiseConv2DOptions {
        fused_activation: FusedActivation::Identity,
        view_padding: TensorViewPadding::Valid,
        strides: (1, 1),
    };
    let acc = depthwise_conv_2d_accumulators(&input, &weights, options, 2, 3);
    for i in 0..2 {
        for j in 0..3 {
            for c in 0..2 {
                assert_eq!(acc[0][i][j][c], input.buffer[0][i][j][c] as i64 - 14);
                let y = round_to_i32(14. + acc[0][i][j][c] as f32);
                assert_eq!(requantize(y, FusedActivation::Identity, 0, 14i8), input.buffer[0][i][j][c]);
            }
        }
    }
}

fn conv_2d_output(finish: fn(f32) -> i32) -> Vec<Vec<Vec<i8>>> {
    let filters = Tensor4D::new(
        vec![
            vec![
                vec![vec![15i8, 16], vec![17, 18], vec![19, 20]],
                vec![vec![21, 22], vec![23, 24], vec![25, 26]],
            ],
            vec![
                vec![vec![27, 28], vec![29, 30], vec![31, 32]],
                vec![vec![33, 34], vec![35, 36], vec![37, 38]],
            ],
        ],
        vec![0.39f32, 0.40],
        vec![41i8, 42],
    );
    let options = Conv2DOptions {
        fused_activation: FusedActivation::Identity,
        view_padding: TensorViewPadding::Same,
        strides: (1, 1),
    };
    let constants_0 = [-3.673_469_4f32, -3.755_102];
    let constants_1 = [0.103_469_39f32, 0.106_122_45];
    let output_zero_point = 50i8;
    let acc = conv_2d_accumulators(&input_4d(), &filters, options, 2, 3);
    let mut output = vec![vec![vec![0i8; 2]; 3]; 2];
    for i in 0..2 {
        for j in 0..3 {
            for b in 0..2 {
                let y = finish(
                    output_zero_point as f32 + constants_0[b] + constants_1[b] * acc[0][i][j][b] as f32,
                );
                output[i][j][b] = requantize(y, options.fused_activation, 127, output_zero_point);
            }
        }
    }
    output
}

/// These expected values truncate the scaled accumulator toward zero;
/// `conv_2d_layer_rounded` rounds it half away from zero, as the kernels do.
#[test]
fn conv_2d_layer() {
    assert_eq!(
        conv_2d_output(|v| v as i32),
        vec![
            vec![vec![127, 116], vec![127, 127], vec![127, 112]],
            vec![vec![98, 73], vec![113, 83], vec![82, 66]],
        ]
    );
}

#[test]
fn conv_2d_layer_rounded() {
    assert_eq!(
        conv_2d_output(round_to_i32),
        vec![
            vec![vec![127, 116], vec![127, 127], vec![127, 113]],
            vec![vec![98, 74], vec![114, 84], vec![82, 67]],
        ]
    );
}

#[test]
fn average_pool_2d_layer() {
    let options = AveragePool2DOptions {
        fused_activation: FusedActivation::Identity,
        view_padding: TensorViewPadding::Same,
        strides: (1, 1),
    };
    let constants = (0.866_666_7f32, 3.866_666_6f32);
    let output_zero_point = 16i8;
    let (sums, counts) = average_pool_2d_sums(&input_4d(), (2, 3), options, 2, 3);
    let mut output = vec![vec![vec![0i8; 2]; 3]; 2];
    for i in 0..2 {
        for j in 0..3 {
            for c in 0..2 {
                let mean = 1. / counts[i][j] as f32 * sums[0][i][j][c] as f32;
                let y = round_to_i32(constants.0 * mean + constants.1);
                output[i][j][c] = requantize(y, options.fused_activation, 127, output_zero_point);
            }
        }
    }
    assert_eq!(
        output,
        vec![
            vec![vec![8, 9], vec![9, 10], vec![10, 11]],
            vec![vec![11, 12], vec![12, 13], vec![13, 13]],
        ]
    );
}

#[test]
fn average_pool_unit_filter_sums_single_pixel() {
    let options = AveragePool2DOptions {
        fused_activation: FusedActivation::Identity,
        view_padding: TensorViewPadding::Same,
        strides: (1, 1),
    };
    let input = input_4d();
    let (sums, counts) = average_pool_2d_sums(&input, (1, 1), options, 2, 3);
    for i in 0..2 {
        for j in 0..3 {
            assert_eq!(counts[i][j], 1);
            for c in 0..2 {
                assert_eq!(sums[0][i][j][c], input.buffer[0][i][j][c] as i64);
            }
        }
    }
}

#[test]
fn average_pool_same_corner_counts_valid_cells() {
    let options = AveragePool2DOptions {
        fused_activation: FusedActivation::Identity,
        view_padding: TensorViewPadding::Same,
        strides: (1, 1),
    };
    let (sums, counts) = average_pool_2d_sums(&input_4d(), (3, 3), options, 2, 3);
    assert_eq!(counts[0][0], 4);
    assert_eq!(sums[0][0][0][0], 1 + 3 + 7 + 9);
    assert_eq!(counts[0][1], 6);
}

#[test]
fn argmax_first_largest() {
    assert_eq!(argmax(&vec![3i8, -4, 9, 9, 2]), 2);
    assert_eq!(argmax(&vec![200u8]), 0);
    assert_eq!(argmax(&vec![-128i8, -128]), 0);
}
