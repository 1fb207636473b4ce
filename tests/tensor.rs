use microflow::ops::reshape::reshape;
use microflow::tensor::{Tensor2D, Tensor4D, TensorViewPadding};

fn buffer_4d() -> Vec<Vec<Vec<Vec<i8>>>> {
    vec![
        vec![
            vec![vec![30, 34], vec![38, 42], vec![46, 50]],
            vec![vec![54, 58], vec![62, 66], vec![70, 74]],
        ],
        vec![
            vec![vec![78, 82], vec![86, 90], vec![94, 98]],
            vec![vec![102, 106], vec![110, 114], vec![118, 122]],
        ],
    ]
}

fn buffer_4d_as_2d() -> Vec<Vec<i8>> {
    vec![
        vec![30, 34, 38, 42, 46, 50, 54, 58, 62, 66, 70, 74],
        vec![78, 82, 86, 90, 94, 98, 102, 106, 110, 114, 118, 122],
    ]
}

#[test]
fn tensor_2d_new() {
    let buffer = vec![vec![9i8, 11, 12], vec![14, 15, 17]];
    let tensor = Tensor2D::new(buffer.clone(), vec![0.7f32], vec![8i8]);
    assert_eq!(tensor.buffer, buffer);
    assert_eq!(tensor.scale, vec![0.7f32]);
    assert_eq!(tensor.zero_point, vec![8i8]);
}

#[test]
fn tensor_4d_new() {
    let tensor = Tensor4D::new(buffer_4d(), vec![0.25f32], vec![26i8]);
    assert_eq!(tensor.buffer, buffer_4d());
    assert_eq!(tensor.scale, vec![0.25f32]);
    assert_eq!(tensor.zero_point, vec![26i8]);
}

#[test]
fn tensor_4d_view() {
    let tensor = Tensor4D::new(buffer_4d(), vec![0.25f32], vec![26i8]);
    let view = tensor.view((1, 1), 0, TensorViewPadding::Same, (1, 1), 2, 3);
    assert_eq!(
        view.buffer,
        vec![
            vec![vec![54, 58], vec![62, 66], vec![70, 74]],
            vec![vec![0, 0], vec![0, 0], vec![0, 0]],
        ]
    );
    assert_eq!(view.mask, vec![vec![true, true, true], vec![false, false, false]]);
    assert_eq!(view.len, 3);
}

#[test]
fn tensor_2d_to_tensor_4d() {
    let tensor_2d = Tensor2D::new(buffer_4d_as_2d(), vec![0.25f32], vec![26i8]);
    let tensor_4d = Tensor4D::from_tensor_2d(tensor_2d, 2, 3, 2);
    assert_eq!(tensor_4d.buffer, buffer_4d());
}

#[test]
fn tensor_4d_to_tensor_2d() {
    let tensor_4d = Tensor4D::new(buffer_4d(), vec![0.25f32], vec![26i8]);
    let tensor_2d = Tensor2D::from_tensor_4d(tensor_4d);
    assert_eq!(tensor_2d.buffer, buffer_4d_as_2d());
}

#[test]
fn reshape_layer() {
    let input = Tensor2D::new(vec![vec![1i8, 2, 3], vec![4, 5, 6]], vec![0.7f32], vec![8i8]);
    let output = reshape(input, 1, 3, 1);
    assert_eq!(
        output.buffer,
        vec![vec![vec![vec![1], vec![2], vec![3]]], vec![vec![vec![4], vec![5], vec![6]]]]
    );
    assert_eq!(output.scale, vec![0.7f32]);
    assert_eq!(output.zero_point, vec![8i8]);
}

#[test]
fn same_view_cells_partition_window() {
    let tensor = Tensor4D::new(buffer_4d(), vec![0.25f32], vec![26i8]);
    for i in 0..2 {
        for j in 0..3 {
            let view = tensor.view((i, j), 1, TensorViewPadding::Same, (1, 1), 3, 3);
            let masked_out = view.mask.iter().flatten().filter(|m| !**m).count();
            assert_eq!(view.len + masked_out, 9);
        }
    }
}

#[test]
fn same_view_corner_is_zero_padded() {
    let tensor = Tensor4D::new(buffer_4d(), vec![0.25f32], vec![26i8]);
    let view = tensor.view((0, 0), 0, TensorViewPadding::Same, (1, 1), 3, 3);
    assert_eq!(view.len, 4);
    assert_eq!(view.mask[0], vec![false, false, false]);
    assert_eq!(view.mask[1], vec![false, true, true]);
    assert_eq!(view.buffer[1][1], vec![30, 34]);
    assert_eq!(view.buffer[2][2], vec![62, 66]);
    assert_eq!(view.buffer[0][0], vec![0, 0]);
}

#[test]
fn valid_view_has_every_cell() {
    let tensor = Tensor4D::new(buffer_4d(), vec![0.25f32], vec![26i8]);
    // Output of a 2 x 2 window with unit strides over 2 x 3: 1 x 2 positions.
    for j in 0..2 {
        let view = tensor.view((0, j), 0, TensorViewPadding::Valid, (1, 1), 2, 2);
        assert_eq!(view.len, 4);
        assert!(view.mask.iter().flatten().all(|m| *m));
        assert_eq!(view.buffer[1][1], buffer_4d()[0][1][j + 1]);
    }
}

#[test]
fn strided_valid_view_starts_at_stride_multiple() {
    let tensor = Tensor4D::new(buffer_4d(), vec![0.25f32], vec![26i8]);
    let view = tensor.view((0, 1), 1, TensorViewPadding::Valid, (1, 2), 1, 1);
    assert_eq!(view.buffer, vec![vec![vec![94, 98]]]);
}

#[test]
fn unit_view_is_the_pixel() {
    let tensor = Tensor4D::new(buffer_4d(), vec![0.25f32], vec![26i8]);
    for i in 0..2 {
        for j in 0..3 {
            let view = tensor.view((i, j), 1, TensorViewPadding::Same, (1, 1), 1, 1);
            assert_eq!(view.len, 1);
            assert_eq!(view.buffer[0][0], buffer_4d()[1][i][j]);
        }
    }
}

#[test]
fn empty_window_view() {
    let tensor = Tensor4D::new(buffer_4d(), vec![0.25f32], vec![26i8]);
    let view = tensor.view((1, 2), 0, TensorViewPadding::Same, (1, 1), 0, 3);
    assert!(view.buffer.is_empty());
    assert!(view.mask.is_empty());
    assert_eq!(view.len, 0);
}

#[test]
fn strided_same_view_past_the_edge() {
    let tensor = Tensor4D::new(buffer_4d(), vec![0.25f32], vec![26i8]);
    let view = tensor.view((1, 1), 0, TensorViewPadding::Same, (2, 2), 3, 3);
    // Rows 1..4 and columns 1..4 of a 2 x 3 grid: only (1, 1) and (1, 2) exist.
    assert_eq!(view.len, 2);
    assert_eq!(view.mask[0], vec![true, true, false]);
    assert_eq!(view.buffer[0][0], vec![62, 66]);
    assert_eq!(view.buffer[0][1], vec![70, 74]);
    assert!(view.mask[1].iter().chain(view.mask[2].iter()).all(|m| !*m));
}
