use microflow::activation::FusedActivation;
use microflow::compiler::{
    activation_of, compile, element_type, filters_from_data, operator_kind, padding_of, page_columns, promote_shape,
    CompiledModel, ElementType, Layer, OperatorKind,
};
use microflow::model::{decode_model, CompileError};
use microflow::tensor::{Tensor2D, TensorViewPadding};

/// A FlatBuffer object to lay out.
enum Obj {
    Table(Vec<(usize, Field)>),
    Tables(Vec<Obj>),
    Bytes(Vec<u8>),
}

enum Field {
    Scalar(Vec<u8>),
    Ref(Obj),
}

fn i32s(v: &[i32]) -> Obj {
    let mut b = (v.len() as u32).to_le_bytes().to_vec();
    for x in v {
        b.extend_from_slice(&x.to_le_bytes());
    }
    Obj::Bytes(b)
}

fn i64s(v: &[i64]) -> Obj {
    let mut b = (v.len() as u32).to_le_bytes().to_vec();
    for x in v {
        b.extend_from_slice(&x.to_le_bytes());
    }
    Obj::Bytes(b)
}

fn f32s(v: &[f32]) -> Obj {
    let mut b = (v.len() as u32).to_le_bytes().to_vec();
    for x in v {
        b.extend_from_slice(&x.to_bits().to_le_bytes());
    }
    Obj::Bytes(b)
}

fn bytes(v: &[u8]) -> Obj {
    let mut b = (v.len() as u32).to_le_bytes().to_vec();
    b.extend_from_slice(v);
    Obj::Bytes(b)
}

fn patch(buf: &mut [u8], at: usize, target: usize) {
    buf[at..at + 4].copy_from_slice(&((target - at) as u32).to_le_bytes());
}

fn emit(buf: &mut Vec<u8>, obj: Obj) -> usize {
    match obj {
        Obj::Bytes(b) => {
            let pos = buf.len();
            buf.extend_from_slice(&b);
            pos
        }
        Obj::Tables(items) => {
            let pos = buf.len();
            buf.extend_from_slice(&(items.len() as u32).to_le_bytes());
            let slots: Vec<usize> = (0..items.len()).map(|i| pos + 4 + 4 * i).collect();
            buf.extend(std::iter::repeat(0u8).take(4 * items.len()));
            for (slot, item) in slots.into_iter().zip(items) {
                let target = emit(buf, item);
                patch(buf, slot, target);
            }
            pos
        }
        Obj::Table(fields) => {
            let max_slot = fields.iter().map(|(s, _)| *s).max().unwrap_or(0);
            let vtable = buf.len();
            let vtable_len = 4 + 2 * (max_slot + 1);
            buf.extend(std::iter::repeat(0u8).take(vtable_len));
            let table = buf.len();
            buf.extend_from_slice(&((table - vtable) as i32).to_le_bytes());
            let mut children = Vec::new();
            for (slot, f) in fields {
                let at = buf.len();
                buf[vtable + 4 + 2 * slot..vtable + 6 + 2 * slot]
                    .copy_from_slice(&((at - table) as u16).to_le_bytes());
                match f {
                    Field::Scalar(b) => buf.extend_from_slice(&b),
                    Field::Ref(o) => {
                        buf.extend_from_slice(&[0, 0, 0, 0]);
                        children.push((at, o));
                    }
                }
            }
            let table_len = buf.len() - table;
            buf[vtable..vtable + 2].copy_from_slice(&(vtable_len as u16).to_le_bytes());
            buf[vtable + 2..vtable + 4].copy_from_slice(&(table_len as u16).to_le_bytes());
            for (at, o) in children {
                let target = emit(buf, o);
                patch(buf, at, target);
            }
            table
        }
    }
}

fn tensor(shape: &[i32], ty: u8, buffer: u32, scale: f32, zero_point: i64) -> Obj {
    Obj::Table(vec![
        (0, Field::Ref(i32s(shape))),
        (1, Field::Scalar(vec![ty])),
        (2, Field::Scalar(buffer.to_le_bytes().to_vec())),
        (
            4,
            Field::Ref(Obj::Table(vec![
                (2, Field::Ref(f32s(&[scale]))),
                (3, Field::Ref(i64s(&[zero_point]))),
            ])),
        ),
    ])
}

/// A model with one FullyConnected operator (builtin code `opcode`) from an
/// input of type `input_type` and shape `input_shape`.
fn model(opcode: u8, input_type: u8, input_shape: &[i32]) -> Vec<u8> {
    let weights: Vec<u8> = vec![1, 2, 3, (-4i8) as u8, 5, 6];
    let mut bias = Vec::new();
    for v in [10i32, -20, 30] {
        bias.extend_from_slice(&v.to_le_bytes());
    }
    let operator = Obj::Table(vec![
        (0, Field::Scalar(0u32.to_le_bytes().to_vec())),
        (1, Field::Ref(i32s(&[0, 1, 2]))),
        (2, Field::Ref(i32s(&[3]))),
        (3, Field::Scalar(vec![8])),
        (4, Field::Ref(Obj::Table(vec![(0, Field::Scalar(vec![1]))]))),
    ]);
    let subgraph = Obj::Table(vec![
        (
            0,
            Field::Ref(Obj::Tables(vec![
                tensor(input_shape, input_type, 0, 0.5, if input_type == 3 { 1 } else { -1 }),
                tensor(&[3, 2], 9, 1, 0.25, 0),
                tensor(&[3], 2, 2, 0.125, 0),
                tensor(&[1, 3], 9, 0, 1.0, 5),
            ])),
        ),
        (1, Field::Ref(i32s(&[0]))),
        (2, Field::Ref(i32s(&[3]))),
        (3, Field::Ref(Obj::Tables(vec![operator]))),
    ]);
    let root = Obj::Table(vec![
        (0, Field::Scalar(3u32.to_le_bytes().to_vec())),
        (1, Field::Ref(Obj::Tables(vec![Obj::Table(vec![(0, Field::Scalar(vec![opcode]))])]))),
        (2, Field::Ref(Obj::Tables(vec![subgraph]))),
        (
            4,
            Field::Ref(Obj::Tables(vec![
                Obj::Table(vec![]),
                Obj::Table(vec![(0, Field::Ref(bytes(&weights)))]),
                Obj::Table(vec![(0, Field::Ref(bytes(&bias)))]),
            ])),
        ),
    ]);
    let mut buf = vec![0u8; 8];
    buf[4..8].copy_from_slice(b"TFL3");
    let pos = emit(&mut buf, root);
    patch(&mut buf, 0, pos);
    buf
}

#[test]
fn decode_one_operator_model() {
    let b = model(9, 9, &[1, 2]);
    let m = decode_model(&b).ok().expect("model decodes");
    assert_eq!(m.operators.len(), 1);
    assert_eq!(m.tensors.len(), 4);
    assert_eq!(m.inputs, vec![0]);
    assert_eq!(m.outputs, vec![3]);
    assert_eq!(m.operator_codes, vec![9]);
    assert_eq!(m.tensors[1].shape, vec![3, 2]);
    assert_eq!(m.tensors[0].scale, vec![0.5f32.to_bits()]);
    assert_eq!(m.tensors[3].zero_point, vec![5]);
    assert_eq!(m.operators[0].inputs, vec![0, 1, 2]);
    assert_eq!(m.buffers.len(), 3);
}

#[test]
fn compile_fully_connected_model() {
    let b = model(9, 9, &[1, 2]);
    let plan = match compile(&b) {
        Ok(CompiledModel::Int8(p)) => p,
        _ => panic!("expected a plan of signed elements"),
    };
    assert_eq!(plan.layers.len(), 1);
    assert_eq!(plan.input.shape, vec![1, 2]);
    assert_eq!(plan.output.shape, vec![1, 3]);
    assert_eq!(plan.input.zero_point, vec![-1]);
    match &plan.layers[0] {
        Layer::FullyConnected { weights, bias, options, constants_2, constants_3, output, .. } => {
            assert_eq!(weights.buffer, vec![vec![1, 3, 5], vec![2, -4, 6]]);
            assert_eq!(bias.values, vec![10, -20, 30]);
            assert_eq!(options.fused_activation, FusedActivation::Relu);
            assert_eq!(constants_2, &vec![-3, 1, -11]);
            assert_eq!(*constants_3, 0);
            assert_eq!(output.zero_point, vec![5]);
        }
        _ => panic!("expected a FullyConnected layer"),
    }
}

#[test]
fn rank_one_input_is_promoted() {
    let b = model(9, 9, &[2]);
    match compile(&b) {
        Ok(CompiledModel::Int8(p)) => assert_eq!(p.input.shape, vec![1, 2]),
        _ => panic!("expected a plan"),
    }
}

#[test]
fn unsupported_operator_is_named() {
    let b = model(2, 9, &[1, 2]);
    assert!(matches!(compile(&b), Err(CompileError::UnsupportedOperator(2))));
}

#[test]
fn float_input_is_rejected() {
    let b = model(9, 0, &[1, 2]);
    assert!(matches!(compile(&b), Err(CompileError::UnsupportedTensorType(0))));
}

#[test]
fn mixed_types_are_rejected() {
    let b = model(9, 3, &[1, 2]);
    assert!(matches!(compile(&b), Err(CompileError::MixedTypes)));
}

#[test]
fn rank_three_input_is_rejected() {
    let b = model(9, 9, &[1, 2, 1]);
    assert!(matches!(compile(&b), Err(CompileError::UnsupportedRank(3))));
}

#[test]
fn truncated_file_is_invalid() {
    let b = model(9, 9, &[1, 2]);
    assert!(matches!(compile(&b[..40]), Err(CompileError::InvalidModel)));
    assert!(matches!(compile(&[]), Err(CompileError::InvalidModel)));
}

#[test]
fn codes_of_types_activations_paddings_operators() {
    assert_eq!(element_type(9), Ok(ElementType::Int8));
    assert_eq!(element_type(3), Ok(ElementType::Uint8));
    assert_eq!(element_type(0), Err(CompileError::UnsupportedTensorType(0)));
    assert_eq!(activation_of(0), Ok(FusedActivation::Identity));
    assert_eq!(activation_of(1), Ok(FusedActivation::Relu));
    assert_eq!(activation_of(3), Ok(FusedActivation::Relu6));
    assert_eq!(activation_of(2), Err(CompileError::UnsupportedActivation(2)));
    assert_eq!(padding_of(0), Ok(TensorViewPadding::Same));
    assert_eq!(padding_of(1), Ok(TensorViewPadding::Valid));
    assert_eq!(padding_of(7), Err(CompileError::UnsupportedPadding(7)));
    assert_eq!(operator_kind(9), Ok(OperatorKind::FullyConnected));
    assert_eq!(operator_kind(3), Ok(OperatorKind::Conv2D));
    assert_eq!(operator_kind(4), Ok(OperatorKind::DepthwiseConv2D));
    assert_eq!(operator_kind(1), Ok(OperatorKind::AveragePool2D));
    assert_eq!(operator_kind(25), Ok(OperatorKind::Softmax));
    assert_eq!(operator_kind(22), Ok(OperatorKind::Reshape));
    assert_eq!(operator_kind(0), Err(CompileError::UnsupportedOperator(0)));
}

#[test]
fn shapes_promote_or_fail() {
    assert_eq!(promote_shape(&vec![5]).ok(), Some(vec![1, 5]));
    assert_eq!(promote_shape(&vec![1, 49, 40, 1]).ok(), Some(vec![1, 49, 40, 1]));
    assert!(matches!(promote_shape(&vec![1, 2, 3]), Err(CompileError::UnsupportedRank(3))));
    assert!(matches!(promote_shape(&vec![1, -2]), Err(CompileError::InvalidModel)));
}

#[test]
fn paging_splits_tall_weights_by_column() {
    let weights = Tensor2D::new(vec![vec![1i8, 2], vec![3, 4], vec![5, 6]], vec![7u32], vec![0i8]);
    let pages = page_columns(&weights, 2).ok().expect("pages");
    assert_eq!(pages.len(), 2);
    assert_eq!(pages[0].buffer, vec![vec![1], vec![3], vec![5]]);
    assert_eq!(pages[1].buffer, vec![vec![2], vec![4], vec![6]]);
    let whole = page_columns(&weights, 3).ok().expect("pages");
    assert_eq!(whole.len(), 1);
    assert_eq!(whole[0].buffer, weights.buffer);
    assert!(matches!(page_columns(&weights, 0), Err(CompileError::InvalidCapacity)));
}

#[test]
fn filters_decode_iff_data_has_their_size() {
    let data: Vec<u8> = (0u8..12).collect();
    let f = filters_from_data::<i8>(&data, 2, 1, 3, 2).ok().expect("filters");
    assert_eq!(f[1][0][2], vec![10, 11]);
    assert!(matches!(filters_from_data::<i8>(&data, 2, 1, 3, 3), Err(CompileError::InvalidModel)));
    assert!(matches!(filters_from_data::<u8>(&data[..11].to_vec(), 2, 1, 3, 2), Err(CompileError::InvalidModel)));
}

#[test]
fn any_positive_capacity_pages() {
    let weights = Tensor2D::new(vec![vec![1i8, 2], vec![3, 4]], vec![7u32], vec![0i8]);
    assert!(page_columns(&weights, 1).is_ok());
    assert!(page_columns(&weights, usize::MAX).is_ok());
}

#[test]
fn paged_accumulators_concatenate_to_unpaged() {
    let input = Tensor2D::new(vec![vec![3i8, -7, 12], vec![0, 5, -128]], vec![1u32], vec![2i8]);
    let weights = Tensor2D::new(
        vec![vec![1i8, -2, 30], vec![4, 5, -6], vec![7, 8, 9]],
        vec![1u32],
        vec![-1i8],
    );
    let (c2, c3) = microflow::ops::fully_connected::fully_connected_constants(2i8, &weights);
    let whole = microflow::ops::fully_connected::fully_connected_accumulators(&input, &weights, &c2, c3);
    let pages = page_columns(&weights, 2).ok().expect("pages");
    assert_eq!(pages.len(), 3);
    for (j, page) in pages.iter().enumerate() {
        let part = microflow::ops::fully_connected::fully_connected_accumulators(&input, page, &vec![c2[j]], c3);
        for i in 0..2 {
            assert_eq!(part[i], vec![whole[i][j]]);
        }
    }
}
