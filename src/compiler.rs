//! The graph walk of the model compiler: from a decoded model to a plan of
//! kernel calls with every shape, weight table and integer constant fixed.
//! The caller folds the constants that take floating-point scales and emits
//! the inference function from the plan.

use vstd::prelude::*;

use crate::activation::FusedActivation;
use crate::buffer::{is_batched_grid, is_grid, is_matrix, Buffer2D, Buffer4D};
use crate::flatbuffer::{le_i32, read_i32};
use crate::model::{
    field_i32, field_u8, i32_field, model_facts, model_fits, scalar_fits, u8_field, CompileError,
    ModelFacts, ModelInfo, OperatorFacts, OperatorInfo, TensorFacts, TensorInfo,
};
use crate::ops::average_pool_2d::AveragePool2DOptions;
use crate::ops::conv_2d::Conv2DOptions;
use crate::ops::depthwise_conv_2d::DepthwiseConv2DOptions;
use crate::ops::fully_connected::{column_total, fully_connected_constants, FullyConnectedOptions};
use crate::ops::reshape::{flat_grid, unflatten_row};
use crate::quantize::Quantized;
use crate::tensor::{Tensor2D, Tensor4D, TensorViewPadding};

verus! {

/// The TensorFlow Lite code of the UINT8 element type.
pub const TENSOR_TYPE_UINT8: u8 = 3;

/// The TensorFlow Lite code of the INT8 element type.
pub const TENSOR_TYPE_INT8: u8 = 9;

/// The element type of a model.
#[derive(Clone, Copy, Debug, PartialEq, Eq, Structural)]
pub enum ElementType {
    Int8,
    Uint8,
}

/// The element type with TensorFlow Lite code `code`.
pub fn element_type(code: u8) -> (r: Result<ElementType, CompileError>)
    ensures
        code == TENSOR_TYPE_INT8 <==> r == Ok::<ElementType, CompileError>(ElementType::Int8),
        code == TENSOR_TYPE_UINT8 <==> r == Ok::<ElementType, CompileError>(ElementType::Uint8),
        code != TENSOR_TYPE_INT8 && code != TENSOR_TYPE_UINT8 ==> r == Err::<ElementType, CompileError>(
            CompileError::UnsupportedTensorType(code),
        ),
{
    if code == TENSOR_TYPE_INT8 {
        Ok(ElementType::Int8)
    } else if code == TENSOR_TYPE_UINT8 {
        Ok(ElementType::Uint8)
    } else {
        Err(CompileError::UnsupportedTensorType(code))
    }
}

/// The fused activation with TensorFlow Lite code `code`: NONE (0), RELU (1)
/// or RELU6 (3).
pub fn activation_of(code: u8) -> (r: Result<FusedActivation, CompileError>)
    ensures
        r == if code == 0 {
            Ok::<FusedActivation, CompileError>(FusedActivation::Identity)
        } else if code == 1 {
            Ok(FusedActivation::Relu)
        } else if code == 3 {
            Ok(FusedActivation::Relu6)
        } else {
            Err(CompileError::UnsupportedActivation(code))
        },
{
    if code == 0 {
        Ok(FusedActivation::Identity)
    } else if code == 1 {
        Ok(FusedActivation::Relu)
    } else if code == 3 {
        Ok(FusedActivation::Relu6)
    } else {
        Err(CompileError::UnsupportedActivation(code))
    }
}

/// The padding with TensorFlow Lite code `code`: SAME (0) or VALID (1).
pub fn padding_of(code: u8) -> (r: Result<TensorViewPadding, CompileError>)
    ensures
        r == if code == 0 {
            Ok::<TensorViewPadding, CompileError>(TensorViewPadding::Same)
        } else if code == 1 {
            Ok(TensorViewPadding::Valid)
        } else {
            Err(CompileError::UnsupportedPadding(code))
        },
{
    if code == 0 {
        Ok(TensorViewPadding::Same)
    } else if code == 1 {
        Ok(TensorViewPadding::Valid)
    } else {
        Err(CompileError::UnsupportedPadding(code))
    }
}

/// The operators that have a kernel.
#[derive(Clone, Copy, Debug, PartialEq, Eq, Structural)]
pub enum OperatorKind {
    AveragePool2D,
    Conv2D,
    DepthwiseConv2D,
    FullyConnected,
    Reshape,
    Softmax,
}

/// The builtin code of each operator that has a kernel.
pub open spec fn builtin_code(kind: OperatorKind) -> int {
    match kind {
        OperatorKind::AveragePool2D => 1,
        OperatorKind::Conv2D => 3,
        OperatorKind::DepthwiseConv2D => 4,
        OperatorKind::FullyConnected => 9,
        OperatorKind::Reshape => 22,
        OperatorKind::Softmax => 25,
    }
}

/// The operator with builtin code `code`.
pub fn operator_kind(code: i32) -> (r: Result<OperatorKind, CompileError>)
    ensures
        r matches Ok(k) ==> builtin_code(k) == code,
        r is Err <==> forall|k: OperatorKind| builtin_code(k) != code,
        r is Err <==> !supported(code as int),
        r is Err ==> r == Err::<OperatorKind, CompileError>(CompileError::UnsupportedOperator(code)),
{
    let r = if code == 1 {
        Ok(OperatorKind::AveragePool2D)
    } else if code == 3 {
        Ok(OperatorKind::Conv2D)
    } else if code == 4 {
        Ok(OperatorKind::DepthwiseConv2D)
    } else if code == 9 {
        Ok(OperatorKind::FullyConnected)
    } else if code == 22 {
        Ok(OperatorKind::Reshape)
    } else if code == 25 {
        Ok(OperatorKind::Softmax)
    } else {
        Err(CompileError::UnsupportedOperator(code))
    };
    proof {
        if r is Err {
            assert forall|k: OperatorKind| builtin_code(k) != code by {
                match k {
                    OperatorKind::AveragePool2D => {},
                    OperatorKind::Conv2D => {},
                    OperatorKind::DepthwiseConv2D => {},
                    OperatorKind::FullyConnected => {},
                    OperatorKind::Reshape => {},
                    OperatorKind::Softmax => {},
                }
            }
        } else {
            assert(builtin_code(r->Ok_0) == code);
        }
    }
    r
}

/// The shape the kernels use for a tensor of shape `shape`: rank 1 is
/// promoted to a single row.
pub open spec fn promoted(shape: Seq<i32>) -> Seq<int> {
    if shape.len() == 1 {
        seq![1int, shape[0] as int]
    } else {
        Seq::new(shape.len(), |i: int| shape[i] as int)
    }
}

/// `dims` is the kernels' shape for the declared shape `declared`: rank 1
/// promoted to a single row, other ranks kept.
pub open spec fn promotes(dims: Seq<usize>, declared: Seq<i32>) -> bool {
    &&& dims.len() == promoted(declared).len()
    &&& forall|i: int| 0 <= i < dims.len() ==> dims[i] == #[trigger] promoted(declared)[i]
}

/// The kernels' shape for a tensor of shape `shape`: an error unless every
/// dimension is non-negative and the rank, after promoting rank 1 to a single
/// row, is 2 or 4.
pub fn promote_shape(shape: &Vec<i32>) -> (r: Result<Vec<usize>, CompileError>)
    ensures
        r is Ok <==> (forall|i: int| 0 <= i < shape@.len() ==> shape@[i] >= 0) && (promoted(
            shape@,
        ).len() == 2 || promoted(shape@).len() == 4),
        r matches Ok(v) ==> v@.len() == promoted(shape@).len() && forall|i: int|
            0 <= i < v@.len() ==> v@[i] == #[trigger] promoted(shape@)[i],
        r matches Err(e) ==> (e == CompileError::InvalidModel && exists|i: int|
            0 <= i < shape@.len() && shape@[i] < 0) || e == CompileError::UnsupportedRank(
            promoted(shape@).len() as usize,
        ),
{
    let mut dims: Vec<usize> = Vec::new();
    if shape.len() == 1 {
        dims.push(1);
    }
    let mut i: usize = 0;
    while i < shape.len()
        invariant
            i <= shape@.len(),
            forall|a: int| 0 <= a < i ==> shape@[a] >= 0,
            shape@.len() == 1 ==> dims@.len() == 1 + i && dims@[0] == 1 && forall|a: int|
                0 <= a < i ==> dims@[a + 1] == shape@[a],
            shape@.len() != 1 ==> dims@.len() == i && forall|a: int|
                0 <= a < i ==> dims@[a] == shape@[a],
        decreases shape@.len() - i,
    {
        if shape[i] < 0 {
            return Err(CompileError::InvalidModel);
        }
        dims.push(shape[i] as usize);
        i += 1;
    }
    if dims.len() != 2 && dims.len() != 4 {
        return Err(CompileError::UnsupportedRank(dims.len()));
    }
    Ok(dims)
}

/// A tensor's shape and quantization as the plan fixes them. Scales are
/// IEEE-754 single-precision bit patterns.
pub struct TensorSpec<T> {
    pub shape: Vec<usize>,
    pub scale: Vec<u32>,
    pub zero_point: Vec<T>,
}

/// The element of type `T` with value `v`, if there is one.
pub fn element_of<T: Quantized>(v: i64) -> (r: Option<T>)
    ensures
        r matches Some(e) ==> e.value() == v,
        r is None <==> v < T::min_value() || v > T::max_value(),
{
    let zero: T = T::zero();
    proof {
        T::lemma_range(zero);
    }
    if v < i32::MIN as i64 || v > i32::MAX as i64 {
        return None;
    }
    let e: T = T::saturating_from_i32(v as i32);
    if e.to_i32() as i64 == v {
        Some(e)
    } else {
        None
    }
}

/// Every value of `zero_points` is a value of `T`.
pub open spec fn zero_points_fit<T: Quantized>(zero_points: Seq<i64>) -> bool {
    forall|i: int|
        0 <= i < zero_points.len() ==> T::min_value() <= #[trigger] zero_points[i] <= T::max_value()
}

/// A tensor of shape `shape` with `scales` scales and these zero points has a
/// kernel shape and a quantization that fits `T`.
pub open spec fn spec_fits<T: Quantized>(shape: Seq<i32>, scales: int, zero_points: Seq<i64>) -> bool {
    &&& forall|i: int| 0 <= i < shape.len() ==> shape[i] >= 0
    &&& (promoted(shape).len() == 2 || promoted(shape).len() == 4)
    &&& zero_points.len() >= 1
    &&& scales == zero_points.len()
    &&& zero_points_fit::<T>(zero_points)
}

/// The shape and quantization of `t`: an error when its shape has no kernel,
/// when it has no zero point or not one scale per zero point, or when a zero
/// point does not fit the element type.
pub fn tensor_spec<T: Quantized>(t: &TensorInfo) -> (r: Result<TensorSpec<T>, CompileError>)
    ensures
        r is Ok <==> spec_fits::<T>(t.shape@, t.scale@.len() as int, t.zero_point@),
        (forall|i: int| 0 <= i < t.shape@.len() ==> t.shape@[i] >= 0) && promoted(t.shape@).len() != 2
            && promoted(t.shape@).len() != 4 ==> r == Err::<TensorSpec<T>, CompileError>(
            CompileError::UnsupportedRank(promoted(t.shape@).len() as usize),
        ),
        r matches Err(e) ==> e == CompileError::InvalidModel || e is UnsupportedRank,
        r matches Ok(s) ==> s.shape@.len() == promoted(t.shape@).len() && (forall|i: int|
            0 <= i < s.shape@.len() ==> s.shape@[i] == #[trigger] promoted(t.shape@)[i])
            && s.scale@ == t.scale@ && s.zero_point@.len() == t.zero_point@.len() && s.zero_point@.len()
            >= 1 && forall|i: int|
            0 <= i < s.zero_point@.len() ==> (#[trigger] s.zero_point@[i]).value() == t.zero_point@[i],
{
    let shape = promote_shape(&t.shape)?;
    assert(promoted(t.shape@).len() == 2 || promoted(t.shape@).len() == 4);
    let zero_point: Vec<T> = zero_points(t)?;
    let scale = copy_elements(&t.scale);
    Ok(TensorSpec { shape, scale, zero_point })
}

/// The elements stored in `data`, one byte each.
pub fn decode_elements<T: Quantized>(data: &Vec<u8>) -> (r: Vec<T>)
    ensures
        r@.len() == data@.len(),
        forall|i: int| 0 <= i < r@.len() ==> (#[trigger] r@[i]).value() == T::of_byte(data@[i]),
{
    let mut out: Vec<T> = Vec::new();
    let mut i: usize = 0;
    while i < data.len()
        invariant
            i <= data@.len(),
            out@.len() == i,
            forall|a: int| 0 <= a < i ==> (#[trigger] out@[a]).value() == T::of_byte(data@[a]),
        decreases data@.len() - i,
    {
        out.push(T::from_byte(data[i]));
        i += 1;
    }
    out
}

/// The little-endian `i32` values stored in `data`: an error unless its length
/// is a multiple of four.
pub fn decode_i32s(data: &Vec<u8>) -> (r: Result<Vec<i32>, CompileError>)
    ensures
        r matches Err(e) ==> !(e is UnsupportedOperator),
        r is Ok <==> data@.len() % 4 == 0,
        r matches Ok(v) ==> v@.len() * 4 == data@.len() && forall|i: int|
            0 <= i < v@.len() ==> v@[i] == #[trigger] le_i32(data@, 4 * i),
{
    if data.len() % 4 != 0 {
        return Err(CompileError::InvalidModel);
    }
    let len = data.len();
    let n = len / 4;
    let bytes = data.as_slice();
    let mut out: Vec<i32> = Vec::new();
    let mut i: usize = 0;
    while i < n
        invariant
            bytes@ == data@,
            n * 4 == data@.len(),
            len == data@.len(),
            i <= n,
            out@.len() == i,
            forall|a: int| 0 <= a < i ==> out@[a] == #[trigger] le_i32(data@, 4 * a),
        decreases n - i,
    {
        let v = read_i32(bytes, 4 * i).unwrap();
        out.push(v);
        i += 1;
    }
    Ok(out)
}

/// The weight matrix of a FullyConnected operator, stored with one row per
/// output: `depth` rows and `outputs` columns, where element `(k, j)` is byte
/// `j × depth + k` of `data`.
pub fn fully_connected_weights<T: Quantized>(
    data: &Vec<u8>,
    outputs: usize,
    depth: usize,
) -> (r: Result<Buffer2D<T>, CompileError>)
    ensures
        r matches Err(e) ==> !(e is UnsupportedOperator),
        r is Ok <==> data@.len() == outputs * depth,
        r matches Ok(w) ==> is_matrix(w@, depth as int, outputs as int) && forall|k: int, j: int|
            0 <= k < depth && 0 <= j < outputs ==> (#[trigger] w@[k]@[j]).value() == T::of_byte(
                data@[j * depth + k],
            ),
{
    let len = data.len();
    match outputs.checked_mul(depth) {
        Some(n) => if n != len {
            return Err(CompileError::InvalidModel);
        },
        None => return Err(CompileError::InvalidModel),
    }
    let mut w: Buffer2D<T> = Vec::new();
    let mut k: usize = 0;
    while k < depth
        invariant
            data@.len() == outputs * depth,
            len == data@.len(),
            k <= depth,
            is_matrix(w@, k as int, outputs as int),
            forall|a: int, j: int|
                0 <= a < k && 0 <= j < outputs ==> (#[trigger] w@[a]@[j]).value() == T::of_byte(
                    data@[j * depth + a],
                ),
        decreases depth - k,
    {
        let mut row: Vec<T> = Vec::new();
        let mut j: usize = 0;
        while j < outputs
            invariant
                data@.len() == outputs * depth,
                len == data@.len(),
                k < depth,
                j <= outputs,
                row@.len() == j,
                forall|b: int|
                    0 <= b < j ==> (#[trigger] row@[b]).value() == T::of_byte(data@[b * depth + k]),
            decreases outputs - j,
        {
            proof {
                assert(j * depth + k < outputs * depth) by (nonlinear_arith)
                    requires
                        j < outputs,
                        k < depth,
                ;
                assert(j * depth <= outputs * depth) by (nonlinear_arith)
                    requires
                        j < outputs,
                ;
            }
            let idx = j * depth + k;
            row.push(T::from_byte(data[idx]));
            j += 1;
        }
        w.push(row);
        k += 1;
    }
    Ok(w)
}

/// `len` bytes hold exactly `batches` grids of `rows` × `cols` pixels of
/// `chans` elements, and one grid's size fits the address space.
pub open spec fn filter_data_fits(len: int, batches: int, rows: int, cols: int, chans: int) -> bool {
    &&& rows * cols <= usize::MAX
    &&& rows * cols * chans <= usize::MAX
    &&& len == batches * (rows * cols * chans)
}

/// The filters stored in `data`: `batches` grids of `rows` × `cols` pixels of
/// `chans` elements, each grid stored channel fastest, then column, then row.
pub fn filters_from_data<T: Quantized>(
    data: &Vec<u8>,
    batches: usize,
    rows: usize,
    cols: usize,
    chans: usize,
) -> (r: Result<Buffer4D<T>, CompileError>)
    ensures
        r is Ok <==> filter_data_fits(data@.len() as int, batches as int, rows as int, cols as int, chans as int),
        r matches Err(e) ==> !(e is UnsupportedOperator),
        r matches Ok(f) ==> is_batched_grid(f@, batches as int, rows as int, cols as int, chans as int)
            && data@.len() == batches * (rows * cols * chans),
        r matches Ok(f) ==> forall|b: int, i: int|
            0 <= b < batches && 0 <= i < rows * cols * chans ==> (#[trigger] flat_grid(
                f@[b]@,
                rows as int,
            )[i]).value() == T::of_byte(data@[b * (rows * cols * chans) + i]),
{
    let elements: Vec<T> = decode_elements(data);
    let per_batch = match rows.checked_mul(cols) {
        Some(v) => match v.checked_mul(chans) {
            Some(w) => w,
            None => return Err(CompileError::InvalidModel),
        },
        None => return Err(CompileError::InvalidModel),
    };
    let data_len = data.len();
    let total = match per_batch.checked_mul(batches) {
        Some(v) => v,
        None => {
            proof {
                assert(data@.len() == data_len);
                assert(per_batch * batches == batches * per_batch) by (nonlinear_arith);
            }
            return Err(CompileError::InvalidModel);
        },
    };
    if total != data.len() {
        proof {
            assert(per_batch * batches == batches * per_batch) by (nonlinear_arith);
        }
        return Err(CompileError::InvalidModel);
    }
    proof {
        assert(per_batch * batches == batches * per_batch) by (nonlinear_arith);
    }
    let mut out: Buffer4D<T> = Vec::new();
    let mut b: usize = 0;
    let mut start: usize = 0;
    let len = elements.len();
    while b < batches
        invariant
            elements@.len() == data@.len(),
            len == elements@.len(),
            forall|a: int| 0 <= a < elements@.len() ==> (#[trigger] elements@[a]).value() == T::of_byte(data@[a]),
            per_batch == rows * cols * chans,
            data@.len() == batches * per_batch,
            b <= batches,
            start == b * per_batch,
            out@.len() == b,
            forall|a: int| 0 <= a < b ==> is_grid(#[trigger] out@[a]@, rows as int, cols as int, chans as int),
            forall|a: int, i: int|
                0 <= a < b && 0 <= i < per_batch ==> (#[trigger] flat_grid(out@[a]@, rows as int)[i]).value()
                    == T::of_byte(data@[a * per_batch + i]),
        decreases batches - b,
    {
        proof {
            assert(b * per_batch + per_batch <= batches * per_batch) by (nonlinear_arith)
                requires
                    b < batches,
            ;
        }
        let mut chunk: Vec<T> = Vec::new();
        let mut i: usize = 0;
        while i < per_batch
            invariant
                elements@.len() == data@.len(),
                len == elements@.len(),
                start + per_batch <= elements@.len(),
                i <= per_batch,
                chunk@ == elements@.subrange(start as int, start + i),
            decreases per_batch - i,
        {
            chunk.push(elements[start + i]);
            proof {
                assert(elements@.subrange(start as int, start + i + 1) =~= elements@.subrange(start as int, start + i).push(elements@[start + i]));
            }
            i += 1;
        }
        let grid = unflatten_row(&chunk, rows, cols, chans);
        out.push(grid);
        proof {
            assert(b * per_batch + per_batch == (b + 1) * per_batch) by (nonlinear_arith);
            assert forall|a: int, i: int|
                0 <= a < b + 1 && 0 <= i < per_batch implies (#[trigger] flat_grid(out@[a]@, rows as int)[i]).value()
                    == T::of_byte(data@[a * per_batch + i]) by {
                if a == b as int {
                    assert(flat_grid(out@[a]@, rows as int) == chunk@);
                    assert(chunk@[i] == elements@[start + i]);
                }
            }
        }
        start = start + per_batch;
        b += 1;
    }
    proof {
        assert(per_batch * 1 == per_batch);
    }
    Ok(out)
}

/// A copy of `v`.
pub fn copy_elements<T: Copy>(v: &Vec<T>) -> (r: Vec<T>)
    ensures
        r@ == v@,
{
    let mut out: Vec<T> = Vec::new();
    let mut i: usize = 0;
    while i < v.len()
        invariant
            i <= v@.len(),
            out@ == v@.subrange(0, i as int),
        decreases v@.len() - i,
    {
        out.push(v[i]);
        proof {
            assert(v@.subrange(0, i + 1) =~= v@.subrange(0, i as int).push(v@[i as int]));
        }
        i += 1;
    }
    proof {
        assert(v@.subrange(0, v@.len() as int) =~= v@);
    }
    out
}

/// Column `j` of `weights` as a one-column weight matrix with the same
/// quantization.
fn column_page<T: Quantized>(weights: &Tensor2D<T, u32>, j: usize) -> (r: Tensor2D<T, u32>)
    requires
        weights.well_formed(),
        j < weights.cols(),
    ensures
        is_matrix(r.buffer@, weights.rows(), 1),
        forall|k: int| 0 <= k < weights.rows() ==> #[trigger] r.buffer@[k]@[0] == weights.at(k, j as int),
        r.scale@ == weights.scale@,
        r.zero_point@ == weights.zero_point@,
{
    let mut buffer: Buffer2D<T> = Vec::new();
    let mut k: usize = 0;
    while k < weights.buffer.len()
        invariant
            weights.well_formed(),
            j < weights.cols(),
            k <= weights.rows(),
            is_matrix(buffer@, k as int, 1),
            forall|a: int| 0 <= a < k ==> #[trigger] buffer@[a]@[0] == weights.at(a, j as int),
        decreases weights.rows() - k,
    {
        let mut row: Vec<T> = Vec::new();
        row.push(weights.buffer[k][j]);
        buffer.push(row);
        k += 1;
    }
    Tensor2D::new(buffer, copy_elements(&weights.scale), copy_elements(&weights.zero_point))
}

/// The weight pages of a FullyConnected layer under a paging capacity: the
/// whole matrix when it has no more rows than `capacity`, else one page per
/// column, whose outputs the caller concatenates column by column. A capacity
/// of zero is an error.
pub fn page_columns<T: Quantized>(weights: &Tensor2D<T, u32>, capacity: usize) -> (r: Result<
    Vec<Tensor2D<T, u32>>,
    CompileError,
>)
    requires
        weights.well_formed(),
    ensures
        capacity == 0 <==> r == Err::<Vec<Tensor2D<T, u32>>, CompileError>(CompileError::InvalidCapacity),
        capacity > 0 ==> r is Ok,
        r matches Ok(pages) ==> (if weights.rows() <= capacity {
            &&& pages@.len() == 1
            &&& pages@[0].well_formed()
            &&& is_matrix(pages@[0].buffer@, weights.rows(), weights.cols())
            &&& pages@[0].buffer@.len() == weights.rows()
            &&& forall|k: int|
                0 <= k < weights.rows() ==> (#[trigger] pages@[0].buffer@[k])@ == weights.buffer@[k]@
        } else {
            &&& pages@.len() == weights.cols()
            &&& forall|j: int|
                0 <= j < pages@.len() ==> is_matrix(#[trigger] pages@[j].buffer@, weights.rows(), 1)
                    && pages@[j].well_formed()
            &&& forall|j: int, k: int|
                0 <= j < weights.cols() && 0 <= k < weights.rows() ==> (#[trigger] pages@[j].buffer@[k]@[0])
                    == weights.at(k, j)
        }),
        r matches Ok(pages) ==> forall|j: int|
            0 <= j < pages@.len() ==> (#[trigger] pages@[j]).scale@ == weights.scale@ && pages@[j].zero_point@
                == weights.zero_point@,
{
    if capacity == 0 {
        return Err(CompileError::InvalidCapacity);
    }
    let rows = weights.buffer.len();
    let cols = if rows > 0 { weights.buffer[0].len() } else { 0 };
    let mut pages: Vec<Tensor2D<T, u32>> = Vec::new();
    if rows <= capacity {
        let mut buffer: Buffer2D<T> = Vec::new();
        let mut k: usize = 0;
        while k < rows
            invariant
                weights.well_formed(),
                rows == weights.rows(),
                k <= rows,
                buffer@.len() == k,
                forall|a: int| 0 <= a < k ==> (#[trigger] buffer@[a])@ == weights.buffer@[a]@,
            decreases rows - k,
        {
            buffer.push(copy_elements(&weights.buffer[k]));
            k += 1;
        }
        pages.push(Tensor2D::new(buffer, copy_elements(&weights.scale), copy_elements(&weights.zero_point)));
        proof {
            assert(rows > 0 ==> pages@[0].buffer@[0]@ == weights.buffer@[0]@);
        }
    } else {
        let mut j: usize = 0;
        while j < cols
            invariant
                weights.well_formed(),
                rows == weights.rows(),
                cols == weights.cols(),
                j <= cols,
                pages@.len() == j,
                forall|a: int, k: int|
                    0 <= a < j && 0 <= k < rows ==> (#[trigger] pages@[a].buffer@[k]@[0]) == weights.at(k, a),
                forall|a: int|
                    0 <= a < j ==> (#[trigger] pages@[a]).scale@ == weights.scale@ && pages@[a].zero_point@
                        == weights.zero_point@,
                forall|a: int|
                    0 <= a < j ==> is_matrix(#[trigger] pages@[a].buffer@, weights.rows(), 1)
                        && pages@[a].well_formed(),
            decreases cols - j,
        {
            pages.push(column_page(weights, j));
            j += 1;
        }
    }
    Ok(pages)
}

/// A bias vector with its quantization as stored in the model; scales are
/// IEEE-754 single-precision bit patterns.
pub struct Bias {
    pub values: Vec<i32>,
    pub scale: Vec<u32>,
    pub zero_point: Vec<i64>,
}

/// One kernel call of the inference function, with its weight table and
/// integer constants.
pub enum Layer<T> {
    FullyConnected {
        input: TensorSpec<T>,
        weights: Tensor2D<T, u32>,
        bias: Bias,
        output: TensorSpec<T>,
        options: FullyConnectedOptions,
        constants_2: Vec<i64>,
        constants_3: i64,
    },
    Conv2D {
        input: TensorSpec<T>,
        filters: Tensor4D<T, u32>,
        bias: Bias,
        output: TensorSpec<T>,
        options: Conv2DOptions,
    },
    DepthwiseConv2D {
        input: TensorSpec<T>,
        weights: Tensor4D<T, u32>,
        bias: Bias,
        output: TensorSpec<T>,
        options: DepthwiseConv2DOptions,
    },
    AveragePool2D {
        input: TensorSpec<T>,
        filter: (usize, usize),
        output: TensorSpec<T>,
        options: AveragePool2DOptions,
    },
    Softmax { input: TensorSpec<T>, output: TensorSpec<T> },
    Reshape { output: TensorSpec<T> },
}

/// The operator that a layer calls.
pub open spec fn layer_kind<T>(l: Layer<T>) -> OperatorKind {
    match l {
        Layer::FullyConnected { .. } => OperatorKind::FullyConnected,
        Layer::Conv2D { .. } => OperatorKind::Conv2D,
        Layer::DepthwiseConv2D { .. } => OperatorKind::DepthwiseConv2D,
        Layer::AveragePool2D { .. } => OperatorKind::AveragePool2D,
        Layer::Softmax { .. } => OperatorKind::Softmax,
        Layer::Reshape { .. } => OperatorKind::Reshape,
    }
}

/// A FullyConnected layer carries the integer constants folded from its
/// weights and its input's zero point; other layers carry none.
pub open spec fn constants_folded<T: Quantized>(l: Layer<T>) -> bool {
    match l {
        Layer::FullyConnected { input, weights, constants_2, constants_3, .. } => {
            &&& weights.well_formed()
            &&& input.zero_point@.len() >= 1
            &&& constants_2@.len() == weights.cols()
            &&& forall|j: int|
                0 <= j < weights.cols() ==> #[trigger] constants_2@[j] == input.zero_point@[0].value()
                    * column_total(&weights, j, weights.rows())
            &&& constants_3 == weights.rows() * input.zero_point@[0].value()
                * weights.zero_point@[0].value()
        },
        _ => true,
    }
}

/// The specialized inference function: the graph input's shape and
/// quantization, one layer per operator in declared order, and the graph
/// output's shape and quantization.
pub struct Plan<T> {
    pub input: TensorSpec<T>,
    pub layers: Vec<Layer<T>>,
    pub output: TensorSpec<T>,
}

/// A plan for a model of signed or of unsigned elements.
pub enum CompiledModel {
    Int8(Plan<i8>),
    Uint8(Plan<u8>),
}

/// `code` is the builtin code of an operator that has a kernel.
pub open spec fn supported(code: int) -> bool {
    code == 1 || code == 3 || code == 4 || code == 9 || code == 22 || code == 25
}

/// Entry `k` of `list` names a tensor of the model.
pub open spec fn index_ok(f: ModelFacts, list: Seq<i32>, k: int) -> bool {
    0 <= k < list.len() && 0 <= list[k] < f.tensors.len()
}

/// The tensor that entry `k` of `list` names.
pub open spec fn tensor_at(f: ModelFacts, list: Seq<i32>, k: int) -> TensorFacts {
    f.tensors[list[k] as int]
}

/// Entry `k` of `list` names a tensor of element type `code`.
pub open spec fn typed(f: ModelFacts, list: Seq<i32>, k: int, code: u8) -> bool {
    index_ok(f, list, k) && tensor_at(f, list, k).tensor_type == code
}

/// `t` has a kernel shape and a quantization that fits `T`.
pub open spec fn spec_ok<T: Quantized>(t: TensorFacts) -> bool {
    spec_fits::<T>(t.shape, t.scale.len() as int, t.zero_point)
}

/// `t` has zero points, one scale for each, all fitting `T`.
pub open spec fn quant_ok<T: Quantized>(t: TensorFacts) -> bool {
    &&& t.zero_point.len() >= 1
    &&& t.scale.len() == t.zero_point.len()
    &&& zero_points_fit::<T>(t.zero_point)
}

/// `t` is a bias vector: its buffer exists and holds whole `i32` values, and
/// it has zero points with one scale each.
pub open spec fn bias_ok(f: ModelFacts, t: TensorFacts) -> bool {
    &&& t.buffer < f.buffers.len()
    &&& f.buffers[t.buffer as int].len() % 4 == 0
    &&& t.zero_point.len() >= 1
    &&& t.scale.len() == t.zero_point.len()
}

/// `t` is a filter tensor of rank 4 whose buffer holds exactly its elements.
pub open spec fn filters_ok<T: Quantized>(f: ModelFacts, t: TensorFacts) -> bool {
    &&& t.shape.len() == 4
    &&& forall|i: int| 0 <= i < 4 ==> t.shape[i] >= 0
    &&& t.buffer < f.buffers.len()
    &&& filter_data_fits(
        f.buffers[t.buffer as int].len() as int,
        t.shape[0] as int,
        t.shape[1] as int,
        t.shape[2] as int,
        t.shape[3] as int,
    )
    &&& quant_ok::<T>(t)
}

/// The operator's options table is of union type `tag`.
pub open spec fn options_ok(o: OperatorFacts, tag: u8) -> bool {
    o.options_type == tag && o.options is Some
}

/// `code` is NONE, RELU or RELU6.
pub open spec fn activation_ok(code: u8) -> bool {
    code == 0 || code == 1 || code == 3
}

/// The window options table at `table` has a known padding, non-negative
/// strides and a known activation in field `slot`.
pub open spec fn window_ok(b: Seq<u8>, table: int, slot: int) -> bool {
    &&& scalar_fits(b, table, 0, 1) && u8_field(b, table, 0, 0) <= 1
    &&& scalar_fits(b, table, 1, 4) && i32_field(b, table, 1, 0) >= 0
    &&& scalar_fits(b, table, 2, 4) && i32_field(b, table, 2, 0) >= 0
    &&& scalar_fits(b, table, slot, 1) && activation_ok(u8_field(b, table, slot, 0))
}

/// The input and output of `o` are tensors of type `code` with kernel shapes.
pub open spec fn io_ok<T: Quantized>(f: ModelFacts, o: OperatorFacts, code: u8) -> bool {
    &&& typed(f, o.inputs, 0, code)
    &&& index_ok(f, o.outputs, 0)
    &&& spec_ok::<T>(tensor_at(f, o.inputs, 0))
    &&& spec_ok::<T>(tensor_at(f, o.outputs, 0))
}

/// A FullyConnected operator `o` can be planned.
pub open spec fn fully_connected_ok<T: Quantized>(
    b: Seq<u8>,
    f: ModelFacts,
    o: OperatorFacts,
    code: u8,
) -> bool {
    let w = tensor_at(f, o.inputs, 1);
    &&& io_ok::<T>(f, o, code)
    &&& typed(f, o.inputs, 1, code)
    &&& index_ok(f, o.inputs, 2)
    &&& w.shape.len() == 2 && w.shape[0] >= 0 && w.shape[1] >= 0 && w.shape[1] <= 0xFFFF_FFFF
    &&& w.buffer < f.buffers.len()
    &&& f.buffers[w.buffer as int].len() == w.shape[0] * w.shape[1]
    &&& quant_ok::<T>(w)
    &&& bias_ok(f, tensor_at(f, o.inputs, 2))
    &&& options_ok(o, 8)
    &&& scalar_fits(b, o.options.unwrap() as int, 0, 1)
    &&& activation_ok(u8_field(b, o.options.unwrap() as int, 0, 0))
}

/// A Conv2D (`tag` 1, activation in field 3) or DepthwiseConv2D (`tag` 2,
/// activation in field 4) operator `o` can be planned.
pub open spec fn convolution_ok<T: Quantized>(
    b: Seq<u8>,
    f: ModelFacts,
    o: OperatorFacts,
    code: u8,
    tag: u8,
    slot: int,
) -> bool {
    &&& io_ok::<T>(f, o, code)
    &&& typed(f, o.inputs, 1, code)
    &&& index_ok(f, o.inputs, 2)
    &&& filters_ok::<T>(f, tensor_at(f, o.inputs, 1))
    &&& bias_ok(f, tensor_at(f, o.inputs, 2))
    &&& options_ok(o, tag)
    &&& window_ok(b, o.options.unwrap() as int, slot)
}

/// An AveragePool2D operator `o` can be planned.
pub open spec fn average_pool_ok<T: Quantized>(
    b: Seq<u8>,
    f: ModelFacts,
    o: OperatorFacts,
    code: u8,
) -> bool {
    let t = o.options.unwrap() as int;
    &&& io_ok::<T>(f, o, code)
    &&& options_ok(o, 5)
    &&& window_ok(b, t, 5)
    &&& scalar_fits(b, t, 3, 4) && i32_field(b, t, 3, 0) >= 0
    &&& scalar_fits(b, t, 4, 4) && i32_field(b, t, 4, 0) >= 0
}

/// A Reshape operator `o` can be planned.
pub open spec fn reshape_ok<T: Quantized>(f: ModelFacts, o: OperatorFacts, code: u8) -> bool {
    &&& typed(f, o.inputs, 0, code)
    &&& index_ok(f, o.outputs, 0)
    &&& spec_ok::<T>(tensor_at(f, o.outputs, 0))
}

/// The builtin code of operator `o`, when its opcode index is valid.
pub open spec fn code_of_operator(f: ModelFacts, o: OperatorFacts) -> int {
    f.operator_codes[o.opcode_index as int] as int
}

/// Operator `o` can be planned: its code has a kernel and what that kernel
/// reads of the model is there.
pub open spec fn layer_ok<T: Quantized>(b: Seq<u8>, f: ModelFacts, o: OperatorFacts, code: u8) -> bool {
    &&& o.opcode_index < f.operator_codes.len()
    &&& {
        let c = code_of_operator(f, o);
        if c == 9 {
            fully_connected_ok::<T>(b, f, o, code)
        } else if c == 3 {
            convolution_ok::<T>(b, f, o, code, 1, 3)
        } else if c == 4 {
            convolution_ok::<T>(b, f, o, code, 2, 4)
        } else if c == 1 {
            average_pool_ok::<T>(b, f, o, code)
        } else if c == 25 {
            io_ok::<T>(f, o, code)
        } else if c == 22 {
            reshape_ok::<T>(f, o, code)
        } else {
            false
        }
    }
}

#[verifier::opaque]
/// A model with facts `f` can be planned for elements of type `code`: its
/// graph input and output name tensors with kernel shapes, and every operator
/// can be planned.
pub open spec fn plan_ok<T: Quantized>(b: Seq<u8>, f: ModelFacts, code: u8) -> bool {
    &&& index_ok(f, f.inputs, 0)
    &&& spec_ok::<T>(tensor_at(f, f.inputs, 0))
    &&& forall|i: int| 0 <= i < f.operators.len() ==> layer_ok::<T>(b, f, #[trigger] f.operators[i], code)
    &&& index_ok(f, f.outputs, 0)
    &&& spec_ok::<T>(tensor_at(f, f.outputs, 0))
}

#[verifier::opaque]
/// Operator `i` is the first one that cannot be planned, and only because its
/// code has no kernel.
pub open spec fn first_unsupported<T: Quantized>(b: Seq<u8>, f: ModelFacts, code: u8, i: int) -> bool {
    &&& index_ok(f, f.inputs, 0)
    &&& spec_ok::<T>(tensor_at(f, f.inputs, 0))
    &&& 0 <= i < f.operators.len()
    &&& forall|j: int| 0 <= j < i ==> layer_ok::<T>(b, f, #[trigger] f.operators[j], code)
    &&& f.operators[i].opcode_index < f.operator_codes.len()
    &&& !supported(code_of_operator(f, f.operators[i]))
}

#[verifier::opaque]
/// The graph input's declared shape has non-negative dimensions but a rank
/// without a kernel.
pub open spec fn input_rank_unsupported(f: ModelFacts) -> bool {
    let shape = tensor_at(f, f.inputs, 0).shape;
    &&& index_ok(f, f.inputs, 0)
    &&& forall|i: int| 0 <= i < shape.len() ==> shape[i] >= 0
    &&& promoted(shape).len() != 2 && promoted(shape).len() != 4
}

/// `s` is the kernels' view of tensor `t`: its promoted shape, its scales, and
/// its zero points as elements.
pub open spec fn spec_matches<T: Quantized>(s: TensorSpec<T>, t: TensorFacts) -> bool {
    &&& promotes(s.shape@, t.shape)
    &&& s.scale@ == t.scale
    &&& zero_points_match(s.zero_point@, t.zero_point)
}

/// `elements` are the zero points `values`.
pub open spec fn zero_points_match<T: Quantized>(elements: Seq<T>, values: Seq<i64>) -> bool {
    &&& elements.len() == values.len()
    &&& forall|i: int| 0 <= i < elements.len() ==> (#[trigger] elements[i]).value() == values[i]
}

/// The activation with code `code`, one of NONE, RELU, RELU6.
pub open spec fn activation_from(code: u8) -> FusedActivation {
    if code == 0 {
        FusedActivation::Identity
    } else if code == 1 {
        FusedActivation::Relu
    } else {
        FusedActivation::Relu6
    }
}

/// The padding with code `code`, one of SAME, VALID.
pub open spec fn padding_from(code: u8) -> TensorViewPadding {
    if code == 0 {
        TensorViewPadding::Same
    } else {
        TensorViewPadding::Valid
    }
}

/// Padding, strides (height, width) and activation (in field `slot`) as the
/// window options table at `table` gives them.
pub open spec fn window_values(
    b: Seq<u8>,
    table: int,
    slot: int,
    padding: TensorViewPadding,
    strides: (usize, usize),
    activation: FusedActivation,
) -> bool {
    &&& padding == padding_from(u8_field(b, table, 0, 0))
    &&& strides.0 == i32_field(b, table, 2, 0)
    &&& strides.1 == i32_field(b, table, 1, 0)
    &&& activation == activation_from(u8_field(b, table, slot, 0))
}

/// The bias vector holds the `i32` values of the data of tensor `t`, and its
/// quantization.
pub open spec fn bias_matches(f: ModelFacts, t: TensorFacts, bias: Bias) -> bool {
    let data = f.buffers[t.buffer as int];
    &&& bias.values@.len() * 4 == data.len()
    &&& forall|i: int| 0 <= i < bias.values@.len() ==> bias.values@[i] == #[trigger] le_i32(data, 4 * i)
    &&& bias.scale@ == t.scale
    &&& bias.zero_point@ == t.zero_point
}

/// The layer `l` holds what operator `o` of the model in `b` declares: its
/// weight table decoded from the weight tensor's data, its biases, its
/// options, and its output's kernel shape.
pub open spec fn layer_matches<T: Quantized>(b: Seq<u8>, f: ModelFacts, o: OperatorFacts, l: Layer<T>) -> bool {
    let table = o.options.unwrap() as int;
    match l {
        Layer::FullyConnected { input, weights, bias, output, options, .. } => {
            let w = tensor_at(f, o.inputs, 1);
            let data = f.buffers[w.buffer as int];
            let depth = w.shape[1] as int;
            &&& is_matrix(weights.buffer@, depth, w.shape[0] as int)
            &&& forall|k: int, j: int|
                0 <= k < depth && 0 <= j < w.shape[0] ==> (#[trigger] weights.buffer@[k]@[j]).value()
                    == T::of_byte(data[j * depth + k])
            &&& weights.scale@ == w.scale
            &&& zero_points_match(weights.zero_point@, w.zero_point)
            &&& bias_matches(f, tensor_at(f, o.inputs, 2), bias)
            &&& options.fused_activation == activation_from(u8_field(b, table, 0, 0))
            &&& spec_matches(input, tensor_at(f, o.inputs, 0))
            &&& spec_matches(output, tensor_at(f, o.outputs, 0))
        },
        Layer::Conv2D { input, filters, bias, output, options } => {
            let t = tensor_at(f, o.inputs, 1);
            let data = f.buffers[t.buffer as int];
            let per = t.shape[1] * t.shape[2] * t.shape[3];
            &&& is_batched_grid(filters.buffer@, t.shape[0] as int, t.shape[1] as int, t.shape[2] as int, t.shape[3] as int)
            &&& forall|n: int, i: int|
                0 <= n < t.shape[0] && 0 <= i < per ==> (#[trigger] flat_grid(filters.buffer@[n]@, t.shape[1] as int)[i]).value()
                    == T::of_byte(data[n * per + i])
            &&& filters.scale@ == t.scale
            &&& zero_points_match(filters.zero_point@, t.zero_point)
            &&& bias_matches(f, tensor_at(f, o.inputs, 2), bias)
            &&& window_values(b, table, 3, options.view_padding, options.strides, options.fused_activation)
            &&& spec_matches(input, tensor_at(f, o.inputs, 0))
            &&& spec_matches(output, tensor_at(f, o.outputs, 0))
        },
        Layer::DepthwiseConv2D { input, weights, bias, output, options } => {
            let t = tensor_at(f, o.inputs, 1);
            let data = f.buffers[t.buffer as int];
            let per = t.shape[1] * t.shape[2] * t.shape[3];
            &&& is_batched_grid(weights.buffer@, t.shape[0] as int, t.shape[1] as int, t.shape[2] as int, t.shape[3] as int)
            &&& forall|n: int, i: int|
                0 <= n < t.shape[0] && 0 <= i < per ==> (#[trigger] flat_grid(weights.buffer@[n]@, t.shape[1] as int)[i]).value()
                    == T::of_byte(data[n * per + i])
            &&& weights.scale@ == t.scale
            &&& zero_points_match(weights.zero_point@, t.zero_point)
            &&& bias_matches(f, tensor_at(f, o.inputs, 2), bias)
            &&& window_values(b, table, 4, options.view_padding, options.strides, options.fused_activation)
            &&& spec_matches(input, tensor_at(f, o.inputs, 0))
            &&& spec_matches(output, tensor_at(f, o.outputs, 0))
        },
        Layer::AveragePool2D { input, filter, output, options } => {
            &&& filter.0 == i32_field(b, table, 4, 0)
            &&& filter.1 == i32_field(b, table, 3, 0)
            &&& window_values(b, table, 5, options.view_padding, options.strides, options.fused_activation)
            &&& spec_matches(input, tensor_at(f, o.inputs, 0))
            &&& spec_matches(output, tensor_at(f, o.outputs, 0))
        },
        Layer::Softmax { input, output } => {
            &&& spec_matches(input, tensor_at(f, o.inputs, 0))
            &&& spec_matches(output, tensor_at(f, o.outputs, 0))
        },
        Layer::Reshape { output } => spec_matches(output, tensor_at(f, o.outputs, 0)),
    }
}

/// The index in the tensor table that entry `k` of `list` names.
fn tensor_index(m: &ModelInfo, list: &Vec<i32>, k: usize) -> (r: Result<usize, CompileError>)
    ensures
        r is Ok <==> index_ok(m@, list@, k as int),
        r matches Ok(i) ==> k < list@.len() && list@[k as int] == i && i < m.tensors@.len(),
        r is Err ==> r == Err::<usize, CompileError>(CompileError::InvalidModel),
{
    if k >= list.len() {
        return Err(CompileError::InvalidModel);
    }
    let i = list[k];
    if i < 0 || i as usize >= m.tensors.len() {
        return Err(CompileError::InvalidModel);
    }
    Ok(i as usize)
}

/// The options table of `op`, which must be of union type `tag`.
fn options_table(op: &OperatorInfo, tag: u8) -> (r: Result<usize, CompileError>)
    ensures
        r is Ok <==> options_ok(op@, tag),
        r matches Err(e) ==> !(e is UnsupportedOperator),
        r matches Ok(t) ==> op.options_type == tag && op.options == Some(t),
{
    if op.options_type != tag {
        return Err(CompileError::InvalidModel);
    }
    match op.options {
        Some(t) => Ok(t),
        None => Err(CompileError::InvalidModel),
    }
}

/// Checks that tensor `i` holds elements of the model's type `code`.
fn check_type(m: &ModelInfo, i: usize, code: u8) -> (r: Result<(), CompileError>)
    requires
        i < m.tensors@.len(),
    ensures
        r is Ok <==> m.tensors@[i as int].tensor_type == code,
        r is Err ==> r == Err::<(), CompileError>(CompileError::MixedTypes),
{
    if m.tensors[i].tensor_type == code {
        Ok(())
    } else {
        Err(CompileError::MixedTypes)
    }
}

/// A non-negative dimension or stride.
fn dimension(v: i32) -> (r: Result<usize, CompileError>)
    ensures
        r matches Err(e) ==> !(e is UnsupportedOperator),
        r is Ok <==> v >= 0,
        r matches Ok(d) ==> d == v,
{
    if v < 0 {
        Err(CompileError::InvalidModel)
    } else {
        Ok(v as usize)
    }
}

/// The data of the buffer that tensor `t` refers to.
fn buffer_of<'a>(m: &'a ModelInfo, t: &TensorInfo) -> (r: Result<&'a Vec<u8>, CompileError>)
    ensures
        r is Ok <==> t.buffer < m@.buffers.len(),
        r matches Ok(d) ==> d@ == m@.buffers[t.buffer as int],
        r matches Err(e) ==> !(e is UnsupportedOperator),
        r matches Ok(d) ==> t.buffer < m.buffers@.len() && *d == m.buffers@[t.buffer as int],
{
    if t.buffer as usize >= m.buffers.len() {
        return Err(CompileError::InvalidModel);
    }
    Ok(&m.buffers[t.buffer as usize])
}

/// The bias vector of tensor `t`.
fn bias_of(m: &ModelInfo, t: &TensorInfo) -> (r: Result<Bias, CompileError>)
    ensures
        r matches Ok(bias) ==> bias_matches(m@, t@, bias),
        r is Ok <==> bias_ok(m@, t@),
        r matches Err(e) ==> !(e is UnsupportedOperator),
        r matches Ok(b) ==> b.scale@ == t.scale@ && b.zero_point@ == t.zero_point@,
{
    let data = buffer_of(m, t)?;
    let values = decode_i32s(data)?;
    if t.zero_point.len() < 1 || t.scale.len() != t.zero_point.len() {
        return Err(CompileError::InvalidModel);
    }
    Ok(Bias { values, scale: copy_elements(&t.scale), zero_point: copy_elements(&t.zero_point) })
}

/// The zero points of `t` as elements of type `T`.
fn zero_points<T: Quantized>(t: &TensorInfo) -> (r: Result<Vec<T>, CompileError>)
    ensures
        r matches Err(e) ==> e == CompileError::InvalidModel,
        r is Ok <==> quant_ok::<T>(t@),
        r matches Err(e) ==> !(e is UnsupportedOperator),
        r matches Ok(z) ==> z@.len() == t.zero_point@.len() && z@.len() >= 1 && t.scale@.len()
            == z@.len() && forall|i: int|
            0 <= i < z@.len() ==> (#[trigger] z@[i]).value() == t.zero_point@[i],
{
    if t.zero_point.len() < 1 || t.scale.len() != t.zero_point.len() {
        return Err(CompileError::InvalidModel);
    }
    let mut out: Vec<T> = Vec::new();
    let mut i: usize = 0;
    while i < t.zero_point.len()
        invariant
            i <= t.zero_point@.len(),
            out@.len() == i,
            forall|a: int| 0 <= a < i ==> (#[trigger] out@[a]).value() == t.zero_point@[a],
        decreases t.zero_point@.len() - i,
    {
        let z = match element_of::<T>(t.zero_point[i]) {
            Some(z) => z,
            None => return Err(CompileError::InvalidModel),
        };
        out.push(z);
        i += 1;
    }
    proof {
        assert forall|a: int| 0 <= a < t.zero_point@.len() implies T::min_value() <= #[trigger] t.zero_point@[a] <= T::max_value() by {
            T::lemma_range(out@[a]);
        }
    }
    Ok(out)
}

/// The 4-dimensional shape of `t`.
fn shape_4d(t: &TensorInfo) -> (r: Result<(usize, usize, usize, usize), CompileError>)
    ensures
        r is Ok <==> t.shape@.len() == 4 && forall|i: int| 0 <= i < 4 ==> t.shape@[i] >= 0,
        r matches Err(e) ==> !(e is UnsupportedOperator),
        r matches Ok(d) ==> t.shape@.len() == 4 && d.0 == t.shape@[0] && d.1 == t.shape@[1] && d.2
            == t.shape@[2] && d.3 == t.shape@[3],
{
    if t.shape.len() != 4 {
        return Err(CompileError::UnsupportedRank(t.shape.len()));
    }
    Ok((dimension(t.shape[0])?, dimension(t.shape[1])?, dimension(t.shape[2])?, dimension(t.shape[3])?))
}

/// The FullyConnected layer of operator `op`: its input, weights and biases
/// are inputs 0, 1 and 2, its output is output 0.
fn fully_connected_layer<T: Quantized>(b: &[u8], m: &ModelInfo, op: &OperatorInfo, code: u8) -> (r:
    Result<Layer<T>, CompileError>)
    ensures
        r matches Ok(l) ==> layer_matches::<T>(b@, m@, op@, l),
        r is Ok <==> fully_connected_ok::<T>(b@, m@, op@, code),
        r matches Err(e) ==> !(e is UnsupportedOperator),
        r matches Ok(l) ==> l is FullyConnected,
        r matches Ok(l) ==> constants_folded(l),
{
    let x = tensor_index(m, &op.inputs, 0)?;
    check_type(m, x, code)?;
    let w = tensor_index(m, &op.inputs, 1)?;
    check_type(m, w, code)?;
    let bi = tensor_index(m, &op.inputs, 2)?;
    let y = tensor_index(m, &op.outputs, 0)?;
    let input: TensorSpec<T> = tensor_spec(&m.tensors[x])?;
    let output: TensorSpec<T> = tensor_spec(&m.tensors[y])?;
    let wt = &m.tensors[w];
    if wt.shape.len() != 2 {
        return Err(CompileError::UnsupportedRank(wt.shape.len()));
    }
    let outputs = dimension(wt.shape[0])?;
    let depth = dimension(wt.shape[1])?;
    if depth as u64 > 0xFFFF_FFFF {
        return Err(CompileError::InvalidModel);
    }
    let data = buffer_of(m, wt)?;
    let buffer: Buffer2D<T> = fully_connected_weights(data, outputs, depth)?;
    let zero_point: Vec<T> = zero_points(wt)?;
    let weights = Tensor2D::new(buffer, copy_elements(&wt.scale), zero_point);
    proof {
        if depth > 0 {
            assert(is_matrix(weights.buffer@, depth as int, outputs as int));
            assert(weights.cols() == outputs);
        }
    }
    let bias = bias_of(m, &m.tensors[bi])?;
    let table = options_table(op, 8)?;
    let act = match field_u8(b, table, 0, 0) {
        Some(v) => v,
        None => return Err(CompileError::InvalidModel),
    };
    let fused_activation = activation_of(act)?;
    let constants = fully_connected_constants(input.zero_point[0], &weights);
    Ok(Layer::FullyConnected {
        input,
        weights,
        bias,
        output,
        options: FullyConnectedOptions { fused_activation },
        constants_2: constants.0,
        constants_3: constants.1,
    })
}

/// Padding, strides and activation of a convolution or pooling options table,
/// with the activation in field `activation_slot`.
fn window_options(b: &[u8], table: usize, activation_slot: usize) -> (r: Result<
    (TensorViewPadding, (usize, usize), FusedActivation),
    CompileError,
>)
    requires
        activation_slot < 1000,
    ensures
        r matches Ok(v) ==> window_values(b@, table as int, activation_slot as int, v.0, v.1, v.2),
        r is Ok <==> window_ok(b@, table as int, activation_slot as int),
        r matches Err(e) ==> !(e is UnsupportedOperator),
{
    let padding = match field_u8(b, table, 0, 0) {
        Some(v) => padding_of(v)?,
        None => return Err(CompileError::InvalidModel),
    };
    let stride_w = match field_i32(b, table, 1, 0) {
        Some(v) => dimension(v)?,
        None => return Err(CompileError::InvalidModel),
    };
    let stride_h = match field_i32(b, table, 2, 0) {
        Some(v) => dimension(v)?,
        None => return Err(CompileError::InvalidModel),
    };
    let activation = match field_u8(b, table, activation_slot, 0) {
        Some(v) => activation_of(v)?,
        None => return Err(CompileError::InvalidModel),
    };
    Ok((padding, (stride_h, stride_w), activation))
}

/// The Conv2D layer of operator `op`: input, filters and biases are inputs 0,
/// 1 and 2, the output is output 0.
fn conv_2d_layer<T: Quantized>(b: &[u8], m: &ModelInfo, op: &OperatorInfo, code: u8) -> (r: Result<
    Layer<T>,
    CompileError,
>)
    ensures
        r matches Ok(l) ==> layer_matches::<T>(b@, m@, op@, l),
        r is Ok <==> convolution_ok::<T>(b@, m@, op@, code, 1, 3),
        r matches Err(e) ==> !(e is UnsupportedOperator),
        r matches Ok(l) ==> l is Conv2D,
{
    let x = tensor_index(m, &op.inputs, 0)?;
    check_type(m, x, code)?;
    let f = tensor_index(m, &op.inputs, 1)?;
    check_type(m, f, code)?;
    let bi = tensor_index(m, &op.inputs, 2)?;
    let y = tensor_index(m, &op.outputs, 0)?;
    let input: TensorSpec<T> = tensor_spec(&m.tensors[x])?;
    let output: TensorSpec<T> = tensor_spec(&m.tensors[y])?;
    let ft = &m.tensors[f];
    assert(tensor_at(m@, op@.inputs, 1) == m.tensors@[f as int]@);
    assert(tensor_at(m@, op@.inputs, 2) == m.tensors@[bi as int]@);
    let (batches, rows, cols, chans) = shape_4d(ft)?;
    let data = buffer_of(m, ft)?;
    let buffer: Buffer4D<T> = filters_from_data(data, batches, rows, cols, chans)?;
    let filters = Tensor4D::new(buffer, copy_elements(&ft.scale), zero_points(ft)?);
    let bias = bias_of(m, &m.tensors[bi])?;
    let table = options_table(op, 1)?;
    let (view_padding, strides, fused_activation) = window_options(b, table, 3)?;
    assert(io_ok::<T>(m@, op@, code));
    Ok(Layer::Conv2D {
        input,
        filters,
        bias,
        output,
        options: Conv2DOptions { fused_activation, view_padding, strides },
    })
}

/// The DepthwiseConv2D layer of operator `op`: input, weights and biases are
/// inputs 0, 1 and 2, the output is output 0.
fn depthwise_conv_2d_layer<T: Quantized>(
    b: &[u8],
    m: &ModelInfo,
    op: &OperatorInfo,
    code: u8,
) -> (r: Result<Layer<T>, CompileError>)
    ensures
        r matches Ok(l) ==> layer_matches::<T>(b@, m@, op@, l),
        r is Ok <==> convolution_ok::<T>(b@, m@, op@, code, 2, 4),
        r matches Err(e) ==> !(e is UnsupportedOperator),
        r matches Ok(l) ==> l is DepthwiseConv2D,
{
    let x = tensor_index(m, &op.inputs, 0)?;
    check_type(m, x, code)?;
    let w = tensor_index(m, &op.inputs, 1)?;
    check_type(m, w, code)?;
    let bi = tensor_index(m, &op.inputs, 2)?;
    let y = tensor_index(m, &op.outputs, 0)?;
    let input: TensorSpec<T> = tensor_spec(&m.tensors[x])?;
    let output: TensorSpec<T> = tensor_spec(&m.tensors[y])?;
    let wt = &m.tensors[w];
    assert(tensor_at(m@, op@.inputs, 1) == m.tensors@[w as int]@);
    assert(tensor_at(m@, op@.inputs, 2) == m.tensors@[bi as int]@);
    let (batches, rows, cols, chans) = shape_4d(wt)?;
    let data = buffer_of(m, wt)?;
    let buffer: Buffer4D<T> = filters_from_data(data, batches, rows, cols, chans)?;
    let weights = Tensor4D::new(buffer, copy_elements(&wt.scale), zero_points(wt)?);
    let bias = bias_of(m, &m.tensors[bi])?;
    let table = options_table(op, 2)?;
    let (view_padding, strides, fused_activation) = window_options(b, table, 4)?;
    Ok(Layer::DepthwiseConv2D {
        input,
        weights,
        bias,
        output,
        options: DepthwiseConv2DOptions { fused_activation, view_padding, strides },
    })
}

/// The AveragePool2D layer of operator `op`.
fn average_pool_2d_layer<T: Quantized>(
    b: &[u8],
    m: &ModelInfo,
    op: &OperatorInfo,
    code: u8,
) -> (r: Result<Layer<T>, CompileError>)
    ensures
        r matches Ok(l) ==> layer_matches::<T>(b@, m@, op@, l),
        r is Ok <==> average_pool_ok::<T>(b@, m@, op@, code),
        r matches Err(e) ==> !(e is UnsupportedOperator),
        r matches Ok(l) ==> l is AveragePool2D,
{
    let x = tensor_index(m, &op.inputs, 0)?;
    check_type(m, x, code)?;
    let y = tensor_index(m, &op.outputs, 0)?;
    let input: TensorSpec<T> = tensor_spec(&m.tensors[x])?;
    let output: TensorSpec<T> = tensor_spec(&m.tensors[y])?;
    let table = options_table(op, 5)?;
    let (view_padding, strides, fused_activation) = window_options(b, table, 5)?;
    let filter_w = match field_i32(b, table, 3, 0) {
        Some(v) => dimension(v)?,
        None => return Err(CompileError::InvalidModel),
    };
    let filter_h = match field_i32(b, table, 4, 0) {
        Some(v) => dimension(v)?,
        None => return Err(CompileError::InvalidModel),
    };
    Ok(Layer::AveragePool2D {
        input,
        filter: (filter_h, filter_w),
        output,
        options: AveragePool2DOptions { fused_activation, view_padding, strides },
    })
}

/// The layer of operator `op`, whose builtin code is looked up in the
/// operator-code table.
fn layer_of<T: Quantized>(b: &[u8], m: &ModelInfo, op: &OperatorInfo, code: u8) -> (r: Result<
    Layer<T>,
    CompileError,
>)
    ensures
        r matches Ok(l) ==> layer_matches::<T>(b@, m@, op@, l),
        r is Ok <==> layer_ok::<T>(b@, m@, op@, code),
        op.opcode_index < m@.operator_codes.len() && !supported(code_of_operator(m@, op@)) ==> r == Err::<Layer<T>, CompileError>(CompileError::UnsupportedOperator(m@.operator_codes[op.opcode_index as int])),
        r matches Err(CompileError::UnsupportedOperator(c)) ==> op.opcode_index
            < m.operator_codes@.len() && c == m.operator_codes@[op.opcode_index as int] && forall|
            k: OperatorKind,
        | builtin_code(k) != c,
        r matches Ok(l) ==> op.opcode_index < m.operator_codes@.len() && builtin_code(layer_kind(l))
            == m.operator_codes@[op.opcode_index as int],
        r matches Ok(l) ==> constants_folded(l),
{
    if op.opcode_index as usize >= m.operator_codes.len() {
        return Err(CompileError::InvalidModel);
    }
    let kind = operator_kind(m.operator_codes[op.opcode_index as usize])?;
    match kind {
        OperatorKind::FullyConnected => fully_connected_layer(b, m, op, code),
        OperatorKind::Conv2D => conv_2d_layer(b, m, op, code),
        OperatorKind::DepthwiseConv2D => depthwise_conv_2d_layer(b, m, op, code),
        OperatorKind::AveragePool2D => average_pool_2d_layer(b, m, op, code),
        OperatorKind::Softmax => {
            let x = tensor_index(m, &op.inputs, 0)?;
            check_type(m, x, code)?;
            let y = tensor_index(m, &op.outputs, 0)?;
            let input: TensorSpec<T> = tensor_spec(&m.tensors[x])?;
            let output: TensorSpec<T> = tensor_spec(&m.tensors[y])?;
            Ok(Layer::Softmax { input, output })
        },
        OperatorKind::Reshape => {
            let x = tensor_index(m, &op.inputs, 0)?;
            check_type(m, x, code)?;
            let y = tensor_index(m, &op.outputs, 0)?;
            let output: TensorSpec<T> = tensor_spec(&m.tensors[y])?;
            Ok(Layer::Reshape { output })
        },
    }
}

/// The plan of a model whose graph input holds elements of type `code`: one
/// layer per operator of subgraph 0, in declared order, between the graph
/// input's and the graph output's shape and quantization.
pub fn plan<T: Quantized>(b: &[u8], m: &ModelInfo, code: u8) -> (r: Result<Plan<T>, CompileError>)
    ensures
        r is Ok <==> plan_ok::<T>(b@, m@, code),
        r matches Ok(p) ==> forall|i: int|
            0 <= i < p.layers@.len() ==> layer_matches::<T>(b@, m@, m@.operators[i], #[trigger] p.layers@[i]),
        r matches Ok(p) ==> spec_matches(p.input, tensor_at(m@, m@.inputs, 0)) && spec_matches(
            p.output,
            tensor_at(m@, m@.outputs, 0),
        ),
        forall|i: int|
            #[trigger] first_unsupported::<T>(b@, m@, code, i) ==> r == Err::<Plan<T>, CompileError>(
                CompileError::UnsupportedOperator(m@.operator_codes[m@.operators[i].opcode_index as int]),
            ),
        input_rank_unsupported(m@) ==> r == Err::<Plan<T>, CompileError>(
            CompileError::UnsupportedRank(promoted(tensor_at(m@, m@.inputs, 0).shape).len() as usize),
        ),
        r matches Err(CompileError::UnsupportedOperator(c)) ==> exists|i: int|
            0 <= i < m.operators@.len() && #[trigger] m.operators@[i].opcode_index
                < m.operator_codes@.len() && c == m.operator_codes@[m.operators@[i].opcode_index as int]
                && forall|k: OperatorKind| builtin_code(k) != c,
        r matches Ok(p) ==> {
            &&& p.layers@.len() == m.operators@.len()
            &&& forall|i: int|
                0 <= i < p.layers@.len() ==> m.operators@[i].opcode_index < m.operator_codes@.len()
                    && builtin_code(layer_kind(#[trigger] p.layers@[i])) == m.operator_codes@[m.operators@[i].opcode_index as int]
            &&& forall|i: int| 0 <= i < p.layers@.len() ==> constants_folded(#[trigger] p.layers@[i])
            &&& m.inputs@.len() >= 1 && 0 <= m.inputs@[0] < m.tensors@.len()
            &&& m.outputs@.len() >= 1 && 0 <= m.outputs@[0] < m.tensors@.len()
            &&& p.input.shape@.len() == promoted(m.tensors@[m.inputs@[0] as int].shape@).len()
            &&& forall|i: int|
                0 <= i < p.input.shape@.len() ==> p.input.shape@[i] == #[trigger] promoted(
                    m.tensors@[m.inputs@[0] as int].shape@,
                )[i]
            &&& p.output.shape@.len() == promoted(m.tensors@[m.outputs@[0] as int].shape@).len()
            &&& forall|i: int|
                0 <= i < p.output.shape@.len() ==> p.output.shape@[i] == #[trigger] promoted(
                    m.tensors@[m.outputs@[0] as int].shape@,
                )[i]
        },
{
    proof {
        reveal(plan_ok);
        reveal(first_unsupported);
        reveal(input_rank_unsupported);
    }
    let x = tensor_index(m, &m.inputs, 0)?;
    assert(tensor_at(m@, m@.inputs, 0) == m.tensors@[x as int]@);
    let input: TensorSpec<T> = tensor_spec(&m.tensors[x])?;
    let mut layers: Vec<Layer<T>> = Vec::new();
    let mut i: usize = 0;
    while i < m.operators.len()
        invariant
            i <= m.operators@.len(),
            layers@.len() == i,
            forall|a: int|
                0 <= a < i ==> m.operators@[a].opcode_index < m.operator_codes@.len()
                    && builtin_code(layer_kind(#[trigger] layers@[a])) == m.operator_codes@[m.operators@[a].opcode_index as int],
            forall|a: int| 0 <= a < i ==> constants_folded(#[trigger] layers@[a]),
            forall|a: int| 0 <= a < i ==> layer_ok::<T>(b@, m@, #[trigger] m@.operators[a], code),
            forall|a: int| 0 <= a < i ==> layer_matches::<T>(b@, m@, m@.operators[a], #[trigger] layers@[a]),
            index_ok(m@, m@.inputs, 0),
            spec_ok::<T>(tensor_at(m@, m@.inputs, 0)),
        decreases m.operators@.len() - i,
    {
        proof {
            reveal(plan_ok);
            reveal(first_unsupported);
            reveal(input_rank_unsupported);
        }
        assert(m@.operators[i as int] == m.operators@[i as int]@);
        let layer = layer_of(b, m, &m.operators[i], code)?;
        layers.push(layer);
        i += 1;
    }
    let y = tensor_index(m, &m.outputs, 0)?;
    assert(tensor_at(m@, m@.outputs, 0) == m.tensors@[y as int]@);
    let output: TensorSpec<T> = tensor_spec(&m.tensors[y])?;
    Ok(Plan { input, layers, output })
}

/// The type code of the graph input of the model in `b`.
pub open spec fn input_type(b: Seq<u8>) -> u8 {
    let f = model_facts(b);
    tensor_at(f, f.inputs, 0).tensor_type
}

/// The model in `b` compiles: it can be read, its graph input names a tensor
/// of type INT8 or UINT8, and it can be planned for that element type.
pub open spec fn compilable(b: Seq<u8>) -> bool {
    let f = model_facts(b);
    &&& model_fits(b)
    &&& index_ok(f, f.inputs, 0)
    &&& (input_type(b) == TENSOR_TYPE_INT8 && plan_ok::<i8>(b, f, TENSOR_TYPE_INT8) || input_type(b)
        == TENSOR_TYPE_UINT8 && plan_ok::<u8>(b, f, TENSOR_TYPE_UINT8))
}

/// The plan `p` has one layer per operator of subgraph 0 of the model in `b`,
/// in declared order and each of the operator's kernel, with the constants of
/// FullyConnected layers folded, and the graph input's and output's declared
/// shapes.
pub open spec fn plan_matches<T: Quantized>(b: Seq<u8>, p: Plan<T>) -> bool {
    let f = model_facts(b);
    &&& p.layers@.len() == f.operators.len()
    &&& forall|i: int|
        0 <= i < p.layers@.len() ==> f.operators[i].opcode_index < f.operator_codes.len()
            && builtin_code(layer_kind(#[trigger] p.layers@[i])) == f.operator_codes[f.operators[i].opcode_index as int]
    &&& forall|i: int| 0 <= i < p.layers@.len() ==> constants_folded(#[trigger] p.layers@[i])
    &&& forall|i: int|
        0 <= i < p.layers@.len() ==> layer_matches::<T>(b, f, f.operators[i], #[trigger] p.layers@[i])
    &&& spec_matches(p.input, tensor_at(f, f.inputs, 0))
    &&& spec_matches(p.output, tensor_at(f, f.outputs, 0))
}

/// Compiles a TensorFlow Lite model: decodes it, fixes its element type from
/// the graph input, and plans one kernel call per operator of subgraph 0.
pub fn compile(b: &[u8]) -> (r: Result<CompiledModel, CompileError>)
    ensures
        r is Ok <==> compilable(b@),
        r matches Ok(CompiledModel::Int8(p)) ==> input_type(b@) == TENSOR_TYPE_INT8 && plan_matches(b@, p),
        r matches Ok(CompiledModel::Uint8(p)) ==> input_type(b@) == TENSOR_TYPE_UINT8 && plan_matches(b@, p),
        !model_fits(b@) ==> r == Err::<CompiledModel, CompileError>(CompileError::InvalidModel),
        model_fits(b@) && index_ok(model_facts(b@), model_facts(b@).inputs, 0) && input_type(b@)
            != TENSOR_TYPE_INT8 && input_type(b@) != TENSOR_TYPE_UINT8 ==> r == Err::<
            CompiledModel,
            CompileError,
        >(CompileError::UnsupportedTensorType(input_type(b@))),
        model_fits(b@) && (input_type(b@) == TENSOR_TYPE_INT8 || input_type(b@) == TENSOR_TYPE_UINT8)
            && input_rank_unsupported(model_facts(b@)) ==> r == Err::<CompiledModel, CompileError>(
            CompileError::UnsupportedRank(
                promoted(tensor_at(model_facts(b@), model_facts(b@).inputs, 0).shape).len() as usize,
            ),
        ),
        forall|i: int|
            model_fits(b@) && input_type(b@) == TENSOR_TYPE_INT8 && #[trigger] first_unsupported::<i8>(
                b@,
                model_facts(b@),
                TENSOR_TYPE_INT8,
                i,
            ) ==> r == Err::<CompiledModel, CompileError>(
                CompileError::UnsupportedOperator(
                    model_facts(b@).operator_codes[model_facts(b@).operators[i].opcode_index as int],
                ),
            ),
        forall|i: int|
            model_fits(b@) && input_type(b@) == TENSOR_TYPE_UINT8 && #[trigger] first_unsupported::<u8>(
                b@,
                model_facts(b@),
                TENSOR_TYPE_UINT8,
                i,
            ) ==> r == Err::<CompiledModel, CompileError>(
                CompileError::UnsupportedOperator(
                    model_facts(b@).operator_codes[model_facts(b@).operators[i].opcode_index as int],
                ),
            ),
{
    let m = crate::model::decode_model(b)?;
    let ghost f = model_facts(b@);
    assert(m@ == f);
    let x = match tensor_index(&m, &m.inputs, 0) {
        Ok(x) => x,
        Err(e) => {
            proof {
                reveal(plan_ok);
                reveal(first_unsupported);
                reveal(input_rank_unsupported);
            }
            return Err(e);
        },
    };
    let code = m.tensors[x].tensor_type;
    assert(code == input_type(b@));
    match element_type(code)? {
        ElementType::Int8 => {
            let p = plan::<i8>(b, &m, code)?;
            proof {
                assert(m@.tensors[x as int] == m.tensors@[x as int]@);
                let y = m.outputs@[0] as int;
                assert(m@.tensors[y] == m.tensors@[y]@);
            }
            Ok(CompiledModel::Int8(p))
        },
        ElementType::Uint8 => {
            let p = plan::<u8>(b, &m, code)?;
            proof {
                assert(m@.tensors[x as int] == m.tensors@[x as int]@);
                let y = m.outputs@[0] as int;
                assert(m@.tensors[y] == m.tensors@[y]@);
            }
            Ok(CompiledModel::Uint8(p))
        },
    }
}

} // verus!
