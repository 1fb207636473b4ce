use vstd::prelude::*;

use crate::activation::FusedActivation;
use crate::buffer::{is_matrix, Buffer2D};
use crate::ops::{lemma_product_bound, lemma_scaled_bound, max_folded, max_product, max_terms};
use crate::quantize::{widest_max, Quantized};
use crate::tensor::Tensor2D;

verus! {

/// Options of the FullyConnected operator.
#[derive(Clone, Copy, Debug, PartialEq, Eq, Structural)]
pub struct FullyConnectedOptions {
    pub fused_activation: FusedActivation,
}

/// `Σ_{k<n} input[i][k] × weights[k][j]`.
pub open spec fn dot<T: Quantized, S>(
    input: &Tensor2D<T, S>,
    weights: &Tensor2D<T, S>,
    i: int,
    j: int,
    n: int,
) -> int
    decreases n,
{
    if n <= 0 {
        0
    } else {
        dot(input, weights, i, j, n - 1) + input.at(i, n - 1).value() * weights.at(n - 1, j).value()
    }
}

/// `Σ_{k<n} input[i][k]`.
pub open spec fn row_total<T: Quantized, S>(input: &Tensor2D<T, S>, i: int, n: int) -> int
    decreases n,
{
    if n <= 0 {
        0
    } else {
        row_total(input, i, n - 1) + input.at(i, n - 1).value()
    }
}

/// `Σ_{k<n} weights[k][j]`.
pub open spec fn column_total<T: Quantized, S>(weights: &Tensor2D<T, S>, j: int, n: int) -> int
    decreases n,
{
    if n <= 0 {
        0
    } else {
        column_total(weights, j, n - 1) + weights.at(n - 1, j).value()
    }
}

/// `Σ_{k<n} (input[i][k] − input_zp) × (weights[k][j] − weights_zp)`: the
/// dot product of the dequantized operands, up to the product of their scales.
pub open spec fn centered_dot<T: Quantized, S>(
    input: &Tensor2D<T, S>,
    weights: &Tensor2D<T, S>,
    i: int,
    j: int,
    n: int,
) -> int
    decreases n,
{
    if n <= 0 {
        0
    } else {
        centered_dot(input, weights, i, j, n - 1) + (input.at(i, n - 1).value()
            - input.zero_point@[0].value()) * (weights.at(n - 1, j).value()
            - weights.zero_point@[0].value())
    }
}

/// The accumulator of output `(i, j)` for `constants = (C2, C3)`:
/// `X0[i, j] − X1[i] − C2[j] + C3`, where `X0` is the dot product of the input
/// row and the weight column and `X1` the input row's total times the weights'
/// zero point.
pub open spec fn accumulator<T: Quantized, S>(
    input: &Tensor2D<T, S>,
    weights: &Tensor2D<T, S>,
    constants_2: Seq<i64>,
    constants_3: i64,
    i: int,
    j: int,
) -> int {
    dot(input, weights, i, j, input.cols()) - weights.zero_point@[0].value() * row_total(
        input,
        i,
        input.cols(),
    ) - constants_2[j] + constants_3
}

proof fn lemma_dot_bound<T: Quantized, S>(
    input: &Tensor2D<T, S>,
    weights: &Tensor2D<T, S>,
    i: int,
    j: int,
    n: int,
)
    requires
        0 <= n,
    ensures
        -n * max_product() <= dot(input, weights, i, j, n) <= n * max_product(),
    decreases n,
{
    if n > 0 {
        lemma_dot_bound(input, weights, i, j, n - 1);
        lemma_product_bound(input.at(i, n - 1), weights.at(n - 1, j));
    }
}

proof fn lemma_row_total_bound<T: Quantized, S>(input: &Tensor2D<T, S>, i: int, n: int)
    requires
        0 <= n,
    ensures
        -n * widest_max() <= row_total(input, i, n) <= n * widest_max(),
    decreases n,
{
    if n > 0 {
        lemma_row_total_bound(input, i, n - 1);
        T::lemma_range(input.at(i, n - 1));
    }
}

proof fn lemma_column_total_bound<T: Quantized, S>(weights: &Tensor2D<T, S>, j: int, n: int)
    requires
        0 <= n,
    ensures
        -n * widest_max() <= column_total(weights, j, n) <= n * widest_max(),
    decreases n,
{
    if n > 0 {
        lemma_column_total_bound(weights, j, n - 1);
        T::lemma_range(weights.at(n - 1, j));
    }
}

/// The integer part of the FullyConnected kernel: the accumulator of every
/// output element, from the compile-time constants `C2` (one per output
/// column) and `C3`.
pub fn fully_connected_accumulators<T: Quantized, S>(
    input: &Tensor2D<T, S>,
    weights: &Tensor2D<T, S>,
    constants_2: &Vec<i64>,
    constants_3: i64,
) -> (r: Buffer2D<i64>)
    requires
        input.well_formed(),
        weights.well_formed(),
        input.cols() == weights.rows(),
        input.cols() <= max_terms(),
        constants_2@.len() == weights.cols(),
        forall|j: int|
            0 <= j < constants_2@.len() ==> -max_folded() <= #[trigger] constants_2@[j]
                <= max_folded(),
        -max_folded() <= constants_3 <= max_folded(),
    ensures
        is_matrix(r@, input.rows(), weights.cols()),
        forall|i: int, j: int|
            0 <= i < input.rows() && 0 <= j < weights.cols() ==> (#[trigger] r@[i]@[j])
                == accumulator(input, weights, constants_2@, constants_3, i, j),
{
    let rows = input.buffer.len();
    let depth = weights.buffer.len();
    let cols = if depth > 0 { weights.buffer[0].len() } else { constants_2.len() };
    let weights_zero_point = weights.zero_point[0].to_i32() as i64;
    proof {
        T::lemma_range(weights.zero_point@[0]);
    }
    let mut out: Buffer2D<i64> = Vec::new();
    let mut i: usize = 0;
    while i < rows
        invariant
            input.well_formed(),
            weights.well_formed(),
            input.cols() == weights.rows(),
            input.cols() <= max_terms(),
            constants_2@.len() == weights.cols(),
            forall|j: int|
                0 <= j < constants_2@.len() ==> -max_folded() <= #[trigger] constants_2@[j]
                    <= max_folded(),
            -max_folded() <= constants_3 <= max_folded(),
            rows == input.rows(),
            depth == weights.rows(),
            cols == weights.cols(),
            weights_zero_point == weights.zero_point@[0].value(),
            -widest_max() <= weights_zero_point <= widest_max(),
            i <= rows,
            is_matrix(out@, i as int, cols as int),
            forall|a: int, j: int|
                0 <= a < i && 0 <= j < cols ==> (#[trigger] out@[a]@[j]) == accumulator(
                    input,
                    weights,
                    constants_2@,
                    constants_3,
                    a,
                    j,
                ),
        decreases rows - i,
    {
        let row = &input.buffer[i];
        assert(row@.len() == depth);
        let mut total: i64 = 0;
        let mut k: usize = 0;
        while k < depth
            invariant
                input.well_formed(),
                i < rows,
                rows == input.rows(),
                depth == input.cols(),
                depth <= max_terms(),
                row == input.buffer@[i as int],
                row@.len() == depth,
                k <= depth,
                total == row_total(input, i as int, k as int),
            decreases depth - k,
        {
            proof {
                lemma_row_total_bound(input, i as int, k as int);
                T::lemma_range(row@[k as int]);
            }
            total = total + row[k].to_i32() as i64;
            k += 1;
        }
        proof {
            lemma_row_total_bound(input, i as int, depth as int);
            lemma_scaled_bound(weights_zero_point as int, total as int, depth as int);
        }
        let x1 = weights_zero_point * total;
        let mut out_row: Vec<i64> = Vec::new();
        let mut j: usize = 0;
        while j < cols
            invariant
                input.well_formed(),
                weights.well_formed(),
                input.cols() == weights.rows(),
                input.cols() <= max_terms(),
                constants_2@.len() == weights.cols(),
                forall|j: int|
                    0 <= j < constants_2@.len() ==> -max_folded() <= #[trigger] constants_2@[j]
                        <= max_folded(),
                -max_folded() <= constants_3 <= max_folded(),
                i < rows,
                rows == input.rows(),
                depth == weights.rows(),
                cols == weights.cols(),
                row == input.buffer@[i as int],
                row@.len() == depth,
                x1 == weights.zero_point@[0].value() * row_total(input, i as int, depth as int),
                -max_terms() * max_product() <= x1 <= max_terms() * max_product(),
                j <= cols,
                out_row@.len() == j,
                forall|b: int|
                    0 <= b < j ==> (#[trigger] out_row@[b]) == accumulator(
                        input,
                        weights,
                        constants_2@,
                        constants_3,
                        i as int,
                        b,
                    ),
            decreases cols - j,
        {
            let mut x0: i64 = 0;
            let mut k: usize = 0;
            while k < depth
                invariant
                    input.well_formed(),
                    weights.well_formed(),
                    i < rows,
                    rows == input.rows(),
                    depth == input.cols(),
                    depth == weights.rows(),
                    depth <= max_terms(),
                    j < cols,
                    cols == weights.cols(),
                    row == input.buffer@[i as int],
                    row@.len() == depth,
                    k <= depth,
                    x0 == dot(input, weights, i as int, j as int, k as int),
                decreases depth - k,
            {
                proof {
                    lemma_dot_bound(input, weights, i as int, j as int, k as int);
                    lemma_product_bound(row@[k as int], weights.buffer@[k as int]@[j as int]);
                    assert(weights.buffer@[k as int]@.len() == cols);
                }
                let w = weights.buffer[k][j];
                x0 = x0 + (row[k].to_i32() as i64) * (w.to_i32() as i64);
                k += 1;
            }
            proof {
                lemma_dot_bound(input, weights, i as int, j as int, depth as int);
            }
            out_row.push(x0 - x1 - constants_2[j] + constants_3);
            j += 1;
        }
        out.push(out_row);
        i += 1;
    }
    out
}

/// The integer constants of the FullyConnected kernel, folded at compile
/// time: `C2[j] = input_zp × Σ_k weights[k][j]` and
/// `C3 = depth × input_zp × weights_zp`, where `depth` is the number of
/// weight rows.
pub fn fully_connected_constants<T: Quantized, S>(
    input_zero_point: T,
    weights: &Tensor2D<T, S>,
) -> (r: (Vec<i64>, i64))
    requires
        weights.well_formed(),
        weights.rows() <= max_terms(),
    ensures
        r.0@.len() == weights.cols(),
        forall|j: int|
            0 <= j < weights.cols() ==> #[trigger] r.0@[j] == input_zero_point.value()
                * column_total(weights, j, weights.rows()),
        r.1 == weights.rows() * input_zero_point.value() * weights.zero_point@[0].value(),
        forall|j: int|
            0 <= j < r.0@.len() ==> -max_folded() <= #[trigger] r.0@[j] <= max_folded(),
        -max_folded() <= r.1 <= max_folded(),
{
    let depth = weights.buffer.len();
    let cols = if depth > 0 { weights.buffer[0].len() } else { 0 };
    let input_zp = input_zero_point.to_i32() as i64;
    let weights_zp = weights.zero_point[0].to_i32() as i64;
    proof {
        T::lemma_range(input_zero_point);
        T::lemma_range(weights.zero_point@[0]);
    }
    let mut constants_2: Vec<i64> = Vec::new();
    let mut j: usize = 0;
    while j < cols
        invariant
            weights.well_formed(),
            depth == weights.rows(),
            depth <= max_terms(),
            cols == weights.cols(),
            input_zp == input_zero_point.value(),
            -widest_max() <= input_zp <= widest_max(),
            j <= cols,
            constants_2@.len() == j,
            forall|b: int|
                0 <= b < j ==> #[trigger] constants_2@[b] == input_zero_point.value()
                    * column_total(weights, b, depth as int),
            forall|b: int|
                0 <= b < j ==> -max_folded() <= #[trigger] constants_2@[b] <= max_folded(),
        decreases cols - j,
    {
        let mut total: i64 = 0;
        let mut k: usize = 0;
        while k < depth
            invariant
                weights.well_formed(),
                depth == weights.rows(),
                depth <= max_terms(),
                cols == weights.cols(),
                j < cols,
                k <= depth,
                total == column_total(weights, j as int, k as int),
            decreases depth - k,
        {
            proof {
                lemma_column_total_bound(weights, j as int, k as int);
                T::lemma_range(weights.buffer@[k as int]@[j as int]);
                assert(weights.buffer@[k as int]@.len() == cols);
            }
            total = total + weights.buffer[k][j].to_i32() as i64;
            k += 1;
        }
        proof {
            lemma_column_total_bound(weights, j as int, depth as int);
            lemma_scaled_bound(input_zp as int, total as int, depth as int);
        }
        constants_2.push(input_zp * total);
        j += 1;
    }
    proof {
        let d = depth as int;
        assert(-max_terms() * 255 <= d * input_zp <= max_terms() * 255) by (nonlinear_arith)
            requires
                0 <= d <= max_terms(),
                -255 <= input_zp <= 255,
        ;
        assert(-max_terms() * max_product() <= d * input_zp * weights_zp <= max_terms() * max_product()) by (nonlinear_arith)
            requires
                0 <= d <= max_terms(),
                -255 <= input_zp <= 255,
                -255 <= weights_zp <= 255,
        ;
    }
    let constants_3 = (depth as i64) * input_zp * weights_zp;
    (constants_2, constants_3)
}

proof fn lemma_centered_dot_expansion<T: Quantized, S>(
    input: &Tensor2D<T, S>,
    weights: &Tensor2D<T, S>,
    i: int,
    j: int,
    n: int,
)
    requires
        0 <= n,
    ensures
        centered_dot(input, weights, i, j, n) == dot(input, weights, i, j, n)
            - weights.zero_point@[0].value() * row_total(input, i, n)
            - input.zero_point@[0].value() * column_total(weights, j, n) + n
            * input.zero_point@[0].value() * weights.zero_point@[0].value(),
    decreases n,
{
    if n > 0 {
        lemma_centered_dot_expansion(input, weights, i, j, n - 1);
        let x = input.at(i, n - 1).value();
        let w = weights.at(n - 1, j).value();
        let xz = input.zero_point@[0].value();
        let wz = weights.zero_point@[0].value();
        let r = row_total(input, i, n - 1);
        let c = column_total(weights, j, n - 1);
        assert((x - xz) * (w - wz) == x * w - wz * x - xz * w + xz * wz) by (nonlinear_arith);
        assert(wz * (r + x) == wz * r + wz * x) by (nonlinear_arith);
        assert(xz * (c + w) == xz * c + xz * w) by (nonlinear_arith);
        assert(n * xz * wz == (n - 1) * xz * wz + xz * wz) by (nonlinear_arith);
    } else {
        let xz = input.zero_point@[0].value();
        let wz = weights.zero_point@[0].value();
        assert(wz * 0 == 0 && xz * 0 == 0 && 0 * xz * wz == 0) by (nonlinear_arith);
    }
}

/// With the constants folded by `fully_connected_constants`, the accumulator of
/// output `(i, j)` is the dot product of the zero-point-centered input row and
/// weight column.
pub proof fn lemma_folded_accumulator_is_centered_dot<T: Quantized, S>(
    input: &Tensor2D<T, S>,
    weights: &Tensor2D<T, S>,
    constants_2: Seq<i64>,
    constants_3: i64,
    i: int,
    j: int,
)
    requires
        input.cols() == weights.rows(),
        0 <= j < constants_2.len(),
        constants_2[j] == input.zero_point@[0].value() * column_total(weights, j, weights.rows()),
        constants_3 == weights.rows() * input.zero_point@[0].value()
            * weights.zero_point@[0].value(),
    ensures
        accumulator(input, weights, constants_2, constants_3, i, j) == centered_dot(
            input,
            weights,
            i,
            j,
            input.cols(),
        ),
{
    lemma_centered_dot_expansion(input, weights, i, j, input.cols());
}

proof fn lemma_page_dot<T: Quantized, S>(
    input: &Tensor2D<T, S>,
    weights: &Tensor2D<T, S>,
    page: &Tensor2D<T, S>,
    i: int,
    j: int,
    n: int,
)
    requires
        0 <= n <= weights.rows(),
        forall|k: int| 0 <= k < weights.rows() ==> #[trigger] page.at(k, 0) == weights.at(k, j),
    ensures
        dot(input, page, i, 0, n) == dot(input, weights, i, j, n),
    decreases n,
{
    if n > 0 {
        lemma_page_dot(input, weights, page, i, j, n - 1);
        assert(page.at(n - 1, 0) == weights.at(n - 1, j));
    }
}

/// Column `j` of the weights, taken as a one-column weight matrix with the
/// same zero point and given the `j`-th `C2`, has as accumulator of its one
/// output column the accumulator of output column `j` of the whole matrix: the
/// outputs of the pages, side by side, are the output of the whole matrix.
pub proof fn lemma_page_accumulator<T: Quantized, S>(
    input: &Tensor2D<T, S>,
    weights: &Tensor2D<T, S>,
    page: &Tensor2D<T, S>,
    constants_2: Seq<i64>,
    constants_3: i64,
    i: int,
    j: int,
)
    requires
        input.cols() == weights.rows(),
        forall|k: int| 0 <= k < weights.rows() ==> #[trigger] page.at(k, 0) == weights.at(k, j),
        page.zero_point@[0] == weights.zero_point@[0],
        0 <= j < constants_2.len(),
    ensures
        accumulator(input, page, seq![constants_2[j]], constants_3, i, 0) == accumulator(
            input,
            weights,
            constants_2,
            constants_3,
            i,
            j,
        ),
{
    lemma_page_dot(input, weights, page, i, j, input.cols());
}

/// `weights` is the identity matrix with a zero point of zero.
pub open spec fn is_identity<T: Quantized, S>(weights: &Tensor2D<T, S>) -> bool {
    &&& weights.zero_point@[0].value() == 0
    &&& forall|k: int, j: int|
        0 <= k < weights.rows() && 0 <= j < weights.cols() ==> (#[trigger] weights.at(
            k,
            j,
        )).value() == if k == j {
            1int
        } else {
            0int
        }
}

proof fn lemma_identity_prefix<T: Quantized, S>(
    input: &Tensor2D<T, S>,
    weights: &Tensor2D<T, S>,
    i: int,
    j: int,
    n: int,
)
    requires
        is_identity(weights),
        0 <= n <= weights.rows(),
        0 <= j < weights.cols(),
    ensures
        centered_dot(input, weights, i, j, n) == if j < n {
            input.at(i, j).value() - input.zero_point@[0].value()
        } else {
            0
        },
    decreases n,
{
    if n > 0 {
        lemma_identity_prefix(input, weights, i, j, n - 1);
        let w = weights.at(n - 1, j).value();
        let d = input.at(i, n - 1).value() - input.zero_point@[0].value();
        assert(w == if n - 1 == j {
            1int
        } else {
            0int
        });
        assert(d * (w - 0) == if n - 1 == j {
            d
        } else {
            0
        }) by (nonlinear_arith)
            requires
                w == if n - 1 == j {
                    1int
                } else {
                    0int
                },
        ;
    }
}

/// Under identity weights with a zero point of zero, and with the folded
/// constants, the accumulator of output `(i, j)` is the input element
/// `(i, j)` minus the input's zero point.
pub proof fn lemma_identity_weights_accumulator<T: Quantized, S>(
    input: &Tensor2D<T, S>,
    weights: &Tensor2D<T, S>,
    constants_2: Seq<i64>,
    constants_3: i64,
    i: int,
    j: int,
)
    requires
        is_identity(weights),
        input.cols() == weights.rows(),
        0 <= j < weights.rows(),
        0 <= j < weights.cols(),
        0 <= j < constants_2.len(),
        constants_2[j] == input.zero_point@[0].value() * column_total(weights, j, weights.rows()),
        constants_3 == weights.rows() * input.zero_point@[0].value()
            * weights.zero_point@[0].value(),
    ensures
        accumulator(input, weights, constants_2, constants_3, i, j) == input.at(i, j).value()
            - input.zero_point@[0].value(),
{
    lemma_folded_accumulator_is_centered_dot(input, weights, constants_2, constants_3, i, j);
    lemma_identity_prefix(input, weights, i, j, weights.rows());
}

} // verus!
