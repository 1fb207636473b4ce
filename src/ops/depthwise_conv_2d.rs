use vstd::prelude::*;

use crate::activation::FusedActivation;
use crate::buffer::{is_batched_grid, is_grid, Buffer4D};
use crate::ops::{lemma_product_bound, lemma_scaled_bound, max_product, max_terms};
use crate::quantize::{widest_max, Quantized};
use crate::tensor::{
    lemma_sweep_position, lemma_view_len, sweep_fits, zero_point_at, zero_point_of, Tensor4D,
    TensorView, TensorViewPadding,
};

verus! {

/// Options of the DepthwiseConv2D operator.
#[derive(Clone, Copy, Debug)]
pub struct DepthwiseConv2DOptions {
    pub fused_activation: FusedActivation,
    pub view_padding: TensorViewPadding,
    pub strides: (usize, usize),
}

/// Over the first `n` cells of window row `m` of the view at `focus`, for
/// output channel `c`: the sum of input × filter, the sum of the input, and
/// the sum of the filter over the cells inside the input.
pub open spec fn row_terms<T: Quantized, S>(
    input: &Tensor4D<T, S>,
    weights: &Tensor4D<T, S>,
    options: DepthwiseConv2DOptions,
    focus: (usize, usize),
    c: int,
    m: int,
    n: int,
) -> (int, int, int)
    decreases n,
{
    if n <= 0 {
        (0, 0, 0)
    } else {
        let p = row_terms(input, weights, options, focus, c, m, n - 1);
        let v = input.view_value(
            focus,
            0,
            options.view_padding,
            options.strides,
            weights.rows(),
            weights.cols(),
            m,
            n - 1,
            c,
        );
        let w = weights.at(0, m, n - 1, c).value();
        let inside = input.view_inside(
            focus,
            options.view_padding,
            options.strides,
            weights.rows(),
            weights.cols(),
            m,
            n - 1,
        );
        (p.0 + v * w, p.1 + v, p.2 + if inside {
            w
        } else {
            0
        })
    }
}

/// `row_terms` summed over the first `m` window rows.
pub open spec fn window_terms<T: Quantized, S>(
    input: &Tensor4D<T, S>,
    weights: &Tensor4D<T, S>,
    options: DepthwiseConv2DOptions,
    focus: (usize, usize),
    c: int,
    m: int,
) -> (int, int, int)
    decreases m,
{
    if m <= 0 {
        (0, 0, 0)
    } else {
        let p = window_terms(input, weights, options, focus, c, m - 1);
        let q = row_terms(input, weights, options, focus, c, m - 1, weights.cols());
        (p.0 + q.0, p.1 + q.1, p.2 + q.2)
    }
}

/// The accumulator of output channel `c` at `focus`:
/// `X0 − X1 − C2 + C3`, with `X0` the depthwise dot product of the view and
/// the filter, `X1` the view's sum times the filter's zero point, `C2` the
/// input's zero point times the filter's sum over the cells inside the input,
/// and `C3 = len × input_zp × filter_zp`.
pub open spec fn accumulator<T: Quantized, S>(
    input: &Tensor4D<T, S>,
    weights: &Tensor4D<T, S>,
    options: DepthwiseConv2DOptions,
    focus: (usize, usize),
    c: int,
) -> int {
    let t = window_terms(input, weights, options, focus, c, weights.rows());
    let len = input.window_count(
        focus,
        options.view_padding,
        options.strides,
        weights.rows(),
        weights.cols(),
        weights.rows(),
    );
    let xz = input.zero_point@[0].value();
    let wz = zero_point_at(weights.zero_point@, c).value();
    t.0 - t.1 * wz - xz * t.2 + len * xz * wz
}

proof fn lemma_row_terms_bound<T: Quantized, S>(
    input: &Tensor4D<T, S>,
    weights: &Tensor4D<T, S>,
    options: DepthwiseConv2DOptions,
    focus: (usize, usize),
    c: int,
    m: int,
    n: int,
)
    requires
        0 <= n,
    ensures
        ({
            let t = row_terms(input, weights, options, focus, c, m, n);
            &&& -n * max_product() <= t.0 <= n * max_product()
            &&& -n * widest_max() <= t.1 <= n * widest_max()
            &&& -n * widest_max() <= t.2 <= n * widest_max()
        }),
    decreases n,
{
    if n > 0 {
        lemma_row_terms_bound(input, weights, options, focus, c, m, n - 1);
        let r = crate::tensor::view_source(
            options.view_padding,
            focus.0 as int,
            options.strides.0 as int,
            weights.rows(),
            m,
        );
        let col = crate::tensor::view_source(
            options.view_padding,
            focus.1 as int,
            options.strides.1 as int,
            weights.cols(),
            n - 1,
        );
        let x = input.at(0, r, col, c);
        let w = weights.at(0, m, n - 1, c);
        lemma_product_bound(x, w);
        lemma_product_bound(w, w);
    }
}

proof fn lemma_window_terms_bound<T: Quantized, S>(
    input: &Tensor4D<T, S>,
    weights: &Tensor4D<T, S>,
    options: DepthwiseConv2DOptions,
    focus: (usize, usize),
    c: int,
    m: int,
)
    requires
        0 <= m,
        0 <= weights.cols(),
    ensures
        ({
            let t = window_terms(input, weights, options, focus, c, m);
            let cells = m * weights.cols();
            &&& -cells * max_product() <= t.0 <= cells * max_product()
            &&& -cells * widest_max() <= t.1 <= cells * widest_max()
            &&& -cells * widest_max() <= t.2 <= cells * widest_max()
        }),
    decreases m,
{
    if m > 0 {
        lemma_window_terms_bound(input, weights, options, focus, c, m - 1);
        lemma_row_terms_bound(input, weights, options, focus, c, m - 1, weights.cols());
        assert(m * weights.cols() == (m - 1) * weights.cols() + weights.cols()) by (nonlinear_arith);
    } else {
        assert(m * weights.cols() == 0) by (nonlinear_arith)
            requires
                m == 0,
        ;
    }
}

/// The accumulator of output channel `c` from the view at `focus`.
fn channel_accumulator<T: Quantized, S>(
    input: &Tensor4D<T, S>,
    weights: &Tensor4D<T, S>,
    options: DepthwiseConv2DOptions,
    focus: (usize, usize),
    view: &TensorView<T>,
    c: usize,
) -> (r: i64)
    requires
        input.well_formed(),
        weights.well_formed(),
        input.batches() == 1,
        weights.batches() == 1,
        weights.chans() == input.chans(),
        c < weights.chans(),
        weights.rows() * weights.cols() <= max_terms(),
        input.is_view_of(
            *view,
            focus,
            0,
            options.view_padding,
            options.strides,
            weights.rows(),
            weights.cols(),
        ),
        view.len <= weights.rows() * weights.cols(),
    ensures
        r == accumulator(input, weights, options, focus, c as int),
{
    let filter_rows = weights.buffer[0].len();
    let filter_cols = if filter_rows > 0 { weights.buffer[0][0].len() } else { 0 };
    let input_chans = view_chans(input);
    let ic: usize = c;
    let ghost fr = weights.rows();
    let ghost fc = weights.cols();
    assert(filter_rows == fr && filter_cols == fc) by {
        assert(is_grid(weights.buffer@[0]@, weights.rows(), weights.cols(), weights.chans()));
    }
    let mut x0: i64 = 0;
    let mut xs: i64 = 0;
    let mut wm: i64 = 0;
    let mut m: usize = 0;
    while m < filter_rows
        invariant
            input.well_formed(),
            weights.well_formed(),
            input.batches() == 1,
            weights.batches() == 1,
            c < weights.chans(),
            input_chans == input.chans(),
            ic == c,
            ic < input_chans,
            filter_rows == fr,
            filter_cols == fc,
            fr == weights.rows(),
            fc == weights.cols(),
            fr * fc <= max_terms(),
            input.is_view_of(*view, focus, 0, options.view_padding, options.strides, fr, fc),
            m <= filter_rows,
            (x0 as int, xs as int, wm as int) == window_terms(input, weights, options, focus, c as int, m as int),
        decreases filter_rows - m,
    {
        let ghost base = window_terms(input, weights, options, focus, c as int, m as int);
        proof {
            lemma_window_terms_bound(input, weights, options, focus, c as int, m as int);
            assert(m * fc + fc <= fr * fc) by (nonlinear_arith)
                requires
                    m < fr,
                    fc >= 0,
            ;
            assert(fc <= fr * fc) by (nonlinear_arith)
                requires
                    m < fr,
                    fc >= 0,
            ;
            assert(is_grid(weights.buffer@[0]@, fr, fc, weights.chans()));
        }
        let mut n: usize = 0;
        while n < filter_cols
            invariant
                input.well_formed(),
                weights.well_formed(),
                input.batches() == 1,
                weights.batches() == 1,
                c < weights.chans(),
                input_chans == input.chans(),
                ic == c,
                ic < input_chans,
                filter_rows == fr,
                filter_cols == fc,
                fr == weights.rows(),
                fc == weights.cols(),
                fr * fc <= max_terms(),
                m * fc + fc <= fr * fc,
                is_grid(weights.buffer@[0]@, fr, fc, weights.chans()),
                input.is_view_of(*view, focus, 0, options.view_padding, options.strides, fr, fc),
                m < filter_rows,
                n <= filter_cols,
                base == window_terms(input, weights, options, focus, c as int, m as int),
                -(m * fc) * max_product() <= base.0 <= (m * fc) * max_product(),
                -(m * fc) * widest_max() <= base.1 <= (m * fc) * widest_max(),
                -(m * fc) * widest_max() <= base.2 <= (m * fc) * widest_max(),
                ({
                    let q = row_terms(input, weights, options, focus, c as int, m as int, n as int);
                    (x0 as int, xs as int, wm as int) == (base.0 + q.0, base.1 + q.1, base.2 + q.2)
                }),
            decreases filter_cols - n,
        {
            proof {
                lemma_row_terms_bound(input, weights, options, focus, c as int, m as int, n as int);
                lemma_product_bound(view.buffer@[m as int]@[n as int]@[ic as int], weights.buffer@[0]@[m as int]@[n as int]@[c as int]);
                lemma_product_bound(weights.buffer@[0]@[m as int]@[n as int]@[c as int], weights.buffer@[0]@[m as int]@[n as int]@[c as int]);
                T::lemma_range(view.buffer@[m as int]@[n as int]@[ic as int]);
            }
            let v = view.buffer[m][n][ic].to_i32() as i64;
            let w = weights.buffer[0][m][n][c].to_i32() as i64;
            x0 = x0 + v * w;
            xs = xs + v;
            if view.mask[m][n] {
                wm = wm + w;
            }
            n += 1;
        }
        m += 1;
    }
    proof {
        lemma_window_terms_bound(input, weights, options, focus, c as int, fr);
        lemma_view_len(input, *view, focus, 0, options.view_padding, options.strides, fr, fc);
        T::lemma_range(input.zero_point@[0]);
        T::lemma_range(zero_point_at(weights.zero_point@, c as int));
    }
    let xz = input.zero_point[0].to_i32() as i64;
    let wz = zero_point_of(&weights.zero_point, c).to_i32() as i64;
    proof {
        lemma_scaled_bound(wz as int, xs as int, fr * fc);
        lemma_scaled_bound(xz as int, wm as int, fr * fc);
        let len = view.len as int;
        assert(-max_terms() * 255 <= len * xz <= max_terms() * 255) by (nonlinear_arith)
            requires
                0 <= len <= max_terms(),
                -255 <= xz <= 255,
        ;
        assert(-max_terms() * max_product() <= len * xz * wz <= max_terms() * max_product()) by (nonlinear_arith)
            requires
                -max_terms() * 255 <= len * xz <= max_terms() * 255,
                -255 <= wz <= 255,
        ;
    }
    proof {
        let cells = fr * fc;
        let t = window_terms(input, weights, options, focus, c as int, fr);
        assert(x0 == t.0);
        assert(-cells * max_product() <= t.0 <= cells * max_product());
        assert(-max_terms() * max_product() <= t.0 <= max_terms() * max_product()) by (nonlinear_arith)
            requires
                -cells * max_product() <= t.0 <= cells * max_product(),
                0 <= cells <= max_terms(),
                max_product() == 65025,
        ;
        assert(-max_terms() * max_product() <= x0 <= max_terms() * max_product());
        assert(-max_terms() * max_product() <= xs * wz <= max_terms() * max_product());
        assert(-max_terms() * max_product() <= xz * wm <= max_terms() * max_product());
    }
    let len = view.len as i64;
    x0 - xs * wz - xz * wm + len * xz * wz
}

/// `weights` is a single 1 × 1 filter of ones with zero points of zero.
pub open spec fn is_unit_filter<T: Quantized, S>(weights: &Tensor4D<T, S>) -> bool {
    &&& weights.batches() == 1
    &&& weights.rows() == 1
    &&& weights.cols() == 1
    &&& forall|c: int| 0 <= c < weights.chans() ==> (#[trigger] weights.at(0, 0, 0, c)).value() == 1
    &&& forall|c: int|
        0 <= c < weights.zero_point@.len() ==> (#[trigger] weights.zero_point@[c]).value() == 0
}

/// Under `Valid` padding and unit strides, a 1 × 1 filter of ones with zero
/// points of zero gives each output channel the accumulator of its input
/// element minus the input's zero point.
pub proof fn lemma_unit_filter_accumulator<T: Quantized, S>(
    input: &Tensor4D<T, S>,
    weights: &Tensor4D<T, S>,
    options: DepthwiseConv2DOptions,
    i: usize,
    j: usize,
    c: int,
)
    requires
        input.well_formed(),
        weights.well_formed(),
        is_unit_filter(weights),
        options.view_padding == TensorViewPadding::Valid,
        options.strides == (1usize, 1usize),
        i < input.rows(),
        j < input.cols(),
        0 <= c < weights.chans(),
        c < input.chans(),
    ensures
        accumulator(input, weights, options, (i, j), c) == input.at(0, i as int, j as int, c).value()
            - input.zero_point@[0].value(),
{
    let focus = (i, j);
    let x = input.at(0, i as int, j as int, c).value();
    let xz = input.zero_point@[0].value();
    assert(input.view_inside(focus, options.view_padding, options.strides, 1, 1, 0, 0));
    assert(input.view_value(focus, 0, options.view_padding, options.strides, 1, 1, 0, 0, c) == x);
    assert(weights.at(0, 0, 0, c).value() == 1);
    assert(x * weights.at(0, 0, 0, c).value() == x) by (nonlinear_arith)
        requires
            weights.at(0, 0, 0, c).value() == 1,
    ;
    assert(zero_point_at(weights.zero_point@, c).value() == 0);
    assert(row_terms(input, weights, options, focus, c, 0, 0) == (0int, 0int, 0int));
    assert(row_terms(input, weights, options, focus, c, 0, 1) == (x, x, 1int));
    assert(window_terms(input, weights, options, focus, c, 0) == (0int, 0int, 0int));
    assert(window_terms(input, weights, options, focus, c, 1) == (x, x, 1int));
    assert(input.row_count(focus, options.view_padding, options.strides, 1, 1, 0, 0) == 0);
    assert(input.row_count(focus, options.view_padding, options.strides, 1, 1, 0, 1) == 1);
    assert(input.window_count(focus, options.view_padding, options.strides, 1, 1, 0) == 0);
    assert(input.window_count(focus, options.view_padding, options.strides, 1, 1, 1) == 1);
    assert(x - x * 0 - xz * 1 + 1 * xz * 0 == x - xz) by (nonlinear_arith);
}

/// Number of channels of the input's pixels.
fn view_chans<T: Quantized, S>(input: &Tensor4D<T, S>) -> (r: usize)
    requires
        input.well_formed(),
        input.batches() >= 1,
    ensures
        r == input.chans(),
{
    let rows = input.buffer[0].len();
    let cols = if rows > 0 { input.buffer[0][0].len() } else { 0 };
    if cols > 0 { input.buffer[0][0][0].len() } else { 0 }
}

/// The integer part of the DepthwiseConv2D kernel: the accumulator of every
/// channel of every position of an `output_rows` × `output_cols` output.
pub fn depthwise_conv_2d_accumulators<T: Quantized, S>(
    input: &Tensor4D<T, S>,
    weights: &Tensor4D<T, S>,
    options: DepthwiseConv2DOptions,
    output_rows: usize,
    output_cols: usize,
) -> (r: Buffer4D<i64>)
    requires
        input.well_formed(),
        weights.well_formed(),
        input.batches() == 1,
        weights.batches() == 1,
        weights.chans() == input.chans(),
        weights.rows() * weights.cols() <= max_terms(),
        sweep_fits(options.strides.0 as int, output_rows as int, weights.rows(), usize::MAX as int),
        sweep_fits(options.strides.1 as int, output_cols as int, weights.cols(), usize::MAX as int),
        options.view_padding == TensorViewPadding::Valid ==> sweep_fits(
            options.strides.0 as int,
            output_rows as int,
            weights.rows(),
            input.rows(),
        ) && sweep_fits(options.strides.1 as int, output_cols as int, weights.cols(), input.cols()),
    ensures
        is_batched_grid(r@, 1, output_rows as int, output_cols as int, weights.chans()),
        forall|i: int, j: int, c: int|
            0 <= i < output_rows && 0 <= j < output_cols && 0 <= c < weights.chans() ==> (
            #[trigger] r@[0]@[i]@[j]@[c]) == accumulator(
                input,
                weights,
                options,
                (i as usize, j as usize),
                c,
            ),
{
    let filter_rows = weights.buffer[0].len();
    let filter_cols = if filter_rows > 0 { weights.buffer[0][0].len() } else { 0 };
    let chans = if filter_cols > 0 { weights.buffer[0][0][0].len() } else { 0 };
    let mut grid: Vec<Vec<Vec<i64>>> = Vec::new();
    let mut i: usize = 0;
    while i < output_rows
        invariant
            input.well_formed(),
            weights.well_formed(),
            input.batches() == 1,
            weights.batches() == 1,
            weights.chans() == input.chans(),
            weights.rows() * weights.cols() <= max_terms(),
            sweep_fits(options.strides.0 as int, output_rows as int, weights.rows(), usize::MAX as int),
            sweep_fits(options.strides.1 as int, output_cols as int, weights.cols(), usize::MAX as int),
            options.view_padding == TensorViewPadding::Valid ==> sweep_fits(
                options.strides.0 as int,
                output_rows as int,
                weights.rows(),
                input.rows(),
            ) && sweep_fits(options.strides.1 as int, output_cols as int, weights.cols(), input.cols()),
            filter_rows == weights.rows(),
            filter_cols == weights.cols(),
            chans == weights.chans(),
            i <= output_rows,
            is_grid(grid@, i as int, output_cols as int, chans as int),
            forall|a: int, j: int, c: int|
                0 <= a < i && 0 <= j < output_cols && 0 <= c < chans ==> (
                #[trigger] grid@[a]@[j]@[c]) == accumulator(
                    input,
                    weights,
                    options,
                    (a as usize, j as usize),
                    c,
                ),
        decreases output_rows - i,
    {
        proof {
            lemma_sweep_position(options.strides.0 as int, output_rows as int, weights.rows(), usize::MAX as int, i as int);
            if options.view_padding == TensorViewPadding::Valid {
                lemma_sweep_position(options.strides.0 as int, output_rows as int, weights.rows(), input.rows(), i as int);
            }
        }
        let mut row: Vec<Vec<i64>> = Vec::new();
        let mut j: usize = 0;
        while j < output_cols
            invariant
                input.well_formed(),
                weights.well_formed(),
                input.batches() == 1,
                weights.batches() == 1,
                weights.chans() == input.chans(),
                weights.rows() * weights.cols() <= max_terms(),
                sweep_fits(options.strides.1 as int, output_cols as int, weights.cols(), usize::MAX as int),
                options.view_padding == TensorViewPadding::Valid ==> sweep_fits(
                    options.strides.1 as int,
                    output_cols as int,
                    weights.cols(),
                    input.cols(),
                ),
                options.strides.0 * i + weights.rows() <= usize::MAX,
                options.view_padding == TensorViewPadding::Valid ==> options.strides.0 * i
                    + weights.rows() <= input.rows(),
                filter_rows == weights.rows(),
                filter_cols == weights.cols(),
                chans == weights.chans(),
                i < output_rows,
                j <= output_cols,
                row@.len() == j,
                forall|b: int| 0 <= b < j ==> (#[trigger] row@[b]@).len() == chans,
                forall|b: int, c: int|
                    0 <= b < j && 0 <= c < chans ==> (#[trigger] row@[b]@[c]) == accumulator(
                        input,
                        weights,
                        options,
                        (i, b as usize),
                        c,
                    ),
            decreases output_cols - j,
        {
            proof {
                lemma_sweep_position(options.strides.1 as int, output_cols as int, weights.cols(), usize::MAX as int, j as int);
                if options.view_padding == TensorViewPadding::Valid {
                    lemma_sweep_position(options.strides.1 as int, output_cols as int, weights.cols(), input.cols(), j as int);
                }
            }
            let view = input.view(
                (i, j),
                0,
                options.view_padding,
                options.strides,
                filter_rows,
                filter_cols,
            );
            let mut pixel: Vec<i64> = Vec::new();
            let mut c: usize = 0;
            while c < chans
                invariant
                    input.well_formed(),
                    weights.well_formed(),
                    input.batches() == 1,
                    weights.batches() == 1,
                    weights.chans() == input.chans(),
                    weights.rows() * weights.cols() <= max_terms(),
                    chans == weights.chans(),
                    input.is_view_of(
                        view,
                        (i, j),
                        0,
                        options.view_padding,
                        options.strides,
                        weights.rows(),
                        weights.cols(),
                    ),
                    view.len <= weights.rows() * weights.cols(),
                    c <= chans,
                    pixel@.len() == c,
                    forall|k: int|
                        0 <= k < c ==> (#[trigger] pixel@[k]) == accumulator(
                            input,
                            weights,
                            options,
                            (i, j),
                            k,
                        ),
                decreases chans - c,
            {
                let acc = channel_accumulator(input, weights, options, (i, j), &view, c);
                pixel.push(acc);
                c += 1;
            }
            row.push(pixel);
            j += 1;
        }
        grid.push(row);
        i += 1;
    }
    let mut out: Buffer4D<i64> = Vec::new();
    out.push(grid);
    out
}

} // verus!
