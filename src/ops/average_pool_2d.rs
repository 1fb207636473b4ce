use vstd::prelude::*;

use crate::activation::FusedActivation;
use crate::buffer::{is_batched_grid, is_grid, is_matrix, Buffer2D, Buffer4D};
use crate::ops::max_terms;
use crate::quantize::{widest_max, Quantized};
use crate::tensor::{
    lemma_sweep_position, lemma_view_len, sweep_fits, view_source, Tensor4D, TensorView,
    TensorViewPadding,
};

verus! {

/// Options of the AveragePool2D operator.
#[derive(Clone, Copy, Debug)]
pub struct AveragePool2DOptions {
    pub fused_activation: FusedActivation,
    pub view_padding: TensorViewPadding,
    pub strides: (usize, usize),
}

/// Sum of channel `c` over the first `n` cells of window row `m` of the
/// `filter` view at `focus`; cells outside the input read as zero.
pub open spec fn row_sum<T: Quantized, S>(
    input: &Tensor4D<T, S>,
    options: AveragePool2DOptions,
    filter: (usize, usize),
    focus: (usize, usize),
    c: int,
    m: int,
    n: int,
) -> int
    decreases n,
{
    if n <= 0 {
        0
    } else {
        row_sum(input, options, filter, focus, c, m, n - 1) + input.view_value(
            focus,
            0,
            options.view_padding,
            options.strides,
            filter.0 as int,
            filter.1 as int,
            m,
            n - 1,
            c,
        )
    }
}

/// Sum of channel `c` over the first `m` rows of the `filter` view at `focus`.
pub open spec fn window_sum<T: Quantized, S>(
    input: &Tensor4D<T, S>,
    options: AveragePool2DOptions,
    filter: (usize, usize),
    focus: (usize, usize),
    c: int,
    m: int,
) -> int
    decreases m,
{
    if m <= 0 {
        0
    } else {
        window_sum(input, options, filter, focus, c, m - 1) + row_sum(
            input,
            options,
            filter,
            focus,
            c,
            m - 1,
            filter.1 as int,
        )
    }
}

proof fn lemma_row_sum_bound<T: Quantized, S>(
    input: &Tensor4D<T, S>,
    options: AveragePool2DOptions,
    filter: (usize, usize),
    focus: (usize, usize),
    c: int,
    m: int,
    n: int,
)
    requires
        0 <= n,
    ensures
        -n * widest_max() <= row_sum(input, options, filter, focus, c, m, n) <= n * widest_max(),
    decreases n,
{
    if n > 0 {
        lemma_row_sum_bound(input, options, filter, focus, c, m, n - 1);
        let r = view_source(options.view_padding, focus.0 as int, options.strides.0 as int, filter.0 as int, m);
        let col = view_source(options.view_padding, focus.1 as int, options.strides.1 as int, filter.1 as int, n - 1);
        T::lemma_range(input.at(0, r, col, c));
    }
}

proof fn lemma_window_sum_bound<T: Quantized, S>(
    input: &Tensor4D<T, S>,
    options: AveragePool2DOptions,
    filter: (usize, usize),
    focus: (usize, usize),
    c: int,
    m: int,
)
    requires
        0 <= m,
    ensures
        -(m * filter.1) * widest_max() <= window_sum(input, options, filter, focus, c, m) <= (m
            * filter.1) * widest_max(),
    decreases m,
{
    if m > 0 {
        lemma_window_sum_bound(input, options, filter, focus, c, m - 1);
        lemma_row_sum_bound(input, options, filter, focus, c, m - 1, filter.1 as int);
        assert(m * filter.1 == (m - 1) * filter.1 + filter.1) by (nonlinear_arith);
    } else {
        assert(m * filter.1 == 0) by (nonlinear_arith)
            requires
                m == 0,
        ;
    }
}

/// With a 1 × 1 filter and unit strides, the window of every position of the
/// input holds that position alone: its sum is the input element and its
/// count is one.
pub proof fn lemma_unit_pool<T: Quantized, S>(
    input: &Tensor4D<T, S>,
    options: AveragePool2DOptions,
    i: usize,
    j: usize,
    c: int,
)
    requires
        options.strides == (1usize, 1usize),
        i < input.rows(),
        j < input.cols(),
    ensures
        window_sum(input, options, (1, 1), (i, j), c, 1) == input.at(0, i as int, j as int, c).value(),
        input.window_count((i, j), options.view_padding, options.strides, 1, 1, 1) == 1,
{
    let focus = (i, j);
    assert(input.view_inside(focus, options.view_padding, options.strides, 1, 1, 0, 0));
    assert(row_sum(input, options, (1, 1), focus, c, 0, 0) == 0);
    assert(window_sum(input, options, (1, 1), focus, c, 0) == 0);
    assert(input.row_count(focus, options.view_padding, options.strides, 1, 1, 0, 0) == 0);
    assert(input.window_count(focus, options.view_padding, options.strides, 1, 1, 0) == 0);
}

/// Sum of channel `c` over the view.
fn channel_sum<T: Quantized, S>(
    input: &Tensor4D<T, S>,
    options: AveragePool2DOptions,
    filter: (usize, usize),
    focus: (usize, usize),
    view: &TensorView<T>,
    c: usize,
) -> (r: i64)
    requires
        input.well_formed(),
        input.batches() == 1,
        c < input.chans(),
        filter.0 * filter.1 <= max_terms(),
        input.is_view_of(
            *view,
            focus,
            0,
            options.view_padding,
            options.strides,
            filter.0 as int,
            filter.1 as int,
        ),
    ensures
        r == window_sum(input, options, filter, focus, c as int, filter.0 as int),
{
    let mut sum: i64 = 0;
    let mut m: usize = 0;
    while m < filter.0
        invariant
            input.well_formed(),
            c < input.chans(),
            filter.0 * filter.1 <= max_terms(),
            input.is_view_of(*view, focus, 0, options.view_padding, options.strides, filter.0 as int, filter.1 as int),
            m <= filter.0,
            sum == window_sum(input, options, filter, focus, c as int, m as int),
        decreases filter.0 - m,
    {
        let ghost base = sum as int;
        proof {
            lemma_window_sum_bound(input, options, filter, focus, c as int, m as int);
            assert(m * filter.1 + filter.1 <= filter.0 * filter.1) by (nonlinear_arith)
                requires
                    m < filter.0,
            ;
        }
        let mut n: usize = 0;
        while n < filter.1
            invariant
                input.well_formed(),
                c < input.chans(),
                filter.0 * filter.1 <= max_terms(),
                input.is_view_of(*view, focus, 0, options.view_padding, options.strides, filter.0 as int, filter.1 as int),
                m < filter.0,
                n <= filter.1,
                m * filter.1 + filter.1 <= filter.0 * filter.1,
                base == window_sum(input, options, filter, focus, c as int, m as int),
                -(m * filter.1) * widest_max() <= base <= (m * filter.1) * widest_max(),
                sum == base + row_sum(input, options, filter, focus, c as int, m as int, n as int),
            decreases filter.1 - n,
        {
            proof {
                lemma_row_sum_bound(input, options, filter, focus, c as int, m as int, n as int);
                T::lemma_range(view.buffer@[m as int]@[n as int]@[c as int]);
            }
            sum = sum + view.buffer[m][n][c].to_i32() as i64;
            n += 1;
        }
        m += 1;
    }
    sum
}

/// The integer part of the AveragePool2D kernel over an `output_rows` ×
/// `output_cols` output: for every position and channel the sum of the
/// `filter`-sized view at that position, and for every position the number of
/// view cells inside the input, by which the caller divides.
pub fn average_pool_2d_sums<T: Quantized, S>(
    input: &Tensor4D<T, S>,
    filter: (usize, usize),
    options: AveragePool2DOptions,
    output_rows: usize,
    output_cols: usize,
) -> (r: (Buffer4D<i64>, Buffer2D<usize>))
    requires
        input.well_formed(),
        input.batches() == 1,
        filter.0 * filter.1 <= max_terms(),
        sweep_fits(options.strides.0 as int, output_rows as int, filter.0 as int, usize::MAX as int),
        sweep_fits(options.strides.1 as int, output_cols as int, filter.1 as int, usize::MAX as int),
        options.view_padding == TensorViewPadding::Valid ==> sweep_fits(
            options.strides.0 as int,
            output_rows as int,
            filter.0 as int,
            input.rows(),
        ) && sweep_fits(options.strides.1 as int, output_cols as int, filter.1 as int, input.cols()),
    ensures
        is_batched_grid(r.0@, 1, output_rows as int, output_cols as int, input.chans()),
        is_matrix(r.1@, output_rows as int, output_cols as int),
        forall|i: int, j: int, c: int|
            0 <= i < output_rows && 0 <= j < output_cols && 0 <= c < input.chans() ==> (
            #[trigger] r.0@[0]@[i]@[j]@[c]) == window_sum(
                input,
                options,
                filter,
                (i as usize, j as usize),
                c,
                filter.0 as int,
            ),
        forall|i: int, j: int|
            0 <= i < output_rows && 0 <= j < output_cols ==> (#[trigger] r.1@[i]@[j])
                == input.window_count(
                (i as usize, j as usize),
                options.view_padding,
                options.strides,
                filter.0 as int,
                filter.1 as int,
                filter.0 as int,
            ),
{
    let rows = input.buffer[0].len();
    let cols = if rows > 0 { input.buffer[0][0].len() } else { 0 };
    let chans = if cols > 0 { input.buffer[0][0][0].len() } else { 0 };
    let mut sums: Vec<Vec<Vec<i64>>> = Vec::new();
    let mut counts: Buffer2D<usize> = Vec::new();
    let mut i: usize = 0;
    while i < output_rows
        invariant
            input.well_formed(),
            input.batches() == 1,
            filter.0 * filter.1 <= max_terms(),
            sweep_fits(options.strides.0 as int, output_rows as int, filter.0 as int, usize::MAX as int),
            sweep_fits(options.strides.1 as int, output_cols as int, filter.1 as int, usize::MAX as int),
            options.view_padding == TensorViewPadding::Valid ==> sweep_fits(
                options.strides.0 as int,
                output_rows as int,
                filter.0 as int,
                input.rows(),
            ) && sweep_fits(options.strides.1 as int, output_cols as int, filter.1 as int, input.cols()),
            chans == input.chans(),
            i <= output_rows,
            is_grid(sums@, i as int, output_cols as int, chans as int),
            is_matrix(counts@, i as int, output_cols as int),
            forall|a: int, j: int, c: int|
                0 <= a < i && 0 <= j < output_cols && 0 <= c < chans ==> (
                #[trigger] sums@[a]@[j]@[c]) == window_sum(
                    input,
                    options,
                    filter,
                    (a as usize, j as usize),
                    c,
                    filter.0 as int,
                ),
            forall|a: int, j: int|
                0 <= a < i && 0 <= j < output_cols ==> (#[trigger] counts@[a]@[j])
                    == input.window_count(
                    (a as usize, j as usize),
                    options.view_padding,
                    options.strides,
                    filter.0 as int,
                    filter.1 as int,
                    filter.0 as int,
                ),
        decreases output_rows - i,
    {
        proof {
            lemma_sweep_position(options.strides.0 as int, output_rows as int, filter.0 as int, usize::MAX as int, i as int);
            if options.view_padding == TensorViewPadding::Valid {
                lemma_sweep_position(options.strides.0 as int, output_rows as int, filter.0 as int, input.rows(), i as int);
            }
        }
        let mut row: Vec<Vec<i64>> = Vec::new();
        let mut row_counts: Vec<usize> = Vec::new();
        let mut j: usize = 0;
        while j < output_cols
            invariant
                input.well_formed(),
                input.batches() == 1,
                filter.0 * filter.1 <= max_terms(),
                sweep_fits(options.strides.1 as int, output_cols as int, filter.1 as int, usize::MAX as int),
                options.view_padding == TensorViewPadding::Valid ==> sweep_fits(
                    options.strides.1 as int,
                    output_cols as int,
                    filter.1 as int,
                    input.cols(),
                ),
                options.strides.0 * i + filter.0 <= usize::MAX,
                options.view_padding == TensorViewPadding::Valid ==> options.strides.0 * i
                    + filter.0 <= input.rows(),
                chans == input.chans(),
                i < output_rows,
                j <= output_cols,
                row@.len() == j,
                row_counts@.len() == j,
                forall|b: int| 0 <= b < j ==> (#[trigger] row@[b]@).len() == chans,
                forall|b: int, c: int|
                    0 <= b < j && 0 <= c < chans ==> (#[trigger] row@[b]@[c]) == window_sum(
                        input,
                        options,
                        filter,
                        (i, b as usize),
                        c,
                        filter.0 as int,
                    ),
                forall|b: int|
                    0 <= b < j ==> (#[trigger] row_counts@[b]) == input.window_count(
                        (i, b as usize),
                        options.view_padding,
                        options.strides,
                        filter.0 as int,
                        filter.1 as int,
                        filter.0 as int,
                    ),
            decreases output_cols - j,
        {
            proof {
                lemma_sweep_position(options.strides.1 as int, output_cols as int, filter.1 as int, usize::MAX as int, j as int);
                if options.view_padding == TensorViewPadding::Valid {
                    lemma_sweep_position(options.strides.1 as int, output_cols as int, filter.1 as int, input.cols(), j as int);
                }
            }
            let view = input.view((i, j), 0, options.view_padding, options.strides, filter.0, filter.1);
            proof {
                lemma_view_len(input, view, (i, j), 0, options.view_padding, options.strides, filter.0 as int, filter.1 as int);
            }
            let mut pixel: Vec<i64> = Vec::new();
            let mut c: usize = 0;
            while c < chans
                invariant
                    input.well_formed(),
                    input.batches() == 1,
                    filter.0 * filter.1 <= max_terms(),
                    chans == input.chans(),
                    input.is_view_of(view, (i, j), 0, options.view_padding, options.strides, filter.0 as int, filter.1 as int),
                    c <= chans,
                    pixel@.len() == c,
                    forall|k: int|
                        0 <= k < c ==> (#[trigger] pixel@[k]) == window_sum(
                            input,
                            options,
                            filter,
                            (i, j),
                            k,
                            filter.0 as int,
                        ),
                decreases chans - c,
            {
                let sum = channel_sum(input, options, filter, (i, j), &view, c);
                pixel.push(sum);
                c += 1;
            }
            row.push(pixel);
            row_counts.push(view.len);
            j += 1;
        }
        sums.push(row);
        counts.push(row_counts);
        i += 1;
    }
    let mut out: Buffer4D<i64> = Vec::new();
    out.push(sums);
    (out, counts)
}

} // verus!
