use vstd::prelude::*;

use crate::activation::FusedActivation;
use crate::buffer::{is_batched_grid, is_grid, Buffer4D};
use crate::ops::{lemma_product_bound, lemma_scaled_bound, max_product, max_terms};
use crate::quantize::{widest_max, Quantized};
use crate::tensor::{
    lemma_sweep_position, lemma_view_len, sweep_fits, view_source, zero_point_at, zero_point_of,
    Tensor4D, TensorView, TensorViewPadding,
};

verus! {

/// Options of the Conv2D operator.
#[derive(Clone, Copy, Debug)]
pub struct Conv2DOptions {
    pub fused_activation: FusedActivation,
    pub view_padding: TensorViewPadding,
    pub strides: (usize, usize),
}

/// Over the first `k` channels of window cell `(m, n)` of the view at `focus`,
/// for filter `b`: the sum of input × filter, of the input, and of the filter.
pub open spec fn pixel_terms<T: Quantized, S>(
    input: &Tensor4D<T, S>,
    filters: &Tensor4D<T, S>,
    options: Conv2DOptions,
    focus: (usize, usize),
    b: int,
    m: int,
    n: int,
    k: int,
) -> (int, int, int)
    decreases k,
{
    if k <= 0 {
        (0, 0, 0)
    } else {
        let p = pixel_terms(input, filters, options, focus, b, m, n, k - 1);
        let v = input.view_value(
            focus,
            0,
            options.view_padding,
            options.strides,
            filters.rows(),
            filters.cols(),
            m,
            n,
            k - 1,
        );
        let f = filters.at(b, m, n, k - 1).value();
        (p.0 + v * f, p.1 + v, p.2 + f)
    }
}

/// `pixel_terms` over all channels, summed over the first `n` cells of window
/// row `m`; the filter sum counts only the cells inside the input.
pub open spec fn row_terms<T: Quantized, S>(
    input: &Tensor4D<T, S>,
    filters: &Tensor4D<T, S>,
    options: Conv2DOptions,
    focus: (usize, usize),
    b: int,
    m: int,
    n: int,
) -> (int, int, int)
    decreases n,
{
    if n <= 0 {
        (0, 0, 0)
    } else {
        let p = row_terms(input, filters, options, focus, b, m, n - 1);
        let q = pixel_terms(input, filters, options, focus, b, m, n - 1, filters.chans());
        let inside = input.view_inside(
            focus,
            options.view_padding,
            options.strides,
            filters.rows(),
            filters.cols(),
            m,
            n - 1,
        );
        (p.0 + q.0, p.1 + q.1, p.2 + if inside {
            q.2
        } else {
            0
        })
    }
}

/// `row_terms` summed over the first `m` window rows.
pub open spec fn window_terms<T: Quantized, S>(
    input: &Tensor4D<T, S>,
    filters: &Tensor4D<T, S>,
    options: Conv2DOptions,
    focus: (usize, usize),
    b: int,
    m: int,
) -> (int, int, int)
    decreases m,
{
    if m <= 0 {
        (0, 0, 0)
    } else {
        let p = window_terms(input, filters, options, focus, b, m - 1);
        let q = row_terms(input, filters, options, focus, b, m - 1, filters.cols());
        (p.0 + q.0, p.1 + q.1, p.2 + q.2)
    }
}

/// The accumulator of filter `b` at `focus`: `X0 − X1 − C2 + C3`, with `X0`
/// the dot product of the view and the filter over all cells and channels,
/// `X1` the view's sum times the filter's zero point, `C2` the input's zero
/// point times the filter's sum over the cells inside the input, and
/// `C3 = len × chans × input_zp × filter_zp`.
pub open spec fn accumulator<T: Quantized, S>(
    input: &Tensor4D<T, S>,
    filters: &Tensor4D<T, S>,
    options: Conv2DOptions,
    focus: (usize, usize),
    b: int,
) -> int {
    let t = window_terms(input, filters, options, focus, b, filters.rows());
    let len = input.window_count(
        focus,
        options.view_padding,
        options.strides,
        filters.rows(),
        filters.cols(),
        filters.rows(),
    );
    let xz = input.zero_point@[0].value();
    let fz = zero_point_at(filters.zero_point@, b).value();
    t.0 - t.1 * fz - xz * t.2 + len * input.chans() * xz * fz
}

proof fn lemma_pixel_terms_bound<T: Quantized, S>(
    input: &Tensor4D<T, S>,
    filters: &Tensor4D<T, S>,
    options: Conv2DOptions,
    focus: (usize, usize),
    b: int,
    m: int,
    n: int,
    k: int,
)
    requires
        0 <= k,
    ensures
        ({
            let t = pixel_terms(input, filters, options, focus, b, m, n, k);
            &&& -k * max_product() <= t.0 <= k * max_product()
            &&& -k * widest_max() <= t.1 <= k * widest_max()
            &&& -k * widest_max() <= t.2 <= k * widest_max()
        }),
    decreases k,
{
    if k > 0 {
        lemma_pixel_terms_bound(input, filters, options, focus, b, m, n, k - 1);
        let r = view_source(options.view_padding, focus.0 as int, options.strides.0 as int, filters.rows(), m);
        let c = view_source(options.view_padding, focus.1 as int, options.strides.1 as int, filters.cols(), n);
        let x = input.at(0, r, c, k - 1);
        let f = filters.at(b, m, n, k - 1);
        lemma_product_bound(x, f);
        lemma_product_bound(f, f);
    }
}

proof fn lemma_row_terms_bound<T: Quantized, S>(
    input: &Tensor4D<T, S>,
    filters: &Tensor4D<T, S>,
    options: Conv2DOptions,
    focus: (usize, usize),
    b: int,
    m: int,
    n: int,
)
    requires
        0 <= n,
        0 <= filters.chans(),
    ensures
        ({
            let t = row_terms(input, filters, options, focus, b, m, n);
            let terms = n * filters.chans();
            &&& -terms * max_product() <= t.0 <= terms * max_product()
            &&& -terms * widest_max() <= t.1 <= terms * widest_max()
            &&& -terms * widest_max() <= t.2 <= terms * widest_max()
        }),
    decreases n,
{
    if n > 0 {
        lemma_row_terms_bound(input, filters, options, focus, b, m, n - 1);
        lemma_pixel_terms_bound(input, filters, options, focus, b, m, n - 1, filters.chans());
        assert(n * filters.chans() == (n - 1) * filters.chans() + filters.chans()) by (nonlinear_arith);
    } else {
        assert(n * filters.chans() == 0) by (nonlinear_arith)
            requires
                n == 0,
        ;
    }
}

proof fn lemma_window_terms_bound<T: Quantized, S>(
    input: &Tensor4D<T, S>,
    filters: &Tensor4D<T, S>,
    options: Conv2DOptions,
    focus: (usize, usize),
    b: int,
    m: int,
)
    requires
        0 <= m,
        0 <= filters.cols(),
        0 <= filters.chans(),
    ensures
        ({
            let t = window_terms(input, filters, options, focus, b, m);
            let terms = m * (filters.cols() * filters.chans());
            &&& -terms * max_product() <= t.0 <= terms * max_product()
            &&& -terms * widest_max() <= t.1 <= terms * widest_max()
            &&& -terms * widest_max() <= t.2 <= terms * widest_max()
        }),
    decreases m,
{
    let per_row = filters.cols() * filters.chans();
    if m > 0 {
        lemma_window_terms_bound(input, filters, options, focus, b, m - 1);
        lemma_row_terms_bound(input, filters, options, focus, b, m - 1, filters.cols());
        assert(m * per_row == (m - 1) * per_row + per_row) by (nonlinear_arith);
    } else {
        assert(m * per_row == 0) by (nonlinear_arith)
            requires
                m == 0,
        ;
    }
}

/// Number of channels of the input's pixels.
fn input_chans<T: Quantized, S>(input: &Tensor4D<T, S>) -> (r: usize)
    requires
        input.well_formed(),
        input.batches() >= 1,
    ensures
        r == input.chans(),
{
    let rows = input.buffer[0].len();
    let cols = if rows > 0 { input.buffer[0][0].len() } else { 0 };
    if cols > 0 { input.buffer[0][0][0].len() } else { 0 }
}

/// The accumulator of filter `b` from the view at `focus`.
fn filter_accumulator<T: Quantized, S>(
    input: &Tensor4D<T, S>,
    filters: &Tensor4D<T, S>,
    options: Conv2DOptions,
    focus: (usize, usize),
    view: &TensorView<T>,
    b: usize,
) -> (r: i64)
    requires
        input.well_formed(),
        filters.well_formed(),
        input.batches() == 1,
        b < filters.batches(),
        filters.chans() == input.chans(),
        filters.rows() * (filters.cols() * filters.chans()) <= max_terms(),
        filters.rows() * filters.cols() <= max_terms(),
        input.is_view_of(
            *view,
            focus,
            0,
            options.view_padding,
            options.strides,
            filters.rows(),
            filters.cols(),
        ),
        view.len <= filters.rows() * filters.cols(),
    ensures
        r == accumulator(input, filters, options, focus, b as int),
{
    let filter_rows = filters.buffer[0].len();
    let filter_cols = if filter_rows > 0 { filters.buffer[0][0].len() } else { 0 };
    let chans = input_chans(input);
    let ghost fr = filters.rows();
    let ghost fc = filters.cols();
    let ghost kk = filters.chans();
    assert(filter_rows == fr && filter_cols == fc) by {
        assert(is_grid(filters.buffer@[0]@, fr, fc, kk));
    }
    assert(is_grid(filters.buffer@[b as int]@, fr, fc, kk));
    let mut x0: i64 = 0;
    let mut xs: i64 = 0;
    let mut fs: i64 = 0;
    let mut m: usize = 0;
    while m < filter_rows
        invariant
            input.well_formed(),
            filters.well_formed(),
            input.batches() == 1,
            b < filters.batches(),
            chans == input.chans(),
            kk == filters.chans(),
            kk == chans,
            filter_rows == fr,
            filter_cols == fc,
            fr == filters.rows(),
            fc == filters.cols(),
            fr * (fc * kk) <= max_terms(),
            is_grid(filters.buffer@[b as int]@, fr, fc, kk),
            input.is_view_of(*view, focus, 0, options.view_padding, options.strides, fr, fc),
            m <= filter_rows,
            (x0 as int, xs as int, fs as int) == window_terms(input, filters, options, focus, b as int, m as int),
        decreases filter_rows - m,
    {
        let ghost base = window_terms(input, filters, options, focus, b as int, m as int);
        proof {
            lemma_window_terms_bound(input, filters, options, focus, b as int, m as int);
            assert(m * (fc * kk) + fc * kk <= fr * (fc * kk)) by (nonlinear_arith)
                requires
                    m < fr,
                    fc * kk >= 0,
            ;
            assert(0 <= fc * kk) by (nonlinear_arith)
                requires
                    fc >= 0,
                    kk >= 0,
            ;
        }
        let mut n: usize = 0;
        while n < filter_cols
            invariant
                input.well_formed(),
                filters.well_formed(),
                input.batches() == 1,
                b < filters.batches(),
                chans == input.chans(),
                kk == filters.chans(),
                kk == chans,
                filter_rows == fr,
                filter_cols == fc,
                fr == filters.rows(),
                fc == filters.cols(),
                fr * (fc * kk) <= max_terms(),
                0 <= fc * kk,
                m * (fc * kk) + fc * kk <= fr * (fc * kk),
                is_grid(filters.buffer@[b as int]@, fr, fc, kk),
                input.is_view_of(*view, focus, 0, options.view_padding, options.strides, fr, fc),
                m < filter_rows,
                n <= filter_cols,
                base == window_terms(input, filters, options, focus, b as int, m as int),
                -(m * (fc * kk)) * max_product() <= base.0 <= (m * (fc * kk)) * max_product(),
                -(m * (fc * kk)) * widest_max() <= base.1 <= (m * (fc * kk)) * widest_max(),
                -(m * (fc * kk)) * widest_max() <= base.2 <= (m * (fc * kk)) * widest_max(),
                ({
                    let q = row_terms(input, filters, options, focus, b as int, m as int, n as int);
                    (x0 as int, xs as int, fs as int) == (base.0 + q.0, base.1 + q.1, base.2 + q.2)
                }),
            decreases filter_cols - n,
        {
            let ghost row_base = row_terms(input, filters, options, focus, b as int, m as int, n as int);
            proof {
                lemma_row_terms_bound(input, filters, options, focus, b as int, m as int, n as int);
                assert(n * kk + kk <= fc * kk) by (nonlinear_arith)
                    requires
                        n < fc,
                        kk >= 0,
                ;
                assert(kk <= fr * (fc * kk)) by (nonlinear_arith)
                    requires
                        m < fr,
                        n < fc,
                        kk >= 0,
                ;
            }
            let inside = view.mask[m][n];
            let mut px0: i64 = 0;
            let mut pxs: i64 = 0;
            let mut pfs: i64 = 0;
            let mut k: usize = 0;
            while k < chans
                invariant
                    input.well_formed(),
                    filters.well_formed(),
                    input.batches() == 1,
                    b < filters.batches(),
                    chans == input.chans(),
                    kk == chans,
                    fr == filters.rows(),
                    fc == filters.cols(),
                    is_grid(filters.buffer@[b as int]@, fr, fc, kk),
                    input.is_view_of(*view, focus, 0, options.view_padding, options.strides, fr, fc),
                    m < fr,
                    n < fc,
                    kk <= max_terms(),
                    k <= chans,
                    (px0 as int, pxs as int, pfs as int) == pixel_terms(input, filters, options, focus, b as int, m as int, n as int, k as int),
                decreases chans - k,
            {
                proof {
                    lemma_pixel_terms_bound(input, filters, options, focus, b as int, m as int, n as int, k as int);
                    lemma_product_bound(view.buffer@[m as int]@[n as int]@[k as int], filters.buffer@[b as int]@[m as int]@[n as int]@[k as int]);
                    lemma_product_bound(filters.buffer@[b as int]@[m as int]@[n as int]@[k as int], view.buffer@[m as int]@[n as int]@[k as int]);
                }
                let v = view.buffer[m][n][k].to_i32() as i64;
                let f = filters.buffer[b][m][n][k].to_i32() as i64;
                px0 = px0 + v * f;
                pxs = pxs + v;
                pfs = pfs + f;
                k += 1;
            }
            proof {
                lemma_pixel_terms_bound(input, filters, options, focus, b as int, m as int, n as int, kk);
                assert(inside == input.view_inside(focus, options.view_padding, options.strides, fr, fc, m as int, n as int));
            }
            x0 = x0 + px0;
            xs = xs + pxs;
            if inside {
                fs = fs + pfs;
            }
            n += 1;
        }
        m += 1;
    }
    proof {
        lemma_window_terms_bound(input, filters, options, focus, b as int, fr);
        lemma_view_len(input, *view, focus, 0, options.view_padding, options.strides, fr, fc);
        T::lemma_range(input.zero_point@[0]);
        T::lemma_range(zero_point_at(filters.zero_point@, b as int));
        assert(view.len * kk <= fr * (fc * kk)) by (nonlinear_arith)
            requires
                view.len <= fr * fc,
                kk >= 0,
        ;
        assert(kk == 0 || view.len <= fr * (fc * kk)) by (nonlinear_arith)
            requires
                view.len <= fr * fc,
                kk >= 0,
        ;
    }
    let xz = input.zero_point[0].to_i32() as i64;
    let fz = zero_point_of(&filters.zero_point, b).to_i32() as i64;
    proof {
        lemma_scaled_bound(fz as int, xs as int, fr * (fc * kk));
        lemma_scaled_bound(xz as int, fs as int, fr * (fc * kk));
        let lk = view.len * kk;
        assert(-max_terms() * 255 <= lk * xz <= max_terms() * 255) by (nonlinear_arith)
            requires
                0 <= lk <= max_terms(),
                -255 <= xz <= 255,
        ;
        assert(-max_terms() * max_product() <= lk * xz * fz <= max_terms() * max_product()) by (nonlinear_arith)
            requires
                -max_terms() * 255 <= lk * xz <= max_terms() * 255,
                -255 <= fz <= 255,
        ;
        assert(view.len * kk * xz * fz == lk * xz * fz);
        assert(-max_terms() * max_product() <= x0 <= max_terms() * max_product());
        assert(-max_terms() * max_product() <= xs * fz <= max_terms() * max_product());
        assert(-max_terms() * max_product() <= xz * fs <= max_terms() * max_product());
    }
    let lk: i64 = if chans == 0 || view.len == 0 {
        0
    } else {
        proof {
            assert(kk <= fr * (fc * kk)) by (nonlinear_arith)
                requires
                    1 <= view.len <= fr * fc,
                    fr >= 0,
                    fc >= 0,
                    kk >= 0,
            ;
        }
        view.len as i64 * chans as i64
    };
    x0 - xs * fz - xz * fs + lk * xz * fz
}

/// The integer part of the Conv2D kernel: the accumulator of every filter at
/// every position of an `output_rows` × `output_cols` output.
pub fn conv_2d_accumulators<T: Quantized, S>(
    input: &Tensor4D<T, S>,
    filters: &Tensor4D<T, S>,
    options: Conv2DOptions,
    output_rows: usize,
    output_cols: usize,
) -> (r: Buffer4D<i64>)
    requires
        input.well_formed(),
        filters.well_formed(),
        input.batches() == 1,
        filters.batches() >= 1,
        filters.chans() == input.chans(),
        filters.rows() * (filters.cols() * filters.chans()) <= max_terms(),
        filters.rows() * filters.cols() <= max_terms(),
        sweep_fits(options.strides.0 as int, output_rows as int, filters.rows(), usize::MAX as int),
        sweep_fits(options.strides.1 as int, output_cols as int, filters.cols(), usize::MAX as int),
        options.view_padding == TensorViewPadding::Valid ==> sweep_fits(
            options.strides.0 as int,
            output_rows as int,
            filters.rows(),
            input.rows(),
        ) && sweep_fits(options.strides.1 as int, output_cols as int, filters.cols(), input.cols()),
    ensures
        is_batched_grid(r@, 1, output_rows as int, output_cols as int, filters.batches()),
        forall|i: int, j: int, b: int|
            0 <= i < output_rows && 0 <= j < output_cols && 0 <= b < filters.batches() ==> (
            #[trigger] r@[0]@[i]@[j]@[b]) == accumulator(
                input,
                filters,
                options,
                (i as usize, j as usize),
                b,
            ),
{
    let filter_count = filters.buffer.len();
    let filter_rows = filters.buffer[0].len();
    let filter_cols = if filter_rows > 0 { filters.buffer[0][0].len() } else { 0 };
    let mut grid: Vec<Vec<Vec<i64>>> = Vec::new();
    let mut i: usize = 0;
    while i < output_rows
        invariant
            input.well_formed(),
            filters.well_formed(),
            input.batches() == 1,
            filters.chans() == input.chans(),
            filters.rows() * (filters.cols() * filters.chans()) <= max_terms(),
            filters.rows() * filters.cols() <= max_terms(),
            sweep_fits(options.strides.0 as int, output_rows as int, filters.rows(), usize::MAX as int),
            sweep_fits(options.strides.1 as int, output_cols as int, filters.cols(), usize::MAX as int),
            options.view_padding == TensorViewPadding::Valid ==> sweep_fits(
                options.strides.0 as int,
                output_rows as int,
                filters.rows(),
                input.rows(),
            ) && sweep_fits(options.strides.1 as int, output_cols as int, filters.cols(), input.cols()),
            filter_count == filters.batches(),
            filter_rows == filters.rows(),
            filter_cols == filters.cols(),
            i <= output_rows,
            is_grid(grid@, i as int, output_cols as int, filter_count as int),
            forall|a: int, j: int, b: int|
                0 <= a < i && 0 <= j < output_cols && 0 <= b < filter_count ==> (
                #[trigger] grid@[a]@[j]@[b]) == accumulator(
                    input,
                    filters,
                    options,
                    (a as usize, j as usize),
                    b,
                ),
        decreases output_rows - i,
    {
        proof {
            lemma_sweep_position(options.strides.0 as int, output_rows as int, filters.rows(), usize::MAX as int, i as int);
            if options.view_padding == TensorViewPadding::Valid {
                lemma_sweep_position(options.strides.0 as int, output_rows as int, filters.rows(), input.rows(), i as int);
            }
        }
        let mut row: Vec<Vec<i64>> = Vec::new();
        let mut j: usize = 0;
        while j < output_cols
            invariant
                input.well_formed(),
                filters.well_formed(),
                input.batches() == 1,
                filters.chans() == input.chans(),
                filters.rows() * (filters.cols() * filters.chans()) <= max_terms(),
                filters.rows() * filters.cols() <= max_terms(),
                sweep_fits(options.strides.1 as int, output_cols as int, filters.cols(), usize::MAX as int),
                options.view_padding == TensorViewPadding::Valid ==> sweep_fits(
                    options.strides.1 as int,
                    output_cols as int,
                    filters.cols(),
                    input.cols(),
                ),
                options.strides.0 * i + filters.rows() <= usize::MAX,
                options.view_padding == TensorViewPadding::Valid ==> options.strides.0 * i
                    + filters.rows() <= input.rows(),
                filter_count == filters.batches(),
                filter_rows == filters.rows(),
                filter_cols == filters.cols(),
                i < output_rows,
                j <= output_cols,
                row@.len() == j,
                forall|a: int| 0 <= a < j ==> (#[trigger] row@[a]@).len() == filter_count,
                forall|a: int, b: int|
                    0 <= a < j && 0 <= b < filter_count ==> (#[trigger] row@[a]@[b]) == accumulator(
                        input,
                        filters,
                        options,
                        (i, a as usize),
                        b,
                    ),
            decreases output_cols - j,
        {
            proof {
                lemma_sweep_position(options.strides.1 as int, output_cols as int, filters.cols(), usize::MAX as int, j as int);
                if options.view_padding == TensorViewPadding::Valid {
                    lemma_sweep_position(options.strides.1 as int, output_cols as int, filters.cols(), input.cols(), j as int);
                }
            }
            let view = input.view(
                (i, j),
                0,
                options.view_padding,
                options.strides,
                filter_rows,
                filter_cols,
            );
            let mut pixel: Vec<i64> = Vec::new();
            let mut b: usize = 0;
            while b < filter_count
                invariant
                    input.well_formed(),
                    filters.well_formed(),
                    input.batches() == 1,
                    filters.chans() == input.chans(),
                    filters.rows() * (filters.cols() * filters.chans()) <= max_terms(),
                    filters.rows() * filters.cols() <= max_terms(),
                    filter_count == filters.batches(),
                    input.is_view_of(
                        view,
                        (i, j),
                        0,
                        options.view_padding,
                        options.strides,
                        filters.rows(),
                        filters.cols(),
                    ),
                    view.len <= filters.rows() * filters.cols(),
                    b <= filter_count,
                    pixel@.len() == b,
                    forall|a: int|
                        0 <= a < b ==> (#[trigger] pixel@[a]) == accumulator(
                            input,
                            filters,
                            options,
                            (i, j),
                            a,
                        ),
                decreases filter_count - b,
            {
                let acc = filter_accumulator(input, filters, options, (i, j), &view, b);
                pixel.push(acc);
                b += 1;
            }
            row.push(pixel);
            j += 1;
        }
        grid.push(row);
        i += 1;
    }
    let mut out: Buffer4D<i64> = Vec::new();
    out.push(grid);
    out
}

} // verus!
