use vstd::prelude::*;

use crate::buffer::{is_batched_grid, is_grid, is_matrix, Buffer2D, Buffer4D};
use crate::quantize::Quantized;

verus! {

/// How a view treats the window cells that fall outside the tensor.
#[derive(Clone, Copy, Debug, PartialEq, Eq, Structural)]
pub enum TensorViewPadding {
    /// The window is centered on the focus and may exceed the tensor; the
    /// cells outside read as zero and are masked out.
    Same,
    /// The window starts at the focus and must lie inside the tensor.
    Valid,
}

/// A filter-sized window extracted from a 4-dimensional tensor: its pixels,
/// which cells lie inside the tensor, and how many do.
pub struct TensorView<T> {
    pub buffer: Buffer2D<Vec<T>>,
    pub mask: Buffer2D<bool>,
    pub len: usize,
}

/// A quantized matrix with one scale and zero point per quantization axis.
///
/// The scales are carried unread: every step that multiplies by one happens
/// in the caller.
pub struct Tensor2D<T, S> {
    pub buffer: Buffer2D<T>,
    pub scale: Vec<S>,
    pub zero_point: Vec<T>,
}

/// A quantized sequence of batches of multi-channel matrices, with one scale
/// and zero point per quantization axis.
pub struct Tensor4D<T, S> {
    pub buffer: Buffer4D<T>,
    pub scale: Vec<S>,
    pub zero_point: Vec<T>,
}

impl<T, S> Tensor2D<T, S> {
    pub open spec fn rows(&self) -> int {
        self.buffer@.len() as int
    }

    pub open spec fn cols(&self) -> int {
        if self.buffer@.len() > 0 {
            self.buffer@[0]@.len() as int
        } else {
            0
        }
    }

    /// Rectangular, with as many scales as zero points, and at least one.
    pub open spec fn well_formed(&self) -> bool {
        &&& is_matrix(self.buffer@, self.rows(), self.cols())
        &&& self.zero_point@.len() >= 1
        &&& self.scale@.len() == self.zero_point@.len()
    }

    pub open spec fn at(&self, i: int, j: int) -> T {
        self.buffer@[i]@[j]
    }

    /// Builds a tensor from its buffer, scales and zero points.
    pub fn new(buffer: Buffer2D<T>, scale: Vec<S>, zero_point: Vec<T>) -> (r: Self)
        ensures
            r.buffer == buffer,
            r.scale == scale,
            r.zero_point == zero_point,
    {
        Tensor2D { buffer, scale, zero_point }
    }
}

impl<T, S> Tensor4D<T, S> {
    pub open spec fn batches(&self) -> int {
        self.buffer@.len() as int
    }

    pub open spec fn rows(&self) -> int {
        if self.buffer@.len() > 0 {
            self.buffer@[0]@.len() as int
        } else {
            0
        }
    }

    pub open spec fn cols(&self) -> int {
        if self.rows() > 0 {
            self.buffer@[0]@[0]@.len() as int
        } else {
            0
        }
    }

    pub open spec fn chans(&self) -> int {
        if self.cols() > 0 {
            self.buffer@[0]@[0]@[0]@.len() as int
        } else {
            0
        }
    }

    /// Every batch, row and pixel of the same size, with as many scales as
    /// zero points, and at least one.
    pub open spec fn well_formed(&self) -> bool {
        &&& is_batched_grid(self.buffer@, self.batches(), self.rows(), self.cols(), self.chans())
        &&& self.zero_point@.len() >= 1
        &&& self.scale@.len() == self.zero_point@.len()
    }

    pub open spec fn at(&self, b: int, i: int, j: int, c: int) -> T {
        self.buffer@[b]@[i]@[j]@[c]
    }

    /// Builds a tensor from its buffer, scales and zero points.
    pub fn new(buffer: Buffer4D<T>, scale: Vec<S>, zero_point: Vec<T>) -> (r: Self)
        ensures
            r.buffer == buffer,
            r.scale == scale,
            r.zero_point == zero_point,
    {
        Tensor4D { buffer, scale, zero_point }
    }
}

/// How far a window of `dim` cells is shifted back from its focus.
pub open spec fn view_shift(padding: TensorViewPadding, dim: int) -> int {
    match padding {
        TensorViewPadding::Same => if dim > 0 {
            (dim - 1) / 2
        } else {
            0
        },
        TensorViewPadding::Valid => 0,
    }
}

/// The source coordinate that window cell `m` reads along one axis.
pub open spec fn view_source(
    padding: TensorViewPadding,
    focus: int,
    stride: int,
    dim: int,
    m: int,
) -> int {
    stride * focus + m - view_shift(padding, dim)
}

/// Number of `true` among the first `n` cells of `row`.
pub open spec fn count_row(row: Seq<bool>, n: int) -> int
    decreases n,
{
    if n <= 0 {
        0
    } else {
        count_row(row, n - 1) + if row[n - 1] {
            1int
        } else {
            0int
        }
    }
}

/// Number of `true` cells in the first `m` rows of `mask`.
pub open spec fn count_mask(mask: Seq<Vec<bool>>, m: int) -> int
    decreases m,
{
    if m <= 0 {
        0
    } else {
        count_mask(mask, m - 1) + count_row(mask[m - 1]@, mask[m - 1]@.len() as int)
    }
}

impl<T: Quantized, S> Tensor4D<T, S> {
    /// Window cell `(m, n)` of a `view_rows` × `view_cols` view at `focus`
    /// reads a position inside the batch.
    pub open spec fn view_inside(
        &self,
        focus: (usize, usize),
        padding: TensorViewPadding,
        strides: (usize, usize),
        view_rows: int,
        view_cols: int,
        m: int,
        n: int,
    ) -> bool {
        let r = view_source(padding, focus.0 as int, strides.0 as int, view_rows, m);
        let c = view_source(padding, focus.1 as int, strides.1 as int, view_cols, n);
        0 <= r < self.rows() && 0 <= c < self.cols()
    }

    /// The value that window cell `(m, n)`, channel `k`, of a view of batch
    /// `batch` reads: the tensor's element there, or zero outside the tensor.
    pub open spec fn view_value(
        &self,
        focus: (usize, usize),
        batch: int,
        padding: TensorViewPadding,
        strides: (usize, usize),
        view_rows: int,
        view_cols: int,
        m: int,
        n: int,
        k: int,
    ) -> int {
        let r = view_source(padding, focus.0 as int, strides.0 as int, view_rows, m);
        let c = view_source(padding, focus.1 as int, strides.1 as int, view_cols, n);
        if self.view_inside(focus, padding, strides, view_rows, view_cols, m, n) {
            self.at(batch, r, c, k).value()
        } else {
            0
        }
    }

    /// Number of the first `n` cells of window row `m` that lie inside.
    pub open spec fn row_count(
        &self,
        focus: (usize, usize),
        padding: TensorViewPadding,
        strides: (usize, usize),
        view_rows: int,
        view_cols: int,
        m: int,
        n: int,
    ) -> int
        decreases n,
    {
        if n <= 0 {
            0
        } else {
            self.row_count(focus, padding, strides, view_rows, view_cols, m, n - 1) + if self.view_inside(
                focus,
                padding,
                strides,
                view_rows,
                view_cols,
                m,
                n - 1,
            ) {
                1int
            } else {
                0int
            }
        }
    }

    /// Number of cells of the first `m` window rows that lie inside.
    pub open spec fn window_count(
        &self,
        focus: (usize, usize),
        padding: TensorViewPadding,
        strides: (usize, usize),
        view_rows: int,
        view_cols: int,
        m: int,
    ) -> int
        decreases m,
    {
        if m <= 0 {
            0
        } else {
            self.window_count(focus, padding, strides, view_rows, view_cols, m - 1)
                + self.row_count(focus, padding, strides, view_rows, view_cols, m - 1, view_cols)
        }
    }

    /// `v` is the `view_rows` × `view_cols` view of batch `batch` at `focus`.
    pub open spec fn is_view_of(
        &self,
        v: TensorView<T>,
        focus: (usize, usize),
        batch: int,
        padding: TensorViewPadding,
        strides: (usize, usize),
        view_rows: int,
        view_cols: int,
    ) -> bool {
        &&& is_grid(v.buffer@, view_rows, view_cols, self.chans())
        &&& is_matrix(v.mask@, view_rows, view_cols)
        &&& forall|m: int, n: int|
            0 <= m < view_rows && 0 <= n < view_cols ==> (#[trigger] v.mask@[m]@[n])
                == self.view_inside(focus, padding, strides, view_rows, view_cols, m, n)
        &&& forall|m: int, n: int, k: int|
            0 <= m < view_rows && 0 <= n < view_cols && 0 <= k < self.chans() ==> {
                let r = view_source(padding, focus.0 as int, strides.0 as int, view_rows, m);
                let c = view_source(padding, focus.1 as int, strides.1 as int, view_cols, n);
                (#[trigger] v.buffer@[m]@[n]@[k]).value() == if self.view_inside(
                    focus,
                    padding,
                    strides,
                    view_rows,
                    view_cols,
                    m,
                    n,
                ) {
                    self.at(batch, r, c, k).value()
                } else {
                    0
                }
            }
        &&& v.len == count_mask(v.mask@, view_rows)
    }

    /// Extracts the `view_rows` × `view_cols` window of batch `batch` at
    /// `focus`. Under `Same` padding the window is centered on the focus and
    /// its cells outside the tensor read as zero, with their mask bit cleared;
    /// under `Valid` padding the window must lie inside the tensor.
    pub fn view(
        &self,
        focus: (usize, usize),
        batch: usize,
        padding: TensorViewPadding,
        strides: (usize, usize),
        view_rows: usize,
        view_cols: usize,
    ) -> (v: TensorView<T>)
        requires
            self.well_formed(),
            batch < self.batches(),
            strides.0 * focus.0 + view_rows <= usize::MAX,
            strides.1 * focus.1 + view_cols <= usize::MAX,
            view_rows * view_cols <= usize::MAX,
            padding == TensorViewPadding::Valid ==> strides.0 * focus.0 + view_rows
                <= self.rows() && strides.1 * focus.1 + view_cols <= self.cols(),
        ensures
            self.is_view_of(v, focus, batch as int, padding, strides, view_rows as int, view_cols as int),
            padding == TensorViewPadding::Valid ==> v.len == view_rows * view_cols,
            v.len <= view_rows * view_cols,
            v.len + count_mask_false(v.mask@, view_rows as int) == view_rows * view_cols,
            padding == TensorViewPadding::Valid ==> forall|m: int, n: int|
                0 <= m < view_rows && 0 <= n < view_cols ==> #[trigger] v.mask@[m]@[n],
            view_rows == 1 && view_cols == 1 && padding == TensorViewPadding::Same && strides == (
            1usize,
            1usize,
            ) && focus.0 < self.rows() && focus.1 < self.cols() ==> v.mask@[0]@[0] && v.len == 1
                && v.buffer@[0]@[0]@ == self.buffer@[batch as int]@[focus.0 as int]@[focus.1 as int]@,
    {
        let rows = self.buffer[batch].len();
        let cols = if rows > 0 { self.buffer[batch][0].len() } else { 0 };
        let chans = if cols > 0 { self.buffer[batch][0][0].len() } else { 0 };
        assert(rows == self.rows() && cols == self.cols() && chans == self.chans()) by {
            assert(is_grid(self.buffer@[batch as int]@, self.rows(), self.cols(), self.chans()));
            assert(is_grid(self.buffer@[0]@, self.rows(), self.cols(), self.chans()));
        }
        let shift_rows: usize = match padding {
            TensorViewPadding::Same => if view_rows > 0 { (view_rows - 1) / 2 } else { 0 },
            TensorViewPadding::Valid => 0,
        };
        let shift_cols: usize = match padding {
            TensorViewPadding::Same => if view_cols > 0 { (view_cols - 1) / 2 } else { 0 },
            TensorViewPadding::Valid => 0,
        };
        let base_row = strides.0 * focus.0;
        let base_col = strides.1 * focus.1;
        let ghost grid = self.buffer@[batch as int]@;
        let mut buffer: Buffer2D<Vec<T>> = Vec::new();
        let mut mask: Buffer2D<bool> = Vec::new();
        let mut len: usize = 0;
        let mut m: usize = 0;
        while m < view_rows
            invariant
                self.well_formed(),
                batch < self.batches(),
                grid == self.buffer@[batch as int]@,
                is_grid(grid, rows as int, cols as int, chans as int),
                rows == self.rows(),
                cols == self.cols(),
                chans == self.chans(),
                shift_rows == view_shift(padding, view_rows as int),
                shift_cols == view_shift(padding, view_cols as int),
                base_row == strides.0 * focus.0,
                base_col == strides.1 * focus.1,
                base_row + view_rows <= usize::MAX,
                base_col + view_cols <= usize::MAX,
                view_rows * view_cols <= usize::MAX,
                padding == TensorViewPadding::Valid ==> base_row + view_rows <= rows && base_col
                    + view_cols <= cols,
                m <= view_rows,
                is_grid(buffer@, m as int, view_cols as int, chans as int),
                is_matrix(mask@, m as int, view_cols as int),
                forall|a: int, b: int|
                    0 <= a < m && 0 <= b < view_cols ==> (#[trigger] mask@[a]@[b])
                        == self.view_inside(focus, padding, strides, view_rows as int, view_cols as int, a, b),
                forall|a: int, b: int, k: int|
                    0 <= a < m && 0 <= b < view_cols && 0 <= k < chans ==> {
                        let r = view_source(padding, focus.0 as int, strides.0 as int, view_rows as int, a);
                        let c = view_source(padding, focus.1 as int, strides.1 as int, view_cols as int, b);
                        (#[trigger] buffer@[a]@[b]@[k]).value() == if self.view_inside(
                            focus,
                            padding,
                            strides,
                            view_rows as int,
                            view_cols as int,
                            a,
                            b,
                        ) {
                            self.at(batch as int, r, c, k).value()
                        } else {
                            0
                        }
                    },
                len == count_mask(mask@, m as int),
                len <= m * view_cols,
                padding == TensorViewPadding::Valid ==> len == m * view_cols,
            decreases view_rows - m,
        {
            let mut row_pixels: Vec<Vec<T>> = Vec::new();
            let mut row_mask: Vec<bool> = Vec::new();
            let mut n: usize = 0;
            let ghost len_before = len;
            while n < view_cols
                invariant
                    self.well_formed(),
                    batch < self.batches(),
                    grid == self.buffer@[batch as int]@,
                    is_grid(grid, rows as int, cols as int, chans as int),
                    rows == self.rows(),
                    cols == self.cols(),
                    chans == self.chans(),
                    shift_rows == view_shift(padding, view_rows as int),
                    shift_cols == view_shift(padding, view_cols as int),
                    base_row == strides.0 * focus.0,
                    base_col == strides.1 * focus.1,
                    base_row + view_rows <= usize::MAX,
                    base_col + view_cols <= usize::MAX,
                    view_rows * view_cols <= usize::MAX,
                    padding == TensorViewPadding::Valid ==> base_row + view_rows <= rows
                        && base_col + view_cols <= cols,
                    m < view_rows,
                    n <= view_cols,
                    row_pixels@.len() == n,
                    row_mask@.len() == n,
                    forall|b: int| 0 <= b < n ==> (#[trigger] row_pixels@[b]@).len() == chans,
                    forall|b: int|
                        0 <= b < n ==> (#[trigger] row_mask@[b]) == self.view_inside(
                            focus,
                            padding,
                            strides,
                            view_rows as int,
                            view_cols as int,
                            m as int,
                            b,
                        ),
                    forall|b: int, k: int|
                        0 <= b < n && 0 <= k < chans ==> {
                            let r = view_source(padding, focus.0 as int, strides.0 as int, view_rows as int, m as int);
                            let c = view_source(padding, focus.1 as int, strides.1 as int, view_cols as int, b);
                            (#[trigger] row_pixels@[b]@[k]).value() == if self.view_inside(
                                focus,
                                padding,
                                strides,
                                view_rows as int,
                                view_cols as int,
                                m as int,
                                b,
                            ) {
                                self.at(batch as int, r, c, k).value()
                            } else {
                                0
                            }
                        },
                    len_before == count_mask(mask@, m as int),
                    len == len_before + count_row(row_mask@, n as int),
                    len_before <= m * view_cols,
                    count_row(row_mask@, n as int) <= n,
                    padding == TensorViewPadding::Valid ==> len_before == m * view_cols,
                    padding == TensorViewPadding::Valid ==> len == len_before + n,
                decreases view_cols - n,
            {
                proof {
                    assert(count_row(row_mask@, n as int) <= n) by {
                        lemma_count_row_bounds(row_mask@, n as int);
                    }
                    assert(m * view_cols + view_cols <= view_rows * view_cols) by (nonlinear_arith)
                        requires
                            m < view_rows,
                    ;
                }
                let r_full = base_row + m;
                let c_full = base_col + n;
                let inside = r_full >= shift_rows && c_full >= shift_cols && r_full - shift_rows
                    < rows && c_full - shift_cols < cols;
                let mut pixel: Vec<T> = Vec::new();
                if inside {
                    let r = r_full - shift_rows;
                    let c = c_full - shift_cols;
                    let src = &self.buffer[batch][r][c];
                    let mut k: usize = 0;
                    while k < chans
                        invariant
                            k <= chans,
                            src@.len() == chans,
                            pixel@.len() == k,
                            forall|t: int| 0 <= t < k ==> #[trigger] pixel@[t] == src@[t],
                        decreases chans - k,
                    {
                        pixel.push(src[k]);
                        k += 1;
                    }
                    len += 1;
                } else {
                    let mut k: usize = 0;
                    while k < chans
                        invariant
                            k <= chans,
                            pixel@.len() == k,
                            forall|t: int| 0 <= t < k ==> (#[trigger] pixel@[t]).value() == 0,
                        decreases chans - k,
                    {
                        pixel.push(T::zero());
                        k += 1;
                    }
                }
                row_pixels.push(pixel);
                let ghost old_mask = row_mask@;
                row_mask.push(inside);
                proof {
                    lemma_count_row_agree(old_mask, row_mask@, n as int);
                    lemma_count_row_bounds(row_mask@, n + 1);
                }
                n += 1;
            }
            buffer.push(row_pixels);
            let ghost old_masks = mask@;
            mask.push(row_mask);
            proof {
                lemma_count_mask_agree(old_masks, mask@, m as int);
                assert((m + 1) * view_cols == m * view_cols + view_cols) by (nonlinear_arith);
            }
            m += 1;
        }
        let v = TensorView { buffer, mask, len };
        proof {
            lemma_view_cells_partition(self, v, focus, batch as int, padding, strides, view_rows as int, view_cols as int);
            if padding == TensorViewPadding::Valid {
                assert forall|a: int, b: int| 0 <= a < view_rows && 0 <= b < view_cols implies #[trigger] v.mask@[a]@[b] by {
                    assert(self.view_inside(focus, padding, strides, view_rows as int, view_cols as int, a, b));
                }
            }
            if view_rows == 1 && view_cols == 1 && padding == TensorViewPadding::Same && strides == (1usize, 1usize)
                && focus.0 < self.rows() && focus.1 < self.cols() {
                lemma_unit_view_is_pixel(self, v, focus.0, focus.1, batch as int);
            }
        }
        v
    }
}

/// Number of `false` among the first `n` cells of `row`.
pub open spec fn count_row_false(row: Seq<bool>, n: int) -> int
    decreases n,
{
    if n <= 0 {
        0
    } else {
        count_row_false(row, n - 1) + if row[n - 1] {
            0int
        } else {
            1int
        }
    }
}

/// Number of `false` cells in the first `m` rows of `mask`.
pub open spec fn count_mask_false(mask: Seq<Vec<bool>>, m: int) -> int
    decreases m,
{
    if m <= 0 {
        0
    } else {
        count_mask_false(mask, m - 1) + count_row_false(mask[m - 1]@, mask[m - 1]@.len() as int)
    }
}

/// Output extent along one axis of a `Valid`-padded window sweep: the number
/// of window positions that fit in `input` cells with the given stride.
pub open spec fn valid_output_dim(input: int, filter: int, stride: int) -> int {
    (input - filter) / stride + 1
}

proof fn lemma_count_row_split(row: Seq<bool>, n: int)
    requires
        0 <= n,
    ensures
        count_row(row, n) + count_row_false(row, n) == n,
    decreases n,
{
    if n > 0 {
        lemma_count_row_split(row, n - 1);
    }
}

proof fn lemma_count_mask_split(mask: Seq<Vec<bool>>, m: int, cols: int)
    requires
        0 <= m <= mask.len(),
        forall|i: int| 0 <= i < m ==> (#[trigger] mask[i]@).len() == cols,
    ensures
        count_mask(mask, m) + count_mask_false(mask, m) == m * cols,
    decreases m,
{
    if m > 0 {
        lemma_count_mask_split(mask, m - 1, cols);
        assert(mask[m - 1]@.len() == cols);
        lemma_count_row_split(mask[m - 1]@, cols);
        assert(m * cols == (m - 1) * cols + cols) by (nonlinear_arith);
    } else {
        assert(m * cols == 0) by (nonlinear_arith)
            requires
                m == 0,
        ;
    }
}

/// Every cell of a view is either counted by its `len` or masked out:
/// `len` plus the number of cleared mask bits is the window's area.
pub proof fn lemma_view_cells_partition<T: Quantized, S>(
    t: &Tensor4D<T, S>,
    v: TensorView<T>,
    focus: (usize, usize),
    batch: int,
    padding: TensorViewPadding,
    strides: (usize, usize),
    view_rows: int,
    view_cols: int,
)
    requires
        view_rows >= 0,
        t.is_view_of(v, focus, batch, padding, strides, view_rows, view_cols),
    ensures
        v.len + count_mask_false(v.mask@, view_rows) == view_rows * view_cols,
{
    lemma_count_mask_split(v.mask@, view_rows, view_cols);
}

/// Under `Valid` padding, a view at any focus of an output grid of the minimal
/// size has every mask bit set.
pub proof fn lemma_valid_view_all_inside<T: Quantized, S>(
    t: &Tensor4D<T, S>,
    v: TensorView<T>,
    focus: (usize, usize),
    batch: int,
    strides: (usize, usize),
    view_rows: int,
    view_cols: int,
)
    requires
        t.is_view_of(v, focus, batch, TensorViewPadding::Valid, strides, view_rows, view_cols),
        strides.0 >= 1,
        strides.1 >= 1,
        1 <= view_rows <= t.rows(),
        1 <= view_cols <= t.cols(),
        focus.0 < valid_output_dim(t.rows(), view_rows, strides.0 as int),
        focus.1 < valid_output_dim(t.cols(), view_cols, strides.1 as int),
    ensures
        forall|m: int, n: int| 0 <= m < view_rows && 0 <= n < view_cols ==> #[trigger] v.mask@[m]@[n],
{
    lemma_sweep_fits(t.rows(), view_rows, strides.0 as int, focus.0 as int);
    lemma_sweep_fits(t.cols(), view_cols, strides.1 as int, focus.1 as int);
    assert forall|m: int, n: int| 0 <= m < view_rows && 0 <= n < view_cols implies #[trigger] v.mask@[m]@[n] by {
        assert(t.view_inside(focus, TensorViewPadding::Valid, strides, view_rows, view_cols, m, n));
    }
}

proof fn lemma_sweep_fits(input: int, filter: int, stride: int, i: int)
    requires
        stride >= 1,
        1 <= filter <= input,
        0 <= i < valid_output_dim(input, filter, stride),
    ensures
        stride * i + filter <= input,
{
    let q = (input - filter) / stride;
    assert(i <= q);
    assert(stride * q <= input - filter) by (nonlinear_arith)
        requires
            q == (input - filter) / stride,
            stride >= 1,
            input - filter >= 0,
    ;
    assert(stride * i <= stride * q) by (nonlinear_arith)
        requires
            i <= q,
            stride >= 1,
    ;
}

/// A 1 × 1 view with unit strides and `Same` padding, focused on a position of
/// the tensor, is that position's pixel.
pub proof fn lemma_unit_view_is_pixel<T: Quantized, S>(
    t: &Tensor4D<T, S>,
    v: TensorView<T>,
    i: usize,
    j: usize,
    batch: int,
)
    requires
        t.well_formed(),
        0 <= batch < t.batches(),
        i < t.rows(),
        j < t.cols(),
        t.is_view_of(v, (i, j), batch, TensorViewPadding::Same, (1, 1), 1, 1),
    ensures
        v.mask@[0]@[0],
        v.len == 1,
        v.buffer@[0]@[0]@ == t.buffer@[batch]@[i as int]@[j as int]@,
{
    assert(t.view_inside((i, j), TensorViewPadding::Same, (1, 1), 1, 1, 0, 0));
    assert(is_grid(t.buffer@[batch]@, t.rows(), t.cols(), t.chans()));
    assert(v.buffer@[0]@[0]@.len() == t.chans());
    assert forall|k: int| 0 <= k < t.chans() implies v.buffer@[0]@[0]@[k] == t.buffer@[batch]@[i as int]@[j as int]@[k] by {
        assert((v.buffer@[0]@[0]@[k]).value() == t.at(batch, i as int, j as int, k).value());
        T::lemma_injective(v.buffer@[0]@[0]@[k], t.at(batch, i as int, j as int, k));
    }
    assert(v.buffer@[0]@[0]@ =~= t.buffer@[batch]@[i as int]@[j as int]@);
    assert(v.mask@[0]@.len() == 1);
    assert(count_row(v.mask@[0]@, 0) == 0);
    assert(count_row(v.mask@[0]@, 1) == 1);
    assert(count_mask(v.mask@, 0) == 0);
    assert(count_mask(v.mask@, 1) == 1);
}

proof fn lemma_row_count<T: Quantized, S>(
    t: &Tensor4D<T, S>,
    v: TensorView<T>,
    focus: (usize, usize),
    batch: int,
    padding: TensorViewPadding,
    strides: (usize, usize),
    view_rows: int,
    view_cols: int,
    m: int,
    n: int,
)
    requires
        t.is_view_of(v, focus, batch, padding, strides, view_rows, view_cols),
        0 <= m < view_rows,
        0 <= n <= view_cols,
    ensures
        count_row(v.mask@[m]@, n) == t.row_count(focus, padding, strides, view_rows, view_cols, m, n),
    decreases n,
{
    if n > 0 {
        lemma_row_count(t, v, focus, batch, padding, strides, view_rows, view_cols, m, n - 1);
        assert(v.mask@[m]@[n - 1] == t.view_inside(focus, padding, strides, view_rows, view_cols, m, n - 1));
    }
}

proof fn lemma_window_count<T: Quantized, S>(
    t: &Tensor4D<T, S>,
    v: TensorView<T>,
    focus: (usize, usize),
    batch: int,
    padding: TensorViewPadding,
    strides: (usize, usize),
    view_rows: int,
    view_cols: int,
    m: int,
)
    requires
        t.is_view_of(v, focus, batch, padding, strides, view_rows, view_cols),
        0 <= m <= view_rows,
    ensures
        count_mask(v.mask@, m) == t.window_count(focus, padding, strides, view_rows, view_cols, m),
    decreases m,
{
    if m > 0 {
        lemma_window_count(t, v, focus, batch, padding, strides, view_rows, view_cols, m - 1);
        assert(v.mask@[m - 1]@.len() == view_cols);
        lemma_row_count(t, v, focus, batch, padding, strides, view_rows, view_cols, m - 1, view_cols);
    }
}

/// The `len` of a view is the number of window cells inside the tensor.
pub proof fn lemma_view_len<T: Quantized, S>(
    t: &Tensor4D<T, S>,
    v: TensorView<T>,
    focus: (usize, usize),
    batch: int,
    padding: TensorViewPadding,
    strides: (usize, usize),
    view_rows: int,
    view_cols: int,
)
    requires
        view_rows >= 0,
        t.is_view_of(v, focus, batch, padding, strides, view_rows, view_cols),
    ensures
        v.len == t.window_count(focus, padding, strides, view_rows, view_cols, view_rows),
{
    lemma_window_count(t, v, focus, batch, padding, strides, view_rows, view_cols, view_rows);
}

/// The zero point of quantization axis `c`; a tensor quantized per tensor has
/// the one zero point for every axis.
pub open spec fn zero_point_at<T>(zero_points: Seq<T>, c: int) -> T {
    if 0 <= c < zero_points.len() {
        zero_points[c]
    } else {
        zero_points[0]
    }
}

/// The zero point of quantization axis `c`.
pub fn zero_point_of<T: Copy>(zero_points: &Vec<T>, c: usize) -> (r: T)
    requires
        zero_points@.len() >= 1,
    ensures
        r == zero_point_at(zero_points@, c as int),
{
    if c < zero_points.len() {
        zero_points[c]
    } else {
        zero_points[0]
    }
}

/// A sweep of `out` window positions of `filter` cells with stride `stride`
/// ends at or before `limit`.
pub open spec fn sweep_fits(stride: int, out: int, filter: int, limit: int) -> bool {
    out == 0 || stride * (out - 1) + filter <= limit
}

pub proof fn lemma_sweep_position(stride: int, out: int, filter: int, limit: int, i: int)
    requires
        stride >= 0,
        sweep_fits(stride, out, filter, limit),
        0 <= i < out,
    ensures
        stride * i + filter <= limit,
{
    assert(stride * i <= stride * (out - 1)) by (nonlinear_arith)
        requires
            stride >= 0,
            i <= out - 1,
    ;
}

proof fn lemma_count_row_agree(a: Seq<bool>, b: Seq<bool>, n: int)
    requires
        0 <= n <= a.len(),
        n <= b.len(),
        forall|i: int| 0 <= i < n ==> a[i] == b[i],
    ensures
        count_row(a, n) == count_row(b, n),
    decreases n,
{
    if n > 0 {
        lemma_count_row_agree(a, b, n - 1);
    }
}

proof fn lemma_count_mask_agree(a: Seq<Vec<bool>>, b: Seq<Vec<bool>>, m: int)
    requires
        0 <= m <= a.len(),
        m <= b.len(),
        forall|i: int| 0 <= i < m ==> a[i] == b[i],
    ensures
        count_mask(a, m) == count_mask(b, m),
    decreases m,
{
    if m > 0 {
        lemma_count_mask_agree(a, b, m - 1);
    }
}

proof fn lemma_count_row_bounds(row: Seq<bool>, n: int)
    requires
        0 <= n,
    ensures
        0 <= count_row(row, n) <= n,
    decreases n,
{
    if n > 0 {
        lemma_count_row_bounds(row, n - 1);
    }
}

} // verus!
