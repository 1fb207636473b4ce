use vstd::prelude::*;

use crate::buffer::{is_batched_grid, is_grid, Buffer2D, Buffer4D};
use crate::tensor::{Tensor2D, Tensor4D};

verus! {

/// The elements of the first `n` pixels of `row`, channel fastest.
pub open spec fn flat_row<T>(row: Seq<Vec<T>>, n: int) -> Seq<T>
    decreases n,
{
    if n <= 0 {
        Seq::empty()
    } else {
        flat_row(row, n - 1) + row[n - 1]@
    }
}

/// The elements of the first `m` rows of `grid`, channel fastest, then
/// column, then row.
pub open spec fn flat_grid<T>(grid: Seq<Vec<Vec<T>>>, m: int) -> Seq<T>
    decreases m,
{
    if m <= 0 {
        Seq::empty()
    } else {
        flat_grid(grid, m - 1) + flat_row(grid[m - 1]@, grid[m - 1]@.len() as int)
    }
}

/// Each row of `t2` is the corresponding batch of `t4` read channel fastest,
/// then column, then row; the quantization is the same.
pub open spec fn same_layout<T, S>(t2: &Tensor2D<T, S>, t4: &Tensor4D<T, S>) -> bool {
    &&& t2.buffer@.len() == t4.buffer@.len()
    &&& forall|b: int|
        0 <= b < t4.buffer@.len() ==> (#[trigger] t2.buffer@[b]@) == flat_grid(
            t4.buffer@[b]@,
            t4.buffer@[b]@.len() as int,
        )
    &&& t2.scale == t4.scale
    &&& t2.zero_point == t4.zero_point
}

proof fn lemma_flat_row_len<T>(row: Seq<Vec<T>>, n: int, chans: int)
    requires
        0 <= n <= row.len(),
        forall|j: int| 0 <= j < n ==> (#[trigger] row[j]@).len() == chans,
    ensures
        flat_row(row, n).len() == n * chans,
    decreases n,
{
    if n > 0 {
        lemma_flat_row_len(row, n - 1, chans);
        assert(n * chans == (n - 1) * chans + chans) by (nonlinear_arith);
    } else {
        assert(n * chans == 0) by (nonlinear_arith)
            requires
                n == 0,
        ;
    }
}

proof fn lemma_flat_row_agree<T>(a: Seq<Vec<T>>, b: Seq<Vec<T>>, n: int)
    requires
        0 <= n <= a.len(),
        n <= b.len(),
        forall|j: int| 0 <= j < n ==> a[j] == b[j],
    ensures
        flat_row(a, n) == flat_row(b, n),
    decreases n,
{
    if n > 0 {
        lemma_flat_row_agree(a, b, n - 1);
    }
}

proof fn lemma_flat_grid_agree<T>(a: Seq<Vec<Vec<T>>>, b: Seq<Vec<Vec<T>>>, m: int)
    requires
        0 <= m <= a.len(),
        m <= b.len(),
        forall|i: int| 0 <= i < m ==> a[i] == b[i],
    ensures
        flat_grid(a, m) == flat_grid(b, m),
    decreases m,
{
    if m > 0 {
        lemma_flat_grid_agree(a, b, m - 1);
    }
}

/// The elements of a grid, channel fastest, then column, then row.
fn flatten_grid<T: Copy>(grid: &Vec<Vec<Vec<T>>>) -> (r: Vec<T>)
    ensures
        r@ == flat_grid(grid@, grid@.len() as int),
{
    let mut out: Vec<T> = Vec::new();
    let mut i: usize = 0;
    while i < grid.len()
        invariant
            i <= grid@.len(),
            out@ == flat_grid(grid@, i as int),
        decreases grid@.len() - i,
    {
        let row = &grid[i];
        let ghost before = out@;
        let mut j: usize = 0;
        while j < row.len()
            invariant
                i < grid@.len(),
                row == grid@[i as int],
                j <= row@.len(),
                before == flat_grid(grid@, i as int),
                out@ == before + flat_row(row@, j as int),
            decreases row@.len() - j,
        {
            let pixel = &row[j];
            let ghost mid = out@;
            let mut k: usize = 0;
            while k < pixel.len()
                invariant
                    j < row@.len(),
                    pixel == row@[j as int],
                    k <= pixel@.len(),
                    out@ == mid + pixel@.subrange(0, k as int),
                decreases pixel@.len() - k,
            {
                out.push(pixel[k]);
                proof {
                    assert(pixel@.subrange(0, k + 1) =~= pixel@.subrange(0, k as int).push(pixel@[k as int]));
                    assert(out@ =~= mid + pixel@.subrange(0, k + 1));
                }
                k += 1;
            }
            proof {
                assert(pixel@.subrange(0, pixel@.len() as int) =~= pixel@);
                assert(flat_row(row@, j + 1) == flat_row(row@, j as int) + row@[j as int]@);
                assert(out@ =~= before + flat_row(row@, j + 1));
            }
            j += 1;
        }
        proof {
            assert(out@ =~= flat_grid(grid@, i + 1));
        }
        i += 1;
    }
    out
}

impl<T: Copy, S> Tensor2D<T, S> {
    /// Views a 4-dimensional tensor as a matrix with one row per batch, each
    /// row holding the batch's elements channel fastest, then column, then row.
    pub fn from_tensor_4d(tensor: Tensor4D<T, S>) -> (r: Self)
        ensures
            same_layout(&r, &tensor),
    {
        let mut buffer: Buffer2D<T> = Vec::new();
        let mut b: usize = 0;
        while b < tensor.buffer.len()
            invariant
                b <= tensor.buffer@.len(),
                buffer@.len() == b,
                forall|a: int|
                    0 <= a < b ==> (#[trigger] buffer@[a]@) == flat_grid(
                        tensor.buffer@[a]@,
                        tensor.buffer@[a]@.len() as int,
                    ),
            decreases tensor.buffer@.len() - b,
        {
            let row = flatten_grid(&tensor.buffer[b]);
            buffer.push(row);
            b += 1;
        }
        Tensor2D { buffer, scale: tensor.scale, zero_point: tensor.zero_point }
    }
}

impl<T: Copy, S> Tensor4D<T, S> {
    /// Views a matrix as a 4-dimensional tensor with one batch per row, each
    /// row read as `rows` × `cols` pixels of `chans` channels, channel fastest,
    /// then column, then row.
    pub fn from_tensor_2d(tensor: Tensor2D<T, S>, rows: usize, cols: usize, chans: usize) -> (r: Self)
        requires
            forall|b: int|
                0 <= b < tensor.buffer@.len() ==> (#[trigger] tensor.buffer@[b]@).len() == rows
                    * cols * chans,
        ensures
            is_batched_grid(r.buffer@, tensor.buffer@.len() as int, rows as int, cols as int, chans as int),
            same_layout(&tensor, &r),
    {
        let mut buffer: Buffer4D<T> = Vec::new();
        let mut b: usize = 0;
        while b < tensor.buffer.len()
            invariant
                b <= tensor.buffer@.len(),
                forall|a: int|
                    0 <= a < tensor.buffer@.len() ==> (#[trigger] tensor.buffer@[a]@).len() == rows
                        * cols * chans,
                buffer@.len() == b,
                forall|a: int|
                    0 <= a < b ==> is_grid(#[trigger] buffer@[a]@, rows as int, cols as int, chans as int),
                forall|a: int|
                    0 <= a < b ==> (#[trigger] tensor.buffer@[a]@) == flat_grid(
                        buffer@[a]@,
                        buffer@[a]@.len() as int,
                    ),
            decreases tensor.buffer@.len() - b,
        {
            let grid = unflatten_row(&tensor.buffer[b], rows, cols, chans);
            buffer.push(grid);
            b += 1;
        }
        Tensor4D { buffer, scale: tensor.scale, zero_point: tensor.zero_point }
    }
}

/// Reads `row` as `rows` × `cols` pixels of `chans` channels.
pub(crate) fn unflatten_row<T: Copy>(row: &Vec<T>, rows: usize, cols: usize, chans: usize) -> (r: Vec<Vec<Vec<T>>>)
    requires
        row@.len() == rows * cols * chans,
    ensures
        is_grid(r@, rows as int, cols as int, chans as int),
        row@ == flat_grid(r@, rows as int),
{
    let total = row.len();
    let mut grid: Vec<Vec<Vec<T>>> = Vec::new();
    let mut idx: usize = 0;
    let mut i: usize = 0;
    while i < rows
        invariant
            row@.len() == rows * cols * chans,
            total == row@.len(),
            i <= rows,
            is_grid(grid@, i as int, cols as int, chans as int),
            idx == i * (cols * chans),
            idx <= row@.len(),
            flat_grid(grid@, i as int) == row@.subrange(0, idx as int),
        decreases rows - i,
    {
        proof {
            assert(i * (cols * chans) + cols * chans <= rows * cols * chans) by (nonlinear_arith)
                requires
                    i < rows,
            ;
        }
        let ghost start = idx as int;
        let mut line: Vec<Vec<T>> = Vec::new();
        let mut j: usize = 0;
        while j < cols
            invariant
                row@.len() == rows * cols * chans,
                total == row@.len(),
                i < rows,
                start + cols * chans <= row@.len(),
                0 <= start <= idx,
                j <= cols,
                line@.len() == j,
                forall|a: int| 0 <= a < j ==> (#[trigger] line@[a]@).len() == chans,
                idx == start + j * chans,
                flat_row(line@, j as int) == row@.subrange(start, idx as int),
            decreases cols - j,
        {
            proof {
                assert(j * chans + chans <= cols * chans) by (nonlinear_arith)
                    requires
                        j < cols,
                ;
            }
            let ghost pstart = idx as int;
            assert(pstart + chans <= row@.len()) by (nonlinear_arith)
                requires
                    pstart == start + j * chans,
                    j * chans + chans <= cols * chans,
                    start + cols * chans <= row@.len(),
            ;
            let mut pixel: Vec<T> = Vec::new();
            let mut k: usize = 0;
            while k < chans
                invariant
                    row@.len() == rows * cols * chans,
                    total == row@.len(),
                    pstart + chans <= row@.len(),
                    0 <= pstart,
                    k <= chans,
                    idx == pstart + k,
                    pixel@ == row@.subrange(pstart, idx as int),
                decreases chans - k,
            {
                pixel.push(row[idx]);
                proof {
                    assert(row@.subrange(pstart, idx + 1) =~= row@.subrange(pstart, idx as int).push(row@[idx as int]));
                }
                idx += 1;
                k += 1;
            }
            let ghost old_line = line@;
            line.push(pixel);
            proof {
                lemma_flat_row_agree(old_line, line@, j as int);
                assert(row@.subrange(start, idx as int) =~= row@.subrange(start, pstart) + row@.subrange(pstart, idx as int));
                assert((j + 1) * chans == j * chans + chans) by (nonlinear_arith);
                assert(chans >= 0);
            }
            j += 1;
        }
        let ghost old_grid = grid@;
        grid.push(line);
        proof {
            lemma_flat_grid_agree(old_grid, grid@, i as int);
            assert(row@.subrange(0, idx as int) =~= row@.subrange(0, start) + row@.subrange(start, idx as int));
            assert((i + 1) * (cols * chans) == i * (cols * chans) + cols * chans) by (nonlinear_arith);
        }
        i += 1;
    }
    proof {
        assert(rows * (cols * chans) == rows * cols * chans) by (nonlinear_arith);
        assert(row@.subrange(0, idx as int) =~= row@);
    }
    grid
}

/// The Reshape operator: re-interprets a matrix as a 4-dimensional tensor with
/// one batch per row, keeping the element order and the quantization.
/// The reverse direction is [`Tensor2D::from_tensor_4d`].
pub fn reshape<T: Copy, S>(input: Tensor2D<T, S>, rows: usize, cols: usize, chans: usize) -> (r: Tensor4D<T, S>)
    requires
        forall|b: int|
            0 <= b < input.buffer@.len() ==> (#[trigger] input.buffer@[b]@).len() == rows * cols
                * chans,
    ensures
        is_batched_grid(r.buffer@, input.buffer@.len() as int, rows as int, cols as int, chans as int),
        same_layout(&input, &r),
{
    Tensor4D::from_tensor_2d(input, rows, cols, chans)
}

} // verus!
