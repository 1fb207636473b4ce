use vstd::prelude::*;

verus! {

/// A dense row-major matrix: `buffer[row][col]`.
pub type Buffer2D<T> = Vec<Vec<T>>;

/// A sequence of batches, each a matrix of pixels of channels:
/// `buffer[batch][row][col][chan]`.
pub type Buffer4D<T> = Vec<Vec<Vec<Vec<T>>>>;

/// `b` has `rows` rows of `cols` elements each.
pub open spec fn is_matrix<T>(b: Seq<Vec<T>>, rows: int, cols: int) -> bool {
    &&& b.len() == rows
    &&& forall|i: int| 0 <= i < rows ==> (#[trigger] b[i]@).len() == cols
}

/// `b` has `rows` × `cols` cells, each a pixel of `chans` elements.
pub open spec fn is_grid<T>(b: Seq<Vec<Vec<T>>>, rows: int, cols: int, chans: int) -> bool {
    &&& b.len() == rows
    &&& forall|i: int| 0 <= i < rows ==> (#[trigger] b[i]@).len() == cols
    &&& forall|i: int, j: int|
        0 <= i < rows && 0 <= j < cols ==> (#[trigger] b[i]@[j]@).len() == chans
}

/// `b` has `batches` grids of `rows` × `cols` pixels of `chans` elements.
pub open spec fn is_batched_grid<T>(
    b: Seq<Vec<Vec<Vec<T>>>>,
    batches: int,
    rows: int,
    cols: int,
    chans: int,
) -> bool {
    &&& b.len() == batches
    &&& forall|n: int| 0 <= n < batches ==> is_grid(#[trigger] b[n]@, rows, cols, chans)
}

} // verus!
