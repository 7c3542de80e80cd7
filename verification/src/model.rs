//! Mathematical model of the kernel.
//!
//! A nested grid is a `Seq<Seq<i64>>` (rows, then cells within a row); a
//! flattened grid is a `Seq<i64>` in row-major order, where cell `(x, y)`
//! sits at index `y * nx + x`. The spec functions here say what one kernel
//! pass produces over either representation; the executable variants all
//! promise their output equals these functions of their input.

use vstd::prelude::*;

verus! {

/// The value the kernel writes at column `x`, row `y`, over the input cell `v`.
pub open spec fn cell_value(v: i64, x: int, y: int) -> int {
    v + x + y
}

/// The written value fits the cell type.
pub open spec fn cell_fits(v: i64, x: int, y: int) -> bool {
    i64::MIN <= v + x + y <= i64::MAX
}

/// The nested grid has at least `ny` rows of at least `nx` cells each, so
/// every cell of the `nx`-by-`ny` window can be addressed.
pub open spec fn covers(g: Seq<Seq<i64>>, nx: int, ny: int) -> bool {
    &&& g.len() >= ny
    &&& forall|y: int| 0 <= y < ny ==> (#[trigger] g[y]).len() >= nx
}

/// Every kernel result over the `nx`-by-`ny` window of the nested grid fits.
pub open spec fn grid_fits(g: Seq<Seq<i64>>, nx: int, ny: int) -> bool {
    forall|y: int, x: int|
        0 <= y < ny && 0 <= x < nx ==> cell_fits(#[trigger] g[y][x], x, y)
}

/// The nested grid after one kernel pass: every cell of the `nx`-by-`ny`
/// window holds the input cell plus its column and row index; cells outside
/// the window, and the shape, are kept from the previous output `out0`.
pub open spec fn transformed(inp: Seq<Seq<i64>>, out0: Seq<Seq<i64>>, nx: int, ny: int) -> Seq<
    Seq<i64>,
> {
    Seq::new(
        out0.len(),
        |y: int|
            Seq::new(
                out0[y].len(),
                |x: int|
                    if y < ny && x < nx {
                        cell_value(inp[y][x], x, y) as i64
                    } else {
                        out0[y][x]
                    },
            ),
    )
}

/// The flattened grid holds the whole `nx`-by-`ny` window.
pub open spec fn flat_covers(g: Seq<i64>, nx: int, ny: int) -> bool {
    g.len() >= nx * ny
}

/// Every kernel result over the flattened window fits.
pub open spec fn flat_fits(g: Seq<i64>, nx: int, ny: int) -> bool {
    forall|i: int| 0 <= i < nx * ny ==> cell_fits(#[trigger] g[i], i % nx, i / nx)
}

/// The flattened grid after one kernel pass, in row-major order: index `i`
/// inside the window is cell `(i % nx, i / nx)`.
pub open spec fn transformed_flat(inp: Seq<i64>, out0: Seq<i64>, nx: int, ny: int) -> Seq<i64> {
    Seq::new(
        out0.len(),
        |i: int|
            if 0 < nx && i < nx * ny {
                cell_value(inp[i], i % nx, i / nx) as i64
            } else {
                out0[i]
            },
    )
}

/// Unfolds the deep view of a nested vector: it has one entry per row, and
/// each entry is that row vector's own view.
pub proof fn lemma_deep_view_unfold(v: Vec<Vec<i64>>)
    ensures
        v.deep_view().len() == v@.len(),
        forall|y: int| 0 <= y < v@.len() ==> (#[trigger] v.deep_view()[y]) == v@[y]@,
{
    assert forall|y: int| 0 <= y < v@.len() implies (#[trigger] v.deep_view()[y]) == v@[y]@ by {
        assert(v.deep_view()[y] =~= v@[y]@);
    }
}

} // verus!
