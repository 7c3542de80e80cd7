//! The computing parts of the surrounding test harness: building the input
//! grid with its deterministic fill, running the kernel a given number of
//! times over one output buffer, and scanning the result for the first cell
//! that does not match the kernel's formula.

use vstd::prelude::*;

use crate::crssub::csub;
use crate::laws::lemma_kernel_idempotent;
use crate::model::{cell_value, covers, grid_fits, lemma_deep_view_unfold, transformed};

verus! {

/// The deterministic fill of the input grid: cell `(x, y)` holds
/// `nx - x + ny - y`.
pub open spec fn init_value(nx: int, ny: int, x: int, y: int) -> int {
    nx - x + ny - y
}

/// Cell `(x, y)` of `out` holds what the kernel owes it over `inp`.
pub open spec fn cell_ok(inp: Seq<Seq<i64>>, out: Seq<Seq<i64>>, x: int, y: int) -> bool {
    out[y][x] == cell_value(inp[y][x], x, y)
}

/// Every cell of the `nx`-by-`ny` window holds what the kernel owes it.
pub open spec fn all_cells_ok(inp: Seq<Seq<i64>>, out: Seq<Seq<i64>>, nx: int, ny: int) -> bool {
    forall|y: int, x: int| 0 <= y < ny && 0 <= x < nx ==> #[trigger] cell_ok(inp, out, x, y)
}

/// Cell `(x1, y1)` comes before cell `(x2, y2)` in scan order: rows outer,
/// columns inner.
pub open spec fn scans_before(x1: int, y1: int, x2: int, y2: int) -> bool {
    y1 < y2 || (y1 == y2 && x1 < x2)
}

/// Builds a fresh `ny`-by-`nx` nested grid with the deterministic fill
/// `grid[y][x] == nx - x + ny - y`.
#[verifier::loop_isolation(false)]
pub fn init_input(nx: usize, ny: usize) -> (g: Vec<Vec<i64>>)
    requires
        nx as int + ny as int <= i64::MAX as int,
    ensures
        g.deep_view().len() == ny,
        forall|y: int| 0 <= y < ny ==> (#[trigger] g.deep_view()[y]).len() == nx,
        forall|y: int, x: int|
            0 <= y < ny && 0 <= x < nx ==> #[trigger] g.deep_view()[y][x] == init_value(
                nx as int,
                ny as int,
                x,
                y,
            ),
{
    let nxi: i64 = nx as i64;
    let nyi: i64 = ny as i64;
    let mut g: Vec<Vec<i64>> = Vec::new();
    for iy in 0..ny
        invariant
            g@.len() == iy,
            forall|y: int| 0 <= y < iy ==> (#[trigger] g@[y])@.len() == nx,
            forall|y: int, x: int|
                0 <= y < iy && 0 <= x < nx ==> #[trigger] g@[y]@[x] == init_value(
                    nx as int,
                    ny as int,
                    x,
                    y,
                ),
    {
        let yi: i64 = iy as i64;
        let mut row: Vec<i64> = Vec::new();
        for ix in 0..nx
            invariant
                row@.len() == ix,
                forall|x: int|
                    0 <= x < ix ==> #[trigger] row@[x] == init_value(
                        nx as int,
                        ny as int,
                        x,
                        iy as int,
                    ),
        {
            let xi: i64 = ix as i64;
            row.push(nxi - xi + (nyi - yi));
        }
        g.push(row);
    }
    proof {
        lemma_deep_view_unfold(g);
    }
    g
}

/// Builds a fresh nested grid of `ny` rows of `nx` cells, every cell zero;
/// the usual output buffer handed to the kernel.
#[verifier::loop_isolation(false)]
pub fn zero_grid(nx: usize, ny: usize) -> (g: Vec<Vec<i64>>)
    ensures
        g.deep_view().len() == ny,
        forall|y: int| 0 <= y < ny ==> (#[trigger] g.deep_view()[y]).len() == nx,
        forall|y: int, x: int| 0 <= y < ny && 0 <= x < nx ==> #[trigger] g.deep_view()[y][x] == 0,
{
    let mut g: Vec<Vec<i64>> = Vec::new();
    for iy in 0..ny
        invariant
            g@.len() == iy,
            forall|y: int| 0 <= y < iy ==> (#[trigger] g@[y])@.len() == nx,
            forall|y: int, x: int| 0 <= y < iy && 0 <= x < nx ==> #[trigger] g@[y]@[x] == 0,
    {
        let mut row: Vec<i64> = Vec::new();
        for ix in 0..nx
            invariant
                row@.len() == ix,
                forall|x: int| 0 <= x < ix ==> #[trigger] row@[x] == 0,
        {
            row.push(0i64);
        }
        g.push(row);
    }
    proof {
        lemma_deep_view_unfold(g);
    }
    g
}

/// Runs the double-indexing kernel `nrpt` times over the same input grid
/// and the same output buffer. Any positive number of passes leaves the
/// output exactly as a single pass does; zero passes leave it untouched.
#[verifier::loop_isolation(false)]
pub fn run_repeated(
    input_array: &Vec<Vec<i64>>,
    nx: usize,
    ny: usize,
    output_array: &mut Vec<Vec<i64>>,
    nrpt: usize,
)
    requires
        covers(input_array.deep_view(), nx as int, ny as int),
        covers(old(output_array).deep_view(), nx as int, ny as int),
        grid_fits(input_array.deep_view(), nx as int, ny as int),
        nx as int + ny as int <= i64::MAX as int,
    ensures
        nrpt == 0 ==> final(output_array).deep_view() == old(output_array).deep_view(),
        nrpt >= 1 ==> final(output_array).deep_view() == transformed(
            input_array.deep_view(),
            old(output_array).deep_view(),
            nx as int,
            ny as int,
        ),
{
    let ghost inp = input_array.deep_view();
    let ghost out0 = output_array.deep_view();
    let ghost t = transformed(inp, out0, nx as int, ny as int);
    for r in 0..nrpt
        invariant
            r == 0 ==> output_array.deep_view() == out0,
            r >= 1 ==> output_array.deep_view() == t,
            covers(output_array.deep_view(), nx as int, ny as int),
    {
        let ghost before = output_array.deep_view();
        csub(input_array, nx, ny, output_array);
        proof {
            if r >= 1 {
                lemma_kernel_idempotent(inp, out0, nx as int, ny as int);
            }
            assert forall|y: int|
                0 <= y < ny implies (#[trigger] output_array.deep_view()[y]).len() >= nx by {
                assert(output_array.deep_view()[y].len() == before[y].len());
            }
        }
    }
}

/// Scans the output grid in the kernel's own order — rows outer, columns
/// inner — for the first cell that does not hold `input + x + y`, and
/// returns its column and row; `None` means every cell of the window is
/// correct. Every cell before a reported mismatch is correct.
#[verifier::loop_isolation(false)]
pub fn check_output(
    input_array: &Vec<Vec<i64>>,
    output_array: &Vec<Vec<i64>>,
    nx: usize,
    ny: usize,
) -> (r: Option<(usize, usize)>)
    requires
        covers(input_array.deep_view(), nx as int, ny as int),
        covers(output_array.deep_view(), nx as int, ny as int),
        grid_fits(input_array.deep_view(), nx as int, ny as int),
        nx as int + ny as int <= i64::MAX as int,
    ensures
        r is None <==> all_cells_ok(
            input_array.deep_view(),
            output_array.deep_view(),
            nx as int,
            ny as int,
        ),
        r matches Some((bx, by)) ==> {
            &&& bx < nx
            &&& by < ny
            &&& !cell_ok(input_array.deep_view(), output_array.deep_view(), bx as int, by as int)
            &&& forall|y: int, x: int|
                0 <= y < ny && 0 <= x < nx && scans_before(x, y, bx as int, by as int)
                    ==> #[trigger] cell_ok(
                    input_array.deep_view(),
                    output_array.deep_view(),
                    x,
                    y,
                )
        },
{
    let ghost inp = input_array.deep_view();
    let ghost out = output_array.deep_view();
    proof {
        lemma_deep_view_unfold(*input_array);
        lemma_deep_view_unfold(*output_array);
    }
    for iy in 0..ny
        invariant
            forall|y: int, x: int|
                0 <= y < iy && 0 <= x < nx ==> #[trigger] cell_ok(inp, out, x, y),
    {
        for ix in 0..nx
            invariant
                forall|y: int, x: int|
                    0 <= y < iy && 0 <= x < nx ==> #[trigger] cell_ok(inp, out, x, y),
                forall|x: int| 0 <= x < ix ==> #[trigger] cell_ok(inp, out, x, iy as int),
        {
            proof {
                assert(inp[iy as int].len() >= nx);
                assert(out[iy as int].len() >= nx);
                assert(input_array@[iy as int]@[ix as int] == inp[iy as int][ix as int]);
                assert(output_array@[iy as int]@[ix as int] == out[iy as int][ix as int]);
                assert(cell_value(inp[iy as int][ix as int], ix as int, iy as int)
                    <= i64::MAX as int);
            }
            let xi: i64 = ix as i64;
            let yi: i64 = iy as i64;
            let expected: i64 = input_array[iy][ix] + (xi + yi);
            if output_array[iy][ix] != expected {
                assert(!cell_ok(inp, out, ix as int, iy as int));
                return Some((ix, iy));
            }
            assert(cell_ok(inp, out, ix as int, iy as int));
        }
    }
    None
}

} // verus!
