//! Kernel with row-cursor traversal: each pass of the outer loop fetches the
//! input row and the output row once, and the inner loop then walks the two
//! rows in step, the counterpart of pairing a row iterator with a mutable
//! row iterator.

use vstd::prelude::*;

use crate::model::{cell_fits, covers, grid_fits, lemma_deep_view_unfold, transformed};

verus! {

/// One kernel pass over nested grids, traversing by paired row cursors:
/// afterwards `output[y][x] == input[y][x] + x + y` for every cell of the
/// `nx`-by-`ny` window, while cells beyond the window, and the grid's shape,
/// are kept. The contract is the same as that of the double-indexing kernel.
#[verifier::loop_isolation(false)]
pub fn csub(input_array: &Vec<Vec<i64>>, nx: usize, ny: usize, output_array: &mut Vec<Vec<i64>>)
    requires
        covers(input_array.deep_view(), nx as int, ny as int),
        covers(old(output_array).deep_view(), nx as int, ny as int),
        grid_fits(input_array.deep_view(), nx as int, ny as int),
        nx as int + ny as int <= i64::MAX as int,
    ensures
        final(output_array).deep_view() == transformed(
            input_array.deep_view(),
            old(output_array).deep_view(),
            nx as int,
            ny as int,
        ),
{
    let ghost inp = input_array.deep_view();
    let ghost out0 = output_array.deep_view();
    let ghost t = transformed(inp, out0, nx as int, ny as int);
    proof {
        lemma_deep_view_unfold(*input_array);
        lemma_deep_view_unfold(*output_array);
    }
    for iy in 0..ny
        invariant
            output_array@.len() == out0.len(),
            forall|y: int|
                0 <= y < out0.len() ==> (#[trigger] output_array@[y])@.len() == out0[y].len(),
            forall|y: int, x: int|
                0 <= y < iy && 0 <= x < out0[y].len() ==> (#[trigger] output_array@[y]@[x])
                    == t[y][x],
            forall|y: int, x: int|
                iy <= y < out0.len() && 0 <= x < out0[y].len() ==> (#[trigger] output_array@[y]@[x])
                    == out0[y][x],
    {
        proof {
            assert(inp[iy as int].len() >= nx);
            assert(out0[iy as int].len() >= nx);
        }
        let ghost row_before = output_array@[iy as int]@;
        let row_in: &Vec<i64> = &input_array[iy];
        let row_out: &mut Vec<i64> = &mut output_array[iy];
        for ix in 0..nx
            invariant
                row_in@ == inp[iy as int],
                row_out@.len() == row_before.len(),
                forall|x: int| 0 <= x < ix ==> (#[trigger] row_out@[x]) == t[iy as int][x],
                forall|x: int|
                    ix <= x < row_before.len() ==> (#[trigger] row_out@[x]) == row_before[x],
        {
            proof {
                assert(cell_fits(inp[iy as int][ix as int], ix as int, iy as int));
            }
            let xi: i64 = ix as i64;
            let yi: i64 = iy as i64;
            let v: i64 = row_in[ix] + (xi + yi);
            row_out.set(ix, v);
        }
    }
    proof {
        lemma_deep_view_unfold(*output_array);
        assert forall|y: int| 0 <= y < out0.len() implies (#[trigger] output_array.deep_view()[y])
            =~= t[y] by {
            assert(output_array@[y]@ == output_array.deep_view()[y]);
        }
        assert(output_array.deep_view() =~~= t);
    }
}

} // verus!
