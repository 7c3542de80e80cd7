//! Kernel over a nested grid: a vector of row vectors, every cell addressed
//! by double indexing, `grid[y][x]`.

use vstd::prelude::*;

use crate::model::{cell_fits, covers, grid_fits, lemma_deep_view_unfold, transformed};

verus! {

/// One kernel pass over nested grids: afterwards
/// `output[y][x] == input[y][x] + x + y` for every cell of the `nx`-by-`ny`
/// window, while cells beyond the window, and the grid's shape, are kept.
/// Rows are the outer loop and columns the inner one, so each row's
/// contiguous cells are visited in order.
#[verifier::loop_isolation(false)]
pub fn csub(input_array: &Vec<Vec<i64>>, nx: usize, ny: usize, output_array: &mut Vec<Vec<i64>>)
    requires
        covers(input_array.deep_view(), nx as int, ny as int),
        covers(old(output_array).deep_view(), nx as int, ny as int),
        grid_fits(input_array.deep_view(), nx as int, ny as int),
        nx as int + ny as int <= i64::MAX as int,
    ensures
        final(output_array).deep_view() == transformed(
            input_array.deep_view(),
            old(output_array).deep_view(),
            nx as int,
            ny as int,
        ),
{
    let ghost inp = input_array.deep_view();
    let ghost out0 = output_array.deep_view();
    let ghost t = transformed(inp, out0, nx as int, ny as int);
    proof {
        lemma_deep_view_unfold(*input_array);
        lemma_deep_view_unfold(*output_array);
    }
    for iy in 0..ny
        invariant
            output_array@.len() == out0.len(),
            forall|y: int|
                0 <= y < out0.len() ==> (#[trigger] output_array@[y])@.len() == out0[y].len(),
            forall|y: int, x: int|
                0 <= y < iy && 0 <= x < out0[y].len() ==> (#[trigger] output_array@[y]@[x])
                    == t[y][x],
            forall|y: int, x: int|
                iy <= y < out0.len() && 0 <= x < out0[y].len() ==> (#[trigger] output_array@[y]@[x])
                    == out0[y][x],
    {
        for ix in 0..nx
            invariant
                output_array@.len() == out0.len(),
                forall|y: int|
                    0 <= y < out0.len() ==> (#[trigger] output_array@[y])@.len() == out0[y].len(),
                forall|y: int, x: int|
                    0 <= y < iy && 0 <= x < out0[y].len() ==> (#[trigger] output_array@[y]@[x])
                        == t[y][x],
                forall|x: int|
                    0 <= x < ix ==> (#[trigger] output_array@[iy as int]@[x]) == t[iy as int][x],
                forall|x: int|
                    ix <= x < out0[iy as int].len() ==> (#[trigger] output_array@[iy as int]@[x])
                        == out0[iy as int][x],
                forall|y: int, x: int|
                    iy < y < out0.len() && 0 <= x < out0[y].len() ==> (#[trigger] output_array@[y]@[x])
                        == out0[y][x],
        {
            proof {
                assert(inp[iy as int].len() >= nx);
                assert(input_array@[iy as int]@[ix as int] == inp[iy as int][ix as int]);
                assert(cell_fits(inp[iy as int][ix as int], ix as int, iy as int));
                assert(out0[iy as int].len() >= nx);
            }
            let xi: i64 = ix as i64;
            let yi: i64 = iy as i64;
            let v: i64 = input_array[iy][ix] + (xi + yi);
            output_array[iy][ix] = v;
            assert(output_array@[iy as int]@[ix as int] == t[iy as int][ix as int]);
        }
    }
    proof {
        lemma_deep_view_unfold(*output_array);
        assert forall|y: int| 0 <= y < out0.len() implies (#[trigger] output_array.deep_view()[y])
            =~= t[y] by {
            assert(output_array@[y]@ == output_array.deep_view()[y]);
        }
        assert(output_array.deep_view() =~~= t);
    }
}

} // verus!
