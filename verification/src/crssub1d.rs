//! Kernel over a flattened grid: one contiguous row-major buffer, the cell
//! `(x, y)` addressed by the single index `y * nx + x`.

use vstd::prelude::*;

use crate::model::{flat_covers, flat_fits, transformed_flat};

verus! {

/// One kernel pass over flattened grids: afterwards
/// `output[y * nx + x] == input[y * nx + x] + x + y` for every cell of the
/// `nx`-by-`ny` window, while cells beyond the window keep their old value.
/// Rows are the outer loop, so the buffer is written in increasing order of
/// its contiguous indices.
#[verifier::loop_isolation(false)]
pub fn csub1d(input_array: &Vec<i64>, nx: usize, ny: usize, output_array: &mut Vec<i64>)
    requires
        flat_covers(input_array@, nx as int, ny as int),
        flat_covers(old(output_array)@, nx as int, ny as int),
        flat_fits(input_array@, nx as int, ny as int),
        nx as int + ny as int <= i64::MAX as int,
    ensures
        final(output_array)@ == transformed_flat(
            input_array@,
            old(output_array)@,
            nx as int,
            ny as int,
        ),
{
    let ghost out0 = output_array@;
    let ghost t = transformed_flat(input_array@, out0, nx as int, ny as int);
    let in_len: usize = input_array.len();
    proof {
        assert(0 * (nx as int) == 0) by (nonlinear_arith);
    }
    for iy in 0..ny
        invariant
            output_array@.len() == out0.len(),
            forall|i: int| 0 <= i < iy * nx ==> output_array@[i] == t[i],
            forall|i: int| iy * nx <= i < out0.len() ==> output_array@[i] == out0[i],
    {
        for ix in 0..nx
            invariant
                output_array@.len() == out0.len(),
                forall|i: int| 0 <= i < iy * nx + ix ==> output_array@[i] == t[i],
                forall|i: int| iy * nx + ix <= i < out0.len() ==> output_array@[i] == out0[i],
        {
            proof {
                assert(iy * nx + ix < nx * ny) by (nonlinear_arith)
                    requires
                        0 <= ix < nx,
                        0 <= iy < ny,
                ;
                assert((iy * nx + ix) % (nx as int) == ix && (iy * nx + ix) / (nx as int)
                    == iy) by (nonlinear_arith)
                    requires
                        0 <= ix < nx as int,
                        0 <= iy,
                ;
            }
            let k: usize = iy * nx + ix;
            let xi: i64 = ix as i64;
            let yi: i64 = iy as i64;
            let v: i64 = input_array[k] + (xi + yi);
            output_array.set(k, v);
            assert(output_array@[k as int] == t[k as int]);
        }
        proof {
            assert((iy + 1) * nx == iy * nx + nx) by (nonlinear_arith);
        }
    }
    proof {
        assert((ny as int) * (nx as int) == (nx as int) * (ny as int)) by (nonlinear_arith);
        assert(forall|i: int| ny * nx <= i < out0.len() ==> t[i] == out0[i]);
        assert(output_array@ =~= t);
    }
}

} // verus!
