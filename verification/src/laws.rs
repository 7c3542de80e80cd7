//! Laws relating the kernel's variants and repeated passes.

use vstd::prelude::*;

use crate::model::{cell_value, covers, transformed, transformed_flat};

verus! {

/// Law: a second kernel pass over the same input changes nothing — every
/// cell of the window is rewritten with the same value it already holds,
/// and cells beyond the window are kept. Hence any number of passes over
/// one input grid leaves the output exactly as a single pass does.
pub proof fn lemma_kernel_idempotent(inp: Seq<Seq<i64>>, out0: Seq<Seq<i64>>, nx: int, ny: int)
    ensures
        transformed(inp, transformed(inp, out0, nx, ny), nx, ny) == transformed(
            inp,
            out0,
            nx,
            ny,
        ),
{
    let t = transformed(inp, out0, nx, ny);
    let t2 = transformed(inp, t, nx, ny);
    assert forall|y: int| 0 <= y < t.len() implies #[trigger] t2[y] =~= t[y] by {}
    assert(t2 =~~= t);
}

/// Law: a second kernel pass over the same flattened input changes nothing,
/// as with the nested representation.
pub proof fn lemma_flat_kernel_idempotent(inp: Seq<i64>, out0: Seq<i64>, nx: int, ny: int)
    ensures
        transformed_flat(inp, transformed_flat(inp, out0, nx, ny), nx, ny) == transformed_flat(
            inp,
            out0,
            nx,
            ny,
        ),
{
    let t = transformed_flat(inp, out0, nx, ny);
    assert(transformed_flat(inp, t, nx, ny) =~= t);
}

/// Law: the flattened kernel and the nested kernel agree. If a flattened
/// grid holds the same values as a nested grid — cell `(x, y)` at row-major
/// index `i == y * nx + x`, that is at row `i / nx`, column `i % nx` — then
/// after one pass each, every index of the flattened window holds exactly
/// the cell the nested result holds at the corresponding position.
pub proof fn lemma_flat_agrees_with_nested(
    inp: Seq<Seq<i64>>,
    out0: Seq<Seq<i64>>,
    finp: Seq<i64>,
    fout0: Seq<i64>,
    nx: int,
    ny: int,
)
    requires
        0 < nx,
        covers(inp, nx, ny),
        covers(out0, nx, ny),
        finp.len() >= nx * ny,
        fout0.len() >= nx * ny,
        forall|i: int| 0 <= i < nx * ny ==> #[trigger] finp[i] == inp[i / nx][i % nx],
    ensures
        forall|i: int|
            0 <= i < nx * ny ==> #[trigger] transformed_flat(finp, fout0, nx, ny)[i] == transformed(
                inp,
                out0,
                nx,
                ny,
            )[i / nx][i % nx],
{
    let t = transformed(inp, out0, nx, ny);
    let tf = transformed_flat(finp, fout0, nx, ny);
    assert forall|i: int| 0 <= i < nx * ny implies #[trigger] tf[i] == t[i / nx][i % nx] by {
        let y = i / nx;
        let x = i % nx;
        assert(0 <= x < nx && 0 <= y < ny && y * nx + x == i) by (nonlinear_arith)
            requires
                0 < nx,
                0 <= i < nx * ny,
                y == i / nx,
                x == i % nx,
        ;
        assert(tf[i] == cell_value(finp[i], x, y) as i64);
        assert(t[y][x] == cell_value(inp[y][x], x, y) as i64);
    }
}

/// Law: on a one-by-one grid the kernel leaves the single cell unchanged,
/// since both of its indices are zero.
pub proof fn lemma_unit_grid(inp: Seq<Seq<i64>>, out0: Seq<Seq<i64>>)
    requires
        covers(inp, 1, 1),
        covers(out0, 1, 1),
    ensures
        transformed(inp, out0, 1, 1)[0][0] == inp[0][0],
{
}

} // verus!
