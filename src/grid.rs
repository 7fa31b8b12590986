//! Sizes that follow from the grid's side length: cell count, buffer size,
//! work groups of the update dispatch, and the unit quad drawn per cell.
use vstd::prelude::*;

verus! {

/// Bytes that one cell takes in a cell buffer.
pub const CELL_BYTES: u32 = 4;

/// Vertices of the quad drawn for one cell: two triangles.
pub const QUAD_VERTICES: u32 = 6;

/// The least number of groups of `group_size` that hold `n` items.
pub open spec fn ceil_div(n: nat, group_size: nat) -> nat
    recommends
        group_size > 0,
{
    ((n + group_size - 1) as nat) / group_size
}

/// `ceil_div` is the quotient when the division is exact, and one more otherwise.
pub proof fn lemma_ceil_div(n: nat, g: nat)
    requires
        g > 0,
    ensures
        n % g == 0 ==> ceil_div(n, g) == n / g,
        n % g != 0 ==> ceil_div(n, g) == n / g + 1,
        n == g * (n / g) + n % g,
{
    let ni = n as int;
    let gi = g as int;
    let q = ni / gi;
    assert(ni == gi * q + ni % gi) by (nonlinear_arith)
        requires q == ni / gi, gi > 0;
    if ni % gi == 0 {
        assert((ni + gi - 1) / gi == q) by (nonlinear_arith)
            requires ni == gi * q, gi > 0;
    } else {
        assert((ni + gi - 1) / gi == q + 1) by (nonlinear_arith)
            requires ni == gi * q + ni % gi, 0 < ni % gi < gi, gi > 0;
    }
}

/// Number of cells of an `n_rows` by `n_rows` grid.
pub fn n_cells(n_rows: u32) -> (r: u32)
    requires
        n_rows * n_rows <= u32::MAX,
    ensures
        r == n_rows * n_rows,
{
    n_rows * n_rows
}

/// Size in bytes of one cell buffer: the binding size agreed with the programs.
pub fn cell_buffer_bytes(n_cells: u32) -> (r: u64)
    ensures
        r == n_cells * CELL_BYTES,
{
    let n: u64 = n_cells as u64;
    let b: u64 = CELL_BYTES as u64;
    assert(n * b <= u64::MAX) by (nonlinear_arith)
        requires n <= u32::MAX, b == 4;
    n * b
}

/// Number of work groups dispatched so that each cell gets one invocation.
pub fn work_group_count(n_cells: u32, group_size: u32) -> (r: u32)
    requires
        group_size > 0,
    ensures
        r == ceil_div(n_cells as nat, group_size as nat),
        r * group_size >= n_cells,
        n_cells > 0 ==> (r - 1) * group_size < n_cells,
        n_cells == 0 ==> r == 0,
{
    let q = n_cells / group_size;
    proof {
        if n_cells % group_size != 0 {
            assert(q < u32::MAX) by (nonlinear_arith)
                requires q == n_cells / group_size, group_size > 1, n_cells <= u32::MAX;
        }
    }
    let r = if n_cells % group_size == 0 {
        q
    } else {
        q + 1
    };
    proof {
        let n = n_cells as int;
        let g = group_size as int;
        lemma_ceil_div(n_cells as nat, group_size as nat);
        assert(r * g >= n) by (nonlinear_arith)
            requires n == g * q + n % g, 0 <= n % g < g, r == q || (r == q + 1 && n % g > 0), (r == q ==> n % g == 0);
        if n > 0 {
            assert((r - 1) * g < n) by (nonlinear_arith)
                requires n == g * q + n % g, 0 <= n % g < g, n > 0, r == q || (r == q + 1 && n % g > 0), (r == q ==> n % g == 0);
        }
    }
    r
}

/// Corners of the unit quad of one cell, in cells: `(0, 0)` is the cell's
/// own corner and `(1, 1)` the opposite one. Scaled by the size of one cell
/// these are the vertex template shared by all cell instances.
pub open spec fn quad_corners() -> Seq<(u32, u32)> {
    seq![(0u32, 0u32), (1, 0), (1, 1), (0, 0), (1, 1), (0, 1)]
}

/// The vertex template in cell units: two triangles covering one cell.
pub fn vertex_template() -> (r: Vec<(u32, u32)>)
    ensures
        r@ == quad_corners(),
        r@.len() == QUAD_VERTICES,
{
    let v: Vec<(u32, u32)> = vec![(0u32, 0u32), (1, 0), (1, 1), (0, 0), (1, 1), (0, 1)];
    assert(v@ == quad_corners());
    v
}

/// A degenerate grid of one row still dispatches one work group and draws
/// one instance, whatever the group size.
pub proof fn lemma_single_cell_grid(group_size: nat)
    requires
        group_size > 0,
    ensures
        ceil_div(1 * 1, group_size) == 1,
{
    assert((1 + group_size - 1) as nat / group_size == 1) by (nonlinear_arith)
        requires group_size > 0;
}

} // verus!
