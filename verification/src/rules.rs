use vstd::prelude::*;
use vstd::arithmetic::div_mod::{
    lemma_fundamental_div_mod, lemma_fundamental_div_mod_converse, lemma_mod_add_multiples_vanish,
    lemma_mod_bound, lemma_mod_self_0, lemma_small_mod,
};

verus! {

/// The cell at row `r`, column `c` of a grid stored row-major in `s` with
/// `cols` columns.
pub open spec fn cell_at(s: Seq<bool>, cols: int, r: int, c: int) -> bool {
    s[r * cols + c]
}

/// 1 when the toroidally wrapped neighbor at offset `(dr, dc)` from `(r, c)`
/// is alive, else 0.
pub open spec fn neighbor_bit(
    s: Seq<bool>,
    rows: int,
    cols: int,
    r: int,
    c: int,
    dr: int,
    dc: int,
) -> int {
    if cell_at(s, cols, (r + dr) % rows, (c + dc) % cols) {
        1
    } else {
        0
    }
}

/// The number of live cells among the eight toroidally wrapped neighbors of
/// `(r, c)`. The cell itself is not counted: the offset `(0, 0)` is excluded.
pub open spec fn live_neighbors(s: Seq<bool>, rows: int, cols: int, r: int, c: int) -> int {
    neighbor_bit(s, rows, cols, r, c, -1, -1) + neighbor_bit(s, rows, cols, r, c, -1, 0)
        + neighbor_bit(s, rows, cols, r, c, -1, 1) + neighbor_bit(s, rows, cols, r, c, 0, -1)
        + neighbor_bit(s, rows, cols, r, c, 0, 1) + neighbor_bit(s, rows, cols, r, c, 1, -1)
        + neighbor_bit(s, rows, cols, r, c, 1, 0) + neighbor_bit(s, rows, cols, r, c, 1, 1)
}

/// The classic Life rule, B3/S23: a live cell survives with two or three live
/// neighbors; a dead cell is born with exactly three; everything else dies.
pub open spec fn life_rule(alive: bool, neighbors: int) -> bool {
    if alive {
        neighbors == 2 || neighbors == 3
    } else {
        neighbors == 3
    }
}

/// The state of cell `(r, c)` in the next generation.
pub open spec fn next_cell(s: Seq<bool>, rows: int, cols: int, r: int, c: int) -> bool {
    life_rule(cell_at(s, cols, r, c), live_neighbors(s, rows, cols, r, c))
}

/// One synchronous generation of the whole grid. Every cell of the result is
/// computed from the previous generation alone. A degenerate grid (zero rows
/// or zero columns) is left unchanged, which also avoids wrapping modulo zero.
pub open spec fn step_seq(s: Seq<bool>, rows: int, cols: int) -> Seq<bool> {
    if rows <= 0 || cols <= 0 {
        s
    } else {
        Seq::new((rows * cols) as nat, |i: int| next_cell(s, rows, cols, i / cols, i % cols))
    }
}

/// `n` synchronous generations.
pub open spec fn step_n(s: Seq<bool>, rows: int, cols: int, n: nat) -> Seq<bool>
    decreases n,
{
    if n == 0 {
        s
    } else {
        step_seq(step_n(s, rows, cols, (n - 1) as nat), rows, cols)
    }
}

/// The row-major index of an in-bounds cell lies below `rows * cols`.
pub proof fn lemma_index_bound(r: int, c: int, rows: int, cols: int)
    requires
        0 <= r < rows,
        0 <= c < cols,
    ensures
        0 <= r * cols + c < rows * cols,
{
    assert(0 <= r * cols + c < rows * cols) by (nonlinear_arith)
        requires
            0 <= r < rows,
            0 <= c < cols,
    ;
}

/// Row and column are recovered from the row-major index by division and
/// remainder.
pub proof fn lemma_index_roundtrip(r: int, c: int, cols: int)
    requires
        0 <= r,
        0 <= c < cols,
    ensures
        (r * cols + c) / cols == r,
        (r * cols + c) % cols == c,
{
    lemma_fundamental_div_mod_converse(r * cols + c, cols, r, c);
}

/// Row-major indexing is injective over in-bounds coordinates.
pub proof fn lemma_index_injective(r1: int, c1: int, r2: int, c2: int, cols: int)
    requires
        0 <= r1,
        0 <= r2,
        0 <= c1 < cols,
        0 <= c2 < cols,
        r1 * cols + c1 == r2 * cols + c2,
    ensures
        r1 == r2,
        c1 == c2,
{
    lemma_index_roundtrip(r1, c1, cols);
    lemma_index_roundtrip(r2, c2, cols);
}

/// Decrementing wraps: one step up or left from an in-bounds coordinate lands
/// on the opposite edge exactly when starting from zero.
pub proof fn lemma_wrap_dec(i: int, n: int)
    requires
        0 <= i < n,
    ensures
        (i - 1) % n == if i == 0 {
            n - 1
        } else {
            i - 1
        },
{
    if i == 0 {
        lemma_mod_add_multiples_vanish(-1, n);
        lemma_small_mod((n - 1) as nat, n as nat);
    } else {
        lemma_small_mod((i - 1) as nat, n as nat);
    }
}

/// Incrementing wraps: one step down or right from an in-bounds coordinate
/// lands on the opposite edge exactly when starting from the last position.
pub proof fn lemma_wrap_inc(i: int, n: int)
    requires
        0 <= i < n,
    ensures
        (i + 1) % n == if i + 1 == n {
            0
        } else {
            i + 1
        },
{
    if i + 1 == n {
        lemma_mod_self_0(n);
    } else {
        lemma_small_mod((i + 1) as nat, n as nat);
    }
}

/// A buffer that agrees with the next generation cell by cell is the next
/// generation.
pub proof fn lemma_grid_eq_step_seq(dst: Seq<bool>, s: Seq<bool>, rows: int, cols: int)
    requires
        0 < rows,
        0 < cols,
        dst.len() == rows * cols,
        forall|r: int, c: int|
            0 <= r < rows && 0 <= c < cols ==> #[trigger] cell_at(dst, cols, r, c) == next_cell(
                s,
                rows,
                cols,
                r,
                c,
            ),
    ensures
        dst == step_seq(s, rows, cols),
{
    assert forall|i: int| 0 <= i < rows * cols implies dst[i] == step_seq(s, rows, cols)[i] by {
        let r = i / cols;
        let c = i % cols;
        lemma_fundamental_div_mod(i, cols);
        lemma_mod_bound(i, cols);
        assert(0 <= r && r < rows) by (nonlinear_arith)
            requires
                i == cols * r + c,
                0 <= c < cols,
                0 <= i < rows * cols,
                0 < cols,
        ;
        assert(cell_at(dst, cols, r, c) == next_cell(s, rows, cols, r, c));
    }
    assert(dst =~= step_seq(s, rows, cols));
}

/// An in-bounds coordinate is unchanged by wrapping.
pub proof fn lemma_wrap_id(i: int, n: int)
    requires
        0 <= i < n,
    ensures
        i % n == i,
{
    lemma_small_mod(i as nat, n as nat);
}

} // verus!
