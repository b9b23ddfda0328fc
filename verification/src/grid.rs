use crate::rules::{
    cell_at, lemma_grid_eq_step_seq, lemma_index_bound, lemma_index_injective,
    lemma_index_roundtrip, lemma_wrap_dec, lemma_wrap_id, lemma_wrap_inc, live_neighbors,
    next_cell, step_seq,
};
use vstd::prelude::*;

verus! {

/// A toroidal boolean cell matrix, stored row-major as a flat buffer plus a
/// column count. The row count is derived as `length / columns`.
pub struct Grid {
    data: Vec<bool>,
    cols: usize,
}

impl View for Grid {
    type V = Seq<bool>;

    closed spec fn view(&self) -> Seq<bool> {
        self.data@
    }
}

impl Grid {
    /// The column count.
    pub closed spec fn spec_cols(self) -> int {
        self.cols as int
    }

    /// The row count: buffer length over column count, zero for a grid
    /// without columns.
    pub open spec fn spec_rows(self) -> int {
        if self.spec_cols() == 0 {
            0
        } else {
            self@.len() as int / self.spec_cols()
        }
    }

    /// Well-formedness: the buffer holds exactly `rows * columns` cells. In
    /// particular a grid without columns holds no cells.
    pub open spec fn wf(self) -> bool {
        self@.len() == self.spec_rows() * self.spec_cols()
    }

    /// The cell at row `r`, column `c`.
    pub open spec fn spec_cell(self, r: int, c: int) -> bool {
        cell_at(self@, self.spec_cols(), r, c)
    }

    /// An all-dead grid of the given dimensions.
    pub fn new(rows: usize, cols: usize) -> (g: Grid)
        requires
            rows * cols <= usize::MAX,
        ensures
            g.wf(),
            g.spec_cols() == cols as int,
            g.spec_rows() == if cols == 0 { 0int } else { rows as int },
            g@.len() == rows * cols,
            forall|i: int| 0 <= i < g@.len() ==> !g@[i],
    {
        let g = Grid { data: dead_cells(rows * cols), cols };
        proof {
            if cols != 0 {
                lemma_index_roundtrip(rows as int, 0, cols as int);
            }
        }
        g
    }

    /// The row count.
    pub fn rows(&self) -> (r: usize)
        ensures
            r as int == self.spec_rows(),
    {
        if self.cols == 0 {
            0
        } else {
            self.data.len() / self.cols
        }
    }

    /// The column count.
    pub fn cols(&self) -> (c: usize)
        ensures
            c as int == self.spec_cols(),
    {
        self.cols
    }

    /// Read the cell at row `r`, column `c`.
    pub fn get(&self, r: usize, c: usize) -> (b: bool)
        requires
            self.wf(),
            r < self.spec_rows(),
            c < self.spec_cols(),
        ensures
            b == self.spec_cell(r as int, c as int),
    {
        let n = self.data.len();
        proof {
            lemma_index_bound(r as int, c as int, self.spec_rows(), self.spec_cols());
            assert(r as int * self.spec_cols() + c < n);
        }
        self.data[r * self.cols + c]
    }

    /// Write the cell at row `r`, column `c`.
    pub fn set(&mut self, r: usize, c: usize, v: bool)
        requires
            old(self).wf(),
            r < old(self).spec_rows(),
            c < old(self).spec_cols(),
        ensures
            final(self).wf(),
            final(self).spec_cols() == old(self).spec_cols(),
            final(self).spec_rows() == old(self).spec_rows(),
            final(self)@ == old(self)@.update(r * old(self).spec_cols() + c, v),
    {
        let n = self.data.len();
        proof {
            lemma_index_bound(r as int, c as int, self.spec_rows(), self.spec_cols());
            assert(r as int * self.spec_cols() + c < n);
        }
        let i: usize = r * self.cols + c;
        self.data[i] = v;
    }

    /// Set every cell dead, preserving the dimensions.
    pub fn clear(&mut self)
        ensures
            final(self).spec_cols() == old(self).spec_cols(),
            final(self).spec_rows() == old(self).spec_rows(),
            final(self)@.len() == old(self)@.len(),
            final(self).wf() == old(self).wf(),
            forall|i: int| 0 <= i < final(self)@.len() ==> !final(self)@[i],
    {
        let len = self.data.len();
        let mut i: usize = 0;
        while i < len
            invariant
                len == self.data.len(),
                self.cols == old(self).cols,
                self.data@.len() == old(self)@.len(),
                i <= len,
                forall|j: int| 0 <= j < i ==> !self.data@[j],
            decreases len - i,
        {
            self.data[i] = false;
            i = i + 1;
        }
    }

    /// The number of live cells among the eight toroidally wrapped neighbors
    /// of `(r, c)`.
    pub fn live_neighbor_count(&self, r: usize, c: usize) -> (n: u8)
        requires
            self.wf(),
            r < self.spec_rows(),
            c < self.spec_cols(),
        ensures
            n as int == live_neighbors(self@, self.spec_rows(), self.spec_cols(), r as int, c as int),
    {
        let rows = self.rows();
        let cols = self.cols();
        let rm = if r == 0 {
            rows - 1
        } else {
            r - 1
        };
        let rp = if r + 1 == rows {
            0
        } else {
            r + 1
        };
        let cm = if c == 0 {
            cols - 1
        } else {
            c - 1
        };
        let cp = if c + 1 == cols {
            0
        } else {
            c + 1
        };
        proof {
            lemma_wrap_dec(r as int, rows as int);
            lemma_wrap_inc(r as int, rows as int);
            lemma_wrap_id(r as int, rows as int);
            lemma_wrap_dec(c as int, cols as int);
            lemma_wrap_inc(c as int, cols as int);
            lemma_wrap_id(c as int, cols as int);
        }
        let mut n: u8 = 0;
        if self.get(rm, cm) {
            n = n + 1;
        }
        if self.get(rm, c) {
            n = n + 1;
        }
        if self.get(rm, cp) {
            n = n + 1;
        }
        if self.get(r, cm) {
            n = n + 1;
        }
        if self.get(r, cp) {
            n = n + 1;
        }
        if self.get(rp, cm) {
            n = n + 1;
        }
        if self.get(rp, c) {
            n = n + 1;
        }
        if self.get(rp, cp) {
            n = n + 1;
        }
        n
    }

    /// Advance the grid one generation under the B3/S23 rule with toroidal
    /// neighbor wrapping. The next generation is computed into a fresh buffer,
    /// so every cell is judged on the previous generation alone. A degenerate
    /// grid is left unchanged.
    #[verifier::loop_isolation(false)]
    pub fn step(&mut self)
        requires
            old(self).wf(),
        ensures
            final(self).wf(),
            final(self).spec_cols() == old(self).spec_cols(),
            final(self).spec_rows() == old(self).spec_rows(),
            final(self)@ == step_seq(old(self)@, old(self).spec_rows(), old(self).spec_cols()),
    {
        let rows = self.rows();
        let cols = self.cols();
        if rows == 0 || cols == 0 {
            return ;
        }
        let n = self.data.len();
        let mut next = dead_cells(n);
        proof {
            lemma_stepped_start(next@, old(self)@, rows as int, cols as int);
        }
        let mut r: usize = 0;
        while r < rows
            invariant
                r <= rows,
                next@.len() == rows * cols,
                region_stepped(next@, old(self)@, rows as int, cols as int, r as int, 0),
            decreases rows - r,
        {
            let mut c: usize = 0;
            while c < cols
                invariant
                    r < rows,
                    c <= cols,
                    next@.len() == rows * cols,
                    region_stepped(next@, old(self)@, rows as int, cols as int, r as int, c as int),
                decreases cols - c,
            {
                let count = self.live_neighbor_count(r, c);
                let alive = self.get(r, c);
                let v = if alive {
                    count == 2 || count == 3
                } else {
                    count == 3
                };
                proof {
                    lemma_index_bound(r as int, c as int, rows as int, cols as int);
                }
                let i: usize = r * cols + c;
                let ghost prev = next@;
                next[i] = v;
                proof {
                    lemma_stepped_advance_cell(
                        prev,
                        next@,
                        old(self)@,
                        rows as int,
                        cols as int,
                        r as int,
                        c as int,
                        v,
                    );
                }
                c = c + 1;
            }
            proof {
                lemma_stepped_row_wrap(next@, old(self)@, rows as int, cols as int, r as int);
            }
            r = r + 1;
        }
        self.data = next;
        proof {
            assert forall|rr: int, cc: int|
                0 <= rr < rows && 0 <= cc < cols implies #[trigger] cell_at(
                self@,
                cols as int,
                rr,
                cc,
            ) == next_cell(old(self)@, rows as int, cols as int, rr, cc) by {
                assert(cell_at(self@, cols as int, rr, cc) == ((rr < rows || (rr == rows && cc
                    < 0)) && next_cell(old(self)@, rows as int, cols as int, rr, cc)));
            }
            lemma_grid_eq_step_seq(self@, old(self)@, rows as int, cols as int);
        }
    }

    /// Replace the grid by an all-dead buffer of the new dimensions, copying
    /// the overlapping top-left rectangle of the old contents; cells outside
    /// the old extent stay dead.
    #[verifier::loop_isolation(false)]
    pub fn resize(&mut self, new_rows: usize, new_cols: usize)
        requires
            old(self).wf(),
            new_rows * new_cols <= usize::MAX,
        ensures
            final(self).wf(),
            final(self).spec_cols() == new_cols as int,
            final(self).spec_rows() == if new_cols == 0 { 0int } else { new_rows as int },
            final(self)@.len() == new_rows * new_cols,
            forall|r: int, c: int|
                0 <= r < new_rows && 0 <= c < new_cols ==> final(self).spec_cell(r, c) == (r
                    < old(self).spec_rows() && c < old(self).spec_cols() && old(self).spec_cell(
                    r,
                    c,
                )),
    {
        let rows = self.rows();
        let cols = self.cols();
        let mut data = dead_cells(new_rows * new_cols);
        let copy_rows = if rows < new_rows {
            rows
        } else {
            new_rows
        };
        let copy_cols = if cols < new_cols {
            cols
        } else {
            new_cols
        };
        proof {
            lemma_region_start(data@, *old(self), new_rows as int, new_cols as int, copy_cols as int);
        }
        let mut r: usize = 0;
        while r < copy_rows
            invariant
                r <= copy_rows,
                data@.len() == new_rows * new_cols,
                region_copied(
                    data@,
                    *old(self),
                    new_rows as int,
                    new_cols as int,
                    copy_cols as int,
                    r as int,
                    0,
                ),
            decreases copy_rows - r,
        {
            let mut c: usize = 0;
            while c < copy_cols
                invariant
                    r < copy_rows,
                    c <= copy_cols,
                    data@.len() == new_rows * new_cols,
                    region_copied(
                        data@,
                        *old(self),
                        new_rows as int,
                        new_cols as int,
                        copy_cols as int,
                        r as int,
                        c as int,
                    ),
                decreases copy_cols - c,
            {
                let v = self.get(r, c);
                proof {
                    lemma_index_bound(r as int, c as int, new_rows as int, new_cols as int);
                }
                let i: usize = r * new_cols + c;
                let ghost prev = data@;
                data[i] = v;
                proof {
                    lemma_region_advance_cell(
                        prev,
                        data@,
                        *old(self),
                        new_rows as int,
                        new_cols as int,
                        copy_cols as int,
                        r as int,
                        c as int,
                        v,
                    );
                }
                c = c + 1;
            }
            proof {
                lemma_region_row_wrap(
                    data@,
                    *old(self),
                    new_rows as int,
                    new_cols as int,
                    copy_cols as int,
                    r as int,
                );
            }
            r = r + 1;
        }
        self.data = data;
        self.cols = new_cols;
        proof {
            if new_cols != 0 {
                lemma_index_roundtrip(new_rows as int, 0, new_cols as int);
            }
            assert forall|rr: int, cc: int|
                0 <= rr < new_rows && 0 <= cc < new_cols implies self.spec_cell(rr, cc) == (rr
                < old(self).spec_rows() && cc < old(self).spec_cols() && old(self).spec_cell(
                rr,
                cc,
            )) by {
                assert(cell_at(data@, new_cols as int, rr, cc) == ((rr < copy_rows || (rr
                    == copy_rows && cc < 0)) && cc < copy_cols && old(self).spec_cell(rr, cc)));
            }
        }
    }
}

/// The dead-grid starting point of the resize copy: no cell of the target has
/// been filled yet.
proof fn lemma_region_start(dst: Seq<bool>, src: Grid, new_rows: int, new_cols: int, copy_cols: int)
    requires
        dst.len() == new_rows * new_cols,
        forall|i: int| 0 <= i < dst.len() ==> !dst[i],
    ensures
        region_copied(dst, src, new_rows, new_cols, copy_cols, 0, 0),
{
    assert forall|rr: int, cc: int|
        0 <= rr < new_rows && 0 <= cc < new_cols implies #[trigger] cell_at(
        dst,
        new_cols,
        rr,
        cc,
    ) == ((rr < 0 || (rr == 0 && cc < 0)) && cc < copy_cols && src.spec_cell(rr, cc)) by {
        lemma_index_bound(rr, cc, new_rows, new_cols);
    }
}

/// Filling one more cell of the target extends the copied region by one
/// column within the current row.
proof fn lemma_region_advance_cell(
    prev: Seq<bool>,
    dst: Seq<bool>,
    src: Grid,
    new_rows: int,
    new_cols: int,
    copy_cols: int,
    r: int,
    c: int,
    v: bool,
)
    requires
        region_copied(prev, src, new_rows, new_cols, copy_cols, r, c),
        prev.len() == new_rows * new_cols,
        0 <= r < new_rows,
        0 <= c < copy_cols,
        copy_cols <= new_cols,
        v == src.spec_cell(r, c),
        dst == prev.update(r * new_cols + c, v),
    ensures
        region_copied(dst, src, new_rows, new_cols, copy_cols, r, c + 1),
{
    lemma_index_bound(r, c, new_rows, new_cols);
    assert forall|rr: int, cc: int|
        0 <= rr < new_rows && 0 <= cc < new_cols implies #[trigger] cell_at(
        dst,
        new_cols,
        rr,
        cc,
    ) == ((rr < r || (rr == r && cc < c + 1)) && cc < copy_cols && src.spec_cell(rr, cc)) by {
        lemma_index_bound(rr, cc, new_rows, new_cols);
        assert(cell_at(prev, new_cols, rr, cc) == ((rr < r || (rr == r && cc < c)) && cc
            < copy_cols && src.spec_cell(rr, cc)));
        if rr == r && cc == c {
            assert(dst[r * new_cols + c] == v);
        } else {
            if rr * new_cols + cc == r * new_cols + c {
                lemma_index_injective(rr, cc, r, c, new_cols);
            }
            assert(dst[rr * new_cols + cc] == prev[rr * new_cols + cc]);
        }
    }
}

/// A fully copied row closes over into the start of the next row.
proof fn lemma_region_row_wrap(
    dst: Seq<bool>,
    src: Grid,
    new_rows: int,
    new_cols: int,
    copy_cols: int,
    r: int,
)
    requires
        region_copied(dst, src, new_rows, new_cols, copy_cols, r, copy_cols),
    ensures
        region_copied(dst, src, new_rows, new_cols, copy_cols, r + 1, 0),
{
    assert forall|rr: int, cc: int|
        0 <= rr < new_rows && 0 <= cc < new_cols implies #[trigger] cell_at(
        dst,
        new_cols,
        rr,
        cc,
    ) == ((rr < r + 1 || (rr == r + 1 && cc < 0)) && cc < copy_cols && src.spec_cell(rr, cc)) by {
        assert(cell_at(dst, new_cols, rr, cc) == ((rr < r || (rr == r && cc < copy_cols)) && cc
            < copy_cols && src.spec_cell(rr, cc)));
    }
}

/// The cells of `dst` below row `r`, and those of row `r` left of column `c`,
/// hold the overlap copy of `src` clipped to `copy_cols` columns; every other
/// cell of `dst` is dead.
spec fn region_copied(
    dst: Seq<bool>,
    src: Grid,
    new_rows: int,
    new_cols: int,
    copy_cols: int,
    r: int,
    c: int,
) -> bool {
    forall|rr: int, cc: int|
        0 <= rr < new_rows && 0 <= cc < new_cols ==> #[trigger] cell_at(dst, new_cols, rr, cc) == ((
        rr < r || (rr == r && cc < c)) && cc < copy_cols && src.spec_cell(rr, cc))
}

/// The dead-buffer starting point of a step: no cell of the next generation
/// has been computed yet.
proof fn lemma_stepped_start(dst: Seq<bool>, s: Seq<bool>, rows: int, cols: int)
    requires
        dst.len() == rows * cols,
        forall|i: int| 0 <= i < dst.len() ==> !dst[i],
    ensures
        region_stepped(dst, s, rows, cols, 0, 0),
{
    assert forall|rr: int, cc: int|
        0 <= rr < rows && 0 <= cc < cols implies #[trigger] cell_at(dst, cols, rr, cc) == ((rr < 0
        || (rr == 0 && cc < 0)) && next_cell(s, rows, cols, rr, cc)) by {
        lemma_index_bound(rr, cc, rows, cols);
    }
}

/// Computing one more cell extends the stepped region by one column within
/// the current row.
proof fn lemma_stepped_advance_cell(
    prev: Seq<bool>,
    dst: Seq<bool>,
    s: Seq<bool>,
    rows: int,
    cols: int,
    r: int,
    c: int,
    v: bool,
)
    requires
        region_stepped(prev, s, rows, cols, r, c),
        prev.len() == rows * cols,
        0 <= r < rows,
        0 <= c < cols,
        v == next_cell(s, rows, cols, r, c),
        dst == prev.update(r * cols + c, v),
    ensures
        region_stepped(dst, s, rows, cols, r, c + 1),
{
    lemma_index_bound(r, c, rows, cols);
    assert forall|rr: int, cc: int|
        0 <= rr < rows && 0 <= cc < cols implies #[trigger] cell_at(dst, cols, rr, cc) == ((rr < r
        || (rr == r && cc < c + 1)) && next_cell(s, rows, cols, rr, cc)) by {
        lemma_index_bound(rr, cc, rows, cols);
        assert(cell_at(prev, cols, rr, cc) == ((rr < r || (rr == r && cc < c)) && next_cell(
            s,
            rows,
            cols,
            rr,
            cc,
        )));
        if rr == r && cc == c {
            assert(dst[r * cols + c] == v);
        } else {
            if rr * cols + cc == r * cols + c {
                lemma_index_injective(rr, cc, r, c, cols);
            }
            assert(dst[rr * cols + cc] == prev[rr * cols + cc]);
        }
    }
}

/// A fully computed row closes over into the start of the next row.
proof fn lemma_stepped_row_wrap(dst: Seq<bool>, s: Seq<bool>, rows: int, cols: int, r: int)
    requires
        region_stepped(dst, s, rows, cols, r, cols),
    ensures
        region_stepped(dst, s, rows, cols, r + 1, 0),
{
    assert forall|rr: int, cc: int|
        0 <= rr < rows && 0 <= cc < cols implies #[trigger] cell_at(dst, cols, rr, cc) == ((rr < r
        + 1 || (rr == r + 1 && cc < 0)) && next_cell(s, rows, cols, rr, cc)) by {
        assert(cell_at(dst, cols, rr, cc) == ((rr < r || (rr == r && cc < cols)) && next_cell(
            s,
            rows,
            cols,
            rr,
            cc,
        )));
    }
}

/// The cells of `dst` below row `r`, and those of row `r` left of column `c`,
/// hold the next generation of `s`; every other cell of `dst` is dead.
spec fn region_stepped(dst: Seq<bool>, s: Seq<bool>, rows: int, cols: int, r: int, c: int) -> bool {
    forall|rr: int, cc: int|
        0 <= rr < rows && 0 <= cc < cols ==> #[trigger] cell_at(dst, cols, rr, cc) == ((rr < r || (
        rr == r && cc < c)) && next_cell(s, rows, cols, rr, cc))
}

/// An all-dead flat buffer of the given length.
fn dead_cells(len: usize) -> (v: Vec<bool>)
    ensures
        v@.len() == len,
        forall|i: int| 0 <= i < len ==> !v@[i],
{
    let mut v: Vec<bool> = Vec::new();
    let mut i: usize = 0;
    while i < len
        invariant
            i <= len,
            v@.len() == i,
            forall|j: int| 0 <= j < i ==> !v@[j],
        decreases len - i,
    {
        v.push(false);
        i = i + 1;
    }
    v
}

} // verus!
