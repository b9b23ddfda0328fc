use crate::rules::{lemma_wrap_dec, lemma_wrap_inc};
use vstd::prelude::*;

verus! {

/// A single grid-relative position used to target mutation operations.
/// Movement wraps modulo the grid dimensions, mirroring the toroidal
/// neighbor topology.
#[derive(Clone, Copy, PartialEq, Eq, Structural, Debug)]
pub struct Cursor {
    pub row: usize,
    pub col: usize,
}

impl Cursor {
    /// A cursor centered on a grid of the given dimensions.
    pub fn new(rows: usize, cols: usize) -> (cur: Cursor)
        ensures
            cur.row == rows / 2,
            cur.col == cols / 2,
    {
        Cursor { row: rows / 2, col: cols / 2 }
    }

    /// Whether the cursor sits on the given position.
    pub fn at(&self, row: usize, col: usize) -> (hit: bool)
        ensures
            hit == (row == self.row && col == self.col),
    {
        Cursor { row, col } == *self
    }

    /// Move one column left, wrapping from column 0 to the last column.
    pub fn move_left(&mut self, cols: usize)
        requires
            0 < cols,
            old(self).col < cols,
        ensures
            final(self).row == old(self).row,
            final(self).col == (old(self).col - 1) % (cols as int),
            final(self).col < cols,
    {
        proof {
            lemma_wrap_dec(self.col as int, cols as int);
        }
        if self.col == 0 {
            self.col = cols - 1;
        } else {
            self.col = self.col - 1;
        }
    }

    /// Move one column right, wrapping from the last column to column 0.
    pub fn move_right(&mut self, cols: usize)
        requires
            0 < cols,
            old(self).col < cols,
        ensures
            final(self).row == old(self).row,
            final(self).col == (old(self).col + 1) % (cols as int),
            final(self).col < cols,
    {
        proof {
            lemma_wrap_inc(self.col as int, cols as int);
        }
        if self.col + 1 == cols {
            self.col = 0;
        } else {
            self.col = self.col + 1;
        }
    }

    /// Move one row up, wrapping from row 0 to the last row.
    pub fn move_up(&mut self, rows: usize)
        requires
            0 < rows,
            old(self).row < rows,
        ensures
            final(self).col == old(self).col,
            final(self).row == (old(self).row - 1) % (rows as int),
            final(self).row < rows,
    {
        proof {
            lemma_wrap_dec(self.row as int, rows as int);
        }
        if self.row == 0 {
            self.row = rows - 1;
        } else {
            self.row = self.row - 1;
        }
    }

    /// Move one row down, wrapping from the last row to row 0.
    pub fn move_down(&mut self, rows: usize)
        requires
            0 < rows,
            old(self).row < rows,
        ensures
            final(self).col == old(self).col,
            final(self).row == (old(self).row + 1) % (rows as int),
            final(self).row < rows,
    {
        proof {
            lemma_wrap_inc(self.row as int, rows as int);
        }
        if self.row + 1 == rows {
            self.row = 0;
        } else {
            self.row = self.row + 1;
        }
    }
}

} // verus!
