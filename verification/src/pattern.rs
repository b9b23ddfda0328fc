use vstd::prelude::*;

verus! {

/// A named, immutable template of live-cell offsets relative to an anchor.
/// The catalog holds six canonical Life shapes — oscillators and translating
/// spaceships — chosen to exercise varied dynamics.
#[derive(Clone, Copy, PartialEq, Eq, Structural, Debug)]
pub enum Pattern {
    Glider,
    Blinker,
    Toad,
    Beacon,
    Pulsar,
    LightweightSpaceship,
}

/// The pattern selected by a catalog index, used for uniform random
/// selection among the six shapes.
pub open spec fn pattern_of_index(i: int) -> Pattern {
    if i == 0 {
        Pattern::Glider
    } else if i == 1 {
        Pattern::Blinker
    } else if i == 2 {
        Pattern::Toad
    } else if i == 3 {
        Pattern::Beacon
    } else if i == 4 {
        Pattern::Pulsar
    } else {
        Pattern::LightweightSpaceship
    }
}

/// The value of cell `(r, c)` after stamping the first `n` offsets of
/// `cells` anchored at `(anchor_r, anchor_c)` onto a grid whose cell there
/// held `was`: alive if it was alive, or if one of those offsets lands
/// exactly on it.
pub open spec fn stamped_cell_prefix(
    was: bool,
    cells: Seq<(usize, usize)>,
    n: int,
    anchor_r: int,
    anchor_c: int,
    r: int,
    c: int,
) -> bool {
    was || exists|k: int|
        #![trigger cells[k]]
        0 <= k < n && r == anchor_r + cells[k].0 && c == anchor_c + cells[k].1
}

/// The value of cell `(r, c)` after stamping all of `cells` anchored at
/// `(anchor_r, anchor_c)`. An offset that would land outside the grid lands
/// on no in-bounds `(r, c)` at all, so it is silently dropped — stamping
/// never wraps around the edges.
pub open spec fn stamped_cell(
    was: bool,
    cells: Seq<(usize, usize)>,
    anchor_r: int,
    anchor_c: int,
    r: int,
    c: int,
) -> bool {
    stamped_cell_prefix(was, cells, cells.len() as int, anchor_r, anchor_c, r, c)
}

impl Pattern {
    /// The (row-offset, column-offset) pairs of the template, relative to an
    /// anchor at the top-left.
    pub open spec fn spec_cells(self) -> Seq<(usize, usize)> {
        match self {
            Pattern::Glider => seq![(0usize, 1usize), (1usize, 2usize), (2usize, 0usize), (2usize, 1usize), (2usize, 2usize)],
            Pattern::Blinker => seq![(1usize, 0usize), (1usize, 1usize), (1usize, 2usize)],
            Pattern::Toad => seq![(1usize, 1usize), (1usize, 2usize), (1usize, 3usize), (2usize, 0usize), (2usize, 1usize), (2usize, 2usize)],
            Pattern::Beacon => seq![(0usize, 0usize), (0usize, 1usize), (1usize, 0usize), (2usize, 3usize), (3usize, 2usize), (3usize, 3usize)],
            Pattern::Pulsar => seq![(0usize, 2usize), (0usize, 3usize), (0usize, 4usize), (0usize, 8usize), (0usize, 9usize), (0usize, 10usize), (2usize, 0usize), (2usize, 5usize), (2usize, 7usize), (2usize, 12usize), (3usize, 0usize), (3usize, 5usize), (3usize, 7usize), (3usize, 12usize), (4usize, 0usize), (4usize, 5usize), (4usize, 7usize), (4usize, 12usize), (5usize, 2usize), (5usize, 3usize), (5usize, 4usize), (5usize, 8usize), (5usize, 9usize), (5usize, 10usize), (7usize, 2usize), (7usize, 3usize), (7usize, 4usize), (7usize, 8usize), (7usize, 9usize), (7usize, 10usize), (8usize, 0usize), (8usize, 5usize), (8usize, 7usize), (8usize, 12usize), (9usize, 0usize), (9usize, 5usize), (9usize, 7usize), (9usize, 12usize), (10usize, 0usize), (10usize, 5usize), (10usize, 7usize), (10usize, 12usize), (12usize, 2usize), (12usize, 3usize), (12usize, 4usize), (12usize, 8usize), (12usize, 9usize), (12usize, 10usize)],
            Pattern::LightweightSpaceship => seq![(0usize, 1usize), (0usize, 4usize), (1usize, 0usize), (2usize, 0usize), (2usize, 4usize), (3usize, 0usize), (3usize, 1usize), (3usize, 2usize), (3usize, 3usize)],
        }
    }

    /// The offset pairs of the template, in catalog order.
    pub fn cells(&self) -> (v: Vec<(usize, usize)>)
        ensures
            v@ == self.spec_cells(),
    {
        let mut v: Vec<(usize, usize)> = Vec::new();
        match self {
            Pattern::Glider => {
                v.push((0, 1));
                v.push((1, 2));
                v.push((2, 0));
                v.push((2, 1));
                v.push((2, 2));
            },
            Pattern::Blinker => {
                v.push((1, 0));
                v.push((1, 1));
                v.push((1, 2));
            },
            Pattern::Toad => {
                v.push((1, 1));
                v.push((1, 2));
                v.push((1, 3));
                v.push((2, 0));
                v.push((2, 1));
                v.push((2, 2));
            },
            Pattern::Beacon => {
                v.push((0, 0));
                v.push((0, 1));
                v.push((1, 0));
                v.push((2, 3));
                v.push((3, 2));
                v.push((3, 3));
            },
            Pattern::Pulsar => {
                v.push((0, 2));
                v.push((0, 3));
                v.push((0, 4));
                v.push((0, 8));
                v.push((0, 9));
                v.push((0, 10));
                v.push((2, 0));
                v.push((2, 5));
                v.push((2, 7));
                v.push((2, 12));
                v.push((3, 0));
                v.push((3, 5));
                v.push((3, 7));
                v.push((3, 12));
                v.push((4, 0));
                v.push((4, 5));
                v.push((4, 7));
                v.push((4, 12));
                v.push((5, 2));
                v.push((5, 3));
                v.push((5, 4));
                v.push((5, 8));
                v.push((5, 9));
                v.push((5, 10));
                v.push((7, 2));
                v.push((7, 3));
                v.push((7, 4));
                v.push((7, 8));
                v.push((7, 9));
                v.push((7, 10));
                v.push((8, 0));
                v.push((8, 5));
                v.push((8, 7));
                v.push((8, 12));
                v.push((9, 0));
                v.push((9, 5));
                v.push((9, 7));
                v.push((9, 12));
                v.push((10, 0));
                v.push((10, 5));
                v.push((10, 7));
                v.push((10, 12));
                v.push((12, 2));
                v.push((12, 3));
                v.push((12, 4));
                v.push((12, 8));
                v.push((12, 9));
                v.push((12, 10));
            },
            Pattern::LightweightSpaceship => {
                v.push((0, 1));
                v.push((0, 4));
                v.push((1, 0));
                v.push((2, 0));
                v.push((2, 4));
                v.push((3, 0));
                v.push((3, 1));
                v.push((3, 2));
                v.push((3, 3));
            },
        }
        proof {
            assert(v@ =~= self.spec_cells());
        }
        v
    }
}

} // verus!
