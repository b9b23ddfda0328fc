use crate::cursor::Cursor;
use crate::event::InputEvent;
use crate::grid::Grid;
use crate::pattern::{pattern_of_index, stamped_cell, stamped_cell_prefix, Pattern};
use crate::rng::random_below;
use crate::rules::{
    lemma_index_bound, lemma_index_injective, step_n, step_seq,
};
use crate::tick::TickRate;
use vstd::arithmetic::div_mod::lemma_fundamental_div_mod_converse;
use vstd::prelude::*;

verus! {

/// The aggregate simulation state: the grid, the cursor targeting mutations,
/// the speed selector, the paused flag, the scheduler's time accumulator and
/// frame-time telemetry.
pub struct State {
    pub grid: Grid,
    pub cursor: Cursor,
    pub tick_rate: TickRate,
    pub paused: bool,
    pub accumulator_ms: u64,
    pub frame_time_ms: u64,
}

/// The two states hold the same tick rate, paused flag, accumulated time and
/// frame-time telemetry.
pub open spec fn same_timing(pre: State, post: State) -> bool {
    &&& post.tick_rate == pre.tick_rate
    &&& post.paused == pre.paused
    &&& post.accumulator_ms == pre.accumulator_ms
    &&& post.frame_time_ms == pre.frame_time_ms
}

/// The two states hold grids of the same dimensions.
pub open spec fn same_dims(pre: State, post: State) -> bool {
    &&& post.grid.spec_rows() == pre.grid.spec_rows()
    &&& post.grid.spec_cols() == pre.grid.spec_cols()
}

/// `post`'s grid is `pre`'s grid with `p` stamped at the given anchor.
pub open spec fn stamped_grid(pre: State, post: State, p: Pattern, anchor_r: int, anchor_c: int) -> bool {
    forall|r: int, c: int|
        0 <= r < post.grid.spec_rows() && 0 <= c < post.grid.spec_cols()
            ==> #[trigger] post.grid.spec_cell(r, c) == stamped_cell(
            pre.grid.spec_cell(r, c),
            p.spec_cells(),
            anchor_r,
            anchor_c,
            r,
            c,
        )
}

impl State {
    /// Well-formedness: the grid is well formed and, whenever the grid has
    /// any cells, the cursor sits inside it.
    pub open spec fn wf(self) -> bool {
        &&& self.grid.wf()
        &&& self.nondegenerate() ==> self.cursor.row < self.grid.spec_rows()
            && self.cursor.col < self.grid.spec_cols()
    }

    /// The grid has at least one cell.
    pub open spec fn nondegenerate(self) -> bool {
        self.grid.spec_rows() > 0 && self.grid.spec_cols() > 0
    }

    /// The initial state for a display of the given dimensions: an all-dead
    /// grid, the cursor centered, Normal speed, paused, no accumulated time.
    pub fn new(rows: usize, cols: usize) -> (s: State)
        requires
            rows * cols <= usize::MAX,
        ensures
            s.wf(),
            s.grid.spec_cols() == cols as int,
            s.grid.spec_rows() == if cols == 0 { 0int } else { rows as int },
            s.grid@.len() == rows * cols,
            forall|i: int| 0 <= i < s.grid@.len() ==> !s.grid@[i],
            s.cursor.row == rows / 2,
            s.cursor.col == cols / 2,
            s.tick_rate == TickRate::Normal,
            s.paused,
            s.accumulator_ms == 0,
            s.frame_time_ms == 0,
    {
        State {
            grid: Grid::new(rows, cols),
            cursor: Cursor::new(rows, cols),
            tick_rate: TickRate::Normal,
            paused: true,
            accumulator_ms: 0,
            frame_time_ms: 0,
        }
    }

    /// Set every grid cell dead in place, preserving dimensions, cursor and
    /// scheduler state.
    pub fn clear(&mut self)
        requires
            old(self).wf(),
        ensures
            final(self).wf(),
            same_dims(*old(self), *final(self)),
            same_timing(*old(self), *final(self)),
            final(self).cursor == old(self).cursor,
            final(self).grid@.len() == old(self).grid@.len(),
            forall|i: int| 0 <= i < final(self).grid@.len() ==> !final(self).grid@[i],
    {
        self.grid.clear();
    }

    /// Advance the grid one generation under the B3/S23 rule with toroidal
    /// neighbor wrapping; every other field is untouched.
    pub fn update(&mut self)
        requires
            old(self).wf(),
        ensures
            final(self).wf(),
            same_dims(*old(self), *final(self)),
            same_timing(*old(self), *final(self)),
            final(self).cursor == old(self).cursor,
            final(self).grid@ == step_seq(
                old(self).grid@,
                old(self).grid.spec_rows(),
                old(self).grid.spec_cols(),
            ),
    {
        self.grid.step();
    }

    /// Flip the cell under the cursor; on a grid without cells this is a
    /// guarded no-op.
    pub fn toggle_at_cursor(&mut self)
        requires
            old(self).wf(),
        ensures
            final(self).wf(),
            same_dims(*old(self), *final(self)),
            same_timing(*old(self), *final(self)),
            final(self).cursor == old(self).cursor,
            old(self).nondegenerate() ==> final(self).grid@ == old(self).grid@.update(
                old(self).cursor.row * old(self).grid.spec_cols() + old(self).cursor.col,
                !old(self).grid.spec_cell(old(self).cursor.row as int, old(self).cursor.col as int),
            ),
            !old(self).nondegenerate() ==> final(self).grid == old(self).grid,
    {
        let rows = self.grid.rows();
        let cols = self.grid.cols();
        if rows > 0 && cols > 0 {
            let alive = self.grid.get(self.cursor.row, self.cursor.col);
            self.grid.set(self.cursor.row, self.cursor.col, !alive);
        }
    }

    /// Stamp `pattern` with its anchor at `(start_row, start_col)`: every
    /// template offset that lands inside the grid is set alive; offsets that
    /// would land outside the bounds are silently dropped, without wrapping.
    #[verifier::loop_isolation(false)]
    pub fn place_pattern(&mut self, pattern: Pattern, start_row: usize, start_col: usize)
        requires
            old(self).wf(),
        ensures
            final(self).wf(),
            same_dims(*old(self), *final(self)),
            same_timing(*old(self), *final(self)),
            final(self).cursor == old(self).cursor,
            stamped_grid(*old(self), *final(self), pattern, start_row as int, start_col as int),
    {
        let cells = pattern.cells();
        let rows = self.grid.rows();
        let cols = self.grid.cols();
        let n = cells.len();
        proof {
            lemma_stamp_start(old(self).grid, cells@, start_row as int, start_col as int);
        }
        let mut k: usize = 0;
        while k < n
            invariant
                k <= n,
                self.grid.wf(),
                self.grid.spec_rows() == old(self).grid.spec_rows(),
                self.grid.spec_cols() == old(self).grid.spec_cols(),
                self.cursor == old(self).cursor,
                self.tick_rate == old(self).tick_rate,
                self.paused == old(self).paused,
                self.accumulator_ms == old(self).accumulator_ms,
                self.frame_time_ms == old(self).frame_time_ms,
                stamped_prefix_grid(
                    old(self).grid,
                    self.grid,
                    cells@,
                    k as int,
                    start_row as int,
                    start_col as int,
                ),
            decreases n - k,
        {
            let pair = cells[k];
            let dr = pair.0;
            let dc = pair.1;
            if dr < rows && start_row < rows - dr && dc < cols && start_col < cols - dc {
                let r = start_row + dr;
                let c = start_col + dc;
                let ghost gprev = self.grid;
                self.grid.set(r, c, true);
                proof {
                    lemma_stamp_set(
                        old(self).grid,
                        gprev,
                        self.grid,
                        cells@,
                        k as int,
                        start_row as int,
                        start_col as int,
                        r as int,
                        c as int,
                    );
                }
            } else {
                proof {
                    lemma_stamp_skip(
                        old(self).grid,
                        self.grid,
                        cells@,
                        k as int,
                        start_row as int,
                        start_col as int,
                    );
                }
            }
            k = k + 1;
        }
    }
    /// Stamp a uniformly chosen pattern of the catalog anchored at the
    /// current cursor position.
    pub fn spawn_pattern_at_cursor(&mut self)
        requires
            old(self).wf(),
        ensures
            final(self).wf(),
            same_dims(*old(self), *final(self)),
            same_timing(*old(self), *final(self)),
            final(self).cursor == old(self).cursor,
            exists|p: Pattern|
                #[trigger] stamped_grid(
                    *old(self),
                    *final(self),
                    p,
                    old(self).cursor.row as int,
                    old(self).cursor.col as int,
                ),
    {
        let i = random_below(6);
        let pattern = pick_pattern(i);
        let row = self.cursor.row;
        let col = self.cursor.col;
        self.place_pattern(pattern, row, col);
        proof {
            assert(stamped_grid(*old(self), *self, pattern, row as int, col as int));
        }
    }

    /// With probability one in ten, stamp a uniformly chosen pattern at a
    /// random anchor kept a margin inside the bounds; otherwise leave the
    /// grid unchanged. On a grid too small for the margin the anchor is the
    /// origin.
    pub fn spawn_random_pattern(&mut self)
        requires
            old(self).wf(),
        ensures
            final(self).wf(),
            same_dims(*old(self), *final(self)),
            same_timing(*old(self), *final(self)),
            final(self).cursor == old(self).cursor,
            final(self).grid == old(self).grid || exists|p: Pattern, ar: int, ac: int|
                0 <= ar && 0 <= ac && #[trigger] stamped_grid(*old(self), *final(self), p, ar, ac),
    {
        if random_below(10) != 0 {
            return ;
        }
        let i = random_below(6);
        let pattern = pick_pattern(i);
        let rows = self.grid.rows();
        let cols = self.grid.cols();
        let row_bound = if rows > 15 {
            rows - 15
        } else {
            0
        };
        let col_bound = if cols > 15 {
            cols - 15
        } else {
            0
        };
        let row = if row_bound == 0 {
            0
        } else {
            random_below(row_bound)
        };
        let col = if col_bound == 0 {
            0
        } else {
            random_below(col_bound)
        };
        self.place_pattern(pattern, row, col);
        proof {
            assert(stamped_grid(*old(self), *self, pattern, row as int, col as int));
        }
    }

    /// Apply one abstract input event to the state: the deterministic
    /// control-plane mapping from events to mutations. Returns whether the
    /// event asks the interaction loop to quit. Cursor movement and cell
    /// toggling on a grid without cells are guarded no-ops.
    pub fn apply_event(&mut self, e: InputEvent) -> (quit: bool)
        requires
            old(self).wf(),
            match e {
                InputEvent::Resize(rows, cols) => rows * cols <= usize::MAX,
                _ => true,
            },
        ensures
            final(self).wf(),
            quit == (e == InputEvent::Quit),
            match e {
                InputEvent::MoveLeft => {
                    &&& final(self).grid == old(self).grid
                    &&& same_timing(*old(self), *final(self))
                    &&& final(self).cursor.row == old(self).cursor.row
                    &&& if old(self).nondegenerate() {
                        final(self).cursor.col == (old(self).cursor.col - 1) % old(self).grid.spec_cols()
                    } else {
                        final(self).cursor == old(self).cursor
                    }
                },
                InputEvent::MoveRight => {
                    &&& final(self).grid == old(self).grid
                    &&& same_timing(*old(self), *final(self))
                    &&& final(self).cursor.row == old(self).cursor.row
                    &&& if old(self).nondegenerate() {
                        final(self).cursor.col == (old(self).cursor.col + 1) % old(self).grid.spec_cols()
                    } else {
                        final(self).cursor == old(self).cursor
                    }
                },
                InputEvent::MoveUp => {
                    &&& final(self).grid == old(self).grid
                    &&& same_timing(*old(self), *final(self))
                    &&& final(self).cursor.col == old(self).cursor.col
                    &&& if old(self).nondegenerate() {
                        final(self).cursor.row == (old(self).cursor.row - 1) % old(self).grid.spec_rows()
                    } else {
                        final(self).cursor == old(self).cursor
                    }
                },
                InputEvent::MoveDown => {
                    &&& final(self).grid == old(self).grid
                    &&& same_timing(*old(self), *final(self))
                    &&& final(self).cursor.col == old(self).cursor.col
                    &&& if old(self).nondegenerate() {
                        final(self).cursor.row == (old(self).cursor.row + 1) % old(self).grid.spec_rows()
                    } else {
                        final(self).cursor == old(self).cursor
                    }
                },
                InputEvent::Toggle => {
                    &&& same_dims(*old(self), *final(self))
                    &&& same_timing(*old(self), *final(self))
                    &&& final(self).cursor == old(self).cursor
                    &&& old(self).nondegenerate() ==> final(self).grid@ == old(self).grid@.update(
                        old(self).cursor.row * old(self).grid.spec_cols() + old(self).cursor.col,
                        !old(self).grid.spec_cell(
                            old(self).cursor.row as int,
                            old(self).cursor.col as int,
                        ),
                    )
                    &&& !old(self).nondegenerate() ==> final(self).grid == old(self).grid
                },
                InputEvent::Pause => {
                    &&& final(self).grid == old(self).grid
                    &&& final(self).cursor == old(self).cursor
                    &&& final(self).paused == !old(self).paused
                    &&& final(self).tick_rate == old(self).tick_rate
                    &&& final(self).accumulator_ms == old(self).accumulator_ms
                    &&& final(self).frame_time_ms == old(self).frame_time_ms
                },
                InputEvent::SpeedUp => {
                    &&& final(self).grid == old(self).grid
                    &&& final(self).cursor == old(self).cursor
                    &&& final(self).tick_rate == old(self).tick_rate.spec_next()
                    &&& final(self).paused == old(self).paused
                    &&& final(self).accumulator_ms == old(self).accumulator_ms
                    &&& final(self).frame_time_ms == old(self).frame_time_ms
                },
                InputEvent::SpeedDown => {
                    &&& final(self).grid == old(self).grid
                    &&& final(self).cursor == old(self).cursor
                    &&& final(self).tick_rate == old(self).tick_rate.spec_prev()
                    &&& final(self).paused == old(self).paused
                    &&& final(self).accumulator_ms == old(self).accumulator_ms
                    &&& final(self).frame_time_ms == old(self).frame_time_ms
                },
                InputEvent::Clear => {
                    &&& same_dims(*old(self), *final(self))
                    &&& same_timing(*old(self), *final(self))
                    &&& final(self).cursor == old(self).cursor
                    &&& forall|i: int|
                        0 <= i < final(self).grid@.len() ==> !final(self).grid@[i]
                },
                InputEvent::SpawnPattern => {
                    &&& same_dims(*old(self), *final(self))
                    &&& same_timing(*old(self), *final(self))
                    &&& final(self).cursor == old(self).cursor
                    &&& exists|p: Pattern|
                        #[trigger] stamped_grid(
                            *old(self),
                            *final(self),
                            p,
                            old(self).cursor.row as int,
                            old(self).cursor.col as int,
                        )
                },
                InputEvent::Resize(rows, cols) => {
                    &&& same_timing(*old(self), *final(self))
                    &&& final(self).grid.spec_cols() == cols as int
                    &&& final(self).grid.spec_rows() == if cols == 0 { 0int } else { rows as int }
                    &&& forall|r: int, c: int|
                        0 <= r < final(self).grid.spec_rows() && 0 <= c < final(self).grid.spec_cols() ==> final(self).grid.spec_cell(r, c) == (r < old(self).grid.spec_rows() && c < old(self).grid.spec_cols() && old(self).grid.spec_cell(r, c))
                    &&& final(self).cursor.row == rows / 2
                    &&& final(self).cursor.col == cols / 2
                },
                InputEvent::Quit => *final(self) == *old(self),
            },
    {
        match e {
            InputEvent::MoveLeft => {
                let rows = self.grid.rows();
                let cols = self.grid.cols();
                if rows > 0 && cols > 0 {
                    self.cursor.move_left(cols);
                }
                false
            },
            InputEvent::MoveRight => {
                let rows = self.grid.rows();
                let cols = self.grid.cols();
                if rows > 0 && cols > 0 {
                    self.cursor.move_right(cols);
                }
                false
            },
            InputEvent::MoveUp => {
                let rows = self.grid.rows();
                let cols = self.grid.cols();
                if rows > 0 && cols > 0 {
                    self.cursor.move_up(rows);
                }
                false
            },
            InputEvent::MoveDown => {
                let rows = self.grid.rows();
                let cols = self.grid.cols();
                if rows > 0 && cols > 0 {
                    self.cursor.move_down(rows);
                }
                false
            },
            InputEvent::Toggle => {
                self.toggle_at_cursor();
                false
            },
            InputEvent::Pause => {
                self.paused = !self.paused;
                false
            },
            InputEvent::SpeedUp => {
                self.tick_rate.increase();
                false
            },
            InputEvent::SpeedDown => {
                self.tick_rate.decrease();
                false
            },
            InputEvent::Clear => {
                self.clear();
                false
            },
            InputEvent::SpawnPattern => {
                self.spawn_pattern_at_cursor();
                false
            },
            InputEvent::Resize(rows, cols) => {
                self.grid.resize(rows, cols);
                self.cursor = Cursor::new(rows, cols);
                false
            },
            InputEvent::Quit => true,
        }
    }

    /// One scheduler frame: add the elapsed time to the accumulator and,
    /// while a full tick has accumulated, run one simulation step per tick
    /// (each followed, in random mode, by a chance of a random spawn). While
    /// paused, neither the grid nor the accumulated time changes, so
    /// unpausing resumes from the previously accumulated time.
    #[verifier::loop_isolation(false)]
    pub fn advance(&mut self, delta_ms: u64, random: bool)
        requires
            old(self).wf(),
            old(self).accumulator_ms + delta_ms <= u64::MAX,
        ensures
            final(self).wf(),
            same_dims(*old(self), *final(self)),
            final(self).cursor == old(self).cursor,
            final(self).tick_rate == old(self).tick_rate,
            final(self).paused == old(self).paused,
            final(self).frame_time_ms == old(self).frame_time_ms,
            old(self).paused ==> final(self).grid == old(self).grid && final(self).accumulator_ms
                == old(self).accumulator_ms,
            !old(self).paused ==> {
                let total = old(self).accumulator_ms + delta_ms;
                let tick = old(self).tick_rate.spec_duration_ms() as int;
                &&& final(self).accumulator_ms == total % tick
                &&& !random ==> final(self).grid@ == step_n(
                    old(self).grid@,
                    old(self).grid.spec_rows(),
                    old(self).grid.spec_cols(),
                    (total / tick) as nat,
                )
            },
    {
        if self.paused {
            return ;
        }
        let tick = self.tick_rate.duration_ms();
        self.accumulator_ms = self.accumulator_ms + delta_ms;
        let ghost total = self.accumulator_ms as int;
        let ghost mut steps: int = 0;
        while self.accumulator_ms >= tick
            invariant
                self.grid.wf(),
                self.grid.spec_rows() == old(self).grid.spec_rows(),
                self.grid.spec_cols() == old(self).grid.spec_cols(),
                self.cursor == old(self).cursor,
                self.tick_rate == old(self).tick_rate,
                self.paused == old(self).paused,
                self.frame_time_ms == old(self).frame_time_ms,
                steps >= 0,
                total == steps * (tick as int) + self.accumulator_ms,
                !random ==> self.grid@ == step_n(
                    old(self).grid@,
                    old(self).grid.spec_rows(),
                    old(self).grid.spec_cols(),
                    steps as nat,
                ),
            decreases self.accumulator_ms,
        {
            self.update();
            if random {
                self.spawn_random_pattern();
            }
            self.accumulator_ms = self.accumulator_ms - tick;
            proof {
                steps = steps + 1;
            }
        }
        proof {
            lemma_fundamental_div_mod_converse(
                total,
                tick as int,
                steps,
                self.accumulator_ms as int,
            );
        }
    }
}

/// The catalog pattern at index `i` of the fixed order used for random
/// selection.
fn pick_pattern(i: usize) -> (p: Pattern)
    requires
        i < 6,
    ensures
        p == pattern_of_index(i as int),
{
    if i == 0 {
        Pattern::Glider
    } else if i == 1 {
        Pattern::Blinker
    } else if i == 2 {
        Pattern::Toad
    } else if i == 3 {
        Pattern::Beacon
    } else if i == 4 {
        Pattern::Pulsar
    } else {
        Pattern::LightweightSpaceship
    }
}

/// Before any offset is stamped, the target grid is the source grid.
proof fn lemma_stamp_start(pre: Grid, cells: Seq<(usize, usize)>, anchor_r: int, anchor_c: int)
    ensures
        stamped_prefix_grid(pre, pre, cells, 0, anchor_r, anchor_c),
{
}

/// Setting the in-bounds landing cell of offset `k` alive extends the
/// stamped prefix by one offset.
proof fn lemma_stamp_set(
    pre: Grid,
    gprev: Grid,
    gcur: Grid,
    cells: Seq<(usize, usize)>,
    k: int,
    anchor_r: int,
    anchor_c: int,
    r: int,
    c: int,
)
    requires
        stamped_prefix_grid(pre, gprev, cells, k, anchor_r, anchor_c),
        gprev.wf(),
        0 <= k < cells.len(),
        r == anchor_r + cells[k].0,
        c == anchor_c + cells[k].1,
        0 <= r < gprev.spec_rows(),
        0 <= c < gprev.spec_cols(),
        gcur.spec_rows() == gprev.spec_rows(),
        gcur.spec_cols() == gprev.spec_cols(),
        gcur@ == gprev@.update(r * gprev.spec_cols() + c, true),
    ensures
        stamped_prefix_grid(pre, gcur, cells, k + 1, anchor_r, anchor_c),
{
    let rows = gprev.spec_rows();
    let cols = gprev.spec_cols();
    lemma_index_bound(r, c, rows, cols);
    assert forall|rr: int, cc: int|
        0 <= rr < gcur.spec_rows() && 0 <= cc < gcur.spec_cols() implies #[trigger] gcur.spec_cell(
        rr,
        cc,
    ) == stamped_cell_prefix(
        pre.spec_cell(rr, cc),
        cells,
        k + 1,
        anchor_r,
        anchor_c,
        rr,
        cc,
    ) by {
        lemma_index_bound(rr, cc, rows, cols);
        assert(gprev.spec_cell(rr, cc) == stamped_cell_prefix(
            pre.spec_cell(rr, cc),
            cells,
            k,
            anchor_r,
            anchor_c,
            rr,
            cc,
        ));
        if rr == r && cc == c {
            assert(gcur@[r * cols + c]);
            assert(rr == anchor_r + cells[k].0 && cc == anchor_c + cells[k].1);
        } else {
            if rr * cols + cc == r * cols + c {
                lemma_index_injective(rr, cc, r, c, cols);
            }
            assert(gcur@[rr * cols + cc] == gprev@[rr * cols + cc]);
        }
    }
}

/// An offset whose landing cell lies outside the grid stamps nothing: the
/// prefix extends without a write.
proof fn lemma_stamp_skip(
    pre: Grid,
    g: Grid,
    cells: Seq<(usize, usize)>,
    k: int,
    anchor_r: int,
    anchor_c: int,
)
    requires
        stamped_prefix_grid(pre, g, cells, k, anchor_r, anchor_c),
        0 <= k < cells.len(),
        anchor_r + cells[k].0 >= g.spec_rows() || anchor_c + cells[k].1 >= g.spec_cols(),
    ensures
        stamped_prefix_grid(pre, g, cells, k + 1, anchor_r, anchor_c),
{
    assert forall|rr: int, cc: int|
        0 <= rr < g.spec_rows() && 0 <= cc < g.spec_cols() implies #[trigger] g.spec_cell(rr, cc)
        == stamped_cell_prefix(
        pre.spec_cell(rr, cc),
        cells,
        k + 1,
        anchor_r,
        anchor_c,
        rr,
        cc,
    ) by {
        assert(g.spec_cell(rr, cc) == stamped_cell_prefix(
            pre.spec_cell(rr, cc),
            cells,
            k,
            anchor_r,
            anchor_c,
            rr,
            cc,
        ));
        assert(!(rr == anchor_r + cells[k].0 && cc == anchor_c + cells[k].1));
    }
}

/// The cells of `cur` hold `pre` with the first `n` offsets of `cells`
/// stamped at the anchor.
spec fn stamped_prefix_grid(
    pre: Grid,
    cur: Grid,
    cells: Seq<(usize, usize)>,
    n: int,
    anchor_r: int,
    anchor_c: int,
) -> bool {
    forall|r: int, c: int|
        0 <= r < cur.spec_rows() && 0 <= c < cur.spec_cols() ==> #[trigger] cur.spec_cell(r, c)
            == stamped_cell_prefix(pre.spec_cell(r, c), cells, n, anchor_r, anchor_c, r, c)
}

} // verus!
