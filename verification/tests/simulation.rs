use life_sim::event::InputEvent;
use life_sim::grid::Grid;
use life_sim::pattern::Pattern;
use life_sim::state::State;
use life_sim::tick::TickRate;

fn live_cells(g: &Grid) -> Vec<(usize, usize)> {
    let mut v: Vec<(usize, usize)> = Vec::new();
    for r in 0..g.rows() {
        for c in 0..g.cols() {
            if g.get(r, c) {
                v.push((r, c));
            }
        }
    }
    v
}

#[test]
fn new_state_starts_paused_at_normal_speed() {
    let s = State::new(8, 10);
    assert_eq!(s.grid.rows(), 8);
    assert_eq!(s.grid.cols(), 10);
    assert_eq!(s.cursor.row, 4);
    assert_eq!(s.cursor.col, 5);
    assert_eq!(s.tick_rate, TickRate::Normal);
    assert!(s.paused);
    assert_eq!(s.accumulator_ms, 0);
    assert_eq!(live_cells(&s.grid), vec![]);
}

#[test]
fn move_events_wrap_around_the_grid() {
    let mut s = State::new(3, 4);
    s.cursor.row = 0;
    s.cursor.col = 0;
    assert!(!s.apply_event(InputEvent::MoveLeft));
    assert_eq!((s.cursor.row, s.cursor.col), (0, 3));
    s.apply_event(InputEvent::MoveRight);
    assert_eq!((s.cursor.row, s.cursor.col), (0, 0));
    s.apply_event(InputEvent::MoveUp);
    assert_eq!((s.cursor.row, s.cursor.col), (2, 0));
    s.apply_event(InputEvent::MoveDown);
    assert_eq!((s.cursor.row, s.cursor.col), (0, 0));
}

#[test]
fn move_events_on_a_degenerate_grid_do_nothing() {
    let mut s = State::new(0, 0);
    s.apply_event(InputEvent::MoveLeft);
    s.apply_event(InputEvent::MoveDown);
    assert_eq!((s.cursor.row, s.cursor.col), (0, 0));
}

#[test]
fn toggle_event_flips_the_cell_under_the_cursor() {
    let mut s = State::new(4, 4);
    assert!(!s.grid.get(2, 2));
    s.apply_event(InputEvent::Toggle);
    assert!(s.grid.get(2, 2));
    s.apply_event(InputEvent::Toggle);
    assert!(!s.grid.get(2, 2));
}

#[test]
fn pause_event_flips_the_paused_flag() {
    let mut s = State::new(4, 4);
    assert!(s.paused);
    s.apply_event(InputEvent::Pause);
    assert!(!s.paused);
    s.apply_event(InputEvent::Pause);
    assert!(s.paused);
}

#[test]
fn speed_events_cycle_the_tick_rate() {
    let mut s = State::new(4, 4);
    s.apply_event(InputEvent::SpeedUp);
    assert_eq!(s.tick_rate, TickRate::Fast);
    s.apply_event(InputEvent::SpeedUp);
    assert_eq!(s.tick_rate, TickRate::Slow);
    s.apply_event(InputEvent::SpeedUp);
    assert_eq!(s.tick_rate, TickRate::Normal);
    s.apply_event(InputEvent::SpeedDown);
    assert_eq!(s.tick_rate, TickRate::Slow);
}

#[test]
fn clear_event_empties_the_grid_and_keeps_the_cursor() {
    let mut s = State::new(6, 6);
    s.place_pattern(Pattern::Toad, 1, 1);
    let cursor = s.cursor;
    s.apply_event(InputEvent::Clear);
    assert_eq!(live_cells(&s.grid), vec![]);
    assert_eq!(s.cursor, cursor);
    assert_eq!(s.grid.rows(), 6);
    assert_eq!(s.grid.cols(), 6);
}

#[test]
fn spawn_event_stamps_some_pattern_at_the_cursor() {
    let mut s = State::new(30, 30);
    s.apply_event(InputEvent::SpawnPattern);
    let cells = live_cells(&s.grid);
    assert!(!cells.is_empty());
    // Every live cell lies within the largest template's extent below and
    // right of the cursor anchor (15, 15).
    for &(r, c) in cells.iter() {
        assert!(r >= 15 && c >= 15);
        assert!(r <= 15 + 12 && c <= 15 + 12);
    }
}

#[test]
fn resize_event_preserves_overlap_and_recenters_the_cursor() {
    let mut s = State::new(6, 6);
    s.grid.set(1, 2, true);
    s.grid.set(5, 5, true);
    s.apply_event(InputEvent::Resize(4, 8));
    assert_eq!(s.grid.rows(), 4);
    assert_eq!(s.grid.cols(), 8);
    assert_eq!((s.cursor.row, s.cursor.col), (2, 4));
    assert_eq!(live_cells(&s.grid), vec![(1, 2)]);
}

#[test]
fn quit_event_requests_exit_and_changes_nothing() {
    let mut s = State::new(5, 5);
    s.grid.set(1, 1, true);
    let quit = s.apply_event(InputEvent::Quit);
    assert!(quit);
    assert!(s.paused);
    assert_eq!(live_cells(&s.grid), vec![(1, 1)]);
    assert!(!s.apply_event(InputEvent::Pause));
}

#[test]
fn paused_scheduler_never_steps_or_accumulates() {
    let mut s = State::new(6, 6);
    s.place_pattern(Pattern::Glider, 1, 1);
    let before = live_cells(&s.grid);
    for _ in 0..10 {
        s.advance(5000, false);
    }
    assert_eq!(live_cells(&s.grid), before);
    assert_eq!(s.accumulator_ms, 0);
}

#[test]
fn scheduler_steps_once_per_full_tick() {
    let mut s = State::new(7, 7);
    s.place_pattern(Pattern::Blinker, 2, 2);
    let before = live_cells(&s.grid);
    s.paused = false;
    // Normal speed: one step per 200 ms. 400 ms runs exactly two steps,
    // which returns the blinker to its starting phase.
    s.advance(400, false);
    assert_eq!(live_cells(&s.grid), before);
    assert_eq!(s.accumulator_ms, 0);
}

#[test]
fn scheduler_keeps_the_remainder_in_the_accumulator() {
    let mut s = State::new(7, 7);
    s.place_pattern(Pattern::Blinker, 2, 2);
    let phase_zero = live_cells(&s.grid);
    s.paused = false;
    s.advance(150, false);
    // No full tick yet: nothing stepped, 150 ms kept.
    assert_eq!(live_cells(&s.grid), phase_zero);
    assert_eq!(s.accumulator_ms, 150);
    s.advance(50, false);
    // The kept time completes one tick: one step, accumulator drained.
    assert_ne!(live_cells(&s.grid), phase_zero);
    assert_eq!(s.accumulator_ms, 0);
}

#[test]
fn unpausing_resumes_from_the_accumulated_time() {
    let mut s = State::new(7, 7);
    s.place_pattern(Pattern::Blinker, 2, 2);
    let phase_zero = live_cells(&s.grid);
    s.paused = false;
    s.advance(150, false);
    assert_eq!(s.accumulator_ms, 150);
    // Pause: ticks pass, but neither the grid nor the accumulator moves.
    s.apply_event(InputEvent::Pause);
    s.advance(10_000, false);
    assert_eq!(live_cells(&s.grid), phase_zero);
    assert_eq!(s.accumulator_ms, 150);
    // Unpause: 50 ms completes the tick begun before the pause.
    s.apply_event(InputEvent::Pause);
    s.advance(50, false);
    assert_ne!(live_cells(&s.grid), phase_zero);
    assert_eq!(s.accumulator_ms, 0);
}

#[test]
fn slow_and_fast_rates_change_the_steps_per_elapsed_time() {
    let mut slow = State::new(7, 7);
    slow.place_pattern(Pattern::Blinker, 2, 2);
    slow.paused = false;
    slow.tick_rate = TickRate::Slow;
    let phase_zero = live_cells(&slow.grid);
    slow.advance(999, false);
    assert_eq!(live_cells(&slow.grid), phase_zero);
    slow.advance(1, false);
    assert_ne!(live_cells(&slow.grid), phase_zero);

    let mut fast = State::new(7, 7);
    fast.place_pattern(Pattern::Blinker, 2, 2);
    fast.paused = false;
    fast.tick_rate = TickRate::Fast;
    let start = live_cells(&fast.grid);
    fast.advance(200, false);
    // Two fast ticks in 200 ms: the blinker is back.
    assert_eq!(live_cells(&fast.grid), start);
}

#[test]
fn random_mode_keeps_dimensions_and_cursor() {
    let mut s = State::new(20, 20);
    s.paused = false;
    let cursor = s.cursor;
    for _ in 0..30 {
        s.advance(200, true);
    }
    assert_eq!(s.grid.rows(), 20);
    assert_eq!(s.grid.cols(), 20);
    assert_eq!(s.cursor, cursor);
}

#[test]
fn random_spawning_eventually_fires() {
    // Each call spawns with probability one in ten; three hundred calls
    // leave a vanishing chance of never drawing a zero from the sampler.
    let mut s = State::new(40, 40);
    for _ in 0..300 {
        s.spawn_random_pattern();
    }
    assert!(!live_cells(&s.grid).is_empty());
    // Anchors keep a 15-cell margin, so no stamp reaches the far edges.
    for &(r, c) in live_cells(&s.grid).iter() {
        assert!(r <= 24 + 12 && c <= 24 + 12);
    }
}

#[test]
fn spawn_at_cursor_stamps_within_the_template_extent() {
    let mut s = State::new(40, 40);
    s.cursor.row = 10;
    s.cursor.col = 12;
    s.spawn_pattern_at_cursor();
    let cells = live_cells(&s.grid);
    assert!(!cells.is_empty());
    for &(r, c) in cells.iter() {
        assert!(r >= 10 && r <= 10 + 12);
        assert!(c >= 12 && c <= 12 + 12);
    }
}
