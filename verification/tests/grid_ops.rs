use life_sim::grid::Grid;

#[test]
fn new_grid_is_all_dead_with_given_dimensions() {
    let g = Grid::new(4, 6);
    assert_eq!(g.rows(), 4);
    assert_eq!(g.cols(), 6);
    for r in 0..4 {
        for c in 0..6 {
            assert!(!g.get(r, c));
        }
    }
}

#[test]
fn set_and_get_round_trip() {
    let mut g = Grid::new(3, 4);
    g.set(2, 3, true);
    assert!(g.get(2, 3));
    assert!(!g.get(3 % 3, 3));
    g.set(2, 3, false);
    assert!(!g.get(2, 3));
}

#[test]
fn clear_kills_every_cell_and_keeps_dimensions() {
    let mut g = Grid::new(3, 3);
    g.set(0, 0, true);
    g.set(2, 2, true);
    g.clear();
    assert_eq!(g.rows(), 3);
    assert_eq!(g.cols(), 3);
    for r in 0..3 {
        for c in 0..3 {
            assert!(!g.get(r, c));
        }
    }
}

#[test]
fn shrinking_resize_preserves_the_overlap() {
    let mut g = Grid::new(4, 5);
    // A distinctive population: alive exactly where (r + 2*c) % 3 == 0.
    for r in 0..4 {
        for c in 0..5 {
            g.set(r, c, (r + 2 * c) % 3 == 0);
        }
    }
    g.resize(3, 3);
    assert_eq!(g.rows(), 3);
    assert_eq!(g.cols(), 3);
    for r in 0..3 {
        for c in 0..3 {
            assert_eq!(g.get(r, c), (r + 2 * c) % 3 == 0);
        }
    }
}

#[test]
fn growing_resize_preserves_old_cells_and_adds_dead_ones() {
    let mut g = Grid::new(2, 2);
    g.set(0, 1, true);
    g.set(1, 0, true);
    g.resize(4, 4);
    assert_eq!(g.rows(), 4);
    assert_eq!(g.cols(), 4);
    for r in 0..4 {
        for c in 0..4 {
            let expected = (r, c) == (0, 1) || (r, c) == (1, 0);
            assert_eq!(g.get(r, c), expected);
        }
    }
}

#[test]
fn resize_to_zero_area_is_valid() {
    let mut g = Grid::new(3, 3);
    g.set(1, 1, true);
    g.resize(0, 0);
    assert_eq!(g.rows(), 0);
    assert_eq!(g.cols(), 0);
    g.resize(2, 2);
    assert_eq!(g.rows(), 2);
    assert_eq!(g.cols(), 2);
    for r in 0..2 {
        for c in 0..2 {
            assert!(!g.get(r, c));
        }
    }
}
