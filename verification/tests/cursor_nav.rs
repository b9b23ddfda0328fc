use life_sim::cursor::Cursor;

#[test]
fn new_cursor_is_centered() {
    let c = Cursor::new(10, 7);
    assert_eq!(c.row, 5);
    assert_eq!(c.col, 3);
}

#[test]
fn at_detects_only_the_cursor_cell() {
    let c = Cursor::new(4, 4);
    assert!(c.at(2, 2));
    assert!(!c.at(2, 1));
    assert!(!c.at(1, 2));
}

#[test]
fn moving_left_from_column_zero_wraps_to_last_column() {
    let mut c = Cursor { row: 0, col: 0 };
    c.move_left(8);
    assert_eq!(c.col, 7);
    assert_eq!(c.row, 0);
}

#[test]
fn moving_right_from_last_column_wraps_to_zero() {
    let mut c = Cursor { row: 3, col: 7 };
    c.move_right(8);
    assert_eq!(c.col, 0);
    assert_eq!(c.row, 3);
}

#[test]
fn moving_up_from_row_zero_wraps_to_last_row() {
    let mut c = Cursor { row: 0, col: 2 };
    c.move_up(5);
    assert_eq!(c.row, 4);
    assert_eq!(c.col, 2);
}

#[test]
fn moving_down_from_last_row_wraps_to_zero() {
    let mut c = Cursor { row: 4, col: 2 };
    c.move_down(5);
    assert_eq!(c.row, 0);
    assert_eq!(c.col, 2);
}

#[test]
fn interior_moves_do_not_wrap() {
    let mut c = Cursor { row: 2, col: 2 };
    c.move_left(5);
    assert_eq!((c.row, c.col), (2, 1));
    c.move_right(5);
    assert_eq!((c.row, c.col), (2, 2));
    c.move_up(5);
    assert_eq!((c.row, c.col), (1, 2));
    c.move_down(5);
    assert_eq!((c.row, c.col), (2, 2));
}
