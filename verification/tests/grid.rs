use uhn::piece::{Grid, PIECE_SIZE};
use uhn::pos::Pos;

fn grid_of(cells: &[(isize, isize)]) -> Grid {
    let mut grid = Grid::new();
    for &(x, y) in cells {
        grid.set(Pos::new(x, y), true);
    }
    grid
}

fn cells_of(grid: &Grid) -> Vec<(isize, isize)> {
    let mut cells = Vec::new();
    for y in -2..6isize {
        for x in -2..6isize {
            if grid.get(Pos::new(x, y)) {
                cells.push((x, y));
            }
        }
    }
    cells
}

#[test]
fn it_works() {
    assert_eq!(2 + 2, 4);
}

#[test]
fn pos_new_keeps_coordinates() {
    let pos = Pos::new(-7, 12);
    assert_eq!(pos.x, -7);
    assert_eq!(pos.y, 12);
}

#[test]
fn piece_size_is_four() {
    assert_eq!(PIECE_SIZE, 4);
}

#[test]
fn new_grid_is_empty() {
    let grid = Grid::new();
    assert_eq!(cells_of(&grid), vec![]);
}

#[test]
fn grid_in_bounds_is_the_four_by_four_domain() {
    let grid = Grid::new();
    assert!(grid.in_bounds(Pos::new(0, 0)));
    assert!(grid.in_bounds(Pos::new(3, 3)));
    assert!(!grid.in_bounds(Pos::new(4, 0)));
    assert!(!grid.in_bounds(Pos::new(0, 4)));
    assert!(!grid.in_bounds(Pos::new(-1, 0)));
    assert!(!grid.in_bounds(Pos::new(0, -1)));
}

#[test]
fn grid_get_outside_is_empty() {
    let grid = grid_of(&[(0, 0), (3, 3)]);
    assert!(grid.get(Pos::new(0, 0)));
    assert!(grid.get(Pos::new(3, 3)));
    assert!(!grid.get(Pos::new(1, 1)));
    assert!(!grid.get(Pos::new(-1, 0)));
    assert!(!grid.get(Pos::new(4, 3)));
    assert!(!grid.get(Pos::new(isize::MAX, isize::MIN)));
}

#[test]
fn grid_set_outside_is_ignored() {
    let mut grid = Grid::new();
    grid.set(Pos::new(4, 0), true);
    grid.set(Pos::new(0, -1), true);
    grid.set(Pos::new(isize::MIN, isize::MAX), true);
    assert_eq!(cells_of(&grid), vec![]);
}

#[test]
fn grid_set_stores_and_clears() {
    let mut grid = Grid::new();
    grid.set(Pos::new(2, 1), true);
    grid.set(Pos::new(0, 3), true);
    assert_eq!(cells_of(&grid), vec![(2, 1), (0, 3)]);
    grid.set(Pos::new(2, 1), false);
    assert_eq!(cells_of(&grid), vec![(0, 3)]);
}

#[test]
fn ccw_moves_each_cell_a_quarter_turn() {
    let grid = grid_of(&[(0, 0), (1, 0), (3, 2)]);
    let turned = grid.ccw();
    assert_eq!(cells_of(&turned), vec![(2, 0), (0, 2), (0, 3)]);
}

#[test]
fn ccw_leaves_the_source_unchanged() {
    let grid = grid_of(&[(0, 0), (1, 0)]);
    let _turned = grid.ccw();
    assert_eq!(cells_of(&grid), vec![(0, 0), (1, 0)]);
}

#[test]
fn ccw_four_times_is_identity() {
    let patterns: Vec<Vec<(isize, isize)>> = vec![
        vec![],
        vec![(0, 0)],
        vec![(0, 0), (1, 0), (3, 2)],
        vec![(1, 1), (2, 1), (0, 2), (1, 2)],
        vec![(0, 0), (1, 1), (2, 2), (3, 3), (3, 0)],
    ];
    for cells in patterns {
        let grid = grid_of(&cells);
        let back = grid.ccw().ccw().ccw().ccw();
        assert_eq!(cells_of(&back), cells_of(&grid));
        assert_eq!(back.draw(), grid.draw());
    }
}

#[test]
fn trans_shifts_cells() {
    let grid = grid_of(&[(0, 0), (1, 1)]);
    let moved = grid.trans([2, 1]);
    assert_eq!(cells_of(&moved), vec![(2, 1), (3, 2)]);
}

#[test]
fn trans_drops_cells_past_an_edge() {
    let grid = grid_of(&[(0, 0), (3, 3), (1, 2)]);
    let moved = grid.trans([-1, -1]);
    assert_eq!(cells_of(&moved), vec![(0, 1), (2, 2)]);
    let right = grid.trans([1, 0]);
    assert_eq!(cells_of(&right), vec![(1, 0), (2, 2)]);
}

#[test]
fn trans_by_zero_is_identity() {
    let grid = grid_of(&[(0, 0), (3, 3), (1, 2)]);
    assert_eq!(cells_of(&grid.trans([0, 0])), cells_of(&grid));
}

#[test]
fn trans_by_huge_offsets_empties_the_grid() {
    let grid = grid_of(&[(0, 0), (3, 3), (1, 2), (2, 0)]);
    assert_eq!(cells_of(&grid.trans([4, 0])), vec![]);
    assert_eq!(cells_of(&grid.trans([0, -4])), vec![]);
    assert_eq!(cells_of(&grid.trans([isize::MIN, 0])), vec![]);
    assert_eq!(cells_of(&grid.trans([isize::MAX, isize::MAX])), vec![]);
    assert_eq!(cells_of(&grid.trans([0, isize::MIN])), vec![]);
}

#[test]
fn turn_then_shift_differs_from_shift_then_turn() {
    let grid = grid_of(&[(0, 1), (1, 1), (2, 1), (3, 1)]);
    let turn_first = grid.ccw().trans([1, 0]);
    let shift_first = grid.trans([1, 0]).ccw();
    assert_eq!(cells_of(&turn_first), vec![(2, 0), (2, 1), (2, 2), (2, 3)]);
    assert_eq!(cells_of(&shift_first), vec![(1, 0), (1, 1), (1, 2)]);
}

#[test]
fn draw_empty_grid() {
    let grid = Grid::new();
    let line = " .  .  .  . \n";
    assert_eq!(grid.draw(), format!("{}{}{}{}", line, line, line, line));
}

#[test]
fn draw_marks_occupied_cells() {
    let grid = grid_of(&[(1, 0), (2, 0), (1, 1), (2, 1), (3, 3)]);
    let expected = " . [ ][ ] . \n . [ ][ ] . \n .  .  .  . \n .  .  . [ ]\n";
    assert_eq!(grid.draw(), expected);
}
