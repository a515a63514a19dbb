use tetris::grid::{check_collision, lock_piece, new_grid, remove_complete_lines, Grid};
use tetris::piece::{create_piece, Case, GRID_HEIGHT, GRID_WIDTH};

fn fill_row(grid: &mut Grid, y: usize, c: Case) {
    for x in 0..GRID_WIDTH {
        grid[x][y] = c;
    }
}

fn is_empty(grid: &Grid) -> bool {
    grid.iter().all(|col| col.iter().all(|&c| c == Case::Empty))
}

#[test]
fn collision_with_walls_and_floor() {
    let grid = new_grid();
    let mut p = create_piece(Case::Cyan);
    assert!(!check_collision(&grid, &p, 0, 0));
    assert!(!check_collision(&grid, &p, -3, 0));
    assert!(check_collision(&grid, &p, -4, 0));
    assert!(!check_collision(&grid, &p, 3, 0));
    assert!(check_collision(&grid, &p, 4, 0));
    assert!(!check_collision(&grid, &p, 0, 19));
    assert!(check_collision(&grid, &p, 0, 20));
    assert!(check_collision(&grid, &p, 0, -1));
    p.y = 5;
    assert!(!check_collision(&grid, &p, 0, -5));
}

#[test]
fn collision_with_locked_cells() {
    let mut grid = new_grid();
    let p = create_piece(Case::Purple);
    grid[3][0] = Case::Red;
    assert!(!check_collision(&grid, &p, 0, 0));
    grid[4][0] = Case::Red;
    assert!(check_collision(&grid, &p, 0, 0));
    grid[4][0] = Case::Empty;
    grid[5][1] = Case::Green;
    assert!(check_collision(&grid, &p, 0, 0));
    assert!(!check_collision(&grid, &p, 0, 2));
}

#[test]
fn locking_writes_filled_cells_only() {
    let mut grid = new_grid();
    grid[3][0] = Case::Red;
    let p = create_piece(Case::Purple);
    lock_piece(&mut grid, &p);
    assert_eq!(grid[3][0], Case::Red);
    assert_eq!(grid[4][0], Case::Purple);
    assert_eq!(grid[5][0], Case::Empty);
    assert_eq!(grid[3][1], Case::Purple);
    assert_eq!(grid[4][1], Case::Purple);
    assert_eq!(grid[5][1], Case::Purple);
    assert_eq!(grid[2][1], Case::Empty);
}

#[test]
fn two_bottom_rows_cleared() {
    let mut grid = new_grid();
    fill_row(&mut grid, 19, Case::Blue);
    fill_row(&mut grid, 18, Case::Red);
    assert_eq!(remove_complete_lines(&mut grid), 2);
    assert!(is_empty(&grid));
}

#[test]
fn clearing_keeps_order_of_other_rows() {
    let mut grid = new_grid();
    fill_row(&mut grid, 19, Case::Blue);
    grid[0][18] = Case::Green;
    fill_row(&mut grid, 17, Case::Red);
    grid[1][16] = Case::Yellow;
    grid[2][0] = Case::Cyan;
    assert_eq!(remove_complete_lines(&mut grid), 2);
    assert_eq!(grid[0][19], Case::Green);
    assert_eq!(grid[1][18], Case::Yellow);
    assert_eq!(grid[2][2], Case::Cyan);
    assert_eq!(grid[2][0], Case::Empty);
    let filled: usize = grid.iter().map(|col| col.iter().filter(|&&c| c != Case::Empty).count()).sum();
    assert_eq!(filled, 3);
}

#[test]
fn clearing_top_row_and_no_full_rows() {
    let mut grid = new_grid();
    fill_row(&mut grid, 0, Case::Purple);
    assert_eq!(remove_complete_lines(&mut grid), 1);
    assert!(is_empty(&grid));
    grid[4][GRID_HEIGHT - 1] = Case::Red;
    let before = grid;
    assert_eq!(remove_complete_lines(&mut grid), 0);
    assert_eq!(grid, before);
}

#[test]
fn clearing_four_rows() {
    let mut grid = new_grid();
    for y in 16..20 {
        fill_row(&mut grid, y, Case::Cyan);
    }
    grid[9][15] = Case::Red;
    assert_eq!(remove_complete_lines(&mut grid), 4);
    assert_eq!(grid[9][19], Case::Red);
    assert_eq!(grid[9][15], Case::Empty);
}
