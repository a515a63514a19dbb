use tetris::model::{Command, TickEvents};
use tetris::piece::{create_piece, Case, GRID_HEIGHT, GRID_WIDTH};
use tetris::session::{random_case, GameState};
use tetris::speed::drop_speed;

const SECOND: u64 = 1_000_000_000;

fn kinds_of(s: &GameState) -> Vec<Case> {
    s.next_pieces.iter().map(|p| p.case).collect()
}

fn grid_is_empty(s: &GameState) -> bool {
    s.grid.iter().all(|col| col.iter().all(|&c| c == Case::Empty))
}

/// Ticks until the head of the queue spawns, without a gravity step.
fn spawn(s: &mut GameState, drawn: Case) -> TickEvents {
    let ev = s.update_with(SECOND, drawn);
    assert_eq!(ev, TickEvents { lines_cleared: 0, level_up: None, game_over: false });
    s.update_with(1, drawn)
}

#[test]
fn new_session_is_fresh() {
    let s = GameState::new_with([Case::Cyan, Case::Red, Case::Blue]);
    assert!(grid_is_empty(&s));
    assert!(s.current_piece.is_none());
    assert_eq!(s.level, 1);
    assert_eq!(s.score, 0);
    assert_eq!(s.line_removed, 0);
    assert_eq!(s.move_speed, SECOND);
    assert_eq!(kinds_of(&s), vec![Case::Cyan, Case::Red, Case::Blue]);
    assert!(!s.lost);
}

#[test]
fn random_draws_cover_several_kinds() {
    let mut seen = Vec::new();
    for _ in 0..300 {
        let c = random_case();
        assert_ne!(c, Case::Empty);
        if !seen.contains(&c) {
            seen.push(c);
        }
    }
    assert!(seen.len() >= 2);
    let s = GameState::new();
    assert_eq!(s.next_pieces.len(), 3);
    assert!(kinds_of(&s).iter().all(|&c| c != Case::Empty));
}

#[test]
fn spawn_waits_for_gravity_interval() {
    let mut s = GameState::new_with([Case::Cyan, Case::Red, Case::Blue]);
    let ev = s.update_with(SECOND / 2, Case::Green);
    assert_eq!(ev, TickEvents { lines_cleared: 0, level_up: None, game_over: false });
    assert!(s.current_piece.is_none());
    assert_eq!(s.timer_piece_generation, SECOND / 2);
    s.update_with(SECOND / 2, Case::Green);
    assert!(s.current_piece.is_none());
    s.update_with(1, Case::Green);
    let p = s.current_piece.as_ref().unwrap();
    assert_eq!(p.case, Case::Cyan);
    assert_eq!((p.x, p.y), (3, 0));
    assert_eq!(s.timer_piece_generation, 0);
    assert_eq!(kinds_of(&s), vec![Case::Red, Case::Blue, Case::Green]);
    assert_eq!(s.current_piece_ghost_offset_y, 19);
}

#[test]
fn queue_keeps_three_entries() {
    let mut s = GameState::new_with([Case::Purple, Case::Red, Case::Blue]);
    for i in 0..200u64 {
        s.update_with(SECOND / 3 + i, Case::Yellow);
        assert_eq!(s.next_pieces.len(), 3);
        if s.lost {
            break;
        }
    }
}

#[test]
fn gravity_moves_piece_down_then_locks() {
    let mut s = GameState::new_with([Case::DarkYellow, Case::Red, Case::Blue]);
    spawn(&mut s, Case::Green);
    let ev = s.update_with(SECOND + 1, Case::Green);
    assert_eq!(ev.lines_cleared, 0);
    assert_eq!(s.current_piece.as_ref().unwrap().y, 1);
    assert_eq!(s.current_piece.as_ref().unwrap().last_move, 0);
    s.update_with(SECOND / 4, Case::Green);
    assert_eq!(s.current_piece.as_ref().unwrap().last_move, SECOND / 4);
    s.apply_command(Command::HardDrop);
    assert_eq!(s.current_piece.as_ref().unwrap().y, 18);
    assert!(s.grid.iter().all(|col| col.iter().all(|&c| c == Case::Empty)));
    s.update_with(SECOND, Case::Green);
    assert!(s.current_piece.is_none());
    assert_eq!(s.grid[4][18], Case::DarkYellow);
    assert_eq!(s.grid[5][19], Case::DarkYellow);
}

#[test]
fn moves_stop_at_walls() {
    let mut s = GameState::new_with([Case::DarkYellow, Case::Red, Case::Blue]);
    spawn(&mut s, Case::Green);
    for _ in 0..10 {
        s.apply_command(Command::MoveLeft);
    }
    assert_eq!(s.current_piece.as_ref().unwrap().x, 0);
    for _ in 0..10 {
        s.apply_command(Command::MoveRight);
    }
    assert_eq!(s.current_piece.as_ref().unwrap().x, 8);
    s.apply_command(Command::SoftDrop);
    assert_eq!(s.current_piece.as_ref().unwrap().y, 1);
    s.apply_command(Command::ToggleMute);
    assert_eq!(s.current_piece.as_ref().unwrap().y, 1);
    assert_eq!(s.current_piece_ghost_offset_y, 18);
}

#[test]
fn four_rotations_return_piece_to_start() {
    let mut s = GameState::new_with([Case::Purple, Case::Red, Case::Blue]);
    spawn(&mut s, Case::Green);
    for _ in 0..5 {
        s.apply_command(Command::SoftDrop);
    }
    let (x0, y0) = {
        let p = s.current_piece.as_ref().unwrap();
        (p.x, p.y)
    };
    let start = s.current_piece.as_ref().unwrap().cases.clone();
    for step in 1..=4 {
        s.apply_command(Command::Rotate);
        let p = s.current_piece.as_ref().unwrap();
        assert_eq!(p.index_rotation, step % 4);
        if step < 4 {
            assert_ne!(p.cases, start);
        }
    }
    let p = s.current_piece.as_ref().unwrap();
    assert_eq!(p.cases, start);
    assert_eq!((p.x, p.y), (x0, y0));
}

#[test]
fn first_rotation_applies_kick_offset() {
    let mut s = GameState::new_with([Case::Cyan, Case::Red, Case::Blue]);
    spawn(&mut s, Case::Green);
    s.apply_command(Command::SoftDrop);
    s.apply_command(Command::Rotate);
    let p = s.current_piece.as_ref().unwrap();
    assert_eq!((p.x, p.y), (5, 0));
    assert_eq!(p.height(), 4);
    assert_eq!(p.width(), 1);
}

#[test]
fn square_rotation_keeps_shape() {
    let mut s = GameState::new_with([Case::DarkYellow, Case::Red, Case::Blue]);
    spawn(&mut s, Case::Green);
    let start = s.current_piece.as_ref().unwrap().cases.clone();
    for _ in 0..4 {
        s.apply_command(Command::Rotate);
        let p = s.current_piece.as_ref().unwrap();
        assert_eq!(p.cases, start);
        assert_eq!((p.x, p.y), (4, 0));
    }
}

#[test]
fn blocked_rotation_is_rejected() {
    let mut s = GameState::new_with([Case::Cyan, Case::Red, Case::Blue]);
    for x in 0..GRID_WIDTH {
        for y in 1..GRID_HEIGHT {
            s.grid[x][y] = Case::Red;
        }
    }
    spawn(&mut s, Case::Green);
    s.apply_command(Command::Rotate);
    let p = s.current_piece.as_ref().unwrap();
    assert_eq!((p.x, p.y, p.index_rotation), (3, 0, 0));
    assert_eq!(p.width(), 4);
}

fn session_with_gap_row(level: u32, line_removed: u32, rows: usize) -> GameState {
    let mut s = GameState::new_with([Case::Cyan, Case::Red, Case::Blue]);
    for y in (GRID_HEIGHT - rows)..GRID_HEIGHT {
        for x in 0..GRID_WIDTH {
            if !(3..7).contains(&x) || y != GRID_HEIGHT - 1 {
                s.grid[x][y] = Case::Green;
            }
        }
    }
    s.level = level;
    s.move_speed = drop_speed(level);
    s.line_removed = line_removed;
    s
}

#[test]
fn bar_completes_bottom_line() {
    let mut s = session_with_gap_row(1, 0, 1);
    spawn(&mut s, Case::Green);
    s.apply_command(Command::HardDrop);
    assert_eq!(s.current_piece.as_ref().unwrap().y, 19);
    let ev = s.update_with(SECOND + 1, Case::Green);
    assert_eq!(ev, TickEvents { lines_cleared: 1, level_up: None, game_over: false });
    assert_eq!(s.score, 40);
    assert_eq!(s.line_removed, 1);
    assert!(grid_is_empty(&s));
}

#[test]
fn scoring_table_by_level() {
    let expected = [(1u32, 40i64), (2, 100), (3, 300), (4, 1200), (0, 0), (5, 0)];
    for level in [1u32, 2, 7] {
        for &(n, points) in expected.iter() {
            let mut s = GameState::new_with([Case::Cyan, Case::Red, Case::Blue]);
            s.level = level;
            s.move_speed = drop_speed(level);
            s.score = 10;
            s.compute_score(n);
            assert_eq!(s.score, 10 + points * level as i64);
        }
    }
    let mut s = GameState::new_with([Case::Cyan, Case::Red, Case::Blue]);
    s.score = i64::MAX - 5;
    s.compute_score(1);
    assert_eq!(s.score, i64::MAX);
}

#[test]
fn level_rises_past_five_lines_per_level() {
    let mut s = GameState::new_with([Case::Cyan, Case::Red, Case::Blue]);
    s.line_removed = 5;
    s.increase_level();
    assert_eq!(s.level, 1);
    s.line_removed = 6;
    s.increase_level();
    assert_eq!(s.level, 2);
    assert_eq!(s.move_speed, 793_000_000);
    s.line_removed = 10;
    s.increase_level();
    assert_eq!(s.level, 2);
}

#[test]
fn clear_raises_level_and_reports_it() {
    let mut s = session_with_gap_row(1, 5, 1);
    spawn(&mut s, Case::Green);
    s.apply_command(Command::HardDrop);
    let ev = s.update_with(SECOND + 1, Case::Green);
    assert_eq!(ev, TickEvents { lines_cleared: 1, level_up: Some(2), game_over: false });
    assert_eq!(s.level, 2);
    assert_eq!(s.line_removed, 6);
    assert_eq!(s.score, 40);
    assert_eq!(s.move_speed, drop_speed(2));
}

#[test]
fn spawn_on_taken_cells_ends_game() {
    let mut s = GameState::new_with([Case::Cyan, Case::Red, Case::Blue]);
    s.grid[5][0] = Case::Yellow;
    let ev = spawn(&mut s, Case::Green);
    assert_eq!(ev, TickEvents { lines_cleared: 0, level_up: None, game_over: true });
    assert!(s.lost);
    let y = s.current_piece.as_ref().unwrap().y;
    let grid = s.grid;
    for _ in 0..5 {
        let ev = s.update_with(10 * SECOND, Case::Green);
        assert_eq!(ev, TickEvents { lines_cleared: 0, level_up: None, game_over: false });
    }
    s.apply_command(Command::SoftDrop);
    assert_eq!(s.current_piece.as_ref().unwrap().y, y);
    assert_eq!(s.grid, grid);
    s.apply_command(Command::Restart);
    assert!(!s.lost);
    assert!(s.current_piece.is_none());
    assert!(grid_is_empty(&s));
}

#[test]
fn restart_resets_everything() {
    let mut s = session_with_gap_row(4, 17, 3);
    s.score = 999;
    spawn(&mut s, Case::Green);
    s.reset_with([Case::Yellow, Case::Yellow, Case::DarkYellow]);
    assert!(grid_is_empty(&s));
    assert!(s.current_piece.is_none());
    assert_eq!(s.level, 1);
    assert_eq!(s.score, 0);
    assert_eq!(s.line_removed, 0);
    assert_eq!(s.move_speed, SECOND);
    assert_eq!(kinds_of(&s), vec![Case::Yellow, Case::Yellow, Case::DarkYellow]);
    let fresh = create_piece(Case::Yellow);
    assert_eq!(s.next_pieces[0].x, fresh.x);
    assert_eq!(s.next_pieces[0].cases, fresh.cases);
    s.reset();
    assert_eq!(s.next_pieces.len(), 3);
    assert_eq!(s.level, 1);
    assert!(grid_is_empty(&s));
}

#[test]
fn ghost_marks_hard_drop_row() {
    let mut s = GameState::new_with([Case::Blue, Case::Red, Case::Blue]);
    s.grid[4][12] = Case::Green;
    spawn(&mut s, Case::Green);
    let ghost = s.current_piece_ghost_offset_y;
    assert_eq!(ghost, 10);
    s.apply_command(Command::HardDrop);
    assert_eq!(s.current_piece.as_ref().unwrap().y, ghost);
    assert_eq!(s.current_piece_ghost_offset_y, ghost);
}
