// Tests for the per-board state machine: spawning, gravity, locking,
// committing, input handling and the pause round trip.

use tetris_core::board::PlaceResult;
use tetris_core::geometry::PieceType;
use tetris_core::instance::{BoardInstance, GameState, PlayerInput};
use tetris_core::piece::{BoardPosition, PieceInstance, Rgba8, RotationDirection};

fn color() -> Rgba8 {
    Rgba8 { red: 130, green: 207, blue: 240, alpha: 255 }
}

fn pos(x: isize, y: isize) -> BoardPosition {
    BoardPosition { x, y }
}

/// A standard instance: 10 by 20 cells, gravity every 1000 time units,
/// 500 units of lock delay.
fn standard() -> BoardInstance {
    BoardInstance::new(String::from("main"), 10, 20, 1000, 500, color())
}

// the random draw that spawns an I piece (catalog index 0)
const DRAW_I: u64 = 0;

#[test]
fn ready_spawns_a_centred_piece_and_starts_falling() {
    let mut inst = standard();
    assert_eq!(inst.game_state, GameState::Ready);
    inst.update(0, None, DRAW_I);
    assert_eq!(inst.game_state, GameState::Falling);
    let p = inst.active_piece.as_ref().expect("piece after spawn");
    assert_eq!(p.typ, PieceType::I);
    // a four-wide piece centred on mid_x = 5 spans columns 3..=6
    assert_eq!(p.position.x, 3);
    // its top row aligns with the top row of the board
    assert_eq!(p.position.y, 19);
}

#[test]
fn hard_drop_rests_on_the_floor_and_commits_there() {
    let mut inst = standard();
    inst.update(0, None, DRAW_I);
    inst.update(0, Some(PlayerInput::HardDrop), DRAW_I);
    assert_eq!(inst.game_state, GameState::Locking);
    let p = inst.active_piece.as_ref().expect("piece while locking");
    assert_eq!(p.position.y, 0);
    // the lock delay elapses: the piece commits and the board returns to
    // Ready
    inst.update(500, None, DRAW_I);
    assert_eq!(inst.game_state, GameState::Ready);
    assert!(inst.active_piece.is_none());
    // row 0 holds the four cells in columns 3..=6, which does not
    // complete the ten-wide row
    assert_eq!(inst.board().row_score(0), Some(4));
    for x in 3..7 {
        assert!(inst.board().is_cell_filled(pos(x, 0)));
    }
    assert!(!inst.board().is_cell_filled(pos(2, 0)));
    assert!(!inst.board().is_cell_filled(pos(7, 0)));
}

#[test]
fn gravity_steps_one_row_per_interval() {
    let mut inst = standard();
    inst.update(0, None, DRAW_I);
    assert_eq!(inst.active_piece.as_ref().unwrap().position.y, 19);
    // not enough time: the piece stays, the timer accumulates
    inst.update(600, None, DRAW_I);
    assert_eq!(inst.active_piece.as_ref().unwrap().position.y, 19);
    assert_eq!(inst.gravity_timer, 600);
    // crossing the interval fires one step and resets the timer
    inst.update(400, None, DRAW_I);
    assert_eq!(inst.active_piece.as_ref().unwrap().position.y, 18);
    assert_eq!(inst.gravity_timer, 0);
}

#[test]
fn grounded_piece_enters_locking_and_a_side_move_keeps_it_there() {
    let mut inst = standard();
    inst.update(0, None, DRAW_I);
    inst.update(0, Some(PlayerInput::HardDrop), DRAW_I);
    assert_eq!(inst.game_state, GameState::Locking);
    // a lateral move during the grace window does not commit the piece
    inst.update(100, Some(PlayerInput::L), DRAW_I);
    assert_eq!(inst.game_state, GameState::Locking);
    assert_eq!(inst.active_piece.as_ref().unwrap().position.x, 2);
    assert!(inst.active_piece.is_some());
}

#[test]
fn moves_stop_at_the_walls() {
    let mut inst = standard();
    inst.update(0, None, DRAW_I);
    // walk the piece to the left wall; extra presses are no-ops
    for _ in 0..5 {
        inst.update(0, Some(PlayerInput::L), DRAW_I);
    }
    assert_eq!(inst.active_piece.as_ref().unwrap().position.x, 0);
    // and to the right wall: a four-wide piece stops at x = 6
    for _ in 0..12 {
        inst.update(0, Some(PlayerInput::R), DRAW_I);
    }
    assert_eq!(inst.active_piece.as_ref().unwrap().position.x, 6);
}

#[test]
fn rotation_reverts_when_it_would_leave_the_grid() {
    let mut inst = standard();
    let mut p = PieceInstance::new(PieceType::I, color(), pos(9, 0));
    p.rotate(RotationDirection::Cw);
    assert_eq!(p.rot_idx, 1);
    assert_eq!(
        inst.board().try_place(&p, p.position),
        PlaceResult::PlaceOk
    );
    inst.active_piece = Some(p);
    inst.game_state = GameState::Falling;
    // rotating the vertical bar at the right wall would reach x = 12:
    // the rotation index and the position stay exactly as they were
    inst.rotate_active_piece();
    let after = inst.active_piece.as_ref().unwrap();
    assert_eq!(after.rot_idx, 1);
    assert_eq!(after.position.x, 9);
    assert_eq!(after.position.y, 0);
}

#[test]
fn rotation_applies_when_there_is_room() {
    let mut inst = standard();
    inst.update(0, None, DRAW_I);
    // at the spawn row the vertical bar would poke over the top edge, so
    // the rotation reverts there; after dropping to the floor it has room
    inst.update(0, Some(PlayerInput::Rotate), DRAW_I);
    assert_eq!(inst.active_piece.as_ref().unwrap().rot_idx, 0);
    inst.update(0, Some(PlayerInput::HardDrop), DRAW_I);
    inst.update(0, Some(PlayerInput::Rotate), DRAW_I);
    assert_eq!(inst.active_piece.as_ref().unwrap().rot_idx, 1);
}

#[test]
fn pause_round_trip_restores_phase_and_timers() {
    let mut inst = standard();
    inst.update(0, None, DRAW_I);
    inst.update(300, None, DRAW_I);
    assert_eq!(inst.gravity_timer, 300);
    inst.update(0, Some(PlayerInput::Pause), DRAW_I);
    assert_eq!(inst.game_state, GameState::Paused);
    inst.update(0, Some(PlayerInput::Pause), DRAW_I);
    assert_eq!(inst.game_state, GameState::Falling);
    assert_eq!(inst.gravity_timer, 300);
    assert_eq!(inst.lock_timer, 0);
}

#[test]
fn paused_game_ignores_time_and_other_actions() {
    let mut inst = standard();
    inst.update(0, None, DRAW_I);
    let x_before = inst.active_piece.as_ref().unwrap().position.x;
    let y_before = inst.active_piece.as_ref().unwrap().position.y;
    inst.update(0, Some(PlayerInput::Pause), DRAW_I);
    // large elapsed times and movement actions do nothing while paused
    inst.update(10_000, None, DRAW_I);
    inst.update(10_000, Some(PlayerInput::L), DRAW_I);
    inst.update(10_000, Some(PlayerInput::HardDrop), DRAW_I);
    assert_eq!(inst.game_state, GameState::Paused);
    let p = inst.active_piece.as_ref().unwrap();
    assert_eq!(p.position.x, x_before);
    assert_eq!(p.position.y, y_before);
    assert_eq!(inst.gravity_timer, 0);
}

#[test]
fn blocked_spawn_ends_the_game() {
    // a two-row board whose spawn row is blocked tops out at once
    let mut inst = BoardInstance::new(String::from("tiny"), 4, 2, 1000, 500, color());
    let o = PieceInstance::new(PieceType::O, color(), pos(0, 0));
    assert_eq!(
        inst.board().try_place(&o, o.position),
        PlaceResult::PlaceOk
    );
    assert!(inst.board_mut().commit_piece(&o).is_none());
    // the I piece spawns at (0, 1) and collides with the O
    inst.update(0, None, DRAW_I);
    assert_eq!(inst.game_state, GameState::GameOver);
    assert!(inst.active_piece.is_none());
    // game over is terminal
    inst.update(1000, Some(PlayerInput::HardDrop), DRAW_I);
    assert_eq!(inst.game_state, GameState::GameOver);
}

#[test]
fn full_board_clears_to_empty() {
    // commit vertical bars across the whole width, filling four rows
    let mut inst = BoardInstance::new(String::from("clear"), 4, 8, 1000, 500, color());
    for x in 0..4 {
        let mut v = PieceInstance::new(PieceType::I, color(), pos(x, 0));
        v.rotate(RotationDirection::Cw);
        assert_eq!(
            inst.board().try_place(&v, v.position),
            PlaceResult::PlaceOk
        );
        inst.board_mut().commit_piece(&v);
    }
    // every column holds a bar of height 4: rows 0..=3 are full
    inst.board_mut().clear_filled_rows();
    for y in 0..8 {
        assert_eq!(inst.board().row_score(y), Some(0));
    }
}

#[test]
fn locking_piece_resumes_falling_when_space_opens() {
    let mut inst = standard();
    // a single O in columns 4..=5 makes a two-cell step
    let o = PieceInstance::new(PieceType::O, color(), pos(4, 0));
    assert_eq!(
        inst.board().try_place(&o, o.position),
        PlaceResult::PlaceOk
    );
    assert!(inst.board_mut().commit_piece(&o).is_none());
    inst.update(0, None, DRAW_I);
    // drop the bar onto the step: it rests at y = 2, grounded
    inst.update(0, Some(PlayerInput::HardDrop), DRAW_I);
    assert_eq!(inst.game_state, GameState::Locking);
    assert_eq!(inst.active_piece.as_ref().unwrap().position.y, 2);
    // sliding off the step to the left opens space below: the piece
    // falls again instead of committing
    inst.update(0, Some(PlayerInput::L), DRAW_I);
    inst.update(0, Some(PlayerInput::L), DRAW_I);
    inst.update(0, Some(PlayerInput::L), DRAW_I);
    inst.update(0, Some(PlayerInput::L), DRAW_I);
    assert_eq!(inst.game_state, GameState::Falling);
    assert_eq!(inst.active_piece.as_ref().unwrap().position.x, 0);
}
