// Tests for the board grid model: placement checking, commit, scoring
// aggregates, drop computation and row clearing.

use tetris_core::board::{Board, PlaceResult};
use tetris_core::geometry::PieceType;
use tetris_core::piece::{BoardPosition, PieceInstance, Rgba8, RotationDirection};

fn color() -> Rgba8 {
    Rgba8 { red: 130, green: 207, blue: 240, alpha: 255 }
}

fn pos(x: isize, y: isize) -> BoardPosition {
    BoardPosition { x, y }
}

/// Commit a piece after checking the placement, panicking if it is not
/// legal; returns the completed rows.
fn checked_commit(b: &mut Board, p: &PieceInstance) -> Option<Vec<isize>> {
    assert_eq!(b.try_place(p, p.position), PlaceResult::PlaceOk);
    b.commit_piece(p)
}

#[test]
fn try_place_reports_out_of_bounds_on_every_side() {
    let b = Board::new(10, 20);
    let p = PieceInstance::new(PieceType::I, color(), pos(0, 0));
    assert_eq!(b.try_place(&p, pos(-1, 0)), PlaceResult::OutOfBounds);
    assert_eq!(b.try_place(&p, pos(7, 0)), PlaceResult::OutOfBounds);
    assert_eq!(b.try_place(&p, pos(0, -1)), PlaceResult::OutOfBounds);
    assert_eq!(b.try_place(&p, pos(0, 20)), PlaceResult::OutOfBounds);
    assert_eq!(b.try_place(&p, pos(6, 19)), PlaceResult::PlaceOk);
}

#[test]
fn try_place_checks_bounds_before_occupancy() {
    let mut b = Board::new(10, 20);
    let o = PieceInstance::new(PieceType::O, color(), pos(0, 0));
    assert!(checked_commit(&mut b, &o).is_none());
    // one cell leaves the grid on the left while others overlap the
    // committed piece: bounds win
    let i = PieceInstance::new(PieceType::I, color(), pos(-1, 0));
    assert_eq!(b.try_place(&i, pos(-1, 0)), PlaceResult::OutOfBounds);
    // fully on the grid but overlapping: blocked
    assert_eq!(b.try_place(&i, pos(0, 0)), PlaceResult::PlaceBad);
    // on the grid and free
    assert_eq!(b.try_place(&i, pos(2, 2)), PlaceResult::PlaceOk);
}

#[test]
fn commit_without_completion_returns_no_rows() {
    let mut b = Board::new(10, 20);
    let p = PieceInstance::new(PieceType::I, color(), pos(0, 0));
    assert_eq!(checked_commit(&mut b, &p), None);
    assert_eq!(b.row_score(0), Some(4));
    assert!(b.is_cell_filled(pos(0, 0)));
    assert!(b.is_cell_filled(pos(3, 0)));
    assert!(!b.is_cell_filled(pos(4, 0)));
}

#[test]
fn commit_completing_one_row_returns_exactly_that_row() {
    // a horizontal bar exactly fills row 2 of a four-wide board
    let mut b = Board::new(4, 5);
    let p = PieceInstance::new(PieceType::I, color(), pos(0, 2));
    let rows = checked_commit(&mut b, &p);
    assert_eq!(rows, Some(vec![2isize]));
    assert_eq!(b.row_score(2), Some(4));
}

#[test]
fn col_score_never_decreases_and_tracks_the_top() {
    let mut b = Board::new(10, 20);
    let o = PieceInstance::new(PieceType::O, color(), pos(0, 0));
    assert!(checked_commit(&mut b, &o).is_none());
    assert_eq!(b.col_score(0), Some(2));
    assert_eq!(b.col_score(1), Some(2));
    assert_eq!(b.col_score(2), Some(0));
    let before: Vec<isize> = b.col_score_all().clone();
    // an S piece on top touches columns 0..=2
    let s = PieceInstance::new(PieceType::S, color(), pos(0, 2));
    assert!(checked_commit(&mut b, &s).is_none());
    for x in 0..10 {
        assert!(b.col_score(x).unwrap() >= before[x as usize]);
    }
    // the S occupies (0,2),(1,2),(1,3),(2,3): tops are one past those
    assert_eq!(b.col_score(0), Some(3));
    assert_eq!(b.col_score(1), Some(4));
    assert_eq!(b.col_score(2), Some(4));
}

#[test]
fn score_readers_reject_out_of_range_indices() {
    let b = Board::new(10, 20);
    assert_eq!(b.row_score(-1), None);
    assert_eq!(b.row_score(20), None);
    assert_eq!(b.col_score(-1), None);
    assert_eq!(b.col_score(10), None);
    assert!(!b.is_cell_filled(pos(-1, -1)));
    assert!(!b.is_cell_filled(pos(10, 20)));
}

#[test]
fn drop_position_matches_iterated_gravity() {
    // a few stacks, then drop pieces from high up and compare against
    // one-row steps
    let mut b = Board::new(10, 20);
    let o = PieceInstance::new(PieceType::O, color(), pos(0, 0));
    assert!(checked_commit(&mut b, &o).is_none());
    let o2 = PieceInstance::new(PieceType::O, color(), pos(4, 0));
    assert!(checked_commit(&mut b, &o2).is_none());
    let o3 = PieceInstance::new(PieceType::O, color(), pos(4, 2));
    assert!(checked_commit(&mut b, &o3).is_none());

    for (typ, x) in [
        (PieceType::I, 0),
        (PieceType::I, 3),
        (PieceType::O, 3),
        (PieceType::T, 2),
        (PieceType::S, 4),
        (PieceType::Z, 5),
        (PieceType::J, 0),
        (PieceType::L, 6),
    ] {
        let p = PieceInstance::new(typ, color(), pos(x, 15));
        assert_eq!(b.try_place(&p, p.position), PlaceResult::PlaceOk);
        let drop = b.get_drop_location(&p);
        assert_eq!(drop.x, p.position.x);
        // iterate single-step gravity from the current position
        let mut y = p.position.y;
        while b.try_place(&p, pos(x, y - 1)) == PlaceResult::PlaceOk {
            y -= 1;
        }
        assert_eq!(drop.y, y, "direct drop and iterated gravity disagree");
        // the direct position is itself legal
        assert_eq!(b.try_place(&p, drop), PlaceResult::PlaceOk);
    }
}

#[test]
fn drop_on_empty_board_rests_on_the_floor() {
    let b = Board::new(10, 20);
    let p = PieceInstance::new(PieceType::T, color(), pos(4, 17));
    let drop = b.get_drop_location(&p);
    assert_eq!(drop.x, 4);
    assert_eq!(drop.y, 0);
}

#[test]
fn filling_the_last_gap_completes_the_row() {
    // fill row 0 of a ten-wide board in all columns but one, then cover
    // the gap
    let mut b = Board::new(10, 4);
    let i1 = PieceInstance::new(PieceType::I, color(), pos(0, 0));
    assert!(checked_commit(&mut b, &i1).is_none());
    let i2 = PieceInstance::new(PieceType::I, color(), pos(4, 0));
    assert!(checked_commit(&mut b, &i2).is_none());
    let mut v1 = PieceInstance::new(PieceType::I, color(), pos(8, 0));
    v1.rotate(RotationDirection::Cw);
    assert!(checked_commit(&mut b, &v1).is_none());
    assert_eq!(b.row_score(0), Some(9));
    // the last empty cell of row 0 sits in column 9
    let mut v2 = PieceInstance::new(PieceType::I, color(), pos(9, 0));
    v2.rotate(RotationDirection::Cw);
    let rows = checked_commit(&mut b, &v2);
    assert_eq!(rows, Some(vec![0isize]));
}

#[test]
fn clearing_shifts_rows_down_and_rebuilds_scores() {
    let mut b = Board::new(10, 4);
    let i1 = PieceInstance::new(PieceType::I, color(), pos(0, 0));
    let i2 = PieceInstance::new(PieceType::I, color(), pos(4, 0));
    let mut v1 = PieceInstance::new(PieceType::I, color(), pos(8, 0));
    v1.rotate(RotationDirection::Cw);
    let mut v2 = PieceInstance::new(PieceType::I, color(), pos(9, 0));
    v2.rotate(RotationDirection::Cw);
    assert!(checked_commit(&mut b, &i1).is_none());
    assert!(checked_commit(&mut b, &i2).is_none());
    assert!(checked_commit(&mut b, &v1).is_none());
    assert_eq!(checked_commit(&mut b, &v2), Some(vec![0isize]));
    b.clear_filled_rows();
    // the full bottom row is gone; the vertical bars moved down one row
    assert_eq!(b.row_score(0), Some(2));
    assert_eq!(b.row_score(1), Some(2));
    assert_eq!(b.row_score(2), Some(2));
    assert_eq!(b.row_score(3), Some(0));
    assert!(b.is_cell_filled(pos(8, 0)));
    assert!(b.is_cell_filled(pos(9, 2)));
    assert!(!b.is_cell_filled(pos(0, 0)));
    assert_eq!(b.col_score(8), Some(3));
    assert_eq!(b.col_score(9), Some(3));
    assert_eq!(b.col_score(0), Some(0));
}

#[test]
fn drop_position_ignores_gaps_under_an_overhang() {
    // an O committed in mid-air leaves a gap beneath it; the drop
    // position for that column is computed from the column top, so a
    // piece sitting inside the gap is below its own drop position and
    // iterated gravity (which would keep it at the floor) no longer
    // matches a direct move to the drop position
    let mut b = Board::new(10, 20);
    let o = PieceInstance::new(PieceType::O, color(), pos(0, 2));
    assert!(checked_commit(&mut b, &o).is_none());
    let p = PieceInstance::new(PieceType::I, color(), pos(0, 0));
    assert_eq!(b.try_place(&p, p.position), PlaceResult::PlaceOk);
    let drop = b.get_drop_location(&p);
    assert_eq!(drop.y, 4);
    // gravity from inside the gap stays on the floor
    assert_eq!(b.try_place(&p, pos(0, -1)), PlaceResult::OutOfBounds);
    // while the computed drop position is itself a legal resting place
    assert_eq!(b.try_place(&p, drop), PlaceResult::PlaceOk);
}

#[test]
fn rotation_cycles_through_the_catalog() {
    let mut p = PieceInstance::new(PieceType::T, color(), pos(0, 0));
    assert_eq!(p.rot_idx, 0);
    p.rotate(RotationDirection::Cw);
    assert_eq!(p.rot_idx, 1);
    p.rotate(RotationDirection::Ccw);
    assert_eq!(p.rot_idx, 0);
    p.rotate(RotationDirection::Ccw);
    assert_eq!(p.rot_idx, 3);
    let mut i = PieceInstance::new(PieceType::I, color(), pos(0, 0));
    i.rotate(RotationDirection::Cw);
    assert_eq!(i.rot_idx, 1);
    i.rotate(RotationDirection::Cw);
    assert_eq!(i.rot_idx, 0);
}

#[test]
fn piece_cells_come_from_the_catalog() {
    let p = PieceInstance::new(PieceType::O, color(), pos(0, 0));
    let cells = p.cells();
    assert_eq!(cells, vec![(0, 0), (1, 0), (0, 1), (1, 1)]);
    assert_eq!(PieceType::T.rotation_count(), 4);
    assert_eq!(PieceType::O.rotation_count(), 1);
    assert_eq!(PieceType::I.skirt(0), vec![0, 0, 0, 0]);
    assert_eq!(PieceType::S.skirt(0), vec![0, 0, 1]);
    assert_eq!(PieceType::I.minmax_x(0), (0, 3));
    assert_eq!(PieceType::I.max_y(1), 3);
}
