//! One playable board: a grid, an optional active piece, gravity and lock
//! timers, and the game-phase state machine that consumes per-tick elapsed
//! time and an optional player action.

use vstd::prelude::*;

use crate::board::{piece_covers, piece_touches_row, Board, PlaceResult};
use crate::board::{lemma_place_ok_same_cells, lemma_wf_dims};
use crate::geometry::{lemma_catalog_ok, spec_from_idx, spec_max_x, spec_max_y, PieceType};
use crate::piece::{spec_rotated_idx, BoardPosition, PieceInstance, Rgba8, RotationDirection};

verus! {

/// The game phase of one board.
#[derive(Debug, Copy, Clone, PartialEq, Eq, Structural)]
pub enum GameState {
    Ready,
    Falling,
    Locking,
    GameOver,
    Paused,
}

/// An abstract player action, at most one per tick.
#[derive(Debug, Copy, Clone)]
pub enum PlayerInput {
    L,
    R,
    HardDrop,
    Rotate,
    Pause,
}

/// The timers remembered while the game is paused.
#[derive(Debug, Copy, Clone, PartialEq, Eq, Structural)]
pub struct PauseState {
    pub gravity_timer: u32,
    pub lock_timer: u32,
}

/// The phase holds an active piece.
pub open spec fn piece_state(s: GameState) -> bool {
    s == GameState::Falling || s == GameState::Locking
}

/// One playable board with its phase machine and timers.
#[derive(Debug)]
pub struct BoardInstance {
    pub id: String,
    pub board: Board,
    pub color: Rgba8,
    pub game_state: GameState,
    pub prev_game_state: Option<GameState>,
    pub pause_state: Option<PauseState>,
    pub active_piece: Option<PieceInstance>,
    pub gravity_interval: u32,
    pub gravity_timer: u32,
    pub lock_delay: u32,
    pub lock_timer: u32,
}

/// The piece `p` moved to `pos` without any other change.
pub open spec fn piece_at(p: PieceInstance, pos: BoardPosition) -> PieceInstance {
    PieceInstance { position: pos, ..p }
}

/// The piece `p` rotated one step clockwise in place.
pub open spec fn spec_rotated_cw(p: PieceInstance) -> PieceInstance {
    PieceInstance {
        rot_idx: spec_rotated_idx(p.typ, p.rot_idx as int, RotationDirection::Cw) as usize,
        ..p
    }
}

/// The deterministic spawn position of a variant on a board: horizontally
/// centred on the board's midpoint, vertically so that the piece's top row
/// aligns with the board's top row.
pub open spec fn spec_spawn_pos(b: Board, t: PieceType) -> BoardPosition {
    BoardPosition {
        x: (b.width / 2 - (spec_max_x(t, 0) + 1) / 2) as isize,
        y: (b.height - spec_max_y(t, 0) - 1) as isize,
    }
}

/// The piece spawned for a random draw: the variant picked uniformly from
/// the seven catalog entries by the caller-supplied number, at rotation
/// zero and the spawn position.
pub open spec fn spec_spawn_piece(b: Board, rand: u64, color: Rgba8) -> PieceInstance {
    let t = spec_from_idx((rand % 7) as int);
    PieceInstance { typ: t, color, rot_idx: 0, position: spec_spawn_pos(b, t) }
}

/// The state after one pause toggle. Entering a pause remembers the phase
/// and both timers; leaving it restores them exactly.
pub open spec fn spec_toggle_pause(s: BoardInstance) -> BoardInstance {
    if s.game_state == GameState::Paused {
        BoardInstance {
            game_state: match s.prev_game_state {
                Some(pg) => pg,
                None => GameState::Ready,
            },
            prev_game_state: None,
            pause_state: None,
            gravity_timer: match s.pause_state {
                Some(ps) => ps.gravity_timer,
                None => s.gravity_timer,
            },
            lock_timer: match s.pause_state {
                Some(ps) => ps.lock_timer,
                None => s.lock_timer,
            },
            ..s
        }
    } else {
        BoardInstance {
            game_state: GameState::Paused,
            prev_game_state: Some(s.game_state),
            pause_state: Some(
                PauseState { gravity_timer: s.gravity_timer, lock_timer: s.lock_timer },
            ),
            ..s
        }
    }
}

/// Entering a pause and immediately leaving it restores the phase, the
/// gravity timer and the lock timer exactly; the board and the active
/// piece are untouched throughout.
pub proof fn lemma_pause_round_trip(s: BoardInstance)
    requires
        s.wf(),
        s.game_state != GameState::Paused,
    ensures
        ({
            let t = spec_toggle_pause(spec_toggle_pause(s));
            &&& t.game_state == s.game_state
            &&& t.gravity_timer == s.gravity_timer
            &&& t.lock_timer == s.lock_timer
            &&& t.active_piece == s.active_piece
            &&& t.board == s.board
            &&& t.prev_game_state == s.prev_game_state
            &&& t.pause_state == s.pause_state
        }),
{
}

impl BoardInstance {
    /// The instance is a valid game: the board is well formed and holds no
    /// full row between ticks, an active piece is present exactly in the
    /// phases that own one (directly or behind a pause) and rests legally
    /// on the board, and pause bookkeeping exists exactly while paused.
    pub open spec fn wf(self) -> bool {
        &&& self.board.wf()
        &&& forall|y: int| 0 <= y < self.board.height ==> !self.board.row_full(y)
        &&& match self.active_piece {
            Some(p) => p.wf() && self.board.place_ok(p, p.position),
            None => true,
        }
        &&& (piece_state(self.game_state) ==> self.active_piece matches Some(_))
        &&& ((self.game_state == GameState::Ready || self.game_state == GameState::GameOver)
            ==> self.active_piece matches None)
        &&& (self.game_state == GameState::Paused ==> match self.prev_game_state {
            Some(pg) => {
                &&& pg != GameState::Paused
                &&& pg != GameState::GameOver
                &&& (piece_state(pg) ==> self.active_piece matches Some(_))
                &&& (pg == GameState::Ready ==> self.active_piece matches None)
            },
            None => false,
        } && self.pause_state matches Some(_))
        &&& (self.game_state != GameState::Paused ==> (self.prev_game_state matches None)
            && (self.pause_state matches None))
    }

    /// A new instance in the `Ready` phase over an empty board of the
    /// given dimensions, with the given timing configuration and spawn
    /// colour.
    pub fn new(
        id: String,
        width: usize,
        height: usize,
        gravity_interval: u32,
        lock_delay: u32,
        color: Rgba8,
    ) -> (r: BoardInstance)
        requires
            0 < width,
            0 < height,
            width * height <= isize::MAX,
        ensures
            r.wf(),
            r.id == id,
            r.board.width == width as isize,
            r.board.height == height as isize,
            r.color == color,
            r.game_state == GameState::Ready,
            r.active_piece matches None,
            r.gravity_interval == gravity_interval,
            r.gravity_timer == 0,
            r.lock_delay == lock_delay,
            r.lock_timer == 0,
    {
        let board = Board::new(width, height);
        proof {
            lemma_wf_dims(board);
            assert forall|y: int| 0 <= y < board.height implies !board.row_full(y) by {
                assert(!board.cell(0, y));
            }
        }
        BoardInstance {
            id,
            board,
            color,
            game_state: GameState::Ready,
            prev_game_state: None,
            pause_state: None,
            active_piece: None,
            gravity_interval,
            gravity_timer: 0,
            lock_delay,
            lock_timer: 0,
        }
    }

    /// Read-only access to the board for rendering and observation.
    pub fn board(&self) -> (r: &Board)
        ensures
            *r == self.board,
    {
        &self.board
    }

    /// Mutable access to the board.
    pub fn board_mut(&mut self) -> (r: &mut Board)
        ensures
            *r == old(self).board,
            final(self).board == *final(r),
            final(self).id == old(self).id,
            final(self).color == old(self).color,
            final(self).game_state == old(self).game_state,
            final(self).prev_game_state == old(self).prev_game_state,
            final(self).pause_state == old(self).pause_state,
            final(self).active_piece == old(self).active_piece,
            final(self).gravity_interval == old(self).gravity_interval,
            final(self).gravity_timer == old(self).gravity_timer,
            final(self).lock_delay == old(self).lock_delay,
            final(self).lock_timer == old(self).lock_timer,
    {
        &mut self.board
    }

    /// The variant drawn from the caller-supplied random number, picked
    /// uniformly among the seven catalog entries.
    fn get_random_piece_type(&self, rand: u64) -> (t: PieceType)
        ensures
            t == spec_from_idx((rand % 7) as int),
    {
        PieceType::from_idx((rand % 7) as usize)
    }

    /// The colour given to newly spawned pieces.
    fn get_piece_color(&self) -> (c: Rgba8)
        ensures
            c == self.color,
    {
        self.color
    }

    /// Tries to spawn the drawn piece at the deterministic spawn position.
    /// On success the piece becomes the active piece; on failure (the
    /// board is topped out) nothing changes. Returns whether the spawn
    /// placement was legal.
    fn spawn_new_piece(&mut self, rand: u64) -> (r: bool)
        requires
            old(self).wf(),
            old(self).active_piece matches None,
        ensures
            final(self).board == old(self).board,
            final(self).id == old(self).id,
            final(self).color == old(self).color,
            final(self).game_state == old(self).game_state,
            final(self).prev_game_state == old(self).prev_game_state,
            final(self).pause_state == old(self).pause_state,
            final(self).gravity_interval == old(self).gravity_interval,
            final(self).gravity_timer == old(self).gravity_timer,
            final(self).lock_delay == old(self).lock_delay,
            final(self).lock_timer == old(self).lock_timer,
            ({
                let sp = spec_spawn_piece(old(self).board, rand, old(self).color);
                &&& sp.wf()
                &&& r == old(self).board.place_ok(sp, sp.position)
                &&& (r ==> final(self).active_piece == Some(sp))
                &&& (!r ==> final(self).active_piece matches None)
            }),
    {
        proof {
            lemma_wf_dims(self.board);
        }
        let piece_type = self.get_random_piece_type(rand);
        let color = self.get_piece_color();
        proof {
            lemma_catalog_ok(piece_type, 0);
        }
        let max_x = piece_type.max_x(0);
        let max_y = piece_type.max_y(0);
        let spawn_pos = BoardPosition {
            x: self.board.mid_x() - (max_x + 1) / 2,
            y: self.board.height - max_y - 1,
        };
        let new_piece = PieceInstance::new(piece_type, color, spawn_pos);
        let result = self.board.try_place(&new_piece, spawn_pos);
        let can_place = match result {
            PlaceResult::PlaceOk | PlaceResult::RowFilled => true,
            _ => false,
        };
        if can_place {
            self.active_piece = Some(new_piece);
        }
        can_place
    }

    /// Takes the active piece and commits it to the board; afterwards no
    /// piece is active. Returns the completed rows the commit reported,
    /// or nothing. When nothing was completed the board again holds no
    /// full row.
    fn commit_piece(&mut self) -> (r: Option<Vec<isize>>)
        requires
            old(self).wf(),
        ensures
            final(self).board.wf(),
            final(self).board.width == old(self).board.width,
            final(self).board.height == old(self).board.height,
            final(self).active_piece matches None,
            final(self).id == old(self).id,
            final(self).color == old(self).color,
            final(self).game_state == old(self).game_state,
            final(self).prev_game_state == old(self).prev_game_state,
            final(self).pause_state == old(self).pause_state,
            final(self).gravity_interval == old(self).gravity_interval,
            final(self).gravity_timer == old(self).gravity_timer,
            final(self).lock_delay == old(self).lock_delay,
            final(self).lock_timer == old(self).lock_timer,
            match r {
                None => forall|y: int|
                    0 <= y < final(self).board.height ==> !final(self).board.row_full(y),
                Some(v) => v@.len() > 0,
            },
    {
        let taken = self.active_piece.take();
        match taken {
            None => None,
            Some(piece) => {
                let ghost ob = self.board;
                let r = self.board.commit_piece(&piece);
                proof {
                    let pos = piece.position;
                    if r is None {
                        assert forall|y: int|
                            0 <= y < self.board.height implies !self.board.row_full(y) by {
                            if piece_touches_row(piece, pos, y) {
                            } else {
                                assert(!ob.row_full(y));
                                let xw = choose|xw: int|
                                    0 <= xw < ob.width && !(#[trigger] ob.cell(xw, y));
                                assert(!piece_covers(piece, pos, xw, y)) by {
                                    if piece_covers(piece, pos, xw, y) {
                                        let i = choose|i: int|
                                            0 <= i < piece.spec_cells().len() && pos.x + (
                                            #[trigger] piece.spec_cells()[i]).0 == xw && pos.y
                                                + piece.spec_cells()[i].1 == y;
                                        assert(piece_touches_row(piece, pos, y));
                                    }
                                }
                                assert(!self.board.cell(xw, y));
                            }
                        }
                    }
                }
                r
            },
        }
    }

    /// Removes the rows a commit completed (and with them every full row),
    /// letting the rows above slide down; afterwards the board holds no
    /// full row.
    fn clear_lines(&mut self, rows: Vec<isize>)
        requires
            old(self).board.wf(),
            rows@.len() > 0,
        ensures
            final(self).board.wf(),
            final(self).board.width == old(self).board.width,
            final(self).board.height == old(self).board.height,
            forall|y: int| 0 <= y < final(self).board.height ==> !final(self).board.row_full(y),
            final(self).id == old(self).id,
            final(self).color == old(self).color,
            final(self).game_state == old(self).game_state,
            final(self).prev_game_state == old(self).prev_game_state,
            final(self).pause_state == old(self).pause_state,
            final(self).active_piece == old(self).active_piece,
            final(self).gravity_interval == old(self).gravity_interval,
            final(self).gravity_timer == old(self).gravity_timer,
            final(self).lock_delay == old(self).lock_delay,
            final(self).lock_timer == old(self).lock_timer,
    {
        if rows.len() > 0 {
            self.board.clear_filled_rows();
        }
    }

    /// One gravity step: move the active piece one row down if the row
    /// below is free, otherwise leave everything unchanged. Returns
    /// whether the piece moved.
    fn apply_gravity(&mut self) -> (r: bool)
        requires
            old(self).wf(),
        ensures
            final(self).wf(),
            final(self).board == old(self).board,
            final(self).id == old(self).id,
            final(self).color == old(self).color,
            final(self).game_state == old(self).game_state,
            final(self).prev_game_state == old(self).prev_game_state,
            final(self).pause_state == old(self).pause_state,
            final(self).gravity_interval == old(self).gravity_interval,
            final(self).gravity_timer == old(self).gravity_timer,
            final(self).lock_delay == old(self).lock_delay,
            final(self).lock_timer == old(self).lock_timer,
            match old(self).active_piece {
                None => !r && *final(self) == *old(self),
                Some(p) => {
                    let down = BoardPosition { x: p.position.x, y: (p.position.y - 1) as isize };
                    &&& r == old(self).board.place_ok(p, down)
                    &&& (r ==> final(self).active_piece == Some(piece_at(p, down)))
                    &&& (!r ==> *final(self) == *old(self))
                },
            },
    {
        match self.active_piece {
            None => false,
            Some(piece) => {
                proof {
                    lemma_catalog_ok(piece.typ, piece.rot_idx as int);
                    assert(self.board.in_bounds(
                        piece.position.x + piece.spec_cells()[0].0,
                        piece.position.y + piece.spec_cells()[0].1,
                    ));
                }
                let next_pos = BoardPosition { x: piece.position.x, y: piece.position.y - 1 };
                let result = self.board.try_place(&piece, next_pos);
                let can_place = match result {
                    PlaceResult::PlaceOk | PlaceResult::RowFilled => true,
                    _ => false,
                };
                if can_place {
                    proof {
                        lemma_place_ok_same_cells(
                            self.board,
                            piece,
                            piece_at(piece, next_pos),
                            next_pos,
                        );
                    }
                    self.active_piece = Some(PieceInstance { position: next_pos, ..piece });
                }
                can_place
            },
        }
    }

    /// Player-induced move of the active piece to `new_pos`: moves exactly
    /// when the placement there is legal, otherwise a no-op. Returns
    /// whether the piece moved.
    pub fn move_active_piece(&mut self, new_pos: BoardPosition) -> (r: bool)
        requires
            old(self).wf(),
        ensures
            final(self).wf(),
            final(self).board == old(self).board,
            final(self).id == old(self).id,
            final(self).color == old(self).color,
            final(self).game_state == old(self).game_state,
            final(self).prev_game_state == old(self).prev_game_state,
            final(self).pause_state == old(self).pause_state,
            final(self).gravity_interval == old(self).gravity_interval,
            final(self).gravity_timer == old(self).gravity_timer,
            final(self).lock_delay == old(self).lock_delay,
            final(self).lock_timer == old(self).lock_timer,
            match old(self).active_piece {
                None => !r && *final(self) == *old(self),
                Some(p) => {
                    &&& r == old(self).board.place_ok(p, new_pos)
                    &&& (r ==> final(self).active_piece == Some(piece_at(p, new_pos)))
                    &&& (!r ==> *final(self) == *old(self))
                },
            },
    {
        match self.active_piece {
            None => false,
            Some(piece) => {
                let result = self.board.try_place(&piece, new_pos);
                let can_place = match result {
                    PlaceResult::PlaceOk | PlaceResult::RowFilled => true,
                    _ => false,
                };
                if can_place {
                    proof {
                        lemma_place_ok_same_cells(
                            self.board,
                            piece,
                            piece_at(piece, new_pos),
                            new_pos,
                        );
                    }
                    self.active_piece = Some(PieceInstance { position: new_pos, ..piece });
                }
                can_place
            },
        }
    }

    /// Player-induced clockwise rotation with revert-on-failure: the
    /// rotated piece is kept exactly when it rests legally at the same
    /// position; otherwise the rotation index and the position are exactly
    /// what they were before the attempt.
    pub fn rotate_active_piece(&mut self)
        requires
            old(self).wf(),
        ensures
            final(self).wf(),
            final(self).board == old(self).board,
            final(self).id == old(self).id,
            final(self).color == old(self).color,
            final(self).game_state == old(self).game_state,
            final(self).prev_game_state == old(self).prev_game_state,
            final(self).pause_state == old(self).pause_state,
            final(self).gravity_interval == old(self).gravity_interval,
            final(self).gravity_timer == old(self).gravity_timer,
            final(self).lock_delay == old(self).lock_delay,
            final(self).lock_timer == old(self).lock_timer,
            match old(self).active_piece {
                None => *final(self) == *old(self),
                Some(p) => {
                    let rp = spec_rotated_cw(p);
                    &&& (old(self).board.place_ok(rp, p.position) ==> final(self).active_piece
                        == Some(rp))
                    &&& (!old(self).board.place_ok(rp, p.position) ==> final(self).active_piece
                        == Some(p))
                },
            },
    {
        match self.active_piece {
            None => {},
            Some(piece) => {
                let mut rotated = piece;
                rotated.rotate(RotationDirection::Cw);
                let result = self.board.try_place(&rotated, rotated.position);
                match result {
                    PlaceResult::PlaceOk => {
                        self.active_piece = Some(rotated);
                    },
                    _ => {
                        // revert: the stored piece keeps its old rotation
                        // index and position
                    },
                }
            },
        }
    }

    /// Player-induced hard drop: move the active piece to the computed
    /// drop position and force the phase to `Locking`. When the piece
    /// cannot rest at the computed position (it sits below an overhang),
    /// nothing changes.
    pub fn hard_drop(&mut self)
        requires
            old(self).wf(),
            old(self).game_state != GameState::Paused,
        ensures
            final(self).wf(),
            final(self).board == old(self).board,
            final(self).id == old(self).id,
            final(self).color == old(self).color,
            final(self).prev_game_state == old(self).prev_game_state,
            final(self).pause_state == old(self).pause_state,
            final(self).gravity_interval == old(self).gravity_interval,
            final(self).gravity_timer == old(self).gravity_timer,
            final(self).lock_delay == old(self).lock_delay,
            final(self).lock_timer == old(self).lock_timer,
            match old(self).active_piece {
                None => *final(self) == *old(self),
                Some(p) => {
                    let dp = BoardPosition {
                        x: p.position.x,
                        y: old(self).board.drop_y(p) as isize,
                    };
                    &&& (old(self).board.place_ok(p, dp) ==> final(self).active_piece == Some(
                        piece_at(p, dp),
                    ) && final(self).game_state == GameState::Locking)
                    &&& (!old(self).board.place_ok(p, dp) ==> *final(self) == *old(self))
                },
            },
    {
        match self.active_piece {
            None => {},
            Some(piece) => {
                let drop_pos = self.board.get_drop_location(&piece);
                if self.move_active_piece(drop_pos) {
                    self.game_state = GameState::Locking;
                }
            },
        }
    }

    /// Toggle the pause: entering remembers the phase and snapshots both
    /// timers; leaving restores the remembered phase and both timers
    /// exactly as snapshotted, so no time is lost or gained across a
    /// pause.
    pub fn handle_pause(&mut self)
        requires
            old(self).wf(),
            old(self).game_state != GameState::GameOver,
        ensures
            final(self).wf(),
            *final(self) == spec_toggle_pause(*old(self)),
    {
        if match self.game_state {
            GameState::Paused => true,
            _ => false,
        } {
            self.game_state = match self.prev_game_state.take() {
                Some(pg) => pg,
                None => GameState::Ready,
            };
            if let Some(ps) = self.pause_state.take() {
                self.gravity_timer = ps.gravity_timer;
                self.lock_timer = ps.lock_timer;
            }
        } else {
            self.prev_game_state = Some(self.game_state);
            self.pause_state = Some(
                PauseState { gravity_timer: self.gravity_timer, lock_timer: self.lock_timer },
            );
            self.game_state = GameState::Paused;
        }
    }

    /// Apply one player action while a piece is active. Moves and the
    /// rotation act on the piece and never change the phase; a hard drop
    /// forces `Locking`; the pause action enters the paused phase.
    pub fn handle_input(&mut self, input: PlayerInput)
        requires
            old(self).wf(),
            piece_state(old(self).game_state),
        ensures
            final(self).wf(),
            final(self).board == old(self).board,
            final(self).id == old(self).id,
            final(self).color == old(self).color,
            final(self).gravity_interval == old(self).gravity_interval,
            final(self).gravity_timer == old(self).gravity_timer,
            final(self).lock_delay == old(self).lock_delay,
            final(self).lock_timer == old(self).lock_timer,
            match input {
                PlayerInput::L | PlayerInput::R => final(self).game_state == old(self).game_state
                    && final(self).prev_game_state == old(self).prev_game_state && final(self).pause_state == old(self).pause_state && match old(self).active_piece {
                    None => *final(self) == *old(self),
                    Some(p) => {
                        let np = if (input matches PlayerInput::L) {
                            (BoardPosition { x: (p.position.x - 1) as isize, y: p.position.y })
                        } else {
                            (BoardPosition { x: (p.position.x + 1) as isize, y: p.position.y })
                        };
                        if old(self).board.place_ok(p, np) {
                            final(self).active_piece == Some(piece_at(p, np))
                        } else {
                            final(self).active_piece == old(self).active_piece
                        }
                    },
                },
                PlayerInput::Rotate => final(self).game_state == old(self).game_state && match old(self).active_piece {
                    None => *final(self) == *old(self),
                    Some(p) => {
                        let rp = spec_rotated_cw(p);
                        if old(self).board.place_ok(rp, p.position) {
                            final(self).active_piece == Some(rp)
                        } else {
                            final(self).active_piece == Some(p)
                        }
                    },
                },
                PlayerInput::HardDrop => (final(self).game_state == old(self).game_state || final(self).game_state == GameState::Locking),
                PlayerInput::Pause => *final(self) == spec_toggle_pause(*old(self)),
            },
    {
        match input {
            PlayerInput::L => {
                match self.active_piece {
                    None => {},
                    Some(piece) => {
                        proof {
                            lemma_catalog_ok(piece.typ, piece.rot_idx as int);
                            assert(self.board.in_bounds(
                                piece.position.x + piece.spec_cells()[0].0,
                                piece.position.y + piece.spec_cells()[0].1,
                            ));
                        }
                        let new_pos = BoardPosition {
                            x: piece.position.x - 1,
                            y: piece.position.y,
                        };
                        self.move_active_piece(new_pos);
                    },
                }
            },
            PlayerInput::R => {
                match self.active_piece {
                    None => {},
                    Some(piece) => {
                        proof {
                            lemma_catalog_ok(piece.typ, piece.rot_idx as int);
                            assert(self.board.in_bounds(
                                piece.position.x + piece.spec_cells()[0].0,
                                piece.position.y + piece.spec_cells()[0].1,
                            ));
                            lemma_wf_dims(self.board);
                        }
                        let new_pos = BoardPosition {
                            x: piece.position.x + 1,
                            y: piece.position.y,
                        };
                        self.move_active_piece(new_pos);
                    },
                }
            },
            PlayerInput::Rotate => {
                self.rotate_active_piece();
            },
            PlayerInput::HardDrop => {
                self.hard_drop();
            },
            PlayerInput::Pause => {
                self.handle_pause();
            },
        }
    }

    /// Advance the state machine by one tick: `dt` elapsed time units, an
    /// optional player action, and the random draw used if a spawn
    /// happens this tick.
    ///
    /// `Ready` spawns (or tops out to `GameOver`); `Falling` applies the
    /// action and timed gravity, grounding into `Locking` when the piece
    /// cannot fall; `Locking` applies the action, lets the piece resume
    /// falling if space opened below, and otherwise commits after the
    /// lock delay, clears the completed rows and returns to `Ready`;
    /// `GameOver` is terminal; `Paused` reacts only to the pause action
    /// and lets no time pass.
    pub fn update(&mut self, dt: u32, input: Option<PlayerInput>, rand: u64)
        requires
            old(self).wf(),
        ensures
            final(self).wf(),
            final(self).board.width == old(self).board.width,
            final(self).board.height == old(self).board.height,
            final(self).id == old(self).id,
            final(self).color == old(self).color,
            final(self).gravity_interval == old(self).gravity_interval,
            final(self).lock_delay == old(self).lock_delay,
            match old(self).game_state {
                GameState::GameOver => *final(self) == *old(self),
                GameState::Ready => ({
                    let sp = spec_spawn_piece(old(self).board, rand, old(self).color);
                    &&& final(self).board == old(self).board
                    &&& final(self).gravity_timer == old(self).gravity_timer
                    &&& final(self).lock_timer == old(self).lock_timer
                    &&& (old(self).board.place_ok(sp, sp.position) ==> final(self).game_state
                        == GameState::Falling && final(self).active_piece == Some(sp))
                    &&& (!old(self).board.place_ok(sp, sp.position) ==> final(self).game_state
                        == GameState::GameOver && final(self).active_piece matches None)
                }),
                GameState::Paused => match input {
                    Some(PlayerInput::Pause) => *final(self) == spec_toggle_pause(*old(self)),
                    _ => *final(self) == *old(self),
                },
                GameState::Falling => final(self).board == old(self).board && (final(self).game_state == GameState::Falling || final(self).game_state == GameState::Locking
                    || final(self).game_state == GameState::Paused) && ((input matches None)
                    ==> ({
                    let total = old(self).gravity_timer + dt;
                    &&& (total < old(self).gravity_interval ==> *final(self) == (BoardInstance {
                        gravity_timer: total as u32,
                        ..*old(self)
                    }))
                    &&& (total >= old(self).gravity_interval ==> match old(self).active_piece {
                        Some(p) => {
                            let down = (BoardPosition {
                                x: p.position.x,
                                y: (p.position.y - 1) as isize,
                            });
                            if old(self).board.place_ok(p, down) {
                                *final(self) == (BoardInstance {
                                    gravity_timer: 0u32,
                                    active_piece: Some(piece_at(p, down)),
                                    ..*old(self)
                                })
                            } else {
                                *final(self) == (BoardInstance {
                                    gravity_timer: 0u32,
                                    game_state: GameState::Locking,
                                    ..*old(self)
                                })
                            }
                        },
                        None => false,
                    })
                })),
                GameState::Locking => (final(self).game_state == GameState::Falling || final(self).game_state == GameState::Locking || final(self).game_state == GameState::Paused
                    || final(self).game_state == GameState::Ready) && (final(self).game_state
                    == GameState::Ready ==> final(self).active_piece matches None) && (final(self).game_state != GameState::Ready ==> final(self).board == old(self).board) && ((input matches None)
                    ==> match old(self).active_piece {
                    Some(p) => {
                        let down = (BoardPosition {
                            x: p.position.x,
                            y: (p.position.y - 1) as isize,
                        });
                        let total = old(self).lock_timer + dt;
                        &&& (old(self).board.place_ok(p, down) ==> *final(self) == (BoardInstance {
                            active_piece: Some(piece_at(p, down)),
                            gravity_timer: 0u32,
                            lock_timer: 0u32,
                            game_state: GameState::Falling,
                            ..*old(self)
                        }))
                        &&& (!old(self).board.place_ok(p, down) && total < old(self).lock_delay
                            ==> *final(self) == (BoardInstance {
                            lock_timer: total as u32,
                            ..*old(self)
                        }))
                        &&& (!old(self).board.place_ok(p, down) && total >= old(self).lock_delay
                            ==> final(self).game_state == GameState::Ready && final(self).lock_timer
                            == 0 && final(self).gravity_timer == old(self).gravity_timer)
                    },
                    None => false,
                }),
            },
    {
        match self.game_state {
            GameState::Ready => {
                if self.spawn_new_piece(rand) {
                    self.game_state = GameState::Falling;
                } else {
                    self.game_state = GameState::GameOver;
                }
            },
            GameState::Falling => {
                if let Some(inp) = input {
                    self.handle_input(inp);
                }
                // a pause or a hard drop in the action leaves the falling
                // phase; time then no longer applies this tick
                if match self.game_state {
                    GameState::Falling => true,
                    _ => false,
                } {
                    let total = self.gravity_timer as u64 + dt as u64;
                    if total >= self.gravity_interval as u64 {
                        self.gravity_timer = 0;
                        if !self.apply_gravity() {
                            self.game_state = GameState::Locking;
                        }
                    } else {
                        self.gravity_timer = total as u32;
                    }
                }
            },
            GameState::Locking => {
                if let Some(inp) = input {
                    self.handle_input(inp);
                }
                if match self.game_state {
                    GameState::Locking => true,
                    _ => false,
                } {
                    // a lateral move or rotation during the grace window
                    // can re-expose space below: resume falling
                    if self.apply_gravity() {
                        self.lock_timer = 0;
                        self.gravity_timer = 0;
                        self.game_state = GameState::Falling;
                    } else {
                        let total = self.lock_timer as u64 + dt as u64;
                        if total >= self.lock_delay as u64 {
                            self.lock_timer = 0;
                            match self.commit_piece() {
                                Some(rows) => {
                                    self.clear_lines(rows);
                                },
                                None => {},
                            }
                            self.game_state = GameState::Ready;
                        } else {
                            self.lock_timer = total as u32;
                        }
                    }
                }
            },
            GameState::GameOver => {},
            GameState::Paused => {
                if let Some(inp) = input {
                    match inp {
                        PlayerInput::Pause => {
                            self.handle_pause();
                        },
                        _ => {},
                    }
                }
            },
        }
    }
}

} // verus!
