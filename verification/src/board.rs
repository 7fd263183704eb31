//! The board grid model: cell occupancy in a row-major boolean grid, the
//! per-row fill counts and per-column top heights derived from it,
//! collision testing, piece commit, drop-height computation and row
//! clearing.

use vstd::prelude::*;

use crate::geometry::{lemma_catalog_ok, spec_max_x, spec_skirt};
use crate::piece::{BoardPosition, PieceInstance};

verus! {

/// Outcome of a placement test or of filling one cell.
#[derive(PartialEq, Eq, Structural, Clone, Copy, Debug)]
pub enum PlaceResult {
    PlaceOk,
    RowFilled,
    OutOfBounds,
    PlaceBad,
}

/// The grid state behind a board: occupancy plus the two derived
/// aggregates. The arrays are reachable only through the board's own
/// operations.
#[derive(Debug, Clone)]
pub struct BoardState {
    grid: Vec<bool>,
    row_score: Vec<isize>,
    col_score: Vec<isize>,
}

/// A rectangular cell grid with per-row fill counts and per-column top
/// heights. Rows are counted from the bottom: row `0` is the floor.
#[derive(Debug, Clone)]
pub struct Board {
    pub width: isize,
    pub height: isize,
    pub state: BoardState,
}

/// One of the first `n` cells of the piece placed at `pos` is the absolute
/// cell `(x, y)`.
pub open spec fn piece_covers_upto(
    p: PieceInstance,
    pos: BoardPosition,
    x: int,
    y: int,
    n: int,
) -> bool {
    exists|i: int|
        0 <= i < n && pos.x + (#[trigger] p.spec_cells()[i]).0 == x && pos.y + p.spec_cells()[i].1
            == y
}

/// The piece placed with its origin at `pos` covers the absolute cell
/// `(x, y)`.
pub open spec fn piece_covers(p: PieceInstance, pos: BoardPosition, x: int, y: int) -> bool {
    piece_covers_upto(p, pos, x, y, p.spec_cells().len() as int)
}

/// One of the first `n` cells of the piece placed at `pos` lies in row `y`.
pub open spec fn piece_touches_row_upto(
    p: PieceInstance,
    pos: BoardPosition,
    y: int,
    n: int,
) -> bool {
    exists|i: int| 0 <= i < n && pos.y + (#[trigger] p.spec_cells()[i]).1 == y
}

/// The piece placed with its origin at `pos` has a cell in row `y`.
pub open spec fn piece_touches_row(p: PieceInstance, pos: BoardPosition, y: int) -> bool {
    piece_touches_row_upto(p, pos, y, p.spec_cells().len() as int)
}

impl Board {
    /// The coordinate lies on the grid.
    pub open spec fn in_bounds(self, x: int, y: int) -> bool {
        0 <= x < self.width && 0 <= y < self.height
    }

    /// The cell at `(x, y)` is filled; out-of-range coordinates read as
    /// empty.
    pub closed spec fn cell(self, x: int, y: int) -> bool {
        self.in_bounds(x, y) && self.state.grid@[y * self.width + x]
    }

    /// The stored fill count of row `y`.
    pub closed spec fn row_score_spec(self, y: int) -> int {
        self.state.row_score@[y] as int
    }

    /// The stored top height of column `x`: one past the highest filled
    /// cell, zero for an empty column.
    pub closed spec fn col_score_spec(self, x: int) -> int {
        self.state.col_score@[x] as int
    }

    /// Number of filled cells of row `y` among columns `0 <= x < n`.
    pub open spec fn row_count_upto(self, y: int, n: int) -> int
        decreases n,
    {
        if n <= 0 {
            0
        } else {
            self.row_count_upto(y, n - 1) + if self.cell(n - 1, y) {
                1int
            } else {
                0int
            }
        }
    }

    /// Number of filled cells of row `y`.
    pub open spec fn row_count(self, y: int) -> int {
        self.row_count_upto(y, self.width as int)
    }

    /// Every cell of row `y` is filled.
    pub open spec fn row_full(self, y: int) -> bool {
        forall|x: int| 0 <= x < self.width ==> self.cell(x, y)
    }

    /// `t` is the top height of column `x` on the grid: nothing is filled
    /// at or above `t`, and the cell just below it is filled unless the
    /// column is empty.
    pub open spec fn col_entry_ok(self, x: int, t: int) -> bool {
        &&& 0 <= t <= self.height
        &&& forall|y: int| t <= y < self.height ==> !self.cell(x, y)
        &&& t > 0 ==> self.cell(x, t - 1)
    }

    /// The stored top height of column `x` is consistent with the grid.
    pub open spec fn col_top_ok(self, x: int) -> bool {
        self.col_entry_ok(x, self.col_score_spec(x))
    }

    /// The board is well formed: positive dimensions whose product fits
    /// the index type, arrays of the right lengths, and both aggregates
    /// consistent with the grid.
    pub closed spec fn wf(self) -> bool {
        &&& 0 < self.width
        &&& 0 < self.height
        &&& self.width * self.height <= isize::MAX
        &&& self.state.grid@.len() == self.width * self.height
        &&& self.state.row_score@.len() == self.height
        &&& self.state.col_score@.len() == self.width
        &&& forall|y: int| 0 <= y < self.height ==> self.row_score_spec(y) == self.row_count(y)
        &&& forall|x: int| 0 <= x < self.width ==> self.col_top_ok(x)
    }

    /// Every absolute cell of the piece placed at `pos` lies on the grid.
    pub open spec fn all_in_bounds(self, p: PieceInstance, pos: BoardPosition) -> bool {
        forall|i: int|
            0 <= i < p.spec_cells().len() ==> self.in_bounds(
                pos.x + (#[trigger] p.spec_cells()[i]).0,
                pos.y + p.spec_cells()[i].1,
            )
    }

    /// Some absolute cell of the piece placed at `pos` is already filled.
    pub open spec fn any_overlap(self, p: PieceInstance, pos: BoardPosition) -> bool {
        exists|i: int|
            0 <= i < p.spec_cells().len() && self.cell(
                pos.x + (#[trigger] p.spec_cells()[i]).0,
                pos.y + p.spec_cells()[i].1,
            )
    }

    /// The piece may rest at `pos`: all cells on the grid and none of them
    /// already filled.
    pub open spec fn place_ok(self, p: PieceInstance, pos: BoardPosition) -> bool {
        self.all_in_bounds(p, pos) && !self.any_overlap(p, pos)
    }
}

/// Row-major indices are in range: `y * w + x` lies below `w * h`.
proof fn lemma_idx_bounds(w: int, h: int, x: int, y: int)
    requires
        0 < w,
        0 < h,
        0 <= x < w,
        0 <= y < h,
    ensures
        0 <= y * w + x < w * h,
{
    assert(0 <= y * w + x < w * h) by (nonlinear_arith)
        requires
            0 < w,
            0 < h,
            0 <= x < w,
            0 <= y < h,
    ;
}

/// Row-major indexing is injective on in-range coordinates.
proof fn lemma_idx_injective(w: int, x1: int, y1: int, x2: int, y2: int)
    requires
        0 < w,
        0 <= x1 < w,
        0 <= x2 < w,
        0 <= y1,
        0 <= y2,
        y1 * w + x1 == y2 * w + x2,
    ensures
        x1 == x2,
        y1 == y2,
{
    assert(x1 == x2 && y1 == y2) by (nonlinear_arith)
        requires
            0 < w,
            0 <= x1 < w,
            0 <= x2 < w,
            0 <= y1,
            0 <= y2,
            y1 * w + x1 == y2 * w + x2,
    ;
}

/// A partial row count is between zero and the number of columns counted.
proof fn lemma_row_count_bounds(b: Board, y: int, n: int)
    requires
        n >= 0,
    ensures
        0 <= b.row_count_upto(y, n) <= n,
    decreases n,
{
    if n > 0 {
        lemma_row_count_bounds(b, y, n - 1);
    }
}

/// Rows that agree cell-for-cell on a prefix have the same partial count
/// there, also across two boards.
proof fn lemma_row_count_congruence(a: Board, ya: int, b: Board, yb: int, n: int)
    requires
        forall|x: int| 0 <= x < n ==> a.cell(x, ya) == b.cell(x, yb),
    ensures
        a.row_count_upto(ya, n) == b.row_count_upto(yb, n),
    decreases n,
{
    if n > 0 {
        lemma_row_count_congruence(a, ya, b, yb, n - 1);
    }
}

/// Filling one previously empty cell raises the count of its row by one
/// and leaves every other row's count unchanged.
proof fn lemma_row_count_update(a: Board, b: Board, x0: int, y0: int, y: int, n: int)
    requires
        !a.cell(x0, y0),
        b.cell(x0, y0),
        forall|x: int, yy: int| !(x == x0 && yy == y0) ==> a.cell(x, yy) == #[trigger] b.cell(x, yy),
    ensures
        b.row_count_upto(y, n) == a.row_count_upto(y, n) + if y == y0 && 0 <= x0 < n {
            1int
        } else {
            0int
        },
    decreases n,
{
    if n > 0 {
        lemma_row_count_update(a, b, x0, y0, y, n - 1);
    }
}

/// A full prefix of a row has count `n`, and conversely.
proof fn lemma_row_count_full(b: Board, y: int, n: int)
    requires
        n >= 0,
    ensures
        b.row_count_upto(y, n) == n <==> (forall|x: int| 0 <= x < n ==> b.cell(x, y)),
    decreases n,
{
    if n > 0 {
        lemma_row_count_full(b, y, n - 1);
        lemma_row_count_bounds(b, y, n - 1);
    }
}

/// A row is full exactly when its stored count equals the board width.
proof fn lemma_row_full_iff(b: Board, y: int)
    requires
        b.wf(),
        0 <= y < b.height,
    ensures
        b.row_full(y) <==> b.row_score_spec(y) == b.width,
{
    lemma_row_count_full(b, y, b.width as int);
    if b.row_count_upto(y, b.width as int) == b.width {
        assert(forall|x: int| 0 <= x < b.width ==> b.cell(x, y));
    }
    if b.row_full(y) {
        assert(forall|x: int| 0 <= x < b.width as int ==> b.cell(x, y));
    }
}

/// An all-empty prefix of a row has count zero.
proof fn lemma_row_count_empty(b: Board, y: int, n: int)
    requires
        forall|x: int| 0 <= x < n ==> !b.cell(x, y),
    ensures
        b.row_count_upto(y, n) == 0,
    decreases n,
{
    if n > 0 {
        lemma_row_count_empty(b, y, n - 1);
    }
}

/// A vector of `n` copies of `false`.
fn repeat_false(n: usize) -> (r: Vec<bool>)
    ensures
        r@.len() == n,
        forall|i: int| 0 <= i < n ==> !r@[i],
{
    let mut v: Vec<bool> = Vec::new();
    let mut i: usize = 0;
    while i < n
        invariant
            i <= n,
            v@.len() == i,
            forall|j: int| 0 <= j < i ==> !v@[j],
        decreases n - i,
    {
        v.push(false);
        i += 1;
    }
    v
}

/// A vector of `n` zero scores.
fn repeat_zero(n: usize) -> (r: Vec<isize>)
    ensures
        r@.len() == n,
        forall|i: int| 0 <= i < n ==> r@[i] == 0isize,
{
    let mut v: Vec<isize> = Vec::new();
    let mut i: usize = 0;
    while i < n
        invariant
            i <= n,
            v@.len() == i,
            forall|j: int| 0 <= j < i ==> v@[j] == 0isize,
        decreases n - i,
    {
        v.push(0);
        i += 1;
    }
    v
}

impl BoardState {
    /// The all-empty grid state for a board of the given dimensions:
    /// every cell clear and both aggregates zero, stated through the
    /// board the state is meant to back.
    pub fn new(width: usize, height: usize) -> (r: BoardState)
        requires
            0 < width,
            0 < height,
            width * height <= isize::MAX,
        ensures
            ({
                let b = (Board {
                    width: width as isize,
                    height: height as isize,
                    state: r,
                });
                &&& b.wf()
                &&& forall|x: int, y: int| !b.cell(x, y)
                &&& forall|y: int| 0 <= y < height ==> b.row_score_spec(y) == 0
                &&& forall|x: int| 0 <= x < width ==> b.col_score_spec(x) == 0
            }),
    {
        proof {
            assert(width <= isize::MAX && height <= isize::MAX) by (nonlinear_arith)
                requires
                    0 < width,
                    0 < height,
                    width * height <= isize::MAX,
            ;
        }
        let state = BoardState {
            grid: repeat_false(width * height),
            row_score: repeat_zero(height),
            col_score: repeat_zero(width),
        };
        proof {
            let b = (Board { width: width as isize, height: height as isize, state });
            assert forall|x: int, y: int| !b.cell(x, y) by {
                if b.in_bounds(x, y) {
                    lemma_idx_bounds(b.width as int, b.height as int, x, y);
                }
            }
            assert forall|y: int| 0 <= y < b.height implies b.row_score_spec(y) == b.row_count(
                y,
            ) by {
                lemma_row_count_empty(b, y, b.width as int);
            }
        }
        state
    }
}

impl Board {
    /// A new, empty board of the given dimensions.
    pub fn new(width: usize, height: usize) -> (r: Board)
        requires
            0 < width,
            0 < height,
            width * height <= isize::MAX,
        ensures
            r.wf(),
            r.width == width as isize,
            r.height == height as isize,
            forall|x: int, y: int| !r.cell(x, y),
            forall|y: int| 0 <= y < height ==> r.row_score_spec(y) == 0,
            forall|x: int| 0 <= x < width ==> r.col_score_spec(x) == 0,
    {
        proof {
            assert(width <= isize::MAX && height <= isize::MAX) by (nonlinear_arith)
                requires
                    0 < width,
                    0 < height,
                    width * height <= isize::MAX,
            ;
        }
        Board {
            width: width as isize,
            height: height as isize,
            state: BoardState::new(width, height),
        }
    }

    /// The midpoint column of the board, rounded down.
    pub fn mid_x(&self) -> (r: isize)
        requires
            self.wf(),
        ensures
            r == self.width / 2,
    {
        self.width / 2
    }

    /// Bounds-checked occupancy query; out-of-range coordinates read as
    /// empty rather than failing, since callers use this to observe the
    /// grid.
    pub fn is_cell_filled(&self, pos: BoardPosition) -> (r: bool)
        requires
            self.wf(),
        ensures
            r == self.cell(pos.x as int, pos.y as int),
    {
        if pos.x < 0 || pos.y < 0 || pos.x >= self.width || pos.y >= self.height {
            return false;
        }
        proof {
            lemma_idx_bounds(self.width as int, self.height as int, pos.x as int, pos.y as int);
        }
        let k = (pos.y * self.width + pos.x) as usize;
        self.state.grid[k]
    }

    /// The fill count of row `row`, or nothing when the index is off the
    /// grid.
    pub fn row_score(&self, row: isize) -> (r: Option<isize>)
        requires
            self.wf(),
        ensures
            match r {
                Some(v) => 0 <= row < self.height && v == self.row_score_spec(row as int),
                None => !(0 <= row < self.height),
            },
    {
        if row >= self.height || row < 0 {
            return None;
        }
        Some(self.state.row_score[row as usize])
    }

    /// The top height of column `col`, or nothing when the index is off
    /// the grid.
    pub fn col_score(&self, col: isize) -> (r: Option<isize>)
        requires
            self.wf(),
        ensures
            match r {
                Some(v) => 0 <= col < self.width && v == self.col_score_spec(col as int),
                None => !(0 <= col < self.width),
            },
    {
        if col >= self.width || col < 0 {
            return None;
        }
        Some(self.state.col_score[col as usize])
    }

    /// All column top heights, left to right.
    pub fn col_score_all(&self) -> (r: &Vec<isize>)
        requires
            self.wf(),
        ensures
            r@.len() == self.width,
            forall|x: int| 0 <= x < self.width ==> r@[x] == self.col_score_spec(x),
    {
        &self.state.col_score
    }

    /// Tests whether the piece may be placed with its origin at
    /// `board_pos`. Bounds are checked for every cell before any occupancy
    /// is consulted, so an off-grid placement reports `OutOfBounds` even
    /// when some other cell is blocked. Pure query; the board is not
    /// changed.
    pub fn try_place(&self, piece: &PieceInstance, board_pos: BoardPosition) -> (r: PlaceResult)
        requires
            self.wf(),
            piece.wf(),
        ensures
            (r == PlaceResult::OutOfBounds) <==> !self.all_in_bounds(*piece, board_pos),
            (r == PlaceResult::PlaceBad) <==> (self.all_in_bounds(*piece, board_pos)
                && self.any_overlap(*piece, board_pos)),
            (r == PlaceResult::PlaceOk) <==> self.place_ok(*piece, board_pos),
    {
        proof {
            lemma_catalog_ok(piece.typ, piece.rot_idx as int);
        }
        let cells = piece.cells();
        let mut i: usize = 0;
        while i < cells.len()
            invariant
                self.wf(),
                piece.wf(),
                cells@ == piece.spec_cells(),
                crate::geometry::catalog_ok(piece.typ, piece.rot_idx as int),
                i <= cells@.len(),
                forall|j: int|
                    0 <= j < i ==> self.in_bounds(
                        board_pos.x + (#[trigger] piece.spec_cells()[j]).0,
                        board_pos.y + piece.spec_cells()[j].1,
                    ),
            decreases cells@.len() - i,
        {
            let (dx, dy) = cells[i];
            if board_pos.x < 0 - dx || board_pos.x >= self.width - dx || board_pos.y < 0 - dy
                || board_pos.y >= self.height - dy {
                return PlaceResult::OutOfBounds;
            }
            i += 1;
        }
        let mut i: usize = 0;
        while i < cells.len()
            invariant
                self.wf(),
                piece.wf(),
                cells@ == piece.spec_cells(),
                crate::geometry::catalog_ok(piece.typ, piece.rot_idx as int),
                i <= cells@.len(),
                self.all_in_bounds(*piece, board_pos),
                forall|j: int|
                    0 <= j < i ==> !self.cell(
                        board_pos.x + (#[trigger] piece.spec_cells()[j]).0,
                        board_pos.y + piece.spec_cells()[j].1,
                    ),
            decreases cells@.len() - i,
        {
            let (dx, dy) = cells[i];
            let ax = board_pos.x + dx;
            let ay = board_pos.y + dy;
            proof {
                lemma_idx_bounds(self.width as int, self.height as int, ax as int, ay as int);
            }
            let k = (ay * self.width + ax) as usize;
            if self.state.grid[k] {
                assert(self.cell(ax as int, ay as int));
                return PlaceResult::PlaceBad;
            }
            i += 1;
        }
        PlaceResult::PlaceOk
    }

    /// The largest support height among the first `n` spanned columns of
    /// the piece, floored at zero. A column off the grid imposes no
    /// constraint; an on-grid column demands that the piece's lowest cell
    /// there come to rest on the column's top.
    pub open spec fn support_upto(self, p: PieceInstance, n: int) -> int
        decreases n,
    {
        if n <= 0 {
            0
        } else {
            let m = self.support_upto(p, n - 1);
            let bx = p.position.x + n - 1;
            if 0 <= bx < self.width {
                let s = self.col_score_spec(bx) - spec_skirt(p.typ, p.rot_idx as int)[n - 1];
                if s > m {
                    s
                } else {
                    m
                }
            } else {
                m
            }
        }
    }

    /// The lowest legal row for the piece at its current column and
    /// rotation: the largest support over every column it spans, floored
    /// at zero.
    pub open spec fn drop_y(self, p: PieceInstance) -> int {
        self.support_upto(p, spec_max_x(p.typ, p.rot_idx as int) + 1)
    }

    /// Finds the lowest legal position for the piece in its current
    /// x-position: for each spanned column the piece's lowest cell must
    /// come to rest on the column's top (or the floor when the column is
    /// empty), and the piece rests at the largest such support, never
    /// below row zero.
    pub fn get_drop_location(&self, piece: &PieceInstance) -> (r: BoardPosition)
        requires
            self.wf(),
            piece.wf(),
        ensures
            r.x == piece.position.x,
            r.y == self.drop_y(*piece),
    {
        proof {
            lemma_catalog_ok(piece.typ, piece.rot_idx as int);
            lemma_wf_dims(*self);
        }
        let skirt = piece.typ.skirt(piece.rot_idx);
        let (min_dx, max_dx) = piece.typ.minmax_x(piece.rot_idx);
        let mut max_required_y: isize = 0;
        let mut c: isize = 0;
        while c <= max_dx
            invariant
                self.wf(),
                piece.wf(),
                crate::geometry::catalog_ok(piece.typ, piece.rot_idx as int),
                skirt@ == spec_skirt(piece.typ, piece.rot_idx as int),
                min_dx == 0,
                max_dx == spec_max_x(piece.typ, piece.rot_idx as int),
                0 <= c <= max_dx + 1,
                0 <= max_required_y,
                max_required_y == self.support_upto(*piece, c as int),
            decreases max_dx + 1 - c,
        {
            if piece.position.x >= min_dx - c && piece.position.x < self.width - c {
                let board_x = piece.position.x + min_dx + c;
                let skirt_val = skirt[c as usize];
                let col_score = self.state.col_score[board_x as usize];
                proof {
                    assert(self.col_top_ok(board_x as int));
                    assert(spec_skirt(piece.typ, piece.rot_idx as int)[c as int] >= 0
                        && piece.spec_cells()[c as int] == ((c as isize), skirt_val));
                    assert(0 <= (piece.spec_cells()[c as int]).1 <= 3);
                }
                let required_y = col_score - skirt_val;
                if required_y > max_required_y {
                    max_required_y = required_y;
                }
            }
            c += 1;
        }
        BoardPosition { x: piece.position.x, y: max_required_y }
    }

    /// Commits a pre-validated piece: marks every absolute cell of the
    /// piece filled, raises the fill count of each touched row, lifts the
    /// top height of each touched column, and returns the rows the commit
    /// completed — exactly the touched rows that are full afterwards, each
    /// listed once — or nothing when no row was completed. This is the
    /// sole mutator of grid occupancy.
    pub fn commit_piece(&mut self, piece: &PieceInstance) -> (r: Option<Vec<isize>>)
        requires
            old(self).wf(),
            piece.wf(),
            old(self).place_ok(*piece, piece.position),
        ensures
            final(self).wf(),
            final(self).width == old(self).width,
            final(self).height == old(self).height,
            forall|x: int, y: int|
                #[trigger] final(self).cell(x, y) == (old(self).cell(x, y) || piece_covers(
                    *piece,
                    piece.position,
                    x,
                    y,
                )),
            forall|x: int|
                0 <= x < old(self).width ==> final(self).col_score_spec(x)
                    >= old(self).col_score_spec(x),
            match r {
                None => forall|y: int|
                    piece_touches_row(*piece, piece.position, y) ==> !final(self).row_full(y),
                Some(v) => {
                    &&& v@.len() > 0
                    &&& forall|k: int|
                        0 <= k < v@.len() ==> piece_touches_row(
                            *piece,
                            piece.position,
                            (#[trigger] v@[k]) as int,
                        ) && final(self).row_full(v@[k] as int)
                    &&& forall|y: int|
                        piece_touches_row(*piece, piece.position, y) && final(self).row_full(y)
                            ==> exists|k: int| 0 <= k < v@.len() && (#[trigger] v@[k]) as int == y
                    &&& forall|k1: int, k2: int|
                        0 <= k1 < k2 < v@.len() ==> v@[k1] != v@[k2]
                },
            },
    {
        proof {
            lemma_catalog_ok(piece.typ, piece.rot_idx as int);
            lemma_wf_dims(*self);
        }
        let ghost orig = *self;
        let ghost pos = piece.position;
        let cells = piece.cells();
        let mut filled_rows: Vec<isize> = Vec::new();
        let mut i: usize = 0;
        while i < cells.len()
            invariant
                piece.wf(),
                cells@ == piece.spec_cells(),
                cells@.len() == 4,
                crate::geometry::catalog_ok(piece.typ, piece.rot_idx as int),
                pos == piece.position,
                i <= 4,
                orig.wf(),
                orig.place_ok(*piece, pos),
                self.width == orig.width,
                self.height == orig.height,
                self.state.grid@.len() == orig.state.grid@.len(),
                self.state.row_score@.len() == orig.state.row_score@.len(),
                self.state.col_score@.len() == orig.state.col_score@.len(),
                forall|x: int, y: int|
                    #[trigger] self.cell(x, y) == (orig.cell(x, y) || piece_covers_upto(
                        *piece,
                        pos,
                        x,
                        y,
                        i as int,
                    )),
                forall|y: int|
                    0 <= y < self.height ==> self.row_score_spec(y) == self.row_count(y),
                forall|x: int| 0 <= x < self.width ==> self.col_top_ok(x),
                forall|x: int|
                    0 <= x < self.width ==> self.col_score_spec(x) >= orig.col_score_spec(x),
                forall|k: int|
                    0 <= k < filled_rows@.len() ==> piece_touches_row_upto(
                        *piece,
                        pos,
                        (#[trigger] filled_rows@[k]) as int,
                        i as int,
                    ) && self.row_full(filled_rows@[k] as int),
                forall|y: int|
                    piece_touches_row_upto(*piece, pos, y, i as int) && self.row_full(y)
                        ==> exists|k: int|
                        0 <= k < filled_rows@.len() && (#[trigger] filled_rows@[k]) as int == y,
                forall|k1: int, k2: int|
                    0 <= k1 < k2 < filled_rows@.len() ==> filled_rows@[k1] != filled_rows@[k2],
            decreases cells@.len() - i,
        {
            let (dx, dy) = cells[i];
            let ax = piece.position.x + dx;
            let ay = piece.position.y + dy;
            let ghost w = self.width as int;
            let ghost h = self.height as int;
            proof {
                assert(self.in_bounds(ax as int, ay as int));
                lemma_idx_bounds(w, h, ax as int, ay as int);
                // the target cell is still empty: it was empty before the
                // commit began, and no earlier cell of the piece is the
                // same cell
                assert(!orig.cell(ax as int, ay as int));
                assert(!piece_covers_upto(*piece, pos, ax as int, ay as int, i as int)) by {
                    if piece_covers_upto(*piece, pos, ax as int, ay as int, i as int) {
                        let j = choose|j: int|
                            0 <= j < i && pos.x + (#[trigger] piece.spec_cells()[j]).0 == ax
                                && pos.y + piece.spec_cells()[j].1 == ay;
                        assert(piece.spec_cells()[j] == piece.spec_cells()[i as int]);
                    }
                }
                assert(!self.cell(ax as int, ay as int));
            }
            let ghost prev = *self;
            let k = (ay * self.width + ax) as usize;
            self.state.grid.set(k, true);
            proof {
                // the touched row was not full, so its count is below the
                // width and raising it cannot overflow
                lemma_row_count_bounds(prev, ay as int, w);
                lemma_row_count_full(prev, ay as int, w);
                assert(prev.row_score_spec(ay as int) < w);
            }
            let rs = self.state.row_score[ay as usize] + 1;
            self.state.row_score.set(ay as usize, rs);
            if ay >= self.state.col_score[ax as usize] {
                self.state.col_score.set(ax as usize, ay + 1);
            }
            proof {
                // pointwise effect of the single cell fill
                assert forall|x: int, y: int|
                    #[trigger] self.cell(x, y) == (prev.cell(x, y) || (x == ax as int && y
                        == ay as int)) by {
                    if self.in_bounds(x, y) {
                        lemma_idx_bounds(w, h, x, y);
                        if y * w + x == (ay as int) * w + ax as int {
                            lemma_idx_injective(w, x, y, ax as int, ay as int);
                        }
                    }
                }
                assert(self.cell(ax as int, ay as int));
                // row counts follow the fill
                assert(prev.row_count_upto(ay as int, w) < w) by {
                    lemma_row_count_bounds(prev, ay as int, w);
                    lemma_row_count_full(prev, ay as int, w);
                }
                assert forall|y: int|
                    0 <= y < self.height implies self.row_score_spec(y) == self.row_count(y) by {
                    lemma_row_count_update(prev, *self, ax as int, ay as int, y, w);
                    assert(prev.row_score_spec(y) == prev.row_count(y));
                    if y == ay as int {
                        assert(self.row_score_spec(y) == prev.row_score_spec(y) + 1);
                    } else {
                        assert(self.row_score_spec(y) == prev.row_score_spec(y));
                    }
                }
                // column tops stay consistent
                assert forall|x: int| 0 <= x < self.width implies self.col_top_ok(x) by {
                    if x != ax as int {
                        assert(forall|y: int| #[trigger] self.cell(x, y) == prev.cell(x, y));
                        assert(self.col_score_spec(x) == prev.col_score_spec(x));
                        assert(prev.col_top_ok(x));
                    } else {
                        let t0 = prev.col_score_spec(x);
                        assert(prev.col_top_ok(x));
                        if ay as int >= t0 {
                            assert(self.col_score_spec(x) == ay + 1);
                            assert forall|y: int|
                                ay + 1 <= y < self.height implies !self.cell(x, y) by {
                                assert(!prev.cell(x, y));
                            }
                            assert(self.cell(x, ay as int));
                        } else {
                            assert(self.col_score_spec(x) == t0);
                            assert forall|y: int| t0 <= y < self.height implies !self.cell(
                                x,
                                y,
                            ) by {
                                assert(!prev.cell(x, y));
                                assert(y != ay as int);
                            }
                            assert(self.cell(x, t0 - 1)) by {
                                assert(prev.cell(x, t0 - 1));
                            }
                        }
                    }
                }
                // the coverage relation now includes cell i
                assert forall|x: int, y: int|
                    #[trigger] self.cell(x, y) == (orig.cell(x, y) || piece_covers_upto(
                        *piece,
                        pos,
                        x,
                        y,
                        i + 1,
                    )) by {
                    if x == ax as int && y == ay as int {
                        assert(piece_covers_upto(*piece, pos, x, y, i + 1));
                    } else {
                        assert(piece_covers_upto(*piece, pos, x, y, i + 1) == piece_covers_upto(
                            *piece,
                            pos,
                            x,
                            y,
                            i as int,
                        )) by {
                            if piece_covers_upto(*piece, pos, x, y, i + 1) {
                                let j = choose|j: int|
                                    0 <= j < i + 1 && pos.x + (#[trigger] piece.spec_cells()[j]).0
                                        == x && pos.y + piece.spec_cells()[j].1 == y;
                                assert(j != i);
                                assert(piece_covers_upto(*piece, pos, x, y, i as int));
                            }
                        }
                    }
                }
                // rows already collected are still full
                assert forall|k2: int|
                    0 <= k2 < filled_rows@.len() implies self.row_full(
                        filled_rows@[k2] as int,
                    ) by {
                    assert(prev.row_full(filled_rows@[k2] as int));
                }
                // a row completes exactly when its new count reaches the
                // width
                lemma_row_count_full(*self, ay as int, w);
                assert(self.row_score_spec(ay as int) == rs as int);
                assert(self.row_score_spec(ay as int) == self.row_count(ay as int));
                if self.row_count_upto(ay as int, w) == w {
                    assert(forall|x: int| 0 <= x < w ==> self.cell(x, ay as int));
                    assert(self.row_full(ay as int));
                }
                if self.row_full(ay as int) {
                    assert(forall|x: int| 0 <= x < w ==> self.cell(x, ay as int));
                    assert(self.row_count_upto(ay as int, w) == w);
                }
                assert(self.row_full(ay as int) <==> rs == self.width);
            }
            let ghost fr0 = filled_rows@;
            if rs == self.width {
                proof {
                    // the completed row cannot already be listed: listed
                    // rows were full before this fill, and this fill's
                    // target cell was empty
                    assert forall|k2: int|
                        0 <= k2 < filled_rows@.len() implies filled_rows@[k2] != ay by {
                        if filled_rows@[k2] == ay {
                            assert(prev.row_full(ay as int));
                            assert(prev.cell(ax as int, ay as int));
                        }
                    }
                }
                filled_rows.push(ay);
            }
            proof {
                assert forall|y: int|
                    piece_touches_row_upto(*piece, pos, y, i + 1) && self.row_full(y)
                        implies exists|k2: int|
                        0 <= k2 < filled_rows@.len() && (#[trigger] filled_rows@[k2]) as int
                            == y by {
                    if y == ay as int {
                        assert(rs == self.width);
                        assert(filled_rows@.len() > 0);
                        assert(filled_rows@[filled_rows@.len() - 1] == ay);
                        assert((filled_rows@[filled_rows@.len() - 1]) as int == y);
                    } else {
                        let j = choose|j: int|
                            0 <= j < i + 1 && pos.y + (#[trigger] piece.spec_cells()[j]).1 == y;
                        assert(j != i);
                        assert(piece_touches_row_upto(*piece, pos, y, i as int));
                        assert(prev.row_full(y)) by {
                            assert(forall|x: int|
                                0 <= x < prev.width ==> #[trigger] prev.cell(x, y) == self.cell(
                                    x,
                                    y,
                                ));
                        }
                        assert(exists|k2: int|
                            0 <= k2 < fr0.len() && (#[trigger] fr0[k2]) as int == y);
                        let k2 = choose|k2: int|
                            0 <= k2 < fr0.len() && (#[trigger] fr0[k2]) as int == y;
                        assert(filled_rows@[k2] == fr0[k2]);
                    }
                }
                assert forall|k2: int|
                    0 <= k2 < filled_rows@.len() implies piece_touches_row_upto(
                        *piece,
                        pos,
                        (#[trigger] filled_rows@[k2]) as int,
                        i + 1,
                    ) && self.row_full(filled_rows@[k2] as int) by {
                    if k2 < fr0.len() {
                        assert(filled_rows@[k2] == fr0[k2]);
                        assert(piece_touches_row_upto(*piece, pos, fr0[k2] as int, i as int));
                        let j = choose|j: int|
                            0 <= j < i && pos.y + (#[trigger] piece.spec_cells()[j]).1
                                == fr0[k2] as int;
                        assert(piece_touches_row_upto(*piece, pos, fr0[k2] as int, i + 1));
                    } else {
                        assert(filled_rows@[k2] == ay);
                        assert(pos.y + piece.spec_cells()[i as int].1 == ay as int);
                    }
                }
            }
            i += 1;
        }
        if filled_rows.len() == 0 {
            None
        } else {
            Some(filled_rows)
        }
    }
}

/// A partial support maximum is nonnegative and dominates the support of
/// every on-grid column it covers.
proof fn lemma_support_bounds(b: Board, p: PieceInstance, n: int)
    ensures
        b.support_upto(p, n) >= 0,
        forall|c: int|
            0 <= c < n && 0 <= p.position.x + c < b.width ==> b.support_upto(p, n)
                >= b.col_score_spec(p.position.x + c) - (#[trigger] spec_skirt(
                p.typ,
                p.rot_idx as int,
            )[c]),
    decreases n,
{
    if n > 0 {
        lemma_support_bounds(b, p, n - 1);
    }
}

/// A positive support maximum is attained by some on-grid column.
proof fn lemma_support_attained(b: Board, p: PieceInstance, n: int)
    requires
        b.support_upto(p, n) > 0,
    ensures
        exists|c: int|
            0 <= c < n && 0 <= p.position.x + c < b.width && b.support_upto(p, n)
                == b.col_score_spec(p.position.x + c) - (#[trigger] spec_skirt(
                p.typ,
                p.rot_idx as int,
            )[c]),
    decreases n,
{
    if n > 0 {
        let m = b.support_upto(p, n - 1);
        if b.support_upto(p, n) == m {
            lemma_support_attained(b, p, n - 1);
        } else {
            assert(0 <= p.position.x + n - 1 < b.width && b.support_upto(p, n)
                == b.col_score_spec(p.position.x + n - 1) - spec_skirt(p.typ, p.rot_idx as int)[n
                - 1]);
        }
    }
}

/// The drop computation agrees with iterated single-step gravity. From
/// any legal position at or above the drop height, the piece can rest at
/// every row down to and including the drop height — so one-row gravity
/// steps pass through each of them without sticking early — and it cannot
/// rest one row below the drop height. Together these say that repeated
/// gravity from the piece's position comes to rest exactly at the drop
/// height.
pub proof fn lemma_drop_equals_gravity(b: Board, p: PieceInstance)
    requires
        b.wf(),
        p.wf(),
        b.place_ok(p, p.position),
    ensures
        forall|y: int|
            b.drop_y(p) <= y <= p.position.y ==> #[trigger] b.place_ok(
                p,
                (BoardPosition { x: p.position.x, y: y as isize }),
            ),
        !b.place_ok(p, (BoardPosition { x: p.position.x, y: (b.drop_y(p) - 1) as isize })),
{
    let mx = spec_max_x(p.typ, p.rot_idx as int) as int;
    let d = b.drop_y(p);
    lemma_catalog_ok(p.typ, p.rot_idx as int);
    lemma_wf_dims(b);
    lemma_support_bounds(b, p, mx + 1);
    // every row from the drop height up to the current position is legal
    assert forall|y: int|
        d <= y <= p.position.y implies #[trigger] b.place_ok(
        p,
        (BoardPosition { x: p.position.x, y: y as isize }),
    ) by {
        let pos2 = BoardPosition { x: p.position.x, y: y as isize };
        assert forall|i: int| 0 <= i < p.spec_cells().len() implies b.in_bounds(
            pos2.x + (#[trigger] p.spec_cells()[i]).0,
            pos2.y + p.spec_cells()[i].1,
        ) && !b.cell(pos2.x + p.spec_cells()[i].0, pos2.y + p.spec_cells()[i].1) by {
            let dx = p.spec_cells()[i].0 as int;
            let dy = p.spec_cells()[i].1 as int;
            let bx = p.position.x + dx;
            assert(b.in_bounds(bx, p.position.y + dy));
            assert(spec_skirt(p.typ, p.rot_idx as int)[dx] <= dy);
            assert(d >= b.col_score_spec(bx) - spec_skirt(p.typ, p.rot_idx as int)[dx]);
            assert(y + dy >= b.col_score_spec(bx));
            assert(b.col_top_ok(bx));
            assert(!b.cell(bx, y + dy));
        }
        assert(!b.any_overlap(p, pos2)) by {
            if b.any_overlap(p, pos2) {
                let i = choose|i: int|
                    0 <= i < p.spec_cells().len() && b.cell(
                        pos2.x + (#[trigger] p.spec_cells()[i]).0,
                        pos2.y + p.spec_cells()[i].1,
                    );
                assert(false);
            }
        }
    }
    // one row below the drop height the piece cannot rest
    let pos3 = BoardPosition { x: p.position.x, y: (d - 1) as isize };
    if d == 0 {
        // some cell sits on the piece's bottom row, and one row below the
        // floor it would leave the grid
        let i = choose|i: int| 0 <= i < 4 && (#[trigger] p.spec_cells()[i]).1 == 0;
        if b.all_in_bounds(p, pos3) {
            assert(b.in_bounds(
                pos3.x + p.spec_cells()[i].0,
                pos3.y + p.spec_cells()[i].1,
            ));
            assert(false);
        }
    } else {
        // the attaining column's top cell blocks the skirt cell of that
        // column
        lemma_support_attained(b, p, mx + 1);
        let c = choose|c: int|
            0 <= c < mx + 1 && 0 <= p.position.x + c < b.width && b.support_upto(p, mx + 1)
                == b.col_score_spec(p.position.x + c) - (#[trigger] spec_skirt(
                p.typ,
                p.rot_idx as int,
            )[c]);
        let bx = p.position.x + c;
        let sk = spec_skirt(p.typ, p.rot_idx as int)[c] as int;
        let t = b.col_score_spec(bx);
        assert(t == d + sk);
        assert(sk >= 0 && p.spec_cells()[c] == ((c as isize), (sk as isize)));
        assert(t > 0);
        assert(b.col_top_ok(bx));
        assert(b.cell(bx, t - 1));
        if b.place_ok(p, pos3) {
            assert(!b.cell(pos3.x + p.spec_cells()[c].0, pos3.y + p.spec_cells()[c].1));
            assert(pos3.y + p.spec_cells()[c].1 == t - 1);
            assert(false);
        }
    }
}

/// A well-formed board's row counts equal its stored row scores, which
/// stay within the board width.
pub proof fn lemma_wf_row_score(b: Board, y: int)
    requires
        b.wf(),
        0 <= y < b.height,
    ensures
        b.row_score_spec(y) == b.row_count(y),
        0 <= b.row_score_spec(y) <= b.width,
        b.row_full(y) <==> b.row_score_spec(y) == b.width,
{
    lemma_row_count_bounds(b, y, b.width as int);
    lemma_row_full_iff(b, y);
}

/// A well-formed board's stored column top heights are exact: nothing is
/// filled at or above the stored height, and the cell just below it is
/// filled unless the column is empty.
pub proof fn lemma_wf_col_top(b: Board, x: int)
    requires
        b.wf(),
        0 <= x < b.width,
    ensures
        b.col_entry_ok(x, b.col_score_spec(x)),
{
    assert(b.col_top_ok(x));
}

/// The first `n` kept-row indices agree between boards that agree on
/// which rows are full.
proof fn lemma_kept_props(b: Board, n: int)
    requires
        n >= 0,
    ensures
        b.kept_rows_upto(n).len() <= n,
        forall|j: int|
            0 <= j < b.kept_rows_upto(n).len() ==> 0 <= #[trigger] b.kept_rows_upto(n)[j] < n
                && !b.row_full(b.kept_rows_upto(n)[j]),
    decreases n,
{
    if n > 0 {
        lemma_kept_props(b, n - 1);
    }
}

/// Multiplying out one more row of cells.
proof fn lemma_mul_succ(w: int, k: int)
    ensures
        w * (k + 1) == w * k + w,
{
    assert(w * (k + 1) == w * k + w) by (nonlinear_arith);
}

/// Multiplication commutes.
proof fn lemma_mul_comm(a: int, b: int)
    ensures
        a * b == b * a,
{
    assert(a * b == b * a) by (nonlinear_arith);
}

impl Board {
    /// The indices, bottom to top, of the rows below `n` that are not
    /// full.
    pub open spec fn kept_rows_upto(self, n: int) -> Seq<int>
        decreases n,
    {
        if n <= 0 {
            Seq::empty()
        } else {
            let s = self.kept_rows_upto(n - 1);
            if self.row_full(n - 1) {
                s
            } else {
                s.push(n - 1)
            }
        }
    }

    /// The indices, bottom to top, of the rows that are not full.
    pub open spec fn kept_rows(self) -> Seq<int> {
        self.kept_rows_upto(self.height as int)
    }

    /// Removes every full row: the rows that are not full slide to the
    /// bottom in their old order, the rows above them become empty, and
    /// both aggregates are rebuilt to match. Afterwards no row of the
    /// board is full.
    pub fn clear_filled_rows(&mut self)
        requires
            old(self).wf(),
        ensures
            final(self).wf(),
            final(self).width == old(self).width,
            final(self).height == old(self).height,
            old(self).kept_rows().len() <= old(self).height,
            forall|j: int, x: int|
                0 <= j < old(self).kept_rows().len() && 0 <= x < old(self).width
                    ==> #[trigger] final(self).cell(x, j) == old(self).cell(
                    x,
                    old(self).kept_rows()[j],
                ),
            forall|j: int, x: int|
                old(self).kept_rows().len() <= j < old(self).height
                    ==> !(#[trigger] final(self).cell(x, j)),
            forall|y: int| !final(self).row_full(y),
    {
        proof {
            lemma_wf_dims(*self);
            lemma_kept_props(*self, self.height as int);
        }
        let ghost orig = *self;
        let w = self.width;
        let h = self.height;
        let mut new_grid: Vec<bool> = Vec::new();
        let mut new_row_score: Vec<isize> = Vec::new();
        let mut y: isize = 0;
        while y < h
            invariant
                orig.wf(),
                *self == orig,
                w == orig.width,
                h == orig.height,
                0 <= y <= h,
                new_row_score@.len() == orig.kept_rows_upto(y as int).len(),
                new_grid@.len() == (w as int) * new_row_score@.len(),
                forall|j: int, x2: int|
                    0 <= j < new_row_score@.len() && 0 <= x2 < w ==> #[trigger] new_grid@[j * (
                    w as int) + x2] == orig.cell(x2, orig.kept_rows_upto(y as int)[j]),
                forall|j: int|
                    0 <= j < new_row_score@.len() ==> #[trigger] new_row_score@[j]
                        == orig.row_score_spec(orig.kept_rows_upto(y as int)[j]),
            decreases h - y,
        {
            proof {
                lemma_row_full_iff(orig, y as int);
            }
            if self.state.row_score[y as usize] != w {
                let ghost k0 = new_row_score@.len() as int;
                let mut x: isize = 0;
                while x < w
                    invariant
                        orig.wf(),
                        *self == orig,
                        w == orig.width,
                        h == orig.height,
                        0 <= y < h,
                        0 <= x <= w,
                        k0 == new_row_score@.len(),
                        new_grid@.len() == (w as int) * k0 + x,
                        forall|j: int, x2: int|
                            0 <= j < k0 && 0 <= x2 < w ==> #[trigger] new_grid@[j * (w as int) + x2]
                                == orig.cell(x2, orig.kept_rows_upto(y as int)[j]),
                        forall|x2: int|
                            0 <= x2 < x ==> #[trigger] new_grid@[k0 * (w as int) + x2] == orig.cell(
                                x2,
                                y as int,
                            ),
                    decreases w - x,
                {
                    proof {
                        lemma_idx_bounds(w as int, h as int, x as int, y as int);
                    }
                    let gbit = self.state.grid[(y * w + x) as usize];
                    let ghost gprev = new_grid@;
                    new_grid.push(gbit);
                    proof {
                        assert(new_grid@ == gprev.push(gbit));
                        assert(new_grid@[gprev.len() as int] == gbit);
                        lemma_mul_comm(k0, w as int);
                        assert(gprev.len() == k0 * (w as int) + x);
                        assert(gbit == orig.cell(x as int, y as int));
                        assert forall|j: int, x2: int|
                            0 <= j < k0 && 0 <= x2 < w implies #[trigger] new_grid@[j * (w as int)
                            + x2] == orig.cell(x2, orig.kept_rows_upto(y as int)[j]) by {
                            lemma_idx_bounds(w as int, k0, x2, j);
                            assert(new_grid@[j * (w as int) + x2] == gprev[j * (w as int) + x2]);
                        }
                        assert forall|x2: int|
                            0 <= x2 <= x implies #[trigger] new_grid@[k0 * (w as int) + x2]
                            == orig.cell(x2, y as int) by {
                            if x2 < x {
                                assert(new_grid@[k0 * (w as int) + x2] == gprev[k0 * (w as int)
                                    + x2]);
                            } else {
                                assert(x2 == x as int);
                            }
                        }
                    }
                    x += 1;
                }
                new_row_score.push(self.state.row_score[y as usize]);
                proof {
                    lemma_mul_succ(w as int, k0);
                    assert(orig.kept_rows_upto(y + 1) == orig.kept_rows_upto(y as int).push(
                        y as int,
                    ));
                    assert forall|j: int, x2: int|
                        0 <= j < new_row_score@.len() && 0 <= x2 < w implies #[trigger] new_grid@[j
                        * (w as int) + x2] == orig.cell(x2, orig.kept_rows_upto(y + 1)[j]) by {
                        lemma_idx_bounds(w as int, k0 + 1, x2, j);
                        if j < k0 {
                            assert(orig.kept_rows_upto(y + 1)[j] == orig.kept_rows_upto(
                                y as int,
                            )[j]);
                        } else {
                            assert(orig.kept_rows_upto(y + 1)[j] == y as int);
                        }
                    }
                }
            } else {
                proof {
                    assert(orig.row_full(y as int));
                    assert(orig.kept_rows_upto(y + 1) == orig.kept_rows_upto(y as int));
                }
            }
            y += 1;
        }
        let ghost kc = new_row_score@.len() as int;
        proof {
            assert(orig.kept_rows_upto(h as int) == orig.kept_rows());
        }
        while new_row_score.len() < (h as usize)
            invariant
                orig.wf(),
                *self == orig,
                w == orig.width,
                h == orig.height,
                kc == orig.kept_rows().len(),
                kc <= new_row_score@.len() <= h,
                new_grid@.len() == (w as int) * new_row_score@.len(),
                forall|j: int, x2: int|
                    0 <= j < kc && 0 <= x2 < w ==> #[trigger] new_grid@[j * (w as int) + x2]
                        == orig.cell(x2, orig.kept_rows()[j]),
                forall|j: int|
                    0 <= j < kc ==> #[trigger] new_row_score@[j] == orig.row_score_spec(
                        orig.kept_rows()[j],
                    ),
                forall|j: int, x2: int|
                    kc <= j < new_row_score@.len() && 0 <= x2 < w ==> !(#[trigger] new_grid@[j * (
                    w as int) + x2]),
                forall|j: int|
                    kc <= j < new_row_score@.len() ==> #[trigger] new_row_score@[j] == 0isize,
            decreases h - new_row_score@.len(),
        {
            let ghost k0 = new_row_score@.len() as int;
            let ghost g0 = new_grid@;
            let mut x: isize = 0;
            while x < w
                invariant
                    0 < w,
                    0 <= x <= w,
                    g0.len() == (w as int) * k0,
                    new_grid@.len() == (w as int) * k0 + x,
                    forall|i: int| 0 <= i < g0.len() ==> #[trigger] new_grid@[i] == g0[i],
                    forall|i: int| g0.len() <= i < new_grid@.len() ==> !(#[trigger] new_grid@[i]),
                decreases w - x,
            {
                new_grid.push(false);
                x += 1;
            }
            new_row_score.push(0);
            proof {
                lemma_mul_succ(w as int, k0);
                assert forall|j: int, x2: int|
                    0 <= j < kc && 0 <= x2 < w implies #[trigger] new_grid@[j * (w as int) + x2]
                    == orig.cell(x2, orig.kept_rows()[j]) by {
                    lemma_idx_bounds(w as int, k0, x2, j);
                }
                assert forall|j: int, x2: int|
                    kc <= j < new_row_score@.len() && 0 <= x2 < w implies !(#[trigger] new_grid@[j
                    * (w as int) + x2]) by {
                    lemma_idx_bounds(w as int, k0 + 1, x2, j);
                    if j < k0 {
                        lemma_idx_bounds(w as int, k0, x2, j);
                    } else {
                        assert(j * (w as int) + x2 >= g0.len()) by (nonlinear_arith)
                            requires
                                j == k0,
                                x2 >= 0,
                                g0.len() == (w as int) * k0,
                        ;
                    }
                }
            }
        }
        // rebuild the column tops from the shifted grid
        self.state.grid = new_grid;
        self.state.row_score = new_row_score;
        let ghost mid = *self;
        let mut new_col_score: Vec<isize> = Vec::new();
        let mut x: isize = 0;
        while x < w
            invariant
                *self == mid,
                w == mid.width,
                h == mid.height,
                0 < w,
                0 < h,
                (w as int) * (h as int) <= isize::MAX,
                mid.state.grid@.len() == (w as int) * (h as int),
                0 <= x <= w,
                new_col_score@.len() == x,
                forall|x2: int|
                    0 <= x2 < x ==> mid.col_entry_ok(x2, (#[trigger] new_col_score@[x2]) as int),
            decreases w - x,
        {
            let mut cs: isize = 0;
            let mut yy: isize = 0;
            while yy < h
                invariant
                    *self == mid,
                    w == mid.width,
                    h == mid.height,
                    0 < w,
                    0 < h,
                    (w as int) * (h as int) <= isize::MAX,
                    mid.state.grid@.len() == (w as int) * (h as int),
                    0 <= x < w,
                    0 <= yy <= h,
                    0 <= cs <= yy,
                    cs > 0 ==> mid.cell(x as int, cs - 1),
                    forall|y2: int| cs <= y2 < yy ==> !mid.cell(x as int, y2),
                decreases h - yy,
            {
                proof {
                    lemma_idx_bounds(w as int, h as int, x as int, yy as int);
                }
                if self.state.grid[(yy * w + x) as usize] {
                    cs = yy + 1;
                }
                yy += 1;
            }
            new_col_score.push(cs);
            x += 1;
        }
        self.state.col_score = new_col_score;
        proof {
            let fin = *self;
            // the final board reads the same cells the construction wrote
            assert forall|x2: int, y2: int| #[trigger] fin.cell(x2, y2) == mid.cell(x2, y2) by {}
            assert(fin.state.row_score@.len() == h as int);
            assert(fin.state.col_score@.len() == w as int);
            // each kept row keeps its cells and its score; rows above are
            // empty with score zero
            assert forall|j: int, x2: int|
                0 <= j < kc && 0 <= x2 < w implies #[trigger] fin.cell(x2, j) == orig.cell(
                x2,
                orig.kept_rows()[j],
            ) by {
                lemma_idx_bounds(w as int, h as int, x2, j);
            }
            assert forall|j: int, x2: int| kc <= j < h implies !(#[trigger] fin.cell(x2, j)) by {
                if 0 <= x2 < w && j < h {
                    lemma_idx_bounds(w as int, h as int, x2, j);
                }
            }
            assert forall|y2: int| 0 <= y2 < h implies fin.row_score_spec(y2) == fin.row_count(
                y2,
            ) by {
                if y2 < kc {
                    lemma_row_count_congruence(
                        fin,
                        y2,
                        orig,
                        orig.kept_rows()[y2],
                        w as int,
                    );
                    assert(orig.row_score_spec(orig.kept_rows()[y2]) == orig.row_count(
                        orig.kept_rows()[y2],
                    ));
                } else {
                    lemma_row_count_empty(fin, y2, w as int);
                }
            }
            // no row of the cleared board is full
            assert forall|y2: int| !fin.row_full(y2) by {
                if 0 <= y2 < h {
                    if y2 < kc {
                        assert(!orig.row_full(orig.kept_rows()[y2]));
                        let xw = choose|xw: int|
                            0 <= xw < w && !(#[trigger] orig.cell(xw, orig.kept_rows()[y2]));
                        assert(!fin.cell(xw, y2));
                    } else {
                        assert(!fin.cell(0, y2));
                    }
                } else {
                    assert(!fin.cell(0, y2));
                }
            }
            assert(fin.wf());
        }
    }
}

/// Placement legality depends only on the piece's cell offsets: two
/// pieces with the same cells may rest at the same positions.
pub proof fn lemma_place_ok_same_cells(
    b: Board,
    p1: PieceInstance,
    p2: PieceInstance,
    pos: BoardPosition,
)
    requires
        p1.spec_cells() == p2.spec_cells(),
        b.place_ok(p1, pos),
    ensures
        b.place_ok(p2, pos),
{
    assert forall|i: int| 0 <= i < p2.spec_cells().len() implies b.in_bounds(
        pos.x + (#[trigger] p2.spec_cells()[i]).0,
        pos.y + p2.spec_cells()[i].1,
    ) by {
        assert(p2.spec_cells()[i] == p1.spec_cells()[i]);
    }
    if b.any_overlap(p2, pos) {
        let i = choose|i: int|
            0 <= i < p2.spec_cells().len() && b.cell(
                pos.x + (#[trigger] p2.spec_cells()[i]).0,
                pos.y + p2.spec_cells()[i].1,
            );
        assert(b.cell(pos.x + p1.spec_cells()[i].0, pos.y + p1.spec_cells()[i].1));
        assert(b.any_overlap(p1, pos));
    }
}

/// A well-formed board's dimensions are positive and each fit the index
/// type on their own.
pub proof fn lemma_wf_dims(b: Board)
    requires
        b.wf(),
    ensures
        0 < b.width,
        0 < b.height,
        b.width <= isize::MAX,
        b.height <= isize::MAX,
{
    assert(b.width <= isize::MAX && b.height <= isize::MAX) by (nonlinear_arith)
        requires
            0 < b.width,
            0 < b.height,
            b.width * b.height <= isize::MAX,
    ;
}

} // verus!

