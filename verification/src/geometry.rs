//! The geometry catalog: for each piece variant and rotation index it gives
//! the four relative cell offsets, the per-column skirt (lowest occupied
//! relative y of each spanned column), the rotation count, and the relative
//! x/y extents. Every rotation is normalised so that the smallest occupied
//! relative x and the smallest occupied relative y are both zero, and the
//! cells are listed so that the first `max_x + 1` entries are the skirt
//! cells in column order.

use vstd::prelude::*;

verus! {

/// The seven piece variants of the catalog.
#[derive(PartialEq, Eq, Structural, Clone, Copy, Debug)]
pub enum PieceType {
    I,
    O,
    T,
    S,
    Z,
    J,
    L,
}

/// How many distinct rotations the variant has.
pub open spec fn spec_rotation_count(t: PieceType) -> int {
    match t {
        PieceType::I => 2,
        PieceType::O => 1,
        PieceType::T => 4,
        PieceType::S => 2,
        PieceType::Z => 2,
        PieceType::J => 4,
        PieceType::L => 4,
    }
}

/// The variant chosen for a catalog index in `[0, 7)`.
pub open spec fn spec_from_idx(i: int) -> PieceType {
    if i == 0 {
        PieceType::I
    } else if i == 1 {
        PieceType::O
    } else if i == 2 {
        PieceType::T
    } else if i == 3 {
        PieceType::S
    } else if i == 4 {
        PieceType::Z
    } else if i == 5 {
        PieceType::J
    } else {
        PieceType::L
    }
}

/// The four relative cell offsets `(dx, dy)` of a rotation.
pub open spec fn spec_cells(t: PieceType, r: int) -> Seq<(isize, isize)> {
    match t {
        PieceType::I => if r == 0 {
            seq![(0isize, 0isize), (1isize, 0isize), (2isize, 0isize), (3isize, 0isize)]
        } else {
            seq![(0isize, 0isize), (0isize, 1isize), (0isize, 2isize), (0isize, 3isize)]
        },
        PieceType::O => seq![(0isize, 0isize), (1isize, 0isize), (0isize, 1isize), (1isize, 1isize)],
        PieceType::T => if r == 0 {
            seq![(0isize, 0isize), (1isize, 0isize), (2isize, 0isize), (1isize, 1isize)]
        } else if r == 1 {
            seq![(0isize, 0isize), (1isize, 1isize), (0isize, 1isize), (0isize, 2isize)]
        } else if r == 2 {
            seq![(0isize, 1isize), (1isize, 0isize), (2isize, 1isize), (1isize, 1isize)]
        } else {
            seq![(0isize, 1isize), (1isize, 0isize), (1isize, 1isize), (1isize, 2isize)]
        },
        PieceType::S => if r == 0 {
            seq![(0isize, 0isize), (1isize, 0isize), (2isize, 1isize), (1isize, 1isize)]
        } else {
            seq![(0isize, 1isize), (1isize, 0isize), (1isize, 1isize), (0isize, 2isize)]
        },
        PieceType::Z => if r == 0 {
            seq![(0isize, 1isize), (1isize, 0isize), (2isize, 0isize), (1isize, 1isize)]
        } else {
            seq![(0isize, 0isize), (1isize, 1isize), (0isize, 1isize), (1isize, 2isize)]
        },
        PieceType::J => if r == 0 {
            seq![(0isize, 0isize), (1isize, 0isize), (2isize, 0isize), (0isize, 1isize)]
        } else if r == 1 {
            seq![(0isize, 0isize), (1isize, 0isize), (0isize, 1isize), (0isize, 2isize)]
        } else if r == 2 {
            seq![(0isize, 1isize), (1isize, 1isize), (2isize, 0isize), (2isize, 1isize)]
        } else {
            seq![(0isize, 2isize), (1isize, 0isize), (1isize, 1isize), (1isize, 2isize)]
        },
        PieceType::L => if r == 0 {
            seq![(0isize, 0isize), (1isize, 0isize), (2isize, 0isize), (2isize, 1isize)]
        } else if r == 1 {
            seq![(0isize, 0isize), (1isize, 2isize), (0isize, 1isize), (0isize, 2isize)]
        } else if r == 2 {
            seq![(0isize, 0isize), (1isize, 1isize), (2isize, 1isize), (0isize, 1isize)]
        } else {
            seq![(0isize, 0isize), (1isize, 0isize), (1isize, 1isize), (1isize, 2isize)]
        },
    }
}

/// The skirt of a rotation: entry `c` is the lowest relative y occupied in
/// relative column `c`.
pub open spec fn spec_skirt(t: PieceType, r: int) -> Seq<isize> {
    match t {
        PieceType::I => if r == 0 {
            seq![0isize, 0isize, 0isize, 0isize]
        } else {
            seq![0isize]
        },
        PieceType::O => seq![0isize, 0isize],
        PieceType::T => if r == 0 {
            seq![0isize, 0isize, 0isize]
        } else if r == 1 {
            seq![0isize, 1isize]
        } else if r == 2 {
            seq![1isize, 0isize, 1isize]
        } else {
            seq![1isize, 0isize]
        },
        PieceType::S => if r == 0 {
            seq![0isize, 0isize, 1isize]
        } else {
            seq![1isize, 0isize]
        },
        PieceType::Z => if r == 0 {
            seq![1isize, 0isize, 0isize]
        } else {
            seq![0isize, 1isize]
        },
        PieceType::J => if r == 0 {
            seq![0isize, 0isize, 0isize]
        } else if r == 1 {
            seq![0isize, 0isize]
        } else if r == 2 {
            seq![1isize, 1isize, 0isize]
        } else {
            seq![2isize, 0isize]
        },
        PieceType::L => if r == 0 {
            seq![0isize, 0isize, 0isize]
        } else if r == 1 {
            seq![0isize, 2isize]
        } else if r == 2 {
            seq![0isize, 1isize, 1isize]
        } else {
            seq![0isize, 0isize]
        },
    }
}

/// The largest occupied relative x of a rotation (the smallest is zero).
pub open spec fn spec_max_x(t: PieceType, r: int) -> isize {
    match t {
        PieceType::I => if r == 0 { 3isize } else { 0isize },
        PieceType::O => 1isize,
        PieceType::T => if r == 0 || r == 2 { 2isize } else { 1isize },
        PieceType::S => if r == 0 { 2isize } else { 1isize },
        PieceType::Z => if r == 0 { 2isize } else { 1isize },
        PieceType::J => if r == 0 || r == 2 { 2isize } else { 1isize },
        PieceType::L => if r == 0 || r == 2 { 2isize } else { 1isize },
    }
}

/// The largest occupied relative y of a rotation (the smallest is zero).
pub open spec fn spec_max_y(t: PieceType, r: int) -> isize {
    match t {
        PieceType::I => if r == 0 { 0isize } else { 3isize },
        PieceType::O => 1isize,
        PieceType::T => if r == 0 || r == 2 { 1isize } else { 2isize },
        PieceType::S => if r == 0 { 1isize } else { 2isize },
        PieceType::Z => if r == 0 { 1isize } else { 2isize },
        PieceType::J => if r == 0 || r == 2 { 1isize } else { 2isize },
        PieceType::L => if r == 0 || r == 2 { 1isize } else { 2isize },
    }
}

/// One cell of a rotation is inside the stated extents and at or above the
/// skirt of its column.
pub open spec fn cell_form_ok(cc: (isize, isize), s: Seq<isize>, mx: isize, my: isize) -> bool {
    &&& 0 <= cc.0 <= mx
    &&& 0 <= cc.1 <= my
    &&& s[cc.0 as int] <= cc.1
}

/// The shape data of one rotation is consistent, stated cell by cell so
/// that it can be checked on the concrete catalog entries.
pub open spec fn cells_form_ok(c: Seq<(isize, isize)>, s: Seq<isize>, mx: isize, my: isize) -> bool {
    &&& c.len() == 4
    &&& s.len() == mx + 1
    &&& 0 <= mx <= 3
    &&& 0 <= my <= 3
    &&& cell_form_ok(c[0], s, mx, my)
    &&& cell_form_ok(c[1], s, mx, my)
    &&& cell_form_ok(c[2], s, mx, my)
    &&& cell_form_ok(c[3], s, mx, my)
    &&& c[0] != c[1] && c[0] != c[2] && c[0] != c[3]
    &&& c[1] != c[2] && c[1] != c[3] && c[2] != c[3]
    &&& (mx >= 0 ==> s[0] >= 0 && c[0] == ((0isize, s[0])))
    &&& (mx >= 1 ==> s[1] >= 0 && c[1] == ((1isize, s[1])))
    &&& (mx >= 2 ==> s[2] >= 0 && c[2] == ((2isize, s[2])))
    &&& (mx >= 3 ==> s[3] >= 0 && c[3] == ((3isize, s[3])))
    &&& (c[0].1 == 0 || c[1].1 == 0 || c[2].1 == 0 || c[3].1 == 0)
}

/// Everything the board logic relies on of one rotation of the catalog:
/// four distinct cells inside the extents; a skirt entry for every spanned
/// column, attained by a cell of that column and a lower bound on every
/// cell of that column; and at least one cell on the bottom row.
pub open spec fn catalog_ok(t: PieceType, r: int) -> bool {
    let c = spec_cells(t, r);
    let s = spec_skirt(t, r);
    let mx = spec_max_x(t, r);
    let my = spec_max_y(t, r);
    &&& c.len() == 4
    &&& s.len() == mx + 1
    &&& 0 <= mx <= 3
    &&& 0 <= my <= 3
    &&& forall|i: int|
        0 <= i < 4 ==> 0 <= (#[trigger] c[i]).0 <= mx && 0 <= c[i].1 <= my && s[c[i].0 as int]
            <= c[i].1
    &&& forall|i: int, j: int| 0 <= i < j < 4 ==> #[trigger] c[i] != #[trigger] c[j]
    &&& forall|k: int| 0 <= k <= mx ==> #[trigger] s[k] >= 0 && c[k] == ((k as isize), s[k])
    &&& exists|i: int| 0 <= i < 4 && (#[trigger] c[i]).1 == 0
}

/// Bridges the cell-by-cell statement of shape consistency to the
/// quantified form the board proofs use.
proof fn lemma_form_to_catalog(c: Seq<(isize, isize)>, s: Seq<isize>, mx: isize, my: isize)
    requires
        cells_form_ok(c, s, mx, my),
    ensures
        forall|i: int|
            0 <= i < 4 ==> 0 <= (#[trigger] c[i]).0 <= mx && 0 <= c[i].1 <= my && s[c[i].0 as int]
                <= c[i].1,
        forall|i: int, j: int| 0 <= i < j < 4 ==> #[trigger] c[i] != #[trigger] c[j],
        forall|k: int| 0 <= k <= mx ==> #[trigger] s[k] >= 0 && c[k] == ((k as isize), s[k]),
        exists|i: int| 0 <= i < 4 && (#[trigger] c[i]).1 == 0,
{
    assert forall|i: int|
        0 <= i < 4 implies 0 <= (#[trigger] c[i]).0 <= mx && 0 <= c[i].1 <= my && s[c[i].0 as int]
        <= c[i].1 by {
        if i == 0 {
        } else if i == 1 {
        } else if i == 2 {
        } else {
            assert(i == 3);
        }
    }
    assert forall|k: int| 0 <= k <= mx implies #[trigger] s[k] >= 0 && c[k] == (
    (k as isize),
    s[k],
    ) by {
        if k == 0 {
        } else if k == 1 {
        } else if k == 2 {
        } else {
            assert(k == 3);
        }
    }
    if c[0].1 == 0 {
        assert(0 <= 0 < 4 && c[0].1 == 0);
    } else if c[1].1 == 0 {
        assert(0 <= 1 < 4 && c[1].1 == 0);
    } else if c[2].1 == 0 {
        assert(0 <= 2 < 4 && c[2].1 == 0);
    } else {
        assert(0 <= 3 < 4 && c[3].1 == 0);
    }
}

/// Every rotation of every variant satisfies the catalog consistency
/// statement.
pub proof fn lemma_catalog_ok(t: PieceType, r: int)
    requires
        0 <= r < spec_rotation_count(t),
    ensures
        catalog_ok(t, r),
{
    assert(cells_form_ok(spec_cells(t, r), spec_skirt(t, r), spec_max_x(t, r), spec_max_y(t, r)));
    lemma_form_to_catalog(spec_cells(t, r), spec_skirt(t, r), spec_max_x(t, r), spec_max_y(t, r));
}

impl PieceType {
    /// The variant for a catalog index; the catalog holds seven variants.
    pub fn from_idx(idx: usize) -> (r: PieceType)
        requires
            idx < 7,
        ensures
            r == spec_from_idx(idx as int),
    {
        match idx {
            0 => PieceType::I,
            1 => PieceType::O,
            2 => PieceType::T,
            3 => PieceType::S,
            4 => PieceType::Z,
            5 => PieceType::J,
            _ => PieceType::L,
        }
    }

    /// How many distinct rotations this variant has.
    pub fn rotation_count(&self) -> (r: usize)
        ensures
            r == spec_rotation_count(*self),
            1 <= r <= 4,
    {
        match self {
            PieceType::I => 2,
            PieceType::O => 1,
            PieceType::T => 4,
            PieceType::S => 2,
            PieceType::Z => 2,
            PieceType::J => 4,
            PieceType::L => 4,
        }
    }

    /// The four relative cell offsets of the given rotation.
    pub fn get_rotation(&self, rot_idx: usize) -> (r: Vec<(isize, isize)>)
        requires
            rot_idx < spec_rotation_count(*self),
        ensures
            r@ == spec_cells(*self, rot_idx as int),
    {
        let c: Vec<(isize, isize)> = match self {
            PieceType::I => if rot_idx == 0 {
                vec![(0isize, 0isize), (1isize, 0isize), (2isize, 0isize), (3isize, 0isize)]
            } else {
                vec![(0isize, 0isize), (0isize, 1isize), (0isize, 2isize), (0isize, 3isize)]
            },
            PieceType::O => vec![
                (0isize, 0isize),
                (1isize, 0isize),
                (0isize, 1isize),
                (1isize, 1isize),
            ],
            PieceType::T => if rot_idx == 0 {
                vec![(0isize, 0isize), (1isize, 0isize), (2isize, 0isize), (1isize, 1isize)]
            } else if rot_idx == 1 {
                vec![(0isize, 0isize), (1isize, 1isize), (0isize, 1isize), (0isize, 2isize)]
            } else if rot_idx == 2 {
                vec![(0isize, 1isize), (1isize, 0isize), (2isize, 1isize), (1isize, 1isize)]
            } else {
                vec![(0isize, 1isize), (1isize, 0isize), (1isize, 1isize), (1isize, 2isize)]
            },
            PieceType::S => if rot_idx == 0 {
                vec![(0isize, 0isize), (1isize, 0isize), (2isize, 1isize), (1isize, 1isize)]
            } else {
                vec![(0isize, 1isize), (1isize, 0isize), (1isize, 1isize), (0isize, 2isize)]
            },
            PieceType::Z => if rot_idx == 0 {
                vec![(0isize, 1isize), (1isize, 0isize), (2isize, 0isize), (1isize, 1isize)]
            } else {
                vec![(0isize, 0isize), (1isize, 1isize), (0isize, 1isize), (1isize, 2isize)]
            },
            PieceType::J => if rot_idx == 0 {
                vec![(0isize, 0isize), (1isize, 0isize), (2isize, 0isize), (0isize, 1isize)]
            } else if rot_idx == 1 {
                vec![(0isize, 0isize), (1isize, 0isize), (0isize, 1isize), (0isize, 2isize)]
            } else if rot_idx == 2 {
                vec![(0isize, 1isize), (1isize, 1isize), (2isize, 0isize), (2isize, 1isize)]
            } else {
                vec![(0isize, 2isize), (1isize, 0isize), (1isize, 1isize), (1isize, 2isize)]
            },
            PieceType::L => if rot_idx == 0 {
                vec![(0isize, 0isize), (1isize, 0isize), (2isize, 0isize), (2isize, 1isize)]
            } else if rot_idx == 1 {
                vec![(0isize, 0isize), (1isize, 2isize), (0isize, 1isize), (0isize, 2isize)]
            } else if rot_idx == 2 {
                vec![(0isize, 0isize), (1isize, 1isize), (2isize, 1isize), (0isize, 1isize)]
            } else {
                vec![(0isize, 0isize), (1isize, 0isize), (1isize, 1isize), (1isize, 2isize)]
            },
        };
        proof {
            assert(c@ =~= spec_cells(*self, rot_idx as int));
        }
        c
    }

    /// The skirt of the given rotation, one entry per spanned column.
    pub fn skirt(&self, rot_idx: usize) -> (r: Vec<isize>)
        requires
            rot_idx < spec_rotation_count(*self),
        ensures
            r@ == spec_skirt(*self, rot_idx as int),
    {
        let s: Vec<isize> = match self {
            PieceType::I => if rot_idx == 0 {
                vec![0isize, 0isize, 0isize, 0isize]
            } else {
                vec![0isize]
            },
            PieceType::O => vec![0isize, 0isize],
            PieceType::T => if rot_idx == 0 {
                vec![0isize, 0isize, 0isize]
            } else if rot_idx == 1 {
                vec![0isize, 1isize]
            } else if rot_idx == 2 {
                vec![1isize, 0isize, 1isize]
            } else {
                vec![1isize, 0isize]
            },
            PieceType::S => if rot_idx == 0 {
                vec![0isize, 0isize, 1isize]
            } else {
                vec![1isize, 0isize]
            },
            PieceType::Z => if rot_idx == 0 {
                vec![1isize, 0isize, 0isize]
            } else {
                vec![0isize, 1isize]
            },
            PieceType::J => if rot_idx == 0 {
                vec![0isize, 0isize, 0isize]
            } else if rot_idx == 1 {
                vec![0isize, 0isize]
            } else if rot_idx == 2 {
                vec![1isize, 1isize, 0isize]
            } else {
                vec![2isize, 0isize]
            },
            PieceType::L => if rot_idx == 0 {
                vec![0isize, 0isize, 0isize]
            } else if rot_idx == 1 {
                vec![0isize, 2isize]
            } else if rot_idx == 2 {
                vec![0isize, 1isize, 1isize]
            } else {
                vec![0isize, 0isize]
            },
        };
        proof {
            assert(s@ =~= spec_skirt(*self, rot_idx as int));
        }
        s
    }

    /// The smallest and largest occupied relative x of the given rotation.
    pub fn minmax_x(&self, rot_idx: usize) -> (r: (isize, isize))
        requires
            rot_idx < spec_rotation_count(*self),
        ensures
            r.0 == 0,
            r.1 == spec_max_x(*self, rot_idx as int),
    {
        (0, self.max_x(rot_idx))
    }

    /// The largest occupied relative x of the given rotation.
    pub fn max_x(&self, rot_idx: usize) -> (r: isize)
        requires
            rot_idx < spec_rotation_count(*self),
        ensures
            r == spec_max_x(*self, rot_idx as int),
    {
        match self {
            PieceType::I => if rot_idx == 0 {
                3
            } else {
                0
            },
            PieceType::O => 1,
            PieceType::T => if rot_idx == 0 || rot_idx == 2 {
                2
            } else {
                1
            },
            PieceType::S => if rot_idx == 0 {
                2
            } else {
                1
            },
            PieceType::Z => if rot_idx == 0 {
                2
            } else {
                1
            },
            PieceType::J => if rot_idx == 0 || rot_idx == 2 {
                2
            } else {
                1
            },
            PieceType::L => if rot_idx == 0 || rot_idx == 2 {
                2
            } else {
                1
            },
        }
    }

    /// The largest occupied relative y of the given rotation.
    pub fn max_y(&self, rot_idx: usize) -> (r: isize)
        requires
            rot_idx < spec_rotation_count(*self),
        ensures
            r == spec_max_y(*self, rot_idx as int),
    {
        match self {
            PieceType::I => if rot_idx == 0 {
                0
            } else {
                3
            },
            PieceType::O => 1,
            PieceType::T => if rot_idx == 0 || rot_idx == 2 {
                1
            } else {
                2
            },
            PieceType::S => if rot_idx == 0 {
                1
            } else {
                2
            },
            PieceType::Z => if rot_idx == 0 {
                1
            } else {
                2
            },
            PieceType::J => if rot_idx == 0 || rot_idx == 2 {
                1
            } else {
                2
            },
            PieceType::L => if rot_idx == 0 || rot_idx == 2 {
                1
            } else {
                2
            },
        }
    }
}

} // verus!
