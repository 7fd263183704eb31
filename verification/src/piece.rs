//! A piece instance: a catalog variant bound to a rotation index, a
//! display-only colour tag, and an absolute board position.

use vstd::prelude::*;

use crate::geometry::{spec_cells, spec_rotation_count, PieceType};

verus! {

/// Direction of a rotation step.
#[derive(Clone, Copy, Debug)]
pub enum RotationDirection {
    Cw,
    Ccw,
}

/// An absolute board coordinate; `x` counts columns from the left, `y`
/// counts rows from the bottom.
#[derive(PartialEq, Eq, Structural, Debug, Clone, Copy)]
pub struct BoardPosition {
    pub x: isize,
    pub y: isize,
}

/// A display-only colour tag carried by a piece; it has no effect on the
/// game logic.
#[derive(PartialEq, Eq, Structural, Debug, Clone, Copy)]
pub struct Rgba8 {
    pub red: u8,
    pub green: u8,
    pub blue: u8,
    pub alpha: u8,
}

/// A piece on the board: variant, colour, current rotation index and
/// absolute position of the piece origin.
#[derive(Debug, Clone, Copy)]
pub struct PieceInstance {
    pub typ: PieceType,
    pub color: Rgba8,
    pub rot_idx: usize,
    pub position: BoardPosition,
}

/// The rotation index reached from `r` by one step in the given direction,
/// wrapping modulo the variant's rotation count.
pub open spec fn spec_rotated_idx(t: PieceType, r: int, direction: RotationDirection) -> int {
    let count = spec_rotation_count(t);
    match direction {
        RotationDirection::Cw => (r + 1) % count,
        RotationDirection::Ccw => (r + count - 1) % count,
    }
}

impl PieceInstance {
    /// The rotation index is a valid index into the variant's rotations.
    pub open spec fn wf(self) -> bool {
        0 <= self.rot_idx < spec_rotation_count(self.typ)
    }

    /// The relative cell offsets of the piece at its current rotation.
    pub open spec fn spec_cells(self) -> Seq<(isize, isize)> {
        spec_cells(self.typ, self.rot_idx as int)
    }

    /// A new piece of the given variant at rotation index zero.
    pub fn new(typ: PieceType, color: Rgba8, position: BoardPosition) -> (r: PieceInstance)
        ensures
            r.typ == typ,
            r.color == color,
            r.rot_idx == 0,
            r.position == position,
            r.wf(),
    {
        PieceInstance { typ, color, rot_idx: 0, position }
    }

    /// The four relative cell offsets occupied at the current rotation.
    pub fn cells(&self) -> (r: Vec<(isize, isize)>)
        requires
            self.wf(),
        ensures
            r@ == self.spec_cells(),
    {
        self.typ.get_rotation(self.rot_idx)
    }

    /// Advance the rotation index one step in the given direction, wrapping
    /// modulo the variant's rotation count. Placement is not validated
    /// here; the caller tests the rotated piece and reverts on failure.
    pub fn rotate(&mut self, direction: RotationDirection)
        requires
            old(self).wf(),
        ensures
            final(self).typ == old(self).typ,
            final(self).color == old(self).color,
            final(self).position == old(self).position,
            final(self).rot_idx == spec_rotated_idx(
                old(self).typ,
                old(self).rot_idx as int,
                direction,
            ),
            final(self).wf(),
    {
        let count = self.typ.rotation_count();
        let inx = match direction {
            RotationDirection::Cw => (self.rot_idx + 1) % count,
            RotationDirection::Ccw => (self.rot_idx + count - 1) % count,
        };
        self.rot_idx = inx;
    }
}

} // verus!
