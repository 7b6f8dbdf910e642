//! The seven tetromino templates: their cell masks, their colors, and the
//! clockwise rotation of a mask.

use vstd::prelude::*;

verus! {

/// The content of one board cell: empty, or the color of the piece that
/// locked there. Each of the seven piece kinds has its own color.
#[derive(Clone, Copy, Debug, PartialEq, Eq, Structural)]
pub enum CellColor {
    Empty,
    Khaki,
    Blue,
    Gold,
    Yellow,
    Green,
    Brown,
    Red,
}

/// The closed set of the seven tetromino shapes.
#[derive(Clone, Copy, Debug, PartialEq, Eq, Structural)]
pub enum PieceKind {
    I,
    J,
    L,
    O,
    S,
    T,
    Z,
}

/// The color that each piece kind locks onto the board.
pub open spec fn kind_color(k: PieceKind) -> CellColor {
    match k {
        PieceKind::I => CellColor::Khaki,
        PieceKind::J => CellColor::Blue,
        PieceKind::L => CellColor::Gold,
        PieceKind::O => CellColor::Yellow,
        PieceKind::S => CellColor::Green,
        PieceKind::T => CellColor::Brown,
        PieceKind::Z => CellColor::Red,
    }
}

/// The cell mask of each piece kind, row-major, row 0 on top.
pub open spec fn kind_shape(k: PieceKind) -> Seq<Seq<bool>> {
    match k {
        PieceKind::I => seq![
            seq![true, true, true, true],
            seq![false, false, false, false],
        ],
        PieceKind::J => seq![seq![true, false, false], seq![true, true, true]],
        PieceKind::L => seq![seq![false, false, true], seq![true, true, true]],
        PieceKind::O => seq![seq![true, true], seq![true, true]],
        PieceKind::S => seq![seq![false, true, true], seq![true, true, false]],
        PieceKind::T => seq![seq![false, true, false], seq![true, true, true]],
        PieceKind::Z => seq![seq![true, true, false], seq![false, true, true]],
    }
}

/// The mask cell at row `r`, column `c` exists and is occupied.
pub open spec fn shape_occupied(s: Seq<Seq<bool>>, r: int, c: int) -> bool {
    &&& 0 <= r < s.len()
    &&& 0 <= c < s[r].len()
    &&& s[r][c]
}

/// A well-formed mask: rectangular, between 1x1 and 4x4, with at least one
/// occupied cell.
pub open spec fn shape_wf(s: Seq<Seq<bool>>) -> bool {
    &&& 1 <= s.len() <= 4
    &&& 1 <= s[0].len() <= 4
    &&& forall|r: int| 0 <= r < s.len() ==> (#[trigger] s[r]).len() == s[0].len()
    &&& exists|r: int, c: int| shape_occupied(s, r, c)
}

pub proof fn lemma_kind_shape_wf(k: PieceKind)
    ensures
        shape_wf(kind_shape(k)),
        kind_color(k) != CellColor::Empty,
        exists|c: int| shape_occupied(kind_shape(k), 0, c),
{
    match k {
        PieceKind::I => {
            assert(shape_occupied(kind_shape(k), 0, 0));
        },
        PieceKind::J => {
            assert(shape_occupied(kind_shape(k), 0, 0));
        },
        PieceKind::L => {
            assert(shape_occupied(kind_shape(k), 0, 2));
        },
        PieceKind::O => {
            assert(shape_occupied(kind_shape(k), 0, 0));
        },
        PieceKind::S => {
            assert(shape_occupied(kind_shape(k), 0, 1));
        },
        PieceKind::T => {
            assert(shape_occupied(kind_shape(k), 0, 1));
        },
        PieceKind::Z => {
            assert(shape_occupied(kind_shape(k), 0, 0));
        },
    }
}

/// The mask turned 90 degrees clockwise: an RxC mask becomes a CxR mask
/// whose cell (x, R-1-y) holds what the old cell (y, x) held.
pub open spec fn rotated_cw(s: Seq<Seq<bool>>) -> Seq<Seq<bool>> {
    Seq::new(s[0].len(), |r: int| Seq::new(s.len(), |c: int| s[s.len() - 1 - c][r]))
}

/// Rotating a well-formed mask gives a well-formed mask with the dimensions
/// swapped.
pub proof fn lemma_rotated_wf(s: Seq<Seq<bool>>)
    requires
        shape_wf(s),
    ensures
        shape_wf(rotated_cw(s)),
        rotated_cw(s).len() == s[0].len(),
        forall|r: int| 0 <= r < rotated_cw(s).len() ==> (#[trigger] rotated_cw(s)[r]).len() == s.len(),
{
    let rot = rotated_cw(s);
    assert(rot.len() == s[0].len());
    assert forall|r: int| 0 <= r < rot.len() implies (#[trigger] rot[r]).len() == s.len() by {}
    let (r0, c0) = choose|r: int, c: int| shape_occupied(s, r, c);
    assert(s[r0].len() == s[0].len());
    assert(rot[c0][s.len() - 1 - r0] == s[r0][c0]);
    assert(shape_occupied(rot, c0, s.len() - 1 - r0));
}

/// Rotating a well-formed mask clockwise four times restores it.
pub proof fn lemma_rotate_four_restores(s: Seq<Seq<bool>>)
    requires
        shape_wf(s),
    ensures
        rotated_cw(rotated_cw(rotated_cw(rotated_cw(s)))) == s,
{
    let rows = s.len() as int;
    let cols = s[0].len() as int;
    let r1 = rotated_cw(s);
    lemma_rotated_wf(s);
    let r2 = rotated_cw(r1);
    lemma_rotated_wf(r1);
    let r3 = rotated_cw(r2);
    lemma_rotated_wf(r2);
    let r4 = rotated_cw(r3);
    lemma_rotated_wf(r3);
    assert forall|i: int, j: int| 0 <= i < cols && 0 <= j < rows implies #[trigger] r1[i][j]
        == s[rows - 1 - j][i] by {}
    assert forall|i: int, j: int| 0 <= i < rows && 0 <= j < cols implies #[trigger] r2[i][j]
        == s[rows - 1 - i][cols - 1 - j] by {
        assert(r2[i][j] == r1[cols - 1 - j][i]);
    }
    assert forall|i: int, j: int| 0 <= i < cols && 0 <= j < rows implies #[trigger] r3[i][j]
        == s[j][cols - 1 - i] by {
        assert(r3[i][j] == r2[rows - 1 - j][i]);
    }
    assert forall|i: int, j: int| 0 <= i < rows && 0 <= j < cols implies #[trigger] r4[i][j]
        == s[i][j] by {
        assert(r4[i][j] == r3[cols - 1 - j][i]);
    }
    assert forall|i: int| 0 <= i < rows implies #[trigger] r4[i] == s[i] by {
        assert(r4[i] =~= s[i]);
    }
    assert(r4 =~= s);
}

} // verus!
