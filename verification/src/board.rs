//! The board grid: dimensions, full rows, line clearing, piece placement,
//! and the collision relation between a mask and the grid.

use vstd::prelude::*;
use crate::shapes::CellColor;
use crate::shapes::shape_occupied;

verus! {

broadcast use vstd::seq_lib::group_filter_ensures;

pub const BOARD_WIDTH: usize = 10;

pub const BOARD_HEIGHT: usize = 20;

/// The column every fresh piece spawns at.
pub const SPAWN_X: usize = BOARD_WIDTH / 2 - 1;

/// A well-formed grid: BOARD_HEIGHT rows of BOARD_WIDTH cells, row 0 on top.
pub open spec fn grid_wf(g: Seq<Seq<CellColor>>) -> bool {
    &&& g.len() == BOARD_HEIGHT
    &&& forall|r: int| 0 <= r < g.len() ==> (#[trigger] g[r]).len() == BOARD_WIDTH
}

/// Every cell of the row is occupied.
pub open spec fn row_full(r: Seq<CellColor>) -> bool {
    forall|c: int| 0 <= c < r.len() ==> r[c] != CellColor::Empty
}

/// A fully empty row.
pub open spec fn empty_row() -> Seq<CellColor> {
    Seq::new(BOARD_WIDTH as nat, |c: int| CellColor::Empty)
}

/// A fully empty grid.
pub open spec fn empty_grid() -> Seq<Seq<CellColor>> {
    Seq::new(BOARD_HEIGHT as nat, |r: int| empty_row())
}

/// The rows of the grid that are not full, in their original order.
pub open spec fn kept_rows(g: Seq<Seq<CellColor>>) -> Seq<Seq<CellColor>> {
    g.filter(|r: Seq<CellColor>| !row_full(r))
}

/// How many rows of the grid are full.
pub open spec fn cleared_count(g: Seq<Seq<CellColor>>) -> int {
    g.len() - kept_rows(g).len()
}

/// The grid after a line-clear pass: the full rows are removed and as many
/// empty rows are inserted at the top.
pub open spec fn cleared_grid(g: Seq<Seq<CellColor>>) -> Seq<Seq<CellColor>> {
    Seq::new(cleared_count(g) as nat, |r: int| empty_row()) + kept_rows(g)
}

/// A mask cell landing at board coordinates (bx, by) collides: it falls off
/// the right or bottom edge, or onto an occupied cell. Coordinates are never
/// negative (the anchor is clamped at zero).
pub open spec fn collision_at(g: Seq<Seq<CellColor>>, bx: int, by: int) -> bool {
    ||| bx >= BOARD_WIDTH as int
    ||| by >= BOARD_HEIGHT as int
    ||| g[by][bx] != CellColor::Empty
}

/// Some occupied cell of the mask anchored at (x, y) collides with the grid.
pub open spec fn spec_collides(s: Seq<Seq<bool>>, x: int, y: int, g: Seq<Seq<CellColor>>) -> bool {
    exists|r: int, c: int| #[trigger] shape_occupied(s, r, c) && collision_at(g, x + c, y + r)
}

/// Every occupied cell of the mask anchored at (x, y) lies on the grid.
pub open spec fn shape_in_bounds(s: Seq<Seq<bool>>, x: int, y: int) -> bool {
    forall|r: int, c: int| #[trigger] shape_occupied(s, r, c)
        ==> x + c < BOARD_WIDTH as int && y + r < BOARD_HEIGHT as int
}

/// The grid with the mask's occupied cells painted `color` at anchor (x, y).
pub open spec fn place_shape(
    g: Seq<Seq<CellColor>>,
    s: Seq<Seq<bool>>,
    color: CellColor,
    x: int,
    y: int,
) -> Seq<Seq<CellColor>> {
    Seq::new(
        g.len(),
        |r: int| Seq::new(g[r].len(), |c: int| if shape_occupied(s, r - y, c - x) {
            color
        } else {
            g[r][c]
        }),
    )
}

/// A mask that nowhere collides is in bounds.
pub proof fn lemma_no_collision_in_bounds(
    s: Seq<Seq<bool>>,
    x: int,
    y: int,
    g: Seq<Seq<CellColor>>,
)
    requires
        !spec_collides(s, x, y, g),
    ensures
        shape_in_bounds(s, x, y),
{
    assert forall|r: int, c: int| #[trigger] shape_occupied(s, r, c) implies x + c < BOARD_WIDTH
        as int && y + r < BOARD_HEIGHT as int by {
        assert(!collision_at(g, x + c, y + r));
    }
}

/// On the empty grid, no well-formed mask collides at the spawn anchor.
pub proof fn lemma_spawn_free_on_empty(s: Seq<Seq<bool>>)
    requires
        crate::shapes::shape_wf(s),
    ensures
        !spec_collides(s, SPAWN_X as int, 0, empty_grid()),
{
    assert forall|r: int, c: int| #[trigger] shape_occupied(s, r, c) implies !collision_at(
        empty_grid(),
        SPAWN_X as int + c,
        r,
    ) by {
        assert(s[r].len() == s[0].len());
        assert(SPAWN_X as int + c < BOARD_WIDTH as int);
        assert(empty_grid()[r][SPAWN_X as int + c] == CellColor::Empty);
    }
}

/// Law: the line-clear pass preserves the total row count, no row it keeps
/// was full, and every row that was not full survives (in its original
/// order, since `kept_rows` filters).
pub proof fn lemma_clear_preserves_rows(g: Seq<Seq<CellColor>>)
    requires
        grid_wf(g),
    ensures
        cleared_grid(g).len() == g.len(),
        forall|i: int| 0 <= i < kept_rows(g).len() ==> !row_full(#[trigger] kept_rows(g)[i]),
        forall|i: int| 0 <= i < g.len() && !row_full(#[trigger] g[i]) ==> kept_rows(g).contains(
            g[i],
        ),
{
}

/// Appending a row to a grid keeps it in the line-clear pass exactly when it
/// is not full.
pub proof fn lemma_kept_rows_push(g: Seq<Seq<CellColor>>, row: Seq<CellColor>)
    ensures
        kept_rows(g.push(row)) == if row_full(row) {
            kept_rows(g)
        } else {
            kept_rows(g).push(row)
        },
{
    reveal_with_fuel(Seq::filter, 2);
    assert(g.push(row).drop_last() =~= g);
    assert(g.push(row).last() == row);
}

} // verus!
