//! The game state: the falling piece, the grid of locked cells, the score,
//! and the operations the shell invokes on it.

use vstd::prelude::*;
use crate::board::BOARD_HEIGHT;
use crate::board::BOARD_WIDTH;
use crate::board::SPAWN_X;
use crate::board::cleared_count;
use crate::board::cleared_grid;
use crate::board::collision_at;
use crate::board::empty_grid;
use crate::board::empty_row;
use crate::board::grid_wf;
use crate::board::kept_rows;
use crate::board::lemma_kept_rows_push;
use crate::board::lemma_no_collision_in_bounds;
use crate::board::lemma_spawn_free_on_empty;
use crate::board::place_shape;
use crate::board::row_full;
use crate::board::shape_in_bounds;
use crate::board::spec_collides;
use crate::random::random_below;
use crate::shapes::CellColor;
use crate::shapes::PieceKind;
use crate::shapes::kind_color;
use crate::shapes::kind_shape;
use crate::shapes::lemma_kind_shape_wf;
use crate::shapes::lemma_rotated_wf;
use crate::shapes::rotated_cw;
use crate::shapes::shape_occupied;
use crate::shapes::shape_wf;

verus! {

broadcast use vstd::seq_lib::group_filter_ensures;

/// The active falling piece: a rectangular cell mask, the color it will lock
/// with, and the board coordinates of the mask's top-left corner.
pub struct Tetromino {
    pub shape: Vec<Vec<bool>>,
    pub color: CellColor,
    pub x: usize,
    pub y: usize,
}

impl Tetromino {
    /// The mask as a sequence of rows.
    pub open spec fn shape_view(&self) -> Seq<Seq<bool>> {
        self.shape@.map_values(|r: Vec<bool>| r@)
    }

    /// A well-formed piece: a well-formed mask and a non-empty color.
    pub open spec fn wf(&self) -> bool {
        &&& shape_wf(self.shape_view())
        &&& self.color != CellColor::Empty
    }

    /// The piece is a fresh spawn of kind `k`: the template mask and color,
    /// anchored at the spawn position.
    pub open spec fn is_spawn_of(&self, k: PieceKind) -> bool {
        &&& self.shape_view() == kind_shape(k)
        &&& self.color == kind_color(k)
        &&& self.x == SPAWN_X
        &&& self.y == 0
    }
}

fn mask_row2(a: bool, b: bool) -> (v: Vec<bool>)
    ensures
        v@ == seq![a, b],
{
    let mut v: Vec<bool> = Vec::new();
    v.push(a);
    v.push(b);
    proof {
        assert(v@ =~= seq![a, b]);
    }
    v
}

fn mask_row3(a: bool, b: bool, c: bool) -> (v: Vec<bool>)
    ensures
        v@ == seq![a, b, c],
{
    let mut v: Vec<bool> = Vec::new();
    v.push(a);
    v.push(b);
    v.push(c);
    proof {
        assert(v@ =~= seq![a, b, c]);
    }
    v
}

fn mask_row4(a: bool, b: bool, c: bool, d: bool) -> (v: Vec<bool>)
    ensures
        v@ == seq![a, b, c, d],
{
    let mut v: Vec<bool> = Vec::new();
    v.push(a);
    v.push(b);
    v.push(c);
    v.push(d);
    proof {
        assert(v@ =~= seq![a, b, c, d]);
    }
    v
}

/// A fresh copy of the template mask of kind `k`.
fn mask_of_kind(k: PieceKind) -> (m: Vec<Vec<bool>>)
    ensures
        m@.map_values(|r: Vec<bool>| r@) == kind_shape(k),
{
    let mut m: Vec<Vec<bool>> = Vec::new();
    match k {
        PieceKind::I => {
            m.push(mask_row4(true, true, true, true));
            m.push(mask_row4(false, false, false, false));
        },
        PieceKind::J => {
            m.push(mask_row3(true, false, false));
            m.push(mask_row3(true, true, true));
        },
        PieceKind::L => {
            m.push(mask_row3(false, false, true));
            m.push(mask_row3(true, true, true));
        },
        PieceKind::O => {
            m.push(mask_row2(true, true));
            m.push(mask_row2(true, true));
        },
        PieceKind::S => {
            m.push(mask_row3(false, true, true));
            m.push(mask_row3(true, true, false));
        },
        PieceKind::T => {
            m.push(mask_row3(false, true, false));
            m.push(mask_row3(true, true, true));
        },
        PieceKind::Z => {
            m.push(mask_row3(true, true, false));
            m.push(mask_row3(false, true, true));
        },
    }
    proof {
        assert(m@.map_values(|r: Vec<bool>| r@) =~~= kind_shape(k));
    }
    m
}

/// The color each piece kind carries.
fn color_of_kind(k: PieceKind) -> (c: CellColor)
    ensures
        c == kind_color(k),
{
    match k {
        PieceKind::I => CellColor::Khaki,
        PieceKind::J => CellColor::Blue,
        PieceKind::L => CellColor::Gold,
        PieceKind::O => CellColor::Yellow,
        PieceKind::S => CellColor::Green,
        PieceKind::T => CellColor::Brown,
        PieceKind::Z => CellColor::Red,
    }
}

/// A fresh piece of kind `k` at the spawn position.
pub fn piece_from_kind(k: PieceKind) -> (p: Tetromino)
    ensures
        p.is_spawn_of(k),
        p.wf(),
{
    proof {
        lemma_kind_shape_wf(k);
    }
    Tetromino { shape: mask_of_kind(k), color: color_of_kind(k), x: SPAWN_X, y: 0 }
}

/// A fully empty board row.
fn make_empty_row() -> (v: Vec<CellColor>)
    ensures
        v@ == empty_row(),
{
    let mut v: Vec<CellColor> = Vec::new();
    let mut c: usize = 0;
    while c < BOARD_WIDTH
        invariant
            v@.len() == c,
            c <= BOARD_WIDTH,
            forall|i: int| 0 <= i < c ==> v@[i] == CellColor::Empty,
        decreases BOARD_WIDTH - c,
    {
        v.push(CellColor::Empty);
        c += 1;
    }
    proof {
        assert(v@ =~= empty_row());
    }
    v
}

/// An element-wise copy of a board row.
fn copy_row(r: &Vec<CellColor>) -> (v: Vec<CellColor>)
    ensures
        v@ == r@,
{
    let mut v: Vec<CellColor> = Vec::new();
    let mut i: usize = 0;
    while i < r.len()
        invariant
            v@.len() == i,
            i <= r@.len(),
            forall|t: int| 0 <= t < i ==> v@[t] == r@[t],
        decreases r@.len() - i,
    {
        v.push(r[i]);
        i += 1;
    }
    proof {
        assert(v@ =~= r@);
    }
    v
}

/// Whether every cell of the row is occupied.
fn row_is_full(r: &Vec<CellColor>) -> (b: bool)
    ensures
        b == row_full(r@),
{
    let mut i: usize = 0;
    while i < r.len()
        invariant
            i <= r@.len(),
            forall|c: int| 0 <= c < i ==> r@[c] != CellColor::Empty,
        decreases r@.len() - i,
    {
        if r[i] == CellColor::Empty {
            proof {
                assert(r@[i as int] == CellColor::Empty);
            }
            return false;
        }
        i += 1;
    }
    true
}

/// The whole game state the shell draws from and acts on.
pub struct TetrisGame {
    pub board: Vec<Vec<CellColor>>,
    pub current_piece: Tetromino,
    pub game_over: bool,
    pub score: u32,
}

impl TetrisGame {
    /// The grid of locked cells as a sequence of rows.
    pub open spec fn grid(&self) -> Seq<Seq<CellColor>> {
        self.board@.map_values(|r: Vec<CellColor>| r@)
    }

    /// The game invariant: a well-formed grid, a well-formed piece whose
    /// anchor lies on the board, and, while the game runs, a piece that does
    /// not collide with the locked cells.
    pub open spec fn wf(&self) -> bool {
        &&& grid_wf(self.grid())
        &&& self.current_piece.wf()
        &&& self.current_piece.x < BOARD_WIDTH
        &&& self.current_piece.y < BOARD_HEIGHT
        &&& (!self.game_over ==> !spec_collides(
            self.current_piece.shape_view(),
            self.current_piece.x as int,
            self.current_piece.y as int,
            self.grid(),
        ))
    }

    /// Whether the active piece, where it now stands, collides with the
    /// board: an occupied mask cell off the right or bottom edge, or over a
    /// locked cell.
    #[verifier::loop_isolation(false)]
    pub fn piece_collides(&self) -> (r: bool)
        requires
            grid_wf(self.grid()),
            shape_wf(self.current_piece.shape_view()),
            self.current_piece.x <= BOARD_WIDTH,
            self.current_piece.y <= BOARD_HEIGHT,
        ensures
            r == spec_collides(
                self.current_piece.shape_view(),
                self.current_piece.x as int,
                self.current_piece.y as int,
                self.grid(),
            ),
    {
        let ghost sv = self.current_piece.shape_view();
        let ghost g = self.grid();
        let x = self.current_piece.x;
        let y = self.current_piece.y;
        let mut dy: usize = 0;
        while dy < self.current_piece.shape.len()
            invariant
                dy <= sv.len(),
                forall|r: int, c: int| #[trigger] shape_occupied(sv, r, c) && 0 <= r < dy
                    ==> !collision_at(g, x + c, y + r),
            decreases sv.len() - dy,
        {
            let row = &self.current_piece.shape[dy];
            proof {
                assert(row@ == sv[dy as int]);
                assert(sv[dy as int].len() == sv[0].len());
            }
            let mut dx: usize = 0;
            while dx < row.len()
                invariant
                    dx <= row@.len(),
                    forall|c: int| #[trigger] shape_occupied(sv, dy as int, c) && 0 <= c < dx
                        ==> !collision_at(g, x + c, y + dy),
                decreases row@.len() - dx,
            {
                if row[dx] {
                    let bx = x + dx;
                    let by = y + dy;
                    if bx >= BOARD_WIDTH || by >= BOARD_HEIGHT {
                        proof {
                            assert(shape_occupied(sv, dy as int, dx as int));
                        }
                        return true;
                    }
                    if self.board[by][bx] != CellColor::Empty {
                        proof {
                            assert(shape_occupied(sv, dy as int, dx as int));
                            assert(g[by as int][bx as int] != CellColor::Empty);
                        }
                        return true;
                    }
                }
                dx += 1;
            }
            dy += 1;
        }
        proof {
            assert forall|r: int, c: int| #[trigger] shape_occupied(sv, r, c) implies !collision_at(
                g,
                x + c,
                y + r,
            ) by {}
        }
        false
    }

    /// A fresh piece drawn uniformly at random among the seven kinds,
    /// anchored at the spawn position.
    pub fn generate_piece() -> (p: Tetromino)
        ensures
            p.wf(),
            exists|k: PieceKind| p.is_spawn_of(k),
    {
        let i = random_below(7);
        let k = if i == 0 {
            PieceKind::I
        } else if i == 1 {
            PieceKind::J
        } else if i == 2 {
            PieceKind::L
        } else if i == 3 {
            PieceKind::O
        } else if i == 4 {
            PieceKind::S
        } else if i == 5 {
            PieceKind::T
        } else {
            PieceKind::Z
        };
        let p = piece_from_kind(k);
        proof {
            assert(p.is_spawn_of(k));
        }
        p
    }

    /// Replace the active piece with a fresh random spawn; if the spawn
    /// already collides, the game is over. A no-op once the game is over.
    pub fn spawn_piece(&mut self)
        requires
            grid_wf(old(self).grid()),
        ensures
            final(self).board == old(self).board,
            final(self).score == old(self).score,
            old(self).game_over ==> *final(self) == *old(self),
            !old(self).game_over ==> exists|k: PieceKind|
                final(self).current_piece.is_spawn_of(k),
            !old(self).game_over ==> final(self).game_over == spec_collides(
                final(self).current_piece.shape_view(),
                SPAWN_X as int,
                0,
                old(self).grid(),
            ),
            !old(self).game_over ==> final(self).wf(),
    {
        if !self.game_over {
            self.current_piece = Self::generate_piece();
            if self.piece_collides() {
                self.game_over = true;
            }
        }
    }

    /// A fresh game: an empty board, score zero, and a random piece at the
    /// spawn position. On the empty board the spawn never collides, so the
    /// game starts running.
    pub fn new() -> (g: TetrisGame)
        ensures
            g.wf(),
            g.grid() == empty_grid(),
            g.score == 0,
            !g.game_over,
            exists|k: PieceKind| g.current_piece.is_spawn_of(k),
    {
        let mut board: Vec<Vec<CellColor>> = Vec::new();
        let mut r: usize = 0;
        while r < BOARD_HEIGHT
            invariant
                board@.len() == r,
                r <= BOARD_HEIGHT,
                forall|i: int| 0 <= i < r ==> #[trigger] board@[i]@ == empty_row(),
            decreases BOARD_HEIGHT - r,
        {
            board.push(make_empty_row());
            r += 1;
        }
        let mut game = TetrisGame {
            board,
            current_piece: Self::generate_piece(),
            game_over: false,
            score: 0,
        };
        proof {
            assert(game.grid() =~= empty_grid());
        }
        game.spawn_piece();
        proof {
            lemma_spawn_free_on_empty(game.current_piece.shape_view());
        }
        game
    }

    /// Remove every full row, keeping the others in order, insert as many
    /// fresh empty rows at the top, and score 100 points per removed row.
    /// The row count stays BOARD_HEIGHT.
    #[verifier::loop_isolation(false)]
    pub fn clear_lines(&mut self)
        requires
            grid_wf(old(self).grid()),
            old(self).score <= u32::MAX - 2000,
        ensures
            grid_wf(final(self).grid()),
            final(self).grid() == cleared_grid(old(self).grid()),
            final(self).score == old(self).score + 100 * cleared_count(old(self).grid()),
            final(self).current_piece == old(self).current_piece,
            final(self).game_over == old(self).game_over,
    {
        let ghost g = old(self).grid();
        let mut kept: Vec<Vec<CellColor>> = Vec::new();
        let mut i: usize = 0;
        while i < self.board.len()
            invariant
                *self == *old(self),
                i <= g.len(),
                kept@.map_values(|r: Vec<CellColor>| r@) == kept_rows(g.take(i as int)),
                forall|t: int| 0 <= t < kept@.len() ==> (#[trigger] kept@[t])@.len()
                    == BOARD_WIDTH,
            decreases g.len() - i,
        {
            proof {
                lemma_kept_rows_push(g.take(i as int), g[i as int]);
                assert(g.take(i as int + 1) =~= g.take(i as int).push(g[i as int]));
                assert(self.board@[i as int]@ == g[i as int]);
            }
            if !row_is_full(&self.board[i]) {
                kept.push(copy_row(&self.board[i]));
            }
            proof {
                assert(kept@.map_values(|r: Vec<CellColor>| r@) =~= kept_rows(
                    g.take(i as int + 1),
                ));
            }
            i += 1;
        }
        proof {
            assert(g.take(g.len() as int) =~= g);
        }
        let cleared = BOARD_HEIGHT - kept.len();
        let mut nb: Vec<Vec<CellColor>> = Vec::new();
        let mut j: usize = 0;
        while j < cleared
            invariant
                nb@.len() == j,
                j <= cleared,
                cleared == BOARD_HEIGHT - kept_rows(g).len(),
                forall|t: int| 0 <= t < j ==> (#[trigger] nb@[t])@ == empty_row(),
            decreases cleared - j,
        {
            nb.push(make_empty_row());
            j += 1;
        }
        nb.append(&mut kept);
        self.board = nb;
        self.score = self.score + (cleared as u32) * 100;
        proof {
            assert(self.grid() =~= cleared_grid(g));
            assert forall|r: int| 0 <= r < self.grid().len() implies (#[trigger] self.grid()[r]).len()
                == BOARD_WIDTH by {}
        }
    }

    /// Copy the active piece's occupied cells onto the board at its anchor,
    /// run the line-clear pass, and spawn the next piece. The caller hands a
    /// piece whose occupied cells all lie on the board.
    #[verifier::loop_isolation(false)]
    pub fn lock_piece(&mut self)
        requires
            grid_wf(old(self).grid()),
            old(self).current_piece.wf(),
            !old(self).game_over,
            shape_in_bounds(
                old(self).current_piece.shape_view(),
                old(self).current_piece.x as int,
                old(self).current_piece.y as int,
            ),
            old(self).score <= u32::MAX - 2000,
        ensures
            final(self).wf(),
            locked_post(
                *old(self),
                *final(self),
                old(self).current_piece.x as int,
                old(self).current_piece.y as int,
            ),
    {
        let ghost g = old(self).grid();
        let ghost placed = place_shape(
            g,
            old(self).current_piece.shape_view(),
            old(self).current_piece.color,
            old(self).current_piece.x as int,
            old(self).current_piece.y as int,
        );
        let color = self.current_piece.color;
        let mut nb: Vec<Vec<CellColor>> = Vec::new();
        let mut r: usize = 0;
        while r < BOARD_HEIGHT
            invariant
                *self == *old(self),
                nb@.len() == r,
                r <= BOARD_HEIGHT,
                forall|t: int| 0 <= t < r ==> (#[trigger] nb@[t])@ == placed[t],
            decreases BOARD_HEIGHT - r,
        {
            let mut row: Vec<CellColor> = Vec::new();
            let mut c: usize = 0;
            while c < BOARD_WIDTH
                invariant
                    *self == *old(self),
                    r < BOARD_HEIGHT,
                    row@.len() == c,
                    c <= BOARD_WIDTH,
                    forall|t: int| 0 <= t < c ==> row@[t] == placed[r as int][t],
                decreases BOARD_WIDTH - c,
            {
                proof {
                    assert(self.grid().len() == self.board@.len());
                    assert(self.grid()[r as int] == self.board@[r as int]@);
                }
                let cell = if cell_covered(&self.current_piece, r, c) {
                    color
                } else {
                    self.board[r][c]
                };
                row.push(cell);
                c += 1;
            }
            proof {
                assert(row@ =~= placed[r as int]);
            }
            nb.push(row);
            r += 1;
        }
        self.board = nb;
        proof {
            assert(self.grid() =~= placed);
        }
        self.clear_lines();
        self.spawn_piece();
    }

    /// Offset the active piece's anchor by (dx, dy), clamping at zero. If
    /// the moved piece collides, the move is undone; a downward move that
    /// collides means the piece has landed, and it locks. Once the game is
    /// over nothing moves.
    pub fn move_piece(&mut self, dx: i32, dy: i32)
        requires
            old(self).wf(),
            -1 <= dx <= 1,
            0 <= dy <= 1,
            old(self).score <= u32::MAX - 2000,
        ensures
            final(self).wf(),
            move_piece_post(*old(self), *final(self), dx as int, dy as int),
    {
        if self.game_over {
            return ;
        }
        let ghost s = self.current_piece.shape_view();
        let ghost g = self.grid();
        let nx = clamp_offset(self.current_piece.x, dx);
        let ny = clamp_offset(self.current_piece.y, dy);
        self.current_piece.x = nx;
        self.current_piece.y = ny;
        if self.piece_collides() {
            let rx = clamp_offset(self.current_piece.x, -dx);
            let ry = clamp_offset(self.current_piece.y, -dy);
            self.current_piece.x = rx;
            self.current_piece.y = ry;
            proof {
                assert(ry == old(self).current_piece.y);
                if old(self).current_piece.x as int + dx >= 0 {
                    assert(rx == old(self).current_piece.x);
                } else {
                    assert(old(self).current_piece.x == 0 && dx == -1 && nx == 0 && rx == 1);
                }
            }
            if dy > 0 {
                proof {
                    lemma_no_collision_in_bounds(
                        s,
                        old(self).current_piece.x as int,
                        old(self).current_piece.y as int,
                        g,
                    );
                    assert forall|r: int, c: int| #[trigger] shape_occupied(s, r, c) implies rx
                        + c < BOARD_WIDTH as int && ry + r < BOARD_HEIGHT as int by {
                        assert(s[r].len() == s[0].len());
                    }
                }
                self.lock_piece();
            } else {
                proof {
                    assert(*self == *old(self));
                }
            }
        } else {
            proof {
                let (r0, c0) = choose|r: int, c: int| shape_occupied(s, r, c);
                assert(!collision_at(g, nx + c0, ny + r0));
            }
        }
    }

    /// Turn the active piece's mask 90 degrees clockwise; if the turned mask
    /// collides at the unchanged anchor, the rotation is discarded.
    pub fn rotate_piece(&mut self)
        requires
            old(self).wf(),
        ensures
            final(self).wf(),
            rotate_post(*old(self), *final(self)),
    {
        proof {
            lemma_rotated_wf(self.current_piece.shape_view());
        }
        let mut prev = rotate_mask(&self.current_piece.shape);
        core::mem::swap(&mut self.current_piece.shape, &mut prev);
        if self.piece_collides() {
            self.current_piece.shape = prev;
            proof {
                assert(*self == *old(self));
            }
        }
    }

    /// One frame of game time: when the elapsed wall-clock milliseconds since
    /// the last gravity step reach the update interval and the game is not
    /// over, the piece moves down one row. Returns whether that step ran, so
    /// the caller can reset its timestamp.
    pub fn update(&mut self, elapsed_ms: u64) -> (ticked: bool)
        requires
            old(self).wf(),
            old(self).score <= u32::MAX - 2000,
        ensures
            final(self).wf(),
            ticked == (elapsed_ms >= UPDATE_INTERVAL_MS && !old(self).game_over),
            ticked ==> move_piece_post(*old(self), *final(self), 0, 1),
            !ticked ==> *final(self) == *old(self),
    {
        if elapsed_ms >= UPDATE_INTERVAL_MS {
            if !self.game_over {
                self.move_piece(0, 1);
                return true;
            }
        }
        false
    }
}

/// Milliseconds between gravity steps.
pub const UPDATE_INTERVAL_MS: u64 = 750;

/// The anchor offset arithmetic of a move: add the offset and clamp at zero.
fn clamp_offset(a: usize, d: i32) -> (r: usize)
    requires
        a <= BOARD_HEIGHT + 1,
        -2 <= d <= 2,
    ensures
        r == clamp0(a + d),
{
    let t: i64 = a as i64 + d as i64;
    if t < 0 {
        0
    } else {
        t as usize
    }
}

/// A fresh mask holding the clockwise rotation of `s`.
#[verifier::loop_isolation(false)]
fn rotate_mask(s: &Vec<Vec<bool>>) -> (v: Vec<Vec<bool>>)
    requires
        shape_wf(s@.map_values(|r: Vec<bool>| r@)),
    ensures
        v@.map_values(|r: Vec<bool>| r@) == rotated_cw(s@.map_values(|r: Vec<bool>| r@)),
{
    let ghost sv = s@.map_values(|r: Vec<bool>| r@);
    let ghost rot = rotated_cw(sv);
    let rows = s.len();
    let cols = s[0].len();
    let mut v: Vec<Vec<bool>> = Vec::new();
    let mut r: usize = 0;
    while r < cols
        invariant
            v@.len() == r,
            r <= cols,
            forall|t: int| 0 <= t < r ==> (#[trigger] v@[t])@ == rot[t],
        decreases cols - r,
    {
        let mut row: Vec<bool> = Vec::new();
        let mut c: usize = 0;
        while c < rows
            invariant
                r < cols,
                row@.len() == c,
                c <= rows,
                forall|t: int| 0 <= t < c ==> row@[t] == rot[r as int][t],
            decreases rows - c,
        {
            proof {
                assert(sv[rows - 1 - c].len() == sv[0].len());
            }
            row.push(s[rows - 1 - c][r]);
            c += 1;
        }
        proof {
            assert(row@ =~= rot[r as int]);
        }
        v.push(row);
        r += 1;
    }
    proof {
        assert(v@.map_values(|q: Vec<bool>| q@) =~= rot);
    }
    v
}

/// Law: when the top two rows of the grid are fully occupied, every one of
/// the seven possible spawns collides at the spawn anchor, so the next spawn
/// attempt ends the game.
pub proof fn lemma_spawn_blocked_when_top_full(g: Seq<Seq<CellColor>>)
    requires
        grid_wf(g),
        row_full(g[0]),
        row_full(g[1]),
    ensures
        forall|k: PieceKind| spec_collides(kind_shape(k), SPAWN_X as int, 0, g),
{
    assert(g[0].len() == BOARD_WIDTH);
    assert forall|k: PieceKind| spec_collides(kind_shape(k), SPAWN_X as int, 0, g) by {
        let s = kind_shape(k);
        match k {
            PieceKind::I => {
                assert(shape_occupied(s, 0, 0));
                assert(g[0][SPAWN_X as int] != CellColor::Empty);
            },
            PieceKind::J => {
                assert(shape_occupied(s, 0, 0));
                assert(g[0][SPAWN_X as int] != CellColor::Empty);
            },
            PieceKind::L => {
                assert(shape_occupied(s, 0, 2));
                assert(g[0][SPAWN_X as int + 2] != CellColor::Empty);
            },
            PieceKind::O => {
                assert(shape_occupied(s, 0, 0));
                assert(g[0][SPAWN_X as int] != CellColor::Empty);
            },
            PieceKind::S => {
                assert(shape_occupied(s, 0, 1));
                assert(g[0][SPAWN_X as int + 1] != CellColor::Empty);
            },
            PieceKind::T => {
                assert(shape_occupied(s, 0, 1));
                assert(g[0][SPAWN_X as int + 1] != CellColor::Empty);
            },
            PieceKind::Z => {
                assert(shape_occupied(s, 0, 0));
                assert(g[0][SPAWN_X as int] != CellColor::Empty);
            },
        }
    }
}

/// Law: four successive rotations of the active piece, none of which
/// collides, leave the piece's mask as it started.
pub proof fn lemma_rotate_four_times_restores(
    g0: TetrisGame,
    g1: TetrisGame,
    g2: TetrisGame,
    g3: TetrisGame,
    g4: TetrisGame,
)
    requires
        g0.wf(),
        rotate_post(g0, g1),
        rotate_post(g1, g2),
        rotate_post(g2, g3),
        rotate_post(g3, g4),
        !spec_collides(
            rotated_cw(g0.current_piece.shape_view()),
            g0.current_piece.x as int,
            g0.current_piece.y as int,
            g0.grid(),
        ),
        !spec_collides(
            rotated_cw(g1.current_piece.shape_view()),
            g1.current_piece.x as int,
            g1.current_piece.y as int,
            g1.grid(),
        ),
        !spec_collides(
            rotated_cw(g2.current_piece.shape_view()),
            g2.current_piece.x as int,
            g2.current_piece.y as int,
            g2.grid(),
        ),
        !spec_collides(
            rotated_cw(g3.current_piece.shape_view()),
            g3.current_piece.x as int,
            g3.current_piece.y as int,
            g3.grid(),
        ),
    ensures
        g4.current_piece.shape_view() == g0.current_piece.shape_view(),
{
    let s = g0.current_piece.shape_view();
    assert(g1.current_piece.shape_view() == rotated_cw(s));
    assert(g2.current_piece.shape_view() == rotated_cw(rotated_cw(s)));
    assert(g3.current_piece.shape_view() == rotated_cw(rotated_cw(rotated_cw(s))));
    assert(g4.current_piece.shape_view() == rotated_cw(
        rotated_cw(rotated_cw(rotated_cw(s))),
    ));
    crate::shapes::lemma_rotate_four_restores(s);
}

/// Clamping at zero: the anchor arithmetic never goes negative.
pub open spec fn clamp0(a: int) -> int {
    if a >= 0 {
        a
    } else {
        0
    }
}

/// What locking the piece of `pre` at anchor (lx, ly) leaves behind: the
/// mask is painted onto the grid, full rows are cleared and scored, and a
/// fresh random piece is spawned, ending the game if the spawn collides.
pub open spec fn locked_post(pre: TetrisGame, post: TetrisGame, lx: int, ly: int) -> bool {
    let placed = place_shape(
        pre.grid(),
        pre.current_piece.shape_view(),
        pre.current_piece.color,
        lx,
        ly,
    );
    &&& post.grid() == cleared_grid(placed)
    &&& post.score == pre.score + 100 * cleared_count(placed)
    &&& (exists|k: PieceKind| post.current_piece.is_spawn_of(k))
    &&& post.game_over == spec_collides(
        post.current_piece.shape_view(),
        SPAWN_X as int,
        0,
        cleared_grid(placed),
    )
}

/// What a move by (dx, dy) does. Once the game is over nothing moves. The
/// tentative anchor is the old one offset and clamped at zero; if nothing
/// collides there the piece stays; a sideways collision reverts the move;
/// a downward collision reverts it and locks the piece where it rested.
pub open spec fn move_piece_post(pre: TetrisGame, post: TetrisGame, dx: int, dy: int) -> bool {
    let s = pre.current_piece.shape_view();
    let tx = clamp0(pre.current_piece.x + dx);
    let ty = clamp0(pre.current_piece.y + dy);
    let rx = clamp0(tx - dx);
    let ry = clamp0(ty - dy);
    if pre.game_over {
        post == pre
    } else if !spec_collides(s, tx, ty, pre.grid()) {
        &&& post.board == pre.board
        &&& post.score == pre.score
        &&& post.game_over == pre.game_over
        &&& post.current_piece.shape == pre.current_piece.shape
        &&& post.current_piece.color == pre.current_piece.color
        &&& post.current_piece.x == tx
        &&& post.current_piece.y == ty
    } else if dy > 0 {
        locked_post(pre, post, rx, ry)
    } else {
        post == pre
    }
}

/// What a rotation does: the mask turns clockwise if the turned mask does
/// not collide at the unchanged anchor, and otherwise nothing changes (no
/// wall kick).
pub open spec fn rotate_post(pre: TetrisGame, post: TetrisGame) -> bool {
    let s = pre.current_piece.shape_view();
    let rot = rotated_cw(s);
    if !spec_collides(
        rot,
        pre.current_piece.x as int,
        pre.current_piece.y as int,
        pre.grid(),
    ) {
        &&& post.current_piece.shape_view() == rot
        &&& post.current_piece.color == pre.current_piece.color
        &&& post.current_piece.x == pre.current_piece.x
        &&& post.current_piece.y == pre.current_piece.y
        &&& post.board == pre.board
        &&& post.score == pre.score
        &&& post.game_over == pre.game_over
    } else {
        post == pre
    }
}

/// Whether board cell (r, c) falls under an occupied cell of the piece's
/// mask at its current anchor.
fn cell_covered(p: &Tetromino, r: usize, c: usize) -> (b: bool)
    requires
        shape_wf(p.shape_view()),
    ensures
        b == shape_occupied(p.shape_view(), r - p.y, c - p.x),
{
    if r >= p.y && c >= p.x {
        let dr = r - p.y;
        let dc = c - p.x;
        if dr < p.shape.len() {
            proof {
                assert(p.shape_view()[dr as int].len() == p.shape_view()[0].len());
            }
            if dc < p.shape[dr].len() {
                return p.shape[dr][dc];
            }
        }
    }
    false
}

} // verus!
