use tetris_core::board::BOARD_HEIGHT;
use tetris_core::board::BOARD_WIDTH;
use tetris_core::game::TetrisGame;
use tetris_core::game::UPDATE_INTERVAL_MS;
use tetris_core::game::piece_from_kind;
use tetris_core::shapes::CellColor;
use tetris_core::shapes::PieceKind;

fn fill_row(g: &mut TetrisGame, r: usize, color: CellColor) {
    for c in 0..BOARD_WIDTH {
        g.board[r][c] = color;
    }
}

fn board_snapshot(g: &TetrisGame) -> Vec<Vec<CellColor>> {
    let mut copy: Vec<Vec<CellColor>> = Vec::new();
    for r in 0..BOARD_HEIGHT {
        let mut row: Vec<CellColor> = Vec::new();
        for c in 0..BOARD_WIDTH {
            row.push(g.board[r][c]);
        }
        copy.push(row);
    }
    copy
}

#[test]
fn new_game_is_empty_and_running() {
    let g = TetrisGame::new();
    assert_eq!(g.board.len(), BOARD_HEIGHT);
    for r in 0..BOARD_HEIGHT {
        assert_eq!(g.board[r].len(), BOARD_WIDTH);
        for c in 0..BOARD_WIDTH {
            assert_eq!(g.board[r][c], CellColor::Empty);
        }
    }
    assert_eq!(g.score, 0);
    assert!(!g.game_over);
    assert_eq!(g.current_piece.x, BOARD_WIDTH / 2 - 1);
    assert_eq!(g.current_piece.y, 0);
    assert!(!g.piece_collides());
}

#[test]
fn template_masks_match_the_seven_shapes() {
    let o = piece_from_kind(PieceKind::O);
    assert_eq!(o.shape, vec![vec![true, true], vec![true, true]]);
    assert_eq!(o.color, CellColor::Yellow);
    let i = piece_from_kind(PieceKind::I);
    assert_eq!(
        i.shape,
        vec![vec![true, true, true, true], vec![false, false, false, false]]
    );
    assert_eq!(i.color, CellColor::Khaki);
    let s = piece_from_kind(PieceKind::S);
    assert_eq!(s.shape, vec![vec![false, true, true], vec![true, true, false]]);
    assert_eq!(s.color, CellColor::Green);
    let z = piece_from_kind(PieceKind::Z);
    assert_eq!(z.shape, vec![vec![true, true, false], vec![false, true, true]]);
    assert_eq!(z.color, CellColor::Red);
}

#[test]
fn collision_off_right_edge() {
    let mut g = TetrisGame::new();
    g.current_piece = piece_from_kind(PieceKind::O);
    g.current_piece.x = BOARD_WIDTH - 1;
    assert!(g.piece_collides());
}

#[test]
fn collision_off_bottom_edge() {
    let mut g = TetrisGame::new();
    g.current_piece = piece_from_kind(PieceKind::O);
    g.current_piece.y = BOARD_HEIGHT - 1;
    assert!(g.piece_collides());
}

#[test]
fn collision_with_locked_cell() {
    let mut g = TetrisGame::new();
    g.current_piece = piece_from_kind(PieceKind::O);
    g.board[1][5] = CellColor::Red;
    assert!(g.piece_collides());
    g.board[1][5] = CellColor::Empty;
    assert!(!g.piece_collides());
}

#[test]
fn left_moves_at_the_wall_clamp_and_never_lock() {
    let mut g = TetrisGame::new();
    g.current_piece = piece_from_kind(PieceKind::O);
    for _ in 0..6 {
        g.move_piece(-1, 0);
    }
    assert_eq!(g.current_piece.x, 0);
    assert_eq!(g.current_piece.y, 0);
    // still the same unlocked piece: the board is untouched
    for r in 0..BOARD_HEIGHT {
        for c in 0..BOARD_WIDTH {
            assert_eq!(g.board[r][c], CellColor::Empty);
        }
    }
    assert_eq!(g.score, 0);
}

#[test]
fn right_move_stops_at_the_edge() {
    let mut g = TetrisGame::new();
    g.current_piece = piece_from_kind(PieceKind::O);
    for _ in 0..20 {
        g.move_piece(1, 0);
    }
    // an O piece is two cells wide, so its anchor stops at column 8
    assert_eq!(g.current_piece.x, BOARD_WIDTH - 2);
}

#[test]
fn rotating_four_times_restores_the_mask() {
    for k in [
        PieceKind::I,
        PieceKind::J,
        PieceKind::L,
        PieceKind::O,
        PieceKind::S,
        PieceKind::T,
        PieceKind::Z,
    ] {
        let mut g = TetrisGame::new();
        g.current_piece = piece_from_kind(k);
        let original = g.current_piece.shape.clone();
        for _ in 0..4 {
            g.rotate_piece();
        }
        assert_eq!(g.current_piece.shape, original);
    }
}

#[test]
fn rotation_turns_the_mask_clockwise() {
    let mut g = TetrisGame::new();
    g.current_piece = piece_from_kind(PieceKind::I);
    g.rotate_piece();
    // the 2x4 bar becomes a 4x2 column occupying the right-hand column
    assert_eq!(
        g.current_piece.shape,
        vec![
            vec![false, true],
            vec![false, true],
            vec![false, true],
            vec![false, true],
        ]
    );
}

#[test]
fn blocked_rotation_is_discarded() {
    let mut g = TetrisGame::new();
    g.current_piece = piece_from_kind(PieceKind::I);
    // a vertical bar would reach rows 0..4 in column 5; block row 2
    g.board[2][5] = CellColor::Red;
    let before = g.current_piece.shape.clone();
    g.rotate_piece();
    assert_eq!(g.current_piece.shape, before);
}

#[test]
fn o_piece_falls_to_the_floor_and_locks() {
    let mut g = TetrisGame::new();
    g.current_piece = piece_from_kind(PieceKind::O);
    // 18 moves bring the anchor to row 18; the next one collides and locks
    for _ in 0..19 {
        g.move_piece(0, 1);
    }
    assert_eq!(g.board[18][4], CellColor::Yellow);
    assert_eq!(g.board[18][5], CellColor::Yellow);
    assert_eq!(g.board[19][4], CellColor::Yellow);
    assert_eq!(g.board[19][5], CellColor::Yellow);
    for r in 0..BOARD_HEIGHT {
        for c in 0..BOARD_WIDTH {
            if !(r >= 18 && (c == 4 || c == 5)) {
                assert_eq!(g.board[r][c], CellColor::Empty);
            }
        }
    }
    assert_eq!(g.score, 0);
    assert!(!g.game_over);
    // exactly one lock happened: a fresh piece is active at the spawn anchor
    assert_eq!(g.current_piece.x, BOARD_WIDTH / 2 - 1);
    assert_eq!(g.current_piece.y, 0);
}

#[test]
fn completing_a_row_clears_it_and_scores_100() {
    let mut g = TetrisGame::new();
    // the bottom row misses only column 9
    for c in 0..BOARD_WIDTH - 1 {
        g.board[BOARD_HEIGHT - 1][c] = CellColor::Red;
    }
    // a vertical bar in column 9 fills the gap
    g.current_piece = piece_from_kind(PieceKind::I);
    g.rotate_piece();
    for _ in 0..4 {
        g.move_piece(1, 0);
    }
    assert_eq!(g.current_piece.x, 8);
    // 16 moves bring the anchor to row 16; the next one collides and locks
    for _ in 0..17 {
        g.move_piece(0, 1);
    }
    assert_eq!(g.score, 100);
    // the full bottom row is gone; the bar's other three cells shifted down
    assert_eq!(g.board[19][9], CellColor::Khaki);
    assert_eq!(g.board[18][9], CellColor::Khaki);
    assert_eq!(g.board[17][9], CellColor::Khaki);
    for c in 0..BOARD_WIDTH - 1 {
        assert_eq!(g.board[19][c], CellColor::Empty);
    }
    // a fresh empty row sits on top
    for c in 0..BOARD_WIDTH {
        assert_eq!(g.board[0][c], CellColor::Empty);
    }
}

#[test]
fn clear_lines_removes_all_full_rows_in_one_pass() {
    let mut g = TetrisGame::new();
    fill_row(&mut g, 19, CellColor::Red);
    fill_row(&mut g, 17, CellColor::Blue);
    g.board[18][3] = CellColor::Green;
    g.clear_lines();
    assert_eq!(g.score, 200);
    assert_eq!(g.board.len(), BOARD_HEIGHT);
    // the one surviving marked row dropped to the bottom
    assert_eq!(g.board[19][3], CellColor::Green);
    for c in 0..BOARD_WIDTH {
        if c != 3 {
            assert_eq!(g.board[19][c], CellColor::Empty);
        }
    }
    for r in 0..19 {
        for c in 0..BOARD_WIDTH {
            assert_eq!(g.board[r][c], CellColor::Empty);
        }
    }
}

#[test]
fn clear_lines_keeps_partial_rows_in_order() {
    let mut g = TetrisGame::new();
    g.board[16][0] = CellColor::Green;
    fill_row(&mut g, 17, CellColor::Red);
    g.board[18][1] = CellColor::Blue;
    g.board[19][2] = CellColor::Gold;
    g.clear_lines();
    assert_eq!(g.score, 100);
    assert_eq!(g.board[17][0], CellColor::Green);
    assert_eq!(g.board[18][1], CellColor::Blue);
    assert_eq!(g.board[19][2], CellColor::Gold);
}

#[test]
fn blocked_spawn_ends_the_game_and_freezes_the_board() {
    let mut g = TetrisGame::new();
    fill_row(&mut g, 0, CellColor::Red);
    fill_row(&mut g, 1, CellColor::Red);
    g.spawn_piece();
    assert!(g.game_over);
    let frozen = board_snapshot(&g);
    let score = g.score;
    g.move_piece(0, 1);
    g.move_piece(-1, 0);
    g.move_piece(1, 0);
    // once the game is over the gravity step never runs
    assert!(!g.update(10 * UPDATE_INTERVAL_MS));
    assert!(!g.update(10 * UPDATE_INTERVAL_MS));
    assert_eq!(board_snapshot(&g), frozen);
    assert_eq!(g.score, score);
    assert!(g.game_over);
    // restart replaces the whole state
    g = TetrisGame::new();
    assert!(!g.game_over);
    assert_eq!(g.board[0][0], CellColor::Empty);
}

#[test]
fn spawning_while_game_over_changes_nothing() {
    let mut g = TetrisGame::new();
    fill_row(&mut g, 0, CellColor::Red);
    fill_row(&mut g, 1, CellColor::Red);
    g.spawn_piece();
    assert!(g.game_over);
    let piece_before = g.current_piece.shape.clone();
    g.spawn_piece();
    assert!(g.game_over);
    assert_eq!(g.current_piece.shape, piece_before);
}

#[test]
fn update_moves_the_piece_only_when_the_interval_elapsed() {
    let mut g = TetrisGame::new();
    g.current_piece = piece_from_kind(PieceKind::T);
    let y0 = g.current_piece.y;
    assert!(!g.update(UPDATE_INTERVAL_MS - 1));
    assert_eq!(g.current_piece.y, y0);
    assert!(g.update(UPDATE_INTERVAL_MS));
    assert_eq!(g.current_piece.y, y0 + 1);
}

#[test]
fn generated_pieces_spawn_at_the_anchor() {
    for _ in 0..50 {
        let p = TetrisGame::generate_piece();
        assert_eq!(p.x, BOARD_WIDTH / 2 - 1);
        assert_eq!(p.y, 0);
        assert!(!p.shape.is_empty());
        assert!(p.color != CellColor::Empty);
    }
}
