use chess::highlight::{decode_valid_cells_from_integers, encode_valid_cells_to_integers};
use chess::legality::{can_move_piece, is_any_piece_attacks_position, is_king_move_leads_to_check, valid_cells_to_move};
use chess::moves::{can_move_king, can_move_knight};
use chess::{Board, Color, Piece, PieceKind};

fn empty_board() -> Board {
    Board {
        state: [[None; 8]; 8],
        is_reversed: false,
        turn: Color::Light,
        color_of_king_under_attack: None,
        number_of_moves: 0,
    }
}

fn count(grid: &[[bool; 8]; 8]) -> usize {
    grid.iter().map(|file| file.iter().filter(|c| **c).count()).sum()
}

#[test]
fn opening_layout_for_light_player() {
    let b = Board::new(Color::Light);
    assert!(!b.is_reversed);
    assert_eq!(b.turn, Color::Light);
    assert_eq!(b.number_of_moves, 0);
    assert_eq!(b.piece_at(&(4, 0)), Some(Piece::new(Color::Light, PieceKind::King)));
    assert_eq!(b.piece_at(&(3, 0)), Some(Piece::new(Color::Light, PieceKind::Queen)));
    assert_eq!(b.piece_at(&(4, 7)), Some(Piece::new(Color::Dark, PieceKind::King)));
    assert_eq!(b.piece_at(&(0, 7)), Some(Piece::new(Color::Dark, PieceKind::Rook)));
    assert_eq!(b.piece_at(&(6, 6)), Some(Piece::new(Color::Dark, PieceKind::Pawn)));
    assert_eq!(b.piece_at(&(2, 1)), Some(Piece::new(Color::Light, PieceKind::Pawn)));
    assert_eq!(b.piece_at(&(5, 4)), None);
    assert_eq!(b.state[7][1], Some(Piece::new(Color::Light, PieceKind::Knight)));
}

#[test]
fn opening_layout_for_dark_player_swaps_queen_and_king() {
    let b = Board::new(Color::Dark);
    assert!(b.is_reversed);
    assert_eq!(b.turn, Color::Light);
    assert_eq!(b.piece_at(&(3, 0)), Some(Piece::new(Color::Dark, PieceKind::King)));
    assert_eq!(b.piece_at(&(4, 0)), Some(Piece::new(Color::Dark, PieceKind::Queen)));
    assert_eq!(b.piece_at(&(3, 7)), Some(Piece::new(Color::Light, PieceKind::King)));
    assert_eq!(b.get_king_position(Color::Light), (3, 7));
    assert_eq!(b.get_king_position(Color::Dark), (3, 0));
}

#[test]
fn pawns_advance_toward_the_opponent_in_both_orientations() {
    let light = Board::new(Color::Light);
    assert!(can_move_piece(&light, &(2, 1), &(2, 2)));
    assert!(can_move_piece(&light, &(2, 1), &(2, 3)));
    assert!(!can_move_piece(&light, &(2, 1), &(2, 4)));
    assert!(can_move_piece(&light, &(2, 6), &(2, 4)));
    assert!(!can_move_piece(&light, &(2, 6), &(2, 7)));
    let dark = Board::new(Color::Dark);
    assert!(can_move_piece(&dark, &(5, 1), &(5, 3)));
    assert!(can_move_piece(&dark, &(5, 6), &(5, 5)));
    assert!(!can_move_piece(&dark, &(5, 6), &(5, 7)));
}

#[test]
fn empty_source_cell_allows_nothing() {
    let b = Board::new(Color::Light);
    assert!(!can_move_piece(&b, &(3, 3), &(3, 4)));
    assert_eq!(count(&valid_cells_to_move(&b, &(3, 3))), 0);
}

#[test]
fn own_color_destination_is_never_legal() {
    let b = Board::new(Color::Light);
    for x in 0..8 {
        for y in 0..2 {
            for tx in 0..8 {
                for ty in 0..2 {
                    assert!(!can_move_piece(&b, &(x, y), &(tx, ty)));
                }
            }
        }
    }
}

#[test]
fn pawn_does_not_take_straight_ahead_but_takes_diagonally() {
    let mut b = empty_board();
    b.put_piece_at_cell(&(3, 3), Piece::new(Color::Light, PieceKind::Pawn));
    b.put_piece_at_cell(&(3, 4), Piece::new(Color::Dark, PieceKind::Knight));
    b.put_piece_at_cell(&(4, 4), Piece::new(Color::Dark, PieceKind::Rook));
    assert!(!can_move_piece(&b, &(3, 3), &(3, 4)));
    assert!(can_move_piece(&b, &(3, 3), &(4, 4)));
    assert!(!can_move_piece(&b, &(3, 3), &(2, 4)));
    assert!(!can_move_piece(&b, &(3, 3), &(4, 2)));
}

#[test]
fn pawn_leap_needs_both_cells_empty() {
    let mut b = Board::new(Color::Light);
    b.put_piece_at_cell(&(1, 2), Piece::new(Color::Dark, PieceKind::Knight));
    assert!(!can_move_piece(&b, &(1, 1), &(1, 3)));
    b.clear_cell(&(1, 2));
    b.put_piece_at_cell(&(1, 3), Piece::new(Color::Dark, PieceKind::Knight));
    assert!(!can_move_piece(&b, &(1, 1), &(1, 3)));
    assert!(can_move_piece(&b, &(1, 1), &(1, 2)));
}

#[test]
fn sliding_pieces_are_blocked_by_any_piece_between() {
    let mut b = empty_board();
    b.put_piece_at_cell(&(0, 0), Piece::new(Color::Light, PieceKind::Rook));
    b.put_piece_at_cell(&(0, 4), Piece::new(Color::Dark, PieceKind::Pawn));
    assert!(can_move_piece(&b, &(0, 0), &(0, 4)));
    assert!(!can_move_piece(&b, &(0, 0), &(0, 5)));
    assert!(!can_move_piece(&b, &(0, 0), &(1, 1)));
    b.put_piece_at_cell(&(2, 2), Piece::new(Color::Light, PieceKind::Bishop));
    b.put_piece_at_cell(&(4, 4), Piece::new(Color::Dark, PieceKind::Pawn));
    assert!(can_move_piece(&b, &(2, 2), &(4, 4)));
    assert!(!can_move_piece(&b, &(2, 2), &(5, 5)));
    assert!(can_move_piece(&b, &(2, 2), &(0, 4)));
    assert!(!can_move_piece(&b, &(2, 2), &(2, 3)));
    b.put_piece_at_cell(&(7, 7), Piece::new(Color::Light, PieceKind::Queen));
    assert!(can_move_piece(&b, &(7, 7), &(5, 5)));
    assert!(!can_move_piece(&b, &(7, 7), &(3, 3)));
    assert!(can_move_piece(&b, &(7, 7), &(0, 7)));
    assert!(!can_move_piece(&b, &(7, 7), &(5, 6)));
}

#[test]
fn knight_and_king_geometry() {
    assert!(can_move_knight(2, 1));
    assert!(can_move_knight(-1, 2));
    assert!(!can_move_knight(2, 2));
    assert!(!can_move_knight(0, 1));
    assert!(can_move_king(-1, 1));
    assert!(can_move_king(0, 0));
    assert!(!can_move_king(-2, 0));
    assert!(!can_move_king(0, 2));
    let b = Board::new(Color::Light);
    assert!(can_move_piece(&b, &(1, 0), &(2, 2)));
    assert!(can_move_piece(&b, &(1, 0), &(0, 2)));
    assert!(!can_move_piece(&b, &(1, 0), &(1, 2)));
    assert!(!can_move_piece(&b, &(4, 0), &(4, 0)));
}

#[test]
fn king_moves_one_cell_in_any_direction_only() {
    let mut b = empty_board();
    b.put_piece_at_cell(&(4, 4), Piece::new(Color::Dark, PieceKind::King));
    assert!(can_move_piece(&b, &(4, 4), &(4, 3)));
    assert!(can_move_piece(&b, &(4, 4), &(3, 5)));
    assert!(!can_move_piece(&b, &(4, 4), &(4, 1)));
    assert!(!can_move_piece(&b, &(4, 4), &(4, 6)));
    assert_eq!(count(&valid_cells_to_move(&b, &(4, 4))), 8);
}

#[test]
fn en_passant_from_opening_only_on_the_next_move() {
    let mut b = Board::new(Color::Light);
    b.make_a_move(&(7, 1), &(7, 2));
    b.make_a_move(&(1, 6), &(1, 4));
    b.make_a_move(&(7, 2), &(7, 3));
    b.make_a_move(&(1, 4), &(1, 3));
    assert!(can_move_piece(&b, &(0, 1), &(0, 3)));
    b.make_a_move(&(0, 1), &(0, 3));
    let leapt = b.piece_at(&(0, 3)).unwrap();
    assert!(leapt.has_pawn_made_leap);
    assert_eq!(leapt.made_n_moves, 1);
    assert_eq!(leapt.last_moved_at_move_number, 4);
    assert_eq!(b.number_of_moves, 5);
    assert!(can_move_piece(&b, &(1, 3), &(0, 2)));
    assert!(chess::moves::is_en_passant_move(&b, &(1, 3), &(0, 2)));

    let mut taken = b;
    taken.make_a_move(&(1, 3), &(0, 2));
    assert_eq!(taken.piece_at(&(0, 3)), None);
    assert_eq!(taken.piece_at(&(1, 3)), None);
    assert_eq!(taken.piece_at(&(0, 2)).unwrap().color, Color::Dark);

    let mut later = b;
    later.make_a_move(&(6, 6), &(6, 5));
    later.make_a_move(&(7, 3), &(7, 4));
    assert!(!can_move_piece(&later, &(1, 3), &(0, 2)));
}

#[test]
fn make_a_move_updates_counters_and_turn() {
    let mut b = Board::new(Color::Light);
    b.make_a_move(&(6, 0), &(5, 2));
    assert_eq!(b.turn, Color::Dark);
    assert_eq!(b.number_of_moves, 1);
    assert_eq!(b.piece_at(&(6, 0)), None);
    let knight = b.piece_at(&(5, 2)).unwrap();
    assert_eq!(knight.kind, PieceKind::Knight);
    assert_eq!(knight.made_n_moves, 1);
    assert_eq!(knight.last_moved_at_move_number, 0);
    assert!(!knight.has_pawn_made_leap);
    b.make_a_move(&(3, 6), &(3, 5));
    assert_eq!(b.turn, Color::Light);
    assert_eq!(b.number_of_moves, 2);
    assert!(!b.piece_at(&(3, 5)).unwrap().has_pawn_made_leap);
    assert_eq!(b.piece_at(&(3, 5)).unwrap().last_moved_at_move_number, 1);
}

#[test]
fn capture_replaces_the_taken_piece() {
    let mut b = empty_board();
    b.put_piece_at_cell(&(0, 0), Piece::new(Color::Light, PieceKind::Rook));
    b.put_piece_at_cell(&(0, 6), Piece::new(Color::Dark, PieceKind::Queen));
    b.make_a_move(&(0, 0), &(0, 6));
    assert_eq!(b.piece_at(&(0, 6)).unwrap().kind, PieceKind::Rook);
    assert_eq!(b.piece_at(&(0, 0)), None);
}

#[test]
fn kings_are_walled_in_at_the_start() {
    for side in [Color::Light, Color::Dark] {
        let b = Board::new(side);
        for color in [Color::Light, Color::Dark] {
            let king = b.get_king_position(color);
            let grid = valid_cells_to_move(&b, &king);
            assert_eq!(grid, [[false; 8]; 8]);
        }
    }
}

#[test]
fn lone_rook_has_fourteen_destinations() {
    let mut b = empty_board();
    b.put_piece_at_cell(&(3, 4), Piece::new(Color::Light, PieceKind::Rook));
    let grid = valid_cells_to_move(&b, &(3, 4));
    assert_eq!(count(&grid), 14);
    assert!(grid[3][0] && grid[3][7] && grid[0][4] && grid[7][4]);
    assert!(!grid[3][4] && !grid[4][5]);
}

#[test]
fn pinned_piece_may_not_expose_its_king() {
    let mut b = empty_board();
    b.put_piece_at_cell(&(4, 0), Piece::new(Color::Light, PieceKind::King));
    b.put_piece_at_cell(&(4, 1), Piece::new(Color::Light, PieceKind::Bishop));
    b.put_piece_at_cell(&(4, 7), Piece::new(Color::Dark, PieceKind::Rook));
    assert!(can_move_piece(&b, &(4, 1), &(5, 2)));
    assert_eq!(count(&valid_cells_to_move(&b, &(4, 1))), 0);
    let king_moves = valid_cells_to_move(&b, &(4, 0));
    assert!(king_moves[3][0] && king_moves[5][1] && king_moves[3][1]);
    assert!(!king_moves[4][1]);
    b.clear_cell(&(4, 1));
    let king_moves = valid_cells_to_move(&b, &(4, 0));
    assert!(!king_moves[4][1]);
    assert!(king_moves[3][1]);
}

#[test]
fn attack_scanner_finds_any_attacker() {
    let b = Board::new(Color::Light);
    assert!(is_any_piece_attacks_position(&b, Color::Light, &(0, 2)));
    assert!(!is_any_piece_attacks_position(&b, Color::Dark, &(0, 2)));
    assert!(is_any_piece_attacks_position(&b, Color::Dark, &(5, 5)));
    assert!(!is_any_piece_attacks_position(&b, Color::Light, &(4, 4)));
    assert!(!is_king_move_leads_to_check(&b, &(4, 0), &(4, 2)));
    assert!(is_king_move_leads_to_check(&b, &(4, 0), &(4, 5)));
}

#[test]
fn missing_king_is_reported() {
    let b = empty_board();
    assert_eq!(b.find_king_position(Color::Light), None);
    let mut b = b;
    b.put_piece_at_cell(&(2, 5), Piece::new(Color::Dark, PieceKind::King));
    assert_eq!(b.find_king_position(Color::Dark), Some((2, 5)));
    assert_eq!(b.get_king_position(Color::Dark), (2, 5));
}

#[test]
fn encoding_exact_values() {
    let mut grid = [[false; 8]; 8];
    assert_eq!(encode_valid_cells_to_integers(&grid), (0, 0));
    grid[0][0] = true;
    assert_eq!(encode_valid_cells_to_integers(&grid), (i32::MIN, 0));
    grid[0][0] = false;
    grid[7][3] = true;
    grid[7][7] = true;
    assert_eq!(encode_valid_cells_to_integers(&grid), (1, 1));
    grid[7][7] = false;
    grid[0][4] = true;
    grid[1][5] = true;
    assert_eq!(encode_valid_cells_to_integers(&grid), (1, i32::MIN | (1 << 26)));
    assert_eq!(encode_valid_cells_to_integers(&[[true; 8]; 8]), (-1, -1));
}

#[test]
fn encoding_round_trips() {
    let mut grid = [[false; 8]; 8];
    for x in 0..8 {
        for y in 0..8 {
            grid[x][y] = (x * 3 + y * 5) % 7 < 3;
        }
    }
    let encoded = encode_valid_cells_to_integers(&grid);
    assert_eq!(decode_valid_cells_from_integers(encoded), grid);
    let b = Board::new(Color::Light);
    let knight_moves = valid_cells_to_move(&b, &(1, 0));
    let decoded = decode_valid_cells_from_integers(encode_valid_cells_to_integers(&knight_moves));
    assert_eq!(decoded, knight_moves);
    assert_eq!(count(&decoded), 2);
}
