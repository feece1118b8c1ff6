use chess_engine::attack_tables::{get_attack_tables, Direction};
use chess_engine::board_state::{BoardState, WhiteToMove};
use chess_engine::move_type::Move as TypedMove;
use chess_engine::square::TypedSquare;
use chess_engine::time_manager::{TimeControl, TimeManager};
use chess_engine::transposition_table::{decode_move, encode_move, BoundType, TranspositionTable};
use chess_engine::types::{CastlingRights, Color, GameState, Piece, PieceType};
use chess_engine::zobrist::{compute_hash, ZobristTable};

#[test]
fn test_knight_attacks_corner() {
    let tables = get_attack_tables();
    let attacks = tables.knight.get(0);
    assert_eq!(attacks.len(), 2);
    assert!(attacks.contains(&10));
    assert!(attacks.contains(&17));
}

#[test]
fn test_knight_attacks_center() {
    let tables = get_attack_tables();
    let attacks = tables.knight.get(27);
    assert_eq!(attacks.len(), 8);
}

#[test]
fn test_king_attacks_corner() {
    let tables = get_attack_tables();
    let attacks = tables.king.get(0);
    assert_eq!(attacks.len(), 3);
}

#[test]
fn test_king_attacks_center() {
    let tables = get_attack_tables();
    let attacks = tables.king.get(27);
    assert_eq!(attacks.len(), 8);
}

#[test]
fn test_ray_north() {
    let tables = get_attack_tables();
    let ray = tables.rays.get(0, Direction::North);
    assert_eq!(ray.len(), 7);
    assert_eq!(ray[0], 8);
    assert_eq!(ray[6], 56);
}

#[test]
fn test_chebyshev_distance() {
    let tables = get_attack_tables();
    assert_eq!(tables.distance.chebyshev(0, 0), 0);
    assert_eq!(tables.distance.chebyshev(0, 63), 7);
    assert_eq!(tables.distance.chebyshev(0, 7), 7);
}

#[test]
fn test_manhattan_distance() {
    let tables = get_attack_tables();
    assert_eq!(tables.distance.manhattan(0, 0), 0);
    assert_eq!(tables.distance.manhattan(0, 63), 14);
    assert_eq!(tables.distance.manhattan(0, 7), 7);
}

#[test]
fn test_time_allocation() {
    let (base, max) = TimeManager::allocate_time(60000, 1000, 10);
    assert!(base >= 2000 && base <= 4000);
    // The base time is clamped to half the remaining time; the hard limit is 80% of it.
    assert!(base <= 30000);
    assert_eq!(max, 48000);
    assert_eq!(base, 3000);
}

#[test]
fn test_move_time_control() {
    let tm = TimeManager::new(TimeControl::MoveTime(1000), 10, true);
    assert_eq!(tm.allocated_time_ms(), Some(1000));
    assert!(!tm.should_stop());
}

#[test]
fn test_depth_control() {
    let tm = TimeManager::new(TimeControl::Depth(5), 10, true);
    assert_eq!(tm.allocated_time_ms(), None);
    assert!(!tm.should_stop());
    assert!(tm.should_continue_iteration(3));
    assert!(!tm.should_continue_iteration(5));
}

#[test]
fn test_infinite_control() {
    let tm = TimeManager::new(TimeControl::Infinite, 10, true);
    assert_eq!(tm.allocated_time_ms(), None);
    assert!(!tm.should_stop());
    assert!(tm.should_continue_iteration(10));
}

#[test]
fn test_best_move_tracking() {
    let mut tm = TimeManager::new(TimeControl::MoveTime(5000), 10, true);
    tm.report_iteration(1, 100, Some(0x1234));
    assert_eq!(tm.best_move_changes(), 0);
    tm.report_iteration(2, 150, Some(0x1234));
    assert_eq!(tm.best_move_changes(), 0);
    tm.report_iteration(3, 120, Some(0x5678));
    assert_eq!(tm.best_move_changes(), 1);
}

#[test]
fn test_score_instability() {
    let mut tm = TimeManager::new(TimeControl::MoveTime(5000), 10, true);
    tm.report_iteration(1, 100, Some(0x1234));
    assert_eq!(tm.best_move_changes(), 0);
    tm.report_iteration(2, 200, Some(0x1234));
    assert_eq!(tm.best_move_changes(), 1);
}

#[test]
fn test_tt_store_and_probe() {
    let mut tt = TranspositionTable::new(16);
    let key = 0x123456789ABCDEF0;
    tt.store(key, 5, 100, BoundType::Exact, Some(encode_move(12, 28)));
    let entry = tt.probe(key);
    assert!(entry.is_some());
    let entry = entry.unwrap();
    assert_eq!(entry.key, key);
    assert_eq!(entry.depth, 5);
    assert_eq!(entry.score, 100);
    assert_eq!(entry.bound, BoundType::Exact);
}

#[test]
fn test_tt_replacement_policy() {
    let mut tt = TranspositionTable::new(1);
    let key1 = 0x1000;
    // Setting a bit at or above the table size leaves the slot unchanged.
    let key2 = key1 | (tt.size() as u64);

    tt.store(key1, 5, 100, BoundType::Exact, None);
    assert!(tt.probe(key1).is_some());

    tt.store(key2, 10, 200, BoundType::Exact, None);
    assert!(tt.probe(key2).is_some());
    assert!(tt.probe(key1).is_none());
}

#[test]
fn test_move_encoding() {
    let from = 12;
    let to = 28;
    let encoded = encode_move(from, to);
    let (decoded_from, decoded_to) = decode_move(encoded);
    assert_eq!(from, decoded_from);
    assert_eq!(to, decoded_to);
}

#[test]
fn test_tt_clear() {
    let mut tt = TranspositionTable::new(16);
    tt.store(0x1234, 5, 100, BoundType::Exact, None);
    assert!(tt.probe(0x1234).is_some());
    tt.clear();
    assert!(tt.probe(0x1234).is_none());
}

#[test]
fn test_tt_age_increment() {
    let mut tt = TranspositionTable::new(16);
    let initial_age = tt.age();
    tt.new_search();
    assert_eq!(tt.age(), initial_age.wrapping_add(1));
}

#[test]
fn test_new_board() {
    let board = BoardState::<WhiteToMove>::new();
    let e1 = TypedSquare::try_from(4u8).unwrap();
    let piece = board.get_piece(e1);
    assert!(piece.is_some());
    assert_eq!(piece.unwrap().color, Color::White);
}

#[test]
fn test_transition() {
    let white_board = BoardState::<WhiteToMove>::new();
    let black_board = white_board.transition_to_black();
    let white_board2 = black_board.transition_to_white();
    assert_eq!(white_board2.fullmove_number, 2);
}

#[test]
fn test_new_castling_rights() {
    let rights = CastlingRights::new();
    assert!(rights.white_kingside);
    assert!(rights.white_queenside);
    assert!(rights.black_kingside);
    assert!(rights.black_queenside);
}

#[test]
fn test_none_castling_rights() {
    let rights = CastlingRights::none();
    assert!(!rights.white_kingside);
    assert!(!rights.white_queenside);
    assert!(!rights.black_kingside);
    assert!(!rights.black_queenside);
}

#[test]
fn test_remove_rights() {
    let mut rights = CastlingRights::new();
    rights.remove_white_kingside();
    assert!(!rights.white_kingside);
    assert!(rights.white_queenside);
}

#[test]
fn test_move_creation() {
    let from = TypedSquare::try_from(12u8).unwrap();
    let to = TypedSquare::try_from(28u8).unwrap();
    let mv = TypedMove::new_unchecked(from, to, PieceType::Pawn);
    assert_eq!(mv.from(), from);
    assert_eq!(mv.to(), to);
}

#[test]
fn test_move_with_capture() {
    let from = TypedSquare::try_from(12u8).unwrap();
    let to = TypedSquare::try_from(28u8).unwrap();
    let mv = TypedMove::new_unchecked(from, to, PieceType::Pawn).with_capture(PieceType::Knight);
    assert_eq!(mv.captured(), Some(PieceType::Knight));
}

#[test]
fn test_color_opposite() {
    assert_eq!(Color::White.opposite(), Color::Black);
    assert_eq!(Color::Black.opposite(), Color::White);
}

#[test]
fn test_piece_type_from_char() {
    assert_eq!(PieceType::from_char('K'), Some(PieceType::King));
    assert_eq!(PieceType::from_char('k'), Some(PieceType::King));
}

#[test]
fn test_piece_to_char() {
    let white_king = Piece::new(PieceType::King, Color::White);
    assert_eq!(white_king.to_char(), 'K');
    let black_king = Piece::new(PieceType::King, Color::Black);
    assert_eq!(black_king.to_char(), 'k');
}

#[test]
fn test_square_creation() {
    let sq = TypedSquare::try_from(28u8).unwrap();
    assert_eq!(sq.value(), 28);
}

#[test]
fn test_square_invalid() {
    assert!(TypedSquare::try_from(64u8).is_err());
}

#[test]
fn test_rank_file() {
    let e4 = TypedSquare::try_from(28u8).unwrap();
    assert_eq!(e4.rank(), 3);
    assert_eq!(e4.file(), 4);
}

#[test]
fn test_algebraic() {
    let e4 = TypedSquare::from_algebraic("e4").unwrap();
    assert_eq!(e4.value(), 28);
    assert_eq!(e4.to_algebraic(), "e4");
}

#[test]
fn test_zobrist_table_creation() {
    let zobrist = ZobristTable::new();
    assert_ne!(zobrist.piece_key(Piece::new(PieceType::Pawn, Color::White), 0), 0);
    assert_ne!(zobrist.castling_key(CastlingRights::custom(true, false, false, false)), 0);
    assert_ne!(zobrist.en_passant_key(0), 0);
    assert_ne!(zobrist.black_to_move_key(), 0);
}

#[test]
fn test_zobrist_deterministic() {
    let zobrist1 = ZobristTable::new();
    let zobrist2 = ZobristTable::new();
    let pawn = Piece::new(PieceType::Pawn, Color::White);
    let rights = CastlingRights::custom(true, false, true, false);
    assert_eq!(zobrist1.piece_key(pawn, 0), zobrist2.piece_key(pawn, 0));
    assert_eq!(zobrist1.castling_key(rights), zobrist2.castling_key(rights));
    assert_eq!(zobrist1.black_to_move_key(), zobrist2.black_to_move_key());
}

#[test]
fn test_initial_position_hash() {
    let zobrist = ZobristTable::new();
    let state = GameState::new();
    let hash = compute_hash(&state, &zobrist);
    assert_ne!(hash, 0);
    let hash2 = compute_hash(&state, &zobrist);
    assert_eq!(hash, hash2);
}

#[test]
fn test_hash_changes_with_side_to_move() {
    let zobrist = ZobristTable::new();
    let mut state = GameState::new();
    let hash1 = compute_hash(&state, &zobrist);
    state.turn = Color::Black;
    let hash2 = compute_hash(&state, &zobrist);
    assert_ne!(hash1, hash2);
    assert_eq!(hash1 ^ hash2, zobrist.black_to_move_key());
}
