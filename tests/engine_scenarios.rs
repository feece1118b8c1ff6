use chess_engine::board::Board;
use chess_engine::draw_detection::is_draw_by_fifty_moves;
use chess_engine::fen::FenParser;
use chess_engine::move_generator::MoveGenerator;
use chess_engine::perft::Perft;
use chess_engine::transposition_table::{encode_move, BoundType, TranspositionTable};
use chess_engine::types::{algebraic_to_square, Color, Move, Piece, PieceType};

fn from_fen(fen: &str) -> Board {
    let mut board = Board::new();
    FenParser::new().parse_fen(&mut board, fen).expect("valid FEN");
    board
}

fn legal(board: &mut Board) -> Vec<Move> {
    let turn = board.get_turn();
    MoveGenerator::new().get_legal_moves(board, turn)
}

fn find(board: &mut Board, text: &str) -> Option<Move> {
    let from = algebraic_to_square(&text[0..2]).unwrap();
    let to = algebraic_to_square(&text[2..4]).unwrap();
    let promo = text.chars().nth(4).and_then(PieceType::from_char);
    legal(board)
        .into_iter()
        .find(|m| m.from == from && m.to == to && (promo.is_none() || m.promotion == promo))
}

fn play(board: &mut Board, text: &str) {
    let m = find(board, text).expect("move is legal");
    board.make_move(&m);
}

#[test]
fn perft_start_depth_1_to_3() {
    let mut board = Board::new();
    let perft = Perft::new();
    assert_eq!(perft.perft(&mut board, 1), 20);
    assert_eq!(perft.perft(&mut board, 2), 400);
    assert_eq!(perft.perft(&mut board, 3), 8902);
}

#[test]
fn perft_start_depth_4() {
    let mut board = Board::new();
    assert_eq!(Perft::new().perft(&mut board, 4), 197281);
}

#[test]
fn perft_kiwipete_depth_1_to_3() {
    let mut board = from_fen("r3k2r/p1ppqpb1/bn2pnp1/3PN3/1p2P3/2N2Q1p/PPPBBPPP/R3K2R w KQkq - 0 1");
    let perft = Perft::new();
    assert_eq!(perft.perft(&mut board, 1), 48);
    assert_eq!(perft.perft(&mut board, 2), 2039);
    assert_eq!(perft.perft(&mut board, 3), 97862);
}

#[test]
fn perft_leaves_board_unchanged() {
    let mut board = Board::new();
    let before = board.get_hash();
    Perft::new().perft(&mut board, 3);
    assert_eq!(board.get_hash(), before);
    assert_eq!(board.get_turn(), Color::White);
}

#[test]
fn scholars_mate_is_checkmate() {
    let mut board = from_fen("rnbqkbnr/pppp1Qpp/5n2/4p3/2B1P3/8/PPPP1PPP/RNB1K1NR b KQkq - 0 3");
    let mg = MoveGenerator::new();
    assert!(legal(&mut board).is_empty());
    assert!(mg.is_in_check(&board, Color::Black));
    assert!(mg.is_checkmate(&mut board, Color::Black));
    assert!(!mg.is_stalemate(&mut board, Color::Black));
}

#[test]
fn stalemate_position() {
    let mut board = from_fen("7k/5Q2/6K1/8/8/8/8/8 b - - 0 1");
    let mg = MoveGenerator::new();
    assert!(legal(&mut board).is_empty());
    assert!(!mg.is_in_check(&board, Color::Black));
    assert!(mg.is_stalemate(&mut board, Color::Black));
}

#[test]
fn threefold_repetition_by_knight_moves() {
    let mut board = Board::new();
    for mv in ["g1f3", "g8f6", "f3g1", "f6g8", "g1f3", "g8f6", "f3g1"] {
        play(&mut board, mv);
        assert!(!board.is_draw());
    }
    play(&mut board, "f6g8");
    assert!(board.is_draw());
}

#[test]
fn fifty_move_rule() {
    let mut board = from_fen("4k3/8/8/8/8/8/8/4K2R w - - 0 1");
    let cycle = ["h1h2", "e8d8", "h2h1", "d8e8"];
    for i in 0..100 {
        assert!(!is_draw_by_fifty_moves(board.get_state()));
        play(&mut board, cycle[i % 4]);
    }
    assert_eq!(board.get_state().halfmove_clock, 100);
    assert!(is_draw_by_fifty_moves(board.get_state()));
    assert!(board.is_draw());
}

#[test]
fn fifty_move_rule_from_counter() {
    let board = from_fen("4k3/8/8/8/8/8/8/4K2R w - - 99 80");
    assert!(!board.is_draw());
    let board = from_fen("4k3/8/8/8/8/8/8/4K2R w - - 100 80");
    assert!(board.is_draw());
}

#[test]
fn en_passant_capture() {
    let mut board = from_fen("rnbqkbnr/ppp1pppp/8/8/3pP3/8/PPPP1PPP/RNBQKBNR b KQkq e3 0 2");
    let m = find(&mut board, "d4e3").expect("en passant is legal");
    assert!(m.is_en_passant);
    assert_eq!(m.captured, Some(PieceType::Pawn));
    board.make_move(&m);
    assert_eq!(board.get_piece(28), None);
    assert_eq!(board.get_piece(20), Some(Piece::new(PieceType::Pawn, Color::Black)));
}

#[test]
fn castling_through_attack_is_illegal() {
    // A white rook on f1 attacks f8, the square the black king crosses.
    let mut attacked = from_fen("r3k2r/8/8/8/8/8/8/4KR2 b kq - 0 1");
    assert!(find(&mut attacked, "e8g8").is_none());
    assert!(find(&mut attacked, "e8c8").is_some());
    let mut free = from_fen("r3k2r/8/8/8/8/8/8/4K3 b kq - 0 1");
    assert!(find(&mut free, "e8g8").is_some());
}

#[test]
fn promotion_to_queen() {
    let mut board = from_fen("8/P7/8/8/8/8/8/4k2K w - - 0 1");
    play(&mut board, "a7a8q");
    assert_eq!(board.get_piece(56), Some(Piece::new(PieceType::Queen, Color::White)));
    assert_eq!(board.get_piece(48), None);
}

#[test]
fn tt_round_trip() {
    let mut tt = TranspositionTable::new(1);
    let key = 0xDEADBEEF12345678;
    let m = encode_move(12, 28);
    tt.store(key, 7, -250, BoundType::Exact, Some(m));
    let e = tt.probe(key).expect("stored");
    assert_eq!(e.key, key);
    assert_eq!(e.depth, 7);
    assert_eq!(e.score, -250);
    assert_eq!(e.bound, BoundType::Exact);
    assert_eq!(e.best_move, Some(m));
    assert_eq!(e.age, tt.age());
}

#[test]
fn make_undo_restores_start() {
    let mut board = Board::new();
    let h = board.get_hash();
    play(&mut board, "e2e4");
    assert_ne!(board.get_hash(), h);
    assert_eq!(board.get_en_passant_target(), Some(20));
    board.undo_move();
    assert_eq!(board.get_hash(), h);
    assert_eq!(board.get_en_passant_target(), None);
    assert_eq!(board.get_piece(12), Some(Piece::new(PieceType::Pawn, Color::White)));
}

#[test]
fn fen_round_trip() {
    let fen = "r3k2r/p1ppqpb1/bn2pnp1/3PN3/1p2P3/2N2Q1p/PPPBBPPP/R3K2R w KQkq - 0 1";
    let board = from_fen(fen);
    assert_eq!(FenParser::new().export_fen(&board), fen);
    let start = Board::new();
    assert_eq!(
        FenParser::new().export_fen(&start),
        "rnbqkbnr/pppppppp/8/8/8/8/PPPPPPPP/RNBQKBNR w KQkq - 0 1"
    );
}

#[test]
fn malformed_fen_leaves_board() {
    let mut board = Board::new();
    let h = board.get_hash();
    assert!(FenParser::new().parse_fen(&mut board, "rnbqkbnr/pppppppp w KQkq -").is_err());
    assert!(FenParser::new().parse_fen(&mut board, "8/8/8/8/8/8/8/8 x - - 0 1").is_err());
    assert_eq!(board.get_hash(), h);
}

#[test]
fn perft_start_depth_5() {
    let mut board = Board::new();
    assert_eq!(Perft::new().perft(&mut board, 5), 4865609);
}

#[test]
fn perft_kiwipete_depth_4() {
    let mut board = from_fen("r3k2r/p1ppqpb1/bn2pnp1/3PN3/1p2P3/2N2Q1p/PPPBBPPP/R3K2R w KQkq - 0 1");
    assert_eq!(Perft::new().perft(&mut board, 4), 4085603);
}

#[test]
fn incremental_hash_matches_recomputation() {
    let zobrist = chess_engine::zobrist::ZobristTable::new();
    let mut board = from_fen("r3k2r/p1ppqpb1/bn2pnp1/3PN3/1p2P3/2N2Q1p/PPPBBPPP/R3K2R w KQkq - 0 1");
    for m in legal(&mut board) {
        board.make_move(&m);
        assert_eq!(chess_engine::zobrist::compute_hash(board.get_state(), &zobrist), board.get_hash());
        for reply in legal(&mut board) {
            board.make_move(&reply);
            assert_eq!(chess_engine::zobrist::compute_hash(board.get_state(), &zobrist), board.get_hash());
            board.undo_move();
        }
        board.undo_move();
    }
}

#[test]
fn legal_moves_never_leave_king_in_check() {
    let mg = MoveGenerator::new();
    let mut board = from_fen("r3k2r/p1ppqpb1/bn2pnp1/3PN3/1p2P3/2N2Q1p/PPPBBPPP/R3K2R w KQkq - 0 1");
    let mover = board.get_turn();
    let fen_before = FenParser::new().export_fen(&board);
    for m in legal(&mut board) {
        board.make_move(&m);
        assert!(!mg.is_in_check(&board, mover));
        board.undo_move();
        assert_eq!(FenParser::new().export_fen(&board), fen_before);
    }
}

#[test]
fn check_matches_opponent_moves_onto_king() {
    let mg = MoveGenerator::new();
    for fen in [
        "rnbqkbnr/pppp1Qpp/5n2/4p3/2B1P3/8/PPPP1PPP/RNB1K1NR b KQkq - 0 3",
        "7k/5Q2/6K1/8/8/8/8/8 b - - 0 1",
        "4k3/8/8/8/8/8/8/4K2R b - - 0 1",
        "4k3/8/8/1B6/8/8/8/4K3 b - - 0 1",
        "4k3/8/3N4/8/8/8/8/4K3 b - - 0 1",
    ] {
        let board = from_fen(fen);
        let king = (0..64)
            .find(|&s| board.get_piece(s) == Some(Piece::new(PieceType::King, Color::Black)))
            .unwrap();
        let hits = mg.generate_moves(&board, Color::White).iter().any(|m| m.to == king);
        assert_eq!(mg.is_in_check(&board, Color::Black), hits, "{}", fen);
    }
}
