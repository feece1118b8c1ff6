use chess_engine::ai::AI;
use chess_engine::board::Board;
use chess_engine::engine::{parse_move_text, ChessEngine, EngineError, GameStatus};
use chess_engine::eval::tapered::interpolate;
use chess_engine::eval::RichEvaluator;
use chess_engine::fen::FenParser;
use chess_engine::iterative_deepening::{extract_pv, iterative_deepening};
use chess_engine::perft::{move_to_string, Perft};
use chess_engine::square::TypedSquare;
use chess_engine::time_manager::{TimeControl, TimeManager};
use chess_engine::types::{algebraic_to_square, square_to_algebraic, Color, Move, Piece, PieceType};

fn from_fen(fen: &str) -> Board {
    let mut board = Board::new();
    FenParser::new().parse_fen(&mut board, fen).expect("valid FEN");
    board
}

#[test]
fn engine_apply_and_undo() {
    let mut engine = ChessEngine::new();
    let m = engine.apply_move_text("e2e4").expect("legal");
    assert_eq!((m.from, m.to), (12, 28));
    assert_eq!(engine.export_fen(), "rnbqkbnr/pppppppp/8/8/4P3/8/PPPP1PPP/RNBQKBNR b KQkq e3 0 1");
    assert_eq!(engine.undo().unwrap().to, 28);
    assert_eq!(engine.undo(), Err(EngineError::NoMovesToUndo));
}

#[test]
fn engine_rejects_bad_requests() {
    let mut engine = ChessEngine::new();
    let before = engine.hash();
    assert_eq!(engine.apply_move_text("e2e5"), Err(EngineError::IllegalMove));
    assert_eq!(engine.apply_move_text("e2"), Err(EngineError::InvalidMoveText));
    assert_eq!(engine.apply_move_text("z9e4"), Err(EngineError::InvalidMoveText));
    assert_eq!(engine.set_position_from_fen("not a fen"), Err(EngineError::MalformedFen));
    assert_eq!(engine.hash(), before);
}

#[test]
fn engine_default_promotion_is_queen() {
    let mut engine = ChessEngine::new();
    engine.set_position_from_fen("8/P7/8/8/8/8/8/4k2K w - - 0 1").unwrap();
    let m = engine.apply_move(48, 56, None).unwrap();
    assert_eq!(m.promotion, Some(PieceType::Queen));
    engine.undo().unwrap();
    let m = engine.apply_move(48, 56, Some(PieceType::Knight)).unwrap();
    assert_eq!(m.promotion, Some(PieceType::Knight));
}

#[test]
fn engine_status_reports() {
    let mut engine = ChessEngine::new();
    assert_eq!(engine.status(), GameStatus::Ongoing);
    engine
        .set_position_from_fen("rnbqkbnr/pppp1Qpp/5n2/4p3/2B1P3/8/PPPP1PPP/RNB1K1NR b KQkq - 0 3")
        .unwrap();
    assert_eq!(engine.status(), GameStatus::Checkmate { winner: Color::White });
    engine.set_position_from_fen("7k/5Q2/6K1/8/8/8/8/8 b - - 0 1").unwrap();
    assert_eq!(engine.status(), GameStatus::Stalemate);
    engine.set_position_from_fen("4k3/8/8/8/8/8/8/4K2R w - - 100 80").unwrap();
    assert_eq!(engine.status(), GameStatus::Draw);
}

#[test]
fn move_text_parsing() {
    assert_eq!(parse_move_text("e2e4"), Some((12, 28, None)));
    assert_eq!(parse_move_text("a7a8q"), Some((48, 56, Some(PieceType::Queen))));
    assert_eq!(parse_move_text("a7a8x"), None);
    assert_eq!(parse_move_text("i2e4"), None);
}

#[test]
fn search_finds_mate_in_one() {
    let mut engine = ChessEngine::new();
    engine.set_position_from_fen("6k1/5ppp/8/8/8/8/5PPP/R5K1 w - - 0 1").unwrap();
    let result = engine.search_depth(2);
    let m = result.best_move.expect("a move");
    assert_eq!(move_to_string(&m), "a1a8");
    assert_eq!(result.evaluation, 100000);
}

#[test]
fn search_without_moves() {
    let mut board = from_fen("7k/5Q2/6K1/8/8/8/8/8 b - - 0 1");
    let mut ai = AI::new();
    let result = ai.find_best_move(&mut board, 2);
    assert!(result.best_move.is_none());
}

#[test]
fn iterative_deepening_to_fixed_depth() {
    let mut board = Board::new();
    let mut ai = AI::new();
    let mut tm = TimeManager::new(TimeControl::Depth(3), 1, true);
    let before = board.get_hash();
    let result = iterative_deepening(&mut board, 3, &mut tm, &mut ai);
    assert_eq!(result.depth_reached, 3);
    assert_eq!(result.info.len(), 3);
    assert!(result.best_move.is_some());
    assert_eq!(board.get_hash(), before);
    let pv = extract_pv(&board, ai.get_tt(), 3);
    assert!(!pv.is_empty() && pv.len() <= 3);
}

#[test]
fn iterative_deepening_stops_at_mate() {
    let mut board = from_fen("6k1/5ppp/8/8/8/8/5PPP/R5K1 w - - 0 1");
    let mut ai = AI::new();
    let mut tm = TimeManager::new(TimeControl::Depth(4), 1, true);
    let result = iterative_deepening(&mut board, 4, &mut tm, &mut ai);
    assert_eq!(result.depth_reached, 2);
    assert_eq!(result.best_score, 100000);
}

#[test]
fn simple_evaluation_values() {
    let board = Board::new();
    let ai = AI::new();
    assert_eq!(ai.evaluate(&board), 0);
    let board = from_fen("4k3/8/8/8/8/8/8/4K2R w - - 0 1");
    // Rook 500; both kings stand on their first rank on the e-file (-20 each, cancelling).
    assert_eq!(ai.evaluate(&board), 500);
}

#[test]
fn rich_evaluation_symmetry() {
    let board = Board::new();
    assert_eq!(RichEvaluator::new().evaluate(&board), 0);
    let board = from_fen("4k3/8/8/8/8/8/8/4K2R w - - 0 1");
    assert!(RichEvaluator::new().evaluate(&board) > 400);
}

#[test]
fn tapered_interpolation_values() {
    assert_eq!(interpolate(100, 50, 24), 100);
    assert_eq!(interpolate(100, 50, 0), 50);
    assert_eq!(interpolate(100, 50, 12), 75);
    assert_eq!(interpolate(-100, -50, 12), -75);
    assert_eq!(interpolate(-1, 0, 12), 0);
}

#[test]
fn time_allocation_late_game() {
    // Move 40: max(20, 50 - 40) = 20 moves left; 60000 / 20 + 0 = 3000.
    assert_eq!(TimeManager::allocate_time(60000, 0, 40), (3000, 48000));
    // The increment cannot push the base past half the remaining time.
    assert_eq!(TimeManager::allocate_time(1000, 5000, 5), (500, 800));
    let tm = TimeManager::new(
        TimeControl::TimeIncrement { white_time: 60000, black_time: 30000, white_inc: 0, black_inc: 0 },
        40,
        false,
    );
    assert_eq!(tm.allocated_time_ms(), Some(1500));
}

#[test]
fn continue_iteration_by_elapsed_time() {
    let tm = TimeManager::new(TimeControl::MoveTime(1000), 1, true);
    assert!(tm.should_continue_at(3, 249));
    assert!(!tm.should_continue_at(3, 250));
    assert!(tm.should_stop_at(1000));
    assert!(!tm.should_stop_at(999));
}

#[test]
fn square_names() {
    assert_eq!(square_to_algebraic(28), "e4");
    assert_eq!(square_to_algebraic(63), "h8");
    assert_eq!(algebraic_to_square("a1"), Ok(0));
    assert!(algebraic_to_square("a9").is_err());
    assert!(algebraic_to_square("a10").is_err());
}

#[test]
fn typed_square_helpers() {
    let e4 = TypedSquare::from_algebraic("e4").unwrap();
    assert_eq!(e4.offset(1, 1).unwrap().value(), 37);
    assert!(e4.offset(4, 0).is_none());
    assert_eq!(e4.distance(TypedSquare::new(0)), 4);
    assert!(TypedSquare::from_rank_file(8, 0).is_err());
    assert_eq!(TypedSquare::from_rank_file(1, 2).unwrap().value(), 10);
    assert!(TypedSquare::from_algebraic("i4").is_err());
}

#[test]
fn piece_letters() {
    assert_eq!(Piece::from_char('n'), Some(Piece::new(PieceType::Knight, Color::Black)));
    assert_eq!(Piece::from_char('Q'), Some(Piece::new(PieceType::Queen, Color::White)));
    assert_eq!(Piece::from_char('x'), None);
    assert_eq!(PieceType::Queen.value(), 900);
    assert!(Color::White.is_white() && Color::Black.is_black());
}

#[test]
fn legacy_move_to_typed() {
    let m = Move::new(12, 28, PieceType::Pawn).with_capture(PieceType::Knight);
    let t = m.to_unchecked();
    assert_eq!(t.from().value(), 12);
    assert_eq!(t.to().value(), 28);
    assert_eq!(t.captured(), Some(PieceType::Knight));
}

#[test]
fn perft_divide_matches_perft() {
    let mut board = Board::new();
    let perft = Perft::new();
    let divide = perft.perft_divide(&mut board, 2);
    assert_eq!(divide.len(), 20);
    assert!(divide.iter().all(|(_, n)| *n == 20));
    assert!(divide.iter().any(|(name, _)| name == "e2e4"));
}

#[test]
fn promotion_move_names() {
    let m = Move::new(48, 56, PieceType::Pawn).with_promotion(PieceType::Queen);
    assert_eq!(move_to_string(&m), "a7a8q");
}

#[test]
fn unstable_best_move_extends_time() {
    let mut tm = TimeManager::new(TimeControl::MoveTime(1000), 1, true);
    assert!(!tm.should_continue_at(3, 260));
    tm.report_iteration(1, 0, Some(1));
    tm.report_iteration(2, 0, Some(2));
    tm.report_iteration(3, 0, Some(3));
    tm.report_iteration(4, 0, Some(4));
    assert_eq!(tm.best_move_changes(), 3);
    // 30% more: the threshold becomes 1300 ms.
    assert!(tm.should_continue_at(4, 260));
    assert!(!tm.should_continue_at(4, 325));
}

#[test]
fn table_size_is_next_power_of_two() {
    assert_eq!(chess_engine::transposition_table::TranspositionTable::new(1).size(), 65536);
    assert_eq!(chess_engine::transposition_table::TranspositionTable::new(3).size(), 262144);
    assert_eq!(chess_engine::transposition_table::TranspositionTable::new(0).size(), 1);
}

#[test]
fn engine_search_reaches_requested_depth() {
    let mut engine = ChessEngine::new();
    let result = engine.search(TimeControl::Depth(2));
    assert_eq!(result.depth_reached, 2);
    assert_eq!(result.info.len(), 2);
    assert_eq!(result.info[0].depth, 1);
    assert!(result.best_move.is_some());
    assert!(!result.info[1].pv.is_empty());
}
