mod text;
pub mod types;
pub mod square;
pub mod move_type;
pub mod board_state;
pub mod zobrist;
pub mod position;
pub mod board;
pub mod geometry;
pub mod attack_tables;
pub mod move_generator;
pub mod attack_laws;
pub mod perft;
pub mod draw_detection;
pub mod transposition_table;
pub mod time_manager;
pub mod ai;
pub mod iterative_deepening;
pub mod fen;
pub mod engine;
pub mod eval;
