use vstd::prelude::*;

use std::marker::PhantomData;

use crate::move_type::{Legal, Move};
use crate::square::TypedSquare;
use crate::types::{CastlingRights, Piece, start_board, start_piece};

verus! {

/// Marker: White is to move.
#[derive(Debug, Clone, Copy, PartialEq, Eq)]
pub struct WhiteToMove;

/// Marker: Black is to move.
#[derive(Debug, Clone, Copy, PartialEq, Eq)]
pub struct BlackToMove;

/// A board whose side to move is part of its type.
#[derive(Debug)]
pub struct BoardState<Turn> {
    pub board: [Option<Piece>; 64],
    pub castling_rights: CastlingRights,
    pub en_passant_target: Option<TypedSquare>,
    pub halfmove_clock: u32,
    pub fullmove_number: u32,
    pub move_history: Vec<Move<Legal>>,
    pub turn_marker: PhantomData<Turn>,
}

impl BoardState<WhiteToMove> {
    /// The starting position.
    pub fn new() -> (r: BoardState<WhiteToMove>)
        ensures
            forall|i: int| 0 <= i < 64 ==> #[trigger] r.board@[i] == start_piece(i),
            r.castling_rights == CastlingRights::new_spec(),
            r.en_passant_target is None,
            r.halfmove_clock == 0,
            r.fullmove_number == 1,
            r.move_history@.len() == 0,
    {
        BoardState {
            board: start_board(),
            castling_rights: CastlingRights::new(),
            en_passant_target: None,
            halfmove_clock: 0,
            fullmove_number: 1,
            move_history: Vec::new(),
            turn_marker: PhantomData,
        }
    }

    /// Hands the move to Black.
    pub fn transition_to_black(self) -> (r: BoardState<BlackToMove>)
        ensures
            r.board == self.board,
            r.castling_rights == self.castling_rights,
            r.en_passant_target == self.en_passant_target,
            r.halfmove_clock == self.halfmove_clock,
            r.fullmove_number == self.fullmove_number,
            r.move_history@ == self.move_history@,
    {
        BoardState {
            board: self.board,
            castling_rights: self.castling_rights,
            en_passant_target: self.en_passant_target,
            halfmove_clock: self.halfmove_clock,
            fullmove_number: self.fullmove_number,
            move_history: self.move_history,
            turn_marker: PhantomData,
        }
    }
}

impl BoardState<BlackToMove> {
    /// Hands the move to White, starting the next full move.
    pub fn transition_to_white(self) -> (r: BoardState<WhiteToMove>)
        requires
            self.fullmove_number < u32::MAX,
        ensures
            r.board == self.board,
            r.castling_rights == self.castling_rights,
            r.en_passant_target == self.en_passant_target,
            r.halfmove_clock == self.halfmove_clock,
            r.fullmove_number == self.fullmove_number + 1,
            r.move_history@ == self.move_history@,
    {
        BoardState {
            board: self.board,
            castling_rights: self.castling_rights,
            en_passant_target: self.en_passant_target,
            halfmove_clock: self.halfmove_clock,
            fullmove_number: self.fullmove_number + 1,
            move_history: self.move_history,
            turn_marker: PhantomData,
        }
    }
}

impl<Turn> BoardState<Turn> {
    pub fn get_piece(&self, square: TypedSquare) -> (r: Option<Piece>)
        ensures
            r == self.board@[square@ as int],
    {
        self.board[square.as_usize()]
    }

    pub fn set_piece(&mut self, square: TypedSquare, piece: Option<Piece>)
        ensures
            final(self).board@ == old(self).board@.update(square@ as int, piece),
            final(self).castling_rights == old(self).castling_rights,
            final(self).en_passant_target == old(self).en_passant_target,
            final(self).halfmove_clock == old(self).halfmove_clock,
            final(self).fullmove_number == old(self).fullmove_number,
            final(self).move_history@ == old(self).move_history@,
    {
        let i = square.as_usize();
        self.board[i] = piece;
    }

    pub fn castling_rights(&self) -> (r: CastlingRights)
        ensures
            r == self.castling_rights,
    {
        self.castling_rights
    }

    pub fn en_passant_target(&self) -> (r: Option<TypedSquare>)
        ensures
            r == self.en_passant_target,
    {
        self.en_passant_target
    }
}

impl Default for BoardState<WhiteToMove> {
    fn default() -> (r: BoardState<WhiteToMove>)
        ensures
            r.fullmove_number == 1,
    {
        BoardState::new()
    }
}

} // verus!
