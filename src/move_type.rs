use vstd::prelude::*;

use std::marker::PhantomData;

use crate::square::TypedSquare;
use crate::types::PieceType;

verus! {

/// Marker of a move that has not been checked against a position.
#[derive(Debug, Clone, Copy, PartialEq, Eq)]
pub struct Unchecked;

/// Marker of a move that has been validated.
#[derive(Debug, Clone, Copy, PartialEq, Eq)]
pub struct Legal;

/// A move with squares known to be on the board, tagged by its validation state.
#[derive(Debug, PartialEq, Eq)]
pub struct Move<T> {
    pub from: TypedSquare,
    pub to: TypedSquare,
    pub piece: PieceType,
    pub captured: Option<PieceType>,
    pub promotion: Option<PieceType>,
    pub is_castling: bool,
    pub is_en_passant: bool,
    pub marker: PhantomData<T>,
}

impl<T> Move<T> {
    pub fn from(&self) -> (r: TypedSquare)
        ensures
            r == self.from,
    {
        self.from
    }

    pub fn to(&self) -> (r: TypedSquare)
        ensures
            r == self.to,
    {
        self.to
    }

    pub fn piece(&self) -> (r: PieceType)
        ensures
            r == self.piece,
    {
        self.piece
    }

    pub fn captured(&self) -> (r: Option<PieceType>)
        ensures
            r == self.captured,
    {
        self.captured
    }

    pub fn promotion(&self) -> (r: Option<PieceType>)
        ensures
            r == self.promotion,
    {
        self.promotion
    }

    pub fn is_castling(&self) -> (r: bool)
        ensures
            r == self.is_castling,
    {
        self.is_castling
    }

    pub fn is_en_passant(&self) -> (r: bool)
        ensures
            r == self.is_en_passant,
    {
        self.is_en_passant
    }

    pub fn with_capture(self, captured: PieceType) -> (r: Move<T>)
        ensures
            r == (Move { captured: Some(captured), ..self }),
    {
        Move { captured: Some(captured), ..self }
    }

    pub fn with_promotion(self, promotion: PieceType) -> (r: Move<T>)
        ensures
            r == (Move { promotion: Some(promotion), ..self }),
    {
        Move { promotion: Some(promotion), ..self }
    }

    pub fn with_castling(self) -> (r: Move<T>)
        ensures
            r == (Move { is_castling: true, ..self }),
    {
        Move { is_castling: true, ..self }
    }

    pub fn with_en_passant(self) -> (r: Move<T>)
        ensures
            r == (Move { is_en_passant: true, ..self }),
    {
        Move { is_en_passant: true, ..self }
    }
}

impl Move<Unchecked> {
    /// A plain move from `from` to `to`, not yet validated.
    pub fn new_unchecked(from: TypedSquare, to: TypedSquare, piece: PieceType) -> (r: Move<Unchecked>)
        ensures
            r.from == from,
            r.to == to,
            r.piece == piece,
            r.captured is None,
            r.promotion is None,
            !r.is_castling,
            !r.is_en_passant,
    {
        Move {
            from,
            to,
            piece,
            captured: None,
            promotion: None,
            is_castling: false,
            is_en_passant: false,
            marker: PhantomData,
        }
    }

    /// The same move, marked as validated.
    pub(crate) fn to_legal(self) -> (r: Move<Legal>)
        ensures
            r.from == self.from,
            r.to == self.to,
            r.piece == self.piece,
            r.captured == self.captured,
            r.promotion == self.promotion,
            r.is_castling == self.is_castling,
            r.is_en_passant == self.is_en_passant,
    {
        Move {
            from: self.from,
            to: self.to,
            piece: self.piece,
            captured: self.captured,
            promotion: self.promotion,
            is_castling: self.is_castling,
            is_en_passant: self.is_en_passant,
            marker: PhantomData,
        }
    }
}

impl Move<Legal> {
    pub(crate) fn new_legal(from: TypedSquare, to: TypedSquare, piece: PieceType) -> (r: Move<Legal>)
        ensures
            r.from == from,
            r.to == to,
            r.piece == piece,
            r.captured is None,
            r.promotion is None,
            !r.is_castling,
            !r.is_en_passant,
    {
        Move {
            from,
            to,
            piece,
            captured: None,
            promotion: None,
            is_castling: false,
            is_en_passant: false,
            marker: PhantomData,
        }
    }
}

} // verus!

verus! {

/// The square index a plain move's square maps to: its low byte when that is
/// below 64, else a1.
pub open spec fn typed_index(s: usize) -> u8 {
    if ((s % 256) as u8) < 64 { (s % 256) as u8 } else { 0 }
}

fn typed_square_of(s: usize) -> (r: TypedSquare)
    ensures
        r@ == typed_index(s),
{
    let low = (s % 256) as u8;
    if low < 64 {
        TypedSquare::new(low)
    } else {
        TypedSquare::new(0)
    }
}

impl crate::types::Move {
    /// The same move with typed squares, not yet validated.
    pub fn to_unchecked(self) -> (r: Move<Unchecked>)
        ensures
            r.from@ == typed_index(self.from),
            r.to@ == typed_index(self.to),
            r.piece == self.piece,
            r.captured == self.captured,
            r.promotion == self.promotion,
            r.is_castling == self.is_castling,
            r.is_en_passant == self.is_en_passant,
    {
        let mut mv = Move::new_unchecked(typed_square_of(self.from), typed_square_of(self.to), self.piece);
        mv.captured = self.captured;
        mv.promotion = self.promotion;
        mv.is_castling = self.is_castling;
        mv.is_en_passant = self.is_en_passant;
        mv
    }
}

} // verus!
