use vstd::prelude::*;

use crate::attack_tables::chebyshev_spec;
use crate::types::{algebraic, file_letter, parse_square, rank_digit};
use crate::text::push_char;

verus! {

/// A square known to lie in 0..64.
#[derive(Copy, Clone, Debug, PartialEq, Eq, Structural, Hash)]
pub struct TypedSquare(u8);

impl View for TypedSquare {
    type V = u8;

    closed spec fn view(&self) -> u8 {
        self.0
    }
}

impl TypedSquare {
    #[verifier::type_invariant]
    closed spec fn below_64(&self) -> bool {
        self.0 < 64
    }

    pub fn new(value: u8) -> (r: TypedSquare)
        requires
            value < 64,
        ensures
            r@ == value,
    {
        TypedSquare(value)
    }

    pub fn from_u8_unchecked(value: u8) -> (r: TypedSquare)
        requires
            value < 64,
        ensures
            r@ == value,
    {
        TypedSquare(value)
    }

    /// The square with index `value`, if it is below 64.
    pub fn try_from(value: u8) -> (r: Result<TypedSquare, &'static str>)
        ensures
            r is Ok <==> value < 64,
            r is Ok ==> r->Ok_0@ == value,
    {
        if value < 64 {
            Ok(TypedSquare(value))
        } else {
            Err("TypedSquare value must be 0-63")
        }
    }

    pub fn value(self) -> (r: u8)
        ensures
            r == self@,
            r < 64,
    {
        proof {
            use_type_invariant(&self);
        }
        self.0
    }

    pub fn as_usize(self) -> (r: usize)
        ensures
            r == self@,
            r < 64,
    {
        proof {
            use_type_invariant(&self);
        }
        self.0 as usize
    }

    /// Rank 0-7 (0 is rank 1).
    pub fn rank(self) -> (r: u8)
        ensures
            r == self@ / 8,
            r < 8,
    {
        proof {
            use_type_invariant(&self);
        }
        self.0 / 8
    }

    /// File 0-7 (0 is file a).
    pub fn file(self) -> (r: u8)
        ensures
            r == self@ % 8,
    {
        self.0 % 8
    }

    pub fn to_algebraic(self) -> (s: String)
        ensures
            s@ == algebraic(self@ as int),
    {
        proof {
            use_type_invariant(&self);
        }
        let mut s = String::new();
        push_char(&mut s, file_letter((self.0 % 8) as usize));
        push_char(&mut s, rank_digit((self.0 / 8) as usize));
        assert(s@ =~= algebraic(self@ as int));
        s
    }

    /// Parses a square name such as `e4`.
    pub fn from_algebraic(s: &str) -> (r: Result<TypedSquare, &'static str>)
        ensures
            r is Ok <==> parse_square(s@) is Some,
            r is Ok ==> r->Ok_0@ as int == parse_square(s@)->0,
    {
        if s.unicode_len() != 2 {
            return Err("Invalid algebraic notation length");
        }
        let fc = s.get_char(0);
        let rc = s.get_char(1);
        if !('a' <= fc && fc <= 'h') {
            return Err("Invalid file");
        }
        if !('1' <= rc && rc <= '8') {
            return Err("Invalid rank");
        }
        let file = (fc as u32 - 'a' as u32) as u8;
        let rank = (rc as u32 - '1' as u32) as u8;
        Ok(TypedSquare(rank * 8 + file))
    }

    /// The square at a rank and file, both 0-7.
    pub fn from_rank_file(rank: u8, file: u8) -> (r: Result<TypedSquare, &'static str>)
        ensures
            r is Ok <==> rank < 8 && file < 8,
            r is Ok ==> r->Ok_0@ == rank * 8 + file,
    {
        if rank >= 8 || file >= 8 {
            return Err("Rank and file must be 0-7");
        }
        Ok(TypedSquare(rank * 8 + file))
    }

    /// The square shifted by the given file and rank deltas, if still on the board.
    pub fn offset(self, file_delta: i8, rank_delta: i8) -> (r: Option<TypedSquare>)
        ensures
            ({
                let f = self@ % 8 + file_delta;
                let rk = self@ / 8 + rank_delta;
                &&& (0 <= f < 8 && 0 <= rk < 8) ==> r is Some && r->0@ == rk * 8 + f
                &&& !(0 <= f < 8 && 0 <= rk < 8) ==> r is None
            }),
    {
        proof {
            use_type_invariant(&self);
        }
        let file = (self.0 % 8) as i16 + file_delta as i16;
        let rank = (self.0 / 8) as i16 + rank_delta as i16;
        if file < 0 || file >= 8 || rank < 0 || rank >= 8 {
            return None;
        }
        Some(TypedSquare((rank * 8 + file) as u8))
    }

    /// King distance to another square.
    pub fn distance(self, other: TypedSquare) -> (r: u8)
        ensures
            r == chebyshev_spec(self@ as int, other@ as int),
    {
        proof {
            use_type_invariant(&self);
            use_type_invariant(&other);
        }
        let fd = if self.0 % 8 >= other.0 % 8 { self.0 % 8 - other.0 % 8 } else { other.0 % 8 - self.0 % 8 };
        let rd = if self.0 / 8 >= other.0 / 8 { self.0 / 8 - other.0 / 8 } else { other.0 / 8 - self.0 / 8 };
        if fd >= rd { fd } else { rd }
    }
}

} // verus!
