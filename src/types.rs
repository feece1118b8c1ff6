use vstd::prelude::*;

use crate::text::push_char;

verus! {

/// A board square: 0 is a1, 63 is h8; rank = square / 8, file = square % 8.
pub type Square = usize;

#[derive(Debug, Clone, Copy, PartialEq, Eq, Structural, Hash)]
pub enum Color {
    White,
    Black,
}

impl Color {
    pub open spec fn opp(self) -> Color {
        match self {
            Color::White => Color::Black,
            Color::Black => Color::White,
        }
    }

    pub fn opposite(&self) -> (r: Color)
        ensures
            r == self.opp(),
    {
        match self {
            Color::White => Color::Black,
            Color::Black => Color::White,
        }
    }

    pub fn is_white(&self) -> (r: bool)
        ensures
            r == (*self == Color::White),
    {
        match self {
            Color::White => true,
            Color::Black => false,
        }
    }

    pub fn is_black(&self) -> (r: bool)
        ensures
            r == (*self == Color::Black),
    {
        match self {
            Color::White => false,
            Color::Black => true,
        }
    }
}

#[derive(Debug, Clone, Copy, PartialEq, Eq, Structural, Hash)]
pub enum PieceType {
    King,
    Queen,
    Rook,
    Bishop,
    Knight,
    Pawn,
}

/// Material value in centipawns.
pub open spec fn value_of(t: PieceType) -> i32 {
    match t {
        PieceType::Pawn => 100,
        PieceType::Knight => 320,
        PieceType::Bishop => 330,
        PieceType::Rook => 500,
        PieceType::Queen => 900,
        PieceType::King => 20000,
    }
}

/// Upper-case letter of a piece type.
pub open spec fn letter_of(t: PieceType) -> char {
    match t {
        PieceType::King => 'K',
        PieceType::Queen => 'Q',
        PieceType::Rook => 'R',
        PieceType::Bishop => 'B',
        PieceType::Knight => 'N',
        PieceType::Pawn => 'P',
    }
}

/// Lower-case letter of a piece type.
pub open spec fn lower_letter_of(t: PieceType) -> char {
    match t {
        PieceType::King => 'k',
        PieceType::Queen => 'q',
        PieceType::Rook => 'r',
        PieceType::Bishop => 'b',
        PieceType::Knight => 'n',
        PieceType::Pawn => 'p',
    }
}

/// The piece type that a letter of either case names.
pub open spec fn type_of_letter(ch: char) -> Option<PieceType> {
    if ch == 'K' || ch == 'k' {
        Some(PieceType::King)
    } else if ch == 'Q' || ch == 'q' {
        Some(PieceType::Queen)
    } else if ch == 'R' || ch == 'r' {
        Some(PieceType::Rook)
    } else if ch == 'B' || ch == 'b' {
        Some(PieceType::Bishop)
    } else if ch == 'N' || ch == 'n' {
        Some(PieceType::Knight)
    } else if ch == 'P' || ch == 'p' {
        Some(PieceType::Pawn)
    } else {
        None
    }
}

impl PieceType {
    pub fn from_char(ch: char) -> (r: Option<PieceType>)
        ensures
            r == type_of_letter(ch),
    {
        if ch == 'K' || ch == 'k' {
            Some(PieceType::King)
        } else if ch == 'Q' || ch == 'q' {
            Some(PieceType::Queen)
        } else if ch == 'R' || ch == 'r' {
            Some(PieceType::Rook)
        } else if ch == 'B' || ch == 'b' {
            Some(PieceType::Bishop)
        } else if ch == 'N' || ch == 'n' {
            Some(PieceType::Knight)
        } else if ch == 'P' || ch == 'p' {
            Some(PieceType::Pawn)
        } else {
            None
        }
    }

    pub fn value(&self) -> (r: i32)
        ensures
            r == value_of(*self),
    {
        match self {
            PieceType::Pawn => 100,
            PieceType::Knight => 320,
            PieceType::Bishop => 330,
            PieceType::Rook => 500,
            PieceType::Queen => 900,
            PieceType::King => 20000,
        }
    }

    pub fn to_lower_char(&self) -> (r: char)
        ensures
            r == lower_letter_of(*self),
    {
        match self {
            PieceType::King => 'k',
            PieceType::Queen => 'q',
            PieceType::Rook => 'r',
            PieceType::Bishop => 'b',
            PieceType::Knight => 'n',
            PieceType::Pawn => 'p',
        }
    }

    pub fn to_char(&self) -> (r: char)
        ensures
            r == letter_of(*self),
    {
        match self {
            PieceType::King => 'K',
            PieceType::Queen => 'Q',
            PieceType::Rook => 'R',
            PieceType::Bishop => 'B',
            PieceType::Knight => 'N',
            PieceType::Pawn => 'P',
        }
    }
}

#[derive(Debug, Clone, Copy, PartialEq, Eq, Structural, Hash)]
pub struct Piece {
    pub piece_type: PieceType,
    pub color: Color,
}

/// FEN letter of a piece: upper case for White, lower case for Black.
pub open spec fn piece_letter(p: Piece) -> char {
    if p.color == Color::White {
        letter_of(p.piece_type)
    } else {
        lower_letter_of(p.piece_type)
    }
}

pub open spec fn is_upper_letter(ch: char) -> bool {
    'A' <= ch && ch <= 'Z'
}

impl Piece {
    pub fn new(piece_type: PieceType, color: Color) -> (r: Piece)
        ensures
            r == (Piece { piece_type, color }),
    {
        Piece { piece_type, color }
    }

    pub fn to_char(&self) -> (r: char)
        ensures
            r == piece_letter(*self),
    {
        match self.color {
            Color::White => self.piece_type.to_char(),
            Color::Black => match self.piece_type {
                PieceType::King => 'k',
                PieceType::Queen => 'q',
                PieceType::Rook => 'r',
                PieceType::Bishop => 'b',
                PieceType::Knight => 'n',
                PieceType::Pawn => 'p',
            },
        }
    }

    pub fn from_char(ch: char) -> (r: Option<Piece>)
        ensures
            type_of_letter(ch) is None ==> r is None,
            type_of_letter(ch) is Some ==> r == Some(
                Piece {
                    piece_type: type_of_letter(ch)->0,
                    color: if is_upper_letter(ch) { Color::White } else { Color::Black },
                },
            ),
    {
        match PieceType::from_char(ch) {
            None => None,
            Some(piece_type) => {
                let color = if 'A' <= ch && ch <= 'Z' { Color::White } else { Color::Black };
                Some(Piece::new(piece_type, color))
            },
        }
    }

    pub fn value(&self) -> (r: i32)
        ensures
            r == value_of(self.piece_type),
    {
        self.piece_type.value()
    }
}

/// A move: `captured` is set iff a piece is removed (for en passant the pawn
/// behind `to`), `promotion` only when a pawn reaches its last rank.
#[derive(Debug, Clone, Copy, PartialEq, Eq)]
pub struct Move {
    pub from: Square,
    pub to: Square,
    pub piece: PieceType,
    pub captured: Option<PieceType>,
    pub promotion: Option<PieceType>,
    pub is_castling: bool,
    pub is_en_passant: bool,
}

/// The plain move record under its older name.
pub type LegacyMove = Move;

pub open spec fn quiet_move(from: Square, to: Square, piece: PieceType) -> Move {
    Move {
        from,
        to,
        piece,
        captured: None,
        promotion: None,
        is_castling: false,
        is_en_passant: false,
    }
}

impl Move {
    pub fn new(from: Square, to: Square, piece: PieceType) -> (r: Move)
        ensures
            r == quiet_move(from, to, piece),
    {
        Move {
            from,
            to,
            piece,
            captured: None,
            promotion: None,
            is_castling: false,
            is_en_passant: false,
        }
    }

    pub fn with_capture(self, captured: PieceType) -> (r: Move)
        ensures
            r == (Move { captured: Some(captured), ..self }),
    {
        Move { captured: Some(captured), ..self }
    }

    pub fn with_promotion(self, promotion: PieceType) -> (r: Move)
        ensures
            r == (Move { promotion: Some(promotion), ..self }),
    {
        Move { promotion: Some(promotion), ..self }
    }

    pub fn with_castling(self) -> (r: Move)
        ensures
            r == (Move { is_castling: true, ..self }),
    {
        Move { is_castling: true, ..self }
    }

    pub fn with_en_passant(self) -> (r: Move)
        ensures
            r == (Move { is_en_passant: true, ..self }),
    {
        Move { is_en_passant: true, ..self }
    }
}

#[derive(Debug, Clone, Copy, PartialEq, Eq, Structural)]
pub struct CastlingRights {
    pub white_kingside: bool,
    pub white_queenside: bool,
    pub black_kingside: bool,
    pub black_queenside: bool,
}

impl CastlingRights {
    pub fn new() -> (r: CastlingRights)
        ensures
            r.white_kingside && r.white_queenside && r.black_kingside && r.black_queenside,
    {
        CastlingRights {
            white_kingside: true,
            white_queenside: true,
            black_kingside: true,
            black_queenside: true,
        }
    }

    pub fn none() -> (r: CastlingRights)
        ensures
            !r.white_kingside && !r.white_queenside && !r.black_kingside && !r.black_queenside,
    {
        CastlingRights {
            white_kingside: false,
            white_queenside: false,
            black_kingside: false,
            black_queenside: false,
        }
    }

    pub fn custom(
        white_kingside: bool,
        white_queenside: bool,
        black_kingside: bool,
        black_queenside: bool,
    ) -> (r: CastlingRights)
        ensures
            r == (CastlingRights { white_kingside, white_queenside, black_kingside, black_queenside }),
    {
        CastlingRights { white_kingside, white_queenside, black_kingside, black_queenside }
    }

    pub fn remove_white_kingside(&mut self)
        ensures
            *final(self) == (CastlingRights { white_kingside: false, ..*old(self) }),
    {
        self.white_kingside = false;
    }

    pub fn remove_white_queenside(&mut self)
        ensures
            *final(self) == (CastlingRights { white_queenside: false, ..*old(self) }),
    {
        self.white_queenside = false;
    }

    pub fn remove_black_kingside(&mut self)
        ensures
            *final(self) == (CastlingRights { black_kingside: false, ..*old(self) }),
    {
        self.black_kingside = false;
    }

    pub fn remove_black_queenside(&mut self)
        ensures
            *final(self) == (CastlingRights { black_queenside: false, ..*old(self) }),
    {
        self.black_queenside = false;
    }

    pub fn remove_white(&mut self)
        ensures
            *final(self) == (CastlingRights {
                white_kingside: false,
                white_queenside: false,
                ..*old(self)
            }),
    {
        self.white_kingside = false;
        self.white_queenside = false;
    }

    pub fn remove_black(&mut self)
        ensures
            *final(self) == (CastlingRights {
                black_kingside: false,
                black_queenside: false,
                ..*old(self)
            }),
    {
        self.black_kingside = false;
        self.black_queenside = false;
    }
}

impl Default for CastlingRights {
    fn default() -> (r: CastlingRights)
        ensures
            r.white_kingside && r.white_queenside && r.black_kingside && r.black_queenside,
    {
        CastlingRights::new()
    }
}

/// What `make` cannot recompute on `undo`, taken before each move.
#[derive(Debug, Clone, Copy, PartialEq, Eq, Structural)]
pub struct IrreversibleState {
    pub castling_rights: CastlingRights,
    pub en_passant_target: Option<Square>,
    pub halfmove_clock: u32,
    pub fullmove_number: u32,
    pub hash: u64,
}

/// The piece on each square of the starting position.
pub open spec fn start_piece(sq: int) -> Option<Piece> {
    let c = if sq < 32 { Color::White } else { Color::Black };
    let f = sq % 8;
    if 8 <= sq < 16 || 48 <= sq < 56 {
        Some(Piece { piece_type: PieceType::Pawn, color: c })
    } else if sq < 8 || sq >= 56 {
        Some(Piece { piece_type: back_rank_type(f), color: c })
    } else {
        None
    }
}

pub open spec fn back_rank_type(f: int) -> PieceType {
    if f == 0 || f == 7 {
        PieceType::Rook
    } else if f == 1 || f == 6 {
        PieceType::Knight
    } else if f == 2 || f == 5 {
        PieceType::Bishop
    } else if f == 3 {
        PieceType::Queen
    } else {
        PieceType::King
    }
}

/// The standard starting arrangement as a 64-square board.
pub fn start_board() -> (board: [Option<Piece>; 64])
    ensures
        forall|i: int| 0 <= i < 64 ==> #[trigger] board@[i] == start_piece(i),
{
    let mut board: [Option<Piece>; 64] = [None; 64];
    let mut f: usize = 0;
    while f < 8
        invariant
            f <= 8,
            forall|i: int| 0 <= i < 64 ==> #[trigger] board@[i] == if (0 <= i % 8 < f as int)
                && (i < 16 || i >= 48) {
                start_piece(i)
            } else {
                None
            },
        decreases 8 - f,
    {
        let t = if f == 0 || f == 7 {
            PieceType::Rook
        } else if f == 1 || f == 6 {
            PieceType::Knight
        } else if f == 2 || f == 5 {
            PieceType::Bishop
        } else if f == 3 {
            PieceType::Queen
        } else {
            PieceType::King
        };
        board[f] = Some(Piece::new(t, Color::White));
        board[8 + f] = Some(Piece::new(PieceType::Pawn, Color::White));
        board[48 + f] = Some(Piece::new(PieceType::Pawn, Color::Black));
        board[56 + f] = Some(Piece::new(t, Color::Black));
        f = f + 1;
    }
    board
}

/// A position with everything `undo` and draw detection need.
#[derive(Debug, Clone)]
pub struct GameState {
    pub board: [Option<Piece>; 64],
    pub turn: Color,
    pub castling_rights: CastlingRights,
    pub en_passant_target: Option<Square>,
    pub halfmove_clock: u32,
    pub fullmove_number: u32,
    pub hash: u64,
    pub move_history: Vec<Move>,
    pub irreversible_history: Vec<IrreversibleState>,
    pub position_history: Vec<u64>,
}

impl GameState {
    /// The starting position; its `hash` is left at 0 for the owner to fill in.
    pub fn new() -> (r: GameState)
        ensures
            forall|i: int| 0 <= i < 64 ==> #[trigger] r.board@[i] == start_piece(i),
            r.turn == Color::White,
            r.castling_rights == (CastlingRights {
                white_kingside: true,
                white_queenside: true,
                black_kingside: true,
                black_queenside: true,
            }),
            r.en_passant_target is None,
            r.halfmove_clock == 0,
            r.fullmove_number == 1,
            r.hash == 0,
            r.move_history@.len() == 0,
            r.irreversible_history@.len() == 0,
            r.position_history@.len() == 0,
    {
        GameState {
            board: start_board(),
            turn: Color::White,
            castling_rights: CastlingRights::new(),
            en_passant_target: None,
            halfmove_clock: 0,
            fullmove_number: 1,
            hash: 0,
            move_history: Vec::new(),
            irreversible_history: Vec::new(),
            position_history: Vec::new(),
        }
    }
}

impl Default for GameState {
    fn default() -> (r: GameState)
        ensures
            r.turn == Color::White,
            r.hash == 0,
    {
        GameState::new()
    }
}

pub open spec fn file_char(f: int) -> char {
    if f == 0 { 'a' }
    else if f == 1 { 'b' }
    else if f == 2 { 'c' }
    else if f == 3 { 'd' }
    else if f == 4 { 'e' }
    else if f == 5 { 'f' }
    else if f == 6 { 'g' }
    else { 'h' }
}

pub open spec fn rank_char(r: int) -> char {
    if r == 0 { '1' }
    else if r == 1 { '2' }
    else if r == 2 { '3' }
    else if r == 3 { '4' }
    else if r == 4 { '5' }
    else if r == 5 { '6' }
    else if r == 6 { '7' }
    else { '8' }
}

/// Square name in algebraic notation, such as `e4`.
pub open spec fn algebraic(sq: int) -> Seq<char> {
    seq![file_char(sq % 8), rank_char(sq / 8)]
}

pub const FILES: [char; 8] = ['a', 'b', 'c', 'd', 'e', 'f', 'g', 'h'];

pub const RANKS: [char; 8] = ['1', '2', '3', '4', '5', '6', '7', '8'];

pub fn file_letter(f: usize) -> (c: char)
    requires
        f < 8,
    ensures
        c == file_char(f as int),
{
    if f == 0 { 'a' }
    else if f == 1 { 'b' }
    else if f == 2 { 'c' }
    else if f == 3 { 'd' }
    else if f == 4 { 'e' }
    else if f == 5 { 'f' }
    else if f == 6 { 'g' }
    else { 'h' }
}

pub fn rank_digit(r: usize) -> (c: char)
    requires
        r < 8,
    ensures
        c == rank_char(r as int),
{
    if r == 0 { '1' }
    else if r == 1 { '2' }
    else if r == 2 { '3' }
    else if r == 3 { '4' }
    else if r == 4 { '5' }
    else if r == 5 { '6' }
    else if r == 6 { '7' }
    else { '8' }
}

pub fn square_to_algebraic(square: Square) -> (s: String)
    requires
        square < 64,
    ensures
        s@ == algebraic(square as int),
{
    let mut s = String::new();
    push_char(&mut s, file_letter(square % 8));
    push_char(&mut s, rank_digit(square / 8));
    proof {
        assert(s@ =~= algebraic(square as int));
    }
    s
}

/// Index of a file letter `a`..`h`.
pub open spec fn file_index(c: char) -> Option<int> {
    if 'a' <= c && c <= 'h' {
        Some(c as int - 'a' as int)
    } else {
        None
    }
}

/// Index of a rank digit `1`..`8`.
pub open spec fn rank_index(c: char) -> Option<int> {
    if '1' <= c && c <= '8' {
        Some(c as int - '1' as int)
    } else {
        None
    }
}

/// The square that a two-character name denotes, if any.
pub open spec fn parse_square(s: Seq<char>) -> Option<int> {
    if s.len() == 2 && file_index(s[0]) is Some && rank_index(s[1]) is Some {
        Some(rank_index(s[1])->0 * 8 + file_index(s[0])->0)
    } else {
        None
    }
}

pub fn algebraic_to_square(algebraic: &str) -> (r: Result<Square, String>)
    ensures
        r is Ok <==> parse_square(algebraic@) is Some,
        r is Ok ==> r->Ok_0 as int == parse_square(algebraic@)->0,
{
    let n = algebraic.unicode_len();
    if n != 2 {
        return Err(String::from_str("Invalid algebraic notation"));
    }
    let fc = algebraic.get_char(0);
    let rc = algebraic.get_char(1);
    if !('a' <= fc && fc <= 'h') {
        return Err(String::from_str("Invalid file"));
    }
    if !('1' <= rc && rc <= '8') {
        return Err(String::from_str("Invalid rank"));
    }
    let file = (fc as u32 - 'a' as u32) as usize;
    let rank = (rc as u32 - '1' as u32) as usize;
    Ok(rank * 8 + file)
}

} // verus!

verus! {

impl View for GameState {
    type V = crate::position::Pos;

    open spec fn view(&self) -> crate::position::Pos {
        crate::position::Pos {
            board: self.board@,
            turn: self.turn,
            castling: self.castling_rights,
            ep: self.en_passant_target,
            halfmove: self.halfmove_clock,
            fullmove: self.fullmove_number,
            hash: self.hash,
            moves: self.move_history@,
            snaps: self.irreversible_history@,
            hashes: self.position_history@,
        }
    }
}

} // verus!

verus! {

impl CastlingRights {
    pub open spec fn new_spec() -> CastlingRights {
        CastlingRights {
            white_kingside: true,
            white_queenside: true,
            black_kingside: true,
            black_queenside: true,
        }
    }
}

} // verus!
