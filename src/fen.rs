use vstd::prelude::*;

use crate::board::{Board, fresh};
use crate::position::Pos;
use crate::text::push_char;
use crate::types::{CastlingRights, Color, Piece, Square, algebraic, is_upper_letter, parse_square, piece_letter, type_of_letter};

verus! {

/// The six fields of a FEN record, decoded.
pub struct FenFields {
    pub board: Seq<Option<Piece>>,
    pub turn: Color,
    pub castling: CastlingRights,
    pub ep: Option<Square>,
    pub halfmove: u32,
    pub fullmove: u32,
}

pub open spec fn is_ws(c: char) -> bool {
    c == ' ' || c == '\t' || c == '\n' || c == '\r'
}

/// Whitespace-separated fields of `s` after the fields already in `acc` and
/// the partial field `cur`.
pub open spec fn split_fields(s: Seq<char>, cur: Seq<char>, acc: Seq<Seq<char>>) -> Seq<Seq<char>>
    decreases s.len(),
{
    if s.len() == 0 {
        if cur.len() > 0 { acc.push(cur) } else { acc }
    } else if is_ws(s[0]) {
        split_fields(s.drop_first(), Seq::empty(), if cur.len() > 0 { acc.push(cur) } else { acc })
    } else {
        split_fields(s.drop_first(), cur.push(s[0]), acc)
    }
}

pub open spec fn fields_of(s: Seq<char>) -> Seq<Seq<char>> {
    split_fields(s, Seq::empty(), Seq::empty())
}

/// Placement decoding state: the board so far, and the rank and file of the next square.
pub struct PlaceState {
    pub board: Seq<Option<Piece>>,
    pub rank: int,
    pub file: int,
}

pub open spec fn digit_value(c: char) -> int {
    c as int - '0' as int
}

pub open spec fn place_step(st: PlaceState, c: char) -> Option<PlaceState> {
    if c == '/' {
        if st.file == 8 && st.rank > 0 {
            Some(PlaceState { rank: st.rank - 1, file: 0, ..st })
        } else {
            None
        }
    } else if '1' <= c && c <= '8' {
        if st.file + digit_value(c) <= 8 {
            Some(PlaceState { file: st.file + digit_value(c), ..st })
        } else {
            None
        }
    } else if type_of_letter(c) is Some && st.file < 8 {
        Some(PlaceState {
            board: st.board.update(
                st.rank * 8 + st.file,
                Some(Piece {
                    piece_type: type_of_letter(c)->0,
                    color: if is_upper_letter(c) { Color::White } else { Color::Black },
                }),
            ),
            file: st.file + 1,
            ..st
        })
    } else {
        None
    }
}

pub open spec fn place_run(st: PlaceState, s: Seq<char>) -> Option<PlaceState>
    decreases s.len(),
{
    if s.len() == 0 {
        Some(st)
    } else {
        match place_step(st, s[0]) {
            Some(n) => place_run(n, s.drop_first()),
            None => None,
        }
    }
}

pub open spec fn empty_board() -> Seq<Option<Piece>> {
    Seq::new(64, |i: int| None::<Piece>)
}

/// The board that a placement field describes: eight ranks from the 8th down,
/// each filling exactly eight files.
pub open spec fn placement(s: Seq<char>) -> Option<Seq<Option<Piece>>> {
    match place_run(PlaceState { board: empty_board(), rank: 7, file: 0 }, s) {
        Some(st) => if st.rank == 0 && st.file == 8 { Some(st.board) } else { None },
        None => None,
    }
}

pub open spec fn is_digit(c: char) -> bool {
    '0' <= c && c <= '9'
}

/// Value of a string of decimal digits read from the left.
pub open spec fn digits_value(s: Seq<char>) -> int
    decreases s.len(),
{
    if s.len() == 0 {
        0
    } else {
        digits_value(s.drop_last()) * 10 + digit_value(s.last())
    }
}

/// A counter field: non-empty decimal digits whose value fits a u32.
pub open spec fn counter(s: Seq<char>) -> Option<u32> {
    if s.len() > 0 && (forall|i: int| 0 <= i < s.len() ==> is_digit(#[trigger] s[i])) && digits_value(s)
        <= u32::MAX {
        Some(digits_value(s) as u32)
    } else {
        None
    }
}

pub open spec fn castling_run(s: Seq<char>, cr: CastlingRights) -> Option<CastlingRights>
    decreases s.len(),
{
    if s.len() == 0 {
        Some(cr)
    } else {
        let c = s[0];
        let next = if c == 'K' {
            Some(CastlingRights { white_kingside: true, ..cr })
        } else if c == 'Q' {
            Some(CastlingRights { white_queenside: true, ..cr })
        } else if c == 'k' {
            Some(CastlingRights { black_kingside: true, ..cr })
        } else if c == 'q' {
            Some(CastlingRights { black_queenside: true, ..cr })
        } else {
            None
        };
        match next {
            Some(n) => castling_run(s.drop_first(), n),
            None => None,
        }
    }
}

pub open spec fn no_rights() -> CastlingRights {
    CastlingRights { white_kingside: false, white_queenside: false, black_kingside: false, black_queenside: false }
}

/// The castling field: `-`, or letters among `KQkq`.
pub open spec fn castling_field(s: Seq<char>) -> Option<CastlingRights> {
    if s == seq!['-'] {
        Some(no_rights())
    } else if s.len() == 0 {
        None
    } else {
        castling_run(s, no_rights())
    }
}

/// The en-passant field: `-`, or a square name.
pub open spec fn ep_field(s: Seq<char>) -> Option<Option<Square>> {
    if s == seq!['-'] {
        Some(None)
    } else {
        match parse_square(s) {
            Some(q) => Some(Some(q as Square)),
            None => None,
        }
    }
}

pub open spec fn turn_field(s: Seq<char>) -> Option<Color> {
    if s == seq!['w'] {
        Some(Color::White)
    } else if s == seq!['b'] {
        Some(Color::Black)
    } else {
        None
    }
}

/// A FEN record: four to six fields; missing counters read as 0 and 1.
pub open spec fn parse_fen_spec(s: Seq<char>) -> Option<FenFields> {
    let f = fields_of(s);
    if f.len() < 4 || f.len() > 6 {
        None
    } else {
        let hm = if f.len() > 4 { counter(f[4]) } else { Some(0u32) };
        let fm = if f.len() > 5 { counter(f[5]) } else { Some(1u32) };
        if placement(f[0]) is Some && turn_field(f[1]) is Some && castling_field(f[2]) is Some
            && ep_field(f[3]) is Some && hm is Some && fm is Some {
            Some(FenFields {
                board: placement(f[0])->0,
                turn: turn_field(f[1])->0,
                castling: castling_field(f[2])->0,
                ep: ep_field(f[3])->0,
                halfmove: hm->0,
                fullmove: fm->0,
            })
        } else {
            None
        }
    }
}

} // verus!

verus! {

/// The characters of a string.
pub fn str_chars(s: &str) -> (r: Vec<char>)
    ensures
        r@ == s@,
{
    let n = s.unicode_len();
    let mut v: Vec<char> = Vec::new();
    let mut i: usize = 0;
    while i < n
        invariant
            i <= n,
            n == s@.len(),
            v@ == s@.take(i as int),
        decreases n - i,
    {
        v.push(s.get_char(i));
        assert(s@.take(i as int + 1) =~= s@.take(i as int).push(s@[i as int]));
        i = i + 1;
    }
    assert(s@.take(n as int) =~= s@);
    v
}

fn is_ws_char(c: char) -> (r: bool)
    ensures
        r == is_ws(c),
{
    c == ' ' || c == '\t' || c == '\n' || c == '\r'
}

/// Splits at whitespace into non-empty fields.
pub fn split_fields_exec(s: &Vec<char>) -> (r: Vec<Vec<char>>)
    ensures
        r@.len() == fields_of(s@).len(),
        forall|i: int| 0 <= i < r@.len() ==> (#[trigger] r@[i])@ == fields_of(s@)[i],
{
    let ghost whole = fields_of(s@);
    let mut acc: Vec<Vec<char>> = Vec::new();
    let ghost mut accv: Seq<Seq<char>> = Seq::empty();
    let mut cur: Vec<char> = Vec::new();
    let mut i: usize = 0;
    let n = s.len();
    assert(s@.subrange(0, n as int) =~= s@);
    while i < n
        invariant
            i <= n,
            n == s@.len(),
            acc@.len() == accv.len(),
            forall|j: int| 0 <= j < acc@.len() ==> (#[trigger] acc@[j])@ == accv[j],
            whole == split_fields(s@.subrange(i as int, n as int), cur@, accv),
        decreases n - i,
    {
        let c = s[i];
        assert(s@.subrange(i as int, n as int).drop_first() =~= s@.subrange(i as int + 1, n as int));
        assert(s@.subrange(i as int, n as int)[0] == c);
        if is_ws_char(c) {
            if cur.len() > 0 {
                proof {
                    accv = accv.push(cur@);
                }
                acc.push(cur);
                cur = Vec::new();
                assert(cur@ =~= Seq::<char>::empty());
            } else {
                assert(cur@ =~= Seq::<char>::empty());
            }
        } else {
            cur.push(c);
        }
        i = i + 1;
    }
    if cur.len() > 0 {
        proof {
            accv = accv.push(cur@);
        }
        acc.push(cur);
    }
    acc
}

fn letter_piece(c: char) -> (r: Option<Piece>)
    ensures
        type_of_letter(c) is None ==> r is None,
        type_of_letter(c) is Some ==> r == Some(
            Piece {
                piece_type: type_of_letter(c)->0,
                color: if is_upper_letter(c) { Color::White } else { Color::Black },
            },
        ),
{
    Piece::from_char(c)
}

/// Decodes the placement field.
pub fn parse_placement(s: &Vec<char>) -> (r: Option<[Option<Piece>; 64]>)
    ensures
        r is Some <==> placement(s@) is Some,
        r is Some ==> r->0@ == placement(s@)->0,
{
    let mut squares: [Option<Piece>; 64] = [None; 64];
    let mut rank: usize = 7;
    let mut file: usize = 0;
    let n = s.len();
    let ghost init = PlaceState { board: empty_board(), rank: 7, file: 0 };
    assert(squares@ =~= empty_board());
    assert(s@.subrange(0, n as int) =~= s@);
    let mut i: usize = 0;
    let mut ok = true;
    while i < n && ok
        invariant
            i <= n,
            n == s@.len(),
            rank <= 7,
            file <= 8,
            squares@.len() == 64,
            ok ==> place_run(init, s@) == place_run(PlaceState { board: squares@, rank: rank as int, file: file as int }, s@.subrange(i as int, n as int)),
            !ok ==> place_run(init, s@) is None,
        decreases n - i + if ok { 1int } else { 0int },
    {
        let c = s[i];
        let ghost st = PlaceState { board: squares@, rank: rank as int, file: file as int };
        assert(s@.subrange(i as int, n as int).drop_first() =~= s@.subrange(i as int + 1, n as int));
        assert(s@.subrange(i as int, n as int)[0] == c);
        if c == '/' {
            if file == 8 && rank > 0 {
                rank = rank - 1;
                file = 0;
            } else {
                ok = false;
            }
        } else if '1' <= c && c <= '8' {
            let d = (c as u32 - '0' as u32) as usize;
            if file + d <= 8 {
                file = file + d;
            } else {
                ok = false;
            }
        } else {
            match letter_piece(c) {
                Some(p) => {
                    if file < 8 {
                        squares[rank * 8 + file] = Some(p);
                        file = file + 1;
                    } else {
                        ok = false;
                    }
                },
                None => {
                    ok = false;
                },
            }
        }
        if ok {
            assert(place_step(st, c) == Some(PlaceState { board: squares@, rank: rank as int, file: file as int }));
            i = i + 1;
        } else {
            assert(place_step(st, c) is None);
        }
    }
    if !ok {
        return None;
    }
    assert(s@.subrange(n as int, n as int) =~= Seq::<char>::empty());
    if rank == 0 && file == 8 {
        Some(squares)
    } else {
        None
    }
}

proof fn lemma_cap_step(dv: int, d: int, cap: int)
    requires
        dv >= 0,
        0 <= d <= 9,
        cap > 0,
    ensures
        (if dv * 10 + d < cap { dv * 10 + d } else { cap }) == (if (if dv < cap { dv } else { cap }) * 10 + d
            < cap {
            (if dv < cap { dv } else { cap }) * 10 + d
        } else {
            cap
        }),
{
    if dv >= cap {
        assert(dv * 10 + d >= cap) by (nonlinear_arith)
            requires
                dv >= cap,
                cap > 0,
                d >= 0,
        ;
        assert(cap * 10 + d >= cap) by (nonlinear_arith)
            requires
                cap > 0,
                d >= 0,
        ;
    }
}

proof fn lemma_digits_nonneg(s: Seq<char>)
    requires
        forall|i: int| 0 <= i < s.len() ==> is_digit(#[trigger] s[i]),
    ensures
        digits_value(s) >= 0,
    decreases s.len(),
{
    if s.len() > 0 {
        assert forall|i: int| 0 <= i < s.drop_last().len() implies is_digit(#[trigger] s.drop_last()[i]) by {
            assert(s.drop_last()[i] == s[i]);
        }
        lemma_digits_nonneg(s.drop_last());
        assert(digits_value(s.drop_last()) * 10 >= 0) by (nonlinear_arith)
            requires
                digits_value(s.drop_last()) >= 0,
        ;
    }
}

/// Reads a move counter.
pub fn parse_counter(s: &Vec<char>) -> (r: Option<u32>)
    ensures
        r == counter(s@),
{
    let n = s.len();
    if n == 0 {
        return None;
    }
    let cap: u64 = 0x1_0000_0000;
    let mut value: u64 = 0;
    let mut i: usize = 0;
    while i < n
        invariant
            i <= n,
            n == s@.len(),
            forall|j: int| 0 <= j < i ==> is_digit(#[trigger] s@[j]),
            value as int == if digits_value(s@.take(i as int)) < cap as int { digits_value(s@.take(i as int)) } else { cap as int },
            cap == 0x1_0000_0000u64,
        decreases n - i,
    {
        let c = s[i];
        if !('0' <= c && c <= '9') {
            assert(!is_digit(s@[i as int]));
            return None;
        }
        let d = (c as u32 - '0' as u32) as u64;
        proof {
            assert(s@.take(i as int + 1).drop_last() =~= s@.take(i as int));
            assert(s@.take(i as int + 1).last() == c);
            assert forall|j: int| 0 <= j < s@.take(i as int).len() implies is_digit(#[trigger] s@.take(i as int)[j]) by {
                assert(s@.take(i as int)[j] == s@[j]);
            }
            lemma_digits_nonneg(s@.take(i as int));
            lemma_cap_step(digits_value(s@.take(i as int)), d as int, cap as int);
        }
        let next = value * 10 + d;
        value = if next < cap { next } else { cap };
        i = i + 1;
    }
    assert(s@.take(n as int) =~= s@);
    if value < cap {
        Some(value as u32)
    } else {
        None
    }
}

/// Reads the castling field.
pub fn parse_castling(s: &Vec<char>) -> (r: Option<CastlingRights>)
    ensures
        r == castling_field(s@),
{
    let n = s.len();
    if n == 0 {
        return None;
    }
    if n == 1 && s[0] == '-' {
        assert(s@ =~= seq!['-']);
        return Some(CastlingRights::none());
    }
    assert(s@ != seq!['-']);
    let mut cr = CastlingRights::none();
    let mut i: usize = 0;
    let mut ok = true;
    assert(s@.subrange(0, n as int) =~= s@);
    while i < n && ok
        invariant
            i <= n,
            n == s@.len(),
            ok ==> castling_run(s@, no_rights()) == castling_run(s@.subrange(i as int, n as int), cr),
            !ok ==> castling_run(s@, no_rights()) is None,
        decreases n - i + if ok { 1int } else { 0int },
    {
        let c = s[i];
        assert(s@.subrange(i as int, n as int).drop_first() =~= s@.subrange(i as int + 1, n as int));
        assert(s@.subrange(i as int, n as int)[0] == c);
        if c == 'K' {
            cr.white_kingside = true;
        } else if c == 'Q' {
            cr.white_queenside = true;
        } else if c == 'k' {
            cr.black_kingside = true;
        } else if c == 'q' {
            cr.black_queenside = true;
        } else {
            ok = false;
        }
        if ok {
            i = i + 1;
        }
    }
    if !ok {
        return None;
    }
    assert(s@.subrange(n as int, n as int) =~= Seq::<char>::empty());
    Some(cr)
}

/// Reads the en-passant field.
pub fn parse_ep(s: &Vec<char>) -> (r: Option<Option<Square>>)
    ensures
        r == ep_field(s@),
{
    if s.len() == 1 && s[0] == '-' {
        assert(s@ =~= seq!['-']);
        return Some(None);
    }
    assert(s@ != seq!['-']);
    if s.len() != 2 {
        return None;
    }
    let fc = s[0];
    let rc = s[1];
    if 'a' <= fc && fc <= 'h' && '1' <= rc && rc <= '8' {
        let file = (fc as u32 - 'a' as u32) as usize;
        let rank = (rc as u32 - '1' as u32) as usize;
        Some(Some(rank * 8 + file))
    } else {
        None
    }
}

/// Reads the side-to-move field.
pub fn parse_turn(s: &Vec<char>) -> (r: Option<Color>)
    ensures
        r == turn_field(s@),
{
    if s.len() == 1 && s[0] == 'w' {
        assert(s@ =~= seq!['w']);
        Some(Color::White)
    } else if s.len() == 1 && s[0] == 'b' {
        assert(s@ =~= seq!['b']);
        Some(Color::Black)
    } else {
        assert(s@ != seq!['w']);
        assert(s@ != seq!['b']);
        None
    }
}

/// Reads and writes positions in Forsyth-Edwards Notation.
pub struct FenParser;

impl FenParser {
    pub fn new() -> (r: FenParser) {
        FenParser
    }

    /// Installs the position that `fen` describes; on malformed input the
    /// board is left as it was and an error is returned.
    pub fn parse_fen(&self, board: &mut Board, fen: &str) -> (r: Result<(), String>)
        requires
            old(board).inv(),
        ensures
            final(board).inv(),
            r is Ok <==> parse_fen_spec(fen@) is Some,
            r is Err ==> final(board)@ == old(board)@,
            r is Ok ==> ({
                let f = parse_fen_spec(fen@)->0;
                final(board)@ == fresh(Pos {
                    board: f.board,
                    turn: f.turn,
                    castling: f.castling,
                    ep: f.ep,
                    halfmove: f.halfmove,
                    fullmove: f.fullmove,
                    ..old(board)@
                })
            }),
    {
        let chars = str_chars(fen);
        let parts = split_fields_exec(&chars);
        let ghost f = fields_of(fen@);
        if parts.len() < 4 || parts.len() > 6 {
            return Err(String::from_str("ERROR: Invalid FEN string"));
        }
        let placed = parse_placement(&parts[0]);
        let turn = parse_turn(&parts[1]);
        let rights = parse_castling(&parts[2]);
        let ep = parse_ep(&parts[3]);
        let hm = if parts.len() > 4 { parse_counter(&parts[4]) } else { Some(0) };
        let fm = if parts.len() > 5 { parse_counter(&parts[5]) } else { Some(1) };
        match (placed, turn, rights, ep, hm, fm) {
            (Some(squares), Some(t), Some(cr), Some(e), Some(h), Some(m)) => {
                board.set_position(squares, t, cr, e, h, m);
                Ok(())
            },
            _ => Err(String::from_str("ERROR: Invalid FEN string")),
        }
    }
}

} // verus!

verus! {

pub open spec fn digit_char(d: int) -> char {
    ((d + '0' as int) as u32) as char
}

/// Decimal digits of a number.
pub open spec fn decimal(n: nat) -> Seq<char>
    decreases n,
{
    if n < 10 {
        seq![digit_char(n as int)]
    } else {
        decimal(n / 10) + seq![digit_char((n % 10) as int)]
    }
}

/// FEN text of rank `r` from file `f` on, after `empties` empty squares.
pub open spec fn rank_text(b: Seq<Option<Piece>>, r: int, f: int, empties: int) -> Seq<char>
    decreases 8 - f,
{
    if f >= 8 {
        if empties > 0 { seq![digit_char(empties)] } else { Seq::empty() }
    } else {
        match b[r * 8 + f] {
            Some(p) => (if empties > 0 { seq![digit_char(empties)] } else { Seq::empty() }) + seq![
                piece_letter(p),
            ] + rank_text(b, r, f + 1, 0),
            None => rank_text(b, r, f + 1, empties + 1),
        }
    }
}

/// FEN text of ranks `r` down to 1, separated by `/`.
pub open spec fn ranks_text(b: Seq<Option<Piece>>, r: int) -> Seq<char>
    decreases r + 1,
{
    if r < 0 {
        Seq::empty()
    } else if r == 0 {
        rank_text(b, 0, 0, 0)
    } else {
        rank_text(b, r, 0, 0) + seq!['/'] + ranks_text(b, r - 1)
    }
}

pub open spec fn castling_text(cr: CastlingRights) -> Seq<char> {
    let s = (if cr.white_kingside { seq!['K'] } else { Seq::empty() }) + (if cr.white_queenside {
        seq!['Q']
    } else {
        Seq::empty()
    }) + (if cr.black_kingside { seq!['k'] } else { Seq::empty() }) + (if cr.black_queenside {
        seq!['q']
    } else {
        Seq::empty()
    });
    if s.len() == 0 { seq!['-'] } else { s }
}

pub open spec fn ep_text(ep: Option<Square>) -> Seq<char> {
    match ep {
        Some(s) => algebraic(s as int),
        None => seq!['-'],
    }
}

/// The six-field FEN record of a position.
pub open spec fn fen_of(p: Pos) -> Seq<char> {
    ranks_text(p.board, 7) + seq![' '] + (if p.turn == Color::White { seq!['w'] } else { seq!['b'] })
        + seq![' '] + castling_text(p.castling) + seq![' '] + ep_text(p.ep) + seq![' '] + decimal(
        p.halfmove as nat,
    ) + seq![' '] + decimal(p.fullmove as nat)
}

fn push_decimal(s: &mut String, n: u32)
    ensures
        final(s)@ == old(s)@ + decimal(n as nat),
    decreases n,
{
    if n >= 10 {
        push_decimal(s, n / 10);
    }
    let d = n % 10;
    let c = ((d + '0' as u32) as u8) as char;
    assert(c == digit_char((n % 10) as int));
    push_char(s, c);
    proof {
        if n >= 10 {
            assert(final(s)@ =~= old(s)@ + decimal(n as nat));
        } else {
            assert(final(s)@ =~= old(s)@ + decimal(n as nat));
        }
    }
}

fn push_str(s: &mut String, t: &str)
    ensures
        final(s)@ == old(s)@ + t@,
{
    let n = t.unicode_len();
    let mut i: usize = 0;
    while i < n
        invariant
            i <= n,
            n == t@.len(),
            s@ == old(s)@ + t@.take(i as int),
        decreases n - i,
    {
        push_char(s, t.get_char(i));
        assert(t@.take(i as int + 1) =~= t@.take(i as int).push(t@[i as int]));
        i = i + 1;
    }
    assert(t@.take(n as int) =~= t@);
}

impl FenParser {
    fn push_rank(&self, board: &Board, s: &mut String, r: usize)
        requires
            board.inv(),
            r < 8,
        ensures
            final(s)@ == old(s)@ + rank_text(board@.board, r as int, 0, 0),
    {
        let ghost b = board@.board;
        let ghost target = old(s)@ + rank_text(b, r as int, 0, 0);
        let mut empties: u32 = 0;
        let mut f: usize = 0;
        while f < 8
            invariant
                board.inv(),
                b == board@.board,
                r < 8,
                f <= 8,
                empties <= f,
                s@ + rank_text(b, r as int, f as int, empties as int) == target,
            decreases 8 - f,
        {
            match board.get_piece(r * 8 + f) {
                Some(p) => {
                    let ghost before = s@;
                    if empties > 0 {
                        push_char(s, ((empties + '0' as u32) as u8) as char);
                    }
                    push_char(s, p.to_char());
                    assert(s@ + rank_text(b, r as int, f as int + 1, 0) =~= before + rank_text(b, r as int, f as int, empties as int));
                    empties = 0;
                },
                None => {
                    empties = empties + 1;
                },
            }
            f = f + 1;
        }
        if empties > 0 {
            push_char(s, ((empties + '0' as u32) as u8) as char);
        }
        assert(s@ =~= target);
    }

    fn push_placement(&self, board: &Board, s: &mut String)
        requires
            board.inv(),
        ensures
            final(s)@ == old(s)@ + ranks_text(board@.board, 7),
    {
        let ghost p = board@;
        let mut r: usize = 8;
        assert(old(s)@ =~= old(s)@ + Seq::<char>::empty());
        while r > 0
            invariant
                board.inv(),
                board@ == p,
                r <= 8,
                s@ + ranks_text(p.board, r as int - 1) == old(s)@ + ranks_text(p.board, 7),
            decreases r,
        {
            let ghost before = s@;
            self.push_rank(board, s, r - 1);
            if r - 1 > 0 {
                push_char(s, '/');
            }
            assert(s@ + ranks_text(p.board, r as int - 2) =~= before + ranks_text(p.board, r as int - 1));
            r = r - 1;
        }
        assert(s@ =~= old(s)@ + ranks_text(p.board, 7));
    }

    fn push_castling(&self, s: &mut String, cr: CastlingRights)
        ensures
            final(s)@ == old(s)@ + castling_text(cr),
    {
        if cr.white_kingside {
            push_char(s, 'K');
        }
        if cr.white_queenside {
            push_char(s, 'Q');
        }
        if cr.black_kingside {
            push_char(s, 'k');
        }
        if cr.black_queenside {
            push_char(s, 'q');
        }
        if !(cr.white_kingside || cr.white_queenside || cr.black_kingside || cr.black_queenside) {
            push_char(s, '-');
        }
        assert(s@ =~= old(s)@ + castling_text(cr));
    }

    fn push_ep(&self, s: &mut String, ep: Option<Square>)
        ensures
            final(s)@ == old(s)@ + ep_text(ep),
    {
        match ep {
            Some(e) => {
                let rk = if e / 8 > 7 { 7 } else { e / 8 };
                push_char(s, crate::types::file_letter(e % 8));
                push_char(s, crate::types::rank_digit(rk));
            },
            None => push_char(s, '-'),
        }
        assert(s@ =~= old(s)@ + ep_text(ep));
    }

    /// The FEN record of the board's position.
    pub fn export_fen(&self, board: &Board) -> (r: String)
        requires
            board.inv(),
        ensures
            r@ == fen_of(board@),
    {
        let ghost p = board@;
        let mut s = String::new();
        self.push_placement(board, &mut s);
        push_char(&mut s, ' ');
        push_char(&mut s, if board.get_turn().is_white() { 'w' } else { 'b' });
        push_char(&mut s, ' ');
        self.push_castling(&mut s, board.get_castling_rights());
        push_char(&mut s, ' ');
        self.push_ep(&mut s, board.get_en_passant_target());
        push_char(&mut s, ' ');
        push_decimal(&mut s, board.get_state().halfmove_clock);
        push_char(&mut s, ' ');
        push_decimal(&mut s, board.get_state().fullmove_number);
        assert(s@ =~= fen_of(p));
        s
    }
}

} // verus!
