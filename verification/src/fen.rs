//! Forsyth-Edwards Notation: the six-field text form of a position.
//!
//! Only the piece placement is kept; the other five fields are checked for
//! well-formedness and then dropped.

use vstd::prelude::*;
use crate::board::{Color, Piece, PieceKind};
use crate::text::{ascii_words, char_seqs, split_ascii_words, split_chars_on, split_on};

verus! {

/// Why a FEN text was refused, in the order in which the checks are made.
#[derive(Clone, Copy, Debug, PartialEq, Eq, Structural)]
pub enum FenError {
    FieldCount,
    RankCount,
    RankOverflow,
    UnknownSymbol,
    RankWidth,
    ActiveColor,
    Castling,
    EnPassant,
    Halfmove,
    Fullmove,
}

/// The message that reports `e`.
pub open spec fn fen_error_message(e: FenError) -> &'static str {
    match e {
        FenError::FieldCount => "FEN must contain six fields",
        FenError::RankCount => "FEN piece placement must contain eight ranks",
        FenError::RankOverflow => "FEN rank contains more than eight squares",
        FenError::UnknownSymbol => "FEN contains an unknown piece symbol",
        FenError::RankWidth => "each FEN rank must describe exactly eight squares",
        FenError::ActiveColor => "FEN active color must be w or b",
        FenError::Castling => "FEN castling rights are invalid",
        FenError::EnPassant => "FEN en passant square is invalid for the active color",
        FenError::Halfmove => "FEN halfmove clock must be a nonnegative integer",
        FenError::Fullmove => "FEN fullmove number must be a positive integer",
    }
}

impl FenError {
    pub fn message(self) -> (m: &'static str)
        ensures
            m == fen_error_message(self),
    {
        match self {
            FenError::FieldCount => "FEN must contain six fields",
            FenError::RankCount => "FEN piece placement must contain eight ranks",
            FenError::RankOverflow => "FEN rank contains more than eight squares",
            FenError::UnknownSymbol => "FEN contains an unknown piece symbol",
            FenError::RankWidth => "each FEN rank must describe exactly eight squares",
            FenError::ActiveColor => "FEN active color must be w or b",
            FenError::Castling => "FEN castling rights are invalid",
            FenError::EnPassant => "FEN en passant square is invalid for the active color",
            FenError::Halfmove => "FEN halfmove clock must be a nonnegative integer",
            FenError::Fullmove => "FEN fullmove number must be a positive integer",
        }
    }
}


/// The piece that a FEN letter names: upper case for White, lower case for
/// Black.
pub open spec fn piece_for_symbol(c: char) -> Option<Piece> {
    if c == 'P' {
        Some(Piece { color: Color::White, kind: PieceKind::Pawn })
    } else if c == 'N' {
        Some(Piece { color: Color::White, kind: PieceKind::Knight })
    } else if c == 'B' {
        Some(Piece { color: Color::White, kind: PieceKind::Bishop })
    } else if c == 'R' {
        Some(Piece { color: Color::White, kind: PieceKind::Rook })
    } else if c == 'Q' {
        Some(Piece { color: Color::White, kind: PieceKind::Queen })
    } else if c == 'K' {
        Some(Piece { color: Color::White, kind: PieceKind::King })
    } else if c == 'p' {
        Some(Piece { color: Color::Black, kind: PieceKind::Pawn })
    } else if c == 'n' {
        Some(Piece { color: Color::Black, kind: PieceKind::Knight })
    } else if c == 'b' {
        Some(Piece { color: Color::Black, kind: PieceKind::Bishop })
    } else if c == 'r' {
        Some(Piece { color: Color::Black, kind: PieceKind::Rook })
    } else if c == 'q' {
        Some(Piece { color: Color::Black, kind: PieceKind::Queen })
    } else if c == 'k' {
        Some(Piece { color: Color::Black, kind: PieceKind::King })
    } else {
        None
    }
}

/// A run of empty squares, written `1` to `8`.
pub open spec fn is_run_digit(c: char) -> bool {
    '1' <= c <= '8'
}

/// The value of a decimal digit character.
pub open spec fn digit_value(c: char) -> nat {
    (c as u32 - '0' as u32) as nat
}

/// Reading one rank from the left: the squares described so far.
pub open spec fn rank_scan(r: Seq<char>) -> Result<Seq<Option<Piece>>, FenError>
    decreases r.len(),
{
    if r.len() == 0 {
        Ok(Seq::empty())
    } else {
        match rank_scan(r.drop_last()) {
            Err(e) => Err(e),
            Ok(row) => {
                let c = r.last();
                if is_run_digit(c) {
                    if row.len() + digit_value(c) > 8 {
                        Err(FenError::RankOverflow)
                    } else {
                        Ok(row + Seq::new(digit_value(c), |j: int| None::<Piece>))
                    }
                } else {
                    match piece_for_symbol(c) {
                        None => Err(FenError::UnknownSymbol),
                        Some(p) => if row.len() >= 8 {
                            Err(FenError::RankOverflow)
                        } else {
                            Ok(row.push(Some(p)))
                        },
                    }
                }
            },
        }
    }
}

/// The eight squares of one rank, from file a to file h.
pub open spec fn rank_squares(r: Seq<char>) -> Result<Seq<Option<Piece>>, FenError> {
    match rank_scan(r) {
        Err(e) => Err(e),
        Ok(row) => if row.len() == 8 {
            Ok(row)
        } else {
            Err(FenError::RankWidth)
        },
    }
}

/// The squares of the given ranks, rank after rank.
pub open spec fn ranks_squares(ranks: Seq<Seq<char>>) -> Result<Seq<Option<Piece>>, FenError>
    decreases ranks.len(),
{
    if ranks.len() == 0 {
        Ok(Seq::empty())
    } else {
        match ranks_squares(ranks.drop_last()) {
            Err(e) => Err(e),
            Ok(squares) => match rank_squares(ranks.last()) {
                Err(e) => Err(e),
                Ok(row) => Ok(squares + row),
            },
        }
    }
}

/// A castling field: `-`, or distinct letters among `K`, `Q`, `k`, `q`.
pub open spec fn castling_ok(f: Seq<char>) -> bool {
    f =~= seq!['-'] || (forall|i: int|
        0 <= i < f.len() ==> (f[i] == 'K' || f[i] == 'Q' || f[i] == 'k' || f[i] == 'q')) && (
    forall|i: int, j: int| 0 <= i < j < f.len() ==> f[i] != f[j])
}

/// An en passant field: `-`, or a file letter and the rank that a pawn of
/// the other colour has just passed over.
pub open spec fn en_passant_ok(f: Seq<char>, active: Seq<char>) -> bool {
    f =~= seq!['-'] || (f.len() == 2 && 'a' <= f[0] <= 'h' && f[1] == (if active =~= seq!['w'] {
        '6'
    } else {
        '3'
    }))
}

/// The number that a string of decimal digits stands for.
pub open spec fn digits_value(s: Seq<char>) -> nat
    decreases s.len(),
{
    if s.len() == 0 {
        0
    } else {
        digits_value(s.drop_last()) * 10 + digit_value(s.last())
    }
}

pub open spec fn all_digits(s: Seq<char>) -> bool {
    forall|i: int| 0 <= i < s.len() ==> '0' <= #[trigger] s[i] <= '9'
}

/// `s` read as a `u32` the way `str::parse::<u32>` reads it: an optional
/// `+`, then at least one decimal digit, with a value that fits.
pub open spec fn parse_u32(s: Seq<char>) -> Option<u32> {
    let d = if s.len() > 0 && s[0] == '+' {
        s.drop_first()
    } else {
        s
    };
    if d.len() > 0 && all_digits(d) && digits_value(d) <= u32::MAX {
        Some(digits_value(d) as u32)
    } else {
        None
    }
}

/// The board squares that a FEN text describes, from a8 to h1, or the first
/// check that it fails.
pub open spec fn fen_squares(fen: Seq<char>) -> Result<Seq<Option<Piece>>, FenError> {
    let fields = ascii_words(fen);
    if fields.len() != 6 {
        Err(FenError::FieldCount)
    } else {
        let ranks = split_on(fields[0], '/');
        if ranks.len() != 8 {
            Err(FenError::RankCount)
        } else {
            match ranks_squares(ranks) {
                Err(e) => Err(e),
                Ok(squares) => if !(fields[1] =~= seq!['w'] || fields[1] =~= seq!['b']) {
                    Err(FenError::ActiveColor)
                } else if !castling_ok(fields[2]) {
                    Err(FenError::Castling)
                } else if !en_passant_ok(fields[3], fields[1]) {
                    Err(FenError::EnPassant)
                } else if parse_u32(fields[4]) is None {
                    Err(FenError::Halfmove)
                } else if !(parse_u32(fields[5]) matches Some(n) && n > 0) {
                    Err(FenError::Fullmove)
                } else {
                    Ok(squares)
                },
            }
        }
    }
}


/// The piece that a FEN letter names, if any.
pub fn piece_from_symbol(c: char) -> (r: Option<Piece>)
    ensures
        r == piece_for_symbol(c),
{
    match c {
        'P' => Some(Piece { color: Color::White, kind: PieceKind::Pawn }),
        'N' => Some(Piece { color: Color::White, kind: PieceKind::Knight }),
        'B' => Some(Piece { color: Color::White, kind: PieceKind::Bishop }),
        'R' => Some(Piece { color: Color::White, kind: PieceKind::Rook }),
        'Q' => Some(Piece { color: Color::White, kind: PieceKind::Queen }),
        'K' => Some(Piece { color: Color::White, kind: PieceKind::King }),
        'p' => Some(Piece { color: Color::Black, kind: PieceKind::Pawn }),
        'n' => Some(Piece { color: Color::Black, kind: PieceKind::Knight }),
        'b' => Some(Piece { color: Color::Black, kind: PieceKind::Bishop }),
        'r' => Some(Piece { color: Color::Black, kind: PieceKind::Rook }),
        'q' => Some(Piece { color: Color::Black, kind: PieceKind::Queen }),
        'k' => Some(Piece { color: Color::Black, kind: PieceKind::King }),
        _ => None,
    }
}

proof fn lemma_rank_scan_error_stays(r: Seq<char>, n: int)
    requires
        0 <= n <= r.len(),
        rank_scan(r.take(n)) is Err,
    ensures
        rank_scan(r) == rank_scan(r.take(n)),
    decreases r.len(),
{
    if n == r.len() {
        assert(r.take(n) =~= r);
    } else {
        assert(r.drop_last().take(n) =~= r.take(n));
        lemma_rank_scan_error_stays(r.drop_last(), n);
    }
}

proof fn lemma_ranks_error_stays(ranks: Seq<Seq<char>>, n: int)
    requires
        0 <= n <= ranks.len(),
        ranks_squares(ranks.take(n)) is Err,
    ensures
        ranks_squares(ranks) == ranks_squares(ranks.take(n)),
    decreases ranks.len(),
{
    if n == ranks.len() {
        assert(ranks.take(n) =~= ranks);
    } else {
        assert(ranks.drop_last().take(n) =~= ranks.take(n));
        lemma_ranks_error_stays(ranks.drop_last(), n);
    }
}

/// Writes the rank `r` into row `k` of `squares`, which must still be empty
/// from that row on.
fn place_rank(squares: &mut [Option<Piece>; 64], k: usize, r: &Vec<char>) -> (res: Result<(), FenError>)
    requires
        k < 8,
        forall|i: int| 8 * k <= i < 64 ==> old(squares)@[i] is None,
    ensures
        match rank_squares(r@) {
            Err(e) => res == Err::<(), FenError>(e),
            Ok(row) => {
                &&& res is Ok
                &&& final(squares)@.subrange(0, 8 * k as int) == old(squares)@.subrange(0, 8 * k as int)
                &&& final(squares)@.subrange(8 * k as int, 8 * k + 8) == row
                &&& forall|i: int| 8 * k + 8 <= i < 64 ==> final(squares)@[i] is None
            },
        },
{
    let base: usize = 8 * k;
    let mut file: usize = 0;
    let mut j: usize = 0;
    assert(r@.take(0) =~= Seq::<char>::empty());
    assert(squares@.subrange(base as int, base as int) =~= Seq::<Option<Piece>>::empty());
    while j < r.len()
        invariant
            k < 8,
            base == 8 * k,
            j <= r.len(),
            file <= 8,
            rank_scan(r@.take(j as int)) == Ok::<Seq<Option<Piece>>, FenError>(
                squares@.subrange(base as int, base + file),
            ),
            forall|i: int| 0 <= i < base ==> squares@[i] == old(squares)@[i],
            forall|i: int| base + file <= i < 64 ==> squares@[i] is None,
        decreases r.len() - j,
    {
        let c = r[j];
        assert(r@.take(j + 1).drop_last() =~= r@.take(j as int));
        assert(r@.take(j + 1).last() == c);
        if '1' <= c && c <= '8' {
            let d: usize = (c as u32 - '0' as u32) as usize;
            if file + d > 8 {
                proof {
                    lemma_rank_scan_error_stays(r@, j + 1);
                }
                return Err(FenError::RankOverflow);
            }
            assert(squares@.subrange(base as int, base + file + d) =~= squares@.subrange(
                base as int,
                base + file,
            ) + Seq::new(d as nat, |i: int| None::<Piece>));
            file = file + d;
        } else {
            match piece_from_symbol(c) {
                None => {
                    proof {
                        lemma_rank_scan_error_stays(r@, j + 1);
                    }
                    return Err(FenError::UnknownSymbol);
                },
                Some(p) => {
                    if file >= 8 {
                        proof {
                            lemma_rank_scan_error_stays(r@, j + 1);
                        }
                        return Err(FenError::RankOverflow);
                    }
                    let ghost before = squares@;
                    squares[base + file] = Some(p);
                    assert(squares@.subrange(base as int, base + file + 1) =~= before.subrange(
                        base as int,
                        base + file,
                    ).push(Some(p)));
                    file = file + 1;
                },
            }
        }
        j += 1;
    }
    assert(r@.take(r.len() as int) =~= r@);
    if file != 8 {
        return Err(FenError::RankWidth);
    }
    assert(squares@.subrange(0, base as int) =~= old(squares)@.subrange(0, base as int));
    Ok(())
}

/// Reads the piece placement of one FEN rank list into a board.
fn place_ranks(ranks: &Vec<Vec<char>>) -> (res: Result<[Option<Piece>; 64], FenError>)
    requires
        ranks@.len() == 8,
    ensures
        match ranks_squares(char_seqs(ranks@)) {
            Err(e) => res == Err::<[Option<Piece>; 64], FenError>(e),
            Ok(sq) => res matches Ok(a) && a@ == sq,
        },
{
    let ghost rs = char_seqs(ranks@);
    let mut squares: [Option<Piece>; 64] = [None; 64];
    let mut k: usize = 0;
    assert(rs.take(0) =~= Seq::<Seq<char>>::empty());
    assert(squares@.subrange(0, 0) =~= Seq::<Option<Piece>>::empty());
    while k < 8
        invariant
            ranks@.len() == 8,
            rs == char_seqs(ranks@),
            k <= 8,
            ranks_squares(rs.take(k as int)) == Ok::<Seq<Option<Piece>>, FenError>(
                squares@.subrange(0, 8 * k as int),
            ),
            forall|i: int| 8 * k <= i < 64 ==> squares@[i] is None,
        decreases 8 - k,
    {
        assert(rs.take(k + 1).drop_last() =~= rs.take(k as int));
        assert(rs.take(k + 1).last() == ranks@[k as int]@);
        let ghost before = squares@;
        match place_rank(&mut squares, k, &ranks[k]) {
            Err(e) => {
                proof {
                    lemma_ranks_error_stays(rs, k + 1);
                }
                return Err(e);
            },
            Ok(()) => {},
        }
        assert(squares@.subrange(0, 8 * (k + 1)) =~= squares@.subrange(0, 8 * k as int)
            + squares@.subrange(8 * k as int, 8 * k + 8));
        k += 1;
    }
    assert(rs.take(8) =~= rs);
    assert(squares@.subrange(0, 64) =~= squares@);
    Ok(squares)
}


proof fn lemma_digits_value_grows(s: Seq<char>, n: int)
    requires
        0 <= n <= s.len(),
    ensures
        digits_value(s.take(n)) <= digits_value(s),
    decreases s.len(),
{
    if n == s.len() {
        assert(s.take(n) =~= s);
    } else {
        assert(s.drop_last().take(n) =~= s.take(n));
        lemma_digits_value_grows(s.drop_last(), n);
    }
}

/// Reads `s` as a `u32`, as `str::parse::<u32>` does.
pub fn parse_u32_chars(s: &Vec<char>) -> (r: Option<u32>)
    ensures
        r == parse_u32(s@),
{
    let len = s.len();
    let start: usize = if len > 0 && s[0] == '+' {
        1
    } else {
        0
    };
    let ghost d = if s@.len() > 0 && s@[0] == '+' {
        s@.drop_first()
    } else {
        s@
    };
    assert(d =~= s@.subrange(start as int, len as int));
    if start == len {
        return None;
    }
    let mut value: u64 = 0;
    let mut i: usize = start;
    assert(s@.subrange(start as int, start as int) =~= Seq::<char>::empty());
    while i < len
        invariant
            len == s.len(),
            start < len,
            start <= i <= len,
            d =~= s@.subrange(start as int, len as int),
            d == (if s@.len() > 0 && s@[0] == '+' {
                s@.drop_first()
            } else {
                s@
            }),
            all_digits(s@.subrange(start as int, i as int)),
            value == digits_value(s@.subrange(start as int, i as int)),
            value <= u32::MAX,
        decreases len - i,
    {
        let c = s[i];
        let ghost next = s@.subrange(start as int, i + 1);
        assert(next.drop_last() =~= s@.subrange(start as int, i as int));
        assert(next.last() == c);
        assert(d.take(i + 1 - start) =~= next);
        if !('0' <= c && c <= '9') {
            assert(d[i - start] == c);
            return None;
        }
        let v: u64 = value * 10 + (c as u32 - '0' as u32) as u64;
        if v > u32::MAX as u64 {
            proof {
                lemma_digits_value_grows(d, i + 1 - start);
            }
            return None;
        }
        value = v;
        i += 1;
    }
    Some(value as u32)
}

/// Whether `f` is a well-formed castling field.
pub fn castling_valid(f: &Vec<char>) -> (r: bool)
    ensures
        r == castling_ok(f@),
{
    if f.len() == 1 && f[0] == '-' {
        assert(f@ =~= seq!['-']);
        return true;
    }
    assert(!(f@ =~= seq!['-']));
    let mut white_king = false;
    let mut white_queen = false;
    let mut black_king = false;
    let mut black_queen = false;
    let mut i: usize = 0;
    while i < f.len()
        invariant
            i <= f.len(),
            !(f@ =~= seq!['-']),
            forall|j: int|
                0 <= j < i ==> (f@[j] == 'K' || f@[j] == 'Q' || f@[j] == 'k' || f@[j] == 'q'),
            forall|a: int, b: int| 0 <= a < b < i ==> f@[a] != f@[b],
            white_king == (exists|j: int| 0 <= j < i && f@[j] == 'K'),
            white_queen == (exists|j: int| 0 <= j < i && f@[j] == 'Q'),
            black_king == (exists|j: int| 0 <= j < i && f@[j] == 'k'),
            black_queen == (exists|j: int| 0 <= j < i && f@[j] == 'q'),
        decreases f.len() - i,
    {
        let c = f[i];
        let seen = if c == 'K' {
            white_king
        } else if c == 'Q' {
            white_queen
        } else if c == 'k' {
            black_king
        } else if c == 'q' {
            black_queen
        } else {
            return false;
        };
        if seen {
            assert(exists|j: int| 0 <= j < i && f@[j] == c);
            return false;
        }
        if c == 'K' {
            white_king = true;
        } else if c == 'Q' {
            white_queen = true;
        } else if c == 'k' {
            black_king = true;
        } else {
            black_queen = true;
        }
        i += 1;
    }
    true
}

/// Whether `f` is a well-formed en passant field when `active` is to move.
pub fn en_passant_valid(f: &Vec<char>, active: &Vec<char>) -> (r: bool)
    ensures
        r == en_passant_ok(f@, active@),
{
    if f.len() == 1 && f[0] == '-' {
        assert(f@ =~= seq!['-']);
        return true;
    }
    assert(!(f@ =~= seq!['-']));
    let white = active.len() == 1 && active[0] == 'w';
    assert(white == (active@ =~= seq!['w']));
    let expected = if white {
        '6'
    } else {
        '3'
    };
    f.len() == 2 && 'a' <= f[0] && f[0] <= 'h' && f[1] == expected
}

/// Parses a FEN text, given as its characters, into the 64 squares from a8
/// to h1.
pub fn parse_fen(fen: &Vec<char>) -> (res: Result<[Option<Piece>; 64], FenError>)
    ensures
        match fen_squares(fen@) {
            Err(e) => res == Err::<[Option<Piece>; 64], FenError>(e),
            Ok(sq) => res matches Ok(a) && a@ == sq,
        },
{
    let fields = split_ascii_words(fen);
    if fields.len() != 6 {
        return Err(FenError::FieldCount);
    }
    let ranks = split_chars_on(&fields[0], '/');
    if ranks.len() != 8 {
        return Err(FenError::RankCount);
    }
    let squares = match place_ranks(&ranks) {
        Err(e) => return Err(e),
        Ok(sq) => sq,
    };
    let active = &fields[1];
    let white = active.len() == 1 && active[0] == 'w';
    let black = active.len() == 1 && active[0] == 'b';
    assert(white == (active@ =~= seq!['w']));
    assert(black == (active@ =~= seq!['b']));
    if !(white || black) {
        return Err(FenError::ActiveColor);
    }
    if !castling_valid(&fields[2]) {
        return Err(FenError::Castling);
    }
    if !en_passant_valid(&fields[3], &fields[1]) {
        return Err(FenError::EnPassant);
    }
    if parse_u32_chars(&fields[4]).is_none() {
        return Err(FenError::Halfmove);
    }
    match parse_u32_chars(&fields[5]) {
        Some(n) => if n == 0 {
            return Err(FenError::Fullmove);
        },
        None => return Err(FenError::Fullmove),
    }
    Ok(squares)
}


proof fn lemma_ranks_squares_len(ranks: Seq<Seq<char>>)
    ensures
        ranks_squares(ranks) matches Ok(sq) ==> sq.len() == 8 * ranks.len(),
    decreases ranks.len(),
{
    if ranks.len() > 0 {
        lemma_ranks_squares_len(ranks.drop_last());
    }
}

/// A valid FEN text describes exactly the 64 squares of a board.
pub proof fn lemma_fen_squares_len(fen: Seq<char>)
    ensures
        fen_squares(fen) matches Ok(sq) ==> sq.len() == 64,
{
    lemma_ranks_squares_len(split_on(ascii_words(fen)[0], '/'));
}


/// Every digit `1` to `8` in a rank stands for that many empty squares:
/// after any prefix of a rank that reads, the digit adds exactly that many
/// empty squares when they fit in the eight files, and is refused as too
/// many squares when they do not.
pub proof fn lemma_digit_is_run_of_empty_squares(p: Seq<char>, c: char)
    requires
        '1' <= c <= '8',
        rank_scan(p) is Ok,
    ensures
        ({
            let row = rank_scan(p)->Ok_0;
            let n = (c as u32 - '0' as u32) as nat;
            &&& 1 <= n <= 8
            &&& row.len() + n <= 8 ==> rank_scan(p.push(c)) == Ok::<
                Seq<Option<Piece>>,
                FenError,
            >(row + Seq::new(n, |j: int| None::<Piece>))
            &&& row.len() + n > 8 ==> rank_scan(p.push(c)) == Err::<
                Seq<Option<Piece>>,
                FenError,
            >(FenError::RankOverflow)
        }),
{
    assert(p.push(c).drop_last() =~= p);
}

} // verus!
