//! Platform-neutral chessboard state.
//!
//! This is intentionally not a chess engine. It models a physical board:
//! select a piece, then put it on any square. There are no turns or rules.

use vstd::prelude::*;
use crate::fen::{fen_error_message, fen_squares, parse_fen};
use crate::text::chars_of;

verus! {

#[derive(Clone, Copy, Debug, PartialEq, Eq, Structural)]
pub enum Color {
    White,
    Black,
}

#[derive(Clone, Copy, Debug, PartialEq, Eq, Structural)]
pub enum PieceKind {
    Pawn,
    Knight,
    Bishop,
    Rook,
    Queen,
    King,
}

#[derive(Clone, Copy, Debug, PartialEq, Eq, Structural)]
pub struct Piece {
    pub color: Color,
    pub kind: PieceKind,
}


/// What a board holds: the squares from a8 (index 0) to h1 (index 63), the
/// squares it was set up with, and the square whose piece is picked up.
pub struct BoardView {
    pub squares: Seq<Option<Piece>>,
    pub starting: Seq<Option<Piece>>,
    pub selected: Option<usize>,
}

impl BoardView {
    /// Sixty-four squares each, and a selection only ever names a square
    /// that holds a piece.
    pub open spec fn valid(self) -> bool {
        &&& self.squares.len() == 64
        &&& self.starting.len() == 64
        &&& self.selected matches Some(s) ==> s < 64 && self.squares[s as int] is Some
    }

    /// The board after a tap on `square`, and whether anything visible
    /// changed.
    pub open spec fn tapped(self, square: usize) -> (BoardView, bool) {
        if square >= 64 {
            (self, false)
        } else {
            match self.selected {
                None => if self.squares[square as int] is Some {
                    (BoardView { selected: Some(square), ..self }, true)
                } else {
                    (self, false)
                },
                Some(from) => if from == square {
                    (BoardView { selected: None, ..self }, true)
                } else if self.squares[from as int] is None {
                    (BoardView { selected: None, ..self }, true)
                } else {
                    (
                        BoardView {
                            squares: self.squares.update(from as int, None).update(
                                square as int,
                                self.squares[from as int],
                            ),
                            selected: None,
                            ..self
                        },
                        true,
                    )
                },
            }
        }
    }

    /// The board after the taps in `squares`, in order.
    pub open spec fn tapped_all(self, squares: Seq<usize>) -> BoardView
        decreases squares.len(),
    {
        if squares.len() == 0 {
            self
        } else {
            self.tapped_all(squares.drop_last()).tapped(squares.last()).0
        }
    }

    /// The board after a reset: the starting squares and no selection.
    pub open spec fn reset(self) -> BoardView {
        BoardView { squares: self.starting, starting: self.starting, selected: None }
    }

    /// A board freshly set up with `squares`.
    pub open spec fn fresh(squares: Seq<Option<Piece>>) -> BoardView {
        BoardView { squares: squares, starting: squares, selected: None }
    }
}

/// The piece kinds of a back rank, file a to file h.
pub open spec fn back_rank_kind(file: int) -> PieceKind {
    if file == 0 || file == 7 {
        PieceKind::Rook
    } else if file == 1 || file == 6 {
        PieceKind::Knight
    } else if file == 2 || file == 5 {
        PieceKind::Bishop
    } else if file == 3 {
        PieceKind::Queen
    } else {
        PieceKind::King
    }
}

/// The standard opening setup: Black on ranks 8 and 7, White on ranks 2
/// and 1.
pub open spec fn standard_squares() -> Seq<Option<Piece>> {
    Seq::new(
        64,
        |i: int|
            if i < 8 {
                Some(Piece { color: Color::Black, kind: back_rank_kind(i) })
            } else if i < 16 {
                Some(Piece { color: Color::Black, kind: PieceKind::Pawn })
            } else if i < 48 {
                None
            } else if i < 56 {
                Some(Piece { color: Color::White, kind: PieceKind::Pawn })
            } else {
                Some(Piece { color: Color::White, kind: back_rank_kind(i - 56) })
            },
    )
}

/// The standard setup with only files a to `filled - 1` placed.
spec fn partial_setup(filled: int) -> Seq<Option<Piece>> {
    Seq::new(
        64,
        |i: int|
            if (0 <= i < filled) || (8 <= i < 8 + filled) || (48 <= i < 48 + filled) || (56 <= i
                < 56 + filled) {
                standard_squares()[i]
            } else {
                None
            },
    )
}

fn back_rank_kind_at(file: usize) -> (k: PieceKind)
    requires
        file < 8,
    ensures
        k == back_rank_kind(file as int),
{
    match file {
        0 | 7 => PieceKind::Rook,
        1 | 6 => PieceKind::Knight,
        2 | 5 => PieceKind::Bishop,
        3 => PieceKind::Queen,
        _ => PieceKind::King,
    }
}

#[derive(Debug, Eq, PartialEq)]
pub struct Board {
    squares: [Option<Piece>; 64],
    starting_squares: [Option<Piece>; 64],
    selected: Option<usize>,
}

impl View for Board {
    type V = BoardView;

    closed spec fn view(&self) -> BoardView {
        BoardView {
            squares: self.squares@,
            starting: self.starting_squares@,
            selected: self.selected,
        }
    }
}

impl Clone for Board {
    fn clone(&self) -> (b: Self)
        ensures
            b@ == self@,
    {
        proof {
            use_type_invariant(self);
        }
        Board {
            squares: self.squares,
            starting_squares: self.starting_squares,
            selected: self.selected,
        }
    }
}

impl Default for Board {
    fn default() -> (b: Self)
        ensures
            b@ == BoardView::fresh(standard_squares()),
            b@.valid(),
    {
        Self::starting_position()
    }
}

impl Board {
    #[verifier::type_invariant]
    spec fn selection_holds_piece(self) -> bool {
        self.selected matches Some(s) ==> s < 64 && self.squares@[s as int] is Some
    }

    /// The standard opening position.
    pub fn starting_position() -> (b: Self)
        ensures
            b@ == BoardView::fresh(standard_squares()),
            b@.valid(),
    {
        let mut squares: [Option<Piece>; 64] = [None; 64];
        // Index 0 is a8, index 63 is h1.
        let mut file: usize = 0;
        assert(squares@ =~= partial_setup(0));
        while file < 8
            invariant
                file <= 8,
                squares@ == partial_setup(file as int),
            decreases 8 - file,
        {
            let kind = back_rank_kind_at(file);
            squares[file] = Some(Piece { color: Color::Black, kind });
            squares[8 + file] = Some(Piece { color: Color::Black, kind: PieceKind::Pawn });
            squares[48 + file] = Some(Piece { color: Color::White, kind: PieceKind::Pawn });
            squares[56 + file] = Some(Piece { color: Color::White, kind });
            assert(squares@ =~= partial_setup(file + 1));
            file += 1;
        }
        assert(squares@ =~= standard_squares());
        Self { squares, starting_squares: squares, selected: None }
    }

    /// Builds a board from a standard six-field FEN position.
    ///
    /// The FEN metadata is validated but only the piece placement is kept.
    pub fn from_fen(fen: &str) -> (res: Result<Self, &'static str>)
        ensures
            match fen_squares(fen@) {
                Ok(sq) => res matches Ok(b) && b@ == BoardView::fresh(sq) && b@.valid(),
                Err(e) => res == Err::<Self, &'static str>(fen_error_message(e)),
            },
    {
        let chars = chars_of(fen);
        match parse_fen(&chars) {
            Ok(squares) => Ok(Self { squares, starting_squares: squares, selected: None }),
            Err(e) => Err(e.message()),
        }
    }

    /// Puts every piece back where the board was set up, and drops the
    /// selection.
    pub fn reset(&mut self)
        ensures
            final(self)@ == old(self)@.reset(),
            final(self)@.valid(),
        no_unwind
    {
        self.selected = None;
        self.squares = self.starting_squares;
    }

    pub fn selected(&self) -> (s: Option<usize>)
        ensures
            s == self@.selected,
            self@.valid(),
    {
        proof {
            use_type_invariant(self);
        }
        self.selected
    }

    /// The piece on `square`, or `None` for an empty square or an index past
    /// h1.
    pub fn piece_at(&self, square: usize) -> (p: Option<Piece>)
        ensures
            p == (if square < 64 {
                self@.squares[square as int]
            } else {
                None
            }),
            self@.valid(),
    {
        proof {
            use_type_invariant(self);
        }
        if square < 64 {
            self.squares[square]
        } else {
            None
        }
    }

    /// Applies one tap. Returns true only when visible state changed.
    ///
    /// - Tap an occupied square to select it.
    /// - Tap it again to deselect it.
    /// - Tap any other square to move the selected piece there.
    /// - A move may replace another piece, just like picking pieces up by hand.
    pub fn tap(&mut self, square: usize) -> (changed: bool)
        ensures
            (final(self)@, changed) == old(self)@.tapped(square),
            changed == (final(self)@ != old(self)@),
            final(self)@.valid(),
        no_unwind
    {
        proof {
            use_type_invariant(&*self);
        }
        if square >= 64 {
            return false;
        }
        match self.selected {
            None => {
                match self.squares[square] {
                    Some(_) => {
                        self.selected = Some(square);
                        true
                    },
                    None => false,
                }
            },
            Some(from) => {
                if from == square {
                    self.selected = None;
                    return true;
                }
                let moving = self.squares[from];
                match moving {
                    None => {
                        // Defensive recovery: selection should always contain a piece.
                        self.selected = None;
                        true
                    },
                    Some(piece) => {
                        self.selected = None;
                        self.squares[from] = None;
                        self.squares[square] = Some(piece);
                        assert(self@.squares[from as int] != old(self)@.squares[from as int]);
                        true
                    },
                }
            },
        }
    }
}


/// A tap keeps a board valid: whatever is tapped, a selection afterwards
/// still names a square that holds a piece.
pub proof fn lemma_tap_keeps_valid(b: BoardView, square: usize)
    requires
        b.valid(),
    ensures
        b.tapped(square).0.valid(),
{
}

/// On a valid board a tap with a piece picked up always drops the selection:
/// it either puts the piece back down where it was or moves it to the tapped
/// square, emptying the square it came from and leaving every other square
/// as it was.
pub proof fn lemma_tap_with_selection(b: BoardView, square: usize)
    requires
        b.valid(),
        b.selected is Some,
        square < 64,
    ensures
        ({
            let (after, changed) = b.tapped(square);
            let from = b.selected->0 as int;
            &&& changed
            &&& after.selected is None
            &&& from == square ==> after.squares == b.squares
            &&& from != square ==> {
                &&& after.squares[square as int] == b.squares[from]
                &&& after.squares[from] is None
                &&& forall|i: int|
                    0 <= i < 64 && i != from && i != square ==> after.squares[i] == b.squares[i]
            }
        }),
{
}

/// Tapping an occupied square twice with nothing picked up leaves the board
/// as it was: the first tap picks the piece up, the second puts it back.
pub proof fn lemma_select_then_deselect(b: BoardView, square: usize)
    requires
        b.valid(),
        b.selected is None,
        square < 64,
        b.squares[square as int] is Some,
    ensures
        b.tapped(square).1,
        b.tapped(square).0.tapped(square) == (b, true),
{
}

/// A tap never creates a piece: every piece on the board afterwards stood on
/// some square of the board before.
pub proof fn lemma_tap_creates_no_piece(b: BoardView, square: usize)
    requires
        b.valid(),
    ensures
        forall|i: int|
            0 <= i < 64 && (#[trigger] b.tapped(square).0.squares[i]) is Some ==> exists|j: int|
                0 <= j < 64 && b.squares[j] == b.tapped(square).0.squares[i],
{
    let after = b.tapped(square).0;
    assert forall|i: int| 0 <= i < 64 && (#[trigger] after.squares[i]) is Some implies exists|
        j: int,
    | 0 <= j < 64 && b.squares[j] == after.squares[i] by {
        if after.squares[i] == b.squares[i] {
            assert(b.squares[i] == after.squares[i]);
        } else {
            let from = b.selected->0 as int;
            assert(b.squares[from] == after.squares[i]);
        }
    }
}

/// Taps never touch the position that the board was set up with, so a reset
/// after any taps gives what a reset before them gives.
pub proof fn lemma_reset_undoes_taps(b: BoardView, taps: Seq<usize>)
    ensures
        b.tapped_all(taps).starting == b.starting,
        b.tapped_all(taps).reset() == b.reset(),
    decreases taps.len(),
{
    if taps.len() > 0 {
        lemma_reset_undoes_taps(b, taps.drop_last());
    }
}

/// A freshly set up board (from a FEN text or the standard setup) returns to
/// exactly its initial state on a reset, whatever taps came between.
pub proof fn lemma_reset_restores_setup(squares: Seq<Option<Piece>>, taps: Seq<usize>)
    ensures
        BoardView::fresh(squares).tapped_all(taps).reset() == BoardView::fresh(squares),
{
    lemma_reset_undoes_taps(BoardView::fresh(squares), taps);
}

} // verus!
