//! How squares and pieces are named on screen.

use vstd::prelude::*;
use crate::board::{Color, Piece, PieceKind};
use crate::fen::piece_for_symbol;
use crate::text::{decimal, decimal_string, push_char};

verus! {

/// Squares per side of the board.
pub const SIDE: usize = 8;

/// Squares on the board.
pub const CELLS: usize = 64;

/// The FEN letter of a piece: upper case for White, lower case for Black.
pub open spec fn piece_symbol(p: Piece) -> char {
    let c = match p.kind {
        PieceKind::King => 'K',
        PieceKind::Queen => 'Q',
        PieceKind::Rook => 'R',
        PieceKind::Bishop => 'B',
        PieceKind::Knight => 'N',
        PieceKind::Pawn => 'P',
    };
    match p.color {
        Color::White => c,
        Color::Black => match p.kind {
            PieceKind::King => 'k',
            PieceKind::Queen => 'q',
            PieceKind::Rook => 'r',
            PieceKind::Bishop => 'b',
            PieceKind::Knight => 'n',
            PieceKind::Pawn => 'p',
        },
    }
}

/// Reading back the letter of a piece gives that piece: the letters that
/// label pieces on screen are the FEN letters, one per piece.
pub proof fn lemma_symbol_names_piece(p: Piece)
    ensures
        piece_for_symbol(piece_symbol(p)) == Some(p),
{
}

/// The FEN letter of `piece`.
pub fn piece_label(piece: Piece) -> (s: &'static str)
    ensures
        s@ == seq![piece_symbol(piece)],
{
    match (piece.color, piece.kind) {
        (Color::White, PieceKind::King) => {
            proof {
                reveal_strlit("K");
            }
            "K"
        },
        (Color::White, PieceKind::Queen) => {
            proof {
                reveal_strlit("Q");
            }
            "Q"
        },
        (Color::White, PieceKind::Rook) => {
            proof {
                reveal_strlit("R");
            }
            "R"
        },
        (Color::White, PieceKind::Bishop) => {
            proof {
                reveal_strlit("B");
            }
            "B"
        },
        (Color::White, PieceKind::Knight) => {
            proof {
                reveal_strlit("N");
            }
            "N"
        },
        (Color::White, PieceKind::Pawn) => {
            proof {
                reveal_strlit("P");
            }
            "P"
        },
        (Color::Black, PieceKind::King) => {
            proof {
                reveal_strlit("k");
            }
            "k"
        },
        (Color::Black, PieceKind::Queen) => {
            proof {
                reveal_strlit("q");
            }
            "q"
        },
        (Color::Black, PieceKind::Rook) => {
            proof {
                reveal_strlit("r");
            }
            "r"
        },
        (Color::Black, PieceKind::Bishop) => {
            proof {
                reveal_strlit("b");
            }
            "b"
        },
        (Color::Black, PieceKind::Knight) => {
            proof {
                reveal_strlit("n");
            }
            "n"
        },
        (Color::Black, PieceKind::Pawn) => {
            proof {
                reveal_strlit("p");
            }
            "p"
        },
    }
}

/// The board square shown at position `display_square` of the screen: the
/// same square, or, with the board flipped, the square opposite it.
pub open spec fn shown_square(display_square: int, flipped: bool) -> int {
    if flipped {
        63 - display_square
    } else {
        display_square
    }
}

/// The board square shown at `display_square`.
pub fn board_square(display_square: usize, flipped: bool) -> (square: usize)
    requires
        flipped ==> display_square < CELLS,
    ensures
        square == shown_square(display_square as int, flipped),
{
    if flipped {
        CELLS - 1 - display_square
    } else {
        display_square
    }
}

/// Flipping twice shows every square where it was, and each screen
/// position shows a square of the board.
pub proof fn lemma_flip_is_involution(display_square: int, flipped: bool)
    requires
        0 <= display_square < 64,
    ensures
        0 <= shown_square(display_square, flipped) < 64,
        shown_square(shown_square(display_square, flipped), flipped) == display_square,
{
}

/// The file letter of `square`: `a` to `h`, left to right.
pub open spec fn file_char(square: int) -> char {
    ('a' as u32 + square % 8) as char
}

/// The rank digit of `square`: `8` for the top row down to `1` for the bottom.
pub open spec fn rank_char(square: int) -> char {
    ('8' as u32 - (square / 8) % 256) as char
}

/// The text of a square: its algebraic name, then the FEN letter of the
/// piece on it, if any.
pub open spec fn square_text(square: int, piece: Option<Piece>) -> Seq<char> {
    let name = seq![file_char(square), rank_char(square)];
    match piece {
        Some(p) => name + seq![' ', piece_symbol(p)],
        None => name,
    }
}

/// The label of `square` holding `piece`, such as `e2 P` or `e4`.
pub fn square_label(square: usize, piece: Option<Piece>) -> (label: String)
    requires
        (square / SIDE) % 256 <= 56,
    ensures
        label@ == square_text(square as int, piece),
{
    let file = (97 + square % SIDE) as u8 as char;
    let rank = (56 - (square / SIDE) % 256) as u8 as char;
    let mut label = String::new();
    push_char(&mut label, file);
    push_char(&mut label, rank);
    match piece {
        Some(piece) => {
            push_char(&mut label, ' ');
            label.append(piece_label(piece));
        },
        None => {},
    }
    label
}

/// The name of the touch action of a square.
pub open spec fn square_action_name(square: nat) -> Seq<char> {
    "square-"@ + decimal(square)
}

/// The touch action of `square`, `square-` and its index.
pub fn square_action(square: usize) -> (action: String)
    ensures
        action@ == square_action_name(square as nat),
{
    let mut action = String::from_str("square-");
    action.append(decimal_string(square).as_str());
    action
}


/// A flipped view turns the board around: the square shown at screen
/// position `d` stands in the mirrored file and the mirrored rank.
pub proof fn lemma_flip_turns_board_around(d: int)
    requires
        0 <= d < 64,
    ensures
        0 <= shown_square(d, true) < 64,
        shown_square(d, true) % 8 == 7 - d % 8,
        shown_square(d, true) / 8 == 7 - d / 8,
        shown_square(d, false) == d,
{
    let s = shown_square(d, true);
    assert(s % 8 == 7 - d % 8 && s / 8 == 7 - d / 8) by (nonlinear_arith)
        requires
            s == 63 - d,
            0 <= d < 64,
    ;
}

} // verus!
