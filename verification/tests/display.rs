use eink_chess::board::{Color, Piece, PieceKind};
use eink_chess::display::{board_square, piece_label, square_action, square_label, CELLS};

#[test]
fn flipped_display_reverses_board_and_algebraic_notation() {
    assert_eq!(board_square(0, false), 0);
    assert_eq!(board_square(CELLS - 1, false), CELLS - 1);
    assert_eq!(board_square(0, true), CELLS - 1);
    assert_eq!(board_square(CELLS - 1, true), 0);
    assert_eq!(square_label(0, None), "a8");
    assert_eq!(square_label(CELLS - 1, None), "h1");
}

#[test]
fn flipping_twice_shows_every_square_where_it_was() {
    for d in 0..CELLS {
        assert_eq!(board_square(board_square(d, true), true), d);
        assert_eq!(board_square(d, false), d);
    }
}

#[test]
fn labels_name_the_square_and_the_piece() {
    let pawn = Piece { color: Color::White, kind: PieceKind::Pawn };
    let knight = Piece { color: Color::Black, kind: PieceKind::Knight };
    assert_eq!(square_label(52, Some(pawn)), "e2 P");
    assert_eq!(square_label(1, Some(knight)), "b8 n");
    assert_eq!(square_label(36, None), "e4");
}

#[test]
fn piece_labels_are_fen_letters() {
    let kinds = [
        (PieceKind::King, 'K'),
        (PieceKind::Queen, 'Q'),
        (PieceKind::Rook, 'R'),
        (PieceKind::Bishop, 'B'),
        (PieceKind::Knight, 'N'),
        (PieceKind::Pawn, 'P'),
    ];
    for (kind, letter) in kinds {
        let white = piece_label(Piece { color: Color::White, kind });
        let black = piece_label(Piece { color: Color::Black, kind });
        assert_eq!(white, letter.to_string());
        assert_eq!(black, letter.to_ascii_lowercase().to_string());
    }
}

#[test]
fn square_actions_carry_the_index() {
    assert_eq!(square_action(0), "square-0");
    assert_eq!(square_action(52), "square-52");
    assert_eq!(square_action(63), "square-63");
}
