use eink_chess::board::{Board, Color, Piece, PieceKind};

#[test]
fn a_piece_can_be_selected_and_moved_anywhere() {
    let mut board = Board::default();

    assert!(board.tap(52)); // e2
    assert_eq!(board.selected(), Some(52));

    assert!(board.tap(36)); // e4
    assert!(board.piece_at(52).is_none());
    assert_eq!(
        board.piece_at(36),
        Some(Piece {
            color: Color::White,
            kind: PieceKind::Pawn,
        })
    );
    assert_eq!(board.selected(), None);
}

#[test]
fn tapping_empty_square_first_does_nothing() {
    let mut board = Board::default();
    assert!(!board.tap(32));
    assert_eq!(board.selected(), None);
}

#[test]
fn tapping_selected_piece_again_deselects_it() {
    let mut board = Board::default();

    assert!(board.tap(57)); // b1 knight
    assert!(board.tap(57));

    assert_eq!(board.selected(), None);
    assert_eq!(
        board.piece_at(57),
        Some(Piece {
            color: Color::White,
            kind: PieceKind::Knight,
        })
    );
}

#[test]
fn moving_onto_an_occupied_square_replaces_that_piece() {
    let mut board = Board::default();

    assert!(board.tap(56)); // a1 white rook
    assert!(board.tap(0)); // a8 black rook

    assert_eq!(
        board.piece_at(0),
        Some(Piece {
            color: Color::White,
            kind: PieceKind::Rook,
        })
    );
    assert!(board.piece_at(56).is_none());
}

#[test]
fn reset_restores_the_initial_position() {
    let mut board = Board::default();
    board.tap(52);
    board.tap(36);
    board.reset();

    assert_eq!(board, Board::starting_position());
}

#[test]
fn tapping_past_the_last_square_changes_nothing() {
    let mut board = Board::default();
    assert!(!board.tap(64));
    assert!(!board.tap(usize::MAX));
    assert_eq!(board, Board::starting_position());
    assert!(board.tap(52));
    assert!(!board.tap(64));
    assert_eq!(board.selected(), Some(52));
}

#[test]
fn piece_at_past_the_last_square_is_empty() {
    let board = Board::default();
    assert_eq!(board.piece_at(64), None);
    assert_eq!(board.piece_at(1000), None);
    assert_eq!(
        board.piece_at(63),
        Some(Piece { color: Color::White, kind: PieceKind::Rook })
    );
}

#[test]
fn starting_position_has_the_standard_setup() {
    let board = Board::starting_position();
    let back = [
        PieceKind::Rook,
        PieceKind::Knight,
        PieceKind::Bishop,
        PieceKind::Queen,
        PieceKind::King,
        PieceKind::Bishop,
        PieceKind::Knight,
        PieceKind::Rook,
    ];
    for file in 0..8 {
        assert_eq!(board.piece_at(file), Some(Piece { color: Color::Black, kind: back[file] }));
        assert_eq!(board.piece_at(8 + file), Some(Piece { color: Color::Black, kind: PieceKind::Pawn }));
        assert_eq!(board.piece_at(48 + file), Some(Piece { color: Color::White, kind: PieceKind::Pawn }));
        assert_eq!(board.piece_at(56 + file), Some(Piece { color: Color::White, kind: back[file] }));
    }
    for square in 16..48 {
        assert_eq!(board.piece_at(square), None);
    }
    assert_eq!(board.selected(), None);
}

#[test]
fn selecting_then_deselecting_leaves_the_board_unchanged() {
    let mut board = Board::default();
    assert!(board.tap(12));
    assert!(board.tap(12));
    assert_eq!(board, Board::starting_position());
}

#[test]
fn reset_after_many_taps_restores_a_fen_position() {
    let fen = "4k3/8/8/8/8/8/4P3/4K3 w - - 0 1";
    let mut board = Board::from_fen(fen).unwrap();
    for square in [52, 36, 4, 60, 60, 4, 0, 63, 12] {
        board.tap(square);
    }
    board.reset();
    assert_eq!(board, Board::from_fen(fen).unwrap());
}

#[test]
fn a_tap_moves_without_creating_pieces() {
    let mut board = Board::default();
    assert!(board.tap(63));
    assert!(board.tap(62));
    let mut count = 0;
    for square in 0..64 {
        if board.piece_at(square).is_some() {
            count += 1;
        }
    }
    assert_eq!(count, 31);
    assert_eq!(board.piece_at(63), None);
    assert_eq!(board.piece_at(62), Some(Piece { color: Color::White, kind: PieceKind::Rook }));
}

#[test]
fn clone_keeps_the_board() {
    let mut board = Board::default();
    board.tap(52);
    let copy = board.clone();
    assert_eq!(copy, board);
    assert_eq!(copy.selected(), Some(52));
}
