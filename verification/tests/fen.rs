use eink_chess::board::{Board, Color, Piece, PieceKind};
use eink_chess::fen::FenError;

const START: &str = "rnbqkbnr/pppppppp/8/8/8/8/PPPPPPPP/RNBQKBNR w KQkq - 0 1";

#[test]
fn the_standard_fen_gives_the_starting_position() {
    assert_eq!(Board::from_fen(START).unwrap(), Board::starting_position());
}

#[test]
fn surrounding_and_repeated_whitespace_is_accepted() {
    let fen = "  rnbqkbnr/pppppppp/8/8/8/8/PPPPPPPP/RNBQKBNR \t w\nKQkq  -  0   1\r\n";
    assert_eq!(Board::from_fen(fen).unwrap(), Board::starting_position());
}

#[test]
fn pieces_are_read_rank_by_rank() {
    let board = Board::from_fen("7k/8/8/8/8/8/8/K6q b - - 12 40").unwrap();
    assert_eq!(board.piece_at(7), Some(Piece { color: Color::Black, kind: PieceKind::King }));
    assert_eq!(board.piece_at(56), Some(Piece { color: Color::White, kind: PieceKind::King }));
    assert_eq!(board.piece_at(63), Some(Piece { color: Color::Black, kind: PieceKind::Queen }));
    assert_eq!(board.piece_at(0), None);
    assert_eq!(board.selected(), None);
}

#[test]
fn every_error_has_its_message() {
    let cases = [
        ("8/8/8/8/8/8/8/8 w - - 0", "FEN must contain six fields"),
        ("8/8/8/8/8/8/8 w - - 0 1", "FEN piece placement must contain eight ranks"),
        ("8/8/8/8/8/8/8/8/8 w - - 0 1", "FEN piece placement must contain eight ranks"),
        ("8/8/8/8/8/8/8/54 w - - 0 1", "FEN rank contains more than eight squares"),
        ("8/8/8/8/8/8/8/9 w - - 0 1", "FEN contains an unknown piece symbol"),
        ("8/8/8/8/8/8/8/8p w - - 0 1", "FEN rank contains more than eight squares"),
        ("8/8/8/8/8/8/8/7x w - - 0 1", "FEN contains an unknown piece symbol"),
        ("8/8/8/8/8/8/8/7 w - - 0 1", "each FEN rank must describe exactly eight squares"),
        ("8/8/8/8/8/8/8/ w - - 0 1", "each FEN rank must describe exactly eight squares"),
        ("8/8/8/8/8/8/8/8 x - - 0 1", "FEN active color must be w or b"),
        ("8/8/8/8/8/8/8/8 w KK - 0 1", "FEN castling rights are invalid"),
        ("8/8/8/8/8/8/8/8 w Kx - 0 1", "FEN castling rights are invalid"),
        ("8/8/8/8/8/8/8/8 w e3 - 0 1", "FEN castling rights are invalid"),
        ("8/8/8/8/8/8/8/8 w - e3 0 1", "FEN en passant square is invalid for the active color"),
        ("8/8/8/8/8/8/8/8 b - e6 0 1", "FEN en passant square is invalid for the active color"),
        ("8/8/8/8/8/8/8/8 w - i6 0 1", "FEN en passant square is invalid for the active color"),
        ("8/8/8/8/8/8/8/8 w - - -1 1", "FEN halfmove clock must be a nonnegative integer"),
        ("8/8/8/8/8/8/8/8 w - - + 1", "FEN halfmove clock must be a nonnegative integer"),
        ("8/8/8/8/8/8/8/8 w - - 4294967296 1", "FEN halfmove clock must be a nonnegative integer"),
        ("8/8/8/8/8/8/8/8 w - - 0 0", "FEN fullmove number must be a positive integer"),
        ("8/8/8/8/8/8/8/8 w - - 0 x", "FEN fullmove number must be a positive integer"),
    ];
    for (fen, message) in cases {
        assert_eq!(Board::from_fen(fen), Err(message), "{fen}");
    }
}

#[test]
fn the_first_failed_check_is_reported() {
    assert_eq!(
        Board::from_fen("8/8/8/8/8/8/8/x w x x x x"),
        Err("FEN contains an unknown piece symbol")
    );
    assert_eq!(
        Board::from_fen("8/8/8/8/8/8/8/8 z KK - x 0"),
        Err("FEN active color must be w or b")
    );
}

#[test]
fn accepted_metadata_forms() {
    for fen in [
        "8/8/8/8/8/8/8/8 w KQkq e6 0 1",
        "8/8/8/8/8/8/8/8 b qkQK a3 +7 0001",
        "8/8/8/8/8/8/8/8 w Q h6 4294967295 4294967295",
        "8/8/8/8/8/8/8/8 b - - 00 1",
    ] {
        assert!(Board::from_fen(fen).is_ok(), "{fen}");
    }
}

#[test]
fn error_messages_match_their_kinds() {
    assert_eq!(FenError::FieldCount.message(), "FEN must contain six fields");
    assert_eq!(FenError::Fullmove.message(), "FEN fullmove number must be a positive integer");
    assert_eq!(FenError::RankWidth.message(), "each FEN rank must describe exactly eight squares");
}
