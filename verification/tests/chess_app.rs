use eink_chess::board::{Color, Piece, PieceKind};
use eink_chess::chess_app::{Action, ChessBoardApp, Loaded, Step, POSITIONS_FILE};

const START: &str = "rnbqkbnr/pppppppp/8/8/8/8/PPPPPPPP/RNBQKBNR w KQkq - 0 1";
const ENDGAME: &str = "4k3/8/8/8/8/8/4P3/4K3 w - - 0 1";

fn examples() -> String {
    format!("{START}\n{ENDGAME}\n")
}

fn loaded_app() -> ChessBoardApp {
    let mut app = ChessBoardApp::default();
    let step = app.on_load(POSITIONS_FILE, Loaded::Found(examples().into_bytes()), &examples());
    assert!(matches!(step, Step::Show));
    app
}

#[test]
fn a_missing_file_loads_and_saves_the_examples() {
    let mut app = ChessBoardApp::default();
    match app.on_load(POSITIONS_FILE, Loaded::Missing, &examples()) {
        Step::SaveThenShow(text) => assert_eq!(text, examples()),
        _ => panic!("expected a save"),
    }
    let screen = app.screen();
    assert_eq!(screen.title, "E-Ink Chess 1/2");
    assert!(screen.note.is_none());
}

#[test]
fn other_keys_and_answers_are_ignored() {
    let mut app = ChessBoardApp::default();
    assert!(matches!(app.on_load("other.fen", Loaded::Missing, &examples()), Step::Idle));
    assert!(matches!(app.on_load(POSITIONS_FILE, Loaded::Other, &examples()), Step::Idle));
    assert_eq!(app.screen().title, "E-Ink Chess 1/0");
}

#[test]
fn an_invalid_file_shows_its_error_over_the_examples() {
    let mut app = ChessBoardApp::default();
    let text = "bad line\n".to_string();
    assert!(matches!(app.on_load(POSITIONS_FILE, Loaded::Found(text.into_bytes()), &examples()), Step::Show));
    let screen = app.screen();
    assert_eq!(screen.title, "FEN file needs fixing");
    assert_eq!(screen.note, Some("Line 1: FEN must contain six fields".to_string()));
}

#[test]
fn a_file_that_is_not_utf8_is_reported() {
    let mut app = ChessBoardApp::default();
    assert!(matches!(app.on_load(POSITIONS_FILE, Loaded::Found(vec![0xff, 0xfe]), &examples()), Step::Show));
    assert_eq!(app.screen().note, Some("The positions.fen file is not UTF-8 text.".to_string()));
}

#[test]
fn a_denied_read_shows_the_examples() {
    let mut app = ChessBoardApp::default();
    assert!(matches!(app.on_load(POSITIONS_FILE, Loaded::Denied, &examples()), Step::Show));
    let screen = app.screen();
    assert_eq!(screen.note, Some("Saved positions could not be read; showing examples.".to_string()));
    assert_eq!(screen.cells[4].label, "e8 k");
}

#[test]
fn taps_refresh_only_when_something_changed() {
    let mut app = loaded_app();
    assert!(matches!(app.on_action(Action::Square(32)), Step::Idle));
    assert!(matches!(app.on_action(Action::Square(52)), Step::Show));
    assert!(app.screen().cells[52].selected);
    assert!(matches!(app.on_action(Action::Square(36)), Step::Show));
    let screen = app.screen();
    assert_eq!(screen.cells[36].piece, Some(Piece { color: Color::White, kind: PieceKind::Pawn }));
    assert_eq!(screen.cells[36].label, "e4 P");
    assert_eq!(screen.cells[52].piece, None);
    assert!(matches!(app.on_action(Action::Other), Step::Idle));
    assert!(matches!(app.on_action(Action::Exit), Step::Exit));
}

#[test]
fn reset_and_flip() {
    let mut app = loaded_app();
    app.on_action(Action::Square(52));
    app.on_action(Action::Square(36));
    assert!(matches!(app.on_action(Action::Reset), Step::Show));
    assert_eq!(app.screen().cells[52].label, "e2 P");
    assert!(matches!(app.on_action(Action::Flip), Step::Show));
    let screen = app.screen();
    assert_eq!(screen.cells[0].label, "h1 R");
    assert_eq!(screen.cells[0].action, "square-63");
    assert_eq!(screen.cells[63].label, "a8 r");
}

#[test]
fn page_turns_move_through_the_positions() {
    let mut app = loaded_app();
    assert!(matches!(app.turn_position(false), Step::Idle));
    assert!(matches!(app.turn_position(true), Step::Show));
    assert_eq!(app.screen().title, "E-Ink Chess 2/2");
    assert_eq!(app.screen().cells[0].piece, None);
    assert!(matches!(app.turn_position(true), Step::Idle));
    app.on_action(Action::Square(52));
    app.on_action(Action::Square(44));
    assert!(matches!(app.turn_position(false), Step::Show));
    assert!(matches!(app.turn_position(true), Step::Show));
    assert_eq!(app.screen().cells[52].label, "e2 P");
    assert_eq!(app.screen().cells[44].label, "e3");
}

#[test]
fn sleeping_changes_the_title() {
    let mut app = loaded_app();
    assert!(matches!(app.on_suspend(), Step::Show));
    assert_eq!(app.screen().title, "Sleeping - press power to wake");
    assert!(matches!(app.on_resume(), Step::Show));
    assert_eq!(app.screen().title, "E-Ink Chess 1/2");
}
