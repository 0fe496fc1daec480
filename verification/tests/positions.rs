use eink_chess::positions::parse_position_file;

const START: &str = "rnbqkbnr/pppppppp/8/8/8/8/PPPPPPPP/RNBQKBNR w KQkq - 0 1";
const ENDGAME: &str = "4k3/8/8/8/8/8/4P3/4K3 w - - 0 1";

#[test]
fn blank_lines_and_comments_are_skipped() {
    let text = format!("# openings\n\n  {START}  \r\n   \n#{ENDGAME}\n{ENDGAME}\n");
    let positions = parse_position_file(&text).unwrap();
    assert_eq!(positions, vec![START.to_string(), ENDGAME.to_string()]);
}

#[test]
fn the_last_line_needs_no_line_feed() {
    let text = format!("{START}\n{ENDGAME}");
    assert_eq!(parse_position_file(&text).unwrap().len(), 2);
}

#[test]
fn a_bad_line_is_reported_with_its_number() {
    let text = format!("{START}\n# note\n\n8/8/8 w - - 0 1\n{ENDGAME}\n");
    assert_eq!(
        parse_position_file(&text),
        Err("Line 4: FEN piece placement must contain eight ranks".to_string())
    );
}

#[test]
fn a_file_without_positions_is_refused() {
    let message = "No FEN positions found. Add one six-field FEN per line.".to_string();
    assert_eq!(parse_position_file(""), Err(message.clone()));
    assert_eq!(parse_position_file("# only a comment\n\n   \n"), Err(message));
}

#[test]
fn unicode_whitespace_is_trimmed() {
    let text = format!("\u{00A0}{START}\u{3000}\n");
    assert_eq!(parse_position_file(&text).unwrap(), vec![START.to_string()]);
}

#[test]
fn line_numbers_count_blank_lines() {
    let mut text = String::new();
    for _ in 0..11 {
        text.push('\n');
    }
    text.push_str("bad");
    assert_eq!(
        parse_position_file(&text),
        Err("Line 12: FEN must contain six fields".to_string())
    );
}
