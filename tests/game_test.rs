use pgn_parser::{parse_pgn, PGNParser, ParsedGame, Rule, Span, SyntaxError};

fn game(text: &str) -> ParsedGame {
    parse_pgn(text).expect("the game should parse")
}

fn notation(g: &ParsedGame, k: usize) -> (String, Option<String>, Option<String>, Option<String>) {
    let (white, black) = &g.moves[k];
    (
        white.piece_move().clone(),
        white.comment().cloned(),
        black.as_ref().map(|b| b.piece_move().clone()),
        black.as_ref().and_then(|b| b.comment().cloned()),
    )
}

#[test]
fn pair_of_two_plain_moves() {
    let g = game("1. e4 e5 *");
    assert_eq!(g.moves.len(), 1);
    assert_eq!(notation(&g, 0), ("e4".to_string(), None, Some("e5".to_string()), None));
}

#[test]
fn comment_belongs_to_white_before_black_move() {
    let g = game("1. e4 {good move} e5 *");
    let (white, black) = &g.moves[0];
    assert_eq!(white.comment().map(|c| c.as_str()), Some("good move"));
    assert_eq!(black.as_ref().unwrap().piece_move(), "e5");
    assert!(black.as_ref().unwrap().comment().is_none());
}

#[test]
fn truncated_pair_has_no_black_move() {
    let g = game("1. e4 1-0");
    assert_eq!(g.moves.len(), 1);
    assert!(g.moves[0].1.is_none());
    assert_eq!(g.moves[0].0.piece_move(), "e4");
}

#[test]
fn all_four_shapes_of_a_pair() {
    let g = game("1. e4 {a} 2. d4 d5 3. c4 e6 {b} 4. Nc3 {c} Nf6 {d} 0-1");
    assert_eq!(notation(&g, 0), ("e4".to_string(), Some("a".to_string()), None, None));
    assert_eq!(notation(&g, 1), ("d4".to_string(), None, Some("d5".to_string()), None));
    assert_eq!(
        notation(&g, 2),
        ("c4".to_string(), None, Some("e6".to_string()), Some("b".to_string()))
    );
    assert_eq!(
        notation(&g, 3),
        ("Nc3".to_string(), Some("c".to_string()), Some("Nf6".to_string()), Some("d".to_string()))
    );
    assert_eq!(g.game_result, "0-1");
}

#[test]
fn end_to_end_with_eighteen_tags_and_thirty_four_pairs() {
    let mut text = String::new();
    for k in 1..=18 {
        text.push_str(&format!("[Key{} \"Value {}\"]\n", k, k));
    }
    text.push('\n');
    for k in 1..=34 {
        text.push_str(&format!("{}. Nf3 Nf6 ", k));
    }
    text.push_str("1-0\n");
    let g = game(&text);
    assert_eq!(g.metadata.len(), 18);
    assert_eq!(g.moves.len(), 34);
    assert_eq!(g.game_result, "1-0");
}

#[test]
fn pairs_counted_by_move_numbers() {
    let g = game("1.e4 e5 2.Nf3 Nc6 3.Bb5 a6 4.Ba4 *");
    assert_eq!(g.moves.len(), 4);
    assert!(g.moves[3].1.is_none());
}

#[test]
fn non_canonical_result_is_a_syntax_error() {
    let r = parse_pgn("1. e4 e5 0-0");
    assert_eq!(r.err(), Some(SyntaxError { pos: 9, expected: Rule::game_result }));
    assert!(parse_pgn("[Event \"x\"] 1. e4 e5 2-0").is_err());
    assert!(parse_pgn("1. e4 e5 1-0").is_ok());
}

#[test]
fn tags_keep_order_text_and_duplicates() {
    let g = game("[Site \"A  b\"]\n[Event \"x\"]\n[Site \"c [d]\"]\n*");
    let tags: Vec<(&str, &str)> =
        g.metadata.iter().map(|(k, v)| (k.as_str(), v.as_str())).collect();
    assert_eq!(tags, vec![("Site", "A  b"), ("Event", "x"), ("Site", "c [d]")]);
}

#[test]
fn bare_result_is_a_game() {
    let g = game("*");
    assert!(g.metadata.is_empty());
    assert!(g.moves.is_empty());
    assert_eq!(g.game_result, "*");
}

#[test]
fn missing_move_after_number() {
    assert_eq!(
        parse_pgn("1. 1-0").err(),
        Some(SyntaxError { pos: 3, expected: Rule::complete_move })
    );
}

#[test]
fn text_after_result() {
    assert_eq!(parse_pgn("1-0 x").err(), Some(SyntaxError { pos: 4, expected: Rule::EOI }));
}

#[test]
fn empty_text_lacks_a_result() {
    assert_eq!(parse_pgn("").err(), Some(SyntaxError { pos: 0, expected: Rule::game_result }));
}

#[test]
fn unknown_move_token() {
    assert_eq!(
        parse_pgn("1. e9 e5 *").err(),
        Some(SyntaxError { pos: 3, expected: Rule::complete_move })
    );
}

#[test]
fn word_stops_at_blank() {
    let pair = PGNParser::parse(Rule::word, "Event \"x\"").unwrap();
    assert_eq!(pair.as_str(), "Event");
    assert_eq!(pair.span, Span { start: 0, end: 5 });
    assert_eq!(pair.as_rule(), Rule::word);
}

#[test]
fn move_notation_forms() {
    for ok in ["e8=Q", "exd8=N+", "O-O-O", "Nbxd7", "R1a3", "Qh4e1#", "Kxe2"] {
        assert!(PGNParser::parse(Rule::complete_move, ok).is_ok(), "{}", ok);
    }
    for bad in ["e9", "Xe4", "i4", "O-O-O-O", "exf", "P4"] {
        assert!(PGNParser::parse(Rule::complete_move, bad).is_err(), "{}", bad);
    }
    assert!(PGNParser::parse(Rule::move_piece_without_capture, "Nxf3").is_err());
}

#[test]
fn move_number_rule() {
    assert_eq!(PGNParser::parse(Rule::move_number, "12. e4").unwrap().as_str(), "12.");
    assert!(PGNParser::parse(Rule::move_number, "12 e4").is_err());
}

#[test]
fn move_list_and_game_rules() {
    let list = PGNParser::parse(Rule::move_list, "1. e4 e5 2. Nf3 *").unwrap();
    assert_eq!(list.as_str(), "1. e4 e5 2. Nf3");
    let whole = PGNParser::parse(Rule::game, "1. e4 *\n").unwrap();
    assert_eq!(whole.as_str(), "1. e4 *\n");
    assert!(PGNParser::parse(Rule::EOI, "").is_ok());
}

#[test]
fn comment_text_beyond_ascii() {
    let g = game("1. e4 {très bien} *");
    assert_eq!(g.moves[0].0.comment().unwrap(), "très bien");
}

#[test]
fn move_to_string() {
    let g = game("1. e4 {sharp} e5 *");
    assert_eq!(g.moves[0].0.to_string(), "e4 sharp");
    assert_eq!(g.moves[0].1.as_ref().unwrap().to_string(), "e5 ");
}

#[test]
fn report_of_a_game() {
    let g = game("[White \"Ann\"]\n[Black \"Bo\"]\n1. e4 {ok} e5 2. Nf3 1-0");
    assert_eq!(
        g.to_string(),
        "Game Metadata\nWhite: Ann\nBlack: Bo\n\nList of moves\nMove #1\nWhite: e4 ok Black: e5 \nMove #2\nWhite: Nf3  Black: \n\nGame Result\n1-0\n"
    );
}

#[test]
fn report_numbers_past_nine() {
    let mut text = String::new();
    for k in 1..=12 {
        text.push_str(&format!("{}. a3 ", k));
    }
    text.push('*');
    let report = game(&text).to_string();
    assert!(report.contains("Move #10\n"));
    assert!(report.contains("Move #12\nWhite: a3  Black: \n\nGame Result\n*\n"));
}

#[test]
fn error_descriptions() {
    assert_eq!(Rule::game_result.describe(), "game result token");
    assert_eq!(Rule::complete_move.describe(), "move");
}
