use chess_tui::board::{Move, Square};
use chess_tui::game::{Game, GameError, PositionState};
use chess_tui::notation::{format_pv, normalize_notation, parse_move, parse_pv, MoveInputError};

fn sq(rank: u8, file: u8) -> Square {
    Square::from_rank_file(rank, file).unwrap()
}

#[test]
fn iccs_accepts_dash_case_and_spaces() {
    let expected = Move { src: sq(2, 7), dst: sq(2, 4) };
    assert_eq!(Move::from_iccs("h2e2"), Some(expected));
    assert_eq!(Move::from_iccs("h2-e2"), Some(expected));
    assert_eq!(Move::from_iccs("  H2E2 "), Some(expected));
    assert_eq!(Move::from_iccs("h2e"), None);
    assert_eq!(Move::from_iccs("j2e2"), None);
    assert_eq!(Move::from_iccs("h2-"), None);
}

#[test]
fn iccs_text_reads_back_as_the_same_move() {
    for (src, dst) in [((0, 0), (9, 8)), ((2, 7), (2, 4)), ((9, 1), (7, 2)), ((0, 0), (0, 0))] {
        let mv = Move { src: sq(src.0, src.1), dst: sq(dst.0, dst.1) };
        assert_eq!(Move::from_iccs(&mv.to_compact()), Some(mv));
    }
    let mv = Move { src: sq(0, 7), dst: sq(2, 6) };
    assert_eq!(mv.to_iccs(), "h0-g2");
    assert_eq!(Move::from_iccs(&mv.to_iccs()), Some(mv));
    let null = Move { src: sq(0, 0), dst: sq(0, 0) };
    assert_eq!(null.to_iccs(), "0000");
}

#[test]
fn normalizing_twice_changes_nothing() {
    for text in [" 俥九進一 ", "砲２平５", "H2-E2", "後馬進三", "兩"] {
        let once = normalize_notation(text);
        assert_eq!(normalize_notation(&once), once);
    }
    assert_eq!(normalize_notation("H2-E2"), "h2e2");
    assert_eq!(normalize_notation("後馬進三"), "后马进3");
}

#[test]
fn empty_input_is_refused() {
    let mut game = Game::new();
    let legal = game.legal_moves();
    let error = parse_move("   ", &game.position(), &legal).unwrap_err();
    assert_eq!(error, MoveInputError::Empty);
    assert_eq!(error.message(), "请输入着法");
}

#[test]
fn illegal_input_offers_moves_of_the_named_piece() {
    let mut game = Game::new();
    let legal = game.legal_moves();
    let error = parse_move("马二进二", &game.position(), &legal).unwrap_err();
    match &error {
        MoveInputError::Illegal { suggestions } => {
            assert_eq!(suggestions, &["马二进一", "马二进三", "马八进七", "马八进九"]);
        }
        other => panic!("unexpected {other:?}"),
    }
    assert_eq!(error.message(), "没有这步棋，可走：马二进一  马二进三  马八进七  马八进九");
}

#[test]
fn unknown_text_offers_the_first_six_moves() {
    let mut game = Game::new();
    let legal = game.legal_moves();
    let error = parse_move("xyz", &game.position(), &legal).unwrap_err();
    match error {
        MoveInputError::Illegal { suggestions } => {
            assert_eq!(suggestions.len(), 6);
            let mut sorted = suggestions.clone();
            sorted.sort();
            assert_eq!(sorted, suggestions);
        }
        other => panic!("unexpected {other:?}"),
    }
}

#[test]
fn front_and_rear_rooks_need_their_prefix() {
    let mut game = Game::new();
    game.set_fen("4k4/9/9/9/9/9/R8/9/R8/4K4 w - - 0 1").unwrap();
    let legal = game.legal_moves();
    assert_eq!(
        parse_move("前车平五", &game.position(), &legal).unwrap(),
        Move::from_iccs("a3e3").unwrap()
    );
    assert!(matches!(
        parse_move("车九平五", &game.position(), &legal),
        Err(MoveInputError::Illegal { .. })
    ));
}

#[test]
fn principal_variation_is_written_in_notation() {
    let game = Game::new();
    let raw = vec!["h2e2".to_string(), "h9g7".to_string(), "bad".to_string()];
    let moves = parse_pv(&raw);
    assert_eq!(moves.len(), 2);
    assert_eq!(format_pv(&game.position(), &moves, 12), "炮二平五 马8进7");
    assert_eq!(format_pv(&game.position(), &moves, 1), "炮二平五");
}

#[test]
fn illegal_moves_are_refused_by_the_game() {
    let mut game = Game::new();
    let mv = Move::from_iccs("a0b1").unwrap();
    match game.play(mv) {
        Err(GameError::IllegalMove) => {}
        other => panic!("unexpected {other:?}"),
    }
    assert!(game.history().is_empty());
    assert!(game.undo().is_none());
}

#[test]
fn a_bad_position_is_refused() {
    let mut game = Game::new();
    match game.set_fen("not a position") {
        Err(GameError::InvalidFen(_)) => {}
        other => panic!("unexpected {other:?}"),
    }
}

#[test]
fn the_game_knows_check_and_mate() {
    let mut game = Game::new();
    assert_eq!(game.state(), PositionState::Playing);
    game.set_fen("3k5/4R4/4R4/9/9/9/9/9/9/4K4 b - - 0 1").unwrap();
    assert!(matches!(game.state(), PositionState::Won { winner: chess_tui::board::Color::Red, .. }));
}

#[test]
fn records_hold_notation_and_side() {
    let mut game = Game::new();
    let record = game.play(Move::from_iccs("h0g2").unwrap()).unwrap();
    assert_eq!(record.notation, "马二进三");
    assert_eq!(record.side, chess_tui::board::Color::Red);
    assert_eq!(game.last_move(), Move::from_iccs("h0g2"));
    let undone = game.undo().unwrap();
    assert_eq!(undone.notation, "马二进三");
}

#[test]
fn a_king_facing_a_rook_is_in_check() {
    let mut game = Game::new();
    game.set_fen("4k4/9/9/9/4r4/9/9/9/9/4K4 w - - 0 1").unwrap();
    assert_eq!(game.state(), PositionState::Check(chess_tui::board::Color::Red));
    let legal = game.legal_moves();
    assert!(!legal.is_empty());
}

#[test]
fn text_with_too_many_ranks_is_refused_before_the_engine_reads_it() {
    let mut game = Game::new();
    let text = "/".repeat(140);
    match game.set_fen(&text) {
        Err(GameError::TooManyRanks) => {}
        other => panic!("unexpected {other:?}"),
    }
    assert_eq!(game.set_fen(&text).unwrap_err().message(), "FEN 的行数过多");
    assert_eq!(game.fen(), "rnbakabnr/9/1c5c1/p1p1p1p1p/9/9/P1P1P1P1P/1C5C1/9/RNBAKABNR w");
}

#[test]
fn a_position_with_more_moves_than_the_engine_lists_is_refused() {
    let mut game = Game::new();
    match game.set_fen("4k4/9/9/9/9/9/9/9/RRRRRRRR1/4K4 w") {
        Err(GameError::TooManyPieces) => {}
        other => panic!("unexpected {other:?}"),
    }
    assert_eq!(game.fen(), "rnbakabnr/9/1c5c1/p1p1p1p1p/9/9/P1P1P1P1P/1C5C1/9/RNBAKABNR w");
    game.set_fen("4k4/9/9/9/9/9/9/9/RRRRRRR2/4K4 w").unwrap();
    assert!(!game.legal_moves().is_empty());
    assert!(game.history().is_empty());
}

#[test]
fn a_new_game_starts_with_red_to_move() {
    let mut game = Game::new();
    assert_eq!(game.side_to_move(), chess_tui::board::Color::Red);
    game.play(Move::from_iccs("h2e2").unwrap()).unwrap();
    game.reset();
    assert_eq!(game.side_to_move(), chess_tui::board::Color::Red);
    assert_eq!(game.fen(), "rnbakabnr/9/1c5c1/p1p1p1p1p/9/9/P1P1P1P1P/1C5C1/9/RNBAKABNR w");
}

#[test]
fn every_legal_move_reads_back_from_its_coordinates_and_notation() {
    let mut game = Game::new();
    let legal = game.legal_moves();
    let board = game.position();
    for mv in &legal {
        assert_eq!(parse_move(&mv.to_iccs(), &board, &legal), Ok(*mv));
        assert_eq!(parse_move(&mv.to_compact(), &board, &legal), Ok(*mv));
        let written = chess_tui::notation::format_move(&board, *mv);
        let same = legal
            .iter()
            .filter(|m| {
                normalize_notation(&chess_tui::notation::format_move(&board, **m))
                    == normalize_notation(&written)
            })
            .count();
        if same == 1 {
            assert_eq!(parse_move(&written, &board, &legal), Ok(*mv));
        }
    }
}

#[test]
fn the_most_ranks_the_engine_counts_are_still_read() {
    let mut game = Game::new();
    game.set_fen(&"/".repeat(137)).unwrap();
    assert_eq!(game.fen(), "9/9/9/9/9/9/9/9/9/9 w");
    assert!(game.legal_moves().is_empty());
    assert!(matches!(game.state(), PositionState::Won { winner: chess_tui::board::Color::Black, by_checkmate: true }));
    assert!(matches!(game.set_fen(&"/".repeat(138)), Err(GameError::TooManyRanks)));
}
