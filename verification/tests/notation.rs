use chess_tui::board::Move;
use chess_tui::game::Game;
use chess_tui::notation::{format_move, normalize_notation, parse_move};

#[test]
fn formats_common_red_opening_moves() {
    let game = Game::new();
    assert_eq!(
        format_move(&game.position(), Move::from_iccs("h0g2").unwrap()),
        "马二进三"
    );
    assert_eq!(
        format_move(&game.position(), Move::from_iccs("h2e2").unwrap()),
        "炮二平五"
    );
    assert_eq!(
        format_move(&game.position(), Move::from_iccs("a0a1").unwrap()),
        "车九进一"
    );
}

#[test]
fn formats_black_from_black_perspective() {
    let mut game = Game::new();
    game.set_fen("rnbakabnr/9/1c5c1/p1p1p1p1p/9/9/P1P1P1P1P/1C5C1/9/RNBAKABNR b - - 0 1")
        .unwrap();
    assert_eq!(
        format_move(&game.position(), Move::from_iccs("h9g7").unwrap()),
        "马8进7"
    );
    assert_eq!(
        format_move(&game.position(), Move::from_iccs("b9c7").unwrap()),
        "马2进3"
    );
}

#[test]
fn parses_simplified_traditional_and_coordinates() {
    let mut game = Game::new();
    let legal = game.legal_moves();
    assert_eq!(
        parse_move("马二进三", &game.position(), &legal)
            .unwrap()
            .to_iccs(),
        "h0-g2"
    );
    assert_eq!(
        parse_move("馬二進三", &game.position(), &legal)
            .unwrap()
            .to_iccs(),
        "h0-g2"
    );
    assert_eq!(
        parse_move("h0g2", &game.position(), &legal)
            .unwrap()
            .to_iccs(),
        "h0-g2"
    );
}

#[test]
fn front_and_rear_pieces_are_disambiguated() {
    let mut game = Game::new();
    game.set_fen("4k4/9/9/9/9/9/R8/9/R8/4K4 w - - 0 1").unwrap();
    assert_eq!(
        format_move(&game.position(), Move::from_iccs("a3a4").unwrap()),
        "前车进一"
    );
    assert_eq!(
        format_move(&game.position(), Move::from_iccs("a1a2").unwrap()),
        "后车进一"
    );
}

#[test]
fn normalization_accepts_piece_aliases() {
    assert_eq!(normalize_notation(" 俥九進一 "), "车9进1");
    assert_eq!(normalize_notation("砲２平５"), "炮2平5");
}
