use chess_tui::board::{Color, Move};
use chess_tui::game::Game;

#[test]
fn start_position_has_expected_moves() {
    let mut game = Game::new();
    let legal = game.legal_moves();
    assert!(legal.iter().any(|mv| mv.to_iccs() == "h0-g2"));
    assert!(legal.iter().any(|mv| mv.to_iccs() == "h2-e2"));
}

#[test]
fn play_and_undo_roundtrip() {
    let mut game = Game::new();
    let before = game.fen();
    let mv = Move::from_iccs("h0g2").unwrap();
    game.play(mv).unwrap();
    assert_eq!(game.side_to_move(), Color::Black);
    game.undo().unwrap();
    assert_eq!(game.fen(), before);
}
