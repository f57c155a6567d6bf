use chess_tui::board::{Color, Piece, PieceType};
use chess_tui::display::piece_symbol;

#[test]
fn uses_unicode_xiangqi_symbols() {
    assert_eq!(
        piece_symbol(Piece::new(Color::Red, PieceType::King), true),
        "🩠"
    );
    assert_eq!(
        piece_symbol(Piece::new(Color::Black, PieceType::Pawn), true),
        "🩭"
    );
}
