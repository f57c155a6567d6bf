use chess_tui::app::{App, AppOptions, Focus, HumanMode};
use chess_tui::board::{Color, Move, Square};
use chess_tui::display::{evaluation_advantage, evaluation_delta, format_evaluation, PositionEvaluation};
use chess_tui::game::PositionState;
use chess_tui::screen::{
    activity_label, analysis_head, analysis_moves, change_text, column_label, display_square,
    history_delta, history_prefix, history_score, pad_to_width, state_label, status_line, verdict,
};

fn eval(score: Option<i32>, mate: Option<i32>) -> PositionEvaluation {
    PositionEvaluation { score_cp_red: score, mate_red: mate, depth: 8 }
}

#[test]
fn scores_are_written_in_pawns_or_mates() {
    assert_eq!(format_evaluation(Some(35), None), "+0.35");
    assert_eq!(format_evaluation(Some(-120), None), "-1.20");
    assert_eq!(format_evaluation(Some(0), None), "+0.00");
    assert_eq!(format_evaluation(None, Some(3)), "红杀3");
    assert_eq!(format_evaluation(Some(10), Some(-2)), "黑杀2");
    assert_eq!(format_evaluation(None, None), "--");
}

#[test]
fn advantage_words() {
    assert_eq!(evaluation_advantage(&eval(Some(21), None)), "红优");
    assert_eq!(evaluation_advantage(&eval(Some(-21), None)), "黑优");
    assert_eq!(evaluation_advantage(&eval(Some(20), None)), "均势");
    assert_eq!(evaluation_advantage(&eval(None, Some(1))), "红胜");
    assert_eq!(evaluation_advantage(&eval(None, Some(-1))), "黑胜");
}

#[test]
fn changes_between_positions() {
    let before = eval(Some(10), None);
    let after = eval(Some(35), None);
    assert_eq!(evaluation_delta(&after, Some(&before)), Some(25));
    assert_eq!(evaluation_delta(&after, None), None);
    assert_eq!(history_delta(Some(after), Some(before)), "  Δ+0.25");
    assert_eq!(history_delta(Some(after), None), "");
    assert_eq!(change_text(Some(before), Some(after)).as_deref(), Some("  变化 -0.25"));
    assert_eq!(history_score(Some(after)), "+0.35");
    assert_eq!(history_score(None), "--");
}

#[test]
fn history_rows_start_with_number_and_side() {
    assert_eq!(history_prefix(0, Color::Red), "  1.红 ");
    assert_eq!(history_prefix(1, Color::Black), "  1.黑 ");
    assert_eq!(history_prefix(200, Color::Red), "101.红 ");
}

#[test]
fn padding_counts_terminal_columns() {
    assert_eq!(pad_to_width("马二进三", 10), "马二进三  ");
    assert_eq!(pad_to_width("h2e2", 6), "h2e2  ");
    assert_eq!(pad_to_width("很长很长很长", 4), "很长很长很长");
}

#[test]
fn states_and_status() {
    assert_eq!(state_label(PositionState::Playing), "对局中");
    assert_eq!(state_label(PositionState::Check(Color::Black)), "黑方被将军");
    assert_eq!(
        state_label(PositionState::Won { winner: Color::Red, by_checkmate: true }),
        "红方获胜"
    );
    assert_eq!(
        status_line(Color::Red, HumanMode::Side(Color::Red), false, 20),
        "  红方行棋  你执红  轻量引擎  难度 20"
    );
    assert_eq!(activity_label(true, true), "  ◉ 评估中");
    assert_eq!(activity_label(false, true), "  ◉ 思考中");
    assert_eq!(activity_label(false, false), "");
    assert_eq!(verdict(Some(eval(Some(35), None)), false), "红优 +0.35");
    assert_eq!(verdict(None, true), "计算中");
    assert_eq!(verdict(None, false), "尚无评分");
}

#[test]
fn board_uses_opposite_numeric_file_labels() {
    let top: String = (0..9).map(|c| column_label(c, false).to_string()).collect();
    let bottom: String = (0..9).map(|c| column_label(c, true).to_string()).collect();
    assert_eq!(top, "123456789");
    assert_eq!(bottom, "987654321");
    assert_eq!(display_square(false, 0, 0), Square::from_rank_file(9, 0).unwrap());
    assert_eq!(display_square(true, 0, 0), Square::from_rank_file(0, 8).unwrap());
}

#[test]
fn analysis_rows() {
    let mut app = App::new(AppOptions::default(), 0);
    app.active_search = Some(chess_tui::app::ActiveSearch {
        id: 1,
        purpose: chess_tui::uci::SearchPurpose::Hint,
        side: Color::Red,
        position_index: 0,
        skill_move: None,
    });
    app.handle_ai_event(chess_tui::uci::AiEvent::Info {
        id: 1,
        purpose: chess_tui::uci::SearchPurpose::Hint,
        info: chess_tui::uci::AnalysisInfo {
            depth: Some(4),
            multipv: 1,
            score_cp: Some(35),
            pv: vec!["h2e2".to_string(), "h9g7".to_string()],
            ..chess_tui::uci::AnalysisInfo::default()
        },
    });
    let line = app.analysis_lines.get(&1).unwrap();
    assert_eq!(analysis_head(1, line), "1   +0.35  ");
    assert_eq!(analysis_moves(line), "炮二平五 马8进7");
    assert_eq!(app.hint_move, Move::from_iccs("h2e2"));
}

#[test]
fn squares_show_their_marks() {
    let mut app = App::new(AppOptions::default(), 0);
    app.game.play(Move::from_iccs("h2e2").unwrap()).unwrap();
    app.focus = Focus::Board;
    app.cursor = Square::from_rank_file(2, 4).unwrap();
    let look = app.square_look(Square::from_rank_file(2, 4).unwrap());
    assert!(look.piece.is_some());
    assert!(look.last_move);
    assert!(look.cursor);
    assert!(!look.hint);
    assert!(!look.selected);
    let empty = app.square_look(Square::from_rank_file(4, 4).unwrap());
    assert!(empty.piece.is_none());
    assert!(!empty.last_move);
}

#[test]
fn history_shows_position_score_and_change() {
    let mut app = App::new(AppOptions::default(), 0);
    app.game.play(Move::from_iccs("h2e2").unwrap()).unwrap();
    app.position_evaluations = vec![
        Some(PositionEvaluation {
            score_cp_red: Some(10),
            mate_red: None,
            depth: 8,
        }),
        Some(PositionEvaluation {
            score_cp_red: Some(35),
            mate_red: None,
            depth: 8,
        }),
    ];
    let row: String = [
        history_prefix(0, app.game.history()[0].side),
        pad_to_width(&app.game.history()[0].notation, 10),
        history_score(app.position_evaluations[1]),
        history_delta(app.position_evaluations[1], app.position_evaluations[0]),
    ]
    .concat();
    assert!(row.contains("+0.35"));
    assert!(row.contains("Δ+0.25"));
}
