use chess_tui::app::{ActiveSearch, App, AppOptions, HumanMode};
use chess_tui::board::{Color, Move};
use chess_tui::display::PositionEvaluation;
use chess_tui::skill::{pick_skill_index, Difficulty};
use chess_tui::uci::{AiEvent, AnalysisInfo, SearchPurpose};

#[test]
fn human_modes_identify_turns() {
    assert!(HumanMode::Side(Color::Red).is_human_turn(Color::Red));
    assert!(!HumanMode::Side(Color::Red).is_human_turn(Color::Black));
    assert!(HumanMode::Both.is_human_turn(Color::Black));
}

#[test]
fn background_evaluation_is_saved_from_reds_perspective() {
    let mut app = App::new(AppOptions::default(), 0);
    let mv = Move::from_iccs("h2e2").unwrap();
    app.game.play(mv).unwrap();
    app.prepare_current_evaluation();
    app.active_search = Some(ActiveSearch {
        id: 7,
        purpose: SearchPurpose::Evaluation,
        side: Color::Black,
        position_index: 1,
        skill_move: None,
    });
    app.thinking = true;

    app.handle_ai_event(AiEvent::Info {
        id: 7,
        purpose: SearchPurpose::Evaluation,
        info: AnalysisInfo {
            depth: Some(8),
            score_cp: Some(35),
            pv: vec!["h9g7".to_string()],
            ..AnalysisInfo::default()
        },
    });

    assert_eq!(
        app.position_evaluations[1],
        Some(PositionEvaluation {
            score_cp_red: Some(-35),
            mate_red: None,
            depth: 8,
        })
    );
    assert!(app.hint_move.is_none());
    assert!(!app.search_blocks_moves());
}

#[test]
fn difficulty_accepts_only_levels_one_through_twenty() {
    assert_eq!(Difficulty::parse("1").unwrap().level(), 1);
    assert_eq!(Difficulty::parse("20").unwrap().level(), 20);
    assert!(Difficulty::parse("0").is_err());
    assert!(Difficulty::parse("21").is_err());
    assert!(Difficulty::parse("十").is_err());
}

#[test]
fn difficulty_profiles_match_pikafish_skill_levels() {
    for level in 1..20 {
        let difficulty = Difficulty::new(level).unwrap();
        assert_eq!(difficulty.selection_depth(), Some(u32::from(level) + 1));
        assert_eq!(difficulty.weakness(), Some(120 - 2 * level));
    }
    assert_eq!(Difficulty::default().selection_depth(), None);
    assert_eq!(Difficulty::default().weakness(), None);
}

#[test]
fn difficulty_command_sets_and_reports_the_level() {
    let mut app = App::new(AppOptions::default(), 0);
    app.execute_command("难度 7");
    assert_eq!(app.difficulty.level(), 7);
    assert_eq!(app.message, "AI 难度已设为 7");

    app.execute_command("难度");
    assert_eq!(app.message, "当前 AI 难度 7");

    app.execute_command("/difficulty 20");
    assert!(app.difficulty.is_full_strength());
    assert_eq!(app.message, "AI 难度已设为 20（不限棋力）");
}

#[test]
fn stockfish_style_skill_picker_can_choose_a_weaker_line() {
    let rolls = [0, 0, 0, 117];
    let index = pick_skill_index(&[100, 90, 80, 70], Difficulty::new(1).unwrap(), &rolls);
    assert_eq!(index, 3);
}

#[test]
fn full_strength_always_keeps_the_engine_move() {
    let index = pick_skill_index(&[100, 90, 80, 70], Difficulty::default(), &[]);
    assert_eq!(index, 0);
}

#[test]
fn lower_difficulty_picks_at_its_target_depth() {
    let mut app = App::new(
        AppOptions {
            difficulty: Difficulty::new(1).unwrap(),
            ..AppOptions::default()
        },
        0,
    );
    app.active_search = Some(ActiveSearch {
        id: 42,
        purpose: SearchPurpose::AiMove,
        side: Color::Red,
        position_index: 0,
        skill_move: None,
    });
    app.thinking = true;

    for (multipv, (score, pv)) in [(40, "h2e2"), (30, "c3c4"), (20, "g3g4"), (10, "b2e2")]
        .into_iter()
        .enumerate()
    {
        app.handle_ai_event(AiEvent::Info {
            id: 42,
            purpose: SearchPurpose::AiMove,
            info: AnalysisInfo {
                depth: Some(2),
                multipv: multipv as u32 + 1,
                score_cp: Some(score),
                pv: vec![pv.to_string()],
                ..AnalysisInfo::default()
            },
        });
    }

    let skill_move = app.active_search.and_then(|search| search.skill_move);
    assert!(skill_move.is_some());
    assert!(app.game.legal_moves().contains(&skill_move.unwrap()));
}
