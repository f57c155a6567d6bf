use chess_tui::app::{ActiveSearch, App, AppOptions, Focus, HumanMode, InputEvent, KeyCode, KeyInput};
use chess_tui::board::{Color, Move, Square};
use chess_tui::skill::Difficulty;
use chess_tui::uci::{AiCommand, AiEvent, AnalysisInfo, SearchPurpose};

fn key(code: KeyCode) -> InputEvent {
    InputEvent::Key(KeyInput { code, control: false, alt: false })
}

fn info(depth: u32, multipv: u32, score: i32, pv: &str) -> AnalysisInfo {
    AnalysisInfo {
        depth: Some(depth),
        multipv,
        score_cp: Some(score),
        pv: vec![pv.to_string()],
        ..AnalysisInfo::default()
    }
}

#[test]
fn a_new_application_waits_for_the_engine() {
    let mut app = App::new(AppOptions::default(), 99);
    assert_eq!(app.message, "输入 马二进三 后按 Enter，Tab 可查看棋盘走法");
    assert_eq!(app.engine_name, "正在启动引擎");
    assert_eq!(app.focus, Focus::Input);
    assert_eq!(app.cursor, Square::from_rank_file(0, 4).unwrap());
    assert_eq!(app.human_mode, HumanMode::Side(Color::Red));
    assert_eq!(app.position_evaluations, vec![None]);
    assert_eq!(app.random_state, 99);
    assert!(app.take_commands().is_empty());
}

#[test]
fn ready_engine_starts_the_background_evaluation() {
    let mut app = App::new(AppOptions::default(), 0);
    app.handle_ai_event(AiEvent::Ready { name: "内置轻量引擎".to_string(), external: false });
    assert_eq!(app.engine_name, "内置轻量引擎");
    assert_eq!(app.message, "正在使用内置轻量引擎；配置 Pikafish 后可获得更强棋力");
    assert!(app.is_evaluating());
    let commands = app.take_commands();
    match commands.as_slice() {
        [AiCommand::Search(request)] => {
            assert_eq!(request.purpose, SearchPurpose::Evaluation);
            assert_eq!(request.multi_pv, 1);
            assert_eq!(request.movetime_ms, 1200);
        }
        other => panic!("unexpected {other:?}"),
    }
    assert!(app.take_commands().is_empty());
}

#[test]
fn the_player_moves_and_the_computer_answers() {
    let mut app = App::new(AppOptions::default(), 0);
    app.execute_command("马二进三");
    assert_eq!(app.game.history().len(), 1);
    assert!(app.thinking);
    let search = app.active_search.unwrap();
    assert_eq!(search.purpose, SearchPurpose::AiMove);
    assert_eq!(search.side, Color::Black);
    app.handle_ai_event(AiEvent::BestMove {
        id: search.id,
        purpose: SearchPurpose::AiMove,
        best_move: Some("h9g7".to_string()),
        ponder: None,
    });
    assert_eq!(app.game.history().len(), 2);
    assert_eq!(app.game.side_to_move(), Color::Red);
    assert_eq!(app.message, "电脑走 马8进7");
    assert_eq!(app.cursor, Square::from_rank_file(7, 6).unwrap());
    assert!(app.is_evaluating());
}

#[test]
fn engine_answers_that_cannot_be_played() {
    for (answer, message) in [
        (None, "引擎没有找到可走着法"),
        (Some("zz"), "引擎返回了无法识别的着法 zz"),
        (Some("a0a9"), "引擎返回了非法着法 a0a9"),
    ] {
        let mut app = App::new(AppOptions::default(), 0);
        app.execute_command("提示");
        let search = app.active_search.unwrap();
        assert_eq!(search.purpose, SearchPurpose::Hint);
        app.handle_ai_event(AiEvent::BestMove {
            id: search.id,
            purpose: SearchPurpose::Hint,
            best_move: answer.map(str::to_string),
            ponder: None,
        });
        assert_eq!(app.message, message);
        assert!(!app.thinking);
        assert!(app.active_search.is_none());
    }
}

#[test]
fn a_hint_is_shown_in_notation() {
    let mut app = App::new(AppOptions::default(), 0);
    app.execute_command("hint");
    let search = app.active_search.unwrap();
    app.handle_ai_event(AiEvent::BestMove {
        id: search.id,
        purpose: SearchPurpose::Hint,
        best_move: Some("h2e2".to_string()),
        ponder: None,
    });
    assert_eq!(app.message, "建议 炮二平五");
    assert_eq!(app.hint_move, Move::from_iccs("h2e2"));
    assert!(app.game.history().is_empty());
}

#[test]
fn reports_of_other_searches_are_ignored() {
    let mut app = App::new(AppOptions::default(), 0);
    app.execute_command("提示");
    let search = app.active_search.unwrap();
    app.handle_ai_event(AiEvent::Info {
        id: search.id + 1,
        purpose: SearchPurpose::Hint,
        info: info(5, 1, 10, "h2e2"),
    });
    assert!(app.analysis_lines.is_empty());
    app.handle_ai_event(AiEvent::Error("出错了".to_string()));
    assert_eq!(app.message, "出错了");
}

#[test]
fn full_strength_plays_the_engine_move() {
    let mut app = App::new(AppOptions::default(), 0);
    app.active_search = Some(ActiveSearch {
        id: 3,
        purpose: SearchPurpose::AiMove,
        side: Color::Red,
        position_index: 0,
        skill_move: None,
    });
    for (n, (score, pv)) in [(40, "h2e2"), (30, "c3c4"), (20, "g3g4"), (10, "b2e2")].into_iter().enumerate() {
        app.handle_ai_event(AiEvent::Info { id: 3, purpose: SearchPurpose::AiMove, info: info(21, n as u32 + 1, score, pv) });
    }
    let legal = app.game.legal_moves();
    assert_eq!(app.pick_ai_candidate(&legal), None);
    let seed = app.random_state;
    app.handle_ai_event(AiEvent::BestMove {
        id: 3,
        purpose: SearchPurpose::AiMove,
        best_move: Some("b2e2".to_string()),
        ponder: None,
    });
    assert_eq!(app.game.last_move(), Move::from_iccs("b2e2"));
    assert_eq!(app.random_state, seed);
}

#[test]
fn a_weak_level_may_play_another_candidate() {
    let mut app = App::new(
        AppOptions { difficulty: Difficulty::new(1).unwrap(), ..AppOptions::default() },
        5,
    );
    app.active_search = Some(ActiveSearch {
        id: 3,
        purpose: SearchPurpose::AiMove,
        side: Color::Red,
        position_index: 0,
        skill_move: None,
    });
    for (n, (score, pv)) in [(40, "h2e2"), (30, "c3c4"), (20, "g3g4"), (10, "b2e2")].into_iter().enumerate() {
        app.handle_ai_event(AiEvent::Info { id: 3, purpose: SearchPurpose::AiMove, info: info(9, n as u32 + 1, score, pv) });
    }
    assert!(app.active_search.unwrap().skill_move.is_none());
    app.handle_ai_event(AiEvent::BestMove {
        id: 3,
        purpose: SearchPurpose::AiMove,
        best_move: Some("h2e2".to_string()),
        ponder: None,
    });
    let played = app.game.last_move().unwrap();
    let candidates: Vec<Move> = ["h2e2", "c3c4", "g3g4", "b2e2"].iter().map(|t| Move::from_iccs(t).unwrap()).collect();
    assert!(candidates.contains(&played));
    assert_ne!(app.random_state, 5);
}

#[test]
fn typing_and_submitting_a_move() {
    let mut app = App::new(AppOptions::default(), 0);
    for c in "炮二平五".chars() {
        app.handle_event(key(KeyCode::Char(c)));
    }
    assert_eq!(app.input.iter().collect::<String>(), "炮二平五");
    app.handle_event(key(KeyCode::Enter));
    assert!(app.input.is_empty());
    assert_eq!(app.input_history, vec!["炮二平五".to_string()]);
    assert_eq!(app.game.history().len(), 1);
    assert_eq!(app.message, "黑方正在思考");
}

#[test]
fn commands_change_the_view() {
    let mut app = App::new(AppOptions::default(), 0);
    app.execute_command("翻转");
    assert!(app.flipped);
    assert_eq!(app.message, "棋盘已翻转");
    app.execute_command("emoji");
    assert!(app.emoji_pieces);
    app.execute_command("中文棋子");
    assert!(!app.emoji_pieces);
    app.execute_command("双人");
    assert_eq!(app.human_mode, HumanMode::Both);
    app.execute_command("悔棋");
    assert_eq!(app.message, "还没有棋可悔");
    app.execute_command("退出");
    assert!(app.quit);
}

#[test]
fn undo_goes_back_to_the_players_turn() {
    let mut app = App::new(AppOptions::default(), 0);
    app.execute_command("马二进三");
    let search = app.active_search.unwrap();
    app.handle_ai_event(AiEvent::BestMove {
        id: search.id,
        purpose: SearchPurpose::AiMove,
        best_move: Some("h9g7".to_string()),
        ponder: None,
    });
    assert_eq!(app.game.history().len(), 2);
    app.execute_command("悔棋");
    assert_eq!(app.game.history().len(), 0);
    assert_eq!(app.message, "已撤销 马8进7");
}

#[test]
fn a_background_evaluation_does_not_hold_the_player_up() {
    let mut app = App::new(AppOptions::default(), 0);
    app.handle_ai_event(AiEvent::Ready { name: "Pikafish".to_string(), external: true });
    assert!(app.is_evaluating());
    assert!(!app.search_blocks_moves());
    app.execute_command("炮二平五");
    assert_eq!(app.game.history().len(), 1);
    assert_eq!(app.game.last_move(), Move::from_iccs("h2e2"));
}

#[test]
fn the_computer_move_blocks_typing() {
    let mut app = App::new(AppOptions::default(), 0);
    app.execute_command("炮二平五");
    assert!(app.search_blocks_moves());
    app.execute_command("马8进7");
    assert_eq!(app.message, "电脑正在思考，输入 停止 可中止");
    assert_eq!(app.game.history().len(), 1);
}

#[test]
fn text_that_cannot_be_read_as_coordinates_is_caught_before_submitting() {
    let mut app = App::new(AppOptions::default(), 0);
    app.input = "a€".chars().collect();
    assert!(app.submission_fails());
    app.input = "马二进三".chars().collect();
    assert!(!app.submission_fails());
    app.input = "难度 a€".chars().collect();
    assert!(!app.submission_fails());
    app.execute_command("炮二平五");
    app.input = "a€".chars().collect();
    assert!(!app.submission_fails());
}
