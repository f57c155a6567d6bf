use chess_tui::board::{Move, Square};
use chess_tui::builtin::{
    builtin_best_move, builtin_info, builtin_ready, builtin_threads, dashless_iccs, load_failure,
    newest_command, BuiltinWorker, WorkerAction, WorkerPhase,
};
use chess_tui::session::{engine_threads, fallback_message, SessionOutcome, SessionPhase, UciSession};
use chess_tui::uci::{AiCommand, AiEvent, SearchPurpose, SearchRequest};

fn request(id: u64) -> SearchRequest {
    SearchRequest {
        id,
        fen: "rnbakabnr/9/1c5c1/p1p1p1p1p/9/9/P1P1P1P1P/1C5C1/9/RNBAKABNR w - - 0 1".to_string(),
        movetime_ms: 0,
        purpose: SearchPurpose::Hint,
        multi_pv: 3,
    }
}

fn ready_session() -> UciSession {
    let (mut session, first) = UciSession::start(4);
    assert_eq!(first.lines, ["uci"]);
    session.on_line("id name Pikafish 2025");
    let options = session.on_line("uciok");
    assert_eq!(
        options.lines,
        [
            "setoption name Threads value 4",
            "setoption name Hash value 256",
            "setoption name UCI_ShowWDL value true",
            "isready",
        ]
    );
    let ready = session.on_line("readyok");
    match ready.events.as_slice() {
        [AiEvent::Ready { name, external }] => {
            assert_eq!(name, "Pikafish 2025");
            assert!(*external);
        }
        other => panic!("unexpected {other:?}"),
    }
    assert_eq!(session.phase, SessionPhase::Running);
    session
}

#[test]
fn handshake_names_the_engine_and_reports_ready() {
    ready_session();
}

#[test]
fn a_search_sends_options_position_and_time() {
    let mut session = ready_session();
    let step = session.on_command(AiCommand::Search(request(5)));
    assert_eq!(
        step.lines,
        [
            "setoption name MultiPV value 3",
            "position fen rnbakabnr/9/1c5c1/p1p1p1p1p/9/9/P1P1P1P1P/1C5C1/9/RNBAKABNR w - - 0 1",
            "go movetime 1",
        ]
    );
    let info = session.on_line("info depth 5 score cp 20 pv h2e2");
    match info.events.as_slice() {
        [AiEvent::Info { id: 5, purpose: SearchPurpose::Hint, info }] => {
            assert_eq!(info.depth, Some(5));
        }
        other => panic!("unexpected {other:?}"),
    }
    let best = session.on_line("bestmove h2e2 ponder h9g7");
    match best.events.as_slice() {
        [AiEvent::BestMove { id: 5, best_move, ponder, .. }] => {
            assert_eq!(best_move.as_deref(), Some("h2e2"));
            assert_eq!(ponder.as_deref(), Some("h9g7"));
        }
        other => panic!("unexpected {other:?}"),
    }
    assert!(session.active.is_none());
}

#[test]
fn a_stopped_search_reports_nothing() {
    let mut session = ready_session();
    session.on_command(AiCommand::Search(request(1)));
    let stop = session.on_command(AiCommand::Stop);
    assert_eq!(stop.lines, ["stop"]);
    assert!(session.on_line("info depth 3 score cp 1 pv h2e2").events.is_empty());
    assert!(session.on_line("bestmove h2e2").events.is_empty());
}

#[test]
fn a_new_search_waits_for_the_old_one_to_end() {
    let mut session = ready_session();
    session.on_command(AiCommand::Search(request(1)));
    let replace = session.on_command(AiCommand::Search(request(2)));
    assert_eq!(replace.lines, ["stop"]);
    let end = session.on_line("bestmove h2e2");
    assert!(end.events.is_empty());
    assert_eq!(end.lines.len(), 3);
    assert_eq!(session.active.as_ref().map(|a| a.request.id), Some(2));
}

#[test]
fn quit_stops_a_running_search_first() {
    let mut session = ready_session();
    session.on_command(AiCommand::Search(request(1)));
    let quit = session.on_command(AiCommand::Quit);
    assert_eq!(quit.lines, ["stop", "quit"]);
    assert!(quit.best_effort);
    assert_eq!(quit.outcome, SessionOutcome::Finished);
}

#[test]
fn silence_during_the_handshake_fails() {
    let (mut session, _) = UciSession::start(2);
    let step = session.on_timeout();
    assert_eq!(step.outcome, SessionOutcome::Failed("等待 uciok 超时".to_string()));
    let (mut session, _) = UciSession::start(2);
    session.on_line("uciok");
    let step = session.on_engine_closed();
    assert_eq!(step.outcome, SessionOutcome::Failed("等待 readyok 超时".to_string()));
    let mut session = ready_session();
    let step = session.on_engine_closed();
    assert_eq!(step.outcome, SessionOutcome::Failed("引擎进程已退出".to_string()));
}

#[test]
fn thread_counts_are_kept_in_range() {
    assert_eq!(engine_threads(Some(16)), 8);
    assert_eq!(engine_threads(Some(3)), 3);
    assert_eq!(engine_threads(None), 2);
    assert_eq!(builtin_threads(Some(16)), 4);
    assert_eq!(builtin_threads(Some(0)), 1);
    assert_eq!(builtin_threads(None), 1);
}

#[test]
fn failure_messages() {
    assert_eq!(fallback_message("等待 uciok 超时"), "Pikafish 启动失败，改用内置引擎：等待 uciok 超时");
    match load_failure("bad fen") {
        AiEvent::Error(text) => assert_eq!(text, "无法载入局面：bad fen"),
        other => panic!("unexpected {other:?}"),
    }
}

#[test]
fn builtin_reports_use_dashless_moves() {
    let mv = Move {
        src: Square::from_rank_file(2, 7).unwrap(),
        dst: Square::from_rank_file(2, 4).unwrap(),
    };
    assert_eq!(dashless_iccs(mv), "h2e2");
    match builtin_info(3, SearchPurpose::AiMove, 6, -15, 120, 5000, 40000, &[mv]) {
        AiEvent::Info { id: 3, info, .. } => {
            assert_eq!(info.depth, Some(6));
            assert_eq!(info.score_cp, Some(-15));
            assert_eq!(info.multipv, 1);
            assert_eq!(info.pv, ["h2e2"]);
        }
        other => panic!("unexpected {other:?}"),
    }
    match builtin_best_move(3, SearchPurpose::AiMove, Some(mv)) {
        AiEvent::BestMove { best_move, ponder, .. } => {
            assert_eq!(best_move.as_deref(), Some("h2e2"));
            assert_eq!(ponder, None);
        }
        other => panic!("unexpected {other:?}"),
    }
    match builtin_ready() {
        AiEvent::Ready { name, external } => {
            assert_eq!(name, "内置轻量引擎");
            assert!(!external);
        }
        other => panic!("unexpected {other:?}"),
    }
}

#[test]
fn the_newest_request_is_served() {
    let picked = newest_command(vec![AiCommand::Stop, AiCommand::Search(request(9))]);
    assert!(matches!(picked, Some(AiCommand::Search(SearchRequest { id: 9, .. }))));
    assert!(newest_command(Vec::new()).is_none());
}

#[test]
fn the_builtin_worker_runs_a_search_from_the_newest_request() {
    let (mut worker, ready) = BuiltinWorker::start();
    assert!(matches!(ready, AiEvent::Ready { external: false, .. }));
    let action = worker.take_batch(vec![AiCommand::Search(request(4)), AiCommand::Search(request(9))]);
    assert!(matches!(action, WorkerAction::Search(SearchRequest { id: 9, .. })));
    assert!(worker.loaded(None).is_none());
    let mv = Move { src: Square { rank: 2, file: 7 }, dst: Square { rank: 2, file: 4 } };
    match worker.progress(5, 30, 10, 100, 1000, &[mv]) {
        Some(AiEvent::Info { id, purpose, info }) => {
            assert_eq!(id, 9);
            assert_eq!(purpose, SearchPurpose::Hint);
            assert_eq!(info.pv, ["h2e2"]);
        }
        other => panic!("unexpected {other:?}"),
    }
    match worker.finished(Some(mv)) {
        Some(AiEvent::BestMove { id, best_move, ponder, .. }) => {
            assert_eq!(id, 9);
            assert_eq!(best_move.as_deref(), Some("h2e2"));
            assert!(ponder.is_none());
        }
        other => panic!("unexpected {other:?}"),
    }
    assert_eq!(worker.phase, WorkerPhase::Idle);
    assert!(worker.finished(Some(mv)).is_none());
}

#[test]
fn the_builtin_worker_reports_a_refused_position_and_stops_on_quit() {
    let (mut worker, _) = BuiltinWorker::start();
    assert!(matches!(worker.take_batch(vec![AiCommand::Search(request(2)), AiCommand::Stop]), WorkerAction::Wait));
    assert!(matches!(worker.take_batch(vec![AiCommand::Search(request(3))]), WorkerAction::Search(_)));
    match worker.loaded(Some("bad".to_string())) {
        Some(AiEvent::Error(text)) => assert_eq!(text, "无法载入局面：bad"),
        other => panic!("unexpected {other:?}"),
    }
    assert_eq!(worker.phase, WorkerPhase::Idle);
    assert!(matches!(worker.take_batch(vec![AiCommand::Quit]), WorkerAction::Quit));
    assert_eq!(worker.phase, WorkerPhase::Stopped);
    assert!(matches!(worker.take_batch(vec![AiCommand::Search(request(5))]), WorkerAction::Wait));
    assert!(worker.progress(1, 0, 0, 0, 0, &[]).is_none());
}

#[test]
fn requests_during_a_replacement_start_nothing_before_bestmove() {
    let mut session = ready_session();
    session.on_command(AiCommand::Search(request(1)));
    assert_eq!(session.on_command(AiCommand::Search(request(2))).lines, ["stop"]);
    let late = session.on_line("info depth 9 score cp 5 pv h2e2");
    assert!(late.events.is_empty() && late.lines.is_empty());
    assert_eq!(session.on_command(AiCommand::Search(request(3))).lines, ["stop"]);
    let end = session.on_line("bestmove h2e2");
    assert!(end.events.is_empty());
    assert_eq!(end.lines[0], "setoption name MultiPV value 3");
    assert_eq!(session.active.as_ref().map(|a| a.request.id), Some(3));
    match session.on_line("info depth 2 score cp 7 pv h2e2").events.as_slice() {
        [AiEvent::Info { id: 3, .. }] => {}
        other => panic!("unexpected {other:?}"),
    }
}

#[test]
fn the_handshake_waits_ten_seconds() {
    assert_eq!(chess_tui::session::HANDSHAKE_TIMEOUT_SECS, 10);
}
