use chess_tui::uci::{parse_bestmove_line, parse_info_line};

#[test]
fn parses_standard_info_line() {
    let info = parse_info_line(
        "info depth 18 seldepth 27 multipv 2 score cp -34 nodes 123456 nps 999000 time 345 pv h2e2 h9g7",
    )
    .unwrap();
    assert_eq!(info.depth, Some(18));
    assert_eq!(info.seldepth, Some(27));
    assert_eq!(info.multipv, 2);
    assert_eq!(info.score_cp, Some(-34));
    assert_eq!(info.nodes, Some(123_456));
    assert_eq!(info.pv, ["h2e2", "h9g7"]);
}

#[test]
fn parses_mate_and_bestmove() {
    let info = parse_info_line("info depth 12 score mate 3 pv e0e1").unwrap();
    assert_eq!(info.mate, Some(3));
    let (best, ponder) = parse_bestmove_line("bestmove h2e2 ponder h9g7");
    assert_eq!(best.as_deref(), Some("h2e2"));
    assert_eq!(ponder.as_deref(), Some("h9g7"));
}

#[test]
fn info_line_without_content_is_ignored() {
    assert!(parse_info_line("info string hello").is_none());
    assert!(parse_info_line("bestmove h2e2").is_none());
    assert!(parse_info_line("").is_none());
}

#[test]
fn info_line_reads_time_and_speed() {
    let info = parse_info_line("info depth 3 time 120 nps 4000 score cp 15").unwrap();
    assert_eq!(info.time_ms, Some(120));
    assert_eq!(info.nps, Some(4000));
    assert_eq!(info.score_cp, Some(15));
    assert_eq!(info.multipv, 1);
    assert!(info.pv.is_empty());
}

#[test]
fn bestmove_without_a_move() {
    let (best, ponder) = parse_bestmove_line("bestmove (none)");
    assert_eq!(best, None);
    assert_eq!(ponder, None);
    let (best, _) = parse_bestmove_line("bestmove 0000");
    assert_eq!(best, None);
}
