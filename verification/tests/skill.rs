use chess_tui::skill::{analysis_score, difficulty_message, draw_rolls, pick_skill_index, random_below, Difficulty};
use chess_tui::uci::AnalysisInfo;

#[test]
fn mates_outrank_centipawns() {
    let mate = |m: i32| AnalysisInfo { mate: Some(m), score_cp: Some(5), ..AnalysisInfo::default() };
    assert_eq!(analysis_score(&mate(3)), Some(29_997));
    assert_eq!(analysis_score(&mate(-2)), Some(-29_998));
    assert_eq!(analysis_score(&mate(5_000)), Some(29_000));
    assert_eq!(analysis_score(&mate(i32::MIN)), Some(-29_000));
    let cp = AnalysisInfo { score_cp: Some(-40), ..AnalysisInfo::default() };
    assert_eq!(analysis_score(&cp), Some(-40));
    assert_eq!(analysis_score(&AnalysisInfo::default()), None);
}

#[test]
fn random_numbers_repeat_from_the_same_seed() {
    let mut a = 12345u64;
    let mut b = 12345u64;
    let first = random_below(&mut a, 100);
    assert_eq!(first, random_below(&mut b, 100));
    assert!(first < 100);
    assert_ne!(a, 12345);
    let mut c = 7u64;
    assert_eq!(random_below(&mut c, 1), 0);
    assert_eq!(c, 7);
    let mut d = 12345u64;
    let rolls = draw_rolls(&mut d, 100, 3);
    assert_eq!(rolls.len(), 3);
    assert_eq!(rolls[0], first);
    assert!(rolls.iter().all(|r| *r < 100));
}

#[test]
fn weighted_pick_stays_in_range_and_keeps_the_top_without_rolls() {
    let scores = [50, 49, 48];
    let level = Difficulty::new(19).unwrap();
    assert_eq!(pick_skill_index(&scores, level, &[0, 0, 0]), 0);
    assert_eq!(pick_skill_index(&[10], level, &[]), 0);
    let weak = Difficulty::new(1).unwrap();
    assert!(pick_skill_index(&[100, 90, 80, 70], weak, &[117, 117, 117, 117]) < 4);
}

#[test]
fn difficulty_messages() {
    assert_eq!(difficulty_message(Difficulty::new(7).unwrap(), false), "AI 难度已设为 7");
    assert_eq!(difficulty_message(Difficulty::default(), true), "当前 AI 难度 20（不限棋力）");
}
