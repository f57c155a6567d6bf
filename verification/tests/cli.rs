use chess_tui::cli::{parse_args, usage_text, CliAction};

fn args(list: &[&str]) -> Vec<String> {
    list.iter().map(|s| s.to_string()).collect()
}

#[test]
fn defaults_without_arguments() {
    match parse_args(&args(&[])).unwrap() {
        CliAction::Run(cli) => {
            assert_eq!(cli.engine, None);
            assert_eq!(cli.think_time_ms, 1200);
            assert!(cli.difficulty.is_full_strength());
            assert!(!cli.emoji_pieces);
        }
        other => panic!("unexpected {other:?}"),
    }
}

#[test]
fn options_are_read_in_turn() {
    let parsed = parse_args(&args(&["-e", "/opt/pikafish", "--think-ms", "10", "-d", "12", "--emoji"]));
    match parsed.unwrap() {
        CliAction::Run(cli) => {
            assert_eq!(cli.engine.as_deref(), Some("/opt/pikafish"));
            assert_eq!(cli.think_time_ms, 50);
            assert_eq!(cli.difficulty.level(), 12);
            assert!(cli.emoji_pieces);
        }
        other => panic!("unexpected {other:?}"),
    }
}

#[test]
fn help_and_version_stop_reading() {
    assert!(matches!(parse_args(&args(&["--help", "--bogus"])), Ok(CliAction::Help)));
    assert!(matches!(parse_args(&args(&["-V"])), Ok(CliAction::Version)));
    assert!(usage_text().starts_with("chess_tui - 终端中国象棋"));
}

#[test]
fn bad_arguments_are_reported() {
    assert_eq!(parse_args(&args(&["--engine"])).unwrap_err(), "--engine 后需要填写 Pikafish 路径");
    assert_eq!(parse_args(&args(&["--think-ms"])).unwrap_err(), "--think-ms 后需要填写毫秒数");
    assert_eq!(parse_args(&args(&["--think-ms", "abc"])).unwrap_err(), "--think-ms 必须是正整数");
    assert_eq!(parse_args(&args(&["--difficulty"])).unwrap_err(), "--difficulty 后需要填写 1 到 20");
    assert_eq!(parse_args(&args(&["-d", "0"])).unwrap_err(), "难度必须是 1 到 20 的整数");
    assert_eq!(parse_args(&args(&["--fast"])).unwrap_err(), "未知参数 --fast，使用 --help 查看帮助");
}
