//! The command line: `--engine PATH`, `--think-ms N`, `--difficulty N`,
//! `--text`, `--emoji`, `--help` and `--version`.
use vstd::prelude::*;

use crate::skill::{difficulty_error_text, Difficulty};
use crate::text::{chars_of, parse_u64, parse_unsigned};

verus! {

/// How the program is to run, as the command line says.
#[derive(Debug)]
pub struct Cli {
    pub engine: Option<String>,
    /// Thinking time per move in milliseconds.
    pub think_time_ms: u64,
    pub difficulty: Difficulty,
    pub emoji_pieces: bool,
}

/// What the command line asks for.
#[derive(Debug)]
pub enum CliAction {
    Run(Cli),
    /// Print the usage text and stop.
    Help,
    /// Print the version and stop.
    Version,
}

/// The mathematical content of a [`Cli`].
pub struct CliView {
    pub engine: Option<Seq<char>>,
    pub think_time_ms: u64,
    pub difficulty: u8,
    pub emoji_pieces: bool,
}

/// The mathematical content of a [`CliAction`].
pub enum ActionView {
    Run(CliView),
    Help,
    Version,
}

impl View for Cli {
    type V = CliView;

    open spec fn view(&self) -> CliView {
        CliView {
            engine: match self.engine {
                Some(e) => Some(e@),
                None => None,
            },
            think_time_ms: self.think_time_ms,
            difficulty: self.difficulty@,
            emoji_pieces: self.emoji_pieces,
        }
    }
}

impl View for CliAction {
    type V = ActionView;

    open spec fn view(&self) -> ActionView {
        match self {
            CliAction::Run(c) => ActionView::Run(c@),
            CliAction::Help => ActionView::Help,
            CliAction::Version => ActionView::Version,
        }
    }
}

/// The settings before any option: no engine path, 1200 ms, full strength,
/// Chinese pieces.
pub open spec fn default_cli() -> CliView {
    CliView { engine: None, think_time_ms: 1200, difficulty: 20, emoji_pieces: false }
}

/// The result of reading `args` from position `i` on, with settings `c` so
/// far: each option takes effect in turn; `--help` and `--version` stop the
/// reading; an option that lacks its value, a bad value, or an unknown
/// argument is an error.
pub open spec fn parse_from(args: Seq<Seq<char>>, i: int, c: CliView) -> Result<ActionView, Seq<char>>
    decreases args.len() - i,
{
    if i >= args.len() || i < 0 {
        Ok(ActionView::Run(c))
    } else {
        let a = args[i];
        if a == "--engine"@ || a == "-e"@ {
            if i + 1 >= args.len() {
                Err("--engine 后需要填写 Pikafish 路径"@)
            } else {
                parse_from(args, i + 2, CliView { engine: Some(args[i + 1]), ..c })
            }
        } else if a == "--think-ms"@ {
            if i + 1 >= args.len() {
                Err("--think-ms 后需要填写毫秒数"@)
            } else {
                match parse_unsigned(args[i + 1], u64::MAX as nat) {
                    Some(ms) => parse_from(
                        args,
                        i + 2,
                        CliView {
                            think_time_ms: if ms < 50 {
                                50
                            } else {
                                ms as u64
                            },
                            ..c
                        },
                    ),
                    None => Err("--think-ms 必须是正整数"@),
                }
            }
        } else if a == "--difficulty"@ || a == "-d"@ {
            if i + 1 >= args.len() {
                Err("--difficulty 后需要填写 1 到 20"@)
            } else {
                match parse_unsigned(args[i + 1], u8::MAX as nat) {
                    Some(level) if 1 <= level <= 20 => parse_from(
                        args,
                        i + 2,
                        CliView { difficulty: level as u8, ..c },
                    ),
                    _ => Err(difficulty_error_text()),
                }
            }
        } else if a == "--text"@ {
            parse_from(args, i + 1, CliView { emoji_pieces: false, ..c })
        } else if a == "--emoji"@ {
            parse_from(args, i + 1, CliView { emoji_pieces: true, ..c })
        } else if a == "--help"@ || a == "-h"@ {
            Ok(ActionView::Help)
        } else if a == "--version"@ || a == "-V"@ {
            Ok(ActionView::Version)
        } else {
            Err("未知参数 "@ + a + "，使用 --help 查看帮助"@)
        }
    }
}

fn is(arg: &String, word: &str) -> (r: bool)
    ensures
        r == (arg@ == word@),
{
    let a = chars_of(arg.as_str());
    let w = chars_of(word);
    crate::text::chars_eq(a.as_slice(), w.as_slice())
}

/// Reads the arguments after the program's name.
pub fn parse_args(args: &[String]) -> (r: Result<CliAction, String>)
    ensures
        match parse_from(args@.map_values(|s: String| s@), 0, default_cli()) {
            Ok(a) => r is Ok && r->Ok_0@ == a,
            Err(e) => r is Err && r->Err_0@ == e,
        },
{
    let ghost view = args@.map_values(|s: String| s@);
    let mut engine: Option<String> = None;
    let mut think_time_ms: u64 = 1200;
    let mut difficulty = Difficulty::default();
    let mut emoji_pieces = false;
    let mut i: usize = 0;
    while i < args.len()
        invariant
            i <= args@.len(),
            view == args@.map_values(|s: String| s@),
            parse_from(view, i as int, (Cli { engine, think_time_ms, difficulty, emoji_pieces })@)
                == parse_from(view, 0, default_cli()),
        decreases args@.len() - i,
    {
        let a = &args[i];
        assert(view[i as int] == a@);
        if is(a, "--engine") || is(a, "-e") {
            if i + 1 >= args.len() {
                return Err("--engine 后需要填写 Pikafish 路径".to_string());
            }
            assert(view[i + 1] == args@[i + 1]@);
            engine = Some(args[i + 1].clone());
            i = i + 2;
        } else if is(a, "--think-ms") {
            if i + 1 >= args.len() {
                return Err("--think-ms 后需要填写毫秒数".to_string());
            }
            assert(view[i + 1] == args@[i + 1]@);
            let value = chars_of(args[i + 1].as_str());
            match parse_u64(value.as_slice()) {
                Some(ms) => {
                    think_time_ms = if ms < 50 {
                        50
                    } else {
                        ms
                    };
                },
                None => {
                    return Err("--think-ms 必须是正整数".to_string());
                },
            }
            i = i + 2;
        } else if is(a, "--difficulty") || is(a, "-d") {
            if i + 1 >= args.len() {
                return Err("--difficulty 后需要填写 1 到 20".to_string());
            }
            assert(view[i + 1] == args@[i + 1]@);
            match Difficulty::parse(args[i + 1].as_str()) {
                Ok(d) => {
                    difficulty = d;
                },
                Err(e) => {
                    return Err(e);
                },
            }
            i = i + 2;
        } else if is(a, "--text") {
            emoji_pieces = false;
            i = i + 1;
        } else if is(a, "--emoji") {
            emoji_pieces = true;
            i = i + 1;
        } else if is(a, "--help") || is(a, "-h") {
            return Ok(CliAction::Help);
        } else if is(a, "--version") || is(a, "-V") {
            return Ok(CliAction::Version);
        } else {
            let mut m = String::new();
            m.append("未知参数 ");
            m.append(a.as_str());
            m.append("，使用 --help 查看帮助");
            return Err(m);
        }
    }
    Ok(CliAction::Run(Cli { engine, think_time_ms, difficulty, emoji_pieces }))
}

/// The usage text.
pub fn usage_text() -> (r: &'static str)
    ensures
        r@ == usage(),
{
    "chess_tui - 终端中国象棋\n\n用法  chess_tui [选项]\n\n-e, --engine PATH   指定 Pikafish 可执行文件\n--think-ms N   AI 每步思考毫秒数，默认 1200\n-d, --difficulty N AI 难度 1 到 20，默认 20\n--text         使用中文棋子，默认开启\n--emoji        改用 Unicode 象棋棋子\n-h, --help          显示帮助\n\n也可通过 PIKAFISH_PATH 环境变量指定引擎。"
}

/// The usage text, as printed by `--help`.
pub open spec fn usage() -> Seq<char> {
    "chess_tui - 终端中国象棋\n\n用法  chess_tui [选项]\n\n-e, --engine PATH   指定 Pikafish 可执行文件\n--think-ms N   AI 每步思考毫秒数，默认 1200\n-d, --difficulty N AI 难度 1 到 20，默认 20\n--text         使用中文棋子，默认开启\n--emoji        改用 Unicode 象棋棋子\n-h, --help          显示帮助\n\n也可通过 PIKAFISH_PATH 环境变量指定引擎。"@
}

} // verus!
