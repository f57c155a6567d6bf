//! What the screen says about positions and moves: scores, advantage,
//! changes, piece symbols, and the layout of the board.
use vstd::prelude::*;

use crate::app::AnalysisLine;
use crate::board::{Color, Piece, PieceType, Square};
use crate::game::PositionState;
use crate::text::{dec_string, push_char, push_decimal};

verus! {

/// The evaluation of a position, from red's point of view.
#[derive(Debug, Clone, Copy, PartialEq, Eq, Structural)]
pub struct PositionEvaluation {
    pub score_cp_red: Option<i32>,
    pub mate_red: Option<i32>,
    pub depth: u32,
}

/// Which side a score favours, for colouring it.
#[derive(Debug, Clone, Copy, PartialEq, Eq, Structural)]
pub enum Tone {
    Red,
    Black,
    Even,
}

/// Two decimal digits of `n` (below 100), with a leading zero.
pub open spec fn two_digits(n: nat) -> Seq<char> {
    seq![((n / 10) + '0' as u32) as char, ((n % 10) + '0' as u32) as char]
}

/// A score in centipawns written in pawns with a sign and two decimals:
/// `35` is `+0.35`, `-120` is `-1.20`.
pub open spec fn pawns_text(cp: int) -> Seq<char> {
    let a = if cp < 0 {
        -cp
    } else {
        cp
    };
    seq![
        if cp < 0 {
            '-'
        } else {
            '+'
        },
    ] + dec_string((a / 100) as nat) + seq!['.'] + two_digits((a % 100) as nat)
}

/// Appends a centipawn score written in pawns, such as `+0.35`.
pub fn push_pawns(s: &mut String, cp: i64)
    requires
        cp > i64::MIN,
    ensures
        final(s)@ == old(s)@ + pawns_text(cp as int),
{
    let a: u64 = if cp < 0 {
        (0 - cp) as u64
    } else {
        cp as u64
    };
    push_char(s, if cp < 0 { '-' } else { '+' });
    push_decimal(s, a / 100);
    push_char(s, '.');
    let r: u64 = a % 100;
    push_char(s, ((r / 10) as u8 + 48u8) as char);
    push_char(s, ((r % 10) as u8 + 48u8) as char);
    assert(final(s)@ == old(s)@ + pawns_text(cp as int));
}

/// How an evaluation is written: `红杀3` / `黑杀2` for a mate, the score in
/// pawns otherwise, `--` when there is neither.
pub open spec fn evaluation_text(score_cp_red: Option<i32>, mate_red: Option<i32>) -> Seq<char> {
    match mate_red {
        Some(mate) => if mate > 0 {
            "红杀"@ + dec_string(mate as nat)
        } else {
            "黑杀"@ + dec_string((-mate) as nat)
        },
        None => match score_cp_red {
            Some(score) => pawns_text(score as int),
            None => "--"@,
        },
    }
}

/// Writes an evaluation for the screen.
pub fn format_evaluation(score_cp_red: Option<i32>, mate_red: Option<i32>) -> (r: String)
    ensures
        r@ == evaluation_text(score_cp_red, mate_red),
{
    let mut s = String::new();
    if let Some(mate) = mate_red {
        if mate > 0 {
            s.append("红杀");
            push_decimal(&mut s, mate as u64);
        } else {
            s.append("黑杀");
            push_decimal(&mut s, (0 - (mate as i64)) as u64);
        }
        return s;
    }
    match score_cp_red {
        Some(score) => push_pawns(&mut s, score as i64),
        None => s.append("--"),
    }
    s
}

/// Writes the evaluation of an analysis line.
pub fn format_score(line: &AnalysisLine) -> (r: String)
    ensures
        r@ == evaluation_text(line.score_cp_red, line.mate_red),
{
    format_evaluation(line.score_cp_red, line.mate_red)
}

/// The side an evaluation favours: a mate, or more than 0.20 pawns.
pub open spec fn spec_tone(score_cp_red: Option<i32>, mate_red: Option<i32>) -> Tone {
    let mate = match mate_red {
        Some(m) => m as int,
        None => 0,
    };
    let score = match score_cp_red {
        Some(s) => s as int,
        None => 0,
    };
    if mate > 0 || score > 20 {
        Tone::Red
    } else if mate < 0 || score < -20 {
        Tone::Black
    } else {
        Tone::Even
    }
}

/// Which side an evaluation favours, for its colour.
pub fn evaluation_values_tone(score_cp_red: Option<i32>, mate_red: Option<i32>) -> (r: Tone)
    ensures
        r == spec_tone(score_cp_red, mate_red),
{
    let mate: i32 = match mate_red {
        Some(m) => m,
        None => 0,
    };
    let score: i32 = match score_cp_red {
        Some(s) => s,
        None => 0,
    };
    if mate > 0 || score > 20 {
        Tone::Red
    } else if mate < 0 || score < -20 {
        Tone::Black
    } else {
        Tone::Even
    }
}

/// Who stands better: a won position for a mate, an advantage beyond 0.20
/// pawns, or an even game.
pub open spec fn advantage_text(score_cp_red: Option<i32>, mate_red: Option<i32>) -> Seq<char> {
    let mate = match mate_red {
        Some(m) => m as int,
        None => 0,
    };
    let score = match score_cp_red {
        Some(s) => s as int,
        None => 0,
    };
    if mate > 0 {
        "红胜"@
    } else if mate < 0 {
        "黑胜"@
    } else if score > 20 {
        "红优"@
    } else if score < -20 {
        "黑优"@
    } else {
        "均势"@
    }
}

/// The word for who stands better: a won position for a mate, an advantage
/// beyond 0.20 pawns, or an even game.
pub fn evaluation_advantage(evaluation: &PositionEvaluation) -> (r: &'static str)
    ensures
        r@ == advantage_text(evaluation.score_cp_red, evaluation.mate_red),
{
    let mate: i32 = match evaluation.mate_red {
        Some(m) => m,
        None => 0,
    };
    let score: i32 = match evaluation.score_cp_red {
        Some(s) => s,
        None => 0,
    };
    if mate > 0 {
        "红胜"
    } else if mate < 0 {
        "黑胜"
    } else if score > 20 {
        "红优"
    } else if score < -20 {
        "黑优"
    } else {
        "均势"
    }
}

/// The change of the score from the previous evaluation, when both have a
/// score.
pub fn evaluation_delta(current: &PositionEvaluation, previous: Option<&PositionEvaluation>) -> (r: Option<i32>)
    requires
        previous is Some && current.score_cp_red is Some && previous->0.score_cp_red is Some
            ==> i32::MIN <= current.score_cp_red->0 - previous->0.score_cp_red->0 <= i32::MAX,
    ensures
        r == match (current.score_cp_red, previous) {
            (Some(now), Some(p)) => match p.score_cp_red {
                Some(before) => Some((now - before) as i32),
                None => None,
            },
            _ => None,
        },
{
    let previous = match previous {
        Some(p) => p,
        None => {
            return None;
        },
    };
    match (current.score_cp_red, previous.score_cp_red) {
        (Some(now), Some(before)) => Some(now - before),
        (Some(_), None) => None,
        (None, _) => None,
    }
}

/// The Unicode xiangqi symbol of a piece.
pub open spec fn emoji_symbol(p: Piece) -> char {
    match (p.color, p.kind) {
        (Color::Red, PieceType::King) => '🩠',
        (Color::Red, PieceType::Advisor) => '🩡',
        (Color::Red, PieceType::Bishop) => '🩢',
        (Color::Red, PieceType::Knight) => '🩣',
        (Color::Red, PieceType::Rook) => '🩤',
        (Color::Red, PieceType::Cannon) => '🩥',
        (Color::Red, PieceType::Pawn) => '🩦',
        (Color::Black, PieceType::King) => '🩧',
        (Color::Black, PieceType::Advisor) => '🩨',
        (Color::Black, PieceType::Bishop) => '🩩',
        (Color::Black, PieceType::Knight) => '🩪',
        (Color::Black, PieceType::Rook) => '🩫',
        (Color::Black, PieceType::Cannon) => '🩬',
        (Color::Black, PieceType::Pawn) => '🩭',
    }
}

/// The symbol of a piece: the Unicode xiangqi symbol when `emoji` is set,
/// otherwise the Chinese character used in move notation.
pub fn piece_symbol(piece: Piece, emoji: bool) -> (r: &'static str)
    ensures
        r@ == seq![
            if emoji {
                emoji_symbol(piece)
            } else {
                crate::notation::piece_name(piece)
            },
        ],
{
    if emoji {
        return match (piece.color, piece.kind) {
            (Color::Red, PieceType::King) => {
                proof {
                    reveal_strlit("🩠");
                }
                "🩠"
            },
            (Color::Red, PieceType::Advisor) => {
                proof {
                    reveal_strlit("🩡");
                }
                "🩡"
            },
            (Color::Red, PieceType::Bishop) => {
                proof {
                    reveal_strlit("🩢");
                }
                "🩢"
            },
            (Color::Red, PieceType::Knight) => {
                proof {
                    reveal_strlit("🩣");
                }
                "🩣"
            },
            (Color::Red, PieceType::Rook) => {
                proof {
                    reveal_strlit("🩤");
                }
                "🩤"
            },
            (Color::Red, PieceType::Cannon) => {
                proof {
                    reveal_strlit("🩥");
                }
                "🩥"
            },
            (Color::Red, PieceType::Pawn) => {
                proof {
                    reveal_strlit("🩦");
                }
                "🩦"
            },
            (Color::Black, PieceType::King) => {
                proof {
                    reveal_strlit("🩧");
                }
                "🩧"
            },
            (Color::Black, PieceType::Advisor) => {
                proof {
                    reveal_strlit("🩨");
                }
                "🩨"
            },
            (Color::Black, PieceType::Bishop) => {
                proof {
                    reveal_strlit("🩩");
                }
                "🩩"
            },
            (Color::Black, PieceType::Knight) => {
                proof {
                    reveal_strlit("🩪");
                }
                "🩪"
            },
            (Color::Black, PieceType::Rook) => {
                proof {
                    reveal_strlit("🩫");
                }
                "🩫"
            },
            (Color::Black, PieceType::Cannon) => {
                proof {
                    reveal_strlit("🩬");
                }
                "🩬"
            },
            (Color::Black, PieceType::Pawn) => {
                proof {
                    reveal_strlit("🩭");
                }
                "🩭"
            },
        };
    }
    match (piece.color, piece.kind) {
        (Color::Red, PieceType::King) => {
            proof {
                reveal_strlit("帅");
            }
            "帅"
        },
        (Color::Red, PieceType::Advisor) => {
            proof {
                reveal_strlit("仕");
            }
            "仕"
        },
        (Color::Red, PieceType::Bishop) => {
            proof {
                reveal_strlit("相");
            }
            "相"
        },
        (Color::Red, PieceType::Knight) => {
            proof {
                reveal_strlit("马");
            }
            "马"
        },
        (Color::Red, PieceType::Rook) => {
            proof {
                reveal_strlit("车");
            }
            "车"
        },
        (Color::Red, PieceType::Cannon) => {
            proof {
                reveal_strlit("炮");
            }
            "炮"
        },
        (Color::Red, PieceType::Pawn) => {
            proof {
                reveal_strlit("兵");
            }
            "兵"
        },
        (Color::Black, PieceType::King) => {
            proof {
                reveal_strlit("将");
            }
            "将"
        },
        (Color::Black, PieceType::Advisor) => {
            proof {
                reveal_strlit("士");
            }
            "士"
        },
        (Color::Black, PieceType::Bishop) => {
            proof {
                reveal_strlit("象");
            }
            "象"
        },
        (Color::Black, PieceType::Knight) => {
            proof {
                reveal_strlit("马");
            }
            "马"
        },
        (Color::Black, PieceType::Rook) => {
            proof {
                reveal_strlit("车");
            }
            "车"
        },
        (Color::Black, PieceType::Cannon) => {
            proof {
                reveal_strlit("炮");
            }
            "炮"
        },
        (Color::Black, PieceType::Pawn) => {
            proof {
                reveal_strlit("卒");
            }
            "卒"
        },
    }
}

} // verus!
