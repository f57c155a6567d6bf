//! The words and marks of the screen: the status bar, the analysis panel,
//! the rows of the move list, and how each point of the board is shown.
use vstd::prelude::*;

use crate::app::{AnalysisLine, App, Focus, HumanMode};
use crate::board::{move_wf, Color, Move, Piece, Square};
use crate::display::{
    advantage_text, evaluation_advantage, evaluation_delta, evaluation_text, format_evaluation,
    pawns_text, push_pawns, PositionEvaluation,
};
use crate::game::{color_name, PositionState};
use crate::text::{dec_string, push_char, push_decimal};

verus! {

/// The number of terminal columns that text takes, as the `unicode-width`
/// crate counts them.
pub uninterp spec fn display_width(s: Seq<char>) -> usize;

/// `UnicodeWidthStr::width` of the `unicode-width` crate: claims only that
/// the width is a function of the text. How wide each character is (one or
/// two columns, or none) is left to the crate's tables.
#[verifier::external_body]
fn text_width(s: &str) -> (r: usize)
    ensures
        r == display_width(s@),
{
    unicode_width::UnicodeWidthStr::width(s)
}

/// `n` spaces.
pub open spec fn spaces(n: nat) -> Seq<char> {
    Seq::new(n, |i: int| ' ')
}

fn push_spaces(s: &mut String, n: usize)
    ensures
        final(s)@ == old(s)@ + spaces(n as nat),
{
    let mut i: usize = 0;
    while i < n
        invariant
            i <= n,
            s@ == old(s)@ + spaces(i as nat),
        decreases n - i,
    {
        push_char(s, ' ');
        assert(s@ =~= old(s)@ + spaces((i + 1) as nat));
        i = i + 1;
    }
}

/// `text` followed by spaces up to `width` columns (none when it is wider).
pub fn pad_to_width(text: &str, width: usize) -> (r: String)
    ensures
        r@ == text@ + spaces(
            if width > display_width(text@) {
                (width - display_width(text@)) as nat
            } else {
                0
            },
        ),
{
    let used = text_width(text);
    let mut s = text.to_string();
    let missing: usize = if width > used {
        width - used
    } else {
        0
    };
    push_spaces(&mut s, missing);
    s
}

/// How the state of the game is named.
pub open spec fn state_text(state: PositionState) -> Seq<char> {
    match state {
        PositionState::Playing => "对局中"@,
        PositionState::Check(side) => crate::app::side_name(side) + "被将军"@,
        PositionState::Won { winner, .. } => crate::app::side_name(winner) + "获胜"@,
    }
}

/// Names the state of the game: `对局中`, `红方被将军`, `黑方获胜`, …
pub fn state_label(state: PositionState) -> (r: String)
    ensures
        r@ == state_text(state),
{
    match state {
        PositionState::Playing => "对局中".to_string(),
        PositionState::Check(side) => {
            let mut s = String::new();
            s.append(color_name(side));
            s.append("被将军");
            s
        },
        PositionState::Won { winner, .. } => {
            let mut s = String::new();
            s.append(color_name(winner));
            s.append("获胜");
            s
        },
    }
}

/// `digits` right-aligned in `width` characters.
pub open spec fn right_aligned(digits: Seq<char>, width: nat) -> Seq<char> {
    if digits.len() < width {
        spaces((width - digits.len()) as nat) + digits
    } else {
        digits
    }
}

/// The start of a row of the move list: the move number right-aligned in
/// three places, a dot, and the side (`红` or `黑`).
pub open spec fn history_prefix_text(ply: nat, side: Color) -> Seq<char> {
    right_aligned(dec_string(ply / 2 + 1), 3) + "."@ + (if side == Color::Red {
        "红"@
    } else {
        "黑"@
    }) + " "@
}

/// The start of the row of move `ply` (counted from 0), played by `side`.
pub fn history_prefix(ply: usize, side: Color) -> (r: String)
    ensures
        r@ == history_prefix_text(ply as nat, side),
{
    let number: u64 = (ply / 2) as u64 + 1;
    let mut digits = String::new();
    push_decimal(&mut digits, number);
    let mut s = String::new();
    let d = crate::text::chars_of(digits.as_str());
    if d.len() < 3 {
        push_spaces(&mut s, 3 - d.len());
    }
    s.append(digits.as_str());
    s.append(".");
    s.append(
        if side == Color::Red {
            "红"
        } else {
            "黑"
        },
    );
    s.append(" ");
    s
}

/// The score shown beside a move: the evaluation of the position it led
/// to, `--` when there is none.
pub fn history_score(evaluation: Option<PositionEvaluation>) -> (r: String)
    ensures
        r@ == match evaluation {
            Some(e) => evaluation_text(e.score_cp_red, e.mate_red),
            None => "--"@,
        },
{
    match evaluation {
        Some(e) => format_evaluation(e.score_cp_red, e.mate_red),
        None => "--".to_string(),
    }
}

/// The change beside a move: `  Δ` and the change of the score from the
/// position before, when both positions have a score.
pub open spec fn history_delta_text(evaluation: Option<PositionEvaluation>, previous: Option<PositionEvaluation>) -> Seq<char> {
    match (evaluation, previous) {
        (Some(e), Some(p)) => match (e.score_cp_red, p.score_cp_red) {
            (Some(now), Some(before)) => "  Δ"@ + pawns_text(now - before),
            _ => Seq::empty(),
        },
        _ => Seq::empty(),
    }
}

/// The change of a score fits in an `i32`.
pub open spec fn change_fits(evaluation: Option<PositionEvaluation>, previous: Option<PositionEvaluation>) -> bool {
    match (evaluation, previous) {
        (Some(e), Some(p)) => match (e.score_cp_red, p.score_cp_red) {
            (Some(now), Some(before)) => i32::MIN <= now - before <= i32::MAX,
            _ => true,
        },
        _ => true,
    }
}

/// The change shown beside a move.
pub fn history_delta(evaluation: Option<PositionEvaluation>, previous: Option<PositionEvaluation>) -> (r: String)
    requires
        change_fits(evaluation, previous),
    ensures
        r@ == history_delta_text(evaluation, previous),
{
    let mut s = String::new();
    match evaluation {
        Some(e) => {
            let before = match &previous {
                Some(p) => Some(p),
                None => None,
            };
            match evaluation_delta(&e, before) {
                Some(d) => {
                    s.append("  Δ");
                    push_pawns(&mut s, d as i64);
                },
                None => {},
            }
        },
        None => {},
    }
    s
}

/// The status bar after its title: the side to move, who plays by hand,
/// the engine in use and the difficulty.
pub open spec fn status_text(side: Color, mode: HumanMode, external: bool, level: u8) -> Seq<char> {
    "  "@ + crate::app::side_name(side) + "行棋  "@ + mode.spec_label() + "  "@ + (if external {
        "Pikafish"@
    } else {
        "轻量引擎"@
    }) + "  难度 "@ + dec_string(level as nat)
}

/// Writes the status bar after its title.
pub fn status_line(side: Color, mode: HumanMode, external: bool, level: u8) -> (r: String)
    ensures
        r@ == status_text(side, mode, external, level),
{
    let mut s = String::new();
    s.append("  ");
    s.append(color_name(side));
    s.append("行棋  ");
    s.append(mode.label());
    s.append("  ");
    s.append(
        if external {
            "Pikafish"
        } else {
            "轻量引擎"
        },
    );
    s.append("  难度 ");
    push_decimal(&mut s, level as u64);
    s
}

/// What the status bar says about the engine: evaluating, thinking, or
/// nothing.
pub fn activity_label(evaluating: bool, thinking: bool) -> (r: &'static str)
    ensures
        r@ == if evaluating {
            "  ◉ 评估中"@
        } else if thinking {
            "  ◉ 思考中"@
        } else {
            ""@
        },
{
    if evaluating {
        "  ◉ 评估中"
    } else if thinking {
        "  ◉ 思考中"
    } else {
        ""
    }
}

/// The verdict on the current position in the analysis panel: who stands
/// better and the score, or, without an evaluation, whether one is being
/// computed.
pub open spec fn verdict_text(current: Option<PositionEvaluation>, evaluating: bool) -> Seq<char> {
    match current {
        Some(e) => advantage_text(e.score_cp_red, e.mate_red) + " "@ + evaluation_text(
            e.score_cp_red,
            e.mate_red,
        ),
        None => if evaluating {
            "计算中"@
        } else {
            "尚无评分"@
        },
    }
}

/// Writes the verdict on the current position.
pub fn verdict(current: Option<PositionEvaluation>, evaluating: bool) -> (r: String)
    ensures
        r@ == verdict_text(current, evaluating),
{
    match current {
        Some(e) => {
            let mut s = String::new();
            s.append(evaluation_advantage(&e));
            s.append(" ");
            s.append(format_evaluation(e.score_cp_red, e.mate_red).as_str());
            s
        },
        None => if evaluating {
            "计算中".to_string()
        } else {
            "尚无评分".to_string()
        },
    }
}

/// The change of the current position's score from the previous one, as
/// the analysis panel writes it (`  变化 +0.25`), when both have a score.
pub fn change_text(current: Option<PositionEvaluation>, previous: Option<PositionEvaluation>) -> (r: Option<String>)
    requires
        change_fits(current, previous),
    ensures
        match (current, previous) {
            (Some(e), Some(p)) => match (e.score_cp_red, p.score_cp_red) {
                (Some(now), Some(before)) => r is Some && r->0@ == "  变化 "@ + pawns_text(now - before),
                _ => r is None,
            },
            _ => r is None,
        },
{
    match (current, previous) {
        (Some(e), Some(p)) => match (e.score_cp_red, p.score_cp_red) {
            (Some(now), Some(before)) => {
                let mut s = String::new();
                s.append("  变化 ");
                push_pawns(&mut s, (now - before) as i64);
                Some(s)
            },
            _ => None,
        },
        _ => None,
    }
}

/// `text` right-aligned in `width` characters.
pub open spec fn padded_left(text: Seq<char>, width: nat) -> Seq<char> {
    right_aligned(text, width)
}

/// The head of a row of the analysis panel: the line's number and its
/// score right-aligned in seven characters.
pub open spec fn analysis_head_text(index: u32, line_score: Seq<char>) -> Seq<char> {
    dec_string(index as nat) + " "@ + padded_left(line_score, 7) + "  "@
}

/// Writes the head of a row of the analysis panel.
pub fn analysis_head(index: u32, line: &AnalysisLine) -> (r: String)
    ensures
        r@ == analysis_head_text(index, evaluation_text(line.score_cp_red, line.mate_red)),
{
    let score = crate::display::format_score(line);
    let cs = crate::text::chars_of(score.as_str());
    let mut s = String::new();
    push_decimal(&mut s, index as u64);
    s.append(" ");
    if cs.len() < 7 {
        push_spaces(&mut s, 7 - cs.len());
    }
    s.append(score.as_str());
    s.append("  ");
    s
}

/// The moves of a row of the analysis panel: the line in notation, or
/// `尚无变化` when it has none.
pub fn analysis_moves(line: &AnalysisLine) -> (r: String)
    ensures
        r@ == if line.pv_text@.len() == 0 {
            "尚无变化"@
        } else {
            line.pv_text@
        },
{
    if crate::text::chars_of(line.pv_text.as_str()).len() == 0 {
        "尚无变化".to_string()
    } else {
        line.pv_text.clone()
    }
}

/// The point shown at display row `row` and column `column` (row 0 at the
/// top): red's back rank is at the bottom and file `a` on the left, or the
/// other way round when the board is flipped.
pub open spec fn spec_display_square(flipped: bool, row: u8, column: u8) -> Square {
    if flipped {
        Square { rank: row, file: (8 - column) as u8 }
    } else {
        Square { rank: (9 - row) as u8, file: column }
    }
}

/// The point shown at a display position.
pub fn display_square(flipped: bool, row: u8, column: u8) -> (r: Square)
    requires
        row < 10,
        column < 9,
    ensures
        r == spec_display_square(flipped, row, column),
        r.wf(),
{
    if flipped {
        Square { rank: row, file: 8 - column }
    } else {
        Square { rank: 9 - row, file: column }
    }
}

/// The file number written above (1 to 9, left to right) or below (9 to
/// 1) display column `column`.
pub fn column_label(column: u8, below: bool) -> (r: u8)
    requires
        column <= 9,
    ensures
        r == if below {
            9 - column
        } else {
            column + 1
        },
{
    if below {
        9 - column
    } else {
        column + 1
    }
}

/// How a point of the board is shown.
#[derive(Debug, Clone, Copy, PartialEq, Eq, Structural)]
pub struct SquareLook {
    /// The piece on the point.
    pub piece: Option<Piece>,
    /// The selected piece can move there.
    pub legal_target: bool,
    /// The last move left or reached it.
    pub last_move: bool,
    /// The hint starts or ends there.
    pub hint: bool,
    /// The point is selected.
    pub selected: bool,
    /// The board has focus and its cursor stands there.
    pub cursor: bool,
}

/// Whether a move in `moves` ends on `q`.
pub open spec fn targets(moves: Seq<Move>, q: Square) -> bool {
    exists|i: int| 0 <= i < moves.len() && (#[trigger] moves[i]).dst == q
}

/// Whether `m` starts or ends on `q`.
pub open spec fn touches(m: Option<Move>, q: Square) -> bool {
    m is Some && (m->0.src == q || m->0.dst == q)
}

fn ends_on(moves: &[Move], q: Square) -> (r: bool)
    ensures
        r == targets(moves@, q),
{
    let mut i: usize = 0;
    while i < moves.len()
        invariant
            i <= moves@.len(),
            forall|k: int| 0 <= k < i ==> (#[trigger] moves@[k]).dst != q,
        decreases moves@.len() - i,
    {
        if moves[i].dst == q {
            return true;
        }
        i = i + 1;
    }
    false
}

impl App {
    /// How point `q` is shown.
    pub fn square_look(&self, q: Square) -> (r: SquareLook)
        requires
            self.wf(),
            q.wf(),
        ensures
            r == (SquareLook {
                piece: crate::game::board_of(self@.game.fen()).at(q),
                legal_target: targets(self@.selected_moves, q),
                last_move: touches(
                    if self@.game.moves.len() > 0 {
                        Some(self@.game.moves.last())
                    } else {
                        None
                    },
                    q,
                ),
                hint: touches(self@.hint_move, q),
                selected: self@.selected == Some(q),
                cursor: self@.focus == Focus::Board && self@.cursor == q,
            }),
    {
        let piece = self.game.piece_at(q);
        let legal_target = ends_on(self.selected_moves.as_slice(), q);
        let last = self.game.last_move();
        let last_move = match last {
            Some(m) => m.src == q || m.dst == q,
            None => false,
        };
        let hint = match self.hint_move {
            Some(m) => m.src == q || m.dst == q,
            None => false,
        };
        let selected = match self.selected {
            Some(s) => s == q,
            None => false,
        };
        let cursor = self.focus == Focus::Board && self.cursor == q;
        SquareLook { piece, legal_target, last_move, hint, selected, cursor }
    }
}

} // verus!
