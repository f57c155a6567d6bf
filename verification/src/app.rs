//! The application: what the player types and clicks, what the engine
//! reports, and how the game, the messages and the engine requests change in
//! answer. Every handler is a step from one state to the next; the engine
//! requests it makes are queued for the caller to send.
use std::collections::BTreeMap;
use vstd::prelude::*;

use crate::board::{move_wf, BoardView, Color, Move, Square};
use crate::iccs::{iccs_move, iccs_splits_char};
use crate::keys::{
    at_most, first_values, key_order, keys_in_order, lemma_u32_keys_ordered,
    lemma_values_in_order_map, values_in_order,
};
use crate::notation::{
    contains_move, format_move, format_pv, join_words, lemma_pv_moves_wf, parse_pv, pv_moves,
    pv_notations,
};
use crate::rules::iccs_to_move;
use crate::skill::{
    analysis_score, draw_rolls, pick_skill_index, rolls_from, spec_analysis_score,
    spec_pick_skill_index, state_after,
};
use crate::display::PositionEvaluation;
use crate::game::{board_of, color_name, spec_state, Game, GameView, PositionState};
use crate::skill::Difficulty;
use crate::text::push_decimal;
use crate::uci::{
    opt_string_view, AiCommand, AiEvent, AnalysisInfo, CommandView, EventView, InfoView, SearchPurpose,
    SearchRequest,
};

verus! {

#[verifier::external_type_specification]
#[verifier::external_body]
pub struct ExPathBuf(std::path::PathBuf);

/// Where key presses go.
#[derive(Debug, Clone, Copy, PartialEq, Eq, Structural)]
pub enum Focus {
    Input,
    Board,
}

/// Who plays by hand: one side (the computer plays the other), or both.
#[derive(Debug, Clone, Copy, PartialEq, Eq, Structural)]
pub enum HumanMode {
    Side(Color),
    Both,
}

impl HumanMode {
    pub open spec fn spec_is_human_turn(self, side: Color) -> bool {
        match self {
            HumanMode::Side(human) => human == side,
            HumanMode::Both => true,
        }
    }

    /// Whether the player moves for `side`.
    #[verifier::when_used_as_spec(spec_is_human_turn)]
    pub fn is_human_turn(self, side: Color) -> (r: bool)
        ensures
            r == self.spec_is_human_turn(side),
    {
        match self {
            HumanMode::Side(human) => human == side,
            HumanMode::Both => true,
        }
    }

    pub open spec fn spec_label(self) -> Seq<char> {
        match self {
            HumanMode::Side(Color::Red) => "你执红"@,
            HumanMode::Side(Color::Black) => "你执黑"@,
            HumanMode::Both => "双人对弈"@,
        }
    }

    /// How the mode is named on screen.
    pub fn label(self) -> (r: &'static str)
        ensures
            r@ == self.spec_label(),
    {
        match self {
            HumanMode::Side(Color::Red) => "你执红",
            HumanMode::Side(Color::Black) => "你执黑",
            HumanMode::Both => "双人对弈",
        }
    }
}

/// One line of engine analysis, with its score turned to red's view and
/// its moves written in notation.
#[derive(Debug, Clone)]
pub struct AnalysisLine {
    pub info: AnalysisInfo,
    pub score_cp_red: Option<i32>,
    pub mate_red: Option<i32>,
    pub pv_text: String,
}

/// The mathematical content of an [`AnalysisLine`].
pub struct LineView {
    pub info: InfoView,
    pub score_cp_red: Option<i32>,
    pub mate_red: Option<i32>,
    pub pv_text: Seq<char>,
}

impl View for AnalysisLine {
    type V = LineView;

    open spec fn view(&self) -> LineView {
        LineView {
            info: self.info@,
            score_cp_red: self.score_cp_red,
            mate_red: self.mate_red,
            pv_text: self.pv_text@,
        }
    }
}

/// The search the application waits for.
#[derive(Debug, Clone, Copy, PartialEq, Eq, Structural)]
pub struct ActiveSearch {
    pub id: u64,
    pub purpose: SearchPurpose,
    pub side: Color,
    pub position_index: usize,
    pub skill_move: Option<Move>,
}

/// How the application starts.
pub struct AppOptions {
    pub engine_path: Option<std::path::PathBuf>,
    /// Thinking time per move in milliseconds.
    pub think_time_ms: u64,
    pub difficulty: Difficulty,
    pub emoji_pieces: bool,
}

impl Default for AppOptions {
    fn default() -> (r: Self)
        ensures
            r.engine_path is None,
            r.think_time_ms == 1200,
            r.difficulty@ == 20,
            !r.emoji_pieces,
    {
        AppOptions {
            engine_path: None,
            think_time_ms: 1200,
            difficulty: Difficulty::default(),
            emoji_pieces: false,
        }
    }
}

/// A key press, as far as the application tells keys apart.
#[derive(Debug, Clone, Copy, PartialEq, Eq, Structural)]
pub enum KeyCode {
    Enter,
    Backspace,
    Esc,
    Tab,
    Up,
    Down,
    Left,
    Right,
    Char(char),
    Other,
}

/// A pressed key with its modifiers.
#[derive(Debug, Clone, Copy, PartialEq, Eq, Structural)]
pub struct KeyInput {
    pub code: KeyCode,
    pub control: bool,
    pub alt: bool,
}

/// What the terminal reports.
#[derive(Debug, Clone)]
pub enum InputEvent {
    Key(KeyInput),
    Paste(String),
    Other,
}

/// The application state.
pub struct App {
    pub game: Game,
    pub input: Vec<char>,
    pub focus: Focus,
    pub cursor: Square,
    pub selected: Option<Square>,
    pub selected_moves: Vec<Move>,
    pub flipped: bool,
    pub message: String,
    pub human_mode: HumanMode,
    pub thinking: bool,
    pub engine_name: String,
    pub external_engine: bool,
    pub analysis_lines: BTreeMap<u32, AnalysisLine>,
    pub position_evaluations: Vec<Option<PositionEvaluation>>,
    pub hint_move: Option<Move>,
    pub emoji_pieces: bool,
    pub think_time_ms: u64,
    pub difficulty: Difficulty,
    pub input_history: Vec<String>,
    pub history_index: Option<usize>,
    pub active_search: Option<ActiveSearch>,
    pub search_sequence: u64,
    pub random_state: u64,
    pub quit: bool,
    /// Requests for the engine worker, oldest first, not yet sent.
    pub outbox: Vec<AiCommand>,
}

/// The mathematical content of an [`App`].
pub struct AppView {
    pub game: GameView,
    pub input: Seq<char>,
    pub focus: Focus,
    pub cursor: Square,
    pub selected: Option<Square>,
    pub selected_moves: Seq<Move>,
    pub flipped: bool,
    pub message: Seq<char>,
    pub human_mode: HumanMode,
    pub thinking: bool,
    pub engine_name: Seq<char>,
    pub external_engine: bool,
    pub analysis_lines: Map<u32, LineView>,
    pub position_evaluations: Seq<Option<PositionEvaluation>>,
    pub hint_move: Option<Move>,
    pub emoji_pieces: bool,
    pub think_time_ms: u64,
    pub difficulty: u8,
    pub input_history: Seq<Seq<char>>,
    pub history_index: Option<usize>,
    pub active_search: Option<ActiveSearch>,
    pub search_sequence: u64,
    pub random_state: u64,
    pub quit: bool,
    pub outbox: Seq<CommandView>,
}

impl View for App {
    type V = AppView;

    open spec fn view(&self) -> AppView {
        AppView {
            game: self.game@,
            input: self.input@,
            focus: self.focus,
            cursor: self.cursor,
            selected: self.selected,
            selected_moves: self.selected_moves@,
            flipped: self.flipped,
            message: self.message@,
            human_mode: self.human_mode,
            thinking: self.thinking,
            engine_name: self.engine_name@,
            external_engine: self.external_engine,
            analysis_lines: self.analysis_lines@.map_values(|l: AnalysisLine| l@),
            position_evaluations: self.position_evaluations@,
            hint_move: self.hint_move,
            emoji_pieces: self.emoji_pieces,
            think_time_ms: self.think_time_ms,
            difficulty: self.difficulty@,
            input_history: self.input_history@.map_values(|s: String| s@),
            history_index: self.history_index,
            active_search: self.active_search,
            search_sequence: self.search_sequence,
            random_state: self.random_state,
            quit: self.quit,
            outbox: self.outbox@.map_values(|c: AiCommand| c@),
        }
    }
}

/// The state of a new application (see [`App::new`]).
pub open spec fn initial_view(think_time_ms: u64, difficulty: u8, emoji_pieces: bool, random_seed: u64) -> AppView {
    AppView {
        game: start_game(),
        input: Seq::empty(),
        focus: Focus::Input,
        cursor: Square { rank: 0, file: 4 },
        selected: None,
        selected_moves: Seq::empty(),
        flipped: false,
        message: "输入 马二进三 后按 Enter，Tab 可查看棋盘走法"@,
        human_mode: HumanMode::Side(Color::Red),
        thinking: false,
        engine_name: "正在启动引擎"@,
        external_engine: false,
        analysis_lines: Map::empty(),
        position_evaluations: seq![None],
        hint_move: None,
        emoji_pieces,
        think_time_ms,
        difficulty,
        input_history: Seq::empty(),
        history_index: None,
        active_search: None,
        search_sequence: 0,
        random_state: random_seed,
        quit: false,
        outbox: Seq::empty(),
    }
}

/// The name of a side: `红方` or `黑方`.
pub open spec fn side_name(c: Color) -> Seq<char> {
    match c {
        Color::Red => "红方"@,
        Color::Black => "黑方"@,
    }
}

// ---------------------------------------------------------------------------
// The application state and the player's actions
// ---------------------------------------------------------------------------

impl App {
    /// The state is consistent: the game's records match its history, and
    /// every square and move the application holds lies on the board.
    pub open spec fn wf(&self) -> bool {
        &&& self.game.wf()
        &&& self.cursor.wf()
        &&& (self.selected is Some ==> self.selected->0.wf())
        &&& forall|i: int| 0 <= i < self.selected_moves@.len() ==> move_wf(#[trigger] self.selected_moves@[i])
        &&& (self.hint_move is Some ==> move_wf(self.hint_move->0))
        &&& (self.history_index is Some ==> self.history_index->0 < self.input_history@.len())
        &&& (self.active_search is Some && self.active_search->0.skill_move is Some ==> move_wf(
            self.active_search->0.skill_move->0,
        ))
        &&& forall|k: u32| #[trigger]
            self.analysis_lines@.contains_key(k) ==> pv_readable(self.analysis_lines@[k]@.info.pv)
    }

    /// A new application on the standard starting position: the input has
    /// focus, the cursor stands on `e0`, the player has red, nothing is
    /// searched yet, and `random_seed` seeds the choices of weakened levels.
    pub fn new(options: AppOptions, random_seed: u64) -> (r: App)
        ensures
            r.wf(),
            r@ == initial_view(options.think_time_ms, options.difficulty@, options.emoji_pieces, random_seed),
            start_game().fen() == crate::rules::start_root(),
            start_game().side() == Color::Red,
    {
        let game = Game::new();
        let mut position_evaluations: Vec<Option<PositionEvaluation>> = Vec::new();
        position_evaluations.push(None);
        let r = App {
            game,
            input: Vec::new(),
            focus: Focus::Input,
            cursor: Square { rank: 0, file: 4 },
            selected: None,
            selected_moves: Vec::new(),
            flipped: false,
            message: "输入 马二进三 后按 Enter，Tab 可查看棋盘走法".to_string(),
            human_mode: HumanMode::Side(Color::Red),
            thinking: false,
            engine_name: "正在启动引擎".to_string(),
            external_engine: false,
            analysis_lines: BTreeMap::new(),
            position_evaluations,
            hint_move: None,
            emoji_pieces: options.emoji_pieces,
            think_time_ms: options.think_time_ms,
            difficulty: options.difficulty,
            input_history: Vec::new(),
            history_index: None,
            active_search: None,
            search_sequence: 0,
            random_state: random_seed,
            quit: false,
            outbox: Vec::new(),
        };
        assert(r@.analysis_lines =~= Map::<u32, LineView>::empty());
        assert(r@.input_history =~= Seq::<Seq<char>>::empty());
        assert(r@.outbox =~= Seq::<CommandView>::empty());
        assert(r@.position_evaluations =~= seq![None]);
        r
    }

    /// Hands over the engine requests queued so far, oldest first, and
    /// empties the queue.
    pub fn take_commands(&mut self) -> (r: Vec<AiCommand>)
        requires
            old(self).wf(),
        ensures
            final(self).wf(),
            r@.map_values(|c: AiCommand| c@) == old(self)@.outbox,
            final(self)@ == (AppView { outbox: Seq::empty(), ..old(self)@ }),
    {
        let mut r: Vec<AiCommand> = Vec::new();
        std::mem::swap(&mut r, &mut self.outbox);
        assert(self@.outbox =~= Seq::<CommandView>::empty());
        r
    }

    /// Whether the search running is a background evaluation.
    pub open spec fn spec_is_evaluating(v: AppView) -> bool {
        v.active_search is Some && v.active_search->0.purpose == SearchPurpose::Evaluation
    }

    /// Whether the search running is a background evaluation.
    pub fn is_evaluating(&self) -> (r: bool)
        ensures
            r == Self::spec_is_evaluating(self@),
    {
        match self.active_search {
            Some(search) => search.purpose == SearchPurpose::Evaluation,
            None => false,
        }
    }

    /// Whether a search keeps the player from moving: any search but a
    /// background evaluation.
    pub open spec fn spec_search_blocks_moves(v: AppView) -> bool {
        v.thinking && !Self::spec_is_evaluating(v)
    }

    pub fn search_blocks_moves(&self) -> (r: bool)
        ensures
            r == Self::spec_search_blocks_moves(self@),
    {
        self.thinking && !self.is_evaluating()
    }

    /// Drops the selected piece and its moves.
    pub fn clear_selection(&mut self)
        requires
            old(self).wf(),
        ensures
            final(self).wf(),
            final(self)@ == (AppView { selected: None, selected_moves: Seq::empty(), ..old(self)@ }),
    {
        self.selected = None;
        self.selected_moves.clear();
    }

    /// Moves the board cursor by one point in screen directions, staying on
    /// the board; the directions turn round when the board is flipped.
    pub fn move_cursor(&mut self, display_dx: i8, display_dy: i8)
        requires
            old(self).wf(),
            old(self).flipped ==> display_dx > i8::MIN && display_dy > i8::MIN,
            i8::MIN <= old(self).cursor.file + if old(self).flipped {
                -display_dx
            } else {
                display_dx as int
            } <= i8::MAX,
            i8::MIN <= old(self).cursor.rank + if old(self).flipped {
                -display_dy
            } else {
                display_dy as int
            } <= i8::MAX,
        ensures
            final(self).wf(),
            final(self)@ == (AppView {
                cursor: Square {
                    rank: clamp_to(
                        old(self).cursor.rank + if old(self).flipped {
                            -display_dy
                        } else {
                            display_dy as int
                        },
                        9,
                    ),
                    file: clamp_to(
                        old(self).cursor.file + if old(self).flipped {
                            -display_dx
                        } else {
                            display_dx as int
                        },
                        8,
                    ),
                },
                ..old(self)@
            }),
    {
        let (dx, dy): (i8, i8) = if self.flipped {
            (0 - display_dx, 0 - display_dy)
        } else {
            (display_dx, display_dy)
        };
        let f: i8 = self.cursor.file as i8 + dx;
        let r: i8 = self.cursor.rank as i8 + dy;
        let file: u8 = if f < 0 {
            0
        } else if f > 8 {
            8
        } else {
            f as u8
        };
        let rank: u8 = if r < 0 {
            0
        } else if r > 9 {
            9
        } else {
            r as u8
        };
        self.cursor = Square { rank, file };
    }

    /// Steps back through the commands typed before.
    pub fn previous_input(&mut self)
        requires
            old(self).wf(),
        ensures
            final(self).wf(),
            final(self)@ == previous_view(old(self)@),
    {
        if self.input_history.len() == 0 {
            return;
        }
        let index = match self.history_index {
            None => self.input_history.len() - 1,
            Some(index) => if index == 0 {
                0
            } else {
                index - 1
            },
        };
        self.history_index = Some(index);
        self.input = crate::text::chars_of(self.input_history[index].as_str());
    }

    /// Steps forward through the commands typed before, back to an empty line.
    pub fn next_input(&mut self)
        requires
            old(self).wf(),
        ensures
            final(self).wf(),
            final(self)@ == next_view(old(self)@),
    {
        let index = match self.history_index {
            Some(index) => index,
            None => {
                return;
            },
        };
        let n = self.input_history.len();
        assert(index < n);
        if index + 1 >= n {
            self.history_index = None;
            self.input.clear();
        } else {
            self.history_index = Some(index + 1);
            self.input = crate::text::chars_of(self.input_history[index + 1].as_str());
        }
    }

    /// Gives up the running search and tells the engine to stop.
    pub fn invalidate_search(&mut self)
        requires
            old(self).wf(),
        ensures
            final(self).wf(),
            final(self)@ == invalidated(old(self)@),
    {
        self.search_sequence = self.search_sequence.wrapping_add(1);
        self.active_search = None;
        self.thinking = false;
        let ghost before = self.outbox@;
        self.outbox.push(AiCommand::Stop);
        assert(self.outbox@.map_values(|c: AiCommand| c@) =~= before.map_values(|c: AiCommand| c@).push(CommandView::Stop));
    }

    /// Starts a search for `purpose` on the current position.
    pub fn start_search(&mut self, purpose: SearchPurpose, movetime_ms: u64)
        requires
            old(self).wf(),
        ensures
            final(self).wf(),
            final(self)@ == started_search(old(self)@, purpose, movetime_ms),
    {
        let state = self.game.state();
        if let PositionState::Won { .. } = state {
            self.message = "棋局已经结束".to_string();
            return;
        }
        if self.thinking {
            self.invalidate_search();
        }
        self.search_sequence = self.search_sequence.wrapping_add(1);
        let id = self.search_sequence;
        let side = self.game.side_to_move();
        let position_index = self.game.history().len();
        self.active_search = Some(ActiveSearch { id, purpose, side, position_index, skill_move: None });
        self.thinking = true;
        self.analysis_lines.clear();
        self.hint_move = None;
        match purpose {
            SearchPurpose::AiMove => {
                let mut m = String::new();
                m.append(color_name(side));
                m.append("正在思考");
                self.message = m;
            },
            SearchPurpose::Hint => {
                self.message = "正在分析局面".to_string();
            },
            SearchPurpose::Evaluation => {},
        }
        let multi_pv: u32 = match purpose {
            SearchPurpose::Hint => 3,
            SearchPurpose::AiMove => if self.difficulty.is_full_strength() {
                1
            } else {
                4
            },
            SearchPurpose::Evaluation => 1,
        };
        let fen = self.game.fen();
        let ghost before = self.outbox@;
        let request = SearchRequest { id, fen, movetime_ms, purpose, multi_pv };
        self.outbox.push(AiCommand::Search(request));
        assert(self.outbox@.map_values(|c: AiCommand| c@) =~= before.map_values(|c: AiCommand| c@).push(CommandView::Search(request@)));
        assert(self@.analysis_lines =~= Map::<u32, LineView>::empty());
    }

    /// Starts the search that comes next: none once the game is over, a
    /// background evaluation on the player's turn, else the computer's move.
    pub fn schedule_next_search(&mut self)
        requires
            old(self).wf(),
        ensures
            final(self).wf(),
            final(self)@ == scheduled(old(self)@),
    {
        let state = self.game.state();
        if let PositionState::Won { .. } = state {
            return;
        }
        let side = self.game.side_to_move();
        let purpose = if self.human_mode.is_human_turn(side) {
            SearchPurpose::Evaluation
        } else {
            SearchPurpose::AiMove
        };
        self.start_search(purpose, self.think_time_ms);
    }

    /// Gives up the running search and shows `message`.
    pub fn cancel_search(&mut self, message: &str)
        requires
            old(self).wf(),
        ensures
            final(self).wf(),
            final(self)@ == (AppView { message: message@, ..invalidated(old(self)@) }),
    {
        self.invalidate_search();
        self.message = message.to_string();
    }

    /// Makes room for the evaluation of the current position: one slot per
    /// position reached, the new last one empty.
    pub fn prepare_current_evaluation(&mut self)
        requires
            old(self).wf(),
        ensures
            final(self).wf(),
            final(self)@ == (AppView {
                position_evaluations: evaluations_resized(
                    old(self)@.position_evaluations,
                    succ_len(old(self)@.game.moves.len()),
                ),
                ..old(self)@
            }),
    {
        let required = self.game.history().len().saturating_add(1);
        let mut evals: Vec<Option<PositionEvaluation>> = Vec::new();
        std::mem::swap(&mut evals, &mut self.position_evaluations);
        let ghost start = evals@;
        evals.truncate(required);
        assert(evals@ == evaluations_resized(start, evals@.len() as int));
        while evals.len() < required
            invariant
                evals@.len() <= required,
                evals@ == evaluations_resized(start, evals@.len() as int),
                start.len() <= evals@.len() || evals@.len() == required,
            decreases required - evals@.len(),
        {
            evals.push(None);
            assert(evals@ =~= evaluations_resized(start, evals@.len() as int));
        }
        self.position_evaluations = evals;
    }

    /// Records an evaluation report for position `index`, unless it says
    /// nothing, the position has no slot, or a deeper one is already there.
    pub fn update_position_evaluation(
        &mut self,
        index: usize,
        depth: u32,
        score_cp_red: Option<i32>,
        mate_red: Option<i32>,
    )
        requires
            old(self).wf(),
        ensures
            final(self).wf(),
            final(self)@ == (AppView {
                position_evaluations: evaluation_updated(
                    old(self)@.position_evaluations,
                    index as int,
                    depth,
                    score_cp_red,
                    mate_red,
                ),
                ..old(self)@
            }),
    {
        if score_cp_red.is_none() && mate_red.is_none() {
            return;
        }
        if index >= self.position_evaluations.len() {
            return;
        }
        if let Some(existing) = self.position_evaluations[index] {
            if existing.depth > depth {
                return;
            }
        }
        self.position_evaluations.set(index, Some(PositionEvaluation { score_cp_red, mate_red, depth }));
    }

    /// Announces the end of the game or goes on after a move.
    fn after_move(&mut self, notation: String)
        requires
            old(self).wf(),
        ensures
            final(self).wf(),
            final(self)@ == after_move_view(old(self)@, notation@),
    {
        reveal(after_move_view);
        let state = self.game.state();
        match state {
            PositionState::Won { winner, by_checkmate } => {
                let mate_red: i32 = if winner == Color::Red {
                    1
                } else {
                    -1
                };
                let index = self.game.history().len();
                self.update_position_evaluation(index, 0, None, Some(mate_red));
                let mut m = String::new();
                m.append(if by_checkmate {
                    "将死"
                } else {
                    "困毙"
                });
                m.append("，");
                m.append(color_name(winner));
                m.append("获胜");
                self.message = m;
                self.thinking = false;
            },
            PositionState::Check(side) => {
                let mut m = notation;
                m.append("，");
                m.append(color_name(side));
                m.append("被将军");
                self.message = m;
                self.schedule_next_search();
            },
            PositionState::Playing => {
                self.message = notation;
                self.schedule_next_search();
            },
        }
    }

    /// Plays `mv` for whoever is to move.
    pub fn play_move(&mut self, mv: Move)
        requires
            old(self).wf(),
            move_wf(mv),
        ensures
            final(self).wf(),
            final(self)@ == played_view(old(self)@, mv),
            old(self)@.game.legal().contains(mv) && spec_state(final(self)@.game.fen()) is Won
                ==> final(self)@.message == end_announcement(
                spec_state(final(self)@.game.fen())->by_checkmate,
                old(self)@.game.side(),
            ),
    {
        self.invalidate_search();
        let ghost mover = self@.game.side();
        match self.game.play(mv) {
            Ok(record) => {
                self.prepare_current_evaluation();
                self.cursor = mv.dst;
                self.clear_selection();
                self.hint_move = None;
                self.analysis_lines.clear();
                assert(self@.analysis_lines =~= Map::<u32, LineView>::empty());
                let ghost mid = self@;
                let ghost note = record.notation@;
                assert(mid.game.side() == mover.spec_flip());
                self.after_move(record.notation);
                proof {
                    lemma_after_move_keeps_game(mid, note);
                    if spec_state(mid.game.fen()) is Won {
                        lemma_end_announces_winner(mid, note);
                    }
                }
            },
            Err(error) => {
                self.message = error.message();
            },
        }
    }

    /// Starts a new game from the standard starting position.
    pub fn new_game(&mut self)
        requires
            old(self).wf(),
        ensures
            final(self).wf(),
            final(self)@ == restarted(invalidated(old(self)@), start_game(), "新的一局，红方先行"@),
            start_game().fen() == crate::rules::start_root(),
            start_game().side() == Color::Red,
    {
        self.invalidate_search();
        self.game.reset();
        self.clear_selection();
        self.hint_move = None;
        self.analysis_lines.clear();
        self.position_evaluations.clear();
        self.position_evaluations.push(None);
        self.message = "新的一局，红方先行".to_string();
        assert(self@.analysis_lines =~= Map::<u32, LineView>::empty());
        assert(self@.position_evaluations =~= seq![None]);
        self.schedule_next_search();
    }

    /// Starts a new game from the position that `fen` describes; an invalid
    /// text is reported and changes nothing else.
    pub fn load_fen(&mut self, fen: &str)
        requires
            old(self).wf(),
        ensures
            final(self).wf(),
            match crate::game::loaded_root(fen@) {
                Some(root) => final(self)@ == restarted(
                    invalidated(old(self)@),
                    GameView::fresh(root),
                    "局面已载入"@,
                ),
                None => final(self)@ == (AppView { message: final(self)@.message, ..invalidated(old(self)@) })
                    && "FEN 无效："@.is_prefix_of(final(self)@.message),
            },
    {
        self.invalidate_search();
        match self.game.set_fen(fen) {
            Ok(()) => {
                self.clear_selection();
                self.hint_move = None;
                self.analysis_lines.clear();
                self.position_evaluations.clear();
                self.position_evaluations.push(None);
                self.message = "局面已载入".to_string();
                assert(self@.analysis_lines =~= Map::<u32, LineView>::empty());
                assert(self@.position_evaluations =~= seq![None]);
                self.schedule_next_search();
            },
            Err(error) => {
                let mut m = String::new();
                m.append("FEN 无效：");
                let text = error.message();
                m.append(text.as_str());
                self.message = m;
                assert("FEN 无效："@.is_prefix_of(self.message@)) by {
                    assert(self.message@.take("FEN 无效："@.len() as int) =~= "FEN 无效："@);
                }
            },
        }
    }

    /// Switches who plays by hand.
    pub fn set_human_mode(&mut self, mode: HumanMode)
        requires
            old(self).wf(),
        ensures
            final(self).wf(),
            final(self)@ == mode_set(old(self)@, mode),
    {
        self.invalidate_search();
        self.human_mode = mode;
        let mut m = String::new();
        m.append("已切换为 ");
        m.append(mode.label());
        self.message = m;
        self.schedule_next_search();
    }

    /// Plays the move typed as notation or coordinates, if the player may
    /// move now.
    pub fn play_notation(&mut self, input: &str)
        requires
            old(self).wf(),
            !App::spec_search_blocks_moves(old(self)@) && old(self)@.human_mode.spec_is_human_turn(
                old(self)@.game.side(),
            ) ==> !splits_char(input@),
        ensures
            final(self).wf(),
            notation_played(old(self)@, input@, final(self)@),
    {
        if self.search_blocks_moves() {
            self.message = "电脑正在思考，输入 停止 可中止".to_string();
            return;
        }
        let side = self.game.side_to_move();
        if !self.human_mode.is_human_turn(side) {
            let mut m = String::new();
            m.append("现在由");
            m.append(color_name(side));
            m.append("电脑走棋");
            self.message = m;
            return;
        }
        let legal = self.game.legal_moves();
        let board = self.game.position();
        match crate::notation::parse_move(input, &board, legal.as_slice()) {
            Ok(mv) => {
                self.play_move(mv);
            },
            Err(error) => {
                self.message = error.message();
                proof {
                    if error@ is Illegal {
                        let sugg = error@->Illegal_0;
                        assert(crate::notation::is_suggestion_list(sugg, crate::text::trim(input@), board@, legal@));
                    }
                }
            },
        }
    }

    /// Carries out a difficulty command with argument `argument`.
    pub fn handle_difficulty_command(&mut self, argument: &str)
        requires
            old(self).wf(),
        ensures
            final(self).wf(),
            final(self)@ == difficulty_set(old(self)@, argument@),
    {
        let value = trim_marks(argument);
        if value.unicode_len() == 0 {
            self.message = crate::skill::difficulty_message(self.difficulty, true);
            return;
        }
        let difficulty = match Difficulty::parse(value) {
            Ok(difficulty) => difficulty,
            Err(error) => {
                self.message = error;
                return;
            },
        };
        proof {
            crate::skill::lemma_difficulty_eq(difficulty, self.difficulty);
        }
        if difficulty == self.difficulty {
            self.message = crate::skill::difficulty_message(difficulty, true);
            return;
        }
        self.invalidate_search();
        self.difficulty = difficulty;
        self.message = crate::skill::difficulty_message(difficulty, false);
        self.schedule_next_search();
    }

    /// Carries out a typed command, or plays it as a move.
    pub fn execute_command(&mut self, command: &str)
        requires
            old(self).wf(),
            reads_move(old(self)@, command@) ==> !splits_char(command@),
        ensures
            final(self).wf(),
            command_done(old(self)@, command@, final(self)@),
    {
        let cs = crate::text::chars_of(command);
        let lower = crate::text::compact_lower(cs.as_slice());
        let lower_text = crate::text::string_of(lower.as_slice());
        if let Some(argument) = difficulty_argument(lower_text.as_str()) {
            self.handle_difficulty_command(argument);
            return;
        }
        let kind = command_kind(lower.as_slice());
        match kind {
            CommandKind::NewGame => self.new_game(),
            CommandKind::Undo => self.undo_for_human(),
            CommandKind::Hint => self.start_search(SearchPurpose::Hint, self.think_time_ms),
            CommandKind::Analyze => {
                let long: u64 = if self.think_time_ms <= u64::MAX / 3 {
                    self.think_time_ms * 3
                } else {
                    u64::MAX
                };
                self.start_search(SearchPurpose::Hint, long);
            },
            CommandKind::Stop => self.cancel_search("已停止思考"),
            CommandKind::Rotate => {
                self.flipped = !self.flipped;
                self.message = "棋盘已翻转".to_string();
            },
            CommandKind::PlayRed => self.set_human_mode(HumanMode::Side(Color::Red)),
            CommandKind::PlayBlack => self.set_human_mode(HumanMode::Side(Color::Black)),
            CommandKind::PlayBoth => self.set_human_mode(HumanMode::Both),
            CommandKind::TextPieces => {
                self.emoji_pieces = false;
                self.message = "已切换为中文棋子".to_string();
            },
            CommandKind::EmojiPieces => {
                self.emoji_pieces = true;
                self.message = "已切换为 Unicode 象棋棋子".to_string();
            },
            CommandKind::Help => {
                self.message = "着法示例 马二进三；命令 新局 悔棋 提示 分析 停止 翻转 执红 执黑 双人 难度1-20 退出".to_string();
            },
            CommandKind::Quit => {
                self.quit = true;
            },
            CommandKind::Fen => {
                let fen = fen_argument_of(cs.as_slice());
                self.load_fen(fen.as_str());
            },
            CommandKind::Move => self.play_notation(command),
        }
    }

    /// Submits the input line: clears it, remembers it, and carries it out.
    pub fn submit_input(&mut self)
        requires
            old(self).wf(),
            !submission_panics(old(self)@),
        ensures
            final(self).wf(),
            submitted(old(self)@, final(self)@),
    {
        let trimmed = crate::text::trim_chars(self.input.as_slice());
        let command = crate::text::string_of(trimmed.as_slice());
        self.input.clear();
        self.history_index = None;
        if trimmed.len() == 0 {
            return;
        }
        let n = self.input_history.len();
        let repeated = n > 0 && crate::text::chars_eq(
            crate::text::chars_of(self.input_history[n - 1].as_str()).as_slice(),
            trimmed.as_slice(),
        );
        if !repeated {
            let ghost before = self.input_history@;
            self.input_history.push(command.clone());
            assert(self.input_history@.map_values(|s: String| s@) =~= before.map_values(|s: String| s@).push(command@));
        }
        proof {
            crate::text::lemma_trim_idem(old(self)@.input);
        }
        self.execute_command(command.as_str());
    }

    /// Handles a key press in the input line.
    pub fn handle_input_key(&mut self, key: KeyInput)
        requires
            old(self).wf(),
            key.code == KeyCode::Enter ==> !submission_panics(old(self)@),
        ensures
            final(self).wf(),
            input_key_done(old(self)@, key, final(self)@),
    {
        match key.code {
            KeyCode::Enter => self.submit_input(),
            KeyCode::Backspace => {
                self.input.pop();
                self.history_index = None;
            },
            KeyCode::Esc => {
                self.input.clear();
                self.history_index = None;
            },
            KeyCode::Up => self.previous_input(),
            KeyCode::Down => self.next_input(),
            KeyCode::Char(c) => {
                if !key.control && !key.alt {
                    self.input.push(c);
                    self.history_index = None;
                }
            },
            _ => {},
        }
    }

    /// Handles a key press on the board.
    pub fn handle_board_key(&mut self, key: KeyInput)
        requires
            old(self).wf(),
        ensures
            final(self).wf(),
            board_key_done(old(self)@, key, final(self)@),
    {
        match key.code {
            KeyCode::Up | KeyCode::Char('k') => self.move_cursor(0, 1),
            KeyCode::Down | KeyCode::Char('j') => self.move_cursor(0, -1),
            KeyCode::Left | KeyCode::Char('h') => self.move_cursor(-1, 0),
            KeyCode::Right | KeyCode::Char('l') => self.move_cursor(1, 0),
            KeyCode::Enter | KeyCode::Char(' ') => self.activate_board_square(),
            KeyCode::Esc => self.clear_selection(),
            KeyCode::Char(':') => {
                self.focus = Focus::Input;
            },
            KeyCode::Char('/') => {
                self.focus = Focus::Input;
                self.input.push('/');
            },
            _ => {},
        }
    }

    /// Handles a key press.
    pub fn handle_key(&mut self, key: KeyInput)
        requires
            old(self).wf(),
            key_submits(old(self)@, key) ==> !submission_panics(old(self)@),
        ensures
            final(self).wf(),
            key_done(old(self)@, key, final(self)@),
    {
        if key.control && key.code == KeyCode::Char('c') {
            self.quit = true;
            return;
        }
        if key.code == KeyCode::Tab {
            self.focus = match self.focus {
                Focus::Input => Focus::Board,
                Focus::Board => Focus::Input,
            };
            return;
        }
        match self.focus {
            Focus::Input => self.handle_input_key(key),
            Focus::Board => self.handle_board_key(key),
        }
    }

    /// Handles what the terminal reports: key presses, and pasted text,
    /// which goes into the input line when it has the focus.
    pub fn handle_event(&mut self, event: InputEvent)
        requires
            old(self).wf(),
            event is Key && key_submits(old(self)@, event->Key_0) ==> !submission_panics(old(self)@),
        ensures
            final(self).wf(),
            match event {
                InputEvent::Key(key) => key_done(old(self)@, key, final(self)@),
                InputEvent::Paste(text) => if old(self)@.focus == Focus::Input {
                    final(self)@ == (AppView { input: old(self)@.input + text@, ..old(self)@ })
                } else {
                    final(self)@ == old(self)@
                },
                InputEvent::Other => final(self)@ == old(self)@,
            },
    {
        match event {
            InputEvent::Key(key) => {
                self.handle_key(key);
            },
            InputEvent::Paste(text) => {
                if self.focus == Focus::Input {
                    append_chars(&mut self.input, text.as_str());
                }
            },
            InputEvent::Other => {},
        }
    }

    /// Chooses the point under the cursor: selects a piece, plays a move to
    /// a highlighted point, or drops the selection.
    pub fn activate_board_square(&mut self)
        requires
            old(self).wf(),
        ensures
            final(self).wf(),
            square_activated(old(self)@, final(self)@),
    {
        if self.search_blocks_moves() {
            self.message = "电脑正在思考".to_string();
            return;
        }
        let side = self.game.side_to_move();
        if !self.human_mode.is_human_turn(side) {
            let mut m = String::new();
            m.append("现在由");
            m.append(color_name(side));
            m.append("走棋");
            self.message = m;
            return;
        }
        if let Some(selected) = self.selected {
            if selected == self.cursor {
                self.clear_selection();
                return;
            }
            if let Some(mv) = first_move_to(self.selected_moves.as_slice(), self.cursor) {
                self.clear_selection();
                self.play_move(mv);
                return;
            }
        }
        let piece = self.game.piece_at(self.cursor);
        let own = match piece {
            Some(p) => p.color == side,
            None => false,
        };
        if own {
            self.selected = Some(self.cursor);
            self.selected_moves = self.game.legal_moves_from(self.cursor);
            if self.selected_moves.len() == 0 {
                self.message = "这枚棋子当前不能走".to_string();
            } else {
                let mut m = String::new();
                m.append("有 ");
                push_decimal(&mut m, self.selected_moves.len() as u64);
                m.append(" 个合法落点");
                self.message = m;
            }
        } else {
            self.message = "这里没有当前一方的棋子".to_string();
        }
    }

    /// Takes back the last move, and more until it is the player's turn.
    pub fn undo_for_human(&mut self)
        requires
            old(self).wf(),
        ensures
            final(self).wf(),
            final(self)@ == undo_view(old(self)@),
    {
        self.invalidate_search();
        let record = match self.game.undo() {
            Some(record) => record,
            None => {
                self.message = "还没有棋可悔".to_string();
                self.schedule_next_search();
                return;
            },
        };
        if let HumanMode::Side(human) = self.human_mode {
            undo_until_turn(&mut self.game, human);
        }
        let keep = self.game.history().len().saturating_add(1);
        let ghost ev = self.position_evaluations@;
        self.position_evaluations.truncate(keep);
        assert(self.position_evaluations@ == evaluations_truncated(ev, succ_len(self.game@.moves.len())));
        assert(self.game@ == match old(self)@.human_mode {
            HumanMode::Side(human) => undone_until(old(self)@.game.undone(), human),
            HumanMode::Both => old(self)@.game.undone(),
        });
        self.clear_selection();
        self.hint_move = None;
        self.analysis_lines.clear();
        assert(self@.analysis_lines =~= Map::<u32, LineView>::empty());
        let mut m = String::new();
        m.append("已撤销 ");
        m.append(record.notation.as_str());
        self.message = m;
        assert(self.message@ == "已撤销 "@ + old(self)@.game.records.last().notation);
        self.schedule_next_search();
    }
}

// ---------------------------------------------------------------------------
// What the actions do, as functions of the state
// ---------------------------------------------------------------------------

/// The evaluations after a report for position `index`: ignored without a
/// score or mate, for a position without a slot, or when the slot already
/// holds a deeper evaluation.
pub open spec fn evaluation_updated(
    e: Seq<Option<PositionEvaluation>>,
    index: int,
    depth: u32,
    score_cp_red: Option<i32>,
    mate_red: Option<i32>,
) -> Seq<Option<PositionEvaluation>> {
    if (score_cp_red is None && mate_red is None) || index < 0 || index >= e.len() || (e[index] is Some
        && e[index]->0.depth > depth) {
        e
    } else {
        e.update(index, Some(PositionEvaluation { score_cp_red, mate_red, depth }))
    }
}

/// The state after a move with notation `notation` has been played: a
/// finished game is announced with its winner (and the evaluation of the
/// final position records the mate); otherwise the notation is shown, with
/// a warning when the side to move is in check, and the next search starts.
#[verifier::opaque]
pub open spec fn after_move_view(v: AppView, notation: Seq<char>) -> AppView {
    match spec_state(v.game.fen()) {
        PositionState::Won { winner, by_checkmate } => AppView {
            position_evaluations: evaluation_updated(
                v.position_evaluations,
                v.game.moves.len() as int,
                0,
                None,
                Some(
                    if winner == Color::Red {
                        1i32
                    } else {
                        -1i32
                    },
                ),
            ),
            message: (if by_checkmate {
                "将死"@
            } else {
                "困毙"@
            }) + "，"@ + side_name(winner) + "获胜"@,
            thinking: false,
            ..v
        },
        PositionState::Check(side) => scheduled(
            AppView { message: notation + "，"@ + side_name(side) + "被将军"@, ..v },
        ),
        PositionState::Playing => scheduled(AppView { message: notation, ..v }),
    }
}

/// The announcement when a game has ended: how it ended, and the winner.
pub open spec fn end_announcement(by_checkmate: bool, winner: Color) -> Seq<char> {
    (if by_checkmate {
        "将死"@
    } else {
        "困毙"@
    }) + "，"@ + side_name(winner) + "获胜"@
}

/// When the game is over after a move, the message announces the winner
/// that the game's state reports, which is the side that is not to move:
/// the side that made the move.
pub proof fn lemma_end_announces_winner(v: AppView, notation: Seq<char>)
    requires
        spec_state(v.game.fen()) is Won,
    ensures
        after_move_view(v, notation).message == end_announcement(
            spec_state(v.game.fen())->by_checkmate,
            spec_state(v.game.fen())->winner,
        ),
        spec_state(v.game.fen())->winner == v.game.side().spec_flip(),
        after_move_view(v, notation).game == v.game,
{
    reveal(after_move_view);
}

/// The state after `mv` is tried: the running search is given up; a legal
/// move is played and recorded, the cursor follows it, selection, hint and
/// analysis are cleared, and the game goes on as [`after_move_view`] says;
/// an illegal move only shows why.
pub open spec fn played_view(v: AppView, mv: Move) -> AppView {
    let v1 = invalidated(v);
    if v.game.legal().contains(mv) {
        let game = v.game.played(mv);
        let v2 = AppView {
            game,
            position_evaluations: evaluations_resized(v1.position_evaluations, succ_len(game.moves.len())),
            cursor: mv.dst,
            selected: None,
            selected_moves: Seq::empty(),
            hint_move: None,
            analysis_lines: Map::empty(),
            ..v1
        };
        after_move_view(v2, move_notation_on(v.game, mv))
    } else {
        AppView { message: "这步棋不合法"@, ..v1 }
    }
}

/// The notation of `mv` in the current position of `g`.
pub open spec fn move_notation_on(g: GameView, mv: Move) -> Seq<char> {
    crate::notation::move_notation(crate::game::board_of(g.fen()), mv)
}

/// The game after moves are taken back until `human` is to move or none is
/// left.
pub open spec fn undone_until(g: GameView, human: Color) -> GameView
    decreases g.moves.len(),
{
    if g.side() == human || g.moves.len() == 0 {
        g
    } else {
        undone_until(g.undone(), human)
    }
}

/// The evaluations cut to at most `n`.
pub open spec fn evaluations_truncated(e: Seq<Option<PositionEvaluation>>, n: int) -> Seq<Option<PositionEvaluation>> {
    if e.len() > n {
        e.take(n)
    } else {
        e
    }
}

/// The state after the player takes back a move: the running search is
/// given up; with nothing to take back that is said; otherwise the last move
/// is taken back, and then further moves until it is the player's turn
/// (when one side plays by hand); selection, hint and analysis are cleared,
/// the evaluations of dropped positions forgotten, and the next search
/// starts.
pub open spec fn undo_view(v: AppView) -> AppView {
    let v1 = invalidated(v);
    if v.game.moves.len() == 0 {
        scheduled(AppView { message: "还没有棋可悔"@, ..v1 })
    } else {
        let g1 = v.game.undone();
        let game = match v.human_mode {
            HumanMode::Side(human) => undone_until(g1, human),
            HumanMode::Both => g1,
        };
        scheduled(
            AppView {
                game,
                position_evaluations: evaluations_truncated(v1.position_evaluations, succ_len(game.moves.len())),
                selected: None,
                selected_moves: Seq::empty(),
                hint_move: None,
                analysis_lines: Map::empty(),
                message: "已撤销 "@ + v.game.records.last().notation,
                ..v1
            },
        )
    }
}

/// Takes back moves until `human` is to move or none is left.
fn undo_until_turn(game: &mut Game, human: Color)
    requires
        old(game).wf(),
    ensures
        final(game).wf(),
        final(game)@ == undone_until(old(game)@, human),
{
    while game.side_to_move() != human && game.history().len() != 0
        invariant
            game.wf(),
            undone_until(game@, human) == undone_until(old(game)@, human),
        decreases game@.moves.len(),
    {
        game.undo();
    }
}

/// A fresh game from the standard starting position.
pub open spec fn start_game() -> GameView {
    GameView::fresh(crate::rules::start_root())
}

/// The state with a fresh game from `game`: selection, hint, analysis and
/// evaluations cleared, `message` shown, and the next search started.
pub open spec fn restarted(v: AppView, game: GameView, message: Seq<char>) -> AppView {
    scheduled(
        AppView {
            game,
            selected: None,
            selected_moves: Seq::empty(),
            hint_move: None,
            analysis_lines: Map::empty(),
            position_evaluations: seq![None],
            message,
            ..v
        },
    )
}

/// The state after the player switches who plays by hand.
pub open spec fn mode_set(v: AppView, mode: HumanMode) -> AppView {
    scheduled(AppView { human_mode: mode, message: "已切换为 "@ + mode.spec_label(), ..invalidated(v) })
}

/// Whether the state after typed notation is as reading it says: refused
/// while the computer thinks or on its turn; otherwise the move read is
/// played, or the reading error is shown.
pub open spec fn notation_played(v: AppView, input: Seq<char>, after: AppView) -> bool {
    if App::spec_search_blocks_moves(v) {
        after == AppView { message: "电脑正在思考，输入 停止 可中止"@, ..v }
    } else if !v.human_mode.spec_is_human_turn(v.game.side()) {
        after == AppView { message: "现在由"@ + side_name(v.game.side()) + "电脑走棋"@, ..v }
    } else {
        let board = crate::game::board_of(v.game.fen());
        match crate::notation::spec_parse_move(input, board, v.game.legal()) {
            crate::notation::ParseOutcome::Move(m) => after == played_view(v, m),
            crate::notation::ParseOutcome::Empty => after == AppView {
                message: crate::notation::MoveInputError::spec_message(
                    crate::notation::InputErrorView::Empty,
                ),
                ..v
            },
            crate::notation::ParseOutcome::Illegal => exists|s: Seq<Seq<char>>|
                crate::notation::is_suggestion_list(s, crate::text::trim(input), board, v.game.legal())
                    && after == AppView {
                    message: crate::notation::MoveInputError::spec_message(
                        crate::notation::InputErrorView::Illegal(s),
                    ),
                    ..v
                },
            crate::notation::ParseOutcome::Ambiguous(c) => after == AppView {
                message: crate::notation::MoveInputError::spec_message(
                    crate::notation::InputErrorView::Ambiguous(c),
                ),
                ..v
            },
        }
    }
}

/// The argument of a difficulty command: what follows `难度`,
/// `/difficulty` or `difficulty`.
pub open spec fn difficulty_arg(c: Seq<char>) -> Option<Seq<char>> {
    if "难度"@.len() <= c.len() && c.take("难度"@.len() as int) == "难度"@ {
        Some(c.skip("难度"@.len() as int))
    } else if "/difficulty"@.len() <= c.len() && c.take("/difficulty"@.len() as int) == "/difficulty"@ {
        Some(c.skip("/difficulty"@.len() as int))
    } else if "difficulty"@.len() <= c.len() && c.take("difficulty"@.len() as int) == "difficulty"@ {
        Some(c.skip("difficulty"@.len() as int))
    } else {
        None
    }
}

/// `s` without the `:`, `：` and `=` it starts with.
pub open spec fn strip_marks(s: Seq<char>) -> Seq<char>
    decreases s.len(),
{
    if s.len() > 0 && (s[0] == ':' || s[0] == '：' || s[0] == '=') {
        strip_marks(s.drop_first())
    } else {
        s
    }
}

/// The state after a difficulty command with argument `arg`: without a
/// level the current one is reported; an invalid level is refused; the
/// current level is reported again; a new level gives up the running search,
/// is set and reported, and the next search starts.
pub open spec fn difficulty_set(v: AppView, arg: Seq<char>) -> AppView {
    let value = strip_marks(arg);
    if value.len() == 0 {
        AppView { message: crate::skill::difficulty_message_text(v.difficulty, true), ..v }
    } else {
        match crate::text::parse_unsigned(value, u8::MAX as nat) {
            Some(level) if 1 <= level <= 20 => if level == v.difficulty {
                AppView { message: crate::skill::difficulty_message_text(v.difficulty, true), ..v }
            } else {
                scheduled(
                    AppView {
                        difficulty: level as u8,
                        message: crate::skill::difficulty_message_text(level as u8, false),
                        ..invalidated(v)
                    },
                )
            },
            _ => AppView { message: crate::skill::difficulty_error_text(), ..v },
        }
    }
}

/// The argument of a difficulty command, if `command` is one.
pub fn difficulty_argument(command: &str) -> (r: Option<&str>)
    ensures
        match difficulty_arg(command@) {
            Some(a) => r is Some && r->0@ == a,
            None => r is None,
        },
{
    let cs = crate::text::chars_of(command);
    let n = command.unicode_len();
    let p1 = crate::text::chars_of("难度");
    if crate::text::starts_with(cs.as_slice(), p1.as_slice()) {
        return Some(command.substring_char(p1.len(), n));
    }
    let p2 = crate::text::chars_of("/difficulty");
    if crate::text::starts_with(cs.as_slice(), p2.as_slice()) {
        return Some(command.substring_char(p2.len(), n));
    }
    let p3 = crate::text::chars_of("difficulty");
    if crate::text::starts_with(cs.as_slice(), p3.as_slice()) {
        return Some(command.substring_char(p3.len(), n));
    }
    None
}

/// `s` without the `:`, `：` and `=` it starts with.
fn trim_marks(s: &str) -> (r: &str)
    ensures
        r@ == strip_marks(s@),
{
    let cs = crate::text::chars_of(s);
    let mut i: usize = 0;
    assert(s@.skip(0) == s@);
    while i < cs.len() && (cs[i] == ':' || cs[i] == '：' || cs[i] == '=')
        invariant
            cs@ == s@,
            i <= cs@.len(),
            strip_marks(s@) == strip_marks(s@.skip(i as int)),
        decreases cs@.len() - i,
    {
        assert(s@.skip(i as int).drop_first() == s@.skip(i + 1));
        i = i + 1;
    }
    let n = s.unicode_len();
    s.substring_char(i, n)
}

/// The help text for commands.
pub open spec fn help_text() -> Seq<char> {
    "着法示例 马二进三；命令 新局 悔棋 提示 分析 停止 翻转 执红 执黑 双人 难度1-20 退出"@
}

/// The text after the first `:` or `：` of `c`, trimmed; empty without one.
pub open spec fn fen_argument(c: Seq<char>) -> Seq<char>
    decreases c.len(),
{
    if c.len() == 0 {
        Seq::empty()
    } else if c[0] == ':' || c[0] == '：' {
        crate::text::trim(c.drop_first())
    } else {
        fen_argument(c.drop_first())
    }
}

/// Whether `after` is what loading FEN text `fen` makes of `v`.
pub open spec fn fen_loaded(v: AppView, fen: Seq<char>, after: AppView) -> bool {
    match crate::game::loaded_root(fen) {
        Some(root) => after == restarted(invalidated(v), GameView::fresh(root), "局面已载入"@),
        None => after == (AppView { message: after.message, ..invalidated(v) })
            && "FEN 无效："@.is_prefix_of(after.message),
    }
}

/// The commands that can be typed, besides difficulty commands and moves.
#[derive(Debug, Clone, Copy, PartialEq, Eq, Structural)]
pub enum CommandKind {
    NewGame,
    Undo,
    Hint,
    Analyze,
    Stop,
    Rotate,
    PlayRed,
    PlayBlack,
    PlayBoth,
    TextPieces,
    EmojiPieces,
    Help,
    Quit,
    Fen,
    Move,
}

/// Which command a word (without whitespace, ASCII letters small) names.
pub open spec fn spec_command_kind(w: Seq<char>) -> CommandKind {
    if w == "新局"@ || w == "新棋"@ || w == "new"@ || w == "/new"@ {
        CommandKind::NewGame
    } else if w == "悔棋"@ || w == "undo"@ || w == "/undo"@ {
        CommandKind::Undo
    } else if w == "提示"@ || w == "hint"@ || w == "/hint"@ {
        CommandKind::Hint
    } else if w == "分析"@ || w == "analyze"@ || w == "/analyze"@ {
        CommandKind::Analyze
    } else if w == "停止"@ || w == "stop"@ || w == "/stop"@ {
        CommandKind::Stop
    } else if w == "翻转"@ || w == "rotate"@ || w == "/rotate"@ {
        CommandKind::Rotate
    } else if w == "执红"@ || w == "红方"@ || w == "/red"@ {
        CommandKind::PlayRed
    } else if w == "执黑"@ || w == "黑方"@ || w == "/black"@ {
        CommandKind::PlayBlack
    } else if w == "双人"@ || w == "/both"@ {
        CommandKind::PlayBoth
    } else if w == "中文棋子"@ || w == "/text"@ {
        CommandKind::TextPieces
    } else if w == "emoji"@ || w == "表情棋子"@ || w == "/emoji"@ {
        CommandKind::EmojiPieces
    } else if w == "帮助"@ || w == "help"@ || w == "/help"@ {
        CommandKind::Help
    } else if w == "退出"@ || w == "quit"@ || w == "exit"@ || w == "/quit"@ || w == "/exit"@ {
        CommandKind::Quit
    } else if ("fen:"@.len() <= w.len() && w.take("fen:"@.len() as int) == "fen:"@) || (
    "fen："@.len() <= w.len() && w.take("fen："@.len() as int) == "fen："@) {
        CommandKind::Fen
    } else {
        CommandKind::Move
    }
}

/// Thinking time three times over, as far as `u64` reaches.
pub open spec fn triple_time(t: u64) -> u64 {
    if t * 3 > u64::MAX {
        u64::MAX
    } else {
        (t * 3) as u64
    }
}

/// Whether `after` is what the command `command` makes of `v`. Commands are
/// read without whitespace and with ASCII letters made small: a difficulty
/// command, one of the named commands, `fen:` with a position, and anything
/// else is a move.
pub open spec fn command_done(v: AppView, command: Seq<char>, after: AppView) -> bool {
    let w = crate::text::lower_seq(crate::text::without_ws(command));
    match difficulty_arg(w) {
        Some(arg) => after == difficulty_set(v, arg),
        None => match spec_command_kind(w) {
            CommandKind::NewGame => after == restarted(invalidated(v), start_game(), "新的一局，红方先行"@),
            CommandKind::Undo => after == undo_view(v),
            CommandKind::Hint => after == started_search(v, SearchPurpose::Hint, v.think_time_ms),
            CommandKind::Analyze => after == started_search(v, SearchPurpose::Hint, triple_time(v.think_time_ms)),
            CommandKind::Stop => after == (AppView { message: "已停止思考"@, ..invalidated(v) }),
            CommandKind::Rotate => after == (AppView { flipped: !v.flipped, message: "棋盘已翻转"@, ..v }),
            CommandKind::PlayRed => after == mode_set(v, HumanMode::Side(Color::Red)),
            CommandKind::PlayBlack => after == mode_set(v, HumanMode::Side(Color::Black)),
            CommandKind::PlayBoth => after == mode_set(v, HumanMode::Both),
            CommandKind::TextPieces => after == (AppView { emoji_pieces: false, message: "已切换为中文棋子"@, ..v }),
            CommandKind::EmojiPieces => after == (AppView { emoji_pieces: true, message: "已切换为 Unicode 象棋棋子"@, ..v }),
            CommandKind::Help => after == (AppView { message: help_text(), ..v }),
            CommandKind::Quit => after == (AppView { quit: true, ..v }),
            CommandKind::Fen => fen_loaded(v, fen_argument(command), after),
            CommandKind::Move => notation_played(v, command, after),
        },
    }
}

/// Typed text that would be cut inside a character when read as ICCS
/// coordinates; reading it fails outright, so it is kept out.
pub open spec fn splits_char(input: Seq<char>) -> bool {
    crate::iccs::iccs_splits_char(crate::notation::coordinate_text(crate::text::trim(input)))
}

/// Whether carrying out `command` comes to reading it as a move: it is no
/// command, and the player may move now.
pub open spec fn reads_move(v: AppView, command: Seq<char>) -> bool {
    let w = crate::text::lower_seq(crate::text::without_ws(command));
    &&& difficulty_arg(w) is None
    &&& spec_command_kind(w) == CommandKind::Move
    &&& !App::spec_search_blocks_moves(v)
    &&& v.human_mode.spec_is_human_turn(v.game.side())
}

/// Whether submitting the input line would fail: it would be read as a move
/// and cuts a character in two when read as coordinates.
pub open spec fn submission_panics(v: AppView) -> bool {
    reads_move(v, crate::text::trim(v.input)) && splits_char(v.input)
}

/// Whether `after` is what submitting the input line makes of `v`: the line
/// is trimmed and cleared, an empty line does nothing more, a line unlike
/// the previous one joins the history, and the line is carried out.
pub open spec fn submitted(v: AppView, after: AppView) -> bool {
    let command = crate::text::trim(v.input);
    let v1 = AppView { input: Seq::empty(), history_index: None, ..v };
    if command.len() == 0 {
        after == v1
    } else {
        let history = if v.input_history.len() > 0 && v.input_history.last() == command {
            v.input_history
        } else {
            v.input_history.push(command)
        };
        command_done(AppView { input_history: history, ..v1 }, command, after)
    }
}

/// The first of `moves` that ends on `dst`.
pub open spec fn first_to(moves: Seq<Move>, dst: Square) -> Option<Move>
    decreases moves.len(),
{
    if moves.len() == 0 {
        None
    } else if moves[0].dst == dst {
        Some(moves[0])
    } else {
        first_to(moves.drop_first(), dst)
    }
}

/// Whether `after` is what choosing the point under the cursor makes of
/// `v`: refused while the computer thinks or on its turn; choosing the
/// selected piece again drops it; choosing a point it can move to plays that
/// move; choosing a piece of the side to move selects it with its moves;
/// anything else is refused.
pub open spec fn square_activated(v: AppView, after: AppView) -> bool {
    let side = v.game.side();
    if App::spec_search_blocks_moves(v) {
        after == AppView { message: "电脑正在思考"@, ..v }
    } else if !v.human_mode.spec_is_human_turn(side) {
        after == AppView { message: "现在由"@ + side_name(side) + "走棋"@, ..v }
    } else if v.selected is Some && v.selected->0 == v.cursor {
        after == AppView { selected: None, selected_moves: Seq::empty(), ..v }
    } else if v.selected is Some && first_to(v.selected_moves, v.cursor) is Some {
        after == played_view(
            AppView { selected: None, selected_moves: Seq::empty(), ..v },
            first_to(v.selected_moves, v.cursor)->0,
        )
    } else {
        let piece = crate::game::board_of(v.game.fen()).at(v.cursor);
        if piece is Some && piece->0.color == side {
            let moves = v.game.legal().filter(|m: Move| m.src == v.cursor);
            after == AppView {
                selected: Some(v.cursor),
                selected_moves: moves,
                message: if moves.len() == 0 {
                    "这枚棋子当前不能走"@
                } else {
                    "有 "@ + crate::text::dec_string(moves.len()) + " 个合法落点"@
                },
                ..v
            }
        } else {
            after == AppView { message: "这里没有当前一方的棋子"@, ..v }
        }
    }
}

/// Whether `after` is what a key press in the input line makes of `v`.
pub open spec fn input_key_done(v: AppView, key: KeyInput, after: AppView) -> bool {
    match key.code {
        KeyCode::Enter => submitted(v, after),
        KeyCode::Backspace => after == AppView {
            input: if v.input.len() > 0 {
                v.input.drop_last()
            } else {
                v.input
            },
            history_index: None,
            ..v
        },
        KeyCode::Esc => after == AppView { input: Seq::empty(), history_index: None, ..v },
        KeyCode::Up => after == previous_view(v),
        KeyCode::Down => after == next_view(v),
        KeyCode::Char(c) => if !key.control && !key.alt {
            after == AppView { input: v.input.push(c), history_index: None, ..v }
        } else {
            after == v
        },
        _ => after == v,
    }
}

/// The state after stepping back through the commands typed before.
pub open spec fn previous_view(v: AppView) -> AppView {
    if v.input_history.len() == 0 {
        v
    } else {
        let index = match v.history_index {
            None => v.input_history.len() - 1,
            Some(i) => if i == 0 {
                0
            } else {
                i - 1
            },
        };
        AppView { history_index: Some(index as usize), input: v.input_history[index], ..v }
    }
}

/// The state after stepping forward through the commands typed before.
pub open spec fn next_view(v: AppView) -> AppView {
    match v.history_index {
        None => v,
        Some(index) => if index + 1 >= v.input_history.len() {
            AppView { history_index: None, input: Seq::empty(), ..v }
        } else {
            AppView {
                history_index: Some((index + 1) as usize),
                input: v.input_history[index + 1],
                ..v
            }
        },
    }
}

/// Whether `after` is what a key press on the board makes of `v`.
pub open spec fn board_key_done(v: AppView, key: KeyInput, after: AppView) -> bool {
    match key.code {
        KeyCode::Up | KeyCode::Char('k') => after == cursor_moved(v, 0, 1),
        KeyCode::Down | KeyCode::Char('j') => after == cursor_moved(v, 0, -1),
        KeyCode::Left | KeyCode::Char('h') => after == cursor_moved(v, -1, 0),
        KeyCode::Right | KeyCode::Char('l') => after == cursor_moved(v, 1, 0),
        KeyCode::Enter | KeyCode::Char(' ') => square_activated(v, after),
        KeyCode::Esc => after == AppView { selected: None, selected_moves: Seq::empty(), ..v },
        KeyCode::Char(':') => after == AppView { focus: Focus::Input, ..v },
        KeyCode::Char('/') => after == AppView { focus: Focus::Input, input: v.input.push('/'), ..v },
        _ => after == v,
    }
}

/// The state after the cursor moves by one point in screen directions.
pub open spec fn cursor_moved(v: AppView, dx: int, dy: int) -> AppView {
    AppView {
        cursor: Square {
            rank: clamp_to(v.cursor.rank + if v.flipped { -dy } else { dy }, 9),
            file: clamp_to(v.cursor.file + if v.flipped { -dx } else { dx }, 8),
        },
        ..v
    }
}

/// Whether `after` is what a key press makes of `v`: Ctrl-C quits, Tab
/// moves the focus, other keys go where the focus is.
pub open spec fn key_done(v: AppView, key: KeyInput, after: AppView) -> bool {
    if key.control && key.code == KeyCode::Char('c') {
        after == AppView { quit: true, ..v }
    } else if key.code == KeyCode::Tab {
        after == AppView {
            focus: match v.focus {
                Focus::Input => Focus::Board,
                Focus::Board => Focus::Input,
            },
            ..v
        }
    } else {
        match v.focus {
            Focus::Input => input_key_done(v, key, after),
            Focus::Board => board_key_done(v, key, after),
        }
    }
}

/// Whether a key press would submit the input line.
pub open spec fn key_submits(v: AppView, key: KeyInput) -> bool {
    v.focus == Focus::Input && key.code == KeyCode::Enter
}

/// Appends the characters of `text`.
fn append_chars(v: &mut Vec<char>, text: &str)
    ensures
        final(v)@ == old(v)@ + text@,
{
    let cs = crate::text::chars_of(text);
    let mut i: usize = 0;
    while i < cs.len()
        invariant
            i <= cs@.len(),
            cs@ == text@,
            v@ == old(v)@ + cs@.take(i as int),
        decreases cs@.len() - i,
    {
        v.push(cs[i]);
        i = i + 1;
        assert(cs@.take(i as int) == cs@.take(i - 1).push(cs@[i - 1]));
    }
    assert(cs@.take(cs@.len() as int) == cs@);
}

/// Whether `w` is the word `lit`.
fn word_is(w: &[char], lit: &str) -> (r: bool)
    ensures
        r == (w@ == lit@),
{
    crate::text::chars_eq(w, crate::text::chars_of(lit).as_slice())
}

/// Which command a word (without whitespace, ASCII letters small) names.
fn command_kind(w: &[char]) -> (r: CommandKind)
    ensures
        r == spec_command_kind(w@),
{
    if word_is(w, "新局") || word_is(w, "新棋") || word_is(w, "new") || word_is(w, "/new") {
        CommandKind::NewGame
    } else if word_is(w, "悔棋") || word_is(w, "undo") || word_is(w, "/undo") {
        CommandKind::Undo
    } else if word_is(w, "提示") || word_is(w, "hint") || word_is(w, "/hint") {
        CommandKind::Hint
    } else if word_is(w, "分析") || word_is(w, "analyze") || word_is(w, "/analyze") {
        CommandKind::Analyze
    } else if word_is(w, "停止") || word_is(w, "stop") || word_is(w, "/stop") {
        CommandKind::Stop
    } else if word_is(w, "翻转") || word_is(w, "rotate") || word_is(w, "/rotate") {
        CommandKind::Rotate
    } else if word_is(w, "执红") || word_is(w, "红方") || word_is(w, "/red") {
        CommandKind::PlayRed
    } else if word_is(w, "执黑") || word_is(w, "黑方") || word_is(w, "/black") {
        CommandKind::PlayBlack
    } else if word_is(w, "双人") || word_is(w, "/both") {
        CommandKind::PlayBoth
    } else if word_is(w, "中文棋子") || word_is(w, "/text") {
        CommandKind::TextPieces
    } else if word_is(w, "emoji") || word_is(w, "表情棋子") || word_is(w, "/emoji") {
        CommandKind::EmojiPieces
    } else if word_is(w, "帮助") || word_is(w, "help") || word_is(w, "/help") {
        CommandKind::Help
    } else if word_is(w, "退出") || word_is(w, "quit") || word_is(w, "exit") || word_is(w, "/quit")
        || word_is(w, "/exit") {
        CommandKind::Quit
    } else if crate::text::starts_with(w, crate::text::chars_of("fen:").as_slice())
        || crate::text::starts_with(w, crate::text::chars_of("fen：").as_slice()) {
        CommandKind::Fen
    } else {
        CommandKind::Move
    }
}

/// The first of `moves` that ends on `dst`.
fn first_move_to(moves: &[Move], dst: Square) -> (r: Option<Move>)
    ensures
        r == first_to(moves@, dst),
        r is Some ==> moves@.contains(r->0),
{
    let mut i: usize = 0;
    assert(moves@.skip(0) == moves@);
    while i < moves.len()
        invariant
            i <= moves@.len(),
            first_to(moves@, dst) == first_to(moves@.skip(i as int), dst),
        decreases moves@.len() - i,
    {
        assert(moves@.skip(i as int)[0] == moves@[i as int]);
        assert(moves@.skip(i as int).drop_first() == moves@.skip(i + 1));
        if moves[i].dst == dst {
            return Some(moves[i]);
        }
        i = i + 1;
    }
    None
}

/// The text after the first `:` or `：`, trimmed.
fn fen_argument_of(c: &[char]) -> (r: String)
    ensures
        r@ == fen_argument(c@),
{
    let mut i: usize = 0;
    assert(c@.skip(0) == c@);
    while i < c.len()
        invariant
            i <= c@.len(),
            fen_argument(c@) == fen_argument(c@.skip(i as int)),
        decreases c@.len() - i,
    {
        assert(c@.skip(i as int)[0] == c@[i as int]);
        assert(c@.skip(i as int).drop_first() == c@.skip(i + 1));
        if c[i] == ':' || c[i] == '：' {
            let rest = crate::text::chars_from(c, i + 1);
            let t = crate::text::trim_chars(rest.as_slice());
            return crate::text::string_of(t.as_slice());
        }
        i = i + 1;
    }
    String::new()
}

/// One more than `n`, as far as `usize` reaches.
pub open spec fn succ_len(n: nat) -> int {
    if n < usize::MAX {
        n + 1int
    } else {
        usize::MAX as int
    }
}

/// The evaluations cut or padded with empty slots to `n`.
pub open spec fn evaluations_resized(e: Seq<Option<PositionEvaluation>>, n: int) -> Seq<Option<PositionEvaluation>> {
    Seq::new(n as nat, |i: int| if i < e.len() { e[i] } else { None })
}

// ---------------------------------------------------------------------------
// Weakened levels: choosing among the engine's candidate lines
// ---------------------------------------------------------------------------

impl App {
    /// Chooses among the first four analysis lines (in order of their
    /// number) as the engine's skill levels do, drawing one random number per
    /// candidate; a candidate is a line whose first move is in `legal` and
    /// which has a score. Nothing is chosen at full strength or with fewer
    /// than two candidates.
    pub fn pick_ai_candidate(&mut self, legal: &[Move]) -> (r: Option<Move>)
        requires
            old(self).wf(),
        ensures
            final(self).wf(),
            r == skill_choice(old(self)@, legal@).0,
            final(self)@ == (AppView { random_state: skill_choice(old(self)@, legal@).1, ..old(self)@ }),
            r is Some ==> legal@.contains(r->0),
    {
        if self.difficulty.is_full_strength() {
            return None;
        }
        let ghost lv = leading_lines(self@.analysis_lines);
        let lines = first_values(&self.analysis_lines, 4);
        proof {
            lemma_leading_lines(self.analysis_lines@, lines@);
            assert forall|j: int| 0 <= j < lines@.len() implies pv_readable(
                #[trigger] lines@[j]@.info.pv,
            ) by {
                let k = keys_in_order(self.analysis_lines@.dom())[j];
                assert(self.analysis_lines@.contains_key(k));
            }
        }
        let mut cands: Vec<(Move, i32)> = Vec::new();
        let mut scores: Vec<i32> = Vec::new();
        let mut i: usize = 0;
        while i < lines.len()
            invariant
                self.wf(),
                i <= lines@.len(),
                lines@.len() == lv.len(),
                forall|j: int| 0 <= j < lines@.len() ==> (#[trigger] lines@[j])@ == lv[j],
                forall|j: int|
                    0 <= j < lines@.len() ==> pv_readable(#[trigger] lines@[j]@.info.pv),
                cands@ == candidates_of(lv.take(i as int), legal@),
                scores@ == cands@.map_values(|c: (Move, i32)| c.1),
                forall|j: int| 0 <= j < cands@.len() ==> legal@.contains((#[trigger] cands@[j]).0),
            decreases lines@.len() - i,
        {
            let line = lines[i];
            let ghost before = cands@;
            assert(lv.take(i + 1).drop_last() =~= lv.take(i as int));
            assert(lv.take(i + 1).last() == line@);
            if line.info.pv.len() > 0 {
                assert(line@.info.pv[0] == line.info.pv[0]@);
                match iccs_to_move(line.info.pv[0].as_str()) {
                    Some(mv) => {
                        if contains_move(legal, mv) {
                            match analysis_score(&line.info) {
                                Some(score) => {
                                    cands.push((mv, score));
                                    scores.push(score);
                                    assert(cands@ =~= before + seq![(mv, score)]);
                                },
                                None => {
                                    assert(cands@ =~= before + Seq::<(Move, i32)>::empty());
                                },
                            }
                        } else {
                            assert(cands@ =~= before + Seq::<(Move, i32)>::empty());
                        }
                    },
                    None => {
                        assert(cands@ =~= before + Seq::<(Move, i32)>::empty());
                    },
                }
            } else {
                assert(cands@ =~= before + Seq::<(Move, i32)>::empty());
            }
            assert(scores@ =~= cands@.map_values(|c: (Move, i32)| c.1));
            i = i + 1;
        }
        assert(lv.take(lines@.len() as int) =~= lv);
        if cands.len() < 2 {
            return None;
        }
        let level = self.difficulty.level();
        let weakness: u8 = match self.difficulty.weakness() {
            Some(w) => w,
            None => {
                return None;
            },
        };
        let ghost start = self.random_state;
        let rolls = draw_rolls(&mut self.random_state, weakness as u32, scores.len());
        let index = pick_skill_index(scores.as_slice(), self.difficulty, rolls.as_slice());
        proof {
            let v = old(self)@;
            assert(v.difficulty == self.difficulty@);
            assert(lv == leading_lines(v.analysis_lines));
            assert(cands@ == candidates_of(leading_lines(v.analysis_lines), legal@));
            assert(weakness as u32 == (120 - 2 * v.difficulty) as u32);
            assert(start == v.random_state);
            assert(scores@.len() == cands@.len());
        }
        Some(cands[index].0)
    }

    /// Once a weakened search reaches the depth at which its level decides,
    /// with four lines all reported at that depth, fixes the move the
    /// computer will play.
    pub fn maybe_cache_skill_move(&mut self, id: u64, purpose: SearchPurpose, depth: Option<u32>)
        requires
            old(self).wf(),
        ensures
            final(self).wf(),
            final(self)@ == skill_cached(old(self)@, id, purpose, depth),
    {
        reveal(skill_cached);
        let target: u32 = match self.difficulty.selection_depth() {
            Some(t) => t,
            None => {
                return;
            },
        };
        match purpose {
            SearchPurpose::AiMove => {},
            _ => {
                return;
            },
        }
        match depth {
            Some(d) => {
                if d != target {
                    return;
                }
            },
            None => {
                return;
            },
        }
        match self.active_search {
            Some(active) => {
                if active.id != id || active.skill_move.is_some() {
                    return;
                }
            },
            None => {
                return;
            },
        }
        let ghost lv = leading_lines(self@.analysis_lines);
        let lines = first_values(&self.analysis_lines, 4);
        proof {
            lemma_leading_lines(self.analysis_lines@, lines@);
        }
        if lines.len() != 4 {
            return;
        }
        let all_at_target = depth_is(lines[0], target) && depth_is(lines[1], target) && depth_is(
            lines[2],
            target,
        ) && depth_is(lines[3], target);
        if !all_at_target {
            proof {
                let j: int = if lv[0].info.depth != Some(target) {
                    0
                } else if lv[1].info.depth != Some(target) {
                    1
                } else if lv[2].info.depth != Some(target) {
                    2
                } else {
                    3
                };
                assert(lv[j].info.depth != Some(target));
            }
            return;
        }
        assert(forall|j: int| 0 <= j < 4 ==> (#[trigger] lv[j]).info.depth == Some(target)) by {
            assert(lines@[0]@ == lv[0]);
            assert(lines@[1]@ == lv[1]);
            assert(lines@[2]@ == lv[2]);
            assert(lines@[3]@ == lv[3]);
        }
        let legal = self.game.legal_moves();
        let picked = self.pick_ai_candidate(legal.as_slice());
        match picked {
            Some(mv) => {
                match self.active_search {
                    Some(active) => {
                        if active.id == id {
                            self.active_search = Some(ActiveSearch { skill_move: Some(mv), ..active });
                        }
                    },
                    None => {},
                }
            },
            None => {},
        }
    }
}

// ---------------------------------------------------------------------------
// Engine reports
// ---------------------------------------------------------------------------

impl App {
    /// Takes in what the engine worker reports.
    ///
    /// * `Ready`: the engine's name is shown (with a note when the built-in
    ///   engine stands in), and the next search starts unless one is running.
    /// * `Error`: the text is shown.
    /// * `Info` for the running search: the line's scores are turned to
    ///   red's view, its moves written in notation, and it is stored under
    ///   its number; the main line also updates the evaluation of the
    ///   searched position and, outside background evaluation, the hint; a
    ///   weakened level may fix its move. Reports for other searches are
    ///   ignored.
    /// * `BestMove` for the running search ends it. A hint is shown, or the
    ///   computer's move played (the move a weakened level fixed or picks,
    ///   else the engine's); an engine move that is missing, unreadable or
    ///   illegal is reported instead.
    pub fn handle_ai_event(&mut self, event: AiEvent)
        requires
            old(self).wf(),
            !event_panics(old(self)@, event@),
        ensures
            final(self).wf(),
            final(self)@ == ai_event_handled(old(self)@, event@),
    {
        match event {
            AiEvent::Ready { name, external } => {
                self.engine_name = name;
                self.external_engine = external;
                if !external {
                    self.message = "正在使用内置轻量引擎；配置 Pikafish 后可获得更强棋力".to_string();
                }
                if self.active_search.is_none() {
                    self.schedule_next_search();
                }
            },
            AiEvent::Error(error) => {
                self.message = error;
            },
            AiEvent::Info { id, purpose, info } => {
                self.handle_info(id, purpose, info);
            },
            AiEvent::BestMove { id, purpose, best_move, ponder: _ } => {
                self.handle_best_move(id, purpose, best_move);
            },
        }
    }

    /// Takes in an `info` report (see [`App::handle_ai_event`]).
    pub fn handle_info(&mut self, id: u64, purpose: SearchPurpose, info: AnalysisInfo)
        requires
            old(self).wf(),
            !info_panics(old(self)@, id, purpose, info@),
        ensures
            final(self).wf(),
            final(self)@ == info_handled(old(self)@, id, purpose, info@),
    {
        let active = match self.active_search {
            Some(a) => a,
            None => {
                return;
            },
        };
        if active.id != id || active.purpose != purpose {
            return;
        }
        let negate = active.side != Color::Red;
        let multipv: u32 = if info.multipv < 1 {
            1
        } else {
            info.multipv
        };
        let depth = info.depth;
        let ghost info_view = info@;
        let (line, first) = self.line_from_info(negate, info);
        if multipv == 1 {
            self.record_main_line(active.position_index, purpose, &line, first);
        }
        self.store_line(multipv, line);
        self.maybe_cache_skill_move(id, purpose, depth);
    }

    /// The analysis line that an `info` report gives, with the first move
    /// of its principal variation.
    fn line_from_info(&self, negate: bool, info: AnalysisInfo) -> (r: (AnalysisLine, Option<Move>))
        requires
            self.wf(),
            pv_readable(info@.pv),
            negate ==> info@.score_cp != Some(i32::MIN) && info@.mate != Some(i32::MIN),
        ensures
            r.0@ == info_line(self@.game, negate, info@),
            r.1 == first_move(pv_moves(info@.pv)),
            r.1 is Some ==> move_wf(r.1->0),
    {
        assert forall|i: int| 0 <= i < info.pv@.len() implies !iccs_splits_char(#[trigger] info.pv@[i]@) by {
            assert(info@.pv[i] == info.pv@[i]@);
        }
        let moves = parse_pv(info.pv.as_slice());
        proof {
            lemma_pv_moves_wf(info@.pv);
        }
        let position = self.game.position();
        let pv_text = format_pv(&position, moves.as_slice(), 12);
        let score_cp_red: Option<i32> = match info.score_cp {
            Some(score) => Some(
                if negate {
                    -score
                } else {
                    score
                },
            ),
            None => None,
        };
        let mate_red: Option<i32> = match info.mate {
            Some(mate) => Some(
                if negate {
                    -mate
                } else {
                    mate
                },
            ),
            None => None,
        };
        let first = if moves.len() > 0 {
            Some(moves[0])
        } else {
            None
        };
        (AnalysisLine { info, score_cp_red, mate_red, pv_text }, first)
    }

    /// Records what the main line says: the evaluation of the searched
    /// position and, outside background evaluation, the hint.
    fn record_main_line(&mut self, position_index: usize, purpose: SearchPurpose, line: &AnalysisLine, first: Option<Move>)
        requires
            old(self).wf(),
            first is Some ==> move_wf(first->0),
        ensures
            final(self).wf(),
            final(self)@ == main_line_recorded(old(self)@, position_index, purpose, line@, first),
    {
        let searched_depth: u32 = match line.info.depth {
            Some(d) => d,
            None => 0,
        };
        self.update_position_evaluation(position_index, searched_depth, line.score_cp_red, line.mate_red);
        if purpose != SearchPurpose::Evaluation {
            match first {
                Some(mv) => {
                    self.hint_move = Some(mv);
                },
                None => {},
            }
        }
    }

    /// Stores `line` under its number, replacing the line stored there.
    fn store_line(&mut self, multipv: u32, line: AnalysisLine)
        requires
            old(self).wf(),
            pv_readable(line@.info.pv),
        ensures
            final(self).wf(),
            final(self)@ == (AppView {
                analysis_lines: old(self)@.analysis_lines.insert(multipv, line@),
                ..old(self)@
            }),
    {
        let ghost lines_before = self.analysis_lines@;
        let ghost line_view = line@;
        proof {
            lemma_u32_keys_ordered();
        }
        self.analysis_lines.insert(multipv, line);
        proof {
            assert(self.analysis_lines@.map_values(|l: AnalysisLine| l@) =~= lines_before.map_values(
                |l: AnalysisLine| l@,
            ).insert(multipv, line_view));
            assert forall|k: u32| #[trigger]
                self.analysis_lines@.contains_key(k) implies pv_readable(
                self.analysis_lines@[k]@.info.pv,
            ) by {
                if k != multipv {
                    assert(lines_before.contains_key(k));
                }
            }
        }
    }

    /// Takes in the end of a search (see [`App::handle_ai_event`]).
    pub fn handle_best_move(&mut self, id: u64, purpose: SearchPurpose, best_move: Option<String>)
        requires
            old(self).wf(),
            !best_move_panics(old(self)@, id, purpose, opt_string_view(best_move)),
        ensures
            final(self).wf(),
            final(self)@ == best_move_handled(old(self)@, id, purpose, opt_string_view(best_move)),
    {
        let active = match self.active_search {
            Some(a) => a,
            None => {
                return;
            },
        };
        if active.id != id || active.purpose != purpose {
            return;
        }
        self.active_search = None;
        self.thinking = false;
        if purpose == SearchPurpose::Evaluation {
            return;
        }
        self.conclude_search(active, best_move);
    }

    /// Acts on the engine's move at the end of a hint or computer-move
    /// search.
    fn conclude_search(&mut self, active: ActiveSearch, best_move: Option<String>)
        requires
            old(self).wf(),
            active.purpose != SearchPurpose::Evaluation,
            active.skill_move is Some ==> move_wf(active.skill_move->0),
            best_move is Some ==> !iccs_splits_char(best_move->0@),
        ensures
            final(self).wf(),
            final(self)@ == search_concluded(old(self)@, active, opt_string_view(best_move)),
    {
        let best = match best_move {
            Some(b) => b,
            None => {
                self.message = "引擎没有找到可走着法".to_string();
                return;
            },
        };
        let engine_move = match iccs_to_move(best.as_str()) {
            Some(m) => m,
            None => {
                let mut m = String::new();
                m.append("引擎返回了无法识别的着法 ");
                m.append(best.as_str());
                self.message = m;
                return;
            },
        };
        let legal = self.game.legal_moves();
        if !contains_move(legal.as_slice(), engine_move) {
            let mut m = String::new();
            m.append("引擎返回了非法着法 ");
            m.append(best.as_str());
            self.message = m;
            return;
        }
        let mv = self.choose_move(active, legal.as_slice(), engine_move);
        self.apply_chosen(active.purpose, mv);
    }

    /// The move to play or suggest: for a computer move, the move the
    /// weakened level fixed if still legal, else its pick now, else the
    /// engine's; otherwise the engine's.
    fn choose_move(&mut self, active: ActiveSearch, legal: &[Move], engine_move: Move) -> (r: Move)
        requires
            old(self).wf(),
            legal@.contains(engine_move),
        ensures
            final(self).wf(),
            r == move_choice(old(self)@, active, legal@, engine_move).0,
            final(self)@ == (AppView {
                random_state: move_choice(old(self)@, active, legal@, engine_move).1,
                ..old(self)@
            }),
            legal@.contains(r),
    {
        match active.purpose {
            SearchPurpose::AiMove => {
                let kept = match active.skill_move {
                    Some(skill) => if contains_move(legal, skill) {
                        Some(skill)
                    } else {
                        None
                    },
                    None => None,
                };
                match kept {
                    Some(skill) => skill,
                    None => match self.pick_ai_candidate(legal) {
                        Some(candidate) => candidate,
                        None => engine_move,
                    },
                }
            },
            _ => engine_move,
        }
    }

    /// Shows `mv` as a hint, or plays it as the computer's move.
    fn apply_chosen(&mut self, purpose: SearchPurpose, mv: Move)
        requires
            old(self).wf(),
            purpose != SearchPurpose::Evaluation,
            old(self)@.game.legal().contains(mv),
            move_wf(mv),
        ensures
            final(self).wf(),
            final(self)@ == chosen_applied(old(self)@, purpose, mv),
            purpose == SearchPurpose::AiMove && spec_state(final(self)@.game.fen()) is Won
                ==> final(self)@.message == end_announcement(
                spec_state(final(self)@.game.fen())->by_checkmate,
                old(self)@.game.side(),
            ),
    {
        let ghost mover = self@.game.side();
        reveal(chosen_applied);
        self.hint_move = Some(mv);
        match purpose {
            SearchPurpose::Hint => {
                let position = self.game.position();
                let mut m = String::new();
                m.append("建议 ");
                m.append(format_move(&position, mv).as_str());
                self.message = m;
            },
            _ => {
                match self.game.play(mv) {
                    Ok(record) => {
                        self.prepare_current_evaluation();
                        self.cursor = mv.dst;
                        self.clear_selection();
                        self.hint_move = None;
                        self.analysis_lines.clear();
                        assert(self@.analysis_lines =~= Map::<u32, LineView>::empty());
                        let mut m = String::new();
                        m.append("电脑走 ");
                        m.append(record.notation.as_str());
                        let ghost mid = self@;
                        let ghost note = m@;
                        assert(mid.game.side() == mover.spec_flip());
                        self.after_move(m);
                        proof {
                            lemma_after_move_keeps_game(mid, note);
                            if spec_state(mid.game.fen()) is Won {
                                lemma_end_announces_winner(mid, note);
                            }
                        }
                    },
                    Err(_) => {},
                }
            },
        }
    }
}

/// Whether carrying out the typed text would cut a character in two while
/// reading it as coordinates (see [`splits_char`]).
pub fn input_splits_char(input: &[char]) -> (r: bool)
    ensures
        r == splits_char(input@),
{
    let t = crate::text::trim_chars(input);
    let c = crate::notation::coordinate_of(t.as_slice());
    crate::iccs::splits_iccs(c.as_slice())
}

impl App {
    /// Whether carrying out `command` comes to reading it as a move (see
    /// [`reads_move`]).
    pub fn reads_move(&self, command: &[char]) -> (r: bool)
        ensures
            r == reads_move(self@, command@),
    {
        let lower = crate::text::compact_lower(command);
        let lower_text = crate::text::string_of(lower.as_slice());
        if difficulty_argument(lower_text.as_str()).is_some() {
            return false;
        }
        match command_kind(lower.as_slice()) {
            CommandKind::Move => {},
            _ => {
                return false;
            },
        }
        !self.search_blocks_moves() && self.human_mode.is_human_turn(self.game.side_to_move())
    }

    /// Whether submitting the input line would fail (see
    /// [`submission_panics`]).
    pub fn submission_fails(&self) -> (r: bool)
        ensures
            r == submission_panics(self@),
    {
        let trimmed = crate::text::trim_chars(self.input.as_slice());
        self.reads_move(trimmed.as_slice()) && input_splits_char(self.input.as_slice())
    }
}

fn pv_unreadable(pv: &Vec<String>) -> (r: bool)
    ensures
        r == !pv_readable(pv@.map_values(|s: String| s@)),
{
    let ghost views = pv@.map_values(|s: String| s@);
    let mut i: usize = 0;
    while i < pv.len()
        invariant
            i <= pv@.len(),
            views == pv@.map_values(|s: String| s@),
            forall|k: int| 0 <= k < i ==> !iccs_splits_char(#[trigger] views[k]),
        decreases pv@.len() - i,
    {
        let cs = crate::text::chars_of(pv[i].as_str());
        if crate::iccs::splits_iccs(cs.as_slice()) {
            assert(views[i as int] == pv@[i as int]@);
            return true;
        }
        i = i + 1;
    }
    false
}

fn is_min(x: Option<i32>) -> (r: bool)
    ensures
        r == (x == Some(i32::MIN)),
{
    match x {
        Some(v) => v == i32::MIN,
        None => false,
    }
}

impl App {
    /// Whether taking in `event` would fail (see [`event_panics`]).
    pub fn event_fails(&self, event: &AiEvent) -> (r: bool)
        ensures
            r == event_panics(self@, event@),
    {
        match event {
            AiEvent::Info { id, purpose, info } => match self.active_search {
                Some(a) => {
                    if a.id != *id || a.purpose != *purpose {
                        return false;
                    }
                    pv_unreadable(&info.pv) || (a.side == Color::Black && (is_min(info.score_cp) || is_min(
                        info.mate,
                    )))
                },
                None => false,
            },
            AiEvent::BestMove { id, purpose, best_move, ponder: _ } => match self.active_search {
                Some(a) => {
                    if a.id != *id || a.purpose != *purpose || *purpose == SearchPurpose::Evaluation {
                        return false;
                    }
                    match best_move {
                        Some(b) => {
                            let cs = crate::text::chars_of(b.as_str());
                            crate::iccs::splits_iccs(cs.as_slice())
                        },
                        None => false,
                    }
                },
                None => false,
            },
            _ => false,
        }
    }
}

/// Whether the event is a report on the search the application waits for.
pub open spec fn for_active(v: AppView, id: u64, purpose: SearchPurpose) -> bool {
    v.active_search is Some && v.active_search->0.id == id && v.active_search->0.purpose == purpose
}

/// Whether taking in an `info` report would fail: a move text of its line
/// that cuts a character in two, or a score that cannot change sign when
/// black searched.
pub open spec fn info_panics(v: AppView, id: u64, purpose: SearchPurpose, info: InfoView) -> bool {
    &&& for_active(v, id, purpose)
    &&& (!pv_readable(info.pv) || (v.active_search->0.side == Color::Black && (info.score_cp
        == Some(i32::MIN) || info.mate == Some(i32::MIN))))
}

/// Whether taking in the end of a search would fail: an engine move text
/// that cuts a character in two.
pub open spec fn best_move_panics(v: AppView, id: u64, purpose: SearchPurpose, best: Option<Seq<char>>) -> bool {
    &&& for_active(v, id, purpose)
    &&& purpose != SearchPurpose::Evaluation
    &&& best is Some
    &&& iccs_splits_char(best->0)
}

/// Whether taking in the event would fail.
pub open spec fn event_panics(v: AppView, e: EventView) -> bool {
    match e {
        EventView::Info { id, purpose, info } => info_panics(v, id, purpose, info),
        EventView::BestMove { id, purpose, best_move, ponder: _ } => best_move_panics(v, id, purpose, best_move),
        _ => false,
    }
}

/// `x`, or `-x` when `negate`.
pub open spec fn signed(x: i32, negate: bool) -> i32 {
    if negate {
        (-x) as i32
    } else {
        x
    }
}

/// The line an `info` report gives: scores turned to red's view
/// (`negate` when black searched), and the first twelve moves of the
/// principal variation written in notation on the current board.
pub open spec fn info_line(g: GameView, negate: bool, info: InfoView) -> LineView {
    LineView {
        info,
        score_cp_red: match info.score_cp {
            Some(x) => Some(signed(x, negate)),
            None => None,
        },
        mate_red: match info.mate {
            Some(x) => Some(signed(x, negate)),
            None => None,
        },
        pv_text: join_words(pv_notations(board_of(g.fen()), pv_moves(info.pv), 12), seq![' ']),
    }
}

/// The first move of a line, if any.
pub open spec fn first_move(moves: Seq<Move>) -> Option<Move> {
    if moves.len() > 0 {
        Some(moves[0])
    } else {
        None
    }
}

/// The state after the main line is recorded: the evaluation of position
/// `index` is updated from the line's scores and depth (0 when unknown),
/// and outside background evaluation the line's first move becomes the
/// hint.
pub open spec fn main_line_recorded(
    v: AppView,
    index: usize,
    purpose: SearchPurpose,
    line: LineView,
    first: Option<Move>,
) -> AppView {
    let depth: u32 = match line.info.depth {
        Some(d) => d,
        None => 0,
    };
    let v0 = AppView {
        position_evaluations: evaluation_updated(
            v.position_evaluations,
            index as int,
            depth,
            line.score_cp_red,
            line.mate_red,
        ),
        ..v
    };
    if purpose != SearchPurpose::Evaluation && first is Some {
        AppView { hint_move: first, ..v0 }
    } else {
        v0
    }
}

/// The state after an `info` report (see [`App::handle_ai_event`]).
pub open spec fn info_handled(v: AppView, id: u64, purpose: SearchPurpose, info: InfoView) -> AppView {
    if !for_active(v, id, purpose) {
        v
    } else {
        let active = v.active_search->0;
        let line = info_line(v.game, active.side != Color::Red, info);
        let multipv: u32 = if info.multipv == 0 {
            1
        } else {
            info.multipv
        };
        let v1 = if multipv == 1 {
            main_line_recorded(v, active.position_index, purpose, line, first_move(pv_moves(info.pv)))
        } else {
            v
        };
        let v2 = AppView { analysis_lines: v1.analysis_lines.insert(multipv, line), ..v1 };
        skill_cached(v2, id, purpose, info.depth)
    }
}

/// The move chosen at the end of a search, and the random state after the
/// choice: for a computer move, the move the weakened level fixed if it is
/// still legal, else the level's pick now, else the engine's move; for a
/// hint, the engine's move.
pub open spec fn move_choice(v: AppView, active: ActiveSearch, legal: Seq<Move>, engine_move: Move) -> (Move, u64) {
    if active.purpose == SearchPurpose::AiMove {
        if active.skill_move is Some && legal.contains(active.skill_move->0) {
            (active.skill_move->0, v.random_state)
        } else {
            let (picked, after) = skill_choice(v, legal);
            (
                match picked {
                    Some(m) => m,
                    None => engine_move,
                },
                after,
            )
        }
    } else {
        (engine_move, v.random_state)
    }
}

/// The state after the chosen move is used: a hint is shown as such; a
/// computer move is played as [`played_view`] plays a legal move, with the
/// message `电脑走` and its notation.
#[verifier::opaque]
pub open spec fn chosen_applied(v: AppView, purpose: SearchPurpose, mv: Move) -> AppView {
    let v2 = AppView { hint_move: Some(mv), ..v };
    if purpose == SearchPurpose::Hint {
        AppView { message: "建议 "@ + move_notation_on(v.game, mv), ..v2 }
    } else {
        let game = v.game.played(mv);
        let v3 = AppView {
            game,
            position_evaluations: evaluations_resized(v2.position_evaluations, succ_len(game.moves.len())),
            cursor: mv.dst,
            selected: None,
            selected_moves: Seq::empty(),
            hint_move: None,
            analysis_lines: Map::empty(),
            ..v2
        };
        after_move_view(v3, "电脑走 "@ + move_notation_on(v.game, mv))
    }
}

/// The state after the engine's answer `best` ends a hint or computer-move
/// search: a missing, unreadable or illegal move is reported; otherwise the
/// move chosen is used.
pub open spec fn search_concluded(v: AppView, active: ActiveSearch, best: Option<Seq<char>>) -> AppView {
    match best {
        None => AppView { message: "引擎没有找到可走着法"@, ..v },
        Some(text) => match iccs_move(text) {
            None => AppView { message: "引擎返回了无法识别的着法 "@ + text, ..v },
            Some(engine_move) => {
                let legal = v.game.legal();
                if !legal.contains(engine_move) {
                    AppView { message: "引擎返回了非法着法 "@ + text, ..v }
                } else {
                    let (mv, state) = move_choice(v, active, legal, engine_move);
                    chosen_applied(AppView { random_state: state, ..v }, active.purpose, mv)
                }
            },
        },
    }
}

/// The state after the end of a search (see [`App::handle_ai_event`]).
pub open spec fn best_move_handled(v: AppView, id: u64, purpose: SearchPurpose, best: Option<Seq<char>>) -> AppView {
    if !for_active(v, id, purpose) {
        v
    } else {
        let v1 = AppView { active_search: None, thinking: false, ..v };
        if purpose == SearchPurpose::Evaluation {
            v1
        } else {
            search_concluded(v1, v.active_search->0, best)
        }
    }
}

/// The state after an engine event (see [`App::handle_ai_event`]).
pub open spec fn ai_event_handled(v: AppView, e: EventView) -> AppView {
    match e {
        EventView::Ready { name, external } => {
            let v1 = AppView {
                engine_name: name,
                external_engine: external,
                message: if external {
                    v.message
                } else {
                    "正在使用内置轻量引擎；配置 Pikafish 后可获得更强棋力"@
                },
                ..v
            };
            if v.active_search is None {
                scheduled(v1)
            } else {
                v1
            }
        },
        EventView::Error(text) => AppView { message: text, ..v },
        EventView::Info { id, purpose, info } => info_handled(v, id, purpose, info),
        EventView::BestMove { id, purpose, best_move, ponder: _ } => best_move_handled(v, id, purpose, best_move),
    }
}

// ---------------------------------------------------------------------------
// Laws
// ---------------------------------------------------------------------------

/// At full strength the computer plays the engine's move: no move is fixed
/// during the search, and at its end the engine's move is chosen without
/// drawing a random number.
pub proof fn lemma_full_strength_plays_engine_move(
    v: AppView,
    id: u64,
    purpose: SearchPurpose,
    depth: Option<u32>,
    active: ActiveSearch,
    legal: Seq<Move>,
    engine_move: Move,
)
    requires
        v.difficulty == 20,
        active.skill_move is None,
    ensures
        skill_cached(v, id, purpose, depth) == v,
        move_choice(v, active, legal, engine_move) == (engine_move, v.random_state),
{
    reveal(skill_cached);
}

/// Evaluations are kept from red's point of view: a report on black's
/// search of position `i` is stored with its score and mate turned round,
/// unless the position already holds a deeper evaluation.
pub proof fn lemma_evaluation_from_red_view(v: AppView, id: u64, purpose: SearchPurpose, info: InfoView)
    requires
        for_active(v, id, purpose),
        v.active_search->0.side == Color::Black,
        info.multipv <= 1,
        info.score_cp is Some || info.mate is Some,
        v.active_search->0.position_index < v.position_evaluations.len(),
        v.position_evaluations[v.active_search->0.position_index as int] is None
            || v.position_evaluations[v.active_search->0.position_index as int]->0.depth <= match info.depth {
                Some(d) => d,
                None => 0,
            },
    ensures
        info_handled(v, id, purpose, info).position_evaluations[v.active_search->0.position_index as int]
            == Some(
            PositionEvaluation {
                score_cp_red: match info.score_cp {
                    Some(x) => Some(signed(x, true)),
                    None => None,
                },
                mate_red: match info.mate {
                    Some(x) => Some(signed(x, true)),
                    None => None,
                },
                depth: match info.depth {
                    Some(d) => d,
                    None => 0,
                },
            },
        ),
{
    reveal(skill_cached);
}

/// Taking moves back for the player stops at the player's turn, or at the
/// start of the game, and only drops moves from the end.
pub proof fn lemma_undo_returns_to_player(g: GameView, human: Color)
    ensures
        undone_until(g, human).side() == human || undone_until(g, human).moves.len() == 0,
        undone_until(g, human).moves.len() <= g.moves.len(),
        undone_until(g, human).moves == g.moves.take(undone_until(g, human).moves.len() as int),
        undone_until(g, human).root == g.root,
    decreases g.moves.len(),
{
    if !(g.side() == human || g.moves.len() == 0) {
        lemma_undo_returns_to_player(g.undone(), human);
        let r = undone_until(g.undone(), human);
        assert(r.moves =~= g.moves.take(r.moves.len() as int));
    } else {
        assert(g.moves =~= g.moves.take(g.moves.len() as int));
    }
}

/// Going on after a move leaves the game as it is: announcing the result or
/// starting the next search changes no move.
pub proof fn lemma_after_move_keeps_game(v: AppView, notation: Seq<char>)
    ensures
        after_move_view(v, notation).game == v.game,
{
    reveal(after_move_view);
}

/// A background evaluation does not hold the player up: on the player's
/// turn, a move the text names is played at once.
pub proof fn lemma_evaluation_does_not_block(v: AppView, input: Seq<char>, after: AppView, m: Move)
    requires
        App::spec_is_evaluating(v),
        v.human_mode.spec_is_human_turn(v.game.side()),
        crate::notation::spec_parse_move(input, crate::game::board_of(v.game.fen()), v.game.legal())
            == crate::notation::ParseOutcome::Move(m),
        v.game.legal().contains(m),
        notation_played(v, input, after),
    ensures
        after.game == v.game.played(m),
{
    let v1 = invalidated(v);
    let game = v.game.played(m);
    let v2 = AppView {
        game,
        position_evaluations: evaluations_resized(v1.position_evaluations, succ_len(game.moves.len())),
        cursor: m.dst,
        selected: None,
        selected_moves: Seq::empty(),
        hint_move: None,
        analysis_lines: Map::empty(),
        ..v1
    };
    lemma_after_move_keeps_game(v2, move_notation_on(v.game, m));
}

// ---------------------------------------------------------------------------
// Reading the analysis lines
// ---------------------------------------------------------------------------

/// Whether a line was reported at depth `target`.
fn depth_is(line: &AnalysisLine, target: u32) -> (r: bool)
    ensures
        r == (line@.info.depth == Some(target)),
{
    match line.info.depth {
        Some(d) => d == target,
        None => false,
    }
}

proof fn lemma_leading_lines(m: Map<u32, AnalysisLine>, lines: Seq<&AnalysisLine>)
    requires
        key_order(m.dom(), keys_in_order(m.dom())),
        keys_in_order(m.dom()).len() == m.dom().len(),
        lines.map_values(|x: &AnalysisLine| *x) == values_in_order(m).take(at_most(m.dom().len(), 4)),
    ensures
        lines.len() == leading_lines(m.map_values(|l: AnalysisLine| l@)).len(),
        forall|j: int|
            0 <= j < lines.len() ==> (#[trigger] lines[j])@ == leading_lines(
                m.map_values(|l: AnalysisLine| l@),
            )[j],
{
    let mv = m.map_values(|l: AnalysisLine| l@);
    assert(mv.dom() =~= m.dom());
    lemma_values_in_order_map(m, |l: AnalysisLine| l@);
    let n = at_most(m.dom().len(), 4);
    assert(values_in_order(m).len() == m.dom().len());
    assert(lines.map_values(|x: &AnalysisLine| *x).len() == lines.len());
    assert forall|j: int| 0 <= j < lines.len() implies (#[trigger] lines[j])@ == leading_lines(mv)[j] by {
        assert(lines.map_values(|x: &AnalysisLine| *x)[j] == *lines[j]);
        assert(values_in_order(m).take(n)[j] == values_in_order(m)[j]);
        assert(leading_lines(mv)[j] == values_in_order(mv)[j]);
    }
}

/// Every move text of a line can be read without cutting a character in two.
pub open spec fn pv_readable(pv: Seq<Seq<char>>) -> bool {
    forall|i: int| 0 <= i < pv.len() ==> !iccs_splits_char(#[trigger] pv[i])
}

/// What a line offers to choose from: its first move, when that is legal,
/// with the line's score.
pub open spec fn line_candidate(line: LineView, legal: Seq<Move>) -> Option<(Move, i32)> {
    if line.info.pv.len() == 0 {
        None
    } else {
        match iccs_move(line.info.pv[0]) {
            Some(m) => if legal.contains(m) {
                match spec_analysis_score(line.info) {
                    Some(score) => Some((m, score)),
                    None => None,
                }
            } else {
                None
            },
            None => None,
        }
    }
}

/// The candidates that the lines offer, in order.
pub open spec fn candidates_of(lines: Seq<LineView>, legal: Seq<Move>) -> Seq<(Move, i32)>
    decreases lines.len(),
{
    if lines.len() == 0 {
        Seq::empty()
    } else {
        candidates_of(lines.drop_last(), legal) + match line_candidate(lines.last(), legal) {
            Some(c) => seq![c],
            None => Seq::empty(),
        }
    }
}

/// Whether `line` offers candidate `c`: its first move is `c`'s move, legal
/// here, and its score, as the engine gave it for the side that searched
/// (centipawns, or a mate as `30000` less its distance), is `c`'s score.
pub open spec fn offers(line: LineView, legal: Seq<Move>, c: (Move, i32)) -> bool {
    &&& line.info.pv.len() > 0
    &&& iccs_move(line.info.pv[0]) == Some(c.0)
    &&& legal.contains(c.0)
    &&& spec_analysis_score(line.info) == Some(c.1)
}

/// The candidates that weakened levels choose among come from the lines, in
/// order, each with its line's score from the searching side's view as the
/// engine reported it, never turned to red's view; a line whose first move
/// is legal and that has a score is always a candidate.
pub proof fn lemma_candidates_carry_engine_scores(lines: Seq<LineView>, legal: Seq<Move>)
    ensures
        candidates_of(lines, legal).len() <= lines.len(),
        forall|j: int|
            0 <= j < candidates_of(lines, legal).len() ==> exists|i: int|
                0 <= i < lines.len() && offers(lines[i], legal, #[trigger] candidates_of(lines, legal)[j]),
        lines.len() > 0 && lines.last().info.pv.len() > 0 && iccs_move(lines.last().info.pv[0]) is Some
            && legal.contains(iccs_move(lines.last().info.pv[0])->0) && spec_analysis_score(lines.last().info)
            is Some ==> candidates_of(lines, legal).last() == (
            iccs_move(lines.last().info.pv[0])->0,
            spec_analysis_score(lines.last().info)->0,
        ),
    decreases lines.len(),
{
    if lines.len() > 0 {
        let front = lines.drop_last();
        lemma_candidates_carry_engine_scores(front, legal);
        let cf = candidates_of(front, legal);
        let c = candidates_of(lines, legal);
        assert forall|j: int| 0 <= j < c.len() implies exists|i: int|
            0 <= i < lines.len() && offers(lines[i], legal, #[trigger] c[j]) by {
            if j < cf.len() {
                assert(c[j] == cf[j]);
                let i = choose|i: int| 0 <= i < front.len() && offers(front[i], legal, cf[j]);
                assert(lines[i] == front[i]);
            } else {
                assert(c[j] == line_candidate(lines.last(), legal)->0);
                assert(lines[lines.len() - 1] == lines.last());
                assert(offers(lines[lines.len() - 1], legal, c[j]));
            }
        }
    }
}

/// The first four analysis lines, in order of their number.
pub open spec fn leading_lines(m: Map<u32, LineView>) -> Seq<LineView> {
    values_in_order(m).take(at_most(m.dom().len(), 4))
}

/// The move a weakened level picks from the current analysis, and the
/// random state after the draws: at full strength, or with fewer than two
/// candidates, nothing and the state unchanged; otherwise the weighted pick
/// among the candidates with one draw below the weakness per candidate.
pub open spec fn skill_choice(v: AppView, legal: Seq<Move>) -> (Option<Move>, u64) {
    let cands = candidates_of(leading_lines(v.analysis_lines), legal);
    if v.difficulty == 20 || cands.len() < 2 {
        (None, v.random_state)
    } else {
        let weakness = (120 - 2 * v.difficulty) as u32;
        let rolls = rolls_from(v.random_state, weakness, cands.len());
        let scores = cands.map_values(|c: (Move, i32)| c.1);
        (
            Some(cands[spec_pick_skill_index(scores, v.difficulty, rolls)].0),
            state_after(v.random_state, weakness, cands.len()),
        )
    }
}

/// Whether a report at `depth` for search `id` is the moment a weakened
/// level fixes its move: a computer move searched below full strength, the
/// report at depth level + 1, no move fixed yet, and four lines all at
/// that depth.
pub open spec fn skill_pick_due(v: AppView, id: u64, purpose: SearchPurpose, depth: Option<u32>) -> bool {
    let lines = leading_lines(v.analysis_lines);
    let target = (v.difficulty + 1) as u32;
    &&& v.difficulty != 20
    &&& purpose == SearchPurpose::AiMove
    &&& depth == Some(target)
    &&& v.active_search is Some
    &&& v.active_search->0.id == id
    &&& v.active_search->0.skill_move is None
    &&& lines.len() == 4
    &&& forall|j: int| 0 <= j < 4 ==> (#[trigger] lines[j]).info.depth == Some(target)
}

/// The state after a report at `depth`: when it is the moment to decide,
/// the weakened level's pick among the legal moves is fixed on the search.
#[verifier::opaque]
pub open spec fn skill_cached(v: AppView, id: u64, purpose: SearchPurpose, depth: Option<u32>) -> AppView {
    if !skill_pick_due(v, id, purpose, depth) {
        v
    } else {
        let (mv, state) = skill_choice(v, v.game.legal());
        match mv {
            Some(m) => AppView {
                random_state: state,
                active_search: Some(ActiveSearch { skill_move: Some(m), ..v.active_search->0 }),
                ..v
            },
            None => AppView { random_state: state, ..v },
        }
    }
}

// ---------------------------------------------------------------------------
// Searches
// ---------------------------------------------------------------------------

/// The state after the running search is given up: a new sequence number,
/// no search, and a stop request for the engine.
pub open spec fn invalidated(v: AppView) -> AppView {
    AppView {
        search_sequence: vstd::wrapping::u64_specs::wrapping_add(v.search_sequence, 1),
        active_search: None,
        thinking: false,
        outbox: v.outbox.push(CommandView::Stop),
        ..v
    }
}

/// How many lines a search asks for: three for a hint, four for a weakened
/// computer move (to choose among), one otherwise.
pub open spec fn multi_pv_for(purpose: SearchPurpose, difficulty: u8) -> u32 {
    match purpose {
        SearchPurpose::Hint => 3,
        SearchPurpose::AiMove => if difficulty == 20 {
            1
        } else {
            4
        },
        SearchPurpose::Evaluation => 1,
    }
}

/// Whether the game is over.
pub open spec fn game_over(g: GameView) -> bool {
    spec_state(g.fen()) is Won
}

/// The state after a search for `purpose` is started on the current
/// position: refused once the game is over; otherwise any running search is
/// given up, the new one gets the next sequence number, analysis and hint
/// are cleared, and the request is queued.
pub open spec fn started_search(v: AppView, purpose: SearchPurpose, movetime_ms: u64) -> AppView {
    if game_over(v.game) {
        AppView { message: "棋局已经结束"@, ..v }
    } else {
        let v1 = if v.thinking {
            invalidated(v)
        } else {
            v
        };
        let id = vstd::wrapping::u64_specs::wrapping_add(v1.search_sequence, 1);
        let side = v.game.side();
        AppView {
            search_sequence: id,
            active_search: Some(
                ActiveSearch {
                    id,
                    purpose,
                    side,
                    position_index: v.game.moves.len() as usize,
                    skill_move: None,
                },
            ),
            thinking: true,
            analysis_lines: Map::empty(),
            hint_move: None,
            message: match purpose {
                SearchPurpose::AiMove => side_name(side) + "正在思考"@,
                SearchPurpose::Hint => "正在分析局面"@,
                SearchPurpose::Evaluation => v1.message,
            },
            outbox: v1.outbox.push(
                CommandView::Search(
                    crate::uci::RequestView {
                        id,
                        fen: v.game.fen(),
                        movetime_ms,
                        purpose,
                        multi_pv: multi_pv_for(purpose, v.difficulty),
                    },
                ),
            ),
            ..v1
        }
    }
}

/// The state after the next search is scheduled: none once the game is over;
/// a background evaluation when the player is to move, otherwise the
/// computer's move.
pub open spec fn scheduled(v: AppView) -> AppView {
    if game_over(v.game) {
        v
    } else {
        started_search(
            v,
            if v.human_mode.spec_is_human_turn(v.game.side()) {
                SearchPurpose::Evaluation
            } else {
                SearchPurpose::AiMove
            },
            v.think_time_ms,
        )
    }
}

/// `v` kept within `0..=max`.
pub open spec fn clamp_to(v: int, max: int) -> u8 {
    (if v < 0 {
        0
    } else if v > max {
        max
    } else {
        v
    }) as u8
}

} // verus!
