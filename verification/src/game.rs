//! A game: the rules engine together with the record of the moves played,
//! each with its notation and the side that played it.
use vstd::prelude::*;

use crate::board::{
    move_wf, piece_from_letter, piece_of_letter, BoardSnapshot, BoardView, Color, Move, Piece,
    Square,
};
use crate::notation::{format_move, move_notation};
use crate::rules::{
    board_fits, engine_fen, engine_has_king, engine_in_check, engine_legal_moves,
    engine_make_move, engine_moves, engine_piece_letter, engine_reset, engine_root,
    engine_set_fen, engine_side_to_move, engine_undo_move, fen_after, fen_ranks_fit, in_check_in,
    king_in, lemma_apply_load, lemma_start_board_fits, legal_moves_in, moves_fit, new_engine,
    parsed_fen, piece_letter_in, ranks_fit, side_load_of, side_of_fen, start_root,
};

verus! {

/// A move as it was played.
#[derive(Debug, Clone)]
pub struct MoveRecord {
    pub mv: Move,
    pub notation: String,
    pub side: Color,
}

/// The mathematical content of a [`MoveRecord`].
pub struct RecordView {
    pub mv: Move,
    pub notation: Seq<char>,
    pub side: Color,
}

impl View for MoveRecord {
    type V = RecordView;

    open spec fn view(&self) -> RecordView {
        RecordView { mv: self.mv, notation: self.notation@, side: self.side }
    }
}

/// Whether the game goes on, and who has won.
#[derive(Debug, Clone, Copy, PartialEq, Eq, Structural)]
pub enum PositionState {
    Playing,
    Check(Color),
    Won { winner: Color, by_checkmate: bool },
}

/// What a game is: the FEN text of the position it starts from, the moves
/// played since, and the records of those moves.
pub struct GameView {
    pub root: Seq<char>,
    pub moves: Seq<Move>,
    pub records: Seq<RecordView>,
}

/// The square with index `i` in rank-major order.
pub open spec fn square_at(i: int) -> Square {
    Square { rank: (i / 9) as u8, file: (i % 9) as u8 }
}

/// The board of the position with FEN text `fen`.
pub open spec fn board_of(fen: Seq<char>) -> BoardView {
    BoardView {
        cells: Seq::new(
            90,
            |i: int|
                match piece_letter_in(fen, square_at(i)) {
                    Some(c) => piece_of_letter(c),
                    None => None,
                },
        ),
        side: side_of_fen(fen),
    }
}

impl GameView {
    /// The FEN text of the position after the first `n` moves.
    pub open spec fn fen_at(self, n: int) -> Seq<char> {
        fen_after(self.root, self.moves.take(n))
    }

    /// The FEN text of the current position.
    pub open spec fn fen(self) -> Seq<char> {
        fen_after(self.root, self.moves)
    }

    /// The side to move now.
    pub open spec fn side(self) -> Color {
        side_of_fen(self.fen())
    }

    /// The legal moves now.
    pub open spec fn legal(self) -> Seq<Move> {
        legal_moves_in(self.fen())
    }

    /// Each record holds its move, the side that played it and its notation
    /// on the board it was played on.
    pub open spec fn records_match(self) -> bool {
        &&& self.records.len() == self.moves.len()
        &&& forall|i: int|
            0 <= i < self.records.len() ==> {
                &&& (#[trigger] self.records[i]).mv == self.moves[i]
                &&& self.records[i].side == side_of_fen(self.fen_at(i))
                &&& self.records[i].notation == move_notation(
                    board_of(self.fen_at(i)),
                    self.moves[i],
                )
                &&& move_wf(self.moves[i])
            }
    }

    /// Every position of the game, from its start to now, keeps both sides
    /// within the engine's move list.
    pub open spec fn positions_fit(self) -> bool {
        forall|i: int| 0 <= i <= self.moves.len() ==> #[trigger] board_fits(board_of(self.fen_at(i)))
    }

    /// The game after `mv` is played with notation `text`.
    pub open spec fn played(self, mv: Move) -> GameView {
        GameView {
            root: self.root,
            moves: self.moves.push(mv),
            records: self.records.push(
                RecordView {
                    mv,
                    notation: move_notation(board_of(self.fen()), mv),
                    side: self.side(),
                },
            ),
        }
    }

    /// The game after its last move is taken back.
    pub open spec fn undone(self) -> GameView {
        GameView {
            root: self.root,
            moves: self.moves.drop_last(),
            records: self.records.drop_last(),
        }
    }

    /// A fresh game from the position with FEN text `root`.
    pub open spec fn fresh(root: Seq<char>) -> GameView {
        GameView { root, moves: Seq::empty(), records: Seq::empty() }
    }
}

/// Whether the game has ended or a king is attacked, from the side to move:
/// a side without a king or without a legal move has lost, checkmated when
/// it is in check (a missing king counts as checkmate).
pub open spec fn spec_state(fen: Seq<char>) -> PositionState {
    let side = side_of_fen(fen);
    if !king_in(fen, side) {
        PositionState::Won { winner: side.spec_flip(), by_checkmate: true }
    } else if legal_moves_in(fen).len() == 0 {
        PositionState::Won { winner: side.spec_flip(), by_checkmate: in_check_in(fen, side) }
    } else if in_check_in(fen, side) {
        PositionState::Check(side)
    } else {
        PositionState::Playing
    }
}

/// The FEN text of the position a game starts from when it loads `text`:
/// the position `Position::from_fen` reads, when the ranks of the text can
/// be counted and both sides stay within the engine's move list.
pub open spec fn loaded_root(text: Seq<char>) -> Option<Seq<char>> {
    if !ranks_fit(text) {
        None
    } else {
        match parsed_fen(text) {
            Some(root) => if board_fits(board_of(root)) {
                Some(root)
            } else {
                None
            },
            None => None,
        }
    }
}

/// The current position of a game whose positions fit stays within the
/// engine's move list.
proof fn lemma_current_fits(g: GameView)
    requires
        g.positions_fit(),
    ensures
        moves_fit(g.fen()),
        board_fits(board_of(g.fen())),
{
    assert(g.moves.take(g.moves.len() as int) =~= g.moves);
    assert(board_fits(board_of(g.fen_at(g.moves.len() as int))));
}

/// What stands on `square` in the engine's current position.
fn engine_piece(e: &chessai::Engine, square: Square) -> (r: Option<Piece>)
    requires
        square.wf(),
    ensures
        r == board_of(fen_after(engine_root(*e), engine_moves(*e))).at(square),
{
    let letter = engine_piece_letter(e, square);
    assert(square_at(square.index()) == square);
    match letter {
        Some(c) => piece_from_letter(c),
        None => None,
    }
}

/// A snapshot of the engine's current position.
fn engine_board(e: &chessai::Engine) -> (r: BoardSnapshot)
    ensures
        r@ == board_of(fen_after(engine_root(*e), engine_moves(*e))),
        r@.wf(),
{
    let ghost fen = fen_after(engine_root(*e), engine_moves(*e));
    let mut cells: Vec<Option<Piece>> = Vec::new();
    let mut rank: u8 = 0;
    while rank < 10
        invariant
            rank <= 10,
            cells@.len() == rank * 9,
            fen == fen_after(engine_root(*e), engine_moves(*e)),
            forall|i: int| 0 <= i < cells@.len() ==> #[trigger] cells@[i] == board_of(fen).cells[i],
        decreases 10 - rank,
    {
        let mut file: u8 = 0;
        while file < 9
            invariant
                rank < 10,
                file <= 9,
                cells@.len() == rank * 9 + file,
                fen == fen_after(engine_root(*e), engine_moves(*e)),
                forall|i: int| 0 <= i < cells@.len() ==> #[trigger] cells@[i] == board_of(fen).cells[i],
            decreases 9 - file,
        {
            let sq = Square { rank, file };
            let p = engine_piece(e, sq);
            assert(sq.index() == cells@.len());
            cells.push(p);
            file = file + 1;
        }
        rank = rank + 1;
    }
    let b = BoardSnapshot { cells, side: engine_side_to_move(e) };
    assert(b@.cells =~= board_of(fen).cells);
    b
}

/// Why a game operation failed.
#[derive(Debug, Clone)]
pub enum GameError {
    /// The text is not a position the engine can read; the engine's message.
    InvalidFen(String),
    /// The move is not legal here.
    IllegalMove,
    /// The text has more `/` than the engine can count ranks for.
    TooManyRanks,
    /// A side has more pieces than the engine's move list has room for.
    TooManyPieces,
}

impl GameError {
    /// The message shown for the error.
    pub fn message(&self) -> (r: String)
        ensures
            self is IllegalMove ==> r@ == "这步棋不合法"@,
            self is InvalidFen ==> r@ == self->InvalidFen_0@,
            self is TooManyRanks ==> r@ == "FEN 的行数过多"@,
            self is TooManyPieces ==> r@ == "局面中的棋子过多，超出引擎走法表的容量"@,
    {
        let mut s = String::new();
        match self {
            GameError::InvalidFen(text) => {
                return text.clone();
            },
            GameError::IllegalMove => {
                s.append("这步棋不合法");
            },
            GameError::TooManyRanks => {
                s.append("FEN 的行数过多");
            },
            GameError::TooManyPieces => {
                s.append("局面中的棋子过多，超出引擎走法表的容量");
            },
        }
        s
    }
}

/// A game of xiangqi: the rules engine and the record of moves played.
pub struct Game {
    rules: chessai::Engine,
    records: Vec<MoveRecord>,
}

impl View for Game {
    type V = GameView;

    closed spec fn view(&self) -> GameView {
        GameView {
            root: engine_root(self.rules),
            moves: engine_moves(self.rules),
            records: self.records@.map_values(|r: MoveRecord| r@),
        }
    }
}

impl Default for Game {
    /// A game from the standard starting position, as [`Game::new`].
    fn default() -> (g: Game)
        ensures
            g.wf(),
            g@ == GameView::fresh(start_root()),
            g@.fen() == start_root(),
            g@.side() == Color::Red,
    {
        Game::new()
    }
}

impl Game {
    /// The records agree with the engine's history, and every position of
    /// the game keeps both sides within the engine's move list.
    pub open spec fn wf(&self) -> bool {
        self@.records_match() && self@.positions_fit()
    }

    /// The record of moves as values.
    pub open spec fn records_of(v: Seq<MoveRecord>) -> Seq<RecordView> {
        v.map_values(|r: MoveRecord| r@)
    }

    /// A game from the standard starting position.
    pub fn new() -> (g: Game)
        ensures
            g.wf(),
            g@ == GameView::fresh(start_root()),
            g@.fen() == start_root(),
            g@.side() == Color::Red,
    {
        let g = Game { rules: new_engine(), records: Vec::new() };
        proof {
            assert(g@.records =~= Seq::<RecordView>::empty());
            assert(g@.moves.take(0) =~= g@.moves);
            lemma_start_board_fits();
        }
        g
    }

    /// Starts over from the standard starting position.
    pub fn reset(&mut self)
        ensures
            final(self).wf(),
            final(self)@ == GameView::fresh(start_root()),
            final(self)@.fen() == start_root(),
            final(self)@.side() == Color::Red,
    {
        engine_reset(&mut self.rules);
        self.records = Vec::new();
        proof {
            assert(self@.records =~= Seq::<RecordView>::empty());
            assert(self@.moves.take(0) =~= self@.moves);
            lemma_start_board_fits();
        }
    }

    /// Starts over from the position that `fen` describes; on an error the
    /// game is left as it was. Text whose ranks the engine cannot count, and
    /// positions whose pieces could give more moves than the engine's move
    /// list holds, are refused before the engine reads them.
    pub fn set_fen(&mut self, fen: &str) -> (r: Result<(), GameError>)
        requires
            old(self).wf(),
        ensures
            final(self).wf(),
            match loaded_root(fen@) {
                Some(root) => r is Ok && final(self)@ == GameView::fresh(root),
                None => r is Err && final(self)@ == old(self)@,
            },
            !ranks_fit(fen@) ==> r is Err && r->Err_0 is TooManyRanks,
            ranks_fit(fen@) && parsed_fen(fen@) is None ==> r is Err && r->Err_0 is InvalidFen,
            ranks_fit(fen@) && parsed_fen(fen@) is Some && !board_fits(board_of(parsed_fen(fen@)->0))
                ==> r is Err && r->Err_0 is TooManyPieces,
    {
        if !fen_ranks_fit(fen) {
            return Err(GameError::TooManyRanks);
        }
        let mut probe = new_engine();
        let result = engine_set_fen(&mut probe, fen);
        match result {
            Ok(()) => {},
            Err(error) => {
                return Err(GameError::InvalidFen(error.to_string()));
            },
        }
        let board = engine_board(&probe);
        if side_load_of(&board, Color::Red) > 128 || side_load_of(&board, Color::Black) > 128 {
            return Err(GameError::TooManyPieces);
        }
        self.rules = probe;
        self.records = Vec::new();
        proof {
            assert(self@.records =~= Seq::<RecordView>::empty());
            assert(self@.moves.take(0) =~= self@.moves);
        }
        Ok(())
    }

    /// The FEN text of the current position.
    pub fn fen(&self) -> (r: String)
        ensures
            r@ == self@.fen(),
    {
        engine_fen(&self.rules)
    }

    /// The side to move.
    pub fn side_to_move(&self) -> (r: Color)
        ensures
            r == self@.side(),
    {
        engine_side_to_move(&self.rules)
    }

    /// The piece on a square.
    pub fn piece_at(&self, square: Square) -> (r: Option<Piece>)
        requires
            square.wf(),
        ensures
            r == board_of(self@.fen()).at(square),
    {
        engine_piece(&self.rules, square)
    }

    /// A snapshot of the ninety points and the side to move.
    pub fn position(&self) -> (r: BoardSnapshot)
        ensures
            r@ == board_of(self@.fen()),
            r@.wf(),
    {
        engine_board(&self.rules)
    }

    /// The legal moves of the side to move.
    pub fn legal_moves(&mut self) -> (r: Vec<Move>)
        requires
            old(self).wf(),
        ensures
            final(self)@ == old(self)@,
            r@ == old(self)@.legal(),
            forall|i: int| 0 <= i < r@.len() ==> move_wf(#[trigger] r@[i]) && r@[i].src != r@[i].dst,
            r@.no_duplicates(),
    {
        proof {
            lemma_current_fits(self@);
        }
        engine_legal_moves(&mut self.rules)
    }

    /// The legal moves that start on `square`.
    pub fn legal_moves_from(&mut self, square: Square) -> (r: Vec<Move>)
        requires
            old(self).wf(),
        ensures
            final(self)@ == old(self)@,
            r@ == old(self)@.legal().filter(|m: Move| m.src == square),
            forall|i: int| 0 <= i < r@.len() ==> move_wf(#[trigger] r@[i]),
    {
        proof {
            lemma_current_fits(self@);
        }
        let all = engine_legal_moves(&mut self.rules);
        let mut r: Vec<Move> = Vec::new();
        let mut i: usize = 0;
        while i < all.len()
            invariant
                i <= all@.len(),
                r@ == all@.take(i as int).filter(|m: Move| m.src == square),
                forall|k: int| 0 <= k < all@.len() ==> move_wf(#[trigger] all@[k]),
                forall|k: int| 0 <= k < r@.len() ==> move_wf(#[trigger] r@[k]),
            decreases all@.len() - i,
        {
            let m = all[i];
            proof {
                reveal_with_fuel(Seq::<_>::filter, 1);
                assert(all@.take(i + 1).drop_last() =~= all@.take(i as int));
            }
            if m.src == square {
                r.push(m);
            }
            i = i + 1;
        }
        assert(all@.take(all@.len() as int) == all@);
        r
    }

    /// Plays `mv` if it is legal, recording it with its notation and side.
    pub fn play(&mut self, mv: Move) -> (r: Result<MoveRecord, GameError>)
        requires
            old(self).wf(),
            move_wf(mv),
        ensures
            final(self).wf(),
            old(self)@.legal().contains(mv) ==> r is Ok && final(self)@ == old(self)@.played(mv)
                && r->Ok_0@ == final(self)@.records.last()
                && final(self)@.side() == old(self)@.side().spec_flip(),
            !old(self)@.legal().contains(mv) ==> r is Err && r->Err_0 is IllegalMove
                && final(self)@ == old(self)@,
    {
        let side = self.side_to_move();
        let board = self.position();
        let notation = format_move(&board, mv);
        let text = mv.to_compact();
        let ghost before = self@;
        proof {
            lemma_current_fits(before);
        }
        let ok = engine_make_move(&mut self.rules, mv, text.as_str());
        if !ok {
            return Err(GameError::IllegalMove);
        }
        let copy = notation.clone();
        let record = MoveRecord { mv, notation, side };
        self.records.push(record);
        proof {
            let after = self@;
            assert(after.moves == before.moves.push(mv));
            assert(after.records =~= before.records.push(
                RecordView { mv, notation: notation@, side },
            ));
            assert forall|i: int| 0 <= i < after.records.len() implies {
                &&& (#[trigger] after.records[i]).mv == after.moves[i]
                &&& after.records[i].side == side_of_fen(after.fen_at(i))
                &&& after.records[i].notation == move_notation(
                    board_of(after.fen_at(i)),
                    after.moves[i],
                )
                &&& move_wf(after.moves[i])
            } by {
                assert(after.moves.take(i) == before.moves.take(i) || i == before.moves.len());
                if i < before.moves.len() {
                    assert(after.moves.take(i) =~= before.moves.take(i));
                } else {
                    assert(after.moves.take(i) =~= before.moves);
                }
            }
            assert forall|i: int| 0 <= i <= after.moves.len() implies #[trigger] board_fits(
                board_of(after.fen_at(i)),
            ) by {
                if i <= before.moves.len() {
                    assert(after.moves.take(i) =~= before.moves.take(i));
                    assert(board_fits(board_of(before.fen_at(i))));
                } else {
                    assert(after.moves.take(i) =~= after.moves);
                    assert(after.fen_at(i) == after.fen());
                    assert(board_of(after.fen()) == board_of(before.fen()).apply(mv));
                    lemma_apply_load(board_of(before.fen()), mv, Color::Red);
                    lemma_apply_load(board_of(before.fen()), mv, Color::Black);
                }
            }
        }
        Ok(MoveRecord { mv, notation: copy, side })
    }

    /// Takes back the last move, returning its record.
    pub fn undo(&mut self) -> (r: Option<MoveRecord>)
        requires
            old(self).wf(),
        ensures
            final(self).wf(),
            old(self)@.moves.len() == 0 ==> r is None && final(self)@ == old(self)@,
            old(self)@.moves.len() > 0 ==> r is Some && r->0@ == old(self)@.records.last()
                && final(self)@ == old(self)@.undone(),
    {
        let ghost before = self@;
        let undone = engine_undo_move(&mut self.rules);
        if undone.is_none() {
            return None;
        }
        let last = self.records.pop();
        proof {
            let after = self@;
            assert(after.records =~= before.records.drop_last());
            assert forall|i: int| 0 <= i < after.records.len() implies {
                &&& (#[trigger] after.records[i]).mv == after.moves[i]
                &&& after.records[i].side == side_of_fen(after.fen_at(i))
                &&& after.records[i].notation == move_notation(
                    board_of(after.fen_at(i)),
                    after.moves[i],
                )
                &&& move_wf(after.moves[i])
            } by {
                assert(after.moves.take(i) =~= before.moves.take(i));
            }
            assert forall|i: int| 0 <= i <= after.moves.len() implies #[trigger] board_fits(
                board_of(after.fen_at(i)),
            ) by {
                assert(after.moves.take(i) =~= before.moves.take(i));
                assert(board_fits(board_of(before.fen_at(i))));
            }
        }
        last
    }

    /// The moves played so far, oldest first.
    pub fn history(&self) -> (r: &[MoveRecord])
        requires
            self.wf(),
        ensures
            Self::records_of(r@) == self@.records,
            r@.len() == self@.moves.len(),
    {
        self.records.as_slice()
    }

    /// The move played last.
    pub fn last_move(&self) -> (r: Option<Move>)
        requires
            self.wf(),
        ensures
            self@.moves.len() == 0 ==> r is None,
            self@.moves.len() > 0 ==> r == Some(self@.moves.last()),
    {
        let n = self.records.len();
        if n == 0 {
            None
        } else {
            assert(self@.records[n - 1].mv == self@.moves[n - 1]);
            Some(self.records[n - 1].mv)
        }
    }

    /// Whether the game has ended, or the side to move is in check.
    pub fn state(&mut self) -> (r: PositionState)
        requires
            old(self).wf(),
        ensures
            final(self)@ == old(self)@,
            r == spec_state(old(self)@.fen()),
    {
        proof {
            lemma_current_fits(self@);
        }
        let side = self.side_to_move();
        if !engine_has_king(&self.rules, side) {
            return PositionState::Won { winner: side.flip(), by_checkmate: true };
        }
        let in_check = engine_in_check(&self.rules, side);
        let legal = engine_legal_moves(&mut self.rules);
        if legal.len() == 0 {
            return PositionState::Won { winner: side.flip(), by_checkmate: in_check };
        }
        if in_check {
            PositionState::Check(side)
        } else {
            PositionState::Playing
        }
    }
}

/// Taking back a move just played gives back the game as it was: the same
/// moves, the same records, and so the same position and side to move.
pub proof fn lemma_play_then_undo(g: GameView, mv: Move)
    ensures
        g.played(mv).undone() == g,
        g.played(mv).undone().fen() == g.fen(),
        g.played(mv).undone().side() == g.side(),
{
    assert(g.played(mv).undone().moves =~= g.moves);
    assert(g.played(mv).undone().records =~= g.records);
}

/// Playing a move adds exactly one record, for that move, played by the side
/// that was to move, and keeps the earlier records.
pub proof fn lemma_play_appends_record(g: GameView, mv: Move)
    ensures
        g.played(mv).records.len() == g.records.len() + 1,
        g.played(mv).records.last().mv == mv,
        g.played(mv).records.last().side == g.side(),
        g.played(mv).records.drop_last() == g.records,
{
    assert(g.played(mv).records.drop_last() =~= g.records);
}

/// The name of a side: `红方` or `黑方`.
pub fn color_name(color: Color) -> (r: &'static str)
    ensures
        color == Color::Red ==> r@ == "红方"@,
        color == Color::Black ==> r@ == "黑方"@,
{
    match color {
        Color::Red => "红方",
        Color::Black => "黑方",
    }
}

} // verus!
