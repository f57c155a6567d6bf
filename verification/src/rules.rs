//! The rules engine of the `chessai` crate, seen through the library's own
//! board types.
//!
//! An engine is modelled by the position its history starts from (as FEN
//! text) and the moves played since then. Everything the engine answers
//! about the current position is a function of the FEN text of that
//! position, which names the side to move and what stands on each point.
use vstd::prelude::*;

use crate::board::{
    compact_text, move_wf, piece_of_letter, BoardSnapshot, BoardView, Color, Move, Piece, PieceType,
    Square,
};
use crate::game::board_of;
use crate::iccs::{
    first_index, iccs_move, iccs_splits_char, lemma_first_index_at, lemma_first_index_none,
};
use crate::text::{chars_of, trim, trim_chars};

verus! {

#[verifier::external_type_specification]
#[verifier::external_body]
pub struct ExEngine(chessai::Engine);

#[verifier::external_type_specification]
#[verifier::external_body]
pub struct ExChessAIError(chessai::ChessAIError);

/// The moves played on an engine since its position was last set, in order.
pub uninterp spec fn engine_moves(e: chessai::Engine) -> Seq<Move>;

/// The FEN text (`Position::to_fen`) of the position an engine's move
/// history starts from.
pub uninterp spec fn engine_root(e: chessai::Engine) -> Seq<char>;

/// What `Engine::fen` returns after `moves` are played from the position
/// whose FEN text is `root`.
pub uninterp spec fn fen_after(root: Seq<char>, moves: Seq<Move>) -> Seq<char>;

/// What `Engine::legal_moves` returns in the position with FEN text `fen`.
pub uninterp spec fn legal_moves_in(fen: Seq<char>) -> Seq<Move>;

/// The FEN letter (`Piece::fen_char`) of what `Position::piece_at` finds on
/// `sq` in the position with FEN text `fen`.
pub uninterp spec fn piece_letter_in(fen: Seq<char>, sq: Square) -> Option<char>;

/// Whether a king of `side` stands on the board of the position with FEN
/// text `fen`.
pub open spec fn king_in(fen: Seq<char>, side: Color) -> bool {
    exists|i: int| 0 <= i < 90 && board_of(fen).cells[i] == Some(Piece { color: side, kind: PieceType::King })
}

/// What `Position::is_in_check` answers for `side`.
pub uninterp spec fn in_check_in(fen: Seq<char>, side: Color) -> bool;

/// The FEN text (`Position::to_fen`) of the position that
/// `Position::from_fen` reads from `text`, when it accepts it.
pub uninterp spec fn parsed_fen(text: Seq<char>) -> Option<Seq<char>>;

/// The side to move that FEN text written by `Position::to_fen` names: its
/// last character is `w` for red and `b` for black.
pub open spec fn side_of_fen(fen: Seq<char>) -> Color {
    if fen.len() > 0 && fen.last() == 'b' {
        Color::Black
    } else {
        Color::Red
    }
}

/// The FEN text that `Position::to_fen` writes for the standard starting
/// position: the board and the side to move.
pub open spec fn start_root() -> Seq<char> {
    "rnbakabnr/9/1c5c1/p1p1p1p1p/9/9/P1P1P1P1P/1C5C1/9/RNBAKABNR w"@
}

/// What stands on point `i` (rank-major) at the start of a game.
pub open spec fn start_cell(i: int) -> Option<Piece> {
    let rank = i / 9;
    let file = i % 9;
    let color = if rank < 5 {
        Color::Red
    } else {
        Color::Black
    };
    let kind = if rank == 0 || rank == 9 {
        Some(
            if file == 0 || file == 8 {
                PieceType::Rook
            } else if file == 1 || file == 7 {
                PieceType::Knight
            } else if file == 2 || file == 6 {
                PieceType::Bishop
            } else if file == 3 || file == 5 {
                PieceType::Advisor
            } else {
                PieceType::King
            },
        )
    } else if (rank == 2 || rank == 7) && (file == 1 || file == 7) {
        Some(PieceType::Cannon)
    } else if (rank == 3 || rank == 6) && file % 2 == 0 {
        Some(PieceType::Pawn)
    } else {
        None
    };
    match kind {
        Some(k) => Some(Piece { color, kind: k }),
        None => None,
    }
}

/// The board at the start of a game, red to move.
pub open spec fn start_board() -> BoardView {
    BoardView { cells: Seq::new(90, |i: int| start_cell(i)), side: Color::Red }
}

/// The most moves the engine's move generator lists for one piece of a
/// kind: one per point it can reach (a king, advisor or bishop 4, a knight
/// 8, a rook or cannon 17 along its rank and file, a pawn 3).
pub open spec fn piece_reach(kind: PieceType) -> nat {
    match kind {
        PieceType::King => 4,
        PieceType::Advisor => 4,
        PieceType::Bishop => 4,
        PieceType::Knight => 8,
        PieceType::Rook => 17,
        PieceType::Cannon => 17,
        PieceType::Pawn => 3,
    }
}

/// What one point adds to the reach of `side`.
pub open spec fn cell_load(cell: Option<Piece>, side: Color) -> nat {
    match cell {
        Some(p) => if p.color == side {
            piece_reach(p.kind)
        } else {
            0
        },
        None => 0,
    }
}

/// The reach of the pieces of `side` among the first `n` cells.
pub open spec fn load_from(cells: Seq<Option<Piece>>, side: Color, n: int) -> nat
    decreases n,
{
    if n <= 0 {
        0
    } else {
        load_from(cells, side, n - 1) + cell_load(cells[n - 1], side)
    }
}

/// The most moves the generator can list for `side` on board `b`.
pub open spec fn side_load(b: BoardView, side: Color) -> nat {
    load_from(b.cells, side, 90)
}

/// The engine's move list holds 128 moves; the position with FEN text
/// `fen` stays within it for the side to move.
pub open spec fn moves_fit(fen: Seq<char>) -> bool {
    side_load(board_of(fen), side_of_fen(fen)) <= 128
}

/// The board part of FEN text as `Position::from_fen` reads it: the text
/// trimmed, up to its first space.
pub open spec fn fen_board_part(s: Seq<char>) -> Seq<char> {
    let t = trim(s);
    match first_index(t, ' ') {
        Some(i) => t.take(i),
        None => t,
    }
}

/// How many times `c` occurs in `s`.
pub open spec fn count_char(s: Seq<char>, c: char) -> nat
    decreases s.len(),
{
    if s.len() == 0 {
        0
    } else {
        count_char(s.drop_last(), c) + if s.last() == c {
            1nat
        } else {
            0
        }
    }
}

/// `Position::from_fen` counts ranks down in an `i8` from 9, once per `/`:
/// text whose board part holds at most 137 of them is read without
/// overflow.
pub open spec fn ranks_fit(s: Seq<char>) -> bool {
    count_char(fen_board_part(s), '/') < 138
}

/// Both sides of board `b` stay within the engine's move list.
pub open spec fn board_fits(b: BoardView) -> bool {
    side_load(b, Color::Red) <= 128 && side_load(b, Color::Black) <= 128
}

/// Putting `v` on cell `j` changes the reach of `side` among the first `n`
/// cells by what `v` adds less what stood there, when `j` is among them.
proof fn lemma_load_update(cells: Seq<Option<Piece>>, side: Color, j: int, v: Option<Piece>, n: int)
    requires
        0 <= j < cells.len(),
        n <= cells.len(),
    ensures
        n <= j ==> load_from(cells.update(j, v), side, n) == load_from(cells, side, n),
        j < n ==> load_from(cells.update(j, v), side, n) == load_from(cells, side, n) - cell_load(
            cells[j],
            side,
        ) + cell_load(v, side),
    decreases n,
{
    if n > 0 {
        lemma_load_update(cells, side, j, v, n - 1);
    }
}

/// Moving a piece never adds to the reach of either side: the piece keeps
/// its kind, and a captured piece leaves the board.
pub proof fn lemma_apply_load(b: BoardView, m: Move, side: Color)
    requires
        b.wf(),
        move_wf(m),
    ensures
        side_load(b.apply(m), side) <= side_load(b, side),
{
    match b.at(m.src) {
        Some(p) => {
            let c1 = b.cells.update(m.src.index(), None);
            lemma_load_update(b.cells, side, m.src.index(), None, 90);
            lemma_load_update(c1, side, m.dst.index(), Some(p), 90);
        },
        None => {},
    }
}

/// At the start of a game each side's pieces reach at most 119 points.
pub proof fn lemma_start_board_fits()
    ensures
        board_fits(start_board()),
{
    let c = start_board().cells;
    reveal_with_fuel(load_from, 10);
    assert(load_from(c, Color::Red, 9) == 70);
    assert(load_from(c, Color::Red, 18) == 70);
    assert(load_from(c, Color::Red, 27) == 104);
    assert(load_from(c, Color::Red, 36) == 119);
    assert(load_from(c, Color::Red, 45) == 119);
    assert(load_from(c, Color::Red, 54) == 119);
    assert(load_from(c, Color::Red, 63) == 119);
    assert(load_from(c, Color::Red, 72) == 119);
    assert(load_from(c, Color::Red, 81) == 119);
    assert(load_from(c, Color::Red, 90) == 119);
    assert(load_from(c, Color::Black, 9) == 0);
    assert(load_from(c, Color::Black, 18) == 0);
    assert(load_from(c, Color::Black, 27) == 0);
    assert(load_from(c, Color::Black, 36) == 0);
    assert(load_from(c, Color::Black, 45) == 0);
    assert(load_from(c, Color::Black, 54) == 0);
    assert(load_from(c, Color::Black, 63) == 15);
    assert(load_from(c, Color::Black, 72) == 49);
    assert(load_from(c, Color::Black, 81) == 49);
    assert(load_from(c, Color::Black, 90) == 119);
}

/// Whether the board part of `fen` holds few enough `/` for
/// `Position::from_fen` to count them.
pub fn fen_ranks_fit(fen: &str) -> (r: bool)
    ensures
        r == ranks_fit(fen@),
{
    let t = trim_chars(&chars_of(fen));
    let mut count: usize = 0;
    let mut i: usize = 0;
    while i < t.len() && t[i] != ' '
        invariant
            i <= t@.len(),
            t@ == trim(fen@),
            forall|k: int| 0 <= k < i ==> t@[k] != ' ',
            count == count_char(t@.take(i as int), '/'),
            count <= i,
        decreases t.len() - i,
    {
        proof {
            assert(t@.take(i + 1).drop_last() =~= t@.take(i as int));
        }
        if t[i] == '/' {
            count = count + 1;
        }
        i = i + 1;
    }
    proof {
        if i < t.len() {
            lemma_first_index_at(t@, ' ', i as int);
        } else {
            lemma_first_index_none(t@, ' ');
            assert(t@.take(i as int) =~= t@);
        }
    }
    count < 138
}

/// The reach of one piece of `kind`.
fn reach_of(kind: PieceType) -> (r: usize)
    ensures
        r == piece_reach(kind),
{
    match kind {
        PieceType::King => 4,
        PieceType::Advisor => 4,
        PieceType::Bishop => 4,
        PieceType::Knight => 8,
        PieceType::Rook => 17,
        PieceType::Cannon => 17,
        PieceType::Pawn => 3,
    }
}

/// The reach of the pieces of `side` on a board.
pub fn side_load_of(b: &BoardSnapshot, side: Color) -> (r: usize)
    requires
        b@.wf(),
    ensures
        r == side_load(b@, side),
{
    let mut total: usize = 0;
    let mut i: usize = 0;
    while i < 90
        invariant
            i <= 90,
            b@.cells.len() == 90,
            total == load_from(b@.cells, side, i as int),
            total <= 17 * i,
        decreases 90 - i,
    {
        match b.cells[i] {
            Some(p) => {
                if p.color == side {
                    total = total + reach_of(p.kind);
                }
            },
            None => {},
        }
        i = i + 1;
    }
    total
}

/// Builds the rules engine the game uses (`Engine::builder` with a 1 MB
/// table, one thread and no opening book). Claims that it starts from the
/// standard starting position (`STARTING_FEN`, written back by `to_fen` as
/// its board and side) with no moves played.
#[verifier::external_body]
pub(crate) fn new_engine() -> (e: chessai::Engine)
    ensures
        engine_moves(e) == Seq::<Move>::empty(),
        engine_root(e) == start_root(),
        fen_after(engine_root(e), engine_moves(e)) == engine_root(e),
        board_of(engine_root(e)) == start_board(),
{
    chessai::Engine::builder().hash_size(1).threads(1).use_book(false).build()
}

/// `Engine::reset_to_startpos`: claims the history is cleared and starts
/// from the standard starting position, as for [`new_engine`].
#[verifier::external_body]
pub(crate) fn engine_reset(e: &mut chessai::Engine)
    ensures
        engine_moves(*final(e)) == Seq::<Move>::empty(),
        engine_root(*final(e)) == start_root(),
        fen_after(engine_root(*final(e)), engine_moves(*final(e))) == engine_root(*final(e)),
        board_of(engine_root(*final(e))) == start_board(),
{
    e.reset_to_startpos()
}

/// `Engine::set_fen`: claims that it succeeds exactly when `Position::from_fen`
/// accepts the text, then clears the history and starts it from that
/// position; on failure the engine is left as it was. Text with more `/`
/// in its board part than the rank counter can take is left out.
#[verifier::external_body]
pub(crate) fn engine_set_fen(e: &mut chessai::Engine, fen: &str) -> (r: Result<(), chessai::ChessAIError>)
    requires
        ranks_fit(fen@),
    ensures
        match parsed_fen(fen@) {
            Some(root) => r is Ok && engine_moves(*final(e)) == Seq::<Move>::empty()
                && engine_root(*final(e)) == root
                && fen_after(engine_root(*final(e)), engine_moves(*final(e))) == root,
            None => r is Err && *final(e) == *old(e),
        },
{
    e.set_fen(fen)
}

/// `Engine::fen`: claims the text is the named FEN of the current position.
#[verifier::external_body]
pub(crate) fn engine_fen(e: &chessai::Engine) -> (r: String)
    ensures
        r@ == fen_after(engine_root(*e), engine_moves(*e)),
{
    e.fen()
}

/// `Engine::side_to_move`: claims it is the side the FEN text names.
#[verifier::external_body]
pub(crate) fn engine_side_to_move(e: &chessai::Engine) -> (r: Color)
    ensures
        r == side_of_fen(fen_after(engine_root(*e), engine_moves(*e))),
{
    match e.side_to_move() {
        chessai::Color::Red => Color::Red,
        chessai::Color::Black => Color::Black,
    }
}

/// `Engine::legal_moves`: claims the moves are the named legal moves of the
/// current position, each between two different squares of the board (the
/// generator leaves out every point its own side holds, the moving piece's
/// own point among them) and none twice (the generator lists each piece's destinations once), and that the engine is
/// left as it was (every trial move is taken back). Positions whose pieces
/// could give more moves than the generator's list of 128 holds are left
/// out.
#[verifier::external_body]
pub(crate) fn engine_legal_moves(e: &mut chessai::Engine) -> (r: Vec<Move>)
    requires
        moves_fit(fen_after(engine_root(*old(e)), engine_moves(*old(e)))),
    ensures
        *final(e) == *old(e),
        r@ == legal_moves_in(fen_after(engine_root(*old(e)), engine_moves(*old(e)))),
        forall|i: int| 0 <= i < r@.len() ==> move_wf(#[trigger] r@[i]) && r@[i].src != r@[i].dst,
        r@.no_duplicates(),
{
    let mut out = Vec::new();
    for m in e.legal_moves() {
        let src = Square { rank: m.src().rank(), file: m.src().file() };
        let dst = Square { rank: m.dst().rank(), file: m.dst().file() };
        out.push(Move { src, dst });
    }
    out
}

/// `Engine::make_move` on the move written as `text` (the move reaches the
/// engine through `Move::from_iccs`, the crate's only public way to build
/// one, from its compact text): claims it plays the move exactly when it is
/// one of the legal moves of the current position, appending it to the
/// history, moving the piece (capturing what stood on the destination) and
/// passing the turn to the other side; otherwise the engine is left as it
/// was. As for [`engine_legal_moves`], positions whose pieces could give more
/// than 128 moves are left out.
#[verifier::external_body]
pub(crate) fn engine_make_move(e: &mut chessai::Engine, mv: Move, text: &str) -> (r: bool)
    requires
        move_wf(mv),
        text@ == compact_text(mv),
        moves_fit(fen_after(engine_root(*old(e)), engine_moves(*old(e)))),
    ensures
        r ==> board_of(fen_after(engine_root(*final(e)), engine_moves(*final(e)))) == board_of(
            fen_after(engine_root(*old(e)), engine_moves(*old(e))),
        ).apply(mv),
        r == legal_moves_in(fen_after(engine_root(*old(e)), engine_moves(*old(e)))).contains(mv),
        r ==> engine_moves(*final(e)) == engine_moves(*old(e)).push(mv) && engine_root(*final(e))
            == engine_root(*old(e)),
        r ==> side_of_fen(fen_after(engine_root(*final(e)), engine_moves(*final(e))))
            == side_of_fen(fen_after(engine_root(*old(e)), engine_moves(*old(e)))).spec_flip(),
        !r ==> *final(e) == *old(e),
{
    match chessai::Move::from_iccs(text) {
        Ok(m) => e.make_move(m),
        Err(_) => false,
    }
}

/// `Engine::undo_move`: claims it takes back the last move of the history
/// and returns it, or returns `None` with the engine unchanged when no move
/// has been played.
#[verifier::external_body]
pub(crate) fn engine_undo_move(e: &mut chessai::Engine) -> (r: Option<Move>)
    ensures
        engine_moves(*old(e)).len() == 0 ==> r is None && *final(e) == *old(e),
        engine_moves(*old(e)).len() > 0 ==> r == Some(engine_moves(*old(e)).last())
            && engine_moves(*final(e)) == engine_moves(*old(e)).drop_last() && engine_root(
            *final(e),
        ) == engine_root(*old(e)),
{
    match e.undo_move() {
        Some(m) => Some(
            Move {
                src: Square { rank: m.src().rank(), file: m.src().file() },
                dst: Square { rank: m.dst().rank(), file: m.dst().file() },
            },
        ),
        None => None,
    }
}

/// `Position::piece_at`, given as the piece's FEN letter: claims the letter
/// is the named one and names a piece.
#[verifier::external_body]
pub(crate) fn engine_piece_letter(e: &chessai::Engine, sq: Square) -> (r: Option<char>)
    requires
        sq.wf(),
    ensures
        r == piece_letter_in(fen_after(engine_root(*e), engine_moves(*e)), sq),
        r is Some ==> piece_of_letter(r->0) is Some,
{
    match chessai::Square::from_rank_file(sq.rank, sq.file) {
        Some(s) => match e.position().piece_at(s) {
            Some(p) => Some(p.fen_char()),
            None => None,
        },
        None => None,
    }
}

/// `Position::king_square`: claims it finds a king of `side` exactly when
/// one stands on the board.
#[verifier::external_body]
pub(crate) fn engine_has_king(e: &chessai::Engine, side: Color) -> (r: bool)
    ensures
        r == king_in(fen_after(engine_root(*e), engine_moves(*e)), side),
{
    let c = match side {
        Color::Red => chessai::Color::Red,
        Color::Black => chessai::Color::Black,
    };
    e.position().king_square(c).is_some()
}

/// `Position::is_in_check` for `side`.
#[verifier::external_body]
pub(crate) fn engine_in_check(e: &chessai::Engine, side: Color) -> (r: bool)
    ensures
        r == in_check_in(fen_after(engine_root(*e), engine_moves(*e)), side),
{
    let c = match side {
        Color::Red => chessai::Color::Red,
        Color::Black => chessai::Color::Black,
    };
    e.position().is_in_check(c)
}

/// `chessai::Move::from_iccs`: claims it reads the move that the ICCS text
/// names, and fails exactly when the text names none.
#[verifier::external_body]
pub(crate) fn iccs_to_move(s: &str) -> (r: Option<Move>)
    requires
        !iccs_splits_char(s@),
    ensures
        r == iccs_move(s@),
{
    match chessai::Move::from_iccs(s) {
        Ok(m) => Some(
            Move {
                src: Square { rank: m.src().rank(), file: m.src().file() },
                dst: Square { rank: m.dst().rank(), file: m.dst().file() },
            },
        ),
        Err(_) => None,
    }
}

} // verus!
