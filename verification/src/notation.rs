//! Chinese move notation: writing a move as `马二进三` from the board it is
//! played on, reading such text back, and normalising the many ways of
//! writing it.
use vstd::prelude::*;

use crate::board::{
    compact_text, iccs_text, move_wf, BoardSnapshot, BoardView, Color, Move, Piece, PieceType,
    Square,
};
use crate::iccs::{
    iccs_move, iccs_splits_char, lemma_compact_text_no_split, lemma_compact_text_roundtrip,
    lemma_iccs_move_wf, lemma_utf8_len_with, utf8_len,
};
use crate::rules::iccs_to_move;
use crate::text::{
    ascii_lower, chars_eq, chars_lt, chars_of, dec_string, is_whitespace, is_ws,
    lemma_lt_total, lemma_lt_transitive, lower, push_char, push_chars, push_decimal, seq_lt,
    string_of, trim, trim_chars,
};

verus! {

// ---------------------------------------------------------------------------
// Writing a move
// ---------------------------------------------------------------------------

/// The character for a piece in move notation.
pub open spec fn piece_name(p: Piece) -> char {
    match (p.color, p.kind) {
        (Color::Red, PieceType::King) => '帅',
        (Color::Black, PieceType::King) => '将',
        (Color::Red, PieceType::Advisor) => '仕',
        (Color::Black, PieceType::Advisor) => '士',
        (Color::Red, PieceType::Bishop) => '相',
        (Color::Black, PieceType::Bishop) => '象',
        (_, PieceType::Knight) => '马',
        (_, PieceType::Rook) => '车',
        (_, PieceType::Cannon) => '炮',
        (Color::Red, PieceType::Pawn) => '兵',
        (Color::Black, PieceType::Pawn) => '卒',
    }
}

fn piece_name_char(p: Piece) -> (c: char)
    ensures
        c == piece_name(p),
{
    match (p.color, p.kind) {
        (Color::Red, PieceType::King) => '帅',
        (Color::Black, PieceType::King) => '将',
        (Color::Red, PieceType::Advisor) => '仕',
        (Color::Black, PieceType::Advisor) => '士',
        (Color::Red, PieceType::Bishop) => '相',
        (Color::Black, PieceType::Bishop) => '象',
        (_, PieceType::Knight) => '马',
        (_, PieceType::Rook) => '车',
        (_, PieceType::Cannon) => '炮',
        (Color::Red, PieceType::Pawn) => '兵',
        (Color::Black, PieceType::Pawn) => '卒',
    }
}

/// Files are counted from each side's own right: red from file `i` as 1,
/// black from file `a` as 1.
pub open spec fn file_number(side: Color, file: u8) -> int {
    match side {
        Color::Red => 9 - file,
        Color::Black => file + 1,
    }
}

fn file_number_of(side: Color, file: u8) -> (n: u8)
    requires
        file < 9,
    ensures
        n == file_number(side, file),
{
    match side {
        Color::Red => 9 - file,
        Color::Black => file + 1,
    }
}

/// The Chinese numeral for 1 to 9.
pub open spec fn chinese_digit(n: int) -> char {
    if n == 1 {
        '一'
    } else if n == 2 {
        '二'
    } else if n == 3 {
        '三'
    } else if n == 4 {
        '四'
    } else if n == 5 {
        '五'
    } else if n == 6 {
        '六'
    } else if n == 7 {
        '七'
    } else if n == 8 {
        '八'
    } else if n == 9 {
        '九'
    } else {
        '?'
    }
}

/// Numbers in notation: Arabic digits for black, Chinese numerals for red.
pub open spec fn display_number(side: Color, n: int) -> Seq<char> {
    match side {
        Color::Black => dec_string(n as nat),
        Color::Red => seq![chinese_digit(n)],
    }
}

fn push_number(s: &mut String, side: Color, n: u8)
    ensures
        final(s)@ == old(s)@ + display_number(side, n as int),
{
    match side {
        Color::Black => push_decimal(s, n as u64),
        Color::Red => {
            let c = if n == 1 {
                '一'
            } else if n == 2 {
                '二'
            } else if n == 3 {
                '三'
            } else if n == 4 {
                '四'
            } else if n == 5 {
                '五'
            } else if n == 6 {
                '六'
            } else if n == 7 {
                '七'
            } else if n == 8 {
                '八'
            } else if n == 9 {
                '九'
            } else {
                '?'
            };
            push_char(s, c);
            assert(old(s)@.push(c) == old(s)@ + seq![c]);
        },
    }
}

/// The word that tells apart pieces of one kind on one file: front, rear,
/// middle of three, or else their number from the front.
pub open spec fn relative_prefix(index: int, count: int, side: Color) -> Seq<char> {
    if index == 0 {
        seq!['前']
    } else if index + 1 == count {
        seq!['后']
    } else if index == 1 && count == 3 {
        seq!['中']
    } else {
        display_number(side, index + 1)
    }
}

fn push_relative_prefix(s: &mut String, index: u8, count: u8, side: Color)
    requires
        index < 10,
    ensures
        final(s)@ == old(s)@ + relative_prefix(index as int, count as int, side),
{
    if index == 0 {
        push_char(s, '前');
        assert(old(s)@.push('前') == old(s)@ + seq!['前']);
    } else if index + 1 == count {
        push_char(s, '后');
        assert(old(s)@.push('后') == old(s)@ + seq!['后']);
    } else if index == 1 && count == 3 {
        push_char(s, '中');
        assert(old(s)@.push('中') == old(s)@ + seq!['中']);
    } else {
        push_number(s, side, index + 1);
    }
}

/// How many of the ranks `lo..hi` of `file` hold exactly `p`.
pub open spec fn count_on_file(b: BoardView, file: u8, p: Piece, lo: int, hi: int) -> int
    decreases hi - lo,
{
    if hi <= lo {
        0
    } else {
        count_on_file(b, file, p, lo, hi - 1) + if b.cells[(hi - 1) * 9 + file] == Some(p) {
            1int
        } else {
            0int
        }
    }
}

/// How many pieces like `p` stand in front of `src` on its file, seen from
/// `p`'s side.
pub open spec fn pieces_ahead(b: BoardView, src: Square, p: Piece) -> int {
    match p.color {
        Color::Red => count_on_file(b, src.file, p, src.rank + 1, 10),
        Color::Black => count_on_file(b, src.file, p, 0, src.rank as int),
    }
}

/// Whether a move goes towards the opponent.
pub open spec fn is_forward(side: Color, m: Move) -> bool {
    match side {
        Color::Red => m.dst.rank > m.src.rank,
        Color::Black => m.dst.rank < m.src.rank,
    }
}

/// The number that ends a vertical or diagonal move: the destination file
/// for knights, bishops and advisors, the distance for the others.
pub open spec fn end_number(p: Piece, m: Move) -> int {
    match p.kind {
        PieceType::Knight | PieceType::Bishop | PieceType::Advisor => file_number(
            p.color,
            m.dst.file,
        ),
        _ => if m.src.rank >= m.dst.rank {
            m.src.rank - m.dst.rank
        } else {
            m.dst.rank - m.src.rank
        },
    }
}

/// The notation of `m` on board `b`, such as `马二进三`, `炮8平5` or `前车进一`;
/// the ICCS cells when the source point is empty.
pub open spec fn move_notation(b: BoardView, m: Move) -> Seq<char> {
    match b.at(m.src) {
        None => compact_text(m),
        Some(p) => {
            let side = p.color;
            let count = count_on_file(b, m.src.file, p, 0, 10);
            let head = if count <= 1 {
                seq![piece_name(p)] + display_number(side, file_number(side, m.src.file))
            } else {
                relative_prefix(pieces_ahead(b, m.src, p), count, side) + seq![piece_name(p)]
            };
            if m.src.rank == m.dst.rank {
                head + seq!['平'] + display_number(side, file_number(side, m.dst.file))
            } else {
                head + seq![
                    if is_forward(side, m) {
                        '进'
                    } else {
                        '退'
                    },
                ] + display_number(side, end_number(p, m))
            }
        },
    }
}

proof fn lemma_count_bounds(b: BoardView, file: u8, p: Piece, lo: int, hi: int)
    ensures
        0 <= count_on_file(b, file, p, lo, hi),
        hi >= lo ==> count_on_file(b, file, p, lo, hi) <= hi - lo,
    decreases hi - lo,
{
    if hi > lo {
        lemma_count_bounds(b, file, p, lo, hi - 1);
    }
}

proof fn lemma_count_split(b: BoardView, file: u8, p: Piece, lo: int, mid: int, hi: int)
    requires
        lo <= mid <= hi,
    ensures
        count_on_file(b, file, p, lo, hi) == count_on_file(b, file, p, lo, mid) + count_on_file(
            b,
            file,
            p,
            mid,
            hi,
        ),
    decreases hi - mid,
{
    if hi > mid {
        lemma_count_split(b, file, p, lo, mid, hi - 1);
    }
}

/// Counts the ranks `lo..hi` of `file` holding exactly `p`.
fn count_file(board: &BoardSnapshot, file: u8, p: Piece, lo: u8, hi: u8) -> (n: u8)
    requires
        board@.wf(),
        file < 9,
        lo <= hi <= 10,
    ensures
        n == count_on_file(board@, file, p, lo as int, hi as int),
{
    let mut n: u8 = 0;
    let mut r: u8 = lo;
    while r < hi
        invariant
            board@.wf(),
            file < 9,
            lo <= r <= hi <= 10,
            n == count_on_file(board@, file, p, lo as int, r as int),
            n <= r - lo,
        decreases hi - r,
    {
        let sq = Square { rank: r, file };
        if board.piece_at(sq) == Some(p) {
            n = n + 1;
        }
        r = r + 1;
    }
    n
}

fn push_head_number(s: &mut String, side: Color, file: u8)
    requires
        file < 9,
    ensures
        final(s)@ == old(s)@ + display_number(side, file_number(side, file)),
{
    let n = file_number_of(side, file);
    push_number(s, side, n);
}

/// Writes `mv` in Chinese notation as seen on `board`.
pub fn format_move(board: &BoardSnapshot, mv: Move) -> (r: String)
    requires
        board@.wf(),
        move_wf(mv),
    ensures
        r@ == move_notation(board@, mv),
{
    let piece = match board.piece_at(mv.src) {
        Some(p) => p,
        None => {
            return mv.to_compact();
        },
    };
    let side = piece.color;
    let src = mv.src;
    let dst = mv.dst;
    let count = count_file(board, src.file, piece, 0, 10);
    let mut s = String::new();
    if count <= 1 {
        push_char(&mut s, piece_name_char(piece));
        push_head_number(&mut s, side, src.file);
    } else {
        let index = match side {
            Color::Red => count_file(board, src.file, piece, src.rank + 1, 10),
            Color::Black => count_file(board, src.file, piece, 0, src.rank),
        };
        proof {
            lemma_count_bounds(board@, src.file, piece, src.rank + 1, 10);
            lemma_count_bounds(board@, src.file, piece, 0, src.rank as int);
        }
        push_relative_prefix(&mut s, index, count, side);
        push_char(&mut s, piece_name_char(piece));
    }
    let ghost head = s@;
    if src.rank == dst.rank {
        push_char(&mut s, '平');
        push_head_number(&mut s, side, dst.file);
        assert(s@ == head + seq!['平'] + display_number(side, file_number(side, dst.file)));
        return s;
    }
    let forward = match side {
        Color::Red => dst.rank > src.rank,
        Color::Black => dst.rank < src.rank,
    };
    push_char(&mut s, if forward { '进' } else { '退' });
    let end: u8 = match piece.kind {
        PieceType::Knight | PieceType::Bishop | PieceType::Advisor => file_number_of(side, dst.file),
        _ => if src.rank >= dst.rank {
            src.rank - dst.rank
        } else {
            dst.rank - src.rank
        },
    };
    push_number(&mut s, side, end);
    assert(s@ == head + seq![
        if forward {
            '进'
        } else {
            '退'
        },
    ] + display_number(side, end as int));
    s
}

// ---------------------------------------------------------------------------
// Principal variations
// ---------------------------------------------------------------------------

/// The notations of the moves of a line played out on `b`, stopping at the
/// first move whose source point is empty, and after `limit` moves.
pub open spec fn pv_notations(b: BoardView, moves: Seq<Move>, limit: int) -> Seq<Seq<char>>
    decreases moves.len(),
{
    if moves.len() == 0 || limit <= 0 || b.at(moves[0].src) is None {
        Seq::empty()
    } else {
        seq![move_notation(b, moves[0])] + pv_notations(b.apply(moves[0]), moves.drop_first(), limit - 1)
    }
}

/// The words joined with single spaces.
pub open spec fn join_words(ws: Seq<Seq<char>>, sep: Seq<char>) -> Seq<char>
    decreases ws.len(),
{
    if ws.len() == 0 {
        Seq::empty()
    } else if ws.len() == 1 {
        ws[0]
    } else {
        join_words(ws.drop_last(), sep) + sep + ws.last()
    }
}

/// Writes the first `max_plies` moves of a line in notation, separated by
/// spaces, playing each on a copy of `position`; stops at a move whose
/// source point is empty.
pub fn format_pv(position: &BoardSnapshot, moves: &[Move], max_plies: usize) -> (r: String)
    requires
        position@.wf(),
        forall|i: int| 0 <= i < moves@.len() ==> move_wf(#[trigger] moves@[i]),
    ensures
        r@ == join_words(pv_notations(position@, moves@, max_plies as int), seq![' ']),
{
    let mut board = BoardSnapshot { cells: copy_cells(&position.cells), side: position.side };
    let mut s = String::new();
    let mut done: Ghost<Seq<Seq<char>>> = Ghost(Seq::empty());
    let mut i: usize = 0;
    let target = Ghost(pv_notations(position@, moves@, max_plies as int));
    assert(moves@.skip(0) == moves@);
    while i < moves.len() && i < max_plies
        invariant_except_break
            board@.wf(),
            i <= moves@.len(),
            i <= max_plies,
            forall|k: int| 0 <= k < moves@.len() ==> move_wf(#[trigger] moves@[k]),
            done@ + pv_notations(board@, moves@.skip(i as int), max_plies - i) == target@,
            s@ == join_words(done@, seq![' ']),
            done@.len() == i,
        ensures
            s@ == join_words(target@, seq![' ']),
        decreases moves@.len() - i,
    {
        let mv = moves[i];
        assert(moves@.skip(i as int)[0] == mv);
        assert(moves@.skip(i as int).drop_first() == moves@.skip(i + 1));
        if board.piece_at(mv.src).is_none() {
            assert(done@ + Seq::<Seq<char>>::empty() == done@);
            break;
        }
        let text = format_move(&board, mv);
        let ghost before = s@;
        if i > 0 {
            push_char(&mut s, ' ');
        }
        push_chars(&mut s, chars_of(text.as_str()).as_slice());
        proof {
            let d2 = done@.push(text@);
            assert(d2.drop_last() =~= done@);
            if i > 0 {
                assert(s@ == join_words(done@, seq![' ']) + seq![' '] + text@);
            } else {
                assert(s@ == text@);
            }
            assert(seq![text@] + pv_notations(board@.apply(mv), moves@.skip(i + 1), max_plies - i - 1)
                == pv_notations(board@, moves@.skip(i as int), max_plies - i));
            assert(done@ + (seq![text@] + pv_notations(board@.apply(mv), moves@.skip(i + 1), max_plies - i - 1))
                == d2 + pv_notations(board@.apply(mv), moves@.skip(i + 1), max_plies - i - 1));
            done@ = d2;
        }
        let applied = board.apply(mv);
        i = i + 1;
    }
    proof {
        if i == moves@.len() || i == max_plies {
            assert(pv_notations(board@, moves@.skip(i as int), max_plies - i) == Seq::<Seq<char>>::empty());
            assert(done@ + Seq::<Seq<char>>::empty() == done@);
        }
    }
    s
}

fn copy_cells(cells: &Vec<Option<Piece>>) -> (r: Vec<Option<Piece>>)
    ensures
        r@ == cells@,
{
    let mut r: Vec<Option<Piece>> = Vec::new();
    let mut i: usize = 0;
    while i < cells.len()
        invariant
            i <= cells@.len(),
            r@ == cells@.take(i as int),
        decreases cells@.len() - i,
    {
        r.push(cells[i]);
        i = i + 1;
    }
    assert(cells@.take(cells@.len() as int) == cells@);
    r
}

/// The moves that the ICCS texts name, skipping those that name none.
pub open spec fn pv_moves(raw: Seq<Seq<char>>) -> Seq<Move>
    decreases raw.len(),
{
    if raw.len() == 0 {
        Seq::empty()
    } else {
        pv_moves(raw.drop_last()) + match iccs_move(raw.last()) {
            Some(m) => seq![m],
            None => Seq::empty(),
        }
    }
}

/// The moves read from a principal variation lie on the board.
pub proof fn lemma_pv_moves_wf(raw: Seq<Seq<char>>)
    ensures
        forall|i: int| 0 <= i < pv_moves(raw).len() ==> move_wf(#[trigger] pv_moves(raw)[i]),
    decreases raw.len(),
{
    if raw.len() > 0 {
        lemma_pv_moves_wf(raw.drop_last());
        lemma_iccs_move_wf(raw.last());
        let head = pv_moves(raw.drop_last());
        let tail = match iccs_move(raw.last()) {
            Some(m) => seq![m],
            None => Seq::<Move>::empty(),
        };
        assert forall|i: int| 0 <= i < pv_moves(raw).len() implies move_wf(#[trigger] pv_moves(raw)[i]) by {
            if i < head.len() {
                assert(pv_moves(raw)[i] == head[i]);
            } else {
                assert(pv_moves(raw)[i] == tail[i - head.len()]);
            }
        }
    }
}

/// Reads the moves of a principal variation given in ICCS text.
pub fn parse_pv(raw: &[String]) -> (r: Vec<Move>)
    requires
        forall|i: int| 0 <= i < raw@.len() ==> !iccs_splits_char(#[trigger] raw@[i]@),
    ensures
        r@ == pv_moves(raw@.map_values(|s: String| s@)),
{
    let ghost views = raw@.map_values(|s: String| s@);
    let mut r: Vec<Move> = Vec::new();
    let mut i: usize = 0;
    while i < raw.len()
        invariant
            i <= raw@.len(),
            views == raw@.map_values(|s: String| s@),
            forall|k: int| 0 <= k < raw@.len() ==> !iccs_splits_char(#[trigger] raw@[k]@),
            r@ == pv_moves(views.take(i as int)),
        decreases raw@.len() - i,
    {
        assert(views.take(i + 1).drop_last() == views.take(i as int));
        assert(views.take(i + 1).last() == raw@[i as int]@);
        match iccs_to_move(raw[i].as_str()) {
            Some(m) => {
                r.push(m);
            },
            None => {
                assert(r@ + Seq::<Move>::empty() == r@);
            },
        }
        i = i + 1;
    }
    assert(views.take(raw@.len() as int) == views);
    r
}

// ---------------------------------------------------------------------------
// Normalising notation
// ---------------------------------------------------------------------------

/// One character of notation in normal form: separators vanish, numerals
/// become Arabic digits, traditional and alternative piece characters become
/// the simplified red-neutral ones, and ASCII letters become small.
pub open spec fn norm_char(c: char) -> Option<char> {
    if is_ws(c) || c == '-' || c == '－' || c == '—' || c == '_' {
        None
    } else {
        Some(
            if c == '１' || c == '一' || c == '壹' {
                '1'
            } else if c == '２' || c == '二' || c == '贰' || c == '貳' || c == '两' || c == '兩' {
                '2'
            } else if c == '３' || c == '三' || c == '叁' || c == '參' {
                '3'
            } else if c == '４' || c == '四' || c == '肆' {
                '4'
            } else if c == '５' || c == '五' || c == '伍' {
                '5'
            } else if c == '６' || c == '六' || c == '陆' || c == '陸' {
                '6'
            } else if c == '７' || c == '七' || c == '柒' {
                '7'
            } else if c == '８' || c == '八' || c == '捌' {
                '8'
            } else if c == '９' || c == '九' || c == '玖' {
                '9'
            } else if c == '車' || c == '俥' {
                '车'
            } else if c == '馬' || c == '傌' {
                '马'
            } else if c == '帥' || c == '帅' || c == '將' {
                '将'
            } else if c == '仕' {
                '士'
            } else if c == '相' {
                '象'
            } else if c == '砲' {
                '炮'
            } else if c == '卒' {
                '兵'
            } else if c == '進' {
                '进'
            } else if c == '後' {
                '后'
            } else {
                lower(c)
            },
        )
    }
}

/// Notation text in normal form.
pub open spec fn normalize(s: Seq<char>) -> Seq<char>
    decreases s.len(),
{
    if s.len() == 0 {
        Seq::empty()
    } else {
        normalize(s.drop_last()) + match norm_char(s.last()) {
            Some(c) => seq![c],
            None => Seq::empty(),
        }
    }
}

proof fn lemma_norm_char_fixed(c: char)
    ensures
        norm_char(c) is Some ==> norm_char(norm_char(c)->0) == norm_char(c),
{
}

proof fn lemma_normalize_concat(a: Seq<char>, b: Seq<char>)
    ensures
        normalize(a + b) == normalize(a) + normalize(b),
    decreases b.len(),
{
    if b.len() == 0 {
        assert(a + b =~= a);
        assert(normalize(a) + normalize(b) =~= normalize(a));
    } else {
        lemma_normalize_concat(a, b.drop_last());
        assert((a + b).drop_last() =~= a + b.drop_last());
        assert((a + b).last() == b.last());
    }
}

/// Normalising notation twice is normalising it once: text in normal form
/// is left as it is.
pub proof fn lemma_normalize_idempotent(s: Seq<char>)
    ensures
        normalize(normalize(s)) == normalize(s),
    decreases s.len(),
{
    if s.len() > 0 {
        let head = normalize(s.drop_last());
        let tail: Seq<char> = match norm_char(s.last()) {
            Some(c) => seq![c],
            None => Seq::empty(),
        };
        lemma_normalize_idempotent(s.drop_last());
        lemma_normalize_concat(head, tail);
        lemma_norm_char_fixed(s.last());
        if tail.len() == 1 {
            assert(tail.drop_last() =~= Seq::<char>::empty());
            assert(normalize(tail) == normalize(Seq::<char>::empty()) + seq![tail[0]]);
        }
        assert(normalize(tail) =~= tail);
    }
}

fn norm_char_of(c: char) -> (r: Option<char>)
    ensures
        r == norm_char(c),
{
    if is_whitespace(c) || c == '-' || c == '－' || c == '—' || c == '_' {
        return None;
    }
    Some(
        if c == '１' || c == '一' || c == '壹' {
            '1'
        } else if c == '２' || c == '二' || c == '贰' || c == '貳' || c == '两' || c == '兩' {
            '2'
        } else if c == '３' || c == '三' || c == '叁' || c == '參' {
            '3'
        } else if c == '４' || c == '四' || c == '肆' {
            '4'
        } else if c == '５' || c == '五' || c == '伍' {
            '5'
        } else if c == '６' || c == '六' || c == '陆' || c == '陸' {
            '6'
        } else if c == '７' || c == '七' || c == '柒' {
            '7'
        } else if c == '８' || c == '八' || c == '捌' {
            '8'
        } else if c == '９' || c == '九' || c == '玖' {
            '9'
        } else if c == '車' || c == '俥' {
            '车'
        } else if c == '馬' || c == '傌' {
            '马'
        } else if c == '帥' || c == '帅' || c == '將' {
            '将'
        } else if c == '仕' {
            '士'
        } else if c == '相' {
            '象'
        } else if c == '砲' {
            '炮'
        } else if c == '卒' {
            '兵'
        } else if c == '進' {
            '进'
        } else if c == '後' {
            '后'
        } else {
            ascii_lower(c)
        },
    )
}

/// Brings notation text into normal form, character by character.
pub fn normalize_chars(s: &[char]) -> (r: Vec<char>)
    ensures
        r@ == normalize(s@),
{
    let mut r: Vec<char> = Vec::new();
    let mut i: usize = 0;
    while i < s.len()
        invariant
            i <= s@.len(),
            r@ == normalize(s@.take(i as int)),
        decreases s@.len() - i,
    {
        assert(s@.take(i + 1).drop_last() == s@.take(i as int));
        match norm_char_of(s[i]) {
            Some(c) => {
                r.push(c);
            },
            None => {
                assert(r@ + Seq::<char>::empty() == r@);
            },
        }
        i = i + 1;
    }
    assert(s@.take(s@.len() as int) == s@);
    r
}

/// Brings notation text into normal form, so that `馬二進三`, `马2进3` and
/// `马 二 进 三` all compare equal.
pub fn normalize_notation(input: &str) -> (r: String)
    ensures
        r@ == normalize(input@),
{
    let cs = chars_of(input);
    let n = normalize_chars(cs.as_slice());
    string_of(n.as_slice())
}

// ---------------------------------------------------------------------------
// Reading a move
// ---------------------------------------------------------------------------

/// Why typed text is not a move.
#[derive(Debug, Clone, PartialEq, Eq)]
pub enum MoveInputError {
    /// Nothing was typed.
    Empty,
    /// No legal move reads like the text; some that might have been meant.
    Illegal { suggestions: Vec<String> },
    /// Several legal moves read like the text.
    Ambiguous { candidates: Vec<String> },
}

/// The mathematical content of a [`MoveInputError`].
pub enum InputErrorView {
    Empty,
    Illegal(Seq<Seq<char>>),
    Ambiguous(Seq<Seq<char>>),
}

impl View for MoveInputError {
    type V = InputErrorView;

    open spec fn view(&self) -> InputErrorView {
        match self {
            MoveInputError::Empty => InputErrorView::Empty,
            MoveInputError::Illegal { suggestions } => InputErrorView::Illegal(
                suggestions@.map_values(|s: String| s@),
            ),
            MoveInputError::Ambiguous { candidates } => InputErrorView::Ambiguous(
                candidates@.map_values(|s: String| s@),
            ),
        }
    }
}

/// The words joined with `sep`.
fn push_joined(s: &mut String, words: &Vec<String>, sep: &str)
    ensures
        final(s)@ == old(s)@ + join_words(words@.map_values(|w: String| w@), sep@),
{
    let ghost views = words@.map_values(|w: String| w@);
    let ghost start = s@;
    let mut i: usize = 0;
    while i < words.len()
        invariant
            i <= words@.len(),
            views == words@.map_values(|w: String| w@),
            s@ == start + join_words(views.take(i as int), sep@),
        decreases words@.len() - i,
    {
        let ghost before = s@;
        assert(views.take(i + 1).drop_last() =~= views.take(i as int));
        assert(views.take(i + 1).last() == words@[i as int]@);
        if i > 0 {
            s.append(sep);
        }
        s.append(words[i].as_str());
        i = i + 1;
    }
    assert(views.take(words@.len() as int) == views);
}

impl MoveInputError {
    /// The message shown for the error.
    pub open spec fn spec_message(v: InputErrorView) -> Seq<char> {
        match v {
            InputErrorView::Empty => "请输入着法"@,
            InputErrorView::Illegal(suggestions) => if suggestions.len() == 0 {
                "没有找到对应的合法着法"@
            } else {
                "没有这步棋，可走："@ + join_words(suggestions, "  "@)
            },
            InputErrorView::Ambiguous(candidates) => "着法有歧义："@ + join_words(candidates, "  "@),
        }
    }

    /// The message shown for the error, such as `没有这步棋，可走：马二进三  马八进七`.
    pub fn message(&self) -> (r: String)
        ensures
            r@ == Self::spec_message(self@),
    {
        let mut s = String::new();
        match self {
            MoveInputError::Empty => {
                s.append("请输入着法");
            },
            MoveInputError::Illegal { suggestions } => {
                if suggestions.len() == 0 {
                    s.append("没有找到对应的合法着法");
                } else {
                    s.append("没有这步棋，可走：");
                    push_joined(&mut s, suggestions, "  ");
                }
            },
            MoveInputError::Ambiguous { candidates } => {
                s.append("着法有歧义：");
                push_joined(&mut s, candidates, "  ");
            },
        }
        s
    }
}

/// The characters that name a kind of piece in normal form.
pub open spec fn is_piece_char(c: char) -> bool {
    c == '将' || c == '士' || c == '象' || c == '马' || c == '车' || c == '炮' || c == '兵'
}

/// The first character of `s` that names a kind of piece.
pub open spec fn first_piece_char(s: Seq<char>) -> Option<char>
    decreases s.len(),
{
    if s.len() == 0 {
        None
    } else if is_piece_char(s[0]) {
        Some(s[0])
    } else {
        first_piece_char(s.drop_first())
    }
}

/// The notations of the legal moves that mention the wanted piece, when
/// the input names one.
pub open spec fn suggestion_pool(b: BoardView, legal: Seq<Move>, wanted: Option<char>) -> Seq<Seq<char>>
    decreases legal.len(),
{
    if legal.len() == 0 {
        Seq::empty()
    } else {
        let text = move_notation(b, legal.last());
        suggestion_pool(b, legal.drop_last(), wanted) + if match wanted {
            None => true,
            Some(p) => normalize(text).contains(p),
        } {
            seq![text]
        } else {
            Seq::empty()
        }
    }
}

/// Strictly increasing in `String`'s order.
pub open spec fn sorted_strict(r: Seq<Seq<char>>) -> bool {
    forall|i: int, j: int| 0 <= i < j < r.len() ==> seq_lt(#[trigger] r[i], #[trigger] r[j])
}

/// `r` lists the (at most) six smallest distinct texts of `pool`, in order.
pub open spec fn first_six(r: Seq<Seq<char>>, pool: Seq<Seq<char>>) -> bool {
    &&& sorted_strict(r)
    &&& r.len() <= 6
    &&& forall|i: int| 0 <= i < r.len() ==> pool.contains(#[trigger] r[i])
    &&& forall|k: int|
        0 <= k < pool.len() ==> r.contains(#[trigger] pool[k]) || (r.len() == 6 && seq_lt(
            r.last(),
            pool[k],
        ))
}

/// The suggestions for text that names no legal move: the first six
/// distinct notations, in order, of the legal moves of the piece the text
/// names (of all legal moves, when it names none).
pub open spec fn is_suggestion_list(r: Seq<Seq<char>>, input: Seq<char>, b: BoardView, legal: Seq<Move>) -> bool {
    first_six(r, suggestion_pool(b, legal, first_piece_char(normalize(input))))
}

/// The legal moves whose notation reads like `target` in normal form.
pub open spec fn matching_moves(b: BoardView, legal: Seq<Move>, target: Seq<char>) -> Seq<Move>
    decreases legal.len(),
{
    if legal.len() == 0 {
        Seq::empty()
    } else {
        matching_moves(b, legal.drop_last(), target) + if normalize(
            move_notation(b, legal.last()),
        ) == target {
            seq![legal.last()]
        } else {
            Seq::empty()
        }
    }
}

/// How an ambiguous match is listed: `车九进一 (a0a1)`.
pub open spec fn candidate_text(b: BoardView, m: Move) -> Seq<char> {
    move_notation(b, m) + " ("@ + compact_text(m) + ")"@
}

/// The text with whitespace and `-` removed and ASCII letters made small,
/// read as ICCS coordinates.
pub open spec fn coordinate_text(t: Seq<char>) -> Seq<char>
    decreases t.len(),
{
    if t.len() == 0 {
        Seq::empty()
    } else {
        coordinate_text(t.drop_last()) + if is_ws(t.last()) || t.last() == '-' {
            Seq::empty()
        } else {
            seq![lower(t.last())]
        }
    }
}

/// The outcome of reading typed text as one of the legal moves.
pub enum ParseOutcome {
    Move(Move),
    Empty,
    Illegal,
    Ambiguous(Seq<Seq<char>>),
}

/// Reading typed text: empty text is an error; ICCS coordinates of a legal
/// move name it; otherwise the legal moves whose notation reads the same in
/// normal form are the matches, and exactly one match is needed.
pub open spec fn spec_parse_move(input: Seq<char>, b: BoardView, legal: Seq<Move>) -> ParseOutcome {
    let t = trim(input);
    if t.len() == 0 {
        ParseOutcome::Empty
    } else {
        match iccs_move(coordinate_text(t)) {
            Some(m) if legal.contains(m) => ParseOutcome::Move(m),
            _ => {
                let matches = matching_moves(b, legal, normalize(t));
                if matches.len() == 1 {
                    ParseOutcome::Move(matches[0])
                } else if matches.len() == 0 {
                    ParseOutcome::Illegal
                } else {
                    ParseOutcome::Ambiguous(matches.map_values(|m: Move| candidate_text(b, m)))
                }
            },
        }
    }
}

/// A character that notation is written with: a digit, `?`, or a CJK
/// ideograph.
pub open spec fn notation_char(c: char) -> bool {
    c == '?' || ('0' <= c && c <= '9') || c >= '\u{4e00}'
}

proof fn lemma_dec_string_chars(n: nat)
    ensures
        forall|i: int| 0 <= i < dec_string(n).len() ==> notation_char(#[trigger] dec_string(n)[i]),
        dec_string(n).len() > 0,
    decreases n,
{
    if n >= 10 {
        lemma_dec_string_chars(n / 10);
    }
}

proof fn lemma_number_chars(side: Color, n: int)
    ensures
        forall|i: int| 0 <= i < display_number(side, n).len() ==> notation_char(
            #[trigger] display_number(side, n)[i],
        ),
        display_number(side, n).len() > 0,
{
    if side == Color::Black {
        lemma_dec_string_chars(n as nat);
    }
}

proof fn lemma_all_chars_concat(a: Seq<char>, b: Seq<char>)
    requires
        forall|i: int| 0 <= i < a.len() ==> notation_char(#[trigger] a[i]),
        forall|i: int| 0 <= i < b.len() ==> notation_char(#[trigger] b[i]),
    ensures
        forall|i: int| 0 <= i < (a + b).len() ==> notation_char(#[trigger] (a + b)[i]),
{
    assert forall|i: int| 0 <= i < (a + b).len() implies notation_char(#[trigger] (a + b)[i]) by {
        if i < a.len() {
            assert((a + b)[i] == a[i]);
        } else {
            assert((a + b)[i] == b[i - a.len()]);
        }
    }
}

/// Notation of a move from an occupied point is written with notation
/// characters only, and starts with no letter.
proof fn lemma_notation_chars(b: BoardView, m: Move)
    requires
        b.at(m.src) is Some,
    ensures
        forall|i: int| 0 <= i < move_notation(b, m).len() ==> notation_char(#[trigger] move_notation(b, m)[i]),
        move_notation(b, m).len() > 0,
{
    let p = b.at(m.src)->0;
    let side = p.color;
    let count = count_on_file(b, m.src.file, p, 0, 10);
    let name = seq![piece_name(p)];
    assert(notation_char(piece_name(p)));
    lemma_number_chars(side, file_number(side, m.src.file));
    let head = if count <= 1 {
        lemma_all_chars_concat(name, display_number(side, file_number(side, m.src.file)));
        name + display_number(side, file_number(side, m.src.file))
    } else {
        let index = pieces_ahead(b, m.src, p);
        let prefix = relative_prefix(index, count, side);
        lemma_number_chars(side, index + 1);
        assert forall|i: int| 0 <= i < prefix.len() implies notation_char(#[trigger] prefix[i]) by {}
        lemma_all_chars_concat(prefix, name);
        prefix + name
    };
    if m.src.rank == m.dst.rank {
        lemma_number_chars(side, file_number(side, m.dst.file));
        lemma_all_chars_concat(head, seq!['平']);
        lemma_all_chars_concat(head + seq!['平'], display_number(side, file_number(side, m.dst.file)));
    } else {
        let act = seq![
            if is_forward(side, m) {
                '进'
            } else {
                '退'
            },
        ];
        lemma_number_chars(side, end_number(p, m));
        lemma_all_chars_concat(head, act);
        lemma_all_chars_concat(head + act, display_number(side, end_number(p, m)));
    }
}

proof fn lemma_coordinate_of_notation(t: Seq<char>)
    requires
        forall|i: int| 0 <= i < t.len() ==> notation_char(#[trigger] t[i]),
    ensures
        coordinate_text(t) == t,
    decreases t.len(),
{
    if t.len() > 0 {
        lemma_coordinate_of_notation(t.drop_last());
        assert(notation_char(t.last()));
        assert(t.drop_last().push(t.last()) =~= t);
    }
}

proof fn lemma_matching_none(b: BoardView, legal: Seq<Move>, target: Seq<char>)
    requires
        forall|i: int| 0 <= i < legal.len() ==> normalize(move_notation(b, #[trigger] legal[i])) != target,
    ensures
        matching_moves(b, legal, target) == Seq::<Move>::empty(),
    decreases legal.len(),
{
    if legal.len() > 0 {
        lemma_matching_none(b, legal.drop_last(), target);
        assert(legal.last() == legal[legal.len() - 1]);
    }
}

proof fn lemma_matching_single(b: BoardView, legal: Seq<Move>, m: Move, target: Seq<char>)
    requires
        legal.contains(m),
        legal.no_duplicates(),
        normalize(move_notation(b, m)) == target,
        forall|i: int|
            0 <= i < legal.len() && normalize(move_notation(b, #[trigger] legal[i])) == target ==> legal[i] == m,
    ensures
        matching_moves(b, legal, target) == seq![m],
    decreases legal.len(),
{
    let rest = legal.drop_last();
    if legal.last() == m {
        assert forall|i: int| 0 <= i < rest.len() implies normalize(move_notation(b, #[trigger] rest[i])) != target by {
            assert(rest[i] == legal[i]);
            if normalize(move_notation(b, legal[i])) == target {
                assert(legal[i] == m);
                assert(legal[i] == legal[legal.len() - 1]);
            }
        }
        lemma_matching_none(b, rest, target);
        assert(Seq::<Move>::empty() + seq![m] =~= seq![m]);
    } else {
        let k = choose|k: int| 0 <= k < legal.len() && legal[k] == m;
        assert(k < legal.len() - 1);
        assert(rest[k] == m);
        assert forall|i: int|
            0 <= i < rest.len() && normalize(move_notation(b, #[trigger] rest[i])) == target implies rest[i] == m by {
            assert(rest[i] == legal[i]);
        }
        lemma_matching_single(b, rest, m, target);
        assert(normalize(move_notation(b, legal.last())) != target) by {
            assert(legal.last() == legal[legal.len() - 1]);
        }
        assert(seq![m] + Seq::<Move>::empty() =~= seq![m]);
    }
}

/// Reading text as coordinates keeps text that has no whitespace, no dash
/// and no capital letter as it is.
proof fn lemma_coordinate_of_plain(t: Seq<char>)
    requires
        forall|i: int| 0 <= i < t.len() ==> !is_ws(#[trigger] t[i]) && t[i] != '-' && lower(t[i]) == t[i],
    ensures
        coordinate_text(t) == t,
    decreases t.len(),
{
    if t.len() > 0 {
        lemma_coordinate_of_plain(t.drop_last());
        assert(t.last() == t[t.len() - 1]);
        assert(t.drop_last().push(t.last()) =~= t);
    }
}

/// Reading text as coordinates reads its parts one after the other.
proof fn lemma_coordinate_concat(a: Seq<char>, b: Seq<char>)
    ensures
        coordinate_text(a + b) == coordinate_text(a) + coordinate_text(b),
    decreases b.len(),
{
    if b.len() == 0 {
        assert(a + b =~= a);
        assert(coordinate_text(a) + coordinate_text(b) =~= coordinate_text(a));
    } else {
        lemma_coordinate_concat(a, b.drop_last());
        assert((a + b).drop_last() =~= a + b.drop_last());
        assert((a + b).last() == b.last());
        let x = if is_ws(b.last()) || b.last() == '-' {
            Seq::<char>::empty()
        } else {
            seq![lower(b.last())]
        };
        assert(coordinate_text(a) + coordinate_text(b.drop_last()) + x =~= coordinate_text(a) + (
        coordinate_text(b.drop_last()) + x));
    }
}

/// The coordinates of a move read as coordinates are its compact ICCS text.
proof fn lemma_coordinates_of_move(m: Move)
    requires
        move_wf(m),
    ensures
        coordinate_text(compact_text(m)) == compact_text(m),
        !(m.src.rank == 0 && m.src.file == 0 && m.dst.rank == 0 && m.dst.file == 0) ==> coordinate_text(
            iccs_text(m),
        ) == compact_text(m),
{
    let a = m.src.spec_iccs();
    let d = m.dst.spec_iccs();
    lemma_coordinate_of_plain(a);
    lemma_coordinate_of_plain(d);
    lemma_coordinate_concat(a, d);
    lemma_coordinate_concat(a, seq!['-']);
    lemma_coordinate_concat(a + seq!['-'], d);
    reveal_with_fuel(coordinate_text, 2);
    assert(coordinate_text(seq!['-']) =~= Seq::<char>::empty());
    assert(a + Seq::<char>::empty() =~= a);
}

/// A legal move written in ICCS coordinates, compact (`h2e2`) or with its
/// dash (`h2-e2`, as `Move::to_iccs` writes it), is read back as that move;
/// the text meets what [`parse_move`] asks of it.
pub proof fn lemma_coordinates_read_back(b: BoardView, legal: Seq<Move>, m: Move)
    requires
        move_wf(m),
        m.src != m.dst,
        legal.contains(m),
    ensures
        !iccs_splits_char(coordinate_text(trim(compact_text(m)))),
        spec_parse_move(compact_text(m), b, legal) == ParseOutcome::Move(m),
        !iccs_splits_char(coordinate_text(trim(iccs_text(m)))),
        spec_parse_move(iccs_text(m), b, legal) == ParseOutcome::Move(m),
{
    lemma_coordinates_of_move(m);
    lemma_compact_text_roundtrip(m);
    lemma_compact_text_no_split(m);
    let c = compact_text(m);
    assert forall|k: int| 0 <= k < c.len() implies !is_ws(#[trigger] c[k]) by {}
    crate::text::lemma_trim_of_clean(c);
    let t = iccs_text(m);
    assert(!(m.src.rank == 0 && m.src.file == 0 && m.dst.rank == 0 && m.dst.file == 0));
    assert forall|k: int| 0 <= k < t.len() implies !is_ws(#[trigger] t[k]) by {}
    crate::text::lemma_trim_of_clean(t);
}

/// Reading the notation of a move whose source point holds a piece cuts no
/// character: the word for the way it moves alone takes three bytes, and
/// there are two more characters.
proof fn lemma_notation_no_split(b: BoardView, m: Move)
    requires
        b.at(m.src) is Some,
    ensures
        !iccs_splits_char(move_notation(b, m)),
{
    let n = move_notation(b, m);
    let p = b.at(m.src)->0;
    let side = p.color;
    let count = count_on_file(b, m.src.file, p, 0, 10);
    let head = if count <= 1 {
        seq![piece_name(p)] + display_number(side, file_number(side, m.src.file))
    } else {
        relative_prefix(pieces_ahead(b, m.src, p), count, side) + seq![piece_name(p)]
    };
    let act = if m.src.rank == m.dst.rank {
        '平'
    } else if is_forward(side, m) {
        '进'
    } else {
        '退'
    };
    let num = if m.src.rank == m.dst.rank {
        display_number(side, file_number(side, m.dst.file))
    } else {
        display_number(side, end_number(p, m))
    };
    assert(num.len() >= 1) by {
        reveal_with_fuel(crate::text::dec_string, 2);
    }
    assert(head.len() >= 1);
    assert(n =~= head + seq![act] + num);
    assert(n[head.len() as int] == act);
    lemma_utf8_len_with(n, head.len() as int);
    lemma_notation_chars(b, m);
    assert forall|k: int| 0 <= k < n.len() implies !is_ws(#[trigger] n[k]) by {
        assert(notation_char(n[k]));
    }
    crate::text::lemma_trim_of_clean(n);
    assert(utf8_len(n) >= 5);
}

/// A legal move written as the program writes it is read back as that move,
/// when no other legal move is written the same way (up to the normal form).
pub proof fn lemma_written_move_reads_back(b: BoardView, legal: Seq<Move>, m: Move)
    requires
        move_wf(m),
        legal.contains(m),
        legal.no_duplicates(),
        forall|i: int|
            0 <= i < legal.len() && normalize(move_notation(b, #[trigger] legal[i])) == normalize(
                move_notation(b, m),
            ) ==> legal[i] == m,
    ensures
        !iccs_splits_char(coordinate_text(trim(move_notation(b, m)))),
        spec_parse_move(move_notation(b, m), b, legal) == ParseOutcome::Move(m),
{
    if b.at(m.src) is None {
        lemma_coordinates_of_move(m);
        lemma_compact_text_roundtrip(m);
        lemma_compact_text_no_split(m);
        let c = compact_text(m);
        assert forall|k: int| 0 <= k < c.len() implies !is_ws(#[trigger] c[k]) by {}
        crate::text::lemma_trim_of_clean(c);
    } else {
        lemma_notation_no_split(b, m);
        let n = move_notation(b, m);
        lemma_notation_chars(b, m);
        assert forall|k: int| 0 <= k < n.len() implies !is_ws(#[trigger] n[k]) by {
            assert(notation_char(n[k]));
        }
        crate::text::lemma_trim_of_clean(n);
        lemma_coordinate_of_notation(n);
        assert forall|k: int| 0 <= k < n.len() implies n[k] != '-' by {
            assert(notation_char(n[k]));
        }
        crate::iccs::lemma_no_dash_first_index(n);
        assert(notation_char(n[0]));
        if n.len() == 4 {
            assert(n.take(2)[0] == n[0]);
        }
        assert(iccs_move(n) is None);
        lemma_matching_single(b, legal, m, normalize(n));
    }
}

/// The words that say which way a piece goes.
pub open spec fn direction_word(c: char) -> bool {
    c == '进' || c == '退' || c == '平'
}

proof fn lemma_dec_string_digits(n: nat)
    ensures
        forall|i: int| 0 <= i < dec_string(n).len() ==> '0' <= #[trigger] dec_string(n)[i] <= '9',
    decreases n,
{
    lemma_digit_char_is_digit(n % 10);
    if n >= 10 {
        lemma_dec_string_digits(n / 10);
        let d = dec_string(n);
        assert forall|i: int| 0 <= i < d.len() implies '0' <= #[trigger] d[i] <= '9' by {
            if i < d.len() - 1 {
                assert(d[i] == dec_string(n / 10)[i]);
            }
        }
    }
}

proof fn lemma_digit_char_is_digit(d: nat)
    requires
        d < 10,
    ensures
        '0' <= crate::text::digit_char(d) <= '9',
{
    if d == 0 {
        assert(crate::text::digit_char(0) == '0');
    } else if d == 1 {
        assert(crate::text::digit_char(1) == '1');
    } else if d == 2 {
        assert(crate::text::digit_char(2) == '2');
    } else if d == 3 {
        assert(crate::text::digit_char(3) == '3');
    } else if d == 4 {
        assert(crate::text::digit_char(4) == '4');
    } else if d == 5 {
        assert(crate::text::digit_char(5) == '5');
    } else if d == 6 {
        assert(crate::text::digit_char(6) == '6');
    } else if d == 7 {
        assert(crate::text::digit_char(7) == '7');
    } else if d == 8 {
        assert(crate::text::digit_char(8) == '8');
    } else {
        assert(crate::text::digit_char(9) == '9');
    }
}

proof fn lemma_number_has_no_direction(side: Color, n: int)
    ensures
        forall|i: int| 0 <= i < display_number(side, n).len() ==> !direction_word(
            #[trigger] display_number(side, n)[i],
        ),
{
    if side == Color::Black {
        lemma_dec_string_digits(n as nat);
    }
}

/// A move from an occupied point is written with 进 exactly when it goes
/// towards the opponent (up the board for red, down it for black), with 退
/// exactly when it goes back, and with 平 exactly when it stays on its rank.
pub proof fn lemma_direction_words(b: BoardView, m: Move)
    requires
        b.at(m.src) is Some,
    ensures
        move_notation(b, m).contains('进') == ((b.at(m.src)->0.color == Color::Red && m.dst.rank
            > m.src.rank) || (b.at(m.src)->0.color == Color::Black && m.dst.rank < m.src.rank)),
        move_notation(b, m).contains('退') == ((b.at(m.src)->0.color == Color::Red && m.dst.rank
            < m.src.rank) || (b.at(m.src)->0.color == Color::Black && m.dst.rank > m.src.rank)),
        move_notation(b, m).contains('平') == (m.dst.rank == m.src.rank),
{
    let n = move_notation(b, m);
    let p = b.at(m.src)->0;
    let side = p.color;
    let count = count_on_file(b, m.src.file, p, 0, 10);
    let head = if count <= 1 {
        seq![piece_name(p)] + display_number(side, file_number(side, m.src.file))
    } else {
        relative_prefix(pieces_ahead(b, m.src, p), count, side) + seq![piece_name(p)]
    };
    let act = if m.src.rank == m.dst.rank {
        '平'
    } else if is_forward(side, m) {
        '进'
    } else {
        '退'
    };
    let num = if m.src.rank == m.dst.rank {
        display_number(side, file_number(side, m.dst.file))
    } else {
        display_number(side, end_number(p, m))
    };
    assert(n =~= head + seq![act] + num);
    lemma_number_has_no_direction(side, file_number(side, m.src.file));
    lemma_number_has_no_direction(side, pieces_ahead(b, m.src, p) + 1);
    lemma_number_has_no_direction(side, file_number(side, m.dst.file));
    lemma_number_has_no_direction(side, end_number(p, m));
    assert forall|k: int| 0 <= k < head.len() implies !direction_word(#[trigger] head[k]) by {
        if count <= 1 {
            if k > 0 {
                assert(head[k] == display_number(side, file_number(side, m.src.file))[k - 1]);
            }
        } else {
            let pre = relative_prefix(pieces_ahead(b, m.src, p), count, side);
            if k < pre.len() {
                assert(head[k] == pre[k]);
            }
        }
    }
    assert forall|k: int| 0 <= k < n.len() && k != head.len() implies !direction_word(#[trigger] n[k]) by {
        if k < head.len() {
            assert(n[k] == head[k]);
        } else {
            assert(n[k] == num[k - head.len() - 1]);
        }
    }
    assert(n[head.len() as int] == act);
    assert forall|c: char| direction_word(c) implies n.contains(c) == (c == act) by {
        if c == act {
            assert(n[head.len() as int] == c);
        } else if n.contains(c) {
            let k = choose|k: int| 0 <= k < n.len() && n[k] == c;
            assert(k != head.len());
            assert(!direction_word(n[k]));
        }
    }
    assert(direction_word('进') && direction_word('退') && direction_word('平'));
}

/// The numeral written in a full-width font for `n`.
pub open spec fn full_width_digit(n: int) -> char {
    (0xff10 + n) as char
}

/// Every numeral of a move reads as its Arabic digit: the Chinese numerals
/// of red's moves, the full-width digits, and the digits of black's moves;
/// so a move reads the same whichever numerals it is typed with.
pub proof fn lemma_numerals_read_as_digits(n: int)
    requires
        1 <= n <= 9,
    ensures
        normalize(seq![chinese_digit(n)]) == dec_string(n as nat),
        normalize(seq![full_width_digit(n)]) == dec_string(n as nat),
        normalize(display_number(Color::Red, n)) == dec_string(n as nat),
        normalize(display_number(Color::Black, n)) == dec_string(n as nat),
{
    reveal_with_fuel(normalize, 2);
    assert(seq![chinese_digit(n)].drop_last() =~= Seq::<char>::empty());
    assert(seq![full_width_digit(n)].drop_last() =~= Seq::<char>::empty());
    assert(dec_string(n as nat) == seq![crate::text::digit_char(n as nat)]);
    assert(dec_string(n as nat).drop_last() =~= Seq::<char>::empty());
    assert(Seq::<char>::empty() + seq![crate::text::digit_char(n as nat)] =~= seq![crate::text::digit_char(n as nat)]);
    if n == 1 {
        assert(crate::text::digit_char(1) == '1');
    } else if n == 2 {
        assert(crate::text::digit_char(2) == '2');
    } else if n == 3 {
        assert(crate::text::digit_char(3) == '3');
    } else if n == 4 {
        assert(crate::text::digit_char(4) == '4');
    } else if n == 5 {
        assert(crate::text::digit_char(5) == '5');
    } else if n == 6 {
        assert(crate::text::digit_char(6) == '6');
    } else if n == 7 {
        assert(crate::text::digit_char(7) == '7');
    } else if n == 8 {
        assert(crate::text::digit_char(8) == '8');
    } else {
        assert(crate::text::digit_char(9) == '9');
    }
}

/// The board after the moves of a line are played one after the other.
pub open spec fn board_after(b: BoardView, moves: Seq<Move>) -> BoardView
    decreases moves.len(),
{
    if moves.len() == 0 {
        b
    } else {
        board_after(b.apply(moves[0]), moves.drop_first())
    }
}

/// A line is written ply by ply, each on the board that the plies before it
/// leave: the `i`-th word is the notation of the `i`-th move on the board
/// after the first `i` moves; the writing goes on for `limit` plies, or to
/// the end of the line, or up to the first move whose source point is then
/// empty.
pub proof fn lemma_pv_plies_on_their_boards(b: BoardView, moves: Seq<Move>, limit: int)
    ensures
        pv_notations(b, moves, limit).len() <= moves.len(),
        pv_notations(b, moves, limit).len() <= if limit < 0 {
            0
        } else {
            limit
        },
        forall|i: int|
            0 <= i < pv_notations(b, moves, limit).len() ==> #[trigger] pv_notations(b, moves, limit)[i]
                == move_notation(board_after(b, moves.take(i)), moves[i]),
        forall|i: int|
            0 <= i < pv_notations(b, moves, limit).len() ==> (#[trigger] board_after(b, moves.take(i))).at(
                moves[i].src,
            ) is Some,
        pv_notations(b, moves, limit).len() < moves.len() && pv_notations(b, moves, limit).len() < limit
            ==> board_after(b, moves.take(pv_notations(b, moves, limit).len() as int)).at(
            moves[pv_notations(b, moves, limit).len() as int].src,
        ) is None,
    decreases moves.len(),
{
    let r = pv_notations(b, moves, limit);
    assert(moves.take(0) =~= Seq::<Move>::empty());
    if !(moves.len() == 0 || limit <= 0 || b.at(moves[0].src) is None) {
        let b1 = b.apply(moves[0]);
        let rest = moves.drop_first();
        lemma_pv_plies_on_their_boards(b1, rest, limit - 1);
        let t = pv_notations(b1, rest, limit - 1);
        assert(r == seq![move_notation(b, moves[0])] + t);
        assert forall|i: int| 1 <= i <= moves.len() implies board_after(b, #[trigger] moves.take(i))
            == board_after(b1, rest.take(i - 1)) by {
            assert(moves.take(i)[0] == moves[0]);
            assert(moves.take(i).drop_first() =~= rest.take(i - 1));
        }
        assert forall|i: int| 0 <= i < r.len() implies (#[trigger] board_after(b, moves.take(i))).at(moves[i].src) is Some
            && r[i] == move_notation(board_after(b, moves.take(i)), moves[i]) by {
            if i == 0 {
                assert(board_after(b, moves.take(0)) == b);
            } else {
                assert(r[i] == t[i - 1]);
                assert(moves[i] == rest[i - 1]);
                assert(board_after(b, moves.take(i)) == board_after(b1, rest.take(i - 1)));
                assert(board_after(b1, rest.take(i - 1)).at(rest[i - 1].src) is Some);
                assert(t[i - 1] == move_notation(board_after(b1, rest.take(i - 1)), rest[i - 1]));
            }
        }
        if r.len() < moves.len() && r.len() < limit {
            let n = r.len() as int;
            assert(moves[n] == rest[n - 1]);
            assert(board_after(b, moves.take(n)) == board_after(b1, rest.take(n - 1)));
        }
    } else {
        assert(r =~= Seq::<Seq<char>>::empty());
        if moves.len() > 0 && limit > 0 {
            assert(board_after(b, moves.take(0)) == b);
        }
    }
}

/// Whether `m` is among `moves`.
pub fn contains_move(moves: &[Move], m: Move) -> (r: bool)
    ensures
        r == moves@.contains(m),
{
    let mut i: usize = 0;
    while i < moves.len()
        invariant
            i <= moves@.len(),
            forall|k: int| 0 <= k < i ==> moves@[k] != m,
        decreases moves@.len() - i,
    {
        if moves[i] == m {
            return true;
        }
        i = i + 1;
    }
    false
}

/// The text with whitespace and dashes left out and ASCII letters made
/// small, as coordinates are read.
pub fn coordinate_of(t: &[char]) -> (r: Vec<char>)
    ensures
        r@ == coordinate_text(t@),
{
    let mut r: Vec<char> = Vec::new();
    let mut i: usize = 0;
    while i < t.len()
        invariant
            i <= t@.len(),
            r@ == coordinate_text(t@.take(i as int)),
        decreases t@.len() - i,
    {
        assert(t@.take(i + 1).drop_last() == t@.take(i as int));
        let c = t[i];
        if is_whitespace(c) || c == '-' {
            assert(r@ + Seq::<char>::empty() == r@);
        } else {
            r.push(ascii_lower(c));
        }
        i = i + 1;
    }
    assert(t@.take(t@.len() as int) == t@);
    r
}

/// Reads typed text as one of `legal_moves` on `position`: ICCS coordinates
/// (`h0g2`, `H0-G2`) or Chinese notation in any of its spellings.
pub fn parse_move(input: &str, position: &BoardSnapshot, legal_moves: &[Move]) -> (r: Result<Move, MoveInputError>)
    requires
        position@.wf(),
        forall|i: int| 0 <= i < legal_moves@.len() ==> move_wf(#[trigger] legal_moves@[i]),
        !iccs_splits_char(coordinate_text(trim(input@))),
    ensures
        match spec_parse_move(input@, position@, legal_moves@) {
            ParseOutcome::Move(m) => r == Ok::<Move, MoveInputError>(m),
            ParseOutcome::Empty => r is Err && r->Err_0@ is Empty,
            ParseOutcome::Illegal => r is Err && r->Err_0@ is Illegal && is_suggestion_list(
                r->Err_0@->Illegal_0,
                trim(input@),
                position@,
                legal_moves@,
            ),
            ParseOutcome::Ambiguous(c) => r is Err && r->Err_0@ == InputErrorView::Ambiguous(c),
        },
        r is Ok ==> legal_moves@.contains(r->Ok_0),
{
    let cs = chars_of(input);
    let trimmed = trim_chars(cs.as_slice());
    if trimmed.len() == 0 {
        return Err(MoveInputError::Empty);
    }
    let coordinate = coordinate_of(trimmed.as_slice());
    let coordinate_str = string_of(coordinate.as_slice());
    match iccs_to_move(coordinate_str.as_str()) {
        Some(mv) => {
            if contains_move(legal_moves, mv) {
                return Ok(mv);
            }
        },
        None => {},
    }
    let normalized = normalize_chars(trimmed.as_slice());
    let mut matches: Vec<Move> = Vec::new();
    let mut i: usize = 0;
    while i < legal_moves.len()
        invariant
            i <= legal_moves@.len(),
            position@.wf(),
            forall|k: int| 0 <= k < legal_moves@.len() ==> move_wf(#[trigger] legal_moves@[k]),
            matches@ == matching_moves(position@, legal_moves@.take(i as int), normalized@),
            forall|k: int| 0 <= k < matches@.len() ==> move_wf(#[trigger] matches@[k]),
            forall|k: int| 0 <= k < matches@.len() ==> legal_moves@.contains(#[trigger] matches@[k]),
        decreases legal_moves@.len() - i,
    {
        let mv = legal_moves[i];
        assert(legal_moves@.take(i + 1).drop_last() == legal_moves@.take(i as int));
        let candidate = format_move(position, mv);
        let cand_norm = normalize_chars(chars_of(candidate.as_str()).as_slice());
        if chars_eq(cand_norm.as_slice(), normalized.as_slice()) {
            assert(legal_moves@[i as int] == mv);
            matches.push(mv);
        } else {
            assert(matches@ + Seq::<Move>::empty() == matches@);
        }
        i = i + 1;
    }
    assert(legal_moves@.take(legal_moves@.len() as int) == legal_moves@);
    if matches.len() == 1 {
        return Ok(matches[0]);
    }
    if matches.len() == 0 {
        let suggestions = suggestions_for(trimmed.as_slice(), position, legal_moves);
        return Err(MoveInputError::Illegal { suggestions });
    }
    let mut candidates: Vec<String> = Vec::new();
    let mut k: usize = 0;
    while k < matches.len()
        invariant
            k <= matches@.len(),
            position@.wf(),
            forall|j: int| 0 <= j < matches@.len() ==> move_wf(#[trigger] matches@[j]),
            candidates@.map_values(|s: String| s@) == matches@.take(k as int).map_values(
                |m: Move| candidate_text(position@, m),
            ),
        decreases matches@.len() - k,
    {
        let mv = matches[k];
        let mut text = format_move(position, mv);
        text.append(" (");
        let compact = mv.to_compact();
        text.append(compact.as_str());
        text.append(")");
        let ghost before = candidates@;
        assert(text@ == candidate_text(position@, mv));
        candidates.push(text);
        assert(candidates@ == before.push(text));
        assert(candidates@.map_values(|s: String| s@) =~= before.map_values(|s: String| s@).push(
            text@,
        ));
        assert(matches@.take(k + 1) =~= matches@.take(k as int).push(mv));
        assert(matches@.take(k + 1).map_values(|m: Move| candidate_text(position@, m))
            =~= matches@.take(k as int).map_values(|m: Move| candidate_text(position@, m)).push(
            candidate_text(position@, mv),
        ));
        k = k + 1;
    }
    assert(matches@.take(matches@.len() as int) == matches@);
    Err(MoveInputError::Ambiguous { candidates })
}

fn first_piece_char_of(s: &[char]) -> (r: Option<char>)
    ensures
        r == first_piece_char(s@),
{
    let mut i: usize = 0;
    assert(s@.skip(0) == s@);
    while i < s.len()
        invariant
            i <= s@.len(),
            first_piece_char(s@) == first_piece_char(s@.skip(i as int)),
        decreases s@.len() - i,
    {
        let c = s[i];
        assert(s@.skip(i as int)[0] == c);
        assert(s@.skip(i as int).drop_first() == s@.skip(i + 1));
        if c == '将' || c == '士' || c == '象' || c == '马' || c == '车' || c == '炮' || c == '兵' {
            return Some(c);
        }
        i = i + 1;
    }
    None
}

fn contains_char(s: &[char], c: char) -> (r: bool)
    ensures
        r == s@.contains(c),
{
    let mut i: usize = 0;
    while i < s.len()
        invariant
            i <= s@.len(),
            forall|k: int| 0 <= k < i ==> s@[k] != c,
        decreases s@.len() - i,
    {
        if s[i] == c {
            return true;
        }
        i = i + 1;
    }
    false
}

proof fn lemma_push_to_set(s: Seq<Seq<char>>, x: Seq<char>)
    ensures
        s.push(x).to_set() == s.to_set().insert(x),
{
    assert forall|v: Seq<char>| s.push(x).to_set().contains(v) <==> s.to_set().insert(x).contains(
        v,
    ) by {
        if s.push(x).contains(v) {
            let k = choose|k: int| 0 <= k < s.push(x).len() && s.push(x)[k] == v;
            if k < s.len() {
                assert(s[k] == v);
            }
        }
        if s.contains(v) {
            let k = choose|k: int| 0 <= k < s.len() && s[k] == v;
            assert(s.push(x)[k] == v);
        }
        if v == x {
            assert(s.push(x)[s.len() as int] == v);
        }
    }
    assert(s.push(x).to_set() =~= s.to_set().insert(x));
}

/// Inserts `x` into a strictly increasing list unless it is there already.
fn insert_sorted(list: &mut Vec<Vec<char>>, x: Vec<char>)
    requires
        sorted_strict(old(list)@.map_values(|v: Vec<char>| v@)),
    ensures
        sorted_strict(final(list)@.map_values(|v: Vec<char>| v@)),
        final(list)@.map_values(|v: Vec<char>| v@).to_set() == old(list)@.map_values(
            |v: Vec<char>| v@,
        ).to_set().insert(x@),
{
    let ghost old_views = list@.map_values(|v: Vec<char>| v@);
    let mut p: usize = 0;
    while p < list.len() && chars_lt(list[p].as_slice(), x.as_slice())
        invariant
            p <= list@.len(),
            old_views == list@.map_values(|v: Vec<char>| v@),
            forall|k: int| 0 <= k < p ==> seq_lt(#[trigger] old_views[k], x@),
        decreases list@.len() - p,
    {
        p = p + 1;
    }
    if p < list.len() && chars_eq(list[p].as_slice(), x.as_slice()) {
        assert(old_views[p as int] == x@);
        assert(old_views.to_set().insert(x@) =~= old_views.to_set());
        return;
    }
    proof {
        if p < list@.len() {
            lemma_lt_total(old_views[p as int], x@);
            assert(seq_lt(x@, old_views[p as int]));
        }
    }
    list.insert(p, x);
    let ghost new_views = list@.map_values(|v: Vec<char>| v@);
    assert(new_views =~= old_views.insert(p as int, x@));
    assert forall|i: int, j: int| 0 <= i < j < new_views.len() implies seq_lt(
        #[trigger] new_views[i],
        #[trigger] new_views[j],
    ) by {
        if j < p {
        } else if j == p {
        } else if i < p {
            lemma_lt_transitive(old_views[i], x@, old_views[p as int]);
            if j - 1 > p {
                lemma_lt_transitive(old_views[i], old_views[p as int], old_views[j - 1]);
            }
        } else if i == p {
            if j - 1 > p {
                lemma_lt_transitive(x@, old_views[p as int], old_views[j - 1]);
            }
        } else {
        }
    }
    assert forall|v: Seq<char>| new_views.to_set().contains(v) <==> old_views.to_set().insert(
        x@,
    ).contains(v) by {
        if new_views.contains(v) {
            let k = choose|k: int| 0 <= k < new_views.len() && new_views[k] == v;
            if k < p {
                assert(old_views[k] == v);
            } else if k > p {
                assert(old_views[k - 1] == v);
            }
        }
        if old_views.contains(v) {
            let k = choose|k: int| 0 <= k < old_views.len() && old_views[k] == v;
            if k < p {
                assert(new_views[k] == v);
            } else {
                assert(new_views[k + 1] == v);
            }
        }
        if v == x@ {
            assert(new_views[p as int] == v);
        }
    }
    assert(new_views.to_set() =~= old_views.to_set().insert(x@));
}

/// The first six distinct notations, in order, of the legal moves of the
/// piece that `input` names (of all legal moves when it names none).
fn suggestions_for(input: &[char], position: &BoardSnapshot, legal_moves: &[Move]) -> (r: Vec<String>)
    requires
        position@.wf(),
        forall|i: int| 0 <= i < legal_moves@.len() ==> move_wf(#[trigger] legal_moves@[i]),
    ensures
        is_suggestion_list(r@.map_values(|s: String| s@), input@, position@, legal_moves@),
{
    let normalized = normalize_chars(input);
    let wanted = first_piece_char_of(normalized.as_slice());
    let ghost pool = suggestion_pool(position@, legal_moves@, wanted);
    let mut list: Vec<Vec<char>> = Vec::new();
    let mut i: usize = 0;
    while i < legal_moves.len()
        invariant
            i <= legal_moves@.len(),
            position@.wf(),
            forall|k: int| 0 <= k < legal_moves@.len() ==> move_wf(#[trigger] legal_moves@[k]),
            sorted_strict(list@.map_values(|v: Vec<char>| v@)),
            list@.map_values(|v: Vec<char>| v@).to_set() == suggestion_pool(
                position@,
                legal_moves@.take(i as int),
                wanted,
            ).to_set(),
        decreases legal_moves@.len() - i,
    {
        let mv = legal_moves[i];
        assert(legal_moves@.take(i + 1).drop_last() == legal_moves@.take(i as int));
        let text = format_move(position, mv);
        let text_chars = chars_of(text.as_str());
        let keep = match wanted {
            None => true,
            Some(p) => contains_char(normalize_chars(text_chars.as_slice()).as_slice(), p),
        };
        let ghost prev = suggestion_pool(position@, legal_moves@.take(i as int), wanted);
        if keep {
            insert_sorted(&mut list, text_chars);
            proof { lemma_push_to_set(prev, text@); }
            assert(suggestion_pool(position@, legal_moves@.take(i + 1), wanted) == prev.push(text@));
        } else {
            assert(prev + Seq::<Seq<char>>::empty() == prev);
        }
        i = i + 1;
    }
    assert(legal_moves@.take(legal_moves@.len() as int) == legal_moves@);
    let ghost full = list@.map_values(|v: Vec<char>| v@);
    let mut r: Vec<String> = Vec::new();
    let mut k: usize = 0;
    while k < list.len() && k < 6
        invariant
            k <= list@.len(),
            k <= 6,
            full == list@.map_values(|v: Vec<char>| v@),
            r@.map_values(|s: String| s@) == full.take(k as int),
        decreases list@.len() - k,
    {
        let s = string_of(list[k].as_slice());
        let ghost before = r@;
        r.push(s);
        assert(r@ == before.push(s));
        assert(r@.map_values(|s: String| s@) =~= before.map_values(|s: String| s@).push(s@));
        assert(full.take(k + 1) =~= full.take(k as int).push(full[k as int]));
        k = k + 1;
    }
    let ghost rv = r@.map_values(|s: String| s@);
    assert(rv == full.take(k as int));
    assert forall|a: int, b: int| 0 <= a < b < rv.len() implies seq_lt(#[trigger] rv[a], #[trigger] rv[b]) by {
        assert(rv[a] == full[a] && rv[b] == full[b]);
    }
    assert forall|j: int| 0 <= j < rv.len() implies pool.contains(#[trigger] rv[j]) by {
        assert(rv[j] == full[j]);
        assert(full.to_set().contains(full[j]));
    }
    assert forall|q: int| 0 <= q < pool.len() implies rv.contains(#[trigger] pool[q]) || (rv.len() == 6
        && seq_lt(rv.last(), pool[q])) by {
        assert(pool.to_set().contains(pool[q]));
        assert(full.to_set().contains(pool[q]));
        let w = choose|w: int| 0 <= w < full.len() && full[w] == pool[q];
        if w < k {
            assert(rv[w] == pool[q]);
        } else {
            assert(rv.len() == 6);
            assert(rv.last() == full[5]);
            assert(seq_lt(full[5], full[w]));
        }
    }
    r
}

} // verus!
