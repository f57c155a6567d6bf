//! Board vocabulary: sides, pieces, squares, moves, and a snapshot of the
//! ninety points of a position.
use vstd::prelude::*;

use crate::text::{lower, push_char};

verus! {

/// The two sides. Red moves first.
#[derive(Debug, Clone, Copy, PartialEq, Eq, Structural)]
pub enum Color {
    Red,
    Black,
}

impl Color {
    pub open spec fn spec_flip(self) -> Color {
        match self {
            Color::Red => Color::Black,
            Color::Black => Color::Red,
        }
    }

    /// The other side.
    #[verifier::when_used_as_spec(spec_flip)]
    pub fn flip(self) -> (r: Color)
        ensures
            r == self.spec_flip(),
    {
        match self {
            Color::Red => Color::Black,
            Color::Black => Color::Red,
        }
    }
}

/// The seven kinds of pieces.
#[derive(Debug, Clone, Copy, PartialEq, Eq, Structural)]
pub enum PieceType {
    King,
    Advisor,
    Bishop,
    Knight,
    Rook,
    Cannon,
    Pawn,
}

/// A piece of one side.
#[derive(Debug, Clone, Copy, PartialEq, Eq, Structural)]
pub struct Piece {
    pub color: Color,
    pub kind: PieceType,
}

impl Piece {
    pub fn new(color: Color, kind: PieceType) -> (r: Piece)
        ensures
            r == (Piece { color, kind }),
    {
        Piece { color, kind }
    }

    pub fn color(self) -> (r: Color)
        ensures
            r == self.color,
    {
        self.color
    }

    pub fn kind(self) -> (r: PieceType)
        ensures
            r == self.kind,
    {
        self.kind
    }
}

/// The FEN letter of a piece: capital for red, small for black.
pub open spec fn fen_letter(p: Piece) -> char {
    let up = match p.kind {
        PieceType::King => 'K',
        PieceType::Advisor => 'A',
        PieceType::Bishop => 'B',
        PieceType::Knight => 'N',
        PieceType::Rook => 'R',
        PieceType::Cannon => 'C',
        PieceType::Pawn => 'P',
    };
    match p.color {
        Color::Red => up,
        Color::Black => lower(up),
    }
}

/// The piece that a FEN letter names.
pub open spec fn piece_of_letter(c: char) -> Option<Piece> {
    let kind = if c == 'K' || c == 'k' {
        Some(PieceType::King)
    } else if c == 'A' || c == 'a' {
        Some(PieceType::Advisor)
    } else if c == 'B' || c == 'b' {
        Some(PieceType::Bishop)
    } else if c == 'N' || c == 'n' {
        Some(PieceType::Knight)
    } else if c == 'R' || c == 'r' {
        Some(PieceType::Rook)
    } else if c == 'C' || c == 'c' {
        Some(PieceType::Cannon)
    } else if c == 'P' || c == 'p' {
        Some(PieceType::Pawn)
    } else {
        None
    };
    match kind {
        Some(k) => Some(Piece { color: if 'A' <= c && c <= 'Z' { Color::Red } else { Color::Black }, kind: k }),
        None => None,
    }
}

/// Reading a piece's FEN letter gives the piece back.
pub proof fn lemma_letter_roundtrip(p: Piece)
    ensures
        piece_of_letter(fen_letter(p)) == Some(p),
{
}

/// The piece named by a FEN letter.
pub fn piece_from_letter(c: char) -> (r: Option<Piece>)
    ensures
        r == piece_of_letter(c),
{
    let kind = if c == 'K' || c == 'k' {
        Some(PieceType::King)
    } else if c == 'A' || c == 'a' {
        Some(PieceType::Advisor)
    } else if c == 'B' || c == 'b' {
        Some(PieceType::Bishop)
    } else if c == 'N' || c == 'n' {
        Some(PieceType::Knight)
    } else if c == 'R' || c == 'r' {
        Some(PieceType::Rook)
    } else if c == 'C' || c == 'c' {
        Some(PieceType::Cannon)
    } else if c == 'P' || c == 'p' {
        Some(PieceType::Pawn)
    } else {
        None
    };
    match kind {
        Some(k) => Some(
            Piece { color: if 'A' <= c && c <= 'Z' { Color::Red } else { Color::Black }, kind: k },
        ),
        None => None,
    }
}

/// A point of the board: rank 0 is red's back rank, file 0 is column `a`.
#[derive(Debug, Clone, Copy, PartialEq, Eq, Structural)]
pub struct Square {
    pub rank: u8,
    pub file: u8,
}

impl Square {
    /// The square lies on the board.
    pub open spec fn wf(self) -> bool {
        self.rank < 10 && self.file < 9
    }

    /// The index of the square in rank-major order.
    pub open spec fn index(self) -> int {
        self.rank * 9 + self.file
    }

    /// The square at `rank` and `file`, if it lies on the board.
    pub fn from_rank_file(rank: u8, file: u8) -> (r: Option<Square>)
        ensures
            r is Some <==> (rank < 10 && file < 9),
            r is Some ==> r->0 == (Square { rank, file }),
    {
        if rank < 10 && file < 9 {
            Some(Square { rank, file })
        } else {
            None
        }
    }

    pub fn rank(self) -> (r: u8)
        ensures
            r == self.rank,
    {
        self.rank
    }

    pub fn file(self) -> (r: u8)
        ensures
            r == self.file,
    {
        self.file
    }

    /// The ICCS name of the square, such as `h2`.
    pub open spec fn spec_iccs(self) -> Seq<char> {
        seq![(self.file + 'a' as u32) as char, (self.rank + '0' as u32) as char]
    }

    /// Appends the ICCS name of the square.
    pub fn push_iccs(self, s: &mut String)
        requires
            self.wf(),
        ensures
            final(s)@ == old(s)@ + self.spec_iccs(),
    {
        let f: u8 = 97u8 + self.file;
        let r: u8 = 48u8 + self.rank;
        push_char(s, f as char);
        push_char(s, r as char);
        assert(old(s)@.push(f as char).push(r as char) == old(s)@ + self.spec_iccs());
    }

    /// The ICCS name of the square.
    pub fn to_iccs(self) -> (r: String)
        requires
            self.wf(),
        ensures
            r@ == self.spec_iccs(),
    {
        let mut s = String::new();
        self.push_iccs(&mut s);
        assert(s@ == Seq::<char>::empty() + self.spec_iccs());
        s
    }
}

/// A move from one square to another.
#[derive(Debug, Clone, Copy, PartialEq, Eq, Structural)]
pub struct Move {
    pub src: Square,
    pub dst: Square,
}

/// Both squares of the move lie on the board.
pub open spec fn move_wf(m: Move) -> bool {
    m.src.wf() && m.dst.wf()
}

/// The move without a separator, such as `h2e2`.
pub open spec fn compact_text(m: Move) -> Seq<char> {
    m.src.spec_iccs() + m.dst.spec_iccs()
}

/// The ICCS text of a move, such as `h2-e2`; the move from `a0` to `a0`,
/// which stands for "no move", reads `0000`.
pub open spec fn iccs_text(m: Move) -> Seq<char> {
    if m.src == (Square { rank: 0, file: 0 }) && m.dst == (Square { rank: 0, file: 0 }) {
        seq!['0', '0', '0', '0']
    } else {
        m.src.spec_iccs() + seq!['-'] + m.dst.spec_iccs()
    }
}

impl Move {
    pub fn src(self) -> (r: Square)
        ensures
            r == self.src,
    {
        self.src
    }

    pub fn dst(self) -> (r: Square)
        ensures
            r == self.dst,
    {
        self.dst
    }

    /// The ICCS text of the move, such as `h2-e2`.
    pub fn to_iccs(self) -> (r: String)
        requires
            move_wf(self),
        ensures
            r@ == iccs_text(self),
    {
        if self.src.rank == 0 && self.src.file == 0 && self.dst.rank == 0 && self.dst.file == 0 {
            let mut s = String::new();
            push_char(&mut s, '0');
            push_char(&mut s, '0');
            push_char(&mut s, '0');
            push_char(&mut s, '0');
            assert(s@ == seq!['0', '0', '0', '0']);
            return s;
        }
        let mut s = String::new();
        self.src.push_iccs(&mut s);
        push_char(&mut s, '-');
        self.dst.push_iccs(&mut s);
        assert(s@ == iccs_text(self));
        s
    }

    /// The move written without a separator, such as `h2e2`.
    pub fn to_compact(self) -> (r: String)
        requires
            move_wf(self),
        ensures
            r@ == compact_text(self),
    {
        let mut s = String::new();
        self.src.push_iccs(&mut s);
        self.dst.push_iccs(&mut s);
        assert(s@ == compact_text(self));
        s
    }
}

/// The contents of the ninety points and the side to move.
#[derive(Clone)]
pub struct BoardSnapshot {
    pub cells: Vec<Option<Piece>>,
    pub side: Color,
}

/// The mathematical content of a [`BoardSnapshot`].
pub struct BoardView {
    pub cells: Seq<Option<Piece>>,
    pub side: Color,
}

impl View for BoardSnapshot {
    type V = BoardView;

    open spec fn view(&self) -> BoardView {
        BoardView { cells: self.cells@, side: self.side }
    }
}

impl BoardView {
    pub open spec fn wf(self) -> bool {
        self.cells.len() == 90
    }

    /// The piece on a square.
    pub open spec fn at(self, sq: Square) -> Option<Piece> {
        self.cells[sq.index()]
    }

    /// The board after moving whatever stands on `m.src` to `m.dst`, when a
    /// piece stands there.
    pub open spec fn apply(self, m: Move) -> BoardView {
        match self.at(m.src) {
            Some(p) => BoardView {
                cells: self.cells.update(m.src.index(), None).update(m.dst.index(), Some(p)),
                side: self.side.spec_flip(),
            },
            None => self,
        }
    }
}

impl BoardSnapshot {
    /// The piece on a square.
    pub fn piece_at(&self, square: Square) -> (r: Option<Piece>)
        requires
            self@.wf(),
            square.wf(),
        ensures
            r == self@.at(square),
    {
        self.cells[(square.rank as usize) * 9 + square.file as usize]
    }

    /// Moves the piece on `m.src` to `m.dst`; false, with the board unchanged,
    /// when `m.src` is empty.
    pub fn apply(&mut self, m: Move) -> (r: bool)
        requires
            old(self)@.wf(),
            move_wf(m),
        ensures
            final(self)@.wf(),
            r == (old(self)@.at(m.src) is Some),
            final(self)@ == old(self)@.apply(m),
    {
        let src = (m.src.rank as usize) * 9 + m.src.file as usize;
        let dst = (m.dst.rank as usize) * 9 + m.dst.file as usize;
        let piece = match self.cells[src] {
            Some(p) => p,
            None => {
                return false;
            },
        };
        self.cells.set(src, None);
        self.cells.set(dst, Some(piece));
        self.side = self.side.flip();
        true
    }
}

} // verus!
