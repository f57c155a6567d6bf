//! The ICCS coordinate notation of squares and moves (`h2`, `h2-e2`, `h2e2`).
use vstd::prelude::*;

use crate::board::{compact_text, iccs_text, move_wf, Move, Square};
use crate::text::{is_digit, is_ws, lower, trim, trim_chars};

verus! {

/// Bytes taken by one character in UTF-8.
pub open spec fn utf8_width(c: char) -> nat {
    if (c as u32) < 0x80 {
        1
    } else if (c as u32) < 0x800 {
        2
    } else if (c as u32) < 0x10000 {
        3
    } else {
        4
    }
}

/// Bytes taken by a character sequence in UTF-8.
pub open spec fn utf8_len(s: Seq<char>) -> nat
    decreases s.len(),
{
    if s.len() == 0 {
        0
    } else {
        utf8_len(s.drop_last()) + utf8_width(s.last())
    }
}

/// The first position of `c` in `s`.
pub open spec fn first_index(s: Seq<char>, c: char) -> Option<int>
    decreases s.len(),
{
    if s.len() == 0 {
        None
    } else if s[0] == c {
        Some(0)
    } else {
        match first_index(s.drop_first(), c) {
            Some(i) => Some(i + 1),
            None => None,
        }
    }
}

/// The square an ICCS cell names: a file letter `a`..`i` (either case) and a
/// rank digit.
pub open spec fn iccs_square(a: Seq<char>) -> Option<Square> {
    if a.len() == 2 && (('a' <= a[0] && a[0] <= 'i') || ('A' <= a[0] && a[0] <= 'I')) && is_digit(
        a[1],
    ) {
        Some(
            Square {
                rank: (a[1] as u32 - '0' as u32) as u8,
                file: (lower(a[0]) as u32 - 'a' as u32) as u8,
            },
        )
    } else {
        None
    }
}

/// The move that ICCS text names, after trimming: two cells around the first
/// `-`, or two cells written together in four characters.
pub open spec fn iccs_move(s: Seq<char>) -> Option<Move> {
    let t = trim(s);
    let (a, b) = match first_index(t, '-') {
        Some(i) => (t.take(i), t.skip(i + 1)),
        None => if t.len() == 4 {
            (t.take(2), t.skip(2))
        } else {
            (Seq::empty(), Seq::empty())
        },
    };
    match (iccs_square(a), iccs_square(b)) {
        (Some(src), Some(dst)) => Some(Move { src, dst }),
        _ => None,
    }
}

/// Whether reading `s` as an ICCS move would cut a character in two: without
/// a `-`, text of four bytes is split after its second byte.
pub open spec fn iccs_splits_char(s: Seq<char>) -> bool {
    let t = trim(s);
    &&& first_index(t, '-') is None
    &&& utf8_len(t) == 4
    &&& !(exists|k: int| 0 <= k <= t.len() && #[trigger] utf8_len(t.take(k)) == 2)
}

/// Every square that ICCS text names lies on the board.
pub proof fn lemma_iccs_square_wf(a: Seq<char>)
    ensures
        iccs_square(a) is Some ==> iccs_square(a)->0.wf(),
{
}

/// Every move that ICCS text names joins two squares of the board.
pub proof fn lemma_iccs_move_wf(s: Seq<char>)
    ensures
        iccs_move(s) is Some ==> move_wf(iccs_move(s)->0),
{
    let t = trim(s);
    let (a, b) = match first_index(t, '-') {
        Some(i) => (t.take(i), t.skip(i + 1)),
        None => if t.len() == 4 {
            (t.take(2), t.skip(2))
        } else {
            (Seq::empty(), Seq::empty())
        },
    };
    lemma_iccs_square_wf(a);
    lemma_iccs_square_wf(b);
}

proof fn lemma_iccs_square_of_name(q: Square)
    requires
        q.wf(),
    ensures
        iccs_square(q.spec_iccs()) == Some(q),
{
    let a = q.spec_iccs();
    assert(a.len() == 2);
    assert('a' <= a[0] && a[0] <= 'i');
    assert(lower(a[0]) == a[0]);
}

proof fn lemma_no_dash_in_name(q: Square)
    requires
        q.wf(),
    ensures
        forall|k: int| 0 <= k < q.spec_iccs().len() ==> q.spec_iccs()[k] != '-',
{
}

pub proof fn lemma_first_index_none(t: Seq<char>, c: char)
    requires
        forall|k: int| 0 <= k < t.len() ==> t[k] != c,
    ensures
        first_index(t, c) is None,
    decreases t.len(),
{
    if t.len() > 0 {
        lemma_first_index_none(t.drop_first(), c);
    }
}

pub proof fn lemma_first_index_at(t: Seq<char>, c: char, i: int)
    requires
        0 <= i < t.len(),
        t[i] == c,
        forall|k: int| 0 <= k < i ==> t[k] != c,
    ensures
        first_index(t, c) == Some(i),
    decreases i,
{
    if i > 0 {
        lemma_first_index_at(t.drop_first(), c, i - 1);
    }
}

/// Text without a dash has none to split at.
pub proof fn lemma_no_dash_first_index(t: Seq<char>)
    requires
        forall|k: int| 0 <= k < t.len() ==> t[k] != '-',
    ensures
        first_index(t, '-') is None,
{
    lemma_first_index_none(t, '-');
}

proof fn lemma_trim_no_ws(s: Seq<char>)
    requires
        forall|k: int| 0 <= k < s.len() ==> !is_ws(#[trigger] s[k]),
    ensures
        trim(s) == s,
{
    crate::text::lemma_trim_of_clean(s);
}

/// Text takes at least a byte per character.
pub proof fn lemma_utf8_len_at_least(s: Seq<char>)
    ensures
        utf8_len(s) >= s.len(),
    decreases s.len(),
{
    if s.len() > 0 {
        lemma_utf8_len_at_least(s.drop_last());
    }
}

/// Text takes at least the bytes of any one of its characters and a byte for
/// each other one.
pub proof fn lemma_utf8_len_with(s: Seq<char>, j: int)
    requires
        0 <= j < s.len(),
    ensures
        utf8_len(s) >= utf8_width(s[j]) + s.len() - 1,
    decreases s.len(),
{
    if j == s.len() - 1 {
        lemma_utf8_len_at_least(s.drop_last());
    } else {
        lemma_utf8_len_with(s.drop_last(), j);
        assert(s.drop_last()[j] == s[j]);
    }
}

/// Reading the compact ICCS text of a move cuts no character: its first
/// cell takes two bytes.
pub proof fn lemma_compact_text_no_split(m: Move)
    requires
        move_wf(m),
    ensures
        !iccs_splits_char(compact_text(m)),
{
    let t = compact_text(m);
    lemma_trim_no_ws(t);
    reveal_with_fuel(utf8_len, 3);
    assert(t.take(2).drop_last() =~= t.take(1));
    assert(t.take(1).drop_last() =~= t.take(0));
    assert(utf8_len(t.take(2)) == 2);
    assert(0 <= 2 <= t.len());
}

/// Reading the compact ICCS text of a move, such as `h2e2`, gives the move
/// back.
pub proof fn lemma_compact_text_roundtrip(m: Move)
    requires
        move_wf(m),
    ensures
        iccs_move(compact_text(m)) == Some(m),
{
    let t = compact_text(m);
    lemma_trim_no_ws(t);
    lemma_no_dash_in_name(m.src);
    lemma_no_dash_in_name(m.dst);
    assert forall|k: int| 0 <= k < t.len() implies t[k] != '-' by {
        if k < 2 {
            assert(t[k] == m.src.spec_iccs()[k]);
        } else {
            assert(t[k] == m.dst.spec_iccs()[k - 2]);
        }
    }
    lemma_first_index_none(t, '-');
    assert(t.take(2) =~= m.src.spec_iccs());
    assert(t.skip(2) =~= m.dst.spec_iccs());
    lemma_iccs_square_of_name(m.src);
    lemma_iccs_square_of_name(m.dst);
}

/// Reading the ICCS text of a move with its dash, such as `h2-e2`, gives the
/// move back (the move `a0`-`a0`, written `0000`, excepted).
pub proof fn lemma_iccs_text_roundtrip(m: Move)
    requires
        move_wf(m),
        !(m.src.rank == 0 && m.src.file == 0 && m.dst.rank == 0 && m.dst.file == 0),
    ensures
        iccs_move(iccs_text(m)) == Some(m),
{
    let t = iccs_text(m);
    assert(t == m.src.spec_iccs() + seq!['-'] + m.dst.spec_iccs());
    lemma_trim_no_ws(t);
    lemma_no_dash_in_name(m.src);
    assert(t[2] == '-');
    assert forall|k: int| 0 <= k < 2 implies t[k] != '-' by {
        assert(t[k] == m.src.spec_iccs()[k]);
    }
    lemma_first_index_at(t, '-', 2);
    assert(t.take(2) =~= m.src.spec_iccs());
    assert(t.skip(3) =~= m.dst.spec_iccs());
    lemma_iccs_square_of_name(m.src);
    lemma_iccs_square_of_name(m.dst);
}

fn char_bytes(c: char) -> (r: usize)
    ensures
        r == utf8_width(c),
{
    let v = c as u32;
    if v < 0x80 {
        1
    } else if v < 0x800 {
        2
    } else if v < 0x10000 {
        3
    } else {
        4
    }
}

/// Whether reading `s` as an ICCS move would cut a character in two (see
/// [`iccs_splits_char`]).
pub fn splits_iccs(s: &[char]) -> (r: bool)
    ensures
        r == iccs_splits_char(s@),
{
    let t = trim_chars(s);
    let mut i: usize = 0;
    while i < t.len()
        invariant
            i <= t@.len(),
            t@ == trim(s@),
            forall|k: int| 0 <= k < i ==> t@[k] != '-',
        decreases t@.len() - i,
    {
        if t[i] == '-' {
            proof {
                assert(t@[i as int] == '-');
                lemma_first_index_at(t@, '-', i as int);
            }
            return false;
        }
        i = i + 1;
    }
    proof {
        lemma_first_index_none(t@, '-');
    }
    let mut total: usize = 0;
    let mut halfway = false;
    let mut k: usize = 0;
    while k < t.len()
        invariant
            k <= t@.len(),
            utf8_len(t@.take(k as int)) <= 4 ==> total == utf8_len(t@.take(k as int)),
            utf8_len(t@.take(k as int)) > 4 ==> total == 5,
            halfway == exists|j: int| 0 <= j <= k && #[trigger] utf8_len(t@.take(j)) == 2,
        decreases t@.len() - k,
    {
        assert(t@.take(k + 1).drop_last() == t@.take(k as int));
        let w = char_bytes(t[k]);
        total = if total + w > 4 {
            5
        } else {
            total + w
        };
        k = k + 1;
        if total == 2 {
            halfway = true;
        }
        assert(halfway == exists|j: int| 0 <= j <= k && #[trigger] utf8_len(t@.take(j)) == 2) by {
            if halfway {
                if utf8_len(t@.take(k as int)) == 2 {
                    assert(0 <= k <= k);
                }
            }
        }
    }
    assert(t@.take(t@.len() as int) == t@);
    assert(halfway == exists|j: int| 0 <= j <= t@.len() && #[trigger] utf8_len(t@.take(j)) == 2);
    total == 4 && !halfway
}

impl Move {
    /// Reads a move in ICCS text: `h2e2`, `h2-e2`, or either case of file
    /// letter, with whitespace around.
    pub fn from_iccs(text: &str) -> (r: Option<Move>)
        requires
            !iccs_splits_char(text@),
        ensures
            r == iccs_move(text@),
    {
        crate::rules::iccs_to_move(text)
    }
}

} // verus!
