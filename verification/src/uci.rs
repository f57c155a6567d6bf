//! The UCI side of engine communication: what a search asks for, the
//! `info` and `bestmove` lines that come back, and the events they become.
use vstd::prelude::*;

use crate::text::{
    chars_eq, chars_of, parse_i32, parse_signed, parse_u32, parse_u64, parse_unsigned,
    split_whitespace, string_of, words,
};

verus! {

/// Why a search was started.
#[derive(Debug, Clone, Copy, PartialEq, Eq, Structural)]
pub enum SearchPurpose {
    AiMove,
    Evaluation,
    Hint,
}

/// A search for the engine worker to run.
#[derive(Debug, Clone)]
pub struct SearchRequest {
    pub id: u64,
    pub fen: String,
    /// Thinking time in milliseconds.
    pub movetime_ms: u64,
    pub purpose: SearchPurpose,
    pub multi_pv: u32,
}

/// One `info` report of a running search.
#[derive(Debug, Clone)]
pub struct AnalysisInfo {
    pub depth: Option<u32>,
    pub seldepth: Option<u32>,
    pub multipv: u32,
    pub score_cp: Option<i32>,
    pub mate: Option<i32>,
    pub time_ms: Option<u64>,
    pub nodes: Option<u64>,
    pub nps: Option<u64>,
    pub pv: Vec<String>,
}

/// The mathematical content of an [`AnalysisInfo`].
pub struct InfoView {
    pub depth: Option<u32>,
    pub seldepth: Option<u32>,
    pub multipv: u32,
    pub score_cp: Option<i32>,
    pub mate: Option<i32>,
    pub time_ms: Option<u64>,
    pub nodes: Option<u64>,
    pub nps: Option<u64>,
    pub pv: Seq<Seq<char>>,
}

pub open spec fn strings_view(v: Seq<String>) -> Seq<Seq<char>> {
    v.map_values(|s: String| s@)
}

impl View for AnalysisInfo {
    type V = InfoView;

    open spec fn view(&self) -> InfoView {
        InfoView {
            depth: self.depth,
            seldepth: self.seldepth,
            multipv: self.multipv,
            score_cp: self.score_cp,
            mate: self.mate,
            time_ms: self.time_ms,
            nodes: self.nodes,
            nps: self.nps,
            pv: strings_view(self.pv@),
        }
    }
}

/// An info with every field unset (`multipv` 0, no principal variation).
pub open spec fn empty_info() -> InfoView {
    InfoView {
        depth: None,
        seldepth: None,
        multipv: 0,
        score_cp: None,
        mate: None,
        time_ms: None,
        nodes: None,
        nps: None,
        pv: Seq::empty(),
    }
}

impl Default for AnalysisInfo {
    fn default() -> (r: Self)
        ensures
            r@ == empty_info(),
    {
        let r = AnalysisInfo {
            depth: None,
            seldepth: None,
            multipv: 0,
            score_cp: None,
            mate: None,
            time_ms: None,
            nodes: None,
            nps: None,
            pv: Vec::new(),
        };
        assert(strings_view(r.pv@) =~= Seq::empty());
        r
    }
}

/// What the engine worker reports back.
#[derive(Debug, Clone)]
pub enum AiEvent {
    Ready { name: String, external: bool },
    Info { id: u64, purpose: SearchPurpose, info: AnalysisInfo },
    BestMove { id: u64, purpose: SearchPurpose, best_move: Option<String>, ponder: Option<String> },
    Error(String),
}

/// The mathematical content of an [`AiEvent`].
pub enum EventView {
    Ready { name: Seq<char>, external: bool },
    Info { id: u64, purpose: SearchPurpose, info: InfoView },
    BestMove { id: u64, purpose: SearchPurpose, best_move: Option<Seq<char>>, ponder: Option<Seq<char>> },
    Error(Seq<char>),
}

impl View for AiEvent {
    type V = EventView;

    open spec fn view(&self) -> EventView {
        match self {
            AiEvent::Ready { name, external } => EventView::Ready { name: name@, external: *external },
            AiEvent::Info { id, purpose, info } => EventView::Info { id: *id, purpose: *purpose, info: info@ },
            AiEvent::BestMove { id, purpose, best_move, ponder } => EventView::BestMove {
                id: *id,
                purpose: *purpose,
                best_move: opt_string_view(*best_move),
                ponder: opt_string_view(*ponder),
            },
            AiEvent::Error(e) => EventView::Error(e@),
        }
    }
}

/// What the application asks of the engine worker.
#[derive(Debug)]
pub enum AiCommand {
    Search(SearchRequest),
    Stop,
    Quit,
}

/// The mathematical content of a [`SearchRequest`].
pub struct RequestView {
    pub id: u64,
    pub fen: Seq<char>,
    pub movetime_ms: u64,
    pub purpose: SearchPurpose,
    pub multi_pv: u32,
}

impl View for SearchRequest {
    type V = RequestView;

    open spec fn view(&self) -> RequestView {
        RequestView {
            id: self.id,
            fen: self.fen@,
            movetime_ms: self.movetime_ms,
            purpose: self.purpose,
            multi_pv: self.multi_pv,
        }
    }
}

/// The mathematical content of an [`AiCommand`].
pub enum CommandView {
    Search(RequestView),
    Stop,
    Quit,
}

impl View for AiCommand {
    type V = CommandView;

    open spec fn view(&self) -> CommandView {
        match self {
            AiCommand::Search(r) => CommandView::Search(r@),
            AiCommand::Stop => CommandView::Stop,
            AiCommand::Quit => CommandView::Quit,
        }
    }
}

// ---------------------------------------------------------------------------
// Words of the protocol
// ---------------------------------------------------------------------------

pub open spec fn w_info() -> Seq<char> {
    seq!['i', 'n', 'f', 'o']
}

pub open spec fn w_depth() -> Seq<char> {
    seq!['d', 'e', 'p', 't', 'h']
}

pub open spec fn w_seldepth() -> Seq<char> {
    seq!['s', 'e', 'l', 'd', 'e', 'p', 't', 'h']
}

pub open spec fn w_multipv() -> Seq<char> {
    seq!['m', 'u', 'l', 't', 'i', 'p', 'v']
}

pub open spec fn w_time() -> Seq<char> {
    seq!['t', 'i', 'm', 'e']
}

pub open spec fn w_nodes() -> Seq<char> {
    seq!['n', 'o', 'd', 'e', 's']
}

pub open spec fn w_nps() -> Seq<char> {
    seq!['n', 'p', 's']
}

pub open spec fn w_score() -> Seq<char> {
    seq!['s', 'c', 'o', 'r', 'e']
}

pub open spec fn w_cp() -> Seq<char> {
    seq!['c', 'p']
}

pub open spec fn w_mate() -> Seq<char> {
    seq!['m', 'a', 't', 'e']
}

pub open spec fn w_pv() -> Seq<char> {
    seq!['p', 'v']
}

pub open spec fn w_ponder() -> Seq<char> {
    seq!['p', 'o', 'n', 'd', 'e', 'r']
}

pub open spec fn w_none_paren() -> Seq<char> {
    seq!['(', 'n', 'o', 'n', 'e', ')']
}

pub open spec fn w_none() -> Seq<char> {
    seq!['n', 'o', 'n', 'e']
}

pub open spec fn w_null_move() -> Seq<char> {
    seq!['0', '0', '0', '0']
}

// ---------------------------------------------------------------------------
// Parsing `info` lines
// ---------------------------------------------------------------------------

/// The `u32` in the word after `index`, if there is one and it parses.
pub open spec fn read_u32_at(tokens: Seq<Seq<char>>, index: int) -> Option<u32> {
    if index + 1 < tokens.len() {
        match parse_unsigned(tokens[index + 1], u32::MAX as nat) {
            Some(v) => Some(v as u32),
            None => None,
        }
    } else {
        None
    }
}

/// The `u64` in the word after `index`, if there is one and it parses.
pub open spec fn read_u64_at(tokens: Seq<Seq<char>>, index: int) -> Option<u64> {
    if index + 1 < tokens.len() {
        match parse_unsigned(tokens[index + 1], u64::MAX as nat) {
            Some(v) => Some(v as u64),
            None => None,
        }
    } else {
        None
    }
}

pub open spec fn i32_of(s: Seq<char>) -> Option<i32> {
    match parse_signed(s, i32::MAX as nat) {
        Some(v) => Some(v as i32),
        None => None,
    }
}

/// Reads the words of an `info` line from `index` on, starting from `info`:
/// each key word sets its field from the words after it, unknown words are
/// skipped, and `pv` takes every word after it.
pub open spec fn info_scan(tokens: Seq<Seq<char>>, index: int, info: InfoView) -> InfoView
    decreases tokens.len() + 3 - index,
{
    if index < 0 || index >= tokens.len() {
        info
    } else {
        let t = tokens[index];
        if t == w_depth() {
            info_scan(tokens, index + 2, InfoView { depth: read_u32_at(tokens, index), ..info })
        } else if t == w_seldepth() {
            info_scan(tokens, index + 2, InfoView { seldepth: read_u32_at(tokens, index), ..info })
        } else if t == w_multipv() {
            let m = match read_u32_at(tokens, index) {
                Some(v) => v,
                None => 1,
            };
            info_scan(tokens, index + 2, InfoView { multipv: m, ..info })
        } else if t == w_time() {
            info_scan(tokens, index + 2, InfoView { time_ms: read_u64_at(tokens, index), ..info })
        } else if t == w_nodes() {
            info_scan(tokens, index + 2, InfoView { nodes: read_u64_at(tokens, index), ..info })
        } else if t == w_nps() {
            info_scan(tokens, index + 2, InfoView { nps: read_u64_at(tokens, index), ..info })
        } else if t == w_score() && index + 2 < tokens.len() {
            let next = if tokens[index + 1] == w_cp() {
                InfoView { score_cp: i32_of(tokens[index + 2]), ..info }
            } else if tokens[index + 1] == w_mate() {
                InfoView { mate: i32_of(tokens[index + 2]), ..info }
            } else {
                info
            };
            info_scan(tokens, index + 3, next)
        } else if t == w_pv() {
            InfoView { pv: tokens.skip(index + 1), ..info }
        } else {
            info_scan(tokens, index + 1, info)
        }
    }
}

/// What an `info` line reports: `None` unless its first word is `info` and it
/// gives a depth, a principal variation, a score or a mate distance.
pub open spec fn spec_parse_info(line: Seq<char>) -> Option<InfoView> {
    let tokens = words(line);
    if tokens.len() == 0 || tokens[0] != w_info() {
        None
    } else {
        let info = info_scan(tokens, 1, InfoView { multipv: 1, ..empty_info() });
        if info.depth is None && info.pv.len() == 0 && info.score_cp is None && info.mate is None {
            None
        } else {
            Some(info)
        }
    }
}

/// The views of a vector of character vectors.
pub open spec fn vecs_view(v: Seq<Vec<char>>) -> Seq<Seq<char>> {
    v.map_values(|w: Vec<char>| w@)
}

/// Reads the `u32` after `index` into `target` and steps past it.
pub fn read_u32(tokens: &Vec<Vec<char>>, index: &mut usize, target: &mut Option<u32>)
    requires
        *old(index) + 2 <= usize::MAX,
    ensures
        *final(target) == read_u32_at(vecs_view(tokens@), *old(index) as int),
        *final(index) == *old(index) + 2,
{
    let i = *index;
    *target = if i + 1 < tokens.len() {
        parse_u32(tokens[i + 1].as_slice())
    } else {
        None
    };
    *index = i + 2;
}

/// Reads the `u64` after `index` into `target` and steps past it.
pub fn read_u64(tokens: &Vec<Vec<char>>, index: &mut usize, target: &mut Option<u64>)
    requires
        *old(index) + 2 <= usize::MAX,
    ensures
        *final(target) == read_u64_at(vecs_view(tokens@), *old(index) as int),
        *final(index) == *old(index) + 2,
{
    let i = *index;
    *target = if i + 1 < tokens.len() {
        parse_u64(tokens[i + 1].as_slice())
    } else {
        None
    };
    *index = i + 2;
}

/// Vector literals of the protocol words.
fn word(cs: &[char]) -> (v: Vec<char>)
    ensures
        v@ == cs@,
{
    let mut v: Vec<char> = Vec::new();
    let mut i: usize = 0;
    while i < cs.len()
        invariant
            i <= cs@.len(),
            v@ == cs@.take(i as int),
        decreases cs@.len() - i,
    {
        v.push(cs[i]);
        i = i + 1;
    }
    assert(cs@.take(cs@.len() as int) == cs@);
    v
}

/// Strings for the words `tokens[from..]`.
fn strings_from(tokens: &Vec<Vec<char>>, from: usize) -> (r: Vec<String>)
    requires
        from <= tokens@.len(),
    ensures
        strings_view(r@) == vecs_view(tokens@).skip(from as int),
{
    let mut r: Vec<String> = Vec::new();
    let mut i: usize = from;
    while i < tokens.len()
        invariant
            from <= i <= tokens@.len(),
            strings_view(r@) == vecs_view(tokens@).subrange(from as int, i as int),
        decreases tokens@.len() - i,
    {
        let s = string_of(tokens[i].as_slice());
        let ghost before = r@;
        r.push(s);
        assert(r@ == before.push(s));
        assert(strings_view(r@) == strings_view(before).push(s@));
        i = i + 1;
        assert(strings_view(r@) =~= vecs_view(tokens@).subrange(from as int, i as int));
    }
    assert(vecs_view(tokens@).subrange(from as int, tokens@.len() as int) =~= vecs_view(
        tokens@,
    ).skip(from as int));
    r
}

/// Splits a line into its words, with the bound that keeps index arithmetic safe.
fn line_words(line: &str) -> (tokens: Vec<Vec<char>>)
    ensures
        vecs_view(tokens@) == words(line@),
        tokens@.len() + 3 < usize::MAX,
{
    let cs = chars_of(line);
    let n = cs.len();
    let tokens = split_whitespace(cs.as_slice());
    assert(vecs_view(tokens@) =~= words(line@));
    tokens
}

/// Parses a UCI `info` line into the fields it reports.
pub fn parse_info_line(line: &str) -> (r: Option<AnalysisInfo>)
    ensures
        match spec_parse_info(line@) {
            Some(v) => r is Some && r->0@ == v,
            None => r is None,
        },
{
    let tokens = line_words(line);
    let ghost t = vecs_view(tokens@);
    if tokens.len() == 0 || !chars_eq(tokens[0].as_slice(), word(&['i', 'n', 'f', 'o']).as_slice()) {
        return None;
    }
    assert(tokens[0]@ == t[0]);
    let mut info = AnalysisInfo::default();
    info.multipv = 1;
    let ghost target = info_scan(t, 1, info@);
    assert(target == info_scan(t, 1, InfoView { multipv: 1, ..empty_info() }));
    let mut index: usize = 1;
    while index < tokens.len()
        invariant
            t == vecs_view(tokens@),
            tokens@.len() + 3 < usize::MAX,
            1 <= index <= tokens@.len() + 2,
            info_scan(t, index as int, info@) == target,
            t == words(line@),
            t.len() > 0 && t[0] == w_info(),
            target == info_scan(t, 1, InfoView { multipv: 1, ..empty_info() }),
        decreases tokens@.len() + 3 - index,
    {
        let tok = tokens[index].as_slice();
        assert(tok@ == t[index as int]);
        if chars_eq(tok, word(&['d', 'e', 'p', 't', 'h']).as_slice()) {
            read_u32(&tokens, &mut index, &mut info.depth);
        } else if chars_eq(tok, word(&['s', 'e', 'l', 'd', 'e', 'p', 't', 'h']).as_slice()) {
            read_u32(&tokens, &mut index, &mut info.seldepth);
        } else if chars_eq(tok, word(&['m', 'u', 'l', 't', 'i', 'p', 'v']).as_slice()) {
            let mut value: Option<u32> = None;
            read_u32(&tokens, &mut index, &mut value);
            info.multipv = match value {
                Some(v) => v,
                None => 1,
            };
        } else if chars_eq(tok, word(&['t', 'i', 'm', 'e']).as_slice()) {
            read_u64(&tokens, &mut index, &mut info.time_ms);
        } else if chars_eq(tok, word(&['n', 'o', 'd', 'e', 's']).as_slice()) {
            read_u64(&tokens, &mut index, &mut info.nodes);
        } else if chars_eq(tok, word(&['n', 'p', 's']).as_slice()) {
            read_u64(&tokens, &mut index, &mut info.nps);
        } else if chars_eq(tok, word(&['s', 'c', 'o', 'r', 'e']).as_slice()) && index + 2
            < tokens.len() {
            let kind = tokens[index + 1].as_slice();
            assert(kind@ == t[index + 1]);
            assert(tokens[index + 2 as int]@ == t[index + 2]);
            if chars_eq(kind, word(&['c', 'p']).as_slice()) {
                info.score_cp = parse_i32(tokens[index + 2].as_slice());
            } else if chars_eq(kind, word(&['m', 'a', 't', 'e']).as_slice()) {
                info.mate = parse_i32(tokens[index + 2].as_slice());
            }
            index = index + 3;
        } else if chars_eq(tok, word(&['p', 'v']).as_slice()) {
            let ghost before = info@;
            info.pv = strings_from(&tokens, index + 1);
            assert(info@ == InfoView { pv: t.skip(index + 1), ..before });
            assert(info@ == target);
            assert(info@.pv.len() == info.pv@.len());
            return if info.depth.is_none() && info.pv.len() == 0 && info.score_cp.is_none()
                && info.mate.is_none() {
                None
            } else {
                Some(info)
            };
        } else {
            index = index + 1;
        }
    }
    assert(info@.pv.len() == info.pv@.len());
    if info.depth.is_none() && info.pv.len() == 0 && info.score_cp.is_none() && info.mate.is_none() {
        None
    } else {
        Some(info)
    }
}

// ---------------------------------------------------------------------------
// Parsing `bestmove` lines
// ---------------------------------------------------------------------------

/// The word after the first `ponder` that has a word after it.
pub open spec fn ponder_from(tokens: Seq<Seq<char>>, index: int) -> Option<Seq<char>>
    decreases tokens.len() - index,
{
    if index < 0 || index + 1 >= tokens.len() {
        None
    } else if tokens[index] == w_ponder() {
        Some(tokens[index + 1])
    } else {
        ponder_from(tokens, index + 1)
    }
}

/// What a `bestmove` line names: its second word unless that says there is no
/// move, and the word after `ponder`.
pub open spec fn spec_parse_bestmove(line: Seq<char>) -> (Option<Seq<char>>, Option<Seq<char>>) {
    let tokens = words(line);
    let best = if tokens.len() > 1 && tokens[1] != w_none_paren() && tokens[1] != w_none()
        && tokens[1] != w_null_move() {
        Some(tokens[1])
    } else {
        None
    };
    (best, ponder_from(tokens, 0))
}

pub open spec fn opt_string_view(o: Option<String>) -> Option<Seq<char>> {
    match o {
        Some(s) => Some(s@),
        None => None,
    }
}

/// The word after the first `ponder` in `tokens`.
fn ponder_in(tokens: &Vec<Vec<char>>) -> (r: Option<String>)
    requires
        tokens@.len() + 3 < usize::MAX,
    ensures
        opt_string_view(r) == ponder_from(vecs_view(tokens@), 0),
{
    let ghost t = vecs_view(tokens@);
    let mut i: usize = 0;
    while i + 1 < tokens.len()
        invariant
            t == vecs_view(tokens@),
            tokens@.len() + 3 < usize::MAX,
            i < tokens@.len() + 1,
            ponder_from(t, i as int) == ponder_from(t, 0),
        decreases tokens@.len() - i,
    {
        assert(tokens[i as int]@ == t[i as int]);
        if chars_eq(tokens[i].as_slice(), word(&['p', 'o', 'n', 'd', 'e', 'r']).as_slice()) {
            assert(tokens[i + 1 as int]@ == t[i + 1]);
            return Some(string_of(tokens[i + 1].as_slice()));
        }
        i = i + 1;
    }
    None
}

/// Parses a UCI `bestmove` line into the move and the expected reply.
pub fn parse_bestmove_line(line: &str) -> (r: (Option<String>, Option<String>))
    ensures
        opt_string_view(r.0) == spec_parse_bestmove(line@).0,
        opt_string_view(r.1) == spec_parse_bestmove(line@).1,
{
    let tokens = line_words(line);
    let ghost t = vecs_view(tokens@);
    let best = if tokens.len() > 1 {
        let b = tokens[1].as_slice();
        assert(b@ == t[1]);
        if chars_eq(b, word(&['(', 'n', 'o', 'n', 'e', ')']).as_slice()) || chars_eq(
            b,
            word(&['n', 'o', 'n', 'e']).as_slice(),
        ) || chars_eq(b, word(&['0', '0', '0', '0']).as_slice()) {
            None
        } else {
            Some(string_of(b))
        }
    } else {
        None
    };
    let ponder = ponder_in(&tokens);
    (best, ponder)
}

} // verus!
