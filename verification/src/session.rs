//! The conversation with an external UCI engine, as a state machine: the
//! handshake (`uci` … `uciok`, options, `isready` … `readyok`), then
//! searches started, stopped and replaced as the application asks, with the
//! engine's `info` and `bestmove` lines turned into events. The caller owns
//! the process: it writes the lines a step returns, reports what it reads,
//! and passes on the events.
use vstd::prelude::*;

use crate::text::{chars_eq, chars_from, chars_of, dec_string, push_decimal, starts_with, string_of, trim, trim_chars};
use crate::uci::{
    opt_string_view, parse_bestmove_line, parse_info_line, spec_parse_bestmove, spec_parse_info,
    AiCommand, AiEvent, CommandView, EventView, RequestView, SearchPurpose, SearchRequest,
};

verus! {

/// Where the conversation stands.
#[derive(Debug, Clone, Copy, PartialEq, Eq, Structural)]
pub enum SessionPhase {
    /// `uci` was sent; waiting for `uciok`.
    AwaitUciOk,
    /// The options and `isready` were sent; waiting for `readyok`.
    AwaitReadyOk,
    /// Ready for searches.
    Running,
    /// The conversation is over.
    Finished,
}

/// A search the engine runs, and whether its results still count.
#[derive(Debug)]
pub struct RunningSearch {
    pub request: SearchRequest,
    pub canceled: bool,
}

/// The conversation with one engine process.
#[derive(Debug)]
pub struct UciSession {
    pub phase: SessionPhase,
    /// The name the engine gave (`Pikafish` until it says otherwise).
    pub engine_name: String,
    /// The number of threads the engine is asked to use.
    pub threads: u32,
    pub active: Option<RunningSearch>,
    /// The search to start once the running one has stopped.
    pub pending: Option<SearchRequest>,
}

/// How a step leaves the conversation.
#[derive(Debug, Clone, PartialEq, Eq)]
pub enum SessionOutcome {
    Continue,
    /// Over, as asked.
    Finished,
    /// Over because the engine failed, with the reason.
    Failed(String),
}

/// What the caller does after a step: write `lines` to the engine in order
/// (ignoring write errors when `best_effort`), then report `events`.
#[derive(Debug)]
pub struct SessionStep {
    pub lines: Vec<String>,
    pub best_effort: bool,
    pub events: Vec<AiEvent>,
    pub outcome: SessionOutcome,
}

/// The mathematical content of a [`SessionOutcome`].
pub enum OutcomeView {
    Continue,
    Finished,
    Failed(Seq<char>),
}

/// The mathematical content of a [`UciSession`].
pub struct SessionView {
    pub phase: SessionPhase,
    pub engine_name: Seq<char>,
    pub threads: u32,
    /// The running search and whether it was canceled.
    pub active: Option<(RequestView, bool)>,
    pub pending: Option<RequestView>,
}

/// The mathematical content of a [`SessionStep`].
pub struct StepView {
    pub lines: Seq<Seq<char>>,
    pub best_effort: bool,
    pub events: Seq<EventView>,
    pub outcome: OutcomeView,
}

impl View for SessionOutcome {
    type V = OutcomeView;

    open spec fn view(&self) -> OutcomeView {
        match self {
            SessionOutcome::Continue => OutcomeView::Continue,
            SessionOutcome::Finished => OutcomeView::Finished,
            SessionOutcome::Failed(e) => OutcomeView::Failed(e@),
        }
    }
}

impl View for UciSession {
    type V = SessionView;

    open spec fn view(&self) -> SessionView {
        SessionView {
            phase: self.phase,
            engine_name: self.engine_name@,
            threads: self.threads,
            active: match self.active {
                Some(a) => Some((a.request@, a.canceled)),
                None => None,
            },
            pending: match self.pending {
                Some(r) => Some(r@),
                None => None,
            },
        }
    }
}

impl View for SessionStep {
    type V = StepView;

    open spec fn view(&self) -> StepView {
        StepView {
            lines: self.lines@.map_values(|l: String| l@),
            best_effort: self.best_effort,
            events: self.events@.map_values(|e: AiEvent| e@),
            outcome: self.outcome@,
        }
    }
}

/// A step that writes `lines` and reports `events`, and goes on.
pub open spec fn going_on(lines: Seq<Seq<char>>, events: Seq<EventView>) -> StepView {
    StepView { lines, best_effort: false, events, outcome: OutcomeView::Continue }
}

/// A step that ends the conversation because of `reason`.
pub open spec fn failing(reason: Seq<char>) -> StepView {
    StepView {
        lines: Seq::empty(),
        best_effort: false,
        events: Seq::empty(),
        outcome: OutcomeView::Failed(reason),
    }
}

/// `n`, but at least 1.
pub open spec fn at_least_one(n: int) -> int {
    if n < 1 {
        1
    } else {
        n
    }
}

/// The lines that start a search: the number of lines wanted (at least
/// one), the position, and the thinking time in milliseconds (at least one).
pub open spec fn search_lines(r: RequestView) -> Seq<Seq<char>> {
    seq![
        "setoption name MultiPV value "@ + dec_string(at_least_one(r.multi_pv as int) as nat),
        "position fen "@ + r.fen,
        "go movetime "@ + dec_string(at_least_one(r.movetime_ms as int) as nat),
    ]
}

/// The lines sent once the engine has named itself: its options, then
/// `isready`.
pub open spec fn option_lines(threads: u32) -> Seq<Seq<char>> {
    seq![
        "setoption name Threads value "@ + dec_string(threads as nat),
        "setoption name Hash value 256"@,
        "setoption name UCI_ShowWDL value true"@,
        "isready"@,
    ]
}

/// The session after `line` from the engine, and what to do.
///
/// While waiting for `uciok`, `id name` gives the engine's name, and
/// `uciok` brings the options and `isready`; `readyok` then reports the
/// engine ready. Once running, `info` lines of a search that still counts
/// become reports, and `bestmove` ends the running search (reported unless
/// canceled) and starts the pending one.
pub open spec fn line_step(s: SessionView, line: Seq<char>) -> (SessionView, StepView) {
    match s.phase {
        SessionPhase::AwaitUciOk => {
            let named = if line.len() >= 8 && line.take(8) == "id name "@ {
                SessionView { engine_name: trim(line.skip(8)), ..s }
            } else {
                s
            };
            if trim(line) == "uciok"@ {
                (
                    SessionView { phase: SessionPhase::AwaitReadyOk, ..named },
                    going_on(option_lines(s.threads), Seq::empty()),
                )
            } else {
                (named, going_on(Seq::empty(), Seq::empty()))
            }
        },
        SessionPhase::AwaitReadyOk => {
            if trim(line) == "readyok"@ {
                (
                    SessionView { phase: SessionPhase::Running, ..s },
                    going_on(
                        Seq::empty(),
                        seq![EventView::Ready { name: s.engine_name, external: true }],
                    ),
                )
            } else {
                (s, going_on(Seq::empty(), Seq::empty()))
            }
        },
        SessionPhase::Running => {
            if line.len() >= 5 && line.take(5) == "info "@ {
                (s, info_line_step(s, line))
            } else if line.len() >= 8 && line.take(8) == "bestmove"@ {
                best_move_line_step(s, line)
            } else {
                (s, going_on(Seq::empty(), Seq::empty()))
            }
        },
        SessionPhase::Finished => (s, going_on(Seq::empty(), Seq::empty())),
    }
}

/// What an `info` line of a running conversation gives: a report on the
/// running search when it still counts and the line says something.
pub open spec fn info_line_step(s: SessionView, line: Seq<char>) -> StepView {
    match (s.active, spec_parse_info(line)) {
        (Some((r, false)), Some(info)) => going_on(
            Seq::empty(),
            seq![EventView::Info { id: r.id, purpose: r.purpose, info }],
        ),
        _ => going_on(Seq::empty(), Seq::empty()),
    }
}

/// What a `bestmove` line of a running conversation does: the running
/// search ends (reported unless canceled), and the pending one starts.
pub open spec fn best_move_line_step(s: SessionView, line: Seq<char>) -> (SessionView, StepView) {
    let events = match s.active {
        Some((r, false)) => seq![
            EventView::BestMove {
                id: r.id,
                purpose: r.purpose,
                best_move: spec_parse_bestmove(line).0,
                ponder: spec_parse_bestmove(line).1,
            },
        ],
        _ => Seq::empty(),
    };
    match s.pending {
        Some(p) => (SessionView { active: Some((p, false)), pending: None, ..s }, going_on(search_lines(p), events)),
        None => (SessionView { active: None, ..s }, going_on(Seq::empty(), events)),
    }
}

/// The session after a request from the application, and what to do: a
/// search starts at once, or, while one runs, replaces it (the running one
/// is canceled and stopped); `stop` cancels the running search and drops
/// the pending one; `quit` stops the engine and ends the conversation.
pub open spec fn command_step(s: SessionView, c: CommandView) -> (SessionView, StepView) {
    match c {
        CommandView::Search(r) => match s.active {
            Some((a, _)) => (
                SessionView { active: Some((a, true)), pending: Some(r), ..s },
                going_on(seq!["stop"@], Seq::empty()),
            ),
            None => (SessionView { active: Some((r, false)), ..s }, going_on(search_lines(r), Seq::empty())),
        },
        CommandView::Stop => match s.active {
            Some((a, _)) => (
                SessionView { active: Some((a, true)), pending: None, ..s },
                going_on(seq!["stop"@], Seq::empty()),
            ),
            None => (SessionView { pending: None, ..s }, going_on(Seq::empty(), Seq::empty())),
        },
        CommandView::Quit => (
            SessionView { phase: SessionPhase::Finished, ..s },
            StepView {
                lines: if s.active is Some {
                    seq!["stop"@, "quit"@]
                } else {
                    seq!["quit"@]
                },
                best_effort: true,
                events: Seq::empty(),
                outcome: OutcomeView::Finished,
            },
        ),
    }
}

/// How long each step of the handshake (`uciok`, then `readyok`) may take,
/// in seconds, before [`UciSession::on_timeout`] applies.
pub const HANDSHAKE_TIMEOUT_SECS: u64 = 10;

/// The reason the handshake failed when the engine did not answer in time
/// (or stopped answering).
pub open spec fn handshake_failure(phase: SessionPhase) -> Seq<char> {
    if phase == SessionPhase::AwaitUciOk {
        "等待 uciok 超时"@
    } else {
        "等待 readyok 超时"@
    }
}

/// The number of engine threads: what the machine offers, kept within 1 to
/// 8; 2 when unknown.
pub open spec fn spec_engine_threads(available: Option<usize>) -> u32 {
    match available {
        Some(n) => if n < 1 {
            1
        } else if n > 8 {
            8
        } else {
            n as u32
        },
        None => 2,
    }
}

/// The number of engine threads for what the machine offers.
pub fn engine_threads(available: Option<usize>) -> (r: u32)
    ensures
        r == spec_engine_threads(available),
{
    match available {
        Some(n) => if n < 1 {
            1
        } else if n > 8 {
            8
        } else {
            n as u32
        },
        None => 2,
    }
}

/// The error report when the external engine cannot be used and the
/// built-in one takes over.
pub fn fallback_message(reason: &str) -> (r: String)
    ensures
        r@ == "Pikafish 启动失败，改用内置引擎："@ + reason@,
{
    let mut s = String::new();
    s.append("Pikafish 启动失败，改用内置引擎：");
    s.append(reason);
    s
}

/// The lines that start search `r`.
fn start_lines(r: &SearchRequest) -> (lines: Vec<String>)
    ensures
        lines@.map_values(|l: String| l@) == search_lines(r@),
{
    let mut multi = String::new();
    multi.append("setoption name MultiPV value ");
    let m: u64 = if r.multi_pv < 1 {
        1
    } else {
        r.multi_pv as u64
    };
    push_decimal(&mut multi, m);
    let mut position = String::new();
    position.append("position fen ");
    position.append(r.fen.as_str());
    let mut go = String::new();
    go.append("go movetime ");
    let t: u64 = if r.movetime_ms < 1 {
        1
    } else {
        r.movetime_ms
    };
    push_decimal(&mut go, t);
    let mut lines: Vec<String> = Vec::new();
    lines.push(multi);
    lines.push(position);
    lines.push(go);
    assert(lines@.map_values(|l: String| l@) =~= search_lines(r@));
    lines
}

fn one_line(text: &str) -> (lines: Vec<String>)
    ensures
        lines@.map_values(|l: String| l@) == seq![text@],
{
    let mut lines: Vec<String> = Vec::new();
    lines.push(text.to_string());
    assert(lines@.map_values(|l: String| l@) =~= seq![text@]);
    lines
}

fn no_lines() -> (lines: Vec<String>)
    ensures
        lines@.map_values(|l: String| l@) == Seq::<Seq<char>>::empty(),
{
    let lines: Vec<String> = Vec::new();
    assert(lines@.map_values(|l: String| l@) =~= Seq::<Seq<char>>::empty());
    lines
}

fn no_events() -> (events: Vec<AiEvent>)
    ensures
        events@.map_values(|e: AiEvent| e@) == Seq::<EventView>::empty(),
{
    let events: Vec<AiEvent> = Vec::new();
    assert(events@.map_values(|e: AiEvent| e@) =~= Seq::<EventView>::empty());
    events
}

fn one_event(e: AiEvent) -> (events: Vec<AiEvent>)
    ensures
        events@.map_values(|x: AiEvent| x@) == seq![e@],
{
    let ghost v = e@;
    let mut events: Vec<AiEvent> = Vec::new();
    events.push(e);
    assert(events@.map_values(|x: AiEvent| x@) =~= seq![v]);
    events
}

fn step(lines: Vec<String>, events: Vec<AiEvent>) -> (r: SessionStep)
    ensures
        r@ == going_on(lines@.map_values(|l: String| l@), events@.map_values(|e: AiEvent| e@)),
{
    SessionStep { lines, best_effort: false, events, outcome: SessionOutcome::Continue }
}

fn text_is(line: &[char], word: &str) -> (r: bool)
    ensures
        r == (trim(line@) == word@),
{
    let t = trim_chars(line);
    let w = chars_of(word);
    chars_eq(t.as_slice(), w.as_slice())
}

fn begins_with(line: &[char], prefix: &str) -> (r: bool)
    ensures
        r == (line@.len() >= prefix@.len() && line@.take(prefix@.len() as int) == prefix@),
{
    let p = chars_of(prefix);
    starts_with(line, p.as_slice())
}

impl UciSession {
    /// Opens the conversation: the engine is sent `uci`, and is to use
    /// `threads` threads.
    pub fn start(threads: u32) -> (r: (UciSession, SessionStep))
        ensures
            r.0@ == (SessionView {
                phase: SessionPhase::AwaitUciOk,
                engine_name: "Pikafish"@,
                threads,
                active: None,
                pending: None,
            }),
            r.1@ == going_on(seq!["uci"@], Seq::empty()),
    {
        let session = UciSession {
            phase: SessionPhase::AwaitUciOk,
            engine_name: "Pikafish".to_string(),
            threads,
            active: None,
            pending: None,
        };
        (session, step(one_line("uci"), no_events()))
    }

    /// Takes in a line the engine wrote (see [`line_step`]).
    pub fn on_line(&mut self, line: &str) -> (r: SessionStep)
        ensures
            (final(self)@, r@) == line_step(old(self)@, line@),
    {
        proof {
            reveal_strlit("id name ");
            reveal_strlit("info ");
            reveal_strlit("bestmove");
        }
        let cs = chars_of(line);
        match self.phase {
            SessionPhase::AwaitUciOk => {
                if begins_with(cs.as_slice(), "id name ") {
                    let rest = chars_from(cs.as_slice(), 8);
                    let name = trim_chars(rest.as_slice());
                    self.engine_name = string_of(name.as_slice());
                }
                if text_is(cs.as_slice(), "uciok") {
                    self.phase = SessionPhase::AwaitReadyOk;
                    (self.option_step())
                } else {
                    step(no_lines(), no_events())
                }
            },
            SessionPhase::AwaitReadyOk => {
                if text_is(cs.as_slice(), "readyok") {
                    self.phase = SessionPhase::Running;
                    let ready = AiEvent::Ready { name: self.engine_name.clone(), external: true };
                    step(no_lines(), one_event(ready))
                } else {
                    step(no_lines(), no_events())
                }
            },
            SessionPhase::Running => {
                if begins_with(cs.as_slice(), "info ") {
                    self.info_step(line)
                } else if begins_with(cs.as_slice(), "bestmove") {
                    self.best_move_step(line)
                } else {
                    step(no_lines(), no_events())
                }
            },
            SessionPhase::Finished => step(no_lines(), no_events()),
        }
    }

    fn option_step(&self) -> (r: SessionStep)
        ensures
            r@ == going_on(option_lines(self.threads), Seq::empty()),
    {
        let mut threads = String::new();
        threads.append("setoption name Threads value ");
        push_decimal(&mut threads, self.threads as u64);
        let mut lines: Vec<String> = Vec::new();
        lines.push(threads);
        lines.push("setoption name Hash value 256".to_string());
        lines.push("setoption name UCI_ShowWDL value true".to_string());
        lines.push("isready".to_string());
        assert(lines@.map_values(|l: String| l@) =~= option_lines(self.threads));
        step(lines, no_events())
    }

    fn info_step(&self, line: &str) -> (r: SessionStep)
        requires
            self.phase == SessionPhase::Running,
        ensures
            r@ == info_line_step(self@, line@),
    {
        match &self.active {
            Some(search) => {
                if search.canceled {
                    return step(no_lines(), no_events());
                }
                match parse_info_line(line) {
                    Some(info) => {
                        let event = AiEvent::Info { id: search.request.id, purpose: search.request.purpose, info };
                        step(no_lines(), one_event(event))
                    },
                    None => step(no_lines(), no_events()),
                }
            },
            None => step(no_lines(), no_events()),
        }
    }

    fn best_move_step(&mut self, line: &str) -> (r: SessionStep)
        requires
            old(self).phase == SessionPhase::Running,
        ensures
            (final(self)@, r@) == best_move_line_step(old(self)@, line@),
    {
        let events = match self.active.take() {
            Some(search) => {
                if search.canceled {
                    no_events()
                } else {
                    let (best_move, ponder) = parse_bestmove_line(line);
                    one_event(
                        AiEvent::BestMove {
                            id: search.request.id,
                            purpose: search.request.purpose,
                            best_move,
                            ponder,
                        },
                    )
                }
            },
            None => no_events(),
        };
        match self.pending.take() {
            Some(request) => {
                let lines = start_lines(&request);
                self.active = Some(RunningSearch { request, canceled: false });
                step(lines, events)
            },
            None => step(no_lines(), events),
        }
    }

    /// Takes in a request from the application (see [`command_step`]);
    /// requests are read only once the engine is ready.
    pub fn on_command(&mut self, command: AiCommand) -> (r: SessionStep)
        requires
            old(self).phase == SessionPhase::Running,
        ensures
            (final(self)@, r@) == command_step(old(self)@, command@),
    {
        match command {
            AiCommand::Search(request) => {
                match &mut self.active {
                    Some(search) => {
                        search.canceled = true;
                        self.pending = Some(request);
                        step(one_line("stop"), no_events())
                    },
                    None => {
                        let lines = start_lines(&request);
                        self.active = Some(RunningSearch { request, canceled: false });
                        step(lines, no_events())
                    },
                }
            },
            AiCommand::Stop => {
                self.pending = None;
                match &mut self.active {
                    Some(search) => {
                        search.canceled = true;
                        step(one_line("stop"), no_events())
                    },
                    None => step(no_lines(), no_events()),
                }
            },
            AiCommand::Quit => {
                let mut lines: Vec<String> = Vec::new();
                if self.active.is_some() {
                    lines.push("stop".to_string());
                }
                lines.push("quit".to_string());
                self.phase = SessionPhase::Finished;
                let ghost seen = lines@.map_values(|l: String| l@);
                assert(seen =~= (if old(self)@.active is Some {
                    seq!["stop"@, "quit"@]
                } else {
                    seq!["quit"@]
                }));
                SessionStep { lines, best_effort: true, events: no_events(), outcome: SessionOutcome::Finished }
            },
        }
    }

    /// The engine did not answer in time: the handshake fails; later, time
    /// does not matter.
    pub fn on_timeout(&mut self) -> (r: SessionStep)
        ensures
            old(self).phase == SessionPhase::AwaitUciOk || old(self).phase == SessionPhase::AwaitReadyOk
                ==> final(self)@ == (SessionView { phase: SessionPhase::Finished, ..old(self)@ })
                && r@ == failing(handshake_failure(old(self).phase)),
            !(old(self).phase == SessionPhase::AwaitUciOk || old(self).phase == SessionPhase::AwaitReadyOk)
                ==> final(self)@ == old(self)@ && r@ == going_on(Seq::empty(), Seq::empty()),
    {
        match self.phase {
            SessionPhase::AwaitUciOk => {
                self.phase = SessionPhase::Finished;
                self.failure("等待 uciok 超时")
            },
            SessionPhase::AwaitReadyOk => {
                self.phase = SessionPhase::Finished;
                self.failure("等待 readyok 超时")
            },
            _ => step(no_lines(), no_events()),
        }
    }

    /// The engine's output ended: during the handshake this counts as no
    /// answer; afterwards the engine has exited.
    pub fn on_engine_closed(&mut self) -> (r: SessionStep)
        ensures
            old(self).phase == SessionPhase::Finished ==> final(self)@ == old(self)@ && r@ == going_on(
                Seq::empty(),
                Seq::empty(),
            ),
            old(self).phase == SessionPhase::Running ==> final(self)@ == (SessionView {
                phase: SessionPhase::Finished,
                ..old(self)@
            }) && r@ == failing("引擎进程已退出"@),
            old(self).phase == SessionPhase::AwaitUciOk || old(self).phase == SessionPhase::AwaitReadyOk
                ==> final(self)@ == (SessionView { phase: SessionPhase::Finished, ..old(self)@ })
                && r@ == failing(handshake_failure(old(self).phase)),
    {
        match self.phase {
            SessionPhase::Running => {
                self.phase = SessionPhase::Finished;
                self.failure("引擎进程已退出")
            },
            _ => self.on_timeout(),
        }
    }

    /// The application went away: the conversation ends.
    pub fn on_commands_closed(&mut self) -> (r: SessionStep)
        ensures
            final(self)@ == (SessionView { phase: SessionPhase::Finished, ..old(self)@ }),
            r@ == (StepView {
                lines: Seq::empty(),
                best_effort: false,
                events: Seq::empty(),
                outcome: OutcomeView::Finished,
            }),
    {
        self.phase = SessionPhase::Finished;
        SessionStep { lines: no_lines(), best_effort: false, events: no_events(), outcome: SessionOutcome::Finished }
    }

    fn failure(&self, reason: &str) -> (r: SessionStep)
        ensures
            r@ == failing(reason@),
    {
        SessionStep {
            lines: no_lines(),
            best_effort: false,
            events: no_events(),
            outcome: SessionOutcome::Failed(reason.to_string()),
        }
    }
}

/// Once a search is canceled, nothing more of it is reported.
pub proof fn lemma_canceled_search_is_silent(s: SessionView, line: Seq<char>)
    requires
        s.phase == SessionPhase::Running,
        s.active matches Some((_, true)),
    ensures
        line_step(s, line).1.events.len() == 0,
{
}

/// A search asked for while another runs waits: the running one is stopped,
/// and the new one starts when the engine reports the end of the old one,
/// whose result is not reported.
pub proof fn lemma_replacement_waits_for_bestmove(s: SessionView, r: RequestView, line: Seq<char>)
    requires
        s.phase == SessionPhase::Running,
        s.active is Some,
        line.len() >= 8,
        line.take(8) == "bestmove"@,
    ensures
        command_step(s, CommandView::Search(r)).1.lines == seq!["stop"@],
        command_step(s, CommandView::Search(r)).0.pending == Some(r),
        line_step(command_step(s, CommandView::Search(r)).0, line).0.active == Some((r, false)),
        line_step(command_step(s, CommandView::Search(r)).0, line).1.lines == search_lines(r),
        line_step(command_step(s, CommandView::Search(r)).0, line).1.events.len() == 0,
{
    reveal_strlit("info ");
    reveal_strlit("bestmove");
    assert(line.take(8)[0] == 'b');
    assert(line[0] == 'b');
    assert(line.take(5) != "info "@) by {
        assert(line.take(5)[0] == line[0]);
        assert("info "@[0] == 'i');
    }
}


// ---------------------------------------------------------------------------
// Whole conversations
// ---------------------------------------------------------------------------

/// What happens to a conversation: a line from the engine, or a request
/// from the application (which is read only once the engine is ready).
pub enum SessionInput {
    Line(Seq<char>),
    Command(CommandView),
}

/// One step of a conversation, as [`UciSession::on_line`] and
/// [`UciSession::on_command`] take it.
pub open spec fn session_step(s: SessionView, input: SessionInput) -> (SessionView, StepView) {
    match input {
        SessionInput::Line(line) => line_step(s, line),
        SessionInput::Command(c) => if s.phase == SessionPhase::Running {
            command_step(s, c)
        } else {
            (s, going_on(Seq::empty(), Seq::empty()))
        },
    }
}

/// A conversation over `inputs` from `s`: where it ends, every line written
/// to the engine, and every event reported, in order.
pub open spec fn session_run(s: SessionView, inputs: Seq<SessionInput>) -> (SessionView, Seq<Seq<char>>, Seq<EventView>)
    decreases inputs.len(),
{
    if inputs.len() == 0 {
        (s, Seq::empty(), Seq::empty())
    } else {
        let first = session_step(s, inputs[0]);
        let rest = session_run(first.0, inputs.drop_first());
        (rest.0, first.1.lines + rest.1, first.1.events + rest.2)
    }
}

/// Whether event `e`, reported on an input that arrived in state `s`, is
/// owed: a report or a result carries the search then running and not
/// canceled; the engine is announced when it answers `isready`.
pub open spec fn owed_event(s: SessionView, e: EventView) -> bool {
    match e {
        EventView::Info { id, purpose, .. } => s.active matches Some((r, false)) && r.id == id && r.purpose
            == purpose,
        EventView::BestMove { id, purpose, .. } => s.active matches Some((r, false)) && r.id == id
            && r.purpose == purpose,
        EventView::Ready { .. } => s.phase == SessionPhase::AwaitReadyOk,
        EventView::Error(_) => false,
    }
}

/// Whether every event of the conversation over `inputs` from `s` is owed
/// by the state in which its input arrived.
pub open spec fn events_owed(s: SessionView, inputs: Seq<SessionInput>) -> bool
    decreases inputs.len(),
{
    if inputs.len() == 0 {
        true
    } else {
        let first = session_step(s, inputs[0]);
        &&& forall|k: int| 0 <= k < first.1.events.len() ==> owed_event(s, #[trigger] first.1.events[k])
        &&& events_owed(first.0, inputs.drop_first())
    }
}

/// Whether an input is a `bestmove` line.
pub open spec fn is_best_move_line(input: SessionInput) -> bool {
    input matches SessionInput::Line(line) && line.len() >= 8 && line.take(8) == "bestmove"@
}

/// In every conversation, whatever the engine writes and the application
/// asks, each report and each result carries the id and purpose of the
/// search running, and not canceled, when its line arrived.
pub proof fn lemma_events_carry_the_active_search(s: SessionView, inputs: Seq<SessionInput>)
    ensures
        events_owed(s, inputs),
    decreases inputs.len(),
{
    if inputs.len() > 0 {
        let first = session_step(s, inputs[0]);
        lemma_events_carry_the_active_search(first.0, inputs.drop_first());
    }
}

/// A finished conversation writes and reports nothing more.
pub proof fn lemma_finished_is_silent(s: SessionView, inputs: Seq<SessionInput>)
    requires
        s.phase == SessionPhase::Finished,
    ensures
        session_run(s, inputs) == (s, Seq::<Seq<char>>::empty(), Seq::<EventView>::empty()),
    decreases inputs.len(),
{
    if inputs.len() > 0 {
        lemma_finished_is_silent(s, inputs.drop_first());
        assert(Seq::<Seq<char>>::empty() + Seq::<Seq<char>>::empty() =~= Seq::<Seq<char>>::empty());
        assert(Seq::<EventView>::empty() + Seq::<EventView>::empty() =~= Seq::<EventView>::empty());
    }
}

/// Once the running search is canceled (by `stop` or by a newer search),
/// nothing more is reported until the engine has answered with `bestmove`,
/// that answer included, whatever else arrives in between.
pub proof fn lemma_canceled_search_stays_silent(s: SessionView, a: RequestView, inputs: Seq<SessionInput>)
    requires
        s.phase == SessionPhase::Running,
        s.active == Some((a, true)),
        forall|i: int| 0 <= i < inputs.len() - 1 ==> !is_best_move_line(#[trigger] inputs[i]),
    ensures
        session_run(s, inputs).2 == Seq::<EventView>::empty(),
    decreases inputs.len(),
{
    reveal_strlit("info ");
    reveal_strlit("bestmove");
    if inputs.len() > 0 {
        let first = session_step(s, inputs[0]);
        assert(first.1.events =~= Seq::<EventView>::empty());
        if inputs.len() > 1 {
            assert(!is_best_move_line(inputs[0]));
            let rest = inputs.drop_first();
            assert forall|i: int| 0 <= i < rest.len() - 1 implies !is_best_move_line(#[trigger] rest[i]) by {
                assert(rest[i] == inputs[i + 1]);
            }
            if first.0.phase == SessionPhase::Finished {
                lemma_finished_is_silent(first.0, rest);
            } else {
                match inputs[0] {
                    SessionInput::Line(line) => {
                        if !(line.len() >= 5 && line.take(5) == "info "@) {
                            assert(!(line.len() >= 8 && line.take(8) == "bestmove"@));
                        }
                    },
                    SessionInput::Command(_) => {},
                }
                lemma_canceled_search_stays_silent(first.0, a, rest);
            }
        }
        assert(Seq::<EventView>::empty() + session_run(first.0, inputs.drop_first()).2 =~= session_run(
            first.0,
            inputs.drop_first(),
        ).2);
    }
}

/// While a search runs, no search is started: until the engine answers
/// with `bestmove`, the only lines written are `stop` and `quit`, whatever
/// the application asks (a newer search waits for that answer).
pub proof fn lemma_no_search_starts_before_bestmove(s: SessionView, inputs: Seq<SessionInput>)
    requires
        s.phase == SessionPhase::Running,
        s.active is Some,
        forall|i: int| 0 <= i < inputs.len() ==> !is_best_move_line(#[trigger] inputs[i]),
    ensures
        forall|k: int|
            0 <= k < session_run(s, inputs).1.len() ==> #[trigger] session_run(s, inputs).1[k] == "stop"@
                || session_run(s, inputs).1[k] == "quit"@,
    decreases inputs.len(),
{
    reveal_strlit("info ");
    reveal_strlit("bestmove");
    if inputs.len() > 0 {
        let first = session_step(s, inputs[0]);
        let rest = inputs.drop_first();
        assert(!is_best_move_line(inputs[0]));
        assert forall|i: int| 0 <= i < rest.len() implies !is_best_move_line(#[trigger] rest[i]) by {
            assert(rest[i] == inputs[i + 1]);
        }
        match inputs[0] {
            SessionInput::Line(line) => {
                if !(line.len() >= 5 && line.take(5) == "info "@) {
                    assert(!(line.len() >= 8 && line.take(8) == "bestmove"@));
                }
            },
            SessionInput::Command(_) => {},
        }
        assert(forall|k: int| 0 <= k < first.1.lines.len() ==> #[trigger] first.1.lines[k] == "stop"@
            || first.1.lines[k] == "quit"@);
        if first.0.phase == SessionPhase::Finished {
            lemma_finished_is_silent(first.0, rest);
            assert(first.1.lines + Seq::<Seq<char>>::empty() =~= first.1.lines);
        } else {
            lemma_no_search_starts_before_bestmove(first.0, rest);
            let tail = session_run(first.0, rest).1;
            assert forall|k: int| 0 <= k < (first.1.lines + tail).len() implies #[trigger] (first.1.lines
                + tail)[k] == "stop"@ || (first.1.lines + tail)[k] == "quit"@ by {
                if k >= first.1.lines.len() {
                    assert((first.1.lines + tail)[k] == tail[k - first.1.lines.len()]);
                }
            }
        }
    }
}


/// A conversation is its first part followed by the rest, from where the
/// first part left it.
pub proof fn lemma_session_run_split(s: SessionView, a: Seq<SessionInput>, b: Seq<SessionInput>)
    ensures
        session_run(s, a + b).0 == session_run(session_run(s, a).0, b).0,
        session_run(s, a + b).1 == session_run(s, a).1 + session_run(session_run(s, a).0, b).1,
        session_run(s, a + b).2 == session_run(s, a).2 + session_run(session_run(s, a).0, b).2,
    decreases a.len(),
{
    if a.len() == 0 {
        assert(a + b =~= b);
        assert(Seq::<Seq<char>>::empty() + session_run(s, b).1 =~= session_run(s, b).1);
        assert(Seq::<EventView>::empty() + session_run(s, b).2 =~= session_run(s, b).2);
    } else {
        let first = session_step(s, a[0]);
        lemma_session_run_split(first.0, a.drop_first(), b);
        assert((a + b)[0] == a[0]);
        assert((a + b).drop_first() =~= a.drop_first() + b);
        let mid = session_run(first.0, a.drop_first());
        let last = session_run(mid.0, b);
        assert(first.1.lines + (mid.1 + last.1) =~= (first.1.lines + mid.1) + last.1);
        assert(first.1.events + (mid.2 + last.2) =~= (first.1.events + mid.2) + last.2);
    }
}

/// Lines other than `bestmove` change nothing while a canceled search is
/// being stopped.
proof fn lemma_lines_while_stopping(s: SessionView, xs: Seq<SessionInput>)
    requires
        s.phase == SessionPhase::Running,
        s.active matches Some((_, true)),
        forall|i: int| 0 <= i < xs.len() ==> (#[trigger] xs[i]) is Line && !is_best_move_line(xs[i]),
    ensures
        session_run(s, xs) == (s, Seq::<Seq<char>>::empty(), Seq::<EventView>::empty()),
    decreases xs.len(),
{
    reveal_strlit("info ");
    reveal_strlit("bestmove");
    if xs.len() > 0 {
        let rest = xs.drop_first();
        assert(xs[0] is Line && !is_best_move_line(xs[0]));
        let line = xs[0]->Line_0;
        if !(line.len() >= 5 && line.take(5) == "info "@) {
            assert(!(line.len() >= 8 && line.take(8) == "bestmove"@));
        }
        assert forall|i: int| 0 <= i < rest.len() implies (#[trigger] rest[i]) is Line && !is_best_move_line(
            rest[i],
        ) by {
            assert(rest[i] == xs[i + 1]);
        }
        lemma_lines_while_stopping(s, rest);
        assert(Seq::<Seq<char>>::empty() + Seq::<Seq<char>>::empty() =~= Seq::<Seq<char>>::empty());
        assert(Seq::<EventView>::empty() + Seq::<EventView>::empty() =~= Seq::<EventView>::empty());
    }
}

/// A search asked for while another runs: `stop` is written at once; the
/// engine's lines up to its `bestmove` bring nothing; that `bestmove` is not
/// reported, and the new search's lines follow it, the new search now
/// running.
pub proof fn lemma_replacing_search_run(
    s: SessionView,
    r: RequestView,
    xs: Seq<SessionInput>,
    best: Seq<char>,
)
    requires
        s.phase == SessionPhase::Running,
        s.active is Some,
        forall|i: int| 0 <= i < xs.len() ==> (#[trigger] xs[i]) is Line && !is_best_move_line(xs[i]),
        best.len() >= 8,
        best.take(8) == "bestmove"@,
    ensures
        session_run(
            s,
            seq![SessionInput::Command(CommandView::Search(r))] + xs + seq![SessionInput::Line(best)],
        ).1 == seq!["stop"@] + search_lines(r),
        session_run(
            s,
            seq![SessionInput::Command(CommandView::Search(r))] + xs + seq![SessionInput::Line(best)],
        ).2 == Seq::<EventView>::empty(),
        session_run(
            s,
            seq![SessionInput::Command(CommandView::Search(r))] + xs + seq![SessionInput::Line(best)],
        ).0.active == Some((r, false)),
{
    let head = seq![SessionInput::Command(CommandView::Search(r))];
    let tail = seq![SessionInput::Line(best)];
    let s1 = command_step(s, CommandView::Search(r)).0;
    assert(session_run(s, head) == (s1, seq!["stop"@], Seq::<EventView>::empty())) by {
        reveal_with_fuel(session_run, 2);
        assert(head.drop_first() =~= Seq::<SessionInput>::empty());
        assert(seq!["stop"@] + Seq::<Seq<char>>::empty() =~= seq!["stop"@]);
        assert(Seq::<EventView>::empty() + Seq::<EventView>::empty() =~= Seq::<EventView>::empty());
    }
    lemma_lines_while_stopping(s1, xs);
    lemma_replacement_waits_for_bestmove(s, r, best);
    let s2 = line_step(s1, best);
    assert(session_run(s1, tail) == (s2.0, s2.1.lines, s2.1.events)) by {
        reveal_with_fuel(session_run, 2);
        assert(tail.drop_first() =~= Seq::<SessionInput>::empty());
        assert(s2.1.lines + Seq::<Seq<char>>::empty() =~= s2.1.lines);
        assert(s2.1.events + Seq::<EventView>::empty() =~= s2.1.events);
    }
    lemma_session_run_split(s, head, xs);
    lemma_session_run_split(s, head + xs, tail);
    assert(seq!["stop"@] + Seq::<Seq<char>>::empty() =~= seq!["stop"@]);
    assert(Seq::<EventView>::empty() + Seq::<EventView>::empty() =~= Seq::<EventView>::empty());
    assert(s2.1.events =~= Seq::<EventView>::empty());
}

} // verus!
