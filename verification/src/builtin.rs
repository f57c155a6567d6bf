//! The decisions of the built-in engine worker: which request to serve, and
//! the events its searches become.
use vstd::prelude::*;

use crate::board::{iccs_text, move_wf, Move};
use crate::text::push_char;
use crate::uci::{
    AiCommand, AiEvent, AnalysisInfo, CommandView, EventView, InfoView, SearchPurpose, SearchRequest,
};

verus! {

/// The number of threads for the built-in engine: what the machine offers,
/// kept within 1 to 4; 1 when unknown.
pub fn builtin_threads(available: Option<usize>) -> (r: u8)
    ensures
        r == match available {
            Some(n) => if n < 1 {
                1
            } else if n > 4 {
                4
            } else {
                n
            },
            None => 1,
        },
{
    match available {
        Some(n) => if n < 1 {
            1
        } else if n > 4 {
            4
        } else {
            n as u8
        },
        None => 1,
    }
}

/// The event that announces the built-in engine.
pub fn builtin_ready() -> (r: AiEvent)
    ensures
        r@ == (EventView::Ready { name: "内置轻量引擎"@, external: false }),
{
    AiEvent::Ready { name: "内置轻量引擎".to_string(), external: false }
}

/// The request to serve among those waiting: the newest (older ones are
/// out of date).
pub fn newest_command(mut commands: Vec<AiCommand>) -> (r: Option<AiCommand>)
    ensures
        commands@.len() == 0 ==> r is None,
        commands@.len() > 0 ==> r is Some && r->0@ == commands@.last()@,
{
    commands.pop()
}

/// The report when a requested position cannot be loaded.
pub fn load_failure(reason: &str) -> (r: AiEvent)
    ensures
        r@ == EventView::Error("无法载入局面："@ + reason@),
{
    let mut s = String::new();
    s.append("无法载入局面：");
    s.append(reason);
    AiEvent::Error(s)
}

/// `s` without its dashes.
pub open spec fn without_dashes(s: Seq<char>) -> Seq<char>
    decreases s.len(),
{
    if s.len() == 0 {
        s
    } else if s.last() == '-' {
        without_dashes(s.drop_last())
    } else {
        without_dashes(s.drop_last()).push(s.last())
    }
}

/// The ICCS text of a move without its dash, such as `h2e2`.
pub fn dashless_iccs(m: Move) -> (r: String)
    requires
        move_wf(m),
    ensures
        r@ == without_dashes(iccs_text(m)),
{
    let text = m.to_iccs();
    let cs = crate::text::chars_of(text.as_str());
    let mut r = String::new();
    let mut i: usize = 0;
    while i < cs.len()
        invariant
            i <= cs@.len(),
            cs@ == iccs_text(m),
            r@ == without_dashes(cs@.take(i as int)),
        decreases cs@.len() - i,
    {
        let c = cs[i];
        proof {
            assert(cs@.take(i + 1).drop_last() == cs@.take(i as int));
            assert(cs@.take(i + 1).last() == c);
            assert(cs@.take(i as int).push(c) == cs@.take(i + 1));
        }
        let ghost before = r@;
        if c != '-' {
            push_char(&mut r, c);
        }
        proof {
            let pre = cs@.take(i as int);
            let next = cs@.take(i + 1);
            assert(next.drop_last() == pre);
        }
        i = i + 1;
    }
    assert(cs@.take(cs@.len() as int) == cs@);
    r
}

/// The moves of a line in dashless ICCS text.
pub open spec fn dashless_line(pv: Seq<Move>) -> Seq<Seq<char>> {
    pv.map_values(|m: Move| without_dashes(iccs_text(m)))
}

/// The report of a built-in search snapshot: depth, score, time, nodes,
/// speed and principal variation, as the main line.
pub fn builtin_info(
    id: u64,
    purpose: SearchPurpose,
    depth: u8,
    score: i32,
    time_ms: u64,
    nodes: u64,
    nps: u64,
    pv: &[Move],
) -> (r: AiEvent)
    requires
        forall|i: int| 0 <= i < pv@.len() ==> move_wf(#[trigger] pv@[i]),
    ensures
        r@ == (EventView::Info {
            id,
            purpose,
            info: InfoView {
                depth: Some(depth as u32),
                seldepth: None,
                multipv: 1,
                score_cp: Some(score),
                mate: None,
                time_ms: Some(time_ms),
                nodes: Some(nodes),
                nps: Some(nps),
                pv: dashless_line(pv@),
            },
        }),
{
    let mut texts: Vec<String> = Vec::new();
    let mut i: usize = 0;
    while i < pv.len()
        invariant
            i <= pv@.len(),
            forall|k: int| 0 <= k < pv@.len() ==> move_wf(#[trigger] pv@[k]),
            texts@.map_values(|s: String| s@) == dashless_line(pv@.take(i as int)),
        decreases pv@.len() - i,
    {
        let t = dashless_iccs(pv[i]);
        let ghost before = texts@;
        let ghost tv = t@;
        texts.push(t);
        assert(texts@.map_values(|s: String| s@) =~= before.map_values(|s: String| s@).push(tv));
        assert(dashless_line(pv@.take(i + 1)) =~= dashless_line(pv@.take(i as int)).push(
            without_dashes(iccs_text(pv@[i as int])),
        ));
        i = i + 1;
    }
    assert(pv@.take(pv@.len() as int) == pv@);
    let info = AnalysisInfo {
        depth: Some(depth as u32),
        seldepth: None,
        multipv: 1,
        score_cp: Some(score),
        mate: None,
        time_ms: Some(time_ms),
        nodes: Some(nodes),
        nps: Some(nps),
        pv: texts,
    };
    AiEvent::Info { id, purpose, info }
}

/// The report at the end of a built-in search: its best move in dashless
/// ICCS text, with no expected reply.
pub fn builtin_best_move(id: u64, purpose: SearchPurpose, best: Option<Move>) -> (r: AiEvent)
    requires
        best is Some ==> move_wf(best->0),
    ensures
        r@ == (EventView::BestMove {
            id,
            purpose,
            best_move: match best {
                Some(m) => Some(without_dashes(iccs_text(m))),
                None => None,
            },
            ponder: None,
        }),
{
    let best_move = match best {
        Some(m) => Some(dashless_iccs(m)),
        None => None,
    };
    AiEvent::BestMove { id, purpose, best_move, ponder: None }
}


// ---------------------------------------------------------------------------
// The worker's run
// ---------------------------------------------------------------------------

/// Where the built-in engine's worker stands.
#[derive(Debug, Clone, Copy, PartialEq, Eq, Structural)]
pub enum WorkerPhase {
    /// Waiting for requests.
    Idle,
    /// The position of the request `id` is being loaded.
    Loading { id: u64, purpose: SearchPurpose },
    /// The search for the request `id` runs.
    Searching { id: u64, purpose: SearchPurpose },
    /// Told to quit: the worker's loop has ended.
    Stopped,
}

/// A snapshot that a running built-in search reports.
pub struct SnapshotView {
    pub depth: u8,
    pub score: i32,
    pub time_ms: u64,
    pub nodes: u64,
    pub nps: u64,
    pub pv: Seq<Move>,
}

/// What happens to the worker.
pub enum WorkerInput {
    /// A batch of waiting requests, oldest first.
    Batch(Seq<CommandView>),
    /// The requested position was loaded (`None`), or refused for the
    /// reason given.
    Loaded(Option<Seq<char>>),
    /// The search reports a snapshot.
    Progress(SnapshotView),
    /// The search ends with its best move.
    Finished(Option<Move>),
}

/// The report of a snapshot of the search for request `id`.
pub open spec fn progress_event(id: u64, purpose: SearchPurpose, s: SnapshotView) -> EventView {
    EventView::Info {
        id,
        purpose,
        info: InfoView {
            depth: Some(s.depth as u32),
            seldepth: None,
            multipv: 1,
            score_cp: Some(s.score),
            mate: None,
            time_ms: Some(s.time_ms),
            nodes: Some(s.nodes),
            nps: Some(s.nps),
            pv: dashless_line(s.pv),
        },
    }
}

/// The report that ends the search for request `id`.
pub open spec fn finish_event(id: u64, purpose: SearchPurpose, best: Option<Move>) -> EventView {
    EventView::BestMove {
        id,
        purpose,
        best_move: match best {
            Some(m) => Some(without_dashes(iccs_text(m))),
            None => None,
        },
        ponder: None,
    }
}

/// One step of the worker: its next phase and the events it sends. Of a
/// batch only the newest request counts; a search request has its position
/// loaded, a refused position is reported and the request dropped; a
/// running search reports each snapshot and ends with its best move.
/// Whatever else happens in a phase changes nothing and sends nothing.
pub open spec fn worker_step(phase: WorkerPhase, input: WorkerInput) -> (WorkerPhase, Seq<EventView>) {
    match phase {
        WorkerPhase::Idle => match input {
            WorkerInput::Batch(cmds) => if cmds.len() == 0 {
                (phase, Seq::empty())
            } else {
                match cmds.last() {
                    CommandView::Quit => (WorkerPhase::Stopped, Seq::empty()),
                    CommandView::Stop => (WorkerPhase::Idle, Seq::empty()),
                    CommandView::Search(r) => (
                        WorkerPhase::Loading { id: r.id, purpose: r.purpose },
                        Seq::empty(),
                    ),
                }
            },
            _ => (phase, Seq::empty()),
        },
        WorkerPhase::Loading { id, purpose } => match input {
            WorkerInput::Loaded(Some(reason)) => (
                WorkerPhase::Idle,
                seq![EventView::Error("无法载入局面："@ + reason)],
            ),
            WorkerInput::Loaded(None) => (WorkerPhase::Searching { id, purpose }, Seq::empty()),
            _ => (phase, Seq::empty()),
        },
        WorkerPhase::Searching { id, purpose } => match input {
            WorkerInput::Progress(s) => (phase, seq![progress_event(id, purpose, s)]),
            WorkerInput::Finished(best) => (WorkerPhase::Idle, seq![finish_event(id, purpose, best)]),
            _ => (phase, Seq::empty()),
        },
        WorkerPhase::Stopped => (phase, Seq::empty()),
    }
}

/// The worker's phase after `inputs`, from `phase`, and every event it sends
/// on the way, in order.
pub open spec fn worker_run(phase: WorkerPhase, inputs: Seq<WorkerInput>) -> (WorkerPhase, Seq<EventView>)
    decreases inputs.len(),
{
    if inputs.len() == 0 {
        (phase, Seq::empty())
    } else {
        let first = worker_step(phase, inputs[0]);
        let rest = worker_run(first.0, inputs.drop_first());
        (rest.0, first.1 + rest.1)
    }
}

/// A run is its first part followed by the rest, from where the first part
/// left the worker.
pub proof fn lemma_worker_run_split(phase: WorkerPhase, a: Seq<WorkerInput>, b: Seq<WorkerInput>)
    ensures
        worker_run(phase, a + b).0 == worker_run(worker_run(phase, a).0, b).0,
        worker_run(phase, a + b).1 == worker_run(phase, a).1 + worker_run(worker_run(phase, a).0, b).1,
    decreases a.len(),
{
    if a.len() == 0 {
        assert(a + b =~= b);
        assert(Seq::<EventView>::empty() + worker_run(phase, b).1 =~= worker_run(phase, b).1);
    } else {
        let first = worker_step(phase, a[0]);
        lemma_worker_run_split(first.0, a.drop_first(), b);
        assert((a + b)[0] == a[0]);
        assert((a + b).drop_first() =~= a.drop_first() + b);
        let e1 = first.1;
        let e2 = worker_run(first.0, a.drop_first()).1;
        let e3 = worker_run(worker_run(first.0, a.drop_first()).0, b).1;
        assert(e1 + (e2 + e3) =~= (e1 + e2) + e3);
    }
}

/// Once told to quit, the worker sends nothing more, whatever comes.
pub proof fn lemma_worker_quits_for_good(inputs: Seq<WorkerInput>)
    ensures
        worker_run(WorkerPhase::Stopped, inputs) == (WorkerPhase::Stopped, Seq::<EventView>::empty()),
    decreases inputs.len(),
{
    if inputs.len() > 0 {
        lemma_worker_quits_for_good(inputs.drop_first());
        assert(Seq::<EventView>::empty() + Seq::<EventView>::empty() =~= Seq::<EventView>::empty());
    }
}

/// Of a batch only the newest request counts: batches that end with the
/// same request do the same; one that ends with `Stop` does nothing, and
/// one that ends with `Quit` stops the worker, silently.
pub proof fn lemma_worker_serves_newest(a: Seq<CommandView>, b: Seq<CommandView>)
    requires
        a.len() > 0,
        b.len() > 0,
        a.last() == b.last(),
    ensures
        worker_step(WorkerPhase::Idle, WorkerInput::Batch(a)) == worker_step(
            WorkerPhase::Idle,
            WorkerInput::Batch(b),
        ),
        a.last() == CommandView::Stop ==> worker_step(WorkerPhase::Idle, WorkerInput::Batch(a)) == (
        WorkerPhase::Idle, Seq::<EventView>::empty()),
        a.last() == CommandView::Quit ==> worker_step(WorkerPhase::Idle, WorkerInput::Batch(a)) == (
        WorkerPhase::Stopped, Seq::<EventView>::empty()),
{
}

/// The progress reports and the final report of a search, as inputs.
pub open spec fn search_inputs(snapshots: Seq<SnapshotView>, best: Option<Move>) -> Seq<WorkerInput> {
    snapshots.map_values(|s: SnapshotView| WorkerInput::Progress(s)).push(WorkerInput::Finished(best))
}

/// The events of a search for request `id`: a report for each snapshot,
/// then the best move.
pub open spec fn search_events(
    id: u64,
    purpose: SearchPurpose,
    snapshots: Seq<SnapshotView>,
    best: Option<Move>,
) -> Seq<EventView> {
    snapshots.map_values(|s: SnapshotView| progress_event(id, purpose, s)).push(
        finish_event(id, purpose, best),
    )
}

proof fn lemma_searching_run(id: u64, purpose: SearchPurpose, snapshots: Seq<SnapshotView>, best: Option<Move>)
    ensures
        worker_run(WorkerPhase::Searching { id, purpose }, search_inputs(snapshots, best)) == (
        WorkerPhase::Idle, search_events(id, purpose, snapshots, best)),
    decreases snapshots.len(),
{
    let inputs = search_inputs(snapshots, best);
    let phase = WorkerPhase::Searching { id, purpose };
    reveal_with_fuel(worker_run, 2);
    if snapshots.len() == 0 {
        assert(inputs =~= seq![WorkerInput::Finished(best)]);
        assert(inputs.drop_first() =~= Seq::<WorkerInput>::empty());
        assert(search_events(id, purpose, snapshots, best) =~= seq![finish_event(id, purpose, best)]);
        assert(seq![finish_event(id, purpose, best)] + Seq::<EventView>::empty() =~= seq![
            finish_event(id, purpose, best),
        ]);
    } else {
        lemma_searching_run(id, purpose, snapshots.drop_first(), best);
        assert(inputs[0] == WorkerInput::Progress(snapshots[0]));
        assert(inputs.drop_first() =~= search_inputs(snapshots.drop_first(), best));
        assert(search_events(id, purpose, snapshots, best) =~= seq![progress_event(id, purpose, snapshots[0])]
            + search_events(id, purpose, snapshots.drop_first(), best));
        assert(worker_step(phase, inputs[0]) == (phase, seq![progress_event(id, purpose, snapshots[0])]));
    }
}

/// A batch whose newest request is a search for request `r`: when its
/// position loads, the worker sends a report for each snapshot of the
/// search, all with `r`'s id and purpose, then exactly one best move with no
/// expected reply, and waits again; when the position is refused, it sends
/// only the refusal, and waits again.
pub proof fn lemma_worker_search_run(
    cmds: Seq<CommandView>,
    snapshots: Seq<SnapshotView>,
    best: Option<Move>,
    reason: Seq<char>,
)
    requires
        cmds.len() > 0,
        cmds.last() is Search,
    ensures
        worker_run(
            WorkerPhase::Idle,
            seq![WorkerInput::Batch(cmds), WorkerInput::Loaded(None)] + search_inputs(snapshots, best),
        ) == (WorkerPhase::Idle, search_events(
            cmds.last()->Search_0.id,
            cmds.last()->Search_0.purpose,
            snapshots,
            best,
        )),
        worker_run(
            WorkerPhase::Idle,
            seq![WorkerInput::Batch(cmds), WorkerInput::Loaded(Some(reason))],
        ) == (WorkerPhase::Idle, seq![EventView::Error("无法载入局面："@ + reason)]),
{
    let r = cmds.last()->Search_0;
    let head = seq![WorkerInput::Batch(cmds), WorkerInput::Loaded(None)];
    let tail = search_inputs(snapshots, best);
    reveal_with_fuel(worker_run, 3);
    assert(head.drop_first() =~= seq![WorkerInput::Loaded(None)]);
    assert(head.drop_first().drop_first() =~= Seq::<WorkerInput>::empty());
    assert(worker_run(WorkerPhase::Idle, head) == (
        WorkerPhase::Searching { id: r.id, purpose: r.purpose },
        Seq::<EventView>::empty(),
    )) by {
        assert(Seq::<EventView>::empty() + Seq::<EventView>::empty() =~= Seq::<EventView>::empty());
    }
    lemma_worker_run_split(WorkerPhase::Idle, head, tail);
    lemma_searching_run(r.id, r.purpose, snapshots, best);
    assert(Seq::<EventView>::empty() + search_events(r.id, r.purpose, snapshots, best) =~= search_events(
        r.id,
        r.purpose,
        snapshots,
        best,
    ));
    let refused = seq![WorkerInput::Batch(cmds), WorkerInput::Loaded(Some(reason))];
    assert(refused.drop_first() =~= seq![WorkerInput::Loaded(Some(reason))]);
    assert(refused.drop_first().drop_first() =~= Seq::<WorkerInput>::empty());
    assert(Seq::<EventView>::empty() + (seq![EventView::Error("无法载入局面："@ + reason)]
        + Seq::<EventView>::empty()) =~= seq![EventView::Error("无法载入局面："@ + reason)]);
}

/// The request a worker in `phase` works on, by id and purpose.
pub open spec fn phase_request(phase: WorkerPhase) -> Option<(u64, SearchPurpose)> {
    match phase {
        WorkerPhase::Loading { id, purpose } => Some((id, purpose)),
        WorkerPhase::Searching { id, purpose } => Some((id, purpose)),
        _ => None,
    }
}

/// Whether the search `id` with `purpose` was asked for: it is the newest
/// request of one of the batches among `inputs`.
pub open spec fn asked_for(inputs: Seq<WorkerInput>, request: (u64, SearchPurpose)) -> bool {
    exists|i: int| 0 <= i < inputs.len() && batch_asks(#[trigger] inputs[i], request)
}

/// Whether `input` is a batch whose newest request is the search `request`.
pub open spec fn batch_asks(input: WorkerInput, request: (u64, SearchPurpose)) -> bool {
    match input {
        WorkerInput::Batch(cmds) => cmds.len() > 0 && match cmds.last() {
            CommandView::Search(r) => (r.id, r.purpose) == request,
            _ => false,
        },
        _ => false,
    }
}

/// The id and purpose an event reports on, for reports and results.
pub open spec fn event_request(e: EventView) -> Option<(u64, SearchPurpose)> {
    match e {
        EventView::Info { id, purpose, .. } => Some((id, purpose)),
        EventView::BestMove { id, purpose, .. } => Some((id, purpose)),
        _ => None,
    }
}

/// Over any inputs, every report and result the worker sends is for the
/// request it was working on, or for one asked for by the newest request of
/// a batch among the inputs.
pub proof fn lemma_worker_reports_requested_searches(phase: WorkerPhase, inputs: Seq<WorkerInput>)
    ensures
        forall|k: int|
            0 <= k < worker_run(phase, inputs).1.len() && event_request(#[trigger] worker_run(phase, inputs).1[k]) is Some
                ==> event_request(worker_run(phase, inputs).1[k]) == phase_request(phase) || asked_for(
                inputs,
                event_request(worker_run(phase, inputs).1[k])->0,
            ),
    decreases inputs.len(),
{
    if inputs.len() > 0 {
        let first = worker_step(phase, inputs[0]);
        let rest = inputs.drop_first();
        lemma_worker_reports_requested_searches(first.0, rest);
        let tail = worker_run(first.0, rest).1;
        let all = worker_run(phase, inputs).1;
        assert(all == first.1 + tail);
        assert forall|k: int|
            0 <= k < all.len() && event_request(#[trigger] all[k]) is Some implies event_request(all[k])
                == phase_request(phase) || asked_for(inputs, event_request(all[k])->0) by {
            if k < first.1.len() {
                assert(all[k] == first.1[k]);
            } else {
                let e = tail[k - first.1.len()];
                assert(all[k] == e);
                let (id, purpose) = event_request(e)->0;
                if asked_for(rest, (id, purpose)) {
                    let i = choose|i: int| 0 <= i < rest.len() && batch_asks(#[trigger] rest[i], (id, purpose));
                    assert(inputs[i + 1] == rest[i]);
                } else {
                    assert(event_request(e) == phase_request(first.0));
                    if phase_request(first.0) != phase_request(phase) {
                        assert(batch_asks(inputs[0], (id, purpose)));
                    }
                }
            }
        }
    }
}

/// The worker's events in order, read by what may come next: `open` is the
/// search whose reports have begun and whose result has not yet come.
/// Between searches a refusal may come, or a report that begins a search;
/// within a search only its own reports, and its result, with no expected
/// reply, which ends it. The announcement never comes again.
pub open spec fn event_follows(open: Option<(u64, SearchPurpose)>, e: EventView) -> Option<
    Option<(u64, SearchPurpose)>,
> {
    match e {
        EventView::Error(_) => if open is None {
            Some(None)
        } else {
            None
        },
        EventView::Info { id, purpose, .. } => if open is None || open == Some((id, purpose)) {
            Some(Some((id, purpose)))
        } else {
            None
        },
        EventView::BestMove { id, purpose, ponder, .. } => if ponder is None && (open is None || open
            == Some((id, purpose))) {
            Some(None)
        } else {
            None
        },
        EventView::Ready { .. } => None,
    }
}

/// Whether `events` may follow one another from `open` on (see
/// [`event_follows`]).
pub open spec fn events_in_order(open: Option<(u64, SearchPurpose)>, events: Seq<EventView>) -> bool
    decreases events.len(),
{
    if events.len() == 0 {
        true
    } else {
        match event_follows(open, events[0]) {
            Some(next) => events_in_order(next, events.drop_first()),
            None => false,
        }
    }
}

/// How far a worker in `phase` may have come in the stream of events.
pub open spec fn open_fits(phase: WorkerPhase, open: Option<(u64, SearchPurpose)>) -> bool {
    match phase {
        WorkerPhase::Searching { id, purpose } => open is None || open == Some((id, purpose)),
        _ => open is None,
    }
}

proof fn lemma_worker_events_in_order_from(phase: WorkerPhase, open: Option<(u64, SearchPurpose)>, inputs: Seq<WorkerInput>)
    requires
        open_fits(phase, open),
    ensures
        events_in_order(open, worker_run(phase, inputs).1),
    decreases inputs.len(),
{
    if inputs.len() > 0 {
        let first = worker_step(phase, inputs[0]);
        let rest = inputs.drop_first();
        let tail = worker_run(first.0, rest).1;
        if first.1.len() == 0 {
            lemma_worker_events_in_order_from(first.0, open, rest);
            assert(first.1 + tail =~= tail);
        } else {
            assert(first.1.len() == 1);
            let next = event_follows(open, first.1[0])->0;
            assert(event_follows(open, first.1[0]) is Some);
            lemma_worker_events_in_order_from(first.0, next, rest);
            assert((first.1 + tail)[0] == first.1[0]);
            assert((first.1 + tail).drop_first() =~= tail);
        }
    }
}

/// Over any inputs from a waiting worker, its events come in order: each
/// search reports with its own id and purpose and then sends exactly one
/// result, with no expected reply, before anything of another search; a
/// refused position is reported alone, between searches; and the worker is
/// never announced again.
pub proof fn lemma_worker_events_in_order(inputs: Seq<WorkerInput>)
    ensures
        events_in_order(None, worker_run(WorkerPhase::Idle, inputs).1),
{
    lemma_worker_events_in_order_from(WorkerPhase::Idle, None, inputs);
}

/// How many results (`BestMove` events) `events` hold.
pub open spec fn results_in(events: Seq<EventView>) -> nat
    decreases events.len(),
{
    if events.len() == 0 {
        0
    } else {
        (if events[0] is BestMove {
            1nat
        } else {
            0
        }) + results_in(events.drop_first())
    }
}

/// How many searches begin over `inputs` from `phase`: a position that
/// loads starts its search.
pub open spec fn searches_begun(phase: WorkerPhase, inputs: Seq<WorkerInput>) -> nat
    decreases inputs.len(),
{
    if inputs.len() == 0 {
        0
    } else {
        let next = worker_step(phase, inputs[0]).0;
        (if next is Searching && !(phase is Searching) {
            1nat
        } else {
            0
        }) + searches_begun(next, inputs.drop_first())
    }
}

/// Over any inputs, each search sends exactly one result: the results sent
/// are the searches that began, plus the one running at the start, less the
/// one still running at the end.
pub proof fn lemma_worker_one_result_per_search(phase: WorkerPhase, inputs: Seq<WorkerInput>)
    ensures
        results_in(worker_run(phase, inputs).1) + (if worker_run(phase, inputs).0 is Searching {
            1int
        } else {
            0
        }) == searches_begun(phase, inputs) + (if phase is Searching {
            1int
        } else {
            0
        }),
    decreases inputs.len(),
{
    if inputs.len() > 0 {
        let first = worker_step(phase, inputs[0]);
        let rest = inputs.drop_first();
        let tail = worker_run(first.0, rest).1;
        lemma_worker_one_result_per_search(first.0, rest);
        if first.1.len() == 0 {
            assert(first.1 + tail =~= tail);
        } else {
            assert((first.1 + tail)[0] == first.1[0]);
            assert((first.1 + tail).drop_first() =~= tail);
        }
    }
}

/// What the worker does with a batch of requests.
pub enum WorkerAction {
    /// End the loop.
    Quit,
    /// Nothing to do: wait for more requests.
    Wait,
    /// Load the request's position and search it.
    Search(SearchRequest),
}

/// The built-in engine's worker: the decisions of its loop, which the caller
/// runs, performing the loads and searches and sending the events.
pub struct BuiltinWorker {
    pub phase: WorkerPhase,
}

impl BuiltinWorker {
    /// A worker waiting for requests, and the event that announces it.
    pub fn start() -> (r: (BuiltinWorker, AiEvent))
        ensures
            r.0.phase == WorkerPhase::Idle,
            r.1@ == (EventView::Ready { name: "内置轻量引擎"@, external: false }),
    {
        (BuiltinWorker { phase: WorkerPhase::Idle }, builtin_ready())
    }

    /// Takes a batch of waiting requests, oldest first: only the newest
    /// counts.
    pub fn take_batch(&mut self, batch: Vec<AiCommand>) -> (r: WorkerAction)
        ensures
            worker_step(
                old(self).phase,
                WorkerInput::Batch(batch@.map_values(|c: AiCommand| c@)),
            ) == (final(self).phase, Seq::<EventView>::empty()),
            old(self).phase != WorkerPhase::Idle || batch@.len() == 0 ==> r is Wait,
            old(self).phase == WorkerPhase::Idle && batch@.len() > 0 ==> match batch@.last()@ {
                CommandView::Quit => r is Quit,
                CommandView::Stop => r is Wait,
                CommandView::Search(q) => r matches WorkerAction::Search(req) && req@ == q,
            },
    {
        let ghost views = batch@.map_values(|c: AiCommand| c@);
        let ghost n = batch@.len();
        if self.phase != WorkerPhase::Idle {
            return WorkerAction::Wait;
        }
        match newest_command(batch) {
            None => WorkerAction::Wait,
            Some(AiCommand::Quit) => {
                assert(views.last() == views[n - 1]);
                self.phase = WorkerPhase::Stopped;
                WorkerAction::Quit
            },
            Some(AiCommand::Stop) => {
                assert(views.last() == views[n - 1]);
                WorkerAction::Wait
            },
            Some(AiCommand::Search(request)) => {
                assert(views.last() == views[n - 1]);
                self.phase = WorkerPhase::Loading { id: request.id, purpose: request.purpose };
                WorkerAction::Search(request)
            },
        }
    }

    /// The position has been loaded (`None`) or refused for `reason`: the
    /// refusal to send, if any.
    pub fn loaded(&mut self, refusal: Option<String>) -> (r: Option<AiEvent>)
        ensures
            worker_step(
                old(self).phase,
                WorkerInput::Loaded(
                    match refusal {
                        Some(s) => Some(s@),
                        None => None,
                    },
                ),
            ) == (final(self).phase, match r {
                Some(e) => seq![e@],
                None => Seq::<EventView>::empty(),
            }),
    {
        match self.phase {
            WorkerPhase::Loading { id, purpose } => match refusal {
                Some(reason) => {
                    self.phase = WorkerPhase::Idle;
                    Some(load_failure(reason.as_str()))
                },
                None => {
                    self.phase = WorkerPhase::Searching { id, purpose };
                    None
                },
            },
            _ => None,
        }
    }

    /// The report of a snapshot of the running search.
    pub fn progress(
        &self,
        depth: u8,
        score: i32,
        time_ms: u64,
        nodes: u64,
        nps: u64,
        pv: &[Move],
    ) -> (r: Option<AiEvent>)
        requires
            forall|i: int| 0 <= i < pv@.len() ==> move_wf(#[trigger] pv@[i]),
        ensures
            worker_step(
                self.phase,
                WorkerInput::Progress(SnapshotView { depth, score, time_ms, nodes, nps, pv: pv@ }),
            ) == (self.phase, match r {
                Some(e) => seq![e@],
                None => Seq::<EventView>::empty(),
            }),
    {
        match self.phase {
            WorkerPhase::Searching { id, purpose } => Some(
                builtin_info(id, purpose, depth, score, time_ms, nodes, nps, pv),
            ),
            _ => None,
        }
    }

    /// The report that ends the running search, with its best move.
    pub fn finished(&mut self, best: Option<Move>) -> (r: Option<AiEvent>)
        requires
            best is Some ==> move_wf(best->0),
        ensures
            worker_step(old(self).phase, WorkerInput::Finished(best)) == (final(self).phase, match r {
                Some(e) => seq![e@],
                None => Seq::<EventView>::empty(),
            }),
    {
        match self.phase {
            WorkerPhase::Searching { id, purpose } => {
                self.phase = WorkerPhase::Idle;
                Some(builtin_best_move(id, purpose, best))
            },
            _ => None,
        }
    }
}

} // verus!
