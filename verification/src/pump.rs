//! What the session's read pump makes of each event once the launch is
//! over. The pump owns the adapter's read half and does nothing else with
//! it; what an event means for the session is decided here, and carried out
//! by the caller.
use vstd::prelude::*;

use crate::adapter::{codelldb_stop, normalise_stop, taken_as_said, StopContext};
use crate::breakpoint::{AdapterBreakpoint, Breakpoint, BreakpointId};
use crate::handshake::{
    applied_breakpoints, chunk_of, exit_code, exit_code_of, output_chunk, process_view, started,
    started_process, stop_description, stop_reason_text, AdapterEvent, AdapterResponse,
    EventBody, StartedProcess,
};
use crate::inspect::{ThreadUpdate, ThreadUpdateKind};
use crate::session::{AdapterKind, EndReason, OutputChunk, PauseReason, SessionState};
use crate::text;
use crate::translate::DapBreakpoint;

verus! {

/// A step still in flight: its marker, and the thread it was aimed at.
#[derive(Debug, Clone, Copy, PartialEq, Eq, Structural)]
pub struct OutstandingStep {
    pub id: u64,
    pub thread_id: i64,
}

/// The requests whose stops have not arrived yet.
#[derive(Debug, Clone, Copy, PartialEq, Eq, Structural)]
pub struct Outstanding {
    pub pause: Option<u64>,
    pub step: Option<OutstandingStep>,
}

/// Whether a session ended without a client taking it down. Only that case
/// is the pump's to wind down: a `disconnect` from a client is already
/// sending its own.
pub fn ended_by_itself(state: SessionState, client_teardown_started: bool) -> (r: bool)
    ensures
        r == (!crate::session::live(state) && !client_teardown_started),
{
    !state.is_live() && !client_teardown_started
}

/// Which thread a stop is about, and which one the adapter said. A step is
/// reported against the thread it was aimed at, with the adapter's answer
/// kept beside it, but only when a step is outstanding, the stop is a step,
/// and the two disagree; any other stop passes through as said.
pub open spec fn stop_threads(reason: PauseReason, step: Option<OutstandingStep>, said: Option<i64>) -> (
    Option<i64>,
    Option<i64>,
) {
    match step {
        None => (said, None),
        Some(s) => if reason != PauseReason::Step || said == Some(s.thread_id) {
            (said, None)
        } else {
            (Some(s.thread_id), said)
        },
    }
}

pub fn stopped_thread_ids(reason: &PauseReason, step: Option<OutstandingStep>, said: Option<i64>) -> (r:
    (Option<i64>, Option<i64>))
    ensures
        r == stop_threads(*reason, step, said),
{
    let s = match step {
        None => return (said, None),
        Some(s) => s,
    };
    let is_step = match reason {
        PauseReason::Step => true,
        _ => false,
    };
    if !is_step || said == Some(s.thread_id) {
        return (said, None);
    }
    (Some(s.thread_id), said)
}

/// The marker a stop answers, and only that one: a stop reported as
/// `pause` is the pause's; any other stop ends the run a step started.
pub open spec fn answered_marker(reason: PauseReason, outstanding: Outstanding) -> Option<u64> {
    if reason == PauseReason::Pause {
        outstanding.pause
    } else {
        match outstanding.step {
            Some(s) => Some(s.id),
            None => None,
        }
    }
}

pub fn answered(reason: &PauseReason, outstanding: Outstanding) -> (r: Option<u64>)
    ensures
        r == answered_marker(*reason, outstanding),
{
    match reason {
        PauseReason::Pause => outstanding.pause,
        _ => match outstanding.step {
            Some(s) => Some(s.id),
            None => None,
        },
    }
}

/// The markers a session keeps for requests whose stops have not arrived:
/// one slot for a pause and one for a step, since a pause takes no
/// execution permit and can be in flight beside the step it interrupts.
/// Each marker is a fresh number, so taking one down cannot take down a
/// newer one that happens to sit in the other slot.
#[derive(Debug, Clone, Copy, PartialEq, Eq, Structural)]
pub struct Markers {
    /// The number the next marker gets; every marker handed out is below it.
    pub next: u64,
    pub outstanding: Outstanding,
}

/// Every outstanding marker was handed out before `next`, and the two slots
/// never hold the same number.
pub open spec fn markers_wf(m: Markers) -> bool {
    &&& (m.outstanding.pause matches Some(p) ==> p < m.next)
    &&& (m.outstanding.step matches Some(s) ==> s.id < m.next)
    &&& (m.outstanding.pause matches Some(p) ==> (m.outstanding.step matches Some(s) ==> p
        != s.id))
}

/// The slots after taking down the marker `id`, and only it.
pub open spec fn without(o: Outstanding, id: u64) -> Outstanding {
    Outstanding {
        pause: if o.pause == Some(id) {
            None
        } else {
            o.pause
        },
        step: match o.step {
            Some(s) => if s.id == id {
                None
            } else {
                o.step
            },
            None => None,
        },
    }
}

/// The markers after a step of `thread_id` is expected: its marker, the
/// number `next`, replaces any step still recorded; a pause is left alone.
pub open spec fn stepped(m: Markers, thread_id: i64) -> Markers {
    Markers {
        next: (m.next + 1) as u64,
        outstanding: Outstanding {
            pause: m.outstanding.pause,
            step: Some(OutstandingStep { id: m.next, thread_id }),
        },
    }
}

/// The markers after a pause is expected: its marker, the number `next`,
/// replaces any pause still recorded; a step is left alone.
pub open spec fn paused(m: Markers) -> Markers {
    Markers {
        next: (m.next + 1) as u64,
        outstanding: Outstanding { pause: Some(m.next), step: m.outstanding.step },
    }
}

/// The markers after the program resumes: nothing is outstanding.
pub open spec fn resumed(m: Markers) -> Markers {
    Markers { next: m.next, outstanding: Outstanding { pause: None, step: None } }
}

/// The markers after the marker `id` is taken down.
pub open spec fn withdrawn(m: Markers, id: u64) -> Markers {
    Markers { next: m.next, outstanding: without(m.outstanding, id) }
}

/// The markers after a stop for `reason` arrives: the marker it answered,
/// if any, is taken down.
pub open spec fn settled(m: Markers, reason: PauseReason) -> Markers {
    match answered_marker(reason, m.outstanding) {
        Some(id) => withdrawn(m, id),
        None => m,
    }
}

impl Markers {
    pub fn new() -> (r: Markers)
        ensures
            markers_wf(r),
            r.next == 1,
            r.outstanding == (Outstanding { pause: None, step: None }),
    {
        Markers { next: 1, outstanding: Outstanding { pause: None, step: None } }
    }

    /// A step of `thread_id` is about to be sent.
    pub fn expect_step(&mut self, thread_id: i64) -> (id: u64)
        requires
            markers_wf(*old(self)),
            old(self).next < u64::MAX,
        ensures
            markers_wf(*final(self)),
            id == old(self).next,
            *final(self) == stepped(*old(self), thread_id),
    {
        let id = self.next;
        self.next = self.next + 1;
        self.outstanding = Outstanding {
            pause: self.outstanding.pause,
            step: Some(OutstandingStep { id, thread_id }),
        };
        id
    }

    /// A pause is about to be sent.
    pub fn expect_pause(&mut self) -> (id: u64)
        requires
            markers_wf(*old(self)),
            old(self).next < u64::MAX,
        ensures
            markers_wf(*final(self)),
            id == old(self).next,
            *final(self) == paused(*old(self)),
    {
        let id = self.next;
        self.next = self.next + 1;
        self.outstanding = Outstanding { pause: Some(id), step: self.outstanding.step };
        id
    }

    /// The program is resuming: a step still recorded has finished and a
    /// pause that never landed is stale, so both are forgotten.
    pub fn expect_nothing(&mut self)
        requires
            markers_wf(*old(self)),
        ensures
            markers_wf(*final(self)),
            *final(self) == resumed(*old(self)),
    {
        self.outstanding = Outstanding { pause: None, step: None };
    }

    /// Takes down the marker `id`, wherever it is, and nothing else: a
    /// refused request's marker comes down without erasing one that arrived
    /// meanwhile.
    pub fn withdraw(&mut self, id: u64)
        requires
            markers_wf(*old(self)),
        ensures
            markers_wf(*final(self)),
            *final(self) == withdrawn(*old(self), id),
    {
        let pause = if self.outstanding.pause == Some(id) {
            None
        } else {
            self.outstanding.pause
        };
        let step = match self.outstanding.step {
            Some(s) => if s.id == id {
                None
            } else {
                Some(s)
            },
            None => None,
        };
        self.outstanding = Outstanding { pause, step };
    }

    /// Takes down the marker a stop answered, and only that one.
    pub fn settle(&mut self, reason: &PauseReason)
        requires
            markers_wf(*old(self)),
        ensures
            markers_wf(*final(self)),
            *final(self) == settled(*old(self), *reason),
    {
        if let Some(id) = answered(reason, self.outstanding) {
            self.withdraw(id);
        }
    }
}

/// Two requests, two markers: a step and a pause expected back to back get
/// different numbers, and both stay recorded.
pub proof fn law_two_requests_two_markers(m: Markers, thread_id: i64)
    requires
        markers_wf(m),
        m.next < u64::MAX - 1,
    ensures
        ({
            let after = paused(stepped(m, thread_id));
            &&& after.outstanding.step == Some(OutstandingStep { id: m.next, thread_id })
            &&& after.outstanding.pause == Some(stepped(m, thread_id).next)
            &&& m.next != stepped(m, thread_id).next
            &&& markers_wf(after)
        }),
{
}

/// Withdrawing a refused request cannot take a newer one with it: after a
/// pause and then a step are expected, withdrawing the pause leaves the step
/// recorded, and withdrawing any marker leaves every marker of another
/// number where it was.
pub proof fn law_withdraw_takes_only_its_own(m: Markers, thread_id: i64, id: u64)
    requires
        markers_wf(m),
        m.next < u64::MAX - 1,
    ensures
        ({
            let both = stepped(paused(m), thread_id);
            let after = withdrawn(both, m.next);
            &&& after.outstanding.pause is None
            &&& after.outstanding.step == both.outstanding.step
        }),
        (m.outstanding.step matches Some(s) && s.id != id) ==> withdrawn(m, id).outstanding.step
            == m.outstanding.step,
        (m.outstanding.pause matches Some(p) && p != id) ==> withdrawn(m, id).outstanding.pause
            == m.outstanding.pause,
        withdrawn(m, id).outstanding.pause != Some(id),
        withdrawn(m, id).outstanding.step matches Some(s) ==> s.id != id,
{
}

/// A pause's own stop leaves the step it interrupted outstanding, and a
/// step's stop leaves the pause behind it outstanding; resuming forgets
/// both.
pub proof fn law_a_stop_answers_only_its_own_marker(m: Markers, reason: PauseReason)
    requires
        markers_wf(m),
    ensures
        reason == PauseReason::Pause ==> settled(m, reason).outstanding.step == m.outstanding.step
            && settled(m, reason).outstanding.pause is None,
        reason != PauseReason::Pause ==> settled(m, reason).outstanding.pause == m.outstanding.pause
            && settled(m, reason).outstanding.step is None,
        resumed(m).outstanding == (Outstanding { pause: None, step: None }),
{
}

/// Our id for an adapter's breakpoint id, from the session's map (the first
/// entry for it).
pub open spec fn id_for(map: Seq<(i64, BreakpointId)>, adapter_id: i64, i: int) -> Option<BreakpointId>
    decreases map.len() - i,
{
    if i < 0 || i >= map.len() {
        None
    } else if map[i].0 == adapter_id {
        Some(map[i].1)
    } else {
        id_for(map, adapter_id, i + 1)
    }
}

pub fn breakpoint_id_for(map: &Vec<(i64, BreakpointId)>, adapter_id: i64) -> (r: Option<BreakpointId>)
    ensures
        r == id_for(map@, adapter_id, 0),
{
    let mut i: usize = 0;
    while i < map.len()
        invariant
            i <= map@.len(),
            id_for(map@, adapter_id, 0) == id_for(map@, adapter_id, i as int),
        decreases map.len() - i,
    {
        if map[i].0 == adapter_id {
            return Some(map[i].1);
        }
        i = i + 1;
    }
    None
}

/// Which of our breakpoints the first `n` of the adapter's ids name: an id
/// that maps to none of ours is dropped rather than passed on as a number
/// from another namespace.
pub open spec fn ours(map: Seq<(i64, BreakpointId)>, ids: Seq<i64>, n: int) -> Seq<BreakpointId>
    decreases n,
{
    if n <= 0 || n > ids.len() {
        Seq::empty()
    } else {
        let front = ours(map, ids, n - 1);
        match id_for(map, ids[n - 1], 0) {
            Some(id) => front.push(id),
            None => front,
        }
    }
}

pub fn hit_breakpoints(map: &Vec<(i64, BreakpointId)>, ids: &Vec<i64>) -> (r: Vec<BreakpointId>)
    ensures
        r@ == ours(map@, ids@, ids@.len() as int),
{
    let mut r: Vec<BreakpointId> = Vec::new();
    let mut i: usize = 0;
    while i < ids.len()
        invariant
            i <= ids@.len(),
            r@ == ours(map@, ids@, i as int),
        decreases ids.len() - i,
    {
        if let Some(id) = breakpoint_id_for(map, ids[i]) {
            r.push(id);
        }
        i = i + 1;
    }
    r
}

/// How a session ends on `terminated`: with the exit code if `exited` has
/// said one.
pub fn end_reason(exit_code: Option<i32>) -> (r: EndReason)
    ensures
        r == (match exit_code {
            Some(code) => EndReason::Exited { exit_code: Some(code) },
            None => EndReason::Terminated,
        }),
{
    match exit_code {
        Some(code) => EndReason::Exited { exit_code: Some(code) },
        None => EndReason::Terminated,
    }
}

/// What the pump knows of a session when an event arrives.
#[derive(Debug, Clone, PartialEq, Eq)]
pub struct PumpView {
    pub kind: AdapterKind,
    pub outstanding: Outstanding,
    pub exit_code: Option<i32>,
    /// The session's map from the adapter's breakpoint ids to ours.
    pub breakpoint_ids: Vec<(i64, BreakpointId)>,
}

/// What to do about one event.
#[derive(Debug, Clone, PartialEq, Eq)]
pub enum PumpAction {
    /// Announce a chunk of output.
    Output(OutputChunk),
    /// Record the process the adapter started (the first answer is kept).
    Debuggee(StartedProcess),
    /// The program stopped: take `withdraw` down, set the session paused on
    /// `thread_id`, and announce the stop.
    Stopped {
        withdraw: Option<u64>,
        thread_id: Option<i64>,
        adapter_thread_id: Option<i64>,
        reason: PauseReason,
        raw_reason: Option<String>,
        all_threads_stopped: bool,
        hit_breakpoint_ids: Vec<BreakpointId>,
    },
    /// The adapter changed its mind about a breakpoint: record it and
    /// announce it under our id.
    BreakpointUpdated(AdapterBreakpoint),
    /// A thread started or exited.
    ThreadChanged(ThreadUpdate),
    /// The program runs again.
    Continued { thread_id: Option<i64>, all_threads_continued: bool },
    /// Record the debuggee's exit code, even after the session has ended.
    ExitCode(Option<i32>),
    /// End the session, once.
    End(EndReason),
    /// Nothing to do.
    Ignore,
}

/// A breakpoint as a `breakpoint` event describes it: an unreadable one is
/// unverified, with no id, no line and no message.
pub open spec fn event_breakpoint(body: Option<EventBody>) -> Option<DapBreakpoint> {
    match body {
        Some(b) => b.breakpoint,
        None => None,
    }
}

fn opt_i64(o: &Option<i64>) -> (r: Option<i64>)
    ensures
        r == *o,
{
    *o
}

/// What an event means for the session.
///
/// - `output` is announced; `process` records the debuggee.
/// - `stopped` is read against the requests still outstanding: the
///   adapter's quirks name it (nobody can be waiting on an entry stop by
///   now), the marker it answers comes down, and a step is reported
///   against the thread it was aimed at.
/// - `breakpoint` is recorded and announced under our id.
/// - `thread` with an id announces a thread starting (or exiting).
/// - `continued` marks the program running.
/// - `exited` records the exit code; `terminated` ends the session with it.
pub fn on_event(view: &PumpView, event: &AdapterEvent) -> (r: PumpAction)
    ensures
        if event.event@ == "output"@ {
            match r {
                PumpAction::Output(c) => chunk_of(Some(c), event.body),
                PumpAction::Ignore => chunk_of(None, event.body),
                _ => false,
            }
        } else if event.event@ == "process"@ {
            match r {
                PumpAction::Debuggee(p) => process_view(Some(p)) == started(event.body),
                PumpAction::Ignore => started(event.body) is None,
                _ => false,
            }
        } else if event.event@ == "stopped"@ {
            r matches PumpAction::Stopped {
                withdraw,
                thread_id,
                adapter_thread_id,
                reason,
                raw_reason,
                all_threads_stopped,
                hit_breakpoint_ids,
            } && {
                let said = (reason, raw_reason);
                let context = StopContext {
                    stop_on_entry: false,
                    pause_requested: view.outstanding.pause is Some,
                };
                let thread_said = match event.body {
                    Some(b) => b.thread_id,
                    None => None,
                };
                &&& (match view.kind {
                    AdapterKind::Codelldb => codelldb_stop(
                        said,
                        stop_reason_text(event.body),
                        stop_description(event.body),
                        context,
                    ),
                    _ => taken_as_said(said, stop_reason_text(event.body)),
                })
                &&& (thread_id, adapter_thread_id) == stop_threads(
                    reason,
                    view.outstanding.step,
                    thread_said,
                )
                &&& withdraw == answered_marker(reason, view.outstanding)
                &&& all_threads_stopped == (match event.body {
                    Some(b) => b.all_threads_stopped == Some(true),
                    None => false,
                })
                &&& hit_breakpoint_ids@ == (match event.body {
                    Some(b) => ours(
                        view.breakpoint_ids@,
                        b.hit_breakpoint_ids@,
                        b.hit_breakpoint_ids@.len() as int,
                    ),
                    None => Seq::empty(),
                })
            }
        } else if event.event@ == "breakpoint"@ {
            r matches PumpAction::BreakpointUpdated(b) && match event_breakpoint(event.body) {
                Some(d) => b.adapter_id == d.id && b.verified == d.verified && b.line == d.line
                    && b.message == d.message && b.id == (match d.id {
                    Some(a) => id_for(view.breakpoint_ids@, a, 0),
                    None => None,
                }),
                None => b.adapter_id is None && !b.verified && b.line is None && b.message is None
                    && b.id is None,
            }
        } else if event.event@ == "thread"@ {
            match (match event.body {
                Some(b) => b.thread_id,
                None => None,
            }) {
                None => r == PumpAction::Ignore,
                Some(id) => r matches PumpAction::ThreadChanged(u) && u.thread_id == id && u.name
                    is None && u.kind == (if (match event.body {
                    Some(b) => b.reason,
                    None => None,
                }) matches Some(reason) && reason@ == "exited"@ {
                    ThreadUpdateKind::Exited
                } else {
                    ThreadUpdateKind::Started
                }),
            }
        } else if event.event@ == "continued"@ {
            r == (PumpAction::Continued {
                thread_id: match event.body {
                    Some(b) => b.thread_id,
                    None => None,
                },
                all_threads_continued: match event.body {
                    Some(b) => b.all_threads_continued == Some(true),
                    None => false,
                },
            })
        } else if event.event@ == "exited"@ {
            r == PumpAction::ExitCode(exit_code(event.body))
        } else if event.event@ == "terminated"@ {
            r == PumpAction::End(
                match view.exit_code {
                    Some(code) => EndReason::Exited { exit_code: Some(code) },
                    None => EndReason::Terminated,
                },
            )
        } else {
            r == PumpAction::Ignore
        },
{
    let name = event.event.as_str();
    if text::str_eq(name, "output") {
        return match output_chunk(&event.body) {
            Some(c) => PumpAction::Output(c),
            None => PumpAction::Ignore,
        };
    }
    if text::str_eq(name, "process") {
        return match started_process(&event.body) {
            Some(p) => PumpAction::Debuggee(p),
            None => PumpAction::Ignore,
        };
    }
    if text::str_eq(name, "stopped") {
        let (raw, description, said, all, ids) = match &event.body {
            Some(b) => (
                match &b.reason {
                    Some(r) => r.clone(),
                    None => text::owned("unknown"),
                },
                match &b.description {
                    Some(d) => d.clone(),
                    None => String::new(),
                },
                opt_i64(&b.thread_id),
                b.all_threads_stopped == Some(true),
                hit_breakpoints(&view.breakpoint_ids, &b.hit_breakpoint_ids),
            ),
            None => (text::owned("unknown"), String::new(), None, false, Vec::new()),
        };
        let (reason, raw_reason) = normalise_stop(
            view.kind,
            raw.as_str(),
            description.as_str(),
            StopContext { stop_on_entry: false, pause_requested: view.outstanding.pause.is_some() },
        );
        let (thread_id, adapter_thread_id) = stopped_thread_ids(&reason, view.outstanding.step, said);
        let withdraw = answered(&reason, view.outstanding);
        return PumpAction::Stopped {
            withdraw,
            thread_id,
            adapter_thread_id,
            reason,
            raw_reason,
            all_threads_stopped: all,
            hit_breakpoint_ids: ids,
        };
    }
    if text::str_eq(name, "breakpoint") {
        let b = match &event.body {
            Some(body) => match &body.breakpoint {
                Some(d) => AdapterBreakpoint {
                    id: match d.id {
                        Some(a) => breakpoint_id_for(&view.breakpoint_ids, a),
                        None => None,
                    },
                    adapter_id: d.id,
                    verified: d.verified,
                    line: d.line,
                    message: crate::breakpoint::copy_opt_string(&d.message),
                },
                None => AdapterBreakpoint {
                    id: None,
                    adapter_id: None,
                    verified: false,
                    line: None,
                    message: None,
                },
            },
            None => AdapterBreakpoint {
                id: None,
                adapter_id: None,
                verified: false,
                line: None,
                message: None,
            },
        };
        return PumpAction::BreakpointUpdated(b);
    }
    if text::str_eq(name, "thread") {
        let (id, reason) = match &event.body {
            Some(b) => (b.thread_id, match &b.reason {
                Some(r) => Some(r.as_str()),
                None => None,
            }),
            None => (None, None),
        };
        let id = match id {
            Some(id) => id,
            None => return PumpAction::Ignore,
        };
        let kind = match reason {
            Some(r) => if text::str_eq(r, "exited") {
                ThreadUpdateKind::Exited
            } else {
                ThreadUpdateKind::Started
            },
            None => ThreadUpdateKind::Started,
        };
        return PumpAction::ThreadChanged(ThreadUpdate { thread_id: id, kind, name: None });
    }
    if text::str_eq(name, "continued") {
        return match &event.body {
            Some(b) => PumpAction::Continued {
                thread_id: b.thread_id,
                all_threads_continued: b.all_threads_continued == Some(true),
            },
            None => PumpAction::Continued { thread_id: None, all_threads_continued: false },
        };
    }
    if text::str_eq(name, "exited") {
        return PumpAction::ExitCode(exit_code_of(&event.body));
    }
    if text::str_eq(name, "terminated") {
        return PumpAction::End(end_reason(view.exit_code));
    }
    PumpAction::Ignore
}

/// The first request, from the `i`-th on, that `seq` answers.
pub open spec fn first_request(requests: Seq<(i64, Vec<Breakpoint>)>, seq: i64, i: int) -> Option<int>
    decreases requests.len() - i,
{
    if i < 0 || i >= requests.len() {
        None
    } else if requests[i].0 == seq {
        Some(i)
    } else {
        first_request(requests, seq, i + 1)
    }
}

/// The session's map after recording what an answer applied: each
/// breakpoint the adapter identified and we know is put in front, so the
/// newest mapping for an adapter id is the one found.
pub open spec fn recorded(map: Seq<(i64, BreakpointId)>, applied: Seq<AdapterBreakpoint>) -> Seq<
    (i64, BreakpointId),
>
    decreases applied.len(),
{
    if applied.len() == 0 {
        map
    } else {
        let front = recorded(map, applied.drop_last());
        match (applied.last().adapter_id, applied.last().id) {
            (Some(aid), Some(id)) => seq![(aid, id)] + front,
            _ => front,
        }
    }
}

/// Records the mapping from the adapter's breakpoint ids to ours, for
/// every applied breakpoint that has both.
pub fn record_breakpoints(map: &mut Vec<(i64, BreakpointId)>, applied: &Vec<AdapterBreakpoint>)
    ensures
        final(map)@ == recorded(old(map)@, applied@),
{
    let mut i: usize = 0;
    while i < applied.len()
        invariant
            i <= applied@.len(),
            map@ == recorded(old(map)@, applied@.take(i as int)),
        decreases applied.len() - i,
    {
        let ghost before = map@;
        assert(applied@.take(i + 1).drop_last() =~= applied@.take(i as int));
        match (applied[i].adapter_id, applied[i].id) {
            (Some(aid), Some(id)) => {
                map.insert(0, (aid, id));
                assert(map@ =~= seq![(aid, id)] + before);
            },
            _ => {},
        }
        i = i + 1;
    }
    assert(applied@.take(applied@.len() as int) =~= applied@);
}

proof fn lemma_id_for_shift(x: (i64, BreakpointId), f: Seq<(i64, BreakpointId)>, a: i64, i: int)
    requires
        0 <= i,
    ensures
        id_for(seq![x] + f, a, i + 1) == id_for(f, a, i),
    decreases f.len() - i,
{
    if i < f.len() {
        assert((seq![x] + f)[i + 1] == f[i]);
        lemma_id_for_shift(x, f, a, i + 1);
    }
}

/// A breakpoint event that follows its own answer carries our id: once an
/// answer is recorded, the adapter's id of any breakpoint in it that no
/// later entry of the answer reuses maps to our id for that breakpoint.
pub proof fn law_a_recorded_answer_names_our_breakpoints(
    map: Seq<(i64, BreakpointId)>,
    applied: Seq<AdapterBreakpoint>,
    k: int,
)
    requires
        0 <= k < applied.len(),
        applied[k].adapter_id is Some,
        applied[k].id is Some,
        forall|j: int| k < j < applied.len() ==> #[trigger] applied[j].adapter_id != applied[k].adapter_id,
    ensures
        id_for(recorded(map, applied), applied[k].adapter_id.unwrap(), 0) == applied[k].id,
    decreases applied.len(),
{
    let aid = applied[k].adapter_id.unwrap();
    let front = recorded(map, applied.drop_last());
    if k < applied.len() - 1 {
        assert forall|j: int| k < j < applied.drop_last().len() implies #[trigger] applied.drop_last()[j].adapter_id
            != applied.drop_last()[k].adapter_id by {
            assert(applied.drop_last()[j] == applied[j]);
        }
        law_a_recorded_answer_names_our_breakpoints(map, applied.drop_last(), k);
        assert(applied.last() == applied[applied.len() - 1]);
        match (applied.last().adapter_id, applied.last().id) {
            (Some(other), Some(id)) => {
                lemma_id_for_shift((other, id), front, aid, 0);
            },
            _ => {},
        }
    }
}

/// A response, as the pump reads it for the breakpoint map: the
/// `setBreakpoints` request it answers comes out of flight whether or not it
/// was accepted (nothing else would ever take it out), and only an accepted
/// one says what to record.
pub fn answered_breakpoints(requests: &mut Vec<(i64, Vec<Breakpoint>)>, response: &AdapterResponse) -> (r:
    Option<Vec<AdapterBreakpoint>>)
    ensures
        match first_request(old(requests)@, response.request_seq, 0) {
            None => final(requests)@ == old(requests)@ && r is None,
            Some(i) => {
                &&& final(requests)@ == old(requests)@.remove(i)
                &&& !response.success ==> r is None
                &&& response.success ==> (r matches Some(applied) && match response.breakpoints {
                    Some(list) => crate::translate::reconciled(old(requests)@[i].1@, list@, applied@),
                    None => applied@.len() == 0,
                })
            },
        },
{
    let mut i: usize = 0;
    while i < requests.len()
        invariant
            i <= requests@.len(),
            requests@ == old(requests)@,
            first_request(old(requests)@, response.request_seq, 0) == first_request(
                old(requests)@,
                response.request_seq,
                i as int,
            ),
        decreases requests.len() - i,
    {
        if requests[i].0 == response.request_seq {
            let (_, requested) = requests.remove(i);
            if !response.success {
                return None;
            }
            let answer = match &response.breakpoints {
                Some(list) => Some(copy_dap(list)),
                None => None,
            };
            return Some(applied_breakpoints(&requested, answer));
        }
        i = i + 1;
    }
    None
}

fn copy_dap(list: &Vec<DapBreakpoint>) -> (r: Vec<DapBreakpoint>)
    ensures
        r@ == list@,
{
    let mut r: Vec<DapBreakpoint> = Vec::new();
    let mut i: usize = 0;
    while i < list.len()
        invariant
            i <= list@.len(),
            r@ == list@.take(i as int),
        decreases list.len() - i,
    {
        let d = DapBreakpoint {
            id: list[i].id,
            verified: list[i].verified,
            line: list[i].line,
            message: crate::breakpoint::copy_opt_string(&list[i].message),
        };
        r.push(d);
        i = i + 1;
        assert(r@ =~= list@.take(i as int));
    }
    assert(list@.take(list@.len() as int) =~= list@);
    r
}

} // verus!
