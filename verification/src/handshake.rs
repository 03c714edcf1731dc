//! Starting a debuggee, in the parts every adapter does the same way.
//!
//! The launch is a conversation: `initialize`, then `launch` written without
//! waiting for its answer, then — on the `initialized` event — the
//! breakpoints and `configurationDone`, and then reading until the launch
//! has settled. The messages come from the transport; what each one means,
//! and what to send next, is decided here.
use vstd::prelude::*;

use crate::adapter::{codelldb_stop, launched_pid, normalise_stop, taken_as_said, AdapterError, StopContext};
use crate::breakpoint::{AdapterBreakpoint, Breakpoint};
use crate::session::{output_category_of, AdapterKind, OutputCategory, OutputChunk, PauseReason, SessionState};
use crate::text;
use crate::translate::{
    breakpoints_request, reconcile_breakpoints, set_breakpoints_args, suggested_location, suggestion,
    DapBreakpoint, SetBreakpointsArgs,
};

verus! {

/// The fields of an event body lazydap reads, as plain values: each is
/// `None` when the body lacks it or has it in another shape.
#[derive(Debug, Clone, PartialEq, Eq)]
pub struct EventBody {
    pub output: Option<String>,
    pub category: Option<String>,
    /// `Some(false)` only when the body says `isLocalProcess: false`.
    pub is_local_process: Option<bool>,
    pub system_process_id: Option<u64>,
    pub name: Option<String>,
    pub reason: Option<String>,
    pub description: Option<String>,
    pub thread_id: Option<i64>,
    pub all_threads_stopped: Option<bool>,
    pub all_threads_continued: Option<bool>,
    /// The integer entries of `hitBreakpointIds`.
    pub hit_breakpoint_ids: Vec<i64>,
    pub exit_code: Option<i64>,
    /// The `breakpoint` of a `breakpoint` event.
    pub breakpoint: Option<DapBreakpoint>,
}

/// One event from the adapter.
#[derive(Debug, Clone, PartialEq, Eq)]
pub struct AdapterEvent {
    pub event: String,
    pub body: Option<EventBody>,
}

/// One response from the adapter. `breakpoints` is the list a
/// `setBreakpoints` answer carries, or `None` when its body is missing or
/// not the shape DAP describes.
#[derive(Debug, Clone, PartialEq, Eq)]
pub struct AdapterResponse {
    pub request_seq: i64,
    pub success: bool,
    pub command: String,
    pub message: Option<String>,
    pub breakpoints: Option<Vec<DapBreakpoint>>,
}

/// Anything the adapter can send.
#[derive(Debug, Clone, PartialEq, Eq)]
pub enum AdapterMessage {
    Event(AdapterEvent),
    Response(AdapterResponse),
    /// A request from the adapter; lazydap advertises none, so each is
    /// refused.
    ReverseRequest,
}

/// The process the adapter started, as it described it.
#[derive(Debug, Clone, PartialEq, Eq)]
pub struct StartedProcess {
    pub pid: u32,
    /// What the adapter says it actually ran, when that is an absolute path.
    pub program: Option<String>,
}

/// The debuggee from a `process` event: only a local one (a pid from
/// another machine names an unrelated process here), and its name only when
/// it is an absolute path.
pub open spec fn started(body: Option<EventBody>) -> Option<(u32, Option<Seq<char>>)> {
    match body {
        None => None,
        Some(b) => if b.is_local_process == Some(false) {
            None
        } else {
            match b.system_process_id {
                None => None,
                Some(pid) => Some(
                    (
                        pid as u32,
                        match b.name {
                            Some(n) => if crate::pathname::is_absolute(n@) {
                                Some(n@)
                            } else {
                                None
                            },
                            None => None,
                        },
                    ),
                ),
            }
        },
    }
}

pub open spec fn process_view(p: Option<StartedProcess>) -> Option<(u32, Option<Seq<char>>)> {
    match p {
        Some(s) => Some((s.pid, crate::launch_json::opt_string(s.program))),
        None => None,
    }
}

pub fn started_process(body: &Option<EventBody>) -> (r: Option<StartedProcess>)
    ensures
        process_view(r) == started(*body),
{
    let b = match body {
        Some(b) => b,
        None => return None,
    };
    if b.is_local_process == Some(false) {
        return None;
    }
    let pid = match b.system_process_id {
        Some(pid) => pid,
        None => return None,
    };
    let program = match &b.name {
        Some(n) => if crate::pathname::path_is_absolute(n.as_str()) {
            Some(n.clone())
        } else {
            None
        },
        None => None,
    };
    Some(StartedProcess { pid: #[verifier::truncate] (pid as u32), program })
}

/// Whether `r` is what `OutputCategory::from` makes of `raw`.
pub open spec fn category_of(r: OutputCategory, raw: Seq<char>) -> bool {
    match output_category_of(raw) {
        Some(known) => r == known,
        None => r matches OutputCategory::Other(s) && s@ == raw,
    }
}

/// Whether `c` is the chunk of output an event body carries: its text, in
/// the category it names (`console` when it names none).
pub open spec fn chunk_of(c: Option<OutputChunk>, body: Option<EventBody>) -> bool {
    match body {
        Some(b) => match b.output {
            Some(out) => c matches Some(chunk) && chunk.output@ == out@ && category_of(
                chunk.category,
                match b.category {
                    Some(cat) => cat@,
                    None => "console"@,
                },
            ),
            None => c is None,
        },
        None => c is None,
    }
}

/// One chunk of output from an `output` event.
pub fn output_chunk(body: &Option<EventBody>) -> (r: Option<OutputChunk>)
    ensures
        chunk_of(r, *body),
{
    let b = match body {
        Some(b) => b,
        None => return None,
    };
    let out = match &b.output {
        Some(out) => out,
        None => return None,
    };
    let category = match &b.category {
        Some(cat) => OutputCategory::from(cat.as_str()),
        None => OutputCategory::from("console"),
    };
    Some(OutputChunk::new(category, out.as_str()))
}

/// The debuggee's exit code from an `exited` event.
pub open spec fn exit_code(body: Option<EventBody>) -> Option<i32> {
    match body {
        Some(b) => match b.exit_code {
            Some(code) => Some(code as i32),
            None => None,
        },
        None => None,
    }
}

pub fn exit_code_of(body: &Option<EventBody>) -> (r: Option<i32>)
    ensures
        r == exit_code(*body),
{
    match body {
        Some(b) => match b.exit_code {
            Some(code) => Some(#[verifier::truncate] (code as i32)),
            None => None,
        },
        None => None,
    }
}

/// What a `setBreakpoints` answer says of the breakpoints asked for: an
/// answer that cannot be read reports nothing, rather than failing a launch
/// that succeeded.
pub fn applied_breakpoints(requested: &Vec<Breakpoint>, answer: Option<Vec<DapBreakpoint>>) -> (r:
    Vec<AdapterBreakpoint>)
    ensures
        answer is None ==> r@.len() == 0,
        answer matches Some(list) ==> crate::translate::reconciled(requested@, list@, r@),
{
    match answer {
        Some(list) => reconcile_breakpoints(requested, list),
        None => Vec::new(),
    }
}

/// The first suggested location among the messages of `applied`, from the
/// `i`-th on.
pub open spec fn first_suggestion(applied: Seq<AdapterBreakpoint>, i: int) -> Option<Seq<char>>
    decreases applied.len() - i,
{
    if i < 0 || i >= applied.len() {
        None
    } else {
        match applied[i].message {
            Some(m) => match suggestion(m@) {
                Some(p) => Some(p),
                None => first_suggestion(applied, i + 1),
            },
            None => first_suggestion(applied, i + 1),
        }
    }
}

/// The spelling of a source the adapter says it would bind, when it bound
/// none of the breakpoints sent under `requested`: a retry under a second
/// path while some did bind would leave the adapter holding both sets.
pub open spec fn rebind(requested: Seq<char>, applied: Seq<AdapterBreakpoint>) -> Option<Seq<char>> {
    if applied.len() == 0 || exists|i: int| 0 <= i < applied.len() && #[trigger] applied[i].verified {
        None
    } else {
        match first_suggestion(applied, 0) {
            Some(p) => if p == requested {
                None
            } else {
                Some(p)
            },
            None => None,
        }
    }
}

/// The path to re-send a source's breakpoints under, before checking it is
/// the same file: that check goes through the file system, and an adapter
/// naming a path that resolves elsewhere must not be taken up on it.
pub fn rebind_candidate(requested: &str, applied: &Vec<AdapterBreakpoint>) -> (r: Option<String>)
    ensures
        crate::launch_json::opt_string(r) == rebind(requested@, applied@),
{
    if applied.len() == 0 {
        return None;
    }
    let mut i: usize = 0;
    while i < applied.len()
        invariant
            i <= applied@.len(),
            forall|j: int| 0 <= j < i ==> !(#[trigger] applied@[j].verified),
        decreases applied.len() - i,
    {
        if applied[i].verified {
            return None;
        }
        i = i + 1;
    }
    let mut k: usize = 0;
    while k < applied.len()
        invariant
            k <= applied@.len(),
            applied@.len() > 0,
            forall|j: int| 0 <= j < applied@.len() ==> !(#[trigger] applied@[j].verified),
            first_suggestion(applied@, 0) == first_suggestion(applied@, k as int),
        decreases applied.len() - k,
    {
        if let Some(m) = &applied[k].message {
            if let Some(p) = suggested_location(m.as_str()) {
                if text::str_eq(p.as_str(), requested) {
                    return None;
                }
                return Some(p);
            }
        }
        k = k + 1;
    }
    None
}

/// What a launch found out, start to settled.
#[derive(Debug, Clone, PartialEq, Eq)]
pub struct Outcome {
    pub state: SessionState,
    pub reason: Option<PauseReason>,
    /// What the adapter called the stop, when it was renamed.
    pub raw_reason: Option<String>,
    pub thread_id: Option<i64>,
    pub breakpoints: Vec<AdapterBreakpoint>,
    pub exit_code: Option<i32>,
    /// Debuggee output produced before the session's own buffer existed.
    pub output: Vec<OutputChunk>,
    pub debuggee: Option<StartedProcess>,
}

/// A request of the configuration window.
#[derive(Debug, Clone, PartialEq, Eq)]
pub enum ConfigRequest {
    SetBreakpoints(SetBreakpointsArgs),
    ConfigurationDone,
}

impl ConfigRequest {
    /// The DAP command it is sent as.
    pub fn command(&self) -> (r: &'static str)
        ensures
            r@ == (match *self {
                ConfigRequest::SetBreakpoints(_) => "setBreakpoints"@,
                ConfigRequest::ConfigurationDone => "configurationDone"@,
            }),
    {
        match self {
            ConfigRequest::SetBreakpoints(_) => "setBreakpoints",
            ConfigRequest::ConfigurationDone => "configurationDone",
        }
    }
}

/// What the configuration window sends, in the order it goes on the wire:
/// each source's breakpoints, in the order of `sources`, and then
/// `configurationDone`, last and once. Breakpoints go first because that
/// is what makes them live before the program's first instruction runs.
pub fn configuration_requests(sources: &Vec<(String, Vec<Breakpoint>)>) -> (r: Vec<ConfigRequest>)
    ensures
        r@.len() == sources@.len() + 1,
        r@[sources@.len() as int] == ConfigRequest::ConfigurationDone,
        forall|i: int|
            0 <= i < sources@.len() ==> (#[trigger] r@[i] matches ConfigRequest::SetBreakpoints(a)
                && breakpoints_request(a, sources@[i].0@, sources@[i].1@)),
{
    let mut r: Vec<ConfigRequest> = Vec::new();
    let mut i: usize = 0;
    while i < sources.len()
        invariant
            i <= sources@.len(),
            r@.len() == i,
            forall|j: int|
                0 <= j < i ==> (#[trigger] r@[j] matches ConfigRequest::SetBreakpoints(a)
                    && breakpoints_request(a, sources@[j].0@, sources@[j].1@)),
        decreases sources.len() - i,
    {
        let args = set_breakpoints_args(sources[i].0.as_str(), &sources[i].1);
        r.push(ConfigRequest::SetBreakpoints(args));
        i = i + 1;
    }
    r.push(ConfigRequest::ConfigurationDone);
    r
}

/// Where the conversation is.
#[derive(Debug, Clone, PartialEq, Eq)]
pub struct Handshake {
    pub stop_on_entry: bool,
    pub launch_seq: i64,
    pub launch_answered: bool,
    pub configuration_done_seq: Option<i64>,
    /// Outstanding `setBreakpoints` requests: their sequence number, and the
    /// source (by position) each is for.
    pub breakpoint_seqs: Vec<(i64, usize)>,
    /// Sources already re-sent under the adapter's spelling: one retry each,
    /// so two components disagreeing about a path cannot loop.
    pub rebound: Vec<usize>,
    /// An answer held while its rebind is checked.
    pub held: Option<(usize, Vec<AdapterBreakpoint>)>,
    pub outcome: Outcome,
}

/// What to do next.
#[derive(Debug, Clone, PartialEq, Eq)]
pub enum Step {
    /// Read the next message.
    Read,
    /// Send each source's breakpoints, then `configurationDone`, as
    /// `configuration_requests` lists them, and report
    /// their sequence numbers with `configured`.
    Configure,
    /// Check whether `candidate` is the same file as source `index`, and say
    /// with `confirm_rebind`.
    ConfirmRebind { index: usize, candidate: String },
    /// Send source `index`'s breakpoints again under `path`, and report the
    /// sequence number with `resent`.
    Resend { index: usize, path: String },
    /// Refuse the adapter's request.
    Refuse,
    /// The session ended during its own launch: read briefly for an `exited`
    /// still behind the `terminated`, with `drained`, then finish.
    Drain,
    /// The launch failed.
    Fail(AdapterError),
}

pub open spec fn has_seq(seqs: Seq<(i64, usize)>, seq: i64) -> bool {
    exists|i: int| 0 <= i < seqs.len() && #[trigger] seqs[i].0 == seq
}

/// The reason a `stopped` body gives, `unknown` when it gives none.
pub open spec fn stop_reason_text(body: Option<EventBody>) -> Seq<char> {
    match body {
        Some(b) => match b.reason {
            Some(r) => r@,
            None => "unknown"@,
        },
        None => "unknown"@,
    }
}

/// The description a `stopped` body gives, empty when it gives none.
pub open spec fn stop_description(body: Option<EventBody>) -> Seq<char> {
    match body {
        Some(b) => match b.description {
            Some(d) => d@,
            None => Seq::empty(),
        },
        None => Seq::empty(),
    }
}

/// What a `setBreakpoints` answer applied to the breakpoints asked for:
/// an answer that cannot be read applied nothing.
pub open spec fn applied_as(
    requested: Seq<Breakpoint>,
    answer: Option<Vec<DapBreakpoint>>,
    a: Seq<AdapterBreakpoint>,
) -> bool {
    match answer {
        Some(list) => crate::translate::reconciled(requested, list@, a),
        None => a.len() == 0,
    }
}

/// The breakpoints asked for under source `index`, and its path.
pub open spec fn source_at(sources: Seq<(String, Vec<Breakpoint>)>, index: usize) -> (Seq<char>, Seq<
    Breakpoint,
>) {
    if index < sources.len() {
        (sources[index as int].0@, sources[index as int].1@)
    } else {
        (Seq::empty(), Seq::empty())
    }
}

/// What the answer for source `index` did: when the adapter bound none of
/// it and named another spelling of the file, not yet retried, the answer
/// is held and that spelling is to be checked; otherwise what it applied is
/// recorded.
pub open spec fn answered_source(
    before: Handshake,
    after: Handshake,
    r: Step,
    index: usize,
    sources: Seq<(String, Vec<Breakpoint>)>,
    answer: Option<Vec<DapBreakpoint>>,
) -> bool {
    let (path, requested) = source_at(sources, index);
    match r {
        Step::ConfirmRebind { index: ix, candidate } => {
            &&& ix == index
            &&& !before.rebound@.contains(index)
            &&& after.held matches Some((hx, held)) && hx == index && applied_as(
                requested,
                answer,
                held@,
            ) && rebind(path, held@) == Some(candidate@)
            &&& after.outcome == before.outcome
        },
        Step::Read => {
            let n = before.outcome.breakpoints@.len();
            let added = after.outcome.breakpoints@.skip(n as int);
            &&& after.outcome.breakpoints@.len() >= n
            &&& after.outcome.breakpoints@.take(n as int) == before.outcome.breakpoints@
            &&& applied_as(requested, answer, added)
            &&& (rebind(path, added) is None || before.rebound@.contains(index))
            &&& after.held is None
        },
        _ => false,
    }
}

/// Settled: the launch answered, the configuration done, every breakpoint
/// answered, and — for a stop-on-entry launch — the entry stop seen.
pub open spec fn settled_spec(h: Handshake) -> bool {
    &&& h.launch_answered
    &&& h.configuration_done_seq is Some
    &&& h.breakpoint_seqs@.len() == 0
    &&& (!h.stop_on_entry || h.outcome.reason is Some)
}

impl Handshake {
    /// The conversation right after `launch` was written as request
    /// `launch_seq`.
    pub fn new(stop_on_entry: bool, launch_seq: i64) -> (r: Handshake)
        ensures
            r.stop_on_entry == stop_on_entry,
            r.launch_seq == launch_seq,
            !r.launch_answered,
            r.configuration_done_seq is None,
            r.breakpoint_seqs@.len() == 0,
            r.rebound@.len() == 0,
            r.held is None,
            r.outcome.state == SessionState::Running,
            r.outcome.reason is None,
            r.outcome.raw_reason is None,
            r.outcome.thread_id is None,
            r.outcome.breakpoints@.len() == 0,
            r.outcome.exit_code is None,
            r.outcome.output@.len() == 0,
            r.outcome.debuggee is None,
    {
        Handshake {
            stop_on_entry,
            launch_seq,
            launch_answered: false,
            configuration_done_seq: None,
            breakpoint_seqs: Vec::new(),
            rebound: Vec::new(),
            held: None,
            outcome: Outcome {
                state: SessionState::Running,
                reason: None,
                raw_reason: None,
                thread_id: None,
                breakpoints: Vec::new(),
                exit_code: None,
                output: Vec::new(),
                debuggee: None,
            },
        }
    }

    /// Whether the launch is over: settled, or the session already ended.
    pub fn finished(&self) -> (r: bool)
        ensures
            r == (settled_spec(*self) || self.outcome.state == SessionState::Terminated),
    {
        let settled = self.launch_answered && self.configuration_done_seq.is_some()
            && self.breakpoint_seqs.len() == 0 && (!self.stop_on_entry
            || self.outcome.reason.is_some());
        settled || self.outcome.state == SessionState::Terminated
    }

    /// The sequence numbers of the configuration requests: one
    /// `setBreakpoints` per source, in order, then `configurationDone`.
    pub fn configured(&mut self, breakpoint_seqs: Vec<i64>, done_seq: i64)
        ensures
            final(self).configuration_done_seq == Some(done_seq),
            final(self).breakpoint_seqs@ == old(self).breakpoint_seqs@ + Seq::new(
                breakpoint_seqs@.len(),
                |i: int| (breakpoint_seqs@[i], i as usize),
            ),
            final(self).launch_answered == old(self).launch_answered,
            final(self).stop_on_entry == old(self).stop_on_entry,
            final(self).launch_seq == old(self).launch_seq,
            final(self).rebound == old(self).rebound,
            final(self).held == old(self).held,
            final(self).outcome == old(self).outcome,
    {
        let ghost start = self.breakpoint_seqs@;
        let mut i: usize = 0;
        while i < breakpoint_seqs.len()
            invariant
                i <= breakpoint_seqs@.len(),
                self.breakpoint_seqs@ == start + Seq::new(
                    i as nat,
                    |j: int| (breakpoint_seqs@[j], j as usize),
                ),
                self.configuration_done_seq == old(self).configuration_done_seq,
                self.launch_answered == old(self).launch_answered,
                self.stop_on_entry == old(self).stop_on_entry,
                self.launch_seq == old(self).launch_seq,
                self.rebound == old(self).rebound,
                self.held == old(self).held,
                self.outcome == old(self).outcome,
            decreases breakpoint_seqs.len() - i,
        {
            self.breakpoint_seqs.push((breakpoint_seqs[i], i));
            i = i + 1;
            assert(self.breakpoint_seqs@ =~= start + Seq::new(
                i as nat,
                |j: int| (breakpoint_seqs@[j], j as usize),
            ));
        }
        self.configuration_done_seq = Some(done_seq);
    }

    /// The sequence number of a re-sent `setBreakpoints` for source `index`.
    pub fn resent(&mut self, seq: i64, index: usize)
        ensures
            final(self).breakpoint_seqs@ == old(self).breakpoint_seqs@.push((seq, index)),
            final(self).configuration_done_seq == old(self).configuration_done_seq,
            final(self).launch_answered == old(self).launch_answered,
            final(self).stop_on_entry == old(self).stop_on_entry,
            final(self).launch_seq == old(self).launch_seq,
            final(self).rebound == old(self).rebound,
            final(self).held == old(self).held,
            final(self).outcome == old(self).outcome,
    {
        self.breakpoint_seqs.push((seq, index));
    }

    fn take_seq(&mut self, seq: i64) -> (r: Option<usize>)
        ensures
            match r {
                Some(index) => has_seq(old(self).breakpoint_seqs@, seq) && exists|i: int|
                    0 <= i < old(self).breakpoint_seqs@.len() && old(self).breakpoint_seqs@[i]
                        == (seq, index) && final(self).breakpoint_seqs@
                        == old(self).breakpoint_seqs@.remove(i),
                None => !has_seq(old(self).breakpoint_seqs@, seq) && final(self).breakpoint_seqs@
                    == old(self).breakpoint_seqs@,
            },
            final(self).configuration_done_seq == old(self).configuration_done_seq,
            final(self).launch_answered == old(self).launch_answered,
            final(self).stop_on_entry == old(self).stop_on_entry,
            final(self).launch_seq == old(self).launch_seq,
            final(self).rebound == old(self).rebound,
            final(self).held == old(self).held,
            final(self).outcome == old(self).outcome,
    {
        let mut i: usize = 0;
        while i < self.breakpoint_seqs.len()
            invariant
                i <= self.breakpoint_seqs@.len(),
                self.breakpoint_seqs == old(self).breakpoint_seqs,
                self.configuration_done_seq == old(self).configuration_done_seq,
                self.launch_answered == old(self).launch_answered,
                self.stop_on_entry == old(self).stop_on_entry,
                self.launch_seq == old(self).launch_seq,
                self.rebound == old(self).rebound,
                self.held == old(self).held,
                self.outcome == old(self).outcome,
                forall|j: int| 0 <= j < i ==> #[trigger] self.breakpoint_seqs@[j].0 != seq,
            decreases self.breakpoint_seqs.len() - i,
        {
            if self.breakpoint_seqs[i].0 == seq {
                let (_, index) = self.breakpoint_seqs.remove(i);
                return Some(index);
            }
            i = i + 1;
        }
        None
    }

    fn rebound_contains(&self, index: usize) -> (r: bool)
        ensures
            r == self.rebound@.contains(index),
    {
        let mut i: usize = 0;
        while i < self.rebound.len()
            invariant
                i <= self.rebound@.len(),
                forall|j: int| 0 <= j < i ==> self.rebound@[j] != index,
            decreases self.rebound.len() - i,
        {
            if self.rebound[i] == index {
                return true;
            }
            i = i + 1;
        }
        false
    }

    fn record(&mut self, applied: Vec<AdapterBreakpoint>)
        ensures
            final(self).outcome.breakpoints@ == old(self).outcome.breakpoints@ + applied@,
            final(self).outcome.state == old(self).outcome.state,
            final(self).outcome.reason == old(self).outcome.reason,
            final(self).outcome.raw_reason == old(self).outcome.raw_reason,
            final(self).outcome.thread_id == old(self).outcome.thread_id,
            final(self).outcome.exit_code == old(self).outcome.exit_code,
            final(self).outcome.output == old(self).outcome.output,
            final(self).outcome.debuggee == old(self).outcome.debuggee,
            final(self).breakpoint_seqs == old(self).breakpoint_seqs,
            final(self).configuration_done_seq == old(self).configuration_done_seq,
            final(self).launch_answered == old(self).launch_answered,
            final(self).stop_on_entry == old(self).stop_on_entry,
            final(self).launch_seq == old(self).launch_seq,
            final(self).rebound == old(self).rebound,
            final(self).held == old(self).held,
    {
        let ghost start = self.outcome.breakpoints@;
        let mut i: usize = 0;
        while i < applied.len()
            invariant
                i <= applied@.len(),
                self.outcome.breakpoints@ == start + applied@.take(i as int),
                self.outcome.state == old(self).outcome.state,
                self.outcome.reason == old(self).outcome.reason,
                self.outcome.raw_reason == old(self).outcome.raw_reason,
                self.outcome.thread_id == old(self).outcome.thread_id,
                self.outcome.exit_code == old(self).outcome.exit_code,
                self.outcome.output == old(self).outcome.output,
                self.outcome.debuggee == old(self).outcome.debuggee,
                self.breakpoint_seqs == old(self).breakpoint_seqs,
                self.configuration_done_seq == old(self).configuration_done_seq,
                self.launch_answered == old(self).launch_answered,
                self.stop_on_entry == old(self).stop_on_entry,
                self.launch_seq == old(self).launch_seq,
                self.rebound == old(self).rebound,
                self.held == old(self).held,
            decreases applied.len() - i,
        {
            let b = AdapterBreakpoint {
                id: applied[i].id,
                adapter_id: applied[i].adapter_id,
                verified: applied[i].verified,
                line: applied[i].line,
                message: crate::breakpoint::copy_opt_string(&applied[i].message),
            };
            assert(b == applied@[i as int]);
            self.outcome.breakpoints.push(b);
            i = i + 1;
            assert(self.outcome.breakpoints@ =~= start + applied@.take(i as int));
        }
        assert(applied@.take(applied@.len() as int) =~= applied@);
    }

    /// Reads one message during the launch (`kind` is the adapter, `sources`
    /// the project's breakpoints by file) and says what to do next.
    ///
    /// - `initialized` opens the configuration window: configure.
    /// - `output` and `process` are recorded; `exited` records the code.
    /// - `stopped` pauses the session under the reason the adapter's quirks
    ///   give it, with nobody able to have asked for a pause yet.
    /// - `terminated` ends the session: drain.
    /// - A refused request fails the launch with the adapter's own words.
    /// - The `launch` answer marks it answered; a `setBreakpoints` answer is
    ///   taken out of flight and either recorded or, when the adapter named
    ///   another spelling of the file, held while that is checked.
    pub fn on_message(
        &mut self,
        kind: AdapterKind,
        message: AdapterMessage,
        sources: &Vec<(String, Vec<Breakpoint>)>,
    ) -> (r: Step)
        requires
            old(self).held is None,
        ensures
            match message {
                AdapterMessage::ReverseRequest => r == Step::Refuse && *final(self) == *old(self),
                AdapterMessage::Event(event) => {
                    if event.event@ == "initialized"@ {
                        r == Step::Configure && *final(self) == *old(self)
                    } else if event.event@ == "output"@ {
                        r == Step::Read && *final(self) == (Handshake {
                            outcome: (Outcome { output: final(self).outcome.output, ..old(self).outcome }),
                            ..*old(self)
                        }) && (
                        (final(self).outcome.output@.len() == old(self).outcome.output@.len() + 1
                            && final(self).outcome.output@.drop_last() == old(self).outcome.output@
                            && chunk_of(Some(final(self).outcome.output@.last()), event.body)) || (
                        final(self).outcome.output@ == old(self).outcome.output@ && chunk_of(
                            None,
                            event.body,
                        )))
                    } else if event.event@ == "process"@ {
                        r == Step::Read && process_view(final(self).outcome.debuggee) == started(
                            event.body,
                        ) && *final(self) == (Handshake {
                            outcome: (Outcome { debuggee: final(self).outcome.debuggee, ..old(self).outcome }),
                            ..*old(self)
                        })
                    } else if event.event@ == "stopped"@ {
                        &&& r == Step::Read
                        &&& *final(self) == (Handshake {
                            outcome: (Outcome {
                                state: SessionState::Paused,
                                reason: final(self).outcome.reason,
                                raw_reason: final(self).outcome.raw_reason,
                                thread_id: final(self).outcome.thread_id,
                                ..old(self).outcome
                            }),
                            ..*old(self)
                        })
                        &&& final(self).outcome.state == SessionState::Paused
                        &&& final(self).outcome.thread_id == (match event.body {
                            Some(b) => b.thread_id,
                            None => None,
                        })
                        &&& final(self).outcome.reason matches Some(reason) && {
                            let said = (reason, final(self).outcome.raw_reason);
                            let context = StopContext {
                                stop_on_entry: old(self).stop_on_entry,
                                pause_requested: false,
                            };
                            match kind {
                                AdapterKind::Codelldb => codelldb_stop(
                                    said,
                                    stop_reason_text(event.body),
                                    stop_description(event.body),
                                    context,
                                ),
                                _ => taken_as_said(said, stop_reason_text(event.body)),
                            }
                        }
                    } else if event.event@ == "exited"@ {
                        r == Step::Read && final(self).outcome.exit_code == exit_code(event.body)
                            && *final(self) == (Handshake {
                            outcome: (Outcome { exit_code: final(self).outcome.exit_code, ..old(self).outcome }),
                            ..*old(self)
                        })
                    } else if event.event@ == "terminated"@ {
                        r == Step::Drain && *final(self) == (Handshake {
                            outcome: (Outcome { state: SessionState::Terminated, ..old(self).outcome }),
                            ..*old(self)
                        })
                    } else {
                        r == Step::Read && *final(self) == *old(self)
                    }
                },
                AdapterMessage::Response(response) => {
                    if !response.success {
                        r matches Step::Fail(AdapterError::Rejected { command, message: m })
                            && command@ == response.command@ && m@ == (match response.message {
                            Some(text) => text@,
                            None => Seq::empty(),
                        })
                    } else {
                        &&& final(self).launch_answered == (old(self).launch_answered
                            || response.request_seq == old(self).launch_seq)
                        &&& !has_seq(old(self).breakpoint_seqs@, response.request_seq) ==> (r
                            == Step::Read && final(self).breakpoint_seqs@
                            == old(self).breakpoint_seqs@ && final(self).outcome
                            == old(self).outcome)
                        &&& has_seq(old(self).breakpoint_seqs@, response.request_seq)
                            ==> exists|i: int|
                            0 <= i < old(self).breakpoint_seqs@.len()
                                && #[trigger] old(self).breakpoint_seqs@[i].0 == response.request_seq
                                && final(self).breakpoint_seqs@ == old(self).breakpoint_seqs@.remove(i)
                                && answered_source(
                                *old(self),
                                *final(self),
                                r,
                                old(self).breakpoint_seqs@[i].1,
                                sources@,
                                response.breakpoints,
                            )
                    }
                },
            },
            final(self).stop_on_entry == old(self).stop_on_entry,
            final(self).launch_seq == old(self).launch_seq,
            r is Read ==> final(self).held is None,
    {
        match message {
            AdapterMessage::ReverseRequest => Step::Refuse,
            AdapterMessage::Event(event) => {
                if text::str_eq(event.event.as_str(), "initialized") {
                    return Step::Configure;
                }
                if text::str_eq(event.event.as_str(), "output") {
                    if let Some(chunk) = output_chunk(&event.body) {
                        self.outcome.output.push(chunk);
                    }
                } else if text::str_eq(event.event.as_str(), "process") {
                    self.outcome.debuggee = started_process(&event.body);
                } else if text::str_eq(event.event.as_str(), "stopped") {
                    let (raw, description, thread_id) = match &event.body {
                        Some(b) => (
                            match &b.reason {
                                Some(r) => r.clone(),
                                None => text::owned("unknown"),
                            },
                            match &b.description {
                                Some(d) => d.clone(),
                                None => String::new(),
                            },
                            b.thread_id,
                        ),
                        None => (text::owned("unknown"), String::new(), None),
                    };
                    self.outcome.state = SessionState::Paused;
                    let (reason, raw_reason) = normalise_stop(
                        kind,
                        raw.as_str(),
                        description.as_str(),
                        StopContext { stop_on_entry: self.stop_on_entry, pause_requested: false },
                    );
                    self.outcome.reason = Some(reason);
                    self.outcome.raw_reason = raw_reason;
                    self.outcome.thread_id = thread_id;
                } else if text::str_eq(event.event.as_str(), "exited") {
                    self.outcome.exit_code = exit_code_of(&event.body);
                } else if text::str_eq(event.event.as_str(), "terminated") {
                    self.outcome.state = SessionState::Terminated;
                    return Step::Drain;
                }
                Step::Read
            },
            AdapterMessage::Response(response) => {
                if !response.success {
                    let message = match response.message {
                        Some(m) => m,
                        None => String::new(),
                    };
                    return Step::Fail(AdapterError::Rejected { command: response.command, message });
                }
                if response.request_seq == self.launch_seq {
                    self.launch_answered = true;
                }
                let index = match self.take_seq(response.request_seq) {
                    Some(index) => index,
                    None => return Step::Read,
                };
                let ghost i = choose|i: int|
                    0 <= i < old(self).breakpoint_seqs@.len() && old(self).breakpoint_seqs@[i] == (
                        response.request_seq,
                        index,
                    ) && self.breakpoint_seqs@ == old(self).breakpoint_seqs@.remove(i);
                assert(old(self).breakpoint_seqs@[i].0 == response.request_seq);
                let empty: Vec<Breakpoint> = Vec::new();
                let no_path = String::new();
                let (source, requested) = if index < sources.len() {
                    (sources[index].0.as_str(), &sources[index].1)
                } else {
                    (no_path.as_str(), &empty)
                };
                assert((source@, requested@) == source_at(sources@, index));
                let answer = response.breakpoints;
                let ghost answer_view = answer;
                let applied = applied_breakpoints(requested, answer);
                assert(applied_as(requested@, answer_view, applied@));
                let ghost n = self.outcome.breakpoints@.len();
                let ghost before = self.outcome;
                assert(before == old(self).outcome);
                match rebind_candidate(source, &applied) {
                    Some(candidate) => if !self.rebound_contains(index) {
                        self.held = Some((index, applied));
                        return Step::ConfirmRebind { index, candidate };
                    } else {
                        self.record(applied);
                        assert(self.outcome.breakpoints@.skip(n as int) =~= applied@);
                        assert(self.outcome.breakpoints@.take(n as int) =~= before.breakpoints@);
                    },
                    None => {
                        self.record(applied);
                        assert(self.outcome.breakpoints@.skip(n as int) =~= applied@);
                        assert(self.outcome.breakpoints@.take(n as int) =~= before.breakpoints@);
                    },
                }
                Step::Read
            },
        }
    }

    /// Whether the file the adapter named is the one asked for. When it is,
    /// re-send under that name, and let the retry's answer replace the held
    /// one rather than join it; when it is not, the held answer stands.
    pub fn confirm_rebind(&mut self, same_file: bool, candidate: String) -> (r: Step)
        requires
            old(self).held is Some,
        ensures
            final(self).held is None,
            same_file ==> r == (Step::Resend { index: old(self).held.unwrap().0, path: candidate })
                && final(self).rebound@ == old(self).rebound@.push(old(self).held.unwrap().0)
                && final(self).outcome == old(self).outcome,
            !same_file ==> r == Step::Read && final(self).rebound == old(self).rebound
                && final(self).outcome.breakpoints@ == old(self).outcome.breakpoints@ + old(
                self,
            ).held.unwrap().1@,
            final(self).breakpoint_seqs == old(self).breakpoint_seqs,
            final(self).launch_answered == old(self).launch_answered,
            final(self).configuration_done_seq == old(self).configuration_done_seq,
            final(self).stop_on_entry == old(self).stop_on_entry,
            final(self).launch_seq == old(self).launch_seq,
    {
        let held = self.held.take();
        let (index, applied) = match held {
            Some(h) => h,
            None => return Step::Read,
        };
        if same_file {
            self.rebound.push(index);
            Step::Resend { index, path: candidate }
        } else {
            self.record(applied);
            Step::Read
        }
    }

    /// One message read while draining after `terminated`: an `exited` gives
    /// the exit code, output is kept. Returns whether the code has arrived,
    /// after which there is nothing left worth waiting for.
    pub fn drained(&mut self, message: AdapterMessage) -> (r: bool)
        ensures
            r == final(self).outcome.exit_code is Some,
            final(self).outcome.state == old(self).outcome.state,
            message matches AdapterMessage::Event(e) ==> (e.event@ == "exited"@
                ==> final(self).outcome.exit_code == exit_code(e.body)),
    {
        if let AdapterMessage::Event(event) = message {
            if text::str_eq(event.event.as_str(), "exited") {
                self.outcome.exit_code = exit_code_of(&event.body);
            } else if text::str_eq(event.event.as_str(), "output") {
                if let Some(chunk) = output_chunk(&event.body) {
                    self.outcome.output.push(chunk);
                }
            }
        }
        self.outcome.exit_code.is_some()
    }
}

/// The process the launch started: the one the adapter described, else —
/// for an adapter that only says so in console text — the first pid found in
/// the output, with no program name.
pub fn debuggee_of(kind: AdapterKind, outcome: &Outcome) -> (r: Option<StartedProcess>)
    ensures
        outcome.debuggee is Some ==> r == outcome.debuggee,
        outcome.debuggee is None ==> match r {
            Some(p) => p.program is None && kind == AdapterKind::Codelldb && exists|i: int|
                0 <= i < outcome.output@.len() && launched_pid(#[trigger] outcome.output@[i].output@)
                    == Some(p.pid) && forall|j: int|
                    0 <= j < i ==> crate::adapter::debuggee_pid_in_spec(
                        kind,
                        #[trigger] outcome.output@[j].output@,
                    ) is None,
            None => forall|i: int|
                0 <= i < outcome.output@.len() ==> crate::adapter::debuggee_pid_in_spec(
                    kind,
                    #[trigger] outcome.output@[i].output@,
                ) is None,
        },
{
    if let Some(p) = &outcome.debuggee {
        return Some(StartedProcess { pid: p.pid, program: crate::breakpoint::copy_opt_string(&p.program) });
    }
    let mut i: usize = 0;
    while i < outcome.output.len()
        invariant
            i <= outcome.output@.len(),
            outcome.debuggee is None,
            forall|j: int|
                0 <= j < i ==> crate::adapter::debuggee_pid_in_spec(
                    kind,
                    #[trigger] outcome.output@[j].output@,
                ) is None,
        decreases outcome.output.len() - i,
    {
        if let Some(pid) = crate::adapter::debuggee_pid_in(kind, outcome.output[i].output.as_str()) {
            return Some(StartedProcess { pid, program: None });
        }
        i = i + 1;
    }
    None
}

} // verus!
