//! The daemon's rules for a request: which session it may touch, what a
//! movement means, how long a wait lasts, what a disconnect does to the
//! program.
use vstd::prelude::*;

use crate::breakpoint::{AdapterBreakpoint, Breakpoint};
use crate::commands::BreakpointAction;
use crate::errors::{
    flag_entry, numbers_entry, text_detail, text_entry, Detail, ErrorCode, IpcError,
};
use crate::inspect::StepKind;
use crate::session::{live, session_state_text, uuid_text, EndReason, SessionId, SessionState};
use crate::text;

verus! {

/// The cap on variables returned when a request names none.
pub const DEFAULT_VARIABLE_CAP: u32 = 200;

/// How many variables to return: the cap asked for, the default when none
/// was, and no cap at all for `0`, as for a wait's timeout.
pub fn variable_limit(max: Option<u32>) -> (r: usize)
    ensures
        r == (match max {
            None => 200usize,
            Some(0) => usize::MAX,
            Some(limit) => limit as usize,
        }),
{
    let limit = match max {
        Some(limit) => limit,
        None => DEFAULT_VARIABLE_CAP,
    };
    if limit == 0 {
        usize::MAX
    } else {
        limit as usize
    }
}

/// What kind of movement a stepping request asks for.
#[derive(Debug, Clone, Copy, PartialEq, Eq, Structural)]
pub enum Movement {
    Continue,
    Step(StepKind),
    /// Not a movement so much as a request to stop moving.
    Pause,
}

impl Movement {
    pub fn description(&self) -> (r: &'static str)
        ensures
            r@ == (match *self {
                Movement::Continue => "continue"@,
                Movement::Step(StepKind::Over) => "step over"@,
                Movement::Step(StepKind::In) => "step in"@,
                Movement::Step(StepKind::Out) => "step out"@,
                Movement::Pause => "pause"@,
            }),
    {
        match self {
            Movement::Continue => "continue",
            Movement::Step(StepKind::Over) => "step over",
            Movement::Step(StepKind::In) => "step in",
            Movement::Step(StepKind::Out) => "step out",
            Movement::Pause => "pause",
        }
    }
}

/// Whether a request blocks until the program settles, and for how long.
#[derive(Debug, Clone, Copy, PartialEq, Eq, Structural)]
pub enum WaitMode {
    NoWait,
    /// `Some(0)` is waiting forever; `None` is the daemon's default.
    Wait { timeout_ms: Option<u32> },
}

/// How long the daemon waits.
#[derive(Debug, Clone, Copy, PartialEq, Eq, Structural)]
pub enum WaitTimeout {
    /// No timer at all: nothing is waited for, or the caller took
    /// responsibility for a program that may never stop.
    Unbounded,
    /// The daemon's default.
    Default,
    Millis(u32),
}

pub fn resolve_timeout(wait: WaitMode) -> (r: WaitTimeout)
    ensures
        r == (match wait {
            WaitMode::NoWait => WaitTimeout::Unbounded,
            WaitMode::Wait { timeout_ms: None } => WaitTimeout::Default,
            WaitMode::Wait { timeout_ms: Some(0) } => WaitTimeout::Unbounded,
            WaitMode::Wait { timeout_ms: Some(ms) } => WaitTimeout::Millis(ms),
        }),
{
    match wait {
        WaitMode::NoWait => WaitTimeout::Unbounded,
        WaitMode::Wait { timeout_ms: None } => WaitTimeout::Default,
        WaitMode::Wait { timeout_ms: Some(0) } => WaitTimeout::Unbounded,
        WaitMode::Wait { timeout_ms: Some(ms) } => WaitTimeout::Millis(ms),
    }
}

/// What a session's program has done, for a refusal: `exited` and a lost
/// adapter are said as such, anything else has `already ended`.
pub open spec fn past_tense_text(state: SessionState) -> Seq<char> {
    match state {
        SessionState::Exited => "already exited"@,
        SessionState::AdapterDied => "lost its adapter"@,
        _ => "already ended"@,
    }
}

pub fn past_tense(state: SessionState) -> (r: &'static str)
    ensures
        r@ == past_tense_text(state),
{
    match state {
        SessionState::Exited => "already exited",
        SessionState::AdapterDied => "lost its adapter",
        _ => "already ended",
    }
}

/// The details of a refusal about a session: which one, and, when it is
/// there, the state it is in.
pub open spec fn session_details(
    details: Seq<(String, Detail)>,
    session_id: SessionId,
    state: Option<SessionState>,
) -> bool {
    &&& details.len() == (if state is Some { 2int } else { 1int })
    &&& text_entry(details[0], "session_id"@, uuid_text(session_id.0))
    &&& state matches Some(s) ==> text_entry(details[1], "state"@, session_state_text(s))
}

/// Those details.
fn refusal_details(session_id: SessionId, state: Option<SessionState>) -> (r: Vec<(String, Detail)>)
    ensures
        session_details(r@, session_id, state),
{
    let mut r = vec![text_detail("session_id", session_id.to_string())];
    if let Some(s) = state {
        r.push(text_detail("state", text::owned(s.as_str())));
    }
    r
}

/// The refusal for a session whose program has finished.
pub fn session_finished(session_id: SessionId, state: SessionState) -> (r: IpcError)
    ensures
        r.code == ErrorCode::BadRequest,
        r.message@ == "session "@ + uuid_text(session_id.0) + " has "@ + past_tense_text(state)
            + "; run `lazydap launch` to start another"@,
        session_details(r.details@, session_id, Some(state)),
{
    let mut m = text::owned("session ");
    text::push_str(&mut m, session_id.to_string().as_str());
    text::push_str(&mut m, " has ");
    text::push_str(&mut m, past_tense(state));
    text::push_str(&mut m, "; run `lazydap launch` to start another");
    IpcError::new(ErrorCode::BadRequest, m).with_details(refusal_details(session_id, Some(state)))
}

/// What a request needs of the session it names.
#[derive(Debug, Clone, Copy, PartialEq, Eq, Structural)]
pub enum Need {
    /// That it is there.
    Found,
    /// That its program has not finished.
    Live,
    /// That its program is stopped: the stack of a running program
    /// describes a moment that has already passed.
    Paused,
}

/// The refusal a request gets, given the state of the session it names
/// (`None` when there is no such session), or `None` when it may go ahead.
pub open spec fn gate(need: Need, session_id: SessionId, state: Option<SessionState>) -> Option<(ErrorCode, Seq<char>)> {
    match state {
        None => Some((ErrorCode::SessionNotFound, "no session "@ + uuid_text(session_id.0))),
        Some(s) => if need != Need::Found && !live(s) {
            Some(
                (
                    ErrorCode::BadRequest,
                    "session "@ + uuid_text(session_id.0) + " has "@ + past_tense_text(s)
                        + "; run `lazydap launch` to start another"@,
                ),
            )
        } else if need == Need::Paused && s != SessionState::Paused {
            Some(
                (
                    ErrorCode::SessionNotPaused,
                    "session "@ + uuid_text(session_id.0)
                        + " is running; pause it first (`lazydap pause --wait`) or wait for a breakpoint"@,
                ),
            )
        } else {
            None
        },
    }
}

pub fn check_session(need: Need, session_id: SessionId, state: Option<SessionState>) -> (r: Result<
    (),
    IpcError,
>)
    ensures
        match gate(need, session_id, state) {
            None => r is Ok,
            Some((code, message)) => r matches Err(e) && e.code == code && e.message@ == message
                && session_details(e.details@, session_id, state),
        },
{
    let s = match state {
        None => {
            let mut m = text::owned("no session ");
            text::push_str(&mut m, session_id.to_string().as_str());
            return Err(
                IpcError::new(ErrorCode::SessionNotFound, m).with_details(
                    refusal_details(session_id, None),
                ),
            );
        },
        Some(s) => s,
    };
    if need != Need::Found && !s.is_live() {
        return Err(session_finished(session_id, s));
    }
    if need == Need::Paused && s != SessionState::Paused {
        let mut m = text::owned("session ");
        text::push_str(&mut m, session_id.to_string().as_str());
        text::push_str(
            &mut m,
            " is running; pause it first (`lazydap pause --wait`) or wait for a breakpoint",
        );
        return Err(
            IpcError::new(ErrorCode::SessionNotPaused, m).with_details(
                refusal_details(session_id, Some(s)),
            ),
        );
    }
    Ok(())
}

/// A `pause` on a program that is already stopped is refused: there is
/// nothing to interrupt, and the only other answer would be a fabricated
/// stop.
pub fn refuse_pointless_pause(session_id: SessionId, state: SessionState, movement: Movement) -> (r:
    Result<(), IpcError>)
    ensures
        (movement == Movement::Pause && state == SessionState::Paused) <==> r is Err,
        r matches Err(e) ==> e.code == ErrorCode::BadRequest && e.message@ == "session "@
            + uuid_text(session_id.0)
            + " is already stopped; there is nothing to pause (`lazydap status` says where it is)"@
            && session_details(e.details@, session_id, Some(SessionState::Paused)),
{
    if movement != Movement::Pause || state != SessionState::Paused {
        return Ok(());
    }
    let mut m = text::owned("session ");
    text::push_str(&mut m, session_id.to_string().as_str());
    text::push_str(
        &mut m,
        " is already stopped; there is nothing to pause (`lazydap status` says where it is)",
    );
    Err(IpcError::new(ErrorCode::BadRequest, m).with_details(refusal_details(session_id, Some(state))))
}

/// Which thread a request that named none means: the one that stopped last,
/// else the first the adapter lists, else none at all.
pub fn resolve_thread(explicit: Option<i64>, last: Option<i64>, first_listed: Option<i64>) -> (r:
    Result<i64, IpcError>)
    ensures
        match (explicit, last, first_listed) {
            (Some(t), _, _) => r == Ok::<i64, IpcError>(t),
            (None, Some(t), _) => r == Ok::<i64, IpcError>(t),
            (None, None, Some(t)) => r == Ok::<i64, IpcError>(t),
            (None, None, None) => r matches Err(e) && e.code == ErrorCode::BadRequest && e.message@
                == "the program has no threads to move"@,
        },
{
    if let Some(t) = explicit {
        return Ok(t);
    }
    if let Some(t) = last {
        return Ok(t);
    }
    match first_listed {
        Some(t) => Ok(t),
        None => Err(IpcError::new(ErrorCode::BadRequest, text::owned("the program has no threads to move"))),
    }
}

/// What a movement leaves expected of the next stop.
#[derive(Debug, Clone, Copy, PartialEq, Eq, Structural)]
pub enum Expectation {
    /// Nothing: both markers are cleared, as a resumed program's next stop
    /// needs no context.
    Nothing,
    /// A step of this thread.
    Step(i64),
    /// A pause.
    Pause,
}

pub fn expect(movement: Movement, thread_id: i64) -> (r: Expectation)
    ensures
        r == (match movement {
            Movement::Continue => Expectation::Nothing,
            Movement::Step(_) => Expectation::Step(thread_id),
            Movement::Pause => Expectation::Pause,
        }),
{
    match movement {
        Movement::Continue => Expectation::Nothing,
        Movement::Step(_) => Expectation::Step(thread_id),
        Movement::Pause => Expectation::Pause,
    }
}

/// Whether a disconnect ends the program: when asked to, or when the adapter
/// cannot leave a debuggee running, since that is what happens either way.
pub open spec fn terminating(terminate: bool, can_detach: bool) -> bool {
    terminate || !can_detach
}

pub fn terminates_debuggee(terminate: bool, can_detach: bool) -> (r: bool)
    ensures
        r == terminating(terminate, can_detach),
{
    terminate || !can_detach
}

/// What a disconnect does, in order.
#[derive(Debug, Clone, Copy, PartialEq, Eq, Structural)]
pub struct DisconnectPlan {
    /// Whether the program ends.
    pub terminating: bool,
    /// Give up the debuggee's pid first, so nothing can reap a program that
    /// was promised to keep running.
    pub release_debuggee: bool,
    /// Ask the adapter to disconnect (only a live session's adapter is
    /// listening).
    pub send_disconnect: bool,
    /// Give the adapter a moment to finish detaching before it is killed.
    pub wait_for_exit: bool,
    /// What the answer reports.
    pub terminated_debuggee: bool,
}

/// The plan for a disconnect.
pub open spec fn planned(terminate: bool, can_detach: bool, was_live: bool) -> DisconnectPlan {
    let t = terminating(terminate, can_detach);
    DisconnectPlan {
        terminating: t,
        release_debuggee: !t,
        send_disconnect: was_live,
        wait_for_exit: !t,
        terminated_debuggee: t && was_live,
    }
}

/// The plan for a disconnect; a dry run reports `terminating` without doing
/// any of it.
pub fn disconnect_plan(terminate: bool, can_detach: bool, was_live: bool) -> (r: DisconnectPlan)
    ensures
        r == planned(terminate, can_detach, was_live),
{
    let terminating = terminates_debuggee(terminate, can_detach);
    DisconnectPlan {
        terminating,
        release_debuggee: !terminating,
        send_disconnect: was_live,
        wait_for_exit: !terminating,
        terminated_debuggee: terminating && was_live,
    }
}

/// Keeping the program running is never promised where the adapter cannot
/// keep it: a plan that does not terminate always had an adapter able to
/// detach and a caller who asked for it, releases the debuggee rather than
/// reaping it, and never reports it terminated.
pub proof fn law_disconnect_never_claims_what_it_cannot_do(
    terminate: bool,
    can_detach: bool,
    was_live: bool,
)
    ensures
        ({
            let plan = planned(terminate, can_detach, was_live);
            &&& !plan.terminating ==> can_detach && !terminate && !plan.terminated_debuggee
                && plan.release_debuggee
            &&& !can_detach ==> plan.terminating && !plan.release_debuggee
        }),
{
}

// ---------------------------------------------------------------------------
// Reading a stopped program.
// ---------------------------------------------------------------------------

/// The variables an answer carries, at most `limit` of them, and whether any
/// were left out. Only the list is shortened, never a value in it.
pub fn cap_variables<T>(items: Vec<T>, limit: usize) -> (r: (Vec<T>, bool))
    ensures
        r.1 == (items@.len() > limit),
        r.0@ == (if items@.len() > limit {
            items@.take(limit as int)
        } else {
            items@
        }),
{
    let truncated = items.len() > limit;
    let mut items = items;
    items.truncate(limit);
    (items, truncated)
}

/// A count as DAP takes it: `0` is no limit, which DAP spells by leaving
/// the count out.
pub fn dap_count(n: Option<u32>) -> (r: Option<u32>)
    ensures
        r == (match n {
            Some(0) => None,
            other => other,
        }),
{
    match n {
        Some(0) => None,
        other => other,
    }
}

/// The thread a request that named none is about: the one that stopped.
pub fn stopped_thread(last_thread_id: Option<i64>) -> (r: Result<i64, IpcError>)
    ensures
        match last_thread_id {
            Some(t) => r == Ok::<i64, IpcError>(t),
            None => r matches Err(e) && e.code == ErrorCode::SessionNotPaused && e.message@
                == "no thread has stopped yet, so there is nothing to inspect"@,
        },
{
    match last_thread_id {
        Some(t) => Ok(t),
        None => Err(
            IpcError::new(
                ErrorCode::SessionNotPaused,
                text::owned("no thread has stopped yet, so there is nothing to inspect"),
            ),
        ),
    }
}

/// The frame a request that named none is about: the top of the stack, as
/// fetched just now.
pub fn top_frame(first_frame_id: Option<i64>) -> (r: Result<i64, IpcError>)
    ensures
        match first_frame_id {
            Some(f) => r == Ok::<i64, IpcError>(f),
            None => r matches Err(e) && e.code == ErrorCode::DapProtocolError && e.message@
                == "the adapter reported a paused thread with no frames"@,
        },
{
    match first_frame_id {
        Some(f) => Ok(f),
        None => Err(
            IpcError::new(
                ErrorCode::DapProtocolError,
                text::owned("the adapter reported a paused thread with no frames"),
            ),
        ),
    }
}

/// The refusal for a request whose program moved while it was prepared.
pub fn moved_on() -> (r: IpcError)
    ensures
        r.code == ErrorCode::SessionNotPaused,
        r.message@
            == "the program resumed while this request was being prepared; it is no longer stopped where the request was about"@,
{
    IpcError::new(
        ErrorCode::SessionNotPaused,
        text::owned(
            "the program resumed while this request was being prepared; it is no longer stopped where the request was about",
        ),
    )
}

// ---------------------------------------------------------------------------
// Changing the project's breakpoints.
// ---------------------------------------------------------------------------

/// What adding a breakpoint did to the project's list.
#[derive(Debug, Clone, Copy, PartialEq, Eq, Structural)]
pub enum AddOutcome {
    Created,
    Updated,
    Unchanged,
}

/// How an add is reported.
pub fn action_for(outcome: AddOutcome) -> (r: BreakpointAction)
    ensures
        r == (match outcome {
            AddOutcome::Created => BreakpointAction::Added,
            AddOutcome::Updated => BreakpointAction::Updated,
            AddOutcome::Unchanged => BreakpointAction::Unchanged,
        }),
{
    match outcome {
        AddOutcome::Created => BreakpointAction::Added,
        AddOutcome::Updated => BreakpointAction::Updated,
        AddOutcome::Unchanged => BreakpointAction::Unchanged,
    }
}

/// The ids of a list of breakpoints, in order.
pub open spec fn id_numbers(breakpoints: Seq<Breakpoint>) -> Seq<u64> {
    breakpoints.map_values(|b: Breakpoint| b.id.0 as u64)
}

/// An adapter's refusal of a change the project's list has recorded: the
/// list is not rolled back, and the error says the change stands and will
/// apply to the next launch, and which breakpoints it recorded, rather than
/// reading as "nothing happened".
pub fn recorded_anyway(error: IpcError, changed: &Vec<Breakpoint>) -> (r: IpcError)
    ensures
        r.code == error.code,
        r.message@ == error.message@
            + " — the change to the project's breakpoints is recorded and will apply to the next `lazydap launch`"@,
        r.details@.len() == error.details@.len() + 2,
        r.details@.take(error.details@.len() as int) == error.details@,
        numbers_entry(
            r.details@[error.details@.len() as int],
            "recorded_breakpoint_ids"@,
            id_numbers(changed@),
        ),
        flag_entry(r.details@[error.details@.len() as int + 1], "applied_to_session"@, false),
{
    let mut ids: Vec<u64> = Vec::new();
    let mut i: usize = 0;
    while i < changed.len()
        invariant
            i <= changed@.len(),
            ids@ == id_numbers(changed@.take(i as int)),
        decreases changed.len() - i,
    {
        ids.push(changed[i].id.0 as u64);
        i = i + 1;
        assert(id_numbers(changed@.take(i as int)) =~= id_numbers(changed@.take(i - 1)).push(
            changed@[i - 1].id.0 as u64,
        ));
    }
    assert(changed@.take(changed@.len() as int) =~= changed@);
    let IpcError { code, message, details } = error;
    let ghost before = details@;
    let mut message = message;
    text::push_str(
        &mut message,
        " — the change to the project's breakpoints is recorded and will apply to the next `lazydap launch`",
    );
    let mut details = details;
    details.push((text::owned("recorded_breakpoint_ids"), Detail::Numbers(ids)));
    details.push((text::owned("applied_to_session"), Detail::Flag(false)));
    assert(details@.take(before.len() as int) =~= before);
    IpcError { code, message, details }
}

/// The preview of a toggle: the breakpoints as they would be.
pub fn flipped(picked: Vec<Breakpoint>) -> (r: Vec<Breakpoint>)
    ensures
        r@.len() == picked@.len(),
        forall|i: int|
            0 <= i < r@.len() ==> #[trigger] r@[i] == (Breakpoint {
                enabled: !picked@[i].enabled,
                ..picked@[i]
            }),
{
    let mut r: Vec<Breakpoint> = Vec::new();
    let mut rest = picked;
    let ghost given = rest@;
    let mut i: usize = 0;
    let n = rest.len();
    assert(given.len() == n);
    while rest.len() > 0
        invariant
            i + rest@.len() == given.len(),
            given.len() <= usize::MAX,
            rest@ == given.skip(i as int),
            r@.len() == i,
            forall|j: int|
                0 <= j < i ==> #[trigger] r@[j] == (Breakpoint {
                    enabled: !given[j].enabled,
                    ..given[j]
                }),
        decreases rest.len(),
    {
        let ghost before = rest@;
        let b = rest.remove(0);
        assert(rest@ =~= given.skip(i + 1));
        assert(b == given[i as int]);
        r.push(Breakpoint { enabled: !b.enabled, ..b });
        i = i + 1;
    }
    r
}

/// What subscribers are told of each changed breakpoint: ours, at the line
/// asked for, with no opinion from an adapter.
pub fn announcement(changed: &Vec<Breakpoint>) -> (r: Vec<AdapterBreakpoint>)
    ensures
        r@.len() == changed@.len(),
        forall|i: int|
            0 <= i < r@.len() ==> #[trigger] r@[i] == (AdapterBreakpoint {
                id: Some(changed@[i].id),
                adapter_id: None,
                verified: false,
                line: Some(changed@[i].line),
                message: None,
            }),
{
    let mut r: Vec<AdapterBreakpoint> = Vec::new();
    let mut i: usize = 0;
    while i < changed.len()
        invariant
            i <= changed@.len(),
            r@.len() == i,
            forall|j: int|
                0 <= j < i ==> #[trigger] r@[j] == (AdapterBreakpoint {
                    id: Some(changed@[j].id),
                    adapter_id: None,
                    verified: false,
                    line: Some(changed@[j].line),
                    message: None,
                }),
        decreases changed.len() - i,
    {
        r.push(
            AdapterBreakpoint {
                id: Some(changed[i].id),
                adapter_id: None,
                verified: false,
                line: Some(changed[i].line),
                message: None,
            },
        );
        i = i + 1;
    }
    r
}

/// The breakpoints an adapter is sent for a file: the enabled ones, in
/// order, since leaving one out is what disabling it means.
pub open spec fn enabled_of(bs: Seq<Breakpoint>) -> Seq<Breakpoint>
    decreases bs.len(),
{
    if bs.len() == 0 {
        Seq::empty()
    } else if bs.last().enabled {
        enabled_of(bs.drop_last()).push(bs.last())
    } else {
        enabled_of(bs.drop_last())
    }
}

pub fn enabled_only(breakpoints: Vec<Breakpoint>) -> (r: Vec<Breakpoint>)
    ensures
        r@ == enabled_of(breakpoints@),
{
    let mut r: Vec<Breakpoint> = Vec::new();
    let mut rest = breakpoints;
    let ghost given = rest@;
    let mut i: usize = 0;
    let n = rest.len();
    assert(given.len() == n);
    while rest.len() > 0
        invariant
            i + rest@.len() == given.len(),
            given.len() <= usize::MAX,
            rest@ == given.skip(i as int),
            r@ == enabled_of(given.take(i as int)),
        decreases rest.len(),
    {
        let b = rest.remove(0);
        assert(rest@ =~= given.skip(i + 1));
        assert(b == given[i as int]);
        assert(given.take(i + 1).drop_last() =~= given.take(i as int));
        if b.enabled {
            r.push(b);
        }
        i = i + 1;
    }
    assert(given.take(given.len() as int) =~= given);
    r
}

pub open spec fn source_views(bs: Seq<Breakpoint>) -> Seq<Seq<char>> {
    bs.map_values(|b: Breakpoint| b.source@)
}

/// The files a set of breakpoints touches, each once, in the order first
/// touched: every one of them has its whole list sent again, since
/// `setBreakpoints` replaces a file's list rather than adding to it.
pub fn sources_of(breakpoints: &Vec<Breakpoint>) -> (r: Vec<String>)
    ensures
        crate::launch::views(r@).to_set() == source_views(breakpoints@).to_set(),
        crate::launch::views(r@).no_duplicates(),
{
    let mut r: Vec<String> = Vec::new();
    let mut i: usize = 0;
    while i < breakpoints.len()
        invariant
            i <= breakpoints@.len(),
            crate::launch::views(r@).to_set() == source_views(breakpoints@.take(i as int)).to_set(),
            crate::launch::views(r@).no_duplicates(),
        decreases breakpoints.len() - i,
    {
        let source = breakpoints[i].source.as_str();
        let ghost rv = crate::launch::views(r@);
        let ghost taken = source_views(breakpoints@.take(i as int));
        assert(source_views(breakpoints@.take(i + 1)) =~= taken.push(source@));
        proof {
            taken.lemma_push_to_set_commute(source@);
        }
        let mut seen = false;
        let mut k: usize = 0;
        while k < r.len()
            invariant
                k <= r@.len(),
                rv == crate::launch::views(r@),
                seen ==> rv.contains(source@),
                !seen ==> forall|m: int| 0 <= m < k ==> rv[m] != source@,
            decreases r.len() - k,
        {
            if text::str_eq(r[k].as_str(), source) {
                assert(rv[k as int] == source@);
                seen = true;
            }
            k = k + 1;
        }
        if seen {
            assert(rv.to_set().contains(source@));
            assert(rv.to_set().insert(source@) =~= rv.to_set());
        } else {
            r.push(text::owned(source));
            assert(crate::launch::views(r@) =~= rv.push(source@));
            proof {
                rv.lemma_push_to_set_commute(source@);
            }
        }
        i = i + 1;
    }
    assert(breakpoints@.take(breakpoints@.len() as int) =~= breakpoints@);
    r
}

/// The breakpoints of `bs` that a launch sends for `source`: the enabled
/// ones in that file, in order.
pub open spec fn sent_in(bs: Seq<Breakpoint>, source: Seq<char>) -> Seq<Breakpoint>
    decreases bs.len(),
{
    if bs.len() == 0 {
        Seq::empty()
    } else if bs.last().enabled && bs.last().source@ == source {
        sent_in(bs.drop_last(), source).push(bs.last())
    } else {
        sent_in(bs.drop_last(), source)
    }
}

/// An enabled breakpoint is among those sent for its file.
proof fn lemma_sent_in_has(bs: Seq<Breakpoint>, j: int)
    requires
        0 <= j < bs.len(),
        bs[j].enabled,
    ensures
        sent_in(bs, bs[j].source@).len() > 0,
    decreases bs.len(),
{
    if j < bs.len() - 1 {
        lemma_sent_in_has(bs.drop_last(), j);
        assert(bs.drop_last()[j] == bs[j]);
    }
}

/// What a launch sends: one group per file, carrying that file's whole list
/// of enabled breakpoints, since `setBreakpoints` replaces a file's list; a
/// file with none enabled is left out, rather than sent and then un-set.
/// Every enabled breakpoint goes in its file's group, and no file twice.
pub open spec fn launch_grouping(bs: Seq<Breakpoint>, groups: Seq<(String, Vec<Breakpoint>)>) -> bool {
    &&& forall|i: int| 0 <= i < groups.len() ==> (#[trigger] groups[i]).1@ == sent_in(bs, groups[i].0@)
        && groups[i].1@.len() > 0
    &&& groups.map_values(|g: (String, Vec<Breakpoint>)| g.0@).no_duplicates()
    &&& forall|j: int| 0 <= j < bs.len() && #[trigger] bs[j].enabled ==> exists|i: int|
        0 <= i < groups.len() && groups[i].0@ == bs[j].source@
}

/// The enabled breakpoints of `bs` in `source`, in order.
fn sent_for(bs: &Vec<Breakpoint>, source: &str) -> (r: Vec<Breakpoint>)
    ensures
        r@ == sent_in(bs@, source@),
{
    let mut r: Vec<Breakpoint> = Vec::new();
    let mut i: usize = 0;
    while i < bs.len()
        invariant
            i <= bs@.len(),
            r@ == sent_in(bs@.take(i as int), source@),
        decreases bs.len() - i,
    {
        assert(bs@.take(i + 1).drop_last() =~= bs@.take(i as int));
        assert(bs@.take(i + 1).last() == bs@[i as int]);
        if bs[i].enabled && text::str_eq(bs[i].source.as_str(), source) {
            r.push(bs[i].duplicate());
        }
        i = i + 1;
    }
    assert(bs@.take(bs@.len() as int) =~= bs@);
    r
}

/// The project's breakpoints grouped the way `setBreakpoints` wants them.
pub fn launch_groups(breakpoints: &Vec<Breakpoint>) -> (r: Vec<(String, Vec<Breakpoint>)>)
    ensures
        launch_grouping(breakpoints@, r@),
{
    let sources = sources_of(breakpoints);
    let ghost sv = crate::launch::views(sources@);
    let ghost bs = breakpoints@;
    let mut r: Vec<(String, Vec<Breakpoint>)> = Vec::new();
    let ghost mut idx: Seq<int> = Seq::empty();
    let mut k: usize = 0;
    while k < sources.len()
        invariant
            k <= sources@.len(),
            sv == crate::launch::views(sources@),
            bs == breakpoints@,
            sv.no_duplicates(),
            sv.to_set() == source_views(bs).to_set(),
            idx.len() == r@.len(),
            forall|i: int| 0 <= i < r@.len() ==> (#[trigger] r@[i]).1@ == sent_in(bs, r@[i].0@)
                && r@[i].1@.len() > 0,
            forall|i: int| 0 <= i < r@.len() ==> 0 <= #[trigger] idx[i] < k && r@[i].0@ == sv[idx[i]],
            forall|a: int, b: int| 0 <= a < b < idx.len() ==> idx[a] < idx[b],
            forall|kk: int| 0 <= kk < k && #[trigger] sent_in(bs, sv[kk]).len() > 0 ==> exists|i: int|
                0 <= i < r@.len() && r@[i].0@ == sv[kk],
        decreases sources.len() - k,
    {
        let group = sent_for(breakpoints, sources[k].as_str());
        assert(sv[k as int] == sources@[k as int]@);
        if group.len() > 0 {
            let ghost before = r@;
            r.push((sources[k].clone(), group));
            proof {
                idx = idx.push(k as int);
                assert(r@[r@.len() - 1].0@ == sv[k as int]);
                assert forall|kk: int| 0 <= kk < k + 1 && #[trigger] sent_in(bs, sv[kk]).len() > 0 implies exists|i: int|
                    0 <= i < r@.len() && r@[i].0@ == sv[kk] by {
                    if kk < k {
                        let i = choose|i: int| 0 <= i < before.len() && before[i].0@ == sv[kk];
                        assert(r@[i] == before[i]);
                    } else {
                        assert(r@[r@.len() - 1].0@ == sv[kk]);
                    }
                }
            }
        } else {
            proof {
                assert forall|kk: int| 0 <= kk < k + 1 && #[trigger] sent_in(bs, sv[kk]).len() > 0 implies exists|i: int|
                    0 <= i < r@.len() && r@[i].0@ == sv[kk] by {
                    if kk == k {
                        assert(sent_in(bs, sv[kk]).len() == 0);
                    }
                }
            }
        }
        k = k + 1;
    }
    proof {
        let names = r@.map_values(|g: (String, Vec<Breakpoint>)| g.0@);
        assert forall|a: int, b: int| 0 <= a < names.len() && 0 <= b < names.len() && a != b implies names[a] != names[b] by {
            assert(names[a] == sv[idx[a]]);
            assert(names[b] == sv[idx[b]]);
            if a < b {
                assert(idx[a] < idx[b]);
            } else {
                assert(idx[b] < idx[a]);
            }
        }
        assert forall|j: int| 0 <= j < bs.len() && #[trigger] bs[j].enabled implies exists|i: int|
            0 <= i < r@.len() && r@[i].0@ == bs[j].source@ by {
            lemma_sent_in_has(bs, j);
            assert(source_views(bs)[j] == bs[j].source@);
            assert(source_views(bs).to_set().contains(bs[j].source@));
            assert(sv.to_set().contains(bs[j].source@));
            let kk = choose|kk: int| 0 <= kk < sv.len() && sv[kk] == bs[j].source@;
            assert(sent_in(bs, sv[kk]).len() > 0);
        }
    }
    r
}

/// How a session that finished during its own launch ended: with the exit
/// code the adapter reported, else as terminated. A session still live has
/// not ended.
pub fn launch_ending(state: SessionState, exit_code: Option<i32>) -> (r: Option<EndReason>)
    ensures
        r == (if live(state) {
            None
        } else {
            match exit_code {
                Some(c) => Some(EndReason::Exited { exit_code: Some(c) }),
                None => Some(EndReason::Terminated),
            }
        }),
{
    if state.is_live() {
        return None;
    }
    match exit_code {
        Some(c) => Some(EndReason::Exited { exit_code: Some(c) }),
        None => Some(EndReason::Terminated),
    }
}

/// The thread a movement that did not wait reports as resumed: the one it
/// resumed, or none when nothing was sent because the program was already
/// running. Reporting a thread there would be a resume that did not happen.
pub fn continued_thread(already_running: bool, thread_id: i64) -> (r: Option<i64>)
    ensures
        r == (if already_running {
            None
        } else {
            Some(thread_id)
        }),
{
    if already_running {
        None
    } else {
        Some(thread_id)
    }
}

} // verus!
