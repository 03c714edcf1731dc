//! The tables the command line prints for what a daemon answered: a label
//! per row, values in a column, and the output a wait captured under them.
use vstd::prelude::*;

use crate::breakpoint::{effective, BreakpointId, BreakpointStatus};
use crate::launch::{runnable, source_text, LaunchConfig};
use crate::watch::Watch;
use crate::commands::{join_ids, join_lines};
use crate::inspect::{
    frame_text, source_label, wait_outcome_text, EvalResult, Scope, StackFrame, ThreadInfo,
    Variable, WaitOutcome,
};
use crate::launch::join_texts;
use crate::session::{
    adapter_text, output_category_text, pause_reason_text, session_state_text, uuid_text,
    AdapterKind, OutputChunk, PauseReason, SessionId, SessionState,
};
use crate::text;

verus! {

/// A table's rows, as text.
pub open spec fn rows_view(rows: Seq<(String, String)>) -> Seq<(Seq<char>, Seq<char>)> {
    rows.map_values(|row: (String, String)| (row.0@, row.1@))
}

/// The width of the label column: the longest label.
pub open spec fn key_width(rows: Seq<(Seq<char>, Seq<char>)>) -> nat
    decreases rows.len(),
{
    if rows.len() == 0 {
        0
    } else if rows.last().0.len() > key_width(rows.drop_last()) {
        rows.last().0.len()
    } else {
        key_width(rows.drop_last())
    }
}

pub open spec fn spaces(n: nat) -> Seq<char> {
    Seq::new(n, |_i: int| ' ')
}

/// One row: the label, padded to the column, two spaces, the value.
pub open spec fn field_line(key: Seq<char>, value: Seq<char>, width: nat) -> Seq<char> {
    key + spaces((width - key.len()) as nat) + "  "@ + value
}

/// The table: one row per line, values lined up in one column.
pub open spec fn fields_text(rows: Seq<(Seq<char>, Seq<char>)>) -> Seq<char> {
    join_lines(
        rows.map_values(
            |row: (Seq<char>, Seq<char>)| field_line(row.0, row.1, key_width(rows)),
        ),
    )
}

/// No label is wider than the column.
pub proof fn lemma_key_width_bounds(rows: Seq<(Seq<char>, Seq<char>)>)
    ensures
        forall|i: int| 0 <= i < rows.len() ==> #[trigger] rows[i].0.len() <= key_width(rows),
    decreases rows.len(),
{
    if rows.len() > 0 {
        lemma_key_width_bounds(rows.drop_last());
        assert forall|i: int| 0 <= i < rows.len() implies #[trigger] rows[i].0.len() <= key_width(
            rows,
        ) by {
            if i < rows.len() - 1 {
                assert(rows[i] == rows.drop_last()[i]);
            }
        }
    }
}

/// Appends `n` spaces.
pub fn push_spaces(s: &mut String, n: usize)
    ensures
        final(s)@ == old(s)@ + spaces(n as nat),
{
    let ghost start = s@;
    let mut j: usize = 0;
    while j < n
        invariant
            j <= n,
            s@ == start + spaces(j as nat),
        decreases n - j,
    {
        text::push_char(s, ' ');
        j = j + 1;
        assert(s@ =~= start + spaces(j as nat));
    }
}

/// The number of characters in `s`.
fn char_count(s: &str) -> (r: usize)
    ensures
        r == s@.len(),
{
    text::chars_of(s).len()
}

/// Rows as a table, each value in the column after the widest label.
pub fn render_fields(rows: &Vec<(String, String)>) -> (r: String)
    ensures
        r@ == fields_text(rows_view(rows@)),
{
    let ghost rv = rows_view(rows@);
    let mut width: usize = 0;
    let mut i: usize = 0;
    while i < rows.len()
        invariant
            i <= rows@.len(),
            rv == rows_view(rows@),
            width == key_width(rv.take(i as int)),
        decreases rows.len() - i,
    {
        let k = char_count(rows[i].0.as_str());
        assert(rv.take(i + 1).drop_last() =~= rv.take(i as int));
        assert(rv.take(i + 1).last() == rv[i as int]);
        if k > width {
            width = k;
        }
        i = i + 1;
    }
    assert(rv.take(rows@.len() as int) =~= rv);
    proof {
        lemma_key_width_bounds(rv);
    }
    let ghost lines = rv.map_values(
        |row: (Seq<char>, Seq<char>)| field_line(row.0, row.1, key_width(rv)),
    );
    let mut r = String::new();
    let mut i: usize = 0;
    while i < rows.len()
        invariant
            i <= rows@.len(),
            rv == rows_view(rows@),
            width == key_width(rv),
            lines == rv.map_values(
                |row: (Seq<char>, Seq<char>)| field_line(row.0, row.1, key_width(rv)),
            ),
            forall|j: int| 0 <= j < rv.len() ==> #[trigger] rv[j].0.len() <= key_width(rv),
            r@ == join_lines(lines.take(i as int)),
        decreases rows.len() - i,
    {
        let ghost before = r@;
        assert(lines.take(i + 1).drop_last() =~= lines.take(i as int));
        assert(rv[i as int] == (rows@[i as int].0@, rows@[i as int].1@));
        if i > 0 {
            text::push_char(&mut r, '\n');
        }
        let k = char_count(rows[i].0.as_str());
        assert(rv[i as int].0.len() <= key_width(rv));
        text::push_str(&mut r, rows[i].0.as_str());
        push_spaces(&mut r, width - k);
        text::push_str(&mut r, "  ");
        text::push_str(&mut r, rows[i].1.as_str());
        assert(lines[i as int] == field_line(rv[i as int].0, rv[i as int].1, key_width(rv)));
        if i > 0 {
            assert(r@ =~= before + seq!['\n'] + lines[i as int]);
        } else {
            assert(r@ =~= lines[i as int]);
        }
        i = i + 1;
    }
    assert(lines.take(rows@.len() as int) =~= lines);
    r
}

/// What the daemon says of the session it holds.
#[derive(Debug, Clone, PartialEq, Eq)]
pub struct SessionSummary {
    pub session_id: SessionId,
    pub adapter: AdapterKind,
    pub program: String,
    pub state: SessionState,
    pub exit_code: Option<i32>,
    /// Events waiting for a subscriber.
    pub buffered_events: u64,
    pub captured_output_chunks: u64,
    pub dropped_events: u64,
    pub uptime_ms: u64,
}

/// What `status` answers: the daemon, and its session if it has one.
#[derive(Debug, Clone, PartialEq, Eq)]
pub struct StatusReport {
    pub instance: String,
    pub daemon_pid: u32,
    pub uptime_ms: u64,
    pub protocol_version: u32,
    pub lazydap_version: String,
    pub session: Option<SessionSummary>,
}

/// A number, or `-` for none.
pub open spec fn dash_or(value: Option<int>) -> Seq<char> {
    match value {
        Some(n) => text::signed_decimal(n),
        None => "-"@,
    }
}

/// The rows of the `status` table. A daemon with no session says so in a
/// row of its own rather than printing nothing.
pub open spec fn status_rows(report: StatusReport) -> Seq<(Seq<char>, Seq<char>)> {
    seq![
        ("instance"@, report.instance@),
        ("daemon_pid"@, text::decimal(report.daemon_pid as nat)),
        ("uptime_ms"@, text::decimal(report.uptime_ms as nat)),
        ("version"@, report.lazydap_version@),
        ("protocol"@, text::decimal(report.protocol_version as nat)),
    ] + match report.session {
        None => seq![("session"@, "-"@)],
        Some(session) => seq![
            ("session_id"@, uuid_text(session.session_id.0)),
            ("adapter"@, adapter_text(session.adapter)),
            ("program"@, session.program@),
            ("state"@, session_state_text(session.state)),
            ("exit_code"@, dash_or(
                match session.exit_code {
                    Some(c) => Some(c as int),
                    None => None,
                },
            )),
            ("buffered_events"@, text::decimal(session.buffered_events as nat)),
            ("output_chunks"@, text::decimal(session.captured_output_chunks as nat)),
        ],
    }
}

/// `n` in decimal.
pub fn decimal_string(n: u64) -> (r: String)
    ensures
        r@ == text::decimal(n as nat),
{
    let mut r = String::new();
    text::push_decimal(&mut r, n);
    r
}

/// `n` in decimal, with a sign when it is negative.
pub fn signed_string(n: i64) -> (r: String)
    ensures
        r@ == text::signed_decimal(n as int),
{
    let mut r = String::new();
    text::push_signed(&mut r, n);
    r
}

/// A row of the label `key` and the value `value`.
fn row(key: &str, value: String) -> (r: (String, String))
    ensures
        r.0@ == key@,
        r.1@ == value@,
{
    (text::owned(key), value)
}

/// Appends the row `key`, `value`.
fn push_row(rows: &mut Vec<(String, String)>, key: &str, value: String)
    ensures
        rows_view(final(rows)@) == rows_view(old(rows)@).push((key@, value@)),
{
    let ghost before = rows_view(rows@);
    rows.push((text::owned(key), value));
    assert(rows_view(rows@) =~= before.push((key@, value@)));
}

/// The rows of the `status` table.
pub fn status_table_rows(report: &StatusReport) -> (r: Vec<(String, String)>)
    ensures
        rows_view(r@) == status_rows(*report),
{
    let mut r: Vec<(String, String)> = Vec::new();
    r.push(row("instance", report.instance.clone()));
    r.push(row("daemon_pid", decimal_string(report.daemon_pid as u64)));
    r.push(row("uptime_ms", decimal_string(report.uptime_ms)));
    r.push(row("version", report.lazydap_version.clone()));
    r.push(row("protocol", decimal_string(report.protocol_version as u64)));
    match &report.session {
        None => {
            r.push(row("session", text::owned("-")));
        },
        Some(session) => {
            r.push(row("session_id", session.session_id.to_string()));
            r.push(row("adapter", text::owned(session.adapter.as_str())));
            r.push(row("program", session.program.clone()));
            r.push(row("state", text::owned(session.state.as_str())));
            let exit_code = match session.exit_code {
                Some(c) => signed_string(c as i64),
                None => text::owned("-"),
            };
            r.push(row("exit_code", exit_code));
            r.push(row("buffered_events", decimal_string(session.buffered_events)));
            r.push(row("output_chunks", decimal_string(session.captured_output_chunks)));
        },
    }
    proof {
        reveal_strlit("-");
    }
    assert(rows_view(r@) =~= status_rows(*report));
    r
}

/// The `status` table.
pub fn render_status(report: &StatusReport) -> (r: String)
    ensures
        r@ == fields_text(status_rows(*report)),
{
    render_fields(&status_table_rows(report))
}

/// What a `--wait` answers: how the wait ended, and what happened on the
/// way.
#[derive(Debug, Clone, PartialEq, Eq)]
pub struct StableState {
    pub state: WaitOutcome,
    pub reason: Option<PauseReason>,
    /// The adapter's own word for the stop, when it is not ours.
    pub raw_reason: Option<String>,
    pub thread_id: Option<i64>,
    pub frame: Option<StackFrame>,
    pub exit_code: Option<i32>,
    pub hit_breakpoint_ids: Vec<BreakpointId>,
    /// Threads that stopped with the one reported.
    pub additional_stopped_threads: Vec<i64>,
    pub elapsed_ms: u64,
    /// What the program printed while it was waited on.
    pub captured_output: Vec<OutputChunk>,
    /// Whether more was printed than was kept.
    pub output_truncated: bool,
}

impl StableState {
    /// A wait that ended as `state`, with nothing else said yet.
    pub fn new(state: WaitOutcome) -> (r: StableState)
        ensures
            r.state == state,
            r.reason is None,
            r.raw_reason is None,
            r.thread_id is None,
            r.frame is None,
            r.exit_code is None,
            r.hit_breakpoint_ids@.len() == 0,
            r.additional_stopped_threads@.len() == 0,
            r.elapsed_ms == 0,
            r.captured_output@.len() == 0,
            !r.output_truncated,
    {
        StableState {
            state,
            reason: None,
            raw_reason: None,
            thread_id: None,
            frame: None,
            exit_code: None,
            hit_breakpoint_ids: Vec::new(),
            additional_stopped_threads: Vec::new(),
            elapsed_ms: 0,
            captured_output: Vec::new(),
            output_truncated: false,
        }
    }
}

/// A row only when there is something to put in it.
pub open spec fn row_if(present: bool, key: Seq<char>, value: Seq<char>) -> Seq<(Seq<char>, Seq<char>)> {
    if present {
        seq![(key, value)]
    } else {
        Seq::empty()
    }
}

/// The rows that say why a wait's program stopped, when it did.
pub open spec fn stop_rows(blob: StableState) -> Seq<(Seq<char>, Seq<char>)> {
    row_if(blob.reason is Some, "reason"@, pause_reason_text(blob.reason.unwrap())) + row_if(
        blob.raw_reason is Some,
        "raw_reason"@,
        blob.raw_reason.unwrap()@,
    ) + row_if(
        blob.thread_id is Some,
        "thread_id"@,
        text::signed_decimal(blob.thread_id.unwrap() as int),
    )
}

/// The rows that say where it is, or how it ended.
pub open spec fn place_rows(blob: StableState) -> Seq<(Seq<char>, Seq<char>)> {
    row_if(blob.frame is Some, "frame"@, frame_text(blob.frame.unwrap())) + row_if(
        blob.exit_code is Some,
        "exit_code"@,
        text::signed_decimal(blob.exit_code.unwrap() as int),
    )
}

/// The rows that name the breakpoints hit and the other threads stopped.
pub open spec fn hit_rows(blob: StableState) -> Seq<(Seq<char>, Seq<char>)> {
    row_if(
        blob.hit_breakpoint_ids@.len() > 0,
        "breakpoint"@,
        join_texts(blob.hit_breakpoint_ids@.map_values(|id: BreakpointId| text::decimal(id.0 as nat))),
    ) + row_if(
        blob.additional_stopped_threads@.len() > 0,
        "also_stopped"@,
        join_texts(blob.additional_stopped_threads@.map_values(|t: i64| text::signed_decimal(t as int))),
    )
}

/// The rows of a wait's table: the state first, then whichever of the
/// reason, the thread, the frame, the exit code, the breakpoints hit and the
/// other stopped threads there are, and the time it took last.
pub open spec fn stable_rows(blob: StableState) -> Seq<(Seq<char>, Seq<char>)> {
    seq![("state"@, wait_outcome_text(blob.state))] + stop_rows(blob) + place_rows(blob) + hit_rows(
        blob,
    ) + seq![("elapsed_ms"@, text::decimal(blob.elapsed_ms as nat))]
}

/// `str::trim_end`: without trailing whitespace.
pub open spec fn trim_end(s: Seq<char>) -> Seq<char> {
    s.take(s.len() - text::trailing_ws(s))
}

/// One captured chunk under the table: its category, then what it said.
pub open spec fn chunk_line(chunk: OutputChunk) -> Seq<char> {
    "\n  ["@ + output_category_text(chunk.category) + "] "@ + trim_end(chunk.output@)
}

pub open spec fn chunk_lines(chunks: Seq<OutputChunk>) -> Seq<char>
    decreases chunks.len(),
{
    if chunks.len() == 0 {
        Seq::empty()
    } else {
        chunk_lines(chunks.drop_last()) + chunk_line(chunks.last())
    }
}

/// The table for a wait: its rows, and under them the output that arrived
/// while it lasted, and whether some of it was dropped.
pub open spec fn stable_table(blob: StableState) -> Seq<char> {
    fields_text(stable_rows(blob)) + if blob.captured_output@.len() == 0 {
        Seq::empty()
    } else {
        "\n\noutput"@ + chunk_lines(blob.captured_output@) + if blob.output_truncated {
            "\n  ... (truncated)"@
        } else {
            Seq::empty()
        }
    }
}

/// Numbers with signs, joined the way a person reads a list.
fn join_signed(ns: &Vec<i64>) -> (r: String)
    ensures
        r@ == join_texts(ns@.map_values(|t: i64| text::signed_decimal(t as int))),
{
    let mut parts: Vec<String> = Vec::new();
    let mut i: usize = 0;
    while i < ns.len()
        invariant
            i <= ns@.len(),
            crate::launch::views(parts@) == ns@.take(i as int).map_values(
                |t: i64| text::signed_decimal(t as int),
            ),
        decreases ns.len() - i,
    {
        let ghost before = crate::launch::views(parts@);
        parts.push(signed_string(ns[i]));
        assert(crate::launch::views(parts@) =~= before.push(text::signed_decimal(ns@[i as int] as int)));
        assert(ns@.take(i + 1) =~= ns@.take(i as int).push(ns@[i as int]));
        i = i + 1;
        assert(crate::launch::views(parts@) =~= ns@.take(i as int).map_values(
            |t: i64| text::signed_decimal(t as int),
        ));
    }
    assert(ns@.take(ns@.len() as int) =~= ns@);
    let mut r = String::new();
    crate::launch::push_joined(&mut r, &parts);
    r
}

fn push_stop_rows(r: &mut Vec<(String, String)>, blob: &StableState)
    ensures
        rows_view(final(r)@) == rows_view(old(r)@) + stop_rows(*blob),
{
    let ghost e0 = rows_view(r@);
    if let Some(reason) = &blob.reason {
        push_row(r, "reason", text::owned(reason.as_str()));
    }
    let ghost e1 = e0 + row_if(blob.reason is Some, "reason"@, pause_reason_text(blob.reason.unwrap()));
    assert(rows_view(r@) =~= e1);
    if let Some(raw) = &blob.raw_reason {
        push_row(r, "raw_reason", raw.clone());
    }
    let ghost e2 = e1 + row_if(blob.raw_reason is Some, "raw_reason"@, blob.raw_reason.unwrap()@);
    assert(rows_view(r@) =~= e2);
    if let Some(t) = blob.thread_id {
        push_row(r, "thread_id", signed_string(t));
    }
    assert(rows_view(r@) =~= e0 + stop_rows(*blob));
}

fn push_place_rows(r: &mut Vec<(String, String)>, blob: &StableState)
    ensures
        rows_view(final(r)@) == rows_view(old(r)@) + place_rows(*blob),
{
    let ghost e0 = rows_view(r@);
    if let Some(frame) = &blob.frame {
        push_row(r, "frame", frame.to_string());
    }
    let ghost e1 = e0 + row_if(blob.frame is Some, "frame"@, frame_text(blob.frame.unwrap()));
    assert(rows_view(r@) =~= e1);
    if let Some(c) = blob.exit_code {
        push_row(r, "exit_code", signed_string(c as i64));
    }
    assert(rows_view(r@) =~= e0 + place_rows(*blob));
}

fn push_hit_rows(r: &mut Vec<(String, String)>, blob: &StableState)
    ensures
        rows_view(final(r)@) == rows_view(old(r)@) + hit_rows(*blob),
{
    let ghost e0 = rows_view(r@);
    if blob.hit_breakpoint_ids.len() > 0 {
        push_row(r, "breakpoint", join_ids(&blob.hit_breakpoint_ids));
    }
    let ghost e1 = e0 + row_if(
        blob.hit_breakpoint_ids@.len() > 0,
        "breakpoint"@,
        join_texts(blob.hit_breakpoint_ids@.map_values(|id: BreakpointId| text::decimal(id.0 as nat))),
    );
    assert(rows_view(r@) =~= e1);
    if blob.additional_stopped_threads.len() > 0 {
        push_row(r, "also_stopped", join_signed(&blob.additional_stopped_threads));
    }
    assert(rows_view(r@) =~= e0 + hit_rows(*blob));
}

/// The rows of a wait's table.
pub fn stable_table_rows(blob: &StableState) -> (r: Vec<(String, String)>)
    ensures
        rows_view(r@) == stable_rows(*blob),
{
    let mut r: Vec<(String, String)> = Vec::new();
    push_row(&mut r, "state", text::owned(blob.state.as_str()));
    push_stop_rows(&mut r, blob);
    push_place_rows(&mut r, blob);
    push_hit_rows(&mut r, blob);
    push_row(&mut r, "elapsed_ms", decimal_string(blob.elapsed_ms));
    assert(rows_view(r@) =~= stable_rows(*blob));
    r
}

/// `s` without its trailing whitespace.
pub fn trimmed_end(s: &str) -> (r: String)
    ensures
        r@ == trim_end(s@),
{
    let v = text::chars_of(s);
    let mut b: usize = v.len();
    assert(v@.subrange(0, v@.len() as int) =~= s@);
    while b > 0 && text::is_ws_char(v[b - 1])
        invariant
            b <= v@.len(),
            v@ == s@,
            text::trailing_ws(s@) == (v@.len() - b) + text::trailing_ws(v@.subrange(0, b as int)),
        decreases b,
    {
        let ghost u = v@.subrange(0, b as int);
        assert(u.last() == v@[b - 1]);
        assert(u.drop_last() =~= v@.subrange(0, b - 1));
        b = b - 1;
    }
    assert(v@.subrange(0, v@.len() as int) =~= v@);
    assert(text::trailing_ws(v@.subrange(0, b as int)) == 0);
    assert(s@.take(s@.len() - text::trailing_ws(s@)) =~= v@.subrange(0, b as int));
    text::string_of_range(&v, 0, b)
}

/// The table printed for a `--wait`.
pub fn stable_state_table(blob: &StableState) -> (r: String)
    ensures
        r@ == stable_table(*blob),
{
    let mut r = render_fields(&stable_table_rows(blob));
    if blob.captured_output.len() > 0 {
        let ghost head = r@;
        text::push_str(&mut r, "\n\noutput");
        let ghost start = r@;
        let mut i: usize = 0;
        while i < blob.captured_output.len()
            invariant
                i <= blob.captured_output@.len(),
                r@ == start + chunk_lines(blob.captured_output@.take(i as int)),
            decreases blob.captured_output.len() - i,
        {
            let chunk = &blob.captured_output[i];
            text::push_str(&mut r, "\n  [");
            text::push_str(&mut r, chunk.category.as_str());
            text::push_str(&mut r, "] ");
            text::push_str(&mut r, trimmed_end(chunk.output.as_str()).as_str());
            assert(blob.captured_output@.take(i + 1).drop_last() =~= blob.captured_output@.take(i as int));
            i = i + 1;
            assert(r@ =~= start + chunk_lines(blob.captured_output@.take(i as int)));
        }
        assert(blob.captured_output@.take(blob.captured_output@.len() as int) =~= blob.captured_output@);
        if blob.output_truncated {
            text::push_str(&mut r, "\n  ... (truncated)");
        }
        assert(r@ =~= stable_table(*blob));
    } else {
        assert(r@ =~= stable_table(*blob));
    }
    r
}

/// A number that may be missing, or `-`.
fn dash_or_signed(value: Option<i64>) -> (r: String)
    ensures
        r@ == dash_or(
            match value {
                Some(n) => Some(n as int),
                None => None,
            },
        ),
{
    proof {
        reveal_strlit("-");
    }
    match value {
        Some(n) => signed_string(n),
        None => text::owned("-"),
    }
}

/// The rows of the table a launch prints: the new session, where it
/// settled, why, on which thread, and how many breakpoints went with it.
pub open spec fn launched_rows(
    session_id: SessionId,
    state: SessionState,
    reason: Option<PauseReason>,
    thread_id: Option<i64>,
    breakpoints: nat,
) -> Seq<(Seq<char>, Seq<char>)> {
    seq![
        ("session_id"@, uuid_text(session_id.0)),
        ("state"@, session_state_text(state)),
        ("reason"@, match reason {
            Some(r) => pause_reason_text(r),
            None => "-"@,
        }),
        ("thread_id"@, dash_or(
            match thread_id {
                Some(t) => Some(t as int),
                None => None,
            },
        )),
        ("breakpoints"@, text::decimal(breakpoints)),
    ]
}

/// The table a launch prints.
pub fn launched_table(
    session_id: SessionId,
    state: SessionState,
    reason: &Option<PauseReason>,
    thread_id: Option<i64>,
    breakpoints: usize,
) -> (r: String)
    ensures
        r@ == fields_text(launched_rows(session_id, state, *reason, thread_id, breakpoints as nat)),
{
    let mut rows: Vec<(String, String)> = Vec::new();
    push_row(&mut rows, "session_id", session_id.to_string());
    push_row(&mut rows, "state", text::owned(state.as_str()));
    let why = match reason {
        Some(r) => text::owned(r.as_str()),
        None => text::owned("-"),
    };
    proof {
        reveal_strlit("-");
    }
    push_row(&mut rows, "reason", why);
    push_row(&mut rows, "thread_id", dash_or_signed(thread_id));
    push_row(&mut rows, "breakpoints", decimal_string(breakpoints as u64));
    assert(rows_view(rows@) =~= launched_rows(session_id, state, *reason, thread_id, breakpoints as nat));
    render_fields(&rows)
}

/// What a movement that did not wait prints: the program is running.
pub fn running_line(thread_id: Option<i64>) -> (r: String)
    ensures
        r@ == "running (thread "@ + dash_or(
            match thread_id {
                Some(t) => Some(t as int),
                None => None,
            },
        ) + ")"@,
{
    let mut r = text::owned("running (thread ");
    text::push_str(&mut r, dash_or_signed(thread_id).as_str());
    text::push_str(&mut r, ")");
    r
}

/// One row of a list: the id `--format ids` prints, and the cells of the
/// table, one per column.
#[derive(Debug, Clone, PartialEq, Eq)]
pub struct ListRow {
    pub id: String,
    pub cells: Vec<String>,
}

/// The row's id and cells, as text.
pub open spec fn list_row_view(row: ListRow) -> (Seq<char>, Seq<Seq<char>>) {
    (row.id@, crate::launch::views(row.cells@))
}

pub open spec fn bool_text(b: bool) -> Seq<char> {
    if b {
        "true"@
    } else {
        "false"@
    }
}

/// A frame in the `stack` list: its id, its name, where its code is (`-`
/// for a frame with no source), and its line.
pub open spec fn frame_row(frame: StackFrame) -> (Seq<char>, Seq<Seq<char>>) {
    let id = text::signed_decimal(frame.id as int);
    (
        id,
        seq![
            id,
            frame.name@,
            match frame.source {
                Some(source) => source_label(source),
                None => "-"@,
            },
            text::decimal(frame.line as nat),
        ],
    )
}

/// A scope in the `scopes` list, whose id is its reference: that is what
/// the next command needs, not its name.
pub open spec fn scope_row(scope: Scope) -> (Seq<char>, Seq<Seq<char>>) {
    let reference = text::signed_decimal(scope.variables_reference as int);
    (reference, seq![scope.name@, reference, bool_text(scope.expensive)])
}

/// A variable in the `variables` list, whose id is its own reference, so
/// `--format ids` feeds the next `lazydap variables`; a scalar's is `0`.
pub open spec fn variable_row(variable: Variable) -> (Seq<char>, Seq<Seq<char>>) {
    let reference = text::signed_decimal(variable.variables_reference as int);
    (
        reference,
        seq![
            variable.name@,
            variable.value@,
            match variable.value_type {
                Some(t) => t@,
                None => "-"@,
            },
            reference,
        ],
    )
}

/// A thread in the `threads` list: its id and the name the adapter gave it.
pub open spec fn thread_row(thread: ThreadInfo) -> (Seq<char>, Seq<Seq<char>>) {
    let id = text::signed_decimal(thread.id as int);
    (id, seq![id, thread.name@])
}

/// A chunk in the `output` list: when, which stream, and what, without its
/// trailing whitespace.
pub open spec fn chunk_row(chunk: OutputChunk) -> (Seq<char>, Seq<Seq<char>>) {
    let at = text::decimal(chunk.timestamp_ms as nat);
    (at, seq![at, output_category_text(chunk.category), trim_end(chunk.output@)])
}

/// A breakpoint in the `break` list: its id, where it is (the source as
/// shown, and the line the debugger will stop on), whether it is enabled,
/// whether a session has bound it, and its condition (`-` for none).
pub open spec fn breakpoint_row(status: BreakpointStatus, shown_source: Seq<char>) -> (Seq<char>, Seq<Seq<char>>) {
    let id = text::decimal(status.breakpoint.id.0 as nat);
    (
        id,
        seq![
            id,
            shown_source + seq![':'] + text::decimal(effective(status) as nat),
            bool_text(status.breakpoint.enabled),
            bool_text(status.verified),
            match status.breakpoint.condition {
                Some(c) => c@,
                None => "-"@,
            },
        ],
    )
}

/// A watch in the `watch` list: its id, its expression, its label.
pub open spec fn watch_row(watch: Watch) -> (Seq<char>, Seq<Seq<char>>) {
    let id = text::decimal(watch.id.0 as nat);
    (
        id,
        seq![
            id,
            watch.expression@,
            match watch.label {
                Some(l) => l@,
                None => "-"@,
            },
        ],
    )
}

/// A configuration in the `launches` list, whose id is its name: where it
/// came from, what the file calls its adapter, launch or attach, its
/// program, and whether lazydap can run it.
pub open spec fn launch_row(config: LaunchConfig) -> (Seq<char>, Seq<Seq<char>>) {
    (
        config.name@,
        seq![
            config.name@,
            source_text(config.source),
            config.adapter_type@,
            crate::launch::launch_kind_text(config.kind),
            match config.program {
                Some(p) => p@,
                None => "-"@,
            },
            match runnable(config) {
                Ok(_) => "yes"@,
                Err(reason) => "no ("@ + crate::launch::not_runnable_view_text(reason) + seq![')'],
            },
        ],
    )
}

/// `true` or `false`.
pub fn bool_string(b: bool) -> (r: String)
    ensures
        r@ == bool_text(b),
{
    if b {
        text::owned("true")
    } else {
        text::owned("false")
    }
}

/// The columns of each list.
pub const FRAME_COLUMNS: [&'static str; 4] = ["frame", "name", "source", "line"];

pub const SCOPE_COLUMNS: [&'static str; 3] = ["name", "reference", "expensive"];

pub const VARIABLE_COLUMNS: [&'static str; 4] = ["name", "value", "type", "reference"];

pub const THREAD_COLUMNS: [&'static str; 2] = ["id", "name"];

pub const CHUNK_COLUMNS: [&'static str; 3] = ["timestamp_ms", "category", "output"];

pub const BREAKPOINT_COLUMNS: [&'static str; 5] = ["id", "location", "enabled", "verified", "condition"];

pub const WATCH_COLUMNS: [&'static str; 3] = ["id", "expression", "label"];

pub const LAUNCH_COLUMNS: [&'static str; 6] = ["name", "source", "type", "request", "program", "runnable"];

impl ListRow {
    /// A frame's row.
    pub fn of_frame(frame: &StackFrame) -> (r: ListRow)
        ensures
            list_row_view(r) == frame_row(*frame),
    {
        let source = match &frame.source {
            Some(source) => source.label(),
            None => text::owned("-"),
        };
        proof {
            reveal_strlit("-");
        }
        let cells = vec![
            signed_string(frame.id),
            frame.name.clone(),
            source,
            decimal_string(frame.line as u64),
        ];
        let r = ListRow { id: signed_string(frame.id), cells };
        assert(list_row_view(r).1 =~= frame_row(*frame).1);
        r
    }

    /// A scope's row.
    pub fn of_scope(scope: &Scope) -> (r: ListRow)
        ensures
            list_row_view(r) == scope_row(*scope),
    {
        let cells = vec![
            scope.name.clone(),
            signed_string(scope.variables_reference),
            bool_string(scope.expensive),
        ];
        let r = ListRow { id: signed_string(scope.variables_reference), cells };
        assert(list_row_view(r).1 =~= scope_row(*scope).1);
        r
    }

    /// A variable's row.
    pub fn of_variable(variable: &Variable) -> (r: ListRow)
        ensures
            list_row_view(r) == variable_row(*variable),
    {
        let value_type = match &variable.value_type {
            Some(t) => t.clone(),
            None => text::owned("-"),
        };
        proof {
            reveal_strlit("-");
        }
        let cells = vec![
            variable.name.clone(),
            variable.value.clone(),
            value_type,
            signed_string(variable.variables_reference),
        ];
        let r = ListRow { id: signed_string(variable.variables_reference), cells };
        assert(list_row_view(r).1 =~= variable_row(*variable).1);
        r
    }

    /// A thread's row.
    pub fn of_thread(thread: &ThreadInfo) -> (r: ListRow)
        ensures
            list_row_view(r) == thread_row(*thread),
    {
        let cells = vec![signed_string(thread.id), thread.name.clone()];
        let r = ListRow { id: signed_string(thread.id), cells };
        assert(list_row_view(r).1 =~= thread_row(*thread).1);
        r
    }

    /// A breakpoint's row, its source shown as `shown_source`: relative to
    /// the working directory when that is shorter.
    pub fn of_breakpoint(status: &BreakpointStatus, shown_source: &str) -> (r: ListRow)
        ensures
            list_row_view(r) == breakpoint_row(*status, shown_source@),
    {
        let mut location = text::owned(shown_source);
        text::push_char(&mut location, ':');
        let line = status.effective_line();
        text::push_decimal(&mut location, line as u64);
        assert(location@ =~= shown_source@ + seq![':'] + text::decimal(effective(*status) as nat));
        let condition = match &status.breakpoint.condition {
            Some(c) => c.clone(),
            None => text::owned("-"),
        };
        proof {
            reveal_strlit("-");
        }
        let cells = vec![
            decimal_string(status.breakpoint.id.0 as u64),
            location,
            bool_string(status.breakpoint.enabled),
            bool_string(status.verified),
            condition,
        ];
        let r = ListRow { id: decimal_string(status.breakpoint.id.0 as u64), cells };
        assert(list_row_view(r).1 =~= breakpoint_row(*status, shown_source@).1);
        r
    }

    /// A watch's row.
    pub fn of_watch(watch: &Watch) -> (r: ListRow)
        ensures
            list_row_view(r) == watch_row(*watch),
    {
        let label = match &watch.label {
            Some(l) => l.clone(),
            None => text::owned("-"),
        };
        proof {
            reveal_strlit("-");
        }
        let cells = vec![decimal_string(watch.id.0 as u64), watch.expression.clone(), label];
        let r = ListRow { id: decimal_string(watch.id.0 as u64), cells };
        assert(list_row_view(r).1 =~= watch_row(*watch).1);
        r
    }

    /// A launch configuration's row; its `runnable` cell is the answer
    /// `launches run` acts on.
    pub fn of_launch(config: &LaunchConfig) -> (r: ListRow)
        ensures
            list_row_view(r) == launch_row(*config),
    {
        let program = match &config.program {
            Some(p) => p.clone(),
            None => text::owned("-"),
        };
        proof {
            reveal_strlit("-");
        }
        let cells = vec![
            config.name.clone(),
            text::owned(config.source.as_str()),
            config.adapter_type.clone(),
            text::owned(config.kind.as_str()),
            program,
            crate::launches::runnable_cell(config),
        ];
        let r = ListRow { id: config.name.clone(), cells };
        assert(list_row_view(r).1 =~= launch_row(*config).1);
        r
    }

    /// A captured chunk's row.
    pub fn of_chunk(chunk: &OutputChunk) -> (r: ListRow)
        ensures
            list_row_view(r) == chunk_row(*chunk),
    {
        let cells = vec![
            decimal_string(chunk.timestamp_ms),
            text::owned(chunk.category.as_str()),
            trimmed_end(chunk.output.as_str()),
        ];
        let r = ListRow { id: decimal_string(chunk.timestamp_ms), cells };
        assert(list_row_view(r).1 =~= chunk_row(*chunk).1);
        r
    }
}

/// What `eval` prints: the value, and its type in brackets when the adapter
/// named one.
pub fn eval_line(result: &EvalResult) -> (r: String)
    ensures
        r@ == (match result.value_type {
            Some(t) => result.value@ + " ("@ + t@ + ")"@,
            None => result.value@,
        }),
{
    match &result.value_type {
        Some(t) => {
            let mut r = result.value.clone();
            text::push_str(&mut r, " (");
            text::push_str(&mut r, t.as_str());
            text::push_str(&mut r, ")");
            r
        },
        None => result.value.clone(),
    }
}

/// The warning printed beside a variables list the cap cut short: where the
/// next page starts, and how to have them all. A partial list that looks
/// complete is the thing the cap must not create.
pub fn capped_warning(start: Option<u32>, shown: usize) -> (r: String)
    requires
        (match start {
            Some(s) => s as int,
            None => 0int,
        }) + shown <= usize::MAX,
    ensures
        r@ == "warning: more variables than the cap; showing a prefix. Use `--start "@
            + text::decimal(
            ((match start {
                Some(s) => s as int,
                None => 0int,
            }) + shown) as nat,
        ) + "` for the next page, or `--max 0` for all of them"@,
{
    let first: usize = match start {
        Some(s) => s as usize,
        None => 0,
    };
    let next: usize = first + shown;
    let mut r = text::owned("warning: more variables than the cap; showing a prefix. Use `--start ");
    text::push_decimal(&mut r, next as u64);
    text::push_str(&mut r, "` for the next page, or `--max 0` for all of them");
    r
}

/// The warning printed beside an output list when events were dropped
/// before anybody read them: a partial transcript that looks complete is
/// worse than none.
pub fn dropped_warning(dropped: u64) -> (r: String)
    ensures
        r@ == "warning: "@ + text::decimal(dropped as nat)
            + " event(s) were dropped before anybody read them"@,
{
    let mut r = text::owned("warning: ");
    text::push_decimal(&mut r, dropped);
    text::push_str(&mut r, " event(s) were dropped before anybody read them");
    r
}

} // verus!
