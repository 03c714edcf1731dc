//! What one debug adapter does differently from another: how to start it,
//! what to call ourselves, and the places each reports something in its own
//! words rather than the specification's.
use vstd::prelude::*;

use crate::errors::{text_detail, text_entry, texts_detail, texts_entry, Detail, ErrorCode};
use crate::launch::views;
use crate::launch_json::go_source;
use crate::session::{adapter_text, pause_reason_of, AdapterKind, PauseReason};
use crate::text;

verus! {

/// What was asked for before a stop arrived, which is the only thing that
/// tells codelldb's two kinds of `SIGSTOP` stop apart.
#[derive(Debug, Clone, Copy, PartialEq, Eq, Structural)]
pub struct StopContext {
    /// A `--stop-on-entry` launch has not stopped yet.
    pub stop_on_entry: bool,
    /// A `pause` is outstanding.
    pub pause_requested: bool,
}

impl Default for StopContext {
    fn default() -> (r: StopContext)
        ensures
            !r.stop_on_entry,
            !r.pause_requested,
    {
        StopContext { stop_on_entry: false, pause_requested: false }
    }
}

/// Which of its output streams an adapter announces its port on.
#[derive(Debug, Clone, Copy, PartialEq, Eq, Structural)]
pub enum AdapterStream {
    Stdout,
    Stderr,
}

/// How to start an adapter and reach it once it is running.
#[derive(Debug, Clone, PartialEq, Eq)]
pub enum Spawn {
    /// Start it and connect to the TCP port it announces, on `stream`,
    /// right after `marker`.
    Tcp {
        program: String,
        args: Vec<String>,
        env: Vec<(String, String)>,
        stream: AdapterStream,
        marker: &'static str,
    },
    /// Start it and speak DAP over its own stdin and stdout.
    Stdio { program: String, args: Vec<String> },
}

/// Whether `r` is what `PauseReason::from` makes of `raw`.
pub open spec fn reason_of(r: PauseReason, raw: Seq<char>) -> bool {
    match pause_reason_of(raw) {
        Some(known) => r == known,
        None => r matches PauseReason::Other(s) && s@ == raw,
    }
}

/// A stop taken at the adapter's word, with nothing renamed.
pub open spec fn taken_as_said(r: (PauseReason, Option<String>), raw: Seq<char>) -> bool {
    reason_of(r.0, raw) && r.1 is None
}

/// codelldb's reading of a stop. It stops a program by sending it `SIGSTOP`,
/// which LLDB classifies as an exception, so both a pause and an entry stop
/// arrive as `exception`. Such a stop is renamed to what was asked for — the
/// pause first — and the adapter's own word kept; a real exception, or a
/// `SIGSTOP` nobody asked for, passes through untouched.
pub open spec fn codelldb_stop(
    r: (PauseReason, Option<String>),
    raw: Seq<char>,
    description: Seq<char>,
    context: StopContext,
) -> bool {
    let signal = pause_reason_of(raw) == Some(PauseReason::Exception) && text::contains_seq(
        description,
        "SIGSTOP"@,
    );
    if signal && context.pause_requested {
        r.0 == PauseReason::Pause && (r.1 matches Some(s) && s@ == raw)
    } else if signal && context.stop_on_entry {
        r.0 == PauseReason::Entry && (r.1 matches Some(s) && s@ == raw)
    } else {
        taken_as_said(r, raw)
    }
}

/// Whether a successful `evaluate` result is codelldb's way of reporting a
/// failure: wrapped in angle brackets, and inside them either opening with
/// `error:` or saying something `failed`.
pub open spec fn hidden_error(value: Seq<char>) -> bool {
    &&& value.len() >= 2
    &&& value[0] == '<'
    &&& value.last() == '>'
    &&& ({
        let inner = value.subrange(1, value.len() - 1);
        text::starts_with(inner, "error:"@) || text::contains_seq(inner, " failed"@)
    })
}

/// The first whitespace position in `s` at or after `from`.
pub open spec fn first_ws(s: Seq<char>, from: int) -> Option<int>
    decreases s.len() - from,
{
    if from < 0 || from >= s.len() {
        None
    } else if text::is_ws(s[from]) {
        Some(from)
    } else {
        first_ws(s, from + 1)
    }
}

/// The pid in the line codelldb prints when it starts the debuggee:
/// `Launched process <pid> from '<program>'`.
pub open spec fn launched_pid(output: Seq<char>) -> Option<u32> {
    let prefix = "Launched process "@;
    if text::starts_with(output, prefix) {
        let rest = output.skip(prefix.len() as int);
        match first_ws(rest, 0) {
            Some(k) => text::parse_u32(rest.take(k)),
            None => None,
        }
    } else {
        None
    }
}

fn stop_signal(raw: &str, description: &str, reason: &PauseReason) -> (r: bool)
    requires
        reason_of(*reason, raw@),
    ensures
        r == (pause_reason_of(raw@) == Some(PauseReason::Exception) && text::contains_seq(
            description@,
            "SIGSTOP"@,
        )),
{
    let is_exception = match reason {
        PauseReason::Exception => true,
        _ => false,
    };
    if !is_exception {
        return false;
    }
    let d = text::chars_of(description);
    let pat = text::chars_of("SIGSTOP");
    text::contains_exec(&d, &pat)
}

/// codelldb: C, C++, Rust, anything with DWARF. Reached over TCP, stops
/// on entry with a signal, and never sends the `process` event.
pub struct CodeLldb;

/// debugpy: Python. A module of an interpreter, spoken to over stdio.
pub struct Debugpy;

/// delve: Go. Reached over TCP on a port it announces on stdout.
pub struct Delve;

impl CodeLldb {
    pub fn kind(&self) -> (r: AdapterKind)
        ensures
            r == AdapterKind::Codelldb,
    {
        AdapterKind::Codelldb
    }

    /// `<codelldb> --port 0` with `RUST_LOG=debug`: the port is the one it
    /// chose, announced on stderr after `Listening on `, which it only logs
    /// at debug level.
    pub fn spawn(&self, command: &str) -> (r: Spawn)
        ensures
            r matches Spawn::Tcp { program, args, env, stream, marker } && program@ == command@
                && views(args@) == seq!["--port"@, "0"@] && env@.len() == 1 && env@[0].0@
                == "RUST_LOG"@ && env@[0].1@ == "debug"@ && stream == AdapterStream::Stderr
                && marker@ == "Listening on "@,
    {
        let mut args = Vec::new();
        args.push(text::owned("--port"));
        args.push(text::owned("0"));
        let mut env = Vec::new();
        env.push((text::owned("RUST_LOG"), text::owned("debug")));
        let ghost a = views(args@);
        assert(a =~= seq!["--port"@, "0"@]);
        Spawn::Tcp {
            program: text::owned(command),
            args,
            env,
            stream: AdapterStream::Stderr,
            marker: "Listening on ",
        }
    }

    /// What goes in `initialize`'s `adapterID`.
    pub fn adapter_id(&self) -> (r: &'static str)
        ensures
            r@ == "lldb"@,
    {
        "lldb"
    }

    /// What lazydap calls a stop, and what codelldb called it if those
    /// differ.
    pub fn normalise_stop(&self, raw: &str, description: &str, context: StopContext) -> (r: (
        PauseReason,
        Option<String>,
    ))
        ensures
            codelldb_stop(r, raw@, description@, context),
    {
        let reason = PauseReason::from(raw);
        if !stop_signal(raw, description, &reason) {
            return (reason, None);
        }
        if context.pause_requested {
            (PauseReason::Pause, Some(text::owned(raw)))
        } else if context.stop_on_entry {
            (PauseReason::Entry, Some(text::owned(raw)))
        } else {
            (reason, None)
        }
    }

    /// Whether an `evaluate` result is an error codelldb reported as a value.
    pub fn is_eval_error(&self, value: &str) -> (r: bool)
        ensures
            r == hidden_error(value@),
    {
        let v = text::chars_of(value);
        let n = v.len();
        if n < 2 || v[0] != '<' || v[n - 1] != '>' {
            return false;
        }
        let inner = text::string_of_range(&v, 1, n - 1);
        let iv = text::chars_of(inner.as_str());
        let err = text::chars_of("error:");
        let failed = text::chars_of(" failed");
        text::starts_with_exec(&iv, &err) || text::contains_exec(&iv, &failed)
    }

    /// The debuggee's pid, read from the line codelldb prints when it starts
    /// one, since it sends no `process` event.
    pub fn debuggee_pid_in(&self, output: &str) -> (r: Option<u32>)
        ensures
            r == launched_pid(output@),
    {
        let v = text::chars_of(output);
        let prefix = text::chars_of("Launched process ");
        if !text::starts_with_exec(&v, &prefix) {
            return None;
        }
        let start = prefix.len();
        let ghost rest = output@.skip(start as int);
        let mut k = start;
        while k < v.len() && !text::is_ws_char(v[k])
            invariant
                start <= k <= v@.len(),
                v@ == output@,
                rest == output@.skip(start as int),
                first_ws(rest, 0) == first_ws(rest, k - start),
            decreases v.len() - k,
        {
            assert(rest[k - start] == v@[k as int]);
            k = k + 1;
        }
        if k == v.len() {
            return None;
        }
        assert(rest[k - start] == v@[k as int]);
        assert(v@.subrange(start as int, k as int) =~= rest.take(k - start));
        text::parse_u32_range(&v, start, k)
    }
}

impl Debugpy {
    pub fn kind(&self) -> (r: AdapterKind)
        ensures
            r == AdapterKind::Debugpy,
    {
        AdapterKind::Debugpy
    }

    /// `<python> -m debugpy.adapter`, over the child's own stdin and stdout:
    /// the command is an interpreter that can import the module.
    pub fn spawn(&self, command: &str) -> (r: Spawn)
        ensures
            r matches Spawn::Stdio { program, args } && program@ == command@ && views(args@)
                == seq!["-m"@, "debugpy.adapter"@],
    {
        let mut args = Vec::new();
        args.push(text::owned("-m"));
        args.push(text::owned("debugpy.adapter"));
        let ghost a = views(args@);
        assert(a =~= seq!["-m"@, "debugpy.adapter"@]);
        Spawn::Stdio { program: text::owned(command), args }
    }

    pub fn adapter_id(&self) -> (r: &'static str)
        ensures
            r@ == "debugpy"@,
    {
        "debugpy"
    }

    /// debugpy follows the specification: its word is taken as said.
    pub fn normalise_stop(&self, raw: &str, description: &str, context: StopContext) -> (r: (
        PauseReason,
        Option<String>,
    ))
        ensures
            taken_as_said(r, raw@),
    {
        (PauseReason::from(raw), None)
    }

    /// debugpy sends the `process` event, so nothing is read out of console
    /// text.
    pub fn debuggee_pid_in(&self, output: &str) -> (r: Option<u32>)
        ensures
            r is None,
    {
        None
    }
}

/// Whether delve should build `program` (a `.go` source) or run it as the
/// binary it already is.
pub open spec fn delve_mode(program: Seq<char>) -> Seq<char> {
    if go_source(program) {
        "debug"@
    } else {
        "exec"@
    }
}

impl Delve {
    pub fn kind(&self) -> (r: AdapterKind)
        ensures
            r == AdapterKind::Delve,
    {
        AdapterKind::Delve
    }

    /// `dlv dap --listen=127.0.0.1:0`: a port the system chose, on the
    /// loopback interface only, announced on stdout after `listening at: `.
    pub fn spawn(&self, command: &str) -> (r: Spawn)
        ensures
            r matches Spawn::Tcp { program, args, env, stream, marker } && program@ == command@
                && views(args@) == seq!["dap"@, "--listen=127.0.0.1:0"@] && env@.len() == 0
                && stream == AdapterStream::Stdout && marker@ == "listening at: "@,
    {
        let mut args = Vec::new();
        args.push(text::owned("dap"));
        args.push(text::owned("--listen=127.0.0.1:0"));
        let ghost a = views(args@);
        assert(a =~= seq!["dap"@, "--listen=127.0.0.1:0"@]);
        Spawn::Tcp {
            program: text::owned(command),
            args,
            env: Vec::new(),
            stream: AdapterStream::Stdout,
            marker: "listening at: ",
        }
    }

    pub fn adapter_id(&self) -> (r: &'static str)
        ensures
            r@ == "go"@,
    {
        "go"
    }

    /// delve follows the specification: its word is taken as said.
    pub fn normalise_stop(&self, raw: &str, description: &str, context: StopContext) -> (r: (
        PauseReason,
        Option<String>,
    ))
        ensures
            taken_as_said(r, raw@),
    {
        (PauseReason::from(raw), None)
    }

    /// delve sends the `process` event, so nothing is read out of console
    /// text.
    pub fn debuggee_pid_in(&self, output: &str) -> (r: Option<u32>)
        ensures
            r is None,
    {
        None
    }
}

/// delve's `mode` for a program: `debug` for a `.go` source, `exec` for
/// anything else.
pub fn launch_mode(program: &str) -> (r: &'static str)
    ensures
        r@ == delve_mode(program@),
{
    proof {
        reveal_strlit("go");
    }
    match crate::pathname::path_extension(program) {
        Some(ext) => {
            assert("go"@ =~= seq!['g', 'o']);
            if text::str_eq(ext.as_str(), "go") {
                "debug"
            } else {
                "exec"
            }
        },
        None => "exec",
    }
}

/// The stop as the adapter of `kind` reads it.
pub fn normalise_stop(kind: AdapterKind, raw: &str, description: &str, context: StopContext) -> (r:
    (PauseReason, Option<String>))
    ensures
        match kind {
            AdapterKind::Codelldb => codelldb_stop(r, raw@, description@, context),
            _ => taken_as_said(r, raw@),
        },
{
    match kind {
        AdapterKind::Codelldb => CodeLldb.normalise_stop(raw, description, context),
        AdapterKind::Debugpy => Debugpy.normalise_stop(raw, description, context),
        AdapterKind::Delve => Delve.normalise_stop(raw, description, context),
    }
}

/// The pid in console output, for an adapter that only says it there.
pub open spec fn debuggee_pid_in_spec(kind: AdapterKind, output: Seq<char>) -> Option<u32> {
    match kind {
        AdapterKind::Codelldb => launched_pid(output),
        _ => None,
    }
}

/// The debuggee's pid, if the adapter of `kind` only says it in console
/// output.
pub fn debuggee_pid_in(kind: AdapterKind, output: &str) -> (r: Option<u32>)
    ensures
        r == debuggee_pid_in_spec(kind, output@),
{
    match kind {
        AdapterKind::Codelldb => CodeLldb.debuggee_pid_in(output),
        AdapterKind::Debugpy => Debugpy.debuggee_pid_in(output),
        AdapterKind::Delve => Delve.debuggee_pid_in(output),
    }
}

/// Which config file pinned an adapter binary.
pub const PIN_USER_CONFIG: &'static str = "lazydap's config";

pub const PIN_LAUNCH_CONFIG: &'static str = "the launch configuration";

/// Why an adapter could not be started or could not answer.
#[derive(Debug, Clone, PartialEq, Eq)]
pub enum AdapterError {
    NotFound { adapter: AdapterKind, searched: Vec<String> },
    ConfiguredAdapterMissing { adapter: AdapterKind, path: String, pinned_by: &'static str },
    /// Found, and cannot do the job: an interpreter without the module.
    Incomplete { adapter: AdapterKind, path: String, problem: String, hint: String },
    Config { message: String },
    Gone,
    Timeout { command: String, timeout_secs: u64 },
    Rejected { command: String, message: String },
    Malformed { command: String, message: String },
    Transport(String),
}

pub open spec fn adapter_error_text(e: AdapterError) -> Seq<char> {
    match e {
        AdapterError::NotFound { adapter, .. } => "no "@ + adapter_text(adapter)
            + " binary found on PATH"@,
        AdapterError::ConfiguredAdapterMissing { adapter, path, pinned_by } => adapter_text(adapter)
            + " is pinned to "@ + path@ + " by "@ + pinned_by@ + ", and that is not an executable"@,
        AdapterError::Incomplete { adapter, path, problem, hint } => path@ + " cannot act as "@
            + adapter_text(adapter) + ": "@ + problem@ + " — "@ + hint@,
        AdapterError::Config { message } => "cannot read lazydap's config: "@ + message@,
        AdapterError::Gone => "the adapter is no longer running"@,
        AdapterError::Timeout { command, timeout_secs } => "the adapter did not answer `"@
            + command@ + "` within "@ + text::decimal(timeout_secs as nat) + "s"@,
        AdapterError::Rejected { command, message } => "the adapter rejected `"@ + command@
            + "`: "@ + message@,
        AdapterError::Malformed { command, message } => "the adapter's `"@ + command@
            + "` answer was not the shape DAP describes: "@ + message@,
        AdapterError::Transport(message) => "dap transport: "@ + message@,
    }
}

/// The code a client sees for an adapter failure. A missing binary is never
/// a generic internal error: every way of having no usable adapter is
/// `AdapterNotFound`, and a broken config file is the launch configuration's
/// problem, since the adapter was never looked for.
pub open spec fn adapter_error_code(e: AdapterError) -> ErrorCode {
    match e {
        AdapterError::NotFound { .. } => ErrorCode::AdapterNotFound,
        AdapterError::ConfiguredAdapterMissing { .. } => ErrorCode::AdapterNotFound,
        AdapterError::Incomplete { .. } => ErrorCode::AdapterNotFound,
        AdapterError::Config { .. } => ErrorCode::InvalidLaunchConfig,
        AdapterError::Gone => ErrorCode::AdapterCrashed,
        AdapterError::Timeout { .. } => ErrorCode::AdapterTimeout,
        AdapterError::Rejected { .. } => ErrorCode::DapProtocolError,
        AdapterError::Malformed { .. } => ErrorCode::DapProtocolError,
        AdapterError::Transport(_) => ErrorCode::AdapterCrashed,
    }
}

/// The message a client sees: the error's own text, except that a broken
/// config file says only what is wrong with it and a vanished adapter says
/// that it exited.
pub open spec fn adapter_error_message(e: AdapterError) -> Seq<char> {
    match e {
        AdapterError::Config { message } => message@,
        AdapterError::Gone => "the adapter exited"@,
        _ => adapter_error_text(e),
    }
}

/// The details a client sees for an adapter failure: which adapter and
/// where it was looked for or found, or which request it failed.
pub open spec fn adapter_error_details(e: AdapterError, d: Seq<(String, Detail)>) -> bool {
    match e {
        AdapterError::NotFound { adapter, searched } => d.len() == 2 && text_entry(
            d[0],
            "adapter"@,
            adapter_text(adapter),
        ) && texts_entry(d[1], "searched"@, views(searched@)),
        AdapterError::ConfiguredAdapterMissing { adapter, path, .. } => d.len() == 2 && text_entry(
            d[0],
            "adapter"@,
            adapter_text(adapter),
        ) && text_entry(d[1], "configured"@, path@),
        AdapterError::Incomplete { adapter, path, hint, .. } => d.len() == 3 && text_entry(
            d[0],
            "adapter"@,
            adapter_text(adapter),
        ) && text_entry(d[1], "found"@, path@) && text_entry(d[2], "hint"@, hint@),
        AdapterError::Timeout { command, .. } => d.len() == 1 && text_entry(
            d[0],
            "command"@,
            command@,
        ),
        AdapterError::Rejected { command, message } => d.len() == 2 && text_entry(
            d[0],
            "command"@,
            command@,
        ) && text_entry(d[1], "adapter_message"@, message@),
        AdapterError::Malformed { command, .. } => d.len() == 1 && text_entry(
            d[0],
            "command"@,
            command@,
        ),
        _ => d.len() == 0,
    }
}

impl AdapterError {
    pub fn to_string(&self) -> (r: String)
        ensures
            r@ == adapter_error_text(*self),
    {
        match self {
            AdapterError::NotFound { adapter, .. } => {
                let mut r = text::owned("no ");
                text::push_str(&mut r, adapter.as_str());
                text::push_str(&mut r, " binary found on PATH");
                r
            },
            AdapterError::ConfiguredAdapterMissing { adapter, path, pinned_by } => {
                let mut r = text::owned(adapter.as_str());
                text::push_str(&mut r, " is pinned to ");
                text::push_str(&mut r, path.as_str());
                text::push_str(&mut r, " by ");
                text::push_str(&mut r, pinned_by);
                text::push_str(&mut r, ", and that is not an executable");
                r
            },
            AdapterError::Incomplete { adapter, path, problem, hint } => {
                let mut r = text::owned(path.as_str());
                text::push_str(&mut r, " cannot act as ");
                text::push_str(&mut r, adapter.as_str());
                text::push_str(&mut r, ": ");
                text::push_str(&mut r, problem.as_str());
                text::push_str(&mut r, " — ");
                text::push_str(&mut r, hint.as_str());
                r
            },
            AdapterError::Config { message } => {
                let mut r = text::owned("cannot read lazydap's config: ");
                text::push_str(&mut r, message.as_str());
                r
            },
            AdapterError::Gone => text::owned("the adapter is no longer running"),
            AdapterError::Timeout { command, timeout_secs } => {
                let mut r = text::owned("the adapter did not answer `");
                text::push_str(&mut r, command.as_str());
                text::push_str(&mut r, "` within ");
                text::push_decimal(&mut r, *timeout_secs);
                text::push_str(&mut r, "s");
                r
            },
            AdapterError::Rejected { command, message } => {
                let mut r = text::owned("the adapter rejected `");
                text::push_str(&mut r, command.as_str());
                text::push_str(&mut r, "`: ");
                text::push_str(&mut r, message.as_str());
                r
            },
            AdapterError::Malformed { command, message } => {
                let mut r = text::owned("the adapter's `");
                text::push_str(&mut r, command.as_str());
                text::push_str(&mut r, "` answer was not the shape DAP describes: ");
                text::push_str(&mut r, message.as_str());
                r
            },
            AdapterError::Transport(message) => {
                let mut r = text::owned("dap transport: ");
                text::push_str(&mut r, message.as_str());
                r
            },
        }
    }

    /// The error clients see. The mapping is the contract: agents branch on
    /// the code.
    pub fn into_ipc(&self) -> (r: crate::errors::IpcError)
        ensures
            r.code == adapter_error_code(*self),
            r.message@ == adapter_error_message(*self),
            adapter_error_details(*self, r.details@),
    {
        let code = match self {
            AdapterError::NotFound { .. } => ErrorCode::AdapterNotFound,
            AdapterError::ConfiguredAdapterMissing { .. } => ErrorCode::AdapterNotFound,
            AdapterError::Incomplete { .. } => ErrorCode::AdapterNotFound,
            AdapterError::Config { .. } => ErrorCode::InvalidLaunchConfig,
            AdapterError::Gone => ErrorCode::AdapterCrashed,
            AdapterError::Timeout { .. } => ErrorCode::AdapterTimeout,
            AdapterError::Rejected { .. } => ErrorCode::DapProtocolError,
            AdapterError::Malformed { .. } => ErrorCode::DapProtocolError,
            AdapterError::Transport(_) => ErrorCode::AdapterCrashed,
        };
        let message = match self {
            AdapterError::Config { message } => message.clone(),
            AdapterError::Gone => text::owned("the adapter exited"),
            _ => self.to_string(),
        };
        let details = match self {
            AdapterError::NotFound { adapter, searched } => vec![
                text_detail("adapter", text::owned(adapter.as_str())),
                texts_detail("searched", searched),
            ],
            AdapterError::ConfiguredAdapterMissing { adapter, path, .. } => vec![
                text_detail("adapter", text::owned(adapter.as_str())),
                text_detail("configured", path.clone()),
            ],
            AdapterError::Incomplete { adapter, path, hint, .. } => vec![
                text_detail("adapter", text::owned(adapter.as_str())),
                text_detail("found", path.clone()),
                text_detail("hint", hint.clone()),
            ],
            AdapterError::Timeout { command, .. } => vec![text_detail("command", command.clone())],
            AdapterError::Rejected { command, message } => vec![
                text_detail("command", command.clone()),
                text_detail("adapter_message", message.clone()),
            ],
            AdapterError::Malformed { command, .. } => vec![text_detail("command", command.clone())],
            _ => Vec::new(),
        };
        crate::errors::IpcError::new(code, message).with_details(details)
    }
}

} // verus!
