//! The client half of the commands: what a command line asks for, decided
//! before any daemon is started, so a usage mistake never leaves a
//! background process behind it.
use vstd::prelude::*;

use crate::config::Config;
use crate::breakpoint::{location_parse, BreakpointId, BreakpointStatus, Location};
use crate::errors::{classification, text_detail, text_entry, CliError, ErrorCode, IpcError};
use crate::exit;
use crate::handlers::WaitMode;
use crate::selector::BreakpointSelector;
use crate::session::{uuid_error_message, uuid_parse, SessionId};
use crate::text;
use crate::launch::{join_texts, views};
use crate::watch::{Watch, WatchId, WatchSelector};

verus! {

/// The default `--wait` timeout, in seconds, when nothing says otherwise.
pub const DEFAULT_TIMEOUT_SECONDS: u64 = 30;

/// The environment variable whose value, in seconds, is this shell's
/// default wait.
pub const TIMEOUT_ENV: &'static str = "LAZYDAP_TIMEOUT";

/// What `lazydap launches` is asked to do.
#[derive(Debug, Clone, PartialEq, Eq)]
pub enum LaunchesCommand {
    /// Show every launch configuration, and whether lazydap can run it.
    List,
    /// Start the configuration with this name, stopping at its entry point
    /// when asked, whatever the configuration says.
    Run { name: String, stop_on_entry: bool },
}

/// `u64::from_str`: an optional `+`, then at least one decimal digit, and a
/// value that fits.
pub open spec fn parse_u64(s: Seq<char>) -> Option<u64> {
    let body = if s.len() > 0 && s[0] == '+' {
        s.drop_first()
    } else {
        s
    };
    if body.len() > 0 && text::all_digits(body) && text::digits_value(body) <= u64::MAX {
        Some(text::digits_value(body) as u64)
    } else {
        None
    }
}

proof fn lemma_digits_value_prefix(s: Seq<char>, i: int)
    requires
        0 <= i <= s.len(),
        text::all_digits(s),
    ensures
        text::digits_value(s.take(i)) <= text::digits_value(s),
    decreases s.len() - i,
{
    if i < s.len() {
        lemma_digits_value_prefix(s, i + 1);
        let p = s.take(i + 1);
        assert(p.drop_last() =~= s.take(i));
        assert(text::is_digit(p.last()));
    } else {
        assert(s.take(i) =~= s);
    }
}

/// Reads a number of seconds as `u64::from_str` reads the trimmed text.
pub fn parse_seconds(s: &str) -> (r: Option<u64>)
    ensures
        r == parse_u64(text::trim(s@)),
{
    let v = text::chars_of(s);
    let (a, b) = text::trim_bounds(&v);
    let ghost t = text::trim(s@);
    let mut start = a;
    if a < b && v[a] == '+' {
        start = a + 1;
    }
    let ghost body = v@.subrange(start as int, b as int);
    assert(body =~= (if t.len() > 0 && t[0] == '+' {
        t.drop_first()
    } else {
        t
    }));
    if start == b {
        return None;
    }
    let mut i = start;
    let mut acc: u64 = 0;
    while i < b
        invariant
            start <= i <= b <= v@.len(),
            body == v@.subrange(start as int, b as int),
            t == v@.subrange(a as int, b as int),
            t == text::trim(s@),
            body == (if t.len() > 0 && t[0] == '+' {
                t.drop_first()
            } else {
                t
            }),
            text::all_digits(v@.subrange(start as int, i as int)),
            acc == text::digits_value(v@.subrange(start as int, i as int)),
        decreases b - i,
    {
        let c = v[i];
        if !text::is_digit_char(c) {
            assert(body[i - start] == c);
            assert(!text::all_digits(body));
            return None;
        }
        let d = (c as u32 - 48) as u64;
        let ghost p = v@.subrange(start as int, i + 1);
        assert(p.drop_last() =~= v@.subrange(start as int, i as int));
        assert(p.last() == c);
        if acc > 1844674407370955161 || (acc == 1844674407370955161 && d > 5) {
            proof {
                assert(text::digits_value(p) > u64::MAX);
                if text::all_digits(body) {
                    assert(p =~= body.take(i + 1 - start));
                    lemma_digits_value_prefix(body, i + 1 - start);
                }
            }
            return None;
        }
        acc = acc * 10 + d;
        i = i + 1;
    }
    assert(v@.subrange(start as int, i as int) =~= body);
    Some(acc)
}

/// The wait a command asks the daemon for, in milliseconds: the
/// `--timeout` on this invocation, else the environment's, else the config
/// file's, else thirty seconds. Saturating, so an absurd timeout is a very
/// long wait rather than a short one.
pub open spec fn wait_spec(
    wait: bool,
    timeout: Option<u64>,
    env_timeout: Option<Seq<char>>,
    config_seconds: Option<u64>,
) -> WaitMode {
    if !wait {
        WaitMode::NoWait
    } else {
        let from_env = match env_timeout {
            Some(e) => parse_u64(text::trim(e)),
            None => None,
        };
        let seconds: u64 = match timeout {
            Some(t) => t,
            None => match from_env {
                Some(e) => e,
                None => match config_seconds {
                    Some(c) => c,
                    None => 30,
                },
            },
        };
        WaitMode::Wait {
            timeout_ms: Some(
                if seconds * 1000 > u32::MAX {
                    u32::MAX
                } else {
                    (seconds * 1000) as u32
                },
            ),
        }
    }
}

/// The `--wait` pair every command that moves the program shares.
#[derive(Debug, Clone, Copy, PartialEq, Eq, Structural)]
pub struct WaitArgs {
    /// Block until the program pauses, exits or is terminated.
    pub wait: bool,
    /// How long to wait, in seconds; `0` is forever.
    pub timeout: Option<u64>,
}

/// The wait a command asks for, from its flags, the `LAZYDAP_TIMEOUT`
/// value of this shell (as read, when set) and the user's config.
pub fn wait_mode(args: &WaitArgs, env_timeout: Option<&str>, config: &Config) -> (r: WaitMode)
    ensures
        r == wait_spec(
            args.wait,
            args.timeout,
            crate::config::opt_view(env_timeout),
            config.wait_timeout(),
        ),
{
    let wait = args.wait;
    let timeout = args.timeout;
    let config_seconds = config.wait_timeout_seconds();
    if !wait {
        return WaitMode::NoWait;
    }
    let from_env = match env_timeout {
        Some(e) => parse_seconds(e),
        None => None,
    };
    let seconds: u64 = match timeout {
        Some(t) => t,
        None => match from_env {
            Some(e) => e,
            None => match config_seconds {
                Some(c) => c,
                None => DEFAULT_TIMEOUT_SECONDS,
            },
        },
    };
    let ms: u32 = if seconds > 4294967 {
        u32::MAX
    } else {
        (seconds * 1000) as u32
    };
    WaitMode::Wait { timeout_ms: Some(ms) }
}

/// A longer timeout never asks for a shorter wait: the milliseconds
/// saturate at the largest wait a request can carry rather than wrapping
/// round to a short one.
pub proof fn law_a_longer_timeout_never_waits_less(a: u64, b: u64)
    requires
        a <= b,
    ensures
        ({
            let wa = wait_spec(true, Some(a), None, None);
            let wb = wait_spec(true, Some(b), None, None);
            &&& wa->timeout_ms.unwrap() <= wb->timeout_ms.unwrap()
            &&& (b * 1000 > u32::MAX ==> wb->timeout_ms == Some(u32::MAX))
        }),
{
}

/// How long the client waits for the daemon's answer, in milliseconds, or
/// `None` for as long as it takes: a minute when there is no wait, no limit
/// when the wait has none, and otherwise the wait plus fifteen seconds for
/// the daemon to fetch a frame and reply.
pub open spec fn client_wait(wait: WaitMode) -> Option<u64> {
    match wait {
        WaitMode::NoWait => Some(60_000u64),
        WaitMode::Wait { timeout_ms: None } => Some(60_000u64),
        WaitMode::Wait { timeout_ms: Some(0) } => None,
        WaitMode::Wait { timeout_ms: Some(ms) } => Some((ms + 15_000) as u64),
    }
}

pub fn client_timeout(wait: WaitMode) -> (r: Option<u64>)
    ensures
        r == client_wait(wait),
{
    match wait {
        WaitMode::NoWait => Some(60_000),
        WaitMode::Wait { timeout_ms: None } => Some(60_000),
        WaitMode::Wait { timeout_ms: Some(0) } => None,
        WaitMode::Wait { timeout_ms: Some(ms) } => Some(ms as u64 + 15_000),
    }
}

/// The client outlasts the wait it asked the daemon for, since the daemon
/// still has to fetch a frame and reply after its own timer fires; a wait
/// without end gets no client-side limit either.
pub proof fn law_the_client_outlasts_its_wait(ms: u32)
    ensures
        ms > 0 ==> (client_wait(WaitMode::Wait { timeout_ms: Some(ms) }) matches Some(c) && c
            > ms),
        client_wait(WaitMode::Wait { timeout_ms: Some(0) }) is None,
{
}

/// A session id off the command line; a malformed one is a usage error
/// (exit 2), since nothing has been asked of the daemon yet.
pub fn parse_session_id(value: &str) -> (r: Result<SessionId, CliError>)
    ensures
        match uuid_parse(value@) {
            Some(v) => r == Ok::<SessionId, CliError>(SessionId(v)),
            None => r matches Err(e) && e.exit_code == exit::USAGE && e.label@ == "UsageError"@
                && e.message@ == seq!['`'] + value@ + "` is not a session id: "@
                + uuid_error_message(value@),
        },
{
    match SessionId::parse(value) {
        Ok(id) => Ok(id),
        Err(error) => {
            let mut m = String::new();
            text::push_char(&mut m, '`');
            text::push_str(&mut m, value);
            text::push_str(&mut m, "` is not a session id: ");
            text::push_str(&mut m, error.to_string().as_str());
            Err(CliError::usage(m))
        },
    }
}

/// A breakpoint's file that does not resolve, refused here rather than
/// passed along: a breakpoint in a file that is not there never verifies,
/// and finding that out as a silent `verified: false` later is a poor trade
/// for this message. It quotes the path, and says why it did not resolve.
pub fn source_not_found(source: &str, reason: &str) -> (r: CliError)
    ensures
        (r.label@, r.exit_code) == classification(ErrorCode::BadRequest),
        r.message@ == "BadRequest: cannot find "@ + source@ + ": "@ + reason@,
        r.details@.len() == 1,
        text_entry(r.details@[0], "source"@, source@),
{
    let mut m = text::owned("cannot find ");
    text::push_str(&mut m, source);
    text::push_str(&mut m, ": ");
    text::push_str(&mut m, reason);
    let details = vec![text_detail("source", text::owned(source))];
    let r = CliError::from_ipc(IpcError::new(ErrorCode::BadRequest, m).with_details(details));
    proof {
        reveal_strlit("BadRequest");
        reveal_strlit("cannot find ");
        reveal_strlit("BadRequest: cannot find ");
        reveal_strlit(": ");
    }
    assert(r.message@ =~= "BadRequest: cannot find "@ + source@ + ": "@ + reason@);
    r
}

/// Ids joined the way a person reads a list: `1, 4`.
pub fn join_ids(ids: &Vec<BreakpointId>) -> (r: String)
    ensures
        r@ == crate::launch::join_texts(ids@.map_values(|id: BreakpointId| text::decimal(id.0 as nat))),
{
    let mut parts: Vec<String> = Vec::new();
    let mut i: usize = 0;
    while i < ids.len()
        invariant
            i <= ids@.len(),
            crate::launch::views(parts@) == ids@.take(i as int).map_values(
                |id: BreakpointId| text::decimal(id.0 as nat),
            ),
        decreases ids.len() - i,
    {
        let ghost before = crate::launch::views(parts@);
        let part = ids[i].to_string();
        parts.push(part);
        assert(crate::launch::views(parts@) =~= before.push(text::decimal(ids@[i as int].0 as nat)));
        assert(ids@.take(i + 1) =~= ids@.take(i as int).push(ids@[i as int]));
        i = i + 1;
        assert(crate::launch::views(parts@) =~= ids@.take(i as int).map_values(
            |id: BreakpointId| text::decimal(id.0 as nat),
        ));
    }
    assert(ids@.take(ids@.len() as int) =~= ids@);
    let mut r = String::new();
    crate::launch::push_joined(&mut r, &parts);
    r
}

/// The `break` command's arguments.
#[derive(Debug, Clone, PartialEq, Eq)]
pub struct BreakArgs {
    pub location: Option<String>,
    pub list: bool,
    pub remove: bool,
    pub toggle: bool,
    pub ids: Vec<u32>,
    pub all: bool,
    pub condition: Option<String>,
    pub hit_condition: Option<String>,
    pub log_message: Option<String>,
    pub disabled: bool,
    pub dry_run: bool,
}

/// What a `break` command asks for. Locations are as typed; the caller
/// resolves their files against its own working directory.
#[derive(Debug, Clone, PartialEq, Eq)]
pub enum BreakMode {
    List,
    Add {
        location: Location,
        condition: Option<String>,
        hit_condition: Option<String>,
        log_message: Option<String>,
        enabled: bool,
    },
    Remove(BreakpointSelector),
    Toggle(BreakpointSelector),
}

pub open spec fn ids_of(ids: Seq<u32>) -> Seq<BreakpointId> {
    ids.map_values(|n: u32| BreakpointId(n))
}

fn break_ids(ids: &Vec<u32>) -> (r: Vec<BreakpointId>)
    ensures
        r@ == ids_of(ids@),
{
    let mut r: Vec<BreakpointId> = Vec::new();
    let mut i: usize = 0;
    while i < ids.len()
        invariant
            i <= ids@.len(),
            r@ == ids_of(ids@.take(i as int)),
        decreases ids.len() - i,
    {
        r.push(BreakpointId(ids[i]));
        i = i + 1;
        assert(r@ =~= ids_of(ids@.take(i as int)));
    }
    assert(ids@.take(ids@.len() as int) =~= ids@);
    r
}

/// Which breakpoints a `--remove` or `--toggle` means: exactly one of a
/// location, `--id` or `--all`. Two of them have two readings, and picking
/// either quietly is how a script deletes every breakpoint in a project.
pub open spec fn selected(args: BreakArgs, r: Result<BreakpointSelector, CliError>) -> bool {
    &&& (r matches Err(e) ==> e.exit_code == exit::USAGE)
    &&& ({
        let named = (if args.all {
            1int
        } else {
            0int
        }) + (if args.ids@.len() > 0 {
            1int
        } else {
            0int
        }) + (if args.location is Some {
            1int
        } else {
            0int
        });
        if named > 1 {
            r matches Err(e) && e.message@ == "choose one of a location, `--id` or `--all`, not several"@
        } else if args.all {
            r matches Ok(BreakpointSelector::All)
        } else if args.ids@.len() > 0 {
            r matches Ok(BreakpointSelector::Ids(ids)) && ids@ == ids_of(args.ids@)
        } else {
            match args.location {
                Some(raw) => match location_parse(raw@) {
                    Ok((source, line)) => r matches Ok(
                        BreakpointSelector::Location { source: s, line: l },
                    ) && s@ == source && l == line,
                    Err(fault) => r matches Err(e) && e.message@ == location_refusal(raw@, fault),
                },
                None => r matches Err(e) && e.message@
                    == "say which breakpoints: a `file:line`, `--id N`, or `--all`"@,
            }
        }
    })
}

/// How a `break` command says a location is not one.
pub open spec fn location_refusal(raw: Seq<char>, fault: crate::breakpoint::LocationFault) -> Seq<char> {
    seq!['`'] + raw + "` is not a location: "@ + crate::breakpoint::location_detail(
        fault,
        crate::breakpoint::after_last_colon(raw),
    )
}

/// The selection a `--remove` or `--toggle` makes.
pub fn selector(args: &BreakArgs) -> (r: Result<BreakpointSelector, CliError>)
    ensures
        selected(*args, r),
{
    let named: u32 = (if args.all {
        1u32
    } else {
        0u32
    }) + (if args.ids.len() > 0 {
        1u32
    } else {
        0u32
    }) + (if args.location.is_some() {
        1u32
    } else {
        0u32
    });
    if named > 1 {
        return Err(CliError::usage(text::owned("choose one of a location, `--id` or `--all`, not several")));
    }
    if args.all {
        return Ok(BreakpointSelector::All);
    }
    if args.ids.len() > 0 {
        return Ok(BreakpointSelector::Ids(break_ids(&args.ids)));
    }
    match &args.location {
        Some(raw) => match Location::parse(raw.as_str()) {
            Ok(location) => Ok(BreakpointSelector::Location { source: location.source, line: location.line }),
            Err(error) => Err(CliError::usage(error.to_string())),
        },
        None => Err(CliError::usage(text::owned("say which breakpoints: a `file:line`, `--id N`, or `--all`"))),
    }
}

/// What a `break` command means: a listing, a removal, a toggle, or — with
/// a location and nothing else — a new breakpoint. A bare `break` could mean
/// a listing or a forgotten location, and says so rather than guessing.
pub fn resolve_break(args: &BreakArgs) -> (r: Result<BreakMode, CliError>)
    ensures
        r matches Err(e) ==> e.exit_code == exit::USAGE,
        args.list ==> r == Ok::<BreakMode, CliError>(BreakMode::List),
        !args.list && args.remove ==> match r {
            Ok(BreakMode::Remove(s)) => selected(*args, Ok(s)),
            Err(e) => selected(*args, Err(e)),
            _ => false,
        },
        !args.list && !args.remove && args.toggle ==> match r {
            Ok(BreakMode::Toggle(s)) => selected(*args, Ok(s)),
            Err(e) => selected(*args, Err(e)),
            _ => false,
        },
        !args.list && !args.remove && !args.toggle ==> match args.location {
            None => r matches Err(e) && e.message@
                == "`lazydap break` needs a location, as `file:line` — or `--list` to see the ones you have"@,
            Some(raw) => match location_parse(raw@) {
                Ok((source, line)) => r matches Ok(
                    BreakMode::Add { location, condition, hit_condition, log_message, enabled },
                ) && location.source@ == source && location.line == line && condition
                    == args.condition && hit_condition == args.hit_condition && log_message
                    == args.log_message && enabled == !args.disabled,
                Err(fault) => r matches Err(e) && e.message@ == location_refusal(raw@, fault),
            },
        },
{
    if args.list {
        return Ok(BreakMode::List);
    }
    if args.remove {
        return match selector(args) {
            Ok(s) => Ok(BreakMode::Remove(s)),
            Err(e) => Err(e),
        };
    }
    if args.toggle {
        return match selector(args) {
            Ok(s) => Ok(BreakMode::Toggle(s)),
            Err(e) => Err(e),
        };
    }
    let raw = match &args.location {
        Some(raw) => raw,
        None => {
            return Err(
                CliError::usage(
                    text::owned(
                        "`lazydap break` needs a location, as `file:line` — or `--list` to see the ones you have",
                    ),
                ),
            );
        },
    };
    match Location::parse(raw.as_str()) {
        Ok(location) => Ok(
            BreakMode::Add {
                location,
                condition: crate::breakpoint::copy_opt_string(&args.condition),
                hit_condition: crate::breakpoint::copy_opt_string(&args.hit_condition),
                log_message: crate::breakpoint::copy_opt_string(&args.log_message),
                enabled: !args.disabled,
            },
        ),
        Err(error) => Err(CliError::usage(error.to_string())),
    }
}

pub open spec fn watch_ids_of(ids: Seq<u32>) -> Seq<WatchId> {
    ids.map_values(|n: u32| WatchId(n))
}

/// Which watches a `watch remove` means: exactly one of an expression,
/// `--id` or `--all`, and something.
pub fn watch_selector(expression: Option<String>, ids: Vec<u32>, all: bool) -> (r: Result<
    WatchSelector,
    CliError,
>)
    ensures
        r matches Err(e) ==> e.exit_code == exit::USAGE,
        match (expression, ids@.len() > 0, all) {
            (Some(_), true, _) => r matches Err(e) && e.message@
                == "say which watches once: an expression, --id, or --all"@,
            (Some(_), _, true) => r matches Err(e) && e.message@
                == "say which watches once: an expression, --id, or --all"@,
            (None, true, true) => r matches Err(e) && e.message@
                == "say which watches once: an expression, --id, or --all"@,
            (Some(x), false, false) => r matches Ok(WatchSelector::Expression(y)) && y == x,
            (None, true, false) => r matches Ok(WatchSelector::Ids(w)) && w@ == watch_ids_of(ids@),
            (None, false, true) => r matches Ok(WatchSelector::All),
            (None, false, false) => r matches Err(e) && e.message@
                == "nothing selected: name an expression, or pass --id or --all"@,
        },
{
    let some_ids = ids.len() > 0;
    match expression {
        Some(x) => {
            if some_ids || all {
                return Err(CliError::usage(text::owned("say which watches once: an expression, --id, or --all")));
            }
            Ok(WatchSelector::Expression(x))
        },
        None => {
            if some_ids && all {
                return Err(CliError::usage(text::owned("say which watches once: an expression, --id, or --all")));
            }
            if some_ids {
                let mut w: Vec<WatchId> = Vec::new();
                let mut i: usize = 0;
                while i < ids.len()
                    invariant
                        i <= ids@.len(),
                        w@ == watch_ids_of(ids@.take(i as int)),
                    decreases ids.len() - i,
                {
                    w.push(WatchId(ids[i]));
                    i = i + 1;
                    assert(w@ =~= watch_ids_of(ids@.take(i as int)));
                }
                assert(ids@.take(ids@.len() as int) =~= ids@);
                return Ok(WatchSelector::Ids(w));
            }
            if all {
                return Ok(WatchSelector::All);
            }
            Err(CliError::usage(text::owned("nothing selected: name an expression, or pass --id or --all")))
        },
    }
}

// ---------------------------------------------------------------------------
// The line under a breakpoint or watch table.
// ---------------------------------------------------------------------------

/// What a `break` command did.
#[derive(Debug, Clone, Copy, PartialEq, Eq, Structural)]
pub enum BreakpointAction {
    Listed,
    Added,
    /// An existing breakpoint at that line took the new settings.
    Updated,
    /// The breakpoint was already exactly as asked.
    Unchanged,
    Removed,
    Toggled,
}

/// What a `watch` command did.
#[derive(Debug, Clone, Copy, PartialEq, Eq, Structural)]
pub enum WatchAction {
    Listed,
    Added,
    Removed,
}

pub open spec fn breakpoint_would(action: BreakpointAction) -> Seq<char> {
    match action {
        BreakpointAction::Listed => "would list"@,
        BreakpointAction::Added => "would add"@,
        BreakpointAction::Updated => "would update"@,
        BreakpointAction::Unchanged => "would leave unchanged"@,
        BreakpointAction::Removed => "would remove"@,
        BreakpointAction::Toggled => "would toggle"@,
    }
}

pub open spec fn watch_would(action: WatchAction) -> Seq<char> {
    match action {
        WatchAction::Listed => "would list"@,
        WatchAction::Added => "would add"@,
        WatchAction::Removed => "would remove"@,
    }
}

impl BreakpointAction {
    /// How a dry run says what it did not do.
    pub fn would(&self) -> (r: &'static str)
        ensures
            r@ == breakpoint_would(*self),
    {
        match self {
            BreakpointAction::Listed => "would list",
            BreakpointAction::Added => "would add",
            BreakpointAction::Updated => "would update",
            BreakpointAction::Unchanged => "would leave unchanged",
            BreakpointAction::Removed => "would remove",
            BreakpointAction::Toggled => "would toggle",
        }
    }
}

impl WatchAction {
    /// How a dry run says what it did not do.
    pub fn would(&self) -> (r: &'static str)
        ensures
            r@ == watch_would(*self),
    {
        match self {
            WatchAction::Listed => "would list",
            WatchAction::Added => "would add",
            WatchAction::Removed => "would remove",
        }
    }
}

/// What a `break` command reports.
#[derive(Debug, Clone, PartialEq, Eq)]
pub struct BreakpointReport {
    pub action: BreakpointAction,
    pub dry_run: bool,
    pub breakpoints: Vec<BreakpointStatus>,
    /// Ids that were asked for and matched nothing.
    pub not_found: Vec<BreakpointId>,
    /// Whether a live session took the change too.
    pub applied_to_session: bool,
}

/// What a `watch` command reports.
#[derive(Debug, Clone, PartialEq, Eq)]
pub struct WatchReport {
    pub action: WatchAction,
    pub dry_run: bool,
    pub watches: Vec<Watch>,
    pub not_found: Vec<WatchId>,
}

/// Lines joined by newlines.
pub open spec fn join_lines(items: Seq<Seq<char>>) -> Seq<char>
    decreases items.len(),
{
    if items.len() == 0 {
        Seq::empty()
    } else if items.len() == 1 {
        items[0]
    } else {
        join_lines(items.drop_last()) + seq!['\n'] + items.last()
    }
}

/// Numbers in decimal, joined the way a person reads a list.
pub open spec fn joined_numbers(ns: Seq<u32>) -> Seq<char> {
    join_texts(ns.map_values(|n: u32| text::decimal(n as nat)))
}

/// The notes a `break` report carries: a dry run says what it would have
/// done, ids that matched nothing are named, and a change that reached no
/// session says when it will take effect.
pub open spec fn breakpoint_notes(report: BreakpointReport) -> Seq<Seq<char>> {
    let dry = if report.dry_run {
        seq![
            "dry run: "@ + breakpoint_would(report.action) + seq![' '] + text::decimal(
                report.breakpoints@.len(),
            ) + " breakpoint(s), nothing changed"@,
        ]
    } else {
        Seq::empty()
    };
    let stale = if report.not_found@.len() > 0 {
        seq![
            "no breakpoint with id "@ + joined_numbers(
                report.not_found@.map_values(|id: BreakpointId| id.0),
            ),
        ]
    } else {
        Seq::empty()
    };
    let pending = if !report.dry_run && !report.applied_to_session && (report.action
        == BreakpointAction::Added || report.action == BreakpointAction::Removed || report.action
        == BreakpointAction::Toggled) {
        seq!["recorded; it will apply to the next `lazydap launch`"@]
    } else {
        Seq::empty()
    };
    dry + stale + pending
}

/// The notes a `watch` report carries: a dry run says what it would have
/// done, ids that matched nothing are named, and a new watch says when it
/// is evaluated.
pub open spec fn watch_notes(report: WatchReport) -> Seq<Seq<char>> {
    let dry = if report.dry_run {
        seq![
            "dry run: "@ + watch_would(report.action) + seq![' '] + text::decimal(
                report.watches@.len(),
            ) + " watch(es), nothing changed"@,
        ]
    } else {
        Seq::empty()
    };
    let stale = if report.not_found@.len() > 0 {
        seq![
            "no watch with id "@ + joined_numbers(report.not_found@.map_values(|id: WatchId| id.0)),
        ]
    } else {
        Seq::empty()
    };
    let added = if !report.dry_run && report.action == WatchAction::Added {
        seq!["evaluated at every stop; `lazydap eval` reads it now"@]
    } else {
        Seq::empty()
    };
    dry + stale + added
}

/// Notes as the line under a table: nothing when there are none.
pub open spec fn note_of(notes: Seq<Seq<char>>) -> Option<Seq<char>> {
    if notes.len() == 0 {
        None
    } else {
        Some(join_lines(notes))
    }
}

fn join_numbers(ns: &Vec<u32>) -> (r: String)
    ensures
        r@ == joined_numbers(ns@),
{
    let mut parts: Vec<String> = Vec::new();
    let mut i: usize = 0;
    while i < ns.len()
        invariant
            i <= ns@.len(),
            views(parts@) == ns@.take(i as int).map_values(|n: u32| text::decimal(n as nat)),
        decreases ns.len() - i,
    {
        let ghost before = views(parts@);
        let mut part = String::new();
        text::push_decimal(&mut part, ns[i] as u64);
        parts.push(part);
        assert(views(parts@) =~= before.push(text::decimal(ns@[i as int] as nat)));
        assert(ns@.take(i + 1) =~= ns@.take(i as int).push(ns@[i as int]));
        i = i + 1;
        assert(views(parts@) =~= ns@.take(i as int).map_values(|n: u32| text::decimal(n as nat)));
    }
    assert(ns@.take(ns@.len() as int) =~= ns@);
    let mut r = String::new();
    crate::launch::push_joined(&mut r, &parts);
    r
}

fn join_note(notes: &Vec<String>) -> (r: Option<String>)
    ensures
        match r {
            Some(t) => note_of(views(notes@)) == Some(t@),
            None => note_of(views(notes@)) is None,
        },
{
    if notes.len() == 0 {
        return None;
    }
    let mut r = String::new();
    let mut i: usize = 0;
    while i < notes.len()
        invariant
            0 < notes@.len(),
            i <= notes@.len(),
            r@ == join_lines(views(notes@.subrange(0, i as int))),
        decreases notes.len() - i,
    {
        let ghost prefix = notes@.subrange(0, i + 1);
        assert(views(prefix).drop_last() =~= views(notes@.subrange(0, i as int)));
        if i > 0 {
            text::push_char(&mut r, '\n');
        }
        text::push_str(&mut r, notes[i].as_str());
        i = i + 1;
        assert(r@ =~= join_lines(views(prefix)));
    }
    assert(notes@.subrange(0, notes@.len() as int) =~= notes@);
    Some(r)
}

/// The line a person needs that a `break` table does not say.
pub fn breakpoint_note(report: &BreakpointReport) -> (r: Option<String>)
    ensures
        match r {
            Some(t) => note_of(breakpoint_notes(*report)) == Some(t@),
            None => note_of(breakpoint_notes(*report)) is None,
        },
{
    let mut notes: Vec<String> = Vec::new();
    if report.dry_run {
        let mut line = text::owned("dry run: ");
        text::push_str(&mut line, report.action.would());
        text::push_char(&mut line, ' ');
        text::push_decimal(&mut line, report.breakpoints.len() as u64);
        text::push_str(&mut line, " breakpoint(s), nothing changed");
        assert(line@ =~= "dry run: "@ + breakpoint_would(report.action) + seq![' '] + text::decimal(
            report.breakpoints@.len(),
        ) + " breakpoint(s), nothing changed"@);
        notes.push(line);
    }
    let ghost first = views(notes@);
    assert(first =~= (if report.dry_run {
        seq![
            "dry run: "@ + breakpoint_would(report.action) + seq![' '] + text::decimal(
                report.breakpoints@.len(),
            ) + " breakpoint(s), nothing changed"@,
        ]
    } else {
        Seq::empty()
    }));
    if report.not_found.len() > 0 {
        let mut ns: Vec<u32> = Vec::new();
        let mut i: usize = 0;
        while i < report.not_found.len()
            invariant
                i <= report.not_found@.len(),
                ns@ == report.not_found@.take(i as int).map_values(|id: BreakpointId| id.0),
            decreases report.not_found.len() - i,
        {
            ns.push(report.not_found[i].0);
            i = i + 1;
            assert(ns@ =~= report.not_found@.take(i as int).map_values(|id: BreakpointId| id.0));
        }
        assert(report.not_found@.take(report.not_found@.len() as int) =~= report.not_found@);
        let mut line = text::owned("no breakpoint with id ");
        text::push_str(&mut line, join_numbers(&ns).as_str());
        notes.push(line);
        assert(views(notes@) =~= first.push(line@));
    }
    let ghost second = views(notes@);
    assert(second =~= first + (if report.not_found@.len() > 0 {
        seq![
            "no breakpoint with id "@ + joined_numbers(
                report.not_found@.map_values(|id: BreakpointId| id.0),
            ),
        ]
    } else {
        Seq::empty()
    }));
    let changed = match report.action {
        BreakpointAction::Added | BreakpointAction::Removed | BreakpointAction::Toggled => true,
        _ => false,
    };
    if !report.dry_run && !report.applied_to_session && changed {
        notes.push(text::owned("recorded; it will apply to the next `lazydap launch`"));
    }
    assert(views(notes@) =~= breakpoint_notes(*report));
    join_note(&notes)
}

/// The line a person needs that a `watch` table does not say.
pub fn watch_note(report: &WatchReport) -> (r: Option<String>)
    ensures
        match r {
            Some(t) => note_of(watch_notes(*report)) == Some(t@),
            None => note_of(watch_notes(*report)) is None,
        },
{
    let mut notes: Vec<String> = Vec::new();
    if report.dry_run {
        let mut line = text::owned("dry run: ");
        text::push_str(&mut line, report.action.would());
        text::push_char(&mut line, ' ');
        text::push_decimal(&mut line, report.watches.len() as u64);
        text::push_str(&mut line, " watch(es), nothing changed");
        assert(line@ =~= "dry run: "@ + watch_would(report.action) + seq![' '] + text::decimal(
            report.watches@.len(),
        ) + " watch(es), nothing changed"@);
        notes.push(line);
    }
    let ghost first = views(notes@);
    assert(first =~= (if report.dry_run {
        seq![
            "dry run: "@ + watch_would(report.action) + seq![' '] + text::decimal(
                report.watches@.len(),
            ) + " watch(es), nothing changed"@,
        ]
    } else {
        Seq::empty()
    }));
    if report.not_found.len() > 0 {
        let mut ns: Vec<u32> = Vec::new();
        let mut i: usize = 0;
        while i < report.not_found.len()
            invariant
                i <= report.not_found@.len(),
                ns@ == report.not_found@.take(i as int).map_values(|id: WatchId| id.0),
            decreases report.not_found.len() - i,
        {
            ns.push(report.not_found[i].0);
            i = i + 1;
            assert(ns@ =~= report.not_found@.take(i as int).map_values(|id: WatchId| id.0));
        }
        assert(report.not_found@.take(report.not_found@.len() as int) =~= report.not_found@);
        let mut line = text::owned("no watch with id ");
        text::push_str(&mut line, join_numbers(&ns).as_str());
        notes.push(line);
        assert(views(notes@) =~= first.push(line@));
    }
    let ghost second = views(notes@);
    assert(second =~= first + (if report.not_found@.len() > 0 {
        seq![
            "no watch with id "@ + joined_numbers(
                report.not_found@.map_values(|id: WatchId| id.0),
            ),
        ]
    } else {
        Seq::empty()
    }));
    let added = match report.action {
        WatchAction::Added => true,
        _ => false,
    };
    if !report.dry_run && added {
        notes.push(text::owned("evaluated at every stop; `lazydap eval` reads it now"));
    }
    assert(views(notes@) =~= watch_notes(*report));
    join_note(&notes)
}

// ---------------------------------------------------------------------------
// Ending a session, stopping the daemon.
// ---------------------------------------------------------------------------

/// The line a person reads after `disconnect`.
pub fn disconnect_summary(session_id: &str, dry_run: bool, terminated_debuggee: bool) -> (r: String)
    ensures
        dry_run ==> r@ == "would disconnect "@ + session_id@ + (if terminated_debuggee {
            ", killing the debuggee"@
        } else {
            Seq::empty()
        }),
        !dry_run ==> r@ == "disconnected "@ + session_id@,
{
    if dry_run {
        let mut r = text::owned("would disconnect ");
        text::push_str(&mut r, session_id);
        if terminated_debuggee {
            text::push_str(&mut r, ", killing the debuggee");
        }
        r
    } else {
        let mut r = text::owned("disconnected ");
        text::push_str(&mut r, session_id);
        r
    }
}

/// What trying to reach the daemon found.
#[derive(Debug, Clone, Copy, PartialEq, Eq, Structural)]
pub enum DaemonContact {
    /// A daemon of this build answered.
    Reached,
    /// A daemon answered in another protocol version.
    OtherBuild,
    /// Nothing answered.
    Unreachable,
}

/// What `shutdown` does next.
#[derive(Debug, Clone, PartialEq, Eq)]
pub enum ShutdownStep {
    /// Send the frozen shutdown frame a daemon of any build reads, wait for
    /// it to go, then print the line.
    StopOtherBuild(String),
    /// Print the line; there is nothing to do.
    Say(String),
    /// Ask for the daemon's status and print what stopping would stop.
    Preview,
    /// Ask the daemon to stop.
    Stop,
}

/// How `shutdown` goes. A daemon from another build is still a daemon, and
/// promising to stop it and leaving it running would be the worst answer,
/// so it is sent the one frame every build reads; a dry run asks, and acts
/// on nothing; with no daemon there is nothing to stop, and a daemon is
/// never started in order to be stopped.
pub fn shutdown_step(contact: DaemonContact, dry_run: bool, instance: &str) -> (r: ShutdownStep)
    ensures
        r == (match (contact, dry_run) {
            (DaemonContact::Reached, true) => ShutdownStep::Preview,
            (DaemonContact::Reached, false) => ShutdownStep::Stop,
            (DaemonContact::OtherBuild, true) => ShutdownStep::Say(r->Say_0),
            (DaemonContact::OtherBuild, false) => ShutdownStep::StopOtherBuild(r->StopOtherBuild_0),
            (DaemonContact::Unreachable, _) => ShutdownStep::Say(r->Say_0),
        }),
        contact == DaemonContact::OtherBuild && dry_run ==> r->Say_0@ == "daemon "@ + instance@
            + " (another build) would be stopped"@,
        contact == DaemonContact::OtherBuild && !dry_run ==> r->StopOtherBuild_0@ == "daemon "@
            + instance@ + " (another build) shutting down"@,
        contact == DaemonContact::Unreachable ==> r->Say_0@ == "no daemon was running"@,
{
    match contact {
        DaemonContact::Reached => if dry_run {
            ShutdownStep::Preview
        } else {
            ShutdownStep::Stop
        },
        DaemonContact::OtherBuild => {
            let mut line = text::owned("daemon ");
            text::push_str(&mut line, instance);
            if dry_run {
                text::push_str(&mut line, " (another build) would be stopped");
                ShutdownStep::Say(line)
            } else {
                text::push_str(&mut line, " (another build) shutting down");
                ShutdownStep::StopOtherBuild(line)
            }
        },
        DaemonContact::Unreachable => ShutdownStep::Say(text::owned("no daemon was running")),
    }
}

/// What a dry-run `shutdown` says it would stop.
pub fn shutdown_preview(instance: &str, daemon_pid: u32, sessions: usize) -> (r: String)
    ensures
        r@ == "would stop daemon "@ + instance@ + " (pid "@ + text::decimal(daemon_pid as nat)
            + ") and "@ + text::decimal(sessions as nat) + " session(s)"@,
{
    let mut r = text::owned("would stop daemon ");
    text::push_str(&mut r, instance);
    text::push_str(&mut r, " (pid ");
    text::push_decimal(&mut r, daemon_pid as u64);
    text::push_str(&mut r, ") and ");
    text::push_decimal(&mut r, sessions as u64);
    text::push_str(&mut r, " session(s)");
    r
}

/// What `shutdown` says once the daemon has agreed to stop.
pub fn shutting_down(instance: &str) -> (r: String)
    ensures
        r@ == "daemon "@ + instance@ + " shutting down"@,
{
    let mut r = text::owned("daemon ");
    text::push_str(&mut r, instance);
    text::push_str(&mut r, " shutting down");
    r
}

} // verus!
