//! The command tree: what each `lazydap` subcommand carries, and the
//! questions asked of a command before anything runs.
use vstd::prelude::*;

use crate::commands::{BreakArgs, LaunchesCommand, WaitArgs};
use crate::diagnostics::OutputFormat;
use crate::inspect::{EvalContext, VariableFilter};
use crate::session::AdapterKind;

verus! {

/// A shell a completion script can be written for.
#[derive(Debug, Clone, Copy, PartialEq, Eq, Structural)]
pub enum Shell {
    Bash,
    Elvish,
    Fish,
    PowerShell,
    Zsh,
}

/// One invocation: the flags every command takes, and the command.
#[derive(Debug, Clone, PartialEq, Eq)]
pub struct Cli {
    /// Use this instance name instead of deriving one from the project.
    pub instance: Option<String>,
    pub format: Option<OutputFormat>,
    pub command: Option<Command>,
}

/// What `lazydap` is asked to do.
#[derive(Debug, Clone, PartialEq, Eq)]
pub enum Command {
    Launch {
        program: String,
        stop_on_entry: bool,
        cwd: Option<String>,
        /// `KEY=VALUE`, as typed.
        env: Vec<String>,
        adapter: Option<AdapterKind>,
        args: Vec<String>,
    },
    Launches { command: LaunchesCommand },
    Status,
    Disconnect { session_id: Option<String>, no_terminate: bool, dry_run: bool },
    Shutdown { dry_run: bool },
    Continue { wait: WaitArgs, all_threads: bool, thread: Option<i64> },
    Step { wait: WaitArgs, thread: Option<i64> },
    StepIn { wait: WaitArgs, thread: Option<i64> },
    StepOut { wait: WaitArgs, thread: Option<i64> },
    Pause { wait: WaitArgs, thread: Option<i64> },
    Break(BreakArgs),
    Stack { thread: Option<i64>, levels: Option<u32>, start: Option<u32> },
    Scopes { frame: Option<i64> },
    Variables {
        reference: i64,
        filter: VariableFilter,
        start: Option<u32>,
        count: Option<u32>,
    },
    Eval { expression: String, frame: Option<i64>, context: EvalContext },
    Threads,
    Output { since: Option<u64> },
    Logs { limit: usize, level: Option<String>, follow: bool, purge: bool },
    Doctor { check_adapters: bool, check_state: bool },
    Version,
    Completions { shell: Shell },
    Tui,
    Daemon { foreground: bool },
}

impl Command {
    /// Whether this command runs the daemon itself rather than talking to
    /// one.
    pub fn is_daemon(&self) -> (r: bool)
        ensures
            r == (*self is Daemon),
    {
        match self {
            Command::Daemon { .. } => true,
            _ => false,
        }
    }

    /// Whether this command acts on the user's config file. Only the
    /// launch-class commands do, since the adapter binary comes from it;
    /// everything else must keep working when the file has a typo in it, as
    /// those are the commands one reaches for because something is wrong.
    /// `doctor` reports the problem, which it could not do if the problem
    /// stopped it.
    pub fn needs_config(&self) -> (r: bool)
        ensures
            r == (match *self {
                Command::Launch { .. } => true,
                Command::Launches { command } => command is Run,
                _ => false,
            }),
    {
        match self {
            Command::Launch { .. } => true,
            Command::Launches { command } => match command {
                LaunchesCommand::Run { .. } => true,
                _ => false,
            },
            _ => false,
        }
    }

    /// Whether this command answers without a daemon: printing a version or
    /// a completion script must not start a background process.
    pub fn is_local(&self) -> (r: bool)
        ensures
            r == (*self is Version || *self is Completions),
    {
        match self {
            Command::Version => true,
            Command::Completions { .. } => true,
            _ => false,
        }
    }
}

} // verus!
