//! Making sure the user's program dies with its debugger.
//!
//! When an adapter dies without shutting down cleanly, the debuggee it
//! started is left running with nothing that knows it is a debuggee. The
//! reaper asks `ps` what holds the pid now, kills it only if it is still the
//! program that was launched, and says what happened. Running `ps` and
//! `kill` is the caller's part; what to make of their answers is here.
use vstd::prelude::*;

use crate::text;

verus! {

/// A process lazydap started and is therefore responsible for.
#[derive(Debug, Clone, PartialEq, Eq)]
pub struct Debuggee {
    pub pid: u32,
    /// What was launched, kept for the identity check.
    pub program: String,
}

/// Who holds the pid now.
#[derive(Debug, Clone, PartialEq, Eq)]
pub enum Identity {
    /// Nothing, or nothing `ps` would say.
    Gone,
    /// The program that was launched.
    Ours,
    /// Another process, since the pid was reused.
    SomebodyElse(String),
}

/// Whether a `ps` command line is the program at `path`: the path itself, or
/// the path followed by a space and its arguments. A different program that
/// merely shares the prefix is a stranger.
pub open spec fn owned_by(command: Seq<char>, path: Seq<char>) -> bool {
    command == path || text::starts_with(command, path.push(' '))
}

/// Whether a `ps` command line is the program at `path`.
pub fn owns(command: &str, path: &str) -> (r: bool)
    ensures
        r == owned_by(command@, path@),
{
    if text::str_eq(command, path) {
        return true;
    }
    let mut prefix = text::owned(path);
    text::push_char(&mut prefix, ' ');
    let c = text::chars_of(command);
    let p = text::chars_of(prefix.as_str());
    text::starts_with_exec(&c, &p)
}

/// Who holds the pid, from what `ps -o command= -p <pid>` printed: nothing
/// (or no `ps` at all) is gone, since no `ps` is no reason to kill on faith.
pub open spec fn identified(r: Identity, ps_output: Option<Seq<char>>, program: Seq<char>) -> bool {
    match ps_output {
        None => r == Identity::Gone,
        Some(out) => {
            let command = text::trim(out);
            if command.len() == 0 {
                r == Identity::Gone
            } else if owned_by(command, program) {
                r == Identity::Ours
            } else {
                r matches Identity::SomebodyElse(c) && c@ == command
            }
        },
    }
}

/// What the reaper does next.
#[derive(Debug, Clone, PartialEq, Eq)]
pub enum Reap {
    /// Nothing to kill; nothing to report.
    LeaveAlone,
    /// Still ours: kill it (with `kill -9`) and report how that went.
    Kill(u32),
}

/// `the debuggee (pid N) was left running and has been killed`, or `... and
/// could not be killed`.
pub open spec fn reap_report(pid: u32, killed: bool) -> Seq<char> {
    "the debuggee (pid "@ + text::decimal(pid as nat) + (if killed {
        ") was left running and has been killed"@
    } else {
        ") was left running and could not be killed"@
    })
}

/// What to do about the pid: kill it only while it is still ours.
pub open spec fn reap_decision(pid: u32, identity: Identity) -> Reap {
    match identity {
        Identity::Ours => Reap::Kill(pid),
        _ => Reap::LeaveAlone,
    }
}

impl Debuggee {
    /// Who holds the pid now, given what `ps` printed for it (`None` when
    /// `ps` could not be run).
    pub fn identify(&self, ps_output: Option<&str>) -> (r: Identity)
        ensures
            identified(r, crate::config::opt_view(ps_output), self.program@),
    {
        let out = match ps_output {
            Some(out) => out,
            None => return Identity::Gone,
        };
        let v = text::chars_of(out);
        let (a, b) = text::trim_bounds(&v);
        let command = text::string_of_range(&v, a, b);
        if a == b {
            return Identity::Gone;
        }
        if owns(command.as_str(), self.program.as_str()) {
            Identity::Ours
        } else {
            Identity::SomebodyElse(command)
        }
    }

    /// Whether to kill: only what is still the program that was launched.
    /// Killing whatever holds a reused pid would be far worse than leaking
    /// the one that was looked for.
    pub fn reap_step(&self, identity: &Identity) -> (r: Reap)
        ensures
            r == reap_decision(self.pid, *identity),
    {
        match identity {
            Identity::Ours => Reap::Kill(self.pid),
            _ => Reap::LeaveAlone,
        }
    }

    /// What to say about a kill, for the detail of a synthesised ending: a
    /// user whose adapter crashed is told whether their program went with it.
    pub fn reap_outcome(&self, killed: bool) -> (r: String)
        ensures
            r@ == reap_report(self.pid, killed),
    {
        let mut r = text::owned("the debuggee (pid ");
        text::push_decimal(&mut r, self.pid as u64);
        if killed {
            text::push_str(&mut r, ") was left running and has been killed");
        } else {
            text::push_str(&mut r, ") was left running and could not be killed");
        }
        r
    }
}

/// The reaper kills only its own program: it kills only when `ps` named
/// the program that was launched, alone or followed by its arguments, and a
/// pid nobody could identify is left alone.
pub proof fn law_only_our_own_program_is_killed(
    d: Debuggee,
    ps_output: Option<Seq<char>>,
    identity: Identity,
)
    requires
        identified(identity, ps_output, d.program@),
    ensures
        reap_decision(d.pid, identity) == Reap::Kill(d.pid) ==> (ps_output matches Some(out) && text::trim(out).len() > 0
            && owned_by(text::trim(out), d.program@)),
        ps_output is None ==> identity == Identity::Gone,
{
}

} // verus!
