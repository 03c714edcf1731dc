//! Starting the daemon on demand: whether to connect, replace or spawn, who
//! may spawn, and the one frame every daemon ever shipped understands.
//!
//! Two commands racing from a cold start would both spawn, and the second
//! daemon would unlink the first one's socket out from under it. So spawning
//! happens under a lock file, taken with an exclusive create; the loser of
//! the race waits for the winner's daemon rather than starting its own.
use vstd::prelude::*;

use crate::errors::CliError;
use crate::exit;
use crate::text;

verus! {

/// How long a freshly spawned daemon has to bind its socket, in seconds.
pub const SPAWN_DEADLINE_SECS: u64 = 10;

/// The gap between connect attempts while waiting, in milliseconds.
pub const POLL_INTERVAL_MS: u64 = 50;

/// A lock file older than this, in seconds, belonged to a client that died
/// mid-spawn.
pub const STALE_LOCK_AGE_SECS: u64 = 30;

/// How long an outgoing daemon has to release its socket, in seconds.
pub const SHUTDOWN_DEADLINE_SECS: u64 = 5;

/// The shutdown frame: `id` 1, the bare `Shutdown` request, and the
/// *daemon's* version, in the key order a JSON object prints in.
pub open spec fn shutdown_frame_text(peer_version: u32) -> Seq<char> {
    "{\"id\":1,\"payload\":{\"Request\":\"Shutdown\"},\"version\":"@ + text::decimal(
        peer_version as nat,
    ) + "}"@
}

/// The one message sent to a daemon this build cannot talk to, written out
/// by hand and frozen: its whole job is to stop a daemon whose protocol we
/// do not speak, so it must not follow this build's schema. It wears the
/// daemon's version, which gets past a version check either way.
pub fn shutdown_frame(peer_version: u32) -> (r: String)
    ensures
        r@ == shutdown_frame_text(peer_version),
{
    let mut r = text::owned("{\"id\":1,\"payload\":{\"Request\":\"Shutdown\"},\"version\":");
    text::push_decimal(&mut r, peer_version as u64);
    text::push_char(&mut r, '}');
    proof {
        reveal_strlit("}");
    }
    assert(r@ =~= shutdown_frame_text(peer_version));
    r
}

/// Whether a lock file of this age (whole seconds, then nanoseconds) was
/// left by a dead client: older than the cutoff. A lock whose age cannot be
/// read, or whose clock went backwards, is taken to be live.
pub fn is_stale(age: Option<(u64, u32)>) -> (r: bool)
    ensures
        r == (match age {
            Some((secs, nanos)) => secs > STALE_LOCK_AGE_SECS || (secs == STALE_LOCK_AGE_SECS
                && nanos > 0),
            None => false,
        }),
{
    match age {
        Some((secs, nanos)) => secs > STALE_LOCK_AGE_SECS || (secs == STALE_LOCK_AGE_SECS && nanos
            > 0),
        None => false,
    }
}

/// What an exclusive create of the lock file answered.
#[derive(Debug, Clone, PartialEq, Eq)]
pub enum LockAttempt {
    Created,
    AlreadyExists,
    /// Any other failure, in the system's words.
    Failed(String),
}

/// What to do next about the spawn lock.
#[derive(Debug, Clone, PartialEq, Eq)]
pub enum LockAction {
    /// The lock is ours: spawn.
    Held,
    /// Somebody else is spawning: wait for their daemon.
    Wait,
    /// Someone holds it; find out whether they are still alive.
    CheckAge,
    /// It is stale: claim it by renaming it aside (exactly one rename of a
    /// path succeeds), then delete the renamed file.
    Claim,
    /// Claimed: create it afresh.
    Retake,
    /// The lock cannot be taken at all.
    Fail(CliError),
}

/// The first attempt at the lock, at `path`.
pub fn on_create(attempt: LockAttempt, path: &str) -> (r: LockAction)
    ensures
        match attempt {
            LockAttempt::Created => r == LockAction::Held,
            LockAttempt::AlreadyExists => r == LockAction::CheckAge,
            LockAttempt::Failed(source) => r matches LockAction::Fail(e) && e.label@
                == "DaemonInternalError"@ && e.exit_code == exit::GENERAL && e.message@
                == "cannot take the spawn lock at "@ + path@ + ": "@ + source@,
        },
{
    match attempt {
        LockAttempt::Created => LockAction::Held,
        LockAttempt::AlreadyExists => LockAction::CheckAge,
        LockAttempt::Failed(source) => {
            let mut m = text::owned("cannot take the spawn lock at ");
            text::push_str(&mut m, path);
            text::push_str(&mut m, ": ");
            text::push_str(&mut m, source.as_str());
            LockAction::Fail(CliError::general(m))
        },
    }
}

/// A lock someone holds: wait for a live holder; take a dead one's over at
/// once, since reporting it held would send this client off to wait the
/// whole deadline for a daemon nobody is starting.
pub fn on_age(stale: bool) -> (r: LockAction)
    ensures
        r == (if stale {
            LockAction::Claim
        } else {
            LockAction::Wait
        }),
{
    if stale {
        LockAction::Claim
    } else {
        LockAction::Wait
    }
}

/// The rename that claims a stale lock: a contender that loses it finds the
/// winner spawning, so waiting is right.
pub fn on_claim(renamed: bool) -> (r: LockAction)
    ensures
        r == (if renamed {
            LockAction::Retake
        } else {
            LockAction::Wait
        }),
{
    if renamed {
        LockAction::Retake
    } else {
        LockAction::Wait
    }
}

/// The second create, after a claim: whatever stopped it, someone else has
/// the lock.
pub fn on_retake(created: bool) -> (r: LockAction)
    ensures
        r == (if created {
            LockAction::Held
        } else {
            LockAction::Wait
        }),
{
    if created {
        LockAction::Held
    } else {
        LockAction::Wait
    }
}

/// What a first connection attempt answered.
#[derive(Debug, Clone, PartialEq, Eq)]
pub enum Contact {
    Connected,
    /// A daemon of another build, and the version it reported if it did.
    OtherBuild(Option<u32>),
    Refused,
}

/// What to do about the daemon before a command can use it.
#[derive(Debug, Clone, Copy, PartialEq, Eq, Structural)]
pub enum Approach {
    /// Use the one that answered.
    Use,
    /// Ask the other build's daemon to go, addressing it in this version,
    /// then start one of ours.
    Replace(u32),
    /// Start one.
    Spawn,
}

/// Connect, replace or spawn. A daemon of another build is asked to stop in
/// its own version when it said which, else in this build's.
pub fn approach(contact: Contact, own_version: u32) -> (r: Approach)
    ensures
        r == (match contact {
            Contact::Connected => Approach::Use,
            Contact::OtherBuild(Some(v)) => Approach::Replace(v),
            Contact::OtherBuild(None) => Approach::Replace(own_version),
            Contact::Refused => Approach::Spawn,
        }),
{
    match contact {
        Contact::Connected => Approach::Use,
        Contact::OtherBuild(Some(v)) => Approach::Replace(v),
        Contact::OtherBuild(None) => Approach::Replace(own_version),
        Contact::Refused => Approach::Spawn,
    }
}

/// The failure when a spawned daemon never answered: the deadline, and the
/// last thing a connection attempt said, when there was one.
pub fn did_not_come_up(last_error: Option<&str>) -> (r: CliError)
    ensures
        r.label@ == "DaemonUnreachable"@,
        r.exit_code == exit::DAEMON_UNREACHABLE,
        r.message@ == "the daemon did not come up within "@ + text::decimal(
            SPAWN_DEADLINE_SECS as nat,
        ) + "s"@ + match last_error {
            Some(e) => " ("@ + e@ + ")"@,
            None => Seq::empty(),
        },
{
    let mut m = text::owned("the daemon did not come up within ");
    text::push_decimal(&mut m, SPAWN_DEADLINE_SECS);
    text::push_str(&mut m, "s");
    if let Some(e) = last_error {
        text::push_str(&mut m, " (");
        text::push_str(&mut m, e);
        text::push_str(&mut m, ")");
    }
    CliError::unreachable(m)
}

} // verus!
