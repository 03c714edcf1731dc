//! How a failure is named to clients and to the shell.
use vstd::prelude::*;

use crate::exit;
use crate::launch::views;
use crate::launch_json::{env_of, pair_views};
use crate::paths::{paths_error_text, PathsError};
use crate::text;

verus! {

/// What a protocol failure is, as clients branch on it.
#[derive(Debug, Clone, Copy, PartialEq, Eq, Structural)]
pub enum ErrorCode {
    AdapterNotFound,
    VersionMismatch,
    AdapterCrashed,
    AdapterTimeout,
    SessionNotFound,
    SessionAlreadyActive,
    SessionNotPaused,
    StaleHandle,
    InvalidLaunchConfig,
    InvalidProjectRoot,
    DapProtocolError,
    DaemonInternalError,
    Unsupported,
    Timeout,
    Cancelled,
    BadRequest,
}

/// The label a code goes by, and the exit code the shell sees for it. A
/// missing adapter exits 4 and a daemon of another build exits 3, so a
/// script can tell those apart; every other failure the daemon reports is a
/// general one.
pub open spec fn classification(code: ErrorCode) -> (Seq<char>, u8) {
    match code {
        ErrorCode::AdapterNotFound => ("AdapterNotFound"@, 4u8),
        ErrorCode::VersionMismatch => ("VersionMismatch"@, 3u8),
        ErrorCode::AdapterCrashed => ("AdapterCrashed"@, 1u8),
        ErrorCode::AdapterTimeout => ("AdapterTimeout"@, 1u8),
        ErrorCode::SessionNotFound => ("SessionNotFound"@, 1u8),
        ErrorCode::SessionAlreadyActive => ("SessionAlreadyActive"@, 1u8),
        ErrorCode::SessionNotPaused => ("SessionNotPaused"@, 1u8),
        ErrorCode::StaleHandle => ("StaleHandle"@, 1u8),
        ErrorCode::InvalidLaunchConfig => ("InvalidLaunchConfig"@, 1u8),
        ErrorCode::InvalidProjectRoot => ("InvalidProjectRoot"@, 1u8),
        ErrorCode::DapProtocolError => ("DapProtocolError"@, 1u8),
        ErrorCode::DaemonInternalError => ("DaemonInternalError"@, 1u8),
        ErrorCode::Unsupported => ("Unsupported"@, 1u8),
        ErrorCode::Timeout => ("Timeout"@, 1u8),
        ErrorCode::Cancelled => ("Cancelled"@, 1u8),
        ErrorCode::BadRequest => ("BadRequest"@, 1u8),
    }
}

/// The label and the exit code for a protocol failure.
pub fn classify(code: ErrorCode) -> (r: (&'static str, u8))
    ensures
        (r.0@, r.1) == classification(code),
{
    match code {
        ErrorCode::AdapterNotFound => ("AdapterNotFound", exit::ADAPTER_NOT_FOUND),
        ErrorCode::VersionMismatch => ("VersionMismatch", exit::DAEMON_UNREACHABLE),
        ErrorCode::AdapterCrashed => ("AdapterCrashed", exit::GENERAL),
        ErrorCode::AdapterTimeout => ("AdapterTimeout", exit::GENERAL),
        ErrorCode::SessionNotFound => ("SessionNotFound", exit::GENERAL),
        ErrorCode::SessionAlreadyActive => ("SessionAlreadyActive", exit::GENERAL),
        ErrorCode::SessionNotPaused => ("SessionNotPaused", exit::GENERAL),
        ErrorCode::StaleHandle => ("StaleHandle", exit::GENERAL),
        ErrorCode::InvalidLaunchConfig => ("InvalidLaunchConfig", exit::GENERAL),
        ErrorCode::InvalidProjectRoot => ("InvalidProjectRoot", exit::GENERAL),
        ErrorCode::DapProtocolError => ("DapProtocolError", exit::GENERAL),
        ErrorCode::DaemonInternalError => ("DaemonInternalError", exit::GENERAL),
        ErrorCode::Unsupported => ("Unsupported", exit::GENERAL),
        ErrorCode::Timeout => ("Timeout", exit::GENERAL),
        ErrorCode::Cancelled => ("Cancelled", exit::GENERAL),
        ErrorCode::BadRequest => ("BadRequest", exit::GENERAL),
    }
}

/// A value in a failure's details: what the stderr JSON carries beside the
/// message, for a script to read without parsing prose.
#[derive(Debug, Clone, PartialEq, Eq)]
pub enum Detail {
    Text(String),
    Number(u64),
    Texts(Vec<String>),
    Numbers(Vec<u64>),
    Flag(bool),
}

/// `entry` is `key` holding the text `value`.
pub open spec fn text_entry(entry: (String, Detail), key: Seq<char>, value: Seq<char>) -> bool {
    entry.0@ == key && (entry.1 matches Detail::Text(t) && t@ == value)
}

/// `entry` is `key` holding the number `n`.
pub open spec fn number_entry(entry: (String, Detail), key: Seq<char>, n: nat) -> bool {
    entry.0@ == key && (entry.1 matches Detail::Number(m) && m == n)
}

/// `entry` is `key` holding the list `values`.
pub open spec fn texts_entry(entry: (String, Detail), key: Seq<char>, values: Seq<Seq<char>>) -> bool {
    entry.0@ == key && (entry.1 matches Detail::Texts(v) && views(v@) == values)
}

/// `entry` is `key` holding the list of numbers `values`.
pub open spec fn numbers_entry(entry: (String, Detail), key: Seq<char>, values: Seq<u64>) -> bool {
    entry.0@ == key && (entry.1 matches Detail::Numbers(v) && v@ == values)
}

/// `entry` is `key` holding `flag`.
pub open spec fn flag_entry(entry: (String, Detail), key: Seq<char>, flag: bool) -> bool {
    entry.0@ == key && entry.1 == Detail::Flag(flag)
}

/// The value a script reads under `key`: the last entry for it, as an
/// object written entry by entry keeps.
pub open spec fn detail_at(details: Seq<(String, Detail)>, key: Seq<char>) -> Option<Detail>
    decreases details.len(),
{
    if details.len() == 0 {
        None
    } else if details.last().0@ == key {
        Some(details.last().1)
    } else {
        detail_at(details.drop_last(), key)
    }
}

/// `key` holding `value`, as text.
pub fn text_detail(key: &str, value: String) -> (r: (String, Detail))
    ensures
        text_entry(r, key@, value@),
{
    (text::owned(key), Detail::Text(value))
}

/// `key` holding the number `n`.
pub fn number_detail(key: &str, n: u64) -> (r: (String, Detail))
    ensures
        number_entry(r, key@, n as nat),
{
    (text::owned(key), Detail::Number(n))
}

/// `key` holding a list of texts.
pub fn texts_detail(key: &str, values: &Vec<String>) -> (r: (String, Detail))
    ensures
        texts_entry(r, key@, views(values@)),
{
    (text::owned(key), Detail::Texts(crate::launch::copy_strings(values)))
}

/// A failure as the daemon reports it: a code to branch on, a message, and
/// the details a script reads.
#[derive(Debug, Clone, PartialEq, Eq)]
pub struct IpcError {
    pub code: ErrorCode,
    pub message: String,
    pub details: Vec<(String, Detail)>,
}

impl IpcError {
    /// A failure with nothing more to say than its message.
    pub fn new(code: ErrorCode, message: String) -> (r: IpcError)
        ensures
            r.code == code,
            r.message@ == message@,
            r.details@.len() == 0,
    {
        IpcError { code, message, details: Vec::new() }
    }

    /// The same failure, carrying `details` in place of what it had.
    pub fn with_details(self, details: Vec<(String, Detail)>) -> (r: IpcError)
        ensures
            r.code == self.code,
            r.message == self.message,
            r.details@ == details@,
    {
        IpcError { code: self.code, message: self.message, details }
    }

    /// `<code>: <message>`.
    pub fn to_string(&self) -> (r: String)
        ensures
            r@ == classification(self.code).0 + ": "@ + self.message@,
    {
        let (label, _) = classify(self.code);
        let mut r = text::owned(label);
        text::push_str(&mut r, ": ");
        text::push_str(&mut r, self.message.as_str());
        r
    }
}

/// The protocol version a daemon of another build reported, when `code` is
/// a version mismatch and its details carry one that fits a `u32`.
pub open spec fn peer_version(code: Option<ErrorCode>, details: Seq<(String, Detail)>) -> Option<u32> {
    if code == Some(ErrorCode::VersionMismatch) {
        match detail_at(details, "daemon_version"@) {
            Some(Detail::Number(n)) => if n <= u32::MAX {
                Some(n as u32)
            } else {
                None
            },
            _ => None,
        }
    } else {
        None
    }
}

/// A command that did not work: the name that goes into the stderr JSON,
/// the exit code, the message and the details, and the code of the daemon's
/// report when it came from one.
#[derive(Debug, Clone, PartialEq, Eq)]
pub struct CliError {
    pub label: &'static str,
    pub exit_code: u8,
    pub message: String,
    pub details: Vec<(String, Detail)>,
    pub code: Option<ErrorCode>,
}

impl CliError {
    /// The daemon could not be started or contacted.
    pub fn unreachable(message: String) -> (r: CliError)
        ensures
            r.label@ == "DaemonUnreachable"@,
            r.exit_code == exit::DAEMON_UNREACHABLE,
            r.message@ == message@,
            r.details@.len() == 0,
            r.code is None,
    {
        CliError {
            label: "DaemonUnreachable",
            exit_code: exit::DAEMON_UNREACHABLE,
            message,
            details: Vec::new(),
            code: None,
        }
    }

    /// A failure in this process that nobody has classified further.
    pub fn general(message: String) -> (r: CliError)
        ensures
            r.label@ == "DaemonInternalError"@,
            r.exit_code == exit::GENERAL,
            r.message@ == message@,
            r.details@.len() == 0,
            r.code is None,
    {
        CliError {
            label: "DaemonInternalError",
            exit_code: exit::GENERAL,
            message,
            details: Vec::new(),
            code: None,
        }
    }

    /// The command line did not make sense: exit 2, as for anything the
    /// argument parser rejects.
    pub fn usage(message: String) -> (r: CliError)
        ensures
            r.label@ == "UsageError"@,
            r.exit_code == exit::USAGE,
            r.message@ == message@,
            r.details@.len() == 0,
            r.code is None,
    {
        CliError::usage_with_details(message, Vec::new())
    }

    /// A usage error that says which argument it means. The message is the
    /// mistake alone, with no code in front of it: one name for one mistake.
    pub fn usage_with_details(message: String, details: Vec<(String, Detail)>) -> (r: CliError)
        ensures
            r.label@ == "UsageError"@,
            r.exit_code == exit::USAGE,
            r.message@ == message@,
            r.details@ == details@,
            r.code is None,
    {
        CliError { label: "UsageError", exit_code: exit::USAGE, message, details, code: None }
    }

    /// What the daemon reported, named and exited as its code says.
    pub fn from_ipc(error: IpcError) -> (r: CliError)
        ensures
            (r.label@, r.exit_code) == classification(error.code),
            r.message@ == classification(error.code).0 + ": "@ + error.message@,
            r.details@ == error.details@,
            r.code == Some(error.code),
    {
        let message = error.to_string();
        let (label, exit_code) = classify(error.code);
        CliError { label, exit_code, message, details: error.details, code: Some(error.code) }
    }

    /// A location lazydap keeps its socket, lock, pid or log in could not be
    /// had: the daemon is unreachable, and retrying after fixing the
    /// directory can work.
    pub fn from_paths(error: &PathsError) -> (r: CliError)
        ensures
            r.label@ == "DaemonUnreachable"@,
            r.exit_code == exit::DAEMON_UNREACHABLE,
            r.message@ == paths_error_text(*error),
            r.details@.len() == 0,
            r.code is None,
    {
        CliError::unreachable(error.to_string())
    }

    /// The protocol version the other end reported, when this is a version
    /// mismatch: a request stamped with it is one that daemon accepts.
    pub fn peer_protocol_version(&self) -> (r: Option<u32>)
        ensures
            r == peer_version(self.code, self.details@),
    {
        match self.code {
            Some(ErrorCode::VersionMismatch) => {},
            _ => return None,
        }
        let mut i = self.details.len();
        assert(self.details@.take(i as int) =~= self.details@);
        while i > 0
            invariant
                i <= self.details@.len(),
                self.code == Some(ErrorCode::VersionMismatch),
                detail_at(self.details@, "daemon_version"@) == detail_at(
                    self.details@.take(i as int),
                    "daemon_version"@,
                ),
            decreases i,
        {
            let entry = &self.details[i - 1];
            assert(self.details@.take(i as int).drop_last() =~= self.details@.take(i - 1));
            if text::str_eq(entry.0.as_str(), "daemon_version") {
                return match entry.1 {
                    Detail::Number(n) => if n <= u32::MAX as u64 {
                        Some(n as u32)
                    } else {
                        None
                    },
                    _ => None,
                };
            }
            i = i - 1;
        }
        assert(self.details@.take(0) =~= Seq::<(String, Detail)>::empty());
        None
    }

    pub fn to_string(&self) -> (r: String)
        ensures
            r@ == self.message@,
    {
        self.message.clone()
    }
}

/// Only a version mismatch carries a peer version: whatever the details of
/// any other failure hold, it names none.
pub proof fn law_only_a_version_mismatch_carries_a_peer_version(
    code: Option<ErrorCode>,
    details: Seq<(String, Detail)>,
)
    requires
        code != Some(ErrorCode::VersionMismatch),
    ensures
        peer_version(code, details) is None,
{
}

/// The mismatch this client reports names the daemon's version where
/// `peer_protocol_version` reads it: the details `version_mismatch` writes
/// give back the daemon's version, and not the client's.
pub proof fn law_a_mismatch_reports_the_daemon_s_version(
    client_version: u32,
    daemon_version: u32,
    details: Seq<(String, Detail)>,
)
    requires
        details.len() == 2,
        number_entry(details[0], "client_version"@, client_version as nat),
        number_entry(details[1], "daemon_version"@, daemon_version as nat),
    ensures
        peer_version(Some(ErrorCode::VersionMismatch), details) == Some(daemon_version),
{
    reveal_strlit("daemon_version");
    reveal_strlit("client_version");
    assert(details.drop_last() =~= seq![details[0]]);
    assert(details.last() == details[1]);
}

/// The client and the daemon were built against different protocols: a
/// daemon of another build exits 3, so a script can tell it apart.
pub fn version_mismatch(client_version: u32, daemon_version: u32) -> (r: CliError)
    ensures
        (r.label@, r.exit_code) == classification(ErrorCode::VersionMismatch),
        r.message@ == "VersionMismatch: this lazydap speaks protocol v"@ + text::decimal(
            client_version as nat,
        ) + ", the running daemon speaks v"@ + text::decimal(daemon_version as nat),
        r.details@.len() == 2,
        number_entry(r.details@[0], "client_version"@, client_version as nat),
        number_entry(r.details@[1], "daemon_version"@, daemon_version as nat),
        r.code == Some(ErrorCode::VersionMismatch),
{
    let mut m = text::owned("this lazydap speaks protocol v");
    text::push_decimal(&mut m, client_version as u64);
    text::push_str(&mut m, ", the running daemon speaks v");
    text::push_decimal(&mut m, daemon_version as u64);
    let details = vec![
        number_detail("client_version", client_version as u64),
        number_detail("daemon_version", daemon_version as u64),
    ];
    let r = CliError::from_ipc(IpcError::new(ErrorCode::VersionMismatch, m).with_details(details));
    proof {
        reveal_strlit("VersionMismatch");
        reveal_strlit(": ");
        reveal_strlit("VersionMismatch: this lazydap speaks protocol v");
        reveal_strlit("this lazydap speaks protocol v");
    }
    assert(r.message@ =~= "VersionMismatch: this lazydap speaks protocol v"@ + text::decimal(
        client_version as nat,
    ) + ", the running daemon speaks v"@ + text::decimal(daemon_version as nat));
    r
}

/// A failed read while awaiting response `id`. A frame the reader could not
/// decode, or a connection cut short, is what a daemon of another build
/// does with ours: the daemon is unreachable, and the message says what to
/// do. Any other failure is general.
pub fn classify_read_error(undecodable: bool, source: &str, id: u64) -> (r: CliError)
    ensures
        undecodable ==> r.label@ == "DaemonUnreachable"@ && r.exit_code == exit::DAEMON_UNREACHABLE
            && r.message@ == "the daemon sent a frame this build cannot read while awaiting response "@
            + text::decimal(id as nat) + " ("@ + source@
            + "). Run `lazydap shutdown` and try again."@,
        !undecodable ==> r.label@ == "DaemonInternalError"@ && r.exit_code == exit::GENERAL
            && r.message@ == source@,
{
    if undecodable {
        let mut m = text::owned("the daemon sent a frame this build cannot read while awaiting response ");
        text::push_decimal(&mut m, id);
        text::push_str(&mut m, " (");
        text::push_str(&mut m, source);
        text::push_str(&mut m, "). Run `lazydap shutdown` and try again.");
        CliError::unreachable(m)
    } else {
        CliError::general(text::owned(source))
    }
}

/// The first position of `c` in `s`.
pub open spec fn first_index(s: Seq<char>, c: char, from: int) -> Option<int>
    decreases s.len() - from,
{
    if from < 0 || from >= s.len() {
        None
    } else if s[from] == c {
        Some(from)
    } else {
        first_index(s, c, from + 1)
    }
}

/// `KEY=VALUE` split at its first `=`.
pub open spec fn env_pair(pair: Seq<char>) -> Option<(Seq<char>, Seq<char>)> {
    match first_index(pair, '=', 0) {
        Some(k) => Some((pair.take(k), pair.skip(k + 1))),
        None => None,
    }
}

/// The first pair, from the `i`-th on, that is not `KEY=VALUE`.
pub open spec fn first_unsplittable(pairs: Seq<Seq<char>>, i: int) -> Option<int>
    decreases pairs.len() - i,
{
    if i < 0 || i >= pairs.len() {
        None
    } else if env_pair(pairs[i]) is None {
        Some(i)
    } else {
        first_unsplittable(pairs, i + 1)
    }
}

pub open spec fn env_usage_message(pair: Seq<char>) -> Seq<char> {
    "`--env "@ + pair + "` is not a KEY=VALUE pair"@
}

/// Splits `s` at its first `c`, when it has one.
fn split_once(s: &str, c: char) -> (r: Option<(String, String)>)
    ensures
        match first_index(s@, c, 0) {
            Some(k) => r matches Some((a, b)) && a@ == s@.take(k) && b@ == s@.skip(k + 1),
            None => r is None,
        },
{
    let v = text::chars_of(s);
    let mut k: usize = 0;
    while k < v.len()
        invariant
            k <= v@.len(),
            v@ == s@,
            first_index(s@, c, 0) == first_index(s@, c, k as int),
        decreases v.len() - k,
    {
        if v[k] == c {
            let a = text::string_of_range(&v, 0, k);
            let b = text::string_of_range(&v, k + 1, v.len());
            assert(v@.subrange(0, k as int) =~= s@.take(k as int));
            assert(v@.subrange(k + 1, v@.len() as int) =~= s@.skip(k + 1));
            return Some((a, b));
        }
        k = k + 1;
    }
    None
}

/// `KEY=VALUE` pairs as the debuggee's environment, a later pair for a name
/// winning, kept in name order. A pair with no `=` is refused rather than
/// guessed at.
pub fn parse_env(pairs: &[String]) -> (r: Result<Vec<(String, String)>, CliError>)
    ensures
        match first_unsplittable(views(pairs@), 0) {
            Some(i) => r matches Err(e) && e.exit_code == exit::USAGE && e.label@ == "UsageError"@
                && e.message@ == env_usage_message(pairs@[i]@),
            None => r matches Ok(env) && pair_views(env@) == env_of(
                views(pairs@).map_values(|p: Seq<char>| env_pair(p).unwrap()),
            ),
        },
{
    let ghost ps = views(pairs@);
    let ghost split = ps.map_values(|p: Seq<char>| env_pair(p).unwrap());
    let mut env: Vec<(String, String)> = Vec::new();
    let mut i: usize = 0;
    assert(pair_views(env@) =~= Seq::<(Seq<char>, Seq<char>)>::empty());
    assert(split.take(0) =~= Seq::<(Seq<char>, Seq<char>)>::empty());
    while i < pairs.len()
        invariant
            i <= pairs@.len(),
            ps == views(pairs@),
            split == ps.map_values(|p: Seq<char>| env_pair(p).unwrap()),
            first_unsplittable(ps, 0) == first_unsplittable(ps, i as int),
            pair_views(env@) == env_of(split.take(i as int)),
        decreases pairs.len() - i,
    {
        assert(ps[i as int] == pairs@[i as int]@);
        match split_once(pairs[i].as_str(), '=') {
            Some((key, value)) => {
                crate::launch_json::set_env_pub(&mut env, key, value);
                assert(split.take(i + 1).drop_last() =~= split.take(i as int));
                i = i + 1;
            },
            None => {
                let mut m = text::owned("`--env ");
                text::push_str(&mut m, pairs[i].as_str());
                text::push_str(&mut m, "` is not a KEY=VALUE pair");
                return Err(CliError::usage(m));
            },
        }
    }
    assert(split.take(pairs@.len() as int) =~= split);
    Ok(env)
}

} // verus!
