//! File locations, and the instance name that keys them: one daemon per
//! project, so two projects never share a socket.
//!
//! What these decisions read from the file system — which markers are
//! present in which directory, who owns a directory and with what mode — is
//! gathered by the caller and handed in as plain values.
use vstd::prelude::*;

use crate::config::{opt_view, usable_override};
use crate::dirs_env;
use crate::pathname;
use crate::text;
use vstd::utf8::encode_utf8;

verus! {

/// The environment variable that names the instance outright.
pub const INSTANCE_ENV: &'static str = "LAZYDAP_INSTANCE";

/// The environment variable that overrides the runtime directory.
pub const RUNTIME_DIR_ENV: &'static str = "LAZYDAP_RUNTIME_DIR";

/// The environment variable that overrides the data directory.
pub const DATA_DIR_ENV: &'static str = "LAZYDAP_DATA_DIR";

/// Longest socket path, in bytes, lazydap will bind.
pub const MAX_SOCKET_PATH_BYTES: usize = 100;

/// Characters of the readable half of an instance name.
pub const MAX_SLUG_CHARS: usize = 16;

/// Hex digits of the hash half of an instance name.
pub const HASH_HEX_CHARS: usize = 12;

/// Why a location could not be had.
#[derive(Debug, Clone, PartialEq, Eq)]
pub enum PathsError {
    NoHomeDirectory,
    NoDataDirectory,
    RuntimeDirNotOurs { path: String, owner: u32, expected: u32 },
    UnsafeDirectory { path: String, reason: String },
    SocketPathTooLong { len: usize, path: String },
    Io(String),
}

/// What a person reads for each way a location can fail.
pub open spec fn paths_error_text(e: PathsError) -> Seq<char> {
    match e {
        PathsError::NoHomeDirectory => "cannot locate the user's home directory"@,
        PathsError::NoDataDirectory => "cannot locate a data directory for lazydap"@,
        PathsError::RuntimeDirNotOurs { path, owner, expected } => "directory "@ + path@
            + " is owned by uid "@ + text::decimal(owner as nat) + ", not by uid "@
            + text::decimal(expected as nat),
        PathsError::UnsafeDirectory { path, reason } => "refusing to use "@ + path@ + ": "@
            + reason@,
        PathsError::SocketPathTooLong { len, path } => "socket path is "@ + text::decimal(
            len as nat,
        ) + " bytes, over the 100-byte limit: "@ + path@,
        PathsError::Io(message) => "io: "@ + message@,
    }
}

impl PathsError {
    pub fn to_string(&self) -> (r: String)
        ensures
            r@ == paths_error_text(*self),
    {
        match self {
            PathsError::NoHomeDirectory => text::owned("cannot locate the user's home directory"),
            PathsError::NoDataDirectory => text::owned("cannot locate a data directory for lazydap"),
            PathsError::RuntimeDirNotOurs { path, owner, expected } => {
                let mut r = text::owned("directory ");
                text::push_str(&mut r, path.as_str());
                text::push_str(&mut r, " is owned by uid ");
                text::push_decimal(&mut r, *owner as u64);
                text::push_str(&mut r, ", not by uid ");
                text::push_decimal(&mut r, *expected as u64);
                r
            },
            PathsError::UnsafeDirectory { path, reason } => {
                let mut r = text::owned("refusing to use ");
                text::push_str(&mut r, path.as_str());
                text::push_str(&mut r, ": ");
                text::push_str(&mut r, reason.as_str());
                r
            },
            PathsError::SocketPathTooLong { len, path } => {
                let mut r = text::owned("socket path is ");
                text::push_decimal(&mut r, *len as u64);
                text::push_str(&mut r, " bytes, over the 100-byte limit: ");
                text::push_str(&mut r, path.as_str());
                r
            },
            PathsError::Io(message) => {
                let mut r = text::owned("io: ");
                text::push_str(&mut r, message.as_str());
                r
            },
        }
    }
}

// ---------------------------------------------------------------------------
// Instance names.
// ---------------------------------------------------------------------------

/// ASCII letters and digits lower-cased, everything else a dash.
pub open spec fn slug_char(c: char) -> char {
    if text::is_alnum(c) {
        text::lower(c)
    } else {
        '-'
    }
}

/// How many `c` the text begins with.
pub open spec fn leading(s: Seq<char>, c: char) -> nat
    decreases s.len(),
{
    if s.len() > 0 && s[0] == c {
        1 + leading(s.drop_first(), c)
    } else {
        0
    }
}

/// How many `c` the text ends with.
pub open spec fn trailing(s: Seq<char>, c: char) -> nat
    decreases s.len(),
{
    if s.len() > 0 && s.last() == c {
        1 + trailing(s.drop_last(), c)
    } else {
        0
    }
}

/// The text with the `c` at either end taken off.
pub open spec fn trim_matches(s: Seq<char>, c: char) -> Seq<char> {
    let t = s.skip(leading(s, c) as int);
    t.take(t.len() - trailing(t, c))
}

/// Lower-case and filesystem-safe; `project` when nothing usable is left.
pub open spec fn slug(name: Seq<char>) -> Seq<char> {
    let trimmed = trim_matches(name.map_values(|c: char| slug_char(c)), '-');
    if trimmed.len() == 0 {
        "project"@
    } else {
        trimmed
    }
}

proof fn lemma_leading_bound(s: Seq<char>, c: char)
    ensures
        leading(s, c) <= s.len(),
        forall|i: int| 0 <= i < leading(s, c) ==> s[i] == c,
        leading(s, c) < s.len() ==> s[leading(s, c) as int] != c,
    decreases s.len(),
{
    if s.len() > 0 && s[0] == c {
        lemma_leading_bound(s.drop_first(), c);
        assert forall|i: int| 0 <= i < leading(s, c) implies s[i] == c by {
            if i > 0 {
                assert(s[i] == s.drop_first()[i - 1]);
            }
        }
    }
}

proof fn lemma_trailing_bound(s: Seq<char>, c: char)
    ensures
        trailing(s, c) <= s.len(),
        trailing(s, c) < s.len() ==> s[s.len() - 1 - trailing(s, c)] != c,
    decreases s.len(),
{
    if s.len() > 0 && s.last() == c {
        lemma_trailing_bound(s.drop_last(), c);
    }
}

/// A text that neither begins nor ends with `c` is its own trim.
proof fn lemma_trim_matches_none(s: Seq<char>, c: char)
    requires
        s.len() > 0 ==> s[0] != c && s.last() != c,
    ensures
        trim_matches(s, c) == s,
{
    assert(s.skip(0) =~= s);
    assert(s.take(s.len() as int) =~= s);
}

/// Every character of a slug is a lower-case letter, a digit or a dash, and
/// it neither starts nor ends with a dash and is never empty.
pub open spec fn slug_shaped(t: Seq<char>) -> bool {
    &&& t.len() > 0
    &&& t[0] != '-'
    &&& t.last() != '-'
    &&& forall|i: int| 0 <= i < t.len() ==> #[trigger] slug_char(t[i]) == t[i]
}

proof fn lemma_slug_shaped(name: Seq<char>)
    ensures
        slug_shaped(slug(name)),
{
    let cleaned = name.map_values(|c: char| slug_char(c));
    let t = cleaned.skip(leading(cleaned, '-') as int);
    lemma_leading_bound(cleaned, '-');
    lemma_trailing_bound(t, '-');
    let trimmed = t.take(t.len() - trailing(t, '-'));
    if trimmed.len() == 0 {
        reveal_strlit("project");
        assert forall|i: int| 0 <= i < "project"@.len() implies #[trigger] slug_char(
            "project"@[i],
        ) == "project"@[i] by {}
    } else {
        assert(trimmed[0] == t[0]);
        assert(trimmed.last() == t[t.len() - 1 - trailing(t, '-')]);
        assert forall|i: int| 0 <= i < trimmed.len() implies #[trigger] slug_char(trimmed[i])
            == trimmed[i] by {
            let j = i + leading(cleaned, '-');
            assert(trimmed[i] == cleaned[j]);
            assert(cleaned[j] == slug_char(name[j]));
        }
    }
}

/// Slugging a slug changes nothing: a client and the daemon it spawns both
/// slug the same name and must land on the same socket.
pub proof fn law_slug_idempotent(name: Seq<char>)
    ensures
        slug(slug(name)) == slug(name),
{
    let t = slug(name);
    lemma_slug_shaped(name);
    let cleaned = t.map_values(|c: char| slug_char(c));
    assert(cleaned =~= t);
    lemma_trim_matches_none(t, '-');
}

/// A slug is never empty, is made of lower-case ASCII letters, digits and
/// dashes, neither starts nor ends with a dash, and slugging it again
/// changes nothing.
pub proof fn law_a_slug_is_shaped(name: Seq<char>)
    ensures
        slug(name).len() > 0,
        slug(name)[0] != '-',
        slug(name).last() != '-',
        forall|i: int|
            0 <= i < slug(name).len() ==> ('a' <= #[trigger] slug(name)[i] <= 'z') || ('0'
                <= slug(name)[i] <= '9') || slug(name)[i] == '-',
        slug(slug(name)) == slug(name),
{
    lemma_slug_shaped(name);
    law_slug_idempotent(name);
    let t = slug(name);
    assert forall|i: int| 0 <= i < t.len() implies ('a' <= #[trigger] t[i] <= 'z') || ('0' <= t[i]
        <= '9') || t[i] == '-' by {
        assert(slug_char(t[i]) == t[i]);
        let c = t[i];
        if 'A' <= c && c <= 'Z' {
            assert(text::lower(c) == ((c as u32) + 32) as char);
            assert(false);
        }
    }
}

/// `slug` on text.
pub fn slug_text(name: &str) -> (r: String)
    ensures
        r@ == slug(name@),
{
    let v = text::chars_of(name);
    let mut cleaned: Vec<char> = Vec::new();
    let mut i: usize = 0;
    while i < v.len()
        invariant
            i <= v@.len(),
            cleaned@ == v@.take(i as int).map_values(|c: char| slug_char(c)),
        decreases v.len() - i,
    {
        let c = v[i];
        if text::is_alnum_char(c) {
            cleaned.push(text::lower_char(c));
        } else {
            cleaned.push('-');
        }
        i = i + 1;
        assert(cleaned@ =~= v@.take(i as int).map_values(|c: char| slug_char(c)));
    }
    assert(v@.take(v@.len() as int) =~= v@);
    let ghost cs = cleaned@;
    let mut a: usize = 0;
    assert(cs.skip(0) =~= cs);
    while a < cleaned.len() && cleaned[a] == '-'
        invariant
            a <= cs.len(),
            cs == cleaned@,
            leading(cs, '-') == a + leading(cs.skip(a as int), '-'),
        decreases cleaned.len() - a,
    {
        assert(cs.skip(a as int).drop_first() =~= cs.skip(a + 1));
        a = a + 1;
    }
    let ghost t = cs.skip(a as int);
    let mut b: usize = cleaned.len();
    assert(cs.subrange(a as int, b as int) =~= t);
    while b > a && cleaned[b - 1] == '-'
        invariant
            a <= b <= cs.len(),
            cs == cleaned@,
            t == cs.skip(a as int),
            trailing(t, '-') == (cs.len() - b) + trailing(cs.subrange(a as int, b as int), '-'),
        decreases b,
    {
        let ghost u = cs.subrange(a as int, b as int);
        assert(u.drop_last() =~= cs.subrange(a as int, b - 1));
        b = b - 1;
    }
    assert(t.take(t.len() - trailing(t, '-')) =~= cs.subrange(a as int, b as int));
    if a == b {
        return text::owned("project");
    }
    text::string_of_range(&cleaned, a, b)
}

/// FNV-1a, 64-bit, over bytes.
pub open spec fn fnv1a(bytes: Seq<u8>) -> u64
    decreases bytes.len(),
{
    if bytes.len() == 0 {
        0xcbf2_9ce4_8422_2325u64
    } else {
        (fnv1a(bytes.drop_last()) ^ (bytes.last() as u64)).wrapping_mul(0x0000_0100_0000_01b3u64)
    }
}

/// FNV-1a, 64-bit: stable across toolchains, unlike `DefaultHasher`.
pub fn fnv1a64(bytes: &[u8]) -> (r: u64)
    ensures
        r == fnv1a(bytes@),
{
    let mut hash: u64 = 0xcbf2_9ce4_8422_2325;
    let mut i: usize = 0;
    while i < bytes.len()
        invariant
            i <= bytes@.len(),
            hash == fnv1a(bytes@.take(i as int)),
        decreases bytes.len() - i,
    {
        assert(bytes@.take(i + 1).drop_last() =~= bytes@.take(i as int));
        hash = (hash ^ (bytes[i] as u64)).wrapping_mul(0x0000_0100_0000_01b3);
        i = i + 1;
    }
    assert(bytes@.take(bytes@.len() as int) =~= bytes@);
    hash
}

/// The low 48 bits: twelve hex digits' worth.
pub fn hash_mask() -> (r: u64)
    ensures
        r == 0x0000_ffff_ffff_ffffu64,
{
    let r = u64::MAX >> 16u64;
    assert(u64::MAX >> 16u64 == 0x0000_ffff_ffff_ffffu64) by (bit_vector);
    r
}

/// The lower-case hex digit for a nibble.
pub open spec fn hex_char(n: u64) -> char {
    if n < 10 {
        ((n + 48) as u32) as char
    } else {
        ((n + 87) as u32) as char
    }
}

/// `v` as exactly twelve lower-case hex digits, most significant first.
pub open spec fn hex12(v: u64) -> Seq<char> {
    Seq::new(12, |k: int| hex_char((v >> (4 * (11 - k)) as u64) & 0xf))
}

fn hex_char_exec(n: u64) -> (c: char)
    requires
        n < 16,
    ensures
        c == hex_char(n),
{
    if n < 10 {
        ((n + 48) as u8) as char
    } else {
        ((n + 87) as u8) as char
    }
}

/// The readable name of a project root: its last component, or `root`.
pub open spec fn root_name(root: Seq<char>) -> Seq<char> {
    match pathname::file_name(root) {
        Some(name) => name,
        None => "root"@,
    }
}

/// `<readable>-<hash>`: the first sixteen characters of the slugged
/// directory name, and twelve hex digits of the FNV-1a hash of the root's
/// bytes.
pub open spec fn instance_text(root: Seq<char>) -> Seq<char> {
    let readable = slug(root_name(root));
    readable.take(if readable.len() < 16 {
        readable.len() as int
    } else {
        16
    }) + seq!['-'] + hex12(fnv1a(encode_utf8(root)) & 0x0000_ffff_ffff_ffffu64)
}

/// A stable, filesystem-safe name for one project root.
pub fn instance_for_root(root: &str) -> (r: String)
    ensures
        r@ == instance_text(root@),
{
    let v = text::chars_of(root);
    let name = match pathname::file_name_bounds(&v) {
        Some((a, b)) => text::string_of_range(&v, a, b),
        None => text::owned("root"),
    };
    let readable = slug_text(name.as_str());
    let rv = text::chars_of(readable.as_str());
    let take = if rv.len() < MAX_SLUG_CHARS {
        rv.len()
    } else {
        MAX_SLUG_CHARS
    };
    let mut r = text::string_of_range(&rv, 0, take);
    assert(rv@.subrange(0, take as int) =~= rv@.take(take as int));
    text::push_char(&mut r, '-');
    let hash = fnv1a64(root.as_bytes()) & hash_mask();
    let ghost before = r@;
    let mut k: usize = 0;
    while k < HASH_HEX_CHARS
        invariant
            k <= 12,
            r@ == before + hex12(hash).take(k as int),
        decreases 12 - k,
    {
        let shift: u64 = (4 * (11 - k)) as u64;
        let nibble = (hash >> shift) & 0xf;
        assert((hash >> shift) & 0xf < 16) by (bit_vector);
        text::push_char(&mut r, hex_char_exec(nibble));
        k = k + 1;
        assert(hex12(hash).take(k as int) =~= hex12(hash).take(k - 1).push(
            hex_char((hash >> shift) & 0xf),
        ));
    }
    assert(hex12(hash).take(12) =~= hex12(hash));
    r
}

/// Whether a name says anything once its whitespace is gone.
pub open spec fn blank(s: Seq<char>) -> bool {
    text::trim(s).len() == 0
}

fn is_blank(s: &str) -> (r: bool)
    ensures
        r == blank(s@),
{
    let v = text::chars_of(s);
    let (a, b) = text::trim_bounds(&v);
    a == b
}

/// The instance name, in precedence order: an explicit name (the
/// `--instance` flag), then the one from the environment, then the project
/// root's. A blank name counts as none.
pub fn instance_name(explicit: Option<&str>, from_env: Option<&str>, root: &str) -> (r: String)
    ensures
        r@ == (match explicit {
            Some(name) if !blank(name@) => slug(name@),
            _ => match from_env {
                Some(name) if !blank(name@) => slug(name@),
                _ => instance_text(root@),
            },
        }),
{
    if let Some(name) = explicit {
        if !is_blank(name) {
            return slug_text(name);
        }
    }
    if let Some(name) = from_env {
        if !is_blank(name) {
            return slug_text(name);
        }
    }
    instance_for_root(root)
}

// ---------------------------------------------------------------------------
// Directories and the files in them.
// ---------------------------------------------------------------------------

/// `<dir>/lazydap-<instance><suffix>`.
pub open spec fn instance_file(dir: Seq<char>, instance: Seq<char>, suffix: Seq<char>) -> Seq<
    char,
> {
    pathname::join(dir, "lazydap-"@ + instance + suffix)
}

fn instance_file_exec(dir: &str, instance: &str, suffix: &str) -> (r: String)
    ensures
        r@ == instance_file(dir@, instance@, suffix@),
{
    let mut name = text::owned("lazydap-");
    text::push_str(&mut name, instance);
    text::push_str(&mut name, suffix);
    pathname::join_path(dir, name.as_str())
}

/// The Unix socket the daemon binds and clients connect to, refused rather
/// than truncated when it would be longer than 100 bytes.
pub fn socket_path(runtime_dir: &str, instance: &str) -> (r: Result<String, PathsError>)
    ensures
        ({
            let path = instance_file(runtime_dir@, instance@, ".sock"@);
            if encode_utf8(path).len() > 100 {
                r matches Err(PathsError::SocketPathTooLong { len, path: p }) && p@ == path
                    && len == encode_utf8(path).len()
            } else {
                r matches Ok(p) && p@ == path
            }
        }),
{
    let path = instance_file_exec(runtime_dir, instance, ".sock");
    let len = path.as_str().as_bytes().len();
    if len > MAX_SOCKET_PATH_BYTES {
        return Err(PathsError::SocketPathTooLong { len, path });
    }
    Ok(path)
}

/// The file clients race for before spawning a daemon.
pub fn lock_path(runtime_dir: &str, instance: &str) -> (r: String)
    ensures
        r@ == instance_file(runtime_dir@, instance@, ".lock"@),
{
    instance_file_exec(runtime_dir, instance, ".lock")
}

/// Where the running daemon records its PID.
pub fn pid_path(data_dir: &str, instance: &str) -> (r: String)
    ensures
        r@ == instance_file(data_dir@, instance@, ".pid"@),
{
    instance_file_exec(data_dir, instance, ".pid")
}

/// Where a backgrounded daemon's logs go.
pub fn log_path(data_dir: &str, instance: &str) -> (r: String)
    ensures
        r@ == instance_file(data_dir@, instance@, ".log"@),
{
    instance_file_exec(data_dir, instance, ".log")
}

/// The runtime directory, given the environment override, the platform's
/// runtime directory and this user's id: the override, else
/// `<runtime>/lazydap`, else `/tmp/lazydap-<uid>`.
pub fn runtime_dir_from(
    env_override: Option<&str>,
    runtime: Option<String>,
    uid: Result<u32, PathsError>,
) -> (r: Result<String, PathsError>)
    ensures
        match usable_override(opt_view(env_override)) {
            Some(dir) => r matches Ok(d) && d@ == dir,
            None => match runtime {
                Some(base) => r matches Ok(d) && d@ == pathname::join(base@, "lazydap"@),
                None => match uid {
                    Ok(id) => r matches Ok(d) && d@ == "/tmp/lazydap-"@ + text::decimal(id as nat),
                    Err(e) => r == Err::<String, PathsError>(e),
                },
            },
        },
{
    if let Some(dir) = env_override {
        if text::chars_of(dir).len() > 0 {
            return Ok(text::owned(dir));
        }
    }
    match runtime {
        Some(base) => Ok(pathname::join_path(base.as_str(), "lazydap")),
        None => match uid {
            Ok(id) => {
                let mut d = text::owned("/tmp/lazydap-");
                text::push_decimal(&mut d, id as u64);
                Ok(d)
            },
            Err(e) => Err(e),
        },
    }
}

/// The runtime directory for this machine: the override, else the platform's
/// runtime directory (which depends on the environment), else a per-user
/// directory under `/tmp`.
pub fn runtime_dir_candidate(env_override: Option<&str>, uid: Result<u32, PathsError>) -> (r:
    Result<String, PathsError>)
    ensures
        match usable_override(opt_view(env_override)) {
            Some(dir) => r matches Ok(d) && d@ == dir,
            None => match r {
                Ok(d) => (exists|base: Seq<char>| d@ == #[trigger] pathname::join(base, "lazydap"@))
                    || (uid matches Ok(id) && d@ == "/tmp/lazydap-"@ + text::decimal(id as nat)),
                Err(e) => uid == Err::<u32, PathsError>(e),
            },
        },
{
    let runtime = if let Some(dir) = env_override {
        if text::chars_of(dir).len() > 0 {
            None
        } else {
            dirs_env::runtime_dir()
        }
    } else {
        dirs_env::runtime_dir()
    };
    let ghost rt = runtime;
    let r = runtime_dir_from(env_override, runtime, uid);
    proof {
        if usable_override(opt_view(env_override)) is None {
            if let Some(base) = rt {
                assert(r matches Ok(d) && d@ == pathname::join(base@, "lazydap"@));
            }
        }
    }
    r
}

/// The data directory, given the override and the platform's data directory.
pub fn data_dir_from(env_override: Option<&str>, data: Option<String>) -> (r: Result<
    String,
    PathsError,
>)
    ensures
        match usable_override(opt_view(env_override)) {
            Some(dir) => r matches Ok(d) && d@ == dir,
            None => match data {
                Some(base) => r matches Ok(d) && d@ == pathname::join(base@, "lazydap"@),
                None => r == Err::<String, PathsError>(PathsError::NoDataDirectory),
            },
        },
{
    if let Some(dir) = env_override {
        if text::chars_of(dir).len() > 0 {
            return Ok(text::owned(dir));
        }
    }
    match data {
        Some(base) => Ok(pathname::join_path(base.as_str(), "lazydap")),
        None => Err(PathsError::NoDataDirectory),
    }
}

/// The data directory for this machine: the override, else the platform's
/// (which depends on the environment).
pub fn data_dir_candidate(env_override: Option<&str>) -> (r: Result<String, PathsError>)
    ensures
        match usable_override(opt_view(env_override)) {
            Some(dir) => r matches Ok(d) && d@ == dir,
            None => match r {
                Ok(d) => exists|base: Seq<char>| d@ == #[trigger] pathname::join(base, "lazydap"@),
                Err(e) => e == PathsError::NoDataDirectory,
            },
        },
{
    if let Some(dir) = env_override {
        if text::chars_of(dir).len() > 0 {
            return Ok(text::owned(dir));
        }
    }
    let data = dirs_env::data_dir();
    let ghost dt = data;
    let r = data_dir_from(None, data);
    proof {
        if let Some(base) = dt {
            assert(r matches Ok(d) && d@ == pathname::join(base@, "lazydap"@));
        }
    }
    r
}

/// What is at a directory path, as `lstat` saw it.
#[derive(Debug, Clone, Copy, PartialEq, Eq, Structural)]
pub struct DirStatus {
    pub is_symlink: bool,
    pub is_dir: bool,
    pub owner: u32,
    pub mode: u32,
}

/// Whether a directory is safe to hold the daemon's socket: not a symlink
/// (whoever made one would choose where the socket goes), a directory, and
/// ours. `Ok(true)` when its mode is not already exactly owner-only and has
/// to be tightened.
pub fn check_private_dir(path: &str, status: DirStatus, expected_uid: u32) -> (r: Result<
    bool,
    PathsError,
>)
    ensures
        if status.is_symlink {
            r matches Err(PathsError::UnsafeDirectory { path: p, reason }) && p@ == path@
                && reason@ == "it is a symlink, and following it would let whoever created it choose where lazydap puts its socket"@
        } else if !status.is_dir {
            r matches Err(PathsError::UnsafeDirectory { path: p, reason }) && p@ == path@
                && reason@ == "it exists but is not a directory"@
        } else if status.owner != expected_uid {
            r matches Err(PathsError::RuntimeDirNotOurs { path: p, owner, expected }) && p@
                == path@ && owner == status.owner && expected == expected_uid
        } else {
            r == Ok::<bool, PathsError>((status.mode & 0o777) != 0o700)
        },
{
    if status.is_symlink {
        return Err(
            PathsError::UnsafeDirectory {
                path: text::owned(path),
                reason: text::owned(
                    "it is a symlink, and following it would let whoever created it choose where lazydap puts its socket",
                ),
            },
        );
    }
    if !status.is_dir {
        return Err(
            PathsError::UnsafeDirectory {
                path: text::owned(path),
                reason: text::owned("it exists but is not a directory"),
            },
        );
    }
    if status.owner != expected_uid {
        return Err(
            PathsError::RuntimeDirNotOurs {
                path: text::owned(path),
                owner: status.owner,
                expected: expected_uid,
            },
        );
    }
    Ok((status.mode & 0o777) != 0o700)
}

// ---------------------------------------------------------------------------
// Project roots.
// ---------------------------------------------------------------------------

/// What has to be at a marker's path for it to count.
#[derive(Debug, Clone, Copy, PartialEq, Eq, Structural)]
pub enum Shape {
    /// A directory and nothing else: a file called `.lazydap` is somebody's
    /// note, not lazydap's state directory.
    Directory,
    /// A file or a directory: `.git` is a plain file in a worktree.
    Either,
}

/// One thing whose presence in a directory makes it a project root.
#[derive(Debug, Clone, Copy, PartialEq, Eq)]
pub struct Marker {
    pub name: &'static str,
    pub shape: Shape,
    /// Whether finding it in the home directory counts. Only `.lazydap/`
    /// does: a dotfiles repository in `~` must not make every directory
    /// below it one project.
    pub at_home: bool,
}

impl View for Marker {
    type V = (Seq<char>, Shape, bool);

    open spec fn view(&self) -> (Seq<char>, Shape, bool) {
        (self.name@, self.shape, self.at_home)
    }
}

/// What the markers of a tier say.
pub open spec fn marker_views(tier: Seq<Marker>) -> Seq<(Seq<char>, Shape, bool)> {
    tier.map_values(|m: Marker| m@)
}

/// The markers, tier by tier in priority order: `.lazydap/`, then `.git`,
/// then a language manifest. Each tier is searched all the way up before the
/// next one is tried.
pub open spec fn marker_table() -> Seq<Seq<(Seq<char>, Shape, bool)>> {
    seq![
        seq![(".lazydap"@, Shape::Directory, true)],
        seq![(".git"@, Shape::Either, false)],
        seq![
            ("Cargo.toml"@, Shape::Either, false),
            ("package.json"@, Shape::Either, false),
            ("pyproject.toml"@, Shape::Either, false),
        ],
    ]
}

/// The marker table.
pub fn root_markers() -> (r: Vec<Vec<Marker>>)
    ensures
        r@.len() == marker_table().len(),
        forall|t: int|
            0 <= t < r@.len() ==> #[trigger] marker_views(r@[t]@)
                == marker_table()[t],
{
    let mut first = Vec::new();
    first.push(Marker { name: ".lazydap", shape: Shape::Directory, at_home: true });
    let mut second = Vec::new();
    second.push(Marker { name: ".git", shape: Shape::Either, at_home: false });
    let mut third = Vec::new();
    third.push(Marker { name: "Cargo.toml", shape: Shape::Either, at_home: false });
    third.push(Marker { name: "package.json", shape: Shape::Either, at_home: false });
    third.push(Marker { name: "pyproject.toml", shape: Shape::Either, at_home: false });
    assert(marker_views(first@) =~= marker_table()[0]);
    assert(marker_views(second@) =~= marker_table()[1]);
    assert(marker_views(third@) =~= marker_table()[2]);
    let mut r = Vec::new();
    r.push(first);
    r.push(second);
    r.push(third);
    r
}

/// Something found at `<dir>/<name>`.
#[derive(Debug, Clone, PartialEq, Eq)]
pub struct Entry {
    pub name: String,
    pub is_dir: bool,
}

/// One ancestor of the starting directory, nearest first, with which marker
/// names exist in it.
#[derive(Debug, Clone, PartialEq, Eq)]
pub struct Ancestor {
    pub dir: String,
    pub entries: Vec<Entry>,
}

/// Whether the marker is in `a`, in the shape it asks for.
pub open spec fn found_in(a: Ancestor, marker: (Seq<char>, Shape, bool)) -> bool {
    exists|k: int|
        0 <= k < a.entries@.len() && #[trigger] a.entries@[k].name@ == marker.0 && (marker.1
            == Shape::Either || a.entries@[k].is_dir)
}

/// Whether `a` holds a marker of the tier; at the home directory only one
/// that is allowed there counts.
pub open spec fn counts(a: Ancestor, tier: Seq<(Seq<char>, Shape, bool)>, at_home: bool) -> bool {
    exists|m: int| 0 <= m < tier.len() && (!at_home || tier[m].2) && #[trigger] found_in(a, tier[m])
}

/// Whether `a` is the home directory.
pub open spec fn is_home(a: Ancestor, home: Option<Seq<char>>) -> bool {
    home == Some(a.dir@)
}

/// The nearest ancestor, from the `i`-th on, holding a marker of the tier;
/// the walk never climbs past home.
pub open spec fn nearest(
    ancestors: Seq<Ancestor>,
    tier: Seq<(Seq<char>, Shape, bool)>,
    home: Option<Seq<char>>,
    i: int,
) -> Option<Seq<char>>
    decreases ancestors.len() - i,
{
    if i < 0 || i >= ancestors.len() {
        None
    } else if counts(ancestors[i], tier, is_home(ancestors[i], home)) {
        Some(ancestors[i].dir@)
    } else if is_home(ancestors[i], home) {
        None
    } else {
        nearest(ancestors, tier, home, i + 1)
    }
}

fn found_in_exec(a: &Ancestor, marker: &Marker) -> (r: bool)
    ensures
        r == found_in(*a, marker@),
{
    let mut k: usize = 0;
    while k < a.entries.len()
        invariant
            k <= a.entries@.len(),
            forall|j: int|
                0 <= j < k ==> !(a.entries@[j].name@ == marker.name@ && (marker.shape
                    == Shape::Either || a.entries@[j].is_dir)),
        decreases a.entries.len() - k,
    {
        let e = &a.entries[k];
        if text::str_eq(e.name.as_str(), marker.name) && (marker.shape == Shape::Either
            || e.is_dir) {
            return true;
        }
        k = k + 1;
    }
    proof {
        if found_in(*a, marker@) {
            let j = choose|j: int|
                0 <= j < a.entries@.len() && #[trigger] a.entries@[j].name@ == marker@.0 && (
                marker@.1 == Shape::Either || a.entries@[j].is_dir);
            assert(!(a.entries@[j].name@ == marker.name@ && (marker.shape == Shape::Either
                || a.entries@[j].is_dir)));
        }
    }
    false
}

fn counts_exec(a: &Ancestor, tier: &Vec<Marker>, at_home: bool) -> (r: bool)
    ensures
        r == counts(*a, marker_views(tier@), at_home),
{
    let ghost views = marker_views(tier@);
    let mut m: usize = 0;
    while m < tier.len()
        invariant
            m <= tier@.len(),
            views == marker_views(tier@),
            forall|j: int| 0 <= j < m ==> !((!at_home || views[j].2) && #[trigger] found_in(*a, views[j])),
        decreases tier.len() - m,
    {
        if (!at_home || tier[m].at_home) && found_in_exec(a, &tier[m]) {
            assert((!at_home || views[m as int].2) && found_in(*a, views[m as int]));
            return true;
        }
        m = m + 1;
    }
    false
}

/// Nearest ancestor holding a marker of the tier, stopping at home.
pub fn nearest_ancestor_containing(
    ancestors: &Vec<Ancestor>,
    tier: &Vec<Marker>,
    home: Option<&str>,
) -> (r: Option<String>)
    ensures
        match nearest(ancestors@, marker_views(tier@), opt_view(home), 0) {
            Some(dir) => r matches Some(d) && d@ == dir,
            None => r is None,
        },
{
    let ghost views = marker_views(tier@);
    let mut i: usize = 0;
    while i < ancestors.len()
        invariant
            i <= ancestors@.len(),
            views == marker_views(tier@),
            nearest(ancestors@, views, opt_view(home), 0) == nearest(
                ancestors@,
                views,
                opt_view(home),
                i as int,
            ),
        decreases ancestors.len() - i,
    {
        let a = &ancestors[i];
        let at_home = match home {
            Some(h) => text::str_eq(h, a.dir.as_str()),
            None => false,
        };
        assert(at_home == is_home(ancestors@[i as int], opt_view(home)));
        if counts_exec(a, tier, at_home) {
            return Some(text::owned(a.dir.as_str()));
        }
        if at_home {
            return None;
        }
        i = i + 1;
    }
    None
}

/// The project root: the nearest ancestor holding a marker of the first tier
/// found anywhere up to home, else the starting directory itself.
pub open spec fn project_root_of(
    start: Seq<char>,
    ancestors: Seq<Ancestor>,
    tiers: Seq<Seq<(Seq<char>, Shape, bool)>>,
    home: Option<Seq<char>>,
) -> Seq<char>
    decreases tiers.len(),
{
    if tiers.len() == 0 {
        start
    } else {
        match nearest(ancestors, tiers[0], home, 0) {
            Some(root) => root,
            None => project_root_of(start, ancestors, tiers.drop_first(), home),
        }
    }
}

/// The project root for `start`, given its ancestors nearest first (`start`
/// itself included) and what each holds, and the home directory.
pub fn project_root_below(start: &str, ancestors: &Vec<Ancestor>, home: Option<&str>) -> (r:
    String)
    ensures
        r@ == project_root_of(start@, ancestors@, marker_table(), opt_view(home)),
{
    let tiers = root_markers();
    let mut t: usize = 0;
    assert(marker_table().skip(0) =~= marker_table());
    while t < tiers.len()
        invariant
            t <= tiers@.len(),
            tiers@.len() == marker_table().len(),
            forall|u: int|
                0 <= u < tiers@.len() ==> #[trigger] marker_views(tiers@[u]@)
                    == marker_table()[u],
            project_root_of(start@, ancestors@, marker_table(), opt_view(home))
                == project_root_of(start@, ancestors@, marker_table().skip(t as int), opt_view(home)),
        decreases tiers.len() - t,
    {
        let ghost rest = marker_table().skip(t as int);
        assert(rest[0] == marker_views(tiers@[t as int]@));
        assert(rest.drop_first() =~= marker_table().skip(t + 1));
        if let Some(root) = nearest_ancestor_containing(ancestors, &tiers[t], home) {
            return root;
        }
        t = t + 1;
    }
    text::owned(start)
}

/// Whether `a` has an entry called `name`, of any kind.
pub open spec fn has_entry(a: Ancestor, name: Seq<char>) -> bool {
    exists|k: int| 0 <= k < a.entries@.len() && #[trigger] a.entries@[k].name@ == name
}

/// Whether `a` has a directory called `name`.
pub open spec fn has_dir(a: Ancestor, name: Seq<char>) -> bool {
    exists|k: int|
        0 <= k < a.entries@.len() && #[trigger] a.entries@[k].name@ == name && a.entries@[k].is_dir
}

/// From the `i`-th ancestor on, no ancestor holds a marker of the tier.
proof fn lemma_nearest_none(
    ancestors: Seq<Ancestor>,
    tier: Seq<(Seq<char>, Shape, bool)>,
    home: Option<Seq<char>>,
    i: int,
)
    requires
        0 <= i,
        forall|k: int|
            i <= k < ancestors.len() ==> !#[trigger] counts(ancestors[k], tier, false) && !counts(
                ancestors[k],
                tier,
                true,
            ),
    ensures
        nearest(ancestors, tier, home, i) is None,
    decreases ancestors.len() - i,
{
    if i < ancestors.len() {
        assert(!counts(ancestors[i], tier, false) && !counts(ancestors[i], tier, true));
        lemma_nearest_none(ancestors, tier, home, i + 1);
    }
}

/// The walk from the `i`-th ancestor stops at the `j`-th when it is the
/// first from there on that holds a marker of the tier, and none before it
/// is home.
proof fn lemma_nearest_at(
    ancestors: Seq<Ancestor>,
    tier: Seq<(Seq<char>, Shape, bool)>,
    home: Option<Seq<char>>,
    i: int,
    j: int,
)
    requires
        0 <= i <= j < ancestors.len(),
        counts(ancestors[j], tier, is_home(ancestors[j], home)),
        forall|k: int|
            i <= k < j ==> !#[trigger] is_home(ancestors[k], home) && !counts(
                ancestors[k],
                tier,
                false,
            ),
    ensures
        nearest(ancestors, tier, home, i) == Some(ancestors[j].dir@),
    decreases j - i,
{
    if i < j {
        assert(!is_home(ancestors[i], home) && !counts(ancestors[i], tier, false));
        lemma_nearest_at(ancestors, tier, home, i + 1, j);
    }
}

/// A `.git` entry marks its directory as the project root whether it is a
/// directory or a plain file (as in a worktree or a submodule): when no
/// ancestor holds a `.lazydap` directory, the root is the nearest ancestor
/// holding `.git` in either shape, provided the walk reaches it before home.
pub proof fn law_git_in_either_shape_marks_the_root(
    start: Seq<char>,
    ancestors: Seq<Ancestor>,
    home: Option<Seq<char>>,
    j: int,
)
    requires
        0 <= j < ancestors.len(),
        has_entry(ancestors[j], ".git"@),
        !is_home(ancestors[j], home),
        forall|k: int|
            0 <= k < j ==> !#[trigger] has_entry(ancestors[k], ".git"@) && !is_home(
                ancestors[k],
                home,
            ),
        forall|k: int| 0 <= k < ancestors.len() ==> !#[trigger] has_dir(ancestors[k], ".lazydap"@),
    ensures
        project_root_of(start, ancestors, marker_table(), home) == ancestors[j].dir@,
{
    let table = marker_table();
    let first = table[0];
    let second = table[1];
    assert forall|k: int| 0 <= k < ancestors.len() implies !#[trigger] counts(
        ancestors[k],
        first,
        false,
    ) && !counts(ancestors[k], first, true) by {
        assert(!has_dir(ancestors[k], ".lazydap"@));
        if counts(ancestors[k], first, false) || counts(ancestors[k], first, true) {
            assert(found_in(ancestors[k], first[0]));
            let e = choose|e: int|
                0 <= e < ancestors[k].entries@.len() && #[trigger] ancestors[k].entries@[e].name@
                    == first[0].0 && (first[0].1 == Shape::Either
                    || ancestors[k].entries@[e].is_dir);
            assert(ancestors[k].entries@[e].name@ == ".lazydap"@);
        }
    }
    lemma_nearest_none(ancestors, first, home, 0);
    assert forall|k: int| 0 <= k < j implies !#[trigger] is_home(ancestors[k], home) && !counts(
        ancestors[k],
        second,
        false,
    ) by {
        assert(!has_entry(ancestors[k], ".git"@));
        if counts(ancestors[k], second, false) {
            assert(found_in(ancestors[k], second[0]));
            let e = choose|e: int|
                0 <= e < ancestors[k].entries@.len() && #[trigger] ancestors[k].entries@[e].name@
                    == second[0].0 && (second[0].1 == Shape::Either
                    || ancestors[k].entries@[e].is_dir);
            assert(ancestors[k].entries@[e].name@ == ".git"@);
        }
    }
    let e = choose|e: int|
        0 <= e < ancestors[j].entries@.len() && #[trigger] ancestors[j].entries@[e].name@
            == ".git"@;
    assert(found_in(ancestors[j], second[0]));
    assert(counts(ancestors[j], second, false));
    lemma_nearest_at(ancestors, second, home, 0, j);
    let rest = table.drop_first();
    assert(rest[0] == second);
    assert(project_root_of(start, ancestors, rest, home) == ancestors[j].dir@);
    assert(project_root_of(start, ancestors, table, home) == project_root_of(
        start,
        ancestors,
        rest,
        home,
    ));
}


/// An explicit `.lazydap` directory is the override: the nearest ancestor
/// holding one is the project root, reached before home or at it, whatever
/// `.git` or manifest sits nearer.
pub proof fn law_lazydap_directory_overrides(
    start: Seq<char>,
    ancestors: Seq<Ancestor>,
    home: Option<Seq<char>>,
    j: int,
)
    requires
        0 <= j < ancestors.len(),
        has_dir(ancestors[j], ".lazydap"@),
        forall|k: int|
            0 <= k < j ==> !#[trigger] has_dir(ancestors[k], ".lazydap"@) && !is_home(
                ancestors[k],
                home,
            ),
    ensures
        project_root_of(start, ancestors, marker_table(), home) == ancestors[j].dir@,
{
    let table = marker_table();
    let first = table[0];
    assert forall|k: int| 0 <= k < j implies !#[trigger] is_home(ancestors[k], home) && !counts(
        ancestors[k],
        first,
        false,
    ) by {
        assert(!has_dir(ancestors[k], ".lazydap"@));
        if counts(ancestors[k], first, false) {
            assert(found_in(ancestors[k], first[0]));
            let e = choose|e: int|
                0 <= e < ancestors[k].entries@.len() && #[trigger] ancestors[k].entries@[e].name@
                    == first[0].0 && (first[0].1 == Shape::Either
                    || ancestors[k].entries@[e].is_dir);
            assert(ancestors[k].entries@[e].name@ == ".lazydap"@);
        }
    }
    let e = choose|e: int|
        0 <= e < ancestors[j].entries@.len() && #[trigger] ancestors[j].entries@[e].name@
            == ".lazydap"@ && ancestors[j].entries@[e].is_dir;
    assert(found_in(ancestors[j], first[0]));
    assert(counts(ancestors[j], first, is_home(ancestors[j], home)));
    lemma_nearest_at(ancestors, first, home, 0, j);
}

/// Where no ancestor holds a `.lazydap` directory, a `.git` or a language
/// manifest, the starting directory is its own root; a plain file called
/// `.lazydap` marks nothing.
pub proof fn law_unmarked_start_is_its_own_root(
    start: Seq<char>,
    ancestors: Seq<Ancestor>,
    home: Option<Seq<char>>,
)
    requires
        forall|k: int|
            0 <= k < ancestors.len() ==> {
                &&& !#[trigger] has_dir(ancestors[k], ".lazydap"@)
                &&& !has_entry(ancestors[k], ".git"@)
                &&& !has_entry(ancestors[k], "Cargo.toml"@)
                &&& !has_entry(ancestors[k], "package.json"@)
                &&& !has_entry(ancestors[k], "pyproject.toml"@)
            },
    ensures
        project_root_of(start, ancestors, marker_table(), home) == start,
{
    let table = marker_table();
    assert forall|t: int, k: int, b: bool|
        0 <= t < table.len() && 0 <= k < ancestors.len() implies !#[trigger] counts(
        ancestors[k],
        table[t],
        b,
    ) by {
        assert(!has_dir(ancestors[k], ".lazydap"@));
        if counts(ancestors[k], table[t], b) {
            let m = choose|m: int|
                0 <= m < table[t].len() && (!b || table[t][m].2) && #[trigger] found_in(
                    ancestors[k],
                    table[t][m],
                );
            let e = choose|e: int|
                0 <= e < ancestors[k].entries@.len() && #[trigger] ancestors[k].entries@[e].name@
                    == table[t][m].0 && (table[t][m].1 == Shape::Either
                    || ancestors[k].entries@[e].is_dir);
            if t == 0 {
                assert(has_dir(ancestors[k], ".lazydap"@));
            } else if t == 1 {
                assert(has_entry(ancestors[k], ".git"@));
            } else if m == 0 {
                assert(has_entry(ancestors[k], "Cargo.toml"@));
            } else if m == 1 {
                assert(has_entry(ancestors[k], "package.json"@));
            } else {
                assert(has_entry(ancestors[k], "pyproject.toml"@));
            }
        }
    }
    let t1 = table.drop_first();
    let t2 = t1.drop_first();
    let t3 = t2.drop_first();
    assert forall|t: int| 0 <= t < table.len() implies #[trigger] nearest(
        ancestors,
        table[t],
        home,
        0,
    ) is None by {
        assert forall|k: int| 0 <= k < ancestors.len() implies !#[trigger] counts(
            ancestors[k],
            table[t],
            false,
        ) && !counts(ancestors[k], table[t], true) by {}
        lemma_nearest_none(ancestors, table[t], home, 0);
    }
    assert(t1[0] == table[1]);
    assert(t2[0] == table[2]);
    assert(t3.len() == 0);
    assert(nearest(ancestors, table[0], home, 0) is None);
    assert(nearest(ancestors, table[1], home, 0) is None);
    assert(nearest(ancestors, table[2], home, 0) is None);
    assert(project_root_of(start, ancestors, t3, home) == start);
    assert(project_root_of(start, ancestors, t2, home) == start);
    assert(project_root_of(start, ancestors, t1, home) == start);
}


/// The walk up to home, home included, finds no marker of the tier; past
/// home it never looks.
proof fn lemma_nearest_none_to_home(
    ancestors: Seq<Ancestor>,
    tier: Seq<(Seq<char>, Shape, bool)>,
    home: Option<Seq<char>>,
    i: int,
    h: int,
)
    requires
        0 <= i <= h < ancestors.len(),
        is_home(ancestors[h], home),
        !counts(ancestors[h], tier, true),
        forall|k: int|
            #![trigger ancestors[k]]
            i <= k < h ==> !counts(ancestors[k], tier, false) && !counts(ancestors[k], tier, true),
    ensures
        nearest(ancestors, tier, home, i) is None,
    decreases h - i,
{
    if i < h {
        assert(!counts(ancestors[i], tier, false) && !counts(ancestors[i], tier, true));
        if !is_home(ancestors[i], home) {
            lemma_nearest_none_to_home(ancestors, tier, home, i + 1, h);
        }
    }
}

/// The walk never climbs past home, and at home only a `.lazydap` directory
/// counts: a home directory that is itself a git repository, or holds a
/// manifest, is not taken for a project root, and nothing above home is
/// looked at. When nothing below home marks a root and home holds no
/// `.lazydap` directory, the starting directory is its own root.
pub proof fn law_home_is_where_the_walk_stops(
    start: Seq<char>,
    ancestors: Seq<Ancestor>,
    home: Option<Seq<char>>,
    h: int,
)
    requires
        0 <= h < ancestors.len(),
        is_home(ancestors[h], home),
        !has_dir(ancestors[h], ".lazydap"@),
        forall|k: int|
            0 <= k < h ==> {
                &&& !#[trigger] has_dir(ancestors[k], ".lazydap"@)
                &&& !has_entry(ancestors[k], ".git"@)
                &&& !has_entry(ancestors[k], "Cargo.toml"@)
                &&& !has_entry(ancestors[k], "package.json"@)
                &&& !has_entry(ancestors[k], "pyproject.toml"@)
            },
    ensures
        project_root_of(start, ancestors, marker_table(), home) == start,
{
    let table = marker_table();
    assert forall|t: int, k: int, b: bool|
        0 <= t < table.len() && 0 <= k <= h && (k < h || b) implies !#[trigger] counts(
        ancestors[k],
        table[t],
        b,
    ) by {
        assert(!has_dir(ancestors[k], ".lazydap"@));
        if counts(ancestors[k], table[t], b) {
            let m = choose|m: int|
                0 <= m < table[t].len() && (!b || table[t][m].2) && #[trigger] found_in(
                    ancestors[k],
                    table[t][m],
                );
            let e = choose|e: int|
                0 <= e < ancestors[k].entries@.len() && #[trigger] ancestors[k].entries@[e].name@
                    == table[t][m].0 && (table[t][m].1 == Shape::Either
                    || ancestors[k].entries@[e].is_dir);
            if t == 0 {
                assert(has_dir(ancestors[k], ".lazydap"@));
            } else if t == 1 {
                assert(!table[t][m].2);
                assert(has_entry(ancestors[k], ".git"@));
            } else if m == 0 {
                assert(!table[t][m].2);
                assert(has_entry(ancestors[k], "Cargo.toml"@));
            } else if m == 1 {
                assert(!table[t][m].2);
                assert(has_entry(ancestors[k], "package.json"@));
            } else {
                assert(!table[t][m].2);
                assert(has_entry(ancestors[k], "pyproject.toml"@));
            }
        }
    }
    assert forall|t: int| 0 <= t < table.len() implies #[trigger] nearest(
        ancestors,
        table[t],
        home,
        0,
    ) is None by {
        assert(!counts(ancestors[h], table[t], true));
        assert forall|k: int| 0 <= k < h implies !#[trigger] counts(
            ancestors[k],
            table[t],
            false,
        ) && !counts(ancestors[k], table[t], true) by {}
        lemma_nearest_none_to_home(ancestors, table[t], home, 0, h);
    }
    let t1 = table.drop_first();
    let t2 = t1.drop_first();
    let t3 = t2.drop_first();
    assert(t1[0] == table[1]);
    assert(t2[0] == table[2]);
    assert(t3.len() == 0);
    assert(nearest(ancestors, table[0], home, 0) is None);
    assert(nearest(ancestors, table[1], home, 0) is None);
    assert(nearest(ancestors, table[2], home, 0) is None);
    assert(project_root_of(start, ancestors, t3, home) == start);
    assert(project_root_of(start, ancestors, t2, home) == start);
    assert(project_root_of(start, ancestors, t1, home) == start);
}


} // verus!
