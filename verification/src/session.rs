//! Sessions: which adapter backs one, where it is in its lifecycle, why it
//! stopped, what it printed and how it ended.
use vstd::prelude::*;

use crate::pathname;
use crate::text;

verus! {

// ---------------------------------------------------------------------------
// Session ids, which are random UUIDs.
// ---------------------------------------------------------------------------

/// The lower-case hex digit for a nibble.
pub open spec fn hex_digit(n: u128) -> char {
    if n < 10 {
        ((n + 48) as u32) as char
    } else {
        ((n + 87) as u32) as char
    }
}

/// The 32 hex digits of a 128-bit value, most significant first.
pub open spec fn hex32(v: u128) -> Seq<char> {
    Seq::new(32, |k: int| hex_digit((v >> (4 * (31 - k)) as u128) & 0xf))
}

/// A UUID in its hyphenated lower-case form, `8-4-4-4-12` hex digits.
pub open spec fn uuid_text(v: u128) -> Seq<char> {
    let h = hex32(v);
    h.subrange(0, 8) + seq!['-'] + h.subrange(8, 12) + seq!['-'] + h.subrange(12, 16) + seq!['-']
        + h.subrange(16, 20) + seq!['-'] + h.subrange(20, 32)
}

/// What `uuid::Uuid::parse_str` makes of a string, when it accepts it.
pub uninterp spec fn uuid_parse(s: Seq<char>) -> Option<u128>;

/// What `uuid::Error`'s `Display` says of a string `uuid::Uuid::parse_str`
/// refuses.
pub uninterp spec fn uuid_error_message(s: Seq<char>) -> Seq<char>;

/// `uuid::Uuid::new_v4`, as its 128 bits: random, with the version nibble set
/// to 4 and the variant bits to `10`, as the crate's source masks them.
#[verifier::external_body]
fn random_uuid_bits() -> (r: u128)
    ensures
        r & 0xF000_C000_0000_0000_0000u128 == 0x4000_8000_0000_0000_0000u128,
{
    uuid::Uuid::new_v4().as_u128()
}

/// `uuid::Uuid::parse_str`: accepted when `uuid_parse` accepts the text, with
/// the value it names, and refused with the error's `Display` text; the
/// hyphenated form `Display` writes is always read back as the value it was
/// written from.
#[verifier::external_body]
fn parse_uuid_bits(s: &str) -> (r: Result<u128, String>)
    ensures
        r is Ok <==> uuid_parse(s@) is Some,
        r matches Ok(v) ==> uuid_parse(s@) == Some(v),
        r matches Err(m) ==> m@ == uuid_error_message(s@),
        r is Ok || forall|v: u128| s@ != #[trigger] uuid_text(v),
        r matches Ok(w) ==> forall|v: u128| s@ == #[trigger] uuid_text(v) ==> w == v,
{
    uuid::Uuid::parse_str(s).map(|u| u.as_u128()).map_err(|e| e.to_string())
}

/// `uuid::Uuid`'s `Display`: the hyphenated lower-case form.
#[verifier::external_body]
fn uuid_bits_text(v: u128) -> (r: String)
    ensures
        r@ == uuid_text(v),
{
    uuid::Uuid::from_u128(v).to_string()
}

/// Identifies one debug session for the lifetime of the daemon that owns it.
#[derive(Debug, Clone, Copy, PartialEq, Eq, Structural, Hash)]
pub struct SessionId(pub u128);

/// A string that is not a session id.
#[derive(Debug, Clone, PartialEq, Eq)]
pub struct BadSessionId {
    pub input: String,
    /// Why the `uuid` crate refused it.
    pub message: String,
}

impl BadSessionId {
    /// The `uuid` crate's reason.
    pub fn to_string(&self) -> (r: String)
        ensures
            r@ == self.message@,
    {
        self.message.clone()
    }
}

impl SessionId {
    /// A fresh random (version 4) id.
    pub fn new() -> (r: SessionId)
        ensures
            r.0 & 0xF000_C000_0000_0000_0000u128 == 0x4000_8000_0000_0000_0000u128,
    {
        SessionId(random_uuid_bits())
    }

    /// The id in the hyphenated form clients see.
    pub fn to_string(&self) -> (r: String)
        ensures
            r@ == uuid_text(self.0),
    {
        uuid_bits_text(self.0)
    }

    /// Reads an id in any form the `uuid` crate accepts.
    pub fn parse(s: &str) -> (r: Result<SessionId, BadSessionId>)
        ensures
            r is Ok <==> uuid_parse(s@) is Some,
            r matches Ok(id) ==> uuid_parse(s@) == Some(id.0),
            r matches Err(e) ==> e.input@ == s@ && e.message@ == uuid_error_message(s@),
            forall|v: u128| s@ == #[trigger] uuid_text(v) ==> r == Ok::<SessionId, BadSessionId>(
                SessionId(v),
            ),
    {
        match parse_uuid_bits(s) {
            Ok(v) => Ok(SessionId(v)),
            Err(message) => Err(BadSessionId { input: text::owned(s), message }),
        }
    }
}


// ---------------------------------------------------------------------------
// Adapters.
// ---------------------------------------------------------------------------

/// Which external debug adapter backs a session. codelldb is the default: a
/// native binary has no extension to classify it by.
#[derive(Debug, Clone, Copy, PartialEq, Eq, Structural)]
pub enum AdapterKind {
    Codelldb,
    Debugpy,
    Delve,
}

pub open spec fn adapter_text(kind: AdapterKind) -> Seq<char> {
    match kind {
        AdapterKind::Codelldb => "codelldb"@,
        AdapterKind::Debugpy => "debugpy"@,
        AdapterKind::Delve => "delve"@,
    }
}

/// The adapter an extension says a program needs.
pub open spec fn adapter_for_extension(ext: Seq<char>) -> Option<AdapterKind> {
    if ext == "py"@ {
        Some(AdapterKind::Debugpy)
    } else if ext == "go"@ {
        Some(AdapterKind::Delve)
    } else if ext == "c"@ || ext == "cc"@ || ext == "cpp"@ || ext == "cxx"@ || ext == "rs"@ {
        Some(AdapterKind::Codelldb)
    } else {
        None
    }
}

/// The adapter a name means, compared case-insensitively, with the aliases a
/// `launch.json` uses.
pub open spec fn adapter_named(word: Seq<char>) -> Option<AdapterKind> {
    let w = text::lower_seq(word);
    if w == "codelldb"@ || w == "lldb"@ {
        Some(AdapterKind::Codelldb)
    } else if w == "debugpy"@ || w == "python"@ {
        Some(AdapterKind::Debugpy)
    } else if w == "delve"@ || w == "dlv"@ || w == "go"@ {
        Some(AdapterKind::Delve)
    } else {
        None
    }
}

impl AdapterKind {
    /// Every adapter lazydap ships.
    pub fn all() -> (r: Vec<AdapterKind>)
        ensures
            r@ == seq![AdapterKind::Codelldb, AdapterKind::Debugpy, AdapterKind::Delve],
    {
        let mut r = Vec::new();
        r.push(AdapterKind::Codelldb);
        r.push(AdapterKind::Debugpy);
        r.push(AdapterKind::Delve);
        r
    }

    pub fn default_kind() -> (r: AdapterKind)
        ensures
            r == AdapterKind::Codelldb,
    {
        AdapterKind::Codelldb
    }

    pub fn as_str(&self) -> (r: &'static str)
        ensures
            r@ == adapter_text(*self),
    {
        match self {
            AdapterKind::Codelldb => "codelldb",
            AdapterKind::Debugpy => "debugpy",
            AdapterKind::Delve => "delve",
        }
    }

    /// Which adapter a program's filename says it needs, read off its
    /// extension alone; `None` leaves the choice to the caller.
    pub fn for_program(program: &str) -> (r: Option<AdapterKind>)
        ensures
            r == (match pathname::extension(program@) {
                Some(ext) => adapter_for_extension(ext),
                None => None,
            }),
    {
        let ext = match pathname::path_extension(program) {
            Some(ext) => ext,
            None => return None,
        };
        if text::is_literal(&ext, "py") {
            Some(AdapterKind::Debugpy)
        } else if text::is_literal(&ext, "go") {
            Some(AdapterKind::Delve)
        } else if text::is_literal(&ext, "c") || text::is_literal(&ext, "cc") || text::is_literal(
            &ext,
            "cpp",
        ) || text::is_literal(&ext, "cxx") || text::is_literal(&ext, "rs") {
            Some(AdapterKind::Codelldb)
        } else {
            None
        }
    }

    /// The adapter a person or a `launch.json` named.
    pub fn parse(s: &str) -> (r: Result<AdapterKind, UnknownAdapter>)
        ensures
            r matches Ok(kind) ==> adapter_named(s@) == Some(kind),
            r matches Err(e) ==> adapter_named(s@) is None && e.0@ == text::lower_seq(s@),
            r is Ok <==> adapter_named(s@) is Some,
    {
        let w = text::lower_string(s);
        if text::is_literal(&w, "codelldb") || text::is_literal(&w, "lldb") {
            Ok(AdapterKind::Codelldb)
        } else if text::is_literal(&w, "debugpy") || text::is_literal(&w, "python") {
            Ok(AdapterKind::Debugpy)
        } else if text::is_literal(&w, "delve") || text::is_literal(&w, "dlv") || text::is_literal(
            &w,
            "go",
        ) {
            Ok(AdapterKind::Delve)
        } else {
            Err(UnknownAdapter(w))
        }
    }
}

/// An adapter name lazydap does not know.
#[derive(Debug, Clone, PartialEq, Eq)]
pub struct UnknownAdapter(pub String);

impl UnknownAdapter {
    /// "unknown adapter: NAME (lazydap ships codelldb, debugpy, delve)".
    pub fn to_string(&self) -> (r: String)
        ensures
            r@ == "unknown adapter: "@ + self.0@ + " (lazydap ships "@ + adapter_text(
                AdapterKind::Codelldb,
            ) + ", "@ + adapter_text(AdapterKind::Debugpy) + ", "@ + adapter_text(
                AdapterKind::Delve,
            ) + seq![')'],
    {
        let mut r = text::owned("unknown adapter: ");
        text::push_str(&mut r, self.0.as_str());
        text::push_str(&mut r, " (lazydap ships ");
        text::push_str(&mut r, AdapterKind::Codelldb.as_str());
        text::push_str(&mut r, ", ");
        text::push_str(&mut r, AdapterKind::Debugpy.as_str());
        text::push_str(&mut r, ", ");
        text::push_str(&mut r, AdapterKind::Delve.as_str());
        text::push_char(&mut r, ')');
        r
    }
}

// ---------------------------------------------------------------------------
// The session lifecycle.
// ---------------------------------------------------------------------------

/// Where a session is in its lifecycle.
#[derive(Debug, Clone, Copy, PartialEq, Eq, Structural)]
pub enum SessionState {
    /// Adapter spawned, launch handshake not finished.
    Initialising,
    Running,
    Paused,
    /// Debuggee exited on its own.
    Exited,
    /// Debuggee was killed, or the adapter reported `terminated`.
    Terminated,
    /// Adapter process vanished without saying goodbye.
    AdapterDied,
}

pub open spec fn session_state_text(state: SessionState) -> Seq<char> {
    match state {
        SessionState::Initialising => "initialising"@,
        SessionState::Running => "running"@,
        SessionState::Paused => "paused"@,
        SessionState::Exited => "exited"@,
        SessionState::Terminated => "terminated"@,
        SessionState::AdapterDied => "adapter_died"@,
    }
}

pub open spec fn stable(state: SessionState) -> bool {
    state == SessionState::Paused || state == SessionState::Exited || state
        == SessionState::Terminated || state == SessionState::AdapterDied
}

pub open spec fn live(state: SessionState) -> bool {
    state == SessionState::Initialising || state == SessionState::Running || state
        == SessionState::Paused
}

impl SessionState {
    /// The same spelling the JSON uses.
    pub fn as_str(&self) -> (r: &'static str)
        ensures
            r@ == session_state_text(*self),
    {
        match self {
            SessionState::Initialising => "initialising",
            SessionState::Running => "running",
            SessionState::Paused => "paused",
            SessionState::Exited => "exited",
            SessionState::Terminated => "terminated",
            SessionState::AdapterDied => "adapter_died",
        }
    }

    /// Stable states are the ones where querying stack and scopes means
    /// something.
    pub fn is_stable(&self) -> (r: bool)
        ensures
            r == stable(*self),
    {
        match self {
            SessionState::Paused | SessionState::Exited | SessionState::Terminated
            | SessionState::AdapterDied => true,
            _ => false,
        }
    }

    /// Whether the session still owns a live adapter.
    pub fn is_live(&self) -> (r: bool)
        ensures
            r == live(*self),
    {
        match self {
            SessionState::Initialising | SessionState::Running | SessionState::Paused => true,
            _ => false,
        }
    }
}

/// Every state is live, stable or both, and only a pause is both: a paused
/// session is the one that can be inspected and still be resumed.
pub proof fn law_live_and_stable(state: SessionState)
    ensures
        live(state) || stable(state),
        live(state) && stable(state) <==> state == SessionState::Paused,
{
}

// ---------------------------------------------------------------------------
// Names that arrive in several spellings.
// ---------------------------------------------------------------------------

/// Lower-cased with everything but ASCII letters and digits taken out, so
/// `functionBreakpoint`, `function_breakpoint` and `FUNCTION-BREAKPOINT` are
/// one word.
pub open spec fn squash(s: Seq<char>) -> Seq<char>
    decreases s.len(),
{
    if s.len() == 0 {
        Seq::empty()
    } else if text::is_alnum(s.last()) {
        squash(s.drop_last()).push(text::lower(s.last()))
    } else {
        squash(s.drop_last())
    }
}

/// `squash` on text.
pub fn squash_text(s: &str) -> (r: String)
    ensures
        r@ == squash(s@),
{
    let v = text::chars_of(s);
    let mut r = String::new();
    let mut i: usize = 0;
    while i < v.len()
        invariant
            i <= v@.len(),
            r@ == squash(v@.subrange(0, i as int)),
        decreases v.len() - i,
    {
        let ghost p = v@.subrange(0, i + 1);
        assert(p.drop_last() =~= v@.subrange(0, i as int));
        if text::is_alnum_char(v[i]) {
            text::push_char(&mut r, text::lower_char(v[i]));
        }
        i = i + 1;
    }
    assert(v@.subrange(0, v@.len() as int) =~= v@);
    r
}

pub open spec fn lower_alnum(s: Seq<char>) -> bool {
    forall|i: int| 0 <= i < s.len() ==> text::is_alnum(#[trigger] s[i]) && text::lower(s[i]) == s[i]
}

/// A word already in squashed form squashes to itself.
proof fn lemma_squash_plain(s: Seq<char>)
    requires
        lower_alnum(s),
    ensures
        squash(s) == s,
    decreases s.len(),
{
    if s.len() > 0 {
        lemma_squash_plain(s.drop_last());
        assert(s.drop_last().push(s.last()) =~= s);
    }
}

/// Squashing distributes over concatenation.
proof fn lemma_squash_append(a: Seq<char>, b: Seq<char>)
    ensures
        squash(a + b) == squash(a) + squash(b),
    decreases b.len(),
{
    if b.len() == 0 {
        assert(a + b =~= a);
        assert(squash(a) + squash(b) =~= squash(a));
    } else {
        lemma_squash_append(a, b.drop_last());
        assert((a + b).drop_last() =~= a + b.drop_last());
        assert((a + b).last() == b.last());
        if text::is_alnum(b.last()) {
            assert(squash(a) + squash(b) =~= (squash(a) + squash(b.drop_last())).push(
                text::lower(b.last()),
            ));
        }
    }
}

/// A snake_case name squashes to its words run together.
proof fn lemma_squash_snake(a: Seq<char>, b: Seq<char>)
    requires
        lower_alnum(a),
        lower_alnum(b),
    ensures
        squash(a + seq!['_'] + b) == a + b,
{
    lemma_squash_append(a + seq!['_'], b);
    lemma_squash_append(a, seq!['_']);
    lemma_squash_plain(a);
    lemma_squash_plain(b);
    let u = seq!['_'];
    assert(u.drop_last() =~= Seq::<char>::empty());
    assert(u.last() == '_');
    assert(!text::is_alnum('_'));
    assert(squash(Seq::<char>::empty()) =~= Seq::<char>::empty());
    assert(squash(u) =~= Seq::<char>::empty());
    assert(a + Seq::<char>::empty() =~= a);
}

/// Why the debuggee stopped. An adapter-specific reason not modelled here
/// still reaches clients as the adapter said it.
#[derive(Debug, Clone, PartialEq, Eq)]
pub enum PauseReason {
    Entry,
    Step,
    Breakpoint,
    Exception,
    Pause,
    Goto,
    FunctionBreakpoint,
    DataBreakpoint,
    InstructionBreakpoint,
    Other(String),
}

pub open spec fn pause_reason_text(reason: PauseReason) -> Seq<char> {
    match reason {
        PauseReason::Entry => "entry"@,
        PauseReason::Step => "step"@,
        PauseReason::Breakpoint => "breakpoint"@,
        PauseReason::Exception => "exception"@,
        PauseReason::Pause => "pause"@,
        PauseReason::Goto => "goto"@,
        PauseReason::FunctionBreakpoint => "function_breakpoint"@,
        PauseReason::DataBreakpoint => "data_breakpoint"@,
        PauseReason::InstructionBreakpoint => "instruction_breakpoint"@,
        PauseReason::Other(reason) => reason@,
    }
}

/// The modelled reason a squashed word names.
pub open spec fn pause_reason_named(w: Seq<char>) -> Option<PauseReason> {
    if w == "entry"@ {
        Some(PauseReason::Entry)
    } else if w == "step"@ {
        Some(PauseReason::Step)
    } else if w == "breakpoint"@ {
        Some(PauseReason::Breakpoint)
    } else if w == "exception"@ {
        Some(PauseReason::Exception)
    } else if w == "pause"@ {
        Some(PauseReason::Pause)
    } else if w == "goto"@ {
        Some(PauseReason::Goto)
    } else if w == "functionbreakpoint"@ {
        Some(PauseReason::FunctionBreakpoint)
    } else if w == "databreakpoint"@ {
        Some(PauseReason::DataBreakpoint)
    } else if w == "instructionbreakpoint"@ {
        Some(PauseReason::InstructionBreakpoint)
    } else {
        None
    }
}

/// What `PauseReason::from` makes of a string.
pub open spec fn pause_reason_of(value: Seq<char>) -> Option<PauseReason> {
    pause_reason_named(squash(value))
}

impl PauseReason {
    pub fn as_str(&self) -> (r: &str)
        ensures
            r@ == pause_reason_text(*self),
    {
        match self {
            PauseReason::Entry => "entry",
            PauseReason::Step => "step",
            PauseReason::Breakpoint => "breakpoint",
            PauseReason::Exception => "exception",
            PauseReason::Pause => "pause",
            PauseReason::Goto => "goto",
            PauseReason::FunctionBreakpoint => "function_breakpoint",
            PauseReason::DataBreakpoint => "data_breakpoint",
            PauseReason::InstructionBreakpoint => "instruction_breakpoint",
            PauseReason::Other(reason) => reason.as_str(),
        }
    }

    /// Reads DAP's camelCase spellings and lazydap's snake_case ones alike;
    /// anything else is kept verbatim as `Other`.
    pub fn from(value: &str) -> (r: PauseReason)
        ensures
            match pause_reason_of(value@) {
                Some(known) => r == known,
                None => r matches PauseReason::Other(s) && s@ == value@,
            },
    {
        let w = squash_text(value);
        if text::is_literal(&w, "entry") {
            PauseReason::Entry
        } else if text::is_literal(&w, "step") {
            PauseReason::Step
        } else if text::is_literal(&w, "breakpoint") {
            PauseReason::Breakpoint
        } else if text::is_literal(&w, "exception") {
            PauseReason::Exception
        } else if text::is_literal(&w, "pause") {
            PauseReason::Pause
        } else if text::is_literal(&w, "goto") {
            PauseReason::Goto
        } else if text::is_literal(&w, "functionbreakpoint") {
            PauseReason::FunctionBreakpoint
        } else if text::is_literal(&w, "databreakpoint") {
            PauseReason::DataBreakpoint
        } else if text::is_literal(&w, "instructionbreakpoint") {
            PauseReason::InstructionBreakpoint
        } else {
            PauseReason::Other(text::owned(value))
        }
    }
}

/// A modelled reason read back from the way it is written is the same
/// reason, so it survives a round trip through JSON; so does an unmodelled
/// one whose text names none of the modelled ones.
pub proof fn law_pause_reason_round_trip(reason: PauseReason)
    requires
        reason matches PauseReason::Other(s) ==> pause_reason_of(s@) is None,
    ensures
        match pause_reason_of(pause_reason_text(reason)) {
            Some(known) => known == reason,
            None => reason is Other,
        },
{
    reveal_strlit("entry");
    reveal_strlit("step");
    reveal_strlit("breakpoint");
    reveal_strlit("exception");
    reveal_strlit("pause");
    reveal_strlit("goto");
    reveal_strlit("function");
    reveal_strlit("data");
    reveal_strlit("instruction");
    reveal_strlit("function_breakpoint");
    reveal_strlit("data_breakpoint");
    reveal_strlit("instruction_breakpoint");
    reveal_strlit("functionbreakpoint");
    reveal_strlit("databreakpoint");
    reveal_strlit("instructionbreakpoint");
    match reason {
        PauseReason::Other(_) => {},
        PauseReason::FunctionBreakpoint => {
            assert("function_breakpoint"@ =~= "function"@ + seq!['_'] + "breakpoint"@);
            assert("functionbreakpoint"@ =~= "function"@ + "breakpoint"@);
            lemma_squash_snake("function"@, "breakpoint"@);
        },
        PauseReason::DataBreakpoint => {
            assert("data_breakpoint"@ =~= "data"@ + seq!['_'] + "breakpoint"@);
            assert("databreakpoint"@ =~= "data"@ + "breakpoint"@);
            lemma_squash_snake("data"@, "breakpoint"@);
        },
        PauseReason::InstructionBreakpoint => {
            assert("instruction_breakpoint"@ =~= "instruction"@ + seq!['_'] + "breakpoint"@);
            assert("instructionbreakpoint"@ =~= "instruction"@ + "breakpoint"@);
            lemma_squash_snake("instruction"@, "breakpoint"@);
        },
        _ => {
            lemma_squash_plain(pause_reason_text(reason));
        },
    }
}

/// Which stream a chunk of captured output came from.
#[derive(Debug, Clone, PartialEq, Eq)]
pub enum OutputCategory {
    Stdout,
    Stderr,
    /// The adapter talking to the user, not the debuggee.
    Console,
    Telemetry,
    Other(String),
}

pub open spec fn output_category_text(category: OutputCategory) -> Seq<char> {
    match category {
        OutputCategory::Stdout => "stdout"@,
        OutputCategory::Stderr => "stderr"@,
        OutputCategory::Console => "console"@,
        OutputCategory::Telemetry => "telemetry"@,
        OutputCategory::Other(category) => category@,
    }
}

pub open spec fn output_category_named(w: Seq<char>) -> Option<OutputCategory> {
    if w == "stdout"@ {
        Some(OutputCategory::Stdout)
    } else if w == "stderr"@ {
        Some(OutputCategory::Stderr)
    } else if w == "console"@ {
        Some(OutputCategory::Console)
    } else if w == "telemetry"@ {
        Some(OutputCategory::Telemetry)
    } else {
        None
    }
}

pub open spec fn output_category_of(value: Seq<char>) -> Option<OutputCategory> {
    output_category_named(squash(value))
}

impl OutputCategory {
    pub fn as_str(&self) -> (r: &str)
        ensures
            r@ == output_category_text(*self),
    {
        match self {
            OutputCategory::Stdout => "stdout",
            OutputCategory::Stderr => "stderr",
            OutputCategory::Console => "console",
            OutputCategory::Telemetry => "telemetry",
            OutputCategory::Other(category) => category.as_str(),
        }
    }

    /// Whether this chunk is the debuggee's own output rather than the
    /// adapter's chatter.
    pub fn is_debuggee(&self) -> (r: bool)
        ensures
            r <==> (*self is Stdout || *self is Stderr),
    {
        match self {
            OutputCategory::Stdout | OutputCategory::Stderr => true,
            _ => false,
        }
    }

    /// Reads a category in any spelling; anything else is kept as `Other`.
    pub fn from(value: &str) -> (r: OutputCategory)
        ensures
            match output_category_of(value@) {
                Some(known) => r == known,
                None => r matches OutputCategory::Other(s) && s@ == value@,
            },
    {
        let w = squash_text(value);
        if text::is_literal(&w, "stdout") {
            OutputCategory::Stdout
        } else if text::is_literal(&w, "stderr") {
            OutputCategory::Stderr
        } else if text::is_literal(&w, "console") {
            OutputCategory::Console
        } else if text::is_literal(&w, "telemetry") {
            OutputCategory::Telemetry
        } else {
            OutputCategory::Other(text::owned(value))
        }
    }
}

/// A category read back from the way it is written is the same category.
pub proof fn law_output_category_round_trip(category: OutputCategory)
    requires
        category matches OutputCategory::Other(s) ==> output_category_of(s@) is None,
    ensures
        match output_category_of(output_category_text(category)) {
            Some(known) => known == category,
            None => category is Other,
        },
{
    reveal_strlit("stdout");
    reveal_strlit("stderr");
    reveal_strlit("console");
    reveal_strlit("telemetry");
    if !(category is Other) {
        lemma_squash_plain(output_category_text(category));
    }
}

/// One piece of output the debuggee (or the adapter) produced.
#[derive(Debug, Clone, PartialEq, Eq)]
pub struct OutputChunk {
    pub category: OutputCategory,
    pub output: String,
    /// Milliseconds since the Unix epoch.
    pub timestamp_ms: u64,
}

impl OutputChunk {
    /// A chunk stamped with the current time.
    pub fn new(category: OutputCategory, output: &str) -> (r: OutputChunk)
        ensures
            r.category == category,
            r.output@ == output@,
    {
        OutputChunk { category, output: text::owned(output), timestamp_ms: now_ms() }
    }
}

/// Why a session ended.
#[derive(Debug, Clone, PartialEq, Eq)]
pub enum EndReason {
    /// A client asked for it.
    Disconnected,
    /// The debuggee ran to completion.
    Exited { exit_code: Option<i32> },
    /// The adapter reported `terminated`.
    Terminated,
    /// The adapter process disappeared; the ending was synthesised.
    AdapterDied { detail: String },
}

/// `SystemTime::now().duration_since(UNIX_EPOCH)`, in milliseconds, or
/// `None` for a clock set before the epoch. Nothing is promised of the value:
/// it is the time.
#[verifier::external_body]
fn millis_since_epoch() -> (r: Option<u128>) {
    std::time::SystemTime::now().duration_since(std::time::UNIX_EPOCH).ok().map(|d| d.as_millis())
}

/// A reading of the clock in milliseconds as a `u64` (its low 64 bits, as
/// `as` casts), or 0 for a clock set before the epoch.
pub fn millis_or_zero(ms: Option<u128>) -> (r: u64)
    ensures
        r == (match ms {
            Some(m) => m as u64,
            None => 0u64,
        }),
{
    match ms {
        Some(m) => m as u64,
        None => 0,
    }
}

/// Milliseconds since the Unix epoch, 0 for a clock set before it. What it
/// returns is the time, so nothing more is said of it: `millis_or_zero`
/// states what is made of the clock's reading.
pub fn now_ms() -> (r: u64) {
    millis_or_zero(millis_since_epoch())
}

} // verus!
