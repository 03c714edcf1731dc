//! Breakpoints: the project's own record of one, what the adapter thinks of
//! it, and the `file:line` a person types to name one.
use vstd::prelude::*;

use crate::text;

verus! {

/// Identifies one breakpoint for as long as the project keeps it: a small
/// integer a person can type, stable across daemon restarts.
#[derive(Debug, Clone, Copy, PartialEq, Eq, Structural, PartialOrd, Ord, Hash)]
pub struct BreakpointId(pub u32);

/// A string that is not a breakpoint or watch id.
#[derive(Debug, Clone, Copy, PartialEq, Eq, Structural)]
pub struct BadId;

impl BreakpointId {
    /// Reads an id the way `u32::from_str` reads the trimmed text.
    pub fn parse(s: &str) -> (r: Result<BreakpointId, BadId>)
        ensures
            r matches Ok(id) ==> text::parse_u32(text::trim(s@)) == Some(id.0),
            r is Err <==> text::parse_u32(text::trim(s@)) is None,
    {
        let v = text::chars_of(s);
        let (a, b) = text::trim_bounds(&v);
        match text::parse_u32_range(&v, a, b) {
            Some(n) => Ok(BreakpointId(n)),
            None => Err(BadId),
        }
    }

    /// The id as it is printed: the bare number.
    pub fn to_string(&self) -> (r: String)
        ensures
            r@ == text::decimal(self.0 as nat),
    {
        let mut r = String::new();
        text::push_decimal(&mut r, self.0 as u64);
        r
    }
}

/// A breakpoint as lazydap knows it: project state that outlives any session.
#[derive(Debug, Clone, PartialEq, Eq)]
pub struct Breakpoint {
    pub id: BreakpointId,
    /// Absolute path, resolved by the client.
    pub source: String,
    /// 1-based.
    pub line: u32,
    pub column: Option<u32>,
    pub condition: Option<String>,
    pub hit_condition: Option<String>,
    /// A log point: prints instead of pausing.
    pub log_message: Option<String>,
    pub enabled: bool,
}

/// A copy of an optional string, equal to the one it copies.
pub fn copy_opt_string(s: &Option<String>) -> (r: Option<String>)
    ensures
        r == *s,
{
    match s {
        Some(t) => Some(t.clone()),
        None => None,
    }
}

/// What a breakpoint read from a file has when it says nothing about it.
pub fn enabled_by_default() -> (r: bool)
    ensures
        r,
{
    true
}

/// `path:line`, the way tables show a breakpoint.
pub open spec fn location_text(source: Seq<char>, line: u32) -> Seq<char> {
    source + seq![':'] + text::decimal(line as nat)
}

impl Breakpoint {
    /// An exact copy.
    pub fn duplicate(&self) -> (r: Breakpoint)
        ensures
            r == *self,
    {
        Breakpoint {
            id: self.id,
            source: self.source.clone(),
            line: self.line,
            column: self.column,
            condition: copy_opt_string(&self.condition),
            hit_condition: copy_opt_string(&self.hit_condition),
            log_message: copy_opt_string(&self.log_message),
            enabled: self.enabled,
        }
    }

    /// `path:line`, the way the user wrote it and the way tables show it.
    pub fn location(&self) -> (r: String)
        ensures
            r@ == location_text(self.source@, self.line),
    {
        let mut r = self.source.clone();
        text::push_char(&mut r, ':');
        text::push_decimal(&mut r, self.line as u64);
        r
    }
}

/// A breakpoint a client asked for, before the store has given it an id.
#[derive(Debug, Clone, PartialEq, Eq)]
pub struct NewBreakpoint {
    pub source: String,
    pub line: u32,
    pub column: Option<u32>,
    pub condition: Option<String>,
    pub hit_condition: Option<String>,
    pub log_message: Option<String>,
    pub enabled: bool,
}

/// What the adapter says about a breakpoint right now.
#[derive(Debug, Clone, Default, PartialEq, Eq)]
pub struct AdapterBreakpoint {
    /// Ours, when the adapter's id maps to one we know about.
    pub id: Option<BreakpointId>,
    /// The adapter's own id.
    pub adapter_id: Option<i64>,
    pub verified: bool,
    /// Where the adapter actually put it.
    pub line: Option<u32>,
    pub message: Option<String>,
}

/// A breakpoint plus the adapter's current opinion of it.
#[derive(Debug, Clone, PartialEq, Eq)]
pub struct BreakpointStatus {
    pub breakpoint: Breakpoint,
    /// `false` until a session has applied it.
    pub verified: bool,
    /// Set when the adapter moved it to a different line; never the line that
    /// was asked for.
    pub adapter_line: Option<u32>,
    pub message: Option<String>,
}

/// The line a status reports the debugger will stop on.
pub open spec fn effective(status: BreakpointStatus) -> u32 {
    match status.adapter_line {
        Some(line) => line,
        None => status.breakpoint.line,
    }
}

/// A status with an adapter's report folded in. The breakpoint itself, the
/// line that was asked for, is untouched; a report of the same line is not
/// a move; a report with no message keeps the one already held.
pub open spec fn applied(status: BreakpointStatus, update: AdapterBreakpoint) -> BreakpointStatus {
    BreakpointStatus {
        breakpoint: status.breakpoint,
        verified: update.verified,
        adapter_line: match update.line {
            Some(line) => if line != status.breakpoint.line {
                Some(line)
            } else {
                None
            },
            None => None,
        },
        message: if update.message is Some {
            update.message
        } else {
            status.message
        },
    }
}

impl BreakpointStatus {
    /// An unapplied breakpoint: the state every one is in before a session
    /// exists.
    pub fn unverified(breakpoint: Breakpoint) -> (r: Self)
        ensures
            r.breakpoint == breakpoint,
            !r.verified,
            r.adapter_line is None,
            r.message is None,
    {
        BreakpointStatus { breakpoint, verified: false, adapter_line: None, message: None }
    }

    /// Fold in what the adapter reported.
    pub fn apply(&mut self, update: &AdapterBreakpoint)
        ensures
            *final(self) == applied(*old(self), *update),
    {
        self.verified = update.verified;
        self.adapter_line =
            match update.line {
                Some(line) => if line != self.breakpoint.line {
                    Some(line)
                } else {
                    None
                },
                None => None,
            };
        if update.message.is_some() {
            self.message = copy_opt_string(&update.message);
        }
    }

    /// The line the debugger will actually stop on.
    pub fn effective_line(&self) -> (r: u32)
        ensures
            r == effective(*self),
    {
        match self.adapter_line {
            Some(line) => line,
            None => self.breakpoint.line,
        }
    }
}

/// After an adapter report, the status stops where the adapter said the
/// breakpoint is, or on the requested line when it said nothing; it never
/// records a "move" to the line that was asked for; and the requested line is
/// what is kept.
pub proof fn law_apply_then_effective_line(before: BreakpointStatus, update: AdapterBreakpoint)
    ensures
        effective(applied(before, update)) == (match update.line {
            Some(line) => line,
            None => before.breakpoint.line,
        }),
        applied(before, update).adapter_line != Some(before.breakpoint.line),
        applied(before, update).breakpoint == before.breakpoint,
{
}

/// A `file:line` as typed on the command line.
#[derive(Debug, Clone, PartialEq, Eq)]
pub struct Location {
    pub source: String,
    pub line: u32,
}

/// Why a string is not a `file:line`.
#[derive(Debug, Clone, PartialEq, Eq)]
pub struct BadLocation {
    pub input: String,
    pub detail: String,
}

/// How a location is refused, in the order the checks are made.
pub enum LocationFault {
    NoColon,
    EmptyFile,
    NotANumber,
    LineZero,
}

/// What parsing `s` as `file:line` comes to: the file is everything before
/// the *last* colon, the line is the trimmed rest read as a `u32`, and line 0
/// does not exist.
pub open spec fn location_parse(s: Seq<char>) -> Result<(Seq<char>, u32), LocationFault> {
    match text::last_index_of(s, ':') {
        None => Err(LocationFault::NoColon),
        Some(i) => {
            let source = s.subrange(0, i);
            let rest = s.subrange(i + 1, s.len() as int);
            if source.len() == 0 {
                Err(LocationFault::EmptyFile)
            } else {
                match text::parse_u32(text::trim(rest)) {
                    None => Err(LocationFault::NotANumber),
                    Some(line) => if line == 0 {
                        Err(LocationFault::LineZero)
                    } else {
                        Ok((source, line))
                    },
                }
            }
        },
    }
}

/// The `detail` of the refusal for each fault; `rest` is the text after the
/// last colon.
pub open spec fn location_detail(fault: LocationFault, rest: Seq<char>) -> Seq<char> {
    match fault {
        LocationFault::NoColon => "expected `file:line`"@,
        LocationFault::EmptyFile => "the file part is empty"@,
        LocationFault::NotANumber => seq!['`'] + rest + "` is not a line number"@,
        LocationFault::LineZero => "lines are numbered from 1"@,
    }
}

/// The text after the last colon of `s`, or nothing when it has none.
pub open spec fn after_last_colon(s: Seq<char>) -> Seq<char> {
    match text::last_index_of(s, ':') {
        Some(i) => s.subrange(i + 1, s.len() as int),
        None => Seq::empty(),
    }
}

impl Location {
    /// Parses `file:line`, splitting on the last colon so a path that holds
    /// colons keeps them.
    pub fn parse(s: &str) -> (r: Result<Location, BadLocation>)
        ensures
            r matches Ok(loc) ==> location_parse(s@) == Ok::<(Seq<char>, u32), LocationFault>(
                (loc.source@, loc.line),
            ),
            r matches Err(e) ==> location_parse(s@) matches Err(fault) && e.input@ == s@
                && e.detail@ == location_detail(fault, after_last_colon(s@)),
            r is Ok <==> location_parse(s@) is Ok,
    {
        let v = text::chars_of(s);
        proof {
            text::lemma_last_index_of(s@, ':');
        }
        let i = match text::rfind_char(&v, ':') {
            None => {
                return Err(BadLocation { input: text::owned(s), detail: text::owned("expected `file:line`") });
            },
            Some(i) => i,
        };
        if i == 0 {
            return Err(BadLocation { input: text::owned(s), detail: text::owned("the file part is empty") });
        }
        assert(i < v.len());
        let rest = text::string_of_range(&v, i + 1, v.len());
        let rv = text::chars_of(rest.as_str());
        let (ra, rb) = text::trim_bounds(&rv);
        let line = match text::parse_u32_range(&rv, ra, rb) {
            None => {
                let mut detail = String::new();
                text::push_char(&mut detail, '`');
                text::push_str(&mut detail, rest.as_str());
                text::push_str(&mut detail, "` is not a line number");
                assert(detail@ =~= seq!['`'] + rest@ + "` is not a line number"@);
                return Err(BadLocation { input: text::owned(s), detail });
            },
            Some(n) => n,
        };
        if line == 0 {
            return Err(
                BadLocation { input: text::owned(s), detail: text::owned("lines are numbered from 1") },
            );
        }
        Ok(Location { source: text::string_of_range(&v, 0, i), line })
    }

    /// `file:line`, as it is printed.
    pub fn to_string(&self) -> (r: String)
        ensures
            r@ == location_text(self.source@, self.line),
    {
        let mut r = self.source.clone();
        text::push_char(&mut r, ':');
        text::push_decimal(&mut r, self.line as u64);
        r
    }
}

impl BadLocation {
    /// "`input` is not a location: detail".
    pub fn to_string(&self) -> (r: String)
        ensures
            r@ == seq!['`'] + self.input@ + "` is not a location: "@ + self.detail@,
    {
        let mut r = String::new();
        text::push_char(&mut r, '`');
        text::push_str(&mut r, self.input.as_str());
        text::push_str(&mut r, "` is not a location: ");
        text::push_str(&mut r, self.detail.as_str());
        r
    }
}

/// A location printed and read back is the same location.
pub proof fn law_location_round_trip(source: Seq<char>, line: u32)
    requires
        source.len() > 0,
        line > 0,
    ensures
        location_parse(location_text(source, line)) == Ok::<(Seq<char>, u32), LocationFault>(
            (source, line),
        ),
{
    let text = location_text(source, line);
    let digits = text::decimal(line as nat);
    text::lemma_decimal_shape(line as nat);
    text::lemma_last_index_of(text, ':');
    let i = source.len() as int;
    assert(text[i] == ':');
    assert forall|k: int| i < k < text.len() implies text[k] != ':' by {
        assert(text[k] == digits[k - i - 1]);
        assert(text::is_digit(digits[k - i - 1]));
    }
    text::lemma_last_index_of_unique(text, ':', i);
    assert(text.subrange(0, i) =~= source);
    assert(text.subrange(i + 1, text.len() as int) =~= digits);
    text::lemma_trim_digits(digits);
    text::lemma_parse_decimal(line as nat);
}

} // verus!
