//! DAP shapes in, lazydap shapes out: where camelCase and DAP's habit of
//! using `0` to mean "absent" stop.
use vstd::prelude::*;

use crate::breakpoint::{AdapterBreakpoint, Breakpoint, BreakpointId};
use crate::inspect::{SourceRef, StepKind, ThreadInfo};
use crate::text;

verus! {

/// The DAP command that performs a step: step-over is DAP's `next`.
pub fn step_command(kind: StepKind) -> (r: &'static str)
    ensures
        r@ == (match kind {
            StepKind::Over => "next"@,
            StepKind::In => "stepIn"@,
            StepKind::Out => "stepOut"@,
        }),
{
    match kind {
        StepKind::Over => "next",
        StepKind::In => "stepIn",
        StepKind::Out => "stepOut",
    }
}

/// A source as DAP describes it, as lazydap does: a `sourceReference` of `0`
/// is DAP's spelling of "not a reference".
pub fn source_ref(name: Option<String>, path: Option<String>, source_reference: Option<i64>) -> (r:
    SourceRef)
    ensures
        r.name == name,
        r.path == path,
        r.source_reference == (match source_reference {
            Some(0) => None,
            other => other,
        }),
{
    let source_reference = match source_reference {
        Some(0) => None,
        other => other,
    };
    SourceRef { name, path, source_reference }
}

/// A thread as DAP describes it; one the adapter did not name is called
/// `thread <id>`.
pub fn thread_info(id: i64, name: String) -> (r: ThreadInfo)
    ensures
        r.id == id,
        r.name@ == if name@.len() == 0 {
            "thread "@ + text::signed_decimal(id as int)
        } else {
            name@
        },
{
    if text::chars_of(name.as_str()).len() == 0 {
        let mut r = text::owned("thread ");
        text::push_signed(&mut r, id);
        ThreadInfo { id, name: r }
    } else {
        ThreadInfo { id, name }
    }
}

/// The last position at or before `k` where `pat` occurs in `s`.
pub open spec fn last_occurrence(s: Seq<char>, pat: Seq<char>, k: int) -> Option<int>
    decreases k + 1,
{
    if k < 0 {
        None
    } else if text::occurs_at(s, pat, k) {
        Some(k)
    } else {
        last_occurrence(s, pat, k - 1)
    }
}

fn rfind(s: &Vec<char>, pat: &Vec<char>) -> (r: Option<usize>)
    ensures
        r matches Some(k) ==> (last_occurrence(s@, pat@, s@.len() - pat@.len()) == Some(k as int)
            && k + pat@.len() <= s@.len()),
        r is None ==> last_occurrence(s@, pat@, s@.len() - pat@.len()) is None,
{
    if pat.len() > s.len() {
        return None;
    }
    let mut k = s.len() - pat.len();
    loop
        invariant
            k + pat@.len() <= s@.len(),
            last_occurrence(s@, pat@, s@.len() - pat@.len()) == last_occurrence(s@, pat@, k as int),
        decreases k,
    {
        if text::occurs_at_exec(s, pat, k) {
            return Some(k);
        }
        if k == 0 {
            assert(last_occurrence(s@, pat@, -1) is None);
            return None;
        }
        k = k - 1;
    }
}

/// The location an adapter says it could have bound, out of the message it
/// sent when it declined the one asked for: the text after the last
/// `found at `, split at its last colon, and only when what follows the
/// colon is a line number and nothing else. Anything else is no suggestion.
pub open spec fn suggestion(message: Seq<char>) -> Option<Seq<char>> {
    let pat = "found at "@;
    match last_occurrence(message, pat, message.len() - pat.len()) {
        None => None,
        Some(k) => {
            let rest = message.skip(k + pat.len());
            match text::last_index_of(rest, ':') {
                None => None,
                Some(c) => {
                    let line = text::trim(rest.skip(c + 1));
                    let path = text::trim(rest.take(c));
                    if line.len() == 0 || !text::all_digits(line) || path.len() == 0 {
                        None
                    } else {
                        Some(path)
                    }
                },
            }
        },
    }
}

fn digits_only(v: &Vec<char>, a: usize, b: usize) -> (r: bool)
    requires
        a <= b <= v@.len(),
    ensures
        r == text::all_digits(v@.subrange(a as int, b as int)),
{
    let mut i = a;
    while i < b
        invariant
            a <= i <= b <= v@.len(),
            forall|j: int| a <= j < i ==> text::is_digit(#[trigger] v@[j]),
        decreases b - i,
    {
        if !text::is_digit_char(v[i]) {
            assert(v@.subrange(a as int, b as int)[i - a] == v@[i as int]);
            return false;
        }
        i = i + 1;
    }
    assert forall|j: int| 0 <= j < b - a implies text::is_digit(
        #[trigger] v@.subrange(a as int, b as int)[j],
    ) by {
        assert(v@.subrange(a as int, b as int)[j] == v@[a + j]);
    }
    true
}

/// Reads the suggested location out of a breakpoint message.
pub fn suggested_location(message: &str) -> (r: Option<String>)
    ensures
        match suggestion(message@) {
            Some(path) => r matches Some(p) && p@ == path,
            None => r is None,
        },
{
    let v = text::chars_of(message);
    let pat = text::chars_of("found at ");
    let found = rfind(&v, &pat);
    let k = match found {
        Some(k) => k,
        None => return None,
    };
    let n = v.len();
    let m = pat.len();
    assert(k + m <= n);
    let start = k + m;
    let rest = text::string_of_range(&v, start, v.len());
    let rv = text::chars_of(rest.as_str());
    assert(rv@ =~= message@.skip(k + pat@.len()));
    let c = match text::rfind_char(&rv, ':') {
        Some(c) => c,
        None => return None,
    };
    proof {
        text::lemma_last_index_of(rv@, ':');
    }
    let line = text::string_of_range(&rv, c + 1, rv.len());
    let lv = text::chars_of(line.as_str());
    assert(lv@ =~= rv@.skip(c + 1));
    let (la, lb) = text::trim_bounds(&lv);
    assert(lv@.subrange(la as int, lb as int) == text::trim(rv@.skip(c + 1)));
    if la == lb {
        return None;
    }
    if !digits_only(&lv, la, lb) {
        return None;
    }
    let path = text::string_of_range(&rv, 0, c);
    let pv = text::chars_of(path.as_str());
    assert(pv@ =~= rv@.take(c as int));
    let (pa, pb) = text::trim_bounds(&pv);
    assert(pv@.subrange(pa as int, pb as int) == text::trim(rv@.take(c as int)));
    if pa == pb {
        return None;
    }
    Some(text::string_of_range(&pv, pa, pb))
}

/// One breakpoint as an adapter's `setBreakpoints` answer lists it.
#[derive(Debug, Clone, PartialEq, Eq)]
pub struct DapBreakpoint {
    pub id: Option<i64>,
    pub verified: bool,
    pub line: Option<u32>,
    pub message: Option<String>,
}

/// A `setBreakpoints` answer paired with what was asked for, element for
/// element, as DAP requires. An answer longer than the request gets no id
/// guessed for what is left over.
pub open spec fn reconciled(
    requested: Seq<Breakpoint>,
    returned: Seq<DapBreakpoint>,
    r: Seq<AdapterBreakpoint>,
) -> bool {
    &&& r.len() == returned.len()
    &&& forall|i: int|
        0 <= i < r.len() ==> {
            &&& #[trigger] r[i].id == (if i < requested.len() {
                Some(requested[i].id)
            } else {
                None::<BreakpointId>
            })
            &&& r[i].adapter_id == returned[i].id
            &&& r[i].verified == returned[i].verified
            &&& r[i].line == returned[i].line
            &&& r[i].message == returned[i].message
        }
}

/// Pairs a `setBreakpoints` answer with what was asked for.
pub fn reconcile_breakpoints(requested: &Vec<Breakpoint>, returned: Vec<DapBreakpoint>) -> (r: Vec<
    AdapterBreakpoint,
>)
    ensures
        reconciled(requested@, returned@, r@),
        r@.len() == returned@.len(),
        forall|i: int|
            0 <= i < r@.len() ==> {
                &&& #[trigger] r@[i].id == (if i < requested@.len() {
                    Some(requested@[i].id)
                } else {
                    None::<BreakpointId>
                })
                &&& r@[i].adapter_id == returned@[i].id
                &&& r@[i].verified == returned@[i].verified
                &&& r@[i].line == returned@[i].line
                &&& r@[i].message == returned@[i].message
            },
{
    let mut r: Vec<AdapterBreakpoint> = Vec::new();
    let mut i: usize = 0;
    while i < returned.len()
        invariant
            i <= returned@.len(),
            r@.len() == i,
            forall|j: int|
                0 <= j < i ==> {
                    &&& #[trigger] r@[j].id == (if j < requested@.len() {
                        Some(requested@[j].id)
                    } else {
                        None::<BreakpointId>
                    })
                    &&& r@[j].adapter_id == returned@[j].id
                    &&& r@[j].verified == returned@[j].verified
                    &&& r@[j].line == returned@[j].line
                    &&& r@[j].message == returned@[j].message
                },
        decreases returned.len() - i,
    {
        let adapter = &returned[i];
        let id = if i < requested.len() {
            Some(requested[i].id)
        } else {
            None
        };
        r.push(
            AdapterBreakpoint {
                id,
                adapter_id: adapter.id,
                verified: adapter.verified,
                line: adapter.line,
                message: crate::breakpoint::copy_opt_string(&adapter.message),
            },
        );
        i = i + 1;
    }
    r
}

/// What is sent to the adapter for one of our breakpoints.
#[derive(Debug, Clone, PartialEq, Eq)]
pub struct SourceBreakpoint {
    pub line: u32,
    pub column: Option<u32>,
    pub condition: Option<String>,
    pub hit_condition: Option<String>,
    pub log_message: Option<String>,
}

/// What is sent for a breakpoint: where it is and the conditions on it.
pub open spec fn sent_as(sb: SourceBreakpoint, b: Breakpoint) -> bool {
    &&& sb.line == b.line
    &&& sb.column == b.column
    &&& sb.condition == b.condition
    &&& sb.hit_condition == b.hit_condition
    &&& sb.log_message == b.log_message
}

pub fn source_breakpoint(breakpoint: &Breakpoint) -> (r: SourceBreakpoint)
    ensures
        sent_as(r, *breakpoint),
{
    SourceBreakpoint {
        line: breakpoint.line,
        column: breakpoint.column,
        condition: crate::breakpoint::copy_opt_string(&breakpoint.condition),
        hit_condition: crate::breakpoint::copy_opt_string(&breakpoint.hit_condition),
        log_message: crate::breakpoint::copy_opt_string(&breakpoint.log_message),
    }
}

/// The arguments of a `setBreakpoints` request: the file named as well as
/// pathed, and every breakpoint to hold in it, since the request replaces
/// the file's whole list.
#[derive(Debug, Clone, PartialEq, Eq)]
pub struct SetBreakpointsArgs {
    pub path: String,
    pub name: Option<String>,
    pub breakpoints: Vec<SourceBreakpoint>,
}

/// `a` is the `setBreakpoints` request for `source` holding `breakpoints`:
/// the path, the file's name, and each breakpoint as it is sent, in order.
pub open spec fn breakpoints_request(a: SetBreakpointsArgs, source: Seq<char>, breakpoints: Seq<Breakpoint>) -> bool {
    &&& a.path@ == source
    &&& crate::launch_json::opt_string(a.name) == crate::pathname::file_name(source)
    &&& a.breakpoints@.len() == breakpoints.len()
    &&& forall|i: int|
        0 <= i < a.breakpoints@.len() ==> sent_as(#[trigger] a.breakpoints@[i], breakpoints[i])
}

pub fn set_breakpoints_args(source: &str, breakpoints: &Vec<Breakpoint>) -> (r: SetBreakpointsArgs)
    ensures
        r.path@ == source@,
        crate::launch_json::opt_string(r.name) == crate::pathname::file_name(source@),
        r.breakpoints@.len() == breakpoints@.len(),
        forall|i: int|
            0 <= i < r.breakpoints@.len() ==> sent_as(#[trigger] r.breakpoints@[i], breakpoints@[i]),
        breakpoints_request(r, source@, breakpoints@),
{
    let v = text::chars_of(source);
    let name = match crate::pathname::file_name_bounds(&v) {
        Some((a, b)) => Some(text::string_of_range(&v, a, b)),
        None => None,
    };
    let mut list: Vec<SourceBreakpoint> = Vec::new();
    let mut i: usize = 0;
    while i < breakpoints.len()
        invariant
            i <= breakpoints@.len(),
            list@.len() == i,
            forall|j: int| 0 <= j < i ==> sent_as(#[trigger] list@[j], breakpoints@[j]),
        decreases breakpoints.len() - i,
    {
        list.push(source_breakpoint(&breakpoints[i]));
        i = i + 1;
    }
    SetBreakpointsArgs { path: text::owned(source), name, breakpoints: list }
}

/// A stack frame as DAP describes it, as lazydap does: its source, if any,
/// read the way `source_ref` reads one.
pub fn stack_frame(
    id: i64,
    name: String,
    source: Option<(Option<String>, Option<String>, Option<i64>)>,
    line: u32,
    column: u32,
) -> (r: crate::inspect::StackFrame)
    ensures
        r.id == id,
        r.name == name,
        r.line == line,
        r.column == column,
        match source {
            None => r.source is None,
            Some((n, p, reference)) => (r.source matches Some(s) && s.name == n && s.path == p
                && s.source_reference == (match reference {
                Some(0) => None,
                other => other,
            })),
        },
{
    let source = match source {
        Some((n, p, reference)) => Some(source_ref(n, p, reference)),
        None => None,
    };
    crate::inspect::StackFrame { id, name, source, line, column }
}

} // verus!
