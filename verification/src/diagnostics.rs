//! `lazydap doctor` and `lazydap logs`: what the checks add up to, and which
//! lines of the log to show.
use vstd::prelude::*;

use crate::adapter::{adapter_error_text, AdapterError};
use crate::config::ConfigError;
use crate::errors::{first_index, text_detail, text_entry, CliError};
use crate::exit;
use crate::launch::{join_texts, views};
use crate::session::{adapter_text, AdapterKind};
use crate::text;

verus! {

/// The prefix of every adapter check's name: `adapter.<kind>`.
pub const ADAPTER_CHECK_PREFIX: &'static str = "adapter.";

/// One line of a doctor report.
#[derive(Debug, Clone, PartialEq, Eq)]
pub struct DoctorCheck {
    pub name: String,
    pub ok: bool,
    pub detail: String,
}

/// The checks, and whether they add up to a working install.
#[derive(Debug, Clone, PartialEq, Eq)]
pub struct DoctorReport {
    pub ok: bool,
    pub checks: Vec<DoctorCheck>,
}

pub open spec fn adapter_check(name: Seq<char>) -> bool {
    text::starts_with(name, "adapter."@)
}

/// Whether a check is about one adapter.
pub fn is_adapter(name: &str) -> (r: bool)
    ensures
        r == adapter_check(name@),
{
    let v = text::chars_of(name);
    let p = text::chars_of(ADAPTER_CHECK_PREFIX);
    text::starts_with_exec(&v, &p)
}

/// Whether doctor passes: every check that is not about an adapter passes,
/// and some adapter is usable (or none was asked about). The adapters are a
/// menu of languages; losing the last one fails, since nothing can be
/// debugged then.
pub open spec fn passes(checks: Seq<DoctorCheck>) -> bool {
    &&& forall|i: int| 0 <= i < checks.len() && !adapter_check(#[trigger] checks[i].name@) ==> checks[i].ok
    &&& (forall|i: int| 0 <= i < checks.len() ==> !adapter_check(#[trigger] checks[i].name@))
        || (exists|i: int| 0 <= i < checks.len() && adapter_check(#[trigger] checks[i].name@) && checks[i].ok)
}

pub fn verdict(checks: &Vec<DoctorCheck>) -> (r: bool)
    ensures
        r == passes(checks@),
{
    let mut rest_ok = true;
    let mut any_adapter = false;
    let mut adapter_ok = false;
    let mut i: usize = 0;
    while i < checks.len()
        invariant
            i <= checks@.len(),
            rest_ok == forall|j: int| 0 <= j < i && !adapter_check(#[trigger] checks@[j].name@) ==> checks@[j].ok,
            any_adapter == exists|j: int| 0 <= j < i && adapter_check(#[trigger] checks@[j].name@),
            adapter_ok == exists|j: int| 0 <= j < i && adapter_check(#[trigger] checks@[j].name@) && checks@[j].ok,
        decreases checks.len() - i,
    {
        let a = is_adapter(checks[i].name.as_str());
        if a {
            any_adapter = true;
            if checks[i].ok {
                adapter_ok = true;
            }
        } else if !checks[i].ok {
            rest_ok = false;
        }
        proof {
            let j = i as int;
            if a {
                assert(adapter_check(checks@[j].name@));
            }
        }
        i = i + 1;
    }
    rest_ok && (!any_adapter || adapter_ok)
}

/// How many checks that are not about an adapter failed, among the first `n`.
pub open spec fn failed_count(checks: Seq<DoctorCheck>, n: int) -> nat
    decreases n,
{
    if n <= 0 || n > checks.len() {
        0
    } else {
        failed_count(checks, n - 1) + if !checks[n - 1].ok && !adapter_check(checks[n - 1].name@) {
            1nat
        } else {
            0nat
        }
    }
}

/// Why a run failed, in one line: how many checks failed, or — when the only
/// failures are adapters — that no adapter is usable, rather than counting
/// to zero.
pub open spec fn failure_text(checks: Seq<DoctorCheck>) -> Seq<char> {
    let failed = failed_count(checks, checks.len() as int);
    if failed == 0 {
        "no usable debug adapter; install one of the ones listed above"@
    } else {
        text::decimal(failed) + " check(s) failed"@
    }
}

pub fn failure_reason(checks: &Vec<DoctorCheck>) -> (r: String)
    ensures
        r@ == failure_text(checks@),
{
    let mut failed: u64 = 0;
    let mut i: usize = 0;
    while i < checks.len()
        invariant
            i <= checks@.len(),
            failed == failed_count(checks@, i as int),
            failed <= i,
        decreases checks.len() - i,
    {
        if !checks[i].ok && !is_adapter(checks[i].name.as_str()) {
            failed = failed + 1;
        }
        i = i + 1;
    }
    if failed == 0 {
        text::owned("no usable debug adapter; install one of the ones listed above")
    } else {
        let mut r = String::new();
        text::push_decimal(&mut r, failed);
        text::push_str(&mut r, " check(s) failed");
        assert(r@ =~= text::decimal(failed as nat) + " check(s) failed"@);
        r
    }
}

/// The adapters among the first `n` checks that are not usable here, by
/// name.
pub open spec fn missing_adapters(checks: Seq<DoctorCheck>, n: int) -> Seq<Seq<char>>
    decreases n,
{
    if n <= 0 || n > checks.len() {
        Seq::empty()
    } else {
        let front = missing_adapters(checks, n - 1);
        let c = checks[n - 1];
        if !c.ok && adapter_check(c.name@) {
            front.push(c.name@.skip(8))
        } else {
            front
        }
    }
}

/// The line under the table, naming the adapters this machine does not
/// have; none when it has them all.
pub open spec fn note_text(checks: Seq<DoctorCheck>) -> Option<Seq<char>> {
    let missing = missing_adapters(checks, checks.len() as int);
    if missing.len() == 0 {
        None
    } else {
        Some(
            "not usable here: "@ + join_texts(missing)
                + ". lazydap does not need them all — each one adds the languages it debugs."@,
        )
    }
}

pub fn note(report: &DoctorReport) -> (r: Option<String>)
    ensures
        crate::launch_json::opt_string(r) == note_text(report.checks@),
{
    let checks = &report.checks;
    let mut missing: Vec<String> = Vec::new();
    let mut i: usize = 0;
    assert(views(missing@) =~= Seq::<Seq<char>>::empty());
    proof {
        reveal_strlit("adapter.");
    }
    while i < checks.len()
        invariant
            i <= checks@.len(),
            views(missing@) == missing_adapters(checks@, i as int),
            "adapter."@.len() == 8,
        decreases checks.len() - i,
    {
        if !checks[i].ok && is_adapter(checks[i].name.as_str()) {
            let v = text::chars_of(checks[i].name.as_str());
            let name = text::string_of_range(&v, 8, v.len());
            assert(name@ =~= checks@[i as int].name@.skip(8));
            let ghost before = views(missing@);
            missing.push(name);
            assert(views(missing@) =~= before.push(checks@[i as int].name@.skip(8)));
        }
        i = i + 1;
    }
    if missing.len() == 0 {
        return None;
    }
    let mut r = text::owned("not usable here: ");
    crate::launch::push_joined(&mut r, &missing);
    text::push_str(
        &mut r,
        ". lazydap does not need them all — each one adds the languages it debugs.",
    );
    Some(r)
}

/// The status column: a missing adapter is `missing`, never `FAILED`, so the
/// table agrees with the verdict.
pub fn status(check: &DoctorCheck) -> (r: &'static str)
    ensures
        r@ == (if check.ok {
            "ok"@
        } else if adapter_check(check.name@) {
            "missing"@
        } else {
            "FAILED"@
        }),
{
    if check.ok {
        "ok"
    } else if is_adapter(check.name.as_str()) {
        "missing"
    } else {
        "FAILED"
    }
}

/// Where to get an adapter this machine does not have.
pub fn install_hint(kind: AdapterKind) -> (r: &'static str)
    ensures
        r@ == (match kind {
            AdapterKind::Codelldb => "install it from https://github.com/vadimcn/codelldb/releases"@,
            AdapterKind::Debugpy => "install it with `python3 -m pip install debugpy`"@,
            AdapterKind::Delve => "install it with `go install github.com/go-delve/delve/cmd/dlv@latest`"@,
        }),
{
    match kind {
        AdapterKind::Codelldb => "install it from https://github.com/vadimcn/codelldb/releases",
        AdapterKind::Debugpy => "install it with `python3 -m pip install debugpy`",
        AdapterKind::Delve => "install it with `go install github.com/go-delve/delve/cmd/dlv@latest`",
    }
}

/// Why an adapter is not usable, and — only when it is simply not there —
/// how to get it. A pin at a wrong path is a different problem, and already
/// says what to do.
pub fn detail_for(kind: AdapterKind, error: &AdapterError) -> (r: String)
    ensures
        r@ == (match *error {
            AdapterError::NotFound { .. } => adapter_error_text(*error) + " — "@ + (match kind {
                AdapterKind::Codelldb => "install it from https://github.com/vadimcn/codelldb/releases"@,
                AdapterKind::Debugpy => "install it with `python3 -m pip install debugpy`"@,
                AdapterKind::Delve => "install it with `go install github.com/go-delve/delve/cmd/dlv@latest`"@,
            }),
            _ => adapter_error_text(*error),
        }),
{
    match error {
        AdapterError::NotFound { .. } => {
            let mut r = error.to_string();
            text::push_str(&mut r, " — ");
            text::push_str(&mut r, install_hint(kind));
            r
        },
        _ => error.to_string(),
    }
}

/// The check for one adapter, given what resolving it found.
pub fn adapter_check_for(kind: AdapterKind, resolved: Result<String, AdapterError>) -> (r:
    DoctorCheck)
    ensures
        r.name@ == "adapter."@ + adapter_text(kind),
        r.ok == resolved is Ok,
        resolved matches Ok(path) ==> r.detail@ == path@,
{
    let mut name = text::owned(ADAPTER_CHECK_PREFIX);
    text::push_str(&mut name, kind.as_str());
    match resolved {
        Ok(path) => DoctorCheck { name, ok: true, detail: path },
        Err(error) => DoctorCheck { name, ok: false, detail: detail_for(kind, &error) },
    }
}

/// The check on the user's config file: one that does not read fails with
/// the parser's complaint on one line; none at all is normal, and says where
/// one would go.
pub fn config_check(problem: Option<&str>, located: Result<(String, bool), ConfigError>) -> (r:
    DoctorCheck)
    ensures
        r.name@ == "config.file"@,
        r.ok == problem is None,
        problem matches Some(p) ==> r.detail@ == one_line_text(p@),
        problem is None ==> (match located {
            Ok((path, true)) => r.detail@ == path@ + " (read)"@,
            Ok((path, false)) => r.detail@ == "none; create "@ + path@ + " to add one"@,
            Err(e) => r.detail@ == "no config directory on this machine: "@
                + crate::config::config_error_text(e),
        }),
{
    let name = text::owned("config.file");
    if let Some(p) = problem {
        return DoctorCheck { name, ok: false, detail: one_line(p) };
    }
    let detail = match located {
        Ok((path, true)) => {
            let mut d = path;
            text::push_str(&mut d, " (read)");
            d
        },
        Ok((path, false)) => {
            let mut d = text::owned("none; create ");
            text::push_str(&mut d, path.as_str());
            text::push_str(&mut d, " to add one");
            d
        },
        Err(error) => {
            let mut d = text::owned("no config directory on this machine: ");
            text::push_str(&mut d, error.to_string().as_str());
            d
        },
    };
    DoctorCheck { name, ok: true, detail }
}

// ---------------------------------------------------------------------------
// Text.
// ---------------------------------------------------------------------------

/// The words of `s` from position `i` on, appended to `out` one space apart;
/// `gap` says whether whitespace was seen since the last word.
pub open spec fn flatten_from(s: Seq<char>, i: int, out: Seq<char>, gap: bool) -> Seq<char>
    decreases s.len() - i,
{
    if i < 0 || i >= s.len() {
        out
    } else if text::is_ws(s[i]) {
        flatten_from(s, i + 1, out, out.len() > 0)
    } else {
        flatten_from(
            s,
            i + 1,
            (if gap {
                out.push(' ')
            } else {
                out
            }).push(s[i]),
            false,
        )
    }
}

/// The words of `s`, one space apart: a multi-line parser error on one line.
pub open spec fn one_line_text(s: Seq<char>) -> Seq<char> {
    flatten_from(s, 0, Seq::empty(), false)
}

/// One line, so a multi-line parser error does not tear a table apart. The
/// line and column survive the flattening.
pub fn one_line(s: &str) -> (r: String)
    ensures
        r@ == one_line_text(s@),
{
    let v = text::chars_of(s);
    let mut out: Vec<char> = Vec::new();
    let mut gap = false;
    let mut i: usize = 0;
    while i < v.len()
        invariant
            i <= v@.len(),
            one_line_text(v@) == flatten_from(v@, i as int, out@, gap),
        decreases v.len() - i,
    {
        let c = v[i];
        if text::is_ws_char(c) {
            gap = out.len() > 0;
        } else {
            if gap {
                out.push(' ');
            }
            out.push(c);
            gap = false;
        }
        i = i + 1;
    }
    text::string_of(&out)
}

/// Every character is a space or not whitespace at all.
pub open spec fn spaced(t: Seq<char>) -> bool {
    forall|k: int| 0 <= k < t.len() ==> !text::is_ws(#[trigger] t[k]) || t[k] == ' '
}

proof fn lemma_flatten_shape(s: Seq<char>, i: int, out: Seq<char>, gap: bool)
    requires
        spaced(out),
    ensures
        spaced(flatten_from(s, i, out, gap)),
    decreases s.len() - i,
{
    if 0 <= i < s.len() {
        if text::is_ws(s[i]) {
            lemma_flatten_shape(s, i + 1, out, out.len() > 0);
        } else {
            let next = (if gap {
                out.push(' ')
            } else {
                out
            }).push(s[i]);
            assert forall|k: int| 0 <= k < next.len() implies !text::is_ws(#[trigger] next[k])
                || next[k] == ' ' by {
                if k < out.len() {
                    assert(next[k] == out[k]);
                }
            }
            lemma_flatten_shape(s, i + 1, next, false);
        }
    }
}

/// What comes out on one line has no line break in it, nor any other
/// whitespace but single spaces.
pub proof fn law_one_line_is_one_line(s: Seq<char>)
    ensures
        spaced(one_line_text(s)),
        !one_line_text(s).contains('\n'),
{
    lemma_flatten_shape(s, 0, Seq::empty(), false);
    if one_line_text(s).contains('\n') {
        let k = choose|k: int| 0 <= k < one_line_text(s).len() && one_line_text(s)[k] == '\n';
        assert(text::is_ws(one_line_text(s)[k]));
    }
}

/// `str::lines`: split at `\n`, a `\r` before it dropped too, and no empty
/// line after a final newline.
pub open spec fn lines(s: Seq<char>) -> Seq<Seq<char>>
    decreases s.len(),
{
    if s.len() == 0 {
        Seq::empty()
    } else {
        match first_index(s, '\n', 0) {
            Some(k) => if 0 <= k < s.len() {
                let piece = s.take(k);
                seq![
                    if piece.len() > 0 && piece.last() == '\r' {
                        piece.drop_last()
                    } else {
                        piece
                    },
                ] + lines(s.skip(k + 1))
            } else {
                seq![s]
            },
            None => seq![s],
        }
    }
}

/// Whether a log line is at the level asked for: its text contains the
/// level, in either case. Crude, and honest about it.
pub open spec fn level_matches(line: Seq<char>, level: Option<Seq<char>>) -> bool {
    match level {
        None => true,
        Some(l) => text::contains_seq(text::upper_seq(line), text::upper_seq(l)),
    }
}

/// The lines, among the first `n`, at the level asked for.
pub open spec fn at_level(ls: Seq<Seq<char>>, level: Option<Seq<char>>, n: int) -> Seq<Seq<char>>
    decreases n,
{
    if n <= 0 || n > ls.len() {
        Seq::empty()
    } else {
        let front = at_level(ls, level, n - 1);
        if level_matches(ls[n - 1], level) {
            front.push(ls[n - 1])
        } else {
            front
        }
    }
}

/// The last `limit` lines at the level asked for, oldest first: the filter
/// narrows before the limit is applied.
pub open spec fn tail_of(contents: Seq<char>, limit: nat, level: Option<Seq<char>>) -> Seq<Seq<char>> {
    let ls = lines(contents);
    let matching = at_level(ls, level, ls.len() as int);
    if matching.len() > limit {
        matching.skip(matching.len() - limit)
    } else {
        matching
    }
}

proof fn lemma_at_level_matches(ls: Seq<Seq<char>>, level: Option<Seq<char>>, n: int)
    ensures
        forall|k: int| 0 <= k < at_level(ls, level, n).len() ==> level_matches(
            #[trigger] at_level(ls, level, n)[k],
            level,
        ),
    decreases n,
{
    if n > 0 && n <= ls.len() {
        lemma_at_level_matches(ls, level, n - 1);
        let front = at_level(ls, level, n - 1);
        if level_matches(ls[n - 1], level) {
            assert forall|k: int| 0 <= k < front.push(ls[n - 1]).len() implies level_matches(
                #[trigger] front.push(ls[n - 1])[k],
                level,
            ) by {
                if k < front.len() {
                    assert(front.push(ls[n - 1])[k] == front[k]);
                }
            }
        }
    }
}

/// The tail of a log is at most the limit, every line of it at the level
/// asked for, and as many such lines as there are, up to the limit: a level
/// filter narrows before the limit is applied.
pub proof fn law_the_tail_keeps_the_level_and_the_limit(contents: Seq<char>, limit: nat, level: Option<Seq<char>>)
    ensures
        ({
            let ls = lines(contents);
            let matching = at_level(ls, level, ls.len() as int);
            let t = tail_of(contents, limit, level);
            &&& t.len() == if matching.len() > limit {
                limit
            } else {
                matching.len()
            }
            &&& forall|k: int| 0 <= k < t.len() ==> level_matches(#[trigger] t[k], level)
            &&& t == matching.skip(matching.len() - t.len())
        }),
{
    let ls = lines(contents);
    let matching = at_level(ls, level, ls.len() as int);
    lemma_at_level_matches(ls, level, ls.len() as int);
    let t = tail_of(contents, limit, level);
    assert forall|k: int| 0 <= k < t.len() implies level_matches(#[trigger] t[k], level) by {
        assert(t[k] == matching[k + (matching.len() - t.len())]);
    }
    assert(t =~= matching.skip(matching.len() - t.len()));
}

fn upper_string(s: &str) -> (r: Vec<char>)
    ensures
        r@ == text::upper_seq(s@),
{
    let v = text::chars_of(s);
    let mut r: Vec<char> = Vec::new();
    let mut i: usize = 0;
    while i < v.len()
        invariant
            i <= v@.len(),
            r@ == text::upper_seq(v@.take(i as int)),
        decreases v.len() - i,
    {
        r.push(text::upper_char(v[i]));
        i = i + 1;
        assert(r@ =~= text::upper_seq(v@.take(i as int)));
    }
    assert(v@.take(v@.len() as int) =~= v@);
    r
}

/// Whether a log line is at the level asked for.
pub fn matches_level(line: &str, level: Option<&str>) -> (r: bool)
    ensures
        r == level_matches(line@, crate::config::opt_view(level)),
{
    match level {
        None => true,
        Some(l) => {
            let a = upper_string(line);
            let b = upper_string(l);
            text::contains_exec(&a, &b)
        },
    }
}

/// The lines of a text.
pub fn split_lines(s: &str) -> (r: Vec<String>)
    ensures
        views(r@) == lines(s@),
{
    let v = text::chars_of(s);
    let n = v.len();
    let mut r: Vec<String> = Vec::new();
    let mut pos: usize = 0;
    assert(v@.skip(0) =~= v@);
    assert(views(r@) =~= Seq::<Seq<char>>::empty());
    while pos < n
        invariant
            n == v@.len(),
            v@ == s@,
            pos <= n,
            lines(s@) == views(r@) + lines(v@.skip(pos as int)),
        decreases n - pos,
    {
        let ghost rest = v@.skip(pos as int);
        let mut k = pos;
        while k < n && v[k] != '\n'
            invariant
                pos <= k <= n,
                n == v@.len(),
                rest == v@.skip(pos as int),
                first_index(rest, '\n', 0) == first_index(rest, '\n', k - pos),
            decreases n - k,
        {
            assert(rest[k - pos] == v@[k as int]);
            k = k + 1;
        }
        let ghost before = views(r@);
        if k == n {
            assert(first_index(rest, '\n', n - pos) is None);
            r.push(text::string_of_range(&v, pos, n));
            assert(v@.subrange(pos as int, n as int) =~= rest);
            assert(views(r@) =~= before.push(rest));
            assert(lines(v@.skip(n as int)) =~= Seq::<Seq<char>>::empty()) by {
                assert(v@.skip(n as int).len() == 0);
            }
            assert(lines(rest) == seq![rest]);
            assert(seq![rest] + lines(v@.skip(n as int)) =~= seq![rest]);
            assert(before + seq![rest] =~= before.push(rest));
            pos = n;
        } else {
            assert(rest[k - pos] == '\n');
            let end = if k > pos && v[k - 1] == '\r' {
                k - 1
            } else {
                k
            };
            let piece = text::string_of_range(&v, pos, end);
            proof {
                let p = rest.take(k - pos);
                assert(v@.subrange(pos as int, k as int) =~= p);
                if k > pos && v@[k - 1] == '\r' {
                    assert(p.last() == '\r');
                    assert(v@.subrange(pos as int, end as int) =~= p.drop_last());
                }
                assert(rest.skip(k - pos + 1) =~= v@.skip(k + 1));
            }
            r.push(piece);
            assert(views(r@) =~= before.push(piece@));
            pos = k + 1;
        }
    }
    assert(lines(v@.skip(pos as int)) =~= Seq::<Seq<char>>::empty()) by {
        assert(v@.skip(pos as int).len() == 0);
    }
    r
}

/// The last `limit` lines of a log at the level asked for, oldest first.
pub fn tail(contents: &str, limit: usize, level: Option<&str>) -> (r: Vec<String>)
    ensures
        views(r@) == tail_of(contents@, limit as nat, crate::config::opt_view(level)),
{
    let all = split_lines(contents);
    let ghost ls = views(all@);
    let ghost lv = crate::config::opt_view(level);
    let mut matching: Vec<String> = Vec::new();
    let mut i: usize = 0;
    assert(views(matching@) =~= Seq::<Seq<char>>::empty());
    while i < all.len()
        invariant
            i <= all@.len(),
            ls == views(all@),
            lv == crate::config::opt_view(level),
            views(matching@) == at_level(ls, lv, i as int),
        decreases all.len() - i,
    {
        let ghost before = views(matching@);
        if matches_level(all[i].as_str(), level) {
            matching.push(all[i].clone());
            assert(views(matching@) =~= before.push(ls[i as int]));
        }
        i = i + 1;
    }
    let skip = if matching.len() > limit {
        matching.len() - limit
    } else {
        0
    };
    let mut r: Vec<String> = Vec::new();
    let mut j = skip;
    let ghost m = views(matching@);
    assert(views(r@) =~= m.subrange(skip as int, skip as int));
    while j < matching.len()
        invariant
            skip <= j <= matching@.len(),
            m == views(matching@),
            views(r@) == m.subrange(skip as int, j as int),
        decreases matching.len() - j,
    {
        let ghost before = views(r@);
        r.push(matching[j].clone());
        assert(views(r@) =~= before.push(m[j as int]));
        assert(views(r@) =~= m.subrange(skip as int, j + 1));
        j = j + 1;
    }
    assert(m.subrange(skip as int, m.len() as int) =~= m.skip(skip as int));
    assert(skip == 0 ==> m.skip(0) =~= m);
    r
}

// ---------------------------------------------------------------------------
// Running the checks.
// ---------------------------------------------------------------------------

/// Which checks a `doctor` run makes, besides the config file's, which is
/// always made.
#[derive(Debug, Clone, Copy, PartialEq, Eq, Structural)]
pub struct DoctorPlan {
    pub adapters: bool,
    pub state: bool,
    /// Only a run with no flags asks the daemon: naming a check narrows the
    /// run to what this process can answer alone, which is the point of
    /// `--check-state` on a state file the daemon refuses to start on.
    pub daemon: bool,
}

pub fn doctor_plan(check_adapters: bool, check_state: bool) -> (r: DoctorPlan)
    ensures
        r.daemon == (!check_adapters && !check_state),
        r.adapters == (r.daemon || check_adapters),
        r.state == (r.daemon || check_state),
{
    let everything = !check_adapters && !check_state;
    DoctorPlan {
        adapters: everything || check_adapters,
        state: everything || check_state,
        daemon: everything,
    }
}

/// The check on the project's state file, from what loading it found: where
/// it is, whether it exists yet and how many breakpoints it holds, or the
/// complaint about it on one line. A file not created yet is fine; most
/// projects never have one.
pub fn state_check(loaded: Result<(String, bool, usize), String>) -> (r: DoctorCheck)
    ensures
        r.name@ == "state.file"@,
        r.ok == loaded is Ok,
        match loaded {
            Ok((path, true, count)) => r.detail@ == path@ + " ("@ + text::decimal(count as nat)
                + " breakpoints)"@,
            Ok((path, false, _)) => r.detail@ == path@ + " (not created yet)"@,
            Err(problem) => r.detail@ == one_line_text(problem@),
        },
{
    let name = text::owned("state.file");
    match loaded {
        Ok((path, exists, count)) => {
            let mut detail = path;
            if exists {
                text::push_str(&mut detail, " (");
                text::push_decimal(&mut detail, count as u64);
                text::push_str(&mut detail, " breakpoints)");
            } else {
                text::push_str(&mut detail, " (not created yet)");
            }
            DoctorCheck { name, ok: true, detail }
        },
        Err(problem) => DoctorCheck { name, ok: false, detail: one_line(problem.as_str()) },
    }
}

/// The daemon check when no daemon could be reached: the socket is named,
/// since "denied on what" is the whole question a person runs `doctor` to
/// answer.
pub fn daemon_unreachable(socket: &str, error: &str) -> (r: DoctorCheck)
    ensures
        r.name@ == "daemon"@,
        !r.ok,
        r.detail@ == one_line_text("no daemon at "@ + socket@ + ": "@ + error@),
{
    let mut detail = text::owned("no daemon at ");
    text::push_str(&mut detail, socket);
    text::push_str(&mut detail, ": ");
    text::push_str(&mut detail, error);
    DoctorCheck { name: text::owned("daemon"), ok: false, detail: one_line(detail.as_str()) }
}

/// The first check named `daemon`, from the `i`-th on.
pub open spec fn first_daemon(checks: Seq<DoctorCheck>, i: int) -> Option<int>
    decreases checks.len() - i,
{
    if i < 0 || i >= checks.len() {
        None
    } else if checks[i].name@ == "daemon"@ {
        Some(i)
    } else {
        first_daemon(checks, i + 1)
    }
}

fn daemon_index(checks: &Vec<DoctorCheck>) -> (r: Option<usize>)
    ensures
        match r {
            Some(k) => first_daemon(checks@, 0) == Some(k as int) && k < checks@.len(),
            None => first_daemon(checks@, 0) is None,
        },
{
    let mut i: usize = 0;
    while i < checks.len()
        invariant
            i <= checks@.len(),
            first_daemon(checks@, 0) == first_daemon(checks@, i as int),
        decreases checks.len() - i,
    {
        if text::str_eq(checks[i].name.as_str(), "daemon") {
            return Some(i);
        }
        i = i + 1;
    }
    None
}

/// The daemon's own check, out of the report it sent: the check it made
/// of itself, or a failure saying it made none.
pub fn daemon_report(reported: Vec<DoctorCheck>) -> (r: DoctorCheck)
    ensures
        match first_daemon(reported@, 0) {
            Some(i) => r == reported@[i],
            None => r.name@ == "daemon"@ && !r.ok && r.detail@ == one_line_text(
                "the daemon reported nothing about itself"@,
            ),
        },
{
    match daemon_index(&reported) {
        Some(i) => {
            let mut checks = reported;
            checks.remove(i)
        },
        None => DoctorCheck {
            name: text::owned("daemon"),
            ok: false,
            detail: one_line("the daemon reported nothing about itself"),
        },
    }
}

/// What a `doctor` run comes to: its report, and a failed command when the
/// checks do not add up to a working install, so a script can branch on the
/// exit code rather than parse the report.
pub fn doctor_outcome(checks: Vec<DoctorCheck>) -> (r: (DoctorReport, Result<(), CliError>))
    ensures
        r.0.checks@ == checks@,
        r.0.ok == passes(checks@),
        r.0.ok ==> r.1 is Ok,
        !r.0.ok ==> (r.1 matches Err(e) && e.exit_code == exit::GENERAL && e.message@
            == failure_text(checks@)),
{
    let ok = verdict(&checks);
    let outcome = if ok {
        Ok(())
    } else {
        Err(CliError::general(failure_reason(&checks)))
    };
    (DoctorReport { ok, checks }, outcome)
}

// ---------------------------------------------------------------------------
// Following the log.
// ---------------------------------------------------------------------------

/// How a command's answer is printed.
#[derive(Debug, Clone, Copy, PartialEq, Eq, Structural)]
pub enum OutputFormat {
    Table,
    Json,
    Jsonl,
    Csv,
    Ids,
}

pub open spec fn format_text(format: OutputFormat) -> Seq<char> {
    match format {
        OutputFormat::Table => "table"@,
        OutputFormat::Json => "json"@,
        OutputFormat::Jsonl => "jsonl"@,
        OutputFormat::Csv => "csv"@,
        OutputFormat::Ids => "ids"@,
    }
}

impl OutputFormat {
    /// The name `--format` takes.
    pub fn as_str(&self) -> (r: &'static str)
        ensures
            r@ == format_text(*self),
    {
        match self {
            OutputFormat::Table => "table",
            OutputFormat::Json => "json",
            OutputFormat::Jsonl => "jsonl",
            OutputFormat::Csv => "csv",
            OutputFormat::Ids => "ids",
        }
    }
}

/// How a followed log is printed: a stream has no end, so only a format
/// that has none can carry it.
#[derive(Debug, Clone, Copy, PartialEq, Eq, Structural)]
pub enum FollowFormat {
    /// The line as the daemon wrote it.
    Plain,
    /// `{"line": "..."}`, the object `lazydap logs` prints per row, so
    /// following a log and reading one give the same shape.
    Jsonl,
}

/// A lowercase hexadecimal digit.
pub open spec fn hex_digit(d: int) -> char {
    seq!['0', '1', '2', '3', '4', '5', '6', '7', '8', '9', 'a', 'b', 'c', 'd', 'e', 'f'][d]
}

/// One character inside a JSON string, as serde_json writes it: `"` and `\`
/// behind a backslash; backspace, form feed, newline, carriage return and
/// tab by their letters; any other character below U+0020 as `\u00` and two
/// lowercase hex digits; everything else as it is.
pub open spec fn json_char(c: char) -> Seq<char> {
    let u = c as u32;
    if c == '"' {
        seq!['\\', '"']
    } else if c == '\\' {
        seq!['\\', '\\']
    } else if u == 0x08 {
        seq!['\\', 'b']
    } else if u == 0x0c {
        seq!['\\', 'f']
    } else if c == '\n' {
        seq!['\\', 'n']
    } else if c == '\r' {
        seq!['\\', 'r']
    } else if c == '\t' {
        seq!['\\', 't']
    } else if u < 0x20 {
        seq!['\\', 'u', '0', '0', hex_digit((u / 16) as int), hex_digit((u % 16) as int)]
    } else {
        seq![c]
    }
}

/// The characters of `s`, each written as inside a JSON string.
pub open spec fn json_escaped(s: Seq<char>) -> Seq<char>
    decreases s.len(),
{
    if s.len() == 0 {
        Seq::empty()
    } else {
        json_escaped(s.drop_last()) + json_char(s.last())
    }
}

/// The JSON text of a string: quoted, its characters escaped.
pub open spec fn json_quoted(s: Seq<char>) -> Seq<char> {
    seq!['"'] + json_escaped(s) + seq!['"']
}

/// `serde_json::to_string` of a string: its JSON text, quotes and escapes
/// included, as serde_json's string formatter writes it. It never fails for
/// a string.
#[verifier::external_body]
fn json_string(s: &str) -> (r: String)
    ensures
        r@ == json_quoted(s@),
{
    match serde_json::to_string(s) {
        Ok(t) => t,
        Err(_) => String::new(),
    }
}

impl FollowFormat {
    /// The follow format for `--format`, or the usage error for one a
    /// stream cannot be printed in, decided before anything is printed.
    pub fn of(format: OutputFormat) -> (r: Result<FollowFormat, CliError>)
        ensures
            format == OutputFormat::Table ==> r == Ok::<FollowFormat, CliError>(FollowFormat::Plain),
            format == OutputFormat::Jsonl ==> r == Ok::<FollowFormat, CliError>(FollowFormat::Jsonl),
            format != OutputFormat::Table && format != OutputFormat::Jsonl ==> (r matches Err(e)
                && e.exit_code == exit::USAGE && e.label@ == "UsageError"@ && e.message@
                == "`--follow` cannot print `--format "@ + format_text(format)
                + "`: a log that is still being written has no end to close a document at; use `--format jsonl` or `--format table`"@
                && e.details@.len() == 1 && text_entry(e.details@[0], "format"@, format_text(format))),
    {
        match format {
            OutputFormat::Table => Ok(FollowFormat::Plain),
            OutputFormat::Jsonl => Ok(FollowFormat::Jsonl),
            other => {
                let mut m = text::owned("`--follow` cannot print `--format ");
                text::push_str(&mut m, other.as_str());
                text::push_str(
                    &mut m,
                    "`: a log that is still being written has no end to close a document at; use `--format jsonl` or `--format table`",
                );
                let details = vec![text_detail("format", text::owned(other.as_str()))];
                Err(CliError::usage_with_details(m, details))
            },
        }
    }

    /// One followed line, printed.
    pub fn render(&self, line: &str) -> (r: String)
        ensures
            *self == FollowFormat::Plain ==> r@ == line@,
            *self == FollowFormat::Jsonl ==> r@ == "{\"line\":"@ + json_quoted(line@) + seq!['}'],
    {
        match self {
            FollowFormat::Plain => text::owned(line),
            FollowFormat::Jsonl => {
                let mut r = text::owned("{\"line\":");
                text::push_str(&mut r, json_string(line).as_str());
                text::push_char(&mut r, '}');
                r
            },
        }
    }
}

/// What `logs --purge` says: the file it removed, or that there was none.
pub fn purge_summary(path: &str, existed: bool) -> (r: String)
    ensures
        r@ == (if existed {
            "removed "@ + path@
        } else {
            "no log file to remove"@
        }),
{
    if existed {
        let mut r = text::owned("removed ");
        text::push_str(&mut r, path);
        r
    } else {
        text::owned("no log file to remove")
    }
}

/// The note under an empty `logs` list when the daemon has not written its
/// log yet.
pub fn no_log_note(path: &str) -> (r: String)
    ensures
        r@ == "no log at "@ + path@ + " yet; the daemon writes it when it starts"@,
{
    let mut r = text::owned("no log at ");
    text::push_str(&mut r, path);
    text::push_str(&mut r, " yet; the daemon writes it when it starts");
    r
}

} // verus!
