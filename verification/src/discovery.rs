//! Finding the binary for an adapter: the one the user's config pins, else
//! the first usable one on `PATH`.
//!
//! Whether a file is executable, and what a probe run of it printed, are
//! the caller's to find out; which file to ask about next, and what the
//! answers add up to, are decided here.
use vstd::prelude::*;

use crate::adapter::{AdapterError, PIN_LAUNCH_CONFIG, PIN_USER_CONFIG};
use crate::launch::views;
use crate::pathname;
use crate::session::{adapter_named, adapter_text, AdapterKind};
use crate::text;

verus! {

/// What an interpreter prints when it can import debugpy. Only something
/// that really ran the program prints it back, which a wrapper that exits
/// zero at anything does not.
pub const DEBUGPY_PROOF: &'static str = "lazydap-debugpy-ok";

/// What to look for on `PATH`. debugpy is a module, so what is looked for is
/// an interpreter that can import it, under either spelling.
pub open spec fn binaries_for(kind: AdapterKind) -> Seq<Seq<char>> {
    match kind {
        AdapterKind::Codelldb => seq!["codelldb"@],
        AdapterKind::Debugpy => seq!["python3"@, "python"@],
        AdapterKind::Delve => seq!["dlv"@],
    }
}

pub fn binaries(kind: AdapterKind) -> (r: Vec<String>)
    ensures
        views(r@) == binaries_for(kind),
{
    let mut r: Vec<String> = Vec::new();
    match kind {
        AdapterKind::Codelldb => {
            r.push(text::owned("codelldb"));
        },
        AdapterKind::Debugpy => {
            r.push(text::owned("python3"));
            r.push(text::owned("python"));
        },
        AdapterKind::Delve => {
            r.push(text::owned("dlv"));
        },
    }
    assert(views(r@) =~= binaries_for(kind));
    r
}

/// How to ask a found binary whether it can do the job: nothing to ask
/// codelldb, which is the adapter itself; an interpreter is asked to import
/// debugpy; `dlv` is asked about its `dap` subcommand, which older builds
/// (or something else called `dlv`) do not have.
pub open spec fn probe_for(kind: AdapterKind) -> Option<Seq<Seq<char>>> {
    match kind {
        AdapterKind::Codelldb => None,
        AdapterKind::Debugpy => Some(seq!["-c"@, "import debugpy; print('lazydap-debugpy-ok')"@]),
        AdapterKind::Delve => Some(seq!["help"@, "dap"@]),
    }
}

pub fn probe_args(kind: AdapterKind) -> (r: Option<Vec<String>>)
    ensures
        match probe_for(kind) {
            Some(args) => (r matches Some(v) && views(v@) == args),
            None => r is None,
        },
{
    match kind {
        AdapterKind::Codelldb => None,
        AdapterKind::Debugpy => {
            let mut v: Vec<String> = Vec::new();
            v.push(text::owned("-c"));
            v.push(text::owned("import debugpy; print('lazydap-debugpy-ok')"));
            assert(views(v@) =~= seq!["-c"@, "import debugpy; print('lazydap-debugpy-ok')"@]);
            Some(v)
        },
        AdapterKind::Delve => {
            let mut v: Vec<String> = Vec::new();
            v.push(text::owned("help"));
            v.push(text::owned("dap"));
            assert(views(v@) =~= seq!["help"@, "dap"@]);
            Some(v)
        },
    }
}

/// Whether a probe's answer proves the binary can act as the adapter: it
/// exited successfully and printed what only the real thing prints.
pub open spec fn answered_spec(kind: AdapterKind, success: bool, stdout: Seq<char>) -> bool {
    match kind {
        AdapterKind::Codelldb => true,
        AdapterKind::Debugpy => success && text::trim(stdout) == "lazydap-debugpy-ok"@,
        AdapterKind::Delve => success && text::contains_seq(stdout, "dap"@),
    }
}

/// Why a found binary cannot act as the adapter.
pub open spec fn unusable_error(kind: AdapterKind, command: Seq<char>) -> Option<(Seq<char>, Seq<char>)> {
    match kind {
        AdapterKind::Codelldb => None,
        AdapterKind::Debugpy => Some(
            (
                "it cannot import debugpy"@,
                "install it with `"@ + command + " -m pip install debugpy`"@,
            ),
        ),
        AdapterKind::Delve => Some(
            (
                "it does not have delve's `dap` subcommand"@,
                "install a current one with `go install github.com/go-delve/delve/cmd/dlv@latest`"@,
            ),
        ),
    }
}

/// Whether a probe's outcome (`None` when it could not be run) proves the
/// binary can act as the adapter. codelldb needs no proof.
pub open spec fn probe_passes(kind: AdapterKind, probe: Option<(bool, &str)>) -> bool {
    match probe {
        Some((success, stdout)) => answered_spec(kind, success, stdout@),
        None => kind == AdapterKind::Codelldb,
    }
}

/// `e` is the refusal of `command` as the adapter of `kind`: found, and
/// unable to do the job, with what is wrong and how to fix it.
pub open spec fn refused_as_unusable(e: AdapterError, kind: AdapterKind, command: Seq<char>) -> bool {
    e matches AdapterError::Incomplete { adapter, path, problem, hint } && adapter == kind && path@
        == command && unusable_error(kind, command) == Some((problem@, hint@))
}

/// Whether `command` can act as the adapter, given what its probe printed:
/// `probe` is the probe's success and its standard output, or `None` when
/// it could not be run at all.
pub fn usable(kind: AdapterKind, command: &str, probe: Option<(bool, &str)>) -> (r: Result<
    (),
    AdapterError,
>)
    ensures
        probe_passes(kind, probe) ==> r is Ok,
        !probe_passes(kind, probe) ==> (r matches Err(e) && refused_as_unusable(e, kind, command@)),
{
    let answered = match kind {
        AdapterKind::Codelldb => true,
        AdapterKind::Debugpy => match probe {
            Some((success, stdout)) => {
                let v = text::chars_of(stdout);
                let (a, b) = text::trim_bounds(&v);
                let trimmed = text::string_of_range(&v, a, b);
                success && text::str_eq(trimmed.as_str(), DEBUGPY_PROOF)
            },
            None => false,
        },
        AdapterKind::Delve => match probe {
            Some((success, stdout)) => {
                let v = text::chars_of(stdout);
                let pat = text::chars_of("dap");
                success && text::contains_exec(&v, &pat)
            },
            None => false,
        },
    };
    if answered {
        return Ok(());
    }
    match kind {
        AdapterKind::Codelldb => Ok(()),
        AdapterKind::Debugpy => {
            let mut hint = text::owned("install it with `");
            text::push_str(&mut hint, command);
            text::push_str(&mut hint, " -m pip install debugpy`");
            Err(
                AdapterError::Incomplete {
                    adapter: kind,
                    path: text::owned(command),
                    problem: text::owned("it cannot import debugpy"),
                    hint,
                },
            )
        },
        AdapterKind::Delve => Err(
            AdapterError::Incomplete {
                adapter: kind,
                path: text::owned(command),
                problem: text::owned("it does not have delve's `dap` subcommand"),
                hint: text::owned(
                    "install a current one with `go install github.com/go-delve/delve/cmd/dlv@latest`",
                ),
            },
        ),
    }
}

/// A pinned binary that is not an executable is an error rather than a
/// reason to look further: falling through to `PATH` would debug with a
/// different build than the one somebody chose, and say nothing. The pin
/// from the user's config is named as such; so is one from a launch
/// configuration, so the error sends nobody to the wrong file.
pub fn pinned_missing(kind: AdapterKind, path: &str, by_launch_config: bool) -> (r: AdapterError)
    ensures
        r matches AdapterError::ConfiguredAdapterMissing { adapter, path: p, pinned_by }
            && adapter == kind && p@ == path@ && pinned_by@ == (if by_launch_config {
            "the launch configuration"@
        } else {
            "lazydap's config"@
        }),
{
    AdapterError::ConfiguredAdapterMissing {
        adapter: kind,
        path: text::owned(path),
        pinned_by: if by_launch_config {
            PIN_LAUNCH_CONFIG
        } else {
            PIN_USER_CONFIG
        },
    }
}

/// Where a pinned binary came from, as the error names it.
pub open spec fn pin_text(by_launch_config: bool) -> Seq<char> {
    if by_launch_config {
        "the launch configuration"@
    } else {
        "lazydap's config"@
    }
}

/// The pin that decides the adapter binary, and whether a launch
/// configuration set it: a launch configuration's replaces discovery
/// outright, since the interpreter of a project's virtualenv is the whole
/// point of naming one; else the user's config; else none, and `PATH` is
/// searched.
pub fn pin_for(launch_pin: Option<&str>, config_pin: Option<&str>) -> (r: Option<(String, bool)>)
    ensures
        match launch_pin {
            Some(p) => r matches Some((c, by_launch)) && c@ == p@ && by_launch,
            None => match config_pin {
                Some(p) => r matches Some((c, by_launch)) && c@ == p@ && !by_launch,
                None => r is None,
            },
        },
{
    match launch_pin {
        Some(p) => Some((text::owned(p), true)),
        None => match config_pin {
            Some(p) => Some((text::owned(p), false)),
            None => None,
        },
    }
}

/// A pinned binary, judged: one that is not an executable is an error naming
/// the pin, never a fallback; one that cannot do the job says so; otherwise
/// it is the adapter. `probe` is consulted only for an executable.
pub fn pinned_outcome(
    kind: AdapterKind,
    command: &str,
    by_launch_config: bool,
    executable: bool,
    probe: Option<(bool, &str)>,
) -> (r: Result<String, AdapterError>)
    ensures
        !executable ==> (r matches Err(AdapterError::ConfiguredAdapterMissing { adapter, path, pinned_by })
            && adapter == kind && path@ == command@ && pinned_by@ == pin_text(by_launch_config)),
        executable && probe_passes(kind, probe) ==> (r matches Ok(c) && c@ == command@),
        executable && !probe_passes(kind, probe) ==> (r matches Err(e) && refused_as_unusable(
            e,
            kind,
            command@,
        )),
{
    if !executable {
        return Err(pinned_missing(kind, command, by_launch_config));
    }
    match usable(kind, command, probe) {
        Ok(()) => Ok(text::owned(command)),
        Err(e) => Err(e),
    }
}

/// A walk along `PATH`: each directory in turn, each of the adapter's
/// binaries in it, until one is usable.
#[derive(Debug, Clone, PartialEq, Eq)]
pub struct Search {
    pub kind: AdapterKind,
    pub dirs: Vec<String>,
    /// The directory being looked in.
    pub dir: usize,
    /// The binary being looked for in it.
    pub bin: usize,
    /// The directories looked through to the end.
    pub searched: Vec<String>,
    /// The first binary found that could not do the job: "no python3
    /// anywhere" and "the python3 you have cannot import debugpy" are
    /// different problems with different fixes.
    pub incomplete: Option<AdapterError>,
}

pub open spec fn search_wf(s: Search) -> bool {
    &&& s.dir <= s.dirs@.len()
    &&& s.bin < binaries_for(s.kind).len()
    &&& (s.dir == s.dirs@.len() ==> s.bin == 0)
    &&& views(s.searched@) == views(s.dirs@).take(s.dir as int)
}

/// The candidates still to be looked at.
pub open spec fn remaining(s: Search) -> int {
    (s.dirs@.len() - s.dir) * binaries_for(s.kind).len() - s.bin
}

impl Search {
    pub fn new(kind: AdapterKind, dirs: Vec<String>) -> (r: Search)
        ensures
            search_wf(r),
            r.kind == kind,
            r.dirs == dirs,
            r.dir == 0,
            r.bin == 0,
            r.incomplete is None,
    {
        let r = Search { kind, dirs, dir: 0, bin: 0, searched: Vec::new(), incomplete: None };
        assert(views(r.searched@) =~= views(r.dirs@).take(0));
        r
    }

    /// The next file to look at, or `None` when every one has been.
    pub fn candidate(&self) -> (r: Option<String>)
        requires
            search_wf(*self),
        ensures
            self.dir < self.dirs@.len() ==> (r matches Some(c) && c@ == pathname::join(
                self.dirs@[self.dir as int]@,
                binaries_for(self.kind)[self.bin as int],
            )),
            self.dir == self.dirs@.len() ==> r is None,
    {
        if self.dir >= self.dirs.len() {
            return None;
        }
        let names = binaries(self.kind);
        Some(pathname::join_path(self.dirs[self.dir].as_str(), names[self.bin].as_str()))
    }

    /// The candidate was no good: not an executable (`None`), or found and
    /// unable to do the job (the reason). Moves on to the next one.
    pub fn rejected(&mut self, unusable: Option<AdapterError>)
        requires
            search_wf(*old(self)),
            old(self).dir < old(self).dirs@.len(),
        ensures
            search_wf(*final(self)),
            remaining(*final(self)) == remaining(*old(self)) - 1,
            final(self).kind == old(self).kind,
            final(self).dirs == old(self).dirs,
            final(self).incomplete == (match old(self).incomplete {
                Some(e) => Some(e),
                None => unusable,
            }),
    {
        if self.incomplete.is_none() {
            self.incomplete = unusable;
        }
        let count = binaries(self.kind).len();
        let ghost before = *self;
        if self.bin + 1 < count {
            self.bin = self.bin + 1;
        } else {
            let ghost searched = views(self.searched@);
            assert(self.dir < self.dirs.len());
            let ghost at = self.dir as int;
            self.searched.push(text::owned(self.dirs[self.dir].as_str()));
            assert(views(self.searched@) =~= searched.push(self.dirs@[at]@));
            assert(views(self.dirs@).take(at + 1) =~= views(self.dirs@).take(at).push(
                self.dirs@[at]@,
            ));
            self.dir = self.dir + 1;
            self.bin = 0;
        }
        assert(remaining(*self) == remaining(before) - 1) by (nonlinear_arith)
            requires
                before.dirs@.len() == self.dirs@.len(),
                binaries_for(before.kind).len() == count,
                binaries_for(self.kind).len() == count,
                (before.bin + 1 < count && self.bin == before.bin + 1 && self.dir == before.dir) || (
                before.bin + 1 == count && self.bin == 0 && self.dir == before.dir + 1),
                remaining(*self) == (self.dirs@.len() - self.dir) * count - self.bin,
                remaining(before) == (before.dirs@.len() - before.dir) * count - before.bin,
        ;
    }

    /// What a search that found nothing usable reports: the first binary
    /// that could not do the job, else every directory it looked in.
    pub fn failure(self) -> (r: AdapterError)
        requires
            search_wf(self),
            self.dir == self.dirs@.len(),
        ensures
            match self.incomplete {
                Some(e) => r == e,
                None => r matches AdapterError::NotFound { adapter, searched } && adapter
                    == self.kind && views(searched@) == views(self.dirs@),
            },
    {
        assert(views(self.dirs@).take(self.dir as int) =~= views(self.dirs@));
        match self.incomplete {
            Some(e) => e,
            None => AdapterError::NotFound { adapter: self.kind, searched: self.searched },
        }
    }
}

/// A search ends: every rejection brings it one candidate closer to having
/// looked at all of them, and it stops offering candidates exactly when it
/// has.
pub proof fn law_a_search_ends(s: Search)
    requires
        search_wf(s),
    ensures
        remaining(s) >= 0,
        remaining(s) == 0 <==> s.dir == s.dirs@.len(),
{
    let n = binaries_for(s.kind).len();
    assert(n >= 1);
    if s.dir < s.dirs@.len() {
        assert((s.dirs@.len() - s.dir) * n >= n) by (nonlinear_arith)
            requires
                s.dirs@.len() - s.dir >= 1,
                n >= 1,
        ;
    } else {
        assert((s.dirs@.len() - s.dir) * n == 0) by (nonlinear_arith)
            requires
                s.dirs@.len() - s.dir == 0,
        ;
    }
}

/// A name with no ASCII capital in it is its own lower-case form.
proof fn lemma_lower_case_fixed(w: Seq<char>)
    requires
        forall|j: int| 0 <= j < w.len() ==> !('A' <= #[trigger] w[j] && w[j] <= 'Z'),
    ensures
        text::lower_seq(w) == w,
{
    assert(text::lower_seq(w) =~= w);
}

/// Each adapter is named back by the name lazydap gives it.
pub proof fn law_adapter_names_round_trip(kind: AdapterKind)
    ensures
        adapter_named(adapter_text(kind)) == Some(kind),
{
    reveal_strlit("codelldb");
    reveal_strlit("lldb");
    reveal_strlit("debugpy");
    reveal_strlit("python");
    reveal_strlit("delve");
    reveal_strlit("dlv");
    reveal_strlit("go");
    lemma_lower_case_fixed(adapter_text(kind));
}

/// Every name an adapter's own binary goes by names that adapter, so
/// `--adapter dlv` means delve and `--adapter codelldb` means codelldb.
/// debugpy is left out: what is looked for on its behalf is an interpreter,
/// not the adapter.
pub proof fn law_binary_names_name_their_adapter(kind: AdapterKind, i: int)
    requires
        kind != AdapterKind::Debugpy,
        0 <= i < binaries_for(kind).len(),
    ensures
        adapter_named(binaries_for(kind)[i]) == Some(kind),
{
    reveal_strlit("codelldb");
    reveal_strlit("lldb");
    reveal_strlit("debugpy");
    reveal_strlit("python");
    reveal_strlit("delve");
    reveal_strlit("dlv");
    reveal_strlit("go");
    lemma_lower_case_fixed(binaries_for(kind)[i]);
}

/// Names are compared without regard to ASCII case: any name, written in
/// capitals, names the same adapter as before, or none as before.
pub proof fn law_adapter_names_ignore_case(word: Seq<char>)
    ensures
        adapter_named(text::upper_seq(word)) == adapter_named(word),
{
    assert forall|j: int| 0 <= j < word.len() implies text::lower(text::upper(#[trigger] word[j]))
        == text::lower(word[j]) by {
        let c = word[j];
        if 'a' <= c && c <= 'z' {
            let d = ((c as u32) - 32) as char;
            assert('A' <= d && d <= 'Z');
            assert(((d as u32) + 32) as char == c);
        }
    }
    assert(text::lower_seq(text::upper_seq(word)) =~= text::lower_seq(word));
}

} // verus!
