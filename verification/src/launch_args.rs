//! What each adapter is sent in `launch`: the program and how to run it,
//! plus the settings without which that adapter misbehaves. The shape on
//! the wire is the caller's to write out; what goes in it is decided here.
use vstd::prelude::*;

use crate::adapter::launch_mode;
use crate::launch::views;
use crate::launch_json::pair_views;
use crate::pathname;
use crate::session::AdapterKind;
use crate::text;

verus! {

/// A launch, as a client asks for one.
#[derive(Debug, Clone, PartialEq, Eq)]
pub struct LaunchRequest {
    pub adapter: AdapterKind,
    pub program: String,
    pub args: Vec<String>,
    pub cwd: String,
    /// The debuggee's environment, one entry per variable, in name order.
    pub env: Vec<(String, String)>,
    pub stop_on_entry: bool,
    /// The interpreter or adapter binary to use instead of discovering one.
    pub adapter_command: Option<String>,
}

/// The settings one adapter needs beyond the common ones.
#[derive(Debug, Clone, PartialEq, Eq)]
pub enum LaunchExtras {
    /// `terminal` and `sourceLanguages`: codelldb's default terminal needs
    /// a reverse request lazydap does not advertise, and without the Rust and
    /// C formatters it renders a Rust `&str` as a raw pointer past its end.
    Codelldb { terminal: String, source_languages: Vec<String> },
    /// `console`, `justMyCode`, `subProcess`: any console but the internal
    /// one asks for a terminal, an agent's bug is as often in a dependency as
    /// in the project, and following a subprocess asks for a second session.
    Debugpy { console: String, just_my_code: bool, sub_process: bool },
    /// `outputMode`, `mode` and `output`: delve's default keeps the
    /// debuggee's output on its own stdout where nothing reads it; a `.go`
    /// source is compiled (to `output`), a binary run as it is.
    Delve { output_mode: String, mode: String, output: Option<String> },
}

/// The arguments of a `launch` request.
#[derive(Debug, Clone, PartialEq, Eq)]
pub struct LaunchArgs {
    /// DAP's `type`.
    pub adapter_type: String,
    pub request: String,
    pub program: String,
    pub args: Vec<String>,
    pub cwd: String,
    pub stop_on_entry: bool,
    /// Left out rather than sent empty.
    pub env: Option<Vec<(String, String)>>,
    pub extras: LaunchExtras,
}

pub open spec fn adapter_type_of(kind: AdapterKind) -> Seq<char> {
    match kind {
        AdapterKind::Codelldb => "lldb"@,
        AdapterKind::Debugpy => "python"@,
        AdapterKind::Delve => "go"@,
    }
}

/// The extras each adapter gets; for delve, `output` is where a compiled
/// program goes, and only a compiled one has it.
pub open spec fn extras_for(kind: AdapterKind, program: Seq<char>, compiled_output: Seq<char>, e: LaunchExtras) -> bool {
    match kind {
        AdapterKind::Codelldb => e matches LaunchExtras::Codelldb { terminal, source_languages }
            && terminal@ == "console"@ && views(source_languages@) == seq!["rust"@, "cpp"@, "c"@],
        AdapterKind::Debugpy => e matches LaunchExtras::Debugpy { console, just_my_code, sub_process }
            && console@ == "internalConsole"@ && !just_my_code && !sub_process,
        AdapterKind::Delve => e matches LaunchExtras::Delve { output_mode, mode, output }
            && output_mode@ == "remote"@ && (if crate::launch_json::go_source(program) {
            mode@ == "debug"@ && (output matches Some(o) && o@ == compiled_output)
        } else {
            mode@ == "exec"@ && output is None
        }),
    }
}

fn copy_pairs(pairs: &Vec<(String, String)>) -> (r: Vec<(String, String)>)
    ensures
        pair_views(r@) == pair_views(pairs@),
{
    let mut r: Vec<(String, String)> = Vec::new();
    let mut i: usize = 0;
    while i < pairs.len()
        invariant
            i <= pairs@.len(),
            pair_views(r@) == pair_views(pairs@.take(i as int)),
        decreases pairs.len() - i,
    {
        let ghost before = pair_views(r@);
        r.push((text::owned(pairs[i].0.as_str()), text::owned(pairs[i].1.as_str())));
        assert(pair_views(r@) =~= before.push((pairs@[i as int].0@, pairs@[i as int].1@)));
        assert(pair_views(pairs@.take(i + 1)) =~= pair_views(pairs@.take(i as int)).push(
            (pairs@[i as int].0@, pairs@[i as int].1@),
        ));
        i = i + 1;
    }
    assert(pairs@.take(pairs@.len() as int) =~= pairs@);
    r
}

/// The `launch` arguments for a request: its program, arguments, working
/// directory, entry stop and environment (left out when empty), and the
/// settings its adapter needs. `compiled_output` is where delve is to put a
/// program it compiles; a request for any other program does not use it.
pub fn launch_args(request: &LaunchRequest, compiled_output: String) -> (r: LaunchArgs)
    ensures
        r.adapter_type@ == adapter_type_of(request.adapter),
        r.request@ == "launch"@,
        r.program@ == request.program@,
        views(r.args@) == views(request.args@),
        r.cwd@ == request.cwd@,
        r.stop_on_entry == request.stop_on_entry,
        request.env@.len() == 0 ==> r.env is None,
        request.env@.len() > 0 ==> (r.env matches Some(e) && pair_views(e@) == pair_views(
            request.env@,
        )),
        extras_for(request.adapter, request.program@, compiled_output@, r.extras),
{
    let adapter_type = match request.adapter {
        AdapterKind::Codelldb => text::owned("lldb"),
        AdapterKind::Debugpy => text::owned("python"),
        AdapterKind::Delve => text::owned("go"),
    };
    let env = if request.env.len() == 0 {
        None
    } else {
        Some(copy_pairs(&request.env))
    };
    let extras = match request.adapter {
        AdapterKind::Codelldb => {
            let mut languages: Vec<String> = Vec::new();
            languages.push(text::owned("rust"));
            languages.push(text::owned("cpp"));
            languages.push(text::owned("c"));
            assert(views(languages@) =~= seq!["rust"@, "cpp"@, "c"@]);
            LaunchExtras::Codelldb { terminal: text::owned("console"), source_languages: languages }
        },
        AdapterKind::Debugpy => LaunchExtras::Debugpy {
            console: text::owned("internalConsole"),
            just_my_code: false,
            sub_process: false,
        },
        AdapterKind::Delve => {
            let mode = launch_mode(request.program.as_str());
            proof {
                reveal_strlit("debug");
                reveal_strlit("exec");
            }
            assert(mode@ == crate::adapter::delve_mode(request.program@));
            assert("debug"@ != "exec"@);
            if text::str_eq(mode, "debug") {
                LaunchExtras::Delve {
                    output_mode: text::owned("remote"),
                    mode: text::owned(mode),
                    output: Some(compiled_output),
                }
            } else {
                LaunchExtras::Delve {
                    output_mode: text::owned("remote"),
                    mode: text::owned(mode),
                    output: None,
                }
            }
        },
    };
    LaunchArgs {
        adapter_type,
        request: text::owned("launch"),
        program: text::owned(request.program.as_str()),
        args: crate::launch::copy_strings(&request.args),
        cwd: text::owned(request.cwd.as_str()),
        stop_on_entry: request.stop_on_entry,
        env,
        extras,
    }
}

/// The file delve compiles a program to: in the temporary directory, named
/// for this process and the moment, so two launches never share one and one
/// session's cleanup cannot delete what another was about to run.
pub open spec fn compiled_binary_spec(temp_dir: Seq<char>, pid: u32, nanos: u128) -> Seq<char> {
    pathname::join(
        temp_dir,
        "lazydap-delve-"@ + text::decimal(pid as nat) + seq!['-'] + text::decimal(nanos as nat),
    )
}

fn push_u128(s: &mut String, n: u128)
    ensures
        final(s)@ == old(s)@ + text::decimal(n as nat),
    decreases n,
{
    if n < 10 {
        text::push_decimal(s, n as u64);
    } else {
        push_u128(s, n / 10);
        let d = (n % 10) as u64;
        let ghost mid = s@;
        text::push_decimal(s, d);
        assert(text::decimal(d as nat) == seq![text::digit(d as nat)]);
        assert(text::decimal(n as nat) == text::decimal((n / 10) as nat).push(
            text::digit((n % 10) as nat),
        ));
        assert(s@ =~= old(s)@ + text::decimal(n as nat));
    }
}

pub fn compiled_binary_path(temp_dir: &str, pid: u32, nanos: u128) -> (r: String)
    ensures
        r@ == compiled_binary_spec(temp_dir@, pid, nanos),
{
    let mut name = text::owned("lazydap-delve-");
    text::push_decimal(&mut name, pid as u64);
    text::push_char(&mut name, '-');
    push_u128(&mut name, nanos);
    pathname::join_path(temp_dir, name.as_str())
}

/// Two launches do not share a compiled binary: names made at different
/// moments by one process differ.
pub proof fn law_two_launches_do_not_share_a_binary(temp_dir: Seq<char>, pid: u32, a: u128, b: u128)
    requires
        a != b,
    ensures
        compiled_binary_spec(temp_dir, pid, a) != compiled_binary_spec(temp_dir, pid, b),
{
    reveal_strlit("lazydap-delve-");
    let stem = "lazydap-delve-"@ + text::decimal(pid as nat) + seq!['-'];
    let na = stem + text::decimal(a as nat);
    let nb = stem + text::decimal(b as nat);
    assert("lazydap-delve-"@ + text::decimal(pid as nat) + seq!['-'] + text::decimal(a as nat) =~= na);
    assert("lazydap-delve-"@ + text::decimal(pid as nat) + seq!['-'] + text::decimal(b as nat) =~= nb);
    assert(na[0] == 'l');
    assert(nb[0] == 'l');
    let sep: Seq<char> = if temp_dir.len() == 0 || temp_dir.last() == '/' {
        Seq::empty()
    } else {
        seq!['/']
    };
    let p = temp_dir + sep;
    assert(pathname::join(temp_dir, na) =~= p + na);
    assert(pathname::join(temp_dir, nb) =~= p + nb);
    if p + na == p + nb {
        assert((p + na).skip(p.len() as int) =~= na);
        assert((p + nb).skip(p.len() as int) =~= nb);
        assert(na.skip(stem.len() as int) =~= text::decimal(a as nat));
        assert(nb.skip(stem.len() as int) =~= text::decimal(b as nat));
        text::lemma_decimal_value(a as nat);
        text::lemma_decimal_value(b as nat);
    }
}

} // verus!
