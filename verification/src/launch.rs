//! Named ways to start a program under the debugger, from whichever file
//! described them, and whether lazydap can start each one.
use vstd::prelude::*;

use crate::session::AdapterKind;
use crate::text;

verus! {

/// One named way to start (or attach to) a program.
#[derive(Debug, Clone, PartialEq, Eq)]
pub struct LaunchConfig {
    pub name: String,
    /// Which adapter this needs, when it is one lazydap has.
    pub adapter: Option<AdapterKind>,
    /// What the file called it, kept whether or not it mapped to an adapter.
    pub adapter_type: String,
    pub kind: LaunchKind,
    pub program: Option<String>,
    pub args: Vec<String>,
    pub cwd: Option<String>,
    /// The debuggee's environment, one entry per variable, in name order.
    pub env: Vec<(String, String)>,
    pub stop_on_entry: bool,
    /// The interpreter or adapter binary the configuration insists on.
    pub adapter_command: Option<String>,
    pub source: LaunchConfigSource,
    /// `${...}` variables nothing could expand, left as written.
    pub unresolved: Vec<String>,
    /// A problem found while reading the configuration that makes it
    /// unrunnable.
    pub blocked: Option<NotRunnable>,
}

/// Which file a configuration came from.
#[derive(Debug, Clone, Copy, PartialEq, Eq, Structural, PartialOrd, Ord)]
pub enum LaunchConfigSource {
    /// `.lazydap/state.toml`, lazydap's own.
    ProjectState,
    /// `.vscode/launch.json`, inherited.
    VsCodeLaunchJson,
}

/// The name of the file a configuration came from.
pub open spec fn source_text(source: LaunchConfigSource) -> Seq<char> {
    match source {
        LaunchConfigSource::ProjectState => "state.toml"@,
        LaunchConfigSource::VsCodeLaunchJson => "launch.json"@,
    }
}

impl LaunchConfigSource {
    pub fn as_str(&self) -> (r: &'static str)
        ensures
            r@ == source_text(*self),
    {
        match self {
            LaunchConfigSource::ProjectState => "state.toml",
            LaunchConfigSource::VsCodeLaunchJson => "launch.json",
        }
    }
}

/// Start a new process, or join one that is already running.
#[derive(Debug, Clone, Copy, PartialEq, Eq, Structural)]
pub enum LaunchKind {
    Launch,
    Attach,
}

/// What a launch configuration's `request` says.
pub open spec fn launch_kind_text(kind: LaunchKind) -> Seq<char> {
    match kind {
        LaunchKind::Launch => "launch"@,
        LaunchKind::Attach => "attach"@,
    }
}

impl LaunchKind {
    pub fn as_str(&self) -> (r: &'static str)
        ensures
            r@ == launch_kind_text(*self),
    {
        match self {
            LaunchKind::Launch => "launch",
            LaunchKind::Attach => "attach",
        }
    }
}

/// Why a listed configuration cannot be started.
#[derive(Debug, Clone, PartialEq, Eq)]
pub enum NotRunnable {
    /// An adapter lazydap does not ship.
    UnsupportedAdapter { adapter_type: String },
    /// `request: "attach"`, which has no subcommand yet.
    AttachNotSupported,
    /// A `launch` configuration with nothing to launch.
    NoProgram,
    /// Variables nothing could expand, so the path is not a path.
    UnresolvedVariables { variables: Vec<String> },
    /// The configuration's arguments could not be read as a list.
    BadArguments { problem: String },
    /// A delve mode lazydap will not run.
    DelveMode { problem: String },
}

/// A `NotRunnable` as plain text.
pub enum NotRunnableView {
    UnsupportedAdapter(Seq<char>),
    AttachNotSupported,
    NoProgram,
    UnresolvedVariables(Seq<Seq<char>>),
    BadArguments(Seq<char>),
    DelveMode(Seq<char>),
}

impl View for NotRunnable {
    type V = NotRunnableView;

    open spec fn view(&self) -> NotRunnableView {
        match *self {
            NotRunnable::UnsupportedAdapter { adapter_type } => NotRunnableView::UnsupportedAdapter(
                adapter_type@,
            ),
            NotRunnable::AttachNotSupported => NotRunnableView::AttachNotSupported,
            NotRunnable::NoProgram => NotRunnableView::NoProgram,
            NotRunnable::UnresolvedVariables { variables } => NotRunnableView::UnresolvedVariables(
                views(variables@),
            ),
            NotRunnable::BadArguments { problem } => NotRunnableView::BadArguments(problem@),
            NotRunnable::DelveMode { problem } => NotRunnableView::DelveMode(problem@),
        }
    }
}

/// Strings joined by `, `.
pub open spec fn join_texts(items: Seq<Seq<char>>) -> Seq<char>
    decreases items.len(),
{
    if items.len() == 0 {
        Seq::empty()
    } else if items.len() == 1 {
        items[0]
    } else {
        join_texts(items.drop_last()) + ", "@ + items.last()
    }
}

pub open spec fn views(items: Seq<String>) -> Seq<Seq<char>> {
    items.map_values(|s: String| s@)
}

/// Appends `items` joined by `, ` to `s`.
pub fn push_joined(s: &mut String, items: &Vec<String>)
    ensures
        final(s)@ == old(s)@ + join_texts(views(items@)),
{
    let ghost start = s@;
    let mut i: usize = 0;
    while i < items.len()
        invariant
            i <= items@.len(),
            s@ == start + join_texts(views(items@.subrange(0, i as int))),
        decreases items.len() - i,
    {
        let ghost prefix = items@.subrange(0, i + 1);
        assert(views(prefix).drop_last() =~= views(items@.subrange(0, i as int)));
        if i > 0 {
            text::push_str(s, ", ");
        }
        text::push_str(s, items[i].as_str());
        i = i + 1;
        assert(s@ =~= start + join_texts(views(prefix)));
    }
    assert(items@.subrange(0, items@.len() as int) =~= items@);
}

/// A copy of a list of strings, equal to the one it copies.
pub fn copy_strings(items: &Vec<String>) -> (r: Vec<String>)
    ensures
        r@ == items@,
{
    let mut r: Vec<String> = Vec::new();
    let mut i: usize = 0;
    while i < items.len()
        invariant
            i <= items@.len(),
            r@ == items@.subrange(0, i as int),
        decreases items.len() - i,
    {
        r.push(items[i].clone());
        i = i + 1;
        assert(r@ =~= items@.subrange(0, i as int));
    }
    assert(items@.subrange(0, items@.len() as int) =~= items@);
    r
}

pub open spec fn not_runnable_text(reason: NotRunnable) -> Seq<char> {
    match reason {
        NotRunnable::UnsupportedAdapter { adapter_type } => "it needs a `"@ + adapter_type@
            + "` adapter, and lazydap ships codelldb only"@,
        NotRunnable::AttachNotSupported => "it attaches to a running process, which lazydap cannot do yet"@,
        NotRunnable::NoProgram => "it names no program to launch"@,
        NotRunnable::UnresolvedVariables { variables } => "nothing could expand "@ + join_texts(
            views(variables@),
        ) + ", so its paths are not paths"@,
        NotRunnable::BadArguments { problem } => "its arguments could not be read: "@ + problem@,
        NotRunnable::DelveMode { problem } => problem@,
    }
}

/// The reason a `NotRunnable` gives, read off its plain view.
pub open spec fn not_runnable_view_text(reason: NotRunnableView) -> Seq<char> {
    match reason {
        NotRunnableView::UnsupportedAdapter(adapter_type) => "it needs a `"@ + adapter_type
            + "` adapter, and lazydap ships codelldb only"@,
        NotRunnableView::AttachNotSupported => "it attaches to a running process, which lazydap cannot do yet"@,
        NotRunnableView::NoProgram => "it names no program to launch"@,
        NotRunnableView::UnresolvedVariables(variables) => "nothing could expand "@ + join_texts(
            variables,
        ) + ", so its paths are not paths"@,
        NotRunnableView::BadArguments(problem) => "its arguments could not be read: "@ + problem,
        NotRunnableView::DelveMode(problem) => problem,
    }
}

pub proof fn lemma_not_runnable_text_view(reason: NotRunnable)
    ensures
        not_runnable_text(reason) == not_runnable_view_text(reason@),
{
}

impl NotRunnable {
    /// An exact copy.
    pub fn duplicate(&self) -> (r: NotRunnable)
        ensures
            r@ == self@,
    {
        match self {
            NotRunnable::UnsupportedAdapter { adapter_type } => NotRunnable::UnsupportedAdapter {
                adapter_type: adapter_type.clone(),
            },
            NotRunnable::AttachNotSupported => NotRunnable::AttachNotSupported,
            NotRunnable::NoProgram => NotRunnable::NoProgram,
            NotRunnable::UnresolvedVariables { variables } => NotRunnable::UnresolvedVariables {
                variables: copy_strings(variables),
            },
            NotRunnable::BadArguments { problem } => NotRunnable::BadArguments {
                problem: problem.clone(),
            },
            NotRunnable::DelveMode { problem } => NotRunnable::DelveMode { problem: problem.clone() },
        }
    }

    /// The reason, phrased to follow "cannot run this configuration:".
    pub fn to_string(&self) -> (r: String)
        ensures
            r@ == not_runnable_text(*self),
    {
        match self {
            NotRunnable::UnsupportedAdapter { adapter_type } => {
                let mut r = text::owned("it needs a `");
                text::push_str(&mut r, adapter_type.as_str());
                text::push_str(&mut r, "` adapter, and lazydap ships codelldb only");
                r
            },
            NotRunnable::AttachNotSupported => text::owned(
                "it attaches to a running process, which lazydap cannot do yet",
            ),
            NotRunnable::NoProgram => text::owned("it names no program to launch"),
            NotRunnable::UnresolvedVariables { variables } => {
                let mut r = text::owned("nothing could expand ");
                push_joined(&mut r, variables);
                text::push_str(&mut r, ", so its paths are not paths");
                r
            },
            NotRunnable::BadArguments { problem } => {
                let mut r = text::owned("its arguments could not be read: ");
                text::push_str(&mut r, problem.as_str());
                r
            },
            NotRunnable::DelveMode { problem } => problem.clone(),
        }
    }
}

/// The program a configuration would start, or why it cannot start one: what
/// the reader found comes first, then the adapter, the kind, unexpanded
/// variables, and last the program itself.
pub open spec fn runnable(config: LaunchConfig) -> Result<Seq<char>, NotRunnableView> {
    match config.blocked {
        Some(blocked) => Err(blocked@),
        None => if config.adapter is None {
            Err(NotRunnableView::UnsupportedAdapter(config.adapter_type@))
        } else if config.kind == LaunchKind::Attach {
            Err(NotRunnableView::AttachNotSupported)
        } else if config.unresolved@.len() > 0 {
            Err(NotRunnableView::UnresolvedVariables(views(config.unresolved@)))
        } else {
            match config.program {
                Some(program) => Ok(program@),
                None => Err(NotRunnableView::NoProgram),
            }
        },
    }
}

impl LaunchConfig {
    /// The program this configuration would start, or why it cannot start
    /// one.
    pub fn runnable_program(&self) -> (r: Result<&str, NotRunnable>)
        ensures
            match runnable(*self) {
                Ok(program) => r matches Ok(p) && p@ == program,
                Err(reason) => r matches Err(e) && e@ == reason,
            },
    {
        if let Some(blocked) = &self.blocked {
            return Err(blocked.duplicate());
        }
        if self.adapter.is_none() {
            return Err(NotRunnable::UnsupportedAdapter { adapter_type: self.adapter_type.clone() });
        }
        if self.kind == LaunchKind::Attach {
            return Err(NotRunnable::AttachNotSupported);
        }
        if self.unresolved.len() > 0 {
            return Err(NotRunnable::UnresolvedVariables { variables: copy_strings(&self.unresolved) });
        }
        match &self.program {
            Some(program) => Ok(program.as_str()),
            None => Err(NotRunnable::NoProgram),
        }
    }

    /// Why this configuration cannot be started, or `None` if it can: the
    /// same answer `runnable_program` gives.
    pub fn not_runnable(&self) -> (r: Option<NotRunnable>)
        ensures
            match runnable(*self) {
                Ok(_) => r is None,
                Err(reason) => r matches Some(e) && e@ == reason,
            },
    {
        match self.runnable_program() {
            Ok(_) => None,
            Err(reason) => Some(reason),
        }
    }
}

/// Listing and running cannot disagree: a configuration is listed as
/// runnable exactly when running it yields a program, and a problem the
/// reader recorded always wins.
pub proof fn law_listed_runnable_iff_runs(config: LaunchConfig)
    ensures
        runnable(config) is Ok <==> (config.blocked is None && config.adapter is Some && config.kind
            == LaunchKind::Launch && config.unresolved@.len() == 0 && config.program is Some),
        config.blocked matches Some(b) ==> runnable(config) == Err::<Seq<char>, NotRunnableView>(b@),
{
}

} // verus!
