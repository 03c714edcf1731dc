//! What a paused program looks like: threads, frames, scopes, variables.
use vstd::prelude::*;

use crate::text;

verus! {

/// Where a frame's code lives.
#[derive(Debug, Clone, PartialEq, Eq)]
pub struct SourceRef {
    pub name: Option<String>,
    /// Absent for frames the adapter can only serve by reference.
    pub path: Option<String>,
    /// Non-zero when the source has to be fetched from the adapter.
    pub source_reference: Option<i64>,
}

/// The most useful single string for a source: its path, else its name.
pub open spec fn source_label(source: SourceRef) -> Seq<char> {
    match source.path {
        Some(path) => path@,
        None => match source.name {
            Some(name) => name@,
            None => "<unknown>"@,
        },
    }
}

impl SourceRef {
    /// The most useful single string for this source: its path, else its name.
    pub fn label(&self) -> (r: String)
        ensures
            r@ == source_label(*self),
    {
        match &self.path {
            Some(path) => path.clone(),
            None => match &self.name {
                Some(name) => name.clone(),
                None => text::owned("<unknown>"),
            },
        }
    }
}

/// One frame of the call stack.
#[derive(Debug, Clone, PartialEq, Eq)]
pub struct StackFrame {
    /// The adapter's handle for this frame.
    pub id: i64,
    pub name: String,
    pub source: Option<SourceRef>,
    pub line: u32,
    pub column: u32,
}

/// "name at label:line", or "name at line N" for a frame with no source.
pub open spec fn frame_text(frame: StackFrame) -> Seq<char> {
    match frame.source {
        Some(source) => frame.name@ + " at "@ + source_label(source) + seq![':'] + text::decimal(
            frame.line as nat,
        ),
        None => frame.name@ + " at line "@ + text::decimal(frame.line as nat),
    }
}

impl StackFrame {
    /// Where the frame is, as one line.
    pub fn to_string(&self) -> (r: String)
        ensures
            r@ == frame_text(*self),
    {
        let mut r = self.name.clone();
        match &self.source {
            Some(source) => {
                text::push_str(&mut r, " at ");
                let label = source.label();
                text::push_str(&mut r, label.as_str());
                text::push_char(&mut r, ':');
                text::push_decimal(&mut r, self.line as u64);
            },
            None => {
                text::push_str(&mut r, " at line ");
                text::push_decimal(&mut r, self.line as u64);
            },
        }
        r
    }
}

/// A named group of variables in a frame.
#[derive(Debug, Clone, PartialEq, Eq)]
pub struct Scope {
    pub name: String,
    pub variables_reference: i64,
    /// The adapter warns this one is slow to expand.
    pub expensive: bool,
    pub named_variables: Option<u32>,
    pub indexed_variables: Option<u32>,
}

/// One variable, as a string the adapter formatted for display.
#[derive(Debug, Clone, PartialEq, Eq)]
pub struct Variable {
    pub name: String,
    pub value: String,
    pub value_type: Option<String>,
    /// Non-zero when this variable has children.
    pub variables_reference: i64,
    pub named_variables: Option<u32>,
    pub indexed_variables: Option<u32>,
}

/// The result of evaluating an expression.
#[derive(Debug, Clone, PartialEq, Eq)]
pub struct EvalResult {
    pub value: String,
    pub value_type: Option<String>,
    pub variables_reference: i64,
}

/// One thread of the debuggee.
#[derive(Debug, Clone, PartialEq, Eq)]
pub struct ThreadInfo {
    pub id: i64,
    pub name: String,
}

/// A thread starting or ending during a wait.
#[derive(Debug, Clone, PartialEq, Eq)]
pub struct ThreadUpdate {
    pub thread_id: i64,
    pub kind: ThreadUpdateKind,
    pub name: Option<String>,
}

#[derive(Debug, Clone, Copy, PartialEq, Eq, Structural)]
pub enum ThreadUpdateKind {
    Started,
    Exited,
}

/// Which way to step.
#[derive(Debug, Clone, Copy, PartialEq, Eq, Structural)]
pub enum StepKind {
    /// Run the next line, stepping over any call in it.
    Over,
    /// Step into the call on this line.
    In,
    /// Run until this function returns.
    Out,
}

pub open spec fn step_kind_text(kind: StepKind) -> Seq<char> {
    match kind {
        StepKind::Over => "over"@,
        StepKind::In => "in"@,
        StepKind::Out => "out"@,
    }
}

impl StepKind {
    pub fn as_str(&self) -> (r: &'static str)
        ensures
            r@ == step_kind_text(*self),
    {
        match self {
            StepKind::Over => "over",
            StepKind::In => "in",
            StepKind::Out => "out",
        }
    }
}

/// Why an expression is being evaluated. `Watch`, the default, asks about
/// the program in its own language.
#[derive(Debug, Clone, Copy, PartialEq, Eq, Structural)]
pub enum EvalContext {
    Watch,
    Repl,
    Hover,
}

pub open spec fn eval_context_text(context: EvalContext) -> Seq<char> {
    match context {
        EvalContext::Repl => "repl"@,
        EvalContext::Watch => "watch"@,
        EvalContext::Hover => "hover"@,
    }
}

/// The context a word names, compared case-insensitively.
pub open spec fn eval_context_named(word: Seq<char>) -> Option<EvalContext> {
    let w = text::lower_seq(word);
    if w == "repl"@ {
        Some(EvalContext::Repl)
    } else if w == "watch"@ {
        Some(EvalContext::Watch)
    } else if w == "hover"@ {
        Some(EvalContext::Hover)
    } else {
        None
    }
}

impl EvalContext {
    pub fn as_str(&self) -> (r: &'static str)
        ensures
            r@ == eval_context_text(*self),
    {
        match self {
            EvalContext::Repl => "repl",
            EvalContext::Watch => "watch",
            EvalContext::Hover => "hover",
        }
    }

    /// The default: evaluate in the program's own language.
    pub fn default_context() -> (r: EvalContext)
        ensures
            r == EvalContext::Watch,
    {
        EvalContext::Watch
    }

    /// The context a person typed, in any capitalisation.
    pub fn parse(s: &str) -> (r: Result<EvalContext, BadValue>)
        ensures
            r matches Ok(c) ==> eval_context_named(s@) == Some(c),
            r matches Err(e) ==> eval_context_named(s@) is None && e.value@ == text::lower_seq(s@)
                && e.expected@ == "repl, watch or hover"@,
            r is Ok <==> eval_context_named(s@) is Some,
    {
        let word = text::lower_string(s);
        if text::is_literal(&word, "repl") {
            Ok(EvalContext::Repl)
        } else if text::is_literal(&word, "watch") {
            Ok(EvalContext::Watch)
        } else if text::is_literal(&word, "hover") {
            Ok(EvalContext::Hover)
        } else {
            Err(BadValue { value: word, expected: "repl, watch or hover" })
        }
    }
}

impl Default for EvalContext {
    fn default() -> (r: EvalContext)
        ensures
            r == EvalContext::Watch,
    {
        EvalContext::Watch
    }
}

/// Which half of a container to fetch.
#[derive(Debug, Clone, Copy, PartialEq, Eq, Structural)]
pub enum VariableFilter {
    /// Everything the adapter has.
    All,
    Named,
    Indexed,
}

pub open spec fn variable_filter_named(word: Seq<char>) -> Option<VariableFilter> {
    let w = text::lower_seq(word);
    if w == "all"@ {
        Some(VariableFilter::All)
    } else if w == "named"@ {
        Some(VariableFilter::Named)
    } else if w == "indexed"@ {
        Some(VariableFilter::Indexed)
    } else {
        None
    }
}

impl VariableFilter {
    /// The DAP spelling, or `None` for "do not filter".
    pub fn as_dap(&self) -> (r: Option<&'static str>)
        ensures
            match *self {
                VariableFilter::All => r is None,
                VariableFilter::Named => r matches Some(t) && t@ == "named"@,
                VariableFilter::Indexed => r matches Some(t) && t@ == "indexed"@,
            },
    {
        match self {
            VariableFilter::All => None,
            VariableFilter::Named => Some("named"),
            VariableFilter::Indexed => Some("indexed"),
        }
    }

    /// The filter a person typed, in any capitalisation.
    pub fn parse(s: &str) -> (r: Result<VariableFilter, BadValue>)
        ensures
            r matches Ok(f) ==> variable_filter_named(s@) == Some(f),
            r matches Err(e) ==> variable_filter_named(s@) is None && e.value@ == text::lower_seq(
                s@,
            ) && e.expected@ == "all, named or indexed"@,
            r is Ok <==> variable_filter_named(s@) is Some,
    {
        let word = text::lower_string(s);
        if text::is_literal(&word, "all") {
            Ok(VariableFilter::All)
        } else if text::is_literal(&word, "named") {
            Ok(VariableFilter::Named)
        } else if text::is_literal(&word, "indexed") {
            Ok(VariableFilter::Indexed)
        } else {
            Err(BadValue { value: word, expected: "all, named or indexed" })
        }
    }
}

impl Default for VariableFilter {
    fn default() -> (r: VariableFilter)
        ensures
            r == VariableFilter::All,
    {
        VariableFilter::All
    }
}

/// A command-line value that is not one of the ones there are.
#[derive(Debug, Clone, PartialEq, Eq)]
pub struct BadValue {
    pub value: String,
    /// What would have been accepted.
    pub expected: &'static str,
}

impl BadValue {
    /// "`value` is not one of expected".
    pub fn to_string(&self) -> (r: String)
        ensures
            r@ == seq!['`'] + self.value@ + "` is not one of "@ + self.expected@,
    {
        let mut r = String::new();
        text::push_char(&mut r, '`');
        text::push_str(&mut r, self.value.as_str());
        text::push_str(&mut r, "` is not one of ");
        text::push_str(&mut r, self.expected);
        r
    }
}

/// How a wait ended.
#[derive(Debug, Clone, Copy, PartialEq, Eq, Structural)]
pub enum WaitOutcome {
    Paused,
    Exited,
    Terminated,
    Timeout,
    AdapterDied,
}

pub open spec fn wait_outcome_text(outcome: WaitOutcome) -> Seq<char> {
    match outcome {
        WaitOutcome::Paused => "paused"@,
        WaitOutcome::Exited => "exited"@,
        WaitOutcome::Terminated => "terminated"@,
        WaitOutcome::Timeout => "timeout"@,
        WaitOutcome::AdapterDied => "adapter_died"@,
    }
}

impl WaitOutcome {
    /// The same spelling the JSON uses.
    pub fn as_str(&self) -> (r: &'static str)
        ensures
            r@ == wait_outcome_text(*self),
    {
        match self {
            WaitOutcome::Paused => "paused",
            WaitOutcome::Exited => "exited",
            WaitOutcome::Terminated => "terminated",
            WaitOutcome::Timeout => "timeout",
            WaitOutcome::AdapterDied => "adapter_died",
        }
    }

    /// Whether the session can still be used after this: only a pause or a
    /// timeout leaves it running.
    pub fn is_live(&self) -> (r: bool)
        ensures
            r <==> (*self == WaitOutcome::Paused || *self == WaitOutcome::Timeout),
    {
        match self {
            WaitOutcome::Paused | WaitOutcome::Timeout => true,
            _ => false,
        }
    }
}

} // verus!
