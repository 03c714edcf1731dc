use lazydap::breakpoint::{AdapterBreakpoint, Breakpoint, BreakpointId, BreakpointStatus, Location};
use lazydap::inspect::{EvalContext, EvalResult, SourceRef, StackFrame, VariableFilter, WaitOutcome};
use lazydap::launch::{LaunchConfig, LaunchConfigSource, LaunchKind, NotRunnable};
use lazydap::selector::BreakpointSelector;
use lazydap::session::{AdapterKind, OutputCategory, PauseReason, SessionId, SessionState};
use lazydap::watch::{Watch, WatchId, WatchSelector, WatchValue};
use lazydap::watch::{missing};
use lazydap::watch::{preview_watch, NewWatch};
use lazydap::translate::set_breakpoints_args;
use lazydap::translate::stack_frame;

fn breakpoint(line: u32) -> Breakpoint {
    Breakpoint {
        id: BreakpointId(1),
        source: "/tmp/main.c".to_string(),
        line,
        column: None,
        condition: None,
        hit_condition: None,
        log_message: None,
        enabled: true,
    }
}

// --- Breakpoints ---

#[test]
fn a_breakpoint_id_reads_back_what_it_prints() {
    assert_eq!(BreakpointId::parse("7"), Ok(BreakpointId(7)));
    assert_eq!(BreakpointId(7).to_string(), "7");
    assert_eq!(BreakpointId::parse(" +12 "), Ok(BreakpointId(12)));
    assert!(BreakpointId::parse("seven").is_err());
}

#[test]
fn a_location_splits_on_the_last_colon_so_paths_survive() {
    let location = Location::parse("src/a:b/main.c:42").expect("parse");
    assert_eq!(location.source, "src/a:b/main.c");
    assert_eq!(location.line, 42);
}

#[test]
fn a_location_without_a_line_is_rejected_with_the_input_quoted() {
    let error = Location::parse("main.c").expect_err("no line number");
    assert_eq!(error.input, "main.c");
    assert!(error.to_string().contains("file:line"), "got: {}", error.to_string());
}

#[test]
fn line_zero_is_rejected_because_lines_are_numbered_from_one() {
    let error = Location::parse("main.c:0").expect_err("no line zero");
    assert!(error.to_string().contains("from 1"), "got: {}", error.to_string());
}

#[test]
fn a_moved_breakpoint_reports_where_it_actually_landed() {
    let mut status = BreakpointStatus::unverified(breakpoint(40));
    assert_eq!(status.effective_line(), 40);

    status.apply(&AdapterBreakpoint {
        id: Some(BreakpointId(1)),
        adapter_id: Some(9),
        verified: true,
        line: Some(42),
        message: None,
    });

    assert!(status.verified);
    assert_eq!(status.adapter_line, Some(42));
    assert_eq!(status.effective_line(), 42);
    assert_eq!(status.breakpoint.line, 40, "the line the user asked for is still what we persist");
}

#[test]
fn a_breakpoint_the_adapter_left_where_it_was_reports_no_move() {
    let mut status = BreakpointStatus::unverified(breakpoint(19));
    status.apply(&AdapterBreakpoint {
        id: Some(BreakpointId(1)),
        adapter_id: Some(1),
        verified: true,
        line: Some(19),
        message: None,
    });
    assert_eq!(status.adapter_line, None, "reporting a move to the same line would be noise");
}

#[test]
fn a_message_from_the_adapter_is_kept_until_a_newer_one_replaces_it() {
    let mut status = BreakpointStatus::unverified(breakpoint(19));
    status.apply(&AdapterBreakpoint {
        id: None,
        adapter_id: None,
        verified: false,
        line: None,
        message: Some("no code here".to_string()),
    });
    status.apply(&AdapterBreakpoint { id: None, adapter_id: None, verified: false, line: None, message: None });
    assert_eq!(status.message, Some("no code here".to_string()));
}

// --- Inspection ---

#[test]
fn only_a_pause_or_a_timeout_leaves_a_session_worth_talking_to() {
    assert!(WaitOutcome::Paused.is_live());
    assert!(WaitOutcome::Timeout.is_live(), "a timeout means the program is still running");
    assert!(!WaitOutcome::Exited.is_live());
    assert!(!WaitOutcome::AdapterDied.is_live());
}

#[test]
fn a_frame_prints_where_it_is() {
    let frame = StackFrame {
        id: 42,
        name: "main".to_string(),
        source: Some(SourceRef {
            name: Some("main.c".to_string()),
            path: Some("/tmp/main.c".to_string()),
            source_reference: None,
        }),
        line: 19,
        column: 5,
    };
    assert_eq!(frame.to_string(), "main at /tmp/main.c:19");
}

#[test]
fn a_frame_with_no_source_on_disk_still_prints() {
    let frame = StackFrame { id: 1, name: "__libc_start".to_string(), source: None, line: 0, column: 0 };
    assert_eq!(frame.to_string(), "__libc_start at line 0");
}

#[test]
fn a_source_served_only_by_reference_falls_back_to_its_name() {
    let source = SourceRef {
        name: Some("@disassembly".to_string()),
        path: None,
        source_reference: Some(1001),
    };
    assert_eq!(source.label(), "@disassembly");
}

#[test]
fn the_all_filter_asks_the_adapter_for_no_filter_at_all() {
    assert_eq!(VariableFilter::All.as_dap(), None);
    assert_eq!(VariableFilter::Indexed.as_dap(), Some("indexed"));
}

#[test]
fn evaluating_defaults_to_asking_about_the_program_not_driving_the_debugger() {
    assert_eq!(EvalContext::default(), EvalContext::Watch);
}

#[test]
fn an_evaluation_context_parses_from_the_word_a_person_would_type() {
    assert_eq!(EvalContext::parse("watch").expect("parse"), EvalContext::Watch);
    assert_eq!(EvalContext::parse("REPL").expect("parse"), EvalContext::Repl);
    assert!(EvalContext::parse("nonsense").is_err());
}

// --- Launch configurations ---

fn config() -> LaunchConfig {
    LaunchConfig {
        name: "Debug binary".to_string(),
        adapter: Some(AdapterKind::Codelldb),
        adapter_type: "lldb".to_string(),
        kind: LaunchKind::Launch,
        program: Some("/p/build/hello".to_string()),
        args: Vec::new(),
        cwd: Some("/p".to_string()),
        env: Vec::new(),
        stop_on_entry: false,
        adapter_command: None,
        source: LaunchConfigSource::VsCodeLaunchJson,
        unresolved: Vec::new(),
        blocked: None,
    }
}

#[test]
fn a_complete_codelldb_configuration_is_runnable() {
    assert_eq!(config().not_runnable(), None);
    assert_eq!(config().runnable_program(), Ok("/p/build/hello"));
}

#[test]
fn a_configuration_for_an_adapter_we_do_not_ship_says_which_one() {
    let config = LaunchConfig { adapter: None, adapter_type: "python".to_string(), ..config() };
    let reason = config.not_runnable().expect("not shipped");
    assert!(reason.to_string().contains("python"), "got: {}", reason.to_string());
}

#[test]
fn an_attach_configuration_is_listed_but_not_runnable() {
    let config = LaunchConfig { kind: LaunchKind::Attach, ..config() };
    assert_eq!(config.not_runnable(), Some(NotRunnable::AttachNotSupported));
}

#[test]
fn an_unexpanded_variable_stops_the_launch_rather_than_becoming_a_path() {
    let config = LaunchConfig { unresolved: vec!["${command:pickProcess}".to_string()], ..config() };
    let reason = config.not_runnable().expect("nothing expanded it");
    assert!(reason.to_string().contains("pickProcess"), "got: {}", reason.to_string());
}

#[test]
fn a_problem_the_reader_found_is_reported_ahead_of_anything_else() {
    let config = LaunchConfig {
        blocked: Some(NotRunnable::BadArguments { problem: "unterminated \" quote".to_string() }),
        ..config()
    };
    let reason = config.not_runnable().expect("the reader refused it");
    assert!(reason.to_string().contains("unterminated"), "got: {}", reason.to_string());
}

#[test]
fn a_launch_configuration_with_no_program_is_refused_before_the_adapter_starts() {
    let config = LaunchConfig { program: None, ..config() };
    assert_eq!(config.not_runnable(), Some(NotRunnable::NoProgram));
}

// --- Selectors ---

fn bp(id: u32, source: &str, line: u32) -> Breakpoint {
    Breakpoint { id: BreakpointId(id), source: source.to_string(), line, ..breakpoint(line) }
}

fn fixture() -> Vec<Breakpoint> {
    vec![bp(1, "/p/main.c", 10), bp(2, "/p/main.c", 20), bp(3, "/p/other.c", 10)]
}

#[test]
fn selector_ids_pick_exactly_what_was_named() {
    let picked = BreakpointSelector::Ids(vec![BreakpointId(1), BreakpointId(3)]).pick(&fixture());
    let ids: Vec<u32> = picked.iter().map(|breakpoint| breakpoint.id.0).collect();
    assert_eq!(ids, vec![1, 3]);
}

#[test]
fn selector_an_id_that_does_not_exist_picks_nothing_rather_than_erroring_here() {
    let picked = BreakpointSelector::Ids(vec![BreakpointId(99)]).pick(&fixture());
    assert!(picked.is_empty());
}

#[test]
fn a_location_needs_both_the_file_and_the_line_to_match() {
    let selector = BreakpointSelector::Location { source: "/p/main.c".to_string(), line: 10 };
    let picked = selector.pick(&fixture());
    assert_eq!(picked.len(), 1);
    assert_eq!(picked[0].id, BreakpointId(1));
}

#[test]
fn a_source_picks_every_line_in_that_file_and_no_other() {
    let picked = BreakpointSelector::Source("/p/main.c".to_string()).pick(&fixture());
    assert_eq!(picked.len(), 2);
    assert!(picked.iter().all(|bp| bp.source == "/p/main.c"));
}

#[test]
fn selector_all_means_all() {
    assert_eq!(BreakpointSelector::All.pick(&fixture()).len(), 3);
}

#[test]
fn selector_a_selector_can_say_what_it_selected_for_a_message() {
    assert_eq!(BreakpointSelector::Ids(vec![BreakpointId(1), BreakpointId(2)]).describe(), "id 1, 2");
    assert_eq!(BreakpointSelector::All.describe(), "all breakpoints");
}

// --- Sessions ---

#[test]
fn session_ids_are_distinct_and_round_trip_as_strings() {
    let id = SessionId::new();
    assert_ne!(id, SessionId::new());
    assert_eq!(SessionId::parse(&id.to_string()), Ok(id));
}

#[test]
fn a_session_id_that_is_not_a_uuid_is_refused_with_the_input_kept() {
    let error = SessionId::parse("not-a-uuid").expect_err("not a uuid");
    assert_eq!(error.input, "not-a-uuid");
    assert!(!error.to_string().is_empty());
}

#[test]
fn pause_reason_keeps_an_unmodelled_adapter_reason_as_a_string() {
    let reason = PauseReason::from("goroutine-yield");
    assert_eq!(reason, PauseReason::Other("goroutine-yield".into()));
    assert_eq!(reason.as_str(), "goroutine-yield");
}

#[test]
fn pause_reason_reads_both_dap_and_lazydap_spellings() {
    assert_eq!(PauseReason::from("functionBreakpoint"), PauseReason::FunctionBreakpoint);
    assert_eq!(PauseReason::from("function_breakpoint"), PauseReason::FunctionBreakpoint);
    assert_eq!(
        PauseReason::from(PauseReason::FunctionBreakpoint.as_str()),
        PauseReason::FunctionBreakpoint
    );
}

#[test]
fn every_session_state_prints_the_way_it_serialises() {
    let names: Vec<&str> = [
        SessionState::Initialising,
        SessionState::Running,
        SessionState::Paused,
        SessionState::Exited,
        SessionState::Terminated,
        SessionState::AdapterDied,
    ]
    .iter()
    .map(|state| state.as_str())
    .collect();
    assert_eq!(names, vec!["initialising", "running", "paused", "exited", "terminated", "adapter_died"]);
}

#[test]
fn output_category_distinguishes_debuggee_streams_from_adapter_chatter() {
    assert!(OutputCategory::from("stdout").is_debuggee());
    assert!(!OutputCategory::from("console").is_debuggee());
}

#[test]
fn only_live_states_own_an_adapter() {
    assert!(SessionState::Paused.is_live());
    assert!(SessionState::Paused.is_stable());
    assert!(!SessionState::Exited.is_live());
    assert!(!SessionState::Running.is_stable());
}

#[test]
fn an_adapter_is_chosen_by_the_program_s_extension() {
    assert_eq!(AdapterKind::for_program("/p/app.py"), Some(AdapterKind::Debugpy));
    assert_eq!(AdapterKind::for_program("main.go"), Some(AdapterKind::Delve));
    assert_eq!(AdapterKind::for_program("/p/a.out"), None);
    assert_eq!(AdapterKind::parse("LLDB"), Ok(AdapterKind::Codelldb));
    assert!(AdapterKind::parse("gdb").is_err());
}

// --- Watches ---

fn watch(id: u32, expression: &str) -> Watch {
    Watch { id: WatchId(id), expression: expression.to_string(), label: None }
}

fn watches() -> Vec<Watch> {
    vec![watch(1, "counter"), watch(2, "tokens[pos]"), watch(3, "*p")]
}

#[test]
fn a_watch_id_reads_back_what_it_prints() {
    assert_eq!(WatchId::parse("7"), Ok(WatchId(7)));
    assert_eq!(WatchId(7).to_string(), "7");
}

#[test]
fn watch_ids_pick_exactly_what_was_named() {
    let picked = WatchSelector::Ids(vec![WatchId(1), WatchId(3)]).pick(&watches());
    let ids: Vec<u32> = picked.iter().map(|watch| watch.id.0).collect();
    assert_eq!(ids, vec![1, 3]);
}

#[test]
fn watch_an_id_that_does_not_exist_picks_nothing_rather_than_erroring_here() {
    assert!(WatchSelector::Ids(vec![WatchId(99)]).pick(&watches()).is_empty());
}

#[test]
fn an_expression_picks_the_watch_somebody_can_see_without_its_id() {
    let picked = WatchSelector::Expression("tokens[pos]".to_string()).pick(&watches());
    assert_eq!(picked.len(), 1);
    assert_eq!(picked[0].id, WatchId(2));
}

#[test]
fn an_expression_is_matched_whole_rather_than_as_a_substring() {
    let mut all = watches();
    all.push(watch(4, "counter + 1"));
    let picked = WatchSelector::Expression("counter".to_string()).pick(&all);
    assert_eq!(picked.len(), 1);
    assert_eq!(picked[0].id, WatchId(1));
}

#[test]
fn watch_all_means_all() {
    assert_eq!(WatchSelector::All.pick(&watches()).len(), 3);
}

#[test]
fn watch_a_selector_can_say_what_it_selected_for_a_message() {
    assert_eq!(WatchSelector::Ids(vec![WatchId(1), WatchId(2)]).describe(), "id 1, 2");
    assert_eq!(WatchSelector::All.describe(), "all watches");
}

#[test]
fn a_label_stands_in_for_the_expression_only_when_there_is_one() {
    let mut watch = watch(1, "self.parser.tokens[self.pos]");
    assert_eq!(watch.display_name(), "self.parser.tokens[self.pos]");
    watch.label = Some("token".to_string());
    assert_eq!(watch.display_name(), "token");
}

#[test]
fn an_out_of_scope_watch_reports_the_error_rather_than_pretending_to_a_value() {
    let error = WatchValue::Error("use of undeclared identifier 'x'".to_string());
    assert!(error.is_error());
    assert_eq!(error.value_type(), None);
    assert!(error.summary().contains("undeclared"));
}

#[test]
fn a_value_carries_the_adapters_type_name_when_it_gave_one() {
    let value = WatchValue::Value(EvalResult {
        value: "42".to_string(),
        value_type: Some("int".to_string()),
        variables_reference: 0,
    });
    assert!(!value.is_error());
    assert_eq!(value.summary(), "42");
    assert_eq!(value.value_type(), Some("int"));
}

#[test]
fn an_id_that_matched_nothing_is_reported_in_the_order_asked() {
    let held = vec![Watch { id: WatchId(1), expression: "a".to_string(), label: None }];
    assert_eq!(
        missing(&WatchSelector::Ids(vec![WatchId(3), WatchId(1), WatchId(2)]), &held),
        vec![WatchId(3), WatchId(2)],
    );
    assert!(missing(&WatchSelector::All, &Vec::new()).is_empty(), "a set that is empty is an answer");
}

#[test]
fn a_dry_run_add_shows_the_watch_already_there_or_one_without_an_id() {
    let new = NewWatch { expression: "counter".to_string(), label: None };
    let fresh = preview_watch(Vec::new(), new.clone());
    assert_eq!(fresh.id, WatchId(0));
    assert_eq!(fresh.expression, "counter");
    let existing = Watch { id: WatchId(4), expression: "counter".to_string(), label: Some("c".to_string()) };
    assert_eq!(preview_watch(vec![existing.clone()], new), existing);
}

#[test]
fn a_file_is_named_as_well_as_pathed_when_its_breakpoints_are_sent() {
    let breakpoints = vec![Breakpoint {
        id: BreakpointId(1),
        source: "/tmp/main.c".to_string(),
        line: 19,
        column: None,
        condition: Some("x > 5".to_string()),
        hit_condition: None,
        log_message: None,
        enabled: true,
    }];
    let args = set_breakpoints_args("/tmp/main.c", &breakpoints);
    assert_eq!(args.path, "/tmp/main.c");
    assert_eq!(args.name, Some("main.c".to_string()));
    assert_eq!(args.breakpoints[0].line, 19);
    assert_eq!(args.breakpoints[0].condition, Some("x > 5".to_string()));
}

#[test]
fn a_frame_s_source_reference_of_zero_is_no_reference() {
    let frame = stack_frame(
        1,
        "main".to_string(),
        Some((Some("main.c".to_string()), Some("/tmp/main.c".to_string()), Some(0))),
        19,
        5,
    );
    let source = frame.source.expect("a source");
    assert_eq!(source.source_reference, None);
    assert_eq!(source.path, Some("/tmp/main.c".to_string()));
    assert_eq!(frame.line, 19);
}

#[test]
fn a_clock_before_the_epoch_reads_as_zero() {
    assert_eq!(lazydap::session::millis_or_zero(None), 0);
    assert_eq!(lazydap::session::millis_or_zero(Some(1_700_000_000_123)), 1_700_000_000_123);
    assert_eq!(lazydap::session::millis_or_zero(Some((1u128 << 64) + 5)), 5);
}

#[test]
fn a_trailing_dot_component_is_skipped_as_path_does() {
    assert_eq!(AdapterKind::for_program("a.py/."), Some(AdapterKind::Debugpy));
    assert_eq!(AdapterKind::for_program("/src/main.go/./"), Some(AdapterKind::Delve));
    assert_eq!(AdapterKind::for_program("."), None);
    assert_eq!(AdapterKind::for_program("x/.."), None);
    assert_eq!(lazydap::pathname::path_extension("foo.txt/."), Some("txt".to_string()));
}
