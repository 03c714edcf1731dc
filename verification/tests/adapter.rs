use lazydap::adapter::{
    debuggee_pid_in, launch_mode, normalise_stop, AdapterError, AdapterStream, CodeLldb, Debugpy,
    Delve, Spawn, StopContext, PIN_LAUNCH_CONFIG, PIN_USER_CONFIG,
};
use lazydap::breakpoint::{Breakpoint, BreakpointId};
use lazydap::errors::ErrorCode;
use lazydap::inspect::StepKind;
use lazydap::session::{AdapterKind, PauseReason};
use lazydap::translate::{
    reconcile_breakpoints, source_ref, step_command, suggested_location, thread_info,
    DapBreakpoint,
};

fn entry_launch() -> StopContext {
    StopContext { stop_on_entry: true, pause_requested: false }
}

fn after_a_pause() -> StopContext {
    StopContext { stop_on_entry: false, pause_requested: true }
}

#[test]
fn a_sigstop_entry_pause_is_reported_as_entry_with_the_adapter_s_word_kept() {
    let (reason, raw) = CodeLldb.normalise_stop("exception", "signal SIGSTOP", entry_launch());
    assert_eq!(reason, PauseReason::Entry);
    assert_eq!(raw.as_deref(), Some("exception"), "nothing is hidden");
}

#[test]
fn a_stop_the_caller_asked_for_with_pause_is_reported_as_pause() {
    let (reason, raw) = CodeLldb.normalise_stop("exception", "signal SIGSTOP", after_a_pause());
    assert_eq!(reason, PauseReason::Pause);
    assert_eq!(raw.as_deref(), Some("exception"), "nothing is hidden");
}

#[test]
fn a_real_exception_during_a_pause_is_still_an_exception() {
    let (reason, raw) = CodeLldb.normalise_stop("exception", "EXC_BAD_ACCESS", after_a_pause());
    assert_eq!(reason, PauseReason::Exception);
    assert_eq!(raw, None);
}

#[test]
fn a_real_exception_at_the_entry_point_is_still_an_exception() {
    let (reason, raw) = CodeLldb.normalise_stop("exception", "EXC_BAD_ACCESS", entry_launch());
    assert_eq!(reason, PauseReason::Exception);
    assert_eq!(raw, None, "nothing was renamed, so nothing to disclose");
}

#[test]
fn a_sigstop_stop_nobody_asked_for_is_left_alone() {
    let (reason, raw) =
        CodeLldb.normalise_stop("exception", "signal SIGSTOP", StopContext::default());
    assert_eq!(reason, PauseReason::Exception);
    assert_eq!(raw, None);
}

#[test]
fn an_adapter_that_follows_the_spec_needs_no_normalising() {
    let (reason, raw) = CodeLldb.normalise_stop("entry", "", entry_launch());
    assert_eq!(reason, PauseReason::Entry);
    assert_eq!(raw, None);
}

#[test]
fn an_error_codelldb_hid_inside_a_value_is_recognised_as_one() {
    assert!(CodeLldb.is_eval_error("<error: invalid value object>"));
    assert!(CodeLldb.is_eval_error("<read memory from 0x4 failed (0 of 4 bytes read)>"));
}

#[test]
fn a_value_that_merely_has_angle_brackets_is_still_a_value() {
    assert!(!CodeLldb.is_eval_error("42"));
    assert!(!CodeLldb.is_eval_error("<__main__.Foo object at 0x10a>"));
    assert!(!CodeLldb.is_eval_error("<incomplete type>"));
    assert!(!CodeLldb.is_eval_error("\"the last attempt failed\""));
    assert!(!CodeLldb.is_eval_error("<0 of 4 bytes read> failed"));
}

#[test]
fn the_pid_is_scraped_from_the_line_codelldb_prints() {
    assert_eq!(
        CodeLldb.debuggee_pid_in("Launched process 56254 from '/tmp/hello'"),
        Some(56254),
    );
    assert_eq!(CodeLldb.debuggee_pid_in("hello from the debuggee\n"), None);
}

#[test]
fn codelldb_is_reached_over_tcp() {
    assert!(matches!(CodeLldb.spawn("/opt/codelldb/codelldb"), Spawn::Tcp { .. }));
}

#[test]
fn debugpy_is_a_module_of_an_interpreter_not_a_binary() {
    match Debugpy.spawn("/opt/homebrew/bin/python3") {
        Spawn::Stdio { program, args } => {
            assert_eq!(program, "/opt/homebrew/bin/python3".to_string());
            assert_eq!(args, vec!["-m".to_string(), "debugpy.adapter".to_string()]);
        }
        other => unreachable!("debugpy speaks over stdio, got: {other:?}"),
    }
}

#[test]
fn debugpy_an_entry_stop_needs_no_normalising() {
    let (reason, raw) = Debugpy.normalise_stop("entry", "", entry_launch());
    assert_eq!(reason, PauseReason::Entry);
    assert_eq!(raw, None);
}

#[test]
fn debugpy_no_pid_is_scraped_out_of_console_text() {
    assert_eq!(Debugpy.debuggee_pid_in("Launched process 56254 from '/tmp/hello'"), None);
}

#[test]
fn delve_is_reached_over_tcp_on_a_port_it_announces_on_stdout() {
    match Delve.spawn("/usr/local/bin/dlv") {
        Spawn::Tcp { args, env, stream, marker, .. } => {
            assert_eq!(args, vec!["dap".to_string(), "--listen=127.0.0.1:0".to_string()]);
            assert_eq!(stream, AdapterStream::Stdout);
            assert!(env.is_empty());
            assert!(
                "DAP server listening at: 127.0.0.1:54421".contains(marker),
                "the marker has to match what delve actually prints",
            );
        }
        other => unreachable!("delve speaks over TCP, got: {other:?}"),
    }
}

#[test]
fn delve_an_entry_stop_needs_no_normalising() {
    let (reason, raw) = Delve.normalise_stop("entry", "", entry_launch());
    assert_eq!(reason, PauseReason::Entry);
    assert_eq!(raw, None);
}

#[test]
fn delve_no_pid_is_scraped_out_of_console_text() {
    assert_eq!(Delve.debuggee_pid_in("Launched process 56254 from '/tmp/hello'"), None);
}

#[test]
fn a_go_source_file_is_compiled_and_a_binary_is_not() {
    assert_eq!(launch_mode("/tmp/main.go"), "debug");
    assert_eq!(launch_mode("/tmp/hello"), "exec");
}

#[test]
fn codelldb_announces_its_port_on_stderr_and_needs_logging_for_it() {
    match CodeLldb.spawn("/opt/codelldb/codelldb") {
        Spawn::Tcp { program, stream, env, .. } => {
            assert_eq!(program, "/opt/codelldb/codelldb".to_string());
            assert_eq!(stream, AdapterStream::Stderr);
            assert!(!env.is_empty());
        }
        other => unreachable!("codelldb speaks over TCP, got: {other:?}"),
    }
}

#[test]
fn each_adapter_names_its_own_kind() {
    assert_eq!(CodeLldb.kind(), AdapterKind::Codelldb);
    assert_eq!(Debugpy.kind(), AdapterKind::Debugpy);
    assert_eq!(Delve.kind(), AdapterKind::Delve);
}

#[test]
fn the_dispatching_helpers_follow_the_adapter_they_name() {
    let (reason, raw) =
        normalise_stop(AdapterKind::Codelldb, "exception", "signal SIGSTOP", after_a_pause());
    assert_eq!(reason, PauseReason::Pause);
    assert_eq!(raw.as_deref(), Some("exception"));
    let (reason, raw) =
        normalise_stop(AdapterKind::Delve, "exception", "signal SIGSTOP", after_a_pause());
    assert_eq!(reason, PauseReason::Exception);
    assert_eq!(raw, None);
    assert_eq!(debuggee_pid_in(AdapterKind::Codelldb, "Launched process 7 from '/x'"), Some(7));
    assert_eq!(debuggee_pid_in(AdapterKind::Debugpy, "Launched process 7 from '/x'"), None);
}

#[test]
fn a_pid_line_without_a_number_yields_nothing() {
    assert_eq!(CodeLldb.debuggee_pid_in("Launched process abc from '/x'"), None);
    assert_eq!(CodeLldb.debuggee_pid_in("Launched process 12"), None);
}

#[test]
fn an_unknown_stop_reason_is_kept_in_the_adapter_s_words() {
    let (reason, raw) = CodeLldb.normalise_stop("sleeping", "", entry_launch());
    assert_eq!(reason, PauseReason::Other("sleeping".to_string()));
    assert_eq!(raw, None);
}

#[test]
fn a_missing_adapter_is_reported_with_its_own_code() {
    let error = AdapterError::NotFound {
        adapter: AdapterKind::Codelldb,
        searched: vec!["/usr/bin".to_string()],
    };
    let ipc = error.into_ipc();
    assert_eq!(ipc.code, ErrorCode::AdapterNotFound);
    assert!(!PIN_USER_CONFIG.is_empty());
    assert!(!PIN_LAUNCH_CONFIG.is_empty());
}

fn breakpoint(id: u32, line: u32) -> Breakpoint {
    Breakpoint {
        id: BreakpointId(id),
        source: "/tmp/main.c".to_string(),
        line,
        column: None,
        condition: None,
        hit_condition: None,
        log_message: None,
        enabled: true,
    }
}

fn returned(id: i64, verified: bool, line: Option<u32>) -> DapBreakpoint {
    DapBreakpoint { id: Some(id), verified, line, message: None }
}

#[test]
fn a_set_breakpoints_response_is_paired_with_the_request_by_position() {
    let requested = vec![breakpoint(7, 10), breakpoint(8, 20)];
    let reconciled =
        reconcile_breakpoints(&requested, vec![returned(1, true, Some(10)), returned(2, false, None)]);

    assert_eq!(reconciled[0].id, Some(BreakpointId(7)));
    assert_eq!(reconciled[0].adapter_id, Some(1));
    assert!(reconciled[0].verified);
    assert_eq!(reconciled[1].id, Some(BreakpointId(8)));
    assert!(!reconciled[1].verified);
}

#[test]
fn an_adapter_that_returns_more_than_it_was_asked_for_gets_no_id_guessed() {
    let reconciled = reconcile_breakpoints(
        &vec![breakpoint(7, 10)],
        vec![returned(1, true, None), returned(2, true, None)],
    );

    assert_eq!(reconciled[1].id, None, "guessing would attach a stranger's id");
    assert_eq!(reconciled[1].adapter_id, Some(2), "and it is still legible");
}

#[test]
fn the_location_codelldb_suggests_is_read_out_of_its_message() {
    let suggested = suggested_location(
        "Breakpoint at /private/tmp/lazydap-demo/hello.c:6 could not be resolved, \
         but a valid location was found at /tmp/lazydap-demo/hello.c:6",
    );
    assert_eq!(
        suggested,
        Some("/tmp/lazydap-demo/hello.c".to_string()),
        "the two paths differ only by /private, which is easy to read past",
    );
}

#[test]
fn a_message_with_no_suggestion_in_it_yields_nothing() {
    assert_eq!(suggested_location("Breakpoint at main.c:6 could not be resolved"), None);
}

#[test]
fn a_suggestion_without_a_line_number_is_not_a_location() {
    assert_eq!(suggested_location("a valid location was found at /tmp/x"), None);
    assert_eq!(suggested_location("a valid location was found at /tmp/x:somewhere"), None);
}

#[test]
fn a_source_reference_of_zero_means_there_is_no_reference() {
    let source = source_ref(
        Some("main.c".to_string()),
        Some("/tmp/main.c".to_string()),
        Some(0),
    );
    assert_eq!(source.source_reference, None, "0 is DAP for absent");
    assert_eq!(source.path, Some("/tmp/main.c".to_string()));
    let served = source_ref(Some("<eval>".to_string()), None, Some(12));
    assert_eq!(served.source_reference, Some(12));
}

#[test]
fn a_thread_the_adapter_did_not_name_gets_a_usable_one() {
    let thread = thread_info(26187878, String::new());
    assert_eq!(thread.name, "thread 26187878");
    let named = thread_info(1, "main".to_string());
    assert_eq!(named.name, "main");
}

#[test]
fn step_over_is_dap_s_next_because_half_the_world_learned_the_gdb_name() {
    assert_eq!(step_command(StepKind::Over), "next");
    assert_eq!(step_command(StepKind::In), "stepIn");
    assert_eq!(step_command(StepKind::Out), "stepOut");
}
