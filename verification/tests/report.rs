use lazydap::inspect::{Scope, ThreadInfo, Variable};
use lazydap::report::{ListRow, SCOPE_COLUMNS, VARIABLE_COLUMNS};
use lazydap::breakpoint::{Breakpoint, BreakpointStatus};
use lazydap::report::BREAKPOINT_COLUMNS;
use lazydap::watch::{Watch, WatchId};
use lazydap::inspect::EvalResult;
use lazydap::report::eval_line;
use lazydap::report::{capped_warning, dropped_warning};
use lazydap::breakpoint::BreakpointId;
use lazydap::inspect::{SourceRef, StackFrame, WaitOutcome};
use lazydap::report::{
    launched_table, render_fields, render_status, running_line, stable_state_table, trimmed_end,
    SessionSummary, StableState, StatusReport,
};
use lazydap::session::{
    AdapterKind, OutputCategory, OutputChunk, PauseReason, SessionId, SessionState,
};

fn report(session: Option<SessionSummary>) -> StatusReport {
    StatusReport {
        instance: "lazydap-test".to_string(),
        daemon_pid: 4242,
        uptime_ms: 1200,
        protocol_version: 1,
        lazydap_version: "0.1.0".to_string(),
        session,
    }
}

fn paused_session() -> SessionSummary {
    SessionSummary {
        session_id: SessionId::new(),
        adapter: AdapterKind::Codelldb,
        program: "/tmp/hello".to_string(),
        state: SessionState::Paused,
        exit_code: None,
        buffered_events: 7,
        captured_output_chunks: 3,
        dropped_events: 0,
        uptime_ms: 900,
    }
}

fn check_no_session() {
    let rendered = render_status(&report(None));
    assert!(rendered.contains("session"), "got: {rendered}");
    assert!(rendered.contains("lazydap-test"), "got: {rendered}");
}

fn check_live_session() {
    let rendered = render_status(&report(Some(paused_session())));

    assert!(rendered.contains("paused"), "got: {rendered}");
    assert!(rendered.contains("/tmp/hello"), "got: {rendered}");
    assert!(
        rendered
            .lines()
            .any(|line| line.starts_with("output_chunks") && line.ends_with(" 3")),
        "got: {rendered}",
    );
}

#[test]
fn session_a_daemon_with_no_session_says_so_rather_than_printing_nothing() {
    check_no_session();
}

#[test]
fn session_a_live_session_reports_its_state_and_buffered_output() {
    check_live_session();
}

#[test]
fn commands_a_daemon_with_no_session_says_so_rather_than_printing_nothing() {
    check_no_session();
}

#[test]
fn commands_a_live_session_reports_its_state_and_buffered_output() {
    check_live_session();
}

#[test]
fn the_status_table_lines_its_values_up_after_the_widest_label() {
    assert_eq!(
        render_status(&report(None)),
        "instance    lazydap-test\n\
         daemon_pid  4242\n\
         uptime_ms   1200\n\
         version     0.1.0\n\
         protocol    1\n\
         session     -",
    );
}

#[test]
fn a_session_that_has_not_exited_shows_a_dash_for_its_exit_code() {
    let rendered = render_status(&report(Some(paused_session())));
    assert!(
        rendered.lines().any(|line| line.starts_with("exit_code") && line.ends_with(" -")),
        "got: {rendered}",
    );
    let mut exited = paused_session();
    exited.state = SessionState::Exited;
    exited.exit_code = Some(-2);
    let rendered = render_status(&report(Some(exited)));
    assert!(rendered.contains("exited"), "got: {rendered}");
    assert!(
        rendered.lines().any(|line| line.starts_with("exit_code") && line.ends_with(" -2")),
        "got: {rendered}",
    );
}

#[test]
fn an_empty_table_is_empty() {
    assert_eq!(render_fields(&Vec::new()), "");
    assert_eq!(render_fields(&vec![("a".to_string(), "1".to_string())]), "a  1");
}

#[test]
fn a_pause_table_leads_with_the_state_and_shows_the_output_that_arrived() {
    let mut blob = StableState::new(WaitOutcome::Paused);
    blob.reason = Some(PauseReason::Breakpoint);
    blob.thread_id = Some(1);
    blob.hit_breakpoint_ids = vec![BreakpointId(2)];
    blob.captured_output = vec![OutputChunk::new(OutputCategory::Stdout, "hello\n")];
    blob.elapsed_ms = 42;

    let table = stable_state_table(&blob);
    assert_eq!(
        table,
        "state       paused\n\
         reason      breakpoint\n\
         thread_id   1\n\
         breakpoint  2\n\
         elapsed_ms  42\n\
         \n\
         output\n  [stdout] hello",
    );
}

#[test]
fn a_wait_that_dropped_output_says_so_under_what_it_kept() {
    let mut blob = StableState::new(WaitOutcome::Exited);
    blob.exit_code = Some(3);
    blob.additional_stopped_threads = vec![4, 5];
    blob.captured_output = vec![
        OutputChunk::new(OutputCategory::Stderr, "oops  \n\n"),
        OutputChunk::new(OutputCategory::Stdout, "done"),
    ];
    blob.output_truncated = true;
    blob.frame = Some(StackFrame {
        id: 1,
        name: "main".to_string(),
        source: Some(SourceRef { path: Some("/p/main.c".to_string()), name: None, source_reference: None }),
        line: 7,
        column: 1,
    });
    let table = stable_state_table(&blob);
    assert!(table.starts_with("state         exited\n"), "got: {table}");
    assert!(table.contains("\nexit_code     3\n"), "got: {table}");
    assert!(table.contains("\nalso_stopped  4, 5\n"), "got: {table}");
    assert!(table.ends_with("\n  [stderr] oops\n  [stdout] done\n  ... (truncated)"), "got: {table}");
    let without = stable_state_table(&StableState::new(WaitOutcome::Timeout));
    assert_eq!(without, "state       timeout\nelapsed_ms  0");
}

#[test]
fn trailing_whitespace_is_dropped_and_nothing_else() {
    assert_eq!(trimmed_end("  a b \t\n"), "  a b");
    assert_eq!(trimmed_end(""), "");
}

#[test]
fn a_launch_table_says_where_the_session_settled() {
    let id = SessionId::parse("67e55044-10b1-426f-9247-bb680e5fe0c8").expect("an id");
    let table = launched_table(id, SessionState::Paused, &Some(PauseReason::Entry), Some(1), 2);
    assert_eq!(
        table,
        "session_id   67e55044-10b1-426f-9247-bb680e5fe0c8\n\
         state        paused\n\
         reason       entry\n\
         thread_id    1\n\
         breakpoints  2",
    );
    let running = launched_table(id, SessionState::Running, &None, None, 0);
    assert!(running.contains("reason       -\n"), "got: {running}");
}

#[test]
fn a_program_that_was_let_go_is_reported_running() {
    assert_eq!(running_line(Some(3)), "running (thread 3)");
    assert_eq!(running_line(None), "running (thread -)");
}

#[test]
fn each_list_row_leads_with_the_id_the_next_command_needs() {

    let scope = Scope {
        name: "Locals".to_string(),
        variables_reference: 1001,
        expensive: false,
        named_variables: None,
        indexed_variables: None,
    };
    let row = ListRow::of_scope(&scope);
    assert_eq!(row.id, "1001");
    assert_eq!(row.cells, vec!["Locals", "1001", "false"]);
    assert_eq!(row.cells.len(), SCOPE_COLUMNS.len());

    let scalar = Variable {
        name: "x".to_string(),
        value: "42".to_string(),
        value_type: None,
        variables_reference: 0,
        named_variables: None,
        indexed_variables: None,
    };
    let row = ListRow::of_variable(&scalar);
    assert_eq!(row.id, "0");
    assert_eq!(row.cells, vec!["x", "42", "-", "0"]);
    assert_eq!(row.cells.len(), VARIABLE_COLUMNS.len());

    let row = ListRow::of_thread(&ThreadInfo { id: 7, name: "main".to_string() });
    assert_eq!((row.id.as_str(), row.cells), ("7", vec!["7".to_string(), "main".to_string()]));

    let frame = StackFrame { id: -3, name: "f".to_string(), source: None, line: 9, column: 0 };
    let row = ListRow::of_frame(&frame);
    assert_eq!(row.cells, vec!["-3", "f", "-", "9"]);

    let mut chunk = OutputChunk::new(OutputCategory::Console, "hi \n");
    chunk.timestamp_ms = 12;
    let row = ListRow::of_chunk(&chunk);
    assert_eq!(row.cells, vec!["12", "console", "hi"]);
}

#[test]
fn a_breakpoint_row_shows_where_the_debugger_will_stop() {

    let status = BreakpointStatus {
        breakpoint: Breakpoint {
            id: BreakpointId(4),
            source: "/p/src/main.c".to_string(),
            line: 10,
            column: None,
            condition: Some("i > 3".to_string()),
            hit_condition: None,
            log_message: None,
            enabled: true,
        },
        verified: true,
        adapter_line: Some(12),
        message: None,
    };
    let row = ListRow::of_breakpoint(&status, "src/main.c");
    assert_eq!(row.id, "4");
    assert_eq!(row.cells, vec!["4", "src/main.c:12", "true", "true", "i > 3"]);
    assert_eq!(row.cells.len(), BREAKPOINT_COLUMNS.len());
}

#[test]
fn a_watch_row_shows_a_dash_for_no_label() {

    let row = ListRow::of_watch(&Watch { id: WatchId(2), expression: "a.len()".to_string(), label: None });
    assert_eq!(row.cells, vec!["2", "a.len()", "-"]);
}

#[test]
fn an_evaluation_names_its_type_when_there_is_one() {

    let typed = EvalResult { value: "3".to_string(), value_type: Some("int".to_string()), variables_reference: 0 };
    assert_eq!(eval_line(&typed), "3 (int)");
    let untyped = EvalResult { value_type: None, ..typed };
    assert_eq!(eval_line(&untyped), "3");
}

#[test]
fn a_capped_list_says_where_the_next_page_starts() {

    assert_eq!(
        capped_warning(Some(10), 200),
        "warning: more variables than the cap; showing a prefix. Use `--start 210` for the next page, or `--max 0` for all of them",
    );
    assert!(capped_warning(None, 5).contains("`--start 5`"));
    assert_eq!(dropped_warning(3), "warning: 3 event(s) were dropped before anybody read them");
}
