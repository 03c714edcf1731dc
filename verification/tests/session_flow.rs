use lazydap::adapter::AdapterError;
use lazydap::breakpoint::{Breakpoint, BreakpointId};
use lazydap::handshake::{
    applied_breakpoints, debuggee_of, output_chunk, rebind_candidate, started_process,
    AdapterEvent, AdapterMessage, AdapterResponse, EventBody, Handshake, Step,
};
use lazydap::pump::{
    answered, answered_breakpoints, ended_by_itself, hit_breakpoints, on_event, record_breakpoints,
    stopped_thread_ids, Markers, Outstanding, OutstandingStep, PumpAction, PumpView,
};
use lazydap::session::{AdapterKind, EndReason, OutputCategory, PauseReason, SessionState};
use lazydap::translate::DapBreakpoint;

fn body() -> EventBody {
    EventBody {
        output: None,
        category: None,
        is_local_process: None,
        system_process_id: None,
        name: None,
        reason: None,
        description: None,
        thread_id: None,
        all_threads_stopped: None,
        all_threads_continued: None,
        hit_breakpoint_ids: Vec::new(),
        exit_code: None,
        breakpoint: None,
    }
}

fn event(name: &str, body: Option<EventBody>) -> AdapterEvent {
    AdapterEvent { event: name.to_string(), body }
}

fn ours(id: u32, line: u32) -> Breakpoint {
    Breakpoint {
        id: BreakpointId(id),
        source: "/tmp/exits.c".to_string(),
        line,
        column: None,
        condition: None,
        hit_condition: None,
        log_message: None,
        enabled: true,
    }
}

fn set_breakpoints_response(seq: i64, success: bool) -> AdapterResponse {
    AdapterResponse {
        request_seq: seq,
        success,
        command: "setBreakpoints".to_string(),
        message: None,
        breakpoints: if success {
            Some(vec![DapBreakpoint {
                id: Some(1),
                verified: true,
                line: Some(6),
                message: Some("Resolved locations: 1".to_string()),
            }])
        } else {
            None
        },
    }
}

fn breakpoint_event() -> AdapterEvent {
    event(
        "breakpoint",
        Some(EventBody {
            reason: Some("changed".to_string()),
            breakpoint: Some(DapBreakpoint {
                id: Some(1),
                verified: true,
                line: Some(6),
                message: Some("Resolved locations: 1".to_string()),
            }),
            ..body()
        }),
    )
}

fn view(map: Vec<(i64, BreakpointId)>) -> PumpView {
    PumpView {
        kind: AdapterKind::Codelldb,
        outstanding: Outstanding { pause: None, step: None },
        exit_code: None,
        breakpoint_ids: map,
    }
}

fn updated_id(action: PumpAction) -> Option<BreakpointId> {
    match action {
        PumpAction::BreakpointUpdated(b) => b.id,
        other => unreachable!("expected a breakpoint update, got {other:?}"),
    }
}

#[test]
fn an_output_event_becomes_a_typed_chunk() {
    let b = Some(EventBody {
        category: Some("stdout".to_string()),
        output: Some("hello\n".to_string()),
        ..body()
    });
    let chunk = output_chunk(&b).expect("a chunk");
    assert_eq!(chunk.category, OutputCategory::Stdout);
    assert_eq!(chunk.output, "hello\n");
    assert!(chunk.category.is_debuggee());
}

#[test]
fn an_output_event_without_a_body_is_not_a_chunk() {
    assert!(output_chunk(&None).is_none());
}

#[test]
fn an_output_event_naming_no_category_is_console_chatter() {
    let b = Some(EventBody { output: Some("x".to_string()), ..body() });
    let chunk = output_chunk(&b).expect("a chunk");
    assert_eq!(chunk.category, OutputCategory::Console);
    assert!(!chunk.category.is_debuggee());
}

#[test]
fn a_launch_survives_an_unreadable_set_breakpoints_answer() {
    let applied = applied_breakpoints(&Vec::new(), None);
    assert!(applied.is_empty(), "the program is running; throwing the launch away would be worse");
}

#[test]
fn a_process_event_carries_the_debuggee_s_pid() {
    let b = Some(EventBody {
        is_local_process: Some(true),
        system_process_id: Some(93720),
        name: Some("/tmp/main.py".to_string()),
        ..body()
    });
    let started = started_process(&b).expect("a process");
    assert_eq!(started.pid, 93720);
    assert_eq!(started.program.as_deref(), Some("/tmp/main.py"));
}

#[test]
fn a_compiled_debuggee_is_identified_by_what_the_adapter_ran() {
    let b = Some(EventBody {
        name: Some("/tmp/lazydap-delve-90235-1785499820892284000".to_string()),
        system_process_id: Some(90248),
        is_local_process: Some(true),
        ..body()
    });
    let started = started_process(&b).expect("a process");
    assert_eq!(
        started.program.as_deref(),
        Some("/tmp/lazydap-delve-90235-1785499820892284000"),
        "matching the .go path against this would decline to reap it",
    );
}

#[test]
fn a_name_that_is_not_a_path_is_not_used_to_identify_anything() {
    let b = Some(EventBody {
        name: Some("node".to_string()),
        system_process_id: Some(42),
        is_local_process: Some(true),
        ..body()
    });
    let started = started_process(&b).expect("a process");
    assert_eq!(started.pid, 42);
    assert_eq!(started.program, None, "falls back to what was launched");
}

#[test]
fn a_pid_on_another_machine_is_not_ours_to_reap() {
    let b = Some(EventBody {
        is_local_process: Some(false),
        system_process_id: Some(1234),
        ..body()
    });
    assert_eq!(started_process(&b), None);
}

#[test]
fn a_breakpoint_event_that_follows_its_own_answer_carries_our_id() {
    let mut requests = vec![(4, vec![ours(1, 6)])];
    let mut map = Vec::new();
    if let Some(applied) = answered_breakpoints(&mut requests, &set_breakpoints_response(4, true)) {
        record_breakpoints(&mut map, &applied);
    }
    let action = on_event(&view(map), &breakpoint_event());
    assert_eq!(
        updated_id(action),
        Some(BreakpointId(1)),
        "the update has to name the breakpoint `break --list` gave the caller",
    );
    assert!(requests.is_empty(), "and the request is no longer in flight");
}

#[test]
fn an_answer_nobody_registered_leaves_the_id_unmapped() {
    let mut requests: Vec<(i64, Vec<Breakpoint>)> = Vec::new();
    let mut map = Vec::new();
    if let Some(applied) = answered_breakpoints(&mut requests, &set_breakpoints_response(4, true)) {
        record_breakpoints(&mut map, &applied);
    }
    assert_eq!(updated_id(on_event(&view(map), &breakpoint_event())), None);
}

#[test]
fn a_rejected_answer_takes_its_request_out_of_flight_without_recording_anything() {
    let mut requests = vec![(4, vec![ours(1, 6)])];
    let mut map = Vec::new();
    let applied = answered_breakpoints(&mut requests, &set_breakpoints_response(4, false));
    assert!(applied.is_none());
    if let Some(applied) = applied {
        record_breakpoints(&mut map, &applied);
    }
    assert!(requests.is_empty(), "nothing is still in flight");
    assert_eq!(updated_id(on_event(&view(map), &breakpoint_event())), None, "a refused request maps nothing");
}

#[test]
fn an_answer_for_another_request_leaves_the_one_in_flight() {
    let mut requests = vec![(4, vec![ours(1, 6)]), (5, vec![ours(2, 9)])];
    let applied = answered_breakpoints(&mut requests, &set_breakpoints_response(5, true))
        .expect("an answer");
    assert_eq!(applied[0].id, Some(BreakpointId(2)));
    assert_eq!(requests.len(), 1);
    assert_eq!(requests[0].0, 4);
}

#[test]
fn a_newer_mapping_for_an_adapter_id_wins() {
    let mut requests = vec![(4, vec![ours(1, 6)]), (5, vec![ours(3, 6)])];
    let mut map = Vec::new();
    for seq in [4, 5] {
        let applied = answered_breakpoints(&mut requests, &set_breakpoints_response(seq, true))
            .expect("an answer");
        record_breakpoints(&mut map, &applied);
    }
    assert_eq!(updated_id(on_event(&view(map), &breakpoint_event())), Some(BreakpointId(3)));
}

fn step(thread_id: i64) -> Option<OutstandingStep> {
    Some(OutstandingStep { id: 1, thread_id })
}

#[test]
fn a_step_is_reported_against_the_thread_it_was_aimed_at() {
    let (thread_id, adapter_thread_id) =
        stopped_thread_ids(&PauseReason::Step, step(34353118), Some(34353117));
    assert_eq!(thread_id, Some(34353118), "the thread that was asked to step");
    assert_eq!(adapter_thread_id, Some(34353117), "and the adapter's own answer, kept");
}

#[test]
fn an_adapter_that_names_the_thread_we_asked_for_discloses_nothing() {
    assert_eq!(
        stopped_thread_ids(&PauseReason::Step, step(7), Some(7)),
        (Some(7), None),
        "there is no discrepancy to report",
    );
}

#[test]
fn a_stop_that_is_not_the_step_passes_through_untouched() {
    assert_eq!(stopped_thread_ids(&PauseReason::Breakpoint, step(7), Some(9)), (Some(9), None));
    assert_eq!(
        stopped_thread_ids(&PauseReason::Step, None, Some(9)),
        (Some(9), None),
        "nothing was asked to step",
    );
}

#[test]
fn a_pause_racing_a_step_does_not_cost_the_step_its_thread_correction() {
    let mut markers = Markers::new();
    let step_marker = markers.expect_step(42);
    let pause_marker = markers.expect_pause();
    assert_ne!(step_marker, pause_marker, "two requests, two markers, or one of them is lost");

    let outstanding = markers.outstanding;
    assert_eq!(
        stopped_thread_ids(&PauseReason::Step, outstanding.step, Some(99)),
        (Some(42), Some(99)),
        "the step is still tracked despite the pause behind it",
    );
    markers.settle(&PauseReason::Step);

    let after = markers.outstanding;
    assert_eq!(after.step, None, "the step has been answered");
    assert_eq!(after.pause, Some(pause_marker), "the pause has not, and its SIGSTOP is still to come");
}

#[test]
fn a_pause_that_lands_first_leaves_the_step_it_interrupted_outstanding() {
    let mut markers = Markers::new();
    let step_marker = markers.expect_step(42);
    markers.expect_pause();

    assert_eq!(answered(&PauseReason::Pause, markers.outstanding), markers.outstanding.pause);
    markers.settle(&PauseReason::Pause);

    let after = markers.outstanding;
    assert_eq!(after.pause, None, "the pause has been answered");
    assert_eq!(after.step.map(|step| step.id), Some(step_marker), "the step was interrupted, not answered");
}

#[test]
fn withdrawing_a_rejected_request_cannot_take_a_newer_one_with_it() {
    let mut markers = Markers::new();
    let stale = markers.expect_pause();
    let fresh = markers.expect_step(7);

    markers.withdraw(stale);

    let after = markers.outstanding;
    assert_eq!(after.pause, None, "the refused pause is gone");
    assert_eq!(after.step.map(|step| step.id), Some(fresh), "and the step that arrived meanwhile is untouched");
}

#[test]
fn resuming_forgets_both_slots() {
    let mut markers = Markers::new();
    markers.expect_step(7);
    markers.expect_pause();

    markers.expect_nothing();

    assert_eq!(markers.outstanding, Outstanding { pause: None, step: None });
}

#[test]
fn a_pause_s_sigstop_is_read_as_the_pause_it_answers() {
    let mut v = view(Vec::new());
    v.outstanding = Outstanding { pause: Some(5), step: None };
    let stop = event(
        "stopped",
        Some(EventBody {
            reason: Some("exception".to_string()),
            description: Some("signal SIGSTOP".to_string()),
            thread_id: Some(3),
            all_threads_stopped: Some(true),
            ..body()
        }),
    );
    match on_event(&v, &stop) {
        PumpAction::Stopped { withdraw, thread_id, reason, raw_reason, all_threads_stopped, .. } => {
            assert_eq!(reason, PauseReason::Pause);
            assert_eq!(raw_reason.as_deref(), Some("exception"));
            assert_eq!(withdraw, Some(5));
            assert_eq!(thread_id, Some(3));
            assert!(all_threads_stopped);
        }
        other => unreachable!("expected a stop, got {other:?}"),
    }
}

#[test]
fn a_stop_names_only_the_breakpoints_we_know() {
    let map = vec![(11, BreakpointId(2))];
    assert_eq!(hit_breakpoints(&map, &vec![11, 12]), vec![BreakpointId(2)]);
}

#[test]
fn terminated_ends_the_session_with_the_code_exited_gave() {
    let mut v = view(Vec::new());
    v.exit_code = Some(3);
    assert_eq!(
        on_event(&v, &event("terminated", None)),
        PumpAction::End(EndReason::Exited { exit_code: Some(3) }),
    );
    assert_eq!(on_event(&view(Vec::new()), &event("terminated", None)), PumpAction::End(EndReason::Terminated));
    assert_eq!(on_event(&view(Vec::new()), &event("module", None)), PumpAction::Ignore);
    let exited = event("exited", Some(EventBody { exit_code: Some(7), ..body() }));
    assert_eq!(on_event(&view(Vec::new()), &exited), PumpAction::ExitCode(Some(7)));
}

#[test]
fn only_an_ending_nobody_asked_for_is_the_pump_s_to_wind_down() {
    assert!(ended_by_itself(SessionState::Exited, false));
    assert!(!ended_by_itself(SessionState::Exited, true));
    assert!(!ended_by_itself(SessionState::Running, false));
}

fn sources() -> Vec<(String, Vec<Breakpoint>)> {
    vec![("/private/tmp/demo/hello.c".to_string(), vec![ours(1, 6)])]
}

#[test]
fn a_launch_configures_on_initialized_and_settles_when_everything_is_answered() {
    let mut h = Handshake::new(false, 2);
    assert!(!h.finished());
    let step = h.on_message(
        AdapterKind::Codelldb,
        AdapterMessage::Event(event("initialized", None)),
        &sources(),
    );
    assert_eq!(step, Step::Configure);
    h.configured(vec![3], 4);
    let launch = AdapterResponse {
        request_seq: 2,
        success: true,
        command: "launch".to_string(),
        message: None,
        breakpoints: None,
    };
    assert_eq!(h.on_message(AdapterKind::Codelldb, AdapterMessage::Response(launch), &sources()), Step::Read);
    assert!(!h.finished(), "a breakpoint answer is still to come");
    let answer = set_breakpoints_response(3, true);
    assert_eq!(h.on_message(AdapterKind::Codelldb, AdapterMessage::Response(answer), &sources()), Step::Read);
    assert!(h.finished());
    assert_eq!(h.outcome.breakpoints.len(), 1);
    assert_eq!(h.outcome.breakpoints[0].id, Some(BreakpointId(1)));
}

#[test]
fn a_stop_on_entry_launch_waits_for_the_entry_stop() {
    let mut h = Handshake::new(true, 1);
    h.configured(Vec::new(), 2);
    let launch = AdapterResponse {
        request_seq: 1,
        success: true,
        command: "launch".to_string(),
        message: None,
        breakpoints: None,
    };
    h.on_message(AdapterKind::Codelldb, AdapterMessage::Response(launch), &sources());
    assert!(!h.finished());
    let stop = event(
        "stopped",
        Some(EventBody {
            reason: Some("exception".to_string()),
            description: Some("signal SIGSTOP".to_string()),
            thread_id: Some(1),
            ..body()
        }),
    );
    h.on_message(AdapterKind::Codelldb, AdapterMessage::Event(stop), &sources());
    assert!(h.finished());
    assert_eq!(h.outcome.state, SessionState::Paused);
    assert_eq!(h.outcome.reason, Some(PauseReason::Entry));
    assert_eq!(h.outcome.raw_reason.as_deref(), Some("exception"));
}

#[test]
fn a_rejected_request_keeps_the_adapter_s_own_words() {
    let mut h = Handshake::new(false, 1);
    let refused = AdapterResponse {
        request_seq: 1,
        success: false,
        command: "launch".to_string(),
        message: Some("no such file".to_string()),
        breakpoints: None,
    };
    match h.on_message(AdapterKind::Debugpy, AdapterMessage::Response(refused), &sources()) {
        Step::Fail(AdapterError::Rejected { command, message }) => {
            assert_eq!(command, "launch");
            assert_eq!(message, "no such file");
        }
        other => unreachable!("expected a failure, got {other:?}"),
    }
}

#[test]
fn a_source_bound_under_another_spelling_is_checked_and_sent_again() {
    let mut h = Handshake::new(false, 1);
    h.configured(vec![3], 4);
    let answer = AdapterResponse {
        request_seq: 3,
        success: true,
        command: "setBreakpoints".to_string(),
        message: None,
        breakpoints: Some(vec![DapBreakpoint {
            id: Some(1),
            verified: false,
            line: None,
            message: Some(
                "Breakpoint at /private/tmp/demo/hello.c:6 could not be resolved, but a valid \
                 location was found at /tmp/demo/hello.c:6"
                    .to_string(),
            ),
        }]),
    };
    let step = h.on_message(AdapterKind::Codelldb, AdapterMessage::Response(answer), &sources());
    assert_eq!(
        step,
        Step::ConfirmRebind { index: 0, candidate: "/tmp/demo/hello.c".to_string() },
    );
    let step = h.confirm_rebind(true, "/tmp/demo/hello.c".to_string());
    assert_eq!(step, Step::Resend { index: 0, path: "/tmp/demo/hello.c".to_string() });
    h.resent(5, 0);
    assert!(h.outcome.breakpoints.is_empty(), "the held answer is replaced, not joined");
}

#[test]
fn nothing_is_re_sent_when_part_of_the_file_bound() {
    let applied = applied_breakpoints(
        &vec![ours(1, 6), ours(2, 9)],
        Some(vec![
            DapBreakpoint { id: Some(1), verified: true, line: Some(6), message: None },
            DapBreakpoint {
                id: Some(2),
                verified: false,
                line: None,
                message: Some("a valid location was found at /tmp/demo/hello.c:9".to_string()),
            },
        ]),
    );
    assert_eq!(rebind_candidate("/private/tmp/demo/hello.c", &applied), None);
}

#[test]
fn a_session_that_ends_during_its_launch_is_drained_for_its_exit_code() {
    let mut h = Handshake::new(false, 1);
    assert_eq!(
        h.on_message(AdapterKind::Delve, AdapterMessage::Event(event("terminated", None)), &sources()),
        Step::Drain,
    );
    assert!(h.finished());
    let exited = event("exited", Some(EventBody { exit_code: Some(2), ..body() }));
    assert!(h.drained(AdapterMessage::Event(exited)));
    assert_eq!(h.outcome.exit_code, Some(2));
}

#[test]
fn a_reverse_request_is_refused() {
    let mut h = Handshake::new(false, 1);
    assert_eq!(h.on_message(AdapterKind::Debugpy, AdapterMessage::ReverseRequest, &sources()), Step::Refuse);
}

#[test]
fn codelldb_s_debuggee_is_read_from_its_console_line() {
    let mut h = Handshake::new(false, 1);
    let line = event(
        "output",
        Some(EventBody {
            category: Some("console".to_string()),
            output: Some("Launched process 56254 from '/tmp/hello'".to_string()),
            ..body()
        }),
    );
    h.on_message(AdapterKind::Codelldb, AdapterMessage::Event(line), &sources());
    let debuggee = debuggee_of(AdapterKind::Codelldb, &h.outcome).expect("a debuggee");
    assert_eq!(debuggee.pid, 56254);
    assert_eq!(debuggee.program, None);
    assert_eq!(debuggee_of(AdapterKind::Debugpy, &h.outcome), None);
}

#[test]
fn breakpoints_are_sent_before_configuration_is_done() {
    let sources = vec![
        ("/p/a.c".to_string(), vec![ours(1, 6)]),
        ("/p/b.c".to_string(), Vec::new()),
    ];
    let requests = lazydap::handshake::configuration_requests(&sources);
    let commands: Vec<&str> = requests.iter().map(|r| r.command()).collect();
    assert_eq!(commands, vec!["setBreakpoints", "setBreakpoints", "configurationDone"]);
    match &requests[0] {
        lazydap::handshake::ConfigRequest::SetBreakpoints(args) => {
            assert_eq!(args.path, "/p/a.c");
            assert_eq!(args.name.as_deref(), Some("a.c"));
            assert_eq!(args.breakpoints.len(), 1);
            assert_eq!(args.breakpoints[0].line, 6);
        }
        other => unreachable!("got {other:?}"),
    }
    assert_eq!(
        lazydap::handshake::configuration_requests(&Vec::new()),
        vec![lazydap::handshake::ConfigRequest::ConfigurationDone],
    );
}
