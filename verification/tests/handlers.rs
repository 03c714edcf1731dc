use lazydap::handlers::{launch_ending, launch_groups};
use lazydap::session::EndReason;
use lazydap::debuggee::{owns, Debuggee, Identity, Reap};
use lazydap::errors::ErrorCode;
use lazydap::handlers::{
    check_session, disconnect_plan, expect, past_tense, refuse_pointless_pause, resolve_thread,
    resolve_timeout, session_finished, terminates_debuggee, variable_limit, Expectation, Movement,
    Need, WaitMode, WaitTimeout, DEFAULT_VARIABLE_CAP,
};
use lazydap::inspect::StepKind;
use lazydap::session::{SessionId, SessionState};
use lazydap::handlers::cap_variables;
use lazydap::handlers::dap_count;
use lazydap::handlers::{moved_on, stopped_thread, top_frame};
use lazydap::errors::{Detail, IpcError};
use lazydap::handlers::recorded_anyway;
use lazydap::commands::BreakpointAction;
use lazydap::handlers::{action_for, AddOutcome};
use lazydap::handlers::flipped;
use lazydap::handlers::announcement;
use lazydap::handlers::enabled_only;
use lazydap::handlers::sources_of;

#[test]
fn saying_nothing_about_a_limit_gets_the_default_cap() {
    assert_eq!(variable_limit(None), DEFAULT_VARIABLE_CAP as usize);
}

#[test]
fn zero_lifts_the_cap_the_way_it_lifts_a_wait_s_timeout() {
    assert_eq!(variable_limit(Some(0)), usize::MAX, "`0` is the documented spelling of `no limit`");
}

#[test]
fn an_explicit_cap_is_used_as_given() {
    assert_eq!(variable_limit(Some(5)), 5);
}

#[test]
fn no_timeout_at_all_is_what_a_caller_asks_for_with_zero() {
    assert_eq!(
        resolve_timeout(WaitMode::Wait { timeout_ms: Some(0) }),
        WaitTimeout::Unbounded,
        "0 is the documented spelling of `wait forever`",
    );
}

#[test]
fn a_wait_that_names_no_timeout_gets_the_daemon_s_default() {
    assert_eq!(resolve_timeout(WaitMode::Wait { timeout_ms: None }), WaitTimeout::Default);
}

#[test]
fn an_explicit_timeout_is_used_as_given() {
    assert_eq!(
        resolve_timeout(WaitMode::Wait { timeout_ms: Some(1_500) }),
        WaitTimeout::Millis(1_500),
    );
}

#[test]
fn a_bare_program_path_is_recognised_as_ours() {
    assert!(owns("/tmp/spins", "/tmp/spins"));
}

#[test]
fn a_program_with_arguments_is_still_ours() {
    assert!(owns("/tmp/spins --loud 3", "/tmp/spins"));
}

#[test]
fn a_different_program_sharing_a_prefix_is_not_ours() {
    assert!(!owns("/tmp/spins-other", "/tmp/spins"));
    assert!(!owns("/usr/bin/vim", "/tmp/spins"));
}

#[test]
fn a_pid_that_is_not_running_is_left_alone() {
    let debuggee = Debuggee { pid: 0, program: "/tmp/nothing-here".to_string() };
    let identity = debuggee.identify(Some(""));
    assert_eq!(identity, Identity::Gone);
    assert_eq!(debuggee.reap_step(&identity), Reap::LeaveAlone);
    assert_eq!(debuggee.identify(None), Identity::Gone, "no `ps` is no reason to kill");
}

#[test]
fn a_pid_that_has_been_reused_is_not_killed() {
    let debuggee =
        Debuggee { pid: 4242, program: "/tmp/definitely-not-this-test-binary".to_string() };
    let identity = debuggee.identify(Some("/usr/bin/cargo test\n"));
    assert_eq!(identity, Identity::SomebodyElse("/usr/bin/cargo test".to_string()));
    assert_eq!(debuggee.reap_step(&identity), Reap::LeaveAlone);
}

#[test]
fn a_live_debuggee_of_ours_is_killed_and_reported() {
    let debuggee = Debuggee { pid: 321, program: "/bin/sleep".to_string() };
    let identity = debuggee.identify(Some("  /bin/sleep 60\n"));
    assert_eq!(identity, Identity::Ours);
    assert_eq!(debuggee.reap_step(&identity), Reap::Kill(321));
    let detail = debuggee.reap_outcome(true);
    assert!(detail.contains("321"), "got: {detail}");
    assert!(detail.contains("killed"), "got: {detail}");
    assert_eq!(
        debuggee.reap_outcome(false),
        "the debuggee (pid 321) was left running and could not be killed",
    );
}

fn id() -> SessionId {
    SessionId::parse("67e55044-10b1-426f-9247-bb680e5fe0c8").expect("an id")
}

#[test]
fn a_session_that_is_not_there_is_not_found() {
    let error = check_session(Need::Found, id(), None).expect_err("refused");
    assert_eq!(error.code, ErrorCode::SessionNotFound);
    assert_eq!(error.message, "no session 67e55044-10b1-426f-9247-bb680e5fe0c8");
}

#[test]
fn a_finished_session_refuses_a_request_that_needs_it_live() {
    let error = check_session(Need::Live, id(), Some(SessionState::Exited)).expect_err("refused");
    assert_eq!(error.code, ErrorCode::BadRequest);
    assert!(error.message.contains("has already exited"), "got: {}", error.message);
    assert!(check_session(Need::Found, id(), Some(SessionState::Exited)).is_ok());
    let gone = session_finished(id(), SessionState::AdapterDied);
    assert!(gone.message.contains("lost its adapter"), "got: {}", gone.message);
    assert_eq!(past_tense(SessionState::Terminated), "already ended");
}

#[test]
fn a_stack_of_a_running_program_is_refused() {
    let error = check_session(Need::Paused, id(), Some(SessionState::Running)).expect_err("refused");
    assert_eq!(error.code, ErrorCode::SessionNotPaused);
    assert!(check_session(Need::Paused, id(), Some(SessionState::Paused)).is_ok());
    assert!(check_session(Need::Live, id(), Some(SessionState::Running)).is_ok());
}

#[test]
fn pausing_a_stopped_program_is_refused() {
    let error =
        refuse_pointless_pause(id(), SessionState::Paused, Movement::Pause).expect_err("refused");
    assert_eq!(error.code, ErrorCode::BadRequest);
    assert!(error.message.contains("nothing to pause"), "got: {}", error.message);
    assert!(refuse_pointless_pause(id(), SessionState::Running, Movement::Pause).is_ok());
    assert!(refuse_pointless_pause(id(), SessionState::Paused, Movement::Continue).is_ok());
}

#[test]
fn a_request_that_names_no_thread_moves_the_one_that_stopped_last() {
    assert_eq!(resolve_thread(Some(3), Some(2), Some(1)).expect("a thread"), 3);
    assert_eq!(resolve_thread(None, Some(2), Some(1)).expect("a thread"), 2);
    assert_eq!(resolve_thread(None, None, Some(1)).expect("a thread"), 1);
    let error = resolve_thread(None, None, None).expect_err("no thread");
    assert_eq!(error.message, "the program has no threads to move");
}

#[test]
fn a_movement_says_what_the_next_stop_is_expected_to_be() {
    assert_eq!(expect(Movement::Continue, 4), Expectation::Nothing);
    assert_eq!(expect(Movement::Step(StepKind::Over), 4), Expectation::Step(4));
    assert_eq!(expect(Movement::Pause, 4), Expectation::Pause);
    assert_eq!(Movement::Step(StepKind::Out).description(), "step out");
}

#[test]
fn a_disconnect_that_keeps_the_program_releases_it_first() {
    let plan = disconnect_plan(false, true, true);
    assert!(!plan.terminating);
    assert!(plan.release_debuggee);
    assert!(plan.wait_for_exit);
    assert!(!plan.terminated_debuggee);
    assert!(plan.send_disconnect);
}

#[test]
fn an_adapter_that_cannot_detach_ends_the_program_whatever_was_asked() {
    assert!(terminates_debuggee(false, false));
    let plan = disconnect_plan(false, false, true);
    assert!(plan.terminating);
    assert!(!plan.release_debuggee);
    assert!(plan.terminated_debuggee);
    let finished = disconnect_plan(true, true, false);
    assert!(!finished.send_disconnect);
    assert!(!finished.terminated_debuggee, "a finished program was not ended by us");
}

#[test]
fn only_the_list_is_shortened() {
    let (kept, truncated) = cap_variables(vec![1, 2, 3], 2);
    assert_eq!(kept, vec![1, 2]);
    assert!(truncated);
    let (kept, truncated) = cap_variables(vec![1, 2], variable_limit(Some(0)));
    assert_eq!(kept, vec![1, 2]);
    assert!(!truncated);
}

#[test]
fn zero_levels_is_no_limit_rather_than_an_empty_stack() {
    assert_eq!(dap_count(Some(0)), None);
    assert_eq!(dap_count(Some(3)), Some(3));
    assert_eq!(dap_count(None), None);
}

#[test]
fn inspecting_needs_a_thread_that_stopped_and_a_frame_to_look_at() {
    assert_eq!(stopped_thread(Some(4)).expect("a thread"), 4);
    assert_eq!(stopped_thread(None).expect_err("none").code, ErrorCode::SessionNotPaused);
    assert_eq!(top_frame(Some(1000)).expect("a frame"), 1000);
    assert_eq!(top_frame(None).expect_err("none").code, ErrorCode::DapProtocolError);
    assert_eq!(moved_on().code, ErrorCode::SessionNotPaused);
}

fn bp(id: u32, source: &str, line: u32, enabled: bool) -> lazydap::breakpoint::Breakpoint {
    lazydap::breakpoint::Breakpoint {
        id: lazydap::breakpoint::BreakpointId(id),
        source: source.to_string(),
        line,
        column: None,
        condition: None,
        hit_condition: None,
        log_message: None,
        enabled,
    }
}

#[test]
fn a_change_the_adapter_refused_is_still_recorded() {
    let changed = vec![bp(3, "/a.c", 3, true), bp(5, "/a.c", 9, false)];
    let error = recorded_anyway(IpcError::new(ErrorCode::AdapterCrashed, "gone".to_string()), &changed);
    assert_eq!(error.code, ErrorCode::AdapterCrashed);
    assert!(error.message.starts_with("gone — "), "{error:?}");
    assert!(error.message.contains("next `lazydap launch`"), "{error:?}");
    assert_eq!(
        error.details,
        vec![
            ("recorded_breakpoint_ids".to_string(), Detail::Numbers(vec![3, 5])),
            ("applied_to_session".to_string(), Detail::Flag(false)),
        ],
    );
}

#[test]
fn a_refusal_names_the_session_and_the_state_it_is_in() {
    let error = check_session(Need::Paused, id(), Some(SessionState::Running)).expect_err("refused");
    assert_eq!(
        error.details,
        vec![
            ("session_id".to_string(), Detail::Text(id().to_string())),
            ("state".to_string(), Detail::Text("running".to_string())),
        ],
    );
    let missing = check_session(Need::Found, id(), None).expect_err("refused");
    assert_eq!(missing.details, vec![("session_id".to_string(), Detail::Text(id().to_string()))]);
}

#[test]
fn an_add_is_reported_as_what_it_did() {
    assert_eq!(action_for(AddOutcome::Created), BreakpointAction::Added);
    assert_eq!(action_for(AddOutcome::Updated), BreakpointAction::Updated);
    assert_eq!(action_for(AddOutcome::Unchanged), BreakpointAction::Unchanged);
}

#[test]
fn a_toggle_preview_shows_the_breakpoints_as_they_would_be() {
    let after = flipped(vec![bp(1, "/a.c", 3, true), bp(2, "/a.c", 5, false)]);
    assert!(!after[0].enabled);
    assert!(after[1].enabled);
    assert_eq!(after[1].line, 5);
}

#[test]
fn every_change_is_announced_without_an_adapter_s_opinion() {
    let told = announcement(&vec![bp(7, "/a.c", 3, true)]);
    assert_eq!(told.len(), 1);
    assert_eq!(told[0].id, Some(lazydap::breakpoint::BreakpointId(7)));
    assert_eq!(told[0].adapter_id, None);
    assert!(!told[0].verified);
    assert_eq!(told[0].line, Some(3));
}

#[test]
fn a_disabled_breakpoint_is_not_sent() {
    let sent = enabled_only(vec![bp(1, "/a.c", 3, true), bp(2, "/a.c", 5, false), bp(3, "/a.c", 9, true)]);
    let ids: Vec<u32> = sent.iter().map(|b| b.id.0).collect();
    assert_eq!(ids, vec![1, 3]);
}

#[test]
fn each_touched_file_has_its_whole_list_sent_once() {
    let files = sources_of(&vec![bp(1, "/b.c", 3, true), bp(2, "/a.c", 5, true), bp(3, "/b.c", 9, true)]);
    assert_eq!(files, vec!["/b.c".to_string(), "/a.c".to_string()]);
}

#[test]
fn a_launch_sends_each_file_s_enabled_breakpoints_once() {
    let all = vec![
        bp(1, "/a.c", 3, true),
        bp(2, "/b.c", 4, false),
        bp(3, "/a.c", 9, false),
        bp(4, "/c.c", 1, true),
        bp(5, "/a.c", 12, true),
    ];
    let groups = launch_groups(&all);
    let names: Vec<&str> = groups.iter().map(|(source, _)| source.as_str()).collect();
    assert_eq!(names.len(), 2, "a file with nothing enabled is left out: {names:?}");
    let a = groups.iter().find(|(source, _)| source == "/a.c").expect("a.c is sent");
    assert_eq!(a.1.iter().map(|b| b.id.0).collect::<Vec<_>>(), vec![1, 5]);
    let c = groups.iter().find(|(source, _)| source == "/c.c").expect("c.c is sent");
    assert_eq!(c.1.iter().map(|b| b.id.0).collect::<Vec<_>>(), vec![4]);
    assert!(launch_groups(&Vec::new()).is_empty());
}

#[test]
fn a_session_that_ended_during_its_launch_is_ended_as_it_said() {
    assert_eq!(launch_ending(SessionState::Paused, None), None);
    assert_eq!(
        launch_ending(SessionState::Exited, Some(3)),
        Some(EndReason::Exited { exit_code: Some(3) }),
    );
    assert_eq!(launch_ending(SessionState::Terminated, None), Some(EndReason::Terminated));
}

#[test]
fn a_movement_that_sent_nothing_reports_no_thread() {
    assert_eq!(lazydap::handlers::continued_thread(true, 0), None);
    assert_eq!(lazydap::handlers::continued_thread(false, 3), Some(3));
}
