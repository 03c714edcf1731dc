use lazydap::commands::source_not_found;
use lazydap::breakpoint::BreakpointId;
use lazydap::commands::{
    breakpoint_note, client_timeout, join_ids, parse_seconds, parse_session_id, resolve_break,
    selector, wait_mode, watch_note, watch_selector, BreakArgs, BreakMode, BreakpointAction,
    BreakpointReport, WaitArgs, WatchAction, WatchReport, DEFAULT_TIMEOUT_SECONDS, TIMEOUT_ENV,
};
use lazydap::config::Config;
use lazydap::errors::{classify, parse_env, CliError, ErrorCode, IpcError};
use lazydap::exit;
use lazydap::handlers::WaitMode;
use lazydap::paths::PathsError;
use lazydap::selector::BreakpointSelector;
use lazydap::watch::{Watch, WatchId, WatchSelector};
use lazydap::commands::{shutdown_preview, shutdown_step, shutting_down, DaemonContact, ShutdownStep};
use lazydap::commands::disconnect_summary;

fn args() -> BreakArgs {
    BreakArgs {
        location: None,
        list: false,
        remove: false,
        toggle: false,
        ids: Vec::new(),
        all: false,
        condition: None,
        hit_condition: None,
        log_message: None,
        disabled: false,
        dry_run: false,
    }
}

fn usage_error(args: BreakArgs) -> CliError {
    match resolve_break(&args) {
        Err(error) => error,
        Ok(_) => unreachable!("that combination should not have resolved"),
    }
}

fn mode(wait: bool, timeout: Option<u64>) -> WaitMode {
    wait_mode(&WaitArgs { wait, timeout }, None, &Config::default())
}

fn with_config(seconds: u64) -> Config {
    Config::new(Some(seconds), Vec::new())
}

#[test]
fn without_the_flag_nothing_waits() {
    assert_eq!(mode(false, None), WaitMode::NoWait);
}

#[test]
fn a_timeout_is_given_in_seconds_and_sent_in_milliseconds() {
    assert_eq!(mode(true, Some(5)), WaitMode::Wait { timeout_ms: Some(5_000) });
}

#[test]
fn zero_seconds_is_the_documented_spelling_of_waiting_forever() {
    assert_eq!(mode(true, Some(0)), WaitMode::Wait { timeout_ms: Some(0) });
}

#[test]
fn an_absurd_timeout_saturates_rather_than_wrapping_round_to_a_short_one() {
    let saturated = mode(true, Some(u64::MAX));
    assert_eq!(
        saturated,
        WaitMode::Wait { timeout_ms: Some(u32::MAX) },
        "wrapping would turn `wait a very long time` into `wait no time at all`",
    );
}

#[test]
fn the_client_outlasts_the_wait_it_asked_the_daemon_for() {
    let wait = WaitMode::Wait { timeout_ms: Some(30_000) };
    assert!(client_timeout(wait) > Some(30_000), "got: {:?}", client_timeout(wait));
    assert_eq!(client_timeout(wait), Some(45_000));
}

#[test]
fn a_wait_with_no_timeout_does_not_get_one_from_the_client_either() {
    let wait = WaitMode::Wait { timeout_ms: Some(0) };
    assert_eq!(client_timeout(wait), None);
}

#[test]
fn a_request_that_does_not_wait_gets_a_minute() {
    assert_eq!(client_timeout(WaitMode::NoWait), Some(60_000));
}

#[test]
fn the_config_file_sets_the_default_timeout_when_nothing_more_specific_does() {
    assert_eq!(
        wait_mode(&WaitArgs { wait: true, timeout: None }, None, &with_config(90)),
        WaitMode::Wait { timeout_ms: Some(90_000) },
    );
    assert_eq!(
        wait_mode(&WaitArgs { wait: true, timeout: Some(5) }, None, &with_config(90)),
        WaitMode::Wait { timeout_ms: Some(5_000) },
        "the flag on this invocation is more specific than a file written once",
    );
}

#[test]
fn the_environment_outranks_the_config_file_and_loses_to_the_flag() {
    assert_eq!(
        wait_mode(&WaitArgs { wait: true, timeout: None }, Some(" 7 "), &with_config(90)),
        WaitMode::Wait { timeout_ms: Some(7_000) },
    );
    assert_eq!(
        wait_mode(&WaitArgs { wait: true, timeout: Some(2) }, Some("7"), &with_config(90)),
        WaitMode::Wait { timeout_ms: Some(2_000) },
    );
    assert_eq!(
        wait_mode(&WaitArgs { wait: true, timeout: None }, Some("soon"), &with_config(90)),
        WaitMode::Wait { timeout_ms: Some(90_000) },
        "an unreadable environment value is passed over",
    );
}

#[test]
fn with_nothing_said_anywhere_the_wait_is_thirty_seconds() {
    assert_eq!(DEFAULT_TIMEOUT_SECONDS, 30);
    assert_eq!(TIMEOUT_ENV, "LAZYDAP_TIMEOUT");
    assert_eq!(wait_mode(&WaitArgs { wait: true, timeout: None }, None, &Config::default()), WaitMode::Wait { timeout_ms: Some(30_000) });
}

#[test]
fn seconds_are_read_the_way_a_number_is_typed() {
    assert_eq!(parse_seconds("15"), Some(15));
    assert_eq!(parse_seconds(" +3 "), Some(3));
    assert_eq!(parse_seconds("18446744073709551615"), Some(u64::MAX));
    assert_eq!(parse_seconds("18446744073709551616"), None);
    assert_eq!(parse_seconds("-1"), None);
    assert_eq!(parse_seconds(""), None);
}

#[test]
fn a_malformed_session_id_is_a_usage_error_not_a_debugger_failure() {
    let error = match parse_session_id("not-a-uuid") {
        Err(error) => error,
        Ok(id) => unreachable!("that is not an id, got: {id:?}"),
    };
    assert_eq!(
        error.exit_code,
        exit::USAGE,
        "exit 1 would have a script retrying a command that can never work",
    );
    assert_eq!(error.label, "UsageError", "got: {error:?}");
    assert!(error.message.starts_with("`not-a-uuid` is not a session id: "), "{error:?}");
}

#[test]
fn a_well_formed_session_id_is_read() {
    let id = parse_session_id("67e55044-10b1-426f-9247-bb680e5fe0c8").expect("an id");
    assert_eq!(id.to_string(), "67e55044-10b1-426f-9247-bb680e5fe0c8");
}

#[test]
fn an_environment_pair_without_a_value_is_a_usage_error_not_a_guess() {
    let error = match parse_env(&["DEBUG".to_string()]) {
        Err(error) => error,
        Ok(env) => unreachable!("that is not a pair, got: {env:?}"),
    };
    assert_eq!(error.exit_code, exit::USAGE, "got: {error:?}");
    assert_eq!(error.message, "`--env DEBUG` is not a KEY=VALUE pair");
}

#[test]
fn an_environment_value_may_itself_contain_an_equals_sign() {
    let env = parse_env(&["ARGS=--flag=value".to_string()]).expect("parse");
    assert_eq!(env, vec![("ARGS".to_string(), "--flag=value".to_string())]);
}

#[test]
fn a_later_environment_pair_for_the_same_name_wins() {
    let env = parse_env(&["A=1".to_string(), "B=2".to_string(), "A=3".to_string()]).expect("parse");
    let a: Vec<&(String, String)> = env.iter().filter(|(k, _)| k == "A").collect();
    assert_eq!(a.len(), 1);
    assert_eq!(a[0].1, "3");
    assert_eq!(env.len(), 2);
}

#[test]
fn breakpoint_ids_are_joined_the_way_a_person_reads_a_list() {
    assert_eq!(join_ids(&vec![BreakpointId(1), BreakpointId(4)]), "1, 4");
    assert_eq!(join_ids(&Vec::new()), "");
}

#[test]
fn listing_needs_nothing_else() {
    let mode = resolve_break(&BreakArgs { list: true, ..args() }).expect("resolve");
    assert!(matches!(mode, BreakMode::List));
}

#[test]
fn removing_by_id_does_not_need_a_file_to_exist() {
    let mode = resolve_break(&BreakArgs { remove: true, ids: vec![3, 4], ..args() }).expect("resolve");
    match mode {
        BreakMode::Remove(BreakpointSelector::Ids(ids)) => {
            assert_eq!(ids, vec![BreakpointId(3), BreakpointId(4)]);
        }
        _ => unreachable!("expected an id selection"),
    }
}

#[test]
fn breakpoints_removing_everything_and_removing_one_thing_cannot_be_asked_for_together() {
    let error = usage_error(BreakArgs { remove: true, all: true, ids: vec![3], ..args() });
    assert_eq!(
        error.exit_code,
        exit::USAGE,
        "picking one quietly is how a project loses every breakpoint",
    );
}

#[test]
fn removing_without_saying_what_is_refused() {
    let error = usage_error(BreakArgs { remove: true, ..args() });
    assert!(error.to_string().contains("--all"), "got: {error:?}");
}

#[test]
fn a_bare_break_suggests_the_two_things_it_could_have_meant() {
    let error = usage_error(args());
    assert!(error.to_string().contains("file:line"), "got: {error:?}");
    assert!(error.to_string().contains("--list"), "got: {error:?}");
}

#[test]
fn a_location_without_a_line_number_is_a_usage_error() {
    let error = usage_error(BreakArgs { location: Some("main.c".to_string()), ..args() });
    assert_eq!(error.exit_code, exit::USAGE, "got: {error:?}");
}

#[test]
fn a_disabled_breakpoint_is_still_recorded() {
    let mode = resolve_break(&BreakArgs {
        location: Some("/tmp/lazydap-bp.c:1".to_string()),
        disabled: true,
        ..args()
    })
    .expect("resolve");
    match mode {
        BreakMode::Add { location, enabled, .. } => {
            assert!(!enabled);
            assert_eq!(location.line, 1);
            assert_eq!(location.source, "/tmp/lazydap-bp.c");
        }
        _ => unreachable!("expected an add"),
    }
}

#[test]
fn toggling_by_location_selects_that_line() {
    let mode = resolve_break(&BreakArgs {
        toggle: true,
        location: Some("src/main.c:12".to_string()),
        ..args()
    })
    .expect("resolve");
    match mode {
        BreakMode::Toggle(BreakpointSelector::Location { source, line }) => {
            assert_eq!(source, "src/main.c");
            assert_eq!(line, 12);
        }
        _ => unreachable!("expected a location selection"),
    }
    let all = selector(&BreakArgs { remove: true, all: true, ..args() }).expect("select");
    assert_eq!(all, BreakpointSelector::All);
}

#[test]
fn breakpoints_a_dry_run_report_says_what_it_would_have_done() {
    let report = BreakpointReport {
        action: BreakpointAction::Removed,
        dry_run: true,
        breakpoints: Vec::new(),
        not_found: Vec::new(),
        applied_to_session: false,
    };
    let note = breakpoint_note(&report).expect("a note");
    assert!(note.contains("would remove"), "got: {note}");
    assert!(note.contains("nothing changed"), "got: {note}");
}

#[test]
fn a_breakpoint_set_with_no_session_says_when_it_will_take_effect() {
    let report = BreakpointReport {
        action: BreakpointAction::Added,
        dry_run: false,
        breakpoints: Vec::new(),
        not_found: Vec::new(),
        applied_to_session: false,
    };
    let note = breakpoint_note(&report).expect("a note");
    assert!(note.contains("next `lazydap launch`"), "got: {note}");
}

#[test]
fn a_stale_id_is_named_rather_than_silently_matching_nothing() {
    let report = BreakpointReport {
        action: BreakpointAction::Removed,
        dry_run: false,
        breakpoints: Vec::new(),
        not_found: vec![BreakpointId(7)],
        applied_to_session: true,
    };
    let note = breakpoint_note(&report).expect("a note");
    assert!(note.contains("id 7"), "got: {note}");
    assert_eq!(note, "no breakpoint with id 7");
}

#[test]
fn a_plain_breakpoint_listing_has_no_note() {
    let report = BreakpointReport {
        action: BreakpointAction::Listed,
        dry_run: false,
        breakpoints: Vec::new(),
        not_found: Vec::new(),
        applied_to_session: false,
    };
    assert_eq!(breakpoint_note(&report), None);
}

#[test]
fn several_notes_are_one_per_line() {
    let report = BreakpointReport {
        action: BreakpointAction::Toggled,
        dry_run: true,
        breakpoints: Vec::new(),
        not_found: vec![BreakpointId(2), BreakpointId(5)],
        applied_to_session: false,
    };
    assert_eq!(
        breakpoint_note(&report).expect("a note"),
        "dry run: would toggle 0 breakpoint(s), nothing changed\nno breakpoint with id 2, 5",
    );
}

fn watch(id: u32, expression: &str) -> Watch {
    Watch { id: WatchId(id), expression: expression.to_string(), label: None }
}

#[test]
fn an_expression_selects_the_watch_somebody_can_see() {
    let selected = watch_selector(Some("counter".to_string()), Vec::new(), false).expect("select");
    assert_eq!(selected, WatchSelector::Expression("counter".to_string()));
}

#[test]
fn ids_select_what_a_previous_ids_format_run_printed() {
    let selected = watch_selector(None, vec![1, 3], false).expect("select");
    assert_eq!(
        selected,
        WatchSelector::Ids(vec![WatchId(1), WatchId(3)]),
        "so `lazydap watch list --format ids | xargs ...` composes",
    );
}

#[test]
fn watch_removing_everything_and_removing_one_thing_cannot_be_asked_for_together() {
    let error = watch_selector(Some("x".to_string()), Vec::new(), true).expect_err("ambiguous");
    assert!(error.to_string().contains("once"), "got: {error:?}");

    let error = watch_selector(None, vec![1], true).expect_err("ambiguous");
    assert!(error.to_string().contains("once"), "got: {error:?}");
}

#[test]
fn a_removal_that_selects_nothing_is_a_usage_error_rather_than_a_silent_no_op() {
    let error = watch_selector(None, Vec::new(), false).expect_err("nothing selected");
    assert!(error.to_string().contains("nothing selected"), "got: {error:?}");
    assert_eq!(error.exit_code, exit::USAGE);
}

#[test]
fn watch_a_dry_run_report_says_what_it_would_have_done() {
    let note = watch_note(&WatchReport {
        action: WatchAction::Removed,
        dry_run: true,
        watches: vec![watch(1, "counter")],
        not_found: Vec::new(),
    })
    .expect("a note");

    assert!(note.contains("would remove 1 watch"), "got: {note}");
    assert!(note.contains("nothing changed"), "got: {note}");
}

#[test]
fn an_id_that_matched_nothing_is_named_so_a_piped_id_can_be_seen_to_be_stale() {
    let note = watch_note(&WatchReport {
        action: WatchAction::Removed,
        dry_run: false,
        watches: Vec::new(),
        not_found: vec![WatchId(9)],
    })
    .expect("a note");

    assert!(note.contains("no watch with id 9"), "got: {note}");
}

#[test]
fn a_plain_list_says_nothing_extra() {
    assert_eq!(
        watch_note(&WatchReport {
            action: WatchAction::Listed,
            dry_run: false,
            watches: vec![watch(1, "counter")],
            not_found: Vec::new(),
        }),
        None,
        "a list has nothing to add that the table does not say",
    );
}

#[test]
fn a_new_watch_says_when_it_is_evaluated() {
    let note = watch_note(&WatchReport {
        action: WatchAction::Added,
        dry_run: false,
        watches: vec![watch(1, "counter")],
        not_found: Vec::new(),
    })
    .expect("a note");
    assert_eq!(note, "evaluated at every stop; `lazydap eval` reads it now");
}

#[test]
fn an_unreachable_daemon_exits_three_rather_than_blaming_the_daemon() {
    let error = CliError::unreachable("no socket at /tmp/x.sock".to_string());
    assert_eq!(error.exit_code, exit::DAEMON_UNREACHABLE);
    assert_eq!(error.label, "DaemonUnreachable");
}

#[test]
fn a_daemon_from_another_build_exits_three_so_a_script_can_tell_it_apart() {
    let error =
        CliError::from_ipc(IpcError::new(ErrorCode::VersionMismatch, "v1 client, v2 daemon".to_string()));
    assert_eq!(error.exit_code, exit::DAEMON_UNREACHABLE);
    assert_eq!(error.label, "VersionMismatch");
}

#[test]
fn a_usage_error_names_the_mistake_once() {
    let error = CliError::usage("`--env FOO` is not a KEY=VALUE pair".to_string());
    assert_eq!(error.label, "UsageError");
    assert_eq!(error.message, "`--env FOO` is not a KEY=VALUE pair");
    assert_eq!(error.exit_code, exit::USAGE);
}

#[test]
fn a_directory_lazydap_cannot_use_is_an_unreachable_daemon_not_a_bad_project() {
    let error = CliError::from_paths(&PathsError::SocketPathTooLong {
        len: 120,
        path: "/very/long/socket.sock".to_string(),
    });
    assert_eq!(error.exit_code, exit::DAEMON_UNREACHABLE);
    assert_eq!(error.label, "DaemonUnreachable");
    assert_eq!(
        error.message,
        "socket path is 120 bytes, over the 100-byte limit: /very/long/socket.sock",
    );
}

#[test]
fn an_unclassified_failure_is_a_general_error() {
    let error = CliError::general("something came loose".to_string());
    assert_eq!(error.exit_code, exit::GENERAL);
    assert_eq!(error.label, "DaemonInternalError");
}

#[test]
fn every_other_code_is_a_general_failure() {
    for code in [
        ErrorCode::AdapterCrashed,
        ErrorCode::AdapterTimeout,
        ErrorCode::SessionNotFound,
        ErrorCode::SessionAlreadyActive,
        ErrorCode::SessionNotPaused,
        ErrorCode::StaleHandle,
        ErrorCode::InvalidLaunchConfig,
        ErrorCode::InvalidProjectRoot,
        ErrorCode::DapProtocolError,
        ErrorCode::DaemonInternalError,
        ErrorCode::Unsupported,
        ErrorCode::Timeout,
        ErrorCode::Cancelled,
        ErrorCode::BadRequest,
    ] {
        assert_eq!(classify(code).1, exit::GENERAL, "{code:?}");
        assert_eq!(classify(code).0, format!("{code:?}"));
    }
    assert_eq!(IpcError::new(ErrorCode::Timeout, "slow".to_string()).to_string(), "Timeout: slow");
}

#[test]
fn the_paths_errors_read_as_sentences() {
    assert_eq!(
        PathsError::RuntimeDirNotOurs { path: "/run/x".to_string(), owner: 0, expected: 501 }
            .to_string(),
        "directory /run/x is owned by uid 0, not by uid 501",
    );
    assert_eq!(PathsError::Io("denied".to_string()).to_string(), "io: denied");
    assert_eq!(
        PathsError::UnsafeDirectory { path: "/d".to_string(), reason: "a symlink".to_string() }
            .to_string(),
        "refusing to use /d: a symlink",
    );
}

#[test]
fn a_daemon_of_another_build_is_named_by_both_versions() {
    let error = lazydap::errors::version_mismatch(2, 1);
    assert_eq!(error.exit_code, exit::DAEMON_UNREACHABLE);
    assert_eq!(error.label, "VersionMismatch");
    assert_eq!(
        error.message,
        "VersionMismatch: this lazydap speaks protocol v2, the running daemon speaks v1",
    );
}

#[test]
fn a_frame_this_build_cannot_read_says_what_to_do() {
    let error = lazydap::errors::classify_read_error(true, "unexpected end of file", 7);
    assert_eq!(error.exit_code, exit::DAEMON_UNREACHABLE);
    assert!(error.message.contains("awaiting response 7"), "{error:?}");
    assert!(error.message.ends_with("Run `lazydap shutdown` and try again."), "{error:?}");
    let other = lazydap::errors::classify_read_error(false, "broken pipe", 7);
    assert_eq!(other.exit_code, exit::GENERAL);
    assert_eq!(other.message, "broken pipe");
}

#[test]
fn shutdown_never_starts_a_daemon_to_stop_it() {
    assert_eq!(shutdown_step(DaemonContact::Reached, true, "x"), ShutdownStep::Preview);
    assert_eq!(shutdown_step(DaemonContact::Reached, false, "x"), ShutdownStep::Stop);
    assert_eq!(
        shutdown_step(DaemonContact::Unreachable, false, "x"),
        ShutdownStep::Say("no daemon was running".to_string()),
    );
    assert_eq!(
        shutdown_step(DaemonContact::OtherBuild, false, "x"),
        ShutdownStep::StopOtherBuild("daemon x (another build) shutting down".to_string()),
    );
    assert_eq!(
        shutdown_step(DaemonContact::OtherBuild, true, "x"),
        ShutdownStep::Say("daemon x (another build) would be stopped".to_string()),
    );
    assert_eq!(shutdown_preview("x", 42, 1), "would stop daemon x (pid 42) and 1 session(s)");
    assert_eq!(shutting_down("x"), "daemon x shutting down");
}

#[test]
fn a_dry_run_disconnect_says_whether_the_debuggee_would_die() {
    assert_eq!(disconnect_summary("abc", true, true), "would disconnect abc, killing the debuggee");
    assert_eq!(disconnect_summary("abc", true, false), "would disconnect abc");
    assert_eq!(disconnect_summary("abc", false, true), "disconnected abc");
}

#[test]
fn a_missing_source_is_refused_with_the_path_quoted() {
    let error = source_not_found("/nowhere/at/all/main.c", "No such file or directory (os error 2)");
    assert!(error.to_string().contains("/nowhere/at/all/main.c"), "got: {error:?}");
    assert_eq!(error.label, "BadRequest");
    assert_eq!(error.exit_code, exit::GENERAL);
    assert_eq!(
        error.details,
        vec![("source".to_string(), lazydap::errors::Detail::Text("/nowhere/at/all/main.c".to_string()))],
    );
}
