use lazydap::discovery::{pin_for, pinned_outcome};
use lazydap::adapter::AdapterError;
use lazydap::discovery::{
    binaries, pinned_missing, probe_args, usable, Search, DEBUGPY_PROOF,
};
use lazydap::launch_args::{compiled_binary_path, launch_args, LaunchExtras, LaunchRequest};
use lazydap::session::AdapterKind;

fn request(adapter: AdapterKind, program: &str) -> LaunchRequest {
    LaunchRequest {
        adapter,
        program: program.to_string(),
        args: vec!["--fast".to_string()],
        cwd: "/tmp".to_string(),
        env: Vec::new(),
        stop_on_entry: true,
        adapter_command: None,
    }
}

#[test]
fn launch_arguments_keep_the_debuggee_attached_to_the_adapter() {
    let args = launch_args(&request(AdapterKind::Codelldb, "/tmp/hello"), String::new());
    assert_eq!(args.adapter_type, "lldb");
    assert_eq!(args.request, "launch");
    assert!(args.stop_on_entry);
    assert_eq!(args.args, vec!["--fast".to_string()]);
    assert_eq!(args.env, None, "an empty environment must be omitted, not sent as null");
    match args.extras {
        LaunchExtras::Codelldb { terminal, .. } => assert_eq!(terminal, "console"),
        other => unreachable!("got {other:?}"),
    }
}

#[test]
fn launch_arguments_load_the_rust_and_c_type_formatters() {
    let args = launch_args(&request(AdapterKind::Codelldb, "/tmp/hello"), String::new());
    match args.extras {
        LaunchExtras::Codelldb { source_languages, .. } => assert_eq!(
            source_languages,
            vec!["rust".to_string(), "cpp".to_string(), "c".to_string()],
        ),
        other => unreachable!("got {other:?}"),
    }
}

#[test]
fn the_debuggee_stays_attached_and_nothing_asks_for_a_terminal() {
    let args = launch_args(&request(AdapterKind::Debugpy, "/tmp/main.py"), String::new());
    assert_eq!(args.adapter_type, "python");
    assert!(args.stop_on_entry);
    assert_eq!(args.args, vec!["--fast".to_string()]);
    match args.extras {
        LaunchExtras::Debugpy { console, .. } => assert_eq!(console, "internalConsole"),
        other => unreachable!("got {other:?}"),
    }
}

#[test]
fn library_code_is_debuggable_and_subprocesses_are_not_followed() {
    let args = launch_args(&request(AdapterKind::Debugpy, "/tmp/main.py"), String::new());
    match args.extras {
        LaunchExtras::Debugpy { just_my_code, sub_process, .. } => {
            assert!(!just_my_code);
            assert!(!sub_process);
        }
        other => unreachable!("got {other:?}"),
    }
}

#[test]
fn debugpy_an_empty_environment_is_omitted_rather_than_sent_as_null() {
    let args = launch_args(&request(AdapterKind::Debugpy, "/tmp/main.py"), String::new());
    assert_eq!(args.env, None);
}

#[test]
fn a_given_environment_is_sent_as_given() {
    let mut r = request(AdapterKind::Debugpy, "/tmp/main.py");
    r.env = vec![("A".to_string(), "1".to_string())];
    let args = launch_args(&r, String::new());
    assert_eq!(args.env, Some(vec![("A".to_string(), "1".to_string())]));
}

#[test]
fn the_debuggee_s_output_is_asked_for_over_dap_rather_than_left_on_the_adapter_s_stdout() {
    let args = launch_args(&request(AdapterKind::Delve, "/tmp/main.go"), "/tmp/out".to_string());
    assert_eq!(args.adapter_type, "go");
    assert!(args.stop_on_entry);
    assert_eq!(args.args, vec!["--fast".to_string()]);
    match args.extras {
        LaunchExtras::Delve { output_mode, .. } => assert_eq!(output_mode, "remote"),
        other => unreachable!("got {other:?}"),
    }
}

#[test]
fn delve_a_go_source_file_is_compiled_and_a_binary_is_not() {
    match launch_args(&request(AdapterKind::Delve, "/tmp/main.go"), "/tmp/out".to_string()).extras {
        LaunchExtras::Delve { mode, output, .. } => {
            assert_eq!(mode, "debug");
            assert_eq!(output, Some("/tmp/out".to_string()));
        }
        other => unreachable!("got {other:?}"),
    }
    match launch_args(&request(AdapterKind::Delve, "/tmp/hello"), "/tmp/out".to_string()).extras {
        LaunchExtras::Delve { mode, output, .. } => {
            assert_eq!(mode, "exec");
            assert_eq!(output, None, "an `exec` launch compiles nothing, so it has nowhere to put a binary");
        }
        other => unreachable!("got {other:?}"),
    }
}

#[test]
fn delve_an_empty_environment_is_omitted_rather_than_sent_as_null() {
    let args = launch_args(&request(AdapterKind::Delve, "/tmp/main.go"), String::new());
    assert_eq!(args.env, None);
}

#[test]
fn two_launches_do_not_share_a_compiled_binary() {
    let a = compiled_binary_path("/tmp", 90235, 1785499820892284000);
    let b = compiled_binary_path("/tmp", 90235, 1785499820892284001);
    assert_ne!(a, b);
    assert_eq!(a, "/tmp/lazydap-delve-90235-1785499820892284000");
    assert_eq!(compiled_binary_path("/tmp/", 1, 2), "/tmp/lazydap-delve-1-2");
}

#[test]
fn each_adapter_is_looked_for_under_its_own_names() {
    assert_eq!(binaries(AdapterKind::Codelldb), vec!["codelldb".to_string()]);
    assert_eq!(binaries(AdapterKind::Debugpy), vec!["python3".to_string(), "python".to_string()]);
    assert_eq!(binaries(AdapterKind::Delve), vec!["dlv".to_string()]);
}

#[test]
fn a_found_binary_is_asked_whether_it_can_do_the_job() {
    assert_eq!(probe_args(AdapterKind::Codelldb), None);
    assert_eq!(
        probe_args(AdapterKind::Delve),
        Some(vec!["help".to_string(), "dap".to_string()]),
    );
    let debugpy = probe_args(AdapterKind::Debugpy).expect("a probe");
    assert_eq!(debugpy[0], "-c");
    assert!(debugpy[1].contains(DEBUGPY_PROOF));
}

#[test]
fn only_the_real_thing_passes_the_probe() {
    assert!(usable(AdapterKind::Codelldb, "/x/codelldb", None).is_ok());
    assert!(usable(AdapterKind::Debugpy, "/usr/bin/python3", Some((true, "lazydap-debugpy-ok\n"))).is_ok());
    assert!(usable(AdapterKind::Debugpy, "/bin/echo", Some((true, "-c import debugpy"))).is_err());
    assert!(usable(AdapterKind::Debugpy, "/usr/bin/python3", Some((false, "lazydap-debugpy-ok"))).is_err());
    assert!(usable(AdapterKind::Delve, "/go/bin/dlv", Some((true, "Starts a headless TCP server communicating via Debug Adaptor Protocol (DAP).\n dap"))).is_ok());
    assert!(usable(AdapterKind::Delve, "/go/bin/dlv", None).is_err());
}

#[test]
fn a_named_interpreter_that_cannot_import_debugpy_says_so_and_names_it() {
    match usable(AdapterKind::Debugpy, "/p/.venv/bin/python", Some((false, ""))) {
        Err(AdapterError::Incomplete { path, problem, hint, .. }) => {
            assert_eq!(path, "/p/.venv/bin/python");
            assert!(problem.contains("debugpy"), "got: {problem}");
            assert_eq!(hint, "install it with `/p/.venv/bin/python -m pip install debugpy`");
        }
        other => unreachable!("got {other:?}"),
    }

    // An interpreter with no debugpy in it, that exits 0 on purpose: the
    // check must not be satisfied by a command that merely succeeds.
    let error = pinned_outcome(AdapterKind::Debugpy, "/p/.venv/bin/python", true, true, Some((true, "")))
        .expect_err("a stub interpreter cannot import debugpy");
    let ipc = error.into_ipc();
    assert_eq!(ipc.code, lazydap::errors::ErrorCode::AdapterNotFound);
    assert_eq!(
        ipc.details[1],
        ("found".to_string(), lazydap::errors::Detail::Text("/p/.venv/bin/python".to_string())),
    );
    assert!(ipc.message.contains("debugpy"), "the message has to name what is missing: {}", ipc.message);
}

#[test]
fn an_interpreter_that_is_not_there_names_the_launch_configuration() {
    let error = pinned_missing(AdapterKind::Debugpy, "/p/.venv/bin/python", true);
    assert!(error.to_string().contains("the launch configuration"), "got: {}", error.to_string());
    let error = pinned_missing(AdapterKind::Codelldb, "/nowhere/codelldb", false);
    assert!(error.to_string().contains("lazydap's config"), "got: {}", error.to_string());

    let error = pinned_outcome(AdapterKind::Debugpy, "/nowhere/.venv/bin/python", true, false, None)
        .expect_err("that path does not exist");
    assert!(error.to_string().contains("the launch configuration"), "got: {error:?}");
}

#[test]
fn a_missing_adapter_reports_where_it_looked() {
    let mut search = Search::new(AdapterKind::Codelldb, vec!["/usr/bin".to_string(), "/bin".to_string()]);
    assert_eq!(search.candidate(), Some("/usr/bin/codelldb".to_string()));
    search.rejected(None);
    assert_eq!(search.candidate(), Some("/bin/codelldb".to_string()));
    search.rejected(None);
    assert_eq!(search.candidate(), None);
    let failure = search.failure();
    match &failure {
        AdapterError::NotFound { adapter, searched } => {
            assert_eq!(*adapter, AdapterKind::Codelldb);
            assert_eq!(*searched, vec!["/usr/bin".to_string(), "/bin".to_string()]);
        }
        other => unreachable!("got {other:?}"),
    }
    let ipc = failure.into_ipc();
    assert_eq!(ipc.code, lazydap::errors::ErrorCode::AdapterNotFound);
    assert_eq!(
        ipc.details[0],
        ("adapter".to_string(), lazydap::errors::Detail::Text("codelldb".to_string())),
    );
    match &ipc.details[1] {
        (key, lazydap::errors::Detail::Texts(searched)) if key == "searched" => {
            assert_eq!(searched.len(), 2, "got: {:?}", ipc.details)
        }
        other => unreachable!("got {other:?}"),
    }
}

#[test]
fn an_interpreter_without_debugpy_is_reported_rather_than_not_found() {
    let mut search = Search::new(AdapterKind::Debugpy, vec!["/usr/bin".to_string()]);
    assert_eq!(search.candidate(), Some("/usr/bin/python3".to_string()));
    let first = usable(AdapterKind::Debugpy, "/usr/bin/python3", Some((false, ""))).expect_err("no debugpy");
    search.rejected(Some(first.clone()));
    assert_eq!(search.candidate(), Some("/usr/bin/python".to_string()));
    let second = usable(AdapterKind::Debugpy, "/usr/bin/python", Some((false, ""))).expect_err("no debugpy");
    search.rejected(Some(second));
    assert_eq!(search.candidate(), None);
    assert_eq!(search.failure(), first, "the first interpreter found is the one named");
}

#[test]
fn an_interpreter_named_by_a_launch_configuration_wins_over_discovery() {
    // The virtualenv case: the whole reason the configuration names one is
    // that the interpreter on `PATH` is the wrong one.
    assert_eq!(
        pin_for(Some("/p/.venv/bin/python"), Some("/usr/bin/python3")),
        Some(("/p/.venv/bin/python".to_string(), true)),
    );
    let found = pinned_outcome(
        AdapterKind::Debugpy,
        "/p/.venv/bin/python",
        true,
        true,
        Some((true, "lazydap-debugpy-ok\n")),
    );
    assert_eq!(found, Ok("/p/.venv/bin/python".to_string()));
}

#[test]
fn an_adapter_pinned_in_the_config_wins_over_one_on_path() {
    assert_eq!(pin_for(None, Some("/opt/codelldb")), Some(("/opt/codelldb".to_string(), false)));
    assert_eq!(
        pinned_outcome(AdapterKind::Codelldb, "/opt/codelldb", false, true, None),
        Ok("/opt/codelldb".to_string()),
    );
}

#[test]
fn naming_no_interpreter_falls_back_to_discovery() {
    // Without a pin, resolving is exactly discovering: no pin is chosen,
    // and the search along `PATH` gives the answer, the same one `doctor`
    // gets when it asks without a launch configuration.
    assert_eq!(pin_for(None, None), None);
    let mut search = Search::new(AdapterKind::Codelldb, vec!["/nonexistent-a".to_string()]);
    assert_eq!(search.candidate(), Some("/nonexistent-a/codelldb".to_string()));
    search.rejected(None);
    assert_eq!(search.candidate(), None);
    let resolved = search.failure();
    let mut again = Search::new(AdapterKind::Codelldb, vec!["/nonexistent-a".to_string()]);
    again.rejected(None);
    assert_eq!(resolved, again.failure(), "a pin of `None` must change nothing");
}

#[test]
fn a_pinned_adapter_that_is_not_there_is_an_error_rather_than_a_fallback() {
    let error = pinned_outcome(AdapterKind::Codelldb, "/opt/codelldb", false, false, None)
        .expect_err("the pinned path does not exist");
    assert!(
        matches!(error, AdapterError::ConfiguredAdapterMissing { .. }),
        "got: {error:?}",
    );
    let ipc = error.into_ipc();
    assert_eq!(ipc.code, lazydap::errors::ErrorCode::AdapterNotFound);
    assert_eq!(
        ipc.details[1],
        ("configured".to_string(), lazydap::errors::Detail::Text("/opt/codelldb".to_string())),
    );
}


