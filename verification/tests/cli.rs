use lazydap::cli::{Command, Shell};
use lazydap::commands::LaunchesCommand;

#[test]
fn the_commands_you_reach_for_when_things_go_wrong_do_not_need_the_config() {
    // A typo in config.toml must not take down the tools you use to
    // recover from a debuggee that is still running.
    for command in [
        Command::Status,
        Command::Shutdown { dry_run: false },
        Command::Disconnect { session_id: None, no_terminate: false, dry_run: false },
        Command::Doctor { check_adapters: false, check_state: false },
        Command::Threads,
    ] {
        assert!(!command.needs_config(), "got: {command:?}");
    }
}

#[test]
fn launching_needs_the_config_because_the_adapter_comes_from_it() {
    let launch = Command::Launch {
        program: "./app".to_string(),
        stop_on_entry: false,
        cwd: None,
        env: Vec::new(),
        adapter: None,
        args: Vec::new(),
    };
    assert!(launch.needs_config());

    let run = Command::Launches {
        command: LaunchesCommand::Run { name: "Debug".to_string(), stop_on_entry: false },
    };
    assert!(run.needs_config());

    // Listing does not launch anything, so a broken config costs it
    // nothing it cannot state.
    let list = Command::Launches { command: LaunchesCommand::List };
    assert!(!list.needs_config());
}

#[test]
fn version_and_completions_do_not_need_a_daemon() {
    assert!(Command::Version.is_local());
    assert!(
        Command::Completions { shell: Shell::Bash }.is_local(),
        "a shell profile must not spawn a daemon per terminal",
    );
    assert!(!Command::Status.is_local());
}

#[test]
fn only_the_daemon_command_runs_the_daemon() {
    assert!(Command::Daemon { foreground: true }.is_daemon());
    assert!(!Command::Status.is_daemon());
    assert!(!Command::Tui.is_daemon());
}
