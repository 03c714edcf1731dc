use lazydap::report::{ListRow, LAUNCH_COLUMNS};
use lazydap::errors::Detail;
use lazydap::exit;
use lazydap::launch::{LaunchConfig, LaunchConfigSource, LaunchKind};
use lazydap::launches::{
    catalogue_note, find_config, merge, run_options, runnable_cell, unknown_name, STATE_FILE,
};
use lazydap::session::AdapterKind;

fn config(name: &str, source: LaunchConfigSource) -> LaunchConfig {
    LaunchConfig {
        name: name.to_string(),
        adapter: Some(AdapterKind::Codelldb),
        adapter_type: "lldb".to_string(),
        kind: LaunchKind::Launch,
        program: Some("/p/app".to_string()),
        args: Vec::new(),
        cwd: None,
        env: Vec::new(),
        stop_on_entry: false,
        adapter_command: None,
        source,
        unresolved: Vec::new(),
        blocked: None,
    }
}

#[test]
fn both_files_feed_one_list() {
    let catalogue = merge(
        vec![config("from state", LaunchConfigSource::ProjectState)],
        Vec::new(),
        vec![config("from vscode", LaunchConfigSource::VsCodeLaunchJson)],
        Vec::new(),
    );
    let names: Vec<&str> = catalogue.configs.iter().map(|c| c.name.as_str()).collect();
    assert_eq!(names, vec!["from state", "from vscode"]);
    assert!(catalogue.warnings.is_empty(), "got: {:?}", catalogue.warnings);
}

#[test]
fn a_project_with_neither_file_lists_nothing_rather_than_failing() {
    let catalogue = merge(Vec::new(), Vec::new(), Vec::new(), Vec::new());
    assert!(catalogue.configs.is_empty());
    assert!(catalogue.warnings.is_empty());
    let note = catalogue_note(&catalogue).expect("a note");
    assert!(note.contains(STATE_FILE), "got: {note}");
    assert!(note.contains(".vscode/launch.json"), "got: {note}");
}

#[test]
fn a_name_in_both_files_resolves_to_lazydap_s_own_with_a_warning() {
    let mut ours = config("main", LaunchConfigSource::ProjectState);
    ours.program = Some("/p/ours".to_string());
    let mut theirs = config("main", LaunchConfigSource::VsCodeLaunchJson);
    theirs.program = Some("/p/theirs".to_string());

    let catalogue = merge(vec![ours], Vec::new(), vec![theirs], Vec::new());

    assert_eq!(catalogue.configs.len(), 1);
    assert_eq!(catalogue.configs[0].program, Some("/p/ours".to_string()));
    assert!(
        catalogue.warnings[0].contains("main"),
        "silently picking one of two things called the same is how you debug the wrong binary: {:?}",
        catalogue.warnings,
    );
    let note = catalogue_note(&catalogue).expect("a note");
    assert!(note.starts_with("warning: `main` is in both"), "got: {note}");
}

#[test]
fn warnings_from_either_file_come_before_the_clashes() {
    let catalogue = merge(
        vec![config("a", LaunchConfigSource::ProjectState)],
        vec!["own".to_string()],
        vec![config("a", LaunchConfigSource::VsCodeLaunchJson)],
        vec!["imported".to_string()],
    );
    assert_eq!(catalogue.warnings.len(), 3);
    assert_eq!(catalogue.warnings[0], "own");
    assert_eq!(catalogue.warnings[1], "imported");
    assert_eq!(
        catalogue_note(&catalogue).expect("a note").lines().count(),
        3,
        "one line per warning",
    );
}

#[test]
fn an_unknown_name_lists_the_ones_that_exist() {
    let error = unknown_name(
        "typo",
        &vec![
            config("Debug binary", LaunchConfigSource::VsCodeLaunchJson),
            config("Debug tests", LaunchConfigSource::ProjectState),
        ],
    );
    let message = error.to_string();
    assert!(message.contains("Debug binary"), "got: {message}");
    assert!(message.contains("Debug tests"), "got: {message}");
    assert_eq!(error.label, "InvalidLaunchConfig");
    assert_eq!(error.exit_code, exit::GENERAL);
    assert_eq!(
        error.details,
        vec![
            ("name".to_string(), Detail::Text("typo".to_string())),
            (
                "available".to_string(),
                Detail::Texts(vec!["Debug binary".to_string(), "Debug tests".to_string()]),
            ),
        ],
    );
}

#[test]
fn an_unknown_name_in_a_project_with_no_configurations_says_that_instead() {
    let error = unknown_name("anything", &Vec::new());
    assert!(error.to_string().contains("has none"), "got: {error:?}");
}

#[test]
fn the_table_and_the_json_agree_about_whether_a_config_can_run() {
    let unrunnable = LaunchConfig {
        adapter: None,
        adapter_type: "python".to_string(),
        ..config("API", LaunchConfigSource::VsCodeLaunchJson)
    };
    let cell = runnable_cell(&unrunnable);
    assert!(cell.starts_with("no"), "got: {cell}");
    assert!(cell.contains("python"), "got: {cell}");
    assert!(unrunnable.not_runnable().is_some());
    assert_eq!(runnable_cell(&config("ok", LaunchConfigSource::ProjectState)), "yes");
}

#[test]
fn running_a_configuration_starts_what_its_listing_promised() {
    let mut c = config("Debug", LaunchConfigSource::VsCodeLaunchJson);
    c.args = vec!["--fast".to_string()];
    c.env = vec![("RUST_LOG".to_string(), "debug".to_string())];
    let options = run_options(vec![c], "Debug", true, "/p".to_string()).expect("runnable");
    assert_eq!(options.program, "/p/app");
    assert_eq!(options.args, vec!["--fast".to_string()]);
    assert_eq!(options.cwd, Some("/p".to_string()), "the project root when it names none");
    assert_eq!(options.env, vec![("RUST_LOG".to_string(), "debug".to_string())]);
    assert_eq!(options.adapter, AdapterKind::Codelldb);
    assert!(options.stop_on_entry, "the command line adds an entry stop");
}

#[test]
fn a_configuration_that_cannot_run_is_refused_in_the_listing_s_words() {
    let attach = LaunchConfig {
        kind: LaunchKind::Attach,
        ..config("Attach", LaunchConfigSource::VsCodeLaunchJson)
    };
    let error = run_options(vec![attach], "Attach", false, "/p".to_string()).expect_err("refused");
    assert_eq!(error.label, "InvalidLaunchConfig");
    assert!(error.message.contains("cannot run `Attach`: it attaches"), "got: {error:?}");
    assert_eq!(error.details[0], ("name".to_string(), Detail::Text("Attach".to_string())));
    assert_eq!(error.details[1], ("source".to_string(), Detail::Text("launch.json".to_string())));
    assert_eq!(error.details[3], ("unresolved".to_string(), Detail::Texts(Vec::new())));
    let error = run_options(Vec::new(), "Nope", false, "/p".to_string()).expect_err("unknown");
    assert!(error.message.contains("has none"), "got: {error:?}");
}

#[test]
fn a_name_is_found_first_come_first_served() {
    let configs = vec![
        config("a", LaunchConfigSource::ProjectState),
        config("b", LaunchConfigSource::ProjectState),
        config("b", LaunchConfigSource::VsCodeLaunchJson),
    ];
    assert_eq!(find_config(&configs, "b"), Some(1));
    assert_eq!(find_config(&configs, "c"), None);
}

#[test]
fn a_listing_row_carries_the_runnable_answer_run_acts_on() {

    let row = ListRow::of_launch(&config("Debug", LaunchConfigSource::VsCodeLaunchJson));
    assert_eq!(row.id, "Debug");
    assert_eq!(row.cells, vec!["Debug", "launch.json", "lldb", "launch", "/p/app", "yes"]);
    assert_eq!(row.cells.len(), LAUNCH_COLUMNS.len());
    let attach = LaunchConfig {
        kind: LaunchKind::Attach,
        program: None,
        ..config("Attach", LaunchConfigSource::ProjectState)
    };
    let row = ListRow::of_launch(&attach);
    assert_eq!(row.cells[4], "-");
    assert_eq!(row.cells[5], runnable_cell(&attach));
    assert!(row.cells[5].starts_with("no ("), "got: {:?}", row.cells);
}
