use lazydap::launch::{LaunchConfigSource, LaunchKind, NotRunnable};
use lazydap::launch_json::{
    expand, import_configs, split_arguments, strip_file, strip_jsonc, Arguments, EnvPair,
    ExpandContext, Interpreter, LaunchJsonError, VsCodeConfig,
};
use lazydap::session::AdapterKind;

const ROOT: &str = "/p";

fn ctx() -> ExpandContext {
    ExpandContext {
        root: ROOT.to_string(),
        home: Some("/home/someone".to_string()),
        env: vec![("PATH".to_string(), "/usr/bin:/bin".to_string())],
    }
}

fn strip_ok(source: &str) -> String {
    strip_jsonc(source).expect("valid JSONC")
}

fn config(adapter_type: &str, request: &str, name: &str) -> VsCodeConfig {
    VsCodeConfig {
        name: name.to_string(),
        adapter_type: adapter_type.to_string(),
        request: request.to_string(),
        program: None,
        args: Arguments::List(Vec::new()),
        cwd: None,
        env: Vec::new(),
        environment: Vec::new(),
        stop_on_entry: false,
        stop_at_entry: false,
        mode: None,
        python: None,
        python_path: None,
    }
}

fn env_get<'a>(env: &'a [(String, String)], key: &str) -> &'a str {
    env.iter().find(|(k, _)| k == key).map(|(_, v)| v.as_str()).expect("set")
}

// --- The stripper ---

#[test]
fn line_and_block_comments_are_removed() {
    let stripped = strip_ok(
        r#"{
            // the version VS Code writes
            "version": "0.2.0", /* and a block one */
            "configurations": []
        }"#,
    );
    let value: serde_json::Value = serde_json::from_str(&stripped).expect("valid JSON");
    assert_eq!(value["version"], "0.2.0");
}

#[test]
fn a_comment_marker_inside_a_string_is_data() {
    let stripped = strip_ok(r#"{"url": "https://example.com/x", "n": 1}"#);
    let value: serde_json::Value = serde_json::from_str(&stripped).expect("valid JSON");
    assert_eq!(value["url"], "https://example.com/x");
    assert_eq!(value["n"], 1);
}

#[test]
fn a_block_comment_marker_inside_a_string_is_data_too() {
    let stripped = strip_ok(r#"{"glob": "src/*/ *.c", "n": 1}"#);
    let value: serde_json::Value = serde_json::from_str(&stripped).expect("valid JSON");
    assert_eq!(value["glob"], "src/*/ *.c");
}

#[test]
fn an_escaped_quote_does_not_end_the_string() {
    let stripped = strip_ok(r#"{"say": "she said \"// hi\"", "n": 1}"#);
    let value: serde_json::Value = serde_json::from_str(&stripped).expect("valid JSON");
    assert_eq!(value["say"], r#"she said "// hi""#);
}

#[test]
fn a_string_ending_in_an_escaped_backslash_ends_where_it_looks_like_it_does() {
    let stripped = strip_ok(r#"{"path": "C:\\", "n": 1}"#);
    let value: serde_json::Value = serde_json::from_str(&stripped).expect("valid JSON");
    assert_eq!(value["path"], r"C:\");
    assert_eq!(value["n"], 1);
}

#[test]
fn trailing_commas_are_dropped_because_vs_code_accepts_them() {
    let stripped = strip_ok(r#"{"args": ["a", "b",], "n": 1,}"#);
    let value: serde_json::Value = serde_json::from_str(&stripped).expect("valid JSON");
    assert_eq!(value["args"][1], "b");
    assert_eq!(value["n"], 1);
}

#[test]
fn a_trailing_comma_followed_by_a_comment_is_still_trailing() {
    let stripped = strip_ok(
        r#"{"args": [
            "a", // the only one
        ]}"#,
    );
    let value: serde_json::Value = serde_json::from_str(&stripped).expect("valid JSON");
    assert_eq!(value["args"].as_array().map(Vec::len), Some(1));
}

#[test]
fn a_comma_inside_a_string_is_not_a_separator() {
    let stripped = strip_ok(r#"{"sep": ",", "list": [1]}"#);
    let value: serde_json::Value = serde_json::from_str(&stripped).expect("valid JSON");
    assert_eq!(value["sep"], ",");
}

#[test]
fn stripping_keeps_the_line_numbers_a_reader_would_count() {
    let source = "{\n// one\n/* two\nthree */\n\"a\": 1\n}";
    assert_eq!(
        strip_ok(source).matches('\n').count(),
        source.matches('\n').count(),
        "comments must leave their newlines behind",
    );
}

#[test]
fn a_comment_becomes_the_space_it_occupied_rather_than_disappearing() {
    let stripped = strip_ok(r#"{"a": tr/*x*/ue}"#);
    assert!(
        serde_json::from_str::<serde_json::Value>(&stripped).is_err(),
        "got: {stripped}",
    );
    assert!(
        !stripped.contains("true"),
        "the comment must not weld the two halves together: {stripped}",
    );
}

#[test]
fn stripping_keeps_the_columns_a_parse_error_would_point_at() {
    let source = r#"{"a": /* two */ 1}"#;
    let stripped = strip_ok(source);
    assert_eq!(stripped.len(), source.len(), "got: {stripped}");
    assert_eq!(
        serde_json::from_str::<serde_json::Value>(&stripped).expect("valid JSON")["a"],
        1,
    );
}

#[test]
fn an_unclosed_block_comment_is_refused_rather_than_swallowing_the_file() {
    let problem = strip_jsonc(r#"{"a": 1} /* and then nothing"#)
        .expect_err("VS Code will not read this either");
    assert!(problem.contains("never closed"), "got: {problem}");
}

#[test]
fn a_comment_that_only_looks_closed_is_still_unclosed() {
    let problem = strip_jsonc(r#"{"a": 1} /*/"#).expect_err("that is not a closed comment");
    assert!(problem.contains("never closed"), "got: {problem}");
}

#[test]
fn an_unclosed_string_is_refused() {
    let problem = strip_jsonc(r#"{"a": "unterminated}"#).expect_err("that string never ends");
    assert!(problem.contains("never closed"), "got: {problem}");
}

#[test]
fn a_file_ending_in_a_line_comment_is_fine() {
    let stripped = strip_ok("{\"a\": 1} // trailing thought");
    assert_eq!(
        serde_json::from_str::<serde_json::Value>(&stripped).expect("valid JSON")["a"],
        1,
    );
}

#[test]
fn stripping_a_trailing_comma_and_a_comment_gives_exact_text() {
    assert_eq!(strip_ok("[1, /*x*/]"), "[1      ]");
    assert_eq!(strip_ok("[1,\n2]"), "[1,\n2]");
    assert_eq!(strip_ok("{\"a\":1}//c\n"), "{\"a\":1}   \n");
}

#[test]
fn a_malformed_file_names_itself_when_it_is_never_closed() {
    let error = strip_file("/p/.vscode/launch.json", "{\"a\": \"x").expect_err("unclosed");
    assert_eq!(
        error,
        LaunchJsonError::Malformed {
            path: "/p/.vscode/launch.json".to_string(),
            problem: "a \" string is never closed".to_string(),
        }
    );
    assert!(error.to_string().contains("launch.json"), "got: {}", error.to_string());
}

// --- Shell-style argument strings ---

#[test]
fn an_argument_string_splits_on_whitespace() {
    assert_eq!(
        split_arguments("--verbose --level 3").expect("split"),
        vec!["--verbose", "--level", "3"],
    );
}

#[test]
fn quotes_group_words_that_contain_spaces() {
    assert_eq!(
        split_arguments(r#"--path "/tmp/two words" --name 'single quoted'"#).expect("split"),
        vec!["--path", "/tmp/two words", "--name", "single quoted"],
    );
}

#[test]
fn an_empty_quoted_argument_is_still_an_argument() {
    assert_eq!(
        split_arguments(r#"--name "" --last"#).expect("split"),
        vec!["--name", "", "--last"],
    );
}

#[test]
fn a_backslash_escapes_the_next_character_outside_single_quotes() {
    assert_eq!(
        split_arguments(r"a\ b 'c\ d'").expect("split"),
        vec!["a b", r"c\ d"],
    );
}

#[test]
fn nothing_in_an_argument_string_is_expanded_by_a_shell() {
    assert_eq!(
        split_arguments("--home $HOME --sub $(whoami)").expect("split"),
        vec!["--home", "$HOME", "--sub", "$(whoami)"],
    );
}

#[test]
fn an_unterminated_quote_is_an_error_rather_than_a_guess() {
    let problem = split_arguments(r#"--name "never closed"#).expect_err("unterminated");
    assert!(problem.contains("unterminated"), "got: {problem}");
}

#[test]
fn a_trailing_backslash_is_an_error_too() {
    assert_eq!(
        split_arguments("a\\").expect_err("trailing"),
        "it ends in a trailing backslash"
    );
    assert_eq!(
        split_arguments("'open").expect_err("unterminated"),
        "it has an unterminated ' quote"
    );
}

// --- Mapping ---

#[test]
fn a_configuration_whose_arguments_cannot_be_split_is_listed_and_refused() {
    let mut c = config("lldb", "launch", "Quoted");
    c.program = Some("app".to_string());
    c.args = Arguments::Line("--name \"never closed".to_string());
    let mut warnings = Vec::new();
    let config = lazydap::launch_json::map(&c, &ctx(), &mut warnings).expect("listed");

    assert!(config.args.is_empty());
    let reason = config.not_runnable().expect("it cannot run");
    assert!(reason.to_string().contains("unterminated"), "got: {}", reason.to_string());
    assert!(warnings.iter().any(|w| w.contains("Quoted")), "got: {warnings:?}");
}

#[test]
fn an_argument_string_is_accepted_the_way_codelldb_accepts_it() {
    let mut c = config("lldb", "launch", "Line");
    c.program = Some("app".to_string());
    c.args = Arguments::Line("--in ${workspaceFolder}/data --verbose".to_string());
    let mut warnings = Vec::new();
    let config = lazydap::launch_json::map(&c, &ctx(), &mut warnings).expect("listed");

    assert_eq!(config.args, vec!["--in", "/p/data", "--verbose"]);
    assert_eq!(config.not_runnable(), None);
}

#[test]
fn a_real_vs_code_lldb_configuration_becomes_a_launch_config() {
    let mut c = config("lldb", "launch", "Debug binary");
    c.program = Some("${workspaceFolder}/build/hello".to_string());
    c.args = Arguments::List(vec!["--verbose".to_string()]);
    c.cwd = Some("${workspaceFolder}".to_string());
    c.stop_on_entry = true;
    c.env = vec![("RUST_LOG".to_string(), "debug".to_string())];
    let mut warnings = Vec::new();
    let config = lazydap::launch_json::map(&c, &ctx(), &mut warnings).expect("listed");

    assert_eq!(warnings, Vec::<String>::new());
    assert_eq!(config.name, "Debug binary");
    assert_eq!(config.adapter, Some(AdapterKind::Codelldb));
    assert_eq!(config.kind, LaunchKind::Launch);
    assert_eq!(config.program, Some("/p/build/hello".to_string()));
    assert_eq!(config.cwd, Some("/p".to_string()));
    assert_eq!(config.args, vec!["--verbose"]);
    assert_eq!(env_get(&config.env, "RUST_LOG"), "debug");
    assert!(config.stop_on_entry);
    assert_eq!(config.source, LaunchConfigSource::VsCodeLaunchJson);
    assert_eq!(config.not_runnable(), None);
}

#[test]
fn a_cppdbg_configuration_keeps_its_environment_and_its_entry_stop() {
    let mut c = config("cppdbg", "launch", "C++ app");
    c.program = Some("${workspaceFolder}/build/app".to_string());
    c.cwd = Some("${workspaceFolder}".to_string());
    c.stop_at_entry = true;
    c.environment = vec![
        EnvPair {
            name: "LD_LIBRARY_PATH".to_string(),
            value: "${workspaceFolder}/lib".to_string(),
        },
        EnvPair { name: "LOG".to_string(), value: "debug".to_string() },
    ];
    let mut warnings = Vec::new();
    let config = lazydap::launch_json::map(&c, &ctx(), &mut warnings).expect("listed");

    assert_eq!(config.adapter, Some(AdapterKind::Codelldb));
    assert_eq!(env_get(&config.env, "LD_LIBRARY_PATH"), "/p/lib", "and it expands too");
    assert_eq!(env_get(&config.env, "LOG"), "debug");
    assert!(config.stop_on_entry, "stopAtEntry means stopOnEntry");
    assert_eq!(config.not_runnable(), None);
    assert!(
        warnings.iter().any(|w| w.contains("MIMode")),
        "the fields that are still ignored are named: {warnings:?}",
    );
}

#[test]
fn both_environment_spellings_in_one_configuration_are_merged() {
    let mut c = config("cppdbg", "launch", "Both");
    c.program = Some("app".to_string());
    c.environment = vec![EnvPair { name: "FROM_ARRAY".to_string(), value: "1".to_string() }];
    c.env = vec![("FROM_MAP".to_string(), "2".to_string())];
    let mut warnings = Vec::new();
    let config = lazydap::launch_json::map(&c, &ctx(), &mut warnings).expect("listed");
    assert_eq!(env_get(&config.env, "FROM_ARRAY"), "1");
    assert_eq!(env_get(&config.env, "FROM_MAP"), "2");
}

#[test]
fn the_map_spelling_wins_a_collision_with_the_array_spelling() {
    let mut c = config("cppdbg", "launch", "Both");
    c.environment = vec![EnvPair { name: "X".to_string(), value: "array".to_string() }];
    c.env = vec![("X".to_string(), "map".to_string())];
    let mut warnings = Vec::new();
    let config = lazydap::launch_json::map(&c, &ctx(), &mut warnings).expect("listed");
    assert_eq!(config.env, vec![("X".to_string(), "map".to_string())]);
}

#[test]
fn a_configuration_for_another_debugger_is_listed_with_its_own_type() {
    let mut c = config("coreclr", "launch", "API");
    c.program = Some("App.dll".to_string());
    let mut warnings = Vec::new();
    let config = lazydap::launch_json::map(&c, &ctx(), &mut warnings).expect("listed");
    assert_eq!(config.adapter, None);
    assert_eq!(config.adapter_type, "coreclr");
    assert!(config.not_runnable().is_some());
}

#[test]
fn a_go_configuration_runs_under_delve() {
    let mut c = config("go", "launch", "API");
    c.mode = Some("debug".to_string());
    c.program = Some("main.go".to_string());
    let mut warnings = Vec::new();
    let config = lazydap::launch_json::map(&c, &ctx(), &mut warnings).expect("listed");
    assert_eq!(config.adapter, Some(AdapterKind::Delve));
    assert_eq!(config.not_runnable(), None);
}

#[test]
fn a_go_debug_config_naming_a_package_directory_is_runnable() {
    let mut c = config("go", "launch", "server");
    c.mode = Some("debug".to_string());
    c.program = Some("${workspaceFolder}/cmd/server".to_string());
    let mut warnings = Vec::new();
    let config = lazydap::launch_json::map(&c, &ctx(), &mut warnings).expect("listed");
    assert_eq!(config.not_runnable(), None);
}

#[test]
fn a_go_exec_config_naming_a_built_binary_is_runnable() {
    let mut c = config("go", "launch", "run");
    c.mode = Some("exec".to_string());
    c.program = Some("${workspaceFolder}/bin/server".to_string());
    let mut warnings = Vec::new();
    let config = lazydap::launch_json::map(&c, &ctx(), &mut warnings).expect("listed");
    assert_eq!(config.adapter, Some(AdapterKind::Delve));
    assert_eq!(config.not_runnable(), None);
}

#[test]
fn a_go_test_config_is_listed_but_not_runnable() {
    let mut c = config("go", "launch", "unit");
    c.mode = Some("test".to_string());
    c.program = Some("${workspaceFolder}/pkg".to_string());
    let mut warnings = Vec::new();
    let config = lazydap::launch_json::map(&c, &ctx(), &mut warnings).expect("listed");
    assert_eq!(config.adapter, Some(AdapterKind::Delve));
    assert_eq!(config.adapter_type, "go");
    let reason = config.not_runnable().expect("test mode is not runnable");
    assert!(reason.to_string().contains("test"), "got: {}", reason.to_string());
}

#[test]
fn a_go_exec_config_pointing_at_a_go_source_is_not_runnable() {
    let mut c = config("go", "launch", "oops");
    c.mode = Some("exec".to_string());
    c.program = Some("main.go".to_string());
    let mut warnings = Vec::new();
    let config = lazydap::launch_json::map(&c, &ctx(), &mut warnings).expect("listed");
    let reason = config.not_runnable().expect("exec on a .go source is a contradiction");
    assert!(reason.to_string().contains("exec"), "got: {}", reason.to_string());
    assert_eq!(
        reason,
        NotRunnable::DelveMode {
            problem: "it uses delve's `exec` mode, which runs a prebuilt binary, but names a `.go` source"
                .to_string()
        }
    );
}

#[test]
fn a_configuration_that_pins_its_interpreter_keeps_it() {
    let mut c = config("debugpy", "launch", "API");
    c.program = Some("${workspaceFolder}/app.py".to_string());
    c.python = Some(Interpreter::Path("${workspaceFolder}/.venv/bin/python".to_string()));
    let mut warnings = Vec::new();
    let config = lazydap::launch_json::map(&c, &ctx(), &mut warnings).expect("listed");
    assert_eq!(config.adapter_command, Some("/p/.venv/bin/python".to_string()));
}

#[test]
fn the_older_python_path_spelling_is_read_too() {
    let mut c = config("python", "launch", "API");
    c.program = Some("app.py".to_string());
    c.python_path = Some("/usr/local/bin/python3.12".to_string());
    let mut warnings = Vec::new();
    let config = lazydap::launch_json::map(&c, &ctx(), &mut warnings).expect("listed");
    assert_eq!(config.adapter_command, Some("/usr/local/bin/python3.12".to_string()));
}

#[test]
fn an_interpreter_written_as_a_list_gives_up_its_head() {
    let mut c = config("debugpy", "launch", "API");
    c.program = Some("app.py".to_string());
    c.python = Some(Interpreter::Argv(vec![
        "/usr/bin/python3".to_string(),
        "-X".to_string(),
        "faulthandler".to_string(),
    ]));
    let mut warnings = Vec::new();
    let config = lazydap::launch_json::map(&c, &ctx(), &mut warnings).expect("listed");
    assert_eq!(config.adapter_command, Some("/usr/bin/python3".to_string()));
}

#[test]
fn a_configuration_naming_no_interpreter_leaves_it_to_discovery() {
    let mut c = config("debugpy", "launch", "API");
    c.program = Some("app.py".to_string());
    let mut warnings = Vec::new();
    let config = lazydap::launch_json::map(&c, &ctx(), &mut warnings).expect("listed");
    assert_eq!(config.adapter_command, None);
}

#[test]
fn a_python_configuration_is_runnable_under_debugpy() {
    for adapter_type in ["python", "debugpy"] {
        let mut c = config(adapter_type, "launch", "API");
        c.program = Some("${workspaceFolder}/app.py".to_string());
        let mut warnings = Vec::new();
        let config = lazydap::launch_json::map(&c, &ctx(), &mut warnings).expect("listed");
        assert_eq!(config.adapter, Some(AdapterKind::Debugpy));
        assert_eq!(config.adapter_type, adapter_type);
        assert_eq!(config.not_runnable(), None);
    }
}

#[test]
fn an_attach_configuration_survives_the_import() {
    let c = config("lldb", "attach", "PID");
    let mut warnings = Vec::new();
    let config = lazydap::launch_json::map(&c, &ctx(), &mut warnings).expect("listed");
    assert_eq!(config.kind, LaunchKind::Attach);
}

#[test]
fn a_configuration_that_is_neither_launch_nor_attach_is_skipped_with_a_warning() {
    let imported = import_configs(&vec![Ok(config("lldb", "custom", "Odd"))], &ctx());
    assert!(imported.configs.is_empty());
    assert!(imported.warnings[0].contains("Odd"), "got: {:?}", imported.warnings);
    assert_eq!(
        imported.warnings[0],
        "`Odd` asks for request `custom`, which is neither launch nor attach; skipped"
    );
}

#[test]
fn one_unreadable_configuration_does_not_cost_the_others() {
    let mut good = config("lldb", "launch", "Good");
    good.program = Some("app".to_string());
    let imported = import_configs(
        &vec![Err("missing field `name`".to_string()), Ok(good)],
        &ctx(),
    );
    assert_eq!(imported.configs.len(), 1, "the good one survives");
    assert_eq!(imported.configs[0].name, "Good");
    assert_eq!(imported.warnings.len(), 1, "and the bad one is reported");
    assert_eq!(
        imported.warnings[0],
        "configuration 0 could not be read: missing field `name`"
    );
}

#[test]
fn a_variable_nothing_can_expand_is_left_alone_and_reported() {
    let mut c = config("lldb", "launch", "Pick");
    c.program = Some("${command:pickProcess}/app".to_string());
    let mut warnings = Vec::new();
    let config = lazydap::launch_json::map(&c, &ctx(), &mut warnings).expect("listed");
    assert_eq!(config.program, Some("/p/${command:pickProcess}/app".to_string()));
    assert_eq!(config.unresolved, vec!["${command:pickProcess}"]);
    assert!(config.not_runnable().is_some());
    assert!(warnings[0].contains("Pick"), "got: {warnings:?}");
}

#[test]
fn the_workspace_folder_basename_is_the_directory_name() {
    let mut c = config("lldb", "launch", "n");
    c.program = Some("build/${workspaceFolderBasename}".to_string());
    let mut warnings = Vec::new();
    let config = lazydap::launch_json::map(&c, &ctx(), &mut warnings).expect("listed");
    assert_eq!(config.program, Some("/p/build/p".to_string()));
}

#[test]
fn an_absolute_program_is_left_absolute() {
    let mut c = config("lldb", "launch", "n");
    c.program = Some("/opt/app".to_string());
    let mut warnings = Vec::new();
    let config = lazydap::launch_json::map(&c, &ctx(), &mut warnings).expect("listed");
    assert_eq!(config.program, Some("/opt/app".to_string()));
}

#[test]
fn a_file_with_no_configurations_imports_as_nothing() {
    let imported = import_configs(&Vec::new(), &ctx());
    assert!(imported.configs.is_empty());
    assert!(imported.warnings.is_empty());
}

// --- Variables ---

#[test]
fn an_environment_variable_that_is_set_is_expanded() {
    let mut unresolved = Vec::new();
    let expanded = expand("/opt/${env:PATH}/bin", &ctx(), &mut unresolved);
    assert_eq!(expanded, "/opt//usr/bin:/bin/bin");
    assert!(unresolved.is_empty());
}

#[test]
fn an_environment_variable_that_is_not_set_is_unresolved_rather_than_empty() {
    let mut unresolved = Vec::new();
    let expanded = expand("${env:LAZYDAP_NO_SUCH_VARIABLE}/app", &ctx(), &mut unresolved);
    assert_eq!(
        expanded, "${env:LAZYDAP_NO_SUCH_VARIABLE}/app",
        "VS Code substitutes the empty string here, which turns this into `/app`",
    );
    assert_eq!(unresolved, vec!["${env:LAZYDAP_NO_SUCH_VARIABLE}"]);
}

#[test]
fn a_string_with_a_lone_dollar_brace_is_not_mangled() {
    let mut unresolved = Vec::new();
    assert_eq!(expand("cost ${100", &ctx(), &mut unresolved), "cost ${100");
    assert!(unresolved.is_empty());
}

#[test]
fn an_unterminated_variable_is_recorded_rather_than_passed_off_as_runnable() {
    let mut unresolved = Vec::new();
    assert_eq!(
        expand("${workspaceFolder/app", &ctx(), &mut unresolved),
        "${workspaceFolder/app",
        "the text is still left exactly as written",
    );
    assert_eq!(unresolved, vec!["${workspaceFolder/app"]);
}

#[test]
fn a_variable_used_twice_is_recorded_once() {
    let mut unresolved = Vec::new();
    assert_eq!(
        expand("${input:a}/${input:a}/${userHome}/${pathSeparator}", &ctx(), &mut unresolved),
        "${input:a}/${input:a}//home/someone//"
    );
    assert_eq!(unresolved, vec!["${input:a}"]);
}

#[test]
fn a_home_directory_that_is_not_known_is_unresolved() {
    let context = ExpandContext { root: ROOT.to_string(), home: None, env: Vec::new() };
    let mut unresolved = Vec::new();
    assert_eq!(expand("${userHome}/x", &context, &mut unresolved), "${userHome}/x");
    assert_eq!(unresolved, vec!["${userHome}"]);
}

#[test]
fn a_malformed_file_names_itself() {
    let stripped = strip_file("/p/.vscode/launch.json", "{ not json at all").expect("nothing to strip");
    let parsed: Result<serde_json::Value, serde_json::Error> = serde_json::from_str(&stripped);
    let error = LaunchJsonError::Parse {
        path: "/p/.vscode/launch.json".to_string(),
        message: parsed.expect_err("that is not JSON").to_string(),
    };
    assert!(error.to_string().contains("launch.json"), "got: {}", error.to_string());
}

#[test]
fn text_with_no_variable_in_it_comes_out_as_it_went_in() {
    let mut unresolved = vec!["${input:earlier}".to_string()];
    assert_eq!(expand("/opt/app $HOME {x}", &ctx(), &mut unresolved), "/opt/app $HOME {x}");
    assert_eq!(unresolved, vec!["${input:earlier}".to_string()], "and records nothing new");
}

#[test]
fn an_environment_is_kept_in_name_order_as_a_map_keeps_it() {
    let env = lazydap::errors::parse_env(&[
        "ZED=1".to_string(),
        "ALPHA=2".to_string(),
        "MID=3".to_string(),
        "ALPHA=4".to_string(),
        "AL=5".to_string(),
    ])
    .expect("pairs");
    assert_eq!(
        env,
        vec![
            ("AL".to_string(), "5".to_string()),
            ("ALPHA".to_string(), "4".to_string()),
            ("MID".to_string(), "3".to_string()),
            ("ZED".to_string(), "1".to_string()),
        ],
    );
    assert!(lazydap::launch_json::text_less_exec("B", "a"));
    assert!(!lazydap::launch_json::text_less_exec("a", "a"));
}

#[test]
fn stripping_stripped_text_changes_nothing() {
    for source in [
        "{ // a comment\n  \"a\": [1, 2, /* two */ ], \"b\": \"x // y\", }",
        "[\"/*\", \"\\\"\", 1 /2]",
        "{}",
    ] {
        let once = lazydap::launch_json::strip_jsonc(source).expect("closed");
        assert_eq!(lazydap::launch_json::strip_jsonc(&once), Ok(once.clone()), "from {source:?}");
    }
    // Two commas before a bracket: only the one next to it goes, and the
    // other trails in its turn.
    let once = lazydap::launch_json::strip_jsonc("[1,,]").expect("closed");
    assert_eq!(once, "[1,]");
    assert_eq!(lazydap::launch_json::strip_jsonc(&once), Ok("[1]".to_string()));
}

#[test]
fn plain_words_split_back_into_themselves() {
    let words = vec!["$HOME".to_string(), "$(whoami)".to_string(), "--flag=1".to_string()];
    assert_eq!(split_arguments(&words.join(" ")), Ok(words));
}
