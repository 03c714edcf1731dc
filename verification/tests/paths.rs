use lazydap::paths::{
    check_private_dir, fnv1a64, hash_mask, instance_for_root, instance_name, lock_path, log_path,
    pid_path, project_root_below, root_markers, runtime_dir_from, slug_text, socket_path,
    Ancestor, DirStatus, Entry, PathsError, Shape, HASH_HEX_CHARS, MAX_SOCKET_PATH_BYTES,
};

fn entry(name: &str, is_dir: bool) -> Entry {
    Entry { name: name.to_string(), is_dir }
}

fn ancestor(dir: &str, entries: Vec<Entry>) -> Ancestor {
    Ancestor { dir: dir.to_string(), entries }
}

#[test]
fn a_lazydap_directory_wins_over_a_nearer_git_directory() {
    let ancestors = vec![
        ancestor("/t/crates/inner", vec![entry(".git", true)]),
        ancestor("/t/crates", vec![]),
        ancestor("/t", vec![entry(".lazydap", true)]),
        ancestor("/", vec![]),
    ];
    assert_eq!(project_root_below("/t/crates/inner", &ancestors, None), "/t");
}

#[test]
fn a_git_directory_wins_over_a_language_manifest() {
    let ancestors = vec![
        ancestor("/t/crates/inner", vec![entry("Cargo.toml", false)]),
        ancestor("/t/crates", vec![]),
        ancestor("/t", vec![entry(".git", true)]),
    ];
    assert_eq!(project_root_below("/t/crates/inner", &ancestors, None), "/t");
}

#[test]
fn the_nearest_manifest_wins_when_there_is_no_repository() {
    let ancestors = vec![
        ancestor("/t/services/api", vec![entry("pyproject.toml", false)]),
        ancestor("/t/services", vec![]),
        ancestor("/t", vec![entry("package.json", false)]),
    ];
    assert_eq!(project_root_below("/t/services/api", &ancestors, None), "/t/services/api");
}

#[test]
fn an_unmarked_directory_is_its_own_root() {
    let ancestors = vec![
        ancestor("/t/nothing/here", vec![]),
        ancestor("/t/nothing", vec![]),
        ancestor("/t", vec![]),
    ];
    assert_eq!(project_root_below("/t/nothing/here", &ancestors, None), "/t/nothing/here");
}

#[test]
fn a_file_called_lazydap_is_not_a_project_root() {
    let ancestors = vec![
        ancestor("/t/src/inner", vec![]),
        ancestor("/t/src", vec![entry(".lazydap", false)]),
        ancestor("/t", vec![entry(".git", true)]),
    ];
    assert_eq!(project_root_below("/t/src/inner", &ancestors, None), "/t");
}

#[test]
fn a_git_repository_of_dotfiles_does_not_make_home_everyone_s_project() {
    let ancestors = vec![
        ancestor("/t/home/scratch/notes", vec![]),
        ancestor("/t/home/scratch", vec![]),
        ancestor("/t/home", vec![entry(".git", true)]),
        ancestor("/t", vec![]),
    ];
    assert_eq!(
        project_root_below("/t/home/scratch/notes", &ancestors, Some("/t/home")),
        "/t/home/scratch/notes"
    );
}

#[test]
fn home_is_a_project_root_when_it_is_asked_for_by_name() {
    let ancestors = vec![
        ancestor("/t/home/scratch", vec![]),
        ancestor("/t/home", vec![entry(".lazydap", true)]),
        ancestor("/t", vec![]),
    ];
    assert_eq!(project_root_below("/t/home/scratch", &ancestors, Some("/t/home")), "/t/home");
}

#[test]
fn the_walk_never_climbs_above_home() {
    let ancestors = vec![
        ancestor("/t/home/code/thing", vec![]),
        ancestor("/t/home/code", vec![]),
        ancestor("/t/home", vec![]),
        ancestor("/t", vec![entry("Cargo.toml", false)]),
    ];
    assert_eq!(
        project_root_below("/t/home/code/thing", &ancestors, Some("/t/home")),
        "/t/home/code/thing"
    );
    let from_home = vec![ancestor("/t/home", vec![]), ancestor("/t", vec![entry("Cargo.toml", false)])];
    assert_eq!(project_root_below("/t/home", &from_home, Some("/t/home")), "/t/home");
}

#[test]
fn a_marked_project_under_home_is_still_found() {
    let ancestors = vec![
        ancestor("/t/home/code/thing/src/deep", vec![]),
        ancestor("/t/home/code/thing/src", vec![]),
        ancestor("/t/home/code/thing", vec![entry("Cargo.toml", false)]),
        ancestor("/t/home/code", vec![]),
        ancestor("/t/home", vec![]),
    ];
    assert_eq!(
        project_root_below("/t/home/code/thing/src/deep", &ancestors, Some("/t/home")),
        "/t/home/code/thing"
    );
}

#[test]
fn the_markers_come_in_three_tiers() {
    let tiers = root_markers();
    assert_eq!(tiers.len(), 3);
    assert_eq!(tiers[0][0].name, ".lazydap");
    assert_eq!(tiers[0][0].shape, Shape::Directory);
    assert!(tiers[0][0].at_home);
    assert_eq!(tiers[2].iter().map(|m| m.name).collect::<Vec<_>>(), vec!["Cargo.toml", "package.json", "pyproject.toml"]);
}

#[test]
fn instance_names_are_short_readable_and_unique_per_root() {
    let first = instance_for_root("/Users/someone/code/lazydap");
    let second = instance_for_root("/Users/someone/other/lazydap");

    assert!(first.starts_with("lazydap-"), "got: {first}");
    assert_eq!(first.len(), "lazydap-".len() + HASH_HEX_CHARS, "got: {first}");
    assert_ne!(first, second, "same basename, different path: the hash must separate them");
    assert_eq!(first, instance_for_root("/Users/someone/code/lazydap"));
}

#[test]
fn resolving_an_instance_name_twice_is_a_no_op() {
    let once = instance_for_root("/Users/someone/code/a-very-long-project-name");
    let twice = instance_name(Some(&once), None, "/nowhere");
    assert_eq!(once, twice, "got: {once} then {twice}");
}

#[test]
fn awkward_directory_names_still_produce_a_usable_instance() {
    let instance = instance_for_root("/tmp/My Project (v2)!");
    assert!(
        instance.chars().all(|c| c.is_ascii_alphanumeric() || c == '-'),
        "got: {instance}",
    );
    assert!(instance.starts_with("my-project--v2-"), "got: {instance}");
}

#[test]
fn a_blank_explicit_name_falls_through_to_the_environment_then_the_root() {
    assert_eq!(instance_name(Some("  "), Some("Team Box"), "/p"), "team-box");
    assert_eq!(instance_name(None, Some(""), "/x/proj"), instance_for_root("/x/proj"));
    assert_eq!(instance_name(Some("Mine!"), Some("env"), "/p"), "mine");
}

#[test]
fn slugging_is_idempotent_and_never_empty() {
    assert_eq!(slug_text("--Hello, World--"), "hello--world");
    assert_eq!(slug_text(&slug_text("--Hello, World--")), "hello--world");
    assert_eq!(slug_text("!!!"), "project");
    assert_eq!(slug_text(""), "project");
}

#[test]
fn fnv1a_matches_the_published_test_vectors() {
    assert_eq!(fnv1a64(b""), 0xcbf2_9ce4_8422_2325);
    assert_eq!(fnv1a64(b"a"), 0xaf63_dc4c_8601_ec8c);
    assert_eq!(fnv1a64(b"foobar"), 0x8594_4171_f739_67e8);
    assert_eq!(hash_mask(), 0x0000_ffff_ffff_ffff);
}

#[test]
fn the_socket_path_carries_the_instance_name() {
    let path = socket_path("/run/user/1000/lazydap", "lazydap-abcdef123456").expect("socket path");
    assert_eq!(path, "/run/user/1000/lazydap/lazydap-lazydap-abcdef123456.sock");
}

#[test]
fn an_over_long_socket_path_is_refused_rather_than_truncated() {
    let err = socket_path("/tmp/lazydap-1000", &"x".repeat(MAX_SOCKET_PATH_BYTES))
        .expect_err("an over-long instance must not bind");
    assert!(matches!(err, PathsError::SocketPathTooLong { .. }), "got: {err:?}");
}

#[test]
fn the_other_files_sit_beside_the_socket_with_their_own_suffix() {
    assert_eq!(lock_path("/r", "i"), "/r/lazydap-i.lock");
    assert_eq!(pid_path("/d/", "i"), "/d/lazydap-i.pid");
    assert_eq!(log_path("/d", "i"), "/d/lazydap-i.log");
}

#[test]
fn the_runtime_directory_prefers_the_override_then_the_platform_then_tmp() {
    assert_eq!(runtime_dir_from(Some("/custom"), Some("/run/user/1".to_string()), Ok(1)), Ok("/custom".to_string()));
    assert_eq!(runtime_dir_from(Some(""), Some("/run/user/1".to_string()), Ok(1)), Ok("/run/user/1/lazydap".to_string()));
    assert_eq!(runtime_dir_from(None, None, Ok(501)), Ok("/tmp/lazydap-501".to_string()));
    assert_eq!(runtime_dir_from(None, None, Err(PathsError::NoHomeDirectory)), Err(PathsError::NoHomeDirectory));
}

fn status(is_symlink: bool, is_dir: bool, owner: u32, mode: u32) -> DirStatus {
    DirStatus { is_symlink, is_dir, owner, mode }
}

#[test]
fn a_symlinked_directory_is_refused_rather_than_followed() {
    let err = check_private_dir("/tmp/ours", status(true, true, 501, 0o700), 501)
        .expect_err("a symlink must not be accepted");
    assert!(matches!(err, PathsError::UnsafeDirectory { .. }), "got: {err:?}");
}

#[test]
fn a_file_where_the_directory_should_be_is_refused() {
    let err = check_private_dir("/tmp/ours", status(false, false, 501, 0o600), 501)
        .expect_err("a plain file must not be accepted");
    assert!(matches!(err, PathsError::UnsafeDirectory { .. }), "got: {err:?}");
}

#[test]
fn somebody_else_s_directory_is_refused_with_both_owners_named() {
    let err = check_private_dir("/tmp/ours", status(false, true, 0, 0o700), 501).expect_err("not ours");
    assert_eq!(
        err,
        PathsError::RuntimeDirNotOurs { path: "/tmp/ours".to_string(), owner: 0, expected: 501 }
    );
}

#[test]
fn loose_permissions_on_our_own_directory_are_tightened() {
    assert_eq!(check_private_dir("/tmp/ours", status(false, true, 501, 0o40755), 501), Ok(true));
    assert_eq!(check_private_dir("/tmp/ours", status(false, true, 501, 0o40700), 501), Ok(false));
}

#[test]
fn a_root_written_with_a_trailing_dot_is_named_after_its_directory() {
    let name = instance_for_root("/x/proj/.");
    assert!(name.starts_with("proj-"), "got: {name}");
}
