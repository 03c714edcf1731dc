use lazydap::errors::CliError;
use lazydap::exit;
use lazydap::spawn::{
    approach, did_not_come_up, is_stale, on_age, on_claim, on_create, on_retake, shutdown_frame,
    Approach, Contact, LockAction, LockAttempt, STALE_LOCK_AGE_SECS,
};

/// What a v1 daemon expects on the wire, written out literally.
const V1_SHUTDOWN_FRAME: &str = r#"{"id":1,"payload":{"Request":"Shutdown"},"version":1}"#;

#[test]
fn the_shutdown_escape_hatch_is_still_shaped_the_way_v1_daemons_read_it() {
    let frame: serde_json::Value = serde_json::from_str(&shutdown_frame(1)).expect("the frame parses");
    let expected: serde_json::Value =
        serde_json::from_str(V1_SHUTDOWN_FRAME).expect("the golden frame parses");

    assert_eq!(
        frame, expected,
        "the shutdown frame must stay readable by every daemon ever shipped; \
         restore the frame rather than updating this test",
    );
    assert_eq!(shutdown_frame(1), V1_SHUTDOWN_FRAME);
}

#[test]
fn the_shutdown_frame_wears_the_daemon_s_version_not_ours() {
    let frame: serde_json::Value = serde_json::from_str(&shutdown_frame(7)).expect("the frame parses");
    assert_eq!(frame["version"], 7);
}

#[test]
fn a_lock_is_stale_only_past_the_cutoff() {
    assert!(!is_stale(None), "an age that cannot be read is a live holder");
    assert!(!is_stale(Some((STALE_LOCK_AGE_SECS, 0))));
    assert!(is_stale(Some((STALE_LOCK_AGE_SECS, 1))));
    assert!(is_stale(Some((STALE_LOCK_AGE_SECS * 2, 0))));
    assert!(!is_stale(Some((1, 999_999_999))));
}

#[test]
fn the_first_client_holds_the_lock_and_the_second_waits() {
    assert_eq!(on_create(LockAttempt::Created, "/run/x.lock"), LockAction::Held);
    // The second finds it there, held by a live client.
    assert_eq!(on_create(LockAttempt::AlreadyExists, "/run/x.lock"), LockAction::CheckAge);
    assert_eq!(on_age(false), LockAction::Wait);
}

#[test]
fn a_dead_client_s_lock_is_claimed_and_taken_at_once() {
    assert_eq!(on_age(is_stale(Some((STALE_LOCK_AGE_SECS * 2, 0)))), LockAction::Claim);
    assert_eq!(on_claim(true), LockAction::Retake);
    assert_eq!(on_retake(true), LockAction::Held);
}

#[test]
fn a_contender_that_loses_the_claim_waits_for_the_winner() {
    assert_eq!(on_claim(false), LockAction::Wait);
    assert_eq!(on_retake(false), LockAction::Wait);
}

#[test]
fn a_lock_that_cannot_be_created_is_a_general_failure_naming_the_path() {
    match on_create(LockAttempt::Failed("permission denied".to_string()), "/run/x.lock") {
        LockAction::Fail(CliError { label, exit_code, message, .. }) => {
            assert_eq!(label, "DaemonInternalError");
            assert_eq!(exit_code, exit::GENERAL);
            assert_eq!(message, "cannot take the spawn lock at /run/x.lock: permission denied");
        }
        other => unreachable!("got {other:?}"),
    }
}

#[test]
fn a_daemon_of_another_build_is_replaced_in_its_own_dialect() {
    assert_eq!(approach(Contact::Connected, 2), Approach::Use);
    assert_eq!(approach(Contact::OtherBuild(Some(1)), 2), Approach::Replace(1));
    assert_eq!(approach(Contact::OtherBuild(None), 2), Approach::Replace(2));
    assert_eq!(approach(Contact::Refused, 2), Approach::Spawn);
}

#[test]
fn a_daemon_that_never_answers_is_unreachable_with_the_last_error() {
    let error = did_not_come_up(Some("connection refused"));
    assert_eq!(error.exit_code, exit::DAEMON_UNREACHABLE);
    assert_eq!(error.message, "the daemon did not come up within 10s (connection refused)");
    assert_eq!(did_not_come_up(None).message, "the daemon did not come up within 10s");
}
