use git_tool::api::UpdateAction;
use git_tool::{UpdatePhase, UpdateState};

fn state(
    target: Option<&str>,
    temporary: Option<&str>,
    phase: UpdatePhase,
) -> UpdateState {
    UpdateState {
        target_application: target.map(String::from),
        temporary_application: temporary.map(String::from),
        phase,
    }
}

#[test]
fn test_serialize() {
    assert_eq!(
        state(
            Some("/bin/git-tool"),
            Some("/tmp/git-tool-update"),
            UpdatePhase::Replace
        )
        .to_json(),
        r#"{"app":"/bin/git-tool","update":"/tmp/git-tool-update","phase":"replace"}"#
    );

    assert_eq!(
        state(None, Some("/tmp/git-tool-update"), UpdatePhase::Cleanup).to_json(),
        r#"{"update":"/tmp/git-tool-update","phase":"cleanup"}"#
    );
}

#[test]
fn test_deserialize() {
    let update = state(None, Some("/tmp/git-tool-update"), UpdatePhase::Cleanup);

    let deserialized =
        UpdateState::from_json(r#"{"update":"/tmp/git-tool-update","phase":"cleanup"}"#).unwrap();
    assert_eq!(deserialized, update);
}

#[test]
fn json_round_trip_plain_paths() {
    let original = state(
        Some("/bin/git-tool"),
        Some("/tmp/git-tool-update"),
        UpdatePhase::Replace,
    );
    let text = original.to_json();
    assert_eq!(UpdateState::from_json(&text).unwrap(), original);
}

#[test]
fn json_round_trip_paths_needing_escapes() {
    let original = state(
        Some("C:\\Program Files\\git-tool\\git-tool.exe"),
        Some("/tmp/with \"quotes\"\nand newline\ttab\u{1}ctl"),
        UpdatePhase::Prepare,
    );
    let text = original.to_json();
    assert_eq!(UpdateState::from_json(&text).unwrap(), original);
}

#[test]
fn json_round_trip_empty_record() {
    let original = state(None, None, UpdatePhase::NoUpdate);
    let text = original.to_json();
    assert_eq!(text, r#"{"phase":"no-update"}"#);
    assert_eq!(UpdateState::from_json(&text).unwrap(), original);
}

#[test]
fn json_rejects_garbage() {
    assert!(UpdateState::from_json("").is_err());
    assert!(UpdateState::from_json("not json").is_err());
    assert!(UpdateState::from_json(r#"{"phase":"upgrade"}"#).is_err());
    assert!(UpdateState::from_json(r#"{"app":"/bin/git-tool"}"#).is_err());
    assert!(matches!(
        UpdateState::from_json(r#"{"phase":"cleanup""#),
        Err(git_tool::Error::Internal { .. })
    ));
}

#[test]
fn for_phase_keeps_paths() {
    let original = state(
        Some("/bin/git-tool"),
        Some("/tmp/git-tool-update"),
        UpdatePhase::Prepare,
    );
    let advanced = original.for_phase(UpdatePhase::Replace);
    assert_eq!(advanced.target_application, original.target_application);
    assert_eq!(
        advanced.temporary_application,
        original.temporary_application
    );
    assert_eq!(advanced.phase, UpdatePhase::Replace);
}

#[test]
fn phase_names_and_default() {
    assert_eq!(UpdatePhase::default(), UpdatePhase::NoUpdate);
    assert_eq!(UpdatePhase::NoUpdate.to_string(), "no-update");
    assert_eq!(UpdatePhase::Prepare.to_string(), "prepare");
    assert_eq!(UpdatePhase::Replace.to_string(), "replace");
    assert_eq!(UpdatePhase::Cleanup.to_string(), "cleanup");
    let fresh = UpdateState::default();
    assert_eq!(fresh.phase, UpdatePhase::NoUpdate);
    assert!(fresh.target_application.is_none());
    assert!(fresh.temporary_application.is_none());
}

#[test]
fn resume_replace_swaps_without_redownload() {
    let persisted = state(
        Some("/bin/git-tool"),
        Some("/tmp/git-tool-update"),
        UpdatePhase::Replace,
    );
    match persisted.resume_action().unwrap() {
        UpdateAction::Swap { target, temporary } => {
            assert_eq!(target, "/bin/git-tool");
            assert_eq!(temporary, "/tmp/git-tool-update");
        }
        other => panic!("resuming from replace must swap, got {:?}", other),
    }
}

#[test]
fn resume_prepare_downloads_without_swapping() {
    let persisted = state(
        Some("/bin/git-tool"),
        Some("/tmp/git-tool-update"),
        UpdatePhase::Prepare,
    );
    match persisted.resume_action().unwrap() {
        UpdateAction::Download { target, temporary } => {
            assert_eq!(target, "/bin/git-tool");
            assert_eq!(temporary, "/tmp/git-tool-update");
        }
        other => panic!("resuming from prepare must stage, got {:?}", other),
    }
}

#[test]
fn resume_cleanup_and_idle() {
    let persisted = state(None, Some("/tmp/git-tool-update"), UpdatePhase::Cleanup);
    assert!(matches!(
        persisted.resume_action().unwrap(),
        UpdateAction::RemoveTemporary { .. }
    ));
    let idle = state(None, None, UpdatePhase::NoUpdate);
    assert_eq!(idle.resume_action().unwrap(), UpdateAction::Idle);
}

#[test]
fn resume_corrupt_record_is_internal() {
    let missing_paths = state(None, None, UpdatePhase::Replace);
    assert!(matches!(
        missing_paths.resume_action(),
        Err(git_tool::Error::Internal { .. })
    ));
}

#[test]
fn advance_walks_the_protocol() {
    let staged = UpdateState::begin_update(
        String::from("/bin/git-tool"),
        String::from("/tmp/git-tool-update"),
    );
    assert_eq!(staged.phase, UpdatePhase::Prepare);
    let swapping = staged.advance();
    assert_eq!(swapping.phase, UpdatePhase::Replace);
    assert_eq!(swapping.target_application, staged.target_application);
    let cleaning = swapping.advance();
    assert_eq!(cleaning.phase, UpdatePhase::Cleanup);
    let done = cleaning.advance();
    assert_eq!(done.phase, UpdatePhase::NoUpdate);
    assert!(done.target_application.is_none());
    assert!(done.temporary_application.is_none());
}
