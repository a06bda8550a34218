use waydroid_tray::command::{last_lines, RunOutcome, WaydroidCommand};

#[test]
fn command_lines() {
    assert_eq!(WaydroidCommand::SessionStart.line(), "waydroid session start");
    assert_eq!(WaydroidCommand::SessionStop.args(), ["session", "stop"]);
    assert_eq!(WaydroidCommand::ShowFullUi.line(), "waydroid show-full-ui");
    assert_eq!(WaydroidCommand::AppLaunch("org.x".into()).args(), ["app", "launch", "org.x"]);
    assert!(WaydroidCommand::SessionStart.starts_session());
    assert!(!WaydroidCommand::SessionStop.starts_session());
}

#[test]
fn failed_command_is_notified_with_stderr() {
    let summary = WaydroidCommand::ShowFullUi.failure_summary(RunOutcome::Exited { success: false });
    assert_eq!(summary.as_deref(), Some("waydroid show-full-ui failed"));
    assert_eq!(last_lines("shim: show-full-ui failed\n").as_deref(), Some("shim: show-full-ui failed"));
}

#[test]
fn session_start_exiting_zero_early_is_notified() {
    let summary = WaydroidCommand::SessionStart.failure_summary(RunOutcome::Exited { success: true });
    assert_eq!(summary.as_deref(), Some("waydroid session start failed"));
}

#[test]
fn lasting_session_start_is_not_notified() {
    assert_eq!(WaydroidCommand::SessionStart.failure_summary(RunOutcome::StillRunning), None);
}

#[test]
fn successful_command_is_not_notified() {
    assert_eq!(WaydroidCommand::ShowFullUi.failure_summary(RunOutcome::Exited { success: true }), None);
}

#[test]
fn spawn_and_wait_errors_are_notified() {
    assert!(WaydroidCommand::SessionStop.failure_summary(RunOutcome::SpawnFailed).is_some());
    assert!(WaydroidCommand::SessionStart.failure_summary(RunOutcome::WaitFailed).is_some());
}

#[test]
fn only_the_last_five_lines_are_kept() {
    let text = "1\n2\n3\n4\n5\n6\n7\r\n";
    assert_eq!(last_lines(text).as_deref(), Some("3\n4\n5\n6\n7"));
    assert_eq!(last_lines(""), None);
    assert_eq!(last_lines("\n"), None);
    assert_eq!(last_lines("a\n\n").as_deref(), Some("a\n"));
    let expected: Vec<&str> = text.lines().collect();
    assert_eq!(last_lines(text).unwrap(), expected[expected.len() - 5..].join("\n"));
}
