use waydroid_tray::state::State;

#[test]
fn labels_and_icons() {
    assert_eq!(State::Stopped.label(), "Stopped");
    assert_eq!(State::Starting.label(), "Starting...");
    assert_eq!(State::Running.label(), "Running");
    assert_eq!(State::Frozen.label(), "Frozen (idle)");
    assert_eq!(State::Stuck.label(), "Stuck (stop the session to reset)");
    assert_eq!(State::Stopped.icon(), "waydroid-tray-stopped-symbolic");
    assert_eq!(State::Starting.icon(), "waydroid-tray-stopped-symbolic");
    assert_eq!(State::Stuck.icon(), "waydroid-tray-stopped-symbolic");
    assert_eq!(State::Running.icon(), "waydroid-tray-running-symbolic");
    assert_eq!(State::Frozen.icon(), "waydroid-tray-frozen-symbolic");
}

#[test]
fn session_manager_up_means_starting() {
    assert_eq!(State::Stopped.with_session(true), State::Starting);
    assert_eq!(State::Stopped.with_session(false), State::Stopped);
    assert_eq!(State::Running.with_session(true), State::Running);
    assert_eq!(State::Stuck.with_session(true), State::Stuck);
}

#[test]
fn session_replies_map_to_states() {
    assert_eq!(State::from_session(None), State::Stopped);
    assert_eq!(State::from_session(Some("RUNNING")), State::Running);
    assert_eq!(State::from_session(Some("FROZEN")), State::Frozen);
    assert_eq!(State::from_session(Some("STOPPED")), State::Stuck);
    assert_eq!(State::from_session(Some("")), State::Running);
    assert_eq!(State::from_session(Some("frozen")), State::Running);
}

#[test]
fn running_reply_shows_the_running_icon() {
    let state = State::from_session(Some("RUNNING"));
    assert_eq!(state.icon(), "waydroid-tray-running-symbolic");
}

#[test]
fn frozen_reply_shows_the_frozen_icon() {
    assert_eq!(State::from_session(Some("FROZEN")).icon(), "waydroid-tray-frozen-symbolic");
}
