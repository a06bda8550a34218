use waydroid_tray::apps::AppEntry;
use waydroid_tray::command::WaydroidCommand;
use waydroid_tray::config::{Config, ConfigField};
use waydroid_tray::menu::{header, icon_status, menu, middle_click, wakes_main_loop, ContainerCall, IconStatus, MenuAction, MenuItem};
use waydroid_tray::state::State;

fn find<'a>(items: &'a [MenuItem], name: &str) -> &'a MenuItem {
    items
        .iter()
        .find(|i| match i {
            MenuItem::Standard { label, .. } | MenuItem::Checkmark { label, .. } | MenuItem::Submenu { label, .. } => label == name,
            MenuItem::Separator => false,
        })
        .unwrap()
}

fn enabled(items: &[MenuItem], name: &str) -> bool {
    match find(items, name) {
        MenuItem::Standard { enabled, .. } | MenuItem::Submenu { enabled, .. } => *enabled,
        _ => true,
    }
}

fn no_apps() -> Vec<AppEntry> {
    Vec::new()
}

#[test]
fn menu_lists_every_entry_in_order() {
    let items = menu(State::Stopped, false, Config::default(), &no_apps());
    let labels: Vec<String> = items
        .iter()
        .map(|i| match i {
            MenuItem::Standard { label, .. } | MenuItem::Checkmark { label, .. } | MenuItem::Submenu { label, .. } => label.clone(),
            MenuItem::Separator => "-".into(),
        })
        .collect();
    assert_eq!(
        labels,
        [
            "Waydroid: Stopped",
            "-",
            "Start session",
            "Stop session",
            "Stop container service",
            "Freeze",
            "Show full UI",
            "Apps",
            "-",
            "Start session at login",
            "Stop session after 30 min idle",
            "Hide icon while stopped",
            "Quit tray",
        ]
    );
    assert!(!enabled(&items, "Waydroid: Stopped"));
    assert!(!enabled(&items, "Apps"));
}

#[test]
fn starting_session_can_be_stopped() {
    let items = menu(State::Starting, true, Config::default(), &no_apps());
    assert!(matches!(find(&items, "Waydroid: Starting..."), MenuItem::Standard { .. }));
    assert!(!enabled(&items, "Start session"));
    assert!(enabled(&items, "Stop session"));
    assert!(matches!(middle_click(State::Starting), WaydroidCommand::SessionStop));
}

#[test]
fn stuck_session_can_be_stopped() {
    let items = menu(State::Stuck, true, Config::default(), &no_apps());
    assert!(matches!(find(&items, "Waydroid: Stuck (stop the session to reset)"), MenuItem::Standard { .. }));
    assert!(!enabled(&items, "Start session"));
    assert!(enabled(&items, "Stop session"));
    assert!(!enabled(&items, "Freeze"));
}

#[test]
fn stop_container_service_is_offered_once_the_session_is_down() {
    assert!(!enabled(&menu(State::Stopped, false, Config::default(), &no_apps()), "Stop container service"));
    assert!(!enabled(&menu(State::Running, true, Config::default(), &no_apps()), "Stop container service"));
    let items = menu(State::Stopped, true, Config::default(), &no_apps());
    assert!(enabled(&items, "Stop container service"));
    assert!(matches!(
        find(&items, "Stop container service"),
        MenuItem::Standard { action: Some(MenuAction::StopContainerService), .. }
    ));
}

#[test]
fn freeze_when_running() {
    let items = menu(State::Running, false, Config::default(), &no_apps());
    assert!(enabled(&items, "Freeze"));
    assert!(matches!(
        find(&items, "Freeze"),
        MenuItem::Standard { action: Some(MenuAction::Call(ContainerCall::Freeze)), .. }
    ));
    assert_eq!(ContainerCall::Freeze.method(), "Freeze");
}

#[test]
fn unfreeze_when_frozen() {
    let items = menu(State::Frozen, false, Config::default(), &no_apps());
    assert!(enabled(&items, "Unfreeze"));
    assert!(matches!(
        find(&items, "Unfreeze"),
        MenuItem::Standard { action: Some(MenuAction::Call(ContainerCall::Unfreeze)), .. }
    ));
}

#[test]
fn checkmarks_follow_the_settings() {
    let config = Config { start_at_login: true, hide_when_stopped: false, auto_stop_when_idle: true };
    let items = menu(State::Running, false, config, &no_apps());
    assert!(matches!(
        find(&items, "Start session at login"),
        MenuItem::Checkmark { checked: true, field: ConfigField::StartAtLogin, .. }
    ));
    assert!(matches!(
        find(&items, "Hide icon while stopped"),
        MenuItem::Checkmark { checked: false, field: ConfigField::HideWhenStopped, .. }
    ));
    assert!(matches!(
        find(&items, "Stop session after 30 min idle"),
        MenuItem::Checkmark { checked: true, field: ConfigField::AutoStopWhenIdle, .. }
    ));
    assert!(wakes_main_loop(ConfigField::AutoStopWhenIdle));
    assert!(!wakes_main_loop(ConfigField::HideWhenStopped));
}

#[test]
fn apps_submenu_launches_each_app() {
    let apps = vec![AppEntry { name: "Files".into(), package: "com.android.documentsui".into(), icon: String::new() }];
    let items = menu(State::Running, false, Config::default(), &apps);
    match find(&items, "Apps") {
        MenuItem::Submenu { enabled, items, .. } => {
            assert!(*enabled);
            assert_eq!(items.len(), 1);
            assert_eq!(items[0].label, "Files");
            match &items[0].action {
                MenuAction::Run(command) => {
                    assert_eq!(command.line(), "waydroid app launch com.android.documentsui")
                }
                _ => panic!("not a launch"),
            }
        }
        _ => panic!("not a submenu"),
    }
}

#[test]
fn hidden_while_stopped_when_enabled() {
    assert_eq!(icon_status(true, State::Stopped), IconStatus::Passive);
    assert_eq!(icon_status(true, State::Running), IconStatus::Active);
    assert_eq!(icon_status(true, State::Starting), IconStatus::Active);
    assert_eq!(icon_status(false, State::Stopped), IconStatus::Active);
}

#[test]
fn middle_click_starts_a_stopped_session() {
    assert!(matches!(middle_click(State::Stopped), WaydroidCommand::SessionStart));
}

#[test]
fn middle_click_stops_a_running_session() {
    assert!(matches!(middle_click(State::Running), WaydroidCommand::SessionStop));
    assert!(matches!(middle_click(State::Stuck), WaydroidCommand::SessionStop));
}

#[test]
fn header_names_the_state() {
    assert_eq!(header(State::Frozen), "Waydroid: Frozen (idle)");
}
