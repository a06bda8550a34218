//! What the tray icon shows and offers: its status, its tool tip, what a
//! middle click does, and the menu.

use vstd::prelude::*;

use crate::apps::{AppEntry, AppView, apps_view};
use crate::command::{WaydroidCommand, command_args};
use crate::config::{Config, ConfigField};
use crate::state::{State, label_text};

verus! {

/// Whether the panel shows the icon or tucks it away with the hidden icons.
#[derive(Clone, Copy, PartialEq, Eq, Structural, Debug)]
pub enum IconStatus {
    Active,
    Passive,
}

/// A container manager method the menu calls, taking no arguments.
#[derive(Clone, Copy, PartialEq, Eq, Structural, Debug)]
pub enum ContainerCall {
    Freeze,
    Unfreeze,
}

/// What choosing a menu item does.
#[derive(Clone, Debug)]
pub enum MenuAction {
    /// Runs a `waydroid` command.
    Run(WaydroidCommand),
    /// Asks systemd to stop the container service.
    StopContainerService,
    /// Calls a container manager method.
    Call(ContainerCall),
    /// Flips a setting and saves it.
    Toggle(ConfigField),
    /// Quits the tray.
    Quit,
}

/// One entry of an app submenu: the app's name, and launching it.
#[derive(Clone, Debug)]
pub struct AppItem {
    pub label: String,
    pub action: MenuAction,
}

/// One entry of the menu.
#[derive(Clone, Debug)]
pub enum MenuItem {
    Standard { label: String, enabled: bool, action: Option<MenuAction> },
    Separator,
    Checkmark { label: String, checked: bool, field: ConfigField },
    Submenu { label: String, enabled: bool, items: Vec<AppItem> },
}

/// A menu action, its command taken as its arguments.
pub enum ActionView {
    Run(Seq<Seq<char>>),
    StopContainerService,
    Call(ContainerCall),
    Toggle(ConfigField),
    Quit,
}

/// A menu entry, its strings taken as text.
pub enum ItemView {
    Standard { label: Seq<char>, enabled: bool, action: Option<ActionView> },
    Separator,
    Checkmark { label: Seq<char>, checked: bool, field: ConfigField },
    Submenu { label: Seq<char>, enabled: bool, items: Seq<(Seq<char>, ActionView)> },
}

/// The text of an action.
pub open spec fn action_view(a: MenuAction) -> ActionView {
    match a {
        MenuAction::Run(c) => ActionView::Run(command_args(c)),
        MenuAction::StopContainerService => ActionView::StopContainerService,
        MenuAction::Call(m) => ActionView::Call(m),
        MenuAction::Toggle(f) => ActionView::Toggle(f),
        MenuAction::Quit => ActionView::Quit,
    }
}

/// The text of an app entry.
pub open spec fn app_item_view(i: AppItem) -> (Seq<char>, ActionView) {
    (i.label@, action_view(i.action))
}

/// The text of a menu entry.
pub open spec fn item_view(i: MenuItem) -> ItemView {
    match i {
        MenuItem::Standard { label, enabled, action } => ItemView::Standard {
            label: label@,
            enabled,
            action: match action {
                Some(a) => Some(action_view(a)),
                None => None,
            },
        },
        MenuItem::Separator => ItemView::Separator,
        MenuItem::Checkmark { label, checked, field } => ItemView::Checkmark {
            label: label@,
            checked,
            field,
        },
        MenuItem::Submenu { label, enabled, items } => ItemView::Submenu {
            label: label@,
            enabled,
            items: items@.map_values(|i: AppItem| app_item_view(i)),
        },
    }
}

/// The text of the menu.
pub open spec fn menu_view(items: Seq<MenuItem>) -> Seq<ItemView> {
    items.map_values(|i: MenuItem| item_view(i))
}

/// What the menu header and the tool tip say.
pub open spec fn header_text(state: State) -> Seq<char> {
    "Waydroid: "@ + label_text(state)
}

/// The status of the icon: tucked away while the session is stopped, if the
/// user asked for that, shown otherwise.
pub open spec fn status_of(hide_when_stopped: bool, state: State) -> IconStatus {
    if hide_when_stopped && state == State::Stopped {
        IconStatus::Passive
    } else {
        IconStatus::Active
    }
}

/// The launch entry for each app, in order.
pub open spec fn app_items(apps: Seq<AppView>) -> Seq<(Seq<char>, ActionView)> {
    apps.map_values(|a: AppView| (a.name, ActionView::Run(seq!["app"@, "launch"@, a.package])))
}

/// The menu for a session in `state`, with the container service up or not,
/// the settings `config` and the apps `apps`:
/// - a header naming the state;
/// - Start session, only while stopped; Stop session, in every other state
///   (Starting and Stuck included);
/// - Stop container service, only once the session is stopped and the
///   service is still up;
/// - Freeze, or Unfreeze while frozen, only while running or frozen;
/// - Show full UI; an Apps submenu, enabled when there are apps;
/// - the three settings as checkmarks, and Quit tray.
pub open spec fn menu_spec(state: State, container_up: bool, config: Config, apps: Seq<AppView>) -> Seq<ItemView> {
    let stopped = state == State::Stopped;
    let active = state == State::Running || state == State::Frozen;
    let call = if state == State::Frozen { ContainerCall::Unfreeze } else { ContainerCall::Freeze };
    seq![
        ItemView::Standard { label: header_text(state), enabled: false, action: None },
        ItemView::Separator,
        ItemView::Standard {
            label: "Start session"@,
            enabled: stopped,
            action: Some(ActionView::Run(seq!["session"@, "start"@])),
        },
        ItemView::Standard {
            label: "Stop session"@,
            enabled: !stopped,
            action: Some(ActionView::Run(seq!["session"@, "stop"@])),
        },
        ItemView::Standard {
            label: "Stop container service"@,
            enabled: stopped && container_up,
            action: Some(ActionView::StopContainerService),
        },
        ItemView::Standard {
            label: call_name(call),
            enabled: active,
            action: Some(ActionView::Call(call)),
        },
        ItemView::Standard {
            label: "Show full UI"@,
            enabled: true,
            action: Some(ActionView::Run(seq!["show-full-ui"@])),
        },
        ItemView::Submenu { label: "Apps"@, enabled: apps.len() > 0, items: app_items(apps) },
        ItemView::Separator,
        ItemView::Checkmark {
            label: "Start session at login"@,
            checked: config.start_at_login,
            field: ConfigField::StartAtLogin,
        },
        ItemView::Checkmark {
            label: "Stop session after 30 min idle"@,
            checked: config.auto_stop_when_idle,
            field: ConfigField::AutoStopWhenIdle,
        },
        ItemView::Checkmark {
            label: "Hide icon while stopped"@,
            checked: config.hide_when_stopped,
            field: ConfigField::HideWhenStopped,
        },
        ItemView::Standard { label: "Quit tray"@, enabled: true, action: Some(ActionView::Quit) },
    ]
}

/// The name of a container manager method, which the menu shows too.
pub open spec fn call_name(m: ContainerCall) -> Seq<char> {
    match m {
        ContainerCall::Freeze => "Freeze"@,
        ContainerCall::Unfreeze => "Unfreeze"@,
    }
}

impl ContainerCall {
    /// The D-Bus method name, which is also the menu label.
    pub fn method(self) -> (m: &'static str)
        ensures
            m@ == call_name(self),
    {
        match self {
            ContainerCall::Freeze => "Freeze",
            ContainerCall::Unfreeze => "Unfreeze",
        }
    }
}

/// Whether a settings toggle should wake the main loop at once: only the idle
/// timer's, which the loop owns.
pub fn wakes_main_loop(field: ConfigField) -> (b: bool)
    ensures
        b == (field == ConfigField::AutoStopWhenIdle),
{
    match field {
        ConfigField::AutoStopWhenIdle => true,
        _ => false,
    }
}

/// The status of the icon.
pub fn icon_status(hide_when_stopped: bool, state: State) -> (s: IconStatus)
    ensures
        s == status_of(hide_when_stopped, state),
        s == IconStatus::Passive <==> hide_when_stopped && state == State::Stopped,
{
    if hide_when_stopped && state == State::Stopped {
        IconStatus::Passive
    } else {
        IconStatus::Active
    }
}

/// What the menu header and the tool tip say: "Waydroid: " and the state.
pub fn header(state: State) -> (h: String)
    ensures
        h@ == header_text(state),
{
    let mut h = String::from_str("Waydroid: ");
    h.append(state.label());
    h
}

/// What a middle click runs: a start while stopped, a stop otherwise.
pub fn middle_click(state: State) -> (c: WaydroidCommand)
    ensures
        c == if state == State::Stopped {
            WaydroidCommand::SessionStart
        } else {
            WaydroidCommand::SessionStop
        },
{
    if state == State::Stopped {
        WaydroidCommand::SessionStart
    } else {
        WaydroidCommand::SessionStop
    }
}

/// An enabled entry that runs `action`.
fn standard(label: &str, enabled: bool, action: MenuAction) -> (i: MenuItem)
    ensures
        item_view(i) == (ItemView::Standard {
            label: label@,
            enabled,
            action: Some(action_view(action)),
        }),
{
    MenuItem::Standard { label: String::from_str(label), enabled, action: Some(action) }
}

/// A checkmark entry that shows and flips `field`.
fn checkmark(label: &str, config: Config, field: ConfigField) -> (i: MenuItem)
    ensures
        item_view(i) == (ItemView::Checkmark {
            label: label@,
            checked: config.get(field),
            field,
        }),
{
    MenuItem::Checkmark {
        label: String::from_str(label),
        checked: config.value(field),
        field,
    }
}

/// The launch entries for the apps, in order.
fn app_menu(apps: &Vec<AppEntry>) -> (items: Vec<AppItem>)
    ensures
        items@.len() == apps@.len(),
        items@.map_values(|i: AppItem| app_item_view(i)) == app_items(apps_view(apps@)),
{
    let mut items: Vec<AppItem> = Vec::new();
    let mut k: usize = 0;
    while k < apps.len()
        invariant
            k <= apps.len(),
            items@.len() == k,
            items@.map_values(|i: AppItem| app_item_view(i)) == app_items(apps_view(apps@)).take(
                k as int,
            ),
        decreases apps.len() - k,
    {
        let app = &apps[k];
        let item = AppItem {
            label: app.name.clone(),
            action: MenuAction::Run(WaydroidCommand::AppLaunch(app.package.clone())),
        };
        let ghost before = items@;
        items.push(item);
        assert(items@.map_values(|i: AppItem| app_item_view(i)) =~= before.map_values(
            |i: AppItem| app_item_view(i),
        ).push(app_item_view(item)));
        assert(app_items(apps_view(apps@)).take(k + 1) =~= app_items(apps_view(apps@)).take(
            k as int,
        ).push(app_items(apps_view(apps@))[k as int]));
        k = k + 1;
    }
    assert(app_items(apps_view(apps@)).take(apps.len() as int) =~= app_items(apps_view(apps@)));
    items
}

/// The menu for a session in `state`, with the container service up or not,
/// the settings `config`, and the apps `apps`.
pub fn menu(state: State, container_up: bool, config: Config, apps: &Vec<AppEntry>) -> (items: Vec<MenuItem>)
    ensures
        menu_view(items@) == menu_spec(state, container_up, config, apps_view(apps@)),
{
    let stopped = state == State::Stopped;
    let active = state == State::Running || state == State::Frozen;
    let call = if state == State::Frozen { ContainerCall::Unfreeze } else { ContainerCall::Freeze };
    let i0 = MenuItem::Standard { label: header(state), enabled: false, action: None };
    let i2 = standard("Start session", stopped, MenuAction::Run(WaydroidCommand::SessionStart));
    let i3 = standard("Stop session", !stopped, MenuAction::Run(WaydroidCommand::SessionStop));
    let i4 = standard("Stop container service", stopped && container_up, MenuAction::StopContainerService);
    let i5 = standard(call.method(), active, MenuAction::Call(call));
    let i6 = standard("Show full UI", true, MenuAction::Run(WaydroidCommand::ShowFullUi));
    let app_entries = app_menu(apps);
    let any_apps = app_entries.len() > 0;
    let i7 = MenuItem::Submenu { label: String::from_str("Apps"), enabled: any_apps, items: app_entries };
    let i9 = checkmark("Start session at login", config, ConfigField::StartAtLogin);
    let i10 = checkmark("Stop session after 30 min idle", config, ConfigField::AutoStopWhenIdle);
    let i11 = checkmark("Hide icon while stopped", config, ConfigField::HideWhenStopped);
    let i12 = standard("Quit tray", true, MenuAction::Quit);
    let items = vec![i0, MenuItem::Separator, i2, i3, i4, i5, i6, i7, MenuItem::Separator, i9, i10, i11, i12];
    let ghost spec = menu_spec(state, container_up, config, apps_view(apps@));
    assert(item_view(i0) == spec[0]);
    assert(item_view(i2) == spec[2]);
    assert(item_view(i3) == spec[3]);
    assert(item_view(i4) == spec[4]);
    assert(item_view(i5) == spec[5]);
    assert(item_view(i6) == spec[6]);
    assert(item_view(i7) == spec[7]);
    assert(item_view(i9) == spec[9]);
    assert(item_view(i10) == spec[10]);
    assert(item_view(i11) == spec[11]);
    assert(item_view(i12) == spec[12]);
    assert(menu_view(items@) =~= spec);
    items
}

/// The icon is tucked away exactly when hiding is on and the session is
/// stopped; every live or in-between session keeps it shown.
pub proof fn lemma_passive_only_when_stopped(hide_when_stopped: bool, state: State)
    ensures
        status_of(hide_when_stopped, state) == IconStatus::Passive ==> state == State::Stopped
            && hide_when_stopped,
        state != State::Stopped ==> status_of(hide_when_stopped, state) == IconStatus::Active,
        !hide_when_stopped ==> status_of(hide_when_stopped, state) == IconStatus::Active,
        hide_when_stopped && state == State::Stopped ==> status_of(hide_when_stopped, state)
            == IconStatus::Passive,
{
}

/// Every checkmark of the menu shows the setting it flips, and the three
/// checkmarks flip the three settings under their own labels.
pub proof fn lemma_checkmarks_show_their_setting(
    state: State,
    container_up: bool,
    config: Config,
    apps: Seq<AppView>,
)
    ensures
        forall|k: int|
            0 <= k < menu_spec(state, container_up, config, apps).len() ==> (
            #[trigger] menu_spec(state, container_up, config, apps)[k] matches ItemView::Checkmark {
                checked,
                field,
                ..
            } ==> checked == config.get(field)),
        menu_spec(state, container_up, config, apps)[9] matches ItemView::Checkmark {
            label,
            checked,
            field,
        } && label == "Start session at login"@ && field == ConfigField::StartAtLogin && checked
            == config.start_at_login,
        menu_spec(state, container_up, config, apps)[10] matches ItemView::Checkmark {
            label,
            checked,
            field,
        } && label == "Stop session after 30 min idle"@ && field == ConfigField::AutoStopWhenIdle
            && checked == config.auto_stop_when_idle,
        menu_spec(state, container_up, config, apps)[11] matches ItemView::Checkmark {
            label,
            checked,
            field,
        } && label == "Hide icon while stopped"@ && field == ConfigField::HideWhenStopped && checked
            == config.hide_when_stopped,
{
}

/// The session entries of the menu: Start only while stopped, Stop in every
/// other state (Starting and Stuck included), Stop container service only once
/// the session is stopped and the service is up, Freeze while running and
/// Unfreeze while frozen (and neither otherwise), Show full UI always, the
/// Apps submenu when there are apps, with an entry launching each app.
pub proof fn lemma_menu_entries(state: State, container_up: bool, config: Config, apps: Seq<AppView>)
    ensures
        ({
            let m = menu_spec(state, container_up, config, apps);
            &&& m.len() == 13
            &&& m[0] matches ItemView::Standard { label, enabled, action } && label == "Waydroid: "@
                + label_text(state) && !enabled && action is None
            &&& m[1] is Separator && m[8] is Separator
            &&& m[2] matches ItemView::Standard { label, enabled, action } && label
                == "Start session"@ && enabled == (state == State::Stopped) && action == Some(
                ActionView::Run(seq!["session"@, "start"@]),
            )
            &&& m[3] matches ItemView::Standard { label, enabled, action } && label
                == "Stop session"@ && enabled == (state != State::Stopped) && action == Some(
                ActionView::Run(seq!["session"@, "stop"@]),
            )
            &&& m[4] matches ItemView::Standard { label, enabled, action } && label
                == "Stop container service"@ && enabled == (state == State::Stopped
                && container_up) && action == Some(ActionView::StopContainerService)
            &&& m[5] matches ItemView::Standard { label, enabled, action } && (state
                == State::Frozen ==> label == "Unfreeze"@ && enabled && action == Some(
                ActionView::Call(ContainerCall::Unfreeze),
            )) && (state != State::Frozen ==> label == "Freeze"@ && enabled == (state
                == State::Running) && action == Some(ActionView::Call(ContainerCall::Freeze)))
            &&& m[6] matches ItemView::Standard { label, enabled, action } && label
                == "Show full UI"@ && enabled && action == Some(
                ActionView::Run(seq!["show-full-ui"@]),
            )
            &&& m[7] matches ItemView::Submenu { label, enabled, items } && label == "Apps"@
                && enabled == (apps.len() > 0) && items.len() == apps.len() && (forall|i: int|
                0 <= i < apps.len() ==> #[trigger] items[i] == (
                apps[i].name,
                ActionView::Run(seq!["app"@, "launch"@, apps[i].package]),
            ))
            &&& m[12] matches ItemView::Standard { label, enabled, action } && label
                == "Quit tray"@ && enabled && action == Some(ActionView::Quit)
        }),
{
}

} // verus!
