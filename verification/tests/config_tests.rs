use std::path::PathBuf;
use std::sync::atomic::Ordering;

use waydroid_tray::config::{config_base, Config, ConfigBase, ConfigField, CONFIG_FILE};
use waydroid_tray::settings::Settings;

#[test]
fn round_trip() {
    let config = Config {
        start_at_login: true,
        hide_when_stopped: false,
        auto_stop_when_idle: true,
    };
    let text = config.render();
    assert_eq!(Config::load_text(Some(&text)), config);
}

#[test]
fn rendered_file_has_one_line_per_setting() {
    let config = Config {
        start_at_login: false,
        hide_when_stopped: true,
        auto_stop_when_idle: false,
    };
    assert_eq!(
        config.render(),
        "start_at_login=false\nhide_when_stopped=true\nauto_stop_when_idle=false\n"
    );
}

#[test]
fn missing_file_is_default() {
    assert_eq!(Config::load_text(None), Config::default());
}

#[test]
fn default_is_all_off() {
    assert_eq!(
        Config::default(),
        Config {
            start_at_login: false,
            hide_when_stopped: false,
            auto_stop_when_idle: false
        }
    );
}

#[test]
fn malformed_lines_are_ignored() {
    let config = Config::parse("garbage\nstart_at_login = true\n=true\nhide_when_stopped=yes\n");
    assert_eq!(
        config,
        Config {
            start_at_login: true,
            hide_when_stopped: false,
            auto_stop_when_idle: false
        }
    );
}

#[test]
fn later_lines_win_and_crlf_is_accepted() {
    let config = Config::parse(
        "auto_stop_when_idle=true\r\nhide_when_stopped=true\r\nauto_stop_when_idle= false \r\nunknown=true",
    );
    assert_eq!(
        config,
        Config {
            start_at_login: false,
            hide_when_stopped: true,
            auto_stop_when_idle: false
        }
    );
}

#[test]
fn value_is_split_at_the_first_equals_sign() {
    assert_eq!(Config::parse("start_at_login=true=true"), Config::default());
    assert_eq!(Config::parse("\u{3000}start_at_login\t=\u{a0}true"), Config {
        start_at_login: true,
        ..Config::default()
    });
}

#[test]
fn toggle_flips_one_setting() {
    let config = Config::default();
    let once = config.toggled(ConfigField::HideWhenStopped);
    assert!(once.hide_when_stopped);
    assert!(!once.start_at_login && !once.auto_stop_when_idle);
    assert_eq!(once.toggled(ConfigField::HideWhenStopped), config);
}

#[test]
fn start_at_login_only_without_a_session() {
    let on = Config {
        start_at_login: true,
        ..Config::default()
    };
    assert!(on.starts_session_at_login(false));
    assert!(!on.starts_session_at_login(true));
    assert!(!Config::default().starts_session_at_login(false));
}

#[test]
fn toggle_publishes_auto_stop() {
    let path = PathBuf::from("/nonexistent/waydroid-tray/config");
    let mut settings = Settings::new(Config::default(), path.clone());
    let auto_stop = settings.auto_stop();
    assert!(!auto_stop.load(Ordering::Relaxed));
    settings.toggle(ConfigField::AutoStopWhenIdle);
    assert!(auto_stop.load(Ordering::Relaxed));
    assert_eq!(
        settings.config(),
        Config {
            auto_stop_when_idle: true,
            ..Config::default()
        }
    );
    assert_eq!(settings.path(), &path);
    settings.toggle(ConfigField::AutoStopWhenIdle);
    assert!(!auto_stop.load(Ordering::Relaxed));
}

#[test]
fn new_settings_publish_the_loaded_flag() {
    let config = Config {
        auto_stop_when_idle: true,
        ..Config::default()
    };
    let settings = Settings::new(config, PathBuf::from("config"));
    assert!(settings.auto_stop().load(Ordering::Relaxed));
}

#[test]
fn empty_xdg_config_home_means_home_config() {
    assert_eq!(config_base(None), ConfigBase::HomeConfig);
    assert_eq!(config_base(Some("")), ConfigBase::HomeConfig);
    assert_eq!(config_base(Some("/xdg")), ConfigBase::XdgConfigHome);
    assert_eq!(CONFIG_FILE, "waydroid-tray/config");
}
