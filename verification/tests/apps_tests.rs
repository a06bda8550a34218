use waydroid_tray::apps::{apps_from_launchers, desktop_entry, field_value, launcher_entry, launcher_package, sort_apps, sort_by_keys, AppEntry};

fn app(name: &str, package: &str) -> AppEntry {
    AppEntry {
        name: name.to_string(),
        package: package.to_string(),
        icon: String::new(),
    }
}

const LAUNCHER: &str = "[Desktop Entry]\nType=Application\nName = Files \nIcon=/icons/files.png\nExec=waydroid app launch com.android.documentsui\n\n[Desktop Action open]\nName=Open\n";

#[test]
fn only_the_desktop_entry_group_is_read() {
    let fields = desktop_entry(LAUNCHER);
    let pairs: Vec<(&str, &str)> = fields.iter().map(|(k, v)| (k.as_str(), v.as_str())).collect();
    assert_eq!(
        pairs,
        [
            ("Type", "Application"),
            ("Name", "Files"),
            ("Icon", "/icons/files.png"),
            ("Exec", "waydroid app launch com.android.documentsui"),
        ]
    );
    assert_eq!(field_value(&fields, "Name").map(String::as_str), Some("Files"));
    assert_eq!(field_value(&fields, "NoDisplay"), None);
}

#[test]
fn a_later_key_wins() {
    let fields = desktop_entry("[Desktop Entry]\nName=A\nName=B\n");
    assert_eq!(field_value(&fields, "Name").map(String::as_str), Some("B"));
}

#[test]
fn launcher_names_give_the_package() {
    let files = launcher_entry("waydroid.com.android.documentsui.desktop", LAUNCHER).unwrap();
    assert_eq!(
        files,
        AppEntry {
            name: "Files".into(),
            package: "com.android.documentsui".into(),
            icon: "/icons/files.png".into(),
        }
    );
    assert_eq!(launcher_entry("firefox.desktop", LAUNCHER), None);
    assert_eq!(launcher_entry("waydroid.desktop", LAUNCHER), None);
    assert_eq!(launcher_entry("waydroid.x.desktop.bak", LAUNCHER), None);
}

#[test]
fn name_defaults_to_the_package() {
    let entry = launcher_entry("waydroid.org.example.desktop", "[Desktop Entry]\nExec=x\n").unwrap();
    assert_eq!(entry, app("org.example", "org.example"));
}

#[test]
fn hidden_apps_stay_hidden() {
    let hidden = "[Desktop Entry]\nName=Hidden\nNoDisplay=TRUE\n";
    assert_eq!(launcher_entry("waydroid.a.desktop", hidden), None);
    let shown = "[Desktop Entry]\nName=Shown\nNoDisplay=false\n";
    assert!(launcher_entry("waydroid.a.desktop", shown).is_some());
    let action_only = "[Desktop Entry]\nName=Shown\n[Desktop Action x]\nNoDisplay=true\n";
    assert!(launcher_entry("waydroid.a.desktop", action_only).is_some());
}

#[test]
fn apps_are_sorted_by_name_ignoring_case() {
    let sorted = sort_apps(vec![app("b", "1"), app("A", "2"), app("a", "3"), app("C", "4")]);
    let packages: Vec<&str> = sorted.iter().map(|a| a.package.as_str()).collect();
    assert_eq!(packages, ["2", "3", "1", "4"]);
}

#[test]
fn launchers_become_a_sorted_app_list() {
    let files = vec![
        ("waydroid.z.desktop".to_string(), "[Desktop Entry]\nName=zebra\n".to_string()),
        ("other.desktop".to_string(), "[Desktop Entry]\nName=Other\n".to_string()),
        ("waydroid.h.desktop".to_string(), "[Desktop Entry]\nName=H\nNoDisplay=true\n".to_string()),
        ("waydroid.a.desktop".to_string(), "[Desktop Entry]\nName=Apple\n".to_string()),
    ];
    let apps = apps_from_launchers(&files);
    assert_eq!(apps, vec![app("Apple", "a"), app("zebra", "z")]);
}

#[test]
fn sorting_by_keys_is_stable() {
    let apps = vec![app("x", "1"), app("y", "2"), app("z", "3"), app("w", "4")];
    let keys = vec!["b".to_string(), "a".to_string(), "b".to_string(), "".to_string()];
    let packages: Vec<String> = sort_by_keys(apps, keys).into_iter().map(|a| a.package).collect();
    assert_eq!(packages, ["4", "2", "1", "3"]);
}

#[test]
fn non_ascii_names_sort_by_their_lower_case() {
    let sorted = sort_apps(vec![app("Ünter", "1"), app("über", "2"), app("Zed", "3")]);
    let packages: Vec<&str> = sorted.iter().map(|a| a.package.as_str()).collect();
    assert_eq!(packages, ["3", "2", "1"]);
}

#[test]
fn package_comes_from_the_file_name() {
    assert_eq!(launcher_package("waydroid.org.fdroid.fdroid.desktop").as_deref(), Some("org.fdroid.fdroid"));
    assert_eq!(launcher_package("waydroid.desktop"), None);
}
