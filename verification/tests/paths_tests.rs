use hub_installer::paths::{
    desktop_shortcut_path, file_name_from_url, file_name_of_path, join_path, parent_dir,
    preferences_path, start_menu_dir, start_menu_shortcut_path,
};

#[test]
fn url_file_name_takes_last_segment() {
    assert_eq!(
        file_name_from_url("https://example.com/dl/setup-1.2.exe"),
        "setup-1.2.exe".to_string()
    );
    assert_eq!(file_name_from_url("no-slash-at-all"), "no-slash-at-all".to_string());
}

#[test]
fn url_file_name_falls_back_to_generic_name() {
    assert_eq!(file_name_from_url("https://example.com/dl/"), "installer.bin".to_string());
    assert_eq!(file_name_from_url(""), "installer.bin".to_string());
}

#[test]
fn path_file_name_last_component() {
    assert_eq!(file_name_of_path("C:\\tools\\app.exe"), Some("app.exe".to_string()));
    assert_eq!(file_name_of_path("/opt/pkg/setup.msi"), Some("setup.msi".to_string()));
    assert_eq!(file_name_of_path("plain.bin"), Some("plain.bin".to_string()));
    assert_eq!(file_name_of_path("dir/"), Some("dir".to_string()));
}

#[test]
fn path_file_name_missing_cases() {
    assert_eq!(file_name_of_path(""), None);
    assert_eq!(file_name_of_path("/"), None);
    assert_eq!(file_name_of_path("C:\\a\\.."), None);
    assert_eq!(file_name_of_path("C:\\a\\."), None);
}

#[test]
fn parent_dir_cases() {
    assert_eq!(parent_dir("C:\\tools\\app.exe"), Some("C:\\tools".to_string()));
    assert_eq!(parent_dir("/opt/pkg/app"), Some("/opt/pkg".to_string()));
    assert_eq!(parent_dir("app.exe"), None);
    assert_eq!(parent_dir(""), None);
    assert_eq!(parent_dir("/app"), Some("".to_string()));
}

#[test]
fn shortcut_paths_follow_the_naming_scheme() {
    assert_eq!(
        desktop_shortcut_path("C:\\Users\\u\\Desktop", "\\", "My Game"),
        "C:\\Users\\u\\Desktop\\My Game.lnk".to_string()
    );
    assert_eq!(
        start_menu_dir("C:\\Users\\u\\AppData\\Roaming", "\\"),
        "C:\\Users\\u\\AppData\\Roaming\\Microsoft\\Windows\\Start Menu\\Programs\\Enderfall"
            .to_string()
    );
    assert_eq!(
        start_menu_shortcut_path("C:\\Users\\u\\AppData\\Roaming", "\\", "My Game"),
        "C:\\Users\\u\\AppData\\Roaming\\Microsoft\\Windows\\Start Menu\\Programs\\Enderfall\\My Game.lnk"
            .to_string()
    );
}

#[test]
fn preferences_path_is_vendor_scoped() {
    assert_eq!(
        preferences_path("C:\\Users\\u\\AppData\\Local", "\\"),
        "C:\\Users\\u\\AppData\\Local\\EnderFall\\Hub\\preferences.json".to_string()
    );
    assert_eq!(
        preferences_path("/home/u/.local/share", "/"),
        "/home/u/.local/share/EnderFall/Hub/preferences.json".to_string()
    );
}

#[test]
fn join_path_concatenates() {
    assert_eq!(join_path("/tmp/dl", "/", "setup.exe"), "/tmp/dl/setup.exe".to_string());
}
