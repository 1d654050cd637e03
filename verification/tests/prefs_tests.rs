use hub_installer::prefs::{HubPreferences, HubPreferencesUpdate};
use hub_installer::prefs_codec::{decode_preferences, encode_preferences, load_preferences};

fn sample() -> HubPreferences {
    HubPreferences {
        open_on_startup: true,
        close_to_tray: false,
        minimize_to_tray: true,
        install_dir: Some("C:\\Program Files\\EnderFall".to_string()),
        installer_type: Some("msi".to_string()),
    }
}

#[test]
fn apply_update_overwrites_only_present_fields() {
    let prior = sample();
    let update = HubPreferencesUpdate {
        open_on_startup: None,
        close_to_tray: Some(true),
        minimize_to_tray: None,
    };
    let merged = prior.apply_update(&update);
    assert_eq!(merged.close_to_tray, true);
    assert_eq!(merged.open_on_startup, prior.open_on_startup);
    assert_eq!(merged.minimize_to_tray, prior.minimize_to_tray);
    assert_eq!(merged.install_dir, prior.install_dir);
    assert_eq!(merged.installer_type, prior.installer_type);
}

#[test]
fn encode_default_record_exact_text() {
    let text = encode_preferences(&HubPreferences::default());
    assert_eq!(
        text,
        "{\n  \"openOnStartup\": false,\n  \"closeToTray\": false,\n  \"minimizeToTray\": false\n}"
            .to_string()
    );
}

#[test]
fn encode_writes_every_field_of_a_full_record() {
    let text = encode_preferences(&sample());
    assert_eq!(
        text,
        "{\n  \"openOnStartup\": true,\n  \"closeToTray\": false,\n  \"minimizeToTray\": true,\n  \"installDir\": \"C:\\\\Program Files\\\\EnderFall\",\n  \"installerType\": \"msi\"\n}"
            .to_string()
    );
}

#[test]
fn encoded_document_is_valid_json_for_other_readers() {
    let text = encode_preferences(&sample());
    let value: serde_json::Value = serde_json::from_str(&text).unwrap();
    assert_eq!(value.get("openOnStartup").and_then(|v| v.as_bool()), Some(true));
    assert_eq!(value.get("closeToTray").and_then(|v| v.as_bool()), Some(false));
    assert_eq!(value.get("minimizeToTray").and_then(|v| v.as_bool()), Some(true));
    assert_eq!(
        value.get("installDir").and_then(|v| v.as_str()),
        Some("C:\\Program Files\\EnderFall")
    );
    assert_eq!(value.get("installerType").and_then(|v| v.as_str()), Some("msi"));
}

#[test]
fn decode_reads_documents_written_by_other_serializers() {
    // A different writer sorts keys and uses four-space indentation.
    let mut map = serde_json::Map::new();
    map.insert("closeToTray".to_string(), serde_json::Value::Bool(true));
    map.insert("installDir".to_string(), serde_json::Value::String("D:\\Apps".to_string()));
    map.insert("minimizeToTray".to_string(), serde_json::Value::Bool(false));
    map.insert("openOnStartup".to_string(), serde_json::Value::Bool(true));
    let text = serde_json::to_string_pretty(&serde_json::Value::Object(map)).unwrap();
    let decoded = decode_preferences(&text).unwrap();
    assert_eq!(decoded.open_on_startup, true);
    assert_eq!(decoded.close_to_tray, true);
    assert_eq!(decoded.minimize_to_tray, false);
    assert_eq!(decoded.install_dir, Some("D:\\Apps".to_string()));
    assert_eq!(decoded.installer_type, None);
}

#[test]
fn decode_inverts_encode() {
    let records = vec![
        HubPreferences::default(),
        sample(),
        HubPreferences {
            open_on_startup: false,
            close_to_tray: true,
            minimize_to_tray: false,
            install_dir: Some("dir with \"quotes\" and \\slashes\\ and\ttabs".to_string()),
            installer_type: None,
        },
        HubPreferences {
            open_on_startup: false,
            close_to_tray: false,
            minimize_to_tray: false,
            install_dir: Some("control\u{1}\u{1f}chars".to_string()),
            installer_type: Some("exe".to_string()),
        },
    ];
    for record in records {
        let text = encode_preferences(&record);
        assert_eq!(decode_preferences(&text), Some(record));
    }
}

#[test]
fn decode_tolerates_compact_form_and_unknown_scalar_fields() {
    let decoded = decode_preferences("{\"theme\":\"dark\",\"volume\":0.5,\"openOnStartup\":true}")
        .unwrap();
    assert_eq!(decoded.open_on_startup, true);
    assert_eq!(decoded.close_to_tray, false);
    assert_eq!(decoded.install_dir, None);
    let empty = decode_preferences("  { }  ").unwrap();
    assert_eq!(empty, HubPreferences::default());
    let with_null = decode_preferences("{\"installDir\": null}").unwrap();
    assert_eq!(with_null.install_dir, None);
}

#[test]
fn decode_refuses_corrupt_documents() {
    assert_eq!(decode_preferences(""), None);
    assert_eq!(decode_preferences("not json at all"), None);
    assert_eq!(decode_preferences("{\"openOnStartup\": \"yes\"}"), None);
    assert_eq!(decode_preferences("{\"openOnStartup\": true,"), None);
    assert_eq!(decode_preferences("{\"openOnStartup\": true} trailing"), None);
    assert_eq!(decode_preferences("{\"openOnStartup\": true, \"openOnStartup\": false}"), None);
    assert_eq!(decode_preferences("{\"nested\": {\"a\": 1}}"), None);
    assert_eq!(decode_preferences("[1, 2]"), None);
}

#[test]
fn save_then_load_round_trips_every_field() {
    // A partial update is merged, persisted in full, and the untouched
    // document loads back as exactly the merged record, overrides included.
    let prior = sample();
    let update = HubPreferencesUpdate {
        open_on_startup: Some(false),
        close_to_tray: Some(true),
        minimize_to_tray: None,
    };
    let merged = prior.apply_update(&update);
    let written = encode_preferences(&merged);
    assert_eq!(load_preferences(Some(&written)), merged);
    assert_eq!(merged.install_dir, prior.install_dir);
    assert_eq!(merged.installer_type, prior.installer_type);
}

#[test]
fn load_returns_defaults_for_missing_or_corrupt_file() {
    assert_eq!(load_preferences(None), HubPreferences::default());
    assert_eq!(load_preferences(Some("{{{")), HubPreferences::default());
    assert_eq!(load_preferences(Some("")), HubPreferences::default());
    let good = encode_preferences(&sample());
    assert_eq!(load_preferences(Some(&good)), sample());
}
