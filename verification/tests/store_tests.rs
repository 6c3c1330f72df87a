use lanscanner::credential::{
    credential_id, credentials_from_config, find_by_username, is_preset_username,
    is_removable_preset, preset_credentials, preset_usernames, username_from_id,
};
use lanscanner::store::{
    add_credential, config_path, home_dir_from, join_path, known_hosts_path, remove_credential,
    save_app_path, system_known_hosts_path, system_ssh_config_path, update_credential_password,
    AppConfig, AppPaths, CredentialConfig, PasswordMap, StoreError, ToolKind,
};

fn passwords(pairs: &[(&str, &str)]) -> PasswordMap {
    let mut map = PasswordMap::new();
    for (k, v) in pairs {
        map.insert(k.to_string(), v.to_string());
    }
    map
}

#[test]
fn round_trips_json_config() {
    let config = AppConfig {
        credentials: CredentialConfig {
            usernames: vec![String::from("alice"), String::from("bob")],
            passwords: passwords(&[("alice", "secret"), ("root", "admin123")]),
            removed_presets: vec![String::from("jetson"), String::from("ubuntu")],
        },
        app_paths: AppPaths {
            vscode: Some(String::from("/opt/code")),
            mobaxterm: None,
            vncviewer: Some(String::from("/opt/vnc")),
            rustdesk: Some(String::from("/opt/rustdesk")),
        },
    };

    let json = config.to_json_string();
    let parsed = AppConfig::from_json_str(&json).expect("config should parse");

    assert_eq!(parsed, config);
}

#[test]
fn parses_sample_shape() {
    let parsed = AppConfig::from_json_str(
        r#"{
  "credentials": {
    "usernames": ["custom_user1"],
    "passwords": {"custom_user1": "pass123"}
  },
  "app_paths": {
    "vscode": null,
    "mobaxterm": null,
    "vncviewer": null,
    "rustdesk": null
  }
}"#,
    )
    .expect("sample config should parse");

    assert_eq!(
        parsed.credentials.usernames,
        vec![String::from("custom_user1")]
    );
    assert_eq!(
        parsed.credentials.passwords.get("custom_user1"),
        Some(String::from("pass123"))
    );
    assert!(parsed.credentials.removed_presets.is_empty());
    assert_eq!(parsed.app_paths, AppPaths::default());
}

#[test]
fn filters_unknown_removed_presets() {
    let parsed = AppConfig::from_json_str(
        r#"{
  "credentials": {
    "usernames": [],
    "passwords": {},
    "removed_presets": ["pi", "root", "ubuntu", "pi"]
  },
  "app_paths": {
    "vscode": null,
    "mobaxterm": null,
    "vncviewer": null,
    "rustdesk": null
  }
}"#,
    )
    .expect("config should parse");

    assert_eq!(
        parsed.credentials.removed_presets,
        vec![
            String::from("pi"),
            String::from("root"),
            String::from("ubuntu")
        ]
    );
}

#[test]
fn default_config_writes_the_documented_layout() {
    let json = AppConfig::default().to_json_string();
    assert_eq!(
        json,
        "{\n  \"credentials\": {\n    \"usernames\": [],\n    \"passwords\": {},\n    \"removed_presets\": []\n  },\n  \"app_paths\": {\n    \"vscode\": null,\n    \"mobaxterm\": null,\n    \"vncviewer\": null,\n    \"rustdesk\": null\n  }\n}\n"
    );
    assert_eq!(AppConfig::from_json_str(&json).unwrap(), AppConfig::default());
}

#[test]
fn escapes_quotes_backslashes_and_control_characters() {
    let mut config = AppConfig::default();
    config.credentials.usernames = vec![String::from("a\"b\\c\u{1}")];
    let json = config.to_json_string();
    assert!(json.contains("\"a\\\"b\\\\c\\u0001\""));
    assert_eq!(AppConfig::from_json_str(&json).unwrap(), config);
}

#[test]
fn parser_reads_escapes_and_keeps_the_last_repeated_key() {
    let parsed = AppConfig::from_json_str(
        "{\"credentials\": {\"passwords\": {\"u\": \"one\", \"u\": \"t\\u0077o\\n\"}}, \"app_paths\": {\"vscode\": \"C:\\\\code\"}}",
    )
    .unwrap();
    assert_eq!(parsed.credentials.passwords.get("u"), Some(String::from("two\n")));
    assert_eq!(parsed.app_paths.vscode, Some(String::from("C:\\code")));
    assert!(parsed.credentials.usernames.is_empty());
}

#[test]
fn parser_rejects_malformed_documents() {
    for text in [
        "",
        "[]",
        "{}",
        "{\"credentials\": {}}",
        "{\"credentials\": [], \"app_paths\": {}}",
        "{\"credentials\": {\"usernames\": [1]}, \"app_paths\": {}}",
        "{\"credentials\": {\"usernames\": [null]}, \"app_paths\": {}}",
        "{\"credentials\": {\"passwords\": {\"a\": null}}, \"app_paths\": {}}",
        "{\"credentials\": {}, \"app_paths\": {\"vscode\": []}}",
        "{\"credentials\": {}, \"app_paths\": {}} extra",
        "{\"credentials\": {}, \"app_paths\": {},}",
        "{\"credentials\": {\"usernames\": [\"\\ud800\"]}, \"app_paths\": {}}",
        "{\"credentials\": {\"usernames\": [\"\\q\"]}, \"app_paths\": {}}",
        "{\"credentials\": {\"usernames\": [\"open",
    ] {
        let result = AppConfig::from_json_str(text);
        assert!(matches!(result, Err(StoreError::Parse(_))), "{text}");
    }
}

#[test]
fn parser_accepts_plus_sign_hex_escape() {
    let parsed = AppConfig::from_json_str(
        "{\"credentials\": {\"usernames\": [\"\\u+041\"]}, \"app_paths\": {}}",
    )
    .unwrap();
    assert_eq!(parsed.credentials.usernames, vec![String::from("A")]);
}

#[test]
fn password_map_keeps_keys_sorted_and_unique() {
    let mut map = passwords(&[("root", "1"), ("admin", "2"), ("root", "3")]);
    assert_eq!(map.len(), 2);
    assert_eq!(map.get("root"), Some(String::from("3")));
    assert_eq!(map.entries()[0].0, "admin");
    map.remove("admin");
    assert_eq!(map.get("admin"), None);
    assert_eq!(map.len(), 1);
    assert!(!map.is_empty());
    assert!(map.contains_key("root"));
}

#[test]
fn tool_labels_and_paths() {
    assert_eq!(ToolKind::Vscode.label(), "VS Code");
    assert_eq!(ToolKind::RustDesk.label(), "RustDesk");
    let mut paths = AppPaths::default();
    paths.set_path(ToolKind::Vscode, Some(String::from("  /opt/code  ")));
    assert_eq!(paths.vscode, Some(String::from("/opt/code")));
    assert_eq!(paths.path_for(ToolKind::Vscode), Some(String::from("/opt/code")));
    paths.set_path(ToolKind::Vscode, Some(String::from("   ")));
    assert_eq!(paths.path_for(ToolKind::Vscode), None);
    paths.mobaxterm = Some(String::from(" moba "));
    assert_eq!(paths.path_buf_for(ToolKind::Mobaxterm), Some(String::from("moba")));
    let config = save_app_path(AppConfig::default(), ToolKind::VncViewer, Some(String::from("/vnc")));
    assert_eq!(config.app_paths.vncviewer, Some(String::from("/vnc")));
}

#[test]
fn adding_credentials_sorts_names_and_trims_passwords() {
    let config = add_credential(AppConfig::default(), "  zed ", Some(" pw ")).unwrap();
    let config = add_credential(config, "amy", None).unwrap();
    assert_eq!(config.credentials.usernames, vec![String::from("amy"), String::from("zed")]);
    assert_eq!(config.credentials.passwords.get("zed"), Some(String::from("pw")));
    assert_eq!(config.credentials.passwords.get("amy"), None);
    let err = add_credential(AppConfig::default(), "   ", None).unwrap_err();
    assert_eq!(err.message(), "credential username cannot be empty");
}

#[test]
fn preset_password_brings_a_hidden_preset_back() {
    let config = remove_credential(AppConfig::default(), "preset:root").unwrap();
    assert_eq!(config.credentials.removed_presets, vec![String::from("root")]);
    let config = add_credential(config, "root", Some("toor")).unwrap();
    assert!(config.credentials.removed_presets.is_empty());
    assert!(config.credentials.usernames.is_empty());
    assert_eq!(config.credentials.passwords.get("root"), Some(String::from("toor")));
}

#[test]
fn updating_passwords_needs_a_known_credential() {
    let err = update_credential_password(AppConfig::default(), "ghost", "pw").unwrap_err();
    assert_eq!(err.message(), "credential `ghost` does not exist");
    let err = update_credential_password(AppConfig::default(), "root", "  ").unwrap_err();
    assert_eq!(err.message(), "credential password cannot be empty");
    let config = update_credential_password(AppConfig::default(), " pi ", " raspberry ").unwrap();
    assert_eq!(config.credentials.passwords.get("pi"), Some(String::from("raspberry")));
}

#[test]
fn removing_a_custom_credential_forgets_its_password() {
    let config = add_credential(AppConfig::default(), "bob", Some("pw")).unwrap();
    let config = remove_credential(config, "custom:bob").unwrap();
    assert!(config.credentials.usernames.is_empty());
    assert_eq!(config.credentials.passwords.get("bob"), None);
    let err = remove_credential(AppConfig::default(), "custom:").unwrap_err();
    assert_eq!(err.message(), "credential id cannot be empty");
}

#[test]
fn credential_ids_round_trip() {
    assert_eq!(credential_id("root", true), "preset:root");
    assert_eq!(credential_id("bob", false), "custom:bob");
    assert_eq!(username_from_id("custom:bob"), "bob");
    assert_eq!(username_from_id("custom:a:b"), "a:b");
    assert_eq!(username_from_id("plain"), "plain");
    assert!(is_preset_username("jetson"));
    assert!(!is_preset_username("bob"));
    assert!(is_removable_preset("sunrise"));
    assert_eq!(preset_usernames().len(), 6);
    assert_eq!(preset_credentials()[0].id, "preset:root");
}

#[test]
fn credentials_list_visible_presets_then_sorted_custom_names() {
    let config = add_credential(AppConfig::default(), "zed", Some("z")).unwrap();
    let config = add_credential(config, "amy", None).unwrap();
    let config = remove_credential(config, "preset:admin").unwrap();
    let config = add_credential(config, "pi", Some("raspberry")).unwrap();
    let list = credentials_from_config(&config);
    let names: Vec<&str> = list.iter().map(|c| c.username.as_str()).collect();
    assert_eq!(names, vec!["root", "pi", "jetson", "ubuntu", "sunrise", "amy", "zed"]);
    assert_eq!(list[1].password, Some(String::from("raspberry")));
    assert_eq!(list[6].id, "custom:zed");
    assert!(!list[6].is_preset);
    let found = find_by_username(&list, "zed").unwrap();
    assert_eq!(found.password, Some(String::from("z")));
    assert!(find_by_username(&list, "admin").is_none());
}

#[test]
fn configuration_paths_live_under_home() {
    assert_eq!(config_path("/home/u"), "/home/u/.lanscanner/config.json");
    assert_eq!(known_hosts_path("/home/u/"), "/home/u/.lanscanner/known_hosts");
    assert_eq!(system_ssh_config_path("/home/u"), "/home/u/.ssh/config");
    assert_eq!(system_known_hosts_path("/home/u"), "/home/u/.ssh/known_hosts");
    assert_eq!(join_path("/a", "/b"), "/b");
    assert_eq!(join_path("", "b"), "b");
    assert_eq!(
        home_dir_from(None, None, Some(String::from("C:")), Some(String::from("Users"))),
        "C:/Users"
    );
    assert_eq!(home_dir_from(None, None, None, None), ".");
    assert_eq!(home_dir_from(Some(String::from("/h")), Some(String::from("/u")), None, None), "/h");
}

#[test]
fn names_past_latin_1_do_not_survive_a_round_trip() {
    let mut config = AppConfig::default();
    config.credentials.usernames = vec![String::from("josé")];
    let json = config.to_json_string();
    let parsed = AppConfig::from_json_str(&json).expect("config should parse");
    assert_eq!(parsed.credentials.usernames, vec![String::from("josÃ©")]);
}
