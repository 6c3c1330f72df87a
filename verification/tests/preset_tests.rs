use lanscanner::ipv4::parse_ipv4_subnet;
use lanscanner::credential::Credential;
use lanscanner::launch_mode::{
    sample_containers, sample_devices, sample_networks, scene_preset, VisualModalPreset,
    VisualScene,
};
use lanscanner::platform::{AppLanguage, Platform};
use lanscanner::scanner::{
    default_device_id, Device, DeviceIdentityKind, DeviceType, ProbeOutcome, ScanAction, ScanFlow,
};
use lanscanner::ssh_auth::{
    DeviceStatus, ExistingKeyProbeOutcome, LaunchAuthAction, LaunchAuthConsumer, LaunchAuthEvent,
    LaunchAuthFlow, LaunchAuthPreparation,
};
use lanscanner::ssh_config::{update_ssh_config_with_rollback, RollbackStep};
use lanscanner::ssh_keys::{needs_temporary_key_copy, temporary_key_file_name};

fn credential(username: &str, password: Option<&str>) -> Credential {
    Credential {
        id: format!("custom:{username}"),
        username: username.to_string(),
        password: password.map(|p| p.to_string()),
        is_preset: false,
        can_delete: true,
    }
}

#[test]
fn idle_scene_shows_an_empty_form_in_chinese() {
    let preset = scene_preset(VisualScene::Idle, &[credential("root", Some("pw"))]);
    assert_eq!(preset.language, AppLanguage::Chinese);
    assert!(!preset.dark_mode);
    assert_eq!(preset.networks.len(), 3);
    assert_eq!(preset.networks[1].name, "以太网 (Office)");
    assert_eq!(preset.selected_network_id.as_deref(), Some("wifi0"));
    assert!(preset.devices.is_empty());
    assert_eq!(preset.selected_username, None);
    assert_eq!(preset.ssh_username, "");
    assert_eq!(preset.password, "");
    assert!(matches!(preset.modal, VisualModalPreset::Closed));
}

#[test]
fn scanning_scene_fills_the_default_user_and_progress() {
    let creds = vec![credential("pi", None), credential("root", Some("toor"))];
    let preset = scene_preset(VisualScene::Scanning, &creds);
    assert!(preset.is_scanning);
    assert_eq!(preset.scan_progress, Some((26, 128)));
    assert_eq!(preset.selected_username.as_deref(), Some("root"));
    assert_eq!(preset.ssh_username, "root");
    assert_eq!(preset.password, "toor");
}

#[test]
fn device_scenes_select_the_ready_device() {
    let preset = scene_preset(VisualScene::SelectedDevice, &[]);
    assert_eq!(preset.language, AppLanguage::English);
    assert!(preset.has_scanned);
    assert_eq!(preset.devices.len(), 4);
    assert_eq!(preset.selected_device_id.as_deref(), Some("192.168.31.12"));
    assert_eq!(preset.ssh_username, "root");
    assert_eq!(preset.password, "demo-password");
    assert!(preset.vnc_enabled);
    assert_eq!(preset.vnc_user, "vnc-operator");

    let help = scene_preset(VisualScene::HelpModalDark, &[]);
    assert!(help.dark_mode);
    assert_eq!(help.vnc_password, "optional-pass");
    assert!(matches!(help.modal, VisualModalPreset::Help { show_rustdesk_section: true }));
}

#[test]
fn docker_scene_offers_the_sample_containers() {
    let preset = scene_preset(VisualScene::DockerModal, &[]);
    match preset.modal {
        VisualModalPreset::Docker { containers, selected_container_id } => {
            assert_eq!(containers.len(), 2);
            assert_eq!(containers[0].status, "Up 3 hours");
            assert_eq!(selected_container_id.as_deref(), Some("b8f4d1f0a0aa"));
        }
        other => panic!("unexpected {other:?}"),
    }
}

#[test]
fn user_and_credential_scenes_prefer_their_own_names() {
    let creds = vec![credential("admin", None), credential("pi", Some("raspberry"))];
    let dropdown = scene_preset(VisualScene::UserDropdown, &creds);
    assert!(dropdown.user_dropdown_open);
    assert_eq!(dropdown.ssh_username, "pi");
    assert_eq!(dropdown.password, "raspberry");

    let rustdesk = scene_preset(VisualScene::RustDeskCredential, &creds);
    assert_eq!(rustdesk.ssh_username, "admin");
    assert_eq!(rustdesk.password, "");

    let editing = scene_preset(VisualScene::CredentialEditing, &creds);
    assert_eq!(editing.editing_credential_username.as_deref(), Some("pi"));
    assert_eq!(editing.new_credential_username, "pi");
    assert_eq!(editing.new_credential_password, "new-password");
    assert_eq!(editing.ssh_username, "admin");
    assert!(matches!(editing.modal, VisualModalPreset::Credential));

    let verifying = scene_preset(VisualScene::Verifying, &creds);
    assert_eq!(verifying.verify_progress, Some((1, 3)));
    assert_eq!(
        verifying.notice.as_deref(),
        Some("Scan complete. Automatically verifying SSH credentials")
    );
}

#[test]
fn sample_data_and_default_device() {
    assert_eq!(sample_networks(AppLanguage::English)[1].name, "Ethernet (Office)");
    assert_eq!(sample_containers(AppLanguage::Chinese)[1].status, "20 分钟前退出（0）");
    let devices = sample_devices();
    assert_eq!(default_device_id(&devices).as_deref(), Some("192.168.31.12"));
    let untested = vec![Device {
        id: "a".to_string(),
        name: "A".to_string(),
        ip: "a".to_string(),
        identity_kind: DeviceIdentityKind::Unknown,
        device_type: DeviceType::Laptop,
        status: DeviceStatus::Untested,
    }];
    assert_eq!(default_device_id(&untested).as_deref(), Some("a"));
    assert_eq!(default_device_id(&[]), None);
}

#[test]
fn every_scene_file_name_parses_back() {
    for scene in VisualScene::minimal_set() {
        let stem = scene.file_name().strip_suffix(".png").unwrap();
        assert_eq!(VisualScene::parse(stem), Some(scene));
    }
    assert_eq!(VisualScene::parse(" Help-Modal-DARK "), Some(VisualScene::HelpModalDark));
    assert_eq!(VisualScene::parse("help"), None);
}

#[test]
fn preparation_without_password_never_bootstraps_a_key() {
    let (mut flow, _) = LaunchAuthFlow::new("10.0.0.4", "pi", Some("   "), LaunchAuthConsumer::Shell);
    assert_eq!(flow.password, None);
    assert_eq!(flow.step(LaunchAuthEvent::KeysListed(Ok(2))), LaunchAuthAction::ProbeExistingKeys);
    let action = flow.step(LaunchAuthEvent::ExistingKeysProbed(ExistingKeyProbeOutcome::AllFailed {
        reason: "no key works".to_string(),
    }));
    assert_eq!(
        action,
        LaunchAuthAction::Finish(LaunchAuthPreparation::HardFailure { reason: "no key works".to_string() })
    );
    assert_eq!(flow.password, None);

    let (mut flow, _) = LaunchAuthFlow::new("10.0.0.4", "pi", None, LaunchAuthConsumer::VscodeLike);
    assert!(matches!(
        flow.step(LaunchAuthEvent::KeysListed(Ok(0))),
        LaunchAuthAction::Finish(LaunchAuthPreparation::HardFailure { .. })
    ));
}

#[test]
fn sweep_accepts_only_hosts_of_its_round() {
    let cands = vec!["192.168.1.10".to_string(), "192.168.1.11".to_string()];
    let (flow, action) = ScanFlow::new("192.168.1.2", "192.168.1.0/24", &cands);
    assert!(matches!(action, ScanAction::RunRound(_)));
    let ten = (192u32 << 24) | (168 << 16) | (1 << 8) | 10;
    let stranger = (192u32 << 24) | (168 << 16) | (1 << 8) | 99;
    assert!(flow.accepts(&vec![(ten, ProbeOutcome::Open)]));
    assert!(!flow.accepts(&vec![(ten, ProbeOutcome::Open), (stranger, ProbeOutcome::Open)]));
}

#[test]
fn rollback_writes_back_or_removes() {
    let (_, rollback) = update_ssh_config_with_rollback(
        "/home/u/.ssh/config".to_string(),
        Some("Host old\n".to_string()),
        "root-1-2-3-4",
        "1.2.3.4",
        "root",
        "/k",
    );
    assert_eq!(rollback.restoration(), RollbackStep::Restore("Host old\n".to_string()));
    let (_, rollback) =
        update_ssh_config_with_rollback("/c".to_string(), None, "h", "1.2.3.4", "root", "/k");
    assert_eq!(rollback.restoration(), RollbackStep::Remove);
}

#[test]
fn windows_copies_user_keys_under_a_safe_name() {
    assert!(needs_temporary_key_copy(Platform::Windows, "C:/Users/u/.ssh/id_rsa"));
    assert!(!needs_temporary_key_copy(Platform::Windows, "C:/Users/u/.ssh/lanscanner_id_rsa"));
    assert!(!needs_temporary_key_copy(Platform::Linux, "/home/u/.ssh/id_rsa"));
    assert_eq!(
        temporary_key_file_name(0xab, Some("my key+1.pem")),
        "lanscanner_external_00000000000000ab_my-key-1.pem"
    );
    assert_eq!(
        temporary_key_file_name(u64::MAX, None),
        "lanscanner_external_ffffffffffffffff_id_key"
    );
}

#[test]
fn subnets_follow_the_ipnet_grammar() {
    let n = parse_ipv4_subnet("001.2.3.4/05").unwrap();
    assert_eq!(n.addr(), (1 << 24) | (2 << 16) | (3 << 8) | 4);
    assert_eq!(n.prefix_len(), 5);
    assert!(parse_ipv4_subnet("1.2.3.4/").is_none());
    assert!(parse_ipv4_subnet("1.2.3.4/024").is_none());
    assert!(parse_ipv4_subnet("1.2.3.4.5/24").is_none());
    assert!(parse_ipv4_subnet("1.2.3.1234/24").is_none());
    assert!(parse_ipv4_subnet("1.2.3.256/24").is_none());
    assert!(parse_ipv4_subnet(" 1.2.3.4/24").is_none());
    assert!(parse_ipv4_subnet("1.2.3.4/24 ").is_none());
    assert!(parse_ipv4_subnet("1.2.3/24").is_none());
    assert!(parse_ipv4_subnet("1.2.3.4/32").is_some());
    assert!(parse_ipv4_subnet("1.2.3.4/33").is_none());
}
