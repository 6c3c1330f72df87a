use lanscanner::ssh_auth::{
    append_system_known_hosts_repair_failure_reason, assemble_external_validation_error,
    classify_existing_key_probe_outcome, classify_username_only_attempt, command_failure_reason,
    compact_user_message, extract_quoted_path, local_openssh_failure_kind,
    looks_like_explicit_rejection, looks_like_username_rejection_error,
    map_username_only_probe_status, map_verify_result_to_device_status,
    maybe_repair_system_known_hosts_for_password_fallback, merge_fallback_reason,
    normalize_whitespace, resolve_scan_verify_mode, summarize_existing_key_attempts,
    summarize_local_openssh_failure, AuthDeniedReason, AuthMethod, AuthOutcome, DeviceStatus,
    ExistingKeyProbeOutcome, KeyReadySource, LaunchAuthAction, LaunchAuthConsumer,
    LaunchAuthEvent, LaunchAuthFlow, LaunchAuthPreparation, LocalOpenSshFailureKind,
    ScanVerifyMode, SshError, UsernameOnlyProbeOutcome,
};
use lanscanner::ssh_config::{
    build_managed_key_host_block, build_password_fallback_host_block, command_failure_message,
    host_alias, known_host_repair_targets, remove_known_host, repair_known_host_mismatch,
    ssh_path, update_ssh_config, update_ssh_config_for_password_fallback,
    update_ssh_config_with_rollback, upsert_host_block, ConfigError,
};
use lanscanner::ssh_keys::{
    build_candidate_private_key_paths, candidate_private_key_paths, install_public_key_command,
    install_result, is_app_managed_key, key_algorithm_for_path, legacy_preserve_path,
    managed_private_key_path, prepare_private_key_for_external_use,
    preserved_legacy_managed_key_paths, public_key_from_file, shell_quote, ssh_keygen_args,
    KeyAlgorithm,
};

fn keys(paths: &[&str]) -> Vec<String> {
    paths.iter().map(|p| p.to_string()).collect()
}

#[test]
fn generates_stable_host_alias() {
    assert_eq!(host_alias("192.168.1.5", "root"), "root-192-168-1-5");
}

#[test]
fn alias_replaces_unusual_user_characters() {
    assert_eq!(host_alias("10.0.0.1", "a.b@c_d-e"), "a-b-c_d-e-10-0-0-1");
}

#[test]
fn replaces_existing_host_block() {
    let existing = "Host other\n  HostName 1.1.1.1\n\nHost target\n  HostName old\n";
    let updated = upsert_host_block(existing, "target", "Host target\n  HostName new\n");

    assert!(updated.contains("Host other"));
    assert!(updated.contains("Host target\n  HostName new"));
    assert!(!updated.contains("HostName old"));
}

#[test]
fn upsert_appends_after_a_blank_line_and_into_an_empty_file() {
    let updated = upsert_host_block("Host a\n  User x", "b", "Host b\n");
    assert_eq!(updated, "Host a\n  User x\n\nHost b\n");
    assert_eq!(upsert_host_block("", "b", "Host b\n"), "Host b\n");
    let twice = upsert_host_block("Host b\n  old\nHost c\n", "b", "Host b\n");
    assert_eq!(twice, "Host c\n\nHost b\n");
}

#[test]
fn managed_host_block_writes_key_only_options_without_custom_known_hosts() {
    let block = build_managed_key_host_block(
        "root-192-168-1-5",
        "192.168.1.5",
        "root",
        "/home/test/.ssh/lanscanner_id_rsa",
    );

    assert!(block.contains("IdentityFile /home/test/.ssh/lanscanner_id_rsa"));
    assert!(block.contains("Port 22"));
    assert!(block.contains("IdentitiesOnly yes"));
    assert!(block.contains("PreferredAuthentications publickey,password"));
    assert!(block.contains("PubkeyAcceptedAlgorithms +ssh-rsa"));
    assert!(block.contains("PubkeyAcceptedKeyTypes +ssh-rsa"));
    assert!(!block.contains("UserKnownHostsFile"));
}

#[test]
fn non_lanscanner_host_block_does_not_write_key_only_options() {
    let block = build_managed_key_host_block(
        "example-host",
        "192.168.1.5",
        "root",
        "/home/test/.ssh/id_ed25519",
    );

    assert!(block.starts_with("Host example-host"));
    assert!(!block.contains("IdentityFile"));
    assert!(!block.contains("IdentitiesOnly"));
}

#[test]
fn password_fallback_host_block_does_not_write_identityfile_or_identities_only() {
    let block = build_password_fallback_host_block("root-192-168-1-5", "192.168.1.5", "root");

    assert!(block.contains("Host root-192-168-1-5"));
    assert!(block.contains("PreferredAuthentications password,publickey"));
    assert!(!block.contains("IdentityFile"));
    assert!(!block.contains("IdentitiesOnly"));
    assert!(!block.contains("UserKnownHostsFile"));
}

#[test]
fn windows_key_paths_use_forward_slashes() {
    assert_eq!(ssh_path("C:\\Users\\leo\\.ssh\\id"), "C:/Users/leo/.ssh/id");
    let text = update_ssh_config(None, "root-1-2-3-4", "1.2.3.4", "root", "C:\\k");
    assert!(text.contains("IdentityFile C:/k\n"));
}

#[test]
fn rollback_keeps_the_previous_text() {
    let (text, rollback) = update_ssh_config_with_rollback(
        String::from("/tmp/config"),
        Some(String::from("Host root-192-168-1-5\n  IdentityFile /old\n")),
        "root-192-168-1-5",
        "192.168.1.5",
        "root",
        "/new",
    );
    assert!(text.contains("IdentityFile /new"));
    assert!(!text.contains("IdentityFile /old"));
    assert_eq!(rollback.config_path(), "/tmp/config");
    assert_eq!(
        rollback.previous_content(),
        Some("Host root-192-168-1-5\n  IdentityFile /old\n")
    );
    let fallback = update_ssh_config_for_password_fallback(None, "h", "1.1.1.1", "u");
    assert!(fallback.starts_with("Host h\n"));
}

#[test]
fn known_hosts_removal_drops_plain_and_bracketed_entries() {
    let original = "10.0.0.8 ssh-ed25519 AAAAplain\nother-host ssh-ed25519 AAAAother\n";
    let updated = remove_known_host(original, "10.0.0.8").unwrap();
    assert!(!updated.contains("10.0.0.8 ssh-ed25519"));
    assert!(updated.contains("other-host ssh-ed25519 AAAAother"));

    let original = "[10.0.0.8]:22 ssh-ed25519 AAAAbracketed\nexample ssh-ed25519 AAAAkeep\n";
    let updated = remove_known_host(original, "10.0.0.8").unwrap();
    assert!(!updated.contains("[10.0.0.8]:22 ssh-ed25519"));
    assert_eq!(updated, "example ssh-ed25519 AAAAkeep\n");

    assert_eq!(remove_known_host("a,b key", "b"), Some(String::new()));
    assert_eq!(remove_known_host("x key", "b"), None);
}

#[test]
fn repair_removes_address_port_and_alias_entries() {
    assert_eq!(
        known_host_repair_targets("10.0.0.8", "root-10-0-0-8"),
        vec!["10.0.0.8", "[10.0.0.8]:22", "root-10-0-0-8"]
    );
    let content = "10.0.0.8 k1\n[10.0.0.8]:22 k2\nroot-10-0-0-8 k3\nkeep k4\n";
    assert_eq!(repair_known_host_mismatch(content, "10.0.0.8", "root-10-0-0-8"), "keep k4\n");
}

#[test]
fn command_failures_prefer_error_output() {
    assert_eq!(command_failure_message(Some(1), " boom \n", "out"), "boom");
    assert_eq!(command_failure_message(Some(1), "", " out "), "out");
    assert_eq!(command_failure_message(Some(-2), "", ""), "exit code -2");
    assert_eq!(command_failure_message(None, "", ""), "terminated by signal");
    assert_eq!(command_failure_reason(None, "a\n  b", ""), "a b");
    assert_eq!(ConfigError::Command(String::from("x")).message(), "x");
}

#[test]
fn summarize_existing_key_attempts_includes_counts_and_details() {
    let keys = keys(&["/tmp/.ssh/lanscanner_id_rsa", "/tmp/.ssh/id_ed25519"]);
    let attempts = vec![
        String::from("/tmp/.ssh/lanscanner_id_rsa 远端未接受该密钥认证"),
        String::from("/tmp/.ssh/id_ed25519 验证失败：permission denied"),
    ];

    let reason = summarize_existing_key_attempts(&keys, &attempts, false);
    assert!(reason.contains("（2/2）"));
    assert!(reason.contains("lanscanner_id_rsa 远端未接受该密钥认证"));
    assert!(reason.contains("id_ed25519 验证失败"));
}

#[test]
fn summarize_existing_key_attempts_marks_timeout_when_unfinished() {
    let keys = keys(&[
        "/tmp/.ssh/lanscanner_id_rsa",
        "/tmp/.ssh/id_ed25519",
        "/tmp/.ssh/id_rsa",
    ]);
    let attempts = vec![String::from(
        "/tmp/.ssh/lanscanner_id_rsa 远端未接受该密钥认证",
    )];

    let reason = summarize_existing_key_attempts(&keys, &attempts, true);
    assert!(reason.contains("（1/3）"));
    assert!(reason.contains("其余密钥因总超时限制未继续尝试"));
}

#[test]
fn summarize_existing_key_attempts_omits_long_tail() {
    let keys = keys(&["/tmp/.ssh/key_alpha", "/tmp/.ssh/key_beta", "/tmp/.ssh/key_gamma"]);
    let attempts = vec![
        String::from("key_alpha 远端未接受该密钥认证"),
        String::from("key_beta 远端未接受该密钥认证"),
        String::from("key_gamma 远端未接受该密钥认证"),
    ];

    let reason = summarize_existing_key_attempts(&keys, &attempts, false);
    assert!(reason.contains("其余 1 项已省略"));
    assert!(!reason.contains("key_gamma 远端未接受该密钥认证"));
}

#[test]
fn summarize_existing_key_attempts_exact_text() {
    let keys = keys(&["a", "b"]);
    let reason = summarize_existing_key_attempts(&keys, &[String::from("x")], false);
    assert_eq!(reason, "已尝试本地已有 SSH 密钥（1/2）：x");
    let none = summarize_existing_key_attempts(&keys, &[], true);
    assert_eq!(none, "尝试本地 SSH 密钥时超时，尚未找到可用于外部工具免密的密钥");
}

#[test]
fn summarize_local_openssh_failure_collapses_bad_permissions_banner() {
    let reason = summarize_local_openssh_failure(
        "Bad permissions. Try removing permissions for user: UNKNOWN\\UNKNOWN on file C:/Users/leo/.ssh/lanscanner_id_rsa.\n@@@@@@@@ WARNING: UNPROTECTED PRIVATE KEY FILE! @@@@@@@@\nPermissions for 'C:/Users/leo/.ssh/lanscanner_id_rsa' are too open.\nLoad key \"C:/Users/leo/.ssh/lanscanner_id_rsa\": bad permissions",
    );

    assert_eq!(
        reason,
        "Windows 私钥权限或格式异常，OpenSSH 已拒绝加载：C:/Users/leo/.ssh/lanscanner_id_rsa"
    );
}

#[test]
fn summarize_local_openssh_failure_other_kinds() {
    assert_eq!(
        summarize_local_openssh_failure("Host key verification failed."),
        "系统 known_hosts 主机指纹冲突（host key mismatch）"
    );
    assert_eq!(
        summarize_local_openssh_failure("Permission denied (publickey)."),
        "远端未接受当前 SSH 公钥"
    );
    assert_eq!(
        summarize_local_openssh_failure("  connection   reset  "),
        "connection reset"
    );
}

#[test]
fn local_openssh_failure_kind_detects_host_key_mismatch() {
    let kind = local_openssh_failure_kind(
        "WARNING: REMOTE HOST IDENTIFICATION HAS CHANGED! Host key verification failed.",
    );
    assert_eq!(kind, LocalOpenSshFailureKind::HostKeyMismatch);
}

#[test]
fn local_openssh_failure_kind_detects_public_key_rejected() {
    let kind = local_openssh_failure_kind("Permission denied (publickey,password).");
    assert_eq!(kind, LocalOpenSshFailureKind::PublicKeyRejected);
}

#[test]
fn local_openssh_failure_kind_detects_public_key_rejected_with_extra_methods() {
    let kind = local_openssh_failure_kind(
        "root@10.0.0.8: Permission denied (publickey,gssapi-keyex,gssapi-with-mic,password).",
    );
    assert_eq!(kind, LocalOpenSshFailureKind::PublicKeyRejected);
}

#[test]
fn local_openssh_failure_kind_detects_public_key_rejected_when_methods_exhausted() {
    let kind = local_openssh_failure_kind(
        "No more authentication methods to try. Permission denied (publickey).",
    );
    assert_eq!(kind, LocalOpenSshFailureKind::PublicKeyRejected);
}

#[test]
fn local_openssh_failure_kind_falls_back_to_other() {
    assert_eq!(local_openssh_failure_kind("Connection timed out"), LocalOpenSshFailureKind::Other);
    assert_eq!(
        local_openssh_failure_kind("Load key x: invalid format"),
        LocalOpenSshFailureKind::PrivateKeyProblem
    );
}

#[test]
fn classify_existing_key_probe_outcome_marks_incomplete_when_keys_untried() {
    let keys = keys(&[
        "/tmp/.ssh/lanscanner_id_rsa",
        "/tmp/.ssh/id_ed25519",
        "/tmp/.ssh/id_rsa",
    ]);
    let attempts = vec![String::from(
        "/tmp/.ssh/lanscanner_id_rsa 远端未接受该密钥认证",
    )];

    let outcome = classify_existing_key_probe_outcome(&keys, &attempts, true);
    assert!(matches!(
        outcome,
        ExistingKeyProbeOutcome::Incomplete { .. }
    ));
}

#[test]
fn classify_existing_key_probe_outcome_marks_all_failed_after_full_attempts() {
    let keys = keys(&["/tmp/.ssh/lanscanner_id_rsa", "/tmp/.ssh/id_ed25519"]);
    let attempts = vec![
        String::from("/tmp/.ssh/lanscanner_id_rsa 远端未接受该密钥认证"),
        String::from("/tmp/.ssh/id_ed25519 验证失败：permission denied"),
    ];

    let outcome = classify_existing_key_probe_outcome(&keys, &attempts, true);
    assert!(matches!(outcome, ExistingKeyProbeOutcome::AllFailed { .. }));
}

#[test]
fn verify_result_maps_password_rejected_to_denied() {
    let status = map_verify_result_to_device_status(
        Ok(AuthOutcome::Denied(AuthDeniedReason::PasswordRejected)),
        "192.168.1.5",
        "root",
    );
    assert_eq!(status, DeviceStatus::Denied);
}

#[test]
fn verify_result_maps_public_key_rejected_to_denied() {
    let status = map_verify_result_to_device_status(
        Ok(AuthOutcome::Denied(AuthDeniedReason::PublicKeyRejected)),
        "192.168.1.6",
        "root",
    );
    assert_eq!(status, DeviceStatus::Denied);
}

#[test]
fn verify_result_maps_timeout_to_error() {
    let status = map_verify_result_to_device_status(
        Err(SshError::Timeout(2000)),
        "192.168.1.7",
        "root",
    );
    assert_eq!(status, DeviceStatus::Error);
}

#[test]
fn username_only_probes_map_to_device_states() {
    assert_eq!(
        map_username_only_probe_status(Ok(UsernameOnlyProbeOutcome::Authenticated), "ip", "u"),
        DeviceStatus::Ready
    );
    assert_eq!(
        map_username_only_probe_status(Ok(UsernameOnlyProbeOutcome::Ambiguous), "ip", "u"),
        DeviceStatus::Error
    );
    assert_eq!(
        map_username_only_probe_status(
            Err(SshError::Protocol(String::from("Invalid user root"))),
            "ip",
            "u"
        ),
        DeviceStatus::Denied
    );
    assert!(looks_like_username_rejection_error("Permission Denied"));
    assert!(!looks_like_username_rejection_error("timeout"));
    assert!(looks_like_explicit_rejection(&[]));
    assert!(looks_like_explicit_rejection(&[AuthMethod::HostBased]));
    assert!(!looks_like_explicit_rejection(&[AuthMethod::Password]));
    assert_eq!(
        classify_username_only_attempt(false, false, &[AuthMethod::PublicKey]),
        UsernameOnlyProbeOutcome::Ambiguous
    );
    assert_eq!(resolve_scan_verify_mode(Some("pw")), ScanVerifyMode::UsernamePassword);
    assert_eq!(resolve_scan_verify_mode(None), ScanVerifyMode::UsernameOnlyBestEffort);
}

#[test]
fn timeout_message_reads_like_a_duration() {
    assert_eq!(SshError::Timeout(1500).message(), "ssh verification timed out after 1.5s");
    assert_eq!(SshError::Timeout(2000).message(), "ssh verification timed out after 2s");
    assert_eq!(SshError::Timeout(10050).message(), "ssh verification timed out after 10.05s");
    assert_eq!(SshError::Timeout(800).message(), "ssh verification timed out after 800ms");
}

#[test]
fn append_system_known_hosts_repair_failure_reason_includes_warning_detail() {
    let reason = append_system_known_hosts_repair_failure_reason(
        String::from("已回退到密码模式"),
        &ConfigError::Command(String::from("ssh-keygen -R failed")),
    );

    assert!(reason.contains("已回退到密码模式"));
    assert!(reason.contains("system known_hosts 主机指纹修复失败"));
    assert!(reason.contains("ssh-keygen -R failed"));
    assert!(reason.contains("可能仍无法进入密码输入阶段"));
}

#[test]
fn maybe_repair_system_known_hosts_skips_non_vscode_consumer() {
    let reason = maybe_repair_system_known_hosts_for_password_fallback(
        String::from("fallback"),
        "192.168.1.8",
        "root",
        LaunchAuthConsumer::Mobaxterm,
        |_alias: &str| -> Result<(), ConfigError> { panic!("no repair for MobaXterm") },
    );

    assert_eq!(reason, "fallback");
}

#[test]
fn repair_is_attempted_for_system_openssh_consumers() {
    let reason = maybe_repair_system_known_hosts_for_password_fallback(
        String::from("fallback"),
        "192.168.1.8",
        "root",
        LaunchAuthConsumer::Shell,
        |alias: &str| {
            assert_eq!(alias, "root-192-168-1-8");
            Err(ConfigError::Command(String::from("denied")))
        },
    );
    assert!(reason.starts_with("fallback；并且 system known_hosts 主机指纹修复失败（denied）"));
}

#[test]
fn message_helpers() {
    assert_eq!(normalize_whitespace("  a \n b\t"), "a b");
    assert_eq!(compact_user_message("abcdef", 3), "abc…");
    assert_eq!(compact_user_message("abc", 3), "abc");
    assert_eq!(
        extract_quoted_path("x Load key 'p/q': y", &["Load key \"", "Load key '"]),
        Some(String::from("p/q"))
    );
    assert_eq!(extract_quoted_path("nothing", &["Load key '"]), None);
    assert_eq!(merge_fallback_reason(Some("a"), String::from("b")), "a；b");
    assert_eq!(merge_fallback_reason(None, String::from("b")), "b");
    let e = assemble_external_validation_error(
        SshError::Connection(String::from("p")),
        Some(ConfigError::Command(String::from("r"))),
        None,
    );
    assert_eq!(e.message(), "p；并且回滚 SSH alias 配置失败：r");
}

#[test]
fn launch_auth_with_a_ready_existing_key() {
    let (mut flow, action) =
        LaunchAuthFlow::new("10.0.0.2", "root", None, LaunchAuthConsumer::VscodeLike);
    assert_eq!(action, LaunchAuthAction::ListKeys);
    assert_eq!(flow.step(LaunchAuthEvent::KeysListed(Ok(2))), LaunchAuthAction::ProbeExistingKeys);
    let done = flow.step(LaunchAuthEvent::ExistingKeysProbed(ExistingKeyProbeOutcome::Ready(
        String::from("/k"),
    )));
    assert_eq!(
        done,
        LaunchAuthAction::Finish(LaunchAuthPreparation::KeyReady {
            key_path: String::from("/k"),
            source: KeyReadySource::Existing,
        })
    );
}

#[test]
fn launch_auth_without_keys_or_password_fails() {
    let (mut flow, _) = LaunchAuthFlow::new("10.0.0.2", "root", Some("  "), LaunchAuthConsumer::Shell);
    assert!(flow.password.is_none());
    assert_eq!(
        flow.step(LaunchAuthEvent::KeysListed(Ok(0))),
        LaunchAuthAction::Finish(LaunchAuthPreparation::HardFailure {
            reason: String::from("当前没有可用 SSH 密钥，且未提供密码，无法建立连接"),
        })
    );
}

#[test]
fn launch_auth_installs_the_managed_key_then_falls_back_with_repair() {
    let (mut flow, _) =
        LaunchAuthFlow::new("10.0.0.2", "root", Some(" pw "), LaunchAuthConsumer::VscodeLike);
    assert_eq!(flow.password.as_deref(), Some("pw"));
    let action = flow.step(LaunchAuthEvent::KeysListed(Ok(1)));
    assert_eq!(action, LaunchAuthAction::ProbeExistingKeys);
    let action = flow.step(LaunchAuthEvent::ExistingKeysProbed(ExistingKeyProbeOutcome::AllFailed {
        reason: String::from("old"),
    }));
    assert_eq!(action, LaunchAuthAction::EnsureManagedKeypair);
    let action = flow.step(LaunchAuthEvent::ManagedKeypair(Ok(String::from("/m"))));
    assert_eq!(action, LaunchAuthAction::InstallPublicKey { key_path: String::from("/m") });
    let action = flow.step(LaunchAuthEvent::PublicKeyInstalled(Ok(())));
    assert_eq!(action, LaunchAuthAction::CheckInstalledKey { key_path: String::from("/m") });
    let action = flow.step(LaunchAuthEvent::InstalledKeyChecked(Ok(false)));
    assert_eq!(action, LaunchAuthAction::RepairKnownHosts { alias: String::from("root-10-0-0-2") });
    let done = flow.step(LaunchAuthEvent::KnownHostsRepaired(Ok(())));
    assert_eq!(
        done,
        LaunchAuthAction::Finish(LaunchAuthPreparation::PasswordFallback {
            reason: String::from("old；已尝试安装公钥，但远端未接受免密登录，当前改用密码连接"),
        })
    );
}

#[test]
fn launch_auth_for_mobaxterm_skips_the_repair() {
    let (mut flow, _) =
        LaunchAuthFlow::new("10.0.0.2", "root", Some("pw"), LaunchAuthConsumer::Mobaxterm);
    flow.step(LaunchAuthEvent::KeysListed(Err(String::from("io"))));
    let action = flow.step(LaunchAuthEvent::ManagedKeypair(Err(String::from("gen"))));
    assert_eq!(
        action,
        LaunchAuthAction::Finish(LaunchAuthPreparation::PasswordFallback {
            reason: String::from("准备 LANScanner 托管密钥失败，当前改用密码连接：gen"),
        })
    );
}

#[test]
fn launch_auth_preparation_targets() {
    let ready = LaunchAuthPreparation::KeyReady {
        key_path: String::from("/k"),
        source: KeyReadySource::Installed,
    };
    assert_eq!(ready.key_path(), Some(String::from("/k")));
    assert_eq!(ready.host_target("1.2.3.4", "pi"), "pi-1-2-3-4");
    let failed = LaunchAuthPreparation::HardFailure { reason: String::from("x") };
    assert_eq!(failed.key_path(), None);
    assert_eq!(failed.host_target("1.2.3.4", "pi"), "1.2.3.4");
}

#[test]
fn candidate_private_key_paths_prioritize_lanscanner_keys() {
    let ssh_dir = "/tmp/mock-ssh";
    let candidates = build_candidate_private_key_paths(ssh_dir, &Vec::new());

    assert_eq!(candidates[0], "/tmp/mock-ssh/lanscanner_id_rsa");
    assert_eq!(candidates[1], "/tmp/mock-ssh/lanscanner_id_ed25519");
    assert!(candidates.contains(&String::from("/tmp/mock-ssh/id_ed25519")));
    assert!(candidates.contains(&String::from("/tmp/mock-ssh/id_rsa")));
}

#[test]
fn candidate_private_key_paths_include_preserved_legacy_managed_keys() {
    let preserved = preserved_legacy_managed_key_paths(
        "/tmp/s",
        &keys(&[
            "lanscanner_id_ed25519_legacy_2",
            "lanscanner_id_ed25519_legacy_1.pub",
            "lanscanner_id_ed25519_legacy_1",
            "other",
        ]),
    );
    assert_eq!(
        preserved,
        vec!["/tmp/s/lanscanner_id_ed25519_legacy_1", "/tmp/s/lanscanner_id_ed25519_legacy_2"]
    );
    let candidates = candidate_private_key_paths("/tmp", &preserved);
    assert_eq!(candidates.len(), 11);
    assert_eq!(candidates[2], "/tmp/s/lanscanner_id_ed25519_legacy_1");
    assert_eq!(managed_private_key_path("/tmp"), "/tmp/.ssh/lanscanner_id_rsa");
}

#[test]
fn key_generation_algorithm_matches_key_name() {
    assert_eq!(
        key_algorithm_for_path("/tmp/mock/.ssh/lanscanner_id_rsa"),
        KeyAlgorithm::Rsa
    );
    assert_eq!(
        key_algorithm_for_path("/tmp/mock/.ssh/id_ed25519"),
        KeyAlgorithm::Ed25519
    );
    assert_eq!(
        ssh_keygen_args("/k/id_RSA"),
        vec!["-t", "rsa", "-N", "", "-q", "-f", "/k/id_RSA", "-b", "4096"]
    );
    assert_eq!(ssh_keygen_args("/k/id"), vec!["-t", "ed25519", "-N", "", "-q", "-f", "/k/id"]);
}

#[test]
fn managed_keys_are_recognised_by_file_name() {
    assert!(is_app_managed_key("/h/.ssh/lanscanner_id_rsa"));
    assert!(is_app_managed_key("/h/.ssh/lanscanner_id_ed25519_legacy_3"));
    assert!(!is_app_managed_key("/h/.ssh/id_rsa"));
    assert!(!is_app_managed_key("/h/.ssh/"));
}

#[test]
fn public_key_install_command_quotes_the_key() {
    assert_eq!(shell_quote("it's"), "'it'\"'\"'s'");
    let command = install_public_key_command("ssh-rsa AAA");
    assert!(command.contains("grep -qxF 'ssh-rsa AAA' \"$HOME/.ssh/authorized_keys\""));
    assert!(command.ends_with(">> \"$HOME/.ssh/authorized_keys\")"));
    assert_eq!(public_key_from_file("  ssh-rsa AAA \n").unwrap(), "ssh-rsa AAA");
    assert!(public_key_from_file("  ").is_err());
    assert!(install_result(0, "").is_ok());
    let err = install_result(1, "warn\nfatal: no space\n").unwrap_err();
    assert_eq!(err.message(), "fatal: no space");
    let err = install_result(1, "").unwrap_err();
    assert_eq!(err.message(), "unable to install public key on remote host");
}

#[test]
fn rollback_restores_previous_alias_block() {
    let original = "Host root-192-168-1-5\n  HostName 192.168.1.5\n  User root\n  IdentityFile /home/test/.ssh/old\n  IdentitiesOnly yes\n";
    let (updated, rollback) = update_ssh_config_with_rollback(
        String::from("/home/test/.ssh/config"),
        Some(original.to_string()),
        "root-192-168-1-5",
        "192.168.1.5",
        "root",
        "/home/test/.ssh/new",
    );
    assert!(updated.contains("IdentityFile /home/test/.ssh/new"));
    assert!(!updated.contains("IdentityFile /home/test/.ssh/old"));
    let restored = rollback.previous_content().unwrap();
    assert_eq!(restored, original);
}

#[test]
fn rollback_removes_new_alias_when_config_did_not_exist() {
    let (content, rollback) = update_ssh_config_with_rollback(
        String::from("/home/test/.ssh/config"),
        None,
        "root-192-168-1-6",
        "192.168.1.6",
        "root",
        "/home/test/.ssh/managed",
    );
    assert!(content.contains("Host root-192-168-1-6"));
    assert!(content.contains("IdentityFile /home/test/.ssh/managed"));
    assert_eq!(rollback.previous_content(), None);
}

#[test]
fn remove_known_host_from_file_removes_plain_host_and_keeps_others() {
    let original = "10.0.0.8 ssh-ed25519 AAAAplain\nother-host ssh-ed25519 AAAAother\n";
    let updated = remove_known_host(original, "10.0.0.8").unwrap();
    assert!(!updated.contains("10.0.0.8 ssh-ed25519"));
    assert!(updated.contains("other-host ssh-ed25519 AAAAother"));
}

#[test]
fn remove_known_host_from_file_removes_bracketed_host_and_keeps_others() {
    let original = "[10.0.0.8]:22 ssh-ed25519 AAAAbracketed\nexample ssh-ed25519 AAAAkeep\n";
    let updated = remove_known_host(original, "10.0.0.8").unwrap();
    assert!(!updated.contains("[10.0.0.8]:22 ssh-ed25519"));
    assert!(updated.contains("example ssh-ed25519 AAAAkeep"));
}

#[test]
fn migrate_non_rsa_managed_key_keeps_legacy_copy_when_ed25519_exists() {
    let taken = keys(&[
        "lanscanner_id_rsa",
        "lanscanner_id_rsa.pub",
        "lanscanner_id_ed25519",
        "lanscanner_id_ed25519.pub",
    ]);
    let preserved = legacy_preserve_path("/tmp/keys", &taken).unwrap();
    assert_eq!(preserved, "/tmp/keys/lanscanner_id_ed25519_legacy_1");
    assert_ne!(preserved, "/tmp/keys/lanscanner_id_ed25519");
}

#[test]
fn prepare_private_key_for_external_use_keeps_user_key_path() {
    let prepared = prepare_private_key_for_external_use("/tmp/keys/id_rsa");
    assert_eq!(prepared.path, "/tmp/keys/id_rsa");
    assert!(!prepared.cleanup_on_failure);
}
