use lanscanner::external_check::{
    local_openssh_batch_args, local_openssh_explicit_key_args, openssh_run_outcome,
    CommandAttempt, ExternalCheckAction, ExternalCheckEvent, ExternalCheckFlow,
    ExternalCheckStage,
};
use lanscanner::platform::LinuxWindowBackend;
use lanscanner::powershell_text::{decode_windows_powershell_output, looks_like_utf16le, strip_utf8_bom};
use lanscanner::ssh_auth::{
    auth_rejected_error, display_key_label, key_attempt_message, AuthDeniedReason,
    KeyAttemptResult, KeyReadySource, LaunchAuthConsumer, LaunchAuthEvent, LaunchAuthFlow,
    LaunchAuthPreparation, LocalOpenSshFailure, LocalOpenSshFailureKind,
    LocalOpenSshValidationError, SshError, usable_launch_auth,
};
use lanscanner::ssh_config::{host_alias, known_host_removal_outcome, removal_settles, ConfigError};
use lanscanner::ssh_keys::{keygen_outcome, legacy_preserve_path, KeyError};
use lanscanner::window_shape::{classify_linux_window_backend, x11_corner_radius, x11_window_shape_rectangles};

fn strings(v: &[&str]) -> Vec<String> {
    v.iter().map(|s| s.to_string()).collect()
}

#[test]
fn batch_mode_arguments_accept_new_host_keys() {
    let args = local_openssh_batch_args("/home/u/.ssh/config", "alias", 0, true);
    assert_eq!(
        args,
        strings(&[
            "-F", "/home/u/.ssh/config", "-o", "BatchMode=yes", "-o", "PasswordAuthentication=no",
            "-o", "StrictHostKeyChecking=accept-new", "-o", "PreferredAuthentications=publickey",
            "-o", "ConnectTimeout=1", "alias", "exit",
        ])
    );
    let args = local_openssh_batch_args("cfg", "alias", 10, false);
    assert_eq!(args[6], "-o");
    assert_eq!(args[7], "PreferredAuthentications=publickey");
    assert_eq!(args[9], "ConnectTimeout=10");
}

#[test]
fn explicit_key_arguments_name_the_key_and_target() {
    let args = local_openssh_explicit_key_args("10.0.0.3", "pi", "/k", 10, true);
    assert_eq!(args.len(), 24);
    assert_eq!(args[12], "-o");
    assert_eq!(args[13], "StrictHostKeyChecking=accept-new");
    assert_eq!(&args[19..], &strings(&["ConnectTimeout=10", "-i", "/k", "pi@10.0.0.3", "exit"])[..]);
    let args = local_openssh_explicit_key_args("10.0.0.3", "pi", "/k", 10, false);
    assert_eq!(args.len(), 22);
    assert_eq!(args[12], "-o");
    assert_eq!(args[13], "PubkeyAcceptedAlgorithms=+ssh-rsa");
}

#[test]
fn openssh_run_outcome_prefers_success_then_failure() {
    let failed = CommandAttempt::Failed { code: Some(255), stderr: String::new(), stdout: String::new() };
    assert_eq!(openssh_run_outcome(&vec![CommandAttempt::NotFound, failed.clone(), CommandAttempt::Succeeded]).unwrap(), 2);
    assert_eq!(openssh_run_outcome(&vec![CommandAttempt::IoError("e".to_string()), failed]).unwrap(), 1);
    match openssh_run_outcome(&vec![CommandAttempt::NotFound, CommandAttempt::IoError("e".to_string())]) {
        Err(SshError::Io(m)) => assert_eq!(m, "e"),
        other => panic!("unexpected {other:?}"),
    }
    match openssh_run_outcome(&vec![]) {
        Err(SshError::Unsupported(m)) => assert!(m.starts_with("本机未安装可用的 OpenSSH 客户端")),
        other => panic!("unexpected {other:?}"),
    }
}

#[test]
fn keygen_outcome_reports_the_first_failure() {
    assert!(keygen_outcome("/k", &vec![CommandAttempt::NotFound, CommandAttempt::Succeeded]).is_ok());
    let failed = CommandAttempt::Failed { code: Some(1), stderr: "bad\nthing".to_string(), stdout: String::new() };
    match keygen_outcome("/k", &vec![CommandAttempt::IoError("io".to_string()), failed]) {
        Err(KeyError::Key(m)) => assert_eq!(m, "ssh-keygen 生成密钥失败（/k）：bad thing"),
        other => panic!("unexpected {other:?}"),
    }
    match keygen_outcome("/k", &vec![CommandAttempt::IoError("io".to_string())]) {
        Err(KeyError::Io(m)) => assert_eq!(m, "io"),
        other => panic!("unexpected {other:?}"),
    }
    match keygen_outcome("/k", &vec![CommandAttempt::NotFound]) {
        Err(KeyError::Key(m)) => assert_eq!(m, "ssh-keygen 不可用（已尝试 PATH 与 Windows OpenSSH 系统路径）"),
        other => panic!("unexpected {other:?}"),
    }
}

#[test]
fn key_attempts_are_recorded_in_words() {
    assert_eq!(display_key_label("/home/u/.ssh/id_rsa"), "id_rsa");
    assert_eq!(
        key_attempt_message("id_rsa", &KeyAttemptResult::Rejected, LaunchAuthConsumer::Shell),
        "id_rsa 远端未接受该密钥认证"
    );
    assert_eq!(
        key_attempt_message("id_rsa", &KeyAttemptResult::ClientCheckFailed("x".to_string()), LaunchAuthConsumer::VscodeLike),
        "id_rsa 可通过 russh 认证，但系统 OpenSSH验证失败：x"
    );
}

fn mismatch() -> LocalOpenSshValidationError {
    LocalOpenSshValidationError::Failure(LocalOpenSshFailure {
        kind: LocalOpenSshFailureKind::HostKeyMismatch,
        detail: "changed".to_string(),
    })
}

#[test]
fn external_check_repairs_known_hosts_once_then_succeeds() {
    let (mut flow, action) = ExternalCheckFlow::new("10.0.0.4", "pi", LaunchAuthConsumer::VscodeLike, "/k", "/cfg", 5);
    assert!(matches!(action, ExternalCheckAction::PrepareKey { ref key_path } if key_path == "/k"));
    let action = flow.step(ExternalCheckEvent::KeyPrepared(Ok("/k".to_string())));
    match action {
        ExternalCheckAction::UpdateConfig { alias, key_path } => {
            assert_eq!(alias, host_alias("10.0.0.4", "pi"));
            assert_eq!(key_path, "/k");
        }
        other => panic!("unexpected {other:?}"),
    }
    let action = flow.step(ExternalCheckEvent::ConfigUpdated(Ok(())));
    assert!(matches!(action, ExternalCheckAction::RunSsh { .. }));
    let action = flow.step(ExternalCheckEvent::SshRan(Err(mismatch())));
    assert!(matches!(action, ExternalCheckAction::RepairKnownHosts { .. }));
    let action = flow.step(ExternalCheckEvent::KnownHostsRepaired(Ok(())));
    assert!(matches!(action, ExternalCheckAction::RunSsh { .. }));
    let action = flow.step(ExternalCheckEvent::SshRan(Ok(())));
    match action {
        ExternalCheckAction::Finish(Ok(path)) => assert_eq!(path, "/k"),
        other => panic!("unexpected {other:?}"),
    }
    assert_eq!(flow.stage, ExternalCheckStage::Done);
}

#[test]
fn external_check_rolls_back_and_cleans_up_on_failure() {
    let (mut flow, _) = ExternalCheckFlow::new("10.0.0.4", "pi", LaunchAuthConsumer::Shell, "/k", "/cfg", 5);
    flow.step(ExternalCheckEvent::KeyPrepared(Ok("/k".to_string())));
    flow.step(ExternalCheckEvent::ConfigUpdated(Ok(())));
    let failure = LocalOpenSshValidationError::Execution(SshError::Connection("down".to_string()));
    let action = flow.step(ExternalCheckEvent::SshRan(Err(failure)));
    assert!(matches!(action, ExternalCheckAction::Rollback));
    let action = flow.step(ExternalCheckEvent::RolledBack(Some(ConfigError::Io("ro".to_string()))));
    assert!(matches!(action, ExternalCheckAction::Cleanup));
    match flow.step(ExternalCheckEvent::CleanedUp(None)) {
        ExternalCheckAction::Finish(Err(SshError::Connection(m))) => {
            assert_eq!(m, "down；并且回滚 SSH alias 配置失败：ro")
        }
        other => panic!("unexpected {other:?}"),
    }
}

#[test]
fn external_check_for_mobaxterm_uses_the_explicit_key() {
    let (mut flow, _) = ExternalCheckFlow::new("10.0.0.4", "pi", LaunchAuthConsumer::Mobaxterm, "/k", "/cfg", 5);
    match flow.step(ExternalCheckEvent::KeyPrepared(Ok("/tmp/k".to_string()))) {
        ExternalCheckAction::RunSsh { args } => {
            assert_eq!(args, local_openssh_explicit_key_args("10.0.0.4", "pi", "/tmp/k", 5, true))
        }
        other => panic!("unexpected {other:?}"),
    }
    let action = flow.step(ExternalCheckEvent::SshRan(Err(mismatch())));
    assert!(matches!(action, ExternalCheckAction::Cleanup));
    match flow.step(ExternalCheckEvent::CleanedUp(None)) {
        ExternalCheckAction::Finish(Err(SshError::Connection(m))) => {
            assert!(m.starts_with("本地 OpenSSH 验证失败"))
        }
        other => panic!("unexpected {other:?}"),
    }
}

#[test]
fn external_check_reports_a_key_that_cannot_be_prepared() {
    let (mut flow, _) = ExternalCheckFlow::new("10.0.0.4", "pi", LaunchAuthConsumer::Shell, "/k", "/cfg", 5);
    match flow.step(ExternalCheckEvent::KeyPrepared(Err("denied".to_string()))) {
        ExternalCheckAction::Finish(Err(SshError::Connection(m))) => assert_eq!(m, "修复本地 SSH 私钥权限失败：denied"),
        other => panic!("unexpected {other:?}"),
    }
}

#[test]
fn powershell_output_detection() {
    assert_eq!(strip_utf8_bom(&[0xEF, 0xBB, 0xBF, b'a']), vec![b'a']);
    assert!(looks_like_utf16le(&[0xFF, 0xFE]));
    assert!(looks_like_utf16le(&[b'a', 0, b'b', 0, b'c', 0, b'd', 0]));
    assert!(!looks_like_utf16le(b"abcdefgh"));
    assert_eq!(decode_windows_powershell_output(&[0xFF, 0xFE, b'h', 0, b'i', 0]), "hi");
    assert_eq!(decode_windows_powershell_output(&[0xEF, 0xBB, 0xBF]), "");
    assert_eq!(decode_windows_powershell_output("C:\\路径".as_bytes()), "C:\\路径");
}

fn corner_rows(radius: u16) -> Vec<(u16, u16)> {
    let mut rows: Vec<(u16, u16)> = Vec::new();
    let mut last_inset = radius;
    for y in 0..radius {
        let r = radius as f32;
        let d = (radius - 1 - y) as f32;
        let x = (r - (r * r - d * d).sqrt()).round() as u16;
        if x == last_inset && !rows.is_empty() {
            rows.last_mut().unwrap().1 += 1;
        } else {
            rows.push((x, 1));
            last_inset = x;
        }
    }
    rows
}

#[test]
fn window_shape_rounds_the_corners() {
    assert_eq!(x11_window_shape_rectangles(100, 80, true, &vec![]), vec![(0, 0, 100, 80)]);
    assert_eq!(x11_window_shape_rectangles(3, 80, false, &vec![]), vec![(0, 0, 3, 80)]);
    let radius = x11_corner_radius(100, 80);
    assert_eq!(radius, 14);
    let rows = corner_rows(radius);
    let rects = x11_window_shape_rectangles(100, 80, false, &rows);
    let covered: u32 = rects.iter().map(|r| r.3 as u32).sum();
    assert_eq!(covered, 80);
    assert_eq!(rects.first().unwrap().1, 0);
    assert!(rects.contains(&(0, 14, 100, 52)));
    assert_eq!(rects.first().unwrap().0, rects.last().unwrap().0);
}

#[test]
fn window_backend_from_handles() {
    assert_eq!(classify_linux_window_backend(Some(LinuxWindowBackend::X11Xcb), Some(LinuxWindowBackend::X11Xcb)), LinuxWindowBackend::X11Xcb);
    assert_eq!(classify_linux_window_backend(Some(LinuxWindowBackend::X11Xcb), Some(LinuxWindowBackend::Wayland)), LinuxWindowBackend::Unknown);
    assert_eq!(classify_linux_window_backend(None, Some(LinuxWindowBackend::Wayland)), LinuxWindowBackend::Wayland);
    assert_eq!(classify_linux_window_backend(None, None), LinuxWindowBackend::Unknown);
}

#[test]
fn external_check_accepts_only_the_awaited_result() {
    let (flow, _) = ExternalCheckFlow::new("10.0.0.4", "pi", LaunchAuthConsumer::Shell, "/k", "/cfg", 5);
    assert!(flow.accepts(&ExternalCheckEvent::KeyPrepared(Ok("/k".to_string()))));
    assert!(!flow.accepts(&ExternalCheckEvent::SshRan(Ok(()))));
    assert!(!flow.accepts(&ExternalCheckEvent::RolledBack(None)));
}

#[test]
fn known_host_removal_settles_on_success_or_missing_entry() {
    assert!(removal_settles(&CommandAttempt::Succeeded));
    let missing = CommandAttempt::Failed {
        code: Some(255),
        stderr: "Host 10.0.0.4 not found in /home/u/.ssh/known_hosts".to_string(),
        stdout: String::new(),
    };
    assert!(removal_settles(&missing));
    let broken = CommandAttempt::Failed {
        code: Some(1),
        stderr: "  write failed  ".to_string(),
        stdout: String::new(),
    };
    assert!(!removal_settles(&broken));
    assert!(!removal_settles(&CommandAttempt::NotFound));

    assert!(known_host_removal_outcome(&vec![broken.clone(), missing]).is_ok());
    match known_host_removal_outcome(&vec![CommandAttempt::NotFound, broken]) {
        Err(ConfigError::Command(message)) => assert_eq!(message, "write failed"),
        other => panic!("unexpected {other:?}"),
    }
    match known_host_removal_outcome(&vec![CommandAttempt::IoError("busy".to_string())]) {
        Err(ConfigError::Io(message)) => assert_eq!(message, "busy"),
        other => panic!("unexpected {other:?}"),
    }
    assert!(known_host_removal_outcome(&vec![CommandAttempt::NotFound]).is_ok());
    assert!(known_host_removal_outcome(&Vec::new()).is_ok());
}

#[test]
fn rejected_logins_name_user_host_and_reason() {
    match auth_rejected_error("10.0.0.4", "pi", AuthDeniedReason::PasswordRejected) {
        SshError::Connection(message) => {
            assert_eq!(message, "ssh authentication rejected for pi@10.0.0.4: password rejected")
        }
        other => panic!("unexpected {other:?}"),
    }
    match auth_rejected_error("10.0.0.4", "root", AuthDeniedReason::PublicKeyRejected) {
        SshError::Connection(message) => {
            assert_eq!(message, "ssh authentication rejected for root@10.0.0.4: public key rejected")
        }
        other => panic!("unexpected {other:?}"),
    }
}

#[test]
fn launch_preparation_accepts_only_the_awaited_result() {
    let (flow, _) = LaunchAuthFlow::new("10.0.0.4", "pi", Some("pw"), LaunchAuthConsumer::Shell);
    assert!(flow.accepts(&LaunchAuthEvent::KeysListed(Ok(0))));
    assert!(!flow.accepts(&LaunchAuthEvent::PublicKeyInstalled(Ok(()))));
}

#[test]
fn earlier_managed_keys_are_kept_under_a_free_name() {
    assert_eq!(
        legacy_preserve_path("/home/u/.ssh", &strings(&["id_rsa", "config"])).unwrap(),
        "/home/u/.ssh/lanscanner_id_ed25519"
    );
    assert_eq!(
        legacy_preserve_path(
            "/home/u/.ssh",
            &strings(&[
                "lanscanner_id_ed25519.pub",
                "lanscanner_id_ed25519_legacy_1",
                "lanscanner_id_ed25519_legacy_2.pub",
            ])
        )
        .unwrap(),
        "/home/u/.ssh/lanscanner_id_ed25519_legacy_3"
    );
    let mut taken = strings(&["lanscanner_id_ed25519"]);
    for index in 1..=1024 {
        taken.push(format!("lanscanner_id_ed25519_legacy_{index}"));
    }
    match legacy_preserve_path("/home/u/.ssh", &taken) {
        Err(KeyError::Key(message)) => assert_eq!(
            message,
            "unable to reserve a safe path for legacy non-RSA managed key migration"
        ),
        other => panic!("unexpected {other:?}"),
    }
}

#[test]
fn a_hard_failure_stops_the_launch_with_its_reason() {
    let failed = LaunchAuthPreparation::HardFailure { reason: "no key".to_string() };
    assert_eq!(usable_launch_auth(failed), Err("no key".to_string()));
    let fallback = LaunchAuthPreparation::PasswordFallback { reason: "typed".to_string() };
    assert_eq!(usable_launch_auth(fallback.clone()), Ok(fallback));
    let ready = LaunchAuthPreparation::KeyReady {
        key_path: "/k".to_string(),
        source: KeyReadySource::Installed,
    };
    assert_eq!(usable_launch_auth(ready.clone()), Ok(ready));
}
