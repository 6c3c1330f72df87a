use lanscanner::launcher::{
    build_mobaxterm_key_command, escape_applescript_string, is_vscode_wrapper_path,
    mobaxterm_arguments, mobaxterm_key_argument, prepare_openssh_target, rustdesk_arguments,
    should_launch_via_cmd, should_retry_vscode_spawn, terminal_commands, terminal_launch_result,
    vncviewer_launch, vscode_executable_candidates, vscode_launch_result, vscode_ssh_uri,
    LaunchError, SpawnErrorKind, SpawnOutcome,
};
use lanscanner::notices::{
    auth_connect_notice, compact_notice_message, compact_progress_message, docker_attach_action,
    launch_failure_message, mobaxterm_connect_notice, rustdesk_launch_notice,
    rustdesk_probe_failure_message, shell_connect_notice, truncate_header_text,
    vnc_launch_notice, ConnectNoticeTone, LaunchStep, Notice, NoticeTone,
};
use lanscanner::platform::{AppLanguage, Platform};
use lanscanner::session_inputs::{
    build_launch_context, normalized_rustdesk_password, quick_connect_launcher_for_tool,
    resolve_verify_credentials, resolve_vnc_value, summarize_vnc_source, verify_credential_input,
    VerifyCredentialInput, VncCredentialFieldSource, VncCredentialSource,
};
use lanscanner::ssh_auth::{KeyReadySource, LaunchAuthPreparation};
use lanscanner::store::ToolKind;
use lanscanner::tool_finder::{
    expand_windows_env, find_mobaxterm, find_rustdesk, find_tool, find_vncviewer, find_vscode,
    non_windows_path_boundary_notice, search_path_candidates, unresolved_tool_path_notice,
    windows_path_exts,
};

fn key_ready(path: &str) -> LaunchAuthPreparation {
    LaunchAuthPreparation::KeyReady {
        key_path: path.to_string(),
        source: KeyReadySource::Existing,
    }
}

fn strings(v: &[&str]) -> Vec<String> {
    v.iter().map(|s| s.to_string()).collect()
}

#[test]
fn header_text_is_cut_with_an_ellipsis() {
    assert_eq!(truncate_header_text("短文本", 16), "短文本");
    assert_eq!(truncate_header_text("abcdefghij", 8), "abcde...");
    assert_eq!(truncate_header_text("abcdef", 2), "...");
}

#[test]
fn notices_are_compacted_by_tone_and_words() {
    let notice = Notice { tone: NoticeTone::Success, message: "已完成免密准备并启动 VS Code".to_string() };
    assert_eq!(compact_notice_message(&notice), "免密准备完成");
    let notice = Notice { tone: NoticeTone::Warning, message: "请填写用户名".to_string() };
    assert_eq!(compact_notice_message(&notice), "请填写 SSH 用户名");
    let notice = Notice { tone: NoticeTone::Error, message: "SSH 握手失败".to_string() };
    assert_eq!(compact_notice_message(&notice), "SSH 认证失败");
    let notice = Notice { tone: NoticeTone::Error, message: "unknown".to_string() };
    assert_eq!(compact_notice_message(&notice), "操作失败");
}

#[test]
fn progress_status_is_compacted() {
    assert_eq!(compact_progress_message("正在准备 Docker 容器"), "准备 Docker 容器");
    assert_eq!(compact_progress_message("正在启动 VS Code"), "启动 VS Code");
    assert_eq!(compact_progress_message("something"), "处理中");
}

#[test]
fn connect_notices_follow_the_auth_preparation() {
    let n = auth_connect_notice(AppLanguage::English, "VS Code", &key_ready("/k"));
    assert_eq!(n.tone, ConnectNoticeTone::Success);
    assert_eq!(n.message, "Launched VS Code");
    let installed = LaunchAuthPreparation::KeyReady {
        key_path: "/k".to_string(),
        source: KeyReadySource::Installed,
    };
    let n = auth_connect_notice(AppLanguage::Chinese, "VS Code", &installed);
    assert_eq!(n.message, "已完成免密准备并启动 VS Code");
    let fallback = LaunchAuthPreparation::PasswordFallback { reason: "原因".to_string() };
    let n = auth_connect_notice(AppLanguage::Chinese, "VS Code", &fallback);
    assert_eq!(n.tone, ConnectNoticeTone::Warning);
    assert_eq!(n.message, "已启动 VS Code，请按提示输入密码（原因）");
    let n = mobaxterm_connect_notice(AppLanguage::English, &key_ready("/k"));
    assert_eq!(n.message, "Launched MobaXterm");
    let n = shell_connect_notice(&fallback);
    assert_eq!(n.message, "已打开终端，请按提示输入 SSH 密码");
    let hard = LaunchAuthPreparation::HardFailure { reason: "不行".to_string() };
    assert_eq!(shell_connect_notice(&hard).message, "不行");
}

#[test]
fn launch_messages_name_the_failed_step() {
    assert_eq!(
        launch_failure_message(AppLanguage::English, LaunchStep::DockerStart, "boom"),
        "Failed to start the Docker container: boom"
    );
    assert_eq!(
        launch_failure_message(AppLanguage::Chinese, LaunchStep::Vscode, "x"),
        "启动 VS Code 失败: x"
    );
    assert_eq!(docker_attach_action(AppLanguage::English, "web"), "VS Code Docker attach (web)");
    assert_eq!(docker_attach_action(AppLanguage::Chinese, "web"), "VS Code Docker attach（web）");
    let n = vnc_launch_notice(AppLanguage::English, None, None);
    assert_eq!(n.tone, ConnectNoticeTone::Success);
    let n = vnc_launch_notice(AppLanguage::English, None, Some("w".to_string()));
    assert_eq!(n.tone, ConnectNoticeTone::Warning);
    assert_eq!(rustdesk_launch_notice(AppLanguage::Chinese, false).tone, ConnectNoticeTone::Warning);
    let m = rustdesk_probe_failure_message("10.0.0.2", "connection timed out", AppLanguage::English);
    assert!(m.starts_with("RustDesk's default Direct IP port 21118 is unreachable at 10.0.0.2:21118 (connection timed out)."));
}

#[test]
fn mobaxterm_key_argument_uses_drive_paths_on_windows() {
    assert_eq!(mobaxterm_key_argument(Platform::Windows, "C:\\Users\\me\\.ssh\\id_rsa"), "/drives/c/Users/me/.ssh/id_rsa");
    assert_eq!(mobaxterm_key_argument(Platform::Windows, "D:\\My Keys\\k"), "\"/drives/d/My Keys/k\"");
    assert_eq!(mobaxterm_key_argument(Platform::Linux, "/home/me/.ssh/id_rsa"), "/home/me/.ssh/id_rsa");
    assert_eq!(mobaxterm_key_argument(Platform::Linux, "/a b/k"), "\"/a b/k\"");
}

#[test]
fn mobaxterm_starts_a_new_tab_with_ssh() {
    let cmd = build_mobaxterm_key_command(Platform::Linux, "10.0.0.5", "pi", "/k");
    assert_eq!(cmd, "ssh -i /k -o IdentitiesOnly=yes -o PreferredAuthentications=publickey,password -o HostKeyAlgorithms=+ssh-rsa -o PubkeyAcceptedAlgorithms=+ssh-rsa -o PubkeyAcceptedKeyTypes=+ssh-rsa pi@10.0.0.5");
    let args = mobaxterm_arguments(Platform::Linux, "10.0.0.5", "pi", &key_ready("/k")).unwrap();
    assert_eq!(args, vec!["-newtab".to_string(), cmd]);
    let fallback = LaunchAuthPreparation::PasswordFallback { reason: String::new() };
    let args = mobaxterm_arguments(Platform::Linux, "10.0.0.5", "pi", &fallback).unwrap();
    assert_eq!(args, strings(&["-newtab", "ssh pi@10.0.0.5"]));
    let hard = LaunchAuthPreparation::HardFailure { reason: "no".to_string() };
    match mobaxterm_arguments(Platform::Linux, "10.0.0.5", "pi", &hard) {
        Err(LaunchError::Unsupported(m)) => assert_eq!(m, "no"),
        _ => panic!("expected a hard failure"),
    }
}

#[test]
fn vnc_and_rustdesk_arguments() {
    let (args, warning) = vncviewer_launch("10.0.0.9", Some("u"), Some(" "));
    assert_eq!(args, strings(&["-UseAddressBook", "10.0.0.9"]));
    assert_eq!(warning.unwrap(), "当前 VNC Viewer 启动链路未安全自动带入用户名，已仅启动客户端，请在客户端中手动输入。");
    let (_, warning) = vncviewer_launch("10.0.0.9", Some("u"), Some("p"));
    assert!(warning.unwrap().contains("用户名和密码"));
    let (_, warning) = vncviewer_launch("10.0.0.9", None, None);
    assert!(warning.is_none());
    assert_eq!(rustdesk_arguments("10.0.0.9", Some("  pw ")), strings(&["--connect", "10.0.0.9", "--password", "pw"]));
    assert_eq!(rustdesk_arguments("10.0.0.9", Some("  ")), strings(&["--connect", "10.0.0.9"]));
}

#[test]
fn vscode_uri_opens_the_home_directory() {
    assert_eq!(vscode_ssh_uri("h", "root"), "vscode-remote://ssh-remote+h/root");
    assert_eq!(vscode_ssh_uri("h", "pi"), "vscode-remote://ssh-remote+h/home/pi");
}

#[test]
fn openssh_target_writes_the_alias_block() {
    let (alias, content) = prepare_openssh_target("192.168.1.20", "pi", &key_ready("/k"), None).unwrap();
    assert_eq!(alias, lanscanner::ssh_config::host_alias("192.168.1.20", "pi"));
    assert!(content.contains(&format!("Host {alias}")));
    assert!(content.contains("IdentityFile"));
    let hard = LaunchAuthPreparation::HardFailure { reason: "r".to_string() };
    assert!(prepare_openssh_target("192.168.1.20", "pi", &hard, None).is_err());
}

#[test]
fn applescript_strings_are_escaped() {
    assert_eq!(escape_applescript_string("a\"b\\c\nd"), "a\\\"b\\\\c d");
}

#[test]
fn terminal_programs_are_tried_in_order() {
    let linux = terminal_commands(Platform::Linux, "host");
    assert_eq!(linux.len(), 6);
    assert_eq!(linux[0], ("x-terminal-emulator".to_string(), strings(&["-e", "ssh", "host"])));
    assert_eq!(linux[1].1, strings(&["--", "ssh", "host"]));
    let windows = terminal_commands(Platform::Windows, "host");
    assert_eq!(windows[1], ("cmd".to_string(), strings(&["/d", "/k", "ssh host"])));
    let mac = terminal_commands(Platform::MacOs, "host");
    assert_eq!(mac[0].1[1], "tell application \"Terminal\" to do script \"ssh host\"");
}

#[test]
fn terminal_result_prefers_started_then_last_error() {
    let missing = SpawnOutcome::Failed { kind: SpawnErrorKind::NotFound, os_code: None, message: "nf".to_string() };
    let failed = SpawnOutcome::Failed { kind: SpawnErrorKind::Other, os_code: None, message: "bad".to_string() };
    assert!(terminal_launch_result(Platform::Linux, &vec![missing.clone(), SpawnOutcome::Started]).is_ok());
    match terminal_launch_result(Platform::Linux, &vec![failed.clone(), missing.clone()]) {
        Err(LaunchError::Io(m)) => assert_eq!(m, "bad"),
        _ => panic!("expected the last error"),
    }
    match terminal_launch_result(Platform::Windows, &vec![missing.clone()]) {
        Err(LaunchError::Unsupported(m)) => assert!(m.contains("Windows Terminal、cmd、PowerShell")),
        _ => panic!("expected no terminal"),
    }
}

#[test]
fn vscode_spawn_retries_by_platform() {
    assert!(should_retry_vscode_spawn(Platform::Windows, SpawnErrorKind::Other, Some(193)));
    assert!(!should_retry_vscode_spawn(Platform::Windows, SpawnErrorKind::Other, Some(5)));
    assert!(should_retry_vscode_spawn(Platform::MacOs, SpawnErrorKind::PermissionDenied, None));
    assert!(!should_retry_vscode_spawn(Platform::Linux, SpawnErrorKind::NotFound, None));
    let retry = SpawnOutcome::Failed { kind: SpawnErrorKind::NotFound, os_code: None, message: "first".to_string() };
    match vscode_launch_result(Platform::Windows, &vec![retry.clone()]) {
        Err(LaunchError::Io(m)) => assert_eq!(m, "first"),
        _ => panic!("expected the last error"),
    }
    match vscode_launch_result(Platform::Linux, &vec![retry, SpawnOutcome::Started]) {
        Err(LaunchError::Io(m)) => assert_eq!(m, "first"),
        _ => panic!("a failure not worth retrying ends the launch"),
    }
    match vscode_launch_result(Platform::Linux, &vec![]) {
        Err(LaunchError::Unsupported(m)) => assert_eq!(m, "VS Code 启动入口不可用，请重新选择有效的 VS Code 路径"),
        _ => panic!("expected no entry point"),
    }
}

#[test]
fn vscode_entry_points() {
    assert!(should_launch_via_cmd(Some("CMD"), Some("code.CMD")));
    assert!(should_launch_via_cmd(None, Some("Code")));
    assert!(!should_launch_via_cmd(Some("exe"), Some("Code.exe")));
    assert!(is_vscode_wrapper_path(Some("cmd"), Some("code.cmd")));
    assert!(!is_vscode_wrapper_path(Some("cmd"), Some("other.cmd")));
    let c = vscode_executable_candidates("a".to_string(), Some("b".to_string()), "a".to_string());
    assert_eq!(c, strings(&["a", "b"]));
    let c = vscode_executable_candidates("a".to_string(), None, "c".to_string());
    assert_eq!(c, strings(&["a", "c"]));
}

#[test]
fn tool_searches_list_the_original_places() {
    let s = find_vscode(Platform::Linux);
    assert_eq!(s.path_names, strings(&["code"]));
    assert!(s.common_paths.is_empty());
    let s = find_vscode(Platform::Windows);
    assert_eq!(s.registry_names, strings(&["Code.exe", "code.cmd"]));
    assert_eq!(s.common_paths.len(), 5);
    assert_eq!(find_mobaxterm(Platform::Linux).common_paths.len(), 7);
    assert_eq!(find_vncviewer(Platform::MacOs).path_names, strings(&["vncviewer"]));
    assert_eq!(find_rustdesk(Platform::Windows).path_names.len(), 4);
    assert_eq!(find_tool(ToolKind::RustDesk, Platform::Linux).path_names, strings(&["rustdesk"]));
}

#[test]
fn path_search_tries_extensions_for_bare_names() {
    let c = search_path_candidates(&strings(&["/a", "/b"]), &strings(&["code", "Code.exe"]), &strings(&[".exe"]));
    let expected = vec![
        ("/a", "code"), ("/a", "code.exe"), ("/a", "Code.exe"),
        ("/b", "code"), ("/b", "code.exe"), ("/b", "Code.exe"),
    ];
    let expected: Vec<(String, String)> = expected.into_iter().map(|(d, n)| (d.to_string(), n.to_string())).collect();
    assert_eq!(c, expected);
}

#[test]
fn path_extensions_come_from_pathext() {
    assert_eq!(windows_path_exts(Some(".COM;.EXE; ;")), strings(&[".com", ".exe"]));
    assert_eq!(windows_path_exts(Some(" ; ")), strings(&[".exe", ".cmd", ".bat"]));
    assert_eq!(windows_path_exts(None), strings(&[".exe", ".cmd", ".bat"]));
}

#[test]
fn windows_environment_values_are_expanded() {
    let v = expand_windows_env("%PROGRAMFILES(X86)%\\X;%PROGRAMFILES%\\Y;%LOCALAPPDATA%", Some("L"), Some("P"), None);
    assert_eq!(v, "%PROGRAMFILES(X86)%\\X;P\\Y;L");
}

#[test]
fn unresolved_tool_notices() {
    assert_eq!(unresolved_tool_path_notice(ToolKind::Vscode, Platform::Windows), "未找到 VS Code 可执行文件，请选择安装路径后重试。");
    assert!(unresolved_tool_path_notice(ToolKind::RustDesk, Platform::Linux).starts_with("未找到 RustDesk 可执行文件。Linux/macOS MVP"));
    assert!(non_windows_path_boundary_notice(ToolKind::VncViewer, Platform::MacOs).contains(".app 应用包"));
}

#[test]
fn verify_credentials_come_from_trimmed_fields() {
    assert_eq!(
        verify_credential_input(" pi ", " pw "),
        VerifyCredentialInput::UsernamePassword { username: "pi".to_string(), password: "pw".to_string() }
    );
    assert_eq!(verify_credential_input("", "pw"), VerifyCredentialInput::PasswordOnly);
    assert_eq!(verify_credential_input(" ", ""), VerifyCredentialInput::Empty);
    assert_eq!(
        resolve_verify_credentials(VerifyCredentialInput::UsernameOnly { username: "pi".to_string() }),
        Some(("pi".to_string(), None))
    );
    assert_eq!(resolve_verify_credentials(VerifyCredentialInput::PasswordOnly), None);
    assert_eq!(normalized_rustdesk_password(false, "x"), None);
    assert_eq!(normalized_rustdesk_password(true, " x "), Some("x".to_string()));
    assert_eq!(quick_connect_launcher_for_tool(ToolKind::VncViewer), "vnc");
}

#[test]
fn launch_context_falls_back_to_ssh_credentials() {
    assert_eq!(build_launch_context("ip", " ", "", false, "", "").unwrap_err(), "请先填写 SSH 用户名");
    let c = build_launch_context("10.0.0.2", " pi ", "secret", true, "", " vncpw ").unwrap();
    assert_eq!(c.username, "pi");
    assert_eq!(c.password.as_deref(), Some("secret"));
    assert_eq!(c.vnc_username.as_deref(), Some("pi"));
    assert_eq!(c.vnc_username_source, VncCredentialFieldSource::SshFallback);
    assert_eq!(c.vnc_password.as_deref(), Some("vncpw"));
    assert_eq!(c.vnc_source, VncCredentialSource::Dedicated);
    let c = build_launch_context("10.0.0.2", "pi", " ", false, "x", "y").unwrap();
    assert!(c.password.is_none());
    assert_eq!(c.vnc_source, VncCredentialSource::Unavailable);
    assert_eq!(resolve_vnc_value(" ", Some(" ".to_string())), (None, VncCredentialFieldSource::Unavailable));
    assert_eq!(
        summarize_vnc_source(VncCredentialFieldSource::Unavailable, VncCredentialFieldSource::SshFallback),
        VncCredentialSource::SshFallback
    );
}
