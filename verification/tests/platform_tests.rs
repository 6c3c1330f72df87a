use lanscanner::docker::{
    build_devcontainer_uri, build_devcontainer_uri_with_workdir, container_user_from_output,
    containers_from_output, expected_workdir, hex_encode, json_escape, map_docker_error,
    parse_container_list, restart_container_command, workdir_from_check, DockerError,
};
use lanscanner::credential::Credential;
use lanscanner::launch_mode::{
    parse_launch_mode, password_for, preferred_username, scene_language, scene_needs_resize,
    scene_resize_fallback_frames, scene_settling_frames, LaunchMode, VisualCheckConfig,
    VisualScene,
};
use lanscanner::network::{select_by_id, signature, sort_by_id, InterfaceType, NetworkInterface};
use lanscanner::platform::{
    classify_linux_startup_backend, classify_locale_identifier, linux_startup_custom_chrome,
    normalize_locale_identifier, should_retry_linux_window_sync,
    should_sync_linux_window_runtime, spinner, uses_custom_titlebar, uses_transparent_surface,
    AppLanguage, Glyph, LinuxCustomChrome, LinuxStartupBackend, LinuxWindowBackend,
    LinuxWindowRuntime, Platform, SystemLanguage, ThemeMode, LINUX_WINDOW_SYNC_MAX_ATTEMPTS,
};
use lanscanner::ssh_auth::CommandOutput;

fn runtime(backend: LinuxWindowBackend) -> LinuxWindowRuntime {
    LinuxWindowRuntime {
        backend,
        is_maximized: None,
        sync_error: None,
    }
}

#[test]
fn linux_window_sync_retries_unknown_and_x11_until_budget_exhausted() {
    let unknown = runtime(LinuxWindowBackend::Unknown);
    let x11_xlib = runtime(LinuxWindowBackend::X11Xlib);
    let x11_xcb = runtime(LinuxWindowBackend::X11Xcb);

    assert!(should_retry_linux_window_sync(None, 0));
    assert!(should_retry_linux_window_sync(Some(&unknown), 0,));
    assert!(should_retry_linux_window_sync(
        Some(&x11_xlib),
        LINUX_WINDOW_SYNC_MAX_ATTEMPTS - 2,
    ));
    assert!(!should_retry_linux_window_sync(
        Some(&x11_xcb),
        LINUX_WINDOW_SYNC_MAX_ATTEMPTS - 1,
    ));
}

#[test]
fn linux_window_sync_stops_after_confirmed_wayland_backend() {
    let wayland = runtime(LinuxWindowBackend::Wayland);

    assert!(!should_sync_linux_window_runtime(Some(&wayland)));
    assert!(!should_retry_linux_window_sync(Some(&wayland), 0));
}

#[test]
fn linux_window_sync_runs_until_runtime_enters_unknown_or_x11_states() {
    let unknown = runtime(LinuxWindowBackend::Unknown);
    let x11_xcb = runtime(LinuxWindowBackend::X11Xcb);
    let x11_xlib = runtime(LinuxWindowBackend::X11Xlib);

    assert!(should_sync_linux_window_runtime(None));
    assert!(should_sync_linux_window_runtime(Some(&unknown)));
    assert!(should_sync_linux_window_runtime(Some(&x11_xcb)));
    assert!(should_sync_linux_window_runtime(Some(&x11_xlib)));
}

#[test]
fn normalizes_common_locale_formats() {
    assert_eq!(
        normalize_locale_identifier(Some(" zh_CN.UTF-8 ")).as_deref(),
        Some("zh-cn")
    );
    assert_eq!(
        normalize_locale_identifier(Some("zh_Hant@calendar=roc")).as_deref(),
        Some("zh-hant")
    );
}

#[test]
fn classifies_supported_chinese_markers_as_chinese() {
    for locale in [
        "zh",
        "zh-CN",
        "zh-SG",
        "zh-TW",
        "zh-HK",
        "zh-MO",
        "zh-Hans",
        "zh-Hant",
        "zh_CN.UTF-8",
        "zh_Hant@calendar=roc",
    ] {
        assert_eq!(
            classify_locale_identifier(Some(locale)),
            SystemLanguage::Chinese,
            "expected {locale} to map to Chinese"
        );
    }
}

#[test]
fn classifies_non_chinese_and_missing_locales_as_other() {
    for locale in [
        None,
        Some(""),
        Some("en-US"),
        Some("ja-JP"),
        Some("fr_FR.UTF-8"),
    ] {
        assert_eq!(
            classify_locale_identifier(locale),
            SystemLanguage::Other,
            "expected {locale:?} to map to Other"
        );
    }
}

#[test]
fn startup_backend_prefers_the_session_type() {
    assert_eq!(
        classify_linux_startup_backend(true, true, Some("X11")),
        LinuxStartupBackend::X11
    );
    assert_eq!(
        classify_linux_startup_backend(false, true, None),
        LinuxStartupBackend::X11
    );
    assert_eq!(
        classify_linux_startup_backend(false, false, Some("tty")),
        LinuxStartupBackend::Unknown
    );
    assert_eq!(
        linux_startup_custom_chrome(true, false, None),
        LinuxCustomChrome::WaylandActive
    );
    assert!(!uses_transparent_surface(Platform::Linux, LinuxCustomChrome::WaylandActive));
    assert!(uses_transparent_surface(Platform::Windows, LinuxCustomChrome::Fallback));
    assert!(!uses_custom_titlebar(Platform::MacOs));
    assert_eq!(
        runtime(LinuxWindowBackend::X11Xlib).custom_chrome(Platform::Linux),
        LinuxCustomChrome::X11Active
    );
}

#[test]
fn toggles_switch_back_and_forth() {
    assert_eq!(AppLanguage::Chinese.toggle(), AppLanguage::English);
    assert_eq!(AppLanguage::default().toggle().toggle(), AppLanguage::Chinese);
    assert_eq!(ThemeMode::Dark.toggle(), ThemeMode::Light);
    assert_eq!(ThemeMode::Light.name(), "LanScan Light");
    assert_eq!(spinner("|"), Glyph::Spinner3);
    assert_eq!(spinner("?"), Glyph::Pending);
}

#[test]
fn builds_expected_attached_container_uri() {
    let uri = build_devcontainer_uri("192.168.1.8", "root", "demo");

    assert!(uri.starts_with("vscode-remote://attached-container+"));
    assert!(uri.ends_with('/'));
}

#[test]
fn attached_container_uri_encodes_the_payload_in_hex() {
    let uri = build_devcontainer_uri_with_workdir("h", "u", "n", "/root");
    let payload = "{\"containerName\":\"/n\",\"settings\":{\"host\":\"ssh://u@h:22\"}}";
    let expected = format!("vscode-remote://attached-container+{}/root", hex_encode(payload.as_bytes()));
    assert_eq!(uri, expected);
    assert_eq!(hex_encode(&[0x00, 0xab, 0x7f]), "00ab7f");
    assert_eq!(json_escape("a\"b\\c"), "a\\\"b\\\\c");
}

#[test]
fn docker_listing_is_parsed_line_by_line() {
    let containers =
        parse_container_list("abc | web | nginx | Up 2 hours\n\n def|db|pg|Exited (0)\n").unwrap();
    assert_eq!(containers.len(), 2);
    assert_eq!(containers[0].name, "web");
    assert!(containers[0].is_running);
    assert_eq!(containers[1].status, "Exited (0)");
    assert!(!containers[1].is_running);
    let err = parse_container_list("a|b|c\n").unwrap_err();
    assert_eq!(err.message(), "unexpected docker ps output line: a|b|c");
    let err = parse_container_list("  \n").unwrap_err();
    assert!(matches!(err, DockerError::Runtime(_)));
}

#[test]
fn docker_failures_are_explained() {
    assert_eq!(map_docker_error("", "bash: docker: command not found", "f"), "远程主机未安装 Docker");
    assert_eq!(map_docker_error("x", "", "f"), "f");
    assert_eq!(map_docker_error("", "", "f"), "未在远程主机上发现 Docker 容器");
    let output = CommandOutput { stdout: String::new(), stderr: String::from("oops"), exit_status: 1 };
    assert_eq!(containers_from_output(&output).unwrap_err().message(), "oops");
    assert_eq!(restart_container_command("c1"), "docker start 'c1'");
}

#[test]
fn container_user_and_workdir() {
    let out = |s: &str| CommandOutput { stdout: String::from(s), stderr: String::new(), exit_status: 0 };
    assert_eq!(container_user_from_output(&out(" 1000 ")).unwrap(), "root");
    assert_eq!(container_user_from_output(&out("dev:dev")).unwrap(), "dev");
    assert_eq!(expected_workdir("root"), "/root");
    assert_eq!(expected_workdir("dev"), "/home/dev");
    assert_eq!(workdir_from_check(1, String::from("/home/dev")), "/");
}

fn iface(id: &str, t: InterfaceType) -> NetworkInterface {
    NetworkInterface {
        id: String::from(id),
        name: format!("if {id}"),
        ip_range: String::from("10.0.0.0/24"),
        iface_type: t,
        local_ip: String::from("10.0.0.2"),
    }
}

#[test]
fn interfaces_are_selected_and_signed_by_id() {
    let list = vec![iface("b", InterfaceType::Wifi), iface("a", InterfaceType::Ethernet)];
    assert_eq!(select_by_id(&list, Some("a")).unwrap().name, "if a");
    assert!(select_by_id(&list, Some("z")).is_none());
    assert!(select_by_id(&list, None).is_none());
    let sorted = sort_by_id(&list);
    assert_eq!(sorted[0].id, "a");
    let reversed = vec![list[1].clone(), list[0].clone()];
    assert_eq!(signature(&list), signature(&reversed));
    assert_eq!(list[0].display_text(), "[WiFi] if b (10.0.0.0/24)");
    assert_eq!(InterfaceType::Other.short_label(), "Net");
}

#[test]
fn visual_check_arguments() {
    let args = vec![String::from("--visual-check"), String::from(" Help-Modal ")];
    match parse_launch_mode(&args, "/work").unwrap() {
        LaunchMode::VisualCheck(config) => {
            assert_eq!(config.scenes, vec![VisualScene::HelpModal]);
            assert_eq!(config.output_dir, "/work/.visual-check");
            assert!(config.needs_large_window());
        }
        LaunchMode::Normal => panic!("expected the visual check"),
    }
    assert!(matches!(parse_launch_mode(&Vec::new(), "/w").unwrap(), LaunchMode::Normal));
    let err = parse_launch_mode(&vec![String::from("--output-dir")], "/w").unwrap_err();
    assert_eq!(err, "missing value for --output-dir. usage: --output-dir <path>");
    let err = parse_launch_mode(&vec![String::from("-x")], "/w").unwrap_err();
    assert!(err.starts_with("unknown argument `-x`"));
    let all = VisualCheckConfig::from_args("ALL", Some(String::from("/o")), "/w").unwrap();
    assert_eq!(all.scenes.len(), 13);
    assert_eq!(all.output_dir, "/o");
    assert!(VisualCheckConfig::from_args("nope", None, "/w").is_err());
    assert_eq!(VisualScene::DockerModal.file_name(), "docker-modal.png");
    assert_eq!(VisualScene::parse("idle"), Some(VisualScene::Idle));
}

fn credential(username: &str, password: Option<&str>) -> Credential {
    Credential {
        id: format!("custom:{username}"),
        username: username.to_string(),
        password: password.map(|p| p.to_string()),
        is_preset: false,
        can_delete: true,
    }
}

#[test]
fn scenes_pick_their_language() {
    assert_eq!(scene_language(VisualScene::Idle), AppLanguage::Chinese);
    assert_eq!(scene_language(VisualScene::Scanning), AppLanguage::Chinese);
    assert_eq!(scene_language(VisualScene::HelpModalDark), AppLanguage::English);
    assert_eq!(scene_language(VisualScene::CredentialEditing), AppLanguage::English);
}

#[test]
fn scenes_show_a_known_user_and_password() {
    let creds = vec![credential("pi", None), credential("admin", Some("secret"))];
    assert_eq!(preferred_username(&creds, "admin"), Some("admin".to_string()));
    assert_eq!(preferred_username(&creds, "ghost"), Some("pi".to_string()));
    assert_eq!(preferred_username(&[], "ghost"), Some("ghost".to_string()));
    assert_eq!(password_for(&creds, "admin"), Some("secret".to_string()));
    assert_eq!(password_for(&creds, "pi"), Some("demo-password".to_string()));
    assert_eq!(password_for(&creds, "ghost"), Some("demo-password".to_string()));
}

#[test]
fn help_scenes_wait_longer_and_resize_the_window() {
    assert_eq!(scene_settling_frames(VisualScene::Idle), 2);
    assert_eq!(scene_settling_frames(VisualScene::HelpModal), 4);
    assert_eq!(scene_resize_fallback_frames(VisualScene::DockerModal), 3);
    assert_eq!(scene_resize_fallback_frames(VisualScene::HelpModalDark), 6);
    assert!(scene_needs_resize(None, VisualScene::HelpModal));
    assert!(!scene_needs_resize(None, VisualScene::Idle));
    assert!(scene_needs_resize(Some(VisualScene::Idle), VisualScene::HelpModalDark));
    assert!(!scene_needs_resize(Some(VisualScene::HelpModal), VisualScene::HelpModalDark));
    assert!(scene_needs_resize(Some(VisualScene::HelpModal), VisualScene::Scanning));
    assert!(!scene_needs_resize(Some(VisualScene::Idle), VisualScene::Scanning));
}
