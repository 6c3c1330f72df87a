//! The short notices that the interface shows after a connection attempt, and their compact
//! forms for the result header.
use vstd::prelude::*;
use crate::platform::AppLanguage;
use crate::ssh_auth::{KeyReadySource, LaunchAuthPreparation};
use crate::text::{append_str, contains, contains_str, to_chars};

verus! {

/// How a notice reads: good news, something to look at, or a failure.
#[derive(Debug, Clone, Copy, PartialEq, Eq)]
pub enum NoticeTone {
    Success,
    Warning,
    Error,
}

/// A notice with its tone.
#[derive(Debug, Clone)]
pub struct Notice {
    pub tone: NoticeTone,
    pub message: String,
}

/// The tone of a notice about a connection that was started.
#[derive(Debug, Clone, Copy, PartialEq, Eq)]
pub enum ConnectNoticeTone {
    Success,
    Warning,
}

/// A notice about a connection that was started.
#[derive(Debug, Clone)]
pub struct ConnectNotice {
    pub tone: ConnectNoticeTone,
    pub message: String,
}

/// `s` cut to `max` characters: where it is longer, its first `max - 3` characters (none when
/// `max` is below 3) followed by `...`.
pub open spec fn truncated(s: Seq<char>, max: nat) -> Seq<char> {
    if s.len() <= max {
        s
    } else {
        s.take(if max >= 3 { max - 3 } else { 0 }) + "..."@
    }
}

/// Cuts `input` to at most `max_chars` characters for the header, ending a cut text with `...`.
pub fn truncate_header_text(input: &str, max_chars: usize) -> (r: String)
    ensures
        r@ == truncated(input@, max_chars as nat),
{
    let chars = to_chars(input);
    if chars.len() <= max_chars {
        return input.to_owned();
    }
    let keep = if max_chars >= 3 {
        max_chars - 3
    } else {
        0
    };
    let mut out = String::new();
    let mut i: usize = 0;
    while i < keep
        invariant
            keep <= max_chars < chars@.len(),
            chars@ == input@,
            i <= keep,
            out@ == input@.take(i as int),
        decreases keep - i,
    {
        out.push(chars[i]);
        i = i + 1;
        assert(out@ =~= input@.take(i as int));
    }
    append_str(&mut out, "...");
    out
}

/// The compact label of a notice, before it is cut to the header's width.
pub open spec fn compact_notice_label(tone: NoticeTone, message: Seq<char>) -> Seq<char> {
    match tone {
        NoticeTone::Success => if contains(message, "免密"@) {
            "免密准备完成"@
        } else if contains(message, "已启动"@) {
            "连接已启动"@
        } else {
            "操作成功"@
        },
        NoticeTone::Warning => if contains(message, "自动检测SSH凭证中"@) {
            "自动验证中"@
        } else if contains(message, "暂未开放"@) {
            "功能暂未开放"@
        } else if contains(message, "用户名"@) {
            "请填写 SSH 用户名"@
        } else if contains(message, "密码"@) {
            "需手动输入密码"@
        } else if contains(message, "认证"@) {
            "认证需人工确认"@
        } else {
            "请留意提示"@
        },
        NoticeTone::Error => if contains(message, "路径"@) {
            "工具路径配置失败"@
        } else if contains(message, "Docker"@) {
            "Docker 操作失败"@
        } else if contains(message, "启动"@) {
            "连接启动失败"@
        } else if contains(message, "认证"@) || contains(message, "SSH"@) {
            "SSH 认证失败"@
        } else {
            "操作失败"@
        },
    }
}

fn compact_notice_label_exec(tone: NoticeTone, message: &str) -> (r: &'static str)
    ensures
        r@ == compact_notice_label(tone, message@),
{
    let m = to_chars(message);
    match tone {
        NoticeTone::Success => {
            if contains_str(&m, "免密") {
                "免密准备完成"
            } else if contains_str(&m, "已启动") {
                "连接已启动"
            } else {
                "操作成功"
            }
        },
        NoticeTone::Warning => {
            if contains_str(&m, "自动检测SSH凭证中") {
                "自动验证中"
            } else if contains_str(&m, "暂未开放") {
                "功能暂未开放"
            } else if contains_str(&m, "用户名") {
                "请填写 SSH 用户名"
            } else if contains_str(&m, "密码") {
                "需手动输入密码"
            } else if contains_str(&m, "认证") {
                "认证需人工确认"
            } else {
                "请留意提示"
            }
        },
        NoticeTone::Error => {
            if contains_str(&m, "路径") {
                "工具路径配置失败"
            } else if contains_str(&m, "Docker") {
                "Docker 操作失败"
            } else if contains_str(&m, "启动") {
                "连接启动失败"
            } else if contains_str(&m, "认证") || contains_str(&m, "SSH") {
                "SSH 认证失败"
            } else {
                "操作失败"
            }
        },
    }
}

/// The notice in a few words for the result header: a fixed label picked by its tone and by
/// words in its message, cut to sixteen characters.
pub fn compact_notice_message(notice: &Notice) -> (r: String)
    ensures
        r@ == truncated(compact_notice_label(notice.tone, notice.message@), 16),
{
    let label = compact_notice_label_exec(notice.tone, notice.message.as_str());
    truncate_header_text(label, 16)
}

/// The compact label of a progress status, before it is cut to the header's width.
pub open spec fn compact_progress_label(status: Seq<char>) -> Seq<char> {
    if contains(status, "Docker"@) && contains(status, "容器"@) {
        "准备 Docker 容器"@
    } else if contains(status, "Docker"@) {
        "处理 Docker"@
    } else if contains(status, "终端"@) {
        "启动终端连接"@
    } else if contains(status, "VS Code"@) {
        "启动 VS Code"@
    } else if contains(status, "MobaXterm"@) {
        "启动 MobaXterm"@
    } else if contains(status, "VNC"@) {
        "启动 VNC"@
    } else if contains(status, "连接"@) {
        "启动连接"@
    } else {
        "处理中"@
    }
}

/// A progress status in a few words for the result header, cut to sixteen characters.
pub fn compact_progress_message(status: &str) -> (r: String)
    ensures
        r@ == truncated(compact_progress_label(status@), 16),
{
    let s = to_chars(status);
    let label = if contains_str(&s, "Docker") && contains_str(&s, "容器") {
        "准备 Docker 容器"
    } else if contains_str(&s, "Docker") {
        "处理 Docker"
    } else if contains_str(&s, "终端") {
        "启动终端连接"
    } else if contains_str(&s, "VS Code") {
        "启动 VS Code"
    } else if contains_str(&s, "MobaXterm") {
        "启动 MobaXterm"
    } else if contains_str(&s, "VNC") {
        "启动 VNC"
    } else if contains_str(&s, "连接") {
        "启动连接"
    } else {
        "处理中"
    };
    truncate_header_text(label, 16)
}

/// The text in the interface's language.
pub fn localized(language: AppLanguage, chinese: &'static str, english: &'static str) -> (r:
    &'static str)
    ensures
        r@ == match language {
            AppLanguage::Chinese => chinese@,
            AppLanguage::English => english@,
        },
{
    match language {
        AppLanguage::Chinese => chinese,
        AppLanguage::English => english,
    }
}

/// A notice of success.
pub fn success_connect_notice(message: String) -> (r: ConnectNotice)
    ensures
        r.tone == ConnectNoticeTone::Success,
        r.message@ == message@,
{
    ConnectNotice { tone: ConnectNoticeTone::Success, message }
}

/// A notice that asks for attention.
pub fn warning_connect_notice(message: String) -> (r: ConnectNotice)
    ensures
        r.tone == ConnectNoticeTone::Warning,
        r.message@ == message@,
{
    ConnectNotice { tone: ConnectNoticeTone::Warning, message }
}

/// The notice after a terminal was opened: success with a ready key, a reminder to type the
/// password with the password fallback, and the reason of a hard failure as a warning.
pub fn shell_connect_notice_for_language(
    preparation: &LaunchAuthPreparation,
    language: AppLanguage,
) -> (r: ConnectNotice)
    ensures
        match preparation {
            LaunchAuthPreparation::KeyReady { .. } => r.tone == ConnectNoticeTone::Success
                && r.message@ == match language {
                AppLanguage::Chinese => "已启动终端连接"@,
                AppLanguage::English => "Launched shell connection"@,
            },
            LaunchAuthPreparation::PasswordFallback { .. } => r.tone == ConnectNoticeTone::Warning
                && r.message@ == match language {
                AppLanguage::Chinese => "已打开终端，请按提示输入 SSH 密码"@,
                AppLanguage::English => "Opened the terminal. Enter the SSH password when prompted."@,
            },
            LaunchAuthPreparation::HardFailure { reason } => r.tone == ConnectNoticeTone::Warning
                && r.message@ == reason@,
        },
{
    match preparation {
        LaunchAuthPreparation::KeyReady { .. } => success_connect_notice(
            localized(language, "已启动终端连接", "Launched shell connection").to_owned(),
        ),
        LaunchAuthPreparation::PasswordFallback { .. } => warning_connect_notice(
            localized(
                language,
                "已打开终端，请按提示输入 SSH 密码",
                "Opened the terminal. Enter the SSH password when prompted.",
            ).to_owned(),
        ),
        LaunchAuthPreparation::HardFailure { reason } => warning_connect_notice(reason.clone()),
    }
}

/// The notice after a terminal was opened, in Chinese.
pub fn shell_connect_notice(preparation: &LaunchAuthPreparation) -> (r: ConnectNotice)
    ensures
        match preparation {
            LaunchAuthPreparation::KeyReady { .. } => r.tone == ConnectNoticeTone::Success
                && r.message@ == "已启动终端连接"@,
            LaunchAuthPreparation::PasswordFallback { .. } => r.tone == ConnectNoticeTone::Warning
                && r.message@ == "已打开终端，请按提示输入 SSH 密码"@,
            LaunchAuthPreparation::HardFailure { reason } => r.tone == ConnectNoticeTone::Warning
                && r.message@ == reason@,
        },
{
    shell_connect_notice_for_language(preparation, AppLanguage::Chinese)
}

/// One text or the other by the language.
pub open spec fn in_language(language: AppLanguage, chinese: Seq<char>, english: Seq<char>) -> Seq<
    char,
> {
    match language {
        AppLanguage::Chinese => chinese,
        AppLanguage::English => english,
    }
}

/// The port on which RustDesk takes direct IP connections by default.
pub const RUSTDESK_DIRECT_IP_PORT: u16 = 21118;

/// What is said when the RustDesk direct IP port of `device_ip` cannot be reached.
pub open spec fn rustdesk_probe_failure_text(
    device_ip: Seq<char>,
    detail: Seq<char>,
    language: AppLanguage,
) -> Seq<char> {
    match language {
        AppLanguage::Chinese => "RustDesk 默认 Direct IP 端口 21118 不可达："@ + device_ip
            + ":21118（"@ + detail
            + "）。请检查：目标是否已安装 RustDesk、RustDesk 是否正在运行、是否已开启 Direct IP、防火墙是否拦截端口 21118；若目标使用非默认端口，当前版本暂不支持。"@,
        AppLanguage::English => "RustDesk's default Direct IP port 21118 is unreachable at "@
            + device_ip + ":21118 ("@ + detail
            + "). Check whether RustDesk is installed on the target, whether the service is running, whether Direct IP is enabled, and whether a firewall is blocking port 21118. Non-default ports are not supported in the current version."@,
    }
}

/// The message for a RustDesk direct IP port that could not be reached, with the detail of
/// the failure.
pub fn rustdesk_probe_failure_message(device_ip: &str, detail: &str, language: AppLanguage) -> (r:
    String)
    ensures
        r@ == rustdesk_probe_failure_text(device_ip@, detail@, language),
{
    match language {
        AppLanguage::Chinese => {
            let mut out = "RustDesk 默认 Direct IP 端口 21118 不可达：".to_owned();
            append_str(&mut out, device_ip);
            append_str(&mut out, ":21118（");
            append_str(&mut out, detail);
            append_str(
                &mut out,
                "）。请检查：目标是否已安装 RustDesk、RustDesk 是否正在运行、是否已开启 Direct IP、防火墙是否拦截端口 21118；若目标使用非默认端口，当前版本暂不支持。",
            );
            out
        },
        AppLanguage::English => {
            let mut out = "RustDesk's default Direct IP port 21118 is unreachable at ".to_owned();
            append_str(&mut out, device_ip);
            append_str(&mut out, ":21118 (");
            append_str(&mut out, detail);
            append_str(
                &mut out,
                "). Check whether RustDesk is installed on the target, whether the service is running, whether Direct IP is enabled, and whether a firewall is blocking port 21118. Non-default ports are not supported in the current version.",
            );
            out
        },
    }
}

/// What is said after `action` was started, by how SSH access was prepared.
pub open spec fn auth_notice_text(
    language: AppLanguage,
    action: Seq<char>,
    preparation: LaunchAuthPreparation,
) -> Seq<char> {
    match preparation {
        LaunchAuthPreparation::KeyReady { source: KeyReadySource::Existing, .. } => in_language(
            language,
            "已启动 "@ + action,
            "Launched "@ + action,
        ),
        LaunchAuthPreparation::KeyReady { source: KeyReadySource::Installed, .. } => in_language(
            language,
            "已完成免密准备并启动 "@ + action,
            "Prepared passwordless access and launched "@ + action,
        ),
        LaunchAuthPreparation::PasswordFallback { reason } => in_language(
            language,
            "已启动 "@ + action + "，请按提示输入密码（"@ + reason@ + "）"@,
            "Launched "@ + action + ". Enter the password when prompted ("@ + reason@ + ")"@,
        ),
        LaunchAuthPreparation::HardFailure { reason } => reason@,
    }
}

/// The notice after `action` was started: success with a key ready, a warning that asks for
/// the password with the password fallback, and the reason of a hard failure as a warning.
pub fn auth_connect_notice(
    language: AppLanguage,
    action: &str,
    preparation: &LaunchAuthPreparation,
) -> (r: ConnectNotice)
    ensures
        r.tone == if preparation is KeyReady {
            ConnectNoticeTone::Success
        } else {
            ConnectNoticeTone::Warning
        },
        r.message@ == auth_notice_text(language, action@, *preparation),
{
    match preparation {
        LaunchAuthPreparation::KeyReady { source: KeyReadySource::Existing, .. } => {
            let mut out = localized(language, "已启动 ", "Launched ").to_owned();
            append_str(&mut out, action);
            success_connect_notice(out)
        },
        LaunchAuthPreparation::KeyReady { source: KeyReadySource::Installed, .. } => {
            let mut out = localized(
                language,
                "已完成免密准备并启动 ",
                "Prepared passwordless access and launched ",
            ).to_owned();
            append_str(&mut out, action);
            success_connect_notice(out)
        },
        LaunchAuthPreparation::PasswordFallback { reason } => {
            let mut out = localized(language, "已启动 ", "Launched ").to_owned();
            append_str(&mut out, action);
            append_str(
                &mut out,
                localized(language, "，请按提示输入密码（", ". Enter the password when prompted ("),
            );
            append_str(&mut out, reason.as_str());
            append_str(&mut out, localized(language, "）", ")"));
            warning_connect_notice(out)
        },
        LaunchAuthPreparation::HardFailure { reason } => warning_connect_notice(reason.clone()),
    }
}

/// The notice after MobaXterm was started: its own success text with a key ready, else as for
/// any other action.
pub fn mobaxterm_connect_notice(language: AppLanguage, preparation: &LaunchAuthPreparation) -> (r:
    ConnectNotice)
    ensures
        preparation is KeyReady ==> r.tone == ConnectNoticeTone::Success && r.message@
            == in_language(language, "MobaXterm 已启动"@, "Launched MobaXterm"@),
        !(preparation is KeyReady) ==> r.tone == ConnectNoticeTone::Warning && r.message@
            == auth_notice_text(language, "MobaXterm"@, *preparation),
{
    match preparation {
        LaunchAuthPreparation::KeyReady { .. } => success_connect_notice(
            localized(language, "MobaXterm 已启动", "Launched MobaXterm").to_owned(),
        ),
        other => auth_connect_notice(language, "MobaXterm", other),
    }
}

/// A step of starting a connection that can fail.
#[derive(Debug, Clone, Copy, PartialEq, Eq)]
pub enum LaunchStep {
    Vscode,
    Mobaxterm,
    VncViewer,
    RustDesk,
    DockerStart,
    DockerUri,
    DockerAttach,
}

/// The words put before the error of a failed step.
pub open spec fn launch_step_prefix(language: AppLanguage, step: LaunchStep) -> Seq<char> {
    match step {
        LaunchStep::Vscode => in_language(language, "启动 VS Code 失败: "@, "Failed to launch VS Code: "@),
        LaunchStep::Mobaxterm => in_language(
            language,
            "启动 MobaXterm 失败: "@,
            "Failed to launch MobaXterm: "@,
        ),
        LaunchStep::VncViewer => in_language(
            language,
            "启动 VNC Viewer 失败: "@,
            "Failed to launch VNC Viewer: "@,
        ),
        LaunchStep::RustDesk => in_language(
            language,
            "启动 RustDesk 失败: "@,
            "Failed to launch RustDesk: "@,
        ),
        LaunchStep::DockerStart => in_language(
            language,
            "启动 Docker 容器失败: "@,
            "Failed to start the Docker container: "@,
        ),
        LaunchStep::DockerUri => in_language(
            language,
            "准备 Docker attach URI 失败: "@,
            "Failed to prepare the Docker attach URI: "@,
        ),
        LaunchStep::DockerAttach => in_language(
            language,
            "启动 VS Code Docker attach 失败: "@,
            "Failed to launch VS Code Docker attach: "@,
        ),
    }
}

/// The message for a step that failed with `error`.
pub fn launch_failure_message(language: AppLanguage, step: LaunchStep, error: &str) -> (r: String)
    ensures
        r@ == launch_step_prefix(language, step) + error@,
{
    let prefix = match step {
        LaunchStep::Vscode => localized(language, "启动 VS Code 失败: ", "Failed to launch VS Code: "),
        LaunchStep::Mobaxterm => localized(
            language,
            "启动 MobaXterm 失败: ",
            "Failed to launch MobaXterm: ",
        ),
        LaunchStep::VncViewer => localized(
            language,
            "启动 VNC Viewer 失败: ",
            "Failed to launch VNC Viewer: ",
        ),
        LaunchStep::RustDesk => localized(
            language,
            "启动 RustDesk 失败: ",
            "Failed to launch RustDesk: ",
        ),
        LaunchStep::DockerStart => localized(
            language,
            "启动 Docker 容器失败: ",
            "Failed to start the Docker container: ",
        ),
        LaunchStep::DockerUri => localized(
            language,
            "准备 Docker attach URI 失败: ",
            "Failed to prepare the Docker attach URI: ",
        ),
        LaunchStep::DockerAttach => localized(
            language,
            "启动 VS Code Docker attach 失败: ",
            "Failed to launch VS Code Docker attach: ",
        ),
    };
    let mut out = prefix.to_owned();
    append_str(&mut out, error);
    out
}

/// The notice after VNC Viewer was started: success, or a warning where a message about the
/// credentials or a launch warning came with it.
pub fn vnc_launch_notice(
    language: AppLanguage,
    resolution_message: Option<String>,
    launch_warning: Option<String>,
) -> (r: ConnectNotice)
    ensures
        resolution_message is None && launch_warning is None ==> r.tone
            == ConnectNoticeTone::Success && r.message@ == in_language(
            language,
            "已启动 VNC Viewer"@,
            "Launched VNC Viewer"@,
        ),
        !(resolution_message is None && launch_warning is None) ==> r.tone
            == ConnectNoticeTone::Warning && r.message@ == in_language(
            language,
            "已启动 VNC Viewer，部分凭据需手动输入"@,
            "Launched VNC Viewer, but some credentials still need to be entered manually"@,
        ),
{
    if resolution_message.is_none() && launch_warning.is_none() {
        success_connect_notice(localized(language, "已启动 VNC Viewer", "Launched VNC Viewer").to_owned())
    } else {
        warning_connect_notice(
            localized(
                language,
                "已启动 VNC Viewer，部分凭据需手动输入",
                "Launched VNC Viewer, but some credentials still need to be entered manually",
            ).to_owned(),
        )
    }
}

/// The notice after RustDesk was started, by whether a connection password was passed on.
pub fn rustdesk_launch_notice(language: AppLanguage, password_given: bool) -> (r: ConnectNotice)
    ensures
        password_given ==> r.tone == ConnectNoticeTone::Success && r.message@ == in_language(
            language,
            "已启动 RustDesk，已尝试带入连接密码"@,
            "Launched RustDesk and attempted to pass the connection password"@,
        ),
        !password_given ==> r.tone == ConnectNoticeTone::Warning && r.message@ == in_language(
            language,
            "已启动 RustDesk，但未提供连接密码，请在 RustDesk 客户端中手动输入"@,
            "Launched RustDesk, but no connection password was provided. Enter it manually in the RustDesk client."@,
        ),
{
    if password_given {
        success_connect_notice(
            localized(
                language,
                "已启动 RustDesk，已尝试带入连接密码",
                "Launched RustDesk and attempted to pass the connection password",
            ).to_owned(),
        )
    } else {
        warning_connect_notice(
            localized(
                language,
                "已启动 RustDesk，但未提供连接密码，请在 RustDesk 客户端中手动输入",
                "Launched RustDesk, but no connection password was provided. Enter it manually in the RustDesk client.",
            ).to_owned(),
        )
    }
}

/// The name of the Docker attach action for the container `name`.
pub fn docker_attach_action(language: AppLanguage, name: &str) -> (r: String)
    ensures
        r@ == in_language(
            language,
            "VS Code Docker attach（"@ + name@ + "）"@,
            "VS Code Docker attach ("@ + name@ + ")"@,
        ),
{
    let mut out = localized(language, "VS Code Docker attach（", "VS Code Docker attach (").to_owned();
    append_str(&mut out, name);
    append_str(&mut out, localized(language, "）", ")"));
    out
}

} // verus!
