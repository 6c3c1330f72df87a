//! What the connection launchers hand to the client programs: command lines, URIs and the
//! decisions taken on what a start attempt gave back.
use vstd::prelude::*;
use crate::platform::Platform;
use crate::ssh_auth::LaunchAuthPreparation;
use crate::ssh_config::{ConfigError, config_error_text};
use crate::text::{
    append_str, lower_char, lower_char_exec, replace_char, replace_char_exec, to_chars, trim,
    trimmed, from_chars,
};

verus! {

/// Why a client program could not be started.
#[derive(Debug)]
pub enum LaunchError {
    Io(String),
    Config(ConfigError),
    Unsupported(String),
}

/// The text of a launch error.
pub open spec fn launch_error_text(e: LaunchError) -> Seq<char> {
    match e {
        LaunchError::Io(m) => m@,
        LaunchError::Config(c) => config_error_text(c),
        LaunchError::Unsupported(m) => m@,
    }
}

impl LaunchError {
    /// The text of the error, as it is shown.
    pub fn message(&self) -> (r: String)
        ensures
            r@ == launch_error_text(*self),
    {
        match self {
            LaunchError::Io(m) => m.clone(),
            LaunchError::Config(c) => c.message(),
            LaunchError::Unsupported(m) => m.clone(),
        }
    }
}

fn has_char(v: &[char], c: char) -> (r: bool)
    ensures
        r == v@.contains(c),
{
    let mut i: usize = 0;
    while i < v.len()
        invariant
            i <= v@.len(),
            forall|k: int| 0 <= k < i ==> v@[k] != c,
        decreases v@.len() - i,
    {
        if v[i] == c {
            assert(v@[i as int] == c);
            return true;
        }
        i = i + 1;
    }
    false
}

/// `s` in double quotes where it holds a space.
pub open spec fn quoted_if_spaced(s: Seq<char>) -> Seq<char> {
    if s.contains(' ') {
        seq!['"'] + s + seq!['"']
    } else {
        s
    }
}

/// A Windows path with forward slashes as MobaXterm's shell reads it: `C:/x` becomes
/// `/drives/c/x`.
pub open spec fn drive_path(raw: Seq<char>) -> Seq<char> {
    if raw.len() >= 3 && (raw[0] as u32) < 0x80 && raw[1] == ':' {
        "/drives/"@ + seq![lower_char(raw[0])] + raw.skip(2)
    } else {
        raw
    }
}

/// The key file as it is written on MobaXterm's `ssh` command line.
pub open spec fn mobaxterm_key_text(platform: Platform, key_path: Seq<char>) -> Seq<char> {
    match platform {
        Platform::Windows => quoted_if_spaced(drive_path(replace_char(key_path, '\\', "/"@))),
        _ => quoted_if_spaced(key_path),
    }
}

/// The key file as it is written on MobaXterm's `ssh` command line: on Windows with forward
/// slashes and a drive letter turned into `/drives/<letter>`; in quotes where it holds a space.
pub fn mobaxterm_key_argument(platform: Platform, key_path: &str) -> (r: String)
    ensures
        r@ == mobaxterm_key_text(platform, key_path@),
{
    let raw: Vec<char> = match platform {
        Platform::Windows => {
            let v = to_chars(key_path);
            let slash = to_chars("/");
            proof {
                reveal_strlit("/");
            }
            let replaced = replace_char_exec(&v, '\\', &slash);
            if replaced.len() >= 3 && (replaced[0] as u32) < 0x80 && replaced[1] == ':' {
                let mut out = to_chars("/drives/");
                out.push(lower_char_exec(replaced[0]));
                let mut i: usize = 2;
                let ghost head = out@;
                while i < replaced.len()
                    invariant
                        2 <= i <= replaced@.len(),
                        out@ == head + replaced@.subrange(2, i as int),
                    decreases replaced@.len() - i,
                {
                    out.push(replaced[i]);
                    i = i + 1;
                    assert(out@ =~= head + replaced@.subrange(2, i as int));
                }
                assert(replaced@.skip(2) =~= replaced@.subrange(2, replaced@.len() as int));
                assert(out@ =~= "/drives/"@ + seq![lower_char(replaced@[0])] + replaced@.skip(2));
                out
            } else {
                replaced
            }
        },
        _ => to_chars(key_path),
    };
    let spaced = has_char(&raw, ' ');
    let mut out: Vec<char> = Vec::new();
    if spaced {
        out.push('"');
    }
    let mut i: usize = 0;
    let ghost head = out@;
    while i < raw.len()
        invariant
            i <= raw@.len(),
            out@ == head + raw@.take(i as int),
        decreases raw@.len() - i,
    {
        out.push(raw[i]);
        i = i + 1;
        assert(out@ =~= head + raw@.take(i as int));
    }
    assert(raw@.take(raw@.len() as int) =~= raw@);
    if spaced {
        out.push('"');
    }
    proof {
        if spaced {
            assert(out@ =~= seq!['"'] + raw@ + seq!['"']);
        } else {
            assert(out@ =~= raw@);
        }
    }
    from_chars(&out)
}

/// The `ssh` command line that MobaXterm runs with a ready key.
pub open spec fn mobaxterm_key_command_text(
    platform: Platform,
    ip: Seq<char>,
    user: Seq<char>,
    key_path: Seq<char>,
) -> Seq<char> {
    "ssh -i "@ + mobaxterm_key_text(platform, key_path)
        + " -o IdentitiesOnly=yes -o PreferredAuthentications=publickey,password -o HostKeyAlgorithms=+ssh-rsa -o PubkeyAcceptedAlgorithms=+ssh-rsa -o PubkeyAcceptedKeyTypes=+ssh-rsa "@
        + user + "@"@ + ip
}

/// The `ssh` command line that MobaXterm runs with a ready key: the key alone, then password
/// as a second choice, with the older RSA algorithms allowed.
pub fn build_mobaxterm_key_command(platform: Platform, ip: &str, user: &str, key_path: &str) -> (r:
    String)
    ensures
        r@ == mobaxterm_key_command_text(platform, ip@, user@, key_path@),
{
    let key_argument = mobaxterm_key_argument(platform, key_path);
    let mut out = "ssh -i ".to_owned();
    append_str(&mut out, key_argument.as_str());
    append_str(
        &mut out,
        " -o IdentitiesOnly=yes -o PreferredAuthentications=publickey,password -o HostKeyAlgorithms=+ssh-rsa -o PubkeyAcceptedAlgorithms=+ssh-rsa -o PubkeyAcceptedKeyTypes=+ssh-rsa ",
    );
    append_str(&mut out, user);
    append_str(&mut out, "@");
    append_str(&mut out, ip);
    out
}

/// The arguments MobaXterm is started with: a new tab running `ssh`, with the key where one is
/// ready and plain otherwise; a hard failure starts nothing and gives its reason.
pub fn mobaxterm_arguments(
    platform: Platform,
    ip: &str,
    user: &str,
    auth: &LaunchAuthPreparation,
) -> (r: Result<Vec<String>, LaunchError>)
    ensures
        match auth {
            LaunchAuthPreparation::KeyReady { key_path, .. } => r matches Ok(args) && args@.len()
                == 2 && args@[0]@ == "-newtab"@ && args@[1]@ == mobaxterm_key_command_text(
                platform,
                ip@,
                user@,
                key_path@,
            ),
            LaunchAuthPreparation::PasswordFallback { .. } => r matches Ok(args) && args@.len()
                == 2 && args@[0]@ == "-newtab"@ && args@[1]@ == "ssh "@ + user@ + "@"@ + ip@,
            LaunchAuthPreparation::HardFailure { reason } => r matches Err(
                LaunchError::Unsupported(m),
            ) && m@ == reason@,
        },
{
    match auth {
        LaunchAuthPreparation::KeyReady { key_path, .. } => {
            let command = build_mobaxterm_key_command(platform, ip, user, key_path.as_str());
            let mut args: Vec<String> = Vec::new();
            args.push("-newtab".to_owned());
            args.push(command);
            Ok(args)
        },
        LaunchAuthPreparation::PasswordFallback { .. } => {
            let mut command = "ssh ".to_owned();
            append_str(&mut command, user);
            append_str(&mut command, "@");
            append_str(&mut command, ip);
            let mut args: Vec<String> = Vec::new();
            args.push("-newtab".to_owned());
            args.push(command);
            Ok(args)
        },
        LaunchAuthPreparation::HardFailure { reason } => Err(LaunchError::Unsupported(reason.clone())),
    }
}

/// A value that is given and not blank.
pub open spec fn filled(v: Option<&str>) -> bool {
    v matches Some(s) && trim(s@).len() > 0
}

/// The warning given when VNC Viewer is started with a user name or a password that it cannot
/// be handed safely.
pub open spec fn vnc_omission_warning(username: Option<&str>, password: Option<&str>) -> Option<
    Seq<char>,
> {
    let fields = if filled(username) && filled(password) {
        "用户名和密码"@
    } else if filled(username) {
        "用户名"@
    } else {
        "密码"@
    };
    if !filled(username) && !filled(password) {
        None
    } else {
        Some("当前 VNC Viewer 启动链路未安全自动带入"@ + fields + "，已仅启动客户端，请在客户端中手动输入。"@)
    }
}

fn is_filled(v: Option<&str>) -> (r: bool)
    ensures
        r == filled(v),
{
    match v {
        Some(s) => trimmed(s).len() > 0,
        None => false,
    }
}

/// The arguments VNC Viewer is started with, and the warning about the credentials it was not
/// handed: VNC Viewer starts with the address alone.
pub fn vncviewer_launch(ip: &str, username: Option<&str>, password: Option<&str>) -> (r: (
    Vec<String>,
    Option<String>,
))
    ensures
        r.0@.len() == 2,
        r.0@[0]@ == "-UseAddressBook"@,
        r.0@[1]@ == ip@,
        match (r.1, vnc_omission_warning(username, password)) {
            (Some(w), Some(t)) => w@ == t,
            (None, None) => true,
            _ => false,
        },
{
    let mut args: Vec<String> = Vec::new();
    args.push("-UseAddressBook".to_owned());
    args.push(ip.to_owned());
    let u = is_filled(username);
    let p = is_filled(password);
    let warning = if !u && !p {
        None
    } else {
        let fields = if u && p {
            "用户名和密码"
        } else if u {
            "用户名"
        } else {
            "密码"
        };
        let mut w = "当前 VNC Viewer 启动链路未安全自动带入".to_owned();
        append_str(&mut w, fields);
        append_str(&mut w, "，已仅启动客户端，请在客户端中手动输入。");
        Some(w)
    };
    (args, warning)
}

/// The arguments RustDesk is started with: the target, then the password, trimmed, where one
/// that is not blank is given.
pub fn rustdesk_arguments(target: &str, password: Option<&str>) -> (r: Vec<String>)
    ensures
        r@.len() == if filled(password) {
            4int
        } else {
            2int
        },
        r@[0]@ == "--connect"@,
        r@[1]@ == target@,
        filled(password) ==> r@[2]@ == "--password"@ && r@[3]@ == trim(password->0@),
{
    let mut args: Vec<String> = Vec::new();
    args.push("--connect".to_owned());
    args.push(target.to_owned());
    match password {
        Some(p) => {
            let t = trimmed(p);
            if t.len() > 0 {
                args.push("--password".to_owned());
                args.push(from_chars(&t));
            }
        },
        None => {},
    }
    args
}

/// The home directory of `user` on the remote machine, as VS Code opens it.
pub open spec fn remote_home(user: Seq<char>) -> Seq<char> {
    if user == "root"@ {
        "/root"@
    } else {
        "/home/"@ + user
    }
}

/// The VS Code URI that opens the home directory of `user` on the SSH host `target`.
pub fn vscode_ssh_uri(target: &str, user: &str) -> (r: String)
    ensures
        r@ == "vscode-remote://ssh-remote+"@ + target@ + remote_home(user@),
{
    let mut out = "vscode-remote://ssh-remote+".to_owned();
    append_str(&mut out, target);
    if crate::text::str_eq(user, "root") {
        append_str(&mut out, "/root");
    } else {
        append_str(&mut out, "/home/");
        append_str(&mut out, user);
    }
    out
}

/// `value` made safe inside an AppleScript string: backslashes and quotes escaped, line breaks
/// turned into spaces.
pub open spec fn applescript_escaped(value: Seq<char>) -> Seq<char> {
    replace_char(
        replace_char(
            replace_char(replace_char(value, '\\', "\\\\"@), '"', "\\\""@),
            '\n',
            " "@,
        ),
        '\r',
        " "@,
    )
}

/// `value` made safe inside an AppleScript string.
pub fn escape_applescript_string(value: &str) -> (r: String)
    ensures
        r@ == applescript_escaped(value@),
{
    let v = to_chars(value);
    let a = replace_char_exec(&v, '\\', &to_chars("\\\\"));
    let b = replace_char_exec(&a, '"', &to_chars("\\\""));
    let c = replace_char_exec(&b, '\n', &to_chars(" "));
    let d = replace_char_exec(&c, '\r', &to_chars(" "));
    from_chars(&d)
}

/// The SSH host that a launcher opens, and the SSH configuration text that goes with it: the
/// host alias of `ip` and `user`, whose block in `existing` is replaced (or added) by one that
/// uses the ready key, or by one that asks for the password; a hard failure gives its reason.
pub fn prepare_openssh_target(
    ip: &str,
    user: &str,
    auth: &LaunchAuthPreparation,
    existing: Option<&str>,
) -> (r: Result<(String, String), LaunchError>)
    ensures
        ({
            let old_text = match existing {
                Some(e) => e@,
                None => Seq::<char>::empty(),
            };
            let alias = crate::ssh_config::host_alias_spec(ip@, user@);
            match auth {
                LaunchAuthPreparation::KeyReady { key_path, .. } => r matches Ok((a, c)) && a@
                    == alias && c@ == crate::ssh_config::upserted(
                    old_text,
                    alias,
                    crate::ssh_config::managed_key_block(alias, ip@, user@, key_path@),
                ),
                LaunchAuthPreparation::PasswordFallback { .. } => r matches Ok((a, c)) && a@
                    == alias && c@ == crate::ssh_config::upserted(
                    old_text,
                    alias,
                    crate::ssh_config::password_fallback_block(alias, ip@, user@),
                ),
                LaunchAuthPreparation::HardFailure { reason } => r matches Err(
                    LaunchError::Unsupported(m),
                ) && m@ == reason@,
            }
        }),
{
    let alias = crate::ssh_config::host_alias(ip, user);
    match auth {
        LaunchAuthPreparation::KeyReady { key_path, .. } => {
            let content = crate::ssh_config::update_ssh_config(
                existing,
                alias.as_str(),
                ip,
                user,
                key_path.as_str(),
            );
            Ok((alias, content))
        },
        LaunchAuthPreparation::PasswordFallback { .. } => {
            let content = crate::ssh_config::update_ssh_config_for_password_fallback(
                existing,
                alias.as_str(),
                ip,
                user,
            );
            Ok((alias, content))
        },
        LaunchAuthPreparation::HardFailure { reason } => Err(LaunchError::Unsupported(reason.clone())),
    }
}

/// The kind of error with which a program failed to start.
#[derive(Debug, Clone, Copy, PartialEq, Eq)]
pub enum SpawnErrorKind {
    NotFound,
    PermissionDenied,
    Other,
}

/// What one attempt to start a program gave: it started, or it failed with an error of some
/// kind, the operating system's error code where there is one, and the error's text.
#[derive(Debug, Clone)]
pub enum SpawnOutcome {
    Started,
    Failed { kind: SpawnErrorKind, os_code: Option<i32>, message: String },
}

/// The text of the last failure that was not a missing program.
pub open spec fn last_failure(a: Seq<SpawnOutcome>) -> Option<Seq<char>>
    decreases a.len(),
{
    if a.len() == 0 {
        None
    } else {
        match a.last() {
            SpawnOutcome::Failed { kind, message, .. } => if kind == SpawnErrorKind::NotFound {
                last_failure(a.drop_last())
            } else {
                Some(message@)
            },
            SpawnOutcome::Started => last_failure(a.drop_last()),
        }
    }
}

/// Whether one of the attempts started its program.
pub open spec fn some_started(a: Seq<SpawnOutcome>) -> bool {
    exists|k: int| 0 <= k < a.len() && #[trigger] a[k] is Started
}

/// What is said where no terminal program could be found.
pub open spec fn no_terminal_text(platform: Platform) -> Seq<char> {
    match platform {
        Platform::Windows => "未找到可用终端程序（已尝试 Windows Terminal、cmd、PowerShell），无法启动 SSH Shell"@,
        Platform::MacOs => "未找到 osascript，无法通过 macOS Terminal 启动 SSH Shell"@,
        _ => "未找到可用终端程序（已尝试 x-terminal-emulator、gnome-terminal、konsole、xfce4-terminal、xterm、alacritty），无法启动 SSH Shell。Linux MVP 仅支持通过这些终端启动，请确认终端已安装且在 PATH 中。"@,
    }
}

/// The result of opening a terminal, from the attempts on the terminal programs in the order
/// they were tried: started where one started; else the last error that was not a missing
/// program; else the message that no terminal was found.
pub fn terminal_launch_result(platform: Platform, attempts: &Vec<SpawnOutcome>) -> (r: Result<
    (),
    LaunchError,
>)
    ensures
        some_started(attempts@) ==> r is Ok,
        !some_started(attempts@) ==> match last_failure(attempts@) {
            Some(m) => r matches Err(LaunchError::Io(e)) && e@ == m,
            None => r matches Err(LaunchError::Unsupported(e)) && e@ == no_terminal_text(platform),
        },
{
    let mut last: Option<String> = None;
    let mut i: usize = 0;
    while i < attempts.len()
        invariant
            i <= attempts@.len(),
            !some_started(attempts@.take(i as int)),
            match (last, last_failure(attempts@.take(i as int))) {
                (Some(e), Some(m)) => e@ == m,
                (None, None) => true,
                _ => false,
            },
        decreases attempts@.len() - i,
    {
        let ghost before = attempts@.take(i as int);
        let ghost next = attempts@.take(i + 1);
        assert(next.drop_last() =~= before);
        assert(next.last() == attempts@[i as int]);
        match &attempts[i] {
            SpawnOutcome::Started => {
                assert(attempts@[i as int] is Started);
                return Ok(());
            },
            SpawnOutcome::Failed { kind, message, .. } => {
                match kind {
                    SpawnErrorKind::NotFound => {},
                    _ => {
                        last = Some(message.clone());
                    },
                }
            },
        }
        i = i + 1;
        assert(attempts@.take(i as int) =~= next);
        assert(!some_started(attempts@.take(i as int))) by {
            assert forall|k: int| 0 <= k < i implies !(#[trigger] attempts@.take(i as int)[k] is Started) by {
                if k < i - 1 {
                    assert(attempts@.take(i as int)[k] == before[k]);
                }
            }
        }
    }
    assert(attempts@.take(attempts@.len() as int) =~= attempts@);
    match last {
        Some(e) => Err(LaunchError::Io(e)),
        None => {
            let m = match platform {
                Platform::Windows => "未找到可用终端程序（已尝试 Windows Terminal、cmd、PowerShell），无法启动 SSH Shell",
                Platform::MacOs => "未找到 osascript，无法通过 macOS Terminal 启动 SSH Shell",
                _ => "未找到可用终端程序（已尝试 x-terminal-emulator、gnome-terminal、konsole、xfce4-terminal、xterm、alacritty），无法启动 SSH Shell。Linux MVP 仅支持通过这些终端启动，请确认终端已安装且在 PATH 中。",
            };
            Err(LaunchError::Unsupported(m.to_owned()))
        },
    }
}

/// Whether a failed start of VS Code is worth retrying with the next candidate program: on
/// Windows a missing program or the error codes 193, 2 and 3; on macOS a missing program or a
/// refused permission; elsewhere never.
pub open spec fn vscode_retryable(platform: Platform, kind: SpawnErrorKind, os_code: Option<i32>) -> bool {
    match platform {
        Platform::Windows => kind == SpawnErrorKind::NotFound || os_code == Some(193i32)
            || os_code == Some(2i32) || os_code == Some(3i32),
        Platform::MacOs => kind == SpawnErrorKind::NotFound || kind
            == SpawnErrorKind::PermissionDenied,
        _ => false,
    }
}

/// Whether a failed start of VS Code is worth retrying with the next candidate program.
pub fn should_retry_vscode_spawn(platform: Platform, kind: SpawnErrorKind, os_code: Option<i32>) -> (r:
    bool)
    ensures
        r == vscode_retryable(platform, kind, os_code),
{
    match platform {
        Platform::Windows => {
            let missing = match kind {
                SpawnErrorKind::NotFound => true,
                _ => false,
            };
            let code = match os_code {
                Some(c) => c == 193 || c == 2 || c == 3,
                None => false,
            };
            missing || code
        },
        Platform::MacOs => match kind {
            SpawnErrorKind::NotFound => true,
            SpawnErrorKind::PermissionDenied => true,
            SpawnErrorKind::Other => false,
        },
        _ => false,
    }
}

/// The index of the first attempt that started VS Code or failed in a way not worth retrying.
pub open spec fn vscode_stop(platform: Platform, a: Seq<SpawnOutcome>) -> Option<int>
    decreases a.len(),
{
    if a.len() == 0 {
        None
    } else {
        match vscode_stop(platform, a.drop_last()) {
            Some(k) => Some(k),
            None => match a.last() {
                SpawnOutcome::Started => Some(a.len() - 1),
                SpawnOutcome::Failed { kind, os_code, .. } => if vscode_retryable(
                    platform,
                    kind,
                    os_code,
                ) {
                    None
                } else {
                    Some(a.len() - 1)
                },
            },
        }
    }
}

/// The text of the last failure among the attempts.
pub open spec fn last_error_text(a: Seq<SpawnOutcome>) -> Option<Seq<char>>
    decreases a.len(),
{
    if a.len() == 0 {
        None
    } else {
        match a.last() {
            SpawnOutcome::Failed { message, .. } => Some(message@),
            SpawnOutcome::Started => last_error_text(a.drop_last()),
        }
    }
}

/// The result of opening VS Code, from the attempts on its candidate programs in order: the
/// first attempt that started it or failed in a way not worth retrying decides; where none
/// did, the last error; where there was no attempt, the message that no entry point works.
pub fn vscode_launch_result(platform: Platform, attempts: &Vec<SpawnOutcome>) -> (r: Result<
    (),
    LaunchError,
>)
    ensures
        match vscode_stop(platform, attempts@) {
            Some(k) => match attempts@[k] {
                SpawnOutcome::Started => r is Ok,
                SpawnOutcome::Failed { message, .. } => r matches Err(LaunchError::Io(e)) && e@
                    == message@,
            },
            None => match last_error_text(attempts@) {
                Some(m) => r matches Err(LaunchError::Io(e)) && e@ == m,
                None => r matches Err(LaunchError::Unsupported(e)) && e@
                    == "VS Code 启动入口不可用，请重新选择有效的 VS Code 路径"@,
            },
        },
{
    let mut last: Option<String> = None;
    let mut i: usize = 0;
    while i < attempts.len()
        invariant
            i <= attempts@.len(),
            vscode_stop(platform, attempts@.take(i as int)) is None,
            match (last, last_error_text(attempts@.take(i as int))) {
                (Some(e), Some(m)) => e@ == m,
                (None, None) => true,
                _ => false,
            },
        decreases attempts@.len() - i,
    {
        let ghost before = attempts@.take(i as int);
        let ghost next = attempts@.take(i + 1);
        assert(next.drop_last() =~= before);
        assert(next.last() == attempts@[i as int]);
        proof {
            lemma_vscode_stop_prefix(platform, attempts@, i + 1);
        }
        match &attempts[i] {
            SpawnOutcome::Started => {
                return Ok(());
            },
            SpawnOutcome::Failed { kind, os_code, message } => {
                if should_retry_vscode_spawn(platform, *kind, *os_code) {
                    last = Some(message.clone());
                } else {
                    return Err(LaunchError::Io(message.clone()));
                }
            },
        }
        i = i + 1;
        assert(attempts@.take(i as int) =~= next);
    }
    assert(attempts@.take(attempts@.len() as int) =~= attempts@);
    match last {
        Some(e) => Err(LaunchError::Io(e)),
        None => Err(LaunchError::Unsupported("VS Code 启动入口不可用，请重新选择有效的 VS Code 路径".to_owned())),
    }
}

/// A stop in a prefix is the stop of the whole list.
proof fn lemma_vscode_stop_prefix(platform: Platform, a: Seq<SpawnOutcome>, n: int)
    requires
        0 <= n <= a.len(),
    ensures
        vscode_stop(platform, a.take(n)) matches Some(k) ==> vscode_stop(platform, a) == Some(k),
    decreases a.len() - n,
{
    if n < a.len() {
        lemma_vscode_stop_prefix(platform, a, n + 1);
        assert(a.take(n + 1).drop_last() =~= a.take(n));
    } else {
        assert(a.take(n) =~= a);
    }
}

/// Whether a VS Code entry point is started through `cmd`: a `.cmd` or `.bat` script, or a
/// file named `code` without an extension.
pub open spec fn via_cmd(extension: Option<Seq<char>>, file_name: Option<Seq<char>>) -> bool {
    match extension {
        Some(e) => crate::text::lower(e) == "cmd"@ || crate::text::lower(e) == "bat"@,
        None => file_name matches Some(n) && crate::text::lower(n) == "code"@,
    }
}

fn lower_eq(s: &str, lit: &str) -> (r: bool)
    ensures
        r == (crate::text::lower(s@) == lit@),
{
    let v = to_chars(s);
    let l = crate::text::lower_chars(&v);
    crate::text::chars_eq_str(&l, lit)
}

/// Whether a VS Code entry point is started through `cmd` on Windows, from the extension and
/// the name of its file.
pub fn should_launch_via_cmd(extension: Option<&str>, file_name: Option<&str>) -> (r: bool)
    ensures
        r == via_cmd(
            match extension {
                Some(e) => Some(e@),
                None => None,
            },
            match file_name {
                Some(n) => Some(n@),
                None => None,
            },
        ),
{
    match extension {
        Some(e) => lower_eq(e, "cmd") || lower_eq(e, "bat"),
        None => match file_name {
            Some(n) => lower_eq(n, "code"),
            None => false,
        },
    }
}

/// Whether a path names the `code` wrapper script of a VS Code installation: `code.cmd` or
/// `code.bat`, or a file named `code` without an extension.
pub open spec fn vscode_wrapper(extension: Option<Seq<char>>, file_name: Option<Seq<char>>) -> bool {
    match file_name {
        None => false,
        Some(n) => match extension {
            Some(e) => if crate::text::lower(e) == "cmd"@ || crate::text::lower(e) == "bat"@ {
                crate::text::lower(n) == "code.cmd"@ || crate::text::lower(n) == "code.bat"@
            } else {
                false
            },
            None => crate::text::lower(n) == "code"@,
        },
    }
}

/// Whether a path names the `code` wrapper script of a VS Code installation, from the
/// extension and the name of its file.
pub fn is_vscode_wrapper_path(extension: Option<&str>, file_name: Option<&str>) -> (r: bool)
    ensures
        r == vscode_wrapper(
            match extension {
                Some(e) => Some(e@),
                None => None,
            },
            match file_name {
                Some(n) => Some(n@),
                None => None,
            },
        ),
{
    match file_name {
        None => false,
        Some(n) => match extension {
            Some(e) => {
                if lower_eq(e, "cmd") || lower_eq(e, "bat") {
                    lower_eq(n, "code.cmd") || lower_eq(n, "code.bat")
                } else {
                    false
                }
            },
            None => lower_eq(n, "code"),
        },
    }
}

/// The programs tried in turn to open VS Code: the preferred entry point, then the wrapper
/// script where there is one, then the configured path, each once.
pub fn vscode_executable_candidates(
    preferred: String,
    wrapper: Option<String>,
    vscode_path: String,
) -> (r: Vec<String>)
    ensures
        ({
            let with_wrapper = match wrapper {
                Some(w) => if w@ == preferred@ {
                    seq![preferred@]
                } else {
                    seq![preferred@, w@]
                },
                None => seq![preferred@],
            };
            r@.map_values(|s: String| s@) == if with_wrapper.contains(vscode_path@) {
                with_wrapper
            } else {
                with_wrapper.push(vscode_path@)
            }
        }),
{
    let mut out: Vec<String> = Vec::new();
    let ghost p = preferred@;
    out.push(preferred);
    assert(out@.map_values(|s: String| s@) =~= seq![p]);
    let ghost wrapper_view: Option<Seq<char>> = match &wrapper {
        Some(w) => Some(w@),
        None => None,
    };
    let ghost with_wrapper = match wrapper_view {
        Some(wv) => if wv == p {
            seq![p]
        } else {
            seq![p, wv]
        },
        None => seq![p],
    };
    match wrapper {
        Some(w) => {
            if !crate::text::str_eq(out[0].as_str(), w.as_str()) {
                let ghost wv = w@;
                out.push(w);
                assert(out@.map_values(|s: String| s@) =~= seq![p, wv]);
            }
        },
        None => {},
    }
    assert(out@.map_values(|s: String| s@) == with_wrapper);
    let mut present = false;
    let mut i: usize = 0;
    while i < out.len()
        invariant
            i <= out@.len(),
            present == exists|k: int| 0 <= k < i && #[trigger] out@[k]@ == vscode_path@,
        decreases out@.len() - i,
    {
        if crate::text::str_eq(out[i].as_str(), vscode_path.as_str()) {
            present = true;
        }
        i = i + 1;
    }
    let ghost before = out@.map_values(|s: String| s@);
    proof {
        if present {
            let k = choose|k: int| 0 <= k < out@.len() && #[trigger] out@[k]@ == vscode_path@;
            assert(before[k] == vscode_path@);
        }
        if before.contains(vscode_path@) {
            let k = choose|k: int| 0 <= k < before.len() && before[k] == vscode_path@;
            assert(out@[k]@ == vscode_path@);
        }
    }
    if !present {
        out.push(vscode_path);
        assert(out@.map_values(|s: String| s@) =~= before.push(vscode_path@));
    }
    out
}

/// A program and its arguments, as plain text.
pub open spec fn command_view(c: (String, Vec<String>)) -> (Seq<char>, Seq<Seq<char>>) {
    (c.0@, c.1@.map_values(|a: String| a@))
}

/// The terminal programs tried in turn to open an SSH session on `target`, with their
/// arguments: Windows Terminal, `cmd` and PowerShell on Windows; the macOS Terminal through
/// `osascript`; on other systems six common terminal emulators.
pub open spec fn terminal_commands_spec(platform: Platform, target: Seq<char>) -> Seq<
    (Seq<char>, Seq<Seq<char>>),
> {
    let ssh = "ssh "@ + target;
    match platform {
        Platform::Windows => seq![
            ("wt"@, seq!["-w"@, "0"@, "new-tab"@, "ssh"@, target]),
            ("cmd"@, seq!["/d"@, "/k"@, ssh]),
            ("powershell"@, seq!["-NoExit"@, "-Command"@, ssh]),
        ],
        Platform::MacOs => seq![
            (
                "osascript"@,
                seq![
                    "-e"@,
                    "tell application \"Terminal\" to do script \""@ + applescript_escaped(ssh)
                        + "\""@,
                    "-e"@,
                    "tell application \"Terminal\" to activate"@,
                ],
            ),
        ],
        _ => seq![
            ("x-terminal-emulator"@, seq!["-e"@, "ssh"@, target]),
            ("gnome-terminal"@, seq!["--"@, "ssh"@, target]),
            ("konsole"@, seq!["-e"@, "ssh"@, target]),
            ("xfce4-terminal"@, seq!["-x"@, "ssh"@, target]),
            ("xterm"@, seq!["-e"@, "ssh"@, target]),
            ("alacritty"@, seq!["-e"@, "ssh"@, target]),
        ],
    }
}

fn ssh_exec_args(flag: &str, target: &str) -> (r: Vec<String>)
    ensures
        r@.map_values(|a: String| a@) == seq![flag@, "ssh"@, target@],
{
    let r = crate::text::owned_strings(&[flag, "ssh", target]);
    assert(r@.map_values(|a: String| a@) =~= seq![flag@, "ssh"@, target@]);
    r
}

/// The terminal programs tried in turn to open an SSH session on `target`, with their
/// arguments.
pub fn terminal_commands(platform: Platform, target: &str) -> (r: Vec<(String, Vec<String>)>)
    ensures
        r@.map_values(|c: (String, Vec<String>)| command_view(c)) == terminal_commands_spec(
            platform,
            target@,
        ),
{
    let mut ssh = "ssh ".to_owned();
    append_str(&mut ssh, target);
    let mut out: Vec<(String, Vec<String>)> = Vec::new();
    match platform {
        Platform::Windows => {
            let a = crate::text::owned_strings(&["-w", "0", "new-tab", "ssh", target]);
            assert(a@.map_values(|x: String| x@) =~= seq!["-w"@, "0"@, "new-tab"@, "ssh"@, target@]);
            out.push(("wt".to_owned(), a));
            let b = crate::text::owned_strings(&["/d", "/k", ssh.as_str()]);
            assert(b@.map_values(|x: String| x@) =~= seq!["/d"@, "/k"@, ssh@]);
            out.push(("cmd".to_owned(), b));
            let c = crate::text::owned_strings(&["-NoExit", "-Command", ssh.as_str()]);
            assert(c@.map_values(|x: String| x@) =~= seq!["-NoExit"@, "-Command"@, ssh@]);
            out.push(("powershell".to_owned(), c));
        },
        Platform::MacOs => {
            let escaped = escape_applescript_string(ssh.as_str());
            let mut script = "tell application \"Terminal\" to do script \"".to_owned();
            append_str(&mut script, escaped.as_str());
            append_str(&mut script, "\"");
            let a = crate::text::owned_strings(&["-e", script.as_str(), "-e", "tell application \"Terminal\" to activate"]);
            assert(a@.map_values(|x: String| x@) =~= seq![
                "-e"@,
                script@,
                "-e"@,
                "tell application \"Terminal\" to activate"@,
            ]);
            out.push(("osascript".to_owned(), a));
        },
        _ => {
            out.push(("x-terminal-emulator".to_owned(), ssh_exec_args("-e", target)));
            out.push(("gnome-terminal".to_owned(), ssh_exec_args("--", target)));
            out.push(("konsole".to_owned(), ssh_exec_args("-e", target)));
            out.push(("xfce4-terminal".to_owned(), ssh_exec_args("-x", target)));
            out.push(("xterm".to_owned(), ssh_exec_args("-e", target)));
            out.push(("alacritty".to_owned(), ssh_exec_args("-e", target)));
        },
    }
    assert(out@.map_values(|c: (String, Vec<String>)| command_view(c)) =~= terminal_commands_spec(
        platform,
        target@,
    ));
    out
}

} // verus!
