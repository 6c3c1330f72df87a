//! What the connection form's fields give: the credentials used to verify devices, and the
//! context a launch is started with.
use vstd::prelude::*;
use crate::store::ToolKind;
use crate::text::{from_chars, trim, trimmed};

verus! {

/// A field's text trimmed, where that is not empty.
pub open spec fn filled_text(v: Seq<char>) -> Option<Seq<char>> {
    if trim(v).len() > 0 {
        Some(trim(v))
    } else {
        None
    }
}

/// The field's text trimmed, where that is not empty.
pub fn normalized_input(value: &str) -> (r: Option<String>)
    ensures
        crate::credential::opt_view(r) == filled_text(value@),
{
    let t = trimmed(value);
    if t.len() > 0 {
        Some(from_chars(&t))
    } else {
        None
    }
}

/// Which credentials the form holds for verifying devices.
#[derive(Debug, Clone, PartialEq, Eq)]
pub enum VerifyCredentialInput {
    UsernamePassword { username: String, password: String },
    UsernameOnly { username: String },
    PasswordOnly,
    Empty,
}

/// Which credentials the user name and password fields hold, each trimmed.
pub fn verify_credential_input(ssh_username: &str, password: &str) -> (r: VerifyCredentialInput)
    ensures
        match (filled_text(ssh_username@), filled_text(password@)) {
            (Some(u), Some(p)) => r matches VerifyCredentialInput::UsernamePassword {
                username,
                password,
            } && username@ == u && password@ == p,
            (Some(u), None) => r matches VerifyCredentialInput::UsernameOnly { username }
                && username@ == u,
            (None, Some(_)) => r is PasswordOnly,
            (None, None) => r is Empty,
        },
{
    match (normalized_input(ssh_username), normalized_input(password)) {
        (Some(username), Some(password)) => VerifyCredentialInput::UsernamePassword {
            username,
            password,
        },
        (Some(username), None) => VerifyCredentialInput::UsernameOnly { username },
        (None, Some(_)) => VerifyCredentialInput::PasswordOnly,
        (None, None) => VerifyCredentialInput::Empty,
    }
}

/// The user name and, where given, the password to verify devices with; none without a user
/// name.
pub fn resolve_verify_credentials(input: VerifyCredentialInput) -> (r: Option<(String, Option<String>)>)
    ensures
        match input {
            VerifyCredentialInput::UsernameOnly { username } => r matches Some((u, None)) && u@
                == username@,
            VerifyCredentialInput::UsernamePassword { username, password } => r matches Some(
                (u, Some(p)),
            ) && u@ == username@ && p@ == password@,
            _ => r is None,
        },
{
    match input {
        VerifyCredentialInput::UsernameOnly { username } => Some((username, None)),
        VerifyCredentialInput::UsernamePassword { username, password } => Some(
            (username, Some(password)),
        ),
        VerifyCredentialInput::PasswordOnly => None,
        VerifyCredentialInput::Empty => None,
    }
}

/// The RustDesk password, trimmed, where the remote desktop fields are on and it is not
/// empty.
pub fn normalized_rustdesk_password(vnc_enabled: bool, vnc_password: &str) -> (r: Option<String>)
    ensures
        crate::credential::opt_view(r) == if vnc_enabled {
            filled_text(vnc_password@)
        } else {
            None
        },
{
    if !vnc_enabled {
        return None;
    }
    normalized_input(vnc_password)
}

/// The key of the quick-connect launcher of a tool.
pub fn quick_connect_launcher_for_tool(tool: ToolKind) -> (r: &'static str)
    ensures
        r@ == match tool {
            ToolKind::Vscode => "vscode"@,
            ToolKind::Mobaxterm => "mobaxterm"@,
            ToolKind::VncViewer => "vnc"@,
            ToolKind::RustDesk => "rustdesk"@,
        },
{
    match tool {
        ToolKind::Vscode => "vscode",
        ToolKind::Mobaxterm => "mobaxterm",
        ToolKind::VncViewer => "vnc",
        ToolKind::RustDesk => "rustdesk",
    }
}

/// Where a remote desktop credential came from.
#[derive(Debug, Clone, Copy, PartialEq, Eq)]
pub enum VncCredentialFieldSource {
    Dedicated,
    SshFallback,
    Unavailable,
}

/// Where the remote desktop credentials came from, taken together.
#[derive(Debug, Clone, Copy, PartialEq, Eq)]
pub enum VncCredentialSource {
    Dedicated,
    SshFallback,
    Unavailable,
}

/// The remote desktop value: the dedicated field, trimmed, where it is not empty; else the
/// SSH value where it is not blank; else none.
pub fn resolve_vnc_value(value: &str, fallback: Option<String>) -> (r: (
    Option<String>,
    VncCredentialFieldSource,
))
    ensures
        match filled_text(value@) {
            Some(v) => r.0 matches Some(x) && x@ == v && r.1 == VncCredentialFieldSource::Dedicated,
            None => match fallback {
                Some(f) => if trim(f@).len() > 0 {
                    r.0 matches Some(x) && x@ == f@ && r.1 == VncCredentialFieldSource::SshFallback
                } else {
                    r.0 is None && r.1 == VncCredentialFieldSource::Unavailable
                },
                None => r.0 is None && r.1 == VncCredentialFieldSource::Unavailable,
            },
        },
{
    match normalized_input(value) {
        Some(v) => (Some(v), VncCredentialFieldSource::Dedicated),
        None => match fallback {
            Some(f) => {
                if trimmed(f.as_str()).len() > 0 {
                    (Some(f), VncCredentialFieldSource::SshFallback)
                } else {
                    (None, VncCredentialFieldSource::Unavailable)
                }
            },
            None => (None, VncCredentialFieldSource::Unavailable),
        },
    }
}

/// Where the remote desktop credentials came from: dedicated where either is, else the SSH
/// fallback where either is, else unavailable.
pub fn summarize_vnc_source(
    username_source: VncCredentialFieldSource,
    password_source: VncCredentialFieldSource,
) -> (r: VncCredentialSource)
    ensures
        r == if username_source == VncCredentialFieldSource::Dedicated || password_source
            == VncCredentialFieldSource::Dedicated {
            VncCredentialSource::Dedicated
        } else if username_source == VncCredentialFieldSource::SshFallback || password_source
            == VncCredentialFieldSource::SshFallback {
            VncCredentialSource::SshFallback
        } else {
            VncCredentialSource::Unavailable
        },
{
    let dedicated = match (username_source, password_source) {
        (VncCredentialFieldSource::Dedicated, _) => true,
        (_, VncCredentialFieldSource::Dedicated) => true,
        _ => false,
    };
    let fallback = match (username_source, password_source) {
        (VncCredentialFieldSource::SshFallback, _) => true,
        (_, VncCredentialFieldSource::SshFallback) => true,
        _ => false,
    };
    if dedicated {
        VncCredentialSource::Dedicated
    } else if fallback {
        VncCredentialSource::SshFallback
    } else {
        VncCredentialSource::Unavailable
    }
}

/// What a launch is started with.
#[derive(Debug, Clone)]
pub struct LaunchContext {
    pub device_ip: String,
    pub username: String,
    pub password: Option<String>,
    pub vnc_requested: bool,
    pub vnc_username: Option<String>,
    pub vnc_password: Option<String>,
    pub vnc_username_source: VncCredentialFieldSource,
    pub vnc_password_source: VncCredentialFieldSource,
    pub vnc_source: VncCredentialSource,
}

/// The context of a launch on `device_ip` from the form's fields: the trimmed user name, which
/// must be given; the password as typed where it is not blank; and, where the remote desktop
/// fields are on, their values with the SSH ones as fallback.
pub fn build_launch_context(
    device_ip: &str,
    ssh_username: &str,
    password: &str,
    vnc_enabled: bool,
    vnc_user: &str,
    vnc_password: &str,
) -> (r: Result<LaunchContext, String>)
    ensures
        match filled_text(ssh_username@) {
            None => r matches Err(m) && m@ == "请先填写 SSH 用户名"@,
            Some(u) => r matches Ok(c) && {
                &&& c.device_ip@ == device_ip@
                &&& c.username@ == u
                &&& crate::credential::opt_view(c.password) == if trim(password@).len() > 0 {
                    Some(password@)
                } else {
                    None
                }
                &&& c.vnc_requested == vnc_enabled
                &&& !vnc_enabled ==> c.vnc_username is None && c.vnc_password is None
                    && c.vnc_username_source == VncCredentialFieldSource::Unavailable
                    && c.vnc_password_source == VncCredentialFieldSource::Unavailable
                &&& vnc_enabled ==> (filled_text(vnc_user@) matches Some(v) ==> crate::credential::opt_view(c.vnc_username) == Some(v)
                    && c.vnc_username_source == VncCredentialFieldSource::Dedicated)
                    && (filled_text(vnc_user@) is None ==> crate::credential::opt_view(c.vnc_username) == Some(u)
                    && c.vnc_username_source == VncCredentialFieldSource::SshFallback)
                &&& vnc_enabled ==> (filled_text(vnc_password@) matches Some(v) ==> crate::credential::opt_view(c.vnc_password) == Some(v)
                    && c.vnc_password_source == VncCredentialFieldSource::Dedicated)
                    && (filled_text(vnc_password@) is None && trim(password@).len() > 0 ==> crate::credential::opt_view(c.vnc_password) == Some(password@)
                    && c.vnc_password_source == VncCredentialFieldSource::SshFallback)
                    && (filled_text(vnc_password@) is None && trim(password@).len() == 0 ==> c.vnc_password is None
                    && c.vnc_password_source == VncCredentialFieldSource::Unavailable)
                &&& c.vnc_source == if c.vnc_username_source == VncCredentialFieldSource::Dedicated
                    || c.vnc_password_source == VncCredentialFieldSource::Dedicated {
                    VncCredentialSource::Dedicated
                } else if c.vnc_username_source == VncCredentialFieldSource::SshFallback
                    || c.vnc_password_source == VncCredentialFieldSource::SshFallback {
                    VncCredentialSource::SshFallback
                } else {
                    VncCredentialSource::Unavailable
                }
            },
        },
{
    let username = match normalized_input(ssh_username) {
        Some(u) => u,
        None => {
            return Err("请先填写 SSH 用户名".to_owned());
        },
    };
    proof {
        crate::text::lemma_trim_idem(ssh_username@);
    }
    let password_value = if trimmed(password).len() > 0 {
        Some(password.to_owned())
    } else {
        None
    };
    let (vnc_username, vnc_username_source) = if vnc_enabled {
        resolve_vnc_value(vnc_user, Some(username.clone()))
    } else {
        (None, VncCredentialFieldSource::Unavailable)
    };
    let (vnc_password, vnc_password_source) = if vnc_enabled {
        resolve_vnc_value(vnc_password, password_value.clone())
    } else {
        (None, VncCredentialFieldSource::Unavailable)
    };
    let vnc_source = summarize_vnc_source(vnc_username_source, vnc_password_source);
    Ok(
        LaunchContext {
            device_ip: device_ip.to_owned(),
            username,
            password: password_value,
            vnc_requested: vnc_enabled,
            vnc_username,
            vnc_password,
            vnc_username_source,
            vnc_password_source,
            vnc_source,
        },
    )
}

} // verus!
