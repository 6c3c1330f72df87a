//! Decisions and messages of SSH authentication: how probe results map to device states, how
//! local OpenSSH failures are classified and summarised, and how launch authentication proceeds.
use vstd::prelude::*;
use crate::text::{
    append_str, contains, contains_chars, dec, dec_chars, find_char, find_char_exec, find_from,
    from_chars, join, join_chars, lemma_find_char, lower, lower_chars, occurs_at, push_chars,
    slice_chars, to_chars, views, words, words_chars,
};
use crate::ssh_config::{ConfigError, failure_message, host_alias, host_alias_spec};

verus! {

/// The state of a device after credential verification.
#[derive(Debug, Clone, Copy, PartialEq, Eq)]
pub enum DeviceStatus {
    Untested,
    Ready,
    Denied,
    Error,
}

/// Why an SSH operation failed. A timeout carries its length in milliseconds.
#[derive(Debug)]
pub enum SshError {
    Io(String),
    Timeout(u64),
    Unsupported(String),
    Connection(String),
    HostKey(String),
    Key(String),
    Protocol(String),
}

/// The text after the whole seconds of a duration of `ms` milliseconds, as `Debug` for
/// `Duration` writes it: a point and the digits up to the last one that is not zero.
pub open spec fn millis_fraction(r: nat) -> Seq<char> {
    let d1 = r / 100;
    let d2 = (r / 10) % 10;
    let d3 = r % 10;
    if r == 0 {
        Seq::empty()
    } else if d3 != 0 {
        seq!['.'] + dec(d1) + dec(d2) + dec(d3)
    } else if d2 != 0 {
        seq!['.'] + dec(d1) + dec(d2)
    } else {
        seq!['.'] + dec(d1)
    }
}

/// A duration of `ms` milliseconds as `Debug` for `Duration` writes it.
pub open spec fn duration_text(ms: nat) -> Seq<char> {
    if ms >= 1000 {
        dec(ms / 1000) + millis_fraction(ms % 1000) + "s"@
    } else if ms > 0 {
        dec(ms) + "ms"@
    } else {
        "0ns"@
    }
}

/// The text of an SSH error.
pub open spec fn ssh_error_text(e: SshError) -> Seq<char> {
    match e {
        SshError::Io(m) => m@,
        SshError::Timeout(ms) => "ssh verification timed out after "@ + duration_text(ms as nat),
        SshError::Unsupported(m) => m@,
        SshError::Connection(m) => m@,
        SshError::HostKey(m) => m@,
        SshError::Key(m) => m@,
        SshError::Protocol(m) => m@,
    }
}

fn push_dec(out: &mut String, n: u64)
    ensures
        final(out)@ == old(out)@ + dec(n as nat),
{
    let d = dec_chars(n);
    let s = from_chars(&d);
    append_str(out, s.as_str());
}

impl SshError {
    /// The text of the error.
    pub fn message(&self) -> (r: String)
        ensures
            r@ == ssh_error_text(*self),
    {
        match self {
            SshError::Io(m) => m.clone(),
            SshError::Timeout(ms) => {
                let ms = *ms;
                let mut out = "ssh verification timed out after ".to_owned();
                if ms >= 1000 {
                    push_dec(&mut out, ms / 1000);
                    let r = ms % 1000;
                    if r != 0 {
                        out.push('.');
                        push_dec(&mut out, r / 100);
                        if r % 10 != 0 {
                            push_dec(&mut out, (r / 10) % 10);
                            push_dec(&mut out, r % 10);
                        } else if (r / 10) % 10 != 0 {
                            push_dec(&mut out, (r / 10) % 10);
                        }
                    }
                    append_str(&mut out, "s");
                } else if ms > 0 {
                    push_dec(&mut out, ms);
                    append_str(&mut out, "ms");
                } else {
                    append_str(&mut out, "0ns");
                }
                proof {
                    reveal_strlit(".");
                }
                assert(out@ =~= ssh_error_text(*self));
                out
            },
            SshError::Unsupported(m) => m.clone(),
            SshError::Connection(m) => m.clone(),
            SshError::HostKey(m) => m.clone(),
            SshError::Key(m) => m.clone(),
            SshError::Protocol(m) => m.clone(),
        }
    }
}

/// The output of a remote command.
#[derive(Debug, Clone, PartialEq, Eq)]
pub struct CommandOutput {
    pub stdout: String,
    pub stderr: String,
    pub exit_status: i32,
}

/// Where a key that works came from.
#[derive(Debug, Clone, Copy, PartialEq, Eq)]
pub enum KeyReadySource {
    Existing,
    Installed,
}

/// The program that will use the prepared authentication.
#[derive(Debug, Clone, Copy, PartialEq, Eq)]
pub enum LaunchAuthConsumer {
    VscodeLike,
    Mobaxterm,
    Shell,
}

/// How a launched tool will authenticate.
#[derive(Debug, Clone, PartialEq, Eq)]
pub enum LaunchAuthPreparation {
    KeyReady { key_path: String, source: KeyReadySource },
    PasswordFallback { reason: String },
    HardFailure { reason: String },
}

impl LaunchAuthPreparation {
    /// The key to use, where one is ready.
    pub fn key_path(&self) -> (r: Option<String>)
        ensures
            match self {
                LaunchAuthPreparation::KeyReady { key_path, .. } => r matches Some(k) && k@
                    == key_path@,
                _ => r is None,
            },
    {
        match self {
            LaunchAuthPreparation::KeyReady { key_path, .. } => Some(key_path.clone()),
            _ => None,
        }
    }

    /// The SSH target for `user` at `ip`: the host alias unless preparation failed, then the
    /// bare address.
    pub fn host_target(&self, ip: &str, user: &str) -> (r: String)
        ensures
            r@ == match self {
                LaunchAuthPreparation::HardFailure { .. } => ip@,
                _ => host_alias_spec(ip@, user@),
            },
    {
        match self {
            LaunchAuthPreparation::KeyReady { .. } => host_alias(ip, user),
            LaunchAuthPreparation::PasswordFallback { .. } => host_alias(ip, user),
            LaunchAuthPreparation::HardFailure { .. } => ip.to_owned(),
        }
    }
}

/// The preparation that a launch goes on with, or the reason of its hard failure as the
/// launch's error.
pub fn usable_launch_auth(preparation: LaunchAuthPreparation) -> (r: Result<LaunchAuthPreparation, String>)
    ensures
        match preparation {
            LaunchAuthPreparation::HardFailure { reason } => r matches Err(m) && m@ == reason@,
            _ => r == Ok::<LaunchAuthPreparation, String>(preparation),
        },
{
    match preparation {
        LaunchAuthPreparation::HardFailure { reason } => Err(reason),
        other => Ok(other),
    }
}

/// Why the server refused to authenticate.
#[derive(Debug, Clone, Copy, PartialEq, Eq)]
pub enum AuthDeniedReason {
    PasswordRejected,
    PublicKeyRejected,
}

impl AuthDeniedReason {
    /// The reason as text.
    pub fn as_str(self) -> (r: &'static str)
        ensures
            r@ == match self {
                AuthDeniedReason::PasswordRejected => "password rejected"@,
                AuthDeniedReason::PublicKeyRejected => "public key rejected"@,
            },
    {
        match self {
            AuthDeniedReason::PasswordRejected => "password rejected",
            AuthDeniedReason::PublicKeyRejected => "public key rejected",
        }
    }
}

/// The error for a login of `username` at `ip` that the server refused for `reason`.
pub fn auth_rejected_error(ip: &str, username: &str, reason: AuthDeniedReason) -> (r: SshError)
    ensures
        r matches SshError::Connection(m) && m@ == "ssh authentication rejected for "@ + username@
            + "@"@ + ip@ + ": "@ + match reason {
            AuthDeniedReason::PasswordRejected => "password rejected"@,
            AuthDeniedReason::PublicKeyRejected => "public key rejected"@,
        },
{
    let mut m = "ssh authentication rejected for ".to_owned();
    append_str(&mut m, username);
    append_str(&mut m, "@");
    append_str(&mut m, ip);
    append_str(&mut m, ": ");
    append_str(&mut m, reason.as_str());
    SshError::Connection(m)
}

/// The result of an authentication attempt that reached the server.
#[derive(Debug, Clone, Copy, PartialEq, Eq)]
pub enum AuthOutcome {
    Authenticated,
    Denied(AuthDeniedReason),
}

/// How devices are checked during a scan.
#[derive(Debug, Clone, Copy, PartialEq, Eq)]
pub enum ScanVerifyMode {
    UsernamePassword,
    UsernameOnlyBestEffort,
}

/// What a user-name-only probe suggests.
#[derive(Debug, Clone, Copy, PartialEq, Eq)]
pub enum UsernameOnlyProbeOutcome {
    Authenticated,
    LikelyRejected,
    Ambiguous,
}

/// The authentication methods a server may offer to continue with.
#[derive(Debug, Clone, Copy, PartialEq, Eq)]
pub enum AuthMethod {
    NoAuth,
    Password,
    PublicKey,
    HostBased,
    KeyboardInteractive,
}

/// A probe checks with a password when one is given, else with the user name alone.
pub fn resolve_scan_verify_mode(password: Option<&str>) -> (r: ScanVerifyMode)
    ensures
        r == if password is Some {
            ScanVerifyMode::UsernamePassword
        } else {
            ScanVerifyMode::UsernameOnlyBestEffort
        },
{
    if password.is_some() {
        ScanVerifyMode::UsernamePassword
    } else {
        ScanVerifyMode::UsernameOnlyBestEffort
    }
}

/// The server refused outright: it offers no way to go on, or none of password, public key
/// and keyboard-interactive.
pub open spec fn explicit_rejection(methods: Seq<AuthMethod>) -> bool {
    methods.len() == 0 || (!methods.contains(AuthMethod::Password) && !methods.contains(
        AuthMethod::PublicKey,
    ) && !methods.contains(AuthMethod::KeyboardInteractive))
}

fn has_method(methods: &[AuthMethod], m: AuthMethod) -> (r: bool)
    ensures
        r == methods@.contains(m),
{
    let mut i: usize = 0;
    while i < methods.len()
        invariant
            i <= methods@.len(),
            forall|j: int| 0 <= j < i ==> methods@[j] != m,
        decreases methods@.len() - i,
    {
        let x = methods[i];
        let same = match (x, m) {
            (AuthMethod::NoAuth, AuthMethod::NoAuth) => true,
            (AuthMethod::Password, AuthMethod::Password) => true,
            (AuthMethod::PublicKey, AuthMethod::PublicKey) => true,
            (AuthMethod::HostBased, AuthMethod::HostBased) => true,
            (AuthMethod::KeyboardInteractive, AuthMethod::KeyboardInteractive) => true,
            _ => false,
        };
        if same {
            assert(methods@[i as int] == m);
            return true;
        }
        i = i + 1;
    }
    false
}

/// Whether the methods left after a user-name-only attempt amount to a refusal.
pub fn looks_like_explicit_rejection(remaining_methods: &[AuthMethod]) -> (r: bool)
    ensures
        r == explicit_rejection(remaining_methods@),
{
    remaining_methods.len() == 0 || (!has_method(remaining_methods, AuthMethod::Password)
        && !has_method(remaining_methods, AuthMethod::PublicKey) && !has_method(
        remaining_methods,
        AuthMethod::KeyboardInteractive,
    ))
}

/// What a user-name-only attempt shows: success, a refusal, or nothing certain.
pub fn classify_username_only_attempt(
    success: bool,
    partial_success: bool,
    remaining_methods: &[AuthMethod],
) -> (r: UsernameOnlyProbeOutcome)
    ensures
        r == if success {
            UsernameOnlyProbeOutcome::Authenticated
        } else if partial_success {
            UsernameOnlyProbeOutcome::Ambiguous
        } else if explicit_rejection(remaining_methods@) {
            UsernameOnlyProbeOutcome::LikelyRejected
        } else {
            UsernameOnlyProbeOutcome::Ambiguous
        },
{
    if success {
        UsernameOnlyProbeOutcome::Authenticated
    } else if partial_success {
        UsernameOnlyProbeOutcome::Ambiguous
    } else if looks_like_explicit_rejection(remaining_methods) {
        UsernameOnlyProbeOutcome::LikelyRejected
    } else {
        UsernameOnlyProbeOutcome::Ambiguous
    }
}

/// Whether a text mentions one of the usual wordings of an unknown or refused user.
pub open spec fn username_rejection_text(detail: Seq<char>) -> bool {
    let l = lower(detail);
    contains(l, "invalid user"@) || contains(l, "unknown user"@) || contains(l, "no such user"@)
        || contains(l, "userauth fail"@) || contains(l, "authentication failed"@) || contains(
        l,
        "permission denied"@,
    )
}

/// Whether an error text shows that the user name was refused.
pub fn looks_like_username_rejection_error(detail: &str) -> (r: bool)
    ensures
        r == username_rejection_text(detail@),
{
    let v = to_chars(detail);
    let l = lower_chars(&v);
    crate::text::contains_str(&l, "invalid user") || crate::text::contains_str(&l, "unknown user")
        || crate::text::contains_str(&l, "no such user") || crate::text::contains_str(
        &l,
        "userauth fail",
    ) || crate::text::contains_str(&l, "authentication failed") || crate::text::contains_str(
        &l,
        "permission denied",
    )
}

/// The device state after a credential check.
pub fn map_verify_result_to_device_status(
    result: Result<AuthOutcome, SshError>,
    ip: &str,
    username: &str,
) -> (r: DeviceStatus)
    ensures
        r == match result {
            Ok(AuthOutcome::Authenticated) => DeviceStatus::Ready,
            Ok(AuthOutcome::Denied(_)) => DeviceStatus::Denied,
            Err(_) => DeviceStatus::Error,
        },
{
    match result {
        Ok(AuthOutcome::Authenticated) => DeviceStatus::Ready,
        Ok(AuthOutcome::Denied(_)) => DeviceStatus::Denied,
        Err(_) => DeviceStatus::Error,
    }
}

/// The device state after a user-name-only probe: an error whose text reads as a refused
/// user counts as a refusal.
pub fn map_username_only_probe_status(
    result: Result<UsernameOnlyProbeOutcome, SshError>,
    ip: &str,
    username: &str,
) -> (r: DeviceStatus)
    ensures
        r == match result {
            Ok(UsernameOnlyProbeOutcome::Authenticated) => DeviceStatus::Ready,
            Ok(UsernameOnlyProbeOutcome::LikelyRejected) => DeviceStatus::Denied,
            Ok(UsernameOnlyProbeOutcome::Ambiguous) => DeviceStatus::Error,
            Err(e) => if username_rejection_text(ssh_error_text(e)) {
                DeviceStatus::Denied
            } else {
                DeviceStatus::Error
            },
        },
{
    match result {
        Ok(UsernameOnlyProbeOutcome::Authenticated) => DeviceStatus::Ready,
        Ok(UsernameOnlyProbeOutcome::LikelyRejected) => DeviceStatus::Denied,
        Ok(UsernameOnlyProbeOutcome::Ambiguous) => DeviceStatus::Error,
        Err(e) => {
            let detail = e.message();
            if looks_like_username_rejection_error(detail.as_str()) {
                DeviceStatus::Denied
            } else {
                DeviceStatus::Error
            }
        },
    }
}

/// The words of `s` joined by single spaces.
pub open spec fn normalized_ws(s: Seq<char>) -> Seq<char> {
    join(words(s), " "@)
}

/// `message` with each run of whitespace made one space and none at either end.
pub fn normalize_whitespace(message: &str) -> (r: String)
    ensures
        r@ == normalized_ws(message@),
{
    let v = to_chars(message);
    let ws = words_chars(&v);
    let sp = to_chars(" ");
    let j = join_chars(&ws, &sp);
    from_chars(&j)
}

/// `message` with normalised whitespace, cut after `max_chars` characters with `…` where it
/// is longer.
pub open spec fn compacted(message: Seq<char>, max_chars: nat) -> Seq<char> {
    let n = normalized_ws(message);
    if n.len() > max_chars {
        n.take(max_chars as int).push('…')
    } else {
        n
    }
}

/// A message shortened for display.
pub fn compact_user_message(message: &str, max_chars: usize) -> (r: String)
    ensures
        r@ == compacted(message@, max_chars as nat),
{
    let n = normalize_whitespace(message);
    let v = to_chars(n.as_str());
    if v.len() > max_chars {
        let mut s = slice_chars(&v, 0, max_chars);
        s.push('…');
        assert(s@ =~= v@.take(max_chars as int).push('…'));
        from_chars(&s)
    } else {
        n
    }
}

/// The index of the first occurrence of `p` in `s`.
pub open spec fn first_occurrence(s: Seq<char>, p: Seq<char>) -> Option<int> {
    if exists|i: int| occurs_at(s, p, i) && forall|j: int| 0 <= j < i ==> !occurs_at(s, p, j) {
        Some(choose|i: int| occurs_at(s, p, i) && forall|j: int| 0 <= j < i ==> !occurs_at(s, p, j))
    } else {
        None
    }
}

proof fn lemma_first_occurrence_at(s: Seq<char>, p: Seq<char>, k: int)
    requires
        occurs_at(s, p, k),
        forall|j: int| 0 <= j < k ==> !occurs_at(s, p, j),
    ensures
        first_occurrence(s, p) == Some(k),
{
    let c = choose|i: int| occurs_at(s, p, i) && forall|j: int| 0 <= j < i ==> !occurs_at(s, p, j);
    assert(occurs_at(s, p, c) && forall|j: int| 0 <= j < c ==> !occurs_at(s, p, j));
    if c < k {
        assert(!occurs_at(s, p, c));
    }
    if k < c {
        assert(!occurs_at(s, p, k));
    }
}

/// The text after `prefix` up to the next occurrence of the last character of `prefix`.
pub open spec fn quoted_after(m: Seq<char>, prefix: Seq<char>) -> Option<Seq<char>> {
    if prefix.len() == 0 {
        None
    } else {
        match first_occurrence(m, prefix) {
            Some(k) => {
                let rest = m.skip(k + prefix.len());
                match find_char(rest, prefix.last()) {
                    Some(e) => Some(rest.take(e as int)),
                    None => None,
                }
            },
            None => None,
        }
    }
}

/// The quoted path after the first of `prefixes` that gives one.
pub open spec fn quoted_path(m: Seq<char>, prefixes: Seq<Seq<char>>) -> Option<Seq<char>>
    decreases prefixes.len(),
{
    if prefixes.len() == 0 {
        None
    } else {
        match quoted_after(m, prefixes[0]) {
            Some(x) => Some(x),
            None => quoted_path(m, prefixes.drop_first()),
        }
    }
}

fn quoted_after_exec(m: &[char], prefix: &[char]) -> (r: Option<Vec<char>>)
    ensures
        match r {
            Some(x) => quoted_after(m@, prefix@) == Some(x@),
            None => quoted_after(m@, prefix@) is None,
        },
{
    if prefix.len() == 0 {
        return None;
    }
    match find_from(m, prefix, 0) {
        Some(k) => {
            proof {
                lemma_first_occurrence_at(m@, prefix@, k as int);
            }
            assert(occurs_at(m@, prefix@, k as int));
            assert(k + prefix@.len() <= m@.len());
            let mlen = m.len();
            let plen = prefix.len();
            assert(k + plen <= mlen);
            let start = k + plen;
            let rest = slice_chars(m, start, m.len());
            assert(rest@ =~= m@.skip(start as int));
            let q = prefix[prefix.len() - 1];
            match find_char_exec(&rest, q) {
                Some(e) => {
                    let x = slice_chars(&rest, 0, e);
                    assert(x@ =~= rest@.take(e as int));
                    Some(x)
                },
                None => None,
            }
        },
        None => {
            proof {
                if first_occurrence(m@, prefix@) is Some {
                    let c = choose|i: int|
                        occurs_at(m@, prefix@, i) && forall|j: int|
                            0 <= j < i ==> !occurs_at(m@, prefix@, j);
                    assert(occurs_at(m@, prefix@, c));
                }
            }
            None
        },
    }
}

/// The path quoted after the first of `prefixes` that occurs in `message` with a closing
/// quote.
pub fn extract_quoted_path(message: &str, prefixes: &[&str]) -> (r: Option<String>)
    ensures
        crate::credential::opt_view(r) == quoted_path(message@, prefixes@.map_values(|p: &str| p@)),
{
    let m = to_chars(message);
    let ghost ps = prefixes@.map_values(|p: &str| p@);
    let mut i: usize = 0;
    assert(ps.skip(0) =~= ps);
    while i < prefixes.len()
        invariant
            i <= prefixes@.len(),
            ps == prefixes@.map_values(|p: &str| p@),
            m@ == message@,
            quoted_path(m@, ps) == quoted_path(m@, ps.skip(i as int)),
        decreases prefixes@.len() - i,
    {
        let p = to_chars(prefixes[i]);
        proof {
            assert(ps.skip(i as int)[0] == p@);
            assert(ps.skip(i as int).drop_first() =~= ps.skip(i + 1));
        }
        match quoted_after_exec(&m, &p) {
            Some(x) => {
                return Some(from_chars(&x));
            },
            None => {},
        }
        i = i + 1;
    }
    None
}


/// The kinds of failure of the local OpenSSH client.
#[derive(Debug, Clone, Copy, PartialEq, Eq)]
pub enum LocalOpenSshFailureKind {
    HostKeyMismatch,
    PublicKeyRejected,
    PrivateKeyProblem,
    Other,
}

/// A text, already lowercase, that reports a refused public key.
pub open spec fn public_key_rejected_text(l: Seq<char>) -> bool {
    (contains(l, "permission denied"@) || contains(l, "authentications that can continue"@)
        || contains(l, "no more authentication methods to try"@) || contains(
        l,
        "no supported authentication methods available"@,
    ) || contains(l, "all configured authentication methods failed"@)) && contains(l, "publickey"@)
}

/// Whether a lowercase failure text reports a refused public key.
pub fn is_public_key_rejected_error(lowered: &str) -> (r: bool)
    ensures
        r == public_key_rejected_text(lowered@),
{
    let l = to_chars(lowered);
    let has_publickey_token = crate::text::contains_str(&l, "publickey");
    let has_permission_denied = crate::text::contains_str(&l, "permission denied");
    let has_methods_continue = crate::text::contains_str(&l, "authentications that can continue");
    let has_auth_methods_exhausted = crate::text::contains_str(
        &l,
        "no more authentication methods to try",
    ) || crate::text::contains_str(&l, "no supported authentication methods available")
        || crate::text::contains_str(&l, "all configured authentication methods failed");
    (has_permission_denied || has_methods_continue || has_auth_methods_exhausted)
        && has_publickey_token
}

/// The kind of a local OpenSSH failure, from its text.
pub open spec fn failure_kind(detail: Seq<char>) -> LocalOpenSshFailureKind {
    let l = lower(detail);
    if contains(l, "host key verification failed"@) || contains(
        l,
        "remote host identification has changed"@,
    ) || contains(l, "offending key in"@) {
        LocalOpenSshFailureKind::HostKeyMismatch
    } else if public_key_rejected_text(l) {
        LocalOpenSshFailureKind::PublicKeyRejected
    } else if contains(l, "unprotected private key file"@) || contains(l, "bad permissions"@)
        || contains(l, "are too open"@) || contains(l, "load key"@) || contains(
        l,
        "invalid format"@,
    ) || contains(l, "error in libcrypto"@) || contains(l, "no such identity"@) {
        LocalOpenSshFailureKind::PrivateKeyProblem
    } else {
        LocalOpenSshFailureKind::Other
    }
}

/// The kind of a local OpenSSH failure, from its text.
pub fn local_openssh_failure_kind(detail: &str) -> (r: LocalOpenSshFailureKind)
    ensures
        r == failure_kind(detail@),
{
    let v = to_chars(detail);
    let l = lower_chars(&v);
    let ls = from_chars(&l);
    if crate::text::contains_str(&l, "host key verification failed") || crate::text::contains_str(
        &l,
        "remote host identification has changed",
    ) || crate::text::contains_str(&l, "offending key in") {
        return LocalOpenSshFailureKind::HostKeyMismatch;
    }
    if is_public_key_rejected_error(ls.as_str()) {
        return LocalOpenSshFailureKind::PublicKeyRejected;
    }
    if crate::text::contains_str(&l, "unprotected private key file") || crate::text::contains_str(
        &l,
        "bad permissions",
    ) || crate::text::contains_str(&l, "are too open") || crate::text::contains_str(&l, "load key")
        || crate::text::contains_str(&l, "invalid format") || crate::text::contains_str(
        &l,
        "error in libcrypto",
    ) || crate::text::contains_str(&l, "no such identity") {
        return LocalOpenSshFailureKind::PrivateKeyProblem;
    }
    LocalOpenSshFailureKind::Other
}

/// The prefixes before a key path that OpenSSH quotes in its complaints.
pub open spec fn key_path_prefixes() -> Seq<Seq<char>> {
    seq!["Load key '"@, "Load key \""@, "Permissions for '"@, "Permissions for \""@]
}

/// A local OpenSSH failure summarised for the user.
pub open spec fn failure_summary(detail: Seq<char>) -> Seq<char> {
    let n = normalized_ws(detail);
    match failure_kind(n) {
        LocalOpenSshFailureKind::HostKeyMismatch => "系统 known_hosts 主机指纹冲突（host key mismatch）"@,
        LocalOpenSshFailureKind::PublicKeyRejected => "远端未接受当前 SSH 公钥"@,
        LocalOpenSshFailureKind::PrivateKeyProblem => match quoted_path(n, key_path_prefixes()) {
            Some(p) => "Windows 私钥权限或格式异常，OpenSSH 已拒绝加载："@ + p,
            None => "Windows 私钥权限或格式异常，OpenSSH 已拒绝加载"@,
        },
        LocalOpenSshFailureKind::Other => compacted(n, 120),
    }
}

/// A local OpenSSH failure summarised for the user.
pub fn summarize_local_openssh_failure(detail: &str) -> (r: String)
    ensures
        r@ == failure_summary(detail@),
{
    let normalized = normalize_whitespace(detail);
    match local_openssh_failure_kind(normalized.as_str()) {
        LocalOpenSshFailureKind::HostKeyMismatch => "系统 known_hosts 主机指纹冲突（host key mismatch）".to_owned(),
        LocalOpenSshFailureKind::PublicKeyRejected => "远端未接受当前 SSH 公钥".to_owned(),
        LocalOpenSshFailureKind::PrivateKeyProblem => {
            let prefixes: [&str; 4] = [
                "Load key '",
                "Load key \"",
                "Permissions for '",
                "Permissions for \"",
            ];
            let ps = prefixes.as_slice();
            assert(ps@.map_values(|p: &str| p@) =~= key_path_prefixes());
            match extract_quoted_path(normalized.as_str(), ps) {
                Some(path) => {
                    let mut m = "Windows 私钥权限或格式异常，OpenSSH 已拒绝加载：".to_owned();
                    append_str(&mut m, path.as_str());
                    m
                },
                None => "Windows 私钥权限或格式异常，OpenSSH 已拒绝加载".to_owned(),
            }
        },
        LocalOpenSshFailureKind::Other => compact_user_message(normalized.as_str(), 120),
    }
}


/// A classified failure of the local OpenSSH client.
#[derive(Debug, Clone, PartialEq, Eq)]
pub struct LocalOpenSshFailure {
    pub kind: LocalOpenSshFailureKind,
    pub detail: String,
}

/// A failure text classified, with its summary for the user.
pub fn classify_local_openssh_failure(detail: &str) -> (r: LocalOpenSshFailure)
    ensures
        r.kind == failure_kind(normalized_ws(detail@)),
        r.detail@ == failure_summary(normalized_ws(detail@)),
{
    let normalized = normalize_whitespace(detail);
    LocalOpenSshFailure {
        kind: local_openssh_failure_kind(normalized.as_str()),
        detail: summarize_local_openssh_failure(normalized.as_str()),
    }
}

/// The name of a failure kind.
pub open spec fn failure_kind_label(kind: LocalOpenSshFailureKind) -> Seq<char> {
    match kind {
        LocalOpenSshFailureKind::HostKeyMismatch => "host key mismatch"@,
        LocalOpenSshFailureKind::PublicKeyRejected => "public key rejected"@,
        LocalOpenSshFailureKind::PrivateKeyProblem => "private key problem"@,
        LocalOpenSshFailureKind::Other => "other"@,
    }
}

/// The name of a failure kind.
pub fn local_openssh_failure_kind_label(kind: LocalOpenSshFailureKind) -> (r: &'static str)
    ensures
        r@ == failure_kind_label(kind),
{
    match kind {
        LocalOpenSshFailureKind::HostKeyMismatch => "host key mismatch",
        LocalOpenSshFailureKind::PublicKeyRejected => "public key rejected",
        LocalOpenSshFailureKind::PrivateKeyProblem => "private key problem",
        LocalOpenSshFailureKind::Other => "other",
    }
}

/// Why the local OpenSSH client could not confirm key login.
#[derive(Debug)]
pub enum LocalOpenSshValidationError {
    Execution(SshError),
    Failure(LocalOpenSshFailure),
}

/// `r` is the SSH error that a validation failure stands for: the error of a run that could
/// not be made, or the classified failure of the run.
pub open spec fn validation_maps_to(error: LocalOpenSshValidationError, r: SshError) -> bool {
    match error {
        LocalOpenSshValidationError::Execution(e) => r == e,
        LocalOpenSshValidationError::Failure(f) => r matches SshError::Connection(m) && m@
            == "本地 OpenSSH 验证失败（"@ + failure_kind_label(f.kind) + "）："@ + f.detail@,
    }
}

/// A validation failure as an SSH error.
pub fn local_openssh_validation_to_ssh_error(error: LocalOpenSshValidationError) -> (r: SshError)
    ensures
        validation_maps_to(error, r),
{
    match error {
        LocalOpenSshValidationError::Execution(e) => e,
        LocalOpenSshValidationError::Failure(f) => {
            let mut m = "本地 OpenSSH 验证失败（".to_owned();
            append_str(&mut m, local_openssh_failure_kind_label(f.kind));
            append_str(&mut m, "）：");
            append_str(&mut m, f.detail.as_str());
            SshError::Connection(m)
        },
    }
}

/// The detail of a failed OpenSSH run, with normalised whitespace.
pub fn command_failure_reason(code: Option<i32>, stderr: &str, stdout: &str) -> (r: String)
    ensures
        r@ == normalized_ws(failure_message(code, stderr@, stdout@)),
{
    let detail = crate::ssh_config::command_failure_message(code, stderr, stdout);
    normalize_whitespace(detail.as_str())
}

/// What probing the existing keys found.
#[derive(Debug, Clone, PartialEq, Eq)]
pub enum ExistingKeyProbeOutcome {
    Ready(String),
    AllFailed { reason: String },
    Incomplete { reason: String },
}

/// The summary of the attempts with existing keys: how many of the keys were tried, the first
/// two attempts, how many more were left out, and whether time ran out first.
pub open spec fn attempts_summary(key_count: nat, attempts: Seq<Seq<char>>, exhausted: bool) -> Seq<
    char,
> {
    if attempts.len() == 0 {
        if exhausted {
            "尝试本地 SSH 密钥时超时，尚未找到可用于外部工具免密的密钥"@
        } else {
            "检测到本地 SSH 密钥，但没有任何密钥可用于外部工具免密连接"@
        }
    } else {
        let shown = if attempts.len() < 2 {
            attempts.len()
        } else {
            2
        };
        let omitted = (attempts.len() - shown) as nat;
        "已尝试本地已有 SSH 密钥（"@ + dec(attempts.len()) + "/"@ + dec(key_count) + "）："@ + join(
            attempts.take(shown as int),
            "；"@,
        ) + (if omitted > 0 {
            "；其余 "@ + dec(omitted) + " 项已省略"@
        } else {
            Seq::empty()
        }) + (if exhausted && attempts.len() < key_count {
            "；其余密钥因总超时限制未继续尝试"@
        } else {
            Seq::empty()
        })
    }
}

/// How one existing key fared: the SSH library logged in with it but the consumer's own
/// client did not (with that error), the device did not accept it, or trying it failed (with
/// that error).
#[derive(Debug, Clone, PartialEq, Eq)]
pub enum KeyAttemptResult {
    ClientCheckFailed(String),
    Rejected,
    Failed(String),
}

/// The line that records one attempt with the key labelled `key_label`.
pub open spec fn key_attempt_text(
    key_label: Seq<char>,
    result: KeyAttemptResult,
    consumer: LaunchAuthConsumer,
) -> Seq<char> {
    match result {
        KeyAttemptResult::ClientCheckFailed(e) => key_label + " 可通过 russh 认证，但"@
            + consumer_label(consumer) + "验证失败："@ + compacted(e@, 96),
        KeyAttemptResult::Rejected => key_label + " 远端未接受该密钥认证"@,
        KeyAttemptResult::Failed(e) => key_label + " 验证失败："@ + compacted(e@, 96),
    }
}

/// The line that records one attempt with an existing key.
pub fn key_attempt_message(key_label: &str, result: &KeyAttemptResult, consumer: LaunchAuthConsumer) -> (r:
    String)
    ensures
        r@ == key_attempt_text(key_label@, *result, consumer),
{
    let mut out = key_label.to_owned();
    match result {
        KeyAttemptResult::ClientCheckFailed(e) => {
            append_str(&mut out, " 可通过 russh 认证，但");
            append_str(&mut out, launch_auth_consumer_label(consumer));
            append_str(&mut out, "验证失败：");
            let c = compact_user_message(e.as_str(), 96);
            append_str(&mut out, c.as_str());
        },
        KeyAttemptResult::Rejected => {
            append_str(&mut out, " 远端未接受该密钥认证");
        },
        KeyAttemptResult::Failed(e) => {
            append_str(&mut out, " 验证失败：");
            let c = compact_user_message(e.as_str(), 96);
            append_str(&mut out, c.as_str());
        },
    }
    out
}

/// How a key is named in messages: its file name, or the whole path where it has none.
pub fn display_key_label(path: &str) -> (r: String)
    ensures
        r@ == match crate::ssh_keys::file_name(path@) {
            Some(n) => n,
            None => path@,
        },
{
    match crate::ssh_keys::file_name_of(path) {
        Some(n) => n,
        None => path.to_owned(),
    }
}

/// The summary of the attempts with existing keys.
pub fn summarize_existing_key_attempts(
    key_paths: &[String],
    attempts: &[String],
    exhausted_by_timeout: bool,
) -> (r: String)
    ensures
        r@ == attempts_summary(
            key_paths@.len(),
            attempts@.map_values(|a: String| a@),
            exhausted_by_timeout,
        ),
{
    let ghost av = attempts@.map_values(|a: String| a@);
    if attempts.len() == 0 {
        if exhausted_by_timeout {
            return "尝试本地 SSH 密钥时超时，尚未找到可用于外部工具免密的密钥".to_owned();
        }
        return "检测到本地 SSH 密钥，但没有任何密钥可用于外部工具免密连接".to_owned();
    }
    let shown: usize = if attempts.len() < 2 {
        attempts.len()
    } else {
        2
    };
    let mut visible: Vec<Vec<char>> = Vec::new();
    let mut i: usize = 0;
    while i < shown
        invariant
            i <= shown <= attempts@.len(),
            av == attempts@.map_values(|a: String| a@),
            views(visible@) == av.take(i as int),
        decreases shown - i,
    {
        let ghost prev = views(visible@);
        let a = to_chars(attempts[i].as_str());
        visible.push(a);
        assert(views(visible@) =~= prev.push(av[i as int]));
        assert(av.take(i + 1) =~= av.take(i as int).push(av[i as int]));
        i = i + 1;
    }
    let mut reason = "已尝试本地已有 SSH 密钥（".to_owned();
    push_dec(&mut reason, attempts.len() as u64);
    append_str(&mut reason, "/");
    push_dec(&mut reason, key_paths.len() as u64);
    append_str(&mut reason, "）：");
    let sep = to_chars("；");
    let joined = join_chars(&visible, &sep);
    let js = from_chars(&joined);
    append_str(&mut reason, js.as_str());
    let omitted = attempts.len() - shown;
    let ghost mid = reason@;
    if omitted > 0 {
        append_str(&mut reason, "；其余 ");
        push_dec(&mut reason, omitted as u64);
        append_str(&mut reason, " 项已省略");
    } else {
        assert(reason@ =~= mid + Seq::<char>::empty());
    }
    let ghost mid2 = reason@;
    if exhausted_by_timeout && attempts.len() < key_paths.len() {
        append_str(&mut reason, "；其余密钥因总超时限制未继续尝试");
    } else {
        assert(reason@ =~= mid2 + Seq::<char>::empty());
    }
    reason
}

/// Whether the probe of existing keys ran out of time before trying every key.
pub open spec fn probe_incomplete(key_count: nat, attempt_count: nat, exhausted: bool) -> bool {
    exhausted && attempt_count < key_count
}

/// The outcome of probing existing keys where none was ready: incomplete where time ran out
/// before every key was tried, else every key failed.
pub fn classify_existing_key_probe_outcome(
    key_paths: &[String],
    attempts: &[String],
    exhausted_by_timeout: bool,
) -> (r: ExistingKeyProbeOutcome)
    ensures
        match r {
            ExistingKeyProbeOutcome::Incomplete { reason } => probe_incomplete(
                key_paths@.len(),
                attempts@.len(),
                exhausted_by_timeout,
            ) && reason@ == attempts_summary(
                key_paths@.len(),
                attempts@.map_values(|a: String| a@),
                exhausted_by_timeout,
            ),
            ExistingKeyProbeOutcome::AllFailed { reason } => !probe_incomplete(
                key_paths@.len(),
                attempts@.len(),
                exhausted_by_timeout,
            ) && reason@ == attempts_summary(
                key_paths@.len(),
                attempts@.map_values(|a: String| a@),
                exhausted_by_timeout,
            ),
            ExistingKeyProbeOutcome::Ready(_) => false,
        },
{
    let reason = summarize_existing_key_attempts(key_paths, attempts, exhausted_by_timeout);
    if exhausted_by_timeout && attempts.len() < key_paths.len() {
        ExistingKeyProbeOutcome::Incomplete { reason }
    } else {
        ExistingKeyProbeOutcome::AllFailed { reason }
    }
}

/// The reason for a password fallback, after the earlier issue where there was one.
pub open spec fn merged_reason(existing: Option<Seq<char>>, current: Seq<char>) -> Seq<char> {
    match existing {
        Some(issue) => issue + "；"@ + current,
        None => current,
    }
}

/// The reason for a password fallback, after the earlier issue where there was one.
pub fn merge_fallback_reason(existing_issue: Option<&str>, current_reason: String) -> (r: String)
    ensures
        r@ == merged_reason(
            match existing_issue {
                Some(s) => Some(s@),
                None => None,
            },
            current_reason@,
        ),
{
    match existing_issue {
        Some(issue) => {
            let mut m = issue.to_owned();
            append_str(&mut m, "；");
            append_str(&mut m, current_reason.as_str());
            m
        },
        None => current_reason,
    }
}

/// A fallback reason followed by the warning that repairing `known_hosts` failed.
pub open spec fn repair_failure_reason(reason: Seq<char>, error: Seq<char>) -> Seq<char> {
    reason + "；并且 system known_hosts 主机指纹修复失败（"@ + error
        + "），当前可能仍无法进入密码输入阶段，请先修复该主机的 known_hosts 信任状态"@
}

/// A fallback reason followed by the warning that repairing `known_hosts` failed.
pub fn append_system_known_hosts_repair_failure_reason(reason: String, error: &ConfigError) -> (r:
    String)
    ensures
        r@ == repair_failure_reason(reason@, crate::ssh_config::config_error_text(*error)),
{
    let mut m = reason;
    append_str(&mut m, "；并且 system known_hosts 主机指纹修复失败（");
    let e = error.message();
    append_str(&mut m, e.as_str());
    append_str(&mut m, "），当前可能仍无法进入密码输入阶段，请先修复该主机的 known_hosts 信任状态");
    m
}

/// Whether a consumer reads the system `known_hosts`, so that a password fallback repairs it.
pub open spec fn repairs_known_hosts(consumer: LaunchAuthConsumer) -> bool {
    consumer == LaunchAuthConsumer::VscodeLike || consumer == LaunchAuthConsumer::Shell
}

/// The fallback reason after an attempt to repair the system `known_hosts` for `username` at
/// `ip`: consumers that do not read it leave the reason as it is, and `repair` is called only
/// for those that do, with the host alias.
pub fn maybe_repair_system_known_hosts_for_password_fallback<F: Fn(&str) -> Result<(), ConfigError>>(
    reason: String,
    ip: &str,
    username: &str,
    consumer: LaunchAuthConsumer,
    repair: F,
) -> (r: String)
    requires
        forall|alias: &str| repair.requires((alias,)),
    ensures
        !repairs_known_hosts(consumer) ==> r@ == reason@,
        repairs_known_hosts(consumer) ==> exists|alias: &str, res: Result<(), ConfigError>|
            alias@ == host_alias_spec(ip@, username@) && repair.ensures((alias,), res) && r@ == match res {
                Ok(()) => reason@,
                Err(e) => repair_failure_reason(reason@, crate::ssh_config::config_error_text(e)),
            },
{
    match consumer {
        LaunchAuthConsumer::Mobaxterm => reason,
        _ => {
            let alias = host_alias(ip, username);
            let res = repair(alias.as_str());
            match res {
                Ok(()) => reason,
                Err(e) => append_system_known_hosts_repair_failure_reason(reason, &e),
            }
        },
    }
}

/// `r` is the error after a failed external validation with `primary`: `primary` itself where
/// rollback and cleanup went well, else a connection error that appends their failures.
pub open spec fn assembled(
    primary: SshError,
    rollback_error: Option<ConfigError>,
    cleanup_error: Option<SshError>,
    r: SshError,
) -> bool {
    &&& rollback_error is None && cleanup_error is None ==> r == primary
    &&& !(rollback_error is None && cleanup_error is None) ==> (r matches SshError::Connection(m)
        && m@ == ssh_error_text(primary) + (match rollback_error {
        Some(e) => "；并且回滚 SSH alias 配置失败："@ + crate::ssh_config::config_error_text(e),
        None => Seq::empty(),
    }) + (match cleanup_error {
        Some(e) => "；并且"@ + ssh_error_text(e),
        None => Seq::empty(),
    }))
}

/// The error after a failed external validation, with the failures of rolling back the
/// configuration and of cleaning up the temporary key appended where they happened.
pub fn assemble_external_validation_error(
    primary: SshError,
    rollback_error: Option<ConfigError>,
    cleanup_error: Option<SshError>,
) -> (r: SshError)
    ensures
        assembled(primary, rollback_error, cleanup_error, r),
{
    if rollback_error.is_none() && cleanup_error.is_none() {
        return primary;
    }
    let mut detail = primary.message();
    let ghost d0 = detail@;
    match &rollback_error {
        Some(e) => {
            append_str(&mut detail, "；并且回滚 SSH alias 配置失败：");
            let m = e.message();
            append_str(&mut detail, m.as_str());
        },
        None => {
            assert(detail@ =~= d0 + Seq::<char>::empty());
        },
    }
    let ghost d1 = detail@;
    match &cleanup_error {
        Some(e) => {
            append_str(&mut detail, "；并且");
            let m = e.message();
            append_str(&mut detail, m.as_str());
        },
        None => {
            assert(detail@ =~= d1 + Seq::<char>::empty());
        },
    }
    assert(detail@ =~= ssh_error_text(primary) + (match rollback_error {
        Some(e) => "；并且回滚 SSH alias 配置失败："@ + crate::ssh_config::config_error_text(e),
        None => Seq::empty(),
    }) + (match cleanup_error {
        Some(e) => "；并且"@ + ssh_error_text(e),
        None => Seq::empty(),
    }));
    SshError::Connection(detail)
}

/// The name of a consumer in user messages.
pub open spec fn consumer_label(consumer: LaunchAuthConsumer) -> Seq<char> {
    match consumer {
        LaunchAuthConsumer::VscodeLike => "系统 OpenSSH"@,
        LaunchAuthConsumer::Mobaxterm => "MobaXterm 显式 ssh -i 路径"@,
        LaunchAuthConsumer::Shell => "系统 OpenSSH 终端"@,
    }
}

/// The name of a consumer in user messages.
pub fn launch_auth_consumer_label(consumer: LaunchAuthConsumer) -> (r: &'static str)
    ensures
        r@ == consumer_label(consumer),
{
    match consumer {
        LaunchAuthConsumer::VscodeLike => "系统 OpenSSH",
        LaunchAuthConsumer::Mobaxterm => "MobaXterm 显式 ssh -i 路径",
        LaunchAuthConsumer::Shell => "系统 OpenSSH 终端",
    }
}


/// Where the preparation of launch authentication stands.
#[derive(Debug, Clone, Copy, PartialEq, Eq)]
pub enum LaunchAuthStage {
    AwaitKeyList,
    AwaitExistingKeyProbe,
    AwaitManagedKeypair,
    AwaitPublicKeyInstall,
    AwaitInstalledKeyCheck,
    AwaitExternalCheck,
    AwaitKnownHostsRepair,
    Done,
}

/// The outside work that the preparation asks for next, or its result.
#[derive(Debug, Clone, PartialEq, Eq)]
pub enum LaunchAuthAction {
    /// List the candidate private keys that exist as files.
    ListKeys,
    /// Try the listed keys, for this consumer, within the time limit.
    ProbeExistingKeys,
    /// Create the managed key pair where it is missing.
    EnsureManagedKeypair,
    /// Install the public half of `key_path` on the device, logging in with the password.
    InstallPublicKey { key_path: String },
    /// Log in with `key_path` alone.
    CheckInstalledKey { key_path: String },
    /// Check that the consumer's own client logs in with `key_path`.
    CheckExternalClient { key_path: String },
    /// Remove the stale system `known_hosts` entries for `alias`.
    RepairKnownHosts { alias: String },
    /// The preparation is over.
    Finish(LaunchAuthPreparation),
}

/// What the outside work reported.
#[derive(Debug)]
pub enum LaunchAuthEvent {
    KeysListed(Result<usize, String>),
    ExistingKeysProbed(ExistingKeyProbeOutcome),
    ManagedKeypair(Result<String, String>),
    PublicKeyInstalled(Result<(), String>),
    InstalledKeyChecked(Result<bool, String>),
    ExternalClientChecked(Result<String, String>),
    KnownHostsRepaired(Result<(), ConfigError>),
}

/// The event that answers the work asked for in `stage`.
pub open spec fn event_fits(stage: LaunchAuthStage, event: LaunchAuthEvent) -> bool {
    match (stage, event) {
        (LaunchAuthStage::AwaitKeyList, LaunchAuthEvent::KeysListed(_)) => true,
        (LaunchAuthStage::AwaitExistingKeyProbe, LaunchAuthEvent::ExistingKeysProbed(_)) => true,
        (LaunchAuthStage::AwaitManagedKeypair, LaunchAuthEvent::ManagedKeypair(_)) => true,
        (LaunchAuthStage::AwaitPublicKeyInstall, LaunchAuthEvent::PublicKeyInstalled(_)) => true,
        (LaunchAuthStage::AwaitInstalledKeyCheck, LaunchAuthEvent::InstalledKeyChecked(_)) => true,
        (LaunchAuthStage::AwaitExternalCheck, LaunchAuthEvent::ExternalClientChecked(_)) => true,
        (LaunchAuthStage::AwaitKnownHostsRepair, LaunchAuthEvent::KnownHostsRepaired(_)) => true,
        _ => false,
    }
}

/// The preparation of authentication for launching a tool against `username` at `ip`: the
/// decisions between the outside steps.
#[derive(Debug)]
pub struct LaunchAuthFlow {
    pub ip: String,
    pub username: String,
    /// The trimmed password, where one was given and is not blank.
    pub password: Option<String>,
    pub consumer: LaunchAuthConsumer,
    /// Why the existing keys failed, where they did and a password fallback remains.
    pub existing_issue: Option<String>,
    /// The managed key being installed.
    pub key_path: Option<String>,
    /// The fallback reason that waits for the `known_hosts` repair.
    pub pending_reason: Option<String>,
    pub stage: LaunchAuthStage,
}

/// The action finishes with a hard failure for `reason`.
pub open spec fn finishes_hard(r: LaunchAuthAction, reason: Seq<char>) -> bool {
    r matches LaunchAuthAction::Finish(LaunchAuthPreparation::HardFailure { reason: m }) && m@
        == reason
}

/// The action finishes with a ready key.
pub open spec fn finishes_key(r: LaunchAuthAction, path: Seq<char>, source: KeyReadySource) -> bool {
    r matches LaunchAuthAction::Finish(LaunchAuthPreparation::KeyReady { key_path: k, source: s })
        && k@ == path && s == source
}

/// The action finishes with a password fallback for `reason`.
pub open spec fn finishes_fallback(r: LaunchAuthAction, reason: Seq<char>) -> bool {
    r matches LaunchAuthAction::Finish(LaunchAuthPreparation::PasswordFallback { reason: m }) && m@
        == reason
}

/// The flow falls back to the password for `current`: after the earlier issue, and by way of a
/// `known_hosts` repair for consumers that read it.
pub open spec fn falls_back(
    before: LaunchAuthFlow,
    after: LaunchAuthFlow,
    r: LaunchAuthAction,
    current: Seq<char>,
) -> bool {
    let merged = merged_reason(crate::credential::opt_view(before.existing_issue), current);
    if repairs_known_hosts(before.consumer) {
        &&& after.stage == LaunchAuthStage::AwaitKnownHostsRepair
        &&& crate::credential::opt_view(after.pending_reason) == Some(merged)
        &&& r matches LaunchAuthAction::RepairKnownHosts { alias } && alias@ == host_alias_spec(
            before.ip@,
            before.username@,
        )
    } else {
        after.stage == LaunchAuthStage::Done && finishes_fallback(r, merged)
    }
}

/// The stages of the managed-key bootstrap and of the password fallback, which only a
/// preparation with a password may reach.
pub open spec fn needs_password_stage(stage: LaunchAuthStage) -> bool {
    stage == LaunchAuthStage::AwaitManagedKeypair || stage == LaunchAuthStage::AwaitPublicKeyInstall
        || stage == LaunchAuthStage::AwaitInstalledKeyCheck || stage
        == LaunchAuthStage::AwaitExternalCheck || stage == LaunchAuthStage::AwaitKnownHostsRepair
}

/// An action that bootstraps the managed key, falls back to the password, or ends with a
/// key that was installed with the password.
pub open spec fn uses_password(r: LaunchAuthAction) -> bool {
    ||| r is EnsureManagedKeypair
    ||| r is InstallPublicKey
    ||| r is CheckInstalledKey
    ||| r is CheckExternalClient
    ||| r is RepairKnownHosts
    ||| r matches LaunchAuthAction::Finish(LaunchAuthPreparation::PasswordFallback { .. })
    ||| r matches LaunchAuthAction::Finish(
        LaunchAuthPreparation::KeyReady { source: KeyReadySource::Installed, .. },
    )
}

/// The flow goes on to the managed key pair, which needs a password to install.
pub open spec fn goes_to_managed_key(before: LaunchAuthFlow, after: LaunchAuthFlow, r: LaunchAuthAction) -> bool {
    if before.password is Some {
        after.stage == LaunchAuthStage::AwaitManagedKeypair && r
            == LaunchAuthAction::EnsureManagedKeypair
    } else {
        after.stage == LaunchAuthStage::Done && finishes_hard(r, "当前没有可用的密码回退路径，无法建立连接"@)
    }
}

impl LaunchAuthFlow {
    /// The stages that use the managed key have one, and the repair stage has its reason.
    pub open spec fn well_formed(self) -> bool {
        &&& (self.stage == LaunchAuthStage::AwaitPublicKeyInstall || self.stage
            == LaunchAuthStage::AwaitInstalledKeyCheck || self.stage
            == LaunchAuthStage::AwaitExternalCheck) ==> self.key_path is Some
        &&& self.stage == LaunchAuthStage::AwaitKnownHostsRepair ==> self.pending_reason is Some
    }

    /// Whether `event` answers the work that the preparation waits for.
    pub fn accepts(&self, event: &LaunchAuthEvent) -> (r: bool)
        ensures
            r == event_fits(self.stage, *event),
    {
        match (self.stage, event) {
            (LaunchAuthStage::AwaitKeyList, LaunchAuthEvent::KeysListed(_)) => true,
            (LaunchAuthStage::AwaitExistingKeyProbe, LaunchAuthEvent::ExistingKeysProbed(_)) => true,
            (LaunchAuthStage::AwaitManagedKeypair, LaunchAuthEvent::ManagedKeypair(_)) => true,
            (LaunchAuthStage::AwaitPublicKeyInstall, LaunchAuthEvent::PublicKeyInstalled(_)) => true,
            (LaunchAuthStage::AwaitInstalledKeyCheck, LaunchAuthEvent::InstalledKeyChecked(_)) => true,
            (LaunchAuthStage::AwaitExternalCheck, LaunchAuthEvent::ExternalClientChecked(_)) => true,
            (LaunchAuthStage::AwaitKnownHostsRepair, LaunchAuthEvent::KnownHostsRepaired(_)) => true,
            _ => false,
        }
    }

    /// Starts preparing authentication: the key list comes first.
    pub fn new(ip: &str, username: &str, password: Option<&str>, consumer: LaunchAuthConsumer) -> (r: (
        LaunchAuthFlow,
        LaunchAuthAction,
    ))
        ensures
            r.0.ip@ == ip@,
            r.0.username@ == username@,
            crate::credential::opt_view(r.0.password) == crate::store::nonblank(
                match password {
                    Some(p) => Some(p@),
                    None => None,
                },
            ),
            r.0.consumer == consumer,
            r.0.existing_issue is None,
            r.0.key_path is None,
            r.0.pending_reason is None,
            r.0.stage == LaunchAuthStage::AwaitKeyList,
            !needs_password_stage(r.0.stage),
            r.0.well_formed(),
            r.1 == LaunchAuthAction::ListKeys,
    {
        let pw = match password {
            Some(p) => {
                let t = crate::text::trim_string(p);
                if t.unicode_len() > 0 {
                    Some(t)
                } else {
                    None
                }
            },
            None => None,
        };
        (
            LaunchAuthFlow {
                ip: ip.to_owned(),
                username: username.to_owned(),
                password: pw,
                consumer,
                existing_issue: None,
                key_path: None,
                pending_reason: None,
                stage: LaunchAuthStage::AwaitKeyList,
            },
            LaunchAuthAction::ListKeys,
        )
    }

    fn fall_back(&mut self, current: String) -> (r: LaunchAuthAction)
        ensures
            falls_back(*old(self), *final(self), r, current@),
            final(self).well_formed(),
            final(self).ip == old(self).ip,
            final(self).username == old(self).username,
            final(self).consumer == old(self).consumer,
            final(self).password == old(self).password,
            final(self).existing_issue == old(self).existing_issue,
            final(self).key_path == old(self).key_path,
    {
        let merged = match &self.existing_issue {
            Some(issue) => merge_fallback_reason(Some(issue.as_str()), current),
            None => merge_fallback_reason(None, current),
        };
        match self.consumer {
            LaunchAuthConsumer::Mobaxterm => {
                self.stage = LaunchAuthStage::Done;
                LaunchAuthAction::Finish(LaunchAuthPreparation::PasswordFallback { reason: merged })
            },
            _ => {
                let alias = host_alias(self.ip.as_str(), self.username.as_str());
                self.pending_reason = Some(merged);
                self.stage = LaunchAuthStage::AwaitKnownHostsRepair;
                LaunchAuthAction::RepairKnownHosts { alias }
            },
        }
    }

    fn go_to_managed_key(&mut self) -> (r: LaunchAuthAction)
        ensures
            goes_to_managed_key(*old(self), *final(self), r),
            final(self).well_formed(),
            final(self).ip == old(self).ip,
            final(self).username == old(self).username,
            final(self).consumer == old(self).consumer,
            final(self).password == old(self).password,
            final(self).existing_issue == old(self).existing_issue,
            final(self).key_path == old(self).key_path,
            final(self).pending_reason == old(self).pending_reason,
    {
        if self.password.is_some() {
            self.stage = LaunchAuthStage::AwaitManagedKeypair;
            LaunchAuthAction::EnsureManagedKeypair
        } else {
            self.stage = LaunchAuthStage::Done;
            LaunchAuthAction::Finish(
                LaunchAuthPreparation::HardFailure {
                    reason: "当前没有可用的密码回退路径，无法建立连接".to_owned(),
                },
            )
        }
    }

    /// Takes the report of the work asked for last and decides what comes next.
    pub fn step(&mut self, event: LaunchAuthEvent) -> (r: LaunchAuthAction)
        requires
            event_fits(old(self).stage, event),
            old(self).well_formed(),
        ensures
            final(self).well_formed(),
            final(self).ip == old(self).ip,
            final(self).username == old(self).username,
            final(self).consumer == old(self).consumer,
            final(self).password == old(self).password,
            !(event matches LaunchAuthEvent::ExistingKeysProbed(
                ExistingKeyProbeOutcome::AllFailed { .. },
            )) ==> final(self).existing_issue == old(self).existing_issue,
            !(event matches LaunchAuthEvent::ManagedKeypair(Ok(_))) ==> final(self).key_path
                == old(self).key_path,
            old(self).password is None && !needs_password_stage(old(self).stage) ==> !needs_password_stage(
                final(self).stage,
            ) && !uses_password(r),
            match event {
                LaunchAuthEvent::KeysListed(Err(e)) => if old(self).password is None {
                    final(self).stage == LaunchAuthStage::Done && finishes_hard(
                        r,
                        "读取本地 SSH 密钥列表失败，且没有密码可回退："@ + e@,
                    )
                } else {
                    goes_to_managed_key(*old(self), *final(self), r)
                },
                LaunchAuthEvent::KeysListed(Ok(n)) => if n > 0 {
                    final(self).stage == LaunchAuthStage::AwaitExistingKeyProbe && r
                        == LaunchAuthAction::ProbeExistingKeys
                } else if old(self).password is None {
                    final(self).stage == LaunchAuthStage::Done && finishes_hard(
                        r,
                        "当前没有可用 SSH 密钥，且未提供密码，无法建立连接"@,
                    )
                } else {
                    goes_to_managed_key(*old(self), *final(self), r)
                },
                LaunchAuthEvent::ExistingKeysProbed(ExistingKeyProbeOutcome::Ready(p)) => final(self).stage == LaunchAuthStage::Done && finishes_key(r, p@, KeyReadySource::Existing),
                LaunchAuthEvent::ExistingKeysProbed(ExistingKeyProbeOutcome::AllFailed { reason }) =>
                    if old(self).password is None {
                    final(self).stage == LaunchAuthStage::Done && finishes_hard(r, reason@)
                } else {
                    crate::credential::opt_view(final(self).existing_issue) == Some(reason@)
                        && goes_to_managed_key(*old(self), *final(self), r)
                },
                LaunchAuthEvent::ExistingKeysProbed(ExistingKeyProbeOutcome::Incomplete { reason }) =>
                    final(self).stage == LaunchAuthStage::Done && finishes_hard(
                    r,
                    reason@ + "；本轮既有 SSH 密钥探测未完成，已阻止提前进入托管密钥 bootstrap，请稍后重试"@,
                ),
                LaunchAuthEvent::ManagedKeypair(Err(e)) => falls_back(
                    *old(self),
                    *final(self),
                    r,
                    "准备 LANScanner 托管密钥失败，当前改用密码连接："@ + e@,
                ),
                LaunchAuthEvent::ManagedKeypair(Ok(k)) => final(self).stage
                    == LaunchAuthStage::AwaitPublicKeyInstall && crate::credential::opt_view(final(self).key_path) == Some(k@) && (r matches LaunchAuthAction::InstallPublicKey { key_path }
                    && key_path@ == k@),
                LaunchAuthEvent::PublicKeyInstalled(Err(e)) => falls_back(
                    *old(self),
                    *final(self),
                    r,
                    "已尝试安装公钥但失败，当前改用密码连接："@ + e@,
                ),
                LaunchAuthEvent::PublicKeyInstalled(Ok(())) => final(self).stage
                    == LaunchAuthStage::AwaitInstalledKeyCheck && final(self).key_path == old(self).key_path && (r matches LaunchAuthAction::CheckInstalledKey { key_path }
                    && Some(key_path@) == crate::credential::opt_view(old(self).key_path)),
                LaunchAuthEvent::InstalledKeyChecked(Ok(true)) => final(self).stage
                    == LaunchAuthStage::AwaitExternalCheck && (r matches LaunchAuthAction::CheckExternalClient { key_path }
                    && Some(key_path@) == crate::credential::opt_view(old(self).key_path)),
                LaunchAuthEvent::InstalledKeyChecked(Ok(false)) => falls_back(
                    *old(self),
                    *final(self),
                    r,
                    "已尝试安装公钥，但远端未接受免密登录，当前改用密码连接"@,
                ),
                LaunchAuthEvent::InstalledKeyChecked(Err(e)) => falls_back(
                    *old(self),
                    *final(self),
                    r,
                    "已尝试安装公钥，但免密验证失败，当前改用密码连接："@ + e@,
                ),
                LaunchAuthEvent::ExternalClientChecked(Ok(p)) => final(self).stage
                    == LaunchAuthStage::Done && finishes_key(r, p@, KeyReadySource::Installed),
                LaunchAuthEvent::ExternalClientChecked(Err(e)) => falls_back(
                    *old(self),
                    *final(self),
                    r,
                    "已安装 LANScanner 托管公钥，但"@ + consumer_label(old(self).consumer)
                        + "外部免密预检失败，当前改用密码连接："@ + e@,
                ),
                LaunchAuthEvent::KnownHostsRepaired(res) => final(self).stage == LaunchAuthStage::Done
                    && (old(self).pending_reason matches Some(pending) && finishes_fallback(
                    r,
                    match res {
                        Ok(()) => pending@,
                        Err(e) => repair_failure_reason(
                            pending@,
                            crate::ssh_config::config_error_text(e),
                        ),
                    },
                )),
            },
    {
        match event {
            LaunchAuthEvent::KeysListed(Err(e)) => {
                if self.password.is_none() {
                    self.stage = LaunchAuthStage::Done;
                    let mut m = "读取本地 SSH 密钥列表失败，且没有密码可回退：".to_owned();
                    append_str(&mut m, e.as_str());
                    LaunchAuthAction::Finish(LaunchAuthPreparation::HardFailure { reason: m })
                } else {
                    self.go_to_managed_key()
                }
            },
            LaunchAuthEvent::KeysListed(Ok(n)) => {
                if n > 0 {
                    self.stage = LaunchAuthStage::AwaitExistingKeyProbe;
                    LaunchAuthAction::ProbeExistingKeys
                } else if self.password.is_none() {
                    self.stage = LaunchAuthStage::Done;
                    LaunchAuthAction::Finish(
                        LaunchAuthPreparation::HardFailure {
                            reason: "当前没有可用 SSH 密钥，且未提供密码，无法建立连接".to_owned(),
                        },
                    )
                } else {
                    self.go_to_managed_key()
                }
            },
            LaunchAuthEvent::ExistingKeysProbed(outcome) => match outcome {
                ExistingKeyProbeOutcome::Ready(p) => {
                    self.stage = LaunchAuthStage::Done;
                    LaunchAuthAction::Finish(
                        LaunchAuthPreparation::KeyReady { key_path: p, source: KeyReadySource::Existing },
                    )
                },
                ExistingKeyProbeOutcome::AllFailed { reason } => {
                    if self.password.is_none() {
                        self.stage = LaunchAuthStage::Done;
                        LaunchAuthAction::Finish(LaunchAuthPreparation::HardFailure { reason })
                    } else {
                        self.existing_issue = Some(reason);
                        self.go_to_managed_key()
                    }
                },
                ExistingKeyProbeOutcome::Incomplete { reason } => {
                    self.stage = LaunchAuthStage::Done;
                    let mut m = reason;
                    append_str(
                        &mut m,
                        "；本轮既有 SSH 密钥探测未完成，已阻止提前进入托管密钥 bootstrap，请稍后重试",
                    );
                    LaunchAuthAction::Finish(LaunchAuthPreparation::HardFailure { reason: m })
                },
            },
            LaunchAuthEvent::ManagedKeypair(Err(e)) => {
                let mut m = "准备 LANScanner 托管密钥失败，当前改用密码连接：".to_owned();
                append_str(&mut m, e.as_str());
                self.fall_back(m)
            },
            LaunchAuthEvent::ManagedKeypair(Ok(k)) => {
                self.key_path = Some(k.clone());
                self.stage = LaunchAuthStage::AwaitPublicKeyInstall;
                LaunchAuthAction::InstallPublicKey { key_path: k }
            },
            LaunchAuthEvent::PublicKeyInstalled(Err(e)) => {
                let mut m = "已尝试安装公钥但失败，当前改用密码连接：".to_owned();
                append_str(&mut m, e.as_str());
                self.fall_back(m)
            },
            LaunchAuthEvent::PublicKeyInstalled(Ok(())) => {
                self.stage = LaunchAuthStage::AwaitInstalledKeyCheck;
                let k = match &self.key_path {
                    Some(k) => k.clone(),
                    None => String::new(),
                };
                LaunchAuthAction::CheckInstalledKey { key_path: k }
            },
            LaunchAuthEvent::InstalledKeyChecked(Ok(ok)) => {
                if ok {
                    self.stage = LaunchAuthStage::AwaitExternalCheck;
                    let k = match &self.key_path {
                        Some(k) => k.clone(),
                        None => String::new(),
                    };
                    LaunchAuthAction::CheckExternalClient { key_path: k }
                } else {
                    self.fall_back("已尝试安装公钥，但远端未接受免密登录，当前改用密码连接".to_owned())
                }
            },
            LaunchAuthEvent::InstalledKeyChecked(Err(e)) => {
                let mut m = "已尝试安装公钥，但免密验证失败，当前改用密码连接：".to_owned();
                append_str(&mut m, e.as_str());
                self.fall_back(m)
            },
            LaunchAuthEvent::ExternalClientChecked(Ok(p)) => {
                self.stage = LaunchAuthStage::Done;
                LaunchAuthAction::Finish(
                    LaunchAuthPreparation::KeyReady { key_path: p, source: KeyReadySource::Installed },
                )
            },
            LaunchAuthEvent::ExternalClientChecked(Err(e)) => {
                let mut m = "已安装 LANScanner 托管公钥，但".to_owned();
                append_str(&mut m, launch_auth_consumer_label(self.consumer));
                append_str(&mut m, "外部免密预检失败，当前改用密码连接：");
                append_str(&mut m, e.as_str());
                self.fall_back(m)
            },
            LaunchAuthEvent::KnownHostsRepaired(res) => {
                self.stage = LaunchAuthStage::Done;
                let pending = match &self.pending_reason {
                    Some(p) => p.clone(),
                    None => String::new(),
                };
                match res {
                    Ok(()) => LaunchAuthAction::Finish(
                        LaunchAuthPreparation::PasswordFallback { reason: pending },
                    ),
                    Err(e) => LaunchAuthAction::Finish(
                        LaunchAuthPreparation::PasswordFallback {
                            reason: append_system_known_hosts_repair_failure_reason(pending, &e),
                        },
                    ),
                }
            },
        }
    }
}

} // verus!
