//! Checking that a tool's own OpenSSH client logs in with a prepared key: the command lines
//! that are run, and the decisions between the outside steps.
use vstd::prelude::*;
use crate::ssh_auth::{
    LaunchAuthConsumer, LocalOpenSshFailureKind, LocalOpenSshValidationError, SshError,
    assemble_external_validation_error, assembled, compact_user_message, compacted,
    local_openssh_validation_to_ssh_error, validation_maps_to,
};
use crate::ssh_config::{ConfigError, config_error_text, host_alias, host_alias_spec};
use crate::text::{append_str, dec, dec_chars, from_chars, owned_strings};

verus! {

/// The seconds that `ssh` waits for a connection: the time limit in whole seconds, at least
/// one.
pub open spec fn connect_timeout_secs(timeout_secs: u64) -> nat {
    if timeout_secs >= 1 {
        timeout_secs as nat
    } else {
        1
    }
}

fn connect_timeout_option(timeout_secs: u64) -> (r: String)
    ensures
        r@ == "ConnectTimeout="@ + dec(connect_timeout_secs(timeout_secs)),
{
    let t = if timeout_secs >= 1 {
        timeout_secs
    } else {
        1
    };
    let mut out = "ConnectTimeout=".to_owned();
    let d = dec_chars(t);
    let s = from_chars(&d);
    append_str(&mut out, s.as_str());
    out
}

/// The texts of a list of strings.
pub open spec fn texts(v: Seq<String>) -> Seq<Seq<char>> {
    v.map_values(|s: String| s@)
}

/// The arguments of `ssh` that log in to the configured host `alias` with keys only, without
/// asking anything, reading the configuration file `config_path`; a new host key is accepted
/// where `accept_new` is set.
pub open spec fn batch_mode_args(
    config_path: Seq<char>,
    alias: Seq<char>,
    timeout_secs: u64,
    accept_new: bool,
) -> Seq<Seq<char>> {
    let head = seq!["-F"@, config_path, "-o"@, "BatchMode=yes"@, "-o"@, "PasswordAuthentication=no"@];
    let tail = seq![
        "-o"@,
        "PreferredAuthentications=publickey"@,
        "-o"@,
        "ConnectTimeout="@ + dec(connect_timeout_secs(timeout_secs)),
        alias,
        "exit"@,
    ];
    if accept_new {
        head + seq!["-o"@, "StrictHostKeyChecking=accept-new"@] + tail
    } else {
        head + tail
    }
}

/// The arguments of `ssh` that log in to the configured host `alias` with keys only.
pub fn local_openssh_batch_args(
    config_path: &str,
    alias: &str,
    timeout_secs: u64,
    accept_new: bool,
) -> (r: Vec<String>)
    ensures
        texts(r@) == batch_mode_args(config_path@, alias@, timeout_secs, accept_new),
{
    let timeout = connect_timeout_option(timeout_secs);
    let mut args = owned_strings(
        &["-F", config_path, "-o", "BatchMode=yes", "-o", "PasswordAuthentication=no"],
    );
    if accept_new {
        args.push("-o".to_owned());
        args.push("StrictHostKeyChecking=accept-new".to_owned());
    }
    args.push("-o".to_owned());
    args.push("PreferredAuthentications=publickey".to_owned());
    args.push("-o".to_owned());
    args.push(timeout);
    args.push(alias.to_owned());
    args.push("exit".to_owned());
    assert(texts(args@) =~= batch_mode_args(config_path@, alias@, timeout_secs, accept_new));
    args
}

/// The arguments of `ssh` that log in to `username` at `ip` with the key file `key_path`
/// alone, without asking anything, the older RSA algorithms allowed; a new host key is
/// accepted where `accept_new` is set.
pub open spec fn explicit_key_args(
    ip: Seq<char>,
    username: Seq<char>,
    key_path: Seq<char>,
    timeout_secs: u64,
    accept_new: bool,
) -> Seq<Seq<char>> {
    let head = seq![
        "-o"@,
        "BatchMode=yes"@,
        "-o"@,
        "PasswordAuthentication=no"@,
        "-o"@,
        "PreferredAuthentications=publickey"@,
        "-o"@,
        "PubkeyAuthentication=yes"@,
        "-o"@,
        "IdentitiesOnly=yes"@,
        "-o"@,
        "HostKeyAlgorithms=+ssh-rsa"@,
    ];
    let tail = seq![
        "-o"@,
        "PubkeyAcceptedAlgorithms=+ssh-rsa"@,
        "-o"@,
        "PubkeyAcceptedKeyTypes=+ssh-rsa"@,
        "-o"@,
        "ConnectTimeout="@ + dec(connect_timeout_secs(timeout_secs)),
        "-i"@,
        key_path,
        username + "@"@ + ip,
        "exit"@,
    ];
    if accept_new {
        head + seq!["-o"@, "StrictHostKeyChecking=accept-new"@] + tail
    } else {
        head + tail
    }
}

/// The arguments of `ssh` that log in to `username` at `ip` with the key file `key_path`
/// alone.
pub fn local_openssh_explicit_key_args(
    ip: &str,
    username: &str,
    key_path: &str,
    timeout_secs: u64,
    accept_new: bool,
) -> (r: Vec<String>)
    ensures
        texts(r@) == explicit_key_args(ip@, username@, key_path@, timeout_secs, accept_new),
{
    let timeout = connect_timeout_option(timeout_secs);
    let mut target = username.to_owned();
    append_str(&mut target, "@");
    append_str(&mut target, ip);
    let mut args = owned_strings(
        &[
            "-o",
            "BatchMode=yes",
            "-o",
            "PasswordAuthentication=no",
            "-o",
            "PreferredAuthentications=publickey",
            "-o",
            "PubkeyAuthentication=yes",
            "-o",
            "IdentitiesOnly=yes",
            "-o",
            "HostKeyAlgorithms=+ssh-rsa",
        ],
    );
    if accept_new {
        args.push("-o".to_owned());
        args.push("StrictHostKeyChecking=accept-new".to_owned());
    }
    args.push("-o".to_owned());
    args.push("PubkeyAcceptedAlgorithms=+ssh-rsa".to_owned());
    args.push("-o".to_owned());
    args.push("PubkeyAcceptedKeyTypes=+ssh-rsa".to_owned());
    args.push("-o".to_owned());
    args.push(timeout);
    args.push("-i".to_owned());
    args.push(key_path.to_owned());
    args.push(target);
    args.push("exit".to_owned());
    assert(texts(args@) =~= explicit_key_args(ip@, username@, key_path@, timeout_secs, accept_new));
    args
}

/// Where the check of a prepared key for an outside client stands.
#[derive(Debug, Clone, Copy, PartialEq, Eq)]
pub enum ExternalCheckStage {
    AwaitPreparedKey,
    AwaitExplicitKeyCheck,
    AwaitConfigUpdate,
    AwaitAliasCheck,
    AwaitKnownHostsRepair,
    AwaitAliasRecheck,
    AwaitRollback,
    AwaitCleanup,
    Done,
}

/// The outside work that the check asks for next, or its result.
#[derive(Debug)]
pub enum ExternalCheckAction {
    /// Make the key at `key_path` usable by the outside client.
    PrepareKey { key_path: String },
    /// Run `ssh` with these arguments.
    RunSsh { args: Vec<String> },
    /// Write the SSH configuration block of `alias` for the prepared key, keeping what it
    /// replaces for a rollback.
    UpdateConfig { alias: String, key_path: String },
    /// Remove the stale `known_hosts` entries of `ip` and `alias`.
    RepairKnownHosts { ip: String, alias: String },
    /// Put the SSH configuration back as it was.
    Rollback,
    /// Remove the prepared copy of the key, where one was made.
    Cleanup,
    /// The check is over: the prepared key, or why it cannot be used.
    Finish(Result<String, SshError>),
}

/// What the outside work reported.
#[derive(Debug)]
pub enum ExternalCheckEvent {
    KeyPrepared(Result<String, String>),
    SshRan(Result<(), LocalOpenSshValidationError>),
    ConfigUpdated(Result<(), ConfigError>),
    KnownHostsRepaired(Result<(), ConfigError>),
    RolledBack(Option<ConfigError>),
    CleanedUp(Option<SshError>),
}

/// The event that answers the work asked for in `stage`.
pub open spec fn check_event_fits(stage: ExternalCheckStage, event: ExternalCheckEvent) -> bool {
    match (stage, event) {
        (ExternalCheckStage::AwaitPreparedKey, ExternalCheckEvent::KeyPrepared(_)) => true,
        (ExternalCheckStage::AwaitExplicitKeyCheck, ExternalCheckEvent::SshRan(_)) => true,
        (ExternalCheckStage::AwaitConfigUpdate, ExternalCheckEvent::ConfigUpdated(_)) => true,
        (ExternalCheckStage::AwaitAliasCheck, ExternalCheckEvent::SshRan(_)) => true,
        (ExternalCheckStage::AwaitKnownHostsRepair, ExternalCheckEvent::KnownHostsRepaired(_)) => true,
        (ExternalCheckStage::AwaitAliasRecheck, ExternalCheckEvent::SshRan(_)) => true,
        (ExternalCheckStage::AwaitRollback, ExternalCheckEvent::RolledBack(_)) => true,
        (ExternalCheckStage::AwaitCleanup, ExternalCheckEvent::CleanedUp(_)) => true,
        _ => false,
    }
}

/// The check, for `consumer`, that `username` at `ip` can be reached with a key by the
/// consumer's own OpenSSH client: the decisions between the outside steps.
#[derive(Debug)]
pub struct ExternalCheckFlow {
    pub ip: String,
    pub username: String,
    pub consumer: LaunchAuthConsumer,
    /// The system SSH configuration file that `ssh` reads.
    pub config_path: String,
    /// The time limit, in whole seconds.
    pub timeout_secs: u64,
    /// The key as prepared for the outside client.
    pub prepared_key: Option<String>,
    /// The error that the check will end with, once rollback and cleanup are done.
    pub primary: Option<SshError>,
    /// The error of the rollback, where it failed.
    pub rollback_error: Option<ConfigError>,
    pub stage: ExternalCheckStage,
}

/// The action runs `ssh` with `args`.
pub open spec fn runs_ssh(r: ExternalCheckAction, args: Seq<Seq<char>>) -> bool {
    r matches ExternalCheckAction::RunSsh { args: a } && texts(a@) == args
}

/// The check goes on to the rollback, and then the cleanup, to end with `primary`.
pub open spec fn winds_down(after: ExternalCheckFlow, r: ExternalCheckAction) -> bool {
    after.stage == ExternalCheckStage::AwaitRollback && r is Rollback && after.primary is Some
}

impl ExternalCheckFlow {
    /// The stages that come after the key was prepared have it, and those that wind down have
    /// their error.
    pub open spec fn well_formed(self) -> bool {
        &&& (self.stage != ExternalCheckStage::AwaitPreparedKey && self.stage
            != ExternalCheckStage::Done) ==> self.prepared_key is Some
        &&& (self.stage == ExternalCheckStage::AwaitRollback || self.stage
            == ExternalCheckStage::AwaitCleanup) ==> self.primary is Some
    }
}

impl ExternalCheckFlow {
    /// Whether `event` answers the work that the check waits for.
    pub fn accepts(&self, event: &ExternalCheckEvent) -> (r: bool)
        ensures
            r == check_event_fits(self.stage, *event),
    {
        match (self.stage, event) {
            (ExternalCheckStage::AwaitPreparedKey, ExternalCheckEvent::KeyPrepared(_)) => true,
            (ExternalCheckStage::AwaitExplicitKeyCheck, ExternalCheckEvent::SshRan(_)) => true,
            (ExternalCheckStage::AwaitConfigUpdate, ExternalCheckEvent::ConfigUpdated(_)) => true,
            (ExternalCheckStage::AwaitAliasCheck, ExternalCheckEvent::SshRan(_)) => true,
            (ExternalCheckStage::AwaitKnownHostsRepair, ExternalCheckEvent::KnownHostsRepaired(_)) => true,
            (ExternalCheckStage::AwaitAliasRecheck, ExternalCheckEvent::SshRan(_)) => true,
            (ExternalCheckStage::AwaitRollback, ExternalCheckEvent::RolledBack(_)) => true,
            (ExternalCheckStage::AwaitCleanup, ExternalCheckEvent::CleanedUp(_)) => true,
            _ => false,
        }
    }

    /// Starts the check of the key at `key_path`: it is prepared first.
    pub fn new(
        ip: &str,
        username: &str,
        consumer: LaunchAuthConsumer,
        key_path: &str,
        config_path: &str,
        timeout_secs: u64,
    ) -> (r: (ExternalCheckFlow, ExternalCheckAction))
        ensures
            r.0.ip@ == ip@,
            r.0.username@ == username@,
            r.0.consumer == consumer,
            r.0.config_path@ == config_path@,
            r.0.timeout_secs == timeout_secs,
            r.0.prepared_key is None,
            r.0.primary is None,
            r.0.rollback_error is None,
            r.0.stage == ExternalCheckStage::AwaitPreparedKey,
            r.0.well_formed(),
            r.1 matches ExternalCheckAction::PrepareKey { key_path: k } && k@ == key_path@,
    {
        (
            ExternalCheckFlow {
                ip: ip.to_owned(),
                username: username.to_owned(),
                consumer,
                config_path: config_path.to_owned(),
                timeout_secs,
                prepared_key: None,
                primary: None,
                rollback_error: None,
                stage: ExternalCheckStage::AwaitPreparedKey,
            },
            ExternalCheckAction::PrepareKey { key_path: key_path.to_owned() },
        )
    }

    fn prepared(&self) -> (r: String)
        requires
            self.prepared_key is Some,
        ensures
            Some(r@) == crate::credential::opt_view(self.prepared_key),
    {
        match &self.prepared_key {
            Some(k) => k.clone(),
            None => String::new(),
        }
    }

    fn alias_check(&self) -> (r: ExternalCheckAction)
        ensures
            runs_ssh(
                r,
                batch_mode_args(
                    self.config_path@,
                    host_alias_spec(self.ip@, self.username@),
                    self.timeout_secs,
                    true,
                ),
            ),
    {
        let alias = host_alias(self.ip.as_str(), self.username.as_str());
        ExternalCheckAction::RunSsh {
            args: local_openssh_batch_args(
                self.config_path.as_str(),
                alias.as_str(),
                self.timeout_secs,
                true,
            ),
        }
    }

    /// Takes the report of the work asked for last and decides what comes next.
    pub fn step(&mut self, event: ExternalCheckEvent) -> (r: ExternalCheckAction)
        requires
            check_event_fits(old(self).stage, event),
            old(self).well_formed(),
        ensures
            final(self).well_formed(),
            final(self).ip == old(self).ip,
            final(self).username == old(self).username,
            final(self).consumer == old(self).consumer,
            final(self).config_path == old(self).config_path,
            final(self).timeout_secs == old(self).timeout_secs,
            old(self).stage != ExternalCheckStage::AwaitPreparedKey ==> final(self).prepared_key
                == old(self).prepared_key,
            match event {
                ExternalCheckEvent::KeyPrepared(Err(e)) => final(self).stage
                    == ExternalCheckStage::Done && (r matches ExternalCheckAction::Finish(
                    Err(SshError::Connection(m)),
                ) && m@ == "修复本地 SSH 私钥权限失败："@ + compacted(e@, 120)),
                ExternalCheckEvent::KeyPrepared(Ok(p)) => crate::credential::opt_view(
                    final(self).prepared_key,
                ) == Some(p@) && if old(self).consumer == LaunchAuthConsumer::Mobaxterm {
                    final(self).stage == ExternalCheckStage::AwaitExplicitKeyCheck && runs_ssh(
                        r,
                        explicit_key_args(
                            old(self).ip@,
                            old(self).username@,
                            p@,
                            old(self).timeout_secs,
                            true,
                        ),
                    )
                } else {
                    final(self).stage == ExternalCheckStage::AwaitConfigUpdate
                        && (r matches ExternalCheckAction::UpdateConfig { alias, key_path } && alias@
                        == host_alias_spec(old(self).ip@, old(self).username@) && key_path@ == p@)
                },
                ExternalCheckEvent::SshRan(Ok(())) => final(self).stage == ExternalCheckStage::Done
                    && (r matches ExternalCheckAction::Finish(Ok(k)) && Some(k@)
                    == crate::credential::opt_view(old(self).prepared_key)),
                ExternalCheckEvent::SshRan(Err(e)) => if old(self).stage
                    == ExternalCheckStage::AwaitExplicitKeyCheck {
                    final(self).stage == ExternalCheckStage::AwaitCleanup && r is Cleanup
                        && final(self).rollback_error is None && (final(self).primary matches Some(
                        p,
                    ) && validation_maps_to(e, p))
                } else if old(self).stage == ExternalCheckStage::AwaitAliasCheck && (e matches LocalOpenSshValidationError::Failure(f)
                    && f.kind == LocalOpenSshFailureKind::HostKeyMismatch) {
                    final(self).stage == ExternalCheckStage::AwaitKnownHostsRepair && (r matches ExternalCheckAction::RepairKnownHosts { ip, alias }
                        && ip@ == old(self).ip@ && alias@ == host_alias_spec(
                        old(self).ip@,
                        old(self).username@,
                    ))
                } else {
                    winds_down(*final(self), r) && (final(self).primary matches Some(p)
                        && validation_maps_to(e, p))
                },
                ExternalCheckEvent::ConfigUpdated(Err(e)) => final(self).stage
                    == ExternalCheckStage::AwaitCleanup && r is Cleanup && final(self).rollback_error is None
                    && (final(self).primary matches Some(SshError::Connection(m)) && m@
                    == "更新 SSH alias 配置失败："@ + config_error_text(e)),
                ExternalCheckEvent::ConfigUpdated(Ok(())) => final(self).stage
                    == ExternalCheckStage::AwaitAliasCheck && runs_ssh(
                    r,
                    batch_mode_args(
                        old(self).config_path@,
                        host_alias_spec(old(self).ip@, old(self).username@),
                        old(self).timeout_secs,
                        true,
                    ),
                ),
                ExternalCheckEvent::KnownHostsRepaired(Err(e)) => winds_down(*final(self), r)
                    && (final(self).primary matches Some(SshError::Connection(m)) && m@
                    == "检测到 system known_hosts 主机指纹冲突，但修复冲突条目失败："@ + config_error_text(e)),
                ExternalCheckEvent::KnownHostsRepaired(Ok(())) => final(self).stage
                    == ExternalCheckStage::AwaitAliasRecheck && runs_ssh(
                    r,
                    batch_mode_args(
                        old(self).config_path@,
                        host_alias_spec(old(self).ip@, old(self).username@),
                        old(self).timeout_secs,
                        true,
                    ),
                ),
                ExternalCheckEvent::RolledBack(x) => final(self).stage
                    == ExternalCheckStage::AwaitCleanup && r is Cleanup && final(self).primary
                    == old(self).primary && final(self).rollback_error == x,
                ExternalCheckEvent::CleanedUp(c) => final(self).stage == ExternalCheckStage::Done
                    && (r matches ExternalCheckAction::Finish(Err(z)) && (old(self).primary matches Some(
                    p,
                ) && assembled(p, old(self).rollback_error, c, z))),
            },
    {
        match event {
            ExternalCheckEvent::KeyPrepared(Err(e)) => {
                self.stage = ExternalCheckStage::Done;
                let mut m = "修复本地 SSH 私钥权限失败：".to_owned();
                let c = compact_user_message(e.as_str(), 120);
                append_str(&mut m, c.as_str());
                ExternalCheckAction::Finish(Err(SshError::Connection(m)))
            },
            ExternalCheckEvent::KeyPrepared(Ok(p)) => {
                self.prepared_key = Some(p.clone());
                match self.consumer {
                    LaunchAuthConsumer::Mobaxterm => {
                        self.stage = ExternalCheckStage::AwaitExplicitKeyCheck;
                        ExternalCheckAction::RunSsh {
                            args: local_openssh_explicit_key_args(
                                self.ip.as_str(),
                                self.username.as_str(),
                                p.as_str(),
                                self.timeout_secs,
                                true,
                            ),
                        }
                    },
                    _ => {
                        self.stage = ExternalCheckStage::AwaitConfigUpdate;
                        let alias = host_alias(self.ip.as_str(), self.username.as_str());
                        ExternalCheckAction::UpdateConfig { alias, key_path: p }
                    },
                }
            },
            ExternalCheckEvent::SshRan(Ok(())) => {
                self.stage = ExternalCheckStage::Done;
                ExternalCheckAction::Finish(Ok(self.prepared()))
            },
            ExternalCheckEvent::SshRan(Err(e)) => {
                match self.stage {
                    ExternalCheckStage::AwaitExplicitKeyCheck => {
                        self.primary = Some(local_openssh_validation_to_ssh_error(e));
                        self.rollback_error = None;
                        self.stage = ExternalCheckStage::AwaitCleanup;
                        ExternalCheckAction::Cleanup
                    },
                    ExternalCheckStage::AwaitAliasCheck => {
                        let mismatch = match &e {
                            LocalOpenSshValidationError::Failure(f) => match f.kind {
                                LocalOpenSshFailureKind::HostKeyMismatch => true,
                                _ => false,
                            },
                            _ => false,
                        };
                        if mismatch {
                            self.stage = ExternalCheckStage::AwaitKnownHostsRepair;
                            let alias = host_alias(self.ip.as_str(), self.username.as_str());
                            ExternalCheckAction::RepairKnownHosts { ip: self.ip.clone(), alias }
                        } else {
                            self.primary = Some(local_openssh_validation_to_ssh_error(e));
                            self.stage = ExternalCheckStage::AwaitRollback;
                            ExternalCheckAction::Rollback
                        }
                    },
                    _ => {
                        self.primary = Some(local_openssh_validation_to_ssh_error(e));
                        self.stage = ExternalCheckStage::AwaitRollback;
                        ExternalCheckAction::Rollback
                    },
                }
            },
            ExternalCheckEvent::ConfigUpdated(Err(e)) => {
                let mut m = "更新 SSH alias 配置失败：".to_owned();
                let t = e.message();
                append_str(&mut m, t.as_str());
                self.primary = Some(SshError::Connection(m));
                self.rollback_error = None;
                self.stage = ExternalCheckStage::AwaitCleanup;
                ExternalCheckAction::Cleanup
            },
            ExternalCheckEvent::ConfigUpdated(Ok(())) => {
                self.stage = ExternalCheckStage::AwaitAliasCheck;
                self.alias_check()
            },
            ExternalCheckEvent::KnownHostsRepaired(Err(e)) => {
                let mut m = "检测到 system known_hosts 主机指纹冲突，但修复冲突条目失败：".to_owned();
                let t = e.message();
                append_str(&mut m, t.as_str());
                self.primary = Some(SshError::Connection(m));
                self.stage = ExternalCheckStage::AwaitRollback;
                ExternalCheckAction::Rollback
            },
            ExternalCheckEvent::KnownHostsRepaired(Ok(())) => {
                self.stage = ExternalCheckStage::AwaitAliasRecheck;
                self.alias_check()
            },
            ExternalCheckEvent::RolledBack(x) => {
                self.rollback_error = x;
                self.stage = ExternalCheckStage::AwaitCleanup;
                ExternalCheckAction::Cleanup
            },
            ExternalCheckEvent::CleanedUp(c) => {
                self.stage = ExternalCheckStage::Done;
                let primary = match self.primary.take() {
                    Some(p) => p,
                    None => SshError::Connection(String::new()),
                };
                let rollback = self.rollback_error.take();
                ExternalCheckAction::Finish(Err(assemble_external_validation_error(primary, rollback, c)))
            },
        }
    }
}

/// What running one candidate program gave: it ran and succeeded, it ran and failed with an
/// exit code and its output, it was not found, or it could not be run for another reason.
#[derive(Debug, Clone)]
pub enum CommandAttempt {
    Succeeded,
    Failed { code: Option<i32>, stderr: String, stdout: String },
    NotFound,
    IoError(String),
}

/// The index of the first attempt of a kind.
pub open spec fn first_of_kind(a: Seq<CommandAttempt>, kind: int) -> Option<int>
    decreases a.len(),
{
    if a.len() == 0 {
        None
    } else {
        match first_of_kind(a.drop_last(), kind) {
            Some(k) => Some(k),
            None => if attempt_kind(a.last()) == kind {
                Some(a.len() - 1)
            } else {
                None
            },
        }
    }
}

/// The kind of an attempt, as a number: success, failure, missing program, other error.
pub open spec fn attempt_kind(c: CommandAttempt) -> int {
    match c {
        CommandAttempt::Succeeded => 0,
        CommandAttempt::Failed { .. } => 1,
        CommandAttempt::NotFound => 2,
        CommandAttempt::IoError(_) => 3,
    }
}

fn kind_of(c: &CommandAttempt) -> (r: u8)
    ensures
        r as int == attempt_kind(*c),
{
    match c {
        CommandAttempt::Succeeded => 0,
        CommandAttempt::Failed { .. } => 1,
        CommandAttempt::NotFound => 2,
        CommandAttempt::IoError(_) => 3,
    }
}

/// The index of the first attempt of a kind.
pub fn find_first_of_kind(a: &Vec<CommandAttempt>, kind: u8) -> (r: Option<usize>)
    ensures
        match r {
            Some(k) => first_of_kind(a@, kind as int) == Some(k as int),
            None => first_of_kind(a@, kind as int) is None,
        },
{
    let mut i: usize = 0;
    while i < a.len()
        invariant
            i <= a@.len(),
            first_of_kind(a@.take(i as int), kind as int) is None,
        decreases a@.len() - i,
    {
        assert(a@.take(i + 1).drop_last() =~= a@.take(i as int));
        assert(a@.take(i + 1).last() == a@[i as int]);
        if kind_of(&a[i]) == kind {
            proof {
                lemma_first_of_kind_prefix(a@, kind as int, i + 1);
            }
            return Some(i);
        }
        i = i + 1;
    }
    assert(a@.take(a@.len() as int) =~= a@);
    None
}

proof fn lemma_first_of_kind_prefix(a: Seq<CommandAttempt>, kind: int, n: int)
    requires
        0 <= n <= a.len(),
    ensures
        first_of_kind(a.take(n), kind) matches Some(k) ==> first_of_kind(a, kind) == Some(k),
    decreases a.len() - n,
{
    if n < a.len() {
        lemma_first_of_kind_prefix(a, kind, n + 1);
        assert(a.take(n + 1).drop_last() =~= a.take(n));
    } else {
        assert(a.take(n) =~= a);
    }
}

/// What is said where no OpenSSH client could be run.
pub open spec fn openssh_not_found_text() -> Seq<char> {
    "本机未安装可用的 OpenSSH 客户端（ssh），已尝试 PATH 与 Windows 系统路径，无法验证 key-only 可用性"@
}

/// Which run of the local `ssh` candidates counts: the first that succeeded, else the first
/// that failed, by its index; else the first error other than a missing program; else the
/// message that no OpenSSH client is installed.
pub fn openssh_run_outcome(attempts: &Vec<CommandAttempt>) -> (r: Result<usize, SshError>)
    ensures
        match first_of_kind(attempts@, 0) {
            Some(k) => r == Ok::<usize, SshError>(k as usize),
            None => match first_of_kind(attempts@, 1) {
                Some(k) => r == Ok::<usize, SshError>(k as usize),
                None => match first_of_kind(attempts@, 3) {
                    Some(k) => attempts@[k] matches CommandAttempt::IoError(m) && (r matches Err(
                        SshError::Io(e),
                    ) && e@ == m@),
                    None => r matches Err(SshError::Unsupported(e)) && e@ == openssh_not_found_text(),
                },
            },
        },
{
    match find_first_of_kind(attempts, 0) {
        Some(k) => {
            return Ok(k);
        },
        None => {},
    }
    match find_first_of_kind(attempts, 1) {
        Some(k) => {
            return Ok(k);
        },
        None => {},
    }
    match find_first_of_kind(attempts, 3) {
        Some(k) => {
            proof {
                lemma_first_of_kind_valid(attempts@, 3);
            }
            match &attempts[k] {
                CommandAttempt::IoError(m) => Err(SshError::Io(m.clone())),
                _ => Err(SshError::Unsupported(String::new())),
            }
        },
        None => Err(
            SshError::Unsupported(
                "本机未安装可用的 OpenSSH 客户端（ssh），已尝试 PATH 与 Windows 系统路径，无法验证 key-only 可用性".to_owned(),
            ),
        ),
    }
}

/// The first attempt of a kind is in range and of that kind.
pub proof fn lemma_first_of_kind_valid(a: Seq<CommandAttempt>, kind: int)
    ensures
        first_of_kind(a, kind) matches Some(k) ==> 0 <= k < a.len() && attempt_kind(a[k]) == kind,
    decreases a.len(),
{
    if a.len() > 0 {
        lemma_first_of_kind_valid(a.drop_last(), kind);
    }
}

} // verus!
