//! Private keys: which files are tried, which belong to the application, and the commands that
//! create and install them.
use vstd::prelude::*;
use crate::store::{path_join, join_path, system_ssh_dir, StoreError};
use crate::strsort::{strs, sort_strs, sort_strings};
use crate::text::{
    append_str, contains, contains_str, ends_with, from_chars, lines, lines_chars, lower,
    lower_chars, replace_char, replace_char_exec, starts_with, str_eq, to_chars, trim, trim_string,
    views,
};
use crate::ssh_auth::{SshError, ssh_error_text};
use crate::ssh_config::{failure_message, int_text};

verus! {

/// The usual private key names, in the order SSH tries them.
pub open spec fn default_key_names() -> Seq<Seq<char>> {
    seq![
        "id_ed25519"@,
        "id_ecdsa"@,
        "id_ecdsa_sk"@,
        "id_ed25519_sk"@,
        "id_rsa"@,
        "identity"@,
        "id_dsa"@,
    ]
}

fn default_key_names_exec() -> (r: Vec<&'static str>)
    ensures
        r@.map_values(|s: &str| s@) == default_key_names(),
{
    let r: Vec<&'static str> = vec![
        "id_ed25519",
        "id_ecdsa",
        "id_ecdsa_sk",
        "id_ed25519_sk",
        "id_rsa",
        "identity",
        "id_dsa",
    ];
    assert(r@.map_values(|s: &str| s@) =~= default_key_names());
    r
}

/// Why a key could not be prepared.
#[derive(Debug)]
pub enum KeyError {
    Io(String),
    Store(StoreError),
    Ssh(SshError),
    Key(String),
}

/// The text of a key error.
pub open spec fn key_error_text(e: KeyError) -> Seq<char> {
    match e {
        KeyError::Io(m) => m@,
        KeyError::Store(StoreError::Io(m)) => m@,
        KeyError::Store(StoreError::Parse(m)) => m@,
        KeyError::Ssh(s) => ssh_error_text(s),
        KeyError::Key(m) => m@,
    }
}

impl KeyError {
    /// The text of the error.
    pub fn message(&self) -> (r: String)
        ensures
            r@ == key_error_text(*self),
    {
        match self {
            KeyError::Io(m) => m.clone(),
            KeyError::Store(e) => e.message(),
            KeyError::Ssh(e) => e.message(),
            KeyError::Key(m) => m.clone(),
        }
    }
}

/// A private key made ready for an outside client, and whether it is a temporary copy to
/// remove when that client fails.
#[derive(Debug, Clone, PartialEq, Eq)]
pub struct PreparedPrivateKeyForExternalUse {
    pub path: String,
    pub cleanup_on_failure: bool,
}

/// `cands` with each path of `more` added, in order, where it is not there yet.
pub open spec fn add_missing(cands: Seq<Seq<char>>, more: Seq<Seq<char>>) -> Seq<Seq<char>>
    decreases more.len(),
{
    if more.len() == 0 {
        cands
    } else {
        let c = add_missing(cands, more.drop_last());
        if c.contains(more.last()) {
            c
        } else {
            c.push(more.last())
        }
    }
}

/// The private key files to try in `ssh_dir`: the managed key, the earlier managed key, the
/// preserved earlier keys, then the usual names not listed yet.
pub open spec fn candidate_paths(ssh_dir: Seq<char>, preserved: Seq<Seq<char>>) -> Seq<Seq<char>> {
    add_missing(
        seq![path_join(ssh_dir, "lanscanner_id_rsa"@), path_join(ssh_dir, "lanscanner_id_ed25519"@)]
            + preserved,
        default_key_names().map_values(|n: Seq<char>| path_join(ssh_dir, n)),
    )
}

fn contains_string(list: &Vec<String>, s: &str) -> (r: bool)
    ensures
        r == strs(list@).contains(s@),
{
    crate::credential::contains_string(list, s)
}

/// The private key files to try in `ssh_dir`, given the preserved earlier keys found there.
pub fn build_candidate_private_key_paths(ssh_dir: &str, preserved: &Vec<String>) -> (r: Vec<String>)
    ensures
        strs(r@) == candidate_paths(ssh_dir@, strs(preserved@)),
{
    let mut candidates: Vec<String> = Vec::new();
    candidates.push(join_path(ssh_dir, "lanscanner_id_rsa"));
    candidates.push(join_path(ssh_dir, "lanscanner_id_ed25519"));
    let mut i: usize = 0;
    assert(strs(candidates@) =~= seq![
        path_join(ssh_dir@, "lanscanner_id_rsa"@),
        path_join(ssh_dir@, "lanscanner_id_ed25519"@),
    ] + strs(preserved@).take(0));
    while i < preserved.len()
        invariant
            i <= preserved@.len(),
            strs(candidates@) == seq![
                path_join(ssh_dir@, "lanscanner_id_rsa"@),
                path_join(ssh_dir@, "lanscanner_id_ed25519"@),
            ] + strs(preserved@).take(i as int),
        decreases preserved@.len() - i,
    {
        let ghost prev = strs(candidates@);
        candidates.push(preserved[i].clone());
        assert(strs(candidates@) =~= prev.push(preserved@[i as int]@));
        assert(strs(preserved@).take(i + 1) =~= strs(preserved@).take(i as int).push(
            preserved@[i as int]@,
        ));
        i = i + 1;
    }
    assert(strs(preserved@).take(preserved@.len() as int) =~= strs(preserved@));
    let ghost base = strs(candidates@);
    let names = default_key_names_exec();
    let ghost more = default_key_names().map_values(|n: Seq<char>| path_join(ssh_dir@, n));
    let mut j: usize = 0;
    assert(more.take(0) =~= Seq::<Seq<char>>::empty());
    while j < names.len()
        invariant
            j <= names@.len(),
            names@.map_values(|s: &str| s@) == default_key_names(),
            more == default_key_names().map_values(|n: Seq<char>| path_join(ssh_dir@, n)),
            strs(candidates@) == add_missing(base, more.take(j as int)),
        decreases names@.len() - j,
    {
        let path = join_path(ssh_dir, names[j]);
        proof {
            assert(names@.map_values(|s: &str| s@)[j as int] == names@[j as int]@);
            assert(more.take(j + 1).drop_last() =~= more.take(j as int));
            assert(more.take(j + 1).last() == path@);
        }
        if !contains_string(&candidates, path.as_str()) {
            let ghost prev = strs(candidates@);
            candidates.push(path);
            assert(strs(candidates@) =~= prev.push(more[j as int]));
        }
        j = j + 1;
    }
    assert(more.take(names@.len() as int) =~= more);
    candidates
}

/// The private key files to try under the home directory `home`.
pub fn candidate_private_key_paths(home: &str, preserved: &Vec<String>) -> (r: Vec<String>)
    ensures
        strs(r@) == candidate_paths(path_join(home@, ".ssh"@), strs(preserved@)),
{
    let dir = system_ssh_dir(home);
    build_candidate_private_key_paths(dir.as_str(), preserved)
}

/// The managed private key under the home directory `home`.
pub fn managed_private_key_path(home: &str) -> (r: String)
    ensures
        r@ == path_join(path_join(home@, ".ssh"@), "lanscanner_id_rsa"@),
{
    let dir = system_ssh_dir(home);
    join_path(dir.as_str(), "lanscanner_id_rsa")
}

/// The text after the last `/` of a path.
pub open spec fn last_segment(p: Seq<char>) -> Seq<char>
    decreases p.len(),
{
    if p.len() == 0 {
        p
    } else if p.last() == '/' {
        Seq::empty()
    } else {
        last_segment(p.drop_last()).push(p.last())
    }
}

/// The file name of a path: its last segment, where that is neither empty nor `..`.
pub open spec fn file_name(p: Seq<char>) -> Option<Seq<char>> {
    let s = last_segment(p);
    if s.len() == 0 || s == ".."@ {
        None
    } else {
        Some(s)
    }
}

/// The file name of a path.
pub fn file_name_of(path: &str) -> (r: Option<String>)
    ensures
        crate::credential::opt_view(r) == file_name(path@),
{
    let v = to_chars(path);
    let mut seg: Vec<char> = Vec::new();
    let mut i: usize = 0;
    while i < v.len()
        invariant
            i <= v@.len(),
            seg@ == last_segment(v@.take(i as int)),
        decreases v@.len() - i,
    {
        proof {
            assert(v@.take(i + 1).drop_last() =~= v@.take(i as int));
        }
        if v[i] == '/' {
            seg = Vec::new();
            assert(seg@ =~= Seq::<char>::empty());
        } else {
            seg.push(v[i]);
        }
        i = i + 1;
    }
    assert(v@.take(v@.len() as int) =~= v@);
    if seg.len() == 0 || crate::text::chars_eq_str(&seg, "..") {
        None
    } else {
        Some(from_chars(&seg))
    }
}

/// A key the application created: the managed key, the earlier managed key, or a preserved
/// earlier key.
pub open spec fn app_managed(path: Seq<char>) -> bool {
    match file_name(path) {
        Some(n) => n == "lanscanner_id_rsa"@ || n == "lanscanner_id_ed25519"@ || starts_with(
            n,
            "lanscanner_id_ed25519_legacy"@,
        ),
        None => false,
    }
}

/// Whether the key at `path` is one the application created.
pub fn is_app_managed_key(path: &str) -> (r: bool)
    ensures
        r == app_managed(path@),
{
    match file_name_of(path) {
        Some(n) => {
            let v = to_chars(n.as_str());
            let p = to_chars("lanscanner_id_ed25519_legacy");
            str_eq(n.as_str(), "lanscanner_id_rsa") || str_eq(
                n.as_str(),
                "lanscanner_id_ed25519",
            ) || crate::text::starts_with_chars(&v, &p)
        },
        None => false,
    }
}

/// The name of a preserved earlier private key: the preserve prefix, and not a public key.
pub open spec fn is_preserved_name(n: Seq<char>) -> bool {
    starts_with(n, "lanscanner_id_ed25519_legacy"@) && !ends_with(n, ".pub"@)
}

/// The names of preserved earlier private keys among `names`, in order.
pub open spec fn preserved_names(names: Seq<Seq<char>>) -> Seq<Seq<char>>
    decreases names.len(),
{
    if names.len() == 0 {
        names
    } else if is_preserved_name(names.last()) {
        preserved_names(names.drop_last()).push(names.last())
    } else {
        preserved_names(names.drop_last())
    }
}

/// The preserved earlier keys among the file names of `ssh_dir`, as paths, sorted.
pub open spec fn preserved_paths(ssh_dir: Seq<char>, names: Seq<Seq<char>>) -> Seq<Seq<char>> {
    sort_strs(preserved_names(names).map_values(|n: Seq<char>| path_join(ssh_dir, n)))
}

/// The preserved earlier keys in `ssh_dir`, given the names of the regular files there.
pub fn preserved_legacy_managed_key_paths(ssh_dir: &str, file_names: &Vec<String>) -> (r: Vec<
    String,
>)
    ensures
        strs(r@) == preserved_paths(ssh_dir@, strs(file_names@)),
{
    let ghost ns = strs(file_names@);
    let mut paths: Vec<String> = Vec::new();
    let mut i: usize = 0;
    assert(preserved_names(ns.take(0)).map_values(|n: Seq<char>| path_join(ssh_dir@, n))
        =~= Seq::<Seq<char>>::empty());
    while i < file_names.len()
        invariant
            i <= file_names@.len(),
            ns == strs(file_names@),
            strs(paths@) == preserved_names(ns.take(i as int)).map_values(
                |n: Seq<char>| path_join(ssh_dir@, n),
            ),
        decreases file_names@.len() - i,
    {
        let ghost prev = strs(paths@);
        let n = to_chars(file_names[i].as_str());
        let p = to_chars("lanscanner_id_ed25519_legacy");
        let pubx = to_chars(".pub");
        proof {
            assert(ns.take(i + 1).drop_last() =~= ns.take(i as int));
            assert(ns.take(i + 1).last() == ns[i as int]);
        }
        if crate::text::starts_with_chars(&n, &p) && !crate::text::ends_with_chars(&n, &pubx) {
            let j = join_path(ssh_dir, file_names[i].as_str());
            paths.push(j);
            assert(strs(paths@) =~= prev.push(path_join(ssh_dir@, ns[i as int])));
            assert(preserved_names(ns.take(i + 1)).map_values(|n: Seq<char>| path_join(ssh_dir@, n))
                =~= preserved_names(ns.take(i as int)).map_values(
                |n: Seq<char>| path_join(ssh_dir@, n),
            ).push(path_join(ssh_dir@, ns[i as int])));
        }
        i = i + 1;
    }
    assert(ns.take(file_names@.len() as int) =~= ns);
    sort_strings(&mut paths);
    paths
}

/// The kinds of key pair the application creates.
#[derive(Debug, Clone, Copy, PartialEq, Eq)]
pub enum KeyAlgorithm {
    Rsa,
    Ed25519,
}

/// RSA for a file whose name holds `rsa` in any case, else Ed25519.
pub open spec fn algorithm_for(path: Seq<char>) -> KeyAlgorithm {
    match file_name(path) {
        Some(n) => if contains(lower(n), "rsa"@) {
            KeyAlgorithm::Rsa
        } else {
            KeyAlgorithm::Ed25519
        },
        None => KeyAlgorithm::Ed25519,
    }
}

/// The kind of key pair to create at `path`.
pub fn key_algorithm_for_path(path: &str) -> (r: KeyAlgorithm)
    ensures
        r == algorithm_for(path@),
{
    match file_name_of(path) {
        Some(n) => {
            let v = to_chars(n.as_str());
            let l = lower_chars(&v);
            if contains_str(&l, "rsa") {
                KeyAlgorithm::Rsa
            } else {
                KeyAlgorithm::Ed25519
            }
        },
        None => KeyAlgorithm::Ed25519,
    }
}

/// The arguments of `ssh-keygen` that create a key pair at `path` without a passphrase: RSA
/// keys get 4096 bits.
pub open spec fn keygen_args(path: Seq<char>) -> Seq<Seq<char>> {
    let base = seq![
        "-t"@,
        if algorithm_for(path) == KeyAlgorithm::Rsa {
            "rsa"@
        } else {
            "ed25519"@
        },
        "-N"@,
        ""@,
        "-q"@,
        "-f"@,
        path,
    ];
    if algorithm_for(path) == KeyAlgorithm::Rsa {
        base + seq!["-b"@, "4096"@]
    } else {
        base
    }
}

/// The arguments of `ssh-keygen` that create a key pair at `path`.
pub fn ssh_keygen_args(path: &str) -> (r: Vec<String>)
    ensures
        strs(r@) == keygen_args(path@),
{
    let alg = key_algorithm_for_path(path);
    let mut args: Vec<String> = Vec::new();
    args.push("-t".to_owned());
    match alg {
        KeyAlgorithm::Rsa => args.push("rsa".to_owned()),
        KeyAlgorithm::Ed25519 => args.push("ed25519".to_owned()),
    }
    args.push("-N".to_owned());
    args.push("".to_owned());
    args.push("-q".to_owned());
    args.push("-f".to_owned());
    args.push(path.to_owned());
    match alg {
        KeyAlgorithm::Rsa => {
            args.push("-b".to_owned());
            args.push("4096".to_owned());
        },
        KeyAlgorithm::Ed25519 => {},
    }
    assert(strs(args@) =~= keygen_args(path@));
    args
}

/// The detail of a failed command, with each line break made a space.
pub open spec fn key_failure_reason(code: Option<i32>, stderr: Seq<char>, stdout: Seq<char>) -> Seq<
    char,
> {
    if trim(stderr).len() > 0 {
        replace_char(trim(stderr), '\n', " "@)
    } else if trim(stdout).len() > 0 {
        replace_char(trim(stdout), '\n', " "@)
    } else {
        failure_message(code, stderr, stdout)
    }
}

/// The detail of a failed key command.
pub fn command_failure_reason(code: Option<i32>, stderr: &str, stdout: &str) -> (r: String)
    ensures
        r@ == key_failure_reason(code, stderr@, stdout@),
{
    let e = trim_string(stderr);
    let o = trim_string(stdout);
    let sp = to_chars(" ");
    if e.unicode_len() > 0 {
        let v = to_chars(e.as_str());
        let w = replace_char_exec(&v, '\n', &sp);
        return from_chars(&w);
    }
    if o.unicode_len() > 0 {
        let v = to_chars(o.as_str());
        let w = replace_char_exec(&v, '\n', &sp);
        return from_chars(&w);
    }
    crate::ssh_config::command_failure_message(code, stderr, stdout)
}

/// The error for a failed `ssh-keygen` run at `path`.
pub fn keygen_failure_error(path: &str, reason: &str) -> (r: KeyError)
    ensures
        r matches KeyError::Key(m) && m@ == "ssh-keygen 生成密钥失败（"@ + path@ + "）："@ + reason@,
{
    let mut m = "ssh-keygen 生成密钥失败（".to_owned();
    append_str(&mut m, path);
    append_str(&mut m, "）：");
    append_str(&mut m, reason);
    KeyError::Key(m)
}

/// `value` quoted for a POSIX shell: in single quotes, each single quote written as `'"'"'`.
pub open spec fn shell_quoted(value: Seq<char>) -> Seq<char> {
    seq!['\''] + replace_char(value, '\'', "'\"'\"'"@) + seq!['\'']
}

/// `value` quoted for a POSIX shell.
pub fn shell_quote(value: &str) -> (r: String)
    ensures
        r@ == shell_quoted(value@),
{
    let v = to_chars(value);
    let q = to_chars("'\"'\"'");
    let w = replace_char_exec(&v, '\'', &q);
    let mut out: Vec<char> = Vec::new();
    out.push('\'');
    crate::text::push_chars(&mut out, &w);
    out.push('\'');
    assert(out@ =~= shell_quoted(value@));
    from_chars(&out)
}

/// The remote command that adds `public_key` to `authorized_keys` unless it is there already.
pub open spec fn install_command(public_key: Seq<char>) -> Seq<char> {
    let q = shell_quoted(public_key);
    "mkdir -p \"$HOME/.ssh\" && chmod 700 \"$HOME/.ssh\" && touch \"$HOME/.ssh/authorized_keys\" && chmod 600 \"$HOME/.ssh/authorized_keys\" && (grep -qxF "@
        + q + " \"$HOME/.ssh/authorized_keys\" || printf '%s\\n' "@ + q
        + " >> \"$HOME/.ssh/authorized_keys\")"@
}

/// The remote command that installs `public_key`.
pub fn install_public_key_command(public_key: &str) -> (r: String)
    ensures
        r@ == install_command(public_key@),
{
    let q = shell_quote(public_key);
    let mut c = "mkdir -p \"$HOME/.ssh\" && chmod 700 \"$HOME/.ssh\" && touch \"$HOME/.ssh/authorized_keys\" && chmod 600 \"$HOME/.ssh/authorized_keys\" && (grep -qxF ".to_owned();
    append_str(&mut c, q.as_str());
    append_str(&mut c, " \"$HOME/.ssh/authorized_keys\" || printf '%s\\n' ");
    append_str(&mut c, q.as_str());
    append_str(&mut c, " >> \"$HOME/.ssh/authorized_keys\")");
    c
}

/// The public key in the text of a `.pub` file: the trimmed text, which must not be empty.
pub fn public_key_from_file(content: &str) -> (r: Result<String, KeyError>)
    ensures
        trim(content@).len() > 0 ==> (r matches Ok(k) && k@ == trim(content@)),
        trim(content@).len() == 0 ==> (r matches Err(KeyError::Key(m)) && m@
            == "SSH public key file is empty"@),
{
    let t = trim_string(content);
    if t.unicode_len() == 0 {
        return Err(KeyError::Key("SSH public key file is empty".to_owned()));
    }
    Ok(t)
}

/// The error for a failed install on the remote host: the last line of its error output, where
/// that is not blank, else a fixed message.
pub open spec fn install_failure(stderr: Seq<char>) -> Seq<char> {
    let ls = lines(stderr);
    if ls.len() > 0 && trim(ls.last()).len() > 0 {
        ls.last()
    } else {
        "unable to install public key on remote host"@
    }
}

/// The outcome of the install command, from its exit status and error output.
pub fn install_result(exit_status: i32, stderr: &str) -> (r: Result<(), KeyError>)
    ensures
        exit_status == 0 ==> r is Ok,
        exit_status != 0 ==> (r matches Err(KeyError::Key(m)) && m@ == install_failure(stderr@)),
{
    if exit_status == 0 {
        return Ok(());
    }
    let v = to_chars(stderr);
    let ls = lines_chars(&v);
    if ls.len() > 0 {
        let last = &ls[ls.len() - 1];
        assert(views(ls@).last() == last@);
        let t = crate::text::trim_chars(last);
        if t.len() > 0 {
            return Err(KeyError::Key(from_chars(last)));
        }
    }
    Err(KeyError::Key("unable to install public key on remote host".to_owned()))
}

/// How a key is made ready for an outside client where no temporary copy is needed (see
/// `needs_temporary_key_copy`): the path stays, and no copy is made to remove later.
pub fn prepare_private_key_for_external_use(path: &str) -> (r: PreparedPrivateKeyForExternalUse)
    ensures
        r.path@ == path@,
        !r.cleanup_on_failure,
{
    PreparedPrivateKeyForExternalUse { path: path.to_owned(), cleanup_on_failure: false }
}

/// Whether cleaning up after a failed client removes anything: only a temporary copy does.
pub fn cleanup_prepared_private_key(path: &str, cleanup_on_failure: bool) -> (r: bool)
    ensures
        r == cleanup_on_failure,
{
    cleanup_on_failure
}

/// The result of generating a key pair at `path` with the `ssh-keygen` candidates, from their
/// runs in order: success where one succeeded and left the key file; else the first failure
/// with its detail; else the first error other than a missing program; else the message that
/// no `ssh-keygen` could be run.
pub fn keygen_outcome(path: &str, attempts: &Vec<crate::external_check::CommandAttempt>) -> (r:
    Result<(), KeyError>)
    ensures
        match crate::external_check::first_of_kind(attempts@, 0) {
            Some(_) => r is Ok,
            None => match crate::external_check::first_of_kind(attempts@, 1) {
                Some(k) => attempts@[k] matches crate::external_check::CommandAttempt::Failed {
                    code,
                    stderr,
                    stdout,
                } && (r matches Err(KeyError::Key(m)) && m@ == "ssh-keygen 生成密钥失败（"@ + path@
                    + "）："@ + key_failure_reason(code, stderr@, stdout@)),
                None => match crate::external_check::first_of_kind(attempts@, 3) {
                    Some(k) => attempts@[k] matches crate::external_check::CommandAttempt::IoError(
                        e,
                    ) && (r matches Err(KeyError::Io(m)) && m@ == e@),
                    None => r matches Err(KeyError::Key(m)) && m@
                        == "ssh-keygen 不可用（已尝试 PATH 与 Windows OpenSSH 系统路径）"@,
                },
            },
        },
{
    match crate::external_check::find_first_of_kind(attempts, 0) {
        Some(_) => {
            return Ok(());
        },
        None => {},
    }
    proof {
        crate::external_check::lemma_first_of_kind_valid(attempts@, 1);
        crate::external_check::lemma_first_of_kind_valid(attempts@, 3);
    }
    match crate::external_check::find_first_of_kind(attempts, 1) {
        Some(k) => {
            return match &attempts[k] {
                crate::external_check::CommandAttempt::Failed { code, stderr, stdout } => {
                    let reason = command_failure_reason(*code, stderr.as_str(), stdout.as_str());
                    Err(keygen_failure_error(path, reason.as_str()))
                },
                _ => Ok(()),
            };
        },
        None => {},
    }
    match crate::external_check::find_first_of_kind(attempts, 3) {
        Some(k) => match &attempts[k] {
            crate::external_check::CommandAttempt::IoError(e) => Err(KeyError::Io(e.clone())),
            _ => Ok(()),
        },
        None => Err(KeyError::Key("ssh-keygen 不可用（已尝试 PATH 与 Windows OpenSSH 系统路径）".to_owned())),
    }
}

/// The name under which an earlier managed key of another algorithm is kept, by number.
pub open spec fn legacy_preserve_candidate(index: nat) -> Seq<char> {
    "lanscanner_id_ed25519_legacy_"@ + crate::text::dec(index)
}

/// Neither `name` nor its `.pub` file is among the names `taken`.
pub open spec fn name_free(taken: Seq<Seq<char>>, name: Seq<char>) -> bool {
    !taken.contains(name) && !taken.contains(name + ".pub"@)
}

/// The first number from `from` up to 1024 whose preserve name is free.
pub open spec fn first_free_index(taken: Seq<Seq<char>>, from: nat) -> Option<nat>
    decreases 1025 - from,
{
    if from > 1024 {
        None
    } else if name_free(taken, legacy_preserve_candidate(from)) {
        Some(from)
    } else {
        first_free_index(taken, from + 1)
    }
}

/// The name to keep an earlier managed key under: the old key name where it is free, else
/// the first free numbered name; none where all are taken.
pub open spec fn legacy_preserve_name(taken: Seq<Seq<char>>) -> Option<Seq<char>> {
    if name_free(taken, "lanscanner_id_ed25519"@) {
        Some("lanscanner_id_ed25519"@)
    } else {
        match first_free_index(taken, 1) {
            Some(i) => Some(legacy_preserve_candidate(i)),
            None => None,
        }
    }
}

fn is_name_free(taken: &Vec<String>, name: &str) -> (r: bool)
    ensures
        r == name_free(strs(taken@), name@),
{
    let mut with_pub = name.to_owned();
    append_str(&mut with_pub, ".pub");
    !crate::credential::contains_string(taken, name) && !crate::credential::contains_string(
        taken,
        with_pub.as_str(),
    )
}

/// Where in `ssh_dir` an earlier managed key of another algorithm is kept, given the names
/// `taken` of the entries already there.
pub fn legacy_preserve_path(ssh_dir: &str, taken: &Vec<String>) -> (r: Result<String, KeyError>)
    ensures
        match legacy_preserve_name(strs(taken@)) {
            Some(n) => r matches Ok(p) && p@ == path_join(ssh_dir@, n),
            None => r matches Err(KeyError::Key(m)) && m@
                == "unable to reserve a safe path for legacy non-RSA managed key migration"@,
        },
{
    let ghost t = strs(taken@);
    if is_name_free(taken, "lanscanner_id_ed25519") {
        return Ok(join_path(ssh_dir, "lanscanner_id_ed25519"));
    }
    let mut index: u64 = 1;
    while index <= 1024
        invariant
            1 <= index <= 1025,
            t == strs(taken@),
            first_free_index(t, 1) == first_free_index(t, index as nat),
            !name_free(t, "lanscanner_id_ed25519"@),
        decreases 1025 - index,
    {
        let mut name = "lanscanner_id_ed25519_legacy_".to_owned();
        let d = crate::text::dec_chars(index);
        let ds = from_chars(&d);
        append_str(&mut name, ds.as_str());
        assert(name@ == legacy_preserve_candidate(index as nat));
        if is_name_free(taken, name.as_str()) {
            assert(first_free_index(t, index as nat) == Some(index as nat));
            return Ok(join_path(ssh_dir, name.as_str()));
        }
        index = index + 1;
    }
    Err(KeyError::Key("unable to reserve a safe path for legacy non-RSA managed key migration".to_owned()))
}

/// Whether a key is copied to a temporary file before an outside client uses it: on Windows,
/// every key that the application did not create, so that its permissions can be tightened on
/// the copy; elsewhere none.
pub fn needs_temporary_key_copy(platform: crate::platform::Platform, path: &str) -> (r: bool)
    ensures
        r == (platform == crate::platform::Platform::Windows && !app_managed(path@)),
{
    match platform {
        crate::platform::Platform::Windows => !is_app_managed_key(path),
        _ => false,
    }
}

/// The last `n` hexadecimal digits of `d`, in lowercase, most significant first.
pub open spec fn hex_digits(d: u64, n: nat) -> Seq<char>
    decreases n,
{
    if n == 0 {
        Seq::empty()
    } else {
        hex_digits(d / 16, (n - 1) as nat).push(crate::config_file::hex_char((d % 16) as u32))
    }
}

fn push_hex_digits(out: &mut Vec<char>, d: u64, n: u8)
    ensures
        final(out)@ == old(out)@ + hex_digits(d, n as nat),
    decreases n,
{
    if n > 0 {
        push_hex_digits(out, d / 16, n - 1);
        out.push(crate::config_file::hex_char_exec((d % 16) as u32));
    } else {
        assert(old(out)@ + hex_digits(d, 0) =~= old(out)@);
    }
}

/// A character kept in the name of a temporary key copy: ASCII letters, digits, `.`, `-`
/// and `_` stay, anything else becomes `-`.
pub open spec fn safe_key_char(c: char) -> char {
    if crate::text::is_ascii_alnum(c) || c == '.' || c == '-' || c == '_' {
        c
    } else {
        '-'
    }
}

/// The file name of the temporary copy of a key whose file is called `source_name` (where it
/// has a name in UTF-8), from the 64-bit digest of the key's location.
pub open spec fn temporary_key_name(digest: u64, source_name: Option<Seq<char>>) -> Seq<char> {
    let name = match source_name {
        Some(n) => n,
        None => "id_key"@,
    };
    "lanscanner_external_"@ + hex_digits(digest, 16) + "_"@ + name.map_values(|c: char| safe_key_char(c))
}

/// The file name of the temporary copy of a key: the digest in 16 hexadecimal digits and the
/// key's own file name with unusual characters replaced.
pub fn temporary_key_file_name(digest: u64, source_name: Option<&str>) -> (r: String)
    ensures
        r@ == temporary_key_name(
            digest,
            match source_name {
                Some(n) => Some(n@),
                None => None,
            },
        ),
{
    let name = match source_name {
        Some(n) => to_chars(n),
        None => to_chars("id_key"),
    };
    let mut out: Vec<char> = to_chars("lanscanner_external_");
    push_hex_digits(&mut out, digest, 16);
    out.push('_');
    let ghost head = out@;
    let mut i: usize = 0;
    while i < name.len()
        invariant
            i <= name@.len(),
            out@ == head + name@.take(i as int).map_values(|c: char| safe_key_char(c)),
        decreases name@.len() - i,
    {
        let c = name[i];
        let kept = if crate::text::is_ascii_alnum_exec(c) || c == '.' || c == '-' || c == '_' {
            c
        } else {
            '-'
        };
        out.push(kept);
        i = i + 1;
        assert(name@.take(i as int) =~= name@.take(i - 1).push(c));
        assert(out@ =~= head + name@.take(i as int).map_values(|c: char| safe_key_char(c)));
    }
    assert(name@.take(name@.len() as int) =~= name@);
    proof {
        reveal_strlit("_");
    }
    from_chars(&out)
}

} // verus!
