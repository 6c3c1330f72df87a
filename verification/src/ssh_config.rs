//! Host blocks of the user's SSH client configuration and entries of `known_hosts`.
use vstd::prelude::*;
use crate::text::{
    append_str, dec, dec_chars, ends_with, ends_with_chars, from_chars, is_ascii_alnum,
    is_ascii_alnum_exec, join, join_chars, lines, lines_chars, push_chars, replace_char,
    replace_char_exec, split_on, split_on_chars, starts_with, starts_with_chars, str_eq, to_chars,
    trim, trim_chars, trim_start, trim_start_chars, trim_string, views, words, words_chars,
    chars_eq,
};

verus! {

/// Why the SSH client files could not be updated.
#[derive(Debug)]
pub enum ConfigError {
    Io(String),
    Store(crate::store::StoreError),
    Command(String),
}

/// The text of a configuration error.
pub open spec fn config_error_text(e: ConfigError) -> Seq<char> {
    match e {
        ConfigError::Io(m) => m@,
        ConfigError::Store(crate::store::StoreError::Io(m)) => m@,
        ConfigError::Store(crate::store::StoreError::Parse(m)) => m@,
        ConfigError::Command(m) => m@,
    }
}

impl ConfigError {
    /// The text of the error.
    pub fn message(&self) -> (r: String)
        ensures
            r@ == config_error_text(*self),
    {
        match self {
            ConfigError::Io(m) => m.clone(),
            ConfigError::Store(e) => e.message(),
            ConfigError::Command(m) => m.clone(),
        }
    }
}

/// How a character of a user name appears in a host alias.
pub open spec fn alias_char(c: char) -> char {
    if is_ascii_alnum(c) || c == '-' || c == '_' {
        c
    } else {
        '-'
    }
}

/// The user name with every character other than ASCII letters, digits, `-` and `_` made `-`.
pub open spec fn alias_user(user: Seq<char>) -> Seq<char> {
    user.map_values(|c: char| alias_char(c))
}

/// The address with every `.` made `-`.
pub open spec fn alias_ip(ip: Seq<char>) -> Seq<char> {
    ip.map_values(
        |c: char|
            if c == '.' {
                '-'
            } else {
                c
            },
    )
}

/// The host alias for `user` at `ip`.
pub open spec fn host_alias_spec(ip: Seq<char>, user: Seq<char>) -> Seq<char> {
    alias_user(user) + seq!['-'] + alias_ip(ip)
}

/// The host alias under which the SSH configuration names `user` at `ip`.
pub fn host_alias(ip: &str, user: &str) -> (r: String)
    ensures
        r@ == host_alias_spec(ip@, user@),
{
    let u = to_chars(user);
    let a = to_chars(ip);
    let mut out: Vec<char> = Vec::new();
    let mut i: usize = 0;
    while i < u.len()
        invariant
            i <= u@.len(),
            out@ == alias_user(u@.take(i as int)),
        decreases u@.len() - i,
    {
        let c = u[i];
        if is_ascii_alnum_exec(c) || c == '-' || c == '_' {
            out.push(c);
        } else {
            out.push('-');
        }
        assert(out@ =~= alias_user(u@.take(i + 1)));
        i = i + 1;
    }
    assert(u@.take(u@.len() as int) =~= u@);
    out.push('-');
    let ghost head = out@;
    let mut j: usize = 0;
    while j < a.len()
        invariant
            j <= a@.len(),
            out@ == head + alias_ip(a@.take(j as int)),
        decreases a@.len() - j,
    {
        if a[j] == '.' {
            out.push('-');
        } else {
            out.push(a[j]);
        }
        assert(out@ =~= head + alias_ip(a@.take(j + 1)));
        j = j + 1;
    }
    assert(a@.take(a@.len() as int) =~= a@);
    from_chars(&out)
}

/// A path as the SSH configuration writes it: with `/` for every `\`.
pub fn ssh_path(path: &str) -> (r: String)
    ensures
        r@ == replace_char(path@, '\\', "/"@),
{
    let v = to_chars(path);
    let slash = to_chars("/");
    let r = replace_char_exec(&v, '\\', &slash);
    from_chars(&r)
}

/// The first lines of every host block.
pub open spec fn host_header(host: Seq<char>, ip: Seq<char>, user: Seq<char>) -> Seq<char> {
    "Host "@ + host + "\n  HostName "@ + ip + "\n  Port 22\n  User "@ + user + "\n"@
}

/// The options that make SSH use the managed key.
pub open spec fn managed_key_options(key_path: Seq<char>) -> Seq<char> {
    "  IdentityFile "@ + replace_char(key_path, '\\', "/"@) + "\n"@ + "  IdentitiesOnly yes\n"@
        + "  PreferredAuthentications publickey,password\n"@ + "  PubkeyAuthentication yes\n"@
        + "  HostKeyAlgorithms +ssh-rsa\n"@ + "  PubkeyAcceptedAlgorithms +ssh-rsa\n"@
        + "  PubkeyAcceptedKeyTypes +ssh-rsa\n"@
}

/// The host block for key authentication: the key options only where `host` is the alias of
/// `user` at `ip`.
pub open spec fn managed_key_block(
    host: Seq<char>,
    ip: Seq<char>,
    user: Seq<char>,
    key_path: Seq<char>,
) -> Seq<char> {
    host_header(host, ip, user) + if host == host_alias_spec(ip, user) {
        managed_key_options(key_path)
    } else {
        Seq::empty()
    }
}

/// The host block for password authentication.
pub open spec fn password_fallback_block(host: Seq<char>, ip: Seq<char>, user: Seq<char>) -> Seq<
    char,
> {
    host_header(host, ip, user) + "  PreferredAuthentications password,publickey\n"@
        + "  PubkeyAuthentication yes\n"@ + "  HostKeyAlgorithms +ssh-rsa\n"@
        + "  PubkeyAcceptedAlgorithms +ssh-rsa\n"@ + "  PubkeyAcceptedKeyTypes +ssh-rsa\n"@
}

fn host_header_exec(host: &str, ip: &str, user: &str) -> (r: String)
    ensures
        r@ == host_header(host@, ip@, user@),
{
    let mut b = "Host ".to_owned();
    append_str(&mut b, host);
    append_str(&mut b, "\n  HostName ");
    append_str(&mut b, ip);
    append_str(&mut b, "\n  Port 22\n  User ");
    append_str(&mut b, user);
    append_str(&mut b, "\n");
    b
}

/// The host block that makes SSH log in with the key at `key_path`.
pub fn build_managed_key_host_block(host: &str, ip: &str, user: &str, key_path: &str) -> (r:
    String)
    ensures
        r@ == managed_key_block(host@, ip@, user@, key_path@),
{
    let mut block = host_header_exec(host, ip, user);
    let ghost head = block@;
    let alias = host_alias(ip, user);
    if str_eq(host, alias.as_str()) {
        append_str(&mut block, "  IdentityFile ");
        let p = ssh_path(key_path);
        append_str(&mut block, p.as_str());
        append_str(&mut block, "\n");
        append_str(&mut block, "  IdentitiesOnly yes\n");
        append_str(&mut block, "  PreferredAuthentications publickey,password\n");
        append_str(&mut block, "  PubkeyAuthentication yes\n");
        append_str(&mut block, "  HostKeyAlgorithms +ssh-rsa\n");
        append_str(&mut block, "  PubkeyAcceptedAlgorithms +ssh-rsa\n");
        append_str(&mut block, "  PubkeyAcceptedKeyTypes +ssh-rsa\n");
        assert(block@ =~= head + managed_key_options(key_path@));
    } else {
        assert(block@ =~= head + Seq::<char>::empty());
    }
    block
}

/// The host block that makes SSH offer a password first.
pub fn build_password_fallback_host_block(host: &str, ip: &str, user: &str) -> (r: String)
    ensures
        r@ == password_fallback_block(host@, ip@, user@),
{
    let mut block = host_header_exec(host, ip, user);
    append_str(&mut block, "  PreferredAuthentications password,publickey\n");
    append_str(&mut block, "  PubkeyAuthentication yes\n");
    append_str(&mut block, "  HostKeyAlgorithms +ssh-rsa\n");
    append_str(&mut block, "  PubkeyAcceptedAlgorithms +ssh-rsa\n");
    append_str(&mut block, "  PubkeyAcceptedKeyTypes +ssh-rsa\n");
    block
}

/// A line that opens a host block.
pub open spec fn is_host_line(l: Seq<char>) -> bool {
    starts_with(trim_start(l), "Host "@)
}

/// A line that opens a host block naming `host`.
pub open spec fn declares_host(l: Seq<char>, host: Seq<char>) -> bool {
    is_host_line(l) && words(trim_start(l).skip(5)).contains(host)
}

/// The lines that stay when every block that names `host` is dropped; `skipping` holds inside
/// such a block.
pub open spec fn kept_lines(ls: Seq<Seq<char>>, host: Seq<char>, skipping: bool) -> Seq<Seq<char>>
    decreases ls.len(),
{
    if ls.len() == 0 {
        Seq::empty()
    } else if skipping && !is_host_line(ls[0]) {
        kept_lines(ls.drop_first(), host, true)
    } else if declares_host(ls[0], host) {
        kept_lines(ls.drop_first(), host, true)
    } else {
        seq![ls[0]] + kept_lines(ls.drop_first(), host, false)
    }
}

/// Each line followed by a line break.
pub open spec fn with_newlines(ls: Seq<Seq<char>>) -> Seq<char>
    decreases ls.len(),
{
    if ls.len() == 0 {
        Seq::empty()
    } else {
        with_newlines(ls.drop_last()) + ls.last() + seq!['\n']
    }
}

/// `existing` with the blocks that name `host` replaced by `block` at the end, after a blank
/// line where other text stays.
pub open spec fn upserted(existing: Seq<char>, host: Seq<char>, block: Seq<char>) -> Seq<char> {
    let r = with_newlines(kept_lines(lines(existing), host, false));
    (if trim(r).len() > 0 && !ends_with(r, "\n\n"@) {
        r.push('\n')
    } else {
        r
    }) + block
}

/// Whether `line` opens a host block.
fn is_host_line_exec(line: &[char]) -> (r: bool)
    ensures
        r == is_host_line(line@),
{
    let t = trim_start_chars(line);
    let p = to_chars("Host ");
    starts_with_chars(&t, &p)
}

/// Whether `line` opens a host block naming `host`.
fn declares_host_exec(line: &[char], host: &[char]) -> (r: bool)
    ensures
        r == declares_host(line@, host@),
{
    if !is_host_line_exec(line) {
        return false;
    }
    let t = trim_start_chars(line);
    proof {
        reveal_strlit("Host ");
    }
    let rest = crate::text::slice_chars(&t, 5, t.len());
    assert(rest@ =~= t@.skip(5));
    let ws = words_chars(&rest);
    let mut i: usize = 0;
    while i < ws.len()
        invariant
            i <= ws@.len(),
            views(ws@) == words(trim_start(line@).skip(5)),
            is_host_line(line@),
            forall|j: int| 0 <= j < i ==> views(ws@)[j] != host@,
        decreases ws@.len() - i,
    {
        assert(views(ws@)[i as int] == ws@[i as int]@);
        if chars_eq(&ws[i], host) {
            assert(views(ws@)[i as int] == host@);
            return true;
        }
        i = i + 1;
    }
    false
}

/// `existing` with the blocks that name `host` replaced by `block` at the end.
pub fn upsert_host_block(existing: &str, host: &str, block: &str) -> (r: String)
    ensures
        r@ == upserted(existing@, host@, block@),
{
    let text = to_chars(existing);
    let h = to_chars(host);
    let ls = lines_chars(&text);
    let ghost all = views(ls@);
    let mut out: Vec<char> = Vec::new();
    let mut kept: Ghost<Seq<Seq<char>>> = Ghost(Seq::empty());
    let mut skipping = false;
    let mut i: usize = 0;
    assert(all.skip(0) =~= all);
    while i < ls.len()
        invariant
            i <= ls@.len(),
            all == views(ls@),
            kept_lines(all, h@, false) == kept@ + kept_lines(all.skip(i as int), h@, skipping),
            out@ == with_newlines(kept@),
        decreases ls@.len() - i,
    {
        let ghost rest = all.skip(i as int);
        proof {
            assert(rest[0] == ls@[i as int]@);
            assert(rest.drop_first() =~= all.skip(i + 1));
        }
        let host_line = is_host_line_exec(&ls[i]);
        if skipping && !host_line {
        } else if declares_host_exec(&ls[i], &h) {
            skipping = true;
        } else {
            let ghost before = kept@;
            proof {
                kept@ = kept@.push(ls@[i as int]@);
                assert(before.push(ls@[i as int]@) + kept_lines(all.skip(i + 1), h@, false) =~= before
                    + (seq![ls@[i as int]@] + kept_lines(all.skip(i + 1), h@, false)));
                assert(kept@.drop_last() =~= before);
            }
            push_chars(&mut out, &ls[i]);
            out.push('\n');
            skipping = false;
        }
        i = i + 1;
    }
    proof {
        assert(all.skip(i as int).len() == 0);
        assert(kept@ + Seq::<Seq<char>>::empty() =~= kept@);
    }
    let t = trim_chars(&out);
    let nn = to_chars("\n\n");
    if t.len() > 0 && !ends_with_chars(&out, &nn) {
        out.push('\n');
    }
    let b = to_chars(block);
    push_chars(&mut out, &b);
    from_chars(&out)
}

/// Every line that names `host` is gone from what `upsert_host_block` keeps of the old text.
pub proof fn lemma_kept_lines_drop_host(ls: Seq<Seq<char>>, host: Seq<char>, skipping: bool)
    ensures
        forall|i: int|
            0 <= i < kept_lines(ls, host, skipping).len() ==> !declares_host(
                #[trigger] kept_lines(ls, host, skipping)[i],
                host,
            ),
    decreases ls.len(),
{
    if ls.len() > 0 {
        lemma_kept_lines_drop_host(ls.drop_first(), host, true);
        lemma_kept_lines_drop_host(ls.drop_first(), host, false);
        let k = kept_lines(ls, host, skipping);
        if skipping && !is_host_line(ls[0]) {
            assert(k == kept_lines(ls.drop_first(), host, true));
        } else if declares_host(ls[0], host) {
            assert(k == kept_lines(ls.drop_first(), host, true));
        } else {
            assert forall|i: int| 0 <= i < k.len() implies !declares_host(#[trigger] k[i], host) by {
                if i > 0 {
                    assert(k[i] == kept_lines(ls.drop_first(), host, false)[i - 1]);
                }
            }
        }
    }
}

/// Lines before the first `Host` line stay while no block is being dropped.
proof fn lemma_kept_lines_keep_leading(ls: Seq<Seq<char>>, host: Seq<char>, j: int)
    requires
        0 <= j < ls.len(),
        forall|m: int| 0 <= m <= j ==> !starts_with(trim_start(#[trigger] ls[m]), "Host "@),
    ensures
        kept_lines(ls, host, false).contains(ls[j]),
    decreases ls.len(),
{
    let k = kept_lines(ls, host, false);
    assert(!is_host_line(ls[0]));
    if j == 0 {
        assert(k[0] == ls[0]);
    } else {
        let tail = ls.drop_first();
        assert forall|m: int| 0 <= m <= j - 1 implies !starts_with(
            trim_start(#[trigger] tail[m]),
            "Host "@,
        ) by {
            assert(tail[m] == ls[m + 1]);
        }
        assert(tail[j - 1] == ls[j]);
        lemma_kept_lines_keep_leading(tail, host, j - 1);
        let r = kept_lines(tail, host, false);
        let x = choose|x: int| 0 <= x < r.len() && r[x] == ls[j];
        assert(k[x + 1] == r[x]);
    }
}

/// The block that a `Host` line opens, where none of its names equals `host`, is never dropped:
/// whatever came before it, its `Host` line (`i`) and each line after it up to the next `Host`
/// line stay among the lines that `upsert_host_block` keeps of the old text.
pub proof fn lemma_kept_lines_keep_other_hosts(
    ls: Seq<Seq<char>>,
    host: Seq<char>,
    skipping: bool,
    i: int,
    j: int,
)
    requires
        0 <= i <= j < ls.len(),
        starts_with(trim_start(ls[i]), "Host "@),
        forall|k: int|
            0 <= k < words(trim_start(ls[i]).skip(5)).len() ==> #[trigger] words(
                trim_start(ls[i]).skip(5),
            )[k] != host,
        forall|m: int| i < m <= j ==> !starts_with(trim_start(#[trigger] ls[m]), "Host "@),
    ensures
        kept_lines(ls, host, skipping).contains(ls[j]),
    decreases ls.len(),
{
    let k = kept_lines(ls, host, skipping);
    let tail = ls.drop_first();
    if i == 0 {
        assert(!words(trim_start(ls[0]).skip(5)).contains(host));
        assert(k[0] == ls[0]);
        if j > 0 {
            assert forall|m: int| 0 <= m <= j - 1 implies !starts_with(
                trim_start(#[trigger] tail[m]),
                "Host "@,
            ) by {
                assert(tail[m] == ls[m + 1]);
            }
            assert(tail[j - 1] == ls[j]);
            lemma_kept_lines_keep_leading(tail, host, j - 1);
            let r = kept_lines(tail, host, false);
            let x = choose|x: int| 0 <= x < r.len() && r[x] == ls[j];
            assert(k[x + 1] == r[x]);
        }
    } else {
        assert(tail[i - 1] == ls[i]);
        assert(tail[j - 1] == ls[j]);
        assert forall|m: int| i - 1 < m <= j - 1 implies !starts_with(
            trim_start(#[trigger] tail[m]),
            "Host "@,
        ) by {
            assert(tail[m] == ls[m + 1]);
        }
        lemma_kept_lines_keep_other_hosts(tail, host, true, i - 1, j - 1);
        lemma_kept_lines_keep_other_hosts(tail, host, false, i - 1, j - 1);
        if skipping && !is_host_line(ls[0]) {
        } else if declares_host(ls[0], host) {
        } else {
            let r = kept_lines(tail, host, false);
            let x = choose|x: int| 0 <= x < r.len() && r[x] == ls[j];
            assert(k[x + 1] == r[x]);
        }
    }
}

/// Saving a block for `host` keeps every block of the old text whose `Host` line (`i`) does not
/// name `host` exactly, also where one of its names begins with `host`: that line and each line
/// after it up to the next `Host` line (`j`) stay.
pub proof fn lemma_upsert_keeps_other_hosts(existing: Seq<char>, host: Seq<char>, i: int, j: int)
    requires
        0 <= i <= j < lines(existing).len(),
        starts_with(trim_start(lines(existing)[i]), "Host "@),
        forall|k: int|
            0 <= k < words(trim_start(lines(existing)[i]).skip(5)).len() ==> #[trigger] words(
                trim_start(lines(existing)[i]).skip(5),
            )[k] != host,
        forall|m: int|
            i < m <= j ==> !starts_with(trim_start(#[trigger] lines(existing)[m]), "Host "@),
    ensures
        kept_lines(lines(existing), host, false).contains(lines(existing)[j]),
{
    lemma_kept_lines_keep_other_hosts(lines(existing), host, false, i, j);
}

/// The configuration text after saving the key block for `host`: `existing` is the current
/// text, where there is one.
pub fn update_ssh_config(existing: Option<&str>, host: &str, ip: &str, user: &str, key_path: &str) -> (r:
    String)
    ensures
        r@ == upserted(
            match existing {
                Some(e) => e@,
                None => Seq::empty(),
            },
            host@,
            managed_key_block(host@, ip@, user@, key_path@),
        ),
{
    let block = build_managed_key_host_block(host, ip, user, key_path);
    match existing {
        Some(e) => upsert_host_block(e, host, block.as_str()),
        None => {
            proof {
                reveal_strlit("");
            }
            upsert_host_block("", host, block.as_str())
        },
    }
}

/// What undoing an update of the SSH configuration does to its file.
#[derive(Debug, Clone, PartialEq, Eq)]
pub enum RollbackStep {
    /// Write this text back: the file held it before.
    Restore(String),
    /// Remove the file: there was none before.
    Remove,
}

/// What undoing a configuration update needs: the file and the text it held before, if it
/// existed.
pub struct SshConfigRollback {
    config_path: String,
    previous_content: Option<String>,
}

impl SshConfigRollback {
    /// A rollback that restores `previous_content` at `config_path`, or removes the file
    /// where there was none.
    pub fn new(config_path: String, previous_content: Option<String>) -> (r: SshConfigRollback)
        ensures
            r.path_spec() == config_path@,
            r.previous_spec() == crate::credential::opt_view(previous_content),
    {
        SshConfigRollback { config_path, previous_content }
    }

    /// The configuration file.
    pub closed spec fn path_spec(&self) -> Seq<char> {
        self.config_path@
    }

    /// The text that the file held before the update.
    pub closed spec fn previous_spec(&self) -> Option<Seq<char>> {
        crate::credential::opt_view(self.previous_content)
    }

    /// The configuration file.
    pub fn config_path(&self) -> (r: &str)
        ensures
            r@ == self.path_spec(),
    {
        self.config_path.as_str()
    }

    /// What undoing the update does: the file gets back exactly the text it held, or is
    /// removed where there was none.
    pub fn restoration(&self) -> (r: RollbackStep)
        ensures
            match self.previous_spec() {
                Some(c) => r matches RollbackStep::Restore(t) && t@ == c,
                None => r == RollbackStep::Remove,
            },
    {
        match &self.previous_content {
            Some(c) => RollbackStep::Restore(c.clone()),
            None => RollbackStep::Remove,
        }
    }

    /// The text that the file held before the update; none where it did not exist.
    pub fn previous_content(&self) -> (r: Option<&str>)
        ensures
            match r {
                Some(s) => self.previous_spec() == Some(s@),
                None => self.previous_spec() is None,
            },
    {
        match &self.previous_content {
            Some(s) => Some(s.as_str()),
            None => None,
        }
    }
}

/// The configuration text after saving the key block for `host`, with what undoing it needs.
pub fn update_ssh_config_with_rollback(
    config_path: String,
    existing: Option<String>,
    host: &str,
    ip: &str,
    user: &str,
    key_path: &str,
) -> (r: (String, SshConfigRollback))
    ensures
        r.0@ == upserted(
            match existing {
                Some(e) => e@,
                None => Seq::empty(),
            },
            host@,
            managed_key_block(host@, ip@, user@, key_path@),
        ),
        r.1.path_spec() == config_path@,
        r.1.previous_spec() == crate::credential::opt_view(existing),
{
    let updated = match &existing {
        Some(e) => update_ssh_config(Some(e.as_str()), host, ip, user, key_path),
        None => update_ssh_config(None, host, ip, user, key_path),
    };
    (updated, SshConfigRollback::new(config_path, existing))
}

/// The configuration text after saving the password block for `host`.
pub fn update_ssh_config_for_password_fallback(existing: Option<&str>, host: &str, ip: &str, user: &str) -> (r:
    String)
    ensures
        r@ == upserted(
            match existing {
                Some(e) => e@,
                None => Seq::empty(),
            },
            host@,
            password_fallback_block(host@, ip@, user@),
        ),
{
    let block = build_password_fallback_host_block(host, ip, user);
    match existing {
        Some(e) => upsert_host_block(e, host, block.as_str()),
        None => {
            proof {
                reveal_strlit("");
            }
            upsert_host_block("", host, block.as_str())
        },
    }
}

/// `host` in the form that `known_hosts` uses for a non-default port check: `[host]:22`.
pub open spec fn bracketed(host: Seq<char>) -> Seq<char> {
    seq!['['] + host + "]:22"@
}

/// Whether a `known_hosts` line is an entry for `host`: its first field lists `host` or
/// `[host]:22` among its comma-separated names.
pub open spec fn known_host_matches(line: Seq<char>, host: Seq<char>) -> bool {
    let w = words(line);
    w.len() > 0 && (split_on(w[0], ',').contains(host) || split_on(w[0], ',').contains(
        bracketed(host),
    ))
}

/// Whether a `known_hosts` line is an entry for `host`.
pub fn known_host_matches_exec(line: &[char], host: &[char]) -> (r: bool)
    ensures
        r == known_host_matches(line@, host@),
{
    let ws = words_chars(line);
    if ws.len() == 0 {
        return false;
    }
    assert(views(ws@)[0] == ws@[0]@);
    let mut b: Vec<char> = Vec::new();
    b.push('[');
    push_chars(&mut b, host);
    let tail = to_chars("]:22");
    push_chars(&mut b, &tail);
    assert(b@ =~= bracketed(host@));
    let parts = split_on_chars(&ws[0], ',');
    let mut i: usize = 0;
    while i < parts.len()
        invariant
            i <= parts@.len(),
            words(line@).len() > 0,
            views(parts@) == split_on(words(line@)[0], ','),
            b@ == bracketed(host@),
            forall|j: int| 0 <= j < i ==> views(parts@)[j] != host@ && views(parts@)[j] != b@,
        decreases parts@.len() - i,
    {
        assert(views(parts@)[i as int] == parts@[i as int]@);
        if chars_eq(&parts[i], host) || chars_eq(&parts[i], &b) {
            assert(views(parts@)[i as int] == host@ || views(parts@)[i as int] == bracketed(host@));
            return true;
        }
        i = i + 1;
    }
    false
}

/// The lines that are not entries for `host`.
pub open spec fn other_entries(ls: Seq<Seq<char>>, host: Seq<char>) -> Seq<Seq<char>>
    decreases ls.len(),
{
    if ls.len() == 0 {
        ls
    } else if known_host_matches(ls.last(), host) {
        other_entries(ls.drop_last(), host)
    } else {
        other_entries(ls.drop_last(), host).push(ls.last())
    }
}

/// The `known_hosts` text without the entries for `host`, where that changes it: the kept
/// lines joined by line breaks, with one at the end unless nothing is left.
pub open spec fn without_known_host(content: Seq<char>, host: Seq<char>) -> Option<Seq<char>> {
    let f = join(other_entries(lines(content), host), "\n"@);
    if f == content {
        None
    } else if f.len() > 0 {
        Some(f.push('\n'))
    } else {
        Some(f)
    }
}

/// No line kept by `other_entries` is an entry for `host`.
pub proof fn lemma_other_entries(ls: Seq<Seq<char>>, host: Seq<char>)
    ensures
        forall|i: int|
            0 <= i < other_entries(ls, host).len() ==> !known_host_matches(
                #[trigger] other_entries(ls, host)[i],
                host,
            ),
    decreases ls.len(),
{
    if ls.len() > 0 {
        lemma_other_entries(ls.drop_last(), host);
        let o = other_entries(ls, host);
        let p = other_entries(ls.drop_last(), host);
        if !known_host_matches(ls.last(), host) {
            assert forall|i: int| 0 <= i < o.len() implies !known_host_matches(#[trigger] o[i], host) by {
                if i < p.len() {
                    assert(o[i] == p[i]);
                }
            }
        }
    }
}

/// A line stays where none of the comma-separated names of its first field equals `host` or
/// `[host]:22`, also where one of them begins with `host`; a line with no fields stays too.
pub proof fn lemma_other_entries_keep(ls: Seq<Seq<char>>, host: Seq<char>, i: int)
    requires
        0 <= i < ls.len(),
        words(ls[i]).len() == 0 || forall|k: int|
            0 <= k < split_on(words(ls[i])[0], ',').len() ==> #[trigger] split_on(
                words(ls[i])[0],
                ',',
            )[k] != host && split_on(words(ls[i])[0], ',')[k] != seq!['['] + host + "]:22"@,
    ensures
        other_entries(ls, host).contains(ls[i]),
    decreases ls.len(),
{
    let o = other_entries(ls, host);
    if i == ls.len() - 1 {
        if words(ls[i]).len() > 0 {
            assert(!split_on(words(ls[i])[0], ',').contains(host));
            assert(!split_on(words(ls[i])[0], ',').contains(bracketed(host)));
        }
        assert(o[o.len() - 1] == ls[i]);
    } else {
        let p = ls.drop_last();
        assert(p[i] == ls[i]);
        lemma_other_entries_keep(p, host, i);
        let q = other_entries(p, host);
        let j = choose|j: int| 0 <= j < q.len() && q[j] == ls[i];
        assert(o[j] == q[j]);
    }
}

/// Removing the entries for `host` keeps every line of `known_hosts` that is not an entry for
/// `host` by an exact name, also where one of its names begins with `host`.
pub proof fn lemma_remove_known_host_keeps_others(content: Seq<char>, host: Seq<char>, i: int)
    requires
        0 <= i < lines(content).len(),
        words(lines(content)[i]).len() == 0 || forall|k: int|
            0 <= k < split_on(words(lines(content)[i])[0], ',').len() ==> #[trigger] split_on(
                words(lines(content)[i])[0],
                ',',
            )[k] != host && split_on(words(lines(content)[i])[0], ',')[k] != seq!['['] + host
                + "]:22"@,
    ensures
        other_entries(lines(content), host).contains(lines(content)[i]),
{
    lemma_other_entries_keep(lines(content), host, i);
}

/// The `known_hosts` text without the entries for `host`; none where nothing changes.
pub fn remove_known_host(content: &str, host: &str) -> (r: Option<String>)
    ensures
        crate::credential::opt_view(r) == without_known_host(content@, host@),
{
    let text = to_chars(content);
    let h = to_chars(host);
    let ls = lines_chars(&text);
    let ghost all = views(ls@);
    let mut kept: Vec<Vec<char>> = Vec::new();
    let mut i: usize = 0;
    while i < ls.len()
        invariant
            i <= ls@.len(),
            all == views(ls@),
            views(kept@) == other_entries(all.take(i as int), h@),
        decreases ls@.len() - i,
    {
        proof {
            assert(all.take(i + 1).drop_last() =~= all.take(i as int));
            assert(all.take(i + 1).last() == ls@[i as int]@);
        }
        if !known_host_matches_exec(&ls[i], &h) {
            let ghost prev = views(kept@);
            let line = crate::text::slice_chars(&ls[i], 0, ls[i].len());
            assert(line@ =~= ls@[i as int]@);
            kept.push(line);
            assert(views(kept@) =~= prev.push(ls@[i as int]@));
        }
        i = i + 1;
    }
    assert(all.take(ls@.len() as int) =~= all);
    let nl = to_chars("\n");
    let mut f = join_chars(&kept, &nl);
    if chars_eq(&f, &text) {
        return None;
    }
    if f.len() > 0 {
        f.push('\n');
    }
    Some(from_chars(&f))
}

/// The names under which a device may hold a stale host key: its address, the address with
/// the port, and its alias; sorted, each once.
pub fn known_host_repair_targets(ip: &str, alias: &str) -> (r: Vec<String>)
    ensures
        crate::strsort::strs(r@) == crate::strsort::dedup_adj(
            crate::strsort::sort_strs(seq![ip@, bracketed(ip@), alias@]),
        ),
{
    proof {
        reveal_strlit("[");
    }
    let mut targets: Vec<String> = Vec::new();
    targets.push(ip.to_owned());
    let mut b = "[".to_owned();
    append_str(&mut b, ip);
    append_str(&mut b, "]:22");
    assert(b@ =~= bracketed(ip@));
    targets.push(b);
    targets.push(alias.to_owned());
    assert(targets@[0]@ == ip@);
    assert(targets@[1]@ == bracketed(ip@));
    assert(targets@[2]@ == alias@);
    assert(crate::strsort::strs(targets@) =~= seq![ip@, bracketed(ip@), alias@]);
    crate::strsort::sort_strings(&mut targets);
    crate::strsort::dedup_strings(&mut targets);
    targets
}

/// The `known_hosts` text after removing, in turn, the entries for each of `targets`.
pub open spec fn without_known_hosts(content: Seq<char>, targets: Seq<Seq<char>>) -> Seq<char>
    decreases targets.len(),
{
    if targets.len() == 0 {
        content
    } else {
        let c = without_known_hosts(content, targets.drop_last());
        match without_known_host(c, targets.last()) {
            Some(n) => n,
            None => c,
        }
    }
}

/// The `known_hosts` text after removing the stale entries of a device at `ip` with alias
/// `alias`.
pub fn repair_known_host_mismatch(content: &str, ip: &str, alias: &str) -> (r: String)
    ensures
        r@ == without_known_hosts(
            content@,
            crate::strsort::dedup_adj(crate::strsort::sort_strs(seq![ip@, bracketed(ip@), alias@])),
        ),
{
    let targets = known_host_repair_targets(ip, alias);
    let ghost ts = crate::strsort::strs(targets@);
    let mut current = content.to_owned();
    let mut i: usize = 0;
    while i < targets.len()
        invariant
            i <= targets@.len(),
            ts == crate::strsort::strs(targets@),
            current@ == without_known_hosts(content@, ts.take(i as int)),
        decreases targets@.len() - i,
    {
        proof {
            assert(ts.take(i + 1).drop_last() =~= ts.take(i as int));
            assert(ts.take(i + 1).last() == targets@[i as int]@);
        }
        match remove_known_host(current.as_str(), targets[i].as_str()) {
            Some(n) => {
                current = n;
            },
            None => {},
        }
        i = i + 1;
    }
    assert(ts.take(targets@.len() as int) =~= ts);
    current
}

/// The decimal text of a signed number.
pub open spec fn int_text(i: int) -> Seq<char> {
    if i < 0 {
        seq!['-'] + dec((-i) as nat)
    } else {
        dec(i as nat)
    }
}

/// The message for a failed command: its trimmed error output, else its trimmed standard
/// output, else its exit code, else that a signal ended it.
pub open spec fn failure_message(code: Option<i32>, stderr: Seq<char>, stdout: Seq<char>) -> Seq<
    char,
> {
    if trim(stderr).len() > 0 {
        trim(stderr)
    } else if trim(stdout).len() > 0 {
        trim(stdout)
    } else {
        match code {
            Some(c) => "exit code "@ + int_text(c as int),
            None => "terminated by signal"@,
        }
    }
}

/// The message for a failed command, from its exit code and its decoded outputs.
pub fn command_failure_message(code: Option<i32>, stderr: &str, stdout: &str) -> (r: String)
    ensures
        r@ == failure_message(code, stderr@, stdout@),
{
    let e = trim_string(stderr);
    if e.unicode_len() > 0 {
        return e;
    }
    let o = trim_string(stdout);
    if o.unicode_len() > 0 {
        return o;
    }
    match code {
        Some(c) => {
            let mut m = "exit code ".to_owned();
            if c < 0 {
                m.push('-');
                let n: u64 = (0i64 - (c as i64)) as u64;
                let d = dec_chars(n);
                let ds = from_chars(&d);
                append_str(&mut m, ds.as_str());
            } else {
                let d = dec_chars(c as u64);
                let ds = from_chars(&d);
                append_str(&mut m, ds.as_str());
            }
            m
        },
        None => "terminated by signal".to_owned(),
    }
}

/// A run of `ssh-keygen -R` ends the removal of a host: it succeeded, or it failed only
/// because the file or the entry was not there.
pub open spec fn removal_settled(c: crate::external_check::CommandAttempt) -> bool {
    match c {
        crate::external_check::CommandAttempt::Succeeded => true,
        crate::external_check::CommandAttempt::Failed { stderr, .. } => crate::text::contains(
            stderr@,
            "No such file"@,
        ) || crate::text::contains(stderr@, "not found in"@),
        _ => false,
    }
}

/// Whether a run of `ssh-keygen -R` ends the removal, so that no further candidate is run.
pub fn removal_settles(attempt: &crate::external_check::CommandAttempt) -> (r: bool)
    ensures
        r == removal_settled(*attempt),
{
    match attempt {
        crate::external_check::CommandAttempt::Succeeded => true,
        crate::external_check::CommandAttempt::Failed { stderr, .. } => {
            let e = to_chars(stderr.as_str());
            crate::text::contains_str(&e, "No such file") || crate::text::contains_str(
                &e,
                "not found in",
            )
        },
        _ => false,
    }
}

/// The result of removing a host with the `ssh-keygen -R` candidates, from their runs in
/// order: success where a run settled the removal; else the first failure with its message;
/// else the first error other than a missing program; else success, as there was no
/// `ssh-keygen` to run.
pub fn known_host_removal_outcome(attempts: &Vec<crate::external_check::CommandAttempt>) -> (r:
    Result<(), ConfigError>)
    ensures
        (exists|i: int| 0 <= i < attempts@.len() && removal_settled(attempts@[i])) ==> r is Ok,
        !(exists|i: int| 0 <= i < attempts@.len() && removal_settled(attempts@[i])) ==> match
            crate::external_check::first_of_kind(attempts@, 1) {
            Some(k) => attempts@[k] matches crate::external_check::CommandAttempt::Failed {
                code,
                stderr,
                stdout,
            } && (r matches Err(ConfigError::Command(m)) && m@ == failure_message(
                code,
                stderr@,
                stdout@,
            )),
            None => match crate::external_check::first_of_kind(attempts@, 3) {
                Some(k) => attempts@[k] matches crate::external_check::CommandAttempt::IoError(e)
                    && (r matches Err(ConfigError::Io(m)) && m@ == e@),
                None => r is Ok,
            },
        },
{
    let mut i: usize = 0;
    while i < attempts.len()
        invariant
            i <= attempts@.len(),
            forall|j: int| 0 <= j < i ==> !removal_settled(attempts@[j]),
        decreases attempts@.len() - i,
    {
        if removal_settles(&attempts[i]) {
            return Ok(());
        }
        i = i + 1;
    }
    proof {
        crate::external_check::lemma_first_of_kind_valid(attempts@, 1);
        crate::external_check::lemma_first_of_kind_valid(attempts@, 3);
    }
    match crate::external_check::find_first_of_kind(attempts, 1) {
        Some(k) => {
            return match &attempts[k] {
                crate::external_check::CommandAttempt::Failed { code, stderr, stdout } => {
                    Err(ConfigError::Command(command_failure_message(*code, stderr.as_str(), stdout.as_str())))
                },
                _ => Ok(()),
            };
        },
        None => {},
    }
    match crate::external_check::find_first_of_kind(attempts, 3) {
        Some(k) => match &attempts[k] {
            crate::external_check::CommandAttempt::IoError(e) => Err(ConfigError::Io(e.clone())),
            _ => Ok(()),
        },
        None => Ok(()),
    }
}

} // verus!
