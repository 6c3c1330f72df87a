//! Docker containers on a remote host: reading `docker ps`, the commands sent, and the
//! addresses that attach VS Code to a container.
use vstd::prelude::*;
use crate::config_file::hex_char;
use crate::ssh_auth::{CommandOutput, SshError, ssh_error_text};
use crate::ssh_keys::{shell_quote, shell_quoted};
use crate::text::{
    append_str, contains, contains_str, from_chars, is_digit, lines, lines_chars, lower,
    lower_chars, replace_char, replace_char_exec, split_on, split_on_chars, starts_with,
    starts_with_chars, str_eq, to_chars, trim, trim_chars, trim_string, views, find_char,
    split_once, split_once_chars,
};
use vstd::string::StringSliceAdditionalSpecFns;

verus! {

/// A container on the remote host.
#[derive(Debug, Clone, PartialEq, Eq)]
pub struct Container {
    pub id: String,
    pub name: String,
    pub image: String,
    pub status: String,
    pub is_running: bool,
}

/// Why a Docker operation failed.
#[derive(Debug)]
pub enum DockerError {
    Ssh(SshError),
    Parse(String),
    Runtime(String),
}

/// The text of a Docker error.
pub open spec fn docker_error_text(e: DockerError) -> Seq<char> {
    match e {
        DockerError::Ssh(s) => ssh_error_text(s),
        DockerError::Parse(m) => m@,
        DockerError::Runtime(m) => m@,
    }
}

impl DockerError {
    /// The text of the error.
    pub fn message(&self) -> (r: String)
        ensures
            r@ == docker_error_text(*self),
    {
        match self {
            DockerError::Ssh(e) => e.message(),
            DockerError::Parse(m) => m.clone(),
            DockerError::Runtime(m) => m.clone(),
        }
    }
}

/// The command that lists every container, one per line, with `|` between its fields.
pub fn list_containers_command() -> (r: &'static str)
    ensures
        r@ == "docker ps -a --no-trunc --format '{{.ID}}|{{.Names}}|{{.Image}}|{{.Status}}'"@,
{
    "docker ps -a --no-trunc --format '{{.ID}}|{{.Names}}|{{.Image}}|{{.Status}}'"
}

/// A container as plain values: id, name, image, status, running.
pub open spec fn container_view(c: Container) -> (Seq<char>, Seq<char>, Seq<char>, Seq<char>, bool) {
    (c.id@, c.name@, c.image@, c.status@, c.is_running)
}

/// The plain values of a list of containers.
pub open spec fn container_views(v: Seq<Container>) -> Seq<(Seq<char>, Seq<char>, Seq<char>, Seq<char>, bool)> {
    v.map_values(|c: Container| container_view(c))
}

/// The trimmed fields of a trimmed line.
pub open spec fn fields(t: Seq<char>) -> Seq<Seq<char>> {
    split_on(t, '|').map_values(|f: Seq<char>| trim(f))
}

/// The container that a line of four fields describes: it runs where its status starts with
/// `up` in any ASCII case.
pub open spec fn container_of(t: Seq<char>) -> (Seq<char>, Seq<char>, Seq<char>, Seq<char>, bool) {
    let f = fields(t);
    (f[0], f[1], f[2], f[3], starts_with(lower(f[3]), "up"@))
}

/// The containers in the lines of `docker ps`: blank lines are skipped, and the first line that
/// does not have four fields is the error.
pub open spec fn containers_in(ls: Seq<Seq<char>>) -> Result<Seq<(Seq<char>, Seq<char>, Seq<char>, Seq<char>, bool)>, Seq<char>>
    decreases ls.len(),
{
    if ls.len() == 0 {
        Ok(Seq::empty())
    } else {
        let t = trim(ls[0]);
        if t.len() == 0 {
            containers_in(ls.drop_first())
        } else if fields(t).len() != 4 {
            Err(t)
        } else {
            match containers_in(ls.drop_first()) {
                Ok(cs) => Ok(seq![container_of(t)] + cs),
                Err(e) => Err(e),
            }
        }
    }
}

/// `prefix` put in front of the containers of `r`.
pub open spec fn after(
    prefix: Seq<(Seq<char>, Seq<char>, Seq<char>, Seq<char>, bool)>,
    r: Result<Seq<(Seq<char>, Seq<char>, Seq<char>, Seq<char>, bool)>, Seq<char>>,
) -> Result<Seq<(Seq<char>, Seq<char>, Seq<char>, Seq<char>, bool)>, Seq<char>> {
    match r {
        Ok(cs) => Ok(prefix + cs),
        Err(e) => Err(e),
    }
}

/// The containers listed in the output of `docker ps`.
pub fn parse_container_list(stdout: &str) -> (r: Result<Vec<Container>, DockerError>)
    ensures
        match containers_in(lines(stdout@)) {
            Ok(cs) => if cs.len() > 0 {
                r matches Ok(v) && container_views(v@) == cs
            } else {
                r matches Err(DockerError::Runtime(m)) && m@ == "未在远程主机上发现 Docker 容器"@
            },
            Err(t) => r matches Err(DockerError::Parse(m)) && m@ == "unexpected docker ps output line: "@
                + t,
        },
{
    let text = to_chars(stdout);
    let ls = lines_chars(&text);
    let ghost all = views(ls@);
    let mut out: Vec<Container> = Vec::new();
    let mut i: usize = 0;
    assert(all.skip(0) =~= all);
    assert(container_views(out@) + Seq::empty() =~= Seq::empty());
    proof {
        match containers_in(all) {
            Ok(cs) => {
                assert(container_views(out@) + cs =~= cs);
            },
            Err(_) => {},
        }
    }
    while i < ls.len()
        invariant
            i <= ls@.len(),
            all == views(ls@),
            all == lines(stdout@),
            containers_in(all) == after(container_views(out@), containers_in(all.skip(i as int))),
        decreases ls@.len() - i,
    {
        let ghost rest = all.skip(i as int);
        proof {
            assert(rest[0] == ls@[i as int]@);
            assert(rest.drop_first() =~= all.skip(i + 1));
        }
        let t = trim_chars(&ls[i]);
        if t.len() > 0 {
            let raw = split_on_chars(&t, '|');
            let mut parts: Vec<Vec<char>> = Vec::new();
            let mut k: usize = 0;
            while k < raw.len()
                invariant
                    k <= raw@.len(),
                    views(raw@) == split_on(t@, '|'),
                    views(parts@) == split_on(t@, '|').take(k as int).map_values(
                        |f: Seq<char>| trim(f),
                    ),
                decreases raw@.len() - k,
            {
                let ghost prev = views(parts@);
                let f = trim_chars(&raw[k]);
                parts.push(f);
                proof {
                    assert(views(raw@)[k as int] == raw@[k as int]@);
                    assert(views(parts@) =~= prev.push(trim(raw@[k as int]@)));
                    assert(split_on(t@, '|').take(k + 1).map_values(|f: Seq<char>| trim(f))
                        =~= split_on(t@, '|').take(k as int).map_values(|f: Seq<char>| trim(f)).push(
                        trim(raw@[k as int]@),
                    ));
                }
                k = k + 1;
            }
            assert(split_on(t@, '|').take(raw@.len() as int) =~= split_on(t@, '|'));
            assert(views(parts@) == fields(t@));
            if parts.len() != 4 {
                assert(trim(rest[0]) == t@);
                assert(containers_in(rest) == Err::<Seq<(Seq<char>, Seq<char>, Seq<char>, Seq<char>, bool)>, Seq<char>>(t@));
                let mut m = "unexpected docker ps output line: ".to_owned();
                let ts = from_chars(&t);
                append_str(&mut m, ts.as_str());
                return Err(DockerError::Parse(m));
            }
            assert(views(parts@)[3] == parts@[3]@);
            let status_lower = lower_chars(&parts[3]);
            let up = to_chars("up");
            let running = starts_with_chars(&status_lower, &up);
            let c = Container {
                id: from_chars(&parts[0]),
                name: from_chars(&parts[1]),
                image: from_chars(&parts[2]),
                status: from_chars(&parts[3]),
                is_running: running,
            };
            proof {
                assert(views(parts@)[0] == parts@[0]@);
                assert(views(parts@)[1] == parts@[1]@);
                assert(views(parts@)[2] == parts@[2]@);
                assert(container_view(c) == container_of(t@));
            }
            let ghost prev = container_views(out@);
            out.push(c);
            proof {
                assert(container_views(out@) =~= prev.push(container_of(t@)));
                match containers_in(all.skip(i + 1)) {
                    Ok(cs) => {
                        assert(prev + (seq![container_of(t@)] + cs) =~= container_views(out@) + cs);
                    },
                    Err(_) => {},
                }
            }
        }
        i = i + 1;
    }
    proof {
        assert(all.skip(i as int).len() == 0);
        assert(container_views(out@) + Seq::empty() =~= container_views(out@));
    }
    if out.len() == 0 {
        return Err(DockerError::Runtime("未在远程主机上发现 Docker 容器".to_owned()));
    }
    Ok(out)
}

/// Whether a container with these values is what a line of `docker ps` in the listing format
/// `{{.ID}}|{{.Names}}|{{.Image}}|{{.Status}}` says: the line has four `|`-separated fields, and
/// the id, name, image and status are those fields in that order, trimmed; the container runs
/// where its status starts with `up` in any ASCII case.
pub open spec fn listed_as(
    line: Seq<char>,
    id: Seq<char>,
    name: Seq<char>,
    image: Seq<char>,
    status: Seq<char>,
    running: bool,
) -> bool {
    let parts = split_on(trim(line), '|');
    &&& parts.len() == 4
    &&& id == trim(parts[0])
    &&& name == trim(parts[1])
    &&& image == trim(parts[2])
    &&& status == trim(parts[3])
    &&& running == starts_with(lower(status), "up"@)
}

/// Whether `line` lists the container `c`, given as plain values.
pub open spec fn lists(line: Seq<char>, c: (Seq<char>, Seq<char>, Seq<char>, Seq<char>, bool)) -> bool {
    listed_as(line, c.0, c.1, c.2, c.3, c.4)
}

/// Every container read from a listing is what one of its lines says.
pub proof fn lemma_containers_in_listed(ls: Seq<Seq<char>>)
    ensures
        containers_in(ls) is Ok ==> forall|k: int|
            0 <= k < containers_in(ls)->Ok_0.len() ==> exists|i: int|
                0 <= i < ls.len() && lists(ls[i], #[trigger] containers_in(ls)->Ok_0[k]),
    decreases ls.len(),
{
    if ls.len() > 0 {
        let tail = ls.drop_first();
        lemma_containers_in_listed(tail);
        let t = trim(ls[0]);
        if containers_in(ls) is Ok {
            let cs = containers_in(ls)->Ok_0;
            if t.len() == 0 {
                assert forall|k: int| 0 <= k < cs.len() implies exists|i: int|
                    0 <= i < ls.len() && lists(ls[i], #[trigger] cs[k]) by {
                    let i = choose|i: int| 0 <= i < tail.len() && lists(tail[i], cs[k]);
                    assert(tail[i] == ls[i + 1]);
                }
            } else {
                let rest = containers_in(tail)->Ok_0;
                assert(cs == seq![container_of(t)] + rest);
                assert forall|k: int| 0 <= k < cs.len() implies exists|i: int|
                    0 <= i < ls.len() && lists(ls[i], #[trigger] cs[k]) by {
                    if k == 0 {
                        let f = fields(t);
                        assert(trim(t) == t) by {
                            crate::text::lemma_trim_idem(ls[0]);
                        }
                        assert(f[0] == trim(split_on(t, '|')[0]));
                        assert(f[1] == trim(split_on(t, '|')[1]));
                        assert(f[2] == trim(split_on(t, '|')[2]));
                        assert(f[3] == trim(split_on(t, '|')[3]));
                        assert(lists(ls[0], cs[0]));
                    } else {
                        assert(cs[k] == rest[k - 1]);
                        let i = choose|i: int| 0 <= i < tail.len() && lists(tail[i], rest[k - 1]);
                        assert(tail[i] == ls[i + 1]);
                    }
                }
            }
        }
    }
}

/// Each container that `parse_container_list` gives back is what one line of the listing says:
/// its id is the line's first `|`-separated field, its name the second, its image the third and
/// its status the fourth, each trimmed, as the listing format orders them.
pub proof fn lemma_parsed_containers_follow_format(stdout: Seq<char>, v: Seq<Container>)
    requires
        containers_in(lines(stdout)) == Ok::<_, Seq<char>>(container_views(v)),
    ensures
        forall|k: int|
            0 <= k < v.len() ==> exists|i: int|
                0 <= i < lines(stdout).len() && listed_as(
                    lines(stdout)[i],
                    (#[trigger] v[k]).id@,
                    v[k].name@,
                    v[k].image@,
                    v[k].status@,
                    v[k].is_running,
                ),
{
    lemma_containers_in_listed(lines(stdout));
    let cs = containers_in(lines(stdout))->Ok_0;
    assert(cs == container_views(v));
    assert forall|k: int| 0 <= k < v.len() implies exists|i: int|
        0 <= i < lines(stdout).len() && listed_as(
            lines(stdout)[i],
            (#[trigger] v[k]).id@,
            v[k].name@,
            v[k].image@,
            v[k].status@,
            v[k].is_running,
        ) by {
        assert(cs[k] == container_view(v[k]));
    }
}

/// The user message for a failed Docker command.
pub open spec fn docker_failure(stdout: Seq<char>, stderr: Seq<char>, fallback: Seq<char>) -> Seq<char> {
    let e = trim(stderr);
    let l = lower(e);
    if contains(l, "command not found"@) || contains(l, "not recognized"@) {
        "远程主机未安装 Docker"@
    } else if contains(l, "permission denied"@) {
        "无权访问 Docker，请检查当前用户是否在 docker 组"@
    } else if trim(stdout).len() == 0 && e.len() == 0 {
        "未在远程主机上发现 Docker 容器"@
    } else if e.len() > 0 {
        e
    } else {
        fallback
    }
}

/// The user message for a failed Docker command.
pub fn map_docker_error(stdout: &str, stderr: &str, fallback: &str) -> (r: String)
    ensures
        r@ == docker_failure(stdout@, stderr@, fallback@),
{
    let e = trimmed_chars(stderr);
    let l = lower_chars(&e);
    if contains_str(&l, "command not found") || contains_str(&l, "not recognized") {
        return "远程主机未安装 Docker".to_owned();
    }
    if contains_str(&l, "permission denied") {
        return "无权访问 Docker，请检查当前用户是否在 docker 组".to_owned();
    }
    let o = trimmed_chars(stdout);
    if o.len() == 0 && e.len() == 0 {
        return "未在远程主机上发现 Docker 容器".to_owned();
    }
    if e.len() > 0 {
        return from_chars(&e);
    }
    fallback.to_owned()
}

fn trimmed_chars(s: &str) -> (r: Vec<char>)
    ensures
        r@ == trim(s@),
{
    crate::text::trimmed(s)
}

/// The containers from the output of the listing command.
pub fn containers_from_output(output: &CommandOutput) -> (r: Result<Vec<Container>, DockerError>)
    ensures
        output.exit_status != 0 ==> (r matches Err(DockerError::Runtime(m)) && m@ == docker_failure(
            output.stdout@,
            output.stderr@,
            "未能读取远程 Docker 容器列表"@,
        )),
        output.exit_status == 0 ==> match containers_in(lines(output.stdout@)) {
            Ok(cs) => if cs.len() > 0 {
                r matches Ok(v) && container_views(v@) == cs
            } else {
                r matches Err(DockerError::Runtime(m)) && m@ == "未在远程主机上发现 Docker 容器"@
            },
            Err(t) => r matches Err(DockerError::Parse(m)) && m@ == "unexpected docker ps output line: "@
                + t,
        },
{
    if output.exit_status != 0 {
        return Err(
            DockerError::Runtime(
                map_docker_error(
                    output.stdout.as_str(),
                    output.stderr.as_str(),
                    "未能读取远程 Docker 容器列表",
                ),
            ),
        );
    }
    parse_container_list(output.stdout.as_str())
}

/// The command that starts a container.
pub fn restart_container_command(container_id: &str) -> (r: String)
    ensures
        r@ == "docker start "@ + shell_quoted(container_id@),
{
    let mut c = "docker start ".to_owned();
    let q = shell_quote(container_id);
    append_str(&mut c, q.as_str());
    c
}

/// The outcome of starting a container, from the command's output.
pub fn restart_result(output: &CommandOutput) -> (r: Result<(), DockerError>)
    ensures
        output.exit_status == 0 ==> r is Ok,
        output.exit_status != 0 ==> (r matches Err(DockerError::Runtime(m)) && m@ == docker_failure(
            output.stdout@,
            output.stderr@,
            "启动 Docker 容器失败"@,
        )),
{
    if output.exit_status == 0 {
        Ok(())
    } else {
        Err(
            DockerError::Runtime(
                map_docker_error(
                    output.stdout.as_str(),
                    output.stderr.as_str(),
                    "启动 Docker 容器失败",
                ),
            ),
        )
    }
}

/// `value` escaped for a JSON string: backslashes doubled, then quotes escaped.
pub open spec fn json_escaped(value: Seq<char>) -> Seq<char> {
    replace_char(replace_char(value, '\\', "\\\\"@), '"', "\\\""@)
}

/// `value` escaped for a JSON string.
pub fn json_escape(value: &str) -> (r: String)
    ensures
        r@ == json_escaped(value@),
{
    let v = to_chars(value);
    let bs = to_chars("\\\\");
    let a = replace_char_exec(&v, '\\', &bs);
    let qs = to_chars("\\\"");
    let b = replace_char_exec(&a, '"', &qs);
    from_chars(&b)
}

/// Two lowercase hexadecimal digits for each byte.
pub open spec fn hex_text(bytes: Seq<u8>) -> Seq<char>
    decreases bytes.len(),
{
    if bytes.len() == 0 {
        Seq::empty()
    } else {
        hex_text(bytes.drop_last()) + seq![
            hex_char((bytes.last() / 16) as u32),
            hex_char((bytes.last() % 16) as u32),
        ]
    }
}

fn hex_digit(n: u8) -> (r: char)
    requires
        n < 16,
    ensures
        r == hex_char(n as u32),
{
    if n < 10 {
        ((n + 48) as u8) as char
    } else {
        ((n + 87) as u8) as char
    }
}

/// Two lowercase hexadecimal digits for each byte.
pub fn hex_encode(bytes: &[u8]) -> (r: String)
    ensures
        r@ == hex_text(bytes@),
{
    let mut out = String::new();
    let mut i: usize = 0;
    while i < bytes.len()
        invariant
            i <= bytes@.len(),
            out@ == hex_text(bytes@.take(i as int)),
        decreases bytes@.len() - i,
    {
        let b = bytes[i];
        proof {
            assert(bytes@.take(i + 1).drop_last() =~= bytes@.take(i as int));
        }
        let ghost before = out@;
        out.push(hex_digit(b / 16));
        out.push(hex_digit(b % 16));
        assert(out@ =~= before + seq![hex_char((b / 16) as u32), hex_char((b % 16) as u32)]);
        i = i + 1;
    }
    assert(bytes@.take(bytes@.len() as int) =~= bytes@);
    out
}

/// The JSON that names the container and the SSH host to attach to.
pub open spec fn attach_payload(host_target: Seq<char>, user: Seq<char>, container_name: Seq<char>) -> Seq<char> {
    "{\"containerName\":\"/"@ + json_escaped(container_name) + "\",\"settings\":{\"host\":\"ssh://"@
        + json_escaped(user) + seq!['@'] + json_escaped(host_target) + ":22\"}}"@
}

/// The address that opens `container_name` on `user@host_target` in VS Code at `workdir`: the
/// payload's UTF-8 bytes in hexadecimal after the scheme, then the directory.
pub open spec fn devcontainer_uri(
    host_target: Seq<char>,
    user: Seq<char>,
    container_name: Seq<char>,
    workdir: Seq<char>,
) -> Seq<char> {
    "vscode-remote://attached-container+"@ + hex_text(
        vstd::utf8::encode_utf8(attach_payload(host_target, user, container_name)),
    ) + workdir
}

/// The address that opens a container in VS Code at `workdir`.
pub fn build_devcontainer_uri_with_workdir(
    host_target: &str,
    user: &str,
    container_name: &str,
    workdir: &str,
) -> (r: String)
    ensures
        r@ == devcontainer_uri(host_target@, user@, container_name@, workdir@),
        starts_with(r@, "vscode-remote://attached-container+"@),
        crate::text::ends_with(r@, workdir@),
{
    let mut payload = "{\"containerName\":\"/".to_owned();
    let n = json_escape(container_name);
    append_str(&mut payload, n.as_str());
    append_str(&mut payload, "\",\"settings\":{\"host\":\"ssh://");
    let u = json_escape(user);
    append_str(&mut payload, u.as_str());
    payload.push('@');
    let h = json_escape(host_target);
    append_str(&mut payload, h.as_str());
    append_str(&mut payload, ":22\"}}");
    assert(payload@ =~= attach_payload(host_target@, user@, container_name@));
    let bytes = payload.as_str().as_bytes();
    let hex = hex_encode(bytes);
    let mut uri = "vscode-remote://attached-container+".to_owned();
    append_str(&mut uri, hex.as_str());
    append_str(&mut uri, workdir);
    assert(uri@ =~= devcontainer_uri(host_target@, user@, container_name@, workdir@));
    assert(uri@.subrange(0, "vscode-remote://attached-container+"@.len() as int)
        =~= "vscode-remote://attached-container+"@);
    assert(uri@.subrange(uri@.len() - workdir@.len(), uri@.len() as int) =~= workdir@);
    uri
}

/// The address that opens a container in VS Code at the root directory.
pub fn build_devcontainer_uri(host_target: &str, user: &str, container_name: &str) -> (r: String)
    ensures
        r@ == devcontainer_uri(host_target@, user@, container_name@, "/"@),
        starts_with(r@, "vscode-remote://attached-container+"@),
        crate::text::ends_with(r@, "/"@),
{
    build_devcontainer_uri_with_workdir(host_target, user, container_name, "/")
}

/// The command that reads a container's default user.
pub fn inspect_user_command(container_id: &str) -> (r: String)
    ensures
        r@ == "docker inspect --format '{{.Config.User}}' "@ + shell_quoted(container_id@),
{
    let mut c = "docker inspect --format '{{.Config.User}}' ".to_owned();
    let q = shell_quote(container_id);
    append_str(&mut c, q.as_str());
    c
}

/// The container user in the output of the inspect command: `root` where it is blank or only
/// digits, else the name before the first `:`.
pub open spec fn container_user_of(stdout: Seq<char>) -> Seq<char> {
    let v = trim(stdout);
    if v.len() == 0 || forall|i: int| 0 <= i < v.len() ==> is_digit(#[trigger] v[i]) {
        "root"@
    } else {
        match split_once(v, ':') {
            Some((p, _)) => p,
            None => v,
        }
    }
}

/// The container user from the output of the inspect command.
pub fn container_user_from_output(output: &CommandOutput) -> (r: Result<String, DockerError>)
    ensures
        output.exit_status != 0 ==> (r matches Err(DockerError::Runtime(m)) && m@ == docker_failure(
            output.stdout@,
            output.stderr@,
            "读取容器默认用户失败"@,
        )),
        output.exit_status == 0 ==> (r matches Ok(u) && u@ == container_user_of(output.stdout@)),
{
    if output.exit_status != 0 {
        return Err(
            DockerError::Runtime(
                map_docker_error(
                    output.stdout.as_str(),
                    output.stderr.as_str(),
                    "读取容器默认用户失败",
                ),
            ),
        );
    }
    let v = trimmed_chars(output.stdout.as_str());
    let mut all_digits = true;
    let mut i: usize = 0;
    while i < v.len()
        invariant
            i <= v@.len(),
            all_digits == forall|j: int| 0 <= j < i ==> is_digit(#[trigger] v@[j]),
        decreases v@.len() - i,
    {
        let c = v[i];
        if !('0' <= c && c <= '9') {
            all_digits = false;
        }
        i = i + 1;
    }
    if v.len() == 0 || all_digits {
        return Ok("root".to_owned());
    }
    match split_once_chars(&v, ':') {
        Some((p, _)) => Ok(from_chars(&p)),
        None => Ok(from_chars(&v)),
    }
}

/// The home directory of a container user: `/root` for root, else under `/home`.
pub open spec fn expected_home(user: Seq<char>) -> Seq<char> {
    if user == "root"@ {
        "/root"@
    } else {
        "/home/"@ + user
    }
}

/// The home directory of a container user.
pub fn expected_workdir(container_user: &str) -> (r: String)
    ensures
        r@ == expected_home(container_user@),
{
    if str_eq(container_user, "root") {
        "/root".to_owned()
    } else {
        let mut d = "/home/".to_owned();
        append_str(&mut d, container_user);
        d
    }
}

/// The command that checks whether a directory exists in a container.
pub fn workdir_check_command(container_id: &str, dir: &str) -> (r: String)
    ensures
        r@ == "docker exec "@ + shell_quoted(container_id@) + " test -d "@ + shell_quoted(dir@),
{
    let mut c = "docker exec ".to_owned();
    let q = shell_quote(container_id);
    append_str(&mut c, q.as_str());
    append_str(&mut c, " test -d ");
    let d = shell_quote(dir);
    append_str(&mut c, d.as_str());
    c
}

/// The directory to open: the user's home where it exists, else the root directory.
pub fn workdir_from_check(exit_status: i32, expected_dir: String) -> (r: String)
    ensures
        r@ == if exit_status == 0 {
            expected_dir@
        } else {
            "/"@
        },
{
    if exit_status == 0 {
        expected_dir
    } else {
        "/".to_owned()
    }
}

} // verus!
