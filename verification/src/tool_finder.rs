//! Where the client programs are looked for: the names and paths tried for each tool on each
//! system, the order in which a directory of `PATH` is searched, and the notices given when a
//! program is not found.
use vstd::prelude::*;
use crate::platform::Platform;
use crate::store::{ToolKind, tool_label};
use crate::text::{append_str, owned_strings, to_chars, from_chars};

verus! {

/// The places in which a tool is looked for, in the order they are searched: names on `PATH`,
/// names in the Windows "App Paths" registry keys, names of Start menu shortcuts, and fixed
/// paths in which `%LOCALAPPDATA%`, `%PROGRAMFILES%` and `%PROGRAMFILES(X86)%` stand for the
/// environment's values.
pub struct ToolSearch {
    pub path_names: Vec<String>,
    pub registry_names: Vec<String>,
    pub shortcut_names: Vec<String>,
    pub common_paths: Vec<String>,
}

/// The texts of a list of strings.
pub open spec fn texts(v: Seq<String>) -> Seq<Seq<char>> {
    v.map_values(|s: String| s@)
}

/// A search as plain text: the four lists in their order.
pub open spec fn search_view(s: ToolSearch) -> (
    Seq<Seq<char>>,
    Seq<Seq<char>>,
    Seq<Seq<char>>,
    Seq<Seq<char>>,
) {
    (texts(s.path_names@), texts(s.registry_names@), texts(s.shortcut_names@), texts(s.common_paths@))
}

/// Where each tool is looked for on each system.
pub open spec fn tool_search_spec(tool: ToolKind, platform: Platform) -> (
    Seq<Seq<char>>,
    Seq<Seq<char>>,
    Seq<Seq<char>>,
    Seq<Seq<char>>,
) {
    match tool {
        ToolKind::Vscode => match platform {
            Platform::Windows => (
                seq!["Code.exe"@, "code.cmd"@, "code"@],
                seq!["Code.exe"@, "code.cmd"@],
                seq!["Visual Studio Code"@, "Code"@, "Code.exe"@, "code.cmd"@],
                seq![
                    "%LOCALAPPDATA%\\Programs\\Microsoft VS Code\\Code.exe"@,
                    "%PROGRAMFILES%\\Microsoft VS Code\\Code.exe"@,
                    "%LOCALAPPDATA%\\Programs\\Microsoft VS Code\\bin\\code.cmd"@,
                    "%PROGRAMFILES%\\Microsoft VS Code\\bin\\code.cmd"@,
                    "%PROGRAMFILES(X86)%\\Microsoft VS Code\\bin\\code.cmd"@,
                ],
            ),
            Platform::MacOs => (
                seq!["code"@],
                Seq::empty(),
                Seq::empty(),
                seq![
                    "/Applications/Visual Studio Code.app"@,
                    "~/Applications/Visual Studio Code.app"@,
                ],
            ),
            _ => (seq!["code"@], Seq::empty(), Seq::empty(), Seq::empty()),
        },
        ToolKind::Mobaxterm => (
            seq!["MobaXterm"@, "MobaXterm.exe"@, "MobaXterm_Personal.exe"@],
            seq!["MobaXterm.exe"@, "MobaXterm_Personal.exe"@, "MobaXterm"@],
            seq!["MobaXterm"@, "MobaXterm.exe"@, "MobaXterm_Personal.exe"@],
            seq![
                "%PROGRAMFILES%\\Mobatek\\MobaXterm\\MobaXterm.exe"@,
                "%PROGRAMFILES(X86)%\\Mobatek\\MobaXterm\\MobaXterm.exe"@,
                "%LOCALAPPDATA%\\Programs\\Mobatek\\MobaXterm\\MobaXterm.exe"@,
                "C:\\Program Files\\Mobatek\\MobaXterm Personal Edition\\MobaXterm_Personal.exe"@,
                "C:\\Program Files (x86)\\Mobatek\\MobaXterm Personal Edition\\MobaXterm_Personal.exe"@,
                "%PROGRAMFILES%\\Mobatek\\MobaXterm Personal Edition\\MobaXterm_Personal.exe"@,
                "%PROGRAMFILES(X86)%\\Mobatek\\MobaXterm Personal Edition\\MobaXterm_Personal.exe"@,
            ],
        ),
        ToolKind::VncViewer => match platform {
            Platform::MacOs => (
                seq!["vncviewer"@],
                Seq::empty(),
                Seq::empty(),
                seq!["/Applications/VNC Viewer.app"@, "~/Applications/VNC Viewer.app"@],
            ),
            _ => (
                seq!["VNC Viewer"@, "vncviewer"@, "vncviewer.exe"@],
                seq!["vncviewer.exe"@, "VNCViewer.exe"@],
                seq!["VNC Viewer"@, "vncviewer"@, "vncviewer.exe"@],
                seq![
                    "%PROGRAMFILES%\\RealVNC\\VNC Viewer\\vncviewer.exe"@,
                    "%PROGRAMFILES(X86)%\\RealVNC\\VNC Viewer\\vncviewer.exe"@,
                    "%PROGRAMFILES%\\TightVNC\\vncviewer.exe"@,
                    "%PROGRAMFILES(X86)%\\TightVNC\\vncviewer.exe"@,
                    "%PROGRAMFILES%\\UltraVNC\\vncviewer.exe"@,
                    "%PROGRAMFILES(X86)%\\UltraVNC\\vncviewer.exe"@,
                    "%LOCALAPPDATA%\\Programs\\RealVNC\\VNC Viewer\\vncviewer.exe"@,
                ],
            ),
        },
        ToolKind::RustDesk => match platform {
            Platform::Windows => (
                seq!["RustDesk"@, "RustDesk.exe"@, "rustdesk"@, "rustdesk.exe"@],
                seq!["RustDesk.exe"@, "rustdesk.exe"@],
                seq!["RustDesk"@, "RustDesk.exe"@, "rustdesk"@],
                seq![
                    "%PROGRAMFILES%\\RustDesk\\RustDesk.exe"@,
                    "%PROGRAMFILES(X86)%\\RustDesk\\RustDesk.exe"@,
                    "%LOCALAPPDATA%\\Programs\\RustDesk\\RustDesk.exe"@,
                    "%LOCALAPPDATA%\\RustDesk\\RustDesk.exe"@,
                ],
            ),
            Platform::MacOs => (
                seq!["rustdesk"@],
                Seq::empty(),
                Seq::empty(),
                seq!["/Applications/RustDesk.app"@, "~/Applications/RustDesk.app"@],
            ),
            _ => (seq!["rustdesk"@], Seq::empty(), Seq::empty(), Seq::empty()),
        },
    }
}

fn search_of(path: &[&str], registry: &[&str], shortcut: &[&str], common: &[&str]) -> (r:
    ToolSearch)
    ensures
        search_view(r) == (
            path@.map_values(|s: &str| s@),
            registry@.map_values(|s: &str| s@),
            shortcut@.map_values(|s: &str| s@),
            common@.map_values(|s: &str| s@),
        ),
{
    let r = ToolSearch {
        path_names: owned_strings(path),
        registry_names: owned_strings(registry),
        shortcut_names: owned_strings(shortcut),
        common_paths: owned_strings(common),
    };
    assert(texts(r.path_names@) =~= path@.map_values(|s: &str| s@));
    assert(texts(r.registry_names@) =~= registry@.map_values(|s: &str| s@));
    assert(texts(r.shortcut_names@) =~= shortcut@.map_values(|s: &str| s@));
    assert(texts(r.common_paths@) =~= common@.map_values(|s: &str| s@));
    r
}

/// Where VS Code is looked for on `platform`.
pub fn find_vscode(platform: Platform) -> (r: ToolSearch)
    ensures
        search_view(r) == tool_search_spec(ToolKind::Vscode, platform),
{
    let r = match platform {
        Platform::Windows => search_of(
            &["Code.exe", "code.cmd", "code"],
            &["Code.exe", "code.cmd"],
            &["Visual Studio Code", "Code", "Code.exe", "code.cmd"],
            &[
                "%LOCALAPPDATA%\\Programs\\Microsoft VS Code\\Code.exe",
                "%PROGRAMFILES%\\Microsoft VS Code\\Code.exe",
                "%LOCALAPPDATA%\\Programs\\Microsoft VS Code\\bin\\code.cmd",
                "%PROGRAMFILES%\\Microsoft VS Code\\bin\\code.cmd",
                "%PROGRAMFILES(X86)%\\Microsoft VS Code\\bin\\code.cmd",
            ],
        ),
        Platform::MacOs => search_of(
            &["code"],
            &[],
            &[],
            &["/Applications/Visual Studio Code.app", "~/Applications/Visual Studio Code.app"],
        ),
        _ => search_of(&["code"], &[], &[], &[]),
    };
    proof {
        let v = search_view(r);
        let t = tool_search_spec(ToolKind::Vscode, platform);
        assert(v.0 =~= t.0);
        assert(v.1 =~= t.1);
        assert(v.2 =~= t.2);
        assert(v.3 =~= t.3);
    }
    r
}

/// Where MobaXterm is looked for.
pub fn find_mobaxterm(platform: Platform) -> (r: ToolSearch)
    ensures
        search_view(r) == tool_search_spec(ToolKind::Mobaxterm, platform),
{
    let r = search_of(
        &["MobaXterm", "MobaXterm.exe", "MobaXterm_Personal.exe"],
        &["MobaXterm.exe", "MobaXterm_Personal.exe", "MobaXterm"],
        &["MobaXterm", "MobaXterm.exe", "MobaXterm_Personal.exe"],
        &[
            "%PROGRAMFILES%\\Mobatek\\MobaXterm\\MobaXterm.exe",
            "%PROGRAMFILES(X86)%\\Mobatek\\MobaXterm\\MobaXterm.exe",
            "%LOCALAPPDATA%\\Programs\\Mobatek\\MobaXterm\\MobaXterm.exe",
            "C:\\Program Files\\Mobatek\\MobaXterm Personal Edition\\MobaXterm_Personal.exe",
            "C:\\Program Files (x86)\\Mobatek\\MobaXterm Personal Edition\\MobaXterm_Personal.exe",
            "%PROGRAMFILES%\\Mobatek\\MobaXterm Personal Edition\\MobaXterm_Personal.exe",
            "%PROGRAMFILES(X86)%\\Mobatek\\MobaXterm Personal Edition\\MobaXterm_Personal.exe",
        ],
    );
    proof {
        let v = search_view(r);
        let t = tool_search_spec(ToolKind::Mobaxterm, platform);
        assert(v.0 =~= t.0);
        assert(v.1 =~= t.1);
        assert(v.2 =~= t.2);
        assert(v.3 =~= t.3);
    }
    r
}

/// Where VNC Viewer is looked for on `platform`.
pub fn find_vncviewer(platform: Platform) -> (r: ToolSearch)
    ensures
        search_view(r) == tool_search_spec(ToolKind::VncViewer, platform),
{
    let r = match platform {
        Platform::MacOs => search_of(
            &["vncviewer"],
            &[],
            &[],
            &["/Applications/VNC Viewer.app", "~/Applications/VNC Viewer.app"],
        ),
        _ => search_of(
            &["VNC Viewer", "vncviewer", "vncviewer.exe"],
            &["vncviewer.exe", "VNCViewer.exe"],
            &["VNC Viewer", "vncviewer", "vncviewer.exe"],
            &[
                "%PROGRAMFILES%\\RealVNC\\VNC Viewer\\vncviewer.exe",
                "%PROGRAMFILES(X86)%\\RealVNC\\VNC Viewer\\vncviewer.exe",
                "%PROGRAMFILES%\\TightVNC\\vncviewer.exe",
                "%PROGRAMFILES(X86)%\\TightVNC\\vncviewer.exe",
                "%PROGRAMFILES%\\UltraVNC\\vncviewer.exe",
                "%PROGRAMFILES(X86)%\\UltraVNC\\vncviewer.exe",
                "%LOCALAPPDATA%\\Programs\\RealVNC\\VNC Viewer\\vncviewer.exe",
            ],
        ),
    };
    proof {
        let v = search_view(r);
        let t = tool_search_spec(ToolKind::VncViewer, platform);
        assert(v.0 =~= t.0);
        assert(v.1 =~= t.1);
        assert(v.2 =~= t.2);
        assert(v.3 =~= t.3);
    }
    r
}

/// Where RustDesk is looked for on `platform`.
pub fn find_rustdesk(platform: Platform) -> (r: ToolSearch)
    ensures
        search_view(r) == tool_search_spec(ToolKind::RustDesk, platform),
{
    let r = match platform {
        Platform::Windows => search_of(
            &["RustDesk", "RustDesk.exe", "rustdesk", "rustdesk.exe"],
            &["RustDesk.exe", "rustdesk.exe"],
            &["RustDesk", "RustDesk.exe", "rustdesk"],
            &[
                "%PROGRAMFILES%\\RustDesk\\RustDesk.exe",
                "%PROGRAMFILES(X86)%\\RustDesk\\RustDesk.exe",
                "%LOCALAPPDATA%\\Programs\\RustDesk\\RustDesk.exe",
                "%LOCALAPPDATA%\\RustDesk\\RustDesk.exe",
            ],
        ),
        Platform::MacOs => search_of(
            &["rustdesk"],
            &[],
            &[],
            &["/Applications/RustDesk.app", "~/Applications/RustDesk.app"],
        ),
        _ => search_of(&["rustdesk"], &[], &[], &[]),
    };
    proof {
        let v = search_view(r);
        let t = tool_search_spec(ToolKind::RustDesk, platform);
        assert(v.0 =~= t.0);
        assert(v.1 =~= t.1);
        assert(v.2 =~= t.2);
        assert(v.3 =~= t.3);
    }
    r
}

/// Where `tool` is looked for on `platform`.
pub fn find_tool(tool: ToolKind, platform: Platform) -> (r: ToolSearch)
    ensures
        search_view(r) == tool_search_spec(tool, platform),
{
    match tool {
        ToolKind::Vscode => find_vscode(platform),
        ToolKind::Mobaxterm => find_mobaxterm(platform),
        ToolKind::VncViewer => find_vncviewer(platform),
        ToolKind::RustDesk => find_rustdesk(platform),
    }
}

/// Whether a file name has an extension: a dot after its first character.
pub open spec fn has_extension(name: Seq<char>) -> bool {
    exists|i: int| 0 < i < name.len() && #[trigger] name[i] == '.'
}

fn has_extension_exec(name: &[char]) -> (r: bool)
    ensures
        r == has_extension(name@),
{
    let mut i: usize = 1;
    while i < name.len()
        invariant
            1 <= i,
            forall|k: int| 0 < k < i && k < name@.len() ==> name@[k] != '.',
        decreases name@.len() - i,
    {
        if name[i] == '.' {
            assert(name@[i as int] == '.');
            return true;
        }
        i = i + 1;
    }
    false
}

/// The file names tried for `name` in one directory: the name itself, then, where it has no
/// extension, the name with each executable extension.
pub open spec fn name_variants(name: Seq<char>, exts: Seq<Seq<char>>) -> Seq<Seq<char>> {
    if has_extension(name) {
        seq![name]
    } else {
        seq![name] + exts.map_values(|e: Seq<char>| name + e)
    }
}

/// The files tried in one directory, as pairs of the directory and a file name, in order.
pub open spec fn dir_candidates(dir: Seq<char>, names: Seq<Seq<char>>, exts: Seq<Seq<char>>) -> Seq<
    (Seq<char>, Seq<char>),
>
    decreases names.len(),
{
    if names.len() == 0 {
        Seq::empty()
    } else {
        dir_candidates(dir, names.drop_last(), exts) + name_variants(names.last(), exts).map_values(
            |v: Seq<char>| (dir, v),
        )
    }
}

/// The files tried on `PATH`, directory by directory, as pairs of the directory and a file
/// name, in order.
pub open spec fn path_search_spec(
    dirs: Seq<Seq<char>>,
    names: Seq<Seq<char>>,
    exts: Seq<Seq<char>>,
) -> Seq<(Seq<char>, Seq<char>)>
    decreases dirs.len(),
{
    if dirs.len() == 0 {
        Seq::empty()
    } else {
        path_search_spec(dirs.drop_last(), names, exts) + dir_candidates(dirs.last(), names, exts)
    }
}

/// A directory and a file name, as plain text.
pub open spec fn pair_view(p: (String, String)) -> (Seq<char>, Seq<char>) {
    (p.0@, p.1@)
}

fn push_variants(
    out: &mut Vec<(String, String)>,
    dir: &String,
    name: &String,
    exts: &Vec<String>,
)
    ensures
        final(out)@.map_values(|p: (String, String)| pair_view(p)) == old(out)@.map_values(
            |p: (String, String)| pair_view(p),
        ) + name_variants(name@, texts(exts@)).map_values(|v: Seq<char>| (dir@, v)),
{
    let ghost start = out@.map_values(|p: (String, String)| pair_view(p));
    out.push((dir.clone(), name.clone()));
    let n = to_chars(name.as_str());
    let ghost variants = name_variants(name@, texts(exts@)).map_values(|v: Seq<char>| (dir@, v));
    if !has_extension_exec(&n) {
        let mut k: usize = 0;
        while k < exts.len()
            invariant
                k <= exts@.len(),
                !has_extension(name@),
                out@.map_values(|p: (String, String)| pair_view(p)) == start + variants.take(
                    k + 1,
                ),
                variants == name_variants(name@, texts(exts@)).map_values(
                    |v: Seq<char>| (dir@, v),
                ),
                variants.len() == exts@.len() + 1,
            decreases exts@.len() - k,
        {
            let mut full = name.clone();
            append_str(&mut full, exts[k].as_str());
            let ghost before = out@.map_values(|p: (String, String)| pair_view(p));
            out.push((dir.clone(), full));
            assert(variants[k + 1] == (dir@, name@ + exts@[k as int]@));
            assert(variants.take(k + 2) =~= variants.take(k + 1).push(variants[k + 1]));
            assert(out@.map_values(|p: (String, String)| pair_view(p)) =~= before.push(
                variants[k + 1],
            ));
            k = k + 1;
        }
        assert(variants.take(exts@.len() + 1int) =~= variants);
    } else {
        assert(variants =~= seq![(dir@, name@)]);
    }
    assert(out@.map_values(|p: (String, String)| pair_view(p)) =~= start + variants);
}

/// The files tried when a tool is looked for on `PATH`: for each directory in turn, each name,
/// and, for a name without extension, that name with each executable extension; as pairs of
/// the directory and the file name that the caller joins.
pub fn search_path_candidates(dirs: &Vec<String>, names: &Vec<String>, exts: &Vec<String>) -> (r:
    Vec<(String, String)>)
    ensures
        r@.map_values(|p: (String, String)| pair_view(p)) == path_search_spec(
            texts(dirs@),
            texts(names@),
            texts(exts@),
        ),
{
    let mut out: Vec<(String, String)> = Vec::new();
    let ghost ns = texts(names@);
    let ghost es = texts(exts@);
    let mut i: usize = 0;
    assert(texts(dirs@).take(0) =~= Seq::<Seq<char>>::empty());
    while i < dirs.len()
        invariant
            i <= dirs@.len(),
            ns == texts(names@),
            es == texts(exts@),
            out@.map_values(|p: (String, String)| pair_view(p)) == path_search_spec(
                texts(dirs@).take(i as int),
                ns,
                es,
            ),
        decreases dirs@.len() - i,
    {
        let ghost base = out@.map_values(|p: (String, String)| pair_view(p));
        let mut j: usize = 0;
        assert(ns.take(0) =~= Seq::<Seq<char>>::empty());
        assert(base + dir_candidates(dirs@[i as int]@, ns.take(0), es) =~= base);
        while j < names.len()
            invariant
                i < dirs@.len(),
                j <= names@.len(),
                ns == texts(names@),
                es == texts(exts@),
                out@.map_values(|p: (String, String)| pair_view(p)) == base + dir_candidates(
                    dirs@[i as int]@,
                    ns.take(j as int),
                    es,
                ),
            decreases names@.len() - j,
        {
            let ghost mid = out@.map_values(|p: (String, String)| pair_view(p));
            push_variants(&mut out, &dirs[i], &names[j], exts);
            assert(ns.take(j + 1).drop_last() =~= ns.take(j as int));
            assert(ns.take(j + 1).last() == names@[j as int]@);
            j = j + 1;
        }
        assert(ns.take(names@.len() as int) =~= ns);
        assert(texts(dirs@).take(i + 1).drop_last() =~= texts(dirs@).take(i as int));
        assert(texts(dirs@).take(i + 1).last() == dirs@[i as int]@);
        i = i + 1;
    }
    assert(texts(dirs@).take(dirs@.len() as int) =~= texts(dirs@));
    out
}

/// The executable extensions listed in the parts of `PATHEXT`: each part that is not blank,
/// in ASCII lowercase.
pub open spec fn listed_exts(parts: Seq<Seq<char>>) -> Seq<Seq<char>>
    decreases parts.len(),
{
    if parts.len() == 0 {
        Seq::empty()
    } else if crate::text::trim(parts.last()).len() > 0 {
        listed_exts(parts.drop_last()).push(crate::text::lower(parts.last()))
    } else {
        listed_exts(parts.drop_last())
    }
}

/// The executable extensions tried for a name without one: those that `PATHEXT` lists, or
/// `.exe`, `.cmd` and `.bat` where it is unset or lists none.
pub open spec fn path_exts(pathext: Option<Seq<char>>) -> Seq<Seq<char>> {
    let listed = match pathext {
        Some(v) => listed_exts(crate::text::split_on(v, ';')),
        None => Seq::empty(),
    };
    if listed.len() > 0 {
        listed
    } else {
        seq![".exe"@, ".cmd"@, ".bat"@]
    }
}

/// The executable extensions tried for a name without one, from the value of `PATHEXT`.
pub fn windows_path_exts(pathext: Option<&str>) -> (r: Vec<String>)
    ensures
        texts(r@) == path_exts(
            match pathext {
                Some(v) => Some(v@),
                None => None,
            },
        ),
{
    let mut out: Vec<String> = Vec::new();
    match pathext {
        Some(v) => {
            let chars = to_chars(v);
            let parts = crate::text::split_on_chars(&chars, ';');
            let ghost ps = crate::text::views(parts@);
            let mut i: usize = 0;
            assert(texts(out@) =~= listed_exts(ps.take(0)));
            while i < parts.len()
                invariant
                    i <= parts@.len(),
                    ps == crate::text::views(parts@),
                    texts(out@) == listed_exts(ps.take(i as int)),
                decreases parts@.len() - i,
            {
                let t = crate::text::trim_chars(&parts[i]);
                assert(ps.take(i + 1).drop_last() =~= ps.take(i as int));
                assert(ps.take(i + 1).last() == parts@[i as int]@);
                if t.len() > 0 {
                    let l = crate::text::lower_chars(&parts[i]);
                    let ghost before = texts(out@);
                    out.push(from_chars(&l));
                    assert(texts(out@) =~= before.push(crate::text::lower(parts@[i as int]@)));
                }
                i = i + 1;
            }
            assert(ps.take(parts@.len() as int) =~= ps);
        },
        None => {},
    }
    if out.len() == 0 {
        let r = owned_strings(&[".exe", ".cmd", ".bat"]);
        assert(texts(r@) =~= seq![".exe"@, ".cmd"@, ".bat"@]);
        r
    } else {
        out
    }
}

/// `s` with every occurrence of `pat`, taken from left to right without overlap, replaced by
/// `with`, as `str::replace` does it.
pub open spec fn replace_all(s: Seq<char>, pat: Seq<char>, with: Seq<char>) -> Seq<char>
    recommends
        pat.len() > 0,
    decreases s.len(),
{
    if s.len() == 0 || pat.len() == 0 {
        s
    } else if pat.len() <= s.len() && s.take(pat.len() as int) == pat {
        with + replace_all(s.skip(pat.len() as int), pat, with)
    } else {
        seq![s[0]] + replace_all(s.drop_first(), pat, with)
    }
}

/// `s` with every occurrence of `pat` replaced by `with`.
pub fn replace_all_exec(s: &str, pat: &str, with: &str) -> (r: String)
    requires
        pat@.len() > 0,
    ensures
        r@ == replace_all(s@, pat@, with@),
{
    let v = to_chars(s);
    let p = to_chars(pat);
    let w = to_chars(with);
    let mut out: Vec<char> = Vec::new();
    let mut i: usize = 0;
    assert(v@.skip(0) =~= v@);
    assert(out@ + replace_all(v@, p@, w@) =~= replace_all(v@, p@, w@));
    while i < v.len()
        invariant
            i <= v@.len(),
            p@ == pat@,
            p@.len() > 0,
            out@ + replace_all(v@.skip(i as int), p@, w@) == replace_all(v@, p@, w@),
        decreases v@.len() - i,
    {
        let ghost rest = v@.skip(i as int);
        let mut matched = p.len() <= v.len() - i;
        let mut k: usize = 0;
        while matched && k < p.len()
            invariant
                i < v@.len(),
                v@.len() <= usize::MAX,
                matched ==> p@.len() <= v@.len() - i,
                k <= p@.len(),
                matched ==> forall|t: int| 0 <= t < k ==> v@[i + t] == p@[t],
                !matched ==> !(p@.len() <= rest.len() && rest.take(p@.len() as int) == p@),
                rest == v@.skip(i as int),
            decreases p@.len() - k,
        {
            if v[i + k] != p[k] {
                assert(rest.take(p@.len() as int)[k as int] == v@[i + k]);
                matched = false;
                k = p.len();
            } else {
                k = k + 1;
            }
        }
        if matched {
            assert(rest.take(p@.len() as int) =~= p@) by {
                assert forall|t: int| 0 <= t < p@.len() implies rest.take(p@.len() as int)[t]
                    == p@[t] by {
                    assert(rest[t] == v@[i + t]);
                }
            }
            assert(rest.skip(p@.len() as int) =~= v@.skip(i + p@.len()));
            let ghost before = out@;
            let mut q: usize = 0;
            while q < w.len()
                invariant
                    q <= w@.len(),
                    out@ == before + w@.take(q as int),
                decreases w@.len() - q,
            {
                out.push(w[q]);
                q = q + 1;
                assert(out@ =~= before + w@.take(q as int));
            }
            assert(w@.take(w@.len() as int) =~= w@);
            assert(out@ + replace_all(v@.skip(i + p@.len()), p@, w@) =~= before + (w@ + replace_all(
                rest.skip(p@.len() as int),
                p@,
                w@,
            )));
            i = i + p.len();
        } else {
            let ghost before = out@;
            out.push(v[i]);
            assert(rest.drop_first() =~= v@.skip(i + 1));
            assert(rest[0] == v@[i as int]);
            assert(out@ + replace_all(v@.skip(i + 1), p@, w@) =~= before + (seq![rest[0]]
                + replace_all(rest.drop_first(), p@, w@)));
            i = i + 1;
        }
    }
    assert(v@.skip(v@.len() as int) =~= Seq::<char>::empty());
    assert(out@ + Seq::<char>::empty() =~= out@);
    from_chars(&out)
}

/// A fixed path with the values of `LOCALAPPDATA`, `PROGRAMFILES` and `PROGRAMFILES(X86)`, where
/// they are set, put in place of `%LOCALAPPDATA%`, `%PROGRAMFILES%` and `%PROGRAMFILES(X86)%`.
pub open spec fn expanded(
    value: Seq<char>,
    local_app_data: Option<Seq<char>>,
    program_files: Option<Seq<char>>,
    program_files_x86: Option<Seq<char>>,
) -> Seq<char> {
    let a = match local_app_data {
        Some(v) => replace_all(value, "%LOCALAPPDATA%"@, v),
        None => value,
    };
    let b = match program_files {
        Some(v) => replace_all(a, "%PROGRAMFILES%"@, v),
        None => a,
    };
    match program_files_x86 {
        Some(v) => replace_all(b, "%PROGRAMFILES(X86)%"@, v),
        None => b,
    }
}

/// A fixed path with the environment's values put in place of its variables.
pub fn expand_windows_env(
    value: &str,
    local_app_data: Option<&str>,
    program_files: Option<&str>,
    program_files_x86: Option<&str>,
) -> (r: String)
    ensures
        r@ == expanded(
            value@,
            match local_app_data {
                Some(v) => Some(v@),
                None => None,
            },
            match program_files {
                Some(v) => Some(v@),
                None => None,
            },
            match program_files_x86 {
                Some(v) => Some(v@),
                None => None,
            },
        ),
{
    proof {
        reveal_strlit("%LOCALAPPDATA%");
        reveal_strlit("%PROGRAMFILES%");
        reveal_strlit("%PROGRAMFILES(X86)%");
    }
    let a = match local_app_data {
        Some(v) => replace_all_exec(value, "%LOCALAPPDATA%", v),
        None => value.to_owned(),
    };
    let b = match program_files {
        Some(v) => replace_all_exec(a.as_str(), "%PROGRAMFILES%", v),
        None => a,
    };
    match program_files_x86 {
        Some(v) => replace_all_exec(b.as_str(), "%PROGRAMFILES(X86)%", v),
        None => b,
    }
}

/// What is said when no program of `tool` was found: on Windows, to pick the program; on
/// macOS and other systems, which ways of finding it there are.
pub open spec fn unresolved_notice_text(tool: ToolKind, platform: Platform) -> Seq<char> {
    let label = tool_label(tool);
    match platform {
        Platform::Windows => "未找到 "@ + label + " 可执行文件，请选择安装路径后重试。"@,
        _ => path_boundary_text(tool, platform),
    }
}

/// What is said on a system without a program picker when no program of `tool` was found.
pub open spec fn path_boundary_text(tool: ToolKind, platform: Platform) -> Seq<char> {
    let label = tool_label(tool);
    match platform {
        Platform::MacOs => "未找到 "@ + label
            + " 可执行文件。macOS 目前支持已保存路径、PATH 自动发现，以及 /Applications 或 ~/Applications 下常见 .app 应用包自动发现，暂不提供原生路径选择器。请将 "@
            + label
            + " 加入 PATH，或在 ~/.lanscanner/config.json 的 app_paths 中预先配置可执行文件或 .app 路径后重试。"@,
        _ => "未找到 "@ + label
            + " 可执行文件。Linux/macOS MVP 仅支持已保存路径或 PATH 自动发现，暂不提供原生路径选择器。请将 "@
            + label + " 加入 PATH，或在 ~/.lanscanner/config.json 的 app_paths 中预先配置路径后重试。"@,
    }
}

/// What is said on a system without a program picker when no program of `tool` was found.
pub fn non_windows_path_boundary_notice(tool: ToolKind, platform: Platform) -> (r: String)
    ensures
        r@ == path_boundary_text(tool, platform),
{
    let label = tool.label();
    let mut out = "未找到 ".to_owned();
    append_str(&mut out, label);
    match platform {
        Platform::MacOs => {
            append_str(
                &mut out,
                " 可执行文件。macOS 目前支持已保存路径、PATH 自动发现，以及 /Applications 或 ~/Applications 下常见 .app 应用包自动发现，暂不提供原生路径选择器。请将 ",
            );
            append_str(&mut out, label);
            append_str(
                &mut out,
                " 加入 PATH，或在 ~/.lanscanner/config.json 的 app_paths 中预先配置可执行文件或 .app 路径后重试。",
            );
        },
        _ => {
            append_str(
                &mut out,
                " 可执行文件。Linux/macOS MVP 仅支持已保存路径或 PATH 自动发现，暂不提供原生路径选择器。请将 ",
            );
            append_str(&mut out, label);
            append_str(
                &mut out,
                " 加入 PATH，或在 ~/.lanscanner/config.json 的 app_paths 中预先配置路径后重试。",
            );
        },
    }
    out
}

/// What is said when no program of `tool` was found.
pub fn unresolved_tool_path_notice(tool: ToolKind, platform: Platform) -> (r: String)
    ensures
        r@ == unresolved_notice_text(tool, platform),
{
    match platform {
        Platform::Windows => {
            let mut out = "未找到 ".to_owned();
            append_str(&mut out, tool.label());
            append_str(&mut out, " 可执行文件，请选择安装路径后重试。");
            out
        },
        _ => non_windows_path_boundary_notice(tool, platform),
    }
}

} // verus!
