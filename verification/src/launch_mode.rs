//! The command line of the application: a normal start, or the visual check of chosen scenes.
use vstd::prelude::*;
use crate::text::{append_str, chars_eq_str, from_chars, is_ws, lower, lower_chars, str_eq, to_chars, trim, trim_end, trim_start, trimmed};
use crate::store::{path_join, join_path};
use crate::credential::{Credential, find_by_username};
use crate::docker::{Container, container_view, container_views};
use crate::network::{InterfaceType, NetworkInterface, iface_view, iface_views};
use crate::scanner::{Device, DeviceIdentityKind, DeviceType, default_device, default_device_id, device_view, device_views};
use crate::ssh_auth::DeviceStatus;
use crate::platform::AppLanguage;

verus! {

/// The screens that the visual check renders.
#[derive(Debug, Clone, Copy, PartialEq, Eq)]
pub enum VisualScene {
    Idle,
    DarkMode,
    Scanning,
    Verifying,
    SelectedDevice,
    NetworkDropdown,
    UserDropdown,
    RustDeskCredential,
    HelpModal,
    HelpModalDark,
    DockerModal,
    CredentialModal,
    CredentialEditing,
}

/// Every scene, in the order the visual check renders them.
pub open spec fn all_scenes() -> Seq<VisualScene> {
    seq![
        VisualScene::Idle,
        VisualScene::DarkMode,
        VisualScene::Scanning,
        VisualScene::Verifying,
        VisualScene::SelectedDevice,
        VisualScene::NetworkDropdown,
        VisualScene::UserDropdown,
        VisualScene::RustDeskCredential,
        VisualScene::HelpModal,
        VisualScene::HelpModalDark,
        VisualScene::DockerModal,
        VisualScene::CredentialModal,
        VisualScene::CredentialEditing,
    ]
}

/// The name of a scene on the command line.
pub open spec fn scene_name(s: VisualScene) -> Seq<char> {
    match s {
        VisualScene::Idle => "idle"@,
        VisualScene::DarkMode => "dark-mode"@,
        VisualScene::Scanning => "scanning"@,
        VisualScene::Verifying => "verifying"@,
        VisualScene::SelectedDevice => "selected-device"@,
        VisualScene::NetworkDropdown => "network-dropdown"@,
        VisualScene::UserDropdown => "user-dropdown"@,
        VisualScene::RustDeskCredential => "rustdesk-credential"@,
        VisualScene::HelpModal => "help-modal"@,
        VisualScene::HelpModalDark => "help-modal-dark"@,
        VisualScene::DockerModal => "docker-modal"@,
        VisualScene::CredentialModal => "credential-modal"@,
        VisualScene::CredentialEditing => "credential-editing"@,
    }
}

/// The first scene from index `i` on whose name is `n`.
pub open spec fn scene_from(n: Seq<char>, i: nat) -> Option<VisualScene>
    decreases 13 - i,
{
    if i >= 13 {
        None
    } else if scene_name(all_scenes()[i as int]) == n {
        Some(all_scenes()[i as int])
    } else {
        scene_from(n, i + 1)
    }
}

/// The scene whose name is `v` once trimmed and in ASCII lowercase.
pub open spec fn parsed_scene(v: Seq<char>) -> Option<VisualScene> {
    scene_from(lower(trim(v)), 0)
}

impl VisualScene {
    /// The scenes that show the help guide.
    pub fn is_help(&self) -> (r: bool)
        ensures
            r == (*self == VisualScene::HelpModal || *self == VisualScene::HelpModalDark),
    {
        match self {
            VisualScene::HelpModal | VisualScene::HelpModalDark => true,
            _ => false,
        }
    }

    /// The file that a scene's screenshot is written to.
    pub fn file_name(self) -> (r: &'static str)
        ensures
            r@ == scene_name(self) + ".png"@,
    {
        proof {
            reveal_strlit(".png");
            reveal_strlit("idle");
            reveal_strlit("idle.png");
            reveal_strlit("dark-mode");
            reveal_strlit("dark-mode.png");
            reveal_strlit("scanning");
            reveal_strlit("scanning.png");
            reveal_strlit("verifying");
            reveal_strlit("verifying.png");
            reveal_strlit("selected-device");
            reveal_strlit("selected-device.png");
            reveal_strlit("network-dropdown");
            reveal_strlit("network-dropdown.png");
            reveal_strlit("user-dropdown");
            reveal_strlit("user-dropdown.png");
            reveal_strlit("rustdesk-credential");
            reveal_strlit("rustdesk-credential.png");
            reveal_strlit("help-modal");
            reveal_strlit("help-modal.png");
            reveal_strlit("help-modal-dark");
            reveal_strlit("help-modal-dark.png");
            reveal_strlit("docker-modal");
            reveal_strlit("docker-modal.png");
            reveal_strlit("credential-modal");
            reveal_strlit("credential-modal.png");
            reveal_strlit("credential-editing");
            reveal_strlit("credential-editing.png");
        }
        let r = match self {
            VisualScene::Idle => "idle.png",
            VisualScene::DarkMode => "dark-mode.png",
            VisualScene::Scanning => "scanning.png",
            VisualScene::Verifying => "verifying.png",
            VisualScene::SelectedDevice => "selected-device.png",
            VisualScene::NetworkDropdown => "network-dropdown.png",
            VisualScene::UserDropdown => "user-dropdown.png",
            VisualScene::RustDeskCredential => "rustdesk-credential.png",
            VisualScene::HelpModal => "help-modal.png",
            VisualScene::HelpModalDark => "help-modal-dark.png",
            VisualScene::DockerModal => "docker-modal.png",
            VisualScene::CredentialModal => "credential-modal.png",
            VisualScene::CredentialEditing => "credential-editing.png",
        };
        assert(r@ =~= scene_name(self) + ".png"@);
        r
    }

    /// Every scene, in the order the visual check renders them.
    pub fn minimal_set() -> (r: Vec<VisualScene>)
        ensures
            r@ == all_scenes(),
    {
        let r = vec![
            VisualScene::Idle,
            VisualScene::DarkMode,
            VisualScene::Scanning,
            VisualScene::Verifying,
            VisualScene::SelectedDevice,
            VisualScene::NetworkDropdown,
            VisualScene::UserDropdown,
            VisualScene::RustDeskCredential,
            VisualScene::HelpModal,
            VisualScene::HelpModalDark,
            VisualScene::DockerModal,
            VisualScene::CredentialModal,
            VisualScene::CredentialEditing,
        ];
        assert(r@ =~= all_scenes());
        r
    }

    /// The scene named by `value`, ignoring surrounding whitespace and ASCII case.
    pub fn parse(value: &str) -> (r: Option<VisualScene>)
        ensures
            r == parsed_scene(value@),
    {
        let t = trimmed(value);
        let n = lower_chars(&t);
        let scenes = VisualScene::minimal_set();
        let mut i: usize = 0;
        while i < scenes.len()
            invariant
                i <= scenes@.len(),
                scenes@ == all_scenes(),
                n@ == lower(trim(value@)),
                parsed_scene(value@) == scene_from(n@, i as nat),
            decreases scenes@.len() - i,
        {
            let s = scenes[i];
            let name = s.name();
            if chars_eq_str(&n, name) {
                return Some(s);
            }
            i = i + 1;
        }
        None
    }

    /// The name of the scene on the command line.
    pub fn name(self) -> (r: &'static str)
        ensures
            r@ == scene_name(self),
    {
        match self {
            VisualScene::Idle => "idle",
            VisualScene::DarkMode => "dark-mode",
            VisualScene::Scanning => "scanning",
            VisualScene::Verifying => "verifying",
            VisualScene::SelectedDevice => "selected-device",
            VisualScene::NetworkDropdown => "network-dropdown",
            VisualScene::UserDropdown => "user-dropdown",
            VisualScene::RustDeskCredential => "rustdesk-credential",
            VisualScene::HelpModal => "help-modal",
            VisualScene::HelpModalDark => "help-modal-dark",
            VisualScene::DockerModal => "docker-modal",
            VisualScene::CredentialModal => "credential-modal",
            VisualScene::CredentialEditing => "credential-editing",
        }
    }
}

/// Every scene's screenshot file name, without its `.png`, parses back as that scene: the
/// name is what `VisualScene::parse` reads, and `VisualScene::file_name` is the name and
/// `.png`.
pub proof fn lemma_scene_name_parses_back(scene: VisualScene)
    ensures
        parsed_scene(scene_name(scene)) == Some(scene),
        ({
            let file = scene_name(scene) + ".png"@;
            parsed_scene(file.take(file.len() - 4)) == Some(scene)
        }),
{
    reveal_strlit("idle");
    reveal_strlit("dark-mode");
    reveal_strlit("scanning");
    reveal_strlit("verifying");
    reveal_strlit("selected-device");
    reveal_strlit("network-dropdown");
    reveal_strlit("user-dropdown");
    reveal_strlit("rustdesk-credential");
    reveal_strlit("help-modal");
    reveal_strlit("help-modal-dark");
    reveal_strlit("docker-modal");
    reveal_strlit("credential-modal");
    reveal_strlit("credential-editing");
    reveal_strlit(".png");
    lemma_plain_name(scene_name(scene));
    reveal_with_fuel(scene_from, 14);
    let file = scene_name(scene) + ".png"@;
    assert(file.take(file.len() - 4) =~= scene_name(scene));
}


/// What the visual check renders, and where.
#[derive(Debug, Clone)]
pub struct VisualCheckConfig {
    pub scenes: Vec<VisualScene>,
    pub output_dir: String,
}

/// The message for a scene argument that names no scene.
pub open spec fn invalid_scene_message(arg: Seq<char>) -> Seq<char> {
    "invalid scene `"@ + arg
        + "`; expected idle|dark-mode|scanning|verifying|selected-device|network-dropdown|user-dropdown|rustdesk-credential|help-modal|help-modal-dark|docker-modal|credential-modal|credential-editing|all"@
}

impl VisualCheckConfig {
    /// Whether a scene needs the larger window of the help guide.
    pub fn needs_large_window(&self) -> (r: bool)
        ensures
            r == exists|i: int|
                0 <= i < self.scenes@.len() && (self.scenes@[i] == VisualScene::HelpModal
                    || self.scenes@[i] == VisualScene::HelpModalDark),
    {
        let mut i: usize = 0;
        while i < self.scenes.len()
            invariant
                i <= self.scenes@.len(),
                forall|j: int|
                    0 <= j < i ==> !(self.scenes@[j] == VisualScene::HelpModal || self.scenes@[j]
                        == VisualScene::HelpModalDark),
            decreases self.scenes@.len() - i,
        {
            if self.scenes[i].is_help() {
                return true;
            }
            i = i + 1;
        }
        false
    }

    /// The configuration for a scene argument: `all` in any ASCII case for every scene, else
    /// the one scene it names; the output directory where given, else `.visual-check` under
    /// `cwd`.
    pub fn from_args(scene_arg: &str, output_dir: Option<String>, cwd: &str) -> (r: Result<
        VisualCheckConfig,
        String,
    >)
        ensures
            match r {
                Ok(c) => c.output_dir@ == match output_dir {
                    Some(d) => d@,
                    None => path_join(cwd@, ".visual-check"@),
                } && if lower(scene_arg@) == "all"@ {
                    c.scenes@ == all_scenes()
                } else {
                    parsed_scene(scene_arg@) matches Some(s) && c.scenes@ == seq![s]
                },
                Err(m) => lower(scene_arg@) != "all"@ && parsed_scene(scene_arg@) is None && m@
                    == invalid_scene_message(scene_arg@),
            },
    {
        let v = to_chars(scene_arg);
        let l = lower_chars(&v);
        let scenes = if chars_eq_str(&l, "all") {
            VisualScene::minimal_set()
        } else {
            match VisualScene::parse(scene_arg) {
                Some(s) => {
                    let r = vec![s];
                    assert(r@ =~= seq![s]);
                    r
                },
                None => {
                    let mut m = "invalid scene `".to_owned();
                    append_str(&mut m, scene_arg);
                    append_str(
                        &mut m,
                        "`; expected idle|dark-mode|scanning|verifying|selected-device|network-dropdown|user-dropdown|rustdesk-credential|help-modal|help-modal-dark|docker-modal|credential-modal|credential-editing|all",
                    );
                    return Err(m);
                },
            }
        };
        let dir = match output_dir {
            Some(d) => d,
            None => join_path(cwd, ".visual-check"),
        };
        Ok(VisualCheckConfig { scenes, output_dir: dir })
    }
}

/// How the application starts.
#[derive(Debug, Clone)]
pub enum LaunchMode {
    Normal,
    VisualCheck(VisualCheckConfig),
}

/// What the arguments ask for, read from the first on: the scene after `--visual-check`
/// (the last one given wins), the directory after `--output-dir`.
pub open spec fn scan_args(args: Seq<Seq<char>>) -> Result<(Option<Seq<char>>, Option<Seq<char>>), Seq<char>>
    decreases args.len(),
{
    if args.len() == 0 {
        Ok((None, None))
    } else if args[0] == "--visual-check"@ {
        if args.len() < 2 {
            Err("missing value for --visual-check. usage: --visual-check <scene|all>"@)
        } else {
            match scan_args(args.skip(2)) {
                Ok((s, d)) => Ok((if s is Some { s } else { Some(args[1]) }, d)),
                Err(e) => Err(e),
            }
        }
    } else if args[0] == "--output-dir"@ {
        if args.len() < 2 {
            Err("missing value for --output-dir. usage: --output-dir <path>"@)
        } else {
            match scan_args(args.skip(2)) {
                Ok((s, d)) => Ok((s, if d is Some { d } else { Some(args[1]) })),
                Err(e) => Err(e),
            }
        }
    } else {
        Err("unknown argument `"@ + args[0]
            + "`. expected: --visual-check <scene|all> [--output-dir <path>]"@)
    }
}

/// The launch mode for the command-line arguments after the program name; `cwd` is the
/// current directory, for the default output directory.
pub fn parse_launch_mode(args: &Vec<String>, cwd: &str) -> (r: Result<LaunchMode, String>)
    ensures
        match scan_args(args@.map_values(|a: String| a@)) {
            Err(e) => r matches Err(m) && m@ == e,
            Ok((None, _)) => r matches Ok(LaunchMode::Normal),
            Ok((Some(scene), _)) => (r matches Ok(LaunchMode::VisualCheck(c)) && (lower(scene)
                == "all"@ ==> c.scenes@ == all_scenes())) || (r matches Err(m) && m@
                == invalid_scene_message(scene)),
        },
{
    let ghost av = args@.map_values(|a: String| a@);
    let mut scene: Option<String> = None;
    let mut output_dir: Option<String> = None;
    let mut i: usize = 0;
    assert(av.skip(0) =~= av);
    while i < args.len()
        invariant
            i <= args@.len(),
            av == args@.map_values(|a: String| a@),
            match scan_args(av) {
                Ok((s, d)) => scan_args(av.skip(i as int)) matches Ok((s2, d2)) && s == (if s2 is Some {
                    s2
                } else {
                    crate::credential::opt_view(scene)
                }) && d == (if d2 is Some {
                    d2
                } else {
                    crate::credential::opt_view(output_dir)
                }),
                Err(e) => scan_args(av.skip(i as int)) == Err::<(Option<Seq<char>>, Option<Seq<char>>), Seq<char>>(e),
            },
        decreases args@.len() - i,
    {
        let ghost rest = av.skip(i as int);
        assert(rest[0] == args@[i as int]@);
        if str_eq(args[i].as_str(), "--visual-check") {
            if i + 1 >= args.len() {
                return Err("missing value for --visual-check. usage: --visual-check <scene|all>".to_owned());
            }
            assert(rest[1] == args@[i + 1]@);
            assert(rest.skip(2) =~= av.skip(i + 2));
            scene = Some(args[i + 1].clone());
            i = i + 2;
        } else if str_eq(args[i].as_str(), "--output-dir") {
            if i + 1 >= args.len() {
                return Err("missing value for --output-dir. usage: --output-dir <path>".to_owned());
            }
            assert(rest[1] == args@[i + 1]@);
            assert(rest.skip(2) =~= av.skip(i + 2));
            output_dir = Some(args[i + 1].clone());
            i = i + 2;
        } else {
            let mut m = "unknown argument `".to_owned();
            append_str(&mut m, args[i].as_str());
            append_str(&mut m, "`. expected: --visual-check <scene|all> [--output-dir <path>]");
            return Err(m);
        }
    }
    assert(av.skip(i as int).len() == 0);
    match scene {
        None => Ok(LaunchMode::Normal),
        Some(s) => match VisualCheckConfig::from_args(s.as_str(), output_dir, cwd) {
            Ok(c) => Ok(LaunchMode::VisualCheck(c)),
            Err(m) => Err(m),
        },
    }
}

/// The language a scene is shown in: English for the scenes of verification, the device
/// panel, the drop-downs and the dialogs; Chinese for the others.
pub open spec fn scene_lang(scene: VisualScene) -> AppLanguage {
    if scene == VisualScene::Idle || scene == VisualScene::DarkMode || scene
        == VisualScene::Scanning {
        AppLanguage::Chinese
    } else {
        AppLanguage::English
    }
}

/// The language a scene is shown in.
pub fn scene_language(scene: VisualScene) -> (r: AppLanguage)
    ensures
        r == scene_lang(scene),
{
    match scene {
        VisualScene::Verifying
        | VisualScene::SelectedDevice
        | VisualScene::NetworkDropdown
        | VisualScene::UserDropdown
        | VisualScene::RustDeskCredential
        | VisualScene::HelpModal
        | VisualScene::HelpModalDark
        | VisualScene::DockerModal
        | VisualScene::CredentialModal
        | VisualScene::CredentialEditing => AppLanguage::English,
        _ => AppLanguage::Chinese,
    }
}

/// The user name a scene shows: `preferred` where a credential has it, else the first
/// credential's, else `preferred` itself.
pub open spec fn preferred_name(creds: Seq<Credential>, preferred: Seq<char>) -> Seq<char> {
    if exists|i: int| 0 <= i < creds.len() && creds[i].username@ == preferred {
        preferred
    } else if creds.len() > 0 {
        creds[0].username@
    } else {
        preferred
    }
}

/// The user name a scene shows, given the user name it prefers.
pub fn preferred_username(credentials: &[Credential], preferred: &str) -> (r: Option<String>)
    ensures
        r matches Some(u) && u@ == preferred_name(credentials@, preferred@),
{
    match find_by_username(credentials, preferred) {
        Some(c) => Some(c.username.clone()),
        None => {
            if credentials.len() > 0 {
                Some(credentials[0].username.clone())
            } else {
                Some(preferred.to_owned())
            }
        },
    }
}

/// The password shown for `username`, looking from the credential at `i` on: that of the
/// first credential with that name where it has one, else a sample password.
pub open spec fn password_from(creds: Seq<Credential>, username: Seq<char>, i: int) -> Seq<char>
    decreases creds.len() - i,
{
    if i < 0 || i >= creds.len() {
        "demo-password"@
    } else if creds[i].username@ == username {
        match creds[i].password {
            Some(p) => p@,
            None => "demo-password"@,
        }
    } else {
        password_from(creds, username, i + 1)
    }
}

/// The password a scene shows for `username`.
pub open spec fn password_of(creds: Seq<Credential>, username: Seq<char>) -> Seq<char> {
    password_from(creds, username, 0)
}

/// The password a scene shows for `username`: that of the first credential with that name
/// where it has one, else a sample password.
pub fn password_for(credentials: &[Credential], username: &str) -> (r: Option<String>)
    ensures
        r matches Some(p) && p@ == password_of(credentials@, username@),
{
    let mut i: usize = 0;
    while i < credentials.len()
        invariant
            i <= credentials@.len(),
            password_from(credentials@, username@, 0) == password_from(credentials@, username@, i as int),
        decreases credentials@.len() - i,
    {
        if crate::text::str_eq(credentials[i].username.as_str(), username) {
            return match &credentials[i].password {
                Some(p) => Some(p.clone()),
                None => Some("demo-password".to_owned()),
            };
        }
        i = i + 1;
    }
    Some("demo-password".to_owned())
}

/// The interfaces that the scenes show.
pub open spec fn sample_networks_spec(language: AppLanguage) -> Seq<
    (Seq<char>, Seq<char>, Seq<char>, InterfaceType, Seq<char>),
> {
    seq![
        ("wifi0"@, "Wi-Fi (Home)"@, "192.168.1.0/24"@, InterfaceType::Wifi, "192.168.1.88"@),
        (
            "lan0"@,
            match language {
                AppLanguage::Chinese => "以太网 (Office)"@,
                AppLanguage::English => "Ethernet (Office)"@,
            },
            "10.0.0.0/24"@,
            InterfaceType::Ethernet,
            "10.0.0.23"@,
        ),
        ("docker0"@, "Docker Bridge"@, "172.17.0.0/16"@, InterfaceType::Docker, "172.17.0.1"@),
    ]
}

/// The interfaces that the scenes show, named in `language`.
pub fn sample_networks(language: AppLanguage) -> (r: Vec<NetworkInterface>)
    ensures
        iface_views(r@) == sample_networks_spec(language),
{
    let mut v: Vec<NetworkInterface> = Vec::new();
    v.push(
        NetworkInterface {
            id: "wifi0".to_owned(),
            name: "Wi-Fi (Home)".to_owned(),
            ip_range: "192.168.1.0/24".to_owned(),
            iface_type: InterfaceType::Wifi,
            local_ip: "192.168.1.88".to_owned(),
        },
    );
    let lan_name = match language {
        AppLanguage::Chinese => "以太网 (Office)".to_owned(),
        AppLanguage::English => "Ethernet (Office)".to_owned(),
    };
    v.push(
        NetworkInterface {
            id: "lan0".to_owned(),
            name: lan_name,
            ip_range: "10.0.0.0/24".to_owned(),
            iface_type: InterfaceType::Ethernet,
            local_ip: "10.0.0.23".to_owned(),
        },
    );
    v.push(
        NetworkInterface {
            id: "docker0".to_owned(),
            name: "Docker Bridge".to_owned(),
            ip_range: "172.17.0.0/16".to_owned(),
            iface_type: InterfaceType::Docker,
            local_ip: "172.17.0.1".to_owned(),
        },
    );
    assert(iface_views(v@) =~= sample_networks_spec(language));
    v
}

/// The devices that the scenes with a device list show.
pub open spec fn sample_devices_spec() -> Seq<
    (Seq<char>, Seq<char>, Seq<char>, DeviceIdentityKind, DeviceType, DeviceStatus),
> {
    seq![
        ("192.168.31.12"@, "Raspberry Pi"@, "192.168.31.12"@, DeviceIdentityKind::RaspberryPi, DeviceType::Server, DeviceStatus::Ready),
        ("192.168.31.28"@, "NVIDIA Jetson"@, "192.168.31.28"@, DeviceIdentityKind::Jetson, DeviceType::Server, DeviceStatus::Untested),
        ("192.168.31.44"@, "Computer"@, "192.168.31.44"@, DeviceIdentityKind::Computer, DeviceType::Desktop, DeviceStatus::Denied),
        ("192.168.31.57"@, "Unknown Device"@, "192.168.31.57"@, DeviceIdentityKind::Unknown, DeviceType::Desktop, DeviceStatus::Untested),
    ]
}

fn sample_device(
    ip: &str,
    name: &str,
    identity_kind: DeviceIdentityKind,
    device_type: DeviceType,
    status: DeviceStatus,
) -> (r: Device)
    ensures
        device_view(r) == (ip@, name@, ip@, identity_kind, device_type, status),
{
    Device { id: ip.to_owned(), name: name.to_owned(), ip: ip.to_owned(), identity_kind, device_type, status }
}

/// The devices that the scenes with a device list show.
pub fn sample_devices() -> (r: Vec<Device>)
    ensures
        device_views(r@) == sample_devices_spec(),
{
    let mut v: Vec<Device> = Vec::new();
    v.push(sample_device("192.168.31.12", "Raspberry Pi", DeviceIdentityKind::RaspberryPi, DeviceType::Server, DeviceStatus::Ready));
    v.push(sample_device("192.168.31.28", "NVIDIA Jetson", DeviceIdentityKind::Jetson, DeviceType::Server, DeviceStatus::Untested));
    v.push(sample_device("192.168.31.44", "Computer", DeviceIdentityKind::Computer, DeviceType::Desktop, DeviceStatus::Denied));
    v.push(sample_device("192.168.31.57", "Unknown Device", DeviceIdentityKind::Unknown, DeviceType::Desktop, DeviceStatus::Untested));
    assert(device_views(v@) =~= sample_devices_spec());
    v
}

/// The containers that the Docker scene shows.
pub open spec fn sample_containers_spec(language: AppLanguage) -> Seq<
    (Seq<char>, Seq<char>, Seq<char>, Seq<char>, bool),
> {
    seq![
        (
            "b8f4d1f0a0aa"@,
            "vision-api"@,
            "ghcr.io/acme/vision-api:main"@,
            match language {
                AppLanguage::Chinese => "运行中 3 小时"@,
                AppLanguage::English => "Up 3 hours"@,
            },
            true,
        ),
        (
            "91de5ab2d8c4"@,
            "etl-worker"@,
            "ghcr.io/acme/etl-worker:latest"@,
            match language {
                AppLanguage::Chinese => "20 分钟前退出（0）"@,
                AppLanguage::English => "Exited (0) 20 minutes ago"@,
            },
            false,
        ),
    ]
}

/// The containers that the Docker scene shows, described in `language`.
pub fn sample_containers(language: AppLanguage) -> (r: Vec<Container>)
    ensures
        container_views(r@) == sample_containers_spec(language),
{
    let mut v: Vec<Container> = Vec::new();
    let up = match language {
        AppLanguage::Chinese => "运行中 3 小时".to_owned(),
        AppLanguage::English => "Up 3 hours".to_owned(),
    };
    v.push(
        Container {
            id: "b8f4d1f0a0aa".to_owned(),
            name: "vision-api".to_owned(),
            image: "ghcr.io/acme/vision-api:main".to_owned(),
            status: up,
            is_running: true,
        },
    );
    let exited = match language {
        AppLanguage::Chinese => "20 分钟前退出（0）".to_owned(),
        AppLanguage::English => "Exited (0) 20 minutes ago".to_owned(),
    };
    v.push(
        Container {
            id: "91de5ab2d8c4".to_owned(),
            name: "etl-worker".to_owned(),
            image: "ghcr.io/acme/etl-worker:latest".to_owned(),
            status: exited,
            is_running: false,
        },
    );
    assert(container_views(v@) =~= sample_containers_spec(language));
    v
}

/// The dialog a scene shows.
#[derive(Debug, Clone)]
pub enum VisualModalPreset {
    Closed,
    Help { show_rustdesk_section: bool },
    Credential,
    Docker { containers: Vec<Container>, selected_container_id: Option<String> },
}

/// The state of the window that a scene renders.
#[derive(Debug, Clone)]
pub struct VisualScenePreset {
    pub language: AppLanguage,
    pub dark_mode: bool,
    pub networks: Vec<NetworkInterface>,
    pub selected_network_id: Option<String>,
    pub network_dropdown_open: bool,
    pub user_dropdown_open: bool,
    pub is_scanning: bool,
    pub is_refreshing_networks: bool,
    pub is_verifying: bool,
    pub has_scanned: bool,
    pub scan_progress: Option<(usize, usize)>,
    pub devices: Vec<Device>,
    pub selected_device_id: Option<String>,
    pub verify_progress: Option<(usize, usize)>,
    pub selected_username: Option<String>,
    pub ssh_username: String,
    pub password: String,
    pub vnc_enabled: bool,
    pub vnc_user: String,
    pub vnc_password: String,
    pub modal: VisualModalPreset,
    pub editing_credential_username: Option<String>,
    pub new_credential_username: String,
    pub new_credential_password: String,
    pub connection_status: Option<String>,
    pub notice: Option<String>,
}

/// The scenes that show the list of sample devices.
pub open spec fn shows_devices(scene: VisualScene) -> bool {
    scene == VisualScene::SelectedDevice || scene == VisualScene::HelpModal || scene
        == VisualScene::HelpModalDark || scene == VisualScene::DockerModal
}

/// The user name a scene selects: none in the idle, dark and credential dialog scenes; the
/// preferred one of `pi` in the user drop-down, of `admin` in the RustDesk scene, and of
/// `root` elsewhere.
pub open spec fn scene_user(scene: VisualScene, creds: Seq<Credential>) -> Option<Seq<char>> {
    if scene == VisualScene::Idle || scene == VisualScene::DarkMode || scene
        == VisualScene::CredentialModal {
        None
    } else if scene == VisualScene::UserDropdown {
        Some(preferred_name(creds, "pi"@))
    } else if scene == VisualScene::RustDeskCredential {
        Some(preferred_name(creds, "admin"@))
    } else {
        Some(preferred_name(creds, "root"@))
    }
}

/// The password field of a scene: empty where no user is selected and in the RustDesk and
/// credential editing scenes, else the password shown for the selected user.
pub open spec fn scene_password(scene: VisualScene, creds: Seq<Credential>) -> Seq<char> {
    match scene_user(scene, creds) {
        None => Seq::empty(),
        Some(u) => if scene == VisualScene::RustDeskCredential || scene
            == VisualScene::CredentialEditing {
            Seq::empty()
        } else {
            password_of(creds, u)
        },
    }
}

/// The dialog a scene shows: the help guide with its RustDesk section, the credential
/// manager, the Docker containers with the first selected, or no dialog.
pub open spec fn modal_matches(m: VisualModalPreset, scene: VisualScene, language: AppLanguage) -> bool {
    if scene == VisualScene::HelpModal || scene == VisualScene::HelpModalDark {
        m == VisualModalPreset::Help { show_rustdesk_section: true }
    } else if scene == VisualScene::CredentialModal || scene == VisualScene::CredentialEditing {
        m is Credential
    } else if scene == VisualScene::DockerModal {
        m matches VisualModalPreset::Docker { containers, selected_container_id }
            && container_views(containers@) == sample_containers_spec(language)
            && crate::credential::opt_view(selected_container_id) == Some("b8f4d1f0a0aa"@)
    } else {
        m is Closed
    }
}

/// The window state that `scene` is rendered with, from the saved `credentials`.
#[verifier::rlimit(50)]
pub fn scene_preset(scene: VisualScene, credentials: &[Credential]) -> (r: VisualScenePreset)
    ensures
        r.language == scene_lang(scene),
        r.dark_mode == (scene == VisualScene::DarkMode || scene == VisualScene::HelpModalDark),
        iface_views(r.networks@) == sample_networks_spec(r.language),
        crate::credential::opt_view(r.selected_network_id) == Some("wifi0"@),
        r.network_dropdown_open == (scene == VisualScene::NetworkDropdown),
        r.user_dropdown_open == (scene == VisualScene::UserDropdown),
        r.is_scanning == (scene == VisualScene::Scanning),
        !r.is_refreshing_networks,
        r.is_verifying == (scene == VisualScene::Verifying),
        r.has_scanned == shows_devices(scene),
        r.scan_progress == if scene == VisualScene::Scanning {
            Some((26usize, 128usize))
        } else {
            None
        },
        device_views(r.devices@) == if shows_devices(scene) {
            sample_devices_spec()
        } else {
            Seq::empty()
        },
        crate::credential::opt_view(r.selected_device_id) == if shows_devices(scene) {
            default_device(r.devices@)
        } else {
            None
        },
        r.verify_progress == if scene == VisualScene::Verifying {
            Some((1usize, 3usize))
        } else {
            None
        },
        crate::credential::opt_view(r.selected_username) == scene_user(scene, credentials@),
        r.ssh_username@ == match scene_user(scene, credentials@) {
            Some(u) => u,
            None => Seq::empty(),
        },
        r.password@ == scene_password(scene, credentials@),
        r.vnc_enabled == (scene == VisualScene::DarkMode || scene == VisualScene::SelectedDevice
            || scene == VisualScene::RustDeskCredential),
        r.vnc_user@ == if scene == VisualScene::DarkMode {
            "viewer"@
        } else if scene == VisualScene::SelectedDevice {
            "vnc-operator"@
        } else {
            Seq::empty()
        },
        r.vnc_password@ == if scene == VisualScene::HelpModal || scene == VisualScene::HelpModalDark {
            "optional-pass"@
        } else {
            Seq::empty()
        },
        modal_matches(r.modal, scene, r.language),
        crate::credential::opt_view(r.editing_credential_username) == if scene
            == VisualScene::CredentialEditing {
            Some(preferred_name(credentials@, "pi"@))
        } else {
            None
        },
        r.new_credential_username@ == if scene == VisualScene::CredentialEditing {
            preferred_name(credentials@, "pi"@)
        } else {
            Seq::empty()
        },
        r.new_credential_password@ == if scene == VisualScene::CredentialEditing {
            "new-password"@
        } else {
            Seq::empty()
        },
        r.connection_status is None,
        crate::credential::opt_view(r.notice) == if scene == VisualScene::Verifying {
            Some(
                match r.language {
                    AppLanguage::Chinese => "扫描完成后自动检测SSH凭证中"@,
                    AppLanguage::English => "Scan complete. Automatically verifying SSH credentials"@,
                },
            )
        } else {
            None
        },
{
    let language = scene_language(scene);
    let networks = sample_networks(language);
    let selected_network_id = if networks.len() > 0 {
        Some(networks[0].id.clone())
    } else {
        None
    };
    proof {
        assert(iface_views(networks@).len() == 3);
        assert(networks@.len() == 3);
        assert(iface_views(networks@)[0] == iface_view(networks@[0]));
    }

    let selected_username: Option<String> = match scene {
        VisualScene::Idle | VisualScene::DarkMode | VisualScene::CredentialModal => None,
        VisualScene::UserDropdown => preferred_username(credentials, "pi"),
        VisualScene::RustDeskCredential => match preferred_username(credentials, "admin") {
            Some(u) => Some(u),
            None => preferred_username(credentials, "pi"),
        },
        _ => preferred_username(credentials, "root"),
    };
    let ssh_username = match &selected_username {
        Some(u) => u.clone(),
        None => String::new(),
    };
    let password = match scene {
        VisualScene::Idle
        | VisualScene::DarkMode
        | VisualScene::CredentialModal
        | VisualScene::RustDeskCredential
        | VisualScene::CredentialEditing => String::new(),
        _ => match password_for(credentials, ssh_username.as_str()) {
            Some(p) => p,
            None => "demo-password".to_owned(),
        },
    };

    let shows = match scene {
        VisualScene::SelectedDevice
        | VisualScene::HelpModal
        | VisualScene::HelpModalDark
        | VisualScene::DockerModal => true,
        _ => false,
    };
    let devices = if shows {
        sample_devices()
    } else {
        Vec::new()
    };
    let selected_device_id = if shows {
        default_device_id(&devices)
    } else {
        None
    };

    let modal = match scene {
        VisualScene::HelpModal | VisualScene::HelpModalDark => VisualModalPreset::Help {
            show_rustdesk_section: true,
        },
        VisualScene::CredentialModal | VisualScene::CredentialEditing => VisualModalPreset::Credential,
        VisualScene::DockerModal => {
            let containers = sample_containers(language);
            let selected_container_id = if containers.len() > 0 {
                Some(containers[0].id.clone())
            } else {
                None
            };
            proof {
                assert(container_views(containers@).len() == 2);
                assert(containers@.len() == 2);
                assert(container_views(containers@)[0] == container_view(containers@[0]));
            }
            VisualModalPreset::Docker { containers, selected_container_id }
        },
        _ => VisualModalPreset::Closed,
    };

    let editing_credential_username = match scene {
        VisualScene::CredentialEditing => match preferred_username(credentials, "pi") {
            Some(u) => Some(u),
            None => selected_username.clone(),
        },
        _ => None,
    };
    let new_credential_username = match &editing_credential_username {
        Some(u) => u.clone(),
        None => String::new(),
    };
    let new_credential_password = match scene {
        VisualScene::CredentialEditing => "new-password".to_owned(),
        _ => String::new(),
    };

    let notice = match scene {
        VisualScene::Verifying => Some(
            crate::notices::localized(
                language,
                "扫描完成后自动检测SSH凭证中",
                "Scan complete. Automatically verifying SSH credentials",
            ).to_owned(),
        ),
        _ => None,
    };

    VisualScenePreset {
        language,
        dark_mode: match scene {
            VisualScene::DarkMode | VisualScene::HelpModalDark => true,
            _ => false,
        },
        networks,
        selected_network_id,
        network_dropdown_open: match scene {
            VisualScene::NetworkDropdown => true,
            _ => false,
        },
        user_dropdown_open: match scene {
            VisualScene::UserDropdown => true,
            _ => false,
        },
        is_scanning: match scene {
            VisualScene::Scanning => true,
            _ => false,
        },
        is_refreshing_networks: false,
        is_verifying: match scene {
            VisualScene::Verifying => true,
            _ => false,
        },
        has_scanned: shows,
        scan_progress: match scene {
            VisualScene::Scanning => Some((26, 128)),
            _ => None,
        },
        devices,
        selected_device_id,
        verify_progress: match scene {
            VisualScene::Verifying => Some((1, 3)),
            _ => None,
        },
        selected_username,
        ssh_username,
        password,
        vnc_enabled: match scene {
            VisualScene::DarkMode | VisualScene::SelectedDevice | VisualScene::RustDeskCredential => true,
            _ => false,
        },
        vnc_user: match scene {
            VisualScene::DarkMode => "viewer".to_owned(),
            VisualScene::SelectedDevice => "vnc-operator".to_owned(),
            _ => String::new(),
        },
        vnc_password: match scene {
            VisualScene::HelpModal | VisualScene::HelpModalDark => "optional-pass".to_owned(),
            _ => String::new(),
        },
        modal,
        editing_credential_username,
        new_credential_username,
        new_credential_password,
        connection_status: None,
        notice,
    }
}

/// The frames waited before a scene is captured.
pub const SETTLING_FRAMES: u8 = 2;
/// The frames waited before a help scene is captured.
pub const HELP_SETTLING_FRAMES: u8 = 4;
/// The frames after which a scene is captured although the window did not report its resize.
pub const RESIZE_FALLBACK_FRAMES: u8 = 3;
/// The same for a help scene.
pub const HELP_RESIZE_FALLBACK_FRAMES: u8 = 6;

/// A scene that shows the help guide.
pub open spec fn help_scene(scene: VisualScene) -> bool {
    scene == VisualScene::HelpModal || scene == VisualScene::HelpModalDark
}

/// The frames waited before `scene` is captured.
pub fn scene_settling_frames(scene: VisualScene) -> (r: u8)
    ensures
        r == if help_scene(scene) { HELP_SETTLING_FRAMES } else { SETTLING_FRAMES },
{
    if scene.is_help() {
        HELP_SETTLING_FRAMES
    } else {
        SETTLING_FRAMES
    }
}

/// The frames after which `scene` is captured without a reported resize.
pub fn scene_resize_fallback_frames(scene: VisualScene) -> (r: u8)
    ensures
        r == if help_scene(scene) { HELP_RESIZE_FALLBACK_FRAMES } else { RESIZE_FALLBACK_FRAMES },
{
    if scene.is_help() {
        HELP_RESIZE_FALLBACK_FRAMES
    } else {
        RESIZE_FALLBACK_FRAMES
    }
}

/// Whether the window changes size between `previous` and `next`: the help scenes use the
/// taller window, so it changes on entering one (also as the first scene) and on leaving one.
pub fn scene_needs_resize(previous: Option<VisualScene>, next: VisualScene) -> (r: bool)
    ensures
        r == (help_scene(next) && match previous {
            None => true,
            Some(p) => !help_scene(p),
        }) || (match previous {
            None => false,
            Some(p) => help_scene(p),
        } && !help_scene(next)),
{
    let next_help = next.is_help();
    match previous {
        None => next_help,
        Some(p) => {
            let previous_help = p.is_help();
            (previous_help != next_help && next_help) || (previous_help && !next_help)
        },
    }
}


/// A name made of lowercase ASCII letters and hyphens is left as it is by trimming and
/// lowercasing.
proof fn lemma_plain_name(s: Seq<char>)
    requires
        s.len() > 0,
        forall|i: int| 0 <= i < s.len() ==> ('a' <= #[trigger] s[i] <= 'z' || s[i] == '-'),
    ensures
        lower(trim(s)) == s,
{
    assert(!is_ws(s[0]));
    assert(!is_ws(s.last()));
    assert(trim_start(s) == s);
    assert(trim_end(s) == s);
    assert(lower(s) =~= s);
}


} // verus!
