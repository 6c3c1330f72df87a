//! Platform decisions: the system language, the window chrome, and the startup arguments.
use vstd::prelude::*;
use crate::text::{
    find_char, from_chars, lower, lower_chars, replace_char, replace_char_exec, split_once,
    split_once_chars, str_eq, to_chars, trim, trimmed, chars_eq_str,
};
use crate::store::{path_join, join_path};

verus! {

/// The operating system the application runs on.
#[derive(Debug, Clone, Copy, PartialEq, Eq)]
pub enum Platform {
    Windows,
    MacOs,
    Linux,
    Other,
}

/// The language of the user's system, as far as the application tells them apart.
#[derive(Debug, Clone, Copy, PartialEq, Eq)]
pub enum SystemLanguage {
    Chinese,
    Other,
}

/// A locale identifier without its encoding and modifier, with `-` for `_`, in ASCII lowercase;
/// nothing where that leaves no text.
pub open spec fn normalized_locale(locale: Option<Seq<char>>) -> Option<Seq<char>> {
    match locale {
        None => None,
        Some(l) => {
            let t = trim(l);
            if t.len() == 0 {
                None
            } else {
                let a = match split_once(t, '.') {
                    Some((p, _)) => p,
                    None => t,
                };
                let b = match split_once(a, '@') {
                    Some((p, _)) => p,
                    None => a,
                };
                let n = lower(replace_char(b, '_', "-"@));
                if n.len() == 0 {
                    None
                } else {
                    Some(n)
                }
            }
        },
    }
}

/// A locale identifier in the form that classification reads.
pub fn normalize_locale_identifier(locale_identifier: Option<&str>) -> (r: Option<String>)
    ensures
        crate::credential::opt_view(r) == normalized_locale(
            match locale_identifier {
                Some(s) => Some(s@),
                None => None,
            },
        ),
{
    let l = match locale_identifier {
        Some(l) => l,
        None => {
            return None;
        },
    };
    let t = trimmed(l);
    if t.len() == 0 {
        return None;
    }
    let a = match split_once_chars(&t, '.') {
        Some((p, _)) => p,
        None => t,
    };
    let b = match split_once_chars(&a, '@') {
        Some((p, _)) => p,
        None => a,
    };
    let dash = to_chars("-");
    let c = replace_char_exec(&b, '_', &dash);
    let n = lower_chars(&c);
    if n.len() == 0 {
        None
    } else {
        Some(from_chars(&n))
    }
}

/// The language part of a normalised locale: the text before its first `-`.
pub open spec fn language_part(n: Seq<char>) -> Seq<char> {
    match split_once(n, '-') {
        Some((p, _)) => p,
        None => n,
    }
}

/// Chinese where the language part of the normalised locale is `zh`.
pub open spec fn locale_language(locale: Option<Seq<char>>) -> SystemLanguage {
    match normalized_locale(locale) {
        Some(n) => if language_part(n) == "zh"@ {
            SystemLanguage::Chinese
        } else {
            SystemLanguage::Other
        },
        None => SystemLanguage::Other,
    }
}

/// The system language that a locale identifier names.
pub fn classify_locale_identifier(locale_identifier: Option<&str>) -> (r: SystemLanguage)
    ensures
        r == locale_language(
            match locale_identifier {
                Some(s) => Some(s@),
                None => None,
            },
        ),
{
    let n = match normalize_locale_identifier(locale_identifier) {
        Some(n) => n,
        None => {
            return SystemLanguage::Other;
        },
    };
    let v = to_chars(n.as_str());
    let lang = match split_once_chars(&v, '-') {
        Some((p, _)) => p,
        None => v,
    };
    if chars_eq_str(&lang, "zh") {
        SystemLanguage::Chinese
    } else {
        SystemLanguage::Other
    }
}

/// The locale of the user's system, where it can be read: `sys_locale::get_locale`. What it
/// returns depends on the environment, so nothing is claimed of it.
#[verifier::external_body]
fn current_locale_identifier() -> (r: Option<String>) {
    sys_locale::get_locale()
}

/// The language of the user's system.
pub fn detect_system_language() -> (r: SystemLanguage) {
    let locale = current_locale_identifier();
    match &locale {
        Some(l) => classify_locale_identifier(Some(l.as_str())),
        None => classify_locale_identifier(None),
    }
}

/// How the window chrome is drawn on Linux.
#[derive(Debug, Clone, Copy, PartialEq, Eq)]
pub enum LinuxCustomChrome {
    X11Active,
    WaylandActive,
    Fallback,
}

/// The display server backend of a Linux window.
#[derive(Debug, Clone, Copy, PartialEq, Eq)]
pub enum LinuxWindowBackend {
    Wayland,
    X11Xcb,
    X11Xlib,
    Unknown,
}

/// The display server that the startup environment suggests on Linux.
#[derive(Debug, Clone, Copy, PartialEq, Eq)]
pub enum LinuxStartupBackend {
    Wayland,
    X11,
    Unknown,
}

/// What a Linux window reported about itself.
#[derive(Debug, Clone, PartialEq, Eq)]
pub struct LinuxWindowRuntime {
    pub backend: LinuxWindowBackend,
    pub is_maximized: Option<bool>,
    pub sync_error: Option<String>,
}

/// The chrome for a confirmed window backend.
pub open spec fn chrome_for_backend(backend: LinuxWindowBackend) -> LinuxCustomChrome {
    match backend {
        LinuxWindowBackend::X11Xcb | LinuxWindowBackend::X11Xlib => LinuxCustomChrome::X11Active,
        LinuxWindowBackend::Wayland => LinuxCustomChrome::WaylandActive,
        LinuxWindowBackend::Unknown => LinuxCustomChrome::Fallback,
    }
}

/// The chrome for a confirmed window backend.
pub fn linux_custom_chrome_from_window_backend(backend: LinuxWindowBackend) -> (r: LinuxCustomChrome)
    ensures
        r == chrome_for_backend(backend),
{
    match backend {
        LinuxWindowBackend::X11Xcb | LinuxWindowBackend::X11Xlib => LinuxCustomChrome::X11Active,
        LinuxWindowBackend::Wayland => LinuxCustomChrome::WaylandActive,
        LinuxWindowBackend::Unknown => LinuxCustomChrome::Fallback,
    }
}

impl LinuxWindowRuntime {
    /// The chrome for this window: from its backend on Linux, the fallback elsewhere.
    pub fn custom_chrome(&self, platform: Platform) -> (r: LinuxCustomChrome)
        ensures
            r == if platform == Platform::Linux {
                chrome_for_backend(self.backend)
            } else {
                LinuxCustomChrome::Fallback
            },
    {
        match platform {
            Platform::Linux => linux_custom_chrome_from_window_backend(self.backend),
            _ => LinuxCustomChrome::Fallback,
        }
    }
}

/// The chrome for the backend that the startup environment suggests.
pub open spec fn chrome_for_startup(backend: LinuxStartupBackend) -> LinuxCustomChrome {
    match backend {
        LinuxStartupBackend::X11 => LinuxCustomChrome::X11Active,
        LinuxStartupBackend::Wayland => LinuxCustomChrome::WaylandActive,
        LinuxStartupBackend::Unknown => LinuxCustomChrome::Fallback,
    }
}

/// The chrome for the backend that the startup environment suggests.
pub fn linux_custom_chrome_from_startup_backend(backend: LinuxStartupBackend) -> (r:
    LinuxCustomChrome)
    ensures
        r == chrome_for_startup(backend),
{
    match backend {
        LinuxStartupBackend::X11 => LinuxCustomChrome::X11Active,
        LinuxStartupBackend::Wayland => LinuxCustomChrome::WaylandActive,
        LinuxStartupBackend::Unknown => LinuxCustomChrome::Fallback,
    }
}

/// The backend that the startup environment suggests: the session type first, ignoring ASCII
/// case, then a Wayland display, then an X display.
pub open spec fn startup_backend(has_wayland: bool, has_x: bool, session: Option<Seq<char>>) -> LinuxStartupBackend {
    if session matches Some(s) && lower(s) == "wayland"@ {
        LinuxStartupBackend::Wayland
    } else if session matches Some(s) && lower(s) == "x11"@ {
        LinuxStartupBackend::X11
    } else if has_wayland {
        LinuxStartupBackend::Wayland
    } else if has_x {
        LinuxStartupBackend::X11
    } else {
        LinuxStartupBackend::Unknown
    }
}

/// The backend that the startup environment suggests.
pub fn classify_linux_startup_backend(
    has_wayland_display: bool,
    has_x_display: bool,
    session_type: Option<&str>,
) -> (r: LinuxStartupBackend)
    ensures
        r == startup_backend(
            has_wayland_display,
            has_x_display,
            match session_type {
                Some(s) => Some(s@),
                None => None,
            },
        ),
{
    let lowered: Option<Vec<char>> = match session_type {
        Some(s) => {
            let v = to_chars(s);
            Some(lower_chars(&v))
        },
        None => None,
    };
    match &lowered {
        Some(l) => {
            if chars_eq_str(l, "wayland") {
                return LinuxStartupBackend::Wayland;
            }
            if chars_eq_str(l, "x11") {
                return LinuxStartupBackend::X11;
            }
        },
        None => {},
    }
    if has_wayland_display {
        LinuxStartupBackend::Wayland
    } else if has_x_display {
        LinuxStartupBackend::X11
    } else {
        LinuxStartupBackend::Unknown
    }
}

/// The chrome chosen at startup on Linux, from the startup environment.
pub fn linux_startup_custom_chrome(
    has_wayland_display: bool,
    has_x_display: bool,
    session_type: Option<&str>,
) -> (r: LinuxCustomChrome)
    ensures
        r == chrome_for_startup(
            startup_backend(
                has_wayland_display,
                has_x_display,
                match session_type {
                    Some(s) => Some(s@),
                    None => None,
                },
            ),
        ),
{
    let b = classify_linux_startup_backend(has_wayland_display, has_x_display, session_type);
    linux_custom_chrome_from_startup_backend(b)
}

impl LinuxCustomChrome {
    /// Only the fallback keeps the system's window decorations.
    pub fn uses_native_decorations(self) -> (r: bool)
        ensures
            r == (self == LinuxCustomChrome::Fallback),
    {
        match self {
            LinuxCustomChrome::Fallback => true,
            _ => false,
        }
    }

    /// Only X11 asks for a transparent surface: there the window shape clips it.
    pub fn uses_transparent_surface(self) -> (r: bool)
        ensures
            r == (self == LinuxCustomChrome::X11Active),
    {
        match self {
            LinuxCustomChrome::X11Active => true,
            _ => false,
        }
    }
}

/// Whether the window surface is transparent: never on macOS, as the startup chrome says on
/// Linux, always elsewhere.
pub fn uses_transparent_surface(platform: Platform, startup_chrome: LinuxCustomChrome) -> (r: bool)
    ensures
        r == match platform {
            Platform::MacOs => false,
            Platform::Linux => startup_chrome == LinuxCustomChrome::X11Active,
            _ => true,
        },
{
    match platform {
        Platform::MacOs => false,
        Platform::Linux => startup_chrome.uses_transparent_surface(),
        _ => true,
    }
}

/// Whether the window keeps the system decorations: always on macOS, as the startup chrome
/// says on Linux, never elsewhere.
pub fn use_native_decorations(platform: Platform, startup_chrome: LinuxCustomChrome) -> (r: bool)
    ensures
        r == match platform {
            Platform::MacOs => true,
            Platform::Linux => startup_chrome == LinuxCustomChrome::Fallback,
            _ => false,
        },
{
    match platform {
        Platform::MacOs => true,
        Platform::Linux => startup_chrome.uses_native_decorations(),
        _ => false,
    }
}

/// Every platform but macOS draws its own title bar.
pub fn uses_custom_titlebar(platform: Platform) -> (r: bool)
    ensures
        r == (platform != Platform::MacOs),
{
    match platform {
        Platform::MacOs => false,
        _ => true,
    }
}

/// Every platform but macOS draws its own resize borders.
pub fn uses_custom_resize_overlay(platform: Platform) -> (r: bool)
    ensures
        r == (platform != Platform::MacOs),
{
    match platform {
        Platform::MacOs => false,
        _ => true,
    }
}

/// Only Windows has a native picker for tool paths.
pub fn supports_native_tool_picker(platform: Platform) -> (r: bool)
    ensures
        r == (platform == Platform::Windows),
{
    match platform {
        Platform::Windows => true,
        _ => false,
    }
}

/// How many times the Linux window state is synchronised after the window appears.
pub const LINUX_WINDOW_SYNC_MAX_ATTEMPTS: u8 = 12;

/// The window still needs synchronising: its backend is unknown or X11.
pub open spec fn needs_sync(runtime: Option<LinuxWindowRuntime>) -> bool {
    match runtime {
        None => true,
        Some(r) => r.backend != LinuxWindowBackend::Wayland,
    }
}

/// Whether the Linux window state should be synchronised again.
pub fn should_sync_linux_window_runtime(runtime: Option<&LinuxWindowRuntime>) -> (r: bool)
    ensures
        r == needs_sync(
            match runtime {
                Some(x) => Some(*x),
                None => None,
            },
        ),
{
    match runtime {
        None => true,
        Some(x) => match x.backend {
            LinuxWindowBackend::Wayland => false,
            _ => true,
        },
    }
}

/// Whether another synchronisation is scheduled after attempt `attempt`: while the budget lasts
/// and the window still needs it.
pub fn should_retry_linux_window_sync(runtime: Option<&LinuxWindowRuntime>, attempt: u8) -> (r:
    bool)
    requires
        attempt < 255,
    ensures
        r == (attempt + 1 < LINUX_WINDOW_SYNC_MAX_ATTEMPTS && needs_sync(
            match runtime {
                Some(x) => Some(*x),
                None => None,
            },
        )),
{
    if attempt + 1 >= LINUX_WINDOW_SYNC_MAX_ATTEMPTS {
        return false;
    }
    should_sync_linux_window_runtime(runtime)
}

/// A retry is scheduled only for a window that needs synchronising, and never once the budget
/// is spent.
pub proof fn lemma_retry_needs_sync(runtime: Option<LinuxWindowRuntime>, attempt: u8)
    requires
        attempt < 255,
    ensures
        (attempt + 1 < LINUX_WINDOW_SYNC_MAX_ATTEMPTS && needs_sync(runtime)) ==> needs_sync(
            runtime,
        ),
        attempt + 1 >= LINUX_WINDOW_SYNC_MAX_ATTEMPTS ==> !(attempt + 1
            < LINUX_WINDOW_SYNC_MAX_ATTEMPTS && needs_sync(runtime)),
{
}

/// The language of the interface.
#[derive(Debug, Clone, Copy, PartialEq, Eq)]
pub enum AppLanguage {
    Chinese,
    English,
}

impl Default for AppLanguage {
    fn default() -> (r: AppLanguage)
        ensures
            r == AppLanguage::Chinese,
    {
        AppLanguage::Chinese
    }
}

/// The other language.
pub open spec fn other_language(l: AppLanguage) -> AppLanguage {
    match l {
        AppLanguage::Chinese => AppLanguage::English,
        AppLanguage::English => AppLanguage::Chinese,
    }
}

impl AppLanguage {
    /// The other language.
    pub fn toggle(self) -> (r: AppLanguage)
        ensures
            r == other_language(self),
    {
        match self {
            AppLanguage::Chinese => AppLanguage::English,
            AppLanguage::English => AppLanguage::Chinese,
        }
    }
}

/// The colour scheme of the interface.
#[derive(Debug, Clone, Copy, PartialEq, Eq)]
pub enum ThemeMode {
    Light,
    Dark,
}

impl Default for ThemeMode {
    fn default() -> (r: ThemeMode)
        ensures
            r == ThemeMode::Light,
    {
        ThemeMode::Light
    }
}

/// The other colour scheme.
pub open spec fn other_theme(t: ThemeMode) -> ThemeMode {
    match t {
        ThemeMode::Light => ThemeMode::Dark,
        ThemeMode::Dark => ThemeMode::Light,
    }
}

impl ThemeMode {
    /// The other colour scheme.
    pub fn toggle(self) -> (r: ThemeMode)
        ensures
            r == other_theme(self),
    {
        match self {
            ThemeMode::Light => ThemeMode::Dark,
            ThemeMode::Dark => ThemeMode::Light,
        }
    }

    /// The name of the scheme's theme.
    pub fn name(self) -> (r: &'static str)
        ensures
            r@ == match self {
                ThemeMode::Light => "LanScan Light"@,
                ThemeMode::Dark => "LanScan Dark"@,
            },
    {
        match self {
            ThemeMode::Light => "LanScan Light",
            ThemeMode::Dark => "LanScan Dark",
        }
    }
}

/// Toggling twice gives back the language and the colour scheme one started with, and
/// toggling always changes them.
pub proof fn lemma_toggle_involution(l: AppLanguage, t: ThemeMode)
    ensures
        other_language(other_language(l)) == l,
        other_language(l) != l,
        other_theme(other_theme(t)) == t,
        other_theme(t) != t,
{
}

/// The glyphs of the interface.
#[derive(Debug, Clone, Copy, PartialEq, Eq)]
pub enum Glyph {
    Sun,
    Moon,
    Help,
    Lock,
    SlidersHorizontal,
    Pencil,
    KeyRound,
    Plus,
    Trash,
    Radar,
    Refresh,
    Search,
    Minimize,
    Maximize,
    Restore,
    Close,
    Check,
    CircleCheck,
    Pending,
    CircleX,
    ChevronDown,
    ChevronUp,
    Network,
    Wifi,
    Ethernet,
    Docker,
    Laptop,
    Server,
    Desktop,
    Code,
    Display,
    Terminal,
    Spinner1,
    Spinner2,
    Spinner3,
    Spinner4,
    GitHub,
}

/// The frames that surround a glyph.
#[derive(Debug, Clone, Copy, PartialEq, Eq)]
pub enum FrameToken {
    BrandMark,
    DropdownChip,
}

/// The glyphs drawn from image assets.
#[derive(Debug, Clone, Copy, PartialEq, Eq)]
pub enum AssetGlyph {
    Network,
    RefreshCw,
}

/// The states of the connect button.
#[derive(Debug, Clone, Copy, PartialEq, Eq)]
pub enum ConnectButtonState {
    Available,
    Processing,
    TemporarilyLocked,
    Unavailable,
}

/// The glyph for a frame of the text spinner.
pub open spec fn spinner_glyph(frame: Seq<char>) -> Glyph {
    if frame == "-"@ {
        Glyph::Spinner1
    } else if frame == "\\"@ {
        Glyph::Spinner2
    } else if frame == "|"@ {
        Glyph::Spinner3
    } else if frame == "/"@ {
        Glyph::Spinner4
    } else {
        Glyph::Pending
    }
}

/// The glyph for a frame of the text spinner.
pub fn spinner(frame: &str) -> (r: Glyph)
    ensures
        r == spinner_glyph(frame@),
{
    if str_eq(frame, "-") {
        Glyph::Spinner1
    } else if str_eq(frame, "\\") {
        Glyph::Spinner2
    } else if str_eq(frame, "|") {
        Glyph::Spinner3
    } else if str_eq(frame, "/") {
        Glyph::Spinner4
    } else {
        Glyph::Pending
    }
}

/// What the device list shows when it has no devices.
#[derive(Debug, Clone, Copy, PartialEq, Eq)]
pub enum PlaceholderState {
    Idle,
    RefreshingNetworks { spinner_frame: &'static str },
    Scanning { spinner_frame: &'static str, progress: Option<(usize, usize)> },
}

/// What the help guide shows and what its buttons send.
#[derive(Debug, Clone)]
pub struct HelpGuideProps<Message> where Message: Clone {
    pub language: AppLanguage,
    pub on_close: Message,
    pub on_open_github: Message,
    pub show_rustdesk_section: bool,
    pub on_show_basic: Message,
    pub on_show_rustdesk: Message,
}

/// What launching VNC Viewer warns about, where anything.
#[derive(Debug, Clone, PartialEq, Eq)]
pub struct VncLaunchOutcome {
    pub warning: Option<String>,
}

impl Default for VncLaunchOutcome {
    fn default() -> (r: VncLaunchOutcome)
        ensures
            r.warning is None,
    {
        VncLaunchOutcome { warning: None }
    }
}

} // verus!
