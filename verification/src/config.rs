//! The configuration model and its defaults.
//!
//! Reading and writing `config.toml` is the application's work; the library
//! holds the values and says what the defaults are.
use vstd::prelude::*;
use crate::backends::model::Backend;
use crate::strmap::StrMap;
use crate::text::texts;
use crate::text::owned;

verus! {

#[derive(Debug, Clone, Copy, PartialEq, Eq, Structural)]
pub enum StaticBackendPreference {
    Auto,
    Hyprpaper,
    Awww,
    Swaybg,
}

#[derive(Debug, Clone, Copy, PartialEq, Eq, Structural)]
pub enum BackendPreference {
    Auto,
    Hyprpaper,
    Mpvpaper,
    Awww,
    Swaybg,
}

pub open spec fn preference_backend(p: BackendPreference) -> Option<Backend> {
    match p {
        BackendPreference::Auto => None,
        BackendPreference::Hyprpaper => Some(Backend::Hyprpaper),
        BackendPreference::Mpvpaper => Some(Backend::Mpvpaper),
        BackendPreference::Awww => Some(Backend::Awww),
        BackendPreference::Swaybg => Some(Backend::Swaybg),
    }
}

impl BackendPreference {
    /// The backend a preference names; `Auto` names none.
    pub fn as_backend(self) -> (r: Option<Backend>)
        ensures
            r == preference_backend(self),
    {
        match self {
            BackendPreference::Auto => None,
            BackendPreference::Hyprpaper => Some(Backend::Hyprpaper),
            BackendPreference::Mpvpaper => Some(Backend::Mpvpaper),
            BackendPreference::Awww => Some(Backend::Awww),
            BackendPreference::Swaybg => Some(Backend::Swaybg),
        }
    }
}

#[derive(Debug, Clone, Copy, PartialEq, Eq, Structural)]
pub struct GeneralConfig {
    pub static_backend: StaticBackendPreference,
    pub live_backend: Backend,
    pub restore_on_startup: bool,
}

impl Default for GeneralConfig {
    fn default() -> (r: Self)
        ensures
            r.static_backend == StaticBackendPreference::Auto,
            r.live_backend == Backend::Mpvpaper,
            r.restore_on_startup,
    {
        GeneralConfig {
            static_backend: StaticBackendPreference::Auto,
            live_backend: Backend::Mpvpaper,
            restore_on_startup: true,
        }
    }
}

#[derive(Debug, Clone, PartialEq, Eq)]
pub struct MonitorProfileConfig {
    pub wallpaper: Option<String>,
    pub backend: BackendPreference,
}

impl Default for MonitorProfileConfig {
    fn default() -> (r: Self)
        ensures
            r.wallpaper is None,
            r.backend == BackendPreference::Auto,
    {
        MonitorProfileConfig { wallpaper: None, backend: BackendPreference::Auto }
    }
}

#[derive(Debug)]
pub struct MonitorConfig {
    pub default: String,
    pub profiles: StrMap<MonitorProfileConfig>,
}

impl Default for MonitorConfig {
    fn default() -> (r: Self)
        ensures
            r.default@ == "all"@,
            r.profiles.wf(),
            r.profiles.key_seq().len() == 0,
    {
        MonitorConfig { default: owned("all"), profiles: StrMap::new() }
    }
}

#[derive(Debug, Clone, Copy, PartialEq, Eq, Structural)]
pub struct LivePauseConfig {
    pub on_battery: bool,
    pub on_fullscreen: bool,
    pub on_idle: bool,
    pub resume_on_ac: bool,
    pub resume_on_unfullscreen: bool,
    pub resume_on_activity: bool,
}

impl Default for LivePauseConfig {
    fn default() -> (r: Self)
        ensures
            r.on_battery && r.on_fullscreen && r.on_idle && r.resume_on_ac
                && r.resume_on_unfullscreen && r.resume_on_activity,
    {
        LivePauseConfig {
            on_battery: true,
            on_fullscreen: true,
            on_idle: true,
            resume_on_ac: true,
            resume_on_unfullscreen: true,
            resume_on_activity: true,
        }
    }
}

#[derive(Debug, Clone, Copy, PartialEq, Eq, Structural)]
pub struct LiveConfig {
    pub pause: LivePauseConfig,
}

impl Default for LiveConfig {
    fn default() -> (r: Self)
        ensures
            r.pause.on_battery && r.pause.on_fullscreen && r.pause.on_idle && r.pause.resume_on_ac
                && r.pause.resume_on_unfullscreen && r.pause.resume_on_activity,
    {
        LiveConfig { pause: LivePauseConfig::default() }
    }
}

#[derive(Debug, Clone, Copy, PartialEq, Eq, Structural)]
pub struct HyprpaperConfig {
    pub unload_unused: bool,
}

impl Default for HyprpaperConfig {
    fn default() -> (r: Self)
        ensures
            r.unload_unused,
    {
        HyprpaperConfig { unload_unused: true }
    }
}

#[derive(Debug, Clone, PartialEq, Eq)]
pub struct MpvpaperConfig {
    pub mode: String,
    pub extra_args: Vec<String>,
    pub readiness_timeout_ms: u64,
}

impl Default for MpvpaperConfig {
    fn default() -> (r: Self)
        ensures
            r.mode@ == "per-monitor"@,
            texts(r.extra_args@) == seq!["--loop"@, "--no-audio"@, "--panscan=1.0"@],
            r.readiness_timeout_ms == 5000,
    {
        let mut extra_args: Vec<String> = Vec::new();
        extra_args.push(owned("--loop"));
        extra_args.push(owned("--no-audio"));
        extra_args.push(owned("--panscan=1.0"));
        assert(texts(extra_args@) =~= seq!["--loop"@, "--no-audio"@, "--panscan=1.0"@]);
        MpvpaperConfig { mode: owned("per-monitor"), extra_args, readiness_timeout_ms: 5000 }
    }
}

/// Settings of `awww` transitions. `transition_duration` holds the duration in seconds as
/// the text `awww` is given (the configuration file holds it as a number).
#[derive(Debug, Clone, PartialEq, Eq)]
pub struct AwwwConfig {
    pub enabled: bool,
    pub transition_type: String,
    pub transition_duration: String,
    pub transition_fps: u16,
    pub transition_pos: String,
    pub transition_bezier: String,
    pub transition_wave: String,
}

impl Default for AwwwConfig {
    fn default() -> (r: Self)
        ensures
            !r.enabled,
            r.transition_type@ == "grow"@,
            r.transition_duration@ == "2.4"@,
            r.transition_fps == 60,
            r.transition_pos@ == "center"@,
            r.transition_bezier@ == ".42,0,.2,1"@,
            r.transition_wave@ == "28,12"@,
    {
        AwwwConfig {
            enabled: false,
            transition_type: owned("grow"),
            transition_duration: owned("2.4"),
            transition_fps: 60,
            transition_pos: owned("center"),
            transition_bezier: owned(".42,0,.2,1"),
            transition_wave: owned("28,12"),
        }
    }
}

#[derive(Debug, Clone, Copy, PartialEq, Eq, Structural)]
pub enum ShellPositionConfig {
    Bottom,
    Center,
}

#[derive(Debug, Clone, PartialEq, Eq)]
pub struct ShellConfig {
    pub monitor: String,
    pub position: ShellPositionConfig,
    pub height: i32,
    pub live_preview: bool,
}

impl Default for ShellConfig {
    fn default() -> (r: Self)
        ensures
            r.monitor@ == "all"@,
            r.position == ShellPositionConfig::Bottom,
            r.height == 340,
            r.live_preview,
    {
        ShellConfig {
            monitor: owned("all"),
            position: ShellPositionConfig::Bottom,
            height: 340,
            live_preview: true,
        }
    }
}

#[derive(Debug, Clone, Copy, PartialEq, Eq, Structural)]
pub enum PreviewQualityConfig {
    Fast,
    Balanced,
    Pretty,
}

#[derive(Debug, Clone, PartialEq, Eq)]
pub struct GuiConfig {
    pub default_monitor: String,
    pub preview_quality: PreviewQualityConfig,
    pub remember_last_folder: bool,
    pub use_omarchy_theme: bool,
    pub window_width: u32,
    pub window_height: u32,
    pub live_preview: bool,
}

impl Default for GuiConfig {
    fn default() -> (r: Self)
        ensures
            r.default_monitor@ == "all"@,
            r.preview_quality == PreviewQualityConfig::Balanced,
            r.remember_last_folder,
            r.use_omarchy_theme,
            r.window_width == 1040,
            r.window_height == 620,
            r.live_preview,
    {
        GuiConfig {
            default_monitor: owned("all"),
            preview_quality: PreviewQualityConfig::Balanced,
            remember_last_folder: true,
            use_omarchy_theme: true,
            window_width: 1040,
            window_height: 620,
            live_preview: true,
        }
    }
}

#[derive(Debug, Clone, Copy, PartialEq, Eq, Structural)]
pub enum ThemeCollectionAddTargetConfig {
    UserBackgrounds,
    ThemeRepo,
    Ask,
}

#[derive(Debug, Clone, PartialEq, Eq)]
pub struct ThemeCollectionsAuthorConfig {
    pub enabled: bool,
    pub theme_roots: Vec<String>,
}

impl Default for ThemeCollectionsAuthorConfig {
    fn default() -> (r: Self)
        ensures
            !r.enabled,
            r.theme_roots@.len() == 0,
    {
        ThemeCollectionsAuthorConfig { enabled: false, theme_roots: Vec::new() }
    }
}

#[derive(Debug, Clone, PartialEq, Eq)]
pub struct ThemeCollectionsConfig {
    pub enabled: bool,
    pub include_stock_themes: bool,
    pub user_themes_dir: String,
    pub stock_themes_dir: String,
    pub user_backgrounds_dir: String,
    pub add_target: ThemeCollectionAddTargetConfig,
    pub author: ThemeCollectionsAuthorConfig,
}

impl Default for ThemeCollectionsConfig {
    fn default() -> (r: Self)
        ensures
            r.enabled,
            !r.include_stock_themes,
            r.user_themes_dir@ == "~/.config/omarchy/themes"@,
            r.stock_themes_dir@ == "~/.local/share/omarchy/themes"@,
            r.user_backgrounds_dir@ == "~/.config/omarchy/backgrounds"@,
            r.add_target == ThemeCollectionAddTargetConfig::UserBackgrounds,
            !r.author.enabled,
            r.author.theme_roots@.len() == 0,
    {
        ThemeCollectionsConfig {
            enabled: true,
            include_stock_themes: false,
            user_themes_dir: owned("~/.config/omarchy/themes"),
            stock_themes_dir: owned("~/.local/share/omarchy/themes"),
            user_backgrounds_dir: owned("~/.config/omarchy/backgrounds"),
            add_target: ThemeCollectionAddTargetConfig::UserBackgrounds,
            author: ThemeCollectionsAuthorConfig::default(),
        }
    }
}

#[derive(Debug)]
pub struct Config {
    pub general: GeneralConfig,
    pub monitors: MonitorConfig,
    pub live: LiveConfig,
    pub hyprpaper: HyprpaperConfig,
    pub mpvpaper: MpvpaperConfig,
    pub awww: AwwwConfig,
    pub shell: ShellConfig,
    pub gui: GuiConfig,
    pub theme_collections: ThemeCollectionsConfig,
}

/// The static backend that the configuration chooses: `Auto` is `awww` when it is enabled,
/// else `hyprpaper`.
pub open spec fn configured_static_spec(config: Config) -> Backend {
    match config.general.static_backend {
        StaticBackendPreference::Auto => if config.awww.enabled {
            Backend::Awww
        } else {
            Backend::Hyprpaper
        },
        StaticBackendPreference::Hyprpaper => Backend::Hyprpaper,
        StaticBackendPreference::Awww => Backend::Awww,
        StaticBackendPreference::Swaybg => Backend::Swaybg,
    }
}

impl Default for Config {
    fn default() -> (r: Self)
        ensures
            r.general.static_backend == StaticBackendPreference::Auto,
            r.general.live_backend == Backend::Mpvpaper,
            r.general.restore_on_startup,
            r.monitors.default@ == "all"@,
            r.monitors.profiles.wf(),
            r.monitors.profiles.key_seq().len() == 0,
            r.live.pause.on_battery && r.live.pause.on_fullscreen && r.live.pause.on_idle,
            r.live.pause.resume_on_ac && r.live.pause.resume_on_unfullscreen
                && r.live.pause.resume_on_activity,
            r.hyprpaper.unload_unused,
            r.mpvpaper.mode@ == "per-monitor"@,
            texts(r.mpvpaper.extra_args@) == seq!["--loop"@, "--no-audio"@, "--panscan=1.0"@],
            r.mpvpaper.readiness_timeout_ms == 5000,
            !r.awww.enabled,
            r.awww.transition_type@ == "grow"@,
            r.awww.transition_duration@ == "2.4"@,
            r.awww.transition_fps == 60,
            r.awww.transition_pos@ == "center"@,
            r.awww.transition_bezier@ == ".42,0,.2,1"@,
            r.awww.transition_wave@ == "28,12"@,
            r.shell.monitor@ == "all"@,
            r.shell.position == ShellPositionConfig::Bottom,
            r.shell.height == 340,
            r.shell.live_preview,
            r.gui.default_monitor@ == "all"@,
            r.gui.preview_quality == PreviewQualityConfig::Balanced,
            r.theme_collections.enabled,
            !r.theme_collections.include_stock_themes,
            r.theme_collections.add_target == ThemeCollectionAddTargetConfig::UserBackgrounds,
            !r.theme_collections.author.enabled,
    {
        Config {
            general: GeneralConfig::default(),
            monitors: MonitorConfig::default(),
            live: LiveConfig::default(),
            hyprpaper: HyprpaperConfig::default(),
            mpvpaper: MpvpaperConfig::default(),
            awww: AwwwConfig::default(),
            shell: ShellConfig::default(),
            gui: GuiConfig::default(),
            theme_collections: ThemeCollectionsConfig::default(),
        }
    }
}

impl Config {
    /// The static backend the configuration chooses; it always chooses one.
    pub fn configured_static_backend(&self) -> (r: Option<Backend>)
        ensures
            r == Some(configured_static_spec(*self)),
    {
        match self.general.static_backend {
            StaticBackendPreference::Auto => {
                if self.awww.enabled {
                    Some(Backend::Awww)
                } else {
                    Some(Backend::Hyprpaper)
                }
            },
            StaticBackendPreference::Hyprpaper => Some(Backend::Hyprpaper),
            StaticBackendPreference::Awww => Some(Backend::Awww),
            StaticBackendPreference::Swaybg => Some(Backend::Swaybg),
        }
    }
}

} // verus!
