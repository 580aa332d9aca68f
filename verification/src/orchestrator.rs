//! Planning a wallpaper change: which media kind, which backend, which monitor.
use vstd::prelude::*;
use crate::backends::model::{Backend, BackendOverride, backend_name, supports_spec, backend_supports};
use crate::config::{Config, configured_static_spec};
use crate::state::State;
use crate::media::{MediaKind, classify_path, classify_spec};
use crate::text::{cat, cat3, owned};

verus! {

#[derive(Debug, PartialEq, Eq)]
pub struct SetPlan {
    pub wallpaper: String,
    pub media_kind: MediaKind,
    pub backend: Backend,
    pub monitor: String,
}

impl Clone for SetPlan {
    fn clone(&self) -> (r: Self)
        ensures
            r == *self,
    {
        SetPlan {
            wallpaper: self.wallpaper.clone(),
            media_kind: self.media_kind,
            backend: self.backend,
            monitor: self.monitor.clone(),
        }
    }
}

impl SetPlan {
    /// The same plan aimed at another monitor.
    pub fn for_monitor(&self, monitor: String) -> (r: Self)
        ensures
            r.wallpaper == self.wallpaper,
            r.media_kind == self.media_kind,
            r.backend == self.backend,
            r.monitor == monitor,
    {
        SetPlan {
            wallpaper: self.wallpaper.clone(),
            media_kind: self.media_kind,
            backend: self.backend,
            monitor,
        }
    }

    /// The plan that rebuilds a saved state on one monitor: the first recorded monitor, or
    /// `all` when none is recorded.
    pub fn from_state(state: &State) -> (r: Result<SetPlan, String>)
        requires
            state.monitors.wf(),
        ensures
            r matches Ok(p) && p.wallpaper@ == state.wallpaper@ && p.media_kind == state.mode
                && p.backend == state.active_backend && p.monitor@ == if state.monitors.key_seq().len()
                > 0 {
                state.monitors.key_seq()[0]
            } else {
                "all"@
            },
    {
        state.single_monitor_plan()
    }
}

/// The monitors a plan sets: the given active monitors for `all`, else the plan's own.
pub open spec fn target_names(plan: SetPlan, monitors: Seq<Seq<char>>) -> Seq<Seq<char>> {
    if plan.monitor@ == "all"@ {
        monitors
    } else {
        seq![plan.monitor@]
    }
}

/// The backend the plan picks: for `Auto` the configured static backend or the configured
/// live one; an explicit backend when it supports the media.
pub open spec fn planned_backend(config: Config, kind: MediaKind, over: BackendOverride) -> Option<Backend> {
    match over {
        BackendOverride::Auto => match kind {
            MediaKind::Static => Some(configured_static_spec(config)),
            MediaKind::Live => Some(config.general.live_backend),
        },
        BackendOverride::Backend(b) => if supports_spec(b, kind) {
            Some(b)
        } else {
            None
        },
    }
}

/// The error message for a backend that cannot show a kind (`{backend} cannot handle {kind:?} wallpapers`).
pub open spec fn unsupported_message(b: Backend, kind: MediaKind) -> Seq<char> {
    backend_name(b) + " cannot handle "@ + match kind {
        MediaKind::Static => "Static"@,
        MediaKind::Live => "Live"@,
    } + " wallpapers"@
}

/// `Ok` when `backend` can show `media_kind`, else an error naming both.
pub fn validate_backend_for_media(backend: Backend, media_kind: MediaKind) -> (r: Result<(), String>)
    ensures
        r is Ok <==> supports_spec(backend, media_kind),
        r matches Err(m) ==> m@ == unsupported_message(backend, media_kind),
{
    if backend_supports(backend, media_kind) {
        Ok(())
    } else {
        let name = backend.to_string();
        let kind = match media_kind {
            MediaKind::Static => owned("Static"),
            MediaKind::Live => owned("Live"),
        };
        let a = cat(name.as_str(), " cannot handle ");
        Err(cat3(a.as_str(), kind.as_str(), " wallpapers"))
    }
}

/// The bytes read from a wallpaper, as a sequence.
pub open spec fn opt_bytes(contents: Option<&[u8]>) -> Option<Seq<u8>> {
    match contents {
        Some(b) => Some(b@),
        None => None,
    }
}

/// What planning `wallpaper` gives: an error when its kind cannot be told, or when the chosen
/// backend cannot show it; else the plan with its kind, backend, and monitor (the given one, or
/// the configured default).
pub open spec fn plan_result(
    r: Result<SetPlan, String>,
    config: Config,
    wallpaper: Seq<char>,
    contents: Option<Seq<u8>>,
    monitor: Option<Seq<char>>,
    over: BackendOverride,
) -> bool {
    match classify_spec(wallpaper, contents) {
        None => r matches Err(m) && m@ == "unsupported wallpaper media type: "@ + wallpaper,
        Some(kind) => match planned_backend(config, kind, over) {
            None => r matches Err(m) && over matches BackendOverride::Backend(b) && m@ == unsupported_message(
                b,
                kind,
            ),
            Some(b) => r matches Ok(p) && p.wallpaper@ == wallpaper && p.media_kind == kind && p.backend
                == b && p.monitor@ == match monitor {
                Some(m) => m,
                None => config.monitors.default@,
            },
        },
    }
}

/// A plan names a backend that can show its wallpaper, whenever the configured live backend
/// shows live wallpapers.
pub proof fn lemma_planned_backend_shows_kind(
    r: Result<SetPlan, String>,
    config: Config,
    wallpaper: Seq<char>,
    contents: Option<Seq<u8>>,
    monitor: Option<Seq<char>>,
    over: BackendOverride,
)
    requires
        plan_result(r, config, wallpaper, contents, monitor, over),
        supports_spec(config.general.live_backend, MediaKind::Live),
    ensures
        r matches Ok(p) ==> supports_spec(p.backend, p.media_kind),
{
}

/// Plans setting `wallpaper` (classified from its name, or from `contents` when read).
pub fn plan_set(
    config: &Config,
    wallpaper: &str,
    contents: Option<&[u8]>,
    monitor: Option<String>,
    backend_override: BackendOverride,
) -> (r: Result<SetPlan, String>)
    ensures
        plan_result(
            r,
            *config,
            wallpaper@,
            opt_bytes(contents),
            match monitor {
                Some(m) => Some(m@),
                None => None,
            },
            backend_override,
        ),
{
    let media_kind = match classify_path(wallpaper, contents) {
        Ok(k) => k,
        Err(e) => {
            return Err(e);
        },
    };
    let backend = match backend_override {
        BackendOverride::Auto => match media_kind {
            MediaKind::Static => match config.configured_static_backend() {
                Some(b) => b,
                None => Backend::Hyprpaper,
            },
            MediaKind::Live => config.general.live_backend,
        },
        BackendOverride::Backend(backend) => {
            match validate_backend_for_media(backend, media_kind) {
                Ok(()) => {},
                Err(e) => {
                    return Err(e);
                },
            }
            backend
        },
    };
    let monitor = match monitor {
        Some(m) => m,
        None => config.monitors.default.clone(),
    };
    Ok(SetPlan { wallpaper: owned(wallpaper), media_kind, backend, monitor })
}


/// A plan sets the monitor it was given, and the configured default monitor when it was given
/// none; and an automatic choice always gives a plan for a wallpaper whose kind is known.
pub proof fn lemma_plan_monitor_and_success(
    r: Result<SetPlan, String>,
    config: Config,
    wallpaper: Seq<char>,
    contents: Option<Seq<u8>>,
    monitor: Option<Seq<char>>,
    over: BackendOverride,
)
    requires
        plan_result(r, config, wallpaper, contents, monitor, over),
    ensures
        monitor is None ==> (r matches Ok(p) ==> p.monitor@ == config.monitors.default@),
        monitor matches Some(m) ==> (r matches Ok(p) ==> p.monitor@ == m),
        r matches Ok(p) ==> p.wallpaper@ == wallpaper,
        over is Auto && classify_spec(wallpaper, contents) is Some ==> r is Ok,
{
}


/// A plan's kind is the wallpaper's classification; an explicit backend is used exactly when it
/// can show that kind (`mpvpaper` for videos, the others for pictures) and refused otherwise; an
/// automatic choice takes the configured live backend for a video, and for a picture the
/// configured static backend (with `auto`, `awww` when it is enabled, else `hyprpaper`).
pub proof fn lemma_plan_backend_choice(
    r: Result<SetPlan, String>,
    config: Config,
    wallpaper: Seq<char>,
    contents: Option<Seq<u8>>,
    monitor: Option<Seq<char>>,
    over: BackendOverride,
)
    requires
        plan_result(r, config, wallpaper, contents, monitor, over),
    ensures
        r matches Ok(p) ==> classify_spec(wallpaper, contents) == Some(p.media_kind),
        classify_spec(wallpaper, contents) is None ==> r is Err,
        over matches BackendOverride::Backend(b) ==> (classify_spec(wallpaper, contents) matches Some(k) ==> (
        r is Ok <==> ((b == Backend::Mpvpaper) <==> (k == MediaKind::Live)))),
        over matches BackendOverride::Backend(b) ==> (r matches Ok(p) ==> p.backend == b),
        over is Auto ==> (r matches Ok(p) ==> (p.media_kind == MediaKind::Live ==> p.backend
            == config.general.live_backend)),
        over is Auto ==> (r matches Ok(p) ==> (p.media_kind == MediaKind::Static ==> p.backend == match config.general.static_backend {
            crate::config::StaticBackendPreference::Auto => if config.awww.enabled {
                Backend::Awww
            } else {
                Backend::Hyprpaper
            },
            crate::config::StaticBackendPreference::Hyprpaper => Backend::Hyprpaper,
            crate::config::StaticBackendPreference::Awww => Backend::Awww,
            crate::config::StaticBackendPreference::Swaybg => Backend::Swaybg,
        })),
{
}

} // verus!
