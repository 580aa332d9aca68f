//! The wallpaper programs the library drives, and what each can show.
use vstd::prelude::*;
use crate::media::MediaKind;
use crate::text::owned;

verus! {

#[derive(Debug, Clone, Copy, PartialEq, Eq, Structural)]
pub enum Backend {
    Hyprpaper,
    Mpvpaper,
    Awww,
    Swaybg,
}

/// The name a backend goes by (in state files, messages and `--backend`).
pub open spec fn backend_name(b: Backend) -> Seq<char> {
    match b {
        Backend::Hyprpaper => "hyprpaper"@,
        Backend::Mpvpaper => "mpvpaper"@,
        Backend::Awww => "awww"@,
        Backend::Swaybg => "swaybg"@,
    }
}

/// Whether a backend can show wallpapers of a kind: only `mpvpaper` plays live ones.
pub open spec fn supports_spec(b: Backend, media: MediaKind) -> bool {
    match b {
        Backend::Mpvpaper => media == MediaKind::Live,
        _ => media == MediaKind::Static,
    }
}

impl Backend {
    /// The backend's name, as it is displayed.
    pub fn to_string(&self) -> (s: String)
        ensures
            s@ == backend_name(*self),
    {
        match self {
            Backend::Hyprpaper => owned("hyprpaper"),
            Backend::Mpvpaper => owned("mpvpaper"),
            Backend::Awww => owned("awww"),
            Backend::Swaybg => owned("swaybg"),
        }
    }
}

#[derive(Debug, Clone, Copy, PartialEq, Eq, Structural)]
pub enum BackendOverride {
    Auto,
    Backend(Backend),
}

/// A wallpaper program: which backend it is, its name, and the media it shows.
pub trait WallpaperBackend {
    fn backend(&self) -> Backend;

    fn name(&self) -> String;

    fn supports(&self, media: MediaKind) -> bool;
}

/// Whether `backend` can show wallpapers of kind `media`.
pub fn backend_supports(backend: Backend, media: MediaKind) -> (b: bool)
    ensures
        b == supports_spec(backend, media),
{
    match backend {
        Backend::Mpvpaper => media == MediaKind::Live,
        _ => media == MediaKind::Static,
    }
}

} // verus!
