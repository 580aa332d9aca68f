//! The desktop picker window's backend: the folder it opens on, the wallpapers it lists, the
//! previews it asks `ffmpeg` for and where they are cached, how a preview reaches the window, and
//! how it asks the command line to set a wallpaper.
use vstd::prelude::*;
use base64::Engine;
use crate::collections_store::{
    CollectionWallpaper, sorted_by_name, wallpaper_views, sort_by_name, items_of,
};
use crate::command::CommandSpec;
use crate::media::{MediaKind, path_kind, extension_kind};
use crate::path::{extension, join, path_join, path_extension};
use crate::shell::scanner::ListedFile;
use crate::theme_collections::{expand_tilde, expand_tilde_spec};
use crate::text::{
    texts, lower_seq, ascii_lowercase, owned, cat, cat3, decimal, decimal_string, decimal_string_wide,
    push_char, starts_with, str_eq, trim, trim_str, chars_of, is_prefix,
};

verus! {

// ---------------------------------------------------------------------------
// Preview quality
// ---------------------------------------------------------------------------

/// How much effort an animated preview of a live wallpaper gets.
#[derive(Debug, Clone, Copy, PartialEq, Eq, Structural)]
pub enum PreviewQuality {
    Fast,
    Balanced,
    Pretty,
}

/// An animated preview's length, frame rate, width, `x264` quality and cache file suffix.
#[derive(Debug, Clone, Copy)]
pub struct LivePreviewProfile {
    pub duration_secs: u8,
    pub fps: u8,
    pub width: u16,
    pub crf: u8,
    pub cache_name: &'static str,
}

impl PreviewQuality {
    pub fn profile(self) -> (r: LivePreviewProfile)
        ensures
            self == PreviewQuality::Fast ==> r.duration_secs == 2 && r.fps == 6 && r.width == 540 && r.crf
                == 30 && r.cache_name@ == "preview-fast-v1.mp4"@,
            self == PreviewQuality::Balanced ==> r.duration_secs == 3 && r.fps == 8 && r.width == 720
                && r.crf == 28 && r.cache_name@ == "preview-balanced-v1.mp4"@,
            self == PreviewQuality::Pretty ==> r.duration_secs == 4 && r.fps == 10 && r.width == 1080
                && r.crf == 24 && r.cache_name@ == "preview-pretty-v1.mp4"@,
    {
        match self {
            PreviewQuality::Fast => LivePreviewProfile {
                duration_secs: 2,
                fps: 6,
                width: 540,
                crf: 30,
                cache_name: "preview-fast-v1.mp4",
            },
            PreviewQuality::Balanced => LivePreviewProfile {
                duration_secs: 3,
                fps: 8,
                width: 720,
                crf: 28,
                cache_name: "preview-balanced-v1.mp4",
            },
            PreviewQuality::Pretty => LivePreviewProfile {
                duration_secs: 4,
                fps: 10,
                width: 1080,
                crf: 24,
                cache_name: "preview-pretty-v1.mp4",
            },
        }
    }
}

// ---------------------------------------------------------------------------
// Remembered state
// ---------------------------------------------------------------------------

/// What the window remembers between runs.
#[derive(Debug)]
pub struct GuiState {
    pub version: u8,
    pub last_folder: Option<String>,
    pub last_monitor: Option<String>,
    pub preview_mode: bool,
}

impl GuiState {
    /// The state of a first run: version 1, no folder, all monitors, previews off.
    pub fn default_with_version() -> (r: Self)
        ensures
            r.version == 1,
            r.last_folder is None,
            r.last_monitor matches Some(m) && m@ == "all"@,
            !r.preview_mode,
    {
        GuiState { version: 1, last_folder: None, last_monitor: Some(owned("all")), preview_mode: false }
    }

    /// Remembers the folder last browsed.
    pub fn remember_folder(&mut self, path: String)
        ensures
            final(self).version == 1,
            final(self).last_folder == Some(path),
            final(self).last_monitor == old(self).last_monitor,
            final(self).preview_mode == old(self).preview_mode,
    {
        self.version = 1;
        self.last_folder = Some(path);
    }
}

/// Where the window's state is kept: `$XDG_STATE_HOME/jobowalls/gui.json`, else
/// `~/.local/state/jobowalls/gui.json`, else nowhere.
pub open spec fn gui_state_path_spec(xdg_state_home: Option<Seq<char>>, home: Option<Seq<char>>) -> Option<Seq<char>> {
    match xdg_state_home {
        Some(x) => Some(join(join(x, "jobowalls"@), "gui.json"@)),
        None => match home {
            Some(h) => Some(join(join(join(join(h, ".local"@), "state"@), "jobowalls"@), "gui.json"@)),
            None => None,
        },
    }
}

pub open spec fn opt_text(a: Option<&str>) -> Option<Seq<char>> {
    match a {
        Some(s) => Some(s@),
        None => None,
    }
}

pub fn gui_state_path(xdg_state_home: Option<&str>, home: Option<&str>) -> (r: Option<String>)
    ensures
        match r {
            Some(p) => gui_state_path_spec(opt_text(xdg_state_home), opt_text(home)) == Some(p@),
            None => gui_state_path_spec(opt_text(xdg_state_home), opt_text(home)) is None,
        },
{
    match xdg_state_home {
        Some(x) => Some(path_join(path_join(x, "jobowalls").as_str(), "gui.json")),
        None => match home {
            Some(h) => {
                let a = path_join(h, ".local");
                let b = path_join(a.as_str(), "state");
                let c = path_join(b.as_str(), "jobowalls");
                Some(path_join(c.as_str(), "gui.json"))
            },
            None => None,
        },
    }
}

// ---------------------------------------------------------------------------
// The folder the window opens on
// ---------------------------------------------------------------------------

/// A command-line argument that names a path: not an option, and not the program's own name.
pub open spec fn path_like(a: Seq<char>) -> bool {
    !is_prefix("-"@, a) && a != "jobowalls-gui"@
}

/// The first command-line argument after the program's name that names a path.
pub fn first_path_arg(args: &[String]) -> (r: Option<String>)
    ensures
        match r {
            Some(a) => exists|i: int|
                1 <= i < args@.len() && path_like(#[trigger] args@[i]@) && a@ == args@[i]@ && forall|j: int|
                    1 <= j < i ==> !path_like(#[trigger] args@[j]@),
            None => forall|j: int| 1 <= j < args@.len() ==> !path_like(#[trigger] args@[j]@),
        },
{
    let mut i: usize = 1;
    while i < args.len()
        invariant
            1 <= i,
            i <= args@.len() || args@.len() == 0,
            forall|j: int| 1 <= j < i && j < args@.len() ==> !path_like(#[trigger] args@[j]@),
        decreases args.len() - i,
    {
        if !starts_with(args[i].as_str(), "-") && !str_eq(args[i].as_str(), "jobowalls-gui") {
            let a = args[i].clone();
            assert(path_like(args@[i as int]@));
            return Some(a);
        }
        i += 1;
    }
    None
}

/// A folder the window may open on: where it came from, and its path with `~` expanded.
#[derive(Debug)]
pub struct StartupCandidate {
    pub source: String,
    pub path: String,
}

/// The folders tried in turn, each with `~` expanded: the one asked for (else the first path
/// argument) as `argument`, the one last browsed as `last-folder`, then, with a home folder,
/// Omarchy's current theme backgrounds as `theme-backgrounds` and `~/Pictures/Wallpapers` as
/// `pictures-wallpapers`.
pub open spec fn startup_candidates_spec(
    input: Option<Seq<char>>,
    first_arg: Option<Seq<char>>,
    last_folder: Option<Seq<char>>,
    home: Option<Seq<char>>,
) -> Seq<(Seq<char>, Seq<char>)> {
    let requested = match input {
        Some(p) => Some(p),
        None => first_arg,
    };
    (match requested {
        Some(p) => seq![("argument"@, expand_tilde_spec(p, home))],
        None => seq![],
    }) + (match last_folder {
        Some(p) => seq![("last-folder"@, expand_tilde_spec(p, home))],
        None => seq![],
    }) + (match home {
        Some(h) => seq![
            ("theme-backgrounds"@, join(join(join(join(join(h, ".config"@), "omarchy"@), "current"@), "theme"@), "backgrounds"@)),
            ("pictures-wallpapers"@, join(join(h, "Pictures"@), "Wallpapers"@)),
        ],
        None => seq![],
    })
}

pub open spec fn candidate_view(c: StartupCandidate) -> (Seq<char>, Seq<char>) {
    (c.source@, c.path@)
}

fn push_candidate(out: &mut Vec<StartupCandidate>, source: &str, path: String)
    ensures
        final(out)@.map_values(|c: StartupCandidate| candidate_view(c)) == old(out)@.map_values(
            |c: StartupCandidate| candidate_view(c),
        ).push((source@, path@)),
{
    let ghost before = out@.map_values(|c: StartupCandidate| candidate_view(c));
    out.push(StartupCandidate { source: owned(source), path });
    assert(out@.map_values(|c: StartupCandidate| candidate_view(c)) =~= before.push((source@, path@)));
}

pub fn startup_candidates(
    input: Option<&str>,
    first_arg: Option<&str>,
    last_folder: Option<&str>,
    home: Option<&str>,
) -> (r: Vec<StartupCandidate>)
    ensures
        r@.map_values(|c: StartupCandidate| candidate_view(c)) == startup_candidates_spec(
            opt_text(input),
            opt_text(first_arg),
            opt_text(last_folder),
            opt_text(home),
        ),
{
    let mut out: Vec<StartupCandidate> = Vec::new();
    let requested = match input {
        Some(p) => Some(p),
        None => first_arg,
    };
    match requested {
        Some(p) => push_candidate(&mut out, "argument", expand_tilde(p, home)),
        None => {},
    }
    match last_folder {
        Some(p) => push_candidate(&mut out, "last-folder", expand_tilde(p, home)),
        None => {},
    }
    match home {
        Some(h) => {
            let a = path_join(h, ".config");
            let b = path_join(a.as_str(), "omarchy");
            let c = path_join(b.as_str(), "current");
            let d = path_join(c.as_str(), "theme");
            push_candidate(&mut out, "theme-backgrounds", path_join(d.as_str(), "backgrounds"));
            let e = path_join(h, "Pictures");
            push_candidate(&mut out, "pictures-wallpapers", path_join(e.as_str(), "Wallpapers"));
        },
        None => {},
    }
    let ghost want = startup_candidates_spec(opt_text(input), opt_text(first_arg), opt_text(last_folder), opt_text(home));
    assert(out@.map_values(|c: StartupCandidate| candidate_view(c)) =~= want);
    out
}

/// The folder the window opens on, and where it came from (`none` when no candidate is a
/// directory).
#[derive(Debug)]
pub struct StartupFolder {
    pub path: Option<String>,
    pub source: String,
}

/// The first candidate found to be a directory.
pub open spec fn first_found(found: Seq<Option<String>>, i: int) -> bool {
    &&& 0 <= i < found.len()
    &&& found[i] is Some
    &&& forall|j: int| 0 <= j < i ==> #[trigger] found[j] is None
}

pub fn pick_startup_folder(candidates: &[StartupCandidate], found: &[Option<String>]) -> (r: StartupFolder)
    requires
        found@.len() == candidates@.len(),
    ensures
        match r.path {
            Some(p) => exists|i: int|
                first_found(found@, i) && p@ == found@[i].unwrap()@ && r.source@ == candidates@[i].source@,
            None => r.source@ == "none"@ && forall|j: int| 0 <= j < found@.len() ==> #[trigger] found@[j] is None,
        },
{
    let mut i: usize = 0;
    while i < found.len()
        invariant
            found@.len() == candidates@.len(),
            0 <= i <= found@.len(),
            forall|j: int| 0 <= j < i ==> #[trigger] found@[j] is None,
        decreases found.len() - i,
    {
        match &found[i] {
            Some(p) => {
                assert(first_found(found@, i as int));
                return StartupFolder { path: Some(p.clone()), source: candidates[i].source.clone() };
            },
            None => {},
        }
        i += 1;
    }
    StartupFolder { path: None, source: owned("none") }
}

// ---------------------------------------------------------------------------
// Listing a folder
// ---------------------------------------------------------------------------

/// The paths of the listed regular files, in listing order.
pub open spec fn regular_paths(files: Seq<ListedFile>) -> Seq<Seq<char>>
    decreases files.len(),
{
    if files.len() == 0 {
        seq![]
    } else {
        regular_paths(files.drop_last()) + if files.last().is_file {
            seq![files.last().path@]
        } else {
            seq![]
        }
    }
}

/// The wallpapers of a folder (`folder` as resolved, `is_dir` whether it is a directory,
/// `files` its entries): an error when it is not a directory, else its regular files with a
/// wallpaper extension, with their names and kinds, sorted by lowercased name (a stable sort).
pub fn scan_folder(folder: &str, is_dir: bool, files: &[ListedFile]) -> (r: Result<Vec<CollectionWallpaper>, String>)
    ensures
        !is_dir ==> (r matches Err(m) && m@ == "not a folder: "@ + folder@),
        is_dir ==> (r matches Ok(v) && wallpaper_views(v@) == sort_by_name(items_of(regular_paths(files@)))),
{
    if !is_dir {
        return Err(cat("not a folder: ", folder));
    }
    let mut paths: Vec<String> = Vec::new();
    let mut i: usize = 0;
    while i < files.len()
        invariant
            0 <= i <= files@.len(),
            texts(paths@) == regular_paths(files@.take(i as int)),
        decreases files.len() - i,
    {
        assert(files@.take(i + 1).drop_last() == files@.take(i as int));
        assert(files@.take(i + 1).last() == files@[i as int]);
        let ghost before = texts(paths@);
        if files[i].is_file {
            paths.push(files[i].path.clone());
            assert(texts(paths@) =~= before + seq![files@[i as int].path@]);
        } else {
            assert(texts(paths@) =~= before + Seq::<Seq<char>>::empty());
        }
        i += 1;
    }
    assert(files@.take(files@.len() as int) == files@);
    Ok(sorted_by_name(&paths))
}

/// The kind a path's extension names, in any case.
pub fn classify_path(path: &str) -> (r: Option<MediaKind>)
    ensures
        r == path_kind(path@),
{
    match path_extension(path) {
        Some(e) => crate::media::classify_extension(e.as_str()),
        None => None,
    }
}

// ---------------------------------------------------------------------------
// Handing previews to the window
// ---------------------------------------------------------------------------

/// What the window shows for a wallpaper: a source to load, or why there is none.
#[derive(Debug)]
pub struct MediaSource {
    pub path: String,
    pub src: Option<String>,
    pub reason: Option<String>,
}

/// The answer for a wallpaper whose kind cannot be told.
pub fn unsupported_media(path: String) -> (r: MediaSource)
    ensures
        r.path == path,
        r.src is None,
        r.reason matches Some(m) && m@ == "unsupported media type"@,
{
    MediaSource { path, src: None, reason: Some(owned("unsupported media type")) }
}

/// The answer pointing the window at a preview file.
pub fn file_media(path: String, preview: &str) -> (r: MediaSource)
    ensures
        r.path == path,
        r.src matches Some(s) && s@ == preview@,
        r.reason is None,
{
    MediaSource { path, src: Some(owned(preview)), reason: None }
}

/// The media type a preview is sent as, by its (case-insensitive) extension; PNG otherwise.
pub open spec fn mime_spec(path: Seq<char>) -> Seq<char> {
    match extension(path) {
        Some(e) => {
            let l = lower_seq(e);
            if l == "jpg"@ || l == "jpeg"@ {
                "image/jpeg"@
            } else if l == "webp"@ {
                "image/webp"@
            } else if l == "gif"@ {
                "image/gif"@
            } else if l == "bmp"@ {
                "image/bmp"@
            } else if l == "mp4"@ {
                "video/mp4"@
            } else {
                "image/png"@
            }
        },
        None => "image/png"@,
    }
}

pub fn mime_for_path(path: &str) -> (r: String)
    ensures
        r@ == mime_spec(path@),
{
    proof {
        reveal_strlit("jpg");
        reveal_strlit("jpeg");
        reveal_strlit("webp");
        reveal_strlit("gif");
        reveal_strlit("bmp");
        reveal_strlit("mp4");
    }
    match path_extension(path) {
        Some(e) => {
            let l = ascii_lowercase(e.as_str());
            let l = l.as_str();
            if str_eq(l, "jpg") || str_eq(l, "jpeg") {
                owned("image/jpeg")
            } else if str_eq(l, "webp") {
                owned("image/webp")
            } else if str_eq(l, "gif") {
                owned("image/gif")
            } else if str_eq(l, "bmp") {
                owned("image/bmp")
            } else if str_eq(l, "mp4") {
                owned("video/mp4")
            } else {
                owned("image/png")
            }
        },
        None => owned("image/png"),
    }
}

/// A base64 digit of the standard alphabet.
pub open spec fn b64_digit(v: int) -> char {
    if v < 26 {
        (65 + v) as char
    } else if v < 52 {
        (97 + v - 26) as char
    } else if v < 62 {
        (48 + v - 52) as char
    } else if v == 62 {
        '+'
    } else {
        '/'
    }
}

/// Standard base64 with `=` padding: each three bytes become four digits of six bits each.
pub open spec fn base64_spec(b: Seq<u8>) -> Seq<char>
    decreases b.len(),
{
    if b.len() == 0 {
        seq![]
    } else {
        let b0 = b[0] as int;
        let b1 = if b.len() > 1 {
            b[1] as int
        } else {
            0
        };
        let b2 = if b.len() > 2 {
            b[2] as int
        } else {
            0
        };
        if b.len() == 1 {
            seq![b64_digit(b0 / 4), b64_digit((b0 % 4) * 16), '=', '=']
        } else if b.len() == 2 {
            seq![b64_digit(b0 / 4), b64_digit((b0 % 4) * 16 + b1 / 16), b64_digit((b1 % 16) * 4), '=']
        } else {
            seq![
                b64_digit(b0 / 4),
                b64_digit((b0 % 4) * 16 + b1 / 16),
                b64_digit((b1 % 16) * 4 + b2 / 64),
                b64_digit(b2 % 64),
            ] + base64_spec(b.skip(3))
        }
    }
}

/// `base64::engine::general_purpose::STANDARD.encode`: the standard alphabet with `=` padding.
/// It panics when the encoded length overflows or cannot be allocated as a `Vec`, which the
/// bound on the input rules out.
#[verifier::external_body]
fn base64_standard(bytes: &[u8]) -> (r: String)
    requires
        bytes@.len() <= usize::MAX / 4,
    ensures
        r@ == base64_spec(bytes@),
{
    base64::engine::general_purpose::STANDARD.encode(bytes)
}

/// `data:<media type>;base64,<payload>`.
pub open spec fn data_url(preview_path: Seq<char>, bytes: Seq<u8>) -> Seq<char> {
    "data:"@ + mime_spec(preview_path) + ";base64,"@ + base64_spec(bytes)
}

/// The answer carrying a preview's bytes inline, as a `data:` URL.
pub fn data_source(path: String, preview_path: &str, bytes: &[u8]) -> (r: MediaSource)
    requires
        bytes@.len() <= usize::MAX / 4,
    ensures
        r.path == path,
        r.src matches Some(s) && s@ == data_url(preview_path@, bytes@),
        r.reason is None,
{
    let mime = mime_for_path(preview_path);
    let encoded = base64_standard(bytes);
    let head = cat3("data:", mime.as_str(), ";base64,");
    MediaSource { path, src: Some(cat(head.as_str(), encoded.as_str())), reason: None }
}

// ---------------------------------------------------------------------------
// The preview cache
// ---------------------------------------------------------------------------

pub const FNV_OFFSET: u64 = 0xcbf29ce484222325;

pub const FNV_PRIME: u64 = 0x100000001b3;

/// The 64-bit FNV-1a hash of the bytes.
pub open spec fn fnv1a(b: Seq<u8>) -> u64
    decreases b.len(),
{
    if b.len() == 0 {
        FNV_OFFSET
    } else {
        (fnv1a(b.drop_last()) ^ (b.last() as u64)).wrapping_mul(FNV_PRIME)
    }
}

/// A lowercase hexadecimal digit.
pub open spec fn hex_digit(d: nat) -> char {
    if d < 10 {
        (48 + d) as char
    } else {
        (97 + d - 10) as char
    }
}

/// The last `width` hexadecimal digits of `n`, zero-padded.
pub open spec fn hex_fixed(n: nat, width: nat) -> Seq<char>
    decreases width,
{
    if width == 0 {
        seq![]
    } else {
        hex_fixed(n / 16, (width - 1) as nat).push(hex_digit(n % 16))
    }
}

fn hex_fixed_exec(n: u64, width: usize) -> (s: String)
    ensures
        s@ == hex_fixed(n as nat, width as nat),
    decreases width,
{
    if width == 0 {
        return String::new();
    }
    let mut s = hex_fixed_exec(n / 16, width - 1);
    let d = n % 16;
    let c = if d < 10 {
        crate::text::char_from_ascii((48 + d) as u32)
    } else {
        crate::text::char_from_ascii((97 + d - 10) as u32)
    };
    push_char(&mut s, c);
    s
}

/// The FNV-1a hash of the bytes as sixteen lowercase hexadecimal digits.
pub fn fnv1a_hex(bytes: &[u8]) -> (r: String)
    ensures
        r@ == hex_fixed(fnv1a(bytes@) as nat, 16),
{
    let mut hash: u64 = FNV_OFFSET;
    let mut i: usize = 0;
    while i < bytes.len()
        invariant
            0 <= i <= bytes@.len(),
            hash == fnv1a(bytes@.take(i as int)),
        decreases bytes.len() - i,
    {
        assert(bytes@.take(i + 1).drop_last() == bytes@.take(i as int));
        assert(bytes@.take(i + 1).last() == bytes@[i as int]);
        hash = hash ^ (bytes[i] as u64);
        hash = hash.wrapping_mul(FNV_PRIME);
        i += 1;
    }
    assert(bytes@.take(bytes@.len() as int) == bytes@);
    hex_fixed_exec(hash, 16)
}

/// The preview cache folder: `jobowalls/gui-thumbnails` under the cache folder, else under the
/// temporary folder.
pub open spec fn gui_cache_dir_spec(cache: Option<Seq<char>>, temp: Seq<char>) -> Seq<char> {
    join(
        join(
            match cache {
                Some(c) => c,
                None => temp,
            },
            "jobowalls"@,
        ),
        "gui-thumbnails"@,
    )
}

pub fn gui_cache_dir(cache: Option<&str>, temp: &str) -> (r: String)
    ensures
        r@ == gui_cache_dir_spec(opt_text(cache), temp@),
{
    let base = match cache {
        Some(c) => c,
        None => temp,
    };
    path_join(path_join(base, "jobowalls").as_str(), "gui-thumbnails")
}

/// The text a cached preview's name is hashed from: the wallpaper's path, size, modification
/// time (nanoseconds since the epoch) and the preview's suffix.
pub open spec fn cache_key_spec(path: Seq<char>, size: u64, modified_nanos: u128, suffix: Seq<char>) -> Seq<char> {
    path + ":"@ + decimal(size as nat) + ":"@ + decimal(modified_nanos as nat) + ":"@ + suffix
}

/// Where the preview with `suffix` of a wallpaper is cached: `<hash>.<suffix>` in the cache
/// folder, the hash taken over the UTF-8 bytes of the cache key, so that a changed file gets a
/// new preview.
pub open spec fn cache_path_spec(cache_dir: Seq<char>, path: Seq<char>, size: u64, modified_nanos: u128, suffix: Seq<char>) -> Seq<char> {
    join(
        cache_dir,
        hex_fixed(fnv1a(vstd::utf8::encode_utf8(cache_key_spec(path, size, modified_nanos, suffix))) as nat, 16)
            + "."@ + suffix,
    )
}

pub fn video_cache_path(cache_dir: &str, path: &str, size: u64, modified_nanos: u128, suffix: &str) -> (r: String)
    ensures
        r@ == cache_path_spec(cache_dir@, path@, size, modified_nanos, suffix@),
{
    let a = cat3(path, ":", decimal_string(size).as_str());
    let b = cat3(a.as_str(), ":", decimal_string_wide(modified_nanos).as_str());
    let key = cat3(b.as_str(), ":", suffix);
    let name = fnv1a_hex(key.as_str().as_bytes());
    path_join(cache_dir, cat3(name.as_str(), ".", suffix).as_str())
}

/// The suffix of a live wallpaper's poster.
pub const POSTER_SUFFIX: &'static str = "poster-v3.jpg";

/// The suffix of a live wallpaper's thumbnail.
pub const VIDEO_THUMBNAIL_SUFFIX: &'static str = "thumb-v1.jpg";

/// The suffix of a static wallpaper's preview.
pub const STATIC_PREVIEW_SUFFIX: &'static str = "static-v3.jpg";

/// The suffix of a static wallpaper's thumbnail.
pub const STATIC_THUMBNAIL_SUFFIX: &'static str = "static-thumb-v1.jpg";

// ---------------------------------------------------------------------------
// Preview commands
// ---------------------------------------------------------------------------

/// `ffmpeg` taking the first frame of a picture, scaled to `width`.
pub open spec fn still_args(input: Seq<char>, output: Seq<char>, width: nat) -> Seq<Seq<char>> {
    seq![
        "-y"@,
        "-hide_banner"@,
        "-loglevel"@,
        "error"@,
        "-i"@,
        input,
        "-frames:v"@,
        "1"@,
        "-vf"@,
        "scale="@ + decimal(width) + ":-1:flags=fast_bilinear"@,
        "-q:v"@,
        "5"@,
        output,
    ]
}

fn strings(items: &[&str]) -> (r: Vec<String>)
    ensures
        texts(r@) == items@.map_values(|s: &str| s@),
{
    let mut out: Vec<String> = Vec::new();
    let mut i: usize = 0;
    while i < items.len()
        invariant
            0 <= i <= items@.len(),
            texts(out@) == items@.take(i as int).map_values(|s: &str| s@),
        decreases items.len() - i,
    {
        out.push(owned(items[i]));
        assert(items@.take(i + 1).map_values(|s: &str| s@) =~= items@.take(i as int).map_values(|s: &str| s@).push(
            items@[i as int]@,
        ));
        assert(texts(out@) =~= items@.take(i + 1).map_values(|s: &str| s@));
        i += 1;
    }
    assert(items@.take(items@.len() as int) == items@);
    out
}

/// The command making a still preview of a picture `width` pixels wide (960 for the large
/// preview, 520 for the thumbnail).
pub fn still_command(input: &str, output: &str, width: u32) -> (c: CommandSpec)
    ensures
        c.program@ == "ffmpeg"@,
        texts(c.args@) == still_args(input@, output@, width as nat),
{
    let scale = cat3("scale=", decimal_string(width as u64).as_str(), ":-1:flags=fast_bilinear");
    let args = vec![
        owned("-y"),
        owned("-hide_banner"),
        owned("-loglevel"),
        owned("error"),
        owned("-i"),
        owned(input),
        owned("-frames:v"),
        owned("1"),
        owned("-vf"),
        scale,
        owned("-q:v"),
        owned("5"),
        owned(output),
    ];
    let c = CommandSpec { program: owned("ffmpeg"), args };
    assert(texts(c.args@) =~= still_args(input@, output@, width as nat));
    c
}

/// `ffmpeg` taking the frame one second into a video, scaled to `width`.
pub open spec fn video_frame_args(input: Seq<char>, output: Seq<char>, width: nat) -> Seq<Seq<char>> {
    seq![
        "-y"@,
        "-hide_banner"@,
        "-loglevel"@,
        "error"@,
        "-ss"@,
        "00:00:01"@,
        "-i"@,
        input,
        "-frames:v"@,
        "1"@,
        "-vf"@,
        "scale="@ + decimal(width) + ":-1:flags=fast_bilinear"@,
        "-q:v"@,
        "5"@,
        output,
    ]
}

pub fn video_frame_command(input: &str, output: &str, width: u32) -> (c: CommandSpec)
    ensures
        c.program@ == "ffmpeg"@,
        texts(c.args@) == video_frame_args(input@, output@, width as nat),
{
    let scale = cat3("scale=", decimal_string(width as u64).as_str(), ":-1:flags=fast_bilinear");
    let args = vec![
        owned("-y"),
        owned("-hide_banner"),
        owned("-loglevel"),
        owned("error"),
        owned("-ss"),
        owned("00:00:01"),
        owned("-i"),
        owned(input),
        owned("-frames:v"),
        owned("1"),
        owned("-vf"),
        scale,
        owned("-q:v"),
        owned("5"),
        owned(output),
    ];
    let c = CommandSpec { program: owned("ffmpeg"), args };
    assert(texts(c.args@) =~= video_frame_args(input@, output@, width as nat));
    c
}

/// `ffmpegthumbnailer` taking a frame a tenth into a video, `size` pixels large.
pub open spec fn thumbnailer_args(input: Seq<char>, output: Seq<char>, size: nat) -> Seq<Seq<char>> {
    seq!["-i"@, input, "-o"@, output, "-s"@, decimal(size), "-q"@, "8"@, "-t"@, "10%"@]
}

pub fn thumbnailer_command(input: &str, output: &str, size: u32) -> (c: CommandSpec)
    ensures
        c.program@ == "ffmpegthumbnailer"@,
        texts(c.args@) == thumbnailer_args(input@, output@, size as nat),
{
    let args = vec![
        owned("-i"),
        owned(input),
        owned("-o"),
        owned(output),
        owned("-s"),
        decimal_string(size as u64),
        owned("-q"),
        owned("8"),
        owned("-t"),
        owned("10%"),
    ];
    let c = CommandSpec { program: owned("ffmpegthumbnailer"), args };
    assert(texts(c.args@) =~= thumbnailer_args(input@, output@, size as nat));
    c
}

/// `ffmpeg` cutting a short, silent, small clip from half a second into a video.
pub open spec fn animation_args(input: Seq<char>, output: Seq<char>, p: LivePreviewProfile) -> Seq<Seq<char>> {
    seq![
        "-y"@,
        "-hide_banner"@,
        "-loglevel"@,
        "error"@,
        "-ss"@,
        "00:00:00.5"@,
        "-t"@,
        decimal(p.duration_secs as nat),
        "-i"@,
        input,
        "-vf"@,
        "fps="@ + decimal(p.fps as nat) + ",scale="@ + decimal(p.width as nat) + ":-2:flags=fast_bilinear"@,
        "-an"@,
        "-c:v"@,
        "libx264"@,
        "-preset"@,
        "veryfast"@,
        "-crf"@,
        decimal(p.crf as nat),
        "-pix_fmt"@,
        "yuv420p"@,
        "-movflags"@,
        "+faststart"@,
        output,
    ]
}

pub fn animation_command(input: &str, output: &str, profile: LivePreviewProfile) -> (c: CommandSpec)
    ensures
        c.program@ == "ffmpeg"@,
        texts(c.args@) == animation_args(input@, output@, profile),
{
    let fps = cat3("fps=", decimal_string(profile.fps as u64).as_str(), ",scale=");
    let filter = cat3(fps.as_str(), decimal_string(profile.width as u64).as_str(), ":-2:flags=fast_bilinear");
    let args = vec![
        owned("-y"),
        owned("-hide_banner"),
        owned("-loglevel"),
        owned("error"),
        owned("-ss"),
        owned("00:00:00.5"),
        owned("-t"),
        decimal_string(profile.duration_secs as u64),
        owned("-i"),
        owned(input),
        owned("-vf"),
        filter,
        owned("-an"),
        owned("-c:v"),
        owned("libx264"),
        owned("-preset"),
        owned("veryfast"),
        owned("-crf"),
        decimal_string(profile.crf as u64),
        owned("-pix_fmt"),
        owned("yuv420p"),
        owned("-movflags"),
        owned("+faststart"),
        owned(output),
    ];
    let c = CommandSpec { program: owned("ffmpeg"), args };
    assert(texts(c.args@) =~= animation_args(input@, output@, profile));
    c
}

// ---------------------------------------------------------------------------
// Asking the command line
// ---------------------------------------------------------------------------

/// `set <path>`, with `--dry-run --json` for a plan, then `--monitor <monitor>` when one is
/// named.
pub open spec fn set_args_spec(path: Seq<char>, monitor: Option<Seq<char>>, dry_run: bool) -> Seq<Seq<char>> {
    seq!["set"@, path] + (if dry_run {
        seq!["--dry-run"@, "--json"@]
    } else {
        seq![]
    }) + match monitor {
        Some(m) => if m.len() > 0 {
            seq!["--monitor"@, m]
        } else {
            seq![]
        },
        None => seq![],
    }
}

pub fn set_args(path: &str, monitor: Option<&str>, dry_run: bool) -> (r: Vec<String>)
    ensures
        texts(r@) == set_args_spec(path@, opt_text(monitor), dry_run),
{
    let mut args: Vec<String> = Vec::new();
    args.push(owned("set"));
    args.push(owned(path));
    if dry_run {
        args.push(owned("--dry-run"));
        args.push(owned("--json"));
    }
    match monitor {
        Some(m) => {
            if chars_of(m).len() > 0 {
                args.push(owned("--monitor"));
                args.push(owned(m));
            }
        },
        None => {},
    }
    let ghost want = set_args_spec(path@, opt_text(monitor), dry_run);
    assert(texts(args@) =~= want);
    args
}

/// Why a run of the command line failed: its trimmed error output, else its trimmed output,
/// else how it exited.
pub open spec fn run_failure_spec(binary: Seq<char>, stderr: Seq<char>, stdout: Seq<char>, status: Seq<char>) -> Seq<char> {
    binary + " failed: "@ + if trim(stderr).len() > 0 {
        trim(stderr)
    } else if trim(stdout).len() > 0 {
        trim(stdout)
    } else {
        "exited with "@ + status
    }
}

pub fn run_failure(binary: &str, stderr: &str, stdout: &str, status: &str) -> (r: String)
    ensures
        r@ == run_failure_spec(binary@, stderr@, stdout@, status@),
{
    let e = trim_str(stderr);
    let o = trim_str(stdout);
    let message = if chars_of(e.as_str()).len() > 0 {
        e
    } else if chars_of(o.as_str()).len() > 0 {
        o
    } else {
        cat("exited with ", status)
    };
    cat3(binary, " failed: ", message.as_str())
}


/// The live preview being generated, known by the token of the request that started it; a
/// newer request's preview replaces an older one's.
#[derive(Debug, Clone, Copy, PartialEq, Eq)]
pub struct LivePreviewSlot {
    pub active: Option<u64>,
}

impl LivePreviewSlot {
    pub fn new() -> (r: Self)
        ensures
            r.active is None,
    {
        LivePreviewSlot { active: None }
    }

    /// Records the preview started for `token`, and tells whether one was running before it,
    /// which is then to be stopped.
    pub fn record(&mut self, token: u64) -> (stop_previous: bool)
        ensures
            final(self).active == Some(token),
            stop_previous == old(self).active is Some,
    {
        let had = self.active.is_some();
        self.active = Some(token);
        had
    }

    /// Whether the running preview belongs to another request, and is to be stopped for
    /// `token`'s.
    pub fn is_stale(&self, token: u64) -> (r: bool)
        ensures
            r == (self.active is Some && self.active.unwrap() != token),
    {
        match self.active {
            Some(t) => t != token,
            None => false,
        }
    }

    /// Whether the running preview is the one `token` started: only that one is polled or
    /// cancelled for it.
    pub fn is_current(&self, token: u64) -> (r: bool)
        ensures
            r == (self.active == Some(token)),
    {
        match self.active {
            Some(t) => t == token,
            None => false,
        }
    }

    /// Forgets the preview of `token`, keeping one that another request started.
    pub fn clear(&mut self, token: u64)
        ensures
            final(self).active == (if old(self).active == Some(token) {
                None::<u64>
            } else {
                old(self).active
            }),
    {
        if self.is_current(token) {
            self.active = None;
        }
    }
}

/// What a request for a preview file does while another may be making it.
#[derive(Debug, Clone, Copy, PartialEq, Eq)]
pub enum GenerationTurn {
    /// This request holds the file's lock: make the file, then release the lock.
    Generate,
    /// Another request made the file meanwhile: use it.
    UseCached,
    /// Another request is still making it: look again shortly.
    Wait,
}

/// The first request to take a file's lock makes the file; the others use it once it is there.
pub fn generation_turn(took_lock: bool, cache_exists: bool) -> (r: GenerationTurn)
    ensures
        r == (if took_lock {
            GenerationTurn::Generate
        } else if cache_exists {
            GenerationTurn::UseCached
        } else {
            GenerationTurn::Wait
        }),
{
    if took_lock {
        GenerationTurn::Generate
    } else if cache_exists {
        GenerationTurn::UseCached
    } else {
        GenerationTurn::Wait
    }
}


// ---------------------------------------------------------------------------
// Finding the command line
// ---------------------------------------------------------------------------

/// Where the window looks for the `jobowalls` program, in turn: beside its own executable, in
/// `target/debug` of the working folder and of each folder above it (`ancestors`, nearest
/// first), and in `~/.local/bin`.
pub open spec fn binary_candidates_spec(
    exe_dir: Option<Seq<char>>,
    ancestors: Seq<Seq<char>>,
    home: Option<Seq<char>>,
) -> Seq<Seq<char>> {
    (match exe_dir {
        Some(d) => seq![join(d, "jobowalls"@)],
        None => seq![],
    }) + ancestors.map_values(|b: Seq<char>| join(join(join(b, "target"@), "debug"@), "jobowalls"@)) + (
    match home {
        Some(h) => seq![join(join(join(h, ".local"@), "bin"@), "jobowalls"@)],
        None => seq![],
    })
}

pub fn binary_candidates(exe_dir: Option<&str>, ancestors: &[String], home: Option<&str>) -> (r: Vec<String>)
    ensures
        texts(r@) == binary_candidates_spec(opt_text(exe_dir), texts(ancestors@), opt_text(home)),
{
    let mut out: Vec<String> = Vec::new();
    match exe_dir {
        Some(d) => out.push(path_join(d, "jobowalls")),
        None => {},
    }
    let ghost head = match opt_text(exe_dir) {
        Some(d) => seq![join(d, "jobowalls"@)],
        None => Seq::<Seq<char>>::empty(),
    };
    assert(texts(out@) =~= head);
    let mut i: usize = 0;
    while i < ancestors.len()
        invariant
            0 <= i <= ancestors@.len(),
            texts(out@) == head + texts(ancestors@).take(i as int).map_values(
                |b: Seq<char>| join(join(join(b, "target"@), "debug"@), "jobowalls"@),
            ),
        decreases ancestors.len() - i,
    {
        let a = path_join(ancestors[i].as_str(), "target");
        let b = path_join(a.as_str(), "debug");
        let ghost before = texts(out@);
        out.push(path_join(b.as_str(), "jobowalls"));
        assert(texts(ancestors@).take(i + 1) =~= texts(ancestors@).take(i as int).push(ancestors@[i as int]@));
        assert(texts(out@) =~= before.push(join(join(join(ancestors@[i as int]@, "target"@), "debug"@), "jobowalls"@)));
        i += 1;
    }
    assert(texts(ancestors@).take(ancestors@.len() as int) =~= texts(ancestors@));
    let ghost middle = texts(out@);
    match home {
        Some(h) => {
            let a = path_join(h, ".local");
            let b = path_join(a.as_str(), "bin");
            out.push(path_join(b.as_str(), "jobowalls"));
            assert(texts(out@) =~= middle.push(join(join(join(h@, ".local"@), "bin"@), "jobowalls"@)));
        },
        None => {},
    }
    let ghost want = binary_candidates_spec(opt_text(exe_dir), texts(ancestors@), opt_text(home));
    assert(texts(out@) =~= want);
    out
}

/// The program run for the command line: the one `JOBOWALLS_BIN` names; else the first candidate
/// found to exist; else `jobowalls`, left for the search path to find.
pub open spec fn first_existing(exists: Seq<bool>, i: int) -> bool {
    &&& 0 <= i < exists.len()
    &&& exists[i]
    &&& forall|j: int| 0 <= j < i ==> !#[trigger] exists[j]
}

pub fn pick_binary(env_bin: Option<&str>, candidates: &[String], exists: &[bool]) -> (r: String)
    requires
        exists@.len() == candidates@.len(),
    ensures
        match env_bin {
            Some(b) => r@ == b@,
            None => (exists|i: int| first_existing(exists@, i) && r@ == candidates@[i]@) || (r@ == "jobowalls"@
                && forall|j: int| 0 <= j < exists@.len() ==> !#[trigger] exists@[j]),
        },
{
    match env_bin {
        Some(b) => {
            return owned(b);
        },
        None => {},
    }
    let mut i: usize = 0;
    while i < exists.len()
        invariant
            env_bin is None,
            exists@.len() == candidates@.len(),
            0 <= i <= exists@.len(),
            forall|j: int| 0 <= j < i ==> !#[trigger] exists@[j],
        decreases exists.len() - i,
    {
        if exists[i] {
            assert(first_existing(exists@, i as int));
            return owned(candidates[i].as_str());
        }
        i += 1;
    }
    owned("jobowalls")
}


// ---------------------------------------------------------------------------
// Making a live preview's animation
// ---------------------------------------------------------------------------

/// What making an animated preview does next.
#[derive(Debug, PartialEq, Eq)]
pub enum AnimationTurn {
    /// Look again shortly whether `ffmpeg` has finished.
    Poll,
    /// The animation is made: use the cached file.
    UseAnimation,
    /// No animation can be had: remove what was written and make a still poster instead.
    FallBackToPoster,
    /// A newer request took over: stop `ffmpeg`, remove what was written, and fail with
    /// `stale live preview request cancelled`.
    Cancel,
    /// Fail with this error.
    Fail(String),
}

/// After trying to start `ffmpeg`: a missing `ffmpeg` (`not_found`) falls back to a poster;
/// another failure is an error; a start goes on to wait for it.
pub fn animation_start_turn(started: Result<(), (bool, String)>) -> (r: AnimationTurn)
    ensures
        match started {
            Ok(()) => r == AnimationTurn::Poll,
            Err((not_found, e)) => if not_found {
                r == AnimationTurn::FallBackToPoster
            } else {
                r matches AnimationTurn::Fail(m) && m@ == "failed to start ffmpeg: "@ + e@
            },
        },
{
    match started {
        Ok(()) => AnimationTurn::Poll,
        Err((not_found, e)) => {
            if not_found {
                AnimationTurn::FallBackToPoster
            } else {
                AnimationTurn::Fail(cat("failed to start ffmpeg: ", e.as_str()))
            }
        },
    }
}

/// While `ffmpeg` runs: a request that is no longer the newest is cancelled; one still running
/// is polled again; one that exited successfully with the file written is used; any other end
/// falls back to a poster.
pub fn animation_wait_turn(still_newest: bool, exited: Option<bool>, cache_exists: bool) -> (r: AnimationTurn)
    ensures
        r == (if !still_newest {
            AnimationTurn::Cancel
        } else if exited is None {
            AnimationTurn::Poll
        } else if exited == Some(true) && cache_exists {
            AnimationTurn::UseAnimation
        } else {
            AnimationTurn::FallBackToPoster
        }),
{
    if !still_newest {
        return AnimationTurn::Cancel;
    }
    match exited {
        None => AnimationTurn::Poll,
        Some(success) => {
            if success && cache_exists {
                AnimationTurn::UseAnimation
            } else {
                AnimationTurn::FallBackToPoster
            }
        },
    }
}

} // verus!
