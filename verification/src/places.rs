//! Where the tool keeps its files, found from the user's folders (`dirs`).
//!
//! The user's folders come from the environment, so nothing is claimed of what `dirs` answers;
//! each path below is stated for whatever it answered.
use vstd::prelude::*;
use crate::cli::{default_config_path, default_state_path};
use crate::path::{join, path_join};
use crate::shell::preview::{cache_dir_from, cache_dir_spec};
use crate::text::owned;
use crate::collection::opt_text;

verus! {

/// `dirs::home_dir`, as text (`Path::display`, which replaces what is not UTF-8); it reads the
/// environment, so its answer is not described.
#[verifier::external_body]
fn home_dir() -> (r: Option<String>) {
    dirs::home_dir().map(|p| p.display().to_string())
}

/// `dirs::config_dir`, as text (`Path::display`, which replaces what is not UTF-8); it reads the
/// environment, so its answer is not described.
#[verifier::external_body]
fn config_dir() -> (r: Option<String>) {
    dirs::config_dir().map(|p| p.display().to_string())
}

/// `dirs::cache_dir`, as text (`Path::display`, which replaces what is not UTF-8); it reads the
/// environment, so its answer is not described.
#[verifier::external_body]
fn cache_dir() -> (r: Option<String>) {
    dirs::cache_dir().map(|p| p.display().to_string())
}

/// `dirs::state_dir`, as text (`Path::display`, which replaces what is not UTF-8); it reads the
/// environment, so its answer is not described.
#[verifier::external_body]
fn state_dir() -> (r: Option<String>) {
    dirs::state_dir().map(|p| p.display().to_string())
}

pub open spec fn opt_seq(s: Option<String>) -> Option<Seq<char>> {
    match s {
        Some(x) => Some(x@),
        None => None,
    }
}

/// The user's home folder, when it is known.
pub fn home() -> (r: Option<String>) {
    home_dir()
}

/// `<config dir>/jobowalls/config.toml` (the config dir being `.` when unknown).
pub open spec fn config_path_spec(d: Option<Seq<char>>) -> Seq<char> {
    join(
        join(
            match d {
                Some(x) => x,
                None => "."@,
            },
            "jobowalls"@,
        ),
        "config.toml"@,
    )
}

pub fn config_path() -> (r: String)
    ensures
        exists|d: Option<Seq<char>>| r@ == config_path_spec(d),
{
    let d = config_dir();
    let r = match &d {
        Some(x) => default_config_path(Some(x.as_str())),
        None => default_config_path(None),
    };
    assert(r@ == config_path_spec(opt_seq(d)));
    r
}

/// The runtime state file: under `$XDG_STATE_HOME` when given, else under the home folder,
/// else `state.json`.
pub open spec fn state_path_spec(xdg: Option<Seq<char>>, h: Option<Seq<char>>) -> Seq<char> {
    match xdg {
        Some(s) => join(join(s, "jobowalls"@), "state.json"@),
        None => match h {
            Some(h) => join(join(join(join(h, ".local"@), "state"@), "jobowalls"@), "state.json"@),
            None => "state.json"@,
        },
    }
}

pub fn state_path(xdg_state_home: Option<&str>) -> (r: String)
    ensures
        exists|h: Option<Seq<char>>|
            r@ == #[trigger] state_path_spec(opt_text(xdg_state_home), h),
{
    let h = home_dir();
    let r = match &h {
        Some(x) => default_state_path(xdg_state_home, Some(x.as_str())),
        None => default_state_path(xdg_state_home, None),
    };
    assert(r@ == state_path_spec(opt_text(xdg_state_home), opt_seq(h)));
    r
}

/// `<config dir>/jobowalls/collections.toml` (the config dir being `.` when unknown).
pub open spec fn collections_path_spec(config_dir: Option<Seq<char>>) -> Seq<char> {
    join(
        join(
            match config_dir {
                Some(x) => x,
                None => "."@,
            },
            "jobowalls"@,
        ),
        "collections.toml"@,
    )
}

pub fn default_collections_path() -> (r: String)
    ensures
        exists|d: Option<Seq<char>>| r@ == collections_path_spec(d),
{
    let d = config_dir();
    let base = match &d {
        Some(x) => owned(x.as_str()),
        None => owned("."),
    };
    let a = path_join(base.as_str(), "jobowalls");
    let r = path_join(a.as_str(), "collections.toml");
    assert(r@ == collections_path_spec(opt_seq(d)));
    r
}

/// The folder the tool's state files go in: `<state dir>/jobowalls`, else
/// `<home>/.local/state/jobowalls`, else `./.local/state/jobowalls`.
pub open spec fn state_folder_spec(state: Option<Seq<char>>, home: Option<Seq<char>>) -> Seq<char> {
    join(
        match state {
            Some(s) => s,
            None => join(
                match home {
                    Some(h) => h,
                    None => "."@,
                },
                ".local/state"@,
            ),
        },
        "jobowalls"@,
    )
}

fn state_folder(state: &Option<String>, home: &Option<String>) -> (r: String)
    ensures
        r@ == state_folder_spec(opt_seq(*state), opt_seq(*home)),
{
    let base = match state {
        Some(s) => owned(s.as_str()),
        None => match home {
            Some(h) => path_join(h.as_str(), ".local/state"),
            None => path_join(".", ".local/state"),
        },
    };
    path_join(base.as_str(), "jobowalls")
}

/// The picker's remembered state: `shell.json` in the state folder.
pub fn shell_state_path() -> (r: String)
    ensures
        exists|s: Option<Seq<char>>, h: Option<Seq<char>>| r@ == join(state_folder_spec(s, h), "shell.json"@),
{
    let s = state_dir();
    let h = home_dir();
    let f = state_folder(&s, &h);
    path_join(f.as_str(), "shell.json")
}

/// The runtime state as the picker finds it: `state.json` in the state folder.
pub fn runtime_state_path() -> (r: String)
    ensures
        exists|s: Option<Seq<char>>, h: Option<Seq<char>>| r@ == join(state_folder_spec(s, h), "state.json"@),
{
    let s = state_dir();
    let h = home_dir();
    let f = state_folder(&s, &h);
    path_join(f.as_str(), "state.json")
}

/// The picker's preview cache folder.
pub fn preview_cache_dir() -> (r: String)
    ensures
        exists|c: Option<Seq<char>>, h: Option<Seq<char>>| r@ == cache_dir_spec(c, h),
{
    let c = cache_dir();
    let h = home_dir();
    let r = match (&c, &h) {
        (Some(x), Some(y)) => cache_dir_from(Some(x.as_str()), Some(y.as_str())),
        (Some(x), None) => cache_dir_from(Some(x.as_str()), None),
        (None, Some(y)) => cache_dir_from(None, Some(y.as_str())),
        (None, None) => cache_dir_from(None, None),
    };
    assert(r@ == cache_dir_spec(opt_seq(c), opt_seq(h)));
    r
}

} // verus!
