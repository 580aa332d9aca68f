//! `mpvpaper`: live wallpapers, one `mpv` per monitor.
use vstd::prelude::*;
use crate::backends::model::{Backend, WallpaperBackend};
use crate::command::CommandSpec;
use crate::text::texts;
use crate::config::MpvpaperConfig;
use crate::media::MediaKind;
use crate::orchestrator::SetPlan;
use crate::text::{owned, cat, chars_of, string_of_range, push_char};

verus! {

#[derive(Debug)]
pub struct MpvpaperBackend;

impl WallpaperBackend for MpvpaperBackend {
    fn backend(&self) -> (b: Backend)
        ensures
            b == Backend::Mpvpaper,
    {
        Backend::Mpvpaper
    }

    fn name(&self) -> (s: String)
        ensures
            s@ == "mpvpaper"@,
    {
        owned("mpvpaper")
    }

    fn supports(&self, media: MediaKind) -> (b: bool)
        ensures
            b == (media == MediaKind::Live),
    {
        media == MediaKind::Live
    }
}

/// `str::trim_start_matches("--")`: every leading `--` removed.
pub open spec fn strip_dashes(s: Seq<char>) -> Seq<char>
    decreases s.len(),
{
    if s.len() >= 2 && s[0] == '-' && s[1] == '-' {
        strip_dashes(s.skip(2))
    } else {
        s
    }
}

/// Words joined with single spaces.
pub open spec fn joined(words: Seq<Seq<char>>) -> Seq<char>
    decreases words.len(),
{
    if words.len() == 0 {
        seq![]
    } else if words.len() == 1 {
        words[0]
    } else {
        joined(words.drop_last()) + seq![' '] + words.last()
    }
}

/// The `--mpv-options` value: each extra argument without its leading dashes, space-separated.
pub open spec fn mpv_options_spec(extra: Seq<Seq<char>>) -> Seq<char> {
    joined(extra.map_values(|a: Seq<char>| strip_dashes(a)))
}

fn strip_dashes_exec(a: &str) -> (r: String)
    ensures
        r@ == strip_dashes(a@),
{
    let v = chars_of(a);
    let mut i: usize = 0;
    assert(v@.skip(0) == v@);
    while i < v.len() && v.len() - i >= 2 && v[i] == '-' && v[i + 1] == '-'
        invariant
            0 <= i <= v.len(),
            v@ == a@,
            strip_dashes(a@) == strip_dashes(v@.skip(i as int)),
        decreases v.len() - i,
    {
        assert(v@.skip(i as int).skip(2) == v@.skip(i + 2));
        i += 2;
    }
    string_of_range(&v, i, v.len())
}

/// Normalizes `--flag` style mpv arguments into mpvpaper's `--mpv-options` form.
pub fn mpv_options(extra_args: &[String]) -> (r: String)
    ensures
        r@ == mpv_options_spec(texts(extra_args@)),
{
    let ghost words = texts(extra_args@).map_values(|a: Seq<char>| strip_dashes(a));
    let mut r = String::new();
    let mut i: usize = 0;
    while i < extra_args.len()
        invariant
            0 <= i <= extra_args@.len(),
            words == texts(extra_args@).map_values(|a: Seq<char>| strip_dashes(a)),
            r@ == joined(words.take(i as int)),
        decreases extra_args.len() - i,
    {
        let w = strip_dashes_exec(extra_args[i].as_str());
        assert(words.take(i + 1).drop_last() == words.take(i as int));
        assert(words.take(i + 1).last() == w@);
        if i > 0 {
            push_char(&mut r, ' ');
        } else {
            assert(words.take(1)[0] == w@);
        }
        r.append(w.as_str());
        proof {
            if i == 0 {
                assert(r@ =~= w@);
            }
        }
        i += 1;
    }
    assert(words.take(extra_args@.len() as int) == words);
    r
}

/// `mpvpaper --mpv-options <options> <monitor> <wallpaper>`.
pub fn start_command(plan: &SetPlan, config: &MpvpaperConfig) -> (c: CommandSpec)
    ensures
        c.program@ == "mpvpaper"@,
        texts(c.args@) == seq![
            "--mpv-options"@,
            mpv_options_spec(texts(config.extra_args@)),
            plan.monitor@,
            plan.wallpaper@,
        ],
{
    let mut args: Vec<String> = Vec::new();
    args.push(owned("--mpv-options"));
    args.push(mpv_options(config.extra_args.as_slice()));
    args.push(plan.monitor.clone());
    args.push(plan.wallpaper.clone());
    assert(texts(args@) =~= seq![
        "--mpv-options"@,
        mpv_options_spec(texts(config.extra_args@)),
        plan.monitor@,
        plan.wallpaper@,
    ]);
    CommandSpec::new("mpvpaper", args)
}

/// The same command with `--input-ipc-server=<socket>` added to the mpv options.
pub fn start_command_with_ipc(plan: &SetPlan, config: &MpvpaperConfig, ipc_socket: &str) -> (c:
    CommandSpec)
    ensures
        c.program@ == "mpvpaper"@,
        texts(c.args@) == seq![
            "--mpv-options"@,
            mpv_options_spec(
                texts(config.extra_args@).push(
                    "--input-ipc-server="@ + ipc_socket@,
                ),
            ),
            plan.monitor@,
            plan.wallpaper@,
        ],
{
    let mut extra_args = config.extra_args.clone();
    let ghost before = texts(config.extra_args@);
    proof {
        assert(texts(extra_args@) =~= before) by {
            assert forall|i: int| 0 <= i < extra_args@.len() implies extra_args@[i]@ == config.extra_args@[i]@ by {
                assert(cloned::<String>(config.extra_args@[i], extra_args@[i]));
            }
        }
    }
    extra_args.push(cat("--input-ipc-server=", ipc_socket));
    assert(texts(extra_args@) =~= before.push("--input-ipc-server="@ + ipc_socket@));
    let mut args: Vec<String> = Vec::new();
    args.push(owned("--mpv-options"));
    args.push(mpv_options(extra_args.as_slice()));
    args.push(plan.monitor.clone());
    args.push(plan.wallpaper.clone());
    assert(texts(args@) =~= seq![
        "--mpv-options"@,
        mpv_options_spec(before.push("--input-ipc-server="@ + ipc_socket@)),
        plan.monitor@,
        plan.wallpaper@,
    ]);
    CommandSpec::new("mpvpaper", args)
}

/// `mpvpaper --help-output`: lists the outputs mpvpaper can draw on.
pub fn list_outputs_command() -> (c: CommandSpec)
    ensures
        c.program@ == "mpvpaper"@,
        texts(c.args@) == seq!["--help-output"@],
{
    let mut args: Vec<String> = Vec::new();
    args.push(owned("--help-output"));
    assert(texts(args@) =~= seq!["--help-output"@]);
    CommandSpec::new("mpvpaper", args)
}

} // verus!
