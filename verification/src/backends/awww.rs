//! `awww`: static wallpapers with animated transitions, through a daemon.
use vstd::prelude::*;
use crate::backends::model::{Backend, WallpaperBackend};
use crate::command::CommandSpec;
use crate::text::texts;
use crate::config::AwwwConfig;
use crate::media::MediaKind;
use crate::orchestrator::SetPlan;
use crate::text::{owned, str_eq, decimal_string, decimal};

verus! {

#[derive(Debug)]
pub struct AwwwBackend;

impl WallpaperBackend for AwwwBackend {
    fn backend(&self) -> (b: Backend)
        ensures
            b == Backend::Awww,
    {
        Backend::Awww
    }

    fn name(&self) -> (s: String)
        ensures
            s@ == "awww"@,
    {
        owned("awww")
    }

    fn supports(&self, media: MediaKind) -> (b: bool)
        ensures
            b == (media == MediaKind::Static),
    {
        media == MediaKind::Static
    }
}

/// `--outputs <monitor>` unless the plan targets `all`.
pub open spec fn outputs_args(plan: SetPlan) -> Seq<Seq<char>> {
    if plan.monitor@ != "all"@ {
        seq!["--outputs"@, plan.monitor@]
    } else {
        seq![]
    }
}

fn push_outputs(args: &mut Vec<String>, plan: &SetPlan)
    ensures
        texts(final(args)@) == texts(old(args)@) + outputs_args(*plan),
{
    let ghost base = texts(args@);
    if !str_eq(plan.monitor.as_str(), "all") {
        args.push(owned("--outputs"));
        args.push(plan.monitor.clone());
        assert(texts(args@) =~= base + seq!["--outputs"@, plan.monitor@]);
    } else {
        assert(texts(args@) =~= base + Seq::<Seq<char>>::empty());
    }
}

/// The arguments of `awww img` with the configured transition.
pub open spec fn apply_args(plan: SetPlan, config: AwwwConfig) -> Seq<Seq<char>> {
    seq![
        "img"@,
        plan.wallpaper@,
        "--transition-type"@,
        config.transition_type@,
        "--transition-duration"@,
        config.transition_duration@,
        "--transition-fps"@,
        decimal(config.transition_fps as nat),
        "--transition-pos"@,
        config.transition_pos@,
        "--transition-bezier"@,
        config.transition_bezier@,
        "--transition-wave"@,
        config.transition_wave@,
    ] + outputs_args(plan)
}

/// The arguments of `awww img` with no transition.
pub open spec fn instant_args(plan: SetPlan) -> Seq<Seq<char>> {
    seq!["img"@, plan.wallpaper@, "--transition-type"@, "none"@, "--transition-step"@, "255"@]
        + outputs_args(plan)
}

/// `awww img` with the configured transition.
pub fn apply_command(plan: &SetPlan, config: &AwwwConfig) -> (c: CommandSpec)
    ensures
        c.program@ == "awww"@,
        texts(c.args@) == apply_args(*plan, *config),
{
    let mut args: Vec<String> = Vec::new();
    args.push(owned("img"));
    args.push(plan.wallpaper.clone());
    args.push(owned("--transition-type"));
    args.push(config.transition_type.clone());
    args.push(owned("--transition-duration"));
    args.push(config.transition_duration.clone());
    args.push(owned("--transition-fps"));
    args.push(decimal_string(config.transition_fps as u64));
    args.push(owned("--transition-pos"));
    args.push(config.transition_pos.clone());
    args.push(owned("--transition-bezier"));
    args.push(config.transition_bezier.clone());
    args.push(owned("--transition-wave"));
    args.push(config.transition_wave.clone());
    assert(texts(args@) =~= seq![
        "img"@,
        plan.wallpaper@,
        "--transition-type"@,
        config.transition_type@,
        "--transition-duration"@,
        config.transition_duration@,
        "--transition-fps"@,
        decimal(config.transition_fps as nat),
        "--transition-pos"@,
        config.transition_pos@,
        "--transition-bezier"@,
        config.transition_bezier@,
        "--transition-wave"@,
        config.transition_wave@,
    ]);
    push_outputs(&mut args, plan);
    CommandSpec::new("awww", args)
}

/// `awww img` with no transition (used when a live wallpaper gives way to a static one).
pub fn apply_instant_command(plan: &SetPlan) -> (c: CommandSpec)
    ensures
        c.program@ == "awww"@,
        texts(c.args@) == instant_args(*plan),
{
    let mut args: Vec<String> = Vec::new();
    args.push(owned("img"));
    args.push(plan.wallpaper.clone());
    args.push(owned("--transition-type"));
    args.push(owned("none"));
    args.push(owned("--transition-step"));
    args.push(owned("255"));
    assert(texts(args@) =~= seq![
        "img"@,
        plan.wallpaper@,
        "--transition-type"@,
        "none"@,
        "--transition-step"@,
        "255"@,
    ]);
    push_outputs(&mut args, plan);
    CommandSpec::new("awww", args)
}

/// `awww query`: answers when the daemon is running.
pub fn query_command() -> (c: CommandSpec)
    ensures
        c.program@ == "awww"@,
        texts(c.args@) == seq!["query"@],
{
    let mut args: Vec<String> = Vec::new();
    args.push(owned("query"));
    assert(texts(args@) =~= seq!["query"@]);
    CommandSpec::new("awww", args)
}

/// `awww-daemon --quiet`.
pub fn daemon_command() -> (c: CommandSpec)
    ensures
        c.program@ == "awww-daemon"@,
        texts(c.args@) == seq!["--quiet"@],
{
    let mut args: Vec<String> = Vec::new();
    args.push(owned("--quiet"));
    assert(texts(args@) =~= seq!["--quiet"@]);
    CommandSpec::new("awww-daemon", args)
}

} // verus!
