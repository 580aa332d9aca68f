//! `hyprpaper`: static wallpapers through `hyprctl hyprpaper`.
use vstd::prelude::*;
use crate::backends::model::{Backend, WallpaperBackend};
use crate::command::CommandSpec;
use crate::text::texts;
use crate::config::HyprpaperConfig;
use crate::media::MediaKind;
use crate::orchestrator::{SetPlan, target_names};
use crate::text::{owned, str_eq, cat3};

verus! {

#[derive(Debug)]
pub struct HyprpaperBackend;

impl WallpaperBackend for HyprpaperBackend {
    fn backend(&self) -> (b: Backend)
        ensures
            b == Backend::Hyprpaper,
    {
        Backend::Hyprpaper
    }

    fn name(&self) -> (s: String)
        ensures
            s@ == "hyprpaper"@,
    {
        owned("hyprpaper")
    }

    fn supports(&self, media: MediaKind) -> (b: bool)
        ensures
            b == (media == MediaKind::Static),
    {
        media == MediaKind::Static
    }
}

/// `<monitor>,<wallpaper>`, the argument of `hyprctl hyprpaper wallpaper`.
pub open spec fn target_text(monitor: Seq<char>, wallpaper: Seq<char>) -> Seq<char> {
    monitor + ","@ + wallpaper
}

pub fn wallpaper_target(monitor: &str, wallpaper: &str) -> (s: String)
    ensures
        s@ == target_text(monitor@, wallpaper@),
{
    cat3(monitor, ",", wallpaper)
}

/// Whether a command is `hyprctl hyprpaper wallpaper <monitor>,<wallpaper>`.
pub open spec fn is_wallpaper_command(c: CommandSpec, monitor: Seq<char>, wallpaper: Seq<char>) -> bool {
    c.program@ == "hyprctl"@ && texts(c.args@) == seq![
        "hyprpaper"@,
        "wallpaper"@,
        target_text(monitor, wallpaper),
    ]
}

fn wallpaper_command(monitor: &str, wallpaper: &str) -> (c: CommandSpec)
    ensures
        is_wallpaper_command(c, monitor@, wallpaper@),
{
    let mut args: Vec<String> = Vec::new();
    args.push(owned("hyprpaper"));
    args.push(owned("wallpaper"));
    args.push(wallpaper_target(monitor, wallpaper));
    assert(texts(args@) =~= seq!["hyprpaper"@, "wallpaper"@, target_text(monitor@, wallpaper@)]);
    CommandSpec::new("hyprctl", args)
}

/// One `hyprctl hyprpaper wallpaper` command per target monitor, in order.
pub fn wallpaper_commands(plan: &SetPlan, monitors: &[String]) -> (r: Vec<CommandSpec>)
    ensures
        r@.len() == target_names(*plan, texts(monitors@)).len(),
        forall|i: int|
            0 <= i < r@.len() ==> is_wallpaper_command(
                #[trigger] r@[i],
                target_names(*plan, texts(monitors@))[i],
                plan.wallpaper@,
            ),
{
    let mut out: Vec<CommandSpec> = Vec::new();
    if str_eq(plan.monitor.as_str(), "all") {
        let mut i: usize = 0;
        while i < monitors.len()
            invariant
                plan.monitor@ == "all"@,
                0 <= i <= monitors@.len(),
                out@.len() == i,
                forall|k: int|
                    0 <= k < i ==> is_wallpaper_command(
                        #[trigger] out@[k],
                        monitors@[k]@,
                        plan.wallpaper@,
                    ),
            decreases monitors.len() - i,
        {
            out.push(wallpaper_command(monitors[i].as_str(), plan.wallpaper.as_str()));
            i += 1;
        }
    } else {
        out.push(wallpaper_command(plan.monitor.as_str(), plan.wallpaper.as_str()));
    }
    out
}

/// `hyprctl hyprpaper preload`, one wallpaper command per target monitor, then
/// `unload unused` when configured.
pub open spec fn apply_commands_spec(
    r: Seq<CommandSpec>,
    plan: SetPlan,
    monitors: Seq<Seq<char>>,
    config: HyprpaperConfig,
) -> bool {
    let targets = target_names(plan, monitors);
    &&& r.len() == 1 + targets.len() + if config.unload_unused {
        1int
    } else {
        0int
    }
    &&& r[0].program@ == "hyprctl"@
    &&& texts(r[0].args@) == seq!["hyprpaper"@, "preload"@, plan.wallpaper@]
    &&& forall|i: int|
        0 <= i < targets.len() ==> is_wallpaper_command(#[trigger] r[i + 1], targets[i], plan.wallpaper@)
    &&& config.unload_unused ==> r[r.len() - 1].program@ == "hyprctl"@ && texts(r[r.len() - 1].args@)
        == seq!["hyprpaper"@, "unload"@, "unused"@]
}

/// `hyprctl hyprpaper preload`, the wallpaper commands, then `unload unused` when configured.
pub fn apply_commands(plan: &SetPlan, monitors: &[String], config: &HyprpaperConfig) -> (r: Vec<
    CommandSpec,
>)
    ensures
        apply_commands_spec(r@, *plan, texts(monitors@), *config),
{
    let mut pre: Vec<String> = Vec::new();
    pre.push(owned("hyprpaper"));
    pre.push(owned("preload"));
    pre.push(plan.wallpaper.clone());
    assert(texts(pre@) =~= seq!["hyprpaper"@, "preload"@, plan.wallpaper@]);
    let mut commands: Vec<CommandSpec> = Vec::new();
    commands.push(CommandSpec::new("hyprctl", pre));
    let mut rest = wallpaper_commands(plan, monitors);
    let ghost first = commands@[0];
    let ghost mid = rest@;
    commands.append(&mut rest);
    assert(commands@ == seq![first] + mid);
    if config.unload_unused {
        let mut un: Vec<String> = Vec::new();
        un.push(owned("hyprpaper"));
        un.push(owned("unload"));
        un.push(owned("unused"));
        assert(texts(un@) =~= seq!["hyprpaper"@, "unload"@, "unused"@]);
        commands.push(CommandSpec::new("hyprctl", un));
    }
    assert forall|i: int|
        0 <= i < mid.len() implies #[trigger] commands@[i + 1] == mid[i] by {}
    commands
}

/// `hyprctl hyprpaper listloaded`: answers when the daemon is running.
pub fn query_command() -> (c: CommandSpec)
    ensures
        c.program@ == "hyprctl"@,
        texts(c.args@) == seq!["hyprpaper"@, "listloaded"@],
{
    let mut args: Vec<String> = Vec::new();
    args.push(owned("hyprpaper"));
    args.push(owned("listloaded"));
    assert(texts(args@) =~= seq!["hyprpaper"@, "listloaded"@]);
    CommandSpec::new("hyprctl", args)
}

/// `hyprpaper`, the daemon.
pub fn daemon_command() -> (c: CommandSpec)
    ensures
        c.program@ == "hyprpaper"@,
        c.args@.len() == 0,
{
    CommandSpec::new("hyprpaper", Vec::new())
}

} // verus!
