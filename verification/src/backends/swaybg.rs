//! `swaybg`: static wallpapers, one process per invocation.
use vstd::prelude::*;
use crate::backends::model::{Backend, WallpaperBackend};
use crate::command::CommandSpec;
use crate::text::texts;
use crate::media::MediaKind;
use crate::orchestrator::SetPlan;
use crate::text::{owned, str_eq};

verus! {

#[derive(Debug)]
pub struct SwaybgBackend;

impl WallpaperBackend for SwaybgBackend {
    fn backend(&self) -> (b: Backend)
        ensures
            b == Backend::Swaybg,
    {
        Backend::Swaybg
    }

    fn name(&self) -> (s: String)
        ensures
            s@ == "swaybg"@,
    {
        owned("swaybg")
    }

    fn supports(&self, media: MediaKind) -> (b: bool)
        ensures
            b == (media == MediaKind::Static),
    {
        media == MediaKind::Static
    }
}

/// The arguments of `swaybg -i <wallpaper> -m fill`, with `-o <monitor>` unless the plan
/// targets `all`.
pub open spec fn start_args(plan: SetPlan) -> Seq<Seq<char>> {
    seq!["-i"@, plan.wallpaper@, "-m"@, "fill"@] + if plan.monitor@ != "all"@ {
        seq!["-o"@, plan.monitor@]
    } else {
        seq![]
    }
}

/// `swaybg -i <wallpaper> -m fill`, with `-o <monitor>` unless the plan targets `all`.
pub fn start_command(plan: &SetPlan) -> (c: CommandSpec)
    ensures
        c.program@ == "swaybg"@,
        texts(c.args@) == start_args(*plan),
{
    let mut args: Vec<String> = Vec::new();
    args.push(owned("-i"));
    args.push(plan.wallpaper.clone());
    args.push(owned("-m"));
    args.push(owned("fill"));
    let ghost base = texts(args@);
    if !str_eq(plan.monitor.as_str(), "all") {
        args.push(owned("-o"));
        args.push(plan.monitor.clone());
        assert(texts(args@) =~= base + seq!["-o"@, plan.monitor@]);
    } else {
        assert(texts(args@) =~= base + Seq::<Seq<char>>::empty());
    }
    assert(base =~= seq!["-i"@, plan.wallpaper@, "-m"@, "fill"@]);
    CommandSpec::new("swaybg", args)
}

} // verus!
