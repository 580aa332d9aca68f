//! The text the command line prints: the saved state, the health check, and the plans a dry
//! run shows.
use vstd::prelude::*;
use crate::backends::model::{Backend, backend_name};
use crate::cli::{pid_status, BackendAvailability, detected_static_auto_backend, auto_backend_spec};
use crate::config::{Config, StaticBackendPreference};
use crate::media::MediaKind;
use crate::state::{State, MonitorState, CollectionState, monitor_plans_ok};
use crate::restore::{all_live, records_only_live};
use crate::strmap::StrMap;
use crate::text::{texts, cat, cat3, owned, decimal, decimal_string};
use crate::backends::{awww, hyprpaper, mpvpaper, swaybg};
use crate::backends::awww::apply_args;
use crate::backends::hyprpaper::{apply_commands_spec, is_wallpaper_command, target_text};
use crate::backends::mpvpaper::mpv_options_spec;
use crate::backends::swaybg::start_args;
use crate::cli::{target_monitor_plans, plans_for_targets};
use crate::command::{CommandSpec, command_text};
use crate::orchestrator::{SetPlan, target_names};

verus! {

/// `true` or `false`.
pub open spec fn bool_text(b: bool) -> Seq<char> {
    if b {
        "true"@
    } else {
        "false"@
    }
}

pub fn bool_string(b: bool) -> (r: String)
    ensures
        r@ == bool_text(b),
{
    if b {
        owned("true")
    } else {
        owned("false")
    }
}

/// How a media kind prints with `{:?}`.
pub open spec fn kind_text(k: MediaKind) -> Seq<char> {
    match k {
        MediaKind::Static => "Static"@,
        MediaKind::Live => "Live"@,
    }
}

pub fn kind_string(k: MediaKind) -> (r: String)
    ensures
        r@ == kind_text(k),
{
    match k {
        MediaKind::Static => owned("Static"),
        MediaKind::Live => owned("Live"),
    }
}

/// How a static backend preference prints with `{:?}`.
pub open spec fn preference_text(p: StaticBackendPreference) -> Seq<char> {
    match p {
        StaticBackendPreference::Auto => "Auto"@,
        StaticBackendPreference::Hyprpaper => "Hyprpaper"@,
        StaticBackendPreference::Awww => "Awww"@,
        StaticBackendPreference::Swaybg => "Swaybg"@,
    }
}

fn preference_string(p: StaticBackendPreference) -> (r: String)
    ensures
        r@ == preference_text(p),
{
    match p {
        StaticBackendPreference::Auto => owned("Auto"),
        StaticBackendPreference::Hyprpaper => owned("Hyprpaper"),
        StaticBackendPreference::Awww => owned("Awww"),
        StaticBackendPreference::Swaybg => owned("Swaybg"),
    }
}

/// A number, or `none`.
pub open spec fn opt_number(n: Option<nat>) -> Seq<char> {
    match n {
        Some(x) => decimal(x),
        None => "none"@,
    }
}

/// `running`, `stale` or `none` for a recorded process.
pub open spec fn status_text(pid: Option<u32>, running: bool) -> Seq<char> {
    match pid {
        Some(_) => if running {
            "running"@
        } else {
            "stale"@
        },
        None => "none"@,
    }
}

/// `  <name>: backend=<b>, pid=<pid|none>, pid_status=<status>, wallpaper=<w>`.
pub open spec fn monitor_line(name: Seq<char>, m: MonitorState, running: bool) -> Seq<char> {
    "  "@ + name + ": backend="@ + backend_name(m.backend) + ", pid="@ + opt_number(
        match m.pid {
            Some(p) => Some(p as nat),
            None => None,
        },
    ) + ", pid_status="@ + status_text(m.pid, running) + ", wallpaper="@ + m.wallpaper@
}

/// `  <path>: last_index=<i|none>, last_wallpaper=<w|none>, shuffle_seen=<n>`.
pub open spec fn collection_line(path: Seq<char>, c: CollectionState) -> Seq<char> {
    "  "@ + path + ": last_index="@ + opt_number(
        match c.last_index {
            Some(i) => Some(i as nat),
            None => None,
        },
    ) + ", last_wallpaper="@ + match c.last_wallpaper {
        Some(w) => w@,
        None => "none"@,
    } + ", shuffle_seen="@ + decimal(c.shuffle_history@.len())
}

/// What `status` prints for a saved state (`updated_at` is how its time displays, `running`
/// says for each recorded monitor whether its process still runs).
pub open spec fn state_lines(s: State, updated_at: Seq<char>, running: Seq<bool>) -> Seq<Seq<char>> {
    let mk = s.monitors.key_seq();
    let mv = s.monitors.val_seq();
    let ck = s.collections.key_seq();
    let cv = s.collections.val_seq();
    seq![
        "backend: "@ + backend_name(s.active_backend),
        "mode: "@ + kind_text(s.mode),
        "wallpaper: "@ + s.wallpaper@,
        "updated_at: "@ + updated_at,
    ] + (match s.last_command {
        Some(c) => seq!["last_command: "@ + c@],
        None => seq![],
    }) + (if mk.len() == 0 {
        seq!["monitors: none recorded"@]
    } else {
        seq!["monitors:"@] + Seq::new(mk.len(), |i: int| monitor_line(mk[i], mv[i], running[i]))
    }) + (if ck.len() == 0 {
        seq![]
    } else {
        seq!["collections:"@] + Seq::new(ck.len(), |i: int| collection_line(ck[i], cv[i]))
    })
}

fn opt_number_string(n: Option<u64>) -> (r: String)
    ensures
        r@ == opt_number(
            match n {
                Some(x) => Some(x as nat),
                None => None,
            },
        ),
{
    match n {
        Some(x) => decimal_string(x),
        None => owned("none"),
    }
}

fn monitor_line_exec(name: &str, m: &MonitorState, running: bool) -> (r: String)
    ensures
        r@ == monitor_line(name@, *m, running),
{
    let a = cat3("  ", name, ": backend=");
    let b = cat3(a.as_str(), m.backend.to_string().as_str(), ", pid=");
    let pid = match m.pid {
        Some(p) => opt_number_string(Some(p as u64)),
        None => opt_number_string(None),
    };
    let c = cat3(b.as_str(), pid.as_str(), ", pid_status=");
    let d = cat3(c.as_str(), pid_status(m.pid, running).as_str(), ", wallpaper=");
    cat(d.as_str(), m.wallpaper.as_str())
}

fn collection_line_exec(path: &str, c: &CollectionState) -> (r: String)
    ensures
        r@ == collection_line(path@, *c),
{
    let a = cat3("  ", path, ": last_index=");
    let idx = match c.last_index {
        Some(i) => opt_number_string(Some(i as u64)),
        None => opt_number_string(None),
    };
    let b = cat3(a.as_str(), idx.as_str(), ", last_wallpaper=");
    let w = match &c.last_wallpaper {
        Some(w) => w.clone(),
        None => owned("none"),
    };
    let d = cat3(b.as_str(), w.as_str(), ", shuffle_seen=");
    cat(d.as_str(), decimal_string(c.shuffle_history.len() as u64).as_str())
}

fn push_line(out: &mut Vec<String>, line: String)
    ensures
        texts(final(out)@) == texts(old(out)@).push(line@),
{
    let ghost before = texts(out@);
    let ghost l = line@;
    out.push(line);
    assert(texts(out@) =~= before.push(l));
}

fn push_monitor_lines(out: &mut Vec<String>, m: &StrMap<MonitorState>, running: &[bool])
    requires
        m.wf(),
        running@.len() == m.key_seq().len(),
    ensures
        texts(final(out)@) == texts(old(out)@) + Seq::new(
            m.key_seq().len(),
            |i: int| monitor_line(m.key_seq()[i], m.val_seq()[i], running@[i]),
        ),
{
    proof {
        m.lemma_len();
    }
    let ghost base = texts(out@);
    let mut i: usize = 0;
    while i < m.len()
        invariant
            m.wf(),
            running@.len() == m.key_seq().len(),
            m.val_seq().len() == m.key_seq().len(),
            0 <= i <= m.key_seq().len(),
            texts(out@) == base + Seq::new(
                i as nat,
                |k: int| monitor_line(m.key_seq()[k], m.val_seq()[k], running@[k]),
            ),
        decreases m.key_seq().len() - i,
    {
        let ghost before = texts(out@);
        let line = monitor_line_exec(m.key_at(i).as_str(), m.value_at(i), running[i]);
        push_line(out, line);
        assert(texts(out@) =~= base + Seq::new(
            (i + 1) as nat,
            |k: int| monitor_line(m.key_seq()[k], m.val_seq()[k], running@[k]),
        ));
        i += 1;
    }
}

/// What `status` prints for a saved state.
pub fn state_report(state: &State, updated_at: &str, running: &[bool]) -> (r: Vec<String>)
    requires
        state.monitors.wf(),
        state.collections.wf(),
        running@.len() == state.monitors.key_seq().len(),
    ensures
        texts(r@) == state_lines(*state, updated_at@, running@),
{
    proof {
        state.collections.lemma_len();
    }
    let mut out: Vec<String> = Vec::new();
    push_line(&mut out, cat("backend: ", state.active_backend.to_string().as_str()));
    push_line(&mut out, cat("mode: ", kind_string(state.mode).as_str()));
    push_line(&mut out, cat("wallpaper: ", state.wallpaper.as_str()));
    push_line(&mut out, cat("updated_at: ", updated_at));
    let ghost head = texts(out@);
    match &state.last_command {
        Some(c) => push_line(&mut out, cat("last_command: ", c.as_str())),
        None => {},
    }
    let ghost after_cmd = texts(out@);
    if state.monitors.len() == 0 {
        push_line(&mut out, owned("monitors: none recorded"));
    } else {
        push_line(&mut out, owned("monitors:"));
        push_monitor_lines(&mut out, &state.monitors, running);
    }
    let ghost after_mon = texts(out@);
    if state.collections.len() > 0 {
        push_line(&mut out, owned("collections:"));
        let ghost base = texts(out@);
        let mut i: usize = 0;
        while i < state.collections.len()
            invariant
                state.collections.wf(),
                state.collections.val_seq().len() == state.collections.key_seq().len(),
                0 <= i <= state.collections.key_seq().len(),
                texts(out@) == base + Seq::new(
                    i as nat,
                    |k: int| collection_line(state.collections.key_seq()[k], state.collections.val_seq()[k]),
                ),
            decreases state.collections.key_seq().len() - i,
        {
            let line = collection_line_exec(state.collections.key_at(i).as_str(), state.collections.value_at(i));
            push_line(&mut out, line);
            assert(texts(out@) =~= base + Seq::new(
                (i + 1) as nat,
                |k: int| collection_line(state.collections.key_seq()[k], state.collections.val_seq()[k]),
            ));
            i += 1;
        }
    }
    assert(texts(out@) =~= state_lines(*state, updated_at@, running@));
    out
}


// ---------------------------------------------------------------------------
// Health check
// ---------------------------------------------------------------------------

/// How many recorded processes no longer run.
pub open spec fn stale_count(vals: Seq<MonitorState>, running: Seq<bool>, n: int) -> nat
    decreases n,
{
    if n <= 0 {
        0
    } else {
        stale_count(vals, running, n - 1) + if vals[n - 1].pid is Some && !running[n - 1] {
            1nat
        } else {
            0nat
        }
    }
}

/// `saved monitor <name>: backend=<b>, pid_status=<status>, wallpaper=<w>`.
pub open spec fn saved_monitor_line(name: Seq<char>, m: MonitorState, running: bool) -> Seq<char> {
    "saved monitor "@ + name + ": backend="@ + backend_name(m.backend) + ", pid_status="@ + status_text(
        m.pid,
        running,
    ) + ", wallpaper="@ + m.wallpaper@
}

/// What the health check prints of a saved state it could read.
pub open spec fn doctor_state_lines(s: State, running: Seq<bool>) -> Seq<Seq<char>> {
    let mk = s.monitors.key_seq();
    let mv = s.monitors.val_seq();
    seq![
        "state readable: true"@,
        "saved backend: "@ + backend_name(s.active_backend),
        "saved wallpaper: "@ + s.wallpaper@,
        "saved mode: "@ + kind_text(s.mode),
    ] + (match s.last_command {
        Some(c) => seq!["saved last command: "@ + c@],
        None => seq![],
    }) + Seq::new(mk.len(), |i: int| saved_monitor_line(mk[i], mv[i], running[i])) + seq![
        "stale owned live pids: "@ + decimal(stale_count(mv, running, mk.len() as int)),
    ]
}

fn saved_monitor_line_exec(name: &str, m: &MonitorState, running: bool) -> (r: String)
    ensures
        r@ == saved_monitor_line(name@, *m, running),
{
    let a = cat3("saved monitor ", name, ": backend=");
    let b = cat3(a.as_str(), m.backend.to_string().as_str(), ", pid_status=");
    let c = cat3(b.as_str(), pid_status(m.pid, running).as_str(), ", wallpaper=");
    cat(c.as_str(), m.wallpaper.as_str())
}

pub fn doctor_state_report(state: &State, running: &[bool]) -> (r: Vec<String>)
    requires
        state.monitors.wf(),
        running@.len() == state.monitors.key_seq().len(),
    ensures
        texts(r@) == doctor_state_lines(*state, running@),
{
    proof {
        state.monitors.lemma_len();
    }
    let mut out: Vec<String> = Vec::new();
    push_line(&mut out, owned("state readable: true"));
    push_line(&mut out, cat("saved backend: ", state.active_backend.to_string().as_str()));
    push_line(&mut out, cat("saved wallpaper: ", state.wallpaper.as_str()));
    push_line(&mut out, cat("saved mode: ", kind_string(state.mode).as_str()));
    match &state.last_command {
        Some(c) => push_line(&mut out, cat("saved last command: ", c.as_str())),
        None => {},
    }
    let ghost base = texts(out@);
    let mut stale: u64 = 0;
    let mut i: usize = 0;
    while i < state.monitors.len()
        invariant
            state.monitors.wf(),
            running@.len() == state.monitors.key_seq().len(),
            state.monitors.val_seq().len() == state.monitors.key_seq().len(),
            0 <= i <= state.monitors.key_seq().len(),
            stale == stale_count(state.monitors.val_seq(), running@, i as int),
            stale <= i,
            texts(out@) == base + Seq::new(
                i as nat,
                |k: int| saved_monitor_line(state.monitors.key_seq()[k], state.monitors.val_seq()[k], running@[k]),
            ),
        decreases state.monitors.key_seq().len() - i,
    {
        let m = state.monitors.value_at(i);
        if m.pid.is_some() && !running[i] {
            stale = stale + 1;
        }
        let line = saved_monitor_line_exec(state.monitors.key_at(i).as_str(), m, running[i]);
        push_line(&mut out, line);
        assert(texts(out@) =~= base + Seq::new(
            (i + 1) as nat,
            |k: int| saved_monitor_line(state.monitors.key_seq()[k], state.monitors.val_seq()[k], running@[k]),
        ));
        i += 1;
    }
    push_line(&mut out, cat("stale owned live pids: ", decimal_string(stale).as_str()));
    assert(texts(out@) =~= doctor_state_lines(*state, running@));
    out
}

/// What the health check found out on this machine.
#[derive(Debug)]
pub struct DoctorFacts {
    pub config_path: String,
    pub config_exists: bool,
    pub state_path: String,
    pub state_exists: bool,
    pub hyprland_session: bool,
    pub hyprctl_available: bool,
    pub hyprpaper_available: bool,
    pub hyprpaper_reachable: bool,
    pub mpvpaper_available: bool,
    pub awww_available: bool,
    pub swaybg_available: bool,
    pub awww_daemon_available: bool,
    pub awww_reachable: bool,
    /// The active monitors, or why they could not be listed.
    pub monitors: Result<Vec<String>, String>,
}

/// What the health check prints before the saved state.
pub open spec fn doctor_lines(f: DoctorFacts, config: Config) -> Seq<Seq<char>> {
    doctor_head_lines(f, config) + doctor_monitor_lines(f.monitors)
}

/// The active monitors as the health check prints them.
pub open spec fn doctor_monitor_lines(monitors: Result<Vec<String>, String>) -> Seq<Seq<char>> {
    match monitors {
        Ok(m) => seq!["active monitors: "@ + decimal(m@.len())] + texts(m@).map_values(|x: Seq<char>| "  "@ + x),
        Err(e) => seq!["active monitors: unavailable ("@ + e@ + ")"@],
    }
}

/// The paths, the configured backends, and what is installed and running.
pub open spec fn doctor_head_lines(f: DoctorFacts, config: Config) -> Seq<Seq<char>> {
    let auto = match config.general.static_backend {
        StaticBackendPreference::Auto => auto_backend_spec(
            config.awww.enabled,
            f.hyprpaper_available,
            f.awww_available,
            f.swaybg_available,
        ),
        StaticBackendPreference::Hyprpaper => Backend::Hyprpaper,
        StaticBackendPreference::Awww => Backend::Awww,
        StaticBackendPreference::Swaybg => Backend::Swaybg,
    };
    seq![
        "config: "@ + f.config_path@,
        "config exists: "@ + bool_text(f.config_exists),
        "state: "@ + f.state_path@,
        "state exists: "@ + bool_text(f.state_exists),
        "hyprland session detected: "@ + bool_text(f.hyprland_session),
        "default static backend: "@ + preference_text(config.general.static_backend),
        "default live backend: "@ + backend_name(config.general.live_backend),
        "hyprctl available: "@ + bool_text(f.hyprctl_available),
        "hyprpaper available: "@ + bool_text(f.hyprpaper_available),
        "hyprpaper daemon reachable: "@ + bool_text(f.hyprpaper_reachable),
        "mpvpaper available: "@ + bool_text(f.mpvpaper_available),
        "awww available: "@ + bool_text(f.awww_available),
        "swaybg available: "@ + bool_text(f.swaybg_available),
        "awww-daemon available: "@ + bool_text(f.awww_daemon_available),
        "awww daemon reachable: "@ + bool_text(f.awww_reachable),
        "static auto backend: "@ + backend_name(auto),
    ]
}

fn flag_line(label: &str, b: bool) -> (r: String)
    ensures
        r@ == label@ + bool_text(b),
{
    cat(label, bool_string(b).as_str())
}

#[verifier::rlimit(60)]
fn doctor_head(facts: &DoctorFacts, config: &Config) -> (r: Vec<String>)
    ensures
        texts(r@) == doctor_head_lines(*facts, *config),
{
    let mut out: Vec<String> = Vec::new();
    push_line(&mut out, cat("config: ", facts.config_path.as_str()));
    push_line(&mut out, flag_line("config exists: ", facts.config_exists));
    push_line(&mut out, cat("state: ", facts.state_path.as_str()));
    push_line(&mut out, flag_line("state exists: ", facts.state_exists));
    push_line(&mut out, flag_line("hyprland session detected: ", facts.hyprland_session));
    push_line(&mut out, cat("default static backend: ", preference_string(config.general.static_backend).as_str()));
    push_line(&mut out, cat("default live backend: ", config.general.live_backend.to_string().as_str()));
    push_line(&mut out, flag_line("hyprctl available: ", facts.hyprctl_available));
    push_line(&mut out, flag_line("hyprpaper available: ", facts.hyprpaper_available));
    push_line(&mut out, flag_line("hyprpaper daemon reachable: ", facts.hyprpaper_reachable));
    push_line(&mut out, flag_line("mpvpaper available: ", facts.mpvpaper_available));
    push_line(&mut out, flag_line("awww available: ", facts.awww_available));
    push_line(&mut out, flag_line("swaybg available: ", facts.swaybg_available));
    push_line(&mut out, flag_line("awww-daemon available: ", facts.awww_daemon_available));
    push_line(&mut out, flag_line("awww daemon reachable: ", facts.awww_reachable));
    let available = BackendAvailability {
        hyprpaper: facts.hyprpaper_available,
        awww: facts.awww_available,
        swaybg: facts.swaybg_available,
    };
    let auto = detected_static_auto_backend(config, &available);
    push_line(&mut out, cat("static auto backend: ", auto.to_string().as_str()));
    assert(texts(out@) =~= doctor_head_lines(*facts, *config));
    out
}

fn push_doctor_monitors(out: &mut Vec<String>, monitors: &Result<Vec<String>, String>)
    ensures
        texts(final(out)@) == texts(old(out)@) + doctor_monitor_lines(*monitors),
{
    let ghost start = texts(out@);
    match monitors {
        Ok(m) => {
            push_line(out, cat("active monitors: ", decimal_string(m.len() as u64).as_str()));
            let ghost base = texts(out@);
            let mut i: usize = 0;
            assert(texts(m@).take(0).map_values(|x: Seq<char>| "  "@ + x) =~= Seq::<Seq<char>>::empty());
            while i < m.len()
                invariant
                    0 <= i <= m@.len(),
                    texts(out@) == base + texts(m@).take(i as int).map_values(|x: Seq<char>| "  "@ + x),
                decreases m.len() - i,
            {
                push_line(out, cat("  ", m[i].as_str()));
                assert(texts(m@).take(i + 1) == texts(m@).take(i as int).push(m@[i as int]@));
                assert(texts(out@) =~= base + texts(m@).take(i + 1).map_values(|x: Seq<char>| "  "@ + x));
                i += 1;
            }
            assert(texts(m@).take(m@.len() as int) == texts(m@));
            assert(texts(out@) =~= start + doctor_monitor_lines(*monitors));
        },
        Err(e) => {
            push_line(out, cat3("active monitors: unavailable (", e.as_str(), ")"));
            assert(texts(out@) =~= start + doctor_monitor_lines(*monitors));
        },
    }
}

/// What the health check prints, up to the saved state.
pub fn doctor_report(facts: &DoctorFacts, config: &Config) -> (r: Vec<String>)
    ensures
        texts(r@) == doctor_lines(*facts, *config),
{
    let mut out = doctor_head(facts, config);
    push_doctor_monitors(&mut out, &facts.monitors);
    out
}


// ---------------------------------------------------------------------------
// Dry runs
// ---------------------------------------------------------------------------

/// `command: <shell text>`.
pub open spec fn command_entry(label: Seq<char>, program: Seq<char>, args: Seq<Seq<char>>) -> Seq<char> {
    label + command_text(program, args)
}

/// `command: mpvpaper --mpv-options <options> <monitor> <wallpaper>` as shell text.
pub open spec fn mpv_start_line(extra: Seq<Seq<char>>, monitor: Seq<char>, wallpaper: Seq<char>) -> Seq<char> {
    command_entry("command: "@, "mpvpaper"@, seq!["--mpv-options"@, mpv_options_spec(extra), monitor, wallpaper])
}

/// What a dry run prints for a plan (`monitors` being the active monitors when the plan targets
/// `all`).
pub open spec fn set_plan_lines(plan: SetPlan, config: Config, monitors: Seq<Seq<char>>) -> Seq<Seq<char>> {
    let w = plan.wallpaper@;
    let head = seq![
        "planned backend: "@ + backend_name(plan.backend),
        "media kind: "@ + kind_text(plan.media_kind),
        "monitor: "@ + plan.monitor@,
        "wallpaper: "@ + w,
    ];
    head + match plan.backend {
        Backend::Hyprpaper => seq![
            command_entry("ensure: "@, "hyprctl"@, seq!["hyprpaper"@, "listloaded"@]),
            command_entry("fallback: "@, "hyprpaper"@, seq![]),
            command_entry("command: "@, "hyprctl"@, seq!["hyprpaper"@, "preload"@, w]),
        ] + target_names(plan, monitors).map_values(
            |t: Seq<char>| command_entry("command: "@, "hyprctl"@, seq!["hyprpaper"@, "wallpaper"@, target_text(t, w)]),
        ) + if config.hyprpaper.unload_unused {
            seq![command_entry("command: "@, "hyprctl"@, seq!["hyprpaper"@, "unload"@, "unused"@])]
        } else {
            seq![]
        },
        Backend::Mpvpaper => target_names(plan, monitors).map_values(
            |t: Seq<char>| mpv_start_line(texts(config.mpvpaper.extra_args@), t, w),
        ),
        Backend::Awww => seq![
            command_entry("ensure: "@, "awww"@, seq!["query"@]),
            command_entry("fallback: "@, "awww-daemon"@, seq!["--quiet"@]),
            command_entry("command: "@, "awww"@, apply_args(plan, config.awww)),
        ],
        Backend::Swaybg => seq![command_entry("command: "@, "swaybg"@, start_args(plan))],
    }
}

fn command_entry_exec(label: &str, c: &CommandSpec) -> (r: String)
    ensures
        r@ == command_entry(label@, c.program@, texts(c.args@)),
{
    cat(label, c.to_string().as_str())
}

#[verifier::rlimit(40)]
fn push_hyprpaper_lines(out: &mut Vec<String>, plan: &SetPlan, config: &Config, monitors: &[String])
    requires
        plan.backend == Backend::Hyprpaper,
    ensures
        texts(final(out)@) == texts(old(out)@) + set_plan_lines(*plan, *config, texts(monitors@)).skip(4),
{
    let ghost start = texts(out@);
    let ghost w = plan.wallpaper@;
    push_line(out, command_entry_exec("ensure: ", &hyprpaper::query_command()));
    push_line(out, command_entry_exec("fallback: ", &hyprpaper::daemon_command()));
    let cmds = hyprpaper::apply_commands(plan, monitors, &config.hyprpaper);
    let ghost t = target_names(*plan, texts(monitors@));
    let ghost base = texts(out@);
    let ghost f = |x: Seq<char>| command_entry("command: "@, "hyprctl"@, seq!["hyprpaper"@, "wallpaper"@, target_text(x, w)]);
    let mut i: usize = 0;
    while i < cmds.len()
        invariant
            apply_commands_spec(cmds@, *plan, texts(monitors@), config.hyprpaper),
            t == target_names(*plan, texts(monitors@)),
            w == plan.wallpaper@,
            0 <= i <= cmds@.len(),
            texts(out@) == base + Seq::new(i as nat, |k: int| command_entry("command: "@, cmds@[k].program@, texts(cmds@[k].args@))),
        decreases cmds.len() - i,
    {
        push_line(out, command_entry_exec("command: ", &cmds[i]));
        assert(texts(out@) =~= base + Seq::new((i + 1) as nat, |k: int| command_entry("command: "@, cmds@[k].program@, texts(cmds@[k].args@))));
        i += 1;
    }
    proof {
        let got = Seq::new(cmds@.len(), |k: int| command_entry("command: "@, cmds@[k].program@, texts(cmds@[k].args@)));
        let want = seq![command_entry("command: "@, "hyprctl"@, seq!["hyprpaper"@, "preload"@, w])] + t.map_values(f)
            + if config.hyprpaper.unload_unused {
            seq![command_entry("command: "@, "hyprctl"@, seq!["hyprpaper"@, "unload"@, "unused"@])]
        } else {
            seq![]
        };
        assert forall|k: int| 0 <= k < got.len() implies got[k] == want[k] by {
            if k == 0 {
            } else if k <= t.len() {
                assert(is_wallpaper_command(cmds@[(k - 1) + 1], t[k - 1], w));
                assert(want[k] == t.map_values(f)[k - 1]);
            } else {
                assert(k == cmds@.len() - 1);
            }
        }
        assert(got =~= want);
        assert(set_plan_lines(*plan, *config, texts(monitors@)).skip(4) =~= seq![
            command_entry("ensure: "@, "hyprctl"@, seq!["hyprpaper"@, "listloaded"@]),
            command_entry("fallback: "@, "hyprpaper"@, seq![]),
        ] + want);
        assert(texts(out@) =~= start + set_plan_lines(*plan, *config, texts(monitors@)).skip(4));
    }
}

fn push_mpvpaper_lines(out: &mut Vec<String>, plan: &SetPlan, config: &Config, monitors: &[String])
    requires
        plan.backend == Backend::Mpvpaper,
    ensures
        texts(final(out)@) == texts(old(out)@) + set_plan_lines(*plan, *config, texts(monitors@)).skip(4),
{
    let ghost start = texts(out@);
    let plans = target_monitor_plans(plan, monitors);
    let ghost t = target_names(*plan, texts(monitors@));
    let ghost w = plan.wallpaper@;
    let mut i: usize = 0;
    while i < plans.len()
        invariant
            plans_for_targets(plans@, *plan, t),
            t == target_names(*plan, texts(monitors@)),
            w == plan.wallpaper@,
            0 <= i <= plans@.len(),
            texts(out@) == start + t.take(i as int).map_values(
                |x: Seq<char>| mpv_start_line(texts(config.mpvpaper.extra_args@), x, w),
            ),
        decreases plans.len() - i,
    {
        let c = mpvpaper::start_command(&plans[i], &config.mpvpaper);
        let line = command_entry_exec("command: ", &c);
        assert(plans@[i as int].monitor@ == t[i as int]);
        assert(line@ == mpv_start_line(texts(config.mpvpaper.extra_args@), t[i as int], w));
        push_line(out, line);
        assert(t.take(i + 1) == t.take(i as int).push(t[i as int]));
        assert(texts(out@) =~= start + t.take(i + 1).map_values(
            |x: Seq<char>| mpv_start_line(texts(config.mpvpaper.extra_args@), x, w),
        ));
        i += 1;
    }
    assert(t.take(t.len() as int) == t);
    assert(set_plan_lines(*plan, *config, texts(monitors@)).skip(4) =~= t.map_values(
        |x: Seq<char>| mpv_start_line(texts(config.mpvpaper.extra_args@), x, w),
    ));
}

/// What a dry run prints for a plan.
pub fn set_plan_report(plan: &SetPlan, config: &Config, monitors: &[String]) -> (r: Vec<String>)
    ensures
        texts(r@) == set_plan_lines(*plan, *config, texts(monitors@)),
{
    let mut out: Vec<String> = Vec::new();
    push_line(&mut out, cat("planned backend: ", plan.backend.to_string().as_str()));
    push_line(&mut out, cat("media kind: ", kind_string(plan.media_kind).as_str()));
    push_line(&mut out, cat("monitor: ", plan.monitor.as_str()));
    push_line(&mut out, cat("wallpaper: ", plan.wallpaper.as_str()));
    let ghost head = texts(out@);
    let ghost all = set_plan_lines(*plan, *config, texts(monitors@));
    assert(head == all.take(4));
    match plan.backend {
        Backend::Hyprpaper => push_hyprpaper_lines(&mut out, plan, config, monitors),
        Backend::Mpvpaper => push_mpvpaper_lines(&mut out, plan, config, monitors),
        Backend::Awww => {
            push_line(&mut out, command_entry_exec("ensure: ", &awww::query_command()));
            push_line(&mut out, command_entry_exec("fallback: ", &awww::daemon_command()));
            push_line(&mut out, command_entry_exec("command: ", &awww::apply_command(plan, &config.awww)));
            assert(texts(out@) =~= head + all.skip(4));
        },
        Backend::Swaybg => {
            push_line(&mut out, command_entry_exec("command: ", &swaybg::start_command(plan)));
            assert(texts(out@) =~= head + all.skip(4));
        },
    }
    assert(all =~= all.take(4) + all.skip(4));
    out
}

/// The dry-run lines of each plan in turn.
pub open spec fn plans_lines(ps: Seq<SetPlan>, config: Config, monitors: Seq<Seq<char>>) -> Seq<Seq<char>>
    decreases ps.len(),
{
    if ps.len() == 0 {
        seq![]
    } else {
        plans_lines(ps.drop_last(), config, monitors) + set_plan_lines(ps.last(), config, monitors)
    }
}

/// The command starting each plan's `mpvpaper`.
pub open spec fn live_restore_lines(ps: Seq<SetPlan>, config: Config) -> Seq<Seq<char>> {
    ps.map_values(|p: SetPlan| mpv_start_line(texts(config.mpvpaper.extra_args@), p.monitor@, p.wallpaper@))
}

fn append_lines(out: &mut Vec<String>, lines: Vec<String>)
    ensures
        texts(final(out)@) == texts(old(out)@) + texts(lines@),
{
    let ghost start = texts(out@);
    let mut i: usize = 0;
    while i < lines.len()
        invariant
            0 <= i <= lines@.len(),
            texts(out@) == start + texts(lines@).take(i as int),
        decreases lines.len() - i,
    {
        push_line(out, lines[i].clone());
        assert(texts(lines@).take(i + 1) == texts(lines@).take(i as int).push(lines@[i as int]@));
        i += 1;
    }
    assert(texts(lines@).take(lines@.len() as int) == texts(lines@));
}

/// What a dry run of `restore` prints: the saved backend, kind and wallpaper; then, when every
/// recorded monitor runs a live wallpaper, the command starting each monitor's `mpvpaper` with
/// its own wallpaper; else the dry run of each recorded monitor's own plan in turn.
pub fn restore_plan_report(state: &State, config: &Config, monitors: &[String]) -> (r: Vec<String>)
    requires
        state.monitors.wf(),
    ensures
        texts(r@).take(3) == seq![
            "restore backend: "@ + backend_name(state.active_backend),
            "restore mode: "@ + kind_text(state.mode),
            "restore wallpaper: "@ + state.wallpaper@,
        ],
        exists|ps: Seq<SetPlan>|
            #[trigger] monitor_plans_ok(*state, ps) && texts(r@).skip(3) == if all_live(*state) {
                live_restore_lines(ps, *config)
            } else {
                plans_lines(ps, *config, texts(monitors@))
            },
{
    let mut out: Vec<String> = Vec::new();
    push_line(&mut out, cat("restore backend: ", state.active_backend.to_string().as_str()));
    push_line(&mut out, cat("restore mode: ", kind_string(state.mode).as_str()));
    push_line(&mut out, cat("restore wallpaper: ", state.wallpaper.as_str()));
    let ghost head = texts(out@);
    let plans = state.monitor_plans();
    let live = records_only_live(state);
    let mut i: usize = 0;
    while i < plans.len()
        invariant
            0 <= i <= plans@.len(),
            texts(out@) == head + if live {
                live_restore_lines(plans@.take(i as int), *config)
            } else {
                plans_lines(plans@.take(i as int), *config, texts(monitors@))
            },
        decreases plans.len() - i,
    {
        let ghost before = texts(out@);
        assert(plans@.take(i + 1).drop_last() == plans@.take(i as int));
        assert(plans@.take(i + 1).last() == plans@[i as int]);
        if live {
            let c = mpvpaper::start_command(&plans[i], &config.mpvpaper);
            let line = command_entry_exec("command: ", &c);
            push_line(&mut out, line);
            assert(live_restore_lines(plans@.take(i + 1), *config) =~= live_restore_lines(
                plans@.take(i as int),
                *config,
            ).push(line@));
        } else {
            let lines = set_plan_report(&plans[i], config, monitors);
            append_lines(&mut out, lines);
        }
        assert(texts(out@) =~= head + if live {
            live_restore_lines(plans@.take(i + 1), *config)
        } else {
            plans_lines(plans@.take(i + 1), *config, texts(monitors@))
        });
        i += 1;
    }
    assert(plans@.take(plans@.len() as int) == plans@);
    assert(texts(out@).skip(3) =~= if live {
        live_restore_lines(plans@, *config)
    } else {
        plans_lines(plans@, *config, texts(monitors@))
    });
    assert(texts(out@).take(3) =~= head);
    out
}

} // verus!
