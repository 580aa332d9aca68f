//! Finding the active monitors: parsing what `hyprctl` and `mpvpaper` print, and the order in
//! which they are asked.
//!
//! Running the commands (with their retries) is the application's work: it runs the command
//! that `query_command` names, hands the outcome to `query_step`, and goes on until the step
//! is `Done`.
use vstd::prelude::*;
use crate::backends::mpvpaper;
use crate::command::CommandSpec;
use crate::text::texts;
use crate::json::{JsonValue, get_spec, parse_json, parsed_json};
use crate::text::{
    lines, lines_of, is_prefix, strip_prefix, split_once_char, first_index, trim, trim_str, owned,
    cat, cat3, lemma_first_index, push_char,
};

verus! {

/// The monitor name on a `Monitor <name> (ID n):` line of `hyprctl monitors`.
pub open spec fn line_monitor(l: Seq<char>) -> Option<Seq<char>> {
    if is_prefix("Monitor "@, l) {
        let rest = l.skip("Monitor "@.len() as int);
        let k = first_index(rest, ' ');
        if k < rest.len() {
            Some(rest.take(k))
        } else {
            None
        }
    } else {
        None
    }
}

/// The names found on the lines, in order.
pub open spec fn text_names(ls: Seq<Seq<char>>) -> Seq<Seq<char>>
    decreases ls.len(),
{
    if ls.len() == 0 {
        seq![]
    } else {
        text_names(ls.drop_last()) + match line_monitor(ls.last()) {
            Some(n) => seq![n],
            None => seq![],
        }
    }
}

fn line_monitor_exec(line: &str) -> (r: Option<String>)
    ensures
        r matches Some(n) ==> line_monitor(line@) == Some(n@),
        r is None ==> line_monitor(line@) is None,
{
    match strip_prefix(line, "Monitor ") {
        Some(rest) => match split_once_char(rest.as_str(), ' ') {
            Some((name, _)) => Some(name),
            None => None,
        },
        None => None,
    }
}

/// The monitor names in the text output of `hyprctl monitors`.
pub fn parse_hyprctl_monitor_text(output: &str) -> (r: Vec<String>)
    ensures
        texts(r@) == text_names(lines(output@)),
{
    let ls = lines_of(output);
    let ghost lv = texts(ls@);
    let mut out: Vec<String> = Vec::new();
    let mut i: usize = 0;
    while i < ls.len()
        invariant
            0 <= i <= ls@.len(),
            lv == texts(ls@),
            lv == lines(output@),
            texts(out@) == text_names(lv.take(i as int)),
        decreases ls.len() - i,
    {
        let ghost before = texts(out@);
        assert(lv.take(i + 1).drop_last() == lv.take(i as int));
        assert(lv.take(i + 1).last() == ls@[i as int]@);
        match line_monitor_exec(ls[i].as_str()) {
            Some(name) => {
                out.push(name);
                assert(texts(out@) =~= before + seq![texts(out@).last()]);
            },
            None => {
                assert(before + Seq::<Seq<char>>::empty() =~= before);
            },
        }
        i += 1;
    }
    assert(lv.take(ls@.len() as int) == lv);
    out
}

/// The `name` of each monitor object in a `hyprctl -j monitors` array, in order.
pub open spec fn json_names(items: Seq<JsonValue>) -> Seq<Seq<char>>
    decreases items.len(),
{
    if items.len() == 0 {
        seq![]
    } else {
        json_names(items.drop_last()) + match get_spec(items.last(), "name"@) {
            Some(JsonValue::Str(s)) => seq![s@],
            _ => seq![],
        }
    }
}

/// The monitor names of a parsed `hyprctl -j monitors` answer: none when it did not parse or
/// is not an array.
pub open spec fn document_names(doc: Option<JsonValue>) -> Seq<Seq<char>> {
    match doc {
        Some(JsonValue::Array(items)) => json_names(items@),
        _ => seq![],
    }
}

/// The monitor names in `hyprctl -j monitors` output: the `name` of each monitor object of the
/// array the text parses to; none when it does not parse or is not an array.
pub fn parse_hyprctl_monitor_names_json(output: &str) -> (r: Vec<String>)
    ensures
        texts(r@) == document_names(parsed_json(output@)),
{
    let doc = parse_json(output);
    hyprctl_monitor_names(doc.as_ref())
}

/// The monitor names of a parsed `hyprctl -j monitors` answer (`None` when it did not parse).
pub fn hyprctl_monitor_names(doc: Option<&JsonValue>) -> (r: Vec<String>)
    ensures
        texts(r@) == match doc {
            Some(JsonValue::Array(items)) => json_names(items@),
            _ => seq![],
        },
{
    let mut out: Vec<String> = Vec::new();
    let items = match doc {
        Some(d) => match d.as_array() {
            Some(a) => a,
            None => {
                return out;
            },
        },
        None => {
            return out;
        },
    };
    let mut i: usize = 0;
    while i < items.len()
        invariant
            0 <= i <= items@.len(),
            texts(out@) == json_names(items@.take(i as int)),
        decreases items.len() - i,
    {
        let ghost before = texts(out@);
        assert(items@.take(i + 1).drop_last() == items@.take(i as int));
        assert(items@.take(i + 1).last() == items@[i as int]);
        let name = match items[i].get("name") {
            Some(v) => v.as_str(),
            None => None,
        };
        match name {
            Some(n) => {
                out.push(n.clone());
                assert(texts(out@) =~= before + seq![n@]);
            },
            None => {
                assert(before + Seq::<Seq<char>>::empty() =~= before);
            },
        }
        i += 1;
    }
    assert(items@.take(items@.len() as int) == items@);
    out
}

/// The non-empty trimmed lines.
pub open spec fn nonempty_trimmed(ls: Seq<Seq<char>>) -> Seq<Seq<char>>
    decreases ls.len(),
{
    if ls.len() == 0 {
        seq![]
    } else {
        nonempty_trimmed(ls.drop_last()) + if trim(ls.last()).len() > 0 {
            seq![trim(ls.last())]
        } else {
            seq![]
        }
    }
}

/// The output names in `mpvpaper --help-output`: its non-empty lines, trimmed.
pub fn parse_mpvpaper_outputs(output: &str) -> (r: Vec<String>)
    ensures
        texts(r@) == nonempty_trimmed(lines(output@)),
{
    let ls = lines_of(output);
    let ghost lv = texts(ls@);
    let mut out: Vec<String> = Vec::new();
    let mut i: usize = 0;
    while i < ls.len()
        invariant
            0 <= i <= ls@.len(),
            lv == texts(ls@),
            lv == lines(output@),
            texts(out@) == nonempty_trimmed(lv.take(i as int)),
        decreases ls.len() - i,
    {
        let ghost before = texts(out@);
        assert(lv.take(i + 1).drop_last() == lv.take(i as int));
        assert(lv.take(i + 1).last() == ls@[i as int]@);
        let t = trim_str(ls[i].as_str());
        if !t.as_str().is_empty() {
            out.push(t);
            assert(texts(out@) =~= before + seq![texts(out@).last()]);
        } else {
            assert(before + Seq::<Seq<char>>::empty() =~= before);
        }
        i += 1;
    }
    assert(lv.take(ls@.len() as int) == lv);
    out
}

/// Names joined by newlines, each followed by one (what `list-monitors` prints).
pub open spec fn listing(names: Seq<Seq<char>>) -> Seq<char>
    decreases names.len(),
{
    if names.len() == 0 {
        seq!['\n']
    } else if names.len() == 1 {
        names[0] + seq!['\n']
    } else {
        listing(names.drop_last()).drop_last() + seq!['\n'] + names.last() + seq!['\n']
    }
}

/// `names.join("\n")` followed by a newline.
pub fn list(names: &[String]) -> (r: String)
    ensures
        r@ == listing(texts(names@)),
{
    let mut r = String::new();
    let mut i: usize = 0;
    while i < names.len()
        invariant
            0 <= i <= names@.len(),
            i > 0 ==> r@ == listing(texts(names@).take(i as int)).drop_last(),
            i == 0 ==> r@.len() == 0,
        decreases names.len() - i,
    {
        let ghost before = r@;
        if i > 0 {
            push_char(&mut r, '\n');
        }
        r.append(names[i].as_str());
        proof {
            let t = texts(names@).take(i + 1);
            assert(t.drop_last() == texts(names@).take(i as int));
            assert(t.last() == names@[i as int]@);
            if i == 0 {
                assert(t.len() == 1);
                assert(listing(t) == t[0] + seq!['\n']);
                assert(listing(t).drop_last() =~= r@);
            } else {
                assert(listing(t).drop_last() =~= listing(t.drop_last()).drop_last() + seq!['\n'] + t.last());
            }
        }
        i += 1;
    }
    push_char(&mut r, '\n');
    proof {
        let t = texts(names@);
        assert(t.take(names@.len() as int) == t);
        if names@.len() == 0 {
            assert(r@ =~= seq!['\n']);
        } else {
            assert(listing(t).len() > 0) by {
                if t.len() > 1 {
                    assert(listing(t) == listing(t.drop_last()).drop_last() + seq!['\n'] + t.last() + seq!['\n']);
                }
            }
            assert(listing(t).last() == '\n') by {
                if t.len() > 1 {
                    assert(listing(t) == (listing(t.drop_last()).drop_last() + seq!['\n'] + t.last()) + seq!['\n']);
                }
            }
            assert(r@ =~= listing(t));
        }
    }
    r
}

/// Where the search for monitor names stands: the command to run next.
#[derive(Debug, PartialEq, Eq)]
pub enum MonitorQuery {
    /// `hyprctl -j monitors`.
    HyprctlJson,
    /// `hyprctl monitors`, after the JSON query answered without names.
    HyprctlTextAfterJson,
    /// `hyprctl monitors`, after the JSON query failed with the given error.
    HyprctlTextAfterJsonError(String),
    /// `mpvpaper --help-output`, after `hyprctl` failed with the given error.
    MpvpaperOutputs(String),
}

#[derive(Debug, PartialEq, Eq)]
pub enum MonitorQueryNext {
    Run(MonitorQuery),
    Done(Result<Vec<String>, String>),
}

/// The command a query stage runs.
pub fn query_command(q: &MonitorQuery) -> (c: CommandSpec)
    ensures
        match *q {
            MonitorQuery::HyprctlJson => c.program@ == "hyprctl"@ && texts(c.args@) == seq![
                "-j"@,
                "monitors"@,
            ],
            MonitorQuery::MpvpaperOutputs(_) => c.program@ == "mpvpaper"@ && texts(c.args@)
                == seq!["--help-output"@],
            _ => c.program@ == "hyprctl"@ && texts(c.args@) == seq!["monitors"@],
        },
{
    match q {
        MonitorQuery::HyprctlJson => {
            let mut args: Vec<String> = Vec::new();
            args.push(owned("-j"));
            args.push(owned("monitors"));
            assert(texts(args@) =~= seq!["-j"@, "monitors"@]);
            CommandSpec::new("hyprctl", args)
        },
        MonitorQuery::MpvpaperOutputs(_) => mpvpaper::list_outputs_command(),
        _ => {
            let mut args: Vec<String> = Vec::new();
            args.push(owned("monitors"));
            assert(texts(args@) =~= seq!["monitors"@]);
            CommandSpec::new("hyprctl", args)
        },
    }
}

/// How many times a stage's command is tried before its failure counts (`hyprctl` is retried).
pub fn query_attempts(q: &MonitorQuery) -> (n: usize)
    ensures
        n == match *q {
            MonitorQuery::MpvpaperOutputs(_) => 1usize,
            _ => 3usize,
        },
{
    match q {
        MonitorQuery::MpvpaperOutputs(_) => 1,
        _ => 3,
    }
}

pub open spec fn no_names_message() -> Seq<char> {
    "hyprctl returned no monitor names"@
}

/// The next stage of the search, given what the current stage's command gave.
pub fn query_step(q: MonitorQuery, outcome: Result<String, String>) -> (r: MonitorQueryNext)
    ensures
        match q {
            MonitorQuery::HyprctlJson => match outcome {
                Ok(out) => {
                    let jn = document_names(parsed_json(out@));
                    let tn = text_names(lines(out@));
                    if jn.len() > 0 {
                        r matches MonitorQueryNext::Done(Ok(v)) && texts(v@) == jn
                    } else if tn.len() > 0 {
                        r matches MonitorQueryNext::Done(Ok(v)) && texts(v@) == tn
                    } else {
                        r == MonitorQueryNext::Run(MonitorQuery::HyprctlTextAfterJson)
                    }
                },
                Err(e) => r matches MonitorQueryNext::Run(MonitorQuery::HyprctlTextAfterJsonError(e2))
                    && e2@ == e@,
            },
            MonitorQuery::HyprctlTextAfterJson => match outcome {
                Ok(out) if text_names(lines(out@)).len() > 0 => r matches MonitorQueryNext::Done(Ok(v))
                    && texts(v@) == text_names(lines(out@)),
                _ => r matches MonitorQueryNext::Done(Err(m)) && m@ == no_names_message(),
            },
            MonitorQuery::HyprctlTextAfterJsonError(e) => match outcome {
                Ok(out) if text_names(lines(out@)).len() > 0 => r matches MonitorQueryNext::Done(Ok(v))
                    && texts(v@) == text_names(lines(out@)),
                _ => r matches MonitorQueryNext::Run(MonitorQuery::MpvpaperOutputs(e2)) && e2@ == e@,
            },
            MonitorQuery::MpvpaperOutputs(e) => match outcome {
                Ok(out) => if nonempty_trimmed(lines(out@)).len() > 0 {
                    r matches MonitorQueryNext::Done(Ok(v)) && texts(v@) == nonempty_trimmed(
                        lines(out@),
                    )
                } else {
                    r matches MonitorQueryNext::Done(Err(m)) && m@ == no_names_message()
                },
                Err(m) => r matches MonitorQueryNext::Done(Err(msg)) && msg@ == "unable to list monitors; hyprctl failed with `"@
                    + e@ + "`, mpvpaper failed with `"@ + m@ + "`"@,
            },
        },
{
    match q {
        MonitorQuery::HyprctlJson => match outcome {
            Ok(out) => {
                let names = parse_hyprctl_monitor_names_json(out.as_str());
                if names.len() > 0 {
                    return MonitorQueryNext::Done(Ok(names));
                }
                let names = parse_hyprctl_monitor_text(out.as_str());
                if names.len() > 0 {
                    return MonitorQueryNext::Done(Ok(names));
                }
                MonitorQueryNext::Run(MonitorQuery::HyprctlTextAfterJson)
            },
            Err(e) => MonitorQueryNext::Run(MonitorQuery::HyprctlTextAfterJsonError(e)),
        },
        MonitorQuery::HyprctlTextAfterJson => {
            if let Ok(out) = outcome {
                let names = parse_hyprctl_monitor_text(out.as_str());
                if names.len() > 0 {
                    return MonitorQueryNext::Done(Ok(names));
                }
            }
            MonitorQueryNext::Done(Err(owned("hyprctl returned no monitor names")))
        },
        MonitorQuery::HyprctlTextAfterJsonError(e) => {
            if let Ok(out) = outcome {
                let names = parse_hyprctl_monitor_text(out.as_str());
                if names.len() > 0 {
                    return MonitorQueryNext::Done(Ok(names));
                }
            }
            MonitorQueryNext::Run(MonitorQuery::MpvpaperOutputs(e))
        },
        MonitorQuery::MpvpaperOutputs(e) => match outcome {
            Ok(out) => {
                let names = parse_mpvpaper_outputs(out.as_str());
                if names.len() > 0 {
                    MonitorQueryNext::Done(Ok(names))
                } else {
                    MonitorQueryNext::Done(Err(owned("hyprctl returned no monitor names")))
                }
            },
            Err(m) => {
                let a = cat3("unable to list monitors; hyprctl failed with `", e.as_str(), "`, mpvpaper failed with `");
                MonitorQueryNext::Done(Err(cat3(a.as_str(), m.as_str(), "`")))
            },
        },
    }
}

} // verus!
