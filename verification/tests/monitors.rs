use jobowalls::json::JsonValue;
use jobowalls::monitors::{
    hyprctl_monitor_names, list, parse_hyprctl_monitor_names_json, parse_hyprctl_monitor_text, parse_mpvpaper_outputs,
};

fn monitor(name: &str) -> JsonValue {
    JsonValue::Object(vec![("name".to_string(), JsonValue::Str(name.to_string()))])
}

#[test]
fn parses_hyprctl_json_monitor_names() {
    let output = r#"[{"name":"DP-1"},{"name":"HDMI-A-1"}]"#;

    assert_eq!(parse_hyprctl_monitor_names_json(output), ["DP-1".to_string(), "HDMI-A-1".to_string()]);
}

#[test]
fn unparsable_json_gives_no_monitor_names() {
    assert!(parse_hyprctl_monitor_names_json("Monitor DP-1 (ID 0):").is_empty());
    assert!(parse_hyprctl_monitor_names_json(r#"{"name":"DP-1"}"#).is_empty());
    assert_eq!(
        parse_hyprctl_monitor_names_json(r#"[{"id":0,"name":"eDP-1","width":1920},{"id":1},{"name":3}]"#),
        ["eDP-1".to_string()]
    );
}

#[test]
fn names_of_a_parsed_monitor_array() {
    let doc = JsonValue::Array(vec![monitor("DP-1"), monitor("HDMI-A-1")]);

    assert_eq!(hyprctl_monitor_names(Some(&doc)), ["DP-1".to_string(), "HDMI-A-1".to_string()]);
    assert!(hyprctl_monitor_names(None).is_empty());
}

#[test]
fn parses_hyprctl_text_monitor_names() {
    let output = "Monitor DP-1 (ID 0):\nMonitor HDMI-A-1 (ID 1):\n";

    assert_eq!(parse_hyprctl_monitor_text(output), ["DP-1".to_string(), "HDMI-A-1".to_string()]);
}

#[test]
fn mpvpaper_outputs_are_trimmed_nonempty_lines() {
    assert_eq!(parse_mpvpaper_outputs("  DP-1 \n\n HDMI-A-1\n"), ["DP-1".to_string(), "HDMI-A-1".to_string()]);
}

#[test]
fn lists_monitor_names_one_per_line() {
    assert_eq!(list(&["DP-1".to_string(), "DP-3".to_string()]), "DP-1\nDP-3\n");
}

use jobowalls::monitors::{query_command, query_step, MonitorQuery, MonitorQueryNext};

/// Runs the monitor search against canned answers, one per command, as the command line would.
fn search(answer: impl Fn(&str) -> Result<String, String>) -> (Result<Vec<String>, String>, Vec<String>) {
    let mut asked = Vec::new();
    let mut query = MonitorQuery::HyprctlJson;
    loop {
        let command = query_command(&query);
        let shown = format!("{} {}", command.program, command.args.join(" "));
        asked.push(shown.clone());
        let outcome = answer(&shown);
        match query_step(query, outcome) {
            MonitorQueryNext::Run(next) => query = next,
            MonitorQueryNext::Done(result) => return (result, asked),
        }
    }
}

#[test]
fn list_monitors_uses_hyprctl_json_output() {
    let (names, asked) = search(|command| match command {
        "hyprctl -j monitors" => Ok("[{\"name\":\"DP-1\"},{\"name\":\"HDMI-A-1\"}]\n".to_string()),
        _ => Ok(String::new()),
    });

    assert_eq!(list(&names.unwrap()), "DP-1\nHDMI-A-1\n");
    assert_eq!(asked, ["hyprctl -j monitors"]);
}

#[test]
fn list_monitors_falls_back_to_hyprctl_text_when_json_is_empty() {
    let (names, asked) = search(|command| match command {
        "hyprctl -j monitors" => Ok("[]\n".to_string()),
        "hyprctl monitors" => Ok("Monitor DP-2 (ID 0):\nMonitor HDMI-A-2 (ID 1):\n".to_string()),
        _ => Ok(String::new()),
    });

    assert_eq!(list(&names.unwrap()), "DP-2\nHDMI-A-2\n");
    assert_eq!(asked, ["hyprctl -j monitors", "hyprctl monitors"]);
}

#[test]
fn list_monitors_falls_back_to_mpvpaper_outputs_when_hyprctl_fails() {
    let (names, asked) = search(|command| match command {
        "mpvpaper --help-output" => Ok("eDP-1\nDP-4\n".to_string()),
        _ => Err("hyprctl failed intentionally".to_string()),
    });

    assert_eq!(list(&names.unwrap()), "eDP-1\nDP-4\n");
    assert_eq!(asked, ["hyprctl -j monitors", "hyprctl monitors", "mpvpaper --help-output"]);
}

#[test]
fn monitor_search_reports_both_failures() {
    let (names, _) = search(|command| {
        if command.starts_with("hyprctl") {
            Err("no hyprctl".to_string())
        } else {
            Err("no mpvpaper".to_string())
        }
    });

    assert_eq!(
        names.unwrap_err(),
        "unable to list monitors; hyprctl failed with `no hyprctl`, mpvpaper failed with `no mpvpaper`"
    );
}
